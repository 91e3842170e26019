//! From a line of text to the handler that is to run.
//!
//! Running a handler needs the host's world, and the handler may come back
//! to the table while it runs. So a dispatch has two halves with the host in
//! between: `dispatch` reads the line, selects the handler and takes it out of
//! the table; the host runs it; `complete` puts it back.

use crate::handler::{HandlerId, VariantKind};
use crate::line::{line_words, parse_line, texts};
use crate::registry::{CliCommands, Slots};
use vstd::prelude::*;

verus! {

/// What a dispatch may have to tell the operator.
#[derive(Clone, Copy, Debug, PartialEq, Eq, Structural)]
pub enum Report {
    /// The line holds no command. A warning; nothing runs.
    EmptyInput,
    /// No command of that name exists. An error; nothing runs.
    CommandNotFound,
    /// The command takes no arguments. A warning; it runs without them.
    ArgumentsUnsupported,
    /// The handler ran and failed. An error; the command stays registered.
    HandlerFailure,
}

/// How grave a report is.
#[derive(Clone, Copy, Debug, PartialEq, Eq, Structural)]
pub enum Severity {
    Warning,
    Error,
}

impl Report {
    /// Empty input and unsupported arguments are warnings; an unknown command
    /// and a failed handler are errors.
    pub open spec fn spec_severity(self) -> Severity {
        match self {
            Report::EmptyInput | Report::ArgumentsUnsupported => Severity::Warning,
            Report::CommandNotFound | Report::HandlerFailure => Severity::Error,
        }
    }

    /// How grave this report is.
    #[verifier::when_used_as_spec(spec_severity)]
    pub fn severity(self) -> (severity: Severity)
        ensures
            severity == self.spec_severity(),
    {
        match self {
            Report::EmptyInput => Severity::Warning,
            Report::ArgumentsUnsupported => Severity::Warning,
            Report::CommandNotFound => Severity::Error,
            Report::HandlerFailure => Severity::Error,
        }
    }
}

/// How the run of a handler ended.
#[derive(Clone, Copy, Debug, PartialEq, Eq, Structural)]
pub enum Outcome {
    Completed,
    Failed,
}

/// A handler that was taken out of the table in order to run.
pub struct Invocation {
    /// The command's name.
    pub name: String,
    /// The slot that the handler was taken from.
    pub kind: VariantKind,
    pub handler: HandlerId,
    /// The arguments for the handler: none for a handler of kind `NoArgs`.
    pub args: Vec<String>,
    /// Whether the line held arguments that the handler does not take.
    pub args_discarded: bool,
}

/// What is to be done about a line.
pub enum Dispatch {
    /// Nothing runs; the table is as it was.
    Reported(Report),
    /// The handler is to run, and `complete` is to be called after it.
    CheckedOut(Invocation),
}

/// A `Dispatch` as a plain value.
pub enum Plan {
    Report(Report),
    Run {
        name: Seq<char>,
        kind: VariantKind,
        handler: HandlerId,
        args: Seq<Seq<char>>,
        args_discarded: bool,
    },
}

impl View for Invocation {
    type V = Plan;

    open spec fn view(&self) -> Plan {
        Plan::Run {
            name: self.name@,
            kind: self.kind,
            handler: self.handler,
            args: texts(self.args@),
            args_discarded: self.args_discarded,
        }
    }
}

impl View for Dispatch {
    type V = Plan;

    open spec fn view(&self) -> Plan {
        match *self {
            Dispatch::Reported(report) => Plan::Report(report),
            Dispatch::CheckedOut(invocation) => invocation@,
        }
    }
}

/// The variant of the command `name` that answers a line with or without
/// arguments. With arguments the handler that takes them comes first; the
/// other one stands in where that is missing, and the other way round.
pub open spec fn select(slots: Slots, name: Seq<char>, has_args: bool) -> Option<VariantKind> {
    if has_args && slots.contains_key((name, VariantKind::Args)) {
        Some(VariantKind::Args)
    } else if slots.contains_key((name, VariantKind::NoArgs)) {
        Some(VariantKind::NoArgs)
    } else if slots.contains_key((name, VariantKind::Args)) {
        Some(VariantKind::Args)
    } else {
        None
    }
}

/// What is to be done about `line` with the commands of `slots`.
pub open spec fn plan(slots: Slots, line: Seq<char>) -> Plan {
    let tokens = line_words(line);
    if tokens.len() == 0 {
        Plan::Report(Report::EmptyInput)
    } else {
        let name = tokens.first();
        let args = tokens.drop_first();
        match select(slots, name, args.len() > 0) {
            None => Plan::Report(Report::CommandNotFound),
            Some(kind) => Plan::Run {
                name,
                kind,
                handler: slots[(name, kind)],
                args: if kind == VariantKind::Args {
                    args
                } else {
                    Seq::empty()
                },
                args_discarded: kind == VariantKind::NoArgs && args.len() > 0,
            },
        }
    }
}

/// The table while the handler of `plan` runs: without that handler.
pub open spec fn checked_out(slots: Slots, plan: Plan) -> Slots {
    match plan {
        Plan::Report(_) => slots,
        Plan::Run { name, kind, .. } => slots.remove((name, kind)),
    }
}

/// The table after the handler of `plan` has run: with that handler in its
/// slot again.
pub open spec fn restored(slots: Slots, plan: Plan) -> Slots {
    match plan {
        Plan::Report(_) => slots,
        Plan::Run { name, kind, handler, .. } => slots.insert((name, kind), handler),
    }
}

/// What the end of a run has to tell the operator.
pub open spec fn verdict(outcome: Outcome) -> Option<Report> {
    match outcome {
        Outcome::Completed => None,
        Outcome::Failed => Some(Report::HandlerFailure),
    }
}

impl Invocation {
    /// The warning that goes with this invocation, if there is one.
    pub fn warning(&self) -> (report: Option<Report>)
        ensures
            report == (if self.args_discarded {
                Some(Report::ArgumentsUnsupported)
            } else {
                None
            }),
    {
        if self.args_discarded {
            Some(Report::ArgumentsUnsupported)
        } else {
            None
        }
    }
}

impl CliCommands {
    /// Selects the variant of the command `name` for a line with or without
    /// arguments.
    pub fn select(&self, name: &str, has_args: bool) -> (kind: Option<VariantKind>)
        ensures
            kind == select(self@, name@, has_args),
    {
        let with_args = self.lookup(name, VariantKind::Args).is_some();
        if has_args && with_args {
            Some(VariantKind::Args)
        } else if self.lookup(name, VariantKind::NoArgs).is_some() {
            Some(VariantKind::NoArgs)
        } else if with_args {
            Some(VariantKind::Args)
        } else {
            None
        }
    }

    /// Reads `line`, selects the handler that answers it and takes that
    /// handler out of the table.
    ///
    /// Where the line holds no command, or names none that exists, this is
    /// reported and the table is left as it is.
    pub fn dispatch(&mut self, line: &str) -> (dispatch: Dispatch)
        ensures
            dispatch@ == plan(old(self)@, line@),
            final(self)@ == checked_out(old(self)@, plan(old(self)@, line@)),
    {
        let parsed = match parse_line(line) {
            Some(parsed) => parsed,
            None => {
                return Dispatch::Reported(Report::EmptyInput);
            },
        };
        let ghost tokens = line_words(line@);
        proof {
            assert(tokens.first() == parsed.name@);
            assert(tokens.drop_first() =~= texts(parsed.args@));
        }
        let has_args = parsed.args.len() > 0;
        let kind = match self.select(parsed.name.as_str(), has_args) {
            Some(kind) => kind,
            None => {
                return Dispatch::Reported(Report::CommandNotFound);
            },
        };
        let handler = self.take(parsed.name.as_str(), kind).unwrap();
        let (args, args_discarded) = match kind {
            VariantKind::Args => (parsed.args, false),
            VariantKind::NoArgs => {
                proof {
                    assert(texts(Seq::<String>::empty()) =~= Seq::<Seq<char>>::empty());
                }
                (Vec::new(), has_args)
            },
        };
        Dispatch::CheckedOut(Invocation { name: parsed.name, kind, handler, args, args_discarded })
    }

    /// Puts the handler of `invocation` back into its slot once it has run,
    /// however the run ended, and says what the run's end has to report.
    pub fn complete(&mut self, invocation: &Invocation, outcome: Outcome) -> (report: Option<Report>)
        ensures
            final(self)@ == restored(old(self)@, invocation@),
            report == verdict(outcome),
    {
        self.put_back(invocation.name.as_str(), invocation.kind, invocation.handler);
        match outcome {
            Outcome::Completed => None,
            Outcome::Failed => Some(Report::HandlerFailure),
        }
    }
}

} // verus!
