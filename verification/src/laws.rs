//! What holds of the table and of the dispatch, whatever the commands.
//!
//! Each law is stated over the view of a table and over the plan of a
//! dispatch, the terms in which the functions of this crate say what they do.

use crate::dispatch::{checked_out, plan, restored, select, Plan, Report};
use crate::handler::{HandlerId, VariantKind};
use crate::line::{is_blank, is_separator, is_word, lemma_blank_line, lemma_word_len, line_words, word_len, words};
use crate::registry::{after_rename, handler_at, has_command, rename_outcome, RenameError, Slots};
use vstd::prelude::*;

verus! {

/// The other of the two kinds.
pub open spec fn other_kind(kind: VariantKind) -> VariantKind {
    match kind {
        VariantKind::NoArgs => VariantKind::Args,
        VariantKind::Args => VariantKind::NoArgs,
    }
}

/// After a handler is registered, a lookup of its slot finds it, the command
/// exists, and a lookup of any other slot finds what it found before.
pub proof fn law_register_then_lookup(
    slots: Slots,
    name: Seq<char>,
    kind: VariantKind,
    handler: HandlerId,
    other_name: Seq<char>,
    other: VariantKind,
)
    ensures
        handler_at(slots.insert((name, kind), handler), name, kind) == Some(handler),
        has_command(slots.insert((name, kind), handler), name),
        (other_name, other) != (name, kind) ==> handler_at(
            slots.insert((name, kind), handler),
            other_name,
            other,
        ) == handler_at(slots, other_name, other),
{
}

/// Registering a second handler in a slot replaces the first and nothing
/// else: the table is the one in which only the second was registered.
pub proof fn law_register_replaces(
    slots: Slots,
    name: Seq<char>,
    kind: VariantKind,
    first: HandlerId,
    second: HandlerId,
)
    ensures
        slots.insert((name, kind), first).insert((name, kind), second) == slots.insert(
            (name, kind),
            second,
        ),
{
    assert(slots.insert((name, kind), first).insert((name, kind), second) =~= slots.insert(
        (name, kind),
        second,
    ));
}

/// After one handler is registered for each kind under one name, both are
/// there, each in its own slot, in whichever order they were registered.
pub proof fn law_register_both_variants(
    slots: Slots,
    name: Seq<char>,
    noargs: HandlerId,
    args: HandlerId,
)
    ensures
        ({
            let both = slots.insert((name, VariantKind::NoArgs), noargs).insert(
                (name, VariantKind::Args),
                args,
            );
            &&& handler_at(both, name, VariantKind::NoArgs) == Some(noargs)
            &&& handler_at(both, name, VariantKind::Args) == Some(args)
            &&& both == slots.insert((name, VariantKind::Args), args).insert(
                (name, VariantKind::NoArgs),
                noargs,
            )
        }),
{
    assert(slots.insert((name, VariantKind::NoArgs), noargs).insert(
        (name, VariantKind::Args),
        args,
    ) =~= slots.insert((name, VariantKind::Args), args).insert(
        (name, VariantKind::NoArgs),
        noargs,
    ));
}

/// Deregistering a slot empties it and leaves every other slot alone. The
/// command exists afterwards exactly if its other slot holds a handler: so
/// deregistering the only variant of a command removes the command.
pub proof fn law_deregister(
    slots: Slots,
    name: Seq<char>,
    kind: VariantKind,
    other_name: Seq<char>,
    other: VariantKind,
)
    ensures
        handler_at(slots.remove((name, kind)), name, kind) is None,
        has_command(slots.remove((name, kind)), name) == slots.contains_key(
            (name, other_kind(kind)),
        ),
        (other_name, other) != (name, kind) ==> handler_at(
            slots.remove((name, kind)),
            other_name,
            other,
        ) == handler_at(slots, other_name, other),
{
}

/// Each of the words of a sequence holds at least one character and no
/// separator: neither a name nor an argument can hold whitespace.
pub proof fn law_words_hold_no_separator(s: Seq<char>)
    ensures
        forall|k: int| 0 <= k < words(s).len() ==> is_word(#[trigger] words(s)[k]),
    decreases s.len(),
{
    if s.len() == 0 {
        assert(words(s).len() == 0);
    } else if is_separator(s.first()) {
        law_words_hold_no_separator(s.drop_first());
        assert(words(s) == words(s.drop_first()));
    } else {
        lemma_word_len(s);
        let n = word_len(s) as int;
        law_words_hold_no_separator(s.skip(n));
        assert(is_word(s.take(n)));
        assert(words(s) == seq![s.take(n)] + words(s.skip(n)));
        assert forall|k: int| 0 <= k < words(s).len() implies is_word(#[trigger] words(s)[k]) by {
            if k > 0 {
                assert(words(s)[k] == words(s.skip(n))[k - 1]);
            }
        }
    }
}

/// What splitting keeps: every character that is no separator.
pub open spec fn kept() -> spec_fn(char) -> bool {
    |c: char| !is_separator(c)
}

proof fn lemma_word_is_kept(s: Seq<char>, n: int)
    requires
        0 <= n <= s.len(),
        forall|i: int| 0 <= i < n ==> !is_separator(#[trigger] s[i]),
    ensures
        s.filter(kept()) == s.take(n) + s.skip(n).filter(kept()),
    decreases n,
{
    if n == 0 {
        assert(s.skip(0) =~= s);
        assert(s.take(0) + s.filter(kept()) =~= s.filter(kept()));
    } else {
        let rest = s.drop_first();
        assert(s =~= seq![s.first()] + rest);
        rest.lemma_filter_prepend(s.first(), kept());
        assert forall|i: int| 0 <= i < n - 1 implies !is_separator(#[trigger] rest[i]) by {
            assert(rest[i] == s[i + 1]);
        }
        lemma_word_is_kept(rest, n - 1);
        assert(rest.skip(n - 1) =~= s.skip(n));
        assert(seq![s.first()] + (rest.take(n - 1) + s.skip(n).filter(kept())) =~= s.take(n)
            + s.skip(n).filter(kept()));
    }
}

/// Splitting loses nothing but separators: the words of a sequence, one
/// after the other, are the sequence without its separators.
pub proof fn law_words_keep_all_but_separators(s: Seq<char>)
    ensures
        words(s).flatten() == s.filter(kept()),
    decreases s.len(),
{
    if s.len() == 0 {
        assert(words(s).len() == 0);
        assert(s.filter(kept()) =~= s) by {
            s.lemma_filter_len(kept());
        }
    } else if is_separator(s.first()) {
        let rest = s.drop_first();
        law_words_keep_all_but_separators(rest);
        assert(words(s) == words(rest));
        assert(s =~= seq![s.first()] + rest);
        rest.lemma_filter_prepend(s.first(), kept());
        assert(Seq::<char>::empty() + rest.filter(kept()) =~= rest.filter(kept()));
    } else {
        lemma_word_len(s);
        let n = word_len(s) as int;
        law_words_keep_all_but_separators(s.skip(n));
        assert(words(s) == seq![s.take(n)] + words(s.skip(n)));
        lemma_word_is_kept(s, n);
        let all = seq![s.take(n)] + words(s.skip(n));
        assert(all.first() == s.take(n));
        assert(all.drop_first() =~= words(s.skip(n)));
    }
}

/// A line with arguments, for a command that has a handler taking them, runs
/// that handler with those arguments, whether or not the command has the
/// other handler too.
pub proof fn law_arguments_go_to_args_handler(slots: Slots, line: Seq<char>)
    requires
        line_words(line).len() > 1,
        slots.contains_key((line_words(line).first(), VariantKind::Args)),
    ensures
        plan(slots, line) == (Plan::Run {
            name: line_words(line).first(),
            kind: VariantKind::Args,
            handler: slots[(line_words(line).first(), VariantKind::Args)],
            args: line_words(line).drop_first(),
            args_discarded: false,
        }),
{
}

/// A line with arguments, for a command that only has the handler without
/// arguments, runs that handler, without the arguments and with a warning.
pub proof fn law_arguments_discarded(slots: Slots, line: Seq<char>)
    requires
        line_words(line).len() > 1,
        slots.contains_key((line_words(line).first(), VariantKind::NoArgs)),
        !slots.contains_key((line_words(line).first(), VariantKind::Args)),
    ensures
        plan(slots, line) == (Plan::Run {
            name: line_words(line).first(),
            kind: VariantKind::NoArgs,
            handler: slots[(line_words(line).first(), VariantKind::NoArgs)],
            args: Seq::empty(),
            args_discarded: true,
        }),
{
}

/// A line without arguments runs the handler without arguments where the
/// command has one, whether or not it has the other handler too.
pub proof fn law_bare_name_goes_to_noargs_handler(slots: Slots, line: Seq<char>)
    requires
        line_words(line).len() == 1,
        slots.contains_key((line_words(line).first(), VariantKind::NoArgs)),
    ensures
        plan(slots, line) == (Plan::Run {
            name: line_words(line).first(),
            kind: VariantKind::NoArgs,
            handler: slots[(line_words(line).first(), VariantKind::NoArgs)],
            args: Seq::empty(),
            args_discarded: false,
        }),
{
}

/// A line without arguments, for a command that only has the handler taking
/// arguments, runs that handler with an empty list.
pub proof fn law_bare_name_falls_back_to_args_handler(slots: Slots, line: Seq<char>)
    requires
        line_words(line).len() == 1,
        !slots.contains_key((line_words(line).first(), VariantKind::NoArgs)),
        slots.contains_key((line_words(line).first(), VariantKind::Args)),
    ensures
        plan(slots, line) == (Plan::Run {
            name: line_words(line).first(),
            kind: VariantKind::Args,
            handler: slots[(line_words(line).first(), VariantKind::Args)],
            args: Seq::empty(),
            args_discarded: false,
        }),
{
    assert(line_words(line).drop_first() =~= Seq::<Seq<char>>::empty());
}

/// A line of nothing but blank characters, the empty line among them, is
/// reported as empty input: no handler is checked out and the table is as it
/// was. No other line is reported so.
pub proof fn law_blank_line_is_empty_input(slots: Slots, line: Seq<char>)
    ensures
        (forall|i: int| 0 <= i < line.len() ==> is_blank(#[trigger] line[i])) <==> plan(slots, line)
            == Plan::Report(Report::EmptyInput),
        plan(slots, line) == Plan::Report(Report::EmptyInput) ==> checked_out(
            slots,
            plan(slots, line),
        ) == slots,
{
    lemma_blank_line(line);
}

/// A line whose first word names no command is reported as such: no handler
/// is checked out and the table is as it was. No other line is reported so.
pub proof fn law_unknown_command_is_not_found(slots: Slots, line: Seq<char>)
    requires
        line_words(line).len() > 0,
    ensures
        !has_command(slots, line_words(line).first()) <==> plan(slots, line) == Plan::Report(
            Report::CommandNotFound,
        ),
        plan(slots, line) == Plan::Report(Report::CommandNotFound) ==> checked_out(
            slots,
            plan(slots, line),
        ) == slots,
{
}

/// While a handler is checked out, no line selects it: whatever is
/// dispatched in the meantime runs another handler or none.
pub proof fn law_checked_out_handler_is_not_selected(
    slots: Slots,
    line: Seq<char>,
    inner_line: Seq<char>,
)
    requires
        plan(slots, line) is Run,
    ensures
        ({
            let inner = plan(checked_out(slots, plan(slots, line)), inner_line);
            inner is Run ==> (inner->name, inner->kind) != (
                plan(slots, line)->name,
                plan(slots, line)->kind,
            )
        }),
{
}

/// While the only handler of a command is checked out, the command is not
/// found: a handler that dispatches a line naming its own command sees it
/// reported as unknown, and the table stays as it is.
pub proof fn law_only_handler_checked_out(slots: Slots, line: Seq<char>, inner_line: Seq<char>)
    requires
        plan(slots, line) is Run,
        !slots.contains_key((plan(slots, line)->name, other_kind(plan(slots, line)->kind))),
        line_words(inner_line).len() > 0,
        line_words(inner_line).first() == plan(slots, line)->name,
    ensures
        ({
            let meanwhile = checked_out(slots, plan(slots, line));
            &&& !has_command(meanwhile, plan(slots, line)->name)
            &&& plan(meanwhile, inner_line) == Plan::Report(Report::CommandNotFound)
            &&& checked_out(meanwhile, plan(meanwhile, inner_line)) == meanwhile
        }),
{
}

/// Checking a handler out and putting it back leaves the table as it was,
/// so that the same line is answered in the same way again.
pub proof fn law_dispatch_round_trip(slots: Slots, line: Seq<char>)
    ensures
        restored(checked_out(slots, plan(slots, line)), plan(slots, line)) == slots,
{
    let p = plan(slots, line);
    assert(restored(checked_out(slots, p), p) =~= slots);
}

/// Putting a handler back restores its slot whatever was done to the table
/// while it ran: the handler is in its slot again, and every other slot is as
/// the run left it.
pub proof fn law_put_back_restores_slot(
    meanwhile: Slots,
    invocation: Plan,
    other_name: Seq<char>,
    other: VariantKind,
)
    requires
        invocation is Run,
    ensures
        handler_at(restored(meanwhile, invocation), invocation->name, invocation->kind) == Some(
            invocation->handler,
        ),
        (other_name, other) != (invocation->name, invocation->kind) ==> handler_at(
            restored(meanwhile, invocation),
            other_name,
            other,
        ) == handler_at(meanwhile, other_name, other),
{
}

/// A command is renamed exactly where the new name is free and the old one
/// names a command. Then the command is found under the new name with the
/// handlers it had, nothing is found under the old name, and every other
/// command is as it was.
pub proof fn law_rename_moves_command(
    slots: Slots,
    from: Seq<char>,
    to: Seq<char>,
    kind: VariantKind,
    other_name: Seq<char>,
)
    requires
        has_command(slots, from),
        !has_command(slots, to),
    ensures
        rename_outcome(slots, from, to) is Ok,
        !has_command(after_rename(slots, from, to), from),
        has_command(after_rename(slots, from, to), to),
        handler_at(after_rename(slots, from, to), to, kind) == handler_at(slots, from, kind),
        other_name != from && other_name != to ==> handler_at(
            after_rename(slots, from, to),
            other_name,
            kind,
        ) == handler_at(slots, other_name, kind),
{
}

/// Where the new name is taken, renaming fails with a name conflict and the
/// table is as it was: both commands keep their names and handlers.
pub proof fn law_rename_conflict(slots: Slots, from: Seq<char>, to: Seq<char>)
    requires
        has_command(slots, to),
    ensures
        rename_outcome(slots, from, to) == Err::<(), RenameError>(RenameError::NameConflict),
        after_rename(slots, from, to) == slots,
{
}

} // verus!
