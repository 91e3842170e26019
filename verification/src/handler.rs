//! Handlers and the two slots of a command.

use vstd::prelude::*;

verus! {

/// Which of a command's two handlers is meant.
#[derive(Clone, Copy, Debug, PartialEq, Eq, Structural)]
pub enum VariantKind {
    /// The handler that takes no arguments.
    NoArgs,
    /// The handler that takes the list of arguments.
    Args,
}

/// Identifies a handler: the bits of the entity under which the host's world
/// keeps the system.
#[derive(Clone, Copy, Debug, PartialEq, Eq, Structural)]
pub struct HandlerId {
    pub bits: u64,
}

impl HandlerId {
    pub fn from_bits(bits: u64) -> (id: HandlerId)
        ensures
            id.bits == bits,
    {
        HandlerId { bits }
    }

    pub fn to_bits(self) -> (bits: u64)
        ensures
            bits == self.bits,
    {
        self.bits
    }
}

/// The handlers registered under one command name.
#[derive(Clone, Copy, Debug)]
pub struct CliCommandSystems {
    pub noargs: Option<HandlerId>,
    pub args: Option<HandlerId>,
}

impl CliCommandSystems {
    /// The handler in the slot of the given kind.
    pub open spec fn slot(self, kind: VariantKind) -> Option<HandlerId> {
        match kind {
            VariantKind::NoArgs => self.noargs,
            VariantKind::Args => self.args,
        }
    }

    /// These slots with the one of the given kind replaced.
    pub open spec fn with_slot(self, kind: VariantKind, handler: Option<HandlerId>) -> Self {
        match kind {
            VariantKind::NoArgs => CliCommandSystems { noargs: handler, args: self.args },
            VariantKind::Args => CliCommandSystems { noargs: self.noargs, args: handler },
        }
    }

    /// Whether neither slot holds a handler.
    pub open spec fn is_vacant(self) -> bool {
        self.noargs is None && self.args is None
    }

    /// Slots without any handler.
    pub fn vacant() -> (slots: CliCommandSystems)
        ensures
            slots.is_vacant(),
    {
        CliCommandSystems { noargs: None, args: None }
    }

    pub fn get(&self, kind: VariantKind) -> (handler: Option<HandlerId>)
        ensures
            handler == self.slot(kind),
    {
        match kind {
            VariantKind::NoArgs => self.noargs,
            VariantKind::Args => self.args,
        }
    }

    pub fn set(&mut self, kind: VariantKind, handler: Option<HandlerId>)
        ensures
            *final(self) == old(self).with_slot(kind, handler),
    {
        match kind {
            VariantKind::NoArgs => {
                self.noargs = handler;
            },
            VariantKind::Args => {
                self.args = handler;
            },
        }
    }

    pub fn is_empty(&self) -> (vacant: bool)
        ensures
            vacant == self.is_vacant(),
    {
        self.noargs.is_none() && self.args.is_none()
    }
}

} // verus!
