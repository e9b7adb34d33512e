//! Events of the process watcher and their mask.

use vstd::prelude::*;

verus! {

#[derive(Clone, Debug, PartialEq, Eq)]
pub enum ProcDogEvent {
    Appeared { name: String, pid: i32 },
    Disappeared { name: String, pid: i32 },
    Missing { name: String },
}

pub const APPEARED: u64 = 0b0001;

pub const DISAPPEARED: u64 = 0b0010;

pub const MISSING: u64 = 0b0100;

/// A set of event kinds, one bit for each.
#[derive(Clone, Copy, Debug, PartialEq, Eq)]
pub struct ProcDogMask {
    pub bits: u64,
}

impl ProcDogMask {
    pub fn appeared() -> (m: Self)
        ensures
            m.bits == APPEARED,
    {
        ProcDogMask { bits: APPEARED }
    }

    pub fn disappeared() -> (m: Self)
        ensures
            m.bits == DISAPPEARED,
    {
        ProcDogMask { bits: DISAPPEARED }
    }

    pub fn missing() -> (m: Self)
        ensures
            m.bits == MISSING,
    {
        ProcDogMask { bits: MISSING }
    }

    /// The kinds of either mask.
    pub fn union(self, other: ProcDogMask) -> (m: Self)
        ensures
            m.bits == self.bits | other.bits,
    {
        ProcDogMask { bits: self.bits | other.bits }
    }

    pub fn bits(&self) -> (b: u64)
        ensures
            b == self.bits,
    {
        self.bits
    }
}

/// The bit of the mask that stands for the kind of `ev`.
pub open spec fn event_bit(ev: ProcDogEvent) -> u64 {
    match ev {
        ProcDogEvent::Appeared { .. } => APPEARED,
        ProcDogEvent::Disappeared { .. } => DISAPPEARED,
        ProcDogEvent::Missing { .. } => MISSING,
    }
}

/// An event as plain values.
pub enum ProcEventView {
    Appeared { name: Seq<char>, pid: i32 },
    Disappeared { name: Seq<char>, pid: i32 },
    Missing { name: Seq<char> },
}

impl View for ProcDogEvent {
    type V = ProcEventView;

    open spec fn view(&self) -> ProcEventView {
        match *self {
            ProcDogEvent::Appeared { name, pid } => ProcEventView::Appeared { name: name@, pid },
            ProcDogEvent::Disappeared { name, pid } => ProcEventView::Disappeared {
                name: name@,
                pid,
            },
            ProcDogEvent::Missing { name } => ProcEventView::Missing { name: name@ },
        }
    }
}

impl ProcDogEvent {
    /// The mask with the one bit of this event's kind.
    pub fn mask(&self) -> (m: ProcDogMask)
        ensures
            m.bits == event_bit(*self),
    {
        match self {
            ProcDogEvent::Appeared { .. } => ProcDogMask { bits: APPEARED },
            ProcDogEvent::Disappeared { .. } => ProcDogMask { bits: DISAPPEARED },
            ProcDogEvent::Missing { .. } => ProcDogMask { bits: MISSING },
        }
    }
}

} // verus!
