//! Events of the file watcher and the mask that selects among them.

use vstd::prelude::*;

verus! {

#[derive(Clone, Debug, PartialEq, Eq)]
pub enum FileScreamEvent {
    Created { path: String },
    Changed { path: String },
    Removed { path: String },
}

/// An event as plain values.
pub enum FsEventView {
    Created { path: Seq<char> },
    Changed { path: Seq<char> },
    Removed { path: Seq<char> },
}

impl View for FileScreamEvent {
    type V = FsEventView;

    open spec fn view(&self) -> FsEventView {
        match *self {
            FileScreamEvent::Created { path } => FsEventView::Created { path: path@ },
            FileScreamEvent::Changed { path } => FsEventView::Changed { path: path@ },
            FileScreamEvent::Removed { path } => FsEventView::Removed { path: path@ },
        }
    }
}

pub const CREATED: u8 = 0b0001;

pub const CHANGED: u8 = 0b0010;

pub const REMOVED: u8 = 0b0100;

/// The bit of the mask that stands for the kind of `ev`.
pub open spec fn event_bit(ev: FileScreamEvent) -> u8 {
    match ev {
        FileScreamEvent::Created { .. } => CREATED,
        FileScreamEvent::Changed { .. } => CHANGED,
        FileScreamEvent::Removed { .. } => REMOVED,
    }
}

impl FileScreamEvent {
    /// The path that the event is about.
    pub open spec fn path(self) -> Seq<char> {
        match self {
            FileScreamEvent::Created { path } => path@,
            FileScreamEvent::Changed { path } => path@,
            FileScreamEvent::Removed { path } => path@,
        }
    }

    /// The mask with the one bit of this event's kind.
    pub fn mask(&self) -> (m: EventMask)
        ensures
            m.bits == event_bit(*self),
    {
        match self {
            FileScreamEvent::Created { .. } => EventMask { bits: CREATED },
            FileScreamEvent::Changed { .. } => EventMask { bits: CHANGED },
            FileScreamEvent::Removed { .. } => EventMask { bits: REMOVED },
        }
    }
}

/// A set of event kinds, one bit for each.
#[derive(Clone, Copy, Debug, PartialEq, Eq)]
pub struct EventMask {
    pub bits: u8,
}

impl EventMask {
    pub fn empty() -> (m: Self)
        ensures
            m.bits == 0,
    {
        EventMask { bits: 0 }
    }

    pub fn created() -> (m: Self)
        ensures
            m.bits == CREATED,
    {
        EventMask { bits: CREATED }
    }

    pub fn changed() -> (m: Self)
        ensures
            m.bits == CHANGED,
    {
        EventMask { bits: CHANGED }
    }

    pub fn removed() -> (m: Self)
        ensures
            m.bits == REMOVED,
    {
        EventMask { bits: REMOVED }
    }

    /// The kinds of either mask.
    pub fn union(self, other: EventMask) -> (m: Self)
        ensures
            m.bits == self.bits | other.bits,
    {
        EventMask { bits: self.bits | other.bits }
    }

    pub fn bits(&self) -> (b: u8)
        ensures
            b == self.bits,
    {
        self.bits
    }

    /// Whether every kind of `other` is in this mask.
    pub fn contains(&self, other: EventMask) -> (r: bool)
        ensures
            r == (self.bits & other.bits == other.bits),
    {
        self.bits & other.bits == other.bits
    }

    /// Whether the kind of `ev` is in this mask.
    pub fn matches(&self, ev: &FileScreamEvent) -> (r: bool)
        ensures
            r == (self.bits & event_bit(*ev) != 0),
            r == (self.bits & event_bit(*ev) == event_bit(*ev)),
    {
        let bit = ev.mask().bits;
        let b = self.bits;
        assert((b & bit != 0) == (b & bit == bit)) by (bit_vector)
            requires
                bit == 1 || bit == 2 || bit == 4,
        ;
        b & bit == bit
    }
}

} // verus!
