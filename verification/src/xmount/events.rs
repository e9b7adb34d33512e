//! Mount records, the events of the mount watcher, and their mask.

use vstd::prelude::*;

verus! {

/// One mount, as a line of `mountinfo` describes it.
#[derive(Clone, Debug, PartialEq, Eq)]
pub struct MountInfo {
    pub mount_id: u32,
    pub parent_id: u32,
    pub mount_point: String,
    pub root: String,
    pub fstype: String,
    pub source: String,
    pub mount_opts: String,
    pub super_opts: String,
}

/// What a mount record holds, as plain values.
pub struct MountInfoView {
    pub mount_id: u32,
    pub parent_id: u32,
    pub mount_point: Seq<char>,
    pub root: Seq<char>,
    pub fstype: Seq<char>,
    pub source: Seq<char>,
    pub mount_opts: Seq<char>,
    pub super_opts: Seq<char>,
}

impl View for MountInfo {
    type V = MountInfoView;

    open spec fn view(&self) -> MountInfoView {
        MountInfoView {
            mount_id: self.mount_id,
            parent_id: self.parent_id,
            mount_point: self.mount_point@,
            root: self.root@,
            fstype: self.fstype@,
            source: self.source@,
            mount_opts: self.mount_opts@,
            super_opts: self.super_opts@,
        }
    }
}

impl MountInfo {
    /// A copy of the record.
    pub fn copy(&self) -> (r: MountInfo)
        ensures
            r == *self,
    {
        MountInfo {
            mount_id: self.mount_id,
            parent_id: self.parent_id,
            mount_point: self.mount_point.clone(),
            root: self.root.clone(),
            fstype: self.fstype.clone(),
            source: self.source.clone(),
            mount_opts: self.mount_opts.clone(),
            super_opts: self.super_opts.clone(),
        }
    }
}

#[derive(Clone, Debug, PartialEq, Eq)]
pub enum XMountEvent {
    Mounted { target: String, info: MountInfo },
    Unmounted { target: String, last: MountInfo },
    Changed { target: String, old: MountInfo, new: MountInfo },
}

/// An event as plain values.
pub enum XMountEventView {
    Mounted { target: Seq<char>, info: MountInfoView },
    Unmounted { target: Seq<char>, last: MountInfoView },
    Changed { target: Seq<char>, old: MountInfoView, new: MountInfoView },
}

impl View for XMountEvent {
    type V = XMountEventView;

    open spec fn view(&self) -> XMountEventView {
        match *self {
            XMountEvent::Mounted { target, info } => XMountEventView::Mounted {
                target: target@,
                info: info@,
            },
            XMountEvent::Unmounted { target, last } => XMountEventView::Unmounted {
                target: target@,
                last: last@,
            },
            XMountEvent::Changed { target, old, new } => XMountEventView::Changed {
                target: target@,
                old: old@,
                new: new@,
            },
        }
    }
}

pub const MOUNTED: u8 = 0b0001;

pub const UNMOUNTED: u8 = 0b0010;

pub const CHANGED: u8 = 0b0100;

/// The bit of the mask that stands for the kind of `ev`.
pub open spec fn event_bit(ev: XMountEvent) -> u8 {
    match ev {
        XMountEvent::Mounted { .. } => MOUNTED,
        XMountEvent::Unmounted { .. } => UNMOUNTED,
        XMountEvent::Changed { .. } => CHANGED,
    }
}

impl XMountEvent {
    /// The mask with the one bit of this event's kind.
    pub fn mask(&self) -> (m: EventMask)
        ensures
            m.bits == event_bit(*self),
    {
        match self {
            XMountEvent::Mounted { .. } => EventMask { bits: MOUNTED },
            XMountEvent::Unmounted { .. } => EventMask { bits: UNMOUNTED },
            XMountEvent::Changed { .. } => EventMask { bits: CHANGED },
        }
    }
}

/// A set of event kinds, one bit for each.
#[derive(Clone, Copy, Debug, PartialEq, Eq)]
pub struct EventMask {
    pub bits: u8,
}

impl EventMask {
    pub fn empty() -> (m: Self)
        ensures
            m.bits == 0,
    {
        EventMask { bits: 0 }
    }

    pub fn mounted() -> (m: Self)
        ensures
            m.bits == MOUNTED,
    {
        EventMask { bits: MOUNTED }
    }

    pub fn unmounted() -> (m: Self)
        ensures
            m.bits == UNMOUNTED,
    {
        EventMask { bits: UNMOUNTED }
    }

    pub fn changed() -> (m: Self)
        ensures
            m.bits == CHANGED,
    {
        EventMask { bits: CHANGED }
    }

    /// The kinds of either mask.
    pub fn union(self, other: EventMask) -> (m: Self)
        ensures
            m.bits == self.bits | other.bits,
    {
        EventMask { bits: self.bits | other.bits }
    }

    pub fn bits(&self) -> (b: u8)
        ensures
            b == self.bits,
    {
        self.bits
    }

    /// Whether every kind of `other` is in this mask.
    pub fn contains(&self, other: EventMask) -> (r: bool)
        ensures
            r == (self.bits & other.bits == other.bits),
    {
        self.bits & other.bits == other.bits
    }

    /// Whether the kind of `ev` is in this mask.
    pub fn matches(&self, ev: &XMountEvent) -> (r: bool)
        ensures
            r == (self.bits & event_bit(*ev) != 0),
            r == (self.bits & event_bit(*ev) == event_bit(*ev)),
    {
        let bit = ev.mask().bits;
        let b = self.bits;
        assert((b & bit != 0) == (b & bit == bit)) by (bit_vector)
            requires
                bit == 1 || bit == 2 || bit == 4,
        ;
        b & bit == bit
    }
}

} // verus!
