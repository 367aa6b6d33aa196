//! Identifiers and the small values that messages carry.

use vstd::prelude::*;

verus! {

/// Identifies one entity, for as long as the process lives.
#[derive(Clone, Copy, Debug, PartialEq, Eq, Structural)]
pub struct Uid(pub usize);

/// Identifies one track, for as long as the process lives.
#[derive(Clone, Copy, Debug, PartialEq, Eq, Structural)]
pub struct TrackUid(pub usize);

/// Which parameter of an entity a control value is meant for.
#[derive(Clone, Copy, Debug, PartialEq, Eq, Structural)]
pub struct ControlIndex(pub usize);

/// A value between zero and one in steps of 1/65535: `u16::MAX` stands for one.
#[derive(Clone, Copy, Debug, PartialEq, Eq, Structural)]
pub struct Normal(pub u16);

/// A normalized value assigned to a parameter, on the scale of [`Normal`].
#[derive(Clone, Copy, Debug, PartialEq, Eq, Structural)]
pub struct ControlValue(pub u16);

/// One of the sixteen MIDI channels.
#[derive(Clone, Copy, Debug, PartialEq, Eq, Structural)]
pub struct MidiChannel(pub u8);

/// A MIDI channel voice message.
#[derive(Clone, Copy, Debug, PartialEq, Eq, Structural)]
pub enum MidiMessage {
    NoteOff { key: u8, vel: u8 },
    NoteOn { key: u8, vel: u8 },
    Aftertouch { key: u8, vel: u8 },
    Controller { controller: u8, value: u8 },
    ProgramChange { program: u8 },
    ChannelAftertouch { vel: u8 },
    PitchBend { bend: u16 },
}

/// The half-open stretch of time `[start, end)` that one generation cycle
/// covers, counted in frames since the transport started.
#[derive(Clone, Copy, Debug, PartialEq, Eq, Structural)]
pub struct TimeRange {
    pub start: u64,
    pub end: u64,
}

impl Normal {
    pub open spec fn spec_minimum() -> Normal {
        Normal(0)
    }

    pub open spec fn spec_maximum() -> Normal {
        Normal(u16::MAX)
    }

    #[verifier::when_used_as_spec(spec_minimum)]
    pub fn minimum() -> (normal: Normal)
        ensures
            normal == Normal::spec_minimum(),
    {
        Normal(0)
    }

    #[verifier::when_used_as_spec(spec_maximum)]
    pub fn maximum() -> (normal: Normal)
        ensures
            normal == Normal::spec_maximum(),
    {
        Normal(u16::MAX)
    }
}

/// Mints identifiers in rising order, each one once.
#[derive(Debug)]
pub struct UidFactory {
    next: usize,
}

impl UidFactory {
    /// The number that the next identifier will carry.
    pub closed spec fn upcoming(&self) -> nat {
        self.next as nat
    }

    /// A factory that starts at `first`.
    pub fn new(first: usize) -> (factory: Self)
        ensures
            factory.upcoming() == first,
    {
        UidFactory { next: first }
    }

    /// Hands out the upcoming identifier and moves on; hands out nothing once
    /// the last number that fits has been reached, so that none is ever reused.
    pub fn mint_next(&mut self) -> (minted: Option<Uid>)
        ensures
            old(self).upcoming() < usize::MAX ==> minted == Some(Uid(old(self).upcoming() as usize))
                && final(self).upcoming() == old(self).upcoming() + 1,
            old(self).upcoming() >= usize::MAX ==> minted.is_none() && *final(self) == *old(self),
    {
        if self.next < usize::MAX {
            let uid = Uid(self.next);
            self.next = self.next + 1;
            Some(uid)
        } else {
            None
        }
    }
}

/// Mints track identifiers in rising order, each one once.
#[derive(Debug)]
pub struct TrackUidFactory {
    next: usize,
}

impl TrackUidFactory {
    /// The number that the next identifier will carry.
    pub closed spec fn upcoming(&self) -> nat {
        self.next as nat
    }

    /// A factory that starts at `first`.
    pub fn new(first: usize) -> (factory: Self)
        ensures
            factory.upcoming() == first,
    {
        TrackUidFactory { next: first }
    }

    /// Hands out the upcoming identifier and moves on; hands out nothing once
    /// the last number that fits has been reached, so that none is ever reused.
    pub fn mint_next(&mut self) -> (minted: Option<TrackUid>)
        ensures
            old(self).upcoming() < usize::MAX ==> minted == Some(
                TrackUid(old(self).upcoming() as usize),
            ) && final(self).upcoming() == old(self).upcoming() + 1,
            old(self).upcoming() >= usize::MAX ==> minted.is_none() && *final(self) == *old(self),
    {
        if self.next < usize::MAX {
            let uid = TrackUid(self.next);
            self.next = self.next + 1;
            Some(uid)
        } else {
            None
        }
    }
}

} // verus!
