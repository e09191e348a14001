use vstd::prelude::*;

verus! {

/// Room trigger: bits 2-0 of AttrsF.
#[derive(Debug, Clone, Copy, PartialEq, Eq)]
pub enum RoomTrigger {
    NoTrigger,
    Boss,
    KillAll,
    Other(u8),
}

/// The trigger that the low three bits of `bits` denote.
pub open spec fn trigger_of_bits(bits: u8) -> RoomTrigger {
    let v = bits & 0x07u8;
    if v == 0 {
        RoomTrigger::NoTrigger
    } else if v == 3 {
        RoomTrigger::Boss
    } else if v == 7 {
        RoomTrigger::KillAll
    } else {
        RoomTrigger::Other(v)
    }
}

/// The 3-bit code of a trigger.
pub open spec fn trigger_code(t: RoomTrigger) -> u8 {
    match t {
        RoomTrigger::NoTrigger => 0,
        RoomTrigger::Boss => 3,
        RoomTrigger::KillAll => 7,
        RoomTrigger::Other(v) => v & 0x07u8,
    }
}

/// The spoiler-log label of a trigger.
pub open spec fn trigger_label(t: RoomTrigger) -> Seq<char> {
    match t {
        RoomTrigger::NoTrigger => "-"@,
        RoomTrigger::Boss => "Boss"@,
        RoomTrigger::KillAll => "Kill-all"@,
        RoomTrigger::Other(_) => "Other"@,
    }
}

/// A trigger as `from_bits` produces it: `Other` only for codes 1, 2, 4, 5 and 6.
pub open spec fn is_canonical_trigger(t: RoomTrigger) -> bool {
    match t {
        RoomTrigger::Other(v) => v == 1 || v == 2 || v == 4 || v == 5 || v == 6,
        _ => true,
    }
}

impl RoomTrigger {
    /// Decode a trigger from the low three bits of `bits`.
    pub fn from_bits(bits: u8) -> (t: RoomTrigger)
        ensures
            t == trigger_of_bits(bits),
    {
        let v = bits & 0x07;
        if v == 0 {
            RoomTrigger::NoTrigger
        } else if v == 3 {
            RoomTrigger::Boss
        } else if v == 7 {
            RoomTrigger::KillAll
        } else {
            RoomTrigger::Other(v)
        }
    }

    /// The 3-bit code of this trigger.
    pub fn to_bits(self) -> (bits: u8)
        ensures
            bits == trigger_code(self),
    {
        match self {
            RoomTrigger::NoTrigger => 0,
            RoomTrigger::Boss => 3,
            RoomTrigger::KillAll => 7,
            RoomTrigger::Other(v) => v & 0x07,
        }
    }

    /// The spoiler-log label of this trigger.
    pub fn label(&self) -> (s: &'static str)
        ensures
            s@ == trigger_label(*self),
    {
        match self {
            RoomTrigger::NoTrigger => "-",
            RoomTrigger::Boss => "Boss",
            RoomTrigger::KillAll => "Kill-all",
            RoomTrigger::Other(_) => "Other",
        }
    }
}

/// Encoding a decoded trigger gives the low three bits back.
pub proof fn lemma_trigger_bits_roundtrip(bits: u8)
    ensures
        trigger_code(trigger_of_bits(bits)) == bits & 0x07u8,
        is_canonical_trigger(trigger_of_bits(bits)),
{
    let v = bits & 0x07u8;
    assert(v < 8 && v & 0x07u8 == v) by (bit_vector)
        requires v == bits & 0x07u8;
}

/// Decoding the code of a trigger gives the same trigger back, for every trigger that
/// decoding can produce.
pub proof fn lemma_trigger_roundtrip(t: RoomTrigger)
    requires
        is_canonical_trigger(t),
    ensures
        trigger_of_bits(trigger_code(t)) == t,
{
    assert(0u8 & 7u8 == 0 && 3u8 & 7u8 == 3 && 7u8 & 7u8 == 7) by (bit_vector);
    if let RoomTrigger::Other(v) = t {
        assert(v & 7u8 == v && (v & 7u8) & 7u8 == v) by (bit_vector)
            requires v == 1 || v == 2 || v == 4 || v == 5 || v == 6;
    }
}

} // verus!
