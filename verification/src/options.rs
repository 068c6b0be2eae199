use vstd::prelude::*;

verus! {

// Processing mode.
pub const PROCESS_OFFLINE: i32 = 0x0000_0000;

pub const PROCESS_REAL_TIME: i32 = 0x0000_0001;

// Stretch profile; the engine no longer reads it.
pub const STRETCH_ELASTIC: i32 = 0x0000_0000;

pub const STRETCH_PRECISE: i32 = 0x0000_0010;

// Transient handling.
pub const TRANSIENTS_CRISP: i32 = 0x0000_0000;

pub const TRANSIENTS_MIXED: i32 = 0x0000_0100;

pub const TRANSIENTS_SMOOTH: i32 = 0x0000_0200;

// Onset detector.
pub const DETECTOR_COMPOUND: i32 = 0x0000_0000;

pub const DETECTOR_PERCUSSIVE: i32 = 0x0000_0400;

pub const DETECTOR_SOFT: i32 = 0x0000_0800;

// Phase coherence.
pub const PHASE_LAMINAR: i32 = 0x0000_0000;

pub const PHASE_INDEPENDENT: i32 = 0x0000_2000;

// Threading policy.
pub const THREADING_AUTO: i32 = 0x0000_0000;

pub const THREADING_NEVER: i32 = 0x0001_0000;

pub const THREADING_ALWAYS: i32 = 0x0002_0000;

// Window length.
pub const WINDOW_STANDARD: i32 = 0x0000_0000;

pub const WINDOW_SHORT: i32 = 0x0010_0000;

pub const WINDOW_LONG: i32 = 0x0020_0000;

// Smoothing.
pub const SMOOTHING_OFF: i32 = 0x0000_0000;

pub const SMOOTHING_ON: i32 = 0x0080_0000;

// Formant handling.
pub const FORMANT_SHIFTED: i32 = 0x0000_0000;

pub const FORMANT_PRESERVED: i32 = 0x0100_0000;

// Pitch-shifting quality.
pub const PITCH_HIGH_SPEED: i32 = 0x0000_0000;

pub const PITCH_HIGH_QUALITY: i32 = 0x0200_0000;

pub const PITCH_HIGH_CONSISTENCY: i32 = 0x0400_0000;

// Channel linkage.
pub const CHANNELS_APART: i32 = 0x0000_0000;

pub const CHANNELS_TOGETHER: i32 = 0x1000_0000;

// Engine tier.
pub const ENGINE_FASTER: i32 = 0x0000_0000;

pub const ENGINE_FINER: i32 = 0x2000_0000;

/// Every bit that some flag uses.
pub const ALL_BITS: i32 = 0x37b3_2f11;

/// The two bits of each group that offers three alternatives.
pub const TRANSIENTS_MASK: i32 = 0x0000_0300;

pub const DETECTOR_MASK: i32 = 0x0000_0c00;

pub const THREADING_MASK: i32 = 0x0003_0000;

pub const WINDOW_MASK: i32 = 0x0030_0000;

pub const PITCH_MASK: i32 = 0x0600_0000;

/// Whether `bits` is a choice of one alternative in every group: it holds
/// no bit that no flag uses, and of no group both bits. The groups are
/// independent of each other; in each, the alternative without bits is the
/// default.
pub open spec fn consistent(bits: i32) -> bool {
    &&& bits & !ALL_BITS == 0
    &&& bits & TRANSIENTS_MASK != TRANSIENTS_MASK
    &&& bits & DETECTOR_MASK != DETECTOR_MASK
    &&& bits & THREADING_MASK != THREADING_MASK
    &&& bits & WINDOW_MASK != WINDOW_MASK
    &&& bits & PITCH_MASK != PITCH_MASK
}

/// Tells whether `bits` is a choice of one alternative in every group.
pub fn is_consistent(bits: i32) -> (answer: bool)
    ensures
        answer == consistent(bits),
{
    bits & !ALL_BITS == 0 && bits & TRANSIENTS_MASK != TRANSIENTS_MASK && bits & DETECTOR_MASK
        != DETECTOR_MASK && bits & THREADING_MASK != THREADING_MASK && bits & WINDOW_MASK
        != WINDOW_MASK && bits & PITCH_MASK != PITCH_MASK
}

/// A set of engine options: one alternative of every group, chosen once and
/// never changed afterwards.
#[derive(Debug, Clone, Copy, PartialEq, Eq, Structural)]
pub struct RubberBandOption {
    bits: i32,
}

impl View for RubberBandOption {
    type V = i32;

    /// The bit pattern that the engine is given.
    closed spec fn view(&self) -> i32 {
        self.bits
    }
}

impl RubberBandOption {
    #[verifier::type_invariant]
    spec fn well_formed(self) -> bool {
        consistent(self.bits)
    }

    /// The default of every group.
    pub fn empty() -> (options: RubberBandOption)
        ensures
            options@ == 0,
    {
        assert(consistent(0i32)) by {
            assert(0i32 & !0x37b3_2f11i32 == 0) by (bit_vector);
            assert(0i32 & 0x0000_0300i32 == 0) by (bit_vector);
            assert(0i32 & 0x0000_0c00i32 == 0) by (bit_vector);
            assert(0i32 & 0x0003_0000i32 == 0) by (bit_vector);
            assert(0i32 & 0x0030_0000i32 == 0) by (bit_vector);
            assert(0i32 & 0x0600_0000i32 == 0) by (bit_vector);
        }
        RubberBandOption { bits: 0 }
    }

    /// The options with the given bit pattern, where it is a choice of one
    /// alternative in every group, and nothing where it is not.
    pub fn from_bits(bits: i32) -> (options: Option<RubberBandOption>)
        ensures
            options is Some <==> consistent(bits),
            options matches Some(o) ==> o@ == bits,
    {
        if is_consistent(bits) {
            Some(RubberBandOption { bits })
        } else {
            None
        }
    }

    /// The bit pattern that the engine is given.
    pub fn bits(&self) -> (bits: i32)
        ensures
            bits == self@,
            consistent(bits),
    {
        proof {
            use_type_invariant(self);
        }
        self.bits
    }

    /// Whether every bit of `flag` is chosen.
    pub fn contains(&self, flag: i32) -> (answer: bool)
        ensures
            answer == (self@ & flag == flag),
    {
        self.bits & flag == flag
    }

    /// Both sets together, where they choose no two alternatives of one
    /// group, and nothing where they do.
    pub fn union(self, other: RubberBandOption) -> (options: Option<RubberBandOption>)
        ensures
            options is Some <==> consistent(self@ | other@),
            options matches Some(o) ==> o@ == self@ | other@,
    {
        Self::from_bits(self.bits | other.bits)
    }

    /// The preset for percussive material: a short window and independent
    /// phases, the default everywhere else.
    pub fn percussive_options() -> (options: RubberBandOption)
        ensures
            options@ == WINDOW_SHORT | PHASE_INDEPENDENT,
            options@ == 0x0010_2000i32,
    {
        assert(0x0010_0000i32 | 0x0000_2000i32 == 0x0010_2000i32) by (bit_vector);
        assert(consistent(0x0010_2000i32)) by {
            assert(0x0010_2000i32 & !0x37b3_2f11i32 == 0) by (bit_vector);
            assert(0x0010_2000i32 & 0x0000_0300i32 == 0) by (bit_vector);
            assert(0x0010_2000i32 & 0x0000_0c00i32 == 0) by (bit_vector);
            assert(0x0010_2000i32 & 0x0003_0000i32 == 0) by (bit_vector);
            assert(0x0010_2000i32 & 0x0030_0000i32 == 0x0010_0000i32) by (bit_vector);
            assert(0x0010_2000i32 & 0x0600_0000i32 == 0) by (bit_vector);
        }
        RubberBandOption { bits: WINDOW_SHORT | PHASE_INDEPENDENT }
    }
}

impl Default for RubberBandOption {
    fn default() -> (options: RubberBandOption)
        ensures
            options@ == 0,
    {
        RubberBandOption::empty()
    }
}

} // verus!
