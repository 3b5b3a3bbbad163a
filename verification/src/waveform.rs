//! The per-oscillator waveform choice and the modulation algorithm choice,
//! with their host-facing names and their persisted encodings.
//!
//! The host persists each choice as the IEEE-754 double of its index, in
//! little-endian bytes; the bit patterns of the eight small whole numbers
//! are fixed, so the encoding is a plain table.

use vstd::prelude::*;

verus! {

/// The waveform generator selected for one oscillator. `Random` re-rolls
/// into a concrete waveform once at note-on.
#[derive(Clone, Copy, PartialEq, Eq, Structural, Debug)]
pub enum Waveform {
    Sine,
    Triangle,
    Square,
    Saw,
    Noise,
    Sploinky,
    Skloinky,
    Random,
}

/// How the three oscillators are combined: independent mixing, phase
/// modulation of oscillator 1 by oscillator 3, or the non-standard "evil"
/// variant.
#[derive(Clone, Copy, PartialEq, Eq, Structural, Debug)]
pub enum Modulation {
    Independent,
    Phase,
    Evil,
}

impl Waveform {
    /// The waveform's position in the host's enumerated parameter range.
    pub open spec fn index_spec(self) -> int {
        match self {
            Waveform::Sine => 0,
            Waveform::Triangle => 1,
            Waveform::Square => 2,
            Waveform::Saw => 3,
            Waveform::Noise => 4,
            Waveform::Sploinky => 5,
            Waveform::Skloinky => 6,
            Waveform::Random => 7,
        }
    }

    /// The waveform at a given index; anything beyond the enumerated range
    /// falls back to the last variant, as a clamped host value would.
    pub open spec fn from_index_spec(i: int) -> Waveform {
        if i == 0 {
            Waveform::Sine
        } else if i == 1 {
            Waveform::Triangle
        } else if i == 2 {
            Waveform::Square
        } else if i == 3 {
            Waveform::Saw
        } else if i == 4 {
            Waveform::Noise
        } else if i == 5 {
            Waveform::Sploinky
        } else if i == 6 {
            Waveform::Skloinky
        } else {
            Waveform::Random
        }
    }

    /// The IEEE-754 double bit pattern of the waveform's index: what the
    /// persisted form stores.
    pub open spec fn encoded_bits_spec(self) -> u64 {
        match self {
            Waveform::Sine => 0,
            Waveform::Triangle => 0x3FF0_0000_0000_0000,
            Waveform::Square => 0x4000_0000_0000_0000,
            Waveform::Saw => 0x4008_0000_0000_0000,
            Waveform::Noise => 0x4010_0000_0000_0000,
            Waveform::Sploinky => 0x4014_0000_0000_0000,
            Waveform::Skloinky => 0x4018_0000_0000_0000,
            Waveform::Random => 0x401C_0000_0000_0000,
        }
    }

    /// The waveform whose persisted bit pattern this is, if any.
    pub open spec fn decode_bits_spec(bits: u64) -> Option<Waveform> {
        if bits == 0 {
            Some(Waveform::Sine)
        } else if bits == 0x3FF0_0000_0000_0000 {
            Some(Waveform::Triangle)
        } else if bits == 0x4000_0000_0000_0000 {
            Some(Waveform::Square)
        } else if bits == 0x4008_0000_0000_0000 {
            Some(Waveform::Saw)
        } else if bits == 0x4010_0000_0000_0000 {
            Some(Waveform::Noise)
        } else if bits == 0x4014_0000_0000_0000 {
            Some(Waveform::Sploinky)
        } else if bits == 0x4018_0000_0000_0000 {
            Some(Waveform::Skloinky)
        } else if bits == 0x401C_0000_0000_0000 {
            Some(Waveform::Random)
        } else {
            None
        }
    }

    /// The host-facing display name.
    pub fn as_str(self) -> (r: &'static str)
        ensures
            self is Sine ==> r@ == "Sine"@,
            self is Triangle ==> r@ == "Triangle"@,
            self is Square ==> r@ == "Square"@,
            self is Saw ==> r@ == "Saw"@,
            self is Noise ==> r@ == "Noise"@,
            self is Sploinky ==> r@ == "Sploinky"@,
            self is Skloinky ==> r@ == "Skloinky"@,
            self is Random ==> r@ == "Random"@,
    {
        match self {
            Waveform::Sine => "Sine",
            Waveform::Triangle => "Triangle",
            Waveform::Square => "Square",
            Waveform::Saw => "Saw",
            Waveform::Noise => "Noise",
            Waveform::Sploinky => "Sploinky",
            Waveform::Skloinky => "Skloinky",
            Waveform::Random => "Random",
        }
    }

    /// The waveform's index as the host's integer parameter value.
    pub fn to_index(self) -> (r: u64)
        ensures
            r == self.index_spec(),
    {
        match self {
            Waveform::Sine => 0,
            Waveform::Triangle => 1,
            Waveform::Square => 2,
            Waveform::Saw => 3,
            Waveform::Noise => 4,
            Waveform::Sploinky => 5,
            Waveform::Skloinky => 6,
            Waveform::Random => 7,
        }
    }

    /// The waveform at a host-supplied index, clamped into range.
    pub fn from_index(i: u64) -> (r: Waveform)
        ensures
            r == Waveform::from_index_spec(i as int),
            r.index_spec() == (if i <= 7 {
                i as int
            } else {
                7int
            }),
    {
        if i == 0 {
            Waveform::Sine
        } else if i == 1 {
            Waveform::Triangle
        } else if i == 2 {
            Waveform::Square
        } else if i == 3 {
            Waveform::Saw
        } else if i == 4 {
            Waveform::Noise
        } else if i == 5 {
            Waveform::Sploinky
        } else if i == 6 {
            Waveform::Skloinky
        } else {
            Waveform::Random
        }
    }

    /// The persisted bit pattern of this waveform.
    pub fn encoded_bits(self) -> (r: u64)
        ensures
            r == self.encoded_bits_spec(),
    {
        match self {
            Waveform::Sine => 0,
            Waveform::Triangle => 0x3FF0_0000_0000_0000,
            Waveform::Square => 0x4000_0000_0000_0000,
            Waveform::Saw => 0x4008_0000_0000_0000,
            Waveform::Noise => 0x4010_0000_0000_0000,
            Waveform::Sploinky => 0x4014_0000_0000_0000,
            Waveform::Skloinky => 0x4018_0000_0000_0000,
            Waveform::Random => 0x401C_0000_0000_0000,
        }
    }

    /// The waveform a persisted bit pattern stands for, or nothing if the
    /// pattern encodes no waveform.
    pub fn decode_bits(bits: u64) -> (r: Option<Waveform>)
        ensures
            r == Waveform::decode_bits_spec(bits),
    {
        if bits == 0 {
            Some(Waveform::Sine)
        } else if bits == 0x3FF0_0000_0000_0000 {
            Some(Waveform::Triangle)
        } else if bits == 0x4000_0000_0000_0000 {
            Some(Waveform::Square)
        } else if bits == 0x4008_0000_0000_0000 {
            Some(Waveform::Saw)
        } else if bits == 0x4010_0000_0000_0000 {
            Some(Waveform::Noise)
        } else if bits == 0x4014_0000_0000_0000 {
            Some(Waveform::Sploinky)
        } else if bits == 0x4018_0000_0000_0000 {
            Some(Waveform::Skloinky)
        } else if bits == 0x401C_0000_0000_0000 {
            Some(Waveform::Random)
        } else {
            None
        }
    }

    /// Resolve a (possibly random) waveform choice into a concrete one:
    /// `Random` becomes the drawn concrete waveform, anything else stays.
    pub fn resolve(self, draw: u64) -> (r: Waveform)
        requires
            draw < 7,
        ensures
            !(r is Random),
            !(self is Random) ==> r == self,
            self is Random ==> r == Waveform::from_index_spec(draw as int),
    {
        match self {
            Waveform::Random => Waveform::from_index(draw),
            _ => self,
        }
    }
}

/// Encoding then decoding any waveform's persisted bit pattern gives the
/// waveform back.
pub proof fn lemma_waveform_bits_round_trip(w: Waveform)
    ensures
        Waveform::decode_bits_spec(w.encoded_bits_spec()) == Some(w),
{
}

impl Modulation {
    /// The algorithm's position in the host's enumerated parameter range.
    pub open spec fn index_spec(self) -> int {
        match self {
            Modulation::Independent => 0,
            Modulation::Phase => 1,
            Modulation::Evil => 2,
        }
    }

    /// The algorithm at a given index; anything beyond the enumerated
    /// range falls back to the last variant.
    pub open spec fn from_index_spec(i: int) -> Modulation {
        if i == 0 {
            Modulation::Independent
        } else if i == 1 {
            Modulation::Phase
        } else {
            Modulation::Evil
        }
    }

    /// The IEEE-754 double bit pattern of the algorithm's index: what the
    /// persisted form stores.
    pub open spec fn encoded_bits_spec(self) -> u64 {
        match self {
            Modulation::Independent => 0,
            Modulation::Phase => 0x3FF0_0000_0000_0000,
            Modulation::Evil => 0x4000_0000_0000_0000,
        }
    }

    /// The algorithm whose persisted bit pattern this is, if any.
    pub open spec fn decode_bits_spec(bits: u64) -> Option<Modulation> {
        if bits == 0 {
            Some(Modulation::Independent)
        } else if bits == 0x3FF0_0000_0000_0000 {
            Some(Modulation::Phase)
        } else if bits == 0x4000_0000_0000_0000 {
            Some(Modulation::Evil)
        } else {
            None
        }
    }

    /// The host-facing display name.
    pub fn as_str(self) -> (r: &'static str)
        ensures
            self is Independent ==> r@ == "None"@,
            self is Phase ==> r@ == "Phase"@,
            self is Evil ==> r@ == "Evil"@,
    {
        match self {
            Modulation::Independent => "None",
            Modulation::Phase => "Phase",
            Modulation::Evil => "Evil",
        }
    }

    /// The algorithm's index as the host's integer parameter value.
    pub fn to_index(self) -> (r: u64)
        ensures
            r == self.index_spec(),
    {
        match self {
            Modulation::Independent => 0,
            Modulation::Phase => 1,
            Modulation::Evil => 2,
        }
    }

    /// The algorithm at a host-supplied index, clamped into range.
    pub fn from_index(i: u64) -> (r: Modulation)
        ensures
            r == Modulation::from_index_spec(i as int),
    {
        if i == 0 {
            Modulation::Independent
        } else if i == 1 {
            Modulation::Phase
        } else {
            Modulation::Evil
        }
    }

    /// The persisted bit pattern of this algorithm.
    pub fn encoded_bits(self) -> (r: u64)
        ensures
            r == self.encoded_bits_spec(),
    {
        match self {
            Modulation::Independent => 0,
            Modulation::Phase => 0x3FF0_0000_0000_0000,
            Modulation::Evil => 0x4000_0000_0000_0000,
        }
    }

    /// The algorithm a persisted bit pattern stands for, or nothing if the
    /// pattern encodes no algorithm.
    pub fn decode_bits(bits: u64) -> (r: Option<Modulation>)
        ensures
            r == Modulation::decode_bits_spec(bits),
    {
        if bits == 0 {
            Some(Modulation::Independent)
        } else if bits == 0x3FF0_0000_0000_0000 {
            Some(Modulation::Phase)
        } else if bits == 0x4000_0000_0000_0000 {
            Some(Modulation::Evil)
        } else {
            None
        }
    }
}

/// Encoding then decoding any modulation algorithm's persisted bit pattern
/// gives the algorithm back.
pub proof fn lemma_modulation_bits_round_trip(m: Modulation)
    ensures
        Modulation::decode_bits_spec(m.encoded_bits_spec()) == Some(m),
{
}

} // verus!
