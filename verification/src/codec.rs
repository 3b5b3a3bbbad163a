//! The persisted-state byte layout: 4 x 4-byte envelope floats, 3 x 8-byte
//! encoded waveform, 3 x 4-byte level, 3 x 4-byte quality flag word and one
//! 8-byte encoded modulation mode, little-endian, in that exact order.
//!
//! The stream I/O around it belongs to the caller; this module turns values
//! into bytes and back, bit-exactly.

use vstd::prelude::*;
use vstd::bytes::{
    spec_u32_from_le_bytes, spec_u32_to_le_bytes, spec_u64_from_le_bytes, spec_u64_to_le_bytes,
    u32_from_le_bytes, u32_to_le_bytes, u64_from_le_bytes, u64_to_le_bytes,
    lemma_auto_spec_u32_to_from_le_bytes, lemma_auto_spec_u64_to_from_le_bytes,
};
use vstd::slice::slice_subrange;
use crate::params::{Envelope, OSC_NR};
use crate::waveform::{Modulation, Waveform};

verus! {

/// Size of the persisted state, in bytes.
pub const STATE_BYTES: usize = 72;

/// Why a persisted buffer was rejected.
#[derive(Clone, Copy, PartialEq, Eq, Structural, Debug)]
pub enum StateError {
    /// The buffer is shorter than the layout, or an encoded enumeration
    /// holds no known value.
    MalformedPersistedState,
}

/// The values the persisted layout carries, as an exec structure.
pub struct PersistedState {
    pub envelope: Envelope,
    pub waveforms: Vec<Waveform>,
    pub levels_bits: Vec<u32>,
    pub hq: Vec<bool>,
    pub modulation: Modulation,
}

/// The same values at the specification level.
pub struct PersistedView {
    pub envelope: Envelope,
    pub waveforms: Seq<Waveform>,
    pub levels_bits: Seq<u32>,
    pub hq: Seq<bool>,
    pub modulation: Modulation,
}

impl PersistedState {
    pub open spec fn view(self) -> PersistedView {
        PersistedView {
            envelope: self.envelope,
            waveforms: self.waveforms@,
            levels_bits: self.levels_bits@,
            hq: self.hq@,
            modulation: self.modulation,
        }
    }

    pub open spec fn wf(self) -> bool {
        self@.wf()
    }
}

impl PersistedView {
    pub open spec fn wf(self) -> bool {
        &&& self.waveforms.len() == OSC_NR
        &&& self.levels_bits.len() == OSC_NR
        &&& self.hq.len() == OSC_NR
    }
}

/// A bool as the persisted 32-bit word: 1 or 0.
pub open spec fn bool_word_spec(b: bool) -> u32 {
    if b {
        1
    } else {
        0
    }
}

/// The exact byte sequence of a persisted state.
pub open spec fn encode_spec(s: PersistedView) -> Seq<u8> {
    spec_u32_to_le_bytes(s.envelope.attack_bits) + spec_u32_to_le_bytes(s.envelope.decay_bits)
        + spec_u32_to_le_bytes(s.envelope.sustain_bits) + spec_u32_to_le_bytes(
        s.envelope.release_bits,
    ) + spec_u64_to_le_bytes(s.waveforms[0].encoded_bits_spec()) + spec_u64_to_le_bytes(
        s.waveforms[1].encoded_bits_spec(),
    ) + spec_u64_to_le_bytes(s.waveforms[2].encoded_bits_spec()) + spec_u32_to_le_bytes(
        s.levels_bits[0],
    ) + spec_u32_to_le_bytes(s.levels_bits[1]) + spec_u32_to_le_bytes(s.levels_bits[2])
        + spec_u32_to_le_bytes(bool_word_spec(s.hq[0])) + spec_u32_to_le_bytes(
        bool_word_spec(s.hq[1]),
    ) + spec_u32_to_le_bytes(bool_word_spec(s.hq[2])) + spec_u64_to_le_bytes(
        s.modulation.encoded_bits_spec(),
    )
}

/// The 32-bit word at a byte offset.
pub open spec fn word32_spec(bytes: Seq<u8>, off: int) -> u32 {
    spec_u32_from_le_bytes(bytes.subrange(off, off + 4))
}

/// The 64-bit word at a byte offset.
pub open spec fn word64_spec(bytes: Seq<u8>, off: int) -> u64 {
    spec_u64_from_le_bytes(bytes.subrange(off, off + 8))
}

/// What decoding a buffer yields: the values of a well-formed prefix, or
/// the malformed-state error on a short buffer or an unknown enumeration
/// encoding. Bytes beyond the layout are ignored, as a stream reader would.
pub open spec fn decode_spec(bytes: Seq<u8>) -> Result<PersistedView, StateError> {
    if bytes.len() < STATE_BYTES as int {
        Err(StateError::MalformedPersistedState)
    } else {
        let w0 = Waveform::decode_bits_spec(word64_spec(bytes, 16));
        let w1 = Waveform::decode_bits_spec(word64_spec(bytes, 24));
        let w2 = Waveform::decode_bits_spec(word64_spec(bytes, 32));
        let m = Modulation::decode_bits_spec(word64_spec(bytes, 64));
        if w0 is None || w1 is None || w2 is None || m is None {
            Err(StateError::MalformedPersistedState)
        } else {
            Ok(
                PersistedView {
                    envelope: Envelope {
                        attack_bits: word32_spec(bytes, 0),
                        decay_bits: word32_spec(bytes, 4),
                        sustain_bits: word32_spec(bytes, 8),
                        release_bits: word32_spec(bytes, 12),
                    },
                    waveforms: seq![w0->Some_0, w1->Some_0, w2->Some_0],
                    levels_bits: seq![
                        word32_spec(bytes, 40),
                        word32_spec(bytes, 44),
                        word32_spec(bytes, 48),
                    ],
                    hq: seq![
                        word32_spec(bytes, 52) != 0,
                        word32_spec(bytes, 56) != 0,
                        word32_spec(bytes, 60) != 0,
                    ],
                    modulation: m->Some_0,
                },
            )
        }
    }
}

/// Encodes a persisted state into its exact byte layout.
pub fn encode_state(s: &PersistedState) -> (r: Vec<u8>)
    requires
        s.wf(),
    ensures
        r@ == encode_spec(s@),
        r@.len() == STATE_BYTES,
{
    let mut out: Vec<u8> = Vec::new();
    let mut piece: Vec<u8> = u32_to_le_bytes(s.envelope.attack_bits);
    out.append(&mut piece);
    let mut piece: Vec<u8> = u32_to_le_bytes(s.envelope.decay_bits);
    out.append(&mut piece);
    let mut piece: Vec<u8> = u32_to_le_bytes(s.envelope.sustain_bits);
    out.append(&mut piece);
    let mut piece: Vec<u8> = u32_to_le_bytes(s.envelope.release_bits);
    out.append(&mut piece);
    let mut piece: Vec<u8> = u64_to_le_bytes(s.waveforms[0].encoded_bits());
    out.append(&mut piece);
    let mut piece: Vec<u8> = u64_to_le_bytes(s.waveforms[1].encoded_bits());
    out.append(&mut piece);
    let mut piece: Vec<u8> = u64_to_le_bytes(s.waveforms[2].encoded_bits());
    out.append(&mut piece);
    let mut piece: Vec<u8> = u32_to_le_bytes(s.levels_bits[0]);
    out.append(&mut piece);
    let mut piece: Vec<u8> = u32_to_le_bytes(s.levels_bits[1]);
    out.append(&mut piece);
    let mut piece: Vec<u8> = u32_to_le_bytes(s.levels_bits[2]);
    out.append(&mut piece);
    let mut piece: Vec<u8> = u32_to_le_bytes(if s.hq[0] { 1 } else { 0 });
    out.append(&mut piece);
    let mut piece: Vec<u8> = u32_to_le_bytes(if s.hq[1] { 1 } else { 0 });
    out.append(&mut piece);
    let mut piece: Vec<u8> = u32_to_le_bytes(if s.hq[2] { 1 } else { 0 });
    out.append(&mut piece);
    let mut piece: Vec<u8> = u64_to_le_bytes(s.modulation.encoded_bits());
    out.append(&mut piece);
    proof {
        assert(out@ =~= encode_spec(s@));
    }
    out
}

/// Reads the 32-bit word at a byte offset.
fn read_word32(bytes: &[u8], off: usize) -> (r: u32)
    requires
        off <= STATE_BYTES,
        off + 4 <= bytes@.len(),
    ensures
        r == word32_spec(bytes@, off as int),
{
    u32_from_le_bytes(slice_subrange(bytes, off, off + 4))
}

/// Reads the 64-bit word at a byte offset.
fn read_word64(bytes: &[u8], off: usize) -> (r: u64)
    requires
        off <= STATE_BYTES,
        off + 8 <= bytes@.len(),
    ensures
        r == word64_spec(bytes@, off as int),
{
    u64_from_le_bytes(slice_subrange(bytes, off, off + 8))
}

/// Decodes a persisted buffer; a short buffer or an unknown enumeration
/// encoding is malformed, exactly as `decode_spec` says.
pub fn decode_state(bytes: &[u8]) -> (r: Result<PersistedState, StateError>)
    ensures
        (r is Ok) == (decode_spec(bytes@) is Ok),
        r is Ok ==> (r->Ok_0)@ == decode_spec(bytes@)->Ok_0 && (r->Ok_0).wf(),
        r is Err ==> r->Err_0 == StateError::MalformedPersistedState,
{
    if bytes.len() < STATE_BYTES {
        return Err(StateError::MalformedPersistedState);
    }
    let w0 = Waveform::decode_bits(read_word64(bytes, 16));
    let w1 = Waveform::decode_bits(read_word64(bytes, 24));
    let w2 = Waveform::decode_bits(read_word64(bytes, 32));
    let m = Modulation::decode_bits(read_word64(bytes, 64));
    match (w0, w1, w2, m) {
        (Some(w0), Some(w1), Some(w2), Some(m)) => {
            let mut waveforms: Vec<Waveform> = Vec::new();
            waveforms.push(w0);
            waveforms.push(w1);
            waveforms.push(w2);
            let mut levels_bits: Vec<u32> = Vec::new();
            levels_bits.push(read_word32(bytes, 40));
            levels_bits.push(read_word32(bytes, 44));
            levels_bits.push(read_word32(bytes, 48));
            let mut hq: Vec<bool> = Vec::new();
            hq.push(read_word32(bytes, 52) != 0);
            hq.push(read_word32(bytes, 56) != 0);
            hq.push(read_word32(bytes, 60) != 0);
            let r = PersistedState {
                envelope: Envelope {
                    attack_bits: read_word32(bytes, 0),
                    decay_bits: read_word32(bytes, 4),
                    sustain_bits: read_word32(bytes, 8),
                    release_bits: read_word32(bytes, 12),
                },
                waveforms,
                levels_bits,
                hq,
                modulation: m,
            };
            proof {
                assert(r@.waveforms =~= decode_spec(bytes@)->Ok_0.waveforms);
                assert(r@.levels_bits =~= decode_spec(bytes@)->Ok_0.levels_bits);
                assert(r@.hq =~= decode_spec(bytes@)->Ok_0.hq);
            }
            Ok(r)
        },
        _ => Err(StateError::MalformedPersistedState),
    }
}

/// Encoding a well-formed persisted state and decoding the bytes gives the
/// state back exactly: floats bit-exact, enumerations exact.
pub proof fn lemma_persisted_round_trip(s: PersistedView)
    requires
        s.wf(),
    ensures
        decode_spec(encode_spec(s)) == Ok::<PersistedView, StateError>(s),
{
    lemma_auto_spec_u32_to_from_le_bytes();
    lemma_auto_spec_u64_to_from_le_bytes();
    let bytes = encode_spec(s);
    assert(bytes.len() == STATE_BYTES as int);
    assert(bytes.subrange(0, 4) =~= spec_u32_to_le_bytes(s.envelope.attack_bits));
    assert(bytes.subrange(4, 8) =~= spec_u32_to_le_bytes(s.envelope.decay_bits));
    assert(bytes.subrange(8, 12) =~= spec_u32_to_le_bytes(s.envelope.sustain_bits));
    assert(bytes.subrange(12, 16) =~= spec_u32_to_le_bytes(s.envelope.release_bits));
    assert(bytes.subrange(16, 24) =~= spec_u64_to_le_bytes(s.waveforms[0].encoded_bits_spec()));
    assert(bytes.subrange(24, 32) =~= spec_u64_to_le_bytes(s.waveforms[1].encoded_bits_spec()));
    assert(bytes.subrange(32, 40) =~= spec_u64_to_le_bytes(s.waveforms[2].encoded_bits_spec()));
    assert(bytes.subrange(40, 44) =~= spec_u32_to_le_bytes(s.levels_bits[0]));
    assert(bytes.subrange(44, 48) =~= spec_u32_to_le_bytes(s.levels_bits[1]));
    assert(bytes.subrange(48, 52) =~= spec_u32_to_le_bytes(s.levels_bits[2]));
    assert(bytes.subrange(52, 56) =~= spec_u32_to_le_bytes(bool_word_spec(s.hq[0])));
    assert(bytes.subrange(56, 60) =~= spec_u32_to_le_bytes(bool_word_spec(s.hq[1])));
    assert(bytes.subrange(60, 64) =~= spec_u32_to_le_bytes(bool_word_spec(s.hq[2])));
    assert(bytes.subrange(64, 72) =~= spec_u64_to_le_bytes(s.modulation.encoded_bits_spec()));
    let decoded = decode_spec(bytes);
    assert(decoded is Ok);
    assert(decoded->Ok_0.waveforms =~= s.waveforms);
    assert(decoded->Ok_0.levels_bits =~= s.levels_bits);
    assert(decoded->Ok_0.hq =~= s.hq);
    assert(decoded->Ok_0 == s);
}

} // verus!
