use fox3osc::codec::{decode_state, encode_state, PersistedState, StateError, STATE_BYTES};
use fox3osc::params::Envelope;
use fox3osc::waveform::{Modulation, Waveform};

fn sample_state() -> PersistedState {
    PersistedState {
        envelope: Envelope {
            attack_bits: (0.01f32).to_bits(),
            decay_bits: (0.1f32).to_bits(),
            sustain_bits: (0.8f32).to_bits(),
            release_bits: (0.25f32).to_bits(),
        },
        waveforms: vec![Waveform::Saw, Waveform::Random, Waveform::Sploinky],
        levels_bits: vec![(1.0f32).to_bits(), (0.5f32).to_bits(), (0.0f32).to_bits()],
        hq: vec![true, false, true],
        modulation: Modulation::Phase,
    }
}

#[test]
fn encoded_layout_is_exact() {
    let bytes = encode_state(&sample_state());
    assert_eq!(bytes.len(), STATE_BYTES);
    let mut expected: Vec<u8> = Vec::new();
    expected.extend_from_slice(&(0.01f32).to_le_bytes());
    expected.extend_from_slice(&(0.1f32).to_le_bytes());
    expected.extend_from_slice(&(0.8f32).to_le_bytes());
    expected.extend_from_slice(&(0.25f32).to_le_bytes());
    expected.extend_from_slice(&(3.0f64).to_le_bytes());
    expected.extend_from_slice(&(7.0f64).to_le_bytes());
    expected.extend_from_slice(&(5.0f64).to_le_bytes());
    expected.extend_from_slice(&(1.0f32).to_le_bytes());
    expected.extend_from_slice(&(0.5f32).to_le_bytes());
    expected.extend_from_slice(&(0.0f32).to_le_bytes());
    expected.extend_from_slice(&1u32.to_le_bytes());
    expected.extend_from_slice(&0u32.to_le_bytes());
    expected.extend_from_slice(&1u32.to_le_bytes());
    expected.extend_from_slice(&(1.0f64).to_le_bytes());
    assert_eq!(bytes, expected);
}

#[test]
fn round_trip_reproduces_values_bit_exactly() {
    let state = sample_state();
    let bytes = encode_state(&state);
    let decoded = match decode_state(&bytes) {
        Ok(d) => d,
        Err(_) => panic!("well-formed state must decode"),
    };
    assert_eq!(decoded.envelope, state.envelope);
    assert_eq!(decoded.waveforms, state.waveforms);
    assert_eq!(decoded.levels_bits, state.levels_bits);
    assert_eq!(decoded.hq, state.hq);
    assert_eq!(decoded.modulation, state.modulation);
}

#[test]
fn round_trip_odd_float_bits() {
    // Arbitrary in-range parameter values, including a subnormal and a
    // negative zero, survive bit-exactly.
    let mut state = sample_state();
    state.envelope.attack_bits = (f32::MIN_POSITIVE / 2.0).to_bits();
    state.envelope.sustain_bits = (-0.0f32).to_bits();
    state.levels_bits[1] = (0.3333333f32).to_bits();
    let bytes = encode_state(&state);
    let decoded = match decode_state(&bytes) {
        Ok(d) => d,
        Err(_) => panic!("well-formed state must decode"),
    };
    assert_eq!(decoded.envelope.attack_bits, state.envelope.attack_bits);
    assert_eq!(decoded.envelope.sustain_bits, state.envelope.sustain_bits);
    assert_eq!(decoded.levels_bits, state.levels_bits);
}

#[test]
fn truncated_buffer_is_malformed() {
    let bytes = encode_state(&sample_state());
    for cut in [0usize, 1, 16, 40, 71] {
        let r = decode_state(&bytes[..cut]);
        assert_eq!(r.err(), Some(StateError::MalformedPersistedState));
    }
}

#[test]
fn unknown_waveform_encoding_is_malformed() {
    let mut bytes = encode_state(&sample_state());
    let bad = (9.0f64).to_le_bytes();
    bytes[16..24].copy_from_slice(&bad);
    let r = decode_state(&bytes);
    assert_eq!(r.err(), Some(StateError::MalformedPersistedState));
}

#[test]
fn unknown_modulation_encoding_is_malformed() {
    let mut bytes = encode_state(&sample_state());
    let bad = (5.0f64).to_le_bytes();
    bytes[64..72].copy_from_slice(&bad);
    let r = decode_state(&bytes);
    assert_eq!(r.err(), Some(StateError::MalformedPersistedState));
}

#[test]
fn trailing_bytes_are_ignored() {
    let state = sample_state();
    let mut bytes = encode_state(&state);
    bytes.push(0xAB);
    bytes.push(0xCD);
    let decoded = match decode_state(&bytes) {
        Ok(d) => d,
        Err(_) => panic!("stream with trailing bytes must decode"),
    };
    assert_eq!(decoded.modulation, state.modulation);
}

#[test]
fn hq_words_decode_like_nonzero_test() {
    let mut bytes = encode_state(&sample_state());
    // any nonzero flag word means true
    bytes[56..60].copy_from_slice(&7u32.to_le_bytes());
    let decoded = match decode_state(&bytes) {
        Ok(d) => d,
        Err(_) => panic!("must decode"),
    };
    assert_eq!(decoded.hq, vec![true, true, true]);
}
