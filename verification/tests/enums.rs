use fox3osc::waveform::{Modulation, Waveform};

const ALL_WAVEFORMS: [Waveform; 8] = [
    Waveform::Sine,
    Waveform::Triangle,
    Waveform::Square,
    Waveform::Saw,
    Waveform::Noise,
    Waveform::Sploinky,
    Waveform::Skloinky,
    Waveform::Random,
];

const ALL_MODULATIONS: [Modulation; 3] =
    [Modulation::Independent, Modulation::Phase, Modulation::Evil];

#[test]
fn waveform_names() {
    assert_eq!(Waveform::Sine.as_str(), "Sine");
    assert_eq!(Waveform::Triangle.as_str(), "Triangle");
    assert_eq!(Waveform::Square.as_str(), "Square");
    assert_eq!(Waveform::Saw.as_str(), "Saw");
    assert_eq!(Waveform::Noise.as_str(), "Noise");
    assert_eq!(Waveform::Sploinky.as_str(), "Sploinky");
    assert_eq!(Waveform::Skloinky.as_str(), "Skloinky");
    assert_eq!(Waveform::Random.as_str(), "Random");
}

#[test]
fn modulation_names() {
    assert_eq!(Modulation::Independent.as_str(), "None");
    assert_eq!(Modulation::Phase.as_str(), "Phase");
    assert_eq!(Modulation::Evil.as_str(), "Evil");
}

#[test]
fn waveform_index_round_trip() {
    for (i, w) in ALL_WAVEFORMS.iter().enumerate() {
        assert_eq!(w.to_index(), i as u64);
        assert_eq!(Waveform::from_index(i as u64), *w);
    }
    // out-of-range indices clamp to the last variant
    assert_eq!(Waveform::from_index(8), Waveform::Random);
    assert_eq!(Waveform::from_index(u64::MAX), Waveform::Random);
}

#[test]
fn modulation_index_round_trip() {
    for (i, m) in ALL_MODULATIONS.iter().enumerate() {
        assert_eq!(m.to_index(), i as u64);
        assert_eq!(Modulation::from_index(i as u64), *m);
    }
    assert_eq!(Modulation::from_index(3), Modulation::Evil);
}

#[test]
fn waveform_encoded_bits_are_doubles_of_indices() {
    for w in ALL_WAVEFORMS.iter() {
        let expected = (w.to_index() as f64).to_bits();
        assert_eq!(w.encoded_bits(), expected);
    }
}

#[test]
fn modulation_encoded_bits_are_doubles_of_indices() {
    for m in ALL_MODULATIONS.iter() {
        let expected = (m.to_index() as f64).to_bits();
        assert_eq!(m.encoded_bits(), expected);
    }
}

#[test]
fn waveform_bits_round_trip() {
    for w in ALL_WAVEFORMS.iter() {
        assert_eq!(Waveform::decode_bits(w.encoded_bits()), Some(*w));
    }
    assert_eq!(Waveform::decode_bits((7.5f64).to_bits()), None);
    assert_eq!(Waveform::decode_bits((8.0f64).to_bits()), None);
}

#[test]
fn modulation_bits_round_trip() {
    for m in ALL_MODULATIONS.iter() {
        assert_eq!(Modulation::decode_bits(m.encoded_bits()), Some(*m));
    }
    assert_eq!(Modulation::decode_bits((3.0f64).to_bits()), None);
}

#[test]
fn resolve_keeps_concrete_choices() {
    for w in ALL_WAVEFORMS.iter() {
        if *w != Waveform::Random {
            assert_eq!(w.resolve(3), *w);
        }
    }
}

#[test]
fn resolve_random_draws_concrete() {
    for draw in 0..7 {
        let resolved = Waveform::Random.resolve(draw);
        assert_ne!(resolved, Waveform::Random);
        assert_eq!(resolved.to_index(), draw);
    }
}
