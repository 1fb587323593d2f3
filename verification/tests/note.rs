use polysynth::note::{Frequency, Note, REFERENCE_OCTAVE};

fn hertz(f: Frequency) -> f32 {
    (f.decihertz as f32 / 10.0) * 2f32.powi(f.octaves as i32)
}

#[test]
fn from_index_walks_the_chromatic_scale() {
    let expected = [
        Note::C,
        Note::CSharp,
        Note::D,
        Note::DSharp,
        Note::E,
        Note::F,
        Note::FSharp,
        Note::G,
        Note::GSharp,
        Note::A,
        Note::ASharp,
        Note::B,
    ];
    for (i, note) in expected.iter().enumerate() {
        assert_eq!(Note::from_index(i), *note);
        assert_eq!(Note::from_index(i + 12), *note);
        assert_eq!(Note::from_index(i + 24), *note);
    }
    assert_eq!(Note::from_index(usize::MAX), Note::from_index(usize::MAX % 12));
}

#[test]
fn reference_frequencies() {
    assert_eq!(Note::C.to_freq(), 1308);
    assert_eq!(Note::CSharp.to_freq(), 1386);
    assert_eq!(Note::D.to_freq(), 1468);
    assert_eq!(Note::DSharp.to_freq(), 1556);
    assert_eq!(Note::E.to_freq(), 1648);
    assert_eq!(Note::F.to_freq(), 1746);
    assert_eq!(Note::FSharp.to_freq(), 1850);
    assert_eq!(Note::G.to_freq(), 1960);
    assert_eq!(Note::GSharp.to_freq(), 2077);
    assert_eq!(Note::A.to_freq(), 2200);
    assert_eq!(Note::ASharp.to_freq(), 2331);
    assert_eq!(Note::B.to_freq(), 2469);
}

#[test]
fn frequency_of_c_in_the_reference_octave() {
    assert_eq!(REFERENCE_OCTAVE, 3);
    let f = Note::C.to_freq_octave(3);
    assert_eq!(f, Frequency { decihertz: 1308, octaves: 0 });
    assert_eq!(hertz(f), 130.8f32);
}

#[test]
fn an_octave_up_doubles_and_an_octave_down_halves() {
    let up = Note::C.to_freq_octave(4);
    let down = Note::C.to_freq_octave(2);
    assert_eq!(up, Frequency { decihertz: 1308, octaves: 1 });
    assert_eq!(down, Frequency { decihertz: 1308, octaves: -1 });
    assert_eq!(hertz(up), 2.0 * 130.8f32);
    assert_eq!(hertz(down), 130.8f32 / 2.0);
}

#[test]
fn frequency_matches_scaling_by_powers_of_two() {
    let notes = [(Note::A, 220.0f32), (Note::GSharp, 207.7f32), (Note::B, 246.9f32)];
    for (note, base) in notes {
        for o in -2..=9 {
            assert_eq!(hertz(note.to_freq_octave(o)), base * 2f32.powi(o - 3));
        }
    }
}

#[test]
fn extreme_octaves_do_not_overflow() {
    assert_eq!(Note::A.to_freq_octave(i32::MIN).octaves, i32::MIN as i64 - 3);
    assert_eq!(Note::A.to_freq_octave(i32::MAX).octaves, i32::MAX as i64 - 3);
}
