//! Pitch classes, their tuning, and the note events a keyboard emits.

use vstd::prelude::*;

verus! {

/// The twelve pitch classes of the chromatic scale.
#[derive(Clone, Copy, Debug, Hash, PartialEq, Eq, Structural)]
pub enum Note {
    C,
    CSharp,
    D,
    DSharp,
    E,
    F,
    FSharp,
    G,
    GSharp,
    A,
    ASharp,
    B,
}

/// The octave whose frequencies [`Note::to_freq`] lists.
pub const REFERENCE_OCTAVE: i32 = 3;

/// A frequency in equal-tempered tuning, held exactly: `decihertz` tenths of
/// a hertz, doubled `octaves` times (halved, where `octaves` is negative).
#[derive(Clone, Copy, Debug, PartialEq, Eq, Structural)]
pub struct Frequency {
    pub decihertz: u32,
    pub octaves: i64,
}

/// Whether a key went down or came up.
#[derive(Clone, Copy, Debug, PartialEq, Eq, Structural)]
pub enum NoteEventKind {
    Start,
    Stop,
}

/// A key of the given pitch class and octave went down or came up.
#[derive(Clone, Copy, Debug, PartialEq, Eq, Structural)]
pub struct NoteEvent {
    pub kind: NoteEventKind,
    pub note: Note,
    pub octave: i32,
}

/// The pitch class `i` semitones above C, for `i` below twelve.
pub open spec fn note_at(i: int) -> Note {
    if i == 0 {
        Note::C
    } else if i == 1 {
        Note::CSharp
    } else if i == 2 {
        Note::D
    } else if i == 3 {
        Note::DSharp
    } else if i == 4 {
        Note::E
    } else if i == 5 {
        Note::F
    } else if i == 6 {
        Note::FSharp
    } else if i == 7 {
        Note::G
    } else if i == 8 {
        Note::GSharp
    } else if i == 9 {
        Note::A
    } else if i == 10 {
        Note::ASharp
    } else {
        Note::B
    }
}

impl Note {
    /// Semitones above C.
    pub open spec fn semitone(self) -> int {
        match self {
            Note::C => 0,
            Note::CSharp => 1,
            Note::D => 2,
            Note::DSharp => 3,
            Note::E => 4,
            Note::F => 5,
            Note::FSharp => 6,
            Note::G => 7,
            Note::GSharp => 8,
            Note::A => 9,
            Note::ASharp => 10,
            Note::B => 11,
        }
    }

    /// The frequency of the pitch class in the reference octave, in tenths
    /// of a hertz.
    pub open spec fn base_decihertz(self) -> nat {
        match self {
            Note::C => 1308,
            Note::CSharp => 1386,
            Note::D => 1468,
            Note::DSharp => 1556,
            Note::E => 1648,
            Note::F => 1746,
            Note::FSharp => 1850,
            Note::G => 1960,
            Note::GSharp => 2077,
            Note::A => 2200,
            Note::ASharp => 2331,
            Note::B => 2469,
        }
    }

    /// The frequency of the pitch class in octave `o`.
    pub open spec fn frequency(self, o: i32) -> Frequency {
        Frequency {
            decihertz: self.base_decihertz() as u32,
            octaves: (o - REFERENCE_OCTAVE) as i64,
        }
    }

    /// The frequency of a pitch class doubles from each octave to the next:
    /// it is the same number of tenths of a hertz, doubled once more.
    pub proof fn lemma_octave_doubles(self, o: i32)
        requires
            o < i32::MAX,
        ensures
            self.frequency((o + 1) as i32).decihertz == self.frequency(o).decihertz,
            self.frequency((o + 1) as i32).octaves == self.frequency(o).octaves + 1,
            self.frequency(REFERENCE_OCTAVE).octaves == 0,
    {
    }

    /// The frequency of the pitch class in the reference octave, in tenths
    /// of a hertz.
    pub fn to_freq(&self) -> (f: u32)
        ensures
            f == self.base_decihertz(),
    {
        match self {
            Note::C => 1308,
            Note::CSharp => 1386,
            Note::D => 1468,
            Note::DSharp => 1556,
            Note::E => 1648,
            Note::F => 1746,
            Note::FSharp => 1850,
            Note::G => 1960,
            Note::GSharp => 2077,
            Note::A => 2200,
            Note::ASharp => 2331,
            Note::B => 2469,
        }
    }

    /// The frequency of the pitch class in octave `o`: that of the reference
    /// octave, doubled once for each octave above it and halved once for each
    /// octave below.
    pub fn to_freq_octave(&self, o: i32) -> (f: Frequency)
        ensures
            f == self.frequency(o),
            f.decihertz == self.base_decihertz(),
            f.octaves == o - REFERENCE_OCTAVE,
    {
        Frequency { decihertz: self.to_freq(), octaves: o as i64 - REFERENCE_OCTAVE as i64 }
    }

    /// The pitch class of key `i` on a chromatic keyboard that starts at C.
    pub fn from_index(i: usize) -> (n: Note)
        ensures
            n == note_at(i as int % 12),
            n.semitone() == i as int % 12,
    {
        let k: usize = i % 12;
        if k == 0 {
            Note::C
        } else if k == 1 {
            Note::CSharp
        } else if k == 2 {
            Note::D
        } else if k == 3 {
            Note::DSharp
        } else if k == 4 {
            Note::E
        } else if k == 5 {
            Note::F
        } else if k == 6 {
            Note::FSharp
        } else if k == 7 {
            Note::G
        } else if k == 8 {
            Note::GSharp
        } else if k == 9 {
            Note::A
        } else if k == 10 {
            Note::ASharp
        } else {
            Note::B
        }
    }
}

} // verus!
