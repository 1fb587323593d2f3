//! The playing keyboard: two octaves and one key of the typing keyboard
//! play notes, and two more keys shift the octave.

use vstd::prelude::*;
use crate::find::{lemma_position_absent, lemma_position_found, position};
use crate::input::{KeyCode, KeyInput, KeyKind, Modifiers};
use crate::note::{note_at, Note, NoteEvent, NoteEventKind};

verus! {

/// Number of playing keys.
pub const KEYS: usize = 25;

/// The lowest octave that the keyboard's first key can be shifted to.
pub const LOWEST_OCTAVE: i32 = -2;

/// The highest octave that the keyboard's first key can be shifted to.
pub const HIGHEST_OCTAVE: i32 = 7;

/// The octave of the keyboard's first key at the start.
pub const FIRST_OCTAVE: i32 = 3;

/// The characters that play, from the lowest key up: key `j` plays the
/// pitch class `j` semitones above C, `j / 12` octaves above the keyboard's
/// octave.
pub open spec fn key_row() -> Seq<char> {
    seq![
        'q', '2', 'w', '3', 'e', 'r', '5', 't', '6', 'y', '7', 'u', 'c', 'f', 'v', 'g', 'b', 'n',
        'j', 'm', 'k', ',', 'l', '.', '/',
    ]
}

/// The playing key that the character `c` stands for.
pub open spec fn key_index(c: char) -> Option<int> {
    position(key_row(), c)
}

/// The event of playing key `j` on a keyboard in octave `octave`.
pub open spec fn key_event(kind: NoteEventKind, j: int, octave: int) -> NoteEvent {
    NoteEvent { kind, note: note_at(j % 12), octave: (octave + j / 12) as i32 }
}

/// The stop events of those of the first `k` keys that are held, in key
/// order.
pub open spec fn releases(notes: Seq<bool>, octave: int, k: nat) -> Seq<NoteEvent>
    decreases k,
{
    if k == 0 {
        Seq::empty()
    } else {
        let before = releases(notes, octave, (k - 1) as nat);
        if notes[k - 1] {
            before.push(key_event(NoteEventKind::Stop, k - 1, octave))
        } else {
            before
        }
    }
}

/// What a keyboard holds.
pub struct KeyboardView {
    /// For each playing key, whether it is held.
    pub notes: Seq<bool>,
    /// The events that were not fetched yet, oldest first.
    pub events: Seq<NoteEvent>,
    /// The octave of the first key.
    pub octave: int,
    /// Whether the player asked to leave.
    pub finished: bool,
}

impl KeyboardView {
    /// There is a note for every playing key, and the octave is within the
    /// range that the keyboard can be shifted over.
    pub open spec fn wf(self) -> bool {
        self.notes.len() == KEYS && LOWEST_OCTAVE <= self.octave <= HIGHEST_OCTAVE
    }

    /// The keyboard after an octave shift to `octave`: every held key gets
    /// a stop event in the octave that it was played in.
    pub open spec fn shifted(self, octave: int) -> KeyboardView {
        KeyboardView {
            notes: self.notes,
            events: self.events + releases(self.notes, self.octave, KEYS as nat),
            octave,
            finished: self.finished,
        }
    }

    /// The keyboard shifted one octave up, as far as the highest.
    pub open spec fn octave_up(self) -> KeyboardView {
        self.shifted(
            if self.octave < HIGHEST_OCTAVE {
                self.octave + 1
            } else {
                HIGHEST_OCTAVE as int
            },
        )
    }

    /// The keyboard shifted one octave down, as far as the lowest.
    pub open spec fn octave_down(self) -> KeyboardView {
        self.shifted(
            if self.octave > LOWEST_OCTAVE {
                self.octave - 1
            } else {
                LOWEST_OCTAVE as int
            },
        )
    }

    /// The keyboard after playing key `j` went down or came up.
    pub open spec fn played(self, j: int, down: bool) -> KeyboardView {
        KeyboardView {
            notes: self.notes.update(j, down),
            events: self.events.push(
                key_event(
                    if down {
                        NoteEventKind::Start
                    } else {
                        NoteEventKind::Stop
                    },
                    j,
                    self.octave,
                ),
            ),
            octave: self.octave,
            finished: self.finished,
        }
    }

    /// The keyboard after a key stroke. Only strokes without modifiers
    /// count. Pressing escape asks to leave; pressing `>` or `<` shifts the
    /// octave; a playing key starts its note when pressed and stops it when
    /// released.
    pub open spec fn after_key(self, key: KeyInput) -> KeyboardView {
        if key.modifiers != Modifiers::Plain {
            self
        } else {
            match key.code {
                KeyCode::Esc => if key.kind == KeyKind::Press {
                    KeyboardView { finished: true, ..self }
                } else {
                    self
                },
                KeyCode::Char(c) => if c == '>' && key.kind == KeyKind::Press {
                    self.octave_up()
                } else if c == '<' && key.kind == KeyKind::Press {
                    self.octave_down()
                } else {
                    match (key_index(c), key.kind) {
                        (Some(j), KeyKind::Press) => self.played(j, true),
                        (Some(j), KeyKind::Release) => self.played(j, false),
                        _ => self,
                    }
                },
                _ => self,
            }
        }
    }
}

/// The playing keyboard.
pub struct Keyboard {
    notes: [bool; 25],
    events: Vec<NoteEvent>,
    octave: i32,
    finished: bool,
}

impl View for Keyboard {
    type V = KeyboardView;

    closed spec fn view(&self) -> KeyboardView {
        KeyboardView {
            notes: self.notes@,
            events: self.events@,
            octave: self.octave as int,
            finished: self.finished,
        }
    }
}

/// The playing key that the character `c` stands for.
pub fn find_key(c: char) -> (r: Option<usize>)
    ensures
        match r {
            Some(j) => j < KEYS && key_index(c) == Some(j as int),
            None => key_index(c) is None,
        },
{
    let row: [char; 25] = [
        'q', '2', 'w', '3', 'e', 'r', '5', 't', '6', 'y', '7', 'u', 'c', 'f', 'v', 'g', 'b', 'n',
        'j', 'm', 'k', ',', 'l', '.', '/',
    ];
    assert(row@ =~= key_row());
    let mut j: usize = 0;
    while j < 25
        invariant
            j <= 25,
            row@ == key_row(),
            forall|i: int| 0 <= i < j ==> key_row()[i] != c,
        decreases 25 - j,
    {
        if row[j] == c {
            proof {
                lemma_position_found(key_row(), c, j as int);
            }
            return Some(j);
        }
        j += 1;
    }
    proof {
        lemma_position_absent(key_row(), c);
    }
    None
}

impl Keyboard {
    /// The keyboard's invariant: its octave is within the range that it can
    /// be shifted over.
    pub open spec fn wf(&self) -> bool {
        self@.wf()
    }

    /// A keyboard has as many notes as playing keys.
    pub proof fn lemma_keys(&self)
        ensures
            self@.notes.len() == KEYS,
    {
    }

    /// A keyboard with no key held, in the octave it starts in.
    pub fn new() -> (k: Keyboard)
        ensures
            k.wf(),
            k@.notes == Seq::new(KEYS as nat, |j: int| false),
            k@.events.len() == 0,
            k@.octave == FIRST_OCTAVE,
            !k@.finished,
    {
        let k = Keyboard {
            notes: [false;25],
            events: Vec::new(),
            octave: FIRST_OCTAVE,
            finished: false,
        };
        assert(k@.notes =~= Seq::new(KEYS as nat, |j: int| false));
        k
    }

    /// Hands out the events since the last call, oldest first.
    pub fn get_events(&mut self) -> (events: Vec<NoteEvent>)
        ensures
            events@ == old(self)@.events,
            final(self)@ == (KeyboardView { events: Seq::empty(), ..old(self)@ }),
    {
        let mut events: Vec<NoteEvent> = Vec::new();
        std::mem::swap(&mut events, &mut self.events);
        events
    }

    /// Whether the player asked to leave.
    pub fn is_finished(&self) -> (finished: bool)
        ensures
            finished == self@.finished,
    {
        self.finished
    }

    /// Takes back the player's request to leave.
    pub fn set_unfinished(&mut self)
        ensures
            final(self)@ == (KeyboardView { finished: false, ..old(self)@ }),
    {
        self.finished = false;
    }

    /// The octave of the first key.
    pub fn octave(&self) -> (octave: i32)
        ensures
            octave == self@.octave,
    {
        self.octave
    }

    /// Whether playing key `j` is held.
    pub fn is_held(&self, j: usize) -> (held: bool)
        requires
            j < KEYS,
        ensures
            held == self@.notes[j as int],
    {
        self.notes[j]
    }

    /// Queues a stop event for every held key.
    fn clear_notes(&mut self)
        requires
            old(self).wf(),
        ensures
            final(self)@ == old(self)@.shifted(old(self)@.octave),
    {
        let mut i: usize = 0;
        while i < 25
            invariant
                i <= 25,
                self.wf(),
                self.notes == old(self).notes,
                self.octave == old(self).octave,
                self.finished == old(self).finished,
                self.events@ == old(self).events@ + releases(
                    self.notes@,
                    self.octave as int,
                    i as nat,
                ),
            decreases 25 - i,
        {
            if self.notes[i] {
                let note = Note::from_index(i % 12);
                let octave = self.octave + (i / 12) as i32;
                self.events.push(NoteEvent { kind: NoteEventKind::Stop, note, octave });
            }
            assert(self.events@ =~= old(self).events@ + releases(
                self.notes@,
                self.octave as int,
                (i + 1) as nat,
            ));
            i += 1;
        }
    }

    /// Shifts the keyboard one octave up, as far as the highest octave,
    /// after stopping every held key.
    pub fn incr_octave(&mut self)
        requires
            old(self).wf(),
        ensures
            final(self).wf(),
            final(self)@ == old(self)@.octave_up(),
    {
        self.clear_notes();
        if self.octave < HIGHEST_OCTAVE {
            self.octave = self.octave + 1;
        } else {
            self.octave = HIGHEST_OCTAVE;
        }
    }

    /// Shifts the keyboard one octave down, as far as the lowest octave,
    /// after stopping every held key.
    pub fn decr_octave(&mut self)
        requires
            old(self).wf(),
        ensures
            final(self).wf(),
            final(self)@ == old(self)@.octave_down(),
    {
        self.clear_notes();
        if self.octave > LOWEST_OCTAVE {
            self.octave = self.octave - 1;
        } else {
            self.octave = LOWEST_OCTAVE;
        }
    }

    /// Takes a key stroke. Returns whether the program is to end, which a
    /// stroke on this keyboard never asks for.
    pub fn handle_key(&mut self, key: KeyInput) -> (quit: bool)
        requires
            old(self).wf(),
        ensures
            final(self).wf(),
            final(self)@ == old(self)@.after_key(key),
            !quit,
    {
        if key.modifiers != Modifiers::Plain {
            return false;
        }
        match key.code {
            KeyCode::Esc => {
                if key.kind == KeyKind::Press {
                    self.finished = true;
                }
            },
            KeyCode::Char(c) => {
                if c == '>' && key.kind == KeyKind::Press {
                    self.incr_octave();
                } else if c == '<' && key.kind == KeyKind::Press {
                    self.decr_octave();
                } else if let Some(j) = find_key(c) {
                    let down = match key.kind {
                        KeyKind::Press => true,
                        KeyKind::Release => false,
                        KeyKind::Repeat => {
                            return false;
                        },
                    };
                    self.notes[j] = down;
                    let kind = if down {
                        NoteEventKind::Start
                    } else {
                        NoteEventKind::Stop
                    };
                    let note = Note::from_index(j % 12);
                    let octave = self.octave + (j / 12) as i32;
                    self.events.push(NoteEvent { kind, note, octave });
                }
            },
            _ => {},
        }
        false
    }
}

} // verus!
