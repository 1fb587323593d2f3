//! The voice table: which keys sound, and the handle of each one's voice.
//!
//! A voice is built and mixed outside this library. The table decides: on a
//! note event it says what is to be done, and it is told the handle of each
//! voice that was started. It holds at most one voice per key.

use vstd::prelude::*;
use crate::note::{Frequency, Note, NoteEvent, NoteEventKind};

verus! {

/// A sounding key and the handle of its voice.
#[derive(Clone, Debug, PartialEq, Eq)]
pub struct Voice<H> {
    pub note: Note,
    pub octave: i32,
    pub handle: H,
}

/// What is to be done about a note event.
#[derive(Clone, Debug, PartialEq, Eq)]
pub enum VoiceAction<H> {
    /// Nothing.
    Ignore,
    /// Build a voice at `frequency` and start it at once, open-ended; then
    /// report its handle with [`VoiceTable::started`].
    Start { note: Note, octave: i32, frequency: Frequency },
    /// Close the voice with this handle at once.
    Stop { handle: H },
}

/// The voices of keys that sound, in the order they were started.
pub struct VoiceTable<H> {
    voices: Vec<Voice<H>>,
}

/// Index of the voice of key `(note, octave)` among `voices`.
pub open spec fn voice_index<H>(voices: Seq<Voice<H>>, note: Note, octave: i32) -> Option<int>
    decreases voices.len(),
{
    if voices.len() == 0 {
        None
    } else if voices[0].note == note && voices[0].octave == octave {
        Some(0)
    } else {
        match voice_index(voices.drop_first(), note, octave) {
            Some(i) => Some(i + 1),
            None => None,
        }
    }
}

/// Whether key `(note, octave)` has a voice among `voices`.
pub open spec fn is_live<H>(voices: Seq<Voice<H>>, note: Note, octave: i32) -> bool {
    voice_index(voices, note, octave) is Some
}

/// Number of voices of key `(note, octave)` among `voices`.
pub open spec fn live_count<H>(voices: Seq<Voice<H>>, note: Note, octave: i32) -> nat
    decreases voices.len(),
{
    if voices.len() == 0 {
        0
    } else {
        live_count(voices.drop_first(), note, octave) + if voices[0].note == note
            && voices[0].octave == octave {
            1nat
        } else {
            0nat
        }
    }
}

/// No key has two voices.
pub open spec fn one_voice_per_key<H>(voices: Seq<Voice<H>>) -> bool {
    forall|i: int, j: int|
        0 <= i < j < voices.len() ==> !(voices[i].note == voices[j].note && voices[i].octave
            == voices[j].octave)
}

/// The voices after a voice with `handle` was started for key
/// `(note, octave)`: it joins them unless the key has a voice already.
pub open spec fn after_start<H>(voices: Seq<Voice<H>>, note: Note, octave: i32, handle: H) -> Seq<
    Voice<H>,
> {
    if is_live(voices, note, octave) {
        voices
    } else {
        voices.push(Voice { note, octave, handle })
    }
}

/// The voices after key `(note, octave)` was released: its voice, if it has
/// one, leaves them.
pub open spec fn after_stop<H>(voices: Seq<Voice<H>>, note: Note, octave: i32) -> Seq<Voice<H>> {
    match voice_index(voices, note, octave) {
        Some(i) => voices.remove(i),
        None => voices,
    }
}

/// What a note event asks for, given the voices that sound: a note-on for a
/// key without a voice asks for one at the key's frequency, a note-off for a
/// key that sounds asks for its voice to be closed, and any other event asks
/// for nothing.
pub open spec fn action_for<H>(voices: Seq<Voice<H>>, event: NoteEvent) -> VoiceAction<H> {
    match (event.kind, voice_index(voices, event.note, event.octave)) {
        (NoteEventKind::Start, None) => VoiceAction::Start {
            note: event.note,
            octave: event.octave,
            frequency: event.note.frequency(event.octave),
        },
        (NoteEventKind::Stop, Some(i)) => VoiceAction::Stop { handle: voices[i].handle },
        _ => VoiceAction::Ignore,
    }
}

/// The voices after a note event was decided on: a note-off takes the key's
/// voice away; a note-on leaves the voices as they are, until the voice that
/// it asked for is reported.
pub open spec fn after_event<H>(voices: Seq<Voice<H>>, event: NoteEvent) -> Seq<Voice<H>> {
    match event.kind {
        NoteEventKind::Start => voices,
        NoteEventKind::Stop => after_stop(voices, event.note, event.octave),
    }
}

/// What `voice_index` returns is the index of the key's first voice, and
/// none when the key has no voice.
pub proof fn lemma_voice_index<H>(voices: Seq<Voice<H>>, note: Note, octave: i32)
    ensures
        match voice_index(voices, note, octave) {
            Some(i) => 0 <= i < voices.len() && voices[i].note == note && voices[i].octave
                == octave && forall|j: int|
                0 <= j < i ==> !(voices[j].note == note && voices[j].octave == octave),
            None => forall|j: int|
                0 <= j < voices.len() ==> !(voices[j].note == note && voices[j].octave == octave),
        },
    decreases voices.len(),
{
    if voices.len() > 0 && !(voices[0].note == note && voices[0].octave == octave) {
        let rest = voices.drop_first();
        lemma_voice_index(rest, note, octave);
        match voice_index(rest, note, octave) {
            Some(i) => {
                assert forall|j: int| 0 <= j < i + 1 implies !(voices[j].note == note
                    && voices[j].octave == octave) by {
                    if j > 0 {
                        assert(rest[j - 1] == voices[j]);
                    }
                }
            },
            None => {
                assert forall|j: int| 0 <= j < voices.len() implies !(voices[j].note == note
                    && voices[j].octave == octave) by {
                    if j > 0 {
                        assert(rest[j - 1] == voices[j]);
                    }
                }
            },
        }
    }
}

/// `voice_index` is `i` when voice `i` is the first of the key.
pub proof fn lemma_voice_index_is<H>(voices: Seq<Voice<H>>, note: Note, octave: i32, i: int)
    requires
        0 <= i < voices.len(),
        voices[i].note == note && voices[i].octave == octave,
        forall|j: int| 0 <= j < i ==> !(voices[j].note == note && voices[j].octave == octave),
    ensures
        voice_index(voices, note, octave) == Some(i),
{
    lemma_voice_index(voices, note, octave);
}

/// Among voices of which no key has two, a key that is live has one voice,
/// and a key that is not has none.
pub proof fn lemma_live_count<H>(voices: Seq<Voice<H>>, note: Note, octave: i32)
    requires
        one_voice_per_key(voices),
    ensures
        live_count(voices, note, octave) == if is_live(voices, note, octave) {
            1nat
        } else {
            0nat
        },
    decreases voices.len(),
{
    if voices.len() > 0 {
        let rest = voices.drop_first();
        assert forall|i: int, j: int| 0 <= i < j < rest.len() implies !(rest[i].note
            == rest[j].note && rest[i].octave == rest[j].octave) by {
            assert(rest[i] == voices[i + 1] && rest[j] == voices[j + 1]);
        }
        lemma_live_count(rest, note, octave);
        lemma_voice_index(rest, note, octave);
        if voices[0].note == note && voices[0].octave == octave {
            match voice_index(rest, note, octave) {
                Some(i) => {
                    assert(rest[i] == voices[i + 1]);
                },
                None => {},
            }
        }
    }
}

/// Starting a voice keeps one voice per key.
pub proof fn lemma_start_keeps_one_per_key<H>(
    voices: Seq<Voice<H>>,
    note: Note,
    octave: i32,
    handle: H,
)
    requires
        one_voice_per_key(voices),
    ensures
        one_voice_per_key(after_start(voices, note, octave, handle)),
        is_live(after_start(voices, note, octave, handle), note, octave),
{
    lemma_voice_index(voices, note, octave);
    let next = after_start(voices, note, octave, handle);
    if !is_live(voices, note, octave) {
        lemma_voice_index_is(next, note, octave, voices.len() as int);
    }
}

/// Releasing a key keeps one voice per key, and leaves the key without a
/// voice.
pub proof fn lemma_stop_keeps_one_per_key<H>(voices: Seq<Voice<H>>, note: Note, octave: i32)
    requires
        one_voice_per_key(voices),
    ensures
        one_voice_per_key(after_stop(voices, note, octave)),
        !is_live(after_stop(voices, note, octave), note, octave),
{
    lemma_voice_index(voices, note, octave);
    let next = after_stop(voices, note, octave);
    lemma_voice_index(next, note, octave);
    match voice_index(voices, note, octave) {
        Some(i) => {
            assert forall|a: int| 0 <= a < next.len() implies next[a] == voices[if a < i {
                a
            } else {
                a + 1
            }] by {}
            match voice_index(next, note, octave) {
                Some(b) => {
                    assert(next[b] == voices[if b < i {
                        b
                    } else {
                        b + 1
                    }]);
                },
                None => {},
            }
        },
        None => {},
    }
}

/// A note-on for a key that sounds starts nothing: after two note-ons
/// without a note-off between them, the key has exactly one voice, the one
/// that the first started.
pub proof fn lemma_repeated_note_on<H>(
    voices: Seq<Voice<H>>,
    note: Note,
    octave: i32,
    first: H,
    second: H,
)
    requires
        one_voice_per_key(voices),
    ensures
        action_for(
            after_start(voices, note, octave, first),
            NoteEvent { kind: NoteEventKind::Start, note, octave },
        ) is Ignore,
        after_start(after_start(voices, note, octave, first), note, octave, second) == after_start(
            voices,
            note,
            octave,
            first,
        ),
        live_count(after_start(voices, note, octave, first), note, octave) == 1,
{
    lemma_start_keeps_one_per_key(voices, note, octave, first);
    lemma_live_count(after_start(voices, note, octave, first), note, octave);
}

/// A note-off for a key that does not sound changes nothing.
pub proof fn lemma_note_off_without_voice<H>(voices: Seq<Voice<H>>, note: Note, octave: i32)
    requires
        !is_live(voices, note, octave),
    ensures
        action_for(voices, NoteEvent { kind: NoteEventKind::Stop, note, octave }) is Ignore,
        after_event(voices, NoteEvent { kind: NoteEventKind::Stop, note, octave }) == voices,
        after_stop(voices, note, octave) == voices,
{
}

impl<H> View for VoiceTable<H> {
    type V = Seq<Voice<H>>;

    closed spec fn view(&self) -> Seq<Voice<H>> {
        self.voices@
    }
}

impl<H> VoiceTable<H> {
    /// The table's invariant: no key has two voices.
    pub open spec fn wf(&self) -> bool {
        one_voice_per_key(self@)
    }

    /// A table in which no key sounds.
    pub fn new() -> (t: Self)
        ensures
            t.wf(),
            t@.len() == 0,
    {
        VoiceTable { voices: Vec::new() }
    }

    /// Number of keys that sound.
    pub fn len(&self) -> (n: usize)
        ensures
            n == self@.len(),
    {
        self.voices.len()
    }

    /// Index of the voice of key `(note, octave)`.
    fn find(&self, note: Note, octave: i32) -> (r: Option<usize>)
        ensures
            match r {
                Some(i) => i < self@.len() && voice_index(self@, note, octave) == Some(i as int),
                None => voice_index(self@, note, octave) is None,
            },
    {
        let mut i: usize = 0;
        while i < self.voices.len()
            invariant
                i <= self.voices.len(),
                forall|j: int|
                    0 <= j < i ==> !(self@[j].note == note && self@[j].octave == octave),
            decreases self.voices.len() - i,
        {
            if self.voices[i].note == note && self.voices[i].octave == octave {
                proof {
                    lemma_voice_index_is(self@, note, octave, i as int);
                }
                return Some(i);
            }
            i += 1;
        }
        proof {
            lemma_voice_index(self@, note, octave);
        }
        None
    }

    /// Whether key `(note, octave)` sounds.
    pub fn is_live(&self, note: Note, octave: i32) -> (live: bool)
        ensures
            live == is_live(self@, note, octave),
    {
        self.find(note, octave).is_some()
    }

    /// Decides what a note event asks for. A note-on for a key without a
    /// voice asks for a voice to be started, at the key's frequency; the
    /// table stays as it is until the voice is reported. A note-on for a key
    /// that sounds is ignored. A note-off for a key that sounds takes its
    /// voice from the table and asks for it to be closed. A note-off for a
    /// key without a voice is ignored.
    pub fn handle_event(&mut self, event: &NoteEvent) -> (action: VoiceAction<H>)
        requires
            old(self).wf(),
        ensures
            final(self).wf(),
            final(self)@ == after_event(old(self)@, *event),
            action == action_for(old(self)@, *event),
    {
        let found = self.find(event.note, event.octave);
        match event.kind {
            NoteEventKind::Start => {
                if found.is_some() {
                    VoiceAction::Ignore
                } else {
                    VoiceAction::Start {
                        note: event.note,
                        octave: event.octave,
                        frequency: event.note.to_freq_octave(event.octave),
                    }
                }
            },
            NoteEventKind::Stop => {
                proof {
                    lemma_stop_keeps_one_per_key(self@, event.note, event.octave);
                }
                match found {
                    Some(i) => {
                        let voice = self.voices.remove(i);
                        VoiceAction::Stop { handle: voice.handle }
                    },
                    None => VoiceAction::Ignore,
                }
            },
        }
    }

    /// Records that a voice with `handle` was started for key
    /// `(note, octave)`. If the key has a voice already, the table stays as
    /// it is and the handle comes back, for the caller to close that voice.
    pub fn started(&mut self, note: Note, octave: i32, handle: H) -> (refused: Option<H>)
        requires
            old(self).wf(),
        ensures
            final(self).wf(),
            final(self)@ == after_start(old(self)@, note, octave, handle),
            refused == if is_live(old(self)@, note, octave) {
                Some(handle)
            } else {
                None
            },
    {
        proof {
            lemma_start_keeps_one_per_key(self@, note, octave, handle);
        }
        if self.find(note, octave).is_some() {
            Some(handle)
        } else {
            self.voices.push(Voice { note, octave, handle });
            None
        }
    }
}

} // verus!
