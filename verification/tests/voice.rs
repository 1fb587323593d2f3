use polysynth::note::{Frequency, Note, NoteEvent, NoteEventKind};
use polysynth::voice::{VoiceAction, VoiceTable};

fn on(note: Note, octave: i32) -> NoteEvent {
    NoteEvent { kind: NoteEventKind::Start, note, octave }
}

fn off(note: Note, octave: i32) -> NoteEvent {
    NoteEvent { kind: NoteEventKind::Stop, note, octave }
}

#[test]
fn note_on_asks_for_a_voice_at_the_keys_frequency() {
    let mut t: VoiceTable<u64> = VoiceTable::new();
    assert_eq!(
        t.handle_event(&on(Note::C, 3)),
        VoiceAction::Start {
            note: Note::C,
            octave: 3,
            frequency: Frequency { decihertz: 1308, octaves: 0 },
        }
    );
    assert_eq!(t.len(), 0);
    assert!(!t.is_live(Note::C, 3));
    assert_eq!(t.started(Note::C, 3, 7), None);
    assert!(t.is_live(Note::C, 3));
    assert_eq!(t.len(), 1);
}

#[test]
fn repeated_note_on_gives_one_voice() {
    let mut t: VoiceTable<u64> = VoiceTable::new();
    assert!(matches!(t.handle_event(&on(Note::C, 3)), VoiceAction::Start { .. }));
    assert_eq!(t.started(Note::C, 3, 1), None);
    assert_eq!(t.handle_event(&on(Note::C, 3)), VoiceAction::Ignore);
    assert_eq!(t.len(), 1);
    assert_eq!(t.handle_event(&off(Note::C, 3)), VoiceAction::Stop { handle: 1 });
    assert_eq!(t.len(), 0);
}

#[test]
fn second_voice_for_a_live_key_is_refused() {
    let mut t: VoiceTable<u64> = VoiceTable::new();
    assert_eq!(t.started(Note::C, 3, 1), None);
    assert_eq!(t.started(Note::C, 3, 2), Some(2));
    assert_eq!(t.len(), 1);
    assert_eq!(t.handle_event(&off(Note::C, 3)), VoiceAction::Stop { handle: 1 });
}

#[test]
fn note_off_without_voice_is_ignored() {
    let mut t: VoiceTable<u64> = VoiceTable::new();
    assert_eq!(t.handle_event(&off(Note::C, 3)), VoiceAction::Ignore);
    assert_eq!(t.len(), 0);
    assert_eq!(t.started(Note::D, 3, 5), None);
    assert_eq!(t.handle_event(&off(Note::C, 3)), VoiceAction::Ignore);
    assert_eq!(t.handle_event(&off(Note::D, 4)), VoiceAction::Ignore);
    assert_eq!(t.len(), 1);
    assert!(t.is_live(Note::D, 3));
}

#[test]
fn note_off_closes_only_its_key() {
    let mut t: VoiceTable<u64> = VoiceTable::new();
    assert_eq!(t.started(Note::C, 3, 10), None);
    assert_eq!(t.started(Note::C, 4, 11), None);
    assert_eq!(t.started(Note::E, 3, 12), None);
    assert_eq!(t.handle_event(&off(Note::C, 4)), VoiceAction::Stop { handle: 11 });
    assert!(t.is_live(Note::C, 3));
    assert!(!t.is_live(Note::C, 4));
    assert!(t.is_live(Note::E, 3));
    assert_eq!(t.handle_event(&off(Note::C, 4)), VoiceAction::Ignore);
    assert_eq!(t.handle_event(&off(Note::C, 3)), VoiceAction::Stop { handle: 10 });
    assert_eq!(t.handle_event(&off(Note::E, 3)), VoiceAction::Stop { handle: 12 });
    assert_eq!(t.len(), 0);
}

#[test]
fn key_can_sound_again_after_release() {
    let mut t: VoiceTable<u64> = VoiceTable::new();
    assert_eq!(t.started(Note::A, -2, 1), None);
    assert_eq!(t.handle_event(&off(Note::A, -2)), VoiceAction::Stop { handle: 1 });
    assert_eq!(
        t.handle_event(&on(Note::A, -2)),
        VoiceAction::Start {
            note: Note::A,
            octave: -2,
            frequency: Frequency { decihertz: 2200, octaves: -5 },
        }
    );
    assert_eq!(t.started(Note::A, -2, 2), None);
    assert_eq!(t.handle_event(&off(Note::A, -2)), VoiceAction::Stop { handle: 2 });
}
