//! The command line: a line being edited, suggestions that complete it, and
//! a history of what was entered and answered.

use std::collections::VecDeque;
use vstd::prelude::*;
use vstd::string::*;
use crate::command::{options_view, Arg, ArgView};
use crate::input::{KeyCode, KeyInput, KeyKind};
use crate::text::{chars_of, pairs_view, starts_with, string_of};

verus! {

/// Number of history entries that are kept.
pub const HISTORY_LIMIT: usize = 200;

/// What a history entry is.
#[derive(Clone, Copy, Debug, PartialEq, Eq, Structural)]
pub enum HistoryType {
    /// An answer.
    Output,
    /// A line that was entered.
    Echo,
    /// A complaint.
    Error,
}

/// What a command line holds.
pub struct CommandBoxView {
    /// The commands that can be completed, each with what it takes.
    pub options: Seq<(Seq<char>, ArgView)>,
    /// The suggestions: a text for the line, and a hint at what follows it.
    pub suggestions: Seq<(Seq<char>, Seq<char>)>,
    /// The suggestion that is selected.
    pub selection: nat,
    /// The history, oldest entry first.
    pub history: Seq<(HistoryType, Seq<char>)>,
    /// The line being edited.
    pub buf: Seq<char>,
    /// Whether the line was entered and waits to be fetched.
    pub ready: bool,
    /// The cursor, as the number of characters left of it.
    pub cursor: nat,
}

/// The history after `entry` was added: the last entries, as many as are
/// kept.
pub open spec fn recorded(
    history: Seq<(HistoryType, Seq<char>)>,
    entry: (HistoryType, Seq<char>),
) -> Seq<(HistoryType, Seq<char>)> {
    let all = history.push(entry);
    if all.len() > HISTORY_LIMIT {
        all.skip(all.len() - HISTORY_LIMIT)
    } else {
        all
    }
}

/// The hint at what a command takes.
pub open spec fn arg_hint(arg: ArgView) -> Seq<char> {
    match arg {
        ArgView::Nothing => Seq::empty(),
        ArgView::Path(pattern) => "$path/"@ + pattern,
        _ => "$name"@,
    }
}

/// What the command `stem` with `arg` suggests for the line `buf`. A command
/// that the line begins with suggests what it takes, if it takes anything.
/// A command that begins with the line suggests itself, followed by a space
/// if it takes something.
pub open spec fn suggestion(buf: Seq<char>, stem: Seq<char>, arg: ArgView) -> Option<
    (Seq<char>, Seq<char>),
> {
    if stem.is_prefix_of(buf) {
        if arg is Nothing {
            None
        } else {
            Some((stem + " "@, arg_hint(arg)))
        }
    } else if buf.is_prefix_of(stem) {
        if arg is Nothing {
            Some((stem, Seq::empty()))
        } else {
            Some((stem + " "@, arg_hint(arg)))
        }
    } else {
        None
    }
}

/// The suggestions of the first `k` options for the line `buf`, in the
/// order of the options.
pub open spec fn suggestions_upto(buf: Seq<char>, options: Seq<(Seq<char>, ArgView)>, k: nat)
    -> Seq<(Seq<char>, Seq<char>)>
    decreases k,
{
    if k == 0 {
        Seq::empty()
    } else {
        let before = suggestions_upto(buf, options, (k - 1) as nat);
        match suggestion(buf, options[k - 1].0, options[k - 1].1) {
            Some(s) => before.push(s),
            None => before,
        }
    }
}

impl CommandBoxView {
    /// The cursor is within the line, and the history within its limit.
    pub open spec fn wf(self) -> bool {
        self.cursor <= self.buf.len() && self.history.len() <= HISTORY_LIMIT
    }

    /// The command line after its line was fetched: empty, if the line was
    /// ready.
    pub open spec fn fetched(self) -> CommandBoxView {
        if self.ready {
            CommandBoxView { buf: Seq::empty(), cursor: 0, ready: false, ..self }
        } else {
            self
        }
    }

    /// The command line with the selection moved to the next suggestion,
    /// and from the last one back to the first.
    pub open spec fn next_suggestion(self) -> CommandBoxView {
        CommandBoxView {
            selection: if self.selection + 1 < self.suggestions.len() {
                self.selection + 1
            } else {
                0
            },
            ..self
        }
    }

    /// The command line with the selected suggestion taken as the line, if
    /// there is one.
    pub open spec fn selected(self) -> CommandBoxView {
        if self.selection < self.suggestions.len() {
            CommandBoxView {
                buf: self.suggestions[self.selection as int].0,
                cursor: self.suggestions[self.selection as int].0.len(),
                ..self
            }
        } else {
            self
        }
    }

    /// The command line after a key stroke. Only presses count. A character
    /// goes in at the cursor. Enter records the line in the history and
    /// makes it ready. Escape empties the line. The arrows move the cursor;
    /// right of the end, the right arrow takes the selected suggestion. Tab
    /// selects the next suggestion. Backspace removes the character left of
    /// the cursor, delete the one at it.
    pub open spec fn after_key(self, key: KeyInput) -> CommandBoxView {
        if key.kind != KeyKind::Press {
            self
        } else {
            match key.code {
                KeyCode::Char(c) => CommandBoxView {
                    buf: self.buf.insert(self.cursor as int, c),
                    cursor: self.cursor + 1,
                    ..self
                },
                KeyCode::Enter => CommandBoxView {
                    history: recorded(self.history, (HistoryType::Echo, self.buf)),
                    ready: true,
                    ..self
                },
                KeyCode::Esc => CommandBoxView { buf: Seq::empty(), cursor: 0, ..self },
                KeyCode::Left => CommandBoxView {
                    cursor: if self.cursor > 0 {
                        (self.cursor - 1) as nat
                    } else {
                        0
                    },
                    ..self
                },
                KeyCode::Right => if self.cursor == self.buf.len() {
                    self.selected()
                } else {
                    CommandBoxView { cursor: self.cursor + 1, ..self }
                },
                KeyCode::Tab => self.next_suggestion(),
                KeyCode::Backspace => if self.cursor > 0 {
                    CommandBoxView {
                        buf: self.buf.remove(self.cursor - 1),
                        cursor: (self.cursor - 1) as nat,
                        ..self
                    }
                } else {
                    self
                },
                KeyCode::Delete => if self.cursor < self.buf.len() {
                    CommandBoxView { buf: self.buf.remove(self.cursor as int), ..self }
                } else {
                    self
                },
                _ => self,
            }
        }
    }

    /// What of the history is shown in `height` rows, of which the last is
    /// the line being edited: the number of blank rows at the top, and the
    /// first entry that is shown. The last entries are shown, as many as
    /// there is room for, at the bottom.
    pub open spec fn window(self, height: nat) -> (nat, nat) {
        let room = if height > 0 {
            (height - 1) as nat
        } else {
            0
        };
        let shown = if self.history.len() < room {
            self.history.len()
        } else {
            room
        };
        ((room - shown) as nat, (self.history.len() - shown) as nat)
    }

    /// What is shown after the line, dimmed: the rest of the selected
    /// suggestion, or of the last one where the selection is beyond it, and
    /// its hint.
    pub open spec fn hint(self) -> Seq<char> {
        if self.suggestions.len() == 0 {
            Seq::empty()
        } else {
            let chosen = if self.selection < self.suggestions.len() {
                self.suggestions[self.selection as int]
            } else {
                self.suggestions.last()
            };
            if chosen.0.len() > self.buf.len() {
                chosen.0.skip(self.buf.len() as int) + chosen.1
            } else {
                chosen.1
            }
        }
    }
}

/// The command line.
pub struct CommandBox {
    ac: Vec<(String, Arg)>,
    ac_suggestions: Vec<(String, String)>,
    ac_selection: usize,
    history: VecDeque<(HistoryType, String)>,
    buf: Vec<char>,
    ready: bool,
    cursor_position: usize,
}

/// The history entries, each with its text as its characters.
pub open spec fn history_view(history: Seq<(HistoryType, String)>) -> Seq<
    (HistoryType, Seq<char>),
> {
    history.map_values(|e: (HistoryType, String)| (e.0, e.1@))
}

impl View for CommandBox {
    type V = CommandBoxView;

    closed spec fn view(&self) -> CommandBoxView {
        CommandBoxView {
            options: options_view(self.ac@),
            suggestions: pairs_view(self.ac_suggestions@),
            selection: self.ac_selection as nat,
            history: history_view(self.history@),
            buf: self.buf@,
            ready: self.ready,
            cursor: self.cursor_position as nat,
        }
    }
}

impl CommandBox {
    /// The command line's invariant: the cursor is within the line, and the
    /// history within its limit.
    pub open spec fn wf(&self) -> bool {
        self@.wf()
    }

    /// An empty command line that completes nothing.
    pub fn new() -> (b: CommandBox)
        ensures
            b.wf(),
            b@.options.len() == 0,
            b@.suggestions.len() == 0,
            b@.selection == 0,
            b@.history.len() == 0,
            b@.buf.len() == 0,
            !b@.ready,
            b@.cursor == 0,
    {
        CommandBox {
            ac: Vec::new(),
            ac_suggestions: Vec::new(),
            ac_selection: 0,
            history: VecDeque::new(),
            buf: Vec::new(),
            ready: false,
            cursor_position: 0,
        }
    }

    /// Fetches the line, if it was entered, and empties the command line.
    pub fn get_command(&mut self) -> (command: Option<String>)
        requires
            old(self).wf(),
        ensures
            final(self).wf(),
            final(self)@ == old(self)@.fetched(),
            match command {
                Some(line) => old(self)@.ready && line@ == old(self)@.buf,
                None => !old(self)@.ready,
            },
    {
        if self.ready {
            let line = string_of(&self.buf);
            self.buf = Vec::new();
            self.cursor_position = 0;
            self.ready = false;
            Some(line)
        } else {
            None
        }
    }

    /// Adds an entry to the history, and drops the oldest beyond the limit.
    fn push(&mut self, kind: HistoryType, text: String)
        requires
            old(self).wf(),
        ensures
            final(self).wf(),
            final(self)@ == (CommandBoxView {
                history: recorded(old(self)@.history, (kind, text@)),
                ..old(self)@
            }),
    {
        let ghost all = old(self)@.history.push((kind, text@));
        self.history.push_back((kind, text));
        assert(history_view(self.history@) =~= all);
        while self.history.len() > HISTORY_LIMIT
            invariant
                self.ac == old(self).ac,
                self.ac_suggestions == old(self).ac_suggestions,
                self.ac_selection == old(self).ac_selection,
                self.buf == old(self).buf,
                self.ready == old(self).ready,
                self.cursor_position == old(self).cursor_position,
                self.history.len() <= all.len() <= HISTORY_LIMIT + 1,
                self.history.len() >= HISTORY_LIMIT || self.history.len() == all.len(),
                history_view(self.history@) == all.skip(all.len() - self.history.len()),
            decreases self.history.len(),
        {
            let ghost before = history_view(self.history@);
            let _ = self.history.pop_front();
            assert(history_view(self.history@) =~= before.skip(1));
            assert(before.skip(1) =~= all.skip(all.len() - self.history.len()));
        }
        assert(all.skip(0) =~= all);
    }

    /// Adds an answer to the history.
    pub fn push_output(&mut self, output: String)
        requires
            old(self).wf(),
        ensures
            final(self).wf(),
            final(self)@ == (CommandBoxView {
                history: recorded(old(self)@.history, (HistoryType::Output, output@)),
                ..old(self)@
            }),
    {
        self.push(HistoryType::Output, output);
    }

    /// Adds a complaint to the history.
    pub fn push_error(&mut self, error: String)
        requires
            old(self).wf(),
        ensures
            final(self).wf(),
            final(self)@ == (CommandBoxView {
                history: recorded(old(self)@.history, (HistoryType::Error, error@)),
                ..old(self)@
            }),
    {
        self.push(HistoryType::Error, error);
    }

    /// Sets the commands that can be completed.
    pub fn set_autocomplete(&mut self, options: Vec<(String, Arg)>)
        ensures
            final(self)@ == (CommandBoxView { options: options_view(options@), ..old(self)@ }),
    {
        self.ac = options;
    }

    /// Works out the suggestions for the line as it is.
    pub fn update_autocomplete(&mut self)
        ensures
            final(self)@ == (CommandBoxView {
                suggestions: suggestions_upto(
                    old(self)@.buf,
                    old(self)@.options,
                    old(self)@.options.len(),
                ),
                ..old(self)@
            }),
    {
        let mut suggestions: Vec<(String, String)> = Vec::new();
        let mut i: usize = 0;
        assert(pairs_view(suggestions@) =~= Seq::empty());
        while i < self.ac.len()
            invariant
                i <= self.ac.len(),
                pairs_view(suggestions@) == suggestions_upto(
                    self.buf@,
                    options_view(self.ac@),
                    i as nat,
                ),
            decreases self.ac.len() - i,
        {
            let ghost before = pairs_view(suggestions@);
            let ghost option = options_view(self.ac@)[i as int];
            assert(option == (self.ac[i as int].0@, self.ac[i as int].1@));
            let stem = &self.ac[i].0;
            let stem_chars = chars_of(stem.as_str());
            let complete = starts_with(&self.buf, &stem_chars);
            let partial = starts_with(&stem_chars, &self.buf);
            if complete || partial {
                let mut text = stem.clone();
                let hint = match &self.ac[i].1 {
                    Arg::Nothing => None,
                    Arg::Path(pattern) => {
                        let mut hint = String::from_str("$path/");
                        hint.append(pattern.as_str());
                        Some(hint)
                    },
                    _ => Some(String::from_str("$name")),
                };
                match hint {
                    Some(hint) => {
                        text.append(" ");
                        suggestions.push((text, hint));
                        assert(pairs_view(suggestions@) =~= before.push(
                            suggestion(self.buf@, option.0, option.1)->Some_0,
                        ));
                    },
                    None => {
                        if !complete {
                            suggestions.push((text, String::new()));
                            assert(pairs_view(suggestions@) =~= before.push(
                                suggestion(self.buf@, option.0, option.1)->Some_0,
                            ));
                        }
                    },
                }
            }
            i += 1;
        }
        self.ac_suggestions = suggestions;
    }

    /// Selects the next suggestion; after the last, the first.
    fn ac_next(&mut self)
        ensures
            final(self)@ == old(self)@.next_suggestion(),
    {
        let n = self.ac_suggestions.len();
        if n > 0 {
            let mut i = self.ac_selection.saturating_add(1);
            if i >= n {
                i = 0;
            }
            self.ac_selection = i;
        } else {
            self.ac_selection = 0;
        }
    }

    /// Takes the selected suggestion as the line and puts the cursor at its
    /// end.
    fn ac_select(&mut self)
        requires
            old(self).wf(),
        ensures
            final(self).wf(),
            final(self)@ == old(self)@.selected(),
    {
        if self.ac_selection < self.ac_suggestions.len() {
            self.buf = chars_of(self.ac_suggestions[self.ac_selection].0.as_str());
            self.cursor_position = self.buf.len();
        }
    }

    /// Takes a key stroke. Returns whether the program is to end, which a
    /// stroke on the command line never asks for.
    pub fn handle_key(&mut self, key: KeyInput) -> (quit: bool)
        requires
            old(self).wf(),
        ensures
            final(self).wf(),
            final(self)@ == old(self)@.after_key(key),
            !quit,
    {
        if key.kind != KeyKind::Press {
            return false;
        }
        match key.code {
            KeyCode::Char(c) => {
                self.buf.insert(self.cursor_position, c);
                assert(self.cursor_position < self.buf.len());
                self.cursor_position += 1;
            },
            KeyCode::Enter => {
                let line = string_of(&self.buf);
                self.push(HistoryType::Echo, line);
                self.ready = true;
            },
            KeyCode::Esc => {
                self.buf = Vec::new();
                self.cursor_position = 0;
            },
            KeyCode::Left => {
                self.cursor_position = self.cursor_position.saturating_sub(1);
            },
            KeyCode::Right => {
                if self.cursor_position == self.buf.len() {
                    self.ac_select();
                } else {
                    self.cursor_position += 1;
                }
            },
            KeyCode::Tab => {
                self.ac_next();
            },
            KeyCode::Backspace => {
                if self.cursor_position > 0 {
                    let _ = self.buf.remove(self.cursor_position - 1);
                    self.cursor_position -= 1;
                }
            },
            KeyCode::Delete => {
                if self.cursor_position < self.buf.len() {
                    let _ = self.buf.remove(self.cursor_position);
                }
            },
            _ => {},
        }
        false
    }

    /// The line being edited.
    pub fn line(&self) -> (line: String)
        ensures
            line@ == self@.buf,
    {
        string_of(&self.buf)
    }

    /// The cursor, as the number of characters left of it.
    pub fn cursor(&self) -> (cursor: usize)
        ensures
            cursor == self@.cursor,
    {
        self.cursor_position
    }

    /// Number of history entries.
    pub fn history_len(&self) -> (n: usize)
        ensures
            n == self@.history.len(),
    {
        self.history.len()
    }

    /// History entry `i`, counted from the oldest.
    pub fn history_entry(&self, i: usize) -> (entry: (HistoryType, &String))
        requires
            i < self@.history.len(),
        ensures
            (entry.0, entry.1@) == self@.history[i as int],
    {
        (self.history[i].0, &self.history[i].1)
    }

    /// What of the history is shown in `height` rows: the number of blank
    /// rows at the top, and the first entry that is shown.
    pub fn history_window(&self, height: usize) -> (window: (usize, usize))
        ensures
            window.0 == self@.window(height as nat).0,
            window.1 == self@.window(height as nat).1,
    {
        let room = if height > 0 {
            height - 1
        } else {
            0
        };
        let entries = self.history.len();
        let shown = if entries < room {
            entries
        } else {
            room
        };
        (room - shown, entries - shown)
    }

    /// What is shown after the line, dimmed.
    pub fn hint(&self) -> (hint: String)
        ensures
            hint@ == self@.hint(),
    {
        let n = self.ac_suggestions.len();
        if n == 0 {
            return String::new();
        }
        let at = if self.ac_selection < n {
            self.ac_selection
        } else {
            n - 1
        };
        let ghost chosen = pairs_view(self.ac_suggestions@)[at as int];
        assert(chosen == (self.ac_suggestions[at as int].0@, self.ac_suggestions[at as int].1@));
        let text = &self.ac_suggestions[at].0;
        let length = text.as_str().unicode_len();
        let mut hint = if length > self.buf.len() {
            String::from_str(text.as_str().substring_char(self.buf.len(), length))
        } else {
            String::new()
        };
        hint.append(self.ac_suggestions[at].1.as_str());
        assert(hint@ =~= self@.hint());
        hint
    }
}

} // verus!
