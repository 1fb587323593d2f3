//! The commands of the command line, and how a line is read as one.

use vstd::prelude::*;
use vstd::string::*;
use crate::find::{lemma_position_absent, lemma_position_found, position};
use crate::text::strings_view;

verus! {

/// What a command takes after its name.
#[derive(Clone, Debug, PartialEq, Eq)]
pub enum Arg {
    /// Nothing.
    Nothing,
    /// A file path that matches the pattern.
    Path(String),
    PatchName,
    NewPatchName,
    SequenceName,
    NewSequenceName,
}

/// An [`Arg`] with its pattern as a sequence of characters.
pub enum ArgView {
    Nothing,
    Path(Seq<char>),
    PatchName,
    NewPatchName,
    SequenceName,
    NewSequenceName,
}

impl View for Arg {
    type V = ArgView;

    open spec fn view(&self) -> ArgView {
        match self {
            Arg::Nothing => ArgView::Nothing,
            Arg::Path(pattern) => ArgView::Path(pattern@),
            Arg::PatchName => ArgView::PatchName,
            Arg::NewPatchName => ArgView::NewPatchName,
            Arg::SequenceName => ArgView::SequenceName,
            Arg::NewSequenceName => ArgView::NewSequenceName,
        }
    }
}

/// A command.
#[derive(Clone, Debug, PartialEq, Eq)]
pub enum AppCommand {
    Exit,
    Play,
    LoadTrack(String),
    LoadPatch(String),
    LoadSequence(String),
    EditPatch(String),
    CreatePatch(String),
    CreateSequence(String),
}

/// What a line reads as.
pub enum Reading {
    Exit,
    Play,
    /// Load the track at this path.
    LoadTrack(Seq<char>),
    /// No command.
    Unrecognised,
}

/// The parts of `s` between single spaces. A text without a space is one
/// part; two spaces in a row have an empty part between them.
pub open spec fn split(s: Seq<char>) -> Seq<Seq<char>>
    decreases s.len(),
{
    match position(s, ' ') {
        Some(i) => if 0 <= i < s.len() {
            seq![s.take(i)] + split(s.skip(i + 1))
        } else {
            seq![s]
        },
        None => seq![s],
    }
}

/// What the line `s` reads as: `exit` and `play` stand alone; `load track`
/// takes the part after the next space as a path, and ignores what follows
/// another space.
pub open spec fn read_command(s: Seq<char>) -> Reading {
    let parts = split(s);
    if parts.len() == 1 && parts[0] == "exit"@ {
        Reading::Exit
    } else if parts.len() == 1 && parts[0] == "play"@ {
        Reading::Play
    } else if parts.len() >= 3 && parts[0] == "load"@ && parts[1] == "track"@ {
        Reading::LoadTrack(parts[2])
    } else {
        Reading::Unrecognised
    }
}

/// What is said of a line that is no command.
pub open spec fn unrecognised(s: Seq<char>) -> Seq<char> {
    "unrecognised command \""@ + s + "\""@
}

/// The commands that the command line completes, each with what it takes.
pub open spec fn command_list() -> Seq<(Seq<char>, ArgView)> {
    seq![
        ("exit"@, ArgView::Nothing),
        ("play"@, ArgView::Nothing),
        ("load track"@, ArgView::Path("*.yaml"@)),
        ("load patch"@, ArgView::Path("*.yaml"@)),
        ("load sequence"@, ArgView::Path("*.yaml"@)),
        ("create patch"@, ArgView::NewPatchName),
        ("edit patch"@, ArgView::PatchName),
        ("create sequence"@, ArgView::NewSequenceName),
        ("edit sequence"@, ArgView::SequenceName),
    ]
}

/// The options, each with its name as its characters.
pub open spec fn options_view(options: Seq<(String, Arg)>) -> Seq<(Seq<char>, ArgView)> {
    options.map_values(|o: (String, Arg)| (o.0@, o.1@))
}

/// Splits a line at its single spaces.
pub fn split_words(line: &str) -> (words: Vec<String>)
    ensures
        strings_view(words@) == split(line@),
{
    let len = line.unicode_len();
    let mut words: Vec<String> = Vec::new();
    let mut start: usize = 0;
    let mut i: usize = 0;
    assert(line@.skip(0) =~= line@);
    assert(strings_view(words@) =~= Seq::empty());
    while i < len
        invariant
            len == line@.len(),
            start <= i <= len,
            forall|j: int| start <= j < i ==> line@[j] != ' ',
            strings_view(words@) + split(line@.skip(start as int)) == split(line@),
        decreases len - i,
    {
        if line.get_char(i) == ' ' {
            let ghost rest = line@.skip(start as int);
            proof {
                assert forall|j: int| 0 <= j < i - start implies rest[j] != ' ' by {
                    assert(rest[j] == line@[start + j]);
                }
                lemma_position_found(rest, ' ', i - start);
                assert(rest.take(i - start) =~= line@.subrange(start as int, i as int));
                assert(rest.skip(i - start + 1) =~= line@.skip(i + 1));
            }
            let ghost before = strings_view(words@);
            words.push(String::from_str(line.substring_char(start, i)));
            assert(strings_view(words@) =~= before.push(line@.subrange(start as int, i as int)));
            assert(strings_view(words@) + split(line@.skip(i + 1)) =~= before + split(rest));
            start = i + 1;
        }
        i += 1;
    }
    let ghost rest = line@.skip(start as int);
    proof {
        assert forall|j: int| 0 <= j < rest.len() implies rest[j] != ' ' by {
            assert(rest[j] == line@[start + j]);
        }
        lemma_position_absent(rest, ' ');
        assert(rest =~= line@.subrange(start as int, len as int));
    }
    let ghost before = strings_view(words@);
    words.push(String::from_str(line.substring_char(start, len)));
    assert(strings_view(words@) =~= before + split(rest));
    words
}

impl AppCommand {
    /// The commands that the command line completes, each with what it
    /// takes.
    pub fn list_commands() -> (options: Vec<(String, Arg)>)
        ensures
            options_view(options@) == command_list(),
    {
        let mut options: Vec<(String, Arg)> = Vec::new();
        options.push((String::from_str("exit"), Arg::Nothing));
        options.push((String::from_str("play"), Arg::Nothing));
        options.push((String::from_str("load track"), Arg::Path(String::from_str("*.yaml"))));
        options.push((String::from_str("load patch"), Arg::Path(String::from_str("*.yaml"))));
        options.push((String::from_str("load sequence"), Arg::Path(String::from_str("*.yaml"))));
        options.push((String::from_str("create patch"), Arg::NewPatchName));
        options.push((String::from_str("edit patch"), Arg::PatchName));
        options.push((String::from_str("create sequence"), Arg::NewSequenceName));
        options.push((String::from_str("edit sequence"), Arg::SequenceName));
        assert(options_view(options@) =~= command_list());
        options
    }

    /// Reads a line as a command; a line that is none comes back in the
    /// error, quoted.
    pub fn try_from(value: &str) -> (r: Result<AppCommand, String>)
        ensures
            match read_command(value@) {
                Reading::Exit => r matches Ok(AppCommand::Exit),
                Reading::Play => r matches Ok(AppCommand::Play),
                Reading::LoadTrack(path) => r matches Ok(AppCommand::LoadTrack(p)) && p@ == path,
                Reading::Unrecognised => r matches Err(message) && message@ == unrecognised(value@),
            },
    {
        let mut words = split_words(value);
        let ghost parts = strings_view(words@);
        assert(forall|i: int| 0 <= i < words.len() ==> words[i]@ == parts[i]);
        let exit = String::from_str("exit");
        let play = String::from_str("play");
        let load = String::from_str("load");
        let track = String::from_str("track");
        if words.len() == 1 && words[0] == exit {
            return Ok(AppCommand::Exit);
        }
        if words.len() == 1 && words[0] == play {
            return Ok(AppCommand::Play);
        }
        if words.len() >= 3 && words[0] == load && words[1] == track {
            let path = words.swap_remove(2);
            return Ok(AppCommand::LoadTrack(path));
        }
        let mut message = String::from_str("unrecognised command \"");
        message.append(value);
        message.append("\"");
        Err(message)
    }
}

} // verus!
