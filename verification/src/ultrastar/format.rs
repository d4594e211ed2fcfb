//! The lines of a song file: what each line is, and the fields it holds.

use crate::chars::find_char;
use crate::chars::index_of;
use crate::chars::lemma_leading_space_bounds;
use crate::chars::lowercase;
use crate::chars::lowered;
use crate::chars::split_words;
use crate::chars::trim;
use crate::chars::trim_start;
use crate::chars::trimmed;
use crate::chars::trimmed_start;
use crate::chars::words_of;
use vstd::prelude::*;
use vstd::slice::slice_subrange;
use vstd::slice::slice_to_vec;

verus! {

/// What one line of a song file says.
pub enum SongLine {
    /// Nothing: an empty line, or one that fits no other kind.
    Skip,
    /// `#PROPERTY:value`. The property is in lower case; neither has white
    /// space around it.
    Header { property: Seq<char>, value: Seq<char> },
    /// A note: its tag, three numbers and the syllable, which single spaces
    /// separate.
    Note {
        tag: Seq<char>,
        start_beat: Seq<char>,
        length: Seq<char>,
        pitch: Seq<char>,
        text: Seq<char>,
    },
    /// `- beat`: the end of a phrase. `line` is the whole line without the
    /// white space before it.
    Break { beat: Seq<char>, line: Seq<char> },
    /// `P…`: the next singer begins.
    Player,
    /// `E…`: the song is over.
    End,
}

/// One line of a song file, read.
pub enum Line {
    Skip,
    Header { property: String, value: Vec<char> },
    Note { tag: Vec<char>, start_beat: Vec<char>, length: Vec<char>, pitch: Vec<char>, text: Vec<char> },
    Break { beat: Vec<char>, line: Vec<char> },
    Player,
    End,
}

impl View for Line {
    type V = SongLine;

    open spec fn view(&self) -> SongLine {
        match self {
            Line::Skip => SongLine::Skip,
            Line::Header { property, value } => SongLine::Header {
                property: property@,
                value: value@,
            },
            Line::Note { tag, start_beat, length, pitch, text } => SongLine::Note {
                tag: tag@,
                start_beat: start_beat@,
                length: length@,
                pitch: pitch@,
                text: text@,
            },
            Line::Break { beat, line } => SongLine::Break { beat: beat@, line: line@ },
            Line::Player => SongLine::Player,
            Line::End => SongLine::End,
        }
    }
}

/// `c` begins a note line.
pub open spec fn is_note_tag(c: char) -> bool {
    c == ':' || c == '*' || c == 'F' || c == 'R' || c == 'G'
}

/// The five fields of a note line: what stands before each of the first
/// four spaces, and all that stands after the fourth. A line with fewer
/// than four spaces has none.
pub open spec fn note_fields(line: Seq<char>) -> Option<
    (Seq<char>, Seq<char>, Seq<char>, Seq<char>, Seq<char>),
> {
    let a = index_of(line, ' ');
    let rest1 = line.skip(a + 1);
    let b = index_of(rest1, ' ');
    let rest2 = rest1.skip(b + 1);
    let c = index_of(rest2, ' ');
    let rest3 = rest2.skip(c + 1);
    let d = index_of(rest3, ' ');
    if a < line.len() && b < rest1.len() && c < rest2.len() && d < rest3.len() {
        Some((line.take(a), rest1.take(b), rest2.take(c), rest3.take(d), rest3.skip(d + 1)))
    } else {
        None
    }
}

/// The note that a line holds, if it has the five fields of a note.
pub open spec fn note_line(line: Seq<char>) -> SongLine {
    match note_fields(line) {
        Some((tag, start_beat, length, pitch, text)) => SongLine::Note {
            tag,
            start_beat,
            length,
            pitch,
            text,
        },
        None => SongLine::Skip,
    }
}

/// What a line of a song file says. White space before the line does not
/// count. The first character decides the kind: `#` a header, which needs a
/// colon; `:`, `*`, `F`, `R` or `G` a note, which needs its five fields;
/// `-` the end of a phrase, which needs a beat; `P` the next singer; `E`
/// the end.
pub open spec fn song_line(raw: Seq<char>) -> SongLine {
    let line = trimmed_start(raw);
    if line.len() == 0 {
        SongLine::Skip
    } else if line[0] == '#' {
        let body = trimmed(line).skip(1);
        let at = index_of(body, ':');
        if at < body.len() {
            SongLine::Header {
                property: lowercase(trimmed(body.take(at))),
                value: trimmed(body.skip(at + 1)),
            }
        } else {
            SongLine::Skip
        }
    } else if is_note_tag(line[0]) {
        note_line(line)
    } else if line[0] == '-' {
        let words = words_of(line.skip(1));
        if words.len() > 0 {
            SongLine::Break { beat: words[0], line }
        } else {
            SongLine::Skip
        }
    } else if line[0] == 'P' {
        SongLine::Player
    } else if line[0] == 'E' {
        SongLine::End
    } else {
        SongLine::Skip
    }
}

/// Reads the five fields of a note line.
fn read_note(line: &[char]) -> (read: Line)
    ensures
        read@ == note_line(line@),
{
    let a = find_char(line, ' ');
    if a >= line.len() {
        return Line::Skip;
    }
    let rest1 = slice_subrange(line, a + 1, line.len());
    assert(rest1@ =~= line@.skip(a + 1));
    let b = find_char(rest1, ' ');
    if b >= rest1.len() {
        return Line::Skip;
    }
    let rest2 = slice_subrange(rest1, b + 1, rest1.len());
    assert(rest2@ =~= rest1@.skip(b + 1));
    let c = find_char(rest2, ' ');
    if c >= rest2.len() {
        return Line::Skip;
    }
    let rest3 = slice_subrange(rest2, c + 1, rest2.len());
    assert(rest3@ =~= rest2@.skip(c + 1));
    let d = find_char(rest3, ' ');
    if d >= rest3.len() {
        return Line::Skip;
    }
    let tag = slice_to_vec(slice_subrange(line, 0, a));
    let start_beat = slice_to_vec(slice_subrange(rest1, 0, b));
    let length = slice_to_vec(slice_subrange(rest2, 0, c));
    let pitch = slice_to_vec(slice_subrange(rest3, 0, d));
    let text = slice_to_vec(slice_subrange(rest3, d + 1, rest3.len()));
    assert(tag@ =~= line@.take(a as int));
    assert(start_beat@ =~= rest1@.take(b as int));
    assert(length@ =~= rest2@.take(c as int));
    assert(pitch@ =~= rest3@.take(d as int));
    assert(text@ =~= rest3@.skip(d + 1));
    Line::Note { tag, start_beat, length, pitch, text }
}

/// Reads one line of a song file.
pub fn read_line(raw: &[char]) -> (read: Line)
    ensures
        read@ == song_line(raw@),
{
    let line = trim_start(raw);
    if line.len() == 0 {
        return Line::Skip;
    }
    let first = line[0];
    if first == '#' {
        let whole = trim(line);
        proof {
            lemma_leading_space_bounds(line@);
            assert(!crate::chars::is_whitespace(line@[0]));
            assert(crate::chars::leading_space(line@) == 0);
            assert(trimmed_start(line@) =~= line@);
            crate::chars::lemma_trailing_space_bounds(line@);
            assert(crate::chars::trailing_space(line@) < line@.len());
        }
        let body = slice_subrange(whole, 1, whole.len());
        assert(body@ =~= trimmed(line@).skip(1));
        let at = find_char(body, ':');
        if at >= body.len() {
            return Line::Skip;
        }
        let name = slice_subrange(body, 0, at);
        let rest = slice_subrange(body, at + 1, body.len());
        assert(name@ =~= body@.take(at as int));
        assert(rest@ =~= body@.skip(at + 1));
        let property = lowered(trim(name));
        let value = slice_to_vec(trim(rest));
        Line::Header { property, value }
    } else if first == ':' || first == '*' || first == 'F' || first == 'R' || first == 'G' {
        read_note(line)
    } else if first == '-' {
        let rest = slice_subrange(line, 1, line.len());
        assert(rest@ =~= line@.skip(1));
        let words = split_words(rest);
        if words.len() > 0 {
            let beat = slice_to_vec(words[0].as_slice());
            Line::Break { beat, line: slice_to_vec(line) }
        } else {
            Line::Skip
        }
    } else if first == 'P' {
        Line::Player
    } else if first == 'E' {
        Line::End
    } else {
        Line::Skip
    }
}

} // verus!
