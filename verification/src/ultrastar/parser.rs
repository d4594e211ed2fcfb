//! Reading a song file: the value of each field, and the song that the
//! lines of the file build up one after the other.

use crate::chars::chars_of;
use crate::chars::lines_of;
use crate::chars::lowercase;
use crate::chars::lowered;
use crate::chars::push_char;
use crate::chars::split_lines;
use crate::chars::string_of;
use crate::chars::to_lowercase;
use crate::error::AppError;
use crate::text::i32_of;
use crate::text::parse_i32;
use crate::text::parse_i32_chars;
use crate::ultrastar::format::read_line;
use crate::ultrastar::format::song_line;
use crate::ultrastar::format::Line;
use crate::ultrastar::format::SongLine;
use crate::ultrastar::song::notes_of;
use crate::ultrastar::song::phrases_of;
use crate::ultrastar::song::voices_of;
use crate::ultrastar::song::Note;
use crate::ultrastar::song::NoteModel;
use crate::ultrastar::song::NoteType;
use crate::ultrastar::song::Phrase;
use crate::ultrastar::song::PhraseModel;
use crate::ultrastar::song::Song;
use crate::ultrastar::song::SongModel;
use crate::ultrastar::song::Voice;
use crate::ultrastar::song::VoiceModel;
use vstd::prelude::*;
use vstd::slice::slice_subrange;
use vstd::utf8::encode_utf8;

verus! {

/// The MD5 digest of `data`, as 32 hexadecimal digits in lower case.
pub uninterp spec fn md5_hex_of(data: Seq<u8>) -> Seq<char>;

/// Calls `md5::compute` and formats the digest in lower-case hexadecimal:
/// two digits for each of the 16 bytes of the digest.
#[verifier::external_body]
fn md5_hex(data: &[u8]) -> (hex: String)
    ensures
        hex@ == md5_hex_of(data@),
        hex@.len() == 32,
{
    format!("{:x}", md5::compute(data))
}

/// The kind of note that a tag at the start of a line announces. A tag that
/// is none of the five known ones announces a freestyle note.
pub open spec fn note_type_of(tag: Seq<char>) -> NoteType {
    if tag == seq![':'] {
        NoteType::Normal
    } else if tag == seq!['*'] {
        NoteType::Golden
    } else if tag == seq!['R'] {
        NoteType::Rap
    } else if tag == seq!['G'] {
        NoteType::RapGolden
    } else {
        NoteType::Freestyle
    }
}

/// A lower-case text that says yes: `yes`, `true` or `1`.
pub open spec fn is_affirmative(lowered: Seq<char>) -> bool {
    lowered == "yes"@ || lowered == "true"@ || lowered == "1"@
}

/// The message of the error that reports text which is no integer.
pub open spec fn integer_failure(property: Seq<char>, value: Seq<char>) -> Seq<char> {
    "Failed to parse integer for "@ + property + ": "@ + value
}

/// The message of the error that reports text which is no number.
pub open spec fn float_failure(property: Seq<char>, value: Seq<char>) -> Seq<char> {
    "Failed to parse float for "@ + property + ": "@ + value
}

/// `value` with a point in place of every comma.
pub open spec fn with_points(value: Seq<char>) -> Seq<char> {
    Seq::new(
        value.len(),
        |i: int|
            if value[i] == ',' {
                '.'
            } else {
                value[i]
            },
    )
}

/// The kind of note that the characters of `tag` announce.
pub fn note_type_of_tag(tag: &[char]) -> (note_type: NoteType)
    ensures
        note_type == note_type_of(tag@),
{
    if tag.len() != 1 {
        return NoteType::Freestyle;
    }
    let c = tag[0];
    assert(tag@ =~= seq![c]);
    if c == ':' {
        NoteType::Normal
    } else if c == '*' {
        NoteType::Golden
    } else if c == 'R' {
        NoteType::Rap
    } else if c == 'G' {
        NoteType::RapGolden
    } else {
        assert(seq![c] != seq![':'] && seq![c] != seq!['*'] && seq![c] != seq!['R'] && seq![c]
            != seq!['G']) by {
            assert(seq![c][0] == c);
            assert(seq![':'][0] == ':');
            assert(seq!['*'][0] == '*');
            assert(seq!['R'][0] == 'R');
            assert(seq!['G'][0] == 'G');
        }
        NoteType::Freestyle
    }
}

/// The kind of note that `tag` announces.
pub fn tag_to_note_type(tag: &str) -> (note_type: NoteType)
    ensures
        note_type == note_type_of(tag@),
{
    let chars = chars_of(tag);
    note_type_of_tag(chars.as_slice())
}

/// Reads the integer value of a property of a song.
///
/// Succeeds exactly on an optional sign followed by digits that denote a
/// 32-bit integer. Otherwise the error names the property and the value.
pub fn parse_us_int(value: &str, property: &str) -> (parsed: Result<i32, AppError>)
    ensures
        match parsed {
            Ok(number) => i32_of(value@) == Some(number),
            Err(error) => {
                &&& i32_of(value@) is None
                &&& error is UltrastarError
                &&& error.message()@ == integer_failure(property@, value@)
            },
        },
{
    match parse_i32(value) {
        Some(number) => Ok(number),
        None => {
            let mut message = String::from_str("Failed to parse integer for ");
            message.append(property);
            message.append(": ");
            message.append(value);
            assert(message@ =~= integer_failure(property@, value@));
            Err(AppError::UltrastarError(message))
        },
    }
}

/// Whether a lower-case text says yes.
pub fn affirms(lowered: &str) -> (yes: bool)
    ensures
        yes == is_affirmative(lowered@),
{
    proof {
        reveal_strlit("yes");
        reveal_strlit("true");
        reveal_strlit("1");
    }
    let len = lowered.unicode_len();
    if len == 1 {
        let yes = lowered.get_char(0) == '1';
        assert(yes == (lowered@ =~= "1"@));
        yes
    } else if len == 3 {
        let yes = lowered.get_char(0) == 'y' && lowered.get_char(1) == 'e' && lowered.get_char(2)
            == 's';
        assert(yes == (lowered@ =~= "yes"@));
        yes
    } else if len == 4 {
        let yes = lowered.get_char(0) == 't' && lowered.get_char(1) == 'r' && lowered.get_char(2)
            == 'u' && lowered.get_char(3) == 'e';
        assert(yes == (lowered@ =~= "true"@));
        yes
    } else {
        false
    }
}

/// Reads the truth value of a property of a song: true for `yes`, `true`
/// and `1`, in any mix of upper and lower case, and false for all else.
pub fn parse_us_bool(value: &str) -> (yes: bool)
    ensures
        yes == is_affirmative(lowercase(value@)),
{
    let lowered = to_lowercase(value);
    affirms(lowered.as_str())
}

/// What a header sets.
#[derive(Debug, Clone, Copy, PartialEq, Eq, Structural)]
pub enum HeaderKind {
    Title,
    Artist,
    Language,
    Edition,
    Genre,
    Year,
    Bpm,
    Gap,
    Start,
    End,
    Audio,
    Instrumental,
    Cover,
    Video,
    Background,
    Relative,
    VideoGap,
    Creator,
    FirstSinger,
    SecondSinger,
    Preview,
    Unknown,
}

/// What the header of the given name, in lower case, sets.
pub open spec fn header_kind(property: Seq<char>) -> HeaderKind {
    if property == "title"@ {
        HeaderKind::Title
    } else if property == "artist"@ {
        HeaderKind::Artist
    } else if property == "language"@ {
        HeaderKind::Language
    } else if property == "edition"@ {
        HeaderKind::Edition
    } else if property == "genre"@ {
        HeaderKind::Genre
    } else if property == "year"@ {
        HeaderKind::Year
    } else if property == "bpm"@ {
        HeaderKind::Bpm
    } else if property == "gap"@ {
        HeaderKind::Gap
    } else if property == "start"@ {
        HeaderKind::Start
    } else if property == "end"@ {
        HeaderKind::End
    } else if property == "mp3"@ || property == "audio"@ {
        HeaderKind::Audio
    } else if property == "instrumental"@ {
        HeaderKind::Instrumental
    } else if property == "cover"@ {
        HeaderKind::Cover
    } else if property == "video"@ {
        HeaderKind::Video
    } else if property == "background"@ {
        HeaderKind::Background
    } else if property == "relative"@ {
        HeaderKind::Relative
    } else if property == "videogap"@ {
        HeaderKind::VideoGap
    } else if property == "author"@ || property == "creator"@ {
        HeaderKind::Creator
    } else if property == "duetsingerp1"@ || property == "p1"@ {
        HeaderKind::FirstSinger
    } else if property == "duetsingerp2"@ || property == "p2"@ {
        HeaderKind::SecondSinger
    } else if property == "preview"@ || property == "previewstart"@ {
        HeaderKind::Preview
    } else {
        HeaderKind::Unknown
    }
}

/// The header holds a number that need not be whole.
pub open spec fn is_float_kind(kind: HeaderKind) -> bool {
    kind is Bpm || kind is Gap || kind is Start || kind is VideoGap || kind is Preview
}

/// Whether `property` is the name `name`.
fn is_name(property: &String, name: &str) -> (yes: bool)
    ensures
        yes == (property@ == name@),
{
    let wanted = String::from_str(name);
    *property == wanted
}

/// What the header of the given name, in lower case, sets.
pub fn kind_of_header(property: &String) -> (kind: HeaderKind)
    ensures
        kind == header_kind(property@),
{
    if is_name(property, "title") {
        HeaderKind::Title
    } else if is_name(property, "artist") {
        HeaderKind::Artist
    } else if is_name(property, "language") {
        HeaderKind::Language
    } else if is_name(property, "edition") {
        HeaderKind::Edition
    } else if is_name(property, "genre") {
        HeaderKind::Genre
    } else if is_name(property, "year") {
        HeaderKind::Year
    } else if is_name(property, "bpm") {
        HeaderKind::Bpm
    } else if is_name(property, "gap") {
        HeaderKind::Gap
    } else if is_name(property, "start") {
        HeaderKind::Start
    } else if is_name(property, "end") {
        HeaderKind::End
    } else if is_name(property, "mp3") || is_name(property, "audio") {
        HeaderKind::Audio
    } else if is_name(property, "instrumental") {
        HeaderKind::Instrumental
    } else if is_name(property, "cover") {
        HeaderKind::Cover
    } else if is_name(property, "video") {
        HeaderKind::Video
    } else if is_name(property, "background") {
        HeaderKind::Background
    } else if is_name(property, "relative") {
        HeaderKind::Relative
    } else if is_name(property, "videogap") {
        HeaderKind::VideoGap
    } else if is_name(property, "author") || is_name(property, "creator") {
        HeaderKind::Creator
    } else if is_name(property, "duetsingerp1") || is_name(property, "p1") {
        HeaderKind::FirstSinger
    } else if is_name(property, "duetsingerp2") || is_name(property, "p2") {
        HeaderKind::SecondSinger
    } else if is_name(property, "preview") || is_name(property, "previewstart") {
        HeaderKind::Preview
    } else {
        HeaderKind::Unknown
    }
}

/// How far a song file has been read: the song's fields so far, the notes
/// of the phrase that is open, the phrases of the voice that is open, the
/// voices that are closed, the text that goes into the song's fingerprint,
/// and whether the end of the song was read.
#[verifier::ext_equal]
pub struct ParseModel<F> {
    pub song: SongModel<F>,
    pub notes: Seq<NoteModel>,
    pub phrases: Seq<PhraseModel>,
    pub voices: Seq<VoiceModel>,
    pub hashed: Seq<char>,
    pub ended: bool,
}

/// How far a song file has been read.
pub struct Parser<F> {
    pub song: Song<F>,
    pub notes: Vec<Note>,
    pub phrases: Vec<Phrase>,
    pub voices: Vec<Voice>,
    pub hashed: Vec<char>,
    pub ended: bool,
}

impl<F> View for Parser<F> {
    type V = ParseModel<F>;

    open spec fn view(&self) -> ParseModel<F> {
        ParseModel {
            song: self.song@,
            notes: notes_of(self.notes@),
            phrases: phrases_of(self.phrases@),
            voices: voices_of(self.voices@),
            hashed: self.hashed@,
            ended: self.ended,
        }
    }
}

/// Before the first line: no text, no file names, no notes; every number is
/// `zero`, and the beats are not relative.
pub open spec fn start_state<F>(zero: F) -> ParseModel<F> {
    ParseModel {
        song: SongModel {
            title: Seq::empty(),
            artist: Seq::empty(),
            bpm: zero,
            gap: zero,
            video_gap: zero,
            start: None,
            end: None,
            hash: Seq::empty(),
            album: None,
            language: None,
            edition: None,
            genre: None,
            year: None,
            creator: None,
            relative: Some(false),
            audio: None,
            instrumental: None,
            cover: None,
            video: None,
            background: None,
            p1: None,
            p2: None,
            preview_start: None,
            voices: Seq::empty(),
        },
        notes: Seq::empty(),
        phrases: Seq::empty(),
        voices: Seq::empty(),
        hashed: Seq::empty(),
        ended: false,
    }
}

/// The song after a header that holds a text.
pub open spec fn with_text<F>(song: SongModel<F>, kind: HeaderKind, value: Seq<char>) -> SongModel<
    F,
> {
    match kind {
        HeaderKind::Title => SongModel { title: value, ..song },
        HeaderKind::Artist => SongModel { artist: value, ..song },
        HeaderKind::Language => SongModel { language: Some(value), ..song },
        HeaderKind::Edition => SongModel { edition: Some(value), ..song },
        HeaderKind::Genre => SongModel { genre: Some(value), ..song },
        HeaderKind::Audio => SongModel { audio: Some(value), ..song },
        HeaderKind::Instrumental => SongModel { instrumental: Some(value), ..song },
        HeaderKind::Cover => SongModel { cover: Some(value), ..song },
        HeaderKind::Video => SongModel { video: Some(value), ..song },
        HeaderKind::Background => SongModel { background: Some(value), ..song },
        HeaderKind::Creator => SongModel { creator: Some(value), ..song },
        HeaderKind::FirstSinger => SongModel { p1: Some(value), ..song },
        HeaderKind::SecondSinger => SongModel { p2: Some(value), ..song },
        _ => song,
    }
}

/// The song after a header that holds the number `number`.
pub open spec fn with_number<F>(song: SongModel<F>, kind: HeaderKind, number: F) -> SongModel<F> {
    match kind {
        HeaderKind::Bpm => SongModel { bpm: number, ..song },
        HeaderKind::Gap => SongModel { gap: number, ..song },
        HeaderKind::Start => SongModel { start: Some(number), ..song },
        HeaderKind::VideoGap => SongModel { video_gap: number, ..song },
        HeaderKind::Preview => SongModel { preview_start: Some(number), ..song },
        _ => song,
    }
}

/// The song after the header `property` with the value `value`, or the
/// message of the error that the header gives. `number` is what the value
/// was read as, where the header holds a number that need not be whole.
///
/// A year may be empty, and the song then has no year. A header of unknown
/// name changes nothing.
pub open spec fn header_step<F>(
    song: SongModel<F>,
    property: Seq<char>,
    value: Seq<char>,
    number: Option<F>,
) -> Result<SongModel<F>, Seq<char>> {
    let kind = header_kind(property);
    match kind {
        HeaderKind::Year => if value.len() == 0 {
            Ok(SongModel { year: None, ..song })
        } else {
            match i32_of(value) {
                Some(year) => Ok(SongModel { year: Some(year), ..song }),
                None => Err(integer_failure(property, value)),
            }
        },
        HeaderKind::End => match i32_of(value) {
            Some(end) => Ok(SongModel { end: Some(end), ..song }),
            None => Err(integer_failure(property, value)),
        },
        HeaderKind::Relative => Ok(
            SongModel { relative: Some(is_affirmative(lowercase(value))), ..song },
        ),
        HeaderKind::Unknown => Ok(song),
        _ => if is_float_kind(kind) {
            match number {
                Some(number) => Ok(with_number(song, kind, number)),
                None => Err(float_failure(property, value)),
            }
        } else {
            Ok(with_text(song, kind, value))
        },
    }
}

/// The beat on which a phrase leaves the screen when the file does not say:
/// the beat after its last note. The sum wraps around.
pub open spec fn beat_after(note: NoteModel) -> i32 {
    note.start_beat.wrapping_add(note.length).wrapping_add(1)
}

/// The phrases of the open voice once the open phrase, if it has notes, is
/// closed.
pub open spec fn closed_phrases(phrases: Seq<PhraseModel>, notes: Seq<NoteModel>) -> Seq<
    PhraseModel,
> {
    if notes.len() > 0 {
        phrases.push(PhraseModel { disappear_beat: beat_after(notes.last()), notes })
    } else {
        phrases
    }
}

/// The text that a note adds to the fingerprint: its tag and three numbers,
/// as written, with single spaces between them.
pub open spec fn note_print(
    tag: Seq<char>,
    start_beat: Seq<char>,
    length: Seq<char>,
    pitch: Seq<char>,
) -> Seq<char> {
    tag + seq![' '] + start_beat + seq![' '] + length + seq![' '] + pitch
}

/// The state after one line, or the message of the error that the line
/// gives. `number` is what the value of the line was read as, where the
/// line is a header that holds a number that need not be whole.
pub open spec fn step<F>(state: ParseModel<F>, line: SongLine, number: Option<F>) -> Result<
    ParseModel<F>,
    Seq<char>,
> {
    match line {
        SongLine::Skip => Ok(state),
        SongLine::Header { property, value } => match header_step(
            state.song,
            property,
            value,
            number,
        ) {
            Ok(song) => Ok(ParseModel { song, ..state }),
            Err(message) => Err(message),
        },
        SongLine::Note { tag, start_beat, length, pitch, text } => match i32_of(start_beat) {
            None => Err(integer_failure("start_beat"@, start_beat)),
            Some(start) => match i32_of(length) {
                None => Err(integer_failure("length"@, length)),
                Some(beats) => match i32_of(pitch) {
                    None => Err(integer_failure("txt_pitch"@, pitch)),
                    Some(txt_pitch) => Ok(
                        ParseModel {
                            notes: state.notes.push(
                                NoteModel {
                                    note_type: note_type_of(tag),
                                    start_beat: start,
                                    length: beats,
                                    text,
                                    txt_pitch,
                                    midi_note: txt_pitch.wrapping_add(60),
                                },
                            ),
                            hashed: state.hashed + note_print(tag, start_beat, length, pitch),
                            ..state
                        },
                    ),
                },
            },
        },
        SongLine::Break { beat, line } => match i32_of(beat) {
            None => Err(integer_failure("disappear_beat"@, beat)),
            Some(disappear_beat) => Ok(
                ParseModel {
                    notes: Seq::empty(),
                    phrases: state.phrases.push(
                        PhraseModel { disappear_beat, notes: state.notes },
                    ),
                    hashed: state.hashed + line,
                    ..state
                },
            ),
        },
        SongLine::Player => if state.phrases.len() > 0 || state.notes.len() > 0 {
            Ok(
                ParseModel {
                    notes: Seq::empty(),
                    phrases: Seq::empty(),
                    voices: state.voices.push(
                        VoiceModel { phrases: closed_phrases(state.phrases, state.notes) },
                    ),
                    hashed: state.hashed + seq!['P'],
                    ..state
                },
            )
        } else {
            Ok(ParseModel { hashed: state.hashed + seq!['P'], ..state })
        },
        SongLine::End => {
            let phrases = closed_phrases(state.phrases, state.notes);
            let voices = if phrases.len() > 0 {
                state.voices.push(VoiceModel { phrases })
            } else {
                state.voices
            };
            let hashed = state.hashed + state.song.title + state.song.artist;
            Ok(
                ParseModel {
                    song: SongModel {
                        hash: md5_hex_of(encode_utf8(hashed)),
                        voices,
                        ..state.song
                    },
                    notes: Seq::empty(),
                    phrases: Seq::empty(),
                    voices,
                    hashed,
                    ended: true,
                },
            )
        },
    }
}

/// The song that reading ends with, or the message of the error that
/// refuses it: a song needs a title, an artist, a tempo that is not zero, a
/// fingerprint, and an audio or a video file.
pub open spec fn finish<F>(state: ParseModel<F>, bpm_is_zero: bool) -> Result<
    SongModel<F>,
    Seq<char>,
> {
    if state.song.title.len() == 0 {
        Err("Missing song title"@)
    } else if state.song.artist.len() == 0 {
        Err("Missing song artist"@)
    } else if bpm_is_zero {
        Err("Missing song BPM"@)
    } else if state.song.hash.len() == 0 {
        Err("Missing song hash"@)
    } else if state.song.audio is None && state.song.video is None {
        Err("Song must have either audio or video file"@)
    } else {
        Ok(state.song)
    }
}

/// `number` is what the value of `line` was read as: a result of
/// `parse_float` on the value, with points for commas, where the line is a
/// header that holds a number that need not be whole; nothing otherwise.
pub open spec fn is_number_for<F, P: Fn(String) -> Option<F>>(
    parse_float: P,
    line: SongLine,
    number: Option<F>,
) -> bool {
    match line {
        SongLine::Header { property, value } => if is_float_kind(header_kind(property)) {
            exists|text: String|
                #![trigger call_ensures(parse_float, (text,), number)]
                text@ == with_points(value) && call_ensures(parse_float, (text,), number)
        } else {
            number is None
        },
        _ => number is None,
    }
}

/// `outcome` is what `line` leads to from the state `before`.
pub open spec fn is_step<F, P: Fn(String) -> Option<F>>(
    before: ParseModel<F>,
    line: SongLine,
    outcome: Result<ParseModel<F>, Seq<char>>,
    parse_float: P,
) -> bool {
    exists|number: Option<F>|
        #![trigger is_number_for(parse_float, line, number)]
        is_number_for(parse_float, line, number) && step(before, line, number) == outcome
}

/// The state that a step ended in, or the message of its error.
pub open spec fn outcome_of<F>(next: Result<Parser<F>, AppError>) -> Result<
    ParseModel<F>,
    Seq<char>,
> {
    match next {
        Ok(state) => Ok(state@),
        Err(error) => Err(error.message()@),
    }
}

/// Appends `more` to `target`.
fn append_chars(target: &mut Vec<char>, more: &[char])
    ensures
        final(target)@ == old(target)@ + more@,
{
    let mut i: usize = 0;
    while i < more.len()
        invariant
            i <= more.len(),
            target@ == old(target)@ + more@.take(i as int),
        decreases more.len() - i,
    {
        target.push(more[i]);
        assert(more@.take(i + 1) =~= more@.take(i as int).push(more@[i as int]));
        i += 1;
    }
    assert(more@.take(more.len() as int) =~= more@);
}

/// `value` as a text, with a point in place of every comma.
fn pointed(value: &[char]) -> (text: String)
    ensures
        text@ == with_points(value@),
{
    let mut text = String::new();
    let mut i: usize = 0;
    while i < value.len()
        invariant
            i <= value.len(),
            text@ == with_points(value@).take(i as int),
        decreases value.len() - i,
    {
        let c = if value[i] == ',' {
            '.'
        } else {
            value[i]
        };
        push_char(&mut text, c);
        assert(with_points(value@).take(i + 1) =~= with_points(value@).take(i as int).push(c));
        i += 1;
    }
    assert(with_points(value@).take(value.len() as int) =~= with_points(value@));
    text
}

/// The error that reports a value which is no integer.
fn integer_error(property: &str, value: &[char]) -> (error: AppError)
    ensures
        error is UltrastarError,
        error.message()@ == integer_failure(property@, value@),
{
    let mut message = String::from_str("Failed to parse integer for ");
    message.append(property);
    message.append(": ");
    message.append(string_of(value).as_str());
    assert(message@ =~= integer_failure(property@, value@));
    AppError::UltrastarError(message)
}

/// The error that reports a value which is no number.
fn float_error(property: &str, value: &[char]) -> (error: AppError)
    ensures
        error is UltrastarError,
        error.message()@ == float_failure(property@, value@),
{
    let mut message = String::from_str("Failed to parse float for ");
    message.append(property);
    message.append(": ");
    message.append(string_of(value).as_str());
    assert(message@ =~= float_failure(property@, value@));
    AppError::UltrastarError(message)
}

/// The song after a header that holds a text.
fn set_text<F>(song: Song<F>, kind: HeaderKind, value: &[char]) -> (after: Song<F>)
    ensures
        after@ == with_text(song@, kind, value@),
{
    let mut song = song;
    let text = string_of(value);
    match kind {
        HeaderKind::Title => {
            song.title = text;
        },
        HeaderKind::Artist => {
            song.artist = text;
        },
        HeaderKind::Language => {
            song.language = Some(text);
        },
        HeaderKind::Edition => {
            song.edition = Some(text);
        },
        HeaderKind::Genre => {
            song.genre = Some(text);
        },
        HeaderKind::Audio => {
            song.audio = Some(text);
        },
        HeaderKind::Instrumental => {
            song.instrumental = Some(text);
        },
        HeaderKind::Cover => {
            song.cover = Some(text);
        },
        HeaderKind::Video => {
            song.video = Some(text);
        },
        HeaderKind::Background => {
            song.background = Some(text);
        },
        HeaderKind::Creator => {
            song.creator = Some(text);
        },
        HeaderKind::FirstSinger => {
            song.p1 = Some(text);
        },
        HeaderKind::SecondSinger => {
            song.p2 = Some(text);
        },
        _ => {},
    }
    song
}

/// The song after a header that holds the number `number`.
fn set_number<F>(song: Song<F>, kind: HeaderKind, number: F) -> (after: Song<F>)
    ensures
        after@ == with_number(song@, kind, number),
{
    let mut song = song;
    match kind {
        HeaderKind::Bpm => {
            song.bpm = number;
        },
        HeaderKind::Gap => {
            song.gap = number;
        },
        HeaderKind::Start => {
            song.start = Some(number);
        },
        HeaderKind::VideoGap => {
            song.video_gap = number;
        },
        HeaderKind::Preview => {
            song.preview_start = Some(number);
        },
        _ => {},
    }
    song
}

/// The song that a header made of `before`, or the message of its error.
pub open spec fn song_outcome_of<F>(after: Result<Song<F>, AppError>) -> Result<
    SongModel<F>,
    Seq<char>,
> {
    match after {
        Ok(song) => Ok(song@),
        Err(error) => Err(error.message()@),
    }
}

/// The header line of the given property and value.
pub open spec fn header_line(property: Seq<char>, value: Seq<char>) -> SongLine {
    SongLine::Header { property, value }
}

/// Applies one header to the song.
fn apply_header<F, P: Fn(String) -> Option<F>>(
    song: Song<F>,
    property: &String,
    value: &[char],
    parse_float: &P,
) -> (after: Result<Song<F>, AppError>)
    requires
        forall|text: String| call_requires(*parse_float, (text,)),
    ensures
        after is Err ==> after->Err_0 is UltrastarError,
        exists|number: Option<F>|
            #![trigger is_number_for(*parse_float, header_line(property@, value@), number)]
            is_number_for(*parse_float, header_line(property@, value@), number) && header_step(
                song@,
                property@,
                value@,
                number,
            ) == song_outcome_of(after),
{
    let kind = kind_of_header(property);
    let ghost line = header_line(property@, value@);
    let mut song = song;
    match kind {
        HeaderKind::Year => {
            if value.len() == 0 {
                song.year = None;
                assert(is_number_for(*parse_float, line, None::<F>));
                Ok(song)
            } else {
                match parse_i32_chars(value) {
                    Some(year) => {
                        song.year = Some(year);
                        assert(is_number_for(*parse_float, line, None::<F>));
                        Ok(song)
                    },
                    None => {
                        assert(is_number_for(*parse_float, line, None::<F>));
                        Err(integer_error(property.as_str(), value))
                    },
                }
            }
        },
        HeaderKind::End => {
            match parse_i32_chars(value) {
                Some(end) => {
                    song.end = Some(end);
                    assert(is_number_for(*parse_float, line, None::<F>));
                    Ok(song)
                },
                None => {
                    assert(is_number_for(*parse_float, line, None::<F>));
                    Err(integer_error(property.as_str(), value))
                },
            }
        },
        HeaderKind::Relative => {
            let lower = lowered(value);
            song.relative = Some(affirms(lower.as_str()));
            assert(is_number_for(*parse_float, line, None::<F>));
            Ok(song)
        },
        HeaderKind::Unknown => {
            assert(is_number_for(*parse_float, line, None::<F>));
            Ok(song)
        },
        HeaderKind::Bpm | HeaderKind::Gap | HeaderKind::Start | HeaderKind::VideoGap
        | HeaderKind::Preview => {
            let text = pointed(value);
            let ghost asked = text;
            let number = parse_float(text);
            assert(call_ensures(*parse_float, (asked,), number));
            assert(is_number_for(*parse_float, line, number));
            match number {
                Some(number) => Ok(set_number(song, kind, number)),
                None => Err(float_error(property.as_str(), value)),
            }
        },
        _ => {
            assert(is_number_for(*parse_float, line, None::<F>));
            Ok(set_text(song, kind, value))
        },
    }
}

/// Closes the open phrase, if it has notes: it leaves the screen on the
/// beat after its last note.
fn close_phrase(phrases: Vec<Phrase>, notes: Vec<Note>) -> (closed: Vec<Phrase>)
    ensures
        phrases_of(closed@) == closed_phrases(phrases_of(phrases@), notes_of(notes@)),
{
    let mut phrases = phrases;
    if notes.len() > 0 {
        let last = &notes[notes.len() - 1];
        let disappear_beat = last.start_beat.wrapping_add(last.length).wrapping_add(1);
        let ghost before = phrases@;
        let ghost model = PhraseModel { disappear_beat, notes: notes_of(notes@) };
        assert(notes_of(notes@).last() == notes@[notes.len() - 1]@);
        phrases.push(Phrase { disappear_beat, notes });
        assert(phrases_of(phrases@) =~= phrases_of(before).push(model));
    }
    phrases
}

/// Applies one line to the state of the parser.
pub fn apply_line<F, P: Fn(String) -> Option<F>>(
    state: Parser<F>,
    line: Line,
    parse_float: &P,
) -> (next: Result<Parser<F>, AppError>)
    requires
        forall|text: String| call_requires(*parse_float, (text,)),
    ensures
        next is Err ==> next->Err_0 is UltrastarError,
        is_step(state@, line@, outcome_of(next), *parse_float),
        next matches Ok(after) ==> {
            &&& after.ended == (state.ended || line@ is End)
            &&& line@ is End ==> after.song.hash@.len() == 32
            &&& !(line@ is End) ==> after.song.hash@ == state.song.hash@
        },
{
    let ghost before = state@;
    let ghost said = line@;
    let Parser { song, notes, phrases, voices, hashed, ended } = state;
    match line {
        Line::Skip => {
            let next = Parser { song, notes, phrases, voices, hashed, ended };
            assert(is_number_for(*parse_float, said, None::<F>));
            assert(next@ =~= before);
            Ok(next)
        },
        Line::Header { property, value } => {
            let ghost old_song = song@;
            match apply_header(song, &property, value.as_slice(), parse_float) {
                Ok(song) => {
                    let next = Parser { song, notes, phrases, voices, hashed, ended };
                    proof {
                        let number = choose|number: Option<F>|
                            #![trigger is_number_for(*parse_float, said, number)]
                            is_number_for(*parse_float, said, number) && header_step(
                                old_song,
                                property@,
                                value@,
                                number,
                            ) == Ok::<SongModel<F>, Seq<char>>(song@);
                        assert(is_number_for(*parse_float, said, number));
                        assert(step(before, said, number) == Ok::<ParseModel<F>, Seq<char>>(
                            next@,
                        ));
                    }
                    Ok(next)
                },
                Err(error) => {
                    proof {
                        let number = choose|number: Option<F>|
                            #![trigger is_number_for(*parse_float, said, number)]
                            is_number_for(*parse_float, said, number) && header_step(
                                old_song,
                                property@,
                                value@,
                                number,
                            ) == Err::<SongModel<F>, Seq<char>>(error.message()@);
                        assert(is_number_for(*parse_float, said, number));
                    }
                    Err(error)
                },
            }
        },
        Line::Note { tag, start_beat, length, pitch, text } => {
            assert(is_number_for(*parse_float, said, None::<F>));
            let start = match parse_i32_chars(start_beat.as_slice()) {
                Some(start) => start,
                None => {
                    return Err(integer_error("start_beat", start_beat.as_slice()));
                },
            };
            let beats = match parse_i32_chars(length.as_slice()) {
                Some(beats) => beats,
                None => {
                    return Err(integer_error("length", length.as_slice()));
                },
            };
            let txt_pitch = match parse_i32_chars(pitch.as_slice()) {
                Some(txt_pitch) => txt_pitch,
                None => {
                    return Err(integer_error("txt_pitch", pitch.as_slice()));
                },
            };
            let note = Note {
                note_type: note_type_of_tag(tag.as_slice()),
                start_beat: start,
                length: beats,
                text: string_of(text.as_slice()),
                txt_pitch,
                midi_note: txt_pitch.wrapping_add(60),
            };
            let ghost old_notes = notes@;
            let ghost old_hashed = hashed@;
            let mut notes = notes;
            let mut hashed = hashed;
            notes.push(note);
            append_chars(&mut hashed, tag.as_slice());
            hashed.push(' ');
            append_chars(&mut hashed, start_beat.as_slice());
            hashed.push(' ');
            append_chars(&mut hashed, length.as_slice());
            hashed.push(' ');
            append_chars(&mut hashed, pitch.as_slice());
            let next = Parser { song, notes, phrases, voices, hashed, ended };
            proof {
                assert(notes_of(next.notes@) =~= notes_of(old_notes).push(note@));
                assert(next.hashed@ =~= old_hashed + note_print(
                    tag@,
                    start_beat@,
                    length@,
                    pitch@,
                ));
                assert(step(before, said, None::<F>) == Ok::<ParseModel<F>, Seq<char>>(next@));
            }
            Ok(next)
        },
        Line::Break { beat, line } => {
            assert(is_number_for(*parse_float, said, None::<F>));
            let disappear_beat = match parse_i32_chars(beat.as_slice()) {
                Some(disappear_beat) => disappear_beat,
                None => {
                    return Err(integer_error("disappear_beat", beat.as_slice()));
                },
            };
            let ghost old_phrases = phrases@;
            let ghost old_notes = notes@;
            let ghost old_hashed = hashed@;
            let mut phrases = phrases;
            let mut hashed = hashed;
            phrases.push(Phrase { disappear_beat, notes });
            append_chars(&mut hashed, line.as_slice());
            let next = Parser { song, notes: Vec::new(), phrases, voices, hashed, ended };
            proof {
                assert(phrases_of(next.phrases@) =~= phrases_of(old_phrases).push(
                    PhraseModel { disappear_beat, notes: notes_of(old_notes) },
                ));
                assert(notes_of(next.notes@) =~= Seq::<NoteModel>::empty());
                assert(step(before, said, None::<F>) == Ok::<ParseModel<F>, Seq<char>>(next@));
            }
            Ok(next)
        },
        Line::Player => {
            assert(is_number_for(*parse_float, said, None::<F>));
            let ghost old_voices = voices@;
            let ghost old_hashed = hashed@;
            let mut hashed = hashed;
            hashed.push('P');
            assert(hashed@ =~= old_hashed + seq!['P']);
            if phrases.len() > 0 || notes.len() > 0 {
                let closed = close_phrase(phrases, notes);
                let ghost model = VoiceModel { phrases: phrases_of(closed@) };
                let mut voices = voices;
                voices.push(Voice { phrases: closed });
                let next = Parser {
                    song,
                    notes: Vec::new(),
                    phrases: Vec::new(),
                    voices,
                    hashed,
                    ended,
                };
                proof {
                    assert(voices_of(next.voices@) =~= voices_of(old_voices).push(model));
                    assert(notes_of(next.notes@) =~= Seq::<NoteModel>::empty());
                    assert(phrases_of(next.phrases@) =~= Seq::<PhraseModel>::empty());
                    assert(step(before, said, None::<F>) == Ok::<ParseModel<F>, Seq<char>>(
                        next@,
                    ));
                }
                Ok(next)
            } else {
                let next = Parser { song, notes, phrases, voices, hashed, ended };
                proof {
                    assert(step(before, said, None::<F>) == Ok::<ParseModel<F>, Seq<char>>(
                        next@,
                    ));
                }
                Ok(next)
            }
        },
        Line::End => {
            assert(is_number_for(*parse_float, said, None::<F>));
            let ghost old_voices = voices@;
            let ghost old_hashed = hashed@;
            let closed = close_phrase(phrases, notes);
            let ghost closed_model = phrases_of(closed@);
            let mut voices = voices;
            if closed.len() > 0 {
                voices.push(Voice { phrases: closed });
                assert(voices_of(voices@) =~= voices_of(old_voices).push(
                    VoiceModel { phrases: closed_model },
                ));
            }
            let mut hashed = hashed;
            let title = chars_of(song.title.as_str());
            let artist = chars_of(song.artist.as_str());
            append_chars(&mut hashed, title.as_slice());
            append_chars(&mut hashed, artist.as_slice());
            assert(hashed@ =~= old_hashed + song.title@ + song.artist@);
            let printed = string_of(hashed.as_slice());
            let bytes = printed.as_str().as_bytes_vec();
            let hash = md5_hex(bytes.as_slice());
            let mut song = song;
            song.hash = hash;
            song.voices = copy_voices(&voices);
            let next = Parser {
                song,
                notes: Vec::new(),
                phrases: Vec::new(),
                voices,
                hashed,
                ended: true,
            };
            proof {
                assert(notes_of(next.notes@) =~= Seq::<NoteModel>::empty());
                assert(phrases_of(next.phrases@) =~= Seq::<PhraseModel>::empty());
                assert(step(before, said, None::<F>) == Ok::<ParseModel<F>, Seq<char>>(next@));
            }
            Ok(next)
        },
    }
}

/// A copy of the notes.
fn copy_notes(notes: &Vec<Note>) -> (copy: Vec<Note>)
    ensures
        notes_of(copy@) == notes_of(notes@),
{
    let mut copy: Vec<Note> = Vec::with_capacity(notes.len());
    let mut i: usize = 0;
    while i < notes.len()
        invariant
            i <= notes.len(),
            copy.len() == i,
            forall|k: int| 0 <= k < i ==> (#[trigger] copy[k])@ == notes[k]@,
        decreases notes.len() - i,
    {
        let note = &notes[i];
        copy.push(
            Note {
                note_type: note.note_type,
                start_beat: note.start_beat,
                length: note.length,
                text: note.text.clone(),
                txt_pitch: note.txt_pitch,
                midi_note: note.midi_note,
            },
        );
        i += 1;
    }
    assert(notes_of(copy@) =~= notes_of(notes@));
    copy
}

/// A copy of the phrases.
fn copy_phrases(phrases: &Vec<Phrase>) -> (copy: Vec<Phrase>)
    ensures
        phrases_of(copy@) == phrases_of(phrases@),
{
    let mut copy: Vec<Phrase> = Vec::with_capacity(phrases.len());
    let mut i: usize = 0;
    while i < phrases.len()
        invariant
            i <= phrases.len(),
            copy.len() == i,
            forall|k: int| 0 <= k < i ==> (#[trigger] copy[k])@ == phrases[k]@,
        decreases phrases.len() - i,
    {
        let phrase = &phrases[i];
        copy.push(
            Phrase { disappear_beat: phrase.disappear_beat, notes: copy_notes(&phrase.notes) },
        );
        i += 1;
    }
    assert(phrases_of(copy@) =~= phrases_of(phrases@));
    copy
}

/// A copy of the voices.
fn copy_voices(voices: &Vec<Voice>) -> (copy: Vec<Voice>)
    ensures
        voices_of(copy@) == voices_of(voices@),
{
    let mut copy: Vec<Voice> = Vec::with_capacity(voices.len());
    let mut i: usize = 0;
    while i < voices.len()
        invariant
            i <= voices.len(),
            copy.len() == i,
            forall|k: int| 0 <= k < i ==> (#[trigger] copy[k])@ == voices[k]@,
        decreases voices.len() - i,
    {
        copy.push(Voice { phrases: copy_phrases(&voices[i].phrases) });
        i += 1;
    }
    assert(voices_of(copy@) =~= voices_of(voices@));
    copy
}

/// `content` without the byte-order mark that may stand at its start.
pub open spec fn without_mark(content: Seq<char>) -> Seq<char> {
    if content.len() > 0 && content[0] == '\u{FEFF}' {
        content.skip(1)
    } else {
        content
    }
}

/// `states` are the states that reading `lines` goes through, from the
/// state before the first line on: each line leads from one state to the
/// next, and no line is read after the end of the song.
pub open spec fn is_reading<F, P: Fn(String) -> Option<F>>(
    lines: Seq<Seq<char>>,
    states: Seq<ParseModel<F>>,
    zero: F,
    parse_float: P,
) -> bool {
    &&& 1 <= states.len() <= lines.len() + 1
    &&& states[0] == start_state(zero)
    &&& forall|k: int|
        0 <= k < states.len() - 1 ==> !(#[trigger] states[k]).ended && is_step(
            states[k],
            song_line(lines[k]),
            Ok(states[k + 1]),
            parse_float,
        )
}

/// Reading is over once the end of the song was read, or every line.
pub open spec fn is_over<F>(lines: Seq<Seq<char>>, states: Seq<ParseModel<F>>) -> bool {
    states.last().ended || states.len() == lines.len() + 1
}

/// `outcome` is what parsing `content` gives: the lines are read in order
/// until one gives an error, which is then the outcome, or until reading is
/// over; the last state is then finished into a song, or refused. The
/// fingerprint has 32 digits once the end of the song was read, and none
/// before: a song is refused for its fingerprint only if its end is
/// missing.
pub open spec fn is_parse<F, P: Fn(String) -> Option<F>, Z: Fn(F) -> bool>(
    outcome: Result<SongModel<F>, Seq<char>>,
    content: Seq<char>,
    zero: F,
    parse_float: P,
    is_zero: Z,
) -> bool {
    let lines = lines_of(without_mark(content));
    exists|states: Seq<ParseModel<F>>|
        #![trigger is_reading(lines, states, zero, parse_float)]
        is_reading(lines, states, zero, parse_float) && if is_over(lines, states) {
            &&& states.last().ended ==> states.last().song.hash.len() == 32
            &&& !states.last().ended ==> states.last().song.hash.len() == 0
            &&& exists|bpm_is_zero: bool|
                #![trigger finish(states.last(), bpm_is_zero)]
                call_ensures(is_zero, (states.last().song.bpm,), bpm_is_zero) && finish(
                    states.last(),
                    bpm_is_zero,
                ) == outcome
        } else {
            outcome is Err && is_step(
                states.last(),
                song_line(lines[states.len() - 1]),
                Err(outcome->Err_0),
                parse_float,
            )
        }
}

/// The state before the first line.
fn start<F: Copy>(zero: F) -> (state: Parser<F>)
    ensures
        state@ == start_state(zero),
{
    let state = Parser {
        song: Song {
            title: String::new(),
            artist: String::new(),
            bpm: zero,
            gap: zero,
            video_gap: zero,
            start: None,
            end: None,
            hash: String::new(),
            album: None,
            language: None,
            edition: None,
            genre: None,
            year: None,
            creator: None,
            relative: Some(false),
            audio: None,
            instrumental: None,
            cover: None,
            video: None,
            background: None,
            p1: None,
            p2: None,
            preview_start: None,
            voices: Vec::new(),
        },
        notes: Vec::new(),
        phrases: Vec::new(),
        voices: Vec::new(),
        hashed: Vec::new(),
        ended: false,
    };
    assert(state@ =~~= start_state(zero));
    state
}

/// The error that refuses a song.
fn refusal(message: &str) -> (error: AppError)
    ensures
        error is UltrastarError,
        error.message()@ == message@,
{
    AppError::UltrastarError(String::from_str(message))
}

/// Finishes the last state into a song, or refuses it.
pub fn finish_song<F>(state: Parser<F>, bpm_is_zero: bool) -> (song: Result<Song<F>, AppError>)
    ensures
        song is Err ==> song->Err_0 is UltrastarError,
        song_outcome_of(song) == finish(state@, bpm_is_zero),
{
    if state.song.title.as_str().is_empty() {
        Err(refusal("Missing song title"))
    } else if state.song.artist.as_str().is_empty() {
        Err(refusal("Missing song artist"))
    } else if bpm_is_zero {
        Err(refusal("Missing song BPM"))
    } else if state.song.hash.as_str().is_empty() {
        Err(refusal("Missing song hash"))
    } else if state.song.audio.is_none() && state.song.video.is_none() {
        Err(refusal("Song must have either audio or video file"))
    } else {
        Ok(state.song)
    }
}

/// Parses the text of a song file.
///
/// Numbers that need not be whole are read by `parse_float`, after commas
/// were turned into points; `zero` is the number of a field that the file
/// does not set, and `is_zero` tells whether the tempo is zero.
///
/// The lines are read in order. Reading stops with the error of the first
/// line whose number cannot be read, and otherwise at the end of the song
/// or of the file. A song without title, artist, tempo, end or media file
/// is refused.
pub fn parse_ultrastar_txt<F: Copy, P: Fn(String) -> Option<F>, Z: Fn(F) -> bool>(
    content: &str,
    zero: F,
    parse_float: &P,
    is_zero: &Z,
) -> (parsed: Result<Song<F>, AppError>)
    requires
        forall|text: String| call_requires(*parse_float, (text,)),
        forall|number: F| call_requires(*is_zero, (number,)),
    ensures
        parsed is Err ==> parsed->Err_0 is UltrastarError,
        is_parse(song_outcome_of(parsed), content@, zero, *parse_float, *is_zero),
        parsed matches Ok(song) ==> song.hash@.len() == 32,
{
    let chars = chars_of(content);
    let body = if chars.len() > 0 && chars[0] == '\u{FEFF}' {
        slice_subrange(chars.as_slice(), 1, chars.len())
    } else {
        chars.as_slice()
    };
    assert(body@ =~= without_mark(content@));
    let lines = split_lines(body);
    let ghost model = lines_of(without_mark(content@));
    let mut state = start(zero);
    let ghost mut states: Seq<ParseModel<F>> = seq![state@];
    let mut i: usize = 0;
    while i < lines.len() && !state.ended
        invariant
            forall|text: String| call_requires(*parse_float, (text,)),
            i <= lines.len(),
            model == lines_of(without_mark(content@)),
            lines.len() == model.len(),
            forall|k: int| 0 <= k < lines.len() ==> (#[trigger] lines[k])@ == model[k],
            states.len() == i + 1,
            is_reading(model, states, zero, *parse_float),
            states.last() == state@,
            state.ended ==> state.song.hash@.len() == 32,
            !state.ended ==> state.song.hash@.len() == 0,
        decreases lines.len() - i,
    {
        let line = read_line(lines[i].as_slice());
        let ghost before = state@;
        match apply_line(state, line, parse_float) {
            Ok(next) => {
                proof {
                    let longer = states.push(next@);
                    assert forall|k: int| 0 <= k < longer.len() - 1 implies !(
                    #[trigger] longer[k]).ended && is_step(
                        longer[k],
                        song_line(model[k]),
                        Ok(longer[k + 1]),
                        *parse_float,
                    ) by {
                        if k < states.len() - 1 {
                            assert(longer[k] == states[k]);
                            assert(longer[k + 1] == states[k + 1]);
                        }
                    }
                    states = longer;
                }
                state = next;
            },
            Err(error) => {
                proof {
                    assert(!is_over(model, states));
                    assert(is_step(
                        states.last(),
                        song_line(model[states.len() - 1]),
                        Err::<ParseModel<F>, Seq<char>>(error.message()@),
                        *parse_float,
                    ));
                    assert(is_reading(model, states, zero, *parse_float));
                }
                return Err(error);
            },
        }
        i += 1;
    }
    let bpm_is_zero = is_zero(state.song.bpm);
    let ghost last = state@;
    let song = finish_song(state, bpm_is_zero);
    proof {
        assert(is_over(model, states));
        assert(call_ensures(*is_zero, (last.song.bpm,), bpm_is_zero));
        assert(finish(states.last(), bpm_is_zero) == song_outcome_of(song));
        assert(is_reading(model, states, zero, *parse_float));
    }
    song
}

} // verus!
