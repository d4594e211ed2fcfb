//! The parts of a song: notes, phrases and voices, and the song itself.
//!
//! Each type has a view that holds its texts as sequences of characters and
//! its lists as sequences; the contracts of the parser speak of the views.

use vstd::prelude::*;

verus! {

/// How a note is scored.
#[derive(Debug, Clone, Copy, PartialEq, Eq, Structural)]
pub enum NoteType {
    Normal,
    Golden,
    Freestyle,
    Rap,
    RapGolden,
}

/// One note of a song.
#[derive(Debug, Clone)]
pub struct Note {
    pub note_type: NoteType,
    /// The beat on which the note starts.
    pub start_beat: i32,
    /// The length of the note, in beats.
    pub length: i32,
    /// The syllable sung on the note.
    pub text: String,
    /// The pitch as the song file gives it, relative to middle C.
    pub txt_pitch: i32,
    /// The pitch as a MIDI note number.
    pub midi_note: i32,
}

/// One line of lyrics: its notes, and the beat on which it leaves the
/// screen.
#[derive(Debug, Clone)]
pub struct Phrase {
    pub disappear_beat: i32,
    pub notes: Vec<Note>,
}

/// All phrases that one singer sings.
#[derive(Debug, Clone)]
pub struct Voice {
    pub phrases: Vec<Phrase>,
}

/// A song as its file describes it. `F` is the type of its numbers that
/// are not whole.
#[derive(Debug, Clone)]
pub struct Song<F> {
    pub title: String,
    pub artist: String,
    /// Beats per minute.
    pub bpm: F,
    /// Time before the first beat.
    pub gap: F,
    pub video_gap: F,
    pub start: Option<F>,
    pub end: Option<i32>,
    /// Fingerprint of the song's notes, title and artist.
    pub hash: String,
    pub album: Option<String>,
    pub language: Option<String>,
    pub edition: Option<String>,
    pub genre: Option<String>,
    pub year: Option<i32>,
    pub creator: Option<String>,
    /// Whether the beats of each phrase count from the phrase's start.
    pub relative: Option<bool>,
    pub audio: Option<String>,
    pub instrumental: Option<String>,
    pub cover: Option<String>,
    pub video: Option<String>,
    pub background: Option<String>,
    pub p1: Option<String>,
    pub p2: Option<String>,
    pub preview_start: Option<F>,
    pub voices: Vec<Voice>,
}

/// A note, with its text as characters.
#[verifier::ext_equal]
pub struct NoteModel {
    pub note_type: NoteType,
    pub start_beat: i32,
    pub length: i32,
    pub text: Seq<char>,
    pub txt_pitch: i32,
    pub midi_note: i32,
}

/// A phrase, with its notes as a sequence.
#[verifier::ext_equal]
pub struct PhraseModel {
    pub disappear_beat: i32,
    pub notes: Seq<NoteModel>,
}

/// A voice, with its phrases as a sequence.
#[verifier::ext_equal]
pub struct VoiceModel {
    pub phrases: Seq<PhraseModel>,
}

/// A song, with its texts as characters and its voices as a sequence.
#[verifier::ext_equal]
pub struct SongModel<F> {
    pub title: Seq<char>,
    pub artist: Seq<char>,
    pub bpm: F,
    pub gap: F,
    pub video_gap: F,
    pub start: Option<F>,
    pub end: Option<i32>,
    pub hash: Seq<char>,
    pub album: Option<Seq<char>>,
    pub language: Option<Seq<char>>,
    pub edition: Option<Seq<char>>,
    pub genre: Option<Seq<char>>,
    pub year: Option<i32>,
    pub creator: Option<Seq<char>>,
    pub relative: Option<bool>,
    pub audio: Option<Seq<char>>,
    pub instrumental: Option<Seq<char>>,
    pub cover: Option<Seq<char>>,
    pub video: Option<Seq<char>>,
    pub background: Option<Seq<char>>,
    pub p1: Option<Seq<char>>,
    pub p2: Option<Seq<char>>,
    pub preview_start: Option<F>,
    pub voices: Seq<VoiceModel>,
}

/// The characters of an optional text.
pub open spec fn text_of(text: Option<String>) -> Option<Seq<char>> {
    match text {
        Some(text) => Some(text@),
        None => None,
    }
}

/// The views of a list of notes.
pub open spec fn notes_of(notes: Seq<Note>) -> Seq<NoteModel> {
    Seq::new(notes.len(), |i: int| notes[i]@)
}

/// The views of a list of phrases.
pub open spec fn phrases_of(phrases: Seq<Phrase>) -> Seq<PhraseModel> {
    Seq::new(phrases.len(), |i: int| phrases[i]@)
}

/// The views of a list of voices.
pub open spec fn voices_of(voices: Seq<Voice>) -> Seq<VoiceModel> {
    Seq::new(voices.len(), |i: int| voices[i]@)
}

impl View for Note {
    type V = NoteModel;

    open spec fn view(&self) -> NoteModel {
        NoteModel {
            note_type: self.note_type,
            start_beat: self.start_beat,
            length: self.length,
            text: self.text@,
            txt_pitch: self.txt_pitch,
            midi_note: self.midi_note,
        }
    }
}

impl View for Phrase {
    type V = PhraseModel;

    open spec fn view(&self) -> PhraseModel {
        PhraseModel { disappear_beat: self.disappear_beat, notes: notes_of(self.notes@) }
    }
}

impl View for Voice {
    type V = VoiceModel;

    open spec fn view(&self) -> VoiceModel {
        VoiceModel { phrases: phrases_of(self.phrases@) }
    }
}

impl<F> View for Song<F> {
    type V = SongModel<F>;

    open spec fn view(&self) -> SongModel<F> {
        SongModel {
            title: self.title@,
            artist: self.artist@,
            bpm: self.bpm,
            gap: self.gap,
            video_gap: self.video_gap,
            start: self.start,
            end: self.end,
            hash: self.hash@,
            album: text_of(self.album),
            language: text_of(self.language),
            edition: text_of(self.edition),
            genre: text_of(self.genre),
            year: self.year,
            creator: text_of(self.creator),
            relative: self.relative,
            audio: text_of(self.audio),
            instrumental: text_of(self.instrumental),
            cover: text_of(self.cover),
            video: text_of(self.video),
            background: text_of(self.background),
            p1: text_of(self.p1),
            p2: text_of(self.p2),
            preview_start: self.preview_start,
            voices: voices_of(self.voices@),
        }
    }
}

} // verus!
