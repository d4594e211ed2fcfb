//! A song on the local disk: the media files beside its song file, and the
//! addresses under which the media server serves them.

use crate::chars::lowercase;
use crate::chars::to_lowercase;
use crate::error::AppError;
use crate::ultrastar::filesystem::FileEntry;
use crate::ultrastar::song::text_of;
use crate::ultrastar::song::Song;
use crate::ultrastar::song::SongModel;
use unicode_normalization::UnicodeNormalization;
use vstd::prelude::*;
use vstd::utf8::encode_utf8;

verus! {

/// A song with the addresses of its media files and the loudness of its
/// audio. `G` is the type of the loudness values.
#[derive(Debug, Clone)]
pub struct LocalSong<F, G> {
    pub song: Song<F>,
    pub audio_url: Option<String>,
    pub instrumental_url: Option<String>,
    pub video_url: Option<String>,
    pub cover_url: Option<String>,
    pub background_url: Option<String>,
    pub replay_gain_track_gain: Option<G>,
    pub replay_gain_track_peak: Option<G>,
}

/// Where the media files of a song are in the listing of its directory:
/// for each kind of file, the position of its entry, if the song names a
/// file of that kind and the directory holds it.
#[derive(Debug, Clone, Copy, PartialEq, Eq, Structural)]
pub struct MediaFiles {
    pub audio: Option<usize>,
    pub instrumental: Option<usize>,
    pub video: Option<usize>,
    pub cover: Option<usize>,
    pub background: Option<usize>,
}

/// The addresses of the media files of a song.
#[derive(Debug)]
pub struct MediaUrls {
    pub audio: Option<String>,
    pub instrumental: Option<String>,
    pub video: Option<String>,
    pub cover: Option<String>,
    pub background: Option<String>,
}

/// The Unicode normalization form C of a text, as
/// `unicode_normalization::UnicodeNormalization::nfc` defines it.
pub uninterp spec fn nfc_of(text: Seq<char>) -> Seq<char>;

/// Calls `unicode_normalization::UnicodeNormalization::nfc` and collects the
/// characters: the normalization form C of `text`.
#[verifier::external_body]
fn nfc(text: &str) -> (normal: String)
    ensures
        normal@ == nfc_of(text@),
{
    text.nfc().collect::<String>()
}

/// `b` is a byte that stands for itself in an address: a letter or digit of
/// ASCII, or one of `-`, `.`, `_` and `~`.
pub open spec fn is_unreserved(b: u8) -> bool {
    ||| 0x30 <= b <= 0x39
    ||| 0x41 <= b <= 0x5A
    ||| 0x61 <= b <= 0x7A
    ||| b == 0x2D
    ||| b == 0x2E
    ||| b == 0x5F
    ||| b == 0x7E
}

/// The hexadecimal digit of a value below 16, in upper case.
pub open spec fn hex_digit(d: int) -> char
    recommends
        0 <= d < 16,
{
    seq!['0', '1', '2', '3', '4', '5', '6', '7', '8', '9', 'A', 'B', 'C', 'D', 'E', 'F'][d]
}

/// One byte as it stands in an address: itself if it is unreserved, else a
/// percent sign and its two hexadecimal digits.
pub open spec fn url_encoded_byte(b: u8) -> Seq<char> {
    if is_unreserved(b) {
        seq![b as char]
    } else {
        seq!['%', hex_digit(b as int / 16), hex_digit(b as int % 16)]
    }
}

/// Bytes as they stand in an address, one after the other.
pub open spec fn url_encoded(data: Seq<u8>) -> Seq<char>
    decreases data.len(),
{
    if data.len() == 0 {
        Seq::empty()
    } else {
        url_encoded(data.drop_last()) + url_encoded_byte(data.last())
    }
}

/// Calls `urlencoding::encode`, which percent-encodes every byte of the
/// text's UTF-8 form except ASCII letters and digits and `-`, `_`, `.`, `~`,
/// with hexadecimal digits in upper case.
#[verifier::external_body]
fn url_encode(text: &str) -> (encoded: String)
    ensures
        encoded@ == url_encoded(encode_utf8(text@)),
{
    urlencoding::encode(text).into_owned()
}

/// A file name as it is compared: in normalization form C and lower case.
pub open spec fn folded(name: Seq<char>) -> Seq<char> {
    lowercase(nfc_of(name))
}

/// The address of the file at `path` on a server at `base`.
pub open spec fn media_url_of(base: Seq<char>, path: Seq<char>) -> Seq<char> {
    base + seq!['/'] + url_encoded(encode_utf8(path))
}

/// `found` is the position of the first of `files` whose name is `name`,
/// up to normalization and case, if there is one.
pub open spec fn is_first_named(found: Option<usize>, files: Seq<FileEntry>, name: Seq<char>) -> bool {
    match found {
        Some(at) => {
            &&& at < files.len()
            &&& folded(files[at as int].filename@) == folded(name)
            &&& forall|i: int| 0 <= i < at ==> folded((#[trigger] files[i]).filename@) != folded(name)
        },
        None => forall|i: int|
            0 <= i < files.len() ==> folded((#[trigger] files[i]).filename@) != folded(name),
    }
}

/// `found` is where the file that a song names is in `files`: nowhere if
/// the song names none.
pub open spec fn is_located(found: Option<usize>, files: Seq<FileEntry>, filename: Option<Seq<char>>) -> bool {
    match filename {
        Some(name) => is_first_named(found, files, name),
        None => found is None,
    }
}

/// A file name as it is compared.
fn fold(name: &str) -> (key: String)
    ensures
        key@ == folded(name@),
{
    let normal = nfc(name);
    to_lowercase(normal.as_str())
}

/// Finds the file that a song names among the files of its directory. Names
/// are compared in normalization form C and without regard to case; of
/// several files that match, the first counts.
pub fn find_file(files: &Vec<FileEntry>, filename: &Option<String>) -> (found: Option<usize>)
    ensures
        is_located(found, files@, text_of(*filename)),
{
    match filename {
        None => None,
        Some(name) => {
            let target = fold(name.as_str());
            let mut i: usize = 0;
            while i < files.len()
                invariant
                    i <= files.len(),
                    text_of(*filename) == Some(name@),
                    target@ == folded(name@),
                    forall|k: int|
                        0 <= k < i ==> folded((#[trigger] files[k]).filename@) != folded(name@),
                decreases files.len() - i,
            {
                let key = fold(files[i].filename.as_str());
                if key == target {
                    return Some(i);
                }
                i += 1;
            }
            None
        },
    }
}

/// `located` holds, for every kind of media file, where the file that
/// `song` names is in `files`.
pub open spec fn are_media_of<F>(located: MediaFiles, song: SongModel<F>, files: Seq<FileEntry>) -> bool {
    &&& is_located(located.audio, files, song.audio)
    &&& is_located(located.instrumental, files, song.instrumental)
    &&& is_located(located.video, files, song.video)
    &&& is_located(located.cover, files, song.cover)
    &&& is_located(located.background, files, song.background)
}

/// The message of the error that reports a missing audio file.
pub open spec fn audio_missing(name: Seq<char>) -> Seq<char> {
    "Audio file '"@ + name + "' was specified but not found"@
}

/// Finds the media files of a song among the files of its directory.
///
/// Fails if the song names an audio file that the directory does not hold.
/// Any other file may be missing.
pub fn locate_media<F>(song: &Song<F>, files: &Vec<FileEntry>) -> (located: Result<
    MediaFiles,
    AppError,
>)
    ensures
        match located {
            Ok(found) => are_media_of(found, song@, files@) && (song.audio is Some
                ==> found.audio is Some),
            Err(error) => {
                &&& song.audio is Some
                &&& is_first_named(None, files@, song.audio->0@)
                &&& error is UltrastarError
                &&& error.message()@ == audio_missing(song.audio->0@)
            },
        },
{
    let audio = find_file(files, &song.audio);
    let instrumental = find_file(files, &song.instrumental);
    let video = find_file(files, &song.video);
    let cover = find_file(files, &song.cover);
    let background = find_file(files, &song.background);
    match &song.audio {
        Some(name) => {
            if audio.is_none() {
                let mut message = String::from_str("Audio file '");
                message.append(name.as_str());
                message.append("' was specified but not found");
                assert(message@ =~= audio_missing(name@));
                return Err(AppError::UltrastarError(message));
            }
        },
        None => {},
    }
    Ok(MediaFiles { audio, instrumental, video, cover, background })
}

/// The address under which the media server at `media_base_url` serves the
/// file at `path`: the base, a slash, and the path percent-encoded.
pub fn media_url(media_base_url: &str, path: &str) -> (url: String)
    ensures
        url@ == media_url_of(media_base_url@, path@),
{
    let mut url = String::from_str(media_base_url);
    url.append("/");
    proof {
        reveal_strlit("/");
        assert("/"@ =~= seq!['/']);
    }
    url.append(url_encode(path).as_str());
    url
}

/// Puts a local song together. A song of which neither the audio nor the
/// video is available is refused.
pub fn assemble<F, G>(
    song: Song<F>,
    urls: MediaUrls,
    replay_gain_track_gain: Option<G>,
    replay_gain_track_peak: Option<G>,
) -> (local: Result<LocalSong<F, G>, AppError>)
    ensures
        match local {
            Ok(local) => {
                &&& urls.audio is Some || urls.video is Some
                &&& local.song == song
                &&& local.audio_url == urls.audio
                &&& local.instrumental_url == urls.instrumental
                &&& local.video_url == urls.video
                &&& local.cover_url == urls.cover
                &&& local.background_url == urls.background
                &&& local.replay_gain_track_gain == replay_gain_track_gain
                &&& local.replay_gain_track_peak == replay_gain_track_peak
            },
            Err(error) => {
                &&& urls.audio is None && urls.video is None
                &&& error is UltrastarError
                &&& error.message()@ == "Song must have either audio or video file available"@
            },
        },
{
    if urls.audio.is_none() && urls.video.is_none() {
        return Err(
            AppError::UltrastarError(
                String::from_str("Song must have either audio or video file available"),
            ),
        );
    }
    Ok(
        LocalSong {
            song,
            audio_url: urls.audio,
            instrumental_url: urls.instrumental,
            video_url: urls.video,
            cover_url: urls.cover,
            background_url: urls.background,
            replay_gain_track_gain,
            replay_gain_track_peak,
        },
    )
}

} // verus!
