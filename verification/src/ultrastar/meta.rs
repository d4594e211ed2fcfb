//! The loudness of an audio file, as its tags tell it.
//!
//! The values are numbers that need not be whole; their type `G` and the
//! functions that make them are the caller's.

use crate::chars::chars_of;
use crate::chars::string_of;
use crate::text::i32_of;
use crate::text::parse_i32;
use vstd::prelude::*;
use vstd::slice::slice_subrange;

verus! {

/// The loudness of a track and of its album: gain in decibels, and peak.
#[derive(Debug)]
pub struct ReplayGainInfo<G> {
    pub track_gain: Option<G>,
    pub track_peak: Option<G>,
    pub album_gain: Option<G>,
    pub album_peak: Option<G>,
}

/// The texts of the loudness tags of an audio file, where it has them.
#[derive(Debug)]
pub struct GainTags {
    /// `R128_TRACK_GAIN`, which Opus files carry.
    pub r128_track_gain: Option<String>,
    /// `R128_ALBUM_GAIN`, which Opus files carry.
    pub r128_album_gain: Option<String>,
    pub track_gain: Option<String>,
    pub track_peak: Option<String>,
    pub album_gain: Option<String>,
    pub album_peak: Option<String>,
}

/// What was read of the tags of an audio file.
#[derive(Debug)]
pub enum AudioTags {
    /// The file has no tag.
    Untagged,
    /// The file is an Opus file with these tags.
    Opus(GainTags),
    /// The file is of another type, with these tags.
    Other(GainTags),
}

/// `text` ends with a space and `dB`.
pub open spec fn ends_with_unit(text: Seq<char>) -> bool {
    text.len() >= 3 && text[text.len() - 3] == ' ' && text[text.len() - 2] == 'd' && text[text.len()
        - 1] == 'B'
}

/// `text` without the unit ` dB` at its end, however often it stands there.
pub open spec fn without_unit(text: Seq<char>) -> Seq<char>
    decreases text.len(),
{
    if ends_with_unit(text) {
        without_unit(text.take(text.len() - 3))
    } else {
        text
    }
}

/// `gain` is what the text of a gain or peak tag was read as: nothing for
/// no tag, else a result of `parse_float` on the text without its unit.
pub open spec fn is_replay_gain<G, P: Fn(String) -> Option<G>>(
    gain: Option<G>,
    value: Option<Seq<char>>,
    parse_float: P,
) -> bool {
    match value {
        None => gain is None,
        Some(text) => exists|asked: String|
            #![trigger call_ensures(parse_float, (asked,), gain)]
            asked@ == without_unit(text) && call_ensures(parse_float, (asked,), gain),
    }
}

/// `gain` is what the text of an R128 gain tag was read as: nothing for no
/// tag and for text that is no 32-bit integer, else a result of `to_db` on
/// the integer.
pub open spec fn is_r128_gain<G, C: Fn(i32) -> G>(
    gain: Option<G>,
    value: Option<Seq<char>>,
    to_db: C,
) -> bool {
    match value {
        None => gain is None,
        Some(text) => match i32_of(text) {
            None => gain is None,
            Some(units) => gain is Some && call_ensures(to_db, (units,), gain->0),
        },
    }
}

/// The characters of an optional text.
pub open spec fn chars_in(value: Option<&str>) -> Option<Seq<char>> {
    match value {
        Some(text) => Some(text@),
        None => None,
    }
}

/// The characters of an optional owned text.
pub open spec fn chars_within(value: Option<String>) -> Option<Seq<char>> {
    match value {
        Some(text) => Some(text@),
        None => None,
    }
}

/// Reads a gain or peak in decibels: the unit ` dB` at the end of the text
/// does not count.
pub fn parse_replay_gain<G, P: Fn(String) -> Option<G>>(value: Option<&str>, parse_float: &P) -> (gain:
    Option<G>)
    requires
        forall|text: String| call_requires(*parse_float, (text,)),
    ensures
        is_replay_gain(gain, chars_in(value), *parse_float),
{
    match value {
        None => None,
        Some(text) => {
            let chars = chars_of(text);
            let mut end: usize = chars.len();
            assert(chars@.take(end as int) =~= chars@);
            while end >= 3 && chars[end - 3] == ' ' && chars[end - 2] == 'd' && chars[end - 1]
                == 'B'
                invariant
                    end <= chars.len(),
                    without_unit(chars@) == without_unit(chars@.take(end as int)),
                decreases end,
            {
                proof {
                    let now = chars@.take(end as int);
                    assert(ends_with_unit(now));
                    assert(now.take(now.len() - 3) =~= chars@.take(end - 3));
                }
                end -= 3;
            }
            proof {
                let now = chars@.take(end as int);
                assert(!ends_with_unit(now));
            }
            let bare = string_of(slice_subrange(chars.as_slice(), 0, end));
            let ghost asked = bare;
            let gain = parse_float(bare);
            assert(call_ensures(*parse_float, (asked,), gain));
            gain
        },
    }
}

/// Reads the gain of an Opus file: a whole number, which `to_db` turns into
/// decibels.
pub fn parse_opus_r128_gain<G, C: Fn(i32) -> G>(value: Option<&str>, to_db: &C) -> (gain: Option<G>)
    requires
        forall|units: i32| call_requires(*to_db, (units,)),
    ensures
        is_r128_gain(gain, chars_in(value), *to_db),
{
    match value {
        None => None,
        Some(text) => match parse_i32(text) {
            None => None,
            Some(units) => Some(to_db(units)),
        },
    }
}

/// The text behind an optional owned text.
fn as_text(value: &Option<String>) -> (text: Option<&str>)
    ensures
        chars_in(text) == chars_within(*value),
{
    match value {
        Some(text) => Some(text.as_str()),
        None => None,
    }
}

/// `info` is the loudness that `tags` tell: nothing for a file without tag;
/// the two R128 gains, and no peaks, for an Opus file; and the four values
/// of the gain and peak tags for any other file.
pub open spec fn is_loudness_of<G, P: Fn(String) -> Option<G>, C: Fn(i32) -> G>(
    info: ReplayGainInfo<G>,
    tags: AudioTags,
    parse_float: P,
    to_db: C,
) -> bool {
    match tags {
        AudioTags::Untagged => {
            &&& info.track_gain is None
            &&& info.track_peak is None
            &&& info.album_gain is None
            &&& info.album_peak is None
        },
        AudioTags::Opus(texts) => {
            &&& is_r128_gain(info.track_gain, chars_within(texts.r128_track_gain), to_db)
            &&& info.track_peak is None
            &&& is_r128_gain(info.album_gain, chars_within(texts.r128_album_gain), to_db)
            &&& info.album_peak is None
        },
        AudioTags::Other(texts) => {
            &&& is_replay_gain(info.track_gain, chars_within(texts.track_gain), parse_float)
            &&& is_replay_gain(info.track_peak, chars_within(texts.track_peak), parse_float)
            &&& is_replay_gain(info.album_gain, chars_within(texts.album_gain), parse_float)
            &&& is_replay_gain(info.album_peak, chars_within(texts.album_peak), parse_float)
        },
    }
}

/// The loudness of an audio file, from what was read of its tags.
pub fn get_replay_gain<G, P: Fn(String) -> Option<G>, C: Fn(i32) -> G>(
    tags: &AudioTags,
    parse_float: &P,
    to_db: &C,
) -> (info: ReplayGainInfo<G>)
    requires
        forall|text: String| call_requires(*parse_float, (text,)),
        forall|units: i32| call_requires(*to_db, (units,)),
    ensures
        is_loudness_of(info, *tags, *parse_float, *to_db),
{
    match tags {
        AudioTags::Untagged => ReplayGainInfo {
            track_gain: None,
            track_peak: None,
            album_gain: None,
            album_peak: None,
        },
        AudioTags::Opus(texts) => ReplayGainInfo {
            track_gain: parse_opus_r128_gain(as_text(&texts.r128_track_gain), to_db),
            track_peak: None,
            album_gain: parse_opus_r128_gain(as_text(&texts.r128_album_gain), to_db),
            album_peak: None,
        },
        AudioTags::Other(texts) => ReplayGainInfo {
            track_gain: parse_replay_gain(as_text(&texts.track_gain), parse_float),
            track_peak: parse_replay_gain(as_text(&texts.track_peak), parse_float),
            album_gain: parse_replay_gain(as_text(&texts.album_gain), parse_float),
            album_peak: parse_replay_gain(as_text(&texts.album_peak), parse_float),
        },
    }
}

} // verus!
