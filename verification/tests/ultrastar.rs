use karaoke_core::chars::chars_of;
use karaoke_core::error::AppError;
use karaoke_core::text::parse_i32;
use karaoke_core::text::to_decimal;
use karaoke_core::ultrastar::format::read_line;
use karaoke_core::ultrastar::format::Line;
use karaoke_core::ultrastar::parser::affirms;
use karaoke_core::ultrastar::parser::parse_ultrastar_txt;
use karaoke_core::ultrastar::parser::parse_us_bool;
use karaoke_core::ultrastar::parser::parse_us_int;
use karaoke_core::ultrastar::parser::tag_to_note_type;
use karaoke_core::ultrastar::song::NoteType;
use karaoke_core::ultrastar::song::Song;

fn parse_float(text: String) -> Option<f64> {
    text.parse::<f64>().ok()
}

fn is_zero(number: f64) -> bool {
    number == 0.0
}

fn parse(content: &str) -> Result<Song<f64>, AppError> {
    parse_ultrastar_txt(content, 0.0, &parse_float, &is_zero)
}

fn refused(content: &str) -> String {
    match parse(content) {
        Err(AppError::UltrastarError(message)) => message,
        other => panic!("expected a refusal, got {:?}", other),
    }
}

#[test]
fn tags_name_their_note_types() {
    assert_eq!(tag_to_note_type(":"), NoteType::Normal);
    assert_eq!(tag_to_note_type("*"), NoteType::Golden);
    assert_eq!(tag_to_note_type("F"), NoteType::Freestyle);
    assert_eq!(tag_to_note_type("R"), NoteType::Rap);
    assert_eq!(tag_to_note_type("G"), NoteType::RapGolden);
    assert_eq!(tag_to_note_type("x"), NoteType::Freestyle);
    assert_eq!(tag_to_note_type(""), NoteType::Freestyle);
    assert_eq!(tag_to_note_type("::"), NoteType::Freestyle);
    assert_eq!(tag_to_note_type("r"), NoteType::Freestyle);
}

#[test]
fn integers_are_read_with_optional_sign() {
    assert_eq!(parse_us_int("42", "year"), Ok(42));
    assert_eq!(parse_us_int("-17", "p"), Ok(-17));
    assert_eq!(parse_us_int("+8", "p"), Ok(8));
    assert_eq!(parse_us_int("007", "p"), Ok(7));
    assert_eq!(parse_us_int("-0", "p"), Ok(0));
    assert_eq!(parse_us_int("2147483647", "p"), Ok(i32::MAX));
    assert_eq!(parse_us_int("-2147483648", "p"), Ok(i32::MIN));
}

#[test]
fn text_that_is_no_integer_is_refused_with_property_and_value() {
    for bad in ["", "-", "+", "1,5", "1.5", " 1", "1 ", "12a", "2147483648", "-2147483649", "99999999999999999999", "--1", "١"] {
        assert_eq!(
            parse_us_int(bad, "length"),
            Err(AppError::UltrastarError(format!("Failed to parse integer for length: {}", bad)))
        );
        assert_eq!(parse_i32(bad), bad.parse::<i32>().ok());
    }
}

#[test]
fn integer_reading_agrees_with_the_standard_parser() {
    for text in ["0", "10", "-10", "+10", "000", "2147483647", "-2147483648", "2147483650", "1e3", "0x10"] {
        assert_eq!(parse_i32(text), text.parse::<i32>().ok());
    }
}

#[test]
fn decimal_notation_has_no_leading_zeros() {
    assert_eq!(to_decimal(0), "0");
    assert_eq!(to_decimal(9), "9");
    assert_eq!(to_decimal(10), "10");
    assert_eq!(to_decimal(1234567890), "1234567890");
    assert_eq!(to_decimal(u64::MAX), "18446744073709551615");
}

#[test]
fn yes_true_and_one_affirm_in_any_case() {
    for yes in ["yes", "YES", "Yes", "true", "TRUE", "tRuE", "1"] {
        assert!(parse_us_bool(yes));
    }
    for no in ["", "no", "0", "y", "yes ", " true", "11", "on", "truee"] {
        assert!(!parse_us_bool(no));
    }
    assert!(affirms("yes"));
    assert!(!affirms("YES"));
}

#[test]
fn characters_of_a_text_keep_their_order() {
    assert_eq!(chars_of("aé\u{1F3A4}b"), vec!['a', 'é', '\u{1F3A4}', 'b']);
    assert_eq!(chars_of(""), Vec::<char>::new());
}

#[test]
fn lines_are_read_by_their_first_character() {
    let read = |text: &str| read_line(&chars_of(text));
    assert!(matches!(read(""), Line::Skip));
    assert!(matches!(read("   \t"), Line::Skip));
    assert!(matches!(read("hello"), Line::Skip));
    assert!(matches!(read("#NOCOLON"), Line::Skip));
    assert!(matches!(read("-"), Line::Skip));
    assert!(matches!(read(": 1 2 3"), Line::Skip));
    assert!(matches!(read("P1"), Line::Player));
    assert!(matches!(read("  P 2"), Line::Player));
    assert!(matches!(read("E"), Line::End));
    assert!(matches!(read("End of song"), Line::End));
    match read("  # Title :  My: Song  ") {
        Line::Header { property, value } => {
            assert_eq!(property, "title");
            assert_eq!(value, chars_of("My: Song"));
        }
        _ => panic!("a header line"),
    }
    match read(" : 1 2 3 la la ") {
        Line::Note { tag, start_beat, length, pitch, text } => {
            assert_eq!(tag, vec![':']);
            assert_eq!(start_beat, vec!['1']);
            assert_eq!(length, vec!['2']);
            assert_eq!(pitch, vec!['3']);
            assert_eq!(text, chars_of("la la "));
        }
        _ => panic!("a note line"),
    }
    match read("F 1  2 3") {
        Line::Note { start_beat, length, pitch, text, .. } => {
            assert_eq!(start_beat, vec!['1']);
            assert_eq!(length, Vec::<char>::new());
            assert_eq!(pitch, vec!['2']);
            assert_eq!(text, vec!['3']);
        }
        _ => panic!("a note line"),
    }
    match read("\t-  12 extra ") {
        Line::Break { beat, line } => {
            assert_eq!(beat, vec!['1', '2']);
            assert_eq!(line, chars_of("-  12 extra "));
        }
        _ => panic!("a break line"),
    }
}

#[test]
fn whole_song_is_parsed() {
    let content = "#TITLE:My Song\r\n#ARTIST:Me\r\n#BPM:120,5\r\n#GAP:1000\r\n#MP3:song.mp3\r\n#YEAR:1999\r\n: 0 4 0 Hel\r\n* 4 4 2 lo\r\n- 8\r\nF 10 2 -3 world\r\nE\r\n: 99 1 1 ignored\r\n";
    let song = parse(content).unwrap();
    assert_eq!(song.title, "My Song");
    assert_eq!(song.artist, "Me");
    assert_eq!(song.bpm, 120.5);
    assert_eq!(song.gap, 1000.0);
    assert_eq!(song.video_gap, 0.0);
    assert_eq!(song.start, None);
    assert_eq!(song.end, None);
    assert_eq!(song.year, Some(1999));
    assert_eq!(song.audio, Some("song.mp3".to_string()));
    assert_eq!(song.video, None);
    assert_eq!(song.album, None);
    assert_eq!(song.relative, Some(false));
    assert_eq!(song.hash, "83ad695a1505f2bf3e5937542b715fc6");
    assert_eq!(song.voices.len(), 1);
    let phrases = &song.voices[0].phrases;
    assert_eq!(phrases.len(), 2);
    assert_eq!(phrases[0].disappear_beat, 8);
    assert_eq!(phrases[0].notes.len(), 2);
    assert_eq!(phrases[0].notes[0].note_type, NoteType::Normal);
    assert_eq!(phrases[0].notes[0].start_beat, 0);
    assert_eq!(phrases[0].notes[0].length, 4);
    assert_eq!(phrases[0].notes[0].txt_pitch, 0);
    assert_eq!(phrases[0].notes[0].midi_note, 60);
    assert_eq!(phrases[0].notes[0].text, "Hel");
    assert_eq!(phrases[0].notes[1].note_type, NoteType::Golden);
    assert_eq!(phrases[0].notes[1].midi_note, 62);
    assert_eq!(phrases[0].notes[1].text, "lo");
    assert_eq!(phrases[1].disappear_beat, 13);
    assert_eq!(phrases[1].notes.len(), 1);
    assert_eq!(phrases[1].notes[0].note_type, NoteType::Freestyle);
    assert_eq!(phrases[1].notes[0].txt_pitch, -3);
    assert_eq!(phrases[1].notes[0].midi_note, 57);
    assert_eq!(phrases[1].notes[0].text, "world");
}

#[test]
fn byte_order_mark_is_skipped() {
    let song = parse("\u{FEFF}#TITLE:Title\n#ARTIST:Artist\n#BPM:1\n#VIDEO:v.mp4\nE").unwrap();
    assert_eq!(song.title, "Title");
    assert_eq!(song.video, Some("v.mp4".to_string()));
    assert_eq!(song.hash, "5636957656239ac7c476da27398cbfc1");
    assert!(song.voices.is_empty());
}

#[test]
fn every_header_sets_its_field() {
    let content = "#title:T\n#Artist:A\n#LANGUAGE:en\n#EDITION:ed\n#GENRE:pop\n#YEAR:\n#BPM:300\n#GAP:1,5\n#START:2.5\n#END:9000\n#AUDIO:a.ogg\n#INSTRUMENTAL:i.ogg\n#COVER:c.jpg\n#VIDEO:v.mp4\n#BACKGROUND:b.jpg\n#RELATIVE:YES\n#VIDEOGAP:-3\n#AUTHOR:me\n#DUETSINGERP1:one\n#P2:two\n#PREVIEW:7\n#ALBUM:never set\n#UNKNOWN:x\nE\n";
    let song = parse(content).unwrap();
    assert_eq!(song.language, Some("en".to_string()));
    assert_eq!(song.edition, Some("ed".to_string()));
    assert_eq!(song.genre, Some("pop".to_string()));
    assert_eq!(song.year, None);
    assert_eq!(song.bpm, 300.0);
    assert_eq!(song.gap, 1.5);
    assert_eq!(song.start, Some(2.5));
    assert_eq!(song.end, Some(9000));
    assert_eq!(song.audio, Some("a.ogg".to_string()));
    assert_eq!(song.instrumental, Some("i.ogg".to_string()));
    assert_eq!(song.cover, Some("c.jpg".to_string()));
    assert_eq!(song.video, Some("v.mp4".to_string()));
    assert_eq!(song.background, Some("b.jpg".to_string()));
    assert_eq!(song.relative, Some(true));
    assert_eq!(song.video_gap, -3.0);
    assert_eq!(song.creator, Some("me".to_string()));
    assert_eq!(song.p1, Some("one".to_string()));
    assert_eq!(song.p2, Some("two".to_string()));
    assert_eq!(song.preview_start, Some(7.0));
    assert_eq!(song.album, None);
}

#[test]
fn later_header_replaces_earlier_one() {
    let song = parse("#TITLE:one\n#TITLE:two\n#ARTIST:A\n#BPM:1\n#MP3:a\n#AUDIO:b\n#RELATIVE:yes\n#RELATIVE:no\nE").unwrap();
    assert_eq!(song.title, "two");
    assert_eq!(song.audio, Some("b".to_string()));
    assert_eq!(song.relative, Some(false));
}

#[test]
fn players_split_the_voices() {
    let content = "#TITLE:T\n#ARTIST:A\n#BPM:1\n#MP3:a\nP1\n: 1 2 3 a\nP2\nP3\n: 4 5 6 b\n- 20\nE\n";
    let song = parse(content).unwrap();
    assert_eq!(song.hash, "d04a36b5f8cbb2936a1f6b35f935a344");
    assert_eq!(song.voices.len(), 2);
    assert_eq!(song.voices[0].phrases.len(), 1);
    assert_eq!(song.voices[0].phrases[0].disappear_beat, 4);
    assert_eq!(song.voices[0].phrases[0].notes[0].text, "a");
    assert_eq!(song.voices[1].phrases.len(), 1);
    assert_eq!(song.voices[1].phrases[0].disappear_beat, 20);
    assert_eq!(song.voices[1].phrases[0].notes[0].text, "b");
}

#[test]
fn fingerprint_covers_notes_players_title_and_artist() {
    let song = parse("#TITLE:T\n#ARTIST:A\n#BPM:1\n#MP3:a\n: 1 2 3 x\nP\nP\n: 4 5 6 y\nE").unwrap();
    assert_eq!(song.hash, "45d72969b2e941a49e085efbab0f34df");
    let unicode = parse("#TITLE:Ünï çödé\n#ARTIST:Ärtist\n#BPM:1\n#MP3:a\nE").unwrap();
    assert_eq!(unicode.hash, "65963dc4fe562ec45297cd11b03228f9");
}

#[test]
fn short_note_and_bare_break_lines_are_ignored() {
    let song = parse("#TITLE:T\n#ARTIST:A\n#BPM:1\n#MP3:a\n: 1 2 3\n-\n: x\nE").unwrap();
    assert!(song.voices.is_empty());
    assert_eq!(song.hash, "890a10788493e3d572586e991cd43543");
}

#[test]
fn beat_sums_wrap_around() {
    let song = parse("#TITLE:T\n#ARTIST:A\n#BPM:1\n#MP3:a\n: 2147483647 1 2147483647 x\nE").unwrap();
    let phrase = &song.voices[0].phrases[0];
    assert_eq!(phrase.notes[0].midi_note, i32::MAX.wrapping_add(60));
    assert_eq!(phrase.disappear_beat, i32::MAX.wrapping_add(1).wrapping_add(1));
}

#[test]
fn incomplete_songs_are_refused_in_order() {
    assert_eq!(refused(""), "Missing song title");
    assert_eq!(refused("#ARTIST:A\n#BPM:1\n#MP3:a\nE"), "Missing song title");
    assert_eq!(refused("#TITLE:T\n#BPM:1\n#MP3:a\nE"), "Missing song artist");
    assert_eq!(refused("#TITLE:T\n#ARTIST:A\n#MP3:a\nE"), "Missing song BPM");
    assert_eq!(refused("#TITLE:T\n#ARTIST:A\n#BPM:0\n#MP3:a\nE"), "Missing song BPM");
    assert_eq!(refused("#TITLE:T\n#ARTIST:A\n#BPM:1\n#MP3:a\n"), "Missing song hash");
    assert_eq!(
        refused("#TITLE:T\n#ARTIST:A\n#BPM:1\nE"),
        "Song must have either audio or video file"
    );
    assert_eq!(refused("#TITLE:\n#ARTIST:A\n#BPM:1\n#MP3:a\nE"), "Missing song title");
}

#[test]
fn first_unreadable_number_stops_the_parse() {
    assert_eq!(refused("#BPM:fast\n#YEAR:x"), "Failed to parse float for bpm: fast");
    assert_eq!(refused("#YEAR:x\n#BPM:fast"), "Failed to parse integer for year: x");
    assert_eq!(refused("#END:\n"), "Failed to parse integer for end: ");
    assert_eq!(refused("#GAP:1,2,3"), "Failed to parse float for gap: 1,2,3");
    assert_eq!(refused("#Preview:"), "Failed to parse float for preview: ");
    assert_eq!(refused(": a 2 3 x"), "Failed to parse integer for start_beat: a");
    assert_eq!(refused(": 1 b 3 x"), "Failed to parse integer for length: b");
    assert_eq!(refused(": 1 2 c x"), "Failed to parse integer for txt_pitch: c");
    assert_eq!(refused(": 1  2 3 x"), "Failed to parse integer for length: ");
    assert_eq!(refused("- 1.5"), "Failed to parse integer for disappear_beat: 1.5");
}

#[test]
fn lines_after_the_end_are_not_read() {
    let song = parse("#TITLE:T\n#ARTIST:A\n#BPM:1\n#MP3:a\nE\n#BPM:broken\n: a b c d").unwrap();
    assert_eq!(song.bpm, 1.0);
}
