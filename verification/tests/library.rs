use songonsole::library::{clock, notice_of, supported, supported_extension, Notice, Order, Track};
use songonsole::probe::{describe, describe_output, number, parse_json, parse_u32, tag, Json, ProbeError};

fn text(s: &str) -> Json {
    Json::Text(s.to_string())
}

fn object(members: Vec<(&str, Json)>) -> Json {
    Json::Object(members.into_iter().map(|(k, v)| (k.to_string(), v)).collect())
}

#[test]
fn extension_filter_is_audio_only_and_case_insensitive() {
    assert!(supported("MUSIC.FLAC"));
    assert!(supported("song.m4a"));
    assert!(!supported("movie.mkv"));
    assert!(!supported("notes.txt"));
}

#[test]
fn tags_accept_capitals_and_disc_track_totals() {
    let tags = object(vec![("TITLE", text("  Song  ")), ("TRACK", text("3/12"))]);
    assert_eq!(tag(&tags, "title").as_deref(), Some("Song"));
    assert_eq!(number(tag(&tags, "track")), 3);
}

#[test]
fn every_format_the_decoder_plays_is_a_song() {
    for name in [
        "a.mp3", "a.flac", "a.m4a", "a.m4b", "a.mka", "a.aac", "a.ogg", "a.oga", "a.wav", "a.aif",
        "a.aiff", "A.AiFf",
    ] {
        assert!(supported(name), "{name}");
    }
    for name in ["a.opus", "a.wma", "flac", ".flac", "a.", "a", "dir.flac/readme"] {
        assert!(!supported(name), "{name}");
    }
    assert!(supported_extension("OGG"));
    assert!(!supported_extension("og"));
}

#[test]
fn a_tag_that_is_only_white_space_is_no_tag() {
    let tags = object(vec![("artist", text("   ")), ("album", Json::Number(Some(3)))]);
    assert_eq!(tag(&tags, "artist"), None);
    assert_eq!(tag(&tags, "album"), None);
    assert_eq!(tag(&tags, "missing"), None);
    assert_eq!(tag(&Json::Null, "artist"), None);
}

#[test]
fn the_first_tag_of_a_name_is_the_one_read() {
    let tags = object(vec![("Artist", text("One")), ("ARTIST", text("Two"))]);
    assert_eq!(tag(&tags, "artist").as_deref(), Some("One"));
}

#[test]
fn numbers_are_what_comes_before_the_count() {
    assert_eq!(number(None), 0);
    assert_eq!(number(Some("7".to_string())), 7);
    assert_eq!(number(Some("+7/9".to_string())), 7);
    assert_eq!(number(Some("seven".to_string())), 0);
    assert_eq!(number(Some("/9".to_string())), 0);
    assert_eq!(number(Some("4294967295".to_string())), 4294967295);
    assert_eq!(number(Some("4294967296".to_string())), 0);
}

#[test]
fn whole_numbers_are_read_the_way_std_reads_them() {
    for word in ["0", "12", "+12", "007", "4294967295", "4294967296", "", "+", "-1", "1 ", "x1"] {
        assert_eq!(parse_u32(word), word.parse::<u32>().ok(), "{word:?}");
    }
}

fn probe_data() -> Json {
    object(vec![
        (
            "streams",
            Json::Array(vec![
                object(vec![
                    ("codec_type", text("video")),
                    ("disposition", object(vec![("attached_pic", Json::Number(Some(1)))])),
                ]),
                object(vec![
                    ("codec_type", text("audio")),
                    ("duration", text("12.5")),
                    ("tags", object(vec![("ALBUM", text("Stream album")), ("disc", text("2/2"))])),
                ]),
            ]),
        ),
        (
            "format",
            object(vec![
                ("duration", text("183.250000")),
                ("tags", object(vec![("title", text(" Song ")), ("Track", text("4/10"))])),
            ]),
        ),
    ])
}

#[test]
fn a_file_is_described_by_its_tags_and_then_its_streams() {
    let described = describe(&probe_data(), "file name", "Unknown artist", "Unknown album").ok().unwrap();
    assert_eq!(described.title, "Song");
    assert_eq!(described.artist, "Unknown artist");
    assert_eq!(described.album_artist, "Unknown artist");
    assert_eq!(described.album, "Stream album");
    assert_eq!(described.disc, 2);
    assert_eq!(described.number, 4);
    assert_eq!(described.duration.as_deref(), Some("183.250000"));
    assert!(described.embedded);
}

#[test]
fn an_untagged_file_is_named_after_itself() {
    let data = object(vec![(
        "streams",
        Json::Array(vec![object(vec![("codec_type", text("audio"))])]),
    )]);
    let described = describe(&data, "track01", "Nobody", "Nothing").ok().unwrap();
    assert_eq!(described.title, "track01");
    assert_eq!(described.artist, "Nobody");
    assert_eq!(described.album, "Nothing");
    assert_eq!(described.disc, 0);
    assert_eq!(described.number, 0);
    assert_eq!(described.duration, None);
    assert!(!described.embedded);
}

#[test]
fn a_file_with_no_sound_is_refused() {
    let data = object(vec![(
        "streams",
        Json::Array(vec![object(vec![("codec_type", text("video"))])]),
    )]);
    assert!(matches!(describe(&data, "x", "a", "b"), Err(ProbeError::NoAudio)));
    assert!(matches!(describe(&Json::Null, "x", "a", "b"), Err(ProbeError::NoAudio)));
}

#[test]
fn the_album_artist_falls_back_along_its_three_spellings() {
    let with = |key: &str| {
        object(vec![(
            "streams",
            Json::Array(vec![object(vec![
                ("codec_type", text("audio")),
                ("tags", object(vec![("artist", text("Song artist")), (key, text("Album artist"))])),
            ])]),
        )])
    };
    for key in ["album_artist", "albumartist", "Album Artist"] {
        let described = describe(&with(key), "x", "a", "b").ok().unwrap();
        assert_eq!(described.album_artist, "Album artist", "{key}");
        assert_eq!(described.artist, "Song artist");
    }
}

#[test]
fn a_clock_face_is_minutes_and_seconds_then_hours() {
    assert_eq!(clock(0), "0:00");
    assert_eq!(clock(59), "0:59");
    assert_eq!(clock(183), "3:03");
    assert_eq!(clock(3599), "59:59");
    assert_eq!(clock(3600), "1:00:00");
    assert_eq!(clock(3661), "1:01:01");
    assert_eq!(clock(36000 + 600 + 5), "10:10:05");
}

#[test]
fn the_reading_says_the_first_thing_that_went_wrong_and_how_many_more() {
    assert!(matches!(notice_of(&vec![]), Notice::Quiet));
    match notice_of(&vec!["one".to_string()]) {
        Notice::One(e) => assert_eq!(e, "one"),
        _ => panic!("one error is said as itself"),
    }
    match notice_of(&vec!["one".to_string(), "two".to_string(), "three".to_string()]) {
        Notice::More { first, others } => {
            assert_eq!(first, "one");
            assert_eq!(others, 2);
        }
        _ => panic!("several errors are the first and a count"),
    }
}

#[test]
fn the_six_orders_are_offered_in_order_and_named() {
    let all = Order::all();
    assert_eq!(
        all,
        vec![Order::Name, Order::NameReversed, Order::Artist, Order::Album, Order::Newest, Order::Oldest]
    );
    assert_eq!(Order::default(), Order::Name);
    assert_eq!(Order::Name.label(), "order-name");
    assert_eq!(Order::NameReversed.label(), "order-name-backwards");
    assert_eq!(Order::Oldest.label(), "order-oldest");
}

#[test]
fn an_album_is_its_artist_and_its_title() {
    let track = Track {
        path: "/a.flac".to_string(),
        title: "A".to_string(),
        artist: "Guest".to_string(),
        album_artist: "Band".to_string(),
        album: "Record".to_string(),
        disc: 1,
        number: 1,
        cover: None,
        added: 0,
    };
    assert_eq!(track.album_key(), ("Band".to_string(), "Record".to_string()));
}

#[test]
fn an_album_is_counted_once_by_its_artist_and_title() {
    let mut music = songonsole::music::Music::demo();
    assert_eq!(music.album_count(), 3);
    music.tracks[4].album = music.tracks[0].album.clone();
    assert_eq!(music.album_count(), 4);
    music.tracks[4].album_artist = music.tracks[0].album_artist.clone();
    assert_eq!(music.album_count(), 3);
    let empty = songonsole::music::Music::new(Vec::new(), Order::Name, false, songonsole::queue::Repeat::Off, false);
    assert_eq!(empty.album_count(), 0);
}

#[test]
fn what_ffmpeg_wrote_is_read_as_json_and_described() {
    let output = br#"{"streams": [{"codec_type": "video"}, {"codec_type": "audio", "duration": "61.5",
        "tags": {"ARTIST": "Someone"}}], "format": {"tags": {"title": "A song", "track": "3"}}}"#;
    let described = describe_output(output, "file", "Unknown artist", "Unknown album").ok().unwrap();
    assert_eq!(described.title, "A song");
    assert_eq!(described.artist, "Someone");
    assert_eq!(described.album, "Unknown album");
    assert_eq!(described.number, 3);
    assert_eq!(described.duration.as_deref(), Some("61.5"));
    assert!(!described.embedded);
}

#[test]
fn output_that_is_not_json_is_refused_as_such() {
    let reason = serde_json::from_slice::<serde_json::Value>(b"not json").unwrap_err().to_string();
    assert!(matches!(describe_output(b"not json", "x", "a", "b"), Err(ProbeError::NotJson(ref why)) if *why == reason));
    assert!(matches!(describe_output(b"", "x", "a", "b"), Err(ProbeError::NotJson(ref why)) if why.contains("EOF")));
    assert!(matches!(describe_output(b"{\"streams\": []}", "x", "a", "b"), Err(ProbeError::NoAudio)));
    assert!(matches!(describe_output(b"null", "x", "a", "b"), Err(ProbeError::NoAudio)));
}

#[test]
fn json_is_read_value_for_value() {
    assert!(parse_json(b"[1, -2, 2.5, true, null]").is_ok_and(|j| matches!(j,
        Json::Array(ref v) if v.len() == 5
            && matches!(v[0], Json::Number(Some(1)))
            && matches!(v[1], Json::Number(Some(-2)))
            && matches!(v[2], Json::Number(None))
            && matches!(v[3], Json::Bool(true))
            && matches!(v[4], Json::Null))));
    assert!(parse_json(b"{\"a\": \"b\"}").is_ok_and(|j| matches!(j,
        Json::Object(ref m) if m.len() == 1 && m[0].0 == "a" && matches!(m[0].1, Json::Text(ref t) if t == "b"))));
    assert!(parse_json(b"{").is_err());
}
