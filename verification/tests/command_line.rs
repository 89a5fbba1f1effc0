use songonsole::cli::{bound, view_named, Invocation, Options, Read};

fn read(options: &mut Options, words: &[&str]) -> Read {
    let arg = words[0].to_string();
    let next = words.get(1).map(|w| w.to_string());
    options.read(&arg, next.as_ref())
}

fn complaint(r: Read) -> String {
    match r {
        Read::Fail(e) => e,
        _ => panic!("no complaint"),
    }
}

#[test]
fn a_window_has_to_be_one_that_really_opens() {
    assert!(bound((640, 400)).is_ok());
    assert!(bound((7680, 4320)).is_ok());
    assert!(bound((1280, 800)).is_ok());
    for size in [(639, 800), (1280, 399), (7681, 800), (1280, 4321)] {
        assert_eq!(bound(size), Err("Size must be between 640x400 and 7680x4320".to_string()), "{size:?}");
    }
}

#[test]
fn nothing_said_is_the_songs_shelf_in_an_ordinary_window() {
    let o = Options::new();
    assert_eq!(o.view, 0);
    assert_eq!(o.size, (1280, 800));
    assert!(o.opening.is_none() && o.shot.is_none());
    assert!(!o.demo && !o.playing && !o.back);
}

#[test]
fn help_version_and_controllers_stop_the_reading() {
    let mut o = Options::new();
    assert!(matches!(read(&mut o, &["--help"]), Read::Stop(Invocation::Help)));
    assert!(matches!(read(&mut o, &["-h"]), Read::Stop(Invocation::Help)));
    assert!(matches!(read(&mut o, &["--version"]), Read::Stop(Invocation::Version)));
    assert!(matches!(read(&mut o, &["--controllers"]), Read::Stop(Invocation::Controllers)));
}

#[test]
fn switches_are_one_word_and_values_two() {
    let mut o = Options::new();
    assert!(matches!(read(&mut o, &["--demo", "--playing"]), Read::One));
    assert!(o.demo);
    assert!(matches!(read(&mut o, &["--playing"]), Read::One));
    assert!(o.playing);
    assert!(matches!(read(&mut o, &["--back"]), Read::One));
    assert!(o.back);
    assert!(matches!(read(&mut o, &["--shot", "out.png"]), Read::Two));
    assert_eq!(o.shot.as_deref(), Some("out.png"));
    assert!(matches!(read(&mut o, &["--view", "favourites"]), Read::Two));
    assert_eq!(o.view, 3);
    match read(&mut o, &["--after", "2.5"]) {
        Read::Seconds(s) => assert_eq!(s, "2.5"),
        _ => panic!("--after hands its seconds on"),
    }
}

#[test]
fn a_value_missing_is_said_so() {
    let mut o = Options::new();
    assert_eq!(complaint(read(&mut o, &["--shot"])), "--shot needs a PNG path");
    assert_eq!(complaint(read(&mut o, &["--after"])), "--after needs a number of seconds");
    assert_eq!(
        complaint(read(&mut o, &["--view"])),
        "--view needs songs, albums, artists, favourites or queue"
    );
    assert_eq!(complaint(read(&mut o, &["--size"])), "--size needs WIDTHxHEIGHT");
    assert_eq!(complaint(read(&mut o, &["--width"])), "--width needs a number");
    assert_eq!(complaint(read(&mut o, &["--height"])), "--height needs a number");
    assert_eq!(complaint(read(&mut o, &["--view", "films"])), "Unknown library view");
}

#[test]
fn a_size_is_width_by_height_within_bounds() {
    let mut o = Options::new();
    assert!(matches!(read(&mut o, &["--size", "1920x1080"]), Read::Two));
    assert_eq!(o.size, (1920, 1080));
    assert_eq!(complaint(read(&mut o, &["--size", "1920"])), "--size needs WIDTHxHEIGHT");
    assert_eq!(complaint(read(&mut o, &["--size", "wide x1080"])), "Invalid width");
    assert_eq!(complaint(read(&mut o, &["--size", "1920xtall"])), "Invalid height");
    assert_eq!(complaint(read(&mut o, &["--size", "1920x1080x2"])), "Invalid height");
    assert_eq!(
        complaint(read(&mut o, &["--size", "100x100"])),
        "Size must be between 640x400 and 7680x4320"
    );
    assert_eq!(o.size, (1920, 1080));
    assert!(matches!(read(&mut o, &["--width", "800"]), Read::Two));
    assert_eq!(o.size, (800, 1080));
    assert!(matches!(read(&mut o, &["--height", "600"]), Read::Two));
    assert_eq!(o.size, (800, 600));
    assert_eq!(complaint(read(&mut o, &["--width", "eight"])), "Invalid width");
    assert_eq!(complaint(read(&mut o, &["--height", "10"])), "Size must be between 640x400 and 7680x4320");
}

#[test]
fn an_unknown_option_is_named() {
    let mut o = Options::new();
    assert_eq!(complaint(read(&mut o, &["--loud"])), "Unknown option: --loud");
    assert_eq!(complaint(read(&mut o, &["-"])), "Unknown option: -");
}

#[test]
fn one_folder_or_song_is_handed_on_and_a_second_refused() {
    let mut o = Options::new();
    match read(&mut o, &["Music/album"]) {
        Read::Path(p) => assert_eq!(p, "Music/album"),
        _ => panic!("a path is handed on to be found"),
    }
    o.opening = Some("/home/me/Music/album".to_string());
    assert_eq!(complaint(read(&mut o, &["other"])), "Pass one folder or song");
}

#[test]
fn the_shelves_are_named_as_the_rail_names_them() {
    for (k, name) in ["songs", "albums", "artists", "favourites", "queue"].iter().enumerate() {
        assert_eq!(view_named(&name.to_string()), Some(k));
    }
    assert_eq!(view_named(&"Songs".to_string()), None);
}
