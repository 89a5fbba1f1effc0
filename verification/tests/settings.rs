use songonsole::settings::{music_folder_in, MusicFolder};

fn under(f: MusicFolder) -> Option<String> {
    match f {
        MusicFolder::UnderHome(p) => Some(p),
        _ => None,
    }
}

#[test]
fn with_nothing_said_music_is_under_home() {
    assert_eq!(under(music_folder_in("")), Some("Music".to_string()));
    assert_eq!(under(music_folder_in("XDG_DESKTOP_DIR=\"$HOME/Desktop\"\n")), Some("Music".to_string()));
}

#[test]
fn the_home_form_is_expanded_and_nothing_else() {
    let dirs = "# written by xdg-user-dirs-update\nXDG_DESKTOP_DIR=\"$HOME/Desktop\"\n  XDG_MUSIC_DIR=\"$HOME/Sound/Music\"  \n";
    assert_eq!(under(music_folder_in(dirs)), Some("Sound/Music".to_string()));
    assert!(matches!(music_folder_in("XDG_MUSIC_DIR=\"$HOME\""), MusicFolder::Home));
    match music_folder_in("XDG_MUSIC_DIR=\"/srv/music\"\r\n") {
        MusicFolder::Absolute(p) => assert_eq!(p, "/srv/music"),
        _ => panic!("an absolute path is taken as it is"),
    }
}

#[test]
fn a_line_that_names_no_folder_is_passed_over() {
    let dirs = "XDG_MUSIC_DIR=\"$(rm -rf ~)\"\nXDG_MUSIC_DIR=relative/path\nXDG_MUSIC_DIR=\"$HOME/Tunes\"\n";
    assert_eq!(under(music_folder_in(dirs)), Some("Tunes".to_string()));
    let dirs = "XDG_MUSIC_DIR=\"${HOME}/x\"\n";
    assert_eq!(under(music_folder_in(dirs)), Some("Music".to_string()));
}

#[test]
fn the_first_line_that_names_one_decides() {
    let dirs = "XDG_MUSIC_DIR=/first\nXDG_MUSIC_DIR=/second\n";
    match music_folder_in(dirs) {
        MusicFolder::Absolute(p) => assert_eq!(p, "/first"),
        _ => panic!("the first line decides"),
    }
}
