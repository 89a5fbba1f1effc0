use songonsole::acts::{Accepted, Acted, Action, Activated, Backed, Pressed, Toggled};
use songonsole::labels::{menu_label, transport_glyph, Words};
use songonsole::library::Order;
use songonsole::music::{
    Change, Menu, Music, Screen, Walked, Zone, BAR_LOUDNESS, BAR_POSITION, FIRST_BUTTON, NOW_PLAYING,
    RAIL_ADD_FOLDER, RAIL_OPTIONS, RAIL_ROWS, TRANSPORT,
};
use songonsole::queue::Repeat;

#[test]
fn a_crossing_takes_no_presses() {
    let mut music = Music::demo();
    music.crossing = Some(Change::Playing);
    let tab = music.tab;
    assert!(matches!(music.act(Action::Next, false, false), Acted::Ignored));
    assert_eq!(music.tab, tab);
}

#[test]
fn the_shoulders_step_along_the_shelves_and_round() {
    let mut music = Music::demo();
    assert!(matches!(music.act(Action::Previous, false, false), Acted::Shelf));
    assert_eq!(music.tab, 4);
    assert_eq!(music.rail, 4);
    assert!(matches!(music.act(Action::Next, false, false), Acted::Shelf));
    assert_eq!(music.tab, 0);
    assert!(matches!(music.act(Action::Next, false, false), Acted::Shelf));
    assert_eq!(music.tab, 1);
}

#[test]
fn on_the_now_playing_page_the_shoulders_only_settle_the_light() {
    let mut music = Music::demo();
    music.screen = Screen::Playing;
    music.zone = Zone::Library;
    assert!(matches!(music.act(Action::Next, false, false), Acted::Walked(Walked::Light)));
    assert!(music.zone == Zone::Transport);
    assert_eq!(music.tab, 0);
    music.zone = Zone::Queue;
    music.act(Action::Previous, false, false);
    assert!(music.zone == Zone::Queue);
}

#[test]
fn back_walks_out_one_step_at_a_time_and_then_closes() {
    let mut music = Music::demo();
    music.change_tab(1);
    music.activate();
    music.crossing = None;
    assert!(music.group.is_some());
    assert!(matches!(music.act(Action::Back, false, false), Acted::Backed(Backed::LeftGroup(_))));
    assert!(music.group.is_none());
    music.crossing = None;
    assert!(matches!(music.act(Action::Back, false, false), Acted::Backed(Backed::ToRail)));
    assert!(music.zone == Zone::Sidebar);
    assert!(matches!(music.act(Action::Back, false, false), Acted::Backed(Backed::Quit)));
    music.screen = Screen::Playing;
    assert!(matches!(music.act(Action::Back, false, false), Acted::Backed(Backed::LeftPlaying)));
    assert!(music.screen == Screen::Library);
    assert!(music.zone == Zone::Library);
}

#[test]
fn the_menu_button_raises_the_menu() {
    let mut music = Music::demo();
    assert!(matches!(music.act(Action::Menu, false, false), Acted::OpenMenu));
}

#[test]
fn play_and_pause_flip_what_is_playing() {
    let mut music = Music::demo();
    assert!(matches!(music.act(Action::Submit, false, false), Acted::Toggled(Toggled::Flip)));
    assert!(matches!(music.act(Action::Submit, false, true), Acted::Toggled(Toggled::Start)));
    music.queue.position = None;
    assert!(matches!(music.act(Action::Submit, false, false), Acted::Toggled(Toggled::Start)));
    assert_eq!(music.queue.position, Some(0));
}

#[test]
fn with_nothing_queued_play_queues_the_album_under_the_light() {
    let mut music = Music::demo();
    music.queue.replace(Vec::new(), 0);
    music.change_tab(1);
    music.selected = 1;
    assert!(matches!(music.toggle(false), Toggled::Start));
    assert_eq!(music.queue.entries.len(), 4);
    assert_eq!(music.queue.position, Some(0));
}

#[test]
fn south_chooses_what_the_light_is_on() {
    let mut music = Music::demo();
    music.zone = Zone::Sidebar;
    music.rail = RAIL_ADD_FOLDER;
    assert!(matches!(music.act(Action::Accept, false, false), Acted::Accepted(Accepted::PickFolder)));
    music.rail = RAIL_OPTIONS;
    assert!(matches!(music.act(Action::Accept, false, false), Acted::Accepted(Accepted::Nothing)));
    assert!(music.zone == Zone::Sidebar, "the rail's Options row raises nothing");
    assert!(music.menu.is_empty());
    music.rail = 2;
    assert!(matches!(music.act(Action::Accept, false, false), Acted::Accepted(Accepted::Nothing)));
    assert!(music.zone == Zone::Library);
    music.selected = 2;
    assert!(matches!(
        music.act(Action::Accept, false, false),
        Acted::Accepted(Accepted::Chose(Activated::Played { opened: true }))
    ));
    assert!(music.screen == Screen::Playing);
    music.crossing = None;
    music.zone = Zone::Queue;
    music.queued = 7;
    assert!(matches!(music.act(Action::Accept, false, false), Acted::Accepted(Accepted::Start)));
    assert_eq!(music.queue.position, Some(7));
    music.zone = Zone::Transport;
    music.transport = FIRST_BUTTON + 4;
    assert!(matches!(
        music.act(Action::Accept, false, false),
        Acted::Accepted(Accepted::Pressed(Pressed::Start))
    ));
    assert_eq!(music.queue.position, Some(8));
}

#[test]
fn an_empty_browser_asks_for_a_folder() {
    let mut music = Music::new(Vec::new(), Order::Name, false, Repeat::Off, false);
    assert!(music.rows.is_empty());
    assert!(matches!(music.accept(false, false), Accepted::PickFolder));
}

#[test]
fn the_directions_walk_the_light() {
    let mut music = Music::demo();
    assert!(matches!(music.act(Action::Down, false, false), Acted::Walked(Walked::Light)));
    assert_eq!(music.selected, 1);
    music.act(Action::Up, false, false);
    assert_eq!(music.selected, 0);
    music.act(Action::Left, false, false);
    assert!(music.zone == Zone::Sidebar);
    assert!(matches!(music.act(Action::Down, false, false), Acted::Walked(Walked::Shelf)));
    assert_eq!(music.tab, 1);
    music.act(Action::Right, false, false);
    assert!(music.zone == Zone::Library);
}

#[test]
fn previous_goes_back_to_the_start_of_a_song_well_under_way() {
    let mut music = Music::demo();
    music.queue.select(3);
    assert!(matches!(music.transport_action(FIRST_BUTTON + 2, true, false), Pressed::SeekToStart));
    assert_eq!(music.queue.position, Some(3));
    assert!(matches!(music.transport_action(FIRST_BUTTON + 2, false, false), Pressed::Start));
    assert_eq!(music.queue.position, Some(0), "previous retraces the selection it came from");
}

#[test]
fn every_control_of_the_strip_is_named_for_what_pressing_it_does() {
    let mut music = Music::demo();
    assert_eq!(music.transport_label(NOW_PLAYING, false, true), "open-now-playing");
    assert_eq!(music.transport_label(BAR_POSITION, true, true), "pause");
    assert_eq!(music.transport_label(BAR_POSITION, false, true), "play");
    assert_eq!(music.transport_label(BAR_LOUDNESS, false, true), "mute");
    assert_eq!(music.transport_label(BAR_LOUDNESS, false, false), "unmute");
    assert_eq!(music.transport_label(FIRST_BUTTON, false, true), "shuffle-off");
    assert_eq!(music.transport_label(FIRST_BUTTON + 1, false, true), "repeat-off");
    assert_eq!(music.transport_label(FIRST_BUTTON + 2, false, true), "previous");
    assert_eq!(music.transport_label(FIRST_BUTTON + 3, true, true), "pause");
    assert_eq!(music.transport_label(FIRST_BUTTON + 3, false, true), "play");
    assert_eq!(music.transport_label(FIRST_BUTTON + 4, false, true), "next");
    music.queue.shuffle = true;
    music.queue.repeat = Repeat::One;
    assert_eq!(music.transport_label(FIRST_BUTTON, false, true), "shuffle-on");
    assert_eq!(music.transport_label(FIRST_BUTTON + 1, false, true), "repeat-one");
    music.queue.repeat = Repeat::All;
    assert_eq!(music.transport_label(FIRST_BUTTON + 1, false, true), "repeat-all");
    for at in 0..TRANSPORT {
        for playing in [true, false] {
            for loud in [true, false] {
                assert!(!music.transport_label(at, playing, loud).is_empty());
            }
        }
    }
}

#[test]
fn three_of_the_five_buttons_wear_marks_under_both_faces_of_play() {
    let mut pictured = 0;
    for playing in [true, false] {
        for at in 0..TRANSPORT {
            if transport_glyph(at, playing).is_some() {
                pictured += 1;
            }
        }
    }
    assert_eq!(pictured, 6);
    for bare in [NOW_PLAYING, BAR_POSITION, BAR_LOUDNESS, FIRST_BUTTON, FIRST_BUTTON + 1] {
        assert!(transport_glyph(bare, true).is_none(), "{bare}");
    }
    assert_eq!(transport_glyph(FIRST_BUTTON + 3, true), Some("media-pause"));
    assert_eq!(transport_glyph(FIRST_BUTTON + 3, false), Some("media-play"));
    assert_eq!(transport_glyph(FIRST_BUTTON + 2, false), Some("media-previous"));
    assert_eq!(transport_glyph(FIRST_BUTTON + 4, false), Some("media-next"));
}

#[test]
fn the_legend_says_close_only_where_back_closes() {
    let mut music = Music::demo();
    let hints = music.hints(false, true);
    assert_eq!(hints.accept, Some("play"));
    assert_eq!(hints.options, "options");
    assert_eq!(hints.back, "back");
    assert_eq!(hints.start, "play");
    music.zone = Zone::Sidebar;
    let hints = music.hints(true, true);
    assert_eq!(hints.back, "close");
    assert_eq!(hints.accept, Some("open"));
    assert_eq!(hints.start, "pause");
    music.rail = RAIL_ADD_FOLDER;
    assert_eq!(music.hints(true, true).accept, Some("add-folder"));
    music.rail = RAIL_OPTIONS;
    assert_eq!(music.hints(true, true).accept, None, "the rail's Options row offers nothing");
    music.zone = Zone::Transport;
    music.transport = BAR_LOUDNESS;
    assert_eq!(music.hints(true, false).accept, Some("unmute"));
    music.change_tab(1);
    music.zone = Zone::Library;
    assert_eq!(music.hints(true, false).accept, Some("open"));
    music.screen = Screen::Playing;
    music.zone = Zone::Queue;
    assert_eq!(music.hints(true, false).accept, Some("play"));
}

#[test]
fn no_rail_row_leaves_the_legend_offering_the_menu() {
    let mut music = Music::demo();
    music.zone = Zone::Sidebar;
    for row in 0..RAIL_ROWS {
        music.rail = row;
        assert_ne!(music.hints(false, true).accept, Some("options"), "row {row}");
        assert_eq!(music.hints(false, true).back, "close");
    }
}

#[test]
fn the_heading_is_the_shelf_or_the_open_album() {
    let mut music = Music::demo();
    assert!(matches!(music.title(), Words::Message("songs")));
    assert!(matches!(music.subtitle(), Words::Message("songs-subtitle")));
    music.change_tab(2);
    assert!(matches!(music.title(), Words::Message("artists")));
    assert!(matches!(music.subtitle(), Words::Message("artists-subtitle")));
    music.change_tab(1);
    let label = music.rows[0].label.clone();
    let artist = music.rows[0].detail.clone();
    music.activate();
    match music.title() {
        Words::Text(t) => assert_eq!(t, label),
        _ => panic!("an open album is headed by its name"),
    }
    match music.subtitle() {
        Words::About(m, t) => {
            assert_eq!(m, "album-subtitle");
            assert_eq!(t, artist);
        }
        _ => panic!("an open album says who it is by"),
    }
    music.crossing = None;
    music.back();
    music.crossing = None;
    music.change_tab(2);
    music.activate();
    assert!(matches!(music.subtitle(), Words::Message("artist-subtitle")));
}

#[test]
fn every_row_of_a_menu_says_what_it_does() {
    assert_eq!(menu_label(Menu::Sorting), "sort-by");
    assert_eq!(menu_label(Menu::SortBy(Order::Newest)), "order-newest");
    assert_eq!(menu_label(Menu::Play), "play");
    assert_eq!(menu_label(Menu::Enqueue), "add-queue");
    assert_eq!(menu_label(Menu::Favourite), "favourite");
    assert_eq!(menu_label(Menu::Unfavourite), "unfavourite");
    assert_eq!(menu_label(Menu::Remove), "remove-queue");
    assert_eq!(menu_label(Menu::AddFolder), "add-folder");
    assert_eq!(menu_label(Menu::Refresh), "refresh");
    assert_eq!(menu_label(Menu::Clear), "clear-queue");
}

#[test]
fn an_artist_on_the_wall_is_told_by_how_many_songs_it_has() {
    let mut music = Music::demo();
    music.change_tab(2);
    assert!(matches!(music.row_detail(&music.rows[0]), Words::Count("song-count", 4)));
    music.change_tab(1);
    let detail = music.row_detail(&music.rows[0]);
    assert!(matches!(detail, Words::Text(ref t) if *t == music.rows[0].detail && !t.is_empty()));
}

#[test]
fn every_transport_control_says_what_pressing_it_does() {
    let music = Music::demo();
    let keys = [
        "play", "pause", "mute", "unmute", "open-now-playing", "shuffle-on", "shuffle-off", "repeat-off",
        "repeat-all", "repeat-one", "previous", "next",
    ];
    for playing in [true, false] {
        for loud in [false, true] {
            for index in 0..TRANSPORT {
                let label = music.transport_label(index, playing, loud);
                assert!(!label.is_empty(), "{index} says nothing");
                assert!(keys.contains(&label), "{index} names no message of the catalog: {label}");
            }
        }
    }
}
