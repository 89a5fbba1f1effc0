use songonsole::acts::Pressed;
use songonsole::library::Order;
use songonsole::music::{
    Direction, Menu, Music, Screen, Walked, Zone, BAR_LOUDNESS, BAR_POSITION, FIRST_BUTTON,
    NOW_PLAYING, RAIL_ADD_FOLDER, RAIL_OPTIONS, RAIL_ROWS, TABS, TRANSPORT,
};

#[test]
fn browsing_does_not_replace_the_playing_queue() {
    let mut music = Music::demo();
    let playing = music.queue.entries.clone();
    music.change_tab(1);
    music.activate();
    assert!(music.group.is_some());
    assert_eq!(music.queue.entries, playing);
    assert_eq!(music.queue.current(), Some(0));
    music.crossing = None;
    music.selected = 1;
    music.activate();
    assert_eq!(music.queue.entries.len(), 4);
    assert_eq!(music.queue.position, Some(1));
}

#[test]
fn every_transport_control_is_reachable_and_navigation_is_bounded() {
    let mut music = Music::demo();
    music.zone = Zone::Transport;
    music.transport = TRANSPORT - 1;
    music.zone = Zone::Library;
    for _ in 0..100 {
        if music.zone == Zone::Transport {
            break;
        }
        music.navigate(Direction::Down);
    }
    assert_eq!(
        music.transport, NOW_PLAYING,
        "Down into the strip has to land on the same row every time"
    );
    for _ in 0..20 {
        music.navigate(Direction::Down);
    }
    assert_eq!(music.transport, FIRST_BUTTON, "and Down stops at the row of buttons");
    for _ in 0..20 {
        music.navigate(Direction::Right);
    }
    assert_eq!(music.transport, TRANSPORT - 1);
    for expected in [BAR_LOUDNESS, BAR_POSITION, NOW_PLAYING] {
        music.navigate(Direction::Up);
        assert_eq!(music.transport, expected);
        assert!(music.zone == Zone::Transport);
    }
    music.navigate(Direction::Up);
    assert!(music.zone == Zone::Library, "Up off the strip undoes the Down that got there");
    music.navigate(Direction::Left);
    assert!(music.zone == Zone::Sidebar);
    for _ in 0..20 {
        music.navigate(Direction::Up);
    }
    assert_eq!(music.rail, 0);
    assert_eq!(music.tab, 0);
    music.navigate(Direction::Right);
    assert!(music.zone == Zone::Library);
}

#[test]
fn the_two_buttons_at_the_foot_of_the_rail_are_rows_of_it() {
    let mut music = Music::demo();
    music.zone = Zone::Sidebar;
    for row in 1..RAIL_ROWS {
        music.navigate(Direction::Down);
        assert_eq!(music.rail, row);
        assert!(music.zone == Zone::Sidebar, "row {row} fell off the rail");
    }
    assert_eq!(music.rail, RAIL_OPTIONS);
    assert_eq!(music.tab, TABS.len() - 1);

    music.navigate(Direction::Down);
    assert!(music.zone == Zone::Transport);
    assert_eq!(music.transport, NOW_PLAYING);
    music.navigate(Direction::Up);
    assert!(
        music.zone == Zone::Sidebar,
        "Up off the strip went somewhere the light did not come from"
    );
    assert_eq!(music.rail, RAIL_OPTIONS);

    music.navigate(Direction::Up);
    assert_eq!(music.rail, RAIL_ADD_FOLDER);
    assert_eq!(music.tab, TABS.len() - 1);
    music.navigate(Direction::Up);
    assert_eq!(music.rail, TABS.len() - 1);
    assert_eq!(music.tab, TABS.len() - 1);
}

#[test]
fn a_direction_along_a_bar_moves_the_bar_and_not_the_light() {
    let mut music = Music::demo();
    music.zone = Zone::Transport;
    music.transport = BAR_LOUDNESS;
    for _ in 0..4 {
        assert_eq!(music.navigate(Direction::Right), Walked::Loudness(1));
    }
    assert_eq!(music.transport, BAR_LOUDNESS, "the light stayed on the bar");
    for _ in 0..40 {
        assert_eq!(music.navigate(Direction::Left), Walked::Loudness(-1));
    }
    assert_eq!(music.transport, BAR_LOUDNESS);
    assert!(music.zone == Zone::Transport);
}

#[test]
fn same_album_title_from_different_artists_stays_separate() {
    let mut music = Music::demo();
    music.tracks[4].album = music.tracks[0].album.clone();
    music.change_tab(1);
    assert_eq!(
        music.rows.iter().filter(|row| row.label == "The quiet hours").count(),
        2
    );
}

#[test]
fn favourites_filter_and_duplicate_queue_occurrences_are_preserved() {
    let mut music = Music::demo();
    music.change_tab(3);
    assert_eq!(music.rows.len(), 1);
    music.queue.replace(vec![3, 3, 5], 0);
    music.change_tab(4);
    music.selected = 1;
    music.activate();
    assert_eq!(music.queue.position, Some(1));
    assert_eq!(music.rows.len(), 3);
}

#[test]
fn leaving_an_album_goes_back_into_its_own_card() {
    let mut music = Music::demo();
    music.change_tab(1);
    let wanted = music.rows[1].label.clone();
    music.selected = 1;
    music.activate();
    music.crossing = None;
    assert!(music.group.is_some());
    let songs = music.rows.len();
    let left = music.leave_group().expect("an album was open");
    assert!(music.crossing.is_some(), "a crossing back");
    assert_eq!(left.rows.len(), songs);
    assert_eq!(music.rows[music.selected].label, wanted);
}

#[test]
fn the_now_playing_page_has_two_places_to_be() {
    let mut music = Music::demo();
    music.screen = Screen::Playing;
    music.zone = Zone::Transport;
    music.transport = BAR_POSITION;
    music.navigate(Direction::Up);
    assert!(music.zone == Zone::Queue);
    assert_eq!(
        music.queued,
        music.queue.entries.len() - 1,
        "the row of the queue nearest the strip"
    );
    music.navigate(Direction::Left);
    assert!(music.zone == Zone::Transport);
    assert_eq!(music.transport, BAR_POSITION);
    music.zone = Zone::Queue;
    music.queued = music.queue.entries.len() - 1;
    music.navigate(Direction::Down);
    assert!(music.zone == Zone::Transport);
    assert_eq!(music.transport, BAR_POSITION);
    music.queue.replace(Vec::new(), 0);
    music.zone = Zone::Transport;
    music.transport = BAR_POSITION;
    music.navigate(Direction::Up);
    assert!(music.zone == Zone::Transport);
}

#[test]
fn the_now_playing_strip_walks_the_same_way_and_still_reaches_the_queue() {
    let mut music = Music::demo();
    music.selected = 0;
    music.activate();
    music.crossing = None;
    assert!(music.screen == Screen::Playing);
    music.zone = Zone::Transport;

    music.transport = BAR_POSITION;
    music.navigate(Direction::Down);
    assert_eq!(music.transport, BAR_LOUDNESS);
    music.navigate(Direction::Down);
    assert_eq!(music.transport, FIRST_BUTTON);
    music.navigate(Direction::Up);
    assert_eq!(music.transport, BAR_LOUDNESS);

    music.navigate(Direction::Right);
    assert!(music.zone == Zone::Transport, "a bar handed the light away");
    assert_eq!(music.transport, BAR_LOUDNESS);

    music.transport = TRANSPORT - 1;
    music.navigate(Direction::Right);
    assert!(music.zone == Zone::Transport);
    assert_eq!(music.transport, TRANSPORT - 1);
}

#[test]
fn the_record_at_the_head_of_the_strip_opens_now_playing() {
    let mut music = Music::demo();
    music.zone = Zone::Transport;
    music.transport = FIRST_BUTTON;
    for expected in [BAR_LOUDNESS, BAR_POSITION, NOW_PLAYING] {
        music.navigate(Direction::Up);
        assert_eq!(music.transport, expected);
    }
    assert!(music.screen == Screen::Library);
    music.transport_action(NOW_PLAYING, false, false);
    assert!(music.screen == Screen::Playing);
    assert!(music.transport >= BAR_POSITION);
    music.crossing = None;
    music.navigate(Direction::Up);
    assert_eq!(
        music.transport, BAR_POSITION,
        "there is nothing above the position bar on the Now Playing page"
    );
}

#[test]
fn the_shelves_are_listed_in_the_order_that_was_asked_for() {
    let mut music = Music::demo();
    let names = |music: &Music| -> Vec<String> { music.rows.iter().map(|row| row.label.clone()).collect() };

    music.change_tab(0);
    let forwards = names(&music);
    let mut sorted = forwards.clone();
    sorted.sort_by_key(|name| name.to_lowercase());
    assert_eq!(forwards, sorted, "Songs comes up by name");

    music.order = Order::NameReversed;
    music.rebuild();
    let mut backwards = names(&music);
    backwards.reverse();
    assert_eq!(backwards, forwards, "and turns round when it is asked to");

    music.order = Order::NameReversed;
    music.change_tab(4);
    let queued: Vec<usize> = music.rows.iter().filter_map(|row| row.tracks.first().copied()).collect();
    assert_eq!(queued, music.queue.entries, "the queue was sorted");

    music.change_tab(1);
    music.selected = 0;
    music.activate();
    music.crossing = None;
    assert!(music.group.is_some());
    let numbers: Vec<u32> = music
        .rows
        .iter()
        .filter_map(|row| row.tracks.first().map(|i| music.tracks[*i].number))
        .collect();
    let mut climbing = numbers.clone();
    climbing.sort_unstable();
    assert_eq!(numbers, climbing, "the album was sorted out of its own order");
}

#[test]
fn the_light_follows_the_song_across_a_change_of_order() {
    let mut music = Music::demo();
    music.change_tab(0);
    music.selected = 3;
    let was = music.rows[3].tracks[0];
    music.sort_by(Order::NameReversed);
    assert_eq!(music.rows[music.selected].tracks[0], was);
}

#[test]
fn the_menu_offers_an_order_where_an_order_means_something() {
    let mut music = Music::demo();
    music.change_tab(0);

    let marked = music.menu_rows();
    assert_eq!(music.menu[0], Menu::Sorting, "sorting leads the menu");
    assert_eq!(marked, usize::MAX, "nothing in Options is an answer");
    for order in Order::all() {
        assert!(
            !music.menu.contains(&Menu::SortBy(order)),
            "an order is loose in the Options menu: {}",
            order.label()
        );
    }

    let marked = music.order_rows();
    assert_eq!(music.menu.len(), Order::all().len());
    for (at, order) in Order::all().iter().enumerate() {
        match music.menu[at] {
            Menu::SortBy(offered) => assert_eq!(offered.label(), order.label()),
            other => panic!("row {at} of the orders is {other:?}"),
        }
    }
    assert_eq!(marked, 0, "Name is the order it starts in, and is ticked");

    music.sort_by(Order::Oldest);
    let marked = music.order_rows();
    assert_eq!(marked, Order::all().len() - 1);

    music.change_tab(4);
    music.menu_rows();
    assert!(!music.can_sort(), "the queue was offered an order");
    assert!(!music.menu.contains(&Menu::Sorting));

    music.change_tab(1);
    music.selected = 0;
    music.activate();
    music.crossing = None;
    music.menu_rows();
    assert!(!music.can_sort(), "an album was offered an order");
    assert!(!music.menu.contains(&Menu::Sorting));
}

#[test]
fn the_row_that_opens_the_orders_names_them() {
    let mut music = Music::demo();
    music.change_tab(0);
    music.menu_rows();
    let at = music
        .menu
        .iter()
        .position(|row| *row == Menu::Sorting)
        .expect("there is a row for sorting");
    assert!(matches!(music.menu[at], Menu::Sorting));
    music.order_rows();
    for act in &music.menu {
        assert!(matches!(act, Menu::SortBy(_)));
    }
}

#[test]
fn no_row_of_the_menu_closes_the_application() {
    let mut music = Music::demo();
    for tab in 0..TABS.len() {
        music.change_tab(tab);
        for screen in [Screen::Library, Screen::Playing] {
            music.screen = screen;
            music.menu_rows();
            assert!(!music.menu.is_empty(), "tab {tab} has an empty menu");
            for act in &music.menu {
                match act {
                    Menu::Sorting
                    | Menu::SortBy(_)
                    | Menu::Play
                    | Menu::Enqueue
                    | Menu::Favourite
                    | Menu::Unfavourite
                    | Menu::Remove
                    | Menu::AddFolder
                    | Menu::Refresh
                    | Menu::Clear => {}
                }
            }
        }
    }
}

#[test]
fn shuffle_and_repeat_are_buttons_of_the_strip() {
    let mut music = Music::demo();
    assert!(matches!(music.transport_action(FIRST_BUTTON, false, false), Pressed::Shuffle));
    assert!(music.queue.shuffle);
    assert!(matches!(music.transport_action(FIRST_BUTTON + 1, false, false), Pressed::Repeat));
    assert_eq!(music.queue.repeat, songonsole::queue::Repeat::All);
    assert!(matches!(music.transport_action(FIRST_BUTTON + 2, true, false), Pressed::SeekToStart));
    assert!(matches!(music.transport_action(BAR_LOUDNESS, false, false), Pressed::Mute));
    assert!(matches!(music.transport_action(TRANSPORT, false, false), Pressed::Nothing));
}

#[test]
fn the_demo_library_is_three_records_of_four_songs() {
    let music = Music::demo();
    assert_eq!(music.tracks.len(), 12);
    assert_eq!(music.album_count(), 3);
    assert_eq!(music.tracks[0].title, "First light");
    assert_eq!(music.tracks[0].album, "The quiet hours");
    assert_eq!(music.tracks[0].album_artist, "Juniper Coast");
    assert_eq!(music.tracks[0].path, "/preview/Juniper Coast/First light.flac");
    assert_eq!(music.tracks[5].title, "Blue hour");
    assert_eq!(music.tracks[5].artist, "Mira Sol");
    assert_eq!(music.tracks[5].number, 2);
    assert_eq!(music.tracks[11].title, "Stay awhile");
    assert_eq!(music.tracks[11].album, "Outside / Inside");
    assert_eq!(music.tracks[11].number, 4);
    assert_eq!(music.tracks[11].added, 1_700_000_000 + 11 * 3_600);
    assert!(music.tracks.iter().all(|t| t.disc == 1 && t.cover.is_none()));
    assert_eq!(music.favourites, vec![music.tracks[0].path.clone()]);
}
