use songonsole::music::{Music, Screen, Zone, BAR_LOUDNESS, BAR_POSITION, FIRST_BUTTON, NOW_PLAYING, RAIL_ADD_FOLDER, RAIL_OPTIONS, TRANSPORT};
use songonsole::spots::{
    hint_at, spot, target, Pointed, Target, ADD_FOLDER, ADD_FOLDER_HERE, CONTROL, HEADING, HINTS, LEGEND,
    OPTIONS, POSITION, QUEUED, QUEUE_SLOTS, ROW, STRIP, TAB, VOLUME,
};

#[test]
fn the_up_next_rows_are_numbered_clear_of_everything_else() {
    assert!(QUEUED > CONTROL + TRANSPORT as u32);
    assert!(QUEUED + 12 < ROW);
}

#[test]
fn every_place_is_found_again_by_its_number() {
    let mut places = vec![
        Target::AddFolder,
        Target::Options,
        Target::Heading,
        Target::Strip,
        Target::Volume,
        Target::Position,
        Target::AddFolderHere,
        Target::Row(0),
        Target::Row(2500),
    ];
    for k in 0..5 {
        places.push(Target::Tab(k));
    }
    for k in 0..TRANSPORT {
        places.push(Target::Control(k));
    }
    for k in 0..QUEUE_SLOTS as usize {
        places.push(Target::Queued(k));
    }
    let mut numbers = Vec::new();
    for place in &places {
        let number = spot(*place).expect("a place with a number");
        assert_eq!(target(number), Some(*place));
        numbers.push(number);
    }
    numbers.sort();
    numbers.dedup();
    assert_eq!(numbers.len(), places.len(), "two places share a number");
}

#[test]
fn the_numbers_are_the_ones_the_pages_write() {
    assert_eq!(spot(Target::Tab(2)), Some(TAB + 2));
    assert_eq!(spot(Target::Control(6)), Some(CONTROL + 6));
    assert_eq!(spot(Target::AddFolder), Some(ADD_FOLDER));
    assert_eq!(spot(Target::Options), Some(OPTIONS));
    assert_eq!(spot(Target::Heading), Some(HEADING));
    assert_eq!(spot(Target::Strip), Some(STRIP));
    assert_eq!(spot(Target::Volume), Some(VOLUME));
    assert_eq!(spot(Target::Position), Some(POSITION));
    assert_eq!(spot(Target::AddFolderHere), Some(ADD_FOLDER_HERE));
    assert_eq!(spot(Target::Queued(3)), Some(QUEUED + 3));
    assert_eq!(spot(Target::Row(7)), Some(ROW + 7));
    assert_eq!(spot(Target::Tab(5)), None);
    assert_eq!(spot(Target::Control(TRANSPORT)), None);
    assert_eq!(spot(Target::Queued(QUEUE_SLOTS as usize)), None);
    assert_eq!(target(0), None);
    assert_eq!(target(TAB + 5), None);
    assert_eq!(target(QUEUED + QUEUE_SLOTS), None);
    assert_eq!(target(LEGEND - 1), Some(Target::Row((LEGEND - 1 - ROW) as usize)));
    assert_eq!(target(LEGEND), None);
    assert_eq!(target(u32::MAX), None);
    assert_eq!(spot(Target::Row((LEGEND - ROW) as usize)), None);
}

#[test]
fn a_pointer_on_a_shelf_opens_it_with_the_light_on_the_rail() {
    let mut music = Music::demo();
    assert!(matches!(music.point_at(Target::Tab(1), false, false), Pointed::Shelf));
    assert_eq!(music.tab, 1);
    assert_eq!(music.rail, 1);
    assert!(music.zone == Zone::Sidebar);
    assert!(matches!(music.point_at(Target::Tab(9), false, false), Pointed::Ignored));
    assert_eq!(music.tab, 1);
}

#[test]
fn a_pointer_on_the_rail_buttons_asks_for_a_folder_and_never_the_menu() {
    let mut music = Music::demo();
    assert!(matches!(music.point_at(Target::AddFolder, false, false), Pointed::PickFolder));
    assert_eq!(music.rail, RAIL_ADD_FOLDER);
    assert!(music.zone == Zone::Sidebar);
    assert!(matches!(music.point_at(Target::Options, false, false), Pointed::Moved));
    assert_eq!(music.rail, RAIL_OPTIONS);
    assert!(music.zone == Zone::Sidebar);
    assert!(music.menu.is_empty());
    assert!(matches!(music.point_at(Target::AddFolderHere, false, false), Pointed::PickFolder));
    assert!(music.zone == Zone::Library);
}

#[test]
fn a_pointer_on_a_bar_puts_the_light_on_it() {
    let mut music = Music::demo();
    assert!(matches!(music.point_at(Target::Volume, false, false), Pointed::Loudness));
    assert_eq!(music.transport, BAR_LOUDNESS);
    assert!(music.zone == Zone::Transport);
    assert!(matches!(music.point_at(Target::Position, false, false), Pointed::Seek));
    assert_eq!(music.transport, BAR_POSITION);
}

#[test]
fn a_pointer_on_the_record_opens_now_playing() {
    let mut music = Music::demo();
    assert!(matches!(music.point_at(Target::Strip, false, false), Pointed::Opened(true)));
    assert!(music.screen == Screen::Playing);
    assert!(music.transport >= BAR_POSITION);
    assert!(matches!(music.point_at(Target::Strip, false, false), Pointed::Ignored), "a crossing takes no presses");
    music.crossing = None;
    assert!(matches!(music.point_at(Target::Strip, false, false), Pointed::Opened(false)));
    assert_eq!(music.transport, NOW_PLAYING);
}

#[test]
fn a_pointer_on_the_up_next_list_plays_from_there() {
    let mut music = Music::demo();
    assert!(matches!(music.point_at(Target::Queued(4), false, false), Pointed::Queued(true)));
    assert_eq!(music.queue.position, Some(4));
    assert!(music.zone == Zone::Queue);
    assert_eq!(music.queued, 4);
    assert!(matches!(music.point_at(Target::Queued(99), false, false), Pointed::Queued(false)));
    assert_eq!(music.queue.position, Some(4));
}

#[test]
fn a_pointer_on_a_button_of_the_strip_presses_it() {
    let mut music = Music::demo();
    let pressed = music.point_at(Target::Control(FIRST_BUTTON), false, false);
    assert!(matches!(pressed, Pointed::Pressed(songonsole::acts::Pressed::Shuffle)));
    assert!(music.queue.shuffle);
    assert_eq!(music.transport, FIRST_BUTTON);
    assert!(matches!(music.point_at(Target::Control(BAR_POSITION), false, false), Pointed::Ignored));
}

#[test]
fn a_pointer_on_a_row_chooses_it() {
    let mut music = Music::demo();
    music.change_tab(1);
    assert!(matches!(
        music.point_at(Target::Row(2), false, false),
        Pointed::Chose(songonsole::acts::Activated::Group(_))
    ));
    assert!(music.group.is_some());
    music.crossing = None;
    assert!(matches!(music.point_at(Target::Heading, false, false), Pointed::Left(Some(_))));
    assert!(music.group.is_none());
    assert_eq!(music.selected, 2);
}

#[test]
fn no_control_number_can_reach_the_legends_own() {
    for base in [TAB, CONTROL, ADD_FOLDER, OPTIONS, HEADING, STRIP, QUEUED, ROW] {
        assert!(base < LEGEND);
    }
    // A page draws what fits on it, so the highest row it can number is
    // bounded by the rows it drew and not by the size of the library.
    assert!(ROW + 512 < LEGEND);
}

#[test]
fn the_legend_numbers_its_hints_from_its_own_base() {
    assert_eq!(hint_at(LEGEND), Some(0));
    assert_eq!(hint_at(LEGEND + 3), Some(3));
    assert_eq!(hint_at(LEGEND + HINTS), None);
    assert_eq!(hint_at(LEGEND - 1), None);
    assert_eq!(hint_at(ROW + 7), None);
}
