use songonsole::library::Order;
use songonsole::music::{Direction, Music, Screen, Zone, BAR_POSITION, FIRST_BUTTON, NOW_PLAYING, RAIL_ROWS, TRANSPORT};

fn songs(music: &Music) -> Vec<usize> {
    let mut all: Vec<usize> = music.rows.iter().flat_map(|row| row.tracks.iter().copied()).collect();
    all.sort();
    all
}

#[test]
fn a_change_of_order_keeps_every_song() {
    for tab in 0..5 {
        let mut music = Music::demo();
        music.change_tab(tab);
        let before = songs(&music);
        for order in Order::all() {
            music.sort_by(order);
            assert_eq!(songs(&music), before, "tab {tab}, {order:?}");
            assert!(music.selected < music.rows.len().max(1));
        }
    }
}

#[test]
fn up_undoes_the_down_into_the_strip() {
    for from in [Zone::Library, Zone::Sidebar] {
        let mut music = Music::demo();
        music.zone = from;
        if from == Zone::Sidebar {
            music.rail = RAIL_ROWS - 1;
        } else {
            music.selected = music.rows.len() - 1;
        }
        music.navigate(Direction::Down);
        assert!(music.zone == Zone::Transport);
        assert_eq!(music.transport, NOW_PLAYING);
        music.navigate(Direction::Up);
        assert!(music.zone == from);
    }
}

#[test]
fn the_strip_is_entered_at_its_top_on_either_page() {
    let mut music = Music::demo();
    music.transport = TRANSPORT - 1;
    music.selected = music.rows.len() - 1;
    music.navigate(Direction::Down);
    assert_eq!(music.transport, NOW_PLAYING);
    music.screen = Screen::Playing;
    music.zone = Zone::Queue;
    music.queued = music.queue.entries.len() - 1;
    music.transport = FIRST_BUTTON + 2;
    music.navigate(Direction::Down);
    assert!(music.zone == Zone::Transport);
    assert_eq!(music.transport, BAR_POSITION);
}

#[test]
fn an_edge_goes_nowhere() {
    let mut music = Music::demo();
    music.zone = Zone::Sidebar;
    music.navigate(Direction::Left);
    assert!(music.zone == Zone::Sidebar);
    assert_eq!(music.rail, 0);
    music.navigate(Direction::Up);
    assert_eq!(music.rail, 0);
    music.zone = Zone::Transport;
    music.transport = FIRST_BUTTON;
    music.navigate(Direction::Left);
    assert_eq!(music.transport, FIRST_BUTTON);
    music.transport = TRANSPORT - 1;
    music.navigate(Direction::Right);
    assert_eq!(music.transport, TRANSPORT - 1);
    music.navigate(Direction::Down);
    assert_eq!(music.transport, TRANSPORT - 1);
}

#[test]
fn the_light_stays_on_the_screen() {
    let mut music = Music::demo();
    let moves = [Direction::Down, Direction::Right, Direction::Down, Direction::Left, Direction::Up, Direction::Down];
    for step in 0..200 {
        music.navigate(moves[step % moves.len()]);
        assert!(music.tab < 5);
        assert!(music.rail < RAIL_ROWS);
        assert!(music.transport < TRANSPORT);
        assert!(music.rows.is_empty() || music.selected < music.rows.len());
    }
}
