use songonsole::player::Generation;

#[derive(Clone, Debug, PartialEq, Default)]
struct Status {
    position: f64,
    playing: bool,
    ended: bool,
}

#[test]
fn late_reports_from_previous_song_cannot_end_the_new_song() {
    let generation = Generation { current: 1 };
    let status = generation.take_reports(
        Status::default(),
        vec![(0, Status { ended: true, ..Status::default() })],
    );
    assert!(!status.ended);
    let status = generation.take_reports(
        status,
        vec![(1, Status { playing: true, position: 2.0, ..Status::default() })],
    );
    assert!(status.playing);
    assert_eq!(status.position, 2.0);
}

#[test]
fn opening_a_song_moves_the_generation_on_and_round() {
    let mut g = Generation::new();
    assert_eq!(g.current, 0);
    assert_eq!(g.advance(), 1);
    assert!(g.accepts(1));
    assert!(!g.accepts(0));
    let mut top = Generation { current: u64::MAX };
    assert_eq!(top.advance(), 0);
}

#[test]
fn the_last_report_of_this_generation_is_the_one_believed() {
    let g = Generation { current: 3 };
    let status = g.take_reports(
        Status::default(),
        vec![
            (3, Status { position: 1.0, ..Status::default() }),
            (2, Status { position: 9.0, ..Status::default() }),
            (3, Status { position: 2.0, ..Status::default() }),
            (4, Status { position: 7.0, ..Status::default() }),
        ],
    );
    assert_eq!(status.position, 2.0);
    let unchanged = g.take_reports(Status { playing: true, ..Status::default() }, Vec::new());
    assert!(unchanged.playing);
}

#[test]
fn the_end_of_a_song_moves_the_queue_on_once() {
    let mut music = songonsole::music::Music::demo();
    assert_eq!(music.song_over(false, false), (false, false));
    assert_eq!(music.queue.position, Some(0));
    assert_eq!(music.song_over(true, false), (true, true));
    assert_eq!(music.queue.position, Some(1));
    assert_eq!(music.song_over(true, true), (true, false), "the same end is taken once");
    assert_eq!(music.queue.position, Some(1));
    music.queue.select(11);
    assert_eq!(music.song_over(true, false), (true, false), "nothing after the last song");
    assert_eq!(music.queue.position, Some(11));
}
