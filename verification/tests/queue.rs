use songonsole::queue::{Queue, Repeat};

#[test]
fn end_and_repeat_have_distinct_behaviour() {
    let mut q = Queue::default();
    q.replace(vec![10, 20], 1);
    assert_eq!(q.next(true), None);
    q.repeat = Repeat::One;
    assert_eq!(q.next(true), Some(20));
    assert_eq!(q.next(false), Some(10));
    q.repeat = Repeat::All;
    assert_eq!(q.next(true), Some(20));
    assert_eq!(q.next(true), Some(10));
}

#[test]
fn shuffle_visits_each_occurrence_once_and_previous_retraces() {
    let mut q = Queue::default();
    q.shuffle = true;
    q.seed = 42;
    q.replace(vec![0, 1, 2, 3], 0);
    let mut played = vec![0];
    while let Some(track) = q.next(true) {
        played.push(track);
    }
    let prior = played[2];
    played.sort();
    assert_eq!(played, vec![0, 1, 2, 3]);
    assert_eq!(q.previous(), Some(prior));
}

#[test]
fn removal_preserves_current_occurrence() {
    let mut q = Queue::default();
    q.replace(vec![8, 8, 9], 1);
    assert!(!q.remove(0));
    assert_eq!(q.current(), Some(8));
    assert!(q.remove(0));
    assert_eq!(q.current(), Some(9));
    assert!(q.remove(0));
    assert_eq!(q.current(), None);
}

#[test]
fn repeat_comes_round_after_three_presses() {
    let mut r = Repeat::Off;
    r = r.cycle();
    assert_eq!(r, Repeat::All);
    r = r.cycle();
    assert_eq!(r, Repeat::One);
    r = r.cycle();
    assert_eq!(r, Repeat::Off);
}

#[test]
fn a_queue_starts_empty_and_off() {
    let q = Queue::default();
    assert!(q.entries.is_empty());
    assert_eq!(q.current(), None);
    assert!(!q.shuffle);
    assert_eq!(q.repeat, Repeat::Off);
}

#[test]
fn replacing_past_the_end_leaves_nothing_current() {
    let mut q = Queue::default();
    q.replace(vec![4, 5], 2);
    assert_eq!(q.current(), None);
    q.replace(vec![4, 5], 0);
    assert_eq!(q.current(), Some(4));
}

#[test]
fn appending_keeps_what_is_playing() {
    let mut q = Queue::default();
    q.replace(vec![1, 2], 1);
    q.append(7);
    assert_eq!(q.entries, vec![1, 2, 7]);
    assert_eq!(q.current(), Some(2));
    assert_eq!(q.next(false), Some(7));
}

#[test]
fn selecting_moves_the_position() {
    let mut q = Queue::default();
    q.replace(vec![1, 2, 3], 0);
    q.select(2);
    assert_eq!(q.current(), Some(3));
    assert_eq!(q.position, Some(2));
}

#[test]
fn previous_at_the_head_stays_there() {
    let mut q = Queue::default();
    q.replace(vec![1, 2, 3], 0);
    assert_eq!(q.previous(), Some(1));
    assert_eq!(q.current(), Some(1));
    let mut empty = Queue::default();
    assert_eq!(empty.previous(), None);
}

#[test]
fn previous_undoes_next() {
    let mut q = Queue::default();
    q.replace(vec![5, 6, 7], 0);
    assert_eq!(q.next(false), Some(6));
    assert_eq!(q.previous(), Some(5));
    assert_eq!(q.current(), Some(5));
}

#[test]
fn removing_the_one_playing_moves_on_to_the_next() {
    let mut q = Queue::default();
    q.replace(vec![1, 2, 3], 1);
    assert!(q.remove(1));
    assert_eq!(q.entries, vec![1, 3]);
    assert_eq!(q.current(), Some(3));
    assert!(!q.remove(5));
    assert_eq!(q.entries, vec![1, 3]);
}

#[test]
fn a_shuffled_round_plays_every_occurrence_of_a_repeated_song() {
    let mut q = Queue::default();
    q.shuffle = true;
    q.seed = 7;
    q.replace(vec![3, 3, 5], 0);
    let mut played = vec![3];
    while let Some(track) = q.next(true) {
        played.push(track);
    }
    played.sort();
    assert_eq!(played, vec![3, 3, 5]);
}

#[test]
fn a_shuffled_queue_left_to_itself_plays_every_place_once_from_any_start() {
    for seed in [1u64, 2, 99, 123_456_789] {
        let mut q = Queue::default();
        q.shuffle = true;
        q.seed = seed;
        q.replace(vec![10, 11, 12, 13, 14, 15], 2);
        let mut places = vec![q.position.unwrap()];
        let mut ends = 0;
        while let Some(track) = q.next(true) {
            ends += 1;
            let at = q.position.unwrap();
            assert_eq!(track, q.entries[at]);
            places.push(at);
        }
        assert_eq!(ends, 5);
        assert_eq!(places[0], 2);
        let last = q.position;
        assert_eq!(q.next(true), None);
        assert_eq!(q.position, last);
        places.sort();
        assert_eq!(places, vec![0, 1, 2, 3, 4, 5]);
    }
}
