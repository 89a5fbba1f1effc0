use songonsole::text::{trim_text, white};
use songonsole::library::Order;
use songonsole::shelf::{sort_rows, SortKey};

fn key(name: &str, artist: &str, album: &str, added: u64) -> SortKey {
    SortKey { name: name.chars().collect(), artist: artist.chars().collect(), album: album.chars().collect(), added }
}

#[test]
fn every_order_falls_back_to_the_name_and_keeps_ties_as_found() {
    let keys = vec![
        key("b", "x", "2", 5),
        key("a", "y", "1", 5),
        key("a", "x", "2", 9),
        key("c", "x", "1", 1),
    ];
    assert_eq!(sort_rows(&keys, Order::Name), vec![1, 2, 0, 3]);
    assert_eq!(sort_rows(&keys, Order::NameReversed), vec![3, 0, 1, 2]);
    assert_eq!(sort_rows(&keys, Order::Artist), vec![2, 0, 3, 1]);
    assert_eq!(sort_rows(&keys, Order::Album), vec![1, 3, 2, 0]);
    assert_eq!(sort_rows(&keys, Order::Newest), vec![2, 1, 0, 3]);
    assert_eq!(sort_rows(&keys, Order::Oldest), vec![3, 1, 0, 2]);
}

#[test]
fn a_library_of_a_hundred_thousand_is_sorted_in_good_time() {
    let n = 100_000u64;
    let keys: Vec<SortKey> = (0..n)
        .map(|i| key(&format!("song {:05}", (i * 7919) % n), "artist", "album", i % 97))
        .collect();
    let perm = sort_rows(&keys, Order::NameReversed);
    assert_eq!(perm.len(), n as usize);
    for pair in perm.windows(2) {
        assert!(keys[pair[0]].name >= keys[pair[1]].name);
    }
    let perm = sort_rows(&keys, Order::Newest);
    for pair in perm.windows(2) {
        let (a, b) = (&keys[pair[0]], &keys[pair[1]]);
        assert!(a.added > b.added || (a.added == b.added && a.name <= b.name));
    }
}

#[test]
fn white_space_is_taken_off_both_ends_as_trim_takes_it() {
    let words = [
        "  Song  ",
        "\t\nSong\r",
        "\u{3000}Ideographic\u{a0}",
        "\u{2003}em space\u{205f}",
        "\u{200b}zero width is not white\u{200b}",
        "",
        "   ",
        "in the middle stays",
        "\u{85}next line\u{1680}",
    ];
    for word in words {
        assert_eq!(trim_text(word), word.trim(), "{word:?}");
    }
    for c in ['\u{0}', 'a', '\u{9}', '\u{e}', '\u{1f}', ' ', '\u{85}', '\u{a0}', '\u{1680}', '\u{180e}',
        '\u{2000}', '\u{200a}', '\u{200b}', '\u{2028}', '\u{2029}', '\u{202f}', '\u{205f}', '\u{3000}', '\u{feff}']
    {
        assert_eq!(white(c), c.is_whitespace(), "{c:?}");
    }
}
