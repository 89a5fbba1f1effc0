use songonsole::shown::{first_shown, first_up_next, up_next_from};

#[test]
fn the_chosen_row_is_always_one_the_browser_drew() {
    for rows in [1usize, 2, 5, 7, 13] {
        for library in [1usize, 3, 7, 40, 100_000] {
            for selected in [0, library / 2, library - 1] {
                let start = first_shown(selected, false, 1, rows);
                assert!(selected >= start && selected - start < rows);
            }
        }
    }
    for columns in [2usize, 3, 7] {
        for lines in [1usize, 2, 4] {
            let cells = columns * lines;
            for library in [1usize, 3, 7, 40, 100_000] {
                for selected in [0, library / 2, library - 1] {
                    let start = first_shown(selected, true, columns, cells);
                    assert_eq!(start % columns, 0, "a wall starts part way along a line");
                    assert!(selected >= start && selected - start < cells);
                }
            }
        }
    }
}

#[test]
fn a_list_scrolls_only_as_far_as_the_light_asks() {
    assert_eq!(first_shown(3, false, 1, 7), 0);
    assert_eq!(first_shown(6, false, 1, 7), 0);
    assert_eq!(first_shown(7, false, 1, 7), 1);
    assert_eq!(first_shown(20, false, 1, 7), 14);
    assert_eq!(first_shown(20, true, 4, 8), 16);
    assert_eq!(first_shown(5, true, 4, 8), 0);
    assert_eq!(first_shown(8, true, 4, 8), 4);
}

#[test]
fn the_up_next_list_keeps_the_light_in_view() {
    assert_eq!(up_next_from(Some(2), 10), 3);
    assert_eq!(up_next_from(None, 10), 0);
    let from = up_next_from(Some(0), 30);
    for queued in from..30 {
        let start = first_up_next(queued, from, 12, 30 - from);
        assert!(start <= queued - from && queued - from < start + 12);
    }
    assert_eq!(first_up_next(5, 3, 12, 20), 0);
    assert_eq!(first_up_next(20, 3, 12, 20), 6);
    assert_eq!(first_up_next(0, 3, 12, 0), 0);
}
