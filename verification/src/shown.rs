//! Which rows a page draws: the browser and the up-next list each hold so
//! many, and the row the light is on is always one of them.
use vstd::prelude::*;

verus! {

/// `a - b`, or nought where `b` is the larger.
pub open spec fn less(a: int, b: int) -> int {
    if a > b {
        a - b
    } else {
        0
    }
}

/// The first row of the browser drawn, given the row chosen. A list holds
/// `shown` rows; a wall holds `shown` records, `columns` to a line.
pub open spec fn first_row(selected: int, grid: bool, columns: int, shown: int) -> int {
    if grid {
        less(selected / columns, shown / columns - 1) * columns
    } else {
        less(selected, shown - 1)
    }
}

/// The first row of the browser drawn, given the row chosen. A wall starts
/// at the head of a line, and scrolls a line at a time.
pub fn first_shown(selected: usize, grid: bool, columns: usize, shown: usize) -> (first: usize)
    requires
        shown >= 1,
        grid ==> 1 <= columns <= shown,
    ensures
        first == first_row(selected as int, grid, columns as int, shown as int),
        first <= selected < first + shown,
        grid ==> first % columns == 0,
{
    if grid {
        let line = selected / columns;
        let lines = shown / columns;
        assert(lines >= 1) by (nonlinear_arith)
            requires
                1 <= columns <= shown,
                lines == shown / columns,
        ;
        let back = lines - 1;
        let top = if line > back {
            line - back
        } else {
            0
        };
        proof {
            lemma_a_line_holds_the_chosen_record(selected as int, columns as int, shown as int, top as int);
        }
        top * columns
    } else if selected > shown - 1 {
        selected - (shown - 1)
    } else {
        0
    }
}

proof fn lemma_a_line_holds_the_chosen_record(selected: int, columns: int, shown: int, top: int)
    requires
        0 <= selected,
        1 <= columns <= shown,
        top == less(selected / columns, shown / columns - 1),
    ensures
        top * columns <= selected < top * columns + shown,
        (top * columns) % columns == 0,
{
    let line = selected / columns;
    let lines = shown / columns;
    assert(lines >= 1) by (nonlinear_arith)
        requires
            1 <= columns <= shown,
            lines == shown / columns,
    ;
    assert(line * columns <= selected < line * columns + columns) by (nonlinear_arith)
        requires
            0 <= selected,
            1 <= columns,
            line == selected / columns,
    ;
    assert(lines * columns <= shown) by (nonlinear_arith)
        requires
            1 <= columns,
            0 <= shown,
            lines == shown / columns,
    ;
    assert(top <= line);
    assert(top * columns <= line * columns) by (nonlinear_arith)
        requires
            top <= line,
            1 <= columns,
    ;
    assert(line <= top + lines - 1);
    assert(line * columns <= (top + lines - 1) * columns) by (nonlinear_arith)
        requires
            line <= top + lines - 1,
            1 <= columns,
    ;
    assert((top + lines - 1) * columns == top * columns + lines * columns - columns) by (nonlinear_arith);
    assert((top * columns) % columns == 0) by (nonlinear_arith)
        requires
            1 <= columns,
            0 <= top,
    ;
}

/// The first row of the up-next list drawn. The list is the songs after the
/// one playing, from `from` on in the queue; it holds `shown` rows, and has
/// `count` to show.
pub open spec fn first_queued(queued: int, from: int, shown: int, count: int) -> int {
    let start = less(less(queued, from), less(shown, 1));
    let last = less(count, 1);
    if start < last {
        start
    } else {
        last
    }
}

/// The first row of the up-next list drawn, given where the light is in the
/// queue.
pub fn first_up_next(queued: usize, from: usize, shown: usize, count: usize) -> (start: usize)
    ensures
        start == first_queued(queued as int, from as int, shown as int, count as int),
        shown >= 1 && from <= queued < from + count ==> start <= queued - from < start + shown,
{
    let into = if queued > from {
        queued - from
    } else {
        0
    };
    let back = if shown > 1 {
        shown - 1
    } else {
        0
    };
    let start = if into > back {
        into - back
    } else {
        0
    };
    let last = if count > 1 {
        count - 1
    } else {
        0
    };
    if start < last {
        start
    } else {
        last
    }
}

/// Where the up-next list starts in the queue: after the song playing, or at
/// the head where nothing is.
pub fn up_next_from(position: Option<usize>, len: usize) -> (from: usize)
    requires
        position matches Some(p) ==> p < len,
    ensures
        from == match position {
            Some(p) => p + 1,
            None => 0,
        },
        from <= len,
{
    match position {
        Some(p) => p + 1,
        None => 0,
    }
}

} // verus!
