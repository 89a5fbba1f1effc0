//! What holds of every walk of the light.
use vstd::prelude::*;
use crate::music::{
    Around, Direction, Screen, Spot, Walked, Zone, walk, strip_top_of, BAR_LOUDNESS,
    BAR_POSITION, FIRST_BUTTON, RAIL_ROWS, TAB_COUNT, TRANSPORT,
};

verus! {

/// The light stands somewhere the screen really has: a shelf, a row of the
/// rail, a row of the strip; the Now Playing page's own two zones on that
/// page, and the library's on the library.
pub open spec fn coherent(s: Spot) -> bool {
    &&& s.tab < TAB_COUNT
    &&& s.rail < RAIL_ROWS
    &&& s.rail < TAB_COUNT ==> s.rail == s.tab
    &&& s.transport < TRANSPORT
    &&& s.strip_from != Zone::Transport
    &&& s.screen == Screen::Playing ==> (s.zone == Zone::Transport || s.zone == Zone::Queue)
        && s.transport >= BAR_POSITION
    &&& s.screen == Screen::Library ==> s.zone != Zone::Queue && s.strip_from != Zone::Queue
}

/// The place the light stands, leaving aside which row of the strip it would
/// come back to.
pub open spec fn same_place(a: Spot, b: Spot) -> bool {
    &&& a.screen == b.screen
    &&& a.zone == b.zone
    &&& a.tab == b.tab
    &&& a.rail == b.rail
    &&& a.selected == b.selected
    &&& a.queued == b.queued
}

/// Every direction leaves the light somewhere the screen really has, and a
/// light on a row of the browser stays on a row of it unless a shelf changed.
pub proof fn law_the_light_stays_on_the_screen(s: Spot, a: Around, d: Direction)
    requires
        coherent(s),
    ensures
        coherent(walk(s, a, d).0),
        walk(s, a, d).0.screen == s.screen,
        s.selected < a.rows && walk(s, a, d).1 != Walked::Shelf ==> walk(s, a, d).0.selected
            < a.rows,
{
}

/// Into the strip is always onto the top of it, whatever the light was on
/// there last, and the strip remembers what handed it the light.
pub proof fn law_the_strip_is_entered_at_its_top(s: Spot, a: Around, d: Direction)
    requires
        coherent(s),
        s.zone != Zone::Transport,
        walk(s, a, d).0.zone == Zone::Transport,
    ensures
        walk(s, a, d).0.transport == strip_top_of(s.screen),
        walk(s, a, d).0.strip_from == s.zone,
{
}

/// Up off the top of the strip undoes the Down that got there: the light is
/// back on the row it left. On the Now Playing page that row is the last of
/// the queue, which is the one Down leaves from.
pub proof fn law_up_undoes_the_down_into_the_strip(s: Spot, a: Around)
    requires
        coherent(s),
        s.zone != Zone::Transport,
        walk(s, a, Direction::Down).0.zone == Zone::Transport,
        s.screen == Screen::Playing ==> s.queued + 1 == a.queue,
    ensures
        same_place(walk(walk(s, a, Direction::Down).0, a, Direction::Up).0, s),
        walk(walk(s, a, Direction::Down).0, a, Direction::Up).1 == Walked::Light,
{
}

/// Left and Right along a bar move the bar, by one step, and never the light.
pub proof fn law_a_direction_along_a_bar_moves_the_bar(s: Spot, a: Around, d: Direction)
    requires
        coherent(s),
        s.zone == Zone::Transport,
        s.transport == BAR_POSITION || s.transport == BAR_LOUDNESS,
        d == Direction::Left || d == Direction::Right,
    ensures
        walk(s, a, d).0 == s,
        walk(s, a, d).1 == if s.transport == BAR_POSITION {
            Walked::Seek(if d == Direction::Left { -1i32 } else { 1i32 })
        } else {
            Walked::Loudness(if d == Direction::Left { -1i32 } else { 1i32 })
        },
{
}

/// Off an edge with nothing beyond it, a direction goes nowhere: above the
/// first row of the rail, left of the rail, below the row of buttons, right
/// of the last button, and right of a list.
pub proof fn law_an_edge_goes_nowhere(s: Spot, a: Around, d: Direction)
    requires
        coherent(s),
        ({
            ||| s.screen == Screen::Library && s.zone == Zone::Sidebar && s.rail == 0 && d
                == Direction::Up
            ||| s.screen == Screen::Library && s.zone == Zone::Sidebar && d == Direction::Left
            ||| s.zone == Zone::Transport && s.transport >= FIRST_BUTTON && d == Direction::Down
            ||| s.zone == Zone::Transport && s.transport == TRANSPORT - 1 && d == Direction::Right
            ||| s.screen == Screen::Library && s.zone == Zone::Library && !a.grid && d
                == Direction::Right
        }),
    ensures
        walk(s, a, d) == (s, Walked::Light),
{
}

/// Standing on one of the two buttons at the foot of the rail does not change
/// which shelf is open; standing on a shelf opens it.
pub proof fn law_the_rail_buttons_keep_the_shelf(s: Spot, a: Around, d: Direction)
    requires
        coherent(s),
        s.screen == Screen::Library,
        s.zone == Zone::Sidebar,
        walk(s, a, d).0.zone == Zone::Sidebar,
    ensures
        walk(s, a, d).0.rail >= TAB_COUNT ==> walk(s, a, d).0.tab == s.tab && walk(s, a, d).1
            == Walked::Light,
        walk(s, a, d).0.rail < TAB_COUNT && walk(s, a, d).0.rail != s.rail ==> walk(s, a, d).0.tab
            == walk(s, a, d).0.rail && walk(s, a, d).1 == Walked::Shelf,
{
}

/// In the browser, Up and Down go a line at a time: on a grid of albums or
/// artists a line is a whole row of cards, so the light keeps its column,
/// and in a list it is one row. Up from the first line goes to the first
/// card; Up undoes a Down that stayed in the browser.
pub proof fn law_up_and_down_go_a_line(s: Spot, a: Around)
    requires
        s.screen == Screen::Library,
        s.zone == Zone::Library,
        a.rows <= usize::MAX,
    ensures
        a.grid && a.columns > 1 && s.selected >= a.columns ==> walk(s, a, Direction::Up).0.selected
            == s.selected - a.columns && walk(s, a, Direction::Up).0.selected as int % a.columns as int
            == s.selected as int % a.columns as int,
        a.grid && a.columns > 1 && s.selected < a.columns ==> walk(s, a, Direction::Up).0.selected
            == 0,
        a.grid && a.columns > 1 && s.selected + a.columns < a.rows ==> walk(
            s,
            a,
            Direction::Down,
        ).0.selected == s.selected + a.columns,
        !a.grid && s.selected > 0 ==> walk(s, a, Direction::Up).0.selected == s.selected - 1,
        !a.grid && s.selected + 1 < a.rows ==> walk(s, a, Direction::Down).0.selected == s.selected
            + 1,
        walk(s, a, Direction::Up).0.zone == Zone::Library,
        walk(s, a, Direction::Up).0.tab == s.tab,
        walk(s, a, Direction::Down).0.zone == Zone::Library && walk(s, a, Direction::Down).0.screen
            == Screen::Library ==> walk(walk(s, a, Direction::Down).0, a, Direction::Up).0.selected
            == s.selected,
{
    if a.grid && a.columns > 1 && s.selected >= a.columns {
        let c = a.columns as int;
        let x = s.selected as int;
        assert((x - c) % c == x % c) by (nonlinear_arith)
            requires
                c > 1,
                x >= c,
        {
            vstd::arithmetic::div_mod::lemma_mod_sub_multiples_vanish(x, c);
        }
    }
}

} // verus!
