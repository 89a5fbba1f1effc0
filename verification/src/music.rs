//! What Music is, and where a press takes the light.
//!
//! The screen is one model: the rail and the browser side by side with the
//! strip across the foot of both, and on the Now Playing page the record and
//! the up-next list above the strip.
use vstd::prelude::*;
use crate::library::{Order, Track};
use crate::queue::{Queue, Repeat};
use crate::shelf::albums_of;
use vstd::string::StringExecFns;

verus! {

/// The shelves on the rail, in order. The identifiers are also the catalog
/// messages the rail is lettered with, and what `--view` is given.
pub const TABS: [&'static str; 5] = ["songs", "albums", "artists", "favourites", "queue"];

pub const TAB_COUNT: usize = 5;

/// The two buttons at the foot of the rail are rows of it.
pub const RAIL_ADD_FOLDER: usize = 5;

pub const RAIL_OPTIONS: usize = 6;

pub const RAIL_ROWS: usize = 7;

/// The strip, in the order a direction walks it: the record that says what is
/// playing, the two bars, and then the five buttons.
pub const NOW_PLAYING: usize = 0;

pub const BAR_POSITION: usize = 1;

pub const BAR_LOUDNESS: usize = 2;

pub const FIRST_BUTTON: usize = 3;

pub const TRANSPORT: usize = 8;

/// A line in the browser: one song, or one album or artist standing for
/// several.
pub struct Row {
    pub label: String,
    pub detail: String,
    pub tracks: Vec<usize>,
    pub cover: Option<String>,
    /// Which occurrence in the queue this row is, where the queue is what is
    /// being shown.
    pub queue_at: Option<usize>,
}

/// The wall of albums or artists, opened at one of them.
pub struct Group {
    pub title: String,
    pub subtitle: String,
    pub tracks: Vec<usize>,
}

#[derive(Debug, Clone, Copy, PartialEq, Eq, Structural)]
pub enum Zone {
    Sidebar,
    Library,
    Transport,
    /// The up-next list down the right-hand side of the Now Playing page.
    Queue,
}

#[derive(Debug, Clone, Copy, PartialEq, Eq, Structural)]
pub enum Screen {
    Library,
    Playing,
}

/// Which two pages a crossing is between.
#[derive(Debug, Clone, Copy, PartialEq, Eq, Structural)]
pub enum Change {
    /// A wall of albums or artists opening into the songs on one of them.
    Group,
    /// Anything at all opening into the Now Playing page.
    Playing,
}

/// The four directions a pad, a keyboard or a stick can ask for.
#[derive(Debug, Clone, Copy, PartialEq, Eq, Structural)]
pub enum Direction {
    Up,
    Down,
    Left,
    Right,
}

/// What a direction did besides moving the light.
#[derive(Debug, Clone, Copy, PartialEq, Eq, Structural)]
pub enum Walked {
    /// The light moved, or stayed where it was; nothing else changed.
    Light,
    /// The light stepped onto another shelf of the rail, which is now open.
    Shelf,
    /// Left or Right along the position bar: so many steps through the song.
    Seek(i32),
    /// Left or Right along the loudness bar: so many steps of loudness.
    Loudness(i32),
}

/// A row of the Options menu, or of the orders behind its first row.
#[derive(Debug, Clone, Copy, PartialEq, Eq, Structural)]
pub enum Menu {
    /// The row that opens the orders, rather than one of them.
    Sorting,
    SortBy(Order),
    Play,
    Enqueue,
    Favourite,
    Unfavourite,
    Remove,
    AddFolder,
    Refresh,
    Clear,
}

/// Where the light is, and everything a direction can move.
pub struct Spot {
    pub screen: Screen,
    pub zone: Zone,
    pub tab: usize,
    pub rail: usize,
    pub selected: usize,
    pub transport: usize,
    pub strip_from: Zone,
    pub queued: usize,
}

/// What a direction reads of the page but cannot change.
pub struct Around {
    pub rows: nat,
    pub columns: nat,
    pub grid: bool,
    pub queue: nat,
}

/// The first row of the strip on this screen: the record, or on the Now
/// Playing page, which is what that record opens, the position bar.
pub open spec fn strip_top_of(screen: Screen) -> usize {
    if screen == Screen::Playing {
        BAR_POSITION
    } else {
        NOW_PLAYING
    }
}

/// The strip handed the light, always at its top, remembering what handed it.
pub open spec fn entered(s: Spot, from: Zone) -> Spot {
    Spot { strip_from: from, zone: Zone::Transport, transport: strip_top_of(s.screen), ..s }
}

/// Up or Down through the strip: where it goes, or `None` where there is
/// nowhere to go.
pub open spec fn strip_step(screen: Screen, transport: usize, down: bool) -> Option<usize> {
    if down {
        if transport == NOW_PLAYING {
            Some(BAR_POSITION)
        } else if transport == BAR_POSITION {
            Some(BAR_LOUDNESS)
        } else if transport == BAR_LOUDNESS {
            Some(FIRST_BUTTON)
        } else {
            None
        }
    } else if transport == BAR_POSITION {
        if strip_top_of(screen) == BAR_POSITION {
            None
        } else {
            Some(NOW_PLAYING)
        }
    } else if transport == BAR_LOUDNESS {
        Some(BAR_POSITION)
    } else if transport == NOW_PLAYING {
        None
    } else {
        Some(BAR_LOUDNESS)
    }
}

/// Left or Right along the strip: a step along the bar the light is on, or
/// the button beside this one, stopping at either end of the row.
pub open spec fn nudged(s: Spot, by: i32) -> (Spot, Walked) {
    if s.transport == BAR_POSITION {
        (s, Walked::Seek(by))
    } else if s.transport == BAR_LOUDNESS {
        (s, Walked::Loudness(by))
    } else {
        let at = s.transport + by;
        let at = if at < FIRST_BUTTON {
            FIRST_BUTTON as int
        } else if at > TRANSPORT - 1 {
            TRANSPORT - 1
        } else {
            at
        };
        (Spot { transport: at as usize, ..s }, Walked::Light)
    }
}

/// The light put on a row of the rail; a row that is a shelf opens it.
pub open spec fn stood(s: Spot, row: usize) -> (Spot, Walked) {
    if row < TAB_COUNT {
        (Spot { tab: row, rail: row, selected: 0, ..s }, Walked::Shelf)
    } else {
        (Spot { rail: if row < RAIL_ROWS { row } else { (RAIL_ROWS - 1) as usize }, ..s }, Walked::Light)
    }
}

/// Where a direction takes the light on the library screen.
pub open spec fn walk_library(s: Spot, a: Around, d: Direction) -> (Spot, Walked) {
    if s.zone == Zone::Sidebar {
        if d == Direction::Up {
            if s.rail > 0 {
                stood(s, (s.rail - 1) as usize)
            } else {
                (s, Walked::Light)
            }
        } else if d == Direction::Down {
            if s.rail + 1 < RAIL_ROWS {
                stood(s, (s.rail + 1) as usize)
            } else {
                (entered(s, Zone::Sidebar), Walked::Light)
            }
        } else if d == Direction::Right {
            (Spot { zone: Zone::Library, ..s }, Walked::Light)
        } else {
            (s, Walked::Light)
        }
    } else if s.zone == Zone::Library {
        let step: nat = if a.grid && a.columns > 1 { a.columns } else { 1 };
        if d == Direction::Up {
            (Spot { selected: if s.selected >= step { (s.selected - step) as usize } else { 0 }, ..s }, Walked::Light)
        } else if d == Direction::Down {
            if s.selected + step < a.rows {
                (Spot { selected: (s.selected + step) as usize, ..s }, Walked::Light)
            } else {
                (entered(s, Zone::Library), Walked::Light)
            }
        } else if d == Direction::Left {
            if a.grid && (s.selected as nat) % step != 0 {
                (Spot { selected: (s.selected - 1) as usize, ..s }, Walked::Light)
            } else {
                (Spot { zone: Zone::Sidebar, ..s }, Walked::Light)
            }
        } else if a.grid && (s.selected as nat) % step + 1 < step && s.selected + 1 < a.rows {
            (Spot { selected: (s.selected + 1) as usize, ..s }, Walked::Light)
        } else {
            (s, Walked::Light)
        }
    } else if d == Direction::Up {
        match strip_step(s.screen, s.transport, false) {
            Some(t) => (Spot { transport: t, ..s }, Walked::Light),
            None => (Spot { zone: s.strip_from, ..s }, Walked::Light),
        }
    } else if d == Direction::Down {
        match strip_step(s.screen, s.transport, true) {
            Some(t) => (Spot { transport: t, ..s }, Walked::Light),
            None => (s, Walked::Light),
        }
    } else if d == Direction::Left {
        nudged(s, -1i32)
    } else {
        nudged(s, 1i32)
    }
}

/// The same model on the Now Playing page, where the up-next list stands
/// above the strip.
pub open spec fn walk_playing(s: Spot, a: Around, d: Direction) -> (Spot, Walked) {
    if s.zone == Zone::Queue {
        if d == Direction::Up {
            (Spot { queued: if s.queued > 0 { (s.queued - 1) as usize } else { 0 }, ..s }, Walked::Light)
        } else if d == Direction::Down {
            if s.queued + 1 < a.queue {
                (Spot { queued: (s.queued + 1) as usize, ..s }, Walked::Light)
            } else {
                (entered(s, Zone::Queue), Walked::Light)
            }
        } else if d == Direction::Left {
            (entered(s, Zone::Queue), Walked::Light)
        } else {
            (s, Walked::Light)
        }
    } else {
        let s = Spot { zone: Zone::Transport, ..s };
        if d == Direction::Up {
            match strip_step(s.screen, s.transport, false) {
                Some(t) => (Spot { transport: t, ..s }, Walked::Light),
                None => if a.queue > 0 {
                    (Spot { zone: Zone::Queue, queued: (a.queue - 1) as usize, ..s }, Walked::Light)
                } else {
                    (s, Walked::Light)
                },
            }
        } else if d == Direction::Down {
            match strip_step(s.screen, s.transport, true) {
                Some(t) => (Spot { transport: t, ..s }, Walked::Light),
                None => (s, Walked::Light),
            }
        } else if d == Direction::Left {
            nudged(s, -1i32)
        } else {
            nudged(s, 1i32)
        }
    }
}

/// Where a direction takes the light.
pub open spec fn walk(s: Spot, a: Around, d: Direction) -> (Spot, Walked) {
    if s.screen == Screen::Playing {
        walk_playing(s, a, d)
    } else {
        walk_library(s, a, d)
    }
}

/// What the library and the light look like.
pub struct Music {
    pub tracks: Vec<Track>,
    /// The paths of the user's favourite songs.
    pub favourites: Vec<String>,
    pub order: Order,
    pub queue: Queue,
    pub tab: usize,
    pub selected: usize,
    /// Where the light is in the Now Playing page's up-next list.
    pub queued: usize,
    pub zone: Zone,
    pub screen: Screen,
    /// The crossing under way, if a page is still growing out of a card or
    /// shrinking back into one. A crossing takes no presses.
    pub crossing: Option<Change>,
    pub transport: usize,
    /// Which row of the rail the light is on. Not the same as `tab`: the two
    /// buttons at the foot of the rail are rows and neither is a shelf.
    pub rail: usize,
    /// Which zone handed the light to the strip, so that Up off the top of
    /// the strip undoes the Down that brought it there.
    pub strip_from: Zone,
    pub group: Option<Group>,
    pub rows: Vec<Row>,
    /// How many records a line of the wall holds, as drawing last found.
    pub columns: usize,
    /// What the menu last raised offers, row by row.
    pub menu: Vec<Menu>,
    /// A made-up library, for pictures: nothing is played and nothing of the
    /// user's is touched.
    pub demo: bool,
}

impl Music {
    /// Every song the queue or an open album names is in the library.
    pub open spec fn wf_library(&self) -> bool {
        &&& self.queue@.valid()
        &&& forall|k: int|
            0 <= k < self.queue@.entries.len() ==> #[trigger] self.queue@.entries[k] < self.tracks@.len()
        &&& self.group is Some ==> forall|k: int|
            0 <= k < self.group->0.tracks@.len() ==> #[trigger] self.group->0.tracks@[k]
                < self.tracks@.len()
    }

    /// And so is every song a row of the browser stands for.
    pub open spec fn wf(&self) -> bool {
        &&& self.wf_library()
        &&& forall|k: int, a: int|
            0 <= k < self.rows@.len() && 0 <= a < self.rows@[k].tracks@.len() ==> #[trigger] self.rows@[k].tracks@[a]
                < self.tracks@.len()
    }

    /// Everything but the browser's rows and the light on them is as it was.
    pub open spec fn unchanged_but_rows(&self, old: Music) -> bool {
        &&& self.tracks == old.tracks
        &&& self.favourites == old.favourites
        &&& self.order == old.order
        &&& self.queue == old.queue
        &&& self.group == old.group
        &&& self.columns == old.columns
        &&& self.crossing == old.crossing
        &&& self.demo == old.demo
        &&& self.menu == old.menu
    }

    pub open spec fn spot(&self) -> Spot {
        Spot {
            screen: self.screen,
            zone: self.zone,
            tab: self.tab,
            rail: self.rail,
            selected: self.selected,
            transport: self.transport,
            strip_from: self.strip_from,
            queued: self.queued,
        }
    }

    pub open spec fn around(&self) -> Around {
        Around {
            rows: self.rows@.len(),
            columns: self.columns as nat,
            grid: self.spec_grid(),
            queue: self.queue@.entries.len(),
        }
    }

    pub open spec fn spec_grid(&self) -> bool {
        self.tab == 1 && self.group is None
    }

    /// A wall of albums rather than a list of songs.
    #[verifier::when_used_as_spec(spec_grid)]
    pub fn grid(&self) -> (r: bool)
        ensures
            r == self.spec_grid(),
    {
        self.tab == 1 && self.group.is_none()
    }

    /// The first row of the strip on the screen this is.
    pub fn strip_top(&self) -> (r: usize)
        ensures
            r == strip_top_of(self.screen),
    {
        if self.screen == Screen::Playing {
            BAR_POSITION
        } else {
            NOW_PLAYING
        }
    }

    /// Up and Down through the strip. Answers whether there was anywhere to
    /// go, so the screen above can take the light back when there is not.
    pub fn step_strip(&mut self, down: bool) -> (r: bool)
        ensures
            r == strip_step(old(self).screen, old(self).transport, down) is Some,
            final(self).transport == match strip_step(old(self).screen, old(self).transport, down) {
                Some(t) => t,
                None => old(self).transport,
            },
            final(self).spot() == (Spot { transport: final(self).transport, ..old(self).spot() }),
            final(self).unchanged_but_rows(*old(self)),
            final(self).rows == old(self).rows,
    {
        let top = self.strip_top();
        let to = if down {
            if self.transport == NOW_PLAYING {
                BAR_POSITION
            } else if self.transport == BAR_POSITION {
                BAR_LOUDNESS
            } else if self.transport == BAR_LOUDNESS {
                FIRST_BUTTON
            } else {
                return false;
            }
        } else if self.transport == BAR_POSITION {
            if top == BAR_POSITION {
                return false;
            }
            NOW_PLAYING
        } else if self.transport == BAR_LOUDNESS {
            BAR_POSITION
        } else if self.transport == NOW_PLAYING {
            return false;
        } else {
            BAR_LOUDNESS
        };
        self.transport = to;
        true
    }

    /// A direction along the strip: a step along the bar the light is on, or
    /// the button beside this one. Left and Right belong to a bar while the
    /// light is on it.
    pub fn nudge(&mut self, by: i32) -> (w: Walked)
        ensures
            (final(self).spot(), w) == nudged(old(self).spot(), by),
            final(self).unchanged_but_rows(*old(self)),
            final(self).rows == old(self).rows,
    {
        if self.transport == BAR_POSITION {
            Walked::Seek(by)
        } else if self.transport == BAR_LOUDNESS {
            Walked::Loudness(by)
        } else {
            let to: i128 = self.transport as i128 + by as i128;
            let at: usize = if to < FIRST_BUTTON as i128 {
                FIRST_BUTTON
            } else if to > (TRANSPORT - 1) as i128 {
                TRANSPORT - 1
            } else {
                to as usize
            };
            self.transport = at;
            Walked::Light
        }
    }

    /// Hand the light to the strip, at the top of it, and remember what
    /// handed it.
    fn enter_strip(&mut self, from: Zone)
        ensures
            final(self).spot() == entered(old(self).spot(), from),
            final(self).unchanged_but_rows(*old(self)),
            final(self).rows == old(self).rows,
    {
        self.strip_from = from;
        self.zone = Zone::Transport;
        self.transport = self.strip_top();
    }

    /// Open a shelf: the light on its row of the rail, the browser at its
    /// top.
    pub fn change_tab(&mut self, tab: usize)
        requires
            old(self).wf_library(),
        ensures
            final(self).spot() == (Spot { tab, rail: tab, selected: 0, ..old(self).spot() }),
            final(self).group is None,
            final(self).wf(),
            final(self).shelf().shelved(crate::shelf::rows_view(final(self).rows@)),
            final(self).tracks == old(self).tracks,
            final(self).favourites == old(self).favourites,
            final(self).order == old(self).order,
            final(self).queue == old(self).queue,
            final(self).columns == old(self).columns,
            final(self).crossing == old(self).crossing,
            final(self).demo == old(self).demo,
            final(self).menu == old(self).menu,
    {
        self.tab = tab;
        self.rail = tab;
        self.group = None;
        self.selected = 0;
        let ghost before = *self;
        self.rebuild();
        assert(before.shelf() == self.shelf());
    }

    /// Put the light on a row of the rail, and open that shelf if the row is
    /// one.
    fn stand_on_rail(&mut self, row: usize) -> (w: Walked)
        requires
            old(self).wf(),
        ensures
            (final(self).spot(), w) == stood(old(self).spot(), row),
            final(self).wf(),
            w == Walked::Light ==> final(self).rows == old(self).rows && final(self).group
                == old(self).group,
            w == Walked::Shelf ==> final(self).group is None && final(self).shelf().shelved(
                crate::shelf::rows_view(final(self).rows@),
            ),
            final(self).tracks == old(self).tracks,
            final(self).favourites == old(self).favourites,
            final(self).order == old(self).order,
            final(self).queue == old(self).queue,
            final(self).columns == old(self).columns,
            final(self).crossing == old(self).crossing,
            final(self).demo == old(self).demo,
            final(self).menu == old(self).menu,
    {
        if row < TAB_COUNT {
            self.change_tab(row);
            Walked::Shelf
        } else {
            self.rail = if row < RAIL_ROWS {
                row
            } else {
                RAIL_ROWS - 1
            };
            Walked::Light
        }
    }

    /// Where a direction takes the light.
    pub fn navigate(&mut self, direction: Direction) -> (w: Walked)
        requires
            old(self).wf(),
        ensures
            final(self).wf(),
            walked(*old(self), *final(self), direction, w),
    {
        if self.screen == Screen::Playing {
            return self.navigate_playing(direction);
        }
        match self.zone {
            Zone::Sidebar => match direction {
                Direction::Up => {
                    if self.rail > 0 {
                        self.stand_on_rail(self.rail - 1)
                    } else {
                        Walked::Light
                    }
                },
                Direction::Down => {
                    if self.rail < RAIL_ROWS - 1 {
                        self.stand_on_rail(self.rail + 1)
                    } else {
                        self.enter_strip(Zone::Sidebar);
                        Walked::Light
                    }
                },
                Direction::Right => {
                    self.zone = Zone::Library;
                    Walked::Light
                },
                Direction::Left => Walked::Light,
            },
            Zone::Library => {
                let step: usize = if self.grid() && self.columns > 1 {
                    self.columns
                } else {
                    1
                };
                match direction {
                    Direction::Up => {
                        self.selected = if self.selected >= step {
                            self.selected - step
                        } else {
                            0
                        };
                    },
                    Direction::Down => {
                        if step < self.rows.len() && self.selected < self.rows.len() - step {
                            self.selected = self.selected + step;
                        } else {
                            self.enter_strip(Zone::Library);
                        }
                    },
                    Direction::Left => {
                        if self.grid() && self.selected % step != 0 {
                            assert(self.selected != 0) by {
                                if self.selected == 0 {
                                    assert(0usize % step == 0) by (nonlinear_arith)
                                        requires step > 0;
                                }
                            }
                            self.selected = self.selected - 1;
                        } else {
                            self.zone = Zone::Sidebar;
                        }
                    },
                    Direction::Right => {
                        if self.grid() && self.selected % step < step - 1 && self.rows.len() > 0
                            && self.selected < self.rows.len() - 1 {
                            self.selected = self.selected + 1;
                        }
                    },
                }
                Walked::Light
            },
            _ => match direction {
                Direction::Up => {
                    if !self.step_strip(false) {
                        self.zone = self.strip_from;
                    }
                    Walked::Light
                },
                Direction::Down => {
                    self.step_strip(true);
                    Walked::Light
                },
                Direction::Left => self.nudge(-1),
                Direction::Right => self.nudge(1),
            },
        }
    }

    /// The same model on the Now Playing page.
    fn navigate_playing(&mut self, direction: Direction) -> (w: Walked)
        requires
            old(self).screen == Screen::Playing,
        ensures
            (final(self).spot(), w) == walk_playing(old(self).spot(), old(self).around(), direction),
            final(self).unchanged_but_rows(*old(self)),
            final(self).rows == old(self).rows,
    {
        let queue = self.queue.len();
        match self.zone {
            Zone::Queue => {
                match direction {
                    Direction::Up => {
                        self.queued = if self.queued > 0 {
                            self.queued - 1
                        } else {
                            0
                        };
                    },
                    Direction::Down => {
                        if queue > 0 && self.queued < queue - 1 {
                            self.queued = self.queued + 1;
                        } else {
                            self.enter_strip(Zone::Queue);
                        }
                    },
                    Direction::Left => self.enter_strip(Zone::Queue),
                    Direction::Right => {},
                }
                Walked::Light
            },
            _ => {
                self.zone = Zone::Transport;
                match direction {
                    Direction::Up => {
                        if !self.step_strip(false) && queue > 0 {
                            self.zone = Zone::Queue;
                            self.queued = queue - 1;
                        }
                        Walked::Light
                    },
                    Direction::Down => {
                        self.step_strip(true);
                        Walked::Light
                    },
                    Direction::Left => self.nudge(-1),
                    Direction::Right => self.nudge(1),
                }
            },
        }
    }
}

/// Where a direction takes the light, and what else it changes: a step onto
/// another shelf of the rail opens it, and nothing else is touched.
pub open spec fn walked(before: Music, after: Music, d: Direction, w: Walked) -> bool {
    &&& (after.spot(), w) == walk(before.spot(), before.around(), d)
    &&& w != Walked::Shelf ==> after.rows == before.rows && after.group == before.group
    &&& w == Walked::Shelf ==> after.group is None && after.shelf().shelved(
        crate::shelf::rows_view(after.rows@),
    )
    &&& after.tracks == before.tracks
    &&& after.favourites == before.favourites
    &&& after.order == before.order
    &&& after.queue == before.queue
    &&& after.columns == before.columns
    &&& after.crossing == before.crossing
    &&& after.demo == before.demo
    &&& after.menu == before.menu
}

/// Where the light stands when Music opens: on the first shelf's browser, and
/// in the strip on Play, which is the control a hand reaching for the strip is
/// reaching for.
pub open spec fn opening_spot() -> Spot {
    Spot {
        screen: Screen::Library,
        zone: Zone::Library,
        tab: 0,
        rail: 0,
        selected: 0,
        transport: (FIRST_BUTTON + 3) as usize,
        strip_from: Zone::Library,
        queued: 0,
    }
}

fn text(s: &str) -> (r: String)
    ensures
        r@ == s@,
{
    String::from_str(s)
}

impl Music {
    /// Music with nothing in its library yet, the favourites, the order and
    /// the shuffle and repeat it was left with.
    pub fn new(favourites: Vec<String>, order: Order, shuffle: bool, repeat: Repeat, demo: bool) -> (m: Music)
        ensures
            m.wf(),
            m.tracks@.len() == 0,
            m.rows@.len() == 0,
            m.favourites == favourites,
            m.order == order,
            m.queue@ == (crate::queue::QueueView {
                entries: Seq::empty(),
                position: None,
                shuffle,
                repeat,
                history: Seq::empty(),
                remaining: Seq::empty(),
                seed: 0,
            }),
            m.spot() == opening_spot(),
            m.group is None,
            m.crossing is None,
            m.columns == 1,
            m.menu@.len() == 0,
            m.demo == demo,
    {
        let mut queue = Queue::default();
        queue.set_shuffle(shuffle);
        queue.set_repeat(repeat);
        assert(queue@.remaining =~= Seq::<usize>::empty());
        Music {
            tracks: Vec::new(),
            favourites,
            order,
            queue,
            tab: 0,
            selected: 0,
            queued: 0,
            zone: Zone::Library,
            screen: Screen::Library,
            crossing: None,
            transport: FIRST_BUTTON + 3,
            rail: 0,
            strip_from: Zone::Library,
            group: None,
            rows: Vec::new(),
            columns: 1,
            menu: Vec::new(),
            demo,
        }
    }

    /// Forget the library before reading it again: the queue, the songs, the
    /// rows and the open album all go, because their indices are about to
    /// mean other songs.
    pub fn forget_library(&mut self)
        requires
            old(self).wf(),
        ensures
            final(self).wf(),
            final(self).tracks@.len() == 0,
            final(self).rows@.len() == 0,
            final(self).queue@ == old(self).queue@.replaced(Seq::empty(), 0),
            *final(self) == (Music {
                tracks: final(self).tracks,
                rows: final(self).rows,
                queue: final(self).queue,
                group: None,
                selected: 0,
                ..*old(self)
            }),
    {
        self.queue.replace(Vec::new(), 0);
        self.tracks = Vec::new();
        self.rows = Vec::new();
        self.group = None;
        self.selected = 0;
    }

    /// A song the library walk found.
    pub fn add_track(&mut self, track: Track)
        requires
            old(self).wf(),
        ensures
            final(self).wf(),
            final(self).tracks@ == old(self).tracks@.push(track),
            *final(self) == (Music { tracks: final(self).tracks, ..*old(self) }),
    {
        self.tracks.push(track);
    }

    /// Queue the song at `path` on its own and set it going, where the
    /// library has it. Answers whether it did.
    pub fn play_path(&mut self, path: &String) -> (found: bool)
        requires
            old(self).wf(),
        ensures
            final(self).wf(),
            found == exists|i: int| 0 <= i < old(self).tracks@.len() && old(self).tracks@[i].path@ == path@,
            found ==> exists|i: int|
                0 <= i < old(self).tracks@.len() && old(self).tracks@[i].path@ == path@ && (forall|j: int|
                    0 <= j < i ==> old(self).tracks@[j].path@ != path@) && final(self).queue@
                    == old(self).queue@.replaced(seq![i as usize], 0),
            !found ==> *final(self) == *old(self),
            *final(self) == (Music { queue: final(self).queue, ..*old(self) }),
    {
        let mut i: usize = 0;
        while i < self.tracks.len()
            invariant
                i <= self.tracks.len(),
                *self == *old(self),
                self.wf(),
                forall|j: int| 0 <= j < i ==> self.tracks@[j].path@ != path@,
            decreases self.tracks.len() - i,
        {
            if self.tracks[i].path == *path {
                let mut entries: Vec<usize> = Vec::new();
                entries.push(i);
                self.queue.replace(entries, 0);
                assert(entries@ =~= seq![i]);
                return true;
            }
            i = i + 1;
        }
        false
    }

    /// The made-up library `--demo` shows, for pictures: three records of
    /// four songs by three artists, all of them queued, the first a
    /// favourite.
    pub fn demo() -> (m: Music)
        ensures
            m.wf(),
            m.tracks@.len() == 12,
            forall|i: int| 0 <= i < 12 ==> demo_track(#[trigger] m.tracks@[i], i),
            albums_of(m.tracks@).len() == 3,
            m.favourites@.len() == 1,
            m.favourites@[0]@ == m.tracks@[0].path@,
            m.queue@.entries == Seq::new(12, |i: int| i as usize),
            m.queue@.position == Some(0usize),
            m.spot() == opening_spot(),
            m.group is None,
            m.crossing is None,
            m.demo,
            m.shelf().shelved(crate::shelf::rows_view(m.rows@)),
    {
        let mut m = Music::new(Vec::new(), Order::Name, false, Repeat::Off, true);
        let mut added: u64 = 1_700_000_000;
        for i in 0..12usize
            invariant
                m.wf(),
                m.tracks@.len() == i,
                forall|k: int| 0 <= k < i ==> demo_track(#[trigger] m.tracks@[k], k),
                added == 1_700_000_000 + i * 3_600,
                m.queue@.entries.len() == 0,
                m.spot() == opening_spot(),
                m.group is None,
                m.crossing is None,
                m.demo,
                m.favourites@.len() == 0,
        {
            let artist = demo_artist_of(i / 4);
            let title = demo_title_of(i);
            let mut path = text("/preview/");
            path.append(artist);
            path.append("/");
            path.append(title);
            path.append(".flac");
            let track = Track {
                path,
                title: text(title),
                artist: text(artist),
                album_artist: text(artist),
                album: text(demo_album_of(i / 4)),
                disc: 1,
                number: (i % 4 + 1) as u32,
                cover: None,
                added,
            };
            assert(demo_track(track, i as int));
            m.add_track(track);
            added = added + 3_600;
        }
        let mut entries: Vec<usize> = Vec::new();
        for i in 0..12usize
            invariant
                entries@ == Seq::new(i as nat, |k: int| k as usize),
        {
            entries.push(i);
            assert(entries@ =~= Seq::new((i + 1) as nat, |k: int| k as usize));
        }
        proof {
            assert forall|k: int| 0 <= k < entries@.len() implies #[trigger] entries@[k] < m.tracks@.len() by {}
        }
        m.queue.replace(entries, 0);
        let first = m.tracks[0].path.clone();
        m.favourites.push(first);
        let ghost before = m;
        m.rebuild();
        assert(before.shelf() == m.shelf());
        proof {
            lemma_demo_albums(m.tracks@);
        }
        m
    }
}

/// The artist of each made-up record.
pub open spec fn demo_artist(r: int) -> Seq<char> {
    if r == 0 {
        "Juniper Coast"@
    } else if r == 1 {
        "Mira Sol"@
    } else {
        "Northbound"@
    }
}

/// The title of each made-up record.
pub open spec fn demo_album(r: int) -> Seq<char> {
    if r == 0 {
        "The quiet hours"@
    } else if r == 1 {
        "After the rain"@
    } else {
        "Outside / Inside"@
    }
}

/// The title of each made-up song, four to a record.
pub open spec fn demo_title(i: int) -> Seq<char> {
    if i == 0 {
        "First light"@
    } else if i == 1 {
        "Open windows"@
    } else if i == 2 {
        "A little further"@
    } else if i == 3 {
        "Sunday, slowly"@
    } else if i == 4 {
        "Soft focus"@
    } else if i == 5 {
        "Blue hour"@
    } else if i == 6 {
        "Somewhere warm"@
    } else if i == 7 {
        "Home again"@
    } else if i == 8 {
        "Night drive"@
    } else if i == 9 {
        "Signals"@
    } else if i == 10 {
        "Long way home"@
    } else {
        "Stay awhile"@
    }
}

/// The made-up song at place `i`: the record's artist and title, its place
/// on the record, no sleeve, a path under the preview folder, and an hour
/// newer than the song before it.
pub open spec fn demo_track(t: Track, i: int) -> bool {
    &&& t.title@ == demo_title(i)
    &&& t.artist@ == demo_artist(i / 4)
    &&& t.album_artist@ == demo_artist(i / 4)
    &&& t.album@ == demo_album(i / 4)
    &&& t.disc == 1
    &&& t.number == i % 4 + 1
    &&& t.cover is None
    &&& t.added == 1_700_000_000 + i * 3_600
    &&& t.path@ == "/preview/"@ + demo_artist(i / 4) + "/"@ + demo_title(i) + ".flac"@
}

fn demo_artist_of(r: usize) -> (s: &'static str)
    requires
        r < 3,
    ensures
        s@ == demo_artist(r as int),
{
    if r == 0 {
        "Juniper Coast"
    } else if r == 1 {
        "Mira Sol"
    } else {
        "Northbound"
    }
}

fn demo_album_of(r: usize) -> (s: &'static str)
    requires
        r < 3,
    ensures
        s@ == demo_album(r as int),
{
    if r == 0 {
        "The quiet hours"
    } else if r == 1 {
        "After the rain"
    } else {
        "Outside / Inside"
    }
}

fn demo_title_of(i: usize) -> (s: &'static str)
    requires
        i < 12,
    ensures
        s@ == demo_title(i as int),
{
    if i == 0 {
        "First light"
    } else if i == 1 {
        "Open windows"
    } else if i == 2 {
        "A little further"
    } else if i == 3 {
        "Sunday, slowly"
    } else if i == 4 {
        "Soft focus"
    } else if i == 5 {
        "Blue hour"
    } else if i == 6 {
        "Somewhere warm"
    } else if i == 7 {
        "Home again"
    } else if i == 8 {
        "Night drive"
    } else if i == 9 {
        "Signals"
    } else if i == 10 {
        "Long way home"
    } else {
        "Stay awhile"
    }
}

/// The made-up songs are on three albums, one to each record.
proof fn lemma_demo_albums(ts: Seq<Track>)
    requires
        ts.len() == 12,
        forall|i: int| 0 <= i < 12 ==> demo_track(#[trigger] ts[i], i),
    ensures
        albums_of(ts).len() == 3,
{
    reveal_strlit("The quiet hours");
    reveal_strlit("After the rain");
    reveal_strlit("Outside / Inside");
    let a0 = (demo_artist(0), demo_album(0));
    let a1 = (demo_artist(1), demo_album(1));
    let a2 = (demo_artist(2), demo_album(2));
    let three = set![a0, a1, a2];
    assert(demo_track(ts[0], 0) && demo_track(ts[4], 4) && demo_track(ts[8], 8));
    assert forall|a: (Seq<char>, Seq<char>)| albums_of(ts).contains(a) <==> three.contains(a) by {
        if albums_of(ts).contains(a) {
            let i = choose|i: int| 0 <= i < ts.len() && a == (#[trigger] ts[i].album_artist@, ts[i].album@);
            assert(demo_track(ts[i], i));
            assert(i / 4 == 0 || i / 4 == 1 || i / 4 == 2);
        }
        if a == a0 {
            assert(a == (ts[0].album_artist@, ts[0].album@));
        }
        if a == a1 {
            assert(a == (ts[4].album_artist@, ts[4].album@));
        }
        if a == a2 {
            assert(a == (ts[8].album_artist@, ts[8].album@));
        }
    }
    assert(albums_of(ts) =~= three);
    assert(demo_album(0).len() == 15 && demo_album(1).len() == 14 && demo_album(2).len() == 16);
    assert(a0 != a1 && a0 != a2 && a1 != a2);
    assert(set![a0].len() == 1);
    assert(set![a0, a1].len() == 2);
}

} // verus!
