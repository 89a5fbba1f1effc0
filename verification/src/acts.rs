//! What a press does: opening and leaving pages, playing what is chosen, and
//! the buttons of the strip.
use vstd::prelude::*;
use crate::music::{
    walked, Change, Direction, Group, Music, Screen, Spot, Walked, Zone, BAR_LOUDNESS, BAR_POSITION, NOW_PLAYING, TAB_COUNT,
};
use crate::queue::Repeat;
use crate::shelf::{RowView, copy_indices, copy_text, rows_view};

verus! {

/// What choosing a row did.
pub enum Activated {
    /// There was no row under the light.
    Nothing,
    /// An album or an artist opened into its songs; the rows of the wall it
    /// was on, which the crossing carries away.
    Group(Vec<crate::music::Row>),
    /// The queue was set going at the row; `opened` says whether the Now
    /// Playing page opened out of it.
    Played { opened: bool },
}

/// What Play and pause did.
pub enum Toggled {
    Nothing,
    /// The song at the queue's position is to start.
    Start,
    /// Nothing was queued, so the row under the light was chosen.
    Chose(Activated),
    /// The song playing is to pause, or a paused one to go on.
    Flip,
}

/// What pressing a row of the strip did.
pub enum Pressed {
    Nothing,
    /// The record at the head of the strip: whether the Now Playing page
    /// opened.
    Opened(bool),
    Toggled(Toggled),
    /// The loudness is to be silenced, or given back.
    Mute,
    /// Shuffle was switched, and is to be remembered.
    Shuffle,
    /// Repeat moved on, and is to be remembered.
    Repeat,
    /// Previous, more than a moment into a song: back to its start.
    SeekToStart,
    /// The song at the queue's new position is to start.
    Start,
}

/// An album or artist left: the songs it listed, and the group itself.
pub struct Left {
    pub rows: Vec<crate::music::Row>,
    pub group: Group,
}

/// What Back did.
pub enum Backed {
    /// Off the Now Playing page to the library.
    LeftPlaying,
    /// Out of an album to the wall it was on: the songs it listed, and the
    /// album left.
    LeftGroup(Left),
    /// Off the browser to the rail.
    ToRail,
    /// Off the rail, out of the application.
    Quit,
}

/// Every song the rows stand for, row after row.
pub open spec fn row_tracks(rows: Seq<RowView>) -> Seq<usize>
    decreases rows.len(),
{
    if rows.len() == 0 {
        Seq::empty()
    } else {
        row_tracks(rows.drop_last()) + rows.last().tracks
    }
}

/// The Now Playing page opened: the light on the strip, below the record the
/// page itself is, and at the head of the up-next list.
pub open spec fn playing_opened(s: Spot) -> Spot {
    Spot {
        screen: Screen::Playing,
        zone: Zone::Transport,
        transport: if s.transport < BAR_POSITION { BAR_POSITION } else { s.transport },
        queued: 0,
        ..s
    }
}

/// The Now Playing page opened: the light on the strip, below the record the
/// page itself is, and at the head of the up-next list, with the page still
/// growing out of its card.
pub open spec fn playing_page(m: Music) -> Music {
    let s = playing_opened(m.spot());
    Music {
        screen: s.screen,
        zone: s.zone,
        transport: s.transport,
        queued: s.queued,
        crossing: Some(Change::Playing),
        ..m
    }
}

/// Only the queue is other than it was.
pub open spec fn only_queue(before: Music, after: Music) -> bool {
    after == (Music { queue: after.queue, ..before })
}

/// An album or artist left for the wall or list it was opened on: the light
/// on the row it was opened from, or on the first row where it has none.
pub open spec fn group_left(before: Music, after: Music, l: Left) -> bool {
    let title = before.group->0.title@;
    &&& rows_view(l.rows@) == rows_view(before.rows@)
    &&& l.group == before.group->0
    &&& after.group is None
    &&& after.shelf().shelved(rows_view(after.rows@))
    &&& after.crossing == Some(Change::Group)
    &&& after.spot() == (Spot { selected: after.selected, ..before.spot() })
    &&& (after.selected < after.rows.len() && after.rows@[after.selected as int].label@ == title
        && forall|k: int| 0 <= k < after.selected ==> after.rows@[k].label@ != title)
        || (after.selected == 0 && forall|k: int| 0 <= k < after.rows.len() ==> after.rows@[k].label@ != title)
    &&& after.tracks == before.tracks
    &&& after.favourites == before.favourites
    &&& after.order == before.order
    &&& after.queue == before.queue
    &&& after.columns == before.columns
    &&& after.demo == before.demo
    &&& after.menu == before.menu
}

/// The next shelf along the rail open, or the one before, round at the ends:
/// the browser at its top, and nothing else touched.
pub open spec fn shelf_stepped(before: Music, after: Music, forward: bool) -> bool {
    let tab = (if forward {
        (before.tab + 1) % (TAB_COUNT as int)
    } else {
        (before.tab + TAB_COUNT - 1) % (TAB_COUNT as int)
    }) as usize;
    &&& after.spot() == (Spot { tab, rail: tab, selected: 0, ..before.spot() })
    &&& after.group is None
    &&& after.shelf().shelved(rows_view(after.rows@))
    &&& after.tracks == before.tracks
    &&& after.favourites == before.favourites
    &&& after.order == before.order
    &&& after.queue == before.queue
    &&& after.columns == before.columns
    &&& after.crossing == before.crossing
    &&& after.demo == before.demo
    &&& after.menu == before.menu
}

/// What Back does: off the Now Playing page, out of an album, off the
/// browser to the rail, and off the rail out of the application.
pub open spec fn backed(before: Music, after: Music, b: Backed) -> bool {
    if before.screen == Screen::Playing {
        b is LeftPlaying && after == (Music {
            screen: Screen::Library,
            zone: Zone::Library,
            crossing: Some(Change::Playing),
            ..before
        })
    } else if before.group is Some {
        b matches Backed::LeftGroup(l) && group_left(before, after, l)
    } else if before.zone != Zone::Sidebar {
        b is ToRail && after == (Music { zone: Zone::Sidebar, ..before })
    } else {
        b is Quit && after == before
    }
}

/// What choosing the row under the light does: an album or artist opens into
/// its songs; a song sets the queue going there, without replacing it where
/// the row is an occurrence in the queue, and opens the Now Playing page.
pub open spec fn activated(before: Music, after: Music, a: Activated) -> bool {
    if before.selected >= before.rows.len() {
        a is Nothing && after == before
    } else if before.spec_grid_like() {
        let row = before.rows@[before.selected as int];
        &&& a matches Activated::Group(leaving) && rows_view(leaving@) == rows_view(before.rows@)
        &&& after.group is Some
        &&& after.group->0.title@ == row.label@
        &&& after.group->0.subtitle@ == row.detail@
        &&& after.group->0.tracks@ == row.tracks@
        &&& after.spot() == (Spot { selected: 0, ..before.spot() })
        &&& after.shelf().shelved(rows_view(after.rows@))
        &&& after.crossing == Some(Change::Group)
        &&& after.queue == before.queue
        &&& after.tracks == before.tracks
        &&& after.favourites == before.favourites
        &&& after.order == before.order
        &&& after.columns == before.columns
        &&& after.demo == before.demo
        &&& after.menu == before.menu
    } else {
        let row = before.rows@[before.selected as int];
        let queued = Music { queue: after.queue, ..before };
        &&& a matches Activated::Played { opened }
        &&& opened == (before.screen != Screen::Playing && before.crossing is None)
        &&& after == if opened { playing_page(queued) } else { queued }
        &&& after.queue@ == match row.queue_at {
            Some(at) => before.queue@.selected(at),
            None => before.queue@.replaced(row_tracks(rows_view(before.rows@)), before.selected),
        }
    }
}

/// What Play and pause does. With nothing at the queue's position, the queue
/// starts at its head; with nothing queued, the album or artist under the
/// light is queued, or the song under it chosen. A song that ended or failed
/// starts again; anything else pauses or goes on.
pub open spec fn toggled(before: Music, after: Music, ended_or_failed: bool, t: Toggled) -> bool {
    if before.queue@.current() is Some {
        after == before && if ended_or_failed {
            t is Start
        } else {
            t is Flip
        }
    } else if before.queue@.entries.len() > 0 {
        t is Start && only_queue(before, after) && after.queue@ == before.queue@.selected(0)
    } else if before.spec_grid_like() {
        if before.selected < before.rows.len() {
            t is Start && only_queue(before, after) && after.queue@ == before.queue@.replaced(
                before.rows@[before.selected as int].tracks@,
                0,
            )
        } else {
            t is Nothing && after == before
        }
    } else {
        t matches Toggled::Chose(c) && activated(before, after, c)
    }
}

/// What pressing a row of the strip does: the record opens the Now Playing
/// page, either bar plays or pauses, the loudness bar's button silences, then
/// Shuffle, Repeat, Previous, Play and Next.
pub open spec fn pressed(
    before: Music,
    after: Music,
    index: usize,
    past_start: bool,
    ended_or_failed: bool,
    p: Pressed,
) -> bool {
    if index == NOW_PLAYING {
        p matches Pressed::Opened(opened) && opened == (before.screen != Screen::Playing
            && before.crossing is None) && after == if opened {
            playing_page(before)
        } else {
            before
        }
    } else if index == BAR_POSITION || index == 6 {
        p matches Pressed::Toggled(t) && toggled(before, after, ended_or_failed, t)
    } else if index == BAR_LOUDNESS {
        p is Mute && after == before
    } else if index == 3 {
        p is Shuffle && only_queue(before, after) && after.queue@ == (crate::queue::QueueView {
            shuffle: !before.queue@.shuffle,
            ..before.queue@
        }).shuffle_reset()
    } else if index == 4 {
        p is Repeat && only_queue(before, after) && after.queue@ == (crate::queue::QueueView {
            repeat: before.queue@.repeat.following(),
            ..before.queue@
        })
    } else if index == 5 && past_start {
        p is SeekToStart && after == before
    } else if index == 5 {
        &&& only_queue(before, after)
        &&& after.queue@ == before.queue@.retreated().0
        &&& p is Start <==> before.queue@.retreated().1 is Some
        &&& p is Nothing <==> before.queue@.retreated().1 is None
    } else if index == 7 {
        &&& only_queue(before, after)
        &&& exists|clock: u64|
            after.queue@ == before.queue@.advanced(false, clock).0 && (p is Start
                <==> before.queue@.advanced(false, clock).1 is Some) && (p is Nothing
                <==> before.queue@.advanced(false, clock).1 is None)
    } else {
        p is Nothing && after == before
    }
}

/// What South does to whatever the light is on. Nothing on the rail raises
/// the Options menu: its row there takes the light and does nothing more,
/// the menu being the button the legend names.
pub open spec fn accepted(
    before: Music,
    after: Music,
    past_start: bool,
    ended_or_failed: bool,
    a: Accepted,
) -> bool {
    if before.screen == Screen::Library && before.zone == Zone::Library {
        if before.rows.len() == 0 {
            a is PickFolder && after == before
        } else {
            a matches Accepted::Chose(c) && activated(before, after, c)
        }
    } else if before.screen == Screen::Library && before.zone == Zone::Sidebar {
        if before.rail == crate::music::RAIL_ADD_FOLDER {
            a is PickFolder && after == before
        } else if before.rail == crate::music::RAIL_OPTIONS {
            a is Nothing && after == before
        } else {
            a is Nothing && after == (Music { zone: Zone::Library, ..before })
        }
    } else if before.screen == Screen::Playing && before.zone == Zone::Queue {
        if before.queued < before.queue@.entries.len() {
            a is Start && only_queue(before, after) && after.queue@ == before.queue@.selected(
                before.queued,
            )
        } else {
            a is Nothing && after == before
        }
    } else {
        a matches Accepted::Pressed(p) && pressed(
            before,
            after,
            before.transport,
            past_start,
            ended_or_failed,
            p,
        )
    }
}

impl Music {
    /// Open the Now Playing page, unless it is open or a page is still
    /// crossing. Answers whether it opened.
    pub fn open_playing(&mut self) -> (opened: bool)
        ensures
            opened == (old(self).screen != Screen::Playing && old(self).crossing is None),
            opened ==> *final(self) == playing_page(*old(self)),
            !opened ==> *final(self) == *old(self),
    {
        if self.screen == Screen::Playing || self.crossing.is_some() {
            return false;
        }
        self.screen = Screen::Playing;
        self.zone = Zone::Transport;
        if self.transport < BAR_POSITION {
            self.transport = BAR_POSITION;
        }
        self.queued = 0;
        self.crossing = Some(Change::Playing);
        true
    }

    /// Leave the Now Playing page for the library. Answers whether it was
    /// open.
    pub fn leave_playing(&mut self) -> (left: bool)
        ensures
            left == (old(self).screen == Screen::Playing),
            left ==> *final(self) == (Music {
                screen: Screen::Library,
                zone: Zone::Library,
                crossing: Some(Change::Playing),
                ..*old(self)
            }),
            !left ==> *final(self) == *old(self),
    {
        if self.screen != Screen::Playing {
            return false;
        }
        self.screen = Screen::Library;
        self.zone = Zone::Library;
        self.crossing = Some(Change::Playing);
        true
    }

    /// Everything but the light and the crossing is as it was.
    pub open spec fn unchanged_but_crossing(&self, old: Music) -> bool {
        &&& self.tracks == old.tracks
        &&& self.favourites == old.favourites
        &&& self.order == old.order
        &&& self.queue == old.queue
        &&& self.group == old.group
        &&& self.columns == old.columns
        &&& self.demo == old.demo
        &&& self.menu == old.menu
    }

    /// Where the row named `title` is, or the first row where none is.
    fn row_named(&self, title: &String) -> (at: usize)
        ensures
            (at < self.rows.len() && self.rows@[at as int].label@ == title@ && forall|k: int|
                0 <= k < at ==> self.rows@[k].label@ != title@) || (at == 0 && forall|k: int|
                0 <= k < self.rows.len() ==> self.rows@[k].label@ != title@),
    {
        let mut k: usize = 0;
        while k < self.rows.len()
            invariant
                k <= self.rows.len(),
                forall|j: int| 0 <= j < k ==> self.rows@[j].label@ != title@,
            decreases self.rows.len() - k,
        {
            if self.rows[k].label == *title {
                return k;
            }
            k = k + 1;
        }
        0
    }

    /// Out of an album or artist, back to the wall or list it was opened on,
    /// with the light on the row it was opened from. Answers the songs it
    /// listed and the group left, or nothing where none was open.
    pub fn leave_group(&mut self) -> (left: Option<Left>)
        requires
            old(self).wf(),
        ensures
            final(self).wf(),
            old(self).group is None ==> left is None && *final(self) == *old(self),
            old(self).group is Some ==> (left matches Some(l) && group_left(*old(self), *final(self), l)),
    {
        let group = match self.group.take() {
            Some(g) => g,
            None => {
                return None;
            },
        };
        let mut leaving: Vec<crate::music::Row> = Vec::new();
        std::mem::swap(&mut leaving, &mut self.rows);
        self.selected = 0;
        let ghost before = *self;
        self.rebuild();
        assert(before.shelf() == self.shelf());
        let index = self.row_named(&group.title);
        self.selected = index;
        self.crossing = Some(Change::Group);
        Some(Left { rows: leaving, group })
    }

    /// What Back does: off the Now Playing page, out of an album, off the
    /// browser to the rail, and off the rail out of the application.
    pub fn back(&mut self) -> (b: Backed)
        requires
            old(self).wf(),
        ensures
            final(self).wf(),
            backed(*old(self), *final(self), b),
    {
        if self.screen == Screen::Playing {
            self.leave_playing();
            Backed::LeftPlaying
        } else if self.group.is_some() {
            match self.leave_group() {
                Some(left) => Backed::LeftGroup(left),
                None => Backed::Quit,
            }
        } else if self.zone != Zone::Sidebar {
            self.zone = Zone::Sidebar;
            Backed::ToRail
        } else {
            Backed::Quit
        }
    }

    /// The next shelf along the rail, or the one before, round at the ends.
    pub fn step_shelf(&mut self, forward: bool)
        requires
            old(self).wf(),
            old(self).tab < TAB_COUNT,
        ensures
            final(self).wf(),
            shelf_stepped(*old(self), *final(self), forward),
    {
        let tab = if forward {
            (self.tab + 1) % TAB_COUNT
        } else {
            (self.tab + TAB_COUNT - 1) % TAB_COUNT
        };
        self.change_tab(tab);
    }
}

pub proof fn lemma_row_tracks_bounded(rows: Seq<RowView>, n: nat)
    requires
        forall|k: int, a: int| 0 <= k < rows.len() && 0 <= a < rows[k].tracks.len() ==> #[trigger] rows[k].tracks[a] < n,
    ensures
        forall|j: int| 0 <= j < row_tracks(rows).len() ==> #[trigger] row_tracks(rows)[j] < n,
    decreases rows.len(),
{
    if rows.len() > 0 {
        assert forall|k: int, a: int|
            0 <= k < rows.drop_last().len() && 0 <= a < rows.drop_last()[k].tracks.len() implies
            #[trigger] rows.drop_last()[k].tracks[a] < n by {
            assert(rows.drop_last()[k] == rows[k]);
        }
        lemma_row_tracks_bounded(rows.drop_last(), n);
        let a = row_tracks(rows.drop_last());
        let l = rows.last().tracks;
        assert forall|j: int| 0 <= j < row_tracks(rows).len() implies #[trigger] row_tracks(rows)[j] < n by {
            if j >= a.len() {
                assert(row_tracks(rows)[j] == l[j - a.len()]);
                assert(rows[rows.len() - 1].tracks[j - a.len()] < n);
            }
        }
    }
}

impl Music {
    /// Every song the browser's rows stand for, row after row.
    fn all_row_tracks(&self) -> (r: Vec<usize>)
        ensures
            r@ == row_tracks(rows_view(self.rows@)),
    {
        let mut r: Vec<usize> = Vec::new();
        for k in 0..self.rows.len()
            invariant
                r@ == row_tracks(rows_view(self.rows@).take(k as int)),
        {
            let ghost before = r@;
            let t = &self.rows[k].tracks;
            for a in 0..t.len()
                invariant
                    r@ == before + t@.take(a as int),
            {
                r.push(t[a]);
                assert(t@.take(a + 1) == t@.take(a as int).push(t@[a as int]));
            }
            assert(t@.take(t.len() as int) == t@);
            assert(rows_view(self.rows@).take(k + 1).drop_last() == rows_view(self.rows@).take(k as int));
        }
        assert(rows_view(self.rows@).take(self.rows.len() as int) == rows_view(self.rows@));
        r
    }

    /// Choose the row under the light: an album or artist opens into its
    /// songs; a song sets the queue going there, without replacing it where
    /// the row is an occurrence in the queue, and opens the Now Playing page.
    pub fn activate(&mut self) -> (a: Activated)
        requires
            old(self).wf(),
        ensures
            final(self).wf(),
            activated(*old(self), *final(self), a),
    {
        if self.selected >= self.rows.len() {
            return Activated::Nothing;
        }
        if self.group.is_none() && (self.tab == 1 || self.tab == 2) {
            let row = &self.rows[self.selected];
            let group = Group {
                title: copy_text(&row.label),
                subtitle: copy_text(&row.detail),
                tracks: copy_indices(&row.tracks),
            };
            proof {
                assert forall|k: int| 0 <= k < group.tracks@.len() implies #[trigger] group.tracks@[k]
                    < self.tracks@.len() by {
                    assert(self.rows@[self.selected as int].tracks@[k] < self.tracks@.len());
                }
            }
            let mut leaving: Vec<crate::music::Row> = Vec::new();
            std::mem::swap(&mut leaving, &mut self.rows);
            self.group = Some(group);
            self.selected = 0;
            let ghost before = *self;
            self.rebuild();
            assert(before.shelf() == self.shelf());
            self.crossing = Some(Change::Group);
            return Activated::Group(leaving);
        }
        let at = self.rows[self.selected].queue_at;
        match at {
            Some(at) => {
                self.queue.select(at);
            },
            None => {
                let entries = self.all_row_tracks();
                proof {
                    lemma_row_tracks_bounded(rows_view(self.rows@), self.tracks@.len());
                    assert forall|k: int, a: int|
                        0 <= k < rows_view(self.rows@).len() && 0 <= a < rows_view(self.rows@)[k].tracks.len()
                        implies #[trigger] rows_view(self.rows@)[k].tracks[a] < self.tracks@.len() by {
                        assert(rows_view(self.rows@)[k].tracks == self.rows@[k].tracks@);
                    }
                    lemma_row_tracks_bounded(rows_view(self.rows@), self.tracks@.len());
                }
                self.queue.replace(entries, self.selected);
            },
        }
        let opened = self.open_playing();
        Activated::Played { opened }
    }

    /// A wall of albums or a list of artists, rather than a list of songs.
    pub open spec fn spec_grid_like(&self) -> bool {
        self.group is None && (self.tab == 1 || self.tab == 2)
    }
}

/// What choosing the thing the light is on did.
pub enum Accepted {
    Nothing,
    /// A folder is to be asked for.
    PickFolder,
    Chose(Activated),
    /// The song at the queue's new position is to start.
    Start,
    Pressed(Pressed),
}

impl Music {
    /// Play or pause. With nothing at the queue's position, the queue starts
    /// at its head; with nothing queued, the album or artist under the light
    /// is queued, or the song under it chosen. A song that ended or failed
    /// starts again; anything else pauses or goes on.
    pub fn toggle(&mut self, ended_or_failed: bool) -> (t: Toggled)
        requires
            old(self).wf(),
        ensures
            final(self).wf(),
            toggled(*old(self), *final(self), ended_or_failed, t),
    {
        if self.queue.current().is_none() {
            if self.queue.len() > 0 {
                self.queue.select(0);
                Toggled::Start
            } else if self.group.is_none() && (self.tab == 1 || self.tab == 2) {
                if self.selected < self.rows.len() {
                    let tracks = copy_indices(&self.rows[self.selected].tracks);
                    proof {
                        assert forall|k: int| 0 <= k < tracks@.len() implies #[trigger] tracks@[k]
                            < self.tracks@.len() by {
                            assert(self.rows@[self.selected as int].tracks@[k] < self.tracks@.len());
                        }
                    }
                    self.queue.replace(tracks, 0);
                    Toggled::Start
                } else {
                    Toggled::Nothing
                }
            } else {
                Toggled::Chose(self.activate())
            }
        } else if ended_or_failed {
            Toggled::Start
        } else {
            Toggled::Flip
        }
    }

    /// What pressing a row of the strip does. `past_start` is whether the
    /// song is more than a moment in, which is when Previous goes back to
    /// its start rather than to the song before.
    pub fn transport_action(&mut self, index: usize, past_start: bool, ended_or_failed: bool) -> (p: Pressed)
        requires
            old(self).wf(),
        ensures
            final(self).wf(),
            pressed(*old(self), *final(self), index, past_start, ended_or_failed, p),
    {
        if index == NOW_PLAYING {
            Pressed::Opened(self.open_playing())
        } else if index == BAR_POSITION || index == 6 {
            Pressed::Toggled(self.toggle(ended_or_failed))
        } else if index == BAR_LOUDNESS {
            Pressed::Mute
        } else if index == 3 {
            let on = !self.queue.shuffle_on();
            self.queue.set_shuffle(on);
            Pressed::Shuffle
        } else if index == 4 {
            let repeat = self.queue.repeat_mode().cycle();
            self.queue.set_repeat(repeat);
            Pressed::Repeat
        } else if index == 5 {
            if past_start {
                Pressed::SeekToStart
            } else if self.queue.previous().is_some() {
                Pressed::Start
            } else {
                Pressed::Nothing
            }
        } else if index == 7 {
            if self.queue.next(false).is_some() {
                Pressed::Start
            } else {
                Pressed::Nothing
            }
        } else {
            Pressed::Nothing
        }
    }

    /// What South does to whatever the light is on.
    pub fn accept(&mut self, past_start: bool, ended_or_failed: bool) -> (a: Accepted)
        requires
            old(self).wf(),
        ensures
            final(self).wf(),
            accepted(*old(self), *final(self), past_start, ended_or_failed, a),
    {
        match (self.screen, self.zone) {
            (Screen::Library, Zone::Library) => {
                if self.rows.len() == 0 {
                    Accepted::PickFolder
                } else {
                    Accepted::Chose(self.activate())
                }
            },
            (Screen::Library, Zone::Sidebar) => {
                if self.rail == crate::music::RAIL_ADD_FOLDER {
                    Accepted::PickFolder
                } else if self.rail == crate::music::RAIL_OPTIONS {
                    Accepted::Nothing
                } else {
                    self.zone = Zone::Library;
                    Accepted::Nothing
                }
            },
            (Screen::Playing, Zone::Queue) => {
                if self.queued < self.queue.len() {
                    self.queue.select(self.queued);
                    Accepted::Start
                } else {
                    Accepted::Nothing
                }
            },
            _ => Accepted::Pressed(self.transport_action(self.transport, past_start, ended_or_failed)),
        }
    }
}

/// The presses a page is driven by, from a pad, a keyboard or a pointer.
#[derive(Debug, Clone, Copy, PartialEq, Eq, Structural)]
pub enum Action {
    Up,
    Down,
    Left,
    Right,
    /// South: choose what the light is on.
    Accept,
    /// East: the way out.
    Back,
    /// Start: the Options menu.
    Menu,
    /// West: play or pause.
    Submit,
    /// The right shoulder: the next shelf.
    Next,
    /// The left shoulder: the shelf before.
    Previous,
}

/// The direction a press is, if it is one.
pub open spec fn direction_of(action: Action) -> Option<Direction> {
    match action {
        Action::Up => Some(Direction::Up),
        Action::Down => Some(Direction::Down),
        Action::Left => Some(Direction::Left),
        Action::Right => Some(Direction::Right),
        _ => None,
    }
}

/// What a press did.
pub enum Acted {
    /// A page is still crossing, and takes no presses.
    Ignored,
    /// The Options menu is to be raised.
    OpenMenu,
    Toggled(Toggled),
    /// Another shelf is open.
    Shelf,
    Backed(Backed),
    Accepted(Accepted),
    /// A direction: what it did besides moving the light.
    Walked(Walked),
}

/// What a press does. A crossing takes none; the shoulders step along the
/// shelves, or on the Now Playing page only settle the light on the strip
/// unless it is in the up-next list.
pub open spec fn acted(
    before: Music,
    after: Music,
    action: Action,
    past_start: bool,
    ended_or_failed: bool,
    a: Acted,
) -> bool {
    if before.crossing is Some {
        a is Ignored && after == before
    } else {
        match action {
            Action::Menu => a is OpenMenu && after == before,
            Action::Submit => a matches Acted::Toggled(t) && toggled(before, after, ended_or_failed, t),
            Action::Next | Action::Previous => if before.screen == Screen::Library {
                a is Shelf && shelf_stepped(before, after, action == Action::Next)
            } else {
                a == Acted::Walked(Walked::Light) && after == (Music {
                    zone: if before.zone == Zone::Queue {
                        Zone::Queue
                    } else {
                        Zone::Transport
                    },
                    ..before
                })
            },
            Action::Back => a matches Acted::Backed(b) && backed(before, after, b),
            Action::Accept => a matches Acted::Accepted(x) && accepted(
                before,
                after,
                past_start,
                ended_or_failed,
                x,
            ),
            _ => a matches Acted::Walked(w) && walked(before, after, direction_of(action)->0, w),
        }
    }
}

impl Music {
    /// Do what a press asks. `past_start` is whether the song is more than a
    /// moment in; `ended_or_failed` whether it ended or could not be played.
    pub fn act(&mut self, action: Action, past_start: bool, ended_or_failed: bool) -> (a: Acted)
        requires
            old(self).wf(),
            old(self).tab < TAB_COUNT,
        ensures
            final(self).wf(),
            acted(*old(self), *final(self), action, past_start, ended_or_failed, a),
    {
        if self.crossing.is_some() {
            return Acted::Ignored;
        }
        match action {
            Action::Menu => Acted::OpenMenu,
            Action::Submit => Acted::Toggled(self.toggle(ended_or_failed)),
            Action::Next | Action::Previous => {
                if self.screen == Screen::Library {
                    self.step_shelf(action == Action::Next);
                    Acted::Shelf
                } else {
                    if self.zone != Zone::Queue {
                        self.zone = Zone::Transport;
                    }
                    Acted::Walked(Walked::Light)
                }
            },
            Action::Back => Acted::Backed(self.back()),
            Action::Accept => Acted::Accepted(self.accept(past_start, ended_or_failed)),
            Action::Up => Acted::Walked(self.navigate(Direction::Up)),
            Action::Down => Acted::Walked(self.navigate(Direction::Down)),
            Action::Left => Acted::Walked(self.navigate(Direction::Left)),
            Action::Right => Acted::Walked(self.navigate(Direction::Right)),
        }
    }
}

/// What the end of a song does. The first word that it ended, `ended` with
/// `handled` not yet set, moves the queue on once, as a Next that no one
/// pressed, and sets `handled`; the answer is `handled` as it now stands and
/// whether the song at the new position is to start. Word of the same end
/// again, or no end, changes nothing, until a song starts and `handled` is
/// cleared.
pub open spec fn song_ended(before: Music, after: Music, ended: bool, handled: bool, r: (bool, bool)) -> bool {
    if ended && !handled {
        &&& r.0
        &&& only_queue(before, after)
        &&& exists|clock: u64|
            after.queue@ == before.queue@.advanced(true, clock).0 && (r.1
                <==> before.queue@.advanced(true, clock).1 is Some)
        &&& !before.queue@.needs_clock(true) ==> after.queue@ == before.queue@.advanced(true, 0).0
            && (r.1 <==> before.queue@.advanced(true, 0).1 is Some)
    } else {
        r == (handled, false) && after == before
    }
}

impl Music {
    /// Take word from the player of whether the song ended, and whether that
    /// end was already taken.
    pub fn song_over(&mut self, ended: bool, handled: bool) -> (r: (bool, bool))
        requires
            old(self).wf(),
        ensures
            final(self).wf(),
            song_ended(*old(self), *final(self), ended, handled, r),
    {
        if ended && !handled {
            let start = self.queue.next(true).is_some();
            (true, start)
        } else {
            (handled, false)
        }
    }
}

/// Nothing on the rail opens the Options menu: South on any of its rows asks
/// at most for a folder, and leaves the menus as they were.
pub proof fn law_nothing_on_the_rail_opens_the_menu(
    before: Music,
    after: Music,
    past_start: bool,
    ended_or_failed: bool,
    a: Acted,
)
    requires
        before.screen == Screen::Library,
        before.zone == Zone::Sidebar,
        acted(before, after, Action::Accept, past_start, ended_or_failed, a),
    ensures
        a is Ignored || a == Acted::Accepted(Accepted::Nothing) || a == Acted::Accepted(
            Accepted::PickFolder,
        ),
        after.menu == before.menu,
{
}

} // verus!
