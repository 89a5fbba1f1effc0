//! The Options menu: what it offers where the light stands, the orders behind
//! its first row, and what each row does.
use vstd::prelude::*;
use crate::acts::only_queue;
use crate::library::{Order, all_orders};
use crate::music::{Menu, Music, Screen};
use crate::queue::QueueView;
use crate::shelf::{copy_indices, rows_view, texts};

verus! {

/// What choosing a row of a menu asks of the player.
#[derive(Debug, Clone, Copy, PartialEq, Eq, Structural)]
pub enum Chosen {
    Nothing,
    /// The orders are to be raised from the row that names them.
    OpenOrders,
    /// The song at the queue's position is to start.
    Start,
    /// A setting changed and is to be remembered.
    Save,
    /// A folder is to be asked for.
    PickFolder,
    /// The library is to be read again.
    Rescan,
    /// The sound is to stop: the queue is empty.
    Stop,
}

/// The six orders as rows of the menu.
pub open spec fn order_menu() -> Seq<Menu> {
    all_orders().map_values(|o: Order| Menu::SortBy(o))
}

impl Music {
    /// The songs the row under the light stands for, or none.
    pub open spec fn chosen_tracks(&self) -> Seq<usize> {
        if self.selected < self.rows@.len() {
            self.rows@[self.selected as int].tracks@
        } else {
            Seq::empty()
        }
    }

    /// The paths of those songs.
    pub open spec fn chosen_paths(&self) -> Seq<Seq<char>> {
        self.chosen_tracks().map_values(|i: usize| self.tracks@[i as int].path@)
    }

    /// Whether the row under the light is one of the user's favourites:
    /// every song it stands for is.
    pub open spec fn spec_row_is_favourite(&self) -> bool {
        &&& self.chosen_tracks().len() > 0
        &&& forall|a: int|
            0 <= a < self.chosen_tracks().len() ==> #[trigger] texts(self.favourites@).contains(
                self.chosen_paths()[a],
            )
    }

    /// Whether the shelf on screen has an order that is the user's to
    /// choose: not inside an album, which is disc and track number, and not
    /// on the queue, which is the order it will play in.
    pub open spec fn spec_can_sort(&self) -> bool {
        self.screen == Screen::Library && self.group is None && self.tab != 4
    }

    /// What the Options menu offers, here and now. Nothing in it closes the
    /// application.
    pub open spec fn options(&self) -> Seq<Menu> {
        (if self.spec_can_sort() {
            seq![Menu::Sorting]
        } else {
            Seq::empty()
        }) + (if self.screen == Screen::Library && self.rows@.len() > 0 {
            seq![
                Menu::Play,
                Menu::Enqueue,
                if self.spec_row_is_favourite() { Menu::Unfavourite } else { Menu::Favourite },
            ] + if self.tab == 4 {
                seq![Menu::Remove]
            } else {
                Seq::empty()
            }
        } else {
            Seq::empty()
        }) + seq![Menu::AddFolder, Menu::Refresh] + (if self.queue@.entries.len() > 0 {
            seq![Menu::Clear]
        } else {
            Seq::empty()
        })
    }

    pub fn row_is_favourite(&self) -> (r: bool)
        requires
            self.wf(),
        ensures
            r == self.spec_row_is_favourite(),
    {
        if self.selected >= self.rows.len() {
            return false;
        }
        let tracks = &self.rows[self.selected].tracks;
        if tracks.len() == 0 {
            return false;
        }
        let mut a: usize = 0;
        while a < tracks.len()
            invariant
                self.wf(),
                self.selected < self.rows.len(),
                *tracks == self.rows@[self.selected as int].tracks,
                a <= tracks.len(),
                forall|j: int| 0 <= j < a ==> #[trigger] texts(self.favourites@).contains(
                    self.chosen_paths()[j],
                ),
            decreases tracks.len() - a,
        {
            assert(self.rows@[self.selected as int].tracks@[a as int] < self.tracks@.len());
            if !self.favourite(tracks[a]) {
                assert(self.chosen_paths()[a as int] == self.tracks@[tracks@[a as int] as int].path@);
                assert(!texts(self.favourites@).contains(self.chosen_paths()[a as int]));
                return false;
            }
            a = a + 1;
        }
        true
    }

    #[verifier::when_used_as_spec(spec_can_sort)]
    pub fn can_sort(&self) -> (r: bool)
        ensures
            r == self.spec_can_sort(),
    {
        self.screen == Screen::Library && self.group.is_none() && self.tab != 4
    }

    /// Write down what the Options menu offers here and now; no row of it is
    /// marked as chosen.
    pub fn menu_rows(&mut self) -> (marked: usize)
        requires
            old(self).wf(),
        ensures
            final(self).menu@ == old(self).options(),
            marked == usize::MAX,
            *final(self) == (Music { menu: final(self).menu, ..*old(self) }),
    {
        let mut menu: Vec<Menu> = Vec::new();
        if self.can_sort() {
            menu.push(Menu::Sorting);
        }
        if self.screen == Screen::Library && self.rows.len() > 0 {
            menu.push(Menu::Play);
            menu.push(Menu::Enqueue);
            if self.row_is_favourite() {
                menu.push(Menu::Unfavourite);
            } else {
                menu.push(Menu::Favourite);
            }
            if self.tab == 4 {
                menu.push(Menu::Remove);
            }
        }
        menu.push(Menu::AddFolder);
        menu.push(Menu::Refresh);
        if self.queue.len() > 0 {
            menu.push(Menu::Clear);
        }
        assert(menu@ =~= self.options());
        self.menu = menu;
        usize::MAX
    }

    /// Write down the orders, each its own row, and answer which one is in
    /// force.
    pub fn order_rows(&mut self) -> (marked: usize)
        ensures
            final(self).menu@ == order_menu(),
            marked < 6 && all_orders()[marked as int] == old(self).order,
            *final(self) == (Music { menu: final(self).menu, ..*old(self) }),
    {
        let orders = Order::all();
        let mut menu: Vec<Menu> = Vec::new();
        let mut marked: usize = 0;
        for k in 0..orders.len()
            invariant
                orders@ == all_orders(),
                menu@ == order_menu().take(k as int),
                marked < 6,
                (exists|j: int| 0 <= j < k && all_orders()[j] == self.order) ==> all_orders()[marked as int] == self.order,
        {
            if orders[k] == self.order {
                marked = k;
            }
            menu.push(Menu::SortBy(orders[k]));
            assert(order_menu().take(k + 1) == order_menu().take(k as int).push(Menu::SortBy(orders@[k as int])));
        }
        assert(menu@ =~= order_menu());
        assert(all_orders()[0] == Order::Name);
        assert(all_orders()[1] == Order::NameReversed);
        assert(all_orders()[2] == Order::Artist);
        assert(all_orders()[3] == Order::Album);
        assert(all_orders()[4] == Order::Newest);
        assert(all_orders()[5] == Order::Oldest);
        self.menu = menu;
        marked
    }
}

impl Music {
    /// The row whose first song is `t`, the first such, if any.
    fn row_starting_with(&self, t: usize) -> (at: Option<usize>)
        ensures
            match at {
                Some(k) => k < self.rows.len() && self.rows@[k as int].tracks@.len() > 0
                    && self.rows@[k as int].tracks@[0] == t && forall|j: int|
                    0 <= j < k ==> !(self.rows@[j].tracks@.len() > 0 && self.rows@[j].tracks@[0] == t),
                None => forall|j: int|
                    0 <= j < self.rows.len() ==> !(self.rows@[j].tracks@.len() > 0
                        && self.rows@[j].tracks@[0] == t),
            },
    {
        let mut k: usize = 0;
        while k < self.rows.len()
            invariant
                k <= self.rows.len(),
                forall|j: int|
                    0 <= j < k ==> !(self.rows@[j].tracks@.len() > 0 && self.rows@[j].tracks@[0] == t),
            decreases self.rows.len() - k,
        {
            if self.rows[k].tracks.len() > 0 && self.rows[k].tracks[0] == t {
                return Some(k);
            }
            k = k + 1;
        }
        None
    }

    /// List the shelves in a different order, and remember it. The light
    /// stays on the song it was on, not on the place in the list.
    pub fn sort_by(&mut self, order: Order)
        requires
            old(self).wf(),
        ensures
            final(self).wf(),
            final(self).order == order,
            final(self).shelf().shelved(rows_view(final(self).rows@)),
            final(self).unchanged_but_order(*old(self)),
            old(self).chosen_tracks().len() > 0 && (exists|j: int|
                0 <= j < final(self).rows.len() && final(self).rows@[j].tracks@.len() > 0
                    && final(self).rows@[j].tracks@[0] == old(self).chosen_tracks()[0])
                ==> final(self).chosen_tracks().len() > 0 && final(self).chosen_tracks()[0] == old(
                self,
            ).chosen_tracks()[0],
    {
        let was: Option<usize> = if self.selected < self.rows.len() && self.rows[self.selected].tracks.len() > 0 {
            Some(self.rows[self.selected].tracks[0])
        } else {
            None
        };
        self.order = order;
        let ghost before = *self;
        self.rebuild();
        assert(before.shelf() == self.shelf());
        if let Some(t) = was {
            if let Some(at) = self.row_starting_with(t) {
                self.selected = at;
            }
        }
    }

    /// Everything but the order, the rows and the light on them is as it
    /// was.
    pub open spec fn unchanged_but_order(&self, old: Music) -> bool {
        &&& self.tracks == old.tracks
        &&& self.favourites == old.favourites
        &&& self.queue == old.queue
        &&& self.group == old.group
        &&& self.screen == old.screen
        &&& self.zone == old.zone
        &&& self.tab == old.tab
        &&& self.crossing == old.crossing
        &&& self.menu == old.menu
        &&& self.demo == old.demo
        &&& self.columns == old.columns
    }
}

/// Putting a shelf of songs in another order keeps every song on it: the song
/// under the light is still there to put the light back on.
pub proof fn law_a_change_of_order_keeps_every_song(
    before: crate::shelf::ShelfView,
    order: Order,
    old_rows: Seq<crate::shelf::RowView>,
    new_rows: Seq<crate::shelf::RowView>,
    k: int,
)
    requires
        before.group is None,
        before.tab == 0 || before.tab == 3,
        before.shelved(old_rows),
        (crate::shelf::ShelfView { order, ..before }).shelved(new_rows),
        0 <= k < old_rows.len(),
    ensures
        exists|j: int| 0 <= j < new_rows.len() && new_rows[j].tracks[0] == old_rows[k].tracks[0],
{
    let after = crate::shelf::ShelfView { order, ..before };
    let old_idx = old_rows.map_values(|r: crate::shelf::RowView| r.tracks[0]);
    let new_idx = new_rows.map_values(|r: crate::shelf::RowView| r.tracks[0]);
    let t = old_rows[k].tracks[0];
    assert(old_idx[k] == t);
    assert(old_idx.contains(t));
    assert(before.on_shelf(t));
    assert(after.on_shelf(t));
    assert(new_idx.contains(t));
    let j = choose|j: int| 0 <= j < new_idx.len() && new_idx[j] == t;
    assert(new_rows[j].tracks[0] == t);
}

/// The queue with each of `ts` added at its end, in order.
pub open spec fn appended_all(q: QueueView, ts: Seq<usize>) -> QueueView
    decreases ts.len(),
{
    if ts.len() == 0 {
        q
    } else {
        appended_all(q, ts.drop_last()).appended(ts.last())
    }
}

impl Music {
    fn add_favourite(&mut self, path: &String)
        ensures
            forall|p: Seq<char>| #[trigger] texts(final(self).favourites@).contains(p) <==> (texts(
                old(self).favourites@,
            ).contains(p) || p == path@),
            *final(self) == (Music { favourites: final(self).favourites, ..*old(self) }),
    {
        let mut k: usize = 0;
        while k < self.favourites.len()
            invariant
                k <= self.favourites.len(),
                forall|j: int| 0 <= j < k ==> self.favourites@[j]@ != path@,
            decreases self.favourites.len() - k,
        {
            if self.favourites[k] == *path {
                assert(texts(self.favourites@)[k as int] == path@);
                return;
            }
            k = k + 1;
        }
        let ghost before = texts(self.favourites@);
        self.favourites.push(path.clone());
        assert(texts(self.favourites@) =~= before.push(path@));
        proof {
            assert forall|p: Seq<char>| #[trigger] texts(self.favourites@).contains(p) <==> (before.contains(p) || p == path@) by {
                if texts(self.favourites@).contains(p) && p != path@ {
                    let j = choose|j: int| 0 <= j < texts(self.favourites@).len() && texts(self.favourites@)[j] == p;
                    assert(before[j] == p);
                }
                if before.contains(p) {
                    let j = choose|j: int| 0 <= j < before.len() && before[j] == p;
                    assert(texts(self.favourites@)[j] == p);
                }
                if p == path@ {
                    assert(texts(self.favourites@)[before.len() as int] == p);
                }
            }
        }
    }

    fn drop_favourite(&mut self, path: &String)
        ensures
            forall|p: Seq<char>| #[trigger] texts(final(self).favourites@).contains(p) <==> (texts(
                old(self).favourites@,
            ).contains(p) && p != path@),
            *final(self) == (Music { favourites: final(self).favourites, ..*old(self) }),
    {
        let mut kept: Vec<String> = Vec::new();
        let ghost all = texts(self.favourites@);
        for k in 0..self.favourites.len()
            invariant
                all == texts(self.favourites@),
                forall|p: Seq<char>| #[trigger] texts(kept@).contains(p) <==> (all.take(k as int).contains(p) && p != path@),
        {
            let ghost before = texts(kept@);
            if self.favourites[k] != *path {
                kept.push(self.favourites[k].clone());
            }
            proof {
                assert(all.take(k + 1) =~= all.take(k as int).push(all[k as int]));
                assert forall|p: Seq<char>| #[trigger] texts(kept@).contains(p) <==> (all.take(k + 1).contains(p) && p != path@) by {
                    let a = all.take(k as int);
                    if texts(kept@).contains(p) {
                        let j = choose|j: int| 0 <= j < texts(kept@).len() && texts(kept@)[j] == p;
                        if j < before.len() {
                            assert(before[j] == p);
                            assert(before.contains(p));
                            let i = choose|i: int| 0 <= i < a.len() && a[i] == p;
                            assert(all.take(k + 1)[i] == p);
                        } else {
                            assert(all.take(k + 1)[k as int] == p);
                        }
                    }
                    let b = all.take(k + 1);
                    if b.contains(p) && p != path@ {
                        let i = choose|i: int| 0 <= i < b.len() && b[i] == p;
                        if i < k {
                            assert(a[i] == p);
                            assert(before.contains(p));
                            let j = choose|j: int| 0 <= j < before.len() && before[j] == p;
                            assert(texts(kept@)[j] == p);
                        } else {
                            assert(texts(kept@)[before.len() as int] == p);
                        }
                    }
                }
            }
        }
        assert(all.take(all.len() as int) =~= all);
        self.favourites = kept;
    }

    /// Do what a row of the menu says.
    pub fn menu_action(&mut self, action: Menu) -> (c: Chosen)
        requires
            old(self).wf(),
        ensures
            final(self).wf(),
            final(self).tracks == old(self).tracks,
            action == Menu::Sorting ==> c == Chosen::OpenOrders && *final(self) == *old(self),
            action == Menu::AddFolder ==> c == Chosen::PickFolder && *final(self) == *old(self),
            action == Menu::Refresh ==> c == (if old(self).demo { Chosen::Nothing } else { Chosen::Rescan })
                && *final(self) == *old(self),
            action == Menu::Play ==> c == Chosen::Start && final(self).queue@ == old(self).queue@.replaced(
                old(self).chosen_tracks(),
                0,
            ) && only_queue(*old(self), *final(self)),
            final(self).group == old(self).group,
            final(self).crossing == old(self).crossing,
            final(self).menu == old(self).menu,
            final(self).demo == old(self).demo,
            final(self).columns == old(self).columns,
            final(self).screen == old(self).screen,
            final(self).zone == old(self).zone,
            final(self).tab == old(self).tab,
            !(action is SortBy) ==> final(self).order == old(self).order,
            !(action is Favourite || action is Unfavourite) ==> final(self).favourites == old(
                self,
            ).favourites,
            action == Menu::Enqueue ==> c == Chosen::Nothing && (old(self).queue@.entries.len()
                + old(self).chosen_tracks().len() <= usize::MAX ==> final(self).queue@ == appended_all(
                old(self).queue@,
                old(self).chosen_tracks(),
            )) && final(self).shelf().shelved(rows_view(final(self).rows@)),
            action == Menu::Favourite ==> c == Chosen::Save && (forall|p: Seq<char>|
                #[trigger] texts(final(self).favourites@).contains(p) <==> (texts(old(self).favourites@).contains(p)
                    || old(self).chosen_paths().contains(p))) && final(self).shelf().shelved(
                rows_view(final(self).rows@),
            ) && final(self).queue == old(self).queue,
            action == Menu::Unfavourite ==> c == Chosen::Save && (forall|p: Seq<char>|
                #[trigger] texts(final(self).favourites@).contains(p) <==> (texts(old(self).favourites@).contains(p)
                    && !old(self).chosen_paths().contains(p))) && final(self).shelf().shelved(
                rows_view(final(self).rows@),
            ) && final(self).queue == old(self).queue,
            action == Menu::Remove ==> final(self).queue@ == old(self).queue@.removed(old(self).selected).0
                && (c == if old(self).queue@.removed(old(self).selected).1 {
                Chosen::Start
            } else {
                Chosen::Nothing
            }) && final(self).shelf().shelved(rows_view(final(self).rows@)),
            action == Menu::Clear ==> c == Chosen::Stop && final(self).queue@ == old(self).queue@.replaced(
                Seq::empty(),
                0,
            ) && final(self).shelf().shelved(rows_view(final(self).rows@)),
            action matches Menu::SortBy(o) ==> c == Chosen::Save && final(self).order == o
                && final(self).shelf().shelved(rows_view(final(self).rows@)),
    {
        let tracks: Vec<usize> = if self.selected < self.rows.len() {
            copy_indices(&self.rows[self.selected].tracks)
        } else {
            Vec::new()
        };
        proof {
            assert forall|k: int| 0 <= k < tracks@.len() implies #[trigger] tracks@[k] < self.tracks@.len() by {
                assert(self.rows@[self.selected as int].tracks@[k] < self.tracks@.len());
            }
            assert(tracks@ == self.chosen_tracks());
        }
        match action {
            Menu::Sorting => Chosen::OpenOrders,
            Menu::AddFolder => Chosen::PickFolder,
            Menu::Refresh => {
                if self.demo {
                    Chosen::Nothing
                } else {
                    Chosen::Rescan
                }
            },
            Menu::Play => {
                self.queue.replace(tracks, 0);
                Chosen::Start
            },
            Menu::Enqueue => {
                let ghost start = self.queue@;
                for a in 0..tracks.len()
                    invariant
                        self.wf_library(),
                        self.tracks == old(self).tracks,
                        self.group == old(self).group,
                        self.crossing == old(self).crossing,
                        self.menu == old(self).menu,
                        self.demo == old(self).demo,
                        self.columns == old(self).columns,
                        self.screen == old(self).screen,
                        self.zone == old(self).zone,
                        self.tab == old(self).tab,
                        self.order == old(self).order,
                        self.favourites == old(self).favourites,
                        forall|k: int| 0 <= k < tracks@.len() ==> #[trigger] tracks@[k] < self.tracks@.len(),
                        start.entries.len() + tracks@.len() <= usize::MAX ==> self.queue@ == appended_all(
                            start,
                            tracks@.take(a as int),
                        ),
                        self.queue@.entries.len() >= start.entries.len(),
                        start.entries.len() + tracks@.len() <= usize::MAX ==> self.queue@.entries.len() == start.entries.len() + a,
                {
                    if self.queue.len() < usize::MAX {
                        self.queue.append(tracks[a]);
                    }
                    assert(tracks@.take(a + 1).drop_last() == tracks@.take(a as int));
                }
                assert(tracks@.take(tracks.len() as int) == tracks@);
                let ghost before = *self;
                self.rebuild();
                assert(before.shelf() == self.shelf());
                Chosen::Nothing
            },
            Menu::Favourite | Menu::Unfavourite => {
                let remove = action == Menu::Unfavourite;
                let ghost start = texts(self.favourites@);
                let ghost paths = self.chosen_paths();
                for a in 0..tracks.len()
                    invariant
                        self.wf_library(),
                        self.tracks == old(self).tracks,
                        self.queue == old(self).queue,
                        self.rows == old(self).rows,
                        self.group == old(self).group,
                        self.crossing == old(self).crossing,
                        self.menu == old(self).menu,
                        self.demo == old(self).demo,
                        self.columns == old(self).columns,
                        self.screen == old(self).screen,
                        self.zone == old(self).zone,
                        self.tab == old(self).tab,
                        self.order == old(self).order,
                        forall|k: int| 0 <= k < tracks@.len() ==> #[trigger] tracks@[k] < self.tracks@.len(),
                        paths == tracks@.map_values(|i: usize| self.tracks@[i as int].path@),
                        forall|p: Seq<char>| #[trigger] texts(self.favourites@).contains(p) <==> if remove {
                            start.contains(p) && !paths.take(a as int).contains(p)
                        } else {
                            start.contains(p) || paths.take(a as int).contains(p)
                        },
                {
                    let path = &self.tracks[tracks[a]].path;
                    let ghost before = texts(self.favourites@);
                    if remove {
                        let path = path.clone();
                        self.drop_favourite(&path);
                    } else {
                        let path = path.clone();
                        self.add_favourite(&path);
                    }
                    proof {
                        assert(paths.take(a + 1) =~= paths.take(a as int).push(paths[a as int]));
                        assert forall|p: Seq<char>| #[trigger] paths.take(a + 1).contains(p) <==> (paths.take(a as int).contains(p) || p == paths[a as int]) by {
                            let b = paths.take(a + 1);
                            let c = paths.take(a as int);
                            if b.contains(p) && p != paths[a as int] {
                                let i = choose|i: int| 0 <= i < b.len() && b[i] == p;
                                assert(c[i] == p);
                            }
                            if c.contains(p) {
                                let i = choose|i: int| 0 <= i < c.len() && c[i] == p;
                                assert(b[i] == p);
                            }
                            if p == paths[a as int] {
                                assert(paths.take(a + 1)[a as int] == p);
                            }
                        }
                    }
                }
                assert(paths.take(tracks.len() as int) =~= paths);
                let ghost before = *self;
                self.rebuild();
                assert(before.shelf().tracks == self.shelf().tracks);
                assert(before.shelf() == self.shelf());
                Chosen::Save
            },
            Menu::Remove => {
                let removed = self.queue.remove(self.selected);
                let ghost before = *self;
                self.rebuild();
                assert(before.shelf() == self.shelf());
                if removed {
                    Chosen::Start
                } else {
                    Chosen::Nothing
                }
            },
            Menu::Clear => {
                self.queue.replace(Vec::new(), 0);
                let ghost before = *self;
                self.rebuild();
                assert(before.shelf() == self.shelf());
                Chosen::Stop
            },
            Menu::SortBy(order) => {
                self.sort_by(order);
                Chosen::Save
            },
        }
    }
}

} // verus!
