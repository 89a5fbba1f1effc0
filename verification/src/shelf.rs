//! What the browser shows on each shelf, and in what order.
use vstd::prelude::*;
use crate::library::{Order, Track};
use crate::music::{Music, Row, Spot};
use crate::ranking::{
    Part, PartView, rank_less, rank_view, ranks_view, sort_ranked, sorted_order, precedes, text_less,
    lemma_text_order, lemma_rank_order, lemma_first_difference_is,
};
use crate::text::{lower_case, lower_chars};

verus! {

/// What a row is sorted by, whichever shelf it is on.
pub struct SortKey {
    pub name: Vec<char>,
    pub artist: Vec<char>,
    pub album: Vec<char>,
    pub added: u64,
}

pub struct SortKeyView {
    pub name: Seq<char>,
    pub artist: Seq<char>,
    pub album: Seq<char>,
    pub added: u64,
}

impl View for SortKey {
    type V = SortKeyView;

    open spec fn view(&self) -> SortKeyView {
        SortKeyView { name: self.name@, artist: self.artist@, album: self.album@, added: self.added }
    }
}

/// What an order compares, part by part. Every order but the two by name
/// falls back to the name.
pub open spec fn order_rank(order: Order, k: SortKeyView) -> Seq<PartView> {
    match order {
        Order::Name => seq![PartView::Text(k.name)],
        Order::NameReversed => seq![PartView::TextDown(k.name)],
        Order::Artist => seq![PartView::Text(k.artist), PartView::Text(k.name)],
        Order::Album => seq![PartView::Text(k.album), PartView::Text(k.name)],
        Order::Newest => seq![PartView::NumberDown(k.added), PartView::Text(k.name)],
        Order::Oldest => seq![PartView::Number(k.added), PartView::Text(k.name)],
    }
}

fn copy_chars(v: &Vec<char>) -> (r: Vec<char>)
    ensures
        r@ == v@,
{
    let mut r: Vec<char> = Vec::new();
    for i in 0..v.len()
        invariant
            r@ == v@.take(i as int),
    {
        r.push(v[i]);
        assert(v@.take(i + 1) == v@.take(i as int).push(v@[i as int]));
    }
    assert(v@.take(v.len() as int) == v@);
    r
}

fn order_rank_of(order: Order, k: &SortKey) -> (r: Vec<Part>)
    ensures
        rank_view(r) == order_rank(order, k@),
{
    let mut r: Vec<Part> = Vec::new();
    match order {
        Order::Name => {
            r.push(Part::Text(copy_chars(&k.name)));
        },
        Order::NameReversed => {
            r.push(Part::TextDown(copy_chars(&k.name)));
        },
        Order::Artist => {
            r.push(Part::Text(copy_chars(&k.artist)));
            r.push(Part::Text(copy_chars(&k.name)));
        },
        Order::Album => {
            r.push(Part::Text(copy_chars(&k.album)));
            r.push(Part::Text(copy_chars(&k.name)));
        },
        Order::Newest => {
            r.push(Part::NumberDown(k.added));
            r.push(Part::Text(copy_chars(&k.name)));
        },
        Order::Oldest => {
            r.push(Part::Number(k.added));
            r.push(Part::Text(copy_chars(&k.name)));
        },
    }
    assert(rank_view(r) =~= order_rank(order, k@));
    r
}

/// Put the rows in the order that was asked for: the answer lists where
/// each key stands, every key once, equal keys in the order they came in.
pub fn sort_rows(keys: &Vec<SortKey>, order: Order) -> (perm: Vec<usize>)
    ensures
        sorted_order(keys@.map_values(|k: SortKey| order_rank(order, k@)), perm@),
{
    let mut ranks: Vec<Vec<Part>> = Vec::new();
    for i in 0..keys.len()
        invariant
            ranks.len() == i,
            forall|j: int| 0 <= j < i ==> rank_view(#[trigger] ranks@[j]) == order_rank(order, keys@[j]@),
    {
        ranks.push(order_rank_of(order, &keys[i]));
    }
    let perm = sort_ranked(&ranks);
    assert(ranks_view(ranks@) =~= keys@.map_values(|k: SortKey| order_rank(order, k@)));
    perm
}

/// The mathematical form of a row.
pub struct RowView {
    pub label: Seq<char>,
    pub detail: Seq<char>,
    pub tracks: Seq<usize>,
    pub cover: Option<Seq<char>>,
    pub queue_at: Option<usize>,
}

pub open spec fn opt_text(o: Option<String>) -> Option<Seq<char>> {
    match o {
        Some(s) => Some(s@),
        None => None,
    }
}

impl View for Row {
    type V = RowView;

    open spec fn view(&self) -> RowView {
        RowView {
            label: self.label@,
            detail: self.detail@,
            tracks: self.tracks@,
            cover: opt_text(self.cover),
            queue_at: self.queue_at,
        }
    }
}

pub open spec fn rows_view(rows: Seq<Row>) -> Seq<RowView> {
    rows.map_values(|r: Row| r@)
}

pub open spec fn texts(v: Seq<String>) -> Seq<Seq<char>> {
    v.map_values(|s: String| s@)
}

/// A row standing for one song.
pub open spec fn song_row(t: Track, i: usize, queue_at: Option<usize>) -> RowView {
    RowView { label: t.title@, detail: t.artist@, tracks: seq![i], cover: opt_text(t.cover), queue_at }
}

/// What a song is sorted by: its name, artist and album in lower case, and
/// when it was added.
pub open spec fn song_key(t: Track) -> SortKeyView {
    SortKeyView {
        name: lower_case(t.title@),
        artist: lower_case(t.artist@),
        album: lower_case(t.album@),
        added: t.added,
    }
}

/// What the browser's rows are made from: the library, the favourites, the
/// order, the shelf open now, the album open on it, and the queue.
pub struct ShelfView {
    pub tracks: Seq<Track>,
    pub favourites: Seq<Seq<char>>,
    pub order: Order,
    pub tab: usize,
    pub group: Option<Seq<usize>>,
    pub queue: Seq<usize>,
}

impl Music {
    pub open spec fn shelf(&self) -> ShelfView {
        ShelfView {
            tracks: self.tracks@,
            favourites: texts(self.favourites@),
            order: self.order,
            tab: self.tab,
            group: match self.group {
                Some(g) => Some(g.tracks@),
                None => None,
            },
            queue: self.queue@.entries,
        }
    }
}

impl ShelfView {
    pub open spec fn is_favourite(&self, i: int) -> bool {
        self.favourites.contains(self.tracks[i].path@)
    }
    /// Whether a song belongs on the shelf open now, if it is a shelf of
    /// songs: every song on Songs, the favourite ones on Favourites.
    pub open spec fn on_shelf(&self, i: usize) -> bool {
        i < self.tracks.len() && (self.tab != 3 || self.is_favourite(i as int))
    }
    pub open spec fn song_rank(&self, i: int) -> Seq<PartView> {
        order_rank(self.order, song_key(self.tracks[i]))
    }
    /// The songs of the shelf, each once, in the shelf's order: an earlier
    /// key first, and of two equal keys the song found first.
    pub open spec fn in_shelf_order(&self, idx: Seq<usize>) -> bool {
        &&& idx.no_duplicates()
        &&& forall|x: usize| #[trigger] idx.contains(x) <==> self.on_shelf(x)
        &&& forall|a: int, b: int|
            0 <= a < b < idx.len() ==> rank_less(self.song_rank(idx[a] as int), self.song_rank(idx[b] as int))
                || (self.song_rank(idx[a] as int) == self.song_rank(idx[b] as int) && idx[a] < idx[b])
    }
    /// Which album (on Albums) or artist (on Artists) a song is gathered
    /// under: an album is its album artist and its title, so that two records
    /// of one name by two artists stay two.
    pub open spec fn group_key(&self, i: int) -> Seq<PartView> {
        let t = self.tracks[i];
        if self.tab == 1 {
            seq![PartView::Text(t.album_artist@), PartView::Text(t.album@)]
        } else {
            seq![PartView::Text(t.artist@), PartView::Text(Seq::<char>::empty())]
        }
    }
    /// The row standing for an album or artist, whose songs are `s` in order.
    pub open spec fn group_row(&self, s: Seq<usize>) -> RowView {
        let first = self.tracks[s[0] as int];
        RowView {
            label: if self.tab == 1 { first.album@ } else { first.artist@ },
            detail: if self.tab == 1 { first.album_artist@ } else { Seq::<char>::empty() },
            tracks: s,
            cover: first_cover_from(self.tracks, s, 0),
            queue_at: None,
        }
    }
    /// What such a row is sorted by: its name, the artist and the album of
    /// its first song, and the latest any of its songs was added.
    pub open spec fn group_rank(&self, s: Seq<usize>) -> Seq<PartView> {
        let first = self.tracks[s[0] as int];
        order_rank(
            self.order,
            SortKeyView {
                name: lower_case(self.group_row(s).label),
                artist: lower_case(first.album_artist@),
                album: lower_case(first.album@),
                added: latest_added(self.tracks, s),
            },
        )
    }
    /// The wall of albums or the list of artists: one row for each album or
    /// artist, every song in exactly one of them, the songs of a row in disc
    /// and track order, and the rows in the shelf's order, two equal ones in
    /// the order of what they are gathered under.
    pub open spec fn grouped(&self, rows: Seq<RowView>) -> bool {
        &&& forall|k: int| 0 <= k < rows.len() ==> (#[trigger] rows[k]).tracks.len() > 0
        &&& forall|k: int| 0 <= k < rows.len() ==> #[trigger] rows[k] == self.group_row(rows[k].tracks)
        &&& forall|k: int, a: int|
            0 <= k < rows.len() && 0 <= a < rows[k].tracks.len() ==> #[trigger] rows[k].tracks[a]
                < self.tracks.len() && self.group_key(rows[k].tracks[a] as int) == self.group_key(
                rows[k].tracks[0] as int,
            )
        &&& forall|k1: int, k2: int|
            0 <= k1 < rows.len() && 0 <= k2 < rows.len() && k1 != k2 ==> self.group_key(
                rows[k1].tracks[0] as int,
            ) != self.group_key(rows[k2].tracks[0] as int)
        &&& forall|x: usize| x < self.tracks.len() ==> #[trigger] somewhere_in(rows, x)
        &&& forall|k: int, a: int, b: int|
            0 <= k < rows.len() && 0 <= a < b < rows[k].tracks.len() ==> rank_less(
                inner_rank(self.tracks[rows[k].tracks[a] as int]),
                inner_rank(self.tracks[rows[k].tracks[b] as int]),
            ) || (inner_rank(self.tracks[rows[k].tracks[a] as int]) == inner_rank(
                self.tracks[rows[k].tracks[b] as int],
            ) && rows[k].tracks[a] < rows[k].tracks[b])
        &&& forall|k1: int, k2: int|
            0 <= k1 < k2 < rows.len() ==> rank_less(
                self.group_rank(rows[k1].tracks),
                self.group_rank(rows[k2].tracks),
            ) || (self.group_rank(rows[k1].tracks) == self.group_rank(rows[k2].tracks) && rank_less(
                self.group_key(rows[k1].tracks[0] as int),
                self.group_key(rows[k2].tracks[0] as int),
            ))
    }
    /// A list of songs: one row for each, lettered with its name and artist.
    /// Inside an album the songs are the album's, in its own order; on the
    /// Queue shelf they are the queue's, each row naming its place in it; on
    /// every other shelf they are the shelf's songs in the shelf's order.
    pub open spec fn listed(&self, rows: Seq<RowView>) -> bool {
        let idx = rows.map_values(|r: RowView| r.tracks[0]);
        &&& forall|k: int| 0 <= k < rows.len() ==> #[trigger] rows[k].tracks.len() == 1
        &&& forall|k: int| 0 <= k < rows.len() ==> #[trigger] rows[k].tracks[0] < self.tracks.len()
        &&& forall|k: int|
            0 <= k < rows.len() ==> #[trigger] rows[k] == song_row(
                self.tracks[rows[k].tracks[0] as int],
                rows[k].tracks[0],
                if self.tab == 4 && self.group is None { Some(k as usize) } else { None },
            )
        &&& if self.group is Some {
            idx == self.group->0
        } else if self.tab == 4 {
            idx == self.queue
        } else {
            self.in_shelf_order(idx)
        }
    }
    /// What the browser holds on the shelf open now.
    pub open spec fn shelved(&self, rows: Seq<RowView>) -> bool {
        if self.group is None && (self.tab == 1 || self.tab == 2) {
            self.grouped(rows)
        } else {
            self.listed(rows)
        }
    }
}

impl Music {
    /// Whether the song at `i` is one of the user's favourites.
    pub fn favourite(&self, i: usize) -> (r: bool)
        requires
            i < self.tracks.len(),
        ensures
            r == self.shelf().is_favourite(i as int),
    {
        let path = &self.tracks[i].path;
        let mut k: usize = 0;
        while k < self.favourites.len()
            invariant
                k <= self.favourites.len(),
                *path == self.tracks@[i as int].path,
                forall|j: int| 0 <= j < k ==> self.favourites@[j]@ != path@,
            decreases self.favourites.len() - k,
        {
            if self.favourites[k] == *path {
                assert(texts(self.favourites@)[k as int] == path@);
                return true;
            }
            k = k + 1;
        }
        assert(!texts(self.favourites@).contains(path@)) by {
            if texts(self.favourites@).contains(path@) {
                let j = choose|j: int| 0 <= j < texts(self.favourites@).len() && texts(self.favourites@)[j] == path@;
                assert(self.favourites@[j]@ == path@);
            }
        }
        false
    }

    /// The songs of the shelf open now, in its order.
    fn shelf_songs(&self) -> (idx: Vec<usize>)
        ensures
            self.shelf().in_shelf_order(idx@),
    {
        let n = self.tracks.len();
        let mut cand: Vec<usize> = Vec::new();
        for i in 0..n
            invariant
                n == self.tracks.len(),
                forall|a: int, b: int| 0 <= a < b < cand.len() ==> cand@[a] < cand@[b],
                forall|k: int| 0 <= k < cand.len() ==> #[trigger] cand@[k] < i,
                forall|x: usize| x < i ==> (#[trigger] cand@.contains(x) <==> self.shelf().on_shelf(x)),
        {
            let ghost before = cand@;
            if self.tab != 3 || self.favourite(i) {
                cand.push(i);
            }
            proof {
                assert forall|x: usize| x < i + 1 implies (#[trigger] cand@.contains(x)
                    <==> self.shelf().on_shelf(x)) by {
                    if x < i {
                        if cand@.contains(x) {
                            let k = choose|k: int| 0 <= k < cand.len() && cand@[k] == x;
                            if k < before.len() {
                                assert(before[k] == x);
                            }
                        }
                        if before.contains(x) {
                            let k = choose|k: int| 0 <= k < before.len() && before[k] == x;
                            assert(cand@[k] == x);
                        }
                    } else {
                        if cand@.contains(x) {
                            let k = choose|k: int| 0 <= k < cand.len() && cand@[k] == x;
                            if k < before.len() {
                                assert(before[k] < i);
                            }
                        }
                        if self.shelf().on_shelf(x) {
                            assert(cand@[before.len() as int] == x);
                        }
                    }
                }
            }
        }
        let mut keys: Vec<SortKey> = Vec::new();
        for k in 0..cand.len()
            invariant
                n == self.tracks.len(),
                forall|j: int| 0 <= j < cand.len() ==> #[trigger] cand@[j] < n,
                keys.len() == k,
                forall|j: int| 0 <= j < k ==> #[trigger] keys@[j]@ == song_key(self.tracks@[cand@[j] as int]),
        {
            let t = &self.tracks[cand[k]];
            keys.push(
                SortKey {
                    name: lower_chars(t.title.as_str()),
                    artist: lower_chars(t.artist.as_str()),
                    album: lower_chars(t.album.as_str()),
                    added: t.added,
                },
            );
        }
        let perm = sort_rows(&keys, self.order);
        let ghost ranks = keys@.map_values(|k: SortKey| order_rank(self.order, k@));
        let mut idx: Vec<usize> = Vec::new();
        for k in 0..perm.len()
            invariant
                perm.len() == cand.len(),
                forall|j: int| 0 <= j < perm.len() ==> #[trigger] perm@[j] < cand.len(),
                idx.len() == k,
                forall|j: int| 0 <= j < k ==> #[trigger] idx@[j] == cand@[perm@[j] as int],
        {
            idx.push(cand[perm[k]]);
        }
        proof {
            assert forall|j: int| 0 <= j < cand.len() implies #[trigger] ranks[j] == self.shelf().song_rank(
                cand@[j] as int,
            ) by {}
            assert(idx@.no_duplicates()) by {
                assert forall|a: int, b: int| 0 <= a < idx.len() && 0 <= b < idx.len() && a != b
                    implies idx@[a] != idx@[b] by {
                    assert(perm@[a] != perm@[b]);
                    if perm@[a] < perm@[b] {
                        assert(cand@[perm@[a] as int] < cand@[perm@[b] as int]);
                    } else {
                        assert(cand@[perm@[b] as int] < cand@[perm@[a] as int]);
                    }
                }
            }
            assert forall|x: usize| #[trigger] idx@.contains(x) <==> self.shelf().on_shelf(x) by {
                if idx@.contains(x) {
                    let k = choose|k: int| 0 <= k < idx.len() && idx@[k] == x;
                    assert(cand@.contains(cand@[perm@[k] as int]));
                }
                if self.shelf().on_shelf(x) {
                    assert(cand@.contains(x));
                    let c = choose|c: int| 0 <= c < cand.len() && cand@[c] == x;
                    assert(perm@.contains(c as usize));
                    let k = choose|k: int| 0 <= k < perm.len() && perm@[k] == c as usize;
                    assert(idx@[k] == x);
                }
            }
            assert forall|a: int, b: int| 0 <= a < b < idx.len() implies rank_less(
                self.shelf().song_rank(idx@[a] as int),
                self.shelf().song_rank(idx@[b] as int),
            ) || (self.shelf().song_rank(idx@[a] as int) == self.shelf().song_rank(idx@[b] as int) && idx@[a]
                < idx@[b]) by {
                assert(precedes(ranks, perm@[a] as int, perm@[b] as int));
                if perm@[a] < perm@[b] {
                    assert(cand@[perm@[a] as int] < cand@[perm@[b] as int]);
                }
            }
        }
        idx
    }
}

/// What a song of an album or artist is listed by inside it: the album, the
/// disc, the number on the disc, and the name.
pub open spec fn inner_rank(t: Track) -> Seq<PartView> {
    seq![
        PartView::Text(lower_case(t.album@)),
        PartView::Number(t.disc as u64),
        PartView::Number(t.number as u64),
        PartView::Text(lower_case(t.title@)),
    ]
}

/// Whether some row lists the song `x`.
pub open spec fn somewhere_in(rows: Seq<RowView>, x: usize) -> bool {
    exists|k: int| 0 <= k < rows.len() && #[trigger] rows[k].tracks.contains(x)
}

/// The latest a song among `s` was added, nought for none.
pub open spec fn latest_added(ts: Seq<Track>, s: Seq<usize>) -> u64
    decreases s.len(),
{
    if s.len() == 0 {
        0
    } else {
        let rest = latest_added(ts, s.drop_last());
        let last = ts[s.last() as int].added;
        if last > rest {
            last
        } else {
            rest
        }
    }
}

/// The first sleeve among the songs `s`, from the `k`th on.
pub open spec fn first_cover_from(ts: Seq<Track>, s: Seq<usize>, k: nat) -> Option<Seq<char>>
    decreases s.len() - k,
{
    if k >= s.len() {
        None
    } else if ts[s[k as int] as int].cover is Some {
        opt_text(ts[s[k as int] as int].cover)
    } else {
        first_cover_from(ts, s, k + 1)
    }
}

/// Whether some group lists the song `x`.
pub open spec fn gathered_in(groups: Seq<Vec<usize>>, x: usize) -> bool {
    exists|k: int| 0 <= k < groups.len() && #[trigger] groups[k]@.contains(x)
}

pub(crate) fn copy_indices(v: &Vec<usize>) -> (r: Vec<usize>)
    ensures
        r@ == v@,
{
    let mut r: Vec<usize> = Vec::new();
    for i in 0..v.len()
        invariant
            r@ == v@.take(i as int),
    {
        r.push(v[i]);
        assert(v@.take(i + 1) == v@.take(i as int).push(v@[i as int]));
    }
    assert(v@.take(v.len() as int) == v@);
    r
}

fn inner_rank_of(t: &Track) -> (r: Vec<Part>)
    ensures
        rank_view(r) == inner_rank(*t),
{
    let mut r: Vec<Part> = Vec::new();
    r.push(Part::Text(lower_chars(t.album.as_str())));
    r.push(Part::Number(t.disc as u64));
    r.push(Part::Number(t.number as u64));
    r.push(Part::Text(lower_chars(t.title.as_str())));
    assert(rank_view(r) =~= inner_rank(*t));
    r
}

pub(crate) fn copy_text(s: &String) -> (r: String)
    ensures
        r@ == s@,
{
    s.clone()
}

pub(crate) fn copy_cover(c: &Option<String>) -> (r: Option<String>)
    ensures
        opt_text(r) == opt_text(*c),
{
    match c {
        Some(s) => Some(s.clone()),
        None => None,
    }
}

impl Music {
    fn group_key_of(&self, i: usize) -> (r: Vec<Part>)
        requires
            i < self.tracks.len(),
        ensures
            rank_view(r) == self.shelf().group_key(i as int),
    {
        let t = &self.tracks[i];
        let mut r: Vec<Part> = Vec::new();
        if self.tab == 1 {
            r.push(Part::Text(crate::text::chars_of(t.album_artist.as_str())));
            r.push(Part::Text(crate::text::chars_of(t.album.as_str())));
        } else {
            r.push(Part::Text(crate::text::chars_of(t.artist.as_str())));
            r.push(Part::Text(Vec::new()));
        }
        assert(rank_view(r) =~= self.shelf().group_key(i as int));
        r
    }

    /// The songs gathered under each album or artist, in the order of what
    /// they are gathered under, each group's songs in the order found.
    fn gather(&self) -> (groups: Vec<Vec<usize>>)
        ensures
            forall|k: int| 0 <= k < groups.len() ==> (#[trigger] groups@[k]).len() > 0,
            forall|k: int, a: int|
                0 <= k < groups.len() && 0 <= a < groups@[k].len() ==> #[trigger] groups@[k]@[a]
                    < self.tracks@.len() && self.shelf().group_key(groups@[k]@[a] as int) == self.shelf().group_key(
                    groups@[k]@[0] as int,
                ),
            forall|k: int, a: int, b: int|
                0 <= k < groups.len() && 0 <= a < b < groups@[k].len() ==> groups@[k]@[a]
                    < groups@[k]@[b],
            forall|k1: int, k2: int|
                0 <= k1 < k2 < groups.len() ==> rank_less(
                    self.shelf().group_key(groups@[k1]@[0] as int),
                    self.shelf().group_key(groups@[k2]@[0] as int),
                ),
            forall|x: usize| x < self.tracks@.len() ==> #[trigger] gathered_in(groups@, x),
    {
        let n = self.tracks.len();
        let mut keys: Vec<Vec<Part>> = Vec::new();
        for i in 0..n
            invariant
                n == self.tracks.len(),
                keys.len() == i,
                forall|j: int| 0 <= j < i ==> rank_view(#[trigger] keys@[j]) == self.shelf().group_key(j),
        {
            keys.push(self.group_key_of(i));
        }
        let perm = sort_ranked(&keys);
        let ghost kv = ranks_view(keys@);
        proof {
            crate::ranking::lemma_rank_order();
            assert forall|j: int| 0 <= j < n implies #[trigger] kv[j] == self.shelf().group_key(j) by {}
        }
        let mut groups: Vec<Vec<usize>> = Vec::new();
        let mut p: usize = 0;
        while p < n
            invariant
                p <= n,
                n == self.tracks.len(),
                kv == ranks_view(keys@),
                kv.len() == n,
                forall|j: int| 0 <= j < n ==> #[trigger] kv[j] == self.shelf().group_key(j),
                sorted_order(kv, perm@),
                forall|k: int| 0 <= k < groups.len() ==> (#[trigger] groups@[k]).len() > 0,
                forall|k: int, a: int|
                    0 <= k < groups.len() && 0 <= a < groups@[k].len() ==> #[trigger] groups@[k]@[a]
                        < n && kv[groups@[k]@[a] as int] == kv[groups@[k]@[0] as int],
                forall|k: int, a: int, b: int|
                    0 <= k < groups.len() && 0 <= a < b < groups@[k].len() ==> groups@[k]@[a]
                        < groups@[k]@[b],
                forall|k1: int, k2: int|
                    0 <= k1 < k2 < groups.len() ==> rank_less(
                        kv[groups@[k1]@[0] as int],
                        kv[groups@[k2]@[0] as int],
                    ),
                groups.len() > 0 && p < n ==> rank_less(
                    kv[groups@.last()@[0] as int],
                    kv[perm@[p as int] as int],
                ),
                forall|q: int| 0 <= q < p ==> #[trigger] gathered_in(groups@, perm@[q]),
            decreases n - p,
        {
            let start = p;
            let first = perm[p];
            assert(groups.len() > 0 ==> rank_less(kv[groups@.last()@[0] as int], kv[first as int]));
            let mut run: Vec<usize> = Vec::new();
            run.push(first);
            p = p + 1;
            while p < n && crate::ranking::compare_rank(&keys[first], &keys[perm[p]])
                == crate::ranking::Cmp::Same
                invariant
                    start < p <= n,
                    n == self.tracks.len(),
                    first == perm@[start as int],
                    kv == ranks_view(keys@),
                    kv.len() == n,
                    sorted_order(kv, perm@),
                    run@ == perm@.subrange(start as int, p as int),
                    forall|a: int| 0 <= a < run.len() ==> kv[#[trigger] run@[a] as int] == kv[first as int],
                    forall|a: int, b: int| 0 <= a < b < run.len() ==> run@[a] < run@[b],
                decreases n - p,
            {
                proof {
                    assert(precedes(kv, perm@[p - 1] as int, perm@[p as int] as int));
                    assert(run@.last() == perm@[p - 1]);
                }
                run.push(perm[p]);
                p = p + 1;
                proof {
                    assert(perm@.subrange(start as int, p as int) =~= perm@.subrange(
                        start as int,
                        (p - 1) as int,
                    ).push(perm@[p - 1]));
                }
            }
            proof {
                if p < n {
                    assert(precedes(kv, perm@[p - 1] as int, perm@[p as int] as int));
                    assert(run@.last() == perm@[p - 1]);
                    assert(kv[perm@[p - 1] as int] == kv[first as int]);
                    assert(kv[first as int] != kv[perm@[p as int] as int]);
                }
            }
            let ghost before = groups@;
            groups.push(run);
            proof {
                crate::ranking::lemma_rank_order();
                assert(groups@[groups.len() - 1]@ == perm@.subrange(start as int, p as int));
                assert forall|k1: int, k2: int| 0 <= k1 < k2 < groups.len() implies rank_less(
                    kv[groups@[k1]@[0] as int],
                    kv[groups@[k2]@[0] as int],
                ) by {
                    assert(groups@[k1] == before[k1]);
                    if k2 == groups.len() - 1 {
                        assert(groups@[k2]@[0] == first);
                        assert(rank_less(kv[before.last()@[0] as int], kv[first as int]));
                        if k1 < before.len() - 1 {
                            assert(rank_less(kv[before[k1]@[0] as int], kv[before.last()@[0] as int]));
                        }
                    } else {
                        assert(groups@[k2] == before[k2]);
                    }
                }
                assert forall|q: int| 0 <= q < p implies #[trigger] gathered_in(groups@, perm@[q]) by {
                    if q < start {
                        assert(gathered_in(before, perm@[q]));
                        let k = choose|k: int| 0 <= k < before.len() && #[trigger] before[k]@.contains(
                            perm@[q],
                        );
                        assert(groups@[k]@.contains(perm@[q]));
                    } else {
                        let k = groups.len() - 1;
                        assert(groups@[k]@[q - start] == perm@[q]);
                        assert(groups@[k]@.contains(perm@[q]));
                    }
                }
            }
        }
        proof {
            assert forall|x: usize| x < self.tracks@.len() implies #[trigger] gathered_in(groups@, x) by {
                assert(perm@.contains(x));
                let q = choose|q: int| 0 <= q < perm.len() && perm@[q] == x;
                assert(gathered_in(groups@, perm@[q]));
            }
        }
        groups
    }

    /// A group's songs in disc and track order, songs that compare the same
    /// in the order found.
    fn order_inside(&self, g: &Vec<usize>) -> (s: Vec<usize>)
        requires
            forall|a: int| 0 <= a < g.len() ==> #[trigger] g@[a] < self.tracks@.len(),
            forall|a: int, b: int| 0 <= a < b < g.len() ==> g@[a] < g@[b],
        ensures
            s.len() == g.len(),
            s@.no_duplicates(),
            forall|x: usize| #[trigger] s@.contains(x) <==> g@.contains(x),
            forall|a: int, b: int|
                0 <= a < b < s.len() ==> rank_less(
                    inner_rank(self.tracks@[s@[a] as int]),
                    inner_rank(self.tracks@[s@[b] as int]),
                ) || (inner_rank(self.tracks@[s@[a] as int]) == inner_rank(
                    self.tracks@[s@[b] as int],
                ) && s@[a] < s@[b]),
    {
        let mut ranks: Vec<Vec<Part>> = Vec::new();
        for j in 0..g.len()
            invariant
                forall|a: int| 0 <= a < g.len() ==> #[trigger] g@[a] < self.tracks@.len(),
                ranks.len() == j,
                forall|a: int| 0 <= a < j ==> rank_view(#[trigger] ranks@[a]) == inner_rank(
                    self.tracks@[g@[a] as int],
                ),
        {
            ranks.push(inner_rank_of(&self.tracks[g[j]]));
        }
        let perm = sort_ranked(&ranks);
        let ghost rv = ranks_view(ranks@);
        let mut s: Vec<usize> = Vec::new();
        for k in 0..perm.len()
            invariant
                perm.len() == g.len(),
                forall|j: int| 0 <= j < perm.len() ==> #[trigger] perm@[j] < g.len(),
                s.len() == k,
                forall|j: int| 0 <= j < k ==> #[trigger] s@[j] == g@[perm@[j] as int],
        {
            s.push(g[perm[k]]);
        }
        proof {
            assert forall|j: int| 0 <= j < g.len() implies #[trigger] rv[j] == inner_rank(
                self.tracks@[g@[j] as int],
            ) by {}
            assert(s@.no_duplicates()) by {
                assert forall|a: int, b: int| 0 <= a < s.len() && 0 <= b < s.len() && a != b implies s@[a]
                    != s@[b] by {
                    assert(perm@[a] != perm@[b]);
                    if perm@[a] < perm@[b] {
                        assert(g@[perm@[a] as int] < g@[perm@[b] as int]);
                    } else {
                        assert(g@[perm@[b] as int] < g@[perm@[a] as int]);
                    }
                }
            }
            assert forall|x: usize| #[trigger] s@.contains(x) <==> g@.contains(x) by {
                if s@.contains(x) {
                    let k = choose|k: int| 0 <= k < s.len() && s@[k] == x;
                    assert(g@[perm@[k] as int] == x);
                }
                if g@.contains(x) {
                    let c = choose|c: int| 0 <= c < g.len() && g@[c] == x;
                    assert(perm@.contains(c as usize));
                    let k = choose|k: int| 0 <= k < perm.len() && perm@[k] == c as usize;
                    assert(s@[k] == x);
                }
            }
            assert forall|a: int, b: int| 0 <= a < b < s.len() implies rank_less(
                inner_rank(self.tracks@[s@[a] as int]),
                inner_rank(self.tracks@[s@[b] as int]),
            ) || (inner_rank(self.tracks@[s@[a] as int]) == inner_rank(self.tracks@[s@[b] as int])
                && s@[a] < s@[b]) by {
                assert(precedes(rv, perm@[a] as int, perm@[b] as int));
                if perm@[a] < perm@[b] {
                    assert(g@[perm@[a] as int] < g@[perm@[b] as int]);
                }
            }
        }
        s
    }

    fn latest(&self, s: &Vec<usize>) -> (r: u64)
        requires
            forall|a: int| 0 <= a < s.len() ==> #[trigger] s@[a] < self.tracks@.len(),
        ensures
            r == latest_added(self.tracks@, s@),
    {
        let mut r: u64 = 0;
        for j in 0..s.len()
            invariant
                forall|a: int| 0 <= a < s.len() ==> #[trigger] s@[a] < self.tracks@.len(),
                r == latest_added(self.tracks@, s@.take(j as int)),
        {
            assert(s@.take(j + 1).drop_last() == s@.take(j as int));
            let added = self.tracks[s[j]].added;
            if added > r {
                r = added;
            }
        }
        assert(s@.take(s.len() as int) == s@);
        r
    }

    fn first_cover(&self, s: &Vec<usize>) -> (r: Option<String>)
        requires
            forall|a: int| 0 <= a < s.len() ==> #[trigger] s@[a] < self.tracks@.len(),
        ensures
            opt_text(r) == first_cover_from(self.tracks@, s@, 0),
    {
        let mut j: usize = 0;
        while j < s.len()
            invariant
                j <= s.len(),
                forall|a: int| 0 <= a < s.len() ==> #[trigger] s@[a] < self.tracks@.len(),
                first_cover_from(self.tracks@, s@, 0) == first_cover_from(self.tracks@, s@, j as nat),
            decreases s.len() - j,
        {
            let t = &self.tracks[s[j]];
            if t.cover.is_some() {
                return copy_cover(&t.cover);
            }
            j = j + 1;
        }
        None
    }

    /// The rows of the wall of albums or the list of artists.
    fn group_rows(&self) -> (rows: Vec<Row>)
        requires
            self.tab == 1 || self.tab == 2,
        ensures
            self.shelf().grouped(rows_view(rows@)),
    {
        let groups = self.gather();
        let mut inside: Vec<Vec<usize>> = Vec::new();
        let mut keys: Vec<SortKey> = Vec::new();
        for k in 0..groups.len()
            invariant
                inside.len() == k,
                keys.len() == k,
                forall|k: int| 0 <= k < groups.len() ==> (#[trigger] groups@[k]).len() > 0,
                forall|k: int, a: int|
                    0 <= k < groups.len() && 0 <= a < groups@[k].len() ==> #[trigger] groups@[k]@[a]
                        < self.tracks@.len() && self.shelf().group_key(groups@[k]@[a] as int)
                        == self.shelf().group_key(groups@[k]@[0] as int),
                forall|k: int, a: int, b: int|
                    0 <= k < groups.len() && 0 <= a < b < groups@[k].len() ==> groups@[k]@[a]
                        < groups@[k]@[b],
                forall|j: int| 0 <= j < k ==> (#[trigger] inside@[j]).len() == groups@[j].len(),
                forall|j: int| 0 <= j < k ==> (#[trigger] inside@[j])@.no_duplicates(),
                forall|j: int, x: usize| 0 <= j < k ==> (#[trigger] inside@[j]@.contains(x) <==> groups@[j]@.contains(x)),
                forall|j: int, a: int, b: int|
                    0 <= j < k && 0 <= a < b < inside@[j].len() ==> rank_less(
                        inner_rank(self.tracks@[inside@[j]@[a] as int]),
                        inner_rank(self.tracks@[inside@[j]@[b] as int]),
                    ) || (inner_rank(self.tracks@[inside@[j]@[a] as int]) == inner_rank(
                        self.tracks@[inside@[j]@[b] as int],
                    ) && inside@[j]@[a] < inside@[j]@[b]),
                forall|j: int| 0 <= j < k ==> order_rank(self.order, (#[trigger] keys@[j])@) == self.shelf().group_rank(inside@[j]@),
        {
            let s = self.order_inside(&groups[k]);
            proof {
                assert(groups@[k as int]@.contains(groups@[k as int]@[0]));
                assert(s@.contains(groups@[k as int]@[0]));
                assert forall|a: int| 0 <= a < s.len() implies #[trigger] s@[a] < self.tracks@.len() by {
                    assert(s@.contains(s@[a]));
                }
            }
            let first = &self.tracks[s[0]];
            let label = if self.tab == 1 {
                &first.album
            } else {
                &first.artist
            };
            let key = SortKey {
                name: lower_chars(label.as_str()),
                artist: lower_chars(first.album_artist.as_str()),
                album: lower_chars(first.album.as_str()),
                added: self.latest(&s),
            };
            proof {
                assert(order_rank(self.order, key@) == self.shelf().group_rank(s@));
            }
            keys.push(key);
            inside.push(s);
        }
        let perm = sort_rows(&keys, self.order);
        let ghost ranks = keys@.map_values(|k: SortKey| order_rank(self.order, k@));
        let mut rows: Vec<Row> = Vec::new();
        for k in 0..perm.len()
            invariant
                perm.len() == inside.len(),
                inside.len() == groups.len(),
                forall|j: int| 0 <= j < perm.len() ==> #[trigger] perm@[j] < inside.len(),
                forall|j: int| 0 <= j < inside.len() ==> (#[trigger] inside@[j]).len() == groups@[j].len(),
                forall|k: int| 0 <= k < groups.len() ==> (#[trigger] groups@[k]).len() > 0,
                forall|j: int, x: usize| 0 <= j < inside.len() ==> (#[trigger] inside@[j]@.contains(x) <==> groups@[j]@.contains(x)),
                forall|k: int, a: int|
                    0 <= k < groups.len() && 0 <= a < groups@[k].len() ==> #[trigger] groups@[k]@[a]
                        < self.tracks@.len(),
                rows.len() == k,
                forall|j: int| 0 <= j < k ==> (#[trigger] rows@[j])@ == self.shelf().group_row(inside@[perm@[j] as int]@),
        {
            let s = &inside[perm[k]];
            proof {
                assert forall|a: int| 0 <= a < s.len() implies #[trigger] s@[a] < self.tracks@.len() by {
                    assert(s@.contains(s@[a]));
                    let g = groups@[perm@[k as int] as int];
                    let c = choose|c: int| 0 <= c < g.len() && g@[c] == s@[a];
                }
                assert(s@.contains(s@[0]));
            }
            let first = &self.tracks[s[0]];
            let row = Row {
                label: if self.tab == 1 {
                    copy_text(&first.album)
                } else {
                    copy_text(&first.artist)
                },
                detail: if self.tab == 1 {
                    copy_text(&first.album_artist)
                } else {
                    String::new()
                },
                tracks: copy_indices(s),
                cover: self.first_cover(s),
                queue_at: None,
            };
            proof {
                assert(row@ == self.shelf().group_row(s@));
            }
            rows.push(row);
        }
        proof {
            let rv = rows_view(rows@);
            assert forall|k: int| 0 <= k < rv.len() implies #[trigger] rv[k] == self.shelf().group_row(
                inside@[perm@[k] as int]@,
            ) by {}
            // Every song of a row sits under the same heading as its first.
            assert forall|j: int, a: int|
                0 <= j < inside.len() && 0 <= a < inside@[j].len() implies #[trigger] inside@[j]@[a]
                < self.tracks@.len() && self.shelf().group_key(inside@[j]@[a] as int) == self.shelf().group_key(
                groups@[j]@[0] as int,
            ) by {
                assert(inside@[j]@.contains(inside@[j]@[a]));
                let c = choose|c: int| 0 <= c < groups@[j].len() && groups@[j]@[c] == inside@[j]@[a];
                assert(groups@[j]@[c] < self.tracks@.len());
            }
            assert forall|k: int, a: int|
                0 <= k < rv.len() && 0 <= a < rv[k].tracks.len() implies #[trigger] rv[k].tracks[a]
                < self.tracks@.len() && self.shelf().group_key(rv[k].tracks[a] as int) == self.shelf().group_key(
                rv[k].tracks[0] as int,
            ) by {
                let j = perm@[k] as int;
                assert(rv[k].tracks == inside@[j]@);
                assert(self.shelf().group_key(inside@[j]@[a] as int) == self.shelf().group_key(groups@[j]@[0] as int));
                assert(self.shelf().group_key(inside@[j]@[0] as int) == self.shelf().group_key(groups@[j]@[0] as int));
            }
            crate::ranking::lemma_rank_order();
            assert forall|k1: int, k2: int|
                0 <= k1 < rv.len() && 0 <= k2 < rv.len() && k1 != k2 implies self.shelf().group_key(
                rv[k1].tracks[0] as int,
            ) != self.shelf().group_key(rv[k2].tracks[0] as int) by {
                let j1 = perm@[k1] as int;
                let j2 = perm@[k2] as int;
                assert(j1 != j2);
                assert(self.shelf().group_key(inside@[j1]@[0] as int) == self.shelf().group_key(groups@[j1]@[0] as int));
                assert(self.shelf().group_key(inside@[j2]@[0] as int) == self.shelf().group_key(groups@[j2]@[0] as int));
                if j1 < j2 {
                    assert(rank_less(self.shelf().group_key(groups@[j1]@[0] as int), self.shelf().group_key(groups@[j2]@[0] as int)));
                } else {
                    assert(rank_less(self.shelf().group_key(groups@[j2]@[0] as int), self.shelf().group_key(groups@[j1]@[0] as int)));
                }
            }
            assert forall|x: usize| x < self.tracks@.len() implies #[trigger] somewhere_in(rv, x) by {
                assert(gathered_in(groups@, x));
                let j = choose|j: int| 0 <= j < groups.len() && #[trigger] groups@[j]@.contains(x);
                assert(inside@[j]@.contains(x));
                assert(perm@.contains(j as usize));
                let k = choose|k: int| 0 <= k < perm.len() && perm@[k] == j as usize;
                assert(rv[k].tracks.contains(x));
            }
            assert forall|k1: int, k2: int| 0 <= k1 < k2 < rv.len() implies rank_less(
                self.shelf().group_rank(rv[k1].tracks),
                self.shelf().group_rank(rv[k2].tracks),
            ) || (self.shelf().group_rank(rv[k1].tracks) == self.shelf().group_rank(rv[k2].tracks) && rank_less(
                self.shelf().group_key(rv[k1].tracks[0] as int),
                self.shelf().group_key(rv[k2].tracks[0] as int),
            )) by {
                let j1 = perm@[k1] as int;
                let j2 = perm@[k2] as int;
                assert(precedes(ranks, j1, j2));
                assert(ranks[j1] == self.shelf().group_rank(inside@[j1]@));
                assert(ranks[j2] == self.shelf().group_rank(inside@[j2]@));
                assert(self.shelf().group_key(inside@[j1]@[0] as int) == self.shelf().group_key(groups@[j1]@[0] as int));
                assert(self.shelf().group_key(inside@[j2]@[0] as int) == self.shelf().group_key(groups@[j2]@[0] as int));
            }
            assert forall|k: int, a: int, b: int|
                0 <= k < rv.len() && 0 <= a < b < rv[k].tracks.len() implies rank_less(
                inner_rank(self.tracks@[rv[k].tracks[a] as int]),
                inner_rank(self.tracks@[rv[k].tracks[b] as int]),
            ) || (inner_rank(self.tracks@[rv[k].tracks[a] as int]) == inner_rank(
                self.tracks@[rv[k].tracks[b] as int],
            ) && rv[k].tracks[a] < rv[k].tracks[b]) by {
                let j = perm@[k] as int;
                assert(rv[k].tracks == inside@[j]@);
            }
        }
        rows
    }
}

impl Music {

    fn song_rows(&self) -> (rows: Vec<Row>)
        requires
            self.wf_library(),
            !(self.group is None && (self.tab == 1 || self.tab == 2)),
        ensures
            self.shelf().listed(rows_view(rows@)),
    {
        let idx: Vec<usize> = match &self.group {
            Some(g) => copy_indices(&g.tracks),
            None => if self.tab == 4 {
                copy_indices(self.queue.entries())
            } else {
                self.shelf_songs()
            },
        };
        proof {
            assert forall|k: int| 0 <= k < idx.len() implies #[trigger] idx@[k] < self.tracks@.len() by {
                if self.group is None && self.tab != 4 {
                    assert(idx@.contains(idx@[k]));
                }
            }
        }
        let queue_shelf = self.tab == 4 && self.group.is_none();
        let mut rows: Vec<Row> = Vec::new();
        for k in 0..idx.len()
            invariant
                forall|j: int| 0 <= j < idx.len() ==> #[trigger] idx@[j] < self.tracks@.len(),
                queue_shelf == (self.tab == 4 && self.group is None),
                rows.len() == k,
                forall|j: int|
                    0 <= j < k ==> (#[trigger] rows@[j])@ == song_row(
                        self.tracks@[idx@[j] as int],
                        idx@[j],
                        if queue_shelf { Some(j as usize) } else { None },
                    ),
        {
            let t = &self.tracks[idx[k]];
            let row = Row {
                label: copy_text(&t.title),
                detail: copy_text(&t.artist),
                tracks: vec![idx[k]],
                cover: copy_cover(&t.cover),
                queue_at: if queue_shelf {
                    Some(k)
                } else {
                    None
                },
            };
            proof {
                assert(row@.tracks =~= seq![idx@[k as int]]);
            }
            rows.push(row);
        }
        proof {
            let rv = rows_view(rows@);
            assert(rv.map_values(|r: RowView| r.tracks[0]) =~= idx@);
        }
        rows
    }

    /// Lay the browser's rows out again from the library, keeping the light
    /// on the row it was on where that row is still there.
    pub fn rebuild(&mut self)
        requires
            old(self).wf_library(),
        ensures
            final(self).wf(),
            old(self).shelf().shelved(rows_view(final(self).rows@)),
            final(self).spot() == (Spot {
                selected: if old(self).selected < final(self).rows.len() {
                    old(self).selected
                } else if final(self).rows.len() > 0 {
                    (final(self).rows.len() - 1) as usize
                } else {
                    0
                },
                ..old(self).spot()
            }),
            final(self).unchanged_but_rows(*old(self)),
    {
        let rows = if self.group.is_none() && (self.tab == 1 || self.tab == 2) {
            self.group_rows()
        } else {
            self.song_rows()
        };
        self.rows = rows;
        if self.selected >= self.rows.len() {
            self.selected = if self.rows.len() > 0 {
                self.rows.len() - 1
            } else {
                0
            };
        }
        proof {
            let rv = rows_view(self.rows@);
            assert forall|k: int, a: int|
                0 <= k < self.rows@.len() && 0 <= a < self.rows@[k].tracks@.len() implies #[trigger] self.rows@[k].tracks@[a]
                < self.tracks@.len() by {
                assert(rv[k].tracks == self.rows@[k].tracks@);
            }
        }
    }
}

/// The albums the songs are on: an album is its artist and its title
/// together, so one title by two artists is two albums.
pub open spec fn albums_of(ts: Seq<Track>) -> Set<(Seq<char>, Seq<char>)> {
    Set::new(|a: (Seq<char>, Seq<char>)| exists|i: int| 0 <= i < ts.len() && a == (#[trigger] ts[i].album_artist@, ts[i].album@))
}

/// What an album is ordered by: its artist, then its title.
pub open spec fn album_rank(a: (Seq<char>, Seq<char>)) -> Seq<PartView> {
    seq![PartView::Text(a.0), PartView::Text(a.1)]
}

/// The albums of the songs at `perm[..k]`.
pub open spec fn albums_in(ts: Seq<Track>, perm: Seq<usize>, k: int) -> Set<(Seq<char>, Seq<char>)> {
    Set::new(|a: (Seq<char>, Seq<char>)| exists|j: int| 0 <= j < k && a == (#[trigger] ts[perm[j] as int].album_artist@, ts[perm[j] as int].album@))
}

impl Music {
    /// How many albums the library holds.
    pub fn album_count(&self) -> (r: usize)
        ensures
            r == albums_of(self.tracks@).len(),
    {
        let n = self.tracks.len();
        let ghost ts = self.tracks@;
        let mut keys: Vec<Vec<Part>> = Vec::new();
        for i in 0..n
            invariant
                n == self.tracks.len(),
                ts == self.tracks@,
                keys.len() == i,
                forall|j: int| 0 <= j < i ==> rank_view(#[trigger] keys@[j]) == album_rank((ts[j].album_artist@, ts[j].album@)),
        {
            let t = &self.tracks[i];
            let mut key: Vec<Part> = Vec::new();
            key.push(Part::Text(crate::text::chars_of(t.album_artist.as_str())));
            key.push(Part::Text(crate::text::chars_of(t.album.as_str())));
            assert(rank_view(key) =~= album_rank((ts[i as int].album_artist@, ts[i as int].album@)));
            keys.push(key);
        }
        let perm = sort_ranked(&keys);
        let ghost kv = ranks_view(keys@);
        proof {
            crate::ranking::lemma_rank_order();
            assert forall|j: int| 0 <= j < n implies #[trigger] kv[j] == album_rank((ts[j].album_artist@, ts[j].album@)) by {}
        }
        let mut count: usize = 0;
        let mut k: usize = 0;
        proof {
            assert(albums_in(ts, perm@, 0) =~= Set::empty());
        }
        while k < n
            invariant
                k <= n,
                n == self.tracks.len(),
                ts == self.tracks@,
                kv == ranks_view(keys@),
                kv.len() == n,
                forall|j: int| 0 <= j < n ==> #[trigger] kv[j] == album_rank((ts[j].album_artist@, ts[j].album@)),
                sorted_order(kv, perm@),
                albums_in(ts, perm@, k as int).finite(),
                count == albums_in(ts, perm@, k as int).len(),
                count <= k,
            decreases n - k,
        {
            let ghost before = albums_in(ts, perm@, k as int);
            let ghost cur = (ts[perm@[k as int] as int].album_artist@, ts[perm@[k as int] as int].album@);
            let fresh = k == 0 || crate::ranking::compare_rank(&keys[perm[k - 1]], &keys[perm[k]])
                != crate::ranking::Cmp::Same;
            proof {
                assert(albums_in(ts, perm@, k + 1) =~= before.insert(cur)) by {
                    assert forall|a: (Seq<char>, Seq<char>)| albums_in(ts, perm@, k + 1).contains(a)
                        implies #[trigger] before.insert(cur).contains(a) by {
                        let j = choose|j: int| 0 <= j < k + 1 && a == (#[trigger] ts[perm@[j] as int].album_artist@, ts[perm@[j] as int].album@);
                        if j < k {
                            assert(before.contains(a));
                        }
                    }
                    assert forall|a: (Seq<char>, Seq<char>)| before.insert(cur).contains(a)
                        implies #[trigger] albums_in(ts, perm@, k + 1).contains(a) by {
                        if a == cur {
                            assert(a == (ts[perm@[k as int] as int].album_artist@, ts[perm@[k as int] as int].album@));
                        } else {
                            let j = choose|j: int| 0 <= j < k && a == (#[trigger] ts[perm@[j] as int].album_artist@, ts[perm@[j] as int].album@);
                            assert(0 <= j < k + 1);
                        }
                    }
                }
                if fresh {
                    if k > 0 {
                        let last = perm@[k - 1] as int;
                        assert(kv[last] != kv[perm@[k as int] as int]);
                        assert forall|a: (Seq<char>, Seq<char>)| before.contains(a) implies a != cur by {
                            let j = choose|j: int| 0 <= j < k && a == (#[trigger] ts[perm@[j] as int].album_artist@, ts[perm@[j] as int].album@);
                            assert(precedes(kv, perm@[j] as int, perm@[k as int] as int));
                            if j < k - 1 {
                                assert(precedes(kv, perm@[j] as int, last));
                            }
                            if a == cur {
                                assert(kv[perm@[j] as int] == kv[perm@[k as int] as int]);
                                if j < k - 1 {
                                    assert(precedes(kv, last, perm@[k as int] as int));
                                    assert(rank_less(kv[perm@[j] as int], kv[last]) || kv[perm@[j] as int] == kv[last]);
                                    assert(rank_less(kv[last], kv[perm@[k as int] as int]));
                                }
                            }
                        }
                    }
                    assert(!before.contains(cur));
                } else {
                    let last = perm@[k - 1] as int;
                    assert(kv[last] == kv[perm@[k as int] as int]);
                    assert(album_rank((ts[last].album_artist@, ts[last].album@)) == album_rank(cur));
                    assert(album_rank((ts[last].album_artist@, ts[last].album@))[0] == album_rank(cur)[0]);
                    assert(album_rank((ts[last].album_artist@, ts[last].album@))[1] == album_rank(cur)[1]);
                    assert((ts[last].album_artist@, ts[last].album@) == cur);
                    assert(before.contains(cur));
                }
            }
            if fresh {
                count = count + 1;
            }
            k = k + 1;
        }
        proof {
            assert(albums_in(ts, perm@, n as int) =~= albums_of(ts)) by {
                assert forall|a: (Seq<char>, Seq<char>)| albums_of(ts).contains(a)
                    implies #[trigger] albums_in(ts, perm@, n as int).contains(a) by {
                    let i = choose|i: int| 0 <= i < ts.len() && a == (#[trigger] ts[i].album_artist@, ts[i].album@);
                    assert(perm@.contains(i as usize));
                    let j = choose|j: int| 0 <= j < perm@.len() && perm@[j] == i as usize;
                    assert(a == (ts[perm@[j] as int].album_artist@, ts[perm@[j] as int].album@));
                }
                assert forall|a: (Seq<char>, Seq<char>)| albums_in(ts, perm@, n as int).contains(a)
                    implies #[trigger] albums_of(ts).contains(a) by {
                    let j = choose|j: int| 0 <= j < n && a == (#[trigger] ts[perm@[j] as int].album_artist@, ts[perm@[j] as int].album@);
                    let i = perm@[j] as int;
                    assert(a == (ts[i].album_artist@, ts[i].album@));
                }
            }
        }
        count
    }
}

/// Songs are listed inside an album or artist by the album's name first, in
/// lower case, then the disc, then the number on the disc, then the song's
/// name: the first of these that differs decides, whatever the later ones
/// say.
pub proof fn law_inside_a_group_album_then_disc_then_number(x: Track, y: Track)
    ensures
        text_less(lower_case(x.album@), lower_case(y.album@)) ==> rank_less(inner_rank(x), inner_rank(y)),
        lower_case(x.album@) == lower_case(y.album@) && x.disc < y.disc ==> rank_less(
            inner_rank(x),
            inner_rank(y),
        ),
        lower_case(x.album@) == lower_case(y.album@) && x.disc == y.disc && x.number < y.number
            ==> rank_less(inner_rank(x), inner_rank(y)),
        lower_case(x.album@) == lower_case(y.album@) && x.disc == y.disc && x.number == y.number
            && text_less(lower_case(x.title@), lower_case(y.title@)) ==> rank_less(
            inner_rank(x),
            inner_rank(y),
        ),
{
    lemma_text_order();
    let a = inner_rank(x);
    let b = inner_rank(y);
    if text_less(lower_case(x.album@), lower_case(y.album@)) {
        lemma_first_difference_is(a, b, 0);
    } else if lower_case(x.album@) == lower_case(y.album@) && x.disc < y.disc {
        lemma_first_difference_is(a, b, 1);
    } else if lower_case(x.album@) == lower_case(y.album@) && x.disc == y.disc && x.number < y.number {
        lemma_first_difference_is(a, b, 2);
    } else if lower_case(x.album@) == lower_case(y.album@) && x.disc == y.disc && x.number == y.number
        && text_less(lower_case(x.title@), lower_case(y.title@)) {
        lemma_first_difference_is(a, b, 3);
    }
}

/// On the wall of albums or of artists, a row's songs come album by album:
/// a song of an album whose lower-case name is later never stands before one
/// of an earlier album, and inside one album the discs and then the numbers
/// on them go up.
pub proof fn law_a_rows_songs_go_album_by_album(s: ShelfView, rows: Seq<RowView>, k: int, i: int, j: int)
    requires
        s.grouped(rows),
        0 <= k < rows.len(),
        0 <= i < j < rows[k].tracks.len(),
    ensures
        ({
            let x = s.tracks[rows[k].tracks[i] as int];
            let y = s.tracks[rows[k].tracks[j] as int];
            &&& !text_less(lower_case(y.album@), lower_case(x.album@))
            &&& lower_case(x.album@) == lower_case(y.album@) ==> x.disc <= y.disc
            &&& lower_case(x.album@) == lower_case(y.album@) && x.disc == y.disc ==> x.number
                <= y.number
        }),
{
    let x = s.tracks[rows[k].tracks[i] as int];
    let y = s.tracks[rows[k].tracks[j] as int];
    lemma_rank_order();
    law_inside_a_group_album_then_disc_then_number(y, x);
    assert(rank_less(inner_rank(x), inner_rank(y)) || inner_rank(x) == inner_rank(y));
}

} // verus!
