//! What a pointer can land on, and the numbers the pages write those places
//! down by.
//!
//! A row is numbered by the place it was drawn in rather than by where it
//! stands in the library, so a list of a hundred thousand songs numbers no
//! more places than a list of twenty.
use vstd::prelude::*;
use crate::acts::{group_left, only_queue, playing_page, pressed, activated, Activated, Left, Pressed};
use crate::music::{
    Music, Screen, Spot, Zone, BAR_LOUDNESS, BAR_POSITION, FIRST_BUTTON, NOW_PLAYING, RAIL_ADD_FOLDER,
    RAIL_OPTIONS, TAB_COUNT, TRANSPORT,
};
use crate::shelf::rows_view;

verus! {

pub const TAB: u32 = 100;
pub const CONTROL: u32 = 200;
pub const ADD_FOLDER: u32 = 300;
pub const OPTIONS: u32 = 301;
pub const HEADING: u32 = 302;
pub const STRIP: u32 = 303;
pub const VOLUME: u32 = 304;
pub const POSITION: u32 = 305;
/// The big button standing where the songs would be when there are none. It
/// is not the rail's own Add a folder: two places sharing a number are two
/// controls that cannot both be pressed.
pub const ADD_FOLDER_HERE: u32 = 306;
pub const QUEUED: u32 = 400;
pub const ROW: u32 = 1000;
/// The places the button legend's hints are numbered from, one for each of
/// its buttons, above every number a page gives its own places.
pub const LEGEND: u32 = 4000;
/// How many hints the legend numbers.
pub const HINTS: u32 = 4;

/// How many rows of the up-next list a page draws at most.
pub const QUEUE_SLOTS: u32 = 12;

/// The mark a record with no sleeve of its own wears: the shell's own mark
/// for music.
pub const RECORD: &'static str = "category-music";

/// How the light is drawn on what it stands on.
#[derive(Debug, Clone, Copy, PartialEq, Eq, Structural)]
pub enum Lit {
    /// A card, a row in a list, a tab on the rail.
    Card,
    /// A chip: a button of the strip.
    Chip,
}

/// A place a pointer can land on.
#[derive(Debug, Clone, Copy, PartialEq, Eq, Structural)]
pub enum Target {
    /// A shelf of the rail.
    Tab(usize),
    /// A row of the strip.
    Control(usize),
    AddFolder,
    Options,
    /// The heading of an open album, which leads back out of it.
    Heading,
    /// The record at the head of the strip.
    Strip,
    Volume,
    Position,
    AddFolderHere,
    /// A row of the up-next list, by the place it was drawn in.
    Queued(usize),
    /// A row or card of the browser, by the place it was drawn in.
    Row(usize),
}

/// The number a place is written down by.
pub open spec fn spot_number(t: Target) -> int {
    match t {
        Target::Tab(k) => TAB + k,
        Target::Control(k) => CONTROL + k,
        Target::AddFolder => ADD_FOLDER as int,
        Target::Options => OPTIONS as int,
        Target::Heading => HEADING as int,
        Target::Strip => STRIP as int,
        Target::Volume => VOLUME as int,
        Target::Position => POSITION as int,
        Target::AddFolderHere => ADD_FOLDER_HERE as int,
        Target::Queued(k) => QUEUED + k,
        Target::Row(k) => ROW + k,
    }
}

/// A place that has a number of its own: a shelf there is, a row of the
/// strip there is, a row of the up-next list a page draws, and a browser row
/// whose number stays below the legend's.
pub open spec fn numbered(t: Target) -> bool {
    match t {
        Target::Tab(k) => k < TAB_COUNT,
        Target::Control(k) => k < TRANSPORT,
        Target::Queued(k) => k < QUEUE_SLOTS,
        Target::Row(k) => ROW + k < LEGEND,
        _ => true,
    }
}

/// The place a number stands for, if it stands for one.
pub open spec fn target_at(id: u32) -> Option<Target> {
    if TAB <= id < TAB + TAB_COUNT {
        Some(Target::Tab((id - TAB) as usize))
    } else if CONTROL <= id < CONTROL + TRANSPORT {
        Some(Target::Control((id - CONTROL) as usize))
    } else if id == ADD_FOLDER {
        Some(Target::AddFolder)
    } else if id == OPTIONS {
        Some(Target::Options)
    } else if id == HEADING {
        Some(Target::Heading)
    } else if id == STRIP {
        Some(Target::Strip)
    } else if id == VOLUME {
        Some(Target::Volume)
    } else if id == POSITION {
        Some(Target::Position)
    } else if id == ADD_FOLDER_HERE {
        Some(Target::AddFolderHere)
    } else if QUEUED <= id < QUEUED + QUEUE_SLOTS {
        Some(Target::Queued((id - QUEUED) as usize))
    } else if ROW <= id < LEGEND {
        Some(Target::Row((id - ROW) as usize))
    } else {
        None
    }
}

/// The number a place is written down by, where it has one.
pub fn spot(t: Target) -> (r: Option<u32>)
    ensures
        numbered(t) ==> r == Some(spot_number(t) as u32),
        !numbered(t) ==> r is None,
{
    match t {
        Target::Tab(k) => if k < TAB_COUNT {
            Some(TAB + k as u32)
        } else {
            None
        },
        Target::Control(k) => if k < TRANSPORT {
            Some(CONTROL + k as u32)
        } else {
            None
        },
        Target::AddFolder => Some(ADD_FOLDER),
        Target::Options => Some(OPTIONS),
        Target::Heading => Some(HEADING),
        Target::Strip => Some(STRIP),
        Target::Volume => Some(VOLUME),
        Target::Position => Some(POSITION),
        Target::AddFolderHere => Some(ADD_FOLDER_HERE),
        Target::Queued(k) => if k < QUEUE_SLOTS as usize {
            Some(QUEUED + k as u32)
        } else {
            None
        },
        Target::Row(k) => if k < (LEGEND - ROW) as usize {
            Some(ROW + k as u32)
        } else {
            None
        },
    }
}

/// The place a number stands for, if it stands for one.
pub fn target(id: u32) -> (r: Option<Target>)
    ensures
        r == target_at(id),
{
    if TAB <= id && id < TAB + TAB_COUNT as u32 {
        Some(Target::Tab((id - TAB) as usize))
    } else if CONTROL <= id && id < CONTROL + TRANSPORT as u32 {
        Some(Target::Control((id - CONTROL) as usize))
    } else if id == ADD_FOLDER {
        Some(Target::AddFolder)
    } else if id == OPTIONS {
        Some(Target::Options)
    } else if id == HEADING {
        Some(Target::Heading)
    } else if id == STRIP {
        Some(Target::Strip)
    } else if id == VOLUME {
        Some(Target::Volume)
    } else if id == POSITION {
        Some(Target::Position)
    } else if id == ADD_FOLDER_HERE {
        Some(Target::AddFolderHere)
    } else if QUEUED <= id && id < QUEUED + QUEUE_SLOTS {
        Some(Target::Queued((id - QUEUED) as usize))
    } else if ROW <= id && id < LEGEND {
        Some(Target::Row((id - ROW) as usize))
    } else {
        None
    }
}

/// Which of the legend's hints a number stands for, counted from the first.
pub fn hint_at(id: u32) -> (r: Option<usize>)
    ensures
        r == if LEGEND <= id < LEGEND + HINTS {
            Some((id - LEGEND) as usize)
        } else {
            None::<usize>
        },
{
    if LEGEND <= id && id < LEGEND + HINTS {
        Some((id - LEGEND) as usize)
    } else {
        None
    }
}

/// No place a page numbers can take a number of the legend's: every one
/// stands below the first of them, and the legend's numbers name no place.
pub proof fn law_the_legend_numbers_are_its_own(t: Target, id: u32)
    requires
        numbered(t),
        LEGEND <= id,
    ensures
        spot_number(t) < LEGEND,
        target_at(id) is None,
{
}

/// Every place with a number is found again by it: no two places share
/// one, and the up-next rows are numbered clear of everything else.
pub proof fn law_each_number_names_one_place(t: Target)
    requires
        numbered(t),
    ensures
        0 <= spot_number(t) <= u32::MAX,
        target_at(spot_number(t) as u32) == Some(t),
{
}

/// Two places with numbers have the same number only if they are the same
/// place.
pub proof fn law_no_two_places_share_a_number(a: Target, b: Target)
    requires
        numbered(a),
        numbered(b),
        spot_number(a) == spot_number(b),
    ensures
        a == b,
{
    law_each_number_names_one_place(a);
    law_each_number_names_one_place(b);
}

/// What a pointer press did.
pub enum Pointed {
    /// A page is still crossing, and takes no presses.
    Ignored,
    /// A shelf of the rail opened.
    Shelf,
    /// A row of the browser was chosen.
    Chose(Activated),
    /// A row of the up-next list: whether the song there is to start.
    Queued(bool),
    /// A button of the strip.
    Pressed(Pressed),
    /// A folder is to be asked for.
    PickFolder,
    /// The light went to what was pressed, and that is all: the rail's
    /// Options row, which raises nothing.
    Moved,
    /// The heading of an album: what leaving it left, if one was open.
    Left(Option<Left>),
    /// The light is on the loudness bar, which is to be set where the
    /// pointer is.
    Loudness,
    /// The light is on the position bar, which is to be set where the
    /// pointer is.
    Seek,
    /// The record at the head of the strip: whether the Now Playing page
    /// opened.
    Opened(bool),
}

/// What a pointer press on a place does: the light goes to what was pressed,
/// and that is done as if it had been chosen there. A row is the row the
/// browser or the up-next list drew there, by its index in the list.
pub open spec fn pointed_at(
    before: Music,
    after: Music,
    at: Target,
    past_start: bool,
    ended_or_failed: bool,
    p: Pointed,
) -> bool {
    if before.crossing is Some {
        p is Ignored && after == before
    } else {
        match at {
            Target::Tab(k) => if k < TAB_COUNT {
                &&& p is Shelf
                &&& after.spot() == (Spot { tab: k, rail: k, selected: 0, zone: Zone::Sidebar, ..before.spot() })
                &&& after.group is None
                &&& after.shelf().shelved(rows_view(after.rows@))
                &&& after.queue == before.queue
                &&& after.tracks == before.tracks
                &&& after.favourites == before.favourites
                &&& after.order == before.order
                &&& after.columns == before.columns
                &&& after.crossing == before.crossing
                &&& after.demo == before.demo
                &&& after.menu == before.menu
            } else {
                p is Ignored && after == before
            },
            Target::Row(index) => {
                let chosen = Music { selected: index, zone: Zone::Library, ..before };
                p matches Pointed::Chose(a) && activated(chosen, after, a)
            },
            Target::Queued(index) => {
                let lit = Music { zone: Zone::Queue, queued: index, ..before };
                if index < before.queue@.entries.len() {
                    p == Pointed::Queued(true) && only_queue(lit, after) && after.queue@
                        == before.queue@.selected(index)
                } else {
                    p == Pointed::Queued(false) && after == lit
                }
            },
            Target::Control(index) => if FIRST_BUTTON <= index < TRANSPORT {
                let lit = Music { zone: Zone::Transport, transport: index, ..before };
                p matches Pointed::Pressed(x) && pressed(lit, after, index, past_start, ended_or_failed, x)
            } else {
                p is Ignored && after == before
            },
            Target::AddFolder => p is PickFolder && after == (Music {
                zone: Zone::Sidebar,
                rail: RAIL_ADD_FOLDER,
                ..before
            }),
            Target::AddFolderHere => p is PickFolder && after == (Music { zone: Zone::Library, ..before }),
            Target::Options => p is Moved && after == (Music {
                zone: Zone::Sidebar,
                rail: RAIL_OPTIONS,
                ..before
            }),
            Target::Heading => p matches Pointed::Left(left) && if before.group is Some {
                left matches Some(l) && group_left(before, after, l)
            } else {
                left is None && after == before
            },
            Target::Volume => p is Loudness && after == (Music {
                zone: Zone::Transport,
                transport: BAR_LOUDNESS,
                ..before
            }),
            Target::Position => p is Seek && after == (Music {
                zone: Zone::Transport,
                transport: BAR_POSITION,
                ..before
            }),
            Target::Strip => {
                let lit = Music { zone: Zone::Transport, transport: NOW_PLAYING, ..before };
                p matches Pointed::Opened(opened) && opened == (before.screen != Screen::Playing)
                    && after == if opened {
                    playing_page(lit)
                } else {
                    lit
                }
            },
        }
    }
}

impl Music {
    /// Take a pointer press on a place. A row is named by its index in the
    /// list the browser or the up-next list drew it from.
    pub fn point_at(&mut self, at: Target, past_start: bool, ended_or_failed: bool) -> (p: Pointed)
        requires
            old(self).wf(),
        ensures
            final(self).wf(),
            pointed_at(*old(self), *final(self), at, past_start, ended_or_failed, p),
    {
        if self.crossing.is_some() {
            return Pointed::Ignored;
        }
        match at {
            Target::Tab(k) => {
                if k < TAB_COUNT {
                    self.change_tab(k);
                    self.zone = Zone::Sidebar;
                    Pointed::Shelf
                } else {
                    Pointed::Ignored
                }
            },
            Target::Row(index) => {
                self.selected = index;
                self.zone = Zone::Library;
                Pointed::Chose(self.activate())
            },
            Target::Queued(index) => {
                self.zone = Zone::Queue;
                self.queued = index;
                if index < self.queue.len() {
                    self.queue.select(index);
                    Pointed::Queued(true)
                } else {
                    Pointed::Queued(false)
                }
            },
            Target::Control(index) => {
                if FIRST_BUTTON <= index && index < TRANSPORT {
                    self.transport = index;
                    self.zone = Zone::Transport;
                    Pointed::Pressed(self.transport_action(index, past_start, ended_or_failed))
                } else {
                    Pointed::Ignored
                }
            },
            Target::AddFolder => {
                self.zone = Zone::Sidebar;
                self.rail = RAIL_ADD_FOLDER;
                Pointed::PickFolder
            },
            Target::AddFolderHere => {
                self.zone = Zone::Library;
                Pointed::PickFolder
            },
            Target::Options => {
                self.zone = Zone::Sidebar;
                self.rail = RAIL_OPTIONS;
                Pointed::Moved
            },
            Target::Heading => Pointed::Left(self.leave_group()),
            Target::Volume => {
                self.zone = Zone::Transport;
                self.transport = BAR_LOUDNESS;
                Pointed::Loudness
            },
            Target::Position => {
                self.zone = Zone::Transport;
                self.transport = BAR_POSITION;
                Pointed::Seek
            },
            Target::Strip => {
                self.zone = Zone::Transport;
                self.transport = NOW_PLAYING;
                Pointed::Opened(self.open_playing())
            },
        }
    }
}

} // verus!
