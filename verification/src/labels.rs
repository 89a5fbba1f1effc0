//! What the pages say: the name of each control of the strip, the words of
//! the button legend, and the heading over the browser. Each is the name of
//! a message in the catalog, or words the library itself holds.
use vstd::prelude::*;
use crate::acts::{acted, Acted, Action, Backed};
use crate::library::order_label;
use crate::music::{Menu, Music, Row, Screen, Zone, BAR_LOUDNESS, BAR_POSITION, NOW_PLAYING, RAIL_ADD_FOLDER, RAIL_OPTIONS};
use crate::queue::Repeat;
use crate::shelf::copy_text;

verus! {

/// What a control of the strip is called: what pressing it does. A bar is
/// named by its button, and the record by what it opens.
pub open spec fn control_label(at: usize, playing: bool, loud: bool, shuffle: bool, repeat: Repeat) -> &'static str {
    if at == BAR_POSITION {
        if playing {
            "pause"
        } else {
            "play"
        }
    } else if at == BAR_LOUDNESS {
        if loud {
            "mute"
        } else {
            "unmute"
        }
    } else if at == NOW_PLAYING {
        "open-now-playing"
    } else if at == 3 {
        if shuffle {
            "shuffle-on"
        } else {
            "shuffle-off"
        }
    } else if at == 4 {
        match repeat {
            Repeat::Off => "repeat-off",
            Repeat::All => "repeat-all",
            Repeat::One => "repeat-one",
        }
    } else if at == 5 {
        "previous"
    } else if at == 6 {
        if playing {
            "pause"
        } else {
            "play"
        }
    } else {
        "next"
    }
}

/// The mark a button of the strip wears, where it wears one: the record, the
/// two bars and the two settings wear none.
pub open spec fn control_mark(at: usize, playing: bool) -> Option<&'static str> {
    if at <= 4 {
        None
    } else if at == 5 {
        Some("media-previous")
    } else if at == 6 {
        if playing {
            Some("media-pause")
        } else {
            Some("media-play")
        }
    } else {
        Some("media-next")
    }
}

/// What the legend says beside South: what choosing the thing under the
/// light does, and nothing where it does nothing.
pub open spec fn accept_words(m: Music, playing: bool, loud: bool) -> Option<&'static str> {
    if m.screen == Screen::Playing && m.zone == Zone::Queue {
        Some("play")
    } else if m.screen == Screen::Playing || m.zone == Zone::Transport {
        Some(control_label(m.transport, playing, loud, m.queue@.shuffle, m.queue@.repeat))
    } else if m.zone == Zone::Sidebar {
        if m.rail == RAIL_ADD_FOLDER {
            Some("add-folder")
        } else if m.rail == RAIL_OPTIONS {
            None
        } else {
            Some("open")
        }
    } else if m.rows.len() == 0 {
        Some("add-folder")
    } else if m.group is None && (m.tab == 1 || m.tab == 2) {
        Some("open")
    } else {
        Some("play")
    }
}

/// What the legend says beside East: Close where Back leaves the
/// application, Back everywhere it still has somewhere to step back to.
pub open spec fn back_words(m: Music) -> &'static str {
    if m.screen == Screen::Playing || m.group is Some || m.zone != Zone::Sidebar {
        "back"
    } else {
        "close"
    }
}

/// The words the button legend puts beside each of its four buttons.
pub struct Hints {
    /// South: what choosing the thing under the light does, where it does
    /// anything.
    pub accept: Option<&'static str>,
    /// North: the Options menu.
    pub options: &'static str,
    /// East: Back, or Close where Back leaves the application.
    pub back: &'static str,
    /// Start: play or pause.
    pub start: &'static str,
}

/// A heading: words of the library's own, or a message of the catalog, or a
/// message of the catalog about words of the library's own, or about a
/// number.
pub enum Words {
    Text(String),
    Message(&'static str),
    About(&'static str, String),
    Count(&'static str, usize),
}

/// The catalog message that names a shelf.
pub open spec fn shelf_message(tab: usize) -> &'static str {
    if tab == 0 {
        "songs"
    } else if tab == 1 {
        "albums"
    } else if tab == 2 {
        "artists"
    } else if tab == 3 {
        "favourites"
    } else {
        "queue"
    }
}

/// The catalog message under a shelf's name.
pub open spec fn shelf_subtitle(tab: usize) -> &'static str {
    if tab == 1 {
        "albums-subtitle"
    } else if tab == 2 {
        "artists-subtitle"
    } else if tab == 3 {
        "favourites-subtitle"
    } else if tab == 4 {
        "queue-subtitle"
    } else {
        "songs-subtitle"
    }
}

impl Music {
    /// What a control of the strip is called. `playing` is whether a song is
    /// playing, `loud` whether the loudness is above nought.
    pub fn transport_label(&self, at: usize, playing: bool, loud: bool) -> (r: &'static str)
        ensures
            r == control_label(at, playing, loud, self.queue@.shuffle, self.queue@.repeat),
    {
        if at == BAR_POSITION {
            if playing {
                "pause"
            } else {
                "play"
            }
        } else if at == BAR_LOUDNESS {
            if loud {
                "mute"
            } else {
                "unmute"
            }
        } else if at == NOW_PLAYING {
            "open-now-playing"
        } else if at == 3 {
            if self.queue.shuffle_on() {
                "shuffle-on"
            } else {
                "shuffle-off"
            }
        } else if at == 4 {
            match self.queue.repeat_mode() {
                Repeat::Off => "repeat-off",
                Repeat::All => "repeat-all",
                Repeat::One => "repeat-one",
            }
        } else if at == 5 {
            "previous"
        } else if at == 6 {
            if playing {
                "pause"
            } else {
                "play"
            }
        } else {
            "next"
        }
    }

    /// What the legend says beside each button: South names what it does
    /// to whatever the light is on, and nothing on the rail's Options row,
    /// where it does nothing; East says Close only where the next Back
    /// really closes the application.
    pub fn hints(&self, playing: bool, loud: bool) -> (h: Hints)
        ensures
            h.accept == accept_words(*self, playing, loud),
            h.options == "options",
            h.back == back_words(*self),
            h.start == if playing {
                "pause"
            } else {
                "play"
            },
            self.screen == Screen::Library && self.zone == Zone::Sidebar ==> h.accept != Some(
                "options",
            ),
    {
        proof {
            reveal_strlit("options");
            reveal_strlit("add-folder");
            reveal_strlit("open");
        }
        let accept = if self.screen == Screen::Playing && self.zone == Zone::Queue {
            Some("play")
        } else if self.screen == Screen::Playing || self.zone == Zone::Transport {
            Some(self.transport_label(self.transport, playing, loud))
        } else if self.zone == Zone::Sidebar {
            if self.rail == RAIL_ADD_FOLDER {
                Some("add-folder")
            } else if self.rail == RAIL_OPTIONS {
                None
            } else {
                Some("open")
            }
        } else if self.rows.len() == 0 {
            Some("add-folder")
        } else if self.group.is_none() && (self.tab == 1 || self.tab == 2) {
            Some("open")
        } else {
            Some("play")
        };
        let back = if self.screen == Screen::Playing || self.group.is_some() || self.zone != Zone::Sidebar {
            "back"
        } else {
            "close"
        };
        Hints {
            accept,
            options: "options",
            back,
            start: if playing {
                "pause"
            } else {
                "play"
            },
        }
    }

    /// The heading over the browser: the open album's or artist's name, or
    /// the shelf's.
    pub fn title(&self) -> (w: Words)
        ensures
            match self.group {
                Some(g) => w matches Words::Text(t) && t@ == g.title@,
                None => w == Words::Message(shelf_message(self.tab)),
            },
    {
        match &self.group {
            Some(g) => Words::Text(copy_text(&g.title)),
            None => Words::Message(
                if self.tab == 0 {
                    "songs"
                } else if self.tab == 1 {
                    "albums"
                } else if self.tab == 2 {
                    "artists"
                } else if self.tab == 3 {
                    "favourites"
                } else {
                    "queue"
                },
            ),
        }
    }

    /// The line under a row of the browser: how many songs an artist on the
    /// wall of artists has, and otherwise the row's own words (who a record
    /// is by, or a song).
    pub fn row_detail(&self, row: &Row) -> (w: Words)
        ensures
            if self.group is None && self.tab == 2 {
                w == Words::Count("song-count", row.tracks@.len() as usize)
            } else {
                w matches Words::Text(t) && t@ == row.detail@
            },
    {
        if self.group.is_none() && self.tab == 2 {
            Words::Count("song-count", row.tracks.len())
        } else {
            Words::Text(copy_text(&row.detail))
        }
    }

    /// The line under it: who an open album is by, that an open artist is
    /// one, or what the shelf is.
    pub fn subtitle(&self) -> (w: Words)
        ensures
            match self.group {
                Some(g) => if self.tab == 1 {
                    w matches Words::About(m, t) && m == "album-subtitle" && t@ == g.subtitle@
                } else {
                    w == Words::Message("artist-subtitle")
                },
                None => w == Words::Message(shelf_subtitle(self.tab)),
            },
    {
        match &self.group {
            Some(g) => if self.tab == 1 {
                Words::About("album-subtitle", copy_text(&g.subtitle))
            } else {
                Words::Message("artist-subtitle")
            },
            None => Words::Message(
                if self.tab == 1 {
                    "albums-subtitle"
                } else if self.tab == 2 {
                    "artists-subtitle"
                } else if self.tab == 3 {
                    "favourites-subtitle"
                } else if self.tab == 4 {
                    "queue-subtitle"
                } else {
                    "songs-subtitle"
                },
            ),
        }
    }
}

/// The mark a button of the strip wears, where it wears one.
pub fn transport_glyph(at: usize, playing: bool) -> (r: Option<&'static str>)
    ensures
        r == control_mark(at, playing),
{
    if at <= 4 {
        None
    } else if at == 5 {
        Some("media-previous")
    } else if at == 6 {
        if playing {
            Some("media-pause")
        } else {
            Some("media-play")
        }
    } else {
        Some("media-next")
    }
}

/// The catalog message that names a row of a menu.
pub open spec fn menu_message(m: Menu) -> &'static str {
    match m {
        Menu::Sorting => "sort-by",
        Menu::SortBy(o) => order_label(o),
        Menu::Play => "play",
        Menu::Enqueue => "add-queue",
        Menu::Favourite => "favourite",
        Menu::Unfavourite => "unfavourite",
        Menu::Remove => "remove-queue",
        Menu::AddFolder => "add-folder",
        Menu::Refresh => "refresh",
        Menu::Clear => "clear-queue",
    }
}

/// What a row of a menu says.
pub fn menu_label(m: Menu) -> (r: &'static str)
    ensures
        r == menu_message(m),
{
    match m {
        Menu::Sorting => "sort-by",
        Menu::SortBy(o) => o.label(),
        Menu::Play => "play",
        Menu::Enqueue => "add-queue",
        Menu::Favourite => "favourite",
        Menu::Unfavourite => "unfavourite",
        Menu::Remove => "remove-queue",
        Menu::AddFolder => "add-folder",
        Menu::Refresh => "refresh",
        Menu::Clear => "clear-queue",
    }
}

/// No row of the rail leaves the legend offering the Options menu beside
/// South: the menu is the button the legend names, and nothing else.
pub proof fn law_no_rail_row_offers_the_menu(m: Music, playing: bool, loud: bool)
    requires
        m.screen == Screen::Library,
        m.zone == Zone::Sidebar,
    ensures
        accept_words(m, playing, loud) != Some("options"),
{
    reveal_strlit("options");
    reveal_strlit("add-folder");
    reveal_strlit("open");
}

/// The legend says Close beside East exactly where the next Back closes the
/// application, and Back everywhere else.
pub proof fn law_close_only_where_back_quits(
    before: Music,
    after: Music,
    past_start: bool,
    ended_or_failed: bool,
    a: Acted,
)
    requires
        before.crossing is None,
        acted(before, after, Action::Back, past_start, ended_or_failed, a),
    ensures
        back_words(before) == "close" <==> a == Acted::Backed(Backed::Quit),
        back_words(before) == "close" || back_words(before) == "back",
{
    reveal_strlit("close");
    reveal_strlit("back");
}

} // verus!
