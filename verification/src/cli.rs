//! The command line, word by word.
//!
//! Reading a word is a decision; finding a path on disk and reading a number
//! of seconds are the caller's, who is handed the word to do it with and goes
//! on from there in the same order, so that the first word that is wrong is
//! the one complained of.
use vstd::prelude::*;
use vstd::string::StrSliceExecFns;
use vstd::string::StringExecFns;
use crate::probe::{parse_u32, parsed_u32};
use crate::text::chars_of;

verus! {

broadcast use vstd::string::group_string_axioms;

/// What the command line asks for instead of opening the window.
#[derive(Debug, Clone, Copy, PartialEq, Eq, Structural)]
pub enum Invocation {
    Help,
    Version,
    /// A list of what this machine can be driven with.
    Controllers,
}

/// What the command line has said so far about the window to open.
pub struct Options {
    /// The folder or song to open, once the caller has found it.
    pub opening: Option<String>,
    /// Where one settled frame is to be written, instead of opening a window.
    pub shot: Option<String>,
    pub demo: bool,
    /// The shelf to open on.
    pub view: usize,
    /// How large that frame is.
    pub size: (u32, u32),
    pub playing: bool,
    pub back: bool,
}

pub struct OptionsView {
    pub opening: Option<Seq<char>>,
    pub shot: Option<Seq<char>>,
    pub demo: bool,
    pub view: usize,
    pub size: (u32, u32),
    pub playing: bool,
    pub back: bool,
}

impl View for Options {
    type V = OptionsView;

    open spec fn view(&self) -> OptionsView {
        OptionsView {
            opening: match self.opening {
                Some(p) => Some(p@),
                None => None,
            },
            shot: match self.shot {
                Some(p) => Some(p@),
                None => None,
            },
            demo: self.demo,
            view: self.view,
            size: self.size,
            playing: self.playing,
            back: self.back,
        }
    }
}

/// What reading a word did.
pub enum Read {
    /// The word was read; the next is the one after it.
    One,
    /// The word and the one after it were read.
    Two,
    /// Reading stops, and this is done instead of opening the window.
    Stop(Invocation),
    /// Reading stops on this complaint.
    Fail(String),
    /// `--after`, with the number of seconds as it was written, for the
    /// caller to read; the next word is the one after that.
    Seconds(String),
    /// A folder or song to open, as it was written, for the caller to find;
    /// the next word is the one after it.
    Path(String),
}

pub enum ReadView {
    One,
    Two,
    Stop(Invocation),
    Fail(Seq<char>),
    Seconds(Seq<char>),
    Path(Seq<char>),
}

impl View for Read {
    type V = ReadView;

    open spec fn view(&self) -> ReadView {
        match self {
            Read::One => ReadView::One,
            Read::Two => ReadView::Two,
            Read::Stop(i) => ReadView::Stop(*i),
            Read::Fail(s) => ReadView::Fail(s@),
            Read::Seconds(s) => ReadView::Seconds(s@),
            Read::Path(s) => ReadView::Path(s@),
        }
    }
}

/// A size a window of this program really opens at: no smaller than the
/// layout is built down to, and no larger than a texture any card allocates.
pub open spec fn within_bounds(size: (u32, u32)) -> bool {
    640 <= size.0 <= 7680 && 400 <= size.1 <= 4320
}

/// The complaint about a size out of bounds.
pub open spec fn bounds_complaint() -> Seq<char> {
    "Size must be between 640x400 and 7680x4320"@
}

/// Whether a window this size would really open.
pub fn bound(size: (u32, u32)) -> (r: Result<(), String>)
    ensures
        r is Ok <==> within_bounds(size),
        r matches Err(e) ==> e@ == bounds_complaint(),
{
    if size.0 < 640 || size.1 < 400 || size.0 > 7680 || size.1 > 4320 {
        return Err(String::from_str("Size must be between 640x400 and 7680x4320"));
    }
    Ok(())
}

/// The shelf a name names, as `--view` takes it.
pub open spec fn tab_named(name: Seq<char>) -> Option<usize> {
    if name == "songs"@ {
        Some(0)
    } else if name == "albums"@ {
        Some(1)
    } else if name == "artists"@ {
        Some(2)
    } else if name == "favourites"@ {
        Some(3)
    } else if name == "queue"@ {
        Some(4)
    } else {
        None
    }
}

/// Where in `s`, from `k` on, the first `c` is, or its length where there is
/// none.
pub open spec fn first_at(s: Seq<char>, c: char, k: nat) -> nat
    decreases s.len() - k,
{
    if k >= s.len() {
        s.len()
    } else if s[k as int] == c {
        k
    } else {
        first_at(s, c, k + 1)
    }
}

/// A size as `WIDTHxHEIGHT` writes it, cut at its first `x`.
pub open spec fn size_parts(s: Seq<char>) -> Option<(Seq<char>, Seq<char>)> {
    let k = first_at(s, 'x', 0);
    if k < s.len() {
        Some((s.take(k as int), s.skip(k as int + 1)))
    } else {
        None
    }
}

/// A size read from `WIDTHxHEIGHT`, or the complaint about it.
pub open spec fn size_read(s: Seq<char>) -> Result<(u32, u32), Seq<char>> {
    match size_parts(s) {
        None => Err("--size needs WIDTHxHEIGHT"@),
        Some((w, h)) => match parsed_u32(w) {
            None => Err("Invalid width"@),
            Some(w) => match parsed_u32(h) {
                None => Err("Invalid height"@),
                Some(h) => if within_bounds((w, h)) {
                    Ok((w, h))
                } else {
                    Err(bounds_complaint())
                },
            },
        },
    }
}

/// A new width or height, or the complaint about it.
pub open spec fn side_read(
    size: (u32, u32),
    s: Option<Seq<char>>,
    width: bool,
) -> Result<(u32, u32), Seq<char>> {
    match s {
        None => Err(if width {
            "--width needs a number"@
        } else {
            "--height needs a number"@
        }),
        Some(s) => match parsed_u32(s) {
            None => Err(if width {
                "Invalid width"@
            } else {
                "Invalid height"@
            }),
            Some(n) => {
                let size = if width {
                    (n, size.1)
                } else {
                    (size.0, n)
                };
                if within_bounds(size) {
                    Ok(size)
                } else {
                    Err(bounds_complaint())
                }
            },
        },
    }
}

/// A size read, as far as the options go: a new size and two words read, or
/// the complaint.
pub open spec fn sized(o: OptionsView, r: Result<(u32, u32), Seq<char>>) -> (OptionsView, ReadView) {
    match r {
        Ok(size) => (OptionsView { size, ..o }, ReadView::Two),
        Err(e) => (o, ReadView::Fail(e)),
    }
}

/// What reading the word `arg`, with `next` after it, makes of the options.
pub open spec fn word_read(o: OptionsView, arg: Seq<char>, next: Option<Seq<char>>) -> (
    OptionsView,
    ReadView,
) {
    if arg == "--help"@ || arg == "-h"@ {
        (o, ReadView::Stop(Invocation::Help))
    } else if arg == "--version"@ {
        (o, ReadView::Stop(Invocation::Version))
    } else if arg == "--controllers"@ {
        (o, ReadView::Stop(Invocation::Controllers))
    } else if arg == "--shot"@ {
        match next {
            Some(n) => (OptionsView { shot: Some(n), ..o }, ReadView::Two),
            None => (o, ReadView::Fail("--shot needs a PNG path"@)),
        }
    } else if arg == "--demo"@ {
        (OptionsView { demo: true, ..o }, ReadView::One)
    } else if arg == "--playing"@ {
        (OptionsView { playing: true, ..o }, ReadView::One)
    } else if arg == "--back"@ {
        (OptionsView { back: true, ..o }, ReadView::One)
    } else if arg == "--after"@ {
        match next {
            Some(n) => (o, ReadView::Seconds(n)),
            None => (o, ReadView::Fail("--after needs a number of seconds"@)),
        }
    } else if arg == "--view"@ {
        match next {
            None => (o, ReadView::Fail("--view needs songs, albums, artists, favourites or queue"@)),
            Some(n) => match tab_named(n) {
                Some(view) => (OptionsView { view, ..o }, ReadView::Two),
                None => (o, ReadView::Fail("Unknown library view"@)),
            },
        }
    } else if arg == "--size"@ {
        match next {
            None => (o, ReadView::Fail("--size needs WIDTHxHEIGHT"@)),
            Some(n) => sized(o, size_read(n)),
        }
    } else if arg == "--width"@ {
        sized(o, side_read(o.size, next, true))
    } else if arg == "--height"@ {
        sized(o, side_read(o.size, next, false))
    } else if arg.len() > 0 && arg[0] == '-' {
        (o, ReadView::Fail("Unknown option: "@ + arg))
    } else if o.opening is Some {
        (o, ReadView::Fail("Pass one folder or song"@))
    } else {
        (o, ReadView::Path(arg))
    }
}

/// Whether a word is this one.
fn is(arg: &String, word: &str) -> (r: bool)
    ensures
        r == (arg@ == word@),
{
    *arg == String::from_str(word)
}

fn fail(complaint: &str) -> (r: Read)
    ensures
        r@ == ReadView::Fail(complaint@),
{
    Read::Fail(String::from_str(complaint))
}

/// The shelf a name names.
pub fn view_named(name: &String) -> (r: Option<usize>)
    ensures
        r == tab_named(name@),
{
    if is(name, "songs") {
        Some(0)
    } else if is(name, "albums") {
        Some(1)
    } else if is(name, "artists") {
        Some(2)
    } else if is(name, "favourites") {
        Some(3)
    } else if is(name, "queue") {
        Some(4)
    } else {
        None
    }
}

/// A size written as `WIDTHxHEIGHT`, cut at its first `x`.
fn split_size(s: &String) -> (r: Option<(String, String)>)
    ensures
        match r {
            Some((w, h)) => size_parts(s@) == Some((w@, h@)),
            None => size_parts(s@) is None,
        },
{
    let cs = chars_of(s.as_str());
    let mut k: usize = 0;
    while k < cs.len() && cs[k] != 'x'
        invariant
            cs@ == s@,
            k <= cs.len(),
            first_at(s@, 'x', 0) == first_at(s@, 'x', k as nat),
        decreases cs.len() - k,
    {
        k = k + 1;
    }
    if k >= cs.len() {
        return None;
    }
    let w = String::from_str(s.as_str().substring_char(0, k));
    let h = String::from_str(s.as_str().substring_char(k + 1, cs.len()));
    assert(h@ =~= s@.skip(k + 1));
    Some((w, h))
}

/// A size read from `WIDTHxHEIGHT`, or the complaint about it.
fn read_size(s: &String) -> (r: Result<(u32, u32), String>)
    ensures
        match r {
            Ok(size) => size_read(s@) == Ok::<(u32, u32), Seq<char>>(size),
            Err(e) => size_read(s@) == Err::<(u32, u32), Seq<char>>(e@),
        },
{
    let (w, h) = match split_size(s) {
        Some(parts) => parts,
        None => {
            return Err(String::from_str("--size needs WIDTHxHEIGHT"));
        },
    };
    let w = match parse_u32(w.as_str()) {
        Some(w) => w,
        None => {
            return Err(String::from_str("Invalid width"));
        },
    };
    let h = match parse_u32(h.as_str()) {
        Some(h) => h,
        None => {
            return Err(String::from_str("Invalid height"));
        },
    };
    match bound((w, h)) {
        Ok(()) => Ok((w, h)),
        Err(e) => Err(e),
    }
}

/// A new width or height, or the complaint about it.
fn read_side(size: (u32, u32), s: Option<&String>, width: bool) -> (r: Result<(u32, u32), String>)
    ensures
        match r {
            Ok(resized) => side_read(size, opt_text(s), width) == Ok::<(u32, u32), Seq<char>>(resized),
            Err(e) => side_read(size, opt_text(s), width) == Err::<(u32, u32), Seq<char>>(e@),
        },
{
    let s = match s {
        Some(s) => s,
        None => {
            return Err(String::from_str(
                if width {
                    "--width needs a number"
                } else {
                    "--height needs a number"
                },
            ));
        },
    };
    let n = match parse_u32(s.as_str()) {
        Some(n) => n,
        None => {
            return Err(String::from_str(
                if width {
                    "Invalid width"
                } else {
                    "Invalid height"
                },
            ));
        },
    };
    let size = if width {
        (n, size.1)
    } else {
        (size.0, n)
    };
    match bound(size) {
        Ok(()) => Ok(size),
        Err(e) => Err(e),
    }
}

pub open spec fn opt_text(s: Option<&String>) -> Option<Seq<char>> {
    match s {
        Some(s) => Some(s@),
        None => None,
    }
}

impl Options {
    /// Nothing said yet: the songs shelf, in a window of 1280 by 800.
    pub fn new() -> (o: Options)
        ensures
            o@ == (OptionsView {
                opening: None,
                shot: None,
                demo: false,
                view: 0,
                size: (1280, 800),
                playing: false,
                back: false,
            }),
    {
        Options {
            opening: None,
            shot: None,
            demo: false,
            view: 0,
            size: (1280, 800),
            playing: false,
            back: false,
        }
    }

    /// Read one word of the command line, with the word after it, if any.
    pub fn read(&mut self, arg: &String, next: Option<&String>) -> (r: Read)
        ensures
            (final(self)@, r@) == word_read(old(self)@, arg@, opt_text(next)),
    {
        if is(arg, "--help") || is(arg, "-h") {
            Read::Stop(Invocation::Help)
        } else if is(arg, "--version") {
            Read::Stop(Invocation::Version)
        } else if is(arg, "--controllers") {
            Read::Stop(Invocation::Controllers)
        } else if is(arg, "--shot") {
            match next {
                Some(n) => {
                    self.shot = Some(String::from_str(n.as_str()));
                    Read::Two
                },
                None => fail("--shot needs a PNG path"),
            }
        } else if is(arg, "--demo") {
            self.demo = true;
            Read::One
        } else if is(arg, "--playing") {
            self.playing = true;
            Read::One
        } else if is(arg, "--back") {
            self.back = true;
            Read::One
        } else if is(arg, "--after") {
            match next {
                Some(n) => Read::Seconds(String::from_str(n.as_str())),
                None => fail("--after needs a number of seconds"),
            }
        } else if is(arg, "--view") {
            match next {
                None => fail("--view needs songs, albums, artists, favourites or queue"),
                Some(n) => match view_named(n) {
                    Some(view) => {
                        self.view = view;
                        Read::Two
                    },
                    None => fail("Unknown library view"),
                },
            }
        } else if is(arg, "--size") {
            match next {
                None => fail("--size needs WIDTHxHEIGHT"),
                Some(n) => match read_size(n) {
                    Ok(size) => {
                        self.size = size;
                        Read::Two
                    },
                    Err(e) => Read::Fail(e),
                },
            }
        } else if is(arg, "--width") || is(arg, "--height") {
            let width = is(arg, "--width");
            match read_side(self.size, next, width) {
                Ok(size) => {
                    self.size = size;
                    Read::Two
                },
                Err(e) => Read::Fail(e),
            }
        } else {
            let cs = chars_of(arg.as_str());
            if cs.len() > 0 && cs[0] == '-' {
                Read::Fail(String::from_str("Unknown option: ").concat(arg.as_str()))
            } else if self.opening.is_some() {
                fail("Pass one folder or song")
            } else {
                Read::Path(String::from_str(arg.as_str()))
            }
        }
    }
}

} // verus!
