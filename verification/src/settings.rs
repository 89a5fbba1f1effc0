//! Where the user keeps their music, as `user-dirs.dirs` says.
//!
//! That file is data, never shell code: only its documented `$HOME` form is
//! expanded.
use vstd::prelude::*;
use vstd::string::StrSliceExecFns;
use vstd::string::StringExecFns;
use crate::text::{chars_of, trim_text, trimmed};

verus! {

broadcast use vstd::string::group_string_axioms;

/// Where the music folder is.
pub enum MusicFolder {
    /// The home folder itself.
    Home,
    /// A folder under the home folder, by this path from it.
    UnderHome(String),
    /// A folder by its absolute path.
    Absolute(String),
}

pub enum MusicFolderView {
    Home,
    UnderHome(Seq<char>),
    Absolute(Seq<char>),
}

impl View for MusicFolder {
    type V = MusicFolderView;

    open spec fn view(&self) -> MusicFolderView {
        match self {
            MusicFolder::Home => MusicFolderView::Home,
            MusicFolder::UnderHome(p) => MusicFolderView::UnderHome(p@),
            MusicFolder::Absolute(p) => MusicFolderView::Absolute(p@),
        }
    }
}

/// How many `"` a word starts with.
pub open spec fn quotes_before(s: Seq<char>, k: nat) -> nat
    decreases s.len() - k,
{
    if k < s.len() && s[k as int] == '"' {
        quotes_before(s, k + 1)
    } else {
        k
    }
}

/// How far a word goes before the `"` it ends with, looking back from `k`
/// and no further than `floor`.
pub open spec fn quotes_after(s: Seq<char>, k: nat, floor: nat) -> nat
    decreases k,
{
    if k > floor && s[k - 1] == '"' {
        quotes_after(s, (k - 1) as nat, floor)
    } else {
        k
    }
}

/// A word without the `"` at either end of it, as `trim_matches('"')` leaves
/// it.
pub open spec fn unquoted(s: Seq<char>) -> Seq<char> {
    let i = quotes_before(s, 0);
    s.subrange(i as int, quotes_after(s, s.len(), i) as int)
}

/// Whether `s` starts with `p`.
pub open spec fn starts_with(s: Seq<char>, p: Seq<char>) -> bool {
    p.len() <= s.len() && s.take(p.len() as int) == p
}

/// What one line of the file says of the music folder, if anything: a line
/// `XDG_MUSIC_DIR="$HOME"`, `"$HOME/…"` or an absolute path.
pub open spec fn folder_in_line(line: Seq<char>) -> Option<MusicFolderView> {
    let t = trimmed(line);
    let key = "XDG_MUSIC_DIR="@;
    let home = "$HOME/"@;
    if starts_with(t, key) {
        let v = unquoted(trimmed(t.skip(key.len() as int)));
        if v == "$HOME"@ {
            Some(MusicFolderView::Home)
        } else if starts_with(v, home) {
            Some(MusicFolderView::UnderHome(v.skip(home.len() as int)))
        } else if v.len() > 0 && v[0] == '/' {
            Some(MusicFolderView::Absolute(v))
        } else {
            None
        }
    } else {
        None
    }
}

/// Where the first line break at or after `k` is, or the end.
pub open spec fn line_end(s: Seq<char>, k: nat) -> nat
    decreases s.len() - k,
{
    if k >= s.len() || s[k as int] == '\n' {
        k
    } else {
        line_end(s, k + 1)
    }
}

pub proof fn lemma_line_end(s: Seq<char>, k: nat)
    ensures
        k <= line_end(s, k),
        k <= s.len() ==> line_end(s, k) <= s.len(),
        line_end(s, k) < s.len() ==> s[line_end(s, k) as int] == '\n',
        forall|j: int| k <= j < line_end(s, k) ==> s[j] != '\n',
    decreases s.len() - k,
{
    if !(k >= s.len() || s[k as int] == '\n') {
        lemma_line_end(s, k + 1);
    }
}

/// The music folder the first line from `k` on that names one names, or
/// `Music` under the home folder where none does.
pub open spec fn folder_from(s: Seq<char>, k: nat) -> MusicFolderView
    decreases s.len() - k,
{
    let e = line_end(s, k);
    proof {
        lemma_line_end(s, k);
    }
    match folder_in_line(s.subrange(k as int, e as int)) {
        Some(f) => f,
        None => if e < s.len() {
            folder_from(s, e + 1)
        } else {
            MusicFolderView::UnderHome("Music"@)
        },
    }
}

/// Whether `s` starts with `p`.
fn starts_with_chars(s: &Vec<char>, p: &Vec<char>) -> (r: bool)
    ensures
        r == starts_with(s@, p@),
{
    if p.len() > s.len() {
        return false;
    }
    let mut i: usize = 0;
    while i < p.len()
        invariant
            p.len() <= s.len(),
            i <= p.len(),
            forall|j: int| 0 <= j < i ==> s@[j] == p@[j],
        decreases p.len() - i,
    {
        if s[i] != p[i] {
            assert(s@.take(p.len() as int)[i as int] != p@[i as int]);
            return false;
        }
        i = i + 1;
    }
    assert(s@.take(p.len() as int) =~= p@);
    true
}

/// A word without the `"` at either end of it.
fn unquote(w: &str) -> (r: String)
    ensures
        r@ == unquoted(w@),
{
    let s = chars_of(w);
    let mut i: usize = 0;
    while i < s.len() && s[i] == '"'
        invariant
            s@ == w@,
            i <= s.len(),
            quotes_before(w@, 0) == quotes_before(w@, i as nat),
        decreases s.len() - i,
    {
        i = i + 1;
    }
    let mut j: usize = s.len();
    while j > i && s[j - 1] == '"'
        invariant
            s@ == w@,
            i <= j <= s.len(),
            quotes_after(w@, s.len() as nat, i as nat) == quotes_after(w@, j as nat, i as nat),
        decreases j,
    {
        j = j - 1;
    }
    String::from_str(w.substring_char(i, j))
}

/// What one line of the file says of the music folder, if anything.
fn folder_of_line(line: &str) -> (r: Option<MusicFolder>)
    ensures
        match r {
            Some(f) => folder_in_line(line@) == Some(f@),
            None => folder_in_line(line@) is None,
        },
{
    let t = trim_text(line);
    let tc = chars_of(t.as_str());
    let key = chars_of("XDG_MUSIC_DIR=");
    if !starts_with_chars(&tc, &key) {
        return None;
    }
    let rest = t.as_str().substring_char(key.len(), tc.len());
    let value = trim_text(rest);
    let v = unquote(value.as_str());
    let vc = chars_of(v.as_str());
    let home_only = chars_of("$HOME");
    let home = chars_of("$HOME/");
    if vc.len() == home_only.len() && starts_with_chars(&vc, &home_only) {
        assert(vc@ =~= vc@.take(home_only.len() as int));
        return Some(MusicFolder::Home);
    }
    assert(v@ == "$HOME"@ ==> starts_with(v@, "$HOME"@) && vc.len() == home_only.len()) by {
        assert(v@ =~= v@.take(v@.len() as int));
    }
    if starts_with_chars(&vc, &home) {
        let under = v.as_str().substring_char(home.len(), vc.len());
        return Some(MusicFolder::UnderHome(String::from_str(under)));
    }
    if vc.len() > 0 && vc[0] == '/' {
        return Some(MusicFolder::Absolute(v));
    }
    None
}

/// The music folder that a `user-dirs.dirs` file names: the first line that
/// sets `XDG_MUSIC_DIR` to `$HOME`, to a path under `$HOME` or to an absolute
/// path decides; where none does, `Music` under the home folder.
pub fn music_folder_in(dirs: &str) -> (f: MusicFolder)
    ensures
        f@ == folder_from(dirs@, 0),
{
    let s = chars_of(dirs);
    let n = s.len();
    let mut k: usize = 0;
    loop
        invariant
            s@ == dirs@,
            n == s.len(),
            k <= n,
            folder_from(dirs@, 0) == folder_from(dirs@, k as nat),
        decreases n - k,
    {
        let mut e: usize = k;
        while e < n && s[e] != '\n'
            invariant
                s@ == dirs@,
                n == s.len(),
                k <= e <= n,
                line_end(dirs@, k as nat) == line_end(dirs@, e as nat),
            decreases n - e,
        {
            e = e + 1;
        }
        proof {
            lemma_line_end(dirs@, k as nat);
        }
        let line = dirs.substring_char(k, e);
        match folder_of_line(line) {
            Some(f) => {
                return f;
            },
            None => {
                if e < n {
                    k = e + 1;
                } else {
                    return MusicFolder::UnderHome(String::from_str("Music"));
                }
            },
        }
    }
}

} // verus!
