//! What this machine can be driven with, as `--controllers` tells it.
//!
//! "The controller does nothing" has two causes that look the same from the
//! outside: no reader at all, and a reader that found no gamepad. The report
//! tells them apart.
use vstd::prelude::*;
use vstd::string::StringExecFns;
use crate::text::{decimal_string, digits_of};

verus! {

/// One controller, as it is seen.
pub struct Found {
    pub name: String,
    /// Whether its buttons are named by SDL's mapping list rather than
    /// guessed from the driver's numbering.
    pub mapped: bool,
    /// Whether it has a left stick.
    pub stick: bool,
}

/// The lines the report gives one controller.
pub open spec fn found_lines(f: Found) -> Seq<Seq<char>> {
    seq![
        Seq::empty(),
        "  "@ + f.name@,
        "    buttons   "@ + if f.mapped {
            "named by SDL's mapping list"@
        } else {
            "guessed from the driver's own numbering"@
        },
        "    stick     "@ + if f.stick {
            "read, and moves a bar by how far it is pushed"@
        } else {
            "none reported; bars move by ten seconds a press"@
        }
    ]
}

/// The lines the report gives each of the controllers, one after another.
pub open spec fn all_found_lines(found: Seq<Found>) -> Seq<Seq<char>>
    decreases found.len(),
{
    if found.len() == 0 {
        Seq::empty()
    } else {
        all_found_lines(found.drop_last()) + found_lines(found.last())
    }
}

/// What the report says where no controller was found.
pub open spec fn none_found() -> Seq<Seq<char>> {
    seq![
        "No controllers found."@,
        Seq::empty(),
        "Nothing on this machine is presenting a gamepad. That is not"@,
        "always a fault: a controller whose driver is not in the kernel"@,
        "— a Steam Controller outside the session shell that drives it,"@,
        "for one — appears as a mouse and a keyboard and no gamepad, so"@,
        "there is nothing here for any program to read."@,
        Seq::empty(),
        "Look for one with:  ls /dev/input/js*"@
    ]
}

/// The whole report: why there is no reader, where there is none; that no
/// controller was found, and where to look; or each controller found.
pub open spec fn report(trouble: Option<Seq<char>>, found: Seq<Found>) -> Seq<Seq<char>> {
    match trouble {
        Some(t) => seq!["No controller support at all: "@ + t],
        None => if found.len() == 0 {
            none_found()
        } else {
            seq![
                digits_of(found.len()) + " controller"@ + (if found.len() == 1 {
                    Seq::empty()
                } else {
                    "s"@
                }) + " found:"@
            ] + all_found_lines(found)
        },
    }
}

fn text(s: &str) -> (r: String)
    ensures
        r@ == s@,
{
    String::from_str(s)
}

/// The lines the report gives one controller.
fn lines_of(f: &Found) -> (r: Vec<String>)
    ensures
        r@.len() == 4,
        forall|i: int| 0 <= i < 4 ==> #[trigger] r@[i]@ == found_lines(*f)[i],
{
    let mut r: Vec<String> = Vec::new();
    r.push(String::new());
    r.push(text("  ").concat(f.name.as_str()));
    r.push(text("    buttons   ").concat(
        if f.mapped {
            "named by SDL's mapping list"
        } else {
            "guessed from the driver's own numbering"
        },
    ));
    r.push(text("    stick     ").concat(
        if f.stick {
            "read, and moves a bar by how far it is pushed"
        } else {
            "none reported; bars move by ten seconds a press"
        },
    ));
    r
}

pub open spec fn views(lines: Seq<String>) -> Seq<Seq<char>> {
    lines.map_values(|l: String| l@)
}

/// What to say of the controllers: `trouble` is why there is no reader at
/// all, where there is none.
pub fn controllers_report(trouble: Option<String>, found: &Vec<Found>) -> (lines: Vec<String>)
    ensures
        views(lines@) == report(
            match trouble {
                Some(t) => Some(t@),
                None => None,
            },
            found@,
        ),
{
    let mut lines: Vec<String> = Vec::new();
    if let Some(t) = trouble {
        lines.push(text("No controller support at all: ").concat(t.as_str()));
        assert(views(lines@) =~= seq!["No controller support at all: "@ + t@]);
        return lines;
    }
    if found.len() == 0 {
        lines.push(text("No controllers found."));
        lines.push(String::new());
        lines.push(text("Nothing on this machine is presenting a gamepad. That is not"));
        lines.push(text("always a fault: a controller whose driver is not in the kernel"));
        lines.push(text("— a Steam Controller outside the session shell that drives it,"));
        lines.push(text("for one — appears as a mouse and a keyboard and no gamepad, so"));
        lines.push(text("there is nothing here for any program to read."));
        lines.push(String::new());
        lines.push(text("Look for one with:  ls /dev/input/js*"));
        assert(views(lines@) =~= none_found());
        return lines;
    }
    let count = decimal_string(found.len() as u64);
    let head = count.concat(" controller").concat(
        if found.len() == 1 {
            ""
        } else {
            "s"
        },
    ).concat(" found:");
    proof {
        reveal_strlit("");
    }
    lines.push(head);
    let ghost first = lines@;
    assert(views(first) =~= seq![head@]);
    for k in 0..found.len()
        invariant
            lines@.len() >= 1,
            views(lines@) == views(first) + all_found_lines(found@.take(k as int)),
    {
        let more = lines_of(&found[k]);
        let ghost before = lines@;
        lines.push(copy(&more[0]));
        lines.push(copy(&more[1]));
        lines.push(copy(&more[2]));
        lines.push(copy(&more[3]));
        assert(found@.take(k + 1).drop_last() =~= found@.take(k as int));
        assert(views(lines@) =~= views(before) + found_lines(found@[k as int]));
    }
    assert(found@.take(found.len() as int) =~= found@);
    lines
}

fn copy(s: &String) -> (r: String)
    ensures
        r@ == s@,
{
    s.clone()
}

} // verus!
