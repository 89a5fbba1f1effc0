//! What a song is, which files are songs, and what order the shelves are in.
use vstd::prelude::*;
use vstd::string::StringExecFns;
use crate::text::{decimal_string, digits_of, two_digit_string, two_digits_of};

verus! {

/// One song of the library, as the shelves see it: where it is, what its tags
/// say, and when it was added. Its length is the player's business.
pub struct Track {
    pub path: String,
    pub title: String,
    pub artist: String,
    pub album_artist: String,
    pub album: String,
    pub disc: u32,
    pub number: u32,
    pub cover: Option<String>,
    /// When the file was last written, in seconds since the epoch; nought
    /// where that could not be read, which counts as the oldest there is.
    pub added: u64,
}

/// What order the shelves are listed in.
///
/// Two shelves keep an order of their own whatever this says: the queue is
/// the order it is going to play in, and an album is disc and track number.
#[derive(Debug, Clone, Copy, PartialEq, Eq, Structural)]
pub enum Order {
    Name,
    NameReversed,
    Artist,
    Album,
    Newest,
    Oldest,
}

impl Default for Order {
    fn default() -> (r: Order)
        ensures
            r == Order::Name,
    {
        Order::Name
    }
}

/// The six orders, in the order the menu offers them.
pub open spec fn all_orders() -> Seq<Order> {
    seq![Order::Name, Order::NameReversed, Order::Artist, Order::Album, Order::Newest, Order::Oldest]
}

pub open spec fn order_label(order: Order) -> &'static str {
    match order {
        Order::Name => "order-name",
        Order::NameReversed => "order-name-backwards",
        Order::Artist => "order-artist",
        Order::Album => "order-album",
        Order::Newest => "order-newest",
        Order::Oldest => "order-oldest",
    }
}

impl Order {
    /// The six orders, in the order the menu offers them.
    pub fn all() -> (r: Vec<Order>)
        ensures
            r@ == all_orders(),
    {
        vec![Order::Name, Order::NameReversed, Order::Artist, Order::Album, Order::Newest, Order::Oldest]
    }

    /// The catalog message that names this order.
    pub fn label(self) -> (r: &'static str)
        ensures
            r == order_label(self),
    {
        match self {
            Order::Name => "order-name",
            Order::NameReversed => "order-name-backwards",
            Order::Artist => "order-artist",
            Order::Album => "order-album",
            Order::Newest => "order-newest",
            Order::Oldest => "order-oldest",
        }
    }
}

/// What `Path::extension` answers for a path: the part of its file name after
/// the last dot, where the name has a dot that is not its first letter.
pub uninterp spec fn path_extension(path: Seq<char>) -> Option<Seq<char>>;

/// Where the last dot of a word is, if it has one.
pub open spec fn last_dot(s: Seq<char>) -> Option<int>
    decreases s.len(),
{
    if s.len() == 0 {
        None
    } else if s.last() == '.' {
        Some(s.len() - 1)
    } else {
        last_dot(s.drop_last())
    }
}

/// A file name standing on its own: no separator or drive in it, and not the
/// name of the folder above.
pub open spec fn bare_name(s: Seq<char>) -> bool {
    &&& !s.contains('/')
    &&& !s.contains('\\')
    &&& !s.contains(':')
    &&& !(s.len() == 2 && s[0] == '.' && s[1] == '.')
}

/// What the extension of a file name standing on its own is: what follows
/// its last dot, where that dot is not its first letter.
pub open spec fn name_extension(s: Seq<char>) -> Option<Seq<char>> {
    match last_dot(s) {
        Some(k) => if k > 0 {
            Some(s.subrange(k + 1, s.len() as int))
        } else {
            None
        },
        None => None,
    }
}

/// `Path::extension`, read as text. Claims that the answer is the path's
/// extension, which depends on the path alone, and, for a file name that
/// stands on its own, that it is what follows the name's last dot where that
/// dot is not its first letter (std's `rsplit_file_at_dot`). How a longer
/// path is cut into a folder and a file name is std's, and left unsaid.
#[verifier::external_body]
fn extension_of(path: &str) -> (r: Option<String>)
    ensures
        crate::probe::opt_view(r) == path_extension(path@),
        bare_name(path@) ==> crate::probe::opt_view(r) == name_extension(path@),
{
    match std::path::Path::new(path).extension() {
        Some(extension) => extension.to_str().map(String::from),
        None => None,
    }
}

/// The extensions of the files the decoder really plays, in lower case.
pub open spec fn audio_extensions() -> Seq<Seq<char>> {
    seq![
        "mp3"@,
        "flac"@,
        "m4a"@,
        "m4b"@,
        "mka"@,
        "aac"@,
        "ogg"@,
        "oga"@,
        "wav"@,
        "aif"@,
        "aiff"@
    ]
}

/// Whether an extension is one of those, whatever the case of its letters.
pub open spec fn is_audio_extension(extension: Seq<char>) -> bool {
    exists|k: int| 0 <= k < audio_extensions().len() && crate::probe::same_ignoring_case(extension, #[trigger] audio_extensions()[k])
}

/// Whether a file with this extension is worth reading: one of those the
/// decoder was checked to play, in any case.
pub fn supported_extension(extension: &str) -> (r: bool)
    ensures
        r == is_audio_extension(extension@),
{
    let known: [&str; 11] = ["mp3", "flac", "m4a", "m4b", "mka", "aac", "ogg", "oga", "wav", "aif", "aiff"];
    let mut k: usize = 0;
    while k < 11
        invariant
            k <= 11,
            forall|j: int| 0 <= j < 11 ==> (#[trigger] known@[j])@ == audio_extensions()[j],
            forall|j: int| 0 <= j < k ==> !crate::probe::same_ignoring_case(extension@, #[trigger] audio_extensions()[j]),
        decreases 11 - k,
    {
        if crate::probe::same_letters_ignoring_case(extension, known[k]) {
            return true;
        }
        k = k + 1;
    }
    false
}

/// Whether this is a file worth reading: one whose extension is one the
/// decoder really plays.
pub fn supported(path: &str) -> (r: bool)
    ensures
        r == (path_extension(path@) matches Some(e) && is_audio_extension(e)),
        bare_name(path@) ==> r == (name_extension(path@) matches Some(e) && is_audio_extension(e)),
{
    match extension_of(path) {
        Some(extension) => supported_extension(extension.as_str()),
        None => false,
    }
}

impl Track {
    /// The album a song belongs to: an album title is one album only with
    /// the same album artist.
    pub fn album_key(&self) -> (k: (String, String))
        ensures
            k.0@ == self.album_artist@,
            k.1@ == self.album@,
    {
        (self.album_artist.clone(), self.album.clone())
    }
}

/// How long something is, on a clock face: minutes and seconds, and hours
/// in front of them from an hour on.
pub open spec fn clock_face(n: nat) -> Seq<char> {
    if n >= 3600 {
        digits_of(n / 3600) + seq![':'] + two_digits_of(n / 60 % 60) + seq![':'] + two_digits_of(n % 60)
    } else {
        digits_of(n / 60) + seq![':'] + two_digits_of(n % 60)
    }
}

/// So many whole seconds on a clock face.
pub fn clock(n: u64) -> (r: String)
    ensures
        r@ == clock_face(n as nat),
{
    proof {
        reveal_strlit(":");
    }
    if n >= 3600 {
        let mut s = decimal_string(n / 3600);
        s.append(":");
        s.append(two_digit_string(n / 60 % 60).as_str());
        s.append(":");
        s.append(two_digit_string(n % 60).as_str());
        s
    } else {
        let mut s = decimal_string(n / 60);
        s.append(":");
        s.append(two_digit_string(n % 60).as_str());
        s
    }
}

/// What the reading of the library had to say when it was done.
pub enum Notice {
    /// Nothing went wrong.
    Quiet,
    /// One thing went wrong, and this is what.
    One(String),
    /// Several things went wrong: the first of them, and how many more.
    More { first: String, others: usize },
}

/// What to say of the files the reading could not read.
pub fn notice_of(errors: &Vec<String>) -> (n: Notice)
    ensures
        errors.len() == 0 ==> n is Quiet,
        errors.len() == 1 ==> (n matches Notice::One(e) && e@ == errors@[0]@),
        errors.len() > 1 ==> (n matches Notice::More { first, others } && first@ == errors@[0]@
            && others == errors.len() - 1),
{
    if errors.len() == 0 {
        Notice::Quiet
    } else if errors.len() == 1 {
        Notice::One(errors[0].clone())
    } else {
        Notice::More { first: errors[0].clone(), others: errors.len() - 1 }
    }
}

} // verus!
