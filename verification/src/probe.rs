//! What FFmpeg says a file is: the tags, the length and the artwork, read out
//! of the JSON `ffprobe -show_format -show_streams` writes.
use vstd::prelude::*;
use crate::text::{chars_of, trim_text, trimmed};
use vstd::string::StringExecFns;
use vstd::string::StrSliceExecFns;

verus! {

broadcast use vstd::string::group_string_axioms;

/// A JSON value, as much of it as the tags are read from. A number is kept as
/// the whole number it is, where it is one that fits in 64 bits.
pub enum Json {
    Null,
    Bool(bool),
    Number(Option<i64>),
    Text(String),
    Array(Vec<Json>),
    /// The members in the order they are listed, each key once.
    Object(Vec<(String, Json)>),
}

/// An ASCII capital in lower case; anything else as it is.
pub open spec fn ascii_lower(c: char) -> u32 {
    if 'A' <= c && c <= 'Z' {
        (c as u32 + 32) as u32
    } else {
        c as u32
    }
}

/// Two words that are the same but for the case of ASCII letters.
pub open spec fn same_ignoring_case(a: Seq<char>, b: Seq<char>) -> bool {
    a.len() == b.len() && forall|i: int| 0 <= i < a.len() ==> ascii_lower(#[trigger] a[i]) == ascii_lower(b[i])
}

pub fn same_letters_ignoring_case(a: &str, b: &str) -> (r: bool)
    ensures
        r == same_ignoring_case(a@, b@),
{
    let x = chars_of(a);
    let y = chars_of(b);
    if x.len() != y.len() {
        return false;
    }
    let mut i: usize = 0;
    while i < x.len()
        invariant
            x@ == a@,
            y@ == b@,
            x.len() == y.len(),
            i <= x.len(),
            forall|j: int| 0 <= j < i ==> ascii_lower(#[trigger] x@[j]) == ascii_lower(y@[j]),
        decreases x.len() - i,
    {
        let p = x[i];
        let q = y[i];
        let lp: u32 = if 'A' <= p && p <= 'Z' {
            p as u32 + 32
        } else {
            p as u32
        };
        let lq: u32 = if 'A' <= q && q <= 'Z' {
            q as u32 + 32
        } else {
            q as u32
        };
        if lp != lq {
            return false;
        }
        i = i + 1;
    }
    true
}

/// Where in `pairs`, from `k` on, the first member named `key` is.
pub open spec fn member_at(pairs: Seq<(String, Json)>, key: Seq<char>, k: nat) -> Option<nat>
    decreases pairs.len() - k,
{
    if k >= pairs.len() {
        None
    } else if pairs[k as int].0@ == key {
        Some(k)
    } else {
        member_at(pairs, key, k + 1)
    }
}

/// The member of an object named `key`, or null: what indexing a JSON value
/// by a key gives.
pub open spec fn member(j: Json, key: Seq<char>) -> Json {
    match j {
        Json::Object(pairs) => match member_at(pairs@, key, 0) {
            Some(k) => pairs@[k as int].1,
            None => Json::Null,
        },
        _ => Json::Null,
    }
}

/// The text a value holds, if it is text.
pub open spec fn text_of(j: Json) -> Option<Seq<char>> {
    match j {
        Json::Text(s) => Some(s@),
        _ => None,
    }
}

/// Where in `pairs`, from `k` on, the first member whose name is `key` but
/// for case is.
pub open spec fn tag_at(pairs: Seq<(String, Json)>, key: Seq<char>, k: nat) -> Option<nat>
    decreases pairs.len() - k,
{
    if k >= pairs.len() {
        None
    } else if same_ignoring_case(pairs[k as int].0@, key) {
        Some(k)
    } else {
        tag_at(pairs, key, k + 1)
    }
}

/// A tag, found by its name whatever its case: the first member of the tags
/// so named, if its value is text with something in it once the white space
/// round it is gone.
pub open spec fn tag_value(tags: Json, key: Seq<char>) -> Option<Seq<char>> {
    match tags {
        Json::Object(pairs) => match tag_at(pairs@, key, 0) {
            Some(k) => match pairs@[k as int].1 {
                Json::Text(s) => if trimmed(s@).len() > 0 {
                    Some(trimmed(s@))
                } else {
                    None
                },
                _ => None,
            },
            None => None,
        },
        _ => None,
    }
}

pub open spec fn opt_view(o: Option<String>) -> Option<Seq<char>> {
    match o {
        Some(s) => Some(s@),
        None => None,
    }
}

/// Read a tag, accepting any case in its name.
pub fn tag(tags: &Json, key: &str) -> (r: Option<String>)
    ensures
        opt_view(r) == tag_value(*tags, key@),
{
    match tags {
        Json::Object(pairs) => {
            let mut k: usize = 0;
            while k < pairs.len()
                invariant
                    k <= pairs.len(),
                    *tags == Json::Object(*pairs),
                    tag_at(pairs@, key@, 0) == tag_at(pairs@, key@, k as nat),
                decreases pairs.len() - k,
            {
                if same_letters_ignoring_case(pairs[k].0.as_str(), key) {
                    assert(tag_at(pairs@, key@, k as nat) == Some(k as nat));
                    let value = &pairs[k].1;
                    return match value {
                        Json::Text(s) => {
                            let t = trim_text(s.as_str());
                            if !t.as_str().is_empty() {
                                Some(t)
                            } else {
                                None
                            }
                        },
                        _ => None,
                    };
                }
                k = k + 1;
            }
            None
        },
        _ => None,
    }
}

/// Where in `s`, from `k` on, the first `/` is, or its length where there is
/// none.
pub open spec fn slash_at(s: Seq<char>, k: nat) -> nat
    decreases s.len() - k,
{
    if k >= s.len() {
        s.len()
    } else if s[k as int] == '/' {
        k
    } else {
        slash_at(s, k + 1)
    }
}

pub open spec fn is_digit(c: char) -> bool {
    '0' <= c && c <= '9'
}

/// The number the digits `d` write, most significant first.
pub open spec fn decimal(d: Seq<char>) -> nat
    decreases d.len(),
{
    if d.len() == 0 {
        0
    } else {
        decimal(d.drop_last()) * 10 + ((d.last() as u32 - '0' as u32) as nat)
    }
}

/// What `u32::from_str` makes of a word: an optional `+` and then one digit
/// or more, naming a number that fits; anything else is no number.
pub open spec fn parsed_u32(s: Seq<char>) -> Option<u32> {
    let d = unsigned_digits(s);
    if d.len() > 0 && all_digits(d) && decimal(d) <= u32::MAX {
        Some(decimal(d) as u32)
    } else {
        None
    }
}

/// A word without the `+` it may start with.
pub open spec fn unsigned_digits(s: Seq<char>) -> Seq<char> {
    if s.len() > 0 && s[0] == '+' {
        s.drop_first()
    } else {
        s
    }
}

pub open spec fn all_digits(d: Seq<char>) -> bool {
    forall|i: int| 0 <= i < d.len() ==> is_digit(#[trigger] d[i])
}

/// A disc or track number as tags write it — "3", or "3/12" with the count
/// after it — or nought where there is none.
pub open spec fn track_number(value: Option<Seq<char>>) -> u32 {
    match value {
        Some(s) => match parsed_u32(s.take(slash_at(s, 0) as int)) {
            Some(n) => n,
            None => 0,
        },
        None => 0,
    }
}

proof fn lemma_decimal_grows(d: Seq<char>, k: int)
    requires
        0 <= k <= d.len(),
        forall|i: int| 0 <= i < d.len() ==> is_digit(#[trigger] d[i]),
    ensures
        decimal(d) >= decimal(d.take(k)),
    decreases d.len() - k,
{
    if k < d.len() {
        lemma_decimal_grows(d, k + 1);
        assert(d.take(k + 1).drop_last() == d.take(k));
    } else {
        assert(d.take(k) == d);
    }
}

/// Read a whole number the way `u32::from_str` does: an optional `+`, then
/// digits naming a number that fits.
pub fn parse_u32(s: &str) -> (r: Option<u32>)
    ensures
        r == parsed_u32(s@),
{
    let cs = chars_of(s);
    let ghost w = s@;
    let end = cs.len();
    let start: usize = if end > 0 && cs[0] == '+' {
        1
    } else {
        0
    };
    let ghost d = unsigned_digits(w);
    assert(d =~= cs@.subrange(start as int, end as int));
    if start >= end {
        return None;
    }
    let mut acc: u64 = 0;
    let mut i: usize = start;
    while i < end
        invariant
            w == s@,
            cs@ == w,
            d == unsigned_digits(w),
            d.len() > 0,
            start <= i <= end,
            end == cs.len(),
            d == cs@.subrange(start as int, end as int),
            acc == decimal(d.take(i - start)),
            acc <= u32::MAX,
            forall|j: int| 0 <= j < i - start ==> is_digit(#[trigger] d[j]),
        decreases end - i,
    {
        let c = cs[i];
        if !('0' <= c && c <= '9') {
            assert(!is_digit(d[i - start]));
            return None;
        }
        acc = acc * 10 + (c as u32 - '0' as u32) as u64;
        assert(d.take(i - start + 1).drop_last() == d.take(i - start));
        assert(d.take(i - start + 1).last() == c);
        if acc > 0xffff_ffff {
            proof {
                if forall|j: int| 0 <= j < d.len() ==> is_digit(#[trigger] d[j]) {
                    lemma_decimal_grows(d, i - start + 1);
                }
            }
            return None;
        }
        i = i + 1;
    }
    assert(d.take(d.len() as int) == d);
    Some(acc as u32)
}

/// Read a disc or track number: what comes before any `/`, or nought where
/// that is no number.
pub fn number(value: Option<String>) -> (n: u32)
    ensures
        n == track_number(opt_view(value)),
{
    let s = match value {
        Some(s) => s,
        None => {
            return 0;
        },
    };
    let cs = chars_of(s.as_str());
    let mut end: usize = 0;
    while end < cs.len() && cs[end] != '/'
        invariant
            end <= cs.len(),
            cs@ == s@,
            slash_at(cs@, 0) == slash_at(cs@, end as nat),
        decreases cs.len() - end,
    {
        end = end + 1;
    }
    let head = s.as_str().substring_char(0, end);
    assert(head@ == s@.take(slash_at(s@, 0) as int));
    match parse_u32(head) {
        Some(n) => n,
        None => 0,
    }
}

/// What a file is, as far as its tags, its length and its artwork say.
pub struct Described {
    pub title: String,
    pub artist: String,
    pub album_artist: String,
    pub album: String,
    pub disc: u32,
    pub number: u32,
    /// The length in seconds, as FFmpeg wrote it, where it wrote one.
    pub duration: Option<String>,
    /// Whether a stream of the file is a picture attached to it.
    pub embedded: bool,
}

pub struct DescribedView {
    pub title: Seq<char>,
    pub artist: Seq<char>,
    pub album_artist: Seq<char>,
    pub album: Seq<char>,
    pub disc: u32,
    pub number: u32,
    pub duration: Option<Seq<char>>,
    pub embedded: bool,
}

impl View for Described {
    type V = DescribedView;

    open spec fn view(&self) -> DescribedView {
        DescribedView {
            title: self.title@,
            artist: self.artist@,
            album_artist: self.album_artist@,
            album: self.album@,
            disc: self.disc,
            number: self.number,
            duration: opt_view(self.duration),
            embedded: self.embedded,
        }
    }
}

/// Why a file is not a song.
#[derive(Debug, Clone)]
pub enum ProbeError {
    /// What FFmpeg wrote was not JSON: why, in serde_json's words.
    NotJson(String),
    /// FFmpeg found no sound in it.
    NoAudio,
}

/// Where in `streams`, from `k` on, the first stream of sound is.
pub open spec fn audio_at(streams: Seq<Json>, k: nat) -> Option<nat>
    decreases streams.len() - k,
{
    if k >= streams.len() {
        None
    } else if text_of(member(streams[k as int], "codec_type"@)) == Some("audio"@) {
        Some(k)
    } else {
        audio_at(streams, k + 1)
    }
}

/// The first stream of sound.
pub open spec fn audio_stream(data: Json) -> Option<Json> {
    match member(data, "streams"@) {
        Json::Array(v) => match audio_at(v@, 0) {
            Some(k) => Some(v@[k as int]),
            None => None,
        },
        _ => None,
    }
}

/// Whether a stream is a picture attached to the file.
pub open spec fn attached(stream: Json) -> bool {
    member(member(stream, "disposition"@), "attached_pic"@) == Json::Number(Some(1i64))
}

pub open spec fn has_artwork(data: Json) -> bool {
    match member(data, "streams"@) {
        Json::Array(v) => exists|k: int| 0 <= k < v@.len() && #[trigger] attached(v@[k]),
        _ => false,
    }
}

pub open spec fn or_else(a: Option<Seq<char>>, b: Option<Seq<char>>) -> Option<Seq<char>> {
    if a is Some {
        a
    } else {
        b
    }
}

pub open spec fn or_text(a: Option<Seq<char>>, b: Seq<char>) -> Seq<char> {
    match a {
        Some(x) => x,
        None => b,
    }
}

/// A tag of the file, or failing that of its stream of sound.
pub open spec fn tag_of_file(data: Json, audio: Json, key: Seq<char>) -> Option<Seq<char>> {
    or_else(tag_value(member(member(data, "format"@), "tags"@), key), tag_value(member(audio, "tags"@), key))
}

/// What a file is, given what FFmpeg said of it, the name of the file without
/// its extension, and what an unknown artist and an unknown album are called.
pub open spec fn description(
    data: Json,
    stem: Seq<char>,
    unknown_artist: Seq<char>,
    unknown_album: Seq<char>,
) -> Result<DescribedView, ProbeError> {
    match audio_stream(data) {
        None => Err(ProbeError::NoAudio),
        Some(audio) => {
            let get = |key: Seq<char>| tag_of_file(data, audio, key);
            let artist = or_text(get("artist"@), unknown_artist);
            Ok(
                DescribedView {
                    title: or_text(get("title"@), stem),
                    artist,
                    album_artist: or_text(
                        or_else(get("album_artist"@), or_else(get("albumartist"@), get("album artist"@))),
                        artist,
                    ),
                    album: or_text(get("album"@), unknown_album),
                    disc: track_number(or_else(get("disc"@), get("discnumber"@))),
                    number: track_number(or_else(get("track"@), get("tracknumber"@))),
                    duration: or_else(
                        text_of(member(member(data, "format"@), "duration"@)),
                        text_of(member(audio, "duration"@)),
                    ),
                    embedded: has_artwork(data),
                },
            )
        },
    }
}

fn text_is(s: &String, t: &str) -> (r: bool)
    ensures
        r == (s@ == t@),
{
    crate::ranking::compare_text(&chars_of(s.as_str()), &chars_of(t)) == crate::ranking::Cmp::Same
}

pub open spec fn json_or_null(j: Option<&Json>) -> Json {
    match j {
        Some(x) => *x,
        None => Json::Null,
    }
}

/// Index a value by a key: the member so named, or nothing standing for null.
fn member_of<'a>(j: &'a Json, key: &str) -> (r: Option<&'a Json>)
    ensures
        json_or_null(r) == member(*j, key@),
{
    match j {
        Json::Object(pairs) => {
            let mut k: usize = 0;
            while k < pairs.len()
                invariant
                    k <= pairs.len(),
                    *j == Json::Object(*pairs),
                    member_at(pairs@, key@, 0) == member_at(pairs@, key@, k as nat),
                decreases pairs.len() - k,
            {
                if text_is(&pairs[k].0, key) {
                    assert(member_at(pairs@, key@, k as nat) == Some(k as nat));
                    return Some(&pairs[k].1);
                }
                k = k + 1;
            }
            None
        },
        _ => None,
    }
}

fn text_in(j: Option<&Json>) -> (r: Option<String>)
    ensures
        opt_view(r) == text_of(json_or_null(j)),
{
    match j {
        Some(Json::Text(s)) => Some(s.clone()),
        _ => None,
    }
}

fn text_names(j: Option<&Json>, t: &str) -> (r: bool)
    ensures
        r == (text_of(json_or_null(j)) == Some(t@)),
{
    match j {
        Some(Json::Text(s)) => text_is(s, t),
        _ => false,
    }
}

fn tag_in(j: Option<&Json>, key: &str) -> (r: Option<String>)
    ensures
        opt_view(r) == tag_value(json_or_null(j), key@),
{
    match j {
        Some(tags) => tag(tags, key),
        None => None,
    }
}

fn either(a: Option<String>, b: Option<String>) -> (r: Option<String>)
    ensures
        opt_view(r) == or_else(opt_view(a), opt_view(b)),
{
    if a.is_some() {
        a
    } else {
        b
    }
}

fn or_word(a: Option<String>, b: &str) -> (r: String)
    ensures
        r@ == or_text(opt_view(a), b@),
{
    match a {
        Some(x) => x,
        None => String::from_str(b),
    }
}

fn attached_in(stream: &Json) -> (r: bool)
    ensures
        r == attached(*stream),
{
    match member_of(stream, "disposition") {
        Some(d) => match member_of(d, "attached_pic") {
            Some(Json::Number(Some(n))) => *n == 1,
            _ => false,
        },
        None => {
            assert(member(Json::Null, "attached_pic"@) == Json::Null);
            false
        },
    }
}

/// Make out what a file is from what FFmpeg said of it.
pub fn describe(
    data: &Json,
    stem: &str,
    unknown_artist: &str,
    unknown_album: &str,
) -> (r: Result<Described, ProbeError>)
    ensures
        match (r, description(*data, stem@, unknown_artist@, unknown_album@)) {
            (Ok(d), Ok(v)) => d@ == v,
            (Err(e), Err(f)) => e == f,
            _ => false,
        },
{
    let streams = match member_of(data, "streams") {
        Some(Json::Array(v)) => v,
        _ => {
            return Err(ProbeError::NoAudio);
        },
    };
    let mut k: usize = 0;
    while k < streams.len()
        invariant
            k <= streams.len(),
            member(*data, "streams"@) == Json::Array(*streams),
            audio_at(streams@, 0) == audio_at(streams@, k as nat),
        ensures
            k <= streams.len(),
            audio_at(streams@, 0) == audio_at(streams@, k as nat),
            k < streams.len() ==> text_of(member(streams@[k as int], "codec_type"@)) == Some("audio"@),
        decreases streams.len() - k,
    {
        if text_names(member_of(&streams[k], "codec_type"), "audio") {
            break;
        }
        k = k + 1;
    }
    if k >= streams.len() {
        return Err(ProbeError::NoAudio);
    }
    let audio = &streams[k];
    assert(audio_stream(*data) == Some(*audio));
    let format = member_of(data, "format");
    let format_tags = match format {
        Some(f) => member_of(f, "tags"),
        None => None,
    };
    assert(json_or_null(format_tags) == member(member(*data, "format"@), "tags"@));
    let audio_tags = member_of(audio, "tags");
    let artist = or_word(either(tag_in(format_tags, "artist"), tag_in(audio_tags, "artist")), unknown_artist);
    let title = or_word(either(tag_in(format_tags, "title"), tag_in(audio_tags, "title")), stem);
    let album_artist = either(
        either(tag_in(format_tags, "album_artist"), tag_in(audio_tags, "album_artist")),
        either(
            either(tag_in(format_tags, "albumartist"), tag_in(audio_tags, "albumartist")),
            either(tag_in(format_tags, "album artist"), tag_in(audio_tags, "album artist")),
        ),
    );
    let album_artist = match album_artist {
        Some(a) => a,
        None => artist.clone(),
    };
    let album = or_word(either(tag_in(format_tags, "album"), tag_in(audio_tags, "album")), unknown_album);
    let disc = number(
        either(
            either(tag_in(format_tags, "disc"), tag_in(audio_tags, "disc")),
            either(tag_in(format_tags, "discnumber"), tag_in(audio_tags, "discnumber")),
        ),
    );
    let track = number(
        either(
            either(tag_in(format_tags, "track"), tag_in(audio_tags, "track")),
            either(tag_in(format_tags, "tracknumber"), tag_in(audio_tags, "tracknumber")),
        ),
    );
    let format_duration = match format {
        Some(f) => member_of(f, "duration"),
        None => None,
    };
    assert(json_or_null(format_duration) == member(member(*data, "format"@), "duration"@));
    let duration = either(text_in(format_duration), text_in(member_of(audio, "duration")));
    let mut embedded = false;
    let mut s: usize = 0;
    while s < streams.len()
        invariant
            s <= streams.len(),
            embedded == exists|j: int| 0 <= j < s && #[trigger] attached(streams@[j]),
        decreases streams.len() - s,
    {
        if attached_in(&streams[s]) {
            embedded = true;
        }
        s = s + 1;
    }
    Ok(
        Described {
            title,
            artist,
            album_artist,
            album,
            disc,
            number: track,
            duration,
            embedded,
        },
    )
}

#[verifier::external_type_specification]
#[verifier::external_body]
pub struct ExJsonValue(serde_json::Value);

/// The value the JSON in `bytes` stands for, where they are JSON, and
/// otherwise why they are not.
pub uninterp spec fn json_of_bytes(bytes: Seq<u8>) -> Result<Json, Seq<char>>;

/// Reads `bytes` as JSON with `serde_json::from_slice` into a
/// `serde_json::Value`, and gives that value as the library reads it, or,
/// where serde_json refused the bytes, its error as text (what it says and
/// at which line and column). What serde_json makes of given bytes is not
/// restated here: the result is named, and depends on the bytes alone.
#[verifier::external_body]
pub fn parse_json(bytes: &[u8]) -> (r: Result<Json, String>)
    ensures
        match (r, json_of_bytes(bytes@)) {
            (Ok(j), Ok(k)) => j == k,
            (Err(e), Err(m)) => e@ == m,
            _ => false,
        },
{
    serde_json::from_slice::<serde_json::Value>(bytes).map(|v| json_from_value(&v)).map_err(|e| e.to_string())
}

/// A `serde_json::Value` as the library reads it, variant for variant, with
/// a number kept by `serde_json::Number::as_i64`. It stands apart from
/// `parse_json` only because arrays and objects hold values of their own.
#[verifier::external_body]
fn json_from_value(v: &serde_json::Value) -> Json {
    match v {
        serde_json::Value::Null => Json::Null,
        serde_json::Value::Bool(b) => Json::Bool(*b),
        serde_json::Value::Number(n) => Json::Number(n.as_i64()),
        serde_json::Value::String(t) => Json::Text(t.clone()),
        serde_json::Value::Array(items) => Json::Array(items.iter().map(json_from_value).collect()),
        serde_json::Value::Object(members) => Json::Object(
            members.iter().map(|(k, x)| (k.clone(), json_from_value(x))).collect(),
        ),
    }
}

/// What a file is, given the bytes FFmpeg wrote of it: not JSON, with
/// serde_json's reason, or what `describe` makes of the JSON.
pub fn describe_output(
    output: &[u8],
    stem: &str,
    unknown_artist: &str,
    unknown_album: &str,
) -> (r: Result<Described, ProbeError>)
    ensures
        match json_of_bytes(output@) {
            Err(reason) => r matches Err(ProbeError::NotJson(why)) && why@ == reason,
            Ok(data) => match (r, description(data, stem@, unknown_artist@, unknown_album@)) {
                (Ok(d), Ok(v)) => d@ == v,
                (Err(e), Err(f)) => e == f,
                _ => false,
            },
        },
{
    match parse_json(output) {
        Err(why) => Err(ProbeError::NotJson(why)),
        Ok(data) => describe(&data, stem, unknown_artist, unknown_album),
    }
}

/// What a file is called and who it is by falls back, tag by tag: the title
/// to the file's name, the artist to what an unknown artist is called, the
/// album to what an unknown album is called, and the album artist, where no
/// album-artist tag of any spelling is there, to the song's own artist. A
/// tag that is there is taken as it is.
pub proof fn law_what_a_file_is_falls_back_tag_by_tag(
    data: Json,
    audio: Json,
    stem: Seq<char>,
    unknown_artist: Seq<char>,
    unknown_album: Seq<char>,
)
    requires
        audio_stream(data) == Some(audio),
    ensures
        description(data, stem, unknown_artist, unknown_album) matches Ok(v) && {
            let tag = |key: Seq<char>| tag_of_file(data, audio, key);
            &&& tag("title"@) is None ==> v.title == stem
            &&& tag("title"@) matches Some(t) ==> v.title == t
            &&& tag("artist"@) is None ==> v.artist == unknown_artist
            &&& tag("artist"@) matches Some(t) ==> v.artist == t
            &&& tag("album"@) is None ==> v.album == unknown_album
            &&& tag("album"@) matches Some(t) ==> v.album == t
            &&& tag("album_artist"@) matches Some(t) ==> v.album_artist == t
            &&& tag("album_artist"@) is None && tag("albumartist"@) is None && tag(
                "album artist"@,
            ) is None ==> v.album_artist == v.artist
        },
{
}

} // verus!
