//! File metadata, weak entity tags and the conditional-request verdict.
use vstd::prelude::*;
use vstd::string::*;
use crate::path::views;

verus! {

/// A modification time: `secs` whole seconds from the Unix epoch (negative
/// before it) plus `nanos` nanoseconds, so that the instant is
/// `secs + nanos / 10^9` seconds.
#[derive(Clone, Copy, Debug, PartialEq, Eq, Structural)]
pub struct FileTime {
    pub secs: i64,
    pub nanos: u32,
}

pub const NANOS_PER_SEC: u32 = 1_000_000_000;

impl FileTime {
    pub open spec fn wf(self) -> bool {
        self.nanos < NANOS_PER_SEC
    }

    /// The instant in nanoseconds from the epoch.
    pub open spec fn instant(self) -> int {
        self.secs * 1_000_000_000 + self.nanos
    }
}

/// What the file system reports of an open file.
#[derive(Clone, Copy, Debug, PartialEq, Eq, Structural)]
pub struct FileMetadata {
    /// Length in bytes.
    pub len: u64,
    /// Modification time, where the platform gives one.
    pub modified: Option<FileTime>,
    /// The file system's native block size, where it can be determined.
    pub block_size: Option<usize>,
}

impl FileMetadata {
    pub open spec fn wf(self) -> bool {
        self.modified matches Some(t) ==> t.wf()
    }
}

/// The validators of a request: every `If-None-Match` value, in order, and the
/// `If-Modified-Since` value if there is one.
#[derive(Clone, Debug)]
pub struct RequestConditionals {
    pub if_none_match: Vec<String>,
    pub if_modified_since: Option<String>,
}

pub open spec fn hex_digit(d: nat) -> char {
    seq!['0', '1', '2', '3', '4', '5', '6', '7', '8', '9', 'a', 'b', 'c', 'd', 'e', 'f'][d as int]
}

/// Lower-case hexadecimal digits of `n`, without leading zeros.
pub open spec fn hex(n: nat) -> Seq<char>
    decreases n,
{
    if n < 16 {
        seq![hex_digit(n)]
    } else {
        hex(n / 16).push(hex_digit(n % 16))
    }
}

/// `W/"<len>-<secs>.<nanos>"`, each number in hexadecimal.
pub open spec fn etag_text(len: nat, secs: nat, nanos: nat) -> Seq<char> {
    seq!['W', '/', '"'] + hex(len) + seq!['-'] + hex(secs) + seq!['.'] + hex(nanos) + seq!['"']
}

/// The weak entity tag of a file, absent where its modification time is
/// unknown or lies before the epoch.
pub open spec fn etag_of(meta: FileMetadata) -> Option<Seq<char>> {
    match meta.modified {
        Some(t) => if t.secs >= 0 {
            Some(etag_text(meta.len as nat, t.secs as nat, t.nanos as nat))
        } else {
            None
        },
        None => None,
    }
}

pub open spec fn opt_view(o: Option<String>) -> Option<Seq<char>> {
    match o {
        Some(s) => Some(s@),
        None => None,
    }
}

/// Whether a file modified at `t` counts as unmodified since the whole second
/// `since` (seconds from the epoch).
pub open spec fn unmodified_since(t: FileTime, since: nat) -> bool {
    t.instant() <= since * 1_000_000_000
}

/// The verdict "304 Not Modified". A non-empty `If-None-Match` decides alone,
/// matched exactly against the entity tag; otherwise the parsed
/// `If-Modified-Since` date is compared with the modification time.
pub open spec fn is_not_modified(
    meta: FileMetadata,
    tags: Seq<Seq<char>>,
    since: Option<u64>,
) -> bool {
    if tags.len() > 0 {
        match etag_of(meta) {
            Some(e) => tags.contains(e),
            None => false,
        }
    } else {
        match (since, meta.modified) {
            (Some(d), Some(t)) => unmodified_since(t, d as nat),
            _ => false,
        }
    }
}

/// The seconds from the epoch of a parsed HTTP date, `None` where the text is
/// no HTTP date.
pub uninterp spec fn http_date_secs(s: Seq<char>) -> Option<u64>;

/// The parsed `If-Modified-Since` date of a request.
pub open spec fn since_of(cond: RequestConditionals) -> Option<u64> {
    match cond.if_modified_since {
        Some(s) => http_date_secs(s@),
        None => None,
    }
}

/// Relies on httpdate::parse_http_date, which reads the three HTTP date
/// formats; the result depends on the text alone and is a whole second no
/// earlier than the epoch.
#[verifier::external_body]
fn parse_http_date(s: &str) -> (r: Option<u64>)
    ensures
        r == http_date_secs(s@),
{
    match httpdate::parse_http_date(s) {
        Ok(t) => t.duration_since(std::time::UNIX_EPOCH).ok().map(|d| d.as_secs()),
        Err(_) => None,
    }
}

/// Appends the hexadecimal digits of `n`.
fn push_hex(s: &mut String, n: u64)
    ensures
        final(s)@ == old(s)@ + hex(n as nat),
    decreases n,
{
    if n >= 16 {
        push_hex(s, n / 16);
    }
    let d = (n % 16) as usize;
    let digits = "0123456789abcdef";
    proof {
        reveal_strlit("0123456789abcdef");
    }
    let ghost before = s@;
    s.append(digits.substring_char(d, d + 1));
    assert(digits@.subrange(d as int, d + 1) =~= seq![hex_digit(d as nat)]);
    if n >= 16 {
        assert(s@ =~= old(s)@ + hex(n as nat));
    } else {
        assert(s@ =~= old(s)@ + hex(n as nat));
    }
}

/// The weak entity tag of a file: hexadecimal length, seconds and nanoseconds
/// of the modification time; none where that time is unknown or before the
/// epoch.
pub fn entity_tag(meta: &FileMetadata) -> (r: Option<String>)
    ensures
        opt_view(r) == etag_of(*meta),
{
    match meta.modified {
        Some(t) => {
            if t.secs < 0 {
                return None;
            }
            let mut s = String::new();
            proof {
                reveal_strlit("W/\"");
                reveal_strlit("-");
                reveal_strlit(".");
                reveal_strlit("\"");
            }
            s.append("W/\"");
            push_hex(&mut s, meta.len);
            s.append("-");
            push_hex(&mut s, t.secs as u64);
            s.append(".");
            push_hex(&mut s, t.nanos as u64);
            s.append("\"");
            assert(s@ =~= etag_text(meta.len as nat, t.secs as nat, t.nanos as nat));
            Some(s)
        },
        None => None,
    }
}

/// Whether the modification time `t` is at or before the whole second `since`.
fn at_or_before(t: FileTime, since: u64) -> (r: bool)
    requires
        t.wf(),
    ensures
        r == unmodified_since(t, since as nat),
{
    if t.secs < 0 {
        assert(t.instant() <= since * 1_000_000_000) by (nonlinear_arith)
            requires
                t.secs < 0,
                t.nanos < 1_000_000_000,
                since >= 0,
        {}
        true
    } else {
        let s = t.secs as u64;
        let r = s < since || (s == since && t.nanos == 0);
        assert(r == (t.instant() <= since * 1_000_000_000)) by (nonlinear_arith)
            requires
                r == (s < since || (s == since && t.nanos == 0)),
                s == t.secs,
                t.instant() == t.secs * 1_000_000_000 + t.nanos,
                t.nanos < 1_000_000_000,
        {}
        r
    }
}

/// Whether any of `tags` is exactly `etag`.
fn any_matches(tags: &Vec<String>, etag: &String) -> (r: bool)
    ensures
        r == views(tags@).contains(etag@),
{
    let mut i: usize = 0;
    while i < tags.len()
        invariant
            i <= tags.len(),
            forall|k: int| 0 <= k < i ==> tags@[k]@ != etag@,
        decreases tags.len() - i,
    {
        if tags[i] == *etag {
            assert(views(tags@)[i as int] == etag@);
            return true;
        }
        i = i + 1;
    }
    assert(!views(tags@).contains(etag@)) by {
        if views(tags@).contains(etag@) {
            let k = choose|k: int| 0 <= k < views(tags@).len() && views(tags@)[k] == etag@;
            assert(tags@[k]@ == etag@);
        }
    }
    false
}

/// The verdict once the `If-Modified-Since` date has been parsed (`since`).
pub fn not_modified_given(meta: &FileMetadata, if_none_match: &Vec<String>, since: Option<u64>) -> (r: bool)
    requires
        meta.wf(),
    ensures
        r == is_not_modified(*meta, views(if_none_match@), since),
{
    if if_none_match.len() > 0 {
        match entity_tag(meta) {
            Some(e) => any_matches(if_none_match, &e),
            None => false,
        }
    } else {
        match (since, meta.modified) {
            (Some(d), Some(t)) => at_or_before(t, d),
            _ => false,
        }
    }
}

/// The verdict "304 Not Modified" for a file and a request's validators.
/// `If-Modified-Since` is read only when no `If-None-Match` value is given.
pub fn not_modified(meta: &FileMetadata, cond: &RequestConditionals) -> (r: bool)
    requires
        meta.wf(),
    ensures
        r == is_not_modified(*meta, views(cond.if_none_match@), since_of(*cond)),
{
    let since = if cond.if_none_match.len() > 0 {
        None
    } else {
        match &cond.if_modified_since {
            Some(s) => parse_http_date(s.as_str()),
            None => None,
        }
    };
    not_modified_given(meta, &cond.if_none_match, since)
}

/// `If-None-Match` wins outright: once it holds any value, the verdict is the
/// same whatever `If-Modified-Since` says, and a value that is not the file's
/// entity tag means the file is served fresh.
pub proof fn lemma_none_match_precedence(
    meta: FileMetadata,
    tags: Seq<Seq<char>>,
    since: Option<u64>,
    other: Option<u64>,
)
    requires
        tags.len() > 0,
    ensures
        is_not_modified(meta, tags, since) == is_not_modified(meta, tags, other),
        (etag_of(meta) matches Some(e) && !tags.contains(e)) ==> !is_not_modified(
            meta,
            tags,
            since,
        ),
{
}

/// Replaying a file's own entity tag as `If-None-Match`, while the file is
/// unchanged, gives "not modified".
pub proof fn lemma_etag_round_trip(meta: FileMetadata, since: Option<u64>)
    requires
        etag_of(meta) is Some,
    ensures
        is_not_modified(meta, seq![etag_of(meta).unwrap()], since),
{
    assert(seq![etag_of(meta).unwrap()][0] == etag_of(meta).unwrap());
}

/// For a file modified on a whole second, `If-Modified-Since` at exactly that
/// second gives "not modified", and one second earlier does not.
pub proof fn lemma_modified_since_boundary(meta: FileMetadata, t: FileTime)
    requires
        meta.modified == Some(t),
        t.nanos == 0,
        1 <= t.secs,
    ensures
        is_not_modified(meta, Seq::empty(), Some(t.secs as u64)),
        !is_not_modified(meta, Seq::empty(), Some((t.secs - 1) as u64)),
{
    assert(t.secs * 1_000_000_000 > (t.secs - 1) * 1_000_000_000) by (nonlinear_arith);
}

} // verus!
