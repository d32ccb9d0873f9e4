//! Session metadata: a YAML document parsed only when its update counter
//! moves.

use std::sync::Arc;
use vstd::prelude::*;
use yaml_rust::{ScanError, Yaml, YamlLoader};
use crate::header::Header;
use crate::region::{range_of, SharedMemory};
use crate::text::{c_str, latin1, latin1_c_str};

verus! {

/// `yaml_rust::Yaml`, a parsed document, carried through unopened.
#[verifier::external_type_specification]
#[verifier::external_body]
pub struct ExYaml(Yaml);

/// `yaml_rust::ScanError`, the loader's error, carried through unopened.
#[verifier::external_type_specification]
#[verifier::external_body]
pub struct ExScanError(ScanError);

/// What the YAML loader makes of `text`: the number of documents it holds,
/// or `None` when the loader reports an error.
pub uninterp spec fn yaml_doc_count(text: Seq<char>) -> Option<nat>;

/// Longest line, in characters, that session text may hold.
pub const MAX_LINE: usize = 512;

/// Number of characters of `t` up to and including index `i` since the last
/// line break.
pub open spec fn line_run(t: Seq<char>, i: int) -> nat
    decreases i + 1,
{
    if i < 0 || i >= t.len() {
        0
    } else if t[i] == '\n' {
        0
    } else {
        1 + line_run(t, i - 1)
    }
}

/// No line of `t` is longer than `limit` characters.
pub open spec fn lines_bounded(t: Seq<char>, limit: nat) -> bool {
    forall|i: int| 0 <= i < t.len() ==> #[trigger] line_run(t, i) <= limit
}

/// Relies on `yaml_rust::YamlLoader::load_from_str`: the documents of
/// `text`, or the scanner's error, as a function of `text` alone. The loader
/// recurses once per nesting level; block nesting needs ever wider lines and
/// the scanner refuses flow nesting past 255 levels, so the line bound keeps
/// that recursion shallow.
#[verifier::external_body]
fn load_yaml(text: &str) -> (r: Result<Vec<Yaml>, ScanError>)
    requires
        lines_bounded(text@, MAX_LINE as nat),
    ensures
        match r {
            Ok(docs) => yaml_doc_count(text@) == Some(docs@.len()),
            Err(_) => yaml_doc_count(text@) is None,
        },
{
    YamlLoader::load_from_str(text)
}

/// Why session metadata could not be had for a cycle.
#[derive(Clone, Copy, Debug, PartialEq, Eq, Structural)]
pub enum SessionInfoError {
    /// The blob does not lie within the region.
    OutOfBounds,
    /// A line of the text is longer than `MAX_LINE` characters.
    LineTooLong,
    /// The text is not YAML.
    Syntax,
    /// The text holds no document.
    Empty,
}

/// The text of a session-metadata blob: its bytes before the first NUL, one
/// character per byte.
pub open spec fn session_text(raw: Seq<u8>) -> Seq<char> {
    latin1(c_str(raw))
}

/// Why the blob `raw` yields no document, or `None` when it yields one.
pub open spec fn session_parse_error(raw: Seq<u8>) -> Option<SessionInfoError> {
    let t = session_text(raw);
    if !lines_bounded(t, MAX_LINE as nat) {
        Some(SessionInfoError::LineTooLong)
    } else {
        match yaml_doc_count(t) {
            None => Some(SessionInfoError::Syntax),
            Some(n) => if n == 0 {
                Some(SessionInfoError::Empty)
            } else {
                None
            },
        }
    }
}

/// Whether every line of the text of `raw[..n]` has at most `MAX_LINE`
/// characters.
fn lines_within(raw: &[u8], n: usize) -> (r: bool)
    requires
        n <= raw@.len(),
    ensures
        r == lines_bounded(latin1(raw@.take(n as int)), MAX_LINE as nat),
{
    let ghost t = latin1(raw@.take(n as int));
    let mut run: usize = 0;
    let mut i: usize = 0;
    while i < n
        invariant
            n <= raw@.len(),
            t == latin1(raw@.take(n as int)),
            i <= n,
            run <= MAX_LINE,
            run == line_run(t, i - 1),
            forall|j: int| 0 <= j < i ==> #[trigger] line_run(t, j) <= MAX_LINE,
        decreases n - i,
    {
        let c = raw[i] as char;
        assert(t[i as int] == c);
        if c == '\n' {
            run = 0;
        } else {
            run = run + 1;
        }
        assert(run == line_run(t, i as int));
        if run > MAX_LINE {
            return false;
        }
        i += 1;
    }
    true
}

/// Parses a session-metadata blob into its first YAML document.
pub fn parse_session_info(raw: &[u8]) -> (r: Result<Yaml, SessionInfoError>)
    ensures
        r is Ok <==> session_parse_error(raw@) is None,
        r matches Err(e) ==> session_parse_error(raw@) == Some(e),
{
    let n = crate::text::c_str_len_in(raw, 0, raw.len());
    assert(raw@.subrange(0, raw@.len() as int) =~= raw@);
    let text = latin1_c_str(raw, 0, raw.len());
    assert(raw@.take(n as int) =~= c_str(raw@));
    if !lines_within(raw, n) {
        return Err(SessionInfoError::LineTooLong);
    }
    match load_yaml(text.as_str()) {
        Ok(mut docs) => {
            if docs.len() == 0 {
                Err(SessionInfoError::Empty)
            } else {
                Ok(docs.remove(0))
            }
        },
        Err(_) => Err(SessionInfoError::Syntax),
    }
}

/// Relies on `Arc::clone`: a second pointer to the same value.
#[verifier::external_body]
pub(crate) fn share<T>(a: &Arc<T>) -> (r: Arc<T>)
    ensures
        r == *a,
{
    Arc::clone(a)
}

/// Where the metadata handed out came from.
pub enum SessionLookup {
    /// The cached document, parsed at an earlier cycle.
    Cached(Arc<Yaml>),
    /// A document parsed from the blob just now.
    Parsed(Arc<Yaml>),
}

/// The last parsed document, with the update counter it was parsed at.
pub struct SessionInfoCache {
    pub content: Option<(i32, Arc<Yaml>)>,
}

/// The update counter the cache holds a document for, if any.
pub open spec fn cached_update(content: Option<(i32, Arc<Yaml>)>) -> Option<i32> {
    match content {
        Some((u, _)) => Some(u),
        None => None,
    }
}

/// Whether a lookup at counter `update` parses, given the cached counter.
pub open spec fn parses(cached: Option<i32>, update: i32) -> bool {
    cached != Some(update)
}

/// Idempotence of the metadata cache: along lookups at the counters
/// `updates` that all succeed, so that the cache holds each lookup's counter
/// after it, a lookup parses exactly when its
/// counter differs from the one before it (for the first lookup, from the
/// counter cached at the start).
pub proof fn lemma_parse_once_per_change(start: Option<i32>, cached: Seq<Option<i32>>, updates: Seq<i32>, i: int)
    requires
        cached.len() == updates.len() + 1,
        cached[0] == start,
        forall|k: int| 0 <= k < updates.len() ==> #[trigger] cached[k + 1] == Some(updates[k]),
        0 <= i < updates.len(),
    ensures
        i == 0 ==> (parses(cached[i], updates[i]) <==> start != Some(updates[0])),
        i > 0 ==> (parses(cached[i], updates[i]) <==> updates[i] != updates[i - 1]),
{
    if i > 0 {
        assert(cached[(i - 1) + 1] == Some(updates[i - 1]));
    }
}

impl SessionInfoCache {
    pub fn new() -> (r: SessionInfoCache)
        ensures
            cached_update(r.content) is None,
    {
        SessionInfoCache { content: None }
    }

    /// The session metadata for header `h`. The blob is parsed only when
    /// `h.session_info_update` differs from the cached counter; a parse that
    /// succeeds replaces the cache entry, and a failure leaves it.
    pub fn get(&mut self, image: &SharedMemory, h: &Header) -> (r: Result<
        SessionLookup,
        SessionInfoError,
    >)
        ensures
            cached_update(old(self).content) == Some(h.session_info_update) ==> (r matches Ok(l) && l is Cached)
                && final(self).content == old(self).content,
            cached_update(old(self).content) != Some(h.session_info_update) ==> {
                match range_of(image.bytes@, h.session_info_offset, h.session_info_len) {
                    None => r == Err::<SessionLookup, _>(SessionInfoError::OutOfBounds),
                    Some(raw) => match session_parse_error(raw) {
                        None => r matches Ok(l) && l is Parsed,
                        Some(e) => r == Err::<SessionLookup, _>(e),
                    },
                }
            },
            r matches Ok(SessionLookup::Cached(a)) ==> old(self).content matches Some((_, d)) && a == d,
            r matches Ok(SessionLookup::Parsed(a)) ==> final(self).content matches Some((u, d)) && d == a
                && u == h.session_info_update,
            r matches Ok(l) ==> (l is Parsed <==> parses(cached_update(old(self).content), h.session_info_update)),
            r is Ok ==> cached_update(final(self).content) == Some(h.session_info_update),
            r is Err ==> final(self).content == old(self).content,
    {
        match &self.content {
            Some((u, doc)) => {
                if *u == h.session_info_update {
                    return Ok(SessionLookup::Cached(share(doc)));
                }
            },
            None => {},
        }
        let raw = match image.raw_session_info(h) {
            Some(raw) => raw,
            None => return Err(SessionInfoError::OutOfBounds),
        };
        match parse_session_info(&raw) {
            Ok(doc) => {
                let doc = Arc::new(doc);
                self.content = Some((h.session_info_update, share(&doc)));
                Ok(SessionLookup::Parsed(doc))
            },
            Err(e) => Err(e),
        }
    }
}

} // verus!
