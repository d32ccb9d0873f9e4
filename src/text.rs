//! Byte strings as the producer writes them: NUL-terminated, fixed-width.

use vstd::prelude::*;

verus! {

/// Length of the text before the first NUL byte (all of `b` if none).
pub open spec fn c_str_len(b: Seq<u8>) -> nat
    decreases b.len(),
{
    if b.len() == 0 {
        0
    } else if b[0] == 0 {
        0
    } else {
        1 + c_str_len(b.drop_first())
    }
}

/// The bytes before the first NUL.
pub open spec fn c_str(b: Seq<u8>) -> Seq<u8> {
    b.take(c_str_len(b) as int)
}

/// Each byte read as the code point of the same value (ISO 8859-1).
pub open spec fn latin1(b: Seq<u8>) -> Seq<char> {
    b.map_values(|x: u8| x as char)
}

/// What the UTF-8 decoding of `b` yields: the characters, or `None` when the
/// bytes are not valid UTF-8.
pub uninterp spec fn utf8_decoded(b: Seq<u8>) -> Option<Seq<char>>;

proof fn lemma_c_str_len_bound(b: Seq<u8>)
    ensures
        c_str_len(b) <= b.len(),
    decreases b.len(),
{
    if b.len() > 0 && b[0] != 0 {
        lemma_c_str_len_bound(b.drop_first());
    }
}

/// Number of bytes of `b[start..end]` before its first NUL.
pub fn c_str_len_in(b: &[u8], start: usize, end: usize) -> (r: usize)
    requires
        start <= end <= b@.len(),
    ensures
        r == c_str_len(b@.subrange(start as int, end as int)),
        r <= end - start,
{
    let mut i: usize = start;
    proof {
        lemma_c_str_len_bound(b@.subrange(start as int, end as int));
    }
    while i < end && b[i] != 0
        invariant
            start <= i <= end <= b@.len(),
            (i - start) + c_str_len(b@.subrange(i as int, end as int)) == c_str_len(
                b@.subrange(start as int, end as int),
            ),
        decreases end - i,
    {
        assert(b@.subrange(i as int, end as int).drop_first() =~= b@.subrange(
            i + 1,
            end as int,
        ));
        i += 1;
    }
    if i < end {
        assert(b@.subrange(i as int, end as int)[0] == b@[i as int]);
    }
    i - start
}

/// Relies on `String::push`: appends one character.
#[verifier::external_body]
fn push_char(s: &mut String, c: char)
    ensures
        final(s)@ == old(s)@.push(c),
{
    s.push(c)
}

/// Relies on `String::from_utf8`: `Ok` exactly for valid UTF-8, holding the
/// decoded characters.
#[verifier::external_body]
fn string_from_utf8(v: Vec<u8>) -> (r: Option<String>)
    ensures
        match r {
            Some(s) => utf8_decoded(v@) == Some(s@),
            None => utf8_decoded(v@) is None,
        },
{
    String::from_utf8(v).ok()
}

/// Copies `b[start..start + len]`.
pub fn copy_range(b: &[u8], start: usize, len: usize) -> (r: Vec<u8>)
    requires
        start + len <= b@.len(),
    ensures
        r@ == b@.subrange(start as int, start + len),
{
    let mut r: Vec<u8> = Vec::new();
    let mut i: usize = 0;
    let blen: usize = b.len();
    while i < len
        invariant
            blen == b@.len(),
            start + len <= b@.len(),
            i <= len,
            r@ == b@.subrange(start as int, start + i),
        decreases len - i,
    {
        assert(start + i < b@.len());
        r.push(b[start + i]);
        i += 1;
        assert(r@ =~= b@.subrange(start as int, start + i));
    }
    r
}

/// The text of `b[start..end]` up to its first NUL, one character per byte.
pub fn latin1_c_str(b: &[u8], start: usize, end: usize) -> (r: String)
    requires
        start <= end <= b@.len(),
    ensures
        r@ == latin1(c_str(b@.subrange(start as int, end as int))),
{
    let n = c_str_len_in(b, start, end);
    let ghost field = b@.subrange(start as int, end as int);
    let mut s = String::new();
    let mut i: usize = 0;
    while i < n
        invariant
            n <= end - start,
            start <= end <= b@.len(),
            field == b@.subrange(start as int, end as int),
            n == c_str_len(field),
            i <= n,
            s@ == latin1(field.take(i as int)),
        decreases n - i,
    {
        let c = b[start + i] as char;
        push_char(&mut s, c);
        i += 1;
        assert(s@ =~= latin1(field.take(i as int)));
    }
    assert(field.take(n as int) =~= c_str(field));
    s
}

/// The text of `b[start..end]` up to its first NUL, decoded as UTF-8; `None`
/// when those bytes are not valid UTF-8.
pub fn utf8_c_str(b: &[u8], start: usize, end: usize) -> (r: Option<String>)
    requires
        start <= end <= b@.len(),
    ensures
        match r {
            Some(s) => utf8_decoded(c_str(b@.subrange(start as int, end as int))) == Some(s@),
            None => utf8_decoded(c_str(b@.subrange(start as int, end as int))) is None,
        },
{
    let n = c_str_len_in(b, start, end);
    let bytes = copy_range(b, start, n);
    assert(bytes@ =~= c_str(b@.subrange(start as int, end as int)));
    string_from_utf8(bytes)
}

} // verus!
