//! Byte and text helpers shared by the frame codec: NUL stripping, splitting
//! at the first occurrence of a delimiter byte, lossy decoding and trimming.

use vstd::prelude::*;
use vstd::utf8::*;

verus! {

/// `b` with every zero byte removed, the others kept in order.
pub open spec fn strip_nul(b: Seq<u8>) -> Seq<u8>
    decreases b.len(),
{
    if b.len() == 0 {
        Seq::empty()
    } else if b.last() == 0u8 {
        strip_nul(b.drop_last())
    } else {
        strip_nul(b.drop_last()).push(b.last())
    }
}

/// `d` with every zero code unit removed, the others kept in order.
pub open spec fn strip_nul16(d: Seq<u16>) -> Seq<u16>
    decreases d.len(),
{
    if d.len() == 0 {
        Seq::empty()
    } else if d.last() == 0u16 {
        strip_nul16(d.drop_last())
    } else {
        strip_nul16(d.drop_last()).push(d.last())
    }
}

/// `i` is the position of the first `c` in `b`.
pub open spec fn first_at(b: Seq<u8>, c: u8, i: int) -> bool {
    &&& 0 <= i < b.len()
    &&& b[i] == c
    &&& forall|j: int| 0 <= j < i ==> b[j] != c
}

/// `b` holds the byte `c`.
pub open spec fn has_byte(b: Seq<u8>, c: u8) -> bool {
    exists|i: int| first_at(b, c, i)
}

/// The position of the first `c` in `b`, when there is one.
pub open spec fn first_index(b: Seq<u8>, c: u8) -> int
    recommends
        has_byte(b, c),
{
    choose|i: int| first_at(b, c, i)
}

/// The bytes before the first `c`.
pub open spec fn before_first(b: Seq<u8>, c: u8) -> Seq<u8> {
    b.take(first_index(b, c))
}

/// The bytes after the first `c`.
pub open spec fn after_first(b: Seq<u8>, c: u8) -> Seq<u8> {
    b.skip(first_index(b, c) + 1)
}

/// Only one position can be the first occurrence of a byte.
pub proof fn lemma_first_at_unique(b: Seq<u8>, c: u8, i: int, j: int)
    requires
        first_at(b, c, i),
        first_at(b, c, j),
    ensures
        i == j,
{
    if i < j {
        assert(b[i] != c);
    } else if j < i {
        assert(b[j] != c);
    }
}

/// An exact first position pins down `first_index`.
pub proof fn lemma_first_index(b: Seq<u8>, c: u8, i: int)
    requires
        first_at(b, c, i),
    ensures
        has_byte(b, c),
        first_index(b, c) == i,
{
    assert(has_byte(b, c));
    lemma_first_at_unique(b, c, i, first_index(b, c));
}

/// What `String::from_utf8_lossy` makes of bytes that are not valid UTF-8.
pub uninterp spec fn lossy_utf8(b: Seq<u8>) -> Seq<char>;

/// What `String::from_utf16_lossy` makes of a sequence of code units.
pub uninterp spec fn lossy_utf16(d: Seq<u16>) -> Seq<char>;

/// The text that bytes decode to: valid UTF-8 as it is, anything else with
/// invalid sequences replaced.
pub open spec fn text_of(b: Seq<u8>) -> Seq<char> {
    if valid_utf8(b) {
        decode_utf8(b)
    } else {
        lossy_utf8(b)
    }
}

/// The characters that Unicode gives the White_Space property.
pub open spec fn is_ws(c: char) -> bool {
    let u = c as u32;
    ||| 0x09 <= u <= 0x0D
    ||| u == 0x20
    ||| u == 0x85
    ||| u == 0xA0
    ||| u == 0x1680
    ||| 0x2000 <= u <= 0x200A
    ||| u == 0x2028
    ||| u == 0x2029
    ||| u == 0x202F
    ||| u == 0x205F
    ||| u == 0x3000
}

/// `s` without its leading white space.
pub open spec fn trim_start(s: Seq<char>) -> Seq<char>
    decreases s.len(),
{
    if s.len() > 0 && is_ws(s[0]) {
        trim_start(s.drop_first())
    } else {
        s
    }
}

/// `s` without its trailing white space.
pub open spec fn trim_end(s: Seq<char>) -> Seq<char>
    decreases s.len(),
{
    if s.len() > 0 && is_ws(s.last()) {
        trim_end(s.drop_last())
    } else {
        s
    }
}

/// `s` without leading or trailing white space.
pub open spec fn trimmed(s: Seq<char>) -> Seq<char> {
    trim_end(trim_start(s))
}

/// Relies on `String::from_utf8_lossy`: valid UTF-8 is decoded as it is,
/// and the result depends on the bytes alone.
#[verifier::external_body]
pub(crate) fn decode_lossy(b: &[u8]) -> (r: String)
    ensures
        valid_utf8(b@) ==> r@ == decode_utf8(b@),
        !valid_utf8(b@) ==> r@ == lossy_utf8(b@),
{
    String::from_utf8_lossy(b).into_owned()
}

/// Relies on `String::from_utf16_lossy`: the result depends on the code
/// units alone.
#[verifier::external_body]
pub(crate) fn decode_lossy_utf16(d: &[u16]) -> (r: String)
    ensures
        r@ == lossy_utf16(d@),
{
    String::from_utf16_lossy(d)
}

/// Relies on `str::trim`: leading and trailing White_Space characters are
/// removed.
#[verifier::external_body]
pub(crate) fn trim_ws(s: &str) -> (r: &str)
    ensures
        r@ == trimmed(s@),
{
    s.trim()
}

/// Relies on `str::trim_start`: leading White_Space characters are removed.
#[verifier::external_body]
pub(crate) fn trim_start_ws(s: &str) -> (r: &str)
    ensures
        r@ == trim_start(s@),
{
    s.trim_start()
}

/// Copies `b` without its zero bytes.
pub fn strip_nul_bytes(b: &[u8]) -> (r: Vec<u8>)
    ensures
        r@ == strip_nul(b@),
{
    let mut r: Vec<u8> = Vec::new();
    let mut i: usize = 0;
    while i < b.len()
        invariant
            i <= b@.len(),
            r@ == strip_nul(b@.take(i as int)),
        decreases b@.len() - i,
    {
        assert(b@.take(i as int + 1).drop_last() =~= b@.take(i as int));
        if b[i] != 0 {
            r.push(b[i]);
        }
        i += 1;
    }
    assert(b@.take(b@.len() as int) =~= b@);
    r
}

/// Copies `d` without its zero code units.
pub fn strip_nul_units(d: &[u16]) -> (r: Vec<u16>)
    ensures
        r@ == strip_nul16(d@),
{
    let mut r: Vec<u16> = Vec::new();
    let mut i: usize = 0;
    while i < d.len()
        invariant
            i <= d@.len(),
            r@ == strip_nul16(d@.take(i as int)),
        decreases d@.len() - i,
    {
        assert(d@.take(i as int + 1).drop_last() =~= d@.take(i as int));
        if d[i] != 0 {
            r.push(d[i]);
        }
        i += 1;
    }
    assert(d@.take(d@.len() as int) =~= d@);
    r
}

/// The position of the first `c` in `b`, or `None` when `b` holds no `c`.
pub fn find_byte(b: &[u8], c: u8) -> (r: Option<usize>)
    ensures
        match r {
            Some(i) => first_at(b@, c, i as int) && first_index(b@, c) == i,
            None => !has_byte(b@, c),
        },
{
    let mut i: usize = 0;
    while i < b.len()
        invariant
            i <= b@.len(),
            forall|j: int| 0 <= j < i ==> b@[j] != c,
        decreases b@.len() - i,
    {
        if b[i] == c {
            proof {
                lemma_first_index(b@, c, i as int);
            }
            return Some(i);
        }
        i += 1;
    }
    assert(!has_byte(b@, c)) by {
        if has_byte(b@, c) {
            let k = choose|k: int| first_at(b@, c, k);
            assert(b@[k] == c);
        }
    }
    None
}

/// Appends the bytes of `b` to `out`.
pub fn push_bytes(out: &mut Vec<u8>, b: &[u8])
    ensures
        final(out)@ == old(out)@ + b@,
{
    let mut i: usize = 0;
    while i < b.len()
        invariant
            i <= b@.len(),
            out@ == old(out)@ + b@.take(i as int),
        decreases b@.len() - i,
    {
        out.push(b[i]);
        i += 1;
        assert(b@.take(i as int) =~= b@.take(i as int - 1).push(b@[i as int - 1]));
    }
    assert(b@.take(b@.len() as int) =~= b@);
}

} // verus!
