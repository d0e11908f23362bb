//! Small string helpers shared by the filename logic, the token parsers and
//! the codec.

use vstd::prelude::*;
use vstd::string::StrSliceExecFns;

verus! {

/// Relies on String::push: appends exactly the given character to the end of
/// the string.
#[verifier::external_body]
pub(crate) fn push_char(s: &mut String, c: char)
    ensures
        final(s)@ == old(s)@.push(c),
{
    s.push(c)
}

/// Whether two string slices hold the same characters.
pub(crate) fn str_eq(a: &str, b: &str) -> (r: bool)
    ensures
        r == (a@ == b@),
{
    let ao = a.to_owned();
    let bo = b.to_owned();
    ao == bo
}

/// Whether `c` has the Unicode White_Space property: the ASCII whitespace
/// characters, the next line and no-break spaces, the ogham space mark, the
/// typographic spaces, the line and paragraph separators, the narrow
/// no-break and medium mathematical spaces, and the ideographic space.
pub open spec fn is_unicode_whitespace(c: char) -> bool {
    let u = c as u32;
    ||| u == 0x9
    ||| u == 0xA
    ||| u == 0xB
    ||| u == 0xC
    ||| u == 0xD
    ||| u == 0x20
    ||| u == 0x85
    ||| u == 0xA0
    ||| u == 0x1680
    ||| (0x2000 <= u && u <= 0x200A)
    ||| u == 0x2028
    ||| u == 0x2029
    ||| u == 0x202F
    ||| u == 0x205F
    ||| u == 0x3000
}

/// The characters of `s` with leading whitespace removed.
pub open spec fn spec_trim_start(s: Seq<char>) -> Seq<char>
    decreases s.len(),
{
    if s.len() > 0 && is_unicode_whitespace(s[0]) {
        spec_trim_start(s.drop_first())
    } else {
        s
    }
}

/// The characters of `s` with trailing whitespace removed.
pub open spec fn spec_trim_end(s: Seq<char>) -> Seq<char>
    decreases s.len(),
{
    if s.len() > 0 && is_unicode_whitespace(s.last()) {
        spec_trim_end(s.drop_last())
    } else {
        s
    }
}

/// The characters of `s` with Unicode whitespace removed from both ends.
pub open spec fn spec_trim(s: Seq<char>) -> Seq<char> {
    spec_trim_end(spec_trim_start(s))
}

/// Removing leading whitespace keeps everything from the first
/// non-whitespace character on.
proof fn lemma_trim_start_at(s: Seq<char>, start: int)
    requires
        0 <= start <= s.len(),
        forall|j: int| 0 <= j < start ==> is_unicode_whitespace(s[j]),
        start == s.len() || !is_unicode_whitespace(s[start]),
    ensures
        spec_trim_start(s) == s.subrange(start, s.len() as int),
    decreases start,
{
    if start == 0 {
        assert(s.subrange(0, s.len() as int) =~= s);
    } else {
        assert(is_unicode_whitespace(s[0]));
        let q = s.drop_first();
        lemma_trim_start_at(q, start - 1);
        assert(q.subrange(start - 1, q.len() as int) =~= s.subrange(start, s.len() as int));
    }
}

/// Removing trailing whitespace keeps everything up to the last
/// non-whitespace character.
proof fn lemma_trim_end_at(t: Seq<char>, end: int)
    requires
        0 <= end <= t.len(),
        forall|j: int| end <= j < t.len() ==> is_unicode_whitespace(t[j]),
        end == 0 || !is_unicode_whitespace(t[end - 1]),
    ensures
        spec_trim_end(t) == t.subrange(0, end),
    decreases t.len(),
{
    if end == t.len() {
        assert(t.subrange(0, end) =~= t);
    } else {
        assert(is_unicode_whitespace(t.last()));
        let q = t.drop_last();
        lemma_trim_end_at(q, end);
        assert(q.subrange(0, end) =~= t.subrange(0, end));
    }
}

/// Whether `c` has the Unicode White_Space property.
fn is_ws(c: char) -> (r: bool)
    ensures
        r == is_unicode_whitespace(c),
{
    let u = c as u32;
    u == 0x9 || u == 0xA || u == 0xB || u == 0xC || u == 0xD || u == 0x20 || u == 0x85 || u == 0xA0
        || u == 0x1680 || (0x2000 <= u && u <= 0x200A) || u == 0x2028 || u == 0x2029 || u == 0x202F
        || u == 0x205F || u == 0x3000
}

/// The slice of `s` with Unicode whitespace removed from both ends.
pub(crate) fn trim_ws<'a>(s: &'a str) -> (r: &'a str)
    ensures
        r@ == spec_trim(s@),
{
    let len = s.unicode_len();
    let mut start: usize = 0;
    while start < len && is_ws(s.get_char(start))
        invariant
            start <= len,
            len == s@.len(),
            forall|j: int| 0 <= j < start ==> is_unicode_whitespace(s@[j]),
        decreases len - start,
    {
        start += 1;
    }
    let mut end: usize = len;
    while end > start && is_ws(s.get_char(end - 1))
        invariant
            start <= end <= len,
            len == s@.len(),
            forall|j: int| end <= j < len ==> is_unicode_whitespace(s@[j]),
        decreases end,
    {
        end -= 1;
    }
    proof {
        lemma_trim_start_at(s@, start as int);
        let t = s@.subrange(start as int, len as int);
        assert(forall|j: int|
            end - start <= j < t.len() ==> is_unicode_whitespace(#[trigger] t[j]));
        lemma_trim_end_at(t, end - start);
        assert(t.subrange(0, end - start) =~= s@.subrange(start as int, end as int));
    }
    s.substring_char(start, end)
}

} // verus!
