//! Character-level text operations with their mathematical models.
use vstd::prelude::*;
use vstd::utf8::encode_utf8;

verus! {

/// `needle` occurs in `text` starting at character position `i`.
pub open spec fn occurs_at(text: Seq<char>, needle: Seq<char>, i: int) -> bool {
    0 <= i && i + needle.len() <= text.len() && text.subrange(i, i + needle.len()) == needle
}

/// The first position at or after `k` where `needle` occurs in `text`.
pub open spec fn find_from(text: Seq<char>, needle: Seq<char>, k: nat) -> Option<nat>
    decreases text.len() + 1 - k,
{
    if k + needle.len() > text.len() {
        None
    } else if occurs_at(text, needle, k as int) {
        Some(k)
    } else {
        find_from(text, needle, (k + 1) as nat)
    }
}

/// The first character position where `needle` occurs in `text`.
pub open spec fn first_occurrence(text: Seq<char>, needle: Seq<char>) -> Option<nat> {
    find_from(text, needle, 0)
}

/// `text` with its first occurrence of `needle` taken out (unchanged when there is none).
pub open spec fn remove_first(text: Seq<char>, needle: Seq<char>) -> Seq<char> {
    match first_occurrence(text, needle) {
        Some(i) => text.take(i as int) + text.skip((i + needle.len()) as int),
        None => text,
    }
}

/// Number of bytes of the UTF-8 encoding of `s`.
pub open spec fn byte_len(s: Seq<char>) -> nat {
    encode_utf8(s).len()
}

/// Where `needle` does not occur at `k`, searching from `k` finds what searching from `k + 1` finds.
proof fn lemma_find_from_skip(text: Seq<char>, needle: Seq<char>, k: nat)
    requires
        !occurs_at(text, needle, k as int),
    ensures
        find_from(text, needle, k) == find_from(text, needle, k + 1),
{
    if k + needle.len() > text.len() {
        assert(find_from(text, needle, k + 1) is None) by {
            reveal_with_fuel(find_from, 2);
        }
    }
}

/// What `find_from` returns is an occurrence, with none before it.
pub proof fn lemma_find_from_first(text: Seq<char>, needle: Seq<char>, k: nat)
    ensures
        find_from(text, needle, k) matches Some(i) ==> {
            &&& k <= i
            &&& occurs_at(text, needle, i as int)
            &&& forall|j: int| k <= j < i ==> !occurs_at(text, needle, j)
        },
        find_from(text, needle, k) is None ==> forall|j: int| k <= j ==> !occurs_at(text, needle, j),
    decreases text.len() + 1 - k,
{
    if k + needle.len() > text.len() {
    } else if occurs_at(text, needle, k as int) {
    } else {
        lemma_find_from_first(text, needle, (k + 1) as nat);
    }
}

/// The characters of `s`, in order.
pub fn chars_of(s: &str) -> (r: Vec<char>)
    ensures
        r@ == s@,
{
    let mut v: Vec<char> = Vec::new();
    for c in it: s.chars()
        invariant
            v@ == it.seq().take(it.index() as int),
    {
        v.push(c);
    }
    v
}

/// Relies on `String::push`: appends one character to the string.
#[verifier::external_body]
pub(crate) fn push_char(s: &mut String, c: char)
    ensures
        final(s)@ == old(s)@.push(c),
{
    s.push(c);
}

/// Appends `v[lo..hi]` to `s`.
pub fn push_range(s: &mut String, v: &Vec<char>, lo: usize, hi: usize)
    requires
        lo <= hi <= v.len(),
    ensures
        final(s)@ == old(s)@ + v@.subrange(lo as int, hi as int),
{
    let mut i: usize = lo;
    while i < hi
        invariant
            lo <= i <= hi <= v.len(),
            s@ == old(s)@ + v@.subrange(lo as int, i as int),
        decreases hi - i,
    {
        push_char(s, v[i]);
        assert(v@.subrange(lo as int, i + 1) == v@.subrange(lo as int, i as int).push(v@[i as int]));
        assert(old(s)@ + v@.subrange(lo as int, i + 1) == (old(s)@ + v@.subrange(lo as int, i as int)).push(v@[i as int]));
        i = i + 1;
    }
}

/// The string made of `v[lo..hi]`.
pub fn string_of_range(v: &Vec<char>, lo: usize, hi: usize) -> (r: String)
    requires
        lo <= hi <= v.len(),
    ensures
        r@ == v@.subrange(lo as int, hi as int),
{
    let mut s = String::new();
    push_range(&mut s, v, lo, hi);
    assert(Seq::<char>::empty() + v@.subrange(lo as int, hi as int) == v@.subrange(lo as int, hi as int));
    s
}

/// The UTF-8 encoding of a concatenation is the concatenation of the encodings.
pub proof fn lemma_encode_concat(a: Seq<char>, b: Seq<char>)
    ensures
        encode_utf8(a + b) == encode_utf8(a) + encode_utf8(b),
    decreases a.len(),
{
    if a.len() == 0 {
        assert(a + b == b);
        assert(encode_utf8(a) + encode_utf8(b) == encode_utf8(b));
    } else {
        assert((a + b).drop_first() == a.drop_first() + b);
        assert((a + b)[0] == a[0]);
        lemma_encode_concat(a.drop_first(), b);
        let e = vstd::utf8::encode_scalar(a[0] as u32);
        assert(e + (encode_utf8(a.drop_first()) + encode_utf8(b)) == (e + encode_utf8(a.drop_first())) + encode_utf8(b));
    }
}

/// A prefix takes no more bytes than the whole text.
pub proof fn lemma_prefix_byte_len(text: Seq<char>, i: int)
    requires
        0 <= i <= text.len(),
    ensures
        byte_len(text.take(i)) <= byte_len(text),
{
    assert(text == text.take(i) + text.skip(i));
    lemma_encode_concat(text.take(i), text.skip(i));
}

/// Whether `needle` occurs in `text` at position `k`.
pub(crate) fn occurs_at_exec(text: &Vec<char>, needle: &Vec<char>, k: usize) -> (r: bool)
    ensures
        r == occurs_at(text@, needle@, k as int),
{
    if k > text.len() || needle.len() > text.len() - k {
        return false;
    }
    let mut j: usize = 0;
    while j < needle.len()
        invariant
            k + needle.len() <= text.len(),
            j <= needle.len(),
            text@.subrange(k as int, k + j) == needle@.take(j as int),
        decreases needle.len() - j,
    {
        if text[k + j] != needle[j] {
            assert(text@.subrange(k as int, k + needle.len())[j as int] != needle@[j as int]);
            return false;
        }
        assert(text@.subrange(k as int, k + j + 1) == text@.subrange(k as int, k + j).push(text@[k + j]));
        assert(needle@.take(j + 1) == needle@.take(j as int).push(needle@[j as int]));
        j = j + 1;
    }
    assert(needle@.take(needle.len() as int) == needle@);
    true
}

/// The first character position where `needle` occurs in `text`.
pub fn find_first(text: &Vec<char>, needle: &Vec<char>) -> (r: Option<usize>)
    ensures
        match r {
            Some(i) => first_occurrence(text@, needle@) == Some(i as nat),
            None => first_occurrence(text@, needle@) is None,
        },
{
    if needle.len() > text.len() {
        return None;
    }
    let limit: usize = text.len() - needle.len();
    let mut k: usize = 0;
    loop
        invariant
            k <= limit,
            limit + needle.len() == text.len(),
            find_from(text@, needle@, 0) == find_from(text@, needle@, k as nat),
        decreases limit - k,
    {
        if occurs_at_exec(text, needle, k) {
            return Some(k);
        }
        proof {
            lemma_find_from_skip(text@, needle@, k as nat);
        }
        if k == limit {
            return None;
        }
        k = k + 1;
    }
}

/// Position (in bytes) of the first occurrence of `needle` in `text`, and
/// `text` with that occurrence taken out.
pub fn cut_first(text: &str, needle: &str) -> (r: Option<(usize, String)>)
    ensures
        match r {
            Some((b, rest)) => {
                &&& first_occurrence(text@, needle@) matches Some(i)
                &&& b as nat == byte_len(text@.take(i as int))
                &&& rest@ == remove_first(text@, needle@)
            },
            None => first_occurrence(text@, needle@) is None,
        },
{
    let total = text.as_bytes().len();
    assert(byte_len(text@) == total) by {
        broadcast use vstd::slice::group_slice_axioms;
    }
    let t = chars_of(text);
    let n = chars_of(needle);
    match find_first(&t, &n) {
        None => None,
        Some(i) => {
            proof {
                lemma_find_from_first(text@, needle@, 0);
            }
            let mut rest = string_of_range(&t, 0, i);
            proof {
                lemma_prefix_byte_len(text@, i as int);
                assert(t@.subrange(0, i as int) == text@.take(i as int));
            }
            let b = rest.as_str().len();
            push_range(&mut rest, &t, i + n.len(), t.len());
            assert(t@.subrange((i + n.len()) as int, t.len() as int) == text@.skip(i + n.len()));
            Some((b, rest))
        },
    }
}

} // verus!
