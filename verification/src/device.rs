//! Choosing a device by its name.

use vstd::prelude::*;
use vstd::utf8::{
    decode_utf8, decode_utf8_split, encode_utf8, encode_utf8_decode_utf8, encode_utf8_valid_utf8,
    is_char_boundary, is_char_boundary_iff_not_is_continuation_byte, pop_first_scalar,
    valid_utf8, valid_utf8_split,
};

verus! {

/// Whether `needle` stands in `hay` from position `k` on.
pub open spec fn occurs_at<A>(hay: Seq<A>, needle: Seq<A>, k: int) -> bool {
    &&& 0 <= k
    &&& k + needle.len() <= hay.len()
    &&& hay.subrange(k, k + needle.len()) == needle
}

/// Whether `needle` stands somewhere in `hay`, unbroken.
pub open spec fn has_infix<A>(hay: Seq<A>, needle: Seq<A>) -> bool {
    exists|k: int| occurs_at(hay, needle, k)
}

/// Whether a device name contains the filter: the characters of the filter
/// stand somewhere in the name, in order and unbroken.  Upper and lower case
/// differ.
pub open spec fn name_matches(name: Seq<char>, filter: Seq<char>) -> bool {
    has_infix(name, filter)
}

/// The encoding of a sequence of characters is the encoding of its front
/// followed by the encoding of its back.
pub proof fn lemma_encode_concat(a: Seq<char>, b: Seq<char>)
    ensures
        encode_utf8(a + b) == encode_utf8(a) + encode_utf8(b),
    decreases a.len(),
{
    if a.len() > 0 {
        assert((a + b).drop_first() =~= a.drop_first() + b);
        lemma_encode_concat(a.drop_first(), b);
    }
}

/// A valid encoding that begins another one ends where a character of the
/// other ends.
proof fn lemma_prefix_ends_on_boundary(whole: Seq<u8>, front: Seq<u8>)
    requires
        valid_utf8(whole),
        valid_utf8(front),
        occurs_at(whole, front, 0),
    ensures
        is_char_boundary(whole, front.len() as int),
    decreases front.len(),
{
    if front.len() > 0 {
        assert(forall|i: int|
            0 <= i < front.len() ==> whole.subrange(0, front.len() as int)[i] == whole[i]);
        let rest = pop_first_scalar(whole);
        let front_rest = pop_first_scalar(front);
        assert(rest.subrange(0, front_rest.len() as int) =~= front_rest);
        lemma_prefix_ends_on_boundary(rest, front_rest);
    }
}

/// Where the characters of a filter stand in a name, the bytes of the filter
/// stand in the bytes of the name.
proof fn lemma_infix_encoded(name: Seq<char>, filter: Seq<char>)
    requires
        has_infix(name, filter),
    ensures
        has_infix(encode_utf8(name), encode_utf8(filter)),
{
    let k = choose|k: int| occurs_at(name, filter, k);
    let before = name.subrange(0, k);
    let after = name.subrange(k + filter.len(), name.len() as int);
    assert(name =~= (before + filter) + after);
    lemma_encode_concat(before + filter, after);
    lemma_encode_concat(before, filter);
    let at = encode_utf8(before).len() as int;
    assert(encode_utf8(name).subrange(at, at + encode_utf8(filter).len()) =~= encode_utf8(
        filter,
    ));
    assert(occurs_at(encode_utf8(name), encode_utf8(filter), at));
}

/// Where the bytes of a filter stand in the bytes of a name, they begin and
/// end with a character, and the characters of the filter stand in the name.
proof fn lemma_infix_decoded(name: Seq<char>, filter: Seq<char>)
    requires
        has_infix(encode_utf8(name), encode_utf8(filter)),
    ensures
        has_infix(name, filter),
{
    let bytes = encode_utf8(name);
    let needle = encode_utf8(filter);
    encode_utf8_valid_utf8(name);
    encode_utf8_valid_utf8(filter);
    encode_utf8_decode_utf8(name);
    encode_utf8_decode_utf8(filter);
    let k = choose|k: int| occurs_at(bytes, needle, k);
    if needle.len() == 0 {
        assert(name.subrange(0, 0) =~= filter);
        assert(occurs_at(name, filter, 0));
    } else {
        assert(bytes.subrange(k, k + needle.len())[0] == bytes[k]);
        is_char_boundary_iff_not_is_continuation_byte(needle, 0);
        is_char_boundary_iff_not_is_continuation_byte(bytes, k);
        valid_utf8_split(bytes, k);
        decode_utf8_split(bytes, k);
        let head = bytes.subrange(0, k);
        let tail = bytes.subrange(k, bytes.len() as int);
        assert(tail.subrange(0, needle.len() as int) =~= needle);
        lemma_prefix_ends_on_boundary(tail, needle);
        decode_utf8_split(tail, needle.len() as int);
        let before = decode_utf8(head);
        let after = decode_utf8(tail.subrange(needle.len() as int, tail.len() as int));
        let at = before.len() as int;
        assert(name.subrange(at, at + filter.len()) =~= filter);
        assert(occurs_at(name, filter, at));
    }
}

/// Containment may be decided on the encodings: a name contains a filter
/// exactly if the bytes of the name contain the bytes of the filter.
pub proof fn lemma_infix_of_encodings(name: Seq<char>, filter: Seq<char>)
    ensures
        has_infix(encode_utf8(name), encode_utf8(filter)) <==> has_infix(name, filter),
{
    if has_infix(name, filter) {
        lemma_infix_encoded(name, filter);
    }
    if has_infix(encode_utf8(name), encode_utf8(filter)) {
        lemma_infix_decoded(name, filter);
    }
}

/// Whether `needle` stands in `hay` from position `k` on.
fn occurs_here(hay: &[u8], needle: &[u8], k: usize) -> (b: bool)
    requires
        k + needle@.len() <= hay@.len(),
    ensures
        b == occurs_at(hay@, needle@, k as int),
{
    let n = needle.len();
    let len = hay.len();
    let mut i: usize = 0;
    while i < n
        invariant
            i <= n,
            n == needle@.len(),
            len == hay@.len(),
            k + n <= len,
            forall|j: int| 0 <= j < i ==> hay@[k + j] == needle@[j],
        decreases n - i,
    {
        if hay[k + i] != needle[i] {
            return false;
        }
        i = i + 1;
    }
    assert(hay@.subrange(k as int, k + n) =~= needle@);
    true
}

/// Whether the device name `name` contains `filter`.
pub fn contains(name: &str, filter: &str) -> (b: bool)
    ensures
        b == name_matches(name@, filter@),
{
    let hay = name.as_bytes();
    let needle = filter.as_bytes();
    proof {
        lemma_infix_of_encodings(name@, filter@);
    }
    if needle.len() > hay.len() {
        return false;
    }
    let last = hay.len() - needle.len();
    let mut k: usize = 0;
    loop
        invariant
            k <= last,
            last + needle@.len() == hay@.len(),
            forall|j: int| 0 <= j < k ==> !occurs_at(hay@, needle@, j),
            has_infix(hay@, needle@) <==> name_matches(name@, filter@),
        ensures
            k == last,
            forall|j: int| 0 <= j <= last ==> !occurs_at(hay@, needle@, j),
        decreases last - k,
    {
        if occurs_here(hay, needle, k) {
            return true;
        }
        if k == last {
            break;
        }
        k = k + 1;
    }
    false
}

} // verus!
