//! Signature scanning: locating the first occurrence of a short tag
//! inside a byte buffer, starting from a cursor position.

use vstd::prelude::*;

verus! {

/// The tag occurs in `b` starting at index `i`.
pub open spec fn tag_matches_at(b: Seq<u8>, tag: Seq<u8>, i: int) -> bool {
    &&& 0 <= i
    &&& i + tag.len() <= b.len()
    &&& b.subrange(i, i + tag.len() as int) == tag
}

/// Position immediately past the first occurrence of `tag` in `b` at or
/// after `start`, or `None` when no occurrence begins at or after `start`.
pub open spec fn scan_spec(b: Seq<u8>, start: int, tag: Seq<u8>) -> Option<int>
    decreases b.len() - start,
{
    if start < 0 || tag.len() < 1 || start + tag.len() > b.len() {
        None
    } else if b.subrange(start, start + tag.len() as int) == tag {
        Some(start + tag.len() as int)
    } else {
        scan_spec(b, start + 1, tag)
    }
}

/// What a scan result means: a returned position marks the first
/// occurrence of the tag at or after `start`, and `None` means no
/// occurrence begins at or after `start`.
pub proof fn lemma_scan_first(b: Seq<u8>, start: int, tag: Seq<u8>)
    requires
        0 <= start,
        tag.len() >= 1,
    ensures
        match scan_spec(b, start, tag) {
            Some(e) => {
                &&& start + tag.len() <= e <= b.len()
                &&& tag_matches_at(b, tag, e - tag.len())
                &&& forall|j: int| start <= j < e - tag.len() ==> !tag_matches_at(b, tag, j)
            },
            None => forall|j: int| j >= start ==> !tag_matches_at(b, tag, j),
        },
    decreases b.len() - start,
{
    if start + tag.len() > b.len() {
    } else if b.subrange(start, start + tag.len() as int) == tag {
    } else {
        lemma_scan_first(b, start + 1, tag);
        assert(!tag_matches_at(b, tag, start));
    }
}

/// Compares `signature` against the bytes of `buffer` beginning at `at`.
pub(crate) fn tag_eq_at(buffer: &Vec<u8>, at: usize, signature: &Vec<u8>) -> (r: bool)
    requires
        at + signature@.len() <= buffer@.len(),
    ensures
        r == tag_matches_at(buffer@, signature@, at as int),
{
    let blen = buffer.len();  // bounds the positions below by a machine word
    let mut k: usize = 0;
    while k < signature.len()
        invariant
            blen == buffer@.len(),
            at + signature@.len() <= blen,
            k <= signature@.len(),
            forall|j: int| 0 <= j < k ==> buffer@[at as int + j] == signature@[j],
        decreases signature@.len() - k,
    {
        if buffer[at + k] != signature[k] {
            proof {
                if tag_matches_at(buffer@, signature@, at as int) {
                    assert(buffer@.subrange(at as int, at as int + signature@.len() as int)[
                        k as int] == buffer@[at as int + k as int]);
                }
            }
            return false;
        }
        k = k + 1;
    }
    proof {
        assert(buffer@.subrange(at as int, at as int + signature@.len() as int) =~= signature@);
    }
    true
}

/// SignatureScanner: consume bytes from `cursor` on until the trailing
/// window equals `signature`; report the position immediately past the
/// first match, or `None` once the buffer is exhausted.
pub fn find_signature_from_cursor(buffer: &Vec<u8>, cursor: usize, signature: &Vec<u8>) -> (r:
    Option<usize>)
    requires
        signature@.len() >= 1,
    ensures
        match r {
            Some(e) => scan_spec(buffer@, cursor as int, signature@) == Some(e as int),
            None => scan_spec(buffer@, cursor as int, signature@) is None,
        },
{
    let tlen = signature.len();
    let blen = buffer.len();
    if blen < tlen || cursor > blen - tlen {
        return None;
    }
    let mut i: usize = cursor;
    while i <= blen - tlen
        invariant
            tlen == signature@.len(),
            blen == buffer@.len(),
            1 <= tlen <= blen,
            cursor <= i <= blen - tlen + 1,
            scan_spec(buffer@, cursor as int, signature@) == scan_spec(
                buffer@,
                i as int,
                signature@,
            ),
        decreases blen - i,
    {
        if tag_eq_at(buffer, i, signature) {
            proof {
                assert(scan_spec(buffer@, i as int, signature@) == Some(
                    i as int + signature@.len() as int,
                ));
            }
            return Some(i + tlen);
        }
        proof {
            assert(scan_spec(buffer@, i as int, signature@) == scan_spec(
                buffer@,
                i as int + 1,
                signature@,
            ));
        }
        i = i + 1;
    }
    None
}

} // verus!
