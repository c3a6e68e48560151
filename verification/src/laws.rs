//! Laws of the decoder: properties that hold of every buffer, stated
//! over the decode model and proved once and for all.

use vstd::prelude::*;

use crate::blocks::MmfModel;
use crate::blocks::MmfParseResult;
use crate::blocks::TrackModel;
use crate::blocks::TrackType;
use crate::blocks::empty_content_info;
use crate::blocks::empty_optional_data;
use crate::decode::after_opda;
use crate::decode::cnti_tag_end;
use crate::decode::collect_tracks_spec;
use crate::decode::header_present;
use crate::decode::lemma_scan_bounds;
use crate::decode::opda_tag_end;
use crate::decode::parse_spec;
use crate::decode::tag_atr;
use crate::decode::tag_mmmd;
use crate::decode::tag_mtr;
use crate::decode::track_fits;
use crate::decode::track_model_at;
use crate::fields::be_u32_spec;
use crate::scan::lemma_scan_first;
use crate::scan::scan_spec;
use crate::scan::tag_matches_at;

verus! {

/// A buffer that does not begin with the 4-byte magic decodes to
/// `NotFoundSmafHeader` and nothing else.
pub proof fn lemma_missing_header(b: Seq<u8>)
    requires
        !header_present(b),
    ensures
        parse_spec(b) == Err::<MmfModel, MmfParseResult>(MmfParseResult::NotFoundSmafHeader),
{
}

/// Exactly when each outcome of a decode happens: `NotFoundSmafHeader`
/// for a missing magic, `UnknownError` for a buffer too short to hold
/// the total-size field, and success on every other buffer.
pub proof fn lemma_parse_outcomes(b: Seq<u8>)
    ensures
        parse_spec(b) == Err::<MmfModel, MmfParseResult>(MmfParseResult::NotFoundSmafHeader)
            <==> !header_present(b),
        parse_spec(b) == Err::<MmfModel, MmfParseResult>(MmfParseResult::UnknownError) <==> (
        header_present(b) && b.len() < 8),
        parse_spec(b) is Ok <==> (header_present(b) && b.len() >= 8),
{
}

/// The decode is a function of the bytes alone: equal buffers decode
/// to structurally identical results, so decoding the same buffer
/// twice yields the same result both times.
pub proof fn lemma_parse_deterministic(b1: Seq<u8>, b2: Seq<u8>)
    requires
        b1 == b2,
    ensures
        parse_spec(b1) == parse_spec(b2),
{
}

/// A buffer holding exactly the magic and the total-size field decodes
/// successfully, to a container without content info or metadata and
/// with empty track lists.
pub proof fn lemma_sparse_buffer(b: Seq<u8>)
    requires
        b.len() == 8,
        header_present(b),
    ensures
        parse_spec(b) == Ok::<MmfModel, MmfParseResult>(
            MmfModel {
                data_size: be_u32_spec(b, 4),
                cnti: empty_content_info(),
                opda: empty_optional_data(),
                midi: Seq::<TrackModel>::empty(),
                pcm: Seq::<TrackModel>::empty(),
            },
        ),
{
    assert(cnti_tag_end(b) is None);
    assert(opda_tag_end(b) is None);
    assert(after_opda(b) == 8);
    assert(collect_tracks_spec(b, 8, tag_mtr(), TrackType::MIDI) =~= Seq::<TrackModel>::empty());
    lemma_scan_first(b, 0, tag_atr());
    match scan_spec(b, 0, tag_atr()) {
        None => {},
        Some(e) => {
            lemma_scan_bounds(b, 0, tag_atr());
            if track_fits(b, e) {
                assert(e + 5 <= 8 && e >= 3);
                assert(tag_matches_at(b, tag_atr(), 0));
                assert(b.subrange(0, 4)[0] == b[0]);
                assert(b.subrange(0, 3)[0] == b[0]);
                assert(false);
            }
        },
    }
    assert(collect_tracks_spec(b, 0, tag_atr(), TrackType::PCM) =~= Seq::<TrackModel>::empty());
    assert(parse_spec(b)->Ok_0 =~= MmfModel {
        data_size: be_u32_spec(b, 4),
        cnti: empty_content_info(),
        opda: empty_optional_data(),
        midi: Seq::<TrackModel>::empty(),
        pcm: Seq::<TrackModel>::empty(),
    });
}

/// A found track whose span — one byte of track number, four bytes of
/// payload size, and the declared payload — does not fit in what
/// remains of the buffer ends the collection at that point; the tracks
/// collected before it are retained, by the shape of
/// `collect_tracks_spec` itself.
pub proof fn lemma_track_overrun_stops(b: Seq<u8>, start: int, tag: Seq<u8>, kind: TrackType, e: int)
    requires
        scan_spec(b, start, tag) == Some(e),
        !track_fits(b, e),
    ensures
        collect_tracks_spec(b, start, tag, kind) == Seq::<TrackModel>::empty(),
{
}

/// The positions at which the collected tracks' tags end, in
/// collection order.
pub open spec fn track_tag_ends(b: Seq<u8>, start: int, tag: Seq<u8>) -> Seq<int>
    decreases b.len() - start,
    via track_tag_ends_decreases
{
    match scan_spec(b, start, tag) {
        None => Seq::<int>::empty(),
        Some(e) => {
            if track_fits(b, e) {
                seq![e] + track_tag_ends(b, e + 5 + be_u32_spec(b, e + 1), tag)
            } else {
                Seq::<int>::empty()
            }
        },
    }
}

#[via_fn]
proof fn track_tag_ends_decreases(b: Seq<u8>, start: int, tag: Seq<u8>) {
    lemma_scan_bounds(b, start, tag);
}

/// Track collection preserves scan order: the collected tracks
/// correspond one-for-one to tag occurrences at strictly increasing
/// positions, each track decoded at its own occurrence, in the order
/// the occurrences are met scanning forward from `start`.
pub proof fn lemma_tracks_in_scan_order(b: Seq<u8>, start: int, tag: Seq<u8>, kind: TrackType)
    requires
        0 <= start,
        tag.len() >= 1,
    ensures
        ({
            let ts = collect_tracks_spec(b, start, tag, kind);
            let es = track_tag_ends(b, start, tag);
            &&& es.len() == ts.len()
            &&& forall|i: int| 0 <= i < es.len() ==> es[i] >= start + tag.len()
            &&& forall|i: int, j: int| 0 <= i < j < es.len() ==> es[i] < es[j]
            &&& forall|i: int| 0 <= i < es.len() ==> tag_matches_at(b, tag, es[i] - tag.len())
            &&& forall|i: int| 0 <= i < es.len() ==> track_fits(b, es[i])
            &&& forall|i: int| 0 <= i < es.len() ==> ts[i] == track_model_at(b, es[i], kind)
            &&& es.len() > 0 ==> scan_spec(b, start, tag) == Some(es[0])
            &&& forall|i: int|
                1 <= i < es.len() ==> scan_spec(b, es[i - 1] + 5 + be_u32_spec(b, es[i - 1] + 1), tag)
                    == Some(es[i])
        }),
    decreases b.len() - start,
{
    lemma_scan_bounds(b, start, tag);
    match scan_spec(b, start, tag) {
        None => {},
        Some(e) => {
            lemma_scan_first(b, start, tag);
            if track_fits(b, e) {
                let next = e + 5 + be_u32_spec(b, e + 1);
                lemma_tracks_in_scan_order(b, next, tag, kind);
                let ts = collect_tracks_spec(b, start, tag, kind);
                let es = track_tag_ends(b, start, tag);
                let tsr = collect_tracks_spec(b, next, tag, kind);
                let esr = track_tag_ends(b, next, tag);
                assert(ts == seq![track_model_at(b, e, kind)] + tsr);
                assert(es == seq![e] + esr);
                assert(es[0] == e);
                assert(ts[0] == track_model_at(b, e, kind));
                assert(forall|i: int| 1 <= i < es.len() ==> es[i] == esr[i - 1]);
                assert(forall|i: int| 1 <= i < ts.len() ==> ts[i] == tsr[i - 1]);
                assert(es.len() == ts.len());
                assert forall|i: int| 0 <= i < es.len() implies es[i] >= start + tag.len() by {
                    if i >= 1 {
                        assert(es[i] == esr[i - 1]);
                        assert(esr[i - 1] >= next + tag.len());
                    }
                }
                assert forall|i: int, j: int| 0 <= i < j < es.len() implies es[i] < es[j] by {
                    assert(es[j] == esr[j - 1]);
                    assert(esr[j - 1] >= next + tag.len());
                    if i >= 1 {
                        assert(es[i] == esr[i - 1]);
                    }
                }
                assert forall|i: int|
                    0 <= i < es.len() implies tag_matches_at(b, tag, es[i] - tag.len()) by {
                    if i >= 1 {
                        assert(es[i] == esr[i - 1]);
                        assert(tag_matches_at(b, tag, esr[i - 1] - tag.len()));
                    }
                }
                assert forall|i: int| 0 <= i < es.len() implies track_fits(b, es[i]) by {
                    if i >= 1 {
                        assert(es[i] == esr[i - 1]);
                        assert(track_fits(b, esr[i - 1]));
                    }
                }
                assert forall|i: int|
                    0 <= i < es.len() implies ts[i] == track_model_at(b, es[i], kind) by {
                    if i >= 1 {
                        assert(es[i] == esr[i - 1]);
                        assert(ts[i] == tsr[i - 1]);
                        assert(tsr[i - 1] == track_model_at(b, esr[i - 1], kind));
                    }
                }
                assert forall|i: int|
                    1 <= i < es.len() implies scan_spec(
                    b,
                    es[i - 1] + 5 + be_u32_spec(b, es[i - 1] + 1),
                    tag,
                ) == Some(es[i]) by {
                    assert(es[i] == esr[i - 1]);
                    if i == 1 {
                        assert(es[0] == e);
                        assert(esr.len() > 0 ==> scan_spec(b, next, tag) == Some(esr[0]));
                    } else {
                        assert(es[i - 1] == esr[i - 2]);
                        assert(scan_spec(b, esr[i - 2] + 5 + be_u32_spec(b, esr[i - 2] + 1), tag)
                            == Some(esr[i - 1]));
                    }
                }
            }
        },
    }
}

} // verus!
