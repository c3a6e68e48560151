//! The decode pipeline: the byte-level model of the container format,
//! and the verified decoders for the header, the content-info chunk,
//! the metadata block, and the track blocks.

use vstd::prelude::*;
use vstd::utf8::decode_utf8;
use vstd::utf8::valid_utf8;

use crate::blocks::ContentInfoBlock;
use crate::blocks::ContentInfoModel;
use crate::blocks::MmfFileInfo;
use crate::blocks::MmfModel;
use crate::blocks::MmfParseResult;
use crate::blocks::OptionalDataBlock;
use crate::blocks::OptionalDataModel;
use crate::blocks::TrackBlock;
use crate::blocks::TrackModel;
use crate::blocks::TrackType;
use crate::blocks::empty_content_info;
use crate::blocks::empty_optional_data;
use crate::blocks::track_views;
use crate::fields::be_u16_spec;
use crate::fields::be_u32_spec;
use crate::fields::bytes_to_string;
use crate::fields::read_bytes;
use crate::fields::read_u16_be;
use crate::fields::read_u32_be;
use crate::fields::read_u8_off;
use crate::scan::find_signature_from_cursor;
use crate::scan::scan_spec;
use crate::scan::tag_eq_at;
use crate::scan::tag_matches_at;

verus! {

// ---------------------------------------------------------------------------
// The tags of the format.
// ---------------------------------------------------------------------------
/// The 4-byte magic that opens every container.
pub open spec fn tag_mmmd() -> Seq<u8> {
    seq![77u8, 77u8, 77u8, 68u8]
}

/// The tag of the content-info chunk.
pub open spec fn tag_cnti() -> Seq<u8> {
    seq![67u8, 78u8, 84u8, 73u8]
}

/// The tag of the optional metadata block.
pub open spec fn tag_opda() -> Seq<u8> {
    seq![79u8, 80u8, 68u8, 65u8]
}

/// The tag of a MIDI track block.
pub open spec fn tag_mtr() -> Seq<u8> {
    seq![77u8, 84u8, 82u8]
}

/// The tag of a PCM track block.
pub open spec fn tag_atr() -> Seq<u8> {
    seq![65u8, 84u8, 82u8]
}

/// The metadata sub-tag of the song title.
pub open spec fn tag_st() -> Seq<u8> {
    seq![83u8, 84u8]
}

/// The metadata sub-tag of the author.
pub open spec fn tag_ca() -> Seq<u8> {
    seq![67u8, 65u8]
}

/// The metadata sub-tag of the copyright notice.
pub open spec fn tag_cr() -> Seq<u8> {
    seq![67u8, 82u8]
}

fn vec2(b0: u8, b1: u8) -> (v: Vec<u8>)
    ensures
        v@ == seq![b0, b1],
{
    let mut v: Vec<u8> = Vec::new();
    v.push(b0);
    v.push(b1);
    proof {
        assert(v@ =~= seq![b0, b1]);
    }
    v
}

fn vec3(b0: u8, b1: u8, b2: u8) -> (v: Vec<u8>)
    ensures
        v@ == seq![b0, b1, b2],
{
    let mut v: Vec<u8> = Vec::new();
    v.push(b0);
    v.push(b1);
    v.push(b2);
    proof {
        assert(v@ =~= seq![b0, b1, b2]);
    }
    v
}

fn vec4(b0: u8, b1: u8, b2: u8, b3: u8) -> (v: Vec<u8>)
    ensures
        v@ == seq![b0, b1, b2, b3],
{
    let mut v: Vec<u8> = Vec::new();
    v.push(b0);
    v.push(b1);
    v.push(b2);
    v.push(b3);
    proof {
        assert(v@ =~= seq![b0, b1, b2, b3]);
    }
    v
}

// ---------------------------------------------------------------------------
// The decode model: what each part of a buffer decodes to.
// ---------------------------------------------------------------------------
/// The buffer begins with the 4-byte magic.
pub open spec fn header_present(b: Seq<u8>) -> bool {
    tag_matches_at(b, tag_mmmd(), 0)
}

/// Where the content-info tag first ends, scanning from just past the
/// header and the total-size field.
pub open spec fn cnti_tag_end(b: Seq<u8>) -> Option<int> {
    scan_spec(b, 8, tag_cnti())
}

/// The content-info chunk whose tag ends at `e`: a 4-byte length, then
/// five single-byte fields, each read at its fixed offset and left at
/// zero when it lies beyond the buffer.
pub open spec fn content_info_model(b: Seq<u8>, e: int) -> ContentInfoModel {
    ContentInfoModel {
        signature: "CNTI"@,
        size: if e + 4 <= b.len() {
            be_u32_spec(b, e)
        } else {
            0
        },
        class: if e + 5 <= b.len() {
            b[e + 4]
        } else {
            0
        },
        file_type: if e + 6 <= b.len() {
            b[e + 5]
        } else {
            0
        },
        code_type: if e + 7 <= b.len() {
            b[e + 6]
        } else {
            0
        },
        status: if e + 8 <= b.len() {
            b[e + 7]
        } else {
            0
        },
        counts: if e + 9 <= b.len() {
            b[e + 8]
        } else {
            0
        },
    }
}

/// The scan position after a content-info chunk whose tag ends at `e`.
pub open spec fn after_cnti_at(b: Seq<u8>, e: int) -> int {
    if e + 9 <= b.len() {
        e + 9
    } else {
        b.len() as int
    }
}

/// The decoded content-info chunk of the whole buffer.
pub open spec fn cnti_model(b: Seq<u8>) -> ContentInfoModel {
    match cnti_tag_end(b) {
        None => empty_content_info(),
        Some(e) => content_info_model(b, e),
    }
}

/// The scan position after the content-info chunk of the whole buffer.
pub open spec fn after_cnti(b: Seq<u8>) -> int {
    match cnti_tag_end(b) {
        None => 8,
        Some(e) => after_cnti_at(b, e),
    }
}

/// Where the metadata tag first ends, scanning from after the
/// content-info chunk.
pub open spec fn opda_tag_end(b: Seq<u8>) -> Option<int> {
    scan_spec(b, after_cnti(b), tag_opda())
}

/// One metadata field of the self-delimited sub-buffer `sub`: the first
/// occurrence of its sub-tag, followed by a 2-byte length and exactly
/// that many bytes of UTF-8 text. `None` when the sub-tag is absent,
/// the span is cut short by the end of the sub-buffer, or the bytes are
/// not valid UTF-8.
pub open spec fn opda_field_opt(sub: Seq<u8>, tag: Seq<u8>) -> Option<Seq<char>> {
    match scan_spec(sub, 0, tag) {
        None => None,
        Some(e) => {
            if e + 2 <= sub.len() && e + 2 + be_u16_spec(sub, e) <= sub.len() {
                let data = sub.subrange(e + 2, e + 2 + be_u16_spec(sub, e));
                if valid_utf8(data) {
                    Some(decode_utf8(data))
                } else {
                    None
                }
            } else {
                None
            }
        },
    }
}

/// The same field with an absent value read as the empty string.
pub open spec fn opda_field_model(sub: Seq<u8>, tag: Seq<u8>) -> Seq<char> {
    match opda_field_opt(sub, tag) {
        None => Seq::<char>::empty(),
        Some(s) => s,
    }
}

/// The metadata block whose tag ends at `e`: a 4-byte block size, then
/// a sub-buffer of exactly that many bytes, scanned independently for
/// each of the three sub-tags. A block size that overruns the buffer
/// leaves every field absent.
pub open spec fn opda_block_model(b: Seq<u8>, e: int) -> OptionalDataModel {
    if e + 4 <= b.len() && e + 4 + be_u32_spec(b, e) <= b.len() {
        let sub = b.subrange(e + 4, e + 4 + be_u32_spec(b, e));
        OptionalDataModel {
            song_title: opda_field_model(sub, tag_st()),
            author: opda_field_model(sub, tag_ca()),
            copyright: opda_field_model(sub, tag_cr()),
        }
    } else {
        empty_optional_data()
    }
}

/// The scan position after a metadata block whose tag ends at `e`.
pub open spec fn after_opda_at(b: Seq<u8>, e: int) -> int {
    if e + 4 <= b.len() {
        if e + 4 + be_u32_spec(b, e) <= b.len() {
            e + 4 + be_u32_spec(b, e)
        } else {
            e + 4
        }
    } else {
        e
    }
}

/// The decoded metadata block of the whole buffer.
pub open spec fn opda_model(b: Seq<u8>) -> OptionalDataModel {
    match opda_tag_end(b) {
        None => empty_optional_data(),
        Some(e) => opda_block_model(b, e),
    }
}

/// The scan position after the metadata block of the whole buffer.
pub open spec fn after_opda(b: Seq<u8>) -> int {
    match opda_tag_end(b) {
        None => after_cnti(b),
        Some(e) => after_opda_at(b, e),
    }
}

/// A track whose tag ends at `e` fits in the buffer: one byte of track
/// number, a 4-byte payload size, and exactly that many payload bytes.
pub open spec fn track_fits(b: Seq<u8>, e: int) -> bool {
    e + 5 <= b.len() && e + 5 + be_u32_spec(b, e + 1) <= b.len()
}

/// The track block whose tag ends at `e`.
pub open spec fn track_model_at(b: Seq<u8>, e: int, kind: TrackType) -> TrackModel {
    TrackModel {
        size: be_u32_spec(b, e + 1),
        track_no: b[e],
        track_type: kind,
        data: b.subrange(e + 5, e + 5 + be_u32_spec(b, e + 1)),
    }
}

/// TrackCollector: every track of the given tag, in scan order from
/// `start`, each pass consuming the matched header and payload before
/// the next scan. A track that does not fit ends the collection,
/// keeping what was collected before it.
pub open spec fn collect_tracks_spec(b: Seq<u8>, start: int, tag: Seq<u8>, kind: TrackType) -> Seq<
    TrackModel,
>
    decreases b.len() - start,
    via collect_tracks_spec_decreases
{
    match scan_spec(b, start, tag) {
        None => Seq::<TrackModel>::empty(),
        Some(e) => {
            if track_fits(b, e) {
                seq![track_model_at(b, e, kind)] + collect_tracks_spec(
                    b,
                    e + 5 + be_u32_spec(b, e + 1),
                    tag,
                    kind,
                )
            } else {
                Seq::<TrackModel>::empty()
            }
        },
    }
}

/// Bounds on a successful scan: the match lies within the buffer and at
/// or after the scan's starting position.
pub proof fn lemma_scan_bounds(b: Seq<u8>, start: int, tag: Seq<u8>)
    ensures
        match scan_spec(b, start, tag) {
            Some(e) => 0 <= start && 1 <= tag.len() && start + tag.len() <= e <= b.len(),
            None => true,
        },
    decreases b.len() - start,
{
    if start < 0 || tag.len() < 1 || start + tag.len() > b.len() {
    } else if b.subrange(start, start + tag.len() as int) == tag {
    } else {
        lemma_scan_bounds(b, start + 1, tag);
    }
}

#[via_fn]
proof fn collect_tracks_spec_decreases(b: Seq<u8>, start: int, tag: Seq<u8>, kind: TrackType) {
    lemma_scan_bounds(b, start, tag);
}

/// The whole decode: fatal errors for a missing header or an unreadable
/// total-size field; otherwise the content-info chunk and metadata
/// block as found by scanning, the MIDI tracks collected from after the
/// metadata block, and the PCM tracks collected from the start of the
/// buffer after a full rewind.
pub open spec fn parse_spec(b: Seq<u8>) -> Result<MmfModel, MmfParseResult> {
    if !header_present(b) {
        Err(MmfParseResult::NotFoundSmafHeader)
    } else if b.len() < 8 {
        Err(MmfParseResult::UnknownError)
    } else {
        Ok(
            MmfModel {
                data_size: be_u32_spec(b, 4),
                cnti: cnti_model(b),
                opda: opda_model(b),
                midi: collect_tracks_spec(b, after_opda(b), tag_mtr(), TrackType::MIDI),
                pcm: collect_tracks_spec(b, 0, tag_atr(), TrackType::PCM),
            },
        )
    }
}

// ---------------------------------------------------------------------------
// The decoders.
// ---------------------------------------------------------------------------
/// ContentInfoDecoder: reads the chunk length and the five single-byte
/// fields of the content-info chunk whose tag ends at `tag_end`,
/// leaving at zero any field the buffer is too short for, and returns
/// the block together with the position after the chunk.
pub fn decode_content_info(buffer: &Vec<u8>, tag_end: usize) -> (r: (ContentInfoBlock, usize))
    requires
        tag_end <= buffer@.len(),
    ensures
        r.0@ == content_info_model(buffer@, tag_end as int),
        r.1 as int == after_cnti_at(buffer@, tag_end as int),
{
    let blen = buffer.len();
    let size = match read_u32_be(buffer, tag_end) {
        Some(v) => v as usize,
        None => 0,
    };
    let class = match read_u8_off(buffer, tag_end, 4) {
        Some(v) => v,
        None => 0,
    };
    let file_type = match read_u8_off(buffer, tag_end, 5) {
        Some(v) => v,
        None => 0,
    };
    let code_type = match read_u8_off(buffer, tag_end, 6) {
        Some(v) => v,
        None => 0,
    };
    let status = match read_u8_off(buffer, tag_end, 7) {
        Some(v) => v,
        None => 0,
    };
    let counts = match read_u8_off(buffer, tag_end, 8) {
        Some(v) => v,
        None => 0,
    };
    let next = if blen - tag_end >= 9 {
        tag_end + 9
    } else {
        blen
    };
    let block = ContentInfoBlock {
        signature: "CNTI".to_owned(),
        size,
        class,
        file_type,
        code_type,
        status,
        counts,
    };
    proof {
        assert(block@ =~= content_info_model(buffer@, tag_end as int));
    }
    (block, next)
}

/// One field of the metadata sub-buffer: scans `block` from its start
/// for `signature`, then reads a 2-byte length and exactly that many
/// bytes as UTF-8 text. `None` when the sub-tag is absent, the span is
/// cut short, or the text is not valid UTF-8.
pub fn read_opda_block_info(block: &Vec<u8>, signature: &Vec<u8>) -> (r: Option<String>)
    requires
        signature@.len() >= 1,
    ensures
        match r {
            Some(s) => opda_field_opt(block@, signature@) == Some(s@),
            None => opda_field_opt(block@, signature@) is None,
        },
{
    let blen = block.len();  // bounds the positions below by a machine word
    let e = match find_signature_from_cursor(block, 0, signature) {
        Some(e) => e,
        None => {
            return None;
        },
    };
    let len16 = match read_u16_be(block, e) {
        Some(v) => v,
        None => {
            return None;
        },
    };
    let n = len16 as usize;
    let data = match read_bytes(block, e + 2, n) {
        Some(d) => d,
        None => {
            return None;
        },
    };
    bytes_to_string(data)
}

/// OptionalMetadataDecoder: reads the block size of the metadata block
/// whose tag ends at `tag_end`, then decodes the three sub-tagged text
/// fields from the self-delimited sub-buffer, and returns the block
/// together with the position after it. A block size the buffer cannot
/// hold leaves every field absent.
pub fn decode_optional_data(buffer: &Vec<u8>, tag_end: usize) -> (r: (OptionalDataBlock, usize))
    requires
        tag_end <= buffer@.len(),
    ensures
        r.0@ == opda_block_model(buffer@, tag_end as int),
        r.1 as int == after_opda_at(buffer@, tag_end as int),
{
    let blen = buffer.len();  // bounds the positions below by a machine word
    let bs = match read_u32_be(buffer, tag_end) {
        Some(v) => v as usize,
        None => {
            return (OptionalDataBlock::new(), tag_end);
        },
    };
    let sub = match read_bytes(buffer, tag_end + 4, bs) {
        Some(d) => d,
        None => {
            return (OptionalDataBlock::new(), tag_end + 4);
        },
    };
    let st_tag = vec2(83, 84);
    let ca_tag = vec2(67, 65);
    let cr_tag = vec2(67, 82);
    proof {
        assert(st_tag@ =~= tag_st());
        assert(ca_tag@ =~= tag_ca());
        assert(cr_tag@ =~= tag_cr());
    }
    let song_title = match read_opda_block_info(&sub, &st_tag) {
        Some(s) => s,
        None => String::new(),
    };
    let author = match read_opda_block_info(&sub, &ca_tag) {
        Some(s) => s,
        None => String::new(),
    };
    let copyright = match read_opda_block_info(&sub, &cr_tag) {
        Some(s) => s,
        None => String::new(),
    };
    let block = OptionalDataBlock { song_title, author, copyright };
    proof {
        assert(block@ =~= opda_block_model(buffer@, tag_end as int));
    }
    (block, tag_end + 4 + bs)
}

/// Scans from `cursor` for the next track of the given tag and decodes
/// its track number, payload size, and payload. `None` when no further
/// tag occurrence exists or the track does not fit in the buffer; on
/// success, also returns the position immediately after the payload.
pub fn read_track_block(buffer: &Vec<u8>, cursor: usize, signature: &Vec<u8>, kind: TrackType) -> (r:
    Option<(TrackBlock, usize)>)
    requires
        signature@.len() >= 1,
    ensures
        match scan_spec(buffer@, cursor as int, signature@) {
            None => r is None,
            Some(e) => {
                if track_fits(buffer@, e) {
                    match r {
                        Some(p) => p.0@ == track_model_at(buffer@, e, kind) && p.1 as int == e + 5
                            + be_u32_spec(buffer@, e + 1),
                        None => false,
                    }
                } else {
                    r is None
                }
            },
        },
{
    let blen = buffer.len();  // bounds the positions below by a machine word
    let e = match find_signature_from_cursor(buffer, cursor, signature) {
        Some(e) => e,
        None => {
            return None;
        },
    };
    let track_no = match read_u8_off(buffer, e, 0) {
        Some(v) => v,
        None => {
            return None;
        },
    };
    let size32 = match read_u32_be(buffer, e + 1) {
        Some(v) => v,
        None => {
            return None;
        },
    };
    let size = size32 as usize;
    let data = match read_bytes(buffer, e + 5, size) {
        Some(d) => d,
        None => {
            return None;
        },
    };
    Some((TrackBlock { size, track_no, track_type: kind, data }, e + 5 + size))
}

/// TrackCollector: collects every track of the given tag from `start`
/// on, in scan order, stopping at the first scan without a match or at
/// the first track that does not fit.
pub fn collect_track_blocks(buffer: &Vec<u8>, start: usize, signature: &Vec<u8>, kind: TrackType) -> (r:
    Vec<TrackBlock>)
    requires
        signature@.len() >= 1,
        start <= buffer@.len(),
    ensures
        track_views(r@) == collect_tracks_spec(buffer@, start as int, signature@, kind),
{
    let mut acc: Vec<TrackBlock> = Vec::new();
    let mut pos = start;
    proof {
        assert(track_views(acc@) =~= Seq::<TrackModel>::empty());
    }
    loop
        invariant
            signature@.len() >= 1,
            pos <= buffer@.len(),
            collect_tracks_spec(buffer@, start as int, signature@, kind) == track_views(acc@)
                + collect_tracks_spec(buffer@, pos as int, signature@, kind),
        ensures
            collect_tracks_spec(buffer@, start as int, signature@, kind) == track_views(acc@),
        decreases buffer@.len() - pos,
    {
        match read_track_block(buffer, pos, signature, kind) {
            None => {
                proof {
                    assert(collect_tracks_spec(buffer@, pos as int, signature@, kind)
                        =~= Seq::<TrackModel>::empty());
                    assert(collect_tracks_spec(buffer@, start as int, signature@, kind)
                        =~= track_views(acc@));
                }
                break;
            },
            Some((tb, next)) => {
                proof {
                    lemma_scan_bounds(buffer@, pos as int, signature@);
                    let e = scan_spec(buffer@, pos as int, signature@)->Some_0;
                    assert(collect_tracks_spec(buffer@, pos as int, signature@, kind) == seq![
                        track_model_at(buffer@, e, kind)] + collect_tracks_spec(
                        buffer@,
                        e + 5 + be_u32_spec(buffer@, e + 1),
                        signature@,
                        kind,
                    ));
                    assert(track_views(acc@.push(tb)) =~= track_views(acc@).push(tb@));
                    assert(track_views(acc@.push(tb))
                        + collect_tracks_spec(buffer@, next as int, signature@, kind) =~= (
                    track_views(acc@) + collect_tracks_spec(
                        buffer@,
                        pos as int,
                        signature@,
                        kind,
                    )));
                }
                acc.push(tb);
                pos = next;
            },
        }
    }
    acc
}

/// ContainerDecoder: decodes a whole byte buffer. Fails with
/// `NotFoundSmafHeader` when the buffer does not begin with the magic,
/// and with `UnknownError` when the total-size field cannot be read;
/// otherwise returns the container `parse_spec` assigns to the bytes.
pub fn parse(file: Vec<u8>) -> (r: Result<MmfFileInfo, MmfParseResult>)
    ensures
        match r {
            Ok(info) => parse_spec(file@) == Ok::<MmfModel, MmfParseResult>(info@),
            Err(e) => parse_spec(file@) == Err::<MmfModel, MmfParseResult>(e),
        },
{
    let blen = file.len();
    let mmmd = vec4(77, 77, 77, 68);
    proof {
        assert(mmmd@ =~= tag_mmmd());
    }
    if blen < 4 {
        return Err(MmfParseResult::NotFoundSmafHeader);
    }
    if !tag_eq_at(&file, 0, &mmmd) {
        return Err(MmfParseResult::NotFoundSmafHeader);
    }
    let data_size = match read_u32_be(&file, 4) {
        Some(v) => v as usize,
        None => {
            return Err(MmfParseResult::UnknownError);
        },
    };
    let cnti_tag = vec4(67, 78, 84, 73);
    proof {
        assert(cnti_tag@ =~= tag_cnti());
    }
    let (cnti_block, pos1) = match find_signature_from_cursor(&file, 8, &cnti_tag) {
        Some(e) => {
            proof {
                lemma_scan_bounds(file@, 8, tag_cnti());
            }
            decode_content_info(&file, e)
        },
        None => (ContentInfoBlock::new(), 8),
    };
    let opda_tag = vec4(79, 80, 68, 65);
    proof {
        assert(opda_tag@ =~= tag_opda());
    }
    let (opda_block, pos2) = match find_signature_from_cursor(&file, pos1, &opda_tag) {
        Some(e) => {
            proof {
                lemma_scan_bounds(file@, pos1 as int, tag_opda());
            }
            decode_optional_data(&file, e)
        },
        None => (OptionalDataBlock::new(), pos1),
    };
    let mtr_tag = vec3(77, 84, 82);
    let atr_tag = vec3(65, 84, 82);
    proof {
        assert(mtr_tag@ =~= tag_mtr());
        assert(atr_tag@ =~= tag_atr());
    }
    let midi_blocks = collect_track_blocks(&file, pos2, &mtr_tag, TrackType::MIDI);
    let pcm_blocks = collect_track_blocks(&file, 0, &atr_tag, TrackType::PCM);
    let info = MmfFileInfo { data_size, cnti_block, opda_block, midi_blocks, pcm_blocks };
    proof {
        assert(parse_spec(file@) == Ok::<MmfModel, MmfParseResult>(info@)) by {
            assert(parse_spec(file@)->Ok_0 =~= info@);
        }
    }
    Ok(info)
}

} // verus!
