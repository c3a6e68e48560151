use mmf_parser::parse;
use mmf_parser::MmfParseResult;
use mmf_parser::TrackType;

fn push_u16(buf: &mut Vec<u8>, v: u16) {
    buf.push((v >> 8) as u8);
    buf.push(v as u8);
}

fn push_u32(buf: &mut Vec<u8>, v: u32) {
    buf.push((v >> 24) as u8);
    buf.push((v >> 16) as u8);
    buf.push((v >> 8) as u8);
    buf.push(v as u8);
}

fn header(total_size: u32) -> Vec<u8> {
    let mut buf = b"MMMD".to_vec();
    push_u32(&mut buf, total_size);
    buf
}

fn track(tag: &[u8], track_no: u8, payload: &[u8]) -> Vec<u8> {
    let mut buf = tag.to_vec();
    buf.push(track_no);
    push_u32(&mut buf, payload.len() as u32);
    buf.extend_from_slice(payload);
    buf
}

fn text_field(tag: &[u8], text: &[u8]) -> Vec<u8> {
    let mut buf = tag.to_vec();
    push_u16(&mut buf, text.len() as u16);
    buf.extend_from_slice(text);
    buf
}

fn opda_block(sub: &[u8]) -> Vec<u8> {
    let mut buf = b"OPDA".to_vec();
    push_u32(&mut buf, sub.len() as u32);
    buf.extend_from_slice(sub);
    buf
}

#[test]
fn empty_buffer_reports_not_found() {
    let r = parse(Vec::new());
    assert_eq!(r.unwrap_err(), MmfParseResult::NotFoundSmafHeader);
}

#[test]
fn wrong_magic_reports_not_found() {
    let r = parse(b"XXXXABCDEFGH".to_vec());
    assert_eq!(r.unwrap_err(), MmfParseResult::NotFoundSmafHeader);
}

#[test]
fn short_magic_reports_not_found() {
    let r = parse(b"MMM".to_vec());
    assert_eq!(r.unwrap_err(), MmfParseResult::NotFoundSmafHeader);
}

#[test]
fn magic_not_at_start_reports_not_found() {
    // The magic must open the buffer; a later occurrence does not count.
    let mut buf = vec![0u8];
    buf.extend_from_slice(&header(16));
    let r = parse(buf);
    assert_eq!(r.unwrap_err(), MmfParseResult::NotFoundSmafHeader);
}

#[test]
fn truncated_total_size_reports_unknown_error() {
    let r = parse(b"MMMD\x00\x01".to_vec());
    assert_eq!(r.unwrap_err(), MmfParseResult::UnknownError);
}

#[test]
fn sparse_buffer_decodes_to_empty_container() {
    let info = parse(header(7408)).unwrap();
    assert_eq!(info.data_size, 7408);
    assert_eq!(info.cnti_block.signature, "");
    assert_eq!(info.cnti_block.size, 0);
    assert_eq!(info.cnti_block.counts, 0);
    assert_eq!(info.opda_block.song_title, "");
    assert_eq!(info.opda_block.author, "");
    assert_eq!(info.opda_block.copyright, "");
    assert!(info.midi_blocks.is_empty());
    assert!(info.pcm_blocks.is_empty());
}

#[test]
fn single_midi_track_with_content_info() {
    let mut buf = header(7408);
    buf.extend_from_slice(b"CNTI");
    push_u32(&mut buf, 6);
    buf.extend_from_slice(&[0, 0, 0, 0, 1]);
    buf.extend_from_slice(&track(b"MTR", 0, &vec![0u8; 7242]));
    let info = parse(buf).unwrap();
    assert_eq!(info.data_size, 7408);
    assert_eq!(info.cnti_block.signature, "CNTI");
    assert_eq!(info.cnti_block.size, 6);
    assert_eq!(info.cnti_block.counts, 1);
    assert_eq!(info.midi_blocks.len(), 1);
    assert_eq!(info.midi_blocks[0].size, 7242);
    assert_eq!(info.midi_blocks[0].data.len(), 7242);
    assert_eq!(info.midi_blocks[0].track_no, 0);
    assert_eq!(info.midi_blocks[0].track_type, TrackType::MIDI);
    assert_eq!(info.pcm_blocks.len(), 0);
}

#[test]
fn metadata_song_title_decoded() {
    let mut buf = header(64);
    let sub = text_field(b"ST", b"Machine Woman");
    buf.extend_from_slice(&opda_block(&sub));
    let info = parse(buf).unwrap();
    assert_eq!(info.opda_block.song_title, "Machine Woman");
    assert_eq!(info.opda_block.author, "");
    assert_eq!(info.opda_block.copyright, "");
}

#[test]
fn metadata_all_fields_decoded() {
    let mut buf = header(128);
    let mut sub = text_field(b"ST", b"Machine Woman");
    sub.extend_from_slice(&text_field(b"CA", b"SMAF MA-3 Sample Data"));
    sub.extend_from_slice(&text_field(b"CR", b"Copyright(c) 2002-2004 YAMAHA CORPORATION"));
    buf.extend_from_slice(&opda_block(&sub));
    let info = parse(buf).unwrap();
    assert_eq!(info.opda_block.song_title, "Machine Woman");
    assert_eq!(info.opda_block.author, "SMAF MA-3 Sample Data");
    assert_eq!(info.opda_block.copyright, "Copyright(c) 2002-2004 YAMAHA CORPORATION");
}

#[test]
fn invalid_utf8_field_left_absent() {
    // A field whose bytes are not UTF-8 stays absent; the others are
    // still attempted.
    let mut buf = header(64);
    let mut sub = text_field(b"ST", &[0xFF, 0xFE]);
    sub.extend_from_slice(&text_field(b"CA", b"abc"));
    buf.extend_from_slice(&opda_block(&sub));
    let info = parse(buf).unwrap();
    assert_eq!(info.opda_block.song_title, "");
    assert_eq!(info.opda_block.author, "abc");
}

#[test]
fn metadata_field_cut_short_left_absent() {
    // A declared text length that overruns the sub-buffer leaves the
    // field absent rather than reading a short span.
    let mut buf = header(64);
    let mut sub = b"ST".to_vec();
    push_u16(&mut sub, 50);
    sub.extend_from_slice(b"abc");
    buf.extend_from_slice(&opda_block(&sub));
    let info = parse(buf).unwrap();
    assert_eq!(info.opda_block.song_title, "");
}

#[test]
fn oversized_opda_block_left_absent() {
    // A metadata block size larger than the rest of the buffer leaves
    // the whole block absent, and the decode still succeeds.
    let mut buf = header(64);
    buf.extend_from_slice(b"OPDA");
    push_u32(&mut buf, 1000);
    buf.extend_from_slice(&text_field(b"ST", b"Machine Woman"));
    let info = parse(buf).unwrap();
    assert_eq!(info.opda_block.song_title, "");
}

#[test]
fn four_midi_tracks_in_declared_order() {
    let sizes = [636usize, 443, 328, 146];
    let mut buf = header(2048);
    for (i, n) in sizes.iter().enumerate() {
        buf.extend_from_slice(&track(b"MTR", i as u8, &vec![7u8; *n]));
    }
    let info = parse(buf).unwrap();
    assert_eq!(info.midi_blocks.len(), 4);
    for (i, n) in sizes.iter().enumerate() {
        assert_eq!(info.midi_blocks[i].size, *n);
        assert_eq!(info.midi_blocks[i].data.len(), *n);
        assert_eq!(info.midi_blocks[i].track_no, i as u8);
        assert_eq!(info.midi_blocks[i].track_type, TrackType::MIDI);
    }
    assert!(info.pcm_blocks.is_empty());
}

#[test]
fn audio_tracks_collected_in_order() {
    let mut buf = header(64);
    buf.extend_from_slice(&track(b"ATR", 3, b"abc"));
    buf.extend_from_slice(&track(b"ATR", 9, b"defgh"));
    let info = parse(buf).unwrap();
    assert_eq!(info.midi_blocks.len(), 0);
    assert_eq!(info.pcm_blocks.len(), 2);
    assert_eq!(info.pcm_blocks[0].track_no, 3);
    assert_eq!(info.pcm_blocks[0].data, b"abc".to_vec());
    assert_eq!(info.pcm_blocks[0].track_type, TrackType::PCM);
    assert_eq!(info.pcm_blocks[1].track_no, 9);
    assert_eq!(info.pcm_blocks[1].size, 5);
}

#[test]
fn decoding_twice_yields_identical_results() {
    let mut buf = header(512);
    buf.extend_from_slice(b"CNTI");
    push_u32(&mut buf, 6);
    buf.extend_from_slice(&[1, 2, 3, 4, 5]);
    let sub = text_field(b"ST", b"Machine Woman");
    buf.extend_from_slice(&opda_block(&sub));
    buf.extend_from_slice(&track(b"MTR", 0, b"payload one"));
    buf.extend_from_slice(&track(b"ATR", 1, b"payload two"));
    let first = parse(buf.clone());
    let second = parse(buf);
    assert_eq!(first, second);
}

#[test]
fn oversized_track_stops_collection_keeping_earlier_tracks() {
    let mut buf = header(64);
    buf.extend_from_slice(&track(b"MTR", 1, b"good"));
    // Second track declares 100 payload bytes but only 3 follow.
    buf.extend_from_slice(b"MTR");
    buf.push(2);
    push_u32(&mut buf, 100);
    buf.extend_from_slice(b"xyz");
    let info = parse(buf).unwrap();
    assert_eq!(info.midi_blocks.len(), 1);
    assert_eq!(info.midi_blocks[0].track_no, 1);
    assert_eq!(info.midi_blocks[0].data, b"good".to_vec());
}

#[test]
fn truncated_track_header_stops_collection() {
    let mut buf = header(64);
    buf.extend_from_slice(&track(b"MTR", 1, b"ok"));
    // A tag right at the end of the buffer, with no header after it.
    buf.extend_from_slice(b"MTR");
    let info = parse(buf).unwrap();
    assert_eq!(info.midi_blocks.len(), 1);
}

#[test]
fn truncated_content_info_fields_stay_zero() {
    let mut buf = header(16);
    buf.extend_from_slice(b"CNTI");
    push_u32(&mut buf, 6);
    buf.push(7);
    let info = parse(buf).unwrap();
    assert_eq!(info.cnti_block.signature, "CNTI");
    assert_eq!(info.cnti_block.size, 6);
    assert_eq!(info.cnti_block.class, 7);
    assert_eq!(info.cnti_block.file_type, 0);
    assert_eq!(info.cnti_block.code_type, 0);
    assert_eq!(info.cnti_block.status, 0);
    assert_eq!(info.cnti_block.counts, 0);
}

#[test]
fn audio_scan_rewinds_to_buffer_start() {
    // The PCM pass rescans from offset 0, so an ATR record inside the
    // metadata block's bytes is picked up: a known ambiguity of the
    // format, preserved rather than corrected.
    let mut buf = header(64);
    let sub = track(b"ATR", 4, b"inside");
    buf.extend_from_slice(&opda_block(&sub));
    let info = parse(buf).unwrap();
    assert_eq!(info.pcm_blocks.len(), 1);
    assert_eq!(info.pcm_blocks[0].track_no, 4);
    assert_eq!(info.pcm_blocks[0].data, b"inside".to_vec());
}

#[test]
fn tag_inside_payload_scanned_by_other_pass() {
    // A MIDI payload that happens to contain a full ATR record is seen
    // by the independent PCM pass: the same preserved ambiguity.
    let mut buf = header(64);
    let payload = track(b"ATR", 8, b"pcm");
    buf.extend_from_slice(&track(b"MTR", 1, &payload));
    let info = parse(buf).unwrap();
    assert_eq!(info.midi_blocks.len(), 1);
    assert_eq!(info.midi_blocks[0].data, payload);
    assert_eq!(info.pcm_blocks.len(), 1);
    assert_eq!(info.pcm_blocks[0].track_no, 8);
    assert_eq!(info.pcm_blocks[0].data, b"pcm".to_vec());
}

#[test]
fn consumed_payload_not_rescanned_in_same_pass() {
    // Within one pass, a tag inside an already-consumed payload is not
    // matched again: the pass continues after the payload.
    let mut buf = header(64);
    let payload = track(b"MTR", 9, b"zz");
    buf.extend_from_slice(&track(b"MTR", 1, &payload));
    buf.extend_from_slice(&track(b"MTR", 2, b"after"));
    let info = parse(buf).unwrap();
    assert_eq!(info.midi_blocks.len(), 2);
    assert_eq!(info.midi_blocks[0].track_no, 1);
    assert_eq!(info.midi_blocks[1].track_no, 2);
}
