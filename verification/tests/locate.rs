use ogg_locate::DecodeError;
use ogg_locate::locate::find_last_page;
use ogg_locate::pager::PageInfo;

/// Builds one Ogg page: marker, version 0, the fixed fields, a segment table
/// and content. The checksum field is the CRC recomputed over the page's own
/// bytes when `valid_crc` is set, and a value chosen to differ from it
/// otherwise.
fn build_page(
    flag: u8,
    abgp: u64,
    serial: u32,
    seqno: u32,
    segments: &[u8],
    content: &[u8],
    valid_crc: bool,
) -> Vec<u8> {
    let declared: usize = segments.iter().map(|&b| b as usize).sum();
    assert_eq!(declared, content.len());
    let mut bytes = Vec::new();
    bytes.extend_from_slice(b"OggS");
    bytes.push(0);
    bytes.push(flag);
    bytes.extend_from_slice(&abgp.to_le_bytes());
    bytes.extend_from_slice(&serial.to_le_bytes());
    bytes.extend_from_slice(&seqno.to_le_bytes());
    bytes.extend_from_slice(&0u32.to_le_bytes());
    bytes.push(segments.len() as u8);
    bytes.extend_from_slice(segments);
    bytes.extend_from_slice(content);
    // The CRC is computed with the checksum field zeroed, so it does not
    // depend on the value stored there.
    let crc = ogg_pager::crc32(&bytes);
    let stored = if valid_crc { crc } else { crc.wrapping_add(1) };
    bytes[22..26].copy_from_slice(&stored.to_le_bytes());
    bytes
}

#[test]
fn end_aligned_page_needs_no_valid_checksum() {
    // The page ends exactly at the end of the data and its checksum is wrong:
    // the locator must accept it on the alignment alone.
    let data = build_page(4, 77, 1234, 9, &[5], &[1, 2, 3, 4, 5], false);
    let mut zeroed = data.clone();
    zeroed[22..26].copy_from_slice(&0u32.to_le_bytes());
    let stored = ogg_pager::crc32(&zeroed).wrapping_add(1);
    let info = find_last_page(&data, 0).unwrap();
    assert_eq!(
        info,
        PageInfo {
            start: 0,
            header_end: 28,
            content_size: 5,
            checksum: stored,
        }
    );
}

#[test]
fn trailing_garbage_accepted_through_checksum() {
    let page = build_page(0, 10, 42, 3, &[3], &[7, 8, 9], true);
    let page_len = page.len() as u64;
    let mut data = page;
    data.extend_from_slice(&[0x78, 0x79, 0x7a, 0x77]);
    let info = find_last_page(&data, 0).unwrap();
    assert_eq!(info.start, 0);
    assert_eq!(info.header_end, 28);
    assert_eq!(info.content_size, 3);
    assert_eq!(info.header_end + info.content_size, page_len);
}

#[test]
fn coincidental_marker_failing_parse_is_skipped() {
    // The payload holds the 4 marker bytes followed by a nonzero version
    // byte, so a header parse at the coincidental marker fails.
    let content = [0x4f, 0x67, 0x67, 0x53, 0x01, 0x00, 0x00, 0x00];
    let data = build_page(0, 0, 1, 0, &[8], &content, false);
    let info = find_last_page(&data, 0).unwrap();
    assert_eq!(info.start, 0);
    assert_eq!(info.content_size, 8);
}

#[test]
fn coincidental_page_failing_both_checks_is_skipped() {
    // The payload holds a complete page whose checksum is wrong and which
    // does not end at the end of the data: it parses, fails both checks, and
    // the scan moves on to the real page.
    let fake = build_page(0, 1, 2, 3, &[10], &[0u8; 10], false);
    let mut content = vec![0x2e; 10];
    content.extend_from_slice(&fake);
    content.extend_from_slice(&[0x2e; 5]);
    let seg = content.len() as u8;
    let data = build_page(0, 5, 6, 7, &[seg], &content, false);
    let info = find_last_page(&data, 0).unwrap();
    assert_eq!(info.start, 0);
    assert_eq!(info.content_size, content.len() as u64);
}

#[test]
fn marker_straddling_chunk_boundary_is_found() {
    // The backward scan reads 8192-byte chunks with a 3-byte overlap. With
    // 100 leading garbage bytes and a 8193-byte page ending at the end of the
    // data, the page's marker starts 8193 bytes from the end: its bytes split
    // across the first and second scan windows.
    let mut segments = vec![255u8; 31];
    segments.push(200);
    segments.push(28);
    let csize: usize = segments.iter().map(|&b| b as usize).sum();
    assert_eq!(27 + segments.len() + csize, 8193);
    let page = build_page(0, 2, 3, 4, &segments, &vec![0u8; csize], false);
    let mut data = vec![0x20; 100];
    data.extend_from_slice(&page);
    let info = find_last_page(&data, 0).unwrap();
    assert_eq!(info.start, 100);
    assert_eq!(info.header_end, 100 + 27 + 33);
    assert_eq!(info.content_size, csize as u64);
}

#[test]
fn minimal_page_backward_and_forward_agree() {
    // A minimal single-page stream is found by the backward scan. The same
    // page followed by one garbage byte (and carrying a wrong checksum)
    // defeats both backward heuristics, so the forward fallback runs; both
    // must return the identical header.
    let page = build_page(2, 0, 11, 0, &[1], &[0x42], false);
    let r_backward = find_last_page(&page, 0).unwrap();

    let mut data = page.clone();
    data.push(0x2e);
    let r_forward = find_last_page(&data, 0).unwrap();

    assert_eq!(r_backward, r_forward);
    assert_eq!(r_backward.start, 0);
    assert_eq!(r_backward.header_end, 28);
    assert_eq!(r_backward.content_size, 1);
}

#[test]
fn repeated_calls_agree() {
    let page = build_page(0, 10, 42, 3, &[3], &[7, 8, 9], true);
    let mut data = page;
    data.extend_from_slice(&[0x78, 0x79]);
    let first = find_last_page(&data, 0);
    let second = find_last_page(&data, 0);
    assert_eq!(first, second);
}

#[test]
fn last_of_two_pages_is_returned() {
    let first = build_page(2, 0, 5, 0, &[4], &[1, 2, 3, 4], true);
    let second = build_page(4, 8, 5, 1, &[2], &[9, 9], false);
    let first_len = first.len() as u64;
    let mut data = first;
    data.extend_from_slice(&second);
    let info = find_last_page(&data, 0).unwrap();
    assert_eq!(info.start, first_len);
    assert_eq!(info.content_size, 2);
}

#[test]
fn search_region_starts_at_given_offset() {
    let first = build_page(2, 0, 5, 0, &[4], &[1, 2, 3, 4], true);
    let second = build_page(4, 8, 5, 1, &[2], &[9, 9], false);
    let first_len = first.len();
    let mut data = first;
    data.extend_from_slice(&second);
    // The region holding only the second page still yields it.
    let info = find_last_page(&data, first_len).unwrap();
    assert_eq!(info.start, first_len as u64);
    // A region beginning inside the second page holds no page at all.
    let r = find_last_page(&data, data.len() - 2);
    assert_eq!(r, Err(DecodeError::NoPageFound));
}

#[test]
fn forward_fallback_walks_the_whole_chain() {
    // Two pages, both with wrong checksums, followed by garbage: the backward
    // scan accepts nothing, and the forward scan must remember the second
    // page as the last successful parse.
    let first = build_page(2, 0, 5, 0, &[4], &[1, 2, 3, 4], false);
    let second = build_page(0, 8, 5, 1, &[2], &[9, 9], false);
    let first_len = first.len() as u64;
    let mut data = first;
    data.extend_from_slice(&second);
    data.extend_from_slice(&[0x2e, 0x2e, 0x2e]);
    let info = find_last_page(&data, 0).unwrap();
    assert_eq!(info.start, first_len);
    assert_eq!(info.content_size, 2);
}

#[test]
fn garbage_only_data_reports_no_page() {
    let data = vec![0x20; 40];
    assert_eq!(find_last_page(&data, 0), Err(DecodeError::NoPageFound));
}

#[test]
fn empty_data_reports_no_page() {
    let data: Vec<u8> = Vec::new();
    assert_eq!(find_last_page(&data, 0), Err(DecodeError::NoPageFound));
}
