//! The trusted boundary to the `ogg_pager` page codec: parsing one page
//! header at an offset, and recomputing a full page's checksum. The locator's
//! logic never reads page bytes itself; it sees pages only through the plain
//! values these items return.

use vstd::prelude::*;

verus! {

/// One parsed page header, reduced to the plain values the locator reads.
#[derive(Clone, Copy, PartialEq, Eq, Structural, Debug)]
pub struct PageInfo {
    /// Offset of the page's first byte (the start of the 4-byte marker).
    pub start: u64,
    /// Offset one past the last header byte; the page content begins here.
    pub header_end: u64,
    /// The content length in bytes that the header declares.
    pub content_size: u64,
    /// The checksum stored in the header.
    pub checksum: u32,
}

/// What parsing a page header at offset `pos` of `s` yields, or `None` where
/// no header parses there. Names the result of `ogg_pager::PageHeader::read`,
/// which depends on the bytes and the offset alone.
pub uninterp spec fn header_at(s: Seq<u8>, pos: int) -> Option<PageInfo>;

/// The stored checksum of the full page at offset `pos` of `s`, paired with
/// the checksum recomputed over the page's actual bytes, or `None` where no
/// full page can be read there. Names the combined result of
/// `ogg_pager::Page::read` and `Page::gen_crc`, which depends on the bytes
/// and the offset alone.
pub uninterp spec fn crc_pair_at(s: Seq<u8>, pos: int) -> Option<(u32, u32)>;

/// The 4-byte page marker `OggS` begins at offset `pos` of `s`.
pub open spec fn marker_at(s: Seq<u8>, pos: int) -> bool {
    &&& 0 <= pos
    &&& pos + 4 <= s.len()
    &&& s[pos] == 79u8
    &&& s[pos + 1] == 103u8
    &&& s[pos + 2] == 103u8
    &&& s[pos + 3] == 83u8
}

/// What every successful header parse guarantees: the record points back at
/// `pos`, the marker stands there, the header occupies at least its 27 fixed
/// bytes plus one segment table entry and lies within the data, and the
/// declared content size is at most 255 segments of at most 255 bytes.
pub open spec fn parsed_header_wf(s: Seq<u8>, pos: int, h: PageInfo) -> bool {
    &&& h.start == pos
    &&& pos + 28 <= h.header_end
    &&& h.header_end <= s.len()
    &&& h.content_size <= 65025
    &&& marker_at(s, pos)
}

/// Relies on `ogg_pager::PageHeader::read`: it succeeds only where the 4-byte
/// marker, a version byte of zero, the 23 remaining fixed header bytes and a
/// segment table of 1 to 255 entries all lie within the data, consuming
/// exactly the header's bytes; its content size is the segment table's sum.
#[verifier::external_body]
pub(crate) fn read_header_at(data: &Vec<u8>, pos: u64) -> (r: Option<PageInfo>)
    ensures
        r == header_at(data@, pos as int),
        r matches Some(h) ==> parsed_header_wf(data@, pos as int, h),
{
    let mut cur = std::io::Cursor::new(data.as_slice());
    cur.set_position(pos);
    match ogg_pager::PageHeader::read(&mut cur) {
        Ok(h) => Some(PageInfo {
            start: pos,
            header_end: cur.position(),
            content_size: h.content_size() as u64,
            checksum: h.checksum(),
        }),
        Err(_) => None,
    }
}

/// Relies on `ogg_pager::Page::read` and `Page::gen_crc`: the first reads the
/// header and the declared content at the given offset, the second recomputes
/// the checksum over the page's actual bytes in place; the stored checksum is
/// taken from the header before the recomputation overwrites it.
#[verifier::external_body]
pub(crate) fn page_crc_pair(data: &Vec<u8>, pos: u64) -> (r: Option<(u32, u32)>)
    ensures
        r == crc_pair_at(data@, pos as int),
{
    let mut cur = std::io::Cursor::new(data.as_slice());
    cur.set_position(pos);
    match ogg_pager::Page::read(&mut cur) {
        Ok(mut page) => {
            let stored = page.header().checksum();
            page.gen_crc();
            Some((stored, page.header().checksum()))
        },
        Err(_) => None,
    }
}

} // verus!
