//! The last-page locator: a chunked backward search for the page marker with
//! candidate validation, and a forward linear scan as fallback.

use vstd::prelude::*;

use crate::DecodeError;
use crate::pager::{PageInfo, crc_pair_at, header_at, marker_at, page_crc_pair, read_header_at};

verus! {

/// How many bytes one backward-scan chunk covers.
pub const CHUNK_SIZE: usize = 8192;

/// The page whose header parses at `pos` ends exactly at the end of `s`.
pub open spec fn end_aligned_at(s: Seq<u8>, pos: int) -> bool {
    match header_at(s, pos) {
        Some(h) => h.header_end + h.content_size == s.len(),
        None => false,
    }
}

/// A full page reads at `pos` and its recomputed checksum equals the stored one.
pub open spec fn crc_valid_at(s: Seq<u8>, pos: int) -> bool {
    match crc_pair_at(s, pos) {
        Some(pair) => pair.0 == pair.1,
        None => false,
    }
}

/// A candidate the backward scan accepts: the marker stands at `pos`, a
/// header parses there, and the page either ends exactly at the end of the
/// data or passes the checksum comparison.
pub open spec fn accepted_at(s: Seq<u8>, pos: int) -> bool {
    &&& marker_at(s, pos)
    &&& header_at(s, pos) is Some
    &&& (end_aligned_at(s, pos) || crc_valid_at(s, pos))
}

/// `info` is the accepted page with the greatest start offset at or above `start`.
pub open spec fn greatest_accepted(s: Seq<u8>, start: int, info: PageInfo) -> bool {
    &&& start <= info.start
    &&& accepted_at(s, info.start as int)
    &&& header_at(s, info.start as int) == Some(info)
    &&& forall|p: int| info.start < p ==> !accepted_at(s, p)
}

/// The header the forward linear scan started at `pos` remembers last: step
/// from each parsed header to `header_end + content_size`, and stop at the
/// first position where no header parses or where the declared page extends
/// past the data.
pub open spec fn forward_last(s: Seq<u8>, pos: int) -> Option<PageInfo>
    decreases s.len() - pos
        when 0 <= pos <= s.len()
{
    match header_at(s, pos) {
        None => None,
        Some(h) => {
            if pos < h.header_end && h.header_end + h.content_size <= s.len() {
                match forward_last(s, h.header_end + h.content_size) {
                    None => Some(h),
                    Some(h2) => Some(h2),
                }
            } else {
                Some(h)
            }
        },
    }
}

/// What the forward scan returns when it stands at `pos` remembering `last`.
spec fn chain_result(s: Seq<u8>, pos: int, last: Option<PageInfo>) -> Option<PageInfo> {
    match forward_last(s, pos) {
        None => last,
        Some(h) => Some(h),
    }
}

/// Everything the locator promises of its result on the region
/// `[start, s.len())`: where some candidate is accepted, the result is the
/// accepted page with the greatest start offset; where none is, the result is
/// the last header the forward scan parses, and the locator fails exactly
/// when even the first forward parse fails.
pub open spec fn locate_post(s: Seq<u8>, start: int, r: Result<PageInfo, DecodeError>) -> bool {
    match r {
        Ok(info) => {
            if exists|p: int| start <= p && #[trigger] accepted_at(s, p) {
                greatest_accepted(s, start, info)
            } else {
                forward_last(s, start) == Some(info)
            }
        },
        Err(e) => {
            &&& e == DecodeError::NoPageFound
            &&& forall|p: int| start <= p ==> !accepted_at(s, p)
            &&& forward_last(s, start) is None
        },
    }
}

/// Backward chunked scan over `[start, data.len())`: chunks of
/// [`CHUNK_SIZE`] bytes are taken from the end toward `start`, each scanned
/// from its last byte toward its first for the page marker, and consecutive
/// chunks overlap by 3 bytes so a marker straddling a chunk boundary is still
/// seen. Returns the accepted candidate with the greatest start offset, or
/// `None` when no candidate in the region is accepted.
fn backward_scan(data: &Vec<u8>, start: usize) -> (r: Option<PageInfo>)
    requires
        start <= data@.len(),
    ensures
        match r {
            Some(info) => greatest_accepted(data@, start as int, info),
            None => forall|p: int| start <= p ==> !accepted_at(data@, p),
        },
{
    let len = data.len();
    let mut current_pos: usize = len;

    while current_pos > start
        invariant
            len == data@.len(),
            start <= current_pos <= len,
            forall|p: int| current_pos - 3 <= p ==> !accepted_at(data@, p),
        decreases current_pos,
    {
        let size = if current_pos - start < CHUNK_SIZE {
            current_pos - start
        } else {
            CHUNK_SIZE
        };
        let search_start = current_pos - size;

        if size >= 4 {
            // Scan candidates p = i - 1 for i from current_pos - 3 down to
            // search_start + 1: exactly those whose 4 marker bytes lie
            // wholly inside the chunk [search_start, current_pos).
            let mut i: usize = current_pos - 3;
            while i > search_start
                invariant
                    len == data@.len(),
                    start <= search_start <= i,
                    i + 3 <= current_pos <= len,
                    forall|q: int| i - 1 < q ==> !accepted_at(data@, q),
                decreases i,
            {
                let p = i - 1;
                if data[p] == 79 && data[p + 1] == 103 && data[p + 2] == 103 && data[p + 3] == 83 {
                    match read_header_at(data, p as u64) {
                        Some(h) => {
                            if h.content_size == (len as u64) - h.header_end {
                                // The page ends exactly at the end of the
                                // data: accept without checksum work.
                                return Some(h);
                            }
                            match page_crc_pair(data, p as u64) {
                                Some(pair) => {
                                    if pair.0 == pair.1 {
                                        return Some(h);
                                    }
                                },
                                None => {},
                            }
                        },
                        None => {},
                    }
                }
                i = i - 1;
            }
        }

        if search_start == start {
            return None;
        }
        current_pos = search_start + 3;
    }

    None
}

/// Forward linear scan from `start`: parse a header, step past its declared
/// content, and repeat, remembering the most recent successful parse.
fn forward_scan(data: &Vec<u8>, start: usize) -> (r: Option<PageInfo>)
    requires
        start <= data@.len(),
    ensures
        r == forward_last(data@, start as int),
{
    let len = data.len();
    let mut pos: u64 = start as u64;
    let mut last: Option<PageInfo> = None;

    loop
        invariant
            len == data@.len(),
            pos <= len as u64,
            chain_result(data@, pos as int, last) == forward_last(data@, start as int),
        decreases len - pos,
    {
        match read_header_at(data, pos) {
            None => {
                return last;
            },
            Some(h) => {
                if h.content_size <= (len as u64) - h.header_end {
                    last = Some(h);
                    pos = h.header_end + h.content_size;
                } else {
                    // The declared page extends past the data: no further
                    // header can parse behind it, so this one is the last.
                    return Some(h);
                }
            },
        }
    }
}

/// Locates the page with the greatest start offset in `[start, data.len())`
/// that either ends exactly at the end of the data or passes the checksum
/// comparison, by the chunked backward scan; where no candidate is accepted,
/// falls back to the forward linear scan and returns the last header it
/// parses. Fails with [`DecodeError::NoPageFound`] exactly when even the
/// first forward parse at `start` fails.
pub fn find_last_page(data: &Vec<u8>, start: usize) -> (r: Result<PageInfo, DecodeError>)
    requires
        start <= data@.len(),
    ensures
        locate_post(data@, start as int, r),
{
    match backward_scan(data, start) {
        Some(info) => Ok(info),
        None => {
            match forward_scan(data, start) {
                Some(info) => Ok(info),
                None => Err(DecodeError::NoPageFound),
            }
        },
    }
}

/// Law: a page whose header parses at `pos` and ends exactly at the end of
/// the data is accepted on that alignment alone — nothing here assumes
/// anything of its checksum — so where no later position is accepted, any
/// result meeting the locator's contract is exactly that page's header.
pub proof fn lemma_end_aligned_is_returned(
    s: Seq<u8>,
    start: int,
    pos: int,
    r: Result<PageInfo, DecodeError>,
)
    requires
        start <= pos,
        marker_at(s, pos),
        end_aligned_at(s, pos),
        forall|q: int| pos < q ==> !accepted_at(s, q),
        locate_post(s, start, r),
    ensures
        r is Ok,
        r->Ok_0.start == pos,
        header_at(s, pos) == Some(r->Ok_0),
{
    assert(accepted_at(s, pos));
    lemma_accepted_is_returned(s, start, pos, r);
}

/// Law: a page whose header parses at `pos` and whose recomputed checksum
/// equals the stored one is accepted even when bytes trail it, so where no
/// later position is accepted, any result meeting the locator's contract is
/// exactly that page's header.
pub proof fn lemma_checksum_valid_is_returned(
    s: Seq<u8>,
    start: int,
    pos: int,
    r: Result<PageInfo, DecodeError>,
)
    requires
        start <= pos,
        marker_at(s, pos),
        header_at(s, pos) is Some,
        crc_valid_at(s, pos),
        forall|q: int| pos < q ==> !accepted_at(s, q),
        locate_post(s, start, r),
    ensures
        r is Ok,
        r->Ok_0.start == pos,
        header_at(s, pos) == Some(r->Ok_0),
{
    assert(accepted_at(s, pos));
    lemma_accepted_is_returned(s, start, pos, r);
}

/// The two laws above share this core: the greatest accepted position is
/// returned whenever any position is accepted.
proof fn lemma_accepted_is_returned(
    s: Seq<u8>,
    start: int,
    pos: int,
    r: Result<PageInfo, DecodeError>,
)
    requires
        start <= pos,
        accepted_at(s, pos),
        forall|q: int| pos < q ==> !accepted_at(s, q),
        locate_post(s, start, r),
    ensures
        r is Ok,
        r->Ok_0.start == pos,
        header_at(s, pos) == Some(r->Ok_0),
{
    assert(exists|p: int| start <= p && #[trigger] accepted_at(s, p));
    match r {
        Ok(info) => {
            assert(greatest_accepted(s, start, info));
            if info.start < pos {
                assert(!accepted_at(s, pos));
            }
            if pos < info.start {
                assert(!accepted_at(s, info.start as int));
            }
            assert(info.start == pos);
        },
        Err(_) => {
            assert(!accepted_at(s, pos));
        },
    }
}

/// Law: a position that is not accepted — the marker is coincidental, no
/// header parses there, or the page is neither end-aligned nor
/// checksum-valid — is never the one returned while any accepted page exists.
pub proof fn lemma_false_candidate_not_returned(
    s: Seq<u8>,
    start: int,
    pos: int,
    r: Result<PageInfo, DecodeError>,
)
    requires
        !accepted_at(s, pos),
        exists|p: int| start <= p && #[trigger] accepted_at(s, p),
        locate_post(s, start, r),
    ensures
        r is Ok,
        r->Ok_0.start != pos,
{
    let w = choose|p: int| start <= p && #[trigger] accepted_at(s, p);
    match r {
        Ok(info) => {
            assert(accepted_at(s, info.start as int));
        },
        Err(_) => {
            assert(!accepted_at(s, w));
        },
    }
}

/// Law: the locator's outcome is a function of the data and the start offset
/// alone, so two calls on the same unmodified data agree — any two results
/// meeting the contract are equal.
pub proof fn lemma_locate_deterministic(
    s: Seq<u8>,
    start: int,
    r1: Result<PageInfo, DecodeError>,
    r2: Result<PageInfo, DecodeError>,
)
    requires
        locate_post(s, start, r1),
        locate_post(s, start, r2),
    ensures
        r1 == r2,
{
    if exists|p: int| start <= p && #[trigger] accepted_at(s, p) {
        let w = choose|p: int| start <= p && #[trigger] accepted_at(s, p);
        match (r1, r2) {
            (Ok(i1), Ok(i2)) => {
                assert(greatest_accepted(s, start, i1));
                assert(greatest_accepted(s, start, i2));
                if i1.start < i2.start {
                    assert(!accepted_at(s, i2.start as int));
                }
                if i2.start < i1.start {
                    assert(!accepted_at(s, i1.start as int));
                }
                assert(i1.start == i2.start);
            },
            (Err(_), _) => {
                assert(!accepted_at(s, w));
            },
            (_, Err(_)) => {
                assert(!accepted_at(s, w));
            },
        }
    } else {
        match (r1, r2) {
            (Ok(i1), Ok(i2)) => {
                assert(forward_last(s, start) == Some(i1));
                assert(forward_last(s, start) == Some(i2));
            },
            (Ok(i1), Err(_)) => {
                assert(forward_last(s, start) is None);
                assert(forward_last(s, start) == Some(i1));
            },
            (Err(_), Ok(i2)) => {
                assert(forward_last(s, start) is None);
                assert(forward_last(s, start) == Some(i2));
            },
            (Err(e1), Err(e2)) => {
                assert(e1 == DecodeError::NoPageFound);
                assert(e2 == DecodeError::NoPageFound);
            },
        }
    }
}

} // verus!
