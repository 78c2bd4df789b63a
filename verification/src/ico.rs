//! Selection of one embedded image from a Windows `.ico` container.
//!
//! An ICO file starts with a 6-byte header (reserved = 0, type = 1, image
//! count), followed by one 16-byte directory entry per image. Each entry
//! stores the width and height (0 meaning 256) in its first two bytes, the
//! image byte size at offset 8 and the image byte offset at offset 12, all
//! little-endian.
use vstd::prelude::*;

verus! {

/// Little-endian 16-bit value stored at `off`.
pub open spec fn le_u16(s: Seq<u8>, off: int) -> int {
    s[off] as int + 256 * (s[off + 1] as int)
}

/// Little-endian 32-bit value stored at `off`.
pub open spec fn le_u32(s: Seq<u8>, off: int) -> int {
    s[off] as int + 256 * (s[off + 1] as int) + 65536 * (s[off + 2] as int) + 16777216 * (
    s[off + 3] as int)
}

/// An ICO dimension byte: 0 stands for 256 pixels.
pub open spec fn ico_dimension(v: u8) -> int {
    if v == 0 {
        256
    } else {
        v as int
    }
}

pub open spec fn abs_diff_int(a: int, b: int) -> int {
    if a < b {
        b - a
    } else {
        a - b
    }
}

pub open spec fn entry_start(i: int) -> int {
    6 + 16 * i
}

pub open spec fn entry_count(s: Seq<u8>) -> int {
    le_u16(s, 4)
}

pub open spec fn entry_width(s: Seq<u8>, i: int) -> int {
    ico_dimension(s[entry_start(i)])
}

pub open spec fn entry_height(s: Seq<u8>, i: int) -> int {
    ico_dimension(s[entry_start(i) + 1])
}

pub open spec fn entry_size(s: Seq<u8>, i: int) -> int {
    le_u32(s, entry_start(i) + 8)
}

pub open spec fn entry_offset(s: Seq<u8>, i: int) -> int {
    le_u32(s, entry_start(i) + 12)
}

/// The entry's byte range `offset + size` does not fit in a `usize`.
pub open spec fn range_overflows(s: Seq<u8>, i: int) -> bool {
    entry_offset(s, i) + entry_size(s, i) > usize::MAX
}

/// The entry points at a non-empty image lying wholly inside the data.
pub open spec fn entry_usable(s: Seq<u8>, i: int) -> bool {
    &&& entry_offset(s, i) < s.len()
    &&& entry_offset(s, i) + entry_size(s, i) <= s.len()
    &&& entry_size(s, i) != 0
}

/// The score of an entry for a desired size: first whether the image is
/// smaller than desired in either dimension, then how far its larger side is
/// from the desired size, then the summed distance of both sides.
pub open spec fn entry_score(s: Seq<u8>, i: int, desired: int) -> (int, int, int) {
    let w = entry_width(s, i);
    let h = entry_height(s, i);
    (
        if w < desired || h < desired {
            1
        } else {
            0
        },
        abs_diff_int(if w < h { h } else { w }, desired),
        abs_diff_int(w, desired) + abs_diff_int(h, desired),
    )
}

/// Lexicographic strict order on scores.
pub open spec fn score_lt(a: (int, int, int), b: (int, int, int)) -> bool {
    a.0 < b.0 || (a.0 == b.0 && a.1 < b.1) || (a.0 == b.0 && a.1 == b.1 && a.2 < b.2)
}

/// Entry `i` is the one chosen for `desired`: it is usable, strictly better
/// than every usable entry before it, and no usable entry after it is
/// strictly better.
pub open spec fn is_best_entry(s: Seq<u8>, i: int, desired: int) -> bool {
    &&& 0 <= i < entry_count(s)
    &&& entry_usable(s, i)
    &&& forall|j: int|
        0 <= j < i && entry_usable(s, j) ==> #[trigger] score_lt(
            entry_score(s, i, desired),
            entry_score(s, j, desired),
        )
    &&& forall|j: int|
        i < j < entry_count(s) && entry_usable(s, j) ==> !#[trigger] score_lt(
            entry_score(s, j, desired),
            entry_score(s, i, desired),
        )
}

pub open spec fn header_valid(s: Seq<u8>) -> bool {
    le_u16(s, 0) == 0 && le_u16(s, 2) == 1
}

pub open spec fn table_fits(s: Seq<u8>) -> bool {
    s.len() >= entry_start(entry_count(s))
}

pub open spec fn some_range_overflows(s: Seq<u8>) -> bool {
    exists|i: int| 0 <= i < entry_count(s) && #[trigger] range_overflows(s, i)
}

pub open spec fn some_entry_usable(s: Seq<u8>) -> bool {
    exists|i: int| 0 <= i < entry_count(s) && #[trigger] entry_usable(s, i)
}

/// The error message that `select_ico_image` reports for `s`, if any.
pub open spec fn ico_failure(s: Seq<u8>) -> Option<Seq<char>> {
    if s.len() < 6 {
        Some("ICO data is too short"@)
    } else if !header_valid(s) {
        Some("ICO header is invalid"@)
    } else if !table_fits(s) {
        Some("ICO entry table is truncated"@)
    } else if some_range_overflows(s) {
        Some("ICO image range overflows"@)
    } else if !some_entry_usable(s) {
        Some("ICO contains no usable image"@)
    } else {
        None
    }
}

/// The summed side distance of entry `i` fits in a `u32`.
pub open spec fn shape_delta_fits(s: Seq<u8>, i: int, desired: int) -> bool {
    abs_diff_int(entry_width(s, i), desired) + abs_diff_int(entry_height(s, i), desired)
        <= u32::MAX
}

/// Inputs on which the scoring arithmetic stays within `u32`: every usable
/// entry that the scan reaches has a summed side distance that fits.
pub open spec fn scoring_fits(s: Seq<u8>, desired: int) -> bool {
    forall|i: int|
        0 <= i < entry_count(s) && #[trigger] entry_usable(s, i) && (forall|j: int|
            0 <= j < i ==> !#[trigger] range_overflows(s, j)) ==> shape_delta_fits(s, i, desired)
}

/// Picks the directory entry that best matches `desired_size` and returns its
/// image bytes.
///
/// Entries whose image range is empty or leaves the data are skipped. Among
/// the rest, an image at least `desired_size` in both dimensions is preferred,
/// then the one whose larger side is closest to `desired_size`, then the one
/// whose summed side distance is smallest; ties go to the earliest entry.
pub fn select_ico_image(bytes: &[u8], desired_size: u32) -> (r: Result<&[u8], String>)
    requires
        bytes@.len() >= 6 && header_valid(bytes@) && table_fits(bytes@) ==> scoring_fits(
            bytes@,
            desired_size as int,
        ),
    ensures
        ico_failure(bytes@) matches Some(m) ==> (r matches Err(e) && e@ == m),
        ico_failure(bytes@) is None ==> (r matches Ok(img) && exists|b: int|
            is_best_entry(bytes@, b, desired_size as int) && img@ == bytes@.subrange(
                entry_offset(bytes@, b),
                entry_offset(bytes@, b) + entry_size(bytes@, b),
            )),
{
    if bytes.len() < 6 {
        return Err(String::from_str("ICO data is too short"));
    }
    let reserved = match read_u16(bytes, 0) {
        Ok(v) => v,
        Err(e) => return Err(e),
    };
    let image_type = match read_u16(bytes, 2) {
        Ok(v) => v,
        Err(e) => return Err(e),
    };
    let count = match read_u16(bytes, 4) {
        Ok(v) => v as usize,
        Err(e) => return Err(e),
    };
    if reserved != 0 || image_type != 1 {
        return Err(String::from_str("ICO header is invalid"));
    }
    let table_len = match count.checked_mul(16) {
        Some(n) => n,
        None => return Err(String::from_str("ICO entry table is too large")),
    };
    let entries_end = match 6usize.checked_add(table_len) {
        Some(n) => n,
        None => return Err(String::from_str("ICO entry table overflows")),
    };
    if bytes.len() < entries_end {
        return Err(String::from_str("ICO entry table is truncated"));
    }
    let ghost s = bytes@;
    let desired = desired_size;
    let mut best: Option<(usize, (u32, u32, u32))> = None;
    let mut index: usize = 0;
    while index < count
        invariant
            s == bytes@,
            s.len() >= 6,
            header_valid(s),
            count == entry_count(s),
            entries_end == entry_start(count as int),
            entries_end <= s.len(),
            index <= count,
            scoring_fits(s, desired as int),
            forall|j: int| 0 <= j < index ==> !#[trigger] range_overflows(s, j),
            best is None <==> (forall|j: int| 0 <= j < index ==> !#[trigger] entry_usable(s, j)),
            best matches Some(bs) ==> {
                &&& bs.0 < index
                &&& entry_usable(s, bs.0 as int)
                &&& (bs.1.0 as int, bs.1.1 as int, bs.1.2 as int) == entry_score(
                    s,
                    bs.0 as int,
                    desired as int,
                )
                &&& forall|j: int|
                    0 <= j < bs.0 && entry_usable(s, j) ==> #[trigger] score_lt(
                        entry_score(s, bs.0 as int, desired as int),
                        entry_score(s, j, desired as int),
                    )
                &&& forall|j: int|
                    bs.0 < j < index && entry_usable(s, j) ==> !#[trigger] score_lt(
                        entry_score(s, j, desired as int),
                        entry_score(s, bs.0 as int, desired as int),
                    )
            },
        decreases count - index,
    {
        let offset = 6 + index * 16;
        let width = decode_ico_dimension(bytes[offset]);
        let height = decode_ico_dimension(bytes[offset + 1]);
        let size = match read_u32(bytes, offset + 8) {
            Ok(v) => v as usize,
            Err(e) => return Err(e),
        };
        let image_offset = match read_u32(bytes, offset + 12) {
            Ok(v) => v as usize,
            Err(e) => return Err(e),
        };
        let image_end = match image_offset.checked_add(size) {
            Some(n) => n,
            None => {
                assert(range_overflows(s, index as int));
                return Err(String::from_str("ICO image range overflows"));
            },
        };
        if image_offset >= bytes.len() || image_end > bytes.len() || size == 0 {
            assert(!entry_usable(s, index as int));
            index = index + 1;
            continue;
        }
        assert(entry_usable(s, index as int));
        assert(shape_delta_fits(s, index as int, desired as int));
        let too_small_penalty: u32 = if width < desired || height < desired {
            1
        } else {
            0
        };
        let larger = if width < height {
            height
        } else {
            width
        };
        let max_size_delta = abs_diff(larger, desired);
        let shape_delta = abs_diff(width, desired) + abs_diff(height, desired);
        let score = (too_small_penalty, max_size_delta, shape_delta);
        assert(width == entry_width(s, index as int));
        assert(height == entry_height(s, index as int));
        assert((score.0 as int, score.1 as int, score.2 as int) == entry_score(
            s,
            index as int,
            desired as int,
        ));
        let replace = match best {
            None => true,
            Some((_, best_score)) => score_less(score, best_score),
        };
        let ghost old_best = best;
        if replace {
            best = Some((index, score));
            proof {
                if let Some(ob) = old_best {
                    assert forall|j: int|
                        0 <= j < index && entry_usable(s, j) implies #[trigger] score_lt(
                        entry_score(s, index as int, desired as int),
                        entry_score(s, j, desired as int),
                    ) by {
                        if j < ob.0 {
                            lemma_score_lt_transitive(
                                entry_score(s, index as int, desired as int),
                                entry_score(s, ob.0 as int, desired as int),
                                entry_score(s, j, desired as int),
                            );
                        } else if j > ob.0 {
                            lemma_score_lt_not_lt(
                                entry_score(s, index as int, desired as int),
                                entry_score(s, ob.0 as int, desired as int),
                                entry_score(s, j, desired as int),
                            );
                        }
                    }
                }
            }
        }
        index = index + 1;
    }
    proof {
        assert(!some_range_overflows(s));
    }
    let chosen = match best {
        Some((i, _)) => i,
        None => {
            return Err(String::from_str("ICO contains no usable image"));
        },
    };
    let offset = 6 + chosen * 16;
    let size = match read_u32(bytes, offset + 8) {
        Ok(v) => v as usize,
        Err(e) => return Err(e),
    };
    let image_offset = match read_u32(bytes, offset + 12) {
        Ok(v) => v as usize,
        Err(e) => return Err(e),
    };
    assert(is_best_entry(s, chosen as int, desired as int));
    Ok(&bytes[image_offset..image_offset + size])
}

/// At most one directory entry is the best match for a desired size, so the
/// image that `select_ico_image` returns is determined by its input.
pub proof fn lemma_best_entry_unique(s: Seq<u8>, a: int, b: int, desired: int)
    requires
        is_best_entry(s, a, desired),
        is_best_entry(s, b, desired),
    ensures
        a == b,
{
    if a < b {
        assert(score_lt(entry_score(s, b, desired), entry_score(s, a, desired)));
    } else if b < a {
        assert(score_lt(entry_score(s, a, desired), entry_score(s, b, desired)));
    }
}

/// When some usable image is at least the desired size in both dimensions,
/// the chosen image is at least the desired size in both dimensions too.
pub proof fn lemma_best_entry_not_smaller(s: Seq<u8>, b: int, j: int, desired: int)
    requires
        is_best_entry(s, b, desired),
        0 <= j < entry_count(s),
        entry_usable(s, j),
        entry_width(s, j) >= desired,
        entry_height(s, j) >= desired,
    ensures
        entry_width(s, b) >= desired,
        entry_height(s, b) >= desired,
{
    if j < b {
        assert(score_lt(entry_score(s, b, desired), entry_score(s, j, desired)));
    } else if b < j {
        assert(!score_lt(entry_score(s, j, desired), entry_score(s, b, desired)));
    }
}

/// When some usable image is exactly the desired size in both dimensions, the
/// chosen image is exactly the desired size as well.
pub proof fn lemma_best_entry_exact(s: Seq<u8>, b: int, j: int, desired: int)
    requires
        is_best_entry(s, b, desired),
        0 <= j < entry_count(s),
        entry_usable(s, j),
        entry_width(s, j) == desired,
        entry_height(s, j) == desired,
    ensures
        entry_width(s, b) == desired,
        entry_height(s, b) == desired,
{
    if j < b {
        assert(score_lt(entry_score(s, b, desired), entry_score(s, j, desired)));
    } else if b < j {
        assert(!score_lt(entry_score(s, j, desired), entry_score(s, b, desired)));
    }
}

/// Which error an ICO file gets: data under six bytes is too short; a
/// header whose reserved word is not 0 or whose type is not 1 (icon) is
/// invalid; a directory of `count` entries needs `6 + 16 * count` bytes; an
/// entry whose range overflows fails the file; and a file with none of
/// these faults succeeds exactly when some entry points at a non-empty image
/// inside the data.
pub proof fn lemma_ico_errors(s: Seq<u8>)
    ensures
        s.len() < 6 ==> ico_failure(s) == Some("ICO data is too short"@),
        s.len() >= 6 && (s[0] != 0 || s[1] != 0 || s[2] != 1 || s[3] != 0) ==> ico_failure(s)
            == Some("ICO header is invalid"@),
        s.len() >= 6 && s[0] == 0 && s[1] == 0 && s[2] == 1 && s[3] == 0 && s.len() < 6 + 16 * (
        s[4] + 256 * s[5]) ==> ico_failure(s) == Some("ICO entry table is truncated"@),
        ico_failure(s) is None <==> (s.len() >= 6 && s[0] == 0 && s[1] == 0 && s[2] == 1 && s[3]
            == 0 && s.len() >= 6 + 16 * (s[4] + 256 * s[5]) && !some_range_overflows(s)
            && exists|i: int| 0 <= i < entry_count(s) && #[trigger] entry_usable(s, i)),
{
    if s.len() >= 6 {
        assert(le_u16(s, 0) == 0 <==> (s[0] == 0 && s[1] == 0));
        assert(le_u16(s, 2) == 1 <==> (s[2] == 1 && s[3] == 0));
    }
}

proof fn lemma_score_lt_transitive(a: (int, int, int), b: (int, int, int), c: (int, int, int))
    requires
        score_lt(a, b),
        score_lt(b, c),
    ensures
        score_lt(a, c),
{
}

proof fn lemma_score_lt_not_lt(a: (int, int, int), b: (int, int, int), c: (int, int, int))
    requires
        score_lt(a, b),
        !score_lt(c, b),
    ensures
        score_lt(a, c),
{
}

/// Lexicographic strict comparison of two scores.
fn score_less(a: (u32, u32, u32), b: (u32, u32, u32)) -> (r: bool)
    ensures
        r == score_lt((a.0 as int, a.1 as int, a.2 as int), (b.0 as int, b.1 as int, b.2 as int)),
{
    a.0 < b.0 || (a.0 == b.0 && a.1 < b.1) || (a.0 == b.0 && a.1 == b.1 && a.2 < b.2)
}

/// Distance between two `u32` values.
fn abs_diff(a: u32, b: u32) -> (r: u32)
    ensures
        r == abs_diff_int(a as int, b as int),
{
    if a < b {
        b - a
    } else {
        a - b
    }
}

/// Decodes an ICO dimension byte (0 means 256 pixels).
pub fn decode_ico_dimension(value: u8) -> (r: u32)
    ensures
        r == ico_dimension(value),
        1 <= r <= 256,
{
    if value == 0 {
        256
    } else {
        value as u32
    }
}

/// Reads the little-endian `u16` at `offset`.
pub fn read_u16(bytes: &[u8], offset: usize) -> (r: Result<u16, String>)
    ensures
        offset + 2 > usize::MAX ==> (r matches Err(e) && e@ == "offset overflows"@),
        offset + 2 <= usize::MAX && offset + 2 > bytes@.len() ==> (r matches Err(e) && e@
            == "unexpected end of data"@),
        offset + 2 <= bytes@.len() ==> r == Ok::<u16, String>(le_u16(bytes@, offset as int) as u16),
{
    let len = bytes.len();
    let end = match offset.checked_add(2) {
        Some(n) => n,
        None => return Err(String::from_str("offset overflows")),
    };
    if end > bytes.len() {
        return Err(String::from_str("unexpected end of data"));
    }
    let lo = bytes[offset] as u16;
    let hi = bytes[offset + 1] as u16;
    Ok(lo + hi * 256)
}

/// Reads the little-endian `u32` at `offset`.
pub fn read_u32(bytes: &[u8], offset: usize) -> (r: Result<u32, String>)
    ensures
        offset + 4 > usize::MAX ==> (r matches Err(e) && e@ == "offset overflows"@),
        offset + 4 <= usize::MAX && offset + 4 > bytes@.len() ==> (r matches Err(e) && e@
            == "unexpected end of data"@),
        offset + 4 <= bytes@.len() ==> r == Ok::<u32, String>(le_u32(bytes@, offset as int) as u32),
{
    let len = bytes.len();
    let end = match offset.checked_add(4) {
        Some(n) => n,
        None => return Err(String::from_str("offset overflows")),
    };
    if end > bytes.len() {
        return Err(String::from_str("unexpected end of data"));
    }
    let b0 = bytes[offset] as u32;
    let b1 = bytes[offset + 1] as u32;
    let b2 = bytes[offset + 2] as u32;
    let b3 = bytes[offset + 3] as u32;
    Ok(b0 + b1 * 256 + b2 * 65536 + b3 * 16777216)
}

} // verus!
