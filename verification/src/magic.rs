//! Image format detection from magic bytes (file signatures).
//!
//! The detector reads only a short prefix of the data and never parses
//! a full image.  Signatures are tried in order of expected frequency
//! in comic archives, JPEG first.  AVIF is recognised through an
//! ISO-BMFF `ftyp` box walk with a raw substring scan as a fallback
//! for malformed boxes.

use vstd::prelude::*;
use vstd::string::StringExecFns;
use crate::errors::CbxError;

verus! {

/// A raster or container format recognised by the detector.
#[derive(Debug, Clone, Copy, PartialEq, Eq, Structural)]
pub enum ImageFormat {
    /// JPEG image (`FF D8 FF`).
    Jpeg,
    /// PNG image (`89 50 4E 47 0D 0A 1A 0A`).
    Png,
    /// GIF image (`47 49 46 38`).
    Gif,
    /// BMP image (`42 4D`).
    Bmp,
    /// TIFF image (`49 49 2A 00` or `4D 4D 00 2A`).
    Tiff,
    /// ICO icon (`00 00 01 00`).
    Ico,
    /// WebP image (`52 49 46 46 .. 57 45 42 50`).
    WebP,
    /// AVIF image (`ftyp` box with an `avif`/`avis` brand).
    Avif,
}

impl ImageFormat {
    /// The display name of the format.
    pub fn as_str(&self) -> (r: &'static str)
        ensures
            r@ == self.as_str_spec(),
    {
        match self {
            ImageFormat::Jpeg => "JPEG",
            ImageFormat::Png => "PNG",
            ImageFormat::Gif => "GIF",
            ImageFormat::Bmp => "BMP",
            ImageFormat::Tiff => "TIFF",
            ImageFormat::Ico => "ICO",
            ImageFormat::WebP => "WebP",
            ImageFormat::Avif => "AVIF",
        }
    }

    /// The name returned by [`Self::as_str`].
    pub open spec fn as_str_spec(&self) -> Seq<char> {
        match self {
            ImageFormat::Jpeg => "JPEG"@,
            ImageFormat::Png => "PNG"@,
            ImageFormat::Gif => "GIF"@,
            ImageFormat::Bmp => "BMP"@,
            ImageFormat::Tiff => "TIFF"@,
            ImageFormat::Ico => "ICO"@,
            ImageFormat::WebP => "WebP"@,
            ImageFormat::Avif => "AVIF"@,
        }
    }
}

/// The big-endian 32-bit value stored at `d[i..i+4)`.
pub open spec fn be32(d: Seq<u8>, i: int) -> int {
    d[i] * 0x1000000 + d[i + 1] * 0x10000 + d[i + 2] * 0x100 + d[i + 3]
}

/// The big-endian 64-bit value stored at `d[i..i+8)`.
pub open spec fn be64(d: Seq<u8>, i: int) -> int {
    be32(d, i) * 0x100000000 + be32(d, i + 4)
}

/// True when `d[i..i+4)` spells `ftyp`.
pub open spec fn is_ftyp(d: Seq<u8>, i: int) -> bool {
    d[i] == 0x66 && d[i + 1] == 0x74 && d[i + 2] == 0x79 && d[i + 3] == 0x70
}

/// True when `d[i..i+4)` spells the brand `avif` or `avis`.
pub open spec fn is_avif_brand(d: Seq<u8>, i: int) -> bool {
    d[i] == 0x61 && d[i + 1] == 0x76 && d[i + 2] == 0x69 && (d[i + 3] == 0x66 || d[i + 3] == 0x73)
}

/// Scan of a `ftyp` box's compatible-brand list: entries of four bytes
/// from `off` up to `end`, looking for `avif` or `avis`.
pub open spec fn brand_scan(d: Seq<u8>, off: int, end: int) -> bool
    decreases end - off,
{
    if off < 0 || off + 4 > end || end > d.len() {
        false
    } else if is_avif_brand(d, off) {
        true
    } else {
        brand_scan(d, off + 4, end)
    }
}

/// One `ftyp` box holds an AVIF brand: either its major brand (right
/// after the header) or one of its compatible brands (after the major
/// brand and version).
pub open spec fn ftyp_box_has_avif(d: Seq<u8>, cursor: int, header: int, box_end: int) -> bool {
    if cursor + header + 4 > box_end {
        false
    } else if is_avif_brand(d, cursor + header) {
        true
    } else if cursor + header + 8 <= box_end {
        brand_scan(d, cursor + header + 8, box_end)
    } else {
        false
    }
}

/// Walk of the leading ISO-BMFF boxes of `d` up to `limit`, true when
/// a well-formed `ftyp` box carrying an AVIF brand is found.  The walk
/// stops at the first `ftyp` box, at any malformed box, and at the
/// scan ceiling.
pub open spec fn avif_box_walk(d: Seq<u8>, cursor: int, limit: int) -> bool
    decreases limit - cursor,
{
    if cursor < 0 || cursor + 8 > limit || limit > d.len() {
        false
    } else {
        let size = be32(d, cursor);
        if size == 1 {
            if cursor + 16 > limit {
                false
            } else {
                let large = be64(d, cursor + 8);
                if large < 16 || cursor + large > limit {
                    false
                } else if is_ftyp(d, cursor + 4) {
                    ftyp_box_has_avif(d, cursor, 16, cursor + large)
                } else if cursor < cursor + large {
                    avif_box_walk(d, cursor + large, limit)
                } else {
                    false
                }
            }
        } else if size < 8 || cursor + size > limit {
            false
        } else if is_ftyp(d, cursor + 4) {
            ftyp_box_has_avif(d, cursor, 8, cursor + size)
        } else {
            avif_box_walk(d, cursor + size, limit)
        }
    }
}

/// Last-resort scan for a raw `ftypavif` / `ftypavis` substring in the
/// first bytes of the data, for malformed box structures.
pub open spec fn raw_ftyp_scan(d: Seq<u8>, i: int, scan_limit: int) -> bool
    decreases scan_limit - i,
{
    if i < 0 || i + 8 > scan_limit || scan_limit > d.len() {
        false
    } else if is_ftyp(d, i) && is_avif_brand(d, i + 4) {
        true
    } else {
        raw_ftyp_scan(d, i + 1, scan_limit)
    }
}

/// The scan ceiling of the box walk: 4096 bytes.
pub open spec fn parse_limit_of(d: Seq<u8>) -> int {
    if d.len() < 4096 {
        d.len() as int
    } else {
        4096
    }
}

/// True when the data is recognised as AVIF: a leading `ftyp` box with
/// an AVIF major brand, a brand found by the box walk, or a raw
/// substring match within the first 64 bytes.
pub open spec fn spec_is_avif(d: Seq<u8>) -> bool {
    ||| (d.len() >= 12 && is_ftyp(d, 4) && is_avif_brand(d, 8))
    ||| (d.len() >= 16 && avif_box_walk(d, 0, parse_limit_of(d)))
    ||| (d.len() >= 16 && raw_ftyp_scan(d, 0, if parse_limit_of(d) < 64 {
        parse_limit_of(d)
    } else {
        64
    }))
}

/// The format that the magic bytes of `d` spell, if any.  The checks
/// are ordered; the first match wins.
pub open spec fn spec_detect_image_format(d: Seq<u8>) -> Option<ImageFormat> {
    if d.len() < 4 {
        None
    } else if d[0] == 0xFF && d[1] == 0xD8 && d[2] == 0xFF {
        Some(ImageFormat::Jpeg)
    } else if d.len() >= 8 && d[0] == 0x89 && d[1] == 0x50 && d[2] == 0x4E && d[3] == 0x47 && d[4]
        == 0x0D && d[5] == 0x0A && d[6] == 0x1A && d[7] == 0x0A {
        Some(ImageFormat::Png)
    } else if d[0] == 0x47 && d[1] == 0x49 && d[2] == 0x46 && d[3] == 0x38 {
        Some(ImageFormat::Gif)
    } else if d[0] == 0x42 && d[1] == 0x4D {
        Some(ImageFormat::Bmp)
    } else if (d[0] == 0x49 && d[1] == 0x49 && d[2] == 0x2A && d[3] == 0x00) || (d[0] == 0x4D
        && d[1] == 0x4D && d[2] == 0x00 && d[3] == 0x2A) {
        Some(ImageFormat::Tiff)
    } else if d[0] == 0x00 && d[1] == 0x00 && d[2] == 0x01 && d[3] == 0x00 {
        Some(ImageFormat::Ico)
    } else if d.len() >= 12 && d[0] == 0x52 && d[1] == 0x49 && d[2] == 0x46 && d[3] == 0x46 && d[8]
        == 0x57 && d[9] == 0x45 && d[10] == 0x42 && d[11] == 0x50 {
        Some(ImageFormat::WebP)
    } else if spec_is_avif(d) {
        Some(ImageFormat::Avif)
    } else {
        None
    }
}

/// The uppercase hexadecimal digit for a value below sixteen.
pub open spec fn hex_digit_char(n: int) -> char {
    if n == 0 {
        '0'
    } else if n == 1 {
        '1'
    } else if n == 2 {
        '2'
    } else if n == 3 {
        '3'
    } else if n == 4 {
        '4'
    } else if n == 5 {
        '5'
    } else if n == 6 {
        '6'
    } else if n == 7 {
        '7'
    } else if n == 8 {
        '8'
    } else if n == 9 {
        '9'
    } else if n == 10 {
        'A'
    } else if n == 11 {
        'B'
    } else if n == 12 {
        'C'
    } else if n == 13 {
        'D'
    } else if n == 14 {
        'E'
    } else {
        'F'
    }
}

/// The hex dump of `d[i..end)`: two uppercase digits and a space per
/// byte.
pub open spec fn hex_dump_of(d: Seq<u8>, i: int, end: int) -> Seq<char>
    decreases end - i,
{
    if i < 0 || i >= end {
        Seq::empty()
    } else {
        seq![
            hex_digit_char(d[i] as int / 16),
            hex_digit_char(d[i] as int % 16),
            ' ',
        ] + hex_dump_of(d, i + 1, end)
    }
}

/// How many leading bytes the diagnostic dump shows: at most sixteen.
pub open spec fn dump_limit(n: int) -> int {
    if n < 16 {
        n
    } else {
        16
    }
}

fn hex_digit(n: u8) -> (r: &'static str)
    requires
        n < 16,
    ensures
        r@ =~= seq![hex_digit_char(n as int)],
{
    proof {
        reveal_strlit("0");
        reveal_strlit("1");
        reveal_strlit("2");
        reveal_strlit("3");
        reveal_strlit("4");
        reveal_strlit("5");
        reveal_strlit("6");
        reveal_strlit("7");
        reveal_strlit("8");
        reveal_strlit("9");
        reveal_strlit("A");
        reveal_strlit("B");
        reveal_strlit("C");
        reveal_strlit("D");
        reveal_strlit("E");
        reveal_strlit("F");
    }
    match n {
        0 => "0",
        1 => "1",
        2 => "2",
        3 => "3",
        4 => "4",
        5 => "5",
        6 => "6",
        7 => "7",
        8 => "8",
        9 => "9",
        10 => "A",
        11 => "B",
        12 => "C",
        13 => "D",
        14 => "E",
        _ => "F",
    }
}

proof fn lemma_hex_dump_snoc(d: Seq<u8>, a: int, e: int)
    requires
        0 <= a <= e,
    ensures
        hex_dump_of(d, a, e + 1) == hex_dump_of(d, a, e) + seq![
            hex_digit_char(d[e] as int / 16),
            hex_digit_char(d[e] as int % 16),
            ' ',
        ],
    decreases e - a,
{
    if a == e {
        assert(hex_dump_of(d, a + 1, e + 1) =~= Seq::<char>::empty());
        assert(hex_dump_of(d, a, e) =~= Seq::<char>::empty());
        assert(hex_dump_of(d, a, e + 1) =~= hex_dump_of(d, a, e) + seq![
            hex_digit_char(d[e] as int / 16),
            hex_digit_char(d[e] as int % 16),
            ' ',
        ]);
    } else {
        lemma_hex_dump_snoc(d, a + 1, e);
        assert(hex_dump_of(d, a, e + 1) =~= hex_dump_of(d, a, e) + seq![
            hex_digit_char(d[e] as int / 16),
            hex_digit_char(d[e] as int % 16),
            ' ',
        ]);
    }
}

/// Renders the leading bytes of `data` as uppercase hex pairs for a
/// diagnostic message.
fn hex_dump_prefix(data: &[u8]) -> (r: String)
    ensures
        r@ == hex_dump_of(data@, 0, dump_limit(data@.len() as int)),
{
    let n = data.len();
    let limit: usize = if n < 16 {
        n
    } else {
        16
    };
    let mut out = String::new();
    let mut i: usize = 0;
    while i < limit
        invariant
            i <= limit,
            limit == dump_limit(data@.len() as int),
            limit <= data@.len(),
            out@ == hex_dump_of(data@, 0, i as int),
        decreases limit - i,
    {
        let b = data[i];
        out.append(hex_digit(b / 16));
        out.append(hex_digit(b % 16));
        out.append(" ");
        proof {
            reveal_strlit(" ");
            lemma_hex_dump_snoc(data@, 0, i as int);
            assert(out@ =~= hex_dump_of(data@, 0, i + 1));
        }
        i = i + 1;
    }
    out
}

/// Scans a compatible-brand list for `avif`/`avis`.
fn scan_brands(data: &[u8], off: usize, end: usize) -> (r: bool)
    requires
        off <= end <= data@.len(),
    ensures
        r == brand_scan(data@, off as int, end as int),
    decreases end - off,
{
    let mut cur: usize = off;
    loop
        invariant
            off <= cur <= end,
            end <= data@.len(),
            brand_scan(data@, off as int, end as int) == brand_scan(data@, cur as int, end as int),
        decreases end + 4 - cur,
    {
        if end - cur < 4 {
            return false;
        }
        if data[cur] == 0x61 && data[cur + 1] == 0x76 && data[cur + 2] == 0x69 && (data[cur + 3]
            == 0x66 || data[cur + 3] == 0x73) {
            return true;
        }
        cur = cur + 4;
    }
}

/// True when `data[i..i+4)` spells `ftyp`.
fn ftyp_at(data: &[u8], i: usize) -> (r: bool)
    requires
        i + 4 <= data@.len(),
    ensures
        r == is_ftyp(data@, i as int),
{
    data[i] == 0x66 && data[i + 1] == 0x74 && data[i + 2] == 0x79 && data[i + 3] == 0x70
}

/// True when `data[i..i+4)` spells `avif` or `avis`.
fn avif_brand_at(data: &[u8], i: usize) -> (r: bool)
    requires
        i + 4 <= data@.len(),
    ensures
        r == is_avif_brand(data@, i as int),
{
    data[i] == 0x61 && data[i + 1] == 0x76 && data[i + 2] == 0x69 && (data[i + 3] == 0x66 || data[i
        + 3] == 0x73)
}

/// Walks the leading ISO-BMFF boxes looking for an AVIF `ftyp` box.
fn avif_walk(data: &[u8]) -> (r: bool)
    requires
        data@.len() >= 16,
    ensures
        r == avif_box_walk(data@, 0, parse_limit_of(data@)),
{
    let n = data.len();
    let limit: usize = if n < 4096 {
        n
    } else {
        4096
    };
    let mut cursor: usize = 0;
    loop
        invariant
            cursor <= limit,
            limit == parse_limit_of(data@),
            limit <= data@.len(),
            avif_box_walk(data@, 0, limit as int) == avif_box_walk(
                data@,
                cursor as int,
                limit as int,
            ),
        decreases limit - cursor,
    {
        if cursor + 8 > limit {
            return false;
        }
        let size: u32 = (data[cursor] as u32) * 0x1000000 + (data[cursor + 1] as u32) * 0x10000 + (
        data[cursor + 2] as u32) * 0x100 + (data[cursor + 3] as u32);
        let rem: usize = limit - cursor;
        let header: usize;
        let box_end: usize;
        if size == 1 {
            if cursor + 16 > limit {
                return false;
            }
            let hi: u64 = (data[cursor + 8] as u64) * 0x1000000 + (data[cursor + 9] as u64)
                * 0x10000 + (data[cursor + 10] as u64) * 0x100 + (data[cursor + 11] as u64);
            let lo: u64 = (data[cursor + 12] as u64) * 0x1000000 + (data[cursor + 13] as u64)
                * 0x10000 + (data[cursor + 14] as u64) * 0x100 + (data[cursor + 15] as u64);
            let large: u64 = hi * 0x100000000 + lo;
            proof {
                assert(hi == be32(data@, cursor + 8));
                assert(lo == be32(data@, cursor + 12));
                assert(large == be64(data@, cursor + 8));
            }
            if large < 16 {
                return false;
            }
            if large > rem as u64 {
                return false;
            }
            header = 16;
            box_end = cursor + (large as usize);
        } else {
            if size < 8 {
                return false;
            }
            if size as u64 > rem as u64 {
                return false;
            }
            header = 8;
            box_end = cursor + (size as usize);
        }
        if ftyp_at(data, cursor + 4) {
            if cursor + header + 4 > box_end {
                return false;
            }
            if avif_brand_at(data, cursor + header) {
                return true;
            }
            if cursor + header + 8 <= box_end {
                return scan_brands(data, cursor + header + 8, box_end);
            }
            return false;
        }
        cursor = box_end;
    }
}

/// True when the data is recognised as AVIF, as [`spec_is_avif`]
/// describes.
fn detect_avif(data: &[u8]) -> (r: bool)
    ensures
        r == spec_is_avif(data@),
{
    let n = data.len();
    if n >= 12 && ftyp_at(data, 4) && avif_brand_at(data, 8) {
        return true;
    }
    if n < 16 {
        return false;
    }
    if avif_walk(data) {
        return true;
    }
    let limit: usize = if n < 4096 {
        n
    } else {
        4096
    };
    let scan_limit: usize = if limit < 64 {
        limit
    } else {
        64
    };
    let mut i: usize = 0;
    loop
        invariant
            i <= scan_limit,
            scan_limit <= data@.len(),
            scan_limit == if parse_limit_of(data@) < 64 {
                parse_limit_of(data@)
            } else {
                64
            },
            n == data@.len(),
            n >= 16,
            !(n >= 12 && is_ftyp(data@, 4) && is_avif_brand(data@, 8)),
            !avif_box_walk(data@, 0, parse_limit_of(data@)),
            raw_ftyp_scan(data@, 0, scan_limit as int) == raw_ftyp_scan(
                data@,
                i as int,
                scan_limit as int,
            ),
        decreases scan_limit - i,
    {
        if i + 8 > scan_limit {
            return false;
        }
        if ftyp_at(data, i) && avif_brand_at(data, i + 4) {
            return true;
        }
        i = i + 1;
    }
}

/// Detects the image format from the magic bytes of `data`.
///
/// At least four bytes are needed for any detection; the checks run
/// in the order of [`spec_detect_image_format`], JPEG first because it
/// is the most common format in this domain.  Succeeds exactly when
/// one of the eight signatures matches.
pub fn detect_image_format(data: &[u8]) -> (r: Result<ImageFormat, CbxError>)
    ensures
        match spec_detect_image_format(data@) {
            Some(f) => r == Ok::<ImageFormat, CbxError>(f),
            None => r matches Err(CbxError::Image(m)) && (data@.len() >= 4 ==> m@
                == "unrecognized image format; leading bytes: "@ + hex_dump_of(
                data@,
                0,
                dump_limit(data@.len() as int),
            )),
        },
{
    let n = data.len();
    if n == 0 {
        return Err(CbxError::Image("empty image data".to_owned()));
    }
    if n < 4 {
        return Err(CbxError::Image("insufficient data for format detection".to_owned()));
    }
    if data[0] == 0xFF && data[1] == 0xD8 && data[2] == 0xFF {
        return Ok(ImageFormat::Jpeg);
    }
    if n >= 8 && data[0] == 0x89 && data[1] == 0x50 && data[2] == 0x4E && data[3] == 0x47 && data[4]
        == 0x0D && data[5] == 0x0A && data[6] == 0x1A && data[7] == 0x0A {
        return Ok(ImageFormat::Png);
    }
    if data[0] == 0x47 && data[1] == 0x49 && data[2] == 0x46 && data[3] == 0x38 {
        return Ok(ImageFormat::Gif);
    }
    if data[0] == 0x42 && data[1] == 0x4D {
        return Ok(ImageFormat::Bmp);
    }
    if (data[0] == 0x49 && data[1] == 0x49 && data[2] == 0x2A && data[3] == 0x00) || (data[0]
        == 0x4D && data[1] == 0x4D && data[2] == 0x00 && data[3] == 0x2A) {
        return Ok(ImageFormat::Tiff);
    }
    if data[0] == 0x00 && data[1] == 0x00 && data[2] == 0x01 && data[3] == 0x00 {
        return Ok(ImageFormat::Ico);
    }
    if n >= 12 && data[0] == 0x52 && data[1] == 0x49 && data[2] == 0x46 && data[3] == 0x46
        && data[8] == 0x57 && data[9] == 0x45 && data[10] == 0x42 && data[11] == 0x50 {
        return Ok(ImageFormat::WebP);
    }
    if detect_avif(data) {
        return Ok(ImageFormat::Avif);
    }
    let mut message = "unrecognized image format; leading bytes: ".to_owned();
    let dump = hex_dump_prefix(data);
    message.append(dump.as_str());
    Err(CbxError::Image(message))
}

/// Checks whether a file name carries one of the supported image
/// extensions; the raster pipeline accepts exactly the same set as
/// the archive layer's entry filter.
pub fn is_image_file(filename: &str) -> (r: bool)
    ensures
        r == crate::selection::spec_is_image_name(filename@),
{
    crate::selection::is_image_file(filename)
}

/// Verifies that `data` is a recognisable image and reports its
/// format; equivalent to [`detect_image_format`] under a name that
/// states the intent of the caller.
pub fn verify_image_format(data: &[u8]) -> (r: Result<ImageFormat, CbxError>)
    ensures
        match spec_detect_image_format(data@) {
            Some(f) => r == Ok::<ImageFormat, CbxError>(f),
            None => r matches Err(CbxError::Image(_)),
        },
{
    detect_image_format(data)
}

} // verus!
