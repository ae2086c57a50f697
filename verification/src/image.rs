//! Image header parsing: the container format and pixel dimensions of a
//! PNG, JPEG, WebP or GIF image, read from its leading bytes without decoding
//! any pixel.
use vstd::prelude::*;

verus! {

pub open spec fn be16(a: u8, b: u8) -> int {
    a * 256 + b
}

pub open spec fn le16(a: u8, b: u8) -> int {
    b * 256 + a
}

pub open spec fn be32(a: u8, b: u8, c: u8, d: u8) -> int {
    a * 16777216 + b * 65536 + c * 256 + d
}

pub open spec fn le32(a: u8, b: u8, c: u8, d: u8) -> int {
    be32(d, c, b, a)
}

pub open spec fn le24(a: u8, b: u8, c: u8) -> int {
    c * 65536 + b * 256 + a
}

/// Whether `d[i..i + lit.len()]` equals `lit`.
pub open spec fn bytes_at(d: Seq<u8>, i: int, lit: Seq<u8>) -> bool {
    0 <= i && i + lit.len() <= d.len() && d.subrange(i, i + lit.len()) == lit
}

pub open spec fn png_signature() -> Seq<u8> {
    seq![0x89u8, 0x50, 0x4e, 0x47, 0x0d, 0x0a, 0x1a, 0x0a]
}

pub open spec fn ihdr_tag() -> Seq<u8> {
    seq![0x49u8, 0x48, 0x44, 0x52]
}

pub open spec fn riff_tag() -> Seq<u8> {
    seq![0x52u8, 0x49, 0x46, 0x46]
}

pub open spec fn webp_tag() -> Seq<u8> {
    seq![0x57u8, 0x45, 0x42, 0x50]
}

pub open spec fn gif87_tag() -> Seq<u8> {
    seq![0x47u8, 0x49, 0x46, 0x38, 0x37, 0x61]
}

pub open spec fn gif89_tag() -> Seq<u8> {
    seq![0x47u8, 0x49, 0x46, 0x38, 0x39, 0x61]
}

pub open spec fn vp8x_tag() -> Seq<u8> {
    seq![0x56u8, 0x50, 0x38, 0x58]
}

pub open spec fn vp8_tag() -> Seq<u8> {
    seq![0x56u8, 0x50, 0x38, 0x20]
}

pub open spec fn vp8l_tag() -> Seq<u8> {
    seq![0x56u8, 0x50, 0x38, 0x4c]
}

/// A JPEG start-of-frame marker (SOF0..SOF15 except DHT, JPG and DAC).
pub open spec fn is_sof_marker(m: u8) -> bool {
    0xc0 <= m && m <= 0xcf && m != 0xc4 && m != 0xc8 && m != 0xcc
}

/// A marker that carries no segment length.
pub open spec fn is_standalone_marker(m: u8) -> bool {
    m == 0xd8 || (0xd0 <= m && m <= 0xd7) || m == 0x01
}

/// How far position `i` is from the end of `d`, or zero past it.
pub open spec fn remaining(d: Seq<u8>, i: int) -> nat {
    if i < d.len() {
        (d.len() - i) as nat
    } else {
        0
    }
}

/// The JPEG marker walk from position `i`: `(width, height)` of the first
/// start-of-frame segment.
pub open spec fn jpeg_scan(d: Seq<u8>, i: int) -> Option<(u32, u32)>
    decreases remaining(d, i),
{
    if i < 0 || i + 4 > d.len() {
        None
    } else if d[i] != 0xff {
        jpeg_scan(d, i + 1)
    } else if is_standalone_marker(d[i + 1]) {
        jpeg_scan(d, i + 2)
    } else if is_sof_marker(d[i + 1]) {
        if i + 9 > d.len() {
            None
        } else {
            Some((be16(d[i + 7], d[i + 8]) as u32, be16(d[i + 5], d[i + 6]) as u32))
        }
    } else {
        jpeg_scan(d, i + 2 + be16(d[i + 2], d[i + 3]))
    }
}

/// The dimensions a WebP frame chunk declares, when `tag` names one.
pub open spec fn webp_chunk_size(tag: Seq<u8>, body: Seq<u8>) -> Option<Option<(u32, u32)>> {
    if tag == vp8x_tag() {
        Some(
            if body.len() >= 10 {
                Some(
                    (
                        (1 + le24(body[4], body[5], body[6])) as u32,
                        (1 + le24(body[7], body[8], body[9])) as u32,
                    ),
                )
            } else {
                None
            },
        )
    } else if tag == vp8_tag() {
        Some(
            if body.len() >= 10 && body[3] == 0x9d && body[4] == 0x01 && body[5] == 0x2a {
                Some(
                    (
                        (le16(body[6], body[7]) % 16384) as u32,
                        (le16(body[8], body[9]) % 16384) as u32,
                    ),
                )
            } else {
                None
            },
        )
    } else if tag == vp8l_tag() {
        Some(
            if body.len() >= 5 && body[0] == 0x2f {
                let bits = le32(body[1], body[2], body[3], body[4]);
                Some((((bits % 16384) + 1) as u32, (((bits / 16384) % 16384) + 1) as u32))
            } else {
                None
            },
        )
    } else {
        None
    }
}

/// The RIFF chunk walk from position `i`.
pub open spec fn webp_scan(d: Seq<u8>, i: int) -> Option<(u32, u32)>
    decreases remaining(d, i),
{
    if i < 0 || i + 8 > d.len() {
        None
    } else {
        match webp_chunk_size(d.subrange(i, i + 4), d.skip(i + 8)) {
            Some(found) => found,
            None => {
                let size = le32(d[i + 4], d[i + 5], d[i + 6], d[i + 7]);
                webp_scan(d, i + 8 + size + size % 2)
            },
        }
    }
}

pub enum ImageKind {
    Png,
    Jpeg,
    Webp,
    Gif,
}

/// The container and dimensions of an image.
pub open spec fn image_header(d: Seq<u8>) -> Option<(ImageKind, u32, u32)> {
    if d.len() >= 24 && bytes_at(d, 0, png_signature()) && bytes_at(d, 12, ihdr_tag()) {
        Some(
            (
                ImageKind::Png,
                be32(d[16], d[17], d[18], d[19]) as u32,
                be32(d[20], d[21], d[22], d[23]) as u32,
            ),
        )
    } else if d.len() >= 2 && d[0] == 0xff && d[1] == 0xd8 {
        match jpeg_scan(d, 2) {
            Some((w, h)) => Some((ImageKind::Jpeg, w, h)),
            None => None,
        }
    } else if d.len() >= 12 && bytes_at(d, 0, riff_tag()) && bytes_at(d, 8, webp_tag()) {
        match webp_scan(d, 12) {
            Some((w, h)) => Some((ImageKind::Webp, w, h)),
            None => None,
        }
    } else if d.len() >= 10 && (bytes_at(d, 0, gif87_tag()) || bytes_at(d, 0, gif89_tag())) {
        Some((ImageKind::Gif, le16(d[6], d[7]) as u32, le16(d[8], d[9]) as u32))
    } else {
        None
    }
}

/// A PNG declares its width and height as big-endian 32-bit numbers at
/// offsets 16 and 20, in its `IHDR` chunk; a GIF (`GIF87a` or `GIF89a`) as
/// little-endian 16-bit numbers at offsets 6 and 8; a JPEG whose first
/// segment is a start-of-frame gives its height and then its width as
/// big-endian 16-bit numbers at offsets 7 and 9.
pub proof fn law_png_gif_jpeg_dimensions(d: Seq<u8>)
    ensures
        d.len() >= 24 && d[0] == 0x89 && d[1] == 0x50 && d[2] == 0x4e && d[3] == 0x47 && d[4] == 0x0d
            && d[5] == 0x0a && d[6] == 0x1a && d[7] == 0x0a && d[12] == 0x49 && d[13] == 0x48 && d[14]
            == 0x44 && d[15] == 0x52 ==> image_header(d) == Some(
            (
                ImageKind::Png,
                (d[16] * 16777216 + d[17] * 65536 + d[18] * 256 + d[19]) as u32,
                (d[20] * 16777216 + d[21] * 65536 + d[22] * 256 + d[23]) as u32,
            ),
        ),
        d.len() >= 10 && d[0] == 0x47 && d[1] == 0x49 && d[2] == 0x46 && d[3] == 0x38 && (d[4] == 0x37
            || d[4] == 0x39) && d[5] == 0x61 ==> image_header(d) == Some(
            (ImageKind::Gif, (d[6] + d[7] * 256) as u32, (d[8] + d[9] * 256) as u32),
        ),
        d.len() >= 11 && d[0] == 0xff && d[1] == 0xd8 && d[2] == 0xff && 0xc0 <= d[3] <= 0xcf && d[3]
            != 0xc4 && d[3] != 0xc8 && d[3] != 0xcc ==> image_header(d) == Some(
            (ImageKind::Jpeg, (d[9] * 256 + d[10]) as u32, (d[7] * 256 + d[8]) as u32),
        ),
{
    if d.len() >= 24 && d[0] == 0x89 && d[1] == 0x50 && d[2] == 0x4e && d[3] == 0x47 && d[4] == 0x0d
        && d[5] == 0x0a && d[6] == 0x1a && d[7] == 0x0a && d[12] == 0x49 && d[13] == 0x48 && d[14]
        == 0x44 && d[15] == 0x52 {
        assert(d.subrange(0, 8) =~= png_signature());
        assert(d.subrange(12, 16) =~= ihdr_tag());
    }
    if d.len() >= 10 && d[0] == 0x47 && d[1] == 0x49 && d[2] == 0x46 && d[3] == 0x38 && (d[4] == 0x37
        || d[4] == 0x39) && d[5] == 0x61 {
        assert(!bytes_at(d, 0, png_signature())) by {
            if bytes_at(d, 0, png_signature()) {
                assert(d.subrange(0, 8)[0] == d[0]);
            }
        }
        assert(!bytes_at(d, 0, riff_tag())) by {
            if bytes_at(d, 0, riff_tag()) {
                assert(d.subrange(0, 4)[0] == d[0]);
            }
        }
        if d[4] == 0x37 {
            assert(d.subrange(0, 6) =~= gif87_tag());
        } else {
            assert(d.subrange(0, 6) =~= gif89_tag());
        }
    }
    if d.len() >= 11 && d[0] == 0xff && d[1] == 0xd8 {
        assert(!bytes_at(d, 0, png_signature())) by {
            if bytes_at(d, 0, png_signature()) {
                assert(d.subrange(0, 8)[0] == d[0]);
            }
        }
    }
}

/// A RIFF `WEBP` file whose first chunk is a lossy `VP8 ` frame (its frame
/// header a 3-byte tag, then the start code `9d 01 2a`) declares its width
/// in the low 14 bits of the little-endian 16-bit word at chunk body offset
/// 6, and its height in that of the word at offset 8; a lossless `VP8L`
/// frame (signature `2f`) packs width − 1 and height − 1 in 14 bits each of
/// the little-endian word after its signature; an extended `VP8X` chunk
/// holds width − 1 and height − 1 as little-endian 24-bit numbers at body
/// offsets 4 and 7.
pub proof fn law_webp_first_frame(d: Seq<u8>)
    requires
        d.len() >= 30,
        d[0] == 0x52 && d[1] == 0x49 && d[2] == 0x46 && d[3] == 0x46,
        d[8] == 0x57 && d[9] == 0x45 && d[10] == 0x42 && d[11] == 0x50,
        d[12] == 0x56 && d[13] == 0x50 && d[14] == 0x38,
    ensures
        d[15] == 0x20 && d[23] == 0x9d && d[24] == 0x01 && d[25] == 0x2a ==> image_header(d) == Some(
            (
                ImageKind::Webp,
                ((d[26] + d[27] * 256) % 16384) as u32,
                ((d[28] + d[29] * 256) % 16384) as u32,
            ),
        ),
        d[15] == 0x4c && d[20] == 0x2f ==> ({
            let bits = d[21] + d[22] * 256 + d[23] * 65536 + d[24] * 16777216;
            image_header(d) == Some(
                (ImageKind::Webp, (bits % 16384 + 1) as u32, ((bits / 16384) % 16384 + 1) as u32),
            )
        }),
        d[15] == 0x58 ==> image_header(d) == Some(
            (
                ImageKind::Webp,
                (d[24] + d[25] * 256 + d[26] * 65536 + 1) as u32,
                (d[27] + d[28] * 256 + d[29] * 65536 + 1) as u32,
            ),
        ),
{
    assert(!bytes_at(d, 0, png_signature())) by {
        if bytes_at(d, 0, png_signature()) {
            assert(d.subrange(0, 8)[0] == d[0]);
        }
    }
    assert(bytes_at(d, 0, riff_tag())) by {
        assert(d.subrange(0, 4) =~= riff_tag());
    }
    assert(bytes_at(d, 8, webp_tag())) by {
        assert(d.subrange(8, 12) =~= webp_tag());
    }
    let tag = d.subrange(12, 16);
    let body = d.skip(20);
    assert(body[3] == d[23] && body[4] == d[24] && body[5] == d[25] && body[6] == d[26] && body[7]
        == d[27] && body[8] == d[28] && body[9] == d[29] && body[0] == d[20] && body[1] == d[21]
        && body[2] == d[22]);
    if d[15] == 0x20 {
        assert(tag =~= vp8_tag());
        assert(tag != vp8x_tag()) by {
            assert(vp8x_tag()[3] == 0x58);
        }
    } else if d[15] == 0x4c {
        assert(tag =~= vp8l_tag());
        assert(tag != vp8x_tag()) by {
            assert(vp8x_tag()[3] == 0x58);
        }
        assert(tag != vp8_tag()) by {
            assert(vp8_tag()[3] == 0x20);
        }
    } else if d[15] == 0x58 {
        assert(tag =~= vp8x_tag());
    }
}

pub open spec fn kind_name(k: ImageKind) -> Seq<char> {
    match k {
        ImageKind::Png => "png"@,
        ImageKind::Jpeg => "jpeg"@,
        ImageKind::Webp => "webp"@,
        ImageKind::Gif => "gif"@,
    }
}

fn get_be16(d: &[u8], i: usize) -> (r: u32)
    requires
        i + 2 <= d@.len(),
    ensures
        r == be16(d@[i as int], d@[i + 1]),
{
    (d[i] as u32) * 256 + (d[i + 1] as u32)
}

fn get_le16(d: &[u8], i: usize) -> (r: u32)
    requires
        i + 2 <= d@.len(),
    ensures
        r == le16(d@[i as int], d@[i + 1]),
{
    let _n = d.len();
    (d[i + 1] as u32) * 256 + (d[i] as u32)
}

fn get_be32(d: &[u8], i: usize) -> (r: u32)
    requires
        i + 4 <= d@.len(),
    ensures
        r == be32(d@[i as int], d@[i + 1], d@[i + 2], d@[i + 3]),
{
    (d[i] as u32) * 16777216 + (d[i + 1] as u32) * 65536 + (d[i + 2] as u32) * 256 + (d[i
        + 3] as u32)
}

fn get_le32(d: &[u8], i: usize) -> (r: u32)
    requires
        i + 4 <= d@.len(),
    ensures
        r == le32(d@[i as int], d@[i + 1], d@[i + 2], d@[i + 3]),
{
    let _n = d.len();
    (d[i + 3] as u32) * 16777216 + (d[i + 2] as u32) * 65536 + (d[i + 1] as u32) * 256 + (
    d[i] as u32)
}

fn has_bytes(d: &[u8], i: usize, lit: &[u8]) -> (r: bool)
    ensures
        r == bytes_at(d@, i as int, lit@),
{
    if i > d.len() || lit.len() > d.len() - i {
        return false;
    }
    let mut j: usize = 0;
    while j < lit.len()
        invariant
            i + lit.len() <= d.len(),
            j <= lit.len(),
            forall|k: int| 0 <= k < j ==> d@[i + k] == lit@[k],
        decreases lit.len() - j,
    {
        if d[i + j] != lit[j] {
            assert(d@.subrange(i as int, i + lit@.len())[j as int] != lit@[j as int]);
            return false;
        }
        j = j + 1;
    }
    assert(d@.subrange(i as int, i + lit@.len()) =~= lit@);
    true
}

/// The width and height of the first JPEG start-of-frame segment.
pub fn parse_jpeg_size(data: &[u8]) -> (r: Option<(u32, u32)>)
    ensures
        r == jpeg_scan(data@, 2),
{
    let mut i: usize = 2;
    while i <= data.len() && 4 <= data.len() - i
        invariant
            2 <= i,
            jpeg_scan(data@, 2) == jpeg_scan(data@, i as int),
        decreases data.len() - i,
    {
        if data[i] != 0xff {
            i = i + 1;
            continue;
        }
        let marker = data[i + 1];
        if marker == 0xd8 || (0xd0 <= marker && marker <= 0xd7) || marker == 0x01 {
            i = i + 2;
            continue;
        }
        let seg_len = get_be16(data, i + 2);
        let is_sof = 0xc0 <= marker && marker <= 0xcf && marker != 0xc4 && marker != 0xc8
            && marker != 0xcc;
        if is_sof {
            if data.len() - i < 9 {
                return None;
            }
            let height = get_be16(data, i + 5);
            let width = get_be16(data, i + 7);
            return Some((width, height));
        }
        let next: u128 = i as u128 + 2 + seg_len as u128;
        if next > data.len() as u128 {
            assert(jpeg_scan(data@, next as int) is None);
            return None;
        }
        i = next as usize;
    }
    None
}

/// The width and height declared by the first VP8X, VP8 or VP8L chunk.
pub fn parse_webp_size(data: &[u8]) -> (r: Option<(u32, u32)>)
    ensures
        r == webp_scan(data@, 12),
{
    let mut i: usize = 12;
    let vp8x: [u8; 4] = [0x56, 0x50, 0x38, 0x58];
    let vp8: [u8; 4] = [0x56, 0x50, 0x38, 0x20];
    let vp8l: [u8; 4] = [0x56, 0x50, 0x38, 0x4c];
    assert(vp8x@ == vp8x_tag());
    assert(vp8@ == vp8_tag());
    assert(vp8l@ == vp8l_tag());
    while i <= data.len() && 8 <= data.len() - i
        invariant
            12 <= i,
            vp8x@ == vp8x_tag(),
            vp8@ == vp8_tag(),
            vp8l@ == vp8l_tag(),
            webp_scan(data@, 12) == webp_scan(data@, i as int),
        decreases data.len() - i,
    {
        let size = get_le32(data, i + 4);
        let body = i + 8;
        let ghost tag = data@.subrange(i as int, i + 4);
        let ghost rest = data@.skip(i + 8);
        assert(bytes_at(data@, i as int, vp8x_tag()) == (tag == vp8x_tag()));
        assert(bytes_at(data@, i as int, vp8_tag()) == (tag == vp8_tag()));
        assert(bytes_at(data@, i as int, vp8l_tag()) == (tag == vp8l_tag()));
        if has_bytes(data, i, vp8x.as_slice()) {
            if data.len() - body >= 10 {
                let w = (data[body + 4] as u32) + (data[body + 5] as u32) * 256 + (data[body
                    + 6] as u32) * 65536 + 1;
                let h = (data[body + 7] as u32) + (data[body + 8] as u32) * 256 + (data[body
                    + 9] as u32) * 65536 + 1;
                assert(rest[4] == data@[body + 4]);
                assert(rest[5] == data@[body + 5]);
                assert(rest[6] == data@[body + 6]);
                assert(rest[7] == data@[body + 7]);
                assert(rest[8] == data@[body + 8]);
                assert(rest[9] == data@[body + 9]);
                return Some((w, h));
            }
            return None;
        }
        if has_bytes(data, i, vp8.as_slice()) {
            if data.len() - body >= 10 && data[body + 3] == 0x9d && data[body + 4] == 0x01
                && data[body + 5] == 0x2a {
                let w = get_le16(data, body + 6) % 16384;
                let h = get_le16(data, body + 8) % 16384;
                assert(rest[6] == data@[body + 6]);
                assert(rest[7] == data@[body + 7]);
                assert(rest[8] == data@[body + 8]);
                assert(rest[9] == data@[body + 9]);
                return Some((w, h));
            }
            assert(data.len() - body >= 10 ==> rest[3] == data@[body + 3] && rest[4]
                == data@[body + 4] && rest[5] == data@[body + 5]);
            return None;
        }
        if has_bytes(data, i, vp8l.as_slice()) {
            if data.len() - body >= 5 && data[body] == 0x2f {
                let bits = get_le32(data, body + 1);
                let w = bits % 16384 + 1;
                let h = (bits / 16384) % 16384 + 1;
                assert(rest[1] == data@[body + 1]);
                assert(rest[2] == data@[body + 2]);
                assert(rest[3] == data@[body + 3]);
                assert(rest[4] == data@[body + 4]);
                return Some((w, h));
            }
            assert(data.len() - body >= 5 ==> rest[0] == data@[body as int]);
            return None;
        }
        let next: u128 = i as u128 + 8 + size as u128 + (size % 2) as u128;
        if next > data.len() as u128 {
            assert(webp_scan(data@, next as int) is None);
            return None;
        }
        i = next as usize;
    }
    None
}

/// Returns `Some((format, width, height))` when the leading bytes identify a
/// supported raster format.
pub fn parse_image_header(data: &[u8]) -> (r: Option<(&'static str, u32, u32)>)
    ensures
        match image_header(data@) {
            Some((k, w, h)) => r matches Some((f, rw, rh)) && f@ == kind_name(k) && rw == w
                && rh == h,
            None => r is None,
        },
{
    let png: [u8; 8] = [0x89, 0x50, 0x4e, 0x47, 0x0d, 0x0a, 0x1a, 0x0a];
    let ihdr: [u8; 4] = [0x49, 0x48, 0x44, 0x52];
    let riff: [u8; 4] = [0x52, 0x49, 0x46, 0x46];
    let webp: [u8; 4] = [0x57, 0x45, 0x42, 0x50];
    let gif87: [u8; 6] = [0x47, 0x49, 0x46, 0x38, 0x37, 0x61];
    let gif89: [u8; 6] = [0x47, 0x49, 0x46, 0x38, 0x39, 0x61];
    assert(png@ == png_signature());
    assert(ihdr@ == ihdr_tag());
    assert(riff@ == riff_tag());
    assert(webp@ == webp_tag());
    assert(gif87@ == gif87_tag());
    assert(gif89@ == gif89_tag());
    if data.len() >= 24 && has_bytes(data, 0, png.as_slice()) && has_bytes(
        data,
        12,
        ihdr.as_slice(),
    ) {
        let w = get_be32(data, 16);
        let h = get_be32(data, 20);
        return Some(("png", w, h));
    }
    if data.len() >= 2 && data[0] == 0xff && data[1] == 0xd8 {
        return match parse_jpeg_size(data) {
            Some((w, h)) => Some(("jpeg", w, h)),
            None => None,
        };
    }
    if data.len() >= 12 && has_bytes(data, 0, riff.as_slice()) && has_bytes(
        data,
        8,
        webp.as_slice(),
    ) {
        return match parse_webp_size(data) {
            Some((w, h)) => Some(("webp", w, h)),
            None => None,
        };
    }
    if data.len() >= 10 && (has_bytes(data, 0, gif87.as_slice()) || has_bytes(
        data,
        0,
        gif89.as_slice(),
    )) {
        let w = get_le16(data, 6);
        let h = get_le16(data, 8);
        return Some(("gif", w, h));
    }
    None
}

} // verus!
