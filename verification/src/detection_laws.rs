//! What content detection reports for each file signature, stated with the
//! signature's bytes and the content type's text.

use vstd::prelude::*;
use crate::content::{
    spec_detect, spec_is_likely_text, seq_at,
    AAC_ADTS, AR, AVI, BMP, BOX_18, BOX_20, BZIP2, DMG, DOCTYPE, ELF, FLAC, FLV, FTYP, FTYP_AVIF, FTYP_HEIC,
    FTYP_HEIF, FTYP_ISOM, FTYP_M4V, FTYP_MP42, FTYP_QT, GIF87A, GIF89A, GZIP, HTML_LOWER, HTML_UPPER, ICO,
    ID3, JPEG, JXL, M4A, MATROSKA, MIDI, MP3_FRAME, MPEG_PS, MZ, OGG, OLE, OTTO, PDF, PNG, RAR, RIFF, RPM,
    SEVEN_Z, SVG_TAG, SWF, TIFF_BE, TIFF_LE, TTF, USTAR, WASM, WAVE, WEBP, WOFF, WOFF2, XML_DECL, XZ,
    YAML_START, ZIP,
};

verus! {

/// A window that differs from the pattern at position `j` is not the pattern.
proof fn lemma_not_at(data: Seq<u8>, lo: int, hi: int, pat: Seq<u8>, j: int)
    requires
        0 <= lo,
        0 <= j < hi - lo,
        hi <= data.len(),
        pat.len() == hi - lo,
        data[lo + j] != pat[j],
    ensures
        !seq_at(data, lo, hi, pat),
{
    assert(data.subrange(lo, hi)[j] == data[lo + j]);
}

/// An eight-byte window at byte 4 that does not begin with `ftyp` is not an
/// `ftyp` brand.
proof fn lemma_not_prefix4(data: Seq<u8>, lo: int, hi: int, pat: Seq<u8>)
    requires
        lo == 4,
        hi == 12,
        data.len() >= 12,
        pat.len() == 8,
        pat[0] == 102 && pat[1] == 116 && pat[2] == 121 && pat[3] == 112,
        !(data[4] == 102 && data[5] == 116 && data[6] == 121 && data[7] == 112),
    ensures
        !seq_at(data, lo, hi, pat),
{
    let w = data.subrange(lo, hi);
    assert(w[0] == data[4] && w[1] == data[5] && w[2] == data[6] && w[3] == data[7]);
}

/// Data without the `ustar` mark at byte 257 is not a tar archive.
proof fn lemma_not_ustar(data: Seq<u8>)
    requires
        data.len() >= 262,
        !(data[257] == 117 && data[258] == 115 && data[259] == 116 && data[260] == 97 && data[261] == 114),
    ensures
        !seq_at(data, 257, 262, USTAR@),
{
    let w = data.subrange(257, 262);
    assert(w[0] == data[257] && w[1] == data[258] && w[2] == data[259] && w[3] == data[260] && w[4] == data[261]);
}

/// PNG images are reported as `image/png`.
pub proof fn lemma_detects_png(data: Seq<u8>)
    requires
        data.len() >= 8,
        data[0] == 137,
        data[1] == 80,
        data[2] == 78,
        data[3] == 71,
        data[4] == 13,
        data[5] == 10,
        data[6] == 26,
        data[7] == 10,
    ensures
        spec_detect(data) == "image/png"@,
{
    assert(data.subrange(0, 8) =~= PNG@);
}

/// JPEG images are reported as `image/jpeg`.
pub proof fn lemma_detects_jpeg(data: Seq<u8>)
    requires
        data.len() >= 3,
        data[0] == 255,
        data[1] == 216,
        data[2] == 255,
    ensures
        spec_detect(data) == "image/jpeg"@,
{
    if data.len() >= 8 {
        lemma_not_at(data, 0, 8, PNG@, 0);
    }
    assert(data.subrange(0, 3) =~= JPEG@);
}

/// GIF87a images are reported as `image/gif`.
pub proof fn lemma_detects_gif87a(data: Seq<u8>)
    requires
        data.len() >= 6,
        data[0] == 71,
        data[1] == 73,
        data[2] == 70,
        data[3] == 56,
        data[4] == 55,
        data[5] == 97,
    ensures
        spec_detect(data) == "image/gif"@,
{
    if data.len() >= 8 {
        lemma_not_at(data, 0, 8, PNG@, 0);
    }
    lemma_not_at(data, 0, 3, JPEG@, 0);
    assert(data.subrange(0, 6) =~= GIF87A@);
}

/// GIF89a images are reported as `image/gif`.
pub proof fn lemma_detects_gif89a(data: Seq<u8>)
    requires
        data.len() >= 6,
        data[0] == 71,
        data[1] == 73,
        data[2] == 70,
        data[3] == 56,
        data[4] == 57,
        data[5] == 97,
    ensures
        spec_detect(data) == "image/gif"@,
{
    if data.len() >= 8 {
        lemma_not_at(data, 0, 8, PNG@, 0);
    }
    lemma_not_at(data, 0, 3, JPEG@, 0);
    lemma_not_at(data, 0, 6, GIF87A@, 4);
    assert(data.subrange(0, 6) =~= GIF89A@);
}

/// WebP images are reported as `image/webp`.
pub proof fn lemma_detects_webp(data: Seq<u8>)
    requires
        data.len() >= 12,
        data[0] == 82,
        data[1] == 73,
        data[2] == 70,
        data[3] == 70,
        data[8] == 87,
        data[9] == 69,
        data[10] == 66,
        data[11] == 80,
    ensures
        spec_detect(data) == "image/webp"@,
{
    lemma_not_at(data, 0, 8, PNG@, 0);
    lemma_not_at(data, 0, 3, JPEG@, 0);
    lemma_not_at(data, 0, 6, GIF87A@, 0);
    lemma_not_at(data, 0, 6, GIF89A@, 0);
    assert(data.subrange(0, 4) =~= RIFF@);
    assert(data.subrange(8, 12) =~= WEBP@);
}

/// BMP images are reported as `image/bmp`.
pub proof fn lemma_detects_bmp(data: Seq<u8>)
    requires
        data.len() >= 2,
        data[0] == 66,
        data[1] == 77,
    ensures
        spec_detect(data) == "image/bmp"@,
{
    if data.len() >= 8 {
        lemma_not_at(data, 0, 8, PNG@, 0);
    }
    if data.len() >= 3 {
        lemma_not_at(data, 0, 3, JPEG@, 0);
    }
    if data.len() >= 6 {
        lemma_not_at(data, 0, 6, GIF87A@, 0);
    }
    if data.len() >= 6 {
        lemma_not_at(data, 0, 6, GIF89A@, 0);
    }
    if data.len() >= 12 {
        lemma_not_at(data, 0, 4, RIFF@, 0);
    }
    assert(data.subrange(0, 2) =~= BMP@);
}

/// Icons are reported as `image/x-icon`.
pub proof fn lemma_detects_ico(data: Seq<u8>)
    requires
        data.len() >= 4,
        data[0] == 0,
        data[1] == 0,
        data[2] == 1,
        data[3] == 0,
    ensures
        spec_detect(data) == "image/x-icon"@,
{
    if data.len() >= 8 {
        lemma_not_at(data, 0, 8, PNG@, 0);
    }
    lemma_not_at(data, 0, 3, JPEG@, 0);
    if data.len() >= 6 {
        lemma_not_at(data, 0, 6, GIF87A@, 0);
    }
    if data.len() >= 6 {
        lemma_not_at(data, 0, 6, GIF89A@, 0);
    }
    if data.len() >= 12 {
        lemma_not_at(data, 0, 4, RIFF@, 0);
    }
    lemma_not_at(data, 0, 2, BMP@, 0);
    assert(data.subrange(0, 4) =~= ICO@);
}

/// Little-endian TIFF images (of at least 12 bytes) are reported as `image/tiff`.
pub proof fn lemma_detects_tiff_le(data: Seq<u8>)
    requires
        data.len() >= 12,
        data[0] == 73,
        data[1] == 73,
        data[2] == 42,
        data[3] == 0,
    ensures
        spec_detect(data) == "image/tiff"@,
{
    if data.len() >= 8 {
        lemma_not_at(data, 0, 8, PNG@, 0);
    }
    lemma_not_at(data, 0, 3, JPEG@, 0);
    if data.len() >= 6 {
        lemma_not_at(data, 0, 6, GIF87A@, 0);
    }
    if data.len() >= 6 {
        lemma_not_at(data, 0, 6, GIF89A@, 0);
    }
    if data.len() >= 12 {
        lemma_not_at(data, 0, 4, RIFF@, 0);
    }
    lemma_not_at(data, 0, 2, BMP@, 0);
    lemma_not_at(data, 0, 4, ICO@, 0);
    assert(data.subrange(0, 4) =~= TIFF_LE@);
}

/// Big-endian TIFF images (of at least 12 bytes) are reported as `image/tiff`.
pub proof fn lemma_detects_tiff_be(data: Seq<u8>)
    requires
        data.len() >= 12,
        data[0] == 77,
        data[1] == 77,
        data[2] == 0,
        data[3] == 42,
    ensures
        spec_detect(data) == "image/tiff"@,
{
    if data.len() >= 8 {
        lemma_not_at(data, 0, 8, PNG@, 0);
    }
    lemma_not_at(data, 0, 3, JPEG@, 0);
    if data.len() >= 6 {
        lemma_not_at(data, 0, 6, GIF87A@, 0);
    }
    if data.len() >= 6 {
        lemma_not_at(data, 0, 6, GIF89A@, 0);
    }
    if data.len() >= 12 {
        lemma_not_at(data, 0, 4, RIFF@, 0);
    }
    lemma_not_at(data, 0, 2, BMP@, 0);
    lemma_not_at(data, 0, 4, ICO@, 0);
    lemma_not_at(data, 0, 4, TIFF_LE@, 0);
    assert(data.subrange(0, 4) =~= TIFF_BE@);
}

/// JPEG XL images are reported as `image/jxl`.
pub proof fn lemma_detects_jxl(data: Seq<u8>)
    requires
        data.len() >= 12,
        data[0] == 255,
        data[1] == 10,
        data[2] == 0,
        data[3] == 0,
        data[4] == 0,
        data[5] == 0,
        data[6] == 0,
        data[7] == 0,
        data[8] == 0,
        data[9] == 0,
        data[10] == 0,
        data[11] == 0,
    ensures
        spec_detect(data) == "image/jxl"@,
{
    lemma_not_at(data, 0, 8, PNG@, 0);
    lemma_not_at(data, 0, 3, JPEG@, 1);
    lemma_not_at(data, 0, 6, GIF87A@, 0);
    lemma_not_at(data, 0, 6, GIF89A@, 0);
    lemma_not_at(data, 0, 4, RIFF@, 0);
    lemma_not_at(data, 0, 2, BMP@, 0);
    lemma_not_at(data, 0, 4, ICO@, 0);
    lemma_not_at(data, 0, 4, TIFF_LE@, 0);
    lemma_not_at(data, 0, 4, TIFF_BE@, 0);
    lemma_not_at(data, 4, 12, FTYP_AVIF@, 0);
    lemma_not_at(data, 4, 12, FTYP_HEIC@, 0);
    lemma_not_at(data, 4, 12, FTYP_HEIF@, 0);
    assert(data.subrange(0, 12) =~= JXL@);
}

/// SVG images are reported as `image/svg+xml`.
pub proof fn lemma_detects_svg(data: Seq<u8>)
    requires
        data.len() >= 4,
        data[0] == 60,
        data[1] == 115,
        data[2] == 118,
        data[3] == 103,
        data.len() >= 12 ==> !(data[4] == 102 && data[5] == 116 && data[6] == 121 && data[7] == 112),
    ensures
        spec_detect(data) == "image/svg+xml"@,
{
    if data.len() >= 8 {
        lemma_not_at(data, 0, 8, PNG@, 0);
    }
    lemma_not_at(data, 0, 3, JPEG@, 0);
    if data.len() >= 6 {
        lemma_not_at(data, 0, 6, GIF87A@, 0);
    }
    if data.len() >= 6 {
        lemma_not_at(data, 0, 6, GIF89A@, 0);
    }
    if data.len() >= 12 {
        lemma_not_at(data, 0, 4, RIFF@, 0);
    }
    lemma_not_at(data, 0, 2, BMP@, 0);
    lemma_not_at(data, 0, 4, ICO@, 0);
    lemma_not_at(data, 0, 4, TIFF_LE@, 0);
    lemma_not_at(data, 0, 4, TIFF_BE@, 0);
    if data.len() >= 12 {
        lemma_not_prefix4(data, 4, 12, FTYP_AVIF@);
    }
    if data.len() >= 12 {
        lemma_not_prefix4(data, 4, 12, FTYP_HEIC@);
    }
    if data.len() >= 12 {
        lemma_not_prefix4(data, 4, 12, FTYP_HEIF@);
    }
    if data.len() >= 12 {
        lemma_not_at(data, 0, 12, JXL@, 0);
    }
    if data.len() >= 5 {
        lemma_not_at(data, 0, 5, XML_DECL@, 1);
    }
    assert(data.subrange(0, 4) =~= SVG_TAG@);
}

/// QuickTime movies are reported as `video/quicktime`.
pub proof fn lemma_detects_quicktime(data: Seq<u8>)
    requires
        data.len() >= 12,
        data[0] == 0,
        data[1] == 0,
        data[2] == 0,
        data[3] == 24,
        data[4] == 102,
        data[5] == 116,
        data[6] == 121,
        data[7] == 112,
        data[8] == 113,
        data[9] == 116,
        data[10] == 32,
        data[11] == 32,
    ensures
        spec_detect(data) == "video/quicktime"@,
{
    lemma_not_at(data, 0, 8, PNG@, 0);
    lemma_not_at(data, 0, 3, JPEG@, 0);
    lemma_not_at(data, 0, 6, GIF87A@, 0);
    lemma_not_at(data, 0, 6, GIF89A@, 0);
    lemma_not_at(data, 0, 4, RIFF@, 0);
    lemma_not_at(data, 0, 2, BMP@, 0);
    lemma_not_at(data, 0, 4, ICO@, 2);
    lemma_not_at(data, 0, 4, TIFF_LE@, 0);
    lemma_not_at(data, 0, 4, TIFF_BE@, 0);
    lemma_not_at(data, 4, 12, FTYP_AVIF@, 4);
    lemma_not_at(data, 4, 12, FTYP_HEIC@, 4);
    lemma_not_at(data, 4, 12, FTYP_HEIF@, 4);
    lemma_not_at(data, 0, 12, JXL@, 0);
    lemma_not_at(data, 0, 5, XML_DECL@, 0);
    lemma_not_at(data, 0, 4, SVG_TAG@, 0);
    lemma_not_at(data, 0, 4, BOX_20@, 3);
    assert(data.subrange(0, 4) =~= BOX_18@);
    assert(data.subrange(4, 12) =~= FTYP_QT@);
}

/// Matroska videos are reported as `video/x-matroska`.
pub proof fn lemma_detects_matroska(data: Seq<u8>)
    requires
        data.len() >= 4,
        data[0] == 26,
        data[1] == 69,
        data[2] == 223,
        data[3] == 163,
        data.len() >= 12 ==> !(data[4] == 102 && data[5] == 116 && data[6] == 121 && data[7] == 112),
    ensures
        spec_detect(data) == "video/x-matroska"@,
{
    if data.len() >= 8 {
        lemma_not_at(data, 0, 8, PNG@, 0);
    }
    lemma_not_at(data, 0, 3, JPEG@, 0);
    if data.len() >= 6 {
        lemma_not_at(data, 0, 6, GIF87A@, 0);
    }
    if data.len() >= 6 {
        lemma_not_at(data, 0, 6, GIF89A@, 0);
    }
    if data.len() >= 12 {
        lemma_not_at(data, 0, 4, RIFF@, 0);
    }
    lemma_not_at(data, 0, 2, BMP@, 0);
    lemma_not_at(data, 0, 4, ICO@, 0);
    lemma_not_at(data, 0, 4, TIFF_LE@, 0);
    lemma_not_at(data, 0, 4, TIFF_BE@, 0);
    if data.len() >= 12 {
        lemma_not_prefix4(data, 4, 12, FTYP_AVIF@);
    }
    if data.len() >= 12 {
        lemma_not_prefix4(data, 4, 12, FTYP_HEIC@);
    }
    if data.len() >= 12 {
        lemma_not_prefix4(data, 4, 12, FTYP_HEIF@);
    }
    if data.len() >= 12 {
        lemma_not_at(data, 0, 12, JXL@, 0);
    }
    if data.len() >= 5 {
        lemma_not_at(data, 0, 5, XML_DECL@, 0);
    }
    lemma_not_at(data, 0, 4, SVG_TAG@, 0);
    lemma_not_at(data, 0, 4, BOX_20@, 0);
    if data.len() >= 12 {
        lemma_not_at(data, 0, 4, BOX_18@, 0);
    }
    assert(data.subrange(0, 4) =~= MATROSKA@);
}

/// Flash videos are reported as `video/x-flv`.
pub proof fn lemma_detects_flv(data: Seq<u8>)
    requires
        data.len() >= 3,
        data[0] == 70,
        data[1] == 76,
        data[2] == 86,
        data.len() >= 12 ==> !(data[4] == 102 && data[5] == 116 && data[6] == 121 && data[7] == 112),
    ensures
        spec_detect(data) == "video/x-flv"@,
{
    if data.len() >= 8 {
        lemma_not_at(data, 0, 8, PNG@, 0);
    }
    lemma_not_at(data, 0, 3, JPEG@, 0);
    if data.len() >= 6 {
        lemma_not_at(data, 0, 6, GIF87A@, 0);
    }
    if data.len() >= 6 {
        lemma_not_at(data, 0, 6, GIF89A@, 0);
    }
    if data.len() >= 12 {
        lemma_not_at(data, 0, 4, RIFF@, 0);
    }
    lemma_not_at(data, 0, 2, BMP@, 0);
    if data.len() >= 4 {
        lemma_not_at(data, 0, 4, ICO@, 0);
    }
    if data.len() >= 4 {
        lemma_not_at(data, 0, 4, TIFF_LE@, 0);
    }
    if data.len() >= 4 {
        lemma_not_at(data, 0, 4, TIFF_BE@, 0);
    }
    if data.len() >= 12 {
        lemma_not_prefix4(data, 4, 12, FTYP_AVIF@);
    }
    if data.len() >= 12 {
        lemma_not_prefix4(data, 4, 12, FTYP_HEIC@);
    }
    if data.len() >= 12 {
        lemma_not_prefix4(data, 4, 12, FTYP_HEIF@);
    }
    if data.len() >= 12 {
        lemma_not_at(data, 0, 12, JXL@, 0);
    }
    if data.len() >= 5 {
        lemma_not_at(data, 0, 5, XML_DECL@, 0);
    }
    if data.len() >= 4 {
        lemma_not_at(data, 0, 4, SVG_TAG@, 0);
    }
    if data.len() >= 4 {
        lemma_not_at(data, 0, 4, BOX_20@, 0);
    }
    if data.len() >= 12 {
        lemma_not_at(data, 0, 4, BOX_18@, 0);
    }
    if data.len() >= 4 {
        lemma_not_at(data, 0, 4, MATROSKA@, 0);
    }
    assert(data.subrange(0, 3) =~= FLV@);
}

/// AVI videos are reported as `video/x-msvideo`.
pub proof fn lemma_detects_avi(data: Seq<u8>)
    requires
        data.len() >= 12,
        data[0] == 82,
        data[1] == 73,
        data[2] == 70,
        data[3] == 70,
        data[8] == 65,
        data[9] == 86,
        data[10] == 73,
        data[11] == 32,
    ensures
        spec_detect(data) == "video/x-msvideo"@,
{
    lemma_not_at(data, 0, 8, PNG@, 0);
    lemma_not_at(data, 0, 3, JPEG@, 0);
    lemma_not_at(data, 0, 6, GIF87A@, 0);
    lemma_not_at(data, 0, 6, GIF89A@, 0);
    lemma_not_at(data, 8, 12, WEBP@, 0);
    lemma_not_at(data, 0, 2, BMP@, 0);
    lemma_not_at(data, 0, 4, ICO@, 0);
    lemma_not_at(data, 0, 4, TIFF_LE@, 0);
    lemma_not_at(data, 0, 4, TIFF_BE@, 0);
    lemma_not_at(data, 4, 12, FTYP_AVIF@, 4);
    lemma_not_at(data, 4, 12, FTYP_HEIC@, 4);
    lemma_not_at(data, 4, 12, FTYP_HEIF@, 4);
    lemma_not_at(data, 0, 12, JXL@, 0);
    lemma_not_at(data, 0, 5, XML_DECL@, 0);
    lemma_not_at(data, 0, 4, SVG_TAG@, 0);
    lemma_not_at(data, 0, 4, BOX_20@, 0);
    lemma_not_at(data, 0, 4, BOX_18@, 0);
    lemma_not_at(data, 0, 4, MATROSKA@, 0);
    lemma_not_at(data, 0, 3, FLV@, 0);
    assert(data.subrange(0, 4) =~= RIFF@);
    assert(data.subrange(8, 12) =~= AVI@);
}

/// WAV audio is reported as `audio/wav`.
pub proof fn lemma_detects_wav(data: Seq<u8>)
    requires
        data.len() >= 12,
        data[0] == 82,
        data[1] == 73,
        data[2] == 70,
        data[3] == 70,
        data[8] == 87,
        data[9] == 65,
        data[10] == 86,
        data[11] == 69,
    ensures
        spec_detect(data) == "audio/wav"@,
{
    lemma_not_at(data, 0, 8, PNG@, 0);
    lemma_not_at(data, 0, 3, JPEG@, 0);
    lemma_not_at(data, 0, 6, GIF87A@, 0);
    lemma_not_at(data, 0, 6, GIF89A@, 0);
    lemma_not_at(data, 8, 12, WEBP@, 1);
    lemma_not_at(data, 0, 2, BMP@, 0);
    lemma_not_at(data, 0, 4, ICO@, 0);
    lemma_not_at(data, 0, 4, TIFF_LE@, 0);
    lemma_not_at(data, 0, 4, TIFF_BE@, 0);
    lemma_not_at(data, 4, 12, FTYP_AVIF@, 4);
    lemma_not_at(data, 4, 12, FTYP_HEIC@, 4);
    lemma_not_at(data, 4, 12, FTYP_HEIF@, 4);
    lemma_not_at(data, 0, 12, JXL@, 0);
    lemma_not_at(data, 0, 5, XML_DECL@, 0);
    lemma_not_at(data, 0, 4, SVG_TAG@, 0);
    lemma_not_at(data, 0, 4, BOX_20@, 0);
    lemma_not_at(data, 0, 4, BOX_18@, 0);
    lemma_not_at(data, 0, 4, MATROSKA@, 0);
    lemma_not_at(data, 0, 3, FLV@, 0);
    lemma_not_at(data, 8, 12, AVI@, 0);
    assert(data.subrange(0, 4) =~= RIFF@);
    assert(data.subrange(8, 12) =~= WAVE@);
}

/// MPEG program streams are reported as `video/mpeg`.
pub proof fn lemma_detects_mpeg(data: Seq<u8>)
    requires
        data.len() >= 4,
        data[0] == 0,
        data[1] == 0,
        data[2] == 1,
        data[3] == 186,
        data.len() >= 12 ==> !(data[4] == 102 && data[5] == 116 && data[6] == 121 && data[7] == 112),
    ensures
        spec_detect(data) == "video/mpeg"@,
{
    if data.len() >= 8 {
        lemma_not_at(data, 0, 8, PNG@, 0);
    }
    lemma_not_at(data, 0, 3, JPEG@, 0);
    if data.len() >= 6 {
        lemma_not_at(data, 0, 6, GIF87A@, 0);
    }
    if data.len() >= 6 {
        lemma_not_at(data, 0, 6, GIF89A@, 0);
    }
    if data.len() >= 12 {
        lemma_not_at(data, 0, 4, RIFF@, 0);
    }
    lemma_not_at(data, 0, 2, BMP@, 0);
    lemma_not_at(data, 0, 4, ICO@, 3);
    lemma_not_at(data, 0, 4, TIFF_LE@, 0);
    lemma_not_at(data, 0, 4, TIFF_BE@, 0);
    if data.len() >= 12 {
        lemma_not_prefix4(data, 4, 12, FTYP_AVIF@);
    }
    if data.len() >= 12 {
        lemma_not_prefix4(data, 4, 12, FTYP_HEIC@);
    }
    if data.len() >= 12 {
        lemma_not_prefix4(data, 4, 12, FTYP_HEIF@);
    }
    if data.len() >= 12 {
        lemma_not_at(data, 0, 12, JXL@, 0);
    }
    if data.len() >= 5 {
        lemma_not_at(data, 0, 5, XML_DECL@, 0);
    }
    lemma_not_at(data, 0, 4, SVG_TAG@, 0);
    lemma_not_at(data, 0, 4, BOX_20@, 2);
    if data.len() >= 12 {
        lemma_not_at(data, 0, 4, BOX_18@, 2);
    }
    lemma_not_at(data, 0, 4, MATROSKA@, 0);
    lemma_not_at(data, 0, 3, FLV@, 0);
    if data.len() >= 12 {
        lemma_not_at(data, 0, 4, RIFF@, 0);
    }
    if data.len() >= 12 {
        lemma_not_at(data, 0, 4, RIFF@, 0);
    }
    assert(data.subrange(0, 4) =~= MPEG_PS@);
}

/// MP3 audio with an ID3 tag is reported as `audio/mpeg`.
pub proof fn lemma_detects_id3(data: Seq<u8>)
    requires
        data.len() >= 3,
        data[0] == 73,
        data[1] == 68,
        data[2] == 51,
        data.len() >= 12 ==> !(data[4] == 102 && data[5] == 116 && data[6] == 121 && data[7] == 112),
    ensures
        spec_detect(data) == "audio/mpeg"@,
{
    if data.len() >= 8 {
        lemma_not_at(data, 0, 8, PNG@, 0);
    }
    lemma_not_at(data, 0, 3, JPEG@, 0);
    if data.len() >= 6 {
        lemma_not_at(data, 0, 6, GIF87A@, 0);
    }
    if data.len() >= 6 {
        lemma_not_at(data, 0, 6, GIF89A@, 0);
    }
    if data.len() >= 12 {
        lemma_not_at(data, 0, 4, RIFF@, 0);
    }
    lemma_not_at(data, 0, 2, BMP@, 0);
    if data.len() >= 4 {
        lemma_not_at(data, 0, 4, ICO@, 0);
    }
    if data.len() >= 4 {
        lemma_not_at(data, 0, 4, TIFF_LE@, 1);
    }
    if data.len() >= 4 {
        lemma_not_at(data, 0, 4, TIFF_BE@, 0);
    }
    if data.len() >= 12 {
        lemma_not_prefix4(data, 4, 12, FTYP_AVIF@);
    }
    if data.len() >= 12 {
        lemma_not_prefix4(data, 4, 12, FTYP_HEIC@);
    }
    if data.len() >= 12 {
        lemma_not_prefix4(data, 4, 12, FTYP_HEIF@);
    }
    if data.len() >= 12 {
        lemma_not_at(data, 0, 12, JXL@, 0);
    }
    if data.len() >= 5 {
        lemma_not_at(data, 0, 5, XML_DECL@, 0);
    }
    if data.len() >= 4 {
        lemma_not_at(data, 0, 4, SVG_TAG@, 0);
    }
    if data.len() >= 4 {
        lemma_not_at(data, 0, 4, BOX_20@, 0);
    }
    if data.len() >= 12 {
        lemma_not_at(data, 0, 4, BOX_18@, 0);
    }
    if data.len() >= 4 {
        lemma_not_at(data, 0, 4, MATROSKA@, 0);
    }
    lemma_not_at(data, 0, 3, FLV@, 0);
    if data.len() >= 12 {
        lemma_not_at(data, 0, 4, RIFF@, 0);
    }
    if data.len() >= 12 {
        lemma_not_at(data, 0, 4, RIFF@, 0);
    }
    if data.len() >= 4 {
        lemma_not_at(data, 0, 4, MPEG_PS@, 0);
    }
    if data.len() >= 4 {
        lemma_not_at(data, 0, 4, OGG@, 0);
    }
    assert(data.subrange(0, 3) =~= ID3@);
}

/// MP3 frames are reported as `audio/mpeg`.
pub proof fn lemma_detects_mp3(data: Seq<u8>)
    requires
        data.len() >= 2,
        data[0] == 255,
        data[1] == 251,
        data.len() >= 12 ==> !(data[4] == 102 && data[5] == 116 && data[6] == 121 && data[7] == 112),
    ensures
        spec_detect(data) == "audio/mpeg"@,
{
    if data.len() >= 8 {
        lemma_not_at(data, 0, 8, PNG@, 0);
    }
    if data.len() >= 3 {
        lemma_not_at(data, 0, 3, JPEG@, 1);
    }
    if data.len() >= 6 {
        lemma_not_at(data, 0, 6, GIF87A@, 0);
    }
    if data.len() >= 6 {
        lemma_not_at(data, 0, 6, GIF89A@, 0);
    }
    if data.len() >= 12 {
        lemma_not_at(data, 0, 4, RIFF@, 0);
    }
    lemma_not_at(data, 0, 2, BMP@, 0);
    if data.len() >= 4 {
        lemma_not_at(data, 0, 4, ICO@, 0);
    }
    if data.len() >= 4 {
        lemma_not_at(data, 0, 4, TIFF_LE@, 0);
    }
    if data.len() >= 4 {
        lemma_not_at(data, 0, 4, TIFF_BE@, 0);
    }
    if data.len() >= 12 {
        lemma_not_prefix4(data, 4, 12, FTYP_AVIF@);
    }
    if data.len() >= 12 {
        lemma_not_prefix4(data, 4, 12, FTYP_HEIC@);
    }
    if data.len() >= 12 {
        lemma_not_prefix4(data, 4, 12, FTYP_HEIF@);
    }
    if data.len() >= 12 {
        lemma_not_at(data, 0, 12, JXL@, 1);
    }
    if data.len() >= 5 {
        lemma_not_at(data, 0, 5, XML_DECL@, 0);
    }
    if data.len() >= 4 {
        lemma_not_at(data, 0, 4, SVG_TAG@, 0);
    }
    if data.len() >= 4 {
        lemma_not_at(data, 0, 4, BOX_20@, 0);
    }
    if data.len() >= 12 {
        lemma_not_at(data, 0, 4, BOX_18@, 0);
    }
    if data.len() >= 4 {
        lemma_not_at(data, 0, 4, MATROSKA@, 0);
    }
    if data.len() >= 3 {
        lemma_not_at(data, 0, 3, FLV@, 0);
    }
    if data.len() >= 12 {
        lemma_not_at(data, 0, 4, RIFF@, 0);
    }
    if data.len() >= 12 {
        lemma_not_at(data, 0, 4, RIFF@, 0);
    }
    if data.len() >= 4 {
        lemma_not_at(data, 0, 4, MPEG_PS@, 0);
    }
    if data.len() >= 4 {
        lemma_not_at(data, 0, 4, OGG@, 0);
    }
    if data.len() >= 3 {
        lemma_not_at(data, 0, 3, ID3@, 0);
    }
    assert(data.subrange(0, 2) =~= MP3_FRAME@);
}

/// AAC ADTS audio is reported as `audio/aac`.
pub proof fn lemma_detects_aac(data: Seq<u8>)
    requires
        data.len() >= 2,
        data[0] == 255,
        data[1] == 241,
        data.len() >= 12 ==> !(data[4] == 102 && data[5] == 116 && data[6] == 121 && data[7] == 112),
    ensures
        spec_detect(data) == "audio/aac"@,
{
    if data.len() >= 8 {
        lemma_not_at(data, 0, 8, PNG@, 0);
    }
    if data.len() >= 3 {
        lemma_not_at(data, 0, 3, JPEG@, 1);
    }
    if data.len() >= 6 {
        lemma_not_at(data, 0, 6, GIF87A@, 0);
    }
    if data.len() >= 6 {
        lemma_not_at(data, 0, 6, GIF89A@, 0);
    }
    if data.len() >= 12 {
        lemma_not_at(data, 0, 4, RIFF@, 0);
    }
    lemma_not_at(data, 0, 2, BMP@, 0);
    if data.len() >= 4 {
        lemma_not_at(data, 0, 4, ICO@, 0);
    }
    if data.len() >= 4 {
        lemma_not_at(data, 0, 4, TIFF_LE@, 0);
    }
    if data.len() >= 4 {
        lemma_not_at(data, 0, 4, TIFF_BE@, 0);
    }
    if data.len() >= 12 {
        lemma_not_prefix4(data, 4, 12, FTYP_AVIF@);
    }
    if data.len() >= 12 {
        lemma_not_prefix4(data, 4, 12, FTYP_HEIC@);
    }
    if data.len() >= 12 {
        lemma_not_prefix4(data, 4, 12, FTYP_HEIF@);
    }
    if data.len() >= 12 {
        lemma_not_at(data, 0, 12, JXL@, 1);
    }
    if data.len() >= 5 {
        lemma_not_at(data, 0, 5, XML_DECL@, 0);
    }
    if data.len() >= 4 {
        lemma_not_at(data, 0, 4, SVG_TAG@, 0);
    }
    if data.len() >= 4 {
        lemma_not_at(data, 0, 4, BOX_20@, 0);
    }
    if data.len() >= 12 {
        lemma_not_at(data, 0, 4, BOX_18@, 0);
    }
    if data.len() >= 4 {
        lemma_not_at(data, 0, 4, MATROSKA@, 0);
    }
    if data.len() >= 3 {
        lemma_not_at(data, 0, 3, FLV@, 0);
    }
    if data.len() >= 12 {
        lemma_not_at(data, 0, 4, RIFF@, 0);
    }
    if data.len() >= 12 {
        lemma_not_at(data, 0, 4, RIFF@, 0);
    }
    if data.len() >= 4 {
        lemma_not_at(data, 0, 4, MPEG_PS@, 0);
    }
    if data.len() >= 4 {
        lemma_not_at(data, 0, 4, OGG@, 0);
    }
    if data.len() >= 3 {
        lemma_not_at(data, 0, 3, ID3@, 0);
    }
    lemma_not_at(data, 0, 2, MP3_FRAME@, 1);
    assert(data.subrange(0, 2) =~= AAC_ADTS@);
}

/// FLAC audio is reported as `audio/flac`.
pub proof fn lemma_detects_flac(data: Seq<u8>)
    requires
        data.len() >= 4,
        data[0] == 102,
        data[1] == 76,
        data[2] == 97,
        data[3] == 67,
        data.len() >= 12 ==> !(data[4] == 102 && data[5] == 116 && data[6] == 121 && data[7] == 112),
    ensures
        spec_detect(data) == "audio/flac"@,
{
    if data.len() >= 8 {
        lemma_not_at(data, 0, 8, PNG@, 0);
    }
    lemma_not_at(data, 0, 3, JPEG@, 0);
    if data.len() >= 6 {
        lemma_not_at(data, 0, 6, GIF87A@, 0);
    }
    if data.len() >= 6 {
        lemma_not_at(data, 0, 6, GIF89A@, 0);
    }
    if data.len() >= 12 {
        lemma_not_at(data, 0, 4, RIFF@, 0);
    }
    lemma_not_at(data, 0, 2, BMP@, 0);
    lemma_not_at(data, 0, 4, ICO@, 0);
    lemma_not_at(data, 0, 4, TIFF_LE@, 0);
    lemma_not_at(data, 0, 4, TIFF_BE@, 0);
    if data.len() >= 12 {
        lemma_not_prefix4(data, 4, 12, FTYP_AVIF@);
    }
    if data.len() >= 12 {
        lemma_not_prefix4(data, 4, 12, FTYP_HEIC@);
    }
    if data.len() >= 12 {
        lemma_not_prefix4(data, 4, 12, FTYP_HEIF@);
    }
    if data.len() >= 12 {
        lemma_not_at(data, 0, 12, JXL@, 0);
    }
    if data.len() >= 5 {
        lemma_not_at(data, 0, 5, XML_DECL@, 0);
    }
    lemma_not_at(data, 0, 4, SVG_TAG@, 0);
    lemma_not_at(data, 0, 4, BOX_20@, 0);
    if data.len() >= 12 {
        lemma_not_at(data, 0, 4, BOX_18@, 0);
    }
    lemma_not_at(data, 0, 4, MATROSKA@, 0);
    lemma_not_at(data, 0, 3, FLV@, 0);
    if data.len() >= 12 {
        lemma_not_at(data, 0, 4, RIFF@, 0);
    }
    if data.len() >= 12 {
        lemma_not_at(data, 0, 4, RIFF@, 0);
    }
    lemma_not_at(data, 0, 4, MPEG_PS@, 0);
    lemma_not_at(data, 0, 4, OGG@, 0);
    lemma_not_at(data, 0, 3, ID3@, 0);
    lemma_not_at(data, 0, 2, MP3_FRAME@, 0);
    lemma_not_at(data, 0, 2, AAC_ADTS@, 0);
    assert(data.subrange(0, 4) =~= FLAC@);
}

/// MIDI files are reported as `audio/midi`.
pub proof fn lemma_detects_midi(data: Seq<u8>)
    requires
        data.len() >= 4,
        data[0] == 77,
        data[1] == 84,
        data[2] == 104,
        data[3] == 100,
        data.len() >= 12 ==> !(data[4] == 102 && data[5] == 116 && data[6] == 121 && data[7] == 112),
    ensures
        spec_detect(data) == "audio/midi"@,
{
    if data.len() >= 8 {
        lemma_not_at(data, 0, 8, PNG@, 0);
    }
    lemma_not_at(data, 0, 3, JPEG@, 0);
    if data.len() >= 6 {
        lemma_not_at(data, 0, 6, GIF87A@, 0);
    }
    if data.len() >= 6 {
        lemma_not_at(data, 0, 6, GIF89A@, 0);
    }
    if data.len() >= 12 {
        lemma_not_at(data, 0, 4, RIFF@, 0);
    }
    lemma_not_at(data, 0, 2, BMP@, 0);
    lemma_not_at(data, 0, 4, ICO@, 0);
    lemma_not_at(data, 0, 4, TIFF_LE@, 0);
    lemma_not_at(data, 0, 4, TIFF_BE@, 1);
    if data.len() >= 12 {
        lemma_not_prefix4(data, 4, 12, FTYP_AVIF@);
    }
    if data.len() >= 12 {
        lemma_not_prefix4(data, 4, 12, FTYP_HEIC@);
    }
    if data.len() >= 12 {
        lemma_not_prefix4(data, 4, 12, FTYP_HEIF@);
    }
    if data.len() >= 12 {
        lemma_not_at(data, 0, 12, JXL@, 0);
    }
    if data.len() >= 5 {
        lemma_not_at(data, 0, 5, XML_DECL@, 0);
    }
    lemma_not_at(data, 0, 4, SVG_TAG@, 0);
    lemma_not_at(data, 0, 4, BOX_20@, 0);
    if data.len() >= 12 {
        lemma_not_at(data, 0, 4, BOX_18@, 0);
    }
    lemma_not_at(data, 0, 4, MATROSKA@, 0);
    lemma_not_at(data, 0, 3, FLV@, 0);
    if data.len() >= 12 {
        lemma_not_at(data, 0, 4, RIFF@, 0);
    }
    if data.len() >= 12 {
        lemma_not_at(data, 0, 4, RIFF@, 0);
    }
    lemma_not_at(data, 0, 4, MPEG_PS@, 0);
    lemma_not_at(data, 0, 4, OGG@, 0);
    lemma_not_at(data, 0, 3, ID3@, 0);
    lemma_not_at(data, 0, 2, MP3_FRAME@, 0);
    lemma_not_at(data, 0, 2, AAC_ADTS@, 0);
    lemma_not_at(data, 0, 4, FLAC@, 0);
    assert(data.subrange(0, 4) =~= MIDI@);
}

/// PDF documents are reported as `application/pdf`.
pub proof fn lemma_detects_pdf(data: Seq<u8>)
    requires
        data.len() >= 5,
        data[0] == 37,
        data[1] == 80,
        data[2] == 68,
        data[3] == 70,
        data[4] == 45,
    ensures
        spec_detect(data) == "application/pdf"@,
{
    if data.len() >= 8 {
        lemma_not_at(data, 0, 8, PNG@, 0);
    }
    lemma_not_at(data, 0, 3, JPEG@, 0);
    if data.len() >= 6 {
        lemma_not_at(data, 0, 6, GIF87A@, 0);
    }
    if data.len() >= 6 {
        lemma_not_at(data, 0, 6, GIF89A@, 0);
    }
    if data.len() >= 12 {
        lemma_not_at(data, 0, 4, RIFF@, 0);
    }
    lemma_not_at(data, 0, 2, BMP@, 0);
    lemma_not_at(data, 0, 4, ICO@, 0);
    lemma_not_at(data, 0, 4, TIFF_LE@, 0);
    lemma_not_at(data, 0, 4, TIFF_BE@, 0);
    if data.len() >= 12 {
        lemma_not_at(data, 4, 12, FTYP_AVIF@, 0);
    }
    if data.len() >= 12 {
        lemma_not_at(data, 4, 12, FTYP_HEIC@, 0);
    }
    if data.len() >= 12 {
        lemma_not_at(data, 4, 12, FTYP_HEIF@, 0);
    }
    if data.len() >= 12 {
        lemma_not_at(data, 0, 12, JXL@, 0);
    }
    lemma_not_at(data, 0, 5, XML_DECL@, 0);
    lemma_not_at(data, 0, 4, SVG_TAG@, 0);
    lemma_not_at(data, 0, 4, BOX_20@, 0);
    if data.len() >= 12 {
        lemma_not_at(data, 0, 4, BOX_18@, 0);
    }
    lemma_not_at(data, 0, 4, MATROSKA@, 0);
    lemma_not_at(data, 0, 3, FLV@, 0);
    if data.len() >= 12 {
        lemma_not_at(data, 0, 4, RIFF@, 0);
    }
    if data.len() >= 12 {
        lemma_not_at(data, 0, 4, RIFF@, 0);
    }
    lemma_not_at(data, 0, 4, MPEG_PS@, 0);
    lemma_not_at(data, 0, 4, OGG@, 0);
    lemma_not_at(data, 0, 3, ID3@, 0);
    lemma_not_at(data, 0, 2, MP3_FRAME@, 0);
    lemma_not_at(data, 0, 2, AAC_ADTS@, 0);
    lemma_not_at(data, 0, 4, FLAC@, 0);
    lemma_not_at(data, 0, 4, MIDI@, 0);
    assert(data.subrange(0, 5) =~= PDF@);
}

/// ZIP archives of at most 50 bytes (too short to name an Office part) are
/// reported as `application/zip`.
pub proof fn lemma_detects_zip(data: Seq<u8>)
    requires
        4 <= data.len() <= 50,
        data[0] == 80,
        data[1] == 75,
        data[2] == 3,
        data[3] == 4,
        data.len() >= 12 ==> !(data[4] == 102 && data[5] == 116 && data[6] == 121 && data[7] == 112),
    ensures
        spec_detect(data) == "application/zip"@,
{
    if data.len() >= 8 {
        lemma_not_at(data, 0, 8, PNG@, 0);
    }
    lemma_not_at(data, 0, 3, JPEG@, 0);
    if data.len() >= 6 {
        lemma_not_at(data, 0, 6, GIF87A@, 0);
    }
    if data.len() >= 6 {
        lemma_not_at(data, 0, 6, GIF89A@, 0);
    }
    if data.len() >= 12 {
        lemma_not_at(data, 0, 4, RIFF@, 0);
    }
    lemma_not_at(data, 0, 2, BMP@, 0);
    lemma_not_at(data, 0, 4, ICO@, 0);
    lemma_not_at(data, 0, 4, TIFF_LE@, 0);
    lemma_not_at(data, 0, 4, TIFF_BE@, 0);
    if data.len() >= 12 {
        lemma_not_prefix4(data, 4, 12, FTYP_AVIF@);
    }
    if data.len() >= 12 {
        lemma_not_prefix4(data, 4, 12, FTYP_HEIC@);
    }
    if data.len() >= 12 {
        lemma_not_prefix4(data, 4, 12, FTYP_HEIF@);
    }
    if data.len() >= 12 {
        lemma_not_at(data, 0, 12, JXL@, 0);
    }
    if data.len() >= 5 {
        lemma_not_at(data, 0, 5, XML_DECL@, 0);
    }
    lemma_not_at(data, 0, 4, SVG_TAG@, 0);
    lemma_not_at(data, 0, 4, BOX_20@, 0);
    if data.len() >= 12 {
        lemma_not_at(data, 0, 4, BOX_18@, 0);
    }
    lemma_not_at(data, 0, 4, MATROSKA@, 0);
    lemma_not_at(data, 0, 3, FLV@, 0);
    if data.len() >= 12 {
        lemma_not_at(data, 0, 4, RIFF@, 0);
    }
    if data.len() >= 12 {
        lemma_not_at(data, 0, 4, RIFF@, 0);
    }
    lemma_not_at(data, 0, 4, MPEG_PS@, 0);
    lemma_not_at(data, 0, 4, OGG@, 0);
    lemma_not_at(data, 0, 3, ID3@, 0);
    lemma_not_at(data, 0, 2, MP3_FRAME@, 0);
    lemma_not_at(data, 0, 2, AAC_ADTS@, 0);
    lemma_not_at(data, 0, 4, FLAC@, 0);
    lemma_not_at(data, 0, 4, MIDI@, 0);
    if data.len() >= 5 {
        lemma_not_at(data, 0, 5, PDF@, 0);
    }
    assert(data.subrange(0, 4) =~= ZIP@);
}

/// 7z archives are reported as `application/x-7z-compressed`.
pub proof fn lemma_detects_seven_z(data: Seq<u8>)
    requires
        data.len() >= 6,
        data[0] == 55,
        data[1] == 122,
        data[2] == 188,
        data[3] == 175,
        data[4] == 39,
        data[5] == 28,
    ensures
        spec_detect(data) == "application/x-7z-compressed"@,
{
    if data.len() >= 8 {
        lemma_not_at(data, 0, 8, PNG@, 0);
    }
    lemma_not_at(data, 0, 3, JPEG@, 0);
    lemma_not_at(data, 0, 6, GIF87A@, 0);
    lemma_not_at(data, 0, 6, GIF89A@, 0);
    if data.len() >= 12 {
        lemma_not_at(data, 0, 4, RIFF@, 0);
    }
    lemma_not_at(data, 0, 2, BMP@, 0);
    lemma_not_at(data, 0, 4, ICO@, 0);
    lemma_not_at(data, 0, 4, TIFF_LE@, 0);
    lemma_not_at(data, 0, 4, TIFF_BE@, 0);
    if data.len() >= 12 {
        lemma_not_at(data, 4, 12, FTYP_AVIF@, 0);
    }
    if data.len() >= 12 {
        lemma_not_at(data, 4, 12, FTYP_HEIC@, 0);
    }
    if data.len() >= 12 {
        lemma_not_at(data, 4, 12, FTYP_HEIF@, 0);
    }
    if data.len() >= 12 {
        lemma_not_at(data, 0, 12, JXL@, 0);
    }
    lemma_not_at(data, 0, 5, XML_DECL@, 0);
    lemma_not_at(data, 0, 4, SVG_TAG@, 0);
    lemma_not_at(data, 0, 4, BOX_20@, 0);
    if data.len() >= 12 {
        lemma_not_at(data, 0, 4, BOX_18@, 0);
    }
    lemma_not_at(data, 0, 4, MATROSKA@, 0);
    lemma_not_at(data, 0, 3, FLV@, 0);
    if data.len() >= 12 {
        lemma_not_at(data, 0, 4, RIFF@, 0);
    }
    if data.len() >= 12 {
        lemma_not_at(data, 0, 4, RIFF@, 0);
    }
    lemma_not_at(data, 0, 4, MPEG_PS@, 0);
    lemma_not_at(data, 0, 4, OGG@, 0);
    lemma_not_at(data, 0, 3, ID3@, 0);
    lemma_not_at(data, 0, 2, MP3_FRAME@, 0);
    lemma_not_at(data, 0, 2, AAC_ADTS@, 0);
    lemma_not_at(data, 0, 4, FLAC@, 0);
    lemma_not_at(data, 0, 4, MIDI@, 0);
    lemma_not_at(data, 0, 5, PDF@, 0);
    lemma_not_at(data, 0, 4, ZIP@, 0);
    assert(data.subrange(0, 6) =~= SEVEN_Z@);
}

/// RAR archives are reported as `application/x-rar-compressed`.
pub proof fn lemma_detects_rar(data: Seq<u8>)
    requires
        data.len() >= 7,
        data[0] == 82,
        data[1] == 97,
        data[2] == 114,
        data[3] == 33,
        data[4] == 26,
        data[5] == 7,
        data[6] == 0,
    ensures
        spec_detect(data) == "application/x-rar-compressed"@,
{
    if data.len() >= 8 {
        lemma_not_at(data, 0, 8, PNG@, 0);
    }
    lemma_not_at(data, 0, 3, JPEG@, 0);
    lemma_not_at(data, 0, 6, GIF87A@, 0);
    lemma_not_at(data, 0, 6, GIF89A@, 0);
    if data.len() >= 12 {
        lemma_not_at(data, 0, 4, RIFF@, 1);
    }
    lemma_not_at(data, 0, 2, BMP@, 0);
    lemma_not_at(data, 0, 4, ICO@, 0);
    lemma_not_at(data, 0, 4, TIFF_LE@, 0);
    lemma_not_at(data, 0, 4, TIFF_BE@, 0);
    if data.len() >= 12 {
        lemma_not_at(data, 4, 12, FTYP_AVIF@, 0);
    }
    if data.len() >= 12 {
        lemma_not_at(data, 4, 12, FTYP_HEIC@, 0);
    }
    if data.len() >= 12 {
        lemma_not_at(data, 4, 12, FTYP_HEIF@, 0);
    }
    if data.len() >= 12 {
        lemma_not_at(data, 0, 12, JXL@, 0);
    }
    lemma_not_at(data, 0, 5, XML_DECL@, 0);
    lemma_not_at(data, 0, 4, SVG_TAG@, 0);
    lemma_not_at(data, 0, 4, BOX_20@, 0);
    if data.len() >= 12 {
        lemma_not_at(data, 0, 4, BOX_18@, 0);
    }
    lemma_not_at(data, 0, 4, MATROSKA@, 0);
    lemma_not_at(data, 0, 3, FLV@, 0);
    if data.len() >= 12 {
        lemma_not_at(data, 0, 4, RIFF@, 1);
    }
    if data.len() >= 12 {
        lemma_not_at(data, 0, 4, RIFF@, 1);
    }
    lemma_not_at(data, 0, 4, MPEG_PS@, 0);
    lemma_not_at(data, 0, 4, OGG@, 0);
    lemma_not_at(data, 0, 3, ID3@, 0);
    lemma_not_at(data, 0, 2, MP3_FRAME@, 0);
    lemma_not_at(data, 0, 2, AAC_ADTS@, 0);
    lemma_not_at(data, 0, 4, FLAC@, 0);
    lemma_not_at(data, 0, 4, MIDI@, 0);
    lemma_not_at(data, 0, 5, PDF@, 0);
    lemma_not_at(data, 0, 4, ZIP@, 0);
    lemma_not_at(data, 0, 6, SEVEN_Z@, 0);
    assert(data.subrange(0, 7) =~= RAR@);
}

/// Gzip data is reported as `application/gzip`.
pub proof fn lemma_detects_gzip(data: Seq<u8>)
    requires
        data.len() >= 2,
        data[0] == 31,
        data[1] == 139,
        data.len() >= 12 ==> !(data[4] == 102 && data[5] == 116 && data[6] == 121 && data[7] == 112),
    ensures
        spec_detect(data) == "application/gzip"@,
{
    if data.len() >= 8 {
        lemma_not_at(data, 0, 8, PNG@, 0);
    }
    if data.len() >= 3 {
        lemma_not_at(data, 0, 3, JPEG@, 0);
    }
    if data.len() >= 6 {
        lemma_not_at(data, 0, 6, GIF87A@, 0);
    }
    if data.len() >= 6 {
        lemma_not_at(data, 0, 6, GIF89A@, 0);
    }
    if data.len() >= 12 {
        lemma_not_at(data, 0, 4, RIFF@, 0);
    }
    lemma_not_at(data, 0, 2, BMP@, 0);
    if data.len() >= 4 {
        lemma_not_at(data, 0, 4, ICO@, 0);
    }
    if data.len() >= 4 {
        lemma_not_at(data, 0, 4, TIFF_LE@, 0);
    }
    if data.len() >= 4 {
        lemma_not_at(data, 0, 4, TIFF_BE@, 0);
    }
    if data.len() >= 12 {
        lemma_not_prefix4(data, 4, 12, FTYP_AVIF@);
    }
    if data.len() >= 12 {
        lemma_not_prefix4(data, 4, 12, FTYP_HEIC@);
    }
    if data.len() >= 12 {
        lemma_not_prefix4(data, 4, 12, FTYP_HEIF@);
    }
    if data.len() >= 12 {
        lemma_not_at(data, 0, 12, JXL@, 0);
    }
    if data.len() >= 5 {
        lemma_not_at(data, 0, 5, XML_DECL@, 0);
    }
    if data.len() >= 4 {
        lemma_not_at(data, 0, 4, SVG_TAG@, 0);
    }
    if data.len() >= 4 {
        lemma_not_at(data, 0, 4, BOX_20@, 0);
    }
    if data.len() >= 12 {
        lemma_not_at(data, 0, 4, BOX_18@, 0);
    }
    if data.len() >= 4 {
        lemma_not_at(data, 0, 4, MATROSKA@, 0);
    }
    if data.len() >= 3 {
        lemma_not_at(data, 0, 3, FLV@, 0);
    }
    if data.len() >= 12 {
        lemma_not_at(data, 0, 4, RIFF@, 0);
    }
    if data.len() >= 12 {
        lemma_not_at(data, 0, 4, RIFF@, 0);
    }
    if data.len() >= 4 {
        lemma_not_at(data, 0, 4, MPEG_PS@, 0);
    }
    if data.len() >= 4 {
        lemma_not_at(data, 0, 4, OGG@, 0);
    }
    if data.len() >= 3 {
        lemma_not_at(data, 0, 3, ID3@, 0);
    }
    lemma_not_at(data, 0, 2, MP3_FRAME@, 0);
    lemma_not_at(data, 0, 2, AAC_ADTS@, 0);
    if data.len() >= 4 {
        lemma_not_at(data, 0, 4, FLAC@, 0);
    }
    if data.len() >= 4 {
        lemma_not_at(data, 0, 4, MIDI@, 0);
    }
    if data.len() >= 5 {
        lemma_not_at(data, 0, 5, PDF@, 0);
    }
    if data.len() >= 4 {
        lemma_not_at(data, 0, 4, ZIP@, 0);
    }
    if data.len() >= 6 {
        lemma_not_at(data, 0, 6, SEVEN_Z@, 0);
    }
    if data.len() >= 7 {
        lemma_not_at(data, 0, 7, RAR@, 0);
    }
    assert(data.subrange(0, 2) =~= GZIP@);
}

/// Bzip2 data is reported as `application/x-bzip2`.
pub proof fn lemma_detects_bzip2(data: Seq<u8>)
    requires
        data.len() >= 3,
        data[0] == 66,
        data[1] == 90,
        data[2] == 104,
        data.len() >= 12 ==> !(data[4] == 102 && data[5] == 116 && data[6] == 121 && data[7] == 112),
    ensures
        spec_detect(data) == "application/x-bzip2"@,
{
    if data.len() >= 8 {
        lemma_not_at(data, 0, 8, PNG@, 0);
    }
    lemma_not_at(data, 0, 3, JPEG@, 0);
    if data.len() >= 6 {
        lemma_not_at(data, 0, 6, GIF87A@, 0);
    }
    if data.len() >= 6 {
        lemma_not_at(data, 0, 6, GIF89A@, 0);
    }
    if data.len() >= 12 {
        lemma_not_at(data, 0, 4, RIFF@, 0);
    }
    lemma_not_at(data, 0, 2, BMP@, 1);
    if data.len() >= 4 {
        lemma_not_at(data, 0, 4, ICO@, 0);
    }
    if data.len() >= 4 {
        lemma_not_at(data, 0, 4, TIFF_LE@, 0);
    }
    if data.len() >= 4 {
        lemma_not_at(data, 0, 4, TIFF_BE@, 0);
    }
    if data.len() >= 12 {
        lemma_not_prefix4(data, 4, 12, FTYP_AVIF@);
    }
    if data.len() >= 12 {
        lemma_not_prefix4(data, 4, 12, FTYP_HEIC@);
    }
    if data.len() >= 12 {
        lemma_not_prefix4(data, 4, 12, FTYP_HEIF@);
    }
    if data.len() >= 12 {
        lemma_not_at(data, 0, 12, JXL@, 0);
    }
    if data.len() >= 5 {
        lemma_not_at(data, 0, 5, XML_DECL@, 0);
    }
    if data.len() >= 4 {
        lemma_not_at(data, 0, 4, SVG_TAG@, 0);
    }
    if data.len() >= 4 {
        lemma_not_at(data, 0, 4, BOX_20@, 0);
    }
    if data.len() >= 12 {
        lemma_not_at(data, 0, 4, BOX_18@, 0);
    }
    if data.len() >= 4 {
        lemma_not_at(data, 0, 4, MATROSKA@, 0);
    }
    lemma_not_at(data, 0, 3, FLV@, 0);
    if data.len() >= 12 {
        lemma_not_at(data, 0, 4, RIFF@, 0);
    }
    if data.len() >= 12 {
        lemma_not_at(data, 0, 4, RIFF@, 0);
    }
    if data.len() >= 4 {
        lemma_not_at(data, 0, 4, MPEG_PS@, 0);
    }
    if data.len() >= 4 {
        lemma_not_at(data, 0, 4, OGG@, 0);
    }
    lemma_not_at(data, 0, 3, ID3@, 0);
    lemma_not_at(data, 0, 2, MP3_FRAME@, 0);
    lemma_not_at(data, 0, 2, AAC_ADTS@, 0);
    if data.len() >= 4 {
        lemma_not_at(data, 0, 4, FLAC@, 0);
    }
    if data.len() >= 4 {
        lemma_not_at(data, 0, 4, MIDI@, 0);
    }
    if data.len() >= 5 {
        lemma_not_at(data, 0, 5, PDF@, 0);
    }
    if data.len() >= 4 {
        lemma_not_at(data, 0, 4, ZIP@, 0);
    }
    if data.len() >= 6 {
        lemma_not_at(data, 0, 6, SEVEN_Z@, 0);
    }
    if data.len() >= 7 {
        lemma_not_at(data, 0, 7, RAR@, 0);
    }
    lemma_not_at(data, 0, 2, GZIP@, 0);
    assert(data.subrange(0, 3) =~= BZIP2@);
}

/// Xz data is reported as `application/x-xz`.
pub proof fn lemma_detects_xz(data: Seq<u8>)
    requires
        data.len() >= 6,
        data[0] == 253,
        data[1] == 55,
        data[2] == 122,
        data[3] == 88,
        data[4] == 90,
        data[5] == 0,
    ensures
        spec_detect(data) == "application/x-xz"@,
{
    if data.len() >= 8 {
        lemma_not_at(data, 0, 8, PNG@, 0);
    }
    lemma_not_at(data, 0, 3, JPEG@, 0);
    lemma_not_at(data, 0, 6, GIF87A@, 0);
    lemma_not_at(data, 0, 6, GIF89A@, 0);
    if data.len() >= 12 {
        lemma_not_at(data, 0, 4, RIFF@, 0);
    }
    lemma_not_at(data, 0, 2, BMP@, 0);
    lemma_not_at(data, 0, 4, ICO@, 0);
    lemma_not_at(data, 0, 4, TIFF_LE@, 0);
    lemma_not_at(data, 0, 4, TIFF_BE@, 0);
    if data.len() >= 12 {
        lemma_not_at(data, 4, 12, FTYP_AVIF@, 0);
    }
    if data.len() >= 12 {
        lemma_not_at(data, 4, 12, FTYP_HEIC@, 0);
    }
    if data.len() >= 12 {
        lemma_not_at(data, 4, 12, FTYP_HEIF@, 0);
    }
    if data.len() >= 12 {
        lemma_not_at(data, 0, 12, JXL@, 0);
    }
    lemma_not_at(data, 0, 5, XML_DECL@, 0);
    lemma_not_at(data, 0, 4, SVG_TAG@, 0);
    lemma_not_at(data, 0, 4, BOX_20@, 0);
    if data.len() >= 12 {
        lemma_not_at(data, 0, 4, BOX_18@, 0);
    }
    lemma_not_at(data, 0, 4, MATROSKA@, 0);
    lemma_not_at(data, 0, 3, FLV@, 0);
    if data.len() >= 12 {
        lemma_not_at(data, 0, 4, RIFF@, 0);
    }
    if data.len() >= 12 {
        lemma_not_at(data, 0, 4, RIFF@, 0);
    }
    lemma_not_at(data, 0, 4, MPEG_PS@, 0);
    lemma_not_at(data, 0, 4, OGG@, 0);
    lemma_not_at(data, 0, 3, ID3@, 0);
    lemma_not_at(data, 0, 2, MP3_FRAME@, 0);
    lemma_not_at(data, 0, 2, AAC_ADTS@, 0);
    lemma_not_at(data, 0, 4, FLAC@, 0);
    lemma_not_at(data, 0, 4, MIDI@, 0);
    lemma_not_at(data, 0, 5, PDF@, 0);
    lemma_not_at(data, 0, 4, ZIP@, 0);
    lemma_not_at(data, 0, 6, SEVEN_Z@, 0);
    if data.len() >= 7 {
        lemma_not_at(data, 0, 7, RAR@, 0);
    }
    lemma_not_at(data, 0, 2, GZIP@, 0);
    lemma_not_at(data, 0, 3, BZIP2@, 0);
    assert(data.subrange(0, 6) =~= XZ@);
}

/// DOS/Windows executables are reported as `application/x-msdownload`.
pub proof fn lemma_detects_mz(data: Seq<u8>)
    requires
        data.len() >= 2,
        data[0] == 77,
        data[1] == 90,
        data.len() >= 12 ==> !(data[4] == 102 && data[5] == 116 && data[6] == 121 && data[7] == 112),
        data.len() >= 262 ==> !(data[257] == 117 && data[258] == 115 && data[259] == 116 && data[260] == 97 && data[261] == 114),
    ensures
        spec_detect(data) == "application/x-msdownload"@,
{
    if data.len() >= 8 {
        lemma_not_at(data, 0, 8, PNG@, 0);
    }
    if data.len() >= 3 {
        lemma_not_at(data, 0, 3, JPEG@, 0);
    }
    if data.len() >= 6 {
        lemma_not_at(data, 0, 6, GIF87A@, 0);
    }
    if data.len() >= 6 {
        lemma_not_at(data, 0, 6, GIF89A@, 0);
    }
    if data.len() >= 12 {
        lemma_not_at(data, 0, 4, RIFF@, 0);
    }
    lemma_not_at(data, 0, 2, BMP@, 0);
    if data.len() >= 4 {
        lemma_not_at(data, 0, 4, ICO@, 0);
    }
    if data.len() >= 4 {
        lemma_not_at(data, 0, 4, TIFF_LE@, 0);
    }
    if data.len() >= 4 {
        lemma_not_at(data, 0, 4, TIFF_BE@, 1);
    }
    if data.len() >= 12 {
        lemma_not_prefix4(data, 4, 12, FTYP_AVIF@);
    }
    if data.len() >= 12 {
        lemma_not_prefix4(data, 4, 12, FTYP_HEIC@);
    }
    if data.len() >= 12 {
        lemma_not_prefix4(data, 4, 12, FTYP_HEIF@);
    }
    if data.len() >= 12 {
        lemma_not_at(data, 0, 12, JXL@, 0);
    }
    if data.len() >= 5 {
        lemma_not_at(data, 0, 5, XML_DECL@, 0);
    }
    if data.len() >= 4 {
        lemma_not_at(data, 0, 4, SVG_TAG@, 0);
    }
    if data.len() >= 4 {
        lemma_not_at(data, 0, 4, BOX_20@, 0);
    }
    if data.len() >= 12 {
        lemma_not_at(data, 0, 4, BOX_18@, 0);
    }
    if data.len() >= 4 {
        lemma_not_at(data, 0, 4, MATROSKA@, 0);
    }
    if data.len() >= 3 {
        lemma_not_at(data, 0, 3, FLV@, 0);
    }
    if data.len() >= 12 {
        lemma_not_at(data, 0, 4, RIFF@, 0);
    }
    if data.len() >= 12 {
        lemma_not_at(data, 0, 4, RIFF@, 0);
    }
    if data.len() >= 4 {
        lemma_not_at(data, 0, 4, MPEG_PS@, 0);
    }
    if data.len() >= 4 {
        lemma_not_at(data, 0, 4, OGG@, 0);
    }
    if data.len() >= 3 {
        lemma_not_at(data, 0, 3, ID3@, 0);
    }
    lemma_not_at(data, 0, 2, MP3_FRAME@, 0);
    lemma_not_at(data, 0, 2, AAC_ADTS@, 0);
    if data.len() >= 4 {
        lemma_not_at(data, 0, 4, FLAC@, 0);
    }
    if data.len() >= 4 {
        lemma_not_at(data, 0, 4, MIDI@, 1);
    }
    if data.len() >= 5 {
        lemma_not_at(data, 0, 5, PDF@, 0);
    }
    if data.len() >= 4 {
        lemma_not_at(data, 0, 4, ZIP@, 0);
    }
    if data.len() >= 6 {
        lemma_not_at(data, 0, 6, SEVEN_Z@, 0);
    }
    if data.len() >= 7 {
        lemma_not_at(data, 0, 7, RAR@, 0);
    }
    lemma_not_at(data, 0, 2, GZIP@, 0);
    if data.len() >= 3 {
        lemma_not_at(data, 0, 3, BZIP2@, 0);
    }
    if data.len() >= 6 {
        lemma_not_at(data, 0, 6, XZ@, 0);
    }
    if data.len() >= 262 {
        lemma_not_ustar(data);
    }
    assert(data.subrange(0, 2) =~= MZ@);
}

/// RPM packages are reported as `application/x-rpm`.
pub proof fn lemma_detects_rpm(data: Seq<u8>)
    requires
        data.len() >= 2,
        data[0] == 237,
        data[1] == 171,
        data.len() >= 12 ==> !(data[4] == 102 && data[5] == 116 && data[6] == 121 && data[7] == 112),
        data.len() >= 262 ==> !(data[257] == 117 && data[258] == 115 && data[259] == 116 && data[260] == 97 && data[261] == 114),
    ensures
        spec_detect(data) == "application/x-rpm"@,
{
    if data.len() >= 8 {
        lemma_not_at(data, 0, 8, PNG@, 0);
    }
    if data.len() >= 3 {
        lemma_not_at(data, 0, 3, JPEG@, 0);
    }
    if data.len() >= 6 {
        lemma_not_at(data, 0, 6, GIF87A@, 0);
    }
    if data.len() >= 6 {
        lemma_not_at(data, 0, 6, GIF89A@, 0);
    }
    if data.len() >= 12 {
        lemma_not_at(data, 0, 4, RIFF@, 0);
    }
    lemma_not_at(data, 0, 2, BMP@, 0);
    if data.len() >= 4 {
        lemma_not_at(data, 0, 4, ICO@, 0);
    }
    if data.len() >= 4 {
        lemma_not_at(data, 0, 4, TIFF_LE@, 0);
    }
    if data.len() >= 4 {
        lemma_not_at(data, 0, 4, TIFF_BE@, 0);
    }
    if data.len() >= 12 {
        lemma_not_prefix4(data, 4, 12, FTYP_AVIF@);
    }
    if data.len() >= 12 {
        lemma_not_prefix4(data, 4, 12, FTYP_HEIC@);
    }
    if data.len() >= 12 {
        lemma_not_prefix4(data, 4, 12, FTYP_HEIF@);
    }
    if data.len() >= 12 {
        lemma_not_at(data, 0, 12, JXL@, 0);
    }
    if data.len() >= 5 {
        lemma_not_at(data, 0, 5, XML_DECL@, 0);
    }
    if data.len() >= 4 {
        lemma_not_at(data, 0, 4, SVG_TAG@, 0);
    }
    if data.len() >= 4 {
        lemma_not_at(data, 0, 4, BOX_20@, 0);
    }
    if data.len() >= 12 {
        lemma_not_at(data, 0, 4, BOX_18@, 0);
    }
    if data.len() >= 4 {
        lemma_not_at(data, 0, 4, MATROSKA@, 0);
    }
    if data.len() >= 3 {
        lemma_not_at(data, 0, 3, FLV@, 0);
    }
    if data.len() >= 12 {
        lemma_not_at(data, 0, 4, RIFF@, 0);
    }
    if data.len() >= 12 {
        lemma_not_at(data, 0, 4, RIFF@, 0);
    }
    if data.len() >= 4 {
        lemma_not_at(data, 0, 4, MPEG_PS@, 0);
    }
    if data.len() >= 4 {
        lemma_not_at(data, 0, 4, OGG@, 0);
    }
    if data.len() >= 3 {
        lemma_not_at(data, 0, 3, ID3@, 0);
    }
    lemma_not_at(data, 0, 2, MP3_FRAME@, 0);
    lemma_not_at(data, 0, 2, AAC_ADTS@, 0);
    if data.len() >= 4 {
        lemma_not_at(data, 0, 4, FLAC@, 0);
    }
    if data.len() >= 4 {
        lemma_not_at(data, 0, 4, MIDI@, 0);
    }
    if data.len() >= 5 {
        lemma_not_at(data, 0, 5, PDF@, 0);
    }
    if data.len() >= 4 {
        lemma_not_at(data, 0, 4, ZIP@, 0);
    }
    if data.len() >= 6 {
        lemma_not_at(data, 0, 6, SEVEN_Z@, 0);
    }
    if data.len() >= 7 {
        lemma_not_at(data, 0, 7, RAR@, 0);
    }
    lemma_not_at(data, 0, 2, GZIP@, 0);
    if data.len() >= 3 {
        lemma_not_at(data, 0, 3, BZIP2@, 0);
    }
    if data.len() >= 6 {
        lemma_not_at(data, 0, 6, XZ@, 0);
    }
    if data.len() >= 262 {
        lemma_not_ustar(data);
    }
    lemma_not_at(data, 0, 2, MZ@, 0);
    if data.len() >= 8 {
        lemma_not_at(data, 0, 8, OLE@, 0);
    }
    if data.len() >= 4 {
        lemma_not_at(data, 0, 4, AR@, 0);
    }
    assert(data.subrange(0, 2) =~= RPM@);
}

/// Apple disk images are reported as `application/x-apple-diskimage`.
pub proof fn lemma_detects_dmg(data: Seq<u8>)
    requires
        data.len() >= 4,
        data[0] == 120,
        data[1] == 1,
        data[2] == 115,
        data[3] == 13,
        data.len() >= 12 ==> !(data[4] == 102 && data[5] == 116 && data[6] == 121 && data[7] == 112),
        data.len() >= 262 ==> !(data[257] == 117 && data[258] == 115 && data[259] == 116 && data[260] == 97 && data[261] == 114),
    ensures
        spec_detect(data) == "application/x-apple-diskimage"@,
{
    if data.len() >= 8 {
        lemma_not_at(data, 0, 8, PNG@, 0);
    }
    lemma_not_at(data, 0, 3, JPEG@, 0);
    if data.len() >= 6 {
        lemma_not_at(data, 0, 6, GIF87A@, 0);
    }
    if data.len() >= 6 {
        lemma_not_at(data, 0, 6, GIF89A@, 0);
    }
    if data.len() >= 12 {
        lemma_not_at(data, 0, 4, RIFF@, 0);
    }
    lemma_not_at(data, 0, 2, BMP@, 0);
    lemma_not_at(data, 0, 4, ICO@, 0);
    lemma_not_at(data, 0, 4, TIFF_LE@, 0);
    lemma_not_at(data, 0, 4, TIFF_BE@, 0);
    if data.len() >= 12 {
        lemma_not_prefix4(data, 4, 12, FTYP_AVIF@);
    }
    if data.len() >= 12 {
        lemma_not_prefix4(data, 4, 12, FTYP_HEIC@);
    }
    if data.len() >= 12 {
        lemma_not_prefix4(data, 4, 12, FTYP_HEIF@);
    }
    if data.len() >= 12 {
        lemma_not_at(data, 0, 12, JXL@, 0);
    }
    if data.len() >= 5 {
        lemma_not_at(data, 0, 5, XML_DECL@, 0);
    }
    lemma_not_at(data, 0, 4, SVG_TAG@, 0);
    lemma_not_at(data, 0, 4, BOX_20@, 0);
    if data.len() >= 12 {
        lemma_not_at(data, 0, 4, BOX_18@, 0);
    }
    lemma_not_at(data, 0, 4, MATROSKA@, 0);
    lemma_not_at(data, 0, 3, FLV@, 0);
    if data.len() >= 12 {
        lemma_not_at(data, 0, 4, RIFF@, 0);
    }
    if data.len() >= 12 {
        lemma_not_at(data, 0, 4, RIFF@, 0);
    }
    lemma_not_at(data, 0, 4, MPEG_PS@, 0);
    lemma_not_at(data, 0, 4, OGG@, 0);
    lemma_not_at(data, 0, 3, ID3@, 0);
    lemma_not_at(data, 0, 2, MP3_FRAME@, 0);
    lemma_not_at(data, 0, 2, AAC_ADTS@, 0);
    lemma_not_at(data, 0, 4, FLAC@, 0);
    lemma_not_at(data, 0, 4, MIDI@, 0);
    if data.len() >= 5 {
        lemma_not_at(data, 0, 5, PDF@, 0);
    }
    lemma_not_at(data, 0, 4, ZIP@, 0);
    if data.len() >= 6 {
        lemma_not_at(data, 0, 6, SEVEN_Z@, 0);
    }
    if data.len() >= 7 {
        lemma_not_at(data, 0, 7, RAR@, 0);
    }
    lemma_not_at(data, 0, 2, GZIP@, 0);
    lemma_not_at(data, 0, 3, BZIP2@, 0);
    if data.len() >= 6 {
        lemma_not_at(data, 0, 6, XZ@, 0);
    }
    if data.len() >= 262 {
        lemma_not_ustar(data);
    }
    lemma_not_at(data, 0, 2, MZ@, 0);
    if data.len() >= 8 {
        lemma_not_at(data, 0, 8, OLE@, 0);
    }
    lemma_not_at(data, 0, 4, AR@, 0);
    lemma_not_at(data, 0, 2, RPM@, 0);
    assert(data.subrange(0, 4) =~= DMG@);
}

/// WOFF fonts are reported as `font/woff`.
pub proof fn lemma_detects_woff(data: Seq<u8>)
    requires
        data.len() >= 4,
        data[0] == 119,
        data[1] == 79,
        data[2] == 70,
        data[3] == 70,
        data.len() >= 12 ==> !(data[4] == 102 && data[5] == 116 && data[6] == 121 && data[7] == 112),
        data.len() >= 262 ==> !(data[257] == 117 && data[258] == 115 && data[259] == 116 && data[260] == 97 && data[261] == 114),
    ensures
        spec_detect(data) == "font/woff"@,
{
    if data.len() >= 8 {
        lemma_not_at(data, 0, 8, PNG@, 0);
    }
    lemma_not_at(data, 0, 3, JPEG@, 0);
    if data.len() >= 6 {
        lemma_not_at(data, 0, 6, GIF87A@, 0);
    }
    if data.len() >= 6 {
        lemma_not_at(data, 0, 6, GIF89A@, 0);
    }
    if data.len() >= 12 {
        lemma_not_at(data, 0, 4, RIFF@, 0);
    }
    lemma_not_at(data, 0, 2, BMP@, 0);
    lemma_not_at(data, 0, 4, ICO@, 0);
    lemma_not_at(data, 0, 4, TIFF_LE@, 0);
    lemma_not_at(data, 0, 4, TIFF_BE@, 0);
    if data.len() >= 12 {
        lemma_not_prefix4(data, 4, 12, FTYP_AVIF@);
    }
    if data.len() >= 12 {
        lemma_not_prefix4(data, 4, 12, FTYP_HEIC@);
    }
    if data.len() >= 12 {
        lemma_not_prefix4(data, 4, 12, FTYP_HEIF@);
    }
    if data.len() >= 12 {
        lemma_not_at(data, 0, 12, JXL@, 0);
    }
    if data.len() >= 5 {
        lemma_not_at(data, 0, 5, XML_DECL@, 0);
    }
    lemma_not_at(data, 0, 4, SVG_TAG@, 0);
    lemma_not_at(data, 0, 4, BOX_20@, 0);
    if data.len() >= 12 {
        lemma_not_at(data, 0, 4, BOX_18@, 0);
    }
    lemma_not_at(data, 0, 4, MATROSKA@, 0);
    lemma_not_at(data, 0, 3, FLV@, 0);
    if data.len() >= 12 {
        lemma_not_at(data, 0, 4, RIFF@, 0);
    }
    if data.len() >= 12 {
        lemma_not_at(data, 0, 4, RIFF@, 0);
    }
    lemma_not_at(data, 0, 4, MPEG_PS@, 0);
    lemma_not_at(data, 0, 4, OGG@, 0);
    lemma_not_at(data, 0, 3, ID3@, 0);
    lemma_not_at(data, 0, 2, MP3_FRAME@, 0);
    lemma_not_at(data, 0, 2, AAC_ADTS@, 0);
    lemma_not_at(data, 0, 4, FLAC@, 0);
    lemma_not_at(data, 0, 4, MIDI@, 0);
    if data.len() >= 5 {
        lemma_not_at(data, 0, 5, PDF@, 0);
    }
    lemma_not_at(data, 0, 4, ZIP@, 0);
    if data.len() >= 6 {
        lemma_not_at(data, 0, 6, SEVEN_Z@, 0);
    }
    if data.len() >= 7 {
        lemma_not_at(data, 0, 7, RAR@, 0);
    }
    lemma_not_at(data, 0, 2, GZIP@, 0);
    lemma_not_at(data, 0, 3, BZIP2@, 0);
    if data.len() >= 6 {
        lemma_not_at(data, 0, 6, XZ@, 0);
    }
    if data.len() >= 262 {
        lemma_not_ustar(data);
    }
    lemma_not_at(data, 0, 2, MZ@, 0);
    if data.len() >= 8 {
        lemma_not_at(data, 0, 8, OLE@, 0);
    }
    lemma_not_at(data, 0, 4, AR@, 0);
    lemma_not_at(data, 0, 2, RPM@, 0);
    lemma_not_at(data, 0, 4, DMG@, 0);
    lemma_not_at(data, 0, 4, ELF@, 0);
    assert(data.subrange(0, 4) =~= WOFF@);
}

/// WOFF2 fonts are reported as `font/woff2`.
pub proof fn lemma_detects_woff2(data: Seq<u8>)
    requires
        data.len() >= 4,
        data[0] == 119,
        data[1] == 79,
        data[2] == 70,
        data[3] == 50,
        data.len() >= 12 ==> !(data[4] == 102 && data[5] == 116 && data[6] == 121 && data[7] == 112),
        data.len() >= 262 ==> !(data[257] == 117 && data[258] == 115 && data[259] == 116 && data[260] == 97 && data[261] == 114),
    ensures
        spec_detect(data) == "font/woff2"@,
{
    if data.len() >= 8 {
        lemma_not_at(data, 0, 8, PNG@, 0);
    }
    lemma_not_at(data, 0, 3, JPEG@, 0);
    if data.len() >= 6 {
        lemma_not_at(data, 0, 6, GIF87A@, 0);
    }
    if data.len() >= 6 {
        lemma_not_at(data, 0, 6, GIF89A@, 0);
    }
    if data.len() >= 12 {
        lemma_not_at(data, 0, 4, RIFF@, 0);
    }
    lemma_not_at(data, 0, 2, BMP@, 0);
    lemma_not_at(data, 0, 4, ICO@, 0);
    lemma_not_at(data, 0, 4, TIFF_LE@, 0);
    lemma_not_at(data, 0, 4, TIFF_BE@, 0);
    if data.len() >= 12 {
        lemma_not_prefix4(data, 4, 12, FTYP_AVIF@);
    }
    if data.len() >= 12 {
        lemma_not_prefix4(data, 4, 12, FTYP_HEIC@);
    }
    if data.len() >= 12 {
        lemma_not_prefix4(data, 4, 12, FTYP_HEIF@);
    }
    if data.len() >= 12 {
        lemma_not_at(data, 0, 12, JXL@, 0);
    }
    if data.len() >= 5 {
        lemma_not_at(data, 0, 5, XML_DECL@, 0);
    }
    lemma_not_at(data, 0, 4, SVG_TAG@, 0);
    lemma_not_at(data, 0, 4, BOX_20@, 0);
    if data.len() >= 12 {
        lemma_not_at(data, 0, 4, BOX_18@, 0);
    }
    lemma_not_at(data, 0, 4, MATROSKA@, 0);
    lemma_not_at(data, 0, 3, FLV@, 0);
    if data.len() >= 12 {
        lemma_not_at(data, 0, 4, RIFF@, 0);
    }
    if data.len() >= 12 {
        lemma_not_at(data, 0, 4, RIFF@, 0);
    }
    lemma_not_at(data, 0, 4, MPEG_PS@, 0);
    lemma_not_at(data, 0, 4, OGG@, 0);
    lemma_not_at(data, 0, 3, ID3@, 0);
    lemma_not_at(data, 0, 2, MP3_FRAME@, 0);
    lemma_not_at(data, 0, 2, AAC_ADTS@, 0);
    lemma_not_at(data, 0, 4, FLAC@, 0);
    lemma_not_at(data, 0, 4, MIDI@, 0);
    if data.len() >= 5 {
        lemma_not_at(data, 0, 5, PDF@, 0);
    }
    lemma_not_at(data, 0, 4, ZIP@, 0);
    if data.len() >= 6 {
        lemma_not_at(data, 0, 6, SEVEN_Z@, 0);
    }
    if data.len() >= 7 {
        lemma_not_at(data, 0, 7, RAR@, 0);
    }
    lemma_not_at(data, 0, 2, GZIP@, 0);
    lemma_not_at(data, 0, 3, BZIP2@, 0);
    if data.len() >= 6 {
        lemma_not_at(data, 0, 6, XZ@, 0);
    }
    if data.len() >= 262 {
        lemma_not_ustar(data);
    }
    lemma_not_at(data, 0, 2, MZ@, 0);
    if data.len() >= 8 {
        lemma_not_at(data, 0, 8, OLE@, 0);
    }
    lemma_not_at(data, 0, 4, AR@, 0);
    lemma_not_at(data, 0, 2, RPM@, 0);
    lemma_not_at(data, 0, 4, DMG@, 0);
    lemma_not_at(data, 0, 4, ELF@, 0);
    lemma_not_at(data, 0, 4, WOFF@, 3);
    assert(data.subrange(0, 4) =~= WOFF2@);
}

/// TrueType fonts are reported as `font/ttf`.
pub proof fn lemma_detects_ttf(data: Seq<u8>)
    requires
        data.len() >= 5,
        data[0] == 0,
        data[1] == 1,
        data[2] == 0,
        data[3] == 0,
        data[4] == 0,
        data.len() >= 262 ==> !(data[257] == 117 && data[258] == 115 && data[259] == 116 && data[260] == 97 && data[261] == 114),
    ensures
        spec_detect(data) == "font/ttf"@,
{
    if data.len() >= 8 {
        lemma_not_at(data, 0, 8, PNG@, 0);
    }
    lemma_not_at(data, 0, 3, JPEG@, 0);
    if data.len() >= 6 {
        lemma_not_at(data, 0, 6, GIF87A@, 0);
    }
    if data.len() >= 6 {
        lemma_not_at(data, 0, 6, GIF89A@, 0);
    }
    if data.len() >= 12 {
        lemma_not_at(data, 0, 4, RIFF@, 0);
    }
    lemma_not_at(data, 0, 2, BMP@, 0);
    lemma_not_at(data, 0, 4, ICO@, 1);
    lemma_not_at(data, 0, 4, TIFF_LE@, 0);
    lemma_not_at(data, 0, 4, TIFF_BE@, 0);
    if data.len() >= 12 {
        lemma_not_at(data, 4, 12, FTYP_AVIF@, 0);
    }
    if data.len() >= 12 {
        lemma_not_at(data, 4, 12, FTYP_HEIC@, 0);
    }
    if data.len() >= 12 {
        lemma_not_at(data, 4, 12, FTYP_HEIF@, 0);
    }
    if data.len() >= 12 {
        lemma_not_at(data, 0, 12, JXL@, 0);
    }
    lemma_not_at(data, 0, 5, XML_DECL@, 0);
    lemma_not_at(data, 0, 4, SVG_TAG@, 0);
    lemma_not_at(data, 0, 4, BOX_20@, 1);
    if data.len() >= 12 {
        lemma_not_at(data, 0, 4, BOX_18@, 1);
    }
    lemma_not_at(data, 0, 4, MATROSKA@, 0);
    lemma_not_at(data, 0, 3, FLV@, 0);
    if data.len() >= 12 {
        lemma_not_at(data, 0, 4, RIFF@, 0);
    }
    if data.len() >= 12 {
        lemma_not_at(data, 0, 4, RIFF@, 0);
    }
    lemma_not_at(data, 0, 4, MPEG_PS@, 1);
    lemma_not_at(data, 0, 4, OGG@, 0);
    lemma_not_at(data, 0, 3, ID3@, 0);
    lemma_not_at(data, 0, 2, MP3_FRAME@, 0);
    lemma_not_at(data, 0, 2, AAC_ADTS@, 0);
    lemma_not_at(data, 0, 4, FLAC@, 0);
    lemma_not_at(data, 0, 4, MIDI@, 0);
    lemma_not_at(data, 0, 5, PDF@, 0);
    lemma_not_at(data, 0, 4, ZIP@, 0);
    if data.len() >= 6 {
        lemma_not_at(data, 0, 6, SEVEN_Z@, 0);
    }
    if data.len() >= 7 {
        lemma_not_at(data, 0, 7, RAR@, 0);
    }
    lemma_not_at(data, 0, 2, GZIP@, 0);
    lemma_not_at(data, 0, 3, BZIP2@, 0);
    if data.len() >= 6 {
        lemma_not_at(data, 0, 6, XZ@, 0);
    }
    if data.len() >= 262 {
        lemma_not_ustar(data);
    }
    lemma_not_at(data, 0, 2, MZ@, 0);
    if data.len() >= 8 {
        lemma_not_at(data, 0, 8, OLE@, 0);
    }
    lemma_not_at(data, 0, 4, AR@, 0);
    lemma_not_at(data, 0, 2, RPM@, 0);
    lemma_not_at(data, 0, 4, DMG@, 0);
    lemma_not_at(data, 0, 4, ELF@, 0);
    lemma_not_at(data, 0, 4, WOFF@, 0);
    lemma_not_at(data, 0, 4, WOFF2@, 0);
    assert(data.subrange(0, 5) =~= TTF@);
}

/// OpenType fonts are reported as `font/otf`.
pub proof fn lemma_detects_otf(data: Seq<u8>)
    requires
        data.len() >= 4,
        data[0] == 79,
        data[1] == 84,
        data[2] == 84,
        data[3] == 79,
        data.len() >= 12 ==> !(data[4] == 102 && data[5] == 116 && data[6] == 121 && data[7] == 112),
        data.len() >= 262 ==> !(data[257] == 117 && data[258] == 115 && data[259] == 116 && data[260] == 97 && data[261] == 114),
    ensures
        spec_detect(data) == "font/otf"@,
{
    if data.len() >= 8 {
        lemma_not_at(data, 0, 8, PNG@, 0);
    }
    lemma_not_at(data, 0, 3, JPEG@, 0);
    if data.len() >= 6 {
        lemma_not_at(data, 0, 6, GIF87A@, 0);
    }
    if data.len() >= 6 {
        lemma_not_at(data, 0, 6, GIF89A@, 0);
    }
    if data.len() >= 12 {
        lemma_not_at(data, 0, 4, RIFF@, 0);
    }
    lemma_not_at(data, 0, 2, BMP@, 0);
    lemma_not_at(data, 0, 4, ICO@, 0);
    lemma_not_at(data, 0, 4, TIFF_LE@, 0);
    lemma_not_at(data, 0, 4, TIFF_BE@, 0);
    if data.len() >= 12 {
        lemma_not_prefix4(data, 4, 12, FTYP_AVIF@);
    }
    if data.len() >= 12 {
        lemma_not_prefix4(data, 4, 12, FTYP_HEIC@);
    }
    if data.len() >= 12 {
        lemma_not_prefix4(data, 4, 12, FTYP_HEIF@);
    }
    if data.len() >= 12 {
        lemma_not_at(data, 0, 12, JXL@, 0);
    }
    if data.len() >= 5 {
        lemma_not_at(data, 0, 5, XML_DECL@, 0);
    }
    lemma_not_at(data, 0, 4, SVG_TAG@, 0);
    lemma_not_at(data, 0, 4, BOX_20@, 0);
    if data.len() >= 12 {
        lemma_not_at(data, 0, 4, BOX_18@, 0);
    }
    lemma_not_at(data, 0, 4, MATROSKA@, 0);
    lemma_not_at(data, 0, 3, FLV@, 0);
    if data.len() >= 12 {
        lemma_not_at(data, 0, 4, RIFF@, 0);
    }
    if data.len() >= 12 {
        lemma_not_at(data, 0, 4, RIFF@, 0);
    }
    lemma_not_at(data, 0, 4, MPEG_PS@, 0);
    lemma_not_at(data, 0, 4, OGG@, 1);
    lemma_not_at(data, 0, 3, ID3@, 0);
    lemma_not_at(data, 0, 2, MP3_FRAME@, 0);
    lemma_not_at(data, 0, 2, AAC_ADTS@, 0);
    lemma_not_at(data, 0, 4, FLAC@, 0);
    lemma_not_at(data, 0, 4, MIDI@, 0);
    if data.len() >= 5 {
        lemma_not_at(data, 0, 5, PDF@, 0);
    }
    lemma_not_at(data, 0, 4, ZIP@, 0);
    if data.len() >= 6 {
        lemma_not_at(data, 0, 6, SEVEN_Z@, 0);
    }
    if data.len() >= 7 {
        lemma_not_at(data, 0, 7, RAR@, 0);
    }
    lemma_not_at(data, 0, 2, GZIP@, 0);
    lemma_not_at(data, 0, 3, BZIP2@, 0);
    if data.len() >= 6 {
        lemma_not_at(data, 0, 6, XZ@, 0);
    }
    if data.len() >= 262 {
        lemma_not_ustar(data);
    }
    lemma_not_at(data, 0, 2, MZ@, 0);
    if data.len() >= 8 {
        lemma_not_at(data, 0, 8, OLE@, 0);
    }
    lemma_not_at(data, 0, 4, AR@, 0);
    lemma_not_at(data, 0, 2, RPM@, 0);
    lemma_not_at(data, 0, 4, DMG@, 0);
    lemma_not_at(data, 0, 4, ELF@, 0);
    lemma_not_at(data, 0, 4, WOFF@, 0);
    lemma_not_at(data, 0, 4, WOFF2@, 0);
    if data.len() >= 5 {
        lemma_not_at(data, 0, 5, TTF@, 0);
    }
    assert(data.subrange(0, 4) =~= OTTO@);
}

/// Flash files are reported as `application/x-shockwave-flash`.
pub proof fn lemma_detects_swf(data: Seq<u8>)
    requires
        data.len() >= 4,
        data[0] == 67,
        data[1] == 87,
        data[2] == 83,
        data[3] == 8,
        data.len() >= 12 ==> !(data[4] == 102 && data[5] == 116 && data[6] == 121 && data[7] == 112),
        data.len() >= 262 ==> !(data[257] == 117 && data[258] == 115 && data[259] == 116 && data[260] == 97 && data[261] == 114),
    ensures
        spec_detect(data) == "application/x-shockwave-flash"@,
{
    if data.len() >= 8 {
        lemma_not_at(data, 0, 8, PNG@, 0);
    }
    lemma_not_at(data, 0, 3, JPEG@, 0);
    if data.len() >= 6 {
        lemma_not_at(data, 0, 6, GIF87A@, 0);
    }
    if data.len() >= 6 {
        lemma_not_at(data, 0, 6, GIF89A@, 0);
    }
    if data.len() >= 12 {
        lemma_not_at(data, 0, 4, RIFF@, 0);
    }
    lemma_not_at(data, 0, 2, BMP@, 0);
    lemma_not_at(data, 0, 4, ICO@, 0);
    lemma_not_at(data, 0, 4, TIFF_LE@, 0);
    lemma_not_at(data, 0, 4, TIFF_BE@, 0);
    if data.len() >= 12 {
        lemma_not_prefix4(data, 4, 12, FTYP_AVIF@);
    }
    if data.len() >= 12 {
        lemma_not_prefix4(data, 4, 12, FTYP_HEIC@);
    }
    if data.len() >= 12 {
        lemma_not_prefix4(data, 4, 12, FTYP_HEIF@);
    }
    if data.len() >= 12 {
        lemma_not_at(data, 0, 12, JXL@, 0);
    }
    if data.len() >= 5 {
        lemma_not_at(data, 0, 5, XML_DECL@, 0);
    }
    lemma_not_at(data, 0, 4, SVG_TAG@, 0);
    lemma_not_at(data, 0, 4, BOX_20@, 0);
    if data.len() >= 12 {
        lemma_not_at(data, 0, 4, BOX_18@, 0);
    }
    lemma_not_at(data, 0, 4, MATROSKA@, 0);
    lemma_not_at(data, 0, 3, FLV@, 0);
    if data.len() >= 12 {
        lemma_not_at(data, 0, 4, RIFF@, 0);
    }
    if data.len() >= 12 {
        lemma_not_at(data, 0, 4, RIFF@, 0);
    }
    lemma_not_at(data, 0, 4, MPEG_PS@, 0);
    lemma_not_at(data, 0, 4, OGG@, 0);
    lemma_not_at(data, 0, 3, ID3@, 0);
    lemma_not_at(data, 0, 2, MP3_FRAME@, 0);
    lemma_not_at(data, 0, 2, AAC_ADTS@, 0);
    lemma_not_at(data, 0, 4, FLAC@, 0);
    lemma_not_at(data, 0, 4, MIDI@, 0);
    if data.len() >= 5 {
        lemma_not_at(data, 0, 5, PDF@, 0);
    }
    lemma_not_at(data, 0, 4, ZIP@, 0);
    if data.len() >= 6 {
        lemma_not_at(data, 0, 6, SEVEN_Z@, 0);
    }
    if data.len() >= 7 {
        lemma_not_at(data, 0, 7, RAR@, 0);
    }
    lemma_not_at(data, 0, 2, GZIP@, 0);
    lemma_not_at(data, 0, 3, BZIP2@, 0);
    if data.len() >= 6 {
        lemma_not_at(data, 0, 6, XZ@, 0);
    }
    if data.len() >= 262 {
        lemma_not_ustar(data);
    }
    lemma_not_at(data, 0, 2, MZ@, 0);
    if data.len() >= 8 {
        lemma_not_at(data, 0, 8, OLE@, 0);
    }
    lemma_not_at(data, 0, 4, AR@, 0);
    lemma_not_at(data, 0, 2, RPM@, 0);
    lemma_not_at(data, 0, 4, DMG@, 0);
    lemma_not_at(data, 0, 4, ELF@, 0);
    lemma_not_at(data, 0, 4, WOFF@, 0);
    lemma_not_at(data, 0, 4, WOFF2@, 0);
    if data.len() >= 5 {
        lemma_not_at(data, 0, 5, TTF@, 0);
    }
    lemma_not_at(data, 0, 4, OTTO@, 0);
    assert(data.subrange(0, 4) =~= SWF@);
}

/// WebAssembly modules are reported as `application/wasm`.
pub proof fn lemma_detects_wasm(data: Seq<u8>)
    requires
        data.len() >= 8,
        data[0] == 0,
        data[1] == 97,
        data[2] == 115,
        data[3] == 109,
        data[4] == 1,
        data[5] == 0,
        data[6] == 0,
        data[7] == 0,
        data.len() >= 262 ==> !(data[257] == 117 && data[258] == 115 && data[259] == 116 && data[260] == 97 && data[261] == 114),
    ensures
        spec_detect(data) == "application/wasm"@,
{
    lemma_not_at(data, 0, 8, PNG@, 0);
    lemma_not_at(data, 0, 3, JPEG@, 0);
    lemma_not_at(data, 0, 6, GIF87A@, 0);
    lemma_not_at(data, 0, 6, GIF89A@, 0);
    if data.len() >= 12 {
        lemma_not_at(data, 0, 4, RIFF@, 0);
    }
    lemma_not_at(data, 0, 2, BMP@, 0);
    lemma_not_at(data, 0, 4, ICO@, 1);
    lemma_not_at(data, 0, 4, TIFF_LE@, 0);
    lemma_not_at(data, 0, 4, TIFF_BE@, 0);
    if data.len() >= 12 {
        lemma_not_at(data, 4, 12, FTYP_AVIF@, 0);
    }
    if data.len() >= 12 {
        lemma_not_at(data, 4, 12, FTYP_HEIC@, 0);
    }
    if data.len() >= 12 {
        lemma_not_at(data, 4, 12, FTYP_HEIF@, 0);
    }
    if data.len() >= 12 {
        lemma_not_at(data, 0, 12, JXL@, 0);
    }
    lemma_not_at(data, 0, 5, XML_DECL@, 0);
    lemma_not_at(data, 0, 4, SVG_TAG@, 0);
    lemma_not_at(data, 0, 4, BOX_20@, 1);
    if data.len() >= 12 {
        lemma_not_at(data, 0, 4, BOX_18@, 1);
    }
    lemma_not_at(data, 0, 4, MATROSKA@, 0);
    lemma_not_at(data, 0, 3, FLV@, 0);
    if data.len() >= 12 {
        lemma_not_at(data, 0, 4, RIFF@, 0);
    }
    if data.len() >= 12 {
        lemma_not_at(data, 0, 4, RIFF@, 0);
    }
    lemma_not_at(data, 0, 4, MPEG_PS@, 1);
    lemma_not_at(data, 0, 4, OGG@, 0);
    lemma_not_at(data, 0, 3, ID3@, 0);
    lemma_not_at(data, 0, 2, MP3_FRAME@, 0);
    lemma_not_at(data, 0, 2, AAC_ADTS@, 0);
    lemma_not_at(data, 0, 4, FLAC@, 0);
    lemma_not_at(data, 0, 4, MIDI@, 0);
    lemma_not_at(data, 0, 5, PDF@, 0);
    lemma_not_at(data, 0, 4, ZIP@, 0);
    lemma_not_at(data, 0, 6, SEVEN_Z@, 0);
    lemma_not_at(data, 0, 7, RAR@, 0);
    lemma_not_at(data, 0, 2, GZIP@, 0);
    lemma_not_at(data, 0, 3, BZIP2@, 0);
    lemma_not_at(data, 0, 6, XZ@, 0);
    if data.len() >= 262 {
        lemma_not_ustar(data);
    }
    lemma_not_at(data, 0, 2, MZ@, 0);
    lemma_not_at(data, 0, 8, OLE@, 0);
    lemma_not_at(data, 0, 4, AR@, 0);
    lemma_not_at(data, 0, 2, RPM@, 0);
    lemma_not_at(data, 0, 4, DMG@, 0);
    lemma_not_at(data, 0, 4, ELF@, 0);
    lemma_not_at(data, 0, 4, WOFF@, 0);
    lemma_not_at(data, 0, 4, WOFF2@, 0);
    lemma_not_at(data, 0, 5, TTF@, 1);
    lemma_not_at(data, 0, 4, OTTO@, 0);
    lemma_not_at(data, 0, 4, SWF@, 0);
    assert(data.subrange(0, 8) =~= WASM@);
}

/// HTML with a doctype is reported as `text/html`.
pub proof fn lemma_detects_doctype(data: Seq<u8>)
    requires
        data.len() >= 5,
        data[0] == 60,
        data[1] == 33,
        data[2] == 68,
        data[3] == 79,
        data[4] == 67,
        data.len() >= 262 ==> !(data[257] == 117 && data[258] == 115 && data[259] == 116 && data[260] == 97 && data[261] == 114),
    ensures
        spec_detect(data) == "text/html"@,
{
    if data.len() >= 8 {
        lemma_not_at(data, 0, 8, PNG@, 0);
    }
    lemma_not_at(data, 0, 3, JPEG@, 0);
    if data.len() >= 6 {
        lemma_not_at(data, 0, 6, GIF87A@, 0);
    }
    if data.len() >= 6 {
        lemma_not_at(data, 0, 6, GIF89A@, 0);
    }
    if data.len() >= 12 {
        lemma_not_at(data, 0, 4, RIFF@, 0);
    }
    lemma_not_at(data, 0, 2, BMP@, 0);
    lemma_not_at(data, 0, 4, ICO@, 0);
    lemma_not_at(data, 0, 4, TIFF_LE@, 0);
    lemma_not_at(data, 0, 4, TIFF_BE@, 0);
    if data.len() >= 12 {
        lemma_not_at(data, 4, 12, FTYP_AVIF@, 0);
    }
    if data.len() >= 12 {
        lemma_not_at(data, 4, 12, FTYP_HEIC@, 0);
    }
    if data.len() >= 12 {
        lemma_not_at(data, 4, 12, FTYP_HEIF@, 0);
    }
    if data.len() >= 12 {
        lemma_not_at(data, 0, 12, JXL@, 0);
    }
    lemma_not_at(data, 0, 5, XML_DECL@, 1);
    lemma_not_at(data, 0, 4, SVG_TAG@, 1);
    lemma_not_at(data, 0, 4, BOX_20@, 0);
    if data.len() >= 12 {
        lemma_not_at(data, 0, 4, BOX_18@, 0);
    }
    lemma_not_at(data, 0, 4, MATROSKA@, 0);
    lemma_not_at(data, 0, 3, FLV@, 0);
    if data.len() >= 12 {
        lemma_not_at(data, 0, 4, RIFF@, 0);
    }
    if data.len() >= 12 {
        lemma_not_at(data, 0, 4, RIFF@, 0);
    }
    lemma_not_at(data, 0, 4, MPEG_PS@, 0);
    lemma_not_at(data, 0, 4, OGG@, 0);
    lemma_not_at(data, 0, 3, ID3@, 0);
    lemma_not_at(data, 0, 2, MP3_FRAME@, 0);
    lemma_not_at(data, 0, 2, AAC_ADTS@, 0);
    lemma_not_at(data, 0, 4, FLAC@, 0);
    lemma_not_at(data, 0, 4, MIDI@, 0);
    lemma_not_at(data, 0, 5, PDF@, 0);
    lemma_not_at(data, 0, 4, ZIP@, 0);
    if data.len() >= 6 {
        lemma_not_at(data, 0, 6, SEVEN_Z@, 0);
    }
    if data.len() >= 7 {
        lemma_not_at(data, 0, 7, RAR@, 0);
    }
    lemma_not_at(data, 0, 2, GZIP@, 0);
    lemma_not_at(data, 0, 3, BZIP2@, 0);
    if data.len() >= 6 {
        lemma_not_at(data, 0, 6, XZ@, 0);
    }
    if data.len() >= 262 {
        lemma_not_ustar(data);
    }
    lemma_not_at(data, 0, 2, MZ@, 0);
    if data.len() >= 8 {
        lemma_not_at(data, 0, 8, OLE@, 0);
    }
    lemma_not_at(data, 0, 4, AR@, 0);
    lemma_not_at(data, 0, 2, RPM@, 0);
    lemma_not_at(data, 0, 4, DMG@, 0);
    lemma_not_at(data, 0, 4, ELF@, 0);
    lemma_not_at(data, 0, 4, WOFF@, 0);
    lemma_not_at(data, 0, 4, WOFF2@, 0);
    lemma_not_at(data, 0, 5, TTF@, 0);
    lemma_not_at(data, 0, 4, OTTO@, 0);
    lemma_not_at(data, 0, 4, SWF@, 0);
    if data.len() >= 8 {
        lemma_not_at(data, 0, 8, WASM@, 0);
    }
    assert(data.subrange(0, 5) =~= DOCTYPE@);
}

/// HTML is reported as `text/html`.
pub proof fn lemma_detects_html_lower(data: Seq<u8>)
    requires
        data.len() >= 5,
        data[0] == 60,
        data[1] == 104,
        data[2] == 116,
        data[3] == 109,
        data[4] == 108,
        data.len() >= 262 ==> !(data[257] == 117 && data[258] == 115 && data[259] == 116 && data[260] == 97 && data[261] == 114),
    ensures
        spec_detect(data) == "text/html"@,
{
    if data.len() >= 8 {
        lemma_not_at(data, 0, 8, PNG@, 0);
    }
    lemma_not_at(data, 0, 3, JPEG@, 0);
    if data.len() >= 6 {
        lemma_not_at(data, 0, 6, GIF87A@, 0);
    }
    if data.len() >= 6 {
        lemma_not_at(data, 0, 6, GIF89A@, 0);
    }
    if data.len() >= 12 {
        lemma_not_at(data, 0, 4, RIFF@, 0);
    }
    lemma_not_at(data, 0, 2, BMP@, 0);
    lemma_not_at(data, 0, 4, ICO@, 0);
    lemma_not_at(data, 0, 4, TIFF_LE@, 0);
    lemma_not_at(data, 0, 4, TIFF_BE@, 0);
    if data.len() >= 12 {
        lemma_not_at(data, 4, 12, FTYP_AVIF@, 0);
    }
    if data.len() >= 12 {
        lemma_not_at(data, 4, 12, FTYP_HEIC@, 0);
    }
    if data.len() >= 12 {
        lemma_not_at(data, 4, 12, FTYP_HEIF@, 0);
    }
    if data.len() >= 12 {
        lemma_not_at(data, 0, 12, JXL@, 0);
    }
    lemma_not_at(data, 0, 5, XML_DECL@, 1);
    lemma_not_at(data, 0, 4, SVG_TAG@, 1);
    lemma_not_at(data, 0, 4, BOX_20@, 0);
    if data.len() >= 12 {
        lemma_not_at(data, 0, 4, BOX_18@, 0);
    }
    lemma_not_at(data, 0, 4, MATROSKA@, 0);
    lemma_not_at(data, 0, 3, FLV@, 0);
    if data.len() >= 12 {
        lemma_not_at(data, 0, 4, RIFF@, 0);
    }
    if data.len() >= 12 {
        lemma_not_at(data, 0, 4, RIFF@, 0);
    }
    lemma_not_at(data, 0, 4, MPEG_PS@, 0);
    lemma_not_at(data, 0, 4, OGG@, 0);
    lemma_not_at(data, 0, 3, ID3@, 0);
    lemma_not_at(data, 0, 2, MP3_FRAME@, 0);
    lemma_not_at(data, 0, 2, AAC_ADTS@, 0);
    lemma_not_at(data, 0, 4, FLAC@, 0);
    lemma_not_at(data, 0, 4, MIDI@, 0);
    lemma_not_at(data, 0, 5, PDF@, 0);
    lemma_not_at(data, 0, 4, ZIP@, 0);
    if data.len() >= 6 {
        lemma_not_at(data, 0, 6, SEVEN_Z@, 0);
    }
    if data.len() >= 7 {
        lemma_not_at(data, 0, 7, RAR@, 0);
    }
    lemma_not_at(data, 0, 2, GZIP@, 0);
    lemma_not_at(data, 0, 3, BZIP2@, 0);
    if data.len() >= 6 {
        lemma_not_at(data, 0, 6, XZ@, 0);
    }
    if data.len() >= 262 {
        lemma_not_ustar(data);
    }
    lemma_not_at(data, 0, 2, MZ@, 0);
    if data.len() >= 8 {
        lemma_not_at(data, 0, 8, OLE@, 0);
    }
    lemma_not_at(data, 0, 4, AR@, 0);
    lemma_not_at(data, 0, 2, RPM@, 0);
    lemma_not_at(data, 0, 4, DMG@, 0);
    lemma_not_at(data, 0, 4, ELF@, 0);
    lemma_not_at(data, 0, 4, WOFF@, 0);
    lemma_not_at(data, 0, 4, WOFF2@, 0);
    lemma_not_at(data, 0, 5, TTF@, 0);
    lemma_not_at(data, 0, 4, OTTO@, 0);
    lemma_not_at(data, 0, 4, SWF@, 0);
    if data.len() >= 8 {
        lemma_not_at(data, 0, 8, WASM@, 0);
    }
    lemma_not_at(data, 0, 5, DOCTYPE@, 1);
    assert(data.subrange(0, 5) =~= HTML_LOWER@);
}

/// HTML in capitals is reported as `text/html`.
pub proof fn lemma_detects_html_upper(data: Seq<u8>)
    requires
        data.len() >= 5,
        data[0] == 60,
        data[1] == 72,
        data[2] == 84,
        data[3] == 77,
        data[4] == 76,
        data.len() >= 262 ==> !(data[257] == 117 && data[258] == 115 && data[259] == 116 && data[260] == 97 && data[261] == 114),
    ensures
        spec_detect(data) == "text/html"@,
{
    if data.len() >= 8 {
        lemma_not_at(data, 0, 8, PNG@, 0);
    }
    lemma_not_at(data, 0, 3, JPEG@, 0);
    if data.len() >= 6 {
        lemma_not_at(data, 0, 6, GIF87A@, 0);
    }
    if data.len() >= 6 {
        lemma_not_at(data, 0, 6, GIF89A@, 0);
    }
    if data.len() >= 12 {
        lemma_not_at(data, 0, 4, RIFF@, 0);
    }
    lemma_not_at(data, 0, 2, BMP@, 0);
    lemma_not_at(data, 0, 4, ICO@, 0);
    lemma_not_at(data, 0, 4, TIFF_LE@, 0);
    lemma_not_at(data, 0, 4, TIFF_BE@, 0);
    if data.len() >= 12 {
        lemma_not_at(data, 4, 12, FTYP_AVIF@, 0);
    }
    if data.len() >= 12 {
        lemma_not_at(data, 4, 12, FTYP_HEIC@, 0);
    }
    if data.len() >= 12 {
        lemma_not_at(data, 4, 12, FTYP_HEIF@, 0);
    }
    if data.len() >= 12 {
        lemma_not_at(data, 0, 12, JXL@, 0);
    }
    lemma_not_at(data, 0, 5, XML_DECL@, 1);
    lemma_not_at(data, 0, 4, SVG_TAG@, 1);
    lemma_not_at(data, 0, 4, BOX_20@, 0);
    if data.len() >= 12 {
        lemma_not_at(data, 0, 4, BOX_18@, 0);
    }
    lemma_not_at(data, 0, 4, MATROSKA@, 0);
    lemma_not_at(data, 0, 3, FLV@, 0);
    if data.len() >= 12 {
        lemma_not_at(data, 0, 4, RIFF@, 0);
    }
    if data.len() >= 12 {
        lemma_not_at(data, 0, 4, RIFF@, 0);
    }
    lemma_not_at(data, 0, 4, MPEG_PS@, 0);
    lemma_not_at(data, 0, 4, OGG@, 0);
    lemma_not_at(data, 0, 3, ID3@, 0);
    lemma_not_at(data, 0, 2, MP3_FRAME@, 0);
    lemma_not_at(data, 0, 2, AAC_ADTS@, 0);
    lemma_not_at(data, 0, 4, FLAC@, 0);
    lemma_not_at(data, 0, 4, MIDI@, 0);
    lemma_not_at(data, 0, 5, PDF@, 0);
    lemma_not_at(data, 0, 4, ZIP@, 0);
    if data.len() >= 6 {
        lemma_not_at(data, 0, 6, SEVEN_Z@, 0);
    }
    if data.len() >= 7 {
        lemma_not_at(data, 0, 7, RAR@, 0);
    }
    lemma_not_at(data, 0, 2, GZIP@, 0);
    lemma_not_at(data, 0, 3, BZIP2@, 0);
    if data.len() >= 6 {
        lemma_not_at(data, 0, 6, XZ@, 0);
    }
    if data.len() >= 262 {
        lemma_not_ustar(data);
    }
    lemma_not_at(data, 0, 2, MZ@, 0);
    if data.len() >= 8 {
        lemma_not_at(data, 0, 8, OLE@, 0);
    }
    lemma_not_at(data, 0, 4, AR@, 0);
    lemma_not_at(data, 0, 2, RPM@, 0);
    lemma_not_at(data, 0, 4, DMG@, 0);
    lemma_not_at(data, 0, 4, ELF@, 0);
    lemma_not_at(data, 0, 4, WOFF@, 0);
    lemma_not_at(data, 0, 4, WOFF2@, 0);
    lemma_not_at(data, 0, 5, TTF@, 0);
    lemma_not_at(data, 0, 4, OTTO@, 0);
    lemma_not_at(data, 0, 4, SWF@, 0);
    if data.len() >= 8 {
        lemma_not_at(data, 0, 8, WASM@, 0);
    }
    lemma_not_at(data, 0, 5, DOCTYPE@, 1);
    lemma_not_at(data, 0, 5, HTML_LOWER@, 1);
    assert(data.subrange(0, 5) =~= HTML_UPPER@);
}

/// AVIF images in an ISO media box are reported as `image/avif`.
pub proof fn lemma_detects_avif(data: Seq<u8>)
    requires
        data.len() >= 12,
        data[0] == 0,
        data[1] == 0,
        data[2] == 0,
        data[4] == 102,
        data[5] == 116,
        data[6] == 121,
        data[7] == 112,
        data[8] == 97,
        data[9] == 118,
        data[10] == 105,
        data[11] == 102,
    ensures
        spec_detect(data) == "image/avif"@,
{
    lemma_not_at(data, 0, 8, PNG@, 0);
    lemma_not_at(data, 0, 3, JPEG@, 0);
    lemma_not_at(data, 0, 6, GIF87A@, 0);
    lemma_not_at(data, 0, 6, GIF89A@, 0);
    lemma_not_at(data, 0, 4, RIFF@, 0);
    lemma_not_at(data, 0, 2, BMP@, 0);
    lemma_not_at(data, 0, 4, ICO@, 2);
    lemma_not_at(data, 0, 4, TIFF_LE@, 0);
    lemma_not_at(data, 0, 4, TIFF_BE@, 0);
    assert(data.subrange(4, 12) =~= FTYP_AVIF@);
}

/// HEIC images in an ISO media box are reported as `image/heic`.
pub proof fn lemma_detects_heic(data: Seq<u8>)
    requires
        data.len() >= 12,
        data[0] == 0,
        data[1] == 0,
        data[2] == 0,
        data[4] == 102,
        data[5] == 116,
        data[6] == 121,
        data[7] == 112,
        data[8] == 104,
        data[9] == 101,
        data[10] == 105,
        data[11] == 99,
    ensures
        spec_detect(data) == "image/heic"@,
{
    lemma_not_at(data, 0, 8, PNG@, 0);
    lemma_not_at(data, 0, 3, JPEG@, 0);
    lemma_not_at(data, 0, 6, GIF87A@, 0);
    lemma_not_at(data, 0, 6, GIF89A@, 0);
    lemma_not_at(data, 0, 4, RIFF@, 0);
    lemma_not_at(data, 0, 2, BMP@, 0);
    lemma_not_at(data, 0, 4, ICO@, 2);
    lemma_not_at(data, 0, 4, TIFF_LE@, 0);
    lemma_not_at(data, 0, 4, TIFF_BE@, 0);
    lemma_not_at(data, 4, 12, FTYP_AVIF@, 4);
    assert(data.subrange(4, 12) =~= FTYP_HEIC@);
}

/// HEIF images in an ISO media box are reported as `image/heif`.
pub proof fn lemma_detects_heif(data: Seq<u8>)
    requires
        data.len() >= 12,
        data[0] == 0,
        data[1] == 0,
        data[2] == 0,
        data[4] == 102,
        data[5] == 116,
        data[6] == 121,
        data[7] == 112,
        data[8] == 104,
        data[9] == 101,
        data[10] == 105,
        data[11] == 102,
    ensures
        spec_detect(data) == "image/heif"@,
{
    lemma_not_at(data, 0, 8, PNG@, 0);
    lemma_not_at(data, 0, 3, JPEG@, 0);
    lemma_not_at(data, 0, 6, GIF87A@, 0);
    lemma_not_at(data, 0, 6, GIF89A@, 0);
    lemma_not_at(data, 0, 4, RIFF@, 0);
    lemma_not_at(data, 0, 2, BMP@, 0);
    lemma_not_at(data, 0, 4, ICO@, 2);
    lemma_not_at(data, 0, 4, TIFF_LE@, 0);
    lemma_not_at(data, 0, 4, TIFF_BE@, 0);
    lemma_not_at(data, 4, 12, FTYP_AVIF@, 4);
    lemma_not_at(data, 4, 12, FTYP_HEIC@, 7);
    assert(data.subrange(4, 12) =~= FTYP_HEIF@);
}

/// MP4 videos with the mp42 brand are reported as `video/mp4`.
pub proof fn lemma_detects_mp4(data: Seq<u8>)
    requires
        data.len() >= 12,
        data[0] == 0,
        data[1] == 0,
        data[2] == 0,
        data[3] == 32,
        data[4] == 102,
        data[5] == 116,
        data[6] == 121,
        data[7] == 112,
        data[8] == 109,
        data[9] == 112,
        data[10] == 52,
        data[11] == 50,
    ensures
        spec_detect(data) == "video/mp4"@,
{
    lemma_not_at(data, 0, 8, PNG@, 0);
    lemma_not_at(data, 0, 3, JPEG@, 0);
    lemma_not_at(data, 0, 6, GIF87A@, 0);
    lemma_not_at(data, 0, 6, GIF89A@, 0);
    lemma_not_at(data, 0, 4, RIFF@, 0);
    lemma_not_at(data, 0, 2, BMP@, 0);
    lemma_not_at(data, 0, 4, ICO@, 2);
    lemma_not_at(data, 0, 4, TIFF_LE@, 0);
    lemma_not_at(data, 0, 4, TIFF_BE@, 0);
    lemma_not_at(data, 4, 12, FTYP_AVIF@, 4);
    lemma_not_at(data, 4, 12, FTYP_HEIC@, 4);
    lemma_not_at(data, 4, 12, FTYP_HEIF@, 4);
    lemma_not_at(data, 0, 12, JXL@, 0);
    lemma_not_at(data, 0, 5, XML_DECL@, 0);
    lemma_not_at(data, 0, 4, SVG_TAG@, 0);
    assert(data.subrange(0, 4) =~= BOX_20@);
    assert(data.subrange(4, 12) =~= FTYP_MP42@);
}

/// MP4 videos with the isom brand are reported as `video/mp4`.
pub proof fn lemma_detects_isom(data: Seq<u8>)
    requires
        data.len() >= 12,
        data[0] == 0,
        data[1] == 0,
        data[2] == 0,
        data[3] == 32,
        data[4] == 102,
        data[5] == 116,
        data[6] == 121,
        data[7] == 112,
        data[8] == 105,
        data[9] == 115,
        data[10] == 111,
        data[11] == 109,
    ensures
        spec_detect(data) == "video/mp4"@,
{
    lemma_not_at(data, 0, 8, PNG@, 0);
    lemma_not_at(data, 0, 3, JPEG@, 0);
    lemma_not_at(data, 0, 6, GIF87A@, 0);
    lemma_not_at(data, 0, 6, GIF89A@, 0);
    lemma_not_at(data, 0, 4, RIFF@, 0);
    lemma_not_at(data, 0, 2, BMP@, 0);
    lemma_not_at(data, 0, 4, ICO@, 2);
    lemma_not_at(data, 0, 4, TIFF_LE@, 0);
    lemma_not_at(data, 0, 4, TIFF_BE@, 0);
    lemma_not_at(data, 4, 12, FTYP_AVIF@, 4);
    lemma_not_at(data, 4, 12, FTYP_HEIC@, 4);
    lemma_not_at(data, 4, 12, FTYP_HEIF@, 4);
    lemma_not_at(data, 0, 12, JXL@, 0);
    lemma_not_at(data, 0, 5, XML_DECL@, 0);
    lemma_not_at(data, 0, 4, SVG_TAG@, 0);
    assert(data.subrange(0, 4) =~= BOX_20@);
    assert(data.subrange(4, 12) =~= FTYP_ISOM@);
}

/// Text opening with a brace is reported as `application/json`.
pub proof fn lemma_detects_json(data: Seq<u8>)
    requires
        data.len() >= 1,
        data[0] == 123,
        spec_is_likely_text(data),
        data.len() >= 12 ==> !(data[4] == 102 && data[5] == 116 && data[6] == 121 && data[7] == 112),
        data.len() >= 262 ==> !(data[257] == 117 && data[258] == 115 && data[259] == 116 && data[260] == 97 && data[261] == 114),
    ensures
        spec_detect(data) == "application/json"@,
{
    if data.len() >= 8 {
        lemma_not_at(data, 0, 8, PNG@, 0);
    }
    if data.len() >= 3 {
        lemma_not_at(data, 0, 3, JPEG@, 0);
    }
    if data.len() >= 6 {
        lemma_not_at(data, 0, 6, GIF87A@, 0);
    }
    if data.len() >= 6 {
        lemma_not_at(data, 0, 6, GIF89A@, 0);
    }
    if data.len() >= 12 {
        lemma_not_at(data, 0, 4, RIFF@, 0);
    }
    if data.len() >= 2 {
        lemma_not_at(data, 0, 2, BMP@, 0);
    }
    if data.len() >= 4 {
        lemma_not_at(data, 0, 4, ICO@, 0);
    }
    if data.len() >= 4 {
        lemma_not_at(data, 0, 4, TIFF_LE@, 0);
    }
    if data.len() >= 4 {
        lemma_not_at(data, 0, 4, TIFF_BE@, 0);
    }
    if data.len() >= 12 {
        lemma_not_prefix4(data, 4, 12, FTYP_AVIF@);
    }
    if data.len() >= 12 {
        lemma_not_prefix4(data, 4, 12, FTYP_HEIC@);
    }
    if data.len() >= 12 {
        lemma_not_prefix4(data, 4, 12, FTYP_HEIF@);
    }
    if data.len() >= 12 {
        lemma_not_at(data, 0, 12, JXL@, 0);
    }
    if data.len() >= 5 {
        lemma_not_at(data, 0, 5, XML_DECL@, 0);
    }
    if data.len() >= 4 {
        lemma_not_at(data, 0, 4, SVG_TAG@, 0);
    }
    if data.len() >= 4 {
        lemma_not_at(data, 0, 4, BOX_20@, 0);
    }
    if data.len() >= 12 {
        lemma_not_at(data, 0, 4, BOX_18@, 0);
    }
    if data.len() >= 4 {
        lemma_not_at(data, 0, 4, MATROSKA@, 0);
    }
    if data.len() >= 3 {
        lemma_not_at(data, 0, 3, FLV@, 0);
    }
    if data.len() >= 12 {
        lemma_not_at(data, 0, 4, RIFF@, 0);
    }
    if data.len() >= 12 {
        lemma_not_at(data, 0, 4, RIFF@, 0);
    }
    if data.len() >= 4 {
        lemma_not_at(data, 0, 4, MPEG_PS@, 0);
    }
    if data.len() >= 4 {
        lemma_not_at(data, 0, 4, OGG@, 0);
    }
    if data.len() >= 3 {
        lemma_not_at(data, 0, 3, ID3@, 0);
    }
    if data.len() >= 2 {
        lemma_not_at(data, 0, 2, MP3_FRAME@, 0);
    }
    if data.len() >= 2 {
        lemma_not_at(data, 0, 2, AAC_ADTS@, 0);
    }
    if data.len() >= 4 {
        lemma_not_at(data, 0, 4, FLAC@, 0);
    }
    if data.len() >= 4 {
        lemma_not_at(data, 0, 4, MIDI@, 0);
    }
    if data.len() >= 5 {
        lemma_not_at(data, 0, 5, PDF@, 0);
    }
    if data.len() >= 4 {
        lemma_not_at(data, 0, 4, ZIP@, 0);
    }
    if data.len() >= 6 {
        lemma_not_at(data, 0, 6, SEVEN_Z@, 0);
    }
    if data.len() >= 7 {
        lemma_not_at(data, 0, 7, RAR@, 0);
    }
    if data.len() >= 2 {
        lemma_not_at(data, 0, 2, GZIP@, 0);
    }
    if data.len() >= 3 {
        lemma_not_at(data, 0, 3, BZIP2@, 0);
    }
    if data.len() >= 6 {
        lemma_not_at(data, 0, 6, XZ@, 0);
    }
    if data.len() >= 262 {
        lemma_not_ustar(data);
    }
    if data.len() >= 2 {
        lemma_not_at(data, 0, 2, MZ@, 0);
    }
    if data.len() >= 8 {
        lemma_not_at(data, 0, 8, OLE@, 0);
    }
    if data.len() >= 4 {
        lemma_not_at(data, 0, 4, AR@, 0);
    }
    if data.len() >= 2 {
        lemma_not_at(data, 0, 2, RPM@, 0);
    }
    if data.len() >= 4 {
        lemma_not_at(data, 0, 4, DMG@, 0);
    }
    if data.len() >= 4 {
        lemma_not_at(data, 0, 4, ELF@, 0);
    }
    if data.len() >= 4 {
        lemma_not_at(data, 0, 4, WOFF@, 0);
    }
    if data.len() >= 4 {
        lemma_not_at(data, 0, 4, WOFF2@, 0);
    }
    if data.len() >= 5 {
        lemma_not_at(data, 0, 5, TTF@, 0);
    }
    if data.len() >= 4 {
        lemma_not_at(data, 0, 4, OTTO@, 0);
    }
    if data.len() >= 4 {
        lemma_not_at(data, 0, 4, SWF@, 0);
    }
    if data.len() >= 8 {
        lemma_not_at(data, 0, 8, WASM@, 0);
    }
    if data.len() >= 5 {
        lemma_not_at(data, 0, 5, DOCTYPE@, 0);
    }
    if data.len() >= 5 {
        lemma_not_at(data, 0, 5, HTML_LOWER@, 0);
    }
    if data.len() >= 5 {
        lemma_not_at(data, 0, 5, HTML_UPPER@, 0);
    }
}

/// Text opening with three dashes is reported as `application/yaml`.
pub proof fn lemma_detects_yaml(data: Seq<u8>)
    requires
        data.len() >= 3,
        data[0] == 45,
        data[1] == 45,
        data[2] == 45,
        spec_is_likely_text(data),
        data.len() >= 12 ==> !(data[4] == 102 && data[5] == 116 && data[6] == 121 && data[7] == 112),
        data.len() >= 262 ==> !(data[257] == 117 && data[258] == 115 && data[259] == 116 && data[260] == 97 && data[261] == 114),
    ensures
        spec_detect(data) == "application/yaml"@,
{
    if data.len() >= 8 {
        lemma_not_at(data, 0, 8, PNG@, 0);
    }
    lemma_not_at(data, 0, 3, JPEG@, 0);
    if data.len() >= 6 {
        lemma_not_at(data, 0, 6, GIF87A@, 0);
    }
    if data.len() >= 6 {
        lemma_not_at(data, 0, 6, GIF89A@, 0);
    }
    if data.len() >= 12 {
        lemma_not_at(data, 0, 4, RIFF@, 0);
    }
    lemma_not_at(data, 0, 2, BMP@, 0);
    if data.len() >= 4 {
        lemma_not_at(data, 0, 4, ICO@, 0);
    }
    if data.len() >= 4 {
        lemma_not_at(data, 0, 4, TIFF_LE@, 0);
    }
    if data.len() >= 4 {
        lemma_not_at(data, 0, 4, TIFF_BE@, 0);
    }
    if data.len() >= 12 {
        lemma_not_prefix4(data, 4, 12, FTYP_AVIF@);
    }
    if data.len() >= 12 {
        lemma_not_prefix4(data, 4, 12, FTYP_HEIC@);
    }
    if data.len() >= 12 {
        lemma_not_prefix4(data, 4, 12, FTYP_HEIF@);
    }
    if data.len() >= 12 {
        lemma_not_at(data, 0, 12, JXL@, 0);
    }
    if data.len() >= 5 {
        lemma_not_at(data, 0, 5, XML_DECL@, 0);
    }
    if data.len() >= 4 {
        lemma_not_at(data, 0, 4, SVG_TAG@, 0);
    }
    if data.len() >= 4 {
        lemma_not_at(data, 0, 4, BOX_20@, 0);
    }
    if data.len() >= 12 {
        lemma_not_at(data, 0, 4, BOX_18@, 0);
    }
    if data.len() >= 4 {
        lemma_not_at(data, 0, 4, MATROSKA@, 0);
    }
    lemma_not_at(data, 0, 3, FLV@, 0);
    if data.len() >= 12 {
        lemma_not_at(data, 0, 4, RIFF@, 0);
    }
    if data.len() >= 12 {
        lemma_not_at(data, 0, 4, RIFF@, 0);
    }
    if data.len() >= 4 {
        lemma_not_at(data, 0, 4, MPEG_PS@, 0);
    }
    if data.len() >= 4 {
        lemma_not_at(data, 0, 4, OGG@, 0);
    }
    lemma_not_at(data, 0, 3, ID3@, 0);
    lemma_not_at(data, 0, 2, MP3_FRAME@, 0);
    lemma_not_at(data, 0, 2, AAC_ADTS@, 0);
    if data.len() >= 4 {
        lemma_not_at(data, 0, 4, FLAC@, 0);
    }
    if data.len() >= 4 {
        lemma_not_at(data, 0, 4, MIDI@, 0);
    }
    if data.len() >= 5 {
        lemma_not_at(data, 0, 5, PDF@, 0);
    }
    if data.len() >= 4 {
        lemma_not_at(data, 0, 4, ZIP@, 0);
    }
    if data.len() >= 6 {
        lemma_not_at(data, 0, 6, SEVEN_Z@, 0);
    }
    if data.len() >= 7 {
        lemma_not_at(data, 0, 7, RAR@, 0);
    }
    lemma_not_at(data, 0, 2, GZIP@, 0);
    lemma_not_at(data, 0, 3, BZIP2@, 0);
    if data.len() >= 6 {
        lemma_not_at(data, 0, 6, XZ@, 0);
    }
    if data.len() >= 262 {
        lemma_not_ustar(data);
    }
    lemma_not_at(data, 0, 2, MZ@, 0);
    if data.len() >= 8 {
        lemma_not_at(data, 0, 8, OLE@, 0);
    }
    if data.len() >= 4 {
        lemma_not_at(data, 0, 4, AR@, 0);
    }
    lemma_not_at(data, 0, 2, RPM@, 0);
    if data.len() >= 4 {
        lemma_not_at(data, 0, 4, DMG@, 0);
    }
    if data.len() >= 4 {
        lemma_not_at(data, 0, 4, ELF@, 0);
    }
    if data.len() >= 4 {
        lemma_not_at(data, 0, 4, WOFF@, 0);
    }
    if data.len() >= 4 {
        lemma_not_at(data, 0, 4, WOFF2@, 0);
    }
    if data.len() >= 5 {
        lemma_not_at(data, 0, 5, TTF@, 0);
    }
    if data.len() >= 4 {
        lemma_not_at(data, 0, 4, OTTO@, 0);
    }
    if data.len() >= 4 {
        lemma_not_at(data, 0, 4, SWF@, 0);
    }
    if data.len() >= 8 {
        lemma_not_at(data, 0, 8, WASM@, 0);
    }
    if data.len() >= 5 {
        lemma_not_at(data, 0, 5, DOCTYPE@, 0);
    }
    if data.len() >= 5 {
        lemma_not_at(data, 0, 5, HTML_LOWER@, 0);
    }
    if data.len() >= 5 {
        lemma_not_at(data, 0, 5, HTML_UPPER@, 0);
    }
    assert(data.subrange(0, 3) =~= YAML_START@);
}

/// MPEG-4 audio is reported as `audio/x-m4a`.
pub proof fn lemma_detects_m4a(data: Seq<u8>)
    requires
        data.len() >= 12,
        data[0] == 0,
        data[1] == 0,
        data[2] == 0,
        data[3] == 32,
        data[4] == 102,
        data[5] == 116,
        data[6] == 121,
        data[7] == 112,
        data[8] == 77,
        data[9] == 52,
        data[10] == 65,
    ensures
        spec_detect(data) == "audio/x-m4a"@,
{
    lemma_not_at(data, 0, 8, PNG@, 0);
    lemma_not_at(data, 0, 3, JPEG@, 0);
    lemma_not_at(data, 0, 6, GIF87A@, 0);
    lemma_not_at(data, 0, 6, GIF89A@, 0);
    lemma_not_at(data, 0, 4, RIFF@, 0);
    lemma_not_at(data, 0, 2, BMP@, 0);
    lemma_not_at(data, 0, 4, ICO@, 2);
    lemma_not_at(data, 0, 4, TIFF_LE@, 0);
    lemma_not_at(data, 0, 4, TIFF_BE@, 0);
    lemma_not_at(data, 4, 12, FTYP_AVIF@, 4);
    lemma_not_at(data, 4, 12, FTYP_HEIC@, 4);
    lemma_not_at(data, 4, 12, FTYP_HEIF@, 4);
    lemma_not_at(data, 0, 12, JXL@, 0);
    lemma_not_at(data, 0, 5, XML_DECL@, 0);
    lemma_not_at(data, 0, 4, SVG_TAG@, 0);
    lemma_not_at(data, 4, 12, FTYP_MP42@, 4);
    lemma_not_at(data, 4, 12, FTYP_ISOM@, 4);
    lemma_not_at(data, 4, 12, FTYP_M4V@, 6);
    lemma_not_at(data, 4, 12, FTYP_QT@, 4);
    assert(data.subrange(0, 4) =~= BOX_20@);
    assert(data.subrange(4, 8) =~= FTYP@);
    assert(data.subrange(8, 11) =~= M4A@);
}

} // verus!
