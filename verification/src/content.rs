//! Content-type sniffing of blobs from their leading bytes, and the file
//! extension that the gateway offers for each content type.

use vstd::prelude::*;

verus! {

// Signatures recognised by `ContentDetector::detect`.
pub const PNG: [u8; 8] = [137, 80, 78, 71, 13, 10, 26, 10];
pub const JPEG: [u8; 3] = [255, 216, 255];
pub const GIF87A: [u8; 6] = [71, 73, 70, 56, 55, 97];
pub const GIF89A: [u8; 6] = [71, 73, 70, 56, 57, 97];
pub const RIFF: [u8; 4] = [82, 73, 70, 70];
pub const WEBP: [u8; 4] = [87, 69, 66, 80];
pub const BMP: [u8; 2] = [66, 77];
pub const ICO: [u8; 4] = [0, 0, 1, 0];
pub const TIFF_LE: [u8; 4] = [73, 73, 42, 0];
pub const TIFF_BE: [u8; 4] = [77, 77, 0, 42];
pub const FTYP_AVIF: [u8; 8] = [102, 116, 121, 112, 97, 118, 105, 102];
pub const FTYP_HEIC: [u8; 8] = [102, 116, 121, 112, 104, 101, 105, 99];
pub const FTYP_HEIF: [u8; 8] = [102, 116, 121, 112, 104, 101, 105, 102];
pub const JXL: [u8; 12] = [255, 10, 0, 0, 0, 0, 0, 0, 0, 0, 0, 0];
pub const XML_DECL: [u8; 5] = [60, 63, 120, 109, 108];
pub const SVG_TAG: [u8; 4] = [60, 115, 118, 103];
pub const BOX_20: [u8; 4] = [0, 0, 0, 32];
pub const FTYP_MP42: [u8; 8] = [102, 116, 121, 112, 109, 112, 52, 50];
pub const FTYP_ISOM: [u8; 8] = [102, 116, 121, 112, 105, 115, 111, 109];
pub const FTYP_M4V: [u8; 8] = [102, 116, 121, 112, 77, 52, 86, 32];
pub const FTYP_QT: [u8; 8] = [102, 116, 121, 112, 113, 116, 32, 32];
pub const FTYP: [u8; 4] = [102, 116, 121, 112];
pub const M4A: [u8; 3] = [77, 52, 65];
pub const BOX_18: [u8; 4] = [0, 0, 0, 24];
pub const MATROSKA: [u8; 4] = [26, 69, 223, 163];
pub const FLV: [u8; 3] = [70, 76, 86];
pub const AVI: [u8; 4] = [65, 86, 73, 32];
pub const WAVE: [u8; 4] = [87, 65, 86, 69];
pub const MPEG_PS: [u8; 4] = [0, 0, 1, 186];
pub const OGG: [u8; 4] = [79, 103, 103, 83];
pub const VORBIS: [u8; 7] = [1, 118, 111, 114, 98, 105, 115];
pub const OPUS_HEAD: [u8; 7] = [79, 112, 117, 115, 72, 101, 97];
pub const ID3: [u8; 3] = [73, 68, 51];
pub const MP3_FRAME: [u8; 2] = [255, 251];
pub const AAC_ADTS: [u8; 2] = [255, 241];
pub const FLAC: [u8; 4] = [102, 76, 97, 67];
pub const MIDI: [u8; 4] = [77, 84, 104, 100];
pub const PDF: [u8; 5] = [37, 80, 68, 70, 45];
pub const ZIP: [u8; 4] = [80, 75, 3, 4];
pub const DOCX_PART: [u8; 17] = [119, 111, 114, 100, 47, 100, 111, 99, 117, 109, 101, 110, 116, 46, 120, 109, 108];
pub const XLSX_PART: [u8; 15] = [120, 108, 47, 119, 111, 114, 107, 98, 111, 111, 107, 46, 120, 109, 108];
pub const PPTX_PART: [u8; 20] = [112, 112, 116, 47, 112, 114, 101, 115, 101, 110, 116, 97, 116, 105, 111, 110, 46, 120, 109, 108];
pub const SEVEN_Z: [u8; 6] = [55, 122, 188, 175, 39, 28];
pub const RAR: [u8; 7] = [82, 97, 114, 33, 26, 7, 0];
pub const GZIP: [u8; 2] = [31, 139];
pub const BZIP2: [u8; 3] = [66, 90, 104];
pub const XZ: [u8; 6] = [253, 55, 122, 88, 90, 0];
pub const USTAR: [u8; 5] = [117, 115, 116, 97, 114];
pub const MZ: [u8; 2] = [77, 90];
pub const OLE: [u8; 8] = [208, 207, 17, 224, 161, 177, 26, 225];
pub const WORD: [u8; 4] = [87, 111, 114, 100];
pub const EXCEL: [u8; 5] = [69, 120, 99, 101, 108];
pub const POWERPOINT: [u8; 10] = [80, 111, 119, 101, 114, 80, 111, 105, 110, 116];
pub const AR: [u8; 4] = [33, 60, 97, 114];
pub const DEBIAN: [u8; 11] = [100, 101, 98, 105, 97, 110, 45, 98, 105, 110, 97];
pub const RPM: [u8; 2] = [237, 171];
pub const DMG: [u8; 4] = [120, 1, 115, 13];
pub const ELF: [u8; 4] = [127, 69, 76, 70];
pub const WOFF: [u8; 4] = [119, 79, 70, 70];
pub const WOFF2: [u8; 4] = [119, 79, 70, 50];
pub const TTF: [u8; 5] = [0, 1, 0, 0, 0];
pub const OTTO: [u8; 4] = [79, 84, 84, 79];
pub const SWF: [u8; 4] = [67, 87, 83, 8];
pub const WASM: [u8; 8] = [0, 97, 115, 109, 1, 0, 0, 0];
pub const DOCTYPE: [u8; 5] = [60, 33, 68, 79, 67];
pub const HTML_LOWER: [u8; 5] = [60, 104, 116, 109, 108];
pub const HTML_UPPER: [u8; 5] = [60, 72, 84, 77, 76];
pub const YAML_START: [u8; 3] = [45, 45, 45];
pub const SHEBANG_SH: [u8; 9] = [35, 33, 47, 98, 105, 110, 47, 115, 104];
pub const SHEBANG_BASH: [u8; 9] = [35, 33, 47, 98, 105, 110, 47, 98, 97];
pub const SHEBANG_PYTHON: [u8; 15] = [35, 33, 47, 117, 115, 114, 47, 98, 105, 110, 47, 112, 121, 116, 104];

// Content types that `ContentDetector::detect` answers.
pub const MIME_OCTET_STREAM: &'static str = "application/octet-stream";
pub const MIME_PNG: &'static str = "image/png";
pub const MIME_JPEG: &'static str = "image/jpeg";
pub const MIME_GIF: &'static str = "image/gif";
pub const MIME_WEBP: &'static str = "image/webp";
pub const MIME_BMP: &'static str = "image/bmp";
pub const MIME_X_ICON: &'static str = "image/x-icon";
pub const MIME_TIFF: &'static str = "image/tiff";
pub const MIME_AVIF: &'static str = "image/avif";
pub const MIME_HEIC: &'static str = "image/heic";
pub const MIME_HEIF: &'static str = "image/heif";
pub const MIME_JXL: &'static str = "image/jxl";
pub const MIME_SVG: &'static str = "image/svg+xml";
pub const MIME_APPLICATION_XML: &'static str = "application/xml";
pub const MIME_VIDEO_MP4: &'static str = "video/mp4";
pub const MIME_X_M4A: &'static str = "audio/x-m4a";
pub const MIME_QUICKTIME: &'static str = "video/quicktime";
pub const MIME_X_MATROSKA: &'static str = "video/x-matroska";
pub const MIME_X_FLV: &'static str = "video/x-flv";
pub const MIME_X_MSVIDEO: &'static str = "video/x-msvideo";
pub const MIME_WAV: &'static str = "audio/wav";
pub const MIME_VIDEO_MPEG: &'static str = "video/mpeg";
pub const MIME_AUDIO_OGG: &'static str = "audio/ogg";
pub const MIME_OPUS: &'static str = "audio/opus";
pub const MIME_VIDEO_OGG: &'static str = "video/ogg";
pub const MIME_AUDIO_MPEG: &'static str = "audio/mpeg";
pub const MIME_AAC: &'static str = "audio/aac";
pub const MIME_FLAC: &'static str = "audio/flac";
pub const MIME_MIDI: &'static str = "audio/midi";
pub const MIME_PDF: &'static str = "application/pdf";
pub const MIME_DOCX: &'static str = "application/vnd.openxmlformats-officedocument.wordprocessingml.document";
pub const MIME_XLSX: &'static str = "application/vnd.openxmlformats-officedocument.spreadsheetml.sheet";
pub const MIME_PPTX: &'static str = "application/vnd.openxmlformats-officedocument.presentationml.presentation";
pub const MIME_ZIP: &'static str = "application/zip";
pub const MIME_X_7Z_COMPRESSED: &'static str = "application/x-7z-compressed";
pub const MIME_X_RAR_COMPRESSED: &'static str = "application/x-rar-compressed";
pub const MIME_GZIP: &'static str = "application/gzip";
pub const MIME_X_BZIP2: &'static str = "application/x-bzip2";
pub const MIME_X_XZ: &'static str = "application/x-xz";
pub const MIME_X_TAR: &'static str = "application/x-tar";
pub const MIME_X_MSDOWNLOAD: &'static str = "application/x-msdownload";
pub const MIME_MSWORD: &'static str = "application/msword";
pub const MIME_VND_MS_EXCEL: &'static str = "application/vnd.ms-excel";
pub const MIME_VND_MS_POWERPOINT: &'static str = "application/vnd.ms-powerpoint";
pub const MIME_X_MSI: &'static str = "application/x-msi";
pub const MIME_X_DEB: &'static str = "application/x-deb";
pub const MIME_X_RPM: &'static str = "application/x-rpm";
pub const MIME_X_APPLE_DISKIMAGE: &'static str = "application/x-apple-diskimage";
pub const MIME_VND_APPIMAGE: &'static str = "application/vnd.appimage";
pub const MIME_WOFF: &'static str = "font/woff";
pub const MIME_WOFF2: &'static str = "font/woff2";
pub const MIME_TTF: &'static str = "font/ttf";
pub const MIME_OTF: &'static str = "font/otf";
pub const MIME_X_SHOCKWAVE_FLASH: &'static str = "application/x-shockwave-flash";
pub const MIME_WASM: &'static str = "application/wasm";
pub const MIME_TEXT_HTML: &'static str = "text/html";
pub const MIME_JSON: &'static str = "application/json";
pub const MIME_YAML: &'static str = "application/yaml";
pub const MIME_X_SH: &'static str = "text/x-sh";
pub const MIME_X_PYTHON: &'static str = "text/x-python";
pub const MIME_TEXT_PLAIN: &'static str = "text/plain";

/// File extension of each content type the gateway knows.
pub const MIME_EXTENSIONS: [(&'static str, &'static str); 85] = [
    ("image/png", "png"),
    ("image/jpeg", "jpg"),
    ("image/gif", "gif"),
    ("image/webp", "webp"),
    ("image/svg+xml", "svg"),
    ("image/bmp", "bmp"),
    ("image/x-icon", "ico"),
    ("image/tiff", "tiff"),
    ("image/avif", "avif"),
    ("image/apng", "apng"),
    ("image/heic", "heic"),
    ("image/heif", "heif"),
    ("image/jxl", "jxl"),
    ("video/mp4", "mp4"),
    ("video/webm", "webm"),
    ("video/ogg", "ogv"),
    ("video/x-matroska", "mkv"),
    ("video/quicktime", "mov"),
    ("video/x-msvideo", "avi"),
    ("video/x-flv", "flv"),
    ("video/3gpp", "3gp"),
    ("video/mp2t", "ts"),
    ("video/mpeg", "mpeg"),
    ("audio/mpeg", "mp3"),
    ("audio/ogg", "ogg"),
    ("audio/wav", "wav"),
    ("audio/webm", "weba"),
    ("audio/flac", "flac"),
    ("audio/aac", "aac"),
    ("audio/opus", "opus"),
    ("audio/midi", "midi"),
    ("audio/x-m4a", "m4a"),
    ("application/pdf", "pdf"),
    ("application/zip", "zip"),
    ("application/x-7z-compressed", "7z"),
    ("application/x-rar-compressed", "rar"),
    ("application/gzip", "gz"),
    ("application/x-bzip2", "bz2"),
    ("application/x-xz", "xz"),
    ("application/x-tar", "tar"),
    ("application/vnd.microsoft.portable-executable", "exe"),
    ("application/x-msdownload", "exe"),
    ("application/x-msi", "msi"),
    ("application/x-deb", "deb"),
    ("application/x-rpm", "rpm"),
    ("application/x-apple-diskimage", "dmg"),
    ("application/vnd.appimage", "appimage"),
    ("application/json", "json"),
    ("application/xml", "xml"),
    ("application/yaml", "yaml"),
    ("application/toml", "toml"),
    ("application/wasm", "wasm"),
    ("application/vnd.openxmlformats-officedocument.wordprocessingml.document", "docx"),
    ("application/vnd.openxmlformats-officedocument.spreadsheetml.sheet", "xlsx"),
    ("application/vnd.openxmlformats-officedocument.presentationml.presentation", "pptx"),
    ("application/msword", "doc"),
    ("application/vnd.ms-excel", "xls"),
    ("application/vnd.ms-powerpoint", "ppt"),
    ("application/vnd.oasis.opendocument.text", "odt"),
    ("application/vnd.oasis.opendocument.spreadsheet", "ods"),
    ("application/vnd.oasis.opendocument.presentation", "odp"),
    ("application/rtf", "rtf"),
    ("application/x-shockwave-flash", "swf"),
    ("application/java-archive", "jar"),
    ("application/x-iso9660-image", "iso"),
    ("text/plain", "txt"),
    ("text/html", "html"),
    ("text/css", "css"),
    ("text/javascript", "js"),
    ("text/csv", "csv"),
    ("text/markdown", "md"),
    ("text/xml", "xml"),
    ("text/x-python", "py"),
    ("text/x-java", "java"),
    ("text/x-c", "c"),
    ("text/x-c++", "cpp"),
    ("text/x-rust", "rs"),
    ("text/x-go", "go"),
    ("text/x-php", "php"),
    ("text/x-ruby", "rb"),
    ("text/x-sh", "sh"),
    ("font/ttf", "ttf"),
    ("font/otf", "otf"),
    ("font/woff", "woff"),
    ("font/woff2", "woff2"),
];

/// The extension offered for an unknown content type.
pub const DEFAULT_EXTENSION: &'static str = "bin";

/// Maps content types to file extensions.
pub struct ContentDetector {
    mime_to_ext: Vec<(String, String)>,
}

/// Whether `data[lo..hi]` equals `pat` (always false when the lengths differ).
pub open spec fn seq_at(data: Seq<u8>, lo: int, hi: int, pat: Seq<u8>) -> bool {
    data.subrange(lo, hi) == pat
}

/// Whether some window of `width` bytes starting at or after `start` equals `pat`.
pub open spec fn spec_has_window(data: Seq<u8>, start: int, width: int, pat: Seq<u8>) -> bool {
    exists|i: int| start <= i && i + width <= data.len() && #[trigger] data.subrange(i, i + width) == pat
}

/// Tab, line feed, carriage return and printable ASCII.
pub open spec fn spec_is_text_byte(b: u8) -> bool {
    b == 9u8 || b == 10u8 || b == 13u8 || (32u8 <= b && b < 127u8)
}

/// Number of text bytes in `s`.
pub open spec fn spec_count_text(s: Seq<u8>) -> int
    decreases s.len(),
{
    if s.len() == 0 {
        0
    } else {
        spec_count_text(s.drop_last()) + if spec_is_text_byte(s.last()) { 1int } else { 0int }
    }
}

/// The first 512 bytes (or fewer) are more than 85% text bytes.
pub open spec fn spec_is_likely_text(data: Seq<u8>) -> bool {
    let n = if data.len() < 512 { data.len() as int } else { 512int };
    spec_count_text(data.take(n)) > (n * 85) / 100
}

/// The content type that the leading bytes of `data` indicate.
pub open spec fn spec_detect(data: Seq<u8>) -> Seq<char> {
    if data.len() == 0 {
        MIME_OCTET_STREAM@
    } else {
        if (data.len() >= 8 && seq_at(data, 0, 8, PNG@)) {
            MIME_PNG@
        } else if (data.len() >= 3 && seq_at(data, 0, 3, JPEG@)) {
            MIME_JPEG@
        } else if (data.len() >= 6 && (seq_at(data, 0, 6, GIF87A@) || seq_at(data, 0, 6, GIF89A@))) {
            MIME_GIF@
        } else if (data.len() >= 12 && seq_at(data, 0, 4, RIFF@) && seq_at(data, 8, 12, WEBP@)) {
            MIME_WEBP@
        } else if (data.len() >= 2 && seq_at(data, 0, 2, BMP@)) {
            MIME_BMP@
        } else if (data.len() >= 4 && seq_at(data, 0, 4, ICO@)) {
            MIME_X_ICON@
        } else if (data.len() >= 12 && (seq_at(data, 0, 4, TIFF_LE@) || seq_at(data, 0, 4, TIFF_BE@))) {
            MIME_TIFF@
        } else if (data.len() >= 12 && seq_at(data, 4, 12, FTYP_AVIF@)) {
            MIME_AVIF@
        } else if (data.len() >= 12 && seq_at(data, 4, 12, FTYP_HEIC@)) {
            MIME_HEIC@
        } else if (data.len() >= 12 && seq_at(data, 4, 12, FTYP_HEIF@)) {
            MIME_HEIF@
        } else if (data.len() >= 12 && seq_at(data, 0, 12, JXL@)) {
            MIME_JXL@
        } else if (data.len() >= 5 && seq_at(data, 0, 5, XML_DECL@)) {
            if spec_has_window(data, 0, 4, SVG_TAG@) {
                MIME_SVG@
            } else {
                MIME_APPLICATION_XML@
            }
        } else if (data.len() >= 4 && seq_at(data, 0, 4, SVG_TAG@)) {
            MIME_SVG@
        } else if (data.len() >= 12 && seq_at(data, 0, 4, BOX_20@)) {
            if (seq_at(data, 4, 12, FTYP_MP42@) || seq_at(data, 4, 12, FTYP_ISOM@) || seq_at(data, 4, 12, FTYP_M4V@) || seq_at(data, 4, 12, FTYP_QT@)) {
                MIME_VIDEO_MP4@
            } else if (seq_at(data, 4, 8, FTYP@) && seq_at(data, 8, 11, M4A@)) {
                // An `ftyp` box whose brand begins with `M4A` is MPEG-4 audio.
                MIME_X_M4A@
            } else {
                MIME_OCTET_STREAM@
            }
        } else if (data.len() >= 12 && seq_at(data, 0, 4, BOX_18@) && seq_at(data, 4, 12, FTYP_QT@)) {
            MIME_QUICKTIME@
        } else if (data.len() >= 4 && seq_at(data, 0, 4, MATROSKA@)) {
            MIME_X_MATROSKA@
        } else if (data.len() >= 3 && seq_at(data, 0, 3, FLV@)) {
            MIME_X_FLV@
        } else if (data.len() >= 12 && seq_at(data, 0, 4, RIFF@) && seq_at(data, 8, 12, AVI@)) {
            MIME_X_MSVIDEO@
        } else if (data.len() >= 12 && seq_at(data, 0, 4, RIFF@) && seq_at(data, 8, 12, WAVE@)) {
            MIME_WAV@
        } else if (data.len() >= 4 && seq_at(data, 0, 4, MPEG_PS@)) {
            MIME_VIDEO_MPEG@
        } else if (data.len() >= 4 && seq_at(data, 0, 4, OGG@)) {
            if (data.len() > 35 && seq_at(data, 28, 35, VORBIS@)) {
                MIME_AUDIO_OGG@
            } else if (data.len() > 35 && seq_at(data, 28, 35, OPUS_HEAD@)) {
                MIME_OPUS@
            } else {
                MIME_VIDEO_OGG@
            }
        } else if (data.len() >= 3 && seq_at(data, 0, 3, ID3@)) {
            MIME_AUDIO_MPEG@
        } else if (data.len() >= 2 && seq_at(data, 0, 2, MP3_FRAME@)) {
            MIME_AUDIO_MPEG@
        } else if (data.len() >= 2 && seq_at(data, 0, 2, AAC_ADTS@)) {
            MIME_AAC@
        } else if (data.len() >= 4 && seq_at(data, 0, 4, FLAC@)) {
            MIME_FLAC@
        } else if (data.len() >= 4 && seq_at(data, 0, 4, MIDI@)) {
            MIME_MIDI@
        } else if (data.len() >= 5 && seq_at(data, 0, 5, PDF@)) {
            MIME_PDF@
        } else if (data.len() >= 4 && seq_at(data, 0, 4, ZIP@)) {
            if data.len() > 50 {
                // An Office Open XML file is a ZIP archive naming its main part; each
                // part name is looked for in windows of its own length.
                if spec_has_window(data, 0, 17, DOCX_PART@) {
                    MIME_DOCX@
                } else if spec_has_window(data, 0, 15, XLSX_PART@) {
                    MIME_XLSX@
                } else if spec_has_window(data, 0, 20, PPTX_PART@) {
                    MIME_PPTX@
                } else {
                    MIME_ZIP@
                }
            } else {
                MIME_ZIP@
            }
        } else if (data.len() >= 6 && seq_at(data, 0, 6, SEVEN_Z@)) {
            MIME_X_7Z_COMPRESSED@
        } else if (data.len() >= 7 && seq_at(data, 0, 7, RAR@)) {
            MIME_X_RAR_COMPRESSED@
        } else if (data.len() >= 2 && seq_at(data, 0, 2, GZIP@)) {
            MIME_GZIP@
        } else if (data.len() >= 3 && seq_at(data, 0, 3, BZIP2@)) {
            MIME_X_BZIP2@
        } else if (data.len() >= 6 && seq_at(data, 0, 6, XZ@)) {
            MIME_X_XZ@
        } else if (data.len() >= 262 && seq_at(data, 257, 262, USTAR@)) {
            MIME_X_TAR@
        } else if (data.len() >= 2 && seq_at(data, 0, 2, MZ@)) {
            MIME_X_MSDOWNLOAD@
        } else if (data.len() >= 8 && seq_at(data, 0, 8, OLE@)) {
            if data.len() > 2080 {
                if spec_has_window(data, 2080, 4, WORD@) {
                    MIME_MSWORD@
                } else if spec_has_window(data, 2080, 5, EXCEL@) {
                    MIME_VND_MS_EXCEL@
                } else if spec_has_window(data, 2080, 10, POWERPOINT@) {
                    MIME_VND_MS_POWERPOINT@
                } else {
                    MIME_X_MSI@
                }
            } else {
                MIME_X_MSI@
            }
        } else if (data.len() >= 4 && seq_at(data, 0, 4, AR@)) {
            // A Debian package is an `ar` archive whose first member is `debian-binary`.
            if (data.len() > 20 && seq_at(data, 8, 19, DEBIAN@)) {
                MIME_X_DEB@
            } else {
                MIME_OCTET_STREAM@
            }
        } else if (data.len() >= 2 && seq_at(data, 0, 2, RPM@)) {
            MIME_X_RPM@
        } else if (data.len() >= 4 && seq_at(data, 0, 4, DMG@)) {
            MIME_X_APPLE_DISKIMAGE@
        } else if (data.len() >= 4 && seq_at(data, 0, 4, ELF@)) {
            if (data.len() > 16 && data[16] == 2u8) {
                MIME_VND_APPIMAGE@
            } else {
                MIME_OCTET_STREAM@
            }
        } else if (data.len() >= 4 && seq_at(data, 0, 4, WOFF@)) {
            MIME_WOFF@
        } else if (data.len() >= 4 && seq_at(data, 0, 4, WOFF2@)) {
            MIME_WOFF2@
        } else if (data.len() >= 5 && seq_at(data, 0, 5, TTF@)) {
            MIME_TTF@
        } else if (data.len() >= 4 && seq_at(data, 0, 4, OTTO@)) {
            MIME_OTF@
        } else if (data.len() >= 4 && seq_at(data, 0, 4, SWF@)) {
            MIME_X_SHOCKWAVE_FLASH@
        } else if (data.len() >= 8 && seq_at(data, 0, 8, WASM@)) {
            MIME_WASM@
        } else if (data.len() >= 5 && seq_at(data, 0, 5, DOCTYPE@)) {
            MIME_TEXT_HTML@
        } else if (data.len() >= 5 && seq_at(data, 0, 5, HTML_LOWER@)) {
            MIME_TEXT_HTML@
        } else if (data.len() >= 5 && seq_at(data, 0, 5, HTML_UPPER@)) {
            // HTML whose opening tag is in capitals.
            MIME_TEXT_HTML@
        } else if spec_is_likely_text(data) {
            if (data.len() != 0 && data[0] == 123u8) {
                MIME_JSON@
            } else if (data.len() >= 3 && seq_at(data, 0, 3, YAML_START@)) {
                MIME_YAML@
            } else if (spec_has_window(data, 0, 9, SHEBANG_SH@) || spec_has_window(data, 0, 9, SHEBANG_BASH@)) {
                MIME_X_SH@
            } else if spec_has_window(data, 0, 15, SHEBANG_PYTHON@) {
                MIME_X_PYTHON@
            } else {
                MIME_TEXT_PLAIN@
            }
        } else {
            MIME_OCTET_STREAM@
        }
    }
}

/// The table of content types and extensions.
pub open spec fn spec_extension_table() -> Seq<(Seq<char>, Seq<char>)> {
    MIME_EXTENSIONS@.map_values(|p: (&str, &str)| (p.0@, p.1@))
}

/// The extension of the first table entry for `mime`, or "bin".
pub open spec fn spec_lookup_extension(table: Seq<(Seq<char>, Seq<char>)>, mime: Seq<char>) -> Seq<char>
    decreases table.len(),
{
    if table.len() == 0 {
        DEFAULT_EXTENSION@
    } else if table[0].0 == mime {
        table[0].1
    } else {
        spec_lookup_extension(table.drop_first(), mime)
    }
}

impl ContentDetector {
    /// The table as content type and extension strings.
    pub closed spec fn table(&self) -> Seq<(Seq<char>, Seq<char>)> {
        self.mime_to_ext@.map_values(|p: (String, String)| (p.0@, p.1@))
    }

    #[verifier::type_invariant]
    spec fn holds_table(&self) -> bool {
        self.table() == spec_extension_table()
    }

    /// A detector holding the gateway's table of extensions.
    pub fn new() -> (res: Self)
        ensures
            res.table() == spec_extension_table(),
    {
        let mut mime_to_ext: Vec<(String, String)> = Vec::with_capacity(MIME_EXTENSIONS.len());
        let mut i: usize = 0;
        while i < MIME_EXTENSIONS.len()
            invariant
                i <= MIME_EXTENSIONS@.len(),
                mime_to_ext@.map_values(|p: (String, String)| (p.0@, p.1@))
                    =~= spec_extension_table().take(i as int),
            decreases MIME_EXTENSIONS@.len() - i,
        {
            let (mime_type, ext) = MIME_EXTENSIONS[i];
            let entry = (String::from_str(mime_type), String::from_str(ext));
            let ghost before = mime_to_ext@;
            mime_to_ext.push(entry);
            proof {
                assert(MIME_EXTENSIONS@[i as int] == (mime_type, ext));
                assert(spec_extension_table()[i as int] == (mime_type@, ext@));
                assert(mime_to_ext@.map_values(|p: (String, String)| (p.0@, p.1@))
                    =~= before.map_values(|p: (String, String)| (p.0@, p.1@)).push((entry.0@, entry.1@)));
                assert(spec_extension_table().take(i + 1) =~= spec_extension_table().take(i as int).push(spec_extension_table()[i as int]));
            }
            i = i + 1;
            assert(mime_to_ext@.map_values(|p: (String, String)| (p.0@, p.1@))
                =~= spec_extension_table().take(i as int));
        }
        assert(spec_extension_table().take(i as int) =~= spec_extension_table());
        ContentDetector { mime_to_ext }
    }

    /// The content type that the leading bytes of `data` indicate.
    pub fn detect(&self, data: &[u8]) -> (res: String)
        ensures
            res@ == spec_detect(data@),
    {
        if data.is_empty() {
            return mime(MIME_OCTET_STREAM);
        }
        let len = data.len();
        if (len >= 8 && slice_eq(data, 0, 8, &PNG)) {
            mime(MIME_PNG)
        } else if (len >= 3 && slice_eq(data, 0, 3, &JPEG)) {
            mime(MIME_JPEG)
        } else if (len >= 6 && (slice_eq(data, 0, 6, &GIF87A) || slice_eq(data, 0, 6, &GIF89A))) {
            mime(MIME_GIF)
        } else if (len >= 12 && slice_eq(data, 0, 4, &RIFF) && slice_eq(data, 8, 12, &WEBP)) {
            mime(MIME_WEBP)
        } else if (len >= 2 && slice_eq(data, 0, 2, &BMP)) {
            mime(MIME_BMP)
        } else if (len >= 4 && slice_eq(data, 0, 4, &ICO)) {
            mime(MIME_X_ICON)
        } else if (len >= 12 && (slice_eq(data, 0, 4, &TIFF_LE) || slice_eq(data, 0, 4, &TIFF_BE))) {
            mime(MIME_TIFF)
        } else if (len >= 12 && slice_eq(data, 4, 12, &FTYP_AVIF)) {
            mime(MIME_AVIF)
        } else if (len >= 12 && slice_eq(data, 4, 12, &FTYP_HEIC)) {
            mime(MIME_HEIC)
        } else if (len >= 12 && slice_eq(data, 4, 12, &FTYP_HEIF)) {
            mime(MIME_HEIF)
        } else if (len >= 12 && slice_eq(data, 0, 12, &JXL)) {
            mime(MIME_JXL)
        } else if (len >= 5 && slice_eq(data, 0, 5, &XML_DECL)) {
            if has_window(data, 0, 4, &SVG_TAG) {
                mime(MIME_SVG)
            } else {
                mime(MIME_APPLICATION_XML)
            }
        } else if (len >= 4 && slice_eq(data, 0, 4, &SVG_TAG)) {
            mime(MIME_SVG)
        } else if (len >= 12 && slice_eq(data, 0, 4, &BOX_20)) {
            if (slice_eq(data, 4, 12, &FTYP_MP42) || slice_eq(data, 4, 12, &FTYP_ISOM) || slice_eq(data, 4, 12, &FTYP_M4V) || slice_eq(data, 4, 12, &FTYP_QT)) {
                mime(MIME_VIDEO_MP4)
            } else if (slice_eq(data, 4, 8, &FTYP) && slice_eq(data, 8, 11, &M4A)) {
                // An `ftyp` box whose brand begins with `M4A` is MPEG-4 audio.
                mime(MIME_X_M4A)
            } else {
                mime(MIME_OCTET_STREAM)
            }
        } else if (len >= 12 && slice_eq(data, 0, 4, &BOX_18) && slice_eq(data, 4, 12, &FTYP_QT)) {
            mime(MIME_QUICKTIME)
        } else if (len >= 4 && slice_eq(data, 0, 4, &MATROSKA)) {
            mime(MIME_X_MATROSKA)
        } else if (len >= 3 && slice_eq(data, 0, 3, &FLV)) {
            mime(MIME_X_FLV)
        } else if (len >= 12 && slice_eq(data, 0, 4, &RIFF) && slice_eq(data, 8, 12, &AVI)) {
            mime(MIME_X_MSVIDEO)
        } else if (len >= 12 && slice_eq(data, 0, 4, &RIFF) && slice_eq(data, 8, 12, &WAVE)) {
            mime(MIME_WAV)
        } else if (len >= 4 && slice_eq(data, 0, 4, &MPEG_PS)) {
            mime(MIME_VIDEO_MPEG)
        } else if (len >= 4 && slice_eq(data, 0, 4, &OGG)) {
            if (len > 35 && slice_eq(data, 28, 35, &VORBIS)) {
                mime(MIME_AUDIO_OGG)
            } else if (len > 35 && slice_eq(data, 28, 35, &OPUS_HEAD)) {
                mime(MIME_OPUS)
            } else {
                mime(MIME_VIDEO_OGG)
            }
        } else if (len >= 3 && slice_eq(data, 0, 3, &ID3)) {
            mime(MIME_AUDIO_MPEG)
        } else if (len >= 2 && slice_eq(data, 0, 2, &MP3_FRAME)) {
            mime(MIME_AUDIO_MPEG)
        } else if (len >= 2 && slice_eq(data, 0, 2, &AAC_ADTS)) {
            mime(MIME_AAC)
        } else if (len >= 4 && slice_eq(data, 0, 4, &FLAC)) {
            mime(MIME_FLAC)
        } else if (len >= 4 && slice_eq(data, 0, 4, &MIDI)) {
            mime(MIME_MIDI)
        } else if (len >= 5 && slice_eq(data, 0, 5, &PDF)) {
            mime(MIME_PDF)
        } else if (len >= 4 && slice_eq(data, 0, 4, &ZIP)) {
            if len > 50 {
                // An Office Open XML file is a ZIP archive naming its main part; each
                // part name is looked for in windows of its own length.
                if has_window(data, 0, 17, &DOCX_PART) {
                    mime(MIME_DOCX)
                } else if has_window(data, 0, 15, &XLSX_PART) {
                    mime(MIME_XLSX)
                } else if has_window(data, 0, 20, &PPTX_PART) {
                    mime(MIME_PPTX)
                } else {
                    mime(MIME_ZIP)
                }
            } else {
                mime(MIME_ZIP)
            }
        } else if (len >= 6 && slice_eq(data, 0, 6, &SEVEN_Z)) {
            mime(MIME_X_7Z_COMPRESSED)
        } else if (len >= 7 && slice_eq(data, 0, 7, &RAR)) {
            mime(MIME_X_RAR_COMPRESSED)
        } else if (len >= 2 && slice_eq(data, 0, 2, &GZIP)) {
            mime(MIME_GZIP)
        } else if (len >= 3 && slice_eq(data, 0, 3, &BZIP2)) {
            mime(MIME_X_BZIP2)
        } else if (len >= 6 && slice_eq(data, 0, 6, &XZ)) {
            mime(MIME_X_XZ)
        } else if (len >= 262 && slice_eq(data, 257, 262, &USTAR)) {
            mime(MIME_X_TAR)
        } else if (len >= 2 && slice_eq(data, 0, 2, &MZ)) {
            mime(MIME_X_MSDOWNLOAD)
        } else if (len >= 8 && slice_eq(data, 0, 8, &OLE)) {
            if len > 2080 {
                if has_window(data, 2080, 4, &WORD) {
                    mime(MIME_MSWORD)
                } else if has_window(data, 2080, 5, &EXCEL) {
                    mime(MIME_VND_MS_EXCEL)
                } else if has_window(data, 2080, 10, &POWERPOINT) {
                    mime(MIME_VND_MS_POWERPOINT)
                } else {
                    mime(MIME_X_MSI)
                }
            } else {
                mime(MIME_X_MSI)
            }
        } else if (len >= 4 && slice_eq(data, 0, 4, &AR)) {
            // A Debian package is an `ar` archive whose first member is `debian-binary`.
            if (len > 20 && slice_eq(data, 8, 19, &DEBIAN)) {
                mime(MIME_X_DEB)
            } else {
                mime(MIME_OCTET_STREAM)
            }
        } else if (len >= 2 && slice_eq(data, 0, 2, &RPM)) {
            mime(MIME_X_RPM)
        } else if (len >= 4 && slice_eq(data, 0, 4, &DMG)) {
            mime(MIME_X_APPLE_DISKIMAGE)
        } else if (len >= 4 && slice_eq(data, 0, 4, &ELF)) {
            if (len > 16 && data[16] == 2u8) {
                mime(MIME_VND_APPIMAGE)
            } else {
                mime(MIME_OCTET_STREAM)
            }
        } else if (len >= 4 && slice_eq(data, 0, 4, &WOFF)) {
            mime(MIME_WOFF)
        } else if (len >= 4 && slice_eq(data, 0, 4, &WOFF2)) {
            mime(MIME_WOFF2)
        } else if (len >= 5 && slice_eq(data, 0, 5, &TTF)) {
            mime(MIME_TTF)
        } else if (len >= 4 && slice_eq(data, 0, 4, &OTTO)) {
            mime(MIME_OTF)
        } else if (len >= 4 && slice_eq(data, 0, 4, &SWF)) {
            mime(MIME_X_SHOCKWAVE_FLASH)
        } else if (len >= 8 && slice_eq(data, 0, 8, &WASM)) {
            mime(MIME_WASM)
        } else if (len >= 5 && slice_eq(data, 0, 5, &DOCTYPE)) {
            mime(MIME_TEXT_HTML)
        } else if (len >= 5 && slice_eq(data, 0, 5, &HTML_LOWER)) {
            mime(MIME_TEXT_HTML)
        } else if (len >= 5 && slice_eq(data, 0, 5, &HTML_UPPER)) {
            // HTML whose opening tag is in capitals.
            mime(MIME_TEXT_HTML)
        } else if is_likely_text(data) {
            if (!data.is_empty() && data[0] == 123u8) {
                mime(MIME_JSON)
            } else if (len >= 3 && slice_eq(data, 0, 3, &YAML_START)) {
                mime(MIME_YAML)
            } else if (has_window(data, 0, 9, &SHEBANG_SH) || has_window(data, 0, 9, &SHEBANG_BASH)) {
                mime(MIME_X_SH)
            } else if has_window(data, 0, 15, &SHEBANG_PYTHON) {
                mime(MIME_X_PYTHON)
            } else {
                mime(MIME_TEXT_PLAIN)
            }
        } else {
            mime(MIME_OCTET_STREAM)
        }
    }

    /// The file extension offered for `mime_type` ("bin" when unknown).
    pub fn get_extension(&self, mime_type: &str) -> (res: String)
        ensures
            res@ == spec_lookup_extension(spec_extension_table(), mime_type@),
    {
        proof {
            use_type_invariant(self);
        }
        let key = String::from_str(mime_type);
        let mut i: usize = 0;
        assert(self.table().skip(0) =~= self.table());
        while i < self.mime_to_ext.len()
            invariant
                i <= self.mime_to_ext@.len(),
                key@ == mime_type@,
                self.table() == spec_extension_table(),
                spec_lookup_extension(self.table(), key@)
                    == spec_lookup_extension(self.table().skip(i as int), key@),
            decreases self.mime_to_ext@.len() - i,
        {
            assert(self.table().skip(i as int).drop_first() =~= self.table().skip(i + 1));
            if self.mime_to_ext[i].0 == key {
                return self.mime_to_ext[i].1.clone();
            }
            i = i + 1;
        }
        String::from_str(DEFAULT_EXTENSION)
    }
}

fn mime(s: &str) -> (res: String)
    ensures
        res@ == s@,
{
    String::from_str(s)
}

/// Whether `data[lo..hi]` equals `pat`.
fn slice_eq(data: &[u8], lo: usize, hi: usize, pat: &[u8]) -> (res: bool)
    requires
        lo <= hi <= data@.len(),
    ensures
        res == seq_at(data@, lo as int, hi as int, pat@),
{
    if hi - lo != pat.len() {
        return false;
    }
    let mut i: usize = 0;
    while i < pat.len()
        invariant
            hi - lo == pat@.len(),
            lo <= hi <= data@.len(),
            i <= pat@.len(),
            forall|j: int| 0 <= j < i ==> data@[lo + j] == pat@[j],
        decreases pat@.len() - i,
    {
        if data[lo + i] != pat[i] {
            assert(data@.subrange(lo as int, hi as int)[i as int] != pat@[i as int]);
            return false;
        }
        i = i + 1;
    }
    assert(data@.subrange(lo as int, hi as int) =~= pat@);
    true
}

/// Whether some window of `width` bytes starting at or after `start` equals `pat`.
fn has_window(data: &[u8], start: usize, width: usize, pat: &[u8]) -> (res: bool)
    requires
        width > 0,
    ensures
        res == spec_has_window(data@, start as int, width as int, pat@),
{
    if start > data.len() || data.len() - start < width {
        return false;
    }
    let mut i: usize = start;
    while i <= data.len() - width
        invariant
            start <= i,
            i <= data@.len(),
            0 < width <= data@.len(),
            forall|j: int| start <= j < i ==> #[trigger] data@.subrange(j, j + width) != pat@,
        decreases data@.len() - i,
    {
        if slice_eq(data, i, i + width, pat) {
            return true;
        }
        i = i + 1;
    }
    false
}

fn is_likely_text(data: &[u8]) -> (res: bool)
    ensures
        res == spec_is_likely_text(data@),
{
    let sample_size = if data.len() < 512 { data.len() } else { 512 };
    let mut text_chars: usize = 0;
    let mut i: usize = 0;
    while i < sample_size
        invariant
            sample_size <= data@.len(),
            sample_size <= 512,
            i <= sample_size,
            text_chars <= i,
            text_chars == spec_count_text(data@.take(i as int)),
        decreases sample_size - i,
    {
        let byte = data[i];
        assert(data@.take(i + 1).drop_last() =~= data@.take(i as int));
        if byte == 9u8 || byte == 10u8 || byte == 13u8 || (32u8 <= byte && byte < 127u8) {
            text_chars = text_chars + 1;
        }
        i = i + 1;
    }
    text_chars > (sample_size * 85) / 100
}

/// Whether a string is "bin", the extension of unknown content.
spec fn is_bin(s: Seq<char>) -> bool {
    s.len() == 3 && s[0] == 'b' && s[1] == 'i' && s[2] == 'n'
}

/// No table entry from position `k` on has the extension "bin".
spec fn table_exts_from(k: int) -> bool
    decreases 85 - k,
{
    if k >= 85 {
        true
    } else {
        !is_bin(spec_extension_table()[k].1) && table_exts_from(k + 1)
    }
}

proof fn lemma_table_exts_from(k: int, i: int)
    requires
        0 <= k <= i < 85,
        table_exts_from(k),
    ensures
        !is_bin(spec_extension_table()[i].1),
    decreases i - k,
{
    if k < i {
        lemma_table_exts_from(k + 1, i);
    }
}

/// No extension in the table is "bin".
proof fn lemma_table_has_no_bin()
    ensures
        forall|i: int| 0 <= i < spec_extension_table().len() ==> !is_bin(#[trigger] spec_extension_table()[i].1),
{
    // Each extension of the table is spelled out, then the entries are
    // checked from the last one back to the first.
    reveal_strlit("3gp");
    reveal_strlit("7z");
    reveal_strlit("aac");
    reveal_strlit("apng");
    reveal_strlit("appimage");
    reveal_strlit("avi");
    reveal_strlit("avif");
    reveal_strlit("bmp");
    reveal_strlit("bz2");
    reveal_strlit("c");
    reveal_strlit("cpp");
    reveal_strlit("css");
    reveal_strlit("csv");
    reveal_strlit("deb");
    reveal_strlit("dmg");
    reveal_strlit("doc");
    reveal_strlit("docx");
    reveal_strlit("exe");
    reveal_strlit("flac");
    reveal_strlit("flv");
    reveal_strlit("gif");
    reveal_strlit("go");
    reveal_strlit("gz");
    reveal_strlit("heic");
    reveal_strlit("heif");
    reveal_strlit("html");
    reveal_strlit("ico");
    reveal_strlit("iso");
    reveal_strlit("jar");
    reveal_strlit("java");
    reveal_strlit("jpg");
    reveal_strlit("js");
    reveal_strlit("json");
    reveal_strlit("jxl");
    reveal_strlit("m4a");
    reveal_strlit("md");
    reveal_strlit("midi");
    reveal_strlit("mkv");
    reveal_strlit("mov");
    reveal_strlit("mp3");
    reveal_strlit("mp4");
    reveal_strlit("mpeg");
    reveal_strlit("msi");
    reveal_strlit("odp");
    reveal_strlit("ods");
    reveal_strlit("odt");
    reveal_strlit("ogg");
    reveal_strlit("ogv");
    reveal_strlit("opus");
    reveal_strlit("otf");
    reveal_strlit("pdf");
    reveal_strlit("php");
    reveal_strlit("png");
    reveal_strlit("ppt");
    reveal_strlit("pptx");
    reveal_strlit("py");
    reveal_strlit("rar");
    reveal_strlit("rb");
    reveal_strlit("rpm");
    reveal_strlit("rs");
    reveal_strlit("rtf");
    reveal_strlit("sh");
    reveal_strlit("svg");
    reveal_strlit("swf");
    reveal_strlit("tar");
    reveal_strlit("tiff");
    reveal_strlit("toml");
    reveal_strlit("ts");
    reveal_strlit("ttf");
    reveal_strlit("txt");
    reveal_strlit("wasm");
    reveal_strlit("wav");
    reveal_strlit("weba");
    reveal_strlit("webm");
    reveal_strlit("webp");
    reveal_strlit("woff");
    reveal_strlit("woff2");
    reveal_strlit("xls");
    reveal_strlit("xlsx");
    reveal_strlit("xml");
    reveal_strlit("xz");
    reveal_strlit("yaml");
    reveal_strlit("zip");
    assert(table_exts_from(85));
    assert(table_exts_from(84));
    assert(table_exts_from(83));
    assert(table_exts_from(82));
    assert(table_exts_from(81));
    assert(table_exts_from(80));
    assert(table_exts_from(79));
    assert(table_exts_from(78));
    assert(table_exts_from(77));
    assert(table_exts_from(76));
    assert(table_exts_from(75));
    assert(table_exts_from(74));
    assert(table_exts_from(73));
    assert(table_exts_from(72));
    assert(table_exts_from(71));
    assert(table_exts_from(70));
    assert(table_exts_from(69));
    assert(table_exts_from(68));
    assert(table_exts_from(67));
    assert(table_exts_from(66));
    assert(table_exts_from(65));
    assert(table_exts_from(64));
    assert(table_exts_from(63));
    assert(table_exts_from(62));
    assert(table_exts_from(61));
    assert(table_exts_from(60));
    assert(table_exts_from(59));
    assert(table_exts_from(58));
    assert(table_exts_from(57));
    assert(table_exts_from(56));
    assert(table_exts_from(55));
    assert(table_exts_from(54));
    assert(table_exts_from(53));
    assert(table_exts_from(52));
    assert(table_exts_from(51));
    assert(table_exts_from(50));
    assert(table_exts_from(49));
    assert(table_exts_from(48));
    assert(table_exts_from(47));
    assert(table_exts_from(46));
    assert(table_exts_from(45));
    assert(table_exts_from(44));
    assert(table_exts_from(43));
    assert(table_exts_from(42));
    assert(table_exts_from(41));
    assert(table_exts_from(40));
    assert(table_exts_from(39));
    assert(table_exts_from(38));
    assert(table_exts_from(37));
    assert(table_exts_from(36));
    assert(table_exts_from(35));
    assert(table_exts_from(34));
    assert(table_exts_from(33));
    assert(table_exts_from(32));
    assert(table_exts_from(31));
    assert(table_exts_from(30));
    assert(table_exts_from(29));
    assert(table_exts_from(28));
    assert(table_exts_from(27));
    assert(table_exts_from(26));
    assert(table_exts_from(25));
    assert(table_exts_from(24));
    assert(table_exts_from(23));
    assert(table_exts_from(22));
    assert(table_exts_from(21));
    assert(table_exts_from(20));
    assert(table_exts_from(19));
    assert(table_exts_from(18));
    assert(table_exts_from(17));
    assert(table_exts_from(16));
    assert(table_exts_from(15));
    assert(table_exts_from(14));
    assert(table_exts_from(13));
    assert(table_exts_from(12));
    assert(table_exts_from(11));
    assert(table_exts_from(10));
    assert(table_exts_from(9));
    assert(table_exts_from(8));
    assert(table_exts_from(7));
    assert(table_exts_from(6));
    assert(table_exts_from(5));
    assert(table_exts_from(4));
    assert(table_exts_from(3));
    assert(table_exts_from(2));
    assert(table_exts_from(1));
    assert(table_exts_from(0));
    assert forall|i: int| 0 <= i < spec_extension_table().len() implies !is_bin(
        #[trigger] spec_extension_table()[i].1,
    ) by {
        lemma_table_exts_from(0, i);
    }
}

/// A content type with an entry in a table whose extensions are not "bin"
/// is looked up to an extension other than "bin".
proof fn lemma_lookup_found(t: Seq<(Seq<char>, Seq<char>)>, m: Seq<char>, k: int)
    requires
        0 <= k < t.len(),
        t[k].0 == m,
        forall|i: int| 0 <= i < t.len() ==> !is_bin(#[trigger] t[i].1),
    ensures
        spec_lookup_extension(t, m) != DEFAULT_EXTENSION@,
    decreases t.len(),
{
    reveal_strlit("bin");
    if t[0].0 == m {
        assert(!is_bin(t[0].1));
    } else {
        let rest = t.drop_first();
        assert(rest[k - 1] == t[k]);
        assert forall|i: int| 0 <= i < rest.len() implies !is_bin(#[trigger] rest[i].1) by {
            assert(rest[i] == t[i + 1]);
        }
        lemma_lookup_found(rest, m, k - 1);
    }
}

/// Every content type that detection names, other than the
/// `application/octet-stream` fallback, has an extension of its own in the
/// detector's table: looking it up never falls back to "bin".
pub proof fn lemma_detected_types_have_extensions(data: Seq<u8>)
    ensures
        spec_detect(data) == MIME_OCTET_STREAM@ || spec_lookup_extension(spec_extension_table(), spec_detect(data))
            != DEFAULT_EXTENSION@,
{
    let t = spec_extension_table();
    lemma_table_has_no_bin();
    lemma_lookup_found(t, MIME_AAC@, 28);
    lemma_lookup_found(t, MIME_APPLICATION_XML@, 48);
    lemma_lookup_found(t, MIME_AUDIO_MPEG@, 23);
    lemma_lookup_found(t, MIME_AUDIO_OGG@, 24);
    lemma_lookup_found(t, MIME_AVIF@, 8);
    lemma_lookup_found(t, MIME_BMP@, 5);
    lemma_lookup_found(t, MIME_DOCX@, 52);
    lemma_lookup_found(t, MIME_FLAC@, 27);
    lemma_lookup_found(t, MIME_GIF@, 2);
    lemma_lookup_found(t, MIME_GZIP@, 36);
    lemma_lookup_found(t, MIME_HEIC@, 10);
    lemma_lookup_found(t, MIME_HEIF@, 11);
    lemma_lookup_found(t, MIME_JPEG@, 1);
    lemma_lookup_found(t, MIME_JSON@, 47);
    lemma_lookup_found(t, MIME_JXL@, 12);
    lemma_lookup_found(t, MIME_MIDI@, 30);
    lemma_lookup_found(t, MIME_MSWORD@, 55);
    lemma_lookup_found(t, MIME_OPUS@, 29);
    lemma_lookup_found(t, MIME_OTF@, 82);
    lemma_lookup_found(t, MIME_PDF@, 32);
    lemma_lookup_found(t, MIME_PNG@, 0);
    lemma_lookup_found(t, MIME_PPTX@, 54);
    lemma_lookup_found(t, MIME_QUICKTIME@, 17);
    lemma_lookup_found(t, MIME_SVG@, 4);
    lemma_lookup_found(t, MIME_TEXT_HTML@, 66);
    lemma_lookup_found(t, MIME_TEXT_PLAIN@, 65);
    lemma_lookup_found(t, MIME_TIFF@, 7);
    lemma_lookup_found(t, MIME_TTF@, 81);
    lemma_lookup_found(t, MIME_VIDEO_MP4@, 13);
    lemma_lookup_found(t, MIME_VIDEO_MPEG@, 22);
    lemma_lookup_found(t, MIME_VIDEO_OGG@, 15);
    lemma_lookup_found(t, MIME_VND_APPIMAGE@, 46);
    lemma_lookup_found(t, MIME_VND_MS_EXCEL@, 56);
    lemma_lookup_found(t, MIME_VND_MS_POWERPOINT@, 57);
    lemma_lookup_found(t, MIME_WASM@, 51);
    lemma_lookup_found(t, MIME_WAV@, 25);
    lemma_lookup_found(t, MIME_WEBP@, 3);
    lemma_lookup_found(t, MIME_WOFF@, 83);
    lemma_lookup_found(t, MIME_WOFF2@, 84);
    lemma_lookup_found(t, MIME_XLSX@, 53);
    lemma_lookup_found(t, MIME_X_7Z_COMPRESSED@, 34);
    lemma_lookup_found(t, MIME_X_APPLE_DISKIMAGE@, 45);
    lemma_lookup_found(t, MIME_X_BZIP2@, 37);
    lemma_lookup_found(t, MIME_X_DEB@, 43);
    lemma_lookup_found(t, MIME_X_FLV@, 19);
    lemma_lookup_found(t, MIME_X_ICON@, 6);
    lemma_lookup_found(t, MIME_X_M4A@, 31);
    lemma_lookup_found(t, MIME_X_MATROSKA@, 16);
    lemma_lookup_found(t, MIME_X_MSDOWNLOAD@, 41);
    lemma_lookup_found(t, MIME_X_MSI@, 42);
    lemma_lookup_found(t, MIME_X_MSVIDEO@, 18);
    lemma_lookup_found(t, MIME_X_PYTHON@, 72);
    lemma_lookup_found(t, MIME_X_RAR_COMPRESSED@, 35);
    lemma_lookup_found(t, MIME_X_RPM@, 44);
    lemma_lookup_found(t, MIME_X_SH@, 80);
    lemma_lookup_found(t, MIME_X_SHOCKWAVE_FLASH@, 62);
    lemma_lookup_found(t, MIME_X_TAR@, 39);
    lemma_lookup_found(t, MIME_X_XZ@, 38);
    lemma_lookup_found(t, MIME_YAML@, 49);
    lemma_lookup_found(t, MIME_ZIP@, 33);
}

} // verus!
