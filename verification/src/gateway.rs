//! Helpers of the HTTP gateway: which content is shown inline, how a
//! content identifier is read, the share page, and RPC endpoint defaults.

use vstd::prelude::*;
use crate::types::ObjectId;
use vstd::utf8::{decode_utf8, encode_utf8, valid_utf8};

verus! {

/// Piece 0 of the share page around its inserted values.
pub const SHARE_PAGE_0: &'static str = r#"<!DOCTYPE html>
<html lang="en">
<head>
    <meta charset="UTF-8">
    <meta name="viewport" content="width=device-width, initial-scale=1.0">
    <title>ONVM Share - "#;

/// Piece 1 of the share page around its inserted values.
pub const SHARE_PAGE_1: &'static str = r#"</title>
    <meta property="og:title" content="Shared Content on ONVM">
    <meta property="og:description" content="View shared content on ONVM decentralized network">
    <meta property="og:type" content="website">
    <style>
        * {
            margin: 0;
            padding: 0;
            box-sizing: border-box;
        }

        body {
            font-family: -apple-system, BlinkMacSystemFont, 'Segoe UI', Roboto, Oxygen, Ubuntu, Cantarell, sans-serif;
            background: linear-gradient(135deg, #667eea 0%, #764ba2 100%);
            min-height: 100vh;
            padding: 20px;
        }

        .container {
            max-width: 1200px;
            margin: 0 auto;
            background: rgba(255, 255, 255, 0.95);
            border-radius: 20px;
            box-shadow: 0 20px 60px rgba(0, 0, 0, 0.3);
            padding: 40px;
        }

        h1 {
            color: #333;
            margin-bottom: 10px;
            font-size: 2em;
        }

        .subtitle {
            color: #666;
            margin-bottom: 30px;
            font-size: 1.1em;
        }

        .info-grid {
            display: grid;
            grid-template-columns: repeat(auto-fit, minmax(200px, 1fr));
            gap: 20px;
            margin-bottom: 30px;
            padding: 20px;
            background: #f8f9fa;
            border-radius: 10px;
        }

        .info-item {
            display: flex;
            flex-direction: column;
            gap: 5px;
        }

        .info-label {
            font-weight: 600;
            color: #555;
            font-size: 0.9em;
        }

        .info-value {
            color: #333;
            font-family: monospace;
            word-break: break-all;
        }

        .preview {
            margin: 30px 0;
            text-align: center;
        }

        .actions {
            display: flex;
            gap: 15px;
            flex-wrap: wrap;
            margin-top: 30px;
        }

        .btn {
            padding: 12px 24px;
            border: none;
            border-radius: 10px;
            font-size: 16px;
            font-weight: 600;
            cursor: pointer;
            transition: transform 0.2s, box-shadow 0.2s;
            text-decoration: none;
            display: inline-block;
        }

        .btn-primary {
            background: linear-gradient(135deg, #667eea 0%, #764ba2 100%);
            color: white;
        }

        .btn-secondary {
            background: #f8f9fa;
            color: #333;
            border: 2px solid #ddd;
        }

        .btn:hover {
            transform: translateY(-2px);
            box-shadow: 0 5px 15px rgba(102, 126, 234, 0.4);
        }

        .share-links {
            margin-top: 30px;
            padding: 20px;
            background: #f8f9fa;
            border-radius: 10px;
        }

        .share-links h3 {
            margin-bottom: 15px;
            color: #333;
        }

        .share-link {
            display: flex;
            gap: 10px;
            margin: 10px 0;
        }

        .share-link input {
            flex: 1;
            padding: 10px;
            border: 2px solid #ddd;
            border-radius: 8px;
            font-family: monospace;
            font-size: 14px;
        }

        .copy-btn {
            padding: 10px 20px;
            background: #667eea;
            color: white;
            border: none;
            border-radius: 8px;
            cursor: pointer;
            font-weight: 600;
        }

        .copy-btn:hover {
            background: #5568d3;
        }

        .toast {
            position: fixed;
            top: 20px;
            right: 20px;
            padding: 15px 25px;
            background: #10b981;
            color: white;
            border-radius: 10px;
            box-shadow: 0 4px 12px rgba(0,0,0,0.2);
            opacity: 0;
            transition: opacity 0.3s;
            z-index: 1000;
        }

        .toast.show {
            opacity: 1;
        }
    </style>
</head>
<body>
    <div class="container">
        <h1>🌐 ONVM Shared Content</h1>
        <p class="subtitle">Decentralized Content Delivery Network</p>

        <div class="info-grid">
            <div class="info-item">
                <span class="info-label">Content ID</span>
                <span class="info-value">"#;

/// Piece 2 of the share page around its inserted values.
pub const SHARE_PAGE_2: &'static str = r#"</span>
            </div>
            <div class="info-item">
                <span class="info-label">Type</span>
                <span class="info-value">"#;

/// Piece 3 of the share page around its inserted values.
pub const SHARE_PAGE_3: &'static str = r#"</span>
            </div>
            <div class="info-item">
                <span class="info-label">Size</span>
                <span class="info-value">"#;

/// Piece 4 of the share page around its inserted values.
pub const SHARE_PAGE_4: &'static str = r#"</span>
            </div>
        </div>

        <div class="preview">
            "#;

/// Piece 5 of the share page around its inserted values.
pub const SHARE_PAGE_5: &'static str = r#"
        </div>

        <div class="actions">
            <a href=""#;

/// Piece 6 of the share page around its inserted values.
pub const SHARE_PAGE_6: &'static str = r#"" download class="btn btn-primary">Download</a>
            <button onclick="copyDirectLink()" class="btn btn-secondary">Copy Direct Link</button>
            <button onclick="copyEmbedCode()" class="btn btn-secondary">Copy Embed Code</button>
        </div>

        <div class="share-links">
            <h3>Share Links</h3>
            <div class="share-link">
                <input type="text" id="directLink" readonly value="{DIRECT_LINK}">
                <button class="copy-btn" onclick="copyToClipboard('directLink')">Copy</button>
            </div>
            <div class="share-link">
                <input type="text" id="embedCode" readonly value="{EMBED_CODE}">
                <button class="copy-btn" onclick="copyToClipboard('embedCode')">Copy</button>
            </div>
        </div>
    </div>

    <div class="toast" id="toast"></div>

    <script>
        const directLink = window.location.origin + '"#;

/// Piece 7 of the share page around its inserted values.
pub const SHARE_PAGE_7: &'static str = r#"';
        const embedCode = '<img src="' + directLink + '">';
        
        document.getElementById('directLink').value = directLink;
        document.getElementById('embedCode').value = embedCode;

        function copyToClipboard(elementId) {
            const input = document.getElementById(elementId);
            input.select();
            document.execCommand('copy');
            showToast('Copied to clipboard!');
        }

        function copyDirectLink() {
            copyToClipboard('directLink');
        }

        function copyEmbedCode() {
            copyToClipboard('embedCode');
        }

        function showToast(message) {
            const toast = document.getElementById('toast');
            toast.textContent = message;
            toast.className = 'toast show';
            setTimeout(() => {
                toast.className = 'toast';
            }, 3000);
        }
    </script>
</body>
</html>"#;

/// Whether `s` begins with `prefix`, character by character.
pub fn starts_with(s: &str, prefix: &str) -> (res: bool)
    ensures
        res == (prefix@.len() <= s@.len() && s@.subrange(0, prefix@.len() as int) == prefix@),
{
    let n = s.unicode_len();
    let m = prefix.unicode_len();
    if m > n {
        return false;
    }
    let mut i: usize = 0;
    while i < m
        invariant
            i <= m,
            m == prefix@.len(),
            n == s@.len(),
            m <= n,
            forall|j: int| 0 <= j < i ==> s@[j] == prefix@[j],
        decreases m - i,
    {
        if s.get_char(i) != prefix.get_char(i) {
            assert(s@.subrange(0, m as int)[i as int] != prefix@[i as int]);
            return false;
        }
        i = i + 1;
    }
    assert(s@.subrange(0, m as int) =~= prefix@);
    true
}

/// Whether two strings have the same characters.
pub fn str_eq(a: &str, b: &str) -> (res: bool)
    ensures
        res == (a@ == b@),
{
    let n = a.unicode_len();
    if n != b.unicode_len() {
        return false;
    }
    let r = starts_with(a, b);
    assert(a@.subrange(0, n as int) =~= a@);
    r
}

/// Content that the browser can show inline: images, video, audio, text and PDF.
pub open spec fn spec_is_renderable(content_type: Seq<char>) -> bool {
    let p = |prefix: Seq<char>| prefix.len() <= content_type.len() && content_type.subrange(0, prefix.len() as int) == prefix;
    p("image/"@) || p("video/"@) || p("audio/"@) || content_type == "application/pdf"@ || p("text/"@)
}

/// Whether content of this type can be shown inline.
pub fn is_renderable(content_type: &str) -> (res: bool)
    ensures
        res == spec_is_renderable(content_type@),
{
    starts_with(content_type, "image/") || starts_with(content_type, "video/") || starts_with(content_type, "audio/")
        || str_eq(content_type, "application/pdf") || starts_with(content_type, "text/")
}

/// The URL of an RPC endpoint given as `:port`, `host:port` or a full URL:
/// a bare port is on 127.0.0.1, and a missing scheme is `http://`.
pub open spec fn spec_normalize_rpc_endpoint(raw: Seq<char>) -> Seq<char> {
    let p = |prefix: Seq<char>| prefix.len() <= raw.len() && raw.subrange(0, prefix.len() as int) == prefix;
    if p(":"@) {
        "http://127.0.0.1"@ + raw
    } else if p("http://"@) || p("https://"@) {
        raw
    } else {
        "http://"@ + raw
    }
}

/// Whether `s` begins with `prefix`.
pub open spec fn spec_begins_with(s: Seq<char>, prefix: Seq<char>) -> bool {
    prefix.len() <= s.len() && s.subrange(0, prefix.len() as int) == prefix
}

/// An endpoint that already names its scheme (`http://` or `https://`) is
/// kept as it is; one given as `:port` is on `http://127.0.0.1`; any other is
/// given `http://`. So the result always begins with one scheme, once.
pub proof fn lemma_normalize_rpc_endpoint(raw: Seq<char>)
    ensures
        spec_begins_with(raw, "http://"@) || spec_begins_with(raw, "https://"@) ==> spec_normalize_rpc_endpoint(raw)
            == raw,
        spec_begins_with(raw, ":"@) ==> spec_normalize_rpc_endpoint(raw) == "http://127.0.0.1"@ + raw,
        !spec_begins_with(raw, ":"@) && !spec_begins_with(raw, "http://"@) && !spec_begins_with(raw, "https://"@)
            ==> spec_normalize_rpc_endpoint(raw) == "http://"@ + raw,
        spec_begins_with(spec_normalize_rpc_endpoint(raw), "http://"@) || spec_begins_with(
            spec_normalize_rpc_endpoint(raw),
            "https://"@,
        ),
{
    reveal_strlit(":");
    reveal_strlit("http://");
    reveal_strlit("https://");
    reveal_strlit("http://127.0.0.1");
    let out = spec_normalize_rpc_endpoint(raw);
    if spec_begins_with(raw, ":"@) {
        // The first character is ':', so no scheme is there.
        assert(raw.subrange(0, 1)[0] == raw[0]);
        if spec_begins_with(raw, "http://"@) {
            assert(raw.subrange(0, 7)[0] == raw[0]);
        }
        if spec_begins_with(raw, "https://"@) {
            assert(raw.subrange(0, 8)[0] == raw[0]);
        }
        assert(("http://127.0.0.1"@ + raw).subrange(0, 7) =~= "http://"@);
    } else if spec_begins_with(raw, "http://"@) || spec_begins_with(raw, "https://"@) {
    } else {
        assert(("http://"@ + raw).subrange(0, 7) =~= "http://"@);
    }
}

/// Normalize an RPC endpoint to a URL.
pub fn normalize_rpc_endpoint(raw: &str) -> (res: String)
    ensures
        res@ == spec_normalize_rpc_endpoint(raw@),
{
    if starts_with(raw, ":") {
        return String::from_str("http://127.0.0.1").concat(raw);
    }
    if starts_with(raw, "http://") || starts_with(raw, "https://") {
        String::from_str(raw)
    } else {
        String::from_str("http://").concat(raw)
    }
}

/// The short identifier of content: the text of the first sixteen bytes of
/// its identifier.
pub open spec fn spec_short_id(id: Seq<char>) -> Seq<char> {
    decode_utf8(encode_utf8(id).take(16))
}

/// The share page of a piece of content: its short identifier, type, size,
/// preview markup and download URL inserted into the page template.
pub open spec fn spec_share_page(id: Seq<char>, mime_type: Seq<char>, size: Seq<char>, preview_html: Seq<char>, cdn_url: Seq<char>) -> Seq<char> {
    let short = spec_short_id(id);
    SHARE_PAGE_0@ + short + SHARE_PAGE_1@ + short + SHARE_PAGE_2@ + mime_type + SHARE_PAGE_3@ + size
        + SHARE_PAGE_4@ + preview_html + SHARE_PAGE_5@ + cdn_url + SHARE_PAGE_6@ + cdn_url + SHARE_PAGE_7@
}

/// Render the share page of a piece of content.
pub fn generate_share_page(id: &str, mime_type: &str, size: &str, preview_html: &str, cdn_url: &str) -> (res: String)
    requires
        encode_utf8(id@).len() >= 16,
        valid_utf8(encode_utf8(id@).take(16)),
    ensures
        res@ == spec_share_page(id@, mime_type@, size@, preview_html@, cdn_url@),
{
    let bytes = id.as_bytes();
    let mut head: Vec<u8> = Vec::new();
    let mut i: usize = 0;
    while i < 16
        invariant
            i <= 16,
            bytes@ == encode_utf8(id@),
            bytes@.len() >= 16,
            head@ == bytes@.take(i as int),
        decreases 16 - i,
    {
        head.push(bytes[i]);
        assert(bytes@.take(i + 1) =~= bytes@.take(i as int).push(bytes@[i as int]));
        i = i + 1;
    }
    let short_text = crate::rpc_auth::utf8_text(head).unwrap();
    let short = short_text.as_str();
    let mut page = String::from_str(SHARE_PAGE_0);
    page.append(short);
    page.append(SHARE_PAGE_1);
    page.append(short);
    page.append(SHARE_PAGE_2);
    page.append(mime_type);
    page.append(SHARE_PAGE_3);
    page.append(size);
    page.append(SHARE_PAGE_4);
    page.append(preview_html);
    page.append(SHARE_PAGE_5);
    page.append(cdn_url);
    page.append(SHARE_PAGE_6);
    page.append(cdn_url);
    page.append(SHARE_PAGE_7);
    page
}

/// The value of a hexadecimal digit, if the character is one.
pub open spec fn spec_hex_digit(c: char) -> Option<int> {
    if '0' <= c <= '9' {
        Some(c as int - '0' as int)
    } else if 'a' <= c <= 'f' {
        Some(c as int - 'a' as int + 10)
    } else if 'A' <= c <= 'F' {
        Some(c as int - 'A' as int + 10)
    } else {
        None
    }
}

/// The bytes that a hexadecimal string encodes, two digits per byte, when
/// it has an even number of hexadecimal digits and nothing else.
pub open spec fn spec_hex_decode(text: Seq<char>) -> Option<Seq<u8>> {
    if text.len() % 2 == 0 && forall|i: int| 0 <= i < text.len() ==> #[trigger] spec_hex_digit(text[i]) is Some {
        Some(Seq::new((text.len() / 2) as nat, |i: int|
            (spec_hex_digit(text[2 * i])->0 * 16 + spec_hex_digit(text[2 * i + 1])->0) as u8))
    } else {
        None
    }
}

/// Calls `hex::decode`: the bytes the text encodes when it is an even
/// number of hexadecimal digits (either case), and an error otherwise.
#[verifier::external_body]
pub(crate) fn hex_decode(text: &str) -> (res: Option<Vec<u8>>)
    ensures
        match spec_hex_decode(text@) {
            Some(b) => res matches Some(v) && v@ == b,
            None => res is None,
        },
{
    hex::decode(text).ok()
}

/// The lowercase hexadecimal digit of a value below 16.
pub open spec fn spec_hex_char(x: int) -> char {
    if x < 10 { ('0' as int + x) as char } else { ('a' as int + x - 10) as char }
}

/// Two lowercase hexadecimal digits per byte, high digit first.
pub open spec fn spec_hex_encode(bytes: Seq<u8>) -> Seq<char> {
    Seq::new(2 * bytes.len(), |i: int| spec_hex_char(if i % 2 == 0 { bytes[i / 2] as int / 16 } else { bytes[i / 2] as int % 16 }))
}

/// Calls `hex::encode`: two lowercase hexadecimal digits per byte.
#[verifier::external_body]
pub(crate) fn hex_encode(bytes: &[u8]) -> (res: String)
    ensures
        res@ == spec_hex_encode(bytes@),
{
    hex::encode(bytes)
}

/// Decoding what was encoded gives back the bytes.
pub proof fn lemma_hex_roundtrip(bytes: Seq<u8>)
    ensures
        spec_hex_decode(spec_hex_encode(bytes)) == Some(bytes),
{
    let t = spec_hex_encode(bytes);
    assert forall|x: int| 0 <= x < 16 implies #[trigger] spec_hex_digit(spec_hex_char(x)) == Some(x) by {
        if x < 10 {
            assert(spec_hex_char(x) as int == '0' as int + x);
        } else {
            assert(spec_hex_char(x) as int == 'a' as int + x - 10);
        }
    }
    assert forall|i: int| 0 <= i < t.len() implies #[trigger] spec_hex_digit(t[i]) is Some by {
        let v = if i % 2 == 0 { bytes[i / 2] as int / 16 } else { bytes[i / 2] as int % 16 };
        assert(0 <= v < 16);
        assert(spec_hex_digit(spec_hex_char(v as int)) == Some(v as int));
    }
    assert(t.len() % 2 == 0);
    let d = Seq::new((t.len() / 2) as nat, |i: int|
        (spec_hex_digit(t[2 * i])->0 * 16 + spec_hex_digit(t[2 * i + 1])->0) as u8);
    assert forall|i: int| 0 <= i < bytes.len() implies d[i] == bytes[i] by {
        let hi = bytes[i] as int / 16;
        let lo = bytes[i] as int % 16;
        assert((2 * i) % 2 == 0 && (2 * i) / 2 == i);
        assert((2 * i + 1) % 2 == 1 && (2 * i + 1) / 2 == i);
        assert(spec_hex_digit(spec_hex_char(hi as int)) == Some(hi as int));
        assert(spec_hex_digit(spec_hex_char(lo as int)) == Some(lo as int));
        assert(hi * 16 + lo == bytes[i]);
    }
    assert(d =~= bytes);
}

/// Why a content identifier was refused.
#[derive(Clone, Copy, Debug, PartialEq, Eq, Structural)]
pub enum IdError {
    /// The identifier is not hexadecimal.
    NotHex,
    /// The identifier does not encode 32 bytes.
    WrongLength,
}

/// Read a content identifier: 64 hexadecimal digits.
pub fn parse_id(id_hex: &str) -> (res: Result<ObjectId, IdError>)
    ensures
        match spec_hex_decode(id_hex@) {
            None => res == Err::<ObjectId, IdError>(IdError::NotHex),
            Some(b) => if b.len() != 32 {
                res == Err::<ObjectId, IdError>(IdError::WrongLength)
            } else {
                res matches Ok(id) && id.0@ == b
            },
        },
{
    let decoded = match hex_decode(id_hex) {
        Some(d) => d,
        None => return Err(IdError::NotHex),
    };
    if decoded.len() != 32 {
        return Err(IdError::WrongLength);
    }
    let mut arr = [0u8; 32];
    let mut i: usize = 0;
    while i < 32
        invariant
            i <= 32,
            decoded@.len() == 32,
            forall|j: int| 0 <= j < i ==> arr@[j] == decoded@[j],
        decreases 32 - i,
    {
        arr[i] = decoded[i];
        i = i + 1;
    }
    assert(arr@ =~= decoded@);
    Ok(ObjectId(arr))
}

/// Where the gateway listens.
#[derive(Clone, Debug, PartialEq, Eq)]
pub struct GatewayConfig {
    pub listen_addr: String,
}

/// What the gateway reports of a blob.
#[derive(Clone, Debug, PartialEq, Eq)]
pub struct BlobInfo {
    pub id: String,
    pub size: u64,
    pub chunk_count: u32,
    pub subchunk_count: u64,
    pub available_locally: bool,
    pub mime_type: Option<String>,
    pub detected_mime_type: Option<String>,
}

/// The gateway's embedded web assets.
pub struct UiAssets;

/// Blobs larger than this are always sent as downloads.
pub const SIZE_THRESHOLD_BYTES: u64 = 52_428_800;

/// How a blob is sent.
#[derive(Clone, Debug, PartialEq, Eq)]
pub enum BlobDelivery {
    /// Shown in the browser.
    Inline,
    /// Sent as a download under this file name.
    Attachment(String),
}

/// How a blob of `size` bytes and type `content_type` is sent: as a
/// download, named by the first twelve characters of its identifier and
/// its extension, when one is asked for, when it is over the size
/// threshold or when browsers cannot show it; else inline.
pub fn blob_delivery(download: bool, size: u64, content_type: &str, id_hex: &str, extension: &str) -> (res: BlobDelivery)
    requires
        id_hex.is_ascii(),
        id_hex@.len() >= 12,
    ensures
        (download || size > SIZE_THRESHOLD_BYTES || !spec_is_renderable(content_type@)) ==>
            (res matches BlobDelivery::Attachment(name) && name@ == id_hex@.subrange(0, 12) + "."@ + extension@),
        !(download || size > SIZE_THRESHOLD_BYTES || !spec_is_renderable(content_type@)) ==> res == BlobDelivery::Inline,
{
    if download || size > SIZE_THRESHOLD_BYTES || !is_renderable(content_type) {
        let prefix = id_hex.substring_ascii(0, 12);
        BlobDelivery::Attachment(String::from_str(prefix).concat(".").concat(extension))
    } else {
        BlobDelivery::Inline
    }
}

/// The `Content-Disposition` value of a download named `filename`.
pub fn attachment_disposition(filename: &str) -> (res: String)
    ensures
        res@ == "attachment; filename=\""@ + filename@ + "\""@,
{
    String::from_str("attachment; filename=\"").concat(filename).concat("\"")
}

} // verus!
