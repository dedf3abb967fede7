//! Helpers of the browser frame oracle: the static routes its local web
//! server answers, content types by file extension, and decoding of the
//! RGBA hex dumps the browser returns.

use vstd::prelude::*;
use crate::chars::{chars_of, owned, push_all, string_of};
use crate::errors::{digit_char_spec, digits, push_digits};
use vstd::string::StringSliceAdditionalSpecFns;

verus! {

/// Error of an oracle helper.
#[derive(Debug)]
pub struct OracleError {
    pub message: String,
}

/// `Path::new(path).extension()` as text, when it is valid UTF-8. It is
/// public because contracts of the library name it. Nothing is stated of
/// its result: std reads paths by the local platform's syntax (for
/// example, `a.b\c` has the extension `b\c` on Unix and none on
/// Windows).
#[verifier::external_body]
pub fn path_extension(path: &str) -> (r: Option<String>) {
    std::path::Path::new(path).extension().and_then(|e| e.to_str()).map(|e| e.to_string())
}

/// `Path::new(base).join(rel)` as text. It is public because contracts of
/// the library name it. Nothing is stated of its result: std joins
/// by the local platform's separator and rules for absolute paths.
#[verifier::external_body]
pub fn path_join(base: &str, rel: &str) -> (r: String) {
    std::path::Path::new(base).join(rel).to_string_lossy().into_owned()
}

/// `ext` is a result `path_extension` can give for a string holding `path`.
pub open spec fn extension_of(path: Seq<char>, ext: Option<String>) -> bool {
    exists|p: &str| p@ == path && #[trigger] call_ensures(path_extension, (p,), ext)
}

/// `joined` is a result `path_join` can give for strings holding `base` and
/// `rel`.
pub open spec fn joined_path(base: Seq<char>, rel: Seq<char>, joined: String) -> bool {
    exists|b: &str, r: &str| b@ == base && r@ == rel && #[trigger] call_ensures(path_join, (b, r), joined)
}

/// Text of an extension, a missing one read as empty.
pub open spec fn extension_text(ext: Option<String>) -> Seq<char> {
    match ext {
        Some(e) => e@,
        None => Seq::empty(),
    }
}

fn extension_with<F: Fn(&str) -> Option<String>>(f: &F, path: &str) -> (r: Option<String>)
    requires
        call_requires(*f, (path,)),
    ensures
        call_ensures(*f, (path,), r),
{
    f(path)
}

fn join_with<F: Fn(&str, &str) -> String>(f: &F, base: &str, rel: &str) -> (r: String)
    requires
        call_requires(*f, (base, rel)),
    ensures
        call_ensures(*f, (base, rel), r),
{
    f(base, rel)
}

/// Content type served for a file extension.
pub open spec fn content_type_spec(ext: Seq<char>) -> Seq<char> {
    if ext == "html"@ {
        "text/html; charset=utf-8"@
    } else if ext == "js"@ {
        "application/javascript; charset=utf-8"@
    } else if ext == "json"@ || ext == "map"@ {
        "application/json; charset=utf-8"@
    } else if ext == "wasm"@ {
        "application/wasm"@
    } else if ext == "css"@ {
        "text/css; charset=utf-8"@
    } else {
        "application/octet-stream"@
    }
}

/// Content type served for a file extension.
pub fn content_type_for_extension(ext: &str) -> (r: &'static str)
    ensures
        r@ == content_type_spec(ext@),
{
    if crate::chars::text_eq(ext, "html") {
        "text/html; charset=utf-8"
    } else if crate::chars::text_eq(ext, "js") {
        "application/javascript; charset=utf-8"
    } else if crate::chars::text_eq(ext, "json") || crate::chars::text_eq(ext, "map") {
        "application/json; charset=utf-8"
    } else if crate::chars::text_eq(ext, "wasm") {
        "application/wasm"
    } else if crate::chars::text_eq(ext, "css") {
        "text/css; charset=utf-8"
    } else {
        "application/octet-stream"
    }
}

/// Content type served for a file: that of its extension as the platform's
/// `Path::extension` reads it (`path_extension`), with a missing or
/// non-UTF-8 extension read as empty.
pub fn content_type_for(path: &str) -> (r: &'static str)
    ensures
        exists|e: Option<String>|
            #[trigger] extension_of(path@, e) && r@ == content_type_spec(extension_text(e)),
{
    let found = extension_with(&path_extension, path);
    assert(extension_of(path@, found));
    let ext = match found {
        Some(e) => e,
        None => String::new(),
    };
    content_type_for_extension(ext.as_str())
}

/// Static files the oracle's web server serves from the repository.
#[derive(Debug)]
pub struct StaticRoutes {
    pub repo: String,
}

/// Repository-relative file served for a request path.
pub open spec fn route_spec(request_path: Seq<char>) -> Option<Seq<char>> {
    if request_path == "/"@ || request_path == "/test-oracle.html"@ {
        Some("web/test-oracle.html"@)
    } else if request_path == "/opencat-web.js"@ {
        Some("crates/opencat-web/web/dist/opencat-web.js"@)
    } else if request_path == "/opencat-web.js.map"@ {
        Some("crates/opencat-web/web/dist/opencat-web.js.map"@)
    } else if request_path == "/canvaskit/canvaskit.js"@ {
        Some("web/node_modules/canvaskit-wasm/bin/full/canvaskit.js"@)
    } else if request_path == "/canvaskit/canvaskit.wasm"@ {
        Some("web/node_modules/canvaskit-wasm/bin/full/canvaskit.wasm"@)
    } else if request_path == "/wasm/opencat_web.js"@ {
        Some("crates/opencat-web/web/dist/opencat_web.js"@)
    } else if request_path == "/wasm/opencat_web_bg.wasm"@ {
        Some("crates/opencat-web/web/dist/opencat_web_bg.wasm"@)
    } else if request_path == "/wasm/workers/video-decode-worker.js"@ {
        Some("crates/opencat-web/web/dist/workers/video-decode-worker.js"@)
    } else if request_path == "/wasm/workers/video-decode-worker.js.map"@ {
        Some("crates/opencat-web/web/dist/workers/video-decode-worker.js.map"@)
    } else if request_path == "/wasm/web-demuxer.wasm"@ {
        Some("web/node_modules/web-demuxer/dist/wasm-files/web-demuxer.wasm"@)
    } else {
        None
    }
}

/// Repository-relative file for a request path.
pub fn route(request_path: &str) -> (r: Option<&'static str>)
    ensures
        match r {
            Some(p) => route_spec(request_path@) == Some(p@),
            None => route_spec(request_path@) is None,
        },
{
    let t = request_path;
    if crate::chars::text_eq(t, "/") || crate::chars::text_eq(t, "/test-oracle.html") {
        Some("web/test-oracle.html")
    } else if crate::chars::text_eq(t, "/opencat-web.js") {
        Some("crates/opencat-web/web/dist/opencat-web.js")
    } else if crate::chars::text_eq(t, "/opencat-web.js.map") {
        Some("crates/opencat-web/web/dist/opencat-web.js.map")
    } else if crate::chars::text_eq(t, "/canvaskit/canvaskit.js") {
        Some("web/node_modules/canvaskit-wasm/bin/full/canvaskit.js")
    } else if crate::chars::text_eq(t, "/canvaskit/canvaskit.wasm") {
        Some("web/node_modules/canvaskit-wasm/bin/full/canvaskit.wasm")
    } else if crate::chars::text_eq(t, "/wasm/opencat_web.js") {
        Some("crates/opencat-web/web/dist/opencat_web.js")
    } else if crate::chars::text_eq(t, "/wasm/opencat_web_bg.wasm") {
        Some("crates/opencat-web/web/dist/opencat_web_bg.wasm")
    } else if crate::chars::text_eq(t, "/wasm/workers/video-decode-worker.js") {
        Some("crates/opencat-web/web/dist/workers/video-decode-worker.js")
    } else if crate::chars::text_eq(t, "/wasm/workers/video-decode-worker.js.map") {
        Some("crates/opencat-web/web/dist/workers/video-decode-worker.js.map")
    } else if crate::chars::text_eq(t, "/wasm/web-demuxer.wasm") {
        Some("web/node_modules/web-demuxer/dist/wasm-files/web-demuxer.wasm")
    } else {
        None
    }
}

impl StaticRoutes {
    pub fn new(repo: &str) -> (r: Self)
        ensures
            r.repo@ == repo@,
    {
        StaticRoutes { repo: owned(repo) }
    }

    /// The file served for a request path: its repository-relative file
    /// (`route`) joined onto the repository by the platform's `Path::join`
    /// (`path_join`).
    pub fn resolve(&self, request_path: &str) -> (r: Option<String>)
        ensures
            match route_spec(request_path@) {
                Some(rel) => r matches Some(p) && joined_path(self.repo@, rel, p),
                None => r is None,
            },
    {
        match route(request_path) {
            Some(rel) => {
                let p = join_with(&path_join, self.repo.as_str(), rel);
                assert(joined_path(self.repo@, rel@, p));
                Some(p)
            },
            None => None,
        }
    }
}

/// Value of a hex digit byte.
pub open spec fn nibble_spec(b: u8) -> Option<u8> {
    if 48 <= b <= 57 {
        Some((b - 48) as u8)
    } else if 97 <= b <= 102 {
        Some((b - 97 + 10) as u8)
    } else if 65 <= b <= 70 {
        Some((b - 65 + 10) as u8)
    } else {
        None
    }
}

/// Text of the error for a byte that is no hex digit.
pub open spec fn bad_digit_text(b: u8) -> Seq<char> {
    "invalid hex digit in browser oracle rgbaHex: "@ + seq![b as char]
}

/// Hex digits read back as the value they are printed for: the lowercase
/// digit `0-9a-f` of a value below sixteen, and its uppercase form, decode
/// to that value; no other byte is a digit.
pub proof fn lemma_nibble_reads_printed_digits(d: int, b: u8)
    requires
        0 <= d < 16,
    ensures
        nibble_spec(digit_char_spec(d) as u8) == Some(d as u8),
        10 <= d ==> nibble_spec((digit_char_spec(d) as u8 - 32) as u8) == Some(d as u8),
        nibble_spec(b) is Some ==> (exists|e: int| 0 <= e < 16 && (b == digit_char_spec(e) as u8
            || (10 <= e && b == (digit_char_spec(e) as u8 - 32) as u8))),
{
    if nibble_spec(b) is Some {
        let e: int = nibble_spec(b)->0 as int;
        assert(0 <= e < 16);
        assert(b == digit_char_spec(e) as u8 || (10 <= e && b == (digit_char_spec(e) as u8 - 32) as u8));
    }
}

/// Value of a hex digit.
pub fn hex_nibble(byte: u8) -> (r: Result<u8, OracleError>)
    ensures
        match r {
            Ok(v) => nibble_spec(byte) == Some(v),
            Err(e) => nibble_spec(byte) is None && e.message@ == bad_digit_text(byte),
        },
{
    if 48 <= byte && byte <= 57 {
        Ok(byte - 48)
    } else if 97 <= byte && byte <= 102 {
        Ok(byte - 97 + 10)
    } else if 65 <= byte && byte <= 70 {
        Ok(byte - 65 + 10)
    } else {
        let mut out = chars_of("invalid hex digit in browser oracle rgbaHex: ");
        out.push(byte as char);
        Err(OracleError { message: string_of(&out) })
    }
}

/// Whether every byte is a hex digit.
pub open spec fn all_hex(bytes: Seq<u8>) -> bool {
    forall|j: int| 0 <= j < bytes.len() ==> (#[trigger] nibble_spec(bytes[j])) is Some
}

/// Byte `i` of a hex dump: high digit, then low digit.
pub open spec fn hex_byte(bytes: Seq<u8>, i: int) -> u8 {
    (nibble_spec(bytes[2 * i]).unwrap() * 16 + nibble_spec(bytes[2 * i + 1]).unwrap()) as u8
}

/// Text of the error for a dump of the wrong length.
pub open spec fn bad_length_text(len: nat, expected: nat) -> Seq<char> {
    "browser oracle rgbaHex length "@ + digits(len, 10) + " does not match expected byte length "@
        + digits(expected, 10)
}

/// Decodes a hex dump of `expected_len` bytes: the dump must have two
/// digits per byte, and the first non-digit byte is reported.
pub fn decode_hex_rgba(hex: &str, expected_len: usize) -> (r: Result<Vec<u8>, OracleError>)
    requires
        expected_len * 2 <= usize::MAX,
    ensures
        match r {
            Ok(v) => {
                &&& hex.spec_bytes().len() == expected_len * 2
                &&& all_hex(hex.spec_bytes())
                &&& v@.len() == expected_len
                &&& forall|i: int| 0 <= i < expected_len ==> v@[i] == hex_byte(hex.spec_bytes(), i)
            },
            Err(e) => if hex.spec_bytes().len() != expected_len * 2 {
                e.message@ == bad_length_text(hex.spec_bytes().len(), expected_len as nat)
            } else {
                exists|j: int|
                    0 <= j < hex.spec_bytes().len() && nibble_spec(hex.spec_bytes()[j]) is None
                        && (forall|k: int| 0 <= k < j ==> (#[trigger] nibble_spec(hex.spec_bytes()[k])) is Some)
                        && e.message@ == bad_digit_text(hex.spec_bytes()[j])
            },
        },
{
    let bytes = hex.as_bytes();
    let n: usize = bytes.len();
    if n != expected_len * 2 {
        let mut out = chars_of("browser oracle rgbaHex length ");
        push_digits(&mut out, n as u64, 10);
        push_all(&mut out, &chars_of(" does not match expected byte length "));
        push_digits(&mut out, expected_len as u64, 10);
        return Err(OracleError { message: string_of(&out) });
    }
    let mut rgba: Vec<u8> = Vec::new();
    let mut i: usize = 0;
    while i < expected_len
        invariant
            bytes@ == hex.spec_bytes(),
            bytes@.len() == expected_len * 2,
            i <= expected_len,
            rgba@.len() == i,
            forall|k: int| 0 <= k < 2 * i ==> (#[trigger] nibble_spec(bytes@[k])) is Some,
            forall|k: int| 0 <= k < i ==> rgba@[k] == hex_byte(bytes@, k),
        decreases expected_len - i,
    {
        let high: u8 = match hex_nibble(bytes[2 * i]) {
            Ok(v) => v,
            Err(e) => {
                assert(nibble_spec(bytes@[2 * i]) is None);
                return Err(e);
            },
        };
        let low: u8 = match hex_nibble(bytes[2 * i + 1]) {
            Ok(v) => v,
            Err(e) => {
                assert(nibble_spec(bytes@[2 * i + 1]) is None);
                assert(forall|k: int| 0 <= k < 2 * i + 1 ==> (#[trigger] nibble_spec(bytes@[k])) is Some);
                return Err(e);
            },
        };
        let b: u8 = high * 16 + low;
        rgba.push(b);
        i = i + 1;
    }
    assert(forall|k: int| 0 <= k < bytes@.len() ==> (#[trigger] nibble_spec(bytes@[k])) is Some);
    Ok(rgba)
}

} // verus!
