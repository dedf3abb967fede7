use opencat::oracle::{
    content_type_for, content_type_for_extension, decode_hex_rgba, hex_nibble, route, StaticRoutes,
};

#[test]
fn content_types_by_extension() {
    assert_eq!(content_type_for("web/test-oracle.html"), "text/html; charset=utf-8");
    assert_eq!(content_type_for("dist/a.js"), "application/javascript; charset=utf-8");
    assert_eq!(content_type_for("dist/a.js.map"), "application/json; charset=utf-8");
    assert_eq!(content_type_for("a.wasm"), "application/wasm");
    assert_eq!(content_type_for("style.css"), "text/css; charset=utf-8");
    assert_eq!(content_type_for("README"), "application/octet-stream");
    assert_eq!(content_type_for(".bashrc"), "application/octet-stream");
}

#[test]
fn static_routes_map_request_paths() {
    let routes = StaticRoutes::new("/repo");
    assert_eq!(routes.resolve("/"), Some("/repo/web/test-oracle.html".to_string()));
    assert_eq!(
        routes.resolve("/wasm/opencat_web_bg.wasm"),
        Some("/repo/crates/opencat-web/web/dist/opencat_web_bg.wasm".to_string())
    );
    assert_eq!(routes.resolve("/etc/passwd"), None);
}

#[test]
fn hex_digits_and_dumps_decode() {
    assert_eq!(hex_nibble(b'7').ok(), Some(7));
    assert_eq!(hex_nibble(b'c').ok(), Some(12));
    assert_eq!(hex_nibble(b'F').ok(), Some(15));
    assert_eq!(
        hex_nibble(b'g').err().map(|e| e.message),
        Some("invalid hex digit in browser oracle rgbaHex: g".to_string())
    );
    assert_eq!(decode_hex_rgba("ff00Aa10", 4).ok(), Some(vec![255, 0, 170, 16]));
    assert_eq!(
        decode_hex_rgba("ff0", 2).err().map(|e| e.message),
        Some("browser oracle rgbaHex length 3 does not match expected byte length 2".to_string())
    );
    assert_eq!(
        decode_hex_rgba("0z", 1).err().map(|e| e.message),
        Some("invalid hex digit in browser oracle rgbaHex: z".to_string())
    );
}

#[test]
fn content_types_by_extension_and_routes() {
    assert_eq!(content_type_for_extension("map"), "application/json; charset=utf-8");
    assert_eq!(content_type_for_extension("css"), "text/css; charset=utf-8");
    assert_eq!(content_type_for_extension(""), "application/octet-stream");
    assert_eq!(content_type_for_extension("HTML"), "application/octet-stream");
    assert_eq!(route("/test-oracle.html"), Some("web/test-oracle.html"));
    assert_eq!(
        route("/canvaskit/canvaskit.wasm"),
        Some("web/node_modules/canvaskit-wasm/bin/full/canvaskit.wasm")
    );
    assert_eq!(route("/canvaskit/"), None);
}
