use opencat::keyed::KeyedMap;
use opencat::realm::{driver_fn_name, RealmDrivers};
use opencat::script::{
    align_items_from_name, asset_id_for_script_locator, default_tile_mode, driver_from_source,
    driver_id_from_source, flex_direction_from_name, justify_content_from_name,
    object_fit_from_name, position_from_name, script_error, text_align_from_name, xorshift32,
    ImageRef, PrecomputedScriptHost, RuntimeEffectChildRef, ScriptChildSpec, ScriptDriver,
    ScriptDriverId, ScriptTargetRegistry, TileModeName,
};
use opencat::style::{AlignItems, FlexDirection, JustifyContent, ObjectFit, Position, TextAlign};
use opencat::test_support::MockScriptHost;

#[test]
fn install_returns_stable_id() {
    let mut host = MockScriptHost::new();
    let id1 = host.install("ctx => {}").unwrap();
    let id2 = host.install("ctx => {}").unwrap();
    assert_eq!(id1, id2);
}

#[test]
fn mock_host_hands_out_sequential_ids() {
    let mut host = MockScriptHost::new();
    assert_eq!(host.install("a").unwrap(), ScriptDriverId(1));
    assert_eq!(host.install("b").unwrap(), ScriptDriverId(2));
    assert_eq!(host.install("a").unwrap(), ScriptDriverId(1));
    assert_eq!(host.next_id, 2);
}

#[test]
fn script_locators_map_to_asset_ids() {
    assert_eq!(asset_id_for_script_locator("scripts/a.js").0, "script:path:scripts/a.js");
    assert_eq!(
        asset_id_for_script_locator("https://cdn.example/a.js").0,
        "script:url:https://cdn.example/a.js"
    );
    assert_eq!(
        asset_id_for_script_locator("http://cdn.example/a.js").0,
        "script:url:http://cdn.example/a.js"
    );
    assert_eq!(asset_id_for_script_locator("httpx").0, "script:path:httpx");
}

#[test]
fn script_error_names_the_binding() {
    assert_eq!(script_error("drawImageRect", "bad rect".to_string()).message, "script binding `drawImageRect`: bad rect");
}

#[test]
fn inline_driver_keys_by_source() {
    let d = driver_from_source("ctx => 1").unwrap();
    assert_eq!(d.source, "ctx => 1");
    assert!(!d.is_external_pending());
    assert_eq!(d.driver_id(), driver_id_from_source("ctx => 1"));
    assert_eq!(d.cache_key(), d.driver_id().0);
    let same = ScriptDriver::from_source("ctx => 1").unwrap();
    assert_eq!(same.driver_id(), d.driver_id());
    let other = ScriptDriver::from_source("ctx => 2").unwrap();
    assert_ne!(other.driver_id(), d.driver_id());
}

#[test]
fn external_driver_keys_by_asset_ids() {
    let d = ScriptDriver::from_external("scripts/a.js".to_string());
    assert!(d.is_external_pending());
    assert_eq!(d.externals.len(), 1);
    assert_eq!(d.externals[0].locator, "scripts/a.js");
    assert_eq!(d.driver_key(), "script:path:scripts/a.js");
    assert_eq!(d.driver_id(), driver_id_from_source("script:path:scripts/a.js"));

    let multi = ScriptDriver::from_pieces(
        vec!["let x = 1;".to_string()],
        vec!["a.js".to_string(), "https://h/b.js".to_string()],
    );
    assert_eq!(multi.driver_key(), "script:path:a.js\0script:url:https://h/b.js");
    assert_eq!(multi.external.as_ref().unwrap().locator, "a.js");
    let none = ScriptDriver::from_pieces(vec![], vec![]);
    assert!(none.external.is_none());
    assert!(!none.is_external_pending());
}

#[test]
fn host_texts_resolve_in_declaration_order() {
    let mut d = ScriptDriver::from_pieces(
        vec!["const a = 1;".to_string()],
        vec!["a.js".to_string(), "b.js".to_string()],
    );
    let mut texts = KeyedMap::new();
    texts.insert("script:path:b.js".to_string(), "B();".to_string());
    texts.insert("script:path:a.js".to_string(), "A();".to_string());
    d.resolve_with_host_texts(&texts);
    assert_eq!(d.source, "const a = 1;\nA();\nB();");
    assert!(!d.is_external_pending());

    let mut missing = ScriptDriver::from_external("c.js".to_string());
    missing.resolve_with_host_texts(&texts);
    assert_eq!(missing.source, "");
    assert!(missing.is_external_pending());

    let mut inline = ScriptDriver::from_source("keep").unwrap();
    inline.resolve_with_host_texts(&texts);
    assert_eq!(inline.source, "keep");
}

#[test]
fn target_registry_membership() {
    let mut reg = ScriptTargetRegistry::new();
    reg.visual_ids.insert("hero".to_string(), ());
    reg.canvas_ids.insert("board".to_string(), ());
    assert!(reg.contains_visual("hero"));
    assert!(!reg.contains_visual("board"));
    assert!(reg.contains_canvas("board"));
    assert!(!reg.contains_non_visual("hero"));
}

#[test]
fn style_keywords_decode() {
    assert_eq!(position_from_name("absolute"), Some(Position::Absolute));
    assert_eq!(position_from_name("fixed"), None);
    assert_eq!(flex_direction_from_name("column"), Some(FlexDirection::Col));
    assert_eq!(flex_direction_from_name("col"), Some(FlexDirection::Col));
    assert_eq!(justify_content_from_name("evenly"), Some(JustifyContent::Evenly));
    assert_eq!(align_items_from_name("stretch"), Some(AlignItems::Stretch));
    assert_eq!(align_items_from_name("between"), None);
    assert_eq!(object_fit_from_name("cover"), Some(ObjectFit::Cover));
    assert_eq!(text_align_from_name("right"), Some(TextAlign::Right));
    assert_eq!(text_align_from_name("Right"), None);
}

#[test]
fn xorshift_is_deterministic_and_nonzero() {
    assert_eq!(xorshift32(1), 270369);
    assert_eq!(xorshift32(42), xorshift32(42));
    assert_ne!(xorshift32(0), 0);
    assert_eq!(xorshift32(0), xorshift32(0x9E37_79B9));
}

#[test]
fn image_child_spec_becomes_static_image_ref() {
    assert_eq!(default_tile_mode(), TileModeName::Clamp);
    let spec = ScriptChildSpec::Image {
        asset_id: "decor".to_string(),
        tile_x: TileModeName::Clamp,
        tile_y: TileModeName::Repeat,
    };
    match spec.to_ir_child_ref() {
        RuntimeEffectChildRef::Image(ImageRef::Static { asset_id }) => assert_eq!(asset_id, "decor"),
        _ => panic!("expected a static image child"),
    }
}

#[test]
fn precomputed_host_stores_mutations_by_driver() {
    let mut host: PrecomputedScriptHost<u32> = PrecomputedScriptHost::new();
    assert!(host.mutations.is_empty());
    host.insert(ScriptDriverId(7), 70);
    host.insert(ScriptDriverId(7), 71);
    assert_eq!(host.mutations.get(&7), Some(&71));
    let single = PrecomputedScriptHost::from_single(5u32);
    assert_eq!(single.mutations.get(&0), Some(&5));
    assert_eq!(host.install("x").unwrap(), driver_id_from_source("x"));
}

#[test]
fn realm_installs_each_source_once() {
    let mut realm = RealmDrivers::new();
    let (id, js) = realm.install("ctx => 1");
    assert_eq!(id, driver_id_from_source("ctx => 1"));
    let js = js.expect("first install yields JS");
    let name = driver_fn_name(id);
    assert_eq!(name, format!("__opencatDriver_{}", id.0));
    assert_eq!(js.define_js, format!("globalThis.{name} = function() {{\nctx => 1\n}};"));
    assert_eq!(js.register_js, format!("globalThis.__opencatDrivers['{}'] = globalThis.{name};", id.0));
    let (again, js2) = realm.install("ctx => 1");
    assert_eq!(again, id);
    assert!(js2.is_none());
    assert_eq!(realm.run_target(id).unwrap(), name);
    let err = realm.run_target(ScriptDriverId(7)).unwrap_err();
    assert_eq!(err.message, "script driver 7 not installed in realm");
}

#[test]
fn frame_mutations_prefer_the_drivers_own_else_all_stored() {
    let mut host: PrecomputedScriptHost<u32> = PrecomputedScriptHost::new();
    assert!(host.mutations_for_frame(ScriptDriverId(1)).is_empty());

    host.insert(ScriptDriverId(1), 10);
    host.insert(ScriptDriverId(2), 20);
    assert_eq!(host.mutations_for_frame(ScriptDriverId(2)), vec![&20]);

    let mut all: Vec<u32> = host.mutations_for_frame(ScriptDriverId(9)).into_iter().copied().collect();
    all.sort();
    assert_eq!(all, vec![10, 20]);
}
