use opencat::dispatch::{binding_names_are_distinct, binding_shim_js, for_each_binding_name};

#[test]
fn binding_table_lists_every_binding_once() {
    let names = for_each_binding_name();
    assert_eq!(names.len(), 131);
    assert_eq!(names[0], "record_opacity");
    assert_eq!(names[names.len() - 1], "easing_apply");
    assert!(names.contains(&"canvas_draw_image"));
    assert!(names.contains(&"text_units_describe"));
    let mut sorted = names.clone();
    sorted.sort();
    sorted.dedup();
    assert_eq!(sorted.len(), names.len());
}

#[test]
fn shim_forwards_each_binding_to_the_dispatcher() {
    let shim = binding_shim_js();
    assert!(shim.starts_with(
        "globalThis.__record_opacity = (...a) => __opencatCallNative('record_opacity', a);\n"
    ));
    assert!(shim.ends_with(
        "globalThis.__easing_apply = (...a) => __opencatCallNative('easing_apply', a);\n"
    ));
    assert_eq!(shim.lines().count(), 131);
}

#[test]
fn binding_names_are_pairwise_distinct() {
    assert!(binding_names_are_distinct());
}
