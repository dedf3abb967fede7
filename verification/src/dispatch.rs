//! The script binding table seen from JavaScript.
//!
//! The host registers a single native entry point, `__opencatCallNative(name,
//! args)`; every binding is reached through a JS shim function named after it
//! that forwards its arguments to that entry point.

use vstd::prelude::*;
use crate::chars::{chars_of, push_all, string_of, text_eq};

verus! {

/// Number of script bindings.
pub open spec fn binding_count() -> int {
    131
}

/// Name of binding `i`, in table order: node style mutations, canvas
/// commands, queries, then pure helpers.
pub open spec fn binding_name_spec(i: int) -> Seq<char> {
    if i == 0 {
        "record_opacity"@
    } else if i == 1 {
        "record_translate_x"@
    } else if i == 2 {
        "record_translate_y"@
    } else if i == 3 {
        "record_translate"@
    } else if i == 4 {
        "record_scale"@
    } else if i == 5 {
        "record_scale_x"@
    } else if i == 6 {
        "record_scale_y"@
    } else if i == 7 {
        "record_rotate"@
    } else if i == 8 {
        "record_skew_x"@
    } else if i == 9 {
        "record_skew_y"@
    } else if i == 10 {
        "record_skew"@
    } else if i == 11 {
        "record_position"@
    } else if i == 12 {
        "record_left"@
    } else if i == 13 {
        "record_top"@
    } else if i == 14 {
        "record_right"@
    } else if i == 15 {
        "record_bottom"@
    } else if i == 16 {
        "record_width"@
    } else if i == 17 {
        "record_height"@
    } else if i == 18 {
        "record_padding"@
    } else if i == 19 {
        "record_padding_x"@
    } else if i == 20 {
        "record_padding_y"@
    } else if i == 21 {
        "record_margin"@
    } else if i == 22 {
        "record_margin_x"@
    } else if i == 23 {
        "record_margin_y"@
    } else if i == 24 {
        "record_flex_direction"@
    } else if i == 25 {
        "record_justify_content"@
    } else if i == 26 {
        "record_align_items"@
    } else if i == 27 {
        "record_gap"@
    } else if i == 28 {
        "record_flex_grow"@
    } else if i == 29 {
        "record_bg"@
    } else if i == 30 {
        "record_border_radius"@
    } else if i == 31 {
        "record_border_width"@
    } else if i == 32 {
        "record_border_top_width"@
    } else if i == 33 {
        "record_border_right_width"@
    } else if i == 34 {
        "record_border_bottom_width"@
    } else if i == 35 {
        "record_border_left_width"@
    } else if i == 36 {
        "record_border_style"@
    } else if i == 37 {
        "record_border_color"@
    } else if i == 38 {
        "record_stroke_width"@
    } else if i == 39 {
        "record_stroke_dasharray"@
    } else if i == 40 {
        "record_stroke_dashoffset"@
    } else if i == 41 {
        "record_stroke_color"@
    } else if i == 42 {
        "record_fill_color"@
    } else if i == 43 {
        "record_object_fit"@
    } else if i == 44 {
        "record_text_color"@
    } else if i == 45 {
        "record_text_size"@
    } else if i == 46 {
        "record_font_weight"@
    } else if i == 47 {
        "record_letter_spacing"@
    } else if i == 48 {
        "record_text_align"@
    } else if i == 49 {
        "record_line_height"@
    } else if i == 50 {
        "record_shadow"@
    } else if i == 51 {
        "record_shadow_color"@
    } else if i == 52 {
        "record_inset_shadow"@
    } else if i == 53 {
        "record_inset_shadow_color"@
    } else if i == 54 {
        "record_drop_shadow"@
    } else if i == 55 {
        "record_drop_shadow_color"@
    } else if i == 56 {
        "record_text_content"@
    } else if i == 57 {
        "record_svg_path"@
    } else if i == 58 {
        "canvas_save"@
    } else if i == 59 {
        "canvas_restore"@
    } else if i == 60 {
        "canvas_restore_to_count"@
    } else if i == 61 {
        "canvas_translate"@
    } else if i == 62 {
        "canvas_scale"@
    } else if i == 63 {
        "canvas_rotate"@
    } else if i == 64 {
        "canvas_clip_rect"@
    } else if i == 65 {
        "canvas_draw_line"@
    } else if i == 66 {
        "canvas_fill_circle"@
    } else if i == 67 {
        "canvas_stroke_circle"@
    } else if i == 68 {
        "canvas_fill_rrect"@
    } else if i == 69 {
        "canvas_stroke_rrect"@
    } else if i == 70 {
        "canvas_begin_path"@
    } else if i == 71 {
        "canvas_move_to"@
    } else if i == 72 {
        "canvas_line_to"@
    } else if i == 73 {
        "canvas_quad_to"@
    } else if i == 74 {
        "canvas_cubic_to"@
    } else if i == 75 {
        "canvas_close_path"@
    } else if i == 76 {
        "canvas_path_add_rect"@
    } else if i == 77 {
        "canvas_path_add_rrect"@
    } else if i == 78 {
        "canvas_path_add_oval"@
    } else if i == 79 {
        "canvas_path_add_arc"@
    } else if i == 80 {
        "canvas_fill_path"@
    } else if i == 81 {
        "canvas_stroke_path"@
    } else if i == 82 {
        "canvas_stroke_arc"@
    } else if i == 83 {
        "canvas_fill_oval"@
    } else if i == 84 {
        "canvas_stroke_oval"@
    } else if i == 85 {
        "canvas_clip_path"@
    } else if i == 86 {
        "canvas_clip_rrect"@
    } else if i == 87 {
        "canvas_skew"@
    } else if i == 88 {
        "canvas_draw_image_simple"@
    } else if i == 89 {
        "canvas_save_layer"@
    } else if i == 90 {
        "canvas_set_fill_style"@
    } else if i == 91 {
        "canvas_set_stroke_style"@
    } else if i == 92 {
        "canvas_set_line_width"@
    } else if i == 93 {
        "canvas_set_line_cap"@
    } else if i == 94 {
        "canvas_set_line_join"@
    } else if i == 95 {
        "canvas_set_line_dash"@
    } else if i == 96 {
        "canvas_clear_line_dash"@
    } else if i == 97 {
        "canvas_set_global_alpha"@
    } else if i == 98 {
        "canvas_set_anti_alias"@
    } else if i == 99 {
        "canvas_clear"@
    } else if i == 100 {
        "canvas_draw_paint"@
    } else if i == 101 {
        "canvas_draw_text"@
    } else if i == 102 {
        "canvas_fill_rect"@
    } else if i == 103 {
        "canvas_stroke_rect"@
    } else if i == 104 {
        "canvas_draw_image"@
    } else if i == 105 {
        "canvas_draw_arc"@
    } else if i == 106 {
        "canvas_draw_arc_to_center"@
    } else if i == 107 {
        "canvas_draw_points"@
    } else if i == 108 {
        "canvas_fill_drrect"@
    } else if i == 109 {
        "canvas_stroke_drrect"@
    } else if i == 110 {
        "canvas_concat"@
    } else if i == 111 {
        "record_text_unit_override"@
    } else if i == 112 {
        "animate_create"@
    } else if i == 113 {
        "morph_svg_create"@
    } else if i == 114 {
        "morph_svg_dispose"@
    } else if i == 115 {
        "along_path_create"@
    } else if i == 116 {
        "along_path_dispose"@
    } else if i == 117 {
        "animate_value"@
    } else if i == 118 {
        "animate_color"@
    } else if i == 119 {
        "animate_progress"@
    } else if i == 120 {
        "animate_settled"@
    } else if i == 121 {
        "animate_settle_frame"@
    } else if i == 122 {
        "morph_svg_sample"@
    } else if i == 123 {
        "along_path_length"@
    } else if i == 124 {
        "along_path_at"@
    } else if i == 125 {
        "text_units_describe"@
    } else if i == 126 {
        "text_source_get"@
    } else if i == 127 {
        "canvas_measure_text"@
    } else if i == 128 {
        "util_random_seeded"@
    } else if i == 129 {
        "text_graphemes"@
    } else if i == 130 {
        "easing_apply"@
    } else {
        Seq::empty()
    }
}

/// Name of binding `i`.
#[verifier::rlimit(50)]
fn binding_name(i: usize) -> (r: &'static str)
    requires
        i < binding_count(),
    ensures
        r@ == binding_name_spec(i as int),
{
    match i {
        0 => "record_opacity",
        1 => "record_translate_x",
        2 => "record_translate_y",
        3 => "record_translate",
        4 => "record_scale",
        5 => "record_scale_x",
        6 => "record_scale_y",
        7 => "record_rotate",
        8 => "record_skew_x",
        9 => "record_skew_y",
        10 => "record_skew",
        11 => "record_position",
        12 => "record_left",
        13 => "record_top",
        14 => "record_right",
        15 => "record_bottom",
        16 => "record_width",
        17 => "record_height",
        18 => "record_padding",
        19 => "record_padding_x",
        20 => "record_padding_y",
        21 => "record_margin",
        22 => "record_margin_x",
        23 => "record_margin_y",
        24 => "record_flex_direction",
        25 => "record_justify_content",
        26 => "record_align_items",
        27 => "record_gap",
        28 => "record_flex_grow",
        29 => "record_bg",
        30 => "record_border_radius",
        31 => "record_border_width",
        32 => "record_border_top_width",
        33 => "record_border_right_width",
        34 => "record_border_bottom_width",
        35 => "record_border_left_width",
        36 => "record_border_style",
        37 => "record_border_color",
        38 => "record_stroke_width",
        39 => "record_stroke_dasharray",
        40 => "record_stroke_dashoffset",
        41 => "record_stroke_color",
        42 => "record_fill_color",
        43 => "record_object_fit",
        44 => "record_text_color",
        45 => "record_text_size",
        46 => "record_font_weight",
        47 => "record_letter_spacing",
        48 => "record_text_align",
        49 => "record_line_height",
        50 => "record_shadow",
        51 => "record_shadow_color",
        52 => "record_inset_shadow",
        53 => "record_inset_shadow_color",
        54 => "record_drop_shadow",
        55 => "record_drop_shadow_color",
        56 => "record_text_content",
        57 => "record_svg_path",
        58 => "canvas_save",
        59 => "canvas_restore",
        60 => "canvas_restore_to_count",
        61 => "canvas_translate",
        62 => "canvas_scale",
        63 => "canvas_rotate",
        64 => "canvas_clip_rect",
        65 => "canvas_draw_line",
        66 => "canvas_fill_circle",
        67 => "canvas_stroke_circle",
        68 => "canvas_fill_rrect",
        69 => "canvas_stroke_rrect",
        70 => "canvas_begin_path",
        71 => "canvas_move_to",
        72 => "canvas_line_to",
        73 => "canvas_quad_to",
        74 => "canvas_cubic_to",
        75 => "canvas_close_path",
        76 => "canvas_path_add_rect",
        77 => "canvas_path_add_rrect",
        78 => "canvas_path_add_oval",
        79 => "canvas_path_add_arc",
        80 => "canvas_fill_path",
        81 => "canvas_stroke_path",
        82 => "canvas_stroke_arc",
        83 => "canvas_fill_oval",
        84 => "canvas_stroke_oval",
        85 => "canvas_clip_path",
        86 => "canvas_clip_rrect",
        87 => "canvas_skew",
        88 => "canvas_draw_image_simple",
        89 => "canvas_save_layer",
        90 => "canvas_set_fill_style",
        91 => "canvas_set_stroke_style",
        92 => "canvas_set_line_width",
        93 => "canvas_set_line_cap",
        94 => "canvas_set_line_join",
        95 => "canvas_set_line_dash",
        96 => "canvas_clear_line_dash",
        97 => "canvas_set_global_alpha",
        98 => "canvas_set_anti_alias",
        99 => "canvas_clear",
        100 => "canvas_draw_paint",
        101 => "canvas_draw_text",
        102 => "canvas_fill_rect",
        103 => "canvas_stroke_rect",
        104 => "canvas_draw_image",
        105 => "canvas_draw_arc",
        106 => "canvas_draw_arc_to_center",
        107 => "canvas_draw_points",
        108 => "canvas_fill_drrect",
        109 => "canvas_stroke_drrect",
        110 => "canvas_concat",
        111 => "record_text_unit_override",
        112 => "animate_create",
        113 => "morph_svg_create",
        114 => "morph_svg_dispose",
        115 => "along_path_create",
        116 => "along_path_dispose",
        117 => "animate_value",
        118 => "animate_color",
        119 => "animate_progress",
        120 => "animate_settled",
        121 => "animate_settle_frame",
        122 => "morph_svg_sample",
        123 => "along_path_length",
        124 => "along_path_at",
        125 => "text_units_describe",
        126 => "text_source_get",
        127 => "canvas_measure_text",
        128 => "util_random_seeded",
        129 => "text_graphemes",
        130 => "easing_apply",
        _ => "",
    }
}

/// Names of the script bindings, in table order.
pub fn for_each_binding_name() -> (r: Vec<&'static str>)
    ensures
        r@.len() == binding_count(),
        forall|i: int| 0 <= i < r@.len() ==> (#[trigger] r@[i])@ == binding_name_spec(i),
{
    let mut names: Vec<&'static str> = Vec::new();
    let mut i: usize = 0;
    while i < 131
        invariant
            i <= 131,
            names@.len() == i,
            forall|j: int| 0 <= j < i ==> (#[trigger] names@[j])@ == binding_name_spec(j),
        decreases 131 - i,
    {
        names.push(binding_name(i));
        i = i + 1;
    }
    names
}

/// Shim line of one binding:
/// `globalThis.__<name> = (...a) => __opencatCallNative('<name>', a);`,
/// which forwards all its call arguments to the native dispatcher under
/// `<name>`.
pub open spec fn shim_line(name: Seq<char>) -> Seq<char> {
    "globalThis.__"@ + name + " = (...a) => __opencatCallNative('"@ + name + "', a);\n"@
}

/// Shim lines of the first `k` bindings, in order.
pub open spec fn shim_spec(k: int) -> Seq<char>
    decreases k,
{
    if k <= 0 {
        Seq::empty()
    } else {
        shim_spec(k - 1) + shim_line(binding_name_spec(k - 1))
    }
}

/// JS source that defines the shim function of every binding.
pub fn binding_shim_js() -> (r: String)
    ensures
        r@ == shim_spec(binding_count()),
{
    let names = for_each_binding_name();
    let mut buf: Vec<char> = Vec::new();
    let mut i: usize = 0;
    while i < names.len()
        invariant
            i <= names@.len(),
            names@.len() == binding_count(),
            forall|j: int| 0 <= j < names@.len() ==> (#[trigger] names@[j])@ == binding_name_spec(j),
            buf@ == shim_spec(i as int),
        decreases names@.len() - i,
    {
        let name = chars_of(names[i]);
        push_all(&mut buf, &chars_of("globalThis.__"));
        push_all(&mut buf, &name);
        push_all(&mut buf, &chars_of(" = (...a) => __opencatCallNative('"));
        push_all(&mut buf, &name);
        push_all(&mut buf, &chars_of("', a);\n"));
        assert(names@[i as int]@ == binding_name_spec(i as int));
        i = i + 1;
        assert(buf@ =~= shim_spec(i as int));
    }
    string_of(&buf)
}

/// No two bindings share a name.
pub open spec fn names_distinct() -> bool {
    forall|i: int, j: int|
        0 <= i < j < binding_count() ==> #[trigger] binding_name_spec(i) != #[trigger] binding_name_spec(j)
}

/// Whether no two bindings share a name, checked by comparing every pair of
/// names of the table.
pub fn binding_names_are_distinct() -> (r: bool)
    ensures
        r == names_distinct(),
{
    let mut i: usize = 0;
    while i < 131
        invariant
            i <= 131,
            forall|a: int, b: int|
                0 <= a < i && a < b < binding_count() ==> #[trigger] binding_name_spec(a)
                    != #[trigger] binding_name_spec(b),
        decreases 131 - i,
    {
        let mut j: usize = i + 1;
        while j < 131
            invariant
                i < 131,
                i < j <= 131,
                forall|a: int, b: int|
                    0 <= a < i && a < b < binding_count() ==> #[trigger] binding_name_spec(a)
                        != #[trigger] binding_name_spec(b),
                forall|b: int| i < b < j ==> binding_name_spec(i as int) != #[trigger] binding_name_spec(b),
            decreases 131 - j,
        {
            if text_eq(binding_name(i), binding_name(j)) {
                return false;
            }
            j = j + 1;
        }
        i = i + 1;
    }
    true
}

/// The binding table, in order, is exactly the list of names the native
/// dispatcher and the JS runtime use, from `record_opacity` to
/// `easing_apply`.
pub proof fn lemma_binding_table()
    ensures
        forall|i: int|
            0 <= i < 131 ==> #[trigger] binding_name_spec(i) == seq![
            "record_opacity"@,
            "record_translate_x"@,
            "record_translate_y"@,
            "record_translate"@,
            "record_scale"@,
            "record_scale_x"@,
            "record_scale_y"@,
            "record_rotate"@,
            "record_skew_x"@,
            "record_skew_y"@,
            "record_skew"@,
            "record_position"@,
            "record_left"@,
            "record_top"@,
            "record_right"@,
            "record_bottom"@,
            "record_width"@,
            "record_height"@,
            "record_padding"@,
            "record_padding_x"@,
            "record_padding_y"@,
            "record_margin"@,
            "record_margin_x"@,
            "record_margin_y"@,
            "record_flex_direction"@,
            "record_justify_content"@,
            "record_align_items"@,
            "record_gap"@,
            "record_flex_grow"@,
            "record_bg"@,
            "record_border_radius"@,
            "record_border_width"@,
            "record_border_top_width"@,
            "record_border_right_width"@,
            "record_border_bottom_width"@,
            "record_border_left_width"@,
            "record_border_style"@,
            "record_border_color"@,
            "record_stroke_width"@,
            "record_stroke_dasharray"@,
            "record_stroke_dashoffset"@,
            "record_stroke_color"@,
            "record_fill_color"@,
            "record_object_fit"@,
            "record_text_color"@,
            "record_text_size"@,
            "record_font_weight"@,
            "record_letter_spacing"@,
            "record_text_align"@,
            "record_line_height"@,
            "record_shadow"@,
            "record_shadow_color"@,
            "record_inset_shadow"@,
            "record_inset_shadow_color"@,
            "record_drop_shadow"@,
            "record_drop_shadow_color"@,
            "record_text_content"@,
            "record_svg_path"@,
            "canvas_save"@,
            "canvas_restore"@,
            "canvas_restore_to_count"@,
            "canvas_translate"@,
            "canvas_scale"@,
            "canvas_rotate"@,
            "canvas_clip_rect"@,
            "canvas_draw_line"@,
            "canvas_fill_circle"@,
            "canvas_stroke_circle"@,
            "canvas_fill_rrect"@,
            "canvas_stroke_rrect"@,
            "canvas_begin_path"@,
            "canvas_move_to"@,
            "canvas_line_to"@,
            "canvas_quad_to"@,
            "canvas_cubic_to"@,
            "canvas_close_path"@,
            "canvas_path_add_rect"@,
            "canvas_path_add_rrect"@,
            "canvas_path_add_oval"@,
            "canvas_path_add_arc"@,
            "canvas_fill_path"@,
            "canvas_stroke_path"@,
            "canvas_stroke_arc"@,
            "canvas_fill_oval"@,
            "canvas_stroke_oval"@,
            "canvas_clip_path"@,
            "canvas_clip_rrect"@,
            "canvas_skew"@,
            "canvas_draw_image_simple"@,
            "canvas_save_layer"@,
            "canvas_set_fill_style"@,
            "canvas_set_stroke_style"@,
            "canvas_set_line_width"@,
            "canvas_set_line_cap"@,
            "canvas_set_line_join"@,
            "canvas_set_line_dash"@,
            "canvas_clear_line_dash"@,
            "canvas_set_global_alpha"@,
            "canvas_set_anti_alias"@,
            "canvas_clear"@,
            "canvas_draw_paint"@,
            "canvas_draw_text"@,
            "canvas_fill_rect"@,
            "canvas_stroke_rect"@,
            "canvas_draw_image"@,
            "canvas_draw_arc"@,
            "canvas_draw_arc_to_center"@,
            "canvas_draw_points"@,
            "canvas_fill_drrect"@,
            "canvas_stroke_drrect"@,
            "canvas_concat"@,
            "record_text_unit_override"@,
            "animate_create"@,
            "morph_svg_create"@,
            "morph_svg_dispose"@,
            "along_path_create"@,
            "along_path_dispose"@,
            "animate_value"@,
            "animate_color"@,
            "animate_progress"@,
            "animate_settled"@,
            "animate_settle_frame"@,
            "morph_svg_sample"@,
            "along_path_length"@,
            "along_path_at"@,
            "text_units_describe"@,
            "text_source_get"@,
            "canvas_measure_text"@,
            "util_random_seeded"@,
            "text_graphemes"@,
            "easing_apply"@,
        ][i],
{
}

} // verus!
