use opencat::glsl::{
    emit_const_param, expand_defines, expand_func_macro, extract_inline_default,
    find_matching_paren, inline_global_initializers, is_identifier_char, is_inlineable_global,
    is_swizzle_char, is_word_char, normalize_gltransition_name, replace_glsl_types,
    replace_identifier_tokens, replace_swizzle, replace_word, split_args, strip_precision_blocks,
    vector_scalar_type,
};

fn cs(s: &str) -> Vec<char> {
    s.chars().collect()
}

fn st(v: &[char]) -> String {
    v.iter().collect()
}

#[test]
fn word_and_identifier_chars() {
    assert!(is_word_char('a') && is_word_char('Z') && is_word_char('7') && is_word_char('_'));
    assert!(!is_word_char('-') && !is_word_char('é'));
    assert!(is_identifier_char('_') && !is_identifier_char('.'));
    assert!(is_swizzle_char('x') && is_swizzle_char('a') && !is_swizzle_char('q'));
}

#[test]
fn replace_word_respects_word_boundaries() {
    assert_eq!(st(&replace_word(&cs("a + ab + a"), &cs("a"), &cs("x"))), "x + ab + x");
    assert_eq!(st(&replace_word(&cs("ratio*ratio_2"), &cs("ratio"), &cs("r"))), "r*ratio_2");
    assert_eq!(st(&replace_word(&cs("none"), &cs("zz"), &cs("y"))), "none");
}

#[test]
fn parens_and_arguments() {
    assert_eq!(find_matching_paren(&cs("f(a(b)c)d"), 1), Some(7));
    assert_eq!(find_matching_paren(&cs("(a"), 0), None);
    assert_eq!(find_matching_paren(&cs("ab"), 0), None);
    assert_eq!(find_matching_paren(&cs("()"), 5), None);
    let args: Vec<String> = split_args(&cs("a, f(b, c) , d")).iter().map(|a| st(a)).collect();
    assert_eq!(args, vec!["a", "f(b, c)", "d"]);
    let trailing: Vec<String> = split_args(&cs("x,  ")).iter().map(|a| st(a)).collect();
    assert_eq!(trailing, vec!["x"]);
}

#[test]
fn swizzles_and_precision() {
    assert_eq!(st(&replace_swizzle(&cs("v.xy + v.xyz"), &cs("xy"), &cs("rg"))), "v.rg + v.xyz");
    assert_eq!(st(&strip_precision_blocks(&cs("#ifdef GL_ES\nx"))), "#ifdef \nx");
}

#[test]
fn glsl_types_become_sksl_types() {
    assert_eq!(
        st(&replace_glsl_types(&cs("vec2 a = vec2(1.0); ivec3 b; mat2 m; vec4x"))),
        "float2 a = float2(1.0); int3 b; float2x2 m; vec4x"
    );
    let rules = vec![(cs("foo"), cs("bar"))];
    assert_eq!(st(&replace_identifier_tokens(&cs("foo(foo_1)+foo"), &rules)), "bar(foo_1)+bar");
    assert_eq!(vector_scalar_type(&cs("ivec2")), "int");
    assert_eq!(vector_scalar_type(&cs("vec3")), "float");
}

#[test]
fn const_params_and_names() {
    let mut out = cs("// params\n");
    emit_const_param(&mut out, &cs("float"), &cs("p"), &cs("1.0"));
    assert_eq!(st(&out), "// params\nconst float p = 1.0;\n");
    assert_eq!(st(&normalize_gltransition_name(&cs(" Cross-Zoom_v2 "))), "crosszoomv2");
}

#[test]
fn inline_defaults_in_comments() {
    let (code, default) = extract_inline_default(&cs("uniform float p; /* = 0.5 */ // c"));
    assert_eq!(st(&code), "uniform float p;  ");
    assert_eq!(default.map(|d| st(&d)), Some("0.5".to_string()));
    let (code, default) = extract_inline_default(&cs("uniform vec2 d; /* no default */"));
    assert_eq!(st(&code), "uniform vec2 d; ");
    assert_eq!(default, None);
}

#[test]
fn global_initializers_are_inlined() {
    assert_eq!(
        is_inlineable_global(&cs("float t = 0.5;")).map(|(n, e)| (st(&n), st(&e))),
        Some(("t".to_string(), "0.5".to_string()))
    );
    assert_eq!(is_inlineable_global(&cs("const float t = 1.0;")), None);
    assert_eq!(is_inlineable_global(&cs("vec2 t = x;")), None);
    assert_eq!(is_inlineable_global(&cs("float f(float x) = 1;")), None);
    assert_eq!(
        st(&inline_global_initializers(&cs("float k = 2.0;\nvoid main() { x = k; }"))),
        "void main() { x = (2.0); }"
    );
    assert_eq!(st(&inline_global_initializers(&cs("void main() {}\n"))), "void main() {}\n");
}

#[test]
fn defines_are_expanded() {
    assert_eq!(
        st(&expand_defines(&cs("#define N 3\n#define SQ(x) ((x)*(x))\nint a = SQ(N);"))),
        "int a = ((3)*(3));"
    );
    assert_eq!(
        st(&expand_defines(&cs("#ifdef GL_ES\nprecision mediump float;\n#endif\n#define A 1 // one\nfloat b = A;"))),
        "float b = 1;"
    );
    let params = vec![cs("a"), cs("b")];
    assert_eq!(
        st(&expand_func_macro(&cs("y = MIX(p, q) + MIXED(1);"), &cs("MIX"), &params, &cs("a*b"))),
        "y = p*q + MIXED(1);"
    );
}
