use opencat::transition::{
    default_param_to_sksl, gl_transition_glsl_to_sksl, replace_transition_uniforms, DefaultParam,
    ParamType, ParamValue, EPILOGUE, PRELUDE,
};

fn cs(s: &str) -> Vec<char> {
    s.chars().collect()
}

fn st(v: &[char]) -> String {
    v.iter().collect()
}

fn num(i: &str, f: &str) -> ParamValue {
    ParamValue::Number { int_literal: i.into(), float_literal: f.into() }
}

fn ty(name: &str, t: Option<&str>) -> ParamType {
    ParamType { name: name.into(), value_type: t.map(String::from) }
}

fn def(name: &str, value: ParamValue, json: &str) -> DefaultParam {
    DefaultParam { name: name.into(), value, json: json.into() }
}

#[test]
fn default_values_render_by_type() {
    let lit = |t: &str, v: &ParamValue| default_param_to_sksl(&cs(t), v).map(|x| st(&x));
    assert_eq!(lit("bool", &ParamValue::Bool(true)), Some("true".into()));
    assert_eq!(lit("float", &num("2", "2.0")), Some("2.0".into()));
    assert_eq!(lit("int", &num("2", "2.0")), Some("2".into()));
    assert_eq!(lit("vec3", &num("1", "1.0")), Some("vec3(1.0)".into()));
    assert_eq!(lit("ivec2", &num("1", "1.0")), Some("ivec2(1)".into()));
    assert_eq!(
        lit("ivec2", &ParamValue::Array(vec![num("1", "1.0"), num("2", "2.0")])),
        Some("ivec2(1, 2)".into())
    );
    assert_eq!(lit("vec2", &ParamValue::Array(vec![num("1", "1.0"), ParamValue::Other])), None);
    assert_eq!(lit("float", &ParamValue::Text("sin(1.0)".into())), Some("sin(1.0)".into()));
    assert_eq!(lit("float", &ParamValue::Other), None);
}

#[test]
fn transition_source_becomes_sksl() {
    let glsl = "#define PI 3.14\nuniform float amount; /* = 0.5 */\nuniform vec2 dir;\nuniform float progress;\nvec4 transition(vec2 uv) {\n  return mix(getFromColor(uv), getToColor(uv.xy), progress * amount * PI);\n}";
    let defaults = vec![
        def("dir", ParamValue::Array(vec![num("1", "1.0"), num("0", "0.0")]), "[1,0]"),
        def("extra", num("2", "2.0"), "2"),
    ];
    let types = vec![ty("amount", Some("float")), ty("dir", Some("vec2")), ty("extra", Some("int"))];
    let sksl = gl_transition_glsl_to_sksl(glsl, &defaults, &types).expect("translates");
    let body = "const int extra = 2;\nconst float amount = 0.5;\nconst float2 dir = float2(1.0, 0.0);\nhalf4 transition(float2 uv) {\n  return mix(getFromColor(uv), getToColor(uv), progress * amount * 3.14);\n}\n";
    assert_eq!(sksl, format!("{PRELUDE}{body}{EPILOGUE}"));
    assert!(sksl.contains("uniform shader fromScene;"));
    assert!(sksl.ends_with("    return transition(uv);\n}\n"));
}

#[test]
fn uniform_translation_errors() {
    let input = cs("uniform float amount;\nvoid main() {}");
    let err = replace_transition_uniforms(&input, &vec![def("a", num("1", "1.0"), "1")], &vec![])
        .err()
        .unwrap();
    assert_eq!(err.message, "GLTransition default parameter `a` is missing from paramsTypes");

    let err = replace_transition_uniforms(&input, &vec![], &vec![]).err().unwrap();
    assert_eq!(err.message, "GLTransition parameter `amount` is missing a default value");

    let err = replace_transition_uniforms(
        &input,
        &vec![def("amount", ParamValue::Other, "null")],
        &vec![ty("amount", None)],
    )
    .err()
    .unwrap();
    assert_eq!(err.message, "GLTransition parameter `amount` has unsupported default value `null`");

    let err = gl_transition_glsl_to_sksl("vec4 main2(vec2 uv) { return vec4(0.0); }", &vec![], &vec![])
        .err()
        .unwrap();
    assert_eq!(err.message, "GLTransition source does not define transition(vec2)");
}

#[test]
fn inline_defaults_use_sksl_vector_names() {
    let input = cs("uniform vec2 center; /* = vec2(0.5, 0.5) */\nuniform ivec2 grid; /* = ivec2(3) */");
    let out = replace_transition_uniforms(&input, &vec![], &vec![]).unwrap();
    // `ivec2` was already rewritten to `ifloat2` by the earlier `vec2` rule
    assert_eq!(
        st(&out),
        "const vec2 center = float2(0.5, 0.5);\nconst ivec2 grid = ifloat2(3);\n"
    );
}
