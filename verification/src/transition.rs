//! Translation of GLTransition GLSL sources into SkSL runtime effects.
//!
//! A GLTransition is a GLSL function `transition(vec2 uv)` with uniform
//! parameters. The translation expands its `#define`s, turns every uniform
//! parameter into a constant with its default value, renames GLSL types to
//! SkSL ones, inlines global initializers, and wraps the result in a shader
//! that samples the outgoing and incoming scenes.

use vstd::prelude::*;
use crate::chars::{
    chars_of, find, find_from, join_spec, lines, lines_spec, push_all, replace_all,
    replace_all_spec, split_whitespace, starts_with, starts_with_spec, trim, trim_end_char,
    trim_spec, ws_tokens, eq_chars,
};
use crate::glsl::{
    emit_const_param, expand_defines, expand_defines_spec, extract_inline_default,
    glsl_type_rules, inline_default_spec, inline_global_initializers, inline_globals_spec,
    opt_view, replace_glsl_types, replace_swizzle, replace_swizzle_from, replace_tokens_spec,
    strip_precision_blocks, trim_end_char_spec, vector_scalar_spec, vector_scalar_type,
};

verus! {

/// Shader text before a translated GLTransition source.
pub const PRELUDE: &'static str = "\nuniform shader fromScene;\nuniform shader toScene;\nuniform float progress;\nuniform float2 resolution;\n\nhalf4 getFromColor(float2 uv) {\n    return fromScene.eval(uv * resolution);\n}\n\nhalf4 getToColor(float2 uv) {\n    return toScene.eval(uv * resolution);\n}\n\nconst float ratio = 1.0;\n\n";

/// Shader text after a translated GLTransition source.
pub const EPILOGUE: &'static str = "\n\nhalf4 main(float2 coord) {\n    float2 uv = coord / resolution;\n    return transition(uv);\n}\n";

/// A default parameter value from a transition's JSON description. Numbers
/// carry the two literals a parameter may need: the integer one (the value
/// as an integer, or its float rounded) and the float one (the shortest
/// decimal with a fractional part).
#[derive(Debug)]
pub enum ParamValue {
    Bool(bool),
    Number { int_literal: String, float_literal: String },
    Array(Vec<ParamValue>),
    Text(String),
    Other,
}

/// A named default parameter, with its JSON text for messages.
#[derive(Debug)]
pub struct DefaultParam {
    pub name: String,
    pub value: ParamValue,
    pub json: String,
}

/// A declared parameter type; `value_type` is absent when the JSON value is
/// not a string.
#[derive(Debug)]
pub struct ParamType {
    pub name: String,
    pub value_type: Option<String>,
}

/// Error of a transition translation.
#[derive(Debug)]
pub struct TransitionError {
    pub message: String,
}

/// Integer vector and scalar types.
pub open spec fn is_int_type(ty: Seq<char>) -> bool {
    ty == "int"@ || ty == "ivec2"@ || ty == "ivec3"@ || ty == "ivec4"@
}

/// Types whose numeric default is written as a constructor call.
pub open spec fn wraps_number(ty: Seq<char>) -> bool {
    ty == "vec2"@ || ty == "ivec2"@ || ty == "vec3"@ || ty == "vec4"@
}

/// `ty(args)`.
pub open spec fn call_text(ty: Seq<char>, args: Seq<char>) -> Seq<char> {
    ty + "("@ + args + ")"@
}

/// SkSL literal of a default value at type `ty`, if the value has one.
pub open spec fn default_spec(ty: Seq<char>, v: ParamValue) -> Option<Seq<char>>
    decreases v, 0int,
{
    match v {
        ParamValue::Bool(b) => Some(
            if b {
                "true"@
            } else {
                "false"@
            },
        ),
        ParamValue::Number { int_literal, float_literal } => {
            let lit = if is_int_type(ty) {
                int_literal@
            } else {
                float_literal@
            };
            Some(
                if wraps_number(ty) {
                    call_text(ty, lit)
                } else {
                    lit
                },
            )
        },
        ParamValue::Array(vs) => match defaults_spec(vector_scalar_spec(ty), vs@) {
            Some(args) => Some(call_text(ty, join_spec(args, ", "@))),
            None => None,
        },
        ParamValue::Text(s) => Some(s@),
        ParamValue::Other => None,
    }
}

/// Literals of a list of values at type `ty`, if all have one.
pub open spec fn defaults_spec(ty: Seq<char>, vs: Seq<ParamValue>) -> Option<Seq<Seq<char>>>
    decreases vs, 1int,
{
    if vs.len() == 0 {
        Some(Seq::empty())
    } else {
        match (defaults_spec(ty, vs.drop_last()), default_spec(ty, vs.last())) {
            (Some(a), Some(x)) => Some(a.push(x)),
            _ => None,
        }
    }
}

fn text_is(s: &[char], lit: &str) -> (r: bool)
    ensures
        r == (s@ == lit@),
{
    eq_chars(s, &chars_of(lit))
}

fn is_int_type_exec(ty: &[char]) -> (r: bool)
    ensures
        r == is_int_type(ty@),
{
    text_is(ty, "int") || text_is(ty, "ivec2") || text_is(ty, "ivec3") || text_is(ty, "ivec4")
}

fn call_text_exec(ty: &[char], args: &[char]) -> (r: Vec<char>)
    ensures
        r@ == call_text(ty@, args@),
{
    let mut out: Vec<char> = Vec::new();
    push_all(&mut out, ty);
    push_all(&mut out, &chars_of("("));
    push_all(&mut out, args);
    push_all(&mut out, &chars_of(")"));
    assert(out@ =~= call_text(ty@, args@));
    out
}

/// The integer or float literal of a number, by the parameter type.
pub fn number_literal_for_type(ty: &[char], int_literal: &str, float_literal: &str) -> (r: Vec<
    char,
>)
    ensures
        r@ == (if is_int_type(ty@) {
            int_literal@
        } else {
            float_literal@
        }),
{
    if is_int_type_exec(ty) {
        chars_of(int_literal)
    } else {
        chars_of(float_literal)
    }
}

/// SkSL literal of a default value at type `ty`.
pub fn default_param_to_sksl(ty: &[char], value: &ParamValue) -> (r: Option<Vec<char>>)
    ensures
        opt_view(r) == default_spec(ty@, *value),
    decreases value, 0int,
{
    match value {
        ParamValue::Bool(b) => Some(chars_of(if *b { "true" } else { "false" })),
        ParamValue::Number { int_literal, float_literal } => {
            let lit = number_literal_for_type(ty, int_literal.as_str(), float_literal.as_str());
            if text_is(ty, "vec2") || text_is(ty, "ivec2") || text_is(ty, "vec3") || text_is(
                ty,
                "vec4",
            ) {
                Some(call_text_exec(ty, &lit))
            } else {
                Some(lit)
            }
        },
        ParamValue::Array(values) => {
            let scalar = chars_of(vector_scalar_type(ty));
            match defaults_to_sksl(&scalar, values) {
                Some(args) => {
                    let mut joined: Vec<char> = Vec::new();
                    let sep = chars_of(", ");
                    let mut k: usize = 0;
                    while k < args.len()
                        invariant
                            k <= args@.len(),
                            sep@ == ", "@,
                            joined@ == join_spec(
                                args@.subrange(0, k as int).map_values(|a: Vec<char>| a@),
                                sep@,
                            ),
                        decreases args@.len() - k,
                    {
                        let ghost prev = args@.subrange(0, k as int).map_values(
                            |a: Vec<char>| a@,
                        );
                        if k > 0 {
                            push_all(&mut joined, &sep);
                        }
                        push_all(&mut joined, &args[k]);
                        k = k + 1;
                        let ghost cur = args@.subrange(0, k as int).map_values(|a: Vec<char>| a@);
                        assert(cur.drop_last() =~= prev);
                    }
                    assert(args@.subrange(0, args@.len() as int) =~= args@);
                    Some(call_text_exec(ty, &joined))
                },
                None => None,
            }
        },
        ParamValue::Text(s) => Some(chars_of(s.as_str())),
        ParamValue::Other => None,
    }
}

/// SkSL literals of a list of values at type `ty`.
fn defaults_to_sksl(ty: &[char], values: &Vec<ParamValue>) -> (r: Option<Vec<Vec<char>>>)
    ensures
        match r {
            Some(v) => defaults_spec(ty@, values@) == Some(v@.map_values(|a: Vec<char>| a@)),
            None => defaults_spec(ty@, values@) is None,
        },
    decreases values, 1int,
{
    let mut out: Vec<Vec<char>> = Vec::new();
    let mut i: usize = 0;
    while i < values.len()
        invariant
            i <= values@.len(),
            defaults_spec(ty@, values@.take(i as int)) == Some(
                out@.map_values(|a: Vec<char>| a@),
            ),
        decreases values@.len() - i,
    {
        proof {
            assert(values@.take(i + 1).drop_last() =~= values@.take(i as int));
            assert(decreases_to!(values => values@[i as int]));
        }
        match default_param_to_sksl(ty, &values[i]) {
            Some(lit) => {
                out.push(lit);
                assert(out@.map_values(|a: Vec<char>| a@) =~= out@.drop_last().map_values(
                    |a: Vec<char>| a@,
                ).push(out@.last()@));
            },
            None => {
                assert(defaults_spec(ty@, values@.take(i + 1)) is None);
                proof {
                    lemma_defaults_prefix_none(ty@, values@, i + 1);
                }
                return None;
            },
        }
        i = i + 1;
    }
    assert(values@.take(values@.len() as int) =~= values@);
    Some(out)
}

proof fn lemma_defaults_prefix_none(ty: Seq<char>, vs: Seq<ParamValue>, k: int)
    requires
        0 <= k <= vs.len(),
        defaults_spec(ty, vs.take(k)) is None,
    ensures
        defaults_spec(ty, vs) is None,
    decreases vs.len() - k,
{
    if k < vs.len() {
        assert(vs.take(k + 1).drop_last() =~= vs.take(k));
        lemma_defaults_prefix_none(ty, vs, k + 1);
    } else {
        assert(vs.take(k) =~= vs);
    }
}

/// The first default parameter named `name`.
pub open spec fn lookup_default(defaults: Seq<DefaultParam>, name: Seq<char>) -> Option<int>
    decreases defaults.len(),
{
    if defaults.len() == 0 {
        None
    } else if defaults[0].name@ == name {
        Some(0)
    } else {
        match lookup_default(defaults.drop_first(), name) {
            Some(i) => Some(i + 1),
            None => None,
        }
    }
}

/// The first declared parameter type named `name`.
pub open spec fn lookup_type(types: Seq<ParamType>, name: Seq<char>) -> Option<int>
    decreases types.len(),
{
    if types.len() == 0 {
        None
    } else if types[0].name@ == name {
        Some(0)
    } else {
        match lookup_type(types.drop_first(), name) {
            Some(i) => Some(i + 1),
            None => None,
        }
    }
}

/// GLSL vector type names in an inline default rewritten for SkSL, one
/// replacement after the other, in the engine's order. Because `vecN` is
/// replaced first, an `ivecN` or `bvecN` has already become `ifloatN` or
/// `bfloatN` by the time its own rule runs, so those later rules never
/// match: integer and boolean vector literals keep the engine's
/// `ifloatN` / `bfloatN` spelling.
pub open spec fn glsl_literal_spec(s: Seq<char>) -> Seq<char> {
    let s1 = replace_all_spec(s, "vec2"@, "float2"@, 0);
    let s2 = replace_all_spec(s1, "vec3"@, "float3"@, 0);
    let s3 = replace_all_spec(s2, "vec4"@, "float4"@, 0);
    let s4 = replace_all_spec(s3, "ivec2"@, "int2"@, 0);
    let s5 = replace_all_spec(s4, "ivec3"@, "int3"@, 0);
    let s6 = replace_all_spec(s5, "ivec4"@, "int4"@, 0);
    let s7 = replace_all_spec(s6, "bvec2"@, "bool2"@, 0);
    let s8 = replace_all_spec(s7, "bvec3"@, "bool3"@, 0);
    replace_all_spec(s8, "bvec4"@, "bool4"@, 0)
}

/// `const <ty> <name> = <value>;` and a newline.
pub open spec fn const_line(ty: Seq<char>, name: Seq<char>, value: Seq<char>) -> Seq<char> {
    "const "@ + ty + " "@ + name + " = "@ + value + ";\n"@
}

pub open spec fn missing_from_types_text(name: Seq<char>) -> Seq<char> {
    "GLTransition default parameter `"@ + name + "` is missing from paramsTypes"@
}

pub open spec fn unsupported_default_text(name: Seq<char>, json: Seq<char>) -> Seq<char> {
    "GLTransition parameter `"@ + name + "` has unsupported default value `"@ + json + "`"@
}

pub open spec fn missing_default_text(name: Seq<char>) -> Seq<char> {
    "GLTransition parameter `"@ + name + "` is missing a default value"@
}

/// What a source line becomes.
pub enum LineAction {
    /// The line is copied.
    Keep,
    /// The line is left out.
    Drop,
    /// The uniform becomes a constant of this type, name and value.
    Emit(Seq<char>, Seq<char>, Seq<char>),
    /// The translation fails with this message.
    Fail(Seq<char>),
}

/// Whether a uniform name is supplied by the wrapper shader.
pub open spec fn is_builtin_uniform(name: Seq<char>) -> bool {
    name == "progress"@ || name == "resolution"@
}

/// What `line` becomes: lines that are not uniform declarations are kept;
/// a uniform parameter becomes a constant with its default (from the JSON
/// defaults, else from an inline `/* = value */` comment), at the type the
/// JSON declares or else the GLSL one.
pub open spec fn line_action(line: Seq<char>, defaults: Seq<DefaultParam>, types: Seq<ParamType>) -> LineAction {
    let (clean, inline) = inline_default_spec(line);
    let trimmed = trim_spec(clean);
    if !starts_with_spec(trimmed, "uniform "@) {
        LineAction::Keep
    } else {
        let parts = ws_tokens(trim_end_char_spec(trimmed, ';'));
        if parts.len() < 3 {
            LineAction::Drop
        } else {
            let name = parts[2];
            if is_builtin_uniform(name) {
                LineAction::Drop
            } else {
                let ty = match lookup_type(types, name) {
                    Some(t) => match types[t].value_type {
                        Some(vt) => vt@,
                        None => parts[1],
                    },
                    None => parts[1],
                };
                match lookup_default(defaults, name) {
                    Some(d) => match default_spec(ty, defaults[d].value) {
                        Some(v) => LineAction::Emit(ty, name, v),
                        None => LineAction::Fail(unsupported_default_text(name, defaults[d].json@)),
                    },
                    None => match inline {
                        Some(text) => LineAction::Emit(ty, name, glsl_literal_spec(text)),
                        None => LineAction::Fail(missing_default_text(name)),
                    },
                }
            }
        }
    }
}

/// The translated text of the first `n` lines and the parameters made
/// constants so far, or the first failure.
pub open spec fn uniforms_state(
    ls: Seq<Seq<char>>,
    n: int,
    defaults: Seq<DefaultParam>,
    types: Seq<ParamType>,
) -> Result<(Seq<char>, Seq<Seq<char>>), Seq<char>>
    decreases n,
{
    if n <= 0 {
        Ok((Seq::empty(), Seq::empty()))
    } else {
        match uniforms_state(ls, n - 1, defaults, types) {
            Err(m) => Err(m),
            Ok((out, emitted)) => match line_action(ls[n - 1], defaults, types) {
                LineAction::Keep => Ok((out + ls[n - 1] + seq!['\n'], emitted)),
                LineAction::Drop => Ok((out, emitted)),
                LineAction::Emit(ty, name, v) => Ok((out + const_line(ty, name, v), emitted.push(name))),
                LineAction::Fail(m) => Err(m),
            },
        }
    }
}

/// Constants for the declared parameters the source never declares as
/// uniforms, in declaration order, or the first failure.
pub open spec fn extras_state(
    types: Seq<ParamType>,
    k: int,
    defaults: Seq<DefaultParam>,
    emitted: Seq<Seq<char>>,
) -> Result<Seq<char>, Seq<char>>
    decreases k,
{
    if k <= 0 {
        Ok(Seq::empty())
    } else {
        match extras_state(types, k - 1, defaults, emitted) {
            Err(m) => Err(m),
            Ok(extra) => {
                let name = types[k - 1].name@;
                if emitted.contains(name) || is_builtin_uniform(name) {
                    Ok(extra)
                } else {
                    match types[k - 1].value_type {
                        None => Ok(extra),
                        Some(ty) => match lookup_default(defaults, name) {
                            None => Err(missing_default_text(name)),
                            Some(d) => match default_spec(ty@, defaults[d].value) {
                                None => Err(unsupported_default_text(name, defaults[d].json@)),
                                Some(v) => Ok(extra + const_line(ty@, name, v)),
                            },
                        },
                    }
                }
            },
        }
    }
}

/// The first default parameter among the first `k` without a declared type.
pub open spec fn untyped_default(defaults: Seq<DefaultParam>, types: Seq<ParamType>, k: int) -> Option<
    Seq<char>,
>
    decreases k,
{
    if k <= 0 {
        None
    } else {
        match untyped_default(defaults, types, k - 1) {
            Some(n) => Some(n),
            None => if lookup_type(types, defaults[k - 1].name@) is None {
                Some(defaults[k - 1].name@)
            } else {
                None
            },
        }
    }
}

/// The source with its uniform parameters turned into constants: the
/// constants for undeclared parameters first, then the translated lines.
pub open spec fn replace_uniforms_spec(
    input: Seq<char>,
    defaults: Seq<DefaultParam>,
    types: Seq<ParamType>,
) -> Result<Seq<char>, Seq<char>> {
    match untyped_default(defaults, types, defaults.len() as int) {
        Some(name) => Err(missing_from_types_text(name)),
        None => {
            let ls = lines_spec(input);
            match uniforms_state(ls, ls.len() as int, defaults, types) {
                Err(m) => Err(m),
                Ok((out, emitted)) => match extras_state(types, types.len() as int, defaults, emitted) {
                    Err(m) => Err(m),
                    Ok(extra) => Ok(extra + out),
                },
            }
        },
    }
}

proof fn lemma_lookup_default_first(defaults: Seq<DefaultParam>, name: Seq<char>)
    ensures
        match lookup_default(defaults, name) {
            Some(i) => 0 <= i < defaults.len() && defaults[i].name@ == name && forall|j: int|
                0 <= j < i ==> (#[trigger] defaults[j]).name@ != name,
            None => forall|j: int| 0 <= j < defaults.len() ==> (#[trigger] defaults[j]).name@ != name,
        },
    decreases defaults.len(),
{
    if defaults.len() > 0 {
        lemma_lookup_default_first(defaults.drop_first(), name);
        assert forall|j: int| 1 <= j < defaults.len() implies defaults[j] == defaults.drop_first()[j - 1] by {}
    }
}

proof fn lemma_lookup_type_first(types: Seq<ParamType>, name: Seq<char>)
    ensures
        match lookup_type(types, name) {
            Some(i) => 0 <= i < types.len() && types[i].name@ == name && forall|j: int|
                0 <= j < i ==> (#[trigger] types[j]).name@ != name,
            None => forall|j: int| 0 <= j < types.len() ==> (#[trigger] types[j]).name@ != name,
        },
    decreases types.len(),
{
    if types.len() > 0 {
        lemma_lookup_type_first(types.drop_first(), name);
        assert forall|j: int| 1 <= j < types.len() implies types[j] == types.drop_first()[j - 1] by {}
    }
}

fn find_default(defaults: &Vec<DefaultParam>, name: &[char]) -> (r: Option<usize>)
    ensures
        match r {
            Some(i) => i < defaults@.len() && lookup_default(defaults@, name@) == Some(i as int),
            None => lookup_default(defaults@, name@) is None,
        },
{
    proof {
        lemma_lookup_default_first(defaults@, name@);
    }
    let mut i: usize = 0;
    while i < defaults.len()
        invariant
            i <= defaults@.len(),
            forall|j: int| 0 <= j < i ==> (#[trigger] defaults@[j]).name@ != name@,
        decreases defaults@.len() - i,
    {
        if eq_chars(&chars_of(defaults[i].name.as_str()), name) {
            proof {
                lemma_lookup_default_first(defaults@, name@);
            }
            return Some(i);
        }
        i = i + 1;
    }
    None
}

fn find_type(types: &Vec<ParamType>, name: &[char]) -> (r: Option<usize>)
    ensures
        match r {
            Some(i) => i < types@.len() && lookup_type(types@, name@) == Some(i as int),
            None => lookup_type(types@, name@) is None,
        },
{
    proof {
        lemma_lookup_type_first(types@, name@);
    }
    let mut i: usize = 0;
    while i < types.len()
        invariant
            i <= types@.len(),
            forall|j: int| 0 <= j < i ==> (#[trigger] types@[j]).name@ != name@,
        decreases types@.len() - i,
    {
        if eq_chars(&chars_of(types[i].name.as_str()), name) {
            proof {
                lemma_lookup_type_first(types@, name@);
            }
            return Some(i);
        }
        i = i + 1;
    }
    None
}

/// `glsl_literal_spec` computed.
fn glsl_literal(s: &[char]) -> (r: Vec<char>)
    ensures
        r@ == glsl_literal_spec(s@),
{
    proof {
        reveal_strlit("vec2");
        reveal_strlit("vec3");
        reveal_strlit("vec4");
        reveal_strlit("ivec2");
        reveal_strlit("ivec3");
        reveal_strlit("ivec4");
        reveal_strlit("bvec2");
        reveal_strlit("bvec3");
        reveal_strlit("bvec4");
    }
    let s1 = replace_all(s, &chars_of("vec2"), &chars_of("float2"));
    let s2 = replace_all(&s1, &chars_of("vec3"), &chars_of("float3"));
    let s3 = replace_all(&s2, &chars_of("vec4"), &chars_of("float4"));
    let s4 = replace_all(&s3, &chars_of("ivec2"), &chars_of("int2"));
    let s5 = replace_all(&s4, &chars_of("ivec3"), &chars_of("int3"));
    let s6 = replace_all(&s5, &chars_of("ivec4"), &chars_of("int4"));
    let s7 = replace_all(&s6, &chars_of("bvec2"), &chars_of("bool2"));
    let s8 = replace_all(&s7, &chars_of("bvec3"), &chars_of("bool3"));
    replace_all(&s8, &chars_of("bvec4"), &chars_of("bool4"))
}

fn concat3(a: &str, b: &[char], c: &str) -> (r: Vec<char>)
    ensures
        r@ == a@ + b@ + c@,
{
    let mut out = chars_of(a);
    push_all(&mut out, b);
    push_all(&mut out, &chars_of(c));
    out
}

fn unsupported_default_message(name: &[char], json: &str) -> (r: Vec<char>)
    ensures
        r@ == unsupported_default_text(name@, json@),
{
    let mut out = concat3("GLTransition parameter `", name, "` has unsupported default value `");
    push_all(&mut out, &chars_of(json));
    push_all(&mut out, &chars_of("`"));
    assert(out@ =~= unsupported_default_text(name@, json@));
    out
}

/// Exec form of `LineAction`.
pub enum LineStep {
    Keep,
    Drop,
    Emit(Vec<char>, Vec<char>, Vec<char>),
    Fail(Vec<char>),
}

pub open spec fn step_view(s: LineStep) -> LineAction {
    match s {
        LineStep::Keep => LineAction::Keep,
        LineStep::Drop => LineAction::Drop,
        LineStep::Emit(t, n, v) => LineAction::Emit(t@, n@, v@),
        LineStep::Fail(m) => LineAction::Fail(m@),
    }
}

/// What one source line becomes (see `line_action`).
fn translate_line(line: &[char], defaults: &Vec<DefaultParam>, types: &Vec<ParamType>) -> (r:
    LineStep)
    ensures
        step_view(r) == line_action(line@, defaults@, types@),
{
    let (clean, inline) = extract_inline_default(line);
    let trimmed = trim(&clean);
    if !starts_with(&trimmed, &chars_of("uniform ")) {
        return LineStep::Keep;
    }
    let decl = trim_end_char(&trimmed, ';');
    let parts = split_whitespace(&decl);
    proof {
        assert(parts@.map_values(|l: Vec<char>| l@).len() == parts@.len());
    }
    if parts.len() < 3 {
        return LineStep::Drop;
    }
    let name = &parts[2];
    let declared = &parts[1];
    proof {
        assert(parts@.map_values(|l: Vec<char>| l@)[2] == name@);
        assert(parts@.map_values(|l: Vec<char>| l@)[1] == declared@);
    }
    if text_is(name, "progress") || text_is(name, "resolution") {
        return LineStep::Drop;
    }
    let ty: Vec<char> = match find_type(types, name) {
        Some(t) => match &types[t].value_type {
            Some(vt) => chars_of(vt.as_str()),
            None => declared.clone(),
        },
        None => declared.clone(),
    };
    match find_default(defaults, name) {
        Some(d) => match default_param_to_sksl(&ty, &defaults[d].value) {
            Some(v) => LineStep::Emit(ty, name.clone(), v),
            None => LineStep::Fail(unsupported_default_message(name, defaults[d].json.as_str())),
        },
        None => match inline {
            Some(text) => LineStep::Emit(ty, name.clone(), glsl_literal(&text)),
            None => {
                let m = concat3("GLTransition parameter `", name, "` is missing a default value");
                LineStep::Fail(m)
            },
        },
    }
}

/// Whether `names` holds `name`.
fn contains_text(names: &Vec<Vec<char>>, name: &[char]) -> (r: bool)
    ensures
        r == names@.map_values(|n: Vec<char>| n@).contains(name@),
{
    let ghost view = names@.map_values(|n: Vec<char>| n@);
    let mut i: usize = 0;
    while i < names.len()
        invariant
            i <= names@.len(),
            view == names@.map_values(|n: Vec<char>| n@),
            forall|k: int| 0 <= k < i ==> view[k] != name@,
        decreases names@.len() - i,
    {
        if eq_chars(&names[i], name) {
            assert(view[i as int] == name@);
            return true;
        }
        i = i + 1;
    }
    false
}

/// The first default parameter without a declared type.
fn find_untyped_default(defaults: &Vec<DefaultParam>, types: &Vec<ParamType>) -> (r: Option<
    Vec<char>,
>)
    ensures
        opt_view(r) == untyped_default(defaults@, types@, defaults@.len() as int),
{
    let mut i: usize = 0;
    while i < defaults.len()
        invariant
            i <= defaults@.len(),
            untyped_default(defaults@, types@, i as int) is None,
        decreases defaults@.len() - i,
    {
        let name = chars_of(defaults[i].name.as_str());
        if find_type(types, &name).is_none() {
            proof {
                lemma_untyped_default_stays(defaults@, types@, i + 1, defaults@.len() as int);
            }
            return Some(name);
        }
        i = i + 1;
    }
    None
}

proof fn lemma_untyped_default_stays(defaults: Seq<DefaultParam>, types: Seq<ParamType>, k: int, n: int)
    requires
        0 <= k <= n,
        untyped_default(defaults, types, k) is Some,
    ensures
        untyped_default(defaults, types, n) == untyped_default(defaults, types, k),
    decreases n - k,
{
    if k < n {
        lemma_untyped_default_stays(defaults, types, k, n - 1);
    }
}

proof fn lemma_uniforms_err_stays(
    ls: Seq<Seq<char>>,
    k: int,
    n: int,
    defaults: Seq<DefaultParam>,
    types: Seq<ParamType>,
)
    requires
        0 <= k <= n,
        uniforms_state(ls, k, defaults, types) is Err,
    ensures
        uniforms_state(ls, n, defaults, types) == uniforms_state(ls, k, defaults, types),
    decreases n - k,
{
    if k < n {
        lemma_uniforms_err_stays(ls, k, n - 1, defaults, types);
    }
}

proof fn lemma_extras_err_stays(
    types: Seq<ParamType>,
    k: int,
    n: int,
    defaults: Seq<DefaultParam>,
    emitted: Seq<Seq<char>>,
)
    requires
        0 <= k <= n,
        extras_state(types, k, defaults, emitted) is Err,
    ensures
        extras_state(types, n, defaults, emitted) == extras_state(types, k, defaults, emitted),
    decreases n - k,
{
    if k < n {
        lemma_extras_err_stays(types, k, n - 1, defaults, emitted);
    }
}

/// Turns the uniform parameters of a GLTransition source into constants
/// with their default values (see `replace_uniforms_spec`).
pub fn replace_transition_uniforms(
    input: &[char],
    defaults: &Vec<DefaultParam>,
    types: &Vec<ParamType>,
) -> (r: Result<Vec<char>, TransitionError>)
    ensures
        match r {
            Ok(out) => replace_uniforms_spec(input@, defaults@, types@) == Ok::<Seq<char>, Seq<char>>(out@),
            Err(e) => replace_uniforms_spec(input@, defaults@, types@) == Err::<Seq<char>, Seq<char>>(e.message@),
        },
{
    match find_untyped_default(defaults, types) {
        Some(name) => {
            let m = concat3("GLTransition default parameter `", &name, "` is missing from paramsTypes");
            return Err(TransitionError { message: crate::chars::string_of(&m) });
        },
        None => {},
    }
    let ls = lines(input);
    let ghost lsv = ls@.map_values(|l: Vec<char>| l@);
    let mut output: Vec<char> = Vec::new();
    let mut emitted: Vec<Vec<char>> = Vec::new();
    let mut i: usize = 0;
    assert(emitted@.map_values(|n: Vec<char>| n@) =~= Seq::<Seq<char>>::empty());
    while i < ls.len()
        invariant
            i <= ls@.len(),
            untyped_default(defaults@, types@, defaults@.len() as int) is None,
            lsv == ls@.map_values(|l: Vec<char>| l@),
            lsv == lines_spec(input@),
            uniforms_state(lsv, i as int, defaults@, types@) == Ok::<
                (Seq<char>, Seq<Seq<char>>),
                Seq<char>,
            >((output@, emitted@.map_values(|n: Vec<char>| n@))),
        decreases ls@.len() - i,
    {
        let ghost prev_emitted = emitted@.map_values(|n: Vec<char>| n@);
        let ghost prev_output = output@;
        assert(lsv[i as int] == ls@[i as int]@);
        match translate_line(&ls[i], defaults, types) {
            LineStep::Keep => {
                push_all(&mut output, &ls[i]);
                output.push('\n');
                assert(output@ =~= prev_output + lsv[i as int] + seq!['\n']);
            },
            LineStep::Drop => {},
            LineStep::Emit(ty, name, v) => {
                emit_const_param(&mut output, &ty, &name, &v);
                assert(output@ =~= prev_output + const_line(ty@, name@, v@));
                emitted.push(name);
                assert(emitted@.map_values(|n: Vec<char>| n@) =~= prev_emitted.push(
                    emitted@.last()@,
                ));
            },
            LineStep::Fail(m) => {
                proof {
                    lemma_uniforms_err_stays(lsv, i + 1, lsv.len() as int, defaults@, types@);
                }
                return Err(TransitionError { message: crate::chars::string_of(&m) });
            },
        }
        i = i + 1;
        assert(uniforms_state(lsv, i as int, defaults@, types@) == Ok::<
            (Seq<char>, Seq<Seq<char>>),
            Seq<char>,
        >((output@, emitted@.map_values(|n: Vec<char>| n@))));
    }
    let ghost em = emitted@.map_values(|n: Vec<char>| n@);
    let mut extra: Vec<char> = Vec::new();
    let mut k: usize = 0;
    while k < types.len()
        invariant
            k <= types@.len(),
            untyped_default(defaults@, types@, defaults@.len() as int) is None,
            lsv == lines_spec(input@),
            uniforms_state(lsv, lsv.len() as int, defaults@, types@) == Ok::<
                (Seq<char>, Seq<Seq<char>>),
                Seq<char>,
            >((output@, em)),
            em == emitted@.map_values(|n: Vec<char>| n@),
            extras_state(types@, k as int, defaults@, em) == Ok::<Seq<char>, Seq<char>>(extra@),
        decreases types@.len() - k,
    {
        let name = chars_of(types[k].name.as_str());
        if contains_text(&emitted, &name) || text_is(&name, "progress") || text_is(
            &name,
            "resolution",
        ) {
            k = k + 1;
            continue;
        }
        match &types[k].value_type {
            None => {},
            Some(ty) => {
                let tyc = chars_of(ty.as_str());
                match find_default(defaults, &name) {
                    None => {
                        let m = concat3("GLTransition parameter `", &name, "` is missing a default value");
                        proof {
                            lemma_extras_err_stays(types@, k + 1, types@.len() as int, defaults@, em);
                        }
                        return Err(TransitionError { message: crate::chars::string_of(&m) });
                    },
                    Some(d) => match default_param_to_sksl(&tyc, &defaults[d].value) {
                        None => {
                            let m = unsupported_default_message(&name, defaults[d].json.as_str());
                            proof {
                                lemma_extras_err_stays(types@, k + 1, types@.len() as int, defaults@, em);
                            }
                            return Err(TransitionError { message: crate::chars::string_of(&m) });
                        },
                        Some(v) => {
                            let ghost prev_extra = extra@;
                            emit_const_param(&mut extra, &tyc, &name, &v);
                            assert(extra@ =~= prev_extra + const_line(tyc@, name@, v@));
                        },
                    },
                }
            },
        }
        k = k + 1;
    }
    push_all(&mut extra, &output);
    Ok(extra)
}

/// Shader text before the translated source: the scene samplers, the
/// uniforms the wrapper supplies, and the aspect ratio constant.
pub open spec fn sksl_prelude() -> Seq<char> {
    PRELUDE@
}

/// Shader text after the translated source: the entry point that calls
/// `transition` with normalized coordinates.
pub open spec fn sksl_epilogue() -> Seq<char> {
    EPILOGUE@
}

pub open spec fn no_transition_text() -> Seq<char> {
    "GLTransition source does not define transition(vec2)"@
}

/// The SkSL runtime effect source of a GLTransition, or the reason there
/// is none.
pub open spec fn sksl_source_spec(
    glsl: Seq<char>,
    defaults: Seq<DefaultParam>,
    types: Seq<ParamType>,
) -> Result<Seq<char>, Seq<char>> {
    let s2 = replace_all_spec(expand_defines_spec(glsl), "GL_ES"@, Seq::empty(), 0);
    match replace_uniforms_spec(s2, defaults, types) {
        Err(m) => Err(m),
        Ok(s3) => {
            let s4 = replace_all_spec(s3, "getFromColor"@, "getFromColor"@, 0);
            let s5 = replace_all_spec(s4, "getToColor"@, "getToColor"@, 0);
            let s6 = replace_tokens_spec(s5, glsl_type_rules());
            let s7 = replace_all_spec(s6, "float2(1.0).xy"@, "float2(1.0)"@, 0);
            let s8 = replace_swizzle_from(s7, "uv.xy"@, "uv"@, 0);
            let s9 = replace_swizzle_from(s8, "p.xy"@, "p"@, 0);
            let s10 = inline_globals_spec(s9);
            if find_from(s10, "transition"@, 0) is None {
                Err(no_transition_text())
            } else {
                Ok(sksl_prelude() + s10 + sksl_epilogue())
            }
        },
    }
}

/// Translates a GLTransition GLSL source into an SkSL runtime effect.
pub fn gl_transition_glsl_to_sksl(
    glsl: &str,
    defaults: &Vec<DefaultParam>,
    types: &Vec<ParamType>,
) -> (r: Result<String, TransitionError>)
    ensures
        match r {
            Ok(out) => sksl_source_spec(glsl@, defaults@, types@) == Ok::<Seq<char>, Seq<char>>(out@),
            Err(e) => sksl_source_spec(glsl@, defaults@, types@) == Err::<Seq<char>, Seq<char>>(e.message@),
        },
{
    proof {
        reveal_strlit("getFromColor");
        reveal_strlit("getToColor");
        reveal_strlit("float2(1.0).xy");
        reveal_strlit("uv.xy");
        reveal_strlit("p.xy");
    }
    let expanded = expand_defines(&chars_of(glsl));
    let source = strip_precision_blocks(&expanded);
    let source = match replace_transition_uniforms(&source, defaults, types) {
        Ok(s) => s,
        Err(e) => {
            return Err(e);
        },
    };
    let source = replace_all(&source, &chars_of("getFromColor"), &chars_of("getFromColor"));
    let source = replace_all(&source, &chars_of("getToColor"), &chars_of("getToColor"));
    let source = replace_glsl_types(&source);
    let source = replace_all(&source, &chars_of("float2(1.0).xy"), &chars_of("float2(1.0)"));
    let source = replace_swizzle(&source, &chars_of("uv.xy"), &chars_of("uv"));
    let source = replace_swizzle(&source, &chars_of("p.xy"), &chars_of("p"));
    let source = inline_global_initializers(&source);
    if find(&source, &chars_of("transition"), 0).is_none() {
        return Err(TransitionError {
            message: crate::chars::owned("GLTransition source does not define transition(vec2)"),
        });
    }
    let mut out = chars_of(PRELUDE);
    push_all(&mut out, &source);
    push_all(&mut out, &chars_of(EPILOGUE));
    Ok(crate::chars::string_of(&out))
}

} // verus!
