//! Source rewriting that turns a GLSL transition (gl-transitions.com style)
//! into SkSL: preprocessor `#define` expansion, whole-word and swizzle
//! replacement, type-name translation, inline parameter defaults, global
//! initializer inlining and transition-name normalisation.
//!
//! Text is handled as character sequences; positions are character indices.

use vstd::prelude::*;
use crate::chars::{
    char_alphanumeric, is_alphanumeric, split_char, split_from, trim_start, trim_start_matches,
    trim_start_matches_from, trim_start_spec, count, count_char, join, join_spec, lemma_count_char_bounds, lemma_lines_total,
    lemma_total_len_nonneg, lemma_total_len_step, lemma_ws_tokens_nonempty, lines, lines_spec, total_len, contains_char, ends_with, ends_with_spec, find_char, find_char_from, lemma_find_char_from_bounds,
    split_once, split_once_spec, split_whitespace, starts_with, starts_with_spec, trim_end_char,
    trim_end_char_to, ws_tokens, char_lowercase, chars_of, eq_chars, is_whitespace, is_ws, lowercase_of, find, find_from, lemma_find_from_bounds, push_all, replace_all, replace_all_spec, slice_vec,
    trim, trim_spec,
};

verus! {

/// An identifier character for whole-word matching: ASCII letter, digit or `_`.
pub open spec fn word_char(c: char) -> bool {
    ('a' <= c && c <= 'z') || ('A' <= c && c <= 'Z') || ('0' <= c && c <= '9') || c == '_'
}

pub fn is_word_char(c: char) -> (r: bool)
    ensures
        r == word_char(c),
{
    ('a' <= c && c <= 'z') || ('A' <= c && c <= 'Z') || ('0' <= c && c <= '9') || c == '_'
}

/// Same class as [`word_char`]; used for identifier tokenisation.
pub fn is_identifier_char(c: char) -> (r: bool)
    ensures
        r == word_char(c),
{
    is_word_char(c)
}

/// No identifier character right before position `k`.
pub open spec fn boundary_before(s: Seq<char>, k: int) -> bool {
    k == 0 || !word_char(s[k - 1])
}

/// No identifier character at position `k`.
pub open spec fn boundary_after(s: Seq<char>, k: int) -> bool {
    k >= s.len() || !word_char(s[k])
}

/// Whole-word replacement of `from` by `to` in `s[i..]`, scanning left to right.
pub open spec fn replace_word_from(s: Seq<char>, from: Seq<char>, to: Seq<char>, i: int) -> Seq<
    char,
>
    decreases s.len() - i,
{
    if i < 0 || i >= s.len() || from.len() == 0 {
        Seq::empty()
    } else {
        match find_from(s, from, i) {
            None => s.subrange(i, s.len() as int),
            Some(abs) => if i <= abs && abs + from.len() <= s.len() {
                if boundary_before(s, abs) && boundary_after(s, abs + from.len()) {
                    s.subrange(i, abs) + to + replace_word_from(s, from, to, abs + from.len())
                } else {
                    s.subrange(i, abs + 1) + replace_word_from(s, from, to, abs + 1)
                }
            } else {
                Seq::empty()
            },
        }
    }
}

/// Whole-word replacement of every occurrence of `from` in `s`.
pub open spec fn replace_word_spec(s: Seq<char>, from: Seq<char>, to: Seq<char>) -> Seq<char> {
    replace_word_from(s, from, to, 0)
}

/// Replaces every occurrence of `from` that is not part of a longer
/// identifier by `to`.
pub fn replace_word(src: &[char], from: &[char], to: &[char]) -> (r: Vec<char>)
    requires
        from@.len() > 0,
    ensures
        r@ == replace_word_spec(src@, from@, to@),
{
    let mut out: Vec<char> = Vec::new();
    let mut i: usize = 0;
    let n: usize = src.len();
    while i < n
        invariant
            n == src@.len(),
            i <= n,
            from@.len() > 0,
            replace_word_spec(src@, from@, to@) == out@ + replace_word_from(
                src@,
                from@,
                to@,
                i as int,
            ),
        decreases n - i,
    {
        match find(src, from, i) {
            None => {
                let rest = slice_vec(src, i, n);
                push_all(&mut out, &rest);
                return out;
            },
            Some(abs) => {
                proof {
                    lemma_find_from_bounds(src@, from@, i as int);
                }
                let after: usize = abs + from.len();
                let before_ok = abs == 0 || !is_word_char(src[abs - 1]);
                let after_ok = after >= n || !is_word_char(src[after]);
                if before_ok && after_ok {
                    let mid = slice_vec(src, i, abs);
                    push_all(&mut out, &mid);
                    push_all(&mut out, to);
                    i = after;
                } else {
                    let mid = slice_vec(src, i, abs + 1);
                    push_all(&mut out, &mid);
                    i = abs + 1;
                }
            },
        }
    }
    assert(replace_word_from(src@, from@, to@, i as int) =~= Seq::empty());
    assert(out@ + Seq::<char>::empty() =~= out@);
    out
}

/// Depth change of one character for parenthesis matching.
pub open spec fn paren_delta(c: char) -> int {
    if c == '(' {
        1
    } else if c == ')' {
        -1
    } else {
        0
    }
}

/// Scan from `i` at nesting `depth` for the position that closes depth 1.
pub open spec fn paren_close_from(s: Seq<char>, i: int, depth: int) -> Option<int>
    decreases s.len() - i,
{
    if depth == 0 {
        Some(i - 1)
    } else if i < 0 || i >= s.len() {
        None
    } else {
        paren_close_from(s, i + 1, depth + paren_delta(s[i]))
    }
}

/// Position of the `)` matching the `(` at `start`.
pub open spec fn matching_paren_spec(s: Seq<char>, start: int) -> Option<int> {
    if start < 0 || start >= s.len() || s[start] != '(' {
        None
    } else {
        paren_close_from(s, start + 1, 1)
    }
}

proof fn lemma_paren_close_bounds(s: Seq<char>, i: int, depth: int)
    requires
        0 <= i <= s.len(),
        depth >= 0,
    ensures
        paren_close_from(s, i, depth) matches Some(k) ==> i - 1 <= k < s.len() && (depth > 0
            ==> i <= k && s[k] == ')'),
    decreases s.len() - i,
{
    if depth != 0 && i < s.len() {
        lemma_paren_close_bounds(s, i + 1, depth + paren_delta(s[i]));
        if depth + paren_delta(s[i]) == 0 {
            assert(s[i] == ')');
        }
    }
}

/// Position of the parenthesis that closes the one opened at `start`, if
/// `s[start]` is `(` and it is closed.
pub fn find_matching_paren(s: &[char], start: usize) -> (r: Option<usize>)
    ensures
        match r {
            Some(k) => matching_paren_spec(s@, start as int) == Some(k as int),
            None => matching_paren_spec(s@, start as int) is None,
        },
{
    let n: usize = s.len();
    if start >= n || s[start] != '(' {
        return None;
    }
    let mut depth: usize = 1;
    let mut i: usize = start + 1;
    while i < n && depth > 0
        invariant
            n == s@.len(),
            start < i <= n,
            depth <= i - start,
            paren_close_from(s@, start + 1, 1) == paren_close_from(s@, i as int, depth as int),
        decreases n - i,
    {
        if s[i] == '(' {
            depth = depth + 1;
        } else if s[i] == ')' {
            depth = depth - 1;
        }
        i = i + 1;
    }
    if depth == 0 {
        Some(i - 1)
    } else {
        None
    }
}

/// Argument-splitter state after the first `n` characters:
/// (finished arguments, current argument, nesting depth).
pub open spec fn split_args_state(s: Seq<char>, n: int) -> (Seq<Seq<char>>, Seq<char>, int)
    decreases n,
{
    if n <= 0 || n > s.len() {
        (Seq::empty(), Seq::empty(), 0)
    } else {
        let (args, cur, depth) = split_args_state(s, n - 1);
        let c = s[n - 1];
        if c == '(' {
            (args, cur.push(c), depth + 1)
        } else if c == ')' {
            (args, cur.push(c), depth - 1)
        } else if c == ',' && depth == 0 {
            (args.push(trim_spec(cur)), Seq::empty(), depth)
        } else {
            (args, cur.push(c), depth)
        }
    }
}

/// Top-level comma-separated macro arguments, each trimmed; a blank last
/// argument is dropped.
pub open spec fn split_args_spec(s: Seq<char>) -> Seq<Seq<char>> {
    let (args, cur, _d) = split_args_state(s, s.len() as int);
    if trim_spec(cur).len() > 0 {
        args.push(trim_spec(cur))
    } else {
        args
    }
}

proof fn lemma_split_args_depth(s: Seq<char>, n: int)
    requires
        0 <= n <= s.len(),
    ensures
        -n <= split_args_state(s, n).2 <= n,
    decreases n,
{
    if n > 0 {
        lemma_split_args_depth(s, n - 1);
    }
}

/// Splits a macro argument list at top-level commas.
pub fn split_args(s: &[char]) -> (r: Vec<Vec<char>>)
    ensures
        r@.map_values(|a: Vec<char>| a@) == split_args_spec(s@),
{
    let mut args: Vec<Vec<char>> = Vec::new();
    let mut depth: i128 = 0;
    let mut cur: Vec<char> = Vec::new();
    let n: usize = s.len();
    let mut i: usize = 0;
    while i < n
        invariant
            n == s@.len(),
            i <= n,
            split_args_state(s@, i as int) == (
                args@.map_values(|a: Vec<char>| a@),
                cur@,
                depth as int,
            ),
        decreases n - i,
    {
        proof {
            lemma_split_args_depth(s@, i as int);
        }
        let c = s[i];
        let ghost before = args@;
        if c == '(' {
            depth = depth + 1;
            cur.push(c);
        } else if c == ')' {
            depth = depth - 1;
            cur.push(c);
        } else if c == ',' && depth == 0 {
            let t = trim(&cur);
            args.push(t);
            cur = Vec::new();
            assert(args@.map_values(|a: Vec<char>| a@) =~= before.map_values(|a: Vec<char>| a@).push(
                t@,
            ));
        } else {
            cur.push(c);
        }
        i = i + 1;
        assert(cur@ =~= split_args_state(s@, i as int).1);
    }
    let t = trim(&cur);
    if t.len() > 0 {
        let ghost before = args@;
        args.push(t);
        assert(args@.map_values(|a: Vec<char>| a@) =~= before.map_values(|a: Vec<char>| a@).push(
            t@,
        ));
    }
    args
}

/// A swizzle component letter.
pub open spec fn swizzle_char(c: char) -> bool {
    c == 'x' || c == 'y' || c == 'z' || c == 'w' || c == 'r' || c == 'g' || c == 'b' || c == 'a'
}

pub fn is_swizzle_char(c: char) -> (r: bool)
    ensures
        r == swizzle_char(c),
{
    c == 'x' || c == 'y' || c == 'z' || c == 'w' || c == 'r' || c == 'g' || c == 'b' || c == 'a'
}

/// Replacement of `sw` by `to` in `s[i..]` wherever the match is not followed
/// by a further swizzle letter.
pub open spec fn replace_swizzle_from(s: Seq<char>, sw: Seq<char>, to: Seq<char>, i: int) -> Seq<
    char,
>
    decreases s.len() - i,
{
    if i < 0 || i >= s.len() || sw.len() == 0 {
        Seq::empty()
    } else {
        match find_from(s, sw, i) {
            None => s.subrange(i, s.len() as int),
            Some(abs) => if i <= abs && abs + sw.len() <= s.len() {
                if abs + sw.len() >= s.len() || !swizzle_char(s[abs + sw.len()]) {
                    s.subrange(i, abs) + to + replace_swizzle_from(s, sw, to, abs + sw.len())
                } else {
                    s.subrange(i, abs + 1) + replace_swizzle_from(s, sw, to, abs + 1)
                }
            } else {
                Seq::empty()
            },
        }
    }
}

/// Replaces the swizzle expression `swizzle` by `replacement` wherever it is
/// not followed by another swizzle letter (`uv.xy` but not `uv.xyz`).
pub fn replace_swizzle(src: &[char], swizzle: &[char], replacement: &[char]) -> (r: Vec<char>)
    requires
        swizzle@.len() > 0,
    ensures
        r@ == replace_swizzle_from(src@, swizzle@, replacement@, 0),
{
    let mut out: Vec<char> = Vec::new();
    let mut i: usize = 0;
    let n: usize = src.len();
    while i < n
        invariant
            n == src@.len(),
            i <= n,
            swizzle@.len() > 0,
            replace_swizzle_from(src@, swizzle@, replacement@, 0) == out@ + replace_swizzle_from(
                src@,
                swizzle@,
                replacement@,
                i as int,
            ),
        decreases n - i,
    {
        match find(src, swizzle, i) {
            None => {
                let rest = slice_vec(src, i, n);
                push_all(&mut out, &rest);
                return out;
            },
            Some(abs) => {
                proof {
                    lemma_find_from_bounds(src@, swizzle@, i as int);
                }
                let after: usize = abs + swizzle.len();
                if after >= n || !is_swizzle_char(src[after]) {
                    let mid = slice_vec(src, i, abs);
                    push_all(&mut out, &mid);
                    push_all(&mut out, replacement);
                    i = after;
                } else {
                    let mid = slice_vec(src, i, abs + 1);
                    push_all(&mut out, &mid);
                    i = abs + 1;
                }
            },
        }
    }
    assert(replace_swizzle_from(src@, swizzle@, replacement@, i as int) =~= Seq::empty());
    assert(out@ + Seq::<char>::empty() =~= out@);
    out
}

/// Removes every `GL_ES` (the guard of GLSL precision blocks).
pub fn strip_precision_blocks(input: &[char]) -> (r: Vec<char>)
    ensures
        r@ == replace_all_spec(input@, "GL_ES"@, Seq::empty(), 0),
{
    let pat = chars_of("GL_ES");
    proof {
        reveal_strlit("GL_ES");
    }
    let empty: Vec<char> = Vec::new();
    replace_all(input, &pat, &empty)
}


/// The replacement of `t` by the first rule whose left side equals it.
pub open spec fn rule_lookup(rules: Seq<(Seq<char>, Seq<char>)>, t: Seq<char>) -> Option<
    Seq<char>,
>
    decreases rules.len(),
{
    if rules.len() == 0 {
        None
    } else if rules[0].0 == t {
        Some(rules[0].1)
    } else {
        rule_lookup(rules.drop_first(), t)
    }
}

/// A finished identifier token, rewritten by the rules.
pub open spec fn flush_token(rules: Seq<(Seq<char>, Seq<char>)>, t: Seq<char>) -> Seq<char> {
    if t.len() == 0 {
        Seq::empty()
    } else {
        match rule_lookup(rules, t) {
            Some(r) => r,
            None => t,
        }
    }
}

/// Tokeniser state after `n` characters: (output so far, pending token).
pub open spec fn tokens_state(s: Seq<char>, rules: Seq<(Seq<char>, Seq<char>)>, n: int) -> (
    Seq<char>,
    Seq<char>,
)
    decreases n,
{
    if n <= 0 || n > s.len() {
        (Seq::empty(), Seq::empty())
    } else {
        let (o, t) = tokens_state(s, rules, n - 1);
        let c = s[n - 1];
        if word_char(c) {
            (o, t.push(c))
        } else {
            (o + flush_token(rules, t) + seq![c], Seq::empty())
        }
    }
}

/// `s` with every maximal identifier token rewritten by `rules`.
pub open spec fn replace_tokens_spec(s: Seq<char>, rules: Seq<(Seq<char>, Seq<char>)>) -> Seq<
    char,
> {
    let (o, t) = tokens_state(s, rules, s.len() as int);
    o + flush_token(rules, t)
}

/// The rules as character sequences.
pub open spec fn rules_view(rules: Seq<(Vec<char>, Vec<char>)>) -> Seq<(Seq<char>, Seq<char>)> {
    rules.map_values(|p: (Vec<char>, Vec<char>)| (p.0@, p.1@))
}

fn lookup_rule(rules: &Vec<(Vec<char>, Vec<char>)>, t: &[char]) -> (r: Option<Vec<char>>)
    ensures
        match r {
            Some(v) => rule_lookup(rules_view(rules@), t@) == Some(v@),
            None => rule_lookup(rules_view(rules@), t@) is None,
        },
{
    let mut k: usize = 0;
    assert(rules_view(rules@).subrange(0, rules@.len() as int) =~= rules_view(rules@));
    while k < rules.len()
        invariant
            k <= rules@.len(),
            rule_lookup(rules_view(rules@), t@) == rule_lookup(
                rules_view(rules@).subrange(k as int, rules@.len() as int),
                t@,
            ),
        decreases rules@.len() - k,
    {
        let ghost rest = rules_view(rules@).subrange(k as int, rules@.len() as int);
        assert(rest[0] == (rules@[k as int].0@, rules@[k as int].1@));
        if eq_chars(&rules[k].0, t) {
            return Some(slice_vec(&rules[k].1, 0, rules[k].1.len()));
        }
        assert(rest.drop_first() =~= rules_view(rules@).subrange(k + 1, rules@.len() as int));
        k = k + 1;
    }
    None
}

fn flush_into(out: &mut Vec<char>, rules: &Vec<(Vec<char>, Vec<char>)>, t: &[char])
    ensures
        final(out)@ == old(out)@ + flush_token(rules_view(rules@), t@),
{
    if t.len() == 0 {
        assert(old(out)@ + Seq::<char>::empty() =~= old(out)@);
        return;
    }
    match lookup_rule(rules, t) {
        Some(v) => push_all(out, &v),
        None => push_all(out, t),
    }
}

/// Rewrites each maximal identifier token that a rule names; everything
/// else is copied.
pub fn replace_identifier_tokens(input: &[char], rules: &Vec<(Vec<char>, Vec<char>)>) -> (r: Vec<
    char,
>)
    ensures
        r@ == replace_tokens_spec(input@, rules_view(rules@)),
{
    let mut out: Vec<char> = Vec::new();
    let mut token: Vec<char> = Vec::new();
    let n: usize = input.len();
    let mut i: usize = 0;
    while i < n
        invariant
            n == input@.len(),
            i <= n,
            tokens_state(input@, rules_view(rules@), i as int) == (out@, token@),
        decreases n - i,
    {
        let c = input[i];
        if is_identifier_char(c) {
            token.push(c);
        } else {
            flush_into(&mut out, rules, &token);
            token = Vec::new();
            out.push(c);
        }
        i = i + 1;
    }
    flush_into(&mut out, rules, &token);
    out
}

/// GLSL type names and their SkSL spellings.
pub open spec fn glsl_type_rules() -> Seq<(Seq<char>, Seq<char>)> {
    seq![
        ("ivec2"@, "int2"@),
        ("ivec3"@, "int3"@),
        ("ivec4"@, "int4"@),
        ("vec4"@, "half4"@),
        ("vec3"@, "float3"@),
        ("vec2"@, "float2"@),
        ("mat2"@, "float2x2"@),
        ("mat3"@, "float3x3"@),
    ]
}

/// Translates GLSL vector and matrix type names to SkSL.
pub fn replace_glsl_types(input: &[char]) -> (r: Vec<char>)
    ensures
        r@ == replace_tokens_spec(input@, glsl_type_rules()),
{
    let mut rules: Vec<(Vec<char>, Vec<char>)> = Vec::new();
    rules.push((chars_of("ivec2"), chars_of("int2")));
    rules.push((chars_of("ivec3"), chars_of("int3")));
    rules.push((chars_of("ivec4"), chars_of("int4")));
    rules.push((chars_of("vec4"), chars_of("half4")));
    rules.push((chars_of("vec3"), chars_of("float3")));
    rules.push((chars_of("vec2"), chars_of("float2")));
    rules.push((chars_of("mat2"), chars_of("float2x2")));
    rules.push((chars_of("mat3"), chars_of("float3x3")));
    assert(rules_view(rules@) =~= glsl_type_rules());
    replace_identifier_tokens(input, &rules)
}

/// The tokeniser's state on a prefix does not depend on what follows it.
proof fn lemma_tokens_prefix(
    x: Seq<char>,
    y: Seq<char>,
    rules: Seq<(Seq<char>, Seq<char>)>,
    n: int,
)
    requires
        0 <= n <= x.len(),
    ensures
        tokens_state(x + y, rules, n) == tokens_state(x, rules, n),
    decreases n,
{
    if n > 0 {
        lemma_tokens_prefix(x, y, rules, n - 1);
        assert((x + y)[n - 1] == x[n - 1]);
    }
}

/// After a prefix that leaves no pending token, the tokeniser runs on the
/// rest as on its own, its output appended.
proof fn lemma_tokens_after_boundary(
    x: Seq<char>,
    y: Seq<char>,
    rules: Seq<(Seq<char>, Seq<char>)>,
    k: int,
)
    requires
        tokens_state(x, rules, x.len() as int).1 == Seq::<char>::empty(),
        0 <= k <= y.len(),
    ensures
        tokens_state(x + y, rules, x.len() + k) == (
            tokens_state(x, rules, x.len() as int).0 + tokens_state(y, rules, k).0,
            tokens_state(y, rules, k).1,
        ),
    decreases k,
{
    let o = tokens_state(x, rules, x.len() as int).0;
    if k == 0 {
        lemma_tokens_prefix(x, y, rules, x.len() as int);
        assert(o + Seq::<char>::empty() =~= o);
    } else {
        lemma_tokens_after_boundary(x, y, rules, k - 1);
        let (o1, t1) = tokens_state(y, rules, k - 1);
        assert((x + y)[x.len() + k - 1] == y[k - 1]);
        assert(o + o1 + flush_token(rules, t1) + seq![y[k - 1]] =~= o + (o1 + flush_token(
            rules,
            t1,
        ) + seq![y[k - 1]]));
    }
}

/// A rest that starts with a separator first flushes the pending token of
/// the prefix, then runs as on its own.
proof fn lemma_tokens_after_separator(
    x: Seq<char>,
    y: Seq<char>,
    rules: Seq<(Seq<char>, Seq<char>)>,
    k: int,
)
    requires
        y.len() > 0,
        !word_char(y[0]),
        1 <= k <= y.len(),
    ensures
        tokens_state(x + y, rules, x.len() + k) == (
            tokens_state(x, rules, x.len() as int).0 + flush_token(
                rules,
                tokens_state(x, rules, x.len() as int).1,
            ) + tokens_state(y, rules, k).0,
            tokens_state(y, rules, k).1,
        ),
    decreases k,
{
    let (o, t) = tokens_state(x, rules, x.len() as int);
    if k == 1 {
        lemma_tokens_prefix(x, y, rules, x.len() as int);
        assert((x + y)[x.len() as int] == y[0]);
        assert(tokens_state(y, rules, 0) == (Seq::<char>::empty(), Seq::<char>::empty()));
        assert(Seq::<char>::empty() + flush_token(rules, Seq::<char>::empty()) + seq![y[0]]
            =~= seq![y[0]]);
    } else {
        lemma_tokens_after_separator(x, y, rules, k - 1);
        let (o1, t1) = tokens_state(y, rules, k - 1);
        assert((x + y)[x.len() + k - 1] == y[k - 1]);
        assert(o + flush_token(rules, t) + o1 + flush_token(rules, t1) + seq![y[k - 1]] =~= o
            + flush_token(rules, t) + (o1 + flush_token(rules, t1) + seq![y[k - 1]]));
    }
}

/// A run of identifier characters is held as one pending token.
proof fn lemma_tokens_word(w: Seq<char>, rules: Seq<(Seq<char>, Seq<char>)>, n: int)
    requires
        0 <= n <= w.len(),
        forall|j: int| 0 <= j < w.len() ==> word_char(#[trigger] w[j]),
    ensures
        tokens_state(w, rules, n) == (Seq::<char>::empty(), w.subrange(0, n)),
    decreases n,
{
    if n > 0 {
        lemma_tokens_word(w, rules, n - 1);
        assert(w.subrange(0, n - 1).push(w[n - 1]) =~= w.subrange(0, n));
    } else {
        assert(w.subrange(0, 0) =~= Seq::<char>::empty());
    }
}

/// A token rewrite acts on whole tokens: a token `w` of identifier
/// characters standing between separators (or the text's ends) becomes
/// `flush_token(rules, w)`, and the text on each side is rewritten on its
/// own.
proof fn lemma_token_in_context(
    pre: Seq<char>,
    w: Seq<char>,
    post: Seq<char>,
    rules: Seq<(Seq<char>, Seq<char>)>,
)
    requires
        w.len() > 0,
        forall|j: int| 0 <= j < w.len() ==> word_char(#[trigger] w[j]),
        pre.len() == 0 || !word_char(pre.last()),
        post.len() == 0 || !word_char(post[0]),
    ensures
        replace_tokens_spec(pre + w + post, rules) == replace_tokens_spec(pre, rules)
            + flush_token(rules, w) + replace_tokens_spec(post, rules),
{
    let o_pre = tokens_state(pre, rules, pre.len() as int).0;
    assert(tokens_state(pre, rules, pre.len() as int).1 == Seq::<char>::empty());
    assert(replace_tokens_spec(pre, rules) == o_pre) by {
        assert(o_pre + flush_token(rules, Seq::<char>::empty()) =~= o_pre);
    }
    let y = w + post;
    assert(pre + w + post =~= pre + y);
    lemma_tokens_after_boundary(pre, y, rules, y.len() as int);
    lemma_tokens_word(w, rules, w.len() as int);
    assert(w.subrange(0, w.len() as int) =~= w);
    if post.len() == 0 {
        assert(y =~= w);
        assert(replace_tokens_spec(post, rules) == Seq::<char>::empty());
        assert(replace_tokens_spec(pre + w + post, rules) =~= o_pre + flush_token(rules, w)
            + Seq::<char>::empty());
    } else {
        lemma_tokens_after_separator(w, post, rules, post.len() as int);
        let (op, tp) = tokens_state(post, rules, post.len() as int);
        assert(replace_tokens_spec(pre + w + post, rules) =~= o_pre + (Seq::<char>::empty()
            + flush_token(rules, w) + op) + flush_token(rules, tp));
        assert(o_pre + (Seq::<char>::empty() + flush_token(rules, w) + op) + flush_token(rules, tp)
            =~= o_pre + flush_token(rules, w) + (op + flush_token(rules, tp)));
    }
}

/// GLSL type names become the SkSL type of the same scalar kind and shape:
/// `ivecN` becomes `intN`, `vec2` and `vec3` become `float2` and `float3`,
/// `vec4` becomes `half4`, `mat2` and `mat3` become `float2x2` and
/// `float3x3`. Each name is rewritten as a whole token, wherever it stands
/// between separators, and the text around it is rewritten on its own.
pub proof fn lemma_glsl_type_table(pre: Seq<char>, post: Seq<char>, i: int)
    requires
        0 <= i < 8,
        pre.len() == 0 || !word_char(pre.last()),
        post.len() == 0 || !word_char(post[0]),
    ensures
        ({
            let glsl = seq!["ivec2"@, "ivec3"@, "ivec4"@, "vec4"@, "vec3"@, "vec2"@, "mat2"@, "mat3"@];
            let sksl = seq![
                "int2"@, "int3"@, "int4"@, "half4"@, "float3"@, "float2"@, "float2x2"@, "float3x3"@
            ];
            replace_tokens_spec(pre + glsl[i] + post, glsl_type_rules()) == replace_tokens_spec(
                pre,
                glsl_type_rules(),
            ) + sksl[i] + replace_tokens_spec(post, glsl_type_rules())
        }),
{
    let glsl = seq!["ivec2"@, "ivec3"@, "ivec4"@, "vec4"@, "vec3"@, "vec2"@, "mat2"@, "mat3"@];
    let sksl = seq![
        "int2"@, "int3"@, "int4"@, "half4"@, "float3"@, "float2"@, "float2x2"@, "float3x3"@
    ];
    reveal_strlit("ivec2");
    reveal_strlit("ivec3");
    reveal_strlit("ivec4");
    reveal_strlit("vec4");
    reveal_strlit("vec3");
    reveal_strlit("vec2");
    reveal_strlit("mat2");
    reveal_strlit("mat3");
    let w = glsl[i];
    assert(forall|j: int| 0 <= j < w.len() ==> word_char(#[trigger] w[j]));
    let rules = glsl_type_rules();
    assert(forall|j: int| 0 <= j < 8 ==> #[trigger] rules[j] == (glsl[j], sksl[j]));
    assert("ivec2"@ != "ivec3"@) by {
        assert("ivec2"@[4] != "ivec3"@[4]);
    }
    assert("ivec2"@ != "ivec4"@) by {
        assert("ivec2"@[4] != "ivec4"@[4]);
    }
    assert("ivec2"@ != "vec4"@) by {
        assert("ivec2"@.len() != "vec4"@.len());
    }
    assert("ivec2"@ != "vec3"@) by {
        assert("ivec2"@.len() != "vec3"@.len());
    }
    assert("ivec2"@ != "vec2"@) by {
        assert("ivec2"@.len() != "vec2"@.len());
    }
    assert("ivec2"@ != "mat2"@) by {
        assert("ivec2"@.len() != "mat2"@.len());
    }
    assert("ivec2"@ != "mat3"@) by {
        assert("ivec2"@.len() != "mat3"@.len());
    }
    assert("ivec3"@ != "ivec4"@) by {
        assert("ivec3"@[4] != "ivec4"@[4]);
    }
    assert("ivec3"@ != "vec4"@) by {
        assert("ivec3"@.len() != "vec4"@.len());
    }
    assert("ivec3"@ != "vec3"@) by {
        assert("ivec3"@.len() != "vec3"@.len());
    }
    assert("ivec3"@ != "vec2"@) by {
        assert("ivec3"@.len() != "vec2"@.len());
    }
    assert("ivec3"@ != "mat2"@) by {
        assert("ivec3"@.len() != "mat2"@.len());
    }
    assert("ivec3"@ != "mat3"@) by {
        assert("ivec3"@.len() != "mat3"@.len());
    }
    assert("ivec4"@ != "vec4"@) by {
        assert("ivec4"@.len() != "vec4"@.len());
    }
    assert("ivec4"@ != "vec3"@) by {
        assert("ivec4"@.len() != "vec3"@.len());
    }
    assert("ivec4"@ != "vec2"@) by {
        assert("ivec4"@.len() != "vec2"@.len());
    }
    assert("ivec4"@ != "mat2"@) by {
        assert("ivec4"@.len() != "mat2"@.len());
    }
    assert("ivec4"@ != "mat3"@) by {
        assert("ivec4"@.len() != "mat3"@.len());
    }
    assert("vec4"@ != "vec3"@) by {
        assert("vec4"@[3] != "vec3"@[3]);
    }
    assert("vec4"@ != "vec2"@) by {
        assert("vec4"@[3] != "vec2"@[3]);
    }
    assert("vec4"@ != "mat2"@) by {
        assert("vec4"@[0] != "mat2"@[0]);
    }
    assert("vec4"@ != "mat3"@) by {
        assert("vec4"@[0] != "mat3"@[0]);
    }
    assert("vec3"@ != "vec2"@) by {
        assert("vec3"@[3] != "vec2"@[3]);
    }
    assert("vec3"@ != "mat2"@) by {
        assert("vec3"@[0] != "mat2"@[0]);
    }
    assert("vec3"@ != "mat3"@) by {
        assert("vec3"@[0] != "mat3"@[0]);
    }
    assert("vec2"@ != "mat2"@) by {
        assert("vec2"@[0] != "mat2"@[0]);
    }
    assert("vec2"@ != "mat3"@) by {
        assert("vec2"@[0] != "mat3"@[0]);
    }
    assert("mat2"@ != "mat3"@) by {
        assert("mat2"@[3] != "mat3"@[3]);
    }
    reveal_with_fuel(rule_lookup, 9);
    assert(flush_token(rules, w) == sksl[i]);
    lemma_token_in_context(pre, w, post, rules);
}

/// Scalar type of a GLSL vector type: `int` for integer vectors.
pub open spec fn vector_scalar_spec(ty: Seq<char>) -> Seq<char> {
    if ty == "ivec2"@ || ty == "ivec3"@ || ty == "ivec4"@ {
        "int"@
    } else {
        "float"@
    }
}

pub fn vector_scalar_type(ty: &[char]) -> (r: &'static str)
    ensures
        r@ == vector_scalar_spec(ty@),
{
    if eq_chars(ty, &chars_of("ivec2")) || eq_chars(ty, &chars_of("ivec3")) || eq_chars(
        ty,
        &chars_of("ivec4"),
    ) {
        "int"
    } else {
        "float"
    }
}

/// Appends the SkSL constant declaration `const <ty> <name> = <value>;\n`.
pub fn emit_const_param(output: &mut Vec<char>, ty: &[char], name: &[char], value: &[char])
    ensures
        final(output)@ == old(output)@ + "const "@ + ty@ + " "@ + name@ + " = "@ + value@ + ";\n"@,
{
    push_all(output, &chars_of("const "));
    push_all(output, ty);
    push_all(output, &chars_of(" "));
    push_all(output, name);
    push_all(output, &chars_of(" = "));
    push_all(output, value);
    push_all(output, &chars_of(";\n"));
}

/// Characters kept by name normalisation.
pub open spec fn name_char_kept(c: char) -> bool {
    c != '-' && c != '_' && !is_ws(c)
}

/// Lowercase of the kept characters of `t`.
pub open spec fn lower_kept(t: Seq<char>) -> Seq<char>
    decreases t.len(),
{
    if t.len() == 0 {
        Seq::empty()
    } else {
        lower_kept(t.drop_last()) + if name_char_kept(t.last()) {
            char_lowercase(t.last())
        } else {
            Seq::empty()
        }
    }
}

/// Canonical lookup key of a transition name: trimmed, without `-`, `_` and
/// whitespace, lowercased.
pub open spec fn normalize_name_spec(v: Seq<char>) -> Seq<char> {
    lower_kept(trim_spec(v))
}

pub fn normalize_gltransition_name(value: &[char]) -> (r: Vec<char>)
    ensures
        r@ == normalize_name_spec(value@),
{
    let t = trim(value);
    let mut out: Vec<char> = Vec::new();
    let mut i: usize = 0;
    while i < t.len()
        invariant
            i <= t@.len(),
            out@ == lower_kept(t@.subrange(0, i as int)),
        decreases t@.len() - i,
    {
        let c = t[i];
        assert(t@.subrange(0, i + 1).drop_last() =~= t@.subrange(0, i as int));
        if c != '-' && c != '_' && !is_whitespace(c) {
            let low = lowercase_of(c);
            push_all(&mut out, &low);
        } else {
            assert(out@ + Seq::<char>::empty() =~= out@);
        }
        i = i + 1;
    }
    assert(t@.subrange(0, t@.len() as int) =~= t@);
    out
}


/// Optional character vector as an optional sequence.
pub open spec fn opt_view(o: Option<Vec<char>>) -> Option<Seq<char>> {
    match o {
        Some(v) => Some(v@),
        None => None,
    }
}

/// The `/* ... */` comment body starting at `j` (just after `/*`) and the
/// position after its `*/` (or the end when it is not closed).
pub open spec fn comment_body(s: Seq<char>, j: int) -> (Seq<char>, int) {
    match find_from(s, "*/"@, j) {
        Some(k) => (s.subrange(j, k), k + 2),
        None => (s.subrange(j, s.len() as int), s.len() as int),
    }
}

/// Default carried by a comment body: the trimmed text after its first `=`.
pub open spec fn comment_default(content: Seq<char>, def: Option<Seq<char>>) -> Option<
    Seq<char>,
> {
    match find_char_from(content, '=', 0) {
        Some(e) => Some(trim_spec(content.subrange(e + 1, content.len() as int))),
        None => def,
    }
}

/// Scan of `s[i..]` that drops `/* ... */` comments while remembering the
/// last default they carry.
pub open spec fn inline_default_from(s: Seq<char>, i: int, res: Seq<char>, def: Option<Seq<char>>) -> (
    Seq<char>,
    Option<Seq<char>>,
)
    decreases s.len() - i,
{
    if i < 0 || i >= s.len() {
        (res, def)
    } else if s[i] == '/' && i + 1 < s.len() && s[i + 1] == '*' {
        let (content, next) = comment_body(s, i + 2);
        if next > i && next <= s.len() {
            inline_default_from(s, next, res, comment_default(content, def))
        } else {
            (res, def)
        }
    } else {
        inline_default_from(s, i + 1, res.push(s[i]), def)
    }
}

/// A line without its `//` comment.
pub open spec fn strip_line_comment(line: Seq<char>) -> Seq<char> {
    match split_once_spec(line, "//"@) {
        Some((code, _rest)) => code,
        None => line,
    }
}

/// The code of a uniform line without comments, and the default value
/// written as `/* = value */` inside it.
pub open spec fn inline_default_spec(line: Seq<char>) -> (Seq<char>, Option<Seq<char>>) {
    inline_default_from(strip_line_comment(line), 0, Seq::empty(), None)
}

/// Separates a GLSL line into its code and an inline `/* = default */` value.
pub fn extract_inline_default(line: &[char]) -> (r: (Vec<char>, Option<Vec<char>>))
    ensures
        (r.0@, opt_view(r.1)) == inline_default_spec(line@),
{
    let slashes = chars_of("//");
    let no_line = match split_once(line, &slashes) {
        Some((code, _rest)) => code,
        None => slice_vec(line, 0, line.len()),
    };
    assert(no_line@ =~= strip_line_comment(line@));
    let close = chars_of("*/");
    proof {
        reveal_strlit("*/");
    }
    let mut result: Vec<char> = Vec::new();
    let mut default: Option<Vec<char>> = None;
    let n: usize = no_line.len();
    let mut i: usize = 0;
    while i < n
        invariant
            n == no_line@.len(),
            i <= n,
            close@ == "*/"@,
            close@.len() == 2,
            inline_default_spec(line@) == inline_default_from(
                no_line@,
                i as int,
                result@,
                opt_view(default),
            ),
        decreases n - i,
    {
        if no_line[i] == '/' && i + 1 < n && no_line[i + 1] == '*' {
            let next;
            let content;
            match find(&no_line, &close, i + 2) {
                Some(k) => {
                    proof {
                        lemma_find_from_bounds(no_line@, close@, i + 2);
                    }
                    content = slice_vec(&no_line, i + 2, k);
                    next = k + 2;
                },
                None => {
                    content = slice_vec(&no_line, i + 2, n);
                    next = n;
                },
            }
            match find_char(&content, '=', 0) {
                Some(e) => {
                    proof {
                        lemma_find_char_from_bounds(content@, '=', 0);
                    }
                    let tail = slice_vec(&content, e + 1, content.len());
                    default = Some(trim(&tail));
                },
                None => {},
            }
            i = next;
        } else {
            result.push(no_line[i]);
            i = i + 1;
        }
    }
    (result, default)
}

/// The SkSL scalar and vector types whose globals may be inlined.
pub open spec fn inlineable_type(t: Seq<char>) -> bool {
    ||| t == "float"@
    ||| t == "half"@
    ||| t == "int"@
    ||| t == "bool"@
    ||| t == "float2"@
    ||| t == "float3"@
    ||| t == "half4"@
    ||| t == "int2"@
    ||| t == "int3"@
    ||| t == "int4"@
}

/// `s` without its trailing run of `c`.
pub open spec fn trim_end_char_spec(s: Seq<char>, c: char) -> Seq<char> {
    s.subrange(0, trim_end_char_to(s, c, s.len() as int))
}

/// A global `<type> <name> = <expr>;` declaration (trimmed line) that can be
/// inlined: its name and initializer expression.
pub open spec fn inlineable_spec(s: Seq<char>) -> Option<(Seq<char>, Seq<char>)> {
    if starts_with_spec(s, "const "@) || starts_with_spec(s, "uniform "@) {
        None
    } else if !ends_with_spec(s, ";"@) || !s.contains('=') {
        None
    } else {
        match split_once_spec(s, "="@) {
            None => None,
            Some((left, right)) => if left.contains('(') {
                None
            } else {
                let toks = ws_tokens(left);
                if toks.len() < 1 || !inlineable_type(toks[0]) || toks.len() < 2 {
                    None
                } else {
                    Some((toks[1], trim_spec(trim_end_char_spec(right, ';'))))
                }
            },
        }
    }
}

fn is_one_of(t: &[char]) -> (r: bool)
    ensures
        r == inlineable_type(t@),
{
    eq_chars(t, &chars_of("float")) || eq_chars(t, &chars_of("half")) || eq_chars(
        t,
        &chars_of("int"),
    ) || eq_chars(t, &chars_of("bool")) || eq_chars(t, &chars_of("float2")) || eq_chars(
        t,
        &chars_of("float3"),
    ) || eq_chars(t, &chars_of("half4")) || eq_chars(t, &chars_of("int2")) || eq_chars(
        t,
        &chars_of("int3"),
    ) || eq_chars(t, &chars_of("int4"))
}

/// Recognises a hoistable global initializer (see [`inlineable_spec`]).
pub fn is_inlineable_global(trimmed: &[char]) -> (r: Option<(Vec<char>, Vec<char>)>)
    ensures
        match r {
            Some(p) => inlineable_spec(trimmed@) == Some((p.0@, p.1@)),
            None => inlineable_spec(trimmed@) is None,
        },
{
    if starts_with(trimmed, &chars_of("const ")) || starts_with(trimmed, &chars_of("uniform ")) {
        return None;
    }
    if !ends_with(trimmed, &chars_of(";")) || !contains_char(trimmed, '=') {
        return None;
    }
    let (left, right) = match split_once(trimmed, &chars_of("=")) {
        Some(p) => p,
        None => {
            return None;
        },
    };
    if contains_char(&left, '(') {
        return None;
    }
    let toks = split_whitespace(&left);
    if toks.len() < 1 {
        return None;
    }
    assert(toks@.map_values(|l: Vec<char>| l@)[0] == toks@[0]@);
    if !is_one_of(&toks[0]) {
        return None;
    }
    if toks.len() < 2 {
        return None;
    }
    assert(toks@.map_values(|l: Vec<char>| l@)[1] == toks@[1]@);
    let name = slice_vec(&toks[1], 0, toks[1].len());
    let stripped = trim_end_char(&right, ';');
    let expr = trim(&stripped);
    Some((name, expr))
}


/// Net brace nesting change of a line.
pub open spec fn brace_delta(line: Seq<char>) -> int {
    count_char(line, '{') - count_char(line, '}')
}

/// After the first `n` lines: (hoisted `(name, expr)` pairs, kept lines,
/// brace depth). Only declarations at depth zero are hoisted.
pub open spec fn hoist_state(ls: Seq<Seq<char>>, n: int) -> (
    Seq<(Seq<char>, Seq<char>)>,
    Seq<Seq<char>>,
    int,
)
    decreases n,
{
    if n <= 0 || n > ls.len() {
        (Seq::empty(), Seq::empty(), 0)
    } else {
        let (h, k, d) = hoist_state(ls, n - 1);
        let line = ls[n - 1];
        match inlineable_spec(trim_spec(line)) {
            Some(pair) => if d == 0 {
                (h.push(pair), k, d + brace_delta(line))
            } else {
                (h, k.push(line), d + brace_delta(line))
            },
            None => (h, k.push(line), d + brace_delta(line)),
        }
    }
}

/// `(expr)`.
pub open spec fn parenthesized(e: Seq<char>) -> Seq<char> {
    seq!['('] + e + seq![')']
}

/// Substitutes the hoisted initializers, last declaration first.
pub open spec fn apply_hoists(text: Seq<char>, h: Seq<(Seq<char>, Seq<char>)>, m: int) -> Seq<char>
    decreases m,
{
    if m <= 0 || m > h.len() {
        text
    } else {
        apply_hoists(replace_word_spec(text, h[m - 1].0, parenthesized(h[m - 1].1)), h, m - 1)
    }
}

/// Global `<type> <name> = <expr>;` declarations outside any block are
/// removed and every whole-word use of `<name>` becomes `(<expr>)`.
pub open spec fn inline_globals_spec(input: Seq<char>) -> Seq<char> {
    let ls = lines_spec(input);
    let (h, k, _d) = hoist_state(ls, ls.len() as int);
    if h.len() == 0 {
        input
    } else {
        apply_hoists(join_spec(k, "\n"@), h, h.len() as int)
    }
}

proof fn lemma_inlineable_name_nonempty(s: Seq<char>)
    ensures
        inlineable_spec(s) matches Some(p) ==> p.0.len() > 0,
{
    match split_once_spec(s, "="@) {
        Some((left, _right)) => {
            lemma_ws_tokens_nonempty(left, 0);
        },
        None => {},
    }
}

proof fn lemma_hoisted_names_nonempty(ls: Seq<Seq<char>>, n: int)
    ensures
        forall|k: int| 0 <= k < hoist_state(ls, n).0.len() ==> (#[trigger] hoist_state(ls, n).0[k]).0.len() > 0,
    decreases n,
{
    if 0 < n <= ls.len() {
        lemma_hoisted_names_nonempty(ls, n - 1);
        lemma_inlineable_name_nonempty(trim_spec(ls[n - 1]));
        let h = hoist_state(ls, n - 1).0;
        let h2 = hoist_state(ls, n).0;
        assert forall|j: int| 0 <= j < h2.len() implies (#[trigger] h2[j]).0.len() > 0 by {
            if j < h.len() {
                assert(h2[j] == h[j]);
            }
        }
    }
}

proof fn lemma_hoist_depth(ls: Seq<Seq<char>>, n: int)
    requires
        0 <= n <= ls.len(),
    ensures
        -(total_len(ls) - total_len(ls.subrange(n, ls.len() as int))) <= hoist_state(ls, n).2
            <= total_len(ls) - total_len(ls.subrange(n, ls.len() as int)),
    decreases n,
{
    if n == 0 {
        assert(ls.subrange(0, ls.len() as int) =~= ls);
    } else {
        lemma_hoist_depth(ls, n - 1);
        lemma_total_len_step(ls, n - 1);
        lemma_count_char_bounds(ls[n - 1], '{');
        lemma_count_char_bounds(ls[n - 1], '}');
    }
}

/// Inlines global initializers (see [`inline_globals_spec`]).
pub fn inline_global_initializers(input: &[char]) -> (r: Vec<char>)
    ensures
        r@ == inline_globals_spec(input@),
{
    let ls = lines(input);
    let ghost lsv = ls@.map_values(|l: Vec<char>| l@);
    proof {
        lemma_lines_total(input@, 0);
    }
    let mut hoistable: Vec<(Vec<char>, Vec<char>)> = Vec::new();
    let mut kept: Vec<Vec<char>> = Vec::new();
    let mut depth: i128 = 0;
    let input_len: usize = input.len();
    let n: usize = ls.len();
    let mut i: usize = 0;
    while i < n
        invariant
            n == ls@.len(),
            lsv == ls@.map_values(|l: Vec<char>| l@),
            lsv == lines_spec(input@),
            total_len(lsv) <= input@.len(),
            input@.len() <= usize::MAX,
            i <= n,
            hoist_state(lsv, i as int) == (
                rules_view(hoistable@),
                kept@.map_values(|l: Vec<char>| l@),
                depth as int,
            ),
        decreases n - i,
    {
        proof {
            lemma_hoist_depth(lsv, i as int);
            lemma_hoist_depth(lsv, i + 1);
            lemma_total_len_step(lsv, i as int);
            lemma_total_len_nonneg(lsv.subrange(i as int, n as int));
            lemma_total_len_nonneg(lsv.subrange(i + 1, n as int));
            lemma_count_char_bounds(lsv[i as int], '{');
            lemma_count_char_bounds(lsv[i as int], '}');
        }
        let line = &ls[i];
        assert(line@ == lsv[i as int]);
        let t = trim(line);
        let opens: usize = count(line, '{');
        let closes: usize = count(line, '}');
        let ghost hprev = hoistable@;
        let ghost kprev = kept@;
        let mut hoisted = false;
        if depth == 0 {
            match is_inlineable_global(&t) {
                Some(pair) => {
                    hoistable.push(pair);
                    assert(rules_view(hoistable@) =~= rules_view(hprev).push((pair.0@, pair.1@)));
                    hoisted = true;
                },
                None => {},
            }
        }
        if !hoisted {
            let copy = slice_vec(line, 0, line.len());
            assert(copy@ =~= line@);
            kept.push(copy);
            assert(kept@.map_values(|l: Vec<char>| l@) =~= kprev.map_values(|l: Vec<char>| l@).push(
                line@,
            ));
        }
        depth = depth + opens as i128 - closes as i128;
        i = i + 1;
    }
    if hoistable.len() == 0 {
        return slice_vec(input, 0, input.len());
    }
    let nl = chars_of("\n");
    let mut result = join(&kept, &nl);
    let ghost hv = rules_view(hoistable@);
    proof {
        lemma_hoisted_names_nonempty(lsv, n as int);
    }
    let mut m: usize = hoistable.len();
    while m > 0
        invariant
            m <= hoistable@.len(),
            hv == rules_view(hoistable@),
            hv == hoist_state(lsv, lsv.len() as int).0,
            forall|k: int| 0 <= k < hv.len() ==> (#[trigger] hv[k]).0.len() > 0,
            apply_hoists(join_spec(kept@.map_values(|l: Vec<char>| l@), "\n"@), hv, hv.len() as int)
                == apply_hoists(result@, hv, m as int),
        decreases m,
    {
        let pair = &hoistable[m - 1];
        assert(hv[m - 1] == (pair.0@, pair.1@));
        let mut wrapped: Vec<char> = Vec::new();
        wrapped.push('(');
        push_all(&mut wrapped, &pair.1);
        wrapped.push(')');
        assert(wrapped@ =~= parenthesized(pair.1@));
        result = replace_word(&result, &pair.0, &wrapped);
        m = m - 1;
    }
    result
}


/// The macro body with the first `k` parameters replaced (whole words) by
/// the matching call arguments; parameters without an argument stay.
pub open spec fn subst_params(
    body: Seq<char>,
    params: Seq<Seq<char>>,
    args: Seq<Seq<char>>,
    k: int,
) -> Seq<char>
    decreases k,
{
    if k <= 0 || k > params.len() {
        body
    } else {
        let e = subst_params(body, params, args, k - 1);
        if k - 1 < args.len() {
            replace_word_spec(e, params[k - 1], args[k - 1])
        } else {
            e
        }
    }
}

/// Expansion of the function-like macro `name(params) body` in `s[i..]`:
/// each whole-word call `name(...)` with a balanced argument list becomes the
/// substituted body.
pub open spec fn expand_macro_from(
    s: Seq<char>,
    name: Seq<char>,
    params: Seq<Seq<char>>,
    body: Seq<char>,
    i: int,
) -> Seq<char>
    decreases s.len() - i,
{
    if i < 0 || i >= s.len() || name.len() == 0 {
        Seq::empty()
    } else {
        match find_from(s, name, i) {
            None => s.subrange(i, s.len() as int),
            Some(abs) => if i <= abs && abs + name.len() <= s.len() {
                let after: int = abs + name.len();
                if boundary_before(s, abs) && after < s.len() && s[after] == '(' {
                    match matching_paren_spec(s, after) {
                        Some(close) => if after < close < s.len() {
                            let args = split_args_spec(s.subrange(after + 1, close));
                            s.subrange(i, abs) + subst_params(body, params, args, params.len() as int)
                                + expand_macro_from(s, name, params, body, close + 1)
                        } else {
                            Seq::empty()
                        },
                        None => s.subrange(i, after) + expand_macro_from(s, name, params, body, after),
                    }
                } else {
                    s.subrange(i, after) + expand_macro_from(s, name, params, body, after)
                }
            } else {
                Seq::empty()
            },
        }
    }
}

/// All parameter names are non-empty.
pub open spec fn params_nonempty(params: Seq<Seq<char>>) -> bool {
    forall|k: int| 0 <= k < params.len() ==> (#[trigger] params[k]).len() > 0
}

/// Expands the function-like macro `name` everywhere in `src`.
pub fn expand_func_macro(src: &[char], name: &[char], params: &Vec<Vec<char>>, body: &[char]) -> (r:
    Vec<char>)
    requires
        name@.len() > 0,
        params_nonempty(params@.map_values(|p: Vec<char>| p@)),
    ensures
        r@ == expand_macro_from(src@, name@, params@.map_values(|p: Vec<char>| p@), body@, 0),
{
    let ghost pv = params@.map_values(|p: Vec<char>| p@);
    let mut out: Vec<char> = Vec::new();
    let n: usize = src.len();
    let mut i: usize = 0;
    while i < n
        invariant
            n == src@.len(),
            i <= n,
            name@.len() > 0,
            pv == params@.map_values(|p: Vec<char>| p@),
            params_nonempty(pv),
            expand_macro_from(src@, name@, pv, body@, 0) == out@ + expand_macro_from(
                src@,
                name@,
                pv,
                body@,
                i as int,
            ),
        decreases n - i,
    {
        match find(src, name, i) {
            None => {
                let rest = slice_vec(src, i, n);
                push_all(&mut out, &rest);
                return out;
            },
            Some(abs) => {
                proof {
                    lemma_find_from_bounds(src@, name@, i as int);
                }
                let after_name: usize = abs + name.len();
                let before_ok = abs == 0 || !is_word_char(src[abs - 1]);
                if before_ok && after_name < n && src[after_name] == '(' {
                    match find_matching_paren(src, after_name) {
                        Some(close) => {
                            proof {
                                lemma_paren_close_bounds(src@, after_name + 1, 1);
                            }
                            let inner = slice_vec(src, after_name + 1, close);
                            let args = split_args(&inner);
                            let ghost av = args@.map_values(|a: Vec<char>| a@);
                            let mut expanded = slice_vec(body, 0, body.len());
                            assert(expanded@ =~= body@);
                            let mut pi: usize = 0;
                            while pi < params.len()
                                invariant
                                    pi <= params@.len(),
                                    pv == params@.map_values(|p: Vec<char>| p@),
                                    params_nonempty(pv),
                                    av == args@.map_values(|a: Vec<char>| a@),
                                    expanded@ == subst_params(body@, pv, av, pi as int),
                                decreases params@.len() - pi,
                            {
                                assert(pv[pi as int] == params@[pi as int]@);
                                if pi < args.len() {
                                    assert(av[pi as int] == args@[pi as int]@);
                                    expanded = replace_word(&expanded, &params[pi], &args[pi]);
                                }
                                pi = pi + 1;
                            }
                            let mid = slice_vec(src, i, abs);
                            push_all(&mut out, &mid);
                            push_all(&mut out, &expanded);
                            i = close + 1;
                        },
                        None => {
                            let mid = slice_vec(src, i, after_name);
                            push_all(&mut out, &mid);
                            i = after_name;
                        },
                    }
                } else {
                    let mid = slice_vec(src, i, after_name);
                    push_all(&mut out, &mid);
                    i = after_name;
                }
            },
        }
    }
    assert(expand_macro_from(src@, name@, pv, body@, i as int) =~= Seq::empty());
    assert(out@ + Seq::<char>::empty() =~= out@);
    out
}


/// Meaning of one GLSL source line for the preprocessor.
pub enum DirectiveSpec {
    /// Dropped (`#ifdef`, `#endif`, `precision`, or an empty `#define`).
    Skip,
    /// Ordinary source line.
    Keep,
    /// `#define name(params) body`.
    Func(Seq<char>, Seq<Seq<char>>, Seq<char>),
    /// `#define name value`.
    Simple(Seq<char>, Seq<char>),
}

/// End of the macro name that starts `s` at `k`: the first character that is
/// neither alphanumeric nor `_`.
pub open spec fn name_end_from(s: Seq<char>, k: int) -> int
    decreases s.len() - k,
{
    if k < 0 || k >= s.len() {
        if k < 0 { 0 } else { s.len() as int }
    } else if !(char_alphanumeric(s[k]) || s[k] == '_') {
        k
    } else {
        name_end_from(s, k + 1)
    }
}

/// Trimmed pieces that are not blank.
pub open spec fn trim_filter(parts: Seq<Seq<char>>) -> Seq<Seq<char>>
    decreases parts.len(),
{
    if parts.len() == 0 {
        Seq::empty()
    } else {
        let init = trim_filter(parts.drop_last());
        if trim_spec(parts.last()).len() > 0 {
            init.push(trim_spec(parts.last()))
        } else {
            init
        }
    }
}

/// Text before a `//` comment, trimmed; the text itself when it has none.
pub open spec fn code_before_comment(raw: Seq<char>) -> Seq<char> {
    match split_once_spec(raw, "//"@) {
        Some((code, _rest)) => trim_spec(code),
        None => raw,
    }
}

/// Classification of one source line.
pub open spec fn classify_spec(line: Seq<char>) -> DirectiveSpec {
    let t = trim_start_spec(line);
    if starts_with_spec(t, "#ifdef"@) || starts_with_spec(t, "#endif"@) || starts_with_spec(
        t,
        "precision "@,
    ) {
        DirectiveSpec::Skip
    } else if starts_with_spec(t, "#define"@) {
        let rest = trim_spec(trim_start_matches_from(t, "#define"@, 0));
        if rest.len() == 0 {
            DirectiveSpec::Skip
        } else {
            let ne: int = name_end_from(rest, 0);
            let name = trim_spec(rest.subrange(0, ne));
            if name.len() == 0 {
                DirectiveSpec::Skip
            } else {
                let after = trim_start_spec(rest.subrange(ne, rest.len() as int));
                let inner = after.subrange(1, after.len() as int);
                if starts_with_spec(after, "("@) && find_char_from(inner, ')', 0) is Some {
                    let close: int = find_char_from(inner, ')', 0)->0;
                    DirectiveSpec::Func(
                        name,
                        trim_filter(split_from(trim_spec(inner.subrange(0, close)), ',', 0)),
                        code_before_comment(trim_spec(inner.subrange(close + 1, inner.len() as int))),
                    )
                } else {
                    DirectiveSpec::Simple(name, code_before_comment(after))
                }
            }
        }
    } else {
        DirectiveSpec::Keep
    }
}

/// After the first `n` lines: (kept lines, function macros, value macros).
pub open spec fn define_state(ls: Seq<Seq<char>>, n: int) -> (
    Seq<Seq<char>>,
    Seq<(Seq<char>, Seq<Seq<char>>, Seq<char>)>,
    Seq<(Seq<char>, Seq<char>)>,
)
    decreases n,
{
    if n <= 0 || n > ls.len() {
        (Seq::empty(), Seq::empty(), Seq::empty())
    } else {
        let (k, f, v) = define_state(ls, n - 1);
        match classify_spec(ls[n - 1]) {
            DirectiveSpec::Skip => (k, f, v),
            DirectiveSpec::Keep => (k.push(ls[n - 1]), f, v),
            DirectiveSpec::Func(name, params, body) => (k, f.push((name, params, body)), v),
            DirectiveSpec::Simple(name, value) => (k, f, v.push((name, value))),
        }
    }
}

/// Function macros expanded in declaration order.
pub open spec fn apply_funcs(
    text: Seq<char>,
    fs: Seq<(Seq<char>, Seq<Seq<char>>, Seq<char>)>,
    m: int,
) -> Seq<char>
    decreases m,
{
    if m <= 0 || m > fs.len() {
        text
    } else {
        expand_macro_from(apply_funcs(text, fs, m - 1), fs[m - 1].0, fs[m - 1].1, fs[m - 1].2, 0)
    }
}

/// Value macros substituted (whole words) in declaration order.
pub open spec fn apply_values(text: Seq<char>, vs: Seq<(Seq<char>, Seq<char>)>, m: int) -> Seq<
    char,
>
    decreases m,
{
    if m <= 0 || m > vs.len() {
        text
    } else {
        replace_word_spec(apply_values(text, vs, m - 1), vs[m - 1].0, vs[m - 1].1)
    }
}

/// Preprocessing of a GLSL source: directives are removed, the remaining
/// lines re-joined with `\n`, then function macros and value macros are
/// expanded.
pub open spec fn expand_defines_spec(input: Seq<char>) -> Seq<char> {
    let ls = lines_spec(input);
    let (k, f, v) = define_state(ls, ls.len() as int);
    apply_values(apply_funcs(join_spec(k, "\n"@), f, f.len() as int), v, v.len() as int)
}

/// Executable line classification.
pub enum Directive {
    Skip,
    Keep,
    Func(Vec<char>, Vec<Vec<char>>, Vec<char>),
    Simple(Vec<char>, Vec<char>),
}

pub open spec fn seqs_view(v: Seq<Vec<char>>) -> Seq<Seq<char>> {
    v.map_values(|p: Vec<char>| p@)
}

pub open spec fn directive_view(d: Directive) -> DirectiveSpec {
    match d {
        Directive::Skip => DirectiveSpec::Skip,
        Directive::Keep => DirectiveSpec::Keep,
        Directive::Func(n, p, b) => DirectiveSpec::Func(n@, seqs_view(p@), b@),
        Directive::Simple(n, v) => DirectiveSpec::Simple(n@, v@),
    }
}

fn name_end(s: &[char]) -> (r: usize)
    ensures
        r == name_end_from(s@, 0),
        r <= s@.len(),
{
    let mut k: usize = 0;
    while k < s.len()
        invariant
            k <= s@.len(),
            name_end_from(s@, 0) == name_end_from(s@, k as int),
        decreases s@.len() - k,
    {
        if !(is_alphanumeric(s[k]) || s[k] == '_') {
            return k;
        }
        k = k + 1;
    }
    k
}

proof fn lemma_trim_filter_nonempty(parts: Seq<Seq<char>>)
    ensures
        params_nonempty(trim_filter(parts)),
    decreases parts.len(),
{
    if parts.len() > 0 {
        lemma_trim_filter_nonempty(parts.drop_last());
    }
}

fn trim_filter_exec(parts: &Vec<Vec<char>>) -> (r: Vec<Vec<char>>)
    ensures
        seqs_view(r@) == trim_filter(seqs_view(parts@)),
{
    let mut out: Vec<Vec<char>> = Vec::new();
    let mut i: usize = 0;
    while i < parts.len()
        invariant
            i <= parts@.len(),
            seqs_view(out@) == trim_filter(seqs_view(parts@.subrange(0, i as int))),
        decreases parts@.len() - i,
    {
        let ghost prev = out@;
        assert(seqs_view(parts@.subrange(0, i + 1)).drop_last() =~= seqs_view(
            parts@.subrange(0, i as int),
        ));
        assert(seqs_view(parts@.subrange(0, i + 1)).last() == parts@[i as int]@);
        let t = trim(&parts[i]);
        if t.len() > 0 {
            out.push(t);
            assert(seqs_view(out@) =~= seqs_view(prev).push(t@));
        }
        i = i + 1;
    }
    assert(parts@.subrange(0, parts@.len() as int) =~= parts@);
    out
}

fn code_before_comment_exec(raw: &[char]) -> (r: Vec<char>)
    ensures
        r@ == code_before_comment(raw@),
{
    match split_once(raw, &chars_of("//")) {
        Some((code, _rest)) => trim(&code),
        None => slice_vec(raw, 0, raw.len()),
    }
}

/// Classifies one GLSL source line for [`expand_defines`].
pub fn classify_line(line: &[char]) -> (r: Directive)
    ensures
        directive_view(r) == classify_spec(line@),
{
    let t = trim_start(line);
    if starts_with(&t, &chars_of("#ifdef")) || starts_with(&t, &chars_of("#endif")) || starts_with(
        &t,
        &chars_of("precision "),
    ) {
        return Directive::Skip;
    }
    if !starts_with(&t, &chars_of("#define")) {
        return Directive::Keep;
    }
    let define_kw = chars_of("#define");
    proof {
        reveal_strlit("#define");
    }
    let stripped = trim_start_matches(&t, &define_kw);
    let rest = trim(&stripped);
    if rest.len() == 0 {
        return Directive::Skip;
    }
    let ne: usize = name_end(&rest);
    let name_raw = slice_vec(&rest, 0, ne);
    let name = trim(&name_raw);
    if name.len() == 0 {
        return Directive::Skip;
    }
    let tail = slice_vec(&rest, ne, rest.len());
    let after = trim_start(&tail);
    let open_paren = chars_of("(");
    proof {
        reveal_strlit("(");
    }
    if starts_with(&after, &open_paren) {
        let inner = slice_vec(&after, 1, after.len());
        match find_char(&inner, ')', 0) {
            Some(close) => {
                proof {
                    lemma_find_char_from_bounds(inner@, ')', 0);
                }
                let list = slice_vec(&inner, 0, close);
                let list_t = trim(&list);
                let pieces = split_char(&list_t, ',');
                let params = trim_filter_exec(&pieces);
                let body_raw = slice_vec(&inner, close + 1, inner.len());
                let body_t = trim(&body_raw);
                let body = code_before_comment_exec(&body_t);
                return Directive::Func(name, params, body);
            },
            None => {},
        }
    }
    let value = code_before_comment_exec(&after);
    Directive::Simple(name, value)
}

pub open spec fn funcs_view(f: Seq<(Vec<char>, Vec<Vec<char>>, Vec<char>)>) -> Seq<
    (Seq<char>, Seq<Seq<char>>, Seq<char>),
> {
    f.map_values(|e: (Vec<char>, Vec<Vec<char>>, Vec<char>)| (e.0@, seqs_view(e.1@), e.2@))
}

proof fn lemma_define_state_wf(ls: Seq<Seq<char>>, n: int)
    ensures
        forall|k: int| 0 <= k < define_state(ls, n).1.len() ==> {
            &&& (#[trigger] define_state(ls, n).1[k]).0.len() > 0
            &&& params_nonempty(define_state(ls, n).1[k].1)
        },
        forall|k: int| 0 <= k < define_state(ls, n).2.len() ==> (
        #[trigger] define_state(ls, n).2[k]).0.len() > 0,
    decreases n,
{
    if 0 < n <= ls.len() {
        lemma_define_state_wf(ls, n - 1);
        let line = ls[n - 1];
        let t = trim_start_spec(line);
        let rest = trim_spec(trim_start_matches_from(t, "#define"@, 0));
        let ne: int = name_end_from(rest, 0);
        let after = trim_start_spec(rest.subrange(ne, rest.len() as int));
        let inner = after.subrange(1, after.len() as int);
        match find_char_from(inner, ')', 0) {
            Some(close) => {
                lemma_trim_filter_nonempty(split_from(trim_spec(inner.subrange(0, close)), ',', 0));
            },
            None => {},
        }
        let (k0, f0, v0) = define_state(ls, n - 1);
        let (k1, f1, v1) = define_state(ls, n);
        assert forall|j: int| 0 <= j < f1.len() implies {
            &&& (#[trigger] f1[j]).0.len() > 0
            &&& params_nonempty(f1[j].1)
        } by {
            if j < f0.len() {
                assert(f1[j] == f0[j]);
            }
        }
        assert forall|j: int| 0 <= j < v1.len() implies (#[trigger] v1[j]).0.len() > 0 by {
            if j < v0.len() {
                assert(v1[j] == v0[j]);
            }
        }
    }
}

/// Expands `#define` macros of a GLSL source (see [`expand_defines_spec`]).
pub fn expand_defines(input: &[char]) -> (r: Vec<char>)
    ensures
        r@ == expand_defines_spec(input@),
{
    let ls = lines(input);
    let ghost lsv = seqs_view(ls@);
    let mut kept: Vec<Vec<char>> = Vec::new();
    let mut funcs: Vec<(Vec<char>, Vec<Vec<char>>, Vec<char>)> = Vec::new();
    let mut values: Vec<(Vec<char>, Vec<char>)> = Vec::new();
    let n: usize = ls.len();
    let mut i: usize = 0;
    while i < n
        invariant
            n == ls@.len(),
            lsv == seqs_view(ls@),
            lsv == lines_spec(input@),
            i <= n,
            define_state(lsv, i as int) == (seqs_view(kept@), funcs_view(funcs@), rules_view(
                values@,
            )),
        decreases n - i,
    {
        let line = &ls[i];
        assert(line@ == lsv[i as int]);
        let ghost k0 = kept@;
        let ghost f0 = funcs@;
        let ghost v0 = values@;
        match classify_line(line) {
            Directive::Skip => {},
            Directive::Keep => {
                let copy = slice_vec(line, 0, line.len());
                assert(copy@ =~= line@);
                kept.push(copy);
                assert(seqs_view(kept@) =~= seqs_view(k0).push(line@));
            },
            Directive::Func(name, params, body) => {
                let ghost e = (name@, seqs_view(params@), body@);
                funcs.push((name, params, body));
                assert(funcs_view(funcs@) =~= funcs_view(f0).push(e));
            },
            Directive::Simple(name, value) => {
                let ghost e = (name@, value@);
                values.push((name, value));
                assert(rules_view(values@) =~= rules_view(v0).push(e));
            },
        }
        i = i + 1;
    }
    proof {
        lemma_define_state_wf(lsv, n as int);
    }
    let ghost fv = funcs_view(funcs@);
    let ghost vv = rules_view(values@);
    let mut result = join(&kept, &chars_of("\n"));
    let ghost joined = result@;
    let mut m: usize = 0;
    while m < funcs.len()
        invariant
            m <= funcs@.len(),
            fv == funcs_view(funcs@),
            fv == define_state(lsv, lsv.len() as int).1,
            forall|k: int| 0 <= k < fv.len() ==> {
                &&& (#[trigger] fv[k]).0.len() > 0
                &&& params_nonempty(fv[k].1)
            },
            result@ == apply_funcs(joined, fv, m as int),
        decreases funcs@.len() - m,
    {
        let f = &funcs[m];
        assert(fv[m as int] == (f.0@, seqs_view(f.1@), f.2@));
        result = expand_func_macro(&result, &f.0, &f.1, &f.2);
        m = m + 1;
    }
    let ghost after_funcs = result@;
    let mut m: usize = 0;
    while m < values.len()
        invariant
            m <= values@.len(),
            vv == rules_view(values@),
            vv == define_state(lsv, lsv.len() as int).2,
            forall|k: int| 0 <= k < vv.len() ==> (#[trigger] vv[k]).0.len() > 0,
            result@ == apply_values(after_funcs, vv, m as int),
        decreases values@.len() - m,
    {
        let v = &values[m];
        assert(vv[m as int] == (v.0@, v.1@));
        result = replace_word(&result, &v.0, &v.1);
        m = m + 1;
    }
    result
}

} // verus!
