//! Character-sequence primitives: conversions between `str`/`String` and
//! `Vec<char>`, Unicode whitespace, trimming, line splitting, substring search
//! and replacement. Text is handled as a sequence of Unicode scalar values.

use vstd::prelude::*;

verus! {

/// Copies the characters of `s` into a vector.
pub fn chars_of(s: &str) -> (r: Vec<char>)
    ensures
        r@ == s@,
{
    let n: usize = s.unicode_len();
    let mut v: Vec<char> = Vec::new();
    let mut i: usize = 0;
    while i < n
        invariant
            n == s@.len(),
            i <= n,
            v@ == s@.subrange(0, i as int),
        decreases n - i,
    {
        v.push(s.get_char(i));
        i = i + 1;
    }
    assert(v@ =~= s@);
    v
}

/// Builds a `String` holding exactly the characters of `v`
/// (std's `FromIterator<&char>` for `String`).
#[verifier::external_body]
pub(crate) fn string_of(v: &[char]) -> (r: String)
    ensures
        r@ == v@,
{
    v.iter().collect()
}

/// `char::is_whitespace`: the Unicode `White_Space` property.
pub open spec fn is_ws(c: char) -> bool {
    let u: u32 = c as u32;
    ||| 0x09 <= u <= 0x0d
    ||| u == 0x20
    ||| u == 0x85
    ||| u == 0xa0
    ||| u == 0x1680
    ||| 0x2000 <= u <= 0x200a
    ||| u == 0x2028
    ||| u == 0x2029
    ||| u == 0x202f
    ||| u == 0x205f
    ||| u == 0x3000
}

pub fn is_whitespace(c: char) -> (r: bool)
    ensures
        r == is_ws(c),
{
    let u: u32 = c as u32;
    (0x09 <= u && u <= 0x0d) || u == 0x20 || u == 0x85 || u == 0xa0 || u == 0x1680 || (0x2000
        <= u && u <= 0x200a) || u == 0x2028 || u == 0x2029 || u == 0x202f || u == 0x205f || u
        == 0x3000
}

/// Number of leading whitespace characters of `s` from position `i` on.
pub open spec fn ws_prefix_end(s: Seq<char>, i: int) -> int
    decreases s.len() - i,
{
    if i >= s.len() || !is_ws(s[i]) {
        i
    } else {
        ws_prefix_end(s, i + 1)
    }
}

/// Start of the trailing whitespace run of `s.subrange(0, j)`.
pub open spec fn ws_suffix_start(s: Seq<char>, j: int) -> int
    decreases j,
{
    if j <= 0 || !is_ws(s[j - 1]) {
        j
    } else {
        ws_suffix_start(s, j - 1)
    }
}

/// `str::trim_start`.
pub open spec fn trim_start_spec(s: Seq<char>) -> Seq<char> {
    s.subrange(ws_prefix_end(s, 0), s.len() as int)
}

/// `str::trim_end`.
pub open spec fn trim_end_spec(s: Seq<char>) -> Seq<char> {
    s.subrange(0, ws_suffix_start(s, s.len() as int))
}

/// `str::trim`.
pub open spec fn trim_spec(s: Seq<char>) -> Seq<char> {
    trim_end_spec(trim_start_spec(s))
}

proof fn lemma_ws_prefix_end_bounds(s: Seq<char>, i: int)
    requires
        0 <= i <= s.len(),
    ensures
        i <= ws_prefix_end(s, i) <= s.len(),
        forall|k: int| i <= k < ws_prefix_end(s, i) ==> is_ws(#[trigger] s[k]),
    decreases s.len() - i,
{
    if i < s.len() && is_ws(s[i]) {
        lemma_ws_prefix_end_bounds(s, i + 1);
    }
}

/// Index of the first non-whitespace character at or after `i`.
pub fn skip_ws(s: &[char], i: usize) -> (r: usize)
    requires
        i <= s@.len(),
    ensures
        r == ws_prefix_end(s@, i as int),
        i <= r <= s@.len(),
    decreases s@.len() - i,
{
    if i < s.len() && is_whitespace(s[i]) {
        skip_ws(s, i + 1)
    } else {
        i
    }
}

/// Start of the whitespace run that ends at `j`.
pub fn skip_ws_back(s: &[char], j: usize) -> (r: usize)
    requires
        j <= s@.len(),
    ensures
        r == ws_suffix_start(s@, j as int),
        r <= j,
    decreases j,
{
    if j > 0 && is_whitespace(s[j - 1]) {
        skip_ws_back(s, j - 1)
    } else {
        j
    }
}

/// `s[from..to]` as a vector.
pub fn slice_vec(s: &[char], from: usize, to: usize) -> (r: Vec<char>)
    requires
        from <= to <= s@.len(),
    ensures
        r@ == s@.subrange(from as int, to as int),
{
    let mut v: Vec<char> = Vec::new();
    let mut i: usize = from;
    while i < to
        invariant
            from <= i <= to,
            to <= s@.len(),
            v@ == s@.subrange(from as int, i as int),
        decreases to - i,
    {
        v.push(s[i]);
        i = i + 1;
        assert(v@ =~= s@.subrange(from as int, i as int));
    }
    v
}

/// Appends `t` to `v`.
pub fn push_all(v: &mut Vec<char>, t: &[char])
    ensures
        final(v)@ == old(v)@ + t@,
{
    let mut i: usize = 0;
    while i < t.len()
        invariant
            i <= t@.len(),
            v@ == old(v)@ + t@.subrange(0, i as int),
        decreases t@.len() - i,
    {
        v.push(t[i]);
        i = i + 1;
        assert(v@ =~= old(v)@ + t@.subrange(0, i as int));
    }
    assert(t@.subrange(0, t@.len() as int) =~= t@);
}

/// `str::trim` on a character slice.
pub fn trim(s: &[char]) -> (r: Vec<char>)
    ensures
        r@ == trim_spec(s@),
{
    let a: usize = skip_ws(s, 0);
    let t = slice_vec(s, a, s.len());
    let b: usize = skip_ws_back(&t, t.len());
    slice_vec(&t, 0, b)
}

/// `str::trim_start` on a character slice.
pub fn trim_start(s: &[char]) -> (r: Vec<char>)
    ensures
        r@ == trim_start_spec(s@),
{
    let a: usize = skip_ws(s, 0);
    slice_vec(s, a, s.len())
}

/// Whether `p` occurs in `s` at position `i`.
pub open spec fn matches_at(s: Seq<char>, p: Seq<char>, i: int) -> bool {
    &&& 0 <= i
    &&& i + p.len() <= s.len()
    &&& s.subrange(i, i + p.len()) == p
}

/// First position `j >= i` where `p` occurs in `s` (`str::find` on `s[i..]`,
/// shifted back to absolute positions).
pub open spec fn find_from(s: Seq<char>, p: Seq<char>, i: int) -> Option<int>
    decreases s.len() + 1 - i,
{
    if i < 0 || i + p.len() > s.len() {
        None
    } else if matches_at(s, p, i) {
        Some(i)
    } else {
        find_from(s, p, i + 1)
    }
}

pub proof fn lemma_find_from_bounds(s: Seq<char>, p: Seq<char>, i: int)
    requires
        0 <= i,
    ensures
        find_from(s, p, i) matches Some(j) ==> i <= j && j + p.len() <= s.len() && matches_at(
            s,
            p,
            j,
        ),
    decreases s.len() + 1 - i,
{
    if i + p.len() <= s.len() && !matches_at(s, p, i) {
        lemma_find_from_bounds(s, p, i + 1);
    }
}

/// Whether `p` occurs at `i` (exec).
pub fn match_at(s: &[char], p: &[char], i: usize) -> (r: bool)
    ensures
        r == matches_at(s@, p@, i as int),
{
    if i > s.len() || p.len() > s.len() - i {
        return false;
    }
    let n: usize = s.len();
    let mut k: usize = 0;
    while k < p.len()
        invariant
            n == s@.len(),
            i + p@.len() <= s@.len(),
            k <= p@.len(),
            forall|m: int| 0 <= m < k ==> s@[i + m] == p@[m],
        decreases p@.len() - k,
    {
        if s[i + k] != p[k] {
            assert(s@.subrange(i as int, i + p@.len())[k as int] != p@[k as int]);
            return false;
        }
        k = k + 1;
    }
    assert(s@.subrange(i as int, i + p@.len()) =~= p@);
    true
}

/// First occurrence of `p` in `s` at or after `i`.
pub fn find(s: &[char], p: &[char], i: usize) -> (r: Option<usize>)
    ensures
        match r {
            Some(j) => find_from(s@, p@, i as int) == Some(j as int),
            None => find_from(s@, p@, i as int) is None,
        },
{
    let mut j: usize = i;
    while j <= s.len() && p.len() <= s.len() - j
        invariant
            i <= j,
            find_from(s@, p@, i as int) == find_from(s@, p@, j as int),
        decreases s@.len() + 1 - j,
    {
        if match_at(s, p, j) {
            return Some(j);
        }
        if j == s.len() {
            assert(s@.subrange(j as int, j as int) =~= p@);
            return None;
        }
        j = j + 1;
    }
    None
}

/// `str::replace(from, to)` with a non-empty pattern: every leftmost
/// non-overlapping occurrence of `from` at or after `i` is replaced by `to`.
pub open spec fn replace_all_spec(s: Seq<char>, from: Seq<char>, to: Seq<char>, i: int) -> Seq<
    char,
>
    decreases s.len() - i,
{
    if i < 0 || i >= s.len() || from.len() == 0 {
        if 0 <= i <= s.len() { s.subrange(i, s.len() as int) } else { Seq::empty() }
    } else {
        match find_from(s, from, i) {
            None => s.subrange(i, s.len() as int),
            Some(j) => if i <= j && j + from.len() <= s.len() {
                s.subrange(i, j) + to + replace_all_spec(s, from, to, j + from.len())
            } else {
                Seq::empty()
            },
        }
    }
}

/// `str::replace` for a non-empty pattern.
pub fn replace_all(s: &[char], from: &[char], to: &[char]) -> (r: Vec<char>)
    requires
        from@.len() > 0,
    ensures
        r@ == replace_all_spec(s@, from@, to@, 0),
{
    let mut out: Vec<char> = Vec::new();
    let mut i: usize = 0;
    while i < s.len()
        invariant
            i <= s@.len(),
            from@.len() > 0,
            replace_all_spec(s@, from@, to@, 0) == out@ + replace_all_spec(s@, from@, to@, i as int),
        decreases s@.len() - i,
    {
        match find(s, from, i) {
            None => {
                let rest = slice_vec(s, i, s.len());
                push_all(&mut out, &rest);
                return out;
            },
            Some(j) => {
                proof {
                    lemma_find_from_bounds(s@, from@, i as int);
                }
                let mid = slice_vec(s, i, j);
                push_all(&mut out, &mid);
                push_all(&mut out, to);
                i = j + from.len();
            },
        }
    }
    assert(replace_all_spec(s@, from@, to@, i as int) =~= Seq::empty());
    assert(out@ =~= out@ + Seq::<char>::empty());
    out
}


/// A line of `str::lines`: a trailing `'\r'` before the `'\n'` is dropped.
pub open spec fn strip_cr(line: Seq<char>) -> Seq<char> {
    if line.len() > 0 && line[line.len() - 1] == '\r' {
        line.drop_last()
    } else {
        line
    }
}

/// `str::lines` on `s[i..]`: split at `'\n'` (and `"\r\n"`); a final line
/// ending is optional and produces no empty last line.
pub open spec fn lines_from(s: Seq<char>, i: int) -> Seq<Seq<char>>
    decreases s.len() - i,
{
    if i < 0 || i >= s.len() {
        Seq::empty()
    } else {
        match find_from(s, seq!['\n'], i) {
            None => seq![s.subrange(i, s.len() as int)],
            Some(j) => if i <= j < s.len() {
                seq![strip_cr(s.subrange(i, j))] + lines_from(s, j + 1)
            } else {
                Seq::empty()
            },
        }
    }
}

/// `str::lines`.
pub open spec fn lines_spec(s: Seq<char>) -> Seq<Seq<char>> {
    lines_from(s, 0)
}

/// `[..].join(sep)`.
pub open spec fn join_spec(parts: Seq<Seq<char>>, sep: Seq<char>) -> Seq<char>
    decreases parts.len(),
{
    if parts.len() == 0 {
        Seq::empty()
    } else if parts.len() == 1 {
        parts[0]
    } else {
        join_spec(parts.drop_last(), sep) + sep + parts.last()
    }
}

/// `str::lines`.
pub fn lines(s: &[char]) -> (r: Vec<Vec<char>>)
    ensures
        r@.map_values(|l: Vec<char>| l@) == lines_spec(s@),
{
    let mut out: Vec<Vec<char>> = Vec::new();
    let mut i: usize = 0;
    let nl = ['\n'];
    assert(nl@ =~= seq!['\n']);
    while i < s.len()
        invariant
            i <= s@.len(),
            nl@ == seq!['\n'],
            lines_spec(s@) == out@.map_values(|l: Vec<char>| l@) + lines_from(s@, i as int),
        decreases s@.len() - i,
    {
        match find(s, &nl, i) {
            None => {
                let rest = slice_vec(s, i, s.len());
                let ghost before = out@;
                out.push(rest);
                assert(out@.map_values(|l: Vec<char>| l@) =~= before.map_values(
                    |l: Vec<char>| l@,
                ).push(rest@));
                assert(lines_from(s@, s@.len() as int) =~= Seq::empty());
                i = s.len();
            },
            Some(j) => {
                proof {
                    lemma_find_from_bounds(s@, nl@, i as int);
                }
                let mut line = slice_vec(s, i, j);
                if line.len() > 0 && line[line.len() - 1] == '\r' {
                    line.pop();
                }
                assert(line@ =~= strip_cr(s@.subrange(i as int, j as int)));
                let ghost before = out@;
                out.push(line);
                assert(out@.map_values(|l: Vec<char>| l@) =~= before.map_values(
                    |l: Vec<char>| l@,
                ).push(line@));
                i = j + 1;
            },
        }
    }
    assert(lines_from(s@, i as int) =~= Seq::empty());
    assert(out@.map_values(|l: Vec<char>| l@) + Seq::<Seq<char>>::empty() =~= out@.map_values(
        |l: Vec<char>| l@,
    ));
    out
}

/// `[..].join(sep)`.
pub fn join(parts: &Vec<Vec<char>>, sep: &[char]) -> (r: Vec<char>)
    ensures
        r@ == join_spec(parts@.map_values(|l: Vec<char>| l@), sep@),
{
    let mut out: Vec<char> = Vec::new();
    let mut k: usize = 0;
    while k < parts.len()
        invariant
            k <= parts@.len(),
            out@ == join_spec(parts@.subrange(0, k as int).map_values(|l: Vec<char>| l@), sep@),
        decreases parts@.len() - k,
    {
        let ghost prev = parts@.subrange(0, k as int).map_values(|l: Vec<char>| l@);
        if k > 0 {
            push_all(&mut out, sep);
        }
        push_all(&mut out, &parts[k]);
        k = k + 1;
        let ghost cur = parts@.subrange(0, k as int).map_values(|l: Vec<char>| l@);
        assert(cur.drop_last() =~= prev);
        assert(cur.last() == parts@[k - 1]@);
    }
    assert(parts@.subrange(0, parts@.len() as int) =~= parts@);
    out
}


/// `str::starts_with`.
pub open spec fn starts_with_spec(s: Seq<char>, p: Seq<char>) -> bool {
    matches_at(s, p, 0)
}

/// `str::ends_with`.
pub open spec fn ends_with_spec(s: Seq<char>, p: Seq<char>) -> bool {
    matches_at(s, p, s.len() - p.len())
}

pub fn starts_with(s: &[char], p: &[char]) -> (r: bool)
    ensures
        r == starts_with_spec(s@, p@),
{
    match_at(s, p, 0)
}

pub fn ends_with(s: &[char], p: &[char]) -> (r: bool)
    ensures
        r == ends_with_spec(s@, p@),
{
    if p.len() > s.len() {
        false
    } else {
        match_at(s, p, s.len() - p.len())
    }
}

/// `str::split_once`.
pub open spec fn split_once_spec(s: Seq<char>, p: Seq<char>) -> Option<(Seq<char>, Seq<char>)> {
    match find_from(s, p, 0) {
        Some(j) => Some((s.subrange(0, j), s.subrange(j + p.len(), s.len() as int))),
        None => None,
    }
}

pub fn split_once(s: &[char], p: &[char]) -> (r: Option<(Vec<char>, Vec<char>)>)
    ensures
        match r {
            Some((a, b)) => split_once_spec(s@, p@) == Some((a@, b@)),
            None => split_once_spec(s@, p@) is None,
        },
{
    match find(s, p, 0) {
        Some(j) => {
            proof {
                lemma_find_from_bounds(s@, p@, 0);
            }
            let s_len: usize = s.len();
            let tail_start: usize = j + p.len();
            Some((slice_vec(s, 0, j), slice_vec(s, tail_start, s_len)))
        },
        None => None,
    }
}

/// Index of the first occurrence of `c` at or after `i`, if any.
pub open spec fn find_char_from(s: Seq<char>, c: char, i: int) -> Option<int>
    decreases s.len() - i,
{
    if i < 0 || i >= s.len() {
        None
    } else if s[i] == c {
        Some(i)
    } else {
        find_char_from(s, c, i + 1)
    }
}

pub proof fn lemma_find_char_from_bounds(s: Seq<char>, c: char, i: int)
    requires
        0 <= i,
    ensures
        find_char_from(s, c, i) matches Some(j) ==> i <= j < s.len() && s[j] == c,
        find_char_from(s, c, i) is None ==> forall|k: int| i <= k < s.len() ==> s[k] != c,
    decreases s.len() - i,
{
    if i < s.len() && s[i] != c {
        lemma_find_char_from_bounds(s, c, i + 1);
    }
}

pub fn find_char(s: &[char], c: char, i: usize) -> (r: Option<usize>)
    ensures
        match r {
            Some(j) => find_char_from(s@, c, i as int) == Some(j as int),
            None => find_char_from(s@, c, i as int) is None,
        },
{
    let mut j: usize = i;
    while j < s.len()
        invariant
            i <= j,
            find_char_from(s@, c, i as int) == find_char_from(s@, c, j as int),
        decreases s@.len() - j,
    {
        if s[j] == c {
            return Some(j);
        }
        j = j + 1;
    }
    None
}

/// `str::split(c)` on `s[i..]`: always at least one (possibly empty) piece.
pub open spec fn split_from(s: Seq<char>, c: char, i: int) -> Seq<Seq<char>>
    decreases s.len() + 1 - i,
{
    if i < 0 || i > s.len() {
        Seq::empty()
    } else {
        match find_char_from(s, c, i) {
            None => seq![s.subrange(i, s.len() as int)],
            Some(j) => if i <= j < s.len() {
                seq![s.subrange(i, j)] + split_from(s, c, j + 1)
            } else {
                Seq::empty()
            },
        }
    }
}

/// `str::split(c)` for a single-character separator.
pub fn split_char(s: &[char], c: char) -> (r: Vec<Vec<char>>)
    ensures
        r@.map_values(|l: Vec<char>| l@) == split_from(s@, c, 0),
{
    let mut out: Vec<Vec<char>> = Vec::new();
    let mut i: usize = 0;
    let n: usize = s.len();
    loop
        invariant
            n == s@.len(),
            i <= s@.len(),
            split_from(s@, c, 0) == out@.map_values(|l: Vec<char>| l@) + split_from(s@, c, i as int),
        decreases s@.len() + 1 - i,
    {
        let ghost before = out@;
        match find_char(s, c, i) {
            None => {
                let rest = slice_vec(s, i, s.len());
                out.push(rest);
                assert(out@.map_values(|l: Vec<char>| l@) =~= before.map_values(
                    |l: Vec<char>| l@,
                ).push(rest@));
                return out;
            },
            Some(j) => {
                proof {
                    lemma_find_char_from_bounds(s@, c, i as int);
                }
                let piece = slice_vec(s, i, j);
                out.push(piece);
                assert(out@.map_values(|l: Vec<char>| l@) =~= before.map_values(
                    |l: Vec<char>| l@,
                ).push(piece@));
                i = j + 1;
            },
        }
    }
}

/// End of the non-whitespace run that starts at `i`.
pub open spec fn token_end(s: Seq<char>, i: int) -> int
    decreases s.len() - i,
{
    if i < 0 || i >= s.len() || is_ws(s[i]) {
        i
    } else {
        token_end(s, i + 1)
    }
}

proof fn lemma_token_end_bounds(s: Seq<char>, i: int)
    requires
        0 <= i <= s.len(),
    ensures
        i <= token_end(s, i) <= s.len(),
    decreases s.len() - i,
{
    if i < s.len() && !is_ws(s[i]) {
        lemma_token_end_bounds(s, i + 1);
    }
}

/// `str::split_whitespace` on `s[i..]`.
pub open spec fn ws_tokens_from(s: Seq<char>, i: int) -> Seq<Seq<char>>
    decreases s.len() - i,
{
    if i < 0 || i >= s.len() {
        Seq::empty()
    } else {
        let a: int = ws_prefix_end(s, i);
        if a >= s.len() || a < i {
            Seq::empty()
        } else {
            let b: int = token_end(s, a);
            if b <= a || b > s.len() {
                Seq::empty()
            } else {
                seq![s.subrange(a, b)] + ws_tokens_from(s, b)
            }
        }
    }
}

/// `str::split_whitespace`.
pub open spec fn ws_tokens(s: Seq<char>) -> Seq<Seq<char>> {
    ws_tokens_from(s, 0)
}

fn token_end_exec(s: &[char], i: usize) -> (r: usize)
    requires
        i <= s@.len(),
    ensures
        r == token_end(s@, i as int),
        i <= r <= s@.len(),
    decreases s@.len() - i,
{
    if i < s.len() && !is_whitespace(s[i]) {
        token_end_exec(s, i + 1)
    } else {
        i
    }
}

/// `str::split_whitespace`.
pub fn split_whitespace(s: &[char]) -> (r: Vec<Vec<char>>)
    ensures
        r@.map_values(|l: Vec<char>| l@) == ws_tokens(s@),
{
    let mut out: Vec<Vec<char>> = Vec::new();
    let mut i: usize = 0;
    while i < s.len()
        invariant
            i <= s@.len(),
            ws_tokens(s@) == out@.map_values(|l: Vec<char>| l@) + ws_tokens_from(s@, i as int),
        decreases s@.len() - i,
    {
        let a: usize = skip_ws(s, i);
        if a >= s.len() {
            assert(ws_tokens_from(s@, i as int) =~= Seq::empty());
            assert(out@.map_values(|l: Vec<char>| l@) + Seq::<Seq<char>>::empty() =~= out@.map_values(|l: Vec<char>| l@));
            return out;
        }
        proof {
            lemma_ws_prefix_end_bounds(s@, i as int);
            proof_ws_prefix_end_stop(s@, i as int);
        }
        let b: usize = token_end_exec(s, a);
        proof {
            lemma_token_end_bounds(s@, a + 1);
        }
        let ghost before = out@;
        let tok = slice_vec(s, a, b);
        out.push(tok);
        assert(out@.map_values(|l: Vec<char>| l@) =~= before.map_values(|l: Vec<char>| l@).push(
            tok@,
        ));
        i = b;
    }
    assert(ws_tokens_from(s@, i as int) =~= Seq::empty());
    assert(out@.map_values(|l: Vec<char>| l@) + Seq::<Seq<char>>::empty() =~= out@.map_values(
        |l: Vec<char>| l@,
    ));
    out
}

proof fn proof_ws_prefix_end_stop(s: Seq<char>, i: int)
    requires
        0 <= i <= s.len(),
    ensures
        ws_prefix_end(s, i) < s.len() ==> !is_ws(s[ws_prefix_end(s, i)]),
    decreases s.len() - i,
{
    if i < s.len() && is_ws(s[i]) {
        proof_ws_prefix_end_stop(s, i + 1);
    }
}

/// `str::trim_start_matches(p)` for a non-empty pattern, from position `i`.
pub open spec fn trim_start_matches_from(s: Seq<char>, p: Seq<char>, i: int) -> Seq<char>
    decreases s.len() - i,
{
    if i < 0 || i > s.len() {
        Seq::empty()
    } else if p.len() > 0 && matches_at(s, p, i) {
        trim_start_matches_from(s, p, i + p.len())
    } else {
        s.subrange(i, s.len() as int)
    }
}

pub fn trim_start_matches(s: &[char], p: &[char]) -> (r: Vec<char>)
    requires
        p@.len() > 0,
    ensures
        r@ == trim_start_matches_from(s@, p@, 0),
{
    let mut i: usize = 0;
    let n: usize = s.len();
    while match_at(s, p, i)
        invariant
            n == s@.len(),
            i <= s@.len(),
            p@.len() > 0,
            trim_start_matches_from(s@, p@, 0) == trim_start_matches_from(s@, p@, i as int),
        decreases s@.len() - i,
    {
        i = i + p.len();
    }
    slice_vec(s, i, s.len())
}

/// `str::trim_end_matches(c)` for a character.
pub open spec fn trim_end_char_to(s: Seq<char>, c: char, j: int) -> int
    decreases j,
{
    if j <= 0 || j > s.len() || s[j - 1] != c {
        j
    } else {
        trim_end_char_to(s, c, j - 1)
    }
}

pub fn trim_end_char(s: &[char], c: char) -> (r: Vec<char>)
    ensures
        r@ == s@.subrange(0, trim_end_char_to(s@, c, s@.len() as int)),
{
    let mut j: usize = s.len();
    while j > 0 && s[j - 1] == c
        invariant
            j <= s@.len(),
            trim_end_char_to(s@, c, s@.len() as int) == trim_end_char_to(s@, c, j as int),
        decreases j,
    {
        j = j - 1;
    }
    slice_vec(s, 0, j)
}

/// Number of occurrences of `c` in `s`.
pub open spec fn count_char(s: Seq<char>, c: char) -> int
    decreases s.len(),
{
    if s.len() == 0 {
        0
    } else {
        count_char(s.drop_last(), c) + if s.last() == c { 1int } else { 0int }
    }
}

pub fn count(s: &[char], c: char) -> (r: usize)
    ensures
        r == count_char(s@, c),
{
    let mut n: usize = 0;
    let mut i: usize = 0;
    while i < s.len()
        invariant
            i <= s@.len(),
            n == count_char(s@.subrange(0, i as int), c),
            n <= i,
        decreases s@.len() - i,
    {
        assert(s@.subrange(0, i + 1).drop_last() =~= s@.subrange(0, i as int));
        if s[i] == c {
            n = n + 1;
        }
        i = i + 1;
    }
    assert(s@.subrange(0, s@.len() as int) =~= s@);
    n
}

/// Whether `c` occurs in `s`.
pub fn contains_char(s: &[char], c: char) -> (r: bool)
    ensures
        r == s@.contains(c),
{
    let mut i: usize = 0;
    while i < s.len()
        invariant
            i <= s@.len(),
            forall|k: int| 0 <= k < i ==> s@[k] != c,
        decreases s@.len() - i,
    {
        if s[i] == c {
            return true;
        }
        i = i + 1;
    }
    false
}


/// Character-wise equality of two sequences.
pub fn eq_chars(a: &[char], b: &[char]) -> (r: bool)
    ensures
        r == (a@ == b@),
{
    if a.len() != b.len() {
        return false;
    }
    let mut i: usize = 0;
    while i < a.len()
        invariant
            a@.len() == b@.len(),
            i <= a@.len(),
            forall|k: int| 0 <= k < i ==> a@[k] == b@[k],
        decreases a@.len() - i,
    {
        if a[i] != b[i] {
            return false;
        }
        i = i + 1;
    }
    assert(a@ =~= b@);
    true
}

/// The full lowercase mapping of `c` (std's `char::to_lowercase`), which may
/// have more than one character.
pub uninterp spec fn char_lowercase(c: char) -> Seq<char>;

/// The full uppercase mapping of a string (std's `str::to_uppercase`).
pub uninterp spec fn str_uppercase(s: Seq<char>) -> Seq<char>;

/// Whether std's `char::is_alphanumeric` holds for `c` (Unicode `Alphabetic`
/// or `Numeric`).
pub uninterp spec fn char_alphanumeric(c: char) -> bool;

/// Lowercase form of `c`: the characters std's `char::to_lowercase` yields.
/// The mapping depends on `c` alone.
#[verifier::external_body]
pub(crate) fn lowercase_of(c: char) -> (r: Vec<char>)
    ensures
        r@ == char_lowercase(c),
{
    c.to_lowercase().collect()
}

/// Uppercase form of `s` as std's `str::to_uppercase` computes it; the
/// mapping depends on the characters of `s` alone.
#[verifier::external_body]
pub(crate) fn uppercase_of(s: &str) -> (r: String)
    ensures
        r@ == str_uppercase(s@),
{
    s.to_uppercase()
}

/// std's `char::is_alphanumeric`.
#[verifier::external_body]
pub(crate) fn is_alphanumeric(c: char) -> (r: bool)
    ensures
        r == char_alphanumeric(c),
{
    c.is_alphanumeric()
}


/// Total number of characters in a list of strings.
pub open spec fn total_len(ls: Seq<Seq<char>>) -> int
    decreases ls.len(),
{
    if ls.len() == 0 {
        0
    } else {
        ls[0].len() + total_len(ls.drop_first())
    }
}

pub proof fn lemma_total_len_nonneg(ls: Seq<Seq<char>>)
    ensures
        total_len(ls) >= 0,
    decreases ls.len(),
{
    if ls.len() > 0 {
        lemma_total_len_nonneg(ls.drop_first());
    }
}

/// The lines of `s[i..]` hold at most `s.len() - i` characters.
pub proof fn lemma_lines_total(s: Seq<char>, i: int)
    requires
        0 <= i <= s.len(),
    ensures
        total_len(lines_from(s, i)) <= s.len() - i,
    decreases s.len() - i,
{
    if i < s.len() {
        lemma_find_from_bounds(s, seq!['\n'], i);
        match find_from(s, seq!['\n'], i) {
            None => {
                let ls = lines_from(s, i);
                assert(ls =~= seq![s.subrange(i, s.len() as int)]);
                assert(ls[0].len() == s.len() - i);
                assert(ls.drop_first() =~= Seq::<Seq<char>>::empty());
                assert(total_len(ls.drop_first()) == 0);
            },
            Some(j) => {
                lemma_lines_total(s, j + 1);
                let l = seq![strip_cr(s.subrange(i, j))];
                let ls = lines_from(s, i);
                assert(ls =~= l + lines_from(s, j + 1));
                assert(ls[0] == strip_cr(s.subrange(i, j)));
                assert(ls[0].len() <= j - i);
                assert(ls.drop_first() =~= lines_from(s, j + 1));
            },
        }
    }
}

/// Splitting `total_len` at its first element of a suffix.
pub proof fn lemma_total_len_step(ls: Seq<Seq<char>>, k: int)
    requires
        0 <= k < ls.len(),
    ensures
        total_len(ls.subrange(k, ls.len() as int)) == ls[k].len() + total_len(
            ls.subrange(k + 1, ls.len() as int),
        ),
{
    assert(ls.subrange(k, ls.len() as int).drop_first() =~= ls.subrange(k + 1, ls.len() as int));
}

pub proof fn lemma_count_char_bounds(s: Seq<char>, c: char)
    ensures
        0 <= count_char(s, c) <= s.len(),
    decreases s.len(),
{
    if s.len() > 0 {
        lemma_count_char_bounds(s.drop_last(), c);
    }
}

/// Every token of `split_whitespace` is non-empty.
pub proof fn lemma_ws_tokens_nonempty(s: Seq<char>, i: int)
    requires
        0 <= i,
    ensures
        forall|k: int| 0 <= k < ws_tokens_from(s, i).len() ==> #[trigger] ws_tokens_from(s, i)[k].len()
            > 0,
    decreases s.len() - i,
{
    if i < s.len() {
        let a: int = ws_prefix_end(s, i);
        if a < s.len() && a >= i {
            let b: int = token_end(s, a);
            if b > a && b <= s.len() {
                lemma_ws_tokens_nonempty(s, b);
                let t = ws_tokens_from(s, i);
                assert forall|k: int| 0 <= k < t.len() implies #[trigger] t[k].len() > 0 by {
                    if k > 0 {
                        assert(t[k] == ws_tokens_from(s, b)[k - 1]);
                    }
                }
            }
        }
    }
}


/// Character-wise equality of two strings.
pub fn text_eq(a: &str, b: &str) -> (r: bool)
    ensures
        r == (a@ == b@),
{
    let n: usize = a.unicode_len();
    if n != b.unicode_len() {
        return false;
    }
    let mut i: usize = 0;
    while i < n
        invariant
            n == a@.len(),
            a@.len() == b@.len(),
            i <= n,
            forall|k: int| 0 <= k < i ==> a@[k] == b@[k],
        decreases n - i,
    {
        if a.get_char(i) != b.get_char(i) {
            return false;
        }
        i = i + 1;
    }
    assert(a@ =~= b@);
    true
}

/// A copy of `s` as an owned string.
pub fn owned(s: &str) -> (r: String)
    ensures
        r@ == s@,
{
    String::from_str(s)
}

/// `a` followed by `b`.
pub fn concat2(a: &str, b: &str) -> (r: String)
    ensures
        r@ == a@ + b@,
{
    let s = String::from_str(a);
    s.concat(b)
}

} // verus!
