use vstd::prelude::*;
use vstd::string::StringExecFns;
use crate::text::{str_chars, str_eq, string_from_chars};

verus! {

/// Display name for a QSL service code: `lotw`, `eqsl` and `qsl` get their
/// usual spelling, any other code is shown as it is.
pub fn service_label<'a>(s: &'a str) -> (r: &'a str)
    ensures
        s@ == "lotw"@ ==> r@ == "LoTW"@,
        s@ == "eqsl"@ ==> r@ == "eQSL"@,
        s@ == "qsl"@ ==> r@ == "QSL"@,
        s@ != "lotw"@ && s@ != "eqsl"@ && s@ != "qsl"@ ==> r@ == s@,
{
    proof {
        reveal_strlit("lotw");
        reveal_strlit("eqsl");
        reveal_strlit("qsl");
        assert("eqsl"@ != "lotw"@) by {
            assert("eqsl"@[0] != "lotw"@[0]);
        }
        assert("qsl"@ != "lotw"@) by {
            assert("qsl"@.len() != "lotw"@.len());
        }
        assert("qsl"@ != "eqsl"@) by {
            assert("qsl"@.len() != "eqsl"@.len());
        }
    }
    if str_eq(s, "lotw") {
        "LoTW"
    } else if str_eq(s, "eqsl") {
        "eQSL"
    } else if str_eq(s, "qsl") {
        "QSL"
    } else {
        s
    }
}

/// Unicode `White_Space` characters (what `char::is_whitespace` accepts).
pub open spec fn is_ws(c: char) -> bool {
    let u = c as int;
    (9 <= u <= 13) || u == 32 || u == 0x85 || u == 0xA0 || u == 0x1680 || (0x2000 <= u <= 0x200A)
        || u == 0x2028 || u == 0x2029 || u == 0x202F || u == 0x205F || u == 0x3000
}

pub fn is_whitespace(c: char) -> (r: bool)
    ensures
        r == is_ws(c),
{
    let u = c as u32;
    (9 <= u && u <= 13) || u == 32 || u == 0x85 || u == 0xA0 || u == 0x1680 || (0x2000 <= u && u <= 0x200A)
        || u == 0x2028 || u == 0x2029 || u == 0x202F || u == 0x205F || u == 0x3000
}

/// `cs` without its leading characters that satisfy `p`.
pub open spec fn trim_start_by(cs: Seq<char>, p: spec_fn(char) -> bool) -> Seq<char>
    decreases cs.len(),
{
    if cs.len() > 0 && p(cs[0]) {
        trim_start_by(cs.drop_first(), p)
    } else {
        cs
    }
}

/// `cs` without its trailing characters that satisfy `p`.
pub open spec fn trim_end_by(cs: Seq<char>, p: spec_fn(char) -> bool) -> Seq<char>
    decreases cs.len(),
{
    if cs.len() > 0 && p(cs.last()) {
        trim_end_by(cs.drop_last(), p)
    } else {
        cs
    }
}

/// `cs` without leading and trailing whitespace (`str::trim`).
pub open spec fn trim_ws(cs: Seq<char>) -> Seq<char> {
    trim_end_by(trim_start_by(cs, |c: char| is_ws(c)), |c: char| is_ws(c))
}

proof fn lemma_trim_start(cs: Seq<char>, p: spec_fn(char) -> bool, a: int)
    requires
        0 <= a <= cs.len(),
        forall|k: int| 0 <= k < a ==> p(#[trigger] cs[k]),
        a == cs.len() || !p(cs[a]),
    ensures
        trim_start_by(cs, p) == cs.skip(a),
    decreases a,
{
    if a > 0 {
        assert forall|k: int| 0 <= k < a - 1 implies p(#[trigger] cs.drop_first()[k]) by {
            assert(cs.drop_first()[k] == cs[k + 1]);
        }
        if a < cs.len() {
            assert(cs.drop_first()[a - 1] == cs[a]);
        }
        assert(p(cs[0]));
        lemma_trim_start(cs.drop_first(), p, a - 1);
        assert(cs.drop_first().skip(a - 1) =~= cs.skip(a));
    } else {
        assert(cs.skip(0) =~= cs);
    }
}

proof fn lemma_trim_end(cs: Seq<char>, p: spec_fn(char) -> bool, b: int)
    requires
        0 <= b <= cs.len(),
        forall|k: int| b <= k < cs.len() ==> p(#[trigger] cs[k]),
        b == 0 || !p(cs[b - 1]),
    ensures
        trim_end_by(cs, p) == cs.take(b),
    decreases cs.len() - b,
{
    if b < cs.len() {
        assert forall|k: int| b <= k < cs.len() - 1 implies p(#[trigger] cs.drop_last()[k]) by {
            assert(cs.drop_last()[k] == cs[k]);
        }
        if b > 0 {
            assert(cs.drop_last()[b - 1] == cs[b - 1]);
        }
        assert(p(cs.last()));
        lemma_trim_end(cs.drop_last(), p, b);
        assert(cs.drop_last().take(b) =~= cs.take(b));
    } else {
        assert(cs.take(b) =~= cs);
    }
}

/// `cs[a..b]` equals `cs` trimmed of the characters satisfying `p`, given that
/// `a` and `b` are the first and one-past-last positions not satisfying it.
pub proof fn lemma_trim_both(cs: Seq<char>, p: spec_fn(char) -> bool, a: int, b: int)
    requires
        0 <= a <= b <= cs.len(),
        forall|k: int| 0 <= k < a ==> p(#[trigger] cs[k]),
        a == cs.len() || !p(cs[a]),
        forall|k: int| b <= k < cs.len() ==> p(#[trigger] cs[k]),
        b == a || !p(cs[b - 1]),
    ensures
        trim_end_by(trim_start_by(cs, p), p) == cs.subrange(a, b),
{
    lemma_trim_start(cs, p, a);
    let rest = cs.skip(a);
    assert forall|k: int| (b - a) <= k < rest.len() implies p(#[trigger] rest[k]) by {
        assert(rest[k] == cs[k + a]);
    }
    if b > a {
        assert(rest[b - a - 1] == cs[b - 1]);
    }
    lemma_trim_end(rest, p, b - a);
    assert(rest.take(b - a) =~= cs.subrange(a, b));
}

/// The characters of `s` without leading and trailing whitespace.
pub fn trimmed_chars(s: &str) -> (v: Vec<char>)
    ensures
        v@ == trim_ws(s@),
{
    let cs = str_chars(s);
    let n = cs.len();
    let mut a: usize = 0;
    while a < n && is_whitespace(cs[a])
        invariant
            n == cs.len(),
            a <= n,
            forall|k: int| 0 <= k < a ==> is_ws(#[trigger] cs@[k]),
        decreases n - a,
    {
        a = a + 1;
    }
    let mut b: usize = n;
    while b > a && is_whitespace(cs[b - 1])
        invariant
            n == cs.len(),
            a <= b <= n,
            forall|k: int| b <= k < n ==> is_ws(#[trigger] cs@[k]),
        decreases b,
    {
        b = b - 1;
    }
    proof {
        let p = |c: char| is_ws(c);
        assert forall|k: int| 0 <= k < a implies p(#[trigger] cs@[k]) by {}
        assert forall|k: int| b <= k < n implies p(#[trigger] cs@[k]) by {}
        lemma_trim_both(cs@, p, a as int, b as int);
    }
    let mut v: Vec<char> = Vec::new();
    let mut k: usize = a;
    while k < b
        invariant
            n == cs.len(),
            a <= k <= b <= n,
            v@ == cs@.subrange(a as int, k as int),
        decreases b - k,
    {
        v.push(cs[k]);
        k = k + 1;
        assert(v@ =~= cs@.subrange(a as int, k as int));
    }
    v
}

proof fn lemma_last_nonws(cs: Seq<char>, i: int) -> (j: int)
    requires
        0 <= i < cs.len(),
        !is_ws(cs[i]),
    ensures
        i <= j < cs.len(),
        !is_ws(cs[j]),
        forall|k: int| j < k < cs.len() ==> is_ws(#[trigger] cs[k]),
    decreases cs.len() - i,
{
    if exists|k: int| i < k < cs.len() && !is_ws(#[trigger] cs[k]) {
        let k = choose|k: int| i < k < cs.len() && !is_ws(#[trigger] cs[k]);
        lemma_last_nonws(cs, k)
    } else {
        i
    }
}

/// Trimming leaves something when some character is not whitespace.
pub proof fn lemma_trim_nonblank(cs: Seq<char>, i: int)
    requires
        0 <= i < cs.len(),
        !is_ws(cs[i]),
        forall|k: int| 0 <= k < i ==> is_ws(#[trigger] cs[k]),
    ensures
        trim_ws(cs).len() > 0,
{
    let p = |c: char| is_ws(c);
    let j = lemma_last_nonws(cs, i);
    assert forall|k: int| 0 <= k < i implies p(#[trigger] cs[k]) by {}
    assert forall|k: int| j + 1 <= k < cs.len() implies p(#[trigger] cs[k]) by {}
    lemma_trim_both(cs, p, i, j + 1);
}

/// Trimming a string of whitespace leaves nothing.
pub proof fn lemma_trim_all_blank(cs: Seq<char>)
    requires
        forall|k: int| 0 <= k < cs.len() ==> is_ws(#[trigger] cs[k]),
    ensures
        trim_ws(cs).len() == 0,
{
    let p = |c: char| is_ws(c);
    let n = cs.len() as int;
    assert forall|k: int| 0 <= k < n implies p(#[trigger] cs[k]) by {}
    lemma_trim_both(cs, p, n, n);
}

/// Characters kept as they are in a clip file name.
pub open spec fn clip_name_char_ok(c: char) -> bool {
    ('A' <= c <= 'Z') || ('a' <= c <= 'z') || ('0' <= c <= '9') || c == '-' || c == '_'
}

/// Keep only filename-safe characters (ASCII letters, digits, `-`, `_`) of the
/// trimmed name; every other character becomes `_`.
pub fn sanitize_clip_name(name: &str) -> (s: String)
    ensures
        s@ == trim_ws(name@).map_values(|c: char| if clip_name_char_ok(c) { c } else { '_' }),
{
    let t = trimmed_chars(name);
    let n = t.len();
    let mut out: Vec<char> = Vec::new();
    for i in 0..n
        invariant
            n == t.len(),
            out@ == t@.take(i as int).map_values(|c: char| if clip_name_char_ok(c) { c } else { '_' }),
    {
        let c = t[i];
        let ok = ('A' <= c && c <= 'Z') || ('a' <= c && c <= 'z') || ('0' <= c && c <= '9') || c == '-' || c == '_';
        out.push(if ok { c } else { '_' });
        assert(t@.take(i + 1) =~= t@.take(i as int).push(c));
        assert(out@ =~= t@.take(i + 1).map_values(|c: char| if clip_name_char_ok(c) { c } else { '_' }));
    }
    assert(t@.take(n as int) =~= t@);
    string_from_chars(&out)
}


pub open spec fn is_ascii_alnum(c: char) -> bool {
    ('0' <= c <= '9') || ('a' <= c <= 'z') || ('A' <= c <= 'Z')
}

/// ASCII lower-casing (other characters unchanged).
pub open spec fn ascii_lower(c: char) -> char {
    if 'A' <= c <= 'Z' {
        ((c as int) + 32) as char
    } else {
        c
    }
}

/// Characters that separate words of a bookmark name.
pub open spec fn is_id_separator(c: char) -> bool {
    c == ' ' || c == '-' || c == '_'
}

/// Letters and digits lower-cased, separators as `-`, everything else dropped.
pub open spec fn slug_chars(cs: Seq<char>) -> Seq<char>
    decreases cs.len(),
{
    if cs.len() == 0 {
        Seq::empty()
    } else {
        let r = slug_chars(cs.drop_last());
        let c = cs.last();
        if is_ascii_alnum(c) {
            r.push(ascii_lower(c))
        } else if is_id_separator(c) {
            r.push('-')
        } else {
            r
        }
    }
}

/// Runs of `-` collapsed to a single `-`.
pub open spec fn collapse_dashes(cs: Seq<char>) -> Seq<char>
    decreases cs.len(),
{
    if cs.len() == 0 {
        Seq::empty()
    } else {
        let r = collapse_dashes(cs.drop_last());
        if cs.last() == '-' && r.len() > 0 && r.last() == '-' {
            r
        } else {
            r.push(cs.last())
        }
    }
}

/// Leading and trailing `-` removed (`trim_matches('-')`).
pub open spec fn trim_dashes(cs: Seq<char>) -> Seq<char> {
    trim_end_by(trim_start_by(cs, |c: char| c == '-'), |c: char| c == '-')
}

/// The identifier derived from a bookmark name: lower-case letters and digits,
/// words joined by single `-`, no `-` at either end; `bookmark` when nothing
/// usable remains.
pub open spec fn bookmark_id(name: Seq<char>) -> Seq<char> {
    let t = trim_dashes(collapse_dashes(slug_chars(trim_ws(name))));
    if t.len() == 0 {
        "bookmark"@
    } else {
        t
    }
}

fn ascii_lowercase(c: char) -> (r: char)
    ensures
        r == ascii_lower(c),
{
    if 'A' <= c && c <= 'Z' {
        let b = (c as u32 + 32) as u8;
        assert(b as int == c as int + 32);
        b as char
    } else {
        c
    }
}

/// Derive a stable identifier from a bookmark name (see [`bookmark_id`]).
pub fn make_bookmark_id(name: &str) -> (id: String)
    ensures
        id@ == bookmark_id(name@),
{
    let t = trimmed_chars(name);
    let n = t.len();
    let mut out: Vec<char> = Vec::new();
    for i in 0..n
        invariant
            n == t.len(),
            out@ == collapse_dashes(slug_chars(t@.take(i as int))),
    {
        let c = t[i];
        let ghost pre = t@.take(i as int);
        assert(t@.take(i + 1).drop_last() =~= pre);
        assert(t@.take(i + 1).last() == c);
        let alnum = ('0' <= c && c <= '9') || ('a' <= c && c <= 'z') || ('A' <= c && c <= 'Z');
        if alnum {
            out.push(ascii_lowercase(c));
            proof {
                let s = slug_chars(t@.take(i + 1));
                assert(s == slug_chars(pre).push(ascii_lower(c)));
                assert(s.drop_last() =~= slug_chars(pre));
                assert(ascii_lower(c) != '-');
            }
        } else if c == ' ' || c == '-' || c == '_' {
            let ends_dash = out.len() > 0 && out[out.len() - 1] == '-';
            if !ends_dash {
                out.push('-');
            }
            proof {
                let s = slug_chars(t@.take(i + 1));
                assert(s == slug_chars(pre).push('-'));
                assert(s.drop_last() =~= slug_chars(pre));
            }
        }
    }
    assert(t@.take(n as int) =~= t@);
    // Trim `-` at both ends.
    let m = out.len();
    let mut a: usize = 0;
    while a < m && out[a] == '-'
        invariant
            m == out.len(),
            a <= m,
            forall|k: int| 0 <= k < a ==> #[trigger] out@[k] == '-',
        decreases m - a,
    {
        a = a + 1;
    }
    let mut b: usize = m;
    while b > a && out[b - 1] == '-'
        invariant
            m == out.len(),
            a <= b <= m,
            forall|k: int| b <= k < m ==> #[trigger] out@[k] == '-',
        decreases b,
    {
        b = b - 1;
    }
    proof {
        let p = |c: char| c == '-';
        assert forall|k: int| 0 <= k < a implies p(#[trigger] out@[k]) by {}
        assert forall|k: int| b <= k < m implies p(#[trigger] out@[k]) by {}
        lemma_trim_both(out@, p, a as int, b as int);
    }
    if a == b {
        return String::from_str("bookmark");
    }
    let mut v: Vec<char> = Vec::new();
    let mut k: usize = a;
    while k < b
        invariant
            m == out.len(),
            a <= k <= b <= m,
            v@ == out@.subrange(a as int, k as int),
        decreases b - k,
    {
        v.push(out[k]);
        k = k + 1;
        assert(v@ =~= out@.subrange(a as int, k as int));
    }
    string_from_chars(&v)
}

/// Characters an identifier may hold: lower-case ASCII letters, digits, `-`.
pub open spec fn id_char(c: char) -> bool {
    ('a' <= c <= 'z') || ('0' <= c <= '9') || c == '-'
}

/// The shape every bookmark identifier has: not empty, only [`id_char`]s,
/// no `-` at either end and never two `-` in a row.
pub open spec fn well_formed_id(s: Seq<char>) -> bool {
    &&& s.len() > 0
    &&& forall|i: int| 0 <= i < s.len() ==> id_char(#[trigger] s[i])
    &&& s[0] != '-'
    &&& s.last() != '-'
    &&& forall|i: int| 0 <= i < s.len() - 1 ==> !(#[trigger] s[i] == '-' && s[i + 1] == '-')
}

proof fn lemma_slug_id_chars(cs: Seq<char>)
    ensures
        forall|i: int| 0 <= i < slug_chars(cs).len() ==> id_char(#[trigger] slug_chars(cs)[i]),
    decreases cs.len(),
{
    if cs.len() > 0 {
        lemma_slug_id_chars(cs.drop_last());
        let r = slug_chars(cs.drop_last());
        let c = cs.last();
        if is_ascii_alnum(c) {
            if 'A' <= c <= 'Z' {
                assert(('a' <= ascii_lower(c) <= 'z'));
            }
            assert(id_char(ascii_lower(c)));
            assert forall|i: int| 0 <= i < r.push(ascii_lower(c)).len() implies id_char(#[trigger] r.push(ascii_lower(c))[i]) by {
                if i < r.len() {
                    assert(r.push(ascii_lower(c))[i] == r[i]);
                }
            }
        } else if is_id_separator(c) {
            assert forall|i: int| 0 <= i < r.push('-').len() implies id_char(#[trigger] r.push('-')[i]) by {
                if i < r.len() {
                    assert(r.push('-')[i] == r[i]);
                }
            }
        }
    }
}

/// No two `-` in a row.
pub open spec fn no_double_dash(s: Seq<char>) -> bool {
    forall|i: int| 0 <= i < s.len() - 1 ==> !(#[trigger] s[i] == '-' && s[i + 1] == '-')
}

proof fn lemma_collapse_shape(cs: Seq<char>)
    requires
        forall|i: int| 0 <= i < cs.len() ==> id_char(#[trigger] cs[i]),
    ensures
        forall|i: int| 0 <= i < collapse_dashes(cs).len() ==> id_char(#[trigger] collapse_dashes(cs)[i]),
        no_double_dash(collapse_dashes(cs)),
    decreases cs.len(),
{
    if cs.len() > 0 {
        let d = cs.drop_last();
        assert forall|i: int| 0 <= i < d.len() implies id_char(#[trigger] d[i]) by {
            assert(d[i] == cs[i]);
        }
        lemma_collapse_shape(d);
        let r = collapse_dashes(d);
        let c = cs.last();
        assert(id_char(c)) by {
            assert(cs[cs.len() - 1] == c);
        }
        if !(c == '-' && r.len() > 0 && r.last() == '-') {
            let out = r.push(c);
            assert(collapse_dashes(cs) == out);
            assert forall|i: int| 0 <= i < out.len() implies id_char(#[trigger] out[i]) by {
                if i < r.len() {
                    assert(out[i] == r[i]);
                }
            }
            assert forall|i: int| 0 <= i < out.len() - 1 implies !(#[trigger] out[i] == '-' && out[i + 1] == '-') by {
                if i < r.len() - 1 {
                    assert(out[i] == r[i] && out[i + 1] == r[i + 1]);
                } else {
                    assert(i == r.len() - 1);
                    assert(out[i] == r.last());
                    assert(out[i + 1] == c);
                }
            }
        }
    }
}

proof fn trim_start_index(cs: Seq<char>, p: spec_fn(char) -> bool) -> (a: int)
    ensures
        0 <= a <= cs.len(),
        trim_start_by(cs, p) == cs.skip(a),
        a < cs.len() ==> !p(cs[a]),
    decreases cs.len(),
{
    if cs.len() > 0 && p(cs[0]) {
        let a1 = trim_start_index(cs.drop_first(), p);
        assert(cs.drop_first().skip(a1) =~= cs.skip(a1 + 1));
        if a1 < cs.drop_first().len() {
            assert(cs.drop_first()[a1] == cs[a1 + 1]);
        }
        a1 + 1
    } else {
        assert(cs.skip(0) =~= cs);
        0
    }
}

proof fn trim_end_index(cs: Seq<char>, p: spec_fn(char) -> bool) -> (b: int)
    ensures
        0 <= b <= cs.len(),
        trim_end_by(cs, p) == cs.take(b),
        b > 0 ==> !p(cs[b - 1]),
    decreases cs.len(),
{
    if cs.len() > 0 && p(cs.last()) {
        let b1 = trim_end_index(cs.drop_last(), p);
        assert(cs.drop_last().take(b1) =~= cs.take(b1));
        if b1 > 0 {
            assert(cs.drop_last()[b1 - 1] == cs[b1 - 1]);
        }
        b1
    } else {
        assert(cs.take(cs.len() as int) =~= cs);
        cs.len() as int
    }
}

proof fn lemma_trim_dashes_shape(t: Seq<char>)
    requires
        forall|i: int| 0 <= i < t.len() ==> id_char(#[trigger] t[i]),
        no_double_dash(t),
        trim_dashes(t).len() > 0,
    ensures
        well_formed_id(trim_dashes(t)),
{
    let p = |c: char| c == '-';
    let a = trim_start_index(t, p);
    let u = t.skip(a);
    let b = trim_end_index(u, p);
    let v = u.take(b);
    assert(trim_dashes(t) == v);
    assert(v.len() > 0);
    assert forall|i: int| 0 <= i < v.len() implies id_char(#[trigger] v[i]) by {
        assert(v[i] == t[a + i]);
    }
    assert(v[0] == t[a]);
    assert(v.last() == u[b - 1]);
    assert forall|i: int| 0 <= i < v.len() - 1 implies !(#[trigger] v[i] == '-' && v[i + 1] == '-') by {
        assert(v[i] == t[a + i] && v[i + 1] == t[a + i + 1]);
    }
}

/// Every bookmark identifier is well formed: made of lower-case letters,
/// digits and single inner `-`, never empty.
pub proof fn law_bookmark_id_well_formed(name: Seq<char>)
    ensures
        well_formed_id(bookmark_id(name)),
{
    let s = slug_chars(trim_ws(name));
    lemma_slug_id_chars(trim_ws(name));
    lemma_collapse_shape(s);
    let t = trim_dashes(collapse_dashes(s));
    if t.len() == 0 {
        reveal_strlit("bookmark");
        let w = "bookmark"@;
        assert(w.len() == 8);
        assert forall|i: int| 0 <= i < w.len() implies id_char(#[trigger] w[i]) by {}
        assert forall|i: int| 0 <= i < w.len() - 1 implies !(#[trigger] w[i] == '-' && w[i + 1] == '-') by {}
    } else {
        lemma_trim_dashes_shape(collapse_dashes(s));
    }
}

} // verus!
