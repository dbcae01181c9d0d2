use vstd::prelude::*;
use vstd::string::StringExecFns;
use crate::names::{bookmark_id, make_bookmark_id, trim_ws, trimmed_chars};
use crate::text::{decimal, digit_char, push_all, push_decimal, str_chars, string_from_chars};

verus! {

/// The identifiers of a bookmark list, as character sequences.
pub open spec fn ids_view(ids: Seq<String>) -> Seq<Seq<char>> {
    ids.map_values(|s: String| s@)
}

/// `base-k`, the `k`-th alternative of a taken identifier.
pub open spec fn suffixed_id(base: Seq<char>, k: nat) -> Seq<char> {
    base + seq!['-'] + decimal(k)
}

/// `k` is the first suffix from 2 on whose `base-k` is still free.
pub open spec fn is_first_free_suffix(ids: Seq<Seq<char>>, base: Seq<char>, k: nat) -> bool {
    &&& k >= 2
    &&& !ids.contains(suffixed_id(base, k))
    &&& forall|j: nat| 2 <= j < k ==> ids.contains(#[trigger] suffixed_id(base, j))
}

/// The identifier a new bookmark gets: `base` when no bookmark has it,
/// otherwise `base-k` for the first free `k` from 2 on.
pub open spec fn fresh_id(ids: Seq<Seq<char>>, base: Seq<char>, id: Seq<char>) -> bool {
    if !ids.contains(base) {
        id == base
    } else {
        exists|k: nat| is_first_free_suffix(ids, base, k) && id == suffixed_id(base, k)
    }
}

proof fn lemma_digit_char_injective(a: int, b: int)
    requires
        0 <= a < 10,
        0 <= b < 10,
        digit_char(a) == digit_char(b),
    ensures
        a == b,
{
}

proof fn lemma_decimal_len_ge2(n: nat)
    requires
        n >= 10,
    ensures
        decimal(n).len() >= 2,
{
    crate::text::lemma_decimal_len(n / 10);
    assert(decimal(n) == decimal(n / 10).push(digit_char((n % 10) as int)));
}

/// Decimal representations of different numbers differ.
proof fn lemma_decimal_injective(a: nat, b: nat)
    requires
        decimal(a) == decimal(b),
    ensures
        a == b,
    decreases a,
{
    if a < 10 && b < 10 {
        assert(decimal(a)[0] == digit_char(a as int));
        assert(decimal(b)[0] == digit_char(b as int));
        lemma_digit_char_injective(a as int, b as int);
    } else if a >= 10 && b >= 10 {
        let da = decimal(a);
        let db = decimal(b);
        assert(da == decimal(a / 10).push(digit_char((a % 10) as int)));
        assert(db == decimal(b / 10).push(digit_char((b % 10) as int)));
        assert(da.last() == digit_char((a % 10) as int));
        assert(db.last() == digit_char((b % 10) as int));
        lemma_digit_char_injective((a % 10) as int, (b % 10) as int);
        assert(da.drop_last() =~= decimal(a / 10));
        assert(db.drop_last() =~= decimal(b / 10));
        lemma_decimal_injective(a / 10, b / 10);
    } else if a < 10 {
        crate::text::lemma_decimal_len(a);
        lemma_decimal_len_ge2(b);
    } else {
        crate::text::lemma_decimal_len(b);
        lemma_decimal_len_ge2(a);
    }
}

proof fn lemma_suffixed_injective(base: Seq<char>, a: nat, b: nat)
    requires
        suffixed_id(base, a) == suffixed_id(base, b),
    ensures
        a == b,
{
    let sa = suffixed_id(base, a);
    let sb = suffixed_id(base, b);
    let off = base.len() + 1;
    assert(sa.skip(off as int) =~= decimal(a));
    assert(sb.skip(off as int) =~= decimal(b));
    lemma_decimal_injective(a, b);
}

proof fn lemma_remove_keeps_others(ids: Seq<Seq<char>>, j: int, x: Seq<char>)
    requires
        0 <= j < ids.len(),
        ids.contains(x),
        x != ids[j],
    ensures
        ids.remove(j).contains(x),
{
    let i = choose|i: int| 0 <= i < ids.len() && ids[i] == x;
    let r = ids.remove(j);
    if i < j {
        assert(r[i] == x);
    } else {
        assert(i > j);
        assert(r[i - 1] == x);
    }
}

/// Among `base-lo` ... `base-(lo+n)` at least one is not in a list of `n`
/// identifiers.
proof fn lemma_free_suffix_exists(ids: Seq<Seq<char>>, base: Seq<char>, lo: nat)
    ensures
        exists|k: nat| lo <= k <= lo + ids.len() && !ids.contains(#[trigger] suffixed_id(base, k)),
    decreases ids.len(),
{
    let x = suffixed_id(base, lo);
    if !ids.contains(x) {
        assert(lo <= lo <= lo + ids.len() && !ids.contains(suffixed_id(base, lo)));
    } else {
        let j = choose|j: int| 0 <= j < ids.len() && ids[j] == x;
        let rest = ids.remove(j);
        lemma_free_suffix_exists(rest, base, lo + 1);
        let k = choose|k: nat| lo + 1 <= k <= lo + 1 + rest.len() && !rest.contains(#[trigger] suffixed_id(base, k));
        if ids.contains(suffixed_id(base, k)) {
            if suffixed_id(base, k) == ids[j] {
                lemma_suffixed_injective(base, k, lo);
            } else {
                lemma_remove_keeps_others(ids, j, suffixed_id(base, k));
            }
        }
        assert(lo <= k <= lo + ids.len() && !ids.contains(suffixed_id(base, k)));
    }
}

/// Only one suffix can be the first free one, so [`fresh_id`] names exactly
/// one identifier.
pub proof fn law_first_free_suffix_unique(ids: Seq<Seq<char>>, base: Seq<char>, k1: nat, k2: nat)
    requires
        is_first_free_suffix(ids, base, k1),
        is_first_free_suffix(ids, base, k2),
    ensures
        k1 == k2,
{
    if k1 < k2 {
        assert(ids.contains(suffixed_id(base, k1)));
    } else if k2 < k1 {
        assert(ids.contains(suffixed_id(base, k2)));
    }
}

fn chars_eq(a: &Vec<char>, b: &Vec<char>) -> (r: bool)
    ensures
        r == (a@ == b@),
{
    if a.len() != b.len() {
        return false;
    }
    let n = a.len();
    for i in 0..n
        invariant
            n == a.len(),
            n == b.len(),
            forall|k: int| 0 <= k < i ==> a@[k] == b@[k],
    {
        if a[i] != b[i] {
            return false;
        }
    }
    assert(a@ =~= b@);
    true
}

/// Whether some identifier of `ids` equals `cand`.
fn contains_id(ids: &Vec<String>, cand: &Vec<char>) -> (r: bool)
    ensures
        r == ids_view(ids@).contains(cand@),
{
    let n = ids.len();
    for i in 0..n
        invariant
            n == ids.len(),
            forall|k: int| 0 <= k < i ==> (#[trigger] ids_view(ids@)[k]) != cand@,
    {
        let id = str_chars(ids[i].as_str());
        if chars_eq(&id, cand) {
            assert(ids_view(ids@)[i as int] == cand@);
            return true;
        }
        assert(ids_view(ids@)[i as int] != cand@);
    }
    proof {
        if ids_view(ids@).contains(cand@) {
            let k = choose|k: int| 0 <= k < ids_view(ids@).len() && ids_view(ids@)[k] == cand@;
            assert(ids_view(ids@)[k] != cand@);
        }
    }
    false
}

fn suffixed_chars(base: &Vec<char>, k: u64) -> (v: Vec<char>)
    ensures
        v@ == suffixed_id(base@, k as nat),
{
    let mut v: Vec<char> = Vec::new();
    push_all(&mut v, base);
    v.push('-');
    push_decimal(&mut v, k);
    assert(v@ =~= suffixed_id(base@, k as nat));
    v
}

/// The identifier for a bookmark saved under `name` next to the bookmarks
/// whose identifiers are `existing_ids`: derived from the name and made
/// unique with `-2`, `-3`, ... when taken.  A name that is empty once trimmed
/// is refused with the message shown to the operator.
pub fn new_bookmark_id(name: &str, existing_ids: &Vec<String>) -> (r: Result<String, String>)
    requires
        existing_ids.len() < u64::MAX - 2,
    ensures
        r is Err <==> trim_ws(name@).len() == 0,
        r matches Err(e) ==> e@ == "bookmark name cannot be empty"@,
        r matches Ok(id) ==> fresh_id(ids_view(existing_ids@), bookmark_id(name@), id@),
        r matches Ok(id) ==> !ids_view(existing_ids@).contains(id@),
{
    let trimmed = trimmed_chars(name);
    if trimmed.len() == 0 {
        return Err(String::from_str("bookmark name cannot be empty"));
    }
    let base_s = make_bookmark_id(name);
    let base = str_chars(base_s.as_str());
    let ghost ids = ids_view(existing_ids@);
    if !contains_id(existing_ids, &base) {
        return Ok(base_s);
    }
    let n = existing_ids.len();
    proof {
        lemma_free_suffix_exists(ids, base@, 2);
    }
    let ghost w: nat = choose|k: nat| 2 <= k <= 2 + ids.len() && !ids.contains(#[trigger] suffixed_id(base@, k));
    let mut suffix: u64 = 2;
    loop
        invariant
            n == existing_ids.len(),
            n < u64::MAX - 2,
            ids == ids_view(existing_ids@),
            ids.len() == n,
            ids.contains(base@),
            base@ == bookmark_id(name@),
            trim_ws(name@).len() > 0,
            2 <= suffix <= w <= 2 + n,
            !ids.contains(suffixed_id(base@, w)),
            forall|j: nat| 2 <= j < suffix ==> ids.contains(#[trigger] suffixed_id(base@, j)),
        decreases w - suffix,
    {
        let cand = suffixed_chars(&base, suffix);
        if !contains_id(existing_ids, &cand) {
            proof {
                assert(is_first_free_suffix(ids, base@, suffix as nat));
            }
            return Ok(string_from_chars(&cand));
        }
        assert(suffix != w);
        suffix = suffix + 1;
    }
}

/// Notes as stored on a bookmark: trimmed, and none at all when nothing
/// remains.
pub fn bookmark_notes(notes: &str) -> (r: Option<String>)
    ensures
        r is None <==> trim_ws(notes@).len() == 0,
        r matches Some(s) ==> s@ == trim_ws(notes@),
{
    let t = trimmed_chars(notes);
    if t.len() == 0 {
        None
    } else {
        Some(string_from_chars(&t))
    }
}

} // verus!
