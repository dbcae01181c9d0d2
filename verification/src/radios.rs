use vstd::prelude::*;
use crate::text::{push_str, str_chars, string_from_chars};

verus! {

/// Server-provided category of a radio source.
#[derive(Debug, Clone, Copy, PartialEq, Eq, Structural)]
pub enum RadioSourceKind {
    Hardware,
    Recording,
    Virtual,
    Unknown,
}

pub open spec fn category_rank(kind: RadioSourceKind) -> u8 {
    match kind {
        RadioSourceKind::Hardware => 0,
        RadioSourceKind::Recording => 1,
        RadioSourceKind::Virtual => 2,
        RadioSourceKind::Unknown => 3,
    }
}

/// Fixed display order for the radio categories; lower is shown first.
pub fn category_order(kind: RadioSourceKind) -> (o: u8)
    ensures
        o == category_rank(kind),
{
    match kind {
        RadioSourceKind::Hardware => 0,
        RadioSourceKind::Recording => 1,
        RadioSourceKind::Virtual => 2,
        RadioSourceKind::Unknown => 3,
    }
}

/// Category header text.
pub fn category_label(kind: RadioSourceKind) -> (s: &'static str)
    ensures
        s@ == match kind {
            RadioSourceKind::Hardware => "Hardware"@,
            RadioSourceKind::Recording => "Recordings"@,
            RadioSourceKind::Virtual => "Virtual"@,
            RadioSourceKind::Unknown => "Other"@,
        },
{
    match kind {
        RadioSourceKind::Hardware => "Hardware",
        RadioSourceKind::Recording => "Recordings",
        RadioSourceKind::Virtual => "Virtual",
        RadioSourceKind::Unknown => "Other",
    }
}

/// The display order is a total order on categories: distinct categories get
/// distinct positions, hardware first and unknown sources last.
pub proof fn law_category_order_total(a: RadioSourceKind, b: RadioSourceKind)
    ensures
        category_rank(a) == category_rank(b) ==> a == b,
        category_rank(RadioSourceKind::Hardware) <= category_rank(a) <= category_rank(RadioSourceKind::Unknown),
{
}

/// Lexicographic order on character sequences, by code point: the order of
/// `String`'s `Ord` (UTF-8 byte order agrees with code point order).
pub open spec fn seq_lt(a: Seq<char>, b: Seq<char>) -> bool
    decreases a.len(),
{
    if a.len() == 0 {
        b.len() > 0
    } else if b.len() == 0 {
        false
    } else if a[0] != b[0] {
        a[0] < b[0]
    } else {
        seq_lt(a.drop_first(), b.drop_first())
    }
}

proof fn lemma_seq_lt_irrefl(a: Seq<char>)
    ensures
        !seq_lt(a, a),
    decreases a.len(),
{
    if a.len() > 0 {
        lemma_seq_lt_irrefl(a.drop_first());
    }
}

proof fn lemma_seq_lt_trans(a: Seq<char>, b: Seq<char>, c: Seq<char>)
    requires
        seq_lt(a, b),
        seq_lt(b, c),
    ensures
        seq_lt(a, c),
    decreases a.len(),
{
    if a.len() > 0 && b.len() > 0 && c.len() > 0 && a[0] == b[0] && b[0] == c[0] {
        lemma_seq_lt_trans(a.drop_first(), b.drop_first(), c.drop_first());
    }
}

proof fn lemma_seq_lt_total(a: Seq<char>, b: Seq<char>)
    ensures
        seq_lt(a, b) || a == b || seq_lt(b, a),
    decreases a.len(),
{
    if a.len() == 0 && b.len() == 0 {
        assert(a =~= b);
    } else if a.len() > 0 && b.len() > 0 && a[0] == b[0] {
        lemma_seq_lt_total(a.drop_first(), b.drop_first());
        if a.drop_first() == b.drop_first() {
            assert(a =~= b) by {
                assert forall|i: int| 0 <= i < a.len() implies a[i] == b[i] by {
                    if i > 0 {
                        assert(a[i] == a.drop_first()[i - 1]);
                        assert(b[i] == b.drop_first()[i - 1]);
                    }
                }
            }
        }
    }
}

proof fn lemma_seq_lt_skip(a: Seq<char>, b: Seq<char>, i: int)
    requires
        0 <= i <= a.len(),
        i <= b.len(),
        a.take(i) == b.take(i),
    ensures
        seq_lt(a, b) == seq_lt(a.skip(i), b.skip(i)),
    decreases i,
{
    if i > 0 {
        assert(a[0] == a.take(i)[0]);
        assert(b[0] == b.take(i)[0]);
        assert(a.drop_first().take(i - 1) =~= a.take(i).drop_first());
        assert(b.drop_first().take(i - 1) =~= b.take(i).drop_first());
        lemma_seq_lt_skip(a.drop_first(), b.drop_first(), i - 1);
        assert(a.drop_first().skip(i - 1) =~= a.skip(i));
        assert(b.drop_first().skip(i - 1) =~= b.skip(i));
    } else {
        assert(a.skip(0) =~= a);
        assert(b.skip(0) =~= b);
    }
}

/// Whether `a` sorts strictly before `b`.
fn chars_lt(a: &Vec<char>, b: &Vec<char>) -> (r: bool)
    ensures
        r == seq_lt(a@, b@),
{
    let mut i: usize = 0;
    while i < a.len() && i < b.len() && a[i] == b[i]
        invariant
            i <= a.len(),
            i <= b.len(),
            a@.take(i as int) == b@.take(i as int),
        decreases a.len() - i,
    {
        assert(a@.take(i + 1) =~= a@.take(i as int).push(a@[i as int]));
        assert(b@.take(i + 1) =~= b@.take(i as int).push(b@[i as int]));
        i = i + 1;
    }
    proof {
        lemma_seq_lt_skip(a@, b@, i as int);
    }
    if i == a.len() {
        i < b.len()
    } else if i == b.len() {
        false
    } else {
        assert(a@.skip(i as int)[0] == a@[i as int]);
        assert(b@.skip(i as int)[0] == b@[i as int]);
        a[i] < b[i]
    }
}

/// A radio the server offers, as far as the radio list shows it.
#[derive(Debug, Clone)]
pub struct RadioEntry {
    pub id: String,
    pub display_name: String,
    pub source_kind: RadioSourceKind,
    /// Another client holds the radio.
    pub is_leased: bool,
}

/// Sort key of a radio: its category position, then its name as compared.
pub open spec fn radio_key(radios: Seq<RadioEntry>, names: Seq<Seq<char>>, i: int) -> (int, Seq<char>) {
    (category_rank(radios[i].source_kind) as int, names[i])
}

pub open spec fn radio_key_lt(a: (int, Seq<char>), b: (int, Seq<char>)) -> bool {
    a.0 < b.0 || (a.0 == b.0 && seq_lt(a.1, b.1))
}

/// `order` lists every radio index once, sorted by category and then by
/// name (`names`), radios with equal keys kept in their given order.
pub open spec fn is_radio_order(radios: Seq<RadioEntry>, names: Seq<Seq<char>>, order: Seq<int>) -> bool {
    &&& order.len() == radios.len()
    &&& forall|k: int| 0 <= k < order.len() ==> 0 <= #[trigger] order[k] < radios.len()
    &&& forall|a: int, b: int| 0 <= a < b < order.len() ==> #[trigger] order[a] != #[trigger] order[b]
    &&& forall|a: int, b: int|
        0 <= a < b < order.len() ==> radio_key_lt(
            radio_key(radios, names, #[trigger] order[a]),
            radio_key(radios, names, #[trigger] order[b]),
        ) || (radio_key(radios, names, order[a]) == radio_key(radios, names, order[b]) && order[a] < order[b])
}

/// One line of the radio list: a category header or a radio (by index).
#[derive(Debug, Clone, Copy, PartialEq, Eq, Structural)]
pub enum RadioListRow {
    Header(RadioSourceKind),
    Radio(usize),
}

/// The list for radios in the order `order`: each radio preceded by its
/// category's header when the category differs from the previous radio's.
pub open spec fn rows_for(radios: Seq<RadioEntry>, order: Seq<int>) -> Seq<RadioListRow>
    decreases order.len(),
{
    if order.len() == 0 {
        Seq::empty()
    } else {
        let prev = rows_for(radios, order.drop_last());
        let i = order.last();
        let kind = radios[i].source_kind;
        let starts = order.len() == 1 || radios[order[order.len() - 2]].source_kind != kind;
        if starts {
            prev.push(RadioListRow::Header(kind)).push(RadioListRow::Radio(i as usize))
        } else {
            prev.push(RadioListRow::Radio(i as usize))
        }
    }
}

proof fn lemma_rank_injective(a: RadioSourceKind, b: RadioSourceKind)
    ensures
        category_rank(a) == category_rank(b) ==> a == b,
{
}

/// The radio list, given the name each radio is sorted by (`sort_names[i]`
/// for `radios[i]`): radios ordered by category (hardware, recordings,
/// virtual, other) and then by sort name, equal keys in their given order,
/// with a header before each category's first radio.
pub fn radio_list_sorted_by(radios: &Vec<RadioEntry>, sort_names: &Vec<String>) -> (rows: Vec<RadioListRow>)
    requires
        sort_names.len() == radios.len(),
    ensures
        exists|order: Seq<int>|
            is_radio_order(radios@, sort_names@.map_values(|s: String| s@), order) && rows@ == rows_for(radios@, order),
{
    let ghost names = sort_names@.map_values(|s: String| s@);
    let n = radios.len();
    let mut ranks: Vec<u8> = Vec::new();
    let mut keys: Vec<Vec<char>> = Vec::new();
    for i in 0..n
        invariant
            n == radios.len(),
            n == sort_names.len(),
            names == sort_names@.map_values(|s: String| s@),
            ranks.len() == i,
            keys.len() == i,
            forall|k: int| 0 <= k < i ==> #[trigger] ranks@[k] == category_rank(radios@[k].source_kind),
            forall|k: int| 0 <= k < i ==> #[trigger] keys@[k]@ == names[k],
    {
        ranks.push(category_order(radios[i].source_kind));
        keys.push(str_chars(sort_names[i].as_str()));
    }
    // Stable insertion sort of the indices.
    let mut order: Vec<usize> = Vec::new();
    for i in 0..n
        invariant
            n == radios.len(),
            n == sort_names.len(),
            names == sort_names@.map_values(|s: String| s@),
            ranks.len() == n,
            keys.len() == n,
            forall|k: int| 0 <= k < n ==> #[trigger] ranks@[k] == category_rank(radios@[k].source_kind),
            forall|k: int| 0 <= k < n ==> #[trigger] keys@[k]@ == names[k],
            order.len() == i,
            forall|k: int| 0 <= k < i ==> 0 <= #[trigger] order@[k] < i,
            forall|a: int, b: int| 0 <= a < b < i ==> #[trigger] order@[a] != #[trigger] order@[b],
            forall|a: int, b: int|
                0 <= a < b < i ==> radio_key_lt(
                    radio_key(radios@, names, #[trigger] order@[a] as int),
                    radio_key(radios@, names, #[trigger] order@[b] as int),
                ) || (radio_key(radios@, names, order@[a] as int) == radio_key(radios@, names, order@[b] as int)
                    && order@[a] < order@[b]),
    {
        let ghost kx = radio_key(radios@, names, i as int);
        let mut pos: usize = 0;
        while pos < order.len()
            invariant
                pos <= order.len(),
                order.len() == i,
                i < n,
                n == radios.len(),
                ranks.len() == n,
                keys.len() == n,
                forall|k: int| 0 <= k < n ==> #[trigger] ranks@[k] == category_rank(radios@[k].source_kind),
                forall|k: int| 0 <= k < n ==> #[trigger] keys@[k]@ == names[k],
                forall|k: int| 0 <= k < i ==> 0 <= #[trigger] order@[k] < i,
                kx == radio_key(radios@, names, i as int),
                forall|m: int| 0 <= m < pos ==> !radio_key_lt(kx, radio_key(radios@, names, #[trigger] order@[m] as int)),
            ensures
                pos <= order.len(),
                forall|m: int| 0 <= m < pos ==> !radio_key_lt(kx, radio_key(radios@, names, #[trigger] order@[m] as int)),
                pos < order.len() ==> radio_key_lt(kx, radio_key(radios@, names, order@[pos as int] as int)),
            decreases order.len() - pos,
        {
            let j = order[pos];
            let x_before = ranks[i] < ranks[j] || (ranks[i] == ranks[j] && chars_lt(&keys[i], &keys[j]));
            if x_before {
                break;
            }
            pos = pos + 1;
        }
        proof {
            assert forall|m: int| pos <= m < order.len() implies radio_key_lt(kx, radio_key(radios@, names, #[trigger] order@[m] as int)) by {
                let kp = radio_key(radios@, names, order@[pos as int] as int);
                let km = radio_key(radios@, names, order@[m] as int);
                if m > pos {
                    assert(radio_key_lt(kp, km) || kp == km);
                    if kp.0 == km.0 && kx.0 == kp.0 {
                        if seq_lt(kp.1, km.1) {
                            lemma_seq_lt_trans(kx.1, kp.1, km.1);
                        }
                    }
                }
            }
        }
        let ghost old_order = order@;
        order.insert(pos, i);
        proof {
            assert forall|k: int| 0 <= k < i + 1 implies 0 <= #[trigger] order@[k] < i + 1 by {
                if k < pos {
                    assert(order@[k] == old_order[k]);
                } else if k > pos {
                    assert(order@[k] == old_order[k - 1]);
                }
            }
            assert forall|a: int, b: int| 0 <= a < b < i + 1 implies #[trigger] order@[a] != #[trigger] order@[b] by {
                if a < pos && b < pos {
                    assert(order@[a] == old_order[a] && order@[b] == old_order[b]);
                } else if a < pos && b == pos {
                    assert(order@[a] == old_order[a]);
                } else if a < pos && b > pos {
                    assert(order@[a] == old_order[a] && order@[b] == old_order[b - 1]);
                } else if a == pos {
                    assert(order@[b] == old_order[b - 1]);
                } else {
                    assert(order@[a] == old_order[a - 1] && order@[b] == old_order[b - 1]);
                }
            }
            assert forall|a: int, b: int| 0 <= a < b < i + 1 implies radio_key_lt(
                radio_key(radios@, names, #[trigger] order@[a] as int),
                radio_key(radios@, names, #[trigger] order@[b] as int),
            ) || (radio_key(radios@, names, order@[a] as int) == radio_key(radios@, names, order@[b] as int)
                && order@[a] < order@[b]) by {
                if a < pos && b < pos {
                    assert(order@[a] == old_order[a] && order@[b] == old_order[b]);
                } else if a < pos && b == pos {
                    assert(order@[a] == old_order[a]);
                    let ka = radio_key(radios@, names, old_order[a] as int);
                    assert(!radio_key_lt(kx, ka));
                    lemma_seq_lt_total(ka.1, kx.1);
                } else if a < pos && b > pos {
                    assert(order@[a] == old_order[a] && order@[b] == old_order[b - 1]);
                } else if a == pos {
                    assert(order@[b] == old_order[b - 1]);
                } else {
                    assert(order@[a] == old_order[a - 1] && order@[b] == old_order[b - 1]);
                }
            }
        }
    }
    // Rows with a header at each change of category.
    let mut rows: Vec<RadioListRow> = Vec::new();
    let ghost ord = order@.map_values(|x: usize| x as int);
    for k in 0..n
        invariant
            n == radios.len(),
            order.len() == n,
            ord == order@.map_values(|x: usize| x as int),
            forall|m: int| 0 <= m < n ==> 0 <= #[trigger] order@[m] < n,
            rows@ == rows_for(radios@, ord.take(k as int)),
    {
        let i = order[k];
        let kind = radios[i].source_kind;
        let starts = k == 0 || radios[order[k - 1]].source_kind != kind;
        proof {
            let t = ord.take(k + 1);
            assert(t.drop_last() =~= ord.take(k as int));
            assert(t.last() == i as int);
            if k > 0 {
                assert(t[t.len() - 2] == order@[k - 1] as int);
            }
        }
        if starts {
            rows.push(RadioListRow::Header(kind));
        }
        rows.push(RadioListRow::Radio(i));
    }
    proof {
        assert(ord.take(n as int) =~= ord);
        assert(is_radio_order(radios@, names, ord)) by {
            assert forall|a: int, b: int| 0 <= a < b < ord.len() implies #[trigger] ord[a] != #[trigger] ord[b] by {
                assert(order@[a] != order@[b]);
            }
        }
    }
    rows
}

// Unicode lower-case mapping of a string, as `str::to_lowercase` computes it.
pub uninterp spec fn lowercase(s: Seq<char>) -> Seq<char>;

/// Trusted: `str::to_lowercase` returns the lower-case mapping of `s`, which
/// depends on `s` alone; its content is named, not stated.
#[verifier::external_body]
fn to_lowercase(s: &str) -> (r: String)
    ensures
        r@ == lowercase(s@),
{
    s.to_lowercase()
}

/// The names radios are sorted by: their display names, lower-cased.
pub open spec fn sort_names_of(radios: Seq<RadioEntry>) -> Seq<Seq<char>> {
    radios.map_values(|r: RadioEntry| lowercase(r.display_name@))
}

/// The radio list of the Radios panel: radios grouped by category (hardware,
/// recordings, virtual, other), within a category by lower-cased display
/// name, with a header before each category.
pub fn radio_list(radios: &Vec<RadioEntry>) -> (rows: Vec<RadioListRow>)
    ensures
        exists|order: Seq<int>| is_radio_order(radios@, sort_names_of(radios@), order) && rows@ == rows_for(radios@, order),
{
    let n = radios.len();
    let mut names: Vec<String> = Vec::new();
    for i in 0..n
        invariant
            n == radios.len(),
            names.len() == i,
            forall|k: int| 0 <= k < i ==> (#[trigger] names@[k])@ == lowercase(radios@[k].display_name@),
    {
        names.push(to_lowercase(radios[i].display_name.as_str()));
    }
    assert(names@.map_values(|s: String| s@) =~= sort_names_of(radios@));
    radio_list_sorted_by(radios, &names)
}

/// Within a sorted radio list the radios of one category are contiguous, so
/// each category gets a single header.
pub proof fn law_categories_contiguous(radios: Seq<RadioEntry>, names: Seq<Seq<char>>, order: Seq<int>, a: int, b: int, c: int)
    requires
        is_radio_order(radios, names, order),
        0 <= a < b < c < order.len(),
        radios[order[a]].source_kind == radios[order[c]].source_kind,
    ensures
        radios[order[b]].source_kind == radios[order[a]].source_kind,
{
    assert(radio_key_lt(radio_key(radios, names, order[a]), radio_key(radios, names, order[b]))
        || radio_key(radios, names, order[a]) == radio_key(radios, names, order[b]));
    assert(radio_key_lt(radio_key(radios, names, order[b]), radio_key(radios, names, order[c]))
        || radio_key(radios, names, order[b]) == radio_key(radios, names, order[c]));
    lemma_rank_injective(radios[order[a]].source_kind, radios[order[b]].source_kind);
}

/// The list line of a radio: its display name, marked `(busy)` while another
/// client holds it.
pub fn radio_label(radio: &RadioEntry) -> (s: String)
    ensures
        s@ == (if radio.is_leased { radio.display_name@ + " (busy)"@ } else { radio.display_name@ }),
{
    let mut out: Vec<char> = Vec::new();
    push_str(&mut out, radio.display_name.as_str());
    if radio.is_leased {
        push_str(&mut out, " (busy)");
    }
    string_from_chars(&out)
}

/// Index of the first radio with identifier `id`.
pub fn find_radio(radios: &Vec<RadioEntry>, id: &str) -> (r: Option<usize>)
    ensures
        r matches Some(i) ==> i < radios.len() && radios@[i as int].id@ == id@
            && forall|k: int| 0 <= k < i ==> (#[trigger] radios@[k]).id@ != id@,
        r is None ==> forall|k: int| 0 <= k < radios.len() ==> (#[trigger] radios@[k]).id@ != id@,
{
    let n = radios.len();
    for i in 0..n
        invariant
            n == radios.len(),
            forall|k: int| 0 <= k < i ==> (#[trigger] radios@[k]).id@ != id@,
    {
        if crate::text::str_eq(radios[i].id.as_str(), id) {
            return Some(i);
        }
    }
    None
}

} // verus!
