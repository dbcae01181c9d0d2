use vstd::prelude::*;
use vstd::arithmetic::div_mod::lemma_fundamental_div_mod_converse;
use crate::modes::{mode_label, mode_label_text, DemodMode};
use crate::text::{digit_char, lemma_decimal_len, decimal, push_str, decimal_padded, signed_decimal, push_decimal, push_decimal_padded, push_signed_decimal, string_from_chars};

verus! {

/// Compact age like `12s`, `4m`, `1h` from a whole number of seconds.
pub open spec fn age_text(secs: nat) -> Seq<char> {
    if secs < 60 {
        decimal(secs).push('s')
    } else if secs < 3600 {
        decimal(secs / 60).push('m')
    } else {
        decimal(secs / 3600).push('h')
    }
}

/// Compact age like `12s`, `4m`, `1h`; `age_secs` is the age in whole seconds.
pub fn fmt_age(age_secs: u64) -> (s: String)
    ensures
        s@ == age_text(age_secs as nat),
{
    let mut out: Vec<char> = Vec::new();
    if age_secs < 60 {
        push_decimal(&mut out, age_secs);
        out.push('s');
    } else if age_secs < 3600 {
        push_decimal(&mut out, age_secs / 60);
        out.push('m');
    } else {
        push_decimal(&mut out, age_secs / 3600);
        out.push('h');
    }
    assert(out@ =~= age_text(age_secs as nat));
    string_from_chars(&out)
}

/// `HH:MM:SS` (each field at least two digits; hours may grow wider).
pub open spec fn elapsed_text(secs: nat) -> Seq<char> {
    decimal_padded(secs / 3600, 2) + seq![':'] + decimal_padded((secs % 3600) / 60, 2) + seq![':']
        + decimal_padded(secs % 60, 2)
}

/// `HH:MM:SS` for the IQ recording elapsed time.
pub fn format_elapsed(secs: u64) -> (s: String)
    ensures
        s@ == elapsed_text(secs as nat),
{
    let mut out: Vec<char> = Vec::new();
    push_decimal_padded(&mut out, secs / 3600, 2);
    out.push(':');
    push_decimal_padded(&mut out, (secs % 3600) / 60, 2);
    out.push(':');
    push_decimal_padded(&mut out, secs % 60, 2);
    assert(out@ =~= elapsed_text(secs as nat));
    string_from_chars(&out)
}

/// A raw ADC reading, or `--` when there is none.
pub fn format_raw(raw: Option<u16>) -> (s: String)
    ensures
        s@ == match raw {
            Some(n) => decimal(n as nat),
            None => seq!['-', '-'],
        },
{
    let mut out: Vec<char> = Vec::new();
    match raw {
        Some(n) => {
            push_decimal(&mut out, n as u64);
        },
        None => {
            out.push('-');
            out.push('-');
        },
    }
    assert(out@ =~= match raw {
        Some(n) => decimal(n as nat),
        None => seq!['-', '-'],
    });
    string_from_chars(&out)
}

/// Decimal digits of `hz` grouped in threes from the right with `.`
/// (e.g. `14.074.000`).
pub open spec fn dotted_decimal(hz: nat) -> Seq<char>
    decreases hz,
{
    if hz < 1000 {
        decimal(hz)
    } else {
        dotted_decimal(hz / 1000) + seq!['.'] + decimal_padded(hz % 1000, 3)
    }
}

fn push_dotted(out: &mut Vec<char>, hz: u64)
    ensures
        final(out)@ == old(out)@ + dotted_decimal(hz as nat),
    decreases hz,
{
    if hz < 1000 {
        push_decimal(out, hz);
    } else {
        push_dotted(out, hz / 1000);
        out.push('.');
        push_decimal_padded(out, hz % 1000, 3);
        assert(out@ =~= old(out)@ + dotted_decimal(hz as nat));
    }
}

/// Frequency in Hz with `.` thousands separators, for the status bar.
pub fn format_freq_dotted(hz: u64) -> (s: String)
    ensures
        s@ == dotted_decimal(hz as nat),
{
    let mut out: Vec<char> = Vec::new();
    push_dotted(&mut out, hz);
    assert(out@ =~= dotted_decimal(hz as nat));
    string_from_chars(&out)
}

/// Human label for a step size in whole Hz: `N kHz` for whole kilohertz of at
/// least 1 kHz, otherwise `N Hz`.
pub open spec fn step_label_text(hz: int) -> Seq<char> {
    if hz >= 1000 && hz % 1000 == 0 {
        decimal((hz / 1000) as nat) + seq![' ', 'k', 'H', 'z']
    } else {
        signed_decimal(hz) + seq![' ', 'H', 'z']
    }
}

/// Human label for a step size, e.g. `1 Hz`, `500 Hz`, `1 kHz`, `10 kHz`;
/// `hz` is the step rounded to whole Hz.
pub fn tuning_step_label(hz: i64) -> (s: String)
    ensures
        s@ == step_label_text(hz as int),
{
    let mut out: Vec<char> = Vec::new();
    if hz >= 1000 && hz % 1000 == 0 {
        push_decimal(&mut out, (hz / 1000) as u64);
        out.push(' ');
        out.push('k');
        out.push('H');
        out.push('z');
    } else {
        push_signed_decimal(&mut out, hz);
        out.push(' ');
        out.push('H');
        out.push('z');
    }
    assert(out@ =~= step_label_text(hz as int));
    string_from_chars(&out)
}


/// An offset in Hz with an explicit sign (`{:+}`): `+50`, `-120`, `+0`.
pub open spec fn plus_signed_decimal(hz: int) -> Seq<char> {
    if hz >= 0 {
        seq!['+'] + decimal(hz as nat)
    } else {
        signed_decimal(hz)
    }
}

/// Status-bar badge text for a receive/transmit offset, e.g. `RIT +50 Hz`.
pub open spec fn offset_badge_text(prefix: Seq<char>, hz: int) -> Seq<char> {
    prefix + seq![' '] + plus_signed_decimal(hz) + seq![' ', 'H', 'z']
}

/// The RIT/XIT badge of the status bar: shown only while the offset is
/// enabled and not zero.
pub fn offset_badge(prefix: &str, enabled: bool, offset_hz: i32) -> (r: Option<String>)
    ensures
        r is Some <==> enabled && offset_hz != 0,
        r matches Some(s) ==> s@ == offset_badge_text(prefix@, offset_hz as int),
{
    if !enabled || offset_hz == 0 {
        return None;
    }
    let mut out: Vec<char> = Vec::new();
    push_str(&mut out, prefix);
    out.push(' ');
    if offset_hz >= 0 {
        out.push('+');
        push_decimal(&mut out, offset_hz as u64);
    } else {
        push_signed_decimal(&mut out, offset_hz as i64);
    }
    out.push(' ');
    out.push('H');
    out.push('z');
    assert(out@ =~= offset_badge_text(prefix@, offset_hz as int));
    Some(string_from_chars(&out))
}

/// `conceal C  ·  late L  ·  overflow O  ·  resync R`.
pub open spec fn rx_counters_text(conceals: nat, late: nat, overflow: nat, resyncs: nat) -> Seq<char> {
    "conceal "@ + decimal(conceals) + "  \u{b7}  late "@ + decimal(late) + "  \u{b7}  overflow "@
        + decimal(overflow) + "  \u{b7}  resync "@ + decimal(resyncs)
}

/// Receive-side audio counters of the latency panel, shown only when any of
/// them is nonzero.
pub fn rx_counters_note(conceals: u64, late: u64, overflow: u64, resyncs: u64) -> (r: Option<String>)
    ensures
        r is Some <==> (conceals != 0 || late != 0 || overflow != 0 || resyncs != 0),
        r matches Some(s) ==> s@ == rx_counters_text(conceals as nat, late as nat, overflow as nat, resyncs as nat),
{
    if conceals == 0 && late == 0 && overflow == 0 && resyncs == 0 {
        return None;
    }
    let mut out: Vec<char> = Vec::new();
    push_str(&mut out, "conceal ");
    push_decimal(&mut out, conceals);
    push_str(&mut out, "  \u{b7}  late ");
    push_decimal(&mut out, late);
    push_str(&mut out, "  \u{b7}  overflow ");
    push_decimal(&mut out, overflow);
    push_str(&mut out, "  \u{b7}  resync ");
    push_decimal(&mut out, resyncs);
    assert(out@ =~= rx_counters_text(conceals as nat, late as nat, overflow as nat, resyncs as nat));
    Some(string_from_chars(&out))
}

/// `underruns U  ·  overruns O`.
pub open spec fn tx_xrun_text(underruns: nat, overruns: nat) -> Seq<char> {
    "underruns "@ + decimal(underruns) + "  \u{b7}  overruns "@ + decimal(overruns)
}

/// Transmit-audio underrun/overrun counters, shown only when either is nonzero.
pub fn tx_xrun_note(underruns: u64, overruns: u64) -> (r: Option<String>)
    ensures
        r is Some <==> (underruns != 0 || overruns != 0),
        r matches Some(s) ==> s@ == tx_xrun_text(underruns as nat, overruns as nat),
{
    if underruns == 0 && overruns == 0 {
        return None;
    }
    let mut out: Vec<char> = Vec::new();
    push_str(&mut out, "underruns ");
    push_decimal(&mut out, underruns);
    push_str(&mut out, "  \u{b7}  overruns ");
    push_decimal(&mut out, overruns);
    assert(out@ =~= tx_xrun_text(underruns as nat, overruns as nat));
    Some(string_from_chars(&out))
}

/// VFO B's status-bar label: `B <dotted frequency>  <mode>`.
pub open spec fn vfo_b_badge_text(hz: nat, mode: DemodMode) -> Seq<char> {
    seq!['B', ' '] + dotted_decimal(hz) + seq![' ', ' '] + mode_label_text(mode)
}

/// VFO B's status-bar label, shown with split or dual-watch.
pub fn vfo_b_badge(hz: u64, mode: DemodMode) -> (s: String)
    ensures
        s@ == vfo_b_badge_text(hz as nat, mode),
{
    let mut out: Vec<char> = Vec::new();
    out.push('B');
    out.push(' ');
    push_dotted(&mut out, hz);
    out.push(' ');
    out.push(' ');
    push_str(&mut out, mode_label(mode));
    assert(out@ =~= vfo_b_badge_text(hz as nat, mode));
    string_from_chars(&out)
}

/// The split badge names the transmitting VFO: `SPLIT▶A` or `SPLIT▶B`.
pub fn split_badge(tx_is_b: bool) -> (s: &'static str)
    ensures
        s@ == (if tx_is_b { "SPLIT\u{25b6}B"@ } else { "SPLIT\u{25b6}A"@ }),
{
    if tx_is_b {
        "SPLIT\u{25b6}B"
    } else {
        "SPLIT\u{25b6}A"
    }
}

/// `s` with every `.` removed.
pub open spec fn remove_dots(s: Seq<char>) -> Seq<char>
    decreases s.len(),
{
    if s.len() == 0 {
        s
    } else if s.last() == '.' {
        remove_dots(s.drop_last())
    } else {
        remove_dots(s.drop_last()).push(s.last())
    }
}

proof fn lemma_remove_dots_concat(a: Seq<char>, b: Seq<char>)
    ensures
        remove_dots(a + b) == remove_dots(a) + remove_dots(b),
    decreases b.len(),
{
    if b.len() == 0 {
        assert(a + b =~= a);
        assert(remove_dots(a) + remove_dots(b) =~= remove_dots(a));
    } else {
        assert((a + b).drop_last() =~= a + b.drop_last());
        lemma_remove_dots_concat(a, b.drop_last());
        if b.last() == '.' {
        } else {
            assert(remove_dots(a + b) =~= remove_dots(a) + remove_dots(b));
        }
    }
}

proof fn lemma_remove_dots_digits(s: Seq<char>)
    requires
        forall|i: int| 0 <= i < s.len() ==> #[trigger] s[i] != '.',
    ensures
        remove_dots(s) == s,
    decreases s.len(),
{
    if s.len() > 0 {
        lemma_remove_dots_digits(s.drop_last());
        assert(s.drop_last().push(s.last()) =~= s);
    }
}

proof fn lemma_digit_not_dot(d: int)
    ensures
        digit_char(d) != '.',
{
}

proof fn lemma_decimal_no_dots(n: nat)
    ensures
        forall|i: int| 0 <= i < decimal(n).len() ==> #[trigger] decimal(n)[i] != '.',
    decreases n,
{
    if n >= 10 {
        lemma_decimal_no_dots(n / 10);
        lemma_digit_not_dot((n % 10) as int);
        let d = decimal(n / 10).push(digit_char((n % 10) as int));
        assert(decimal(n) == d);
        assert forall|i: int| 0 <= i < d.len() implies #[trigger] d[i] != '.' by {
            if i < decimal(n / 10).len() {
                assert(d[i] == decimal(n / 10)[i]);
            }
        }
    } else {
        lemma_digit_not_dot(n as int);
        assert(decimal(n) == seq![digit_char(n as int)]);
    }
}

/// Three zero-padded digits of a value below 1000.
proof fn lemma_padded3(m: nat)
    requires
        m < 1000,
    ensures
        decimal_padded(m, 3) == seq![digit_char((m / 100) as int), digit_char(((m / 10) % 10) as int), digit_char((m % 10) as int)],
{
    lemma_decimal_len(m);
    if m >= 100 {
        assert(decimal(m) == decimal(m / 10).push(digit_char((m % 10) as int)));
        assert(decimal(m / 10) == decimal(m / 100).push(digit_char(((m / 10) % 10) as int)));
        assert(decimal_padded(m, 3) =~= seq![digit_char((m / 100) as int), digit_char(((m / 10) % 10) as int), digit_char((m % 10) as int)]);
    } else if m >= 10 {
        assert(decimal(m) == decimal(m / 10).push(digit_char((m % 10) as int)));
        assert(decimal_padded(m, 3) =~= seq!['0'] + decimal(m));
        assert(decimal_padded(m, 3) =~= seq![digit_char((m / 100) as int), digit_char(((m / 10) % 10) as int), digit_char((m % 10) as int)]);
    } else {
        assert(decimal_padded(m, 3) =~= seq!['0', '0'] + decimal(m));
        assert(decimal_padded(m, 3) =~= seq![digit_char((m / 100) as int), digit_char(((m / 10) % 10) as int), digit_char((m % 10) as int)]);
    }
}

/// The digits of `n >= 1000` are those of `n / 1000` followed by the three
/// zero-padded digits of `n % 1000`.
proof fn lemma_decimal_split_thousands(n: nat)
    requires
        n >= 1000,
    ensures
        decimal(n) == decimal(n / 1000) + decimal_padded(n % 1000, 3),
{
    let a = n / 1000;
    let m = n % 1000;
    lemma_fundamental_div_mod_converse(n as int, 1000, a as int, m as int);
    lemma_fundamental_div_mod_converse(n as int, 100, (10 * a + m / 100) as int, (m % 100) as int);
    lemma_fundamental_div_mod_converse(n as int, 10, (100 * a + m / 10) as int, (m % 10) as int);
    lemma_fundamental_div_mod_converse((n / 10) as int, 10, (10 * a + m / 100) as int, ((m / 10) % 10) as int);
    lemma_fundamental_div_mod_converse((n / 100) as int, 10, a as int, ((m / 100) % 10) as int);
    lemma_fundamental_div_mod_converse(m as int, 100, (m / 100) as int, (m % 100) as int);
    lemma_fundamental_div_mod_converse(m as int, 10, (m / 10) as int, (m % 10) as int);
    lemma_fundamental_div_mod_converse((m / 10) as int, 10, (m / 100) as int, ((m / 10) % 10) as int);
    assert(decimal(n) == decimal(n / 10).push(digit_char((n % 10) as int)));
    assert(decimal(n / 10) == decimal(n / 100).push(digit_char(((n / 10) % 10) as int)));
    assert(decimal(n / 100) == decimal(n / 1000).push(digit_char(((n / 100) % 10) as int)));
    lemma_padded3(m);
    assert(decimal(n) =~= decimal(n / 1000) + decimal_padded(n % 1000, 3));
}

/// Removing the thousands separators from a dotted frequency gives back its
/// plain decimal digits.
pub proof fn law_dotted_digits(hz: nat)
    ensures
        remove_dots(dotted_decimal(hz)) == decimal(hz),
    decreases hz,
{
    if hz < 1000 {
        lemma_decimal_no_dots(hz);
        lemma_remove_dots_digits(decimal(hz));
    } else {
        law_dotted_digits(hz / 1000);
        let head = dotted_decimal(hz / 1000);
        let tail = decimal_padded(hz % 1000, 3);
        lemma_padded3(hz % 1000);
        lemma_digit_not_dot(((hz % 1000) / 100) as int);
        lemma_digit_not_dot((((hz % 1000) / 10) % 10) as int);
        lemma_digit_not_dot(((hz % 1000) % 10) as int);
        lemma_remove_dots_digits(tail);
        lemma_remove_dots_concat(head, seq!['.']);
        lemma_remove_dots_concat(head + seq!['.'], tail);
        assert(remove_dots(seq!['.']) =~= Seq::<char>::empty()) by {
            let dot = seq!['.'];
            assert(dot.len() == 1);
            assert(dot.last() == '.');
            assert(dot.drop_last() =~= Seq::<char>::empty());
            assert(remove_dots(dot) == remove_dots(dot.drop_last()));
            assert(remove_dots(Seq::<char>::empty()) == Seq::<char>::empty());
        }
        lemma_decimal_split_thousands(hz);
        assert(remove_dots(head) + remove_dots(seq!['.']) =~= remove_dots(head));
    }
}

} // verus!
