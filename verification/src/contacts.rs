use vstd::prelude::*;
use vstd::string::StringExecFns;
use crate::names::{ascii_lower, trim_ws, trimmed_chars};
use crate::problems::lower_seq;
use crate::text::{str_chars, string_from_chars};

verus! {

/// ASCII upper-casing (other characters unchanged).
pub open spec fn ascii_upper(c: char) -> char {
    if 'a' <= c <= 'z' {
        ((c as int) - 32) as char
    } else {
        c
    }
}

/// `str::to_ascii_uppercase`.
pub open spec fn upper_seq(cs: Seq<char>) -> Seq<char> {
    cs.map_values(|c: char| ascii_upper(c))
}

pub open spec fn is_ascii_digit(c: char) -> bool {
    '0' <= c <= '9'
}

pub open spec fn all_digits(cs: Seq<char>) -> bool {
    forall|i: int| 0 <= i < cs.len() ==> is_ascii_digit(#[trigger] cs[i])
}

/// A form field as stored: trimmed, or nothing when blank.
pub open spec fn opt_field(cs: Seq<char>) -> Option<Seq<char>> {
    if trim_ws(cs).len() == 0 {
        None
    } else {
        Some(trim_ws(cs))
    }
}

pub open spec fn opt_string_view(o: Option<String>) -> Option<Seq<char>> {
    match o {
        Some(s) => Some(s@),
        None => None,
    }
}

fn upper_char(c: char) -> (r: char)
    ensures
        r == ascii_upper(c),
{
    if 'a' <= c && c <= 'z' {
        let b = (c as u32 - 32) as u8;
        assert(b as int == c as int - 32);
        b as char
    } else {
        c
    }
}

/// Trimmed and ASCII upper-cased characters of `s`.
fn trimmed_upper(s: &str) -> (v: Vec<char>)
    ensures
        v@ == upper_seq(trim_ws(s@)),
{
    let t = trimmed_chars(s);
    let n = t.len();
    let mut v: Vec<char> = Vec::new();
    for i in 0..n
        invariant
            n == t.len(),
            t@ == trim_ws(s@),
            v@ == upper_seq(t@.take(i as int)),
    {
        v.push(upper_char(t[i]));
        assert(v@ =~= upper_seq(t@.take(i + 1)));
    }
    assert(t@.take(n as int) =~= t@);
    v
}

fn digits_only(v: &Vec<char>) -> (r: bool)
    ensures
        r == all_digits(v@),
{
    let n = v.len();
    for i in 0..n
        invariant
            n == v.len(),
            forall|k: int| 0 <= k < i ==> is_ascii_digit(#[trigger] v@[k]),
    {
        if !('0' <= v[i] && v[i] <= '9') {
            return false;
        }
    }
    true
}

fn opt_trimmed(s: &str) -> (r: Option<String>)
    ensures
        opt_string_view(r) == opt_field(s@),
{
    let t = trimmed_chars(s);
    if t.len() == 0 {
        None
    } else {
        Some(string_from_chars(&t))
    }
}

/// The edit form of a logged contact, as typed.
#[derive(Debug, Clone)]
pub struct ContactForm {
    pub call: String,
    pub qso_date: String,
    pub time_on: String,
    pub mode: String,
    pub rst_sent: String,
    pub rst_rcvd: String,
    pub gridsquare: String,
}

/// The columns of a contact that a valid form sets.
#[derive(Debug, Clone, PartialEq, Eq)]
pub struct ContactFields {
    pub call: String,
    pub qso_date: String,
    pub time_on: String,
    pub mode: String,
    pub rst_sent: Option<String>,
    pub rst_rcvd: Option<String>,
    pub gridsquare: Option<String>,
}

/// The first message the form is refused with, if any.
pub open spec fn contact_form_error(f: ContactForm) -> Option<Seq<char>> {
    let date = trim_ws(f.qso_date@);
    let time = trim_ws(f.time_on@);
    if trim_ws(f.call@).len() == 0 {
        Some("Call is required."@)
    } else if !(date.len() == 8 && all_digits(date)) {
        Some("Date must be 8 digits, YYYYMMDD."@)
    } else if !((time.len() == 4 || time.len() == 6) && all_digits(time)) {
        Some("Time must be HHMM or HHMMSS."@)
    } else if trim_ws(f.mode@).len() == 0 {
        Some("Mode is required."@)
    } else {
        None
    }
}

/// What a valid form stores: call and mode trimmed and upper-cased, date and
/// time trimmed, the optional fields trimmed or dropped when blank.
pub open spec fn contact_fields_of(f: ContactForm, c: ContactFields) -> bool {
    &&& c.call@ == upper_seq(trim_ws(f.call@))
    &&& c.qso_date@ == trim_ws(f.qso_date@)
    &&& c.time_on@ == trim_ws(f.time_on@)
    &&& c.mode@ == upper_seq(trim_ws(f.mode@))
    &&& opt_string_view(c.rst_sent) == opt_field(f.rst_sent@)
    &&& opt_string_view(c.rst_rcvd) == opt_field(f.rst_rcvd@)
    &&& opt_string_view(c.gridsquare) == opt_field(f.gridsquare@)
}

impl ContactForm {
    /// Check the edited contact and produce the columns it sets; `Err` holds
    /// the message to show under the form (nothing is saved then).  The
    /// frequency field is parsed separately.
    pub fn validate(&self) -> (r: Result<ContactFields, String>)
        ensures
            r is Err <==> contact_form_error(*self) is Some,
            r matches Err(e) ==> Some(e@) == contact_form_error(*self),
            r matches Ok(c) ==> contact_fields_of(*self, c),
    {
        let call = trimmed_upper(self.call.as_str());
        if call.len() == 0 {
            return Err(String::from_str("Call is required."));
        }
        let date = trimmed_chars(self.qso_date.as_str());
        if !(date.len() == 8 && digits_only(&date)) {
            return Err(String::from_str("Date must be 8 digits, YYYYMMDD."));
        }
        let time = trimmed_chars(self.time_on.as_str());
        if !((time.len() == 4 || time.len() == 6) && digits_only(&time)) {
            return Err(String::from_str("Time must be HHMM or HHMMSS."));
        }
        let mode = trimmed_upper(self.mode.as_str());
        if mode.len() == 0 {
            return Err(String::from_str("Mode is required."));
        }
        Ok(ContactFields {
            call: string_from_chars(&call),
            qso_date: string_from_chars(&date),
            time_on: string_from_chars(&time),
            mode: string_from_chars(&mode),
            rst_sent: opt_trimmed(self.rst_sent.as_str()),
            rst_rcvd: opt_trimmed(self.rst_rcvd.as_str()),
            gridsquare: opt_trimmed(self.gridsquare.as_str()),
        })
    }
}

/// Value of a string of decimal digits.
pub open spec fn digits_value(cs: Seq<char>) -> nat
    decreases cs.len(),
{
    if cs.len() == 0 {
        0
    } else {
        digits_value(cs.drop_last()) * 10 + ((cs.last() as int) - ('0' as int)) as nat
    }
}

/// `str::parse::<u64>`: an optional `+`, then at least one ASCII digit and
/// nothing else, with a value that fits in 64 bits.
pub open spec fn parse_u64_spec(s: Seq<char>) -> Option<u64> {
    let t = if s.len() > 0 && s[0] == '+' {
        s.drop_first()
    } else {
        s
    };
    if t.len() == 0 || !all_digits(t) || digits_value(t) > u64::MAX {
        None
    } else {
        Some(digits_value(t) as u64)
    }
}

proof fn lemma_digits_value_grows(cs: Seq<char>, i: int)
    requires
        0 <= i <= cs.len(),
        all_digits(cs),
    ensures
        digits_value(cs.take(i)) <= digits_value(cs),
    decreases cs.len() - i,
{
    if i < cs.len() {
        lemma_digits_value_grows(cs, i + 1);
        assert(cs.take(i + 1).drop_last() =~= cs.take(i));
        assert(is_ascii_digit(cs[i]));
    } else {
        assert(cs.take(i) =~= cs);
    }
}

/// Parse a decimal `u64` the way `str::parse::<u64>` does.
pub fn parse_u64(s: &str) -> (r: Option<u64>)
    ensures
        r == parse_u64_spec(s@),
{
    let cs = str_chars(s);
    let start: usize = if cs.len() > 0 && cs[0] == '+' {
        1
    } else {
        0
    };
    let ghost t = if s@.len() > 0 && s@[0] == '+' {
        s@.drop_first()
    } else {
        s@
    };
    assert(t =~= cs@.skip(start as int));
    let n = cs.len();
    if start == n {
        return None;
    }
    let mut acc: u64 = 0;
    let mut i: usize = start;
    while i < n
        invariant
            n == cs.len(),
            cs@ == s@,
            start <= i <= n,
            start < n,
            t == cs@.skip(start as int),
            t == (if s@.len() > 0 && s@[0] == '+' { s@.drop_first() } else { s@ }),
            all_digits(t.take(i - start)),
            acc as nat == digits_value(t.take(i - start)),
        decreases n - i,
    {
        let c = cs[i];
        assert(t[i - start] == c);
        if !('0' <= c && c <= '9') {
            assert(!all_digits(t));
            return None;
        }
        let d = (c as u32 - '0' as u32) as u64;
        assert(t.take(i - start + 1).drop_last() =~= t.take(i - start));
        assert(t.take(i - start + 1).last() == c);
        assert(digits_value(t.take(i - start + 1)) == digits_value(t.take(i - start)) * 10 + d);
        proof {
            assert forall|k: int| 0 <= k < t.take(i - start + 1).len() implies is_ascii_digit(#[trigger] t.take(i - start + 1)[k]) by {
                if k < i - start {
                    assert(t.take(i - start + 1)[k] == t.take(i - start)[k]);
                }
            }
        }
        match acc.checked_mul(10) {
            Some(m) => {
                match m.checked_add(d) {
                    Some(v) => {
                        acc = v;
                    },
                    None => {
                        proof {
                            if all_digits(t) {
                                lemma_digits_value_grows(t, i - start + 1);
                            }
                        }
                        return None;
                    },
                }
            },
            None => {
                proof {
                    if all_digits(t) {
                        lemma_digits_value_grows(t, i - start + 1);
                    }
                }
                return None;
            },
        }
        i = i + 1;
    }
    assert(t.take(n - start) =~= t);
    Some(acc)
}

/// The manual log entry form, as typed.
#[derive(Debug, Clone)]
pub struct LogEntryForm {
    pub call: String,
    pub rst_sent: String,
    pub rst_rcvd: String,
    pub name: String,
    pub comment: String,
    pub gridsquare: String,
    /// Receive frequency in Hz, as typed (kept only for a split contact).
    pub freq_rx_hz: String,
    pub split_active: bool,
}

/// The columns a saved manual entry sets.
#[derive(Debug, Clone, PartialEq, Eq)]
pub struct LogEntryFields {
    pub call: String,
    pub rst_sent: Option<String>,
    pub rst_rcvd: Option<String>,
    pub gridsquare: Option<String>,
    /// The `NAME` column, when given.
    pub name: Option<String>,
    /// The `COMMENT` column, when given.
    pub comment: Option<String>,
    pub freq_rx_hz: Option<u64>,
}

/// What a saved manual entry stores.
pub open spec fn log_entry_fields_of(f: LogEntryForm, e: LogEntryFields) -> bool {
    &&& e.call@ == upper_seq(trim_ws(f.call@))
    &&& opt_string_view(e.rst_sent) == opt_field(f.rst_sent@)
    &&& opt_string_view(e.rst_rcvd) == opt_field(f.rst_rcvd@)
    &&& opt_string_view(e.gridsquare) == opt_field(f.gridsquare@)
    &&& opt_string_view(e.name) == opt_field(f.name@)
    &&& opt_string_view(e.comment) == opt_field(f.comment@)
    &&& e.freq_rx_hz == (if f.split_active { parse_u64_spec(trim_ws(f.freq_rx_hz@)) } else { None })
}

impl LogEntryForm {
    /// The columns of the contact to log; refused with `callsign required`
    /// when the call is blank.  The receive frequency is kept only for a split
    /// contact, and only when it parses.
    pub fn fields(&self) -> (r: Result<LogEntryFields, String>)
        ensures
            r is Err <==> trim_ws(self.call@).len() == 0,
            r matches Err(e) ==> e@ == "callsign required"@,
            r matches Ok(e) ==> log_entry_fields_of(*self, e),
    {
        let call = trimmed_upper(self.call.as_str());
        if call.len() == 0 {
            return Err(String::from_str("callsign required"));
        }
        let freq_rx_hz = if self.split_active {
            let t = trimmed_chars(self.freq_rx_hz.as_str());
            let ts = string_from_chars(&t);
            parse_u64(ts.as_str())
        } else {
            None
        };
        Ok(LogEntryFields {
            call: string_from_chars(&call),
            rst_sent: opt_trimmed(self.rst_sent.as_str()),
            rst_rcvd: opt_trimmed(self.rst_rcvd.as_str()),
            gridsquare: opt_trimmed(self.gridsquare.as_str()),
            name: opt_trimmed(self.name.as_str()),
            comment: opt_trimmed(self.comment.as_str()),
            freq_rx_hz,
        })
    }
}

/// `a.eq_ignore_ascii_case(b)`: equal once ASCII letters are lower-cased.
pub open spec fn eq_ignore_ascii_case(a: Seq<char>, b: Seq<char>) -> bool {
    lower_seq(a) == lower_seq(b)
}

fn lower_char(c: char) -> (r: char)
    ensures
        r == ascii_lower(c),
{
    if 'A' <= c && c <= 'Z' {
        let b = (c as u32 + 32) as u8;
        assert(b as int == c as int + 32);
        b as char
    } else {
        c
    }
}

fn chars_eq_ignore_ascii_case(a: &Vec<char>, b: &Vec<char>) -> (r: bool)
    ensures
        r == eq_ignore_ascii_case(a@, b@),
{
    if a.len() != b.len() {
        assert(lower_seq(a@).len() != lower_seq(b@).len());
        return false;
    }
    let n = a.len();
    for i in 0..n
        invariant
            n == a.len(),
            n == b.len(),
            forall|k: int| 0 <= k < i ==> ascii_lower(#[trigger] a@[k]) == ascii_lower(b@[k]),
    {
        if lower_char(a[i]) != lower_char(b[i]) {
            assert(lower_seq(a@)[i as int] != lower_seq(b@)[i as int]);
            return false;
        }
    }
    assert(lower_seq(a@) =~= lower_seq(b@));
    true
}

/// A callsign-lookup reply is shown only when it answers the latest query
/// (`seq`) and echoes the callsign now in the lookup field (trimmed, ASCII
/// case ignored); any other reply is stale and dropped.
pub open spec fn call_reply_current(seq: u64, call: Seq<char>, current_seq: u64, lookup: Seq<char>) -> bool {
    seq == current_seq && eq_ignore_ascii_case(call, trim_ws(lookup))
}

/// Whether a callsign-lookup reply belongs to the lookup on screen.
pub fn call_reply_is_current(seq: u64, call: &str, current_seq: u64, lookup: &str) -> (r: bool)
    ensures
        r == call_reply_current(seq, call@, current_seq, lookup@),
{
    if seq != current_seq {
        return false;
    }
    let c = str_chars(call);
    let l = trimmed_chars(lookup);
    chars_eq_ignore_ascii_case(&c, &l)
}

} // verus!
