use vstd::prelude::*;
use vstd::string::StringExecFns;
use crate::names::ascii_lower;
use crate::text::{push_all, push_str, str_chars, string_from_chars};
use crate::state::UiState;
use crate::status::Rgb;

verus! {

/// Severity of a surfaced [`Problem`].
#[derive(Debug, Clone, Copy, PartialEq, Eq, Structural)]
pub enum ProblemSeverity {
    /// A subsystem the operator is relying on is broken (rendered red).
    Error,
    /// A subsystem that may not be in use is degraded/unavailable (orange).
    Warning,
}

/// A single user-facing problem surfaced in the status-bar badge and the
/// "Status / Problems" panel.
#[derive(Debug, Clone)]
pub struct Problem {
    pub severity: ProblemSeverity,
    /// Short subsystem label, e.g. "Server", "Amplifier", "rigctl".
    pub source: &'static str,
    /// Human-readable reason, including the underlying error where available.
    pub detail: String,
}

/// What a problem shows: severity, source label and detail text.
pub type ProblemView = (ProblemSeverity, Seq<char>, Seq<char>);

pub open spec fn problem_view(p: Problem) -> ProblemView {
    (p.severity, p.source@, p.detail@)
}

pub open spec fn problems_view(ps: Seq<Problem>) -> Seq<ProblemView> {
    ps.map_values(|p: Problem| problem_view(p))
}

/// `needle` occurs in `hay`.
pub open spec fn contains_seq(hay: Seq<char>, needle: Seq<char>) -> bool {
    exists|i: int| 0 <= i && i + needle.len() <= hay.len() && #[trigger] hay.subrange(i, i + needle.len()) == needle
}

pub open spec fn lower_seq(cs: Seq<char>) -> Seq<char> {
    cs.map_values(|c: char| ascii_lower(c))
}

/// The server status reports a failure.
pub open spec fn server_failed(status: Seq<char>) -> bool {
    let l = lower_seq(status);
    contains_seq(l, "fail"@) || contains_seq(l, "error"@) || contains_seq(l, "already has a client"@)
}

/// The server status reports an automatic recovery in progress.
pub open spec fn server_recovering(status: Seq<char>) -> bool {
    let l = lower_seq(status);
    !server_failed(status) && (contains_seq(l, "reconnecting"@) || contains_seq(l, "re-acquiring"@))
}

pub open spec fn opt_view(o: Option<String>) -> Option<Seq<char>> {
    match o {
        Some(s) => Some(s@),
        None => None,
    }
}

/// One entry when `cond` holds, none otherwise.
pub open spec fn if_item(cond: bool, item: ProblemView) -> Seq<ProblemView> {
    if cond {
        seq![item]
    } else {
        Seq::empty()
    }
}

/// `names` joined with `sep` between consecutive names.
pub open spec fn join(names: Seq<Seq<char>>, sep: Seq<char>) -> Seq<char>
    decreases names.len(),
{
    if names.len() == 0 {
        Seq::empty()
    } else if names.len() == 1 {
        names[0]
    } else {
        join(names.drop_last(), sep) + sep + names.last()
    }
}

/// The digital-audio endpoints that are down, with their failure reasons, in
/// the order output, RX, input.
pub open spec fn digital_down(s: UiState) -> Seq<(Seq<char>, Option<Seq<char>>)> {
    (if !s.digital_output_available { seq![("RigflowDigitalOutput"@, opt_view(s.digital_output_reason))] } else { Seq::empty() })
    + (if !s.digital_rx_available { seq![("RigflowDigitalRX"@, opt_view(s.digital_rx_reason))] } else { Seq::empty() })
    + (if !s.digital_input_available { seq![("RigflowDigitalInput"@, opt_view(s.digital_input_reason))] } else { Seq::empty() })
}

/// The first recorded reason among the given down endpoints, if any.
pub open spec fn first_reason(down: Seq<(Seq<char>, Option<Seq<char>>)>) -> Option<Seq<char>>
    decreases down.len(),
{
    if down.len() == 0 {
        None
    } else {
        let earlier = first_reason(down.drop_last());
        if earlier is Some {
            earlier
        } else {
            down.last().1
        }
    }
}

/// Detail line of the collapsed digital-audio warning.
pub open spec fn digital_detail(s: UiState) -> Seq<char> {
    let down = digital_down(s);
    let reason = match first_reason(down) {
        Some(r) => r,
        None => "unavailable (PipeWire/pactl not running?)"@,
    };
    join(down.map_values(|d: (Seq<char>, Option<Seq<char>>)| d.0), ", "@) + " unavailable: "@ + reason
}

/// The problems that a status snapshot shows: errors (server failure,
/// amplifier, unresponsive radio) before warnings (server recovering, rigctl,
/// digital audio, microphone, persistence).
pub open spec fn expected_problems(s: UiState) -> Seq<ProblemView> {
    expected_errors(s) + expected_warnings(s)
}

/// The error entries, in order: server failure, amplifier, unresponsive radio.
pub open spec fn expected_errors(s: UiState) -> Seq<ProblemView> {
    if_item(server_failed(s.server_status@), (ProblemSeverity::Error, "Server"@, s.server_status@))
    + if_item(s.amplifier_status.last_error is Some,
        (ProblemSeverity::Error, "Amplifier"@, opt_view(s.amplifier_status.last_error).unwrap_or(Seq::empty())))
    + if_item(s.radio_acquired && s.source_status.device_responding == Some(false),
        (ProblemSeverity::Error, "Radio"@, "not responding (no data from device)"@))
}

/// The warning entries, in order: server recovering, rigctl, digital audio,
/// microphone, persistence.
pub open spec fn expected_warnings(s: UiState) -> Seq<ProblemView> {
    if_item(server_recovering(s.server_status@), (ProblemSeverity::Warning, "Server"@, s.server_status@))
    + if_item(s.rigctl_status is Some,
        (ProblemSeverity::Warning, "rigctl"@, opt_view(s.rigctl_status).unwrap_or(Seq::empty())))
    + if_item(s.digital_audio_platform && digital_down(s).len() > 0,
        (ProblemSeverity::Warning, "Digital Audio"@, digital_detail(s)))
    + if_item(s.mic_status@.len() > 0, (ProblemSeverity::Warning, "Microphone"@, s.mic_status@))
    + if_item(s.persistence_status@.len() > 0, (ProblemSeverity::Warning, "Persistence"@, s.persistence_status@))
}

/// ASCII-lower-cased characters of a string.
fn lowercase_chars(s: &String) -> (v: Vec<char>)
    ensures
        v@ == lower_seq(s@),
{
    let cs = str_chars(s.as_str());
    let n = cs.len();
    let mut v: Vec<char> = Vec::new();
    for i in 0..n
        invariant
            n == cs.len(),
            cs@ == s@,
            v@ == cs@.take(i as int).map_values(|c: char| ascii_lower(c)),
    {
        let c = cs[i];
        let l = if 'A' <= c && c <= 'Z' {
            let b = (c as u32 + 32) as u8;
            b as char
        } else {
            c
        };
        v.push(l);
        assert(cs@.take(i + 1) =~= cs@.take(i as int).push(c));
        assert(v@ =~= cs@.take(i + 1).map_values(|c: char| ascii_lower(c)));
    }
    assert(cs@.take(n as int) =~= cs@);
    v
}

/// Whether `needle` occurs in `hay`.
fn contains_chars(hay: &Vec<char>, needle: &str) -> (r: bool)
    ensures
        r == contains_seq(hay@, needle@),
{
    let nd = str_chars(needle);
    let h = hay.len();
    let m = nd.len();
    if m > h {
        assert(!contains_seq(hay@, needle@));
        return false;
    }
    let mut i: usize = 0;
    while i <= h - m
        invariant
            h == hay.len(),
            m == nd.len(),
            nd@ == needle@,
            m <= h,
            i <= h - m + 1,
            forall|q: int| 0 <= q < i ==> #[trigger] hay@.subrange(q, q + m) != needle@,
        decreases h - m + 1 - i,
    {
        let mut k: usize = 0;
        while k < m && hay[i + k] == nd[k]
            invariant
                h == hay.len(),
                m == nd.len(),
                i + m <= h,
                k <= m,
                forall|q: int| 0 <= q < k ==> hay@[i + q] == nd@[q],
            decreases m - k,
        {
            k = k + 1;
        }
        if k == m {
            assert(hay@.subrange(i as int, i + m) =~= needle@);
            return true;
        }
        assert(hay@.subrange(i as int, i + m)[k as int] != needle@[k as int]);
        i = i + 1;
    }
    assert(!contains_seq(hay@, needle@));
    false
}

fn make_problem(severity: ProblemSeverity, source: &'static str, detail: String) -> (p: Problem)
    ensures
        problem_view(p) == (severity, source@, detail@),
{
    Problem { severity, source, detail }
}

fn push_problem(v: &mut Vec<Problem>, severity: ProblemSeverity, source: &'static str, detail: String)
    ensures
        problems_view(final(v)@) == problems_view(old(v)@).push((severity, source@, detail@)),
{
    let p = make_problem(severity, source, detail);
    v.push(p);
    assert(problems_view(v@) =~= problems_view(old(v)@).push((severity, source@, detail@)));
}


fn opt_string_clone(o: &Option<String>) -> (r: Option<String>)
    ensures
        opt_view(r) == opt_view(*o),
{
    match o {
        Some(s) => Some(s.clone()),
        None => None,
    }
}

/// Record one digital-audio endpoint in the collapsed warning: when it is
/// down, its name joins the list and its reason is kept if none was yet.
fn note_endpoint(
    names: &mut Vec<char>,
    count: &mut usize,
    reason: &mut Option<String>,
    available: bool,
    name: &str,
    why: &Option<String>,
    Ghost(down): Ghost<Seq<(Seq<char>, Option<Seq<char>>)>>,
) -> (new_down: Ghost<Seq<(Seq<char>, Option<Seq<char>>)>>)
    requires
        *old(count) == down.len(),
        *old(count) < 3,
        old(names)@ == join(down.map_values(|d: (Seq<char>, Option<Seq<char>>)| d.0), ", "@),
        opt_view(*old(reason)) == first_reason(down),
    ensures
        new_down@ == if available { down } else { down.push((name@, opt_view(*why))) },
        *final(count) == new_down@.len(),
        final(names)@ == join(new_down@.map_values(|d: (Seq<char>, Option<Seq<char>>)| d.0), ", "@),
        opt_view(*final(reason)) == first_reason(new_down@),
{
    if available {
        return Ghost(down);
    }
    let ghost nd = down.push((name@, opt_view(*why)));
    if *count > 0 {
        push_str(names, ", ");
    }
    push_str(names, name);
    *count = *count + 1;
    if reason.is_none() {
        *reason = opt_string_clone(why);
    }
    proof {
        let f = |d: (Seq<char>, Option<Seq<char>>)| d.0;
        assert(nd.map_values(f).drop_last() =~= down.map_values(f));
        assert(nd.drop_last() =~= down);
        if down.len() == 0 {
            assert(nd.map_values(f) =~= seq![name@]);
            assert(names@ =~= join(nd.map_values(f), ", "@));
        } else {
            assert(names@ =~= join(nd.map_values(f), ", "@));
        }
    }
    Ghost(nd)
}

/// Detail text of the collapsed digital-audio warning, when it is due.
fn digital_audio_detail(s: &UiState) -> (r: Option<String>)
    ensures
        r is Some <==> (s.digital_audio_platform && digital_down(*s).len() > 0),
        r is Some ==> r->0@ == digital_detail(*s),
{
    if !s.digital_audio_platform {
        return None;
    }
    let mut names: Vec<char> = Vec::new();
    let mut count: usize = 0;
    let mut reason: Option<String> = None;
    proof {
        assert(Seq::<(Seq<char>, Option<Seq<char>>)>::empty().map_values(|d: (Seq<char>, Option<Seq<char>>)| d.0) =~= Seq::<Seq<char>>::empty());
    }
    let d1 = note_endpoint(&mut names, &mut count, &mut reason, s.digital_output_available,
        "RigflowDigitalOutput", &s.digital_output_reason, Ghost(Seq::empty()));
    let d2 = note_endpoint(&mut names, &mut count, &mut reason, s.digital_rx_available,
        "RigflowDigitalRX", &s.digital_rx_reason, d1);
    let d3 = note_endpoint(&mut names, &mut count, &mut reason, s.digital_input_available,
        "RigflowDigitalInput", &s.digital_input_reason, d2);
    proof {
        assert(d3@ =~= digital_down(*s));
    }
    if count == 0 {
        return None;
    }
    let mut detail = names;
    push_str(&mut detail, " unavailable: ");
    match &reason {
        Some(r) => {
            let rc = str_chars(r.as_str());
            push_all(&mut detail, &rc);
        },
        None => {
            push_str(&mut detail, "unavailable (PipeWire/pactl not running?)");
        },
    }
    proof {
        assert(detail@ =~= digital_detail(*s));
    }
    Some(string_from_chars(&detail))
}

/// Whether the lower-cased server status reports a failure, and whether it
/// reports a recovery in progress.
fn server_state(s: &UiState) -> (r: (bool, bool))
    ensures
        r.0 == server_failed(s.server_status@),
        r.1 == server_recovering(s.server_status@),
{
    let server = lowercase_chars(&s.server_status);
    let failed = contains_chars(&server, "fail") || contains_chars(&server, "error")
        || contains_chars(&server, "already has a client");
    let recovering = !failed && (contains_chars(&server, "reconnecting") || contains_chars(&server, "re-acquiring"));
    (failed, recovering)
}

fn collect_errors(s: &UiState, failed: bool) -> (r: Vec<Problem>)
    requires
        failed == server_failed(s.server_status@),
    ensures
        problems_view(r@) == expected_errors(*s),
{
    let mut errors: Vec<Problem> = Vec::new();
    if failed {
        push_problem(&mut errors, ProblemSeverity::Error, "Server", s.server_status.clone());
    }
    match &s.amplifier_status.last_error {
        Some(err) => {
            push_problem(&mut errors, ProblemSeverity::Error, "Amplifier", err.clone());
        },
        None => {},
    }
    let not_responding = match s.source_status.device_responding {
        Some(b) => !b,
        None => false,
    };
    if s.radio_acquired && not_responding {
        push_problem(&mut errors, ProblemSeverity::Error, "Radio", String::from_str("not responding (no data from device)"));
    }
    assert(problems_view(errors@) =~= expected_errors(*s));
    errors
}

fn collect_warnings(s: &UiState, recovering: bool) -> (r: Vec<Problem>)
    requires
        recovering == server_recovering(s.server_status@),
    ensures
        problems_view(r@) == expected_warnings(*s),
{
    let mut warnings: Vec<Problem> = Vec::new();
    let ghost w1 = if_item(server_recovering(s.server_status@), (ProblemSeverity::Warning, "Server"@, s.server_status@));
    let ghost w2 = if_item(s.rigctl_status is Some,
        (ProblemSeverity::Warning, "rigctl"@, opt_view(s.rigctl_status).unwrap_or(Seq::empty())));
    let ghost w3 = if_item(s.digital_audio_platform && digital_down(*s).len() > 0,
        (ProblemSeverity::Warning, "Digital Audio"@, digital_detail(*s)));
    let ghost w4 = if_item(s.mic_status@.len() > 0, (ProblemSeverity::Warning, "Microphone"@, s.mic_status@));
    let ghost w5 = if_item(s.persistence_status@.len() > 0, (ProblemSeverity::Warning, "Persistence"@, s.persistence_status@));
    assert(problems_view(warnings@) =~= Seq::<ProblemView>::empty());
    if recovering {
        push_problem(&mut warnings, ProblemSeverity::Warning, "Server", s.server_status.clone());
    }
    assert(problems_view(warnings@) =~= w1);
    match &s.rigctl_status {
        Some(reason) => {
            push_problem(&mut warnings, ProblemSeverity::Warning, "rigctl", reason.clone());
        },
        None => {},
    }
    assert(problems_view(warnings@) =~= w1 + w2);
    match digital_audio_detail(s) {
        Some(detail) => {
            push_problem(&mut warnings, ProblemSeverity::Warning, "Digital Audio", detail);
        },
        None => {},
    }
    assert(problems_view(warnings@) =~= w1 + w2 + w3);
    if !s.mic_status.as_str().is_empty() {
        push_problem(&mut warnings, ProblemSeverity::Warning, "Microphone", s.mic_status.clone());
    }
    assert(problems_view(warnings@) =~= w1 + w2 + w3 + w4);
    if !s.persistence_status.as_str().is_empty() {
        push_problem(&mut warnings, ProblemSeverity::Warning, "Persistence", s.persistence_status.clone());
    }
    assert(problems_view(warnings@) =~= w1 + w2 + w3 + w4 + w5);
    warnings
}

/// Turn the status snapshot into the list of active problems: errors
/// are ordered before warnings, so the status-bar badge count and the panel
/// list always agree.
pub fn collect_problems(s: &UiState) -> (r: Vec<Problem>)
    ensures
        problems_view(r@) == expected_problems(*s),
{
    let (failed, recovering) = server_state(s);
    let mut errors = collect_errors(s, failed);
    let mut warnings = collect_warnings(s, recovering);
    let ghost ev = problems_view(errors@);
    let ghost wv = problems_view(warnings@);
    errors.append(&mut warnings);
    proof {
        assert(problems_view(errors@) =~= ev + wv);
    }
    errors
}


/// Every entry of `ps` has severity `sev`.
pub open spec fn all_severity(ps: Seq<ProblemView>, sev: ProblemSeverity) -> bool {
    forall|i: int| 0 <= i < ps.len() ==> (#[trigger] ps[i]).0 == sev
}

proof fn lemma_all_severity_concat(a: Seq<ProblemView>, b: Seq<ProblemView>, sev: ProblemSeverity)
    requires
        all_severity(a, sev),
        all_severity(b, sev),
    ensures
        all_severity(a + b, sev),
{
    assert forall|i: int| 0 <= i < (a + b).len() implies (#[trigger] (a + b)[i]).0 == sev by {
        if i < a.len() {
            assert((a + b)[i] == a[i]);
        } else {
            assert((a + b)[i] == b[i - a.len()]);
        }
    }
}

proof fn lemma_errors_are_errors(s: UiState)
    ensures
        all_severity(expected_errors(s), ProblemSeverity::Error),
{
    let e1 = if_item(server_failed(s.server_status@), (ProblemSeverity::Error, "Server"@, s.server_status@));
    let e2 = if_item(s.amplifier_status.last_error is Some,
        (ProblemSeverity::Error, "Amplifier"@, opt_view(s.amplifier_status.last_error).unwrap_or(Seq::empty())));
    let e3 = if_item(s.radio_acquired && s.source_status.device_responding == Some(false),
        (ProblemSeverity::Error, "Radio"@, "not responding (no data from device)"@));
    lemma_all_severity_concat(e1, e2, ProblemSeverity::Error);
    lemma_all_severity_concat(e1 + e2, e3, ProblemSeverity::Error);
}

proof fn lemma_warnings_are_warnings(s: UiState)
    ensures
        all_severity(expected_warnings(s), ProblemSeverity::Warning),
{
    let w1 = if_item(server_recovering(s.server_status@), (ProblemSeverity::Warning, "Server"@, s.server_status@));
    let w2 = if_item(s.rigctl_status is Some,
        (ProblemSeverity::Warning, "rigctl"@, opt_view(s.rigctl_status).unwrap_or(Seq::empty())));
    let w3 = if_item(s.digital_audio_platform && digital_down(s).len() > 0,
        (ProblemSeverity::Warning, "Digital Audio"@, digital_detail(s)));
    let w4 = if_item(s.mic_status@.len() > 0, (ProblemSeverity::Warning, "Microphone"@, s.mic_status@));
    let w5 = if_item(s.persistence_status@.len() > 0, (ProblemSeverity::Warning, "Persistence"@, s.persistence_status@));
    lemma_all_severity_concat(w1, w2, ProblemSeverity::Warning);
    lemma_all_severity_concat(w1 + w2, w3, ProblemSeverity::Warning);
    lemma_all_severity_concat(w1 + w2 + w3, w4, ProblemSeverity::Warning);
    lemma_all_severity_concat(w1 + w2 + w3 + w4, w5, ProblemSeverity::Warning);
}

/// Errors are listed before warnings: the problem list is its error entries
/// (all of severity Error) followed by its warning entries (all Warning).
pub proof fn law_errors_before_warnings(s: UiState)
    ensures
        all_severity(expected_errors(s), ProblemSeverity::Error),
        all_severity(expected_warnings(s), ProblemSeverity::Warning),
        forall|i: int, j: int|
            0 <= i < j < expected_problems(s).len() && (#[trigger] expected_problems(s)[i]).0 == ProblemSeverity::Warning
                ==> (#[trigger] expected_problems(s)[j]).0 == ProblemSeverity::Warning,
{
    lemma_errors_are_errors(s);
    lemma_warnings_are_warnings(s);
    let e = expected_errors(s);
    let w = expected_warnings(s);
    let all = expected_problems(s);
    assert forall|i: int, j: int|
        0 <= i < j < all.len() && (#[trigger] all[i]).0 == ProblemSeverity::Warning implies (#[trigger] all[j]).0
            == ProblemSeverity::Warning by {
        if i < e.len() {
            assert(all[i] == e[i]);
        }
        if j < e.len() {
            assert(all[j] == e[j]);
        } else {
            assert(all[j] == w[j - e.len()]);
        }
    }
}

/// A status that reports a failure is never also reported as a recovery:
/// the server contributes at most one entry.
pub proof fn law_server_reported_once(status: Seq<char>)
    ensures
        !(server_failed(status) && server_recovering(status)),
{
}

/// The entry comes from the server status.
pub open spec fn is_server_entry(p: ProblemView) -> bool {
    p.1 == "Server"@
}

pub open spec fn no_server_entry(q: Seq<ProblemView>) -> bool {
    forall|k: int| 0 <= k < q.len() ==> !is_server_entry(#[trigger] q[k])
}

/// The error entries other than the server's.
pub open spec fn other_errors(s: UiState) -> Seq<ProblemView> {
    if_item(s.amplifier_status.last_error is Some,
        (ProblemSeverity::Error, "Amplifier"@, opt_view(s.amplifier_status.last_error).unwrap_or(Seq::empty())))
    + if_item(s.radio_acquired && s.source_status.device_responding == Some(false),
        (ProblemSeverity::Error, "Radio"@, "not responding (no data from device)"@))
}

/// The warning entries other than the server's.
pub open spec fn other_warnings(s: UiState) -> Seq<ProblemView> {
    if_item(s.rigctl_status is Some,
        (ProblemSeverity::Warning, "rigctl"@, opt_view(s.rigctl_status).unwrap_or(Seq::empty())))
    + if_item(s.digital_audio_platform && digital_down(s).len() > 0,
        (ProblemSeverity::Warning, "Digital Audio"@, digital_detail(s)))
    + if_item(s.mic_status@.len() > 0, (ProblemSeverity::Warning, "Microphone"@, s.mic_status@))
    + if_item(s.persistence_status@.len() > 0, (ProblemSeverity::Warning, "Persistence"@, s.persistence_status@))
}

proof fn lemma_add_assoc(a: Seq<ProblemView>, b: Seq<ProblemView>, c: Seq<ProblemView>)
    ensures
        (a + b) + c == a + (b + c),
{
    assert((a + b) + c =~= a + (b + c));
}

proof fn lemma_problem_parts(s: UiState)
    ensures
        expected_problems(s) == if_item(server_failed(s.server_status@), (ProblemSeverity::Error, "Server"@, s.server_status@))
            + other_errors(s) + if_item(server_recovering(s.server_status@), (ProblemSeverity::Warning, "Server"@, s.server_status@))
            + other_warnings(s),
{
    let st = s.server_status@;
    let a = if_item(server_failed(st), (ProblemSeverity::Error, "Server"@, st));
    let a2 = if_item(s.amplifier_status.last_error is Some,
        (ProblemSeverity::Error, "Amplifier"@, opt_view(s.amplifier_status.last_error).unwrap_or(Seq::empty())));
    let a3 = if_item(s.radio_acquired && s.source_status.device_responding == Some(false),
        (ProblemSeverity::Error, "Radio"@, "not responding (no data from device)"@));
    let c = if_item(server_recovering(st), (ProblemSeverity::Warning, "Server"@, st));
    let w2 = if_item(s.rigctl_status is Some,
        (ProblemSeverity::Warning, "rigctl"@, opt_view(s.rigctl_status).unwrap_or(Seq::empty())));
    let w3 = if_item(s.digital_audio_platform && digital_down(s).len() > 0,
        (ProblemSeverity::Warning, "Digital Audio"@, digital_detail(s)));
    let w4 = if_item(s.mic_status@.len() > 0, (ProblemSeverity::Warning, "Microphone"@, s.mic_status@));
    let w5 = if_item(s.persistence_status@.len() > 0, (ProblemSeverity::Warning, "Persistence"@, s.persistence_status@));
    let b = other_errors(s);
    let d = other_warnings(s);
    assert(expected_errors(s) == a + a2 + a3);
    assert(b == a2 + a3);
    lemma_add_assoc(a, a2, a3);
    assert(d == w2 + w3 + w4 + w5);
    assert(expected_warnings(s) == c + w2 + w3 + w4 + w5);
    lemma_add_assoc(c, w2, w3);
    lemma_add_assoc(c, w2 + w3, w4);
    lemma_add_assoc(c, w2 + w3 + w4, w5);
    assert(expected_warnings(s) == c + d);
    lemma_add_assoc(a + b, c, d);
}

proof fn lemma_other_sources_not_server(s: UiState)
    ensures
        no_server_entry(other_errors(s)),
        no_server_entry(other_warnings(s)),
{
    reveal_strlit("Server");
    reveal_strlit("Amplifier");
    reveal_strlit("Radio");
    reveal_strlit("rigctl");
    reveal_strlit("Digital Audio");
    reveal_strlit("Microphone");
    reveal_strlit("Persistence");
    assert("Amplifier"@ != "Server"@) by { assert("Amplifier"@.len() != "Server"@.len()); }
    assert("Radio"@ != "Server"@) by { assert("Radio"@.len() != "Server"@.len()); }
    assert("rigctl"@ != "Server"@) by { assert("rigctl"@[0] != "Server"@[0]); }
    assert("Digital Audio"@ != "Server"@) by { assert("Digital Audio"@.len() != "Server"@.len()); }
    assert("Microphone"@ != "Server"@) by { assert("Microphone"@.len() != "Server"@.len()); }
    assert("Persistence"@ != "Server"@) by { assert("Persistence"@.len() != "Server"@.len()); }
}

proof fn lemma_server_positions(a: Seq<ProblemView>, b: Seq<ProblemView>, c: Seq<ProblemView>, d: Seq<ProblemView>)
    requires
        a.len() <= 1,
        c.len() <= 1,
        no_server_entry(b),
        no_server_entry(d),
    ensures
        forall|i: int|
            0 <= i < (a + b + c + d).len() && is_server_entry(#[trigger] (a + b + c + d)[i]) ==> (i == 0 && a.len() == 1
                && (a + b + c + d)[i] == a[0]) || (i == a.len() + b.len() && c.len() == 1 && (a + b + c + d)[i] == c[0]),
        a.len() == 1 ==> (a + b + c + d)[0] == a[0],
        c.len() == 1 ==> (a + b + c + d)[(a.len() + b.len()) as int] == c[0],
{
    let p = a + b + c + d;
    assert forall|i: int| 0 <= i < p.len() && is_server_entry(#[trigger] p[i]) implies (i == 0 && a.len() == 1 && p[i]
        == a[0]) || (i == a.len() + b.len() && c.len() == 1 && p[i] == c[0]) by {
        if i < a.len() {
            assert(p[i] == a[i]);
        } else if i < a.len() + b.len() {
            assert(p[i] == b[i - a.len()]);
        } else if i < a.len() + b.len() + c.len() {
            assert(p[i] == c[i - a.len() - b.len()]);
        } else {
            assert(p[i] == d[i - a.len() - b.len() - c.len()]);
        }
    }
}

/// The server entries of `p`: at most one, with detail `status`; an Error
/// exactly when `failed`, a Warning exactly when `recovering`.
pub open spec fn server_entries_are(p: Seq<ProblemView>, status: Seq<char>, failed: bool, recovering: bool) -> bool {
    &&& forall|i: int, j: int|
        0 <= i < p.len() && 0 <= j < p.len() && is_server_entry(#[trigger] p[i]) && is_server_entry(#[trigger] p[j])
            ==> i == j
    &&& forall|i: int| 0 <= i < p.len() && is_server_entry(#[trigger] p[i]) ==> p[i].2 == status
    &&& (exists|i: int| 0 <= i < p.len() && is_server_entry(#[trigger] p[i]) && p[i].0 == ProblemSeverity::Error)
        <==> failed
    &&& (exists|i: int| 0 <= i < p.len() && is_server_entry(#[trigger] p[i]) && p[i].0 == ProblemSeverity::Warning)
        <==> recovering
}

proof fn lemma_server_entries(
    a: Seq<ProblemView>,
    b: Seq<ProblemView>,
    c: Seq<ProblemView>,
    d: Seq<ProblemView>,
    status: Seq<char>,
    f: bool,
    r: bool,
)
    requires
        a == if_item(f, (ProblemSeverity::Error, "Server"@, status)),
        c == if_item(r, (ProblemSeverity::Warning, "Server"@, status)),
        !(f && r),
        no_server_entry(b),
        no_server_entry(d),
    ensures
        server_entries_are(a + b + c + d, status, f, r),
{
    lemma_server_positions(a, b, c, d);
    let p = a + b + c + d;
    if f {
        assert(is_server_entry(p[0]) && p[0].0 == ProblemSeverity::Error);
    }
    if r {
        let k = (a.len() + b.len()) as int;
        assert(is_server_entry(p[k]) && p[k].0 == ProblemSeverity::Warning);
    }
}

/// The server status yields at most one problem, whose detail is the status
/// itself: an Error exactly when the ASCII-lower-cased status mentions
/// "fail", "error" or "already has a client"; otherwise a Warning exactly
/// when it mentions "reconnecting" or "re-acquiring"; else none.
pub proof fn law_server_problem(s: UiState)
    ensures
        ({
            let l = lower_seq(s.server_status@);
            let failed = contains_seq(l, "fail"@) || contains_seq(l, "error"@) || contains_seq(l, "already has a client"@);
            let recovering = contains_seq(l, "reconnecting"@) || contains_seq(l, "re-acquiring"@);
            server_entries_are(expected_problems(s), s.server_status@, failed, !failed && recovering)
        }),
{
    let st = s.server_status@;
    lemma_other_sources_not_server(s);
    lemma_problem_parts(s);
    law_server_reported_once(st);
    lemma_server_entries(
        if_item(server_failed(st), (ProblemSeverity::Error, "Server"@, st)),
        other_errors(s),
        if_item(server_recovering(st), (ProblemSeverity::Warning, "Server"@, st)),
        other_warnings(s),
        st,
        server_failed(st),
        server_recovering(st),
    );
}

/// One hover line of the status light: `source: detail`.
pub open spec fn problem_line(p: ProblemView) -> Seq<char> {
    p.1 + seq![':', ' '] + p.2
}

/// Hover text of the status light: every problem on its own line, or
/// `All subsystems OK` when there is none.
pub open spec fn status_hover_text(ps: Seq<ProblemView>) -> Seq<char> {
    if ps.len() == 0 {
        "All subsystems OK"@
    } else {
        join(ps.map_values(|p: ProblemView| problem_line(p)), seq!['\n'])
    }
}

/// Colour of the status light: green when nothing is wrong, red when any
/// problem is an error, amber for warnings only.
pub open spec fn status_light_rgb(ps: Seq<ProblemView>) -> Rgb {
    if ps.len() == 0 {
        (40, 200, 80)
    } else if exists|i: int| 0 <= i < ps.len() && (#[trigger] ps[i]).0 == ProblemSeverity::Error {
        (230, 60, 60)
    } else {
        (255, 170, 40)
    }
}

proof fn lemma_join_step(lines: Seq<Seq<char>>, i: int, sep: Seq<char>)
    requires
        1 <= i < lines.len(),
    ensures
        join(lines.take(i + 1), sep) == join(lines.take(i), sep) + sep + lines[i],
{
    assert(lines.take(i + 1).drop_last() =~= lines.take(i));
}

/// The status-bar light for a problem list: its colour and hover text.
pub fn status_light(problems: &Vec<Problem>) -> (r: (Rgb, String))
    ensures
        r.0 == status_light_rgb(problems_view(problems@)),
        r.1@ == status_hover_text(problems_view(problems@)),
{
    let ghost pv = problems_view(problems@);
    let ghost lines = pv.map_values(|p: ProblemView| problem_line(p));
    if problems.len() == 0 {
        let mut out: Vec<char> = Vec::new();
        push_str(&mut out, "All subsystems OK");
        return ((40, 200, 80), string_from_chars(&out));
    }
    let mut out: Vec<char> = Vec::new();
    let mut has_error = false;
    let n = problems.len();
    for i in 0..n
        invariant
            n == problems.len(),
            n > 0,
            pv == problems_view(problems@),
            lines == pv.map_values(|p: ProblemView| problem_line(p)),
            i > 0 ==> out@ == join(lines.take(i as int), seq!['\n']),
            i == 0 ==> out@.len() == 0,
            has_error <==> exists|k: int| 0 <= k < i && (#[trigger] pv[k]).0 == ProblemSeverity::Error,
    {
        let p = &problems[i];
        let ghost before = out@;
        if i > 0 {
            out.push('\n');
        }
        push_str(&mut out, p.source);
        out.push(':');
        out.push(' ');
        push_str(&mut out, p.detail.as_str());
        proof {
            assert(pv[i as int] == problem_view(problems@[i as int]));
            assert(lines[i as int] == problem_line(pv[i as int]));
            if i == 0 {
                assert(lines.take(1) =~= seq![lines[0]]);
                assert(out@ =~= lines[0]);
            } else {
                lemma_join_step(lines, i as int, seq!['\n']);
                assert(out@ =~= before + seq!['\n'] + lines[i as int]);
            }
        }
        if p.severity == ProblemSeverity::Error {
            has_error = true;
        }
        proof {
            if has_error {
                if p.severity == ProblemSeverity::Error {
                    assert(pv[i as int].0 == ProblemSeverity::Error);
                }
            }
        }
    }
    proof {
        assert(lines.take(n as int) =~= lines);
    }
    let rgb: Rgb = if has_error {
        (230, 60, 60)
    } else {
        (255, 170, 40)
    };
    (rgb, string_from_chars(&out))
}


/// The status light is green exactly when there is no problem; for a
/// non-empty list it is red exactly when some problem, at any position, is an
/// Error, and amber exactly when every problem is a Warning.
pub proof fn law_status_light_colour(ps: Seq<ProblemView>)
    ensures
        (status_light_rgb(ps) == (40u8, 200u8, 80u8)) <==> ps.len() == 0,
        ps.len() > 0 ==> ((status_light_rgb(ps) == (230u8, 60u8, 60u8)) <==> exists|i: int|
            0 <= i < ps.len() && (#[trigger] ps[i]).0 == ProblemSeverity::Error),
        ps.len() > 0 ==> ((status_light_rgb(ps) == (255u8, 170u8, 40u8)) <==> forall|i: int|
            0 <= i < ps.len() ==> (#[trigger] ps[i]).0 == ProblemSeverity::Warning),
{
    if ps.len() > 0 {
        if forall|i: int| 0 <= i < ps.len() ==> (#[trigger] ps[i]).0 == ProblemSeverity::Warning {
            assert(!exists|i: int| 0 <= i < ps.len() && (#[trigger] ps[i]).0 == ProblemSeverity::Error);
        } else {
            let i = choose|i: int| 0 <= i < ps.len() && !((#[trigger] ps[i]).0 == ProblemSeverity::Warning);
            assert(ps[i].0 == ProblemSeverity::Error);
        }
    }
}

} // verus!
