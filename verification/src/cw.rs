use vstd::prelude::*;
use vstd::string::StringExecFns;

verus! {

/// A single CW memory macro: a short button label and the text to transmit.
#[derive(Debug, Clone)]
pub struct CwMacro {
    pub label: String,
    pub text: String,
}

/// The four default CW macros, built from the (label, text) defaults table.
pub fn default_cw_macros(defaults: [(&str, &str); 4]) -> (m: [CwMacro; 4])
    ensures
        forall|i: int| 0 <= i < 4 ==> #[trigger] m@[i].label@ == defaults@[i].0@ && m@[i].text@ == defaults@[i].1@,
{
    let m0 = CwMacro { label: String::from_str(defaults[0].0), text: String::from_str(defaults[0].1) };
    let m1 = CwMacro { label: String::from_str(defaults[1].0), text: String::from_str(defaults[1].1) };
    let m2 = CwMacro { label: String::from_str(defaults[2].0), text: String::from_str(defaults[2].1) };
    let m3 = CwMacro { label: String::from_str(defaults[3].0), text: String::from_str(defaults[3].1) };
    let m = [m0, m1, m2, m3];
    assert(m@[0] == m0 && m@[1] == m1 && m@[2] == m2 && m@[3] == m3);
    m
}

} // verus!
