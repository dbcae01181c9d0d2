use vstd::prelude::*;
use vstd::string::StringExecFns;
use crate::names::{trim_ws, trimmed_chars};
use crate::text::string_from_chars;

verus! {

/// What the server panel's Connect/Disconnect button does.
#[derive(Debug, Clone, PartialEq, Eq)]
pub enum ServerAction {
    /// Drop the current connection.
    Disconnect,
    /// Connect to this (trimmed) server address.
    Connect(String),
    /// Refuse to connect and show this server status instead.
    Refuse(String),
}

/// Label of the server panel's button.
pub fn server_button_label(server_connected: bool) -> (s: &'static str)
    ensures
        s@ == (if server_connected { "Disconnect"@ } else { "Connect"@ }),
{
    if server_connected {
        "Disconnect"
    } else {
        "Connect"
    }
}

/// A click on the server button: disconnect when connected; otherwise connect
/// to the address without surrounding whitespace, or report that it is
/// missing when nothing remains.
pub fn server_button_action(server_connected: bool, server_ip: &str) -> (a: ServerAction)
    ensures
        server_connected ==> a == ServerAction::Disconnect,
        !server_connected && trim_ws(server_ip@).len() == 0 ==> (a matches ServerAction::Refuse(s)
            && s@ == "connect failed: missing server IP"@),
        !server_connected && trim_ws(server_ip@).len() > 0 ==> (a matches ServerAction::Connect(ip)
            && ip@ == trim_ws(server_ip@)),
{
    if server_connected {
        return ServerAction::Disconnect;
    }
    let ip = trimmed_chars(server_ip);
    if ip.len() == 0 {
        ServerAction::Refuse(String::from_str("connect failed: missing server IP"))
    } else {
        ServerAction::Connect(string_from_chars(&ip))
    }
}

} // verus!
