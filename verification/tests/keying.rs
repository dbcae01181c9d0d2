use rigflow_client::cw::default_cw_macros;
use rigflow_client::keying::{
    cw_keying_step, cw_macro_to_send, exit_step, macro_text_is_blank, ssb_ptt_step, update_ptt_focus_latch,
    ExitPhase, KeyAction, SpaceKeyInput, TxGate,
};
use rigflow_client::modes::DemodMode;

fn held() -> SpaceKeyInput {
    SpaceKeyInput { focused: true, typing: false, space_down: true, space_pressed: false }
}

fn cw_gate() -> TxGate {
    TxGate { radio_acquired: true, supports_tx: true, demod_mode: DemodMode::Cwu }
}

fn usb_gate() -> TxGate {
    TxGate { radio_acquired: true, supports_tx: true, demod_mode: DemodMode::Usb }
}

#[test]
fn focus_loss_sets_latch_until_fresh_press() {
    let unfocused = SpaceKeyInput { focused: false, typing: false, space_down: true, space_pressed: false };
    assert!(update_ptt_focus_latch(false, unfocused));
    // Refocused with Space still held: latch stays.
    assert!(update_ptt_focus_latch(true, held()));
    // A real press clears it.
    let pressed = SpaceKeyInput { focused: true, typing: false, space_down: true, space_pressed: true };
    assert!(!update_ptt_focus_latch(true, pressed));
}

#[test]
fn cw_space_keys_and_releases() {
    assert_eq!(cw_keying_step(false, held(), cw_gate(), false), (true, KeyAction::Start));
    assert_eq!(cw_keying_step(false, held(), cw_gate(), true), (true, KeyAction::Keep));
    let up = SpaceKeyInput { focused: true, typing: false, space_down: false, space_pressed: false };
    assert_eq!(cw_keying_step(false, up, cw_gate(), true), (false, KeyAction::Stop));
}

#[test]
fn cw_key_blocked_by_latch_typing_mode_and_radio() {
    assert_eq!(cw_keying_step(true, held(), cw_gate(), false), (false, KeyAction::Keep));
    let typing = SpaceKeyInput { focused: true, typing: true, space_down: true, space_pressed: false };
    assert_eq!(cw_keying_step(false, typing, cw_gate(), true), (false, KeyAction::Stop));
    assert_eq!(cw_keying_step(false, held(), usb_gate(), false), (false, KeyAction::Keep));
    let released = TxGate { radio_acquired: false, supports_tx: true, demod_mode: DemodMode::Cwl };
    assert_eq!(cw_keying_step(false, held(), released, true), (false, KeyAction::Stop));
    let no_tx = TxGate { radio_acquired: true, supports_tx: false, demod_mode: DemodMode::Cwl };
    assert_eq!(cw_keying_step(false, held(), no_tx, false), (false, KeyAction::Keep));
}

#[test]
fn ssb_ptt_starts_mic_unless_two_tone() {
    let s = ssb_ptt_step(false, held(), usb_gate(), false, false, false, false);
    assert!(s.ptt_down);
    assert_eq!(s.action, KeyAction::Start);
    assert_eq!(s.mic_streaming, Some(true));
    let t = ssb_ptt_step(false, held(), usb_gate(), false, false, true, false);
    assert_eq!(t.action, KeyAction::Start);
    assert_eq!(t.mic_streaming, None);
}

#[test]
fn ssb_ptt_stops_mic_on_release_and_blocks_during_voice_keyer() {
    let up = SpaceKeyInput { focused: true, typing: false, space_down: false, space_pressed: false };
    let s = ssb_ptt_step(false, up, usb_gate(), false, false, false, true);
    assert!(!s.ptt_down);
    assert_eq!(s.action, KeyAction::Stop);
    assert_eq!(s.mic_streaming, Some(false));
    let v = ssb_ptt_step(false, held(), usb_gate(), true, false, false, false);
    assert_eq!(v.action, KeyAction::Keep);
    assert!(!v.ptt_down);
    let c = ssb_ptt_step(false, held(), usb_gate(), false, true, false, false);
    assert!(!c.ptt_down);
    let cw = ssb_ptt_step(false, held(), cw_gate(), false, false, false, false);
    assert!(!cw.ptt_down);
    let held_steady = ssb_ptt_step(false, held(), usb_gate(), false, false, false, true);
    assert_eq!(held_steady.action, KeyAction::Keep);
    assert_eq!(held_steady.mic_streaming, None);
}

#[test]
fn blank_macro_text() {
    assert!(macro_text_is_blank(""));
    assert!(macro_text_is_blank("  \t\n "));
    assert!(!macro_text_is_blank("  CQ "));
    assert!(!macro_text_is_blank("TU"));
}

#[test]
fn macro_keys_lowest_pressed_wins() {
    assert_eq!(cw_macro_to_send(false, cw_gate(), false, [false, true, true, false]), Some(1));
    assert_eq!(cw_macro_to_send(false, cw_gate(), false, [false, false, false, true]), Some(3));
    assert_eq!(cw_macro_to_send(false, cw_gate(), false, [false, false, false, false]), None);
    assert_eq!(cw_macro_to_send(true, cw_gate(), false, [true, false, false, false]), None);
    assert_eq!(cw_macro_to_send(false, cw_gate(), true, [true, false, false, false]), None);
    assert_eq!(cw_macro_to_send(false, usb_gate(), false, [true, false, false, false]), None);
}

#[test]
fn default_macros_keep_table_order() {
    let m = default_cw_macros([("CQ", "CQ CQ DE"), ("599", "5NN TU"), ("TU", "TU 73"), ("AGN", "AGN?")]);
    assert_eq!(m[0].label, "CQ");
    assert_eq!(m[0].text, "CQ CQ DE");
    assert_eq!(m[1].text, "5NN TU");
    assert_eq!(m[3].label, "AGN");
    assert_eq!(m[3].text, "AGN?");
}

#[test]
fn exit_sequence_releases_then_closes() {
    let s = exit_step(ExitPhase::Running, true, true, true, false);
    assert_eq!(s.phase, ExitPhase::ShuttingDown);
    assert!(s.abort_voice_keyer && s.release_radio && s.disconnect && s.start_timer && s.cancel_close);
    assert!(!s.close);
    let wait = exit_step(ExitPhase::ShuttingDown, true, true, true, false);
    assert_eq!(wait.phase, ExitPhase::ShuttingDown);
    assert!(wait.cancel_close && !wait.close);
    let done = exit_step(ExitPhase::ShuttingDown, false, false, true, false);
    assert_eq!(done.phase, ExitPhase::Closing);
    assert!(done.close);
    let timeout = exit_step(ExitPhase::ShuttingDown, false, true, true, true);
    assert!(timeout.close);
    let after = exit_step(ExitPhase::Closing, true, false, false, true);
    assert_eq!(after.phase, ExitPhase::Closing);
    assert!(!after.close && !after.cancel_close);
}

#[test]
fn exit_without_server_closes_at_once() {
    let s = exit_step(ExitPhase::Running, true, false, true, false);
    assert_eq!(s.phase, ExitPhase::Running);
    assert!(!s.cancel_close && !s.disconnect && !s.release_radio);
    let no_radio = exit_step(ExitPhase::Running, true, true, false, false);
    assert!(!no_radio.release_radio && no_radio.disconnect);
}
