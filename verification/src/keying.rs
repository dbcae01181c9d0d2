use vstd::prelude::*;
use crate::modes::DemodMode;
use crate::names::{is_whitespace, is_ws, trim_ws};
use crate::text::str_chars;

verus! {

/// What the keyboard and window report in one frame, as far as the
/// hold-to-talk Space key is concerned.
#[derive(Debug, Clone, Copy)]
pub struct SpaceKeyInput {
    /// The window has keyboard focus.
    pub focused: bool,
    /// A text field wants the keyboard (Space types, it does not key).
    pub typing: bool,
    /// Space is held down this frame.
    pub space_down: bool,
    /// Space was pressed (went down) this frame.
    pub space_pressed: bool,
}

/// After a focus loss, transmit needs a fresh Space press: the latch is set
/// while unfocused and cleared only by a real press while focused.
pub open spec fn latch_after(needs_fresh_press: bool, input: SpaceKeyInput) -> bool {
    if !input.focused {
        true
    } else if input.space_pressed {
        false
    } else {
        needs_fresh_press
    }
}

/// Update the "needs a fresh press" latch for this frame.
pub fn update_ptt_focus_latch(needs_fresh_press: bool, input: SpaceKeyInput) -> (latch: bool)
    ensures
        latch == latch_after(needs_fresh_press, input),
{
    if !input.focused {
        true
    } else if input.space_pressed {
        false
    } else {
        needs_fresh_press
    }
}

/// Space counts as held for keying only when the window is focused, no text
/// field has the keyboard, no fresh press is pending, and Space is down.
pub open spec fn space_held(needs_fresh_press: bool, input: SpaceKeyInput) -> bool {
    input.focused && !input.typing && !needs_fresh_press && input.space_down
}

/// A transition request for the transmitter (or nothing this frame).
#[derive(Debug, Clone, Copy, PartialEq, Eq, Structural)]
pub enum KeyAction {
    Keep,
    Start,
    Stop,
}

/// Edge detection: act only when the wanted state differs from the current one.
pub open spec fn edge(current: bool, want: bool) -> KeyAction {
    if want == current {
        KeyAction::Keep
    } else if want {
        KeyAction::Start
    } else {
        KeyAction::Stop
    }
}

pub open spec fn is_cw(m: DemodMode) -> bool {
    m == DemodMode::Cwu || m == DemodMode::Cwl
}

/// Transmit-capable session state that gates keying.
#[derive(Debug, Clone, Copy)]
pub struct TxGate {
    pub radio_acquired: bool,
    /// The source supports transmitting.
    pub supports_tx: bool,
    pub demod_mode: DemodMode,
}

/// Whether Space should key CW this frame.
pub open spec fn cw_want_key(needs_fresh_press: bool, input: SpaceKeyInput, gate: TxGate) -> bool {
    space_held(needs_fresh_press, input) && gate.radio_acquired && gate.supports_tx && is_cw(gate.demod_mode)
}

/// Space-bar CW keying for one frame: returns the new key state and the
/// StartCwKey / StopCwKey transition to send (the local sidetone follows the
/// new key state).  Leaving CW mode, releasing the radio, focusing a text
/// field or losing window focus releases a held key.
pub fn cw_keying_step(needs_fresh_press: bool, input: SpaceKeyInput, gate: TxGate, key_down: bool) -> (r: (bool, KeyAction))
    ensures
        r.0 == cw_want_key(needs_fresh_press, input, gate),
        r.1 == edge(key_down, r.0),
{
    let held = input.focused && !input.typing && !needs_fresh_press && input.space_down;
    let cw = match gate.demod_mode {
        DemodMode::Cwu | DemodMode::Cwl => true,
        _ => false,
    };
    let want = held && gate.radio_acquired && gate.supports_tx && cw;
    let action = if want == key_down {
        KeyAction::Keep
    } else if want {
        KeyAction::Start
    } else {
        KeyAction::Stop
    };
    (want, action)
}

pub open spec fn is_ssb_tx_mode(m: DemodMode) -> bool {
    m == DemodMode::Usb || m == DemodMode::Lsb || m == DemodMode::DgtU
}

/// Whether Space should key SSB mic transmit this frame: as for CW, in
/// USB/LSB/Data-USB, and never while the voice keyer plays or a clip records.
pub open spec fn ssb_want_tx(
    needs_fresh_press: bool,
    input: SpaceKeyInput,
    gate: TxGate,
    voice_keyer_playing: bool,
    clip_recording: bool,
) -> bool {
    space_held(needs_fresh_press, input) && gate.radio_acquired && gate.supports_tx && is_ssb_tx_mode(gate.demod_mode)
        && !voice_keyer_playing && !clip_recording
}

/// The outcome of one SSB push-to-talk frame.
#[derive(Debug, Clone, Copy)]
pub struct SsbPttStep {
    /// New push-to-talk state.
    pub ptt_down: bool,
    /// StartMicTx / StopMicTx to send.
    pub action: KeyAction,
    /// `Some(on)` when the microphone stream must be switched on or off.
    pub mic_streaming: Option<bool>,
}

/// Space-bar SSB mic push-to-talk for one frame.  The microphone streams only
/// when transmit starts without the two-tone test (the tones are generated
/// server-side) and stops whenever transmit stops.
pub fn ssb_ptt_step(
    needs_fresh_press: bool,
    input: SpaceKeyInput,
    gate: TxGate,
    voice_keyer_playing: bool,
    clip_recording: bool,
    two_tone_enabled: bool,
    ptt_down: bool,
) -> (r: SsbPttStep)
    ensures
        r.ptt_down == ssb_want_tx(needs_fresh_press, input, gate, voice_keyer_playing, clip_recording),
        r.action == edge(ptt_down, r.ptt_down),
        r.mic_streaming == match r.action {
            KeyAction::Start => if two_tone_enabled { None } else { Some(true) },
            KeyAction::Stop => Some(false),
            KeyAction::Keep => None,
        },
{
    let held = input.focused && !input.typing && !needs_fresh_press && input.space_down;
    let ssb = match gate.demod_mode {
        DemodMode::Usb | DemodMode::Lsb | DemodMode::DgtU => true,
        _ => false,
    };
    let want = held && gate.radio_acquired && gate.supports_tx && ssb && !voice_keyer_playing && !clip_recording;
    if want == ptt_down {
        SsbPttStep { ptt_down: want, action: KeyAction::Keep, mic_streaming: None }
    } else if want {
        SsbPttStep {
            ptt_down: want,
            action: KeyAction::Start,
            mic_streaming: if two_tone_enabled { None } else { Some(true) },
        }
    } else {
        SsbPttStep { ptt_down: want, action: KeyAction::Stop, mic_streaming: Some(false) }
    }
}

/// While the voice keyer plays it must stop as soon as Space is held (a
/// fresh press takes over), the radio is released, the server link drops, or
/// the mode leaves USB/LSB/Data-USB.
pub open spec fn voice_keyer_must_abort(
    playing: bool,
    needs_fresh_press: bool,
    input: SpaceKeyInput,
    radio_acquired: bool,
    server_connected: bool,
    mode: DemodMode,
) -> bool {
    playing && (space_held(needs_fresh_press, input) || !radio_acquired || !server_connected
        || !is_ssb_tx_mode(mode))
}

/// Per-frame voice-keyer safety check: whether to request the playback abort.
pub fn voice_keyer_abort(
    playing: bool,
    needs_fresh_press: bool,
    input: SpaceKeyInput,
    radio_acquired: bool,
    server_connected: bool,
    mode: DemodMode,
) -> (abort: bool)
    ensures
        abort == voice_keyer_must_abort(playing, needs_fresh_press, input, radio_acquired, server_connected, mode),
{
    if !playing {
        return false;
    }
    let space = input.focused && !input.typing && !needs_fresh_press && input.space_down;
    let mode_ok = match mode {
        DemodMode::Usb | DemodMode::Lsb | DemodMode::DgtU => true,
        _ => false,
    };
    space || !radio_acquired || !server_connected || !mode_ok
}

/// What the radio is doing on the transmit side this frame.
#[derive(Debug, Clone, Copy)]
pub struct TxActivity {
    pub cw_key_down: bool,
    pub ssb_ptt_down: bool,
    /// Keyed over the CAT (rigctl) interface.
    pub cat_ptt: bool,
    pub tx_tone_running: bool,
    pub voice_keyer_playing: bool,
}

/// Keyed by any path: CW, SSB push-to-talk, CAT, a test tone or the voice keyer.
pub open spec fn transmitting(a: TxActivity) -> bool {
    a.cw_key_down || a.ssb_ptt_down || a.cat_ptt || a.tx_tone_running || a.voice_keyer_playing
}

/// True while the radio is keyed by any path; drag-pan and momentum are
/// disabled then so the band filters cannot be swept under a transmission.
pub fn is_transmitting(a: TxActivity) -> (b: bool)
    ensures
        b == transmitting(a),
{
    a.cw_key_down || a.ssb_ptt_down || a.cat_ptt || a.tx_tone_running || a.voice_keyer_playing
}

/// Voice-keyer safety: playback never continues through a held Space, a
/// released radio, a dropped server link or a non-SSB mode; and while it
/// plays and an abort is not requested, the radio counts as transmitting.
pub proof fn law_voice_keyer_safety(
    needs_fresh_press: bool,
    input: SpaceKeyInput,
    radio_acquired: bool,
    server_connected: bool,
    mode: DemodMode,
    a: TxActivity,
)
    ensures
        space_held(needs_fresh_press, input) ==> voice_keyer_must_abort(true, needs_fresh_press, input, radio_acquired, server_connected, mode),
        !radio_acquired || !server_connected ==> voice_keyer_must_abort(true, needs_fresh_press, input, radio_acquired, server_connected, mode),
        !voice_keyer_must_abort(false, needs_fresh_press, input, radio_acquired, server_connected, mode),
        a.voice_keyer_playing ==> transmitting(a),
        !voice_keyer_must_abort(true, needs_fresh_press, input, radio_acquired, server_connected, mode) ==> is_ssb_tx_mode(mode),
{
}

/// Keying safety: neither CW nor SSB transmit is ever wanted while the window
/// is unfocused, a text field has the keyboard, a fresh press is pending, or
/// Space is up; and losing focus while keyed always stops transmit.
pub proof fn law_no_transmit_without_held_space(
    needs_fresh_press: bool,
    input: SpaceKeyInput,
    gate: TxGate,
    playing: bool,
    recording: bool,
    key_down: bool,
)
    ensures
        cw_want_key(needs_fresh_press, input, gate) ==> input.focused && !input.typing && !needs_fresh_press
            && input.space_down && gate.radio_acquired && gate.supports_tx,
        ssb_want_tx(needs_fresh_press, input, gate, playing, recording) ==> input.focused && !input.typing
            && !needs_fresh_press && input.space_down && !playing && !recording,
        !input.focused && key_down ==> edge(key_down, cw_want_key(needs_fresh_press, input, gate)) == KeyAction::Stop,
        !input.focused ==> latch_after(needs_fresh_press, input),
{
}

/// Keying is edge-triggered: applying a frame's decision and then the same
/// frame again requests nothing further.
pub proof fn law_keying_idempotent(needs_fresh_press: bool, input: SpaceKeyInput, gate: TxGate, key_down: bool)
    ensures
        ({
            let k = cw_want_key(needs_fresh_press, input, gate);
            edge(k, cw_want_key(needs_fresh_press, input, gate)) == KeyAction::Keep
        }),
{
}

/// Whether a macro text has anything to send once surrounding whitespace is
/// removed.
pub fn macro_text_is_blank(text: &str) -> (b: bool)
    ensures
        b == (trim_ws(text@).len() == 0),
{
    let cs = str_chars(text);
    let n = cs.len();
    for i in 0..n
        invariant
            n == cs.len(),
            cs@ == text@,
            forall|k: int| 0 <= k < i ==> is_ws(#[trigger] cs@[k]),
    {
        if !is_whitespace(cs[i]) {
            proof {
                crate::names::lemma_trim_nonblank(text@, i as int);
            }
            return false;
        }
    }
    proof {
        crate::names::lemma_trim_all_blank(text@);
    }
    true
}

/// Which CW memory macro (0..=3 for F1..F4) to send this frame: only with a
/// radio acquired, a TX-capable source, CW mode, no text field focused and no
/// message already sending; the lowest pressed key wins.
pub fn cw_macro_to_send(typing: bool, gate: TxGate, sending: bool, f_pressed: [bool; 4]) -> (r: Option<usize>)
    ensures
        (typing || !gate.radio_acquired || !gate.supports_tx || !is_cw(gate.demod_mode) || sending) ==> r is None,
        !(typing || !gate.radio_acquired || !gate.supports_tx || !is_cw(gate.demod_mode) || sending) ==> r == (
        if f_pressed@[0] {
            Some(0usize)
        } else if f_pressed@[1] {
            Some(1usize)
        } else if f_pressed@[2] {
            Some(2usize)
        } else if f_pressed@[3] {
            Some(3usize)
        } else {
            None
        }),
{
    let cw = match gate.demod_mode {
        DemodMode::Cwu | DemodMode::Cwl => true,
        _ => false,
    };
    if typing || !gate.radio_acquired || !gate.supports_tx || !cw || sending {
        return None;
    }
    if f_pressed[0] {
        Some(0)
    } else if f_pressed[1] {
        Some(1)
    } else if f_pressed[2] {
        Some(2)
    } else if f_pressed[3] {
        Some(3)
    } else {
        None
    }
}

/// Phases of the graceful window-close sequence.
#[derive(Debug, Clone, Copy, PartialEq, Eq, Structural)]
pub enum ExitPhase {
    Running,
    ShuttingDown,
    Closing,
}

/// What one frame of the exit sequence does.
#[derive(Debug, Clone, Copy)]
pub struct ExitStep {
    pub phase: ExitPhase,
    /// Abort a voice-keyer transmission (it un-keys itself).
    pub abort_voice_keyer: bool,
    /// Send ReleaseRadio (un-keys the radio server-side).
    pub release_radio: bool,
    /// Send Disconnect.
    pub disconnect: bool,
    /// Start the shutdown hold timer.
    pub start_timer: bool,
    /// Keep the window open this frame.
    pub cancel_close: bool,
    /// Close the window now.
    pub close: bool,
}

/// One frame of the graceful exit: on a close request while connected, abort
/// the voice keyer, release the radio if held, disconnect and hold the window
/// open; then close once disconnected or after the shutdown hold timed out.
/// Not connected: the close proceeds at once.
pub open spec fn exit_spec(phase: ExitPhase, close_requested: bool, server_connected: bool, radio_acquired: bool, timed_out: bool) -> ExitStep {
    match phase {
        ExitPhase::Running => if close_requested && server_connected {
            ExitStep {
                phase: ExitPhase::ShuttingDown,
                abort_voice_keyer: true,
                release_radio: radio_acquired,
                disconnect: true,
                start_timer: true,
                cancel_close: true,
                close: false,
            }
        } else {
            ExitStep {
                phase: ExitPhase::Running,
                abort_voice_keyer: false,
                release_radio: false,
                disconnect: false,
                start_timer: false,
                cancel_close: false,
                close: false,
            }
        },
        ExitPhase::ShuttingDown => {
            let done = !server_connected || timed_out;
            ExitStep {
                phase: if done { ExitPhase::Closing } else { ExitPhase::ShuttingDown },
                abort_voice_keyer: false,
                release_radio: false,
                disconnect: false,
                start_timer: false,
                cancel_close: close_requested,
                close: done,
            }
        },
        ExitPhase::Closing => ExitStep {
            phase: ExitPhase::Closing,
            abort_voice_keyer: false,
            release_radio: false,
            disconnect: false,
            start_timer: false,
            cancel_close: false,
            close: false,
        },
    }
}

/// Advance the window-close sequence by one frame (`timed_out`: the shutdown
/// hold has lasted 1.5 s, or never started).
pub fn exit_step(phase: ExitPhase, close_requested: bool, server_connected: bool, radio_acquired: bool, timed_out: bool) -> (s: ExitStep)
    ensures
        s == exit_spec(phase, close_requested, server_connected, radio_acquired, timed_out),
{
    match phase {
        ExitPhase::Running => {
            if close_requested && server_connected {
                ExitStep {
                    phase: ExitPhase::ShuttingDown,
                    abort_voice_keyer: true,
                    release_radio: radio_acquired,
                    disconnect: true,
                    start_timer: true,
                    cancel_close: true,
                    close: false,
                }
            } else {
                ExitStep {
                    phase: ExitPhase::Running,
                    abort_voice_keyer: false,
                    release_radio: false,
                    disconnect: false,
                    start_timer: false,
                    cancel_close: false,
                    close: false,
                }
            }
        },
        ExitPhase::ShuttingDown => {
            let done = !server_connected || timed_out;
            ExitStep {
                phase: if done { ExitPhase::Closing } else { ExitPhase::ShuttingDown },
                abort_voice_keyer: false,
                release_radio: false,
                disconnect: false,
                start_timer: false,
                cancel_close: close_requested,
                close: done,
            }
        },
        ExitPhase::Closing => ExitStep {
            phase: ExitPhase::Closing,
            abort_voice_keyer: false,
            release_radio: false,
            disconnect: false,
            start_timer: false,
            cancel_close: false,
            close: false,
        },
    }
}

/// Exit-sequence laws: the radio is released and the link dropped only on the
/// way out of Running, and only when connected; the window is closed only
/// while shutting down, once disconnected or timed out; Closing is final; the
/// phase never goes back.
pub proof fn law_exit_sequence(phase: ExitPhase, close_requested: bool, connected: bool, acquired: bool, timed_out: bool)
    ensures
        ({
            let s = exit_spec(phase, close_requested, connected, acquired, timed_out);
            &&& (s.release_radio ==> phase == ExitPhase::Running && connected && acquired && s.disconnect)
            &&& (s.disconnect ==> phase == ExitPhase::Running && close_requested && connected)
            &&& (s.close ==> phase == ExitPhase::ShuttingDown && (!connected || timed_out))
            &&& (phase == ExitPhase::Closing ==> s.phase == ExitPhase::Closing && !s.close)
            &&& (phase == ExitPhase::ShuttingDown ==> s.phase != ExitPhase::Running)
            &&& !(s.close && s.cancel_close && !close_requested)
        }),
{
}


/// Space keys CW exactly when the window is focused, no text field has the
/// keyboard, no fresh press is pending, Space is down, a radio is acquired,
/// the source can transmit and the mode is CW-U or CW-L; CW-U and CW-L
/// decide alike for every input, and every other mode never keys.
pub proof fn law_cw_key_wanted(needs_fresh_press: bool, input: SpaceKeyInput, gate: TxGate)
    ensures
        cw_want_key(needs_fresh_press, input, gate) <==> (input.focused && !input.typing && !needs_fresh_press
            && input.space_down && gate.radio_acquired && gate.supports_tx && (gate.demod_mode == DemodMode::Cwu
            || gate.demod_mode == DemodMode::Cwl)),
        cw_want_key(needs_fresh_press, input, (TxGate { demod_mode: DemodMode::Cwu, ..gate }))
            == cw_want_key(needs_fresh_press, input, (TxGate { demod_mode: DemodMode::Cwl, ..gate })),
{
}

} // verus!
