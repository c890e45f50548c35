use vstd::prelude::*;

use crate::layer::{clamp_layer_count, clamp_layers, spec_tracker_update, FallbackLayerTracker};
use crate::matrix::{is_empty_matrix, pressed_at, Keycodes, Matrix, COLS, KEY_COUNT, MAX_LAYERS, ROWS};
use crate::report::{
    key_changes, lemma_no_changes_iff_same_keys, matrix_change_text, matrix_changes,
    spec_change_text,
};
use crate::state::{
    apply_matrix_update, apply_touchpad_update, clear_matrix_state, is_cleared_touchpad,
    no_cell_times, same_keymap, same_live_matrix, same_matrix_content, update_log,
    updated_press_times, LiveState,
};
use crate::telemetry::{touchpad_equals, TelemetryEvent, TelemetryKind, TouchpadTelemetry};
use crate::text::{text_of, texts};

verus! {

/// Whether `e` is an event of the newer telemetry protocol, which numbers
/// its events and wants each of them acknowledged.
pub open spec fn is_sequenced_event(e: TelemetryEvent) -> bool {
    e.kind == TelemetryKind::Event && (e.seq != 0 || e.flags != 0)
}

/// Whether `event` must be acknowledged: a numbered event of the newer
/// telemetry protocol.
pub fn needs_ack(event: &TelemetryEvent) -> (r: bool)
    ensures
        r == is_sequenced_event(*event),
{
    event.kind == TelemetryKind::Event && (event.seq != 0 || event.flags != 0)
}

/// What the device worker does with one telemetry event.
pub struct TelemetryStep {
    /// The sequence number to acknowledge, if any.
    pub ack: Option<u8>,
    /// Whether the event changes the matrix, the layer or the touchpad.
    pub changed: bool,
    /// What changed, for the trace: the key changes, "layer" or "touchpad";
    /// empty when nothing changed.
    pub change_text: String,
}

/// The last telemetry the device worker passed on, and whether the firmware
/// speaks the newer telemetry protocol.
pub struct TelemetryFollower {
    pub last_matrix: Matrix,
    pub last_layer: usize,
    pub last_touchpad: TouchpadTelemetry,
    pub new_protocol: bool,
}

impl TelemetryFollower {
    /// Starts from the answer to the enable command.
    pub fn start(event: &TelemetryEvent) -> (r: Self)
        ensures
            r.last_matrix == event.matrix,
            r.last_layer == event.active_layer,
            r.last_touchpad == event.touchpad,
            r.new_protocol == (event.protocol >= 2),
    {
        TelemetryFollower {
            last_matrix: event.matrix,
            last_layer: event.active_layer,
            last_touchpad: event.touchpad,
            new_protocol: event.protocol >= 2,
        }
    }

    /// Takes one telemetry event: notes the newer protocol, says whether to
    /// acknowledge it, and whether (and how) it changes what is shown; a
    /// changing event becomes the last one passed on.
    pub fn observe(&mut self, event: &TelemetryEvent) -> (step: TelemetryStep)
        ensures
            final(self).new_protocol == (old(self).new_protocol || event.protocol >= 2
                || is_sequenced_event(*event)),
            step.ack == if is_sequenced_event(*event) {
                Some(event.seq)
            } else {
                None::<u8>
            },
            ({
                let changes = key_changes(old(self).last_matrix, event.matrix, KEY_COUNT as nat);
                let touch_changed = old(self).last_touchpad != event.touchpad;
                &&& step.changed == !(changes.len() == 0 && event.active_layer
                    == old(self).last_layer && !touch_changed)
                &&& step.changed ==> step.change_text@ == if touch_changed && changes.len() == 0 {
                    "touchpad"@
                } else if changes.len() == 0 {
                    "layer"@
                } else {
                    spec_change_text(changes)
                }
                &&& !step.changed ==> step.change_text@ == Seq::<char>::empty()
                &&& step.changed ==> final(self).last_matrix == event.matrix
                    && final(self).last_layer == event.active_layer && final(self).last_touchpad
                    == event.touchpad
                &&& !step.changed ==> final(self).last_matrix == old(self).last_matrix
                    && final(self).last_layer == old(self).last_layer && final(self).last_touchpad
                    == old(self).last_touchpad
            }),
    {
        let sequenced = needs_ack(event);
        if event.protocol >= 2 || sequenced {
            self.new_protocol = true;
        }
        let ack = if sequenced {
            Some(event.seq)
        } else {
            None
        };
        let changes = matrix_changes(&self.last_matrix, &event.matrix);
        let touch_changed = !touchpad_equals(&event.touchpad, &self.last_touchpad);
        if changes.len() == 0 && event.active_layer == self.last_layer && !touch_changed {
            return TelemetryStep { ack, changed: false, change_text: String::new() };
        }
        let change_text = if touch_changed && changes.len() == 0 {
            text_of("touchpad")
        } else if changes.len() == 0 {
            text_of("layer")
        } else {
            matrix_change_text(changes.as_slice())
        };
        self.last_matrix = event.matrix;
        self.last_layer = event.active_layer;
        self.last_touchpad = event.touchpad;
        TelemetryStep { ack, changed: true, change_text }
    }
}

/// Whether two matrices are the same.
pub fn matrices_equal(a: &Matrix, b: &Matrix) -> (r: bool)
    ensures
        r == (*a == *b),
{
    let mut row: usize = 0;
    while row < ROWS
        invariant
            row <= ROWS,
            forall|r: int, c: int|
                0 <= r < row && 0 <= c < COLS ==> #[trigger] pressed_at(*a, r, c) == pressed_at(
                    *b,
                    r,
                    c,
                ),
        decreases ROWS - row,
    {
        let mut col: usize = 0;
        while col < COLS
            invariant
                row < ROWS,
                col <= COLS,
                forall|r: int, c: int|
                    0 <= r < row && 0 <= c < COLS ==> #[trigger] pressed_at(*a, r, c) == pressed_at(
                        *b,
                        r,
                        c,
                    ),
                forall|c: int|
                    0 <= c < col ==> #[trigger] pressed_at(*a, row as int, c) == pressed_at(
                        *b,
                        row as int,
                        c,
                    ),
            decreases COLS - col,
        {
            if a[row][col] != b[row][col] {
                assert(pressed_at(*a, row as int, col as int) != pressed_at(*b, row as int, col as int));
                return false;
            }
            col = col + 1;
        }
        row = row + 1;
    }
    assert forall|r: int| 0 <= r < ROWS implies a@[r] == b@[r] by {
        assert forall|c: int| 0 <= c < COLS implies a@[r]@[c] == b@[r]@[c] by {
            assert(pressed_at(*a, r, c) == pressed_at(*b, r, c));
        }
        assert(a@[r]@ =~= b@[r]@);
        assert(a@[r] =~= b@[r]);
    }
    assert(a@ =~= b@);
    assert(*a =~= *b);
    true
}

/// Whether a polled matrix differs from the last one passed on (always, when
/// none was).
pub fn poll_changed(last: &Option<Matrix>, matrix: &Matrix) -> (r: bool)
    ensures
        r == (*last != Some(*matrix)),
{
    match last {
        Some(previous) => !matrices_equal(previous, matrix),
        None => true,
    }
}

/// The number of layers to read: the reported count, or every layer when
/// the board did not answer, forced into `1..=MAX_LAYERS`.
pub fn keymap_layer_count(reported: Option<usize>) -> (r: usize)
    ensures
        r == clamp_layers(
            match reported {
                Some(n) => n,
                None => MAX_LAYERS,
            },
        ),
{
    let count = match reported {
        Some(n) => n,
        None => MAX_LAYERS,
    };
    clamp_layer_count(count)
}

/// The name of a layer: the one the board reported, unless it reported none
/// or an empty one.
pub fn merge_layer_name(current: String, reported: Option<String>) -> (r: String)
    ensures
        r@ == match reported {
            Some(name) => if name@.len() > 0 {
                name@
            } else {
                current@
            },
            None => current@,
        },
{
    match reported {
        Some(name) => if name.as_str().unicode_len() > 0 {
            name
        } else {
            current
        },
        None => current,
    }
}

/// The board answered: connected over `device_path` at `now`.
pub fn note_connected(state: &mut LiveState, device_path: String, now: u64)
    ensures
        final(state).connected,
        final(state).device_path == device_path,
        final(state).status@ == "Connected over Vial raw HID"@,
        final(state).error is None,
        final(state).last_update == Some(now),
        final(state).layer_count == old(state).layer_count,
        final(state).layer_names == old(state).layer_names,
        final(state).keycodes == old(state).keycodes,
        final(state).keymap_reload_requested == old(state).keymap_reload_requested,
        final(state).active_layer == old(state).active_layer,
        final(state).matrix == old(state).matrix,
        final(state).visible_until == old(state).visible_until,
        final(state).pressed_since == old(state).pressed_since,
        final(state).touchpad == old(state).touchpad,
{
    state.connected = true;
    state.device_path = device_path;
    state.status = text_of("Connected over Vial raw HID");
    state.error = None;
    state.last_update = Some(now);
}

/// The board gave its name.
pub fn note_board_name(state: &mut LiveState, name: &str)
    ensures
        final(state).status@ == "Connected to "@ + name@,
        final(state).connected == old(state).connected,
        final(state).device_path == old(state).device_path,
        final(state).layer_count == old(state).layer_count,
        final(state).layer_names == old(state).layer_names,
        final(state).keycodes == old(state).keycodes,
        final(state).error == old(state).error,
        final(state).keymap_reload_requested == old(state).keymap_reload_requested,
        same_live_matrix(*final(state), *old(state)),
{
    let mut status = text_of("Connected to ");
    status.append(name);
    state.status = status;
}

/// The layer count and names are known; the keymap is being read.
pub fn begin_keymap_load(state: &mut LiveState, layer_count: usize, layer_names: [String; 10])
    ensures
        final(state).status@ == "Loading keymap from Vial"@,
        final(state).layer_count == layer_count,
        final(state).layer_names == layer_names,
        !final(state).keymap_reload_requested,
        final(state).connected == old(state).connected,
        final(state).device_path == old(state).device_path,
        final(state).keycodes == old(state).keycodes,
        final(state).error == old(state).error,
        same_live_matrix(*final(state), *old(state)),
{
    state.status = text_of("Loading keymap from Vial");
    state.layer_count = layer_count;
    state.layer_names = layer_names;
    state.keymap_reload_requested = false;
}

/// The keymap was read.
pub fn finish_keymap_load(state: &mut LiveState, keycodes: Keycodes, live_status: &str)
    ensures
        final(state).keycodes == keycodes,
        final(state).status@ == live_status@,
        final(state).error is None,
        !final(state).keymap_reload_requested,
        final(state).connected == old(state).connected,
        final(state).device_path == old(state).device_path,
        final(state).layer_count == old(state).layer_count,
        final(state).layer_names == old(state).layer_names,
        same_live_matrix(*final(state), *old(state)),
{
    state.keycodes = keycodes;
    state.status = text_of(live_status);
    state.error = None;
    state.keymap_reload_requested = false;
}

/// The keymap could not be read; the matrix stays live without labels.
pub fn fail_keymap_load(state: &mut LiveState, error: String)
    ensures
        final(state).status@ == "Live matrix, labels unavailable"@,
        final(state).error == Some(error),
        !final(state).keymap_reload_requested,
        final(state).connected == old(state).connected,
        final(state).device_path == old(state).device_path,
        final(state).layer_count == old(state).layer_count,
        final(state).layer_names == old(state).layer_names,
        final(state).keycodes == old(state).keycodes,
        same_live_matrix(*final(state), *old(state)),
{
    state.status = text_of("Live matrix, labels unavailable");
    state.error = Some(error);
    state.keymap_reload_requested = false;
}

/// Telemetry is on: show the matrix, layer and touchpad of its first answer.
/// Returns the trace lines of the matrix update.
pub fn note_telemetry_enabled(state: &mut LiveState, event: &TelemetryEvent, now: u64) -> (log: Vec<
    String,
>)
    ensures
        final(state).status@ == "Live telemetry"@,
        final(state).error is None,
        final(state).connected == old(state).connected,
        final(state).device_path == old(state).device_path,
        same_keymap(*final(state), *old(state)),
        final(state).matrix == event.matrix,
        final(state).active_layer == Some(event.active_layer),
        final(state).last_update == Some(now),
        updated_press_times(*old(state), *final(state), event.matrix, now),
        final(state).touchpad.telemetry == event.touchpad,
        final(state).touchpad.last_update == Some(now),
        texts(log@) == update_log(
            old(state).matrix,
            old(state).pressed_since,
            event.matrix,
            Some(event.active_layer),
            now,
        ),
{
    state.status = text_of("Live telemetry");
    let log = apply_matrix_update(state, event.matrix, Some(event.active_layer), now);
    apply_touchpad_update(state, event.touchpad, now);
    state.error = None;
    log
}

/// A telemetry event that changes what is shown. Returns the trace lines of
/// the matrix update.
pub fn note_telemetry_event(state: &mut LiveState, event: &TelemetryEvent, now: u64) -> (log: Vec<
    String,
>)
    ensures
        final(state).connected,
        final(state).error is None,
        final(state).status == old(state).status,
        final(state).device_path == old(state).device_path,
        same_keymap(*final(state), *old(state)),
        final(state).matrix == event.matrix,
        final(state).active_layer == Some(event.active_layer),
        final(state).last_update == Some(now),
        updated_press_times(*old(state), *final(state), event.matrix, now),
        final(state).touchpad.telemetry == event.touchpad,
        final(state).touchpad.last_update == Some(now),
        texts(log@) == update_log(
            old(state).matrix,
            old(state).pressed_since,
            event.matrix,
            Some(event.active_layer),
            now,
        ),
{
    state.connected = true;
    let log = apply_matrix_update(state, event.matrix, Some(event.active_layer), now);
    apply_touchpad_update(state, event.touchpad, now);
    state.error = None;
    log
}

/// A polled matrix that differs from the last one, with the layer the
/// tracker follows. Returns the trace lines of the matrix update.
pub fn note_polled_matrix(state: &mut LiveState, matrix: Matrix, active_layer: usize, now: u64) -> (log:
    Vec<String>)
    ensures
        final(state).connected,
        final(state).error is None,
        final(state).status == old(state).status,
        final(state).device_path == old(state).device_path,
        same_keymap(*final(state), *old(state)),
        final(state).matrix == matrix,
        final(state).active_layer == Some(active_layer),
        final(state).last_update == Some(now),
        updated_press_times(*old(state), *final(state), matrix, now),
        final(state).touchpad == old(state).touchpad,
        texts(log@) == update_log(
            old(state).matrix,
            old(state).pressed_since,
            matrix,
            Some(active_layer),
            now,
        ),
{
    state.connected = true;
    let log = apply_matrix_update(state, matrix, Some(active_layer), now);
    state.error = None;
    log
}

/// Firmware without telemetry: the matrix is polled and the layer followed
/// from key presses.
pub fn note_telemetry_unavailable(state: &mut LiveState)
    ensures
        final(state).status@ == "Live via Vial polling fallback"@,
        final(state).active_layer is None,
        final(state).error == old(state).error,
        final(state).connected == old(state).connected,
        final(state).device_path == old(state).device_path,
        same_keymap(*final(state), *old(state)),
        same_matrix_content(*final(state), *old(state)),
{
    state.status = text_of("Live via Vial polling fallback");
    state.active_layer = None;
}

/// Turning telemetry on failed with `error`; the matrix is polled instead.
pub fn note_telemetry_enable_failed(state: &mut LiveState, error: &str)
    ensures
        final(state).status@ == "Live via Vial polling fallback"@,
        final(state).error matches Some(e) && e@ == "telemetry enable failed: "@ + error@,
        final(state).active_layer is None,
        final(state).connected == old(state).connected,
        final(state).device_path == old(state).device_path,
        same_keymap(*final(state), *old(state)),
        same_matrix_content(*final(state), *old(state)),
{
    state.status = text_of("Live via Vial polling fallback");
    let mut message = text_of("telemetry enable failed: ");
    message.append(error);
    state.error = Some(message);
    state.active_layer = None;
}

/// The board stopped answering with `error`: show it disconnected, with
/// nothing pressed, and look for it again.
pub fn note_disconnected(state: &mut LiveState, error: String)
    ensures
        !final(state).connected,
        final(state).status@ == "Disconnected, rescanning"@,
        final(state).error == Some(error),
        final(state).active_layer is None,
        is_empty_matrix(final(state).matrix),
        no_cell_times(final(state).visible_until),
        no_cell_times(final(state).pressed_since),
        is_cleared_touchpad(final(state).touchpad),
        final(state).last_update == old(state).last_update,
        final(state).device_path == old(state).device_path,
        same_keymap(*final(state), *old(state)),
{
    state.connected = false;
    state.status = text_of("Disconnected, rescanning");
    state.error = Some(error);
    clear_matrix_state(state);
    state.active_layer = None;
}

/// No board was found (`error` says why): show the scan, with no device
/// and nothing pressed.
pub fn note_scanning(state: &mut LiveState, error: String)
    ensures
        !final(state).connected,
        final(state).status@ == "Scanning for Sofle Plus 2"@,
        final(state).device_path@ == Seq::<char>::empty(),
        final(state).error == Some(error),
        final(state).active_layer is None,
        is_empty_matrix(final(state).matrix),
        no_cell_times(final(state).visible_until),
        no_cell_times(final(state).pressed_since),
        is_cleared_touchpad(final(state).touchpad),
        final(state).last_update == old(state).last_update,
        same_keymap(*final(state), *old(state)),
{
    state.connected = false;
    state.status = text_of("Scanning for Sofle Plus 2");
    state.device_path = String::new();
    state.error = Some(error);
    clear_matrix_state(state);
    state.active_layer = None;
}

/// What one wait for telemetry brought.
#[derive(Clone, Copy, PartialEq, Eq, Structural, Debug)]
pub enum TelemetryWait {
    /// A telemetry event arrived.
    Event,
    /// Nothing arrived before the heartbeat interval ran out.
    TimedOut,
    /// Reading from the board failed.
    Failed,
}

/// What the device worker does next while telemetry is on.
#[derive(Clone, Copy, PartialEq, Eq, Structural, Debug)]
pub enum TelemetryAction {
    /// Take the event (`TelemetryFollower::observe`).
    TakeEvent,
    /// Keep telemetry alive: a heartbeat for the newer protocol, the enable
    /// command otherwise.
    SendHeartbeat { new_protocol: bool },
    /// Show the board disconnected and scan for it again.
    Disconnect,
}

/// The next action after a wait for telemetry: take an event, send a
/// heartbeat when the wait timed out, disconnect when reading failed.
pub fn after_telemetry_wait(wait: TelemetryWait, follower: &TelemetryFollower) -> (r: TelemetryAction)
    ensures
        r == match wait {
            TelemetryWait::Event => TelemetryAction::TakeEvent,
            TelemetryWait::TimedOut => TelemetryAction::SendHeartbeat {
                new_protocol: follower.new_protocol,
            },
            TelemetryWait::Failed => TelemetryAction::Disconnect,
        },
{
    match wait {
        TelemetryWait::Event => TelemetryAction::TakeEvent,
        TelemetryWait::TimedOut => TelemetryAction::SendHeartbeat {
            new_protocol: follower.new_protocol,
        },
        TelemetryWait::Failed => TelemetryAction::Disconnect,
    }
}

/// The matrix polling of firmware without telemetry: the layer tracker and
/// the last matrix passed on.
pub struct FallbackPoller {
    pub tracker: FallbackLayerTracker,
    pub last_matrix: Option<Matrix>,
}

impl Default for FallbackPoller {
    /// A fresh tracker (layer 0, nothing pressed) and no matrix passed on.
    fn default() -> (r: Self)
        ensures
            r.tracker.persistent_mask == 1,
            is_empty_matrix(r.tracker.previous_matrix),
            r.last_matrix is None,
    {
        FallbackPoller { tracker: FallbackLayerTracker::default(), last_matrix: None }
    }
}

impl FallbackPoller {
    /// Starts over after the keymap was read again: a fresh tracker and no
    /// matrix passed on.
    pub fn reset(&mut self)
        ensures
            final(self).tracker.persistent_mask == 1,
            is_empty_matrix(final(self).tracker.previous_matrix),
            final(self).last_matrix is None,
    {
        self.tracker = FallbackLayerTracker::default();
        self.last_matrix = None;
    }

    /// Takes one polled matrix: the tracker follows it, and when it differs
    /// from the last matrix passed on it becomes that matrix and the layer
    /// to show is returned; otherwise nothing is to be shown.
    pub fn poll(&mut self, matrix: &Matrix, keycodes: &Keycodes, layer_count: usize) -> (r: Option<
        usize,
    >)
        ensures
            ({
                let (mask, layer) = spec_tracker_update(
                    old(self).tracker.persistent_mask,
                    old(self).tracker.previous_matrix,
                    *matrix,
                    *keycodes,
                    layer_count,
                );
                &&& final(self).tracker.persistent_mask == mask
                &&& final(self).tracker.previous_matrix == *matrix
                &&& final(self).last_matrix == Some(*matrix)
                &&& r == if old(self).last_matrix != Some(*matrix) {
                    Some(layer)
                } else {
                    None::<usize>
                }
            }),
    {
        let layer = self.tracker.update(matrix, keycodes, layer_count);
        if poll_changed(&self.last_matrix, matrix) {
            self.last_matrix = Some(*matrix);
            Some(layer)
        } else {
            None
        }
    }
}

/// An event that repeats the last one passed on changes nothing: no key
/// changes, the same layer and the same touchpad, so `observe` reports it
/// unchanged and passes it on no second time.
pub proof fn lemma_repeated_event_is_unchanged(follower: TelemetryFollower, event: TelemetryEvent)
    requires
        follower.last_matrix == event.matrix,
        follower.last_layer == event.active_layer,
        follower.last_touchpad == event.touchpad,
    ensures
        key_changes(follower.last_matrix, event.matrix, KEY_COUNT as nat).len() == 0,
        event.active_layer == follower.last_layer,
        !(follower.last_touchpad != event.touchpad),
{
    lemma_no_changes_iff_same_keys(follower.last_matrix, event.matrix, KEY_COUNT as nat);
}

} // verus!
