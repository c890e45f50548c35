use vstd::prelude::*;

use crate::keycode::{layers_searched, resolve_keycode, spec_resolve_keycode, KC_NO};
use crate::label::{compact_label, keycode_label, spec_compact_label, spec_keycode_label};
use crate::layer::{infer_active_layer, spec_active_mask_from_pressed, spec_highest_layer};
use crate::matrix::{
    empty_matrix, is_empty_matrix, key_col, key_position, key_pressed, key_row, pressed_at,
    Keycodes, Matrix, COLS, KEY_COUNT, MAX_LAYERS, ROWS,
};
use crate::report::{
    key_changes, key_name, matrix_change_text, matrix_changes, pressed_count, pressed_key_count,
    spec_change_text,
};
use crate::telemetry::{idle_touchpad, is_idle_touchpad, TouchpadTelemetry};
use crate::text::{decimal, join_texts, joined, push_decimal, text_of, texts};

verus! {

/// How long a pressed key stays lit after its last sighting, in
/// microseconds.
pub const KEY_FLASH_DURATION_US: u64 = 75_000;

/// Number of cells of the switch matrix.
pub const CELL_COUNT: usize = 70;

/// When a key seen pressed at `now` stops being lit: `KEY_FLASH_DURATION_US`
/// later, or the last time the clock can show where that comes sooner.
pub open spec fn flash_deadline(now: u64) -> u64 {
    if now + KEY_FLASH_DURATION_US <= u64::MAX {
        (now + KEY_FLASH_DURATION_US) as u64
    } else {
        u64::MAX
    }
}

/// A time on one monotonic clock, in microseconds, for every cell.
pub type CellTimes = [[Option<u64>; 7]; 10];

/// Touchpad contacts, and when they were last reported.
#[derive(Clone, Copy)]
pub struct TouchpadState {
    pub telemetry: TouchpadTelemetry,
    pub last_update: Option<u64>,
}

/// Everything the viewer shows: the connection, the keymap, the live
/// matrix and touchpad. Times are microseconds on one monotonic clock.
#[derive(Clone)]
pub struct LiveState {
    pub connected: bool,
    pub device_path: String,
    pub status: String,
    pub layer_count: usize,
    pub layer_names: [String; 10],
    pub active_layer: Option<usize>,
    pub keycodes: Keycodes,
    pub matrix: Matrix,
    pub visible_until: CellTimes,
    pub pressed_since: CellTimes,
    pub last_update: Option<u64>,
    pub touchpad: TouchpadState,
    pub error: Option<String>,
    pub keymap_reload_requested: bool,
}

/// The time stored for the cell at `row`, `col`.
pub open spec fn cell_time(times: CellTimes, row: int, col: int) -> Option<u64> {
    times@[row]@[col]
}

/// Every cell of `times` is unset.
pub open spec fn no_cell_times(times: CellTimes) -> bool {
    forall|row: int, col: int|
        0 <= row < ROWS && 0 <= col < COLS ==> #[trigger] cell_time(times, row, col) is None
}

/// Every keycode of the keymap is `KC_NO`.
pub open spec fn is_blank_keymap(keycodes: Keycodes) -> bool {
    forall|layer: int, row: int, col: int|
        0 <= layer < MAX_LAYERS && 0 <= row < ROWS && 0 <= col < COLS ==> #[trigger] keycodes@[layer]@[row]@[col]
            == KC_NO
}

/// The name a layer has until the board gives it one: "L" and its number.
pub open spec fn default_layer_name(layer: int) -> Seq<char> {
    "L"@ + decimal(layer as nat)
}

/// The touchpad as it is with no report: idle, never updated.
pub open spec fn is_cleared_touchpad(t: TouchpadState) -> bool {
    is_idle_touchpad(t.telemetry) && t.last_update is None
}

/// The connection and keymap part of the state is the same in `a` and `b`.
pub open spec fn same_connection_and_keymap(a: LiveState, b: LiveState) -> bool {
    &&& a.connected == b.connected
    &&& a.device_path == b.device_path
    &&& a.status == b.status
    &&& a.layer_count == b.layer_count
    &&& a.layer_names == b.layer_names
    &&& a.keycodes == b.keycodes
    &&& a.error == b.error
    &&& a.keymap_reload_requested == b.keymap_reload_requested
}

/// The keymap part of the state (layer count and names, keycodes, reload
/// request) is the same in `a` and `b`.
pub open spec fn same_keymap(a: LiveState, b: LiveState) -> bool {
    &&& a.layer_count == b.layer_count
    &&& a.layer_names == b.layer_names
    &&& a.keycodes == b.keycodes
    &&& a.keymap_reload_requested == b.keymap_reload_requested
}

/// `after` holds the press times and highlights of `before` updated by a
/// poll that saw `matrix` at `now`.
pub open spec fn updated_press_times(before: LiveState, after: LiveState, matrix: Matrix, now: u64) -> bool {
    &&& forall|row: int, col: int|
        0 <= row < ROWS && 0 <= col < COLS ==> #[trigger] cell_time(after.pressed_since, row, col)
            == next_pressed_since(
            pressed_at(before.matrix, row, col),
            pressed_at(matrix, row, col),
            cell_time(before.pressed_since, row, col),
            now,
        )
    &&& forall|row: int, col: int|
        0 <= row < ROWS && 0 <= col < COLS ==> #[trigger] cell_time(after.visible_until, row, col)
            == if pressed_at(matrix, row, col) {
            Some(flash_deadline(now))
        } else {
            cell_time(before.visible_until, row, col)
        }
}

/// The matrix, its times, the last update and the touchpad are the same in
/// `a` and `b`.
pub open spec fn same_matrix_content(a: LiveState, b: LiveState) -> bool {
    &&& a.matrix == b.matrix
    &&& a.visible_until == b.visible_until
    &&& a.pressed_since == b.pressed_since
    &&& a.last_update == b.last_update
    &&& a.touchpad == b.touchpad
}

/// The live matrix part of the state is the same in `a` and `b`.
pub open spec fn same_live_matrix(a: LiveState, b: LiveState) -> bool {
    &&& a.active_layer == b.active_layer
    &&& a.matrix == b.matrix
    &&& a.visible_until == b.visible_until
    &&& a.pressed_since == b.pressed_since
    &&& a.last_update == b.last_update
    &&& a.touchpad == b.touchpad
}

/// When a key was first seen pressed, after a poll that saw it `now` as
/// `is_down` while it was `was_down`: a new press starts now, a held key keeps its
/// start, a key that is up has none.
pub open spec fn next_pressed_since(was_down: bool, is_down: bool, since: Option<u64>, now: u64) -> Option<
    u64,
> {
    if !was_down && is_down {
        Some(now)
    } else if was_down && is_down {
        since
    } else {
        None
    }
}

/// The whole milliseconds from `since` to `now`, or 0 when `since` is later.
pub open spec fn elapsed_ms(since: u64, now: u64) -> nat {
    if now >= since {
        ((now - since) / 1000) as nat
    } else {
        0
    }
}

/// The Debug text of an optional number.
pub open spec fn option_debug(value: Option<usize>) -> Seq<char> {
    match value {
        Some(v) => "Some("@ + decimal(v as nat) + ")"@,
        None => "None"@,
    }
}

/// How long each key released by a poll had been held, for the first `n`
/// cells in row-major order: "r", row, "c", column, ":", milliseconds, "ms".
pub open spec fn release_ages(
    previous: Matrix,
    current: Matrix,
    since: CellTimes,
    now: u64,
    n: nat,
) -> Seq<Seq<char>>
    decreases n,
{
    if n == 0 {
        Seq::empty()
    } else {
        let before = release_ages(previous, current, since, now, (n - 1) as nat);
        let row = (n - 1) / 7;
        let col = (n - 1) % 7;
        if pressed_at(previous, row, col) && !pressed_at(current, row, col) && cell_time(
            since,
            row,
            col,
        ) is Some {
            before.push(
                "r"@ + decimal(row as nat) + "c"@ + decimal(col as nat) + ":"@ + decimal(
                    elapsed_ms(cell_time(since, row, col)->0, now),
                ) + "ms"@,
            )
        } else {
            before
        }
    }
}

/// The trace lines of a matrix update: the new layer, the number of pressed
/// keys and the changes; then, when keys were released, how long each had
/// been held.
pub open spec fn update_log(
    previous: Matrix,
    since: CellTimes,
    matrix: Matrix,
    active_layer: Option<usize>,
    now: u64,
) -> Seq<Seq<char>> {
    let first = "state_update layer="@ + option_debug(active_layer) + " pressed="@ + decimal(
        pressed_key_count(matrix, KEY_COUNT as nat),
    ) + " changes="@ + spec_change_text(key_changes(previous, matrix, KEY_COUNT as nat));
    let releases = release_ages(previous, matrix, since, now, CELL_COUNT as nat);
    if releases.len() == 0 {
        seq![first]
    } else {
        seq![first, "release_ages "@ + joined(releases, ","@)]
    }
}

/// The time until a key's highlight ends, if it has not ended before `now`.
pub open spec fn expiry_after(until: Option<u64>, now: u64) -> Option<u64> {
    match until {
        Some(u) => if u >= now {
            Some((u - now) as u64)
        } else {
            None
        },
        None => None,
    }
}

/// The smaller of two optional times; a missing one does not count.
pub open spec fn earlier(a: Option<u64>, b: Option<u64>) -> Option<u64> {
    match (a, b) {
        (Some(x), Some(y)) => Some(
            if x <= y {
                x
            } else {
                y
            },
        ),
        (Some(x), None) => Some(x),
        (None, y) => y,
    }
}

/// The soonest end of a highlight among the first `n` cells.
pub open spec fn earliest_expiry(visible: CellTimes, now: u64, n: nat) -> Option<u64>
    decreases n,
{
    if n == 0 {
        None
    } else {
        earlier(
            earliest_expiry(visible, now, (n - 1) as nat),
            expiry_after(cell_time(visible, (n - 1) / 7, (n - 1) % 7), now),
        )
    }
}

/// The cell of index `n` in row-major order holds the time `u`, which is not
/// before `now`: its highlight ends `u - now` from now.
pub open spec fn cell_ends_after(visible: CellTimes, now: u64, n: int, u: u64) -> bool {
    cell_time(visible, n / 7, n % 7) == Some(u) && u >= now
}

/// The soonest end of a highlight among the first `n` cells is the least
/// remaining time of those cells whose highlight has not ended before `now`:
/// it is no later than any of them and is the remaining time of one of
/// them; there is none exactly when every highlight has ended.
pub proof fn lemma_earliest_expiry_is_least(visible: CellTimes, now: u64, n: nat)
    ensures
        earliest_expiry(visible, now, n) is None <==> (forall|i: int, u: u64|
            0 <= i < n ==> !#[trigger] cell_ends_after(visible, now, i, u)),
        earliest_expiry(visible, now, n) matches Some(x) ==> (forall|i: int, u: u64|
            0 <= i < n && #[trigger] cell_ends_after(visible, now, i, u) ==> x <= u - now),
        earliest_expiry(visible, now, n) matches Some(x) ==> (exists|i: int, u: u64|
            0 <= i < n && #[trigger] cell_ends_after(visible, now, i, u) && x == u - now),
    decreases n,
{
    if n > 0 {
        let k = n - 1;
        lemma_earliest_expiry_is_least(visible, now, k as nat);
        let t = cell_time(visible, k / 7, k % 7);
        if let Some(u) = t {
            if u >= now {
                assert(cell_ends_after(visible, now, k, u));
            }
        }
        assert forall|i: int, u: u64|
            0 <= i < n && #[trigger] cell_ends_after(visible, now, i, u) implies i < k || (t
                == Some(u) && u >= now) by {}
    }
}

/// Whether the highlight of physical key `i` lasts past `now`.
pub open spec fn key_lit(visible: CellTimes, i: int, now: u64) -> bool {
    match cell_time(visible, key_row(i), key_col(i)) {
        Some(until) => until > now,
        None => false,
    }
}

/// The number of keys among the first `n` that are drawn pressed: pressed,
/// or still lit.
pub open spec fn visible_key_count(matrix: Matrix, visible: CellTimes, now: u64, n: nat) -> nat
    decreases n,
{
    if n == 0 {
        0
    } else {
        visible_key_count(matrix, visible, now, (n - 1) as nat) + if key_pressed(matrix, n - 1)
            || key_lit(visible, n - 1, now) {
            1nat
        } else {
            0nat
        }
    }
}

/// The number of keys among the first `n` that are lit but not pressed.
pub open spec fn lit_only_key_count(matrix: Matrix, visible: CellTimes, now: u64, n: nat) -> nat
    decreases n,
{
    if n == 0 {
        0
    } else {
        lit_only_key_count(matrix, visible, now, (n - 1) as nat) + if !key_pressed(matrix, n - 1)
            && key_lit(visible, n - 1, now) {
            1nat
        } else {
            0nat
        }
    }
}

/// The compact label of physical key `i` on `layer`.
pub open spec fn key_label(keycodes: Keycodes, layer: usize, i: int) -> Seq<char> {
    spec_compact_label(
        spec_keycode_label(
            spec_resolve_keycode(keycodes, layers_searched(layer), key_row(i), key_col(i)),
        ),
    )
}

/// The labels of the pressed keys among the first `n`, on `layer`: the
/// key's label, a space and its name.
pub open spec fn pressed_key_labels(matrix: Matrix, keycodes: Keycodes, layer: usize, n: nat) -> Seq<
    Seq<char>,
>
    decreases n,
{
    if n == 0 {
        Seq::empty()
    } else {
        let before = pressed_key_labels(matrix, keycodes, layer, (n - 1) as nat);
        if key_pressed(matrix, n - 1) {
            before.push(key_label(keycodes, layer, n - 1) + " "@ + key_name(n - 1))
        } else {
            before
        }
    }
}

/// The layer shown: the reported one, or else the one inferred from the
/// pressed keys, but never past the last layer.
pub open spec fn spec_current_active_layer(state: LiveState) -> usize {
    let layer = match state.active_layer {
        Some(layer) => layer,
        None => spec_highest_layer(
            spec_active_mask_from_pressed(state.matrix, state.keycodes, state.layer_count, 1),
        ),
    };
    let last = if state.layer_count == 0 {
        0
    } else {
        (state.layer_count - 1) as usize
    };
    if layer < last {
        layer
    } else {
        last
    }
}

/// The age of the press of physical key `i` at `now`, if it is pressed,
/// its press time is known and not later than `now`.
pub open spec fn press_age(state: LiveState, i: int, now: u64) -> Option<u64> {
    if key_pressed(state.matrix, i) {
        match cell_time(state.pressed_since, key_row(i), key_col(i)) {
            Some(since) => if now >= since {
                Some((now - since) as u64)
            } else {
                None
            },
            None => None,
        }
    } else {
        None
    }
}

/// The keys among the first `n` that have been held for at least
/// `threshold`: label on the shown layer, name, and age in milliseconds.
pub open spec fn stale_key_labels(state: LiveState, now: u64, threshold: u64, n: nat) -> Seq<
    Seq<char>,
>
    decreases n,
{
    if n == 0 {
        Seq::empty()
    } else {
        let before = stale_key_labels(state, now, threshold, (n - 1) as nat);
        let i = n - 1;
        match press_age(state, i, now) {
            Some(age) => if age >= threshold {
                before.push(
                    key_label(state.keycodes, spec_current_active_layer(state), i) + " "@
                        + key_name(i) + " "@ + decimal((age / 1000) as nat) + "ms"@,
                )
            } else {
                before
            },
            None => before,
        }
    }
}

/// The name "L" and `layer`.
fn default_layer_name_text(layer: u64) -> (r: String)
    ensures
        r@ == default_layer_name(layer as int),
{
    let mut name = text_of("L");
    push_decimal(&mut name, layer);
    name
}

/// The default names of all layers.
pub fn default_layer_names() -> (r: [String; 10])
    ensures
        forall|i: int| 0 <= i < MAX_LAYERS ==> #[trigger] r@[i]@ == default_layer_name(i),
{
    let names = [
        default_layer_name_text(0),
        default_layer_name_text(1),
        default_layer_name_text(2),
        default_layer_name_text(3),
        default_layer_name_text(4),
        default_layer_name_text(5),
        default_layer_name_text(6),
        default_layer_name_text(7),
        default_layer_name_text(8),
        default_layer_name_text(9),
    ];
    names
}

/// A keymap of `KC_NO` only.
pub fn blank_keymap() -> (r: Keycodes)
    ensures
        is_blank_keymap(r),
{
    [[[KC_NO; 7]; 10]; 10]
}

/// No time for any cell.
pub fn no_times() -> (r: CellTimes)
    ensures
        no_cell_times(r),
{
    [[None; 7]; 10]
}

impl Default for TouchpadState {
    /// Idle and never updated.
    fn default() -> (r: Self)
        ensures
            is_cleared_touchpad(r),
    {
        TouchpadState { telemetry: idle_touchpad(), last_update: None }
    }
}

impl Default for LiveState {
    /// Not connected and scanning, with every layer of the default names, a
    /// blank keymap, nothing pressed and no touchpad report.
    fn default() -> (r: Self)
        ensures
            !r.connected,
            r.device_path@ == Seq::<char>::empty(),
            r.status@ == "Scanning for Sofle Plus 2"@,
            r.layer_count == MAX_LAYERS,
            forall|i: int| 0 <= i < MAX_LAYERS ==> #[trigger] r.layer_names@[i]@ == default_layer_name(i),
            r.active_layer is None,
            is_blank_keymap(r.keycodes),
            is_empty_matrix(r.matrix),
            no_cell_times(r.visible_until),
            no_cell_times(r.pressed_since),
            r.last_update is None,
            is_cleared_touchpad(r.touchpad),
            r.error is None,
            !r.keymap_reload_requested,
    {
        LiveState {
            connected: false,
            device_path: String::new(),
            status: text_of("Scanning for Sofle Plus 2"),
            layer_count: MAX_LAYERS,
            layer_names: default_layer_names(),
            active_layer: None,
            keycodes: blank_keymap(),
            matrix: empty_matrix(),
            visible_until: no_times(),
            pressed_since: no_times(),
            last_update: None,
            touchpad: TouchpadState { telemetry: idle_touchpad(), last_update: None },
            error: None,
            keymap_reload_requested: false,
        }
    }
}

/// The Debug text of an optional layer.
fn option_debug_text(value: Option<usize>) -> (r: String)
    ensures
        r@ == option_debug(value),
{
    match value {
        Some(v) => {
            let mut out = text_of("Some(");
            push_decimal(&mut out, v as u64);
            out.append(")");
            out
        },
        None => text_of("None"),
    }
}

/// The release entry of the cell at `row`, `col`.
fn release_entry(row: usize, col: usize, ms: u64) -> (r: String)
    ensures
        r@ == "r"@ + decimal(row as nat) + "c"@ + decimal(col as nat) + ":"@ + decimal(ms as nat)
            + "ms"@,
{
    let mut out = text_of("r");
    push_decimal(&mut out, row as u64);
    out.append("c");
    push_decimal(&mut out, col as u64);
    out.append(":");
    push_decimal(&mut out, ms);
    out.append("ms");
    out
}

/// Takes a new matrix: starts or ends the press times, lights every pressed
/// key until `KEY_FLASH_DURATION_US` after `now` (at most until the end of
/// the clock), records the new matrix,
/// layer and update time. Returns the trace lines of the update.
pub fn apply_matrix_update(
    state: &mut LiveState,
    matrix: Matrix,
    active_layer: Option<usize>,
    now: u64,
) -> (log: Vec<String>)
    ensures
        final(state).matrix == matrix,
        final(state).active_layer == active_layer,
        final(state).last_update == Some(now),
        updated_press_times(*old(state), *final(state), matrix, now),
        final(state).touchpad == old(state).touchpad,
        same_connection_and_keymap(*final(state), *old(state)),
        texts(log@) == update_log(old(state).matrix, old(state).pressed_since, matrix, active_layer, now),
{
    let changes = matrix_changes(&state.matrix, &matrix);
    let previous = state.matrix;
    let mut first = text_of("state_update layer=");
    let layer_text = option_debug_text(active_layer);
    first.append(layer_text.as_str());
    first.append(" pressed=");
    push_decimal(&mut first, pressed_count(&matrix) as u64);
    first.append(" changes=");
    let change_text = matrix_change_text(changes.as_slice());
    first.append(change_text.as_str());

    let ghost old_since = state.pressed_since;
    let ghost old_visible = state.visible_until;
    let mut releases: Vec<String> = Vec::new();
    let until = now.saturating_add(KEY_FLASH_DURATION_US);
    let mut cell: usize = 0;
    while cell < CELL_COUNT
        invariant
            cell <= CELL_COUNT,
            previous == old(state).matrix,
            old_since == old(state).pressed_since,
            old_visible == old(state).visible_until,
            until == flash_deadline(now),
            same_connection_and_keymap(*state, *old(state)),
            state.matrix == old(state).matrix,
            state.active_layer == old(state).active_layer,
            state.last_update == old(state).last_update,
            state.touchpad == old(state).touchpad,
            texts(releases@) == release_ages(previous, matrix, old_since, now, cell as nat),
            forall|row: int, col: int|
                0 <= row < ROWS && 0 <= col < COLS ==> #[trigger] cell_time(
                    state.pressed_since,
                    row,
                    col,
                ) == if row * 7 + col < cell {
                    next_pressed_since(
                        pressed_at(previous, row, col),
                        pressed_at(matrix, row, col),
                        cell_time(old_since, row, col),
                        now,
                    )
                } else {
                    cell_time(old_since, row, col)
                },
            forall|row: int, col: int|
                0 <= row < ROWS && 0 <= col < COLS ==> #[trigger] cell_time(
                    state.visible_until,
                    row,
                    col,
                ) == if row * 7 + col < cell && pressed_at(matrix, row, col) {
                    Some(until)
                } else {
                    cell_time(old_visible, row, col)
                },
        decreases CELL_COUNT - cell,
    {
        let row = cell / 7;
        let col = cell % 7;
        let was_down = previous[row][col];
        let is_down = matrix[row][col];
        let since = state.pressed_since[row][col];
        let ghost before_since = state.pressed_since;
        let ghost before_visible = state.visible_until;
        let ghost before_releases = releases@;
        assert(row * 7 + col == cell);
        assert(since == cell_time(state.pressed_since, row as int, col as int));
        assert(since == cell_time(old_since, row as int, col as int));
        assert(release_ages(previous, matrix, old_since, now, (cell + 1) as nat) == if was_down
            && !is_down && since is Some {
            release_ages(previous, matrix, old_since, now, cell as nat).push(
                "r"@ + decimal(row as nat) + "c"@ + decimal(col as nat) + ":"@ + decimal(
                    elapsed_ms(since->0, now),
                ) + "ms"@,
            )
        } else {
            release_ages(previous, matrix, old_since, now, cell as nat)
        });
        let next = if !was_down && is_down {
            Some(now)
        } else if was_down && is_down {
            since
        } else {
            None
        };
        if was_down && !is_down {
            if let Some(start) = since {
                let ms = if now >= start {
                    (now - start) / 1000
                } else {
                    0
                };
                let entry = release_entry(row, col, ms);
                releases.push(entry);
                assert(texts(releases@) =~= texts(before_releases).push(entry@));
            }
        }
        state.pressed_since[row][col] = next;
        if is_down {
            state.visible_until[row][col] = Some(until);
        }
        assert forall|r: int, c: int|
            0 <= r < ROWS && 0 <= c < COLS implies #[trigger] cell_time(state.pressed_since, r, c)
                == if r * 7 + c < cell + 1 {
                next_pressed_since(
                    pressed_at(previous, r, c),
                    pressed_at(matrix, r, c),
                    cell_time(old_since, r, c),
                    now,
                )
            } else {
                cell_time(old_since, r, c)
            } by {
            assert(cell_time(before_since, r, c) == if r * 7 + c < cell {
                next_pressed_since(
                    pressed_at(previous, r, c),
                    pressed_at(matrix, r, c),
                    cell_time(old_since, r, c),
                    now,
                )
            } else {
                cell_time(old_since, r, c)
            });
            if r != row as int || c != col as int {
                assert(r * 7 + c != cell as int);
            }
        }
        assert forall|r: int, c: int|
            0 <= r < ROWS && 0 <= c < COLS implies #[trigger] cell_time(state.visible_until, r, c)
                == if r * 7 + c < cell + 1 && pressed_at(matrix, r, c) {
                Some(until)
            } else {
                cell_time(old_visible, r, c)
            } by {
            assert(cell_time(before_visible, r, c) == if r * 7 + c < cell && pressed_at(
                matrix,
                r,
                c,
            ) {
                Some(until)
            } else {
                cell_time(old_visible, r, c)
            });
            if r != row as int || c != col as int {
                assert(r * 7 + c != cell as int);
            }
        }
        cell = cell + 1;
    }
    let mut log: Vec<String> = Vec::new();
    log.push(first);
    if releases.len() > 0 {
        let mut second = text_of("release_ages ");
        let joined_releases = join_texts(releases.as_slice(), ",");
        second.append(joined_releases.as_str());
        log.push(second);
    }
    state.matrix = matrix;
    state.active_layer = active_layer;
    state.last_update = Some(now);
    proof {
        let expected = update_log(old(state).matrix, old(state).pressed_since, matrix, active_layer, now);
        assert(texts(log@) =~= expected);
    }
    log
}

/// Takes a new touchpad report, received at `now`.
pub fn apply_touchpad_update(state: &mut LiveState, touchpad: TouchpadTelemetry, now: u64)
    ensures
        final(state).touchpad.telemetry == touchpad,
        final(state).touchpad.last_update == Some(now),
        same_connection_and_keymap(*final(state), *old(state)),
        final(state).active_layer == old(state).active_layer,
        final(state).matrix == old(state).matrix,
        final(state).visible_until == old(state).visible_until,
        final(state).pressed_since == old(state).pressed_since,
        final(state).last_update == old(state).last_update,
{
    state.touchpad.telemetry = touchpad;
    state.touchpad.last_update = Some(now);
}

/// Forgets the live matrix and touchpad: nothing pressed, nothing lit, no
/// press times, no touchpad report.
pub fn clear_matrix_state(state: &mut LiveState)
    ensures
        is_empty_matrix(final(state).matrix),
        no_cell_times(final(state).visible_until),
        no_cell_times(final(state).pressed_since),
        is_cleared_touchpad(final(state).touchpad),
        same_connection_and_keymap(*final(state), *old(state)),
        final(state).active_layer == old(state).active_layer,
        final(state).last_update == old(state).last_update,
{
    state.matrix = empty_matrix();
    state.visible_until = no_times();
    state.pressed_since = no_times();
    state.touchpad = TouchpadState { telemetry: idle_touchpad(), last_update: None };
}

/// Asks for the keymap to be read again.
pub fn request_keymap_reload(state: &mut LiveState)
    ensures
        final(state).keymap_reload_requested,
        final(state).status@ == "Reloading keymap"@,
        final(state).connected == old(state).connected,
        final(state).device_path == old(state).device_path,
        final(state).layer_count == old(state).layer_count,
        final(state).layer_names == old(state).layer_names,
        final(state).keycodes == old(state).keycodes,
        final(state).error == old(state).error,
        same_live_matrix(*final(state), *old(state)),
{
    state.keymap_reload_requested = true;
    state.status = text_of("Reloading keymap");
}

/// Whether a keymap reload was asked for; the request is taken, so a second
/// call answers `false` until the next request.
pub fn take_keymap_reload(state: &mut LiveState) -> (requested: bool)
    ensures
        requested == old(state).keymap_reload_requested,
        !final(state).keymap_reload_requested,
        final(state).connected == old(state).connected,
        final(state).device_path == old(state).device_path,
        final(state).status == old(state).status,
        final(state).layer_count == old(state).layer_count,
        final(state).layer_names == old(state).layer_names,
        final(state).keycodes == old(state).keycodes,
        final(state).error == old(state).error,
        same_live_matrix(*final(state), *old(state)),
{
    let requested = state.keymap_reload_requested;
    state.keymap_reload_requested = false;
    requested
}

/// The keymap and layer count, for the layer tracker.
pub fn keymap_snapshot(state: &LiveState) -> (r: (Keycodes, usize))
    ensures
        r == (state.keycodes, state.layer_count),
{
    (state.keycodes, state.layer_count)
}

/// The layer shown: the reported one, or the one the pressed keys turn on,
/// never past the last layer.
pub fn current_active_layer(state: &LiveState) -> (r: usize)
    ensures
        r == spec_current_active_layer(*state),
{
    let layer = match state.active_layer {
        Some(layer) => layer,
        None => infer_active_layer(&state.matrix, &state.keycodes, state.layer_count),
    };
    let last = if state.layer_count == 0 {
        0
    } else {
        state.layer_count - 1
    };
    if layer < last {
        layer
    } else {
        last
    }
}

/// The time from `now` until the first key highlight that has not ended
/// ends, if there is one.
pub fn next_visible_expiry(state: &LiveState, now: u64) -> (r: Option<u64>)
    ensures
        r == earliest_expiry(state.visible_until, now, CELL_COUNT as nat),
{
    let mut soonest: Option<u64> = None;
    let mut cell: usize = 0;
    while cell < CELL_COUNT
        invariant
            cell <= CELL_COUNT,
            soonest == earliest_expiry(state.visible_until, now, cell as nat),
        decreases CELL_COUNT - cell,
    {
        let until = state.visible_until[cell / 7][cell % 7];
        assert(until == cell_time(state.visible_until, (cell / 7) as int, (cell % 7) as int));
        let left = match until {
            Some(u) => if u >= now {
                Some(u - now)
            } else {
                None
            },
            None => None,
        };
        soonest = match (soonest, left) {
            (Some(x), Some(y)) => Some(
                if x <= y {
                    x
                } else {
                    y
                },
            ),
            (Some(x), None) => Some(x),
            (None, y) => y,
        };
        cell = cell + 1;
    }
    soonest
}

/// The label of the key at `row`, `col` on `layer`, compacted.
fn key_label_text(keycodes: &Keycodes, layer: usize, row: usize, col: usize) -> (r: String)
    requires
        row < ROWS,
        col < COLS,
    ensures
        r@ == spec_compact_label(
            spec_keycode_label(
                spec_resolve_keycode(*keycodes, layers_searched(layer), row as int, col as int),
            ),
        ),
{
    let keycode = resolve_keycode(keycodes, layer, row, col);
    let label = keycode_label(keycode);
    compact_label(label.as_str())
}

/// `label`, a space, and the name of the key at `row`, `col`.
fn labelled_key(label: String, row: usize, col: usize) -> (r: String)
    ensures
        r@ == label@ + " "@ + "r"@ + decimal(row as nat) + "c"@ + decimal(col as nat),
{
    let mut out = label;
    out.append(" r");
    push_decimal(&mut out, row as u64);
    out.append("c");
    push_decimal(&mut out, col as u64);
    proof {
        reveal_strlit(" r");
        reveal_strlit(" ");
        reveal_strlit("r");
    }
    assert(out@ =~= label@ + " "@ + "r"@ + decimal(row as nat) + "c"@ + decimal(col as nat));
    out
}

/// The labels of the pressed keys on `active_layer`, in key order.
pub fn pressed_labels(state: &LiveState, active_layer: usize) -> (r: Vec<String>)
    ensures
        texts(r@) == pressed_key_labels(state.matrix, state.keycodes, active_layer, KEY_COUNT as nat),
{
    let mut labels: Vec<String> = Vec::new();
    let mut index: usize = 0;
    while index < KEY_COUNT
        invariant
            index <= KEY_COUNT,
            texts(labels@) == pressed_key_labels(
                state.matrix,
                state.keycodes,
                active_layer,
                index as nat,
            ),
        decreases KEY_COUNT - index,
    {
        let (row, col) = key_position(index);
        if state.matrix[row][col] {
            let label = key_label_text(&state.keycodes, active_layer, row, col);
            let text = labelled_key(label, row, col);
            assert(text@ =~= key_label(state.keycodes, active_layer, index as int) + " "@ + key_name(
                index as int,
            ));
            let ghost before = labels@;
            labels.push(text);
            assert(texts(labels@) =~= texts(before).push(text@));
        }
        index = index + 1;
    }
    labels
}

/// Whether the highlight of the key at `row`, `col` lasts past `now`.
fn lit_at(visible: &CellTimes, row: usize, col: usize, now: u64) -> (r: bool)
    requires
        row < ROWS,
        col < COLS,
    ensures
        r == match cell_time(*visible, row as int, col as int) {
            Some(until) => until > now,
            None => false,
        },
{
    match visible[row][col] {
        Some(until) => until > now,
        None => false,
    }
}

/// The number of keys drawn pressed at `now`: pressed, or still lit.
pub fn visible_count(state: &LiveState, now: u64) -> (r: usize)
    ensures
        r == visible_key_count(state.matrix, state.visible_until, now, KEY_COUNT as nat),
{
    let mut count: usize = 0;
    let mut index: usize = 0;
    while index < KEY_COUNT
        invariant
            index <= KEY_COUNT,
            count == visible_key_count(state.matrix, state.visible_until, now, index as nat),
            count <= index,
        decreases KEY_COUNT - index,
    {
        let (row, col) = key_position(index);
        if state.matrix[row][col] || lit_at(&state.visible_until, row, col, now) {
            count = count + 1;
        }
        index = index + 1;
    }
    count
}

/// The number of keys that are lit at `now` without being pressed.
pub fn visual_only_count(state: &LiveState, now: u64) -> (r: usize)
    ensures
        r == lit_only_key_count(state.matrix, state.visible_until, now, KEY_COUNT as nat),
{
    let mut count: usize = 0;
    let mut index: usize = 0;
    while index < KEY_COUNT
        invariant
            index <= KEY_COUNT,
            count == lit_only_key_count(state.matrix, state.visible_until, now, index as nat),
            count <= index,
        decreases KEY_COUNT - index,
    {
        let (row, col) = key_position(index);
        if !state.matrix[row][col] && lit_at(&state.visible_until, row, col, now) {
            count = count + 1;
        }
        index = index + 1;
    }
    count
}

/// The keys held for at least `threshold` microseconds at `now`, with their
/// label on the shown layer and their age in milliseconds.
pub fn stale_pressed_labels(state: &LiveState, now: u64, threshold: u64) -> (r: Vec<String>)
    ensures
        texts(r@) == stale_key_labels(*state, now, threshold, KEY_COUNT as nat),
{
    let mut labels: Vec<String> = Vec::new();
    let mut index: usize = 0;
    while index < KEY_COUNT
        invariant
            index <= KEY_COUNT,
            texts(labels@) == stale_key_labels(*state, now, threshold, index as nat),
        decreases KEY_COUNT - index,
    {
        let (row, col) = key_position(index);
        if state.matrix[row][col] {
            if let Some(since) = state.pressed_since[row][col] {
                if now >= since {
                    let age = now - since;
                    if age >= threshold {
                        let layer = current_active_layer(state);
                        let label = key_label_text(&state.keycodes, layer, row, col);
                        let mut text = labelled_key(label, row, col);
                        text.append(" ");
                        push_decimal(&mut text, age / 1000);
                        text.append("ms");
                        assert(text@ =~= key_label(state.keycodes, layer, index as int) + " "@
                            + key_name(index as int) + " "@ + decimal((age / 1000) as nat) + "ms"@);
                        let ghost before = labels@;
                        labels.push(text);
                        assert(texts(labels@) =~= texts(before).push(text@));
                    }
                }
            }
        }
        index = index + 1;
    }
    labels
}

/// Every pressed key of `state` has a press time, and no released key has
/// one.
pub open spec fn press_times_match(state: LiveState) -> bool {
    forall|row: int, col: int|
        0 <= row < ROWS && 0 <= col < COLS ==> (#[trigger] cell_time(state.pressed_since, row, col)
            is Some <==> pressed_at(state.matrix, row, col))
}

/// Press times follow the matrix: a matrix update keeps every pressed key
/// with a press time and every released key without one, and clearing the
/// matrix (or the default state) starts out that way.
pub proof fn lemma_press_times_follow_matrix(
    before: LiveState,
    after: LiveState,
    matrix: Matrix,
    now: u64,
)
    requires
        press_times_match(before),
        after.matrix == matrix,
        updated_press_times(before, after, matrix, now),
    ensures
        press_times_match(after),
{
    assert forall|row: int, col: int| 0 <= row < ROWS && 0 <= col < COLS implies (#[trigger] cell_time(
        after.pressed_since,
        row,
        col,
    ) is Some <==> pressed_at(after.matrix, row, col)) by {
        assert(cell_time(before.pressed_since, row, col) is Some <==> pressed_at(
            before.matrix,
            row,
            col,
        ));
    }
}

/// Over two polls, a key's press time is the time of the poll that first
/// saw it pressed: a later poll that sees it held keeps that time, and one
/// that sees it released drops it. A poll that sees a key pressed lights it
/// for `KEY_FLASH_DURATION_US` from the poll's time (to the end of the clock
/// where that comes sooner), and leaves the light of every other key as it
/// was.
pub proof fn lemma_press_start_is_first_sighting(
    before: LiveState,
    mid: LiveState,
    after: LiveState,
    first: Matrix,
    second: Matrix,
    t1: u64,
    t2: u64,
    row: int,
    col: int,
)
    requires
        0 <= row < ROWS,
        0 <= col < COLS,
        mid.matrix == first,
        updated_press_times(before, mid, first, t1),
        updated_press_times(mid, after, second, t2),
    ensures
        !pressed_at(before.matrix, row, col) && pressed_at(first, row, col) && pressed_at(
            second,
            row,
            col,
        ) ==> cell_time(after.pressed_since, row, col) == Some(t1),
        !pressed_at(second, row, col) ==> cell_time(after.pressed_since, row, col) is None,
        pressed_at(first, row, col) ==> (cell_time(mid.visible_until, row, col) matches Some(u) && t1
            <= u && u - t1 <= KEY_FLASH_DURATION_US && (t1 + KEY_FLASH_DURATION_US <= u64::MAX
            ==> u == t1 + KEY_FLASH_DURATION_US) && (t1 < u64::MAX ==> u > t1)),
        !pressed_at(first, row, col) ==> cell_time(mid.visible_until, row, col) == cell_time(
            before.visible_until,
            row,
            col,
        ),
{
    assert(cell_time(mid.pressed_since, row, col) == next_pressed_since(
        pressed_at(before.matrix, row, col),
        pressed_at(first, row, col),
        cell_time(before.pressed_since, row, col),
        t1,
    ));
    assert(cell_time(after.pressed_since, row, col) == next_pressed_since(
        pressed_at(mid.matrix, row, col),
        pressed_at(second, row, col),
        cell_time(mid.pressed_since, row, col),
        t2,
    ));
    assert(cell_time(mid.visible_until, row, col) == if pressed_at(first, row, col) {
        Some(flash_deadline(t1))
    } else {
        cell_time(before.visible_until, row, col)
    });
}

/// A state with no key pressed and no press time satisfies the press-time
/// invariant.
pub proof fn lemma_cleared_press_times_match(state: LiveState)
    requires
        is_empty_matrix(state.matrix),
        no_cell_times(state.pressed_since),
    ensures
        press_times_match(state),
{
    assert forall|row: int, col: int| 0 <= row < ROWS && 0 <= col < COLS implies (#[trigger] cell_time(
        state.pressed_since,
        row,
        col,
    ) is Some <==> pressed_at(state.matrix, row, col)) by {
        assert(!pressed_at(state.matrix, row, col));
    }
}

/// The layer shown is always one of the board's layers (layer 0 when the
/// layer count is 0).
pub proof fn lemma_shown_layer_is_valid(state: LiveState)
    ensures
        state.layer_count >= 1 ==> spec_current_active_layer(state) < state.layer_count,
        state.layer_count == 0 ==> spec_current_active_layer(state) == 0,
{
}

} // verus!
