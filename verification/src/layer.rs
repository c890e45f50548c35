use vstd::prelude::*;

use crate::keycode::{
    layers_searched, momentary_layer, resolve_keycode, spec_is_direct_layer_switch,
    spec_momentary_layer, spec_resolve_keycode, is_direct_layer_switch, QK_TOGGLE_LAYER,
    QK_TOGGLE_LAYER_MAX,
};
use crate::matrix::{
    key_col, key_position, key_pressed, key_row, empty_matrix, is_empty_matrix, Keycodes, Matrix,
    KEY_COUNT, MAX_LAYERS,
};

verus! {

// ---------------------------------------------------------------------------
// Layer masks: bit `l` of a `u16` is set when layer `l` is on.
// ---------------------------------------------------------------------------

/// Whether layer `layer` is on in `mask`.
pub open spec fn has_layer(mask: u16, layer: int) -> bool {
    0 <= layer < 16 && (mask >> (layer as u16)) & 1u16 == 1u16
}

/// A layer count forced into `1..=MAX_LAYERS`.
pub open spec fn clamp_layers(layer_count: usize) -> usize {
    if layer_count < 1 {
        1
    } else if layer_count > MAX_LAYERS {
        MAX_LAYERS
    } else {
        layer_count
    }
}

/// The mask of every layer below `clamp_layers(layer_count)`.
pub open spec fn spec_valid_layer_mask(layer_count: usize) -> u16 {
    ((1u32 << (clamp_layers(layer_count) as u32)) - 1u32) as u16
}

/// `mask` restricted to the valid layers; layer 0 alone when nothing is left.
pub open spec fn spec_normalize_layer_mask(mask: u16, layer_count: usize) -> u16 {
    if mask & spec_valid_layer_mask(layer_count) == 0 {
        1
    } else {
        mask & spec_valid_layer_mask(layer_count)
    }
}

/// The highest of the layers below `n` that is on in `mask`, or 0.
pub open spec fn highest_layer_below(mask: u16, n: nat) -> usize
    decreases n,
{
    if n == 0 {
        0
    } else if has_layer(mask, n - 1) {
        (n - 1) as usize
    } else {
        highest_layer_below(mask, (n - 1) as nat)
    }
}

/// The highest layer below `MAX_LAYERS` that is on in `mask`, or 0.
pub open spec fn spec_highest_layer(mask: u16) -> usize {
    highest_layer_below(mask, MAX_LAYERS as nat)
}

/// Every layer that is on in `mask` is below `bound`.
pub open spec fn layers_below(mask: u16, bound: int) -> bool {
    forall|l: int| #[trigger] has_layer(mask, l) ==> l < bound
}

/// Every layer that is on in `small` is on in `large`.
pub open spec fn layers_within(small: u16, large: u16) -> bool {
    forall|l: int| #[trigger] has_layer(small, l) ==> has_layer(large, l)
}

/// The number of layers below `n` that are on in `mask`.
pub open spec fn count_layers(mask: u16, n: nat) -> nat
    decreases n,
{
    if n == 0 {
        0
    } else {
        count_layers(mask, (n - 1) as nat) + if has_layer(mask, n - 1) {
            1nat
        } else {
            0nat
        }
    }
}

proof fn lemma_bit_or(a: u16, b: u16, l: int)
    requires
        0 <= l < 16,
    ensures
        has_layer(a | b, l) == (has_layer(a, l) || has_layer(b, l)),
{
    let s = l as u16;
    assert(((a | b) >> s) & 1u16 == 1u16 <==> ((a >> s) & 1u16 == 1u16 || (b >> s) & 1u16
        == 1u16)) by (bit_vector)
        requires
            s < 16,
    ;
}

proof fn lemma_bit_and(a: u16, b: u16, l: int)
    requires
        0 <= l < 16,
    ensures
        has_layer(a & b, l) == (has_layer(a, l) && has_layer(b, l)),
{
    let s = l as u16;
    assert(((a & b) >> s) & 1u16 == 1u16 <==> ((a >> s) & 1u16 == 1u16 && (b >> s) & 1u16
        == 1u16)) by (bit_vector)
        requires
            s < 16,
    ;
}

proof fn lemma_bit_single(k: u16, l: int)
    requires
        k < 16,
        0 <= l < 16,
    ensures
        has_layer(1u16 << k, l) == (l == k as int),
{
    let s = l as u16;
    assert(((1u16 << k) >> s) & 1u16 == 1u16 <==> s == k) by (bit_vector)
        requires
            s < 16,
            k < 16,
    ;
}

proof fn lemma_bit_xor_single(a: u16, k: u16, l: int)
    requires
        k < 16,
        0 <= l < 16,
    ensures
        has_layer(a ^ (1u16 << k), l) == (has_layer(a, l) != (l == k as int)),
{
    let s = l as u16;
    assert(((a ^ (1u16 << k)) >> s) & 1u16 == 1u16 <==> (((a >> s) & 1u16 == 1u16) != (s
        == k))) by (bit_vector)
        requires
            s < 16,
            k < 16,
    ;
}

proof fn lemma_bit_zero(l: int)
    ensures
        !has_layer(0u16, l),
        has_layer(1u16, l) == (l == 0),
{
    if 0 <= l < 16 {
        let s = l as u16;
        assert((0u16 >> s) & 1u16 != 1u16) by (bit_vector);
        assert((1u16 >> s) & 1u16 == 1u16 <==> s == 0) by (bit_vector);
    }
}

proof fn lemma_bit_mask_test(mask: u16, l: u16)
    requires
        l < 16,
    ensures
        ((mask & (1u16 << l)) != 0) == has_layer(mask, l as int),
{
    assert(((mask & (1u16 << l)) != 0) <==> ((mask >> l) & 1u16 == 1u16)) by (bit_vector)
        requires
            l < 16,
    ;
}

proof fn lemma_valid_mask_bits(layer_count: usize, l: int)
    ensures
        has_layer(spec_valid_layer_mask(layer_count), l) == (0 <= l < clamp_layers(
            layer_count,
        )),
{
    let n = clamp_layers(layer_count) as u32;
    if 0 <= l < 16 {
        let s = l as u16;
        assert(((((1u32 << n) - 1u32) as u16 >> s) & 1u16 == 1u16) <==> (s as u32) < n)
            by (bit_vector)
            requires
                1 <= n <= 10,
                s < 16,
        ;
    }
}

/// Two masks with the same layers are the same mask.
proof fn lemma_mask_ext(a: u16, b: u16)
    requires
        forall|l: int| 0 <= l < 16 ==> has_layer(a, l) == has_layer(b, l),
    ensures
        a == b,
{
    assert(has_layer(a, 0) == has_layer(b, 0));
    assert(has_layer(a, 1) == has_layer(b, 1));
    assert(has_layer(a, 2) == has_layer(b, 2));
    assert(has_layer(a, 3) == has_layer(b, 3));
    assert(has_layer(a, 4) == has_layer(b, 4));
    assert(has_layer(a, 5) == has_layer(b, 5));
    assert(has_layer(a, 6) == has_layer(b, 6));
    assert(has_layer(a, 7) == has_layer(b, 7));
    assert(has_layer(a, 8) == has_layer(b, 8));
    assert(has_layer(a, 9) == has_layer(b, 9));
    assert(has_layer(a, 10) == has_layer(b, 10));
    assert(has_layer(a, 11) == has_layer(b, 11));
    assert(has_layer(a, 12) == has_layer(b, 12));
    assert(has_layer(a, 13) == has_layer(b, 13));
    assert(has_layer(a, 14) == has_layer(b, 14));
    assert(has_layer(a, 15) == has_layer(b, 15));
    assert(a == b) by (bit_vector)
        requires
            ((a >> 0u16) & 1u16 == 1u16) == ((b >> 0u16) & 1u16 == 1u16),
            ((a >> 1u16) & 1u16 == 1u16) == ((b >> 1u16) & 1u16 == 1u16),
            ((a >> 2u16) & 1u16 == 1u16) == ((b >> 2u16) & 1u16 == 1u16),
            ((a >> 3u16) & 1u16 == 1u16) == ((b >> 3u16) & 1u16 == 1u16),
            ((a >> 4u16) & 1u16 == 1u16) == ((b >> 4u16) & 1u16 == 1u16),
            ((a >> 5u16) & 1u16 == 1u16) == ((b >> 5u16) & 1u16 == 1u16),
            ((a >> 6u16) & 1u16 == 1u16) == ((b >> 6u16) & 1u16 == 1u16),
            ((a >> 7u16) & 1u16 == 1u16) == ((b >> 7u16) & 1u16 == 1u16),
            ((a >> 8u16) & 1u16 == 1u16) == ((b >> 8u16) & 1u16 == 1u16),
            ((a >> 9u16) & 1u16 == 1u16) == ((b >> 9u16) & 1u16 == 1u16),
            ((a >> 10u16) & 1u16 == 1u16) == ((b >> 10u16) & 1u16 == 1u16),
            ((a >> 11u16) & 1u16 == 1u16) == ((b >> 11u16) & 1u16 == 1u16),
            ((a >> 12u16) & 1u16 == 1u16) == ((b >> 12u16) & 1u16 == 1u16),
            ((a >> 13u16) & 1u16 == 1u16) == ((b >> 13u16) & 1u16 == 1u16),
            ((a >> 14u16) & 1u16 == 1u16) == ((b >> 14u16) & 1u16 == 1u16),
            ((a >> 15u16) & 1u16 == 1u16) == ((b >> 15u16) & 1u16 == 1u16),
    ;
}

/// A mask with no layer on is zero.
proof fn lemma_mask_empty(a: u16)
    requires
        forall|l: int| 0 <= l < 16 ==> !has_layer(a, l),
    ensures
        a == 0,
{
    assert forall|l: int| 0 <= l < 16 implies has_layer(a, l) == has_layer(0u16, l) by {
        lemma_bit_zero(l);
    }
    lemma_mask_ext(a, 0u16);
}

/// What normalizing does to each layer.
proof fn lemma_normalize_bits(mask: u16, layer_count: usize)
    ensures
        spec_normalize_layer_mask(mask, layer_count) != 0,
        layers_below(
            spec_normalize_layer_mask(mask, layer_count),
            clamp_layers(layer_count) as int,
        ),
        spec_normalize_layer_mask(mask, layer_count) == 1 || forall|l: int|
            #[trigger] has_layer(spec_normalize_layer_mask(mask, layer_count), l) == (has_layer(
                mask,
                l,
            ) && l < clamp_layers(layer_count)),
        (exists|l: int| #[trigger] has_layer(mask, l) && l < clamp_layers(layer_count)) ==> forall|
            l: int,
        |
            #[trigger] has_layer(spec_normalize_layer_mask(mask, layer_count), l) == (has_layer(
                mask,
                l,
            ) && l < clamp_layers(layer_count)),
{
    let valid = spec_valid_layer_mask(layer_count);
    let n = clamp_layers(layer_count);
    let r = spec_normalize_layer_mask(mask, layer_count);
    assert forall|l: int| #[trigger]
        has_layer(mask & valid, l) == (has_layer(mask, l) && 0 <= l < n) by {
        if 0 <= l < 16 {
            lemma_bit_and(mask, valid, l);
        }
        lemma_valid_mask_bits(layer_count, l);
    }
    if mask & valid == 0 {
        assert(r == 1u16);
        assert forall|l: int| #[trigger] has_layer(r, l) implies l < n by {
            lemma_bit_zero(l);
        }
        assert forall|l: int| #[trigger] has_layer(mask, l) implies l >= n by {
            lemma_bit_zero(l);
            assert(!has_layer(mask & valid, l));
        }
    } else {
        assert(r == mask & valid);
        assert forall|l: int| #[trigger] has_layer(r, l) implies l < n by {
            assert(has_layer(mask & valid, l));
        }
        assert forall|l: int| #[trigger]
            has_layer(r, l) == (has_layer(mask, l) && l < n) by {
            assert(has_layer(mask & valid, l) == (has_layer(mask, l) && 0 <= l < n));
        }
    }
}

/// Normalizing keeps a mask that is already normal, so normalizing twice is
/// normalizing once.
pub proof fn lemma_normalize_idempotent(mask: u16, layer_count: usize)
    ensures
        spec_normalize_layer_mask(spec_normalize_layer_mask(mask, layer_count), layer_count)
            == spec_normalize_layer_mask(mask, layer_count),
{
    let once = spec_normalize_layer_mask(mask, layer_count);
    lemma_normalize_bits(mask, layer_count);
    lemma_normalize_keeps_normal(once, layer_count);
}

/// A nonzero mask of valid layers is left as it is by normalizing.
pub proof fn lemma_normalize_keeps_normal(mask: u16, layer_count: usize)
    requires
        mask != 0,
        layers_below(mask, clamp_layers(layer_count) as int),
    ensures
        spec_normalize_layer_mask(mask, layer_count) == mask,
{
    let valid = spec_valid_layer_mask(layer_count);
    let n = clamp_layers(layer_count);
    assert forall|l: int| 0 <= l < 16 implies has_layer(mask & valid, l) == has_layer(mask, l) by {
        lemma_bit_and(mask, valid, l);
        lemma_valid_mask_bits(layer_count, l);
    }
    lemma_mask_ext(mask & valid, mask);
}

/// `layer_count` forced into `1..=MAX_LAYERS`.
pub fn clamp_layer_count(layer_count: usize) -> (r: usize)
    ensures
        r == clamp_layers(layer_count),
{
    if layer_count < 1 {
        1
    } else if layer_count > MAX_LAYERS {
        MAX_LAYERS
    } else {
        layer_count
    }
}

/// The mask of the layers below `layer_count` (forced into `1..=MAX_LAYERS`).
pub fn valid_layer_mask(layer_count: usize) -> (r: u16)
    ensures
        r == spec_valid_layer_mask(layer_count),
        forall|l: int| #[trigger] has_layer(r, l) == (0 <= l < clamp_layers(layer_count)),
{
    proof {
        assert forall|l: int|
            #[trigger] has_layer(spec_valid_layer_mask(layer_count), l) == (0 <= l < clamp_layers(
                layer_count,
            )) by {
            lemma_valid_mask_bits(layer_count, l);
        }
    }
    let layer_count = clamp_layer_count(layer_count);
    let n = layer_count as u32;
    assert(1u32 << n >= 1u32) by (bit_vector)
        requires
            1 <= n <= 10,
    ;
    ((1u32 << n) - 1) as u16
}

/// `mask` restricted to the valid layers, or layer 0 alone when none of them
/// is on.
pub fn normalize_layer_mask(mask: u16, layer_count: usize) -> (r: u16)
    ensures
        r == spec_normalize_layer_mask(mask, layer_count),
        r != 0,
        layers_below(r, clamp_layers(layer_count) as int),
{
    proof {
        lemma_normalize_bits(mask, layer_count);
    }
    let valid = valid_layer_mask(layer_count);
    let normalized = mask & valid;
    if normalized == 0 {
        1
    } else {
        normalized
    }
}

/// The highest layer below `MAX_LAYERS` that is on in `mask`, or 0 when
/// none is.
pub fn highest_layer(mask: u16) -> (r: usize)
    ensures
        r == spec_highest_layer(mask),
        r < MAX_LAYERS,
{
    let mut n: usize = MAX_LAYERS;
    while n > 0
        invariant
            n <= MAX_LAYERS,
            spec_highest_layer(mask) == highest_layer_below(mask, n as nat),
        decreases n,
    {
        let layer = n - 1;
        proof {
            lemma_bit_mask_test(mask, layer as u16);
        }
        if (mask & (1u16 << (layer as u16))) != 0 {
            return layer;
        }
        n = layer;
    }
    0
}

/// The highest layer that a search below `n` can find is below `n` and on
/// (or 0), and no higher layer below `n` is on.
pub proof fn lemma_highest_layer_below(mask: u16, n: nat)
    ensures
        highest_layer_below(mask, n) < if n == 0 {
            1
        } else {
            n
        },
        highest_layer_below(mask, n) == 0 || has_layer(mask, highest_layer_below(mask, n) as int),
        forall|l: int|
            highest_layer_below(mask, n) < l < n ==> !#[trigger] has_layer(mask, l),
    decreases n,
{
    if n > 0 {
        lemma_highest_layer_below(mask, (n - 1) as nat);
    }
}

// ---------------------------------------------------------------------------
// Layers held by pressed keys.
// ---------------------------------------------------------------------------

/// The layers turned on by the held layer keys among the first `n` physical
/// keys, each key looked up on layer `top`; only layers below `layer_count`
/// count.
pub open spec fn held_layer_bits(
    matrix: Matrix,
    keycodes: Keycodes,
    layer_count: usize,
    top: usize,
    n: nat,
) -> u16
    decreases n,
{
    if n == 0 {
        0
    } else {
        let before = held_layer_bits(matrix, keycodes, layer_count, top, (n - 1) as nat);
        let i = n - 1;
        if key_pressed(matrix, i) {
            match spec_momentary_layer(
                spec_resolve_keycode(keycodes, layers_searched(top), key_row(i), key_col(i)),
            ) {
                Some(layer) => if layer < layer_count {
                    before | (1u16 << (layer as u16))
                } else {
                    before
                },
                None => before,
            }
        } else {
            before
        }
    }
}

/// One round of layer activation: `mask` plus the layers held by the
/// pressed keys, looked up on the highest active layer.
pub open spec fn mask_step(
    matrix: Matrix,
    keycodes: Keycodes,
    layer_count: usize,
    mask: u16,
) -> u16 {
    let top = spec_highest_layer(mask);
    let top = if top < layer_count - 1 {
        top
    } else {
        (layer_count - 1) as usize
    };
    mask | held_layer_bits(matrix, keycodes, layer_count, top, KEY_COUNT as nat)
}

/// Up to `rounds` rounds of activation, stopping early at a mask that a
/// round no longer changes.
pub open spec fn mask_closure(
    matrix: Matrix,
    keycodes: Keycodes,
    layer_count: usize,
    mask: u16,
    rounds: nat,
) -> u16
    decreases rounds,
{
    if rounds == 0 {
        mask
    } else {
        let next = mask_step(matrix, keycodes, layer_count, mask);
        if next == mask {
            mask
        } else {
            mask_closure(matrix, keycodes, layer_count, next, (rounds - 1) as nat)
        }
    }
}

/// The active layer mask for the pressed keys, starting from `initial_mask`.
pub open spec fn spec_active_mask_from_pressed(
    matrix: Matrix,
    keycodes: Keycodes,
    layer_count: usize,
    initial_mask: u16,
) -> u16 {
    let count = clamp_layers(layer_count);
    spec_normalize_layer_mask(
        mask_closure(
            matrix,
            keycodes,
            count,
            spec_normalize_layer_mask(initial_mask, count),
            MAX_LAYERS as nat,
        ),
        count,
    )
}

proof fn lemma_held_bits_below(
    matrix: Matrix,
    keycodes: Keycodes,
    layer_count: usize,
    top: usize,
    n: nat,
)
    requires
        layer_count <= 16,
    ensures
        layers_below(held_layer_bits(matrix, keycodes, layer_count, top, n), layer_count as int),
    decreases n,
{
    let bits = held_layer_bits(matrix, keycodes, layer_count, top, n);
    if n == 0 {
        assert forall|l: int| #[trigger] has_layer(bits, l) implies l < layer_count by {
            lemma_bit_zero(l);
        }
    } else {
        lemma_held_bits_below(matrix, keycodes, layer_count, top, (n - 1) as nat);
        let before = held_layer_bits(matrix, keycodes, layer_count, top, (n - 1) as nat);
        assert forall|l: int| #[trigger] has_layer(bits, l) implies l < layer_count by {
            let i = n - 1;
            if key_pressed(matrix, i) {
                match spec_momentary_layer(
                    spec_resolve_keycode(keycodes, layers_searched(top), key_row(i), key_col(i)),
                ) {
                    Some(layer) => if layer < layer_count {
                        lemma_bit_or(before, 1u16 << (layer as u16), l);
                        lemma_bit_single(layer as u16, l);
                    },
                    None => {},
                }
            }
        }
    }
}

/// A round keeps every active layer and adds only layers below the layer
/// count.
proof fn lemma_step_grows(matrix: Matrix, keycodes: Keycodes, layer_count: usize, mask: u16)
    requires
        1 <= layer_count <= MAX_LAYERS,
    ensures
        layers_within(mask, mask_step(matrix, keycodes, layer_count, mask)),
        layers_below(mask, layer_count as int) ==> layers_below(
            mask_step(matrix, keycodes, layer_count, mask),
            layer_count as int,
        ),
{
    let top = spec_highest_layer(mask);
    let top = if top < layer_count - 1 {
        top
    } else {
        (layer_count - 1) as usize
    };
    let bits = held_layer_bits(matrix, keycodes, layer_count, top, KEY_COUNT as nat);
    lemma_held_bits_below(matrix, keycodes, layer_count, top, KEY_COUNT as nat);
    assert forall|l: int| #[trigger] has_layer(mask | bits, l) == (has_layer(mask, l) || has_layer(
        bits,
        l,
    )) by {
        if 0 <= l < 16 {
            lemma_bit_or(mask, bits, l);
        }
    }
}

proof fn lemma_count_le(small: u16, large: u16, n: nat)
    requires
        layers_within(small, large),
    ensures
        count_layers(small, n) <= count_layers(large, n),
    decreases n,
{
    if n > 0 {
        lemma_count_le(small, large, (n - 1) as nat);
    }
}

proof fn lemma_count_lt(small: u16, large: u16, n: nat, extra: int)
    requires
        layers_within(small, large),
        0 <= extra < n,
        has_layer(large, extra),
        !has_layer(small, extra),
    ensures
        count_layers(small, n) < count_layers(large, n),
    decreases n,
{
    if extra == n - 1 {
        lemma_count_le(small, large, (n - 1) as nat);
    } else {
        lemma_count_lt(small, large, (n - 1) as nat, extra);
    }
}

proof fn lemma_count_bounded(mask: u16, bound: nat, n: nat)
    requires
        layers_below(mask, bound as int),
    ensures
        count_layers(mask, n) <= bound,
    decreases n,
{
    if n > 0 {
        if n > bound {
            lemma_count_bounded(mask, bound, (n - 1) as nat);
            assert(!has_layer(mask, n - 1));
        } else {
            lemma_count_bounded(mask, bound, (n - 1) as nat);
            assert(count_layers(mask, (n - 1) as nat) <= n - 1) by {
                lemma_count_at_most(mask, (n - 1) as nat);
            }
        }
    }
}

proof fn lemma_count_at_most(mask: u16, n: nat)
    ensures
        count_layers(mask, n) <= n,
    decreases n,
{
    if n > 0 {
        lemma_count_at_most(mask, (n - 1) as nat);
    }
}

proof fn lemma_count_positive(mask: u16, n: nat, l: int)
    requires
        0 <= l < n,
        has_layer(mask, l),
    ensures
        count_layers(mask, n) >= 1,
    decreases n,
{
    if l < n - 1 {
        lemma_count_positive(mask, (n - 1) as nat, l);
    }
}

/// Closure either ends at a fixed point or gains a layer every round.
proof fn lemma_closure_progress(
    matrix: Matrix,
    keycodes: Keycodes,
    layer_count: usize,
    mask: u16,
    rounds: nat,
)
    requires
        1 <= layer_count <= MAX_LAYERS,
        layers_below(mask, layer_count as int),
    ensures
        layers_within(mask, mask_closure(matrix, keycodes, layer_count, mask, rounds)),
        layers_below(mask_closure(matrix, keycodes, layer_count, mask, rounds), layer_count as int),
        ({
            let c = mask_closure(matrix, keycodes, layer_count, mask, rounds);
            mask_step(matrix, keycodes, layer_count, c) == c || count_layers(c, 16) >= count_layers(
                mask,
                16,
            ) + rounds
        }),
    decreases rounds,
{
    if rounds > 0 {
        let next = mask_step(matrix, keycodes, layer_count, mask);
        lemma_step_grows(matrix, keycodes, layer_count, mask);
        if next != mask {
            if forall|l: int| 0 <= l < 16 ==> has_layer(mask, l) == has_layer(next, l) {
                lemma_mask_ext(mask, next);
            }
            let extra = choose|l: int| 0 <= l < 16 && has_layer(mask, l) != has_layer(next, l);
            lemma_count_lt(mask, next, 16, extra);
            lemma_closure_progress(matrix, keycodes, layer_count, next, (rounds - 1) as nat);
        }
    }
}

/// The mask that `active_mask_from_pressed` returns is normal: not zero and
/// made of valid layers only; it keeps every layer of the normalized initial
/// mask; and it is closed: one more round of activation by the held layer
/// keys changes nothing. (The search runs at most `MAX_LAYERS` rounds, and
/// this shows that it always reaches its fixed point within them.)
pub proof fn lemma_active_mask_closed(
    matrix: Matrix,
    keycodes: Keycodes,
    layer_count: usize,
    initial_mask: u16,
)
    ensures
        ({
            let count = clamp_layers(layer_count);
            let r = spec_active_mask_from_pressed(matrix, keycodes, layer_count, initial_mask);
            &&& r != 0
            &&& layers_below(r, count as int)
            &&& layers_within(spec_normalize_layer_mask(initial_mask, count), r)
            &&& mask_step(matrix, keycodes, count, r) == r
            &&& r == mask_closure(
                matrix,
                keycodes,
                count,
                spec_normalize_layer_mask(initial_mask, count),
                MAX_LAYERS as nat,
            )
        }),
{
    let count = clamp_layers(layer_count);
    let start = spec_normalize_layer_mask(initial_mask, count);
    lemma_normalize_bits(initial_mask, count);
    assert(clamp_layers(count) == count);
    let c = mask_closure(matrix, keycodes, count, start, MAX_LAYERS as nat);
    lemma_closure_progress(matrix, keycodes, count, start, MAX_LAYERS as nat);
    // `start` is not zero, so it has a layer.
    if forall|l: int| 0 <= l < 16 ==> !has_layer(start, l) {
        lemma_mask_empty(start);
    }
    let some = choose|l: int| 0 <= l < 16 && has_layer(start, l);
    lemma_count_positive(start, 16, some);
    lemma_count_bounded(c, count as nat, 16);
    assert(has_layer(c, some));
    assert(c != 0) by {
        lemma_bit_zero(some);
    }
    lemma_normalize_keeps_normal(c, count);
}

/// The active layer mask: starting from `initial_mask`, every pressed key
/// that holds a layer (looked up on the highest active layer) turns that
/// layer on, round after round, for at most `MAX_LAYERS` rounds.
pub fn active_mask_from_pressed(
    matrix: &Matrix,
    keycodes: &Keycodes,
    layer_count: usize,
    initial_mask: u16,
) -> (r: u16)
    ensures
        r == spec_active_mask_from_pressed(*matrix, *keycodes, layer_count, initial_mask),
        r != 0,
        layers_below(r, clamp_layers(layer_count) as int),
{
    proof {
        lemma_active_mask_closed(*matrix, *keycodes, layer_count, initial_mask);
    }
    let count = clamp_layer_count(layer_count);
    let mut active_mask = normalize_layer_mask(initial_mask, count);
    let ghost start = active_mask;
    let mut round: usize = 0;
    let mut settled = false;
    while round < MAX_LAYERS && !settled
        invariant
            1 <= count <= MAX_LAYERS,
            round <= MAX_LAYERS,
            count == clamp_layers(layer_count),
            mask_closure(*matrix, *keycodes, count, start, MAX_LAYERS as nat) == mask_closure(
                *matrix,
                *keycodes,
                count,
                active_mask,
                (MAX_LAYERS - round) as nat,
            ),
            settled ==> mask_step(*matrix, *keycodes, count, active_mask) == active_mask,
        decreases (MAX_LAYERS - round) * 2 + if settled {
            0usize
        } else {
            1usize
        },
    {
        let before = active_mask;
        assert(before | 0u16 == before) by (bit_vector);
        let top = highest_layer(active_mask);
        let top = if top < count - 1 {
            top
        } else {
            count - 1
        };
        let mut index: usize = 0;
        while index < KEY_COUNT
            invariant
                1 <= count <= MAX_LAYERS,
                index <= KEY_COUNT,
                top < MAX_LAYERS,
                active_mask == before | held_layer_bits(
                    *matrix,
                    *keycodes,
                    count,
                    top,
                    index as nat,
                ),
            decreases KEY_COUNT - index,
        {
            let (row, col) = key_position(index);
            let ghost prev_bits = held_layer_bits(*matrix, *keycodes, count, top, index as nat);
            if matrix[row][col] {
                let keycode = resolve_keycode(keycodes, top, row, col);
                if let Some(layer) = momentary_layer(keycode) {
                    if layer < count {
                        let bit = 1u16 << (layer as u16);
                        assert((before | prev_bits) | bit == before | (prev_bits | bit))
                            by (bit_vector);
                        active_mask = active_mask | bit;
                    }
                }
            }
            index = index + 1;
        }
        assert(active_mask == mask_step(*matrix, *keycodes, count, before));
        if active_mask == before {
            settled = true;
        } else {
            round = round + 1;
        }
    }
    normalize_layer_mask(active_mask, count)
}

/// The highest layer that the pressed keys turn on, starting from layer 0.
pub fn infer_active_layer(matrix: &Matrix, keycodes: &Keycodes, layer_count: usize) -> (r: usize)
    ensures
        r == spec_highest_layer(spec_active_mask_from_pressed(*matrix, *keycodes, layer_count, 1)),
        r < clamp_layers(layer_count),
{
    let mask = active_mask_from_pressed(matrix, keycodes, layer_count, 1);
    proof {
        lemma_highest_layer_below(mask, MAX_LAYERS as nat);
    }
    highest_layer(mask)
}

// ---------------------------------------------------------------------------
// Layer tracking without firmware telemetry.
// ---------------------------------------------------------------------------

/// The persistent mask after a switch to `layer`: layer 0 and `layer` when
/// it is a valid layer, layer 0 alone otherwise.
pub open spec fn spec_move_to_layer(layer: usize, layer_count: usize) -> u16 {
    spec_normalize_layer_mask(
        if layer < layer_count {
            1u16 | (1u16 << (layer as u16))
        } else {
            1u16
        },
        layer_count,
    )
}

/// Whether `keycode` toggles a layer (TG).
pub open spec fn is_toggle_layer(keycode: u16) -> bool {
    QK_TOGGLE_LAYER <= keycode <= QK_TOGGLE_LAYER_MAX
}

/// The persistent mask after a press of `keycode`, and whether the press
/// changed the persistent layer state: TO, DF and PDF move to their layer;
/// TG toggles its layer when that layer is valid; other keys do nothing.
pub open spec fn spec_apply_layer_press(mask: u16, keycode: u16, layer_count: usize) -> (u16, bool) {
    let layer = (keycode % 32) as usize;
    if spec_is_direct_layer_switch(keycode) {
        (spec_move_to_layer(layer, layer_count), true)
    } else if is_toggle_layer(keycode) {
        if layer < layer_count {
            (spec_normalize_layer_mask(mask ^ (1u16 << (layer as u16)), layer_count), true)
        } else {
            (mask, false)
        }
    } else {
        (mask, false)
    }
}

/// A press of `keycode` with `layer_count` layers names no layer that a
/// `u16` mask cannot hold.
pub open spec fn press_fits_mask(keycode: u16, layer_count: usize) -> bool {
    (spec_is_direct_layer_switch(keycode) || is_toggle_layer(keycode)) ==> !(16 <= keycode % 32
        < layer_count)
}

/// The persistent and active masks after the first `n` physical keys have
/// been looked at: each key that is pressed in `matrix` but was not in
/// `previous` is looked up on the highest active layer and applied as a
/// layer press; the active mask is recomputed whenever a press changes the
/// persistent mask.
pub open spec fn tracker_scan(
    matrix: Matrix,
    previous: Matrix,
    keycodes: Keycodes,
    layer_count: usize,
    persistent: u16,
    active: u16,
    n: nat,
) -> (u16, u16)
    decreases n,
{
    if n == 0 {
        (persistent, active)
    } else {
        let (p, a) = tracker_scan(
            matrix,
            previous,
            keycodes,
            layer_count,
            persistent,
            active,
            (n - 1) as nat,
        );
        let i = n - 1;
        if key_pressed(matrix, i) && !key_pressed(previous, i) {
            let keycode = spec_resolve_keycode(
                keycodes,
                layers_searched(spec_highest_layer(a)),
                key_row(i),
                key_col(i),
            );
            let (p2, changed) = spec_apply_layer_press(p, keycode, layer_count);
            if changed {
                (p2, spec_active_mask_from_pressed(matrix, keycodes, layer_count, p2))
            } else {
                (p2, a)
            }
        } else {
            (p, a)
        }
    }
}

/// The persistent mask and the reported layer after a poll that sees
/// `matrix`, for a tracker with persistent mask `persistent` whose last poll
/// saw `previous`: the newly pressed keys are scanned from the normalized
/// persistent mask, and the highest active layer is reported, below the
/// layer count.
pub open spec fn spec_tracker_update(
    persistent: u16,
    previous: Matrix,
    matrix: Matrix,
    keycodes: Keycodes,
    layer_count: usize,
) -> (u16, usize) {
    let count = clamp_layers(layer_count);
    let start = spec_normalize_layer_mask(persistent, count);
    let scanned = tracker_scan(
        matrix,
        previous,
        keycodes,
        count,
        start,
        spec_active_mask_from_pressed(matrix, keycodes, count, start),
        KEY_COUNT as nat,
    );
    (
        scanned.0,
        if spec_highest_layer(scanned.1) < count - 1 {
            spec_highest_layer(scanned.1)
        } else {
            (count - 1) as usize
        },
    )
}

proof fn lemma_scan_active_follows_persistent(
    matrix: Matrix,
    previous: Matrix,
    keycodes: Keycodes,
    layer_count: usize,
    persistent: u16,
    active: u16,
    n: nat,
)
    requires
        active == spec_active_mask_from_pressed(matrix, keycodes, layer_count, persistent),
    ensures
        ({
            let scanned = tracker_scan(matrix, previous, keycodes, layer_count, persistent, active, n);
            scanned.1 == spec_active_mask_from_pressed(matrix, keycodes, layer_count, scanned.0)
        }),
    decreases n,
{
    if n > 0 {
        lemma_scan_active_follows_persistent(
            matrix,
            previous,
            keycodes,
            layer_count,
            persistent,
            active,
            (n - 1) as nat,
        );
    }
}

proof fn lemma_held_key_sets_its_layer(
    matrix: Matrix,
    keycodes: Keycodes,
    layer_count: usize,
    top: usize,
    n: nat,
    i: int,
    layer: usize,
)
    requires
        layer_count <= 16,
        0 <= i < n,
        key_pressed(matrix, i),
        spec_momentary_layer(
            spec_resolve_keycode(keycodes, layers_searched(top), key_row(i), key_col(i)),
        ) == Some(layer),
        layer < layer_count,
    ensures
        has_layer(held_layer_bits(matrix, keycodes, layer_count, top, n), layer as int),
    decreases n,
{
    let before = held_layer_bits(matrix, keycodes, layer_count, top, (n - 1) as nat);
    if i == n - 1 {
        lemma_bit_or(before, 1u16 << (layer as u16), layer as int);
        lemma_bit_single(layer as u16, layer as int);
    } else {
        lemma_held_key_sets_its_layer(matrix, keycodes, layer_count, top, (n - 1) as nat, i, layer);
        let j = n - 1;
        if key_pressed(matrix, j) {
            match spec_momentary_layer(
                spec_resolve_keycode(keycodes, layers_searched(top), key_row(j), key_col(j)),
            ) {
                Some(other) => if other < layer_count {
                    lemma_bit_or(before, 1u16 << (other as u16), layer as int);
                },
                None => {},
            }
        }
    }
}

/// The layer a tracker poll reports is the highest layer of the active mask
/// that the pressed keys turn on over the tracker's new persistent mask,
/// kept below the layer count. So every pressed key that holds a valid
/// layer (MO or LT), as looked up on the reported layer, holds a layer no
/// higher than the one reported.
pub proof fn lemma_tracker_reports_active_layer(
    persistent: u16,
    previous: Matrix,
    matrix: Matrix,
    keycodes: Keycodes,
    layer_count: usize,
)
    ensures
        ({
            let count = clamp_layers(layer_count);
            let (p, r) = spec_tracker_update(persistent, previous, matrix, keycodes, layer_count);
            let top = spec_highest_layer(spec_active_mask_from_pressed(matrix, keycodes, count, p));
            r == if top < count - 1 {
                top
            } else {
                (count - 1) as usize
            }
        }),
        ({
            let count = clamp_layers(layer_count);
            let r = spec_tracker_update(persistent, previous, matrix, keycodes, layer_count).1;
            forall|i: int|
                0 <= i < KEY_COUNT && #[trigger] key_pressed(matrix, i) ==> match spec_momentary_layer(
                    spec_resolve_keycode(keycodes, layers_searched(r), key_row(i), key_col(i)),
                ) {
                    Some(layer) => layer < count ==> layer <= r,
                    None => true,
                }
        }),
{
    let count = clamp_layers(layer_count);
    let start = spec_normalize_layer_mask(persistent, count);
    let first = spec_active_mask_from_pressed(matrix, keycodes, count, start);
    lemma_scan_active_follows_persistent(
        matrix,
        previous,
        keycodes,
        count,
        start,
        first,
        KEY_COUNT as nat,
    );
    let (p, r) = spec_tracker_update(persistent, previous, matrix, keycodes, layer_count);
    let active = spec_active_mask_from_pressed(matrix, keycodes, count, p);
    lemma_active_mask_closed(matrix, keycodes, count, p);
    assert(clamp_layers(count) == count);
    assert forall|i: int|
        0 <= i < KEY_COUNT && #[trigger] key_pressed(matrix, i) implies match spec_momentary_layer(
            spec_resolve_keycode(keycodes, layers_searched(r), key_row(i), key_col(i)),
        ) {
            Some(layer) => layer < count ==> layer <= r,
            None => true,
        } by {
        if let Some(layer) = spec_momentary_layer(
            spec_resolve_keycode(keycodes, layers_searched(r), key_row(i), key_col(i)),
        ) {
            if layer < count {
                lemma_held_key_sets_its_layer(
                    matrix,
                    keycodes,
                    count,
                    r,
                    KEY_COUNT as nat,
                    i,
                    layer,
                );
                let held = held_layer_bits(matrix, keycodes, count, r, KEY_COUNT as nat);
                assert(mask_step(matrix, keycodes, count, active) == active | held);
                lemma_bit_or(active, held, layer as int);
                assert(has_layer(active, layer as int));
                lemma_highest_layer_below(active, MAX_LAYERS as nat);
            }
        }
    }
}

/// Follows the persistent layer state (TO, DF, PDF, TG) from the key presses
/// seen between matrix polls, for firmware without layer telemetry.
pub struct FallbackLayerTracker {
    pub persistent_mask: u16,
    pub previous_matrix: Matrix,
}

impl Default for FallbackLayerTracker {
    /// Layer 0 only, and no key pressed.
    fn default() -> (r: Self)
        ensures
            r.persistent_mask == 1,
            is_empty_matrix(r.previous_matrix),
    {
        FallbackLayerTracker { persistent_mask: 1, previous_matrix: empty_matrix() }
    }
}

impl FallbackLayerTracker {
    /// Takes a new poll of the matrix: applies the layer keys newly pressed
    /// since the last poll and returns the active layer, below the layer
    /// count.
    pub fn update(&mut self, matrix: &Matrix, keycodes: &Keycodes, layer_count: usize) -> (r:
        usize)
        ensures
            (final(self).persistent_mask, r) == spec_tracker_update(
                old(self).persistent_mask,
                old(self).previous_matrix,
                *matrix,
                *keycodes,
                layer_count,
            ),
            final(self).previous_matrix == *matrix,
            r < clamp_layers(layer_count),
    {
        let count = clamp_layer_count(layer_count);
        self.persistent_mask = normalize_layer_mask(self.persistent_mask, count);
        let ghost start = self.persistent_mask;
        let mut active_mask = active_mask_from_pressed(
            matrix,
            keycodes,
            count,
            self.persistent_mask,
        );
        let ghost first_active = active_mask;
        let previous_matrix = self.previous_matrix;
        let mut index: usize = 0;
        while index < KEY_COUNT
            invariant
                1 <= count <= MAX_LAYERS,
                index <= KEY_COUNT,
                previous_matrix == old(self).previous_matrix,
                (self.persistent_mask, active_mask) == tracker_scan(
                    *matrix,
                    previous_matrix,
                    *keycodes,
                    count,
                    start,
                    first_active,
                    index as nat,
                ),
            decreases KEY_COUNT - index,
        {
            let (row, col) = key_position(index);
            if matrix[row][col] && !previous_matrix[row][col] {
                let top = highest_layer(active_mask);
                let keycode = resolve_keycode(keycodes, top, row, col);
                if self.apply_layer_press(keycode, count) {
                    active_mask =
                    active_mask_from_pressed(matrix, keycodes, count, self.persistent_mask);
                }
            }
            index = index + 1;
        }
        self.previous_matrix = *matrix;
        let top = highest_layer(active_mask);
        if top < count - 1 {
            top
        } else {
            count - 1
        }
    }

    /// Applies a press of `keycode` to the persistent layers; returns
    /// whether the persistent layer state changed.
    pub fn apply_layer_press(&mut self, keycode: u16, layer_count: usize) -> (changed: bool)
        requires
            press_fits_mask(keycode, layer_count),
        ensures
            (final(self).persistent_mask, changed) == spec_apply_layer_press(
                old(self).persistent_mask,
                keycode,
                layer_count,
            ),
            final(self).previous_matrix == old(self).previous_matrix,
    {
        proof {
            assert(keycode & 0x1f == keycode % 32) by (bit_vector);
        }
        if is_direct_layer_switch(keycode) {
            self.move_to_layer((keycode & 0x1f) as usize, layer_count);
            true
        } else if QK_TOGGLE_LAYER <= keycode && keycode <= QK_TOGGLE_LAYER_MAX {
            let layer = (keycode & 0x1f) as usize;
            if layer < layer_count {
                self.persistent_mask = self.persistent_mask ^ (1u16 << (layer as u16));
                self.persistent_mask = normalize_layer_mask(self.persistent_mask, layer_count);
                true
            } else {
                false
            }
        } else {
            false
        }
    }

    /// Moves the persistent layers to layer 0 and `layer`, or to layer 0
    /// alone when `layer` is not below `layer_count`.
    pub fn move_to_layer(&mut self, layer: usize, layer_count: usize)
        requires
            !(16 <= layer < layer_count),
        ensures
            final(self).persistent_mask == spec_move_to_layer(layer, layer_count),
            final(self).previous_matrix == old(self).previous_matrix,
    {
        self.persistent_mask = if layer < layer_count {
            1u16 | (1u16 << (layer as u16))
        } else {
            1
        };
        self.persistent_mask = normalize_layer_mask(self.persistent_mask, layer_count);
    }
}

/// A layer press leaves a normal persistent mask normal.
proof fn lemma_press_keeps_normal(mask: u16, keycode: u16, layer_count: usize)
    requires
        mask != 0,
        layers_below(mask, clamp_layers(layer_count) as int),
    ensures
        spec_apply_layer_press(mask, keycode, layer_count).0 != 0,
        layers_below(
            spec_apply_layer_press(mask, keycode, layer_count).0,
            clamp_layers(layer_count) as int,
        ),
{
    let layer = (keycode % 32) as usize;
    lemma_normalize_bits(mask ^ (1u16 << (layer as u16)), layer_count);
    lemma_normalize_bits(
        if layer < layer_count {
            1u16 | (1u16 << (layer as u16))
        } else {
            1u16
        },
        layer_count,
    );
}

proof fn lemma_scan_keeps_normal(
    matrix: Matrix,
    previous: Matrix,
    keycodes: Keycodes,
    layer_count: usize,
    persistent: u16,
    active: u16,
    n: nat,
)
    requires
        persistent != 0,
        layers_below(persistent, clamp_layers(layer_count) as int),
    ensures
        tracker_scan(matrix, previous, keycodes, layer_count, persistent, active, n).0 != 0,
        layers_below(
            tracker_scan(matrix, previous, keycodes, layer_count, persistent, active, n).0,
            clamp_layers(layer_count) as int,
        ),
    decreases n,
{
    if n > 0 {
        lemma_scan_keeps_normal(
            matrix,
            previous,
            keycodes,
            layer_count,
            persistent,
            active,
            (n - 1) as nat,
        );
        let (p, a) = tracker_scan(
            matrix,
            previous,
            keycodes,
            layer_count,
            persistent,
            active,
            (n - 1) as nat,
        );
        let i = n - 1;
        let keycode = spec_resolve_keycode(
            keycodes,
            layers_searched(spec_highest_layer(a)),
            key_row(i),
            key_col(i),
        );
        lemma_press_keeps_normal(p, keycode, layer_count);
    }
}

proof fn lemma_scan_without_presses(
    matrix: Matrix,
    keycodes: Keycodes,
    layer_count: usize,
    persistent: u16,
    active: u16,
    n: nat,
)
    ensures
        tracker_scan(matrix, matrix, keycodes, layer_count, persistent, active, n) == (
            persistent,
            active,
        ),
    decreases n,
{
    if n > 0 {
        lemma_scan_without_presses(matrix, keycodes, layer_count, persistent, active, (n - 1) as nat);
    }
}

/// After any poll the tracker's persistent mask is normal: not zero, and
/// made of layers below the (clamped) layer count only.
pub proof fn lemma_tracker_mask_stays_normal(
    tracker: FallbackLayerTracker,
    matrix: Matrix,
    keycodes: Keycodes,
    layer_count: usize,
)
    ensures
        ({
            let count = clamp_layers(layer_count);
            let start = spec_normalize_layer_mask(tracker.persistent_mask, count);
            let scanned = tracker_scan(
                matrix,
                tracker.previous_matrix,
                keycodes,
                count,
                start,
                spec_active_mask_from_pressed(matrix, keycodes, count, start),
                KEY_COUNT as nat,
            );
            scanned.0 != 0 && layers_below(scanned.0, count as int)
        }),
{
    let count = clamp_layers(layer_count);
    let start = spec_normalize_layer_mask(tracker.persistent_mask, count);
    lemma_normalize_bits(tracker.persistent_mask, count);
    assert(clamp_layers(count) == count);
    lemma_scan_keeps_normal(
        matrix,
        tracker.previous_matrix,
        keycodes,
        count,
        start,
        spec_active_mask_from_pressed(matrix, keycodes, count, start),
        KEY_COUNT as nat,
    );
}

/// A poll that brings no new key press changes no persistent layer beyond
/// normalizing the mask, and reports the highest layer that the held keys
/// turn on from there.
pub proof fn lemma_tracker_poll_without_presses(
    tracker: FallbackLayerTracker,
    keycodes: Keycodes,
    layer_count: usize,
)
    ensures
        ({
            let count = clamp_layers(layer_count);
            let start = spec_normalize_layer_mask(tracker.persistent_mask, count);
            let active = spec_active_mask_from_pressed(
                tracker.previous_matrix,
                keycodes,
                count,
                start,
            );
            tracker_scan(
                tracker.previous_matrix,
                tracker.previous_matrix,
                keycodes,
                count,
                start,
                active,
                KEY_COUNT as nat,
            ) == (start, active)
        }),
{
    let count = clamp_layers(layer_count);
    let start = spec_normalize_layer_mask(tracker.persistent_mask, count);
    lemma_scan_without_presses(
        tracker.previous_matrix,
        keycodes,
        count,
        start,
        spec_active_mask_from_pressed(tracker.previous_matrix, keycodes, count, start),
        KEY_COUNT as nat,
    );
}

} // verus!
