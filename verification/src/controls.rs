//! Keyboard controls: camera orbit steps and movement intent.
use vstd::prelude::*;

verus! {

/// Orbit positions around the view target (45 degrees apart).
pub const ORBIT_STEPS: i32 = 8;

/// `+1` for a fresh `E` press, `-1` for a fresh `Q` press, `0` for both or neither.
pub fn orbit_direction(rotate_e: bool, rotate_q: bool) -> (d: i32)
    ensures
        d == (if rotate_e { 1int } else { 0int }) - (if rotate_q { 1int } else { 0int }),
{
    let e: i32 = if rotate_e { 1 } else { 0 };
    let q: i32 = if rotate_q { 1 } else { 0 };
    e - q
}

/// The orbit step after moving `direction` steps from `step`, wrapped into `0..8`.
pub open spec fn orbit_after(step: int, direction: int) -> int {
    (step + direction) % (ORBIT_STEPS as int)
}

/// The orbit step after a frame in which `E` and/or `Q` were freshly pressed.
pub fn next_orbit_step(step: i32, rotate_e: bool, rotate_q: bool) -> (r: i32)
    ensures
        r == orbit_after(step as int, orbit_direction_spec(rotate_e, rotate_q)),
        0 <= r < ORBIT_STEPS,
{
    let direction = orbit_direction(rotate_e, rotate_q) as i64;
    let sum = step as i64 + direction;
    let wrapped: i64 = if sum >= 0 {
        sum % 8
    } else {
        let t = (-sum) % 8;
        if t == 0 {
            0
        } else {
            8 - t
        }
    };
    proof {
        lemma_wrap_negative(sum as int);
    }
    wrapped as i32
}

proof fn lemma_wrap_negative(sum: int)
    ensures
        sum < 0 && (-sum) % 8 == 0 ==> sum % 8 == 0,
        sum < 0 && (-sum) % 8 != 0 ==> sum % 8 == 8 - (-sum) % 8,
{
    if sum < 0 {
        let q = (-sum) / 8;
        let t = (-sum) % 8;
        assert(-sum == 8 * q + t && 0 <= t < 8) by (nonlinear_arith)
            requires
                q == (-sum) / 8,
                t == (-sum) % 8,
        {
        }
        if t == 0 {
            assert(sum == (-q) * 8 + 0);
            vstd::arithmetic::div_mod::lemma_fundamental_div_mod_converse(sum, 8, -q, 0);
        } else {
            assert(sum == (-q - 1) * 8 + (8 - t));
            vstd::arithmetic::div_mod::lemma_fundamental_div_mod_converse(sum, 8, -q - 1, 8 - t);
        }
    }
}

pub open spec fn orbit_direction_spec(rotate_e: bool, rotate_q: bool) -> int {
    (if rotate_e { 1int } else { 0int }) - (if rotate_q { 1int } else { 0int })
}

/// The orbit step after `n` frames, each moving `direction`.
pub open spec fn orbit_repeat(step: int, direction: int, n: nat) -> int
    decreases n,
{
    if n == 0 {
        step
    } else {
        orbit_after(orbit_repeat(step, direction, (n - 1) as nat), direction)
    }
}

/// After `n` frames moving `direction`, the orbit step is the start plus `n * direction`,
/// wrapped into `0..8`.
pub proof fn lemma_orbit_repeat(step: int, direction: int, n: nat)
    requires
        0 <= step < ORBIT_STEPS,
    ensures
        orbit_repeat(step, direction, n) == (step + n * direction) % (ORBIT_STEPS as int),
    decreases n,
{
    if n == 0 {
        vstd::arithmetic::div_mod::lemma_small_mod(step as nat, 8);
    } else {
        let m = (n - 1) as nat;
        lemma_orbit_repeat(step, direction, m);
        let base = step + m * direction;
        vstd::arithmetic::div_mod::lemma_add_mod_noop_right(direction, base, 8);
        assert(base + direction == step + n * direction) by (nonlinear_arith)
            requires
                base == step + m * direction,
                n == m + 1,
        {
        }
    }
}

/// Eight presses of the same orbit key bring the camera back to its starting position.
pub proof fn lemma_eight_steps_wrap(step: int, direction: int)
    requires
        0 <= step < ORBIT_STEPS,
    ensures
        orbit_repeat(step, direction, 8) == step,
{
    lemma_orbit_repeat(step, direction, 8);
    vstd::arithmetic::div_mod::lemma_mod_multiples_vanish(direction, step, 8);
    vstd::arithmetic::div_mod::lemma_small_mod(step as nat, 8);
    assert(step + 8 * direction == 8 * direction + step);
}

/// Opposite orbit presses cancel: `E` then `Q`, `Q` then `E`, or both together.
pub proof fn lemma_opposite_orbits_cancel(step: int)
    requires
        0 <= step < ORBIT_STEPS,
    ensures
        orbit_after(orbit_after(step, 1), -1) == step,
        orbit_after(orbit_after(step, -1), 1) == step,
        orbit_after(step, orbit_direction_spec(true, true)) == step,
{
}

/// Movement intent in view axes: `forward` is `+1` toward the top of the view, `right` is
/// `+1` toward its right side.
#[derive(Clone, Copy, Debug, PartialEq, Eq, Structural)]
pub struct MoveIntent {
    pub forward: i32,
    pub right: i32,
}

/// `1` for a held key, `0` otherwise.
pub open spec fn held(key: bool) -> int {
    if key {
        1
    } else {
        0
    }
}

/// The movement asked for by the held keys: up minus down, right minus left.
pub open spec fn intent_of(up: bool, down: bool, left: bool, right: bool) -> MoveIntent {
    MoveIntent {
        forward: (held(up) - held(down)) as i32,
        right: (held(right) - held(left)) as i32,
    }
}

/// The movement that held keys ask for; opposite keys cancel.
pub fn movement_intent(up: bool, down: bool, left: bool, right: bool) -> (m: MoveIntent)
    ensures
        m == intent_of(up, down, left, right),
        m.forward == (if up { 1int } else { 0int }) - (if down { 1int } else { 0int }),
        m.right == (if right { 1int } else { 0int }) - (if left { 1int } else { 0int }),
{
    proof {
        lemma_intent_axes(up, down, left, right);
    }
    let mut forward: i32 = 0;
    let mut sideways: i32 = 0;
    if up {
        forward += 1;
    }
    if down {
        forward -= 1;
    }
    if left {
        sideways -= 1;
    }
    if right {
        sideways += 1;
    }
    MoveIntent { forward, right: sideways }
}

/// Each axis of the movement intent follows its own pair of keys alone: forward is up
/// minus down, right is right minus left, whatever the other pair does.
pub proof fn lemma_intent_axes(up: bool, down: bool, left: bool, right: bool)
    ensures
        intent_of(up, down, left, right).forward == (if up { 1int } else { 0int }) - (if down {
            1int
        } else {
            0int
        }),
        intent_of(up, down, left, right).right == (if right { 1int } else { 0int }) - (if left {
            1int
        } else {
            0int
        }),
        intent_of(up, down, left, right).right == intent_of(false, false, left, right).right,
        intent_of(up, down, left, right).forward == intent_of(up, down, false, false).forward,
{
}

/// Holding opposite keys, or none, asks for no movement; a key held alone asks for one
/// step along its axis.
pub proof fn lemma_opposing_inputs_cancel(vertical: bool, horizontal: bool)
    ensures
        intent_of(vertical, vertical, horizontal, horizontal) == (MoveIntent { forward: 0, right: 0 }),
        intent_of(true, false, false, false) == (MoveIntent { forward: 1, right: 0 }),
        intent_of(false, true, false, false) == (MoveIntent { forward: -1i32, right: 0i32 }),
        intent_of(false, false, true, false) == (MoveIntent { forward: 0i32, right: -1i32 }),
        intent_of(false, false, false, true) == (MoveIntent { forward: 0, right: 1 }),
{
}

} // verus!
