//! The input state machine: how one polled event moves the cursor through
//! the buffer pool, and which action it asks for.
//!
//! The cursor is the index of the buffer on display. Arrow keys move it by
//! one or by ten, and after every key press it is wrapped back into
//! `[0, num_buffers)`; Escape, Q and a window-close quit the loop; Space
//! exports the frame on display.

use vstd::prelude::*;
use vstd::arithmetic::div_mod::lemma_fundamental_div_mod;
use vstd::arithmetic::div_mod::lemma_fundamental_div_mod_converse_mod;
use vstd::arithmetic::div_mod::lemma_mod_bound;
use vstd::arithmetic::div_mod::lemma_small_mod;
use vstd::arithmetic::mul::lemma_mul_is_commutative;
use vstd::arithmetic::mul::lemma_mul_is_distributive_add;
use vstd::arithmetic::mul::lemma_mul_is_distributive_sub;

verus! {

/// The keys the loop reacts to; every other key press is `Other`.
#[derive(Clone, Copy, Debug, PartialEq, Eq, Structural)]
pub enum Key {
    Escape,
    Q,
    Right,
    Left,
    Up,
    Down,
    Space,
    Other,
}

/// One polled event: a key press, a window-close request, or anything else.
#[derive(Clone, Copy, Debug, PartialEq, Eq, Structural)]
pub enum UiEvent {
    KeyDown(Key),
    Quit,
    Other,
}

/// What the loop does beyond moving the cursor: keep running, stop, or
/// export the buffer on display.
#[derive(Clone, Copy, Debug, PartialEq, Eq, Structural)]
pub enum Action {
    Continue,
    Quit,
    SaveFrame,
}

/// How far a key moves the cursor.
pub open spec fn key_delta(k: Key) -> int {
    match k {
        Key::Right => 1,
        Key::Left => -1,
        Key::Up => 10,
        Key::Down => -10,
        _ => 0,
    }
}

/// The cursor after one event: moved by the key's delta and wrapped into
/// `[0, n)`; unchanged by everything else.
pub open spec fn next_cursor(cur: int, n: int, ev: UiEvent) -> int {
    match ev {
        UiEvent::KeyDown(k) => (cur + key_delta(k)) % n,
        _ => cur,
    }
}

/// The action one event asks for.
pub open spec fn action_of(ev: UiEvent) -> Action {
    match ev {
        UiEvent::Quit => Action::Quit,
        UiEvent::KeyDown(Key::Escape) => Action::Quit,
        UiEvent::KeyDown(Key::Q) => Action::Quit,
        UiEvent::KeyDown(Key::Space) => Action::SaveFrame,
        _ => Action::Continue,
    }
}

/// Moves the cursor forward by `delta` positions, wrapping at `n`.
fn add_mod(cur: u64, n: u64, delta: u64) -> (r: u64)
    requires
        0 < n,
        cur < n,
        delta < n,
    ensures
        r == (cur + delta) % (n as int),
{
    let r = if cur >= n - delta {
        cur - (n - delta)
    } else {
        cur + delta
    };
    proof {
        if cur >= n - delta {
            lemma_fundamental_div_mod_converse_mod(cur + delta, n as int, 1, r as int);
        } else {
            lemma_small_mod((cur + delta) as nat, n as nat);
        }
    }
    r
}

/// Moving by `d % n` lands on the same index as moving by `d`.
proof fn lemma_shift_delta(c: int, n: int, d: int)
    requires
        0 < n,
        0 <= d,
    ensures
        (c + d % n) % n == (c + d) % n,
{
    let e = d % n;
    let q = d / n;
    let s = c + e;
    lemma_fundamental_div_mod(d, n);
    lemma_fundamental_div_mod(s, n);
    lemma_mod_bound(s, n);
    lemma_mul_is_distributive_add(n, q, s / n);
    lemma_mul_is_commutative(n, q + s / n);
    assert(c + d == (q + s / n) * n + s % n);
    lemma_fundamental_div_mod_converse_mod(c + d, n, q + s / n, s % n);
}

/// Moving back by `d` lands on the same index as moving forward by
/// `n - d % n` (by nothing, when `d` is a multiple of `n`).
proof fn lemma_shift_neg_delta(c: int, n: int, d: int)
    requires
        0 < n,
        0 <= d,
    ensures
        (c + if d % n == 0 {
            0int
        } else {
            n - d % n
        }) % n == (c - d) % n,
{
    let e = d % n;
    let q = d / n;
    lemma_fundamental_div_mod(d, n);
    lemma_mod_bound(d, n);
    if e == 0 {
        lemma_fundamental_div_mod(c, n);
        lemma_mod_bound(c, n);
        lemma_mul_is_distributive_sub(n, c / n, q);
        lemma_mul_is_commutative(n, c / n - q);
        assert(c - d == (c / n - q) * n + c % n);
        lemma_fundamental_div_mod_converse_mod(c - d, n, c / n - q, c % n);
    } else {
        let s = c + (n - e);
        lemma_fundamental_div_mod(s, n);
        lemma_mod_bound(s, n);
        lemma_mul_is_distributive_sub(n, s / n - 1, q);
        lemma_mul_is_distributive_sub(n, s / n, 1);
        lemma_mul_is_commutative(n, s / n - 1 - q);
        assert(c - d == (s / n - 1 - q) * n + s % n);
        lemma_fundamental_div_mod_converse_mod(c - d, n, s / n - 1 - q, s % n);
    }
}

/// One step of the input state machine: from the cursor and one event to
/// the wrapped new cursor and the action the loop must take.
pub fn step(current: u64, num_buffers: u64, ev: &UiEvent) -> (r: (u64, Action))
    requires
        0 < num_buffers,
        current < num_buffers,
    ensures
        r.0 == next_cursor(current as int, num_buffers as int, *ev),
        r.1 == action_of(*ev),
        r.0 < num_buffers,
{
    let n = num_buffers;
    proof {
        lemma_small_mod(current as nat, n as nat);
    }
    match ev {
        UiEvent::KeyDown(k) => {
            let next: u64 = match k {
                Key::Right => add_mod(current, n, 1 % n),
                Key::Up => add_mod(current, n, 10 % n),
                Key::Left => {
                    let dm: u64 = 1 % n;
                    add_mod(current, n, if dm == 0 { 0 } else { n - dm })
                },
                Key::Down => {
                    let dm: u64 = 10 % n;
                    add_mod(current, n, if dm == 0 { 0 } else { n - dm })
                },
                _ => current,
            };
            proof {
                let c = current as int;
                let ni = n as int;
                match k {
                    Key::Right => lemma_shift_delta(c, ni, 1),
                    Key::Up => lemma_shift_delta(c, ni, 10),
                    Key::Left => lemma_shift_neg_delta(c, ni, 1),
                    Key::Down => lemma_shift_neg_delta(c, ni, 10),
                    _ => (),
                }
            }
            let action = match k {
                Key::Escape => Action::Quit,
                Key::Q => Action::Quit,
                Key::Space => Action::SaveFrame,
                _ => Action::Continue,
            };
            (next, action)
        },
        UiEvent::Quit => (current, Action::Quit),
        UiEvent::Other => (current, Action::Continue),
    }
}

/// The cursor after a whole sequence of events, each step wrapped as `step`
/// wraps it.
pub open spec fn run_events(cur: int, n: int, evs: Seq<UiEvent>) -> int
    decreases evs.len(),
{
    if evs.len() == 0 {
        cur
    } else {
        run_events(next_cursor(cur, n, evs[0]), n, evs.drop_first())
    }
}

/// One event keeps the cursor in `[0, n)`.
pub proof fn lemma_next_cursor_in_range(cur: int, n: int, ev: UiEvent)
    requires
        0 < n,
        0 <= cur < n,
    ensures
        0 <= next_cursor(cur, n, ev) < n,
{
    match ev {
        UiEvent::KeyDown(k) => {
            lemma_mod_bound(cur + key_delta(k), n);
        },
        _ => (),
    }
}

/// However the user mixes presses of Left, Right, Up and Down (or any other
/// events), a cursor that starts in `[0, n)` stays in `[0, n)`.
pub proof fn lemma_cursor_stays_in_range(cur: int, n: int, evs: Seq<UiEvent>)
    requires
        0 < n,
        0 <= cur < n,
    ensures
        0 <= run_events(cur, n, evs) < n,
    decreases evs.len(),
{
    if evs.len() > 0 {
        lemma_next_cursor_in_range(cur, n, evs[0]);
        lemma_cursor_stays_in_range(next_cursor(cur, n, evs[0]), n, evs.drop_first());
    }
}

/// Escape, Q and a window-close all quit the loop, and none of them asks
/// for a frame to be written.
pub proof fn lemma_quit_saves_nothing(ev: UiEvent)
    requires
        ev == UiEvent::Quit || ev == UiEvent::KeyDown(Key::Escape) || ev == UiEvent::KeyDown(
            Key::Q,
        ),
    ensures
        action_of(ev) == Action::Quit,
        action_of(ev) != Action::SaveFrame,
{
}

} // verus!
