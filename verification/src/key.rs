//! Key events and the wrap-around navigation arithmetic shared by the
//! select dialogs.

use vstd::prelude::*;
use vstd::arithmetic::div_mod::lemma_add_mod_noop_right;
use vstd::arithmetic::div_mod::lemma_small_mod;

verus! {

/// One logical key event, as the select dialogs see it: the two navigation
/// arrows, Enter to confirm, and anything else.
#[derive(Clone, Copy, PartialEq, Eq, Debug, Structural)]
pub enum Key {
    ArrowUp,
    ArrowDown,
    Enter,
    Other,
}

/// The selection index after one key over `n` options: arrow-down moves one
/// forward and arrow-up one back, both wrapping around; any other key leaves
/// the index alone.
pub open spec fn spec_next_index(cur: int, key: Key, n: int) -> int {
    match key {
        Key::ArrowUp => (cur + n - 1) % n,
        Key::ArrowDown => (cur + 1) % n,
        _ => cur,
    }
}

/// Moves the selection index by one key event, wrapping around the `n`
/// options.
pub fn next_index(cur: usize, key: Key, n: usize) -> (r: usize)
    requires
        0 < n,
        cur < n,
    ensures
        r == spec_next_index(cur as int, key, n as int),
        r < n,
{
    proof {
        lemma_next_index_formula(cur as int, key, n as int);
    }
    match key {
        Key::ArrowUp => if cur == 0 {
            n - 1
        } else {
            cur - 1
        },
        Key::ArrowDown => if cur == n - 1 {
            0
        } else {
            cur + 1
        },
        _ => cur,
    }
}

/// Wrap-around navigation written out: up from 0 lands on `n - 1`, down from
/// `n - 1` lands on 0, and every other move is a plain step by one.
pub proof fn lemma_next_index_formula(cur: int, key: Key, n: int)
    requires
        0 < n,
        0 <= cur < n,
    ensures
        0 <= spec_next_index(cur, key, n) < n,
        key is ArrowUp ==> spec_next_index(cur, key, n) == if cur == 0 {
            n - 1
        } else {
            cur - 1
        },
        key is ArrowDown ==> spec_next_index(cur, key, n) == if cur == n - 1 {
            0
        } else {
            cur + 1
        },
        !(key is ArrowUp) && !(key is ArrowDown) ==> spec_next_index(cur, key, n) == cur,
{
    match key {
        Key::ArrowUp => {
            if cur == 0 {
                lemma_small_mod((n - 1) as nat, n as nat);
            } else {
                lemma_small_mod((cur - 1) as nat, n as nat);
                lemma_add_mod_noop_right(cur - 1, n, n);
                assert(n % n == 0) by {
                    lemma_small_mod(0nat, n as nat);
                    lemma_add_mod_noop_right(0, n, n);
                }
            }
        },
        Key::ArrowDown => {
            if cur == n - 1 {
                assert(n % n == 0) by {
                    lemma_small_mod(0nat, n as nat);
                    lemma_add_mod_noop_right(0, n, n);
                }
            } else {
                lemma_small_mod((cur + 1) as nat, n as nat);
            }
        },
        _ => {},
    }
}

/// The selection index after a whole sequence of key events, applied front
/// to back.
pub open spec fn nav_after(start: int, keys: Seq<Key>, n: int) -> int
    decreases keys.len(),
{
    if keys.len() == 0 {
        start
    } else {
        nav_after(spec_next_index(start, keys[0], n), keys.drop_first(), n)
    }
}

/// How many of the keys are arrow-up.
pub open spec fn count_ups(keys: Seq<Key>) -> int
    decreases keys.len(),
{
    if keys.len() == 0 {
        0
    } else {
        (if keys[0] is ArrowUp {
            1int
        } else {
            0int
        }) + count_ups(keys.drop_first())
    }
}

/// How many of the keys are arrow-down.
pub open spec fn count_downs(keys: Seq<Key>) -> int
    decreases keys.len(),
{
    if keys.len() == 0 {
        0
    } else {
        (if keys[0] is ArrowDown {
            1int
        } else {
            0int
        }) + count_downs(keys.drop_first())
    }
}

/// Law: over a non-empty option list, any sequence of key events leaves the
/// selection index inside `[0, n)`, and the index it lands on is congruent
/// to `start + downs - ups` modulo `n`.
pub proof fn lemma_navigation_congruence(start: int, keys: Seq<Key>, n: int)
    requires
        0 < n,
        0 <= start < n,
    ensures
        0 <= nav_after(start, keys, n) < n,
        nav_after(start, keys, n) == (start + count_downs(keys) - count_ups(keys)) % n,
    decreases keys.len(),
{
    if keys.len() == 0 {
        lemma_small_mod(start as nat, n as nat);
    } else {
        let step = spec_next_index(start, keys[0], n);
        lemma_next_index_formula(start, keys[0], n);
        lemma_navigation_congruence(step, keys.drop_first(), n);
        let d = count_downs(keys.drop_first());
        let u = count_ups(keys.drop_first());
        match keys[0] {
            Key::ArrowUp => {
                assert(step == (start + n - 1) % n);
                assert((step + d - u) % n == (d - u + (start + n - 1)) % n) by {
                    lemma_add_mod_noop_right(d - u, start + n - 1, n);
                }
                assert((d - u + (start + n - 1)) % n == (start + d - (u + 1)) % n) by {
                    lemma_add_mod_noop_right(start + d - (u + 1), n, n);
                    lemma_small_mod(0nat, n as nat);
                    lemma_add_mod_noop_right(0, n, n);
                }
            },
            Key::ArrowDown => {
                assert(step == (start + 1) % n);
                assert((step + d - u) % n == (d - u + (start + 1)) % n) by {
                    lemma_add_mod_noop_right(d - u, start + 1, n);
                }
            },
            _ => {},
        }
    }
}

} // verus!
