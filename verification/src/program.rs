//! The routines of the solved target program, written out from its decoded
//! instructions: the prime-table generator, the input transformation pass,
//! the buffer comparison, and the output stage. Register arithmetic wraps
//! in two's complement throughout.

use vstd::prelude::*;

use crate::state::State;
use crate::state::StateModel;
use crate::state::in_bounds;
use crate::state::stored;
use crate::state::word_at;
use vstd::wrapping::i32_specs;

verus! {

/// Whether the trial-division loop finds a divisor of `n`: it tries 2 and
/// every `d` with `d * d <= n`.
pub open spec fn has_checked_divisor(n: int) -> bool {
    exists|d: int| 2 <= d && (d == 2 || d * d <= n) && #[trigger] (n % d) == 0
}

/// Trial division of `r0` by `r2`, `r2 + 1`, ... while the square of the
/// next divisor stays at most `r0`. Clears `r1` exactly when a tried
/// divisor divides `r0`; `r2` ends on the first candidate whose square
/// exceeds `r0`, and `r3` holds that square's distance past `r0`.
pub fn stage2_105(s: &mut State)
    requires
        1 <= old(s)@.r0 <= 2147395599,
        old(s)@.r2 == 2,
    ensures
        final(s)@.r0 == old(s)@.r0,
        final(s)@.r4 == old(s)@.r4,
        final(s)@.mem == old(s)@.mem,
        final(s)@.r1 == if has_checked_divisor(old(s)@.r0 as int) {
            0int
        } else {
            old(s)@.r1 as int
        },
        3 <= final(s)@.r2 <= 46341,
        final(s)@.r2 * final(s)@.r2 > old(s)@.r0,
        forall|d: int| 3 <= d < final(s)@.r2 ==> #[trigger] (d * d) <= old(s)@.r0,
        final(s)@.r3 == final(s)@.r2 * final(s)@.r2 - old(s)@.r0 - 1,
{
    let ghost n = s.r0 as int;
    let ghost r1_in = s.r1;
    loop
        invariant_except_break
            s@.r0 == old(s)@.r0,
            s@.r4 == old(s)@.r4,
            s@.mem == old(s)@.mem,
            1 <= n <= 2147395599,
            n == s@.r0,
            2 <= s@.r2 <= 46340,
            s@.r2 == 2 || s@.r2 * s@.r2 <= n,
            forall|d: int| 3 <= d < s@.r2 ==> #[trigger] (d * d) <= n,
            s@.r1 == if (exists|d: int| 2 <= d < s@.r2 && #[trigger] (n % d) == 0) {
                0int
            } else {
                r1_in as int
            },
            r1_in == old(s)@.r1,
        ensures
            s@.r0 == old(s)@.r0,
            s@.r4 == old(s)@.r4,
            s@.mem == old(s)@.mem,
            3 <= s@.r2 <= 46341,
            s@.r2 * s@.r2 > n,
            forall|d: int| 3 <= d < s@.r2 ==> #[trigger] (d * d) <= n,
            s@.r1 == if (exists|d: int| 2 <= d < s@.r2 && #[trigger] (n % d) == 0) {
                0int
            } else {
                r1_in as int
            },
            s@.r3 == s@.r2 * s@.r2 - n - 1,
        decreases 46341 - s@.r2,
    {
        let p = match s.r0.checked_rem(s.r2) {
            Some(r) => r,
            None => 0,
        };
        s.r3 = p;
        if s.r3 == 0 {
            s.r1 = 0;
        }
        proof {
            assert(s@.r2 <= 46339) by {
                if s@.r2 > 2 && s@.r2 >= 46340 {
                    assert(s@.r2 * s@.r2 >= 46340 * 46340) by (nonlinear_arith)
                        requires
                            s@.r2 >= 46340,
                    ;
                }
            }
        }
        s.r2 = s.r2.wrapping_add(1);
        proof {
            let c = s@.r2 as int;
            assert(9 <= c * c <= 2147395600) by (nonlinear_arith)
                requires
                    3 <= c <= 46340,
            ;
            vstd::arithmetic::div_mod::lemma_small_mod((c * c) as nat, 0x1_0000_0000nat);
        }
        s.r3 = s.r2.wrapping_mul(s.r2);
        s.r3 = s.r3.wrapping_sub(s.r0);
        s.r3 = s.r3.wrapping_sub(1);
        if s.r3 >= 0 {
            break;
        }
    }
    proof {
        let c = s@.r2 as int;
        assert forall|d: int| 2 <= d && (d == 2 || d * d <= n) && #[trigger] (n % d) == 0 implies (
        exists|e: int| 2 <= e < c && #[trigger] (n % e) == 0) by {
            assert(d < c) by {
                if d >= c {
                    assert(d * d >= c * c) by (nonlinear_arith)
                        requires
                            3 <= c <= d,
                    ;
                }
            }
            assert(2 <= d < c && (n % d) == 0);
        }
        assert forall|e: int| 2 <= e < c && #[trigger] (n % e) == 0 implies has_checked_divisor(
            n,
        ) by {
            if e > 2 {
                assert(e * e <= n);
            }
            assert(2 <= e && (e == 2 || e * e <= n) && (n % e) == 0);
        }
    }
}

/// The state of the prime table after the generator has handled the
/// candidates `lo <= n < 0x3520`: each candidate with no checked divisor
/// is stored as a word at the write cursor `w`, which then moves two bytes.
pub open spec fn gen_table(mem: Seq<u8>, lo: int, w: i32) -> (Seq<u8>, i32)
    decreases 0x3520 - lo,
{
    if !(0x3390 <= lo < 0x3520) {
        (mem, w)
    } else if has_checked_divisor(lo) {
        gen_table(mem, lo + 1, w)
    } else {
        gen_table(stored(mem, w, lo as i32), lo + 1, i32_specs::wrapping_add(w, 2))
    }
}

/// Fills the table at 0x1388 with every candidate in `[0x3390, 0x3520)`
/// that survives trial division (the primes in that range), packed at
/// two-byte steps as four-byte little-endian words, so that consecutive
/// entries overlap and the table reads as 16-bit values.
pub fn generate_buffer(s: &mut State)
    requires
        old(s)@.mem.len() >= 0x16b0,
    ensures
        final(s)@.mem == gen_table(old(s)@.mem, 0x3390, 0x1388).0,
        final(s)@.r4 == gen_table(old(s)@.mem, 0x3390, 0x1388).1,
        final(s)@.mem.len() == old(s)@.mem.len(),
        final(s)@.r0 == 0x3520,
        final(s)@.r1 == 0,
        final(s)@.r2 == 117,
        final(s)@.r3 == 89,
{
    s.r4 = 0x1388;
    s.r0 = 0x3390;
    while s.r0 < 0x3520
        invariant
            s@.mem.len() == old(s)@.mem.len() >= 0x16b0,
            0x3390 <= s@.r0 <= 0x3520,
            0x1388 <= s@.r4 <= 0x1388 + 2 * (s@.r0 - 0x3390),
            gen_table(old(s)@.mem, 0x3390, 0x1388) == gen_table(s@.mem, s@.r0 as int, s@.r4),
            s@.r0 == 0x3390 || {
                let n = s@.r0 - 1;
                &&& s@.r1 == if has_checked_divisor(n) {
                    0int
                } else {
                    1int
                }
                &&& 3 <= s@.r2 <= 46341
                &&& s@.r2 * s@.r2 > n
                &&& (forall|d: int| 3 <= d < s@.r2 ==> #[trigger] (d * d) <= n)
                &&& s@.r3 == s@.r2 * s@.r2 - n - 1
            },
        decreases 0x3520 - s@.r0,
    {
        s.r1 = 1;
        s.r2 = 2;
        stage2_105(s);
        if s.r1 > 0 {
            s.store_at(s.r4, s.r0);
            s.r4 = s.r4.wrapping_add(2);
        }
        s.r0 = s.r0 + 1;
    }
    proof {
        let n = 0x351fint;
        assert(has_checked_divisor(n)) by {
            assert(2 <= 3 && 3 * 3 <= n && n % 3 == 0);
        }
        assert(s@.r2 == 117) by {
            if s@.r2 <= 116 {
                assert(s@.r2 * s@.r2 <= 116 * 116) by (nonlinear_arith)
                    requires
                        3 <= s@.r2 <= 116,
                ;
            }
            if s@.r2 >= 118 {
                assert(117 * 117 <= n);
            }
        }
    }
}

/// The constant the first comparison word is checked against.
pub open spec fn check_word(k: int) -> i32 {
    if k == 0 {
        i32_specs::wrapping_add(i32_specs::wrapping_add(0x51eddb21, 0x648c4a88), 0x4355a74c)
    } else if k == 1 {
        i32_specs::wrapping_add(0x32333645, 0x58728e64)
    } else if k == 2 {
        0x6f57a0a3
    } else if k == 3 {
        i32_specs::wrapping_add(0x22d9bbcc, 0x569fcabc)
    } else if k == 4 {
        0xd531548
    } else if k == 5 {
        i32_specs::wrapping_add(0x74c2318e, 0x7233f6a3)
    } else {
        i32_specs::wrapping_add(i32_specs::wrapping_add(0x6d12a1c5, 0x6c3422b6), 0xf213d9a)
    }
}

/// The or-fold that `buffer_check` leaves in `r0`: each of the seven words
/// at 0x1194 is xor-ed with its constant and the differences are or-ed.
pub open spec fn check_fold(mem: Seq<u8>, k: int) -> i32
    decreases k,
{
    if k <= 0 {
        0
    } else {
        check_fold(mem, k - 1) | (word_at(mem, (0x1194 + 4 * (k - 1)) as i32) ^ check_word(k - 1))
    }
}

/// Compares the seven words at 0x1194 against their expected constants,
/// or-ing every difference into `r0`; `r0` ends zero exactly when the
/// whole buffer matches. Memory is untouched.
pub fn buffer_check(s: &mut State)
    requires
        old(s)@.mem.len() >= 0x11b0,
    ensures
        final(s)@.mem == old(s)@.mem,
        final(s)@.r3 == old(s)@.r3,
        final(s)@.r4 == old(s)@.r4,
        final(s)@.r0 == check_fold(old(s)@.mem, 7),
        final(s)@.r1 == word_at(old(s)@.mem, 0x11ac) ^ check_word(6),
        final(s)@.r2 == check_word(6),
{
    s.r0 = 0;

    s.r1 = 0x1194;
    s.r1 = s.read_at(s.r1);
    s.r2 = 0x51eddb21;
    s.r2 = s.r2.wrapping_add(0x648c4a88);
    s.r2 = s.r2.wrapping_add(0x4355a74c);
    s.r1 = s.r1 ^ s.r2;
    s.r0 = s.r0 | s.r1;

    s.r1 = 0x4;
    s.r1 = s.r1.wrapping_add(0x1194);
    s.r1 = s.read_at(s.r1);
    s.r2 = 0;
    s.r2 = s.r2.wrapping_add(0x32333645);
    s.r2 = s.r2.wrapping_add(0x58728e64);
    s.r1 = s.r1 ^ s.r2;
    s.r0 = s.r0 | s.r1;

    s.r1 = 0x8;
    s.r1 = s.r1.wrapping_add(0x1194);
    s.r1 = s.read_at(s.r1);
    s.r2 = 0;
    s.r2 = s.r2.wrapping_add(0x6f57a0a3);
    s.r1 = s.r1 ^ s.r2;
    s.r0 = s.r0 | s.r1;

    s.r1 = 0xc;
    s.r1 = s.r1.wrapping_add(0x1194);
    s.r1 = s.read_at(s.r1);
    s.r2 = 0;
    s.r2 = s.r2.wrapping_add(0x22d9bbcc);
    s.r2 = s.r2.wrapping_add(0x569fcabc);
    s.r1 = s.r1 ^ s.r2;
    s.r0 = s.r0 | s.r1;

    s.r1 = 0x10;
    s.r1 = s.r1.wrapping_add(0x1194);
    s.r1 = s.read_at(s.r1);
    s.r2 = 0;
    s.r2 = s.r2.wrapping_add(0xd531548);
    s.r1 = s.r1 ^ s.r2;
    s.r0 = s.r0 | s.r1;

    s.r1 = 0x14;
    s.r1 = s.r1.wrapping_add(0x1194);
    s.r1 = s.read_at(s.r1);
    s.r2 = 0;
    s.r2 = s.r2.wrapping_add(0x74c2318e);
    s.r2 = s.r2.wrapping_add(0x7233f6a3);
    s.r1 = s.r1 ^ s.r2;
    s.r0 = s.r0 | s.r1;

    s.r1 = 0x18;
    s.r1 = s.r1.wrapping_add(0x1194);
    s.r1 = s.read_at(s.r1);
    s.r2 = 0;
    s.r2 = s.r2.wrapping_add(0x6d12a1c5);
    s.r2 = s.r2.wrapping_add(0x6c3422b6);
    s.r2 = s.r2.wrapping_add(0xf213d9a);
    s.r1 = s.r1 ^ s.r2;
    s.r0 = s.r0 | s.r1;

    proof {
        assert(s@.r0 == check_fold(old(s)@.mem, 7)) by {
            reveal_with_fuel(check_fold, 8);
        }
    }
}

/// Or-ing two words gives zero exactly when both are zero.
proof fn lemma_or_zero(a: i32, b: i32)
    ensures
        ((a | b) == 0) <==> (a == 0 && b == 0),
{
    assert(((a | b) == 0) <==> (a == 0 && b == 0)) by (bit_vector);
}

/// Xor-ing two words gives zero exactly when they are equal.
proof fn lemma_xor_zero(a: i32, b: i32)
    ensures
        ((a ^ b) == 0) <==> (a == b),
{
    assert(((a ^ b) == 0) <==> (a == b)) by (bit_vector);
}

/// The first `k` steps of the or-fold are zero exactly when the first
/// `k` compared words carry their expected constants.
proof fn lemma_fold_zero_iff(mem: Seq<u8>, k: int)
    requires
        0 <= k <= 7,
    ensures
        (check_fold(mem, k) == 0) <==> (forall|j: int|
            0 <= j < k ==> word_at(mem, (0x1194 + 4 * j) as i32) == check_word(j)),
    decreases k,
{
    if k > 0 {
        lemma_fold_zero_iff(mem, k - 1);
        let w = word_at(mem, (0x1194 + 4 * (k - 1)) as i32);
        lemma_or_zero(check_fold(mem, k - 1), w ^ check_word(k - 1));
        lemma_xor_zero(w, check_word(k - 1));
    }
}

/// What `buffer_check` leaves in `r0` is zero exactly when all seven
/// words at 0x1194 carry their expected constants: the comparison
/// accepts precisely the created buffer contents.
pub proof fn lemma_buffer_check_accepts(mem: Seq<u8>)
    ensures
        (check_fold(mem, 7) == 0) <==> (forall|j: int|
            0 <= j < 7 ==> word_at(mem, (0x1194 + 4 * j) as i32) == check_word(j)),
{
    lemma_fold_zero_iff(mem, 7);
}

/// The memory after the expected comparison words have been written at
/// 0x1194: the "good" buffer that `buffer_check` accepts.
pub open spec fn created(mem: Seq<u8>, k: int) -> Seq<u8>
    decreases k,
{
    if k <= 0 {
        mem
    } else {
        stored(created(mem, k - 1), (0x1194 + 4 * (k - 1)) as i32, check_word(k - 1))
    }
}

/// Writes the seven expected comparison words at 0x1194: the buffer that
/// `buffer_check` then reports as matching.
pub fn buffer_create(s: &mut State)
    requires
        old(s)@.mem.len() >= 0x11b0,
    ensures
        final(s)@.mem == created(old(s)@.mem, 7),
        final(s)@.mem.len() == old(s)@.mem.len(),
        final(s)@.r0 == old(s)@.r0,
        final(s)@.r3 == old(s)@.r3,
        final(s)@.r4 == old(s)@.r4,
        final(s)@.r1 == 0x11ac,
        final(s)@.r2 == check_word(6),
{
    s.r1 = 0x1194;
    s.r2 = 0x51eddb21;
    s.r2 = s.r2.wrapping_add(0x648c4a88);
    s.r2 = s.r2.wrapping_add(0x4355a74c);
    s.store_at(s.r1, s.r2);

    s.r1 = 0x4;
    s.r1 = s.r1.wrapping_add(0x1194);
    s.r2 = 0;
    s.r2 = s.r2.wrapping_add(0x32333645);
    s.r2 = s.r2.wrapping_add(0x58728e64);
    s.store_at(s.r1, s.r2);

    s.r1 = 0x8;
    s.r1 = s.r1.wrapping_add(0x1194);
    s.r2 = 0;
    s.r2 = s.r2.wrapping_add(0x6f57a0a3);
    s.store_at(s.r1, s.r2);

    s.r1 = 0xc;
    s.r1 = s.r1.wrapping_add(0x1194);
    s.r2 = 0;
    s.r2 = s.r2.wrapping_add(0x22d9bbcc);
    s.r2 = s.r2.wrapping_add(0x569fcabc);
    s.store_at(s.r1, s.r2);

    s.r1 = 0x10;
    s.r1 = s.r1.wrapping_add(0x1194);
    s.r2 = 0;
    s.r2 = s.r2.wrapping_add(0xd531548);
    s.store_at(s.r1, s.r2);

    s.r1 = 0x14;
    s.r1 = s.r1.wrapping_add(0x1194);
    s.r2 = 0;
    s.r2 = s.r2.wrapping_add(0x74c2318e);
    s.r2 = s.r2.wrapping_add(0x7233f6a3);
    s.store_at(s.r1, s.r2);

    s.r1 = 0x18;
    s.r1 = s.r1.wrapping_add(0x1194);
    s.r2 = 0;
    s.r2 = s.r2.wrapping_add(0x6d12a1c5);
    s.r2 = s.r2.wrapping_add(0x6c3422b6);
    s.r2 = s.r2.wrapping_add(0xf213d9a);
    s.store_at(s.r1, s.r2);

    proof {
        assert(s@.mem == created(old(s)@.mem, 7)) by {
            reveal_with_fuel(created, 8);
        }
    }
}

/// One step of the hand-ported trajectory: an even value is halved, an
/// odd positive value becomes `3v + 1` (wrapping), and an odd negative
/// value is left alone, exactly as the decoded register code behaves.
pub open spec fn collatz_step(v: i32) -> i32 {
    let p = crate::executor::rem32(v, 2);
    if p == 0 {
        crate::executor::div32(v, 2)
    } else if p > 0 {
        i32_specs::wrapping_add(i32_specs::wrapping_mul(v, 3), 1)
    } else {
        v
    }
}

/// The value of the trajectory of `v` after `k` steps.
pub open spec fn collatz_iter(v: i32, k: int) -> i32
    decreases k,
{
    if k <= 0 {
        v
    } else {
        collatz_step(collatz_iter(v, k - 1))
    }
}

/// Whether the trajectory of `v` reaches 1, in few enough steps for the
/// 32-bit step counter.
pub open spec fn collatz_halts(v: i32) -> bool {
    exists|k: int| 0 <= k < 0x7fff_ffff && #[trigger] collatz_iter(v, k) == 1
}

/// `k` is the first step count at which the trajectory of `v` reaches 1.
pub open spec fn first_reach(v: i32, k: int) -> bool {
    0 <= k && collatz_iter(v, k) == 1 && (forall|j: int|
        0 <= j < k ==> #[trigger] collatz_iter(v, j) != 1)
}

/// The number of steps the trajectory of `v` takes to reach 1 (meaningful
/// when the trajectory does reach it).
pub open spec fn collatz_steps(v: i32) -> int {
    choose|k: int| first_reach(v, k)
}

/// A trajectory that reaches 1 reaches it a first time.
proof fn lemma_first_reach_exists(v: i32, k: int)
    requires
        0 <= k,
        collatz_iter(v, k) == 1,
    ensures
        exists|j: int| #[trigger] first_reach(v, j),
    decreases k,
{
    if exists|j: int| 0 <= j < k && #[trigger] collatz_iter(v, j) == 1 {
        let j = choose|j: int| 0 <= j < k && #[trigger] collatz_iter(v, j) == 1;
        lemma_first_reach_exists(v, j);
    } else {
        assert(first_reach(v, k));
    }
}

/// The first step count reaching 1 is unique, so it is `collatz_steps`.
proof fn lemma_steps_agree(v: i32, k: int)
    requires
        first_reach(v, k),
    ensures
        collatz_steps(v) == k,
{
    lemma_first_reach_exists(v, k);
    let c = collatz_steps(v);
    assert(first_reach(v, c));
    if c < k {
        assert(collatz_iter(v, c) == 1);
    }
    if k < c {
        assert(collatz_iter(v, k) == 1);
    }
}

/// Counts the steps the trajectory of `r0` takes to reach 1, leaving the
/// count in `r0` and zero in `r1`. Everything else is untouched. The
/// count is owed exactly when the trajectory reaches 1 at all.
pub fn collatz(s: &mut State)
    requires
        collatz_halts(old(s)@.r0),
    ensures
        0 <= final(s)@.r0 < 0x7fff_ffff,
        first_reach(old(s)@.r0, final(s)@.r0 as int),
        final(s)@.r1 == 0,
        final(s)@.r2 == old(s)@.r2,
        final(s)@.r3 == old(s)@.r3,
        final(s)@.r4 == old(s)@.r4,
        final(s)@.mem == old(s)@.mem,
{
    let ghost n = s.r0;
    let ghost k0 = choose|k: int| 0 <= k < 0x7fff_ffff && #[trigger] collatz_iter(n, k) == 1;
    let mut v = s.r0;
    let mut count: i32 = 0;
    while v != 1
        invariant
            s@ == old(s)@,
            n == old(s)@.r0,
            0 <= count <= k0 < 0x7fff_ffff,
            collatz_iter(n, k0) == 1,
            v == collatz_iter(n, count as int),
            forall|j: int| 0 <= j < count ==> #[trigger] collatz_iter(n, j) != 1,
        decreases k0 - count,
    {
        let p = match v.checked_rem(2) {
            Some(r) => r,
            None => 0,
        };
        if p == 0 {
            v = match v.checked_div(2) {
                Some(q) => q,
                None => i32::MIN,
            };
        } else if p > 0 {
            v = v.wrapping_mul(3).wrapping_add(1);
        }
        proof {
            assert(v == collatz_iter(n, count + 1));
        }
        count = count + 1;
    }
    s.r0 = count;
    s.r1 = 0;
}

/// One trajectory step applied to `r0`, then the step count of what
/// remains, plus one: together, the step count of the original value when
/// it is at least two.
pub fn collatz_helper(s: &mut State)
    requires
        collatz_halts(collatz_step(old(s)@.r0)),
    ensures
        1 <= final(s)@.r0 <= 0x7fff_ffff,
        first_reach(collatz_step(old(s)@.r0), final(s)@.r0 - 1),
        final(s)@.r1 == 0,
        final(s)@.r2 == old(s)@.r2,
        final(s)@.r3 == old(s)@.r3,
        final(s)@.r4 == old(s)@.r4,
        final(s)@.mem == old(s)@.mem,
{
    let ghost v0 = s.r0;
    let p = match s.r0.checked_rem(2) {
        Some(r) => r,
        None => 0,
    };
    s.r1 = p;
    if s.r1 == 0 {
        s.r0 = match s.r0.checked_div(2) {
            Some(q) => q,
            None => i32::MIN,
        };
    }
    if s.r1 > 0 {
        s.r0 = s.r0.wrapping_mul(3).wrapping_add(1);
    }
    proof {
        assert(s@.r0 == collatz_step(v0));
    }
    collatz(s);
    s.r0 = s.r0 + 1;
}

/// The effect of transforming one input byte, given that `r0` holds the
/// byte's index and `r4` the byte itself: the byte is xor-ed with the low
/// byte of the prime-table word at twice the index, the step count of the
/// trajectory of index-plus-one is added, and the low byte of the result
/// is stored at 0x1194 plus the index. `None` where a memory access would
/// fall outside the buffer, where the table index arithmetic would leave
/// the 32-bit range, or where the trajectory never reaches 1 (the
/// routine itself would fault or never return there).
pub open spec fn process_state(m: StateModel) -> Option<StateModel> {
    if !(-0x8000_0000 <= 2 * m.r0 && 2 * m.r0 + 0x1338 <= 0x7fff_ffff) {
        None
    } else {
        let b = (2 * m.r0 + 0x1338) as i32;
        if !in_bounds(m.mem, b) {
            None
        } else {
            let x = word_at(m.mem, b) & 0xff;
            let r4a = m.r4 ^ x;
            let i1 = (m.r0 + 1) as i32;
            if !collatz_halts(i1) {
                None
            } else {
                let r4b = i32_specs::wrapping_add(r4a, collatz_steps(i1) as i32) & 0xff;
                let r2b = i32_specs::wrapping_add(i32_specs::wrapping_sub(i1, 1), 0x1194);
                if !in_bounds(m.mem, r2b) {
                    None
                } else {
                    Some(
                        StateModel {
                            r0: i1,
                            r1: 0,
                            r2: r2b,
                            r3: m.r3,
                            r4: r4b,
                            mem: stored(m.mem, r2b, r4b),
                        },
                    )
                }
            }
        }
    }
}

/// The whole input pass from index `r0` on: words are read at 0x1000 plus
/// the index until one with a zero low byte stops the scan; every nonzero
/// byte is transformed per `process_state`. `None` where the pass would
/// fault.
pub open spec fn scan_state(m: StateModel) -> Option<StateModel>
    decreases m.mem.len() + 0x1000 - m.r0,
{
    if m.r0 > 0x7fff_ffff - 0x1000 {
        None
    } else {
        let a = (0x1000 + m.r0) as i32;
        if !in_bounds(m.mem, a) {
            None
        } else {
            let w = word_at(m.mem, a) & 0xff;
            let m1 = StateModel { r2: a, r4: w, ..m };
            if w > 0 {
                match process_state(m1) {
                    None => None,
                    Some(m2) => scan_state(m2),
                }
            } else {
                Some(m1)
            }
        }
    }
}

/// Transforms the input byte held in `r4` (index in `r0`) and goes on
/// scanning the following bytes, per `process_state` and `scan_state`.
pub fn process_input_byte(s: &mut State)
    requires
        process_state(old(s)@) is Some,
        scan_state(process_state(old(s)@).unwrap()) is Some,
    ensures
        final(s)@ == scan_state(process_state(old(s)@).unwrap()).unwrap(),
        final(s)@.mem.len() == old(s)@.mem.len(),
{
    process_step(s);
    read_input_byte(s);
}

/// The body shared by the scan loop and `process_input_byte`.
fn process_step(s: &mut State)
    requires
        process_state(old(s)@) is Some,
    ensures
        final(s)@ == process_state(old(s)@).unwrap(),
        final(s)@.mem.len() == old(s)@.mem.len(),
{
    let t = s.r0 * 2 + 0x1338;
    let x = s.read_at(t) & 0xff;
    s.r2 = x;
    s.r4 = s.r4 ^ s.r2;
    s.r0 = s.r0 + 1;
    s.r2 = s.r0;
    collatz(s);
    proof {
        lemma_steps_agree((old(s)@.r0 + 1) as i32, s@.r0 as int);
    }
    s.r4 = s.r4.wrapping_add(s.r0);
    s.r4 = s.r4 & 0xff;
    s.r0 = s.r2;
    s.r2 = s.r2.wrapping_sub(1);
    s.r2 = s.r2.wrapping_add(0x1194);
    s.store_at(s.r2, s.r4);
}

/// Scans the input region from index `r0`, transforming every byte up to
/// the first zero byte, exactly as `scan_state` describes.
pub fn read_input_byte(s: &mut State)
    requires
        scan_state(old(s)@) is Some,
    ensures
        final(s)@ == scan_state(old(s)@).unwrap(),
        final(s)@.mem.len() == old(s)@.mem.len(),
{
    loop
        invariant_except_break
            scan_state(s@) is Some,
            scan_state(s@) == scan_state(old(s)@),
            s@.mem.len() == old(s)@.mem.len(),
        ensures
            Some(s@) == scan_state(old(s)@),
            s@.mem.len() == old(s)@.mem.len(),
        decreases s@.mem.len() + 0x1000 - s@.r0,
    {
        let a = 0x1000 + s.r0;
        s.r2 = a;
        let w = s.read_at(a) & 0xff;
        s.r4 = w;
        if s.r4 > 0 {
            process_step(s);
        } else {
            break;
        }
    }
}

/// The state in which the decoded program starts its input pass: the
/// prime table generated, the scan index cleared.
pub open spec fn main_entry_state(m: StateModel) -> StateModel {
    let g = gen_table(m.mem, 0x3390, 0x1388);
    StateModel { r0: 0, r1: 0, r2: 117, r3: 89, r4: g.1, mem: g.0 }
}

/// The registers `buffer_check` computes over a given state.
pub open spec fn check_state(m: StateModel) -> StateModel {
    StateModel {
        r0: check_fold(m.mem, 7),
        r1: word_at(m.mem, 0x11ac) ^ check_word(6),
        r2: check_word(6),
        ..m
    }
}

/// The decoded program, stage by stage: prime table, input pass, buffer
/// comparison, output stage. Both arms of the comparison branch converge
/// on the output stage, as the decoded program's do.
pub fn stage2_main(s: &mut State)
    requires
        old(s)@.mem.len() >= 0x2000,
        scan_state(main_entry_state(old(s)@)) is Some,
    ensures
        final(s)@ == output_stage(check_state(scan_state(main_entry_state(old(s)@)).unwrap())),
        final(s)@.mem.len() == old(s)@.mem.len(),
{
    generate_buffer(s);
    s.r0 = 0;
    read_input_byte(s);
    buffer_check(s);
    if s.r0 == 0 {
        stage2_28d(s);
    } else {
        stage2_28d(s);
    }
}

/// Whether the trajectory of `v` reaches 1 within `fuel` steps; a plain
/// computation that `by (compute)` can evaluate on concrete values.
pub open spec fn reaches_one_within(v: i32, fuel: int) -> bool
    decreases fuel,
{
    if fuel <= 0 {
        false
    } else if v == 1 {
        true
    } else {
        reaches_one_within(collatz_step(v), fuel - 1)
    }
}

/// Every value in `[lo, hi)` reaches 1 within `fuel` steps.
pub open spec fn range_reaches_one(lo: int, hi: int, fuel: int) -> bool
    decreases hi - lo,
{
    if lo >= hi {
        true
    } else {
        reaches_one_within(lo as i32, fuel) && range_reaches_one(lo + 1, hi, fuel)
    }
}

/// Stepping first and iterating is iterating once more.
proof fn lemma_iter_shift(v: i32, k: int)
    requires
        0 <= k,
    ensures
        collatz_iter(collatz_step(v), k) == collatz_iter(v, k + 1),
    decreases k,
{
    if k == 0 {
        assert(collatz_iter(v, 1) == collatz_step(collatz_iter(v, 0)));
    } else {
        lemma_iter_shift(v, k - 1);
        assert(collatz_iter(collatz_step(v), k) == collatz_step(collatz_iter(collatz_step(v), k - 1)));
        assert(collatz_iter(v, k + 1) == collatz_step(collatz_iter(v, k)));
    }
}

/// A fueled reach gives a step count below the fuel.
proof fn lemma_fueled_reach(v: i32, fuel: int)
    requires
        0 <= fuel <= 0x7fff_ffff,
        reaches_one_within(v, fuel),
    ensures
        exists|k: int| 0 <= k < fuel && #[trigger] collatz_iter(v, k) == 1,
    decreases fuel,
{
    if v == 1 {
        assert(collatz_iter(v, 0) == 1);
    } else {
        lemma_fueled_reach(collatz_step(v), fuel - 1);
        let k = choose|k: int|
            0 <= k < fuel - 1 && #[trigger] collatz_iter(collatz_step(v), k) == 1;
        lemma_iter_shift(v, k);
        assert(collatz_iter(v, k + 1) == 1);
    }
}

/// Peels one member out of a verified range.
proof fn lemma_range_member(lo: int, hi: int, fuel: int, i: int)
    requires
        range_reaches_one(lo, hi, fuel),
        lo <= i < hi,
    ensures
        reaches_one_within(i as i32, fuel),
    decreases i - lo,
{
    if i > lo {
        lemma_range_member(lo + 1, hi, fuel, i);
    }
}

/// One trajectory step, as a value.
fn collatz_step_value(v: i32) -> (r: i32)
    ensures
        r == collatz_step(v),
{
    let p = match v.checked_rem(2) {
        Some(r2) => r2,
        None => 0,
    };
    if p == 0 {
        match v.checked_div(2) {
            Some(q) => q,
            None => i32::MIN,
        }
    } else if p > 0 {
        v.wrapping_mul(3).wrapping_add(1)
    } else {
        v
    }
}

/// Decides `reaches_one_within` by running the trajectory.
fn reaches_one(v: i32, fuel: u32) -> (b: bool)
    ensures
        b == reaches_one_within(v, fuel as int),
{
    let mut x = v;
    let mut f = fuel;
    while f > 0
        invariant
            f <= fuel,
            reaches_one_within(v, fuel as int) == reaches_one_within(x, f as int),
        decreases f,
    {
        if x == 1 {
            return true;
        }
        x = collatz_step_value(x);
        f = f - 1;
    }
    false
}

/// Decides `range_reaches_one` by running every trajectory in the range.
pub fn trajectories_reach_one(lo: i32, hi: i32, fuel: u32) -> (b: bool)
    requires
        lo <= hi,
    ensures
        b == range_reaches_one(lo as int, hi as int, fuel as int),
{
    let mut c = lo;
    while c < hi
        invariant
            lo <= c <= hi,
            range_reaches_one(lo as int, hi as int, fuel as int) == range_reaches_one(
                c as int,
                hi as int,
                fuel as int,
            ),
        decreases hi - c,
    {
        if !reaches_one(c, fuel) {
            return false;
        }
        c = c + 1;
    }
    true
}

/// The input byte, at index `i`, that the transformation pass maps onto
/// the expected comparison buffer: the expected byte, less the trajectory
/// step count of `i + 1`, xor-ed with the low byte of the prime-table word
/// at twice the index.
pub open spec fn winning_byte(mem: Seq<u8>, i: int) -> u8 {
    vstd::wrapping::u8_specs::wrapping_sub(
        mem[0x1194 + i],
        (collatz_steps((i + 1) as i32) % 0x100) as u8,
    ) ^ mem[0x1388 + 2 * i]
}

/// Derives the input that makes the transformation pass reproduce the
/// expected comparison buffer: writes the expected buffer and the prime
/// table, reads the trajectory step counts, combines the three per
/// `winning_byte`, stores the result in the input region and returns it.
pub fn winning_input(s: &mut State) -> (r: Vec<u8>)
    requires
        old(s)@.mem.len() >= 0x16b0,
        range_reaches_one(1, 0x1d, 150),
    ensures
        ({
            let m2 = gen_table(created(old(s)@.mem, 7), 0x3390, 0x1388).0;
            &&& r@.len() == 0x1c
            &&& (forall|i: int| 0 <= i < 0x1c ==> r@[i] == winning_byte(m2, i))
            &&& final(s)@.mem.len() == old(s)@.mem.len()
            &&& (forall|j: int|
                0 <= j < m2.len() ==> final(s)@.mem[j] == if 0x1000 <= j < 0x101c {
                    winning_byte(m2, j - 0x1000)
                } else {
                    m2[j]
                })
        }),
{
    buffer_create(s);
    generate_buffer(s);
    let ghost m2 = s@.mem;

    // The trajectory step count of each index, as the low byte the pass
    // will add.
    let mut counts: Vec<u8> = Vec::new();
    let mut c: i32 = 0;
    while c < 0x1c
        invariant
            0 <= c <= 0x1c,
            range_reaches_one(1, 0x1d, 150),
            counts@.len() == c,
            forall|i: int|
                0 <= i < c ==> counts@[i] == (collatz_steps((i + 1) as i32) % 0x100) as u8,
            s@.mem == m2,
            s@.mem.len() >= 0x16b0,
        decreases 0x1c - c,
    {
        s.r0 = c + 1;
        proof {
            lemma_range_member(1, 0x1d, 150, c + 1);
            lemma_fueled_reach((c + 1) as i32, 150);
        }
        collatz(s);
        proof {
            lemma_steps_agree((c + 1) as i32, s@.r0 as int);
        }
        let cb = ((s.r0 as i64) % 0x100) as u8;
        counts.push(cb);
        c = c + 1;
    }

    // Combine the expected buffer, the counts and the prime table.
    let mut out: Vec<u8> = Vec::new();
    let mut i: usize = 0;
    while i < 0x1c
        invariant
            i <= 0x1c,
            out@.len() == i,
            forall|j: int| 0 <= j < i ==> out@[j] == winning_byte(m2, j),
            counts@.len() == 0x1c,
            forall|j: int|
                0 <= j < 0x1c ==> counts@[j] == (collatz_steps((j + 1) as i32) % 0x100) as u8,
            s@.mem == m2,
            s@.mem.len() >= 0x16b0,
        decreases 0x1c - i,
    {
        let g = s.mem[0x1194 + i];
        let x = s.mem[0x1388 + 2 * i];
        let a = g.wrapping_sub(counts[i]) ^ x;
        out.push(a);
        i = i + 1;
    }

    // Put the derived input into the input region.
    let mut k: usize = 0;
    while k < 0x1c
        invariant
            k <= 0x1c,
            out@.len() == 0x1c,
            forall|j: int| 0 <= j < 0x1c ==> out@[j] == winning_byte(m2, j),
            s@.mem.len() == m2.len() >= 0x16b0,
            forall|j: int|
                0 <= j < m2.len() ==> s@.mem[j] == if 0x1000 <= j < 0x1000 + k {
                    winning_byte(m2, j - 0x1000)
                } else {
                    m2[j]
                },
        decreases 0x1c - k,
    {
        let b = out[k];
        s.mem[0x1000 + k] = b;
        k = k + 1;
    }
    out
}

/// Runs the trajectory check that `winning_input` requires and derives
/// the input only when it passes; `None`, with nothing changed, when it
/// does not.
pub fn solve_input(s: &mut State) -> (r: Option<Vec<u8>>)
    requires
        old(s)@.mem.len() >= 0x16b0,
    ensures
        r is Some <==> range_reaches_one(1, 0x1d, 150),
        r is None ==> final(s)@ == old(s)@,
        r matches Some(v) ==> ({
            let m2 = gen_table(created(old(s)@.mem, 7), 0x3390, 0x1388).0;
            &&& v@.len() == 0x1c
            &&& (forall|i: int| 0 <= i < 0x1c ==> v@[i] == winning_byte(m2, i))
            &&& final(s)@.mem.len() == old(s)@.mem.len()
            &&& (forall|j: int|
                0 <= j < m2.len() ==> final(s)@.mem[j] == if 0x1000 <= j < 0x101c {
                    winning_byte(m2, j - 0x1000)
                } else {
                    m2[j]
                })
        }),
{
    if trajectories_reach_one(1, 0x1d, 150) {
        Some(winning_input(s))
    } else {
        None
    }
}

/// The whole effect of the output stage: a running xor of the seven input
/// words at 0x1000 is folded with seven constants and written as the seven
/// words at 0x1800.
pub open spec fn output_stage(m: StateModel) -> StateModel {
    let x0 = 0x75bcd15 ^ word_at(m.mem, 0x1000);
    let v0 = 0x3278f102 ^ x0;
    let mem0 = stored(m.mem, 0x1800, v0);
    let x1 = x0 ^ word_at(mem0, 0x1004);
    let v1 = 0x560aa747 ^ x1;
    let mem1 = stored(mem0, 0x1804, v1);
    let x2 = x1 ^ word_at(mem1, 0x1008);
    let v2 = 0x3e6fd176 ^ x2;
    let mem2 = stored(mem1, 0x1808, v2);
    let x3 = x2 ^ word_at(mem2, 0x100c);
    let v3 = i32_specs::wrapping_add(0x156d86fa, 0x66c93320) ^ x3;
    let mem3 = stored(mem2, 0x180c, v3);
    let x4 = x3 ^ word_at(mem3, 0x1010);
    let v4 = 0xe5dbc23 ^ x4;
    let mem4 = stored(mem3, 0x1810, v4);
    let x5 = x4 ^ word_at(mem4, 0x1014);
    let v5 = 0xd3f894c ^ x5;
    let mem5 = stored(mem4, 0x1814, v5);
    let x6 = x5 ^ word_at(mem5, 0x1018);
    let v6 = 0x324fe212 ^ x6;
    let mem6 = stored(mem5, 0x1818, v6);
    StateModel { r0: x6, r1: 0x1818, r2: v6, mem: mem6, ..m }
}

/// The output stage: xors the words of the user-input region into a
/// running key and writes the seven keyed constants to the output region
/// at 0x1800, exactly as `output_stage` describes.
pub fn stage2_28d(s: &mut State)
    requires
        old(s)@.mem.len() >= 0x181c,
    ensures
        final(s)@ == output_stage(old(s)@),
        final(s)@.mem.len() == old(s)@.mem.len(),
{
    s.r0 = 0x75bcd15;
    s.r1 = s.read_at(0x1000);
    s.r0 = s.r0 ^ s.r1;
    s.r2 = 0x3278f102;
    s.r2 = s.r2 ^ s.r0;

    s.r1 = 0x1800;
    s.store_at(0x1800, s.r2);

    s.r1 = 0x1004;
    s.r1 = s.read_at(s.r1);
    s.r0 = s.r0 ^ s.r1;

    s.r2 = 0x560aa747;
    s.r2 = s.r2 ^ s.r0;
    s.store_at(0x1804, s.r2);

    s.r1 = 0x8;
    s.r1 = s.r1.wrapping_add(0x1000);
    s.r1 = s.read_at(s.r1);
    s.r0 = s.r0 ^ s.r1;
    s.r2 = 0;
    s.r2 = s.r2.wrapping_add(0x3e6fd176);
    s.r2 = s.r2 ^ s.r0;
    s.r1 = 0x8;
    s.r1 = s.r1.wrapping_add(0x1800);
    s.store_at(s.r1, s.r2);

    s.r1 = 0xc;
    s.r1 = s.r1.wrapping_add(0x1000);
    s.r1 = s.read_at(s.r1);
    s.r0 = s.r0 ^ s.r1;
    s.r2 = 0;
    s.r2 = s.r2.wrapping_add(0x156d86fa);
    s.r2 = s.r2.wrapping_add(0x66c93320);
    s.r2 = s.r2 ^ s.r0;
    s.r1 = 0xc;
    s.r1 = s.r1.wrapping_add(0x1800);
    s.store_at(s.r1, s.r2);

    s.r1 = 0x10;
    s.r1 = s.r1.wrapping_add(0x1000);
    s.r1 = s.read_at(s.r1);
    s.r0 = s.r0 ^ s.r1;
    s.r2 = 0;
    s.r2 = s.r2.wrapping_add(0xe5dbc23);
    s.r2 = s.r2 ^ s.r0;
    s.r1 = 0x10;
    s.r1 = s.r1.wrapping_add(0x1800);
    s.store_at(s.r1, s.r2);

    s.r1 = 0x14;
    s.r1 = s.r1.wrapping_add(0x1000);
    s.r1 = s.read_at(s.r1);
    s.r0 = s.r0 ^ s.r1;
    s.r2 = 0;
    s.r2 = s.r2.wrapping_add(0xd3f894c);
    s.r2 = s.r2 ^ s.r0;
    s.r1 = 0x14;
    s.r1 = s.r1.wrapping_add(0x1800);
    s.store_at(s.r1, s.r2);

    s.r1 = 0x18;
    s.r1 = s.r1.wrapping_add(0x1000);
    s.r1 = s.read_at(s.r1);
    s.r0 = s.r0 ^ s.r1;
    s.r2 = 0;
    s.r2 = s.r2.wrapping_add(0x324fe212);
    s.r2 = s.r2 ^ s.r0;
    s.r1 = 0x18;
    s.r1 = s.r1.wrapping_add(0x1800);
    s.store_at(s.r1, s.r2);
}

} // verus!
