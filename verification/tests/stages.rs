use fmtvm::program::buffer_check;
use fmtvm::program::buffer_create;
use fmtvm::program::collatz;
use fmtvm::program::collatz_helper;
use fmtvm::program::generate_buffer;
use fmtvm::program::read_input_byte;
use fmtvm::program::solve_input;
use fmtvm::program::stage2_105;
use fmtvm::program::stage2_28d;
use fmtvm::program::stage2_main;
use fmtvm::program::trajectories_reach_one;
use fmtvm::program::winning_input;
use fmtvm::state::State;

fn machine(len: usize) -> State {
    let mut s = State::default();
    s.mem = vec![0u8; len];
    s
}

fn is_prime(n: u32) -> bool {
    if n < 2 {
        return false;
    }
    let mut d = 2;
    while d * d <= n {
        if n % d == 0 {
            return false;
        }
        d += 1;
    }
    true
}

#[test]
fn trial_division_clears_r1_on_composites() {
    let mut s = machine(0x10);
    s.r0 = 0x3391; // 13201 = 43 * 307
    s.r1 = 1;
    s.r2 = 2;
    stage2_105(&mut s);
    assert_eq!(s.r1, 0);

    let mut s = machine(0x10);
    s.r0 = 13217; // prime
    s.r1 = 1;
    s.r2 = 2;
    stage2_105(&mut s);
    assert_eq!(s.r1, 1);
    // r2 stops on the first candidate whose square exceeds r0.
    assert_eq!(s.r2, 115);
    assert_eq!(s.r3, 115 * 115 - 13217 - 1);
}

#[test]
fn prime_table_holds_the_primes_of_the_range() {
    let mut s = machine(0x2000);
    generate_buffer(&mut s);
    assert_eq!(s.r0, 0x3520);
    assert_eq!(s.r1, 0);
    assert_eq!(s.r2, 117);
    assert_eq!(s.r3, 89);
    let primes: Vec<u32> = (0x3390u32..0x3520).filter(|&n| is_prime(n)).collect();
    for (k, &p) in primes.iter().enumerate() {
        let off = 0x1388 + 2 * k;
        let val = s.mem[off] as u32 + 0x100 * (s.mem[off + 1] as u32);
        assert_eq!(val, p, "entry {k}");
    }
    assert_eq!(s.r4 as usize, 0x1388 + 2 * primes.len());
}

#[test]
fn collatz_counts_steps_to_one() {
    // 6 -> 3 -> 10 -> 5 -> 16 -> 8 -> 4 -> 2 -> 1: eight steps.
    let mut s = machine(0);
    s.r0 = 6;
    collatz(&mut s);
    assert_eq!(s.r0, 8);
    assert_eq!(s.r1, 0);

    s.r0 = 1;
    collatz(&mut s);
    assert_eq!(s.r0, 0);

    s.r0 = 27;
    collatz(&mut s);
    assert_eq!(s.r0, 111);
}

#[test]
fn collatz_helper_steps_once_then_counts() {
    let mut s = machine(0);
    s.r0 = 2;
    collatz_helper(&mut s);
    assert_eq!(s.r0, 1);
    s.r0 = 6;
    collatz_helper(&mut s);
    assert_eq!(s.r0, 8);
}

#[test]
fn trajectory_checker_agrees_with_running() {
    assert!(trajectories_reach_one(1, 0x1d, 150));
    // 27 needs 111 steps; 100 of fuel are not enough.
    assert!(!trajectories_reach_one(27, 28, 100));
}

#[test]
fn created_buffer_passes_the_check() {
    let mut s = machine(0x2000);
    buffer_create(&mut s);
    buffer_check(&mut s);
    assert_eq!(s.r0, 0);

    // One flipped byte and the or-fold is nonzero.
    s.mem[0x1195] ^= 1;
    buffer_check(&mut s);
    assert_ne!(s.r0, 0);
}

#[test]
fn expected_buffer_words() {
    let mut s = machine(0x2000);
    buffer_create(&mut s);
    let w0 = 0x51eddb21i32
        .wrapping_add(0x648c4a88)
        .wrapping_add(0x4355a74c);
    assert_eq!(s.read(0x1194).unwrap(), w0);
    let w1 = 0x32333645i32.wrapping_add(0x58728e64);
    assert_eq!(s.read(0x1198).unwrap(), w1);
    assert_eq!(s.read(0x119c).unwrap(), 0x6f57a0a3);
}

#[test]
fn output_stage_keys_the_input_words() {
    let mut s = machine(0x2000);
    s.store(0x1000, 0x11111111).unwrap();
    s.store(0x1004, 0x22222222).unwrap();
    stage2_28d(&mut s);
    let x0 = 0x75bcd15 ^ 0x11111111;
    assert_eq!(s.read(0x1800).unwrap(), 0x3278f102 ^ x0);
    let x1 = x0 ^ 0x22222222;
    assert_eq!(s.read(0x1804).unwrap(), 0x560aa747 ^ x1);
    let x2 = x1 ^ 0; // zero input word
    assert_eq!(s.read(0x1808).unwrap(), 0x3e6fd176 ^ x2);
}

fn collatz_count(mut v: u64) -> u64 {
    let mut k = 0;
    while v != 1 {
        v = if v % 2 == 0 { v / 2 } else { 3 * v + 1 };
        k += 1;
    }
    k
}

#[test]
fn transformation_pass_adds_counts_and_table_bytes() {
    // The pass xors each input byte with the table byte at 0x1338 plus
    // twice the index (zero here), adds the trajectory step count of
    // index-plus-one, and stores the low byte at 0x1194 plus the index.
    let mut s = machine(0x2000);
    for k in 0..0x1c {
        s.mem[0x1000 + k] = (k + 1) as u8;
    }
    s.r0 = 0;
    read_input_byte(&mut s);
    for k in 0..0x1c {
        let expected = ((k + 1) as u64 + collatz_count((k + 1) as u64)) & 0xff;
        assert_eq!(s.mem[0x1194 + k] as u64, expected, "byte {k}");
    }
    // The scan stopped on the terminating zero byte.
    assert_eq!(s.r0, 0x1c);
    assert_eq!(s.r4, 0);
}

#[test]
fn input_built_against_the_read_table_passes_the_check() {
    // The pass reads its xor table at 0x1338 (which stays zero), so the
    // input that reproduces the expected buffer is expected-byte minus
    // step count.
    let mut s = machine(0x2000);
    buffer_create(&mut s);
    for k in 0..0x1c {
        let good = s.mem[0x1194 + k];
        let b = good.wrapping_sub((collatz_count((k + 1) as u64) & 0xff) as u8);
        assert!(b != 0);
        s.mem[0x1000 + k] = b;
    }
    s.r0 = 0;
    read_input_byte(&mut s);
    buffer_check(&mut s);
    assert_eq!(s.r0, 0);
}

#[test]
fn derived_input_still_fails_the_check() {
    // The derivation xors with the generated table at 0x1388, while the
    // decoded program reads its table 0x50 bytes lower, at 0x1338, where
    // the memory stays zero. The comparison therefore rejects even the
    // derived input, and the program's two branches converge regardless.
    let mut s = machine(0x2000);
    let input = solve_input(&mut s).unwrap();
    assert_eq!(input.len(), 0x1c);
    for (k, &b) in input.iter().enumerate() {
        assert_eq!(s.mem[0x1000 + k], b);
    }
    s.r0 = 0;
    read_input_byte(&mut s);
    buffer_check(&mut s);
    assert_ne!(s.r0, 0);
}

#[test]
fn winning_input_and_solve_input_agree() {
    let mut a = machine(0x2000);
    let mut b = machine(0x2000);
    let va = winning_input(&mut a);
    let vb = solve_input(&mut b).unwrap();
    assert_eq!(va, vb);
    assert_eq!(a.mem, b.mem);
}

#[test]
fn whole_program_runs_to_the_output_stage() {
    let mut s = machine(0x2000);
    let _ = solve_input(&mut s);
    stage2_main(&mut s);
    // The output stage has filled the flag region.
    assert!(s.mem[0x1800..0x1820].iter().any(|&b| b != 0));
    // r1 ends on the last output address.
    assert_eq!(s.r1, 0x1818);
}
