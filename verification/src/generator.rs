//! Why the generator of tag colours always reaches a free colour while
//! fewer than 2^24 colours are in use: its low 24 bits run through every
//! value before repeating.
use vstd::prelude::*;
use vstd::arithmetic::div_mod::{
    lemma_add_mod_noop, lemma_mod_mod, lemma_mul_mod_noop_general, lemma_mod_multiples_vanish,
};
use crate::tags::{auto_color_defined, free_at, hex_candidate, lcg_iter, lcg_next, lcg_start, lower_used};

verus! {

/// 2 to the power `k`.
pub open spec fn two_pow(k: nat) -> nat
    decreases k,
{
    if k == 0 {
        1
    } else {
        2 * two_pow((k - 1) as nat)
    }
}

/// The size of the generator's state space.
pub open spec fn word() -> int {
    0x1_0000_0000
}

/// The multiplier and increment of the generator run `2^k` times.
pub open spec fn doubled(k: nat) -> (int, int)
    decreases k,
{
    if k == 0 {
        (1664525, 1013904223)
    } else {
        let (a, c) = doubled((k - 1) as nat);
        ((a * a) % word(), (a * c + c) % word())
    }
}

/// For every `k` below `n`, the generator run `2^k` times multiplies by 1
/// and adds `2^k`, both modulo `2^(k+1)`.
pub open spec fn doubling_fits(n: nat) -> bool
    decreases n,
{
    if n == 0 {
        true
    } else {
        let k = (n - 1) as nat;
        &&& doubling_fits(k)
        &&& doubled(k).0 % (two_pow(k + 1) as int) == 1
        &&& doubled(k).1 % (two_pow(k + 1) as int) == two_pow(k) as int
    }
}

proof fn lemma_two_pow_positive(k: nat)
    ensures
        two_pow(k) >= 1,
    decreases k,
{
    if k > 0 {
        lemma_two_pow_positive((k - 1) as nat);
    }
}

proof fn lemma_two_pow_add(j: nat, k: nat)
    ensures
        two_pow(j + k) == two_pow(j) * two_pow(k),
    decreases j,
{
    if j > 0 {
        let i = (j - 1) as nat;
        lemma_two_pow_add(i, k);
        let u = two_pow(i);
        let v = two_pow(k);
        assert(two_pow(i + k) == u * v);
        assert(i + k + 1 == j + k);
        assert(two_pow(j + k) == 2 * two_pow(i + k));
        assert(two_pow(j) == 2 * u);
        assert(two_pow(j + k) == two_pow(j) * v) by (nonlinear_arith)
            requires
                two_pow(j + k) == 2 * (u * v),
                two_pow(j) == 2 * u,
        ;
    } else {
        assert(two_pow(0) == 1);
        assert(j + k == k);
    }
}

proof fn lemma_two_pow_32()
    ensures
        two_pow(32) == word(),
        two_pow(24) == 0x100_0000,
{
    reveal_with_fuel(two_pow, 33);
}

proof fn lemma_doubling_fits(n: nat, k: nat)
    requires
        doubling_fits(n),
        k < n,
    ensures
        doubled(k).0 % (two_pow(k + 1) as int) == 1,
        doubled(k).1 % (two_pow(k + 1) as int) == two_pow(k) as int,
    decreases n,
{
    if k < n - 1 {
        lemma_doubling_fits((n - 1) as nat, k);
    }
}

proof fn lemma_doubled_1()
    ensures
        doubled(1) == (389569705int, 1196435762int),
{
    assert(doubled(0) == (1664525int, 1013904223int));
    assert((1664525int * 1664525int) % 0x1_0000_0000 == 389569705int);
    assert((1664525int * 1013904223int + 1013904223int) % 0x1_0000_0000 == 1196435762int);
}

proof fn lemma_doubled_2()
    ensures
        doubled(2) == (158984081int, 2868466484int),
{
    lemma_doubled_1();
    assert((389569705int * 389569705int) % 0x1_0000_0000 == 158984081int);
    assert((389569705int * 1196435762int + 1196435762int) % 0x1_0000_0000 == 2868466484int);
}

proof fn lemma_doubled_3()
    ensures
        doubled(3) == (3934847009int, 2748932008int),
{
    lemma_doubled_2();
    assert((158984081int * 158984081int) % 0x1_0000_0000 == 3934847009int);
    assert((158984081int * 2868466484int + 2868466484int) % 0x1_0000_0000 == 2748932008int);
}

proof fn lemma_doubled_4()
    ensures
        doubled(4) == (2001863745int, 2210837584int),
{
    lemma_doubled_3();
    assert((3934847009int * 3934847009int) % 0x1_0000_0000 == 2001863745int);
    assert((3934847009int * 2748932008int + 2748932008int) % 0x1_0000_0000 == 2210837584int);
}

proof fn lemma_doubled_5()
    ensures
        doubled(5) == (666245249int, 95141024int),
{
    lemma_doubled_4();
    assert((2001863745int * 2001863745int) % 0x1_0000_0000 == 666245249int);
    assert((2001863745int * 2210837584int + 2210837584int) % 0x1_0000_0000 == 95141024int);
}

proof fn lemma_doubled_6()
    ensures
        doubled(6) == (667185409int, 1956956480int),
{
    lemma_doubled_5();
    assert((666245249int * 666245249int) % 0x1_0000_0000 == 667185409int);
    assert((666245249int * 95141024int + 95141024int) % 0x1_0000_0000 == 1956956480int);
}

proof fn lemma_doubled_7()
    ensures
        doubled(7) == (2305417729int, 2065617536int),
{
    lemma_doubled_6();
    assert((667185409int * 667185409int) % 0x1_0000_0000 == 2305417729int);
    assert((667185409int * 1956956480int + 1956956480int) % 0x1_0000_0000 == 2065617536int);
}

proof fn lemma_doubled_8()
    ensures
        doubled(8) == (1045939201int, 43164928int),
{
    lemma_doubled_7();
    assert((2305417729int * 2305417729int) % 0x1_0000_0000 == 1045939201int);
    assert((2305417729int * 2065617536int + 2065617536int) % 0x1_0000_0000 == 43164928int);
}

proof fn lemma_doubled_9()
    ensures
        doubled(9) == (1254066177int, 1585007104int),
{
    lemma_doubled_8();
    assert((1045939201int * 1045939201int) % 0x1_0000_0000 == 1254066177int);
    assert((1045939201int * 43164928int + 43164928int) % 0x1_0000_0000 == 1585007104int);
}

proof fn lemma_doubled_10()
    ensures
        doubled(10) == (3451850753int, 1648530432int),
{
    lemma_doubled_9();
    assert((1254066177int * 1254066177int) % 0x1_0000_0000 == 3451850753int);
    assert((1254066177int * 1585007104int + 1585007104int) % 0x1_0000_0000 == 1648530432int);
}

proof fn lemma_doubled_11()
    ensures
        doubled(11) == (2088640513int, 1506093056int),
{
    lemma_doubled_10();
    assert((3451850753int * 3451850753int) % 0x1_0000_0000 == 2088640513int);
    assert((3451850753int * 1648530432int + 1648530432int) % 0x1_0000_0000 == 1506093056int);
}

proof fn lemma_doubled_12()
    ensures
        doubled(12) == (2096906241int, 143282176int),
{
    lemma_doubled_11();
    assert((2088640513int * 2088640513int) % 0x1_0000_0000 == 2096906241int);
    assert((2088640513int * 1506093056int + 1506093056int) % 0x1_0000_0000 == 143282176int);
}

proof fn lemma_doubled_13()
    ensures
        doubled(13) == (167280641int, 1695850496int),
{
    lemma_doubled_12();
    assert((2096906241int * 2096906241int) % 0x1_0000_0000 == 167280641int);
    assert((2096906241int * 143282176int + 143282176int) % 0x1_0000_0000 == 1695850496int);
}

proof fn lemma_doubled_14()
    ensures
        doubled(14) == (1408303105int, 438910976int),
{
    lemma_doubled_13();
    assert((167280641int * 167280641int) % 0x1_0000_0000 == 1408303105int);
    assert((167280641int * 1695850496int + 1695850496int) % 0x1_0000_0000 == 438910976int);
}

proof fn lemma_doubled_15()
    ensures
        doubled(15) == (2816606209int, 1951563776int),
{
    lemma_doubled_14();
    assert((1408303105int * 1408303105int) % 0x1_0000_0000 == 2816606209int);
    assert((1408303105int * 438910976int + 438910976int) % 0x1_0000_0000 == 1951563776int);
}

proof fn lemma_doubled_16()
    ensures
        doubled(16) == (1338245121int, 3903127552int),
{
    lemma_doubled_15();
    assert((2816606209int * 2816606209int) % 0x1_0000_0000 == 1338245121int);
    assert((2816606209int * 1951563776int + 1951563776int) % 0x1_0000_0000 == 3903127552int);
}

proof fn lemma_doubled_17()
    ensures
        doubled(17) == (2676490241int, 3511287808int),
{
    lemma_doubled_16();
    assert((1338245121int * 1338245121int) % 0x1_0000_0000 == 2676490241int);
    assert((1338245121int * 3903127552int + 3903127552int) % 0x1_0000_0000 == 3511287808int);
}

proof fn lemma_doubled_18()
    ensures
        doubled(18) == (1058013185int, 2727608320int),
{
    lemma_doubled_17();
    assert((2676490241int * 2676490241int) % 0x1_0000_0000 == 1058013185int);
    assert((2676490241int * 3511287808int + 3511287808int) % 0x1_0000_0000 == 2727608320int);
}

proof fn lemma_doubled_19()
    ensures
        doubled(19) == (2116026369int, 1160249344int),
{
    lemma_doubled_18();
    assert((1058013185int * 1058013185int) % 0x1_0000_0000 == 2116026369int);
    assert((1058013185int * 2727608320int + 2727608320int) % 0x1_0000_0000 == 1160249344int);
}

proof fn lemma_doubled_20()
    ensures
        doubled(20) == (4232052737int, 2320498688int),
{
    lemma_doubled_19();
    assert((2116026369int * 2116026369int) % 0x1_0000_0000 == 4232052737int);
    assert((2116026369int * 1160249344int + 1160249344int) % 0x1_0000_0000 == 2320498688int);
}

proof fn lemma_doubled_21()
    ensures
        doubled(21) == (4169138177int, 346030080int),
{
    lemma_doubled_20();
    assert((4232052737int * 4232052737int) % 0x1_0000_0000 == 4169138177int);
    assert((4232052737int * 2320498688int + 2320498688int) % 0x1_0000_0000 == 346030080int);
}

proof fn lemma_doubled_22()
    ensures
        doubled(22) == (4043309057int, 692060160int),
{
    lemma_doubled_21();
    assert((4169138177int * 4169138177int) % 0x1_0000_0000 == 4043309057int);
    assert((4169138177int * 346030080int + 346030080int) % 0x1_0000_0000 == 692060160int);
}

proof fn lemma_doubled_23()
    ensures
        doubled(23) == (3791650817int, 1384120320int),
{
    lemma_doubled_22();
    assert((4043309057int * 4043309057int) % 0x1_0000_0000 == 3791650817int);
    assert((4043309057int * 692060160int + 692060160int) % 0x1_0000_0000 == 1384120320int);
}

proof fn lemma_doubling_fits_24()
    ensures
        doubling_fits(24),
{
    reveal_with_fuel(two_pow, 26);
    lemma_doubled_23();
    lemma_doubled_1();
    lemma_doubled_2();
    lemma_doubled_3();
    lemma_doubled_4();
    lemma_doubled_5();
    lemma_doubled_6();
    lemma_doubled_7();
    lemma_doubled_8();
    lemma_doubled_9();
    lemma_doubled_10();
    lemma_doubled_11();
    lemma_doubled_12();
    lemma_doubled_13();
    lemma_doubled_14();
    lemma_doubled_15();
    lemma_doubled_16();
    lemma_doubled_17();
    lemma_doubled_18();
    lemma_doubled_19();
    lemma_doubled_20();
    lemma_doubled_21();
    lemma_doubled_22();
    assert(1664525int % 2 == 1 && 1013904223int % 2 == 1);
    assert(389569705int % 4 == 1 && 1196435762int % 4 == 2);
    assert(158984081int % 8 == 1 && 2868466484int % 8 == 4);
    assert(3934847009int % 16 == 1 && 2748932008int % 16 == 8);
    assert(2001863745int % 32 == 1 && 2210837584int % 32 == 16);
    assert(666245249int % 64 == 1 && 95141024int % 64 == 32);
    assert(667185409int % 128 == 1 && 1956956480int % 128 == 64);
    assert(2305417729int % 256 == 1 && 2065617536int % 256 == 128);
    assert(1045939201int % 512 == 1 && 43164928int % 512 == 256);
    assert(1254066177int % 1024 == 1 && 1585007104int % 1024 == 512);
    assert(3451850753int % 2048 == 1 && 1648530432int % 2048 == 1024);
    assert(2088640513int % 4096 == 1 && 1506093056int % 4096 == 2048);
    assert(2096906241int % 8192 == 1 && 143282176int % 8192 == 4096);
    assert(167280641int % 16384 == 1 && 1695850496int % 16384 == 8192);
    assert(1408303105int % 32768 == 1 && 438910976int % 32768 == 16384);
    assert(2816606209int % 65536 == 1 && 1951563776int % 65536 == 32768);
    assert(1338245121int % 131072 == 1 && 3903127552int % 131072 == 65536);
    assert(2676490241int % 262144 == 1 && 3511287808int % 262144 == 131072);
    assert(1058013185int % 524288 == 1 && 2727608320int % 524288 == 262144);
    assert(2116026369int % 1048576 == 1 && 1160249344int % 1048576 == 524288);
    assert(4232052737int % 2097152 == 1 && 2320498688int % 2097152 == 1048576);
    assert(4169138177int % 4194304 == 1 && 346030080int % 4194304 == 2097152);
    assert(4043309057int % 8388608 == 1 && 692060160int % 8388608 == 4194304);
    assert(3791650817int % 16777216 == 1 && 1384120320int % 16777216 == 8388608);
    reveal_with_fuel(doubling_fits, 25);
}

/// One step of the generator, on integers.
proof fn lemma_next_int(x: u32)
    ensures
        lcg_next(x) as int == (x * 1664525 + 1013904223) % word(),
{
    let w = vstd::wrapping::u32_specs::wrapping_mul(x, 1664525u32);
    assert(w as int == (x as nat * 1664525nat) % 0x1_0000_0000nat);
    lemma_add_mod_noop(x * 1664525, 1013904223, word());
    assert(1013904223int % word() == 1013904223);
    assert((w as int + 1013904223) % word() == (x * 1664525 + 1013904223) % word());
}

/// Running the generator `m` steps, then `n` more.
proof fn lemma_iter_add(x: u32, m: nat, n: nat)
    ensures
        lcg_iter(x, m + n) == lcg_iter(lcg_iter(x, m), n),
    decreases n,
{
    if n > 0 {
        lemma_iter_add(x, m, (n - 1) as nat);
        assert(lcg_iter(x, m + n) == lcg_next(lcg_iter(x, (m + n - 1) as nat)));
    }
}

/// Two affine steps modulo `m` are one affine step.
#[verifier::spinoff_prover]
proof fn lemma_affine_compose(a: int, c: int, x: int, m: int)
    requires
        m > 0,
    ensures
        (a * ((a * x + c) % m) + c) % m == (((a * a) % m) * x + (a * c + c) % m) % m,
{
    let w = a * x + c;
    let e = a * c + c;
    let big = (a * a) * x;
    let xm = ((a * a) % m) * x;
    lemma_mul_mod_noop_general(a, w, m);
    assert((a * (w % m)) % m == (a * w) % m);
    lemma_add_mod_noop(a * (w % m), c, m);
    lemma_add_mod_noop(a * w, c, m);
    assert((a * (w % m) + c) % m == (a * w + c) % m);
    assert(a * w + c == big + e) by (nonlinear_arith)
        requires
            w == a * x + c,
            e == a * c + c,
            big == (a * a) * x,
    ;
    lemma_mul_mod_noop_general(a * a, x, m);
    assert(xm % m == big % m);
    lemma_add_mod_noop(xm, e % m, m);
    vstd::arithmetic::div_mod::lemma_mod_twice(e, m);
    lemma_add_mod_noop(big, e, m);
    assert((xm + e % m) % m == (big % m + e % m) % m);
}

/// An affine step whose multiplier is 1 and increment `t` modulo `p` adds `t`
/// modulo `p`, also when taken modulo a multiple of `p` first.
#[verifier::spinoff_prover]
proof fn lemma_affine_low(a: int, c: int, x: int, p: int, q: int, t: int)
    requires
        p > 0,
        q > 0,
        a % p == 1,
        c % p == t,
    ensures
        ((a * x + c) % (p * q)) % p == (x + t) % p,
{
    lemma_mod_mod(a * x + c, p, q);
    lemma_add_mod_noop(a * x, c, p);
    lemma_mul_mod_noop_general(a, x, p);
    assert((a % p) * x == x) by (nonlinear_arith)
        requires
            a % p == 1,
    ;
    lemma_add_mod_noop(x, t, p);
    vstd::arithmetic::div_mod::lemma_mod_twice(t, p);
    assert(t % p == t) by {
        assert(0 <= c % p < p);
        vstd::arithmetic::div_mod::lemma_mod_twice(c, p);
    }
}

/// The generator run `2^k` times is the step given by `doubled(k)`.
#[verifier::spinoff_prover]
proof fn lemma_iter_doubled(x: u32, k: nat)
    ensures
        lcg_iter(x, two_pow(k)) as int == (doubled(k).0 * x + doubled(k).1) % word(),
    decreases k,
{
    if k == 0 {
        assert(lcg_iter(x, 1) == lcg_next(lcg_iter(x, 0)));
        lemma_next_int(x);
        assert(1664525 * x == x * 1664525) by (nonlinear_arith);
    } else {
        let j = (k - 1) as nat;
        let p = two_pow(j);
        let (a, c) = doubled(j);
        lemma_iter_doubled(x, j);
        let y = lcg_iter(x, p);
        lemma_iter_doubled(y, j);
        lemma_iter_add(x, p, p);
        assert(two_pow(k) == p + p);
        assert(y as int == (a * x + c) % word());
        lemma_affine_compose(a, c, x as int, word());
        assert(doubled(k) == ((a * a) % word(), (a * c + c) % word()));
    }
}

/// Modulo `2^(k+1)`, running the generator `2^k` times adds `2^k`.
#[verifier::spinoff_prover]
proof fn lemma_iter_power(x: u32, k: nat)
    requires
        k < 24,
    ensures
        (lcg_iter(x, two_pow(k)) as int) % (two_pow(k + 1) as int) == (x + two_pow(k)) % (two_pow(
            k + 1,
        ) as int),
{
    let p = two_pow(k + 1) as int;
    let (a, c) = doubled(k);
    lemma_iter_doubled(x, k);
    lemma_doubling_fits_24();
    lemma_doubling_fits(24, k);
    lemma_two_pow_positive(k + 1);
    lemma_two_pow_add(k + 1, (31 - k) as nat);
    lemma_two_pow_32();
    lemma_two_pow_positive((31 - k) as nat);
    let q = two_pow((31 - k) as nat) as int;
    assert((k + 1 + (31 - k)) as nat == 32);
    assert(word() == p * q);
    lemma_affine_low(a, c, x as int, p, q, two_pow(k) as int);
}

/// Modulo `2^(k+1)`, running the generator `m * 2^k` times adds `m * 2^k`.
#[verifier::spinoff_prover]
proof fn lemma_iter_multiple(x: u32, k: nat, m: nat)
    requires
        k < 24,
    ensures
        (lcg_iter(x, m * two_pow(k)) as int) % (two_pow(k + 1) as int) == (x + m * two_pow(k))
            % (two_pow(k + 1) as int),
    decreases m,
{
    let p = two_pow(k + 1) as int;
    lemma_two_pow_positive(k + 1);
    if m == 0 {
        assert(m * two_pow(k) == 0) by (nonlinear_arith)
            requires
                m == 0,
        ;
        assert(lcg_iter(x, 0) == x);
    } else {
        let n = ((m - 1) * two_pow(k)) as nat;
        lemma_iter_multiple(x, k, (m - 1) as nat);
        assert(m * two_pow(k) == n + two_pow(k)) by (nonlinear_arith)
            requires
                n == (m - 1) * two_pow(k),
                m >= 1,
        ;
        lemma_iter_add(x, n, two_pow(k));
        let y = lcg_iter(x, n);
        lemma_iter_power(y, k);
        let t = two_pow(k) as int;
        assert((lcg_iter(x, m * two_pow(k)) as int) % p == (y + t) % p);
        assert((y as int) % p == (x + n) % p);
        lemma_add_mod_noop(y as int, t, p);
        lemma_add_mod_noop(x + n, t, p);
        assert((y + t) % p == (x + n + t) % p);
        assert(x + n + t == x + m * two_pow(k));
    }
}

/// Splits a positive number into a power of two and an odd factor.
#[verifier::spinoff_prover]
proof fn lemma_two_adic(d: nat) -> (r: (nat, nat))
    requires
        d > 0,
    ensures
        d == r.1 * two_pow(r.0),
        r.1 % 2 == 1,
        two_pow(r.0) <= d,
    decreases d,
{
    if d % 2 == 1 {
        assert(two_pow(0) == 1);
        assert(d == d * two_pow(0)) by (nonlinear_arith)
            requires
                two_pow(0) == 1,
        ;
        (0, d)
    } else {
        let (k, m) = lemma_two_adic(d / 2);
        let t = two_pow(k);
        assert(two_pow(k + 1) == 2 * t);
        assert(d == m * (2 * t)) by (nonlinear_arith)
            requires
                d / 2 == m * t,
                d % 2 == 0,
        ;
        assert(2 * t <= d) by (nonlinear_arith)
            requires
                t <= d / 2,
                d % 2 == 0,
        ;
        assert(d == m * two_pow(k + 1)) by (nonlinear_arith)
            requires
                d == m * (2 * t),
                two_pow(k + 1) == 2 * t,
        ;
        (k + 1, m)
    }
}

/// Two different step counts less than 2^24 apart lead to states that
/// differ in their low 24 bits.
#[verifier::spinoff_prover]
pub proof fn lemma_low_bits_differ(x: u32, i: nat, j: nat)
    requires
        i < j,
        j - i < 0x100_0000,
    ensures
        (lcg_iter(x, i) as int) % 0x100_0000 != (lcg_iter(x, j) as int) % 0x100_0000,
{
    let d = (j - i) as nat;
    let (k, m) = lemma_two_adic(d);
    lemma_two_pow_positive(k);
    lemma_two_pow_32();
    assert(k < 24) by {
        if k >= 24 {
            lemma_two_pow_add(24, (k - 24) as nat);
            lemma_two_pow_positive((k - 24) as nat);
            assert(two_pow(k) >= two_pow(24)) by (nonlinear_arith)
                requires
                    two_pow(k) == two_pow(24) * two_pow((k - 24) as nat),
                    two_pow((k - 24) as nat) >= 1,
            ;
        }
    }
    let p = two_pow(k + 1) as int;
    let t = two_pow(k) as int;
    assert(p == 2 * t);
    let y = lcg_iter(x, i);
    lemma_iter_add(x, i, d);
    assert(i + d == j);
    lemma_iter_multiple(y, k, m);
    lemma_odd_multiple(y as int, m as int, t);
    assert((lcg_iter(x, j) as int) % p == (y + t) % p);
    lemma_shift_differs(y as int, t);
    lemma_two_pow_add(k + 1, (23 - k) as nat);
    assert((k + 1 + (23 - k)) as nat == 24);
    lemma_two_pow_positive((23 - k) as nat);
    let q = two_pow((23 - k) as nat) as int;
    assert(p * q == 0x100_0000);
    lemma_mod_mod(y as int, p, q);
    lemma_mod_mod(lcg_iter(x, j) as int, p, q);
}

/// Adding an odd multiple of `t` is adding `t`, modulo `2t`.
proof fn lemma_odd_multiple(y: int, m: int, t: int)
    requires
        t > 0,
        m % 2 == 1,
        m > 0,
    ensures
        (y + m * t) % (2 * t) == (y + t) % (2 * t),
{
    let h = m / 2;
    assert(y + m * t == (2 * t) * h + (y + t)) by (nonlinear_arith)
        requires
            m % 2 == 1,
            h == m / 2,
    ;
    lemma_mod_multiples_vanish(h, y + t, 2 * t);
}

/// Adding `t` changes a value modulo `2t`.
proof fn lemma_shift_differs(y: int, t: int)
    requires
        t > 0,
    ensures
        (y + t) % (2 * t) != y % (2 * t),
{
    let p = 2 * t;
    let r = y % p;
    lemma_add_mod_noop(y, t, p);
    vstd::arithmetic::div_mod::lemma_mod_twice(t, p);
    assert(t % p == t) by {
        vstd::arithmetic::div_mod::lemma_small_mod(t as nat, p as nat);
    }
    assert(0 <= r < p) by {
        vstd::arithmetic::div_mod::lemma_mod_bound(y, p);
    }
    if r + t < p {
        vstd::arithmetic::div_mod::lemma_small_mod((r + t) as nat, p as nat);
    } else {
        lemma_mod_multiples_vanish(1, r + t - p, p);
        vstd::arithmetic::div_mod::lemma_small_mod((r + t - p) as nat, p as nat);
    }
}

/// Distinct hexadecimal digits are distinct characters.
proof fn lemma_hex_digit_injective(d: int, e: int)
    requires
        0 <= d < 16,
        0 <= e < 16,
        crate::update::hex_digit(d) == crate::update::hex_digit(e),
    ensures
        d == e,
{
    let x = crate::update::hex_digit(d) as u32;
    let y = crate::update::hex_digit(e) as u32;
    if d < 10 {
        assert(x == 48 + d);
    } else {
        assert(x == 87 + d);
    }
    if e < 10 {
        assert(y == 48 + e);
    } else {
        assert(y == 87 + e);
    }
}

/// Six hexadecimal digits determine a number below 2^24.
proof fn lemma_digits_determine(v: u32, w: u32)
    requires
        v < 0x100_0000,
        w < 0x100_0000,
        (v / 0x10_0000) % 16 == (w / 0x10_0000) % 16,
        (v / 0x1_0000) % 16 == (w / 0x1_0000) % 16,
        (v / 0x1000) % 16 == (w / 0x1000) % 16,
        (v / 0x100) % 16 == (w / 0x100) % 16,
        (v / 0x10) % 16 == (w / 0x10) % 16,
        v % 16 == w % 16,
    ensures
        v == w,
{
    assert(v == w) by (bit_vector)
        requires
            v < 0x100_0000,
            w < 0x100_0000,
            (v / 0x10_0000) % 16 == (w / 0x10_0000) % 16,
            (v / 0x1_0000) % 16 == (w / 0x1_0000) % 16,
            (v / 0x1000) % 16 == (w / 0x1000) % 16,
            (v / 0x100) % 16 == (w / 0x100) % 16,
            (v / 0x10) % 16 == (w / 0x10) % 16,
            v % 16 == w % 16,
    ;
}

/// Equal colour candidates come from seeds with equal low 24 bits.
proof fn lemma_candidate_injective(s: u32, t: u32)
    requires
        hex_candidate(s) == hex_candidate(t),
    ensures
        (s as int) % 0x100_0000 == (t as int) % 0x100_0000,
{
    let v = ((s as int) % 0x100_0000) as u32;
    let w = ((t as int) % 0x100_0000) as u32;
    let hs = hex_candidate(s);
    let ht = hex_candidate(t);
    assert(hs[1] == ht[1] && hs[2] == ht[2] && hs[3] == ht[3]);
    assert(hs[4] == ht[4] && hs[5] == ht[5] && hs[6] == ht[6]);
    lemma_hex_digit_injective((v as int / 0x10_0000) % 16, (w as int / 0x10_0000) % 16);
    lemma_hex_digit_injective((v as int / 0x1_0000) % 16, (w as int / 0x1_0000) % 16);
    lemma_hex_digit_injective((v as int / 0x1000) % 16, (w as int / 0x1000) % 16);
    lemma_hex_digit_injective((v as int / 0x100) % 16, (w as int / 0x100) % 16);
    lemma_hex_digit_injective((v as int / 0x10) % 16, (w as int / 0x10) % 16);
    lemma_hex_digit_injective(v as int % 16, w as int % 16);
    lemma_digits_determine(v, w);
}

/// The candidate after `k + 1` steps from `s0`.
pub open spec fn candidate_at(s0: u32) -> spec_fn(int) -> Seq<char> {
    |k: int| hex_candidate(lcg_iter(s0, (k + 1) as nat))
}

/// While fewer than 2^24 colours are in use, the generator proposes a free
/// one within its first 2^24 steps, from any start.
#[verifier::spinoff_prover]
pub proof fn lemma_free_candidate_exists(low: Set<Seq<char>>, s0: u32)
    requires
        low.finite(),
        low.len() < 0x100_0000,
    ensures
        exists|k: nat| free_at(low, s0, k),
{
    let range = vstd::set_lib::set_int_range(0, 0x100_0000);
    vstd::set_lib::lemma_int_range(0, 0x100_0000);
    let f = candidate_at(s0);
    let image = range.map(f);
    assert(vstd::relations::injective_on(f, range)) by {
        assert forall|i: int, j: int| range.contains(i) && range.contains(j) && #[trigger] f(i) == #[trigger] f(j) implies i == j by {
            if i != j {
                let (lo, hi) = if i < j { (i, j) } else { (j, i) };
                lemma_low_bits_differ(s0, (lo + 1) as nat, (hi + 1) as nat);
                lemma_candidate_injective(lcg_iter(s0, (lo + 1) as nat), lcg_iter(s0, (hi + 1) as nat));
            }
        }
    }
    vstd::set_lib::lemma_map_size(range, image, f);
    if !exists|k: nat| free_at(low, s0, k) {
        assert(image.subset_of(low)) by {
            assert forall|c: Seq<char>| image.contains(c) implies low.contains(c) by {
                let i = choose|i: int| range.contains(i) && f(i) == c;
                assert(!free_at(low, s0, i as nat));
            }
        }
        vstd::set_lib::lemma_len_subset(image, low);
    }
}

/// A colour can always be found for a new tag while fewer than 2^24 colours
/// are in use.
pub proof fn law_new_tag_color_found(used: Seq<Seq<char>>)
    requires
        used.len() < 0x100_0000,
    ensures
        auto_color_defined(used),
{
    let mapped = used.map_values(|u: Seq<char>| crate::text::ascii_lower(u));
    mapped.lemma_cardinality_of_set();
    let low = lower_used(used);
    assert(low.finite()) by {
        vstd::seq_lib::seq_to_set_is_finite(mapped);
    }
    lemma_free_candidate_exists(low, lcg_start(low));
}

} // verus!
