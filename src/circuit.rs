//! The comparison circuit in the clear.
//!
//! Two `2^k`-bit numbers, given as little-endian bit sequences, are compared
//! by a tree: level 0 holds, per bit position, `t = x (1 - y)` ("x wins
//! here") and `z = 1 - x - y + 2 x y` ("equal here"); each further level
//! joins neighbouring blocks, the higher one deciding unless it is a tie:
//! `t = z_hi t_lo + t_hi`, `z = z_hi z_lo`. The shared protocol evaluates
//! exactly these formulas on authenticated shares.
use vstd::arithmetic::div_mod::{lemma_mod_bound, lemma_mod_breakdown};
use vstd::arithmetic::mul::lemma_mul_equality_converse;
use vstd::arithmetic::power2::{lemma2_to64, lemma_pow2_adds, lemma_pow2_pos, lemma_pow2_unfold, pow2};
use vstd::prelude::*;

verus! {

/// The number that a little-endian bit sequence denotes.
pub open spec fn bits_value(s: Seq<int>) -> int
    decreases s.len(),
{
    if s.len() == 0 {
        0
    } else {
        bits_value(s.drop_last()) + pow2((s.len() - 1) as nat) * s.last()
    }
}

/// Every entry is 0 or 1.
pub open spec fn is_bits(s: Seq<int>) -> bool {
    forall|i: int| 0 <= i < s.len() ==> (#[trigger] s[i] == 0 || s[i] == 1)
}

/// Level 0 of the "x wins" column.
pub open spec fn t_init(xs: Seq<int>, ys: Seq<int>) -> Seq<int> {
    Seq::new(xs.len(), |i: int| xs[i] - xs[i] * ys[i])
}

/// Level 0 of the "equal" column.
pub open spec fn z_init(xs: Seq<int>, ys: Seq<int>) -> Seq<int> {
    Seq::new(xs.len(), |i: int| 1 - xs[i] - ys[i] + 2 * (xs[i] * ys[i]))
}

/// One level up the "x wins" column: `t_i = z_{2i+1} t_{2i} + t_{2i+1}`.
pub open spec fn t_next(t: Seq<int>, z: Seq<int>) -> Seq<int> {
    Seq::new(t.len() / 2, |i: int| z[2 * i + 1] * t[2 * i] + t[2 * i + 1])
}

/// One level up the "equal" column: `z_i = z_{2i+1} z_{2i}`.
pub open spec fn z_next(z: Seq<int>) -> Seq<int> {
    Seq::new(z.len() / 2, |i: int| z[2 * i + 1] * z[2 * i])
}

/// The "x wins" column at level `j`.
pub open spec fn t_level(xs: Seq<int>, ys: Seq<int>, j: nat) -> Seq<int>
    decreases j,
{
    if j == 0 {
        t_init(xs, ys)
    } else {
        t_next(t_level(xs, ys, (j - 1) as nat), z_level(xs, ys, (j - 1) as nat))
    }
}

/// The "equal" column at level `j`.
pub open spec fn z_level(xs: Seq<int>, ys: Seq<int>, j: nat) -> Seq<int>
    decreases j,
{
    if j == 0 {
        z_init(xs, ys)
    } else {
        z_next(z_level(xs, ys, (j - 1) as nat))
    }
}

/// The `i`-th block of `2^j` bits.
pub open spec fn block(s: Seq<int>, i: int, j: nat) -> Seq<int> {
    s.subrange(i * pow2(j), (i + 1) * pow2(j))
}

/// What the comparison circuit outputs for two `2^k`-bit inputs.
pub open spec fn comparison_circuit(xs: Seq<int>, ys: Seq<int>, k: nat) -> int {
    t_level(xs, ys, k)[0]
}

proof fn lemma_bits_value_append(a: Seq<int>, b: Seq<int>)
    ensures
        bits_value(a + b) == bits_value(a) + pow2(a.len()) * bits_value(b),
    decreases b.len(),
{
    if b.len() == 0 {
        assert(a + b =~= a);
    } else {
        let b2 = b.drop_last();
        assert((a + b).drop_last() =~= a + b2);
        lemma_bits_value_append(a, b2);
        lemma_pow2_adds(a.len(), (b.len() - 1) as nat);
        assert(((a.len() + b.len() - 1) as nat) == a.len() + ((b.len() - 1) as nat));
        let pa = pow2(a.len()) as int;
        let pb = pow2((b.len() - 1) as nat) as int;
        assert(pa * bits_value(b2) + (pa * pb) * b.last() == pa * (bits_value(b2) + pb * b.last()))
            by (nonlinear_arith);
    }
}

proof fn lemma_bits_value_bound(s: Seq<int>)
    requires
        is_bits(s),
    ensures
        0 <= bits_value(s) < pow2(s.len()),
    decreases s.len(),
{
    if s.len() > 0 {
        let s2 = s.drop_last();
        assert(is_bits(s2)) by {
            assert forall|i: int| 0 <= i < s2.len() implies (#[trigger] s2[i] == 0 || s2[i] == 1) by {
                assert(s2[i] == s[i]);
            }
        }
        lemma_bits_value_bound(s2);
        lemma_pow2_unfold(s.len());
        let q = pow2((s.len() - 1) as nat) as int;
        assert(s.last() == s[s.len() - 1]);
        assert(s.last() == 0 || s.last() == 1);
        assert(bits_value(s) == bits_value(s2) + q * s.last());
        assert(s2.len() == s.len() - 1);
        if s.last() == 0 {
            assert(q * s.last() == 0);
        } else {
            assert(q * s.last() == q);
        }
    } else {
        lemma_pow2_pos(0);
    }
}

/// Comparing two numbers split at the same place into a low part below
/// `w` and a high part: the high parts decide unless they tie.
proof fn lemma_split_compare(la: int, ha: int, lb: int, hb: int, w: int)
    requires
        0 <= la < w,
        0 <= lb < w,
    ensures
        (la + w * ha > lb + w * hb) <==> (ha > hb || (ha == hb && la > lb)),
        (la + w * ha == lb + w * hb) <==> (ha == hb && la == lb),
{
    if ha > hb {
        assert(w * ha >= w * hb + w) by (nonlinear_arith)
            requires ha > hb, w > 0;
    } else if ha < hb {
        assert(w * hb >= w * ha + w) by (nonlinear_arith)
            requires ha < hb, w > 0;
    }
}

proof fn lemma_block_split(s: Seq<int>, i: int, j: nat)
    requires
        j > 0,
        i >= 0,
        (i + 1) * pow2(j) <= s.len(),
    ensures
        block(s, i, j) =~= block(s, 2 * i, (j - 1) as nat) + block(s, 2 * i + 1, (j - 1) as nat),
        block(s, 2 * i, (j - 1) as nat).len() == pow2((j - 1) as nat),
{
    let w = pow2((j - 1) as nat) as int;
    lemma_pow2_unfold(j);
    lemma_pow2_pos((j - 1) as nat);
    assert(i * pow2(j) == (2 * i) * w) by (nonlinear_arith)
        requires pow2(j) == 2 * w;
    assert((2 * i + 1) * w == (2 * i) * w + w) by (nonlinear_arith);
    assert((i + 1) * pow2(j) == (2 * i + 1) * w + w) by (nonlinear_arith)
        requires pow2(j) == 2 * w;
    assert((2 * i + 2) * w == (2 * i + 1) * w + w) by (nonlinear_arith);
    assert(i * pow2(j) >= 0) by (nonlinear_arith)
        requires i >= 0, pow2(j) > 0;
}

proof fn lemma_block_bits(s: Seq<int>, i: int, j: nat)
    requires
        is_bits(s),
        i >= 0,
        (i + 1) * pow2(j) <= s.len(),
    ensures
        is_bits(block(s, i, j)),
{
    lemma_pow2_pos(j);
    assert(i * pow2(j) >= 0) by (nonlinear_arith)
        requires i >= 0, pow2(j) > 0;
    assert((i + 1) * pow2(j) == i * pow2(j) + pow2(j)) by (nonlinear_arith);
    let b = block(s, i, j);
    assert forall|m: int| 0 <= m < b.len() implies (#[trigger] b[m] == 0 || b[m] == 1) by {
        assert(b[m] == s[i * pow2(j) + m]);
    }
}

/// A truth value as a number: 1 for true, 0 for false.
pub open spec fn indicator(b: bool) -> int {
    if b { 1 } else { 0 }
}

/// Each entry of level `j` tells, for its block of `2^j` bits, whether x's
/// block exceeds y's and whether the two blocks are equal.
pub(crate) proof fn lemma_levels(xs: Seq<int>, ys: Seq<int>, k: nat, j: nat)
    requires
        xs.len() == pow2(k),
        ys.len() == pow2(k),
        is_bits(xs),
        is_bits(ys),
        j <= k,
    ensures
        t_level(xs, ys, j).len() * pow2(j) == pow2(k),
        z_level(xs, ys, j).len() == t_level(xs, ys, j).len(),
        forall|i: int|
            0 <= i < t_level(xs, ys, j).len() ==> {
                &&& #[trigger] t_level(xs, ys, j)[i] == indicator(
                    bits_value(block(xs, i, j)) > bits_value(block(ys, i, j)),
                )
                &&& z_level(xs, ys, j)[i] == indicator(
                    bits_value(block(xs, i, j)) == bits_value(block(ys, i, j)),
                )
            },
    decreases j,
{
    let t = t_level(xs, ys, j);
    let z = z_level(xs, ys, j);
    if j == 0 {
        lemma2_to64();
        assert forall|i: int| 0 <= i < t.len() implies {
            &&& #[trigger] t[i] == indicator(bits_value(block(xs, i, j)) > bits_value(block(ys, i, j)))
            &&& z[i] == indicator(bits_value(block(xs, i, j)) == bits_value(block(ys, i, j)))
        } by {
            let bx = block(xs, i, j);
            let by_ = block(ys, i, j);
            assert(i * pow2(j) == i);
            assert(bx.len() == 1);
            assert(by_.len() == 1);
            assert(bx.drop_last().len() == 0);
            assert(by_.drop_last().len() == 0);
            assert(bits_value(bx.drop_last()) == 0);
            assert(bits_value(by_.drop_last()) == 0);
            assert(bx.last() == xs[i]);
            assert(by_.last() == ys[i]);
            assert(bits_value(bx) == xs[i]);
            assert(bits_value(by_) == ys[i]);
            assert(xs[i] == 0 || xs[i] == 1);
            assert(ys[i] == 0 || ys[i] == 1);
        }
    } else {
        let jp = (j - 1) as nat;
        lemma_levels(xs, ys, k, jp);
        let tp = t_level(xs, ys, jp);
        let zp = z_level(xs, ys, jp);
        lemma_pow2_unfold(j);
        lemma_pow2_pos(jp);
        assert(t.len() == tp.len() / 2);
        assert(tp.len() * pow2(jp) == pow2(k));
        // the previous level has an even number of entries
        assert(tp.len() % 2 == 0) by {
            if k == jp {
                assert(false);
            } else {
                lemma_pow2_adds(jp, (k - jp) as nat);
                lemma_pow2_unfold((k - jp) as nat);
                assert(jp + ((k - jp) as nat) == k);
                let a = pow2(jp) as int;
                let b = pow2((k - jp) as nat) as int;
                assert(a * tp.len() == a * b) by (nonlinear_arith)
                    requires tp.len() * a == pow2(k), pow2(k) == a * b;
                lemma_mul_equality_converse(a, tp.len() as int, b);
            }
        }
        assert(t.len() * pow2(j) == pow2(k)) by (nonlinear_arith)
            requires
                t.len() == tp.len() / 2,
                tp.len() % 2 == 0,
                pow2(j) == 2 * pow2(jp),
                tp.len() * pow2(jp) == pow2(k);
        assert forall|i: int| 0 <= i < t.len() implies {
            &&& #[trigger] t[i] == indicator(bits_value(block(xs, i, j)) > bits_value(block(ys, i, j)))
            &&& z[i] == indicator(bits_value(block(xs, i, j)) == bits_value(block(ys, i, j)))
        } by {
            assert((i + 1) * pow2(j) <= pow2(k)) by (nonlinear_arith)
                requires i + 1 <= t.len(), t.len() * pow2(j) == pow2(k), pow2(j) > 0;
            lemma_block_split(xs, i, j);
            lemma_block_split(ys, i, j);
            let lx = block(xs, 2 * i, jp);
            let hx = block(xs, 2 * i + 1, jp);
            let ly = block(ys, 2 * i, jp);
            let hy = block(ys, 2 * i + 1, jp);
            assert((2 * i + 2) * pow2(jp) == (i + 1) * pow2(j)) by (nonlinear_arith)
                requires pow2(j) == 2 * pow2(jp);
            assert((2 * i + 1) * pow2(jp) <= (2 * i + 2) * pow2(jp)) by (nonlinear_arith)
                requires pow2(jp) > 0;
            lemma_block_bits(xs, 2 * i, jp);
            lemma_block_bits(ys, 2 * i, jp);
            lemma_bits_value_bound(lx);
            lemma_bits_value_bound(ly);
            lemma_bits_value_append(lx, hx);
            lemma_bits_value_append(ly, hy);
            assert(ly.len() == pow2(jp));
            let w = pow2(pow2(jp)) as int;
            lemma_split_compare(bits_value(lx), bits_value(hx), bits_value(ly), bits_value(hy), w);
            assert(tp[2 * i] == indicator(bits_value(lx) > bits_value(ly)));
            assert(tp[2 * i + 1] == indicator(bits_value(hx) > bits_value(hy)));
            assert(zp[2 * i] == indicator(bits_value(lx) == bits_value(ly)));
            assert(zp[2 * i + 1] == indicator(bits_value(hx) == bits_value(hy)));
        }
    }
}

/// The low `n` bits of `x`, least significant first.
pub open spec fn bits_of(x: int, n: nat) -> Seq<int> {
    Seq::new(n, |i: int| (x / pow2(i as nat) as int) % 2)
}

/// The low `n` bits of a non-negative `x` are bits and denote `x mod 2^n`.
pub proof fn lemma_bits_of(x: int, n: nat)
    requires
        x >= 0,
    ensures
        is_bits(bits_of(x, n)),
        bits_value(bits_of(x, n)) == x % (pow2(n) as int),
    decreases n,
{
    let s = bits_of(x, n);
    assert forall|i: int| 0 <= i < s.len() implies (#[trigger] s[i] == 0 || s[i] == 1) by {
        lemma_pow2_pos(i as nat);
        lemma_mod_bound(x / pow2(i as nat) as int, 2);
    }
    if n == 0 {
        lemma2_to64();
    } else {
        let m = (n - 1) as nat;
        lemma_bits_of(x, m);
        assert(s.drop_last() =~= bits_of(x, m));
        lemma_pow2_unfold(n);
        lemma_pow2_pos(m);
        assert(pow2(n) as int == (pow2(m) as int) * 2);
        lemma_mod_breakdown(x, pow2(m) as int, 2);
    }
}

/// The comparison circuit computes `x > y`: for any two bit sequences of
/// length `2^k`, its output is 1 when the number that the first denotes
/// exceeds the second's, and 0 otherwise.
pub proof fn lemma_comparison_circuit(xs: Seq<int>, ys: Seq<int>, k: nat)
    requires
        xs.len() == pow2(k),
        ys.len() == pow2(k),
        is_bits(xs),
        is_bits(ys),
    ensures
        comparison_circuit(xs, ys, k) == indicator(bits_value(xs) > bits_value(ys)),
{
    lemma_levels(xs, ys, k, k);
    lemma_pow2_pos(k);
    assert(t_level(xs, ys, k).len() == 1) by (nonlinear_arith)
        requires t_level(xs, ys, k).len() * pow2(k) == pow2(k), pow2(k) > 0;
    assert(block(xs, 0, k) =~= xs);
    assert(block(ys, 0, k) =~= ys);
}

/// The comparison of two 128-bit numbers: fed with the bits of `x` and `y`,
/// the circuit of depth seven outputs 1 exactly when `x > y`.
pub proof fn lemma_compare_u128(x: u128, y: u128)
    ensures
        is_bits(bits_of(x as int, 128)),
        is_bits(bits_of(y as int, 128)),
        comparison_circuit(bits_of(x as int, 128), bits_of(y as int, 128), 7) == indicator(x > y),
{
    lemma2_to64();
    vstd::arithmetic::power2::lemma2_to64_rest();
    lemma_bits_of(x as int, 128);
    lemma_bits_of(y as int, 128);
    assert(pow2(128) == 0x100000000000000000000000000000000) by {
        lemma_pow2_adds(64, 64);
    }
    assert(pow2(7) == 128);
    vstd::arithmetic::div_mod::lemma_small_mod(x as nat, pow2(128));
    vstd::arithmetic::div_mod::lemma_small_mod(y as nat, pow2(128));
    assert(bits_value(bits_of(x as int, 128)) == x);
    assert(bits_value(bits_of(y as int, 128)) == y);
    lemma_comparison_circuit(bits_of(x as int, 128), bits_of(y as int, 128), 7);
}

} // verus!
