//! The Hilbert curve that `hilbert_2d` walks, described level by level:
//! the curve of side `2^k` is four curves of side `2^(k-1)`, placed in the
//! quadrants in the order lower-left, upper-left, upper-right, lower-right,
//! the first mirrored on the diagonal and the last on the anti-diagonal.
//! On such a side the walk visits every cell exactly once, each step moving
//! to a neighbouring cell.

use vstd::prelude::*;

use crate::coordinates::{hilbert_walk, pow2, sat_add, sat_mul, sat_sub};

verus! {

/// The `k`-th power of four.
pub open spec fn pow4(k: nat) -> nat
    decreases k,
{
    if k == 0 {
        1
    } else {
        4 * pow4((k - 1) as nat)
    }
}

/// Places a cell `p` of a curve of side `s` into quadrant `q` of the curve
/// of side `2s`.
pub open spec fn quadrant_step(q: int, s: int, p: (int, int)) -> (int, int) {
    if q == 0 {
        (p.1, p.0)
    } else if q == 1 {
        (p.0, p.1 + s)
    } else if q == 2 {
        (p.0 + s, p.1 + s)
    } else {
        (2 * s - 1 - p.1, s - 1 - p.0)
    }
}

/// Cell of index `d` on the Hilbert curve of side `2^k`.
pub open spec fn hilbert_cell(k: nat, d: int) -> (int, int)
    decreases k,
{
    if k == 0 {
        (0, 0)
    } else {
        let k1 = (k - 1) as nat;
        quadrant_step(d / (pow4(k1) as int), pow2(k1) as int, hilbert_cell(k1, d % (pow4(k1) as int)))
    }
}

/// The index of cell `(x, y)` on the Hilbert curve of side `2^k`.
pub open spec fn hilbert_index(k: nat, x: int, y: int) -> int
    decreases k,
{
    if k == 0 {
        0
    } else {
        let k1 = (k - 1) as nat;
        let s = pow2(k1) as int;
        let block = pow4(k1) as int;
        if x < s && y < s {
            hilbert_index(k1, y, x)
        } else if x < s {
            block + hilbert_index(k1, x, y - s)
        } else if y >= s {
            2 * block + hilbert_index(k1, x - s, y - s)
        } else {
            3 * block + hilbert_index(k1, s - 1 - y, 2 * s - 1 - x)
        }
    }
}

/// Whether two cells are neighbours: one coordinate equal, the other one
/// apart.
pub open spec fn neighbours(a: (int, int), b: (int, int)) -> bool {
    ||| a.0 == b.0 && (a.1 - b.1 == 1 || b.1 - a.1 == 1)
    ||| a.1 == b.1 && (a.0 - b.0 == 1 || b.0 - a.0 == 1)
}

proof fn lemma_powers(k: nat)
    ensures
        pow2(k) >= 1,
        pow4(k) >= 1,
        pow4(k) == pow2(k) * pow2(k),
        k >= 1 ==> pow2(k) >= 2,
    decreases k,
{
    if k > 0 {
        lemma_powers((k - 1) as nat);
        let a = pow2((k - 1) as nat) as int;
        assert((2 * a) * (2 * a) == 4 * (a * a)) by (nonlinear_arith);
    }
}

proof fn lemma_powers_grow(j: nat, k: nat)
    requires
        j <= k,
    ensures
        pow2(j) <= pow2(k),
        pow4(j) <= pow4(k),
    decreases k,
{
    lemma_powers(k);
    if j < k {
        lemma_powers_grow(j, (k - 1) as nat);
    }
}

proof fn lemma_cell_bounded(k: nat, d: int)
    ensures
        0 <= hilbert_cell(k, d).0 < pow2(k),
        0 <= hilbert_cell(k, d).1 < pow2(k),
    decreases k,
{
    if k > 0 {
        let k1 = (k - 1) as nat;
        lemma_powers(k1);
        lemma_cell_bounded(k1, d % (pow4(k1) as int));
    }
}

/// Splitting an index at a level: the digit and the rest below it.
proof fn lemma_digits(d: int, j: nat)
    requires
        d >= 0,
    ensures
        (d % (pow4(j + 1) as int)) / (pow4(j) as int) == (d / (pow4(j) as int)) % 4,
        (d % (pow4(j + 1) as int)) % (pow4(j) as int) == d % (pow4(j) as int),
        (d / (pow4(j) as int)) / 4 == d / (pow4(j + 1) as int),
{
    lemma_powers(j);
    let y = pow4(j) as int;
    assert(pow4(j + 1) as int == y * 4);
    vstd::arithmetic::div_mod::lemma_breakdown(d, y, 4);
    vstd::arithmetic::div_mod::lemma_fundamental_div_mod_converse(
        d % (y * 4),
        y,
        (d / y) % 4,
        d % y,
    );
    vstd::arithmetic::div_mod::lemma_div_denominator(d, y, 4);
}

proof fn lemma_rotation_bits(i: u32)
    ensures
        (i / 2) & 1 == (i % 4) / 2,
        (i ^ ((i / 2) & 1)) & 1 == (if i % 4 == 0 || i % 4 == 3 { 0u32 } else { 1u32 }),
{
    assert((i / 2) & 1 == (i % 4) / 2) by (bit_vector);
    assert((i ^ ((i / 2) & 1)) & 1 == (if i % 4 == 0 || i % 4 == 3 { 0u32 } else { 1u32 }))
        by (bit_vector);
}

/// From level `j` on, the walk applies the remaining levels of the curve.
proof fn lemma_walk_levels(d: u32, j: nat, k: nat)
    requires
        j <= k <= 15,
    ensures
        ({
            let inner = hilbert_cell(j, d as int % (pow4(j) as int));
            let outer = hilbert_cell(k, d as int % (pow4(k) as int));
            hilbert_walk(
                (d as int / (pow4(j) as int)) as u32,
                pow2(k) as u32,
                pow2(j) as u32,
                inner.0 as u32,
                inner.1 as u32,
            ) == (outer.0 as u32, outer.1 as u32)
        }),
    decreases k - j,
{
    lemma_powers(j);
    lemma_powers(k);
    lemma_powers_grow(j, k);
    lemma_powers_grow(k, 15);
    assert(pow2(15) == 32768) by {
        reveal_with_fuel(pow2, 16);
    }
    if j < k {
        lemma_powers_grow(j + 1, k);
        let s = pow2(j) as int;
        let index = (d as int / (pow4(j) as int)) as u32;
        let inner = hilbert_cell(j, d as int % (pow4(j) as int));
        lemma_cell_bounded(j, d as int % (pow4(j) as int));
        lemma_digits(d as int, j);
        lemma_rotation_bits(index);
        let q = (index % 4) as int;
        assert(q == (d as int / (pow4(j) as int)) % 4);
        let next = hilbert_cell(j + 1, d as int % (pow4(j + 1) as int));
        assert(next == quadrant_step(q, s, inner));
        assert(pow2(j + 1) == 2 * s);
        assert(s <= 16384);
        let x = inner.0 as u32;
        let y = inner.1 as u32;
        let sc = s as u32;
        assert(sat_mul(sc, 2) == 2 * s);
        assert(sat_mul(sc, 0) == 0);
        assert(sat_mul(sc, 1) == s);
        assert(sat_sub(sc, 1) == s - 1);
        assert(sat_sub(sat_sub(sc, 1), y) == s - 1 - inner.1);
        assert(sat_sub(sat_sub(sc, 1), x) == s - 1 - inner.0);
        assert(index / 4 == (d as int / (pow4(j + 1) as int)) as u32);
        lemma_cell_bounded(j + 1, d as int % (pow4(j + 1) as int));
        lemma_walk_levels(d, j + 1, k);
    }
}

/// On a side of `2^k` (`k` at most 15), `hilbert_2d` (the walk) visits
/// each of the `4^k` cells of the square exactly once as the index runs
/// over `0..4^k`, consecutive indices landing on neighbouring cells; the
/// curve starts at `(0, 0)` and ends at `(2^k - 1, 0)`.
#[verifier::rlimit(40)]
pub proof fn lemma_hilbert_2d_bijective_and_adjacent(k: nat)
    requires
        k <= 15,
    ensures
        forall|d: u32|
            d < pow4(k) ==> {
                let cell = #[trigger] hilbert_walk(d, pow2(k) as u32, 1, 0, 0);
                cell.0 < pow2(k) && cell.1 < pow2(k) && cell == (
                    hilbert_cell(k, d as int).0 as u32,
                    hilbert_cell(k, d as int).1 as u32,
                )
            },
        forall|a: int, b: int|
            0 <= a < pow4(k) && 0 <= b < pow4(k) && #[trigger] hilbert_cell(k, a) == #[trigger] hilbert_cell(
                k,
                b,
            ) ==> a == b,
        forall|x: int, y: int|
            0 <= x < pow2(k) && 0 <= y < pow2(k) ==> 0 <= #[trigger] hilbert_index(k, x, y) < pow4(k)
                && hilbert_cell(k, hilbert_index(k, x, y)) == (x, y),
        forall|d: int|
            0 <= d && d + 1 < pow4(k) ==> neighbours(#[trigger] hilbert_cell(k, d), hilbert_cell(k, d + 1)),
        forall|d: int|
            0 <= (#[trigger] hilbert_cell(k, d)).0 < pow2(k) && 0 <= hilbert_cell(k, d).1 < pow2(k),
        hilbert_cell(k, 0) == (0int, 0int),
        hilbert_cell(k, pow4(k) - 1) == (pow2(k) - 1, 0int),
{
    lemma_powers(k);
    assert forall|d: int|
        0 <= (#[trigger] hilbert_cell(k, d)).0 < pow2(k) && 0 <= hilbert_cell(k, d).1 < pow2(k) by {
        lemma_cell_bounded(k, d);
    }
    assert forall|d: u32| d < pow4(k) implies {
        let cell = #[trigger] hilbert_walk(d, pow2(k) as u32, 1, 0, 0);
        cell.0 < pow2(k) && cell.1 < pow2(k) && cell == (
            hilbert_cell(k, d as int).0 as u32,
            hilbert_cell(k, d as int).1 as u32,
        )
    } by {
        lemma_walk_levels(d, 0, k);
        assert(pow4(0) == 1 && pow2(0) == 1);
        assert(hilbert_cell(0, d as int % 1) == (0int, 0int));
        assert(d as int / 1 == d);
        vstd::arithmetic::div_mod::lemma_fundamental_div_mod_converse(d as int, pow4(k) as int, 0, d as int);
        lemma_cell_bounded(k, d as int);
    }
    assert forall|a: int, b: int|
        0 <= a < pow4(k) && 0 <= b < pow4(k) && #[trigger] hilbert_cell(k, a) == #[trigger] hilbert_cell(
            k,
            b,
        ) implies a == b by {
        lemma_cell_injective(k, a, b);
    }
    assert forall|x: int, y: int| 0 <= x < pow2(k) && 0 <= y < pow2(k) implies 0 <= #[trigger] hilbert_index(
        k,
        x,
        y,
    ) < pow4(k) && hilbert_cell(k, hilbert_index(k, x, y)) == (x, y) by {
        lemma_index_inverts(k, x, y);
    }
    assert forall|d: int| 0 <= d && d + 1 < pow4(k) implies neighbours(
        #[trigger] hilbert_cell(k, d),
        hilbert_cell(k, d + 1),
    ) by {
        lemma_cells_adjacent(k, d);
    }
    lemma_cell_ends(k);
}

proof fn lemma_cell_injective(k: nat, a: int, b: int)
    requires
        0 <= a < pow4(k),
        0 <= b < pow4(k),
        hilbert_cell(k, a) == hilbert_cell(k, b),
    ensures
        a == b,
    decreases k,
{
    if k > 0 {
        let k1 = (k - 1) as nat;
        lemma_powers(k1);
        let block = pow4(k1) as int;
        let s = pow2(k1) as int;
        let qa = a / block;
        let qb = b / block;
        let ra = a % block;
        let rb = b % block;
        assert(0 <= qa < 4 && 0 <= qb < 4) by {
            vstd::arithmetic::div_mod::lemma_div_pos_is_pos(a, block);
            vstd::arithmetic::div_mod::lemma_div_pos_is_pos(b, block);
            vstd::arithmetic::div_mod::lemma_div_is_ordered(a, 4 * block - 1, block);
            vstd::arithmetic::div_mod::lemma_div_is_ordered(b, 4 * block - 1, block);
            vstd::arithmetic::div_mod::lemma_fundamental_div_mod_converse(4 * block - 1, block, 3, block - 1);
        }
        lemma_cell_bounded(k1, ra);
        lemma_cell_bounded(k1, rb);
        assert(qa == qb);
        assert(hilbert_cell(k1, ra) == hilbert_cell(k1, rb));
        lemma_cell_injective(k1, ra, rb);
        vstd::arithmetic::div_mod::lemma_fundamental_div_mod(a, block);
        vstd::arithmetic::div_mod::lemma_fundamental_div_mod(b, block);
    }
}

proof fn lemma_index_inverts(k: nat, x: int, y: int)
    requires
        0 <= x < pow2(k),
        0 <= y < pow2(k),
    ensures
        0 <= hilbert_index(k, x, y) < pow4(k),
        hilbert_cell(k, hilbert_index(k, x, y)) == (x, y),
    decreases k,
{
    if k > 0 {
        let k1 = (k - 1) as nat;
        lemma_powers(k1);
        let s = pow2(k1) as int;
        let block = pow4(k1) as int;
        let (q, px, py) = if x < s && y < s {
            (0int, y, x)
        } else if x < s {
            (1int, x, y - s)
        } else if y >= s {
            (2int, x - s, y - s)
        } else {
            (3int, s - 1 - y, 2 * s - 1 - x)
        };
        lemma_index_inverts(k1, px, py);
        let inner = hilbert_index(k1, px, py);
        assert(hilbert_index(k, x, y) == q * block + inner);
        vstd::arithmetic::div_mod::lemma_fundamental_div_mod_converse(q * block + inner, block, q, inner);
    }
}

proof fn lemma_cell_ends(k: nat)
    ensures
        hilbert_cell(k, 0) == (0int, 0int),
        hilbert_cell(k, pow4(k) - 1) == (pow2(k) - 1, 0int),
    decreases k,
{
    if k > 0 {
        let k1 = (k - 1) as nat;
        lemma_powers(k1);
        lemma_cell_ends(k1);
        let block = pow4(k1) as int;
        vstd::arithmetic::div_mod::lemma_fundamental_div_mod_converse(0, block, 0, 0);
        vstd::arithmetic::div_mod::lemma_fundamental_div_mod_converse(4 * block - 1, block, 3, block - 1);
    }
}

proof fn lemma_cells_adjacent(k: nat, d: int)
    requires
        0 <= d,
        d + 1 < pow4(k),
    ensures
        neighbours(hilbert_cell(k, d), hilbert_cell(k, d + 1)),
    decreases k,
{
    if k > 0 {
        let k1 = (k - 1) as nat;
        lemma_powers(k1);
        let block = pow4(k1) as int;
        let s = pow2(k1) as int;
        let q = d / block;
        let r = d % block;
        vstd::arithmetic::div_mod::lemma_fundamental_div_mod(d, block);
        assert(0 <= r < block);
        assert(0 <= q < 4) by {
            vstd::arithmetic::div_mod::lemma_div_pos_is_pos(d, block);
            vstd::arithmetic::div_mod::lemma_div_is_ordered(d, 4 * block - 1, block);
            vstd::arithmetic::div_mod::lemma_fundamental_div_mod_converse(4 * block - 1, block, 3, block - 1);
        }
        lemma_cell_bounded(k1, r);
        if r + 1 < block {
            assert(d + 1 == q * block + (r + 1)) by (nonlinear_arith)
                requires
                    d == block * q + r,
            ;
            vstd::arithmetic::div_mod::lemma_fundamental_div_mod_converse(d + 1, block, q, r + 1);
            lemma_cells_adjacent(k1, r);
        } else {
            assert(r == block - 1);
            assert(d + 1 == (q + 1) * block + 0) by (nonlinear_arith)
                requires
                    d == block * q + r,
                    r == block - 1,
            ;
            vstd::arithmetic::div_mod::lemma_fundamental_div_mod_converse(d + 1, block, q + 1, 0);
            lemma_cell_ends(k1);
        }
    }
}

/// The cell that `hilbert_2d(d, 2^k)` returns, as a pair of integers.
pub open spec fn walk_cell(k: nat, d: u32) -> (int, int) {
    let cell = hilbert_walk(d, pow2(k) as u32, 1, 0, 0);
    (cell.0 as int, cell.1 as int)
}

/// The same law on `hilbert_2d`'s own outputs: on a side of `2^k` (`k` at
/// most 15) every index below `4^k` lands inside the square, different
/// indices land on different cells, every cell is reached (from the index
/// [`hilbert_index`] gives it), and consecutive
/// indices land on neighbouring cells.
pub proof fn lemma_hilbert_2d_visits_each_cell_once(k: nat)
    requires
        k <= 15,
    ensures
        forall|d: u32|
            d < pow4(k) ==> 0 <= (#[trigger] walk_cell(k, d)).0 < pow2(k) && 0 <= walk_cell(k, d).1
                < pow2(k),
        forall|a: u32, b: u32|
            a < pow4(k) && b < pow4(k) && #[trigger] walk_cell(k, a) == #[trigger] walk_cell(k, b)
                ==> a == b,
        forall|x: u32, y: u32|
            x < pow2(k) && y < pow2(k) ==> 0 <= #[trigger] hilbert_index(k, x as int, y as int) < pow4(k)
                && walk_cell(k, hilbert_index(k, x as int, y as int) as u32) == (x as int, y as int),
        forall|d: u32|
            d + 1 < pow4(k) ==> neighbours(#[trigger] walk_cell(k, d), walk_cell(k, (d + 1) as u32)),
{
    assert forall|d: u32| d < pow4(k) implies 0 <= (#[trigger] walk_cell(k, d)).0 < pow2(k) && 0
        <= walk_cell(k, d).1 < pow2(k) by {
        lemma_walk_cell_is_cell(k, d);
    }
    assert forall|a: u32, b: u32|
        a < pow4(k) && b < pow4(k) && #[trigger] walk_cell(k, a) == #[trigger] walk_cell(k, b) implies a
        == b by {
        lemma_walk_cell_is_cell(k, a);
        lemma_walk_cell_is_cell(k, b);
        lemma_cell_injective(k, a as int, b as int);
    }
    assert forall|x: u32, y: u32| x < pow2(k) && y < pow2(k) implies 0 <= #[trigger] hilbert_index(
        k,
        x as int,
        y as int,
    ) < pow4(k) && walk_cell(k, hilbert_index(k, x as int, y as int) as u32) == (x as int, y as int) by {
        lemma_index_inverts(k, x as int, y as int);
        let i = hilbert_index(k, x as int, y as int);
        lemma_powers_grow(k, 15);
        assert(pow4(15) == 0x4000_0000) by {
            reveal_with_fuel(pow4, 16);
        }
        let d = i as u32;
        lemma_walk_cell_is_cell(k, d);
    }
    assert forall|d: u32| d + 1 < pow4(k) implies neighbours(
        #[trigger] walk_cell(k, d),
        walk_cell(k, (d + 1) as u32),
    ) by {
        lemma_powers_grow(k, 15);
        assert(pow4(15) == 0x4000_0000) by {
            reveal_with_fuel(pow4, 16);
        }
        let e = (d + 1) as u32;
        assert(e as int == d + 1);
        lemma_walk_cell_is_cell(k, d);
        lemma_walk_cell_is_cell(k, e);
        lemma_cells_adjacent(k, d as int);
    }
}

proof fn lemma_walk_cell_is_cell(k: nat, d: u32)
    requires
        k <= 15,
        d < pow4(k),
    ensures
        walk_cell(k, d) == hilbert_cell(k, d as int),
        0 <= hilbert_cell(k, d as int).0 < pow2(k),
        0 <= hilbert_cell(k, d as int).1 < pow2(k),
{
    lemma_powers(k);
    lemma_powers_grow(k, 15);
    assert(pow2(15) == 32768) by {
        reveal_with_fuel(pow2, 16);
    }
    lemma_walk_levels(d, 0, k);
    assert(pow4(0) == 1 && pow2(0) == 1);
    assert(hilbert_cell(0, d as int % 1) == (0int, 0int));
    assert(d as int / 1 == d);
    vstd::arithmetic::div_mod::lemma_fundamental_div_mod_converse(d as int, pow4(k) as int, 0, d as int);
    lemma_cell_bounded(k, d as int);
}

} // verus!
