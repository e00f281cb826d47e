//! The linear-algebra kernel: tensoring a small square matrix into the
//! subspace of a full amplitude vector selected by a list of qubit indices,
//! in little-endian bit order (qubit zero is the least significant bit of a
//! state index).

use vstd::prelude::*;
use vstd::arithmetic::power2::{
    lemma2_to64, lemma2_to64_rest, lemma_pow2_adds, lemma_pow2_pos, lemma_pow2_strictly_increases,
    pow2,
};
use vstd::arithmetic::div_mod::{
    lemma_breakdown, lemma_div_pos_is_pos, lemma_fundamental_div_mod,
    lemma_mod_division_less_than_divisor, lemma_multiply_divide_lt,
};
use crate::cx::{c_add, c_mul, c_zero, cx_add, cx_mul, Cx};
use crate::mat::{mat_wf, ment, MatView, SquareMatrix};
use crate::{Error, F64_ZERO};

verus! {

/// The bit of `v` at position `q`.
pub open spec fn bit_at(v: int, q: nat) -> int {
    (v / pow2(q) as int) % 2
}

/// `v` with its bit at position `q` replaced by `b`.
pub open spec fn with_bit(v: int, q: nat, b: int) -> int {
    v - bit_at(v, q) * pow2(q) as int + b * pow2(q) as int
}

/// The row of the small matrix that state index `i` selects: the first `j`
/// bits of `i` at the qubit positions, reassembled in qubit order.
pub open spec fn sub_index(i: int, qubits: Seq<usize>, j: int) -> int
    decreases j,
{
    if j <= 0 {
        0
    } else {
        sub_index(i, qubits, j - 1) + bit_at(i, qubits[j - 1] as nat) * pow2((j - 1) as nat) as int
    }
}

/// The state index read for column `c` at output index `i`: `i` with its
/// bits at the first `j` qubit positions replaced by the bits of `c` in
/// qubit order.
pub open spec fn gather_index(i: int, qubits: Seq<usize>, c: int, j: int) -> int
    decreases j,
{
    if j <= 0 {
        i
    } else {
        with_bit(gather_index(i, qubits, c, j - 1), qubits[j - 1] as nat, bit_at(c, (j - 1) as nat))
    }
}

/// The first `cn` terms of the output amplitude at index `i`: matrix entries
/// of the selected row times the gathered amplitudes, summed left to right
/// from zero.
pub open spec fn row_sum(s: Seq<Cx>, m: MatView, qubits: Seq<usize>, i: int, cn: int) -> Cx
    decreases cn,
{
    if cn <= 0 {
        c_zero()
    } else {
        c_add(
            row_sum(s, m, qubits, i, cn - 1),
            c_mul(
                ment(m, sub_index(i, qubits, qubits.len() as int), cn - 1),
                s[gather_index(i, qubits, cn - 1, qubits.len() as int)],
            ),
        )
    }
}

/// The amplitude at output index `i` after tensoring `m` over `qubits`.
pub open spec fn out_amp(s: Seq<Cx>, m: MatView, qubits: Seq<usize>, i: int) -> Cx {
    row_sum(s, m, qubits, i, m.side as int)
}

/// The amplitude vector after tensoring `m` into the subspace selected by
/// `qubits`.
pub open spec fn kernel_spec(s: Seq<Cx>, m: MatView, qubits: Seq<usize>) -> Seq<Cx> {
    Seq::new(s.len(), |i: int| out_amp(s, m, qubits, i))
}

/// Some qubit index addresses a bit outside a vector of length `len`.
pub open spec fn any_oor(qubits: Seq<usize>, len: nat) -> bool {
    exists|j: int| 0 <= j < qubits.len() && pow2(qubits[j] as nat) >= len
}

/// Some qubit index occurs twice.
pub open spec fn any_dup(qubits: Seq<usize>) -> bool {
    exists|j: int, k: int| 0 <= j < k < qubits.len() && qubits[j] == qubits[k]
}

/// The kernel accepts a matrix and qubit list for a vector of length `len`:
/// all qubits in range, no duplicates, and the matrix side is two to the
/// number of qubits.
pub open spec fn kernel_ok(m: MatView, qubits: Seq<usize>, len: nat) -> bool {
    &&& !any_oor(qubits, len)
    &&& !any_dup(qubits)
    &&& m.side == pow2(qubits.len())
}

/// The error the kernel reports, in the order the conditions are checked.
pub open spec fn kernel_err(m: MatView, qubits: Seq<usize>, len: nat) -> Error {
    if any_oor(qubits, len) {
        Error::QubitIdOutOfRange
    } else if any_dup(qubits) {
        Error::DuplicateQubitIds
    } else {
        Error::MatrixShapeMismatch
    }
}

/// A bit is zero or one.
pub proof fn lemma_bit_at_range(v: int, q: nat)
    requires
        0 <= v,
    ensures
        0 <= bit_at(v, q) <= 1,
{
    lemma_pow2_pos(q);
    lemma_div_pos_is_pos(v, pow2(q) as int);
    lemma_mod_division_less_than_divisor(v / pow2(q) as int, 2);
}

/// Replacing one bit keeps a value inside its power-of-two range.
pub proof fn lemma_with_bit_bound(v: int, q: nat, b: int, n: nat)
    requires
        0 <= v < pow2(n),
        q < n,
        0 <= b <= 1,
    ensures
        0 <= with_bit(v, q, b) < pow2(n),
{
    let p = pow2(q) as int;
    let p2 = pow2((q + 1) as nat) as int;
    let rest = pow2((n - q - 1) as nat) as int;
    lemma_pow2_pos(q);
    lemma_pow2_pos((q + 1) as nat);
    lemma_pow2_pos((n - q - 1) as nat);
    lemma_pow2_adds(q, 1);
    lemma2_to64();
    assert(p2 == p * 2);
    lemma_pow2_adds((q + 1) as nat, (n - q - 1) as nat);
    assert(pow2(n) as int == p2 * rest);
    let bo = bit_at(v, q);
    lemma_bit_at_range(v, q);
    lemma_breakdown(v, p, 2);
    assert(v % p2 == p * bo + v % p);
    lemma_fundamental_div_mod(v, p);
    lemma_mod_division_less_than_divisor(v, p);
    lemma_fundamental_div_mod(v, p2);
    lemma_mod_division_less_than_divisor(v, p2);
    lemma_div_pos_is_pos(v, p2);
    let d = v / p2;
    assert(v == p2 * d + (p * bo + v % p));
    if bo == b {
        assert(with_bit(v, q, b) == v);
    } else if bo == 1 {
        assert(with_bit(v, q, b) == v - p + b * p);
        assert(v >= p2 * d + p);
        assert(p2 * d >= 0) by (nonlinear_arith)
            requires p2 > 0, d >= 0;
    } else {
        assert(bo == 0 && b == 1);
        assert(with_bit(v, q, b) == v + p);
        assert(v % p2 == v % p < p);
        lemma_multiply_divide_lt(v, p2, rest);
        assert(d < rest);
        assert(v + p == p2 * d + (v % p2 + p));
        assert(v % p2 + p < p2);
        assert(p2 * d + (v % p2 + p) < p2 * (d + 1)) by (nonlinear_arith)
            requires p2 > 0, v % p2 + p < p2;
        assert(p2 * (d + 1) <= p2 * rest) by (nonlinear_arith)
            requires p2 > 0, d + 1 <= rest;
    }
}

/// The reassembled row index over `j` qubit bits lies below two to the `j`.
pub proof fn lemma_sub_index_bound(i: int, qubits: Seq<usize>, j: int)
    requires
        0 <= i,
        j <= qubits.len(),
    ensures
        0 <= sub_index(i, qubits, j) < pow2(if j <= 0 { 0 } else { j as nat }) as int,
    decreases j,
{
    lemma2_to64();
    if j > 0 {
        lemma_sub_index_bound(i, qubits, j - 1);
        lemma_bit_at_range(i, qubits[j - 1] as nat);
        lemma_pow2_pos((j - 1) as nat);
        lemma_pow2_adds((j - 1) as nat, 1);
        let b = bit_at(i, qubits[j - 1] as nat);
        let pj = pow2((j - 1) as nat) as int;
        assert(b * pj <= pj) by (nonlinear_arith)
            requires 0 <= b <= 1, pj > 0;
        assert(b * pj >= 0) by (nonlinear_arith)
            requires 0 <= b, pj > 0;
    }
}

/// The gathered state index stays inside the vector.
pub proof fn lemma_gather_bound(i: int, qubits: Seq<usize>, c: int, j: int, n: nat)
    requires
        0 <= i < pow2(n),
        0 <= c,
        j <= qubits.len(),
        forall|t: int| 0 <= t < qubits.len() ==> (#[trigger] qubits[t]) < n,
    ensures
        0 <= gather_index(i, qubits, c, j) < pow2(n),
    decreases j,
{
    if j > 0 {
        lemma_gather_bound(i, qubits, c, j - 1, n);
        lemma_bit_at_range(c, (j - 1) as nat);
        lemma_with_bit_bound(
            gather_index(i, qubits, c, j - 1),
            qubits[j - 1] as nat,
            bit_at(c, (j - 1) as nat),
            n,
        );
    }
}

/// Computes the row of the small matrix selected by state index `i`.
fn sub_index_exec(i: usize, qubits: &Vec<usize>, Ghost(n): Ghost<nat>) -> (r: u64)
    requires
        pow2(n) <= u64::MAX,
        (i as int) < pow2(n),
        pow2(qubits@.len() as nat) <= u64::MAX,
        forall|t: int| 0 <= t < qubits@.len() ==> (#[trigger] qubits@[t]) < n,
    ensures
        r as int == sub_index(i as int, qubits@, qubits@.len() as int),
        r < pow2(qubits@.len() as nat),
{
    let mut r: u64 = 0;
    let mut pj: u64 = 1;
    let mut j: usize = 0;
    proof {
        lemma2_to64();
    }
    while j < qubits.len()
        invariant
            j <= qubits@.len(),
            pow2(n) <= u64::MAX,
            (i as int) < pow2(n),
            pow2(qubits@.len() as nat) <= u64::MAX,
            forall|t: int| 0 <= t < qubits@.len() ==> (#[trigger] qubits@[t]) < n,
            pj as int == pow2(j as nat),
            r as int == sub_index(i as int, qubits@, j as int),
            r < pj,
        decreases qubits@.len() - j,
    {
        let q = qubits[j];
        proof {
            lemma2_to64();
            lemma_pow2_pos(q as nat);
            lemma_pow2_pos(j as nat);
            lemma_pow2_adds(j as nat, 1);
            if ((j + 1) as nat) < qubits@.len() as nat {
                lemma_pow2_strictly_increases((j + 1) as nat, qubits@.len() as nat);
            }
            assert(pow2((j + 1) as nat) <= u64::MAX);
            assert(pow2((j + 1) as nat) == 2 * pow2(j as nat));
            if (q as nat) < n {
                lemma_pow2_strictly_increases(q as nat, n);
            }
        }
        let p = pow2_u64(q);
        let b = ((i as u64) / p) % 2;
        proof {
            assert(b as int == bit_at(i as int, q as nat));
            lemma_bit_at_range(i as int, q as nat);
            assert((b as int) * (pj as int) <= pj as int) by (nonlinear_arith)
                requires 0 <= b <= 1, pj > 0;
            assert((b as int) * (pj as int) >= 0) by (nonlinear_arith)
                requires 0 <= b, pj > 0;
        }
        r = r + b * pj;
        pj = pj * 2;
        j = j + 1;
    }
    r
}

/// Computes the state index read for column `c` at output index `i`.
fn gather_index_exec(i: usize, qubits: &Vec<usize>, c: u64, Ghost(n): Ghost<nat>) -> (r: usize)
    requires
        pow2(n) <= usize::MAX,
        (i as int) < pow2(n),
        pow2(qubits@.len() as nat) <= u64::MAX,
        forall|t: int| 0 <= t < qubits@.len() ==> (#[trigger] qubits@[t]) < n,
    ensures
        r as int == gather_index(i as int, qubits@, c as int, qubits@.len() as int),
        (r as int) < pow2(n),
{
    let mut v: u64 = i as u64;
    let mut pj: u64 = 1;
    let mut j: usize = 0;
    proof {
        lemma2_to64();
    }
    while j < qubits.len()
        invariant
            j <= qubits@.len(),
            pow2(n) <= usize::MAX,
            usize::MAX <= u64::MAX,
            (i as int) < pow2(n),
            pow2(qubits@.len() as nat) <= u64::MAX,
            forall|t: int| 0 <= t < qubits@.len() ==> (#[trigger] qubits@[t]) < n,
            pj as int == pow2(j as nat),
            v as int == gather_index(i as int, qubits@, c as int, j as int),
            (v as int) < pow2(n),
        decreases qubits@.len() - j,
    {
        let q = qubits[j];
        proof {
            lemma2_to64();
            lemma_pow2_pos(q as nat);
            lemma_pow2_pos(j as nat);
            lemma_pow2_adds(j as nat, 1);
            if ((j + 1) as nat) < qubits@.len() as nat {
                lemma_pow2_strictly_increases((j + 1) as nat, qubits@.len() as nat);
            }
            assert(pow2((j + 1) as nat) == 2 * pow2(j as nat));
            if (q as nat) < n {
                lemma_pow2_strictly_increases(q as nat, n);
            }
        }
        let p = pow2_u64(q);
        let bcur = (v / p) % 2;
        let bnew = ((c as u64) / pj) % 2;
        proof {
            assert(bcur as int == bit_at(v as int, q as nat));
            assert(bnew as int == bit_at(c as int, j as nat));
            lemma_bit_at_range(v as int, q as nat);
            lemma_bit_at_range(c as int, j as nat);
            lemma_with_bit_bound(v as int, q as nat, bnew as int, n);
            assert((bcur as int) * (p as int) <= p as int) by (nonlinear_arith)
                requires 0 <= bcur <= 1, p > 0;
            assert((bnew as int) * (p as int) <= p as int) by (nonlinear_arith)
                requires 0 <= bnew <= 1, p > 0;
            assert((bcur as int) * (p as int) >= 0) by (nonlinear_arith)
                requires 0 <= bcur, p > 0;
            assert((bnew as int) * (p as int) >= 0) by (nonlinear_arith)
                requires 0 <= bnew, p > 0;
            if bcur == 1 {
                lemma_fundamental_div_mod(v as int, p as int);
                lemma_mod_division_less_than_divisor(v as int, p as int);
                assert((v / p) as int >= 1);
                assert((p as int) * ((v / p) as int) >= p as int) by (nonlinear_arith)
                    requires p > 0, (v / p) as int >= 1;
                assert(v as int >= p as int);
            }
            assert((bcur as int) * (p as int) <= v as int) by (nonlinear_arith)
                requires 0 <= bcur <= 1, p > 0, v >= 0, bcur == 1 ==> v >= p;
        }
        v = v - bcur * p + bnew * p;
        pj = pj * 2;
        j = j + 1;
    }
    proof {
        assert(pow2(n) <= u64::MAX || pow2(n) <= usize::MAX);
    }
    v as usize
}

/// Computes two to the power `e` as a sixty-four bit word.
pub fn pow2_u64(e: usize) -> (r: u64)
    requires
        pow2(e as nat) <= u64::MAX,
    ensures
        r as int == pow2(e as nat),
{
    proof {
        lemma2_to64();
    }
    let mut r: u64 = 1;
    let mut j: usize = 0;
    while j < e
        invariant
            j <= e,
            r as nat == pow2(j as nat),
            pow2(e as nat) <= u64::MAX,
        decreases e - j,
    {
        proof {
            lemma_pow2_adds(j as nat, 1);
            lemma2_to64();
            if ((j + 1) as nat) < e as nat {
                lemma_pow2_strictly_increases((j + 1) as nat, e as nat);
            }
        }
        r = r * 2;
        j = j + 1;
    }
    r
}

/// Applies the matrix `m` to the subspace of `state` selected by `qubits`,
/// little-endian. The length of `state` is preserved. It fails, leaving
/// `state` unchanged, exactly when a qubit index is out of range, a qubit
/// index is duplicated, or the matrix side disagrees with two to the number
/// of qubits.
pub fn apply_kernel(state: &mut Vec<Cx>, m: &SquareMatrix, qubits: &Vec<usize>) -> (r: Result<
    (),
    Error,
>)
    requires
        mat_wf(m@),
        exists|n: nat| old(state)@.len() == pow2(n),
    ensures
        r is Ok <==> kernel_ok(m@, qubits@, old(state)@.len()),
        r matches Err(e) ==> e == kernel_err(m@, qubits@, old(state)@.len()) && final(state)@
            == old(state)@,
        r is Ok ==> final(state)@ == kernel_spec(old(state)@, m@, qubits@),
{
    let ghost nn = choose|n: nat| old(state)@.len() == pow2(n);
    let len = state.len();
    proof {
        lemma2_to64();
        lemma2_to64_rest();
        assert(nn <= 63) by {
            if nn > 63 {
                if nn > 64 {
                    lemma_pow2_strictly_increases(64, nn);
                }
            }
        }
    }
    // qubit indices must address bits of the state vector
    let mut j: usize = 0;
    while j < qubits.len()
        invariant
            j <= qubits@.len(),
            len == old(state)@.len(),
            state@ == old(state)@,
            len == pow2(nn),
            nn <= 63,
            forall|t: int| 0 <= t < j ==> pow2((#[trigger] qubits@[t]) as nat) < len as nat,
        decreases qubits@.len() - j,
    {
        let q = qubits[j];
        if q >= 64 {
            proof {
                if q > 64 {
                    lemma_pow2_strictly_increases(64, q as nat);
                }
                if nn < 64 {
                    lemma_pow2_strictly_increases(nn, 64);
                }
                assert(pow2(q as nat) >= old(state)@.len());
                assert(any_oor(qubits@, old(state)@.len()));
            }
            return Err(Error::QubitIdOutOfRange);
        }
        proof {
            lemma2_to64();
            lemma2_to64_rest();
            if (q as nat) < 63 {
                lemma_pow2_strictly_increases(q as nat, 63);
            }
            assert(pow2(q as nat) <= u64::MAX);
        }
        let p = pow2_u64(q);
        if p >= len as u64 {
            proof {
                assert(pow2(q as nat) >= old(state)@.len());
                assert(any_oor(qubits@, old(state)@.len()));
            }
            return Err(Error::QubitIdOutOfRange);
        }
        j = j + 1;
    }
    proof {
        assert(!any_oor(qubits@, old(state)@.len()));
    }
    // qubit indices must be pairwise distinct
    let mut a: usize = 0;
    while a < qubits.len()
        invariant
            a <= qubits@.len(),
            state@ == old(state)@,
            !any_oor(qubits@, old(state)@.len()),
            forall|x: int, y: int| 0 <= x < y < qubits@.len() && x < a ==> qubits@[x] != qubits@[y],
        decreases qubits@.len() - a,
    {
        let mut b: usize = a + 1;
        while b < qubits.len()
            invariant
                a < qubits@.len(),
                a < b,
                b <= qubits@.len(),
                state@ == old(state)@,
                !any_oor(qubits@, old(state)@.len()),
                forall|y: int| a < y < b ==> qubits@[a as int] != qubits@[y],
            decreases qubits@.len() - b,
        {
            if qubits[a] == qubits[b] {
                proof {
                    assert(any_dup(qubits@));
                }
                return Err(Error::DuplicateQubitIds);
            }
            b = b + 1;
        }
        a = a + 1;
    }
    proof {
        assert(!any_dup(qubits@));
    }
    // the matrix must act on exactly the selected subspace
    let k = qubits.len();
    if k >= 64 {
        proof {
            lemma2_to64();
            lemma2_to64_rest();
            if k > 64 {
                lemma_pow2_strictly_increases(64, k as nat);
            }
            assert(pow2(qubits@.len() as nat) >= pow2(64));
            crate::mat::lemma_side_bound(m);
            assert(m@.side < pow2(64));
            assert(m@.side != pow2(qubits@.len() as nat));
        }
        return Err(Error::MatrixShapeMismatch);
    }
    proof {
        lemma2_to64();
        lemma2_to64_rest();
        if (k as nat) < 63 {
            lemma_pow2_strictly_increases(k as nat, 63);
        }
    }
    let sidek = pow2_u64(k);
    if (m.side() as u64) != sidek {
        return Err(Error::MatrixShapeMismatch);
    }
    proof {
        assert(kernel_ok(m@, qubits@, old(state)@.len()));
        assert forall|t: int| 0 <= t < qubits@.len() implies (#[trigger] qubits@[t]) < nn by {
            if qubits@[t] as nat >= nn {
                if qubits@[t] as nat > nn {
                    lemma_pow2_strictly_increases(nn, qubits@[t] as nat);
                }
                assert(pow2(qubits@[t] as nat) >= pow2(nn));
                assert(any_oor(qubits@, old(state)@.len()));
            }
        }
    }
    let side = m.side();
    let ghost s0 = state@;
    let mut out: Vec<Cx> = Vec::new();
    let mut i: usize = 0;
    while i < len
        invariant
            i <= len,
            len == old(state)@.len(),
            state@ == s0,
            s0 == old(state)@,
            len == pow2(nn),
            nn <= 63,
            mat_wf(m@),
            kernel_ok(m@, qubits@, s0.len()),
            side as nat == m@.side,
            side as nat == pow2(qubits@.len() as nat),
            pow2(qubits@.len() as nat) <= u64::MAX,
            usize::MAX <= u64::MAX,
            forall|t: int| 0 <= t < qubits@.len() ==> (#[trigger] qubits@[t]) < nn,
            out@.len() == i,
            forall|t: int| 0 <= t < i ==> out@[t] == out_amp(s0, m@, qubits@, t),
        decreases len - i,
    {
        let r = sub_index_exec(i, qubits, Ghost(nn));
        proof {
            lemma_sub_index_bound(i as int, qubits@, qubits@.len() as int);
        }
        let mut acc = Cx { re: F64_ZERO, im: F64_ZERO };
        let mut c: usize = 0;
        while c < side
            invariant
                c <= side,
                len == old(state)@.len(),
                state@ == s0,
                len == pow2(nn),
                nn <= 63,
                mat_wf(m@),
                side as nat == m@.side,
                side as nat == pow2(qubits@.len() as nat),
                pow2(qubits@.len() as nat) <= u64::MAX,
                usize::MAX <= u64::MAX,
                forall|t: int| 0 <= t < qubits@.len() ==> (#[trigger] qubits@[t]) < nn,
                i < len,
                r as int == sub_index(i as int, qubits@, qubits@.len() as int),
                r < side as u64,
                acc == row_sum(s0, m@, qubits@, i as int, c as int),
            decreases side - c,
        {
            let idx = gather_index_exec(i, qubits, c as u64, Ghost(nn));
            acc = cx_add(acc, cx_mul(m.at(r as usize, c), state[idx]));
            c = c + 1;
        }
        out.push(acc);
        i = i + 1;
    }
    *state = out;
    proof {
        assert(state@ =~= kernel_spec(s0, m@, qubits@));
    }
    Ok(())
}

} // verus!
