//! Square complex matrices, operations (effect matrix plus Kraus operators)
//! and instruments (ordered collections of operations).

use vstd::prelude::*;
use crate::cx::{c_add, seq_cadd, vec_cadd, vec_copy, Cx};

verus! {

/// Mathematical view of a square matrix: its side and its entries in
/// row-major order.
pub ghost struct MatView {
    pub side: nat,
    pub entries: Seq<Cx>,
}

/// A square matrix holds exactly side times side entries.
pub open spec fn mat_wf(m: MatView) -> bool {
    m.entries.len() == m.side * m.side
}

/// The entry of `m` in row `r`, column `c`.
pub open spec fn ment(m: MatView, r: int, c: int) -> Cx {
    m.entries[r * (m.side as int) + c]
}

/// A square complex matrix in row-major order.
pub struct SquareMatrix {
    side: usize,
    data: Vec<Cx>,
}

impl View for SquareMatrix {
    type V = MatView;

    closed spec fn view(&self) -> MatView {
        MatView { side: self.side as nat, entries: self.data@ }
    }
}

/// The views of a sequence of matrices.
pub open spec fn mats_view(s: Seq<SquareMatrix>) -> Seq<MatView> {
    s.map_values(|m: SquareMatrix| m@)
}

/// A matrix's side is a machine word.
pub proof fn lemma_side_bound(m: &SquareMatrix)
    ensures
        m@.side <= usize::MAX,
{
}

/// Appending a matrix appends its view.
pub proof fn lemma_mats_view_push(s: Seq<SquareMatrix>, m: SquareMatrix)
    ensures
        mats_view(s.push(m)) == mats_view(s).push(m@),
{
    assert(mats_view(s.push(m)) =~= mats_view(s).push(m@));
}

impl SquareMatrix {
    /// Builds a matrix of the given side from its row-major entries;
    /// nothing is built when the number of entries is not the side squared.
    pub fn new(side: usize, entries: Vec<Cx>) -> (r: Option<SquareMatrix>)
        ensures
            r is Some <==> entries@.len() == (side as int) * (side as int),
            r matches Some(m) ==> m@ == (MatView { side: side as nat, entries: entries@ }),
    {
        proof {
            assert((side as int) * (side as int) < 0x1_0000_0000_0000_0000_0000_0000_0000_0000int)
                by (nonlinear_arith)
                requires side <= u64::MAX;
        }
        if (entries.len() as u128) == (side as u128) * (side as u128) {
            Some(SquareMatrix { side, data: entries })
        } else {
            None
        }
    }

    /// The side of the matrix.
    pub fn side(&self) -> (r: usize)
        ensures
            r as nat == self@.side,
    {
        self.side
    }

    /// The entry in row `r`, column `c`.
    pub fn at(&self, r: usize, c: usize) -> (e: Cx)
        requires
            mat_wf(self@),
            r < self@.side,
            c < self@.side,
        ensures
            e == ment(self@, r as int, c as int),
    {
        let n = self.data.len();
        proof {
            assert((r as int) * (self.side as int) + (c as int) < (self.side as int) * (
            self.side as int)) by (nonlinear_arith)
                requires (r as int) < (self.side as int), (c as int) < (self.side as int);
            assert(n == (self.side as int) * (self.side as int));
        }
        self.data[r * self.side + c]
    }

    /// A copy with the same view.
    pub fn duplicate(&self) -> (r: SquareMatrix)
        ensures
            r@ == self@,
    {
        SquareMatrix { side: self.side, data: vec_copy(&self.data) }
    }
}

/// Mathematical view of an operation: its effect matrix and its ordered
/// Kraus operators.
pub ghost struct OpView {
    pub effect: MatView,
    pub kraus: Seq<MatView>,
}

/// An operation is well formed when its effect matrix is, it has at least
/// one Kraus operator, and every Kraus operator is a well-formed matrix of
/// the effect matrix's side.
pub open spec fn op_wf(v: OpView) -> bool {
    &&& mat_wf(v.effect)
    &&& v.kraus.len() >= 1
    &&& forall|i: int|
        0 <= i < v.kraus.len() ==> mat_wf(#[trigger] v.kraus[i]) && v.kraus[i].side
            == v.effect.side
}

/// A quantum operation: a single effect matrix together with the ordered
/// list of Kraus operators whose conjugate products are expected (by the
/// caller; it is not checked here) to sum to the effect matrix.
pub struct Operation {
    effect: SquareMatrix,
    kraus: Vec<SquareMatrix>,
}

impl View for Operation {
    type V = OpView;

    closed spec fn view(&self) -> OpView {
        OpView { effect: self.effect@, kraus: mats_view(self.kraus@) }
    }
}

impl Operation {
    /// Bundles an effect matrix with its Kraus operators; nothing is built
    /// when the list is empty or some operator's side differs from the
    /// effect matrix's.
    pub fn new(effect: SquareMatrix, kraus: Vec<SquareMatrix>) -> (r: Option<Operation>)
        requires
            mat_wf(effect@),
            forall|i: int| 0 <= i < kraus@.len() ==> mat_wf(#[trigger] kraus@[i]@),
        ensures
            r is Some <==> (kraus@.len() >= 1 && forall|i: int|
                0 <= i < kraus@.len() ==> (#[trigger] kraus@[i]@).side == effect@.side),
            r matches Some(op) ==> op@ == (OpView {
                effect: effect@,
                kraus: mats_view(kraus@),
            }) && op_wf(op@),
    {
        if kraus.len() == 0 {
            return None;
        }
        let mut i: usize = 0;
        while i < kraus.len()
            invariant
                i <= kraus@.len(),
                forall|t: int| 0 <= t < i ==> (#[trigger] kraus@[t]@).side == effect@.side,
            decreases kraus@.len() - i,
        {
            if kraus[i].side() != effect.side() {
                return None;
            }
            i = i + 1;
        }
        Some(Operation { effect, kraus })
    }

    /// The effect matrix.
    pub fn effect_matrix(&self) -> (r: &SquareMatrix)
        ensures
            r@ == self@.effect,
    {
        &self.effect
    }

    /// The ordered Kraus operators.
    pub fn kraus_operators(&self) -> (r: &Vec<SquareMatrix>)
        ensures
            mats_view(r@) == self@.kraus,
    {
        &self.kraus
    }
}

/// The entries of the sum of the first `n` operations' effect matrices,
/// added componentwise left to right.
pub open spec fn effect_sum(ops: Seq<OpView>, n: int) -> Seq<Cx>
    decreases n,
{
    if n <= 1 {
        ops[0].effect.entries
    } else {
        seq_cadd(effect_sum(ops, n - 1), ops[n - 1].effect.entries)
    }
}

/// The Kraus operators of the first `n` operations, flattened in order.
pub open spec fn flat_kraus(ops: Seq<OpView>, n: int) -> Seq<MatView>
    decreases n,
{
    if n <= 0 {
        Seq::<MatView>::empty()
    } else {
        flat_kraus(ops, n - 1) + ops[n - 1].kraus
    }
}

/// Mathematical view of an instrument.
pub ghost struct InstView {
    pub ops: Seq<OpView>,
    pub total: MatView,
    pub non_selective: Seq<MatView>,
}

/// An instrument is well formed when it has at least one operation, all
/// operations are well formed and share one side, its total effect is the
/// componentwise sum of their effect matrices, and its non-selective Kraus
/// list is their Kraus lists flattened in order.
pub open spec fn inst_wf(v: InstView) -> bool {
    &&& v.ops.len() >= 1
    &&& forall|i: int|
        0 <= i < v.ops.len() ==> op_wf(#[trigger] v.ops[i]) && v.ops[i].effect.side
            == v.total.side
    &&& mat_wf(v.total)
    &&& v.total.entries == effect_sum(v.ops, v.ops.len() as int)
    &&& v.non_selective == flat_kraus(v.ops, v.ops.len() as int)
}

/// An instrument: the ordered operations describing the possible outcomes
/// of a measurement, with their total effect and the flattened list of all
/// their Kraus operators.
pub struct Instrument {
    operations: Vec<Operation>,
    total: SquareMatrix,
    non_selective: Vec<SquareMatrix>,
}

/// The views of a sequence of operations.
pub open spec fn ops_view(s: Seq<Operation>) -> Seq<OpView> {
    s.map_values(|op: Operation| op@)
}

impl View for Instrument {
    type V = InstView;

    closed spec fn view(&self) -> InstView {
        InstView {
            ops: ops_view(self.operations@),
            total: self.total@,
            non_selective: mats_view(self.non_selective@),
        }
    }
}

impl Instrument {
    /// Builds an instrument from its operations, computing the total effect
    /// and the flattened Kraus list; nothing is built when the list is
    /// empty or the operations' sides disagree.
    pub fn new(operations: Vec<Operation>) -> (r: Option<Instrument>)
        requires
            forall|i: int| 0 <= i < operations@.len() ==> op_wf(#[trigger] operations@[i]@),
        ensures
            r is Some <==> (operations@.len() >= 1 && forall|i: int|
                0 <= i < operations@.len() ==> (#[trigger] operations@[i]@).effect.side
                    == operations@[0]@.effect.side),
            r matches Some(inst) ==> inst@.ops == ops_view(operations@) && inst_wf(inst@),
    {
        let ghost opsv = ops_view(operations@);
        proof {
            assert(forall|i: int|
                0 <= i < operations@.len() ==> opsv[i] == (#[trigger] operations@[i])@);
        }
        if operations.len() == 0 {
            return None;
        }
        let side = operations[0].effect_matrix().side();
        let mut total_data = vec_copy(&operations[0].effect_matrix().data);
        let mut j: usize = 1;
        while j < operations.len()
            invariant
                1 <= j <= operations@.len(),
                opsv == ops_view(operations@),
                forall|i: int|
                    0 <= i < operations@.len() ==> opsv[i] == (#[trigger] operations@[i])@,
                forall|i: int| 0 <= i < operations@.len() ==> op_wf(#[trigger] opsv[i]),
                side as nat == opsv[0].effect.side,
                forall|t: int| 0 <= t < j ==> (#[trigger] opsv[t]).effect.side == side as nat,
                total_data@ == effect_sum(opsv, j as int),
            decreases operations@.len() - j,
        {
            if operations[j].effect_matrix().side() != side {
                proof {
                    assert((operations@[j as int])@.effect.side != side as nat);
                }
                return None;
            }
            proof {
                lemma_effect_sum_len(opsv, j as int);
                assert(opsv[j as int].effect.entries.len() == opsv[j as int].effect.side
                    * opsv[j as int].effect.side);
            }
            total_data = vec_cadd(&total_data, &operations[j].effect_matrix().data);
            j = j + 1;
        }
        let mut non_selective: Vec<SquareMatrix> = Vec::new();
        let mut o: usize = 0;
        while o < operations.len()
            invariant
                o <= operations@.len(),
                opsv == ops_view(operations@),
                forall|i: int|
                    0 <= i < operations@.len() ==> opsv[i] == (#[trigger] operations@[i])@,
                forall|i: int| 0 <= i < operations@.len() ==> op_wf(#[trigger] opsv[i]),
                mats_view(non_selective@) == flat_kraus(opsv, o as int),
            decreases operations@.len() - o,
        {
            let ghost flat_before = flat_kraus(opsv, o as int);
            let ghost klist = opsv[o as int].kraus;
            let ks = operations[o].kraus_operators();
            let mut t: usize = 0;
            while t < ks.len()
                invariant
                    t <= ks@.len(),
                    mats_view(ks@) == klist,
                    klist.len() == ks@.len(),
                    mats_view(non_selective@) == flat_before + klist.take(t as int),
                decreases ks@.len() - t,
            {
                let ghost pre = non_selective@;
                let d = ks[t].duplicate();
                let ghost dv = d@;
                non_selective.push(d);
                proof {
                    assert(non_selective@ == pre.push(non_selective@.last()));
                    assert(mats_view(pre.push(non_selective@.last())) =~= mats_view(pre).push(dv));
                    assert(mats_view(ks@)[t as int] == ks@[t as int]@);
                    assert(dv == klist[t as int]);
                    assert(klist.take(t + 1) =~= klist.take(t as int).push(klist[t as int]));
                    assert(mats_view(pre).push(dv) =~= flat_before + klist.take(t + 1));
                }
                t = t + 1;
            }
            proof {
                assert(klist.take(klist.len() as int) =~= klist);
                assert(flat_kraus(opsv, o as int + 1) == flat_before + klist);
            }
            o = o + 1;
        }
        let total = SquareMatrix { side, data: total_data };
        proof {
            lemma_effect_sum_len(opsv, opsv.len() as int);
            let sn = side as nat;
            assert(total@.entries.len() == sn * sn);
            assert(mat_wf(total@));
            lemma_flat_kraus_nonempty(opsv, opsv.len() as int);
            assert(inst_wf(InstView {
                ops: opsv,
                total: total@,
                non_selective: mats_view(non_selective@),
            }));
        }
        Some(Instrument { operations, total, non_selective })
    }

    /// How many outcomes the instrument has.
    pub fn num_operations(&self) -> (r: usize)
        ensures
            r == self@.ops.len(),
    {
        self.operations.len()
    }

    /// The operation of outcome `i`.
    pub fn operation(&self, i: usize) -> (r: &Operation)
        requires
            i < self@.ops.len(),
        ensures
            r@ == self@.ops[i as int],
    {
        &self.operations[i]
    }

    /// The sum of the operations' effect matrices.
    pub fn total_effect(&self) -> (r: &SquareMatrix)
        ensures
            r@ == self@.total,
    {
        &self.total
    }

    /// The Kraus operators of all outcomes, flattened in order.
    pub fn non_selective_kraus_operators(&self) -> (r: &Vec<SquareMatrix>)
        ensures
            mats_view(r@) == self@.non_selective,
    {
        &self.non_selective
    }
}

/// The componentwise sum of well-formed effect matrices of one side has
/// that side's square as its length.
pub proof fn lemma_effect_sum_len(ops: Seq<OpView>, n: int)
    requires
        1 <= n <= ops.len(),
        forall|i: int| 0 <= i < n ==> op_wf(#[trigger] ops[i]),
        forall|i: int| 0 <= i < n ==> (#[trigger] ops[i]).effect.side == ops[0].effect.side,
    ensures
        effect_sum(ops, n).len() == ops[0].effect.side * ops[0].effect.side,
    decreases n,
{
    if n > 1 {
        lemma_effect_sum_len(ops, n - 1);
    }
}

/// Every matrix of a flattened Kraus list of well-formed operations is
/// well formed.
pub proof fn lemma_flat_kraus_wf(ops: Seq<OpView>, n: int)
    requires
        n <= ops.len(),
        forall|i: int| 0 <= i < ops.len() ==> op_wf(#[trigger] ops[i]),
    ensures
        forall|t: int|
            0 <= t < flat_kraus(ops, n).len() ==> mat_wf(#[trigger] flat_kraus(ops, n)[t]),
    decreases n,
{
    if n > 0 {
        lemma_flat_kraus_wf(ops, n - 1);
        assert forall|t: int|
            0 <= t < flat_kraus(ops, n).len() implies mat_wf(#[trigger] flat_kraus(ops, n)[t]) by {
            let before = flat_kraus(ops, n - 1);
            if t < before.len() {
                assert(flat_kraus(ops, n)[t] == before[t]);
            } else {
                assert(flat_kraus(ops, n)[t] == ops[n - 1].kraus[t - before.len()]);
            }
        }
    }
}

/// A flattened Kraus list of at least one well-formed operation is
/// non-empty.
pub proof fn lemma_flat_kraus_nonempty(ops: Seq<OpView>, n: int)
    requires
        1 <= n <= ops.len(),
        forall|i: int| 0 <= i < ops.len() ==> op_wf(#[trigger] ops[i]),
    ensures
        flat_kraus(ops, n).len() >= 1,
    decreases n,
{
    if n > 1 {
        lemma_flat_kraus_nonempty(ops, n - 1);
    }
}

} // verus!
