//! The composite cone: an ordered collection of concrete cone objects
//! that partitions global iterate vectors across its members, dispatches
//! every per-iteration operation, and aggregates the results.
//!
//! Results combine as a sum (degree, barrier), a logical OR (the
//! equilibration changed flag), a logical AND (the diagonal-block flag),
//! or a scalar minimum (step lengths). A composite has no single ambient
//! dimension, so no `dim` operation is offered at all: callers use
//! `numel`, and an attempt to ask for `dim` fails at compile time.

use vstd::prelude::*;

use crate::cones::{
    affine_elem, ds_shift_elem, dz_offset_elem, hs_elem, kind_index, kind_index_of, kind_of_obj,
    make_cone, mul_hs_elem, rect_delta_elem, shift_elem, sp_matches_desc, sp_member_step, sp_nvars,
    tri, unit_elem, upd_scaling_rel, ConeObj, CoreSettings, ScalingStrategy, SupportedCone, NKINDS,
};
use crate::cones::{lemma_shift_elem_congr, lemma_tri_double, lemma_tri_nonneg};
use crate::scalar::{lemma_smin_keeps_bound, s_lt, s_min, s_zero, sadd, smin, Scalar};
use crate::vector::lemma_take_step;

verus! {

broadcast use vstd::std_specs::vec::axiom_spec_len;

/// A contiguous index range `[start, stop)` assigned to one member.
#[derive(Clone, Copy, Debug, PartialEq, Eq, Structural)]
pub struct ConeRange {
    pub start: usize,
    pub stop: usize,
}

/// Total ambient size of a sequence of cones.
pub open spec fn sp_cones_numel(cs: Seq<ConeObj>) -> int
    decreases cs.len(),
{
    if cs.len() == 0 {
        0
    } else {
        sp_cones_numel(cs.drop_last()) + cs.last().numel_s()
    }
}

/// Total barrier degree of a sequence of cones.
pub open spec fn sp_cones_degree(cs: Seq<ConeObj>) -> int
    decreases cs.len(),
{
    if cs.len() == 0 {
        0
    } else {
        sp_cones_degree(cs.drop_last()) + cs.last().degree_s()
    }
}

/// Total scaled-Hessian block storage of a sequence of cones.
pub open spec fn sp_cones_block(cs: Seq<ConeObj>) -> int
    decreases cs.len(),
{
    if cs.len() == 0 {
        0
    } else {
        sp_cones_block(cs.drop_last()) + cs.last().block_s()
    }
}

/// Every member is symmetric.
pub open spec fn sp_all_symmetric(cs: Seq<ConeObj>) -> bool {
    forall|i: int| 0 <= i < cs.len() ==> (#[trigger] cs[i]).symmetric_s()
}

/// Every member's scaled-Hessian block is diagonal.
pub open spec fn sp_all_hs_diag(cs: Seq<ConeObj>) -> bool {
    forall|i: int| 0 <= i < cs.len() ==> (#[trigger] cs[i]).hs_diag_s()
}

/// Number of descriptors of registry kind `t`.
pub open spec fn sp_count_kind(ts: Seq<SupportedCone>, t: int) -> int
    decreases ts.len(),
{
    if ts.len() == 0 {
        0
    } else {
        sp_count_kind(ts.drop_last(), t) + if kind_index(ts.last()) == t {
            1int
        } else {
            0int
        }
    }
}

/// Slack variables a descriptor generates; mirrors the cone the registry
/// builds from it.
pub open spec fn sp_desc_degree(c: SupportedCone) -> int {
    match c {
        SupportedCone::ZeroConeT(_) => 0,
        SupportedCone::NonnegativeConeT(dim) => dim as int,
        SupportedCone::SecondOrderConeT(_) => 1,
        SupportedCone::ExponentialConeT() => 3,
        SupportedCone::PlaceHolderT(_, _) => 0,
    }
}

/// Block storage of the cone a descriptor builds.
pub open spec fn sp_desc_block(c: SupportedCone) -> int {
    match c {
        SupportedCone::ZeroConeT(dim) => dim as int,
        SupportedCone::NonnegativeConeT(dim) => dim as int,
        SupportedCone::SecondOrderConeT(dim) => tri(dim as int),
        SupportedCone::ExponentialConeT() => tri(3),
        SupportedCone::PlaceHolderT(dim, _) => dim as int,
    }
}

/// Total ambient size of a descriptor list.
pub open spec fn sp_types_numel(ts: Seq<SupportedCone>) -> int
    decreases ts.len(),
{
    if ts.len() == 0 {
        0
    } else {
        sp_types_numel(ts.drop_last()) + sp_nvars(ts.last())
    }
}

/// Total barrier degree of a descriptor list.
pub open spec fn sp_types_degree(ts: Seq<SupportedCone>) -> int
    decreases ts.len(),
{
    if ts.len() == 0 {
        0
    } else {
        sp_types_degree(ts.drop_last()) + sp_desc_degree(ts.last())
    }
}

/// Total block storage of a descriptor list.
pub open spec fn sp_types_block(ts: Seq<SupportedCone>) -> int
    decreases ts.len(),
{
    if ts.len() == 0 {
        0
    } else {
        sp_types_block(ts.drop_last()) + sp_desc_block(ts.last())
    }
}

/// A cone's static quantities are nonnegative.
pub proof fn lemma_obj_nonneg(c: ConeObj)
    ensures
        c.numel_s() >= 0,
        c.degree_s() >= 0,
        c.block_s() >= 0,
{
    lemma_tri_nonneg(c.numel_s());
}

/// Prefix fold of member sizes grows with the prefix.
pub proof fn lemma_cnumel_take_mono(cs: Seq<ConeObj>, i: int, j: int)
    requires
        0 <= i <= j <= cs.len(),
    ensures
        sp_cones_numel(cs.take(i)) <= sp_cones_numel(cs.take(j)),
    decreases j - i,
{
    if i < j {
        lemma_cnumel_take_mono(cs, i, j - 1);
        lemma_take_step(cs, j - 1);
        lemma_obj_nonneg(cs[j - 1]);
        assert(sp_cones_numel(cs.take(j)) == sp_cones_numel(cs.take(j - 1)) + cs[j - 1].numel_s());
    }
}

/// Prefix fold of block sizes grows with the prefix.
pub proof fn lemma_cblock_take_mono(cs: Seq<ConeObj>, i: int, j: int)
    requires
        0 <= i <= j <= cs.len(),
    ensures
        sp_cones_block(cs.take(i)) <= sp_cones_block(cs.take(j)),
    decreases j - i,
{
    if i < j {
        lemma_cblock_take_mono(cs, i, j - 1);
        lemma_take_step(cs, j - 1);
        lemma_obj_nonneg(cs[j - 1]);
        assert(sp_cones_block(cs.take(j)) == sp_cones_block(cs.take(j - 1)) + cs[j - 1].block_s());
    }
}

/// Prefix fold of degrees grows with the prefix.
pub proof fn lemma_cdegree_take_mono(cs: Seq<ConeObj>, i: int, j: int)
    requires
        0 <= i <= j <= cs.len(),
    ensures
        sp_cones_degree(cs.take(i)) <= sp_cones_degree(cs.take(j)),
    decreases j - i,
{
    if i < j {
        lemma_cdegree_take_mono(cs, i, j - 1);
        lemma_take_step(cs, j - 1);
        lemma_obj_nonneg(cs[j - 1]);
        assert(sp_cones_degree(cs.take(j)) == sp_cones_degree(cs.take(j - 1)) + cs[j
            - 1].degree_s());
    }
}

/// A cone list that realizes a descriptor list carries the same totals.
pub proof fn lemma_folds_match(cs: Seq<ConeObj>, ts: Seq<SupportedCone>)
    requires
        cs.len() == ts.len(),
        forall|i: int| 0 <= i < cs.len() ==> sp_matches_desc(#[trigger] cs[i], ts[i]),
        forall|i: int| 0 <= i < ts.len() ==> !((#[trigger] ts[i]) is PlaceHolderT),
    ensures
        sp_cones_numel(cs) == sp_types_numel(ts),
        sp_cones_degree(cs) == sp_types_degree(ts),
        sp_cones_block(cs) == sp_types_block(ts),
    decreases cs.len(),
{
    if cs.len() > 0 {
        lemma_folds_match(cs.drop_last(), ts.drop_last());
        let c = cs.last();
        let t = ts.last();
        assert(sp_matches_desc(c, t));
        match t {
            SupportedCone::SecondOrderConeT(dim) => {
                assert(c.block_s() == tri(c.numel_s()));
            },
            _ => {},
        }
    }
}

/// The count of one kind never exceeds the list length.
pub proof fn lemma_count_le(ts: Seq<SupportedCone>, t: int)
    ensures
        0 <= sp_count_kind(ts, t) <= ts.len(),
    decreases ts.len(),
{
    if ts.len() > 0 {
        lemma_count_le(ts.drop_last(), t);
    }
}

/// Two cone lists with the same shapes fold to the same totals.
pub proof fn lemma_folds_congr(cs1: Seq<ConeObj>, cs2: Seq<ConeObj>)
    requires
        cs1.len() == cs2.len(),
        forall|i: int|
            0 <= i < cs1.len() ==> (#[trigger] cs1[i]).numel_s() == cs2[i].numel_s()
                && kind_of_obj(cs1[i]) == kind_of_obj(cs2[i]),
    ensures
        sp_cones_numel(cs1) == sp_cones_numel(cs2),
        sp_cones_degree(cs1) == sp_cones_degree(cs2),
        sp_cones_block(cs1) == sp_cones_block(cs2),
    decreases cs1.len(),
{
    if cs1.len() > 0 {
        lemma_folds_congr(cs1.drop_last(), cs2.drop_last());
        assert(cs1[cs1.len() - 1].numel_s() == cs2[cs1.len() - 1].numel_s());
    }
}

/// The default composite cone: an ordered sequence of member cones, the
/// descriptor tags they were built from, per-kind counts, cached totals,
/// and the two parallel range partitions.
pub struct CompositeCone {
    cones: Vec<ConeObj>,
    /// The descriptors the composite was built from, in order.
    pub types: Vec<SupportedCone>,
    /// Occurrence count of each descriptor kind, indexed by registry
    /// position.
    pub type_counts: Vec<usize>,
    numel: usize,
    degree: usize,
    /// Index range of each member inside a global iterate vector.
    pub rng_cones: Vec<ConeRange>,
    /// Index range of each member's block inside scaled-Hessian storage.
    pub rng_blocks: Vec<ConeRange>,
    _is_symmetric: bool,
}

impl CompositeCone {
    /// Structural invariant tying members, descriptors, counts, ranges
    /// and cached totals together.
    pub closed spec fn wf(self) -> bool {
        &&& self.cones@.len() == self.types@.len()
        &&& self.rng_cones@.len() == self.cones@.len()
        &&& self.rng_blocks@.len() == self.cones@.len()
        &&& self.type_counts@.len() == NKINDS
        &&& forall|i: int| 0 <= i < self.cones@.len() ==> (#[trigger] self.cones@[i]).wf()
        &&& forall|i: int|
            0 <= i < self.cones@.len() ==> sp_matches_desc(#[trigger] self.cones@[i], self.types@[i])
        &&& forall|i: int| 0 <= i < self.types@.len() ==> !((#[trigger] self.types@[i]) is PlaceHolderT)
        &&& forall|i: int|
            0 <= i < self.rng_cones@.len() ==> (#[trigger] self.rng_cones@[i]).start
                == sp_cones_numel(self.cones@.take(i)) && self.rng_cones@[i].stop == sp_cones_numel(
                self.cones@.take(i + 1),
            )
        &&& forall|i: int|
            0 <= i < self.rng_blocks@.len() ==> (#[trigger] self.rng_blocks@[i]).start
                == sp_cones_block(self.cones@.take(i)) && self.rng_blocks@[i].stop == sp_cones_block(
                self.cones@.take(i + 1),
            )
        &&& self.numel == sp_cones_numel(self.cones@)
        &&& self.degree == sp_cones_degree(self.cones@)
        &&& self._is_symmetric == sp_all_symmetric(self.cones@)
        &&& forall|t: int| 0 <= t < NKINDS ==> self.type_counts@[t] == sp_count_kind(self.types@, t)
    }

    /// Total ambient size, as a mathematical value.
    pub closed spec fn numel_s(self) -> int {
        self.numel as int
    }

    /// Total barrier degree, as a mathematical value.
    pub closed spec fn degree_s(self) -> int {
        self.degree as int
    }

    /// The global symmetry flag, as a mathematical value.
    pub closed spec fn symmetric_s(self) -> bool {
        self._is_symmetric
    }

    /// The member sequence, as a mathematical value.
    pub closed spec fn cones_s(self) -> Seq<ConeObj> {
        self.cones@
    }

    /// The ambient range partition, as a mathematical value.
    pub closed spec fn rngs_s(self) -> Seq<ConeRange> {
        self.rng_cones@
    }

    /// The block range partition, as a mathematical value.
    pub closed spec fn rngb_s(self) -> Seq<ConeRange> {
        self.rng_blocks@
    }

    /// The descriptor list, as a mathematical value.
    pub closed spec fn types_s(self) -> Seq<SupportedCone> {
        self.types@
    }

    /// Total scaled-Hessian block storage of the members.
    pub closed spec fn blocks_total_s(self) -> int {
        sp_cones_block(self.cones@)
    }

    /// A member's slice ends where the next member's slice begins, and
    /// every slice lies inside `[0, numel)`.
    pub proof fn lemma_rng_inside(self, i: int)
        requires
            self.wf(),
            0 <= i < self.cones_s().len(),
        ensures
            self.rngs_s()[i].start <= self.rngs_s()[i].stop,
            self.rngs_s()[i].stop <= self.numel_s(),
            self.rngs_s()[i].stop == self.rngs_s()[i].start + self.cones_s()[i].numel_s(),
            self.rngb_s()[i].start <= self.rngb_s()[i].stop,
            self.rngb_s()[i].stop == self.rngb_s()[i].start + self.cones_s()[i].block_s(),
            self.rngb_s()[i].stop <= self.blocks_total_s(),
    {
        lemma_cnumel_take_mono(self.cones@, i, i + 1);
        lemma_cnumel_take_mono(self.cones@, i + 1, self.cones@.len() as int);
        lemma_cblock_take_mono(self.cones@, i, i + 1);
        lemma_cblock_take_mono(self.cones@, i + 1, self.cones@.len() as int);
        lemma_take_step(self.cones@, i);
        assert(self.cones@.take(self.cones@.len() as int) =~= self.cones@);
        assert(sp_cones_numel(self.cones@.take(i + 1)) == sp_cones_numel(self.cones@.take(i))
            + self.cones@[i].numel_s());
        assert(sp_cones_block(self.cones@.take(i + 1)) == sp_cones_block(self.cones@.take(i))
            + self.cones@[i].block_s());
    }

    /// Slices of distinct members never overlap: an earlier member's
    /// slice ends before a later member's slice begins.
    pub proof fn lemma_rng_ordered(self, t: int, i: int)
        requires
            self.wf(),
            0 <= t < i < self.cones_s().len(),
        ensures
            self.rngs_s()[t].stop <= self.rngs_s()[i].start,
            self.rngb_s()[t].stop <= self.rngb_s()[i].start,
    {
        lemma_cnumel_take_mono(self.cones@, t + 1, i);
        lemma_cblock_take_mono(self.cones@, t + 1, i);
    }
}

/// Ambient index ranges of the member cones, in construction order: a
/// gap-free partition of `[0, total size)`.
#[allow(non_snake_case)]
pub fn _make_rng_cones(cones: &Vec<ConeObj>) -> (r: Vec<ConeRange>)
    requires
        sp_cones_numel(cones@) <= usize::MAX,
    ensures
        r@.len() == cones@.len(),
        forall|i: int|
            0 <= i < r@.len() ==> (#[trigger] r@[i]).start == sp_cones_numel(cones@.take(i))
                && r@[i].stop == sp_cones_numel(cones@.take(i + 1)),
{
    let n = cones.len();
    let mut rngs: Vec<ConeRange> = Vec::new();
    let mut start: usize = 0;
    let mut i: usize = 0;
    while i < n
        invariant
            i <= n,
            n == cones@.len(),
            rngs@.len() == i,
            sp_cones_numel(cones@) <= usize::MAX,
            start == sp_cones_numel(cones@.take(i as int)),
            forall|t: int|
                0 <= t < i ==> (#[trigger] rngs@[t]).start == sp_cones_numel(cones@.take(t))
                    && rngs@[t].stop == sp_cones_numel(cones@.take(t + 1)),
        decreases n - i,
    {
        let nv = cones[i].numel();
        proof {
            lemma_take_step(cones@, i as int);
            assert(sp_cones_numel(cones@.take(i as int + 1)) == sp_cones_numel(
                cones@.take(i as int),
            ) + cones@[i as int].numel_s());
            lemma_cnumel_take_mono(cones@, i as int + 1, n as int);
            assert(cones@.take(n as int) =~= cones@);
        }
        let stop = start + nv;
        rngs.push(ConeRange { start, stop });
        start = stop;
        i += 1;
    }
    rngs
}

/// Block index ranges of the member cones: per member, its dimension for
/// a diagonal block, the packed triangular count otherwise.
#[allow(non_snake_case)]
pub fn _make_rng_blocks(cones: &Vec<ConeObj>) -> (r: Vec<ConeRange>)
    requires
        2 * sp_cones_block(cones@) <= usize::MAX,
    ensures
        r@.len() == cones@.len(),
        forall|i: int|
            0 <= i < r@.len() ==> (#[trigger] r@[i]).start == sp_cones_block(cones@.take(i))
                && r@[i].stop == sp_cones_block(cones@.take(i + 1)),
{
    let n = cones.len();
    let mut rngs: Vec<ConeRange> = Vec::new();
    let mut start: usize = 0;
    let mut i: usize = 0;
    while i < n
        invariant
            i <= n,
            n == cones@.len(),
            rngs@.len() == i,
            2 * sp_cones_block(cones@) <= usize::MAX,
            start == sp_cones_block(cones@.take(i as int)),
            forall|t: int|
                0 <= t < i ==> (#[trigger] rngs@[t]).start == sp_cones_block(cones@.take(t))
                    && rngs@[t].stop == sp_cones_block(cones@.take(t + 1)),
        decreases n - i,
    {
        proof {
            lemma_take_step(cones@, i as int);
            assert(sp_cones_block(cones@.take(i as int + 1)) == sp_cones_block(
                cones@.take(i as int),
            ) + cones@[i as int].block_s());
            lemma_cblock_take_mono(cones@, 0, i as int);
            lemma_cblock_take_mono(cones@, i as int + 1, n as int);
            assert(cones@.take(n as int) =~= cones@);
            assert(cones@.take(0) =~= Seq::<ConeObj>::empty());
            lemma_tri_double(cones@[i as int].numel_s());
            lemma_tri_nonneg(cones@[i as int].numel_s());
        }
        let nv = cones[i].numel();
        let diag = cones[i].Hs_is_diagonal();
        proof {
            if !diag {
                assert(cones@[i as int].block_s() == tri(nv as int));
                assert(nv as int * (nv as int + 1) >= 2 * nv as int && nv as int * (nv as int + 1)
                    >= 0) by (nonlinear_arith)
                    requires
                        nv as int >= 0,
                ;
                assert(sp_cones_block(cones@.take(0)) == 0);
            }
        }
        let b: usize = if diag {
            nv
        } else {
            (nv * (nv + 1)) / 2
        };
        let stop = start + b;
        rngs.push(ConeRange { start, stop });
        start = stop;
        i += 1;
    }
    rngs
}

/// Running value of the head-index table at position `i`: zero at the
/// first slot, the caller's value at the second, and from the third on
/// the previous value plus the previous cone's size.
pub open spec fn sp_headidx_val(h0: Seq<usize>, cs: Seq<ConeObj>, i: int) -> int
    decreases i,
{
    if i <= 0 {
        0
    } else if i == 1 {
        h0[1] as int
    } else {
        sp_headidx_val(h0, cs, i - 1) + cs[i - 1].numel_s()
    }
}

/// Fill a head-index table: the index of the first element of each cone,
/// chained from the second slot on; with no cones the table is untouched.
#[allow(non_snake_case)]
pub fn _make_headidx(headidx: &mut Vec<usize>, cones: &Vec<ConeObj>)
    requires
        cones@.len() > 0 ==> old(headidx)@.len() >= 1,
        old(headidx)@.len() <= cones@.len() + 1,
        forall|i: int|
            2 <= i < old(headidx)@.len() ==> sp_headidx_val(old(headidx)@, cones@, i)
                <= usize::MAX,
    ensures
        final(headidx)@.len() == old(headidx)@.len(),
        cones@.len() == 0 ==> final(headidx)@ == old(headidx)@,
        cones@.len() > 0 ==> forall|i: int|
            0 <= i < final(headidx)@.len() ==> #[trigger] final(headidx)@[i] as int == (if i == 1 {
                old(headidx)@[1] as int
            } else {
                sp_headidx_val(old(headidx)@, cones@, i)
            }),
{
    let ghost h0 = headidx@;
    if cones.len() > 0 {
        let cap_h = headidx.len();
        headidx[0] = 0;
        let mut i: usize = 2;
        while i < cap_h
            invariant
                2 <= i,
                i <= cap_h || cap_h < 2,
                cap_h == h0.len(),
                headidx@.len() == h0.len(),
                cap_h <= cones@.len() + 1,
                headidx@[0] == 0,
                h0.len() >= 1,
                forall|t: int|
                    2 <= t < h0.len() ==> sp_headidx_val(h0, cones@, t) <= usize::MAX,
                h0.len() > 1 ==> headidx@[1] == h0[1],
                forall|t: int|
                    2 <= t < i && t < h0.len() ==> #[trigger] headidx@[t] as int == sp_headidx_val(
                        h0,
                        cones@,
                        t,
                    ),
            decreases cap_h - i,
        {
            let prev = headidx[i - 1];
            proof {
                assert(prev as int == sp_headidx_val(h0, cones@, i as int - 1));
                assert(sp_headidx_val(h0, cones@, i as int) == sp_headidx_val(h0, cones@, i as int
                    - 1) + cones@[i as int - 1].numel_s());
            }
            let nv = cones[i - 1].numel();
            headidx[i] = prev + nv;
            i += 1;
        }
    }
}

impl CompositeCone {
    /// Build a composite from the ordered descriptor list: instantiate
    /// each member, tally per-kind counts keyed by kind tag only, compute
    /// the two parallel range partitions, and cache the aggregate size,
    /// degree and symmetry flag.
    pub fn new(types: &Vec<SupportedCone>) -> (r: CompositeCone)
        requires
            forall|i: int| 0 <= i < types@.len() ==> !((#[trigger] types@[i]) is PlaceHolderT),
            sp_types_numel(types@) <= usize::MAX,
            sp_types_degree(types@) <= usize::MAX,
            2 * sp_types_block(types@) <= usize::MAX,
        ensures
            r.wf(),
            r.types_s() == types@,
            r.cones_s().len() == types@.len(),
            r.numel_s() == sp_types_numel(types@),
            r.degree_s() == sp_types_degree(types@),
            forall|i: int|
                0 <= i < types@.len() ==> sp_matches_desc(#[trigger] r.cones_s()[i], types@[i]),
            r.symmetric_s() == sp_all_symmetric(r.cones_s()),
    {
        let n_types = types.len();
        let mut cones: Vec<ConeObj> = Vec::new();
        let mut type_counts: Vec<usize> = Vec::new();
        let mut t0: usize = 0;
        while t0 < NKINDS
            invariant
                t0 <= NKINDS,
                type_counts@.len() == t0,
                forall|t: int| 0 <= t < t0 ==> type_counts@[t] == 0,
            decreases NKINDS - t0,
        {
            type_counts.push(0);
            t0 += 1;
        }
        let mut is_sym = true;
        let mut i: usize = 0;
        while i < n_types
            invariant
                i <= n_types,
                n_types == types@.len(),
                forall|t: int| 0 <= t < types@.len() ==> !((#[trigger] types@[t]) is PlaceHolderT),
                cones@.len() == i,
                forall|t: int| 0 <= t < i ==> (#[trigger] cones@[t]).wf(),
                forall|t: int| 0 <= t < i ==> sp_matches_desc(#[trigger] cones@[t], types@[t]),
                type_counts@.len() == NKINDS,
                forall|t: int|
                    0 <= t < NKINDS ==> type_counts@[t] == sp_count_kind(
                        types@.take(i as int),
                        t,
                    ),
                is_sym == sp_all_symmetric(cones@),
            decreases n_types - i,
        {
            let ghost cs_old = cones@;
            let ghost flag_old = is_sym;
            let c = types[i];
            let idx = kind_index_of(&c);
            proof {
                lemma_take_step(types@, i as int);
                lemma_count_le(types@.take(i as int), idx as int);
            }
            let cnt = type_counts[idx];
            type_counts[idx] = cnt + 1;
            let co = make_cone(c);
            let csym = co.is_symmetric();
            cones.push(co);
            is_sym = is_sym && csym;
            proof {
                assert forall|t: int|
                    0 <= t < NKINDS implies type_counts@[t] == sp_count_kind(
                        types@.take(i as int + 1),
                        t,
                    ) by {
                    assert(types@.take(i as int + 1).drop_last() =~= types@.take(i as int));
                    assert(types@.take(i as int + 1).last() == types@[i as int]);
                }
                let cs_new = cones@;
                if is_sym {
                    assert forall|t: int|
                        0 <= t < cs_new.len() implies (#[trigger] cs_new[t]).symmetric_s() by {
                        if t < i {
                            assert(cs_old[t].symmetric_s());
                        }
                    }
                } else {
                    if !csym {
                        assert(!cs_new[i as int].symmetric_s());
                        assert(!sp_all_symmetric(cs_new));
                    } else {
                        assert(!flag_old);
                        assert(!sp_all_symmetric(cs_old));
                        let t = choose|t: int|
                            0 <= t < cs_old.len() && !(#[trigger] cs_old[t]).symmetric_s();
                        assert(!cs_new[t].symmetric_s());
                        assert(!sp_all_symmetric(cs_new));
                    }
                }
            }
            i += 1;
        }
        proof {
            assert(types@.take(n_types as int) =~= types@);
            lemma_folds_match(cones@, types@);
        }
        let mut numel: usize = 0;
        let mut degree: usize = 0;
        let mut j: usize = 0;
        while j < n_types
            invariant
                j <= n_types,
                n_types == types@.len(),
                cones@.len() == n_types,
                forall|t: int| 0 <= t < cones@.len() ==> (#[trigger] cones@[t]).wf(),
                sp_cones_numel(cones@) <= usize::MAX,
                sp_cones_degree(cones@) <= usize::MAX,
                numel == sp_cones_numel(cones@.take(j as int)),
                degree == sp_cones_degree(cones@.take(j as int)),
            decreases n_types - j,
        {
            proof {
                lemma_take_step(cones@, j as int);
                assert(sp_cones_numel(cones@.take(j as int + 1)) == sp_cones_numel(
                    cones@.take(j as int),
                ) + cones@[j as int].numel_s());
                assert(sp_cones_degree(cones@.take(j as int + 1)) == sp_cones_degree(
                    cones@.take(j as int),
                ) + cones@[j as int].degree_s());
                lemma_cnumel_take_mono(cones@, j as int + 1, n_types as int);
                lemma_cdegree_take_mono(cones@, j as int + 1, n_types as int);
                assert(cones@.take(n_types as int) =~= cones@);
            }
            let nv = cones[j].numel();
            let dg = cones[j].degree();
            numel = numel + nv;
            degree = degree + dg;
            j += 1;
        }
        proof {
            assert(cones@.take(n_types as int) =~= cones@);
        }
        let rng_cones = _make_rng_cones(&cones);
        let rng_blocks = _make_rng_blocks(&cones);
        let mut types_own: Vec<SupportedCone> = Vec::new();
        let mut k: usize = 0;
        while k < n_types
            invariant
                k <= n_types,
                n_types == types@.len(),
                types_own@.len() == k,
                forall|t: int| 0 <= t < k ==> types_own@[t] == types@[t],
            decreases n_types - k,
        {
            let tv = types[k];
            types_own.push(tv);
            k += 1;
        }
        proof {
            assert(types_own@ =~= types@);
        }
        CompositeCone {
            cones,
            types: types_own,
            type_counts,
            numel,
            degree,
            rng_cones,
            rng_blocks,
            _is_symmetric: is_sym,
        }
    }

    /// Number of member cones.
    pub fn len(&self) -> (r: usize)
        ensures
            r == self.cones_s().len(),
    {
        self.cones.len()
    }

    /// Whether the composite has no members.
    pub fn is_empty(&self) -> (r: bool)
        ensures
            r == (self.cones_s().len() == 0),
    {
        self.cones.is_empty()
    }

    /// The member cone at position `i`, in construction order.
    pub fn get_cone(&self, i: usize) -> (r: &ConeObj)
        requires
            i < self.cones_s().len(),
        ensures
            *r == self.cones_s()[i as int],
    {
        &self.cones[i]
    }

    /// Occurrence count of the given descriptor's kind; kinds that never
    /// occur count zero.
    pub fn type_count(&self, kind: &SupportedCone) -> (r: usize)
        requires
            self.wf(),
        ensures
            r == sp_count_kind(self.types_s(), kind_index(*kind)),
    {
        let idx = kind_index_of(kind);
        self.type_counts[idx]
    }

    /// Total ambient size: the sum of the member sizes.
    pub fn numel(&self) -> (r: usize)
        ensures
            r as int == self.numel_s(),
    {
        self.numel
    }

    /// Total barrier degree: the sum of the member degrees.
    pub fn degree(&self) -> (r: usize)
        ensures
            r as int == self.degree_s(),
    {
        self.degree
    }

    /// Whether every member is symmetric; false as soon as one
    /// exponential cone is present.
    pub fn is_symmetric(&self) -> (r: bool)
        ensures
            r == self.symmetric_s(),
    {
        self._is_symmetric
    }
}

impl CompositeCone {
    /// Move a possibly-infeasible point into the interior, member by
    /// member: each member rewrites its own slice of `z`.
    pub fn shift_to_cone(&self, z: &mut Vec<Scalar>)
        requires
            self.wf(),
            old(z)@.len() == self.numel_s(),
        ensures
            final(z)@.len() == old(z)@.len(),
            forall|i: int, k: int|
                #![trigger self.rngs_s()[i].start, final(z)@[k]]
                0 <= i < self.cones_s().len() && self.rngs_s()[i].start <= k < self.rngs_s()[i].stop
                    ==> final(z)@[k] == shift_elem(
                    self.cones_s()[i],
                    old(z)@,
                    self.rngs_s()[i].start as int,
                    k,
                ),
    {
        let ghost z0 = z@;
        let n = self.cones.len();
        let mut i: usize = 0;
        while i < n
            invariant
                self.wf(),
                n == self.cones@.len(),
                i <= n,
                z@.len() == z0.len(),
                z0.len() == self.numel,
                forall|t: int, k: int|
                    #![trigger self.rng_cones@[t].start, z@[k]]
                    0 <= t < i && self.rng_cones@[t].start <= k < self.rng_cones@[t].stop ==> z@[k]
                        == shift_elem(
                        self.cones@[t],
                        z0,
                        self.rng_cones@[t].start as int,
                        k,
                    ),
                forall|k: int|
                    sp_cones_numel(self.cones@.take(i as int)) <= k < z0.len() ==> z@[k] == z0[k],
            decreases n - i,
        {
            proof {
                self.lemma_rng_inside(i as int);
            }
            let start = self.rng_cones[i].start;
            let ghost z_pre = z@;
            let co = &self.cones[i];
            co.shift_to_cone(z, start);
            proof {
                let ci = self.cones@[i as int];
                let lo = start as int;
                let hi = self.rng_cones@[i as int].stop as int;
                assert forall|k: int| lo <= k < hi implies z@[k] == shift_elem(ci, z0, lo, k) by {
                    assert(z@[k] == shift_elem(ci, z_pre, lo, k));
                    lemma_shift_elem_congr(ci, z_pre, z0, lo, k);
                }
                assert forall|t: int, k: int|
                    #![trigger self.rng_cones@[t].start, z@[k]]
                    0 <= t < i + 1 && self.rng_cones@[t].start <= k < self.rng_cones@[t].stop
                        implies z@[k] == shift_elem(
                        self.cones@[t],
                        z0,
                        self.rng_cones@[t].start as int,
                        k,
                    ) by {
                    if t < i {
                        self.lemma_rng_ordered(t, i as int);
                        assert(z@[k] == z_pre[k]);
                        assert(z_pre[k] == shift_elem(
                            self.cones@[t],
                            z0,
                            self.rng_cones@[t].start as int,
                            k,
                        ));
                    }
                }
                assert forall|k: int|
                    sp_cones_numel(self.cones@.take(i as int + 1)) <= k < z0.len() implies z@[k]
                        == z0[k] by {
                    assert(z@[k] == z_pre[k]);
                }
            }
            i += 1;
        }
    }
}

/// A kind- and size-preserving member update preserves the composite
/// invariant.
proof fn lemma_shape_preserves_wf(c0: CompositeCone, c1: CompositeCone)
    requires
        c0.wf(),
        c1.types@ == c0.types@,
        c1.type_counts@ == c0.type_counts@,
        c1.rng_cones@ == c0.rng_cones@,
        c1.rng_blocks@ == c0.rng_blocks@,
        c1.numel == c0.numel,
        c1.degree == c0.degree,
        c1._is_symmetric == c0._is_symmetric,
        c1.cones@.len() == c0.cones@.len(),
        forall|i: int|
            0 <= i < c1.cones@.len() ==> (#[trigger] c1.cones@[i]).wf() && c1.cones@[i].shape_eq(
                c0.cones@[i],
            ),
    ensures
        c1.wf(),
{
    assert forall|i: int|
        0 <= i < c1.rng_cones@.len() implies (#[trigger] c1.rng_cones@[i]).start == sp_cones_numel(
        c1.cones@.take(i),
    ) && c1.rng_cones@[i].stop == sp_cones_numel(c1.cones@.take(i + 1)) by {
        lemma_folds_congr(c1.cones@.take(i), c0.cones@.take(i));
        lemma_folds_congr(c1.cones@.take(i + 1), c0.cones@.take(i + 1));
    }
    assert forall|i: int|
        0 <= i < c1.rng_blocks@.len() implies (#[trigger] c1.rng_blocks@[i]).start
        == sp_cones_block(c1.cones@.take(i)) && c1.rng_blocks@[i].stop == sp_cones_block(
        c1.cones@.take(i + 1),
    ) by {
        lemma_folds_congr(c1.cones@.take(i), c0.cones@.take(i));
        lemma_folds_congr(c1.cones@.take(i + 1), c0.cones@.take(i + 1));
    }
    lemma_folds_congr(c1.cones@, c0.cones@);
    assert forall|i: int|
        0 <= i < c1.cones@.len() implies sp_matches_desc(
        #[trigger] c1.cones@[i],
        c1.types@[i],
    ) by {
        assert(sp_matches_desc(c0.cones@[i], c0.types@[i]));
    }
    assert(c1._is_symmetric == sp_all_symmetric(c1.cones@)) by {
        assert forall|i: int|
            0 <= i < c1.cones@.len() implies (#[trigger] c1.cones@[i]).symmetric_s()
            == c0.cones@[i].symmetric_s() by {
            assert(kind_of_obj(c1.cones@[i]) == kind_of_obj(c0.cones@[i]));
        }
        if sp_all_symmetric(c0.cones@) {
            assert forall|i: int|
                0 <= i < c1.cones@.len() implies (#[trigger] c1.cones@[i]).symmetric_s() by {
                assert(c0.cones@[i].symmetric_s());
            }
        } else {
            let w = choose|i: int|
                0 <= i < c0.cones@.len() && !(#[trigger] c0.cones@[i]).symmetric_s();
            assert(!c1.cones@[w].symmetric_s());
        }
    }
}

impl CompositeCone {
    /// Write the canonical centered interior starting point of every
    /// member into its slices of `z` and `s`.
    pub fn unit_initialization(&self, z: &mut Vec<Scalar>, s: &mut Vec<Scalar>)
        requires
            self.wf(),
            old(z)@.len() == self.numel_s(),
            old(s)@.len() == self.numel_s(),
        ensures
            final(z)@.len() == old(z)@.len(),
            final(s)@.len() == old(s)@.len(),
            forall|i: int, k: int|
                #![trigger self.rngs_s()[i].start, final(z)@[k]]
                0 <= i < self.cones_s().len() && self.rngs_s()[i].start <= k < self.rngs_s()[i].stop
                    ==> final(z)@[k] == unit_elem(
                    self.cones_s()[i],
                    k - self.rngs_s()[i].start,
                ),
            forall|i: int, k: int|
                #![trigger self.rngs_s()[i].start, final(s)@[k]]
                0 <= i < self.cones_s().len() && self.rngs_s()[i].start <= k < self.rngs_s()[i].stop
                    ==> final(s)@[k] == unit_elem(
                    self.cones_s()[i],
                    k - self.rngs_s()[i].start,
                ),
    {
        let ghost z0 = z@;
        let ghost s0 = s@;
        let n = self.cones.len();
        let mut i: usize = 0;
        while i < n
            invariant
                self.wf(),
                n == self.cones@.len(),
                i <= n,
                z@.len() == z0.len(),
                s@.len() == s0.len(),
                z0.len() == self.numel,
                s0.len() == self.numel,
                forall|t: int, k: int|
                    #![trigger self.rng_cones@[t].start, z@[k]]
                    0 <= t < i && self.rng_cones@[t].start <= k < self.rng_cones@[t].stop ==> z@[k]
                        == unit_elem(self.cones@[t], k - self.rng_cones@[t].start),
                forall|t: int, k: int|
                    #![trigger self.rng_cones@[t].start, s@[k]]
                    0 <= t < i && self.rng_cones@[t].start <= k < self.rng_cones@[t].stop ==> s@[k]
                        == unit_elem(self.cones@[t], k - self.rng_cones@[t].start),
            decreases n - i,
        {
            proof {
                self.lemma_rng_inside(i as int);
            }
            let start = self.rng_cones[i].start;
            let ghost z_pre = z@;
            let ghost s_pre = s@;
            let co = &self.cones[i];
            co.unit_initialization(z, s, start);
            proof {
                assert forall|t: int, k: int|
                    #![trigger self.rng_cones@[t].start, z@[k]]
                    0 <= t < i + 1 && self.rng_cones@[t].start <= k < self.rng_cones@[t].stop
                        implies z@[k] == unit_elem(
                        self.cones@[t],
                        k - self.rng_cones@[t].start,
                    ) by {
                    if t < i {
                        self.lemma_rng_ordered(t, i as int);
                        assert(z@[k] == z_pre[k]);
                    }
                }
                assert forall|t: int, k: int|
                    #![trigger self.rng_cones@[t].start, s@[k]]
                    0 <= t < i + 1 && self.rng_cones@[t].start <= k < self.rng_cones@[t].stop
                        implies s@[k] == unit_elem(
                        self.cones@[t],
                        k - self.rng_cones@[t].start,
                    ) by {
                    if t < i {
                        self.lemma_rng_ordered(t, i as int);
                        assert(s@[k] == s_pre[k]);
                    }
                }
            }
            i += 1;
        }
    }

    /// Adjust a proposed equilibration: the whole buffer defaults to
    /// ones, each member rewrites its slice, and the flag reports whether
    /// any member changed anything.
    pub fn rectify_equilibration(&self, delta: &mut Vec<Scalar>, e: &Vec<Scalar>) -> (r: bool)
        requires
            self.wf(),
            old(delta)@.len() == self.numel_s(),
            e@.len() == self.numel_s(),
        ensures
            final(delta)@.len() == old(delta)@.len(),
            forall|i: int, k: int|
                #![trigger self.rngs_s()[i].start, final(delta)@[k]]
                0 <= i < self.cones_s().len() && self.rngs_s()[i].start <= k < self.rngs_s()[i].stop
                    ==> final(delta)@[k] == rect_delta_elem(
                    self.cones_s()[i],
                    e@,
                    self.rngs_s()[i].start as int,
                    k,
                ),
            r == (exists|i: int|
                0 <= i < self.cones_s().len() && (#[trigger] self.cones_s()[i]) is Exponential),
    {
        crate::vector::fill(delta, Scalar::Num(crate::scalar::SCALE));
        let n = self.cones.len();
        let mut any_changed = false;
        let mut i: usize = 0;
        while i < n
            invariant
                self.wf(),
                n == self.cones@.len(),
                i <= n,
                delta@.len() == self.numel,
                e@.len() == self.numel,
                forall|t: int, k: int|
                    #![trigger self.rng_cones@[t].start, delta@[k]]
                    0 <= t < i && self.rng_cones@[t].start <= k < self.rng_cones@[t].stop
                        ==> delta@[k] == rect_delta_elem(
                        self.cones@[t],
                        e@,
                        self.rng_cones@[t].start as int,
                        k,
                    ),
                any_changed == (exists|t: int|
                    0 <= t < i && (#[trigger] self.cones@[t]) is Exponential),
            decreases n - i,
        {
            proof {
                self.lemma_rng_inside(i as int);
            }
            let start = self.rng_cones[i].start;
            let ghost d_pre = delta@;
            let ghost any_old = any_changed;
            let co = &self.cones[i];
            let ch = co.rectify_equilibration(delta, e, start);
            any_changed = any_changed || ch;
            proof {
                assert forall|t: int, k: int|
                    #![trigger self.rng_cones@[t].start, delta@[k]]
                    0 <= t < i + 1 && self.rng_cones@[t].start <= k < self.rng_cones@[t].stop
                        implies delta@[k] == rect_delta_elem(
                        self.cones@[t],
                        e@,
                        self.rng_cones@[t].start as int,
                        k,
                    ) by {
                    if t < i {
                        self.lemma_rng_ordered(t, i as int);
                        assert(delta@[k] == d_pre[k]);
                    }
                }
                if any_changed {
                    if ch {
                        assert(self.cones@[i as int] is Exponential);
                    } else {
                        let w = choose|t: int|
                            0 <= t < i && (#[trigger] self.cones@[t]) is Exponential;
                        assert(0 <= w < i + 1 && self.cones@[w] is Exponential);
                    }
                } else {
                    assert forall|t: int|
                        0 <= t < i + 1 implies !((#[trigger] self.cones@[t]) is Exponential) by {
                        if t < i {
                            assert(!any_old);
                        }
                    }
                }
            }
            i += 1;
        }
        any_changed
    }

    /// Whether every member's scaled-Hessian block is diagonal.
    #[allow(non_snake_case)]
    pub fn Hs_is_diagonal(&self) -> (r: bool)
        requires
            self.wf(),
        ensures
            r == sp_all_hs_diag(self.cones_s()),
    {
        let n = self.cones.len();
        let mut is_diag = true;
        let mut i: usize = 0;
        while i < n
            invariant
                self.wf(),
                n == self.cones@.len(),
                i <= n,
                is_diag == (forall|t: int| 0 <= t < i ==> (#[trigger] self.cones@[t]).hs_diag_s()),
            decreases n - i,
        {
            let ghost old_diag = is_diag;
            let d = self.cones[i].Hs_is_diagonal();
            is_diag = is_diag && d;
            proof {
                if is_diag {
                    assert forall|t: int|
                        0 <= t < i + 1 implies (#[trigger] self.cones@[t]).hs_diag_s() by {
                        if t < i {
                            assert(old_diag);
                        }
                    }
                } else {
                    if !d {
                        assert(!self.cones@[i as int].hs_diag_s());
                    } else {
                        let w = choose|t: int|
                            0 <= t < i && !(#[trigger] self.cones@[t]).hs_diag_s();
                        assert(!self.cones@[w].hs_diag_s());
                    }
                }
            }
            i += 1;
        }
        is_diag
    }

    /// Write every member's scaled-Hessian block into its slice of the
    /// block storage.
    #[allow(non_snake_case)]
    pub fn get_Hs(&self, hsblock: &mut Vec<Scalar>)
        requires
            self.wf(),
            old(hsblock)@.len() == self.blocks_total_s(),
        ensures
            final(hsblock)@.len() == old(hsblock)@.len(),
            forall|i: int, t: int|
                #![trigger self.rngb_s()[i].start, hs_elem(self.cones_s()[i], t)]
                0 <= i < self.cones_s().len() && 0 <= t < self.cones_s()[i].block_s() ==> final(hsblock)@[self.rngb_s()[i].start + t] == hs_elem(self.cones_s()[i], t),
    {
        let ghost h0 = hsblock@;
        let n = self.cones.len();
        let mut i: usize = 0;
        while i < n
            invariant
                self.wf(),
                n == self.cones@.len(),
                i <= n,
                hsblock@.len() == h0.len(),
                h0.len() == sp_cones_block(self.cones@),
                forall|t: int, u: int|
                    #![trigger self.rng_blocks@[t].start, hs_elem(self.cones@[t], u)]
                    0 <= t < i && 0 <= u < self.cones@[t].block_s() ==> hsblock@[self.rng_blocks@[t].start + u]
                        == hs_elem(self.cones@[t], u),
                forall|k: int|
                    sp_cones_block(self.cones@.take(i as int)) <= k < h0.len() ==> hsblock@[k]
                        == h0[k],
            decreases n - i,
        {
            proof {
                self.lemma_rng_inside(i as int);
            }
            let start = self.rng_blocks[i].start;
            let ghost h_pre = hsblock@;
            let co = &self.cones[i];
            co.get_Hs(hsblock, start);
            proof {
                assert forall|t: int, u: int|
                    #![trigger self.rng_blocks@[t].start, hs_elem(self.cones@[t], u)]
                    0 <= t < i + 1 && 0 <= u < self.cones@[t].block_s() implies hsblock@[self.rng_blocks@[t].start
                    + u] == hs_elem(self.cones@[t], u) by {
                    if t < i {
                        self.lemma_rng_ordered(t, i as int);
                        self.lemma_rng_inside(t);
                        assert(hsblock@[self.rng_blocks@[t].start + u] == h_pre[self.rng_blocks@[t].start + u]);
                    }
                }
                assert forall|k: int|
                    sp_cones_block(self.cones@.take(i as int + 1)) <= k < h0.len() implies hsblock@[k]
                        == h0[k] by {
                    assert(hsblock@[k] == h_pre[k]);
                }
            }
            i += 1;
        }
    }

    /// Apply the scaled-Hessian operator member by member: each member
    /// maps its slice of `x` into its slice of `y`, with `work` as
    /// untouched scratch.
    #[allow(non_snake_case)]
    pub fn mul_Hs(&self, y: &mut Vec<Scalar>, x: &Vec<Scalar>, work: &mut Vec<Scalar>)
        requires
            self.wf(),
            old(y)@.len() == self.numel_s(),
            x@.len() == self.numel_s(),
            old(work)@.len() == self.numel_s(),
        ensures
            final(y)@.len() == old(y)@.len(),
            final(work)@ == old(work)@,
            forall|i: int, k: int|
                #![trigger self.rngs_s()[i].start, final(y)@[k]]
                0 <= i < self.cones_s().len() && self.rngs_s()[i].start <= k < self.rngs_s()[i].stop
                    ==> final(y)@[k] == mul_hs_elem(
                    self.cones_s()[i],
                    x@,
                    self.rngs_s()[i].start as int,
                    k,
                ),
    {
        let n = self.cones.len();
        let mut i: usize = 0;
        while i < n
            invariant
                self.wf(),
                n == self.cones@.len(),
                i <= n,
                y@.len() == self.numel,
                x@.len() == self.numel,
                work@ == old(work)@,
                work@.len() == self.numel,
                forall|t: int, k: int|
                    #![trigger self.rng_cones@[t].start, y@[k]]
                    0 <= t < i && self.rng_cones@[t].start <= k < self.rng_cones@[t].stop ==> y@[k]
                        == mul_hs_elem(
                        self.cones@[t],
                        x@,
                        self.rng_cones@[t].start as int,
                        k,
                    ),
            decreases n - i,
        {
            proof {
                self.lemma_rng_inside(i as int);
            }
            let start = self.rng_cones[i].start;
            let ghost y_pre = y@;
            let co = &self.cones[i];
            co.mul_Hs(y, x, work, start);
            proof {
                assert forall|t: int, k: int|
                    #![trigger self.rng_cones@[t].start, y@[k]]
                    0 <= t < i + 1 && self.rng_cones@[t].start <= k < self.rng_cones@[t].stop
                        implies y@[k] == mul_hs_elem(
                        self.cones@[t],
                        x@,
                        self.rng_cones@[t].start as int,
                        k,
                    ) by {
                    if t < i {
                        self.lemma_rng_ordered(t, i as int);
                        assert(y@[k] == y_pre[k]);
                    }
                }
            }
            i += 1;
        }
    }

    /// Compute the affine-step slack contribution member by member.
    pub fn affine_ds(&self, ds: &mut Vec<Scalar>, s: &Vec<Scalar>)
        requires
            self.wf(),
            old(ds)@.len() == self.numel_s(),
            s@.len() == self.numel_s(),
        ensures
            final(ds)@.len() == old(ds)@.len(),
            forall|i: int, k: int|
                #![trigger self.rngs_s()[i].start, final(ds)@[k]]
                0 <= i < self.cones_s().len() && self.rngs_s()[i].start <= k < self.rngs_s()[i].stop
                    ==> final(ds)@[k] == affine_elem(
                    self.cones_s()[i],
                    s@,
                    self.rngs_s()[i].start as int,
                    k,
                ),
    {
        let n = self.cones.len();
        let mut i: usize = 0;
        while i < n
            invariant
                self.wf(),
                n == self.cones@.len(),
                i <= n,
                ds@.len() == self.numel,
                s@.len() == self.numel,
                forall|t: int, k: int|
                    #![trigger self.rng_cones@[t].start, ds@[k]]
                    0 <= t < i && self.rng_cones@[t].start <= k < self.rng_cones@[t].stop ==> ds@[k]
                        == affine_elem(
                        self.cones@[t],
                        s@,
                        self.rng_cones@[t].start as int,
                        k,
                    ),
            decreases n - i,
        {
            proof {
                self.lemma_rng_inside(i as int);
            }
            let start = self.rng_cones[i].start;
            let ghost d_pre = ds@;
            let co = &self.cones[i];
            co.affine_ds(ds, s, start);
            proof {
                assert forall|t: int, k: int|
                    #![trigger self.rng_cones@[t].start, ds@[k]]
                    0 <= t < i + 1 && self.rng_cones@[t].start <= k < self.rng_cones@[t].stop
                        implies ds@[k] == affine_elem(
                        self.cones@[t],
                        s@,
                        self.rng_cones@[t].start as int,
                        k,
                    ) by {
                    if t < i {
                        self.lemma_rng_ordered(t, i as int);
                        assert(ds@[k] == d_pre[k]);
                    }
                }
            }
            i += 1;
        }
    }

    /// Recover the slack step from the dual step plus offset, member by
    /// member, with `work` as untouched scratch.
    pub fn ds_from_dz_offset(&self, out: &mut Vec<Scalar>, ds: &Vec<Scalar>, work: &mut Vec<Scalar>)
        requires
            self.wf(),
            old(out)@.len() == self.numel_s(),
            ds@.len() == self.numel_s(),
            old(work)@.len() == self.numel_s(),
        ensures
            final(out)@.len() == old(out)@.len(),
            final(work)@ == old(work)@,
            forall|i: int, k: int|
                #![trigger self.rngs_s()[i].start, final(out)@[k]]
                0 <= i < self.cones_s().len() && self.rngs_s()[i].start <= k < self.rngs_s()[i].stop
                    ==> final(out)@[k] == dz_offset_elem(
                    self.cones_s()[i],
                    ds@,
                    self.rngs_s()[i].start as int,
                    k,
                ),
    {
        let n = self.cones.len();
        let mut i: usize = 0;
        while i < n
            invariant
                self.wf(),
                n == self.cones@.len(),
                i <= n,
                out@.len() == self.numel,
                ds@.len() == self.numel,
                work@ == old(work)@,
                work@.len() == self.numel,
                forall|t: int, k: int|
                    #![trigger self.rng_cones@[t].start, out@[k]]
                    0 <= t < i && self.rng_cones@[t].start <= k < self.rng_cones@[t].stop
                        ==> out@[k] == dz_offset_elem(
                        self.cones@[t],
                        ds@,
                        self.rng_cones@[t].start as int,
                        k,
                    ),
            decreases n - i,
        {
            proof {
                self.lemma_rng_inside(i as int);
            }
            let start = self.rng_cones[i].start;
            let ghost o_pre = out@;
            let co = &self.cones[i];
            co.ds_from_dz_offset(out, ds, work, start);
            proof {
                assert forall|t: int, k: int|
                    #![trigger self.rng_cones@[t].start, out@[k]]
                    0 <= t < i + 1 && self.rng_cones@[t].start <= k < self.rng_cones@[t].stop
                        implies out@[k] == dz_offset_elem(
                        self.cones@[t],
                        ds@,
                        self.rng_cones@[t].start as int,
                        k,
                    ) by {
                    if t < i {
                        self.lemma_rng_ordered(t, i as int);
                        assert(out@[k] == o_pre[k]);
                    }
                }
            }
            i += 1;
        }
    }

    /// Evaluate the composite barrier at the candidate step: the sum of
    /// the member barrier contributions.
    pub fn compute_barrier(
        &self,
        z: &Vec<Scalar>,
        s: &Vec<Scalar>,
        dz: &Vec<Scalar>,
        ds: &Vec<Scalar>,
        alpha: Scalar,
    ) -> (r: Scalar)
        requires
            self.wf(),
        ensures
            r == s_zero(),
    {
        let n = self.cones.len();
        let mut barrier = Scalar::Num(0);
        let mut i: usize = 0;
        while i < n
            invariant
                self.wf(),
                n == self.cones@.len(),
                i <= n,
                barrier == s_zero(),
            decreases n - i,
        {
            let start = self.rng_cones[i].start;
            let bi = self.cones[i].compute_barrier(z, s, dz, ds, start, alpha);
            barrier = sadd(barrier, bi);
            i += 1;
        }
        barrier
    }
}

/// The conservative ceiling applied to the step length when any member
/// is nonsymmetric: just under a full step, so the next iterate stays
/// strictly inside every nonsymmetric barrier domain.
pub open spec fn step_ceiling() -> Scalar {
    Scalar::Num(990_000)
}

/// One pass of the two-phase step-length protocol over the first `k`
/// members: only members whose symmetry matches `sym` tighten the
/// running bound, by the minimum with both of their step lengths.
pub open spec fn sp_phase(
    cs: Seq<ConeObj>,
    rngs: Seq<ConeRange>,
    dz: Seq<Scalar>,
    ds: Seq<Scalar>,
    z: Seq<Scalar>,
    s: Seq<Scalar>,
    alpha: Scalar,
    k: int,
    sym: bool,
) -> Scalar
    decreases k,
{
    if k <= 0 {
        alpha
    } else {
        let prev = sp_phase(cs, rngs, dz, ds, z, s, alpha, k - 1, sym);
        if cs[k - 1].symmetric_s() == sym {
            let st = sp_member_step(cs[k - 1], dz, ds, z, s, rngs[k - 1].start as int, prev);
            s_min(prev, s_min(st.0, st.1))
        } else {
            prev
        }
    }
}

impl CompositeCone {
    /// The whole step-length protocol: symmetric members first from the
    /// caller's bound, the ceiling clamp when the composite is not
    /// symmetric, then the nonsymmetric members from the tightened bound.
    pub closed spec fn sp_step_length_s(
        self,
        dz: Seq<Scalar>,
        ds: Seq<Scalar>,
        z: Seq<Scalar>,
        s: Seq<Scalar>,
        amax: Scalar,
    ) -> Scalar {
        let len = self.cones@.len() as int;
        let a1 = sp_phase(self.cones@, self.rng_cones@, dz, ds, z, s, amax, len, true);
        let a2 = if self._is_symmetric {
            a1
        } else {
            s_min(step_ceiling(), a1)
        };
        sp_phase(self.cones@, self.rng_cones@, dz, ds, z, s, a2, len, false)
    }

    /// Reset every member's scaling state to the identity transform.
    pub fn set_identity_scaling(&mut self)
        requires
            old(self).wf(),
        ensures
            final(self).wf(),
            final(self).types_s() == old(self).types_s(),
            final(self).rngs_s() == old(self).rngs_s(),
            final(self).rngb_s() == old(self).rngb_s(),
            final(self).numel_s() == old(self).numel_s(),
            final(self).degree_s() == old(self).degree_s(),
            final(self).symmetric_s() == old(self).symmetric_s(),
            final(self).cones_s().len() == old(self).cones_s().len(),
            forall|i: int|
                0 <= i < final(self).cones_s().len() ==> crate::cones::sp_identity_scaled(
                    #[trigger] final(self).cones_s()[i],
                ) && final(self).cones_s()[i].shape_eq(old(self).cones_s()[i]),
    {
        let ghost self0 = *self;
        let n = self.cones.len();
        let mut i: usize = 0;
        while i < n
            invariant
                n == self0.cones@.len(),
                i <= n,
                self0.wf(),
                self.types@ == self0.types@,
                self.type_counts@ == self0.type_counts@,
                self.rng_cones@ == self0.rng_cones@,
                self.rng_blocks@ == self0.rng_blocks@,
                self.numel == self0.numel,
                self.degree == self0.degree,
                self._is_symmetric == self0._is_symmetric,
                self.cones@.len() == n,
                forall|t: int|
                    0 <= t < n ==> (#[trigger] self.cones@[t]).wf() && self.cones@[t].shape_eq(
                        self0.cones@[t],
                    ),
                forall|t: int|
                    0 <= t < i ==> crate::cones::sp_identity_scaled(#[trigger] self.cones@[t]),
                forall|t: int| i <= t < n ==> self.cones@[t] == self0.cones@[t],
            decreases n - i,
        {
            let co = &mut self.cones[i];
            co.set_identity_scaling();
            i += 1;
        }
        proof {
            lemma_shape_preserves_wf(self0, *self);
        }
    }

    /// Recompute every member's primal-dual scaling from its slices of
    /// the current iterate; the barrier parameter and the strategy token
    /// are forwarded opaquely.
    pub fn update_scaling(
        &mut self,
        s: &Vec<Scalar>,
        z: &Vec<Scalar>,
        mu: Scalar,
        scaling_strategy: ScalingStrategy,
    )
        requires
            old(self).wf(),
            s@.len() == old(self).numel_s(),
            z@.len() == old(self).numel_s(),
        ensures
            final(self).wf(),
            final(self).types_s() == old(self).types_s(),
            final(self).rngs_s() == old(self).rngs_s(),
            final(self).rngb_s() == old(self).rngb_s(),
            final(self).numel_s() == old(self).numel_s(),
            final(self).degree_s() == old(self).degree_s(),
            final(self).symmetric_s() == old(self).symmetric_s(),
            final(self).cones_s().len() == old(self).cones_s().len(),
            forall|i: int|
                0 <= i < final(self).cones_s().len() ==> upd_scaling_rel(
                    old(self).cones_s()[i],
                    #[trigger] final(self).cones_s()[i],
                    s@,
                    z@,
                    old(self).rngs_s()[i].start as int,
                ),
    {
        let ghost self0 = *self;
        let n = self.cones.len();
        let mut i: usize = 0;
        while i < n
            invariant
                n == self0.cones@.len(),
                i <= n,
                self0.wf(),
                s@.len() == self0.numel,
                z@.len() == self0.numel,
                self.types@ == self0.types@,
                self.type_counts@ == self0.type_counts@,
                self.rng_cones@ == self0.rng_cones@,
                self.rng_blocks@ == self0.rng_blocks@,
                self.numel == self0.numel,
                self.degree == self0.degree,
                self._is_symmetric == self0._is_symmetric,
                self.cones@.len() == n,
                forall|t: int|
                    0 <= t < n ==> (#[trigger] self.cones@[t]).wf() && self.cones@[t].shape_eq(
                        self0.cones@[t],
                    ),
                forall|t: int|
                    0 <= t < i ==> upd_scaling_rel(
                        self0.cones@[t],
                        #[trigger] self.cones@[t],
                        s@,
                        z@,
                        self0.rng_cones@[t].start as int,
                    ),
                forall|t: int| i <= t < n ==> self.cones@[t] == self0.cones@[t],
            decreases n - i,
        {
            proof {
                self0.lemma_rng_inside(i as int);
            }
            let start = self.rng_cones[i].start;
            let co = &mut self.cones[i];
            co.update_scaling(s, z, start, mu, scaling_strategy);
            i += 1;
        }
        proof {
            lemma_shape_preserves_wf(self0, *self);
        }
    }

    /// Compute the centering-corrector shift member by member. The
    /// receiver is exclusive because nonsymmetric kinds may update
    /// internal state while computing the shift; the kinds realized here
    /// leave it unchanged.
    pub fn combined_ds_shift(
        &mut self,
        shift: &mut Vec<Scalar>,
        step_z: &Vec<Scalar>,
        step_s: &Vec<Scalar>,
        sigma_mu: Scalar,
    )
        requires
            old(self).wf(),
            old(shift)@.len() == old(self).numel_s(),
            step_z@.len() == old(self).numel_s(),
            step_s@.len() == old(self).numel_s(),
        ensures
            final(self).wf(),
            final(self).cones_s() == old(self).cones_s(),
            final(self).types_s() == old(self).types_s(),
            final(self).rngs_s() == old(self).rngs_s(),
            final(self).rngb_s() == old(self).rngb_s(),
            final(self).numel_s() == old(self).numel_s(),
            final(self).symmetric_s() == old(self).symmetric_s(),
            final(shift)@.len() == old(shift)@.len(),
            forall|i: int, k: int|
                #![trigger old(self).rngs_s()[i].start, final(shift)@[k]]
                0 <= i < old(self).cones_s().len() && old(self).rngs_s()[i].start <= k < old(
                    self,
                ).rngs_s()[i].stop ==> final(shift)@[k] == ds_shift_elem(
                    old(self).cones_s()[i],
                    step_z@,
                    step_s@,
                    old(self).rngs_s()[i].start as int,
                    k,
                    sigma_mu,
                ),
    {
        let ghost self0 = *self;
        let n = self.cones.len();
        let mut i: usize = 0;
        while i < n
            invariant
                n == self0.cones@.len(),
                i <= n,
                self0.wf(),
                shift@.len() == self0.numel,
                step_z@.len() == self0.numel,
                step_s@.len() == self0.numel,
                self.types@ == self0.types@,
                self.type_counts@ == self0.type_counts@,
                self.rng_cones@ == self0.rng_cones@,
                self.rng_blocks@ == self0.rng_blocks@,
                self.numel == self0.numel,
                self.degree == self0.degree,
                self._is_symmetric == self0._is_symmetric,
                self.cones@ == self0.cones@,
                forall|t: int, k: int|
                    #![trigger self.rng_cones@[t].start, shift@[k]]
                    0 <= t < i && self.rng_cones@[t].start <= k < self.rng_cones@[t].stop
                        ==> shift@[k] == ds_shift_elem(
                        self.cones@[t],
                        step_z@,
                        step_s@,
                        self.rng_cones@[t].start as int,
                        k,
                        sigma_mu,
                    ),
            decreases n - i,
        {
            proof {
                self0.lemma_rng_inside(i as int);
            }
            let start = self.rng_cones[i].start;
            let ghost sh_pre = shift@;
            let co = &mut self.cones[i];
            co.combined_ds_shift(shift, step_z, step_s, start, sigma_mu);
            proof {
                assert(self.cones@ =~= self0.cones@);
                assert forall|t: int, k: int|
                    #![trigger self.rng_cones@[t].start, shift@[k]]
                    0 <= t < i + 1 && self.rng_cones@[t].start <= k < self.rng_cones@[t].stop
                        implies shift@[k] == ds_shift_elem(
                        self.cones@[t],
                        step_z@,
                        step_s@,
                        self.rng_cones@[t].start as int,
                        k,
                        sigma_mu,
                    ) by {
                    if t < i {
                        self0.lemma_rng_ordered(t, i as int);
                        assert(shift@[k] == sh_pre[k]);
                    }
                }
            }
            i += 1;
        }
    }

    /// Two-phase step length: symmetric members tighten the caller's
    /// bound first; if any member is nonsymmetric the bound is clamped
    /// to the conservative ceiling before the nonsymmetric members
    /// tighten it further. One scalar bound is returned for both the
    /// primal and the dual step.
    pub fn step_length(
        &self,
        dz: &Vec<Scalar>,
        ds: &Vec<Scalar>,
        z: &Vec<Scalar>,
        s: &Vec<Scalar>,
        settings: &CoreSettings,
        alpha_max: Scalar,
    ) -> (r: (Scalar, Scalar))
        requires
            self.wf(),
            dz@.len() == self.numel_s(),
            ds@.len() == self.numel_s(),
            z@.len() == self.numel_s(),
            s@.len() == self.numel_s(),
        ensures
            r.0 == r.1,
            r.0 == self.sp_step_length_s(dz@, ds@, z@, s@, alpha_max),
            !s_lt(alpha_max, r.0),
            !self.symmetric_s() ==> !s_lt(step_ceiling(), r.0) && r.0 != Scalar::Nan,
    {
        let mut alpha = alpha_max;
        let n = self.cones.len();
        let mut i: usize = 0;
        while i < n
            invariant
                self.wf(),
                n == self.cones@.len(),
                i <= n,
                dz@.len() == self.numel,
                ds@.len() == self.numel,
                z@.len() == self.numel,
                s@.len() == self.numel,
                alpha == sp_phase(
                    self.cones@,
                    self.rng_cones@,
                    dz@,
                    ds@,
                    z@,
                    s@,
                    alpha_max,
                    i as int,
                    true,
                ),
                !s_lt(alpha_max, alpha),
                alpha_max != Scalar::Nan ==> alpha != Scalar::Nan,
            decreases n - i,
        {
            proof {
                self.lemma_rng_inside(i as int);
            }
            let co = &self.cones[i];
            if co.is_symmetric() {
                let start = self.rng_cones[i].start;
                let st = co.step_length(dz, ds, z, s, start, settings, alpha);
                let ghost alpha_old = alpha;
                let m = smin(st.0, st.1);
                alpha = smin(alpha, m);
                proof {
                    if alpha_max != Scalar::Nan {
                        lemma_smin_keeps_bound(alpha_max, alpha_old, s_min(st.0, st.1));
                    }
                }
            }
            i += 1;
        }
        if !self._is_symmetric {
            alpha = smin(Scalar::Num(990_000), alpha);
            proof {
                assert(!s_lt(alpha_max, alpha));
                assert(alpha != Scalar::Nan);
                assert(!s_lt(step_ceiling(), alpha));
            }
        }
        let ghost a2 = alpha;
        let mut j: usize = 0;
        while j < n
            invariant
                self.wf(),
                n == self.cones@.len(),
                j <= n,
                dz@.len() == self.numel,
                ds@.len() == self.numel,
                z@.len() == self.numel,
                s@.len() == self.numel,
                alpha == sp_phase(
                    self.cones@,
                    self.rng_cones@,
                    dz@,
                    ds@,
                    z@,
                    s@,
                    a2,
                    j as int,
                    false,
                ),
                !s_lt(alpha_max, alpha),
                alpha_max != Scalar::Nan ==> alpha != Scalar::Nan,
                !self._is_symmetric ==> alpha != Scalar::Nan && !s_lt(step_ceiling(), alpha),
            decreases n - j,
        {
            proof {
                self.lemma_rng_inside(j as int);
            }
            let co = &self.cones[j];
            if !co.is_symmetric() {
                let start = self.rng_cones[j].start;
                let st = co.step_length(dz, ds, z, s, start, settings, alpha);
                let ghost alpha_old = alpha;
                let m = smin(st.0, st.1);
                alpha = smin(alpha, m);
                proof {
                    if alpha_max != Scalar::Nan {
                        lemma_smin_keeps_bound(alpha_max, alpha_old, s_min(st.0, st.1));
                    }
                    if !self._is_symmetric {
                        lemma_smin_keeps_bound(step_ceiling(), alpha_old, s_min(st.0, st.1));
                    }
                }
            }
            j += 1;
        }
        (alpha, alpha)
    }
}

} // verus!
