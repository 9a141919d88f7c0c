use conic_core::composite::CompositeCone;
use conic_core::cones::{make_cone, ConeObj, CoreSettings, ScalingStrategy, SupportedCone};
use conic_core::scalar::Scalar;

fn num(x: i64) -> Scalar {
    Scalar::Num(x * 1_000_000)
}

fn settings() -> CoreSettings {
    CoreSettings { min_terminate_step_length: Scalar::Num(1) }
}

#[test]
fn composite_zero2_nonneg3_partition() {
    let types = vec![SupportedCone::ZeroConeT(2), SupportedCone::NonnegativeConeT(3)];
    let cc = CompositeCone::new(&types);
    assert_eq!(cc.numel(), 5);
    assert_eq!(cc.len(), 2);
    assert!(!cc.is_empty());
    assert_eq!(cc.rng_cones[0].start, 0);
    assert_eq!(cc.rng_cones[0].stop, 2);
    assert_eq!(cc.rng_cones[1].start, 2);
    assert_eq!(cc.rng_cones[1].stop, 5);
    assert_eq!(cc.type_count(&SupportedCone::ZeroConeT(0)), 1);
    assert_eq!(cc.type_count(&SupportedCone::NonnegativeConeT(0)), 1);
    assert!(cc.is_symmetric());
    assert_eq!(cc.degree(), 3);
}

#[test]
fn composite_kind_counts() {
    let types = vec![
        SupportedCone::ZeroConeT(3),
        SupportedCone::NonnegativeConeT(5),
        SupportedCone::NonnegativeConeT(2),
    ];
    let cc = CompositeCone::new(&types);
    assert_eq!(cc.type_count(&SupportedCone::NonnegativeConeT(99)), 2);
    assert_eq!(cc.type_count(&SupportedCone::SecondOrderConeT(4)), 0);
    assert_eq!(cc.type_count(&SupportedCone::ExponentialConeT()), 0);
}

#[test]
fn descriptor_equality_is_kind_only() {
    assert!(SupportedCone::ZeroConeT(3) == SupportedCone::ZeroConeT(7));
    assert!(SupportedCone::NonnegativeConeT(1) == SupportedCone::NonnegativeConeT(9));
    assert!(SupportedCone::ZeroConeT(3) != SupportedCone::NonnegativeConeT(3));
    assert!(SupportedCone::ExponentialConeT() == SupportedCone::ExponentialConeT());
    assert!(SupportedCone::SecondOrderConeT(2) != SupportedCone::ExponentialConeT());
}

#[test]
fn descriptor_names_and_nvars() {
    assert_eq!(SupportedCone::ZeroConeT(4).variant_name(), "ZeroConeT");
    assert_eq!(SupportedCone::NonnegativeConeT(4).variant_name(), "NonnegativeConeT");
    assert_eq!(SupportedCone::SecondOrderConeT(4).variant_name(), "SecondOrderConeT");
    assert_eq!(SupportedCone::ExponentialConeT().variant_name(), "ExponentialConeT");
    assert_eq!(SupportedCone::PlaceHolderT(4, num(2)).variant_name(), "PlaceHolderConeT");
    assert_eq!(SupportedCone::ZeroConeT(4).nvars(), 4);
    assert_eq!(SupportedCone::ExponentialConeT().nvars(), 3);
    assert_eq!(SupportedCone::PlaceHolderT(6, num(2)).nvars(), 6);
}

#[test]
fn make_cone_builds_each_kind() {
    let z = make_cone(SupportedCone::ZeroConeT(4));
    assert_eq!(z.numel(), 4);
    assert_eq!(z.degree(), 0);
    assert!(z.is_symmetric());
    assert!(z.Hs_is_diagonal());

    let nn = make_cone(SupportedCone::NonnegativeConeT(2));
    assert_eq!(nn.numel(), 2);
    assert_eq!(nn.degree(), 2);
    assert!(nn.is_symmetric());
    assert!(nn.Hs_is_diagonal());

    let so = make_cone(SupportedCone::SecondOrderConeT(3));
    assert_eq!(so.numel(), 3);
    assert_eq!(so.degree(), 1);
    assert!(so.is_symmetric());
    assert!(!so.Hs_is_diagonal());

    let ex = make_cone(SupportedCone::ExponentialConeT());
    assert_eq!(ex.numel(), 3);
    assert_eq!(ex.degree(), 3);
    assert!(!ex.is_symmetric());
    assert!(!ex.Hs_is_diagonal());
}

#[test]
fn step_length_symmetric_members_respect_bound() {
    let types = vec![SupportedCone::ZeroConeT(2), SupportedCone::NonnegativeConeT(1)];
    let cc = CompositeCone::new(&types);
    // Nonnegative coordinate z = s = 1 moving with direction -2: the
    // ratio test caps the step at 1/2.
    let dz = vec![num(0), num(0), num(-2)];
    let ds = vec![num(0), num(0), num(-2)];
    let z = vec![num(0), num(0), num(1)];
    let s = vec![num(0), num(0), num(1)];
    let (az, asx) = cc.step_length(&dz, &ds, &z, &s, &settings(), num(2));
    assert_eq!(az, asx);
    assert_eq!(az, Scalar::Num(500_000));

    // With nothing blocking, the caller's bound comes back unchanged.
    let dz2 = vec![num(0), num(0), num(1)];
    let ds2 = vec![num(0), num(0), num(1)];
    let (az2, as2) = cc.step_length(&dz2, &ds2, &z, &s, &settings(), num(2));
    assert_eq!(az2, as2);
    assert_eq!(az2, num(2));
}

#[test]
fn step_length_nonsymmetric_composite_hits_ceiling() {
    let types = vec![SupportedCone::NonnegativeConeT(1), SupportedCone::ExponentialConeT()];
    let cc = CompositeCone::new(&types);
    assert!(!cc.is_symmetric());
    let dz = vec![num(1), num(0), num(0), num(0)];
    let ds = vec![num(1), num(0), num(0), num(0)];
    let z = vec![num(1), num(1), num(1), num(1)];
    let s = vec![num(1), num(1), num(1), num(1)];
    let (az, asx) = cc.step_length(&dz, &ds, &z, &s, &settings(), num(2));
    assert_eq!(az, asx);
    assert_eq!(az, Scalar::Num(990_000));
}

#[test]
fn unit_initialization_writes_canonical_points() {
    let types = vec![SupportedCone::ZeroConeT(1), SupportedCone::NonnegativeConeT(2)];
    let cc = CompositeCone::new(&types);
    let mut z = vec![num(9); 3];
    let mut s = vec![num(9); 3];
    cc.unit_initialization(&mut z, &mut s);
    assert_eq!(z, vec![num(0), num(1), num(1)]);
    assert_eq!(s, vec![num(0), num(1), num(1)]);
}

#[test]
fn shift_to_cone_moves_into_interior() {
    let types = vec![SupportedCone::ZeroConeT(1), SupportedCone::NonnegativeConeT(2)];
    let cc = CompositeCone::new(&types);
    let mut z = vec![num(7), num(-1), num(3)];
    cc.shift_to_cone(&mut z);
    // The zero cone pins its slice to the origin; the orthant's minimum
    // was -1, so its slice moves up by 1 - (-1) = 2.
    assert_eq!(z, vec![num(0), num(1), num(5)]);

    let mut z2 = vec![num(0), num(2), num(3)];
    cc.shift_to_cone(&mut z2);
    assert_eq!(z2, vec![num(0), num(2), num(3)]);
}

#[test]
fn rectify_equilibration_mean_ratio_for_exponential() {
    let types = vec![SupportedCone::ExponentialConeT()];
    let cc = CompositeCone::new(&types);
    let e = vec![num(1), num(2), num(3)];
    let mut delta = vec![num(0); 3];
    let changed = cc.rectify_equilibration(&mut delta, &e);
    assert!(changed);
    assert_eq!(delta[0], num(2));
    assert_eq!(delta[1], num(1));
    assert_eq!(delta[2], Scalar::Num(666_666));

    let types = vec![SupportedCone::NonnegativeConeT(2)];
    let cc = CompositeCone::new(&types);
    let e = vec![num(5), num(6)];
    let mut delta = vec![num(0); 2];
    let changed = cc.rectify_equilibration(&mut delta, &e);
    assert!(!changed);
    assert_eq!(delta, vec![num(1), num(1)]);
}

#[test]
fn scaling_updates_drive_hessian_blocks() {
    let types = vec![SupportedCone::NonnegativeConeT(1)];
    let mut cc = CompositeCone::new(&types);
    let s = vec![num(4)];
    let z = vec![num(1)];
    cc.update_scaling(&s, &z, num(1), ScalingStrategy::PrimalDual);
    let mut hs = vec![num(0)];
    cc.get_Hs(&mut hs);
    // w = sqrt(s/z) = 2, so the diagonal block holds w^2 = 4.
    assert_eq!(hs, vec![num(4)]);

    let x = vec![num(3)];
    let mut y = vec![num(0)];
    let mut work = vec![num(0)];
    cc.mul_Hs(&mut y, &x, &mut work);
    assert_eq!(y, vec![num(12)]);

    // lambda = sqrt(s*z) = 2, so the affine slack update is lambda^2.
    let mut ds = vec![num(0)];
    cc.affine_ds(&mut ds, &s);
    assert_eq!(ds, vec![num(4)]);

    let mut out = vec![num(0)];
    let dsv = vec![num(6)];
    cc.ds_from_dz_offset(&mut out, &dsv, &mut work);
    assert_eq!(out, vec![num(3)]);

    cc.set_identity_scaling();
    let mut hs2 = vec![num(0)];
    cc.get_Hs(&mut hs2);
    assert_eq!(hs2, vec![num(1)]);
}

#[test]
fn packed_triangle_blocks_for_second_order() {
    let types = vec![SupportedCone::SecondOrderConeT(2)];
    let cc = CompositeCone::new(&types);
    assert_eq!(cc.rng_blocks[0].start, 0);
    assert_eq!(cc.rng_blocks[0].stop, 3);
    let mut hs = vec![num(9); 3];
    cc.get_Hs(&mut hs);
    assert_eq!(hs, vec![num(1), num(0), num(1)]);
    assert!(!cc.Hs_is_diagonal());

    let diag_types = vec![SupportedCone::ZeroConeT(1), SupportedCone::NonnegativeConeT(1)];
    let dc = CompositeCone::new(&diag_types);
    assert!(dc.Hs_is_diagonal());
}

#[test]
fn combined_ds_shift_mehrotra_form() {
    let types = vec![SupportedCone::NonnegativeConeT(2)];
    let mut cc = CompositeCone::new(&types);
    let step_z = vec![num(2), num(3)];
    let step_s = vec![num(5), num(7)];
    let mut shift = vec![num(0); 2];
    cc.combined_ds_shift(&mut shift, &step_z, &step_s, num(1));
    assert_eq!(shift, vec![num(9), num(20)]);
}

#[test]
fn compute_barrier_aggregates_to_zero() {
    let types = vec![SupportedCone::ZeroConeT(2), SupportedCone::NonnegativeConeT(2)];
    let cc = CompositeCone::new(&types);
    let v = vec![num(1); 4];
    let b = cc.compute_barrier(&v, &v, &v, &v, num(1));
    assert_eq!(b, num(0));
}

#[test]
fn range_builders_partition_ambient_and_block_space() {
    let cones: Vec<ConeObj> = vec![
        make_cone(SupportedCone::ZeroConeT(2)),
        make_cone(SupportedCone::SecondOrderConeT(3)),
        make_cone(SupportedCone::NonnegativeConeT(1)),
    ];
    let rngs = conic_core::composite::_make_rng_cones(&cones);
    assert_eq!(rngs.len(), 3);
    assert_eq!((rngs[0].start, rngs[0].stop), (0, 2));
    assert_eq!((rngs[1].start, rngs[1].stop), (2, 5));
    assert_eq!((rngs[2].start, rngs[2].stop), (5, 6));
    // The second-order block is packed triangular: 3*4/2 = 6 entries.
    let blocks = conic_core::composite::_make_rng_blocks(&cones);
    assert_eq!((blocks[0].start, blocks[0].stop), (0, 2));
    assert_eq!((blocks[1].start, blocks[1].stop), (2, 8));
    assert_eq!((blocks[2].start, blocks[2].stop), (8, 9));
}

#[test]
fn headidx_chains_from_second_slot() {
    let cones: Vec<ConeObj> = vec![
        make_cone(SupportedCone::NonnegativeConeT(2)),
        make_cone(SupportedCone::NonnegativeConeT(3)),
        make_cone(SupportedCone::NonnegativeConeT(4)),
    ];
    let mut headidx: Vec<usize> = vec![9, 7, 0];
    conic_core::composite::_make_headidx(&mut headidx, &cones);
    assert_eq!(headidx, vec![0, 7, 10]);
}

#[test]
fn empty_composite_has_no_extent() {
    let types: Vec<SupportedCone> = vec![];
    let cc = CompositeCone::new(&types);
    assert_eq!(cc.numel(), 0);
    assert_eq!(cc.degree(), 0);
    assert_eq!(cc.len(), 0);
    assert!(cc.is_empty());
    assert!(cc.is_symmetric());
    assert_eq!(cc.type_count(&SupportedCone::ZeroConeT(0)), 0);
}

#[test]
fn exponential_block_is_packed_identity_of_order_three() {
    let types = vec![SupportedCone::ExponentialConeT()];
    let cc = CompositeCone::new(&types);
    assert_eq!(cc.rng_blocks[0].stop, 6);
    let mut hs = vec![num(9); 6];
    cc.get_Hs(&mut hs);
    assert_eq!(hs, vec![num(1), num(0), num(1), num(0), num(0), num(1)]);
}

#[test]
fn get_cone_exposes_members_in_order() {
    let types = vec![SupportedCone::ZeroConeT(1), SupportedCone::ExponentialConeT()];
    let cc = CompositeCone::new(&types);
    assert_eq!(cc.get_cone(0).numel(), 1);
    assert_eq!(cc.get_cone(1).numel(), 3);
    assert!(!cc.get_cone(1).is_symmetric());
}
