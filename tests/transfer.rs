use potions::constant::{PROGRESS_ONE, VOLUME_EPSILON};
use potions::{Layer, Object, ObjectFlags, Point, Transfer, Vial};

fn liquid(id: usize, volume: u32) -> Layer {
    Layer::Liquid { id, volume }
}

fn vial(layers: Vec<Layer>) -> Vial {
    Vial { layers, ..Default::default() }
}

#[test]
fn test_pour() {
    let a = vial(vec![liquid(0, 50_000)]);
    let b = Vial::default();
    assert_eq!(a.vol(), 50_000);
    assert_eq!(b.vol(), 0);
    if let Some(transfer) = a.pour(&b) {
        assert!(matches!(transfer, Transfer::Liquid));
        if let Some((a, b)) = transfer.lerp(&a, &b, PROGRESS_ONE) {
            assert_eq!(a.vol(), 0);
            assert_eq!(b.vol(), 50_000);
        } else {
            panic!();
        }
    } else {
        panic!();
    };
}

#[test]
fn pour_stepped_to_completion() {
    let mut a = vial(vec![liquid(0, 50_000)]);
    let mut b = Vial::default();
    let transfer = a.pour(&b).expect("transfer");
    assert_eq!(transfer, Transfer::Liquid);
    let mut t: u32 = 100;
    let mut steps = 0;
    while let Some((a2, b2)) = transfer.lerp(&a, &b, t) {
        a = a2;
        b = b2;
        t += 100;
        steps += 1;
    }
    assert_eq!(a.vol(), 0);
    assert_eq!(b.vol(), 50_000);
    assert!(a.layers.is_empty());
    assert_eq!(b.layers, vec![liquid(0, 50_000)]);
    assert_eq!(steps, 4);
}

#[test]
fn liquid_step_pours_fraction_of_room() {
    let a = vial(vec![liquid(0, 50_000)]);
    let b = Vial::default();
    let (a2, b2) = Transfer::Liquid.lerp(&a, &b, 100).expect("step");
    assert_eq!(a2.layers, vec![liquid(0, 40_000)]);
    assert_eq!(b2.layers, vec![liquid(0, 10_000)]);
    let (a3, b3) = Transfer::Liquid.lerp(&a2, &b2, 200).expect("step");
    assert_eq!(a3.layers, vec![liquid(0, 22_000)]);
    assert_eq!(b3.layers, vec![liquid(0, 28_000)]);
}

#[test]
fn volume_is_conserved_over_a_transfer() {
    let mut a = vial(vec![liquid(1, 30_000), liquid(0, 45_000)]);
    let mut b = vial(vec![liquid(2, 20_000), liquid(0, 10_000)]);
    let before = a.vol() + b.vol();
    let transfer = a.pour(&b).expect("transfer");
    let mut t: u32 = 100;
    while let Some((a2, b2)) = transfer.lerp(&a, &b, t) {
        a = a2;
        b = b2;
        let after = a.vol() + b.vol();
        assert!(after <= before && before <= after + VOLUME_EPSILON);
        assert!(b.vol() <= b.max_volume);
        t += 100;
    }
    assert_eq!(a.layers, vec![liquid(1, 30_000)]);
    assert_eq!(b.layers, vec![liquid(2, 20_000), liquid(0, 55_000)]);
}

#[test]
fn headroom_never_exceeded() {
    let mut a = vial(vec![liquid(3, 90_000)]);
    let mut b = vial(vec![liquid(3, 60_000)]);
    let transfer = a.pour(&b).expect("transfer");
    let mut t: u32 = 100;
    while let Some((a2, b2)) = transfer.lerp(&a, &b, t) {
        a = a2;
        b = b2;
        assert!(b.vol() <= b.max_volume);
        t += 100;
    }
    assert_eq!(b.vol(), b.max_volume);
    assert_eq!(a.vol() + b.vol(), 150_000);
    assert!(a.pour(&b).is_none());
}

#[test]
fn lerp_ends_past_full_progress() {
    let a = vial(vec![liquid(0, 50_000)]);
    let b = Vial::default();
    assert!(Transfer::Liquid.lerp(&a, &b, PROGRESS_ONE + 1).is_none());
}

#[test]
fn lerp_freezes_on_colour_mismatch() {
    let a = vial(vec![liquid(0, 50_000)]);
    let b = vial(vec![liquid(1, 10_000)]);
    assert!(Transfer::Liquid.lerp(&a, &b, 500).is_none());
}

#[test]
fn result_is_full_progress() {
    let a = vial(vec![liquid(0, 50_000)]);
    let b = vial(vec![liquid(0, 80_000)]);
    let (a2, b2) = Transfer::Liquid.result(&a, &b);
    assert_eq!(a2.layers, vec![liquid(0, 30_000)]);
    assert_eq!(b2.layers, vec![liquid(0, 100_000)]);
}

#[test]
fn near_empty_remainder_is_discarded() {
    let a = vial(vec![liquid(0, 20_005)]);
    let b = vial(vec![liquid(0, 80_000)]);
    let (a2, b2) = Transfer::Liquid.lerp(&a, &b, PROGRESS_ONE).expect("step");
    assert!(a2.layers.is_empty());
    assert_eq!(b2.vol(), 100_000);
}

fn object(id: u64, x: i64, y: i64, size: u64) -> Object {
    Object { pos: Point { x, y }, size, id, ..Default::default() }
}

#[test]
fn object_transfer_moves_level_objects() {
    let a = Vial {
        objects: vec![object(1, 1_000, 5_000, 2_000), object(2, 2_000, 5_050, 500), object(3, 3_000, 1_000, 500)],
        ..Default::default()
    };
    let b = Vial::default();
    assert_eq!(a.pour(&b), Some(Transfer::Object));
    let (a2, b2) = Transfer::Object.lerp(&a, &b, 0).expect("step");
    assert_eq!(a2.objects.len(), 1);
    assert_eq!(a2.objects[0].id, 3);
    assert_eq!(b2.objects.len(), 2);
    assert_eq!(b2.objects[0].id, 2);
    assert_eq!(b2.objects[1].id, 1);
    for o in &b2.objects {
        assert_eq!(o.pos.y, b.size.y);
        assert!(o.flags.enter_vial);
    }
    assert!(b2.objects[1].flags.expect_break);
    assert!(!b2.objects[0].flags.expect_break);
    assert!(Transfer::Object.lerp(&a, &b, PROGRESS_ONE + 1).is_none());
    assert!(Transfer::Object.lerp(&Vial::default(), &b, 0).is_none());
}

#[test]
fn floating_objects_follow_the_liquid() {
    let a = Vial {
        layers: vec![liquid(1, 25_000), liquid(0, 25_000)],
        objects: vec![object(1, 1_000, 30_000, 1_000), object(2, 2_000, 70_000, 1_000), object(3, 3_000, 1_000, 1_000)],
        ..Default::default()
    };
    let b = Vial::default();
    let (a2, b2) = Transfer::Liquid.lerp(&a, &b, 500).expect("step");
    assert_eq!(a2.objects.iter().map(|o| o.id).collect::<Vec<_>>(), vec![1, 3]);
    assert_eq!(b2.objects.len(), 1);
    assert_eq!(b2.objects[0].id, 2);
    assert_eq!(b2.objects[0].pos.y, 75_000);
    assert_eq!(
        b2.objects[0].flags,
        ObjectFlags { enter_vial: true, expect_break: false, break_now: false }
    );
}
