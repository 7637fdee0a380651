use potions::constant::VOLUME_EPSILON;
use potions::{Layer, Object, ObjectFlags, Palette, Point, Transfer, Transition, Vial, VialLoc, rgb};

fn liquid(id: usize, volume: u32) -> Layer {
    Layer::Liquid { id, volume }
}

fn vial(layers: Vec<Layer>) -> Vial {
    Vial { layers, ..Default::default() }
}

#[test]
fn default_vial() {
    let v = Vial::default();
    assert!(v.layers.is_empty());
    assert!(v.objects.is_empty());
    assert_eq!(v.max_volume, 100_000);
    assert_eq!(v.size, Point { x: 25_000, y: 75_000 });
    assert_eq!(v.vol(), 0);
}

#[test]
fn vol_sums_layers() {
    let v = vial(vec![liquid(0, 50_000), liquid(1, 25_000), liquid(2, 25_000)]);
    assert_eq!(v.vol(), 100_000);
    assert_eq!(v.layers[1].volume(), 25_000);
    assert_eq!(v.layers[2].id(), 2);
}

#[test]
fn pour_needs_matching_colour_and_room() {
    let a = vial(vec![liquid(0, 50_000)]);
    let same = vial(vec![liquid(0, 10_000)]);
    let other = vial(vec![liquid(1, 10_000)]);
    let full = vial(vec![liquid(0, 100_000)]);
    assert_eq!(a.pour(&Vial::default()), Some(Transfer::Liquid));
    assert_eq!(a.pour(&same), Some(Transfer::Liquid));
    assert_eq!(a.pour(&other), None);
    assert_eq!(other.pour(&a), None);
    assert_eq!(a.pour(&full), None);
    assert_eq!(full.pour(&a), Some(Transfer::Liquid));
    assert_eq!(Vial::default().pour(&a), None);
}

#[test]
fn pour_mismatch_ignores_objects() {
    let a = Vial {
        layers: vec![liquid(0, 50_000)],
        objects: vec![Object::default()],
        ..Default::default()
    };
    let b = vial(vec![liquid(1, 10_000)]);
    assert_eq!(a.pour(&b), None);
    let empty_with_object = Vial { objects: vec![Object::default()], ..Default::default() };
    assert_eq!(empty_with_object.pour(&b), Some(Transfer::Object));
}

#[test]
fn discard_empties_once_and_twice() {
    let mut v = vial(vec![liquid(0, 50_000), liquid(1, VOLUME_EPSILON)]);
    v.discard_empties();
    assert_eq!(v.layers, vec![liquid(0, 50_000)]);
    v.discard_empties();
    assert_eq!(v.layers, vec![liquid(0, 50_000)]);
    let mut w = vial(vec![liquid(0, 50_000), liquid(1, VOLUME_EPSILON + 1)]);
    w.discard_empties();
    assert_eq!(w.layers.len(), 2);
}

#[test]
fn in_layer_locates_points() {
    let v = vial(vec![liquid(0, 50_000), liquid(1, 25_000)]);
    let at = |y: i64, r: u64| v.in_layer(Point { x: 0, y }, r);
    assert_eq!(at(10_000, 0), Some(VialLoc::Layer { index: 0, height: 37_500 }));
    assert_eq!(at(37_500, 0), Some(VialLoc::Layer { index: 1, height: 56_250 }));
    assert_eq!(at(37_000, 1_000), Some(VialLoc::Layer { index: 0, height: 37_500 }));
    assert_eq!(at(60_000, 0), Some(VialLoc::Top { height: 75_000 }));
    assert_eq!(at(75_000, 0), None);
    assert_eq!(at(75_000, 1), Some(VialLoc::Top { height: 75_000 }));
}

#[test]
fn mix_merges_top_two_layers() {
    let mut palette = Palette::new(vec![rgb(255, 0, 0), rgb(0, 255, 0), rgb(0, 0, 255)]);
    let mut v = vial(vec![liquid(0, 50_000), liquid(1, 25_000), liquid(2, 25_000)]);
    let blended = rgb(0, 128, 128);
    assert!(v.mix(&mut palette, blended));
    assert_eq!(v.layers, vec![liquid(0, 50_000), liquid(3, 50_000)]);
    assert_eq!(palette.len(), 4);
    assert_eq!(palette.color(&v.layers[1]), blended);

    let mut w = vial(vec![liquid(5, 10_000), liquid(1, 25_000), liquid(2, 25_000)]);
    let mut palette2 = Palette::new(vec![rgb(255, 0, 0), rgb(0, 255, 0), rgb(0, 0, 255)]);
    assert!(w.mix(&mut palette2, blended));
    assert_eq!(w.layers.last(), v.layers.last());
    assert_eq!(palette2.0, palette.0);

    let mut single = vial(vec![liquid(0, 50_000)]);
    assert!(!single.mix(&mut palette, blended));
    assert_eq!(single.layers, vec![liquid(0, 50_000)]);
    assert_eq!(palette.len(), 4);
}

#[test]
fn transition_breaks_flagged_objects() {
    let breaking = Object {
        size: 2_000,
        id: 1,
        flags: ObjectFlags { enter_vial: true, expect_break: false, break_now: true },
        ..Default::default()
    };
    let v = Vial { objects: vec![breaking, Object { id: 7, ..Default::default() }], ..Default::default() };
    match v.transition() {
        Some(Transition::BreakSeed(w)) => {
            assert_eq!(w.objects.len(), 3);
            assert_eq!(w.objects[0].size, 1_000);
            assert!(!w.objects[0].flags.break_now);
            assert_eq!(w.objects[0].id, 1);
            assert_eq!(w.objects[1].id, 7);
            assert_eq!(w.objects[2].size, 1_000);
            assert_eq!(w.objects[2].id, 256);
            assert!(!w.objects[2].flags.break_now);
            assert!(w.transition().is_none());
        }
        _ => panic!(),
    }
    assert!(Vial::default().transition().is_none());
}

#[test]
fn palette_from_seed_spins_hue() {
    let p = Palette::from_seed(rgb(255, 0, 0), 3);
    assert_eq!(p.len(), 3);
    assert_ne!(p.0[0], p.0[1]);
    assert_ne!(p.0[1], p.0[2]);
    assert_eq!(Palette::from_seed(rgb(255, 0, 0), 0).len(), 0);
}

#[test]
fn is_valid_checks_capacity_and_size() {
    assert!(vial(vec![liquid(0, 60_000), liquid(1, 40_000)]).is_valid());
    assert!(!vial(vec![liquid(0, 60_000), liquid(1, 40_001)]).is_valid());
    assert!(!Vial { max_volume: 0, ..Default::default() }.is_valid());
    assert!(!Vial { size: Point { x: 1, y: -1 }, ..Default::default() }.is_valid());
}

#[test]
fn project_copies_positions_and_reports_stale_bodies() {
    let o = |id: u64| Object { id, ..Default::default() };
    let mut v = Vial { objects: vec![o(4), o(9)], ..Default::default() };
    let bodies = vec![(9, Point { x: 5, y: 6 }), (7, Point { x: 1, y: 1 }), (4, Point { x: -2, y: 3 })];
    let (stale, all_found) = v.project(&bodies);
    assert_eq!(stale, vec![1]);
    assert!(all_found);
    assert_eq!(v.objects[0].pos, Point { x: -2, y: 3 });
    assert_eq!(v.objects[1].pos, Point { x: 5, y: 6 });
    let mut w = Vial { objects: vec![o(4), o(5)], ..Default::default() };
    let (stale, all_found) = w.project(&vec![(4, Point { x: 8, y: 8 })]);
    assert!(stale.is_empty());
    assert!(!all_found);
    assert_eq!(w.objects[1].pos, Point { x: 0, y: 0 });
}

#[test]
fn transition_pieces_get_unused_ids() {
    let breaking = |id: u64| Object {
        size: 2_000,
        id,
        flags: ObjectFlags { enter_vial: false, expect_break: false, break_now: true },
        ..Default::default()
    };
    let v = Vial { objects: vec![breaking(257)], ..Default::default() };
    match v.transition() {
        Some(Transition::BreakSeed(w)) => {
            assert_eq!(w.objects.len(), 2);
            assert_eq!(w.objects[0].id, 257);
            assert_eq!(w.objects[1].id, 256);
        }
        _ => panic!(),
    }
    let v = Vial { objects: vec![breaking(256), breaking(258), Object { id: 257, ..Default::default() }], ..Default::default() };
    match v.transition() {
        Some(Transition::BreakSeed(w)) => {
            let ids: Vec<u64> = w.objects.iter().map(|o| o.id).collect();
            assert_eq!(ids, vec![256, 258, 257, 259, 260]);
        }
        _ => panic!(),
    }
}
