use potions::user_data::{UserData, UserDataFlags};
use potions::script::Input;
use potions::{levels, Goal, Layer, Level, Object, ObjectKind, Transfer, Vial};

fn liquid(id: usize, volume: u32) -> Layer {
    Layer::Liquid { id, volume }
}

#[test]
fn unmix_scenario() {
    let mixed = Vial { layers: vec![liquid(0, 50_000), liquid(1, 25_000), liquid(2, 25_000)], ..Default::default() };
    assert!(!Goal::Unmix.is_complete(&[mixed.clone()]));
    let mut vials = vec![mixed, Vial::default(), Vial::default()];
    for dest in [2usize, 1] {
        let transfer = vials[0].pour(&vials[dest]).expect("transfer");
        let (a, b) = transfer.result(&vials[0], &vials[dest]);
        vials[0] = a;
        vials[dest] = b;
    }
    assert_eq!(vials[0].layers, vec![liquid(0, 50_000)]);
    assert_eq!(vials[1].layers, vec![liquid(1, 25_000)]);
    assert_eq!(vials[2].layers, vec![liquid(2, 25_000)]);
    assert!(Goal::Unmix.is_complete(&vials));
}

#[test]
fn break_seed_goal() {
    let seed = |size: u64| Object { kind: ObjectKind::Seed, size, ..Default::default() };
    let plant = Object { kind: ObjectKind::Plant, size: 5_000, ..Default::default() };
    let v = Vial { objects: vec![seed(1_000), plant.clone()], ..Default::default() };
    assert!(Goal::BreakSeed.is_complete(&[v]));
    let w = Vial { objects: vec![seed(2_000), plant], ..Default::default() };
    assert!(!Goal::BreakSeed.is_complete(&[w]));
    assert!(Goal::BreakSeed.is_complete(&[]));
}

#[test]
fn default_level() {
    let l = Level::default();
    assert_eq!(l.palette.len(), 3);
    assert!(l.potions.is_empty());
    assert_eq!(l.goal, Goal::Unmix);
}

#[test]
fn built_in_levels() {
    let ls = levels();
    assert_eq!(ls.len(), 4);
    assert_eq!(ls[0].goal, Goal::BreakSeed);
    assert_eq!(ls[0].potions[0].objects[0].size, 2_000);
    assert_eq!(ls[3].potions[0].vol(), 100_000);
    assert!(!ls[3].goal.is_complete(&ls[3].potions));
    assert_eq!(ls[0].potions[1].pour(&ls[0].potions[2]), Some(Transfer::Liquid));
    assert_eq!(ls[0].potions.len(), 3);
    assert_eq!(ls[0].potions[0].objects[0].id, 1);
    assert_eq!(ls[0].potions[0].objects[0].pos, potions::Point { x: 10_000, y: 10_000 });
    assert_eq!(ls[1].potions[0].layers, vec![liquid(0, 50_000), liquid(1, 50_000)]);
    assert_eq!(ls[2].potions[1].layers, vec![liquid(1, 50_000), liquid(2, 25_000)]);
    assert_eq!(ls[3].potions[0].layers, vec![liquid(0, 50_000), liquid(1, 25_000), liquid(2, 25_000)]);
    for l in &ls {
        assert_eq!(l.palette.0, Level::default().palette.0);
        for v in &l.potions {
            assert!(v.is_valid());
            assert!(v.layers.iter().all(|x| x.volume() > 0 && x.id() < l.palette.len()));
        }
    }
}

#[test]
fn user_data_packing() {
    let o = UserData::object(5);
    assert!(o.is_object() && !o.is_wall());
    let w = UserData::wall(9);
    assert!(w.is_wall() && !w.is_object());
    assert_eq!(u64::from(o), 0x105);
    assert_eq!(i64::from(w), 0x209);
    assert_eq!(u128::from(o), 0x105);
    assert_eq!(UserData::from_u64(0x105), Some(o));
    assert_eq!(UserData::from_i64(0x209), Some(w));
    assert_eq!(UserData::from_u128(0x7_0209), Some(w));
    assert_eq!(UserData::from_u64(0x405), None);
    assert_eq!(UserDataFlags::from_bits(3).map(|f| f.bits()), Some(3));
    assert_eq!(UserDataFlags::from_bits(4), None);
}

#[test]
fn script_input_ends_level() {
    assert!(Input::GoalReached.ends_level());
    assert!(Input::Abort.ends_level());
    assert!(!Input::BrokeSeed.ends_level());
}

#[test]
fn layer_ids_are_distinct_in_first_use_order() {
    let v1 = Vial { layers: vec![liquid(2, 10_000), liquid(0, 10_000), liquid(2, 10_000)], ..Default::default() };
    let v2 = Vial { layers: vec![liquid(1, 10_000), liquid(0, 10_000)], ..Default::default() };
    assert_eq!(Level::layer_ids(&[v1, v2]), vec![2, 0, 1]);
    assert!(Level::layer_ids(&[]).is_empty());
}
