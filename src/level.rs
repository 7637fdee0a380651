use vstd::prelude::*;
use crate::constant::BREAK_SIZE;
use crate::object::{Object, ObjectFlags, ObjectKind, Point};
use crate::vial::{rgb, total, Color, Layer, Vial, VialView};

verus! {

/// The colours that layer ids index.
#[derive(Clone, Debug)]
pub struct Palette(pub Vec<Color>);

impl View for Palette {
    type V = Seq<Color>;

    open spec fn view(&self) -> Seq<Color> {
        self.0@
    }
}

impl Palette {
    pub fn new(colors: Vec<Color>) -> (r: Palette)
        ensures
            r@ == colors@,
    {
        Palette(colors)
    }

    pub fn len(&self) -> (r: usize)
        ensures
            r == self@.len(),
    {
        self.0.len()
    }

    /// The colour of a layer.
    pub fn color(&self, layer: &Layer) -> (c: Color)
        requires
            layer.spec_id() < self@.len(),
        ensures
            c == self@[layer.spec_id() as int],
    {
        self.0[layer.id()]
    }
}

/// The colours that `kolorwheel` spins from `seed` in `count` steps.
pub uninterp spec fn wheel_colors(seed: Color, count: nat) -> Seq<Color>;

/// Relies on kolorwheel's `KolorWheel` iterator, spun a whole turn of hue
/// (end excluded): it yields exactly `count` colours, which depend on `seed`
/// and `count` alone.
#[verifier::external_body]
fn hue_wheel(seed: Color, count: usize) -> (r: Vec<Color>)
    ensures
        r@ == wheel_colors(seed, count as nat),
        r@.len() == count,
{
    let mut kw = kolorwheel::KolorWheel::new(
        kolorwheel::RgbColor { r: seed.red, g: seed.green, b: seed.blue },
        count,
    );
    kw.with_hue(kolorwheel::SpinMode::RelativeExcl(-360));
    kw.map(kolorwheel::RgbColor::from).map(|c| Color { red: c.r, green: c.g, blue: c.b }).collect()
}

impl Palette {
    /// `count` colours spread evenly around the hue circle, starting from `seed`.
    pub fn from_seed(seed: Color, count: usize) -> (r: Palette)
        ensures
            r@ == wheel_colors(seed, count as nat),
            r@.len() == count,
    {
        Palette::new(hue_wheel(seed, count))
    }
}

/// What a level asks of the player.
#[derive(Clone, Copy, Debug, PartialEq, Eq, Structural)]
pub enum Goal {
    /// Every vial holds at most one layer.
    Unmix,
    /// Every seed is broken down to at most `BREAK_SIZE`.
    BreakSeed,
}

pub open spec fn goal_met(goal: Goal, potions: Seq<Vial>) -> bool {
    match goal {
        Goal::Unmix => forall|i: int| 0 <= i < potions.len() ==> potions[i].layers@.len() <= 1,
        Goal::BreakSeed => forall|i: int, j: int|
            0 <= i < potions.len() && 0 <= j < potions[i].objects@.len()
                && potions[i].objects@[j].kind == ObjectKind::Seed
                ==> potions[i].objects@[j].size <= BREAK_SIZE,
    }
}

impl Goal {
    pub fn is_complete(&self, potions: &[Vial]) -> (r: bool)
        ensures
            r == goal_met(*self, potions@),
    {
        let mut i: usize = 0;
        while i < potions.len()
            invariant
                0 <= i <= potions.len(),
                goal_met(*self, potions@.take(i as int)),
            decreases potions.len() - i,
        {
            let p = &potions[i];
            match self {
                Goal::Unmix => {
                    if p.layers.len() > 1 {
                        assert(!goal_met(*self, potions@));
                        return false;
                    }
                },
                Goal::BreakSeed => {
                    let mut j: usize = 0;
                    while j < p.objects.len()
                        invariant
                            0 <= j <= p.objects.len(),
                            0 <= i < potions.len(),
                            *self == Goal::BreakSeed,
                            *p == potions@[i as int],
                            forall|k: int|
                                0 <= k < j && p.objects@[k].kind == ObjectKind::Seed
                                    ==> p.objects@[k].size <= BREAK_SIZE,
                        decreases p.objects.len() - j,
                    {
                        let o = p.objects[j];
                        if o.kind == ObjectKind::Seed && o.size > BREAK_SIZE {
                            assert(potions@[i as int].objects@[j as int] == o);
                            assert(!goal_met(*self, potions@));
                            return false;
                        }
                        j = j + 1;
                    }
                },
            }
            i = i + 1;
            assert(potions@.take(i as int).drop_last() =~= potions@.take(i - 1));
        }
        assert(potions@.take(i as int) =~= potions@);
        true
    }
}

/// A puzzle: a palette, the vials it starts with, and its goal.
#[derive(Debug)]
pub struct Level {
    pub palette: Palette,
    pub potions: Vec<Vial>,
    pub goal: Goal,
}

impl Level {
    /// Every vial is well formed, and every layer holds some liquid and has an
    /// id that indexes the palette.
    pub open spec fn wf(&self) -> bool {
        forall|i: int|
            0 <= i < self.potions@.len() ==> {
                &&& (#[trigger] self.potions@[i])@.wf()
                &&& forall|j: int|
                    0 <= j < self.potions@[i].layers@.len() ==> {
                        &&& self.potions@[i].layers@[j].spec_id() < self.palette@.len()
                        &&& self.potions@[i].layers@[j].spec_volume() > 0
                    }
            }
    }
}

impl Default for Level {
    fn default() -> (r: Level)
        ensures
            r.palette@ == seq![rgb_spec(255, 0, 0), rgb_spec(0, 255, 0), rgb_spec(0, 0, 255)],
            r.potions@.len() == 0,
            r.goal == Goal::Unmix,
    {
        let mut colors: Vec<Color> = Vec::new();
        colors.push(rgb(255, 0, 0));
        colors.push(rgb(0, 255, 0));
        colors.push(rgb(0, 0, 255));
        assert(colors@ =~= seq![rgb_spec(255, 0, 0), rgb_spec(0, 255, 0), rgb_spec(0, 0, 255)]);
        Level { palette: Palette::new(colors), potions: Vec::new(), goal: Goal::Unmix }
    }
}

pub open spec fn rgb_spec(r: u8, g: u8, b: u8) -> Color {
    Color { red: r, green: g, blue: b }
}

} // verus!

verus! {

fn liquid(id: usize, volume: u32) -> (l: Layer)
    ensures
        l == (Layer::Liquid { id, volume }),
{
    Layer::Liquid { id, volume }
}

/// A vial of the default capacity, size and glass holding `layers` and `objects`.
pub open spec fn starting_vial(layers: Seq<Layer>, objects: Seq<Object>) -> VialView {
    VialView {
        layers,
        objects,
        max_volume: 100_000,
        glass: rgb_spec(255, 255, 255),
        size: Point { x: 25_000, y: 75_000 },
    }
}

/// A seed at rest, flagged with nothing.
pub open spec fn seed_spec(x: i64, y: i64, size: u64, id: u64) -> Object {
    Object {
        kind: ObjectKind::Seed,
        pos: Point { x, y },
        size,
        id,
        flags: ObjectFlags::spec_none(),
    }
}

/// The palette every built-in level starts with: red, green, blue.
pub open spec fn primaries() -> Seq<Color> {
    seq![rgb_spec(255, 0, 0), rgb_spec(0, 255, 0), rgb_spec(0, 0, 255)]
}

/// The contents of `vials`.
pub open spec fn views(vials: Seq<Vial>) -> Seq<VialView> {
    vials.map_values(|v: Vial| v@)
}

pub open spec fn liquid_spec(id: usize, volume: u32) -> Layer {
    Layer::Liquid { id, volume }
}

fn layers(ls: &[Layer]) -> (v: Vec<Layer>)
    ensures
        v@ == ls@,
{
    let mut v: Vec<Layer> = Vec::new();
    let mut i: usize = 0;
    while i < ls.len()
        invariant
            0 <= i <= ls.len(),
            v@ == ls@.take(i as int),
        decreases ls.len() - i,
    {
        v.push(ls[i]);
        i = i + 1;
        assert(v@ =~= ls@.take(i as int));
    }
    assert(ls@.take(i as int) =~= ls@);
    v
}

fn objects(os: &[Object]) -> (v: Vec<Object>)
    ensures
        v@ == os@,
{
    let mut v: Vec<Object> = Vec::new();
    let mut i: usize = 0;
    while i < os.len()
        invariant
            0 <= i <= os.len(),
            v@ == os@.take(i as int),
        decreases os.len() - i,
    {
        v.push(os[i]);
        i = i + 1;
        assert(v@ =~= os@.take(i as int));
    }
    assert(os@.take(i as int) =~= os@);
    v
}

fn vial_of(layers: Vec<Layer>, objects: Vec<Object>) -> (v: Vial)
    requires
        total(layers@) <= 100_000,
    ensures
        v@ == starting_vial(layers@, objects@),
        v@.wf(),
{
    let mut v = Vial::default();
    v.layers = layers;
    v.objects = objects;
    v
}

fn seed(x: i64, y: i64, size: u64, id: u64) -> (o: Object)
    ensures
        o == seed_spec(x, y, size, id),
{
    Object { kind: ObjectKind::Seed, pos: Point { x, y }, size, id, flags: ObjectFlags::none() }
}

/// The puzzles, in order of play.
pub fn levels() -> (r: Vec<Level>)
    ensures
        r@.len() == 4,
        r@[0].goal == Goal::BreakSeed,
        forall|i: int| 1 <= i < 4 ==> r@[i].goal == Goal::Unmix,
        forall|i: int| 0 <= i < 4 ==> (#[trigger] r@[i]).wf(),
        forall|i: int| 0 <= i < 4 ==> (#[trigger] r@[i]).palette@ == primaries(),
        views(r@[0].potions@) == seq![
            starting_vial(seq![], seq![seed_spec(10_000, 10_000, 2_000, 1)]),
            starting_vial(seq![liquid_spec(0, 50_000)], seq![]),
            starting_vial(seq![], seq![]),
        ],
        views(r@[1].potions@) == seq![
            starting_vial(seq![liquid_spec(0, 50_000), liquid_spec(1, 50_000)], seq![]),
            starting_vial(seq![liquid_spec(1, 50_000)], seq![]),
        ],
        views(r@[2].potions@) == seq![
            starting_vial(seq![liquid_spec(0, 50_000), liquid_spec(1, 50_000)], seq![]),
            starting_vial(seq![liquid_spec(1, 50_000), liquid_spec(2, 25_000)], seq![]),
            starting_vial(seq![liquid_spec(2, 50_000)], seq![]),
        ],
        views(r@[3].potions@) == seq![
            starting_vial(
                seq![liquid_spec(0, 50_000), liquid_spec(1, 25_000), liquid_spec(2, 25_000)],
                seq![],
            ),
            starting_vial(seq![liquid_spec(1, 50_000), liquid_spec(2, 25_000)], seq![]),
            starting_vial(seq![liquid_spec(2, 50_000)], seq![]),
        ],
{
    reveal_with_fuel(total, 4);
    let v00 = vial_of(layers(&[]), objects(&[seed(10_000, 10_000, 2_000, 1)]));
    assert(v00@.layers =~= seq![]);
    assert(v00@.objects =~= seq![seed_spec(10_000, 10_000, 2_000, 1)]);
    let v01 = vial_of(layers(&[liquid(0, 50_000)]), objects(&[]));
    assert(v01@.layers =~= seq![liquid_spec(0, 50_000)]);
    assert(v01@.objects =~= seq![]);
    let v02 = vial_of(layers(&[]), objects(&[]));
    assert(v02@.layers =~= seq![]);
    assert(v02@.objects =~= seq![]);
    let l0 = Level {
        goal: Goal::BreakSeed,
        potions: vec![v00, v01, v02],
        ..Level::default()
    };
    let v10 = vial_of(layers(&[liquid(0, 50_000), liquid(1, 50_000)]), objects(&[]));
    assert(v10@.layers =~= seq![liquid_spec(0, 50_000), liquid_spec(1, 50_000)]);
    assert(v10@.objects =~= seq![]);
    let v11 = vial_of(layers(&[liquid(1, 50_000)]), objects(&[]));
    assert(v11@.layers =~= seq![liquid_spec(1, 50_000)]);
    assert(v11@.objects =~= seq![]);
    let l1 = Level {
        potions: vec![v10, v11],
        ..Level::default()
    };
    let v20 = vial_of(layers(&[liquid(0, 50_000), liquid(1, 50_000)]), objects(&[]));
    assert(v20@.layers =~= seq![liquid_spec(0, 50_000), liquid_spec(1, 50_000)]);
    assert(v20@.objects =~= seq![]);
    let v21 = vial_of(layers(&[liquid(1, 50_000), liquid(2, 25_000)]), objects(&[]));
    assert(v21@.layers =~= seq![liquid_spec(1, 50_000), liquid_spec(2, 25_000)]);
    assert(v21@.objects =~= seq![]);
    let v22 = vial_of(layers(&[liquid(2, 50_000)]), objects(&[]));
    assert(v22@.layers =~= seq![liquid_spec(2, 50_000)]);
    assert(v22@.objects =~= seq![]);
    let l2 = Level {
        potions: vec![v20, v21, v22],
        ..Level::default()
    };
    let v30 = vial_of(layers(&[liquid(0, 50_000), liquid(1, 25_000), liquid(2, 25_000)]), objects(&[]));
    assert(v30@.layers =~= seq![liquid_spec(0, 50_000), liquid_spec(1, 25_000), liquid_spec(2, 25_000)]);
    assert(v30@.objects =~= seq![]);
    let v31 = vial_of(layers(&[liquid(1, 50_000), liquid(2, 25_000)]), objects(&[]));
    assert(v31@.layers =~= seq![liquid_spec(1, 50_000), liquid_spec(2, 25_000)]);
    assert(v31@.objects =~= seq![]);
    let v32 = vial_of(layers(&[liquid(2, 50_000)]), objects(&[]));
    assert(v32@.layers =~= seq![liquid_spec(2, 50_000)]);
    assert(v32@.objects =~= seq![]);
    let l3 = Level {
        potions: vec![v30, v31, v32],
        ..Level::default()
    };
    assert(views(l0.potions@) =~= seq![
        starting_vial(seq![], seq![seed_spec(10_000, 10_000, 2_000, 1)]),
        starting_vial(seq![liquid_spec(0, 50_000)], seq![]),
        starting_vial(seq![], seq![]),
    ]);
    assert(views(l1.potions@) =~= seq![
        starting_vial(seq![liquid_spec(0, 50_000), liquid_spec(1, 50_000)], seq![]),
        starting_vial(seq![liquid_spec(1, 50_000)], seq![]),
    ]);
    assert(views(l2.potions@) =~= seq![
        starting_vial(seq![liquid_spec(0, 50_000), liquid_spec(1, 50_000)], seq![]),
        starting_vial(seq![liquid_spec(1, 50_000), liquid_spec(2, 25_000)], seq![]),
        starting_vial(seq![liquid_spec(2, 50_000)], seq![]),
    ]);
    assert(views(l3.potions@) =~= seq![
        starting_vial(
            seq![liquid_spec(0, 50_000), liquid_spec(1, 25_000), liquid_spec(2, 25_000)],
            seq![],
        ),
        starting_vial(seq![liquid_spec(1, 50_000), liquid_spec(2, 25_000)], seq![]),
        starting_vial(seq![liquid_spec(2, 50_000)], seq![]),
    ]);
    vec![l0, l1, l2, l3]
}

} // verus!

verus! {

/// The layer ids of `vials`, vial by vial, each from the bottom up.
pub open spec fn all_layer_ids(vials: Seq<Vial>) -> Seq<usize>
    decreases vials.len(),
{
    if vials.len() == 0 {
        seq![]
    } else {
        all_layer_ids(vials.drop_last()) + vials.last().layers@.map_values(|l: Layer| l.spec_id())
    }
}

/// `s` with every repeat of an earlier element left out.
pub open spec fn distinct(s: Seq<usize>) -> Seq<usize>
    decreases s.len(),
{
    if s.len() == 0 {
        seq![]
    } else {
        let d = distinct(s.drop_last());
        if d.contains(s.last()) {
            d
        } else {
            d.push(s.last())
        }
    }
}

impl Level {
    /// The ids that the layers of `vials` use, each once, in order of first use.
    pub fn layer_ids(vials: &[Vial]) -> (r: Vec<usize>)
        ensures
            r@ == distinct(all_layer_ids(vials@)),
    {
        let mut r: Vec<usize> = Vec::new();
        let mut i: usize = 0;
        while i < vials.len()
            invariant
                0 <= i <= vials.len(),
                r@ == distinct(all_layer_ids(vials@.take(i as int))),
            decreases vials.len() - i,
        {
            let v = &vials[i];
            let ghost before = all_layer_ids(vials@.take(i as int));
            let ghost ids = v.layers@.map_values(|l: Layer| l.spec_id());
            let mut j: usize = 0;
            while j < v.layers.len()
                invariant
                    0 <= j <= v.layers.len(),
                    ids == v.layers@.map_values(|l: Layer| l.spec_id()),
                    r@ == distinct(before + ids.take(j as int)),
                decreases v.layers.len() - j,
            {
                let id = v.layers[j].id();
                let ghost s = before + ids.take(j as int);
                assert((before + ids.take(j + 1)).drop_last() =~= s);
                assert((before + ids.take(j + 1)).last() == id);
                let mut seen = false;
                let mut k: usize = 0;
                while k < r.len()
                    invariant
                        0 <= k <= r.len(),
                        seen <==> exists|m: int| 0 <= m < k && r@[m] == id,
                    decreases r.len() - k,
                {
                    if r[k] == id {
                        seen = true;
                    }
                    k = k + 1;
                }
                if !seen {
                    r.push(id);
                }
                j = j + 1;
            }
            assert(vials@.take(i + 1).drop_last() =~= vials@.take(i as int));
            assert(ids.take(ids.len() as int) =~= ids);
            i = i + 1;
        }
        assert(vials@.take(i as int) =~= vials@);
        r
    }
}

} // verus!
