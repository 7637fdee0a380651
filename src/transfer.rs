use vstd::prelude::*;
use vstd::arithmetic::div_mod::{
    lemma_div_is_ordered, lemma_div_multiples_vanish, lemma_div_multiples_vanish_fancy,
    lemma_div_pos_is_pos,
};
use crate::constant::{BREAK_SIZE, HEIGHT_EPSILON, PROGRESS_ONE};
use crate::object::{Object, ObjectFlags, Point};
use crate::vial::{
    discarded, lemma_top_within_total, spec_in_layer, Layer, Transfer, Vial, VialLoc, VialView,
};

verus! {

/// `layers` with its top removed when that top holds nothing at all.
pub open spec fn without_dry_top(layers: Seq<Layer>) -> Seq<Layer> {
    if layers.len() > 0 && layers.last().spec_volume() == 0 {
        layers.drop_last()
    } else {
        layers
    }
}

/// An object that sits in the top layer of `a` or in the air above it.
pub open spec fn is_candidate(a: VialView, o: Object) -> bool {
    match spec_in_layer(a, o.pos, o.size) {
        Some(VialLoc::Top { .. }) => true,
        Some(VialLoc::Layer { index, .. }) => index == a.layers.len() - 1,
        None => false,
    }
}

/// Indices, ascending, of the candidates among the first `n` objects of `a`.
pub open spec fn candidates(a: VialView, n: int) -> Seq<usize>
    decreases n,
{
    if n <= 0 {
        seq![]
    } else if is_candidate(a, a.objects[n - 1]) {
        candidates(a, n - 1).push((n - 1) as usize)
    } else {
        candidates(a, n - 1)
    }
}

/// The highest `y` among the first `n` objects (`n >= 1`).
pub open spec fn max_height(objs: Seq<Object>, n: int) -> int
    decreases n,
{
    if n <= 1 {
        objs[0].pos.y as int
    } else {
        let m = max_height(objs, n - 1);
        if objs[n - 1].pos.y > m {
            objs[n - 1].pos.y as int
        } else {
            m
        }
    }
}

/// Indices, ascending, of the first `n` objects within `HEIGHT_EPSILON` of `top`.
pub open spec fn level_with(objs: Seq<Object>, top: int, n: int) -> Seq<usize>
    decreases n,
{
    if n <= 0 {
        seq![]
    } else if top - objs[n - 1].pos.y <= HEIGHT_EPSILON {
        level_with(objs, top, n - 1).push((n - 1) as usize)
    } else {
        level_with(objs, top, n - 1)
    }
}

/// The first `n` objects whose indices are not in `moved`, in order.
pub open spec fn remaining(objs: Seq<Object>, moved: Seq<usize>, n: int) -> Seq<Object>
    decreases n,
{
    if n <= 0 {
        seq![]
    } else if moved.contains((n - 1) as usize) {
        remaining(objs, moved, n - 1)
    } else {
        remaining(objs, moved, n - 1).push(objs[n - 1])
    }
}

/// An object as it lands in `dest`: at the rim, marked as entering, and
/// expected to break when it is large and `dest` holds no liquid.
pub open spec fn dropped(o: Object, dest: VialView) -> Object {
    Object {
        pos: Point { x: o.pos.x, y: dest.size.y },
        flags: ObjectFlags {
            enter_vial: true,
            expect_break: o.flags.expect_break || (dest.layers.len() == 0 && o.size > BREAK_SIZE),
            break_now: o.flags.break_now,
        },
        ..o
    }
}

/// The objects at `moved` as they land in `dest`, highest index first.
pub open spec fn arrivals(objs: Seq<Object>, moved: Seq<usize>, dest: VialView) -> Seq<Object> {
    Seq::new(moved.len(), |k: int| dropped(objs[moved[moved.len() - 1 - k] as int], dest))
}

/// Moves the objects at `moved` from `a` to `b`.
pub open spec fn objects_moved(a: VialView, b: VialView, moved: Seq<usize>) -> (VialView, VialView) {
    (
        VialView { objects: remaining(a.objects, moved, a.objects.len() as int), ..a },
        VialView { objects: b.objects + arrivals(a.objects, moved, b), ..b },
    )
}

/// Volume poured in one step: the fraction `t` of the room left in `b`.
pub open spec fn step_amount(b: VialView, t: u32) -> int {
    b.headroom() * t / (PROGRESS_ONE as int)
}

/// How many candidates follow the liquid at progress `t`: the fraction `t`
/// of them, rounded up.
pub open spec fn follow_count(n: int, t: u32) -> int {
    (n * t + PROGRESS_ONE - 1) / (PROGRESS_ONE as int)
}

/// One step of a liquid transfer at progress `t`.
pub open spec fn liquid_step(a: VialView, b: VialView, t: u32) -> Option<(VialView, VialView)> {
    if a.layers.len() == 0 {
        None
    } else {
        let la = a.layers.len() - 1;
        let top = a.layers.last();
        let b0 = if b.layers.len() == 0 {
            seq![Layer::Liquid { id: top.spec_id(), volume: 0 }]
        } else {
            b.layers
        };
        let lb = b0.len() - 1;
        let under = b0.last();
        if under.spec_id() != top.spec_id() || b.headroom() <= 0 {
            None
        } else {
            let amount = step_amount(b, t);
            let layers_a = if top.spec_volume() > amount {
                discarded(
                    a.layers.update(
                        la,
                        Layer::Liquid { id: top.spec_id(), volume: (top.spec_volume() - amount) as u32 },
                    ),
                )
            } else {
                a.layers.update(la, Layer::Liquid { id: top.spec_id(), volume: 0 })
            };
            let layers_b = if top.spec_volume() > amount {
                discarded(
                    b0.update(
                        lb,
                        Layer::Liquid { id: under.spec_id(), volume: (under.spec_volume() + amount) as u32 },
                    ),
                )
            } else {
                b0.update(
                    lb,
                    Layer::Liquid {
                        id: under.spec_id(),
                        volume: (under.spec_volume() + top.spec_volume()) as u32,
                    },
                )
            };
            let cands = candidates(a, a.objects.len() as int);
            let k = follow_count(cands.len() as int, t);
            let moved = cands.subrange(cands.len() - k, cands.len() as int);
            Some(
                objects_moved(
                    VialView { layers: without_dry_top(layers_a), ..a },
                    VialView { layers: layers_b, ..b },
                    moved,
                ),
            )
        }
    }
}

/// One step of an object transfer: every object level with the highest one
/// moves at once.
pub open spec fn object_step(a: VialView, b: VialView) -> Option<(VialView, VialView)> {
    if a.objects.len() == 0 {
        None
    } else {
        let n = a.objects.len() as int;
        let moved = level_with(a.objects, max_height(a.objects, n), n);
        Some(objects_moved(a, b, moved))
    }
}

/// The two vials after a step of `tr` at progress `t` (in thousandths); `None`
/// once the transfer is over (`t` past one), or when it cannot go on.
pub open spec fn spec_lerp(tr: Transfer, a: VialView, b: VialView, t: u32) -> Option<(VialView, VialView)> {
    if t > PROGRESS_ONE {
        None
    } else {
        match tr {
            Transfer::Liquid => liquid_step(a, b, t),
            Transfer::Object => object_step(a, b),
        }
    }
}

fn holds_index(v: &Vec<usize>, x: usize) -> (r: bool)
    ensures
        r == v@.contains(x),
{
    let mut i: usize = 0;
    while i < v.len()
        invariant
            0 <= i <= v.len(),
            forall|j: int| 0 <= j < i ==> v@[j] != x,
        decreases v.len() - i,
    {
        if v[i] == x {
            return true;
        }
        i = i + 1;
    }
    false
}

fn drop_into(o: Object, dest: &Vial) -> (r: Object)
    ensures
        r == dropped(o, dest@),
{
    let expect = o.flags.expect_break || (dest.layers.len() == 0 && o.size > BREAK_SIZE);
    Object {
        pos: Point { x: o.pos.x, y: dest.size.y },
        flags: ObjectFlags {
            enter_vial: true,
            expect_break: expect,
            break_now: o.flags.break_now,
        },
        ..o
    }
}

/// Moves the objects of `objs` at `moved` into `dest`, highest index first, and
/// returns the others.
fn move_objects(objs: &Vec<Object>, moved: &Vec<usize>, dest: &mut Vial) -> (rest: Vec<Object>)
    requires
        forall|k: int| 0 <= k < moved.len() ==> moved@[k] < objs.len(),
    ensures
        rest@ == remaining(objs@, moved@, objs.len() as int),
        final(dest)@ == (VialView {
            objects: old(dest)@.objects + arrivals(objs@, moved@, old(dest)@),
            ..old(dest)@
        }),
{
    let ghost d0 = dest@;
    let n = moved.len();
    let mut k: usize = 0;
    while k < n
        invariant
            n == moved.len(),
            0 <= k <= n,
            forall|j: int| 0 <= j < moved.len() ==> moved@[j] < objs.len(),
            dest@ == (VialView {
                objects: d0.objects + arrivals(objs@, moved@, d0).take(k as int),
                ..d0
            }),
        decreases n - k,
    {
        let j = moved[n - 1 - k];
        let o = drop_into(objs[j], dest);
        dest.objects.push(o);
        k = k + 1;
        assert(dest.objects@ =~= d0.objects + arrivals(objs@, moved@, d0).take(k as int));
    }
    assert(arrivals(objs@, moved@, d0).take(n as int) =~= arrivals(objs@, moved@, d0));
    let mut rest: Vec<Object> = Vec::new();
    let mut i: usize = 0;
    while i < objs.len()
        invariant
            0 <= i <= objs.len(),
            rest@ == remaining(objs@, moved@, i as int),
        decreases objs.len() - i,
    {
        if !holds_index(moved, i) {
            rest.push(objs[i]);
        }
        i = i + 1;
    }
    rest
}

impl Vial {
    /// Indices, ascending, of the objects in the top layer or above it.
    fn top_candidates(&self) -> (c: Vec<usize>)
        requires
            self@.wf(),
        ensures
            c@ == candidates(self@, self.objects.len() as int),
            forall|k: int| 0 <= k < c.len() ==> c@[k] < self.objects.len(),
    {
        let mut c: Vec<usize> = Vec::new();
        let mut i: usize = 0;
        while i < self.objects.len()
            invariant
                self@.wf(),
                0 <= i <= self.objects.len(),
                c@ == candidates(self@, i as int),
                forall|k: int| 0 <= k < c.len() ==> c@[k] < i,
            decreases self.objects.len() - i,
        {
            let o = self.objects[i];
            let hit = match self.in_layer(o.pos, o.size) {
                Some(VialLoc::Top { .. }) => true,
                Some(VialLoc::Layer { index, .. }) => self.layers.len() > 0 && index == self.layers.len() - 1,
                None => false,
            };
            if hit {
                c.push(i);
            }
            i = i + 1;
        }
        c
    }

    /// Indices, ascending, of the objects level (within `HEIGHT_EPSILON`) with
    /// the highest one.
    fn highest_objects(&self) -> (c: Vec<usize>)
        requires
            self.objects.len() > 0,
        ensures
            c@ == level_with(
                self.objects@,
                max_height(self.objects@, self.objects.len() as int),
                self.objects.len() as int,
            ),
            forall|k: int| 0 <= k < c.len() ==> c@[k] < self.objects.len(),
    {
        let objs = &self.objects;
        let mut top = objs[0].pos.y;
        let mut i: usize = 1;
        while i < objs.len()
            invariant
                1 <= i <= objs.len(),
                top == max_height(objs@, i as int),
            decreases objs.len() - i,
        {
            if objs[i].pos.y > top {
                top = objs[i].pos.y;
            }
            i = i + 1;
        }
        let mut c: Vec<usize> = Vec::new();
        let mut i: usize = 0;
        while i < objs.len()
            invariant
                0 <= i <= objs.len(),
                top == max_height(objs@, objs.len() as int),
                c@ == level_with(objs@, top as int, i as int),
                forall|k: int| 0 <= k < c.len() ==> c@[k] < i,
            decreases objs.len() - i,
        {
            if (top as i128) - (objs[i].pos.y as i128) <= HEIGHT_EPSILON as i128 {
                c.push(i);
            }
            i = i + 1;
        }
        c
    }
}

proof fn lemma_fraction_within(x: int, t: int)
    requires
        0 <= x,
        0 <= t <= PROGRESS_ONE,
    ensures
        0 <= x * t / (PROGRESS_ONE as int) <= x,
        0 <= (x * t + PROGRESS_ONE - 1) / (PROGRESS_ONE as int) <= x,
{
    let p = PROGRESS_ONE as int;
    assert(0 <= x * t <= x * p) by (nonlinear_arith)
        requires
            0 <= x,
            0 <= t <= p,
    ;
    assert(x * p == p * x) by (nonlinear_arith);
    lemma_div_is_ordered(x * t, p * x, p);
    lemma_div_multiples_vanish(x, p);
    lemma_div_pos_is_pos(x * t, p);
    lemma_div_is_ordered(x * t + p - 1, p * x + (p - 1), p);
    lemma_div_multiples_vanish_fancy(x, p - 1, p);
    lemma_div_pos_is_pos(x * t + p - 1, p);
}

/// One step of a liquid transfer.
fn pour_liquid(a: &Vial, b: &Vial, t: u32) -> (r: Option<(Vial, Vial)>)
    requires
        a@.wf(),
        b@.wf(),
        t <= PROGRESS_ONE,
    ensures
        match r {
            Some((x, y)) => liquid_step(a@, b@, t) == Some((x@, y@)),
            None => liquid_step(a@, b@, t) is None,
        },
{
    let na = a.layers.len();
    if na == 0 {
        return None;
    }
    let cands = a.top_candidates();
    let top = a.layers[na - 1];
    let id_a = top.id();
    let vol_a = top.volume();
    let total_b = b.vol();
    let mut layers_b = b.layers.clone();
    assert(layers_b@ =~= b.layers@);
    if layers_b.len() == 0 {
        layers_b.push(Layer::Liquid { id: id_a, volume: 0 });
        assert(layers_b@ =~= seq![Layer::Liquid { id: id_a, volume: 0 }]);
    }
    let nb = layers_b.len();
    let under = layers_b[nb - 1];
    if under.id() != id_a || total_b >= b.max_volume {
        return None;
    }
    let room = b.max_volume - total_b;
    proof {
        lemma_fraction_within(room as int, t as int);
        lemma_top_within_total(a.layers@);
        if b.layers.len() > 0 {
            lemma_top_within_total(b.layers@);
        }
    }
    let amount: u32 = ((room as u64) * (t as u64) / (PROGRESS_ONE as u64)) as u32;
    assert(amount == step_amount(b@, t));
    let mut layers_a = a.layers.clone();
    assert(layers_a@ =~= a.layers@);
    let partial = vol_a > amount;
    if partial {
        layers_a.set(na - 1, Layer::Liquid { id: id_a, volume: vol_a - amount });
        layers_b.set(nb - 1, Layer::Liquid { id: under.id(), volume: under.volume() + amount });
    } else {
        layers_a.set(na - 1, Layer::Liquid { id: id_a, volume: 0 });
        layers_b.set(nb - 1, Layer::Liquid { id: under.id(), volume: under.volume() + vol_a });
    }
    let mut a2 = Vial {
        layers: layers_a,
        objects: Vec::new(),
        max_volume: a.max_volume,
        glass: a.glass,
        size: a.size,
    };
    let mut b2 = b.duplicate();
    b2.layers = layers_b;
    if partial {
        a2.discard_empties();
        b2.discard_empties();
    }
    let n2 = a2.layers.len();
    if n2 > 0 && a2.layers[n2 - 1].volume() == 0 {
        a2.layers.pop();
    }
    let nc = cands.len();
    proof {
        lemma_fraction_within(nc as int, t as int);
    }
    let count = (((nc as u128) * (t as u128) + (PROGRESS_ONE as u128) - 1) / (PROGRESS_ONE as u128)) as usize;
    let mut moved = cands;
    let moved = moved.split_off(nc - count);
    let rest = move_objects(&a.objects, &moved, &mut b2);
    a2.objects = rest;
    Some((a2, b2))
}

/// One step of an object transfer.
fn pour_objects(a: &Vial, b: &Vial) -> (r: Option<(Vial, Vial)>)
    ensures
        match r {
            Some((x, y)) => object_step(a@, b@) == Some((x@, y@)),
            None => object_step(a@, b@) is None,
        },
{
    if a.objects.len() == 0 {
        return None;
    }
    let moved = a.highest_objects();
    let mut b2 = b.duplicate();
    let rest = move_objects(&a.objects, &moved, &mut b2);
    let mut a2 = a.duplicate();
    a2.objects = rest;
    Some((a2, b2))
}

impl Transfer {
    /// The two vials after one step of this transfer at progress `t`
    /// (thousandths); `None` once `t` is past one, or when the transfer cannot
    /// go on (no liquid or objects left, colours that no longer match, no room).
    ///
    /// A liquid step pours the fraction `t` of the room left in `b`, or the
    /// whole top layer of `a` when that is less; the objects in or above that
    /// layer follow, the fraction `t` of them, rounded up, highest index first.
    /// An object step moves every object level with the highest one.
    pub fn lerp(&self, a: &Vial, b: &Vial, t: u32) -> (r: Option<(Vial, Vial)>)
        requires
            a@.wf(),
            b@.wf(),
        ensures
            match r {
                Some((x, y)) => spec_lerp(*self, a@, b@, t) == Some((x@, y@)),
                None => spec_lerp(*self, a@, b@, t) is None,
            },
    {
        if t > PROGRESS_ONE {
            return None;
        }
        match self {
            Transfer::Liquid => pour_liquid(a, b, t),
            Transfer::Object => pour_objects(a, b),
        }
    }

    /// The two vials once this transfer has run at full progress.
    pub fn result(&self, a: &Vial, b: &Vial) -> (r: (Vial, Vial))
        requires
            a@.wf(),
            b@.wf(),
            spec_lerp(*self, a@, b@, PROGRESS_ONE) is Some,
        ensures
            spec_lerp(*self, a@, b@, PROGRESS_ONE) == Some((r.0@, r.1@)),
    {
        match self.lerp(a, b, PROGRESS_ONE) {
            Some(r) => r,
            None => (a.duplicate(), b.duplicate()),
        }
    }
}

} // verus!
