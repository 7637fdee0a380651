use vstd::prelude::*;
use crate::constant::{OBJECT_TAG, VOLUME_EPSILON};
use crate::object::{Object, ObjectFlags, Point};
use crate::level::Palette;
use vstd::arithmetic::div_mod::{lemma_div_is_ordered, lemma_div_multiples_vanish, lemma_div_pos_is_pos};
use vstd::arithmetic::mul::lemma_mul_inequality;

verus! {

/// An RGB colour.
#[derive(Clone, Copy, Debug, PartialEq, Eq, Structural)]
pub struct Color {
    pub red: u8,
    pub green: u8,
    pub blue: u8,
}

pub fn rgb(r: u8, g: u8, b: u8) -> (c: Color)
    ensures
        c == (Color { red: r, green: g, blue: b }),
{
    Color { red: r, green: g, blue: b }
}

/// One band of liquid: a palette index and a volume in thousandths of a unit.
#[derive(Clone, Copy, Debug, PartialEq, Eq, Structural)]
pub enum Layer {
    Liquid { id: usize, volume: u32 },
}

impl Layer {
    pub open spec fn spec_volume(self) -> u32 {
        match self {
            Layer::Liquid { volume, .. } => volume,
        }
    }

    pub open spec fn spec_id(self) -> usize {
        match self {
            Layer::Liquid { id, .. } => id,
        }
    }

    pub fn volume(&self) -> (r: u32)
        ensures
            r == self.spec_volume(),
    {
        match self {
            Layer::Liquid { volume, .. } => *volume,
        }
    }

    pub fn id(&self) -> (r: usize)
        ensures
            r == self.spec_id(),
    {
        match self {
            Layer::Liquid { id, .. } => *id,
        }
    }
}

/// Sum of the volumes of `layers`.
pub open spec fn total(layers: Seq<Layer>) -> int
    decreases layers.len(),
{
    if layers.len() == 0 {
        0
    } else {
        total(layers.drop_last()) + layers.last().spec_volume()
    }
}

/// `layers` with its top removed when that top is (nearly) empty.
pub open spec fn discarded(layers: Seq<Layer>) -> Seq<Layer> {
    if layers.len() > 0 && layers.last().spec_volume() <= VOLUME_EPSILON {
        layers.drop_last()
    } else {
        layers
    }
}

/// A container of liquid layers (index 0 at the bottom) and floating objects.
///
/// Coordinates are vial-local: the origin is the bottom-left corner, `size`
/// the opposite corner. A layer's height is proportional to its volume, the
/// whole capacity filling the vial's height.
#[derive(Clone, Debug)]
pub struct Vial {
    pub layers: Vec<Layer>,
    pub objects: Vec<Object>,
    /// Capacity, in thousandths of a unit.
    pub max_volume: u32,
    pub glass: Color,
    /// Width and height, in micrometres.
    pub size: Point,
}

/// The mathematical content of a [`Vial`].
pub struct VialView {
    pub layers: Seq<Layer>,
    pub objects: Seq<Object>,
    pub max_volume: u32,
    pub glass: Color,
    pub size: Point,
}

impl VialView {
    /// The vial has a capacity, holds no more than it, and has a non-negative size.
    pub open spec fn wf(self) -> bool {
        &&& self.max_volume > 0
        &&& total(self.layers) <= self.max_volume
        &&& self.size.x >= 0
        &&& self.size.y >= 0
    }

    pub open spec fn vol(self) -> int {
        total(self.layers)
    }

    /// Room left for liquid.
    pub open spec fn headroom(self) -> int {
        self.max_volume - total(self.layers)
    }
}

impl View for Vial {
    type V = VialView;

    open spec fn view(&self) -> VialView {
        VialView {
            layers: self.layers@,
            objects: self.objects@,
            max_volume: self.max_volume,
            glass: self.glass,
            size: self.size,
        }
    }
}

impl Default for Vial {
    fn default() -> (r: Vial)
        ensures
            r@.layers.len() == 0,
            r@.objects.len() == 0,
            r.max_volume == 100_000,
            r.glass == (Color { red: 255, green: 255, blue: 255 }),
            r.size == (Point { x: 25_000, y: 75_000 }),
    {
        Vial {
            layers: Vec::new(),
            objects: Vec::new(),
            max_volume: 100_000,
            glass: rgb(255, 255, 255),
            size: Point { x: 25_000, y: 75_000 },
        }
    }
}

/// Which transfer a pour starts.
#[derive(Clone, Copy, Debug, PartialEq, Eq, Structural)]
pub enum Transfer {
    Liquid,
    Object,
}

/// What the source's top layer and the destination decide about a pour.
pub open spec fn spec_pour(a: VialView, b: VialView) -> Option<Transfer> {
    if a.layers.len() > 0 {
        if b.layers.len() == 0 {
            Some(Transfer::Liquid)
        } else if a.layers.last().spec_id() == b.layers.last().spec_id() && b.headroom() > 0 {
            Some(Transfer::Liquid)
        } else {
            None
        }
    } else if a.objects.len() > 0 {
        Some(Transfer::Object)
    } else {
        None
    }
}

/// Where a point stands relative to a vial's liquid.
#[derive(Clone, Copy, Debug, PartialEq, Eq, Structural)]
pub enum VialLoc {
    /// Inside layer `index`, whose surface is at `height`.
    Layer { index: usize, height: i64 },
    /// Above all liquid, below the rim at `height`.
    Top { height: i64 },
}

/// Height of the surface of layer `i`: the vial's height scaled by the volume
/// of layers `0..=i` over the capacity, rounded down.
pub open spec fn surface(v: VialView, i: int) -> int {
    v.size.y * total(v.layers.take(i + 1)) / (v.max_volume as int)
}

/// The first layer from `i` up whose surface, raised by `r`, lies above `y`;
/// else the air above the liquid if `y` is below the rim raised by `r`.
pub open spec fn loc_from(v: VialView, y: int, r: int, i: int) -> Option<VialLoc>
    decreases v.layers.len() - i,
{
    if i < 0 || i >= v.layers.len() {
        if y < v.size.y + r {
            Some(VialLoc::Top { height: v.size.y })
        } else {
            None
        }
    } else if y < surface(v, i) + r {
        Some(VialLoc::Layer { index: i as usize, height: surface(v, i) as i64 })
    } else {
        loc_from(v, y, r, i + 1)
    }
}

pub open spec fn spec_in_layer(v: VialView, p: Point, r: u64) -> Option<VialLoc> {
    loc_from(v, p.y as int, r as int, 0)
}

proof fn lemma_surface_bounds(v: VialView, i: int)
    requires
        v.wf(),
        0 <= i < v.layers.len(),
    ensures
        0 <= surface(v, i) <= v.size.y,
{
    let c = total(v.layers.take(i + 1));
    let m = v.max_volume as int;
    let s = v.size.y as int;
    lemma_total_bounds(v.layers, i + 1);
    lemma_mul_inequality(c, m, s);
    assert(c * s == s * c) by (nonlinear_arith);
    assert(m * s == s * m) by (nonlinear_arith);
    assert(s * c >= 0) by (nonlinear_arith)
        requires
            s >= 0,
            c >= 0,
    ;
    lemma_div_is_ordered(s * c, s * m, m);
    assert(m * s / m == s) by {
        lemma_div_multiples_vanish(s, m);
    }
    lemma_div_pos_is_pos(s * c, m);
}

pub proof fn lemma_total_bounds(layers: Seq<Layer>, i: int)
    requires
        0 <= i <= layers.len(),
    ensures
        0 <= total(layers.take(i)) <= total(layers),
    decreases layers.len(),
{
    if layers.len() > 0 {
        if i == layers.len() {
            assert(layers.take(i) =~= layers);
            lemma_total_bounds(layers.drop_last(), i - 1);
            assert(layers.drop_last().take(i - 1) =~= layers.drop_last());
        } else {
            lemma_total_bounds(layers.drop_last(), i);
            assert(layers.drop_last().take(i) =~= layers.take(i));
        }
    }
}

pub proof fn lemma_total_take_next(layers: Seq<Layer>, i: int)
    requires
        0 <= i < layers.len(),
    ensures
        total(layers.take(i + 1)) == total(layers.take(i)) + layers[i].spec_volume(),
{
    assert(layers.take(i + 1).drop_last() =~= layers.take(i));
}

impl Vial {
    /// A copy of the vial.
    pub fn duplicate(&self) -> (r: Vial)
        ensures
            r@ == self@,
    {
        let layers = self.layers.clone();
        let objects = self.objects.clone();
        assert(layers@ =~= self.layers@);
        assert(objects@ =~= self.objects@);
        Vial { layers, objects, max_volume: self.max_volume, glass: self.glass, size: self.size }
    }

    /// Total volume of the liquid held.
    pub fn vol(&self) -> (r: u32)
        requires
            self@.wf(),
        ensures
            r == self@.vol(),
    {
        let mut sum: u32 = 0;
        let mut i: usize = 0;
        while i < self.layers.len()
            invariant
                self@.wf(),
                0 <= i <= self.layers.len(),
                sum == total(self.layers@.take(i as int)),
            decreases self.layers.len() - i,
        {
            proof {
                lemma_total_take_next(self.layers@, i as int);
                lemma_total_bounds(self.layers@, i as int + 1);
            }
            sum = sum + self.layers[i].volume();
            i = i + 1;
        }
        assert(self.layers@.take(i as int) =~= self.layers@);
        sum
    }

    /// Locates a point, with tolerance `r`: the first layer from the bottom whose
    /// surface plus `r` lies above the point; else the air if the point is below
    /// the rim plus `r`; else nothing.
    pub fn in_layer(&self, point: Point, r: u64) -> (loc: Option<VialLoc>)
        requires
            self@.wf(),
        ensures
            loc == spec_in_layer(self@, point, r),
    {
        let ghost v = self@;
        let mut cum: u64 = 0;
        let mut i: usize = 0;
        while i < self.layers.len()
            invariant
                v == self@,
                v.wf(),
                0 <= i <= self.layers.len(),
                cum == total(v.layers.take(i as int)),
                loc_from(v, point.y as int, r as int, 0) == loc_from(
                    v,
                    point.y as int,
                    r as int,
                    i as int,
                ),
            decreases self.layers.len() - i,
        {
            proof {
                lemma_total_take_next(v.layers, i as int);
                lemma_total_bounds(v.layers, i as int + 1);
                lemma_surface_bounds(v, i as int);
            }
            cum = cum + self.layers[i].volume() as u64;
            assert((self.size.y as u128) * (cum as u128) <= 0x7fff_ffff_ffff_ffffu128 * 0xffff_ffffu128)
                by (nonlinear_arith)
                requires
                    0 <= self.size.y <= 0x7fff_ffff_ffff_ffff,
                    cum <= 0xffff_ffff,
            ;
            let height = ((self.size.y as u128) * (cum as u128) / (self.max_volume as u128)) as i64;
            assert(height == surface(v, i as int));
            if (point.y as i128) < (height as i128) + (r as i128) {
                return Some(VialLoc::Layer { index: i, height });
            }
            i = i + 1;
        }
        if (point.y as i128) < (self.size.y as i128) + (r as i128) {
            Some(VialLoc::Top { height: self.size.y })
        } else {
            None
        }
    }

    /// Removes the top layer when its volume is at most `VOLUME_EPSILON`.
    pub fn discard_empties(&mut self)
        ensures
            final(self)@ == (VialView { layers: discarded(old(self)@.layers), ..old(self)@ }),
    {
        let n = self.layers.len();
        if n > 0 && self.layers[n - 1].volume() <= VOLUME_EPSILON {
            self.layers.pop();
        }
    }

    /// The transfer that pouring `self` into `other` starts, if any.
    ///
    /// A vial with liquid pours its top layer into an empty vial, or onto a layer
    /// of the same colour in a vial with room left. A vial without liquid lets
    /// its objects out.
    pub fn pour(&self, other: &Vial) -> (r: Option<Transfer>)
        requires
            other@.wf(),
        ensures
            r == spec_pour(self@, other@),
    {
        let n = self.layers.len();
        if n > 0 {
            let m = other.layers.len();
            if m == 0 {
                Some(Transfer::Liquid)
            } else if self.layers[n - 1].id() == other.layers[m - 1].id() && other.vol()
                < other.max_volume {
                Some(Transfer::Liquid)
            } else {
                None
            }
        } else if self.objects.len() > 0 {
            Some(Transfer::Object)
        } else {
            None
        }
    }
}

} // verus!


verus! {

pub proof fn lemma_top_within_total(layers: Seq<Layer>)
    requires
        layers.len() > 0,
    ensures
        layers.last().spec_volume() <= total(layers),
{
    lemma_total_bounds(layers.drop_last(), 0);
    assert(layers.drop_last().take(0) =~= Seq::<Layer>::empty());
}

} // verus!

verus! {

/// A change that a vial goes through on its own.
#[derive(Clone, Debug)]
pub enum Transition {
    MoveDown(Vial),
    BreakSeed(Vial),
}

/// An object as it breaks: half its size, no longer flagged to break.
pub open spec fn halved(o: Object) -> Object {
    Object { size: o.size / 2, flags: ObjectFlags { break_now: false, ..o.flags }, ..o }
}

/// The ids of `objs`, in order.
pub open spec fn ids(objs: Seq<Object>) -> Seq<u64> {
    objs.map_values(|o: Object| o.id)
}

/// `OBJECT_TAG + j` for the smallest `j >= k` that no id in `used` takes.
pub open spec fn first_free(used: Seq<u64>, k: int) -> u64
    decreases used.len() - k,
{
    if k < 0 || k >= used.len() || !used.contains((OBJECT_TAG + k) as u64) {
        (OBJECT_TAG + k) as u64
    } else {
        first_free(used, k + 1)
    }
}

/// The pieces split off the breaking objects among the first `n` of `objs`.
/// Each gets the first free id: the object tag plus the smallest number whose
/// id neither an object of `objs` nor an earlier piece holds.
pub open spec fn pieces(objs: Seq<Object>, n: int) -> Seq<Object>
    decreases n,
{
    if n <= 0 {
        seq![]
    } else {
        let before = pieces(objs, n - 1);
        if objs[n - 1].flags.break_now {
            before.push(
                Object { id: first_free(ids(objs) + ids(before), 0), ..halved(objs[n - 1]) },
            )
        } else {
            before
        }
    }
}

/// Every object from index `from` on has an id that no object before it has.
pub open spec fn ids_fresh_from(objs: Seq<Object>, from: int) -> bool {
    forall|i: int, j: int|
        0 <= j < i < objs.len() && from <= i ==> (#[trigger] objs[i]).id != (#[trigger] objs[j]).id
}

/// Whether `used` holds the id `OBJECT_TAG + j`.
pub open spec fn tag_taken(used: Seq<u64>, j: int) -> bool {
    used.contains((OBJECT_TAG + j) as u64)
}

/// `k` consecutive ids from `OBJECT_TAG` on take at least `k` places of `s`.
proof fn lemma_tag_range_needs_room(s: Seq<u64>, k: int)
    requires
        0 <= k,
        OBJECT_TAG + k <= u64::MAX,
        forall|j: int| 0 <= j < k ==> #[trigger] tag_taken(s, j),
    ensures
        k <= s.len(),
{
    let t = s.map_values(|x: u64| x as int);
    let r = vstd::set_lib::set_int_range(OBJECT_TAG as int, OBJECT_TAG + k);
    vstd::set_lib::lemma_int_range(OBJECT_TAG as int, OBJECT_TAG + k);
    assert(r.subset_of(t.to_set())) by {
        assert forall|x: int| r.contains(x) implies t.to_set().contains(x) by {
            let j = x - OBJECT_TAG;
            assert(tag_taken(s, j));
            let p = choose|p: int| 0 <= p < s.len() && s[p] == (OBJECT_TAG + j) as u64;
            assert(t[p] == x);
        }
    }
    t.lemma_cardinality_of_set();
    vstd::seq_lib::seq_to_set_is_finite(t);
    vstd::set_lib::lemma_len_subset(r, t.to_set());
}

/// The first free id is free, and no larger than the room that `used` leaves.
proof fn lemma_first_free(used: Seq<u64>, k: int)
    requires
        0 <= k <= used.len(),
        OBJECT_TAG + used.len() < u64::MAX,
        forall|j: int| 0 <= j < k ==> #[trigger] tag_taken(used, j),
    ensures
        !used.contains(first_free(used, k)),
        OBJECT_TAG <= first_free(used, k) <= OBJECT_TAG + used.len(),
    decreases used.len() - k,
{
    if k == used.len() {
        if used.contains((OBJECT_TAG + k) as u64) {
            assert(tag_taken(used, k));
            lemma_tag_range_needs_room(used, k + 1);
        }
    } else if used.contains((OBJECT_TAG + k) as u64) {
        assert(tag_taken(used, k));
        lemma_first_free(used, k + 1);
    }
}

/// Each piece's id differs from the ids of `objs` and of every earlier piece.
proof fn lemma_pieces_fresh(objs: Seq<Object>, n: int)
    requires
        0 <= n <= objs.len(),
        OBJECT_TAG + 2 * objs.len() < u64::MAX,
    ensures
        pieces(objs, n).len() <= n,
        forall|m: int, j: int|
            0 <= m < pieces(objs, n).len() && 0 <= j < objs.len() ==> (#[trigger] pieces(
                objs,
                n,
            )[m]).id != (#[trigger] objs[j]).id,
        forall|m: int, l: int|
            0 <= l < m < pieces(objs, n).len() ==> (#[trigger] pieces(objs, n)[m]).id != (
            #[trigger] pieces(objs, n)[l]).id,
    decreases n,
{
    if n > 0 {
        lemma_pieces_fresh(objs, n - 1);
        let before = pieces(objs, n - 1);
        if objs[n - 1].flags.break_now {
            let used = ids(objs) + ids(before);
            lemma_first_free(used, 0);
            let id = first_free(used, 0);
            let p = pieces(objs, n);
            assert forall|m: int, j: int|
                0 <= m < p.len() && 0 <= j < objs.len() implies (#[trigger] p[m]).id != (
                #[trigger] objs[j]).id by {
                if m == before.len() {
                    assert(used[j] == objs[j].id);
                }
            }
            assert forall|m: int, l: int| 0 <= l < m < p.len() implies (#[trigger] p[m]).id != (
            #[trigger] p[l]).id by {
                if m == before.len() {
                    assert(used[objs.len() + l] == before[l].id);
                }
            }
        }
    }
}

/// Each breaking object halves and leaves a piece of the same size behind it.
pub open spec fn spec_transition(v: VialView) -> Option<VialView> {
    if exists|i: int| 0 <= i < v.objects.len() && v.objects[i].flags.break_now {
        Some(
            VialView {
                objects: Seq::new(
                    v.objects.len(),
                    |i: int|
                        if v.objects[i].flags.break_now {
                            halved(v.objects[i])
                        } else {
                            v.objects[i]
                        },
                ) + pieces(v.objects, v.objects.len() as int),
                ..v
            },
        )
    } else {
        None
    }
}

/// The top two layers merged into one of the new palette entry.
pub open spec fn spec_mix(v: VialView, palette: Seq<Color>, blended: Color) -> Option<
    (VialView, Seq<Color>),
> {
    let n = v.layers.len();
    if n < 2 {
        None
    } else {
        let top = v.layers[n - 1];
        let bottom = v.layers[n - 2];
        Some(
            (
                VialView {
                    layers: v.layers.subrange(0, n - 2).push(
                        Layer::Liquid {
                            id: palette.len() as usize,
                            volume: (top.spec_volume() + bottom.spec_volume()) as u32,
                        },
                    ),
                    ..v
                },
                palette.push(blended),
            ),
        )
    }
}

proof fn lemma_top_two_within_total(layers: Seq<Layer>)
    requires
        layers.len() >= 2,
    ensures
        total(layers) == total(layers.subrange(0, layers.len() - 2)) + layers[layers.len()
            - 2].spec_volume() + layers.last().spec_volume(),
        layers[layers.len() - 2].spec_volume() + layers.last().spec_volume() <= total(layers),
{
    let d = layers.drop_last();
    assert(d.drop_last() =~= layers.subrange(0, layers.len() - 2));
    assert(d.last() == layers[layers.len() - 2]);
    assert(total(layers) == total(d) + layers.last().spec_volume());
    assert(total(d) == total(d.drop_last()) + d.last().spec_volume());
    lemma_total_bounds(d.drop_last(), 0);
    assert(d.drop_last().take(0) =~= Seq::<Layer>::empty());
}

impl Vial {
    /// Breaks every object flagged to break; `None` when there is none. Each
    /// piece gets an id that no other object in the vial holds.
    pub fn transition(&self) -> (r: Option<Transition>)
        requires
            // An object takes more than four bytes of memory.
            self@.objects.len() < 0x4000_0000_0000_0000,
        ensures
            match r {
                Some(Transition::BreakSeed(w)) => {
                    &&& spec_transition(self@) == Some(w@)
                    &&& ids_fresh_from(w@.objects, self@.objects.len() as int)
                },
                Some(Transition::MoveDown(_)) => false,
                None => spec_transition(self@) is None,
            },
    {
        let n = self.objects.len();
        let mut any = false;
        let mut i: usize = 0;
        while i < n
            invariant
                n == self.objects.len(),
                0 <= i <= n,
                any <==> exists|j: int| 0 <= j < i && self.objects@[j].flags.break_now,
            decreases n - i,
        {
            if self.objects[i].flags.break_now {
                any = true;
            }
            i = i + 1;
        }
        if !any {
            return None;
        }
        let ghost objs = self.objects@;
        let mut used: Vec<u64> = Vec::new();
        let mut i: usize = 0;
        while i < n
            invariant
                n == objs.len(),
                objs == self.objects@,
                0 <= i <= n,
                used@ == ids(objs.take(i as int)),
            decreases n - i,
        {
            used.push(self.objects[i].id);
            i = i + 1;
            assert(used@ =~= ids(objs.take(i as int)));
        }
        assert(objs.take(n as int) =~= objs);
        let mut kept: Vec<Object> = Vec::new();
        let mut additions: Vec<Object> = Vec::new();
        let mut i: usize = 0;
        while i < n
            invariant
                n == objs.len(),
                n < 0x4000_0000_0000_0000,
                objs == self.objects@,
                0 <= i <= n,
                kept@ == Seq::new(
                    i as nat,
                    |j: int|
                        if objs[j].flags.break_now {
                            halved(objs[j])
                        } else {
                            objs[j]
                        },
                ),
                additions@ == pieces(objs, i as int),
                additions.len() <= i,
                used@ == ids(objs) + ids(additions@),
            decreases n - i,
        {
            let o = self.objects[i];
            if o.flags.break_now {
                let h = Object {
                    size: o.size / 2,
                    flags: ObjectFlags { break_now: false, ..o.flags },
                    ..o
                };
                kept.push(h);
                let ghost u = used@;
                let mut k: u64 = 0;
                while k < used.len() as u64 && holds_id(&used, OBJECT_TAG + k)
                    invariant
                        used@ == u,
                        u.len() < 0x8000_0000_0000_0000,
                        k <= u.len(),
                        first_free(u, 0) == first_free(u, k as int),
                    decreases u.len() - k,
                {
                    k = k + 1;
                }
                let id = OBJECT_TAG + k;
                additions.push(Object { id, ..h });
                used.push(id);
                assert(used@ =~= ids(objs) + ids(additions@));
            } else {
                kept.push(o);
            }
            i = i + 1;
            assert(kept@ =~= Seq::new(
                i as nat,
                |j: int|
                    if objs[j].flags.break_now {
                        halved(objs[j])
                    } else {
                        objs[j]
                    },
            ));
        }
        proof {
            lemma_pieces_fresh(objs, n as int);
        }
        let ghost p = additions@;
        kept.append(&mut additions);
        let mut w = self.duplicate();
        w.objects = kept;
        assert forall|i: int, j: int|
            0 <= j < i < w@.objects.len() && n <= i implies (#[trigger] w@.objects[i]).id != (
            #[trigger] w@.objects[j]).id by {
            assert(w@.objects[i] == p[i - n]);
            if j < n {
                assert(w@.objects[j].id == objs[j].id);
            } else {
                assert(w@.objects[j] == p[j - n]);
            }
        }
        Some(Transition::BreakSeed(w))
    }

    /// Merges the top two layers into one holding both volumes, coloured
    /// `blended`, which becomes a new palette entry; returns whether there were
    /// two layers to merge (else nothing changes).
    pub fn mix(&mut self, palette: &mut Palette, blended: Color) -> (r: bool)
        requires
            old(self)@.wf(),
        ensures
            r == (old(self)@.layers.len() >= 2),
            match spec_mix(old(self)@, old(palette)@, blended) {
                Some((v, p)) => final(self)@ == v && final(palette)@ == p,
                None => final(self)@ == old(self)@ && final(palette)@ == old(palette)@,
            },
    {
        let n = self.layers.len();
        if n < 2 {
            return false;
        }
        proof {
            lemma_top_two_within_total(self.layers@);
        }
        let ghost l0 = self.layers@;
        let top = self.layers.pop().unwrap();
        let bottom = self.layers.pop().unwrap();
        assert(self.layers@ =~= l0.subrange(0, n - 2));
        let new_id = palette.0.len();
        palette.0.push(blended);
        self.layers.push(Layer::Liquid { id: new_id, volume: top.volume() + bottom.volume() });
        true
    }
}

} // verus!

verus! {

/// Position of the last body in `bodies` keyed by `id`.
pub open spec fn body_at(bodies: Seq<(u64, Point)>, id: u64) -> Option<Point>
    decreases bodies.len(),
{
    if bodies.len() == 0 {
        None
    } else if bodies.last().0 == id {
        Some(bodies.last().1)
    } else {
        body_at(bodies.drop_last(), id)
    }
}

/// Each object moved to the position of its body, if it has one.
pub open spec fn projected(objs: Seq<Object>, bodies: Seq<(u64, Point)>) -> Seq<Object> {
    Seq::new(
        objs.len(),
        |i: int|
            match body_at(bodies, objs[i].id) {
                Some(p) => Object { pos: p, ..objs[i] },
                None => objs[i],
            },
    )
}

/// Indices, ascending, of the first `n` bodies whose key no object carries.
pub open spec fn stale_bodies(objs: Seq<Object>, bodies: Seq<(u64, Point)>, n: int) -> Seq<usize>
    decreases n,
{
    if n <= 0 {
        seq![]
    } else if exists|i: int| 0 <= i < objs.len() && objs[i].id == bodies[n - 1].0 {
        stale_bodies(objs, bodies, n - 1)
    } else {
        stale_bodies(objs, bodies, n - 1).push((n - 1) as usize)
    }
}

fn find_body(bodies: &Vec<(u64, Point)>, id: u64) -> (r: Option<Point>)
    ensures
        r == body_at(bodies@, id),
{
    let mut k = bodies.len();
    assert(bodies@.take(k as int) =~= bodies@);
    while k > 0
        invariant
            k <= bodies.len(),
            body_at(bodies@, id) == body_at(bodies@.take(k as int), id),
        decreases k,
    {
        assert(bodies@.take(k as int).drop_last() =~= bodies@.take(k - 1));
        let (key, p) = bodies[k - 1];
        if key == id {
            return Some(p);
        }
        k = k - 1;
    }
    None
}

impl Vial {
    /// Takes the positions that a physics world reports, one `(id, position)`
    /// per body: each object moves to its body's position. Returns the indices
    /// of the bodies that no object carries (to be dropped from the world), and
    /// whether every object had a body.
    pub fn project(&mut self, bodies: &Vec<(u64, Point)>) -> (r: (Vec<usize>, bool))
        ensures
            final(self)@ == (VialView {
                objects: projected(old(self)@.objects, bodies@),
                ..old(self)@
            }),
            r.0@ == stale_bodies(old(self)@.objects, bodies@, bodies@.len() as int),
            r.1 == forall|i: int|
                0 <= i < old(self)@.objects.len() ==> body_at(
                    bodies@,
                    #[trigger] old(self)@.objects[i].id,
                ) is Some,
    {
        let ghost objs = self.objects@;
        let mut stale: Vec<usize> = Vec::new();
        let mut k: usize = 0;
        while k < bodies.len()
            invariant
                objs == self.objects@,
                0 <= k <= bodies.len(),
                stale@ == stale_bodies(objs, bodies@, k as int),
            decreases bodies.len() - k,
        {
            let key = bodies[k].0;
            let mut found = false;
            let mut i: usize = 0;
            while i < self.objects.len()
                invariant
                    objs == self.objects@,
                    0 <= i <= self.objects.len(),
                    key == bodies@[k as int].0,
                    found <==> exists|j: int| 0 <= j < i && objs[j].id == key,
                decreases self.objects.len() - i,
            {
                if self.objects[i].id == key {
                    found = true;
                }
                i = i + 1;
            }
            if !found {
                stale.push(k);
            }
            k = k + 1;
        }
        let mut moved: Vec<Object> = Vec::new();
        let mut all_found = true;
        let mut i: usize = 0;
        while i < self.objects.len()
            invariant
                objs == self.objects@,
                0 <= i <= self.objects.len(),
                moved@ == projected(objs, bodies@).take(i as int),
                all_found == forall|j: int| 0 <= j < i ==> body_at(bodies@, #[trigger] objs[j].id) is Some,
            decreases self.objects.len() - i,
        {
            let o = self.objects[i];
            match find_body(bodies, o.id) {
                Some(p) => moved.push(Object { pos: p, ..o }),
                None => {
                    all_found = false;
                    moved.push(o);
                },
            }
            i = i + 1;
            assert(moved@ =~= projected(objs, bodies@).take(i as int));
        }
        assert(moved@ =~= projected(objs, bodies@));
        self.objects = moved;
        (stale, all_found)
    }
}

} // verus!

verus! {

impl Vial {
    /// Whether the vial is well formed: it has a capacity, holds no more than
    /// it, and has a non-negative size.
    pub fn is_valid(&self) -> (r: bool)
        ensures
            r == self@.wf(),
    {
        if self.max_volume == 0 || self.size.x < 0 || self.size.y < 0 {
            return false;
        }
        let mut sum: u64 = 0;
        let mut i: usize = 0;
        while i < self.layers.len()
            invariant
                0 <= i <= self.layers.len(),
                sum == total(self.layers@.take(i as int)),
                sum <= self.max_volume,
            decreases self.layers.len() - i,
        {
            proof {
                lemma_total_take_next(self.layers@, i as int);
            }
            sum = sum + self.layers[i].volume() as u64;
            if sum > self.max_volume as u64 {
                proof {
                    lemma_total_bounds(self.layers@, i as int + 1);
                }
                return false;
            }
            i = i + 1;
        }
        assert(self.layers@.take(i as int) =~= self.layers@);
        true
    }
}

} // verus!

verus! {

fn holds_id(v: &Vec<u64>, x: u64) -> (r: bool)
    ensures
        r == v@.contains(x),
{
    let mut i: usize = 0;
    while i < v.len()
        invariant
            0 <= i <= v.len(),
            forall|j: int| 0 <= j < i ==> v@[j] != x,
        decreases v.len() - i,
    {
        if v[i] == x {
            return true;
        }
        i = i + 1;
    }
    false
}

} // verus!
