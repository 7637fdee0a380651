use vstd::prelude::*;
use crate::constant::{VOLUME_EPSILON, PROGRESS_ONE};
use crate::object::Object;
use crate::transfer::{spec_lerp, step_amount, without_dry_top};
use crate::vial::{
    discarded, halved, lemma_top_within_total, lemma_total_bounds, pieces, spec_mix, spec_pour,
    spec_transition, total, Color, Layer, Transfer, VialView,
};

verus! {

proof fn lemma_total_set_top(layers: Seq<Layer>, x: Layer)
    requires
        layers.len() > 0,
    ensures
        total(layers.update(layers.len() - 1, x)) == total(layers) - layers.last().spec_volume()
            + x.spec_volume(),
{
    let u = layers.update(layers.len() - 1, x);
    assert(u.drop_last() =~= layers.drop_last());
}

proof fn lemma_total_discarded(layers: Seq<Layer>)
    ensures
        total(layers) - VOLUME_EPSILON <= total(discarded(layers)) <= total(layers),
        layers.len() > 0 && layers.last().spec_volume() > VOLUME_EPSILON ==> discarded(layers)
            == layers,
{
}

proof fn lemma_total_without_dry_top(layers: Seq<Layer>)
    ensures
        total(without_dry_top(layers)) == total(layers),
{
}

proof fn lemma_seeded_total(b: VialView, id: usize)
    ensures
        ({
            let b0 = if b.layers.len() == 0 {
                seq![Layer::Liquid { id: id, volume: 0 }]
            } else {
                b.layers
            };
            &&& total(b0) == total(b.layers)
            &&& b0.len() > 0
            &&& b0.last().spec_volume() <= total(b.layers)
        }),
{
    if b.layers.len() == 0 {
        let b0 = seq![Layer::Liquid { id: id, volume: 0 }];
        assert(b0.drop_last() =~= Seq::<Layer>::empty());
        assert(total(b0) == total(b0.drop_last()) + b0.last().spec_volume());
    } else {
        lemma_top_within_total(b.layers);
    }
}

proof fn lemma_step_amount_within(b: VialView, t: u32)
    requires
        b.wf(),
        t <= PROGRESS_ONE,
    ensures
        0 <= step_amount(b, t) <= b.headroom(),
{
    let p = PROGRESS_ONE as int;
    let h = b.headroom();
    assert(0 <= h * t <= h * p) by (nonlinear_arith)
        requires
            0 <= h,
            0 <= t <= p,
    ;
    assert(h * p / p == h) by (nonlinear_arith)
        requires
            p > 0,
    ;
    vstd::arithmetic::div_mod::lemma_div_is_ordered(h * t, h * p, p);
    vstd::arithmetic::div_mod::lemma_div_pos_is_pos(h * t, p);
}

/// A liquid step neither creates liquid nor loses more than what
/// `discard_empties` drops: at most `VOLUME_EPSILON` from each vial, and at most
/// `VOLUME_EPSILON` in all unless the two layers that meet hold no more than
/// twice that together.
pub proof fn lemma_liquid_step_conserves_volume(a: VialView, b: VialView, t: u32)
    requires
        a.wf(),
        b.wf(),
        spec_lerp(Transfer::Liquid, a, b, t) is Some,
    ensures
        ({
            let (a2, b2) = spec_lerp(Transfer::Liquid, a, b, t).unwrap();
            let before = a.vol() + b.vol();
            let after = a2.vol() + b2.vol();
            let under = if b.layers.len() == 0 {
                0
            } else {
                b.layers.last().spec_volume() as int
            };
            &&& after <= before
            &&& before <= after + 2 * VOLUME_EPSILON
            &&& a.layers.last().spec_volume() + under > 2 * VOLUME_EPSILON ==> before <= after
                + VOLUME_EPSILON
        }),
{
    let la = a.layers.len() - 1;
    let top = a.layers.last();
    let b0 = if b.layers.len() == 0 {
        seq![Layer::Liquid { id: top.spec_id(), volume: 0 }]
    } else {
        b.layers
    };
    let lb = b0.len() - 1;
    let under = b0.last();
    let amount = step_amount(b, t);
    lemma_seeded_total(b, top.spec_id());
    lemma_step_amount_within(b, t);
    lemma_top_within_total(a.layers);
    let xa = if top.spec_volume() > amount {
        Layer::Liquid { id: top.spec_id(), volume: (top.spec_volume() - amount) as u32 }
    } else {
        Layer::Liquid { id: top.spec_id(), volume: 0 }
    };
    let xb = if top.spec_volume() > amount {
        Layer::Liquid { id: under.spec_id(), volume: (under.spec_volume() + amount) as u32 }
    } else {
        Layer::Liquid {
            id: under.spec_id(),
            volume: (under.spec_volume() + top.spec_volume()) as u32,
        }
    };
    lemma_total_set_top(a.layers, xa);
    lemma_total_set_top(b0, xb);
    let ua = a.layers.update(la, xa);
    let ub = b0.update(lb, xb);
    lemma_total_discarded(ua);
    lemma_total_discarded(ub);
    if top.spec_volume() > amount {
        lemma_total_without_dry_top(discarded(ua));
        assert(ua.last() == xa);
        assert(ub.last() == xb);
    } else {
        lemma_total_without_dry_top(ua);
    }
}

/// The vials after a liquid transfer driven through the progress values `ts`,
/// stopping at the first step that returns nothing.
pub open spec fn liquid_run(a: VialView, b: VialView, ts: Seq<u32>) -> (VialView, VialView)
    decreases ts.len(),
{
    if ts.len() == 0 {
        (a, b)
    } else {
        match spec_lerp(Transfer::Liquid, a, b, ts[0]) {
            Some((a2, b2)) => liquid_run(a2, b2, ts.drop_first()),
            None => (a, b),
        }
    }
}

/// Over a whole liquid transfer no liquid is created, and what is lost is at
/// most what `discard_empties` drops: `2 * VOLUME_EPSILON` for each step taken.
pub proof fn lemma_liquid_run_conserves_volume(a: VialView, b: VialView, ts: Seq<u32>)
    requires
        a.wf(),
        b.wf(),
    ensures
        ({
            let (a2, b2) = liquid_run(a, b, ts);
            &&& a2.wf() && b2.wf()
            &&& a2.vol() + b2.vol() <= a.vol() + b.vol()
            &&& a.vol() + b.vol() <= a2.vol() + b2.vol() + 2 * VOLUME_EPSILON * ts.len()
        }),
    decreases ts.len(),
{
    if ts.len() > 0 {
        if let Some((a2, b2)) = spec_lerp(Transfer::Liquid, a, b, ts[0]) {
            lemma_liquid_step_conserves_volume(a, b, ts[0]);
            lemma_transfer_keeps_capacity(Transfer::Liquid, a, b, ts[0]);
            lemma_liquid_run_conserves_volume(a2, b2, ts.drop_first());
            assert(2 * VOLUME_EPSILON * ts.len() == 2 * VOLUME_EPSILON * ts.drop_first().len() + 2
                * VOLUME_EPSILON) by (nonlinear_arith)
                requires
                    ts.drop_first().len() + 1 == ts.len(),
            ;
        }
    }
}

/// After any transfer step both vials stay within their capacity.
pub proof fn lemma_transfer_keeps_capacity(tr: Transfer, a: VialView, b: VialView, t: u32)
    requires
        a.wf(),
        b.wf(),
        spec_lerp(tr, a, b, t) is Some,
    ensures
        spec_lerp(tr, a, b, t).unwrap().0.wf(),
        spec_lerp(tr, a, b, t).unwrap().1.wf(),
        spec_lerp(tr, a, b, t).unwrap().1.vol() <= spec_lerp(tr, a, b, t).unwrap().1.max_volume,
{
    if tr is Liquid {
        let la = a.layers.len() - 1;
        let top = a.layers.last();
        let b0 = if b.layers.len() == 0 {
            seq![Layer::Liquid { id: top.spec_id(), volume: 0 }]
        } else {
            b.layers
        };
        let lb = b0.len() - 1;
        let under = b0.last();
        let amount = step_amount(b, t);
        lemma_seeded_total(b, top.spec_id());
        lemma_step_amount_within(b, t);
        lemma_top_within_total(a.layers);
        let xa = if top.spec_volume() > amount {
            Layer::Liquid { id: top.spec_id(), volume: (top.spec_volume() - amount) as u32 }
        } else {
            Layer::Liquid { id: top.spec_id(), volume: 0 }
        };
        let xb = if top.spec_volume() > amount {
            Layer::Liquid { id: under.spec_id(), volume: (under.spec_volume() + amount) as u32 }
        } else {
            Layer::Liquid {
                id: under.spec_id(),
                volume: (under.spec_volume() + top.spec_volume()) as u32,
            }
        };
        let ua = a.layers.update(la, xa);
        let ub = b0.update(lb, xb);
        lemma_total_set_top(a.layers, xa);
        lemma_total_set_top(b0, xb);
        lemma_total_discarded(ua);
        lemma_total_discarded(ub);
        lemma_total_without_dry_top(discarded(ua));
        lemma_total_without_dry_top(ua);
        assert(total(ub) <= b.max_volume);
    }
}

/// A vial with liquid starts a liquid transfer exactly when the destination
/// is empty or shows the same colour on top, and has room; two vials whose top
/// colours differ cannot pour into each other either way.
pub proof fn lemma_pour_legality(a: VialView, b: VialView)
    requires
        b.wf(),
    ensures
        a.layers.len() > 0 ==> (spec_pour(a, b) == Some(Transfer::Liquid) <==> ((b.layers.len()
            == 0 || a.layers.last().spec_id() == b.layers.last().spec_id()) && b.headroom()
            > 0)),
        a.layers.len() > 0 ==> (spec_pour(a, b) is None <==> spec_pour(a, b) != Some(
            Transfer::Liquid,
        )),
        a.layers.len() > 0 && b.layers.len() > 0 && a.layers.last().spec_id()
            != b.layers.last().spec_id() ==> spec_pour(a, b) is None && spec_pour(b, a) is None,
{
}

/// Discarding empties twice does what discarding once does, unless the two
/// top layers are both (nearly) empty.
pub proof fn lemma_discard_empties_idempotent(v: VialView)
    requires
        !(v.layers.len() >= 2 && v.layers.last().spec_volume() <= VOLUME_EPSILON
            && v.layers[v.layers.len() - 2].spec_volume() <= VOLUME_EPSILON),
    ensures
        discarded(discarded(v.layers)) == discarded(v.layers),
{
    if v.layers.len() > 0 && v.layers.last().spec_volume() <= VOLUME_EPSILON {
        let d = v.layers.drop_last();
        if d.len() > 0 {
            assert(d.last() == v.layers[v.layers.len() - 2]);
        }
    }
}

/// Mixing depends on the top two layers and the palette alone: two vials
/// with the same top two layers append the same colour and end with the same
/// merged layer, whose volume is the sum of the two.
pub proof fn lemma_mix_deterministic(
    v1: VialView,
    v2: VialView,
    palette: Seq<Color>,
    blended: Color,
)
    requires
        v1.wf(),
        v2.wf(),
        v1.layers.len() >= 2,
        v2.layers.len() >= 2,
        v1.layers.last() == v2.layers.last(),
        v1.layers[v1.layers.len() - 2] == v2.layers[v2.layers.len() - 2],
    ensures
        spec_mix(v1, palette, blended) is Some,
        spec_mix(v2, palette, blended) is Some,
        spec_mix(v1, palette, blended).unwrap().1 == spec_mix(v2, palette, blended).unwrap().1,
        spec_mix(v1, palette, blended).unwrap().0.layers.last() == spec_mix(
            v2,
            palette,
            blended,
        ).unwrap().0.layers.last(),
        spec_mix(v1, palette, blended).unwrap().0.layers.last() == (Layer::Liquid {
            id: palette.len() as usize,
            volume: (v1.layers.last().spec_volume() + v1.layers[v1.layers.len()
                - 2].spec_volume()) as u32,
        }),
        spec_mix(v1, palette, blended).unwrap().0.layers.last().spec_volume() == v1.layers.last().spec_volume()
            + v1.layers[v1.layers.len() - 2].spec_volume(),
{
    lemma_top_two_fit(v1.layers);
}

proof fn lemma_top_two_fit(layers: Seq<Layer>)
    requires
        layers.len() >= 2,
        total(layers) <= u32::MAX,
    ensures
        layers.last().spec_volume() + layers[layers.len() - 2].spec_volume() <= u32::MAX,
{
    let d = layers.drop_last();
    assert(d.last() == layers[layers.len() - 2]);
    assert(total(layers) == total(d) + layers.last().spec_volume());
    assert(total(d) == total(d.drop_last()) + d.last().spec_volume());
    lemma_total_bounds(d.drop_last(), 0);
    assert(d.drop_last().take(0) =~= Seq::<Layer>::empty());
}

/// Whether an object is flagged to break.
pub open spec fn breaking(o: Object) -> bool {
    o.flags.break_now
}

proof fn lemma_pieces_count(objs: Seq<Object>, n: int)
    requires
        0 <= n <= objs.len(),
    ensures
        pieces(objs, n).len() == objs.take(n).filter(|o: Object| breaking(o)).len(),
        forall|k: int|
            0 <= k < pieces(objs, n).len() ==> !(#[trigger] pieces(objs, n)[k]).flags.break_now,
        pieces(objs, n).len() > 0 <==> exists|i: int| 0 <= i < n && (#[trigger] objs[i]).flags.break_now,
    decreases n,
{
    reveal(Seq::filter);
    if n > 0 {
        lemma_pieces_count(objs, n - 1);
        if pieces(objs, n - 1).len() > 0 {
            let i = choose|i: int| 0 <= i < n - 1 && (#[trigger] objs[i]).flags.break_now;
            assert(0 <= i < n && objs[i].flags.break_now);
        }
        assert(objs.take(n).drop_last() =~= objs.take(n - 1));
        assert(objs.take(n).last() == objs[n - 1]);
    } else {
        assert(objs.take(0) =~= Seq::<Object>::empty());
    }
}

/// Breaking adds exactly one object for each object flagged to break, and
/// leaves no object flagged; a vial with none flagged does not change.
pub proof fn lemma_transition_adds_one_per_break(v: VialView)
    ensures
        spec_transition(v) is None <==> v.objects.filter(|o: Object| breaking(o)).len() == 0,
        spec_transition(v) matches Some(w) ==> {
            &&& w.objects.len() == v.objects.len() + v.objects.filter(|o: Object| breaking(o)).len()
            &&& forall|i: int| 0 <= i < w.objects.len() ==> !(#[trigger] w.objects[i]).flags.break_now
            &&& w.layers == v.layers
        },
{
    let n = v.objects.len() as int;
    lemma_pieces_count(v.objects, n);
    assert(v.objects.take(n) =~= v.objects);
    if let Some(w) = spec_transition(v) {
        assert forall|i: int| 0 <= i < w.objects.len() implies !(#[trigger] w.objects[i]).flags.break_now by {
            if i >= n {
                assert(w.objects[i] == pieces(v.objects, n)[i - n]);
            }
        }
    }
}

} // verus!
