//! Proved properties of the compositing and movement model: which character
//! each canvas cell shows after a repaint, that repainting is a pure function
//! of entity state, and that clamped movement keeps an entity inside the
//! canvas.

use vstd::prelude::*;

use crate::world::{
    EntityView, PlayerInput, WorldView, blank_canvas, cell_base, covers, entity_in_bounds,
    glyph_at, lemma_cell_range, lemma_paint_layers_len, lemma_paint_matching_len, paint_layers,
    paint_matching, rendered, step_entity, tick_post,
};

verus! {

/// A cell that no matching entity covers keeps the character it had before
/// the type was painted.
pub proof fn lemma_paint_matching_cell_untouched(
    canvas: Seq<char>,
    entities: Seq<EntityView>,
    typ: Seq<char>,
    w: nat,
    j: int,
)
    requires
        0 <= j < canvas.len(),
        forall|k: int|
            0 <= k < entities.len() && (#[trigger] entities[k]).typ == typ ==> !covers(
                entities[k],
                w,
                j,
            ),
    ensures
        paint_matching(canvas, entities, typ, w)[j] == canvas[j],
    decreases entities.len(),
{
    if entities.len() > 0 {
        lemma_paint_matching_cell_untouched(canvas, entities.drop_last(), typ, w, j);
        lemma_paint_matching_len(canvas, entities.drop_last(), typ, w);
        assert(entities.last() == entities[entities.len() - 1]);
    }
}

/// The last matching entity that covers a cell decides its character: after
/// the type is painted, the cell shows that entity's glyph character for the
/// cell's offset within the glyph.
pub proof fn lemma_paint_matching_cell_writer(
    canvas: Seq<char>,
    entities: Seq<EntityView>,
    typ: Seq<char>,
    w: nat,
    j: int,
    k: int,
)
    requires
        0 <= j < canvas.len(),
        0 <= k < entities.len(),
        entities[k].typ == typ,
        covers(entities[k], w, j),
        forall|k2: int|
            k < k2 < entities.len() && (#[trigger] entities[k2]).typ == typ ==> !covers(
                entities[k2],
                w,
                j,
            ),
    ensures
        paint_matching(canvas, entities, typ, w)[j] == glyph_at(entities[k], w, j),
    decreases entities.len(),
{
    lemma_paint_matching_len(canvas, entities.drop_last(), typ, w);
    if k == entities.len() - 1 {
        assert(entities.last() == entities[k]);
    } else {
        let sub = entities.drop_last();
        assert(sub[k] == entities[k]);
        assert(forall|k2: int|
            k < k2 < sub.len() && (#[trigger] sub[k2]).typ == typ ==> !covers(sub[k2], w, j));
        lemma_paint_matching_cell_writer(canvas, sub, typ, w, j, k);
        assert(entities.last() == entities[entities.len() - 1]);
    }
}

/// A cell that no entity of any type in the paint order covers keeps the
/// character of the base canvas through every layer.
pub proof fn lemma_paint_layers_cell_untouched(
    canvas: Seq<char>,
    entities: Seq<EntityView>,
    order: Seq<Seq<char>>,
    w: nat,
    j: int,
)
    requires
        0 <= j < canvas.len(),
        forall|oi: int, k: int|
            0 <= oi < order.len() && 0 <= k < entities.len() && (#[trigger] entities[k]).typ == (
            #[trigger] order[oi]) ==> !covers(entities[k], w, j),
    ensures
        paint_layers(canvas, entities, order, w)[j] == canvas[j],
    decreases order.len(),
{
    if order.len() > 0 {
        let prev = paint_layers(canvas, entities, order.drop_last(), w);
        lemma_paint_layers_cell_untouched(canvas, entities, order.drop_last(), w, j);
        lemma_paint_layers_len(canvas, entities, order.drop_last(), w);
        assert(order.last() == order[order.len() - 1]);
        lemma_paint_matching_cell_untouched(prev, entities, order.last(), w, j);
    }
}

/// Which character a cell shows after a full repaint: the glyph of the last
/// matching entity of the last type in the paint order that covers the cell.
pub proof fn lemma_paint_layers_cell_writer(
    canvas: Seq<char>,
    entities: Seq<EntityView>,
    order: Seq<Seq<char>>,
    w: nat,
    j: int,
    oi: int,
    k: int,
)
    requires
        0 <= j < canvas.len(),
        0 <= oi < order.len(),
        0 <= k < entities.len(),
        entities[k].typ == order[oi],
        covers(entities[k], w, j),
        forall|k2: int|
            k < k2 < entities.len() && (#[trigger] entities[k2]).typ == order[oi] ==> !covers(
                entities[k2],
                w,
                j,
            ),
        forall|oi2: int, k2: int|
            oi < oi2 < order.len() && 0 <= k2 < entities.len() && (#[trigger] entities[k2]).typ
                == (#[trigger] order[oi2]) ==> !covers(entities[k2], w, j),
    ensures
        paint_layers(canvas, entities, order, w)[j] == glyph_at(entities[k], w, j),
    decreases order.len(),
{
    let prev = paint_layers(canvas, entities, order.drop_last(), w);
    lemma_paint_layers_len(canvas, entities, order.drop_last(), w);
    assert(order.last() == order[order.len() - 1]);
    if oi == order.len() - 1 {
        lemma_paint_matching_cell_writer(prev, entities, order.last(), w, j, k);
    } else {
        let sub = order.drop_last();
        assert(sub[oi] == order[oi]);
        lemma_paint_layers_cell_writer(canvas, entities, sub, w, j, oi, k);
        lemma_paint_matching_cell_untouched(prev, entities, order.last(), w, j);
    }
}

/// Glyph readback: after its type is painted, every glyph cell of a matching
/// entity that no later entity of that type overlaps shows exactly the
/// entity's glyph characters, in order.
pub proof fn lemma_painted_glyph(
    canvas: Seq<char>,
    entities: Seq<EntityView>,
    typ: Seq<char>,
    w: nat,
    h: nat,
    k: int,
)
    requires
        canvas.len() == w * h,
        0 <= k < entities.len(),
        entities[k].typ == typ,
        entity_in_bounds(entities[k], w, h),
        forall|k2: int, j: int|
            k < k2 < entities.len() && (#[trigger] entities[k2]).typ == typ && covers(
                entities[k],
                w,
                j,
            ) ==> !(#[trigger] covers(entities[k2], w, j)),
    ensures
        forall|g: int|
            0 <= g < entities[k].glyph.len() ==> #[trigger] paint_matching(
                canvas,
                entities,
                typ,
                w,
            )[cell_base(entities[k], w) + g] == entities[k].glyph[g],
{
    let e = entities[k];
    lemma_cell_range(e.x, e.y, e.glyph.len(), w, h);
    assert forall|g: int| 0 <= g < e.glyph.len() implies #[trigger] paint_matching(
        canvas,
        entities,
        typ,
        w,
    )[cell_base(e, w) + g] == e.glyph[g] by {
        let j = cell_base(e, w) + g;
        assert(covers(e, w, j));
        lemma_paint_matching_cell_writer(canvas, entities, typ, w, j, k);
        assert(glyph_at(e, w, j) == e.glyph[g]);
    }
}

/// Repainting is a pure function of entity state: a tick after a tick with
/// no input applied in between leaves the canvas exactly as the first tick
/// left it.
pub proof fn lemma_tick_idempotent(pre: WorldView, mid: WorldView, post: WorldView)
    requires
        tick_post(pre, mid),
        tick_post(mid, post),
    ensures
        post.canvas == mid.canvas,
{
    assert(rendered(mid) == rendered(pre));
}

/// Paint order wins: where an entity of a later type in the paint order
/// covers the same cell as an entity of an earlier type, the repainted
/// canvas shows the later type's glyph there, whatever the entities' order
/// in the store.
pub proof fn lemma_paint_order(
    wv: WorldView,
    j: int,
    a: int,
    oa: int,
    b: int,
    ob: int,
)
    requires
        wv.wf(),
        0 <= j < wv.w * wv.h,
        0 <= a < wv.entities.len(),
        0 <= b < wv.entities.len(),
        0 <= oa < ob < wv.order.len(),
        wv.entities[a].typ == wv.order[oa],
        wv.entities[b].typ == wv.order[ob],
        covers(wv.entities[a], wv.w, j),
        covers(wv.entities[b], wv.w, j),
        forall|k2: int|
            b < k2 < wv.entities.len() && (#[trigger] wv.entities[k2]).typ == wv.order[ob]
                ==> !covers(wv.entities[k2], wv.w, j),
        forall|oi2: int, k2: int|
            ob < oi2 < wv.order.len() && 0 <= k2 < wv.entities.len() && (
            #[trigger] wv.entities[k2]).typ == (#[trigger] wv.order[oi2]) ==> !covers(
                wv.entities[k2],
                wv.w,
                j,
            ),
    ensures
        rendered(wv)[j] == glyph_at(wv.entities[b], wv.w, j),
{
    lemma_paint_layers_cell_writer(
        blank_canvas(wv.w, wv.h),
        wv.entities,
        wv.order,
        wv.w,
        j,
        ob,
        b,
    );
}

/// The entity state after a whole sequence of inputs, applied first to last.
pub open spec fn step_entity_many(
    e: EntityView,
    inputs: Seq<PlayerInput>,
    w: nat,
    h: nat,
) -> EntityView
    decreases inputs.len(),
{
    if inputs.len() == 0 {
        e
    } else {
        step_entity(step_entity_many(e, inputs.drop_last(), w, h), inputs.last(), w, h)
    }
}

/// One clamped movement step keeps an entity inside the canvas: its position
/// never goes below zero on either axis, and its glyph's rightmost cell
/// never passes the last column.
pub proof fn lemma_step_in_bounds(e: EntityView, input: PlayerInput, w: nat, h: nat)
    requires
        entity_in_bounds(e, w, h),
    ensures
        entity_in_bounds(step_entity(e, input, w, h), w, h),
{
}

/// Clamping: however many inputs are applied in sequence — left movement at
/// the left edge, right movement at the right edge included — an entity that
/// starts inside the canvas stays inside it.
pub proof fn lemma_clamping(e: EntityView, inputs: Seq<PlayerInput>, w: nat, h: nat)
    requires
        entity_in_bounds(e, w, h),
    ensures
        entity_in_bounds(step_entity_many(e, inputs, w, h), w, h),
    decreases inputs.len(),
{
    if inputs.len() > 0 {
        lemma_clamping(e, inputs.drop_last(), w, h);
        lemma_step_in_bounds(step_entity_many(e, inputs.drop_last(), w, h), inputs.last(), w, h);
    }
}

} // verus!
