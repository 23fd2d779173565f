//! The world: an entity store, a flat row-major canvas of characters, and the
//! tick loop that composites every entity's glyph onto the canvas in paint
//! order.

use vstd::prelude::*;

verus! {

/// Directional intent for one simulation step, decoded from one line of
/// player input.
pub struct PlayerInput {
    pub up: bool,
    pub down: bool,
    pub right: bool,
    pub left: bool,
}

/// One simulated object: a position on the grid, a type tag selecting paint
/// order and behaviour, and a horizontal run of display characters.
pub struct Entity {
    id: usize,
    x: usize,
    y: usize,
    typ_k: String,
    utf_art: Vec<char>,
}

/// The mathematical value of an [`Entity`].
#[verifier::ext_equal]
pub ghost struct EntityView {
    pub id: nat,
    pub x: nat,
    pub y: nat,
    pub typ: Seq<char>,
    pub glyph: Seq<char>,
}

impl View for Entity {
    type V = EntityView;

    closed spec fn view(&self) -> EntityView {
        EntityView {
            id: self.id as nat,
            x: self.x as nat,
            y: self.y as nat,
            typ: self.typ_k@,
            glyph: self.utf_art@,
        }
    }
}

/// The grid world: canvas dimensions, a time counter, the entity pool, and
/// the type paint order.
pub struct World {
    pub w: usize,
    pub h: usize,
    t: u64,
    entities: Vec<Entity>,
    entity_typ_order: Vec<String>,
    pub canvas_buf: Vec<char>,
}

/// The mathematical value of a [`World`].
#[verifier::ext_equal]
pub ghost struct WorldView {
    pub w: nat,
    pub h: nat,
    pub t: nat,
    pub entities: Seq<EntityView>,
    pub order: Seq<Seq<char>>,
    pub canvas: Seq<char>,
}

impl View for World {
    type V = WorldView;

    closed spec fn view(&self) -> WorldView {
        WorldView {
            w: self.w as nat,
            h: self.h as nat,
            t: self.t as nat,
            entities: self.entities@.map_values(|e: Entity| e@),
            order: self.entity_typ_order@.map_values(|s: String| s@),
            canvas: self.canvas_buf@,
        }
    }
}

/// The canvas cell at which an entity's glyph starts: row-major index of its
/// position.
pub open spec fn cell_base(e: EntityView, w: nat) -> nat {
    e.y * w + e.x
}

/// Whether cell `j` of the canvas lies under entity `e`'s glyph.
pub open spec fn covers(e: EntityView, w: nat, j: int) -> bool {
    cell_base(e, w) <= j < cell_base(e, w) + e.glyph.len()
}

/// The glyph character that entity `e` paints into cell `j`.
pub open spec fn glyph_at(e: EntityView, w: nat, j: int) -> char {
    e.glyph[j - cell_base(e, w)]
}

/// An entity's glyph lies entirely inside a `w` by `h` canvas.
pub open spec fn entity_in_bounds(e: EntityView, w: nat, h: nat) -> bool {
    &&& e.x + e.glyph.len() <= w
    &&& e.y < h
}

/// The canvas after painting one entity's glyph over `canvas`: glyph cells
/// take the glyph's characters, all other cells are unchanged.
pub open spec fn paint_entity(canvas: Seq<char>, e: EntityView, w: nat) -> Seq<char> {
    Seq::new(
        canvas.len(),
        |j: int|
            if covers(e, w, j) {
                glyph_at(e, w, j)
            } else {
                canvas[j]
            },
    )
}

/// The canvas after painting, in entity-store order, every entity whose type
/// tag equals `typ`. A later matching entity overwrites an earlier one where
/// their glyphs overlap.
pub open spec fn paint_matching(
    canvas: Seq<char>,
    entities: Seq<EntityView>,
    typ: Seq<char>,
    w: nat,
) -> Seq<char>
    decreases entities.len(),
{
    if entities.len() == 0 {
        canvas
    } else {
        let prev = paint_matching(canvas, entities.drop_last(), typ, w);
        if entities.last().typ == typ {
            paint_entity(prev, entities.last(), w)
        } else {
            prev
        }
    }
}

/// The canvas after painting every type tag of `order`, first to last: a type
/// listed later overwrites the cells of one listed earlier.
pub open spec fn paint_layers(
    canvas: Seq<char>,
    entities: Seq<EntityView>,
    order: Seq<Seq<char>>,
    w: nat,
) -> Seq<char>
    decreases order.len(),
{
    if order.len() == 0 {
        canvas
    } else {
        paint_matching(paint_layers(canvas, entities, order.drop_last(), w), entities, order.last(), w)
    }
}

/// A `w` by `h` canvas of background (space) characters.
pub open spec fn blank_canvas(w: nat, h: nat) -> Seq<char> {
    Seq::new(w * h, |j: int| ' ')
}

/// The canvas that one tick produces: background, then every type layer in
/// paint order.
pub open spec fn rendered(wv: WorldView) -> Seq<char> {
    paint_layers(blank_canvas(wv.w, wv.h), wv.entities, wv.order, wv.w)
}

/// Painting matching entities never changes the canvas length.
pub proof fn lemma_paint_matching_len(
    canvas: Seq<char>,
    entities: Seq<EntityView>,
    typ: Seq<char>,
    w: nat,
)
    ensures
        paint_matching(canvas, entities, typ, w).len() == canvas.len(),
    decreases entities.len(),
{
    if entities.len() > 0 {
        lemma_paint_matching_len(canvas, entities.drop_last(), typ, w);
    }
}

/// Painting every layer never changes the canvas length.
pub proof fn lemma_paint_layers_len(
    canvas: Seq<char>,
    entities: Seq<EntityView>,
    order: Seq<Seq<char>>,
    w: nat,
)
    ensures
        paint_layers(canvas, entities, order, w).len() == canvas.len(),
    decreases order.len(),
{
    if order.len() > 0 {
        lemma_paint_layers_len(canvas, entities, order.drop_last(), w);
        lemma_paint_matching_len(
            paint_layers(canvas, entities, order.drop_last(), w),
            entities,
            order.last(),
            w,
        );
    }
}

/// An in-bounds glyph occupies cells below `w * h`: its run starts in row `y`
/// at column `x` and ends before the row does.
pub proof fn lemma_cell_range(x: nat, y: nat, len: nat, w: nat, h: nat)
    by (nonlinear_arith)
    requires
        x + len <= w,
        y < h,
    ensures
        y * w + x + len <= w * h,
{
}

impl WorldView {
    /// Well-formedness: positive dimensions, a canvas of exactly
    /// `w * h` cells, and every entity's glyph inside the canvas.
    pub open spec fn wf(self) -> bool {
        &&& 1 <= self.w
        &&& 1 <= self.h
        &&& self.canvas.len() == self.w * self.h
        &&& forall|i: int|
            0 <= i < self.entities.len() ==> entity_in_bounds(
                #[trigger] self.entities[i],
                self.w,
                self.h,
            )
    }
}

/// What one tick leaves behind: dimensions, time, entity pool and paint
/// order are untouched, and the canvas is the full repaint of the pre-tick
/// entity state.
pub open spec fn tick_post(pre: WorldView, post: WorldView) -> bool {
    &&& post.w == pre.w
    &&& post.h == pre.h
    &&& post.t == pre.t
    &&& post.order == pre.order
    &&& post.entities == pre.entities
    &&& post.canvas == rendered(pre)
}

/// The entity present at world construction with the "thing" type tag.
pub open spec fn thing_start() -> EntityView {
    EntityView { id: 0, x: 3, y: 0, typ: "thing"@, glyph: seq!['#', '#'] }
}

/// The entity present at world construction with the "player" type tag.
pub open spec fn player_start() -> EntityView {
    EntityView { id: 1, x: 5, y: 0, typ: "player"@, glyph: seq!['@', '@'] }
}

/// The fixed entity pool that every world starts from.
pub open spec fn initial_entities() -> Seq<EntityView> {
    seq![thing_start(), player_start()]
}

/// The directional intent carried by one trimmed command line: `a`, `d`,
/// `w` and `s` set exactly the left, right, up and down flag; any other
/// text sets none of them.
pub open spec fn command_intent(cmd: Seq<char>) -> PlayerInput {
    PlayerInput {
        up: cmd == "w"@,
        down: cmd == "s"@,
        right: cmd == "d"@,
        left: cmd == "a"@,
    }
}

/// Decodes one trimmed command line into its directional intent. An
/// unrecognized command yields no movement at all.
pub fn parse_command(cmd: &String) -> (input: PlayerInput)
    ensures
        input == command_intent(cmd@),
{
    let up: bool = *cmd == "w".to_owned();
    let down: bool = *cmd == "s".to_owned();
    let right: bool = *cmd == "d".to_owned();
    let left: bool = *cmd == "a".to_owned();
    PlayerInput { up, down, right, left }
}

/// The horizontal position after one input: one cell left when `left` is set
/// and the glyph is not already at the left edge, then one cell right when
/// `right` is set and the glyph would stay inside the canvas. An out-of-bounds
/// request is dropped for that axis alone.
pub open spec fn step_x(x: nat, input: PlayerInput, w: nat, glyph_len: nat) -> nat {
    let x1 = if input.left && x > 0 {
        (x - 1) as nat
    } else {
        x
    };
    if input.right && x1 + glyph_len < w {
        x1 + 1
    } else {
        x1
    }
}

/// The vertical position after one input: one cell down when `down` is set
/// and the row below exists, then one cell up when `up` is set and a row
/// above exists.
pub open spec fn step_y(y: nat, input: PlayerInput, h: nat) -> nat {
    let y1 = if input.down && y + 1 < h {
        y + 1
    } else {
        y
    };
    if input.up && y1 > 0 {
        (y1 - 1) as nat
    } else {
        y1
    }
}

/// The entity after one input is applied: a player entity moves by
/// [`step_x`] and [`step_y`]; any other entity is unchanged.
pub open spec fn step_entity(e: EntityView, input: PlayerInput, w: nat, h: nat) -> EntityView {
    if e.typ == "player"@ {
        EntityView { x: step_x(e.x, input, w, e.glyph.len()), y: step_y(e.y, input, h), ..e }
    } else {
        e
    }
}

impl World {
    /// Well-formedness of the world's mathematical value.
    pub open spec fn wf(&self) -> bool {
        self@.wf()
    }

    /// Builds a world: the fixed two-entity pool and a `w * h` canvas of
    /// background cells. The time counter starts at zero.
    pub fn new(w: usize, h: usize, entity_typ_order: Vec<String>) -> (world: World)
        requires
            1 <= w,
            1 <= h,
            w * h <= usize::MAX,
        ensures
            world@.w == w,
            world@.h == h,
            world@.t == 0,
            world@.entities =~= initial_entities(),
            world@.order =~= entity_typ_order@.map_values(|s: String| s@),
            world@.canvas =~= blank_canvas(w as nat, h as nat),
    {
        let mut entities: Vec<Entity> = Vec::new();

        let mut thing_art: Vec<char> = Vec::new();
        thing_art.push('#');
        thing_art.push('#');
        entities.push(Entity { id: 0, x: 3, y: 0, typ_k: "thing".to_owned(), utf_art: thing_art });

        let mut player_art: Vec<char> = Vec::new();
        player_art.push('@');
        player_art.push('@');
        entities.push(
            Entity { id: 1, x: 5, y: 0, typ_k: "player".to_owned(), utf_art: player_art },
        );

        let canvas_len: usize = w * h;
        let mut canvas_buf: Vec<char> = Vec::new();
        let mut i: usize = 0;
        while i < canvas_len
            invariant
                i <= canvas_len,
                canvas_buf@.len() == i,
                forall|j: int| 0 <= j < i ==> canvas_buf@[j] == ' ',
            decreases canvas_len - i,
        {
            canvas_buf.push(' ');
            i = i + 1;
        }

        let world = World { w, h, t: 0, entities, entity_typ_order, canvas_buf };
        proof {
            assert(world@.entities[0] =~= thing_start());
            assert(world@.entities[1] =~= player_start());
            assert(world@.entities =~= initial_entities());
        }
        world
    }

    /// Applies one directional input to every player entity, per-axis and
    /// clamped so the glyph stays fully inside the canvas. Entities of any
    /// other type, and the canvas itself, are untouched.
    #[verifier::loop_isolation(false)]
    pub fn tick_typ(&mut self, player_input: &PlayerInput)
        requires
            old(self).wf(),
        ensures
            final(self).wf(),
            final(self)@.w == old(self)@.w,
            final(self)@.h == old(self)@.h,
            final(self)@.t == old(self)@.t,
            final(self)@.order == old(self)@.order,
            final(self)@.canvas == old(self)@.canvas,
            final(self)@.entities.len() == old(self)@.entities.len(),
            forall|i: int|
                0 <= i < old(self)@.entities.len() ==> final(self)@.entities[i] == step_entity(
                    old(self)@.entities[i],
                    *player_input,
                    old(self)@.w,
                    old(self)@.h,
                ),
    {
        let player: String = "player".to_owned();
        let n: usize = self.entities.len();
        let mut i: usize = 0;
        while i < n
            invariant
                i <= n,
                n == self.entities@.len(),
                self.w == old(self).w,
                self.h == old(self).h,
                self.t == old(self).t,
                self.entity_typ_order@ == old(self).entity_typ_order@,
                self.canvas_buf@ == old(self).canvas_buf@,
                forall|j: int|
                    0 <= j < i ==> #[trigger] self@.entities[j] == step_entity(
                        old(self)@.entities[j],
                        *player_input,
                        old(self)@.w,
                        old(self)@.h,
                    ),
                forall|j: int| i <= j < n ==> #[trigger] self.entities@[j] == old(self).entities@[j],
            decreases n - i,
        {
            let ghost pre = self.entities@;
            let ghost pre_view = self@;
            proof {
                assert(entity_in_bounds(old(self)@.entities[i as int], old(self)@.w, old(self)@.h));
            }
            if self.entities[i].typ_k == player {
                if player_input.left && self.entities[i].x > 0 {
                    self.entities[i].x = self.entities[i].x - 1;
                }
                if player_input.right && self.entities[i].x + self.entities[i].utf_art.len()
                    < self.w {
                    self.entities[i].x = self.entities[i].x + 1;
                }
                if player_input.down && self.entities[i].y + 1 < self.h {
                    self.entities[i].y = self.entities[i].y + 1;
                }
                if player_input.up && self.entities[i].y > 0 {
                    self.entities[i].y = self.entities[i].y - 1;
                }
            }
            proof {
                assert(self@.entities[i as int] =~= step_entity(
                    old(self)@.entities[i as int],
                    *player_input,
                    old(self)@.w,
                    old(self)@.h,
                ));
                assert(forall|j: int|
                    0 <= j < pre.len() && j != i ==> #[trigger] self.entities@[j] == pre[j]);
                assert(forall|j: int|
                    0 <= j < pre.len() && j != i ==> #[trigger] self@.entities[j]
                        == pre_view.entities[j]);
                assert(forall|j: int|
                    0 <= j < i ==> #[trigger] self@.entities[j] == step_entity(
                        old(self)@.entities[j],
                        *player_input,
                        old(self)@.w,
                        old(self)@.h,
                    ));
            }
            i = i + 1;
        }
    }

    /// Paints every entity whose type tag equals `typ_k` onto the canvas, in
    /// entity-store order: glyph character `g` lands at the cell `g` columns
    /// right of the entity's position, and a later matching entity overwrites
    /// an earlier one where their glyphs overlap.
    #[verifier::loop_isolation(false)]
    pub fn set_canvas_buf_typ(&mut self, typ_k: &String)
        requires
            old(self).wf(),
        ensures
            final(self).wf(),
            final(self)@.w == old(self)@.w,
            final(self)@.h == old(self)@.h,
            final(self)@.t == old(self)@.t,
            final(self)@.order == old(self)@.order,
            final(self)@.entities == old(self)@.entities,
            final(self)@.canvas =~= paint_matching(
                old(self)@.canvas,
                old(self)@.entities,
                typ_k@,
                old(self)@.w,
            ),
    {
        let n: usize = self.entities.len();
        let mut i: usize = 0;
        while i < n
            invariant
                i <= n,
                n == self.entities@.len(),
                self.w == old(self).w,
                self.h == old(self).h,
                self.t == old(self).t,
                self.entities@ == old(self).entities@,
                self.entity_typ_order@ == old(self).entity_typ_order@,
                self.canvas_buf@.len() == old(self).canvas_buf@.len(),
                self.canvas_buf@ =~= paint_matching(
                    old(self).canvas_buf@,
                    old(self)@.entities.take(i as int),
                    typ_k@,
                    old(self)@.w,
                ),
            decreases n - i,
        {
            let ghost ents = old(self)@.entities;
            if self.entities[i].typ_k == *typ_k {
                let x: usize = self.entities[i].x;
                let y: usize = self.entities[i].y;
                let glyph_len: usize = self.entities[i].utf_art.len();
                let ghost ev = self.entities@[i as int]@;
                let cl: usize = self.canvas_buf.len();
                proof {
                    assert(ev == old(self)@.entities[i as int]);
                    assert(entity_in_bounds(ev, old(self)@.w, old(self)@.h));
                    lemma_cell_range(
                        x as nat,
                        y as nat,
                        glyph_len as nat,
                        old(self)@.w,
                        old(self)@.h,
                    );
                    assert(y * old(self)@.w + x + glyph_len <= cl);
                }
                let base: usize = y * self.w + x;
                let ghost cpre = self.canvas_buf@;
                let mut g: usize = 0;
                while g < glyph_len
                    invariant
                        g <= glyph_len,
                        self.w == old(self).w,
                        self.h == old(self).h,
                        self.t == old(self).t,
                        self.entities@ == old(self).entities@,
                        self.entity_typ_order@ == old(self).entity_typ_order@,
                        self.canvas_buf@.len() == cpre.len(),
                        forall|j: int|
                            0 <= j < cpre.len() && !(base <= j < base + g)
                                ==> #[trigger] self.canvas_buf@[j] == cpre[j],
                        forall|j: int|
                            base <= j < base + g ==> #[trigger] self.canvas_buf@[j]
                                == ev.glyph[j - base],
                    decreases glyph_len - g,
                {
                    let c: char = self.entities[i].utf_art[g];
                    let idx: usize = base + g;
                    self.canvas_buf[idx] = c;
                    g = g + 1;
                }
                proof {
                    assert(cell_base(ev, old(self)@.w) == base);
                    assert(self.canvas_buf@ =~= paint_entity(cpre, ev, old(self)@.w));
                    assert(ents.take(i + 1).drop_last() =~= ents.take(i as int));
                    assert(ents.take(i + 1).last() == ents[i as int]);
                    assert(self.canvas_buf@ =~= paint_matching(
                        old(self).canvas_buf@,
                        ents.take(i + 1),
                        typ_k@,
                        old(self)@.w,
                    ));
                }
            } else {
                proof {
                    assert(ents.take(i + 1).drop_last() =~= ents.take(i as int));
                    assert(ents.take(i + 1).last() == ents[i as int]);
                    assert(self.canvas_buf@ =~= paint_matching(
                        old(self).canvas_buf@,
                        ents.take(i + 1),
                        typ_k@,
                        old(self)@.w,
                    ));
                }
            }
            i = i + 1;
        }
        proof {
            assert(old(self)@.entities.take(n as int) =~= old(self)@.entities);
        }
    }

    /// One render step: resets every canvas cell to the background character,
    /// then paints every type tag of the paint order, first to last, so that
    /// a later type overwrites an earlier one where glyphs overlap.
    #[verifier::loop_isolation(false)]
    pub fn tick(&mut self)
        requires
            old(self).wf(),
        ensures
            final(self).wf(),
            tick_post(old(self)@, final(self)@),
    {
        let len: usize = self.canvas_buf.len();
        let mut i: usize = 0;
        while i < len
            invariant
                i <= len,
                self.w == old(self).w,
                self.h == old(self).h,
                self.t == old(self).t,
                self.entities@ == old(self).entities@,
                self.entity_typ_order@ == old(self).entity_typ_order@,
                self.canvas_buf@.len() == len,
                forall|j: int| 0 <= j < i ==> #[trigger] self.canvas_buf@[j] == ' ',
            decreases len - i,
        {
            self.canvas_buf[i] = ' ';
            i = i + 1;
        }
        proof {
            assert(self.canvas_buf@ =~= blank_canvas(old(self)@.w, old(self)@.h));
            assert(self@.entities == old(self)@.entities);
            assert(self@.order == old(self)@.order);
            assert(self.wf());
        }

        let m: usize = self.entity_typ_order.len();
        let mut k: usize = 0;
        while k < m
            invariant
                k <= m,
                m == self@.order.len(),
                self.wf(),
                self@.w == old(self)@.w,
                self@.h == old(self)@.h,
                self@.t == old(self)@.t,
                self@.entities == old(self)@.entities,
                self@.order == old(self)@.order,
                self.canvas_buf@ =~= paint_layers(
                    blank_canvas(old(self)@.w, old(self)@.h),
                    old(self)@.entities,
                    old(self)@.order.take(k as int),
                    old(self)@.w,
                ),
            decreases m - k,
        {
            let typ: String = self.entity_typ_order[k].clone();
            let ghost ord = old(self)@.order;
            self.set_canvas_buf_typ(&typ);
            proof {
                assert(typ@ == ord[k as int]);
                assert(ord.take(k + 1).drop_last() =~= ord.take(k as int));
                assert(ord.take(k + 1).last() == ord[k as int]);
                assert(self.canvas_buf@ =~= paint_layers(
                    blank_canvas(old(self)@.w, old(self)@.h),
                    old(self)@.entities,
                    ord.take(k + 1),
                    old(self)@.w,
                ));
            }
            k = k + 1;
        }
        proof {
            assert(old(self)@.order.take(m as int) =~= old(self)@.order);
        }
    }

    /// The `(x, y)` grid position of each entity, in entity-store order.
    #[verifier::loop_isolation(false)]
    pub fn entity_positions(&self) -> (ps: Vec<(usize, usize)>)
        ensures
            ps@.len() == self@.entities.len(),
            forall|i: int|
                0 <= i < ps@.len() ==> #[trigger] ps@[i].0 == self@.entities[i].x && ps@[i].1
                    == self@.entities[i].y,
    {
        let mut ps: Vec<(usize, usize)> = Vec::new();
        let n: usize = self.entities.len();
        let mut i: usize = 0;
        while i < n
            invariant
                i <= n,
                ps@.len() == i,
                forall|j: int|
                    0 <= j < i ==> #[trigger] ps@[j].0 == self@.entities[j].x && ps@[j].1
                        == self@.entities[j].y,
            decreases n - i,
        {
            ps.push((self.entities[i].x, self.entities[i].y));
            i = i + 1;
        }
        ps
    }

    /// Advances the simulation one frame: repaints the canvas from the
    /// current entity state and moves the time counter one step forward.
    /// Always yields the new time; the iteration never reports exhaustion.
    pub fn next(&mut self) -> (t: Option<u64>)
        requires
            old(self).wf(),
            old(self)@.t < u64::MAX,
        ensures
            final(self).wf(),
            final(self)@.w == old(self)@.w,
            final(self)@.h == old(self)@.h,
            final(self)@.order == old(self)@.order,
            final(self)@.entities == old(self)@.entities,
            final(self)@.canvas == rendered(old(self)@),
            final(self)@.t == old(self)@.t + 1,
            t == Some((old(self)@.t + 1) as u64),
    {
        self.tick();
        self.t = self.t + 1;
        Some(self.t)
    }
}

} // verus!
