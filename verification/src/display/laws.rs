//! What holds of every composition.
use vstd::prelude::*;

use crate::display::compose::{
    base_map, claim, draw_instances, draw_layers, draw_spec, drawable, handed_on, leaf_output,
    lemma_cell, lemma_occupied_same, lemma_occupied_take, occupied, same_slots, stamped, Canvas,
    Viewport,
};
use crate::display::layout::{clip, lemma_resolve_parent_twice, resolve_parent, Clip};
use crate::frame::{FrameID, FrameView, Instance};

verus! {

/// Whether a slot of the table holds what it held, or the parent that it
/// held with its instances placed by its grid.
pub open spec fn placed_or_same(before: Option<FrameView>, after: Option<FrameView>) -> bool {
    ||| after == before
    ||| (before matches Some(FrameView::Parent(parent)) && after == Some(
        FrameView::Parent(resolve_parent(parent)),
    ))
}

/// Whether two tables differ at most in that parents of the first have
/// their instances placed in the second.
pub open spec fn only_placed(before: Seq<Option<FrameView>>, after: Seq<Option<FrameView>>) -> bool {
    &&& before.len() == after.len()
    &&& forall|i: int| 0 <= i < before.len() ==> placed_or_same(before[i], #[trigger] after[i])
}

/// Whether drawing onto `before` can have given `after`: the table changes
/// at most by the placing of instances, the output only grows, and the
/// hit-test map changes only while it is rebuilt.
pub open spec fn drawn_from(
    v: Viewport,
    before: (Canvas, Seq<Option<FrameView>>),
    after: (Canvas, Seq<Option<FrameView>>),
) -> bool {
    &&& only_placed(before.1, after.1)
    &&& same_slots(after.1, before.1)
    &&& before.0.output.is_prefix_of(after.0.output)
    &&& !v.remap ==> after.0.cells == before.0.cells
}

/// What can be drawn in two steps can be drawn.
proof fn lemma_drawn_from_chain(
    v: Viewport,
    a: (Canvas, Seq<Option<FrameView>>),
    b: (Canvas, Seq<Option<FrameView>>),
    c: (Canvas, Seq<Option<FrameView>>),
)
    requires
        drawn_from(v, a, b),
        drawn_from(v, b, c),
    ensures
        drawn_from(v, a, c),
{
    assert forall|i: int| 0 <= i < a.1.len() implies placed_or_same(a.1[i], #[trigger] c.1[i]) by {
        assert(placed_or_same(a.1[i], b.1[i]));
        assert(placed_or_same(b.1[i], c.1[i]));
        match a.1[i] {
            Some(FrameView::Parent(parent)) => {
                lemma_resolve_parent_twice(parent);
            },
            _ => {},
        }
    }
    assert forall|i: int| 0 <= i < c.1.len() implies (#[trigger] c.1[i] is Some <==> a.1[i] is Some) by {
        assert(c.1[i] is Some <==> b.1[i] is Some);
        assert(b.1[i] is Some <==> a.1[i] is Some);
    }
}

/// Drawing a frame leaves the table's slots in use as they are and changes
/// the table at most by placing the instances of parents; it only adds to
/// the output; and it leaves the hit-test map alone unless the map is being
/// rebuilt.
pub proof fn lemma_draw(
    v: Viewport,
    canvas: Canvas,
    frames: Seq<Option<FrameView>>,
    id: FrameID,
    posX: int,
    posY: int,
    lenX: nat,
    lenY: nat,
)
    ensures
        drawn_from(v, (canvas, frames), draw_spec(v, canvas, frames, id, posX, posY, lenX, lenY)),
    decreases occupied(frames), 0nat, 0nat,
{
    if drawable(v, frames, id, posX, posY, lenX, lenY) {
        let c = clip(v.sizeX as nat, v.sizeY as nat, posX, posY, lenX, lenY)->0;
        let claimed = claim(v, canvas, c, id);
        let taken = frames.update(id - 1, None);
        lemma_occupied_take(frames, id - 1);
        match frames[id - 1]->0 {
            FrameView::Parent(parent) => {
                let placed = resolve_parent(parent);
                lemma_draw_instances(v, claimed, taken, placed.listOfInstances, 0, posX, posY);
                let inner = draw_instances(
                    v,
                    claimed,
                    taken,
                    placed.listOfInstances,
                    0,
                    posX,
                    posY,
                );
                let table = inner.1.update(id - 1, Some(FrameView::Parent(placed)));
                assert forall|i: int| 0 <= i < frames.len() implies placed_or_same(
                    frames[i],
                    #[trigger] table[i],
                ) by {
                    if i != id - 1 {
                        assert(placed_or_same(taken[i], inner.1[i]));
                    }
                }
                assert forall|i: int| 0 <= i < table.len() implies (#[trigger] table[i] is Some
                    <==> frames[i] is Some) by {
                    if i != id - 1 {
                        assert(inner.1[i] is Some <==> taken[i] is Some);
                    }
                }
            },
            FrameView::Layers(layers) => {
                lemma_draw_layers(v, claimed, taken, layers, 0, posX, posY, lenX, lenY);
                let inner = draw_layers(v, claimed, taken, layers, 0, posX, posY, lenX, lenY);
                let table = inner.1.update(id - 1, Some(FrameView::Layers(layers)));
                assert forall|i: int| 0 <= i < frames.len() implies placed_or_same(
                    frames[i],
                    #[trigger] table[i],
                ) by {
                    if i != id - 1 {
                        assert(placed_or_same(taken[i], inner.1[i]));
                    }
                }
                assert forall|i: int| 0 <= i < table.len() implies (#[trigger] table[i] is Some
                    <==> frames[i] is Some) by {
                    if i != id - 1 {
                        assert(inner.1[i] is Some <==> taken[i] is Some);
                    }
                }
            },
            _ => {},
        }
    }
}

/// Drawing the instances of a parent changes no more than drawing a frame does.
pub proof fn lemma_draw_instances(
    v: Viewport,
    canvas: Canvas,
    frames: Seq<Option<FrameView>>,
    instances: Seq<Instance>,
    k: nat,
    posX: int,
    posY: int,
)
    ensures
        drawn_from(
            v,
            (canvas, frames),
            draw_instances(v, canvas, frames, instances, k, posX, posY),
        ),
    decreases occupied(frames), 1nat, instances.len() - k,
{
    if k < instances.len() {
        let instance = instances[k as int];
        lemma_draw(
            v,
            canvas,
            frames,
            instance.frame,
            posX + instance.posX,
            posY + instance.posY,
            instance.lenX as nat,
            instance.lenY as nat,
        );
        let first = draw_spec(
            v,
            canvas,
            frames,
            instance.frame,
            posX + instance.posX,
            posY + instance.posY,
            instance.lenX as nat,
            instance.lenY as nat,
        );
        lemma_occupied_same(first.1, frames);
        lemma_draw_instances(v, first.0, first.1, instances, k + 1, posX, posY);
        lemma_drawn_from_chain(
            v,
            (canvas, frames),
            first,
            draw_instances(v, first.0, first.1, instances, k + 1, posX, posY),
        );
    }
}

/// Drawing the layers of a stack changes no more than drawing a frame does.
pub proof fn lemma_draw_layers(
    v: Viewport,
    canvas: Canvas,
    frames: Seq<Option<FrameView>>,
    layers: Seq<FrameID>,
    k: nat,
    posX: int,
    posY: int,
    lenX: nat,
    lenY: nat,
)
    ensures
        drawn_from(
            v,
            (canvas, frames),
            draw_layers(v, canvas, frames, layers, k, posX, posY, lenX, lenY),
        ),
    decreases occupied(frames), 1nat, layers.len() - k,
{
    if k < layers.len() {
        lemma_draw(v, canvas, frames, layers[k as int], posX, posY, lenX, lenY);
        let first = draw_spec(v, canvas, frames, layers[k as int], posX, posY, lenX, lenY);
        lemma_occupied_same(first.1, frames);
        lemma_draw_layers(v, first.0, first.1, layers, k + 1, posX, posY, lenX, lenY);
        lemma_drawn_from_chain(
            v,
            (canvas, frames),
            first,
            draw_layers(v, first.0, first.1, layers, k + 1, posX, posY, lenX, lenY),
        );
    }
}

/// The instances of a parent are drawn one after the other, each onto what
/// the one before has left of the canvas and of the table.
pub proof fn lemma_instances_in_order(
    v: Viewport,
    canvas: Canvas,
    frames: Seq<Option<FrameView>>,
    instances: Seq<Instance>,
    k: nat,
    posX: int,
    posY: int,
)
    requires
        k < instances.len(),
    ensures
        ({
            let first = draw_spec(
                v,
                canvas,
                frames,
                instances[k as int].frame,
                posX + instances[k as int].posX,
                posY + instances[k as int].posY,
                instances[k as int].lenX as nat,
                instances[k as int].lenY as nat,
            );
            draw_instances(v, canvas, frames, instances, k, posX, posY) == draw_instances(
                v,
                first.0,
                first.1,
                instances,
                k + 1,
                posX,
                posY,
            )
        }),
{
    lemma_draw(
        v,
        canvas,
        frames,
        instances[k as int].frame,
        posX + instances[k as int].posX,
        posY + instances[k as int].posY,
        instances[k as int].lenX as nat,
        instances[k as int].lenY as nat,
    );
}

/// The layers of a stack are drawn one after the other, each onto what the
/// one before has left of the canvas and of the table.
pub proof fn lemma_layers_in_order(
    v: Viewport,
    canvas: Canvas,
    frames: Seq<Option<FrameView>>,
    layers: Seq<FrameID>,
    k: nat,
    posX: int,
    posY: int,
    lenX: nat,
    lenY: nat,
)
    requires
        k < layers.len(),
    ensures
        ({
            let first = draw_spec(v, canvas, frames, layers[k as int], posX, posY, lenX, lenY);
            draw_layers(v, canvas, frames, layers, k, posX, posY, lenX, lenY) == draw_layers(
                v,
                first.0,
                first.1,
                layers,
                k + 1,
                posX,
                posY,
                lenX,
                lenY,
            )
        }),
{
    lemma_draw(v, canvas, frames, layers[k as int], posX, posY, lenX, lenY);
}

/// Whether a frame has no children: it renders itself.
pub open spec fn is_leaf(frame: FrameView) -> bool {
    !(frame is Parent) && !(frame is Layers)
}

/// The owner of the cell in column `x` of row `y`, in a hit-test map for a
/// display of `sizeX` columns.
pub open spec fn owner(cells: Seq<FrameID>, sizeX: usize, x: int, y: int) -> FrameID {
    cells[y * sizeX + x]
}

/// Stamping gives every visible cell of the box to the frame and leaves
/// every other cell of the display to its owner.
pub proof fn lemma_stamped(
    cells: Option<Seq<FrameID>>,
    sizeX: usize,
    sizeY: usize,
    c: Clip,
    id: FrameID,
    x: int,
    y: int,
)
    requires
        0 <= x < sizeX,
        0 <= y < sizeY,
    ensures
        0 <= y * sizeX + x < stamped(cells, sizeX as nat, sizeY as nat, c, id).len(),
        stamped(cells, sizeX as nat, sizeY as nat, c, id).len() == sizeX * sizeY,
        owner(stamped(cells, sizeX as nat, sizeY as nat, c, id), sizeX, x, y) == if c.covers(x, y) {
            id
        } else {
            owner(base_map(cells, sizeX as nat, sizeY as nat), sizeX, x, y)
        },
{
    lemma_cell(x, y, sizeX as int);
    assert(0 <= y * sizeX + x < sizeX * sizeY) by (nonlinear_arith)
        requires
            0 <= x < sizeX,
            0 <= y < sizeY,
    ;
}

/// A frame without children that is drawn adds its rendering to the output
/// and changes nothing else; while the hit-test map is rebuilt, it owns
/// every visible cell of its box afterwards, and every other cell keeps its
/// owner.
pub proof fn lemma_draw_leaf(
    v: Viewport,
    canvas: Canvas,
    frames: Seq<Option<FrameView>>,
    id: FrameID,
    posX: int,
    posY: int,
    lenX: nat,
    lenY: nat,
)
    requires
        drawable(v, frames, id, posX, posY, lenX, lenY),
        is_leaf(frames[id - 1]->0),
    ensures
        ({
            let c = clip(v.sizeX as nat, v.sizeY as nat, posX, posY, lenX, lenY)->0;
            let (drawn, table) = draw_spec(v, canvas, frames, id, posX, posY, lenX, lenY);
            &&& table == frames
            &&& drawn.output == canvas.output + leaf_output(frames[id - 1]->0, c)
            &&& !v.remap ==> drawn.cells == canvas.cells
            &&& v.remap ==> drawn.cells is Some && forall|x: int, y: int|
                0 <= x < v.sizeX && 0 <= y < v.sizeY ==> #[trigger] owner(
                    drawn.cells->0,
                    v.sizeX,
                    x,
                    y,
                ) == if c.covers(x, y) {
                    id
                } else {
                    owner(base_map(canvas.cells, v.sizeX as nat, v.sizeY as nat), v.sizeX, x, y)
                }
        }),
{
    let c = clip(v.sizeX as nat, v.sizeY as nat, posX, posY, lenX, lenY)->0;
    if v.remap {
        assert forall|x: int, y: int| 0 <= x < v.sizeX && 0 <= y < v.sizeY implies #[trigger] owner(
            stamped(canvas.cells, v.sizeX as nat, v.sizeY as nat, c, id),
            v.sizeX,
            x,
            y,
        ) == if c.covers(x, y) {
            id
        } else {
            owner(base_map(canvas.cells, v.sizeX as nat, v.sizeY as nat), v.sizeX, x, y)
        } by {
            lemma_stamped(canvas.cells, v.sizeX, v.sizeY, c, id, x, y);
        }
    }
}

/// A stack of two layers draws the second over the first: both are drawn
/// into the box of the stack, the first onto what the stack has claimed, the
/// second onto what the first has left.
///
/// Where the second layer is a frame without children, it is what shows:
/// its rendering is the last that is written, and while the hit-test map is
/// rebuilt it owns every visible cell of the box, whatever the first layer
/// has drawn there.
pub proof fn lemma_layers(
    v: Viewport,
    canvas: Canvas,
    frames: Seq<Option<FrameView>>,
    id: FrameID,
    below: FrameID,
    above: FrameID,
    posX: int,
    posY: int,
    lenX: nat,
    lenY: nat,
)
    requires
        drawable(v, frames, id, posX, posY, lenX, lenY),
        frames[id - 1] == Some(FrameView::Layers(seq![below, above])),
    ensures
        ({
            let c = clip(v.sizeX as nat, v.sizeY as nat, posX, posY, lenX, lenY)->0;
            let taken = frames.update(id - 1, None);
            let first = draw_spec(v, claim(v, canvas, c, id), taken, below, posX, posY, lenX, lenY);
            let second = draw_spec(v, first.0, first.1, above, posX, posY, lenX, lenY);
            &&& draw_spec(v, canvas, frames, id, posX, posY, lenX, lenY) == (
                second.0,
                second.1.update(id - 1, frames[id - 1]),
            )
            &&& (0 < above <= frames.len() && above != id && frames[above - 1] is Some && is_leaf(
                frames[above - 1]->0,
            )) ==> {
                &&& second.0.output == first.0.output + leaf_output(frames[above - 1]->0, c)
                &&& v.remap ==> second.0.cells is Some && forall|x: int, y: int|
                    c.covers(x, y) ==> #[trigger] owner(second.0.cells->0, v.sizeX, x, y) == above
            }
        }),
{
    let c = clip(v.sizeX as nat, v.sizeY as nat, posX, posY, lenX, lenY)->0;
    let layers = seq![below, above];
    let claimed = claim(v, canvas, c, id);
    let taken = frames.update(id - 1, None);
    let first = draw_spec(v, claimed, taken, below, posX, posY, lenX, lenY);
    lemma_draw(v, claimed, taken, below, posX, posY, lenX, lenY);
    assert(handed_on(first.1, taken) == first.1);
    let second = draw_spec(v, first.0, first.1, above, posX, posY, lenX, lenY);
    lemma_draw(v, first.0, first.1, above, posX, posY, lenX, lenY);
    assert(handed_on(second.1, first.1) == second.1);
    lemma_occupied_take(frames, id - 1);
    lemma_occupied_same(first.1, taken);
    lemma_occupied_same(second.1, first.1);
    assert(layers[0] == below && layers[1] == above && layers.len() == 2);
    assert(draw_layers(v, second.0, second.1, layers, 2, posX, posY, lenX, lenY) == second);
    assert(draw_layers(v, first.0, first.1, layers, 1, posX, posY, lenX, lenY) == second);
    assert(draw_layers(v, claimed, taken, layers, 0, posX, posY, lenX, lenY) == second);
    if 0 < above <= frames.len() && above != id && frames[above - 1] is Some && is_leaf(
        frames[above - 1]->0,
    ) {
        assert(taken[above - 1] == frames[above - 1]);
        assert(placed_or_same(taken[above - 1], first.1[above - 1]));
        assert(first.1[above - 1] == frames[above - 1]);
        lemma_draw_leaf(v, first.0, first.1, above, posX, posY, lenX, lenY);
        if v.remap {
            assert forall|x: int, y: int| c.covers(x, y) implies #[trigger] owner(
                second.0.cells->0,
                v.sizeX,
                x,
                y,
            ) == above by {
                assert(0 <= x < v.sizeX && 0 <= y < v.sizeY);
            }
        }
    }
}

/// A child is drawn over its parent: while the hit-test map is rebuilt, a
/// parent with one instance, of a frame without children, owns the visible
/// cells of its own box except those of the child's box, which the child
/// owns; no other cell changes its owner, and the child's rendering is all
/// that is written.
pub proof fn lemma_child_over_parent(
    v: Viewport,
    canvas: Canvas,
    frames: Seq<Option<FrameView>>,
    id: FrameID,
    posX: int,
    posY: int,
    lenX: nat,
    lenY: nat,
)
    requires
        v.remap,
        drawable(v, frames, id, posX, posY, lenX, lenY),
        frames[id - 1]->0 is Parent,
        resolve_parent(frames[id - 1]->0->Parent_0).listOfInstances.len() == 1,
        in_table(frames, resolve_parent(frames[id - 1]->0->Parent_0).listOfInstances[0].frame),
        resolve_parent(frames[id - 1]->0->Parent_0).listOfInstances[0].frame != id,
        is_leaf(
            frames[resolve_parent(frames[id - 1]->0->Parent_0).listOfInstances[0].frame - 1]->0,
        ),
    ensures
        ({
            let instance = resolve_parent(frames[id - 1]->0->Parent_0).listOfInstances[0];
            let own = clip(v.sizeX as nat, v.sizeY as nat, posX, posY, lenX, lenY)->0;
            let inner = clip(
                v.sizeX as nat,
                v.sizeY as nat,
                posX + instance.posX,
                posY + instance.posY,
                instance.lenX as nat,
                instance.lenY as nat,
            );
            let drawn = draw_spec(v, canvas, frames, id, posX, posY, lenX, lenY).0;
            &&& drawn.cells is Some
            &&& forall|x: int, y: int|
                0 <= x < v.sizeX && 0 <= y < v.sizeY ==> #[trigger] owner(
                    drawn.cells->0,
                    v.sizeX,
                    x,
                    y,
                ) == if inner is Some && inner->0.covers(x, y) {
                    instance.frame
                } else if own.covers(x, y) {
                    id
                } else {
                    owner(base_map(canvas.cells, v.sizeX as nat, v.sizeY as nat), v.sizeX, x, y)
                }
            &&& drawn.output == canvas.output + if inner is Some {
                leaf_output(frames[instance.frame - 1]->0, inner->0)
            } else {
                Seq::empty()
            }
        }),
{
    let placed = resolve_parent(frames[id - 1]->0->Parent_0);
    let instances = placed.listOfInstances;
    let instance = instances[0];
    let own = clip(v.sizeX as nat, v.sizeY as nat, posX, posY, lenX, lenY)->0;
    let inner = clip(
        v.sizeX as nat,
        v.sizeY as nat,
        posX + instance.posX,
        posY + instance.posY,
        instance.lenX as nat,
        instance.lenY as nat,
    );
    let claimed = claim(v, canvas, own, id);
    let taken = frames.update(id - 1, None);
    let child = draw_spec(
        v,
        claimed,
        taken,
        instance.frame,
        posX + instance.posX,
        posY + instance.posY,
        instance.lenX as nat,
        instance.lenY as nat,
    );
    lemma_occupied_take(frames, id - 1);
    lemma_draw(
        v,
        claimed,
        taken,
        instance.frame,
        posX + instance.posX,
        posY + instance.posY,
        instance.lenX as nat,
        instance.lenY as nat,
    );
    lemma_occupied_same(child.1, taken);
    assert(draw_instances(v, child.0, child.1, instances, 1, posX, posY) == child);
    assert(draw_instances(v, claimed, taken, instances, 0, posX, posY) == child);
    assert(taken[instance.frame - 1] == frames[instance.frame - 1]);
    if inner is Some {
        lemma_draw_leaf(
            v,
            claimed,
            taken,
            instance.frame,
            posX + instance.posX,
            posY + instance.posY,
            instance.lenX as nat,
            instance.lenY as nat,
        );
    } else {
        assert(child.0.output + Seq::<char>::empty() =~= child.0.output);
    }
    assert forall|x: int, y: int| 0 <= x < v.sizeX && 0 <= y < v.sizeY implies #[trigger] owner(
        child.0.cells->0,
        v.sizeX,
        x,
        y,
    ) == if inner is Some && inner->0.covers(x, y) {
        instance.frame
    } else if own.covers(x, y) {
        id
    } else {
        owner(base_map(canvas.cells, v.sizeX as nat, v.sizeY as nat), v.sizeX, x, y)
    } by {
        lemma_stamped(canvas.cells, v.sizeX, v.sizeY, own, id, x, y);
    }
}

/// Whether an identifier names a frame that is in the table.
pub open spec fn in_table(frames: Seq<Option<FrameView>>, id: FrameID) -> bool {
    0 < id <= frames.len() && frames[id - 1] is Some
}

/// Whether drawing frames of the table can have made the hit-test map
/// `after` of the map `before`: it is the same map, or a map of the
/// display's size in which every cell has kept its owner or belongs to a
/// frame that is in the table.
pub open spec fn mapped_from(
    v: Viewport,
    frames: Seq<Option<FrameView>>,
    before: Option<Seq<FrameID>>,
    after: Option<Seq<FrameID>>,
) -> bool {
    ||| after == before
    ||| {
        &&& after is Some
        &&& after->0.len() == v.sizeX * v.sizeY
        &&& forall|i: int|
            0 <= i < after->0.len() ==> {
                ||| (#[trigger] after->0[i]) == base_map(before, v.sizeX as nat, v.sizeY as nat)[i]
                ||| in_table(frames, after->0[i])
            }
    }
}

/// A map that is made in two steps is made of the first map.
proof fn lemma_mapped_from_chain(
    v: Viewport,
    frames: Seq<Option<FrameView>>,
    others: Seq<Option<FrameView>>,
    a: Option<Seq<FrameID>>,
    b: Option<Seq<FrameID>>,
    c: Option<Seq<FrameID>>,
)
    requires
        mapped_from(v, frames, a, b),
        mapped_from(v, others, b, c),
        forall|id: FrameID| in_table(others, id) ==> in_table(frames, id),
    ensures
        mapped_from(v, frames, a, c),
{
    if c != b && b != a {
        assert forall|i: int| 0 <= i < c->0.len() implies {
            ||| (#[trigger] c->0[i]) == base_map(a, v.sizeX as nat, v.sizeY as nat)[i]
            ||| in_table(frames, c->0[i])
        } by {
            assert(b->0[i] == base_map(a, v.sizeX as nat, v.sizeY as nat)[i] || in_table(
                frames,
                b->0[i],
            ));
        }
    } else if c != b {
        assert forall|i: int| 0 <= i < c->0.len() implies {
            ||| (#[trigger] c->0[i]) == base_map(a, v.sizeX as nat, v.sizeY as nat)[i]
            ||| in_table(frames, c->0[i])
        } by {
            assert(c->0[i] == base_map(b, v.sizeX as nat, v.sizeY as nat)[i] || in_table(
                others,
                c->0[i],
            ));
        }
    }
}

/// Drawing gives the cells of the hit-test map to frames of the table
/// only: every cell keeps its owner or belongs to a frame that is in the
/// table afterwards. An event is never routed to a frame that does not exist.
pub proof fn lemma_owners_are_in_table(
    v: Viewport,
    canvas: Canvas,
    frames: Seq<Option<FrameView>>,
    id: FrameID,
    posX: int,
    posY: int,
    lenX: nat,
    lenY: nat,
)
    ensures
        mapped_from(
            v,
            frames,
            canvas.cells,
            draw_spec(v, canvas, frames, id, posX, posY, lenX, lenY).0.cells,
        ),
    decreases occupied(frames), 0nat, 0nat,
{
    if drawable(v, frames, id, posX, posY, lenX, lenY) {
        let c = clip(v.sizeX as nat, v.sizeY as nat, posX, posY, lenX, lenY)->0;
        let claimed = claim(v, canvas, c, id);
        let taken = frames.update(id - 1, None);
        lemma_occupied_take(frames, id - 1);
        assert(mapped_from(v, frames, canvas.cells, claimed.cells));
        assert forall|other: FrameID| in_table(taken, other) implies in_table(frames, other) by {}
        match frames[id - 1]->0 {
            FrameView::Parent(parent) => {
                let placed = resolve_parent(parent);
                lemma_instances_owners(v, claimed, taken, placed.listOfInstances, 0, posX, posY);
                lemma_mapped_from_chain(
                    v,
                    frames,
                    taken,
                    canvas.cells,
                    claimed.cells,
                    draw_instances(v, claimed, taken, placed.listOfInstances, 0, posX, posY).0.cells,
                );
            },
            FrameView::Layers(layers) => {
                lemma_layers_owners(v, claimed, taken, layers, 0, posX, posY, lenX, lenY);
                lemma_mapped_from_chain(
                    v,
                    frames,
                    taken,
                    canvas.cells,
                    claimed.cells,
                    draw_layers(v, claimed, taken, layers, 0, posX, posY, lenX, lenY).0.cells,
                );
            },
            _ => {},
        }
    }
}

/// Drawing the instances of a parent gives cells to frames of the table only.
proof fn lemma_instances_owners(
    v: Viewport,
    canvas: Canvas,
    frames: Seq<Option<FrameView>>,
    instances: Seq<Instance>,
    k: nat,
    posX: int,
    posY: int,
)
    ensures
        mapped_from(
            v,
            frames,
            canvas.cells,
            draw_instances(v, canvas, frames, instances, k, posX, posY).0.cells,
        ),
    decreases occupied(frames), 1nat, instances.len() - k,
{
    if k < instances.len() {
        let instance = instances[k as int];
        let first = draw_spec(
            v,
            canvas,
            frames,
            instance.frame,
            posX + instance.posX,
            posY + instance.posY,
            instance.lenX as nat,
            instance.lenY as nat,
        );
        lemma_owners_are_in_table(
            v,
            canvas,
            frames,
            instance.frame,
            posX + instance.posX,
            posY + instance.posY,
            instance.lenX as nat,
            instance.lenY as nat,
        );
        lemma_draw(
            v,
            canvas,
            frames,
            instance.frame,
            posX + instance.posX,
            posY + instance.posY,
            instance.lenX as nat,
            instance.lenY as nat,
        );
        lemma_occupied_same(first.1, frames);
        lemma_instances_owners(v, first.0, first.1, instances, k + 1, posX, posY);
        assert forall|other: FrameID| in_table(first.1, other) implies in_table(frames, other) by {
            assert(first.1[other - 1] is Some <==> frames[other - 1] is Some);
        }
        lemma_mapped_from_chain(
            v,
            frames,
            first.1,
            canvas.cells,
            first.0.cells,
            draw_instances(v, first.0, first.1, instances, k + 1, posX, posY).0.cells,
        );
    }
}

/// Drawing the layers of a stack gives cells to frames of the table only.
proof fn lemma_layers_owners(
    v: Viewport,
    canvas: Canvas,
    frames: Seq<Option<FrameView>>,
    layers: Seq<FrameID>,
    k: nat,
    posX: int,
    posY: int,
    lenX: nat,
    lenY: nat,
)
    ensures
        mapped_from(
            v,
            frames,
            canvas.cells,
            draw_layers(v, canvas, frames, layers, k, posX, posY, lenX, lenY).0.cells,
        ),
    decreases occupied(frames), 1nat, layers.len() - k,
{
    if k < layers.len() {
        let first = draw_spec(v, canvas, frames, layers[k as int], posX, posY, lenX, lenY);
        lemma_owners_are_in_table(v, canvas, frames, layers[k as int], posX, posY, lenX, lenY);
        lemma_draw(v, canvas, frames, layers[k as int], posX, posY, lenX, lenY);
        lemma_occupied_same(first.1, frames);
        lemma_layers_owners(v, first.0, first.1, layers, k + 1, posX, posY, lenX, lenY);
        assert forall|other: FrameID| in_table(first.1, other) implies in_table(frames, other) by {
            assert(first.1[other - 1] is Some <==> frames[other - 1] is Some);
        }
        lemma_mapped_from_chain(
            v,
            frames,
            first.1,
            canvas.cells,
            first.0.cells,
            draw_layers(v, first.0, first.1, layers, k + 1, posX, posY, lenX, lenY).0.cells,
        );
    }
}

} // verus!
