//! The composition engine: drawing a tree of frames onto a display.
use vstd::prelude::*;
use vstd::arithmetic::div_mod::{
    lemma_fundamental_div_mod, lemma_fundamental_div_mod_converse_div,
    lemma_fundamental_div_mod_converse_mod,
};

use crate::display::layout::{clip, clipBox, resolve_parent, Clip};
use crate::display::render::{editor_output, status_output, text_output};
use crate::display::tty::TTYAction;
use crate::display::{
    Display, DisplayType, DisplayView, Display_MaskRefresh, Display_NeedRemap,
};
use crate::frame::{Frame, FrameID, FrameView, Instance};

verus! {

/// What composition changes of a display: the hit-test map and what is sent
/// to the backend.
pub struct Canvas {
    /// The hit-test map, row by row, if the display has one.
    pub cells: Option<Seq<FrameID>>,
    /// What has been rendered, in the order in which it was rendered.
    pub output: Seq<char>,
}

/// What composition reads of a display and leaves as it is.
pub struct Viewport {
    pub sizeX: usize,
    pub sizeY: usize,
    /// Whether the hit-test map is being rebuilt.
    pub remap: bool,
}

impl DisplayView {
    /// The part of the display that composition changes.
    pub open spec fn canvas(self) -> Canvas {
        Canvas { cells: self.cells, output: self.output }
    }

    /// The part of the display that composition reads.
    pub open spec fn viewport(self) -> Viewport {
        Viewport {
            sizeX: self.sizeX,
            sizeY: self.sizeY,
            remap: self.flags & Display_NeedRemap != 0,
        }
    }

    /// The display with another hit-test map and output.
    pub open spec fn with_canvas(self, canvas: Canvas) -> DisplayView {
        DisplayView { cells: canvas.cells, output: canvas.output, ..self }
    }
}

/// The map that stamping starts from: the display's own, if it has one of
/// the right size, else a fresh one in which no cell has an owner.
pub open spec fn base_map(cells: Option<Seq<FrameID>>, sizeX: nat, sizeY: nat) -> Seq<FrameID> {
    if cells is Some && cells->0.len() == sizeX * sizeY {
        cells->0
    } else {
        Seq::new(sizeX * sizeY, |i: int| 0usize)
    }
}

/// The hit-test map after frame `id` has been stamped over the cells of `c`:
/// those cells belong to `id`, all others keep their owner.
pub open spec fn stamped(cells: Option<Seq<FrameID>>, sizeX: nat, sizeY: nat, c: Clip, id: FrameID)
    -> Seq<FrameID> {
    Seq::new(
        sizeX * sizeY,
        |i: int|
            if c.covers(i % (sizeX as int), i / (sizeX as int)) {
                id
            } else {
                base_map(cells, sizeX, sizeY)[i]
            },
    )
}

/// The map while it is stamped: the rows of `c` before row `y` are done,
/// and of row `y` the columns before `x`.
pub open spec fn stamping(base: Seq<FrameID>, sizeX: nat, c: Clip, id: FrameID, y: int, x: int)
    -> Seq<FrameID> {
    Seq::new(
        base.len(),
        |i: int|
            if c.minX <= i % (sizeX as int) < c.maxX && (c.minY <= i / (sizeX as int) < y || (i / (
            sizeX as int) == y && i % (sizeX as int) < x)) {
                id
            } else {
                base[i]
            },
    )
}

/// The cell in column `x` of row `y` has the index `x + y * sizeX`, and no
/// other cell has.
pub proof fn lemma_cell(x: int, y: int, sizeX: int)
    requires
        0 <= x < sizeX,
        0 <= y,
    ensures
        (x + y * sizeX) / sizeX == y,
        (x + y * sizeX) % sizeX == x,
{
    lemma_fundamental_div_mod_converse_div(x + y * sizeX, sizeX, y, x);
    lemma_fundamental_div_mod_converse_mod(x + y * sizeX, sizeX, y, x);
}

/// Every index is that of the cell in its column of its row.
proof fn lemma_cell_of(i: int, sizeX: int)
    requires
        0 < sizeX,
    ensures
        i == (i % sizeX) + (i / sizeX) * sizeX,
{
    lemma_fundamental_div_mod(i, sizeX);
    assert(sizeX * (i / sizeX) == (i / sizeX) * sizeX) by (nonlinear_arith);
}

/// A slot of the frame table, with its frame as composition sees it.
pub open spec fn slot_view(slot: Option<Frame>) -> Option<FrameView> {
    match slot {
        Some(frame) => Some(frame@),
        None => None,
    }
}

/// The frame table, slot by slot, with its frames as composition sees them.
pub open spec fn table_view(frames: Seq<Option<Frame>>) -> Seq<Option<FrameView>> {
    frames.map_values(|slot: Option<Frame>| slot_view(slot))
}

/// The number of slots of the table that hold a frame.
pub open spec fn occupied(frames: Seq<Option<FrameView>>) -> nat
    decreases frames.len(),
{
    if frames.len() == 0 {
        0
    } else {
        occupied(frames.drop_last()) + if frames.last() is Some {
            1nat
        } else {
            0nat
        }
    }
}

/// Whether two tables have the same slots in use.
pub open spec fn same_slots(a: Seq<Option<FrameView>>, b: Seq<Option<FrameView>>) -> bool {
    &&& a.len() == b.len()
    &&& forall|i: int| 0 <= i < a.len() ==> (#[trigger] a[i] is Some <==> b[i] is Some)
}

/// A table holds no more frames than it has slots.
pub proof fn lemma_occupied_bound(frames: Seq<Option<FrameView>>)
    ensures
        occupied(frames) <= frames.len(),
    decreases frames.len(),
{
    if frames.len() > 0 {
        lemma_occupied_bound(frames.drop_last());
    }
}

/// Emptying a slot that holds a frame leaves one frame less in the table.
pub proof fn lemma_occupied_take(frames: Seq<Option<FrameView>>, i: int)
    requires
        0 <= i < frames.len(),
        frames[i] is Some,
    ensures
        occupied(frames.update(i, None)) + 1 == occupied(frames),
    decreases frames.len(),
{
    if i == frames.len() - 1 {
        assert(frames.update(i, None).drop_last() =~= frames.drop_last());
    } else {
        lemma_occupied_take(frames.drop_last(), i);
        assert(frames.update(i, None).drop_last() =~= frames.drop_last().update(i, None));
    }
}

/// Tables with the same slots in use hold the same number of frames.
pub proof fn lemma_occupied_same(a: Seq<Option<FrameView>>, b: Seq<Option<FrameView>>)
    requires
        same_slots(a, b),
    ensures
        occupied(a) == occupied(b),
    decreases a.len(),
{
    if a.len() > 0 {
        assert(a.last() is Some <==> b.last() is Some) by {
            assert(a[a.len() - 1] is Some <==> b[a.len() - 1] is Some);
        }
        assert(same_slots(a.drop_last(), b.drop_last())) by {
            assert forall|i: int| 0 <= i < a.drop_last().len() implies (
            #[trigger] a.drop_last()[i] is Some <==> b.drop_last()[i] is Some) by {
                assert(a[i] is Some <==> b[i] is Some);
            }
        }
        lemma_occupied_same(a.drop_last(), b.drop_last());
    }
}

/// What a frame without children sends to the backend when it is drawn
/// into the clipped box `c`.
pub open spec fn leaf_output(frame: FrameView, c: Clip) -> Seq<char> {
    match frame {
        FrameView::Status(status) => status_output(
            status,
            c.width(),
            c.minX as nat,
            c.minY as nat,
            c.cutX as nat,
        ),
        FrameView::Text(text) => text_output(
            text,
            c.width(),
            c.height(),
            c.minX as nat,
            c.minY as nat,
            c.maxY as nat,
            c.cutX as nat,
            c.cutY as nat,
        ),
        FrameView::Editor(editor) => editor_output(
            editor,
            c.width(),
            c.height(),
            c.minX as nat,
            c.minY as nat,
            c.maxY as nat,
            c.cutX as nat,
            c.cutY as nat,
        ),
        _ => Seq::empty(),
    }
}

/// Whether a request to draw frame `id` into the given box does anything:
/// the identifier names a slot of the table, the slot holds a frame, and at
/// least one cell of the box is on the display.
pub open spec fn drawable(
    v: Viewport,
    frames: Seq<Option<FrameView>>,
    id: FrameID,
    posX: int,
    posY: int,
    lenX: nat,
    lenY: nat,
) -> bool {
    &&& 0 < id <= frames.len()
    &&& frames[id - 1] is Some
    &&& clip(v.sizeX as nat, v.sizeY as nat, posX, posY, lenX, lenY) is Some
}

/// The canvas after frame `id` has claimed the cells of `c`: while the
/// hit-test map is rebuilt they are stamped with `id`, else nothing changes.
pub open spec fn claim(v: Viewport, canvas: Canvas, c: Clip, id: FrameID) -> Canvas {
    if v.remap {
        Canvas {
            cells: Some(stamped(canvas.cells, v.sizeX as nat, v.sizeY as nat, c, id)),
            output: canvas.output,
        }
    } else {
        canvas
    }
}

/// Draws frame `id` into the box of `lenX` by `lenY` cells at `(posX, posY)`.
///
/// A request that is not drawable changes nothing. Otherwise the frame
/// claims the visible cells of the box and is taken out of its slot while it
/// is rendered, so that a frame that contains itself is met as an empty slot.
/// A frame without children appends its rendering to the output. A parent
/// lets its grid place its instances and draws each, in order, at its
/// position relative to the parent's. A stack of layers draws each layer, in
/// order, into the box of the stack. Then the frame returns to its slot.
pub open spec fn draw_spec(
    v: Viewport,
    canvas: Canvas,
    frames: Seq<Option<FrameView>>,
    id: FrameID,
    posX: int,
    posY: int,
    lenX: nat,
    lenY: nat,
) -> (Canvas, Seq<Option<FrameView>>)
    decreases occupied(frames), 0nat, 0nat,
{
    if !drawable(v, frames, id, posX, posY, lenX, lenY) {
        (canvas, frames)
    } else {
        let c = clip(v.sizeX as nat, v.sizeY as nat, posX, posY, lenX, lenY)->0;
        let claimed = claim(v, canvas, c, id);
        let taken = frames.update(id - 1, None);
        match frames[id - 1]->0 {
            FrameView::Parent(parent) => {
                proof {
                    lemma_occupied_take(frames, id - 1);
                }
                let placed = resolve_parent(parent);
                let (drawn, table) = draw_instances(
                    v,
                    claimed,
                    taken,
                    placed.listOfInstances,
                    0,
                    posX,
                    posY,
                );
                (drawn, table.update(id - 1, Some(FrameView::Parent(placed))))
            },
            FrameView::Layers(layers) => {
                proof {
                    lemma_occupied_take(frames, id - 1);
                }
                let (drawn, table) = draw_layers(
                    v,
                    claimed,
                    taken,
                    layers,
                    0,
                    posX,
                    posY,
                    lenX,
                    lenY,
                );
                (drawn, table.update(id - 1, Some(FrameView::Layers(layers))))
            },
            leaf => (
                Canvas { cells: claimed.cells, output: claimed.output + leaf_output(leaf, c) },
                frames,
            ),
        }
    }
}

/// The table that the next sibling is drawn with: the one that the last
/// sibling left. (Drawing keeps the slots in use as they are, so the
/// condition always holds: `lemma_draw` shows it, and
/// `lemma_instances_in_order` and `lemma_layers_in_order` state the order of
/// drawing without it.)
pub open spec fn handed_on(
    left: Seq<Option<FrameView>>,
    given: Seq<Option<FrameView>>,
) -> Seq<Option<FrameView>> {
    if same_slots(left, given) {
        left
    } else {
        given
    }
}

/// Draws the instances of a parent from the `k`-th on, the parent at `(posX, posY)`.
pub open spec fn draw_instances(
    v: Viewport,
    canvas: Canvas,
    frames: Seq<Option<FrameView>>,
    instances: Seq<Instance>,
    k: nat,
    posX: int,
    posY: int,
) -> (Canvas, Seq<Option<FrameView>>)
    decreases occupied(frames), 1nat, instances.len() - k,
{
    if k >= instances.len() {
        (canvas, frames)
    } else {
        let (drawn, left) = draw_spec(
            v,
            canvas,
            frames,
            instances[k as int].frame,
            posX + instances[k as int].posX,
            posY + instances[k as int].posY,
            instances[k as int].lenX as nat,
            instances[k as int].lenY as nat,
        );
        proof {
            if same_slots(left, frames) {
                lemma_occupied_same(left, frames);
            }
        }
        draw_instances(v, drawn, handed_on(left, frames), instances, k + 1, posX, posY)
    }
}

/// Draws the layers of a stack from the `k`-th on, each into the box of the stack.
pub open spec fn draw_layers(
    v: Viewport,
    canvas: Canvas,
    frames: Seq<Option<FrameView>>,
    layers: Seq<FrameID>,
    k: nat,
    posX: int,
    posY: int,
    lenX: nat,
    lenY: nat,
) -> (Canvas, Seq<Option<FrameView>>)
    decreases occupied(frames), 1nat, layers.len() - k,
{
    if k >= layers.len() {
        (canvas, frames)
    } else {
        let (drawn, left) = draw_spec(v, canvas, frames, layers[k as int], posX, posY, lenX, lenY);
        proof {
            if same_slots(left, frames) {
                lemma_occupied_same(left, frames);
            }
        }
        draw_layers(v, drawn, handed_on(left, frames), layers, k + 1, posX, posY, lenX, lenY)
    }
}

impl Display {
    /// Stamps frame `id` over the cells of `c` in the hit-test map. A display
    /// without a map, or with one of another size, gets a fresh one first.
    fn stamp(&mut self, c: Clip, id: FrameID)
        requires
            old(self).sizeX * old(self).sizeY <= usize::MAX,
            c.minX <= c.maxX <= old(self).sizeX,
            c.minY <= c.maxY <= old(self).sizeY,
        ensures
            final(self)@ == (DisplayView {
                cells: Some(
                    stamped(old(self)@.cells, old(self).sizeX as nat, old(self).sizeY as nat, c, id),
                ),
                ..old(self)@
            }),
    {
        let sizeX: usize = self.sizeX;
        let cells: usize = self.sizeX * self.sizeY;
        let mut map: Vec<FrameID> = match self.mapOfFrames.take() {
            Some(kept) => {
                if kept.len() == cells {
                    kept
                } else {
                    vec![0usize; cells]
                }
            },
            None => vec![0usize; cells],
        };
        let ghost base = map@;
        assert(base =~= base_map(old(self)@.cells, sizeX as nat, self.sizeY as nat));
        assert(map@ =~= stamping(base, sizeX as nat, c, id, c.minY as int, c.minX as int));
        let mut y: usize = c.minY;
        while y < c.maxY
            invariant
                c.minY <= y <= c.maxY,
                c.minX <= c.maxX <= sizeX,
                c.maxY <= self.sizeY,
                cells == sizeX * self.sizeY,
                base.len() == cells,
                map@ == stamping(base, sizeX as nat, c, id, y as int, c.minX as int),
            decreases c.maxY - y,
        {
            let mut x: usize = c.minX;
            while x < c.maxX
                invariant
                    c.minY <= y < c.maxY,
                    c.minX <= x <= c.maxX,
                    c.maxX <= sizeX,
                    c.maxY <= self.sizeY,
                    cells == sizeX * self.sizeY,
                    base.len() == cells,
                    map@ == stamping(base, sizeX as nat, c, id, y as int, x as int),
                decreases c.maxX - x,
            {
                proof {
                    assert(x + y * sizeX < sizeX * self.sizeY) by (nonlinear_arith)
                        requires
                            x < sizeX,
                            y < self.sizeY,
                    ;
                    lemma_cell(x as int, y as int, sizeX as int);
                }
                let ghost before = map@;
                map[x + y * sizeX] = id;
                proof {
                    assert forall|i: int| 0 <= i < cells implies map@[i] == stamping(
                        base,
                        sizeX as nat,
                        c,
                        id,
                        y as int,
                        x + 1,
                    )[i] by {
                        lemma_cell_of(i, sizeX as int);
                    }
                    assert(map@ =~= stamping(base, sizeX as nat, c, id, y as int, x + 1));
                }
                x = x + 1;
            }
            proof {
                assert(stamping(base, sizeX as nat, c, id, y as int, c.maxX as int) =~= stamping(
                    base,
                    sizeX as nat,
                    c,
                    id,
                    y + 1,
                    c.minX as int,
                ));
            }
            y = y + 1;
        }
        proof {
            assert(map@ =~= stamped(old(self)@.cells, sizeX as nat, self.sizeY as nat, c, id));
        }
        self.mapOfFrames = Some(map);
    }
}

/// Whether a display is due for a refresh at time `now`: something has
/// changed since it was last refreshed, and more time has passed since then
/// than its least interval.
pub open spec fn due(display: DisplayView, now: u64) -> bool {
    &&& display.flags & Display_MaskRefresh != 0
    &&& now > display.lastRefresh
    &&& now - display.lastRefresh > display.nextRefresh
}

/// What a refresh makes of a display and the frame table at time `now`.
///
/// A display that is not due stays as it is. One that is due draws its main
/// frame once over its whole viewport, onto a hit-test map without owners if
/// the map is being rebuilt; it queues the steps that send the output to
/// the backend, no longer needs a refresh or a new map, and was last
/// refreshed now.
pub open spec fn refresh_spec(display: DisplayView, frames: Seq<Option<FrameView>>, now: u64) -> (
    DisplayView,
    Seq<Option<FrameView>>,
) {
    if due(display, now) {
        let (canvas, table) = draw_spec(
            display.viewport(),
            Canvas {
                cells: if display.viewport().remap {
                    None
                } else {
                    display.cells
                },
                output: display.output,
            },
            frames,
            display.mainFrame,
            display.offsX as int,
            display.offsY as int,
            display.sizeX as nat,
            display.sizeY as nat,
        );
        (
            DisplayView {
                cells: canvas.cells,
                output: canvas.output,
                pending: display.pending + seq![TTYAction::Write, TTYAction::Flush],
                flags: display.flags & !Display_MaskRefresh,
                lastRefresh: now,
                ..display
            },
            table,
        )
    } else {
        (display, frames)
    }
}

/// How far from the display a frame can lie that is met while the table
/// holds `depth` frames less than it has slots: every level of nesting adds
/// one position that fits a machine word.
pub open spec fn within_reach(pos: int, frames: Seq<Option<FrameView>>) -> bool {
    let depth = frames.len() - occupied(frames);
    -(depth + 1) * 0x8000_0000_0000_0000 <= pos <= (depth + 1) * 0x7fff_ffff_ffff_ffff
}

impl Display {
    /// Draws frame `drawFrame` of the table into the box of `lenX` by `lenY`
    /// cells at `(posX, posY)`, as `draw_spec` says.
    ///
    /// The hit-test map and the output of the display change, and the
    /// instances of the parents that are drawn get the places that their
    /// grids give them; nothing else does.
    pub fn draw(
        &mut self,
        listOfFrames: &mut Vec<Option<Frame>>,
        drawFrame: FrameID,
        posX: isize,
        posY: isize,
        lenX: usize,
        lenY: usize,
    )
        requires
            old(self)@.fits(),
        ensures
            (final(self)@.canvas(), table_view(final(listOfFrames)@)) == draw_spec(
                old(self)@.viewport(),
                old(self)@.canvas(),
                table_view(old(listOfFrames)@),
                drawFrame,
                posX as int,
                posY as int,
                lenX as nat,
                lenY as nat,
            ),
            final(self)@ == old(self)@.with_canvas(final(self)@.canvas()),
            same_slots(table_view(final(listOfFrames)@), table_view(old(listOfFrames)@)),
    {
        proof {
            lemma_occupied_bound(table_view(listOfFrames@));
        }
        self.drawAt(listOfFrames, drawFrame, posX as i128, posY as i128, lenX, lenY);
    }

    /// Refreshes the display if it is due at time `now`: see `refresh_spec`.
    pub fn refresh(&mut self, listOfFrames: &mut Vec<Option<Frame>>, now: u64)
        requires
            old(self)@.fits(),
        ensures
            (final(self)@, table_view(final(listOfFrames)@)) == refresh_spec(
                old(self)@,
                table_view(old(listOfFrames)@),
                now,
            ),
            same_slots(table_view(final(listOfFrames)@), table_view(old(listOfFrames)@)),
    {
        if (self.flags & Display_MaskRefresh) != 0 && now > self.lastRefresh && now
            - self.lastRefresh > self.nextRefresh {
            if (self.flags & Display_NeedRemap) != 0 {
                self.mapOfFrames = None;
            }
            self.draw(
                listOfFrames,
                self.mainFrame,
                self.offsX,
                self.offsY,
                self.sizeX,
                self.sizeY,
            );
            match &mut self.display {
                DisplayType::TTY(tty) => {
                    tty.flush();
                },
            }
            self.flags = self.flags & !Display_MaskRefresh;
            self.lastRefresh = now;
        }
    }

    /// Draws a frame at a position that may lie beyond the range of a machine
    /// word, as the positions of nested frames can.
    fn drawAt(
        &mut self,
        listOfFrames: &mut Vec<Option<Frame>>,
        drawFrame: FrameID,
        posX: i128,
        posY: i128,
        lenX: usize,
        lenY: usize,
    )
        requires
            old(self).sizeX * old(self).sizeY <= usize::MAX,
            within_reach(posX as int, table_view(old(listOfFrames)@)),
            within_reach(posY as int, table_view(old(listOfFrames)@)),
        ensures
            (final(self)@.canvas(), table_view(final(listOfFrames)@)) == draw_spec(
                old(self)@.viewport(),
                old(self)@.canvas(),
                table_view(old(listOfFrames)@),
                drawFrame,
                posX as int,
                posY as int,
                lenX as nat,
                lenY as nat,
            ),
            same_slots(table_view(final(listOfFrames)@), table_view(old(listOfFrames)@)),
            final(self)@ == old(self)@.with_canvas(final(self)@.canvas()),
        decreases occupied(table_view(old(listOfFrames)@)),
    {
        let ghost v = self@.viewport();
        let ghost given = table_view(listOfFrames@);
        if drawFrame == 0 || drawFrame > listOfFrames.len() {
            return ;
        }
        let c: Clip = match clipBox(self.sizeX, self.sizeY, posX, posY, lenX, lenY) {
            Some(c) => c,
            None => {
                return ;
            },
        };
        let slot: usize = drawFrame - 1;
        let frame: Frame = match listOfFrames[slot].take() {
            Some(frame) => frame,
            None => {
                proof {
                    assert(listOfFrames@ =~= old(listOfFrames)@);
                }
                return ;
            },
        };
        let ghost taken = given.update(slot as int, None);
        proof {
            assert(table_view(listOfFrames@) =~= taken);
            assert(given[slot as int] == Some(frame@));
            lemma_occupied_take(given, slot as int);
            lemma_occupied_bound(given);
        }
        if (self.flags & Display_NeedRemap) != 0 {
            self.stamp(c, drawFrame);
        }
        let ghost claimed = self@.canvas();
        assert(claimed == claim(v, old(self)@.canvas(), c, drawFrame));
        match frame {
            Frame::Status(status) => {
                match &mut self.display {
                    DisplayType::TTY(tty) => {
                        tty.drawStatusFrame(
                            &status,
                            c.maxX - c.minX,
                            c.maxY - c.minY,
                            c.minX,
                            c.minY,
                            c.maxX,
                            c.maxY,
                            c.cutX,
                            c.cutY,
                        );
                    },
                }
                listOfFrames[slot] = Some(Frame::Status(status));
                proof {
                    assert(listOfFrames@ =~= old(listOfFrames)@);
                }
            },
            Frame::Text(text) => {
                match &mut self.display {
                    DisplayType::TTY(tty) => {
                        tty.drawTextFrame(
                            &text,
                            c.maxX - c.minX,
                            c.maxY - c.minY,
                            c.minX,
                            c.minY,
                            c.maxX,
                            c.maxY,
                            c.cutX,
                            c.cutY,
                        );
                    },
                }
                listOfFrames[slot] = Some(Frame::Text(text));
                proof {
                    assert(listOfFrames@ =~= old(listOfFrames)@);
                }
            },
            Frame::Editor(editor) => {
                match &mut self.display {
                    DisplayType::TTY(tty) => {
                        tty.drawEditorFrame(
                            &editor,
                            c.maxX - c.minX,
                            c.maxY - c.minY,
                            c.minX,
                            c.minY,
                            c.maxX,
                            c.maxY,
                            c.cutX,
                            c.cutY,
                        );
                    },
                }
                listOfFrames[slot] = Some(Frame::Editor(editor));
                proof {
                    assert(listOfFrames@ =~= old(listOfFrames)@);
                }
            },
            Frame::Pixel(pixel) => {
                match &mut self.display {
                    DisplayType::TTY(tty) => {
                        tty.drawPixelFrame(
                            &pixel,
                            c.maxX - c.minX,
                            c.maxY - c.minY,
                            c.minX,
                            c.minY,
                            c.maxX,
                            c.maxY,
                            c.cutX,
                            c.cutY,
                        );
                    },
                }
                listOfFrames[slot] = Some(Frame::Pixel(pixel));
                proof {
                    assert(listOfFrames@ =~= old(listOfFrames)@);
                    assert(self@.output =~= claimed.output + leaf_output(frame@, c));
                }
            },
            Frame::Plot(plot) => {
                match &mut self.display {
                    DisplayType::TTY(tty) => {
                        tty.drawPlotFrame(
                            &plot,
                            c.maxX - c.minX,
                            c.maxY - c.minY,
                            c.minX,
                            c.minY,
                            c.maxX,
                            c.maxY,
                            c.cutX,
                            c.cutY,
                        );
                    },
                }
                listOfFrames[slot] = Some(Frame::Plot(plot));
                proof {
                    assert(listOfFrames@ =~= old(listOfFrames)@);
                    assert(self@.output =~= claimed.output + leaf_output(frame@, c));
                }
            },
            Frame::Parent(mut parent) => {
                parent.resolveGrid();
                let ghost instances = parent@.listOfInstances;
                let count: usize = parent.listOfInstances.len();
                let mut k: usize = 0;
                while k < count
                    invariant
                        k <= count,
                        count == parent.listOfInstances.len(),
                        instances == parent.listOfInstances@,
                        slot < listOfFrames.len(),
                        self.sizeX * self.sizeY <= usize::MAX,
                        self@ == old(self)@.with_canvas(self@.canvas()),
                        self@.viewport() == v,
                        given == table_view(old(listOfFrames)@),
                        taken == given.update(slot as int, None),
                        same_slots(table_view(listOfFrames@), taken),
                        occupied(taken) + 1 == occupied(given),
                        occupied(given) <= given.len(),
                        within_reach(posX as int, given),
                        within_reach(posY as int, given),
                        draw_instances(
                            v,
                            self@.canvas(),
                            table_view(listOfFrames@),
                            instances,
                            k as nat,
                            posX as int,
                            posY as int,
                        ) == draw_instances(
                            v,
                            claimed,
                            taken,
                            instances,
                            0,
                            posX as int,
                            posY as int,
                        ),
                    decreases count - k,
                {
                    let instance: Instance = parent.listOfInstances[k];
                    let ghost before = table_view(listOfFrames@);
                    proof {
                        lemma_occupied_same(before, taken);
                    }
                    self.drawAt(
                        listOfFrames,
                        instance.frame,
                        posX + instance.posX as i128,
                        posY + instance.posY as i128,
                        instance.lenX,
                        instance.lenY,
                    );
                    k = k + 1;
                }
                listOfFrames[slot] = Some(Frame::Parent(parent));
                proof {
                    let drawn = draw_instances(
                        v,
                        claimed,
                        taken,
                        instances,
                        0,
                        posX as int,
                        posY as int,
                    );
                    assert(table_view(listOfFrames@) =~= drawn.1.update(
                        slot as int,
                        Some(FrameView::Parent(parent@)),
                    ));
                }
            },
            Frame::Layers(stack) => {
                let ghost layers = stack.listOfLayers@;
                let count: usize = stack.listOfLayers.len();
                let mut k: usize = 0;
                while k < count
                    invariant
                        k <= count,
                        count == stack.listOfLayers.len(),
                        layers == stack.listOfLayers@,
                        slot < listOfFrames.len(),
                        self.sizeX * self.sizeY <= usize::MAX,
                        self@ == old(self)@.with_canvas(self@.canvas()),
                        self@.viewport() == v,
                        given == table_view(old(listOfFrames)@),
                        taken == given.update(slot as int, None),
                        same_slots(table_view(listOfFrames@), taken),
                        occupied(taken) + 1 == occupied(given),
                        occupied(given) <= given.len(),
                        within_reach(posX as int, given),
                        within_reach(posY as int, given),
                        draw_layers(
                            v,
                            self@.canvas(),
                            table_view(listOfFrames@),
                            layers,
                            k as nat,
                            posX as int,
                            posY as int,
                            lenX as nat,
                            lenY as nat,
                        ) == draw_layers(
                            v,
                            claimed,
                            taken,
                            layers,
                            0,
                            posX as int,
                            posY as int,
                            lenX as nat,
                            lenY as nat,
                        ),
                    decreases count - k,
                {
                    let layer: FrameID = stack.listOfLayers[k];
                    let ghost before = table_view(listOfFrames@);
                    proof {
                        lemma_occupied_same(before, taken);
                    }
                    self.drawAt(listOfFrames, layer, posX, posY, lenX, lenY);
                    k = k + 1;
                }
                listOfFrames[slot] = Some(Frame::Layers(stack));
                proof {
                    let drawn = draw_layers(
                        v,
                        claimed,
                        taken,
                        layers,
                        0,
                        posX as int,
                        posY as int,
                        lenX as nat,
                        lenY as nat,
                    );
                    assert(table_view(listOfFrames@) =~= drawn.1.update(
                        slot as int,
                        Some(FrameView::Layers(layers)),
                    ));
                }
            },
        }
    }
}

} // verus!
