//! The geometry of composition: clipping a request box against the viewport,
//! and resolving the instances of a grid from its borders.
use vstd::prelude::*;

use crate::frame::{Instance, ParentFrame, ParentFrameView, Tiling};

verus! {

/// The part of a request box that lies on the display.
///
/// Columns `minX` up to but not including `maxX`, rows `minY` up to but not
/// including `maxY`. `cutX` and `cutY` count the leading columns and rows of
/// the box that lie off the display to the left and above: a frame adds them
/// to its own scroll offsets.
#[derive(Clone, Copy, PartialEq, Eq, Structural, Debug)]
pub struct Clip {
    pub minX: usize,
    pub minY: usize,
    pub maxX: usize,
    pub maxY: usize,
    pub cutX: usize,
    pub cutY: usize,
}

impl Clip {
    /// The number of visible columns.
    pub open spec fn width(self) -> nat {
        (self.maxX - self.minX) as nat
    }

    /// The number of visible rows.
    pub open spec fn height(self) -> nat {
        (self.maxY - self.minY) as nat
    }

    /// Whether the cell in column `x` of row `y` is visible.
    pub open spec fn covers(self, x: int, y: int) -> bool {
        self.minX <= x < self.maxX && self.minY <= y < self.maxY
    }
}

/// The first visible coordinate of the interval that starts at `pos`.
pub open spec fn clip_min(pos: int) -> int {
    if pos < 0 {
        0
    } else {
        pos
    }
}

/// The end of the visible part of the interval of `len` cells at `pos`, on
/// an axis of `size` cells.
pub open spec fn clip_max(pos: int, len: nat, size: nat) -> int {
    if pos + len > size {
        size as int
    } else {
        pos + len
    }
}

/// The number of leading cells of the interval at `pos` that lie before the axis.
pub open spec fn clip_cut(pos: int) -> int {
    if pos < 0 {
        -pos
    } else {
        0
    }
}

/// Whether the interval of `len` cells at `pos` shares a cell with the axis of `size` cells.
pub open spec fn meets(pos: int, len: nat, size: nat) -> bool {
    clip_min(pos) < clip_max(pos, len, size)
}

/// The visible part of the box of `lenX` by `lenY` cells at `(posX, posY)`
/// on a display of `sizeX` by `sizeY` cells; `None` where no cell of the box
/// is on the display.
pub open spec fn clip(sizeX: nat, sizeY: nat, posX: int, posY: int, lenX: nat, lenY: nat) -> Option<
    Clip,
> {
    if meets(posX, lenX, sizeX) && meets(posY, lenY, sizeY) {
        Some(
            Clip {
                minX: clip_min(posX) as usize,
                minY: clip_min(posY) as usize,
                maxX: clip_max(posX, lenX, sizeX) as usize,
                maxY: clip_max(posY, lenY, sizeY) as usize,
                cutX: clip_cut(posX) as usize,
                cutY: clip_cut(posY) as usize,
            },
        )
    } else {
        None
    }
}

/// Clips one axis: first visible cell, end of the visible cells, cells cut off.
fn clipAxis(pos: i128, len: usize, size: usize) -> (r: Option<(usize, usize, usize)>)
    ensures
        r is Some <==> meets(pos as int, len as nat, size as nat),
        match r {
            Some((min, max, cut)) => {
                &&& min == clip_min(pos as int)
                &&& max == clip_max(pos as int, len as nat, size as nat)
                &&& cut == clip_cut(pos as int)
                &&& min < max <= size
                &&& max - min <= len
            },
            None => true,
        },
{
    if pos >= size as i128 {
        return None;
    }
    let end: i128 = pos + len as i128;
    if end <= 0 {
        return None;
    }
    let min: usize = if pos < 0 {
        0
    } else {
        pos as usize
    };
    let max: usize = if end > size as i128 {
        size
    } else {
        end as usize
    };
    if min >= max {
        return None;
    }
    let cut: usize = if pos < 0 {
        (-pos) as usize
    } else {
        0
    };
    Some((min, max, cut))
}

/// Clips a request box against a display of `sizeX` by `sizeY` cells.
pub fn clipBox(sizeX: usize, sizeY: usize, posX: i128, posY: i128, lenX: usize, lenY: usize) -> (r:
    Option<Clip>)
    ensures
        r == clip(sizeX as nat, sizeY as nat, posX as int, posY as int, lenX as nat, lenY as nat),
        r is Some ==> r->0.minX < r->0.maxX <= sizeX && r->0.minY < r->0.maxY <= sizeY,
        r is Some ==> r->0.width() <= lenX && r->0.height() <= lenY,
{
    match clipAxis(posX, lenX, sizeX) {
        Some((minX, maxX, cutX)) => match clipAxis(posY, lenY, sizeY) {
            Some((minY, maxY, cutY)) => Some(
                Clip { minX: minX, minY: minY, maxX: maxX, maxY: maxY, cutX: cutX, cutY: cutY },
            ),
            None => None,
        },
        None => None,
    }
}

/// The distance from border `lo` to border `hi`; zero where `hi` lies before `lo`.
pub open spec fn extent(lo: isize, hi: isize) -> usize {
    if hi >= lo {
        (hi - lo) as usize
    } else {
        0
    }
}

/// The span that an instance gets: the span it asks for, cut down to the
/// cells that follow its origin.
pub open spec fn span(origin: usize, length: usize, borders: nat) -> usize
    recommends
        origin < borders,
{
    if origin + length > borders - 1 {
        (borders - 1 - origin) as usize
    } else {
        length
    }
}

/// Whether the grid can place the instance: its origin is one of the
/// borders on both axes and it spans at least one cell on both.
pub open spec fn resolvable(instance: Instance, bordersX: Seq<isize>, bordersY: Seq<isize>) -> bool {
    &&& instance.gridOriginX < bordersX.len()
    &&& instance.gridOriginY < bordersY.len()
    &&& instance.gridLenghtX > 0
    &&& instance.gridLenghtY > 0
}

/// The instance as the grid places it: position and size from the borders
/// at its origin and at the end of its span, the span cut down to the grid.
/// An instance that the grid cannot place stays as it is.
pub open spec fn resolve_instance(instance: Instance, bordersX: Seq<isize>, bordersY: Seq<isize>)
    -> Instance {
    if resolvable(instance, bordersX, bordersY) {
        let spanX = span(instance.gridOriginX, instance.gridLenghtX, bordersX.len());
        let spanY = span(instance.gridOriginY, instance.gridLenghtY, bordersY.len());
        Instance {
            posX: bordersX[instance.gridOriginX as int],
            posY: bordersY[instance.gridOriginY as int],
            lenX: extent(
                bordersX[instance.gridOriginX as int],
                bordersX[instance.gridOriginX + spanX],
            ),
            lenY: extent(
                bordersY[instance.gridOriginY as int],
                bordersY[instance.gridOriginY + spanY],
            ),
            gridLenghtX: spanX,
            gridLenghtY: spanY,
            ..instance
        }
    } else {
        instance
    }
}

/// A parent frame after its grid has placed its instances. Without a grid
/// nothing changes.
pub open spec fn resolve_parent(parent: ParentFrameView) -> ParentFrameView {
    match parent.typeOfTiling {
        Tiling::Off => parent,
        Tiling::Grid => ParentFrameView {
            listOfInstances: parent.listOfInstances.map_values(
                |instance: Instance|
                    resolve_instance(instance, parent.gridBordersX, parent.gridBordersY),
            ),
            ..parent
        },
    }
}

/// The distance from border `lo` to border `hi`.
fn extentOf(lo: isize, hi: isize) -> (r: usize)
    ensures
        r == extent(lo, hi),
{
    if hi >= lo {
        (hi as i128 - lo as i128) as usize
    } else {
        0
    }
}

/// The span that an instance gets on a grid of `borders` borders.
fn spanOf(origin: usize, length: usize, borders: usize) -> (r: usize)
    requires
        origin < borders,
    ensures
        r == span(origin, length, borders as nat),
        origin + r < borders,
{
    let room: usize = borders - 1 - origin;
    if length > room {
        room
    } else {
        length
    }
}

impl Instance {
    /// Places the instance on a grid with the given borders.
    pub fn resolve(&mut self, bordersX: &Vec<isize>, bordersY: &Vec<isize>)
        ensures
            *final(self) == resolve_instance(*old(self), bordersX@, bordersY@),
    {
        if self.gridOriginX < bordersX.len() && self.gridOriginY < bordersY.len()
            && self.gridLenghtX > 0 && self.gridLenghtY > 0 {
            let spanX: usize = spanOf(self.gridOriginX, self.gridLenghtX, bordersX.len());
            let spanY: usize = spanOf(self.gridOriginY, self.gridLenghtY, bordersY.len());
            self.gridLenghtX = spanX;
            self.gridLenghtY = spanY;
            self.posX = bordersX[self.gridOriginX];
            self.posY = bordersY[self.gridOriginY];
            self.lenX = extentOf(self.posX, bordersX[self.gridOriginX + spanX]);
            self.lenY = extentOf(self.posY, bordersY[self.gridOriginY + spanY]);
        }
    }
}

impl ParentFrame {
    /// Lets the grid place every instance. Without a grid nothing changes.
    pub fn resolveGrid(&mut self)
        ensures
            final(self)@ == resolve_parent(old(self)@),
    {
        match self.typeOfTiling {
            Tiling::Off => {},
            Tiling::Grid => {
                let count: usize = self.listOfInstances.len();
                let mut k: usize = 0;
                while k < count
                    invariant
                        k <= count,
                        count == self.listOfInstances.len(),
                        count == old(self).listOfInstances.len(),
                        self.typeOfTiling == old(self).typeOfTiling,
                        self.gridBordersX == old(self).gridBordersX,
                        self.gridBordersY == old(self).gridBordersY,
                        self.gridMinimumX == old(self).gridMinimumX,
                        self.gridMinimumY == old(self).gridMinimumY,
                        self.pivotFrame == old(self).pivotFrame,
                        forall|i: int|
                            0 <= i < k ==> self.listOfInstances@[i] == resolve_instance(
                                old(self).listOfInstances@[i],
                                self.gridBordersX@,
                                self.gridBordersY@,
                            ),
                        forall|i: int|
                            k <= i < count ==> self.listOfInstances@[i] == old(
                                self,
                            ).listOfInstances@[i],
                    decreases count - k,
                {
                    let mut instance: Instance = self.listOfInstances[k];
                    instance.resolve(&self.gridBordersX, &self.gridBordersY);
                    self.listOfInstances[k] = instance;
                    k = k + 1;
                }
                proof {
                    assert(self@.listOfInstances =~= resolve_parent(old(self)@).listOfInstances);
                }
            },
        }
    }
}

/// Whether the cell in column `x` of row `y` lies in the box of `lenX` by
/// `lenY` cells at `(posX, posY)` and on a display of `sizeX` by `sizeY` cells.
pub open spec fn shared(
    x: int,
    y: int,
    sizeX: nat,
    sizeY: nat,
    posX: int,
    posY: int,
    lenX: nat,
    lenY: nat,
) -> bool {
    &&& posX <= x < posX + lenX
    &&& 0 <= x < sizeX
    &&& posY <= y < posY + lenY
    &&& 0 <= y < sizeY
}

/// Clipping yields the cells that the request box and the display share:
/// there is a visible part exactly if they share a cell, a cell is visible
/// exactly if they share it, and what is cut off is how far into the box the
/// visible part begins.
pub proof fn lemma_clip_is_intersection(
    sizeX: nat,
    sizeY: nat,
    posX: int,
    posY: int,
    lenX: nat,
    lenY: nat,
)
    requires
        sizeX <= usize::MAX,
        sizeY <= usize::MAX,
        lenX <= usize::MAX,
        lenY <= usize::MAX,
    ensures
        clip(sizeX, sizeY, posX, posY, lenX, lenY) is Some <==> exists|x: int, y: int|
            #[trigger] shared(x, y, sizeX, sizeY, posX, posY, lenX, lenY),
        clip(sizeX, sizeY, posX, posY, lenX, lenY) matches Some(c) ==> {
            &&& forall|x: int, y: int|
                c.covers(x, y) <==> #[trigger] shared(x, y, sizeX, sizeY, posX, posY, lenX, lenY)
            &&& c.minX == posX + c.cutX
            &&& c.minY == posY + c.cutY
            &&& 0 < c.width() <= lenX
            &&& 0 < c.height() <= lenY
            &&& c.maxX <= sizeX
            &&& c.maxY <= sizeY
        },
{
    if meets(posX, lenX, sizeX) && meets(posY, lenY, sizeY) {
        assert(shared(clip_min(posX), clip_min(posY), sizeX, sizeY, posX, posY, lenX, lenY));
    }
}

/// What the grid does to an instance that it can place: the span stays
/// within the grid, however long a span was asked for, and position and size
/// are those of the cells that the span covers. Between ascending borders
/// the size is the distance from the first border to the last.
pub proof fn lemma_resolved(instance: Instance, bordersX: Seq<isize>, bordersY: Seq<isize>)
    requires
        resolvable(instance, bordersX, bordersY),
    ensures
        ({
            let placed = resolve_instance(instance, bordersX, bordersY);
            &&& placed.gridOriginX == instance.gridOriginX
            &&& placed.gridOriginY == instance.gridOriginY
            &&& placed.gridLenghtX <= instance.gridLenghtX
            &&& placed.gridLenghtY <= instance.gridLenghtY
            &&& placed.gridOriginX + placed.gridLenghtX < bordersX.len()
            &&& placed.gridOriginY + placed.gridLenghtY < bordersY.len()
            &&& (instance.gridOriginX + instance.gridLenghtX < bordersX.len()
                ==> placed.gridLenghtX == instance.gridLenghtX)
            &&& (instance.gridOriginY + instance.gridLenghtY < bordersY.len()
                ==> placed.gridLenghtY == instance.gridLenghtY)
            &&& placed.posX == bordersX[placed.gridOriginX as int]
            &&& placed.posY == bordersY[placed.gridOriginY as int]
            &&& (bordersX[placed.gridOriginX as int] <= bordersX[placed.gridOriginX
                + placed.gridLenghtX] ==> placed.posX + placed.lenX == bordersX[placed.gridOriginX
                + placed.gridLenghtX])
            &&& (bordersY[placed.gridOriginY as int] <= bordersY[placed.gridOriginY
                + placed.gridLenghtY] ==> placed.posY + placed.lenY == bordersY[placed.gridOriginY
                + placed.gridLenghtY])
        }),
{
}

/// Placing an instance a second time changes nothing: a grid can be resolved
/// at every draw.
pub proof fn lemma_resolve_twice(instance: Instance, bordersX: Seq<isize>, bordersY: Seq<isize>)
    ensures
        resolve_instance(resolve_instance(instance, bordersX, bordersY), bordersX, bordersY)
            == resolve_instance(instance, bordersX, bordersY),
{
}

/// Resolving a parent a second time changes nothing.
pub proof fn lemma_resolve_parent_twice(parent: ParentFrameView)
    ensures
        resolve_parent(resolve_parent(parent)) == resolve_parent(parent),
{
    match parent.typeOfTiling {
        Tiling::Off => {},
        Tiling::Grid => {
            let once = resolve_parent(parent);
            assert forall|i: int| 0 <= i < once.listOfInstances.len() implies resolve_parent(
                once,
            ).listOfInstances[i] == once.listOfInstances[i] by {
                lemma_resolve_twice(
                    parent.listOfInstances[i],
                    parent.gridBordersX,
                    parent.gridBordersY,
                );
            }
            assert(resolve_parent(once).listOfInstances =~= once.listOfInstances);
        },
    }
}

} // verus!
