//! The frame model: the nodes of the tree that is composed onto a display.
pub mod style;

use vstd::prelude::*;

use crate::Flags;
use crate::frame::style::{StyledToken, StyledTokenView, Colour};

verus! {

/// Identifier of a frame: its one-based position in the frame table.
/// Zero stands for "no frame".
pub type FrameID = usize;

/// Index of a border in a grid's border array.
pub type GridBorder = usize;

/// No option is set.
pub const Frame_None: Flags = 0b0000_0000_0000_0000_0000_0000_0000_0000;

/// A single line of text that scrolls horizontally.
pub struct StatusFrame {
    pub flags: Flags,
    pub offs: isize,
    pub text: String,
    pub bgChar: char,
}

/// A status frame with its text as a sequence of characters.
pub struct StatusFrameView {
    pub flags: Flags,
    pub offs: isize,
    pub text: Seq<char>,
    pub bgChar: char,
}

impl View for StatusFrame {
    type V = StatusFrameView;

    open spec fn view(&self) -> StatusFrameView {
        StatusFrameView { flags: self.flags, offs: self.offs, text: self.text@, bgChar: self.bgChar }
    }
}

/// Several lines of text that scroll in both directions.
pub struct TextFrame {
    pub flags: Flags,
    pub offsX: isize,
    pub offsY: isize,
    pub lines: Vec<String>,
    pub bgChar: char,
}

/// A text frame with its lines as sequences of characters.
pub struct TextFrameView {
    pub flags: Flags,
    pub offsX: isize,
    pub offsY: isize,
    pub lines: Seq<Seq<char>>,
    pub bgChar: char,
}

impl View for TextFrame {
    type V = TextFrameView;

    open spec fn view(&self) -> TextFrameView {
        TextFrameView {
            flags: self.flags,
            offsX: self.offsX,
            offsY: self.offsY,
            lines: self.lines@.map_values(|line: String| line@),
            bgChar: self.bgChar,
        }
    }
}

/// Several lines of styled tokens that scroll in both directions.
pub struct EditorFrame {
    pub flags: Flags,
    pub offsX: isize,
    pub offsY: isize,
    pub lines: Vec<Vec<StyledToken>>,
    pub bgChar: char,
}

/// An editor frame with its lines as sequences of tokens.
pub struct EditorFrameView {
    pub flags: Flags,
    pub offsX: isize,
    pub offsY: isize,
    pub lines: Seq<Seq<StyledTokenView>>,
    pub bgChar: char,
}

impl View for EditorFrame {
    type V = EditorFrameView;

    open spec fn view(&self) -> EditorFrameView {
        EditorFrameView {
            flags: self.flags,
            offsX: self.offsX,
            offsY: self.offsY,
            lines: self.lines@.map_values(
                |line: Vec<StyledToken>| line@.map_values(|token: StyledToken| token@),
            ),
            bgChar: self.bgChar,
        }
    }
}

/// How the picture of a pixel frame is encoded.
pub enum PixelEncoding {
    /// No picture.
    Empty,
    RGB(u8, u8, u8),
    RGBA(u8, u8, u8, u8),
    Sixel(String),
}

/// An encoding with its data as a sequence of characters.
pub enum PixelEncodingView {
    Empty,
    RGB(u8, u8, u8),
    RGBA(u8, u8, u8, u8),
    Sixel(Seq<char>),
}

impl View for PixelEncoding {
    type V = PixelEncodingView;

    open spec fn view(&self) -> PixelEncodingView {
        match self {
            PixelEncoding::Empty => PixelEncodingView::Empty,
            PixelEncoding::RGB(r, g, b) => PixelEncodingView::RGB(*r, *g, *b),
            PixelEncoding::RGBA(r, g, b, a) => PixelEncodingView::RGBA(*r, *g, *b, *a),
            PixelEncoding::Sixel(data) => PixelEncodingView::Sixel(data@),
        }
    }
}

/// A picture. Displays do not render it yet.
pub struct PixelFrame {
    pub offsX: isize,
    pub offsY: isize,
    pub sizeX: usize,
    pub sizeY: usize,
    /// The scaling factor, as the bit pattern of a 64-bit floating-point number.
    pub scale: u64,
    pub ground: Colour,
    pub changed: bool,
    pub input: PixelEncoding,
    pub output: PixelEncoding,
}

/// A pixel frame with its encodings as views.
pub struct PixelFrameView {
    pub offsX: isize,
    pub offsY: isize,
    pub sizeX: usize,
    pub sizeY: usize,
    pub scale: u64,
    pub ground: Colour,
    pub changed: bool,
    pub input: PixelEncodingView,
    pub output: PixelEncodingView,
}

impl View for PixelFrame {
    type V = PixelFrameView;

    open spec fn view(&self) -> PixelFrameView {
        PixelFrameView {
            offsX: self.offsX,
            offsY: self.offsY,
            sizeX: self.sizeX,
            sizeY: self.sizeY,
            scale: self.scale,
            ground: self.ground,
            changed: self.changed,
            input: self.input@,
            output: self.output@,
        }
    }
}

/// A plot. Displays do not render it yet.
pub struct PlotFrame {
}

/// How a parent frame places its instances.
#[derive(Clone, Copy, PartialEq, Eq, Structural, Debug)]
pub enum Tiling {
    /// Every instance keeps the position and size its creator gave it.
    Off,
    /// Position and size of every instance follow from the grid's borders.
    Grid,
}

/// The placement of one frame inside a parent frame.
#[derive(Clone, Copy, PartialEq, Eq, Structural, Debug)]
pub struct Instance {
    pub frame: FrameID,
    pub posX: isize,
    pub posY: isize,
    pub lenX: usize,
    pub lenY: usize,
    pub minX: usize,
    pub minY: usize,
    pub maxX: usize,
    pub maxY: usize,
    pub gridOriginX: GridBorder,
    pub gridOriginY: GridBorder,
    pub gridLenghtX: GridBorder,
    pub gridLenghtY: GridBorder,
}

/// A container that tiles its instances.
pub struct ParentFrame {
    pub typeOfTiling: Tiling,
    pub listOfInstances: Vec<Instance>,
    pub gridBordersX: Vec<isize>,
    pub gridBordersY: Vec<isize>,
    pub gridMinimumX: Vec<usize>,
    pub gridMinimumY: Vec<usize>,
    pub pivotFrame: FrameID,
}

/// A parent frame with its lists as sequences.
pub struct ParentFrameView {
    pub typeOfTiling: Tiling,
    pub listOfInstances: Seq<Instance>,
    pub gridBordersX: Seq<isize>,
    pub gridBordersY: Seq<isize>,
    pub gridMinimumX: Seq<usize>,
    pub gridMinimumY: Seq<usize>,
    pub pivotFrame: FrameID,
}

impl View for ParentFrame {
    type V = ParentFrameView;

    open spec fn view(&self) -> ParentFrameView {
        ParentFrameView {
            typeOfTiling: self.typeOfTiling,
            listOfInstances: self.listOfInstances@,
            gridBordersX: self.gridBordersX@,
            gridBordersY: self.gridBordersY@,
            gridMinimumX: self.gridMinimumX@,
            gridMinimumY: self.gridMinimumY@,
            pivotFrame: self.pivotFrame,
        }
    }
}

/// Frames that share one rectangle, drawn from the first to the last.
pub struct LayerFrame {
    pub listOfLayers: Vec<FrameID>,
}

/// A node of the frame tree.
pub enum Frame {
    Status(StatusFrame),
    Text(TextFrame),
    Editor(EditorFrame),
    Pixel(PixelFrame),
    Plot(PlotFrame),
    Parent(ParentFrame),
    Layers(LayerFrame),
}

/// A frame with its texts as sequences of characters and its lists as
/// sequences.
pub enum FrameView {
    Status(StatusFrameView),
    Text(TextFrameView),
    Editor(EditorFrameView),
    Pixel(PixelFrameView),
    Plot,
    Parent(ParentFrameView),
    Layers(Seq<FrameID>),
}

impl View for Frame {
    type V = FrameView;

    open spec fn view(&self) -> FrameView {
        match self {
            Frame::Status(frame) => FrameView::Status(frame@),
            Frame::Text(frame) => FrameView::Text(frame@),
            Frame::Editor(frame) => FrameView::Editor(frame@),
            Frame::Pixel(frame) => FrameView::Pixel(frame@),
            Frame::Plot(_) => FrameView::Plot,
            Frame::Parent(frame) => FrameView::Parent(frame@),
            Frame::Layers(frame) => FrameView::Layers(frame.listOfLayers@),
        }
    }
}

/// Whether a sequence of borders ascends.
pub open spec fn ascending(borders: Seq<isize>) -> bool {
    forall|i: int, j: int| 0 <= i <= j < borders.len() ==> borders[i] <= borders[j]
}

/// The number of cells between `borders` borders.
pub open spec fn grid_cells(borders: nat) -> nat {
    if borders == 0 {
        0
    } else {
        (borders - 1) as nat
    }
}

/// The least sizes of `cells` grid cells: those that are given, as far as
/// there are cells for them, and zero for every cell without one.
pub open spec fn minimums(given: Seq<usize>, cells: nat) -> Seq<usize> {
    Seq::new(
        cells,
        |i: int|
            if i < given.len() {
                given[i]
            } else {
                0usize
            },
    )
}

/// Puts the borders of a grid in ascending order: the borders are those that
/// were given, each as often as it was given.
fn sortBorders(borders: &mut Vec<isize>)
    ensures
        ascending(final(borders)@),
        final(borders)@.to_multiset() == old(borders)@.to_multiset(),
{
    let mut sorted: Vec<isize> = Vec::new();
    let mut k: usize = 0;
    proof {
        assert(sorted@ =~= borders@.take(0));
    }
    while k < borders.len()
        invariant
            k <= borders.len(),
            borders@ == old(borders)@,
            ascending(sorted@),
            sorted@.to_multiset() == borders@.take(k as int).to_multiset(),
        decreases borders.len() - k,
    {
        let border: isize = borders[k];
        let mut place: usize = 0;
        while place < sorted.len() && sorted[place] <= border
            invariant
                place <= sorted.len(),
                forall|i: int| 0 <= i < place ==> sorted@[i] <= border,
            decreases sorted.len() - place,
        {
            place = place + 1;
        }
        let ghost before = sorted@;
        sorted.insert(place, border);
        proof {
            assert forall|i: int, j: int| 0 <= i <= j < sorted@.len() implies sorted@[i]
                <= sorted@[j] by {
                if j < place {
                    assert(sorted@[i] == before[i] && sorted@[j] == before[j]);
                } else if j == place {
                    if i < place {
                        assert(sorted@[i] == before[i]);
                    }
                } else {
                    assert(sorted@[j] == before[j - 1]);
                    assert(before[place as int] <= before[j - 1]);
                    if i < place {
                        assert(sorted@[i] == before[i]);
                        assert(before[i] <= before[j - 1]);
                    } else if i > place {
                        assert(sorted@[i] == before[i - 1]);
                    }
                }
            }
            assert(borders@.take(k + 1) =~= borders@.take(k as int).push(border));
            vstd::seq_lib::to_multiset_insert(before, place as int, border);
            vstd::seq_lib::to_multiset_build(borders@.take(k as int), border);
        }
        k = k + 1;
    }
    proof {
        assert(borders@.take(k as int) =~= borders@);
    }
    *borders = sorted;
}

/// Gives every cell between `borders` borders a least size.
fn fitMinimums(given: &mut Vec<usize>, borders: usize)
    ensures
        final(given)@ == minimums(old(given)@, grid_cells(borders as nat)),
{
    let cells: usize = if borders == 0 {
        0
    } else {
        borders - 1
    };
    given.truncate(cells);
    while given.len() < cells
        invariant
            given.len() <= cells,
            cells == grid_cells(borders as nat),
            given.len() < cells ==> given.len() >= old(given)@.len(),
            forall|i: int|
                0 <= i < given.len() ==> given@[i] == minimums(old(given)@, cells as nat)[i],
        decreases cells - given.len(),
    {
        given.push(0);
    }
    proof {
        assert(given@ =~= minimums(old(given)@, cells as nat));
    }
}

/// Whether `frame` is the parent frame that `Frame::newParentFrame` makes
/// of the given parts: the borders ascend and are those that were given,
/// each axis has one least size per cell, the rest is as given.
pub open spec fn parent_made(
    frame: Frame,
    tiling: Tiling,
    listOfInstances: Vec<Instance>,
    gridBordersX: Seq<isize>,
    gridBordersY: Seq<isize>,
    gridMinimumX: Seq<usize>,
    gridMinimumY: Seq<usize>,
    pivotFrame: FrameID,
) -> bool {
    &&& frame is Parent
    &&& frame->Parent_0.typeOfTiling == tiling
    &&& frame->Parent_0.listOfInstances == listOfInstances
    &&& frame->Parent_0.pivotFrame == pivotFrame
    &&& ascending(frame->Parent_0.gridBordersX@)
    &&& ascending(frame->Parent_0.gridBordersY@)
    &&& frame->Parent_0.gridBordersX@.to_multiset() == gridBordersX.to_multiset()
    &&& frame->Parent_0.gridBordersY@.to_multiset() == gridBordersY.to_multiset()
    &&& frame->Parent_0.gridMinimumX@ == minimums(gridMinimumX, grid_cells(gridBordersX.len()))
    &&& frame->Parent_0.gridMinimumY@ == minimums(gridMinimumY, grid_cells(gridBordersY.len()))
}

impl Frame {
    /// A new status frame.
    pub fn newStatusFrame(flags: Flags, offs: isize, text: String, bgChar: char) -> (frame: Frame)
        ensures
            frame == Frame::Status(
                StatusFrame { flags: flags, offs: offs, text: text, bgChar: bgChar },
            ),
    {
        Frame::Status(StatusFrame { flags: flags, offs: offs, text: text, bgChar: bgChar })
    }

    /// A new text frame.
    pub fn newTextFrame(flags: Flags, offsX: isize, offsY: isize, lines: Vec<String>, bgChar: char)
        -> (frame: Frame)
        ensures
            frame == Frame::Text(
                TextFrame { flags: flags, offsX: offsX, offsY: offsY, lines: lines, bgChar: bgChar },
            ),
    {
        Frame::Text(
            TextFrame { flags: flags, offsX: offsX, offsY: offsY, lines: lines, bgChar: bgChar },
        )
    }

    /// A new editor frame.
    pub fn newEditorFrame(
        flags: Flags,
        offsX: isize,
        offsY: isize,
        lines: Vec<Vec<StyledToken>>,
        bgChar: char,
    ) -> (frame: Frame)
        ensures
            frame == Frame::Editor(
                EditorFrame {
                    flags: flags,
                    offsX: offsX,
                    offsY: offsY,
                    lines: lines,
                    bgChar: bgChar,
                },
            ),
    {
        Frame::Editor(
            EditorFrame { flags: flags, offsX: offsX, offsY: offsY, lines: lines, bgChar: bgChar },
        )
    }

    /// A new pixel frame, marked as changed. The scaling factor is given as
    /// the bit pattern of a 64-bit floating-point number.
    pub fn newPixelFrame(
        offsX: isize,
        offsY: isize,
        sizeX: usize,
        sizeY: usize,
        scale: u64,
        ground: Colour,
        input: PixelEncoding,
        output: PixelEncoding,
    ) -> (frame: Frame)
        ensures
            frame == Frame::Pixel(
                PixelFrame {
                    offsX: offsX,
                    offsY: offsY,
                    sizeX: sizeX,
                    sizeY: sizeY,
                    scale: scale,
                    ground: ground,
                    changed: true,
                    input: input,
                    output: output,
                },
            ),
    {
        Frame::Pixel(
            PixelFrame {
                offsX: offsX,
                offsY: offsY,
                sizeX: sizeX,
                sizeY: sizeY,
                scale: scale,
                ground: ground,
                changed: true,
                input: input,
                output: output,
            },
        )
    }

    /// The placement of `frame` with the given position, size and grid cells.
    pub fn newInstance(
        frame: FrameID,
        posX: isize,
        posY: isize,
        lenX: usize,
        lenY: usize,
        minX: usize,
        minY: usize,
        maxX: usize,
        maxY: usize,
        gridOriginX: GridBorder,
        gridOriginY: GridBorder,
        gridLenghtX: GridBorder,
        gridLenghtY: GridBorder,
    ) -> (instance: Instance)
        ensures
            instance == (Instance {
                frame: frame,
                posX: posX,
                posY: posY,
                lenX: lenX,
                lenY: lenY,
                minX: minX,
                minY: minY,
                maxX: maxX,
                maxY: maxY,
                gridOriginX: gridOriginX,
                gridOriginY: gridOriginY,
                gridLenghtX: gridLenghtX,
                gridLenghtY: gridLenghtY,
            }),
    {
        Instance {
            frame: frame,
            posX: posX,
            posY: posY,
            lenX: lenX,
            lenY: lenY,
            minX: minX,
            minY: minY,
            maxX: maxX,
            maxY: maxY,
            gridOriginX: gridOriginX,
            gridOriginY: gridOriginY,
            gridLenghtX: gridLenghtX,
            gridLenghtY: gridLenghtY,
        }
    }

    /// A new parent frame. The borders of its grid are put in ascending
    /// order, and each axis gets one least size per cell: those that are
    /// given as far as there are cells for them, zero for the others.
    pub fn newParentFrame(
        tiling: Tiling,
        listOfInstances: Vec<Instance>,
        gridBordersX: Vec<isize>,
        gridBordersY: Vec<isize>,
        gridMinimumX: Vec<usize>,
        gridMinimumY: Vec<usize>,
        pivotFrame: FrameID,
    ) -> (frame: Frame)
        ensures
            parent_made(
                frame,
                tiling,
                listOfInstances,
                gridBordersX@,
                gridBordersY@,
                gridMinimumX@,
                gridMinimumY@,
                pivotFrame,
            ),
    {
        let mut bordersX: Vec<isize> = gridBordersX;
        let mut bordersY: Vec<isize> = gridBordersY;
        let mut minimumX: Vec<usize> = gridMinimumX;
        let mut minimumY: Vec<usize> = gridMinimumY;
        sortBorders(&mut bordersX);
        sortBorders(&mut bordersY);
        proof {
            gridBordersX@.to_multiset_ensures();
            bordersX@.to_multiset_ensures();
            gridBordersY@.to_multiset_ensures();
            bordersY@.to_multiset_ensures();
        }
        fitMinimums(&mut minimumX, bordersX.len());
        fitMinimums(&mut minimumY, bordersY.len());
        Frame::Parent(
            ParentFrame {
                typeOfTiling: tiling,
                listOfInstances: listOfInstances,
                gridBordersX: bordersX,
                gridBordersY: bordersY,
                gridMinimumX: minimumX,
                gridMinimumY: minimumY,
                pivotFrame: pivotFrame,
            },
        )
    }
}

} // verus!
