use ferrocene::display::layout::{clipBox, Clip};
use ferrocene::frame::{Frame, Instance, ParentFrame, Tiling};

fn instance(frame: usize, origin: (usize, usize), span: (usize, usize)) -> Instance {
    Frame::newInstance(frame, 0, 0, 0, 0, 0, 0, 0, 0, origin.0, origin.1, span.0, span.1)
}

fn grid(instances: Vec<Instance>, borders_x: Vec<isize>, borders_y: Vec<isize>) -> ParentFrame {
    match Frame::newParentFrame(Tiling::Grid, instances, borders_x, borders_y, vec![], vec![], 0) {
        Frame::Parent(parent) => parent,
        _ => unreachable!(),
    }
}

#[test]
fn box_that_starts_off_screen_is_cut() {
    let clip = clipBox(80, 24, -3, -2, 10, 5);
    assert_eq!(
        clip,
        Some(Clip { minX: 0, minY: 0, maxX: 7, maxY: 3, cutX: 3, cutY: 2 })
    );
}

#[test]
fn box_inside_the_display_is_kept_whole() {
    let clip = clipBox(80, 24, 10, 5, 20, 3);
    assert_eq!(
        clip,
        Some(Clip { minX: 10, minY: 5, maxX: 30, maxY: 8, cutX: 0, cutY: 0 })
    );
}

#[test]
fn box_that_reaches_beyond_the_display_ends_at_its_edge() {
    let clip = clipBox(80, 24, 70, 20, 20, 10);
    assert_eq!(
        clip,
        Some(Clip { minX: 70, minY: 20, maxX: 80, maxY: 24, cutX: 0, cutY: 0 })
    );
}

#[test]
fn box_outside_the_display_has_no_visible_part() {
    assert_eq!(clipBox(80, 24, 80, 0, 5, 5), None);
    assert_eq!(clipBox(80, 24, 0, 24, 5, 5), None);
    assert_eq!(clipBox(80, 24, -10, 0, 10, 5), None);
    assert_eq!(clipBox(80, 24, 0, -5, 10, 5), None);
    assert_eq!(clipBox(80, 24, 200, 200, 1, 1), None);
}

#[test]
fn empty_box_has_no_visible_part() {
    assert_eq!(clipBox(80, 24, 5, 5, 0, 3), None);
    assert_eq!(clipBox(80, 24, 5, 5, 3, 0), None);
}

#[test]
fn box_far_away_does_not_overflow() {
    assert_eq!(clipBox(80, 24, i128::MIN, 0, usize::MAX, 1), None);
    assert_eq!(clipBox(80, 24, i128::MAX, 0, usize::MAX, 1), None);
    assert_eq!(
        clipBox(usize::MAX, 1, -1, 0, usize::MAX, 1),
        Some(Clip { minX: 0, minY: 0, maxX: usize::MAX - 1, maxY: 1, cutX: 1, cutY: 0 })
    );
}

#[test]
fn grid_places_instances_between_its_borders() {
    let mut parent = grid(
        vec![instance(1, (0, 0), (1, 1)), instance(2, (1, 1), (1, 1))],
        vec![0, 60, 80],
        vec![0, 23, 24],
    );
    parent.resolveGrid();
    let first = parent.listOfInstances[0];
    assert_eq!((first.posX, first.posY), (0, 0));
    assert_eq!((first.lenX, first.lenY), (60, 23));
    let second = parent.listOfInstances[1];
    assert_eq!((second.posX, second.posY), (60, 23));
    assert_eq!((second.lenX, second.lenY), (20, 1));
}

#[test]
fn span_beyond_the_grid_is_cut_down() {
    let mut parent = grid(vec![instance(1, (1, 0), (5, 1))], vec![0, 60, 80], vec![0, 24]);
    parent.resolveGrid();
    let placed = parent.listOfInstances[0];
    assert_eq!(placed.gridLenghtX, 1);
    assert_eq!(placed.gridLenghtY, 1);
    assert_eq!((placed.posX, placed.lenX), (60, 20));
    assert_eq!((placed.posY, placed.lenY), (0, 24));
}

#[test]
fn span_over_several_cells_adds_them_up() {
    let mut parent = grid(vec![instance(1, (0, 0), (2, 2))], vec![0, 60, 80], vec![0, 23, 24]);
    parent.resolveGrid();
    let placed = parent.listOfInstances[0];
    assert_eq!((placed.gridLenghtX, placed.gridLenghtY), (2, 2));
    assert_eq!((placed.lenX, placed.lenY), (80, 24));
}

#[test]
fn instance_on_the_last_border_gets_no_room() {
    let mut parent = grid(vec![instance(1, (2, 0), (1, 1))], vec![0, 60, 80], vec![0, 24]);
    parent.resolveGrid();
    let placed = parent.listOfInstances[0];
    assert_eq!(placed.gridLenghtX, 0);
    assert_eq!((placed.posX, placed.lenX), (80, 0));
}

#[test]
fn instance_that_the_grid_cannot_place_is_left_alone() {
    let given = Frame::newInstance(1, 7, 8, 9, 10, 0, 0, 0, 0, 3, 0, 1, 1);
    let no_span = Frame::newInstance(1, 7, 8, 9, 10, 0, 0, 0, 0, 0, 0, 0, 1);
    let mut parent = grid(vec![given, no_span], vec![0, 60, 80], vec![0, 24]);
    parent.resolveGrid();
    assert_eq!(parent.listOfInstances[0], given);
    assert_eq!(parent.listOfInstances[1], no_span);
}

#[test]
fn grid_without_borders_places_nothing() {
    let given = Frame::newInstance(1, 7, 8, 9, 10, 0, 0, 0, 0, 0, 0, 1, 1);
    let mut parent = grid(vec![given], vec![], vec![]);
    parent.resolveGrid();
    assert_eq!(parent.listOfInstances[0], given);
    assert_eq!(parent.gridMinimumX, Vec::<usize>::new());
}

#[test]
fn placing_twice_changes_nothing() {
    let mut parent = grid(vec![instance(1, (1, 0), (5, 1))], vec![0, 60, 80], vec![0, 24]);
    parent.resolveGrid();
    let once = parent.listOfInstances[0];
    parent.resolveGrid();
    assert_eq!(parent.listOfInstances[0], once);
}

#[test]
fn without_tiling_instances_keep_their_place() {
    let given = Frame::newInstance(1, 7, 8, 9, 10, 0, 0, 0, 0, 0, 0, 1, 1);
    let frame = Frame::newParentFrame(
        Tiling::Off,
        vec![given],
        vec![0, 60, 80],
        vec![0, 24],
        vec![],
        vec![],
        0,
    );
    let mut parent = match frame {
        Frame::Parent(parent) => parent,
        _ => unreachable!(),
    };
    parent.resolveGrid();
    assert_eq!(parent.listOfInstances[0], given);
}

#[test]
fn borders_are_put_in_order() {
    let parent = grid(vec![], vec![80, 0, 60], vec![24, -3, 0, 23]);
    assert_eq!(parent.gridBordersX, vec![0, 60, 80]);
    assert_eq!(parent.gridBordersY, vec![-3, 0, 23, 24]);
}

#[test]
fn every_cell_gets_a_least_size() {
    let frame = Frame::newParentFrame(
        Tiling::Grid,
        vec![],
        vec![0, 60, 80],
        vec![0, 23, 24, 30],
        vec![5, 6, 7, 8],
        vec![9],
        4,
    );
    let parent = match frame {
        Frame::Parent(parent) => parent,
        _ => unreachable!(),
    };
    assert_eq!(parent.gridMinimumX, vec![5, 6]);
    assert_eq!(parent.gridMinimumY, vec![9, 0, 0]);
    assert_eq!(parent.pivotFrame, 4);
}

#[test]
fn size_between_borders_at_the_ends_of_the_range_fits() {
    let mut parent = grid(
        vec![instance(1, (0, 0), (1, 1))],
        vec![isize::MIN, isize::MAX],
        vec![0, 1],
    );
    parent.resolveGrid();
    assert_eq!(parent.listOfInstances[0].posX, isize::MIN);
    assert_eq!(parent.listOfInstances[0].lenX, usize::MAX);
}
