use openapi_tui::layout::{
    column_constraints, column_heights, frame_constraints, pair, place_fullscreen, place_grid,
    settle, split_columns, split_frame, stack, Constraint, Direction, Placement, Rect,
};

fn rect(x: u16, y: u16, width: u16, height: u16) -> Rect {
    Rect { x, y, width, height }
}

#[test]
fn frame_asks_for_content_and_one_status_row() {
    assert_eq!(frame_constraints(), vec![Constraint::Fill(1), Constraint::Max(1)]);
}

#[test]
fn columns_ask_for_one_and_three_shares() {
    assert_eq!(column_constraints(), vec![Constraint::Fill(1), Constraint::Fill(3)]);
}

#[test]
fn status_line_takes_the_last_row() {
    let (content, status) = split_frame(rect(0, 0, 80, 24));
    assert_eq!(content, rect(0, 0, 80, 23));
    assert_eq!(status, rect(0, 23, 80, 1));
}

#[test]
fn frame_of_one_row_leaves_the_row_to_the_status_line() {
    let (content, status) = split_frame(rect(0, 0, 80, 1));
    assert_eq!(content, rect(0, 0, 80, 0));
    assert_eq!(status, rect(0, 0, 80, 1));
}

#[test]
fn empty_frame_has_empty_parts() {
    let (content, status) = split_frame(rect(0, 0, 0, 0));
    assert_eq!(content, rect(0, 0, 0, 0));
    assert_eq!(status, rect(0, 0, 0, 0));
}

#[test]
fn frame_parts_keep_the_columns_of_the_frame() {
    let (content, status) = split_frame(rect(7, 3, 41, 17));
    assert_eq!((content.x, content.width), (7, 41));
    assert_eq!((status.x, status.width), (7, 41));
    assert_eq!(content.y, 3);
    assert_eq!(content.height, 16);
    assert_eq!(status, rect(7, 19, 41, 1));
}

#[test]
fn columns_share_the_width_one_to_three() {
    let (left, right) = split_columns(rect(0, 0, 80, 23));
    assert_eq!(left, rect(0, 0, 20, 23));
    assert_eq!(right, rect(20, 0, 60, 23));
}

#[test]
fn columns_keep_the_rows_of_the_content_area() {
    let (left, right) = split_columns(rect(4, 9, 100, 30));
    assert_eq!((left.y, left.height), (9, 30));
    assert_eq!((right.y, right.height), (9, 30));
    assert_eq!(left, rect(4, 9, 25, 30));
    assert_eq!(right, rect(29, 9, 75, 30));
}

#[test]
fn stack_gives_one_part_for_each_height() {
    let heights = vec![Constraint::Length(3), Constraint::Fill(1), Constraint::Fill(1)];
    let parts = stack(&heights, rect(20, 0, 60, 23));
    assert_eq!(parts, vec![rect(20, 0, 60, 3), rect(20, 3, 60, 10), rect(20, 13, 60, 10)]);
}

#[test]
fn stack_of_no_heights_is_empty() {
    assert_eq!(stack(&Vec::new(), rect(0, 0, 10, 10)), Vec::new());
}

#[test]
fn stack_knows_every_kind_of_constraint() {
    let column = rect(0, 0, 10, 100);
    assert_eq!(stack(&vec![Constraint::Length(30), Constraint::Min(0)], column)[0].height, 30);
    assert_eq!(stack(&vec![Constraint::Percentage(25), Constraint::Min(0)], column)[0].height, 25);
    assert_eq!(stack(&vec![Constraint::Ratio(1, 5), Constraint::Min(0)], column)[0].height, 20);
    assert_eq!(stack(&vec![Constraint::Max(7), Constraint::Fill(1)], column)[0].height, 7);
    assert_eq!(stack(&vec![Constraint::Min(40), Constraint::Length(10)], column)[0].height, 90);
    assert_eq!(stack(&vec![Constraint::Fill(1), Constraint::Fill(4)], column)[0].height, 20);
}

#[test]
fn stack_parts_keep_the_columns_of_the_column() {
    let heights = vec![Constraint::Fill(1), Constraint::Fill(2)];
    for part in stack(&heights, rect(13, 5, 27, 31)) {
        assert_eq!((part.x, part.width), (13, 27));
    }
}

#[test]
fn grid_takes_two_panes_from_the_left_and_three_from_the_right() {
    let left = vec![rect(0, 0, 20, 18), rect(0, 18, 20, 5)];
    let right = vec![rect(20, 0, 60, 3), rect(20, 3, 60, 10), rect(20, 13, 60, 10)];
    assert_eq!(
        place_grid(&left, &right),
        vec![
            Placement { pane: 0, area: left[0] },
            Placement { pane: 1, area: left[1] },
            Placement { pane: 2, area: right[0] },
            Placement { pane: 3, area: right[1] },
            Placement { pane: 4, area: right[2] },
        ]
    );
}

#[test]
fn fullscreen_places_the_pane_on_the_content_area() {
    let content = rect(0, 0, 80, 23);
    assert_eq!(place_fullscreen(3, content), vec![Placement { pane: 3, area: content }]);
}

#[test]
fn pair_takes_the_two_parts_in_their_order() {
    let parts = vec![rect(0, 0, 80, 23), rect(0, 23, 80, 1)];
    assert_eq!(pair(&parts), (rect(0, 0, 80, 23), rect(0, 23, 80, 1)));
}

#[test]
fn column_heights_gives_two_to_the_left_and_three_to_the_right() {
    let heights = vec![
        Constraint::Length(1),
        Constraint::Length(2),
        Constraint::Length(3),
        Constraint::Length(4),
        Constraint::Length(5),
    ];
    let (left, right) = column_heights(heights);
    assert_eq!(left, vec![Constraint::Length(1), Constraint::Length(2)]);
    assert_eq!(right, vec![Constraint::Length(3), Constraint::Length(4), Constraint::Length(5)]);
}

#[test]
fn settle_leaves_parts_in_order_as_they_are() {
    let area = rect(2, 3, 10, 10);
    let parts = vec![rect(2, 3, 10, 4), rect(2, 7, 10, 0), rect(2, 8, 10, 5)];
    assert_eq!(settle(Direction::Vertical, area, parts.clone()), parts);
    let across = rect(2, 3, 10, 10);
    let columns = vec![rect(2, 3, 3, 10), rect(5, 3, 7, 10)];
    assert_eq!(settle(Direction::Horizontal, across, columns.clone()), columns);
}

#[test]
fn settle_moves_a_part_that_begins_too_early_behind_the_one_before_it() {
    let area = rect(0, 0, 10, 10);
    let parts = vec![rect(0, 0, 10, 6), rect(0, 4, 10, 6)];
    assert_eq!(
        settle(Direction::Vertical, area, parts),
        vec![rect(0, 0, 10, 6), rect(0, 6, 10, 4)]
    );
}

#[test]
fn settle_empties_a_part_that_ends_before_the_one_before_it() {
    let area = rect(0, 0, 10, 10);
    let parts = vec![rect(0, 5, 10, 5), rect(0, 0, 10, 3), rect(0, 2, 10, 1)];
    assert_eq!(
        settle(Direction::Vertical, area, parts),
        vec![rect(0, 5, 10, 5), rect(0, 10, 10, 0), rect(0, 10, 10, 0)]
    );
}

#[test]
fn settle_cuts_parts_off_at_the_ends_of_the_area() {
    let area = rect(10, 0, 10, 5);
    let parts = vec![rect(5, 0, 10, 5), rect(15, 0, 10, 5), rect(30, 0, 4, 5)];
    assert_eq!(
        settle(Direction::Horizontal, area, parts),
        vec![rect(10, 0, 5, 5), rect(15, 0, 5, 5), rect(20, 0, 0, 5)]
    );
}

#[test]
fn settle_leaves_alone_what_parts_have_across_the_split() {
    let area = rect(0, 0, 10, 10);
    let parts = vec![rect(3, 0, 4, 6), rect(1, 4, 2, 6)];
    assert_eq!(
        settle(Direction::Vertical, area, parts),
        vec![rect(3, 0, 4, 6), rect(1, 6, 2, 4)]
    );
}

#[test]
fn settle_holds_at_the_edge_of_the_grid() {
    let area = rect(0, 65000, 10, 65000);
    let parts = vec![rect(0, 65000, 10, 500), rect(0, 65400, 10, 65535)];
    assert_eq!(
        settle(Direction::Vertical, area, parts),
        vec![rect(0, 65000, 10, 500), rect(0, 65500, 10, 35)]
    );
}

#[test]
fn settle_of_no_parts_is_empty() {
    assert_eq!(settle(Direction::Vertical, rect(0, 0, 10, 10), Vec::new()), Vec::new());
}

#[test]
fn the_status_line_lies_below_the_content_area_inside_the_frame() {
    for height in [0u16, 1, 2, 24, 1000] {
        let area = rect(3, 7, 40, height);
        let (content, status) = split_frame(area);
        assert!(area.y <= content.y);
        assert!(content.y + content.height <= status.y);
        assert!(status.y + status.height <= area.y + area.height);
    }
}

#[test]
fn the_right_column_lies_right_of_the_left_one_inside_the_content_area() {
    for width in [0u16, 1, 2, 3, 80, 1001] {
        let content = rect(3, 7, width, 20);
        let (left, right) = split_columns(content);
        assert!(content.x <= left.x);
        assert!(left.x + left.width <= right.x);
        assert!(right.x + right.width <= content.x + content.width);
    }
}

#[test]
fn stacked_parts_lie_one_below_the_other_inside_the_column() {
    let heights = vec![
        Constraint::Fill(1),
        Constraint::Percentage(50),
        Constraint::Min(4),
        Constraint::Ratio(1, 3),
        Constraint::Max(2),
        Constraint::Length(9),
    ];
    for height in [0u16, 5, 17, 100] {
        let column = rect(1, 2, 30, height);
        let parts = stack(&heights, column);
        assert_eq!(parts.len(), 6);
        let mut floor = column.y;
        for part in parts {
            assert!(floor <= part.y);
            floor = part.y + part.height;
        }
        assert!(floor <= column.y + column.height);
    }
}

#[test]
fn a_boundary_on_half_a_cell_still_gives_parts_in_order() {
    let content = rect(0, 0, 2099, 5);
    let parts = stack(&vec![Constraint::Fill(1), Constraint::Fill(199)], rect(0, 0, 5, 2099));
    assert!(parts[0].y + parts[0].height <= parts[1].y);
    let (left, right) = split_columns(content);
    assert!(left.x + left.width <= right.x);
}
