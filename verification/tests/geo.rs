use keyed_editor::geo::{ScreenArea, ScreenCoord};

fn c(line: u16, column: u16) -> ScreenCoord {
    ScreenCoord { line, column }
}

fn area_10_20() -> ScreenArea {
    ScreenArea::new(c(10, 20), c(20, 40))
}

#[test]
fn test_area_size() {
    let area = ScreenArea::new(ScreenCoord::zero(), c(20, 40));
    assert_eq!(area.width(), 41);
    assert_eq!(area.height(), 21);

    let area = ScreenArea::new(c(10, 20), c(20, 40));
    assert_eq!(area.width(), 21);
    assert_eq!(area.height(), 11);
}

#[test]
fn test_contains_coords() {
    let area = area_10_20();
    // The point is relative to the start of the area so it's inside even
    // though the area starts at 10,20.
    assert!(area.contains_internal_coord(c(0, 0)));
    // The areas include their bounds, which means 10,20 is included.
    assert!(area.contains_internal_coord(c(10, 20)));
    assert!(area.contains_internal_coord(c(5, 10)));
}

#[test]
fn test_doesnt_contains_coords() {
    let area = area_10_20();
    assert!(!area.contains_internal_coord(c(11, 20)));
    assert!(!area.contains_internal_coord(c(10, 21)));
    assert!(!area.contains_internal_coord(c(11, 21)));
    assert!(!area.contains_internal_coord(c(20, 40)));
}

#[test]
fn test_contains_area() {
    let area = area_10_20();
    assert!(area.contains_internal_area(ScreenArea::new(ScreenCoord::zero(), c(10, 20))));
    assert!(area.contains_internal_area(ScreenArea::new(c(2, 8), c(7, 16))));
    assert!(area.contains_internal_area(ScreenArea::new(c(10, 20), c(10, 20))));
}

#[test]
fn test_doesnt_contains_area() {
    let area = area_10_20();
    assert!(!area.contains_internal_area(ScreenArea::new(ScreenCoord::zero(), c(10, 21))));
    assert!(!area.contains_internal_area(ScreenArea::new(ScreenCoord::zero(), c(11, 20))));
    assert!(!area.contains_internal_area(ScreenArea::new(ScreenCoord::zero(), c(11, 21))));
    assert!(!area.contains_internal_area(ScreenArea::new(c(10, 20), c(20, 40))));
}

#[test]
fn test_translate_internal_coords() {
    let area = area_10_20();
    assert_eq!(area.translate_internal_coord(c(0, 0)), c(10, 20));
    assert_eq!(area.translate_internal_coord(c(5, 10)), c(15, 30));
    assert_eq!(area.translate_internal_coord(c(10, 20)), c(20, 40));
}

fn debug_area(tl: ScreenCoord, br: ScreenCoord) -> String {
    format!(
        "ScreenArea {{\n    top_left: ScreenCoord {{\n        line: {},\n        column: {},\n    }},\n    bottom_right: ScreenCoord {{\n        line: {},\n        column: {},\n    }},\n}}",
        tl.line, tl.column, br.line, br.column
    )
}

#[test]
fn test_split_on_internal_column() {
    let area = area_10_20();
    let (left, right) = area.split_after_internal_column(0);
    assert_eq!(format!("{left:#?}"), debug_area(c(10, 20), c(20, 20)));
    assert_eq!(format!("{right:#?}"), debug_area(c(10, 21), c(20, 40)));
    let (left, right) = right.split_after_internal_column(8);
    assert_eq!(format!("{left:#?}"), debug_area(c(10, 21), c(20, 29)));
    assert_eq!(format!("{right:#?}"), debug_area(c(10, 30), c(20, 40)));
}

#[test]
fn test_split_on_internal_line() {
    let area = area_10_20();
    let (top, bottom) = area.split_after_internal_line(0);
    assert_eq!(format!("{top:#?}"), debug_area(c(10, 20), c(10, 40)));
    assert_eq!(format!("{bottom:#?}"), debug_area(c(11, 20), c(20, 40)));
    let (top, bottom) = bottom.split_after_internal_line(8);
    assert_eq!(format!("{top:#?}"), debug_area(c(11, 20), c(19, 40)));
    assert_eq!(format!("{bottom:#?}"), debug_area(c(20, 20), c(20, 40)));
}

#[test]
fn split_halves_cover_the_area_without_overlap() {
    // Splitting after a column: every cell lies in exactly one half.
    let area = area_10_20();
    let (left, right) = area.split_after_internal_column(4);
    for line in 0..area.height() {
        for column in 0..area.width() {
            let abs = area.translate_internal_coord(c(line, column));
            let in_left = abs.column <= left.bottom_right().column;
            let in_right = abs.column >= right.top_left().column;
            assert!(in_left != in_right);
        }
    }
    assert_eq!(left.width() + right.width(), area.width());
}

#[test]
fn nested_translation_is_translation_by_both_corners() {
    let outer = area_10_20();
    let inner = outer.shrink_to_internal_area(ScreenArea::new(c(2, 3), c(5, 9)));
    assert_eq!(inner.top_left(), c(12, 23));
    assert_eq!(inner.bottom_right(), c(15, 29));
    assert_eq!(inner.translate_internal_coord(c(1, 1)), c(13, 24));
}

#[test]
fn iter_lists_every_internal_coordinate_once() {
    let area = ScreenArea::new(c(3, 4), c(4, 6));
    let coords = area.iter();
    assert_eq!(coords, vec![c(0, 0), c(0, 1), c(0, 2), c(1, 0), c(1, 1), c(1, 2)]);
}
