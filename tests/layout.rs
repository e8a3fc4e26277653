use flowui::geometry::Rect;
use flowui::layout::{compute, place, Layout, Placed};
use flowui::metrics::{Face, FaceMetrics, FontFaces};
use flowui::widget::{Direction, Rgb, Widget};

fn fixed_fonts(advance: u64, line: u64) -> FontFaces {
    FontFaces { regular: FaceMetrics::fixed(advance, line), mono: FaceMetrics::fixed(advance, line) }
}

fn red() -> Rgb {
    Rgb::new(255, 0, 0)
}

fn leaf(label: &str) -> Widget {
    Widget::leaf(red(), label)
}

fn rects_equal(a: &Placed, b: &Placed) -> bool {
    a.rect == b.rect
        && a.children.len() == b.children.len()
        && a.children.iter().zip(b.children.iter()).all(|(x, y)| rects_equal(x, y))
}

fn three_of_widths(dir: Direction) -> Layout {
    let fonts = fixed_fonts(10, 12);
    let tree = Widget::flow(dir, vec![leaf("a"), leaf("bb"), leaf("ccc")]);
    compute(&tree, &fonts, 800, 600).unwrap()
}

#[test]
fn right_places_children_left_to_right() {
    let l = three_of_widths(Direction::Right);
    let xs: Vec<u64> = l.root.children.iter().map(|c| c.rect.x).collect();
    assert_eq!(xs, vec![0, 10, 30]);
    let ws: Vec<u64> = l.root.children.iter().map(|c| c.rect.w).collect();
    assert_eq!(ws, vec![10, 20, 30]);
    assert!(l.root.children.iter().all(|c| c.rect.y == 0));
}

#[test]
fn left_places_children_right_to_left() {
    let l = three_of_widths(Direction::Left);
    let xs: Vec<u64> = l.root.children.iter().map(|c| c.rect.x).collect();
    assert_eq!(xs, vec![50, 30, 0]);
}

#[test]
fn down_and_up_stack_vertically() {
    let fonts = fixed_fonts(6, 12);
    let down = Widget::flow(Direction::Down, vec![leaf("a"), leaf("b"), leaf("c")]);
    let l = compute(&down, &fonts, 100, 100).unwrap();
    let ys: Vec<u64> = l.root.children.iter().map(|c| c.rect.y).collect();
    assert_eq!(ys, vec![0, 12, 24]);
    let up = Widget::flow(Direction::Up, vec![leaf("a"), leaf("b"), leaf("c")]);
    let l = compute(&up, &fonts, 100, 100).unwrap();
    let ys: Vec<u64> = l.root.children.iter().map(|c| c.rect.y).collect();
    assert_eq!(ys, vec![24, 12, 0]);
    assert!(l.root.children.iter().all(|c| c.rect.x == 0));
}

#[test]
fn horizontal_container_sums_widths_and_takes_max_height() {
    let fonts = FontFaces { regular: FaceMetrics::fixed(7, 10), mono: FaceMetrics::fixed(9, 25) };
    let tree = Widget::flow(
        Direction::Right,
        vec![leaf("ab"), Widget::leaf_in(red(), "xyz", Face::Mono), leaf("c")],
    );
    let l = compute(&tree, &fonts, 10, 10).unwrap();
    assert_eq!(l.root.rect, Rect::new(0, 0, 14 + 27 + 7, 25));
}

#[test]
fn vertical_container_sums_heights_and_takes_max_width() {
    let fonts = FontFaces { regular: FaceMetrics::fixed(7, 10), mono: FaceMetrics::fixed(9, 25) };
    let tree = Widget::flow(
        Direction::Up,
        vec![leaf("ab"), Widget::leaf_in(red(), "xyz", Face::Mono), leaf("c")],
    );
    let l = compute(&tree, &fonts, 10, 10).unwrap();
    assert_eq!(l.root.rect, Rect::new(0, 0, 27, 10 + 25 + 10));
}

#[test]
fn empty_container_has_zero_size() {
    let fonts = fixed_fonts(6, 12);
    for dir in [Direction::Up, Direction::Down, Direction::Left, Direction::Right] {
        let tree = Widget::flow(dir, Vec::new());
        let l = compute(&tree, &fonts, 800, 600).unwrap();
        assert_eq!(l.root.rect, Rect::new(0, 0, 0, 0));
        assert!(l.root.children.is_empty());
    }
}

#[test]
fn empty_label_has_zero_width() {
    let fonts = fixed_fonts(6, 12);
    let l = compute(&leaf(""), &fonts, 800, 600).unwrap();
    assert_eq!(l.root.rect, Rect::new(0, 0, 0, 12));
}

#[test]
fn layout_twice_gives_identical_rectangles() {
    let fonts = fixed_fonts(6, 12);
    let tree = Widget::flow(
        Direction::Down,
        vec![leaf("hello"), Widget::flow(Direction::Left, vec![leaf("x"), leaf("yy")])],
    );
    let a = compute(&tree, &fonts, 800, 600).unwrap();
    let b = compute(&tree, &fonts, 800, 600).unwrap();
    assert!(rects_equal(&a.root, &b.root));
    assert_eq!((a.viewport_w, a.viewport_h), (b.viewport_w, b.viewport_h));
}

#[test]
fn resize_keeps_content_rectangles() {
    let fonts = fixed_fonts(6, 12);
    let tree = Widget::flow(
        Direction::Up,
        vec![leaf("hello"), Widget::flow(Direction::Right, vec![leaf("x"), leaf("yy")])],
    );
    let a = compute(&tree, &fonts, 800, 600).unwrap();
    let b = compute(&tree, &fonts, 40, 30).unwrap();
    assert!(rects_equal(&a.root, &b.root));
    assert_eq!((a.viewport_w, a.viewport_h), (800, 600));
    assert_eq!((b.viewport_w, b.viewport_h), (40, 30));
}

#[test]
fn demo_scene_with_fixed_metrics() {
    let fonts = fixed_fonts(6, 12);
    let tree = Widget::flow(
        Direction::Up,
        vec![
            leaf("a"),
            Widget::flow(Direction::Right, vec![leaf("b"), leaf("c"), leaf("d")]),
            Widget::flow(Direction::Left, vec![leaf("e"), leaf("f")]),
        ],
    );
    let l = compute(&tree, &fonts, 800, 600).unwrap();
    let root = &l.root;
    assert_eq!(root.rect, Rect::new(0, 0, 18, 36));
    assert_eq!(root.children[0].rect, Rect::new(0, 24, 6, 12));
    let right = &root.children[1];
    assert_eq!(right.rect, Rect::new(0, 12, 18, 12));
    assert_eq!(right.children[0].rect, Rect::new(0, 12, 6, 12));
    assert_eq!(right.children[1].rect, Rect::new(6, 12, 6, 12));
    assert_eq!(right.children[2].rect, Rect::new(12, 12, 6, 12));
    let left = &root.children[2];
    assert_eq!(left.rect, Rect::new(0, 0, 12, 12));
    assert_eq!(left.children[0].rect, Rect::new(6, 0, 6, 12));
    assert_eq!(left.children[1].rect, Rect::new(0, 0, 6, 12));
}

#[test]
fn nested_container_is_offset_by_its_origin() {
    let fonts = fixed_fonts(5, 8);
    let tree = Widget::flow(Direction::Left, vec![leaf("abc"), leaf("de")]);
    let p = place(&tree, &fonts, 100, 40).unwrap();
    assert_eq!(p.rect, Rect::new(100, 40, 25, 8));
    assert_eq!(p.children[0].rect, Rect::new(110, 40, 15, 8));
    assert_eq!(p.children[1].rect, Rect::new(100, 40, 10, 8));
}

#[test]
fn per_glyph_advances_are_summed() {
    let mut face = FaceMetrics::fixed(4, 10);
    face.advances = vec![('i', 2), ('m', 9), ('i', 100)];
    assert_eq!(face.advance('i'), 2);
    assert_eq!(face.advance('m'), 9);
    assert_eq!(face.advance('q'), 4);
    assert_eq!(face.text_width("mini"), Some(9 + 2 + 4 + 2));
    let fonts = FontFaces { regular: face.clone(), mono: face };
    let l = compute(&leaf("mini"), &fonts, 10, 10).unwrap();
    assert_eq!(l.root.rect, Rect::new(0, 0, 17, 10));
}

#[test]
fn oversized_content_is_refused() {
    let face = FaceMetrics::fixed(u64::MAX / 2 + 1, 12);
    assert_eq!(face.text_width("a"), Some(u64::MAX / 2 + 1));
    assert_eq!(face.text_width("aa"), None);
    let fonts = FontFaces { regular: face.clone(), mono: face };
    assert!(compute(&leaf("aa"), &fonts, 10, 10).is_none());
    let tree = Widget::flow(Direction::Right, vec![leaf("a"), leaf("a")]);
    assert!(compute(&tree, &fonts, 10, 10).is_none());
    let tree = Widget::flow(Direction::Down, vec![leaf("a"), leaf("a")]);
    assert!(compute(&tree, &fonts, 10, 10).is_some());
    let tall = fixed_fonts(1, u64::MAX);
    assert!(compute(&leaf("a"), &tall, 10, 10).is_some());
    let tree = Widget::flow(Direction::Up, vec![leaf("a"), leaf("a")]);
    assert!(compute(&tree, &tall, 10, 10).is_none());
}

#[test]
fn repeated_layout_of_a_small_scene() {
    let fonts = fixed_fonts(6, 12);
    let tree = Widget::flow(
        Direction::Down,
        vec![leaf("a"), Widget::flow(Direction::Right, vec![leaf("b"), leaf("c")])],
    );
    let first = compute(&tree, &fonts, 800, 600).unwrap();
    for _ in 0..100 {
        let again = compute(&tree, &fonts, 800, 600).unwrap();
        assert!(rects_equal(&first.root, &again.root));
    }
    assert_eq!(first.root.rect, Rect::new(0, 0, 12, 24));
    assert_eq!(first.root.children[1].children[1].rect, Rect::new(6, 12, 6, 12));
}
