use screenshot_tool::annotation::{AnnotationElement, Point, SelectionAnnotation, Stroke};

fn p(x: i32, y: i32) -> Point {
    Point { x, y }
}

fn drag(store: &mut AnnotationElement, tool: SelectionAnnotation, points: &[(i32, i32)]) {
    for (x, y) in points {
        store.pointer_update(tool, Some(p(*x, *y)));
    }
    store.pointer_update(tool, None);
}

fn count(store: &AnnotationElement, tool: SelectionAnnotation) -> usize {
    store.undo_log().iter().filter(|t| **t == tool).count()
}

#[test]
fn first_frame_opens_placeholder() {
    let mut store = AnnotationElement::new();
    store.pointer_update(SelectionAnnotation::Line, None);
    let line = store.strokes(SelectionAnnotation::Line).unwrap();
    assert_eq!(line.len(), 1);
    assert!(line[0].is_empty());
    assert!(store.undo_log().is_empty());
}

#[test]
fn repeated_sample_is_not_recorded() {
    let mut store = AnnotationElement::new();
    store.pointer_update(SelectionAnnotation::Pen, Some(p(1, 1)));
    store.pointer_update(SelectionAnnotation::Pen, Some(p(1, 1)));
    store.pointer_update(SelectionAnnotation::Pen, Some(p(2, 1)));
    let pen = store.strokes(SelectionAnnotation::Pen).unwrap();
    assert_eq!(pen[0].len(), 2);
    let thick = Stroke { width: 300, color: 0xff0000ff };
    store.set_stroke(thick);
    store.pointer_update(SelectionAnnotation::Pen, Some(p(2, 1)));
    let pen = store.strokes(SelectionAnnotation::Pen).unwrap();
    assert_eq!(pen[0].len(), 3);
    assert_eq!(pen[0][2], (p(2, 1), thick));
}

#[test]
fn release_seals_stroke_and_logs_tool() {
    let mut store = AnnotationElement::new();
    drag(&mut store, SelectionAnnotation::Rect, &[(0, 0), (5, 5)]);
    let rect = store.strokes(SelectionAnnotation::Rect).unwrap();
    assert_eq!(rect.len(), 2);
    assert_eq!(rect[0].len(), 2);
    assert!(rect[1].is_empty());
    assert_eq!(store.undo_log(), &vec![SelectionAnnotation::Rect]);
    store.pointer_update(SelectionAnnotation::Rect, None);
    assert_eq!(store.undo_log().len(), 1);
}

#[test]
fn sealed_strokes_match_log_per_tool() {
    let mut store = AnnotationElement::new();
    drag(&mut store, SelectionAnnotation::Pen, &[(0, 0), (1, 1)]);
    drag(&mut store, SelectionAnnotation::Arrow, &[(0, 0), (3, 0)]);
    drag(&mut store, SelectionAnnotation::Pen, &[(4, 4), (5, 5), (6, 6)]);
    drag(&mut store, SelectionAnnotation::Circle, &[(9, 9)]);
    store.pointer_update(SelectionAnnotation::Line, Some(p(7, 7)));
    for tool in [
        SelectionAnnotation::Pen,
        SelectionAnnotation::Rect,
        SelectionAnnotation::Arrow,
        SelectionAnnotation::Line,
        SelectionAnnotation::Circle,
    ] {
        let strokes = store.strokes(tool).unwrap();
        let sealed = if strokes.is_empty() { 0 } else { strokes.len() - 1 };
        assert_eq!(sealed, count(&store, tool));
    }
    assert_eq!(count(&store, SelectionAnnotation::Pen), 2);
    assert_eq!(count(&store, SelectionAnnotation::Circle), 1);
    assert_eq!(count(&store, SelectionAnnotation::Line), 0);
}

#[test]
fn undo_removes_last_sealed_stroke_and_keeps_the_one_in_progress() {
    let mut store = AnnotationElement::new();
    drag(&mut store, SelectionAnnotation::Pen, &[(0, 0), (1, 1)]);
    drag(&mut store, SelectionAnnotation::Pen, &[(2, 2), (3, 3)]);
    store.pointer_update(SelectionAnnotation::Pen, Some(p(8, 8)));
    store.undo();
    let pen = store.strokes(SelectionAnnotation::Pen).unwrap();
    assert_eq!(pen.len(), 2);
    assert_eq!(pen[0][0].0, p(0, 0));
    assert_eq!(pen[1].len(), 1);
    assert_eq!(pen[1][0].0, p(8, 8));
}

#[test]
fn n_strokes_then_n_undos_returns_to_placeholders() {
    let mut store = AnnotationElement::new();
    drag(&mut store, SelectionAnnotation::Pen, &[(0, 0), (1, 1)]);
    drag(&mut store, SelectionAnnotation::Line, &[(0, 0), (4, 1)]);
    drag(&mut store, SelectionAnnotation::Pen, &[(2, 0), (1, 3)]);
    drag(&mut store, SelectionAnnotation::Circle, &[(5, 5), (6, 6)]);
    for _ in 0..4 {
        store.undo();
    }
    assert!(store.undo_log().is_empty());
    for tool in [SelectionAnnotation::Pen, SelectionAnnotation::Line, SelectionAnnotation::Circle] {
        let strokes = store.strokes(tool).unwrap();
        assert_eq!(strokes.len(), 1);
        assert!(strokes[0].is_empty());
    }
    assert!(store.strokes(SelectionAnnotation::Rect).unwrap().is_empty());
    store.undo();
    assert!(store.undo_log().is_empty());
}

#[test]
fn text_commit_and_undo() {
    let mut store = AnnotationElement::new();
    assert_eq!(store.staged_text(), "Edit this text");
    assert!(!store.commit_text(p(1, 1)));
    store.set_staged_text("hello".to_string());
    store.request_text_commit();
    assert!(store.commit_text(p(10, 20)));
    assert_eq!(store.texts().len(), 1);
    assert_eq!(store.texts()[0].0, p(10, 20));
    assert_eq!(store.texts()[0].1, "hello");
    assert_eq!(store.staged_text(), "Edit this text");
    assert_eq!(store.undo_log(), &vec![SelectionAnnotation::Text]);
    assert!(!store.commit_text(p(1, 1)));
    store.undo();
    assert!(store.texts().is_empty());
    assert!(store.undo_log().is_empty());
}

#[test]
fn clear_drops_marks_and_log() {
    let mut store = AnnotationElement::new();
    drag(&mut store, SelectionAnnotation::Arrow, &[(0, 0), (1, 0)]);
    store.request_text_commit();
    store.commit_text(p(0, 0));
    store.clear();
    assert!(store.undo_log().is_empty());
    assert!(store.texts().is_empty());
    assert!(store.strokes(SelectionAnnotation::Arrow).unwrap().is_empty());
    assert!(store.strokes(SelectionAnnotation::Crop).is_none());
}

#[test]
fn non_stroke_tools_ignore_pointer() {
    let mut store = AnnotationElement::new();
    store.pointer_update(SelectionAnnotation::Text, Some(p(1, 1)));
    store.pointer_update(SelectionAnnotation::NotSelected, None);
    assert!(store.undo_log().is_empty());
    assert_eq!(store.stroke(), Stroke { width: 100, color: 0x000000ff });
}
