use ledge_engine::graphics::document::{DocumentContext, DocumentNode};
use ledge_engine::input::mouse::{pressed_button, MouseButton};

#[test]
fn document_starts_with_a_root() {
    let d: DocumentContext<&str> = DocumentContext::new("div");
    assert_eq!(d.root, 0);
    let root = d.select("root");
    assert_eq!(root.id(), "root");
    assert_eq!(root.inner, "div");
    assert!(root.descendants().is_empty());
}

#[test]
fn document_insert_links_child_under_parent() {
    let mut d: DocumentContext<u32> = DocumentContext::new(0);
    d.insert("root", "title", 1);
    d.insert("title", "word", 2);
    d.insert("root", "footer", 3);
    assert_eq!(d.select("root").descendants(), &vec![1, 3]);
    assert_eq!(d.select("title").descendants(), &vec![2]);
    assert_eq!(d.select("word").inner, 2);
    assert_eq!(d.select("footer").inner, 3);
}

#[test]
fn document_insert_rebinds_an_id() {
    let mut d: DocumentContext<u32> = DocumentContext::new(0);
    d.insert("root", "a", 1);
    d.insert("root", "a", 2);
    assert_eq!(d.select("a").inner, 2);
    assert_eq!(d.select("root").descendants(), &vec![1, 2]);
}

#[test]
fn document_insert_under_itself() {
    let mut d: DocumentContext<u32> = DocumentContext::new(0);
    d.insert("loop", "loop", 7);
    assert_eq!(d.select("loop").descendants(), &vec![1]);
    assert!(d.select("root").descendants().is_empty());
}

#[test]
fn document_select_mut_changes_the_element() {
    let mut d: DocumentContext<u32> = DocumentContext::new(0);
    d.insert("root", "a", 1);
    d.select_mut("a").inner = 9;
    assert_eq!(d.select("a").inner, 9);
    let mut n = DocumentNode::new("x", 5u8);
    n.descendants_mut().push(4);
    assert_eq!(n.descendants(), &vec![4]);
    assert_eq!(n.id(), "x");
}

#[test]
fn mouse_button_held_after_a_change() {
    assert_eq!(pressed_button(MouseButton::Left, true), Some(MouseButton::Left));
    assert_eq!(pressed_button(MouseButton::Misc(4), false), None);
}
