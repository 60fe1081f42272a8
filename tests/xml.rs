use simple_soap::xml::{Document, Element};

#[test]
fn element_renders_attributes_and_children() {
    let e = Element::new_node(
        "a",
        vec![("x", "1"), ("y", "q\"")],
        vec![Element::new_text("t&"), Element::new_node("b", vec![], vec![])],
    );
    assert_eq!(e.to_string(), r#"<a x="1" y="q&quot;">t&amp;<b/></a>"#);
}

#[test]
fn element_without_children_is_self_closing() {
    assert_eq!(Element::new_node("empty", vec![], vec![]).to_string(), "<empty/>");
    assert_eq!(Element::new_text("plain").to_string(), "plain");
    assert_eq!(Element::new_text("<>").to_string(), "&lt;&gt;");
}

#[test]
fn document_declares_encoding() {
    let mut doc = Document::new("UTF-8");
    assert_eq!(doc.to_string(), r#"<?xml version="1.0" encoding="UTF-8"?><xml/>"#);
    doc.set_root(Element::new_node("r", vec![], vec![]));
    assert_eq!(doc.get_root().to_string(), "<r/>");
    *doc.get_mut_root() = Element::new_text("x");
    assert_eq!(doc.to_string(), r#"<?xml version="1.0" encoding="UTF-8"?>x"#);
}
