use arexibo::text::text_eq;
use arexibo::xml::{parse_xml, FieldError};

#[test]
fn reads_attributes_children_and_text() {
    let n = parse_xml(br#"<a x="1" y="two"><b>hi</b><c/><b>again</b></a>"#).unwrap();
    assert_eq!(n.name, "a");
    assert_eq!(n.get_attr("x"), Some("1"));
    assert_eq!(n.get_attr("z"), None);
    assert_eq!(n.def_attr("z", "d"), "d");
    assert_eq!(n.find("b").unwrap().text(), "hi");
    assert!(n.find("d").is_none());
    assert_eq!(n.children.len(), 3);
    assert!(matches!(n.req_attr("z"), Err(FieldError::MissingAttribute("z"))));
    assert!(matches!(n.req_child("d"), Err(FieldError::MissingChild("d"))));
    assert_eq!(n.req_child("b").unwrap(), "hi");
    assert_eq!(n.parse_attr_i32("x").unwrap(), 1);
    assert!(matches!(n.parse_attr_i64("y"), Err(FieldError::InvalidAttribute("y"))));
}

#[test]
fn namespaced_elements_do_not_match_plain_tags() {
    let n = parse_xml(br#"<a xmlns:p="urn:p"><p:b/><b p:k="1" k="2"/></a>"#).unwrap();
    assert!(!n.children[0].has_tag("b"));
    assert!(n.children[1].has_tag("b"));
    assert_eq!(n.children[1].get_attr("k"), Some("2"));
}

#[test]
fn text_equality() {
    assert!(text_eq("abc", "abc"));
    assert!(!text_eq("abc", "abd"));
}
