use erm::ersflute_io::read_settings;
use erm::reader::{apply_event, resolve_reference, XmlEvent};
use erm::scalar::{parse_bool, parse_u16, parse_u8};
use erm::tree::TreeBuilder;
use erm::xml::{children_named, element_text, find_child, XmlElement, XmlNode};

#[test]
fn numbers_are_read_within_range() {
    assert_eq!(parse_u16("0"), Some(0));
    assert_eq!(parse_u16("65535"), Some(65535));
    assert_eq!(parse_u16("65536"), None);
    assert_eq!(parse_u16("+12"), Some(12));
    assert_eq!(parse_u16(""), None);
    assert_eq!(parse_u16("+"), None);
    assert_eq!(parse_u16("1a"), None);
    assert_eq!(parse_u16("-1"), None);
    assert_eq!(parse_u8("255"), Some(255));
    assert_eq!(parse_u8("256"), None);
    assert_eq!(parse_u8("007"), Some(7));
}

#[test]
fn flags_are_read() {
    assert_eq!(parse_bool(&"true".to_string()), Some(true));
    assert_eq!(parse_bool(&"1".to_string()), Some(true));
    assert_eq!(parse_bool(&"false".to_string()), Some(false));
    assert_eq!(parse_bool(&"0".to_string()), Some(false));
    assert_eq!(parse_bool(&"TRUE".to_string()), None);
}

#[test]
fn references_resolve() {
    assert_eq!(resolve_reference(&"amp".to_string()), Some("&".to_string()));
    assert_eq!(resolve_reference(&"quot".to_string()), Some("\"".to_string()));
    assert_eq!(resolve_reference(&"#65".to_string()), Some("A".to_string()));
    assert_eq!(resolve_reference(&"#x3042".to_string()), Some("\u{3042}".to_string()));
    assert_eq!(resolve_reference(&"nbsp".to_string()), None);
    assert_eq!(resolve_reference(&"#x4A".to_string()), Some("J".to_string()));
    assert_eq!(resolve_reference(&"#0".to_string()), None);
    assert_eq!(resolve_reference(&"#xD800".to_string()), None);
    assert_eq!(resolve_reference(&"#+65".to_string()), None);
    assert_eq!(resolve_reference(&"#X41".to_string()), None);
    assert_eq!(resolve_reference(&"#".to_string()), None);
}

fn leaf(name: &str, text: &str) -> XmlNode {
    XmlNode::Element(XmlElement {
        name: name.to_string(),
        children: vec![XmlNode::Text(text.to_string())],
    })
}

#[test]
fn lookups_take_the_first_match_and_join_text() {
    let e = XmlElement {
        name: "t".to_string(),
        children: vec![
            leaf("a", "1"),
            XmlNode::Text("x".to_string()),
            leaf("b", "2"),
            leaf("a", "3"),
            XmlNode::Text("y".to_string()),
        ],
    };
    assert_eq!(element_text(find_child(&e, "a").unwrap()), "1");
    assert!(find_child(&e, "c").is_none());
    let all: Vec<String> = children_named(&e, "a").iter().map(|c| element_text(c)).collect();
    assert_eq!(all, vec!["1".to_string(), "3".to_string()]);
    assert_eq!(element_text(&e), "xy");
}

#[test]
fn builder_nests_elements() {
    let mut b = TreeBuilder::new();
    assert_eq!(apply_event(&mut b, XmlEvent::Skip), Ok(false));
    assert_eq!(apply_event(&mut b, XmlEvent::Open("r".to_string())), Ok(false));
    assert_eq!(apply_event(&mut b, XmlEvent::Text("hi".to_string())), Ok(false));
    assert_eq!(apply_event(&mut b, XmlEvent::Empty("e".to_string())), Ok(false));
    assert_eq!(apply_event(&mut b, XmlEvent::Reference("lt".to_string())), Ok(false));
    assert_eq!(apply_event(&mut b, XmlEvent::Close("r".to_string())), Ok(false));
    assert_eq!(apply_event(&mut b, XmlEvent::End), Ok(true));
    let root = b.finish().unwrap();
    assert_eq!(
        root,
        XmlElement {
            name: "r".to_string(),
            children: vec![
                XmlNode::Text("hi".to_string()),
                XmlNode::Element(XmlElement { name: "e".to_string(), children: vec![] }),
                XmlNode::Text("<".to_string()),
            ],
        }
    );
}

#[test]
fn builder_rejects_bad_nesting() {
    let mut b = TreeBuilder::new();
    assert!(b.close_element(&"a".to_string()).is_err());
    b.open_element("a".to_string()).unwrap();
    assert!(b.close_element(&"b".to_string()).is_err());
    b.close_element(&"a".to_string()).unwrap();
    assert!(b.open_element("c".to_string()).is_err());
    let mut unfinished = TreeBuilder::new();
    unfinished.open_element("a".to_string()).unwrap();
    assert!(unfinished.finish().is_err());
}

#[test]
fn settings_are_read_from_a_tree() {
    let root = XmlElement {
        name: "diagram".to_string(),
        children: vec![XmlNode::Element(XmlElement {
            name: "diagram_settings".to_string(),
            children: vec![leaf("database", "PostgreSQL")],
        })],
    };
    assert_eq!(read_settings(&root).unwrap().diagram_settings.database, "PostgreSQL");
}
