use sqlingest::error::IngestError;
use sqlingest::value::Value;
use sqlingest::xml::{entity, records_from_xml, records_from_xml_events, XmlEvent};

fn text(s: &str) -> Value {
    Value::Text(s.to_string())
}

#[test]
fn xml_elements_become_records() {
    let rs = records_from_xml("<rows><row><a>1</a><b>x</b></row><row><a>2</a></row></rows>").unwrap();
    assert_eq!(rs.len(), 2);
    assert_eq!(rs[0].get(&"a".to_string()), Some(&text("1")));
    assert_eq!(rs[0].get(&"b".to_string()), Some(&text("x")));
    assert_eq!(rs[1].len(), 1);
    assert_eq!(rs[1].get(&"a".to_string()), Some(&text("2")));
}

#[test]
fn xml_repeated_field_is_refused() {
    let r = records_from_xml("<rows><row><a>1</a><a>2</a></row></rows>");
    assert_eq!(r.err(), Some(IngestError::DecodeError));
}

#[test]
fn xml_that_does_not_read() {
    assert_eq!(records_from_xml("<rows><row></rows>").err(), Some(IngestError::DecodeError));
}

#[test]
fn xml_empty_root() {
    assert!(records_from_xml("<rows></rows>").unwrap().is_empty());
}

#[test]
fn xml_events_fold() {
    let evs = vec![
        XmlEvent::Start("r".to_string()),
        XmlEvent::Start("row".to_string()),
        XmlEvent::Start("k".to_string()),
        XmlEvent::Text("ab".to_string()),
        XmlEvent::Text("c".to_string()),
        XmlEvent::End,
        XmlEvent::End,
        XmlEvent::End,
    ];
    let rs = records_from_xml_events(&evs).unwrap();
    assert_eq!(rs.len(), 1);
    assert_eq!(rs[0].get(&"k".to_string()), Some(&text("abc")));
    assert!(records_from_xml_events(&Vec::new()).unwrap().is_empty());
}

#[test]
fn xml_comments_and_declarations_are_ignored_and_empty_elements_kept() {
    let rs = records_from_xml("<?xml version=\"1.0\"?><rows><!-- c --><row><a>1</a><e/></row></rows>").unwrap();
    assert_eq!(rs.len(), 1);
    assert_eq!(rs[0].len(), 2);
    assert_eq!(rs[0].get(&"a".to_string()), Some(&text("1")));
    assert_eq!(rs[0].get(&"e".to_string()), Some(&text("")));
    let evs = vec![XmlEvent::Other, XmlEvent::Start("r".to_string()), XmlEvent::End];
    assert!(records_from_xml_events(&evs).unwrap().is_empty());
}

#[test]
fn xml_references_cdata_and_empty_elements() {
    let rs = records_from_xml(
        "<rows><row><a>x&amp;y&lt;</a><b><![CDATA[<z>]]></b><c/></row><row/></rows>",
    )
    .unwrap();
    assert_eq!(rs.len(), 2);
    assert_eq!(rs[0].get(&"a".to_string()), Some(&text("x&y<")));
    assert_eq!(rs[0].get(&"b".to_string()), Some(&text("<z>")));
    assert_eq!(rs[0].get(&"c".to_string()), Some(&text("")));
    assert_eq!(rs[1].len(), 0);
}

#[test]
fn xml_without_rows() {
    assert!(records_from_xml("<root/>").unwrap().is_empty());
}

#[test]
fn entity_names() {
    assert_eq!(entity(&"amp".to_string()), "&");
    assert_eq!(entity(&"lt".to_string()), "<");
    assert_eq!(entity(&"gt".to_string()), ">");
    assert_eq!(entity(&"quot".to_string()), "\"");
    assert_eq!(entity(&"apos".to_string()), "'");
    assert_eq!(entity(&"#38".to_string()), "&#38;");
}
