use std::collections::HashMap;

use structype_derive::{structmap, Annotation, Literal, Member, Nested, Schema, Shape, TypeDef};

fn sample() -> TypeDef {
    let pair = |k: &str, v: &str| Nested::NameValue(Some(k.to_string()), Literal::Str(v.to_string()));
    TypeDef {
        name: "Sample".to_string(),
        annotations: vec![],
        shape: Shape::Named(vec![
            Member {
                name: "id".to_string(),
                annotations: vec![Annotation::List(vec![pair("override_name", "Primary \"ID\""), pair("order", "1")])],
            },
            Member { name: "org\\unit".to_string(), annotations: vec![] },
            Member {
                name: "note".to_string(),
                annotations: vec![Annotation::List(vec![pair("text", "line\nbreak\u{7}")])],
            },
        ]),
    }
}

#[test]
fn structured_text_reads_back_as_typemaps() {
    let text = structmap(&sample(), Schema::StructuredList).unwrap();
    let back: structype::TypeMapVec = serde_json::from_str(&text).unwrap();
    let names: Vec<&str> = back.iter().map(|r| r.field_name.as_str()).collect();
    assert_eq!(names, vec!["id", "org\\unit", "note"]);
    let mut id_meta = HashMap::new();
    id_meta.insert("override_name".to_string(), "Primary \"ID\"".to_string());
    id_meta.insert("order".to_string(), "1".to_string());
    assert_eq!(back[0].meta, id_meta);
    assert!(back[1].meta.is_empty());
    assert_eq!(back[2].meta.get("text").map(String::as_str), Some("line\nbreak\u{7}"));
}

#[test]
fn metadata_text_reads_back_in_order() {
    let text = structmap(&sample(), Schema::MetadataList).unwrap();
    let back: serde_json::Value = serde_json::from_str(&text).unwrap();
    let items = back.as_array().unwrap();
    assert_eq!(items.len(), 3);
    let first = items[0].as_object().unwrap();
    let meta = first.get("id").unwrap().as_object().unwrap();
    let keys: Vec<&String> = meta.keys().collect();
    assert_eq!(keys, vec!["override_name", "order"]);
    assert_eq!(meta.get("override_name").unwrap().as_str(), Some("Primary \"ID\""));
    assert!(items[1].get("org\\unit").unwrap().as_object().unwrap().is_empty());
    assert_eq!(items[2]["note"]["text"].as_str(), Some("line\nbreak\u{7}"));
}

#[test]
fn flat_text_reads_back_as_map() {
    let mut t = sample();
    if let Shape::Named(ms) = &mut t.shape {
        ms[0].annotations = vec![Annotation::NameValue(Literal::Str("Primary \"ID\"".to_string()))];
        ms[2].annotations = vec![];
    }
    let text = structmap(&t, Schema::FlatMap).unwrap();
    let back: HashMap<String, String> = serde_json::from_str(&text).unwrap();
    let mut expected = HashMap::new();
    expected.insert("id".to_string(), "Primary \"ID\"".to_string());
    expected.insert("org\\unit".to_string(), "org\\unit".to_string());
    expected.insert("note".to_string(), "note".to_string());
    assert_eq!(back, expected);
}
