use structype_derive::{
    describe, structmap, Annotation, DescribeError, Description, Literal, Member, Nested, Schema,
    Shape, TypeDef,
};

fn pair(k: &str, v: &str) -> Nested {
    Nested::NameValue(Some(k.to_string()), Literal::Str(v.to_string()))
}

fn member(name: &str, annotations: Vec<Annotation>) -> Member {
    Member { name: name.to_string(), annotations }
}

fn named(name: &str, members: Vec<Member>) -> TypeDef {
    TypeDef { name: name.to_string(), annotations: vec![], shape: Shape::Named(members) }
}

fn user_struct() -> TypeDef {
    named(
        "UserStruct",
        vec![
            member(
                "id",
                vec![Annotation::List(vec![pair("override_name", "Primary ID"), pair("order", "1")])],
            ),
            member(
                "username",
                vec![Annotation::List(vec![pair("override_name", "name"), pair("order", "0")])],
            ),
            member("org", vec![]),
        ],
    )
}

fn label(s: &str) -> Annotation {
    Annotation::NameValue(Literal::Str(s.to_string()))
}

#[test]
fn structured_list_example() {
    assert_eq!(
        structmap(&user_struct(), Schema::StructuredList),
        Ok([
            r#"[{"field_name":"id","meta":{"override_name":"Primary ID","order":"1"}},"#,
            r#"{"field_name":"username","meta":{"override_name":"name","order":"0"}},"#,
            r#"{"field_name":"org","meta":{}}]"#
        ]
        .concat())
    );
}

#[test]
fn metadata_list_example() {
    assert_eq!(
        structmap(&user_struct(), Schema::MetadataList),
        Ok([
            r#"[{"id":{"override_name":"Primary ID","order":"1"}},"#,
            r#"{"username":{"override_name":"name","order":"0"}},"#,
            r#"{"org":{}}]"#
        ]
        .concat())
    );
}

#[test]
fn unannotated_members_each_schema() {
    let t = named("Details", vec![member("a", vec![]), member("b", vec![]), member("c", vec![])]);
    assert_eq!(structmap(&t, Schema::FlatMap), Ok(r#"{"a":"a","b":"b","c":"c"}"#.to_string()));
    assert_eq!(structmap(&t, Schema::MetadataList), Ok(r#"[{"a":{}},{"b":{}},{"c":{}}]"#.to_string()));
    assert_eq!(
        structmap(&t, Schema::StructuredList),
        Ok([
            r#"[{"field_name":"a","meta":{}},{"field_name":"b","meta":{}},"#,
            r#"{"field_name":"c","meta":{}}]"#
        ]
        .concat())
    );
    match describe(&t, Schema::StructuredList) {
        Ok(Description::StructuredList(rs)) => {
            assert_eq!(rs.len(), 3);
            assert_eq!(rs[1].field_name, "b");
            assert!(rs[1].meta.is_empty());
        }
        other => panic!("unexpected {:?}", other),
    }
}

#[test]
fn no_members() {
    let t = named("Empty", vec![]);
    assert_eq!(structmap(&t, Schema::FlatMap), Ok("{}".to_string()));
    assert_eq!(structmap(&t, Schema::StructuredList), Ok("[]".to_string()));
}

#[test]
fn flat_override_replaces_name() {
    let t = named("Labelled", vec![member("id", vec![label("Primary ID")]), member("org", vec![])]);
    assert_eq!(structmap(&t, Schema::FlatMap), Ok(r#"{"id":"Primary ID","org":"org"}"#.to_string()));
}

#[test]
fn flat_several_annotations_fall_back_to_name() {
    let t = named("Twice", vec![member("id", vec![label("x"), label("y")])]);
    assert_eq!(structmap(&t, Schema::FlatMap), Ok(r#"{"id":"id"}"#.to_string()));
}

#[test]
fn flat_later_member_overrides_same_name() {
    let t = named("Dup", vec![member("a", vec![label("one")]), member("b", vec![]), member("a", vec![label("two")])]);
    assert_eq!(structmap(&t, Schema::FlatMap), Ok(r#"{"a":"two","b":"b"}"#.to_string()));
}

#[test]
fn list_duplicates_kept_as_entries() {
    let t = named("Dup", vec![member("a", vec![]), member("a", vec![])]);
    assert_eq!(structmap(&t, Schema::MetadataList), Ok(r#"[{"a":{}},{"a":{}}]"#.to_string()));
}

#[test]
fn list_pairs_kept_as_written() {
    let t = named(
        "Pairs",
        vec![member("x", vec![Annotation::List(vec![pair("z", "10"), pair("a", "true"), pair("m", "")])])],
    );
    assert_eq!(
        structmap(&t, Schema::StructuredList),
        Ok(r#"[{"field_name":"x","meta":{"z":"10","a":"true","m":""}}]"#.to_string())
    );
}

#[test]
fn list_repeated_key_takes_later_value() {
    let t = named(
        "Repeat",
        vec![member(
            "x",
            vec![
                Annotation::List(vec![pair("k", "1"), pair("j", "2")]),
                Annotation::List(vec![pair("k", "3")]),
            ],
        )],
    );
    assert_eq!(
        structmap(&t, Schema::StructuredList),
        Ok(r#"[{"field_name":"x","meta":{"k":"3","j":"2"}}]"#.to_string())
    );
}

#[test]
fn strings_are_escaped() {
    let t = named("Esc", vec![member("q\"b\\n\nt\tc\u{1}", vec![label("é/\u{1f}")])]);
    assert_eq!(
        structmap(&t, Schema::FlatMap),
        Ok("{\"q\\\"b\\\\n\\nt\\tc\\u0001\":\"é/\\u001f\"}".to_string())
    );
}

#[test]
fn tuple_and_unit_shapes_rejected() {
    for shape in [Shape::Tuple, Shape::Unit] {
        let t = TypeDef { name: "T".to_string(), annotations: vec![], shape };
        for schema in [Schema::FlatMap, Schema::MetadataList, Schema::StructuredList] {
            assert_eq!(structmap(&t, schema), Err(DescribeError::UnsupportedShape));
        }
    }
}

#[test]
fn type_level_annotation_rejected() {
    let mut t = user_struct();
    t.annotations.push(Annotation::List(vec![pair("label", "name")]));
    for schema in [Schema::FlatMap, Schema::MetadataList, Schema::StructuredList] {
        assert_eq!(structmap(&t, schema), Err(DescribeError::MisplacedAnnotation));
    }
    let u = TypeDef { name: "U".to_string(), annotations: vec![label("x")], shape: Shape::Unit };
    assert_eq!(structmap(&u, Schema::StructuredList), Err(DescribeError::MisplacedAnnotation));
}

#[test]
fn malformed_entries_rejected() {
    let bad = [
        Nested::Path,
        Nested::List,
        Nested::Lit(Literal::Str("foo".to_string())),
        Nested::NameValue(Some("k".to_string()), Literal::Other),
        Nested::NameValue(None, Literal::Str("v".to_string())),
    ];
    for entry in bad {
        let t = named("Bad", vec![member("ok", vec![]), member("x", vec![Annotation::List(vec![pair("a", "b"), entry])])]);
        assert_eq!(structmap(&t, Schema::StructuredList), Err(DescribeError::MalformedValue));
        assert_eq!(structmap(&t, Schema::MetadataList), Err(DescribeError::MalformedValue));
    }
    let t = named("Bad", vec![member("x", vec![Annotation::NameValue(Literal::Other)])]);
    assert_eq!(structmap(&t, Schema::FlatMap), Err(DescribeError::MalformedValue));
}

#[test]
fn wrong_forms_rejected() {
    for a in [Annotation::Path, label("x")] {
        let t = named("Form", vec![member("x", vec![a])]);
        assert_eq!(structmap(&t, Schema::StructuredList), Err(DescribeError::UnsupportedForm));
    }
    for a in [Annotation::Path, Annotation::List(vec![pair("a", "b")])] {
        let t = named("Form", vec![member("x", vec![a])]);
        assert_eq!(structmap(&t, Schema::FlatMap), Err(DescribeError::UnsupportedForm));
    }
}

#[test]
fn first_faulty_member_decides() {
    let t = named(
        "Two",
        vec![
            member("a", vec![Annotation::Path]),
            member("b", vec![Annotation::List(vec![Nested::Path])]),
        ],
    );
    assert_eq!(structmap(&t, Schema::StructuredList), Err(DescribeError::UnsupportedForm));
    let t = named(
        "Two",
        vec![
            member("a", vec![Annotation::List(vec![Nested::Path])]),
            member("b", vec![Annotation::Path]),
        ],
    );
    assert_eq!(structmap(&t, Schema::StructuredList), Err(DescribeError::MalformedValue));
}
