//! Validation of annotations and construction of descriptions.
use vstd::prelude::*;

use crate::model::{Annotation, DescribeError, Literal, Member, Nested, Schema, Shape, TypeDef};

verus! {

/// A key/value entry, as contracts see it.
pub type EntryView = (Seq<char>, Seq<char>);

/// A member's record in the list schemas: its name and its metadata entries.
pub type RecordView = (Seq<char>, Seq<EntryView>);

/// A built description, as contracts see it.
pub enum DescriptionView {
    FlatMap(Seq<EntryView>),
    MetadataList(Seq<RecordView>),
    StructuredList(Seq<RecordView>),
}

/// A member's entry in a list-schema description.
#[derive(Debug)]
pub struct FieldRecord {
    pub field_name: String,
    /// Metadata entries in order of first appearance, keys unique.
    pub meta: Vec<(String, String)>,
}

impl View for FieldRecord {
    type V = RecordView;

    open spec fn view(&self) -> RecordView {
        (self.field_name@, entries_view(self.meta@))
    }
}

/// The description of a type, in one of the three schemas.
#[derive(Debug)]
pub enum Description {
    /// Member name to label, in order of first appearance, names unique.
    FlatMap(Vec<(String, String)>),
    /// One record per member, in declaration order.
    MetadataList(Vec<FieldRecord>),
    /// One record per member, in declaration order.
    StructuredList(Vec<FieldRecord>),
}

impl View for Description {
    type V = DescriptionView;

    open spec fn view(&self) -> DescriptionView {
        match self {
            Description::FlatMap(m) => DescriptionView::FlatMap(entries_view(m@)),
            Description::MetadataList(rs) => DescriptionView::MetadataList(records_view(rs@)),
            Description::StructuredList(rs) => DescriptionView::StructuredList(records_view(rs@)),
        }
    }
}

pub open spec fn entries_view(v: Seq<(String, String)>) -> Seq<EntryView> {
    v.map_values(|e: (String, String)| (e.0@, e.1@))
}

pub open spec fn records_view(v: Seq<FieldRecord>) -> Seq<RecordView> {
    v.map_values(|r: FieldRecord| r@)
}

pub open spec fn has_key(m: Seq<EntryView>, k: Seq<char>) -> bool {
    exists|i: int| 0 <= i < m.len() && #[trigger] m[i].0 == k
}

/// `m` with `k` set to `v`: an entry of that key keeps its place and takes the
/// new value; a new key goes at the end.
pub open spec fn insert_entry(m: Seq<EntryView>, k: Seq<char>, v: Seq<char>) -> Seq<EntryView> {
    if has_key(m, k) {
        m.map_values(|e: EntryView| set_if_key(e, k, v))
    } else {
        m.push((k, v))
    }
}

pub open spec fn set_if_key(e: EntryView, k: Seq<char>, v: Seq<char>) -> EntryView {
    if e.0 == k {
        (k, v)
    } else {
        e
    }
}

/// `m` with each entry of `es` inserted in turn.
pub open spec fn insert_all(m: Seq<EntryView>, es: Seq<EntryView>) -> Seq<EntryView>
    decreases es.len(),
{
    if es.len() == 0 {
        m
    } else {
        insert_entry(insert_all(m, es.drop_last()), es.last().0, es.last().1)
    }
}

/// The first error of a sequence of outcomes, if any.
pub open spec fn first_error(es: Seq<Option<DescribeError>>) -> Option<DescribeError>
    decreases es.len(),
{
    if es.len() == 0 {
        None
    } else {
        match first_error(es.drop_last()) {
            Some(e) => Some(e),
            None => es.last(),
        }
    }
}

/// A `key = "string"` entry with a single-identifier key.
pub open spec fn nested_is_pair(n: Nested) -> bool {
    match n {
        Nested::NameValue(Some(_), Literal::Str(_)) => true,
        _ => false,
    }
}

pub open spec fn nested_pair(n: Nested) -> EntryView {
    match n {
        Nested::NameValue(Some(k), Literal::Str(v)) => (k@, v@),
        _ => (Seq::empty(), Seq::empty()),
    }
}

/// What is wrong with an annotation under a list schema.
pub open spec fn list_annotation_error(a: Annotation) -> Option<DescribeError> {
    match a {
        Annotation::List(ns) => {
            if forall|i: int| 0 <= i < ns@.len() ==> nested_is_pair(#[trigger] ns@[i]) {
                None
            } else {
                Some(DescribeError::MalformedValue)
            }
        },
        _ => Some(DescribeError::UnsupportedForm),
    }
}

/// The key/value pairs of a list annotation, in written order.
pub open spec fn annotation_pairs(a: Annotation) -> Seq<EntryView> {
    match a {
        Annotation::List(ns) => ns@.map_values(|n: Nested| nested_pair(n)),
        _ => Seq::empty(),
    }
}

/// The metadata of a member under a list schema: the pairs of all its
/// annotations, a later pair overriding an earlier one of the same key.
pub open spec fn meta_of(anns: Seq<Annotation>) -> Seq<EntryView>
    decreases anns.len(),
{
    if anns.len() == 0 {
        Seq::empty()
    } else {
        insert_all(meta_of(anns.drop_last()), annotation_pairs(anns.last()))
    }
}

pub open spec fn list_member_error(m: Member) -> Option<DescribeError> {
    first_error(m.annotations@.map_values(|a: Annotation| list_annotation_error(a)))
}

/// What is wrong with a member's annotations under the flat schema. Only a
/// lone annotation is read; none, or more than one, leaves the default label.
pub open spec fn flat_member_error(m: Member) -> Option<DescribeError> {
    if m.annotations@.len() == 1 {
        match m.annotations@[0] {
            Annotation::NameValue(Literal::Str(_)) => None,
            Annotation::NameValue(Literal::Other) => Some(DescribeError::MalformedValue),
            _ => Some(DescribeError::UnsupportedForm),
        }
    } else {
        None
    }
}

/// A member's label under the flat schema: the lone string override, or its own name.
pub open spec fn flat_label(m: Member) -> Seq<char> {
    if m.annotations@.len() == 1 {
        match m.annotations@[0] {
            Annotation::NameValue(Literal::Str(s)) => s@,
            _ => m.name@,
        }
    } else {
        m.name@
    }
}

pub open spec fn member_error(m: Member, schema: Schema) -> Option<DescribeError> {
    if schema == Schema::FlatMap {
        flat_member_error(m)
    } else {
        list_member_error(m)
    }
}

pub open spec fn members_error(ms: Seq<Member>, schema: Schema) -> Option<DescribeError> {
    first_error(ms.map_values(|m: Member| member_error(m, schema)))
}

/// Why a type cannot be described: an annotation on the type itself first,
/// then a body without named members, then the first faulty member.
pub open spec fn type_error(t: TypeDef, schema: Schema) -> Option<DescribeError> {
    if t.annotations@.len() > 0 {
        Some(DescribeError::MisplacedAnnotation)
    } else {
        match t.shape {
            Shape::Named(ms) => members_error(ms@, schema),
            _ => Some(DescribeError::UnsupportedShape),
        }
    }
}

pub open spec fn member_record(m: Member) -> RecordView {
    (m.name@, meta_of(m.annotations@))
}

/// The flat map: each member's name to its label, a later member overriding
/// an earlier one of the same name.
pub open spec fn flat_of(ms: Seq<Member>) -> Seq<EntryView>
    decreases ms.len(),
{
    if ms.len() == 0 {
        Seq::empty()
    } else {
        insert_entry(flat_of(ms.drop_last()), ms.last().name@, flat_label(ms.last()))
    }
}

pub open spec fn description_of(ms: Seq<Member>, schema: Schema) -> DescriptionView {
    match schema {
        Schema::FlatMap => DescriptionView::FlatMap(flat_of(ms)),
        Schema::MetadataList => DescriptionView::MetadataList(
            ms.map_values(|m: Member| member_record(m)),
        ),
        Schema::StructuredList => DescriptionView::StructuredList(
            ms.map_values(|m: Member| member_record(m)),
        ),
    }
}

/// The members of a type with named members.
pub open spec fn members_of(t: TypeDef) -> Seq<Member> {
    match t.shape {
        Shape::Named(ms) => ms@,
        _ => Seq::empty(),
    }
}

pub proof fn lemma_first_error_prefix(es: Seq<Option<DescribeError>>, i: int)
    requires
        0 <= i <= es.len(),
        first_error(es.subrange(0, i)) is Some,
    ensures
        first_error(es) == first_error(es.subrange(0, i)),
    decreases es.len(),
{
    if i < es.len() {
        assert(es.drop_last().subrange(0, i) =~= es.subrange(0, i));
        lemma_first_error_prefix(es.drop_last(), i);
    } else {
        assert(es.subrange(0, i) =~= es);
    }
}

/// Sets `k` to `v` in `m`, keeping the place of an existing entry of that key.
pub fn insert_entry_exec(m: &mut Vec<(String, String)>, k: String, v: String)
    ensures
        entries_view(final(m)@) == insert_entry(entries_view(old(m)@), k@, v@),
{
    let ghost before = entries_view(m@);
    let mut found = false;
    let mut i: usize = 0;
    while i < m.len()
        invariant
            i <= m.len(),
            m@.len() == before.len(),
            before == entries_view(old(m)@),
            forall|j: int| 0 <= j < i ==> #[trigger] entries_view(m@)[j] == set_if_key(before[j], k@, v@),
            forall|j: int| i <= j < m.len() ==> #[trigger] entries_view(m@)[j] == before[j],
            found == exists|j: int| 0 <= j < i && #[trigger] before[j].0 == k@,
        decreases m.len() - i,
    {
        proof {
            assert(entries_view(m@)[i as int] == before[i as int]);
        }
        let ghost prev = m@;
        if m[i].0 == k {
            m.set(i, (k.clone(), v.clone()));
            proof {
                assert(before[i as int].0 == k@);
            }
            found = true;
        }
        proof {
            assert(entries_view(m@)[i as int] == set_if_key(before[i as int], k@, v@));
            assert forall|j: int| 0 <= j < m@.len() && j != i implies #[trigger] entries_view(m@)[j]
                == entries_view(prev)[j] by {
                assert(m@[j] == prev[j]);
            }
        }
        i += 1;
    }
    if found {
        proof {
            assert(has_key(before, k@));
            assert(entries_view(m@) =~= before.map_values(|e: EntryView| set_if_key(e, k@, v@)));
        }
    } else {
        proof {
            assert(!has_key(before, k@));
            assert forall|j: int| 0 <= j < before.len() implies #[trigger] entries_view(m@)[j]
                == before[j] by {
                assert(before[j].0 != k@);
            }
            assert(entries_view(m@) =~= before);
        }
        m.push((k, v));
        proof {
            assert(entries_view(m@) =~= before.push((k@, v@)));
        }
    }
}

/// Checks an annotation under a list schema.
pub fn check_list_annotation(a: &Annotation) -> (r: Option<DescribeError>)
    ensures
        r == list_annotation_error(*a),
{
    match a {
        Annotation::List(ns) => {
            let mut i: usize = 0;
            while i < ns.len()
                invariant
                    i <= ns@.len(),
                    *a == Annotation::List(*ns),
                    forall|j: int| 0 <= j < i ==> nested_is_pair(#[trigger] ns@[j]),
                decreases ns.len() - i,
            {
                match &ns[i] {
                    Nested::NameValue(Some(_), Literal::Str(_)) => {},
                    _ => {
                        proof {
                            assert(!nested_is_pair(ns@[i as int]));
                            assert(!(forall|j: int|
                                0 <= j < ns@.len() ==> nested_is_pair(#[trigger] ns@[j])));
                            assert(a->List_0 == *ns);
                            assert(list_annotation_error(*a) is Some);
                        }
                        return Some(DescribeError::MalformedValue);
                    },
                }
                i += 1;
            }
            proof {
                assert(list_annotation_error(*a) is None);
            }
            None
        },
        _ => Some(DescribeError::UnsupportedForm),
    }
}

/// Inserts the pairs of a well-formed list annotation into `meta`, in order.
pub fn insert_annotation_pairs(meta: &mut Vec<(String, String)>, a: &Annotation)
    requires
        list_annotation_error(*a) is None,
    ensures
        entries_view(final(meta)@) == insert_all(entries_view(old(meta)@), annotation_pairs(*a)),
{
    match a {
        Annotation::List(ns) => {
            let ghost pairs = annotation_pairs(*a);
            let mut i: usize = 0;
            while i < ns.len()
                invariant
                    i <= ns@.len(),
                    pairs == ns@.map_values(|n: Nested| nested_pair(n)),
                    forall|j: int| 0 <= j < ns@.len() ==> nested_is_pair(#[trigger] ns@[j]),
                    entries_view(meta@) == insert_all(
                        entries_view(old(meta)@),
                        pairs.subrange(0, i as int),
                    ),
                decreases ns.len() - i,
            {
                proof {
                    assert(nested_is_pair(ns@[i as int]));
                    assert(pairs.subrange(0, i + 1).drop_last() =~= pairs.subrange(0, i as int));
                }
                match &ns[i] {
                    Nested::NameValue(Some(k), Literal::Str(v)) => {
                        insert_entry_exec(meta, k.clone(), v.clone());
                    },
                    _ => {},
                }
                i += 1;
            }
            proof {
                assert(pairs.subrange(0, ns@.len() as int) =~= pairs);
            }
        },
        _ => {},
    }
}

/// Builds a member's record under a list schema: its name and the merged
/// pairs of all its annotations.
pub fn describe_list_member(m: &Member) -> (r: Result<FieldRecord, DescribeError>)
    ensures
        match r {
            Ok(rec) => list_member_error(*m) is None && rec@ == member_record(*m),
            Err(e) => list_member_error(*m) == Some(e),
        },
{
    let ghost anns = m.annotations@;
    let ghost errs = anns.map_values(|a: Annotation| list_annotation_error(a));
    let mut meta: Vec<(String, String)> = Vec::new();
    let mut i: usize = 0;
    while i < m.annotations.len()
        invariant
            i <= anns.len(),
            anns == m.annotations@,
            errs == anns.map_values(|a: Annotation| list_annotation_error(a)),
            first_error(errs.subrange(0, i as int)) is None,
            entries_view(meta@) == meta_of(anns.subrange(0, i as int)),
        decreases anns.len() - i,
    {
        let e = check_list_annotation(&m.annotations[i]);
        proof {
            assert(errs.subrange(0, i + 1).drop_last() =~= errs.subrange(0, i as int));
            assert(anns.subrange(0, i + 1).drop_last() =~= anns.subrange(0, i as int));
        }
        match e {
            Some(err) => {
                proof {
                    lemma_first_error_prefix(errs, i + 1);
                }
                return Err(err);
            },
            None => {},
        }
        insert_annotation_pairs(&mut meta, &m.annotations[i]);
        i += 1;
    }
    proof {
        assert(errs.subrange(0, anns.len() as int) =~= errs);
        assert(anns.subrange(0, anns.len() as int) =~= anns);
        assert(entries_view(Seq::<(String, String)>::empty()) =~= Seq::empty());
    }
    Ok(FieldRecord { field_name: m.name.clone(), meta })
}

/// A member's label under the flat schema.
pub fn flat_member_label(m: &Member) -> (r: Result<String, DescribeError>)
    ensures
        match r {
            Ok(s) => flat_member_error(*m) is None && s@ == flat_label(*m),
            Err(e) => flat_member_error(*m) == Some(e),
        },
{
    if m.annotations.len() == 1 {
        match &m.annotations[0] {
            Annotation::NameValue(Literal::Str(s)) => Ok(s.clone()),
            Annotation::NameValue(Literal::Other) => Err(DescribeError::MalformedValue),
            _ => Err(DescribeError::UnsupportedForm),
        }
    } else {
        Ok(m.name.clone())
    }
}

/// Describes a sequence of members under `schema`, stopping at the first
/// faulty one.
pub fn describe_members(ms: &Vec<Member>, schema: Schema) -> (r: Result<
    Description,
    DescribeError,
>)
    ensures
        match r {
            Ok(d) => members_error(ms@, schema) is None && d@ == description_of(ms@, schema),
            Err(e) => members_error(ms@, schema) == Some(e),
        },
{
    let ghost errs = ms@.map_values(|m: Member| member_error(m, schema));
    let mut flat: Vec<(String, String)> = Vec::new();
    let mut records: Vec<FieldRecord> = Vec::new();
    let mut i: usize = 0;
    while i < ms.len()
        invariant
            i <= ms@.len(),
            errs == ms@.map_values(|m: Member| member_error(m, schema)),
            first_error(errs.subrange(0, i as int)) is None,
            schema == Schema::FlatMap ==> entries_view(flat@) == flat_of(
                ms@.subrange(0, i as int),
            ),
            schema != Schema::FlatMap ==> records_view(records@) == ms@.subrange(0, i as int).map_values(
                |m: Member| member_record(m),
            ),
        decreases ms@.len() - i,
    {
        proof {
            assert(errs.subrange(0, i + 1).drop_last() =~= errs.subrange(0, i as int));
            assert(ms@.subrange(0, i + 1).drop_last() =~= ms@.subrange(0, i as int));
            assert(errs.subrange(0, i + 1).last() == member_error(ms@[i as int], schema));
        }
        if schema == Schema::FlatMap {
            match flat_member_label(&ms[i]) {
                Ok(label) => {
                    insert_entry_exec(&mut flat, ms[i].name.clone(), label);
                },
                Err(e) => {
                    proof {
                        lemma_first_error_prefix(errs, i + 1);
                    }
                    return Err(e);
                },
            }
        } else {
            match describe_list_member(&ms[i]) {
                Ok(rec) => {
                    let ghost prev = records@;
                    records.push(rec);
                    proof {
                        assert(records_view(prev) =~= records_view(records@).drop_last());
                        assert(records_view(records@).last() == member_record(ms@[i as int]));
                        assert forall|j: int| 0 <= j < i + 1 implies #[trigger] records_view(
                            records@,
                        )[j] == member_record(ms@[j]) by {
                            if j < i {
                                assert(records_view(prev)[j] == ms@.subrange(0, i as int).map_values(
                                    |m: Member| member_record(m),
                                )[j]);
                            }
                        }
                        assert(records_view(records@) =~= ms@.subrange(0, i + 1).map_values(
                            |m: Member| member_record(m),
                        ));
                    }
                },
                Err(e) => {
                    proof {
                        lemma_first_error_prefix(errs, i + 1);
                    }
                    return Err(e);
                },
            }
        }
        i += 1;
    }
    proof {
        assert(errs.subrange(0, ms@.len() as int) =~= errs);
        assert(ms@.subrange(0, ms@.len() as int) =~= ms@);
    }
    match schema {
        Schema::FlatMap => Ok(Description::FlatMap(flat)),
        Schema::MetadataList => Ok(Description::MetadataList(records)),
        Schema::StructuredList => Ok(Description::StructuredList(records)),
    }
}

/// Validates the annotations of `t` and builds its description under `schema`.
///
/// Fails with `MisplacedAnnotation` when the type itself carries an
/// annotation, with `UnsupportedShape` for a tuple or unit struct, and
/// otherwise with the error of the first faulty member.
pub fn describe(t: &TypeDef, schema: Schema) -> (r: Result<Description, DescribeError>)
    ensures
        match r {
            Ok(d) => type_error(*t, schema) is None && d@ == description_of(members_of(*t), schema),
            Err(e) => type_error(*t, schema) == Some(e),
        },
{
    if t.annotations.len() > 0 {
        return Err(DescribeError::MisplacedAnnotation);
    }
    match &t.shape {
        Shape::Named(ms) => describe_members(ms, schema),
        _ => Err(DescribeError::UnsupportedShape),
    }
}

} // verus!
