//! Properties of descriptions, proved over the contracts' spec functions.
use vstd::prelude::*;

use crate::describe::{
    annotation_pairs, description_of, first_error, flat_label, flat_of, has_key, insert_all,
    list_annotation_error, list_member_error, member_error, members_of, meta_of, nested_is_pair,
    nested_pair, type_error, DescriptionView, EntryView,
};
use crate::model::{Annotation, DescribeError, Literal, Member, Nested, Schema, TypeDef};

verus! {

/// Members of one type have distinct names.
pub open spec fn names_distinct(ms: Seq<Member>) -> bool {
    forall|i: int, j: int| 0 <= i < j < ms.len() ==> ms[i].name@ != ms[j].name@
}

/// Entries with distinct keys.
pub open spec fn keys_distinct(es: Seq<EntryView>) -> bool {
    forall|i: int, j: int| 0 <= i < j < es.len() ==> es[i].0 != es[j].0
}

pub open spec fn no_member_annotations(ms: Seq<Member>) -> bool {
    forall|i: int| 0 <= i < ms.len() ==> (#[trigger] ms[i]).annotations@.len() == 0
}

proof fn lemma_first_error_none(es: Seq<Option<DescribeError>>)
    requires
        forall|i: int| 0 <= i < es.len() ==> (#[trigger] es[i]) is None,
    ensures
        first_error(es) is None,
    decreases es.len(),
{
    if es.len() > 0 {
        lemma_first_error_none(es.drop_last());
    }
}

/// Inserting entries of distinct keys into an empty map keeps them as they are.
proof fn lemma_insert_all_distinct(es: Seq<EntryView>)
    requires
        keys_distinct(es),
    ensures
        insert_all(Seq::empty(), es) == es,
    decreases es.len(),
{
    if es.len() > 0 {
        let init = es.drop_last();
        lemma_insert_all_distinct(init);
        assert(!has_key(init, es.last().0)) by {
            if has_key(init, es.last().0) {
                let i = choose|i: int| 0 <= i < init.len() && #[trigger] init[i].0 == es.last().0;
                assert(es[i].0 != es[es.len() - 1].0);
            }
        }
        assert(init.push(es.last()) =~= es);
    }
}

/// With distinct member names, the flat map holds one entry per member, in
/// declaration order, each member's name to its label.
proof fn lemma_flat_of_distinct(ms: Seq<Member>)
    requires
        names_distinct(ms),
    ensures
        flat_of(ms).len() == ms.len(),
        forall|i: int| 0 <= i < ms.len() ==> #[trigger] flat_of(ms)[i] == (ms[i].name@, flat_label(ms[i])),
    decreases ms.len(),
{
    if ms.len() > 0 {
        let init = ms.drop_last();
        lemma_flat_of_distinct(init);
        let m = ms.last();
        assert(!has_key(flat_of(init), m.name@)) by {
            if has_key(flat_of(init), m.name@) {
                let i = choose|i: int| 0 <= i < flat_of(init).len() && #[trigger] flat_of(init)[i].0 == m.name@;
                assert(ms[i].name@ != ms[ms.len() - 1].name@);
            }
        }
        assert(forall|i: int| 0 <= i < init.len() ==> #[trigger] init[i] == ms[i]);
    }
}

/// A type whose members carry no annotations is described with exactly one
/// entry per member, in declaration order: under the flat schema each name
/// maps to itself, under the list schemas to empty metadata.
pub proof fn lemma_unannotated_members(t: TypeDef, schema: Schema)
    requires
        t.annotations@.len() == 0,
        t.shape is Named,
        names_distinct(members_of(t)),
        no_member_annotations(members_of(t)),
    ensures
        type_error(t, schema) is None,
        match description_of(members_of(t), schema) {
            DescriptionView::FlatMap(m) => m.len() == members_of(t).len() && forall|i: int|
                0 <= i < m.len() ==> #[trigger] m[i] == (members_of(t)[i].name@, members_of(
                    t,
                )[i].name@),
            DescriptionView::MetadataList(rs) => rs.len() == members_of(t).len() && forall|i: int|
                0 <= i < rs.len() ==> #[trigger] rs[i] == (
                    members_of(t)[i].name@,
                    Seq::<EntryView>::empty(),
                ),
            DescriptionView::StructuredList(rs) => rs.len() == members_of(t).len() && forall|
                i: int,
            |
                0 <= i < rs.len() ==> #[trigger] rs[i] == (
                    members_of(t)[i].name@,
                    Seq::<EntryView>::empty(),
                ),
        },
{
    let ms = members_of(t);
    let errs = ms.map_values(|m: Member| member_error(m, schema));
    assert forall|i: int| 0 <= i < errs.len() implies (#[trigger] errs[i]) is None by {
        let m = ms[i];
        assert(m.annotations@.len() == 0);
        let aerrs = m.annotations@.map_values(|a: Annotation| list_annotation_error(a));
        assert(aerrs =~= Seq::empty());
    }
    lemma_first_error_none(errs);
    assert forall|i: int| 0 <= i < ms.len() implies meta_of(#[trigger] ms[i].annotations@)
        == Seq::<EntryView>::empty() by {
        assert(ms[i].annotations@.len() == 0);
    }
    if schema == Schema::FlatMap {
        lemma_flat_of_distinct(ms);
        assert forall|i: int| 0 <= i < ms.len() implies flat_label(#[trigger] ms[i]) == ms[i].name@ by {
            assert(ms[i].annotations@.len() == 0);
        }
    }
}

/// Under the flat schema, a member carrying a single string-valued annotation
/// `= "label"` is mapped to that label rather than to its own name.
pub proof fn lemma_flat_override(ms: Seq<Member>, i: int, label: String)
    requires
        names_distinct(ms),
        0 <= i < ms.len(),
        ms[i].annotations@ == seq![Annotation::NameValue(Literal::Str(label))],
    ensures
        member_error(ms[i], Schema::FlatMap) is None,
        description_of(ms, Schema::FlatMap)->FlatMap_0.len() == ms.len(),
        description_of(ms, Schema::FlatMap)->FlatMap_0[i] == (ms[i].name@, label@),
{
    lemma_flat_of_distinct(ms);
    assert(ms[i].annotations@[0] == Annotation::NameValue(Literal::Str(label)));
}

/// Under a list schema, a member carrying one list annotation of well-formed
/// `key = "value"` pairs with distinct keys gets exactly those pairs as its
/// metadata, in written order, the values as written.
pub proof fn lemma_list_pairs(ms: Seq<Member>, i: int, schema: Schema, pairs: Vec<Nested>)
    requires
        schema != Schema::FlatMap,
        0 <= i < ms.len(),
        ms[i].annotations@ == seq![Annotation::List(pairs)],
        forall|j: int| 0 <= j < pairs@.len() ==> nested_is_pair(#[trigger] pairs@[j]),
        keys_distinct(pairs@.map_values(|n: Nested| nested_pair(n))),
    ensures
        member_error(ms[i], schema) is None,
        match description_of(ms, schema) {
            DescriptionView::MetadataList(rs) => rs[i] == (
                ms[i].name@,
                pairs@.map_values(|n: Nested| nested_pair(n)),
            ),
            DescriptionView::StructuredList(rs) => rs[i] == (
                ms[i].name@,
                pairs@.map_values(|n: Nested| nested_pair(n)),
            ),
            DescriptionView::FlatMap(_) => false,
        },
{
    let anns = ms[i].annotations@;
    let a = Annotation::List(pairs);
    assert(anns[0] == a);
    assert(a->List_0 == pairs);
    assert(forall|j: int|
        0 <= j < (a->List_0)@.len() ==> nested_is_pair(#[trigger] (a->List_0)@[j]));
    assert(list_annotation_error(a) is None);
    let aerrs = anns.map_values(|x: Annotation| list_annotation_error(x));
    assert(aerrs.drop_last() =~= Seq::empty());
    assert(first_error(aerrs.drop_last()) is None);
    assert(aerrs.last() is None);
    assert(list_member_error(ms[i]) is None);
    assert(anns.drop_last() =~= Seq::empty());
    assert(meta_of(anns.drop_last()) == Seq::<EntryView>::empty());
    assert(meta_of(anns) == insert_all(Seq::empty(), annotation_pairs(a)));
    lemma_insert_all_distinct(pairs@.map_values(|n: Nested| nested_pair(n)));
}

/// A tuple struct or a unit struct with no annotation of its own is never
/// described: it fails with `UnsupportedShape`.
pub proof fn lemma_unsupported_shape(t: TypeDef, schema: Schema)
    requires
        t.annotations@.len() == 0,
        !(t.shape is Named),
    ensures
        type_error(t, schema) == Some(DescribeError::UnsupportedShape),
{
}

/// A type carrying an annotation of its own is never described: it fails
/// with `MisplacedAnnotation`, whatever its members.
pub proof fn lemma_misplaced_annotation(t: TypeDef, schema: Schema)
    requires
        t.annotations@.len() > 0,
    ensures
        type_error(t, schema) == Some(DescribeError::MisplacedAnnotation),
{
}

} // verus!
