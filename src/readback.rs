//! The JSON text of a description determines the description.
use vstd::prelude::*;

use crate::describe::{DescriptionView, EntryView, RecordView};
use crate::json::{
    description_text, entry_text, escape_char, escaped, hex_digit, joined, json_string,
    metadata_item_text, object_text, record_text, records_text, structured_item_text,
};
use crate::model::Schema;

verus! {

proof fn lemma_escape_char_head(c: char)
    ensures
        escape_char(c).len() >= 1,
        escape_char(c)[0] != '"',
        escape_char(c)[0] == '\\' <==> escape_char(c).len() > 1,
{
}

proof fn lemma_hex_digit_injective(a: u32, b: u32)
    requires
        a < 16,
        b < 16,
        hex_digit(a) == hex_digit(b),
    ensures
        a == b,
{
}

proof fn lemma_escape_char_injective(c1: char, c2: char, u: Seq<char>, v: Seq<char>)
    requires
        escape_char(c1) + u == escape_char(c2) + v,
    ensures
        c1 == c2,
        u == v,
{
    let e1 = escape_char(c1);
    let e2 = escape_char(c2);
    assert((e1 + u)[0] == e1[0]);
    assert((e2 + v)[0] == e2[0]);
    if e1.len() > 1 {
        assert((e1 + u)[1] == e1[1]);
        assert((e2 + v)[1] == e2[1]);
        if e1[1] == 'u' {
            assert((e1 + u)[4] == e1[4]);
            assert((e2 + v)[4] == e2[4]);
            assert((e1 + u)[5] == e1[5]);
            assert((e2 + v)[5] == e2[5]);
            lemma_hex_digit_injective((c1 as u32) / 16, (c2 as u32) / 16);
            lemma_hex_digit_injective((c1 as u32) % 16, (c2 as u32) % 16);
            assert(c1 as u32 == c2 as u32);
        }
    }
    assert(e1 == e2);
    assert(u =~= (e1 + u).subrange(e1.len() as int, (e1 + u).len() as int));
    assert(v =~= (e2 + v).subrange(e2.len() as int, (e2 + v).len() as int));
}

proof fn lemma_escaped_front(s: Seq<char>)
    requires
        s.len() > 0,
    ensures
        escaped(s) == escape_char(s[0]) + escaped(s.drop_first()),
    decreases s.len(),
{
    if s.len() == 1 {
        assert(s.drop_last() =~= Seq::<char>::empty());
        assert(s.drop_first() =~= Seq::<char>::empty());
        assert(escaped(s) =~= escape_char(s[0]) + escaped(s.drop_first()));
    } else {
        lemma_escaped_front(s.drop_last());
        assert(s.drop_last().drop_first() =~= s.drop_first().drop_last());
        assert(escaped(s) =~= escape_char(s[0]) + escaped(s.drop_first()));
    }
}

/// Escaped text followed by a closing quote: the quote is the first one not
/// escaped, so the text before it is read back unambiguously.
proof fn lemma_escaped_quote_injective(a: Seq<char>, b: Seq<char>, x: Seq<char>, y: Seq<char>)
    requires
        escaped(a) + seq!['"'] + x == escaped(b) + seq!['"'] + y,
    ensures
        a == b,
        x == y,
    decreases a.len(),
{
    let l = escaped(a) + seq!['"'] + x;
    let r = escaped(b) + seq!['"'] + y;
    if a.len() == 0 {
        assert(l[0] == '"');
        if b.len() > 0 {
            lemma_escaped_front(b);
            lemma_escape_char_head(b[0]);
            assert(r[0] == escape_char(b[0])[0]);
        }
        assert(b =~= a);
        assert(x =~= l.subrange(1, l.len() as int));
        assert(y =~= r.subrange(1, r.len() as int));
    } else {
        lemma_escaped_front(a);
        lemma_escape_char_head(a[0]);
        assert(l[0] == escape_char(a[0])[0]);
        if b.len() == 0 {
            assert(r[0] == '"');
        } else {
            lemma_escaped_front(b);
            let ra = escaped(a.drop_first()) + seq!['"'] + x;
            let rb = escaped(b.drop_first()) + seq!['"'] + y;
            assert(l =~= escape_char(a[0]) + ra);
            assert(r =~= escape_char(b[0]) + rb);
            lemma_escape_char_injective(a[0], b[0], ra, rb);
            lemma_escaped_quote_injective(a.drop_first(), b.drop_first(), x, y);
            assert(a =~= seq![a[0]] + a.drop_first());
            assert(b =~= seq![b[0]] + b.drop_first());
        }
    }
}

/// A JSON string literal followed by any text: the literal and the text after
/// it are read back unambiguously.
pub proof fn lemma_json_string_injective(a: Seq<char>, b: Seq<char>, x: Seq<char>, y: Seq<char>)
    requires
        json_string(a) + x == json_string(b) + y,
    ensures
        a == b,
        x == y,
{
    let l = json_string(a) + x;
    let r = json_string(b) + y;
    assert(l.drop_first() =~= escaped(a) + seq!['"'] + x);
    assert(r.drop_first() =~= escaped(b) + seq!['"'] + y);
    lemma_escaped_quote_injective(a, b, x, y);
}

/// An item text from which the item and the text after it are read back
/// unambiguously.
pub open spec fn prefix_unique<A>(f: spec_fn(A) -> Seq<char>) -> bool {
    forall|e1: A, e2: A, u: Seq<char>, v: Seq<char>|
        #[trigger] (f(e1) + u) == #[trigger] (f(e2) + v) ==> e1 == e2 && u == v
}

proof fn lemma_joined_front(parts: Seq<Seq<char>>)
    requires
        parts.len() >= 2,
    ensures
        joined(parts) == parts[0] + seq![','] + joined(parts.drop_first()),
    decreases parts.len(),
{
    if parts.len() == 2 {
        assert(parts.drop_last().len() == 1);
        assert(parts.drop_first().len() == 1);
        assert(joined(parts.drop_last()) == parts[0]);
        assert(joined(parts.drop_first()) == parts[1]);
    } else {
        lemma_joined_front(parts.drop_last());
        assert(parts.drop_last().drop_first() =~= parts.drop_first().drop_last());
        assert(joined(parts) =~= parts[0] + seq![','] + joined(parts.drop_first()));
    }
}

/// The first character of a non-empty comma-joined list is that of its first item.
proof fn lemma_joined_head(parts: Seq<Seq<char>>, x: Seq<char>)
    requires
        parts.len() >= 1,
        parts[0].len() >= 1,
    ensures
        (joined(parts) + x)[0] == parts[0][0],
{
    if parts.len() >= 2 {
        lemma_joined_front(parts);
    }
}

/// Items joined by commas and followed by a closing character: the items and
/// the text after the closing character are read back unambiguously.
pub proof fn lemma_joined_injective<A>(
    f: spec_fn(A) -> Seq<char>,
    close: char,
    s1: Seq<A>,
    s2: Seq<A>,
    x: Seq<char>,
    y: Seq<char>,
)
    requires
        prefix_unique(f),
        close != ',',
        forall|e: A| (#[trigger] f(e)).len() > 0 && f(e)[0] != close,
        joined(s1.map_values(f)) + seq![close] + x == joined(s2.map_values(f)) + seq![close] + y,
    ensures
        s1 == s2,
        x == y,
    decreases s1.len(),
{
    let p1 = s1.map_values(f);
    let p2 = s2.map_values(f);
    let l = joined(p1) + seq![close] + x;
    let r = joined(p2) + seq![close] + y;
    if s1.len() == 0 || s2.len() == 0 {
        if s1.len() > 0 {
            lemma_joined_head(p1, seq![close] + x);
            assert(l =~= joined(p1) + (seq![close] + x));
            assert(l[0] == f(s1[0])[0]);
        }
        if s2.len() > 0 {
            lemma_joined_head(p2, seq![close] + y);
            assert(r =~= joined(p2) + (seq![close] + y));
            assert(r[0] == f(s2[0])[0]);
        }
        assert(s1 =~= s2);
        assert(x =~= l.subrange(1, l.len() as int));
        assert(y =~= r.subrange(1, r.len() as int));
    } else {
        let rest1 = if s1.len() == 1 {
            seq![close] + x
        } else {
            seq![','] + joined(p1.drop_first()) + seq![close] + x
        };
        let rest2 = if s2.len() == 1 {
            seq![close] + y
        } else {
            seq![','] + joined(p2.drop_first()) + seq![close] + y
        };
        if s1.len() >= 2 {
            lemma_joined_front(p1);
        }
        if s2.len() >= 2 {
            lemma_joined_front(p2);
        }
        assert(l =~= f(s1[0]) + rest1);
        assert(r =~= f(s2[0]) + rest2);
        assert(s1[0] == s2[0] && rest1 == rest2);
        assert(rest1[0] == rest2[0]);
        if s1.len() == 1 {
            assert(s2.len() == 1);
            assert(s1 =~= s2);
            assert(x =~= rest1.drop_first());
            assert(y =~= rest2.drop_first());
        } else {
            assert(s2.len() >= 2);
            assert(p1.drop_first() =~= s1.drop_first().map_values(f));
            assert(p2.drop_first() =~= s2.drop_first().map_values(f));
            assert(rest1.drop_first() =~= joined(p1.drop_first()) + seq![close] + x);
            assert(rest2.drop_first() =~= joined(p2.drop_first()) + seq![close] + y);
            lemma_joined_injective(f, close, s1.drop_first(), s2.drop_first(), x, y);
            assert(s1 =~= seq![s1[0]] + s1.drop_first());
            assert(s2 =~= seq![s2[0]] + s2.drop_first());
        }
    }
}

proof fn lemma_entry_unique(e1: EntryView, e2: EntryView, u: Seq<char>, v: Seq<char>)
    requires
        entry_text(e1) + u == entry_text(e2) + v,
    ensures
        e1 == e2,
        u == v,
{
    let t1 = seq![':'] + json_string(e1.1) + u;
    let t2 = seq![':'] + json_string(e2.1) + v;
    assert(entry_text(e1) + u =~= json_string(e1.0) + t1);
    assert(entry_text(e2) + v =~= json_string(e2.0) + t2);
    lemma_json_string_injective(e1.0, e2.0, t1, t2);
    assert(t1.drop_first() =~= json_string(e1.1) + u);
    assert(t2.drop_first() =~= json_string(e2.1) + v);
    lemma_json_string_injective(e1.1, e2.1, u, v);
}

/// A JSON object of entries followed by any text: the entries, in order, and
/// the text after the object are read back unambiguously.
pub proof fn lemma_object_injective(m1: Seq<EntryView>, m2: Seq<EntryView>, u: Seq<char>, v: Seq<char>)
    requires
        object_text(m1) + u == object_text(m2) + v,
    ensures
        m1 == m2,
        u == v,
{
    let f = |e: EntryView| entry_text(e);
    assert forall|e1: EntryView, e2: EntryView, a: Seq<char>, b: Seq<char>|
        #[trigger] (f(e1) + a) == #[trigger] (f(e2) + b) implies e1 == e2 && a == b by {
        lemma_entry_unique(e1, e2, a, b);
    }
    assert forall|e: EntryView| (#[trigger] f(e)).len() > 0 && f(e)[0] != '}' by {
        assert(f(e)[0] == '"');
    }
    let l = object_text(m1) + u;
    let r = object_text(m2) + v;
    assert(l.drop_first() =~= joined(m1.map_values(f)) + seq!['}'] + u);
    assert(r.drop_first() =~= joined(m2.map_values(f)) + seq!['}'] + v);
    lemma_joined_injective(f, '}', m1, m2, u, v);
}

proof fn lemma_structured_item_head(r1: RecordView, r2: RecordView, u: Seq<char>, v: Seq<char>)
    requires
        structured_item_text(r1) + u == structured_item_text(r2) + v,
    ensures
        r1.0 == r2.0,
        object_text(r1.1) + (seq!['}'] + u) == object_text(r2.1) + (seq!['}'] + v),
{
    reveal_strlit("{\"field_name\":");
    reveal_strlit(",\"meta\":");
    let head = "{\"field_name\":"@;
    let mid = ",\"meta\":"@;
    let o1 = object_text(r1.1) + (seq!['}'] + u);
    let o2 = object_text(r2.1) + (seq!['}'] + v);
    let t1 = mid + o1;
    let t2 = mid + o2;
    let l = structured_item_text(r1) + u;
    let r = structured_item_text(r2) + v;
    assert(l =~= head + (json_string(r1.0) + t1));
    assert(r =~= head + (json_string(r2.0) + t2));
    assert(json_string(r1.0) + t1 =~= l.subrange(head.len() as int, l.len() as int));
    assert(json_string(r2.0) + t2 =~= r.subrange(head.len() as int, r.len() as int));
    lemma_json_string_injective(r1.0, r2.0, t1, t2);
    assert(o1 =~= t1.subrange(mid.len() as int, t1.len() as int));
    assert(o2 =~= t2.subrange(mid.len() as int, t2.len() as int));
}

proof fn lemma_metadata_item_head(r1: RecordView, r2: RecordView, u: Seq<char>, v: Seq<char>)
    requires
        metadata_item_text(r1) + u == metadata_item_text(r2) + v,
    ensures
        r1.0 == r2.0,
        object_text(r1.1) + (seq!['}'] + u) == object_text(r2.1) + (seq!['}'] + v),
{
    let o1 = object_text(r1.1) + (seq!['}'] + u);
    let o2 = object_text(r2.1) + (seq!['}'] + v);
    let t1 = seq![':'] + o1;
    let t2 = seq![':'] + o2;
    let l = metadata_item_text(r1) + u;
    let r = metadata_item_text(r2) + v;
    assert(l.drop_first() =~= json_string(r1.0) + t1);
    assert(r.drop_first() =~= json_string(r2.0) + t2);
    lemma_json_string_injective(r1.0, r2.0, t1, t2);
    assert(o1 =~= t1.drop_first());
    assert(o2 =~= t2.drop_first());
}

proof fn lemma_record_unique(r1: RecordView, r2: RecordView, structured: bool, u: Seq<char>, v: Seq<char>)
    requires
        record_text(r1, structured) + u == record_text(r2, structured) + v,
    ensures
        r1 == r2,
        u == v,
{
    if structured {
        lemma_structured_item_head(r1, r2, u, v);
    } else {
        lemma_metadata_item_head(r1, r2, u, v);
    }
    lemma_object_injective(r1.1, r2.1, seq!['}'] + u, seq!['}'] + v);
    assert(u =~= (seq!['}'] + u).drop_first());
    assert(v =~= (seq!['}'] + v).drop_first());
}

proof fn lemma_records_injective(rs1: Seq<RecordView>, rs2: Seq<RecordView>, structured: bool)
    requires
        records_text(rs1, structured) == records_text(rs2, structured),
    ensures
        rs1 == rs2,
{
    let f = |r: RecordView| record_text(r, structured);
    assert forall|e1: RecordView, e2: RecordView, a: Seq<char>, b: Seq<char>|
        #[trigger] (f(e1) + a) == #[trigger] (f(e2) + b) implies e1 == e2 && a == b by {
        lemma_record_unique(e1, e2, structured, a, b);
    }
    assert forall|e: RecordView| (#[trigger] f(e)).len() > 0 && f(e)[0] != ']' by {
        reveal_strlit("{\"field_name\":");
        assert(f(e)[0] == '{');
    }
    let l = records_text(rs1, structured);
    let r = records_text(rs2, structured);
    assert(l.drop_first() =~= joined(rs1.map_values(f)) + seq![']'] + Seq::<char>::empty());
    assert(r.drop_first() =~= joined(rs2.map_values(f)) + seq![']'] + Seq::<char>::empty());
    lemma_joined_injective(f, ']', rs1, rs2, Seq::<char>::empty(), Seq::<char>::empty());
}

/// The schema a description is in.
pub open spec fn schema_of(d: DescriptionView) -> Schema {
    match d {
        DescriptionView::FlatMap(_) => Schema::FlatMap,
        DescriptionView::MetadataList(_) => Schema::MetadataList,
        DescriptionView::StructuredList(_) => Schema::StructuredList,
    }
}

/// Two descriptions in one schema with the same JSON text are equal: the
/// text determines every name, every key and value, and their order, so
/// reading it back yields the description it was rendered from.
pub proof fn lemma_description_text_injective(d1: DescriptionView, d2: DescriptionView)
    requires
        schema_of(d1) == schema_of(d2),
        description_text(d1) == description_text(d2),
    ensures
        d1 == d2,
{
    match d1 {
        DescriptionView::FlatMap(m1) => {
            let m2 = d2->FlatMap_0;
            assert(object_text(m1) + Seq::<char>::empty() =~= object_text(m1));
            assert(object_text(m2) + Seq::<char>::empty() =~= object_text(m2));
            lemma_object_injective(m1, m2, Seq::empty(), Seq::empty());
        },
        DescriptionView::MetadataList(rs1) => {
            lemma_records_injective(rs1, d2->MetadataList_0, false);
        },
        DescriptionView::StructuredList(rs1) => {
            lemma_records_injective(rs1, d2->StructuredList_0, true);
        },
    }
}

} // verus!
