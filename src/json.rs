//! JSON text of a description.
use vstd::prelude::*;

use crate::describe::{
    describe, description_of, entries_view, members_of, records_view, type_error, Description,
    DescriptionView, EntryView, FieldRecord, RecordView,
};
use crate::model::{DescribeError, Schema, TypeDef};

verus! {

#[verifier::external_type_specification]
#[verifier::external_body]
pub struct ExJsonError(serde_json::Error);

pub open spec fn hex_digit(n: u32) -> char {
    seq!['0', '1', '2', '3', '4', '5', '6', '7', '8', '9', 'a', 'b', 'c', 'd', 'e', 'f'][n as int]
}

/// The JSON escape of one character: quote, backslash and the control
/// characters are escaped, the short forms where JSON has one.
pub open spec fn escape_char(c: char) -> Seq<char> {
    if c == '"' {
        seq!['\\', '"']
    } else if c == '\\' {
        seq!['\\', '\\']
    } else if c == '\x08' {
        seq!['\\', 'b']
    } else if c == '\t' {
        seq!['\\', 't']
    } else if c == '\n' {
        seq!['\\', 'n']
    } else if c == '\x0c' {
        seq!['\\', 'f']
    } else if c == '\r' {
        seq!['\\', 'r']
    } else if (c as u32) < 0x20 {
        seq!['\\', 'u', '0', '0', hex_digit((c as u32) / 16), hex_digit((c as u32) % 16)]
    } else {
        seq![c]
    }
}

pub open spec fn escaped(s: Seq<char>) -> Seq<char>
    decreases s.len(),
{
    if s.len() == 0 {
        Seq::empty()
    } else {
        escaped(s.drop_last()) + escape_char(s.last())
    }
}

/// `s` as a JSON string literal.
pub open spec fn json_string(s: Seq<char>) -> Seq<char> {
    seq!['"'] + escaped(s) + seq!['"']
}

/// Relies on `serde_json::to_string` for a `str`: it writes the string as a
/// JSON string literal, escaping `"`, `\` and the characters below U+0020
/// (`\b`, `\t`, `\n`, `\f`, `\r`, else `\u00xx` in lower-case hex), and
/// cannot fail, since it writes into a `Vec<u8>`.
#[verifier::external_body]
fn json_string_literal(s: &str) -> (r: Result<String, serde_json::Error>)
    ensures
        r is Ok,
        r->Ok_0@ == json_string(s@),
{
    serde_json::to_string(s)
}

/// Parts separated by commas.
pub open spec fn joined(parts: Seq<Seq<char>>) -> Seq<char>
    decreases parts.len(),
{
    if parts.len() == 0 {
        Seq::empty()
    } else if parts.len() == 1 {
        parts[0]
    } else {
        joined(parts.drop_last()) + seq![','] + parts.last()
    }
}

pub open spec fn entry_text(e: EntryView) -> Seq<char> {
    json_string(e.0) + seq![':'] + json_string(e.1)
}

/// A JSON object holding the entries in order.
pub open spec fn object_text(m: Seq<EntryView>) -> Seq<char> {
    seq!['{'] + joined(m.map_values(|e: EntryView| entry_text(e))) + seq!['}']
}

/// `{"name":{...}}`: a metadata-list item.
pub open spec fn metadata_item_text(r: RecordView) -> Seq<char> {
    seq!['{'] + json_string(r.0) + seq![':'] + object_text(r.1) + seq!['}']
}

/// `{"field_name":"name","meta":{...}}`: a structured-list item.
pub open spec fn structured_item_text(r: RecordView) -> Seq<char> {
    "{\"field_name\":"@ + json_string(r.0) + ",\"meta\":"@ + object_text(r.1) + seq!['}']
}

pub open spec fn record_text(r: RecordView, structured: bool) -> Seq<char> {
    if structured {
        structured_item_text(r)
    } else {
        metadata_item_text(r)
    }
}

/// A JSON array of the records, in order.
pub open spec fn records_text(rs: Seq<RecordView>, structured: bool) -> Seq<char> {
    seq!['['] + joined(rs.map_values(|r: RecordView| record_text(r, structured))) + seq![']']
}

/// The JSON text of a description.
pub open spec fn description_text(d: DescriptionView) -> Seq<char> {
    match d {
        DescriptionView::FlatMap(m) => object_text(m),
        DescriptionView::MetadataList(rs) => records_text(rs, false),
        DescriptionView::StructuredList(rs) => records_text(rs, true),
    }
}

pub proof fn lemma_joined_step(parts: Seq<Seq<char>>, i: int)
    requires
        0 <= i < parts.len(),
    ensures
        joined(parts.subrange(0, i + 1)) == if i == 0 {
            parts[0]
        } else {
            joined(parts.subrange(0, i)) + seq![','] + parts[i]
        },
{
    assert(parts.subrange(0, i + 1).drop_last() =~= parts.subrange(0, i));
}

fn write_json_string(out: &mut String, s: &String)
    ensures
        final(out)@ == old(out)@ + json_string(s@),
{
    match json_string_literal(s.as_str()) {
        Ok(lit) => out.append(lit.as_str()),
        Err(_) => {},
    }
}

fn write_object(out: &mut String, m: &Vec<(String, String)>)
    ensures
        final(out)@ == old(out)@ + object_text(entries_view(m@)),
{
    let ghost parts = entries_view(m@).map_values(|e: EntryView| entry_text(e));
    let ghost start = out@;
    out.append("{");
    proof {
        reveal_strlit("{");
    }
    let mut i: usize = 0;
    while i < m.len()
        invariant
            i <= m@.len(),
            parts == entries_view(m@).map_values(|e: EntryView| entry_text(e)),
            out@ == start + seq!['{'] + joined(parts.subrange(0, i as int)),
        decreases m@.len() - i,
    {
        proof {
            lemma_joined_step(parts, i as int);
            reveal_strlit(",");
            reveal_strlit(":");
        }
        if i > 0 {
            out.append(",");
        }
        write_json_string(out, &m[i].0);
        out.append(":");
        write_json_string(out, &m[i].1);
        proof {
            assert(parts[i as int] == entry_text(entries_view(m@)[i as int]));
            assert(out@ =~= start + seq!['{'] + joined(parts.subrange(0, i + 1)));
        }
        i += 1;
    }
    out.append("}");
    proof {
        reveal_strlit("}");
        assert(parts.subrange(0, m@.len() as int) =~= parts);
        assert(out@ =~= start + object_text(entries_view(m@)));
    }
}

fn write_record(out: &mut String, r: &FieldRecord, structured: bool)
    ensures
        final(out)@ == old(out)@ + record_text(r@, structured),
{
    let ghost start = out@;
    proof {
        reveal_strlit("{");
        reveal_strlit(":");
        reveal_strlit("}");
    }
    if structured {
        out.append("{\"field_name\":");
        write_json_string(out, &r.field_name);
        out.append(",\"meta\":");
        write_object(out, &r.meta);
        out.append("}");
        proof {
            assert(out@ =~= start + structured_item_text(r@));
        }
    } else {
        out.append("{");
        write_json_string(out, &r.field_name);
        out.append(":");
        write_object(out, &r.meta);
        out.append("}");
        proof {
            assert(out@ =~= start + metadata_item_text(r@));
        }
    }
}

fn write_records(out: &mut String, rs: &Vec<FieldRecord>, structured: bool)
    ensures
        final(out)@ == old(out)@ + records_text(records_view(rs@), structured),
{
    let ghost parts = records_view(rs@).map_values(|r: RecordView| record_text(r, structured));
    let ghost start = out@;
    out.append("[");
    proof {
        reveal_strlit("[");
    }
    let mut i: usize = 0;
    while i < rs.len()
        invariant
            i <= rs@.len(),
            parts == records_view(rs@).map_values(|r: RecordView| record_text(r, structured)),
            out@ == start + seq!['['] + joined(parts.subrange(0, i as int)),
        decreases rs@.len() - i,
    {
        proof {
            lemma_joined_step(parts, i as int);
            reveal_strlit(",");
        }
        if i > 0 {
            out.append(",");
        }
        write_record(out, &rs[i], structured);
        proof {
            assert(parts[i as int] == record_text(rs@[i as int]@, structured));
            assert(out@ =~= start + seq!['['] + joined(parts.subrange(0, i + 1)));
        }
        i += 1;
    }
    out.append("]");
    proof {
        reveal_strlit("]");
        assert(parts.subrange(0, rs@.len() as int) =~= parts);
        assert(out@ =~= start + records_text(records_view(rs@), structured));
    }
}

/// The JSON text of a description: an object for the flat schema, an array
/// of one item per member, in order, for the list schemas.
pub fn to_json(d: &Description) -> (r: String)
    ensures
        r@ == description_text(d@),
{
    let mut out = String::new();
    match d {
        Description::FlatMap(m) => write_object(&mut out, m),
        Description::MetadataList(rs) => write_records(&mut out, rs, false),
        Description::StructuredList(rs) => write_records(&mut out, rs, true),
    }
    proof {
        assert(out@ =~= description_text(d@));
    }
    out
}

/// Describes `t` under `schema` and renders the description as JSON text.
pub fn structmap(t: &TypeDef, schema: Schema) -> (r: Result<String, DescribeError>)
    ensures
        match r {
            Ok(text) => type_error(*t, schema) is None && text@ == description_text(
                description_of(members_of(*t), schema),
            ),
            Err(e) => type_error(*t, schema) == Some(e),
        },
{
    match describe(t, schema) {
        Ok(d) => Ok(to_json(&d)),
        Err(e) => Err(e),
    }
}

} // verus!
