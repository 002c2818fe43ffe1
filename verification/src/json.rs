//! JSON documents as the security graph uses them, and their text.

use vstd::prelude::*;
use vstd::utf8::encode_utf8;

use crate::prompt::escaped;
use crate::text::same_text;

verus! {

/// A JSON document, told apart as far as a security graph needs it.
#[derive(Debug, PartialEq, Eq)]
pub enum Json {
    Null,
    Natural(u64),
    Text(String),
    List(Vec<Json>),
    /// The fields in the order in which they are written.
    Record(Vec<(String, Json)>),
    /// What no graph holds: a truth value, a negative number or a fraction.
    Foreign,
}

/// What a document says.
pub enum Doc {
    Null,
    Natural(u64),
    Text(Seq<char>),
    List(Seq<Doc>),
    Record(Seq<(Seq<char>, Doc)>),
    Foreign,
}

/// What a document says, part by part.
pub open spec fn doc_of(doc: Json) -> Doc
    decreases doc,
{
    match doc {
        Json::Null => Doc::Null,
        Json::Natural(n) => Doc::Natural(n),
        Json::Text(s) => Doc::Text(s@),
        Json::List(items) => Doc::List(
            Seq::new(
                items@.len(),
                |i: int|
                    if 0 <= i < items@.len() {
                        doc_of(items@[i])
                    } else {
                        Doc::Null
                    },
            ),
        ),
        Json::Record(fields) => Doc::Record(
            Seq::new(
                fields@.len(),
                |i: int|
                    if 0 <= i < fields@.len() {
                        (fields@[i].0@, doc_of(fields@[i].1))
                    } else {
                        (Seq::empty(), Doc::Null)
                    },
            ),
        ),
        Json::Foreign => Doc::Foreign,
    }
}

impl View for Json {
    type V = Doc;

    open spec fn view(&self) -> Doc {
        doc_of(*self)
    }
}

/// What a list of documents says.
pub open spec fn docs(items: Seq<Json>) -> Seq<Doc> {
    items.map_values(|d: Json| d@)
}

/// What a list of fields says.
pub open spec fn doc_fields(fields: Seq<(String, Json)>) -> Seq<(Seq<char>, Doc)> {
    fields.map_values(|f: (String, Json)| (f.0@, f.1@))
}

/// `serde_json::Value`, carried from its construction to its text.
#[verifier::external_type_specification]
#[verifier::external_body]
pub struct ExValue(serde_json::Value);

/// `serde_json::Error`, carried to where it is told apart from success.
#[verifier::external_type_specification]
#[verifier::external_body]
pub struct ExError(serde_json::Error);

/// The text that `serde_json::to_string` gives a document, if it gives one.
pub uninterp spec fn compact_text(doc: Doc) -> Option<Seq<char>>;

/// The text that `serde_json::to_string_pretty` gives a document, if it gives one.
pub uninterp spec fn pretty_text(doc: Doc) -> Option<Seq<char>>;

/// The document that `serde_json::from_slice` makes of bytes; none where they are not JSON.
pub uninterp spec fn parsed(bytes: Seq<u8>) -> Option<Doc>;

/// How deep lists and records may be nested in JSON that is parsed.
pub const MAX_NESTING: usize = 127;

/// No two fields share a name.
pub open spec fn distinctly_named(fields: Seq<(Seq<char>, Doc)>) -> bool {
    forall|i: int, j: int|
        0 <= i < j < fields.len() ==> (#[trigger] fields[i]).0 != (#[trigger] fields[j]).0
}

/// The document is one that can be written and parsed: none of its records names a field
/// twice, its lists and records are nested no deeper than `nesting`, and nothing in it
/// is foreign.
pub open spec fn plain(doc: Doc, nesting: nat) -> bool
    decreases nesting,
{
    match doc {
        Doc::List(items) => nesting > 0 && forall|i: int|
            0 <= i < items.len() ==> plain(#[trigger] items[i], (nesting - 1) as nat),
        Doc::Record(fields) => nesting > 0 && distinctly_named(fields) && forall|i: int|
            0 <= i < fields.len() ==> plain((#[trigger] fields[i]).1, (nesting - 1) as nat),
        Doc::Foreign => false,
        _ => true,
    }
}

/// The fields with `value` under `name`: in place of what was under it, or at the end.
pub open spec fn put(fields: Seq<(Seq<char>, Doc)>, name: Seq<char>, value: Doc) -> Seq<
    (Seq<char>, Doc),
>
    decreases fields.len(),
{
    if fields.len() == 0 {
        seq![(name, value)]
    } else if fields[0].0 == name {
        fields.update(0, (name, value))
    } else {
        seq![fields[0]] + put(fields.drop_first(), name, value)
    }
}

/// The document with the repeated fields of every record merged: each name once, where
/// it first stands, with what it last has.
pub open spec fn collapsed(doc: Doc) -> Doc
    decreases doc,
{
    match doc {
        Doc::List(items) => Doc::List(collapsed_items(items)),
        Doc::Record(fields) => Doc::Record(collapsed_fields(fields)),
        _ => doc,
    }
}

/// The items with the repeated fields of every record merged.
pub open spec fn collapsed_items(items: Seq<Doc>) -> Seq<Doc>
    decreases items,
{
    if items.len() == 0 {
        items
    } else {
        collapsed_items(items.subrange(0, items.len() - 1)).push(collapsed(items[items.len() - 1]))
    }
}

/// The fields, and those of every record under them, with the repeated ones merged.
pub open spec fn collapsed_fields(fields: Seq<(Seq<char>, Doc)>) -> Seq<(Seq<char>, Doc)>
    decreases fields,
{
    if fields.len() == 0 {
        fields
    } else {
        let last = fields[fields.len() - 1];
        put(collapsed_fields(fields.subrange(0, fields.len() - 1)), last.0, collapsed(last.1))
    }
}

/// The `serde_json::Value` of a document, built by `Value::from` and by collecting.
/// A record becomes an object whose members stand in the order of its fields.
/// Nothing is claimed of the value: its text is named where it is made, of documents
/// in which nothing is foreign.
#[verifier::external_body]
fn to_value(doc: &Json) -> serde_json::Value {
    match doc {
        Json::Null => serde_json::Value::Null,
        Json::Natural(n) => serde_json::Value::from(*n),
        Json::Text(s) => serde_json::Value::from(s.as_str()),
        Json::List(items) => items.iter().map(to_value).collect(),
        Json::Record(fields) => fields.iter().map(|f| (f.0.as_str(), to_value(&f.1))).collect(),
        Json::Foreign => serde_json::Value::Null,
    }
}

/// `serde_json::to_string`: the text of a document without white space between
/// its parts. The text depends on the document alone.
#[verifier::external_body]
pub(crate) fn write_compact(doc: &Json) -> (r: Result<String, serde_json::Error>)
    requires
        plain(doc@, MAX_NESTING as nat),
    ensures
        match r {
            Ok(s) => compact_text(doc@) == Some(s@),
            Err(_) => compact_text(doc@) is None,
        },
{
    serde_json::to_string(&to_value(doc))
}

/// `serde_json::to_string_pretty`: the text of a document spread over indented
/// lines. The text depends on the document alone, and is parsed back as that document.
/// Angle brackets stand in its strings alone, never behind a single backslash, so it is
/// parsed back as well where they are written as escapes.
#[verifier::external_body]
pub(crate) fn write_pretty(doc: &Json) -> (r: Result<String, serde_json::Error>)
    requires
        plain(doc@, MAX_NESTING as nat),
    ensures
        match r {
            Ok(s) => pretty_text(doc@) == Some(s@) && parsed(encode_utf8(s@)) == Some(doc@)
                && parsed(encode_utf8(escaped(s@))) == Some(doc@),
            Err(_) => pretty_text(doc@) is None,
        },
{
    serde_json::to_string_pretty(&to_value(doc))
}

/// The document of a `serde_json::Value`. The fields of a record stand in the order of
/// the object's members. Nothing is claimed of the document: it is named where bytes
/// are parsed.
#[verifier::external_body]
fn from_value(value: &serde_json::Value) -> Json {
    match value {
        serde_json::Value::Null => Json::Null,
        serde_json::Value::Bool(_) => Json::Foreign,
        serde_json::Value::Number(n) => n.as_u64().map_or(Json::Foreign, Json::Natural),
        serde_json::Value::String(s) => Json::Text(s.clone()),
        serde_json::Value::Array(items) => Json::List(items.iter().map(from_value).collect()),
        serde_json::Value::Object(members) => {
            Json::Record(members.iter().map(|m| (m.0.clone(), from_value(m.1))).collect())
        },
    }
}

/// `serde_json::from_slice`: the document of JSON text. It depends on the bytes alone.
/// Of the fields that an object names twice, only the last is kept.
#[verifier::external_body]
pub(crate) fn parse(bytes: &[u8]) -> (r: Result<Json, serde_json::Error>)
    ensures
        match r {
            Ok(doc) => parsed(bytes@) == Some(doc@),
            Err(_) => parsed(bytes@) is None,
        },
{
    Ok(from_value(&serde_json::from_slice::<serde_json::Value>(bytes)?))
}

/// The document of a string.
pub fn text(s: &str) -> (r: Json)
    ensures
        r@ == Doc::Text(s@),
{
    Json::Text(s.to_owned())
}

/// The document of a list.
pub fn list(items: Vec<Json>) -> (r: Json)
    ensures
        r@ == Doc::List(docs(items@)),
{
    let r = Json::List(items);
    assert(r@->List_0 =~= docs(items@));
    r
}

/// The document of a record.
pub fn record(fields: Vec<(String, Json)>) -> (r: Json)
    ensures
        r@ == Doc::Record(doc_fields(fields@)),
{
    let r = Json::Record(fields);
    assert(r@->Record_0 =~= doc_fields(fields@));
    r
}

/// Adds a field to the end of a record.
pub fn add_field(fields: &mut Vec<(String, Json)>, name: &str, value: Json)
    ensures
        doc_fields(final(fields)@) == doc_fields(old(fields)@).push((name@, value@)),
{
    let ghost before = fields@;
    fields.push((name.to_owned(), value));
    assert(doc_fields(fields@) =~= doc_fields(before).push((name@, value@)));
}

/// Adds an item to the end of a list.
pub fn add_item(items: &mut Vec<Json>, item: Json)
    ensures
        docs(final(items)@) == docs(old(items)@).push(item@),
{
    let ghost before = items@;
    items.push(item);
    assert(docs(items@) =~= docs(before).push(item@));
}

/// The names are those of a record's schema, each at most once.
pub open spec fn well_named(fields: Seq<(Seq<char>, Doc)>, names: Seq<Seq<char>>) -> bool {
    &&& forall|i: int| 0 <= i < fields.len() ==> names.contains((#[trigger] fields[i]).0)
    &&& distinctly_named(fields)
}

/// The fields of a document for a schema with the given names. A record has its
/// own fields; a list stands for a record whose first fields have its items as
/// their values.
pub open spec fn fields_in(doc: Doc, names: Seq<Seq<char>>) -> Option<Seq<(Seq<char>, Doc)>> {
    match doc {
        Doc::Record(fields) => if well_named(fields, names) {
            Some(fields)
        } else {
            None
        },
        Doc::List(items) => if items.len() <= names.len() {
            Some(Seq::new(items.len(), |i: int| (names[i], items[i])))
        } else {
            None
        },
        _ => None,
    }
}

/// The value of the first field of the given name.
pub open spec fn field(fields: Seq<(Seq<char>, Doc)>, name: Seq<char>) -> Option<Doc>
    decreases fields.len(),
{
    if fields.len() == 0 {
        None
    } else if fields[0].0 == name {
        Some(fields[0].1)
    } else {
        field(fields.drop_first(), name)
    }
}

/// The name that a document gives a variant: a string, or a record of that one
/// name with nothing under it.
pub open spec fn tag_of(doc: Doc) -> Option<Seq<char>> {
    match doc {
        Doc::Text(name) => Some(name),
        Doc::Record(fields) => if fields.len() == 1 && fields[0].1 == Doc::Null {
            Some(fields[0].0)
        } else {
            None
        },
        _ => None,
    }
}

/// What names say.
pub open spec fn names_of(names: Seq<&str>) -> Seq<Seq<char>> {
    names.map_values(|s: &str| s@)
}

/// What borrowed fields say.
pub open spec fn borrowed_fields(fields: Seq<(&str, &Json)>) -> Seq<(Seq<char>, Doc)> {
    fields.map_values(|f: (&str, &Json)| (f.0@, f.1@))
}

/// The parts of a list, as they stand in it.
pub proof fn lemma_list_parts(items: Vec<Json>)
    ensures
        doc_of(Json::List(items)) == Doc::List(docs(items@)),
{
    assert(doc_of(Json::List(items))->List_0 =~= docs(items@));
}

/// The parts of a record, as they stand in it.
pub proof fn lemma_record_parts(fields: Vec<(String, Json)>)
    ensures
        doc_of(Json::Record(fields)) == Doc::Record(doc_fields(fields@)),
{
    assert(doc_of(Json::Record(fields))->Record_0 =~= doc_fields(fields@));
}

fn is_one_of(name: &str, names: &Vec<&str>) -> (r: bool)
    ensures
        r == names_of(names@).contains(name@),
{
    let ghost all = names_of(names@);
    let mut i: usize = 0;
    while i < names.len()
        invariant
            all == names_of(names@),
            i <= names@.len(),
            forall|j: int| 0 <= j < i ==> (#[trigger] all[j]) != name@,
        decreases names.len() - i,
    {
        assert(all[i as int] == names@[i as int]@);
        if same_text(names[i], name) {
            return true;
        }
        i += 1;
    }
    false
}

/// The fields of a document for a schema with the given names.
pub fn read_fields<'a>(doc: &'a Json, names: &Vec<&'a str>) -> (r: Option<Vec<(&'a str, &'a Json)>>)
    ensures
        match r {
            Some(fields) => fields_in(doc@, names_of(names@)) == Some(borrowed_fields(fields@)),
            None => fields_in(doc@, names_of(names@)) is None,
        },
{
    match doc {
        Json::Record(fields) => {
            let ghost all = doc_fields(fields@);
            proof {
                lemma_record_parts(*fields);
            }
            let mut out: Vec<(&'a str, &'a Json)> = Vec::new();
            let mut i: usize = 0;
            while i < fields.len()
                invariant
                    all == doc_fields(fields@),
                    doc@ == Doc::Record(all),
                    i <= fields@.len(),
                    borrowed_fields(out@) == all.take(i as int),
                    out@.len() == i,
                    well_named(all.take(i as int), names_of(names@)),
                decreases fields.len() - i,
            {
                let name = fields[i].0.as_str();
                let ghost sofar = all.take(i as int);
                let ghost next = all.take(i + 1);
                assert(all[i as int] == (name@, fields@[i as int].1@));
                assert(next[i as int].0 == name@);
                if !is_one_of(name, names) {
                    assert(!names_of(names@).contains(all[i as int].0));
                    return None;
                }
                let mut j: usize = 0;
                while j < i
                    invariant
                        all == doc_fields(fields@),
                        doc@ == Doc::Record(all),
                        j <= i < fields@.len(),
                        all[i as int].0 == name@,
                        forall|k: int| 0 <= k < j ==> (#[trigger] all[k]).0 != name@,
                    decreases i - j,
                {
                    assert(all[j as int].0 == fields@[j as int].0@);
                    if same_text(fields[j].0.as_str(), name) {
                        assert(all[j as int].0 == all[i as int].0);
                        return None;
                    }
                    j += 1;
                }
                assert(well_named(next, names_of(names@))) by {
                    assert forall|k: int| 0 <= k < next.len() implies names_of(names@).contains(
                        (#[trigger] next[k]).0,
                    ) by {
                        if k < i {
                            assert(next[k] == sofar[k]);
                        }
                    }
                    assert forall|k: int, l: int| 0 <= k < l < next.len() implies (
                    #[trigger] next[k]).0 != (#[trigger] next[l]).0 by {
                        assert(next[k] == all[k]);
                        if l < i {
                            assert(next[k] == sofar[k] && next[l] == sofar[l]);
                        }
                    }
                }
                out.push((name, &fields[i].1));
                i += 1;
                assert(borrowed_fields(out@) =~= next);
            }
            assert(all.take(i as int) =~= all);
            Some(out)
        },
        Json::List(items) => {
            proof {
                lemma_list_parts(*items);
            }
            if items.len() > names.len() {
                return None;
            }
            let ghost all = docs(items@);
            let ghost want = Seq::new(all.len(), |i: int| (names_of(names@)[i], all[i]));
            let mut out: Vec<(&'a str, &'a Json)> = Vec::new();
            let mut i: usize = 0;
            while i < items.len()
                invariant
                    all == docs(items@),
                    items@.len() <= names@.len(),
                    want == Seq::new(all.len(), |i: int| (names_of(names@)[i], all[i])),
                    i <= items@.len(),
                    borrowed_fields(out@) == want.take(i as int),
                decreases items.len() - i,
            {
                let ghost before = out@;
                out.push((names[i], &items[i]));
                assert(borrowed_fields(out@) =~= borrowed_fields(before).push(
                    (names@[i as int]@, items@[i as int]@),
                ));
                assert(want[i as int] == (names@[i as int]@, items@[i as int]@));
                assert(want.take(i + 1) =~= want.take(i as int).push(want[i as int]));
                i += 1;
            }
            assert(want.take(i as int) =~= want);
            Some(out)
        },
        _ => None,
    }
}

/// The value of the first field of the given name.
pub fn find_field<'a>(fields: &Vec<(&'a str, &'a Json)>, name: &str) -> (r: Option<&'a Json>)
    ensures
        match r {
            Some(doc) => field(borrowed_fields(fields@), name@) == Some(doc@),
            None => field(borrowed_fields(fields@), name@) is None,
        },
{
    let ghost all = borrowed_fields(fields@);
    let mut i: usize = 0;
    assert(all.skip(0) =~= all);
    while i < fields.len()
        invariant
            all == borrowed_fields(fields@),
            i <= fields@.len(),
            field(all, name@) == field(all.skip(i as int), name@),
        decreases fields.len() - i,
    {
        assert(all.skip(i as int)[0] == (fields@[i as int].0@, fields@[i as int].1@));
        if same_text(fields[i].0, name) {
            return Some(fields[i].1);
        }
        assert(all.skip(i as int).drop_first() =~= all.skip(i + 1));
        i += 1;
    }
    None
}

/// Whether two documents say the same.
pub fn same_doc(a: &Json, b: &Json) -> (r: bool)
    ensures
        r == (a@ == b@),
    decreases a,
{
    match (a, b) {
        (Json::Null, Json::Null) => true,
        (Json::Foreign, Json::Foreign) => true,
        (Json::Natural(m), Json::Natural(n)) => *m == *n,
        (Json::Text(s), Json::Text(t)) => same_text(s.as_str(), t.as_str()),
        (Json::List(xs), Json::List(ys)) => {
            proof {
                lemma_list_parts(*xs);
                lemma_list_parts(*ys);
            }
            if xs.len() != ys.len() {
                assert(docs(xs@).len() != docs(ys@).len());
                return false;
            }
            let mut i: usize = 0;
            while i < xs.len()
                invariant
                    a == Json::List(*xs),
                    a@ == Doc::List(docs(xs@)),
                    b@ == Doc::List(docs(ys@)),
                    xs@.len() == ys@.len(),
                    i <= xs@.len(),
                    forall|j: int| 0 <= j < i ==> docs(xs@)[j] == docs(ys@)[j],
                decreases xs.len() - i,
            {
                assert(docs(xs@)[i as int] == xs@[i as int]@);
                assert(docs(ys@)[i as int] == ys@[i as int]@);
                if !same_doc(&xs[i], &ys[i]) {
                    return false;
                }
                i += 1;
            }
            assert(docs(xs@) =~= docs(ys@));
            true
        },
        (Json::Record(xs), Json::Record(ys)) => {
            proof {
                lemma_record_parts(*xs);
                lemma_record_parts(*ys);
            }
            if xs.len() != ys.len() {
                assert(doc_fields(xs@).len() != doc_fields(ys@).len());
                return false;
            }
            let mut i: usize = 0;
            while i < xs.len()
                invariant
                    a == Json::Record(*xs),
                    a@ == Doc::Record(doc_fields(xs@)),
                    b@ == Doc::Record(doc_fields(ys@)),
                    xs@.len() == ys@.len(),
                    i <= xs@.len(),
                    forall|j: int| 0 <= j < i ==> doc_fields(xs@)[j] == doc_fields(ys@)[j],
                decreases xs.len() - i,
            {
                assert(doc_fields(xs@)[i as int] == (xs@[i as int].0@, xs@[i as int].1@));
                assert(doc_fields(ys@)[i as int] == (ys@[i as int].0@, ys@[i as int].1@));
                if !same_text(xs[i].0.as_str(), ys[i].0.as_str()) || !same_doc(
                    &xs[i].1,
                    &ys[i].1,
                ) {
                    return false;
                }
                i += 1;
            }
            assert(doc_fields(xs@) =~= doc_fields(ys@));
            true
        },
        _ => false,
    }
}

/// Puts a value under a name: in place of what was under it, or at the end.
fn put_field(fields: &mut Vec<(String, Json)>, name: &str, value: Json)
    ensures
        doc_fields(final(fields)@) == put(doc_fields(old(fields)@), name@, value@),
{
    let ghost before = fields@;
    let ghost all = doc_fields(before);
    let mut i: usize = 0;
    while i < fields.len() && !same_text(fields[i].0.as_str(), name)
        invariant
            fields@ == before,
            all == doc_fields(before),
            i <= fields@.len(),
            forall|j: int| 0 <= j < i ==> (#[trigger] all[j]).0 != name@,
        decreases fields.len() - i,
    {
        assert(all[i as int].0 == before[i as int].0@);
        i += 1;
    }
    proof {
        if i < before.len() {
            assert(all[i as int].0 == before[i as int].0@);
        }
        lemma_put_at(all, name@, value@, i as int);
    }
    if i < fields.len() {
        fields[i] = (name.to_owned(), value);
        assert(doc_fields(fields@) =~= all.update(i as int, (name@, value@)));
    } else {
        fields.push((name.to_owned(), value));
        assert(doc_fields(fields@) =~= all.push((name@, value@)));
    }
}

/// A value is put where its name first stands, or at the end where it stands nowhere.
pub proof fn lemma_put_at(fields: Seq<(Seq<char>, Doc)>, name: Seq<char>, value: Doc, at: int)
    requires
        0 <= at <= fields.len(),
        forall|j: int| 0 <= j < at ==> (#[trigger] fields[j]).0 != name,
        at < fields.len() ==> fields[at].0 == name,
    ensures
        put(fields, name, value) == if at < fields.len() {
            fields.update(at, (name, value))
        } else {
            fields.push((name, value))
        },
    decreases fields.len(),
{
    if fields.len() == 0 {
        assert(put(fields, name, value) =~= fields.push((name, value)));
    } else if at > 0 {
        let rest = fields.drop_first();
        assert(fields[0].0 != name);
        assert forall|j: int| 0 <= j < at - 1 implies (#[trigger] rest[j]).0 != name by {
            assert(rest[j] == fields[j + 1]);
        }
        lemma_put_at(rest, name, value, at - 1);
        if at < fields.len() {
            assert(seq![fields[0]] + rest.update(at - 1, (name, value)) =~= fields.update(
                at,
                (name, value),
            ));
        } else {
            assert(seq![fields[0]] + rest.push((name, value)) =~= fields.push((name, value)));
        }
    }
}

/// The document with the repeated fields of every record merged.
pub fn collapse(doc: &Json) -> (r: Json)
    ensures
        r@ == collapsed(doc@),
    decreases doc,
{
    match doc {
        Json::Null => Json::Null,
        Json::Natural(n) => Json::Natural(*n),
        Json::Text(s) => Json::Text(s.clone()),
        Json::Foreign => Json::Foreign,
        Json::List(items) => {
            proof {
                lemma_list_parts(*items);
            }
            let ghost all = docs(items@);
            let mut out: Vec<Json> = Vec::new();
            let mut i: usize = 0;
            assert(docs(out@) =~= all.subrange(0, 0));
            while i < items.len()
                invariant
                    doc == Json::List(*items),
                    all == docs(items@),
                    i <= items@.len(),
                    docs(out@) == collapsed_items(all.subrange(0, i as int)),
                decreases items.len() - i,
            {
                let ghost next = all.subrange(0, i + 1);
                assert(next.subrange(0, next.len() - 1) =~= all.subrange(0, i as int));
                assert(next[i as int] == items@[i as int]@);
                let item = &items[i];
                assert(decreases_to!(doc => doc->List_0@[i as int]));
                add_item(&mut out, collapse(item));
                i += 1;
            }
            assert(all.subrange(0, i as int) =~= all);
            list(out)
        },
        Json::Record(fields) => {
            proof {
                lemma_record_parts(*fields);
            }
            let ghost all = doc_fields(fields@);
            let mut out: Vec<(String, Json)> = Vec::new();
            let mut i: usize = 0;
            assert(doc_fields(out@) =~= all.subrange(0, 0));
            while i < fields.len()
                invariant
                    doc == Json::Record(*fields),
                    all == doc_fields(fields@),
                    i <= fields@.len(),
                    doc_fields(out@) == collapsed_fields(all.subrange(0, i as int)),
                decreases fields.len() - i,
            {
                let ghost next = all.subrange(0, i + 1);
                assert(next.subrange(0, next.len() - 1) =~= all.subrange(0, i as int));
                assert(next[i as int] == (fields@[i as int].0@, fields@[i as int].1@));
                let value = &fields[i].1;
                assert(decreases_to!(doc => doc->Record_0@[i as int].1));
                put_field(&mut out, fields[i].0.as_str(), collapse(value));
                i += 1;
            }
            assert(all.subrange(0, i as int) =~= all);
            record(out)
        },
    }
}

proof fn lemma_plain_items(items: Seq<Doc>, nesting: nat)
    requires
        forall|i: int| 0 <= i < items.len() ==> plain(#[trigger] items[i], nesting),
    ensures
        collapsed_items(items) == items,
    decreases nesting, items.len(),
{
    if items.len() > 0 {
        let rest = items.subrange(0, items.len() - 1);
        assert forall|i: int| 0 <= i < rest.len() implies plain(#[trigger] rest[i], nesting) by {
            assert(rest[i] == items[i]);
        }
        lemma_plain_items(rest, nesting);
        plain_is_collapsed(items[items.len() - 1], nesting);
        assert(rest.push(items[items.len() - 1]) =~= items);
    }
}

proof fn lemma_plain_fields(fields: Seq<(Seq<char>, Doc)>, nesting: nat)
    requires
        distinctly_named(fields),
        forall|i: int| 0 <= i < fields.len() ==> plain((#[trigger] fields[i]).1, nesting),
    ensures
        collapsed_fields(fields) == fields,
    decreases nesting, fields.len(),
{
    if fields.len() > 0 {
        let rest = fields.subrange(0, fields.len() - 1);
        let last = fields[fields.len() - 1];
        assert forall|i: int| 0 <= i < rest.len() implies plain((#[trigger] rest[i]).1, nesting)
            && rest[i].0 != last.0 by {
            assert(rest[i] == fields[i]);
        }
        assert(distinctly_named(rest)) by {
            assert forall|i: int, j: int| 0 <= i < j < rest.len() implies (#[trigger] rest[i]).0
                != (#[trigger] rest[j]).0 by {
                assert(rest[i] == fields[i] && rest[j] == fields[j]);
            }
        }
        lemma_plain_fields(rest, nesting);
        plain_is_collapsed(last.1, nesting);
        lemma_put_at(rest, last.0, last.1, rest.len() as int);
        assert(rest.push(last) =~= fields);
    }
}

/// A document that repeats no name is collapsed to itself.
pub proof fn plain_is_collapsed(doc: Doc, nesting: nat)
    requires
        plain(doc, nesting),
    ensures
        collapsed(doc) == doc,
    decreases nesting, 0nat,
{
    match doc {
        Doc::List(items) => {
            lemma_plain_items(items, (nesting - 1) as nat);
        },
        Doc::Record(fields) => {
            lemma_plain_fields(fields, (nesting - 1) as nat);
        },
        _ => {},
    }
}

/// The name that a document gives a variant.
pub fn read_tag<'a>(doc: &'a Json) -> (r: Option<&'a str>)
    ensures
        match r {
            Some(name) => tag_of(doc@) == Some(name@),
            None => tag_of(doc@) is None,
        },
{
    match doc {
        Json::Text(name) => Some(name.as_str()),
        Json::Record(fields) => {
            proof {
                lemma_record_parts(*fields);
            }
            if fields.len() != 1 {
                return None;
            }
            assert(doc_fields(fields@)[0] == (fields@[0].0@, fields@[0].1@));
            match &fields[0].1 {
                Json::Null => Some(fields[0].0.as_str()),
                _ => None,
            }
        },
        _ => None,
    }
}

} // verus!
