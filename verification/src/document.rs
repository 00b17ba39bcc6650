//! Structured documents and the formats that they are written in.

use vstd::prelude::*;

verus! {

/// A document: text, a flag, a list or a record with named fields.
#[derive(Debug)]
pub enum Document {
    Text(String),
    Flag(bool),
    List(Vec<Document>),
    Record(Vec<Field>),
}

/// A named field of a record.
#[derive(Debug)]
pub struct Field {
    pub key: String,
    pub value: Document,
}

/// What a document says.
pub enum DocumentView {
    Text(Seq<char>),
    Flag(bool),
    List(Seq<DocumentView>),
    Record(Seq<(Seq<char>, DocumentView)>),
}

/// What a document says.
pub open spec fn shown(document: Document) -> DocumentView
    decreases document,
{
    match document {
        Document::Text(text) => DocumentView::Text(text@),
        Document::Flag(flag) => DocumentView::Flag(flag),
        Document::List(items) => DocumentView::List(all_shown(items@)),
        Document::Record(fields) => DocumentView::Record(fields_shown(fields@)),
    }
}

/// What documents say, in order.
pub open spec fn all_shown(items: Seq<Document>) -> Seq<DocumentView>
    decreases items,
{
    if items.len() == 0 {
        Seq::empty()
    } else {
        all_shown(items.subrange(0, items.len() - 1)).push(shown(items[items.len() - 1]))
    }
}

/// The keys of fields and what the fields hold, in order.
pub open spec fn fields_shown(fields: Seq<Field>) -> Seq<(Seq<char>, DocumentView)>
    decreases fields,
{
    if fields.len() == 0 {
        Seq::empty()
    } else {
        fields_shown(fields.subrange(0, fields.len() - 1)).push(
            (fields[fields.len() - 1].key@, shown(fields[fields.len() - 1].value)),
        )
    }
}

proof fn lemma_all_shown(items: Seq<Document>)
    ensures
        all_shown(items).len() == items.len(),
        forall|i: int| 0 <= i < items.len() ==> all_shown(items)[i] == shown(#[trigger] items[i]),
    decreases items.len(),
{
    if items.len() > 0 {
        let shorter = items.subrange(0, items.len() - 1);
        lemma_all_shown(shorter);
        assert forall|i: int| 0 <= i < items.len() implies all_shown(items)[i] == shown(
            #[trigger] items[i],
        ) by {
            if i < items.len() - 1 {
                assert(shorter[i] == items[i]);
            }
        }
    }
}

proof fn lemma_fields_shown(fields: Seq<Field>)
    ensures
        fields_shown(fields).len() == fields.len(),
        forall|i: int|
            0 <= i < fields.len() ==> fields_shown(fields)[i] == (
                (#[trigger] fields[i]).key@,
                shown(fields[i].value),
            ),
    decreases fields.len(),
{
    if fields.len() > 0 {
        let shorter = fields.subrange(0, fields.len() - 1);
        lemma_fields_shown(shorter);
        assert forall|i: int| 0 <= i < fields.len() implies fields_shown(fields)[i] == (
            (#[trigger] fields[i]).key@,
            shown(fields[i].value),
        ) by {
            if i < fields.len() - 1 {
                assert(shorter[i] == fields[i]);
            }
        }
    }
}

impl View for Document {
    type V = DocumentView;

    open spec fn view(&self) -> DocumentView {
        shown(*self)
    }
}

/// A value in the memory of the JSON library.
#[verifier::external_type_specification]
#[verifier::external_body]
pub struct ExJsonValue(serde_json::Value);

/// What the JSON library reports where it cannot write.
#[verifier::external_type_specification]
#[verifier::external_body]
pub struct ExJsonError(serde_json::Error);

/// A value in the memory of the YAML library.
#[verifier::external_type_specification]
#[verifier::external_body]
pub struct ExYamlValue(serde_yaml_ng::Value);

/// What the YAML library reports where it cannot write.
#[verifier::external_type_specification]
#[verifier::external_body]
pub struct ExYamlError(serde_yaml_ng::Error);

/// What a JSON value says, a number by its text. The entries of an object have no order.
pub enum JsonView {
    Null,
    Flag(bool),
    Number(Seq<char>),
    Text(Seq<char>),
    Array(Seq<JsonView>),
    Object(Map<Seq<char>, JsonView>),
}

/// What a YAML value says, a number by its text. The entries of a mapping have an order.
pub enum YamlView {
    Null,
    Flag(bool),
    Number(Seq<char>),
    Text(Seq<char>),
    Sequence(Seq<YamlView>),
    Mapping(Seq<(YamlView, YamlView)>),
    Tagged(Seq<char>, Box<YamlView>),
}

/// What a value of the JSON library holds.
pub uninterp spec fn json_holds(value: serde_json::Value) -> JsonView;

/// The bytes in which the JSON library writes a value that says this, indented.
pub uninterp spec fn pretty_json_of(value: JsonView) -> Seq<u8>;

/// What a value of the YAML library holds.
pub uninterp spec fn yaml_holds(value: serde_yaml_ng::Value) -> YamlView;

/// The text in which the YAML library writes a value that says this, where it can.
pub uninterp spec fn written_yaml_of(value: YamlView) -> Option<Seq<char>>;

/// Whether no two entries have the same key.
pub open spec fn distinct_keys<V>(entries: Seq<(String, V)>) -> bool {
    forall|i: int, j: int| 0 <= i < j < entries.len() ==> entries[i].0@ != entries[j].0@
}

/// What the entries of an object hold.
pub open spec fn json_entries_hold(entries: Seq<(String, serde_json::Value)>) -> Map<
    Seq<char>,
    JsonView,
>
    decreases entries.len(),
{
    if entries.len() == 0 {
        Map::empty()
    } else {
        json_entries_hold(entries.drop_last()).insert(
            entries.last().0@,
            json_holds(entries.last().1),
        )
    }
}

/// What the entries of a mapping hold, in order.
pub open spec fn yaml_entries_hold(entries: Seq<(String, serde_yaml_ng::Value)>) -> Seq<
    (YamlView, YamlView),
> {
    entries.map_values(
        |entry: (String, serde_yaml_ng::Value)| (YamlView::Text(entry.0@), yaml_holds(entry.1)),
    )
}

/// `serde_json::Value::String`: the value that holds a text.
#[verifier::external_body]
fn json_text(text: String) -> (r: serde_json::Value)
    ensures
        json_holds(r) == JsonView::Text(text@),
{
    serde_json::Value::String(text)
}

/// `serde_json::Value::Bool`: the value that holds a flag.
#[verifier::external_body]
fn json_flag(flag: bool) -> (r: serde_json::Value)
    ensures
        json_holds(r) == JsonView::Flag(flag),
{
    serde_json::Value::Bool(flag)
}

/// `serde_json::Value::Array`: the value that holds a list of values, in order.
#[verifier::external_body]
fn json_array(items: Vec<serde_json::Value>) -> (r: serde_json::Value)
    ensures
        json_holds(r) == JsonView::Array(
            items@.map_values(|item: serde_json::Value| json_holds(item)),
        ),
{
    serde_json::Value::Array(items)
}

/// `serde_json::Value::Object`, with a `serde_json::Map` that is collected from the entries: each
/// key holds its value. What becomes of entries with the same key is not stated.
#[verifier::external_body]
fn json_object(entries: Vec<(String, serde_json::Value)>) -> (r: serde_json::Value)
    ensures
        distinct_keys(entries@) ==> json_holds(r) == JsonView::Object(json_entries_hold(entries@)),
{
    serde_json::Value::Object(entries.into_iter().collect())
}

/// `serde_json::to_vec_pretty` on a value. It writes to memory, and no value of the JSON library
/// makes its own serialisation fail, so bytes always come back. They depend on what the value
/// holds alone: with the library's default features an object keeps its entries sorted by key.
#[verifier::external_body]
fn json_bytes(value: &serde_json::Value) -> (r: Result<Vec<u8>, serde_json::Error>)
    ensures
        r is Ok,
        r->Ok_0@ == pretty_json_of(json_holds(*value)),
{
    serde_json::to_vec_pretty(value)
}

/// `serde_yaml_ng::Value::String`: the value that holds a text.
#[verifier::external_body]
fn yaml_text(text: String) -> (r: serde_yaml_ng::Value)
    ensures
        yaml_holds(r) == YamlView::Text(text@),
{
    serde_yaml_ng::Value::String(text)
}

/// `serde_yaml_ng::Value::Bool`: the value that holds a flag.
#[verifier::external_body]
fn yaml_flag(flag: bool) -> (r: serde_yaml_ng::Value)
    ensures
        yaml_holds(r) == YamlView::Flag(flag),
{
    serde_yaml_ng::Value::Bool(flag)
}

/// `serde_yaml_ng::Value::Sequence`: the value that holds a list of values, in order.
#[verifier::external_body]
fn yaml_sequence(items: Vec<serde_yaml_ng::Value>) -> (r: serde_yaml_ng::Value)
    ensures
        yaml_holds(r) == YamlView::Sequence(
            items@.map_values(|item: serde_yaml_ng::Value| yaml_holds(item)),
        ),
{
    serde_yaml_ng::Value::Sequence(items)
}

/// `serde_yaml_ng::Value::Mapping`, with a `serde_yaml_ng::Mapping` that is collected from the
/// entries and keeps their order: each key, as a text, holds its value. What becomes of entries
/// with the same key is not stated.
#[verifier::external_body]
fn yaml_mapping(entries: Vec<(String, serde_yaml_ng::Value)>) -> (r: serde_yaml_ng::Value)
    ensures
        distinct_keys(entries@) ==> yaml_holds(r) == YamlView::Mapping(
            yaml_entries_hold(entries@),
        ),
{
    serde_yaml_ng::Value::Mapping(entries.into_iter().map(|e| (e.0.into(), e.1)).collect())
}

/// `serde_yaml_ng::to_string` on a value. Whether it succeeds, and with which text, depends on
/// what the value holds alone.
#[verifier::external_body]
fn write_yaml(value: &serde_yaml_ng::Value) -> (r: Result<String, serde_yaml_ng::Error>)
    ensures
        r is Ok == written_yaml_of(yaml_holds(*value)) is Some,
        r matches Ok(text) ==> written_yaml_of(yaml_holds(*value)) == Some(text@),
{
    serde_yaml_ng::to_string(value)
}

/// Whether no two fields have the same key.
pub open spec fn distinct_fields(fields: Seq<(Seq<char>, DocumentView)>) -> bool {
    forall|i: int, j: int| 0 <= i < j < fields.len() ==> fields[i].0 != fields[j].0
}

/// Whether no record in a document has two fields with the same key.
pub open spec fn well_keyed(document: DocumentView) -> bool
    decreases document,
{
    match document {
        DocumentView::Text(_) => true,
        DocumentView::Flag(_) => true,
        DocumentView::List(items) => all_well_keyed(items),
        DocumentView::Record(fields) => distinct_fields(fields) && fields_well_keyed(fields),
    }
}

/// Whether every document is well keyed.
pub open spec fn all_well_keyed(items: Seq<DocumentView>) -> bool
    decreases items,
{
    items.len() == 0 || (all_well_keyed(items.subrange(0, items.len() - 1)) && well_keyed(
        items[items.len() - 1],
    ))
}

/// Whether every field holds a document that is well keyed.
pub open spec fn fields_well_keyed(fields: Seq<(Seq<char>, DocumentView)>) -> bool
    decreases fields,
{
    fields.len() == 0 || (fields_well_keyed(fields.subrange(0, fields.len() - 1)) && well_keyed(
        fields[fields.len() - 1].1,
    ))
}

proof fn lemma_all_well_keyed(items: Seq<DocumentView>, n: int)
    requires
        all_well_keyed(items),
        0 <= n < items.len(),
    ensures
        well_keyed(items[n]),
    decreases items.len(),
{
    if n < items.len() - 1 {
        lemma_all_well_keyed(items.subrange(0, items.len() - 1), n);
    }
}

proof fn lemma_fields_well_keyed(fields: Seq<(Seq<char>, DocumentView)>, n: int)
    requires
        fields_well_keyed(fields),
        0 <= n < fields.len(),
    ensures
        well_keyed(fields[n].1),
    decreases fields.len(),
{
    if n < fields.len() - 1 {
        lemma_fields_well_keyed(fields.subrange(0, fields.len() - 1), n);
    }
}

proof fn lemma_keyed_items(items: Seq<DocumentView>)
    requires
        forall|n: int| 0 <= n < items.len() ==> well_keyed(#[trigger] items[n]),
    ensures
        all_well_keyed(items),
    decreases items.len(),
{
    if items.len() > 0 {
        lemma_keyed_items(items.subrange(0, items.len() - 1));
    }
}

proof fn lemma_keyed_fields(fields: Seq<(Seq<char>, DocumentView)>)
    requires
        forall|n: int| 0 <= n < fields.len() ==> well_keyed((#[trigger] fields[n]).1),
    ensures
        fields_well_keyed(fields),
    decreases fields.len(),
{
    if fields.len() > 0 {
        lemma_keyed_fields(fields.subrange(0, fields.len() - 1));
    }
}

/// A document as JSON: text for text, flag for flag, an array for a list and an object for a
/// record.
pub open spec fn as_json(document: DocumentView) -> JsonView
    decreases document,
{
    match document {
        DocumentView::Text(text) => JsonView::Text(text),
        DocumentView::Flag(flag) => JsonView::Flag(flag),
        DocumentView::List(items) => JsonView::Array(all_as_json(items)),
        DocumentView::Record(fields) => JsonView::Object(fields_as_json(fields)),
    }
}

/// Documents as JSON, in order.
pub open spec fn all_as_json(items: Seq<DocumentView>) -> Seq<JsonView>
    decreases items,
{
    if items.len() == 0 {
        Seq::empty()
    } else {
        all_as_json(items.subrange(0, items.len() - 1)).push(as_json(items[items.len() - 1]))
    }
}

/// Fields as the entries of an object.
pub open spec fn fields_as_json(fields: Seq<(Seq<char>, DocumentView)>) -> Map<
    Seq<char>,
    JsonView,
>
    decreases fields,
{
    if fields.len() == 0 {
        Map::empty()
    } else {
        fields_as_json(fields.subrange(0, fields.len() - 1)).insert(
            fields[fields.len() - 1].0,
            as_json(fields[fields.len() - 1].1),
        )
    }
}

/// A document as YAML: text for text, flag for flag, a sequence for a list and a mapping for a
/// record.
pub open spec fn as_yaml(document: DocumentView) -> YamlView
    decreases document,
{
    match document {
        DocumentView::Text(text) => YamlView::Text(text),
        DocumentView::Flag(flag) => YamlView::Flag(flag),
        DocumentView::List(items) => YamlView::Sequence(all_as_yaml(items)),
        DocumentView::Record(fields) => YamlView::Mapping(fields_as_yaml(fields)),
    }
}

/// Documents as YAML, in order.
pub open spec fn all_as_yaml(items: Seq<DocumentView>) -> Seq<YamlView>
    decreases items,
{
    if items.len() == 0 {
        Seq::empty()
    } else {
        all_as_yaml(items.subrange(0, items.len() - 1)).push(as_yaml(items[items.len() - 1]))
    }
}

/// Fields as the entries of a mapping, in order.
pub open spec fn fields_as_yaml(fields: Seq<(Seq<char>, DocumentView)>) -> Seq<
    (YamlView, YamlView),
>
    decreases fields,
{
    if fields.len() == 0 {
        Seq::empty()
    } else {
        fields_as_yaml(fields.subrange(0, fields.len() - 1)).push(
            (
                YamlView::Text(fields[fields.len() - 1].0),
                as_yaml(fields[fields.len() - 1].1),
            ),
        )
    }
}

/// Makes the JSON library's values for a list of documents.
fn json_items(items: &Vec<Document>) -> (r: Vec<serde_json::Value>)
    ensures
        all_well_keyed(all_shown(items@)) ==> r@.map_values(
            |item: serde_json::Value| json_holds(item),
        ) == all_as_json(all_shown(items@)),
    decreases items,
{
    let ghost views = all_shown(items@);
    let mut values: Vec<serde_json::Value> = Vec::new();
    let mut i: usize = 0;
    proof {
        lemma_all_shown(items@);
        assert(values@.map_values(|item: serde_json::Value| json_holds(item)) =~= Seq::<
            JsonView,
        >::empty());
    }
    while i < items.len()
        invariant
            i <= items@.len(),
            views.len() == items@.len(),
            forall|j: int| 0 <= j < items@.len() ==> views[j] == shown(#[trigger] items@[j]),
            all_well_keyed(views) ==> values@.map_values(
                |item: serde_json::Value| json_holds(item),
            ) == all_as_json(views.subrange(0, i as int)),
        decreases items@.len() - i,
    {
        let ghost before = values@.map_values(|item: serde_json::Value| json_holds(item));
        let ghost longer = views.subrange(0, i as int + 1);
        assert(decreases_to!(items@ => items@[i as int]));
        assert(decreases_to!(items => items@));
        let value: serde_json::Value = json_value(&items[i]);
        values.push(value);
        proof {
            assert(longer.subrange(0, i as int) =~= views.subrange(0, i as int));
            if all_well_keyed(views) {
                lemma_all_well_keyed(views, i as int);
                assert(values@.map_values(|item: serde_json::Value| json_holds(item))
                    =~= before.push(json_holds(value)));
            }
        }
        i += 1;
    }
    assert(views.subrange(0, views.len() as int) =~= views);
    values
}

/// Makes the entries of the JSON library's value for a record.
fn json_entries(fields: &Vec<Field>) -> (r: Vec<(String, serde_json::Value)>)
    ensures
        distinct_fields(fields_shown(fields@)) ==> distinct_keys(r@),
        fields_well_keyed(fields_shown(fields@)) ==> json_entries_hold(r@) == fields_as_json(
            fields_shown(fields@),
        ),
    decreases fields,
{
    let ghost views = fields_shown(fields@);
    let mut entries: Vec<(String, serde_json::Value)> = Vec::new();
    let mut i: usize = 0;
    proof {
        lemma_fields_shown(fields@);
    }
    while i < fields.len()
        invariant
            i <= fields@.len(),
            views.len() == fields@.len(),
            forall|j: int|
                0 <= j < fields@.len() ==> views[j] == (
                    (#[trigger] fields@[j]).key@,
                    shown(fields@[j].value),
                ),
            entries@.len() == i,
            forall|j: int| 0 <= j < i ==> (#[trigger] entries@[j]).0@ == views[j].0,
            fields_well_keyed(views) ==> json_entries_hold(entries@) == fields_as_json(
                views.subrange(0, i as int),
            ),
        decreases fields@.len() - i,
    {
        let ghost before = entries@;
        let ghost longer = views.subrange(0, i as int + 1);
        assert(decreases_to!(fields@ => fields@[i as int]));
        assert(decreases_to!(fields@[i as int] => fields@[i as int].value));
        assert(decreases_to!(fields => fields@));
        let value: serde_json::Value = json_value(&fields[i].value);
        entries.push((fields[i].key.clone(), value));
        proof {
            assert(longer.subrange(0, i as int) =~= views.subrange(0, i as int));
            assert(entries@.drop_last() =~= before);
            if fields_well_keyed(views) {
                lemma_fields_well_keyed(views, i as int);
            }
        }
        i += 1;
    }
    assert(views.subrange(0, views.len() as int) =~= views);
    entries
}

/// Makes the JSON library's value for a document.
fn json_value(document: &Document) -> (r: serde_json::Value)
    ensures
        well_keyed(document@) ==> json_holds(r) == as_json(document@),
    decreases document,
{
    match document {
        Document::Text(text) => json_text(text.clone()),
        Document::Flag(flag) => json_flag(*flag),
        Document::List(items) => json_array(json_items(items)),
        Document::Record(fields) => json_object(json_entries(fields)),
    }
}

/// Makes the YAML library's values for a list of documents.
fn yaml_items(items: &Vec<Document>) -> (r: Vec<serde_yaml_ng::Value>)
    ensures
        all_well_keyed(all_shown(items@)) ==> r@.map_values(
            |item: serde_yaml_ng::Value| yaml_holds(item),
        ) == all_as_yaml(all_shown(items@)),
    decreases items,
{
    let ghost views = all_shown(items@);
    let mut values: Vec<serde_yaml_ng::Value> = Vec::new();
    let mut i: usize = 0;
    proof {
        lemma_all_shown(items@);
        assert(values@.map_values(|item: serde_yaml_ng::Value| yaml_holds(item)) =~= Seq::<
            YamlView,
        >::empty());
    }
    while i < items.len()
        invariant
            i <= items@.len(),
            views.len() == items@.len(),
            forall|j: int| 0 <= j < items@.len() ==> views[j] == shown(#[trigger] items@[j]),
            all_well_keyed(views) ==> values@.map_values(
                |item: serde_yaml_ng::Value| yaml_holds(item),
            ) == all_as_yaml(views.subrange(0, i as int)),
        decreases items@.len() - i,
    {
        let ghost before = values@.map_values(|item: serde_yaml_ng::Value| yaml_holds(item));
        let ghost longer = views.subrange(0, i as int + 1);
        assert(decreases_to!(items@ => items@[i as int]));
        assert(decreases_to!(items => items@));
        let value: serde_yaml_ng::Value = yaml_value(&items[i]);
        values.push(value);
        proof {
            assert(longer.subrange(0, i as int) =~= views.subrange(0, i as int));
            if all_well_keyed(views) {
                lemma_all_well_keyed(views, i as int);
                assert(values@.map_values(|item: serde_yaml_ng::Value| yaml_holds(item))
                    =~= before.push(yaml_holds(value)));
            }
        }
        i += 1;
    }
    assert(views.subrange(0, views.len() as int) =~= views);
    values
}

/// Makes the entries of the YAML library's value for a record.
fn yaml_entries(fields: &Vec<Field>) -> (r: Vec<(String, serde_yaml_ng::Value)>)
    ensures
        distinct_fields(fields_shown(fields@)) ==> distinct_keys(r@),
        fields_well_keyed(fields_shown(fields@)) ==> yaml_entries_hold(r@) == fields_as_yaml(
            fields_shown(fields@),
        ),
    decreases fields,
{
    let ghost views = fields_shown(fields@);
    let mut entries: Vec<(String, serde_yaml_ng::Value)> = Vec::new();
    let mut i: usize = 0;
    proof {
        lemma_fields_shown(fields@);
        assert(yaml_entries_hold(entries@) =~= Seq::<(YamlView, YamlView)>::empty());
    }
    while i < fields.len()
        invariant
            i <= fields@.len(),
            views.len() == fields@.len(),
            forall|j: int|
                0 <= j < fields@.len() ==> views[j] == (
                    (#[trigger] fields@[j]).key@,
                    shown(fields@[j].value),
                ),
            entries@.len() == i,
            forall|j: int| 0 <= j < i ==> (#[trigger] entries@[j]).0@ == views[j].0,
            fields_well_keyed(views) ==> yaml_entries_hold(entries@) == fields_as_yaml(
                views.subrange(0, i as int),
            ),
        decreases fields@.len() - i,
    {
        let ghost before = yaml_entries_hold(entries@);
        let ghost longer = views.subrange(0, i as int + 1);
        assert(decreases_to!(fields@ => fields@[i as int]));
        assert(decreases_to!(fields@[i as int] => fields@[i as int].value));
        assert(decreases_to!(fields => fields@));
        let value: serde_yaml_ng::Value = yaml_value(&fields[i].value);
        entries.push((fields[i].key.clone(), value));
        proof {
            assert(longer.subrange(0, i as int) =~= views.subrange(0, i as int));
            assert(yaml_entries_hold(entries@) =~= before.push(
                (YamlView::Text(fields@[i as int].key@), yaml_holds(value)),
            ));
            if fields_well_keyed(views) {
                lemma_fields_well_keyed(views, i as int);
            }
        }
        i += 1;
    }
    assert(views.subrange(0, views.len() as int) =~= views);
    entries
}

/// Makes the YAML library's value for a document.
fn yaml_value(document: &Document) -> (r: serde_yaml_ng::Value)
    ensures
        well_keyed(document@) ==> yaml_holds(r) == as_yaml(document@),
    decreases document,
{
    match document {
        Document::Text(text) => yaml_text(text.clone()),
        Document::Flag(flag) => yaml_flag(*flag),
        Document::List(items) => yaml_sequence(yaml_items(items)),
        Document::Record(fields) => yaml_mapping(yaml_entries(fields)),
    }
}

/// The bytes of a document in indented JSON.
pub open spec fn json_of(document: DocumentView) -> Seq<u8> {
    pretty_json_of(as_json(document))
}

/// Writes a document in indented JSON.
pub fn to_json(document: &Document) -> (r: Result<Vec<u8>, serde_json::Error>)
    requires
        well_keyed(document@),
    ensures
        r matches Ok(bytes) && bytes@ == json_of(document@),
{
    let value: serde_json::Value = json_value(document);
    json_bytes(&value)
}

/// The text of a document in YAML, where it can be written.
pub open spec fn yaml_of(document: DocumentView) -> Option<Seq<char>> {
    written_yaml_of(as_yaml(document))
}

/// Writes a document in YAML.
pub fn to_yaml(document: &Document) -> (r: Result<String, serde_yaml_ng::Error>)
    requires
        well_keyed(document@),
    ensures
        r is Ok == yaml_of(document@) is Some,
        r matches Ok(text) ==> yaml_of(document@) == Some(text@),
{
    let value: serde_yaml_ng::Value = yaml_value(document);
    write_yaml(&value)
}

/// A document that is text.
pub fn text(value: &str) -> (r: Document)
    ensures
        r@ == DocumentView::Text(value@),
        well_keyed(r@),
{
    Document::Text(value.to_owned())
}

/// A document that is a flag.
pub fn flag(value: bool) -> (r: Document)
    ensures
        r@ == DocumentView::Flag(value),
        well_keyed(r@),
{
    Document::Flag(value)
}

/// A list of one document.
pub fn list1(item: Document) -> (r: Document)
    ensures
        r@ == DocumentView::List(seq![item@]),
        well_keyed(item@) ==> well_keyed(r@),
{
    let r: Document = Document::List(vec![item]);
    proof {
        lemma_all_shown(r->List_0@);
        assert(r@->List_0 =~= seq![item@]);
        if well_keyed(item@) {
            lemma_keyed_items(r@->List_0);
        }
    }
    r
}

/// A record of one field.
pub fn record1(key: &str, value: Document) -> (r: Document)
    ensures
        r@ == DocumentView::Record(seq![(key@, value@)]),
        well_keyed(value@) ==> well_keyed(r@),
{
    let r: Document = Document::Record(vec![Field { key: key.to_owned(), value }]);
    proof {
        lemma_fields_shown(r->Record_0@);
        assert(r@->Record_0 =~= seq![(key@, value@)]);
        if well_keyed(value@) {
            lemma_keyed_fields(r@->Record_0);
        }
    }
    r
}

/// A record of two fields.
pub fn record2(
    k1: &str,
    v1: Document,
    k2: &str,
    v2: Document,
) -> (r: Document)
    ensures
        r@ == DocumentView::Record(seq![(k1@, v1@), (k2@, v2@)]),
        well_keyed(v1@) && well_keyed(v2@) && k1@ != k2@ ==> well_keyed(r@),
{
    let r: Document = Document::Record(
        vec![
            Field { key: k1.to_owned(), value: v1 },
            Field { key: k2.to_owned(), value: v2 },
        ],
    );
    proof {
        lemma_fields_shown(r->Record_0@);
        assert(r@->Record_0 =~= seq![(k1@, v1@), (k2@, v2@)]);
        if well_keyed(v1@) && well_keyed(v2@) {
            lemma_keyed_fields(r@->Record_0);
        }
    }
    r
}

/// A record of three fields.
pub fn record3(
    k1: &str,
    v1: Document,
    k2: &str,
    v2: Document,
    k3: &str,
    v3: Document,
) -> (r: Document)
    ensures
        r@ == DocumentView::Record(seq![(k1@, v1@), (k2@, v2@), (k3@, v3@)]),
        ({
            &&& well_keyed(v1@)
            &&& well_keyed(v2@)
            &&& well_keyed(v3@)
            &&& k1@ != k2@
            &&& k1@ != k3@
            &&& k2@ != k3@
        }) ==> well_keyed(r@),
{
    let r: Document = Document::Record(
        vec![
            Field { key: k1.to_owned(), value: v1 },
            Field { key: k2.to_owned(), value: v2 },
            Field { key: k3.to_owned(), value: v3 },
        ],
    );
    proof {
        lemma_fields_shown(r->Record_0@);
        assert(r@->Record_0 =~= seq![(k1@, v1@), (k2@, v2@), (k3@, v3@)]);
        if well_keyed(v1@) && well_keyed(v2@) && well_keyed(v3@) {
            lemma_keyed_fields(r@->Record_0);
        }
    }
    r
}

/// A record of five fields.
pub fn record5(
    k1: &str,
    v1: Document,
    k2: &str,
    v2: Document,
    k3: &str,
    v3: Document,
    k4: &str,
    v4: Document,
    k5: &str,
    v5: Document,
) -> (r: Document)
    ensures
        r@ == DocumentView::Record(seq![(k1@, v1@), (k2@, v2@), (k3@, v3@), (k4@, v4@), (k5@, v5@)]),
        ({
            &&& well_keyed(v1@)
            &&& well_keyed(v2@)
            &&& well_keyed(v3@)
            &&& well_keyed(v4@)
            &&& well_keyed(v5@)
            &&& k1@ != k2@
            &&& k1@ != k3@
            &&& k1@ != k4@
            &&& k1@ != k5@
            &&& k2@ != k3@
            &&& k2@ != k4@
            &&& k2@ != k5@
            &&& k3@ != k4@
            &&& k3@ != k5@
            &&& k4@ != k5@
        }) ==> well_keyed(r@),
{
    let r: Document = Document::Record(
        vec![
            Field { key: k1.to_owned(), value: v1 },
            Field { key: k2.to_owned(), value: v2 },
            Field { key: k3.to_owned(), value: v3 },
            Field { key: k4.to_owned(), value: v4 },
            Field { key: k5.to_owned(), value: v5 },
        ],
    );
    proof {
        lemma_fields_shown(r->Record_0@);
        assert(r@->Record_0 =~= seq![(k1@, v1@), (k2@, v2@), (k3@, v3@), (k4@, v4@), (k5@, v5@)]);
        if well_keyed(v1@)
            && well_keyed(v2@)
            && well_keyed(v3@)
            && well_keyed(v4@)
            && well_keyed(v5@) {
            lemma_keyed_fields(r@->Record_0);
        }
    }
    r
}

/// What a record has under a key: the first entry with that key.
pub open spec fn field(document: DocumentView, key: Seq<char>) -> Option<DocumentView> {
    match document {
        DocumentView::Record(fields) => entry(fields, key),
        _ => None,
    }
}

/// The first of some entries with a key.
pub open spec fn entry(fields: Seq<(Seq<char>, DocumentView)>, key: Seq<char>) -> Option<
    DocumentView,
>
    decreases fields.len(),
{
    if fields.len() == 0 {
        None
    } else if fields[0].0 == key {
        Some(fields[0].1)
    } else {
        entry(fields.skip(1), key)
    }
}

/// What stands under each key of a record of one, two or three entries.
pub proof fn lemma_fields(
    a: (Seq<char>, DocumentView),
    b: (Seq<char>, DocumentView),
    c: (Seq<char>, DocumentView),
)
    ensures
        field(DocumentView::Record(seq![a]), a.0) == Some(a.1),
        field(DocumentView::Record(seq![a, b]), a.0) == Some(a.1),
        a.0 != b.0 ==> field(DocumentView::Record(seq![a, b]), b.0) == Some(b.1),
        field(DocumentView::Record(seq![a, b, c]), a.0) == Some(a.1),
        a.0 != b.0 ==> field(DocumentView::Record(seq![a, b, c]), b.0) == Some(b.1),
        a.0 != c.0 && b.0 != c.0 ==> field(DocumentView::Record(seq![a, b, c]), c.0) == Some(c.1),
{
    reveal_with_fuel(entry, 4);
    assert(seq![a, b].skip(1) =~= seq![b]);
    assert(seq![a, b, c].skip(1) =~= seq![b, c]);
    assert(seq![b, c].skip(1) =~= seq![c]);
}

/// A record has under a key what its first entry with that key holds.
pub proof fn lemma_entry_at(fields: Seq<(Seq<char>, DocumentView)>, i: int)
    requires
        0 <= i < fields.len(),
        forall|j: int| 0 <= j < i ==> (#[trigger] fields[j]).0 != fields[i].0,
    ensures
        field(DocumentView::Record(fields), fields[i].0) == Some(fields[i].1),
    decreases i,
{
    if i > 0 {
        let rest = fields.skip(1);
        assert(fields[0].0 != fields[i].0);
        assert forall|j: int| 0 <= j < i - 1 implies (#[trigger] rest[j]).0 != rest[i - 1].0 by {
            assert(rest[j] == fields[j + 1]);
        }
        lemma_entry_at(rest, i - 1);
    }
}

/// A document says what stands in it: its text, its flag, each item of its list at its place, and
/// each field of its record at its place and under its key.
pub proof fn law_documents_say_what_stands_in_them(document: Document, i: int)
    ensures
        match document {
            Document::Text(text) => document@ == DocumentView::Text(text@),
            Document::Flag(flag) => document@ == DocumentView::Flag(flag),
            Document::List(items) => document@ matches DocumentView::List(said) && said.len()
                == items@.len() && (0 <= i < said.len() ==> said[i] == items@[i]@),
            Document::Record(fields) => document@ matches DocumentView::Record(said) && said.len()
                == fields@.len() && (0 <= i < said.len() ==> said[i].0 == fields@[i].key@
                && said[i].1 == fields@[i].value@),
        },
{
    match document {
        Document::List(items) => {
            lemma_all_shown(items@);
            if 0 <= i < items@.len() {
                assert(items@[i] == items@[i]);
            }
        },
        Document::Record(fields) => {
            lemma_fields_shown(fields@);
            if 0 <= i < fields@.len() {
                assert(fields@[i] == fields@[i]);
            }
        },
        _ => {},
    }
}

proof fn lemma_items_keep_their_places(items: Seq<DocumentView>, i: int)
    requires
        0 <= i < items.len(),
    ensures
        all_as_json(items).len() == items.len(),
        all_as_json(items)[i] == as_json(items[i]),
        all_as_yaml(items).len() == items.len(),
        all_as_yaml(items)[i] == as_yaml(items[i]),
    decreases items.len(),
{
    let shorter = items.subrange(0, items.len() - 1);
    if i < items.len() - 1 {
        lemma_items_keep_their_places(shorter, i);
        assert(shorter[i] == items[i]);
    } else if items.len() > 1 {
        lemma_items_keep_their_places(shorter, 0);
    } else {
        assert(all_as_json(shorter).len() == 0);
        assert(all_as_yaml(shorter).len() == 0);
    }
}

proof fn lemma_entries_keep_their_keys(fields: Seq<(Seq<char>, DocumentView)>, i: int)
    requires
        0 <= i < fields.len(),
    ensures
        fields_as_yaml(fields).len() == fields.len(),
        fields_as_yaml(fields)[i] == (YamlView::Text(fields[i].0), as_yaml(fields[i].1)),
        fields_as_json(fields).contains_key(fields[i].0),
        distinct_fields(fields) ==> fields_as_json(fields)[fields[i].0] == as_json(fields[i].1),
    decreases fields.len(),
{
    let shorter = fields.subrange(0, fields.len() - 1);
    if i < fields.len() - 1 {
        lemma_entries_keep_their_keys(shorter, i);
        assert(shorter[i] == fields[i]);
        if distinct_fields(fields) {
            assert forall|j: int, k: int| 0 <= j < k < shorter.len() implies shorter[j].0
                != shorter[k].0 by {
                assert(fields[j].0 != fields[k].0);
            }
            assert(fields[i].0 != fields[fields.len() - 1].0);
        }
    } else if fields.len() > 1 {
        lemma_entries_keep_their_keys(shorter, 0);
    } else {
        assert(fields_as_yaml(shorter).len() == 0);
    }
}

proof fn lemma_no_other_keys(fields: Seq<(Seq<char>, DocumentView)>, key: Seq<char>) -> (at: int)
    requires
        fields_as_json(fields).contains_key(key),
    ensures
        0 <= at < fields.len(),
        fields[at].0 == key,
    decreases fields.len(),
{
    let last: int = fields.len() - 1;
    if fields.len() > 0 && fields[last].0 == key {
        last
    } else {
        let shorter = fields.subrange(0, fields.len() - 1);
        let at = lemma_no_other_keys(shorter, key);
        assert(shorter[at] == fields[at]);
        at
    }
}

/// Both formats say what the document says: a text stays the text, a flag the flag, a list has its
/// items at their places, and a record has its fields under their keys, in YAML in order.
pub proof fn law_formats_say_what_the_document_says(document: DocumentView, i: int)
    ensures
        match document {
            DocumentView::Text(text) => as_json(document) == JsonView::Text(text) && as_yaml(
                document,
            ) == YamlView::Text(text),
            DocumentView::Flag(flag) => as_json(document) == JsonView::Flag(flag) && as_yaml(
                document,
            ) == YamlView::Flag(flag),
            DocumentView::List(items) => {
                &&& as_json(document) is Array
                &&& as_yaml(document) is Sequence
                &&& items.len() == 0 ==> as_json(document)->Array_0.len() == 0 && as_yaml(
                    document,
                )->Sequence_0.len() == 0
                &&& 0 <= i < items.len() ==> {
                    &&& as_json(document)->Array_0.len() == items.len()
                    &&& as_yaml(document)->Sequence_0.len() == items.len()
                    &&& as_json(document)->Array_0[i] == as_json(items[i])
                    &&& as_yaml(document)->Sequence_0[i] == as_yaml(items[i])
                }
            },
            DocumentView::Record(fields) => {
                &&& as_json(document) is Object
                &&& as_yaml(document) is Mapping
                &&& fields.len() == 0 ==> as_yaml(document)->Mapping_0.len() == 0
                &&& 0 <= i < fields.len() ==> {
                    &&& as_json(document)->Object_0.contains_key(fields[i].0)
                    &&& distinct_fields(fields) ==> as_json(document)->Object_0[fields[i].0]
                        == as_json(fields[i].1)
                    &&& as_yaml(document)->Mapping_0.len() == fields.len()
                    &&& as_yaml(document)->Mapping_0[i] == (
                        YamlView::Text(fields[i].0),
                        as_yaml(fields[i].1),
                    )
                }
            },
        },
{
    match document {
        DocumentView::List(items) => {
            if 0 <= i < items.len() {
                lemma_items_keep_their_places(items, i);
            }
        },
        DocumentView::Record(fields) => {
            if 0 <= i < fields.len() {
                lemma_entries_keep_their_keys(fields, i);
            }
        },
        _ => {},
    }
}

/// An object has no entry that the record does not have.
pub proof fn law_objects_have_no_other_keys(
    fields: Seq<(Seq<char>, DocumentView)>,
    key: Seq<char>,
) -> (at: int)
    requires
        as_json(DocumentView::Record(fields)) matches JsonView::Object(entries)
            && entries.contains_key(key),
    ensures
        0 <= at < fields.len(),
        fields[at].0 == key,
{
    lemma_no_other_keys(fields, key)
}

/// A record is well keyed only where no two of its fields have the same key and all that it holds
/// is well keyed too; a list, where all that it holds is.
pub proof fn law_no_key_is_used_twice(document: DocumentView, i: int, j: int)
    requires
        well_keyed(document),
    ensures
        document matches DocumentView::Record(fields) ==> {
            &&& 0 <= i < j < fields.len() ==> fields[i].0 != fields[j].0
            &&& 0 <= i < fields.len() ==> well_keyed(fields[i].1)
        },
        document matches DocumentView::List(items) ==> (0 <= i < items.len() ==> well_keyed(
            items[i],
        )),
{
    match document {
        DocumentView::Record(fields) => {
            if 0 <= i < fields.len() {
                lemma_fields_well_keyed(fields, i);
            }
        },
        DocumentView::List(items) => {
            if 0 <= i < items.len() {
                lemma_all_well_keyed(items, i);
            }
        },
        _ => {},
    }
}

} // verus!
