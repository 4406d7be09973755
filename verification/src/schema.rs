use vstd::prelude::*;

use tantivy::schema::{Field, NumericOptions, Schema, SchemaBuilder, TextOptions};
use tantivy::TantivyDocument;

use crate::types::FileEntry;

verus! {

/// A Tantivy schema: the fields of an index.
#[verifier::external_type_specification]
#[verifier::external_body]
pub struct ExSchema(tantivy::schema::Schema);

/// A Tantivy schema under construction.
#[verifier::external_type_specification]
#[verifier::external_body]
pub struct ExSchemaBuilder(tantivy::schema::SchemaBuilder);

/// A handle on one field of a Tantivy schema.
#[verifier::external_type_specification]
#[verifier::external_body]
pub struct ExField(tantivy::schema::Field);

/// How Tantivy indexes and stores a numeric field.
#[verifier::external_type_specification]
#[verifier::external_body]
pub struct ExNumericOptions(tantivy::schema::NumericOptions);

/// How Tantivy indexes and stores a text field.
#[verifier::external_type_specification]
#[verifier::external_body]
pub struct ExTextOptions(tantivy::schema::TextOptions);

/// How a numeric field is handled, as plain values: whether it is
/// indexed, has fieldnorms, is stored, is a fast field, and coerces its
/// values.
pub type NumericFlags = (bool, bool, bool, bool, bool);

/// How a text field is indexed, as plain values: the tokenizer's name,
/// the record option (0 for document ids only, 1 with term frequencies,
/// 2 with frequencies and positions) and whether it has fieldnorms.
pub type TextIndexing = (Seq<char>, u8, bool);

/// How a text field is handled, as plain values: its indexing (none when
/// it is not indexed), whether it is stored, whether it is a fast field,
/// and whether it coerces its values.
pub type TextSettings = (Option<TextIndexing>, bool, bool, bool);

/// One field of a schema, as plain values: its name, its type (0 for an
/// unsigned 64-bit field, 1 for a text field), and the options of that
/// type (those of the other type are left at their defaults).
pub type FieldModel = (Seq<char>, u8, NumericFlags, TextSettings);

/// What `NumericOptions` holds.
pub uninterp spec fn numeric_option_flags(o: NumericOptions) -> NumericFlags;

/// What `TextOptions` holds.
pub uninterp spec fn text_option_settings(o: TextOptions) -> TextSettings;

/// The fields added to a schema builder, in order.
pub uninterp spec fn builder_fields(b: SchemaBuilder) -> Seq<FieldModel>;

/// The fields of a schema, in order.
pub uninterp spec fn schema_fields(s: Schema) -> Seq<FieldModel>;

/// An unsigned 64-bit field named `name` with options `flags`.
pub open spec fn u64_field(name: Seq<char>, flags: NumericFlags) -> FieldModel {
    (name, 0u8, flags, (None, false, false, false))
}

/// A text field named `name` with options `settings`.
pub open spec fn text_field(name: Seq<char>, settings: TextSettings) -> FieldModel {
    (name, 1u8, (false, false, false, false, false), settings)
}

/// The names of `fields`, in order.
pub open spec fn field_names(fields: Seq<FieldModel>) -> Seq<Seq<char>> {
    fields.map_values(|f: FieldModel| f.0)
}

/// A name Tantivy accepts for a field: not empty, and not starting with
/// `-`.
pub open spec fn is_valid_field_name(name: Seq<char>) -> bool {
    name.len() > 0 && name[0] != '-'
}

/// `Schema::builder`: a builder with no field yet.
#[verifier::external_body]
fn new_schema_builder() -> (b: SchemaBuilder)
    ensures
        builder_fields(b) == Seq::<FieldModel>::empty(),
{
    Schema::builder()
}

/// `SchemaBuilder::add_u64_field`: appends an unsigned 64-bit field named
/// `name`, with `options`, to the builder's fields. It panics when the
/// name is taken, or is not a valid field name (empty, or starting with
/// `-`), which `requires` rules out.
#[verifier::external_body]
fn add_u64_field(b: &mut SchemaBuilder, name: &str, options: NumericOptions) -> (f: Field)
    requires
        is_valid_field_name(name@),
        !field_names(builder_fields(*old(b))).contains(name@),
    ensures
        builder_fields(*final(b)) == builder_fields(*old(b)).push(
            u64_field(name@, numeric_option_flags(options)),
        ),
{
    b.add_u64_field(name, options)
}

/// `SchemaBuilder::add_text_field`: appends a text field named `name`,
/// with `options`, to the builder's fields. It panics when the name is
/// taken, or is not a valid field name (empty, or starting with `-`),
/// which `requires` rules out.
#[verifier::external_body]
fn add_text_field(b: &mut SchemaBuilder, name: &str, options: TextOptions) -> (f: Field)
    requires
        is_valid_field_name(name@),
        !field_names(builder_fields(*old(b))).contains(name@),
    ensures
        builder_fields(*final(b)) == builder_fields(*old(b)).push(
            text_field(name@, text_option_settings(options)),
        ),
{
    b.add_text_field(name, options)
}

/// `SchemaBuilder::build`: a schema with the builder's fields.
#[verifier::external_body]
fn finish_schema(b: SchemaBuilder) -> (s: Schema)
    ensures
        schema_fields(s) == builder_fields(b),
{
    b.build()
}

/// `Schema::get_field(name).is_ok()`: the schema has a field named `name`
/// (the lookup goes through the map from each field's name to the field).
#[verifier::external_body]
fn schema_has_field(s: &Schema, name: &str) -> (r: bool)
    ensures
        r == field_names(schema_fields(*s)).contains(name@),
{
    s.get_field(name).is_ok()
}

/// `NumericOptions::default`: neither indexed, with fieldnorms, stored,
/// fast, nor coercing.
pub assume_specification[ <NumericOptions as core::default::Default>::default ]() -> (r:
    NumericOptions)
    ensures
        numeric_option_flags(r) == (false, false, false, false, false),
;

/// `NumericOptions::set_indexed`: the same options, indexed.
pub assume_specification[ NumericOptions::set_indexed ](o: NumericOptions) -> (r: NumericOptions)
    ensures
        numeric_option_flags(r) == (
            true,
            numeric_option_flags(o).1,
            numeric_option_flags(o).2,
            numeric_option_flags(o).3,
            numeric_option_flags(o).4,
        ),
;

/// `NumericOptions::set_fieldnorm`: the same options, with fieldnorms.
pub assume_specification[ NumericOptions::set_fieldnorm ](o: NumericOptions) -> (r:
    NumericOptions)
    ensures
        numeric_option_flags(r) == (
            numeric_option_flags(o).0,
            true,
            numeric_option_flags(o).2,
            numeric_option_flags(o).3,
            numeric_option_flags(o).4,
        ),
;

/// `NumericOptions::set_stored`: the same options, stored.
pub assume_specification[ NumericOptions::set_stored ](o: NumericOptions) -> (r: NumericOptions)
    ensures
        numeric_option_flags(r) == (
            numeric_option_flags(o).0,
            numeric_option_flags(o).1,
            true,
            numeric_option_flags(o).3,
            numeric_option_flags(o).4,
        ),
;

/// `TextOptions::set_stored`: the same options, stored.
pub assume_specification[ TextOptions::set_stored ](o: TextOptions) -> (r: TextOptions)
    ensures
        text_option_settings(r) == (
            text_option_settings(o).0,
            true,
            text_option_settings(o).2,
            text_option_settings(o).3,
        ),
;

/// Tantivy's `STRING` options: indexed whole, as one untokenized term,
/// through the `raw` tokenizer, recording document ids only, with
/// fieldnorms; not stored, not fast, not coercing.
#[verifier::external_body]
fn untokenized_text() -> (r: TextOptions)
    ensures
        text_option_settings(r) == (Some(("raw"@, 0u8, true)), false, false, false),
{
    tantivy::schema::STRING
}

/// Tantivy's `TEXT` options: indexed through the `default` tokenizer,
/// recording frequencies and positions, with fieldnorms; not stored, not
/// fast, not coercing.
#[verifier::external_body]
fn tokenized_text() -> (r: TextOptions)
    ensures
        text_option_settings(r) == (Some(("default"@, 2u8, true)), false, false, false),
{
    tantivy::schema::TEXT
}

/// The fields of the search index.
pub open spec fn expected_schema_fields() -> Seq<FieldModel> {
    seq![
        u64_field("id"@, (true, true, true, false, false)),
        text_field("kind"@, (Some(("raw"@, 0u8, true)), true, false, false)),
        text_field("path"@, (Some(("raw"@, 0u8, true)), true, false, false)),
        text_field("name"@, (Some(("default"@, 2u8, true)), true, false, false)),
    ]
}

/// The names of the fields the search index needs.
pub open spec fn expected_field_names() -> Seq<Seq<char>> {
    seq!["id"@, "kind"@, "path"@, "name"@]
}

/// The schema of the search index: `id`, an unsigned integer, indexed
/// with fieldnorms and stored; `kind` and `path`, stored text indexed
/// whole by the raw tokenizer (so a document can be deleted by its
/// exact path); and `name`, stored text indexed through the default
/// tokenizer with positions, for full-text search.
pub fn build_schema() -> (s: Schema)
    ensures
        schema_fields(s) == expected_schema_fields(),
{
    proof {
        reveal_strlit("id");
        reveal_strlit("kind");
        reveal_strlit("path");
        reveal_strlit("name");
    }
    let mut b = new_schema_builder();
    let id_options = NumericOptions::default().set_indexed().set_fieldnorm().set_stored();
    add_u64_field(&mut b, "id", id_options);
    let ghost f1 = builder_fields(b);
    assert(field_names(f1) =~= seq!["id"@]);
    assert(!seq!["id"@].contains("kind"@)) by {
        assert("id"@.len() != "kind"@.len());
    }
    add_text_field(&mut b, "kind", untokenized_text().set_stored());
    let ghost f2 = builder_fields(b);
    assert(field_names(f2) =~= seq!["id"@, "kind"@]);
    assert(!seq!["id"@, "kind"@].contains("path"@)) by {
        assert("id"@.len() != "path"@.len());
        assert("kind"@[0] != "path"@[0]);
    }
    add_text_field(&mut b, "path", untokenized_text().set_stored());
    let ghost f3 = builder_fields(b);
    assert(field_names(f3) =~= seq!["id"@, "kind"@, "path"@]);
    assert(!seq!["id"@, "kind"@, "path"@].contains("name"@)) by {
        assert("id"@.len() != "name"@.len());
        assert("kind"@[0] != "name"@[0]);
        assert("path"@[0] != "name"@[0]);
    }
    add_text_field(&mut b, "name", tokenized_text().set_stored());
    let s = finish_schema(b);
    assert(schema_fields(s) =~= expected_schema_fields());
    s
}

/// The schema has every field the search index needs.
pub open spec fn spec_has_expected_fields(s: Schema) -> bool {
    let names = field_names(schema_fields(s));
    names.contains("id"@) && names.contains("kind"@) && names.contains("path"@) && names.contains(
        "name"@,
    )
}

/// Whether an existing index's schema has every field the search index
/// needs (`id`, `kind`, `path` and `name`).
pub fn has_expected_fields(schema: &Schema) -> (r: bool)
    ensures
        r == spec_has_expected_fields(*schema),
{
    schema_has_field(schema, "id") && schema_has_field(schema, "kind") && schema_has_field(
        schema,
        "path",
    ) && schema_has_field(schema, "name")
}

/// An existing index counts as having the expected fields exactly when
/// its schema has a field of every name that `build_schema` gives its
/// fields (`id`, `kind`, `path` and `name`); an index missing any one of
/// them is recreated.
pub proof fn lemma_expected_fields_are_the_built_ones(s: Schema)
    ensures
        spec_has_expected_fields(s) <==> (forall|n: Seq<char>|
            #[trigger] field_names(expected_schema_fields()).contains(n) ==> field_names(
                schema_fields(s),
            ).contains(n)),
{
    let e = field_names(expected_schema_fields());
    assert(e =~= expected_field_names());
    assert(e[0] == "id"@ && e[1] == "kind"@ && e[2] == "path"@ && e[3] == "name"@);
    if spec_has_expected_fields(s) {
        assert forall|n: Seq<char>| #[trigger] e.contains(n) implies field_names(
            schema_fields(s),
        ).contains(n) by {
            let k = choose|k: int| 0 <= k < e.len() && e[k] == n;
            assert(k == 0 || k == 1 || k == 2 || k == 3);
        }
    }
    if forall|n: Seq<char>| #[trigger] e.contains(n) ==> field_names(schema_fields(s)).contains(n) {
        assert(e.contains(e[0]));
        assert(e.contains(e[1]));
        assert(e.contains(e[2]));
        assert(e.contains(e[3]));
    }
}

/// An index built with the schema of `build_schema` is never taken for a
/// stale one: that schema has every expected field.
pub proof fn lemma_built_schema_has_expected_fields(s: Schema)
    requires
        schema_fields(s) == expected_schema_fields(),
    ensures
        spec_has_expected_fields(s),
{
    let names = field_names(schema_fields(s));
    assert(names =~= expected_field_names());
    assert(names[0] == "id"@);
    assert(names[1] == "kind"@);
    assert(names[2] == "path"@);
    assert(names[3] == "name"@);
}

/// A Tantivy document: the values of its fields.
#[verifier::external_type_specification]
#[verifier::external_body]
pub struct ExTantivyDocument(tantivy::TantivyDocument);

/// A value of a document field, as a plain value.
pub enum FieldValue {
    U64(u64),
    Text(Seq<char>),
}

/// The number a field has in its schema (`Field::field_id`).
pub uninterp spec fn field_number(f: Field) -> u32;

/// What a document holds: one (field number, value) pair per value
/// added, in the order they were added.
pub uninterp spec fn document_entries(d: TantivyDocument) -> Seq<(u32, FieldValue)>;

/// `TantivyDocument::default`: a document with no value yet.
#[verifier::external_body]
fn new_document() -> (d: TantivyDocument)
    ensures
        document_entries(d) == Seq::<(u32, FieldValue)>::empty(),
{
    TantivyDocument::default()
}

/// `TantivyDocument::add_u64`: appends the pair of `field`'s number and
/// `value`. It panics when the field's number does not fit in 16 bits,
/// which `requires` rules out.
#[verifier::external_body]
fn add_u64_value(d: &mut TantivyDocument, field: Field, value: u64)
    requires
        field_number(field) <= 0xFFFF,
    ensures
        document_entries(*final(d)) == document_entries(*old(d)).push(
            (field_number(field), FieldValue::U64(value)),
        ),
{
    d.add_u64(field, value)
}

/// `TantivyDocument::add_text`: appends the pair of `field`'s number and
/// `text`. It panics when the field's number does not fit in 16 bits,
/// which `requires` rules out.
#[verifier::external_body]
fn add_text_value(d: &mut TantivyDocument, field: Field, text: &str)
    requires
        field_number(field) <= 0xFFFF,
    ensures
        document_entries(*final(d)) == document_entries(*old(d)).push(
            (field_number(field), FieldValue::Text(text@)),
        ),
{
    d.add_text(field, text)
}

/// The fields of the search index, as the schema of the open index
/// numbers them.
#[derive(Debug, Clone, Copy)]
pub struct IndexFields {
    pub id: Field,
    pub kind: Field,
    pub path: Field,
    pub name: Field,
}

/// Every field's number fits in 16 bits, as a document needs.
pub open spec fn fields_fit_documents(f: IndexFields) -> bool {
    &&& field_number(f.id) <= 0xFFFF
    &&& field_number(f.kind) <= 0xFFFF
    &&& field_number(f.path) <= 0xFFFF
    &&& field_number(f.name) <= 0xFFFF
}

/// The document indexed for `file`: its id, as an unsigned number, then
/// its kind, its path and its name as text.
pub open spec fn spec_entry_document(f: IndexFields, file: FileEntry) -> Seq<(u32, FieldValue)> {
    seq![
        (field_number(f.id), FieldValue::U64(file.id as u64)),
        (field_number(f.kind), FieldValue::Text(file.kind@)),
        (field_number(f.path), FieldValue::Text(file.path@)),
        (field_number(f.name), FieldValue::Text(file.name@)),
    ]
}

/// The search-index document for `file`: the id (its bits read as an
/// unsigned number), the kind, the full path (the term a document is
/// deleted by) and the name.
pub fn entry_document(fields: &IndexFields, file: &FileEntry) -> (d: TantivyDocument)
    requires
        fields_fit_documents(*fields),
    ensures
        document_entries(d) == spec_entry_document(*fields, *file),
{
    let mut d = new_document();
    add_u64_value(&mut d, fields.id, file.id as u64);
    add_text_value(&mut d, fields.kind, file.kind.as_str());
    add_text_value(&mut d, fields.path, file.path.as_str());
    add_text_value(&mut d, fields.name, file.name.as_str());
    assert(document_entries(d) =~= spec_entry_document(*fields, *file));
    d
}

/// What to do with the index directory at start-up.
#[derive(Debug, Clone, Copy, PartialEq, Eq, Structural)]
pub enum IndexOpenPlan {
    /// Use the index found there.
    Reuse,
    /// Clear the directory and create a new index in it.
    Recreate,
    /// Create a new index there.
    Create,
}

/// Decides what to do with the index directory: an index that opens and
/// has the expected fields is used, one that opens with another schema is
/// replaced, and where none opens a new one is created.
pub fn plan_index_open(opened: bool, has_fields: bool) -> (r: IndexOpenPlan)
    ensures
        r == (if !opened {
            IndexOpenPlan::Create
        } else if has_fields {
            IndexOpenPlan::Reuse
        } else {
            IndexOpenPlan::Recreate
        }),
{
    if !opened {
        IndexOpenPlan::Create
    } else if has_fields {
        IndexOpenPlan::Reuse
    } else {
        IndexOpenPlan::Recreate
    }
}

} // verus!
