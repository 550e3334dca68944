//! The fields of the full-text index.

use tantivy::schema::{
    Field, IndexRecordOption, Schema, SchemaBuilder, TextFieldIndexing, TextOptions, STORED, STRING,
};
use vstd::prelude::*;

verus! {

/// A schema under construction.
#[verifier::external_type_specification]
#[verifier::external_body]
pub struct ExSchemaBuilder(SchemaBuilder);

/// A finished schema.
#[verifier::external_type_specification]
#[verifier::external_body]
pub struct ExSchema(Schema);

/// The handle of a field.
#[verifier::external_type_specification]
#[verifier::external_body]
pub struct ExField(Field);

/// How a field is indexed.
pub enum FieldKind {
    /// Text that a tokenizer cuts into terms; `positions` tells whether their
    /// frequencies and positions are kept.
    Text { tokenizer: Seq<char>, positions: bool },
    /// A hierarchical label.
    Facet,
}

/// What a field of a schema is.
pub struct FieldPlan {
    pub name: Seq<char>,
    pub kind: FieldKind,
    /// Whether documents keep the value.
    pub stored: bool,
}

/// The fields of a schema under construction, each with its handle, in the order
/// in which they were added.
pub uninterp spec fn planned_fields(builder: SchemaBuilder) -> Seq<(Field, FieldPlan)>;

/// The fields of a schema, each with its handle, in their order.
pub uninterp spec fn schema_fields(schema: Schema) -> Seq<(Field, FieldPlan)>;

/// Whether a field can be added under a name: it is not empty, does not start
/// with a hyphen and is not taken.
pub open spec fn is_free_name(fields: Seq<(Field, FieldPlan)>, name: Seq<char>) -> bool {
    &&& name.len() > 0
    &&& name[0] != '-'
    &&& forall|i: int| 0 <= i < fields.len() ==> (#[trigger] fields[i]).1.name != name
}

/// `SchemaBuilder::new`: a schema without fields.
#[verifier::external_body]
fn empty_schema() -> (builder: SchemaBuilder)
    ensures
        planned_fields(builder) == Seq::<(Field, FieldPlan)>::empty(),
{
    SchemaBuilder::new()
}

/// `SchemaBuilder::add_text_field` with `STRING | STORED`: adds a stored text field
/// after the others whose value is one term of the raw tokenizer, kept without
/// positions, and returns its handle. It panics on a name that is empty, starts
/// with a hyphen or is taken.
#[verifier::external_body]
fn add_stored_keyword(builder: &mut SchemaBuilder, name: &str) -> (field: Field)
    requires
        is_free_name(planned_fields(*old(builder)), name@),
    ensures
        planned_fields(*final(builder)) == planned_fields(*old(builder)).push(
            (field, keyword_plan(name@)),
        ),
{
    builder.add_text_field(name, STRING | STORED)
}

/// `SchemaBuilder::add_text_field` with a tokenizer and `WithFreqsAndPositions`:
/// adds a text field after the others whose terms are kept with frequencies and
/// positions and whose value is not stored, and returns its handle. It panics on a
/// name that is empty, starts with a hyphen or is taken.
#[verifier::external_body]
fn add_text(builder: &mut SchemaBuilder, name: &str, tokenizer: &str) -> (field: Field)
    requires
        is_free_name(planned_fields(*old(builder)), name@),
    ensures
        planned_fields(*final(builder)) == planned_fields(*old(builder)).push(
            (field, text_plan(name@, tokenizer@, false)),
        ),
{
    let indexing = TextFieldIndexing::default()
        .set_tokenizer(tokenizer)
        .set_index_option(IndexRecordOption::WithFreqsAndPositions);
    builder.add_text_field(name, TextOptions::default().set_indexing_options(indexing))
}

/// `SchemaBuilder::add_text_field` with a tokenizer, `WithFreqsAndPositions` and
/// `set_stored`: as `add_text`, but the value is stored.
#[verifier::external_body]
fn add_stored_text(builder: &mut SchemaBuilder, name: &str, tokenizer: &str) -> (field: Field)
    requires
        is_free_name(planned_fields(*old(builder)), name@),
    ensures
        planned_fields(*final(builder)) == planned_fields(*old(builder)).push(
            (field, text_plan(name@, tokenizer@, true)),
        ),
{
    let indexing = TextFieldIndexing::default()
        .set_tokenizer(tokenizer)
        .set_index_option(IndexRecordOption::WithFreqsAndPositions);
    builder.add_text_field(name, TextOptions::default().set_indexing_options(indexing).set_stored())
}

/// `SchemaBuilder::add_facet_field` with `STORED`: adds a stored facet field after
/// the others and returns its handle. It panics on a name that is empty, starts
/// with a hyphen or is taken.
#[verifier::external_body]
fn add_stored_facet(builder: &mut SchemaBuilder, name: &str) -> (field: Field)
    requires
        is_free_name(planned_fields(*old(builder)), name@),
    ensures
        planned_fields(*final(builder)) == planned_fields(*old(builder)).push(
            (field, facet_plan(name@)),
        ),
{
    builder.add_facet_field(name, STORED)
}

/// `SchemaBuilder::build`: the schema with the added fields, in their order.
#[verifier::external_body]
fn finish_schema(builder: SchemaBuilder) -> (schema: Schema)
    ensures
        schema_fields(schema) == planned_fields(builder),
{
    builder.build()
}

/// A stored field whose value is one term.
pub open spec fn keyword_plan(name: Seq<char>) -> FieldPlan {
    FieldPlan {
        name,
        kind: FieldKind::Text { tokenizer: "raw"@, positions: false },
        stored: true,
    }
}

/// A field whose value is cut into terms with positions.
pub open spec fn text_plan(name: Seq<char>, tokenizer: Seq<char>, stored: bool) -> FieldPlan {
    FieldPlan { name, kind: FieldKind::Text { tokenizer, positions: true }, stored }
}

/// A stored facet.
pub open spec fn facet_plan(name: Seq<char>) -> FieldPlan {
    FieldPlan { name, kind: FieldKind::Facet, stored: true }
}

/// The schema of the notes with the handles of its fields.
pub struct TantivySchema {
    pub schema: Schema,
    /// The path of the note within the vault.
    pub f_path: Field,
    /// The title of the note.
    pub f_title: Field,
    /// The headings of the note.
    pub f_headings: Field,
    /// The tags of the note.
    pub f_tags: Field,
    /// The text of the note.
    pub f_body: Field,
    /// The values of the frontmatter.
    pub f_frontmatter_text: Field,
}

impl TantivySchema {
    /// The schema of the notes. Text is stemmed as English and kept with
    /// positions; path, title and tags are stored.
    pub fn build() -> (schema: TantivySchema)
        ensures
            schema_fields(schema.schema) == seq![
                (schema.f_path, keyword_plan("path"@)),
                (schema.f_title, text_plan("title"@, "en_stem"@, true)),
                (schema.f_headings, text_plan("headings"@, "en_stem"@, false)),
                (schema.f_tags, facet_plan("tags"@)),
                (schema.f_body, text_plan("body"@, "en_stem"@, false)),
                (schema.f_frontmatter_text, text_plan("frontmatter_text"@, "en_stem"@, false)),
            ],
    {
        proof {
            reveal_strlit("path");
            reveal_strlit("title");
            reveal_strlit("headings");
            reveal_strlit("tags");
            reveal_strlit("body");
            reveal_strlit("frontmatter_text");
            assert("path"@.len() == 4 && "title"@.len() == 5 && "headings"@.len() == 8);
            assert("tags"@.len() == 4 && "body"@.len() == 4 && "frontmatter_text"@.len() == 16);
            assert("path"@[0] == 'p' && "tags"@[0] == 't' && "body"@[0] == 'b');
        }
        let mut builder = empty_schema();
        let f_path = add_stored_keyword(&mut builder, "path");
        let f_title = add_stored_text(&mut builder, "title", "en_stem");
        let f_headings = add_text(&mut builder, "headings", "en_stem");
        let f_tags = add_stored_facet(&mut builder, "tags");
        let f_body = add_text(&mut builder, "body", "en_stem");
        let f_frontmatter_text = add_text(&mut builder, "frontmatter_text", "en_stem");
        let schema = finish_schema(builder);
        TantivySchema { schema, f_path, f_title, f_headings, f_tags, f_body, f_frontmatter_text }
    }
}

} // verus!
