//! The fields of the full-text index.

use obsidian_mcp::vault::tantivy_index::TantivySchema;

#[test]
fn schema_has_expected_fields() {
    let ts = TantivySchema::build();

    assert_eq!(ts.schema.get_field_name(ts.f_path), "path");
    assert_eq!(ts.schema.get_field_name(ts.f_title), "title");
    assert_eq!(ts.schema.get_field_name(ts.f_headings), "headings");
    assert_eq!(ts.schema.get_field_name(ts.f_tags), "tags");
    assert_eq!(ts.schema.get_field_name(ts.f_body), "body");
    assert_eq!(ts.schema.get_field_name(ts.f_frontmatter_text), "frontmatter_text");
}

#[test]
fn path_field_is_stored_and_string_indexed() {
    let ts = TantivySchema::build();
    let entry = ts.schema.get_field_entry(ts.f_path);

    assert!(entry.is_stored());
    assert!(entry.is_indexed());
}

#[test]
fn title_field_is_stored_and_stemmed() {
    let ts = TantivySchema::build();
    let entry = ts.schema.get_field_entry(ts.f_title);

    assert!(entry.is_stored());
    assert!(entry.is_indexed());
}

#[test]
fn body_field_is_not_stored() {
    let ts = TantivySchema::build();
    let entry = ts.schema.get_field_entry(ts.f_body);

    assert!(!entry.is_stored());
    assert!(entry.is_indexed());
}

#[test]
fn headings_field_is_not_stored() {
    let ts = TantivySchema::build();
    let entry = ts.schema.get_field_entry(ts.f_headings);

    assert!(!entry.is_stored());
    assert!(entry.is_indexed());
}

#[test]
fn tags_field_is_facet_and_stored() {
    let ts = TantivySchema::build();
    let entry = ts.schema.get_field_entry(ts.f_tags);

    assert!(entry.is_stored());
}

#[test]
fn schema_field_count() {
    let ts = TantivySchema::build();

    assert_eq!(ts.schema.num_fields(), 6);
}

#[test]
fn stemmed_fields_keep_positions() {
    has_options("title", "en_stem", true);
    has_options("body", "en_stem", true);
    has_options("frontmatter_text", "en_stem", true);
    has_options("path", "raw", false);
}

fn has_options(name: &str, tokenizer: &str, positions: bool) {
    let ts = TantivySchema::build();
    let field = ts.schema.get_field(name).expect("the field exists");
    match ts.schema.get_field_entry(field).field_type() {
        tantivy::schema::FieldType::Str(options) => {
            let indexing = options.get_indexing_options().expect("the field is indexed");
            assert_eq!(indexing.tokenizer(), tokenizer);
            assert_eq!(indexing.index_option().has_positions(), positions);
        }
        other => panic!("unexpected {other:?}"),
    }
}
