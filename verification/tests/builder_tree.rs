//! The hierarchical builder: ordering, handles, and shared-handle
//! mutation.

use configger::builder::{Backend, Field, Model, Schema};
use configger::pipeline::{PrintPluginBackend, PrintPluginModel};

#[test]
fn children_keep_creation_order() {
    let mut model = Model::new("m");
    let x = model.new_int("x");
    let y = model.new_string("y");
    let z = model.new_datetime("z");
    assert_eq!((x, y, z), (0, 1, 2));
    let names: Vec<&str> = model.fields.iter().map(|f| f.name.as_str()).collect();
    assert_eq!(names, vec!["x", "y", "z"]);
}

#[test]
fn conversion_keeps_creation_order() {
    let mut model = Model::new("m");
    model.new_int("x");
    model.new_int("y");
    model.new_int("z");
    let view = PrintPluginModel::from(&model);
    let names: Vec<&str> = view.fields.iter().map(|f| f.name.as_str()).collect();
    assert_eq!(names, vec!["x", "y", "z"]);
}

#[test]
fn type_tags_match_factories() {
    let mut model = Model::new("m");
    model.new_int("a");
    model.new_string("b");
    model.new_datetime("c");
    assert_eq!(model.fields[0].ttype, "int64");
    assert_eq!(model.fields[1].ttype, "String");
    assert_eq!(model.fields[2].ttype, "DateTime");
}

#[test]
fn field_new_starts_with_empty_description() {
    let field = Field::new("id", "int64");
    assert_eq!(field.name, "id");
    assert_eq!(field.ttype, "int64");
    assert_eq!(field.desc, "");
}

#[test]
fn field_desc_replaces_description() {
    let mut field = Field::new("id", "int64");
    field.desc("primary key");
    assert_eq!(field.desc, "primary key");
    field.desc("changed");
    assert_eq!(field.desc, "changed");
}

#[test]
fn handle_mutation_is_visible_in_traversal() {
    let mut model = Model::new("m");
    let handle = model.new_int("id");
    model.field_at(handle).desc("set through the handle");
    // Reaching the same field by walking the model's collection sees the
    // description set through the handle.
    assert_eq!(model.fields[handle].desc, "set through the handle");

    model.describe_field(handle, "replaced");
    assert_eq!(model.fields[handle].desc, "replaced");
}

#[test]
fn handles_reach_nested_children() {
    let mut backend = Backend::new();
    let s = backend.new_schema("store");
    let m = backend.schema_at(s).new_model("orders");
    let f = backend.schema_at(s).model_at(m).new_int("id");
    backend.schema_at(s).model_at(m).field_at(f).desc("order id");
    assert_eq!(backend.schemas[s].name, "store");
    assert_eq!(backend.schemas[s].models[m].name, "orders");
    assert_eq!(backend.schemas[s].models[m].fields[f].desc, "order id");
}

#[test]
fn push_assembled_children() {
    let mut model = Model::new("m");
    model.new_int("a");
    let mut schema = Schema::new("s");
    let m = schema.push_model(model);
    let mut backend = Backend::new();
    let s = backend.push_schema(schema);
    assert_eq!((s, m), (0, 0));
    assert_eq!(backend.schemas[0].models[0].fields[0].name, "a");
}

#[test]
fn backend_view_is_lossless() {
    let mut backend = Backend::new();
    let s = backend.new_schema("s1");
    let m = backend.schema_at(s).new_model("m1");
    backend.schema_at(s).model_at(m).new_int("f1");
    backend.new_schema("s2");
    let view = PrintPluginBackend::from(&backend);
    assert_eq!(view.schemas.len(), 2);
    assert_eq!(view.schemas[0].name, "s1");
    assert_eq!(view.schemas[0].models[0].name, "m1");
    assert_eq!(view.schemas[0].models[0].fields[0].name, "f1");
    assert_eq!(view.schemas[0].models[0].fields[0].ttype, "int64");
    assert_eq!(view.schemas[1].name, "s2");
    assert!(view.schemas[1].models.is_empty());
}
