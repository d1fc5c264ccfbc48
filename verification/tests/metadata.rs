//! Schema metadata introspection.

use configger::bundle::{BackendDef, FieldDef, ModelDef, SchemaDef};
use configger::{ConfiggerData, ConfiggerField};

fn leaf_parts(f: &ConfiggerField) -> (&str, bool) {
    match f {
        ConfiggerField::Leaf { name, require_on_create } => (name.as_str(), *require_on_create),
        ConfiggerField::Node { .. } => panic!("expected a leaf"),
    }
}

fn node_parts(f: &ConfiggerField) -> (&str, bool, &Vec<ConfiggerField>) {
    match f {
        ConfiggerField::Node { name, is_list, data } => (name.as_str(), *is_list, data),
        ConfiggerField::Leaf { .. } => panic!("expected a node"),
    }
}

#[test]
fn fields_of_field_def() {
    let fields = FieldDef::fields();
    assert_eq!(fields.len(), 3);
    assert_eq!(leaf_parts(&fields[0]), ("name", true));
    assert_eq!(leaf_parts(&fields[1]), ("ttype", true));
    assert_eq!(leaf_parts(&fields[2]), ("desc", false));
}

#[test]
fn fields_of_model_def() {
    let fields = ModelDef::fields();
    assert_eq!(fields.len(), 2);
    assert_eq!(leaf_parts(&fields[0]), ("name", true));
    let (name, is_list, data) = node_parts(&fields[1]);
    assert_eq!(name, "fields");
    assert!(is_list);
    assert_eq!(*data, FieldDef::fields());
}

#[test]
fn fields_of_schema_def() {
    let fields = SchemaDef::fields();
    assert_eq!(fields.len(), 2);
    assert_eq!(leaf_parts(&fields[0]), ("name", true));
    let (name, is_list, data) = node_parts(&fields[1]);
    assert_eq!(name, "models");
    assert!(is_list);
    assert_eq!(*data, ModelDef::fields());
}

#[test]
fn fields_of_backend_def() {
    let fields = BackendDef::fields();
    assert_eq!(fields.len(), 1);
    let (name, is_list, data) = node_parts(&fields[0]);
    assert_eq!(name, "schemas");
    assert!(is_list);
    assert_eq!(*data, SchemaDef::fields());
}

#[test]
fn fields_are_deterministic() {
    assert_eq!(FieldDef::fields(), FieldDef::fields());
    assert_eq!(ModelDef::fields(), ModelDef::fields());
    assert_eq!(SchemaDef::fields(), SchemaDef::fields());
    assert_eq!(BackendDef::fields(), BackendDef::fields());
}

#[test]
fn descriptor_clone_is_deep() {
    let original = SchemaDef::fields();
    let copy = original.clone();
    assert_eq!(original, copy);
}
