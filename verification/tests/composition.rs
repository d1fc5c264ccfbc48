//! Field-extension composition: merging, cycle rejection, and the
//! forced-extension rule.

use configger::ConfiggerField;
use configger::compose::{
    CompositionError, FieldSetDef, check_forced_extensions, compose, resolve,
};

fn leaf(name: &str, require_on_create: bool) -> ConfiggerField {
    ConfiggerField::Leaf { name: name.to_owned(), require_on_create }
}

fn field_name(f: &ConfiggerField) -> &str {
    match f {
        ConfiggerField::Leaf { name, .. } => name.as_str(),
        ConfiggerField::Node { name, .. } => name.as_str(),
    }
}

fn names(d: &FieldSetDef) -> Vec<&str> {
    d.fields.iter().map(field_name).collect()
}

#[test]
fn compose_appends_new_fields() {
    let base = FieldSetDef {
        type_id: 1,
        fields: vec![leaf("a", true), leaf("b", false)],
        extends: None,
        forced_extension: false,
    };
    let extension = FieldSetDef {
        type_id: 2,
        fields: vec![leaf("c", false)],
        extends: Some(1),
        forced_extension: false,
    };
    let composed = compose(&base, &extension).unwrap();
    assert_eq!(names(&composed), vec!["a", "b", "c"]);
    assert_eq!(composed.type_id, 2);
    assert_eq!(composed.extends, None);
}

#[test]
fn compose_overrides_in_place() {
    let base = FieldSetDef {
        type_id: 1,
        fields: vec![leaf("a", false), leaf("b", false)],
        extends: None,
        forced_extension: false,
    };
    let extension = FieldSetDef {
        type_id: 2,
        fields: vec![leaf("a", true), leaf("c", false)],
        extends: Some(1),
        forced_extension: false,
    };
    let composed = compose(&base, &extension).unwrap();
    assert_eq!(names(&composed), vec!["a", "b", "c"]);
    // The extension's version of "a" replaced the base's at its position.
    assert_eq!(composed.fields[0], leaf("a", true));
}

#[test]
fn compose_carries_forced_extension_flag() {
    let base = FieldSetDef { type_id: 1, fields: vec![], extends: None, forced_extension: false };
    let extension = FieldSetDef {
        type_id: 2,
        fields: vec![],
        extends: Some(1),
        forced_extension: true,
    };
    let composed = compose(&base, &extension).unwrap();
    assert!(composed.forced_extension);
}

#[test]
fn compose_rejects_mismatched_extension() {
    let base = FieldSetDef { type_id: 1, fields: vec![], extends: None, forced_extension: false };
    let stranger = FieldSetDef {
        type_id: 3,
        fields: vec![],
        extends: Some(7),
        forced_extension: false,
    };
    assert_eq!(compose(&base, &stranger), Err(CompositionError::ExtensionMismatch));
    let no_extends = FieldSetDef {
        type_id: 3,
        fields: vec![],
        extends: None,
        forced_extension: false,
    };
    assert_eq!(compose(&base, &no_extends), Err(CompositionError::ExtensionMismatch));
}

#[test]
fn compose_rejects_self_extension() {
    let base = FieldSetDef { type_id: 1, fields: vec![], extends: None, forced_extension: false };
    let selfish = FieldSetDef {
        type_id: 1,
        fields: vec![],
        extends: Some(1),
        forced_extension: false,
    };
    assert_eq!(compose(&base, &selfish), Err(CompositionError::CycleDetected));
}

#[test]
fn resolve_composes_the_whole_chain() {
    let defs = vec![
        FieldSetDef {
            type_id: 1,
            fields: vec![leaf("a", true)],
            extends: None,
            forced_extension: false,
        },
        FieldSetDef {
            type_id: 2,
            fields: vec![leaf("b", false)],
            extends: Some(1),
            forced_extension: false,
        },
        FieldSetDef {
            type_id: 3,
            fields: vec![leaf("c", false)],
            extends: Some(2),
            forced_extension: false,
        },
    ];
    let resolved = resolve(&defs, 3).unwrap();
    assert_eq!(names(&resolved), vec!["a", "b", "c"]);
    assert_eq!(resolved.type_id, 3);
    assert_eq!(resolved.extends, None);
}

#[test]
fn resolve_rejects_cycles() {
    let defs = vec![
        FieldSetDef { type_id: 1, fields: vec![], extends: Some(2), forced_extension: false },
        FieldSetDef { type_id: 2, fields: vec![], extends: Some(1), forced_extension: false },
    ];
    assert_eq!(resolve(&defs, 1), Err(CompositionError::CycleDetected));
    assert_eq!(resolve(&defs, 2), Err(CompositionError::CycleDetected));
}

#[test]
fn resolve_rejects_direct_self_extension() {
    let defs = vec![FieldSetDef {
        type_id: 1,
        fields: vec![],
        extends: Some(1),
        forced_extension: false,
    }];
    assert_eq!(resolve(&defs, 1), Err(CompositionError::CycleDetected));
}

#[test]
fn resolve_rejects_unknown_ids() {
    let defs = vec![FieldSetDef {
        type_id: 2,
        fields: vec![],
        extends: Some(9),
        forced_extension: false,
    }];
    assert_eq!(resolve(&defs, 5), Err(CompositionError::UnknownDefinition));
    assert_eq!(resolve(&defs, 2), Err(CompositionError::UnknownDefinition));
}

#[test]
fn forced_extension_missing_fails() {
    let defs = vec![
        FieldSetDef { type_id: 1, fields: vec![], extends: None, forced_extension: false },
        FieldSetDef { type_id: 2, fields: vec![], extends: Some(1), forced_extension: true },
    ];
    let deps = vec![1];
    assert_eq!(
        check_forced_extensions(&defs, &deps),
        Err(CompositionError::MissingForcedExtension { base: 1, extension: 2 })
    );
}

#[test]
fn forced_extension_present_passes() {
    let defs = vec![
        FieldSetDef { type_id: 1, fields: vec![], extends: None, forced_extension: false },
        FieldSetDef { type_id: 2, fields: vec![], extends: Some(1), forced_extension: true },
    ];
    assert_eq!(check_forced_extensions(&defs, &vec![1, 2]), Ok(()));
    // A consumer that ignores the base entirely is fine as well.
    assert_eq!(check_forced_extensions(&defs, &vec![2]), Ok(()));
    assert_eq!(check_forced_extensions(&defs, &vec![]), Ok(()));
}
