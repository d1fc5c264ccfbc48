//! The two worked examples run end to end.

use configger::demo::manual;

#[test]
fn manual_demo_builds_and_passes() {
    assert!(manual::demo().is_ok());
}

#[test]
fn auto_demo_composes_and_passes() {
    let composed = configger::demo::auto::demo().unwrap();
    let names: Vec<&str> = composed
        .fields
        .iter()
        .map(|f| match f {
            configger::ConfiggerField::Leaf { name, .. } => name.as_str(),
            configger::ConfiggerField::Node { name, .. } => name.as_str(),
        })
        .collect();
    assert_eq!(names, vec!["name", "desc", "proto_number", "nullable"]);
}
