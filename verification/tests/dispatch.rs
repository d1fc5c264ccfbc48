//! The generator dispatch pipeline: the built-in name rule, fail-fast
//! and collect-all dispatch, and the end-to-end build.

use configger::PluginError;
use configger::builder::{Backend, Model, Schema};
use configger::pipeline::{
    DispatchMode, Plugin, PrintPlugin, PrintPluginBackend, PrintPluginGenerator, build, dispatch,
};

fn backend_with_fields(names: &[&str]) -> Backend {
    let mut model = Model::new("m");
    for name in names {
        if name.ends_with("_at") {
            model.new_datetime(name);
        } else if *name == "message" {
            model.new_string(name);
        } else {
            model.new_int(name);
        }
    }
    let mut schema = Schema::new("s");
    schema.push_model(model);
    let mut backend = Backend::new();
    backend.push_schema(schema);
    backend
}

#[test]
fn underscore_field_is_rejected() {
    let backend = backend_with_fields(&["id", "_secret"]);
    let outcome = build(backend);
    assert_eq!(
        outcome,
        Err(PluginError::ValidationError(
            "Field _secret starts with an underscore".to_string()
        ))
    );
}

#[test]
fn clean_fields_pass() {
    let backend = backend_with_fields(&["id"]);
    assert_eq!(build(backend), Ok(()));
}

#[test]
fn first_offending_field_is_reported() {
    let backend = backend_with_fields(&["id", "_first", "_second"]);
    assert_eq!(
        build(backend),
        Err(PluginError::ValidationError(
            "Field _first starts with an underscore".to_string()
        ))
    );
}

#[test]
fn empty_backend_passes() {
    assert_eq!(build(Backend::new()), Ok(()));
}

#[test]
fn generate_through_the_trait() {
    let plugin = PrintPlugin {};
    let good = PrintPluginBackend::from(&backend_with_fields(&["id"]));
    assert_eq!(plugin.generate(good), Ok(()));
    let bad = PrintPluginBackend::from(&backend_with_fields(&["_x"]));
    assert!(plugin.generate(bad).is_err());
}

#[test]
fn fail_fast_stops_after_first_failure() {
    let backend = backend_with_fields(&["id"]);
    let plugins = vec![
        Plugin::Noop,
        Plugin::Fail("broken generator".to_string()),
        Plugin::Noop,
    ];
    let outcomes = dispatch(&backend, &plugins, DispatchMode::FailFast);
    // The first generator ran and succeeded, the second failed, and the
    // third never ran.
    assert_eq!(
        outcomes,
        vec![
            Ok(()),
            Err(PluginError::GenerationError("broken generator".to_string())),
        ]
    );
}

#[test]
fn collect_all_runs_every_generator() {
    let backend = backend_with_fields(&["id"]);
    let plugins = vec![
        Plugin::Fail("first".to_string()),
        Plugin::Noop,
        Plugin::Fail("second".to_string()),
    ];
    let outcomes = dispatch(&backend, &plugins, DispatchMode::CollectAll);
    assert_eq!(
        outcomes,
        vec![
            Err(PluginError::GenerationError("first".to_string())),
            Ok(()),
            Err(PluginError::GenerationError("second".to_string())),
        ]
    );
}

#[test]
fn dispatch_runs_the_print_generator() {
    let backend = backend_with_fields(&["_hidden"]);
    let plugins = vec![Plugin::Print(PrintPlugin {})];
    let outcomes = dispatch(&backend, &plugins, DispatchMode::FailFast);
    assert_eq!(
        outcomes,
        vec![Err(PluginError::ValidationError(
            "Field _hidden starts with an underscore".to_string()
        ))]
    );
}
