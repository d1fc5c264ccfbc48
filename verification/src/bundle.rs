//! Hand-registered schema metadata: each schema type of the demo data
//! bundle describes itself by listing its field descriptors, nested types
//! included. The nesting follows the instance tree: a backend holds
//! schemas, a schema holds models, a model holds fields.

use vstd::prelude::*;

use crate::{ConfiggerData, ConfiggerField, FieldSpec, fields_view};

verus! {

/// The declarative description of a backend: one repeated nested member
/// holding schemas.
pub struct BackendDef {
    pub schemas: Vec<SchemaDef>,
}

/// The declarative description of a schema: a required name and a
/// repeated nested member holding models.
pub struct SchemaDef {
    pub name: String,
    pub models: Vec<ModelDef>,
}

/// The declarative description of a model: a required name and a repeated
/// nested member holding fields.
pub struct ModelDef {
    pub name: String,
    pub fields: Vec<FieldDef>,
}

/// The declarative description of a field: a required name, a required
/// type tag, and an optional description.
pub struct FieldDef {
    pub name: String,
    pub ttype: String,
    pub desc: String,
}

impl ConfiggerData for FieldDef {
    open spec fn spec_fields() -> Seq<FieldSpec> {
        seq![
            FieldSpec::Leaf { name: "name"@, require_on_create: true },
            FieldSpec::Leaf { name: "ttype"@, require_on_create: true },
            FieldSpec::Leaf { name: "desc"@, require_on_create: false },
        ]
    }

    fn fields() -> (r: Vec<ConfiggerField>) {
        let mut r: Vec<ConfiggerField> = Vec::new();
        r.push(ConfiggerField::Leaf { name: String::from_str("name"), require_on_create: true });
        r.push(ConfiggerField::Leaf { name: String::from_str("ttype"), require_on_create: true });
        r.push(ConfiggerField::Leaf { name: String::from_str("desc"), require_on_create: false });
        proof {
            crate::lemma_fields_view_index(r@);
            assert(fields_view(r@) =~= Self::spec_fields());
        }
        r
    }
}

impl ConfiggerData for ModelDef {
    open spec fn spec_fields() -> Seq<FieldSpec> {
        seq![
            FieldSpec::Leaf { name: "name"@, require_on_create: true },
            FieldSpec::Node { name: "fields"@, is_list: true, data: FieldDef::spec_fields() },
        ]
    }

    fn fields() -> (r: Vec<ConfiggerField>) {
        let mut r: Vec<ConfiggerField> = Vec::new();
        r.push(ConfiggerField::Leaf { name: String::from_str("name"), require_on_create: true });
        r.push(
            ConfiggerField::Node {
                name: String::from_str("fields"),
                is_list: true,
                data: FieldDef::fields(),
            },
        );
        proof {
            crate::lemma_fields_view_index(r@);
            assert(fields_view(r@) =~= Self::spec_fields());
        }
        r
    }
}

impl ConfiggerData for SchemaDef {
    open spec fn spec_fields() -> Seq<FieldSpec> {
        seq![
            FieldSpec::Leaf { name: "name"@, require_on_create: true },
            FieldSpec::Node { name: "models"@, is_list: true, data: ModelDef::spec_fields() },
        ]
    }

    fn fields() -> (r: Vec<ConfiggerField>) {
        let mut r: Vec<ConfiggerField> = Vec::new();
        r.push(ConfiggerField::Leaf { name: String::from_str("name"), require_on_create: true });
        r.push(
            ConfiggerField::Node {
                name: String::from_str("models"),
                is_list: true,
                data: ModelDef::fields(),
            },
        );
        proof {
            crate::lemma_fields_view_index(r@);
            assert(fields_view(r@) =~= Self::spec_fields());
        }
        r
    }
}

impl ConfiggerData for BackendDef {
    open spec fn spec_fields() -> Seq<FieldSpec> {
        seq![FieldSpec::Node { name: "schemas"@, is_list: true, data: SchemaDef::spec_fields() }]
    }

    fn fields() -> (r: Vec<ConfiggerField>) {
        let mut r: Vec<ConfiggerField> = Vec::new();
        r.push(
            ConfiggerField::Node {
                name: String::from_str("schemas"),
                is_list: true,
                data: SchemaDef::fields(),
            },
        );
        proof {
            crate::lemma_fields_view_index(r@);
            assert(fields_view(r@) =~= Self::spec_fields());
        }
        r
    }
}

} // verus!
