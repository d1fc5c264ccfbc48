//! Explicitly registered schema metadata with an extension: a protocol
//! field definition, a nullable variant extending it, and the
//! forced-extension rule binding consumers of the base to the variant.

use vstd::prelude::*;

use crate::compose::{
    CompositionError, FieldSetDef, check_forced_extensions, compose_view, defs_view, find_def,
    find_field, first_violation, lemma_extension_appends, lemma_find_none_iff, resolve,
    resolve_spec, violates,
};
use crate::{ConfiggerData, ConfiggerField, FieldSpec, fields_view, spec_field_name};

verus! {

/// The registry id of the base field definition.
pub const FIELD_DEF_ID: u64 = 1;

/// The registry id of the nullable extension.
pub const NULLABLE_FIELD_DEF_ID: u64 = 2;

/// The declarative description of a protocol field: a required name, a
/// required description, and a wire number.
pub struct FieldDef {
    pub name: String,
    pub desc: String,
    pub proto_number: u32,
}

impl ConfiggerData for FieldDef {
    open spec fn spec_fields() -> Seq<FieldSpec> {
        seq![
            FieldSpec::Leaf { name: "name"@, require_on_create: true },
            FieldSpec::Leaf { name: "desc"@, require_on_create: true },
            FieldSpec::Leaf { name: "proto_number"@, require_on_create: false },
        ]
    }

    fn fields() -> (r: Vec<ConfiggerField>) {
        let mut r: Vec<ConfiggerField> = Vec::new();
        r.push(ConfiggerField::Leaf { name: String::from_str("name"), require_on_create: true });
        r.push(ConfiggerField::Leaf { name: String::from_str("desc"), require_on_create: true });
        r.push(
            ConfiggerField::Leaf {
                name: String::from_str("proto_number"),
                require_on_create: false,
            },
        );
        proof {
            crate::lemma_fields_view_index(r@);
            assert(fields_view(r@) =~= Self::spec_fields());
        }
        r
    }
}

/// A nullable variant of [`FieldDef`]: one extra flag. Declared a forced
/// extension, so no consumer may depend on the base without it — plain
/// field handling would be wrong for nullable columns.
pub struct NullableFieldDef {
    pub nullable: bool,
}

impl ConfiggerData for NullableFieldDef {
    open spec fn spec_fields() -> Seq<FieldSpec> {
        seq![FieldSpec::Leaf { name: "nullable"@, require_on_create: false }]
    }

    fn fields() -> (r: Vec<ConfiggerField>) {
        let mut r: Vec<ConfiggerField> = Vec::new();
        r.push(
            ConfiggerField::Leaf { name: String::from_str("nullable"), require_on_create: false },
        );
        proof {
            crate::lemma_fields_view_index(r@);
            assert(fields_view(r@) =~= Self::spec_fields());
        }
        r
    }
}

/// Registers the base definition and its forced nullable extension,
/// resolves the extension's full chain, and checks a dependency set that
/// names both. Every step succeeds, and the effective definition carries
/// the base's fields followed by the extension's.
pub fn demo() -> (r: Result<FieldSetDef, CompositionError>)
    ensures
        r matches Ok(d) && d@.fields == FieldDef::spec_fields()
            + NullableFieldDef::spec_fields(),
{
    let mut defs: Vec<FieldSetDef> = Vec::new();
    defs.push(
        FieldSetDef {
            type_id: FIELD_DEF_ID,
            fields: FieldDef::fields(),
            extends: None,
            forced_extension: false,
        },
    );
    defs.push(
        FieldSetDef {
            type_id: NULLABLE_FIELD_DEF_ID,
            fields: NullableFieldDef::fields(),
            extends: Some(FIELD_DEF_ID),
            forced_extension: true,
        },
    );
    let ghost dv = defs_view(defs@);
    proof {
        assert(dv.len() == 2);
        assert(dv.subrange(1, 2)[0] == dv[1]);
        assert(dv.subrange(1, 2).len() == 1);
        assert(find_def(dv.subrange(1, 2), NULLABLE_FIELD_DEF_ID) == Some(dv[1]));
        assert(find_def(dv, NULLABLE_FIELD_DEF_ID) == Some(dv[1]));
        assert(find_def(dv, FIELD_DEF_ID) == Some(dv[0]));
        assert(resolve_spec(dv, FIELD_DEF_ID, 1) == Ok::<_, CompositionError>(dv[0]));
        assert(resolve_spec(dv, NULLABLE_FIELD_DEF_ID, 2) is Ok);
    }
    proof {
        reveal_strlit("name");
        reveal_strlit("desc");
        reveal_strlit("proto_number");
        reveal_strlit("nullable");
        let base = FieldDef::spec_fields();
        let ext = NullableFieldDef::spec_fields();
        assert(spec_field_name(base[0]) == "name"@);
        assert(spec_field_name(base[1]) == "desc"@);
        assert(spec_field_name(base[2]) == "proto_number"@);
        assert(spec_field_name(ext[0]) == "nullable"@);
        assert("nullable"@.len() == 8 && "name"@.len() == 4 && "desc"@.len() == 4
            && "proto_number"@.len() == 12);
        assert forall|j: int| 0 <= j < ext.len() implies find_field(
            base,
            spec_field_name(ext[j]),
        ) is None by {
            lemma_find_none_iff(base, spec_field_name(ext[j]));
        }
        assert forall|i: int| 0 <= i < base.len() implies find_field(
            ext,
            spec_field_name(base[i]),
        ) is None by {
            lemma_find_none_iff(ext, spec_field_name(base[i]));
        }
        lemma_extension_appends(base, ext);
        assert(resolve_spec(dv, NULLABLE_FIELD_DEF_ID, 2) == Ok::<_, CompositionError>(
            compose_view(dv[0], dv[1]),
        ));
    }
    let resolved = match resolve(&defs, NULLABLE_FIELD_DEF_ID) {
        Ok(d) => d,
        Err(e) => {
            proof {
                assert(false);
            }
            return Err(e);
        },
    };

    let mut deps: Vec<u64> = Vec::new();
    deps.push(FIELD_DEF_ID);
    deps.push(NULLABLE_FIELD_DEF_ID);
    proof {
        assert(deps@.contains(FIELD_DEF_ID)) by {
            assert(deps@[0] == FIELD_DEF_ID);
        }
        assert(deps@.contains(NULLABLE_FIELD_DEF_ID)) by {
            assert(deps@[1] == NULLABLE_FIELD_DEF_ID);
        }
        assert(!violates(dv[0], deps@));
        assert(!violates(dv[1], deps@));
        assert(dv.subrange(1, 2).subrange(1, 1) =~= Seq::<crate::compose::FieldSetView>::empty());
        assert(first_violation(Seq::<crate::compose::FieldSetView>::empty(), deps@) is None);
        assert(first_violation(dv.subrange(1, 2), deps@) is None);
        assert(first_violation(dv, deps@) is None);
    }
    match check_forced_extensions(&defs, &deps) {
        Ok(()) => Ok(resolved),
        Err(e) => {
            proof {
                assert(false);
            }
            Err(e)
        },
    }
}

} // verus!
