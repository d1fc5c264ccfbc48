//! Field-extension composition. A field-set definition associates an
//! ordered list of field descriptors with a schema type; it may *extend*
//! another definition, in which case its effective field list is the
//! base's list with redeclared names overridden in place, followed by its
//! own new fields. A definition marked *forced extension* obliges every
//! consumer of its base to depend on the extension as well.

use vstd::prelude::*;

use crate::{
    ConfiggerField, FieldSpec, field_view, fields_view, lemma_fields_view_index,
    lemma_fields_view_push, spec_field_name,
};

verus! {

/// The mathematical value of a [`FieldSetDef`].
#[verifier::ext_equal]
pub ghost struct FieldSetView {
    pub type_id: u64,
    pub fields: Seq<FieldSpec>,
    pub extends: Option<u64>,
    pub forced_extension: bool,
}

/// A named, ordered collection of field descriptors belonging to one
/// schema type, possibly composed via extension. Type ids identify
/// definitions inside one registry.
#[derive(Debug, PartialEq, Eq)]
pub struct FieldSetDef {
    pub type_id: u64,
    pub fields: Vec<ConfiggerField>,
    pub extends: Option<u64>,
    pub forced_extension: bool,
}

impl View for FieldSetDef {
    type V = FieldSetView;

    open spec fn view(&self) -> FieldSetView {
        FieldSetView {
            type_id: self.type_id,
            fields: fields_view(self.fields@),
            extends: self.extends,
            forced_extension: self.forced_extension,
        }
    }
}

/// Why a composition was rejected.
#[derive(Clone, Copy, Debug, PartialEq, Eq, Structural)]
pub enum CompositionError {
    /// The extension does not declare the base as the set it extends.
    ExtensionMismatch,
    /// A field-set extends itself, directly or transitively.
    CycleDetected,
    /// An `extends` reference or a lookup names a type id that no
    /// definition in the registry carries.
    UnknownDefinition,
    /// A consumer depends on the base but not on the forced extension.
    MissingForcedExtension { base: u64, extension: u64 },
}

/// The first field declaring `name`, if any.
pub open spec fn find_field(s: Seq<FieldSpec>, name: Seq<char>) -> Option<FieldSpec>
    decreases s.len(),
{
    if s.len() == 0 {
        None
    } else if spec_field_name(s[0]) == name {
        Some(s[0])
    } else {
        find_field(s.subrange(1, s.len() as int), name)
    }
}

/// What ends up at a base field's position: the extension's redeclaration
/// of the same name if there is one, else the base field itself.
pub open spec fn override_of(f: FieldSpec, ext: Seq<FieldSpec>) -> FieldSpec {
    match find_field(ext, spec_field_name(f)) {
        Some(g) => g,
        None => f,
    }
}

/// The extension fields that are genuinely new — their names not declared
/// by the base — in declaration order.
pub open spec fn appended_fields(ext: Seq<FieldSpec>, base: Seq<FieldSpec>) -> Seq<FieldSpec>
    decreases ext.len(),
{
    if ext.len() == 0 {
        Seq::empty()
    } else {
        appended_fields(ext.drop_last(), base) + (if find_field(
            base,
            spec_field_name(ext.last()),
        ) is Some {
            Seq::empty()
        } else {
            seq![ext.last()]
        })
    }
}

/// The effective field list of an extension over its base: base fields
/// first, each overridden in place when the extension redeclares its name,
/// then the extension's new fields.
pub open spec fn merged_fields(base: Seq<FieldSpec>, ext: Seq<FieldSpec>) -> Seq<FieldSpec> {
    Seq::new(base.len(), |i: int| override_of(base[i], ext)) + appended_fields(ext, base)
}

/// The definition a successful composition produces.
pub open spec fn compose_view(b: FieldSetView, e: FieldSetView) -> FieldSetView {
    FieldSetView {
        type_id: e.type_id,
        fields: merged_fields(b.fields, e.fields),
        extends: b.extends,
        forced_extension: e.forced_extension,
    }
}

proof fn lemma_find_skip(s: Seq<FieldSpec>, name: Seq<char>, i: int)
    requires
        0 <= i <= s.len(),
        forall|j: int| 0 <= j < i ==> spec_field_name(s[j]) != name,
    ensures
        find_field(s, name) == find_field(s.subrange(i, s.len() as int), name),
    decreases i,
{
    if i == 0 {
        assert(s.subrange(0, s.len() as int) =~= s);
    } else {
        lemma_find_skip(s, name, i - 1);
        let t = s.subrange(i - 1, s.len() as int);
        assert(t[0] == s[i - 1]);
        assert(t.subrange(1, t.len() as int) =~= s.subrange(i, s.len() as int));
    }
}

/// The index of the first descriptor declaring `name`, if any.
fn find_field_index(fields: &Vec<ConfiggerField>, name: &String) -> (r: Option<usize>)
    ensures
        match r {
            Some(k) => k < fields@.len() && find_field(fields_view(fields@), name@) == Some(
                field_view(fields@[k as int]),
            ),
            None => find_field(fields_view(fields@), name@) is None,
        },
{
    proof {
        lemma_fields_view_index(fields@);
    }
    let ghost v = fields_view(fields@);
    let mut i: usize = 0;
    #[verifier::loop_isolation(false)]
    while i < fields.len()
        invariant
            i <= fields@.len(),
            forall|j: int| 0 <= j < i ==> spec_field_name(v[j]) != name@,
        decreases fields@.len() - i,
    {
        if *fields[i].name() == *name {
            proof {
                lemma_find_skip(v, name@, i as int);
                assert(v.subrange(i as int, v.len() as int)[0] == v[i as int]);
            }
            return Some(i);
        }
        i += 1;
    }
    proof {
        lemma_find_skip(v, name@, v.len() as int);
    }
    None
}

/// The effective field list of `ext` over `base`, as owned descriptors.
fn merge_fields(base: &Vec<ConfiggerField>, ext: &Vec<ConfiggerField>) -> (r: Vec<ConfiggerField>)
    ensures
        fields_view(r@) == merged_fields(fields_view(base@), fields_view(ext@)),
{
    let ghost bv = fields_view(base@);
    let ghost ev = fields_view(ext@);
    proof {
        lemma_fields_view_index(base@);
        lemma_fields_view_index(ext@);
    }
    let mut out: Vec<ConfiggerField> = Vec::new();
    let mut i: usize = 0;
    #[verifier::loop_isolation(false)]
    while i < base.len()
        invariant
            i <= base@.len(),
            out@.len() == i,
            forall|j: int| 0 <= j < i ==> field_view(out@[j]) == override_of(bv[j], ev),
        decreases base@.len() - i,
    {
        match find_field_index(ext, base[i].name()) {
            Some(k) => out.push(ext[k].clone()),
            None => out.push(base[i].clone()),
        }
        i += 1;
    }
    let ghost first_part = Seq::new(bv.len(), |k: int| override_of(bv[k], ev));
    proof {
        lemma_fields_view_index(out@);
        assert(fields_view(out@) =~= first_part);
    }
    let mut j: usize = 0;
    #[verifier::loop_isolation(false)]
    while j < ext.len()
        invariant
            j <= ext@.len(),
            fields_view(out@) == first_part + appended_fields(ev.take(j as int), bv),
        decreases ext@.len() - j,
    {
        let ghost before = out@;
        let keep = find_field_index(base, ext[j].name()).is_none();
        if keep {
            out.push(ext[j].clone());
        }
        proof {
            assert(ev.take(j + 1).drop_last() =~= ev.take(j as int));
            assert(ev.take(j + 1).last() == ev[j as int]);
            if keep {
                lemma_fields_view_push(before, out@[out@.len() - 1]);
                assert(fields_view(out@) =~= first_part + appended_fields(ev.take(j + 1), bv));
            } else {
                assert(fields_view(out@) =~= first_part + appended_fields(ev.take(j + 1), bv));
            }
        }
        j += 1;
    }
    proof {
        assert(ev.take(ev.len() as int) =~= ev);
    }
    out
}

/// Composes an extension over its base. Rejected when the extension does
/// not name the base in its `extends`, or when the pair would make a set
/// extend itself; otherwise the result is the merged definition, which
/// keeps the extension's identity and forced-extension flag and points at
/// whatever the base itself extends.
pub fn compose(base: &FieldSetDef, extension: &FieldSetDef) -> (r: Result<
    FieldSetDef,
    CompositionError,
>)
    ensures
        extension@.extends != Some(base@.type_id) ==> r == Err::<
            FieldSetDef,
            CompositionError,
        >(CompositionError::ExtensionMismatch),
        extension@.extends == Some(base@.type_id) && extension@.type_id == base@.type_id ==> r
            == Err::<FieldSetDef, CompositionError>(CompositionError::CycleDetected),
        extension@.extends == Some(base@.type_id) && extension@.type_id != base@.type_id ==> (
        r matches Ok(d) && d@ == compose_view(base@, extension@)),
{
    let matches_base = match extension.extends {
        Some(p) => p == base.type_id,
        None => false,
    };
    if !matches_base {
        return Err(CompositionError::ExtensionMismatch);
    }
    if extension.type_id == base.type_id {
        return Err(CompositionError::CycleDetected);
    }
    let fields = merge_fields(&base.fields, &extension.fields);
    let d = FieldSetDef {
        type_id: extension.type_id,
        fields,
        extends: base.extends,
        forced_extension: extension.forced_extension,
    };
    proof {
        assert(d@ =~~= compose_view(base@, extension@));
    }
    Ok(d)
}

/// The first definition in the registry carrying `id`, if any.
pub open spec fn find_def(defs: Seq<FieldSetView>, id: u64) -> Option<FieldSetView>
    decreases defs.len(),
{
    if defs.len() == 0 {
        None
    } else if defs[0].type_id == id {
        Some(defs[0])
    } else {
        find_def(defs.subrange(1, defs.len() as int), id)
    }
}

/// A registry of definitions, as mathematical values.
pub open spec fn defs_view(defs: Seq<FieldSetDef>) -> Seq<FieldSetView> {
    Seq::new(defs.len(), |i: int| defs[i]@)
}

/// What resolving `id` answers when at most `fuel` further extension
/// steps may be taken: the definition itself when it extends nothing,
/// its composition over its resolved base otherwise. An unknown id is
/// reported as such; a chain that outlives its fuel is reported as a
/// cycle.
pub open spec fn resolve_spec(defs: Seq<FieldSetView>, id: u64, fuel: nat) -> Result<
    FieldSetView,
    CompositionError,
>
    decreases fuel,
{
    match find_def(defs, id) {
        None => Err(CompositionError::UnknownDefinition),
        Some(d) => match d.extends {
            None => Ok(d),
            Some(p) => if fuel == 0 {
                Err(CompositionError::CycleDetected)
            } else {
                match resolve_spec(defs, p, (fuel - 1) as nat) {
                    Ok(b) => Ok(compose_view(b, d)),
                    Err(e) => Err(e),
                }
            },
        },
    }
}

proof fn lemma_find_def_skip(defs: Seq<FieldSetView>, id: u64, i: int)
    requires
        0 <= i <= defs.len(),
        forall|j: int| 0 <= j < i ==> defs[j].type_id != id,
    ensures
        find_def(defs, id) == find_def(defs.subrange(i, defs.len() as int), id),
    decreases i,
{
    if i == 0 {
        assert(defs.subrange(0, defs.len() as int) =~= defs);
    } else {
        lemma_find_def_skip(defs, id, i - 1);
        let t = defs.subrange(i - 1, defs.len() as int);
        assert(t[0] == defs[i - 1]);
        assert(t.subrange(1, t.len() as int) =~= defs.subrange(i, defs.len() as int));
    }
}

/// The index of the first definition carrying `id`, if any.
fn find_def_index(defs: &Vec<FieldSetDef>, id: u64) -> (r: Option<usize>)
    ensures
        match r {
            Some(k) => k < defs@.len() && find_def(defs_view(defs@), id) == Some(defs@[k as int]@),
            None => find_def(defs_view(defs@), id) is None,
        },
{
    let ghost v = defs_view(defs@);
    let mut i: usize = 0;
    #[verifier::loop_isolation(false)]
    while i < defs.len()
        invariant
            i <= defs@.len(),
            forall|j: int| 0 <= j < i ==> v[j].type_id != id,
        decreases defs@.len() - i,
    {
        if defs[i].type_id == id {
            proof {
                lemma_find_def_skip(v, id, i as int);
                assert(v.subrange(i as int, v.len() as int)[0] == v[i as int]);
            }
            return Some(i);
        }
        i += 1;
    }
    proof {
        lemma_find_def_skip(v, id, v.len() as int);
    }
    None
}

/// Owned copies of a descriptor list, metadata unchanged.
fn clone_fields(fields: &Vec<ConfiggerField>) -> (r: Vec<ConfiggerField>)
    ensures
        fields_view(r@) == fields_view(fields@),
{
    let mut out: Vec<ConfiggerField> = Vec::new();
    let mut i: usize = 0;
    #[verifier::loop_isolation(false)]
    while i < fields.len()
        invariant
            i <= fields@.len(),
            out@.len() == i,
            forall|j: int| 0 <= j < i ==> out@[j]@ == fields@[j]@,
        decreases fields@.len() - i,
    {
        out.push(fields[i].clone());
        i += 1;
    }
    proof {
        crate::lemma_fields_view_congruence(out@, fields@);
    }
    out
}

fn resolve_rec(defs: &Vec<FieldSetDef>, id: u64, fuel: usize) -> (r: Result<
    FieldSetDef,
    CompositionError,
>)
    ensures
        resolve_spec(defs_view(defs@), id, fuel as nat) matches Ok(dv) ==> (r matches Ok(d)
            && d@ == dv),
        resolve_spec(defs_view(defs@), id, fuel as nat) matches Err(e) ==> r == Err::<
            FieldSetDef,
            CompositionError,
        >(e),
    decreases fuel,
{
    match find_def_index(defs, id) {
        None => Err(CompositionError::UnknownDefinition),
        Some(k) => {
            let d = &defs[k];
            match d.extends {
                None => Ok(
                    FieldSetDef {
                        type_id: d.type_id,
                        fields: clone_fields(&d.fields),
                        extends: None,
                        forced_extension: d.forced_extension,
                    },
                ),
                Some(p) => {
                    if fuel == 0 {
                        Err(CompositionError::CycleDetected)
                    } else {
                        match resolve_rec(defs, p, fuel - 1) {
                            Ok(b) => {
                                let fields = merge_fields(&b.fields, &d.fields);
                                let out = FieldSetDef {
                                    type_id: d.type_id,
                                    fields,
                                    extends: b.extends,
                                    forced_extension: d.forced_extension,
                                };
                                proof {
                                    let s = resolve_spec(defs_view(defs@), id, fuel as nat);
                                    assert(s matches Ok(dv) && out@ =~~= dv);
                                }
                                Ok(out)
                            },
                            Err(e) => Err(e),
                        }
                    }
                },
            }
        },
    }
}

/// Resolves the whole extension chain of `id` against the registry: the
/// effective definition after every `extends` link has been composed,
/// base-most first. An id with no definition is rejected as unknown; a
/// chain longer than the registry itself must revisit some definition,
/// so it is rejected as a cycle.
pub fn resolve(defs: &Vec<FieldSetDef>, id: u64) -> (r: Result<FieldSetDef, CompositionError>)
    ensures
        resolve_spec(defs_view(defs@), id, defs@.len() as nat) matches Ok(dv) ==> (
        r matches Ok(d) && d@ == dv),
        resolve_spec(defs_view(defs@), id, defs@.len() as nat) matches Err(e) ==> r == Err::<
            FieldSetDef,
            CompositionError,
        >(e),
{
    resolve_rec(defs, id, defs.len())
}

/// Whether the registry records that `a` extends `p`.
pub open spec fn extends_to(defs: Seq<FieldSetView>, a: u64, p: u64) -> bool {
    match find_def(defs, a) {
        Some(d) => d.extends == Some(p),
        None => false,
    }
}

/// Whether `a` reaches `b` in exactly `n` extension steps.
pub open spec fn reaches(defs: Seq<FieldSetView>, a: u64, b: u64, n: nat) -> bool
    decreases n,
{
    if n == 0 {
        a == b
    } else {
        exists|p: u64| extends_to(defs, a, p) && reaches(defs, p, b, (n - 1) as nat)
    }
}

/// A reachability chain grows by one step at its end.
proof fn lemma_reaches_step(defs: Seq<FieldSetView>, a: u64, b: u64, c: u64, n: nat)
    requires
        reaches(defs, a, b, n),
        extends_to(defs, b, c),
    ensures
        reaches(defs, a, c, (n + 1) as nat),
    decreases n,
{
    if n == 0 {
        assert(extends_to(defs, a, c) && reaches(defs, c, c, 0));
    } else {
        let p = choose|p: u64| extends_to(defs, a, p) && reaches(defs, p, b, (n - 1) as nat);
        lemma_reaches_step(defs, p, b, c, (n - 1) as nat);
        assert(extends_to(defs, a, p) && reaches(defs, p, c, n));
    }
}

/// Cycle rejection: a field-set that transitively extends itself — it
/// reaches its own type id again after one or more extension steps — can
/// never be resolved, however much fuel resolution is given.
pub proof fn lemma_cycle_rejected(defs: Seq<FieldSetView>, id: u64, n: nat, fuel: nat)
    requires
        reaches(defs, id, id, n),
        n > 0,
    ensures
        resolve_spec(defs, id, fuel) is Err,
    decreases fuel,
{
    let p = choose|p: u64| extends_to(defs, id, p) && reaches(defs, p, id, (n - 1) as nat);
    if fuel > 0 {
        lemma_reaches_step(defs, p, id, p, (n - 1) as nat);
        lemma_cycle_rejected(defs, p, n, (fuel - 1) as nat);
    }
}

/// Base positions survive composition: the merged list is at least as
/// long as the base's, and what stands at a base position is the
/// extension's redeclaration of that name when there is one, else the
/// base field itself.
pub proof fn lemma_merged_base_positions(base: Seq<FieldSpec>, ext: Seq<FieldSpec>, i: int)
    requires
        0 <= i < base.len(),
    ensures
        merged_fields(base, ext).len() >= base.len(),
        merged_fields(base, ext)[i] == override_of(base[i], ext),
{
}

proof fn lemma_appended_all_new(base: Seq<FieldSpec>, ext: Seq<FieldSpec>)
    requires
        forall|j: int| 0 <= j < ext.len() ==> find_field(base, spec_field_name(ext[j])) is None,
    ensures
        appended_fields(ext, base) == ext,
    decreases ext.len(),
{
    if ext.len() > 0 {
        assert(forall|j: int|
            0 <= j < ext.drop_last().len() ==> ext.drop_last()[j] == ext[j]);
        lemma_appended_all_new(base, ext.drop_last());
        assert(appended_fields(ext, base) =~= ext);
    }
}

/// Extension composition: when no name is shared between base and
/// extension, the effective field list is the base's fields followed by
/// the extension's, both orders kept.
pub proof fn lemma_extension_appends(base: Seq<FieldSpec>, ext: Seq<FieldSpec>)
    requires
        forall|j: int| 0 <= j < ext.len() ==> find_field(base, spec_field_name(ext[j])) is None,
        forall|i: int| 0 <= i < base.len() ==> find_field(ext, spec_field_name(base[i])) is None,
    ensures
        merged_fields(base, ext) == base + ext,
{
    lemma_appended_all_new(base, ext);
    assert(merged_fields(base, ext) =~= base + ext);
}

/// The field-set invariant: every field name is declared once.
pub open spec fn unique_names(s: Seq<FieldSpec>) -> bool {
    forall|i: int, j: int|
        0 <= i < j < s.len() ==> spec_field_name(s[i]) != spec_field_name(s[j])
}

proof fn lemma_find_found_name(s: Seq<FieldSpec>, name: Seq<char>)
    requires
        find_field(s, name) is Some,
    ensures
        find_field(s, name) matches Some(g) && spec_field_name(g) == name,
    decreases s.len(),
{
    if s.len() > 0 && spec_field_name(s[0]) != name {
        lemma_find_found_name(s.subrange(1, s.len() as int), name);
    }
}

/// `find_field` misses exactly when no field declares the name.
pub proof fn lemma_find_none_iff(s: Seq<FieldSpec>, name: Seq<char>)
    ensures
        find_field(s, name) is None <==> forall|i: int|
            0 <= i < s.len() ==> spec_field_name(s[i]) != name,
    decreases s.len(),
{
    if s.len() > 0 {
        lemma_find_none_iff(s.subrange(1, s.len() as int), name);
        assert(forall|i: int|
            1 <= i < s.len() ==> s.subrange(1, s.len() as int)[i - 1] == s[i]);
    }
}

/// Whether some field in `s` declares `name`.
pub open spec fn declares(s: Seq<FieldSpec>, name: Seq<char>) -> bool {
    exists|j: int| 0 <= j < s.len() && spec_field_name(#[trigger] s[j]) == name
}

proof fn lemma_appended_props(ext: Seq<FieldSpec>, base: Seq<FieldSpec>)
    requires
        unique_names(ext),
    ensures
        forall|k: int|
            0 <= k < appended_fields(ext, base).len() ==> find_field(
                base,
                spec_field_name(#[trigger] appended_fields(ext, base)[k]),
            ) is None,
        forall|k: int|
            0 <= k < appended_fields(ext, base).len() ==> declares(
                ext,
                spec_field_name(#[trigger] appended_fields(ext, base)[k]),
            ),
        unique_names(appended_fields(ext, base)),
    decreases ext.len(),
{
    let a = appended_fields(ext, base);
    if ext.len() > 0 {
        let prefix = ext.drop_last();
        assert(forall|j: int| 0 <= j < prefix.len() ==> prefix[j] == ext[j]);
        assert(unique_names(prefix));
        lemma_appended_props(prefix, base);
        let ap = appended_fields(prefix, base);
        let last = ext.last();
        assert forall|k: int| 0 <= k < a.len() implies find_field(
            base,
            spec_field_name(#[trigger] a[k]),
        ) is None && declares(ext, spec_field_name(a[k])) by {
            if k < ap.len() {
                assert(a[k] == ap[k]);
                let t = choose|t: int|
                    0 <= t < prefix.len() && spec_field_name(#[trigger] prefix[t])
                        == spec_field_name(ap[k]);
                assert(spec_field_name(ext[t]) == spec_field_name(a[k]));
            } else {
                assert(a[k] == last);
                assert(spec_field_name(ext[ext.len() - 1]) == spec_field_name(a[k]));
            }
        }
        assert forall|i: int, j: int| 0 <= i < j < a.len() implies spec_field_name(a[i])
            != spec_field_name(a[j]) by {
            if j < ap.len() {
                assert(a[i] == ap[i] && a[j] == ap[j]);
            } else {
                assert(a[j] == last);
                assert(a[i] == ap[i]);
                let t = choose|t: int|
                    0 <= t < prefix.len() && spec_field_name(#[trigger] prefix[t])
                        == spec_field_name(ap[i]);
                assert(spec_field_name(ext[t]) != spec_field_name(ext[ext.len() - 1]));
            }
        }
    }
}

/// Composition preserves the field-set invariant: when base and extension
/// each declare every name once, so does their merge.
pub proof fn lemma_merged_unique(base: Seq<FieldSpec>, ext: Seq<FieldSpec>)
    requires
        unique_names(base),
        unique_names(ext),
    ensures
        unique_names(merged_fields(base, ext)),
{
    let m = merged_fields(base, ext);
    let first = Seq::new(base.len(), |i: int| override_of(base[i], ext));
    lemma_appended_props(ext, base);
    let ap = appended_fields(ext, base);
    assert forall|i: int| 0 <= i < base.len() implies spec_field_name(#[trigger] first[i])
        == spec_field_name(base[i]) by {
        if find_field(ext, spec_field_name(base[i])) is Some {
            lemma_find_found_name(ext, spec_field_name(base[i]));
        }
    }
    assert forall|i: int, j: int| 0 <= i < j < m.len() implies spec_field_name(m[i])
        != spec_field_name(m[j]) by {
        if j < base.len() {
            assert(m[i] == first[i] && m[j] == first[j]);
        } else if i >= base.len() {
            assert(m[i] == ap[i - base.len()] && m[j] == ap[j - base.len()]);
        } else {
            assert(m[i] == first[i] && m[j] == ap[j - base.len()]);
            assert(find_field(base, spec_field_name(ap[j - base.len()])) is None);
            lemma_find_none_iff(base, spec_field_name(ap[j - base.len()]));
            assert(spec_field_name(base[i]) != spec_field_name(ap[j - base.len()]));
        }
    }
}

/// Whether this definition's forced-extension obligation is broken by a
/// dependency set: the consumer depends on the base but not on the
/// extension itself.
pub open spec fn violates(d: FieldSetView, deps: Seq<u64>) -> bool {
    &&& d.forced_extension
    &&& match d.extends {
        Some(b) => deps.contains(b) && !deps.contains(d.type_id),
        None => false,
    }
}

/// The first definition whose forced-extension obligation the dependency
/// set breaks, if any.
pub open spec fn first_violation(defs: Seq<FieldSetView>, deps: Seq<u64>) -> Option<FieldSetView>
    decreases defs.len(),
{
    if defs.len() == 0 {
        None
    } else if violates(defs[0], deps) {
        Some(defs[0])
    } else {
        first_violation(defs.subrange(1, defs.len() as int), deps)
    }
}

proof fn lemma_violation_skip(defs: Seq<FieldSetView>, deps: Seq<u64>, i: int)
    requires
        0 <= i <= defs.len(),
        forall|j: int| 0 <= j < i ==> !violates(defs[j], deps),
    ensures
        first_violation(defs, deps) == first_violation(defs.subrange(i, defs.len() as int), deps),
    decreases i,
{
    if i == 0 {
        assert(defs.subrange(0, defs.len() as int) =~= defs);
    } else {
        lemma_violation_skip(defs, deps, i - 1);
        let t = defs.subrange(i - 1, defs.len() as int);
        assert(t[0] == defs[i - 1]);
        assert(t.subrange(1, t.len() as int) =~= defs.subrange(i, defs.len() as int));
    }
}

/// Forced-extension enforcement: any definition that breaks its
/// obligation is found; a dependency set that carries a base without its
/// forced extension never passes the check.
pub proof fn lemma_forced_extension(defs: Seq<FieldSetView>, deps: Seq<u64>, i: int)
    requires
        0 <= i < defs.len(),
        violates(defs[i], deps),
    ensures
        first_violation(defs, deps) is Some,
    decreases defs.len(),
{
    if !violates(defs[0], deps) {
        let t = defs.subrange(1, defs.len() as int);
        assert(t[i - 1] == defs[i]);
        lemma_forced_extension(t, deps, i - 1);
    }
}

/// Whether the dependency list carries `x`.
fn contains_id(v: &Vec<u64>, x: u64) -> (r: bool)
    ensures
        r == v@.contains(x),
{
    let mut i: usize = 0;
    #[verifier::loop_isolation(false)]
    while i < v.len()
        invariant
            i <= v@.len(),
            forall|j: int| 0 <= j < i ==> v@[j] != x,
        decreases v@.len() - i,
    {
        if v[i] == x {
            return true;
        }
        i += 1;
    }
    false
}

/// Enforces every forced-extension obligation in the registry against a
/// consumer's declared dependency set: success exactly when no definition
/// marked forced extension has its base in the set without the extension;
/// otherwise the first broken obligation, named by base and extension.
pub fn check_forced_extensions(defs: &Vec<FieldSetDef>, deps: &Vec<u64>) -> (r: Result<
    (),
    CompositionError,
>)
    ensures
        r is Ok <==> first_violation(defs_view(defs@), deps@) is None,
        first_violation(defs_view(defs@), deps@) matches Some(d) ==> (d.extends matches Some(b)
            ==> r == Err::<(), CompositionError>(
            CompositionError::MissingForcedExtension { base: b, extension: d.type_id },
        )),
{
    let ghost v = defs_view(defs@);
    let mut i: usize = 0;
    #[verifier::loop_isolation(false)]
    while i < defs.len()
        invariant
            i <= defs@.len(),
            forall|j: int| 0 <= j < i ==> !violates(v[j], deps@),
        decreases defs@.len() - i,
    {
        let d = &defs[i];
        if d.forced_extension {
            match d.extends {
                Some(b) => {
                    if contains_id(deps, b) && !contains_id(deps, d.type_id) {
                        proof {
                            lemma_violation_skip(v, deps@, i as int);
                            assert(v.subrange(i as int, v.len() as int)[0] == v[i as int]);
                        }
                        return Err(
                            CompositionError::MissingForcedExtension {
                                base: b,
                                extension: d.type_id,
                            },
                        );
                    }
                },
                None => {},
            }
        }
        i += 1;
    }
    proof {
        lemma_violation_skip(v, deps@, v.len() as int);
    }
    Ok(())
}

} // verus!
