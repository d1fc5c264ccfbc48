//! The generator dispatch pipeline. A frozen [`Backend`] tree is converted
//! into the value shape a generator was authored against (its *view*), the
//! generator is invoked on that view, and the outcomes are collected. The
//! pipeline enforces one first-class rule of its own: a field name must not
//! begin with an underscore.

use vstd::prelude::*;

use crate::PluginError;
use crate::builder::{Backend, BackendView, Field, FieldView, Model, ModelView, Schema, SchemaView};

verus! {

/// The mathematical value of a [`PluginError`].
pub enum PluginErrorView {
    Validation(Seq<char>),
    Generation(Seq<char>),
}

impl View for PluginError {
    type V = PluginErrorView;

    open spec fn view(&self) -> PluginErrorView {
        match self {
            PluginError::ValidationError(m) => PluginErrorView::Validation(m@),
            PluginError::GenerationError(m) => PluginErrorView::Generation(m@),
        }
    }
}

/// The view shape the print generator consumes: plain nested records
/// mirroring the instance tree, with no ownership semantics carried over.
pub struct PrintPluginBackend {
    pub schemas: Vec<PrintPluginSchema>,
}

pub struct PrintPluginSchema {
    pub name: String,
    pub models: Vec<PrintPluginModel>,
}

pub struct PrintPluginModel {
    pub name: String,
    pub fields: Vec<PrintPluginField>,
}

pub struct PrintPluginField {
    pub name: String,
    pub ttype: String,
    pub desc: String,
}

impl View for PrintPluginField {
    type V = FieldView;

    open spec fn view(&self) -> FieldView {
        FieldView { name: self.name@, ttype: self.ttype@, desc: self.desc@ }
    }
}

impl View for PrintPluginModel {
    type V = ModelView;

    open spec fn view(&self) -> ModelView {
        ModelView {
            name: self.name@,
            fields: Seq::new(self.fields@.len(), |i: int| self.fields@[i]@),
        }
    }
}

impl View for PrintPluginSchema {
    type V = SchemaView;

    open spec fn view(&self) -> SchemaView {
        SchemaView {
            name: self.name@,
            models: Seq::new(self.models@.len(), |i: int| self.models@[i]@),
        }
    }
}

impl View for PrintPluginBackend {
    type V = BackendView;

    open spec fn view(&self) -> BackendView {
        BackendView { schemas: Seq::new(self.schemas@.len(), |i: int| self.schemas@[i]@) }
    }
}

impl PrintPluginField {
    /// A structural, lossless copy of one field.
    pub fn from(f: &Field) -> (r: Self)
        ensures
            r@ == f@,
    {
        PrintPluginField { name: f.name.clone(), ttype: f.ttype.clone(), desc: f.desc.clone() }
    }
}

impl PrintPluginModel {
    /// A structural, lossless copy of one model; field order is kept.
    pub fn from(m: &Model) -> (r: Self)
        ensures
            r@ == m@,
    {
        let mut fields: Vec<PrintPluginField> = Vec::new();
        let mut i: usize = 0;
        while i < m.fields.len()
            invariant
                i <= m.fields@.len(),
                fields@.len() == i,
                forall|j: int| 0 <= j < i ==> fields@[j]@ == m.fields@[j]@,
            decreases m.fields@.len() - i,
        {
            fields.push(PrintPluginField::from(&m.fields[i]));
            i += 1;
        }
        let r = PrintPluginModel { name: m.name.clone(), fields };
        proof {
            assert(r@ =~~= m@);
        }
        r
    }
}

impl PrintPluginSchema {
    /// A structural, lossless copy of one schema; model order is kept.
    pub fn from(s: &Schema) -> (r: Self)
        ensures
            r@ == s@,
    {
        let mut models: Vec<PrintPluginModel> = Vec::new();
        let mut i: usize = 0;
        while i < s.models.len()
            invariant
                i <= s.models@.len(),
                models@.len() == i,
                forall|j: int| 0 <= j < i ==> models@[j]@ == s.models@[j]@,
            decreases s.models@.len() - i,
        {
            models.push(PrintPluginModel::from(&s.models[i]));
            i += 1;
        }
        let r = PrintPluginSchema { name: s.name.clone(), models };
        proof {
            assert(r@ =~~= s@);
        }
        r
    }
}

impl PrintPluginBackend {
    /// A structural, lossless copy of the whole tree; schema order is kept.
    pub fn from(b: &Backend) -> (r: Self)
        ensures
            r@ == b@,
    {
        let mut schemas: Vec<PrintPluginSchema> = Vec::new();
        let mut i: usize = 0;
        while i < b.schemas.len()
            invariant
                i <= b.schemas@.len(),
                schemas@.len() == i,
                forall|j: int| 0 <= j < i ==> schemas@[j]@ == b.schemas@[j]@,
            decreases b.schemas@.len() - i,
        {
            schemas.push(PrintPluginSchema::from(&b.schemas[i]));
            i += 1;
        }
        let r = PrintPluginBackend { schemas };
        proof {
            assert(r@ =~~= b@);
        }
        r
    }
}

/// Whether the pipeline's built-in name rule flags this field.
pub open spec fn flagged(f: FieldView) -> bool {
    f.name.len() > 0 && f.name[0] == '_'
}

/// The message reported for a field whose name begins with an underscore.
pub open spec fn underscore_message(name: Seq<char>) -> Seq<char> {
    "Field "@ + name + " starts with an underscore"@
}

/// The name of the first flagged field in a field list, if any.
pub open spec fn first_flagged_field(fs: Seq<FieldView>) -> Option<Seq<char>>
    decreases fs.len(),
{
    if fs.len() == 0 {
        None
    } else if flagged(fs[0]) {
        Some(fs[0].name)
    } else {
        first_flagged_field(fs.subrange(1, fs.len() as int))
    }
}

/// The name of the first flagged field across a model list, in traversal
/// order: models in order, and each model's fields in order.
pub open spec fn first_flagged_model(ms: Seq<ModelView>) -> Option<Seq<char>>
    decreases ms.len(),
{
    if ms.len() == 0 {
        None
    } else {
        match first_flagged_field(ms[0].fields) {
            Some(n) => Some(n),
            None => first_flagged_model(ms.subrange(1, ms.len() as int)),
        }
    }
}

/// The name of the first flagged field across a schema list.
pub open spec fn first_flagged_schema(ss: Seq<SchemaView>) -> Option<Seq<char>>
    decreases ss.len(),
{
    if ss.len() == 0 {
        None
    } else {
        match first_flagged_model(ss[0].models) {
            Some(n) => Some(n),
            None => first_flagged_schema(ss.subrange(1, ss.len() as int)),
        }
    }
}

/// The name of the first flagged field in the whole tree, if any.
pub open spec fn first_flagged(b: BackendView) -> Option<Seq<char>> {
    first_flagged_schema(b.schemas)
}

proof fn lemma_fff_skip(fs: Seq<FieldView>, i: int)
    requires
        0 <= i <= fs.len(),
        forall|j: int| 0 <= j < i ==> !flagged(fs[j]),
    ensures
        first_flagged_field(fs) == first_flagged_field(fs.subrange(i, fs.len() as int)),
    decreases i,
{
    if i == 0 {
        assert(fs.subrange(0, fs.len() as int) =~= fs);
    } else {
        lemma_fff_skip(fs, i - 1);
        let t = fs.subrange(i - 1, fs.len() as int);
        assert(t[0] == fs[i - 1]);
        assert(t.subrange(1, t.len() as int) =~= fs.subrange(i, fs.len() as int));
    }
}

proof fn lemma_ffm_skip(ms: Seq<ModelView>, i: int)
    requires
        0 <= i <= ms.len(),
        forall|j: int| 0 <= j < i ==> first_flagged_field(ms[j].fields) is None,
    ensures
        first_flagged_model(ms) == first_flagged_model(ms.subrange(i, ms.len() as int)),
    decreases i,
{
    if i == 0 {
        assert(ms.subrange(0, ms.len() as int) =~= ms);
    } else {
        lemma_ffm_skip(ms, i - 1);
        let t = ms.subrange(i - 1, ms.len() as int);
        assert(t[0] == ms[i - 1]);
        assert(t.subrange(1, t.len() as int) =~= ms.subrange(i, ms.len() as int));
    }
}

proof fn lemma_ffs_skip(ss: Seq<SchemaView>, i: int)
    requires
        0 <= i <= ss.len(),
        forall|j: int| 0 <= j < i ==> first_flagged_model(ss[j].models) is None,
    ensures
        first_flagged_schema(ss) == first_flagged_schema(ss.subrange(i, ss.len() as int)),
    decreases i,
{
    if i == 0 {
        assert(ss.subrange(0, ss.len() as int) =~= ss);
    } else {
        lemma_ffs_skip(ss, i - 1);
        let t = ss.subrange(i - 1, ss.len() as int);
        assert(t[0] == ss[i - 1]);
        assert(t.subrange(1, t.len() as int) =~= ss.subrange(i, ss.len() as int));
    }
}

/// A tree in which no field name begins with an underscore passes the
/// pipeline's built-in name rule.
pub proof fn lemma_clean_tree(b: BackendView)
    requires
        forall|i: int, j: int, k: int|
            0 <= i < b.schemas.len() && 0 <= j < b.schemas[i].models.len() && 0 <= k
                < b.schemas[i].models[j].fields.len() ==> !flagged(
                b.schemas[i].models[j].fields[k],
            ),
    ensures
        first_flagged(b) is None,
{
    assert forall|i: int| 0 <= i < b.schemas.len() implies first_flagged_model(
        b.schemas[i].models,
    ) is None by {
        assert forall|j: int| 0 <= j < b.schemas[i].models.len() implies first_flagged_field(
            b.schemas[i].models[j].fields,
        ) is None by {
            lemma_fff_skip(b.schemas[i].models[j].fields, b.schemas[i].models[j].fields.len() as int);
        }
        lemma_ffm_skip(b.schemas[i].models, b.schemas[i].models.len() as int);
    }
    lemma_ffs_skip(b.schemas, b.schemas.len() as int);
}

/// The capability a print-style generator implements: it consumes the
/// view of a frozen tree and reports success or a failure.
pub trait PrintPluginGenerator {
    fn generate(&self, backend: PrintPluginBackend) -> Result<(), PluginError>;
}

/// The built-in example generator: it walks the tree in order and enforces
/// the pipeline's name rule.
pub struct PrintPlugin {}

impl PrintPlugin {
    /// Walks the view in traversal order and reports the first field whose
    /// name begins with an underscore, if any.
    pub fn check(backend: &PrintPluginBackend) -> (r: Result<(), PluginError>)
        ensures
            r is Ok <==> first_flagged(backend@) is None,
            first_flagged(backend@) matches Some(n) ==> r matches Err(e)
                && e matches PluginError::ValidationError(m) && m@ == underscore_message(n),
    {
        let ghost bv = backend@;
        let mut si: usize = 0;
        #[verifier::loop_isolation(false)]
        while si < backend.schemas.len()
            invariant
                si <= bv.schemas.len(),
                bv == backend@,
                forall|j: int| 0 <= j < si ==> first_flagged_model(bv.schemas[j].models) is None,
            decreases bv.schemas.len() - si,
        {
            let schema = &backend.schemas[si];
            let ghost sv = bv.schemas[si as int];
            let mut mi: usize = 0;
            #[verifier::loop_isolation(false)]
            while mi < schema.models.len()
                invariant
                    mi <= sv.models.len(),
                    sv == schema@,
                    forall|j: int| 0 <= j < mi ==> first_flagged_field(sv.models[j].fields) is None,
                decreases sv.models.len() - mi,
            {
                let model = &schema.models[mi];
                let ghost mv = sv.models[mi as int];
                let mut fi: usize = 0;
                #[verifier::loop_isolation(false)]
                while fi < model.fields.len()
                    invariant
                        fi <= mv.fields.len(),
                        mv == model@,
                        forall|j: int| 0 <= j < fi ==> !flagged(mv.fields[j]),
                    decreases mv.fields.len() - fi,
                {
                    let name = &model.fields[fi].name;
                    if name.as_str().unicode_len() > 0 && name.as_str().get_char(0) == '_' {
                        let mut m = String::from_str("Field ");
                        m.append(name.as_str());
                        m.append(" starts with an underscore");
                        proof {
                            lemma_fff_skip(mv.fields, fi as int);
                            lemma_ffm_skip(sv.models, mi as int);
                            lemma_ffs_skip(bv.schemas, si as int);
                        }
                        return Err(PluginError::ValidationError(m));
                    }
                    fi += 1;
                }
                proof {
                    lemma_fff_skip(mv.fields, mv.fields.len() as int);
                }
                mi += 1;
            }
            proof {
                lemma_ffm_skip(sv.models, sv.models.len() as int);
            }
            si += 1;
        }
        proof {
            lemma_ffs_skip(bv.schemas, bv.schemas.len() as int);
        }
        Ok(())
    }
}

impl PrintPluginGenerator for PrintPlugin {
    fn generate(&self, backend: PrintPluginBackend) -> (r: Result<(), PluginError>)
        ensures
            r is Ok <==> first_flagged(backend@) is None,
            first_flagged(backend@) matches Some(n) ==> r matches Err(e)
                && e matches PluginError::ValidationError(m) && m@ == underscore_message(n),
    {
        PrintPlugin::check(&backend)
    }
}

/// A registered generator. The set of generators the pipeline knows is
/// closed: each variant carries one generator's configuration.
pub enum Plugin {
    /// The built-in name-rule generator.
    Print(PrintPlugin),
    /// A generator that accepts every tree and produces nothing.
    Noop,
    /// A generator that rejects every tree with the given message.
    Fail(String),
}

/// What a generator answers for a given tree. Every generator the
/// pipeline knows is a function of the tree alone.
pub open spec fn plugin_verdict(p: Plugin, t: BackendView) -> Result<(), PluginErrorView> {
    match p {
        Plugin::Print(_) => match first_flagged(t) {
            Some(n) => Err(PluginErrorView::Validation(underscore_message(n))),
            None => Ok(()),
        },
        Plugin::Noop => Ok(()),
        Plugin::Fail(m) => Err(PluginErrorView::Generation(m@)),
    }
}

/// An outcome list, element by element, as mathematical values.
pub open spec fn outcome_view(r: Result<(), PluginError>) -> Result<(), PluginErrorView> {
    match r {
        Ok(()) => Ok(()),
        Err(e) => Err(e@),
    }
}

/// How many generators fail-fast dispatch runs: all of them when every
/// verdict is success, otherwise every generator up to and including the
/// first failing one.
pub open spec fn fail_fast_len(ps: Seq<Plugin>, t: BackendView) -> int
    decreases ps.len(),
{
    if ps.len() == 0 {
        0
    } else if plugin_verdict(ps[0], t) is Err {
        1
    } else {
        1 + fail_fast_len(ps.subrange(1, ps.len() as int), t)
    }
}

proof fn lemma_fail_fast_len(ps: Seq<Plugin>, t: BackendView, k: int)
    requires
        0 <= k <= ps.len(),
        forall|j: int| 0 <= j < k ==> plugin_verdict(ps[j], t) is Ok,
        k < ps.len() ==> plugin_verdict(ps[k], t) is Err,
    ensures
        fail_fast_len(ps, t) == if k < ps.len() { k + 1 } else { k },
    decreases k,
{
    if k == 0 {
    } else {
        let tail = ps.subrange(1, ps.len() as int);
        assert(forall|j: int| 0 <= j < k - 1 ==> tail[j] == ps[j + 1]);
        lemma_fail_fast_len(tail, t, k - 1);
    }
}

/// Whether dispatch stops at the first failing generator or runs them all.
#[derive(Clone, Copy, Debug, PartialEq, Eq, Structural)]
pub enum DispatchMode {
    FailFast,
    CollectAll,
}

/// Runs the registered generators over a frozen tree, in registration
/// order, each on its own freshly converted view. Under `FailFast` the
/// pipeline stops after the first generator whose verdict is a failure;
/// under `CollectAll` every generator runs. The outcome list holds, in
/// order, the verdict of every generator that ran.
pub fn dispatch(be: &Backend, plugins: &Vec<Plugin>, mode: DispatchMode) -> (r: Vec<
    Result<(), PluginError>,
>)
    ensures
        forall|i: int| 0 <= i < r@.len() ==> outcome_view(r@[i]) == plugin_verdict(
            plugins@[i],
            be@,
        ),
        mode == DispatchMode::CollectAll ==> r@.len() == plugins@.len(),
        mode == DispatchMode::FailFast ==> r@.len() == fail_fast_len(plugins@, be@),
{
    let mut out: Vec<Result<(), PluginError>> = Vec::new();
    let mut i: usize = 0;
    #[verifier::loop_isolation(false)]
    while i < plugins.len()
        invariant
            i <= plugins@.len(),
            out@.len() == i,
            forall|j: int| 0 <= j < i ==> outcome_view(out@[j]) == plugin_verdict(
                plugins@[j],
                be@,
            ),
            mode == DispatchMode::FailFast ==> forall|j: int|
                0 <= j < i ==> plugin_verdict(plugins@[j], be@) is Ok,
        decreases plugins@.len() - i,
    {
        let verdict: Result<(), PluginError> = match &plugins[i] {
            Plugin::Print(_p) => {
                let view = PrintPluginBackend::from(be);
                PrintPlugin::check(&view)
            },
            Plugin::Noop => Ok(()),
            Plugin::Fail(m) => Err(PluginError::GenerationError(m.clone())),
        };
        let failed = verdict.is_err();
        out.push(verdict);
        i += 1;
        if failed {
            if mode == DispatchMode::FailFast {
                proof {
                    lemma_fail_fast_len(plugins@, be@, i - 1);
                }
                return out;
            }
        }
    }
    proof {
        if mode == DispatchMode::FailFast {
            lemma_fail_fast_len(plugins@, be@, plugins@.len() as int);
        }
    }
    out
}

/// Builds the default pipeline over a finished tree: the built-in print
/// generator, dispatched fail-fast. The result is success exactly when no
/// field name in the tree begins with an underscore; otherwise it is the
/// validation failure for the first offending field in traversal order.
pub fn build(be: Backend) -> (r: Result<(), PluginError>)
    ensures
        r is Ok <==> first_flagged(be@) is None,
        first_flagged(be@) matches Some(n) ==> r matches Err(e)
            && e matches PluginError::ValidationError(m) && m@ == underscore_message(n),
{
    let mut plugins: Vec<Plugin> = Vec::new();
    plugins.push(Plugin::Print(PrintPlugin {}));
    let mut outcomes = dispatch(&be, &plugins, DispatchMode::FailFast);
    proof {
        assert(plugins@.len() == 1);
        assert(fail_fast_len(plugins@, be@) == 1) by {
            assert(fail_fast_len(Seq::<Plugin>::empty(), be@) == 0);
            assert(plugins@.subrange(1, 1) =~= Seq::<Plugin>::empty());
        }
        assert(outcome_view(outcomes@[0]) == plugin_verdict(plugins@[0], be@));
    }
    match outcomes.pop() {
        Some(Err(e)) => Err(e),
        _ => Ok(()),
    }
}

} // verus!
