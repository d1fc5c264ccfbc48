//! Schema-composition and code-generation framework.
//!
//! A schema is described twice over: once as *metadata* (an ordered list of
//! [`ConfiggerField`] descriptors attached to a schema type through the
//! [`ConfiggerData`] capability), and once as a concrete *instance tree*
//! (Backend, Schema, Model, Field) assembled through the hierarchical
//! builder. Registered generators consume a frozen instance tree through
//! the dispatch pipeline and report validation failures.

use vstd::prelude::*;

pub mod builder;
pub mod bundle;
pub mod compose;
pub mod demo;
pub mod pipeline;

verus! {

broadcast use vstd::std_specs::vec::group_vec_axioms, vstd::seq::group_seq_axioms;

/// A failure reported by a generator during dispatch.
#[derive(Debug, PartialEq, Eq)]
pub enum PluginError {
    /// A concrete instance tree violates a generator's semantic rule;
    /// the message identifies the offending element.
    ValidationError(String),
    /// A generator-specific failure unrelated to validation.
    GenerationError(String),
}

impl Clone for PluginError {
    /// A clone carries the same message under the same kind.
    fn clone(&self) -> (r: Self)
        ensures
            r == *self,
    {
        match self {
            PluginError::ValidationError(m) => PluginError::ValidationError(m.clone()),
            PluginError::GenerationError(m) => PluginError::GenerationError(m.clone()),
        }
    }
}

/// Metadata describing one member of a schema type: a scalar leaf or a
/// nested (possibly repeated) node holding the descriptors of its children.
#[derive(Debug, PartialEq, Eq)]
pub enum ConfiggerField {
    Leaf { name: String, require_on_create: bool },
    Node { name: String, is_list: bool, data: Vec<ConfiggerField> },
}

/// The mathematical shape of a [`ConfiggerField`]: the same tree over
/// sequences of characters instead of heap-allocated strings and vectors.
pub enum FieldSpec {
    Leaf { name: Seq<char>, require_on_create: bool },
    Node { name: Seq<char>, is_list: bool, data: Seq<FieldSpec> },
}

/// The metadata tree a descriptor stands for, over mathematical sequences.
pub open spec fn field_view(f: ConfiggerField) -> FieldSpec
    decreases f,
    via field_view_dec
{
    match f {
        ConfiggerField::Leaf { name, require_on_create } => FieldSpec::Leaf {
            name: name@,
            require_on_create,
        },
        ConfiggerField::Node { name, is_list, data } => FieldSpec::Node {
            name: name@,
            is_list,
            data: fields_view(data@),
        },
    }
}

/// The metadata trees of a sequence of descriptors, in order.
pub open spec fn fields_view(s: Seq<ConfiggerField>) -> Seq<FieldSpec>
    decreases s,
{
    if s.len() == 0 {
        Seq::empty()
    } else {
        seq![field_view(s[0])] + fields_view(s.subrange(1, s.len() as int))
    }
}

#[via_fn]
proof fn field_view_dec(f: ConfiggerField) {
    if let ConfiggerField::Node { data, .. } = f {
        assert(decreases_to!(f => data));
        assert(decreases_to!(data => data@));
    }
}

impl View for ConfiggerField {
    type V = FieldSpec;

    open spec fn view(&self) -> FieldSpec {
        field_view(*self)
    }
}

/// `fields_view` visits the descriptors one by one, in order.
pub proof fn lemma_fields_view_index(s: Seq<ConfiggerField>)
    ensures
        fields_view(s).len() == s.len(),
        forall|i: int| 0 <= i < s.len() ==> fields_view(s)[i] == field_view(s[i]),
    decreases s,
{
    if s.len() > 0 {
        lemma_fields_view_index(s.subrange(1, s.len() as int));
    }
}

/// The name a descriptor declares, whatever its shape.
pub open spec fn spec_field_name(f: FieldSpec) -> Seq<char> {
    match f {
        FieldSpec::Leaf { name, .. } => name,
        FieldSpec::Node { name, .. } => name,
    }
}

impl ConfiggerField {
    /// The name this descriptor declares.
    pub fn name(&self) -> (r: &String)
        ensures
            r@ == spec_field_name(self@),
    {
        match self {
            ConfiggerField::Leaf { name, .. } => name,
            ConfiggerField::Node { name, .. } => name,
        }
    }
}

/// Appending a descriptor appends its view.
pub proof fn lemma_fields_view_push(s: Seq<ConfiggerField>, x: ConfiggerField)
    ensures
        fields_view(s.push(x)) == fields_view(s) + seq![field_view(x)],
{
    lemma_fields_view_index(s.push(x));
    lemma_fields_view_index(s);
    assert(fields_view(s.push(x)) =~= fields_view(s) + seq![field_view(x)]);
}

/// Two descriptor sequences with equal member views have equal views.
pub proof fn lemma_fields_view_congruence(a: Seq<ConfiggerField>, b: Seq<ConfiggerField>)
    requires
        a.len() == b.len(),
        forall|i: int| 0 <= i < a.len() ==> field_view(a[i]) == field_view(b[i]),
    ensures
        fields_view(a) == fields_view(b),
{
    lemma_fields_view_index(a);
    lemma_fields_view_index(b);
    assert(fields_view(a) =~= fields_view(b));
}

impl Clone for ConfiggerField {
    /// A clone carries the same metadata tree as the original.
    fn clone(&self) -> (r: Self)
        ensures
            r@ == self@,
        decreases *self,
    {
        match self {
            ConfiggerField::Leaf { name, require_on_create } => ConfiggerField::Leaf {
                name: name.clone(),
                require_on_create: *require_on_create,
            },
            ConfiggerField::Node { name, is_list, data } => {
                let mut children: Vec<ConfiggerField> = Vec::new();
                let mut i: usize = 0;
                #[verifier::loop_isolation(false)]
                while i < data.len()
                    invariant
                        i <= data.len(),
                        children@.len() == i,
                        forall|j: int| 0 <= j < i ==> children@[j]@ == data@[j]@,
                    decreases data.len() - i,
                {
                    proof {
                        assert(decreases_to!(*self => data));
                        assert(decreases_to!(data => data@));
                    }
                    children.push(data[i].clone());
                    i += 1;
                }
                proof {
                    lemma_fields_view_congruence(children@, data@);
                }
                ConfiggerField::Node { name: name.clone(), is_list: *is_list, data: children }
            },
        }
    }
}

/// The capability a schema type exposes for introspection: a pure function
/// returning its ordered field descriptor list. `spec_fields` is the one
/// fixed sequence that every call of `fields` produces, so the metadata of
/// a type never changes between calls.
pub trait ConfiggerData {
    spec fn spec_fields() -> Seq<FieldSpec>;

    fn fields() -> (r: Vec<ConfiggerField>)
        ensures
            fields_view(r@) == Self::spec_fields(),
    ;
}

/// Any two results of a schema type's `fields` carry the same metadata:
/// introspection is deterministic and referentially transparent.
pub proof fn lemma_fields_deterministic<T: ConfiggerData>(a: Vec<ConfiggerField>, b: Vec<ConfiggerField>)
    requires
        call_ensures(T::fields, (), a),
        call_ensures(T::fields, (), b),
    ensures
        fields_view(a@) == fields_view(b@),
{
}

} // verus!
