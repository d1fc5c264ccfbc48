//! The hierarchical builder: a mutable instance tree Backend -> Schema ->
//! Model -> Field, assembled incrementally. Each factory method appends a
//! child to its parent's ordered collection and returns the index of the
//! new child; the index is the caller's handle, and the `*_at` accessors
//! turn a handle back into a mutable reference, so a child can still be
//! edited after it was appended.

use vstd::prelude::*;

verus! {

/// The mathematical value of a [`Field`].
#[verifier::ext_equal]
pub ghost struct FieldView {
    pub name: Seq<char>,
    pub ttype: Seq<char>,
    pub desc: Seq<char>,
}

/// The mathematical value of a [`Model`].
#[verifier::ext_equal]
pub ghost struct ModelView {
    pub name: Seq<char>,
    pub fields: Seq<FieldView>,
}

/// The mathematical value of a [`Schema`].
#[verifier::ext_equal]
pub ghost struct SchemaView {
    pub name: Seq<char>,
    pub models: Seq<ModelView>,
}

/// The mathematical value of a [`Backend`].
#[verifier::ext_equal]
pub ghost struct BackendView {
    pub schemas: Seq<SchemaView>,
}

/// A column of a model: a name, a type tag, and a description that stays
/// editable after the field was appended to its model.
pub struct Field {
    pub name: String,
    pub ttype: String,
    pub desc: String,
}

/// A named table-like entity owning an ordered collection of fields.
pub struct Model {
    pub name: String,
    pub fields: Vec<Field>,
}

/// A named namespace owning an ordered collection of models.
pub struct Schema {
    pub name: String,
    pub models: Vec<Model>,
}

/// The root of the instance tree, owning an ordered collection of schemas.
pub struct Backend {
    pub schemas: Vec<Schema>,
}

impl View for Field {
    type V = FieldView;

    open spec fn view(&self) -> FieldView {
        FieldView { name: self.name@, ttype: self.ttype@, desc: self.desc@ }
    }
}

impl View for Model {
    type V = ModelView;

    open spec fn view(&self) -> ModelView {
        ModelView {
            name: self.name@,
            fields: Seq::new(self.fields@.len(), |i: int| self.fields@[i]@),
        }
    }
}

impl View for Schema {
    type V = SchemaView;

    open spec fn view(&self) -> SchemaView {
        SchemaView {
            name: self.name@,
            models: Seq::new(self.models@.len(), |i: int| self.models@[i]@),
        }
    }
}

impl View for Backend {
    type V = BackendView;

    open spec fn view(&self) -> BackendView {
        BackendView { schemas: Seq::new(self.schemas@.len(), |i: int| self.schemas@[i]@) }
    }
}

impl Field {
    /// A fresh field with the given name and type tag and an empty
    /// description.
    pub fn new(name: &str, ttype: &str) -> (r: Field)
        requires
            name@.len() > 0,
        ensures
            r@ == (FieldView { name: name@, ttype: ttype@, desc: Seq::<char>::empty() }),
    {
        Field { name: name.to_owned(), ttype: ttype.to_owned(), desc: String::new() }
    }

    /// Replaces the description; name and type tag stay as they were.
    pub fn desc(&mut self, desc: &str)
        ensures
            final(self)@ == (FieldView { desc: desc@, ..old(self)@ }),
    {
        self.desc = desc.to_owned();
    }
}

impl Model {
    /// A fresh model with the given name and no fields yet.
    pub fn new(name: &str) -> (r: Model)
        requires
            name@.len() > 0,
        ensures
            r@.name == name@,
            r@.fields == Seq::<FieldView>::empty(),
    {
        let r = Model { name: name.to_owned(), fields: Vec::new() };
        proof {
            assert(r@.fields =~= Seq::<FieldView>::empty());
        }
        r
    }

    /// Appends a fresh field with the given name and type tag; the result
    /// is the handle of the new field.
    fn push_field(&mut self, name: &str, ttype: &str) -> (r: usize)
        requires
            name@.len() > 0,
        ensures
            final(self)@.name == old(self)@.name,
            final(self)@.fields == old(self)@.fields.push(
                FieldView { name: name@, ttype: ttype@, desc: Seq::<char>::empty() },
            ),
            r == old(self)@.fields.len(),
    {
        let r = self.fields.len();
        self.fields.push(Field::new(name, ttype));
        proof {
            assert(final(self)@.fields =~= old(self)@.fields.push(
                FieldView { name: name@, ttype: ttype@, desc: Seq::<char>::empty() },
            ));
        }
        r
    }

    /// Appends an integer field and returns its handle.
    pub fn new_int(&mut self, name: &str) -> (r: usize)
        requires
            name@.len() > 0,
        ensures
            final(self)@.name == old(self)@.name,
            final(self)@.fields == old(self)@.fields.push(
                FieldView { name: name@, ttype: "int64"@, desc: Seq::<char>::empty() },
            ),
            r == old(self)@.fields.len(),
    {
        self.push_field(name, "int64")
    }

    /// Appends a string field and returns its handle.
    pub fn new_string(&mut self, name: &str) -> (r: usize)
        requires
            name@.len() > 0,
        ensures
            final(self)@.name == old(self)@.name,
            final(self)@.fields == old(self)@.fields.push(
                FieldView { name: name@, ttype: "String"@, desc: Seq::<char>::empty() },
            ),
            r == old(self)@.fields.len(),
    {
        self.push_field(name, "String")
    }

    /// Appends a timestamp field and returns its handle.
    pub fn new_datetime(&mut self, name: &str) -> (r: usize)
        requires
            name@.len() > 0,
        ensures
            final(self)@.name == old(self)@.name,
            final(self)@.fields == old(self)@.fields.push(
                FieldView { name: name@, ttype: "DateTime"@, desc: Seq::<char>::empty() },
            ),
            r == old(self)@.fields.len(),
    {
        self.push_field(name, "DateTime")
    }

    /// The field behind a handle, still mutable in place.
    pub fn field_at(&mut self, i: usize) -> (r: &mut Field)
        requires
            i < old(self)@.fields.len(),
        ensures
            *r == old(self).fields@[i as int],
            final(self).name == old(self).name,
            final(self).fields@ == old(self).fields@.update(i as int, *final(r)),
    {
        &mut self.fields[i]
    }

    /// Replaces the description of the field behind a handle; everything
    /// else stays as it was.
    pub fn describe_field(&mut self, i: usize, desc: &str)
        requires
            i < old(self)@.fields.len(),
        ensures
            final(self)@.name == old(self)@.name,
            final(self)@.fields == old(self)@.fields.update(
                i as int,
                FieldView { desc: desc@, ..old(self)@.fields[i as int] },
            ),
    {
        let f = &mut self.fields[i];
        f.desc(desc);
        proof {
            assert(self@.fields =~~= old(self)@.fields.update(
                i as int,
                FieldView { desc: desc@, ..old(self)@.fields[i as int] },
            ));
        }
    }
}

impl Schema {
    /// A fresh schema with the given name and no models yet.
    pub fn new(name: &str) -> (r: Schema)
        requires
            name@.len() > 0,
        ensures
            r@.name == name@,
            r@.models == Seq::<ModelView>::empty(),
    {
        let r = Schema { name: name.to_owned(), models: Vec::new() };
        proof {
            assert(r@.models =~= Seq::<ModelView>::empty());
        }
        r
    }

    /// Appends a fresh, empty model with the given name; the result is the
    /// handle of the new model.
    pub fn new_model(&mut self, name: &str) -> (r: usize)
        requires
            name@.len() > 0,
        ensures
            final(self)@.name == old(self)@.name,
            final(self)@.models == old(self)@.models.push(
                ModelView { name: name@, fields: Seq::empty() },
            ),
            r == old(self)@.models.len(),
    {
        let r = self.models.len();
        self.models.push(Model { name: name.to_owned(), fields: Vec::new() });
        proof {
            assert(final(self)@.models =~~= old(self)@.models.push(
                ModelView { name: name@, fields: Seq::empty() },
            ));
        }
        r
    }

    /// The model behind a handle, still mutable in place.
    pub fn model_at(&mut self, i: usize) -> (r: &mut Model)
        requires
            i < old(self)@.models.len(),
        ensures
            *r == old(self).models@[i as int],
            final(self).name == old(self).name,
            final(self).models@ == old(self).models@.update(i as int, *final(r)),
    {
        &mut self.models[i]
    }

    /// Appends an already-assembled model; the result is its handle.
    pub fn push_model(&mut self, m: Model) -> (r: usize)
        ensures
            final(self)@.name == old(self)@.name,
            final(self)@.models == old(self)@.models.push(m@),
            r == old(self)@.models.len(),
    {
        let r = self.models.len();
        self.models.push(m);
        proof {
            assert(self@.models =~~= old(self)@.models.push(m@));
        }
        r
    }
}

impl Backend {
    /// A fresh backend owning no schemas yet.
    pub fn new() -> (r: Backend)
        ensures
            r@.schemas == Seq::<SchemaView>::empty(),
    {
        let r = Backend { schemas: Vec::new() };
        proof {
            assert(r@.schemas =~= Seq::<SchemaView>::empty());
        }
        r
    }

    /// Appends a fresh, empty schema with the given name; the result is
    /// the handle of the new schema.
    pub fn new_schema(&mut self, name: &str) -> (r: usize)
        requires
            name@.len() > 0,
        ensures
            final(self)@.schemas == old(self)@.schemas.push(
                SchemaView { name: name@, models: Seq::empty() },
            ),
            r == old(self)@.schemas.len(),
    {
        let r = self.schemas.len();
        self.schemas.push(Schema { name: name.to_owned(), models: Vec::new() });
        proof {
            assert(final(self)@.schemas =~~= old(self)@.schemas.push(
                SchemaView { name: name@, models: Seq::empty() },
            ));
        }
        r
    }

    /// The schema behind a handle, still mutable in place.
    pub fn schema_at(&mut self, i: usize) -> (r: &mut Schema)
        requires
            i < old(self)@.schemas.len(),
        ensures
            *r == old(self).schemas@[i as int],
            final(self).schemas@ == old(self).schemas@.update(i as int, *final(r)),
    {
        &mut self.schemas[i]
    }

    /// Appends an already-assembled schema; the result is its handle.
    pub fn push_schema(&mut self, s: Schema) -> (r: usize)
        ensures
            final(self)@.schemas == old(self)@.schemas.push(s@),
            r == old(self)@.schemas.len(),
    {
        let r = self.schemas.len();
        self.schemas.push(s);
        proof {
            assert(self@.schemas =~~= old(self)@.schemas.push(s@));
        }
        r
    }
}

} // verus!
