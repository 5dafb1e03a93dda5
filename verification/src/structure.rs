//! The recovered schema: chunks, their versions, and the type graph of each
//! version's root record.

use vstd::prelude::*;

verus! {

/// How a reference field reaches its target.
#[derive(Debug, Clone, Copy, PartialEq, Eq, Hash)]
pub enum ReferenceKind {
    Optional,
    Inline,
    StructCommon,
}

/// The flavour of an array field, with the multiplicity its descriptor carries.
#[derive(Debug, Clone, Copy, PartialEq, Eq, Hash)]
pub enum ArrayKind {
    Dynamic { size: u64 },
    DynamicSmall { size: u64 },
    Pointers { size: u64 },
    Inline { size: u64 },
    Fixed { size: u64 },
}

/// One node of a recovered type graph.
#[derive(Debug, PartialEq, Eq, Hash)]
#[allow(inconsistent_fields)]
pub enum Type<'a> {
    U8,
    U16,
    U32,
    U64,
    F32,
    F64,
    FileName,
    FileRef,
    Token,
    UUID,
    CString { wide: bool },
    Reference { kind: ReferenceKind, inner: Box<Type<'a>> },
    Array { kind: ArrayKind, inner: Box<Type<'a>> },
    Variant { variants: Vec<Type<'a>>, holds_input_references: bool },
    Composite { name: &'a str, fields: Vec<Field<'a>>, holds_input_references: bool },
}

/// A named member of a composite.
#[derive(Debug, PartialEq, Eq, Hash)]
pub struct Field<'a> {
    pub name: &'a str,
    pub _type: Type<'a>,
}

/// The root type of one version of a chunk.
#[derive(Debug)]
pub struct SpecificChunkVersion<'a> {
    pub version: u32,
    pub root: Type<'a>,
}

/// A chunk with every version whose layout could be recovered.
#[derive(Debug)]
pub struct Chunk<'a> {
    /// Three or four ASCII letters.
    pub magic: &'a str,
    pub holds_input_references: bool,
    pub versions: Vec<SpecificChunkVersion<'a>>,
}

/// The mathematical value of a [`Type`].
#[allow(inconsistent_fields)]
pub enum TypeModel {
    U8,
    U16,
    U32,
    U64,
    F32,
    F64,
    FileName,
    FileRef,
    Token,
    UUID,
    CString { wide: bool },
    Reference { kind: ReferenceKind, inner: Box<TypeModel> },
    Array { kind: ArrayKind, inner: Box<TypeModel> },
    Variant { variants: Seq<TypeModel>, holds_input_references: bool },
    Composite { name: Seq<char>, fields: Seq<FieldModel>, holds_input_references: bool },
}

/// The mathematical value of a [`Field`].
pub struct FieldModel {
    pub name: Seq<char>,
    pub ty: TypeModel,
}

/// The mathematical value of a [`SpecificChunkVersion`].
pub struct VersionModel {
    pub version: u32,
    pub root: TypeModel,
}

/// The mathematical value of a [`Chunk`].
pub struct ChunkModel {
    pub magic: Seq<char>,
    pub holds_input_references: bool,
    pub versions: Seq<VersionModel>,
}

impl TypeModel {
    /// What the type reports about borrowing: a composite or a variant
    /// answers with its recorded flag, the other kinds from their shape.
    pub open spec fn holds(self) -> bool
        decreases self,
    {
        match self {
            TypeModel::CString { .. } => true,
            TypeModel::Reference { inner, .. } => inner.holds(),
            TypeModel::Array { inner, .. } => *inner == TypeModel::U8 || inner.holds(),
            TypeModel::Variant { holds_input_references, .. } => holds_input_references,
            TypeModel::Composite { holds_input_references, .. } => holds_input_references,
            _ => false,
        }
    }

    /// Whether a decoded value of this type must point into the input: it
    /// is text, a byte array, or built from something that is. Recorded
    /// flags play no part in this.
    pub open spec fn borrows(self) -> bool
        decreases self,
    {
        match self {
            TypeModel::CString { .. } => true,
            TypeModel::Reference { inner, .. } => inner.borrows(),
            TypeModel::Array { inner, .. } => *inner == TypeModel::U8 || inner.borrows(),
            TypeModel::Variant { variants, .. } => exists|i: int|
                0 <= i < variants.len() && (#[trigger] variants[i]).borrows(),
            TypeModel::Composite { fields, .. } => exists|i: int|
                0 <= i < fields.len() && (#[trigger] fields[i]).ty.borrows(),
            _ => false,
        }
    }

    /// Every flag recorded in the graph is the one its members call for.
    pub open spec fn flags_exact(self) -> bool
        decreases self,
    {
        match self {
            TypeModel::Reference { inner, .. } => inner.flags_exact(),
            TypeModel::Array { inner, .. } => inner.flags_exact(),
            TypeModel::Variant { variants, holds_input_references } => {
                &&& forall|i: int| 0 <= i < variants.len() ==> (#[trigger] variants[i]).flags_exact()
                &&& holds_input_references == self.borrows()
            },
            TypeModel::Composite { fields, holds_input_references, .. } => {
                &&& forall|i: int| 0 <= i < fields.len() ==> (#[trigger] fields[i]).ty.flags_exact()
                &&& holds_input_references == self.borrows()
            },
            _ => true,
        }
    }

    /// A kind that is neither a reference, an array, a variant nor a composite.
    pub open spec fn is_primitive(self) -> bool {
        match self {
            TypeModel::Reference { .. } => false,
            TypeModel::Array { .. } => false,
            TypeModel::Variant { .. } => false,
            TypeModel::Composite { .. } => false,
            _ => true,
        }
    }

    /// A primitive kind other than text.
    pub open spec fn is_scalar(self) -> bool {
        self.is_primitive() && !(self is CString)
    }

    /// An array of bytes, of any flavour.
    pub open spec fn is_byte_array(self) -> bool {
        self matches TypeModel::Array { inner, .. } && *inner == TypeModel::U8
    }
}

/// In a graph whose flags are exact, what a type reports is what its shape
/// calls for.
pub proof fn lemma_exact_flags_report_borrowing(t: TypeModel)
    requires
        t.flags_exact(),
    ensures
        t.holds() == t.borrows(),
    decreases t,
{
    match t {
        TypeModel::Reference { inner, .. } => {
            lemma_exact_flags_report_borrowing(*inner);
        },
        TypeModel::Array { inner, .. } => {
            lemma_exact_flags_report_borrowing(*inner);
        },
        _ => {},
    }
}

/// Borrow-flag propagation at a composite whose flags are exact: a text
/// member, a byte-array member or a flagged nested composite makes it report
/// `true`; a composite of scalars alone reports `false`.
pub proof fn lemma_composite_flag(t: TypeModel)
    requires
        t is Composite,
        t.flags_exact(),
    ensures
        (exists|i: int| 0 <= i < t->fields.len() && (#[trigger] t->fields[i]).ty is CString)
            ==> t.holds(),
        (exists|i: int| 0 <= i < t->fields.len() && (#[trigger] t->fields[i]).ty.is_byte_array())
            ==> t.holds(),
        (exists|i: int|
            0 <= i < t->fields.len() && (#[trigger] t->fields[i]).ty is Composite
                && t->fields[i].ty.holds()) ==> t.holds(),
        (forall|i: int| 0 <= i < t->fields.len() ==> (#[trigger] t->fields[i]).ty.is_scalar())
            ==> !t.holds(),
{
    let fields = t->fields;
    assert forall|i: int| 0 <= i < fields.len() implies (#[trigger] fields[i]).ty.holds()
        == fields[i].ty.borrows() by {
        lemma_exact_flags_report_borrowing(fields[i].ty);
    }
}

impl<'a> Type<'a> {
    /// The mathematical value of the type.
    pub open spec fn model(&self) -> TypeModel
        decreases self,
    {
        match self {
            Type::U8 => TypeModel::U8,
            Type::U16 => TypeModel::U16,
            Type::U32 => TypeModel::U32,
            Type::U64 => TypeModel::U64,
            Type::F32 => TypeModel::F32,
            Type::F64 => TypeModel::F64,
            Type::FileName => TypeModel::FileName,
            Type::FileRef => TypeModel::FileRef,
            Type::Token => TypeModel::Token,
            Type::UUID => TypeModel::UUID,
            Type::CString { wide } => TypeModel::CString { wide: *wide },
            Type::Reference { kind, inner } => TypeModel::Reference {
                kind: *kind,
                inner: Box::new(inner.model()),
            },
            Type::Array { kind, inner } => TypeModel::Array {
                kind: *kind,
                inner: Box::new(inner.model()),
            },
            Type::Variant { variants, holds_input_references } => TypeModel::Variant {
                variants: Seq::new(
                    variants@.len(),
                    |i: int|
                        if 0 <= i < variants@.len() {
                            variants@[i].model()
                        } else {
                            TypeModel::U8
                        },
                ),
                holds_input_references: *holds_input_references,
            },
            Type::Composite { name, fields, holds_input_references } => TypeModel::Composite {
                name: name@,
                fields: Seq::new(
                    fields@.len(),
                    |i: int|
                        if 0 <= i < fields@.len() {
                            FieldModel { name: fields@[i].name@, ty: fields@[i]._type.model() }
                        } else {
                            FieldModel { name: Seq::empty(), ty: TypeModel::U8 }
                        },
                ),
                holds_input_references: *holds_input_references,
            },
        }
    }

    /// An array of `size` elements stored in place.
    pub fn inline_array(inner: Type<'a>, size: u64) -> (t: Self)
        ensures
            t.model() == (TypeModel::Array {
                kind: ArrayKind::Inline { size },
                inner: Box::new(inner.model()),
            }),
    {
        Type::Array { kind: ArrayKind::Inline { size }, inner: Box::new(inner) }
    }

    /// Whether decoded values of this type point into the input buffer.
    pub fn holds_input_references(&self) -> (b: bool)
        ensures
            b == self.model().holds(),
        decreases self,
    {
        match self {
            Type::CString { .. } => true,
            Type::Reference { inner, .. } => inner.holds_input_references(),
            Type::Array { inner, .. } => {
                let bytes = match **inner {
                    Type::U8 => true,
                    _ => false,
                };
                bytes || inner.holds_input_references()
            },
            Type::Variant { holds_input_references, .. } => *holds_input_references,
            Type::Composite { holds_input_references, .. } => *holds_input_references,
            _ => false,
        }
    }

    /// A composite of `fields`, flagged as its members call for.
    pub fn composite(name: &'a str, fields: Vec<Field<'a>>) -> (t: Self)
        ensures
            t.model() == (TypeModel::Composite {
                name: name@,
                fields: fields_model(fields@),
                holds_input_references: any_field_holds(fields_model(fields@)),
            }),
            (forall|i: int| 0 <= i < fields@.len() ==> (#[trigger] fields@[i])._type.model().flags_exact())
                ==> t.model().flags_exact(),
    {
        let mut flag = false;
        let mut i: usize = 0;
        while i < fields.len()
            invariant
                i <= fields@.len(),
                flag == exists|j: int| 0 <= j < i && (#[trigger] fields@[j])._type.model().holds(),
            decreases fields@.len() - i,
        {
            let h = fields[i]._type.holds_input_references();
            flag = flag || h;
            i += 1;
        }
        let ghost fs = fields@;
        let t = Type::Composite { name, fields, holds_input_references: flag };
        proof {
            assert(t.model()->fields =~= fields_model(fs));
            if flag {
                let j = choose|j: int| 0 <= j < fs.len() && (#[trigger] fs[j])._type.model().holds();
                assert(fields_model(fs)[j].ty.holds());
            }
            if any_field_holds(fields_model(fs)) {
                let j = choose|j: int|
                    0 <= j < fields_model(fs).len() && (#[trigger] fields_model(fs)[j]).ty.holds();
                assert(fs[j]._type.model().holds());
            }
            if forall|i: int| 0 <= i < fs.len() ==> (#[trigger] fs[i])._type.model().flags_exact() {
                let m = t.model();
                assert forall|i: int| 0 <= i < m->fields.len() implies (#[trigger] m->fields[i]).ty.holds()
                    == m->fields[i].ty.borrows() by {
                    assert(fs[i]._type.model().flags_exact());
                    lemma_exact_flags_report_borrowing(m->fields[i].ty);
                }
                if flag {
                    let j = choose|j: int| 0 <= j < fs.len() && (#[trigger] fs[j])._type.model().holds();
                    assert(m->fields[j].ty.borrows());
                }
                if m.borrows() {
                    let j = choose|j: int| 0 <= j < m->fields.len() && (#[trigger] m->fields[j]).ty.borrows();
                    assert(fs[j]._type.model().holds());
                }
            }
        }
        t
    }

    /// A variant over `variants`, flagged as its alternatives call for.
    pub fn variant(variants: Vec<Type<'a>>) -> (t: Self)
        ensures
            t.model() == (TypeModel::Variant {
                variants: types_model(variants@),
                holds_input_references: any_type_holds(types_model(variants@)),
            }),
            (forall|i: int| 0 <= i < variants@.len() ==> (#[trigger] variants@[i]).model().flags_exact())
                ==> t.model().flags_exact(),
    {
        let mut flag = false;
        let mut i: usize = 0;
        while i < variants.len()
            invariant
                i <= variants@.len(),
                flag == exists|j: int| 0 <= j < i && (#[trigger] variants@[j]).model().holds(),
            decreases variants@.len() - i,
        {
            let h = variants[i].holds_input_references();
            flag = flag || h;
            i += 1;
        }
        let ghost vs = variants@;
        let t = Type::Variant { variants, holds_input_references: flag };
        proof {
            assert(t.model()->variants =~= types_model(vs));
            if flag {
                let j = choose|j: int| 0 <= j < vs.len() && (#[trigger] vs[j]).model().holds();
                assert(types_model(vs)[j].holds());
            }
            if any_type_holds(types_model(vs)) {
                let j = choose|j: int|
                    0 <= j < types_model(vs).len() && (#[trigger] types_model(vs)[j]).holds();
                assert(vs[j].model().holds());
            }
            if forall|i: int| 0 <= i < vs.len() ==> (#[trigger] vs[i]).model().flags_exact() {
                let m = t.model();
                assert forall|i: int| 0 <= i < m->variants.len() implies (#[trigger] m->variants[i]).holds()
                    == m->variants[i].borrows() by {
                    assert(vs[i].model().flags_exact());
                    lemma_exact_flags_report_borrowing(m->variants[i]);
                }
                if flag {
                    let j = choose|j: int| 0 <= j < vs.len() && (#[trigger] vs[j]).model().holds();
                    assert(m->variants[j].borrows());
                }
                if m.borrows() {
                    let j = choose|j: int| 0 <= j < m->variants.len() && (#[trigger] m->variants[j]).borrows();
                    assert(vs[j].model().holds());
                }
            }
        }
        t
    }
}

/// Some member of the list reports that it borrows.
pub open spec fn any_field_holds(fields: Seq<FieldModel>) -> bool {
    exists|i: int| 0 <= i < fields.len() && (#[trigger] fields[i]).ty.holds()
}

/// Some alternative of the list reports that it borrows.
pub open spec fn any_type_holds(types: Seq<TypeModel>) -> bool {
    exists|i: int| 0 <= i < types.len() && (#[trigger] types[i]).holds()
}

/// Some version of the list reports that it borrows.
pub open spec fn any_version_holds(versions: Seq<VersionModel>) -> bool {
    exists|i: int| 0 <= i < versions.len() && (#[trigger] versions[i]).root.holds()
}

/// The values of a list of fields, in order.
pub open spec fn fields_model(fields: Seq<Field<'_>>) -> Seq<FieldModel> {
    Seq::new(fields.len(), |i: int| FieldModel { name: fields[i].name@, ty: fields[i]._type.model() })
}

/// The values of a list of types, in order.
pub open spec fn types_model(types: Seq<Type<'_>>) -> Seq<TypeModel> {
    Seq::new(types.len(), |i: int| types[i].model())
}

impl<'a> DeepView for Type<'a> {
    type V = TypeModel;

    open spec fn deep_view(&self) -> TypeModel {
        self.model()
    }
}

impl<'a> DeepView for Field<'a> {
    type V = FieldModel;

    open spec fn deep_view(&self) -> FieldModel {
        FieldModel { name: self.name@, ty: self._type.model() }
    }
}

impl<'a> DeepView for SpecificChunkVersion<'a> {
    type V = VersionModel;

    open spec fn deep_view(&self) -> VersionModel {
        VersionModel { version: self.version, root: self.root.model() }
    }
}

impl<'a> DeepView for Chunk<'a> {
    type V = ChunkModel;

    open spec fn deep_view(&self) -> ChunkModel {
        ChunkModel {
            magic: self.magic@,
            holds_input_references: self.holds_input_references,
            versions: Seq::new(self.versions@.len(), |i: int| self.versions@[i].deep_view()),
        }
    }
}

} // verus!
