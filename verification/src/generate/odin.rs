//! Rendering of a recovered schema as declarations in Odin.

use vstd::prelude::*;
use vstd::string::StringExecFns;
use std::borrow::Cow;
use crate::generate::{
    decimal, distinct, field_lines, get_variant_type_name, insert_text,
    longest_member, push_decimal, push_field_lines, texts, variant_type_name, Language,
};
use crate::structure::{
    fields_model, types_model, ArrayKind, Chunk, ChunkModel, ReferenceKind, Type, TypeModel,
    VersionModel,
};

verus! {

/// The name of a member: every name can stand as it is.
pub fn format_member_name<'a>(raw_name: &'a str) -> (name: Cow<'a, str>)
    ensures
        name@ == raw_name@,
{
    Cow::Borrowed(raw_name)
}

/// The name of a type.
pub open spec fn name_of_type(t: TypeModel) -> Seq<char>
    decreases t,
{
    match t {
        TypeModel::U8 => "u8"@,
        TypeModel::U16 => "u16"@,
        TypeModel::U32 => "u32"@,
        TypeModel::U64 => "u64"@,
        TypeModel::F32 => "f32"@,
        TypeModel::F64 => "f64"@,
        TypeModel::FileName => "pf.FileName"@,
        TypeModel::FileRef => "pf.FileRef"@,
        TypeModel::Token => "pf.Token64"@,
        TypeModel::UUID => "UUID"@,
        TypeModel::CString { wide } => if wide {
            "string16"@
        } else {
            "string"@
        },
        TypeModel::Reference { kind, inner } => if kind == ReferenceKind::Optional {
            "Maybe("@ + name_of_type(*inner) + ")"@
        } else {
            name_of_type(*inner)
        },
        TypeModel::Array { kind, inner } => match kind {
            ArrayKind::Inline { size } => "["@ + decimal(size as nat) + "]"@ + name_of_type(*inner),
            ArrayKind::Fixed { size } => "["@ + decimal(size as nat) + "]"@ + name_of_type(*inner),
            ArrayKind::Pointers { .. } => "[]Maybe("@ + name_of_type(*inner) + ")"@,
            _ => if *inner == TypeModel::U8 {
                "[]byte"@
            } else {
                "[]"@ + name_of_type(*inner)
            },
        },
        TypeModel::Variant { .. } => variant_type_name(t),
        TypeModel::Composite { name, .. } => name,
    }
}

/// Appends the name of a type.
pub fn push_type_name(out: &mut String, _type: &Type)
    ensures
        final(out)@ == old(out)@ + name_of_type(_type.model()),
    decreases _type,
{
    let ghost before = out@;
    match _type {
        Type::U8 => out.append("u8"),
        Type::U16 => out.append("u16"),
        Type::U32 => out.append("u32"),
        Type::U64 => out.append("u64"),
        Type::F32 => out.append("f32"),
        Type::F64 => out.append("f64"),
        Type::FileName => out.append("pf.FileName"),
        Type::FileRef => out.append("pf.FileRef"),
        Type::Token => out.append("pf.Token64"),
        Type::UUID => out.append("UUID"),
        Type::CString { wide } => {
            if *wide {
                out.append("string16");
            } else {
                out.append("string");
            }
        },
        Type::Reference { kind, inner } => {
            let optional = match kind {
                ReferenceKind::Optional => true,
                _ => false,
            };
            if optional {
                out.append("Maybe(");
                push_type_name(out, inner);
                out.append(")");
            } else {
                push_type_name(out, inner);
            }
        },
        Type::Array { kind, inner } => {
            match kind {
                ArrayKind::Inline { size } => {
                    out.append("[");
                    push_decimal(out, *size);
                    out.append("]");
                    push_type_name(out, inner);
                },
                ArrayKind::Fixed { size } => {
                    out.append("[");
                    push_decimal(out, *size);
                    out.append("]");
                    push_type_name(out, inner);
                },
                ArrayKind::Pointers { .. } => {
                    out.append("[]Maybe(");
                    push_type_name(out, inner);
                    out.append(")");
                },
                _ => {
                    let bytes = match **inner {
                        Type::U8 => true,
                        _ => false,
                    };
                    if bytes {
                        out.append("[]byte");
                    } else {
                        out.append("[]");
                        push_type_name(out, inner);
                    }
                },
            }
        },
        Type::Variant { .. } => {
            let name = get_variant_type_name(_type);
            out.append(name.as_str());
        },
        Type::Composite { name, .. } => {
            out.append(name);
        },
    }
    assert(out@ =~= before + name_of_type(_type.model()));
}

/// The name of a type.
pub fn format_type_name(_type: &Type) -> (name: String)
    ensures
        name@ == name_of_type(_type.model()),
{
    let mut name = String::new();
    push_type_name(&mut name, _type);
    assert(Seq::<char>::empty() + name_of_type(_type.model()) =~= name_of_type(_type.model()));
    name
}

/// The line that declares a version of a chunk.
pub open spec fn version_line(version: VersionModel) -> Seq<char> {
    "\t v"@ + decimal(version.version as nat) + ".Chunk,\n"@
}

/// The lines that declare the first `n` versions of a chunk.
pub open spec fn version_lines(versions: Seq<VersionModel>, n: nat) -> Seq<char>
    decreases n,
{
    if n == 0 || n > versions.len() {
        Seq::empty()
    } else {
        version_lines(versions, (n - 1) as nat) + version_line(versions[n - 1])
    }
}

/// The declaration of a chunk: one alternative for each of its versions.
pub open spec fn chunk_text(chunk: ChunkModel) -> Seq<char> {
    "Chunk :: union #no_nil {\n"@ + version_lines(chunk.versions, chunk.versions.len()) + "}\n"@
}

/// The declaration of a chunk: one alternative for each of its versions.
pub fn export_chunk(chunk: &Chunk) -> (text: String)
    ensures
        text@ == chunk_text(chunk.deep_view()),
{
    let ghost versions = chunk.deep_view().versions;
    let mut out = String::from_str("Chunk :: union #no_nil {\n");
    let ghost head = out@;
    assert(head + Seq::<char>::empty() =~= head);
    let mut i: usize = 0;
    while i < chunk.versions.len()
        invariant
            i <= chunk.versions@.len(),
            versions == chunk.deep_view().versions,
            out@ == head + version_lines(versions, i as nat),
        decreases chunk.versions@.len() - i,
    {
        let version = &chunk.versions[i];
        assert(versions[i as int] == version.deep_view());
        let mut line = String::from_str("\t v");
        push_decimal(&mut line, version.version as u64);
        line.append(".Chunk,\n");
        assert(line@ =~= version_line(versions[i as int]));
        out.append(line.as_str());
        assert(out@ =~= head + version_lines(versions, (i + 1) as nat));
        i += 1;
    }
    out.append("}\n");
    out
}

/// The line that declares an alternative of a variant.
pub open spec fn alternative_line(index: nat, alternative: TypeModel) -> Seq<char> {
    "\t"@ + name_of_type(alternative) + ",\n"@
}

/// The lines that declare the first `n` alternatives of a variant.
pub open spec fn alternative_lines(variants: Seq<TypeModel>, n: nat) -> Seq<char>
    decreases n,
{
    if n == 0 || n > variants.len() {
        Seq::empty()
    } else {
        alternative_lines(variants, (n - 1) as nat) + alternative_line(
            (n - 1) as nat,
            variants[n - 1],
        )
    }
}

/// The declaration of a type: of a composite with its fields, of a variant
/// with its alternatives. No other type has a declaration.
pub open spec fn type_text(t: TypeModel) -> Option<Seq<char>> {
    match t {
        TypeModel::Composite { name, fields, holds_input_references } => Some(
            name + " :: struct {\n"@ + field_lines(
            fields,
            fields.len(),
            longest_member(fields, fields.len(), Language::Odin),
            Language::Odin,
        ) + "}\n"@,
        ),
        TypeModel::Variant { variants, .. } => Some(
            variant_type_name(t) + " :: union {\n"@ + alternative_lines(
            variants,
            variants.len(),
        ) + "}\n"@,
        ),
        _ => None,
    }
}

/// Appends the lines that declare the alternatives of a variant.
fn push_alternative_lines(out: &mut String, variants: &Vec<Type>)
    ensures
        final(out)@ == old(out)@ + alternative_lines(types_model(variants@), variants@.len()),
{
    let ghost models = types_model(variants@);
    assert(out@ + Seq::<char>::empty() =~= out@);
    let mut i: usize = 0;
    while i < variants.len()
        invariant
            i <= variants@.len(),
            models == types_model(variants@),
            out@ == old(out)@ + alternative_lines(models, i as nat),
        decreases variants@.len() - i,
    {
        assert(models[i as int] == variants@[i as int].model());
        let mut line = String::from_str("\t");
        push_type_name(&mut line, &variants[i]);
        line.append(",\n");
        assert(line@ =~= alternative_line(i as nat, models[i as int]));
        out.append(line.as_str());
        assert(out@ =~= old(out)@ + alternative_lines(models, (i + 1) as nat));
        i += 1;
    }
}

/// The declaration of a type, if it has one.
pub fn export_type(_type: &Type) -> (text: Option<String>)
    ensures
        match type_text(_type.model()) {
            Some(declaration) => text is Some && text->Some_0@ == declaration,
            None => text is None,
        },
{
    match _type {
        Type::Composite { name, fields, holds_input_references } => {
            assert(_type.model()->fields =~= fields_model(fields@));
            let mut out = String::from_str(name);
            out.append(" :: struct {\n");
            push_field_lines(&mut out, fields, Language::Odin);
            out.append("}\n");
            Some(out)
        },
        Type::Variant { variants, .. } => {
            assert(_type.model()->variants =~= types_model(variants@));
            let mut out = get_variant_type_name(_type);
            out.append(" :: union {\n");
            push_alternative_lines(&mut out, variants);
            out.append("}\n");
            Some(out)
        },
        _ => None,
    }
}

/// What the declarations of a type need from outside: the names of the packages that the declarations mention.
pub open spec fn imports_of(t: TypeModel) -> Set<Seq<char>>
    decreases t, 1nat, 0nat,
{
    match t {
        TypeModel::FileName => set!["pf"@],
        TypeModel::FileRef => set!["pf"@],
        TypeModel::Token => set!["pf"@],
        TypeModel::Array { inner, .. } => imports_of(*inner),
        TypeModel::Reference { inner, .. } => imports_of(*inner),
        TypeModel::Variant { variants, .. } => member_imports(t, variants.len()),
        TypeModel::Composite { fields, .. } => member_imports(t, fields.len()),
        _ => Set::empty(),
    }
}

/// What the first `n` members of a variant or a composite need from
/// outside.
pub open spec fn member_imports(t: TypeModel, n: nat) -> Set<Seq<char>>
    decreases t, 0nat, n,
{
    if n == 0 {
        Set::empty()
    } else {
        member_imports(t, (n - 1) as nat).union(
            match t {
                TypeModel::Variant { variants, .. } => if n <= variants.len() {
                    imports_of(variants[n - 1])
                } else {
                    Set::empty()
                },
                TypeModel::Composite { fields, .. } => if n <= fields.len() {
                    imports_of(fields[n - 1].ty)
                } else {
                    Set::empty()
                },
                _ => Set::empty(),
            },
        )
    }
}

/// Adds to a list without repetitions what the declarations of a type need
/// from outside.
pub fn add_required_imports_for_type_recursive(imports: &mut Vec<&'static str>, _type: &Type)
    ensures
        texts(final(imports)@) == texts(old(imports)@).union(imports_of(_type.model())),
        distinct(old(imports)@) ==> distinct(final(imports)@),
    decreases _type,
{
    let ghost before = texts(imports@);
    match _type {
        Type::FileName => insert_text(imports, "pf"),
        Type::FileRef => insert_text(imports, "pf"),
        Type::Token => insert_text(imports, "pf"),
        Type::Array { inner, .. } => add_required_imports_for_type_recursive(imports, inner),
        Type::Reference { inner, .. } => add_required_imports_for_type_recursive(imports, inner),
        Type::Variant { variants, .. } => {
            let mut i: usize = 0;
            while i < variants.len()
                invariant
                    i <= variants@.len(),
                    _type matches Type::Variant { variants: vs, .. } && vs == variants,
                    texts(imports@) =~= before.union(member_imports(_type.model(), i as nat)),
                    distinct(old(imports)@) ==> distinct(imports@),
                decreases variants@.len() - i,
            {
                assert(_type.model()->variants[i as int] == variants@[i as int].model());
                add_required_imports_for_type_recursive(imports, &variants[i]);
                i += 1;
            }
        },
        Type::Composite { fields, .. } => {
            let mut i: usize = 0;
            while i < fields.len()
                invariant
                    i <= fields@.len(),
                    _type matches Type::Composite { fields: fs, .. } && fs == fields,
                    texts(imports@) =~= before.union(member_imports(_type.model(), i as nat)),
                    distinct(old(imports)@) ==> distinct(imports@),
                decreases fields@.len() - i,
            {
                assert(_type.model()->fields[i as int].ty == fields@[i as int]._type.model());
                add_required_imports_for_type_recursive(imports, &fields[i]._type);
                i += 1;
            }
        },
        _ => {},
    }
    assert(texts(imports@) =~= before.union(imports_of(_type.model())));
}

} // verus!
