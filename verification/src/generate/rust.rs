//! Rendering of a recovered schema as declarations in Rust.

use vstd::prelude::*;
use vstd::string::StringExecFns;
use std::borrow::Cow;
use crate::bytes::text_eq;
use crate::generate::{
    decimal, distinct, field_lines, get_variant_type_name, insert_text,
    longest_member, push_decimal, push_field_lines, texts, variant_type_name, Language,
};
use crate::structure::{
    fields_model, types_model, ArrayKind, Chunk, ChunkModel, ReferenceKind, Type, TypeModel,
    VersionModel,
};

verus! {

/// The words that cannot name a member as they stand.
pub open spec fn is_reserved(raw: Seq<char>) -> bool {
    raw == "as"@
        || raw == "break"@
        || raw == "const"@
        || raw == "continue"@
        || raw == "crate"@
        || raw == "else"@
        || raw == "enum"@
        || raw == "extern"@
        || raw == "false"@
        || raw == "fn"@
        || raw == "for"@
        || raw == "if"@
        || raw == "impl"@
        || raw == "in"@
        || raw == "let"@
        || raw == "loop"@
        || raw == "match"@
        || raw == "mod"@
        || raw == "move"@
        || raw == "mut"@
        || raw == "pub"@
        || raw == "ref"@
        || raw == "return"@
        || raw == "self"@
        || raw == "Self"@
        || raw == "static"@
        || raw == "struct"@
        || raw == "super"@
        || raw == "trait"@
        || raw == "true"@
        || raw == "type"@
        || raw == "unsafe"@
        || raw == "use"@
        || raw == "where"@
        || raw == "while"@
        || raw == "async"@
        || raw == "await"@
        || raw == "dyn"@
        || raw == "abstract"@
        || raw == "become"@
        || raw == "box"@
        || raw == "do"@
        || raw == "final"@
        || raw == "macro"@
        || raw == "override"@
        || raw == "priv"@
        || raw == "typeof"@
        || raw == "unsized"@
        || raw == "virtual"@
        || raw == "yield"@
        || raw == "try"@
}

/// The name of a member: a reserved word gets `r#` in front.
pub open spec fn member_name(raw: Seq<char>) -> Seq<char> {
    if is_reserved(raw) {
        "r#"@ + raw
    } else {
        raw
    }
}

/// Tells whether a word cannot name a member as it stands.
pub fn reserved(raw: &str) -> (b: bool)
    ensures
        b == is_reserved(raw@),
{
    text_eq(raw, "as")
        || text_eq(raw, "break")
        || text_eq(raw, "const")
        || text_eq(raw, "continue")
        || text_eq(raw, "crate")
        || text_eq(raw, "else")
        || text_eq(raw, "enum")
        || text_eq(raw, "extern")
        || text_eq(raw, "false")
        || text_eq(raw, "fn")
        || text_eq(raw, "for")
        || text_eq(raw, "if")
        || text_eq(raw, "impl")
        || text_eq(raw, "in")
        || text_eq(raw, "let")
        || text_eq(raw, "loop")
        || text_eq(raw, "match")
        || text_eq(raw, "mod")
        || text_eq(raw, "move")
        || text_eq(raw, "mut")
        || text_eq(raw, "pub")
        || text_eq(raw, "ref")
        || text_eq(raw, "return")
        || text_eq(raw, "self")
        || text_eq(raw, "Self")
        || text_eq(raw, "static")
        || text_eq(raw, "struct")
        || text_eq(raw, "super")
        || text_eq(raw, "trait")
        || text_eq(raw, "true")
        || text_eq(raw, "type")
        || text_eq(raw, "unsafe")
        || text_eq(raw, "use")
        || text_eq(raw, "where")
        || text_eq(raw, "while")
        || text_eq(raw, "async")
        || text_eq(raw, "await")
        || text_eq(raw, "dyn")
        || text_eq(raw, "abstract")
        || text_eq(raw, "become")
        || text_eq(raw, "box")
        || text_eq(raw, "do")
        || text_eq(raw, "final")
        || text_eq(raw, "macro")
        || text_eq(raw, "override")
        || text_eq(raw, "priv")
        || text_eq(raw, "typeof")
        || text_eq(raw, "unsized")
        || text_eq(raw, "virtual")
        || text_eq(raw, "yield")
        || text_eq(raw, "try")
}

/// The name of a member, as a text of its own.
pub fn member_text(raw: &str) -> (text: String)
    ensures
        text@ == member_name(raw@),
{
    if reserved(raw) {
        let mut text = String::from_str("r#");
        text.append(raw);
        text
    } else {
        String::from_str(raw)
    }
}

/// The name of a member: a reserved word gets `r#` in front.
pub fn format_member_name<'a>(raw_name: &'a str) -> (name: Cow<'a, str>)
    ensures
        name@ == member_name(raw_name@),
{
    if reserved(raw_name) {
        Cow::Owned(member_text(raw_name))
    } else {
        Cow::Borrowed(raw_name)
    }
}

/// The name of a type.
pub open spec fn name_of_type(t: TypeModel) -> Seq<char>
    decreases t,
{
    match t {
        TypeModel::U8 => "u8"@,
        TypeModel::U16 => "u16"@,
        TypeModel::U32 => "u32"@,
        TypeModel::U64 => "u64"@,
        TypeModel::F32 => "f32"@,
        TypeModel::F64 => "f64"@,
        TypeModel::FileName => "FileName"@,
        TypeModel::FileRef => "FileRef"@,
        TypeModel::Token => "Token"@,
        TypeModel::UUID => "UUID"@,
        TypeModel::CString { wide } => if wide {
            "WideCString"@
        } else {
            "CString"@
        },
        TypeModel::Reference { kind, inner } => if kind == ReferenceKind::Optional {
            "Option<"@ + name_of_type(*inner) + ">"@
        } else {
            name_of_type(*inner)
        },
        TypeModel::Array { kind, inner } => match kind {
            ArrayKind::Inline { size } => "["@ + name_of_type(*inner) + "; "@ + decimal(size as nat)
                + "]"@,
            ArrayKind::Pointers { .. } => "Vec<Option<"@ + name_of_type(*inner) + ">>"@,
            _ => if *inner == TypeModel::U8 {
                "&'a [u8]"@
            } else {
                "Vec<"@ + name_of_type(*inner) + ">"@
            },
        },
        TypeModel::Variant { .. } => variant_type_name(t),
        TypeModel::Composite { name, holds_input_references, .. } => if holds_input_references {
            name + "<'a>"@
        } else {
            name
        },
    }
}

/// Appends the name of a type.
pub fn push_type_name(out: &mut String, _type: &Type)
    ensures
        final(out)@ == old(out)@ + name_of_type(_type.model()),
    decreases _type,
{
    let ghost before = out@;
    match _type {
        Type::U8 => out.append("u8"),
        Type::U16 => out.append("u16"),
        Type::U32 => out.append("u32"),
        Type::U64 => out.append("u64"),
        Type::F32 => out.append("f32"),
        Type::F64 => out.append("f64"),
        Type::FileName => out.append("FileName"),
        Type::FileRef => out.append("FileRef"),
        Type::Token => out.append("Token"),
        Type::UUID => out.append("UUID"),
        Type::CString { wide } => {
            if *wide {
                out.append("WideCString");
            } else {
                out.append("CString");
            }
        },
        Type::Reference { kind, inner } => {
            let optional = match kind {
                ReferenceKind::Optional => true,
                _ => false,
            };
            if optional {
                out.append("Option<");
                push_type_name(out, inner);
                out.append(">");
            } else {
                push_type_name(out, inner);
            }
        },
        Type::Array { kind, inner } => {
            match kind {
                ArrayKind::Inline { size } => {
                    out.append("[");
                    push_type_name(out, inner);
                    out.append("; ");
                    push_decimal(out, *size);
                    out.append("]");
                },
                ArrayKind::Pointers { .. } => {
                    out.append("Vec<Option<");
                    push_type_name(out, inner);
                    out.append(">>");
                },
                _ => {
                    let bytes = match **inner {
                        Type::U8 => true,
                        _ => false,
                    };
                    if bytes {
                        out.append("&'a [u8]");
                    } else {
                        out.append("Vec<");
                        push_type_name(out, inner);
                        out.append(">");
                    }
                },
            }
        },
        Type::Variant { .. } => {
            let name = get_variant_type_name(_type);
            out.append(name.as_str());
        },
        Type::Composite { name, holds_input_references, .. } => {
            out.append(name);
            if *holds_input_references {
                out.append("<'a>");
            }
        },
    }
    assert(out@ =~= before + name_of_type(_type.model()));
}

/// The name of a type.
pub fn format_type_name(_type: &Type) -> (name: String)
    ensures
        name@ == name_of_type(_type.model()),
{
    let mut name = String::new();
    push_type_name(&mut name, _type);
    assert(Seq::<char>::empty() + name_of_type(_type.model()) =~= name_of_type(_type.model()));
    name
}

/// The line that declares a version of a chunk.
pub open spec fn version_line(version: VersionModel) -> Seq<char> {
    "\t#[v("@ + decimal(version.version as nat) + ")] V"@ + decimal(version.version as nat) + "(v"@
        + decimal(version.version as nat) + "::"@ + name_of_type(version.root) + "),\n"@
}

/// The lines that declare the first `n` versions of a chunk.
pub open spec fn version_lines(versions: Seq<VersionModel>, n: nat) -> Seq<char>
    decreases n,
{
    if n == 0 || n > versions.len() {
        Seq::empty()
    } else {
        version_lines(versions, (n - 1) as nat) + version_line(versions[n - 1])
    }
}

/// The declaration of a chunk: one alternative for each of its versions.
pub open spec fn chunk_text(chunk: ChunkModel) -> Seq<char> {
    "#[derive(Debug, crate::Parse)]\n"@ + "#[chunk]\n"@ + "pub enum "@ + chunk.magic + (if chunk.holds_input_references {
        "<'a>"@
    } else {
        Seq::empty()
    }) + " {\n"@ + version_lines(chunk.versions, chunk.versions.len()) + "}\n"@
}

/// The declaration of a chunk: one alternative for each of its versions.
pub fn export_chunk(chunk: &Chunk) -> (text: String)
    ensures
        text@ == chunk_text(chunk.deep_view()),
{
    let ghost versions = chunk.deep_view().versions;
    let mut out = String::from_str("#[derive(Debug, crate::Parse)]\n");
    out.append("#[chunk]\n");
    out.append("pub enum ");
    out.append(chunk.magic);
    if chunk.holds_input_references {
        out.append("<'a>");
    } else {
        assert(out@ + Seq::<char>::empty() =~= out@);
    }
    out.append(" {\n");
    let ghost head = out@;
    assert(head + Seq::<char>::empty() =~= head);
    let mut i: usize = 0;
    while i < chunk.versions.len()
        invariant
            i <= chunk.versions@.len(),
            versions == chunk.deep_view().versions,
            out@ == head + version_lines(versions, i as nat),
        decreases chunk.versions@.len() - i,
    {
        let version = &chunk.versions[i];
        assert(versions[i as int] == version.deep_view());
        let mut line = String::from_str("\t#[v(");
        push_decimal(&mut line, version.version as u64);
        line.append(")] V");
        push_decimal(&mut line, version.version as u64);
        line.append("(v");
        push_decimal(&mut line, version.version as u64);
        line.append("::");
        push_type_name(&mut line, &version.root);
        line.append("),\n");
        assert(line@ =~= version_line(versions[i as int]));
        out.append(line.as_str());
        assert(out@ =~= head + version_lines(versions, (i + 1) as nat));
        i += 1;
    }
    out.append("}\n");
    out
}

/// The line that declares an alternative of a variant.
pub open spec fn alternative_line(index: nat, alternative: TypeModel) -> Seq<char> {
    "\tVar"@ + decimal(index) + "("@ + name_of_type(alternative) + "),\n"@
}

/// The lines that declare the first `n` alternatives of a variant.
pub open spec fn alternative_lines(variants: Seq<TypeModel>, n: nat) -> Seq<char>
    decreases n,
{
    if n == 0 || n > variants.len() {
        Seq::empty()
    } else {
        alternative_lines(variants, (n - 1) as nat) + alternative_line(
            (n - 1) as nat,
            variants[n - 1],
        )
    }
}

/// The declaration of a type: of a composite with its fields, of a variant
/// with its alternatives. No other type has a declaration.
pub open spec fn type_text(t: TypeModel) -> Option<Seq<char>> {
    match t {
        TypeModel::Composite { name, fields, holds_input_references } => Some(
            "#[derive(Debug, crate::Parse)]\n"@ + "pub struct "@ + name + (if holds_input_references {
            "<'a>"@
        } else {
            Seq::empty()
        }) + " {\n"@ + field_lines(
            fields,
            fields.len(),
            longest_member(fields, fields.len(), Language::Rust),
            Language::Rust,
        ) + "}\n"@,
        ),
        TypeModel::Variant { variants, .. } => Some(
            "#[derive(Debug, crate::Parse)]\n"@ + "pub enum "@ + variant_type_name(t) + " {\n"@ + alternative_lines(
            variants,
            variants.len(),
        ) + "}\n"@,
        ),
        _ => None,
    }
}

/// Appends the lines that declare the alternatives of a variant.
fn push_alternative_lines(out: &mut String, variants: &Vec<Type>)
    ensures
        final(out)@ == old(out)@ + alternative_lines(types_model(variants@), variants@.len()),
{
    let ghost models = types_model(variants@);
    assert(out@ + Seq::<char>::empty() =~= out@);
    let mut i: usize = 0;
    while i < variants.len()
        invariant
            i <= variants@.len(),
            models == types_model(variants@),
            out@ == old(out)@ + alternative_lines(models, i as nat),
        decreases variants@.len() - i,
    {
        assert(models[i as int] == variants@[i as int].model());
        let mut line = String::from_str("\tVar");
        push_decimal(&mut line, i as u64);
        line.append("(");
        push_type_name(&mut line, &variants[i]);
        line.append("),\n");
        assert(line@ =~= alternative_line(i as nat, models[i as int]));
        out.append(line.as_str());
        assert(out@ =~= old(out)@ + alternative_lines(models, (i + 1) as nat));
        i += 1;
    }
}

/// The declaration of a type, if it has one.
pub fn export_type(_type: &Type) -> (text: Option<String>)
    ensures
        match type_text(_type.model()) {
            Some(declaration) => text is Some && text->Some_0@ == declaration,
            None => text is None,
        },
{
    match _type {
        Type::Composite { name, fields, holds_input_references } => {
            assert(_type.model()->fields =~= fields_model(fields@));
            let mut out = String::from_str("#[derive(Debug, crate::Parse)]\n");
            out.append("pub struct ");
            out.append(name);
            if *holds_input_references {
                out.append("<'a>");
            } else {
                assert(out@ + Seq::<char>::empty() =~= out@);
            }
            out.append(" {\n");
            push_field_lines(&mut out, fields, Language::Rust);
            out.append("}\n");
            Some(out)
        },
        Type::Variant { variants, .. } => {
            assert(_type.model()->variants =~= types_model(variants@));
            let mut out = String::from_str("#[derive(Debug, crate::Parse)]\n");
            out.append("pub enum ");
            out.append(get_variant_type_name(_type).as_str());
            out.append(" {\n");
            push_alternative_lines(&mut out, variants);
            out.append("}\n");
            Some(out)
        },
        _ => None,
    }
}

/// What the declarations of a type need from outside: the names of the library types that the declarations mention.
pub open spec fn imports_of(t: TypeModel) -> Set<Seq<char>>
    decreases t, 1nat, 0nat,
{
    match t {
        TypeModel::FileName => set!["FileName"@],
        TypeModel::FileRef => set!["FileRef"@],
        TypeModel::Token => set!["Token"@],
        TypeModel::CString { wide } => if wide {
            set!["WideCString"@]
        } else {
            set!["CString"@]
        },
        TypeModel::Array { inner, .. } => imports_of(*inner),
        TypeModel::Reference { inner, .. } => imports_of(*inner),
        TypeModel::Variant { variants, .. } => member_imports(t, variants.len()),
        TypeModel::Composite { fields, .. } => member_imports(t, fields.len()),
        _ => Set::empty(),
    }
}

/// What the first `n` members of a variant or a composite need from
/// outside.
pub open spec fn member_imports(t: TypeModel, n: nat) -> Set<Seq<char>>
    decreases t, 0nat, n,
{
    if n == 0 {
        Set::empty()
    } else {
        member_imports(t, (n - 1) as nat).union(
            match t {
                TypeModel::Variant { variants, .. } => if n <= variants.len() {
                    imports_of(variants[n - 1])
                } else {
                    Set::empty()
                },
                TypeModel::Composite { fields, .. } => if n <= fields.len() {
                    imports_of(fields[n - 1].ty)
                } else {
                    Set::empty()
                },
                _ => Set::empty(),
            },
        )
    }
}

/// Adds to a list without repetitions what the declarations of a type need
/// from outside.
pub fn add_required_imports_for_type_recursive(imports: &mut Vec<&'static str>, _type: &Type)
    ensures
        texts(final(imports)@) == texts(old(imports)@).union(imports_of(_type.model())),
        distinct(old(imports)@) ==> distinct(final(imports)@),
    decreases _type,
{
    let ghost before = texts(imports@);
    match _type {
        Type::FileName => insert_text(imports, "FileName"),
        Type::FileRef => insert_text(imports, "FileRef"),
        Type::Token => insert_text(imports, "Token"),
        Type::CString { wide } => {
            if *wide {
                insert_text(imports, "WideCString");
            } else {
                insert_text(imports, "CString");
            }
        },
        Type::Array { inner, .. } => add_required_imports_for_type_recursive(imports, inner),
        Type::Reference { inner, .. } => add_required_imports_for_type_recursive(imports, inner),
        Type::Variant { variants, .. } => {
            let mut i: usize = 0;
            while i < variants.len()
                invariant
                    i <= variants@.len(),
                    _type matches Type::Variant { variants: vs, .. } && vs == variants,
                    texts(imports@) =~= before.union(member_imports(_type.model(), i as nat)),
                    distinct(old(imports)@) ==> distinct(imports@),
                decreases variants@.len() - i,
            {
                assert(_type.model()->variants[i as int] == variants@[i as int].model());
                add_required_imports_for_type_recursive(imports, &variants[i]);
                i += 1;
            }
        },
        Type::Composite { fields, .. } => {
            let mut i: usize = 0;
            while i < fields.len()
                invariant
                    i <= fields@.len(),
                    _type matches Type::Composite { fields: fs, .. } && fs == fields,
                    texts(imports@) =~= before.union(member_imports(_type.model(), i as nat)),
                    distinct(old(imports)@) ==> distinct(imports@),
                decreases fields@.len() - i,
            {
                assert(_type.model()->fields[i as int].ty == fields@[i as int]._type.model());
                add_required_imports_for_type_recursive(imports, &fields[i]._type);
                i += 1;
            }
        },
        _ => {},
    }
    assert(texts(imports@) =~= before.union(imports_of(_type.model())));
}

} // verus!
