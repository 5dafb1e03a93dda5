//! Rendering of a recovered schema as source text. What the two target
//! languages share is here: numbers as text, the walk that lists the types
//! to declare, and the names of variant types.

use vstd::prelude::*;
use vstd::wrapping::u64_specs::{wrapping_add, wrapping_mul};
use crate::bytes::text_eq;
use crate::structure::{ArrayKind, Field, FieldModel, ReferenceKind, Type, TypeModel};

pub mod odin;
pub mod rust;

verus! {

/// The text of a decimal digit.
pub open spec fn digit_text(d: int) -> Seq<char> {
    if d == 0 {
        "0"@
    } else if d == 1 {
        "1"@
    } else if d == 2 {
        "2"@
    } else if d == 3 {
        "3"@
    } else if d == 4 {
        "4"@
    } else if d == 5 {
        "5"@
    } else if d == 6 {
        "6"@
    } else if d == 7 {
        "7"@
    } else if d == 8 {
        "8"@
    } else {
        "9"@
    }
}

/// The decimal text of a number, without leading zeros.
pub open spec fn decimal(n: nat) -> Seq<char>
    decreases n,
{
    if n < 10 {
        digit_text(n as int)
    } else {
        decimal(n / 10) + digit_text((n % 10) as int)
    }
}

/// `n` spaces.
pub open spec fn spaces(n: nat) -> Seq<char>
    decreases n,
{
    if n == 0 {
        Seq::empty()
    } else {
        spaces((n - 1) as nat) + " "@
    }
}

/// The text of a decimal digit.
fn digit(d: u64) -> (text: &'static str)
    requires
        d < 10,
    ensures
        text@ == digit_text(d as int),
{
    if d == 0 {
        "0"
    } else if d == 1 {
        "1"
    } else if d == 2 {
        "2"
    } else if d == 3 {
        "3"
    } else if d == 4 {
        "4"
    } else if d == 5 {
        "5"
    } else if d == 6 {
        "6"
    } else if d == 7 {
        "7"
    } else if d == 8 {
        "8"
    } else {
        "9"
    }
}

/// Appends the decimal text of a number.
pub fn push_decimal(out: &mut String, n: u64)
    ensures
        final(out)@ == old(out)@ + decimal(n as nat),
    decreases n,
{
    if n >= 10 {
        push_decimal(out, n / 10);
    }
    out.append(digit(n % 10));
}

/// Appends `n` spaces.
pub fn push_spaces(out: &mut String, n: usize)
    ensures
        final(out)@ == old(out)@ + spaces(n as nat),
{
    let mut i: usize = 0;
    while i < n
        invariant
            i <= n,
            out@ == old(out)@ + spaces(i as nat),
        decreases n - i,
    {
        out.append(" ");
        i += 1;
    }
}

/// Where a hash starts.
pub const HASH_SEED: u64 = 0xcbf2_9ce4_8422_2325;

/// What a hash is multiplied by before the next number is added.
pub const HASH_FACTOR: u64 = 0x100_0000_01b3;

/// The hash `h` after the number `x`: `h * HASH_FACTOR + x`, modulo 2^64.
pub open spec fn mix(h: u64, x: u64) -> u64 {
    wrapping_add(wrapping_mul(h, HASH_FACTOR), x)
}

/// The hash `h` after the first `n` bytes of `bytes`.
pub open spec fn hash_bytes(h: u64, bytes: Seq<u8>, n: nat) -> u64
    decreases n,
{
    if n == 0 {
        h
    } else {
        mix(hash_bytes(h, bytes, (n - 1) as nat), bytes[n - 1] as u64)
    }
}

/// The hash `h` after a text: after the bytes of its UTF-8 encoding and the
/// number 255, which no such byte equals.
pub open spec fn hash_text(h: u64, text: Seq<char>) -> u64 {
    let bytes = vstd::utf8::encode_utf8(text);
    mix(hash_bytes(h, bytes, bytes.len()), 0xff)
}

/// The number that stands for a kind of reference in a hash.
pub open spec fn reference_code(kind: ReferenceKind) -> u64 {
    match kind {
        ReferenceKind::Optional => 0,
        ReferenceKind::Inline => 1,
        ReferenceKind::StructCommon => 2,
    }
}

/// The number that stands for a kind of array in a hash.
pub open spec fn array_code(kind: ArrayKind) -> u64 {
    match kind {
        ArrayKind::Dynamic { .. } => 0,
        ArrayKind::DynamicSmall { .. } => 1,
        ArrayKind::Pointers { .. } => 2,
        ArrayKind::Inline { .. } => 3,
        ArrayKind::Fixed { .. } => 4,
    }
}

/// The multiplicity that a kind of array carries.
pub open spec fn array_size(kind: ArrayKind) -> u64 {
    match kind {
        ArrayKind::Dynamic { size } => size,
        ArrayKind::DynamicSmall { size } => size,
        ArrayKind::Pointers { size } => size,
        ArrayKind::Inline { size } => size,
        ArrayKind::Fixed { size } => size,
    }
}

/// The number that stands for a truth value in a hash.
pub open spec fn flag_code(b: bool) -> u64 {
    if b {
        1
    } else {
        0
    }
}

/// The hash `h` after a type: after a number for its kind, what the kind
/// carries, and the types it is built from, in order.
pub open spec fn hash_type(h: u64, t: TypeModel) -> u64
    decreases t, 1nat, 0nat,
{
    match t {
        TypeModel::U8 => mix(h, 0),
        TypeModel::U16 => mix(h, 1),
        TypeModel::U32 => mix(h, 2),
        TypeModel::U64 => mix(h, 3),
        TypeModel::F32 => mix(h, 4),
        TypeModel::F64 => mix(h, 5),
        TypeModel::FileName => mix(h, 6),
        TypeModel::FileRef => mix(h, 7),
        TypeModel::Token => mix(h, 8),
        TypeModel::UUID => mix(h, 9),
        TypeModel::CString { wide } => mix(mix(h, 10), flag_code(wide)),
        TypeModel::Reference { kind, inner } => hash_type(
            mix(mix(h, 11), reference_code(kind)),
            *inner,
        ),
        TypeModel::Array { kind, inner } => hash_type(
            mix(mix(mix(h, 12), array_code(kind)), array_size(kind)),
            *inner,
        ),
        TypeModel::Variant { variants, holds_input_references } => hash_members(
            mix(mix(h, 13), flag_code(holds_input_references)),
            t,
            variants.len(),
        ),
        TypeModel::Composite { name, fields, holds_input_references } => hash_members(
            mix(hash_text(mix(h, 14), name), flag_code(holds_input_references)),
            t,
            fields.len(),
        ),
    }
}

/// The hash `h` after the first `n` members of a variant or a composite: a
/// variant's alternatives, a composite's fields each with its name.
pub open spec fn hash_members(h: u64, t: TypeModel, n: nat) -> u64
    decreases t, 0nat, n,
{
    if n == 0 {
        h
    } else {
        let before = hash_members(h, t, (n - 1) as nat);
        match t {
            TypeModel::Variant { variants, .. } => if n <= variants.len() {
                hash_type(before, variants[n - 1])
            } else {
                before
            },
            TypeModel::Composite { fields, .. } => if n <= fields.len() {
                hash_type(hash_text(before, fields[n - 1].name), fields[n - 1].ty)
            } else {
                before
            },
            _ => before,
        }
    }
}

/// The hash of a type, by which a variant type is named.
pub open spec fn type_hash(t: TypeModel) -> u64 {
    hash_type(HASH_SEED, t)
}

/// The hash `h` after the number `x`.
fn mixed(h: u64, x: u64) -> (r: u64)
    ensures
        r == mix(h, x),
{
    h.wrapping_mul(HASH_FACTOR).wrapping_add(x)
}

/// The hash `h` after a text.
fn hashed_text(h: u64, text: &str) -> (r: u64)
    ensures
        r == hash_text(h, text@),
{
    let bytes = text.as_bytes();
    let mut r = h;
    let mut i: usize = 0;
    while i < bytes.len()
        invariant
            i <= bytes@.len(),
            r == hash_bytes(h, bytes@, i as nat),
        decreases bytes@.len() - i,
    {
        r = mixed(r, bytes[i] as u64);
        i += 1;
    }
    mixed(r, 0xff)
}

/// The hash `h` after a type.
fn hashed_type(h: u64, _type: &Type) -> (r: u64)
    ensures
        r == hash_type(h, _type.model()),
    decreases _type,
{
    match _type {
        Type::U8 => mixed(h, 0),
        Type::U16 => mixed(h, 1),
        Type::U32 => mixed(h, 2),
        Type::U64 => mixed(h, 3),
        Type::F32 => mixed(h, 4),
        Type::F64 => mixed(h, 5),
        Type::FileName => mixed(h, 6),
        Type::FileRef => mixed(h, 7),
        Type::Token => mixed(h, 8),
        Type::UUID => mixed(h, 9),
        Type::CString { wide } => mixed(
            mixed(h, 10),
            if *wide {
                1
            } else {
                0
            },
        ),
        Type::Reference { kind, inner } => {
            let code: u64 = match kind {
                ReferenceKind::Optional => 0,
                ReferenceKind::Inline => 1,
                ReferenceKind::StructCommon => 2,
            };
            hashed_type(mixed(mixed(h, 11), code), inner)
        },
        Type::Array { kind, inner } => {
            let (code, size): (u64, u64) = match kind {
                ArrayKind::Dynamic { size } => (0, *size),
                ArrayKind::DynamicSmall { size } => (1, *size),
                ArrayKind::Pointers { size } => (2, *size),
                ArrayKind::Inline { size } => (3, *size),
                ArrayKind::Fixed { size } => (4, *size),
            };
            hashed_type(mixed(mixed(mixed(h, 12), code), size), inner)
        },
        Type::Variant { variants, holds_input_references } => {
            let start = mixed(
                mixed(h, 13),
                if *holds_input_references {
                    1
                } else {
                    0
                },
            );
            let mut r = start;
            let mut i: usize = 0;
            while i < variants.len()
                invariant
                    i <= variants@.len(),
                    _type matches Type::Variant { variants: vs, .. } && vs == variants,
                    r == hash_members(start, _type.model(), i as nat),
                decreases variants@.len() - i,
            {
                proof {
                    assert(_type.model()->variants[i as int] == variants@[i as int].model());
                }
                r = hashed_type(r, &variants[i]);
                i += 1;
            }
            r
        },
        Type::Composite { name, fields, holds_input_references } => {
            let start = mixed(
                hashed_text(mixed(h, 14), name),
                if *holds_input_references {
                    1
                } else {
                    0
                },
            );
            let mut r = start;
            let mut i: usize = 0;
            while i < fields.len()
                invariant
                    i <= fields@.len(),
                    _type matches Type::Composite { fields: fs, .. } && fs == fields,
                    r == hash_members(start, _type.model(), i as nat),
                decreases fields@.len() - i,
            {
                proof {
                    assert(_type.model()->fields[i as int].ty == fields@[i as int]._type.model());
                    assert(_type.model()->fields[i as int].name == fields@[i as int].name@);
                }
                r = hashed_type(hashed_text(r, fields[i].name), &fields[i]._type);
                i += 1;
            }
            r
        },
    }
}

/// The name of a variant type: `Variant_`, the hash of the type, and the
/// lifetime if values of the type borrow.
pub open spec fn variant_type_name(t: TypeModel) -> Seq<char> {
    "Variant_"@ + decimal(type_hash(t) as nat) + (if t.holds() {
        "<'a>"@
    } else {
        Seq::empty()
    })
}

/// The name of a variant type.
pub fn get_variant_type_name(_variant: &Type) -> (name: String)
    requires
        _variant.model() is Variant,
    ensures
        name@ == variant_type_name(_variant.model()),
{
    let mut name = String::from_str("Variant_");
    push_decimal(&mut name, hashed_type(HASH_SEED, _variant));
    if _variant.holds_input_references() {
        name.append("<'a>");
    } else {
        assert(name@ + Seq::<char>::empty() =~= name@);
    }
    name
}

/// Tells whether the type is neither a reference, an array, a variant nor a
/// composite.
pub fn is_primitive_type(_type: &Type) -> (b: bool)
    ensures
        b == _type.model().is_primitive(),
{
    match _type {
        Type::Reference { .. } => false,
        Type::Array { .. } => false,
        Type::Variant { .. } => false,
        Type::Composite { .. } => false,
        _ => true,
    }
}

/// The types that are declared for a type: every variant and composite in
/// it, each before those that it is built from, in the order of their
/// first mention.
pub open spec fn references(t: TypeModel) -> Seq<TypeModel>
    decreases t, 1nat, 0nat,
{
    match t {
        TypeModel::Reference { inner, .. } => references(*inner),
        TypeModel::Array { inner, .. } => references(*inner),
        TypeModel::Variant { variants, .. } => seq![t] + member_references(t, variants.len()),
        TypeModel::Composite { fields, .. } => seq![t] + member_references(t, fields.len()),
        _ => Seq::empty(),
    }
}

/// The types that are declared for the first `n` members of a variant or a
/// composite.
pub open spec fn member_references(t: TypeModel, n: nat) -> Seq<TypeModel>
    decreases t, 0nat, n,
{
    if n == 0 {
        Seq::empty()
    } else {
        member_references(t, (n - 1) as nat) + (match t {
            TypeModel::Variant { variants, .. } => if n <= variants.len() {
                references(variants[n - 1])
            } else {
                Seq::empty()
            },
            TypeModel::Composite { fields, .. } => if n <= fields.len() {
                references(fields[n - 1].ty)
            } else {
                Seq::empty()
            },
            _ => Seq::empty(),
        })
    }
}

/// The list of the types to declare for a type.
pub struct RecursiveTypeReferences<'a, 'b> {
    pub queue: Vec<&'b Type<'a>>,
}

/// The values of the types in a list, in order.
pub open spec fn queue_model(queue: Seq<&Type<'_>>) -> Seq<TypeModel> {
    Seq::new(queue.len(), |i: int| queue[i].model())
}

impl<'a, 'b> RecursiveTypeReferences<'a, 'b> {
    /// The values of the types listed, in order.
    pub open spec fn model(&self) -> Seq<TypeModel> {
        queue_model(self.queue@)
    }

    /// The list of the types to declare for `seed_type`.
    pub fn new_with_seed(seed_type: &'b Type<'a>) -> (list: Self)
        ensures
            list.model() == references(seed_type.model()),
    {
        let mut me = RecursiveTypeReferences { queue: Vec::new() };
        assert(me.model() =~= Seq::empty());
        me.append_recursive(seed_type);
        me
    }

    /// The number of types listed.
    pub fn len(&self) -> (n: usize)
        ensures
            n == self.model().len(),
    {
        self.queue.len()
    }

    /// The types listed, in order.
    pub fn iter(&self) -> (types: &Vec<&'b Type<'a>>)
        ensures
            queue_model(types@) == self.model(),
    {
        &self.queue
    }

    /// Adds a type to the end of the list.
    pub fn append(&mut self, _type: &'b Type<'a>)
        ensures
            final(self).model() == old(self).model().push(_type.model()),
    {
        let ghost before = self.model();
        self.queue.push(_type);
        assert(self.model() =~= before.push(_type.model()));
    }

    /// Adds the types to declare for `_type` to the end of the list.
    pub fn append_recursive(&mut self, _type: &'b Type<'a>)
        ensures
            final(self).model() == old(self).model() + references(_type.model()),
        decreases _type,
    {
        let ghost before = self.model();
        proof {
            reveal_with_fuel(references, 2);
        }
        match _type {
            Type::Reference { inner, .. } => {
                if !is_primitive_type(inner) {
                    self.append_recursive(inner);
                }
                assert(self.model() =~= before + references(_type.model()));
            },
            Type::Array { inner, .. } => {
                if !is_primitive_type(inner) {
                    self.append_recursive(inner);
                }
                assert(self.model() =~= before + references(_type.model()));
            },
            Type::Variant { variants, .. } => {
                self.append(_type);
                let mut i: usize = 0;
                while i < variants.len()
                    invariant
                        i <= variants@.len(),
                        _type matches Type::Variant { variants: vs, .. } && vs == variants,
                        self.model() =~= before + seq![_type.model()] + member_references(
                            _type.model(),
                            i as nat,
                        ),
                    decreases variants@.len() - i,
                {
                    let inner = &variants[i];
                    if !is_primitive_type(inner) {
                        self.append_recursive(inner);
                    }
                    proof {
                        reveal_with_fuel(references, 2);
                        assert(_type.model()->variants[i as int] == inner.model());
                    }
                    i += 1;
                }
                assert(self.model() =~= before + references(_type.model()));
            },
            Type::Composite { fields, .. } => {
                self.append(_type);
                let mut i: usize = 0;
                while i < fields.len()
                    invariant
                        i <= fields@.len(),
                        _type matches Type::Composite { fields: fs, .. } && fs == fields,
                        self.model() =~= before + seq![_type.model()] + member_references(
                            _type.model(),
                            i as nat,
                        ),
                    decreases fields@.len() - i,
                {
                    let inner = &fields[i]._type;
                    if !is_primitive_type(inner) {
                        self.append_recursive(inner);
                    }
                    proof {
                        reveal_with_fuel(references, 2);
                        assert(_type.model()->fields[i as int].ty == inner.model());
                    }
                    i += 1;
                }
                assert(self.model() =~= before + references(_type.model()));
            },
            _ => {},
        }
        assert(self.model() =~= before + references(_type.model()));
    }
}

/// A language that a schema is rendered in.
#[derive(Debug, Clone, Copy, PartialEq, Eq, Structural)]
pub enum Language {
    Rust,
    Odin,
}

/// The name of a type in a language.
pub open spec fn name_of_type(t: TypeModel, language: Language) -> Seq<char> {
    match language {
        Language::Rust => rust::name_of_type(t),
        Language::Odin => odin::name_of_type(t),
    }
}

/// The name of a member in a language.
pub open spec fn member_name(raw: Seq<char>, language: Language) -> Seq<char> {
    match language {
        Language::Rust => rust::member_name(raw),
        Language::Odin => raw,
    }
}

/// The length in bytes of a text.
pub open spec fn byte_len(text: Seq<char>) -> nat {
    vstd::utf8::encode_utf8(text).len()
}

/// The length in bytes of the longest member name among the first `n`
/// fields.
pub open spec fn longest_member(fields: Seq<FieldModel>, n: nat, language: Language) -> nat
    decreases n,
{
    if n == 0 || n > fields.len() {
        0
    } else {
        let rest = longest_member(fields, (n - 1) as nat, language);
        let this = byte_len(member_name(fields[n - 1].name, language));
        if this > rest {
            this
        } else {
            rest
        }
    }
}

/// The arrays that are marked as small.
pub open spec fn is_small_array(t: TypeModel) -> bool {
    t matches TypeModel::Array { kind, .. } && kind is DynamicSmall
}

/// The multiplicity that a line notes behind a field: that of a dynamic
/// array, a small one or one of pointers, when it is not zero.
pub open spec fn noted_size(t: TypeModel) -> Option<u64> {
    match t {
        TypeModel::Array { kind: ArrayKind::Dynamic { size }, .. } => if size > 0 {
            Some(size)
        } else {
            None
        },
        TypeModel::Array { kind: ArrayKind::DynamicSmall { size }, .. } => if size > 0 {
            Some(size)
        } else {
            None
        },
        TypeModel::Array { kind: ArrayKind::Pointers { size }, .. } => if size > 0 {
            Some(size)
        } else {
            None
        },
        _ => None,
    }
}

/// The line that declares a field: a tab, the name padded to the longest
/// name, ` : `, the type, a comma, and what is noted of an array.
pub open spec fn field_line(field: FieldModel, longest: nat, language: Language) -> Seq<char> {
    let member = member_name(field.name, language);
    let padding = if longest > byte_len(member) {
        (longest - byte_len(member)) as nat
    } else {
        0
    };
    "\t"@ + member + spaces(padding) + " : "@ + name_of_type(field.ty, language) + (if is_small_array(
        field.ty,
    ) {
        ", // small"@
    } else {
        ","@
    }) + (match noted_size(field.ty) {
        Some(size) => " // size: "@ + decimal(size as nat) + "\n"@,
        None => "\n"@,
    })
}

/// The lines that declare the first `n` fields.
pub open spec fn field_lines(fields: Seq<FieldModel>, n: nat, longest: nat, language: Language)
    -> Seq<char>
    decreases n,
{
    if n == 0 || n > fields.len() {
        Seq::empty()
    } else {
        field_lines(fields, (n - 1) as nat, longest, language) + field_line(
            fields[n - 1],
            longest,
            language,
        )
    }
}

/// Appends the name of a type in a language.
pub fn push_type_name(out: &mut String, _type: &Type, language: Language)
    ensures
        final(out)@ == old(out)@ + name_of_type(_type.model(), language),
{
    match language {
        Language::Rust => rust::push_type_name(out, _type),
        Language::Odin => odin::push_type_name(out, _type),
    }
}

/// The name of a member in a language.
pub fn member_text(raw: &str, language: Language) -> (text: String)
    ensures
        text@ == member_name(raw@, language),
{
    match language {
        Language::Rust => rust::member_text(raw),
        Language::Odin => String::from_str(raw),
    }
}

/// Appends the lines that declare the fields of a composite.
pub fn push_field_lines(out: &mut String, fields: &Vec<Field>, language: Language)
    ensures
        final(out)@ == old(out)@ + field_lines(
            crate::structure::fields_model(fields@),
            fields@.len(),
            longest_member(crate::structure::fields_model(fields@), fields@.len(), language),
            language,
        ),
{
    let ghost models = crate::structure::fields_model(fields@);
    let mut longest: usize = 0;
    let mut i: usize = 0;
    while i < fields.len()
        invariant
            i <= fields@.len(),
            models == crate::structure::fields_model(fields@),
            longest == longest_member(models, i as nat, language),
        decreases fields@.len() - i,
    {
        let member = member_text(fields[i].name, language);
        let len = member.as_str().as_bytes().len();
        assert(models[i as int].name == fields@[i as int].name@);
        assert(len == byte_len(member_name(models[i as int].name, language)));
        if len > longest {
            longest = len;
        }
        i += 1;
    }
    let mut i: usize = 0;
    assert(out@ + Seq::<char>::empty() =~= out@);
    while i < fields.len()
        invariant
            i <= fields@.len(),
            models == crate::structure::fields_model(fields@),
            out@ == old(out)@ + field_lines(models, i as nat, longest as nat, language),
        decreases fields@.len() - i,
    {
        let ghost before = out@;
        let ghost line = field_line(models[i as int], longest as nat, language);
        let field = &fields[i];
        let ghost ty = field._type.model();
        assert(models[i as int].ty == ty);
        assert(models[i as int].name == field.name@);
        let mut text = String::from_str("\t");
        let member = member_text(field.name, language);
        text.append(member.as_str());
        let len = member.as_str().as_bytes().len();
        let padding = if longest > len {
            longest - len
        } else {
            0
        };
        push_spaces(&mut text, padding);
        text.append(" : ");
        push_type_name(&mut text, &field._type, language);
        let small = match &field._type {
            Type::Array { kind: ArrayKind::DynamicSmall { .. }, .. } => true,
            _ => false,
        };
        assert(small == is_small_array(ty));
        if small {
            text.append(", // small");
        } else {
            text.append(",");
        }
        let noted: Option<u64> = match &field._type {
            Type::Array { kind: ArrayKind::Dynamic { size }, .. } => if *size > 0 {
                Some(*size)
            } else {
                None
            },
            Type::Array { kind: ArrayKind::DynamicSmall { size }, .. } => if *size > 0 {
                Some(*size)
            } else {
                None
            },
            Type::Array { kind: ArrayKind::Pointers { size }, .. } => if *size > 0 {
                Some(*size)
            } else {
                None
            },
            _ => None,
        };
        assert(noted == noted_size(ty));
        match noted {
            Some(size) => {
                text.append(" // size: ");
                push_decimal(&mut text, size);
                text.append("\n");
            },
            None => {
                text.append("\n");
            },
        }
        assert(text@ =~= line);
        out.append(text.as_str());
        assert(out@ =~= old(out)@ + field_lines(models, (i + 1) as nat, longest as nat, language));
        i += 1;
    }
}

/// The texts that a list holds.
pub open spec fn texts(list: Seq<&'static str>) -> Set<Seq<char>> {
    Set::new(|text: Seq<char>| exists|i: int| 0 <= i < list.len() && (#[trigger] list[i])@ == text)
}

/// No text occurs twice in the list.
pub open spec fn distinct(list: Seq<&'static str>) -> bool {
    forall|i: int, j: int| 0 <= i < j < list.len() ==> (#[trigger] list[i])@ != (#[trigger] list[j])@
}

/// Adds a text to a list unless the list holds it.
pub fn insert_text(list: &mut Vec<&'static str>, text: &'static str)
    ensures
        texts(final(list)@) == texts(old(list)@).insert(text@),
        distinct(old(list)@) ==> distinct(final(list)@),
{
    let mut i: usize = 0;
    while i < list.len()
        invariant
            i <= list@.len(),
            list@ == old(list)@,
            forall|j: int| 0 <= j < i ==> (#[trigger] list@[j])@ != text@,
        decreases list@.len() - i,
    {
        if text_eq(list[i], text) {
            assert(texts(list@) =~= texts(list@).insert(text@));
            return ;
        }
        i += 1;
    }
    let ghost before = list@;
    list.push(text);
    assert forall|t: Seq<char>| texts(list@).contains(t) <==> texts(before).insert(text@).contains(
        t,
    ) by {
        if texts(list@).contains(t) {
            let i = choose|i: int| 0 <= i < list@.len() && (#[trigger] list@[i])@ == t;
            if i < before.len() {
                assert(before[i]@ == t);
            }
        }
        if texts(before).contains(t) {
            let i = choose|i: int| 0 <= i < before.len() && (#[trigger] before[i])@ == t;
            assert(list@[i]@ == t);
        }
        if t == text@ {
            assert(list@[before.len() as int]@ == t);
        }
    }
    assert(texts(list@) =~= texts(before).insert(text@));
}

} // verus!
