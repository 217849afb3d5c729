use vstd::prelude::*;
use vstd::string::StringExecFns;

use crate::interner::{Interner, StringId};
use crate::types::checked_type::{CheckedGenericParam, CheckedParam, TagType, Type};
use crate::types::list::List;

verus! {

/// Whether every name in `t` has an index below `n`.
pub open spec fn names_below(t: Type, n: nat) -> bool
    decreases t,
{
    match t {
        Type::Union(items) => types_names_below(items, n),
        Type::GenericParam(gp) => gp.identifier.name.0 < n && match gp.constraint {
            Some(c) => names_below(*c, n),
            None => true,
        },
        Type::FnType(f) => params_names_below(f.params, n) && names_below(*f.return_type, n)
            && generic_params_names_below(f.generic_params, n) && types_names_below(
            f.applied_type_args,
            n,
        ),
        Type::Struct(fields) => params_names_below(fields, n),
        Type::TypeAliasDecl(d) => d.name.0 < n && generic_params_names_below(d.generic_params, n)
            && names_below(*d.value, n) && types_names_below(d.applied_type_args, n),
        Type::Array { item_type, .. } => names_below(*item_type, n),
        Type::Pointer { constraint, narrowed_to } => names_below(*constraint, n) && names_below(
            *narrowed_to,
            n,
        ),
        Type::List(item) => names_below(*item, n),
        Type::Tag(tag) => match tag.value_type {
            Some(v) => names_below(*v, n),
            None => true,
        },
        Type::TagUnion(tags) => tags_names_below(tags, n),
        _ => true,
    }
}

pub open spec fn types_names_below(l: List<Type>, n: nat) -> bool
    decreases l,
{
    match l {
        List::Nil => true,
        List::Cons(h, t) => names_below(*h, n) && types_names_below(*t, n),
    }
}

pub open spec fn params_names_below(l: List<CheckedParam>, n: nat) -> bool
    decreases l,
{
    match l {
        List::Nil => true,
        List::Cons(h, t) => h.identifier.name.0 < n && names_below(h.constraint, n) && params_names_below(
            *t,
            n,
        ),
    }
}

pub open spec fn generic_params_names_below(l: List<CheckedGenericParam>, n: nat) -> bool
    decreases l,
{
    match l {
        List::Nil => true,
        List::Cons(h, t) => h.identifier.name.0 < n && (match h.constraint {
            Some(c) => names_below(*c, n),
            None => true,
        }) && generic_params_names_below(*t, n),
    }
}

pub open spec fn tags_names_below(l: List<TagType>, n: nat) -> bool
    decreases l,
{
    match l {
        List::Nil => true,
        List::Cons(h, t) => (match h.value_type {
            Some(v) => names_below(*v, n),
            None => true,
        }) && tags_names_below(*t, n),
    }
}

pub open spec fn digit_text(d: nat) -> Seq<char> {
    if d == 0 {
        "0"@
    } else if d == 1 {
        "1"@
    } else if d == 2 {
        "2"@
    } else if d == 3 {
        "3"@
    } else if d == 4 {
        "4"@
    } else if d == 5 {
        "5"@
    } else if d == 6 {
        "6"@
    } else if d == 7 {
        "7"@
    } else if d == 8 {
        "8"@
    } else {
        "9"@
    }
}

/// The decimal notation of `n`.
pub open spec fn decimal(n: nat) -> Seq<char>
    decreases n,
{
    if n < 10 {
        digit_text(n)
    } else {
        decimal(n / 10) + digit_text(n % 10)
    }
}

fn digit_str(d: usize) -> (r: &'static str)
    requires
        d < 10,
    ensures
        r@ == digit_text(d as nat),
{
    if d == 0 {
        "0"
    } else if d == 1 {
        "1"
    } else if d == 2 {
        "2"
    } else if d == 3 {
        "3"
    } else if d == 4 {
        "4"
    } else if d == 5 {
        "5"
    } else if d == 6 {
        "6"
    } else if d == 7 {
        "7"
    } else if d == 8 {
        "8"
    } else {
        "9"
    }
}

/// Appends the decimal notation of `n` to `out`.
pub fn push_decimal(out: &mut String, n: usize)
    ensures
        final(out)@ == old(out)@ + decimal(n as nat),
    decreases n,
{
    if n < 10 {
        out.append(digit_str(n));
    } else {
        push_decimal(out, n / 10);
        out.append(digit_str(n % 10));
        proof {
            assert(old(out)@ + decimal(n as nat / 10) + digit_text(n as nat % 10) =~= old(out)@ + (
            decimal(n as nat / 10) + digit_text(n as nat % 10)));
        }
    }
}

/// The text of a primitive type, or of a type of the lowered representation
/// that carries no names.
pub open spec fn primitive_text(t: Type) -> Seq<char> {
    match t {
        Type::Void => "void"@,
        Type::Null => "null"@,
        Type::Bool => "bool"@,
        Type::U8 => "u8"@,
        Type::U16 => "u16"@,
        Type::U32 => "u32"@,
        Type::U64 => "u64"@,
        Type::USize => "usize"@,
        Type::ISize => "isize"@,
        Type::I8 => "i8"@,
        Type::I16 => "i16"@,
        Type::I32 => "i32"@,
        Type::I64 => "i64"@,
        Type::F32 => "f32"@,
        Type::F64 => "f64"@,
        Type::Char => "char"@,
        Type::String => "string"@,
        _ => "unknown"@,
    }
}

/// How a type is written in messages; `names` resolves identifiers. A
/// function type inside a union is put in parentheses.
pub open spec fn type_text(t: Type, names: Seq<Seq<char>>, in_union: bool) -> Seq<char>
    decreases t,
{
    match t {
        Type::Struct(fields) => "{\n"@ + fields_text(fields, names, ",\n"@) + "\n}"@,
        Type::GenericParam(gp) => names[gp.identifier.name.0 as int],
        Type::FnType(f) => {
            let type_args = if f.applied_type_args is Cons {
                "<"@ + types_text(f.applied_type_args, names, false, ", "@) + ">"@
            } else if f.generic_params is Cons {
                "<"@ + generic_params_list_text(f.generic_params, names) + ">"@
            } else {
                Seq::empty()
            };
            let fn_text = type_args + "("@ + fields_text(f.params, names, ", "@) + ") => "@
                + type_text(*f.return_type, names, false);
            if in_union {
                "("@ + fn_text + ")"@
            } else {
                fn_text
            }
        },
        Type::TypeAliasDecl(d) => names[d.name.0 as int] + if d.applied_type_args is Cons {
            "<"@ + types_text(d.applied_type_args, names, false, ", "@) + ">"@
        } else if d.generic_params is Cons {
            "<"@ + generic_params_list_text(d.generic_params, names) + ">"@
        } else {
            Seq::empty()
        },
        Type::Union(items) => types_text(items, names, true, " | "@),
        Type::Array { item_type, size } => "["@ + type_text(*item_type, names, false) + "; "@
            + decimal(size as nat) + "]"@,
        Type::Pointer { narrowed_to, .. } => "ptr<"@ + type_text(*narrowed_to, names, false)
            + ">"@,
        Type::List(item) => "list<"@ + type_text(*item, names, false) + ">"@,
        Type::Tag(tag) => tag_text(tag, names),
        Type::TagUnion(tags) => tags_text(tags, names),
        _ => primitive_text(t),
    }
}

pub open spec fn tag_text(tag: TagType, names: Seq<Seq<char>>) -> Seq<char>
    decreases tag,
{
    "#"@ + decimal(tag.id.0 as nat) + match tag.value_type {
        Some(v) => "("@ + type_text(*v, names, false) + ")"@,
        None => Seq::empty(),
    }
}

pub open spec fn tags_text(l: List<TagType>, names: Seq<Seq<char>>) -> Seq<char>
    decreases l,
{
    match l {
        List::Nil => Seq::empty(),
        List::Cons(h, t) => match *t {
            List::Nil => tag_text(*h, names),
            _ => tag_text(*h, names) + " | "@ + tags_text(*t, names),
        },
    }
}

/// The members of `l`, written with [`type_text`] and joined by `sep`.
pub open spec fn types_text(l: List<Type>, names: Seq<Seq<char>>, in_union: bool, sep: Seq<char>) -> Seq<
    char,
>
    decreases l,
{
    match l {
        List::Nil => Seq::empty(),
        List::Cons(h, t) => match *t {
            List::Nil => type_text(*h, names, in_union),
            _ => type_text(*h, names, in_union) + sep + types_text(*t, names, in_union, sep),
        },
    }
}

/// The fields or parameters of `l`, each as `name: type`, joined by `sep`.
pub open spec fn fields_text(l: List<CheckedParam>, names: Seq<Seq<char>>, sep: Seq<char>) -> Seq<
    char,
>
    decreases l,
{
    match l {
        List::Nil => Seq::empty(),
        List::Cons(h, t) => {
            let item = names[h.identifier.name.0 as int] + ": "@ + type_text(h.constraint, names, false);
            match *t {
                List::Nil => item,
                _ => item + sep + fields_text(*t, names, sep),
            }
        },
    }
}

/// Applied type arguments as `<A, B>`, or nothing when there are none.
pub open spec fn applied_args_text(l: List<Type>, names: Seq<Seq<char>>) -> Seq<char> {
    if l is Nil {
        Seq::empty()
    } else {
        "<"@ + types_text(l, names, false, ", "@) + ">"@
    }
}

/// Generic parameters as `<T, U: C>`, or nothing when there are none.
pub open spec fn generic_params_text(l: List<CheckedGenericParam>, names: Seq<Seq<char>>) -> Seq<
    char,
> {
    if l is Nil {
        Seq::empty()
    } else {
        "<"@ + generic_params_list_text(l, names) + ">"@
    }
}

pub open spec fn generic_param_text(gp: CheckedGenericParam, names: Seq<Seq<char>>) -> Seq<char>
    decreases gp,
{
    match gp.constraint {
        Some(c) => names[gp.identifier.name.0 as int] + ": "@ + type_text(*c, names, false),
        None => names[gp.identifier.name.0 as int],
    }
}

pub open spec fn generic_params_list_text(l: List<CheckedGenericParam>, names: Seq<Seq<char>>) -> Seq<
    char,
>
    decreases l,
{
    match l {
        List::Nil => Seq::empty(),
        List::Cons(h, t) => match *t {
            List::Nil => generic_param_text(*h, names),
            _ => generic_param_text(*h, names) + ", "@ + generic_params_list_text(*t, names),
        },
    }
}

/// The name that `id` stands for.
pub fn identifier_to_string(id: StringId, string_interner: &Interner<String, StringId>) -> (r:
    String)
    requires
        string_interner.wf(),
        id.0 < string_interner.keys().len(),
    ensures
        r@ == string_interner.keys()[id.0 as int],
{
    string_interner.resolve(id).clone()
}

fn append_string(out: &mut String, s: String)
    ensures
        final(out)@ == old(out)@ + s@,
{
    out.append(s.as_str());
}

/// Appends the text of the applied type arguments to `out`.
pub fn applied_type_args_to_string(
    type_args: &List<Type>,
    string_interner: &Interner<String, StringId>,
) -> (r: String)
    requires
        string_interner.wf(),
        types_names_below(*type_args, string_interner.keys().len()),
    ensures
        r@ == applied_args_text(*type_args, string_interner.keys()),
{
    if type_args.is_empty() {
        return String::new();
    }
    let mut out = String::from_str("<");
    append_string(&mut out, types_to_string(type_args, string_interner, false, ", "));
    out.append(">");
    out
}

/// Appends the text of the generic parameters to `out`.
pub fn generic_params_to_string(
    generic_params: &List<CheckedGenericParam>,
    string_interner: &Interner<String, StringId>,
) -> (r: String)
    requires
        string_interner.wf(),
        generic_params_names_below(*generic_params, string_interner.keys().len()),
    ensures
        r@ == generic_params_text(*generic_params, string_interner.keys()),
{
    if generic_params.is_empty() {
        return String::new();
    }
    let mut out = String::from_str("<");
    append_string(&mut out, generic_params_list_to_string(generic_params, string_interner));
    out.append(">");
    out
}

fn generic_params_list_to_string(
    l: &List<CheckedGenericParam>,
    string_interner: &Interner<String, StringId>,
) -> (r: String)
    requires
        string_interner.wf(),
        generic_params_names_below(*l, string_interner.keys().len()),
    ensures
        r@ == generic_params_list_text(*l, string_interner.keys()),
    decreases l,
{
    match l {
        List::Nil => String::new(),
        List::Cons(h, t) => {
            let mut out = identifier_to_string(h.identifier.name, string_interner);
            if let Some(c) = &h.constraint {
                out.append(": ");
                append_string(&mut out, type_to_string_recursive(c, string_interner, false));
            }
            let ghost head = out@;
            assert(head == generic_param_text(**h, string_interner.keys()));
            if !t.is_empty() {
                out.append(", ");
                append_string(&mut out, generic_params_list_to_string(t, string_interner));
                assert(out@ =~= head + ", "@ + generic_params_list_text(**t, string_interner.keys()));
            }
            out
        },
    }
}

fn types_to_string(
    l: &List<Type>,
    string_interner: &Interner<String, StringId>,
    in_union: bool,
    sep: &str,
) -> (r: String)
    requires
        string_interner.wf(),
        types_names_below(*l, string_interner.keys().len()),
    ensures
        r@ == types_text(*l, string_interner.keys(), in_union, sep@),
    decreases l,
{
    match l {
        List::Nil => String::new(),
        List::Cons(h, t) => {
            let mut out = type_to_string_recursive(h, string_interner, in_union);
            if !t.is_empty() {
                out.append(sep);
                append_string(&mut out, types_to_string(t, string_interner, in_union, sep));
            }
            out
        },
    }
}

fn fields_to_string(l: &List<CheckedParam>, string_interner: &Interner<String, StringId>, sep: &str) -> (r:
    String)
    requires
        string_interner.wf(),
        params_names_below(*l, string_interner.keys().len()),
    ensures
        r@ == fields_text(*l, string_interner.keys(), sep@),
    decreases l,
{
    match l {
        List::Nil => String::new(),
        List::Cons(h, t) => {
            let mut out = identifier_to_string(h.identifier.name, string_interner);
            out.append(": ");
            append_string(&mut out, type_to_string_recursive(&h.constraint, string_interner, false));
            if !t.is_empty() {
                out.append(sep);
                append_string(&mut out, fields_to_string(t, string_interner, sep));
            }
            out
        },
    }
}

fn tag_to_string(tag: &TagType, string_interner: &Interner<String, StringId>) -> (r: String)
    requires
        string_interner.wf(),
        match tag.value_type {
            Some(v) => names_below(*v, string_interner.keys().len()),
            None => true,
        },
    ensures
        r@ == tag_text(*tag, string_interner.keys()),
    decreases tag,
{
    let mut out = String::from_str("#");
    push_decimal(&mut out, tag.id.0 as usize);
    if let Some(v) = &tag.value_type {
        out.append("(");
        append_string(&mut out, type_to_string_recursive(v, string_interner, false));
        out.append(")");
    } else {
        assert(out@ + Seq::<char>::empty() =~= out@);
    }
    out
}

fn tags_to_string(l: &List<TagType>, string_interner: &Interner<String, StringId>) -> (r: String)
    requires
        string_interner.wf(),
        tags_names_below(*l, string_interner.keys().len()),
    ensures
        r@ == tags_text(*l, string_interner.keys()),
    decreases l,
{
    match l {
        List::Nil => String::new(),
        List::Cons(h, t) => {
            let mut out = tag_to_string(h, string_interner);
            if !t.is_empty() {
                out.append(" | ");
                append_string(&mut out, tags_to_string(t, string_interner));
            }
            out
        },
    }
}

fn primitive_to_string(ty: &Type) -> (r: String)
    ensures
        r@ == primitive_text(*ty),
{
    let s = match ty {
        Type::Void => "void",
        Type::Null => "null",
        Type::Bool => "bool",
        Type::U8 => "u8",
        Type::U16 => "u16",
        Type::U32 => "u32",
        Type::U64 => "u64",
        Type::USize => "usize",
        Type::ISize => "isize",
        Type::I8 => "i8",
        Type::I16 => "i16",
        Type::I32 => "i32",
        Type::I64 => "i64",
        Type::F32 => "f32",
        Type::F64 => "f64",
        Type::Char => "char",
        Type::String => "string",
        _ => "unknown",
    };
    String::from_str(s)
}

/// How a type is written in messages; see [`type_text`].
pub fn type_to_string_recursive(
    ty: &Type,
    string_interner: &Interner<String, StringId>,
    is_union_context: bool,
) -> (r: String)
    requires
        string_interner.wf(),
        names_below(*ty, string_interner.keys().len()),
    ensures
        r@ == type_text(*ty, string_interner.keys(), is_union_context),
    decreases ty,
{
    match ty {
        Type::Struct(fields) => {
            let mut out = String::from_str("{\n");
            append_string(&mut out, fields_to_string(fields, string_interner, ",\n"));
            out.append("\n}");
            out
        },
        Type::GenericParam(gp) => identifier_to_string(gp.identifier.name, string_interner),
        Type::FnType(f) => {
            let mut out = String::new();
            if !f.applied_type_args.is_empty() {
                out.append("<");
                append_string(&mut out, types_to_string(&f.applied_type_args, string_interner, false, ", "));
                out.append(">");
            } else if !f.generic_params.is_empty() {
                out.append("<");
                append_string(&mut out, generic_params_list_to_string(&f.generic_params, string_interner));
                out.append(">");
            }
            out.append("(");
            append_string(&mut out, fields_to_string(&f.params, string_interner, ", "));
            out.append(") => ");
            append_string(&mut out, type_to_string_recursive(&f.return_type, string_interner, false));
            if is_union_context {
                let mut wrapped = String::from_str("(");
                append_string(&mut wrapped, out);
                wrapped.append(")");
                wrapped
            } else {
                out
            }
        },
        Type::TypeAliasDecl(d) => {
            let mut out = identifier_to_string(d.name, string_interner);
            if !d.applied_type_args.is_empty() {
                out.append("<");
                append_string(&mut out, types_to_string(&d.applied_type_args, string_interner, false, ", "));
                out.append(">");
            } else if !d.generic_params.is_empty() {
                out.append("<");
                append_string(&mut out, generic_params_list_to_string(&d.generic_params, string_interner));
                out.append(">");
            }
            out
        },
        Type::Union(items) => types_to_string(items, string_interner, true, " | "),
        Type::Array { item_type, size } => {
            let mut out = String::from_str("[");
            append_string(&mut out, type_to_string_recursive(item_type, string_interner, false));
            out.append("; ");
            push_decimal(&mut out, *size);
            out.append("]");
            out
        },
        Type::Pointer { narrowed_to, .. } => {
            let mut out = String::from_str("ptr<");
            append_string(&mut out, type_to_string_recursive(narrowed_to, string_interner, false));
            out.append(">");
            out
        },
        Type::List(item) => {
            let mut out = String::from_str("list<");
            append_string(&mut out, type_to_string_recursive(item, string_interner, false));
            out.append(">");
            out
        },
        Type::Tag(tag) => tag_to_string(tag, string_interner),
        Type::TagUnion(tags) => tags_to_string(tags, string_interner),
        _ => primitive_to_string(ty),
    }
}

/// How a type is written in messages.
pub fn type_to_string(ty: &Type, string_interner: &Interner<String, StringId>) -> (r: String)
    requires
        string_interner.wf(),
        names_below(*ty, string_interner.keys().len()),
    ensures
        r@ == type_text(*ty, string_interner.keys(), false),
{
    type_to_string_recursive(ty, string_interner, false)
}

/// Whether every name in `t` has an index below `n`.
pub fn has_names_below(t: &Type, n: usize) -> (r: bool)
    ensures
        r == names_below(*t, n as nat),
    decreases t,
{
    match t {
        Type::Union(items) => types_have_names_below(items, n),
        Type::GenericParam(gp) => gp.identifier.name.0 < n && match &gp.constraint {
            Some(c) => has_names_below(c, n),
            None => true,
        },
        Type::FnType(f) => params_have_names_below(&f.params, n) && has_names_below(
            &f.return_type,
            n,
        ) && generic_params_have_names_below(&f.generic_params, n) && types_have_names_below(
            &f.applied_type_args,
            n,
        ),
        Type::Struct(fields) => params_have_names_below(fields, n),
        Type::TypeAliasDecl(d) => d.name.0 < n && generic_params_have_names_below(
            &d.generic_params,
            n,
        ) && has_names_below(&d.value, n) && types_have_names_below(&d.applied_type_args, n),
        Type::Array { item_type, .. } => has_names_below(item_type, n),
        Type::Pointer { constraint, narrowed_to } => has_names_below(constraint, n)
            && has_names_below(narrowed_to, n),
        Type::List(item) => has_names_below(item, n),
        Type::Tag(tag) => match &tag.value_type {
            Some(v) => has_names_below(v, n),
            None => true,
        },
        Type::TagUnion(tags) => tags_have_names_below(tags, n),
        _ => true,
    }
}

fn types_have_names_below(l: &List<Type>, n: usize) -> (r: bool)
    ensures
        r == types_names_below(*l, n as nat),
    decreases l,
{
    match l {
        List::Nil => true,
        List::Cons(h, t) => has_names_below(h, n) && types_have_names_below(t, n),
    }
}

fn params_have_names_below(l: &List<CheckedParam>, n: usize) -> (r: bool)
    ensures
        r == params_names_below(*l, n as nat),
    decreases l,
{
    match l {
        List::Nil => true,
        List::Cons(h, t) => h.identifier.name.0 < n && has_names_below(&h.constraint, n)
            && params_have_names_below(t, n),
    }
}

fn generic_params_have_names_below(l: &List<CheckedGenericParam>, n: usize) -> (r: bool)
    ensures
        r == generic_params_names_below(*l, n as nat),
    decreases l,
{
    match l {
        List::Nil => true,
        List::Cons(h, t) => h.identifier.name.0 < n && (match &h.constraint {
            Some(c) => has_names_below(c, n),
            None => true,
        }) && generic_params_have_names_below(t, n),
    }
}

fn tags_have_names_below(l: &List<TagType>, n: usize) -> (r: bool)
    ensures
        r == tags_names_below(*l, n as nat),
    decreases l,
{
    match l {
        List::Nil => true,
        List::Cons(h, t) => (match &h.value_type {
            Some(v) => has_names_below(v, n),
            None => true,
        }) && tags_have_names_below(t, n),
    }
}

} // verus!
