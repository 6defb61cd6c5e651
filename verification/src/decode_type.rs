//! The SQL value prototype that the Rust type of an entity's field maps to.
use vstd::prelude::*;
use vstd::string::StringExecFns;
use crate::text::{parse_unsigned, parsed_unsigned};
use crate::util::same_text;
use crate::value::Value;

verus! {

/// A Rust type as written in a field declaration.
#[derive(Debug)]
pub enum RustType {
    /// A path such as `std::option::Option<i32>`.
    Path(TypePath),
    /// `[T; N]`, with the base-10 digits of `N` when it is an integer literal.
    Array(Box<RustType>, Option<String>),
    /// `[T]`.
    Slice(Box<RustType>),
    /// Any other form of type.
    Other,
}

/// A path: its segments, and whether it starts with `::`.
#[derive(Debug)]
pub struct TypePath {
    pub leading_colon: bool,
    pub segments: Vec<PathSegment>,
}

/// A segment of a path: its identifier and its generic arguments.
#[derive(Debug)]
pub struct PathSegment {
    pub ident: String,
    pub arguments: PathArguments,
}

/// The arguments after a path segment.
#[derive(Debug)]
pub enum PathArguments {
    /// No arguments.
    Absent,
    /// `<..>`.
    AngleBracketed(Vec<GenericArgument>),
    /// `(..) -> ..`.
    Parenthesized,
}

/// A generic argument.
#[derive(Debug)]
pub enum GenericArgument {
    Lifetime,
    Type(RustType),
    /// A const argument, with the base-10 digits of its value when it is an
    /// integer literal.
    Const(Option<String>),
    Other,
}

/// The value prototype of a field's type, whether the field may be null and
/// whether it may be left unset on insert.
#[derive(Debug)]
pub struct TypeDecoded {
    pub value: Value,
    pub nullable: bool,
    pub passive: bool,
}

/// The identifier of a path made of one segment without arguments.
pub open spec fn ident_of(p: TypePath) -> Option<Seq<char>> {
    if !p.leading_colon && p.segments@.len() == 1 && p.segments@[0].arguments is Absent {
        Some(p.segments@[0].ident@)
    } else {
        None
    }
}

/// The prototype of a primitive type, by name.
pub open spec fn primitive_value(name: Seq<char>) -> Option<Value> {
    if name == "bool"@ {
        Some(Value::Boolean(None))
    } else if name == "i8"@ {
        Some(Value::Int8(None))
    } else if name == "i16"@ {
        Some(Value::Int16(None))
    } else if name == "i32"@ {
        Some(Value::Int32(None))
    } else if name == "i64"@ {
        Some(Value::Int64(None))
    } else if name == "i128"@ {
        Some(Value::Int128(None))
    } else if name == "u8"@ {
        Some(Value::UInt8(None))
    } else if name == "u16"@ {
        Some(Value::UInt16(None))
    } else if name == "u32"@ {
        Some(Value::UInt32(None))
    } else if name == "u64"@ {
        Some(Value::UInt64(None))
    } else if name == "u128"@ {
        Some(Value::UInt128(None))
    } else if name == "isize"@ {
        Some(
            if usize::BITS == 32 {
                Value::Int32(None)
            } else {
                Value::Int64(None)
            },
        )
    } else if name == "usize"@ {
        Some(
            if usize::BITS == 32 {
                Value::UInt32(None)
            } else {
                Value::UInt64(None)
            },
        )
    } else if name == "f32"@ {
        Some(Value::Float32(None))
    } else if name == "f64"@ {
        Some(Value::Float64(None))
    } else if name == "char"@ {
        Some(Value::Char(None))
    } else if name == "str"@ {
        Some(Value::Varchar(None))
    } else {
        None
    }
}

/// The identifier of the segment `i` places from the end.
pub open spec fn ident_from_end(segments: Seq<PathSegment>, i: int) -> Seq<char> {
    segments[segments.len() - 1 - i].ident@
}

/// Whether the last segments of the path are the last names of `expect`, as
/// far as the shorter of the two goes.
pub open spec fn path_matches(segments: Seq<PathSegment>, expect: Seq<&str>) -> bool {
    let n = if segments.len() < expect.len() {
        segments.len()
    } else {
        expect.len()
    };
    forall|i: int| 0 <= i < n ==> #[trigger] ident_from_end(segments, i) == expect[expect.len() - 1 - i]@
}

pub open spec fn names(p: TypePath, a: &str, b: &str) -> bool {
    path_matches(p.segments@, seq![a, b])
}

pub open spec fn names3(p: TypePath, a: &str, b: &str, c: &str) -> bool {
    path_matches(p.segments@, seq![a, b, c])
}

/// The prototype of a path naming a type of a known crate, with no
/// arguments to look at.
pub open spec fn named_value(p: TypePath) -> Option<Value> {
    if names3(p, "std", "string", "String") {
        Some(Value::Varchar(None))
    } else if names(p, "rust_decimal", "Decimal") {
        Some(Value::Decimal(None, 0, 0))
    } else if names(p, "tank", "FixedDecimal") {
        None
    } else if names(p, "time", "Time") {
        Some(Value::Time(None))
    } else if names(p, "time", "Date") {
        Some(Value::Date(None))
    } else if names(p, "time", "PrimitiveDateTime") {
        Some(Value::Timestamp(None))
    } else if names(p, "time", "OffsetDateTime") {
        Some(Value::TimestampWithTimezone(None))
    } else if names3(p, "std", "time", "Duration") || names(p, "tank", "Interval") {
        Some(Value::Interval(None))
    } else if names(p, "uuid", "Uuid") {
        Some(Value::Uuid(None))
    } else {
        None
    }
}

pub open spec fn is_option(p: TypePath) -> bool {
    names3(p, "std", "option", "Option")
}

pub open spec fn is_passive(p: TypePath) -> bool {
    names(p, "tank", "Passive")
}

pub open spec fn is_cow(p: TypePath) -> bool {
    names3(p, "std", "borrow", "Cow")
}

/// Types that hold one value of their argument.
pub open spec fn is_wrapper(p: TypePath) -> bool {
    is_option(p) || is_passive(p) || is_cow(p) || names3(p, "std", "boxed", "Box") || names3(
        p,
        "std",
        "cell",
        "Cell",
    ) || names3(p, "std", "cell", "RefCell") || names3(p, "std", "rc", "Rc") || names3(
        p,
        "std",
        "sync",
        "Arc",
    ) || names3(p, "std", "sync", "RwLock")
}

/// Types that hold a sequence of their argument.
pub open spec fn is_list(p: TypePath) -> bool {
    names3(p, "std", "vec", "Vec") || names3(p, "std", "collections", "VecDeque") || names3(
        p,
        "std",
        "collections",
        "LinkedList",
    )
}

/// Types that map their first argument to their second.
pub open spec fn is_map(p: TypePath) -> bool {
    names3(p, "std", "collections", "HashMap") || names3(p, "std", "collections", "BTreeMap")
}

/// A decoded type that is neither nullable nor passive.
pub open spec fn plain(v: Value) -> Option<(TypeDecoded, Option<Seq<char>>)> {
    Some((TypeDecoded { value: v, nullable: false, passive: false }, None))
}

/// The value of a const argument that is an integer literal fitting in a `u8`.
pub open spec fn const_u8(a: GenericArgument) -> Option<nat> {
    match a {
        GenericArgument::Const(Some(d)) => parsed_unsigned(d@, 255),
        _ => None,
    }
}

/// `FixedDecimal<W, S>`: a decimal of width `W` and scale `S` (with a single
/// argument, both are that argument).
pub open spec fn fixed_decimal(p: TypePath) -> Option<(TypeDecoded, Option<Seq<char>>)> {
    match p.segments@.last().arguments {
        PathArguments::AngleBracketed(args) => {
            if args@.len() == 0 {
                None
            } else if args@.len() == 1 {
                match const_u8(args@[0]) {
                    Some(w) => plain(Value::Decimal(None, w as u8, w as u8)),
                    None => None,
                }
            } else {
                match (const_u8(args@[0]), const_u8(args@[1])) {
                    (Some(w), Some(s)) => plain(Value::Decimal(None, w as u8, s as u8)),
                    _ => None,
                }
            }
        },
        _ => None,
    }
}

/// What a field of the given type decodes to, with the dereferences (as
/// `*` characters) that lead from the field to a `Passive` wrapper that
/// decides whether it is set; `None` where decoding is refused.
pub open spec fn decoded(ty: RustType) -> Option<(TypeDecoded, Option<Seq<char>>)>
    decreases ty, 1int,
{
    match ty {
        RustType::Path(p) => decoded_path(p),
        RustType::Array(elem, len) => match len {
            Some(digits) => match (decoded(*elem), parsed_unsigned(digits@, u32::MAX as nat)) {
                (Some(d), Some(n)) => plain(Value::Array(None, Box::new(d.0.value), n as u32)),
                _ => None,
            },
            None => None,
        },
        RustType::Slice(elem) => match decoded(*elem) {
            Some(d) => if d.0.value is UInt8 && !d.0.nullable && !d.0.passive {
                plain(Value::Blob(None))
            } else {
                plain(Value::List(None, Box::new(d.0.value)))
            },
            None => None,
        },
        RustType::Other => None,
    }
}

/// What a path type decodes to: a primitive, a type of a known crate, or a
/// wrapper, list or map of its argument.
pub open spec fn decoded_path(p: TypePath) -> Option<(TypeDecoded, Option<Seq<char>>)>
    decreases p, 0int,
{
    if ident_of(p) is Some && primitive_value(ident_of(p)->0) is Some {
        plain(primitive_value(ident_of(p)->0)->0)
    } else if named_value(p) is Some {
        plain(named_value(p)->0)
    } else if names(p, "tank", "FixedDecimal") {
        fixed_decimal(p)
    } else if is_wrapper(p) || is_list(p) || is_map(p) {
        match p.segments@.last().arguments {
            PathArguments::AngleBracketed(args) => {
                let k: int = if is_cow(p) {
                    1
                } else {
                    0
                };
                if args@.len() <= k {
                    None
                } else {
                    match args@[k] {
                        GenericArgument::Type(t) => match decoded(t) {
                            Some(first) => if is_wrapper(p) {
                                wrapped(p, first.0, first.1)
                            } else if is_list(p) {
                                listed(first.0, first.1)
                            } else if args@.len() < 2 {
                                None
                            } else {
                                match args@[1] {
                                    GenericArgument::Type(t2) => match decoded(t2) {
                                        Some(second) => mapped(first.0, first.1, second.0),
                                        None => None,
                                    },
                                    _ => None,
                                }
                            },
                            None => None,
                        },
                        _ => None,
                    }
                }
            },
            _ => None,
        }
    } else {
        None
    }
}

/// A wrapper around an argument that decoded to `first`: nullable when it
/// is an `Option` or its argument is; its own `Passive` check when it is a
/// `Passive`, else its argument's, one dereference further.
pub open spec fn wrapped(p: TypePath, first: TypeDecoded, inner: Option<Seq<char>>) -> Option<
    (TypeDecoded, Option<Seq<char>>),
> {
    let check = if is_passive(p) {
        Some(Seq::<char>::empty())
    } else {
        match inner {
            Some(s) => Some(seq!['*'] + s),
            None => None,
        }
    };
    Some(
        (
            TypeDecoded {
                value: first.value,
                nullable: if is_option(p) {
                    true
                } else {
                    first.nullable
                },
                passive: check is Some,
            },
            check,
        ),
    )
}

/// A list of an argument that decoded to `first`.
pub open spec fn listed(first: TypeDecoded, inner: Option<Seq<char>>) -> Option<
    (TypeDecoded, Option<Seq<char>>),
> {
    Some(
        (
            TypeDecoded {
                value: Value::List(None, Box::new(first.value)),
                nullable: false,
                passive: inner is Some,
            },
            inner,
        ),
    )
}

/// A map from an argument that decoded to `first` to one that decoded to `second`.
pub open spec fn mapped(first: TypeDecoded, inner: Option<Seq<char>>, second: TypeDecoded) -> Option<
    (TypeDecoded, Option<Seq<char>>),
> {
    Some(
        (
            TypeDecoded {
                value: Value::Dict(None, Box::new(first.value), Box::new(second.value)),
                nullable: false,
                passive: inner is Some,
            },
            inner,
        ),
    )
}

/// Whether the last segments of the path are the last names of `expect`,
/// as far as the shorter of the two goes.
pub fn matches_path(path: &TypePath, expect: &[&str]) -> (r: bool)
    ensures
        r == path_matches(path.segments@, expect@),
{
    let n = if path.segments.len() < expect.len() {
        path.segments.len()
    } else {
        expect.len()
    };
    let mut i: usize = 0;
    while i < n
        invariant
            i <= n,
            n == (if path.segments@.len() < expect@.len() {
                path.segments@.len()
            } else {
                expect@.len()
            }),
            forall|j: int| 0 <= j < i ==> #[trigger] ident_from_end(path.segments@, j)
                == expect@[expect@.len() - 1 - j]@,
        decreases n - i,
    {
        let a = path.segments[path.segments.len() - 1 - i].ident.as_str();
        let b = expect[expect.len() - 1 - i];
        if !same_text(a, b) {
            assert(ident_from_end(path.segments@, i as int) != expect@[expect@.len() - 1 - i]@);
            return false;
        }
        i = i + 1;
    }
    true
}

fn names_exec(p: &TypePath, a: &'static str, b: &'static str) -> (r: bool)
    ensures
        r == names(*p, a, b),
{
    let e = [a, b];
    assert(e@ =~= seq![a, b]);
    matches_path(p, &e)
}

fn names3_exec(p: &TypePath, a: &'static str, b: &'static str, c: &'static str) -> (r: bool)
    ensures
        r == names3(*p, a, b, c),
{
    let e = [a, b, c];
    assert(e@ =~= seq![a, b, c]);
    matches_path(p, &e)
}

/// The identifier of a path made of one segment without arguments.
fn path_ident(p: &TypePath) -> (r: Option<&String>)
    ensures
        r matches Some(s) ==> ident_of(*p) == Some(s@),
        r is None <==> ident_of(*p) is None,
{
    if !p.leading_colon && p.segments.len() == 1 {
        match &p.segments[0].arguments {
            PathArguments::Absent => Some(&p.segments[0].ident),
            _ => None,
        }
    } else {
        None
    }
}

/// The prototype of a primitive type, by name.
fn primitive(name: &str) -> (r: Option<Value>)
    ensures
        r == primitive_value(name@),
{
    if same_text(name, "bool") {
        Some(Value::Boolean(None))
    } else if same_text(name, "i8") {
        Some(Value::Int8(None))
    } else if same_text(name, "i16") {
        Some(Value::Int16(None))
    } else if same_text(name, "i32") {
        Some(Value::Int32(None))
    } else if same_text(name, "i64") {
        Some(Value::Int64(None))
    } else if same_text(name, "i128") {
        Some(Value::Int128(None))
    } else if same_text(name, "u8") {
        Some(Value::UInt8(None))
    } else if same_text(name, "u16") {
        Some(Value::UInt16(None))
    } else if same_text(name, "u32") {
        Some(Value::UInt32(None))
    } else if same_text(name, "u64") {
        Some(Value::UInt64(None))
    } else if same_text(name, "u128") {
        Some(Value::UInt128(None))
    } else if same_text(name, "isize") {
        Some(
            if usize::BITS == 32 {
                Value::Int32(None)
            } else {
                Value::Int64(None)
            },
        )
    } else if same_text(name, "usize") {
        Some(
            if usize::BITS == 32 {
                Value::UInt32(None)
            } else {
                Value::UInt64(None)
            },
        )
    } else if same_text(name, "f32") {
        Some(Value::Float32(None))
    } else if same_text(name, "f64") {
        Some(Value::Float64(None))
    } else if same_text(name, "char") {
        Some(Value::Char(None))
    } else if same_text(name, "str") {
        Some(Value::Varchar(None))
    } else {
        None
    }
}

/// The prototype of a path naming a type of a known crate.
fn named(p: &TypePath) -> (r: Option<Value>)
    ensures
        r == named_value(*p),
{
    if names3_exec(p, "std", "string", "String") {
        Some(Value::Varchar(None))
    } else if names_exec(p, "rust_decimal", "Decimal") {
        Some(Value::Decimal(None, 0, 0))
    } else if names_exec(p, "tank", "FixedDecimal") {
        None
    } else if names_exec(p, "time", "Time") {
        Some(Value::Time(None))
    } else if names_exec(p, "time", "Date") {
        Some(Value::Date(None))
    } else if names_exec(p, "time", "PrimitiveDateTime") {
        Some(Value::Timestamp(None))
    } else if names_exec(p, "time", "OffsetDateTime") {
        Some(Value::TimestampWithTimezone(None))
    } else if names3_exec(p, "std", "time", "Duration") || names_exec(p, "tank", "Interval") {
        Some(Value::Interval(None))
    } else if names_exec(p, "uuid", "Uuid") {
        Some(Value::Uuid(None))
    } else {
        None
    }
}

fn const_arg_u8(a: &GenericArgument) -> (r: Option<u8>)
    ensures
        r matches Some(v) ==> const_u8(*a) == Some(v as nat),
        r is None <==> const_u8(*a) is None,
{
    match a {
        GenericArgument::Const(Some(d)) => match parse_unsigned(d.as_str(), 255) {
            Some(v) => Some(v as u8),
            None => None,
        },
        _ => None,
    }
}

/// The view of a `Passive` check.
pub open spec fn check_view(c: Option<String>) -> Option<Seq<char>> {
    match c {
        Some(s) => Some(s@),
        None => None,
    }
}

/// The view of a decoding result.
pub open spec fn decoding_view(r: Option<(TypeDecoded, Option<String>)>) -> Option<
    (TypeDecoded, Option<Seq<char>>),
> {
    match r {
        Some(d) => Some((d.0, check_view(d.1))),
        None => None,
    }
}

fn plain_exec(v: Value) -> (r: Option<(TypeDecoded, Option<String>)>)
    ensures
        decoding_view(r) == plain(v),
{
    Some((TypeDecoded { value: v, nullable: false, passive: false }, None))
}

/// Decodes a field's type; `None` where the type cannot be decoded: an
/// unknown type, a wrapper, list or map without a type argument, a
/// `FixedDecimal` whose arguments are not integer literals fitting in a
/// `u8`, or an array whose length is not an integer literal fitting in a `u32`.
pub fn try_decode_type(ty: &RustType) -> (r: Option<(TypeDecoded, Option<String>)>)
    ensures
        decoding_view(r) == decoded(*ty),
    decreases ty, 1int,
{
    match ty {
        RustType::Path(p) => try_decode_path(p),
        RustType::Array(elem, len) => match len {
            Some(digits) => {
                let d = try_decode_type(elem);
                let n = parse_unsigned(digits.as_str(), 4294967295);
                match (d, n) {
                    (Some(d), Some(n)) => plain_exec(Value::Array(None, Box::new(d.0.value), n as u32)),
                    _ => None,
                }
            },
            None => None,
        },
        RustType::Slice(elem) => match try_decode_type(elem) {
            Some(d) => {
                let is_byte = match d.0.value {
                    Value::UInt8(..) => true,
                    _ => false,
                };
                if is_byte && !d.0.nullable && !d.0.passive {
                    plain_exec(Value::Blob(None))
                } else {
                    plain_exec(Value::List(None, Box::new(d.0.value)))
                }
            },
            None => None,
        },
        RustType::Other => None,
    }
}

fn try_decode_path(p: &TypePath) -> (r: Option<(TypeDecoded, Option<String>)>)
    ensures
        decoding_view(r) == decoded_path(*p),
    decreases p, 0int,
{
    if let Some(ident) = path_ident(p) {
        if let Some(v) = primitive(ident.as_str()) {
            return plain_exec(v);
        }
    }
    if let Some(v) = named(p) {
        return plain_exec(v);
    }
    if names_exec(p, "tank", "FixedDecimal") {
        return fixed_decimal_exec(p);
    }
    let wrapper = is_wrapper_exec(p);
    let list = is_list_exec(p);
    let map = is_map_exec(p);
    if !(wrapper || list || map) {
        return None;
    }
    let last = p.segments.len() - 1;
    let args = match &p.segments[last].arguments {
        PathArguments::AngleBracketed(args) => args,
        _ => {
            return None;
        },
    };
    let k: usize = if names3_exec(p, "std", "borrow", "Cow") {
        1
    } else {
        0
    };
    if args.len() <= k {
        return None;
    }
    let first = match &args[k] {
        GenericArgument::Type(t) => match try_decode_type(t) {
            Some(first) => first,
            None => {
                return None;
            },
        },
        _ => {
            return None;
        },
    };
    if wrapper {
        let passive = names_exec(p, "tank", "Passive");
        let option = names3_exec(p, "std", "option", "Option");
        let check = if passive {
            Some(String::new())
        } else {
            match first.1 {
                Some(s) => {
                    let mut c = String::from_str("*");
                    c.append(s.as_str());
                    Some(c)
                },
                None => None,
            }
        };
        let passive_set = check.is_some();
        proof {
            reveal_strlit("*");
            reveal_strlit("");
        }
        Some(
            (
                TypeDecoded {
                    value: first.0.value,
                    nullable: if option {
                        true
                    } else {
                        first.0.nullable
                    },
                    passive: passive_set,
                },
                check,
            ),
        )
    } else if list {
        let passive_set = first.1.is_some();
        Some(
            (
                TypeDecoded {
                    value: Value::List(None, Box::new(first.0.value)),
                    nullable: false,
                    passive: passive_set,
                },
                first.1,
            ),
        )
    } else if args.len() < 2 {
        None
    } else {
        match &args[1] {
            GenericArgument::Type(t2) => match try_decode_type(t2) {
                Some(second) => {
                    let passive_set = first.1.is_some();
                    Some(
                        (
                            TypeDecoded {
                                value: Value::Dict(
                                    None,
                                    Box::new(first.0.value),
                                    Box::new(second.0.value),
                                ),
                                nullable: false,
                                passive: passive_set,
                            },
                            first.1,
                        ),
                    )
                },
                None => None,
            },
            _ => None,
        }
    }
}

fn is_wrapper_exec(p: &TypePath) -> (r: bool)
    ensures
        r == is_wrapper(*p),
{
    names3_exec(p, "std", "option", "Option") || names_exec(p, "tank", "Passive") || names3_exec(
        p,
        "std",
        "borrow",
        "Cow",
    ) || names3_exec(p, "std", "boxed", "Box") || names3_exec(p, "std", "cell", "Cell")
        || names3_exec(p, "std", "cell", "RefCell") || names3_exec(p, "std", "rc", "Rc")
        || names3_exec(p, "std", "sync", "Arc") || names3_exec(p, "std", "sync", "RwLock")
}

fn is_list_exec(p: &TypePath) -> (r: bool)
    ensures
        r == is_list(*p),
{
    names3_exec(p, "std", "vec", "Vec") || names3_exec(p, "std", "collections", "VecDeque")
        || names3_exec(p, "std", "collections", "LinkedList")
}

fn is_map_exec(p: &TypePath) -> (r: bool)
    ensures
        r == is_map(*p),
{
    names3_exec(p, "std", "collections", "HashMap") || names3_exec(
        p,
        "std",
        "collections",
        "BTreeMap",
    )
}

fn fixed_decimal_exec(p: &TypePath) -> (r: Option<(TypeDecoded, Option<String>)>)
    requires
        names(*p, "tank", "FixedDecimal"),
        p.segments@.len() > 0,
    ensures
        decoding_view(r) == fixed_decimal(*p),
{
    let last = p.segments.len() - 1;
    match &p.segments[last].arguments {
        PathArguments::AngleBracketed(args) => {
            if args.len() == 0 {
                None
            } else if args.len() == 1 {
                match const_arg_u8(&args[0]) {
                    Some(w) => plain_exec(Value::Decimal(None, w, w)),
                    None => None,
                }
            } else {
                match (const_arg_u8(&args[0]), const_arg_u8(&args[1])) {
                    (Some(w), Some(s)) => plain_exec(Value::Decimal(None, w, s)),
                    _ => None,
                }
            }
        },
        _ => None,
    }
}

/// Decodes a field's type into its value prototype, whether it may be null
/// and whether it may be left unset; with a `Passive` wrapper inside, also
/// the dereferences (as `*` characters) that lead from the field to it.
pub fn decode_type(ty: &RustType) -> (r: (TypeDecoded, Option<String>))
    requires
        decoded(*ty) is Some,
    ensures
        decoded(*ty) == Some((r.0, check_view(r.1))),
{
    match try_decode_type(ty) {
        Some(r) => r,
        None => {
            assert(false);
            (TypeDecoded { value: Value::Null, nullable: false, passive: false }, None)
        },
    }
}


/// The value prototype a type decodes to (`Null` when it cannot be decoded).
pub open spec fn decoded_value(t: RustType) -> Value {
    match decoded(t) {
        Some(r) => r.0.value,
        None => Value::Null,
    }
}

/// The `Passive` check of a decoded type.
pub open spec fn decoded_check(t: RustType) -> Option<Seq<char>> {
    match decoded(t) {
        Some(r) => r.1,
        None => None,
    }
}

/// A field of type `Option<T>` decodes as `T` does, but may be null; a
/// `Passive` wrapper inside `T` is one dereference further away.
pub proof fn law_option_makes_nullable(p: TypePath, t: RustType)
    requires
        p.segments@.len() == 1,
        p.segments@[0].ident@ == "Option"@,
        p.segments@[0].arguments matches PathArguments::AngleBracketed(args) && args@.len() > 0
            && args@[0] == GenericArgument::Type(t),
        decoded(t) is Some,
    ensures
        decoded_path(p) matches Some((d, check)) && d.value == decoded_value(t) && d.nullable
            && check == match decoded_check(t) {
            Some(s) => Some(seq!['*'] + s),
            None => None,
        } && d.passive == (decoded_check(t) is Some),
{

    reveal_strlit("Option");
    reveal_strlit("Vec");
    reveal_strlit("String");
    reveal_strlit("Decimal");
    reveal_strlit("FixedDecimal");
    reveal_strlit("Time");
    reveal_strlit("Date");
    reveal_strlit("PrimitiveDateTime");
    reveal_strlit("OffsetDateTime");
    reveal_strlit("Duration");
    reveal_strlit("Interval");
    reveal_strlit("Uuid");
    reveal_strlit("Passive");
    reveal_strlit("Cow");
    reveal_strlit("Box");
    reveal_strlit("Cell");
    reveal_strlit("RefCell");
    reveal_strlit("Rc");
    reveal_strlit("Arc");
    reveal_strlit("RwLock");
    assert(ident_from_end(p.segments@, 0) == "Option"@);
    assert("Option"@[0] != "String"@[0]);
    assert(ident_of(p) is None);
    assert(!names3(p, "std", "string", "String"));
    assert(!names(p, "rust_decimal", "Decimal"));
    assert(!names(p, "tank", "FixedDecimal"));
    assert(!names(p, "time", "Time"));
    assert(!names(p, "time", "Date"));
    assert(!names(p, "time", "PrimitiveDateTime"));
    assert(!names(p, "time", "OffsetDateTime"));
    assert(!names3(p, "std", "time", "Duration"));
    assert(!names(p, "tank", "Interval"));
    assert(!names(p, "uuid", "Uuid"));
    assert(names3(p, "std", "option", "Option"));
    assert(!names(p, "tank", "Passive"));
    assert(!names3(p, "std", "borrow", "Cow"));
}

/// A field of type `Vec<T>` decodes to a list of what `T` decodes to, never
/// null; a `Passive` check inside `T` is kept as it is.
pub proof fn law_vec_is_list(p: TypePath, t: RustType)
    requires
        p.segments@.len() == 1,
        p.segments@[0].ident@ == "Vec"@,
        p.segments@[0].arguments matches PathArguments::AngleBracketed(args) && args@.len() > 0
            && args@[0] == GenericArgument::Type(t),
        decoded(t) is Some,
    ensures
        decoded_path(p) matches Some((d, check)) && d.value == Value::List(
            None,
            Box::new(decoded_value(t)),
        ) && !d.nullable && check == decoded_check(t),
{

    reveal_strlit("Option");
    reveal_strlit("Vec");
    reveal_strlit("String");
    reveal_strlit("Decimal");
    reveal_strlit("FixedDecimal");
    reveal_strlit("Time");
    reveal_strlit("Date");
    reveal_strlit("PrimitiveDateTime");
    reveal_strlit("OffsetDateTime");
    reveal_strlit("Duration");
    reveal_strlit("Interval");
    reveal_strlit("Uuid");
    reveal_strlit("Passive");
    reveal_strlit("Cow");
    reveal_strlit("Box");
    reveal_strlit("Cell");
    reveal_strlit("RefCell");
    reveal_strlit("Rc");
    reveal_strlit("Arc");
    reveal_strlit("RwLock");
    assert(ident_from_end(p.segments@, 0) == "Vec"@);
    assert("Vec"@[0] != "Cow"@[0] && "Vec"@[0] != "Box"@[0] && "Vec"@[0] != "Arc"@[0]);
    assert(ident_of(p) is None);
    assert(!names3(p, "std", "string", "String"));
    assert(!names(p, "rust_decimal", "Decimal"));
    assert(!names(p, "tank", "FixedDecimal"));
    assert(!names(p, "time", "Time"));
    assert(!names(p, "time", "Date"));
    assert(!names(p, "time", "PrimitiveDateTime"));
    assert(!names(p, "time", "OffsetDateTime"));
    assert(!names3(p, "std", "time", "Duration"));
    assert(!names(p, "tank", "Interval"));
    assert(!names(p, "uuid", "Uuid"));
    assert(!is_wrapper(p));
    assert(names3(p, "std", "vec", "Vec"));
}

/// A field of type `Passive<T>` decodes as `T` does, with the same
/// nullability, and may be left unset: its own `Passive` is the check, with
/// no dereference.
pub proof fn law_passive_may_be_unset(p: TypePath, t: RustType)
    requires
        p.segments@.len() == 1,
        p.segments@[0].ident@ == "Passive"@,
        p.segments@[0].arguments matches PathArguments::AngleBracketed(args) && args@.len() > 0
            && args@[0] == GenericArgument::Type(t),
        decoded(t) is Some,
    ensures
        decoded(t) matches Some((dt, _)) && decoded_path(p) matches Some((d, check)) && d.value
            == dt.value && d.nullable == dt.nullable && d.passive && check == Some(
            Seq::<char>::empty(),
        ),
{
    reveal_strlit("Option");
    reveal_strlit("Vec");
    reveal_strlit("String");
    reveal_strlit("Decimal");
    reveal_strlit("FixedDecimal");
    reveal_strlit("Time");
    reveal_strlit("Date");
    reveal_strlit("PrimitiveDateTime");
    reveal_strlit("OffsetDateTime");
    reveal_strlit("Duration");
    reveal_strlit("Interval");
    reveal_strlit("Uuid");
    reveal_strlit("Passive");
    reveal_strlit("Cow");
    reveal_strlit("Box");
    reveal_strlit("Cell");
    reveal_strlit("RefCell");
    reveal_strlit("Rc");
    reveal_strlit("Arc");
    reveal_strlit("RwLock");
    assert(ident_from_end(p.segments@, 0) == "Passive"@);
    assert("Passive"@[0] != "String"@[0]);
    assert(ident_of(p) is None);
    assert(!names3(p, "std", "string", "String"));
    assert(!names(p, "rust_decimal", "Decimal"));
    assert(!names(p, "tank", "FixedDecimal"));
    assert(!names(p, "time", "Time"));
    assert(!names(p, "time", "Date"));
    assert(!names(p, "time", "PrimitiveDateTime"));
    assert(!names(p, "time", "OffsetDateTime"));
    assert(!names3(p, "std", "time", "Duration"));
    assert(!names(p, "tank", "Interval"));
    assert(!names(p, "uuid", "Uuid"));
    assert(!names3(p, "std", "option", "Option"));
    assert(names(p, "tank", "Passive"));
    assert(!names3(p, "std", "borrow", "Cow"));
}

/// A field of type `Option<Passive<T>>` decodes as `T` does, may be null
/// and may be left unset, the check one dereference away.
pub proof fn law_optional_passive(q: TypePath, p: TypePath, t: RustType)
    requires
        q.segments@.len() == 1,
        q.segments@[0].ident@ == "Option"@,
        q.segments@[0].arguments matches PathArguments::AngleBracketed(args) && args@.len() > 0
            && args@[0] == GenericArgument::Type(RustType::Path(p)),
        p.segments@.len() == 1,
        p.segments@[0].ident@ == "Passive"@,
        p.segments@[0].arguments matches PathArguments::AngleBracketed(args) && args@.len() > 0
            && args@[0] == GenericArgument::Type(t),
        decoded(t) is Some,
    ensures
        decoded_path(q) matches Some((d, check)) && d.value == decoded_value(t) && d.nullable
            && d.passive && check == Some(seq!['*']),
{
    law_passive_may_be_unset(p, t);
    assert(decoded(RustType::Path(p)) == decoded_path(p));
    law_option_makes_nullable(q, RustType::Path(p));
    assert(seq!['*'] + Seq::<char>::empty() =~= seq!['*']);
}

/// Whether `Passive` occurs nowhere in the type: not as the type, nor in any
/// type argument, element type or nested type.
pub open spec fn passive_free(ty: RustType) -> bool
    decreases ty, 1int,
{
    match ty {
        RustType::Path(p) => passive_free_path(p),
        RustType::Array(elem, _) => passive_free(*elem),
        RustType::Slice(elem) => passive_free(*elem),
        RustType::Other => true,
    }
}

/// As [`passive_free`], for a path type.
pub open spec fn passive_free_path(p: TypePath) -> bool
    decreases p, 0int,
{
    &&& !is_passive(p)
    &&& p.segments@.len() > 0 ==> match p.segments@.last().arguments {
        PathArguments::AngleBracketed(args) => forall|k: int|
            0 <= k < args@.len() ==> match #[trigger] args@[k] {
                GenericArgument::Type(t) => passive_free(t),
                _ => true,
            },
        _ => true,
    }
}

/// A type in which `Passive` does not occur decodes as a field that is
/// always set: not passive, with no check.
pub proof fn law_passive_free_is_set(ty: RustType)
    requires
        passive_free(ty),
        decoded(ty) is Some,
    ensures
        decoded(ty) matches Some((d, check)) && !d.passive && check is None,
    decreases ty, 1int,
{
    match ty {
        RustType::Path(p) => law_passive_free_path_is_set(p),
        _ => {},
    }
}

/// As [`law_passive_free_is_set`], for a path type.
pub proof fn law_passive_free_path_is_set(p: TypePath)
    requires
        passive_free_path(p),
        decoded_path(p) is Some,
    ensures
        decoded_path(p) matches Some((d, check)) && !d.passive && check is None,
    decreases p, 0int,
{
    if ident_of(p) is Some && primitive_value(ident_of(p)->0) is Some {
    } else if named_value(p) is Some {
    } else if names(p, "tank", "FixedDecimal") {
    } else if is_wrapper(p) || is_list(p) || is_map(p) {
        match p.segments@.last().arguments {
            PathArguments::AngleBracketed(args) => {
                let k: int = if is_cow(p) {
                    1
                } else {
                    0
                };
                if args@.len() > k {
                    match args@[k] {
                        GenericArgument::Type(t) => {
                            assert(passive_free(t));
                            if decoded(t) is Some {
                                law_passive_free_is_set(t);
                            }
                        },
                        _ => {},
                    }
                }
            },
            _ => {},
        }
    }
}

/// Each type of the `time` crate decodes to the column kind of its own
/// values: a field of type `time::Date`, `time::Time` or
/// `time::PrimitiveDateTime` decodes to the prototype that the library's
/// date, time or timestamp values give, never null and always set;
/// `time::OffsetDateTime` to a timestamp with time zone.
pub proof fn law_time_types_decode_to_their_kinds(p: TypePath, name: Seq<char>)
    requires
        p.segments@.len() == 2,
        p.segments@[0].ident@ == "time"@,
        p.segments@[1].ident@ == name,
    ensures
        name == "Date"@ ==> decoded_path(p) == plain(
            <crate::sql_writer::DateValue as crate::as_value::AsValue>::spec_empty(),
        ),
        name == "Time"@ ==> decoded_path(p) == plain(
            <crate::sql_writer::TimeValue as crate::as_value::AsValue>::spec_empty(),
        ),
        name == "PrimitiveDateTime"@ ==> decoded_path(p) == plain(
            <crate::value::TimestampValue as crate::as_value::AsValue>::spec_empty(),
        ),
        name == "OffsetDateTime"@ ==> decoded_path(p) == plain(Value::TimestampWithTimezone(None)),
{
    reveal_strlit("time");
    reveal_strlit("std");
    reveal_strlit("string");
    reveal_strlit("String");
    reveal_strlit("rust_decimal");
    reveal_strlit("Decimal");
    reveal_strlit("tank");
    reveal_strlit("FixedDecimal");
    reveal_strlit("Time");
    reveal_strlit("Date");
    reveal_strlit("PrimitiveDateTime");
    reveal_strlit("OffsetDateTime");
    assert(ident_of(p) is None);
    assert(ident_from_end(p.segments@, 0) == name);
    assert(ident_from_end(p.segments@, 1) == "time"@);
    if name == "Date"@ || name == "Time"@ || name == "PrimitiveDateTime"@ || name
        == "OffsetDateTime"@ {
        assert(name.len() != "String"@.len() || name[0] != "String"@[0]);
        assert(name.len() != "Decimal"@.len() || name[0] != "Decimal"@[0]);
        assert(!names3(p, "std", "string", "String"));
        assert(!names(p, "rust_decimal", "Decimal"));
        assert(!names(p, "tank", "FixedDecimal"));
    }
    if name == "Date"@ {
        assert(name[0] != "Time"@[0]);
        assert(!names(p, "time", "Time"));
        assert(names(p, "time", "Date"));
    }
    if name == "Time"@ {
        assert(names(p, "time", "Time"));
    }
    if name == "PrimitiveDateTime"@ {
        assert(name.len() != "Time"@.len() && name.len() != "Date"@.len());
        assert(!names(p, "time", "Time"));
        assert(!names(p, "time", "Date"));
        assert(names(p, "time", "PrimitiveDateTime"));
    }
    if name == "OffsetDateTime"@ {
        assert(name.len() != "Time"@.len() && name.len() != "Date"@.len());
        assert(name.len() != "PrimitiveDateTime"@.len());
        assert(!names(p, "time", "Time"));
        assert(!names(p, "time", "Date"));
        assert(!names(p, "time", "PrimitiveDateTime"));
        assert(names(p, "time", "OffsetDateTime"));
    }
}

} // verus!
