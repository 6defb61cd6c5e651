//! The first form of table metadata: data types, column and table
//! definitions, and the data type a field's Rust type maps to.
use vstd::prelude::*;
use vstd::string::StringExecFns;
use crate::decode_type::{GenericArgument, PathArguments, RustType, TypePath};
use crate::util::same_text;
use crate::value::Value;

verus! {

/// The SQL data types of the first metadata form.
#[derive(Debug, PartialEq, Eq)]
pub enum DataType {
    Varchar,
    Boolean,
    Int8,
    Int16,
    Int32,
    Int64,
    Int128,
    UInt8,
    UInt16,
    UInt32,
    UInt64,
    UInt128,
    Float32,
    Float64,
    Double,
    Decimal(u8, u8),
    Byte,
    Date,
    Time,
    Timestamp,
    TimestampWithTimezone,
    Interval,
    Uuid,
    Json,
    Array(Box<DataType>, u8),
    List(Box<DataType>),
    Dict(Box<DataType>, Box<DataType>),
}

/// A table, by name.
#[derive(Debug)]
pub struct TableRef {
    pub name: String,
}

impl TableRef {
    /// The table's name.
    pub fn to_string(&self) -> (r: String)
        ensures
            r@ == self.name@,
    {
        String::from_str(self.name.as_str())
    }
}

/// A column: its name, its value prototype and whether it may be null.
#[derive(Debug)]
pub struct ColumnDef {
    pub name: String,
    pub value: Value,
    pub nullable: bool,
}

/// The text of a column definition: its name, a placeholder for its type,
/// then `NOT NULL` unless it may be null.
pub open spec fn column_def_text(c: ColumnDef) -> Seq<char> {
    c.name@ + " self.data_type"@ + if c.nullable {
        Seq::empty()
    } else {
        " NOT NULL"@
    }
}

impl ColumnDef {
    /// The text of the column definition.
    pub fn to_string(&self) -> (r: String)
        ensures
            r@ == column_def_text(*self),
    {
        let mut result = String::from_str(self.name.as_str());
        result.append(" self.data_type");
        if !self.nullable {
            result.append(" NOT NULL");
        }
        result
    }
}

/// A column, by name.
#[derive(Debug)]
pub struct ColumnRef {
    pub name: String,
}

/// The last segment of a path, when there is one.
pub open spec fn last_ident(p: TypePath) -> Seq<char> {
    p.segments@.last().ident@
}

/// The data type of a primitive or `String`, by name.
pub open spec fn primitive_data_type(name: Seq<char>) -> Option<DataType> {
    if name == "String"@ {
        Some(DataType::Varchar)
    } else if name == "i8"@ {
        Some(DataType::Int8)
    } else if name == "i16"@ {
        Some(DataType::Int16)
    } else if name == "i32"@ {
        Some(DataType::Int32)
    } else if name == "i64"@ {
        Some(DataType::Int64)
    } else if name == "i128"@ {
        Some(DataType::Int128)
    } else if name == "u8"@ {
        Some(DataType::UInt8)
    } else if name == "u16"@ {
        Some(DataType::UInt16)
    } else if name == "u32"@ {
        Some(DataType::UInt32)
    } else if name == "u64"@ {
        Some(DataType::UInt64)
    } else if name == "u128"@ {
        Some(DataType::UInt128)
    } else if name == "f32"@ {
        Some(DataType::Float32)
    } else if name == "f64"@ {
        Some(DataType::Float64)
    } else {
        None
    }
}

/// The path a generic argument names, when it is a path type.
pub open spec fn first_path_argument(p: TypePath) -> Option<TypePath> {
    match p.segments@.last().arguments {
        PathArguments::AngleBracketed(args) => if args@.len() > 0 {
            match args@[0] {
                GenericArgument::Type(RustType::Path(inner)) => Some(inner),
                _ => None,
            }
        } else {
            None
        },
        _ => None,
    }
}

/// The data type that a path type maps to, by its last segment, and whether
/// it may be null (an `Option`, or an `Option` or `Box` of one); `None` for
/// an unknown name or a wrapper without a path as its first argument.
pub open spec fn decoded_data_type(p: TypePath) -> Option<(DataType, bool)>
    decreases p,
{
    if p.segments@.len() == 0 {
        None
    } else {
        let ident = last_ident(p);
        if primitive_data_type(ident) is Some {
            Some((primitive_data_type(ident)->0, ident == "Option"@))
        } else if ident == "Option"@ || ident == "Box"@ || ident == "Vec"@ {
            match p.segments@.last().arguments {
                PathArguments::AngleBracketed(args) => if args@.len() > 0 {
                    match args@[0] {
                        GenericArgument::Type(RustType::Path(inner)) => match decoded_data_type(
                            inner,
                        ) {
                            Some(nested) => if ident == "Vec"@ {
                                Some((DataType::List(Box::new(nested.0)), false))
                            } else {
                                Some((nested.0, ident == "Option"@ || nested.1))
                            },
                            None => None,
                        },
                        _ => None,
                    }
                } else {
                    None
                },
                _ => None,
            }
        } else {
            None
        }
    }
}

fn primitive_type(name: &str) -> (r: Option<DataType>)
    ensures
        r == primitive_data_type(name@),
{
    if same_text(name, "String") {
        Some(DataType::Varchar)
    } else if same_text(name, "i8") {
        Some(DataType::Int8)
    } else if same_text(name, "i16") {
        Some(DataType::Int16)
    } else if same_text(name, "i32") {
        Some(DataType::Int32)
    } else if same_text(name, "i64") {
        Some(DataType::Int64)
    } else if same_text(name, "i128") {
        Some(DataType::Int128)
    } else if same_text(name, "u8") {
        Some(DataType::UInt8)
    } else if same_text(name, "u16") {
        Some(DataType::UInt16)
    } else if same_text(name, "u32") {
        Some(DataType::UInt32)
    } else if same_text(name, "u64") {
        Some(DataType::UInt64)
    } else if same_text(name, "u128") {
        Some(DataType::UInt128)
    } else if same_text(name, "f32") {
        Some(DataType::Float32)
    } else if same_text(name, "f64") {
        Some(DataType::Float64)
    } else {
        None
    }
}

/// The data type of a path type and whether it may be null, or `None` where
/// the type cannot be decoded.
pub fn try_decode_type(type_path: &TypePath) -> (r: Option<(DataType, bool)>)
    ensures
        r == decoded_data_type(*type_path),
    decreases type_path,
{
    if type_path.segments.len() == 0 {
        return None;
    }
    let last = &type_path.segments[type_path.segments.len() - 1];
    let ident = last.ident.as_str();
    if let Some(t) = primitive_type(ident) {
        return Some((t, same_text(ident, "Option")));
    }
    let is_option = same_text(ident, "Option");
    let is_box = same_text(ident, "Box");
    let is_vec = same_text(ident, "Vec");
    if !(is_option || is_box || is_vec) {
        return None;
    }
    match &last.arguments {
        PathArguments::AngleBracketed(args) => {
            if args.len() == 0 {
                return None;
            }
            match &args[0] {
                GenericArgument::Type(RustType::Path(inner)) => match try_decode_type(inner) {
                    Some(nested) => if is_vec {
                        Some((DataType::List(Box::new(nested.0)), false))
                    } else {
                        Some((nested.0, is_option || nested.1))
                    },
                    None => None,
                },
                _ => None,
            }
        },
        _ => None,
    }
}

/// The data type of a path type (by its last segment) and whether it may be null.
pub fn decode_type(type_path: &TypePath) -> (r: (DataType, bool))
    requires
        decoded_data_type(*type_path) is Some,
    ensures
        decoded_data_type(*type_path) == Some(r),
{
    match try_decode_type(type_path) {
        Some(r) => r,
        None => {
            assert(false);
            (DataType::Varchar, false)
        },
    }
}

} // verus!
