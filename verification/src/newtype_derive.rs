//! `#[derive(TryFromSexp)]` / `#[derive(IntoR)]` on a newtype: the derives
//! forward R↔Rust conversions to the single field's type, so they accept
//! only structs with exactly one field.
use vstd::prelude::*;

verus! {

/// The shape of the item a derive is applied to.
pub enum DataShape {
    /// A struct with named fields, with their names in order.
    Named(Vec<String>),
    /// A tuple struct, with its number of fields.
    Unnamed(usize),
    /// A struct without fields.
    Unit,
    Enum,
    Union,
}

/// How the derive reaches the single field: by its name, or as `.0`.
pub struct Newtype {
    /// `Some(name)` for `struct S { name: T }`, `None` for `struct S(T)`.
    pub named_field: Option<String>,
}

/// Why an item is not a newtype.
#[derive(Clone, Copy, Debug, PartialEq, Eq, Structural)]
pub enum NewtypeError {
    /// An enum or a union.
    NotAStruct,
    /// A struct without exactly one field.
    NotOneField,
}

/// The newtype access of an item: a tuple struct with one field, or a
/// struct with one named field; else why not.
pub open spec fn newtype_of(shape: DataShape) -> Result<Option<Seq<char>>, NewtypeError> {
    match shape {
        DataShape::Named(names) => if names@.len() == 1 {
            Ok(Some(names@[0]@))
        } else {
            Err(NewtypeError::NotOneField)
        },
        DataShape::Unnamed(n) => if n == 1 {
            Ok(None)
        } else {
            Err(NewtypeError::NotOneField)
        },
        DataShape::Unit => Err(NewtypeError::NotOneField),
        DataShape::Enum => Err(NewtypeError::NotAStruct),
        DataShape::Union => Err(NewtypeError::NotAStruct),
    }
}

/// Whether `r` is the newtype access of `shape`.
pub open spec fn reads_newtype(shape: DataShape, r: Result<Newtype, NewtypeError>) -> bool {
    match newtype_of(shape) {
        Ok(named) => r matches Ok(nt) && match (nt.named_field, named) {
            (Some(f), Some(n)) => f@ == n,
            (None, None) => true,
            _ => false,
        },
        Err(e) => r == Err::<Newtype, _>(e),
    }
}

/// The single field of a newtype struct.
pub fn parse_newtype(shape: &DataShape) -> (r: Result<Newtype, NewtypeError>)
    ensures
        reads_newtype(*shape, r),
{
    match shape {
        DataShape::Named(names) => if names.len() == 1 {
            Ok(Newtype { named_field: Some(names[0].clone()) })
        } else {
            Err(NewtypeError::NotOneField)
        },
        DataShape::Unnamed(n) => if *n == 1 {
            Ok(Newtype { named_field: None })
        } else {
            Err(NewtypeError::NotOneField)
        },
        DataShape::Unit => Err(NewtypeError::NotOneField),
        DataShape::Enum => Err(NewtypeError::NotAStruct),
        DataShape::Union => Err(NewtypeError::NotAStruct),
    }
}

impl NewtypeError {
    /// The diagnostic of `#[derive(TryFromSexp)]` / `#[derive(IntoR)]`.
    pub fn message(&self) -> (r: &'static str)
        ensures
            r@ == match *self {
                NewtypeError::NotAStruct => "this derive only works on single-field newtype structs"@,
                NewtypeError::NotOneField => "this derive requires a struct with exactly one field"@,
            },
    {
        match self {
            NewtypeError::NotAStruct => "this derive only works on single-field newtype structs",
            NewtypeError::NotOneField => "this derive requires a struct with exactly one field",
        }
    }
}

} // verus!
