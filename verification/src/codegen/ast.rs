//! The shape of a type declaration, as the code generator reads it.

use vstd::prelude::*;

verus! {

/// A visibility, reduced to the forms the generator distinguishes.
#[derive(Debug, Clone, Copy, PartialEq, Eq, Structural)]
pub enum VisModel {
    Inherited,
    Public,
    PubCrate,
    PubSuper,
    Other,
}

/// One segment of a type path: its identifier and its angle-bracketed
/// type arguments.
pub struct TypeSegment {
    pub name: String,
    pub args: Vec<TypeModel>,
}

/// A type, as far as the generator reads it: a path type with an optional
/// qualified self type, or anything else, which it leaves alone.
pub enum TypeModel {
    Path { qself: Option<Box<TypeModel>>, segments: Vec<TypeSegment> },
    Other,
}

/// What an attribute's list payload parses as.
pub struct ListPayload {
    pub tokens: String,
    pub as_bool: Option<bool>,
    pub as_vis: Option<VisModel>,
}

/// The shape of one meta item inside an attribute.
pub enum MetaValue {
    Path,
    List(ListPayload),
    NameValue,
}

/// One meta item inside an attribute: its name, if it is a plain
/// identifier, and its shape.
pub struct Meta {
    pub name: Option<String>,
    pub value: MetaValue,
}

/// One attribute on a type, variant or field: its name and its parsed
/// arguments, or `None` where the arguments do not parse.
pub struct AttrModel {
    pub name: String,
    pub parsed: Option<Vec<Meta>>,
}

/// One named field: its identifier, its type as the generator walks it,
/// and the type's printed text as the host renders it.
pub struct FieldModel {
    pub name: String,
    pub ty: TypeModel,
    pub ty_text: String,
    pub attrs: Vec<AttrModel>,
}

/// A struct's or variant's fields.
pub enum FieldsModel {
    Named(Vec<FieldModel>),
    Unnamed,
    Unit,
}

/// One enum variant.
pub struct VariantModel {
    pub name: String,
    pub attrs: Vec<AttrModel>,
    pub fields: FieldsModel,
}

/// The body of a declaration.
pub enum DataModel {
    Struct(FieldsModel),
    Enum(Vec<VariantModel>),
    Union,
}

/// A predicate of a where clause: a type and its bounds, both as text.
#[derive(Debug)]
pub struct Predicate {
    pub ty: String,
    pub bounds: Vec<String>,
}

/// The generics of a declaration: its type parameter names and its
/// declared where clause.
pub struct GenericsModel {
    pub params: Vec<String>,
    pub where_preds: Vec<Predicate>,
}

/// A whole declaration, as the generator reads it.
pub struct DeriveInputModel {
    pub name: String,
    pub attrs: Vec<AttrModel>,
    pub generics: GenericsModel,
    pub data: DataModel,
}

} // verus!
