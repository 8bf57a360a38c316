//! The code generator: reads a type declaration's shape, validates it
//! against the structural rules, and decides what is emitted for it.

pub mod ast;
pub mod emit;
pub mod generics;
pub mod messages;
pub mod parser;
pub mod types;

pub use ast::{
    AttrModel, DataModel, DeriveInputModel, FieldModel, FieldsModel, GenericsModel, ListPayload,
    Meta, MetaValue, Predicate, TypeModel, TypeSegment, VariantModel, VisModel,
};
pub use emit::{
    classify, generate, generate_context_def, generate_enum, generate_struct, generate_variant,
    scan_fields, ContextDef, DisplayGen, Generated, ScanOut, VariantInput,
};
pub use generics::{InferredBounds, ParamsInScope};
pub use parser::{parse_field_attr, parse_type_attr, parse_variant_attr, FieldAttr, TypeAttr, VariantAttr};
pub use types::{ContextKind, ErrorKind, Trait, TypeDisplayAttr};
