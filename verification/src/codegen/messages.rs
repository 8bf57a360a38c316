//! The diagnostics the code generator reports.

use crate::codegen::types::ContextKind;
use vstd::prelude::*;

verus! {

/// Deriving is only offered for structs and enums with named fields.
pub open spec fn supported_types_msg() -> Seq<char> {
    "`Error2` can only be derived for structs and enums with named fields"@
}

pub fn supported_types() -> (r: &'static str)
    ensures
        r@ == supported_types_msg(),
{
    "`Error2` can only be derived for structs and enums with named fields"
}

/// A struct or variant must have a field.
pub open spec fn at_least_one_field_msg() -> Seq<char> {
    "must have at least one field"@
}

pub fn at_least_one_field() -> (r: &'static str)
    ensures
        r@ == at_least_one_field_msg(),
{
    "must have at least one field"
}

/// An enum must have a variant.
pub open spec fn at_least_one_variant_msg() -> Seq<char> {
    "must have at least one variant"@
}

pub fn at_least_one_variant() -> (r: &'static str)
    ensures
        r@ == at_least_one_variant_msg(),
{
    "must have at least one variant"
}

/// An attribute's item must be named by a plain identifier.
pub open spec fn expected_ident_msg() -> Seq<char> {
    "expected identifier"@
}

pub fn expected_ident() -> (r: &'static str)
    ensures
        r@ == expected_ident_msg(),
{
    "expected identifier"
}

/// `display` takes a meta list.
pub open spec fn display_must_in_meta_list_msg() -> Seq<char> {
    "`display` attribute can only appear in meta list, such as `#[error2(display(\"some message {}\", some_field))]` or `#[error2(display(false))]`"@
}

pub fn display_must_in_meta_list() -> (r: &'static str)
    ensures
        r@ == display_must_in_meta_list_msg(),
{
    "`display` attribute can only appear in meta list, such as `#[error2(display(\"some message {}\", some_field))]` or `#[error2(display(false))]`"
}

/// `vis` takes a meta list.
pub open spec fn vis_must_in_meta_list_msg() -> Seq<char> {
    "`vis` attribute can only appear in meta list, such as `#[error2(vis(pub))]`"@
}

pub fn vis_must_in_meta_list() -> (r: &'static str)
    ensures
        r@ == vis_must_in_meta_list_msg(),
{
    "`vis` attribute can only appear in meta list, such as `#[error2(vis(pub))]`"
}

/// `module` stands alone.
pub open spec fn module_must_in_path_msg() -> Seq<char> {
    "`module` attribute can only appear in path, such as `#[error2(module)]`"@
}

pub fn module_must_in_path() -> (r: &'static str)
    ensures
        r@ == module_must_in_path_msg(),
{
    "`module` attribute can only appear in path, such as `#[error2(module)]`"
}

/// `std` stands alone.
pub open spec fn std_must_in_path_msg() -> Seq<char> {
    "`std` attribute can only appear in path, such as `#[error2(std)]`"@
}

pub fn std_must_in_path() -> (r: &'static str)
    ensures
        r@ == std_must_in_path_msg(),
{
    "`std` attribute can only appear in path, such as `#[error2(std)]`"
}

/// Format tokens may not be given at the enum level.
pub open spec fn display_tokens_not_on_enum_msg() -> Seq<char> {
    "enums can only omit the `display` attribute or use `#[error2(display(false))]`"@
}

pub fn display_tokens_not_on_enum() -> (r: &'static str)
    ensures
        r@ == display_tokens_not_on_enum_msg(),
{
    "enums can only omit the `display` attribute or use `#[error2(display(false))]`"
}

/// When any variant carries `display`, every variant must.
pub open spec fn missing_display_on_variant_msg() -> Seq<char> {
    "missing `#[error2(display(...))]` attribute"@
}

pub fn missing_display_on_variant() -> (r: &'static str)
    ensures
        r@ == missing_display_on_variant_msg(),
{
    "missing `#[error2(display(...))]` attribute"
}

/// Disabling `display` happens at the type level, not on a variant.
pub open spec fn disable_display_must_on_type_msg() -> Seq<char> {
    "`display(false)` can only appear on the type"@
}

pub fn disable_display_must_on_type() -> (r: &'static str)
    ensures
        r@ == disable_display_must_on_type_msg(),
{
    "`display(false)` can only appear on the type"
}

/// Stands for the host parser's own report where an attribute's
/// arguments do not parse at all.
pub open spec fn malformed_attr_msg() -> Seq<char> {
    "malformed attribute input"@
}

pub fn malformed_attr() -> (r: &'static str)
    ensures
        r@ == malformed_attr_msg(),
{
    "malformed attribute input"
}

/// Stands for the host parser's own report where `vis(...)` does not
/// hold a visibility.
pub open spec fn invalid_vis_msg() -> Seq<char> {
    "expected a visibility"@
}

pub fn invalid_vis() -> (r: &'static str)
    ensures
        r@ == invalid_vis_msg(),
{
    "expected a visibility"
}

/// An attribute was given twice.
pub open spec fn specified_multiple_times_msg(attr: Seq<char>) -> Seq<char> {
    "`"@ + attr + "` attribute specified multiple times"@
}

pub fn specified_multiple_times(attr: &str) -> (r: String)
    ensures
        r@ == specified_multiple_times_msg(attr@),
{
    let mut s = "`".to_owned();
    s.append(attr);
    s.append("` attribute specified multiple times");
    proof {
        assert(s@ =~= specified_multiple_times_msg(attr@));
    }
    s
}

/// An attribute's item is not one of the single supported names.
pub open spec fn unknown_single_attr_msg(path_ident: Seq<char>, attr: Seq<char>) -> Seq<char> {
    "unknown attribute `"@ + path_ident + "`, only `"@ + attr + "` is supported"@
}

pub fn unknown_single_attr(path_ident: &str, attr: &str) -> (r: String)
    ensures
        r@ == unknown_single_attr_msg(path_ident@, attr@),
{
    let mut s = "unknown attribute `".to_owned();
    s.append(path_ident);
    s.append("`, only `");
    s.append(attr);
    s.append("` is supported");
    proof {
        assert(s@ =~= unknown_single_attr_msg(path_ident@, attr@));
    }
    s
}

/// An attribute's item is not one of the supported type-level names.
pub open spec fn unknown_type_attr_msg(path_ident: Seq<char>) -> Seq<char> {
    "unknown attribute `"@ + path_ident + "`, only `display`, `vis` and `module` are supported"@
}

pub fn unknown_type_attr(path_ident: &str) -> (r: String)
    ensures
        r@ == unknown_type_attr_msg(path_ident@),
{
    let mut s = "unknown attribute `".to_owned();
    s.append(path_ident);
    s.append("`, only `display`, `vis` and `module` are supported");
    proof {
        assert(s@ =~= unknown_type_attr_msg(path_ident@));
    }
    s
}

/// The declaration has neither of the fields the categories rest on.
pub open spec fn incorrect_def_msg(kind_word: Seq<char>) -> Seq<char> {
    "this "@ + kind_word
        + " has neither `source` nor `backtrace` fields. If it's a root error, it must contain a `backtrace` field; if it's from std, it must contain both `source` and `backtrace` fields; if it's from error2, it must contain a `source` field"@
}

pub fn incorrect_def(kind: ContextKind) -> (r: String)
    ensures
        kind is Struct ==> r@ == incorrect_def_msg("struct"@),
        kind is Variant ==> r@ == incorrect_def_msg("variant"@),
{
    let mut s = "this ".to_owned();
    s.append(kind.as_str());
    s.append(
        " has neither `source` nor `backtrace` fields. If it's a root error, it must contain a `backtrace` field; if it's from std, it must contain both `source` and `backtrace` fields; if it's from error2, it must contain a `source` field",
    );
    proof {
        if kind is Struct {
            assert(s@ =~= incorrect_def_msg("struct"@));
        } else {
            assert(s@ =~= incorrect_def_msg("variant"@));
        }
    }
    s
}

} // verus!
