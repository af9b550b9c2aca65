//! Identifier spelling: case conversion and keyword escaping.

use convert_case::Case;
use convert_case::Casing;
use vstd::prelude::*;
use vstd::string::*;
use vstd::utf8::is_ascii_chars;

verus! {

/// The spellings the emitter converts names into.
#[derive(Debug, Clone, Copy, PartialEq, Eq, Structural)]
pub enum CaseStyle {
    Snake,
    UpperCamel,
    UpperSnake,
}

/// What `convert_case`'s `to_case` makes of `name` in the given style.
pub uninterp spec fn case_converted(name: Seq<char>, style: CaseStyle) -> Seq<char>;

/// Whether `syn` reads the whole of `name` as one identifier that is no keyword.
pub uninterp spec fn parses_as_ident(name: Seq<char>) -> bool;

/// Calls `convert_case::Casing::to_case` on `name`. The result depends on
/// the name and the style alone. Names outside ASCII are left out: the
/// crate cuts words at character counts that it uses as byte offsets.
#[verifier::external_body]
pub(crate) fn convert_case(name: &str, style: CaseStyle) -> (r: String)
    requires
        is_ascii_chars(name@),
    ensures
        r@ == case_converted(name@, style),
{
    match style {
        CaseStyle::Snake => name.to_case(Case::Snake),
        CaseStyle::UpperCamel => name.to_case(Case::UpperCamel),
        CaseStyle::UpperSnake => name.to_case(Case::UpperSnake),
    }
}

/// Calls `syn::parse_str::<syn::Ident>` on `name` and reports whether it
/// succeeded. The answer depends on the name alone.
#[verifier::external_body]
pub(crate) fn is_ident(name: &str) -> (b: bool)
    ensures
        b == parses_as_ident(name@),
{
    syn::parse_str::<syn::Ident>(name).is_ok()
}

/// The escaped spelling of `name`, given whether it is usable as it stands.
pub open spec fn escaped(name: Seq<char>, usable: bool) -> Seq<char> {
    if usable {
        name
    } else {
        "r#"@ + name
    }
}

/// The spelling under which `name` can stand as a member's identifier.
pub open spec fn sanitized(name: Seq<char>) -> Seq<char> {
    escaped(name, parses_as_ident(name))
}

/// Spells `name` as it stands when `usable`, with the raw prefix otherwise.
pub fn escape_field_name(name: &str, usable: bool) -> (r: String)
    ensures
        r@ == escaped(name@, usable),
{
    if usable {
        String::from_str(name)
    } else {
        String::from_str("r#").concat(name)
    }
}

/// Spells `name` so that it collides with no keyword.
pub fn sanitize_field_name(name: &str) -> (r: String)
    ensures
        r@ == sanitized(name@),
{
    let usable = is_ident(name);
    escape_field_name(name, usable)
}

/// An escaped name differs from the name exactly when the name was unusable,
/// and the name itself is kept inside it.
pub proof fn lemma_escaped_never_collides(name: Seq<char>, usable: bool)
    ensures
        usable ==> escaped(name, usable) == name,
        !usable ==> escaped(name, usable) != name,
        !usable ==> escaped(name, usable).skip(2) == name,
{
    reveal_strlit("r#");
}

} // verus!
