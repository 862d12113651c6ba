//! The text buffer the generated assembly is accumulated in: the `Builder`
//! of the `string_builder` crate, held behind trusted wrappers.
//!
//! The buffer's contents are named by [`builder_text`]; [`builder_wf`] names
//! the fact that the buffer holds exactly the UTF-8 encoding of that text,
//! which holds of every buffer these wrappers build, since only string
//! slices are ever appended.

use vstd::prelude::*;

verus! {

#[verifier::external_type_specification]
#[verifier::external_body]
pub struct ExBuilder(string_builder::Builder);

/// The characters appended to the buffer so far, in order.
pub uninterp spec fn builder_text(b: string_builder::Builder) -> Seq<char>;

/// The buffer holds exactly the UTF-8 encoding of [`builder_text`].
pub uninterp spec fn builder_wf(b: string_builder::Builder) -> bool;

/// Relies on `string_builder::Builder::default`: a fresh, empty buffer.
#[verifier::external_body]
pub fn builder_new() -> (b: string_builder::Builder)
    ensures
        builder_text(b) == Seq::<char>::empty(),
        builder_wf(b),
{
    string_builder::Builder::default()
}

/// Relies on `string_builder::Builder::append` for `&str`: it appends
/// exactly the slice's bytes, the UTF-8 encoding of its characters, to the
/// buffer.
#[verifier::external_body]
pub fn builder_append(b: &mut string_builder::Builder, s: &str)
    requires
        builder_wf(*old(b)),
    ensures
        builder_wf(*final(b)),
        builder_text(*final(b)) == builder_text(*old(b)) + s@,
{
    b.append(s)
}

/// Relies on `string_builder::Builder::string`: `String::from_utf8` of the
/// buffer, which returns the buffered text whenever the buffer is valid
/// UTF-8.
#[verifier::external_body]
pub fn builder_string(b: string_builder::Builder) -> (r: String)
    requires
        builder_wf(b),
    ensures
        r@ == builder_text(b),
{
    match b.string() {
        Ok(s) => s,
        Err(_) => String::new(),
    }
}

} // verus!
