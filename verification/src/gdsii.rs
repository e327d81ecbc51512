//! Data model of the GDSII format: attribute-coded, single-valued properties.

use vstd::prelude::*;

verus! {

/// A GDSII property: one string value attached to a small integer attribute code.
///
/// The type does not ask that a code occurs once in a list of properties.
#[derive(Debug, Clone, PartialEq, Eq)]
pub struct GDSProperty {
    pub attribute: i16,
    pub value: String,
}

impl DeepView for GDSProperty {
    type V = (i16, Seq<char>);

    /// The property as a pair of its code and the characters of its value.
    open spec fn deep_view(&self) -> (i16, Seq<char>) {
        (self.attribute, self.value@)
    }
}

} // verus!
