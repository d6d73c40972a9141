use vstd::prelude::*;

verus! {

/// The small closed classification of a validated value. Which kind a value
/// is gets detected from which reserved marker attribute id is present in its
/// validated attribute set.
#[derive(Debug, Copy, Clone, PartialEq, Eq, Structural)]
pub enum DefinitionType {
    Product,
    Modifier,
    Service,
}

impl DefinitionType {
    /// The reserved marker attribute id whose presence identifies this kind.
    pub open spec fn spec_attribute_id(self) -> Seq<char> {
        match self {
            DefinitionType::Product => "4ed908eb-50b6-4faa-9baa-a7a897cec30f"@,
            DefinitionType::Modifier => "d22202c1-44cb-471f-9c69-07f7eea1b9bf"@,
            DefinitionType::Service => "70b0d023-20e6-45cb-9654-e5fd42749642"@,
        }
    }

    pub fn attribute_id(&self) -> (r: &str)
        ensures
            r@ == self.spec_attribute_id(),
    {
        match self {
            DefinitionType::Product => "4ed908eb-50b6-4faa-9baa-a7a897cec30f",
            DefinitionType::Modifier => "d22202c1-44cb-471f-9c69-07f7eea1b9bf",
            DefinitionType::Service => "70b0d023-20e6-45cb-9654-e5fd42749642",
        }
    }
}

} // verus!
