use crate::category_chain::CategoryChain;
use crate::definition::Definition;
use crate::definition_type::DefinitionType;
use crate::error::{Error, ErrorKind};
use crate::json::{JsonObject, JsonValue};
use vstd::prelude::*;

verus! {

/// Which entity kind a validated attribute map denotes: the first of the
/// fixed priority order product, modifier, service whose reserved marker
/// attribute id the map contains; none of the three markers means the value
/// cannot be classified.
pub open spec fn spec_detect_type(value: Map<Seq<char>, JsonValue>) -> Option<DefinitionType> {
    if value.contains_key(DefinitionType::Product.spec_attribute_id()) {
        Some(DefinitionType::Product)
    } else if value.contains_key(DefinitionType::Modifier.spec_attribute_id()) {
        Some(DefinitionType::Modifier)
    } else if value.contains_key(DefinitionType::Service.spec_attribute_id()) {
        Some(DefinitionType::Service)
    } else {
        None
    }
}

/// Validated, definition scoped value: the schema version it was validated
/// against, the detected entity kind, the ancestor path of the detected
/// category, and the attribute map trimmed to recognized ids. Created only by
/// successful validation and immutable afterwards.
#[derive(Debug)]
pub struct DefinitionValue {
    definition: String,
    definition_type: DefinitionType,
    category_chain: CategoryChain,
    value: JsonObject,
}

impl DefinitionValue {
    pub closed spec fn spec_definition(&self) -> Seq<char> {
        self.definition@
    }

    pub closed spec fn spec_definition_type(&self) -> DefinitionType {
        self.definition_type
    }

    pub closed spec fn spec_category_chain(&self) -> Seq<Seq<char>> {
        self.category_chain@
    }

    pub closed spec fn spec_value(&self) -> Map<Seq<char>, JsonValue> {
        self.value@
    }

    /// The held attribute map object is well-formed, so lookups on it carry
    /// their full contracts.
    pub closed spec fn value_wf(&self) -> bool {
        self.value.wf()
    }

    /// Classify the attribute map and assemble the scoped value; a map that
    /// carries none of the reserved markers cannot be classified and is
    /// rejected.
    pub fn try_new(definition: &Definition, category_chain: CategoryChain, value: JsonObject) -> (r:
        Result<DefinitionValue, Error>)
        ensures
            match spec_detect_type(value@) {
                Some(dt) => r matches Ok(dv) && dv.spec_definition() == definition.spec_version()
                    && dv.spec_definition_type() == dt && dv.spec_category_chain()
                    == category_chain@ && dv.spec_value() == value@ && (value.wf()
                    ==> dv.value_wf()),
                None => r matches Err(e) && e.kind == ErrorKind::InvalidValue,
            },
    {
        let definition_type = if value.contains_key(DefinitionType::Product.attribute_id()) {
            DefinitionType::Product
        } else if value.contains_key(DefinitionType::Modifier.attribute_id()) {
            DefinitionType::Modifier
        } else if value.contains_key(DefinitionType::Service.attribute_id()) {
            DefinitionType::Service
        } else {
            return Err(Error::new(ErrorKind::InvalidValue, "definition type not found".to_owned()));
        };
        Ok(
            DefinitionValue {
                definition: definition.version(),
                category_chain,
                definition_type,
                value,
            },
        )
    }

    pub fn definition(&self) -> (r: &String)
        ensures
            r@ == self.spec_definition(),
    {
        &self.definition
    }

    pub fn value(&self) -> (r: &JsonObject)
        ensures
            r@ == self.spec_value(),
            r.wf() <==> self.value_wf(),
    {
        &self.value
    }

    pub fn category_chain(&self) -> (r: &CategoryChain)
        ensures
            r@ == self.spec_category_chain(),
    {
        &self.category_chain
    }

    pub fn definition_type(&self) -> (r: DefinitionType)
        ensures
            r == self.spec_definition_type(),
    {
        self.definition_type
    }
}

} // verus!
