pub mod casing;
pub mod category_chain;
pub mod decode;
pub mod definition;
pub mod definition_type;
pub mod definition_value;
pub mod error;
pub mod json;
pub mod schema_validator;
pub mod validations;
