use crate::casing::{lower_of, versions_match};
use crate::category_chain::{build_from_definition_and_category, spec_category_chain};
use crate::decode::{decode_object, json_decoded};
use crate::definition::{
    spec_resolve_attributes, AttributeDeclaration, Category, Definition,
};
use crate::definition_type::DefinitionType;
use crate::definition_value::{spec_detect_type, DefinitionValue};
use crate::error::{Error, ErrorKind};
use crate::json::{JsonObject, JsonValue};
use crate::validations::{AttributeCheck, BuiltinCheck};
use vstd::prelude::*;
use vstd::string::StringExecFns;

verus! {

/// The check registered for a data-type tag: the first entry of the list
/// that carries the tag's characters.
pub open spec fn spec_lookup_check<C: AttributeCheck>(
    checks: Seq<(String, C)>,
    tag: Seq<char>,
) -> Option<C>
    decreases checks.len(),
{
    if checks.len() == 0 {
        None
    } else if checks[0].0@ == tag {
        Some(checks[0].1)
    } else {
        spec_lookup_check(checks.drop_first(), tag)
    }
}

/// The validation engine: a registry of value checks keyed by data-type tag,
/// orchestrating decoding, version matching, category resolution, per
/// attribute checking and assembly of the scoped result. The registry is the
/// only state; newer entries shadow older ones for the same tag, so
/// registering a tag again overrides what it meant before.
pub struct SchemaValidator<C: AttributeCheck> {
    validations: Vec<(String, C)>,
}

impl<C: AttributeCheck> SchemaValidator<C> {
    /// The registry's entry list, newest first.
    pub closed spec fn checks(&self) -> Seq<(String, C)> {
        self.validations@
    }

    /// Register `validation` for `data_type`, overriding any earlier entry
    /// for that tag and leaving every other tag's meaning unchanged.
    pub fn register_validation(&mut self, data_type: String, validation: C)
        ensures
            spec_lookup_check(final(self).checks(), data_type@) == Some(validation),
            forall|t: Seq<char>|
                t != data_type@ ==> spec_lookup_check(final(self).checks(), t)
                    == spec_lookup_check(old(self).checks(), t),
    {
        self.validations.insert(0, (data_type, validation));
        proof {
            assert(self.checks()[0].0@ == data_type@);
            assert(self.checks().drop_first() =~= old(self).checks());
        }
    }

    /// The first registry entry carrying the tag, if any.
    fn find_validation(&self, data_type: &String) -> (r: Option<&C>)
        ensures
            match r {
                Some(c) => spec_lookup_check(self.checks(), data_type@) == Some(*c),
                None => spec_lookup_check(self.checks(), data_type@) is None,
            },
    {
        let n: usize = self.validations.len();
        let mut i: usize = 0;
        proof {
            assert(self.checks().skip(0) =~= self.checks());
        }
        while i < n
            invariant
                n == self.checks().len(),
                i <= n,
                spec_lookup_check(self.checks(), data_type@) == spec_lookup_check(
                    self.checks().skip(i as int),
                    data_type@,
                ),
            decreases n - i,
        {
            proof {
                assert(self.checks().skip(i as int)[0] == self.checks()[i as int]);
                assert(self.checks().skip(i as int).drop_first() =~= self.checks().skip(
                    i as int + 1,
                ));
            }
            if self.validations[i].0 == *data_type {
                return Some(&self.validations[i].1);
            }
            i = i + 1;
        }
        proof {
            assert(self.checks().skip(n as int) =~= Seq::<(String, C)>::empty());
        }
        None
    }

    /// Validate raw text against the definition: decode it into a key-value
    /// object, then run the shared pipeline on the decoded object. Text that
    /// does not decode fails with the deserialization kind and the decoder's
    /// diagnostic in the message.
    pub fn validate(&self, value: String, definition: Definition) -> (r: Result<
        DefinitionValue,
        Error,
    >)
        ensures
            match json_decoded(value@) {
                Some(object) => validate_object_result_matches(
                    self.checks(),
                    object@,
                    definition.spec_version(),
                    definition.spec_categories(),
                    r,
                ),
                None => r matches Err(e) && e.kind == ErrorKind::DeserializationFailure,
            },
            r matches Ok(dv) ==> dv.value_wf(),
    {
        match decode_object(value.as_str()) {
            Ok(object) => self.validate_object(object, definition),
            Err(diagnostic) => Err(
                Error::new(
                    ErrorKind::DeserializationFailure,
                    "failed to deserialize value: ".to_owned().concat(diagnostic.as_str()),
                ),
            ),
        }
    }

    /// Validate an already-decoded key-value object against the definition:
    /// the decode-free remainder of the pipeline that `validate` shares.
    #[verifier::loop_isolation(false)]
    pub fn validate_object(&self, object: JsonObject, definition: Definition) -> (r: Result<
        DefinitionValue,
        Error,
    >)
        requires
            object.wf(),
        ensures
            validate_object_result_matches(
                self.checks(),
                object@,
                definition.spec_version(),
                definition.spec_categories(),
                r,
            ),
            r matches Ok(dv) ==> dv.value_wf(),
    {
        let ghost checks = self.checks();
        let ghost obj0 = object@;
        let ghost cats = definition.spec_categories();
        let mut working = object;

        let value_definition_version = match self.try_get_version(&working) {
            Ok(version) => version,
            Err(error) => return Err(error),
        };
        let definition_version = definition.version();
        if !versions_match(definition_version.as_str(), value_definition_version.as_str()) {
            return Err(
                Error::new(
                    ErrorKind::ValueDefinitionMismatch,
                    "value's version '".to_owned().concat(value_definition_version.as_str()).concat(
                        "' != definition's version '",
                    ).concat(definition_version.as_str()).concat("'"),
                ),
            );
        }
        let value_type = match self.try_get_type(&working) {
            Ok(value_type) => value_type,
            Err(error) => return Err(error),
        };
        let attributes = match self.try_get_attributes_from_definition(&definition, &value_type) {
            Ok(attributes) => attributes,
            Err(error) => return Err(error),
        };
        let ghost attrs_seq = attributes@;
        let mut scoped_value = JsonObject::new();
        let n: usize = attributes.len();
        let mut i: usize = 0;
        proof {
            assert(attrs_seq.skip(0) =~= attrs_seq);
        }
        while i < n
            invariant
                n == attributes@.len(),
                attrs_seq == attributes@,
                i <= n,
                working.wf(),
                scoped_value.wf(),
                checks == self.checks(),
                spec_apply_attributes(
                    checks,
                    attrs_seq,
                    obj0,
                    Map::<Seq<char>, JsonValue>::empty(),
                ) == spec_apply_attributes(
                    checks,
                    attrs_seq.skip(i as int),
                    working@,
                    scoped_value@,
                ),
            decreases n - i,
        {
            let attribute = &attributes[i];
            proof {
                assert(attrs_seq.skip(i as int)[0] == attrs_seq[i as int]);
                assert(attrs_seq.skip(i as int).drop_first() =~= attrs_seq.skip(i as int + 1));
            }
            let attribute_value = match working.remove(attribute.id.as_str()) {
                Some(attribute_value) => attribute_value,
                None => {
                    return Err(
                        Error::new(
                            ErrorKind::InvalidValue,
                            "failed to find attribute id '".to_owned().concat(
                                attribute.id.as_str(),
                            ).concat("' within value"),
                        ),
                    );
                },
            };
            match self.find_validation(&attribute.data_type) {
                Some(validation) => match validation.check(&attribute_value) {
                    Ok(_) => {
                        scoped_value.insert(attribute.id.clone(), attribute_value);
                    },
                    Err(error) => return Err(error),
                },
                None => {
                    return Err(
                        Error::new(
                            ErrorKind::ValidationNotRegistered,
                            "no validation found for data type '".to_owned().concat(
                                attribute.data_type.as_str(),
                            ).concat("'"),
                        ),
                    );
                },
            }
            i = i + 1;
        }
        proof {
            assert(attrs_seq.skip(n as int) =~= Seq::<AttributeDeclaration>::empty());
        }
        let category_chain = build_from_definition_and_category(&definition, &value_type);
        match DefinitionValue::try_new(&definition, category_chain, scoped_value) {
            Ok(definition_value) => Ok(definition_value),
            Err(error) => Err(error),
        }
    }

    /// Extract the mandatory `version` text field from the input object.
    fn try_get_version(&self, object: &JsonObject) -> (r: Result<String, Error>)
        requires
            object.wf(),
        ensures
            match spec_text_field(object@, "version"@, ErrorKind::VersionAttributeMissing) {
                Ok(s) => r matches Ok(v) && v@ == s,
                Err(k) => r matches Err(e) && e.kind == k,
            },
    {
        match object.get("version") {
            Some(version) => match version {
                JsonValue::Text(version_string) => Ok(version_string.clone()),
                _ => Err(
                    Error::new(
                        ErrorKind::InvalidValue,
                        "version attribute's value cannot be read as a string".to_owned(),
                    ),
                ),
            },
            None => Err(
                Error::new(
                    ErrorKind::VersionAttributeMissing,
                    "version attribute is missing".to_owned(),
                ),
            ),
        }
    }

    /// Extract the mandatory `type` text field, the target category
    /// identifier, from the input object.
    fn try_get_type(&self, object: &JsonObject) -> (r: Result<String, Error>)
        requires
            object.wf(),
        ensures
            match spec_text_field(object@, "type"@, ErrorKind::TypeAttributeMissing) {
                Ok(s) => r matches Ok(v) && v@ == s,
                Err(k) => r matches Err(e) && e.kind == k,
            },
    {
        match object.get("type") {
            Some(value_type) => match value_type {
                JsonValue::Text(type_string) => Ok(type_string.clone()),
                _ => Err(
                    Error::new(
                        ErrorKind::InvalidValue,
                        "type attribute's value cannot be read as a string".to_owned(),
                    ),
                ),
            },
            None => Err(
                Error::new(ErrorKind::TypeAttributeMissing, "type attribute is missing".to_owned()),
            ),
        }
    }

    /// Resolve the effective attribute list for the category the input
    /// declares: its own declarations, then each ancestor's.
    fn try_get_attributes_from_definition(
        &self,
        definition: &Definition,
        category_id: &String,
    ) -> (r: Result<Vec<AttributeDeclaration>, Error>)
        ensures
            match spec_resolve_attributes(
                definition.spec_categories(),
                category_id@,
                definition.spec_categories().len(),
            ) {
                Ok(attrs) => r matches Ok(v) && v@ == attrs,
                Err(()) => r matches Err(e) && e.kind == ErrorKind::InvalidValue,
            },
    {
        let mut attributes: Vec<AttributeDeclaration> = Vec::new();
        let fuel: usize = definition.categories().len();
        match self.add_attributes_from_category(
            definition,
            &mut attributes,
            category_id.as_str(),
            fuel,
        ) {
            Ok(()) => {
                proof {
                    assert(Seq::<AttributeDeclaration>::empty() + spec_resolve_attributes(
                        definition.spec_categories(),
                        category_id@,
                        fuel as nat,
                    )->Ok_0 =~= spec_resolve_attributes(
                        definition.spec_categories(),
                        category_id@,
                        fuel as nat,
                    )->Ok_0);
                }
                Ok(attributes)
            },
            Err(error) => Err(error),
        }
    }

    /// Append the category's own declarations and then, walking upward, each
    /// ancestor's. `fuel` bounds the parent links followed; it runs out only
    /// on a cyclic parent chain, which is rejected rather than looped.
    fn add_attributes_from_category(
        &self,
        definition: &Definition,
        attributes: &mut Vec<AttributeDeclaration>,
        category_id: &str,
        fuel: usize,
    ) -> (r: Result<(), Error>)
        ensures
            match spec_resolve_attributes(
                definition.spec_categories(),
                category_id@,
                fuel as nat,
            ) {
                Ok(attrs) => r is Ok && final(attributes)@ == old(attributes)@ + attrs,
                Err(()) => r matches Err(e) && e.kind == ErrorKind::InvalidValue,
            },
        decreases fuel,
    {
        let ghost cats = definition.spec_categories();
        let category = match definition.find_category(category_id) {
            Some(c) => c,
            None => {
                return Err(
                    Error::new(
                        ErrorKind::InvalidValue,
                        "cannot found category id '".to_owned().concat(category_id).concat("'"),
                    ),
                );
            },
        };
        let n: usize = category.attributes.len();
        let mut i: usize = 0;
        while i < n
            invariant
                n == category.attributes@.len(),
                i <= n,
                attributes@ == old(attributes)@ + category.attributes@.subrange(0, i as int),
            decreases n - i,
        {
            attributes.push(category.attributes[i].clone());
            proof {
                assert(attributes@ =~= old(attributes)@ + category.attributes@.subrange(
                    0,
                    i as int + 1,
                ));
            }
            i = i + 1;
        }
        proof {
            assert(category.attributes@.subrange(0, n as int) =~= category.attributes@);
        }
        match &category.parent {
            Some(parent_category_id) => {
                if fuel == 0 {
                    return Err(
                        Error::new(
                            ErrorKind::InvalidValue,
                            "category parent chain of '".to_owned().concat(category_id).concat(
                                "' does not terminate",
                            ),
                        ),
                    );
                }
                let ghost before = attributes@;
                let result = self.add_attributes_from_category(
                    definition,
                    attributes,
                    parent_category_id.as_str(),
                    fuel - 1,
                );
                proof {
                    if spec_resolve_attributes(cats, parent_category_id@, (fuel - 1) as nat)
                        is Ok {
                        let rest = spec_resolve_attributes(
                            cats,
                            parent_category_id@,
                            (fuel - 1) as nat,
                        )->Ok_0;
                        assert(attributes@ =~= old(attributes)@ + (category.attributes@ + rest));
                    }
                }
                result
            },
            None => Ok(()),
        }
    }
}

/// What a successful validation is pinned to: the detected entity kind, the
/// trimmed attribute map, and the ancestor path of the detected category.
pub struct SpecValidated {
    pub definition_type: DefinitionType,
    pub value: Map<Seq<char>, JsonValue>,
    pub category_chain: Seq<Seq<char>>,
}

/// The attribute walk of the pipeline: for each resolved declaration in
/// order, take the matching key out of the input (absence aborts the call),
/// dispatch the value to the check registered for the declaration's data-type
/// tag (an unregistered tag or a failing check aborts too), and copy accepted
/// entries into the output. Input keys that no declaration names are never
/// copied.
pub open spec fn spec_apply_attributes<C: AttributeCheck>(
    checks: Seq<(String, C)>,
    attrs: Seq<AttributeDeclaration>,
    input: Map<Seq<char>, JsonValue>,
    output: Map<Seq<char>, JsonValue>,
) -> Result<Map<Seq<char>, JsonValue>, ErrorKind>
    decreases attrs.len(),
{
    if attrs.len() == 0 {
        Ok(output)
    } else {
        let a = attrs[0];
        if !input.contains_key(a.id@) {
            Err(ErrorKind::InvalidValue)
        } else {
            match spec_lookup_check(checks, a.data_type@) {
                None => Err(ErrorKind::ValidationNotRegistered),
                Some(c) => if c.accepts(input[a.id@]) {
                    spec_apply_attributes(
                        checks,
                        attrs.drop_first(),
                        input.remove(a.id@),
                        output.insert(a.id@, input[a.id@]),
                    )
                } else {
                    Err(ErrorKind::InvalidValue)
                },
            }
        }
    }
}

/// The whole pipeline on an already-decoded object: extract and match the
/// version case-insensitively, extract the declared type, resolve its
/// attribute list, walk the attributes, classify the result and attach the
/// category chain. Each step short-circuits with its error kind.
pub open spec fn spec_validate_object<C: AttributeCheck>(
    checks: Seq<(String, C)>,
    object: Map<Seq<char>, JsonValue>,
    definition_version: Seq<char>,
    cats: Seq<Category>,
) -> Result<SpecValidated, ErrorKind> {
    match spec_text_field(object, "version"@, ErrorKind::VersionAttributeMissing) {
        Err(k) => Err(k),
        Ok(version) => if lower_of(definition_version) != lower_of(version) {
            Err(ErrorKind::ValueDefinitionMismatch)
        } else {
            match spec_text_field(object, "type"@, ErrorKind::TypeAttributeMissing) {
                Err(k) => Err(k),
                Ok(value_type) => match spec_resolve_attributes(cats, value_type, cats.len()) {
                    Err(()) => Err(ErrorKind::InvalidValue),
                    Ok(attrs) => match spec_apply_attributes(
                        checks,
                        attrs,
                        object,
                        Map::<Seq<char>, JsonValue>::empty(),
                    ) {
                        Err(k) => Err(k),
                        Ok(scoped) => match spec_detect_type(scoped) {
                            None => Err(ErrorKind::InvalidValue),
                            Some(definition_type) => Ok(
                                SpecValidated {
                                    definition_type,
                                    value: scoped,
                                    category_chain: spec_category_chain(
                                        cats,
                                        value_type,
                                        cats.len(),
                                    ),
                                },
                            ),
                        },
                    },
                },
            }
        },
    }
}

/// `r` is exactly what the pipeline pins down for these inputs: on success a
/// scoped value carrying the definition's version, the detected kind, the
/// trimmed map and the chain; on failure an error of the pinned kind.
pub open spec fn validate_object_result_matches<C: AttributeCheck>(
    checks: Seq<(String, C)>,
    object: Map<Seq<char>, JsonValue>,
    definition_version: Seq<char>,
    cats: Seq<Category>,
    r: Result<DefinitionValue, Error>,
) -> bool {
    match spec_validate_object(checks, object, definition_version, cats) {
        Ok(m) => r matches Ok(dv) && dv.spec_definition() == definition_version
            && dv.spec_definition_type() == m.definition_type && dv.spec_value() == m.value
            && dv.spec_category_chain() == m.category_chain,
        Err(k) => r matches Err(e) && e.kind == k,
    }
}

/// Extraction of a mandatory text field from the input: the field must be
/// present and must be a text scalar; each shortfall has its error kind.
pub open spec fn spec_text_field(
    object: Map<Seq<char>, JsonValue>,
    key: Seq<char>,
    missing: ErrorKind,
) -> Result<Seq<char>, ErrorKind> {
    if !object.contains_key(key) {
        Err(missing)
    } else {
        match object[key] {
            JsonValue::Text(s) => Ok(s@),
            _ => Err(ErrorKind::InvalidValue),
        }
    }
}

impl Default for SchemaValidator<BuiltinCheck> {
    /// A validator holding exactly the four built-in checks, each under its
    /// built-in data-type tag.
    fn default() -> (v: Self)
        ensures
            spec_lookup_check(v.checks(), "string"@) == Some(BuiltinCheck::Text),
            spec_lookup_check(v.checks(), "integer"@) == Some(BuiltinCheck::Integer),
            spec_lookup_check(v.checks(), "decimal"@) == Some(BuiltinCheck::Decimal),
            spec_lookup_check(v.checks(), "boolean"@) == Some(BuiltinCheck::Boolean),
            forall|t: Seq<char>|
                t != "string"@ && t != "integer"@ && t != "decimal"@ && t != "boolean"@
                    ==> spec_lookup_check(v.checks(), t) is None,
    {
        let mut validations: Vec<(String, BuiltinCheck)> = Vec::new();
        initialize_base_validations(&mut validations);
        SchemaValidator { validations }
    }
}

/// Fill an empty registry with the four built-in checks.
fn initialize_base_validations(validations: &mut Vec<(String, BuiltinCheck)>)
    requires
        old(validations)@.len() == 0,
    ensures
        spec_lookup_check(final(validations)@, "string"@) == Some(BuiltinCheck::Text),
        spec_lookup_check(final(validations)@, "integer"@) == Some(BuiltinCheck::Integer),
        spec_lookup_check(final(validations)@, "decimal"@) == Some(BuiltinCheck::Decimal),
        spec_lookup_check(final(validations)@, "boolean"@) == Some(BuiltinCheck::Boolean),
        forall|t: Seq<char>|
            t != "string"@ && t != "integer"@ && t != "decimal"@ && t != "boolean"@
                ==> spec_lookup_check(final(validations)@, t) is None,
{
    validations.push(("string".to_owned(), BuiltinCheck::Text));
    validations.push(("integer".to_owned(), BuiltinCheck::Integer));
    validations.push(("decimal".to_owned(), BuiltinCheck::Decimal));
    validations.push(("boolean".to_owned(), BuiltinCheck::Boolean));
    proof {
        reveal_strlit("string");
        reveal_strlit("integer");
        reveal_strlit("decimal");
        reveal_strlit("boolean");
        let s = validations@;
        assert(s.len() == 4);
        assert(s[0].0@ == "string"@);
        assert(s[1].0@ == "integer"@);
        assert(s[2].0@ == "decimal"@);
        assert(s[3].0@ == "boolean"@);
        assert("decimal"@ != "integer"@) by {
            assert("decimal"@[0] == 'd' && "integer"@[0] == 'i');
        }
        assert("boolean"@ != "integer"@) by {
            assert("boolean"@[0] == 'b' && "integer"@[0] == 'i');
        }
        assert("boolean"@ != "decimal"@) by {
            assert("boolean"@[0] == 'b' && "decimal"@[0] == 'd');
        }
        lemma_lookup_first_match(s, "string"@, 0);
        lemma_lookup_first_match(s, "integer"@, 1);
        lemma_lookup_first_match(s, "decimal"@, 2);
        lemma_lookup_first_match(s, "boolean"@, 3);
        assert forall|t: Seq<char>|
            t != "string"@ && t != "integer"@ && t != "decimal"@ && t != "boolean"@
                implies spec_lookup_check(s, t) is None by {
            lemma_lookup_none(s, t);
        }
    }
}

/// The set of ids the declarations carry.
pub open spec fn attr_id_set(attrs: Seq<AttributeDeclaration>) -> Set<Seq<char>> {
    Set::new(|x: Seq<char>| exists|i: int| 0 <= i < attrs.len() && attrs[i].id@ == x)
}

/// No id occurs in two declarations.
pub open spec fn distinct_ids(attrs: Seq<AttributeDeclaration>) -> bool {
    forall|i: int, j: int| 0 <= i < j < attrs.len() ==> attrs[i].id@ != attrs[j].id@
}

/// Every declared id is present in the input.
pub open spec fn all_ids_present(
    attrs: Seq<AttributeDeclaration>,
    input: Map<Seq<char>, JsonValue>,
) -> bool {
    forall|i: int| 0 <= i < attrs.len() ==> input.contains_key(attrs[i].id@)
}

/// Every declaration's data-type tag has a registered check.
pub open spec fn all_tags_registered<C: AttributeCheck>(
    checks: Seq<(String, C)>,
    attrs: Seq<AttributeDeclaration>,
) -> bool {
    forall|i: int|
        0 <= i < attrs.len() ==> spec_lookup_check(checks, attrs[i].data_type@) is Some
}

/// Every declared id the input carries holds a value that the check
/// registered for the declaration's tag accepts.
pub open spec fn all_present_values_accepted<C: AttributeCheck>(
    checks: Seq<(String, C)>,
    attrs: Seq<AttributeDeclaration>,
    input: Map<Seq<char>, JsonValue>,
) -> bool {
    forall|i: int|
        0 <= i < attrs.len() && input.contains_key(attrs[i].id@)
            ==> spec_lookup_check(checks, attrs[i].data_type@)->Some_0.accepts(
            input[attrs[i].id@],
        )
}

/// The two inputs agree at every declared id: each id is present in one
/// exactly when it is present in the other, with the same value.
pub open spec fn inputs_agree_on_ids(
    attrs: Seq<AttributeDeclaration>,
    a: Map<Seq<char>, JsonValue>,
    b: Map<Seq<char>, JsonValue>,
) -> bool {
    forall|i: int|
        0 <= i < attrs.len() ==> ((a.contains_key(attrs[i].id@) <==> b.contains_key(
            attrs[i].id@,
        )) && (a.contains_key(attrs[i].id@) ==> a[attrs[i].id@] == b[attrs[i].id@]))
}

/// For declarations with pairwise distinct ids, all present in the input
/// with values their registered checks accept, the attribute walk succeeds;
/// the map it builds carries the prior output's keys plus exactly the
/// declared ids, each declared id under its input value, and every other
/// prior key unchanged.
pub proof fn lemma_apply_attributes_succeeds<C: AttributeCheck>(
    checks: Seq<(String, C)>,
    attrs: Seq<AttributeDeclaration>,
    input: Map<Seq<char>, JsonValue>,
    output: Map<Seq<char>, JsonValue>,
)
    requires
        distinct_ids(attrs),
        all_ids_present(attrs, input),
        all_tags_registered(checks, attrs),
        all_present_values_accepted(checks, attrs, input),
    ensures
        spec_apply_attributes(checks, attrs, input, output) is Ok,
        spec_apply_attributes(checks, attrs, input, output)->Ok_0.dom() == output.dom()
            + attr_id_set(attrs),
        forall|i: int|
            0 <= i < attrs.len() ==> spec_apply_attributes(checks, attrs, input, output)->Ok_0[
                attrs[i].id@] == input[attrs[i].id@],
        forall|x: Seq<char>|
            output.contains_key(x) && !attr_id_set(attrs).contains(x)
                ==> spec_apply_attributes(checks, attrs, input, output)->Ok_0[x] == output[x],
    decreases attrs.len(),
{
    if attrs.len() == 0 {
        assert(output.dom() + attr_id_set(attrs) =~= output.dom());
    } else {
        let a0 = attrs[0];
        let id0 = a0.id@;
        let v0 = input[id0];
        let tail = attrs.drop_first();
        let input1 = input.remove(id0);
        let output1 = output.insert(id0, v0);
        assert(forall|k: int| 0 <= k < tail.len() ==> tail[k] == attrs[k + 1]);
        assert(all_ids_present(tail, input1)) by {
            assert forall|i: int| 0 <= i < tail.len() implies input1.contains_key(
                tail[i].id@,
            ) by {
                assert(tail[i] == attrs[i + 1]);
                assert(attrs[i + 1].id@ != id0);
            }
        }
        lemma_apply_attributes_succeeds(checks, tail, input1, output1);
        let res = spec_apply_attributes(checks, tail, input1, output1)->Ok_0;
        assert(spec_apply_attributes(checks, attrs, input, output) == Ok::<
            Map<Seq<char>, JsonValue>,
            ErrorKind,
        >(res));
        assert(res.dom() =~= output.dom() + attr_id_set(attrs)) by {
            assert(res.dom() == output1.dom() + attr_id_set(tail));
            assert forall|x: Seq<char>| attr_id_set(attrs).contains(x) implies output1
                .dom().contains(x) || attr_id_set(tail).contains(x) by {
                let i = choose|i: int| 0 <= i < attrs.len() && attrs[i].id@ == x;
                if i > 0 {
                    assert(tail[i - 1].id@ == x);
                }
            }
            assert forall|x: Seq<char>| attr_id_set(tail).contains(x) implies attr_id_set(
                attrs,
            ).contains(x) by {
                let i = choose|i: int| 0 <= i < tail.len() && tail[i].id@ == x;
                assert(attrs[i + 1].id@ == x);
            }
            assert(attr_id_set(attrs).contains(id0));
        }
        assert forall|i: int|
            0 <= i < attrs.len() implies spec_apply_attributes(checks, attrs, input, output)->Ok_0[
            attrs[i].id@] == input[attrs[i].id@] by {
            if i == 0 {
                assert(!attr_id_set(tail).contains(id0)) by {
                    if attr_id_set(tail).contains(id0) {
                        let k = choose|k: int| 0 <= k < tail.len() && tail[k].id@ == id0;
                        assert(attrs[k + 1].id@ == id0);
                    }
                }
                assert(res[id0] == output1[id0]);
            } else {
                assert(tail[i - 1] == attrs[i]);
                assert(res[tail[i - 1].id@] == input1[tail[i - 1].id@]);
                assert(input1[attrs[i].id@] == input[attrs[i].id@]);
            }
        }
        assert forall|x: Seq<char>|
            output.contains_key(x) && !attr_id_set(attrs).contains(x) implies spec_apply_attributes(
            checks,
            attrs,
            input,
            output,
        )->Ok_0[x] == output[x] by {
            assert(x != id0);
            assert(!attr_id_set(tail).contains(x)) by {
                if attr_id_set(tail).contains(x) {
                    let k = choose|k: int| 0 <= k < tail.len() && tail[k].id@ == x;
                    assert(attrs[k + 1].id@ == x);
                }
            }
            assert(res[x] == output1[x]);
        }
    }
}

/// If some declared id is absent from the input while every present value is
/// accepted and every tag is registered, the attribute walk fails with the
/// invalid-value kind: a single missing attribute aborts the whole call,
/// valid neighbours notwithstanding.
pub proof fn lemma_apply_attributes_missing_id_fails<C: AttributeCheck>(
    checks: Seq<(String, C)>,
    attrs: Seq<AttributeDeclaration>,
    input: Map<Seq<char>, JsonValue>,
    output: Map<Seq<char>, JsonValue>,
    k: int,
)
    requires
        0 <= k < attrs.len(),
        !input.contains_key(attrs[k].id@),
        all_tags_registered(checks, attrs),
        all_present_values_accepted(checks, attrs, input),
    ensures
        spec_apply_attributes(checks, attrs, input, output) == Err::<
            Map<Seq<char>, JsonValue>,
            ErrorKind,
        >(ErrorKind::InvalidValue),
    decreases attrs.len(),
{
    let a0 = attrs[0];
    let id0 = a0.id@;
    if !input.contains_key(id0) {
    } else {
        let tail = attrs.drop_first();
        let input1 = input.remove(id0);
        assert(forall|i: int| 0 <= i < tail.len() ==> tail[i] == attrs[i + 1]);
        assert(k > 0);
        assert(tail[k - 1] == attrs[k]);
        assert(!input1.contains_key(tail[k - 1].id@));
        lemma_apply_attributes_missing_id_fails(
            checks,
            tail,
            input1,
            output.insert(id0, input[id0]),
            k - 1,
        );
    }
}

/// Two inputs that agree at every declared id run the attribute walk to the
/// same outcome: keys that no declaration names never influence it.
pub proof fn lemma_apply_attributes_agree<C: AttributeCheck>(
    checks: Seq<(String, C)>,
    attrs: Seq<AttributeDeclaration>,
    input_a: Map<Seq<char>, JsonValue>,
    input_b: Map<Seq<char>, JsonValue>,
    output: Map<Seq<char>, JsonValue>,
)
    requires
        inputs_agree_on_ids(attrs, input_a, input_b),
    ensures
        spec_apply_attributes(checks, attrs, input_a, output) == spec_apply_attributes(
            checks,
            attrs,
            input_b,
            output,
        ),
    decreases attrs.len(),
{
    if attrs.len() > 0 {
        let a0 = attrs[0];
        let id0 = a0.id@;
        let tail = attrs.drop_first();
        assert(forall|i: int| 0 <= i < tail.len() ==> tail[i] == attrs[i + 1]);
        if input_a.contains_key(id0) {
            assert(inputs_agree_on_ids(tail, input_a.remove(id0), input_b.remove(id0))) by {
                assert forall|i: int| 0 <= i < tail.len() implies ((input_a.remove(
                    id0,
                ).contains_key(tail[i].id@) <==> input_b.remove(id0).contains_key(
                    tail[i].id@,
                )) && (input_a.remove(id0).contains_key(tail[i].id@) ==> input_a.remove(id0)[
                    tail[i].id@] == input_b.remove(id0)[tail[i].id@])) by {
                    assert(tail[i] == attrs[i + 1]);
                }
            }
            lemma_apply_attributes_agree(
                checks,
                tail,
                input_a.remove(id0),
                input_b.remove(id0),
                output.insert(id0, input_a[id0]),
            );
        }
    }
}

/// For a decoded input whose version matches the definition's after
/// lowercasing, whose declared category resolves to declarations with
/// pairwise distinct ids, whose declared ids are all present with values
/// their registered checks accept, and where a reserved marker id is among
/// the declared ids, validation succeeds and the output map's keys are
/// exactly the resolved attribute ids — no more, no less.
pub proof fn lemma_validate_object_succeeds<C: AttributeCheck>(
    checks: Seq<(String, C)>,
    object: Map<Seq<char>, JsonValue>,
    definition_version: Seq<char>,
    cats: Seq<Category>,
)
    requires
        spec_text_field(object, "version"@, ErrorKind::VersionAttributeMissing) is Ok,
        lower_of(definition_version) == lower_of(
            spec_text_field(object, "version"@, ErrorKind::VersionAttributeMissing)->Ok_0,
        ),
        spec_text_field(object, "type"@, ErrorKind::TypeAttributeMissing) is Ok,
        spec_resolve_attributes(
            cats,
            spec_text_field(object, "type"@, ErrorKind::TypeAttributeMissing)->Ok_0,
            cats.len(),
        ) is Ok,
        ({
            let attrs = spec_resolve_attributes(
                cats,
                spec_text_field(object, "type"@, ErrorKind::TypeAttributeMissing)->Ok_0,
                cats.len(),
            )->Ok_0;
            distinct_ids(attrs) && all_ids_present(attrs, object) && all_tags_registered(
                checks,
                attrs,
            ) && all_present_values_accepted(checks, attrs, object) && (attr_id_set(
                attrs,
            ).contains(DefinitionType::Product.spec_attribute_id()) || attr_id_set(
                attrs,
            ).contains(DefinitionType::Modifier.spec_attribute_id()) || attr_id_set(
                attrs,
            ).contains(DefinitionType::Service.spec_attribute_id()))
        }),
    ensures
        spec_validate_object(checks, object, definition_version, cats) is Ok,
        spec_validate_object(checks, object, definition_version, cats)->Ok_0.value.dom()
            == attr_id_set(
            spec_resolve_attributes(
                cats,
                spec_text_field(object, "type"@, ErrorKind::TypeAttributeMissing)->Ok_0,
                cats.len(),
            )->Ok_0,
        ),
{
    let attrs = spec_resolve_attributes(
        cats,
        spec_text_field(object, "type"@, ErrorKind::TypeAttributeMissing)->Ok_0,
        cats.len(),
    )->Ok_0;
    let empty = Map::<Seq<char>, JsonValue>::empty();
    lemma_apply_attributes_succeeds(checks, attrs, object, empty);
    let scoped = spec_apply_attributes(checks, attrs, object, empty)->Ok_0;
    assert(scoped.dom() =~= attr_id_set(attrs));
}

/// Missing a single declared attribute makes the whole validation fail with
/// the invalid-value kind, even when every attribute the input does carry is
/// valid and every declared tag is registered: there is no partial success.
pub proof fn lemma_validate_object_missing_attribute_fails<C: AttributeCheck>(
    checks: Seq<(String, C)>,
    object: Map<Seq<char>, JsonValue>,
    definition_version: Seq<char>,
    cats: Seq<Category>,
    k: int,
)
    requires
        spec_text_field(object, "version"@, ErrorKind::VersionAttributeMissing) is Ok,
        lower_of(definition_version) == lower_of(
            spec_text_field(object, "version"@, ErrorKind::VersionAttributeMissing)->Ok_0,
        ),
        spec_text_field(object, "type"@, ErrorKind::TypeAttributeMissing) is Ok,
        spec_resolve_attributes(
            cats,
            spec_text_field(object, "type"@, ErrorKind::TypeAttributeMissing)->Ok_0,
            cats.len(),
        ) is Ok,
        ({
            let attrs = spec_resolve_attributes(
                cats,
                spec_text_field(object, "type"@, ErrorKind::TypeAttributeMissing)->Ok_0,
                cats.len(),
            )->Ok_0;
            all_tags_registered(checks, attrs) && all_present_values_accepted(
                checks,
                attrs,
                object,
            ) && 0 <= k < attrs.len() && !object.contains_key(attrs[k].id@)
        }),
    ensures
        spec_validate_object(checks, object, definition_version, cats) == Err::<
            SpecValidated,
            ErrorKind,
        >(ErrorKind::InvalidValue),
{
    let attrs = spec_resolve_attributes(
        cats,
        spec_text_field(object, "type"@, ErrorKind::TypeAttributeMissing)->Ok_0,
        cats.len(),
    )->Ok_0;
    lemma_apply_attributes_missing_id_fails(
        checks,
        attrs,
        object,
        Map::<Seq<char>, JsonValue>::empty(),
        k,
    );
}

/// An extra input key that neither the mandatory fields nor the resolved
/// declarations name never changes the outcome: validating the same logical
/// input with and without the extraneous entry yields identical results, so
/// extras are always dropped from the output map.
pub proof fn lemma_extra_key_ignored<C: AttributeCheck>(
    checks: Seq<(String, C)>,
    object: Map<Seq<char>, JsonValue>,
    extra_key: Seq<char>,
    extra_value: JsonValue,
    definition_version: Seq<char>,
    cats: Seq<Category>,
)
    requires
        extra_key != "version"@,
        extra_key != "type"@,
        !object.contains_key(extra_key),
        ({
            let t = spec_text_field(object, "type"@, ErrorKind::TypeAttributeMissing);
            t is Ok ==> (spec_resolve_attributes(cats, t->Ok_0, cats.len()) matches Ok(attrs)
                ==> forall|i: int| 0 <= i < attrs.len() ==> attrs[i].id@ != extra_key)
        }),
    ensures
        spec_validate_object(
            checks,
            object.insert(extra_key, extra_value),
            definition_version,
            cats,
        ) == spec_validate_object(checks, object, definition_version, cats),
{
    let with_extra = object.insert(extra_key, extra_value);
    assert(spec_text_field(with_extra, "version"@, ErrorKind::VersionAttributeMissing)
        == spec_text_field(object, "version"@, ErrorKind::VersionAttributeMissing));
    assert(spec_text_field(with_extra, "type"@, ErrorKind::TypeAttributeMissing)
        == spec_text_field(object, "type"@, ErrorKind::TypeAttributeMissing));
    let t = spec_text_field(object, "type"@, ErrorKind::TypeAttributeMissing);
    if t is Ok {
        match spec_resolve_attributes(cats, t->Ok_0, cats.len()) {
            Ok(attrs) => {
                assert(inputs_agree_on_ids(attrs, with_extra, object));
                lemma_apply_attributes_agree(
                    checks,
                    attrs,
                    with_extra,
                    object,
                    Map::<Seq<char>, JsonValue>::empty(),
                );
            },
            Err(()) => {},
        }
    }
}

/// Version comparison is case-insensitive and nothing else about the
/// version text matters: two inputs identical but for version fields that
/// lowercase identically validate identically. With `versions_match`'s
/// contract this makes two ASCII versions that are the same text up to case
/// interchangeable; a version that does not match after lowercasing fails
/// with the value-definition-mismatch kind, as `spec_validate_object`
/// states.
pub proof fn lemma_version_case_insensitive<C: AttributeCheck>(
    checks: Seq<(String, C)>,
    object: Map<Seq<char>, JsonValue>,
    version_a: String,
    version_b: String,
    definition_version: Seq<char>,
    cats: Seq<Category>,
)
    requires
        lower_of(version_a@) == lower_of(version_b@),
        ({
            let t = spec_text_field(object, "type"@, ErrorKind::TypeAttributeMissing);
            t is Ok ==> (spec_resolve_attributes(cats, t->Ok_0, cats.len()) matches Ok(attrs)
                ==> forall|i: int| 0 <= i < attrs.len() ==> attrs[i].id@ != "version"@)
        }),
    ensures
        spec_validate_object(
            checks,
            object.insert("version"@, JsonValue::Text(version_a)),
            definition_version,
            cats,
        ) == spec_validate_object(
            checks,
            object.insert("version"@, JsonValue::Text(version_b)),
            definition_version,
            cats,
        ),
{
    let oa = object.insert("version"@, JsonValue::Text(version_a));
    let ob = object.insert("version"@, JsonValue::Text(version_b));
    assert("version"@ != "type"@) by {
        reveal_strlit("version");
        reveal_strlit("type");
        assert("version"@.len() == 7);
        assert("type"@.len() == 4);
    }
    assert(spec_text_field(oa, "version"@, ErrorKind::VersionAttributeMissing) == Ok::<
        Seq<char>,
        ErrorKind,
    >(version_a@));
    assert(spec_text_field(ob, "version"@, ErrorKind::VersionAttributeMissing) == Ok::<
        Seq<char>,
        ErrorKind,
    >(version_b@));
    assert(spec_text_field(oa, "type"@, ErrorKind::TypeAttributeMissing) == spec_text_field(
        object,
        "type"@,
        ErrorKind::TypeAttributeMissing,
    ));
    assert(spec_text_field(ob, "type"@, ErrorKind::TypeAttributeMissing) == spec_text_field(
        object,
        "type"@,
        ErrorKind::TypeAttributeMissing,
    ));
    if lower_of(definition_version) == lower_of(version_a@) {
        let t = spec_text_field(object, "type"@, ErrorKind::TypeAttributeMissing);
        if t is Ok {
            match spec_resolve_attributes(cats, t->Ok_0, cats.len()) {
                Ok(attrs) => {
                    assert(inputs_agree_on_ids(attrs, oa, ob));
                    lemma_apply_attributes_agree(
                        checks,
                        attrs,
                        oa,
                        ob,
                        Map::<Seq<char>, JsonValue>::empty(),
                    );
                },
                Err(()) => {},
            }
        }
    }
}

/// Skipping entries that do not carry the tag leaves the lookup unchanged.
proof fn lemma_lookup_skip<C: AttributeCheck>(checks: Seq<(String, C)>, tag: Seq<char>, i: int)
    requires
        0 <= i <= checks.len(),
        forall|j: int| 0 <= j < i ==> checks[j].0@ != tag,
    ensures
        spec_lookup_check(checks, tag) == spec_lookup_check(checks.skip(i), tag),
    decreases i,
{
    if i > 0 {
        lemma_lookup_skip(checks, tag, i - 1);
        assert(checks.skip(i - 1)[0] == checks[i - 1]);
        assert(checks.skip(i - 1).drop_first() =~= checks.skip(i));
    } else {
        assert(checks.skip(0) =~= checks);
    }
}

/// The lookup finds the first entry that carries the tag.
proof fn lemma_lookup_first_match<C: AttributeCheck>(
    checks: Seq<(String, C)>,
    tag: Seq<char>,
    i: int,
)
    requires
        0 <= i < checks.len(),
        checks[i].0@ == tag,
        forall|j: int| 0 <= j < i ==> checks[j].0@ != tag,
    ensures
        spec_lookup_check(checks, tag) == Some(checks[i].1),
{
    lemma_lookup_skip(checks, tag, i);
    assert(checks.skip(i)[0] == checks[i]);
}

/// A tag that no entry carries looks up to nothing.
proof fn lemma_lookup_none<C: AttributeCheck>(checks: Seq<(String, C)>, tag: Seq<char>)
    requires
        forall|j: int| 0 <= j < checks.len() ==> checks[j].0@ != tag,
    ensures
        spec_lookup_check(checks, tag) is None,
{
    lemma_lookup_skip(checks, tag, checks.len() as int);
    assert(checks.skip(checks.len() as int) =~= Seq::<(String, C)>::empty());
}

} // verus!
