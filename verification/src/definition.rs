use vstd::prelude::*;

verus! {

/// One typed field description within a category: the stable id is the key
/// looked up in submitted input, the data-type tag picks the value check, the
/// unit is informational and the optional flag is carried but not enforced by
/// attribute-presence logic.
#[derive(Debug)]
pub struct AttributeDeclaration {
    pub id: String,
    pub name: String,
    pub data_type: String,
    pub unit: Option<String>,
    pub optional: bool,
}

impl Clone for AttributeDeclaration {
    fn clone(&self) -> (r: Self)
        ensures
            r == *self,
    {
        AttributeDeclaration {
            id: self.id.clone(),
            name: self.name.clone(),
            data_type: self.data_type.clone(),
            unit: match &self.unit {
                Some(u) => Some(u.clone()),
                None => None,
            },
            optional: self.optional,
        }
    }
}

/// A named schema grouping node in a single-parent hierarchy. The parent is a
/// back-reference by identifier, not an owning pointer; it must name another
/// category of the same definition for resolution to succeed.
#[derive(Debug)]
pub struct Category {
    pub id: String,
    pub parent: Option<String>,
    pub parent_name: Option<String>,
    pub name: String,
    pub selectable_as_last: bool,
    pub attributes: Vec<AttributeDeclaration>,
}

/// The versioned schema document: a version string and an ordered collection
/// of categories. Supplied fully materialized by the caller and never mutated
/// here.
#[derive(Debug)]
pub struct Definition {
    version: String,
    categories: Vec<Category>,
}

/// The first category of the list whose identifier has the given characters.
pub open spec fn spec_find_category(cats: Seq<Category>, id: Seq<char>) -> Option<Category>
    decreases cats.len(),
{
    if cats.len() == 0 {
        None
    } else if cats[0].id@ == id {
        Some(cats[0])
    } else {
        spec_find_category(cats.drop_first(), id)
    }
}

/// The attribute list a category resolves to: its own declarations first,
/// then each ancestor's in increasing distance, with no duplicate-id
/// suppression. `fuel` bounds how many parent links the walk may follow;
/// starting it at the category count, an acyclic chain always completes,
/// while a cyclic parent chain runs the fuel out and resolution fails, as it
/// does for an identifier that no category carries.
pub open spec fn spec_resolve_attributes(
    cats: Seq<Category>,
    id: Seq<char>,
    fuel: nat,
) -> Result<Seq<AttributeDeclaration>, ()>
    decreases fuel,
{
    match spec_find_category(cats, id) {
        None => Err(()),
        Some(c) => match c.parent {
            None => Ok(c.attributes@),
            Some(p) => if fuel == 0 {
                Err(())
            } else {
                match spec_resolve_attributes(cats, p@, (fuel - 1) as nat) {
                    Ok(rest) => Ok(c.attributes@ + rest),
                    Err(()) => Err(()),
                }
            },
        },
    }
}

/// Resolution walks every ancestor level: a category with a parent resolves
/// to its own declarations followed by everything the parent resolves to, so
/// declarations accumulate along the whole chain, however deep it runs.
pub proof fn lemma_resolution_appends_ancestors(cats: Seq<Category>, id: Seq<char>, fuel: nat)
    requires
        fuel > 0,
        spec_find_category(cats, id) is Some,
        spec_find_category(cats, id)->Some_0.parent is Some,
        spec_resolve_attributes(
            cats,
            (spec_find_category(cats, id)->Some_0.parent->Some_0)@,
            (fuel - 1) as nat,
        ) is Ok,
    ensures
        spec_resolve_attributes(cats, id, fuel) == Ok::<Seq<AttributeDeclaration>, ()>(
            spec_find_category(cats, id)->Some_0.attributes@ + spec_resolve_attributes(
                cats,
                (spec_find_category(cats, id)->Some_0.parent->Some_0)@,
                (fuel - 1) as nat,
            )->Ok_0,
        ),
{
}

/// What a successful find hands back: a member of the list that carries the
/// identifier it was found under.
pub proof fn lemma_find_category_found(cats: Seq<Category>, id: Seq<char>)
    requires
        spec_find_category(cats, id) is Some,
    ensures
        spec_find_category(cats, id)->Some_0.id@ == id,
        exists|i: int|
            0 <= i < cats.len() && cats[i] == spec_find_category(cats, id)->Some_0,
    decreases cats.len(),
{
    if cats.len() > 0 && cats[0].id@ != id {
        lemma_find_category_found(cats.drop_first(), id);
        let i = choose|i: int|
            0 <= i < cats.drop_first().len() && cats.drop_first()[i] == spec_find_category(
                cats.drop_first(),
                id,
            )->Some_0;
        assert(cats[i + 1] == cats.drop_first()[i]);
    }
}

impl Definition {
    pub closed spec fn spec_version(&self) -> Seq<char> {
        self.version@
    }

    pub closed spec fn spec_categories(&self) -> Seq<Category> {
        self.categories@
    }

    pub fn new(version: String, categories: Vec<Category>) -> (d: Definition)
        ensures
            d.spec_version() == version@,
            d.spec_categories() == categories@,
    {
        Definition { version, categories }
    }

    pub fn version(&self) -> (r: String)
        ensures
            r@ == self.spec_version(),
    {
        self.version.clone()
    }

    pub fn categories(&self) -> (r: &Vec<Category>)
        ensures
            r@ == self.spec_categories(),
    {
        &self.categories
    }

    /// Scan the category list for the first one carrying the identifier.
    pub fn find_category(&self, id: &str) -> (r: Option<&Category>)
        ensures
            match r {
                Some(c) => spec_find_category(self.spec_categories(), id@) == Some(*c),
                None => spec_find_category(self.spec_categories(), id@) is None,
            },
    {
        let owned: String = id.to_owned();
        let n: usize = self.categories.len();
        let mut i: usize = 0;
        proof {
            assert(self.categories@.skip(0) =~= self.categories@);
        }
        while i < n
            invariant
                n == self.categories@.len(),
                i <= n,
                owned@ == id@,
                spec_find_category(self.categories@, id@) == spec_find_category(
                    self.categories@.skip(i as int),
                    id@,
                ),
            decreases n - i,
        {
            proof {
                assert(self.categories@.skip(i as int)[0] == self.categories@[i as int]);
                assert(self.categories@.skip(i as int).drop_first() =~= self.categories@.skip(
                    i as int + 1,
                ));
            }
            if self.categories[i].id == owned {
                return Some(&self.categories[i]);
            }
            i = i + 1;
        }
        proof {
            assert(self.categories@.skip(n as int) =~= Seq::<Category>::empty());
        }
        None
    }
}

} // verus!
