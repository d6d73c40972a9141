use crate::definition::{spec_find_category, Category, Definition};
use crate::definition::lemma_find_category_found;
use vstd::prelude::*;

verus! {

/// The root-to-target ordered path of category ids that ends at the category
/// carrying `id`. An identifier that no category carries contributes an empty
/// branch rather than an error, so an unmatched segment silently truncates
/// the path. `fuel` bounds how many parent links the walk may follow;
/// starting it at the category count, an acyclic chain always completes,
/// while a cyclic parent chain stops contributing once the fuel runs out.
pub open spec fn spec_category_chain(cats: Seq<Category>, id: Seq<char>, fuel: nat) -> Seq<
    Seq<char>,
>
    decreases fuel,
{
    match spec_find_category(cats, id) {
        None => Seq::empty(),
        Some(c) => match c.parent {
            None => seq![id],
            Some(p) => if fuel == 0 {
                Seq::empty()
            } else {
                spec_category_chain(cats, p@, (fuel - 1) as nat).push(id)
            },
        },
    }
}

/// An ordered sequence of category identifiers from a root ancestor down to a
/// target category; a read-only, membership-testable path.
#[derive(Debug)]
pub struct CategoryChain {
    category_chain: Vec<String>,
}

impl View for CategoryChain {
    type V = Seq<Seq<char>>;

    open spec fn view(&self) -> Seq<Seq<char>> {
        self.ids().deep_view()
    }
}

impl CategoryChain {
    /// The identifier list itself.
    pub closed spec fn ids(&self) -> Vec<String> {
        self.category_chain
    }

    pub fn new(category_chain: Vec<String>) -> (c: CategoryChain)
        ensures
            c@ == category_chain.deep_view(),
    {
        CategoryChain { category_chain }
    }

    /// Whether the identifier occurs anywhere in the path.
    pub fn contains(&self, category: &String) -> (r: bool)
        ensures
            r == self@.contains(category@),
    {
        let n: usize = self.category_chain.len();
        let mut i: usize = 0;
        while i < n
            invariant
                n == self.category_chain@.len(),
                i <= n,
                forall|j: int| 0 <= j < i ==> self.category_chain@[j]@ != category@,
            decreases n - i,
        {
            if self.category_chain[i] == *category {
                proof {
                    assert(self@[i as int] == category@);
                }
                return true;
            }
            i = i + 1;
        }
        proof {
            assert forall|j: int| 0 <= j < self@.len() implies self@[j] != category@ by {
                assert(self@[j] == self.category_chain@[j]@);
            }
        }
        false
    }
}

/// Build the ordered ancestor path, root first, ending at the category
/// carrying `category`.
pub fn build_from_definition_and_category(definition: &Definition, category: &String) -> (r:
    CategoryChain)
    ensures
        r@ == spec_category_chain(
            definition.spec_categories(),
            category@,
            definition.spec_categories().len(),
        ),
{
    let mut category_chain: Vec<String> = Vec::new();
    let fuel: usize = definition.categories().len();
    add_category_to_chain(definition, category.as_str(), &mut category_chain, fuel);
    proof {
        assert(Seq::<Seq<char>>::empty() + spec_category_chain(
            definition.spec_categories(),
            category@,
            fuel as nat,
        ) =~~= spec_category_chain(definition.spec_categories(), category@, fuel as nat));
    }
    CategoryChain::new(category_chain)
}

/// Append the path for `category` onto the accumulator, parent contributions
/// first.
fn add_category_to_chain(
    definition: &Definition,
    category: &str,
    category_chain: &mut Vec<String>,
    fuel: usize,
)
    ensures
        final(category_chain).deep_view() == old(category_chain).deep_view()
            + spec_category_chain(definition.spec_categories(), category@, fuel as nat),
    decreases fuel,
{
    let ghost cats = definition.spec_categories();
    match definition.find_category(category) {
        Some(definition_category) => {
            proof {
                lemma_find_category_found(cats, category@);
            }
            match &definition_category.parent {
                Some(parent) => {
                    if fuel > 0 {
                        add_category_to_chain(
                            definition,
                            parent.as_str(),
                            category_chain,
                            fuel - 1,
                        );
                        let ghost mid_v = category_chain@;
                        let ghost mid_dv = category_chain.deep_view();
                        category_chain.push(definition_category.id.clone());
                        proof {
                            let dv_old = old(category_chain).deep_view();
                            let chain_p = spec_category_chain(cats, parent@, (fuel - 1) as nat);
                            let target = dv_old + spec_category_chain(
                                cats,
                                category@,
                                fuel as nat,
                            );
                            assert(mid_dv == dv_old + chain_p);
                            assert(spec_category_chain(cats, category@, fuel as nat)
                                == chain_p.push(category@));
                            assert(definition_category.id@ == category@);
                            assert(category_chain@ =~= mid_v.push(definition_category.id));
                            assert forall|j: int|
                                0 <= j < target.len() implies category_chain.deep_view()[j]
                                == target[j] by {
                                assert(category_chain.deep_view()[j] == category_chain@[
                                    j].deep_view());
                                if j < mid_v.len() {
                                    assert(category_chain@[j] == mid_v[j]);
                                    assert(mid_dv[j] == mid_v[j].deep_view());
                                }
                            }
                            assert(category_chain.deep_view() =~= target);
                        }
                    } else {
                        proof {
                            assert(category_chain.deep_view() =~~= old(
                                category_chain,
                            ).deep_view() + spec_category_chain(cats, category@, fuel as nat));
                        }
                    }
                },
                None => {
                    category_chain.push(definition_category.id.clone());
                    proof {
                        assert(category_chain.deep_view() =~~= old(
                            category_chain,
                        ).deep_view() + spec_category_chain(cats, category@, fuel as nat));
                    }
                },
            }
        },
        None => {
            proof {
                assert(category_chain.deep_view() =~~= old(category_chain).deep_view()
                    + spec_category_chain(cats, category@, fuel as nat));
            }
        },
    }
}

} // verus!
