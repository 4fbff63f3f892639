//! The resources page: uploaded documents by name, and the categories that
//! hold any of them in the configured order.

use crate::ordering::{lemma_name_rank, name_rank, name_rank_exec, str_less};
use crate::sql::Resource;
use crate::text::{chars_eq, chars_of, lemma_seqs_of_push, seqs_of};
use vstd::prelude::*;

verus! {

/// The names of the resources.
pub open spec fn resource_names(resources: Seq<Resource>) -> Seq<Seq<char>> {
    resources.map_values(|r: Resource| r.name@)
}

/// Some resource is in category `category`.
pub open spec fn category_used(resources: Seq<Resource>, category: Seq<char>) -> bool {
    exists|j: int| 0 <= j < resources.len() && #[trigger] resources[j].category@ == category
}

/// The configured categories that hold a resource, in configured order.
pub open spec fn shown_categories(resources: Seq<Resource>, ordering: Seq<String>) -> Seq<String> {
    ordering.filter(|c: String| category_used(resources, c@))
}

/// The resources page's content.
#[derive(Debug)]
pub struct ResourcesPage {
    pub resources: Vec<Resource>,
    pub categories: Vec<String>,
}

/// Whether some resource is in the category.
fn category_used_exec(resources: &Vec<Resource>, category: &String) -> (r: bool)
    ensures
        r == category_used(resources@, category@),
{
    let c = chars_of(category.as_str());
    let mut i: usize = 0;
    while i < resources.len()
        invariant
            i <= resources.len(),
            c@ == category@,
            forall|j: int| 0 <= j < i ==> #[trigger] resources@[j].category@ != category@,
        decreases resources.len() - i,
    {
        let rc = chars_of(resources[i].category.as_str());
        if chars_eq(&rc, &c) {
            return true;
        }
        i = i + 1;
    }
    false
}

/// View the resources: resource `i` of the input is at place
/// `name_rank(resource_names(resources), i)`, so they go by name, then by
/// input order; the categories are the configured ones that hold any.
pub fn resources_page(resources: &Vec<Resource>, ordering: &Vec<String>) -> (page: ResourcesPage)
    ensures
        page.resources@.len() == resources@.len(),
        forall|i: int|
            0 <= i < resources@.len() ==> page.resources@[name_rank(resource_names(resources@), i) as int]
                == #[trigger] resources@[i],
        page.categories@ == shown_categories(resources@, ordering@),
{
    let n = resources.len();
    let mut names: Vec<Vec<char>> = Vec::new();
    let mut k: usize = 0;
    while k < n
        invariant
            k <= n,
            n == resources.len(),
            seqs_of(names@) == resource_names(resources@).take(k as int),
        decreases n - k,
    {
        let v = chars_of(resources[k].name.as_str());
        proof {
            lemma_seqs_of_push(names@, v);
        }
        names.push(v);
        assert(seqs_of(names@) =~= resource_names(resources@).take(k + 1));
        k = k + 1;
    }
    assert(resource_names(resources@).take(n as int) =~= resource_names(resources@));
    let ghost ns = resource_names(resources@);

    let mut sorted: Vec<Resource> = Vec::new();
    let mut k: usize = 0;
    while k < n
        invariant
            k <= n,
            sorted@.len() == k,
        decreases n - k,
    {
        sorted.push(
            Resource {
                id: 0,
                category: String::new(),
                name: String::new(),
                file_name: None,
                link: None,
                updated: 0,
            },
        );
        k = k + 1;
    }
    let mut i: usize = 0;
    while i < n
        invariant
            i <= n,
            n == resources.len(),
            sorted@.len() == n,
            seqs_of(names@) == ns,
            ns == resource_names(resources@),
            forall|j: int| 0 <= j < i ==> sorted@[name_rank(ns, j) as int] == #[trigger] resources@[j],
        decreases n - i,
    {
        let slot = name_rank_exec(&names, i);
        proof {
            assert forall|j: int| 0 <= j < i implies name_rank(ns, j) != slot as int && name_rank(ns, j) < n by {
                lemma_name_rank(ns, j, i as int);
            }
        }
        let ghost before = sorted@;
        sorted.set(slot, resources[i].clone());
        assert(forall|j: int| 0 <= j < i ==> sorted@[name_rank(ns, j) as int] == before[name_rank(ns, j) as int]);
        i = i + 1;
    }

    let mut categories: Vec<String> = Vec::new();
    let mut c: usize = 0;
    while c < ordering.len()
        invariant
            c <= ordering.len(),
            categories@ == shown_categories(resources@, ordering@.take(c as int)),
        decreases ordering.len() - c,
    {
        assert(ordering@.take(c + 1).drop_last() =~= ordering@.take(c as int));
        proof {
            reveal(Seq::filter);
        }
        if category_used_exec(resources, &ordering[c]) {
            categories.push(ordering[c].clone());
        }
        c = c + 1;
    }
    assert(ordering@.take(ordering.len() as int) =~= ordering@);
    ResourcesPage { resources: sorted, categories }
}

/// On the resources page, a resource whose name comes first in `str`'s
/// order is shown first, and no two resources share a place.
pub proof fn lemma_resources_by_name(resources: Seq<Resource>, i: int, k: int)
    requires
        0 <= i < resources.len(),
        0 <= k < resources.len(),
    ensures
        str_less(resources[i].name@, resources[k].name@) ==> name_rank(resource_names(resources), i)
            < name_rank(resource_names(resources), k),
        i != k ==> name_rank(resource_names(resources), i) != name_rank(resource_names(resources), k),
        name_rank(resource_names(resources), i) < resources.len(),
{
    lemma_name_rank(resource_names(resources), i, k);
}

} // verus!
