//! The parts of the pipeline description that the worker reads.
use vstd::prelude::*;
use crate::text::same_text;

verus! {

/// What a transform does: its URN and the URN-specific payload.
pub struct FunctionSpec {
    pub urn: String,
    pub payload: Vec<u8>,
}

/// One transform of the pipeline graph.
pub struct PTransform {
    /// The transform's function, if it has one.
    pub spec: Option<FunctionSpec>,
    /// The collections it produces: pairs of local output name and collection id.
    pub outputs: Vec<(String, String)>,
}

/// The transforms that one bundle runs, each under its transform id.
/// An id is looked up by its first occurrence.
pub struct ProcessBundleDescriptor {
    pub transforms: Vec<(String, PTransform)>,
}

/// No two entries share a name, as in a map keyed by name.
pub open spec fn names_distinct<T>(entries: Seq<(String, T)>) -> bool {
    forall|i: int, j: int| 0 <= i < j < entries.len() ==> entries[i].0@ != entries[j].0@
}

/// The position of the first pair whose name is `name`, if any.
pub open spec fn first_named<T>(entries: Seq<(String, T)>, name: Seq<char>) -> Option<int>
    decreases entries.len(),
{
    if entries.len() == 0 {
        None
    } else {
        match first_named(entries.drop_last(), name) {
            Some(i) => Some(i),
            None => if entries.last().0@ == name {
                Some(entries.len() - 1)
            } else {
                None
            },
        }
    }
}

/// `first_named` finds the first matching entry and nothing before it matches.
pub proof fn lemma_first_named<T>(entries: Seq<(String, T)>, name: Seq<char>)
    ensures
        match first_named(entries, name) {
            Some(i) => 0 <= i < entries.len() && entries[i].0@ == name && forall|j: int|
                0 <= j < i ==> entries[j].0@ != name,
            None => forall|j: int| 0 <= j < entries.len() ==> entries[j].0@ != name,
        },
    decreases entries.len(),
{
    if entries.len() > 0 {
        let d = entries.drop_last();
        lemma_first_named(d, name);
        match first_named(d, name) {
            Some(i) => {
                assert(entries[i] == d[i]);
                assert forall|j: int| 0 <= j < i implies entries[j].0@ != name by {
                    assert(entries[j] == d[j]);
                }
            },
            None => {
                assert forall|j: int| 0 <= j < d.len() implies entries[j].0@ != name by {
                    assert(entries[j] == d[j]);
                }
            },
        }
    }
}

/// Where names are distinct, the entry that `first_named` finds is the only
/// one with that name, so a lookup by first occurrence is a lookup by key.
pub proof fn lemma_first_named_unique<T>(entries: Seq<(String, T)>, name: Seq<char>)
    requires
        names_distinct(entries),
    ensures
        forall|j: int|
            0 <= j < entries.len() && #[trigger] entries[j].0@ == name ==> first_named(entries, name) == Some(j),
{
    lemma_first_named(entries, name);
    assert forall|j: int| 0 <= j < entries.len() && #[trigger] entries[j].0@ == name implies first_named(
        entries,
        name,
    ) == Some(j) by {
        match first_named(entries, name) {
            Some(i) => {
                if i < j {
                    assert(entries[i].0@ != entries[j].0@);
                } else if j < i {
                    assert(entries[j].0@ != name);
                }
            },
            None => {},
        }
    }
}

/// Finds the position of the first entry named `name`.
pub fn find_named<T>(entries: &Vec<(String, T)>, name: &str) -> (r: Option<usize>)
    ensures
        match r {
            Some(i) => first_named(entries@, name@) == Some(i as int),
            None => first_named(entries@, name@) is None,
        },
{
    proof {
        lemma_first_named(entries@, name@);
    }
    let mut i: usize = 0;
    while i < entries.len()
        invariant
            0 <= i <= entries@.len(),
            forall|j: int| 0 <= j < i ==> entries@[j].0@ != name@,
            match first_named(entries@, name@) {
                Some(k) => 0 <= k < entries@.len() && entries@[k].0@ == name@ && forall|j: int|
                    0 <= j < k ==> entries@[j].0@ != name@,
                None => forall|j: int| 0 <= j < entries@.len() ==> entries@[j].0@ != name@,
            },
        decreases entries@.len() - i,
    {
        if same_text(entries[i].0.as_str(), name) {
            return Some(i);
        }
        i = i + 1;
    }
    None
}

impl ProcessBundleDescriptor {
    /// The transform registered under `transform_id`, if any.
    pub fn transform(&self, transform_id: &str) -> (r: Option<&PTransform>)
        ensures
            match first_named(self.transforms@, transform_id@) {
                Some(i) => r == Some(&self.transforms@[i].1),
                None => r is None,
            },
    {
        proof {
            lemma_first_named(self.transforms@, transform_id@);
        }
        match find_named(&self.transforms, transform_id) {
            Some(i) => Some(&self.transforms[i].1),
            None => None,
        }
    }
}

} // verus!
