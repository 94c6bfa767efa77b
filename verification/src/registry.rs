//! The user functions that transforms refer to by name.
use vstd::prelude::*;
use crate::elements::{view_values, Value, ValueView};
use crate::text::same_text;

verus! {

/// The functions a pipeline registers under names: the per-element
/// functions of `ParDo` transforms and the key extractors of `GroupByKey`
/// transforms. Transforms carry only the name; the worker resolves it here.
///
/// The worker's contracts are stated over the spec functions;
/// `ClosureRegistry` is the implementation that pipelines build.
pub trait FnRegistry {
    /// Whether a per-element function is registered under `name`.
    spec fn has_do_fn(&self, name: Seq<char>) -> bool;

    /// What the per-element function `name` emits for `input`.
    spec fn do_fn_outputs(&self, name: Seq<char>, input: ValueView) -> Seq<ValueView>;

    /// Whether a key extractor is registered under `name`.
    spec fn has_key_extractor(&self, name: Seq<char>) -> bool;

    /// The key and the value that extractor `name` splits `input` into.
    spec fn extracted(&self, name: Seq<char>, input: ValueView) -> (Seq<char>, ValueView);

    /// The element that extractor `name` builds from a key and its values.
    spec fn recombined(&self, name: Seq<char>, key: Seq<char>, values: Seq<ValueView>) -> ValueView;

    fn contains_do_fn(&self, name: &str) -> (r: bool)
        ensures
            r == self.has_do_fn(name@),
    ;

    fn apply_do_fn(&self, name: &str, input: &Value) -> (r: Vec<Value>)
        requires
            self.has_do_fn(name@),
        ensures
            crate::elements::view_values(r@) == self.do_fn_outputs(name@, input@),
    ;

    fn contains_key_extractor(&self, name: &str) -> (r: bool)
        ensures
            r == self.has_key_extractor(name@),
    ;

    fn extract(&self, name: &str, input: &Value) -> (r: (String, Value))
        requires
            self.has_key_extractor(name@),
        ensures
            (r.0@, r.1@) == self.extracted(name@, input@),
    ;

    fn recombine(&self, name: &str, key: &str, values: &Vec<Value>) -> (r: Value)
        requires
            self.has_key_extractor(name@),
        ensures
            r@ == self.recombined(name@, key@, crate::elements::view_values(values@)),
    ;
}

/// Whether one of `names` is `name`.
pub open spec fn names_contain(names: Seq<String>, name: Seq<char>) -> bool {
    exists|i: int| 0 <= i < names.len() && #[trigger] names[i]@ == name
}

/// The per-element function may be called on anything, and equal names and
/// inputs give equal outputs.
pub open spec fn do_fn_functional<D: Fn(&str, &Value) -> Vec<Value>>(d: D) -> bool {
    &&& forall|n: &str, x: &Value| #[trigger] call_requires(d, (n, x))
    &&& forall|n1: &str, x1: &Value, r1: Vec<Value>, n2: &str, x2: &Value, r2: Vec<Value>|
        #![trigger call_ensures(d, (n1, x1), r1), call_ensures(d, (n2, x2), r2)]
        call_ensures(d, (n1, x1), r1) && call_ensures(d, (n2, x2), r2) && n1@ == n2@ && x1@ == x2@
            ==> view_values(r1@) == view_values(r2@)
}

/// The key extractor may be called on anything, and equal names and inputs
/// give equal keys and values.
pub open spec fn extract_functional<K: Fn(&str, &Value) -> (String, Value)>(k: K) -> bool {
    &&& forall|n: &str, x: &Value| #[trigger] call_requires(k, (n, x))
    &&& forall|n1: &str, x1: &Value, r1: (String, Value), n2: &str, x2: &Value, r2: (String, Value)|
        #![trigger call_ensures(k, (n1, x1), r1), call_ensures(k, (n2, x2), r2)]
        call_ensures(k, (n1, x1), r1) && call_ensures(k, (n2, x2), r2) && n1@ == n2@ && x1@ == x2@
            ==> r1.0@ == r2.0@ && r1.1@ == r2.1@
}

/// The recombiner may be called on anything, and equal names, keys and
/// values give equal elements.
pub open spec fn recombine_functional<C: Fn(&str, &str, &Vec<Value>) -> Value>(c: C) -> bool {
    &&& forall|n: &str, key: &str, vs: &Vec<Value>| #[trigger] call_requires(c, (n, key, vs))
    &&& forall|n1: &str, k1: &str, v1: &Vec<Value>, r1: Value, n2: &str, k2: &str, v2: &Vec<Value>, r2: Value|
        #![trigger call_ensures(c, (n1, k1, v1), r1), call_ensures(c, (n2, k2, v2), r2)]
        call_ensures(c, (n1, k1, v1), r1) && call_ensures(c, (n2, k2, v2), r2) && n1@ == n2@ && k1@ == k2@
            && view_values(v1@) == view_values(v2@) ==> r1@ == r2@
}

/// A registry built from closures: one that runs the per-element function
/// of a given name, one that splits an element into key and value for a
/// given extractor, and one that builds a grouped element; plus the names
/// each one answers to.
pub struct ClosureRegistry<D, K, C> where
    D: Fn(&str, &Value) -> Vec<Value>,
    K: Fn(&str, &Value) -> (String, Value),
    C: Fn(&str, &str, &Vec<Value>) -> Value,
 {
    do_fn_names: Vec<String>,
    do_fn: D,
    key_extractor_names: Vec<String>,
    extract_fn: K,
    recombine_fn: C,
}

fn contains_name(names: &Vec<String>, name: &str) -> (r: bool)
    ensures
        r == names_contain(names@, name@),
{
    let mut i: usize = 0;
    while i < names.len()
        invariant
            0 <= i <= names@.len(),
            forall|j: int| 0 <= j < i ==> names@[j]@ != name@,
        decreases names@.len() - i,
    {
        if same_text(names[i].as_str(), name) {
            return true;
        }
        i = i + 1;
    }
    false
}

impl<D, K, C> ClosureRegistry<D, K, C> where
    D: Fn(&str, &Value) -> Vec<Value>,
    K: Fn(&str, &Value) -> (String, Value),
    C: Fn(&str, &str, &Vec<Value>) -> Value,
 {
    #[verifier::type_invariant]
    spec fn functional(self) -> bool {
        &&& do_fn_functional(self.do_fn)
        &&& extract_functional(self.extract_fn)
        &&& recombine_functional(self.recombine_fn)
    }

    /// A registry of the given functions. Each closure must behave as a
    /// function of the views of its arguments.
    pub fn new(
        do_fn_names: Vec<String>,
        do_fn: D,
        key_extractor_names: Vec<String>,
        extract_fn: K,
        recombine_fn: C,
    ) -> (r: Self)
        requires
            do_fn_functional(do_fn),
            extract_functional(extract_fn),
            recombine_functional(recombine_fn),
        ensures
            forall|name: Seq<char>| r.has_do_fn(name) == names_contain(do_fn_names@, name),
            forall|name: Seq<char>| r.has_key_extractor(name) == names_contain(key_extractor_names@, name),
            forall|n: &str, x: &Value, out: Vec<Value>|
                #[trigger] call_ensures(do_fn, (n, x), out) ==> r.do_fn_outputs(n@, x@) == view_values(out@),
            forall|n: &str, x: &Value, out: (String, Value)|
                #[trigger] call_ensures(extract_fn, (n, x), out) ==> r.extracted(n@, x@) == (out.0@, out.1@),
            forall|n: &str, key: &str, vs: &Vec<Value>, out: Value|
                #[trigger] call_ensures(recombine_fn, (n, key, vs), out) ==> r.recombined(n@, key@, view_values(vs@))
                    == out@,
    {
        let r = ClosureRegistry { do_fn_names, do_fn, key_extractor_names, extract_fn, recombine_fn };
        proof {
            assert forall|n: &str, x: &Value, out: Vec<Value>|
                #[trigger] call_ensures(r.do_fn, (n, x), out) implies r.do_fn_outputs(n@, x@) == view_values(out@) by {
                let (n2, x2, q2) = choose|n2: &str, x2: &Value, q2: Vec<Value>|
                    n2@ == n@ && x2@ == x@ && #[trigger] call_ensures(r.do_fn, (n2, x2), q2);
                assert(view_values(q2@) == view_values(out@));
            }
            assert forall|n: &str, x: &Value, out: (String, Value)|
                #[trigger] call_ensures(r.extract_fn, (n, x), out) implies r.extracted(n@, x@) == (out.0@, out.1@) by {
                let (n2, x2, q2) = choose|n2: &str, x2: &Value, q2: (String, Value)|
                    n2@ == n@ && x2@ == x@ && #[trigger] call_ensures(r.extract_fn, (n2, x2), q2);
                assert(q2.0@ == out.0@ && q2.1@ == out.1@);
            }
            assert forall|n: &str, key: &str, vs: &Vec<Value>, out: Value|
                #[trigger] call_ensures(r.recombine_fn, (n, key, vs), out) implies r.recombined(
                    n@,
                    key@,
                    view_values(vs@),
                ) == out@ by {
                let (n2, k2, v2, q2) = choose|n2: &str, k2: &str, v2: &Vec<Value>, q2: Value|
                    n2@ == n@ && k2@ == key@ && view_values(v2@) == view_values(vs@) && #[trigger] call_ensures(
                        r.recombine_fn,
                        (n2, k2, v2),
                        q2,
                    );
                assert(q2@ == out@);
            }
        }
        r
    }
}

impl<D, K, C> FnRegistry for ClosureRegistry<D, K, C> where
    D: Fn(&str, &Value) -> Vec<Value>,
    K: Fn(&str, &Value) -> (String, Value),
    C: Fn(&str, &str, &Vec<Value>) -> Value,
 {
    closed spec fn has_do_fn(&self, name: Seq<char>) -> bool {
        names_contain(self.do_fn_names@, name)
    }

    closed spec fn do_fn_outputs(&self, name: Seq<char>, input: ValueView) -> Seq<ValueView> {
        let (n, x, r) = choose|n: &str, x: &Value, r: Vec<Value>|
            n@ == name && x@ == input && #[trigger] call_ensures(self.do_fn, (n, x), r);
        view_values(r@)
    }

    closed spec fn has_key_extractor(&self, name: Seq<char>) -> bool {
        names_contain(self.key_extractor_names@, name)
    }

    closed spec fn extracted(&self, name: Seq<char>, input: ValueView) -> (Seq<char>, ValueView) {
        let (n, x, r) = choose|n: &str, x: &Value, r: (String, Value)|
            n@ == name && x@ == input && #[trigger] call_ensures(self.extract_fn, (n, x), r);
        (r.0@, r.1@)
    }

    closed spec fn recombined(&self, name: Seq<char>, key: Seq<char>, values: Seq<ValueView>) -> ValueView {
        let (n, k, vs, r) = choose|n: &str, k: &str, vs: &Vec<Value>, r: Value|
            n@ == name && k@ == key && view_values(vs@) == values && #[trigger] call_ensures(
                self.recombine_fn,
                (n, k, vs),
                r,
            );
        r@
    }

    fn contains_do_fn(&self, name: &str) -> (r: bool) {
        contains_name(&self.do_fn_names, name)
    }

    fn apply_do_fn(&self, name: &str, input: &Value) -> (r: Vec<Value>) {
        proof {
            use_type_invariant(self);
        }
        let r = (self.do_fn)(name, input);
        proof {
            assert(call_ensures(self.do_fn, (name, input), r));
            let (n2, x2, q2) = choose|n: &str, x: &Value, q: Vec<Value>|
                n@ == name@ && x@ == input@ && #[trigger] call_ensures(self.do_fn, (n, x), q);
            assert(view_values(q2@) == view_values(r@));
        }
        r
    }

    fn contains_key_extractor(&self, name: &str) -> (r: bool) {
        contains_name(&self.key_extractor_names, name)
    }

    fn extract(&self, name: &str, input: &Value) -> (r: (String, Value)) {
        proof {
            use_type_invariant(self);
        }
        let r = (self.extract_fn)(name, input);
        proof {
            assert(call_ensures(self.extract_fn, (name, input), r));
            let (n2, x2, q2) = choose|n: &str, x: &Value, q: (String, Value)|
                n@ == name@ && x@ == input@ && #[trigger] call_ensures(self.extract_fn, (n, x), q);
            assert(q2.0@ == r.0@ && q2.1@ == r.1@);
        }
        r
    }

    fn recombine(&self, name: &str, key: &str, values: &Vec<Value>) -> (r: Value) {
        proof {
            use_type_invariant(self);
        }
        let r = (self.recombine_fn)(name, key, values);
        proof {
            assert(call_ensures(self.recombine_fn, (name, key, values), r));
            let (n2, k2, v2, q2) = choose|n: &str, k: &str, vs: &Vec<Value>, q: Value|
                n@ == name@ && k@ == key@ && view_values(vs@) == view_values(values@) && #[trigger] call_ensures(
                    self.recombine_fn,
                    (n, k, vs),
                    q,
                );
            assert(q2@ == r@);
        }
        r
    }
}

} // verus!
