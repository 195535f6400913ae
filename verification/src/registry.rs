//! The named-resolver registry: a read-only catalog of resolver names,
//! with lookup, existence checks, and the index bookkeeping of batch
//! resolution.
//!
//! Running a resolver is the collaborator's work; this module decides
//! which names are known, in what order their getters are batched, and
//! how the batched outcomes are written back to the caller's slots in
//! original input order.

use vstd::prelude::*;
use vstd::string::StringSliceAdditionalSpecFns;
use vstd::utf8::encode_utf8_decode_utf8;

verus! {

/// Character-for-character equality of two strings.
pub fn str_eq(a: &str, b: &str) -> (r: bool)
    ensures
        r == (a@ == b@),
{
    let ab = a.as_bytes();
    let bb = b.as_bytes();
    let n = ab.len();
    if n != bb.len() {
        proof {
            if a@ == b@ {
                assert(a.spec_bytes() == b.spec_bytes());
            }
        }
        return false;
    }
    let mut i: usize = 0;
    while i < n
        invariant
            i <= n,
            n == ab@.len(),
            n == bb@.len(),
            ab@ == a.spec_bytes(),
            bb@ == b.spec_bytes(),
            forall|j: int| 0 <= j < i ==> ab@[j] == bb@[j],
        decreases n - i,
    {
        if ab[i] != bb[i] {
            proof {
                if a@ == b@ {
                    assert(a.spec_bytes() == b.spec_bytes());
                }
            }
            return false;
        }
        i += 1;
    }
    proof {
        assert(a.spec_bytes() =~= b.spec_bytes());
        encode_utf8_decode_utf8(a@);
        encode_utf8_decode_utf8(b@);
    }
    true
}

/// What a first-match lookup of `name` in `names` may report: either
/// the position of the first equal entry, or nothing when no entry is
/// equal.
pub open spec fn find_result_ok(names: Seq<Seq<char>>, name: Seq<char>, r: Option<int>) -> bool {
    match r {
        Some(i) => 0 <= i < names.len() && names[i] == name && (forall|j: int|
            0 <= j < i ==> names[j] != name),
        None => !names.contains(name),
    }
}

/// Only one result satisfies the first-match description: lookup is a
/// function of the registry and the name, so repeating it against an
/// unchanged registry reports the same entry.
pub proof fn lemma_find_deterministic(
    names: Seq<Seq<char>>,
    name: Seq<char>,
    r1: Option<int>,
    r2: Option<int>,
)
    requires
        find_result_ok(names, name, r1),
        find_result_ok(names, name, r2),
    ensures
        r1 == r2,
{
    match (r1, r2) {
        (Some(i1), Some(i2)) => {
            if i1 < i2 {
                assert(names[i1] != name);
            }
            if i2 < i1 {
                assert(names[i2] != name);
            }
        },
        (Some(i1), None) => {
            assert(names.contains(name)) by {
                assert(names[i1] == name);
            }
        },
        (None, Some(i2)) => {
            assert(names.contains(name)) by {
                assert(names[i2] == name);
            }
        },
        (None, None) => {},
    }
}

/// The process-wide catalog of resolver names, immutable once built.
/// Its view is the sequence of names, in registration order.
pub struct Registry {
    names: Vec<String>,
}

impl View for Registry {
    type V = Seq<Seq<char>>;

    closed spec fn view(&self) -> Seq<Seq<char>> {
        self.names.deep_view()
    }
}

impl Registry {
    /// Builds the catalog from its names, keeping their order.
    pub fn new(names: Vec<String>) -> (r: Registry)
        ensures
            r@ == names.deep_view(),
    {
        Registry { names }
    }

    /// Number of registered resolvers.
    pub fn count(&self) -> (n: usize)
        ensures
            n == self@.len(),
    {
        proof {
            assert(self.names.deep_view().len() == self.names@.len());
        }
        self.names.len()
    }

    /// The registry's name list, for discovery; the entries are
    /// borrowed from the registry and live as long as it does.
    pub fn list_names(&self) -> (r: &Vec<String>)
        ensures
            r.deep_view() == self@,
    {
        &self.names
    }

    /// Position of the first entry named `name`, if any.
    pub fn find(&self, name: &str) -> (r: Option<usize>)
        ensures
            find_result_ok(self@, name@, match r {
                Some(i) => Some(i as int),
                None => None,
            }),
    {
        let n = self.names.len();
        proof {
            assert(self.names.deep_view().len() == self.names@.len());
        }
        let mut i: usize = 0;
        while i < n
            invariant
                i <= n,
                n == self@.len(),
                self@ == self.names.deep_view(),
                n == self.names@.len(),
                forall|j: int| 0 <= j < i ==> self@[j] != name@,
            decreases n - i,
        {
            proof {
                assert(self.names.deep_view()[i as int] == self.names@[i as int]@);
            }
            if str_eq(self.names[i].as_str(), name) {
                return Some(i);
            }
            i += 1;
        }
        proof {
            if self@.contains(name@) {
                let w = choose|j: int| 0 <= j < self@.len() && self@[j] == name@;
                assert(self@[w] != name@);
            }
        }
        None
    }

    /// Whether a resolver of this name is registered; answers exactly
    /// membership in the listed names, and performs no scan.
    pub fn ps_resolver_exists(&self, name: &str) -> (b: bool)
        ensures
            b == self@.contains(name@),
    {
        match self.find(name) {
            Some(i) => {
                proof {
                    assert(self@.contains(name@)) by {
                        assert(self@[i as int] == name@);
                    }
                }
                true
            },
            None => false,
        }
    }
}

/// The address reported for one resolver outcome: the resolved value,
/// or the zero sentinel when the resolver failed or was unknown.
pub open spec fn outcome_value(o: Option<u64>) -> u64 {
    match o {
        Some(v) => v,
        None => 0,
    }
}

/// Reports the address of one engine outcome; the zero sentinel stands
/// for a failed resolution.
pub fn ps_resolve_single_finish(outcome: Option<u64>) -> (a: u64)
    ensures
        a == outcome_value(outcome),
{
    match outcome {
        Some(v) => v,
        None => 0,
    }
}

/// The input positions, in order, whose name is registered: the slots
/// that batch resolution hands to the engine.
pub open spec fn known_indices_from(reg: Seq<Seq<char>>, names: Seq<Seq<char>>, k: int) -> Seq<
    int,
>
    decreases names.len() - k,
{
    if k < 0 || k >= names.len() {
        Seq::empty()
    } else if reg.contains(names[k]) {
        seq![k] + known_indices_from(reg, names, k + 1)
    } else {
        known_indices_from(reg, names, k + 1)
    }
}

/// The registered input positions of a whole batch, in input order.
pub open spec fn known_indices(reg: Seq<Seq<char>>, names: Seq<Seq<char>>) -> Seq<int> {
    known_indices_from(reg, names, 0)
}

/// `known_indices_from` lists exactly the registered positions at or
/// after `k`, strictly increasing.
pub proof fn lemma_known_indices_from_characterizes(
    reg: Seq<Seq<char>>,
    names: Seq<Seq<char>>,
    k: int,
)
    requires
        0 <= k,
    ensures
        forall|j: int| 0 <= j < known_indices_from(reg, names, k).len() ==> k
            <= #[trigger] known_indices_from(reg, names, k)[j] < names.len() && reg.contains(
            names[known_indices_from(reg, names, k)[j]],
        ),
        forall|i: int|
            k <= i < names.len() && reg.contains(names[i]) ==> known_indices_from(
                reg,
                names,
                k,
            ).contains(i),
        forall|j1: int, j2: int|
            0 <= j1 < j2 < known_indices_from(reg, names, k).len() ==> known_indices_from(
                reg,
                names,
                k,
            )[j1] < known_indices_from(reg, names, k)[j2],
    decreases names.len() - k,
{
    if k < 0 || k >= names.len() {
    } else {
        lemma_known_indices_from_characterizes(reg, names, k + 1);
        let rest = known_indices_from(reg, names, k + 1);
        let cur = known_indices_from(reg, names, k);
        if reg.contains(names[k]) {
            assert(cur == seq![k] + rest);
            assert forall|i: int| k <= i < names.len() && reg.contains(names[i]) implies
                cur.contains(i) by {
                if i == k {
                    assert(cur[0] == k);
                    assert(cur.contains(i)) by {
                        assert(0 <= 0 < cur.len() && cur[0] == i);
                    }
                } else {
                    assert(k + 1 <= i);
                    assert(rest.contains(i));
                    let w = choose|j: int| 0 <= j < rest.len() && rest[j] == i;
                    assert(cur.contains(i)) by {
                        assert(0 <= w + 1 < cur.len() && cur[w + 1] == i);
                    }
                }
            }
        } else {
            assert(cur == rest);
            assert forall|i: int| k <= i < names.len() && reg.contains(names[i]) implies
                cur.contains(i) by {
                assert(i != k);
                assert(k + 1 <= i);
                assert(rest.contains(i));
            }
        }
    }
}

/// Plans one batch: the positions of the registered names, in input
/// order; the caller runs exactly those getters, in this order.
pub fn ps_resolve_batch_plan(reg: &Registry, names: &Vec<String>) -> (known: Vec<usize>)
    ensures
        known@.map_values(|u: usize| u as int) == known_indices(reg@, names.deep_view()),
{
    let ghost dv = names.deep_view();
    let n = names.len();
    proof {
        assert(dv.len() == names@.len());
    }
    let mut known: Vec<usize> = Vec::new();
    let mut i: usize = 0;
    proof {
        assert(known@.map_values(|u: usize| u as int) =~= Seq::<int>::empty());
    }
    while i < n
        invariant
            i <= n,
            n == dv.len(),
            dv == names.deep_view(),
            n == names@.len(),
            known_indices(reg@, dv) == known@.map_values(|u: usize| u as int)
                + known_indices_from(reg@, dv, i as int),
        decreases n - i,
    {
        proof {
            assert(names.deep_view()[i as int] == names@[i as int]@);
        }
        if reg.ps_resolver_exists(names[i].as_str()) {
            let ghost prev = known@;
            known.push(i);
            proof {
                assert(known@.map_values(|u: usize| u as int) =~= prev.map_values(
                    |u: usize| u as int,
                ).push(i as int));
                assert(known_indices_from(reg@, dv, i as int) == seq![i as int]
                    + known_indices_from(reg@, dv, i + 1));
                assert(prev.map_values(|u: usize| u as int).push(i as int)
                    + known_indices_from(reg@, dv, i + 1) =~= prev.map_values(
                    |u: usize| u as int,
                ) + known_indices_from(reg@, dv, i as int));
            }
        } else {
            proof {
                assert(known_indices_from(reg@, dv, i as int) == known_indices_from(
                    reg@,
                    dv,
                    i + 1,
                ));
            }
        }
        i += 1;
    }
    proof {
        assert(known_indices_from(reg@, dv, n as int) == Seq::<int>::empty());
        assert(known@.map_values(|u: usize| u as int) + Seq::<int>::empty() =~= known@.map_values(
            |u: usize| u as int,
        ));
    }
    known
}

/// Writes one batch's outcomes back: zero at every unregistered slot,
/// and at the `j`-th planned slot the `j`-th outcome's address (zero on
/// a per-resolver failure).  Every slot is written; the count of
/// processed names is reported.
pub fn ps_resolve_batch_fill(
    names_len: usize,
    known: &Vec<usize>,
    outcomes: &Vec<Option<u64>>,
    results: &mut Vec<u64>,
) -> (count: usize)
    requires
        old(results)@.len() == names_len,
        outcomes@.len() == known@.len(),
        forall|j: int| 0 <= j < known@.len() ==> #[trigger] known@[j] < names_len,
        forall|j1: int, j2: int| 0 <= j1 < j2 < known@.len() ==> known@[j1] < known@[j2],
    ensures
        count == names_len,
        final(results)@.len() == names_len,
        forall|j: int|
            0 <= j < known@.len() ==> final(results)@[known@[j] as int] == outcome_value(
                outcomes@[j],
            ),
        forall|i: int|
            0 <= i < names_len && !known@.contains(i as usize) ==> final(results)@[i] == 0,
{
    let mut i: usize = 0;
    while i < names_len
        invariant
            i <= names_len,
            results@.len() == names_len,
            forall|t: int| 0 <= t < i ==> results@[t] == 0,
        decreases names_len - i,
    {
        results.set(i, 0);
        i += 1;
    }
    let m = known.len();
    let mut j: usize = 0;
    while j < m
        invariant
            j <= m,
            m == known@.len(),
            outcomes@.len() == m,
            results@.len() == names_len,
            forall|t: int| 0 <= t < m ==> #[trigger] known@[t] < names_len,
            forall|t1: int, t2: int| 0 <= t1 < t2 < m ==> known@[t1] < known@[t2],
            forall|t: int|
                0 <= t < j ==> results@[known@[t] as int] == outcome_value(outcomes@[t]),
            forall|i2: int|
                0 <= i2 < names_len && !known@.contains(i2 as usize) ==> results@[i2] == 0,
            forall|t: int| j <= t < m ==> results@[known@[t] as int] == 0,
        decreases m - j,
    {
        let slot = known[j];
        let a = ps_resolve_single_finish(outcomes[j]);
        results.set(slot, a);
        proof {
            assert forall|t: int| j + 1 <= t < m implies results@[known@[t] as int] == 0 by {
                assert(known@[j as int] < known@[t]);
            }
            assert forall|t: int| 0 <= t < j + 1 implies results@[known@[t] as int]
                == outcome_value(outcomes@[t]) by {
                if t < j {
                    assert(known@[t] < known@[j as int]);
                }
            }
            assert forall|i2: int|
                0 <= i2 < names_len && !known@.contains(i2 as usize) implies results@[i2] == 0 by {
                assert(known@[j as int] != i2 as usize) by {
                    if known@[j as int] == i2 as usize {
                        assert(known@.contains(i2 as usize));
                    }
                }
            }
        }
        j += 1;
    }
    names_len
}


/// Completes one batch in a single call, once the engine's outcomes
/// for the planned resolvers are in hand: plans the names again (the
/// plan is a function of registry and names), and fills the caller's
/// output array, zero at every unregistered slot, input order kept.
pub fn ps_resolve_batch(
    reg: &Registry,
    names: &Vec<String>,
    outcomes: &Vec<Option<u64>>,
    results: &mut Vec<u64>,
) -> (count: usize)
    requires
        old(results)@.len() == names@.len(),
        outcomes@.len() == known_indices(reg@, names.deep_view()).len(),
    ensures
        count == names@.len(),
        final(results)@.len() == names@.len(),
        forall|j: int|
            0 <= j < known_indices(reg@, names.deep_view()).len()
                ==> final(results)@[known_indices(reg@, names.deep_view())[j]] == outcome_value(
                outcomes@[j],
            ),
        forall|i: int|
            0 <= i < names@.len() && !known_indices(reg@, names.deep_view()).contains(i)
                ==> final(results)@[i] == 0,
{
    let ghost dv = names.deep_view();
    let ghost ks = known_indices(reg@, dv);
    let plan = ps_resolve_batch_plan(reg, names);
    proof {
        lemma_known_indices_from_characterizes(reg@, dv, 0);
        assert(dv.len() == names@.len());
        assert(plan@.len() == ks.len());
        assert forall|j: int| 0 <= j < plan@.len() implies #[trigger] plan@[j]
            < names@.len() by {
            assert(plan@.map_values(|u: usize| u as int)[j] == plan@[j] as int);
            assert(ks[j] < dv.len());
        }
        assert forall|j1: int, j2: int| 0 <= j1 < j2 < plan@.len() implies plan@[j1]
            < plan@[j2] by {
            assert(plan@.map_values(|u: usize| u as int)[j1] == plan@[j1] as int);
            assert(plan@.map_values(|u: usize| u as int)[j2] == plan@[j2] as int);
        }
    }
    let count = ps_resolve_batch_fill(names.len(), &plan, outcomes, results);
    proof {
        assert forall|j: int| 0 <= j < ks.len() implies results@[ks[j]] == outcome_value(
            outcomes@[j],
        ) by {
            assert(plan@.map_values(|u: usize| u as int)[j] == plan@[j] as int);
            assert(plan@[j] as int == ks[j]);
        }
        assert forall|i: int| 0 <= i < names@.len() && !ks.contains(i) implies results@[i]
            == 0 by {
            assert(!plan@.contains(i as usize)) by {
                if plan@.contains(i as usize) {
                    let w = choose|j: int| 0 <= j < plan@.len() && plan@[j] == i as usize;
                    assert(plan@.map_values(|u: usize| u as int)[w] == plan@[w] as int);
                    assert(ks[w] == i);
                    assert(ks.contains(i));
                }
            }
        }
    }
    count
}

} // verus!
