//! The set of instructions the player may put in a program, by category.
use vstd::prelude::*;

use multimap::MultiMap;

use crate::instruction::{Instruction, InstructionType};

verus! {

/// The multimap of the `multimap` crate, held opaque.
#[verifier::external_type_specification]
#[verifier::external_body]
#[verifier::reject_recursive_types(K)]
#[verifier::reject_recursive_types(V)]
#[verifier::reject_recursive_types(S)]
pub struct ExMultiMap<K, V, S>(MultiMap<K, V, S>);

/// The multimap that holds unlocked instructions under category codes.
pub type InstructionMultiMap = MultiMap<u8, Instruction>;

/// What a multimap of instructions holds: for each key present, its values
/// in the order they were inserted.
pub uninterp spec fn multimap_contents(m: InstructionMultiMap) -> Map<u8, Seq<Instruction>>;

/// Relies on `MultiMap::new`: the new multimap holds no key.
#[verifier::external_body]
fn multimap_new() -> (r: InstructionMultiMap)
    ensures
        multimap_contents(r).dom() == Set::<u8>::empty(),
{
    MultiMap::new()
}

/// Relies on `MultiMap::insert`: the value is appended to the key's vector,
/// which is created holding just the value when the key is absent.
#[verifier::external_body]
fn multimap_insert(m: &mut InstructionMultiMap, k: u8, v: Instruction)
    ensures
        multimap_contents(*final(m)) == multimap_contents(*old(m)).insert(
            k,
            if multimap_contents(*old(m)).contains_key(k) {
                multimap_contents(*old(m))[k].push(v)
            } else {
                seq![v]
            },
        ),
{
    m.insert(k, v)
}

/// Relies on `MultiMap::get_vec`: the vector stored under the key, if any.
#[verifier::external_body]
fn multimap_get_vec(m: &InstructionMultiMap, k: u8) -> (r: Option<Vec<Instruction>>)
    ensures
        multimap_contents(*m).contains_key(k) <==> r is Some,
        r matches Some(v) ==> v@ == multimap_contents(*m)[k],
{
    m.get_vec(&k).cloned()
}

/// The instructions unlocked so far, grouped by category. It only grows.
#[derive(Debug)]
pub struct UnlockedInstructions {
    map: InstructionMultiMap,
}

impl View for UnlockedInstructions {
    type V = Map<u8, Seq<Instruction>>;

    /// For each category code, the instructions unlocked under it, in the
    /// order they were unlocked.
    closed spec fn view(&self) -> Map<u8, Seq<Instruction>> {
        multimap_contents(self.map)
    }
}

impl UnlockedInstructions {
    /// Whether `i` has been unlocked.
    pub open spec fn is_unlocked(&self, i: Instruction) -> bool {
        let c = i.category().spec_code();
        self@.contains_key(c) && self@[c].contains(i)
    }

    /// Each category's list holds only instructions of that category, once each.
    pub open spec fn wf(&self) -> bool {
        forall|c: u8|
            #[trigger] self@.contains_key(c) ==> {
                &&& self@[c].no_duplicates()
                &&& forall|k: int|
                    0 <= k < self@[c].len() ==> (#[trigger] self@[c][k]).category().spec_code()
                        == c
            }
    }

    /// The set a play session starts with: `MoveForward` under `Movement`.
    pub open spec fn starting_spec() -> Map<u8, Seq<Instruction>> {
        Map::<u8, Seq<Instruction>>::empty().insert(
            InstructionType::Movement.spec_code(),
            seq![Instruction::MoveForward],
        )
    }

    /// The set a play session starts with: `MoveForward` under `Movement`.
    pub fn starting() -> (r: UnlockedInstructions)
        ensures
            r.wf(),
            r@ == UnlockedInstructions::starting_spec(),
    {
        let mut map = multimap_new();
        multimap_insert(&mut map, InstructionType::Movement.code(), Instruction::MoveForward);
        let r = UnlockedInstructions { map };
        proof {
            let s = seq![Instruction::MoveForward];
            assert(s.no_duplicates());
        }
        r
    }

    /// The instructions unlocked under a category, if any.
    pub fn get_vec(&self, t: InstructionType) -> (r: Option<Vec<Instruction>>)
        ensures
            self@.contains_key(t.spec_code()) <==> r is Some,
            r matches Some(v) ==> v@ == self@[t.spec_code()],
    {
        multimap_get_vec(&self.map, t.code())
    }

    /// Whether `i` has been unlocked.
    pub fn contains(&self, i: Instruction) -> (r: bool)
        ensures
            r == self.is_unlocked(i),
    {
        match multimap_get_vec(&self.map, i.inst_type().code()) {
            Some(v) => {
                let mut k: usize = 0;
                while k < v.len()
                    invariant
                        k <= v@.len(),
                        self@.contains_key(i.category().spec_code()),
                        v@ == self@[i.category().spec_code()],
                        forall|j: int| 0 <= j < k ==> v@[j] != i,
                    decreases v@.len() - k,
                {
                    if v[k] == i {
                        proof {
                            assert(v@[k as int] == i);
                        }
                        return true;
                    }
                    k = k + 1;
                }
                false
            },
            None => false,
        }
    }

    /// Adds `i` under its category, unless it is there already.
    pub fn unlock(&mut self, i: Instruction)
        requires
            old(self).wf(),
        ensures
            final(self).wf(),
            final(self).is_unlocked(i),
            forall|j: Instruction| #[trigger]
                final(self).is_unlocked(j) <==> (old(self).is_unlocked(j) || j == i),
            forall|c: u8| #[trigger]
                old(self)@.contains_key(c) ==> final(self)@.contains_key(c) && old(self)@[c].is_prefix_of(
                    final(self)@[c],
                ),
            final(self)@.remove(i.category().spec_code()) == old(self)@.remove(
                i.category().spec_code(),
            ),
    {
        if self.contains(i) {
            return;
        }
        let c = i.inst_type().code();
        multimap_insert(&mut self.map, c, i);
        proof {
            let o = old(self)@;
            let n = self@;
            if o.contains_key(c) {
                assert(n[c] == o[c].push(i));
                assert(n[c].no_duplicates()) by {
                    assert forall|a: int, b: int|
                        0 <= a < n[c].len() && 0 <= b < n[c].len() && a != b implies n[c][a]
                        != n[c][b] by {
                        if a == o[c].len() as int {
                            assert(!o[c].contains(i));
                            assert(o[c][b] == n[c][b]);
                        } else if b == o[c].len() as int {
                            assert(!o[c].contains(i));
                            assert(o[c][a] == n[c][a]);
                        }
                    }
                }
                assert(o[c].is_prefix_of(n[c]));
            } else {
                assert(n[c] == seq![i]);
            }
            assert forall|j: Instruction| #[trigger]
                self.is_unlocked(j) <==> (old(self).is_unlocked(j) || j == i) by {
                let cj = j.category().spec_code();
                if cj == c && o.contains_key(c) {
                    if n[c].contains(j) && j != i {
                        let k = choose|k: int| 0 <= k < n[c].len() && n[c][k] == j;
                        assert(k < o[c].len());
                        assert(o[c][k] == j);
                    }
                    if o[c].contains(j) {
                        let k = choose|k: int| 0 <= k < o[c].len() && o[c][k] == j;
                        assert(n[c][k] == j);
                    }
                    assert(n[c][o[c].len() as int] == i);
                }
                if cj == c && !o.contains_key(c) {
                    assert(n[c][0] == i);
                }
            }
            assert(n.remove(c) =~= o.remove(c));
            assert forall|c2: u8| #[trigger] o.contains_key(c2) implies n.contains_key(c2)
                && o[c2].is_prefix_of(n[c2]) by {
                if c2 != c {
                    assert(o[c2] =~= n[c2]);
                }
            }
        }
    }

    /// The unlocked instructions of each category, in the order
    /// `Movement`, `Control`, `Scanning`, leaving out categories with none.
    pub fn palette(&self) -> (r: Vec<(InstructionType, Vec<Instruction>)>)
        ensures
            forall|k: int|
                0 <= k < r@.len() ==> {
                    &&& self@.contains_key((#[trigger] r@[k]).0.spec_code())
                    &&& r@[k].1@ == self@[r@[k].0.spec_code()]
                },
            forall|t: InstructionType|
                self@.contains_key(#[trigger] t.spec_code()) ==> exists|k: int|
                    0 <= k < r@.len() && r@[k].0 == t,
            forall|a: int, b: int|
                0 <= a < b < r@.len() ==> r@[a].0.spec_code() < r@[b].0.spec_code(),
    {
        let mut r: Vec<(InstructionType, Vec<Instruction>)> = Vec::new();
        let order = [InstructionType::Movement, InstructionType::Control, InstructionType::Scanning];
        let mut n: usize = 0;
        while n < 3
            invariant
                n <= 3,
                order@ == seq![InstructionType::Movement, InstructionType::Control, InstructionType::Scanning],
                forall|k: int|
                    0 <= k < r@.len() ==> {
                        &&& self@.contains_key((#[trigger] r@[k]).0.spec_code())
                        &&& r@[k].1@ == self@[r@[k].0.spec_code()]
                    },
                forall|m: int|
                    0 <= m < n && self@.contains_key(#[trigger] order@[m].spec_code()) ==> exists|k: int|
                        0 <= k < r@.len() && r@[k].0 == order@[m],
                forall|k: int| 0 <= k < r@.len() ==> (#[trigger] r@[k]).0.spec_code() < n,
                forall|a: int, b: int|
                    0 <= a < b < r@.len() ==> r@[a].0.spec_code() < r@[b].0.spec_code(),
            decreases 3 - n,
        {
            let t = order[n];
            match self.get_vec(t) {
                Some(v) => {
                    let ghost before = r@;
                    r.push((t, v));
                    proof {
                        assert(t.spec_code() == n);
                        assert forall|k: int| 0 <= k < r@.len() - 1 implies r@[k] == before[k] by {}
                        assert forall|m: int|
                            0 <= m <= n && self@.contains_key(#[trigger] order@[m].spec_code()) implies exists|k: int|
                                0 <= k < r@.len() && r@[k].0 == order@[m] by {
                            if m < n {
                                let k = choose|k: int| 0 <= k < before.len() && before[k].0 == order@[m];
                                assert(r@[k] == before[k]);
                            } else {
                                assert(r@[r@.len() - 1].0 == order@[m]);
                            }
                        }
                    }
                },
                None => {},
            }
            n = n + 1;
        }
        proof {
            assert forall|t: InstructionType|
                self@.contains_key(#[trigger] t.spec_code()) implies exists|k: int|
                    0 <= k < r@.len() && r@[k].0 == t by {
                let m: int = match t {
                    InstructionType::Movement => 0,
                    InstructionType::Control => 1,
                    InstructionType::Scanning => 2,
                };
                assert(order@[m] == t);
            }
        }
        r
    }
}

} // verus!
