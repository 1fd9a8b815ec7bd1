//! The module registry: a table assigning 16-bit identities to module
//! names.  An identity is minted by hashing the name and probing linearly
//! (wrapping) until a free slot is found; registering a name twice is
//! refused, and an identity once assigned stays resolvable.

use vstd::prelude::*;
use vstd::pervasive::unreached;
use vstd::string::StringExecFns;

verus! {

/// The 16-bit hash that seeds the probe for a module name.
pub uninterp spec fn fnv1a_hash_16(name: Seq<char>) -> u16;

/// Relies on const_fnv1a_hash::fnv1a_hash_str_16_xor: the xor-fold of the
/// two halves of the 32-bit FNV-1a hash of the string's bytes, a pure
/// function of the string alone (the xor of the halves is the same under
/// either byte order).
#[verifier::external_body]
fn hash_module_name(name: &str) -> (r: u16)
    ensures
        r == fnv1a_hash_16(name@),
{
    const_fnv1a_hash::fnv1a_hash_str_16_xor(name)
}

/// Relies on str's PartialEq: two string slices compare equal exactly when
/// they consist of the same characters.
#[verifier::external_body]
fn str_eq(a: &str, b: &str) -> (r: bool)
    ensures
        r == (a@ == b@),
{
    a == b
}

/// The identity slot after `h`, wrapping at the top of the 16-bit range.
pub open spec fn wrap_inc(h: u16) -> u16 {
    if h == 0xFFFF {
        0u16
    } else {
        (h + 1) as u16
    }
}

/// How many single steps it takes to walk from `h` forward (wrapping) to `k`.
pub open spec fn dist(h: u16, k: u16) -> nat {
    if k >= h {
        (k - h) as nat
    } else {
        (0x10000 - h + k) as nat
    }
}

proof fn lemma_dist_step(h: u16, k: u16)
    requires
        k != h,
    ensures
        dist(wrap_inc(h), k) + 1 == dist(h, k),
        dist(h, k) >= 1,
{
}

/// What linear probing finds for `name`, starting at slot `h`: the first
/// free slot, or the slot already holding `name`, or nothing within `fuel`
/// further steps.
pub enum ProbeOutcome {
    Free(u16),
    Duplicate(u16),
    Exhausted,
}

pub open spec fn probe(m: Map<u16, Seq<char>>, name: Seq<char>, h: u16, fuel: nat) -> ProbeOutcome
    decreases fuel,
{
    if !m.contains_key(h) {
        ProbeOutcome::Free(h)
    } else if m[h] == name {
        ProbeOutcome::Duplicate(h)
    } else if fuel == 0 {
        ProbeOutcome::Exhausted
    } else {
        probe(m, name, wrap_inc(h), (fuel - 1) as nat)
    }
}

/// The probe for `name` over the whole table, seeded by its hash.
pub open spec fn probe_from_hash(m: Map<u16, Seq<char>>, name: Seq<char>) -> ProbeOutcome {
    probe(m, name, fnv1a_hash_16(name), 0xFFFF as nat)
}

/// Whether some identity in the table holds `name`.
pub open spec fn has_name(m: Map<u16, Seq<char>>, name: Seq<char>) -> bool {
    exists|id: u16| m.contains_key(id) && m[id] == name
}

/// No two identities hold the same name.
pub open spec fn names_unique(m: Map<u16, Seq<char>>) -> bool {
    forall|i: u16, j: u16|
        m.contains_key(i) && m.contains_key(j) && m[i] == m[j] ==> i == j
}

/// Every slot between an entry's hash and the entry itself is occupied,
/// so a probe that starts at the hash walks all the way to the entry.
pub open spec fn entry_reachable(m: Map<u16, Seq<char>>, id: u16) -> bool {
    forall|k: u16|
        #[trigger] dist(fnv1a_hash_16(m[id]), k) < dist(fnv1a_hash_16(m[id]), id)
            ==> m.contains_key(k)
}

/// The registry's shape invariant: names are unique, and every entry is
/// reachable by probing from its own name's hash.
pub open spec fn registry_inv(m: Map<u16, Seq<char>>) -> bool {
    &&& names_unique(m)
    &&& forall|id: u16| m.contains_key(id) ==> #[trigger] entry_reachable(m, id)
}

proof fn lemma_probe_duplicate_hit(m: Map<u16, Seq<char>>, name: Seq<char>, h: u16, fuel: nat)
    ensures
        match probe(m, name, h, fuel) {
            ProbeOutcome::Duplicate(id) => m.contains_key(id) && m[id] == name,
            ProbeOutcome::Free(f) => !m.contains_key(f),
            ProbeOutcome::Exhausted => true,
        },
    decreases fuel,
{
    if m.contains_key(h) && m[h] != name && fuel > 0 {
        lemma_probe_duplicate_hit(m, name, wrap_inc(h), (fuel - 1) as nat);
    }
}

proof fn lemma_probe_free_path(m: Map<u16, Seq<char>>, name: Seq<char>, h: u16, fuel: nat, f: u16)
    requires
        probe(m, name, h, fuel) == ProbeOutcome::Free(f),
    ensures
        !m.contains_key(f),
        dist(h, f) <= fuel,
        forall|k: u16| #[trigger] dist(h, k) < dist(h, f) ==> m.contains_key(k) && m[k] != name,
    decreases fuel,
{
    if !m.contains_key(h) {
        assert(f == h);
    } else {
        let h2 = wrap_inc(h);
        lemma_probe_free_path(m, name, h2, (fuel - 1) as nat, f);
        lemma_dist_step(h, f);
        assert forall|k: u16| #[trigger] dist(h, k) < dist(h, f) implies m.contains_key(k) && m[k]
            != name by {
            if k != h {
                lemma_dist_step(h, k);
                assert(dist(h2, k) < dist(h2, f));
            }
        }
    }
}

proof fn lemma_probe_finds_registered(
    m: Map<u16, Seq<char>>,
    name: Seq<char>,
    h: u16,
    fuel: nat,
    id: u16,
)
    requires
        m.contains_key(id),
        m[id] == name,
        names_unique(m),
        forall|k: u16| #[trigger] dist(h, k) < dist(h, id) ==> m.contains_key(k),
        fuel >= dist(h, id),
    ensures
        probe(m, name, h, fuel) == ProbeOutcome::Duplicate(id),
    decreases dist(h, id),
{
    if h == id {
    } else {
        lemma_dist_step(h, id);
        assert(dist(h, h) < dist(h, id));
        assert(m.contains_key(h));
        assert(m[h] != name);
        let h2 = wrap_inc(h);
        assert forall|k: u16| #[trigger] dist(h2, k) < dist(h2, id) implies m.contains_key(k) by {
            if k == h {
                assert(dist(h, h) < dist(h, id));
            } else {
                lemma_dist_step(h, k);
                assert(dist(h, k) < dist(h, id));
            }
        }
        lemma_probe_finds_registered(m, name, h2, (fuel - 1) as nat, id);
    }
}

proof fn lemma_probe_exhausted_all_occupied(
    m: Map<u16, Seq<char>>,
    name: Seq<char>,
    h: u16,
    fuel: nat,
)
    requires
        probe(m, name, h, fuel) == ProbeOutcome::Exhausted,
    ensures
        forall|k: u16| dist(h, k) <= fuel ==> m.contains_key(k),
    decreases fuel,
{
    if fuel > 0 {
        let h2 = wrap_inc(h);
        lemma_probe_exhausted_all_occupied(m, name, h2, (fuel - 1) as nat);
        assert forall|k: u16| dist(h, k) <= fuel implies m.contains_key(k) by {
            if k != h {
                lemma_dist_step(h, k);
                assert(dist(h2, k) <= fuel - 1);
            }
        }
    }
}

/// Law: a name that is already registered is found again: in a well-shaped
/// table, probing for a registered name always ends at the occupied slot
/// that holds it, never at a free slot — so a duplicate registration is
/// always detected.
pub proof fn lemma_duplicate_is_found(m: Map<u16, Seq<char>>, name: Seq<char>)
    requires
        registry_inv(m),
        has_name(m, name),
    ensures
        probe_from_hash(m, name) matches ProbeOutcome::Duplicate(id) && m[id] == name,
{
    let id = choose|id: u16| m.contains_key(id) && m[id] == name;
    assert(entry_reachable(m, id));
    lemma_probe_finds_registered(m, name, fnv1a_hash_16(name), 0xFFFF as nat, id);
}

/// Law: inserting a name at the slot its probe found keeps the registry
/// well-shaped; in particular the probe never lands a second copy of an
/// already-registered name (no data loss on hash collision).
pub proof fn lemma_insert_preserves_inv(m: Map<u16, Seq<char>>, name: Seq<char>, f: u16)
    requires
        registry_inv(m),
        probe_from_hash(m, name) == ProbeOutcome::Free(f),
    ensures
        !m.contains_key(f),
        !has_name(m, name),
        registry_inv(m.insert(f, name)),
{
    let h0 = fnv1a_hash_16(name);
    lemma_probe_free_path(m, name, h0, 0xFFFF as nat, f);
    if has_name(m, name) {
        lemma_duplicate_is_found(m, name);
        assert(false);
    }
    let m2 = m.insert(f, name);
    assert forall|i: u16, j: u16|
        m2.contains_key(i) && m2.contains_key(j) && m2[i] == m2[j] implies i == j by {
        if i == f && j != f {
            assert(m.contains_key(j) && m[j] == name);
        } else if i != f && j == f {
            assert(m.contains_key(i) && m[i] == name);
        }
    }
    assert forall|id: u16| m2.contains_key(id) implies #[trigger] entry_reachable(m2, id) by {
        if id == f {
            assert forall|k: u16|
                #[trigger] dist(fnv1a_hash_16(m2[id]), k) < dist(fnv1a_hash_16(m2[id]), id)
                implies m2.contains_key(k) by {
                assert(dist(h0, k) < dist(h0, f));
                assert(m.contains_key(k));
            }
        } else {
            assert(entry_reachable(m, id));
            assert(m2[id] == m[id]);
            assert forall|k: u16|
                #[trigger] dist(fnv1a_hash_16(m2[id]), k) < dist(fnv1a_hash_16(m2[id]), id)
                implies m2.contains_key(k) by {
                assert(dist(fnv1a_hash_16(m[id]), k) < dist(fnv1a_hash_16(m[id]), id));
                assert(m.contains_key(k));
            }
        }
    }
}

/// Law: after a successful registration, the assigned identity resolves to
/// the registered name.
pub proof fn lemma_register_then_resolve(m: Map<u16, Seq<char>>, name: Seq<char>, id: u16)
    requires
        probe_from_hash(m, name) == ProbeOutcome::Free(id),
    ensures
        m.insert(id, name).contains_key(id),
        m.insert(id, name)[id] == name,
{
}

/// Law: registering two different names in turn — even names with the same
/// hash — yields two distinct identities, and both names stay resolvable.
pub proof fn lemma_collision_keeps_both(
    m: Map<u16, Seq<char>>,
    n1: Seq<char>,
    n2: Seq<char>,
    i1: u16,
    i2: u16,
)
    requires
        n1 != n2,
        probe_from_hash(m, n1) == ProbeOutcome::Free(i1),
        probe_from_hash(m.insert(i1, n1), n2) == ProbeOutcome::Free(i2),
    ensures
        i1 != i2,
        m.insert(i1, n1).insert(i2, n2)[i1] == n1,
        m.insert(i1, n1).insert(i2, n2)[i2] == n2,
{
    lemma_probe_free_path(m.insert(i1, n1), n2, fnv1a_hash_16(n2), 0xFFFF as nat, i2);
    assert(m.insert(i1, n1).contains_key(i1));
}

/// The names of a table, each as its character sequence.
pub open spec fn names_view(names: Seq<String>) -> Seq<Seq<char>> {
    names.map_values(|s: String| s@)
}

/// The table as a map, built entry by entry.
pub open spec fn map_of(keys: Seq<u16>, vals: Seq<Seq<char>>) -> Map<u16, Seq<char>>
    decreases keys.len(),
{
    if keys.len() == 0 {
        Map::empty()
    } else {
        map_of(keys.drop_last(), vals.drop_last()).insert(keys.last(), vals.last())
    }
}

proof fn lemma_map_of_contains(keys: Seq<u16>, vals: Seq<Seq<char>>, k: u16)
    requires
        keys.len() == vals.len(),
    ensures
        map_of(keys, vals).contains_key(k) == keys.contains(k),
    decreases keys.len(),
{
    if keys.len() == 0 {
        assert(!keys.contains(k));
    } else {
        let kp = keys.drop_last();
        let vp = vals.drop_last();
        lemma_map_of_contains(kp, vp, k);
        if k == keys.last() {
            assert(keys[keys.len() - 1] == k);
            assert(keys.contains(k));
        } else {
            if kp.contains(k) {
                let t = choose|t: int| 0 <= t < kp.len() && kp[t] == k;
                assert(keys[t] == k);
                assert(keys.contains(k));
            }
            if keys.contains(k) {
                let t = choose|t: int| 0 <= t < keys.len() && keys[t] == k;
                assert(t < keys.len() - 1);
                assert(kp[t] == k);
                assert(kp.contains(k));
            }
        }
    }
}

proof fn lemma_map_of_lookup(keys: Seq<u16>, vals: Seq<Seq<char>>, t: int)
    requires
        keys.len() == vals.len(),
        forall|i: int, j: int| 0 <= i < j < keys.len() ==> keys[i] != keys[j],
        0 <= t < keys.len(),
    ensures
        map_of(keys, vals).contains_key(keys[t]),
        map_of(keys, vals)[keys[t]] == vals[t],
    decreases keys.len(),
{
    let kp = keys.drop_last();
    let vp = vals.drop_last();
    if t == keys.len() - 1 {
        assert(keys[t] == keys.last());
        assert(vals[t] == vals.last());
    } else {
        lemma_map_of_lookup(kp, vp, t);
        assert(kp[t] == keys[t]);
        assert(vp[t] == vals[t]);
        assert(keys[t] != keys.last());
    }
}

/// Why a registration was refused.
#[derive(Clone, Copy, Debug, PartialEq, Eq, Structural)]
pub enum RegistryError {
    /// The same name was registered before: each module registers exactly
    /// once, under a globally-unique name.
    DuplicateModule,
    /// Every 16-bit identity is taken.
    RegistryFull,
}

/// A module's registered 16-bit identity.
#[derive(Clone, Copy, Debug)]
pub struct RModule(u16);

impl RModule {
    /// The numeric identity.
    pub closed spec fn id(&self) -> u16 {
        self.0
    }

    pub fn module_id(&self) -> (r: u16)
        ensures
            r == self.id(),
    {
        self.0
    }
}

/// The table of registered modules: identities and their names.
pub struct ModuleRegistry {
    keys: Vec<u16>,
    names: Vec<String>,
}

impl View for ModuleRegistry {
    type V = Map<u16, Seq<char>>;

    closed spec fn view(&self) -> Map<u16, Seq<char>> {
        map_of(self.keys@, names_view(self.names@))
    }
}

impl ModuleRegistry {
    pub closed spec fn wf(&self) -> bool {
        &&& self.keys@.len() == self.names@.len()
        &&& forall|i: int, j: int| 0 <= i < j < self.keys@.len() ==> self.keys@[i] != self.keys@[j]
        &&& registry_inv(self@)
    }

    /// An empty registry.
    pub fn new() -> (r: Self)
        ensures
            r.wf(),
            r@ == Map::<u16, Seq<char>>::empty(),
    {
        let r = ModuleRegistry { keys: Vec::new(), names: Vec::new() };
        proof {
            assert(r@ =~= Map::<u16, Seq<char>>::empty());
        }
        r
    }

    fn find_index(&self, id: u16) -> (r: Option<usize>)
        requires
            self.wf(),
        ensures
            match r {
                Some(i) => i < self.names@.len() && self@.contains_key(id) && self@[id]
                    == self.names@[i as int]@,
                None => !self@.contains_key(id),
            },
    {
        proof {
            assert forall|k: u16| self@.contains_key(k) == self.keys@.contains(k) by {
                lemma_map_of_contains(self.keys@, names_view(self.names@), k);
            }
            assert forall|t: int|
                0 <= t < self.keys@.len() implies self@.contains_key(self.keys@[t])
                && self@[self.keys@[t]] == names_view(self.names@)[t] by {
                lemma_map_of_lookup(self.keys@, names_view(self.names@), t);
            }
        }
        let n = self.keys.len();
        for i in 0..n
            invariant
                n == self.keys@.len(),
                self.keys@.len() == self.names@.len(),
                forall|j: int| 0 <= j < i ==> self.keys@[j] != id,
                forall|k: u16| self@.contains_key(k) == self.keys@.contains(k),
                forall|t: int|
                    0 <= t < self.keys@.len() ==> self@.contains_key(self.keys@[t]) && self@[self.keys@[t]]
                        == names_view(self.names@)[t],
        {
            if self.keys[i] == id {
                proof {
                    assert(self.keys@[i as int] == id);
                    assert(self.keys@.contains(id));
                    assert(names_view(self.names@)[i as int] == self.names@[i as int]@);
                }
                return Some(i);
            }
        }
        proof {
            if self@.contains_key(id) {
                let j = choose|j: int| 0 <= j < self.keys@.len() && self.keys@[j] == id;
                assert(false);
            }
        }
        None
    }

    /// Looks the identity's name up; every identity handed out by
    /// `register` stays resolvable for the registry's whole life.
    pub fn resolve(&self, module_id: u16) -> (r: &String)
        requires
            self.wf(),
            self@.contains_key(module_id),
        ensures
            r@ == self@[module_id],
    {
        match self.find_index(module_id) {
            Some(i) => &self.names[i],
            None => unreached(),
        }
    }

    fn run_probe(&self, name: &str, h0: u16) -> (r: ProbeOutcome)
        requires
            self.wf(),
        ensures
            r == probe(self@, name@, h0, 0xFFFF as nat),
    {
        let mut h = h0;
        let mut steps: u32 = 0;
        loop
            invariant
                self.wf(),
                steps <= 0xFFFF,
                probe(self@, name@, h0, 0xFFFF as nat) == probe(
                    self@,
                    name@,
                    h,
                    (0xFFFF - steps) as nat,
                ),
            decreases 0xFFFF - steps,
        {
            match self.find_index(h) {
                None => {
                    return ProbeOutcome::Free(h);
                },
                Some(i) => {
                    if str_eq(self.names[i].as_str(), name) {
                        return ProbeOutcome::Duplicate(h);
                    }
                    if steps == 0xFFFF {
                        return ProbeOutcome::Exhausted;
                    }
                    h = if h == 0xFFFF {
                        0
                    } else {
                        h + 1
                    };
                    steps = steps + 1;
                },
            }
        }
    }

    /// Registers `name`, assigning it a fresh identity seeded by its hash:
    /// the first free slot along the wrapping probe path.  A name may be
    /// registered only once; a second registration of the same name is
    /// refused, whoever holds its slot.
    pub fn register(&mut self, name: &str) -> (r: Result<RModule, RegistryError>)
        requires
            old(self).wf(),
        ensures
            final(self).wf(),
            match r {
                Ok(module) => {
                    &&& !has_name(old(self)@, name@)
                    &&& probe_from_hash(old(self)@, name@) == ProbeOutcome::Free(module.id())
                    &&& !old(self)@.contains_key(module.id())
                    &&& final(self)@ == old(self)@.insert(module.id(), name@)
                },
                Err(RegistryError::DuplicateModule) => has_name(old(self)@, name@) && final(self)@
                    == old(self)@,
                Err(RegistryError::RegistryFull) => !has_name(old(self)@, name@) && (forall|
                    k: u16,
                | old(self)@.contains_key(k)) && final(self)@ == old(self)@,
            },
    {
        let h0 = hash_module_name(name);
        match self.run_probe(name, h0) {
            ProbeOutcome::Free(id) => {
                proof {
                    lemma_insert_preserves_inv(self@, name@, id);
                    lemma_map_of_contains(self.keys@, names_view(self.names@), id);
                    assert(!self.keys@.contains(id));
                }
                let ghost old_keys = self.keys@;
                let ghost old_vals = names_view(self.names@);
                let ghost old_map = self@;
                self.keys.push(id);
                self.names.push(String::from_str(name));
                proof {
                    assert(names_view(self.names@) =~= old_vals.push(name@));
                    assert(self.keys@.drop_last() =~= old_keys);
                    assert(names_view(self.names@).drop_last() =~= old_vals);
                    assert(self.keys@.last() == id);
                    assert(self@ == old_map.insert(id, name@));
                    assert forall|i: int, j: int|
                        0 <= i < j < self.keys@.len() implies self.keys@[i] != self.keys@[j] by {
                        if j == self.keys@.len() - 1 {
                            assert(old_keys[i] == self.keys@[i]);
                            if self.keys@[i] == id {
                                assert(old_keys.contains(id));
                            }
                        } else {
                            assert(old_keys[i] == self.keys@[i]);
                            assert(old_keys[j] == self.keys@[j]);
                        }
                    }
                }
                Ok(RModule(id))
            },
            ProbeOutcome::Duplicate(d) => {
                proof {
                    lemma_probe_duplicate_hit(self@, name@, h0, 0xFFFF as nat);
                    assert(self@.contains_key(d) && self@[d] == name@);
                }
                Err(RegistryError::DuplicateModule)
            },
            ProbeOutcome::Exhausted => {
                proof {
                    if has_name(self@, name@) {
                        lemma_duplicate_is_found(self@, name@);
                        assert(false);
                    }
                    lemma_probe_exhausted_all_occupied(self@, name@, h0, 0xFFFF as nat);
                    assert forall|k: u16| self@.contains_key(k) by {
                        assert(dist(h0, k) <= 0xFFFF);
                    }
                }
                Err(RegistryError::RegistryFull)
            },
        }
    }
}

} // verus!
