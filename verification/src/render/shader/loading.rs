use crate::render::shader::variants::SdfCalculationBuilder;
use crate::sorting::{dedup, unique_u32};
use std::collections::{HashMap, HashSet};
use vstd::prelude::*;
use vstd::std_specs::hash::group_hash_axioms;

verus! {

/// What the register decided for an entity's pipeline key.
#[derive(Debug, Clone, Copy, PartialEq, Eq, Structural)]
pub struct KeyRegistration {
    /// The binding of the key's shape kind.
    pub binding: u32,
    /// The key is rendered and its pipeline has to be built.
    pub new_pipeline: bool,
    /// The key's shape kind is new and its calculation has to be built.
    pub new_renderable: bool,
}

/// Why no bind group could be built for a new pipeline.
#[derive(Debug, Clone, Copy, PartialEq, Eq, Structural)]
pub enum BindGroupError {
    /// The entity no longer exists or has no bindings.
    EntityGone,
    /// A binding has no buffer.
    BindingOutOfBounds,
    /// A binding's buffer was never written.
    BufferNotWritten,
    /// The pipeline has no specialization.
    NoSpecialization,
}

/// The keys, bindings and loaded calculations the renderer knows.
pub struct SdfShaderRegister {
    pub bindings: HashMap<u64, u32>,
    pub pipelines: HashSet<u64>,
    pub loaded_calcs: HashMap<u32, SdfCalculationBuilder>,
}

/// The bindings of `m` are distinct and below its number of keys.
pub open spec fn dense_bindings(m: Map<u64, u32>) -> bool {
    &&& m.dom().finite()
    &&& forall|f: u64| #[trigger] m.contains_key(f) ==> m[f] < m.dom().len()
    &&& forall|f: u64, g: u64| m.contains_key(f) && m.contains_key(g) && f != g ==> #[trigger] m[f] != #[trigger] m[g]
}

/// Whether every binding of `bindings` has a loaded calculation.
pub open spec fn all_loaded(loaded: Map<u32, SdfCalculationBuilder>, bindings: Seq<u32>) -> bool {
    forall|i: int| 0 <= i < bindings.len() ==> loaded.contains_key(#[trigger] bindings[i])
}

/// The first binding in `bindings` at which building a bind group fails,
/// given which buffers exist and which were written.
pub open spec fn first_buffer_error(bindings: Seq<u32>, written: Seq<bool>) -> Option<BindGroupError>
    decreases bindings.len(),
{
    if bindings.len() == 0 {
        None
    } else {
        match first_buffer_error(bindings.drop_last(), written) {
            Some(e) => Some(e),
            None => if bindings.last() >= written.len() {
                Some(BindGroupError::BindingOutOfBounds)
            } else if !written[bindings.last() as int] {
                Some(BindGroupError::BufferNotWritten)
            } else {
                None
            },
        }
    }
}

impl SdfShaderRegister {
    /// Nothing registered.
    pub fn new() -> (r: Self)
        ensures
            r.bindings@ == Map::<u64, u32>::empty(),
            r.pipelines@ == Set::<u64>::empty(),
            r.loaded_calcs@ == Map::<u32, SdfCalculationBuilder>::empty(),
    {
        SdfShaderRegister { bindings: HashMap::new(), pipelines: HashSet::new(), loaded_calcs: HashMap::new() }
    }

    /// Registers the pipeline key of an entity: a rendered key seen for the
    /// first time needs its pipeline built, and a key without a binding gets
    /// the next free one and needs its calculation built.
    pub fn register_key(&mut self, key: u64, renders: bool) -> (r: KeyRegistration)
        requires
            dense_bindings(old(self).bindings@),
            !old(self).bindings@.contains_key(key) ==> old(self).bindings@.dom().len() < u32::MAX,
        ensures
            dense_bindings(final(self).bindings@),
            final(self).loaded_calcs@ == old(self).loaded_calcs@,
            r.new_pipeline == (renders && !old(self).pipelines@.contains(key)),
            final(self).pipelines@ == if renders { old(self).pipelines@.insert(key) } else { old(self).pipelines@ },
            old(self).bindings@.contains_key(key) ==> r.binding == old(self).bindings@[key] && !r.new_renderable
                && final(self).bindings@ == old(self).bindings@,
            !old(self).bindings@.contains_key(key) ==> r.binding == old(self).bindings@.dom().len() && r.new_renderable
                && final(self).bindings@ == old(self).bindings@.insert(key, old(self).bindings@.dom().len() as u32),
    {
        broadcast use group_hash_axioms;
        let mut new_pipeline = false;
        if renders && !self.pipelines.contains(&key) {
            self.pipelines.insert(key);
            new_pipeline = true;
        }
        proof {
            if renders {
                assert(self.pipelines@ =~= old(self).pipelines@.insert(key));
            }
        }
        match self.bindings.get(&key) {
            Some(b) => KeyRegistration { binding: *b, new_pipeline, new_renderable: false },
            None => {
                let n = self.bindings.len() as u32;
                let ghost m0 = self.bindings@;
                self.bindings.insert(key, n);
                proof {
                    let m1 = self.bindings@;
                    assert(m1.dom() =~= m0.dom().insert(key));
                    assert(m1.dom().len() == m0.dom().len() + 1);
                    assert forall|f: u64| #[trigger] m1.contains_key(f) implies m1[f] < m1.dom().len() by {
                        if f != key { assert(m0.contains_key(f)); }
                    }
                    assert forall|f: u64, g: u64| m1.contains_key(f) && m1.contains_key(g) && f != g implies #[trigger] m1[f] != #[trigger] m1[g] by {
                        if f != key && g != key {
                            assert(m0[f] != m0[g]);
                        } else if f == key {
                            assert(m0.contains_key(g));
                        } else {
                            assert(m0.contains_key(f));
                        }
                    }
                }
                KeyRegistration { binding: n, new_pipeline, new_renderable: true }
            },
        }
    }

    /// Keeps the calculation built for `binding`, replacing any earlier one.
    pub fn load_calculation(&mut self, binding: u32, calculation: SdfCalculationBuilder)
        ensures
            final(self).loaded_calcs@ == old(self).loaded_calcs@.insert(binding, calculation),
            final(self).bindings@ == old(self).bindings@,
            final(self).pipelines@ == old(self).pipelines@,
    {
        broadcast use group_hash_axioms;
        self.loaded_calcs.insert(binding, calculation);
    }

    /// The distinct bindings a new shader combines, in order of first
    /// occurrence, or `None` when one of them has no loaded calculation.
    pub fn shader_bindings(&self, bindings: &Vec<u32>) -> (r: Option<Vec<u32>>)
        ensures
            all_loaded(self.loaded_calcs@, bindings@) ==> r is Some && r->0@ == dedup(bindings@),
            !all_loaded(self.loaded_calcs@, bindings@) ==> r is None,
    {
        broadcast use group_hash_axioms;
        let unique = unique_u32(bindings);
        proof {
            lemma_dedup_items(bindings@);
        }
        let mut i: usize = 0;
        while i < unique.len()
            invariant
                i <= unique@.len(),
                unique@ == dedup(bindings@),
                forall|x: u32| bindings@.contains(x) <==> unique@.contains(x),
                forall|k: int| 0 <= k < i ==> self.loaded_calcs@.contains_key(#[trigger] unique@[k]),
            decreases unique@.len() - i,
        {
            if !self.loaded_calcs.contains_key(&unique[i]) {
                proof {
                    let x = unique@[i as int];
                    assert(unique@.contains(x));
                    let j = choose|j: int| 0 <= j < bindings@.len() && bindings@[j] == x;
                    assert(!self.loaded_calcs@.contains_key(bindings@[j]));
                }
                return None;
            }
            i = i + 1;
        }
        proof {
            assert forall|j: int| 0 <= j < bindings@.len() implies self.loaded_calcs@.contains_key(#[trigger] bindings@[j]) by {
                assert(bindings@.contains(bindings@[j]));
                assert(unique@.contains(bindings@[j]));
            }
        }
        Some(unique)
    }
}

/// The items of `dedup(s)` are those of `s`.
pub proof fn lemma_dedup_items(s: Seq<u32>)
    ensures
        forall|x: u32| s.contains(x) <==> dedup(s).contains(x),
    decreases s.len(),
{
    if s.len() > 0 {
        let prev = s.drop_last();
        let last = s.last();
        lemma_dedup_items(prev);
        let d = dedup(prev);
        assert(s =~= prev.push(last));
        assert forall|x: u32| s.contains(x) <==> (prev.contains(x) || x == last) by {
            if s.contains(x) {
                let j = choose|j: int| 0 <= j < s.len() && s[j] == x;
                if j < s.len() - 1 {
                    assert(prev[j] == x);
                }
            }
            if prev.contains(x) {
                let j = choose|j: int| 0 <= j < prev.len() && prev[j] == x;
                assert(s[j] == x);
            }
            if x == last {
                assert(s[s.len() - 1] == x);
            }
        }
        assert forall|x: u32| d.push(last).contains(x) <==> (d.contains(x) || x == last) by {
            if d.push(last).contains(x) {
                let j = choose|j: int| 0 <= j < d.push(last).len() && d.push(last)[j] == x;
                if j < d.len() {
                    assert(d[j] == x);
                }
            }
            if d.contains(x) {
                let j = choose|j: int| 0 <= j < d.len() && d[j] == x;
                assert(d.push(last)[j] == x);
            }
            if x == last {
                assert(d.push(last)[d.len() as int] == x);
            }
        }
    }
}

/// The bindings of a new pipeline's bind group: its entity's distinct
/// bindings in order of first occurrence, each of which must have a written
/// buffer, and the pipeline must have been specialized. The first failure
/// in that order is the error.
pub fn bindgroup_bindings(
    entity_bindings: Option<&Vec<u32>>,
    written: &Vec<bool>,
    has_specialization: bool,
) -> (r: Result<Vec<u32>, BindGroupError>)
    ensures
        entity_bindings is None ==> r == Err::<Vec<u32>, BindGroupError>(BindGroupError::EntityGone),
        entity_bindings matches Some(b) ==> match first_buffer_error(dedup(b@), written@) {
            Some(e) => r == Err::<Vec<u32>, BindGroupError>(e),
            None => if has_specialization {
                r is Ok && r->Ok_0@ == dedup(b@)
            } else {
                r == Err::<Vec<u32>, BindGroupError>(BindGroupError::NoSpecialization)
            },
        },
{
    let bindings = match entity_bindings {
        None => return Err(BindGroupError::EntityGone),
        Some(b) => b,
    };
    let unique = unique_u32(bindings);
    let mut i: usize = 0;
    while i < unique.len()
        invariant
            i <= unique@.len(),
            unique@ == dedup(bindings@),
            entity_bindings == Some(bindings),
            first_buffer_error(unique@.take(i as int), written@) is None,
        decreases unique@.len() - i,
    {
        proof {
            assert(unique@.take(i + 1).drop_last() =~= unique@.take(i as int));
        }
        let b = unique[i];
        if b as usize >= written.len() {
            proof {
                assert(unique@ == dedup(bindings@)); assert(first_buffer_error(unique@.take(i + 1), written@) == Some(BindGroupError::BindingOutOfBounds)); lemma_first_error_prefix(unique@, written@, i + 1); }
            return Err(BindGroupError::BindingOutOfBounds);
        }
        if !written[b as usize] {
            proof {
                assert(unique@ == dedup(bindings@)); assert(first_buffer_error(unique@.take(i + 1), written@) == Some(BindGroupError::BufferNotWritten)); lemma_first_error_prefix(unique@, written@, i + 1); }
            return Err(BindGroupError::BufferNotWritten);
        }
        i = i + 1;
    }
    assert(unique@.take(unique@.len() as int) =~= unique@);
    if !has_specialization {
        return Err(BindGroupError::NoSpecialization);
    }
    Ok(unique)
}

/// An error found in a prefix is the error of the whole.
proof fn lemma_first_error_prefix(s: Seq<u32>, written: Seq<bool>, n: int)
    requires
        0 <= n <= s.len(),
        first_buffer_error(s.take(n), written) is Some,
    ensures
        first_buffer_error(s, written) == first_buffer_error(s.take(n), written),
    decreases s.len() - n,
{
    if n < s.len() {
        assert(s.take(n + 1).drop_last() =~= s.take(n));
        lemma_first_error_prefix(s, written, n + 1);
    } else {
        assert(s.take(n) =~= s);
    }
}

} // verus!
