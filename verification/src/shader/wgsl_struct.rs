use crate::text::push_str;
use vstd::prelude::*;

verus! {

broadcast use vstd::string::group_string_axioms;

/// The WGSL name registered for a Rust type, under the type's id.
pub struct WgslTypeInfo {
    pub name: &'static str,
}

/// A field of a reflected struct: its name and the id of its type.
pub struct FieldInfo {
    pub name: String,
    pub type_id: u64,
}

/// The WGSL names of the registered Rust types.
pub struct WgslTypeInfos(pub Vec<(u64, WgslTypeInfo)>);

/// The WGSL name registered first under `id`.
pub open spec fn wgsl_name_of(types: Seq<(u64, WgslTypeInfo)>, id: u64) -> &'static str {
    types[choose|k: int| 0 <= k < types.len() && types[k].0 == id
        && forall|j: int| 0 <= j < k ==> types[j].0 != id].1.name
}

/// When `id` occurs at `w`, it has a first occurrence.
pub proof fn lemma_first_match(types: Seq<(u64, WgslTypeInfo)>, id: u64, w: int)
    requires
        0 <= w < types.len(),
        types[w].0 == id,
    ensures
        exists|c: int| 0 <= c < types.len() && types[c].0 == id
            && forall|j: int| 0 <= j < c ==> types[j].0 != id,
    decreases w,
{
    if exists|j: int| 0 <= j < w && types[j].0 == id {
        let j = choose|j: int| 0 <= j < w && types[j].0 == id;
        lemma_first_match(types, id, j);
    } else {
        assert(forall|j: int| 0 <= j < w ==> types[j].0 != id);
    }
}

/// Whether a WGSL name is registered under `id`.
pub open spec fn type_known(types: Seq<(u64, WgslTypeInfo)>, id: u64) -> bool {
    exists|k: int| 0 <= k < types.len() && types[k].0 == id
}

/// The field lines of a struct.
pub open spec fn field_lines(types: Seq<(u64, WgslTypeInfo)>, fields: Seq<FieldInfo>) -> Seq<char>
    decreases fields.len(),
{
    if fields.len() == 0 {
        Seq::empty()
    } else {
        field_lines(types, fields.drop_last()) + "    "@ + fields.last().name@ + ": "@
            + wgsl_name_of(types, fields.last().type_id)@ + ",\n"@
    }
}

/// The WGSL definition of a struct.
pub open spec fn struct_text(types: Seq<(u64, WgslTypeInfo)>, fields: Seq<FieldInfo>, name: Seq<char>) -> Seq<char> {
    "struct "@ + name + " {\n"@ + field_lines(types, fields) + "}\n"@
}

impl WgslTypeInfos {
    /// No type registered.
    pub fn new() -> (r: Self)
        ensures
            r.0@ == Seq::<(u64, WgslTypeInfo)>::empty(),
    {
        WgslTypeInfos(Vec::new())
    }

    /// Registers `name` as the WGSL name of the type `id`, replacing an
    /// earlier registration of `id`.
    pub fn register(&mut self, id: u64, name: &'static str)
        ensures
            type_known(final(self).0@, id),
            wgsl_name_of(final(self).0@, id) == name,
            forall|other: u64| other != id ==> (#[trigger] type_known(final(self).0@, other)) == type_known(old(self).0@, other)
                && (type_known(old(self).0@, other) ==> wgsl_name_of(final(self).0@, other) == wgsl_name_of(old(self).0@, other)),
    {
        let mut k: usize = 0;
        while k < self.0.len()
            invariant
                k <= self.0@.len(),
                self.0@ == old(self).0@,
                forall|j: int| 0 <= j < k ==> self.0@[j].0 != id,
            decreases self.0@.len() - k,
        {
            if self.0[k].0 == id {
                self.0.set(k, (id, WgslTypeInfo { name }));
                proof {
                    let s1 = old(self).0@;
                    let s2 = self.0@;
                    assert(s2[k as int].0 == id);
                    let c = choose|c: int| 0 <= c < s2.len() && s2[c].0 == id
                        && forall|j: int| 0 <= j < c ==> s2[j].0 != id;
                    assert(0 <= k < s2.len() && s2[k as int].0 == id && forall|j: int| 0 <= j < k ==> s2[j].0 != id);
                    assert(c == k) by {
                        if c > k { assert(s2[k as int].0 != id); }
                    }
                    assert forall|other: u64| other != id implies (#[trigger] type_known(s2, other)) == type_known(s1, other)
                        && (type_known(s1, other) ==> wgsl_name_of(s2, other) == wgsl_name_of(s1, other)) by {
                        if type_known(s1, other) {
                            let w = choose|w: int| 0 <= w < s1.len() && s1[w].0 == other;
                            assert(w != k);
                            assert(s2[w].0 == other);
                            let c1 = choose|c: int| 0 <= c < s1.len() && s1[c].0 == other
                                && forall|j: int| 0 <= j < c ==> s1[j].0 != other;
                            assert(exists|c: int| 0 <= c < s1.len() && s1[c].0 == other
                                && forall|j: int| 0 <= j < c ==> s1[j].0 != other) by {
                                lemma_first_match(s1, other, w);
                            }
                            let c2 = choose|c: int| 0 <= c < s2.len() && s2[c].0 == other
                                && forall|j: int| 0 <= j < c ==> s2[j].0 != other;
                            assert(0 <= c1 < s2.len() && s2[c1].0 == other && forall|j: int| 0 <= j < c1 ==> s2[j].0 != other) by {
                                assert(c1 != k);
                                assert forall|j: int| 0 <= j < c1 implies s2[j].0 != other by {
                                    if j != k { assert(s2[j] == s1[j]); }
                                }
                            }
                            assert(c1 == c2) by {
                                if c1 < c2 { assert(s2[c1].0 != other); }
                                if c2 < c1 { assert(s1[c2].0 != other) by { if c2 != k { assert(s2[c2] == s1[c2]); } } }
                            }
                        }
                        if type_known(s2, other) {
                            let w = choose|w: int| 0 <= w < s2.len() && s2[w].0 == other;
                            assert(w != k);
                            assert(s1[w].0 == other);
                        }
                    }
                }
                return;
            }
            k = k + 1;
        }
        self.0.push((id, WgslTypeInfo { name }));
        proof {
            let s1 = old(self).0@;
            let s2 = self.0@;
            let n = s1.len();
            assert(s2[n as int].0 == id && forall|j: int| 0 <= j < n ==> s2[j].0 != id);
            let c = choose|c: int| 0 <= c < s2.len() && s2[c].0 == id
                && forall|j: int| 0 <= j < c ==> s2[j].0 != id;
            assert(c == n) by { if c < n { assert(s2[c] == s1[c]); } }
            assert forall|other: u64| other != id implies (#[trigger] type_known(s2, other)) == type_known(s1, other)
                && (type_known(s1, other) ==> wgsl_name_of(s2, other) == wgsl_name_of(s1, other)) by {
                if type_known(s1, other) {
                    let w = choose|w: int| 0 <= w < s1.len() && s1[w].0 == other;
                    assert(s2[w] == s1[w]);
                    lemma_first_match(s1, other, w);
                    let c1 = choose|c: int| 0 <= c < s1.len() && s1[c].0 == other
                        && forall|j: int| 0 <= j < c ==> s1[j].0 != other;
                    let c2 = choose|c: int| 0 <= c < s2.len() && s2[c].0 == other
                        && forall|j: int| 0 <= j < c ==> s2[j].0 != other;
                    assert(s2[c1] == s1[c1]);
                    assert(forall|j: int| 0 <= j < c1 ==> s2[j] == s1[j]);
                    assert(c1 == c2) by {
                        if c1 < c2 { assert(s2[c1].0 != other); }
                        if c2 < c1 { assert(s2[c2] == s1[c2]); }
                    }
                }
                if type_known(s2, other) {
                    let w = choose|w: int| 0 <= w < s2.len() && s2[w].0 == other;
                    assert(w < n);
                    assert(s1[w] == s2[w]);
                }
            }
        }
    }

    /// The WGSL name of the type `id`.
    pub fn get(&self, id: u64) -> (r: Option<&'static str>)
        ensures
            r == (if type_known(self.0@, id) { Some(wgsl_name_of(self.0@, id)) } else { None::<&'static str> }),
    {
        let mut k: usize = 0;
        while k < self.0.len()
            invariant
                k <= self.0@.len(),
                forall|j: int| 0 <= j < k ==> self.0@[j].0 != id,
            decreases self.0@.len() - k,
        {
            if self.0[k].0 == id {
                let ghost c = choose|c: int| 0 <= c < self.0@.len() && self.0@[c].0 == id
                    && forall|j: int| 0 <= j < c ==> self.0@[j].0 != id;
                assert(0 <= k < self.0@.len() && self.0@[k as int].0 == id
                    && forall|j: int| 0 <= j < k ==> self.0@[j].0 != id);
                assert(c == k) by {
                    if c < k {
                    } else if c > k {
                        assert(self.0@[k as int].0 != id);
                    }
                }
                return Some(self.0[k].1.name);
            }
            k = k + 1;
        }
        None
    }

    /// The WGSL definition of a struct with the given fields.
    pub fn structure_to_wgsl(&self, fields: &Vec<FieldInfo>, name: &str) -> (r: String)
        requires
            forall|k: int| 0 <= k < fields@.len() ==> type_known(self.0@, (#[trigger] fields@[k]).type_id),
        ensures
            r@ == struct_text(self.0@, fields@, name@),
    {
        let mut vars = String::new();
        let mut k: usize = 0;
        while k < fields.len()
            invariant
                k <= fields@.len(),
                forall|m: int| 0 <= m < fields@.len() ==> type_known(self.0@, (#[trigger] fields@[m]).type_id),
                vars@ == field_lines(self.0@, fields@.take(k as int)),
            decreases fields@.len() - k,
        {
            assert(fields@.take(k + 1).drop_last() =~= fields@.take(k as int));
            let wgsl = self.get(fields[k].type_id);
            let wgsl_name = match wgsl {
                Some(n) => n,
                None => "",
            };
            push_str(&mut vars, "    ");
            push_str(&mut vars, fields[k].name.as_str());
            push_str(&mut vars, ": ");
            push_str(&mut vars, wgsl_name);
            push_str(&mut vars, ",\n");
            k = k + 1;
            assert(vars@ =~= field_lines(self.0@, fields@.take(k as int)));
        }
        assert(fields@.take(fields@.len() as int) =~= fields@);
        let mut r = String::from_str("struct ");
        push_str(&mut r, name);
        push_str(&mut r, " {\n");
        push_str(&mut r, vars.as_str());
        push_str(&mut r, "}\n");
        r
    }
}

} // verus!
