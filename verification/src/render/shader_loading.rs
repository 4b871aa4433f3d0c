use crate::render::shader::buffers::{extend_bytes, lemma_padding_aligns, pad_bytes, padding};
use crate::render::shader::loading::{all_loaded, dense_bindings, SdfShaderRegister};
use vstd::prelude::*;
use vstd::std_specs::hash::group_hash_axioms;

verus! {

/// The alignment the render buffer gives a value of `size` bytes: sixteen
/// for a three-float vector, its size otherwise.
pub open spec fn render_align(size: u8) -> u8 {
    if size == 12 { 16 } else { size }
}

/// A value pushed into a render buffer is aligned to its own size, except a
/// three-float vector (12 bytes), which is aligned to 16: for sizes that
/// divide 256 or for 12 bytes, the padding is shorter than that alignment
/// and brings the length to a multiple of it.
pub proof fn lemma_render_push_alignment(len: nat, size: u8)
    requires
        size > 0,
        size == 12 || 256int % (size as int) == 0,
    ensures
        size == 12 ==> render_align(size) == 16,
        size != 12 ==> render_align(size) == size,
        ((len + padding(len, render_align(size)).len()) as int) % (render_align(size) as int) == 0,
        padding(len, render_align(size)).len() < render_align(size),
{
    let a = render_align(size);
    assert(256int % (a as int) == 0);
    lemma_padding_aligns(len, a);
    let rem = (len % 256) % (a as nat);
    assert(rem < a);
}

/// A shape's render data bytes, each value aligned by its size.
pub struct SdfRenderBuffer {
    pub align: u8,
    pub bytes: Vec<u8>,
}

impl SdfRenderBuffer {
    /// An empty buffer.
    pub fn new() -> (r: Self)
        ensures
            r.align == 0,
            r.bytes@ == Seq::<u8>::empty(),
    {
        SdfRenderBuffer { align: 0, bytes: Vec::new() }
    }

    /// Appends a value's bytes after padding to the alignment its size asks
    /// for (its length counted modulo 256, as an `as u8` conversion counts it).
    pub fn push(&mut self, value: &[u8])
        requires
            (value@.len() % 256) != 0,
        ensures
            final(self).align == if old(self).align < render_align((value@.len() % 256) as u8) {
                render_align((value@.len() % 256) as u8)
            } else {
                old(self).align
            },
            final(self).bytes@ == old(self).bytes@ + padding(old(self).bytes@.len(), render_align((value@.len() % 256) as u8)) + value@,
    {
        let size = (value.len() % 256) as u8;
        let align = if size == 12 { 16 } else { size };
        self.align = if self.align < align { align } else { self.align };
        pad_bytes(&mut self.bytes, align);
        extend_bytes(&mut self.bytes, value);
    }

    /// The bytes, padded to the largest alignment pushed.
    pub fn bytes(&mut self) -> (r: Vec<u8>)
        requires
            old(self).align > 0,
        ensures
            final(self).bytes@ == old(self).bytes@ + padding(old(self).bytes@.len(), old(self).align),
            final(self).align == old(self).align,
            r@ == final(self).bytes@,
    {
        pad_bytes(&mut self.bytes, self.align);
        self.bytes.clone()
    }

    /// Drops the bytes, keeping the alignment.
    pub fn clear(&mut self)
        ensures
            final(self).bytes@ == Seq::<u8>::empty(),
            final(self).align == old(self).align,
    {
        self.bytes.clear();
    }
}

/// Gives shape kind `flag` the next free binding when it has none yet,
/// returning that binding so its calculation can be built.
pub fn start_calculation_build_if_not_registered(register: &mut SdfShaderRegister, flag: u64) -> (r: Option<u32>)
    requires
        dense_bindings(old(register).bindings@),
        !old(register).bindings@.contains_key(flag) ==> old(register).bindings@.dom().len() < u32::MAX,
    ensures
        dense_bindings(final(register).bindings@),
        final(register).pipelines@ == old(register).pipelines@,
        final(register).loaded_calcs@ == old(register).loaded_calcs@,
        old(register).bindings@.contains_key(flag) ==> r is None && final(register).bindings@ == old(register).bindings@,
        !old(register).bindings@.contains_key(flag) ==> r == Some(old(register).bindings@.dom().len() as u32)
            && final(register).bindings@ == old(register).bindings@.insert(flag, old(register).bindings@.dom().len() as u32),
{
    broadcast use group_hash_axioms;
    if register.bindings.contains_key(&flag) {
        None
    } else {
        let r = register.register_key(flag, false);
        Some(r.binding)
    }
}

/// The bindings whose calculations a new shader for `key` combines: those
/// of its operations, then its own. `None`, with nothing changed, when a
/// shader for `key` was already generated or one of the calculations is not
/// loaded yet; otherwise `key` is marked as generated.
pub fn shader_bindings_for_new_key(
    register: &mut SdfShaderRegister,
    key: u64,
    operation_bindings: &Vec<u32>,
    binding: u32,
) -> (r: Option<Vec<u32>>)
    ensures
        final(register).bindings@ == old(register).bindings@,
        final(register).loaded_calcs@ == old(register).loaded_calcs@,
        (!old(register).pipelines@.contains(key) && all_loaded(old(register).loaded_calcs@, operation_bindings@.push(binding)))
            ==> r is Some && r->0@ == operation_bindings@.push(binding) && final(register).pipelines@ == old(register).pipelines@.insert(key),
        !(!old(register).pipelines@.contains(key) && all_loaded(old(register).loaded_calcs@, operation_bindings@.push(binding)))
            ==> r is None && final(register).pipelines@ == old(register).pipelines@,
{
    broadcast use group_hash_axioms;
    if register.pipelines.contains(&key) {
        return None;
    }
    let mut chain: Vec<u32> = Vec::new();
    let mut i: usize = 0;
    while i < operation_bindings.len()
        invariant
            i <= operation_bindings@.len(),
            chain@ == operation_bindings@.take(i as int),
            all_loaded(register.loaded_calcs@, chain@),
        decreases operation_bindings@.len() - i,
    {
        let b = operation_bindings[i];
        if !register.loaded_calcs.contains_key(&b) {
            proof {
                assert(operation_bindings@.push(binding)[i as int] == b);
            }
            return None;
        }
        chain.push(b);
        i = i + 1;
        assert(chain@ =~= operation_bindings@.take(i as int));
    }
    if !register.loaded_calcs.contains_key(&binding) {
        proof {
            assert(operation_bindings@.push(binding)[operation_bindings@.len() as int] == binding);
        }
        return None;
    }
    chain.push(binding);
    assert(chain@ =~= operation_bindings@.push(binding));
    register.pipelines.insert(key);
    Some(chain)
}

} // verus!
