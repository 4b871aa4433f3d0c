use vstd::prelude::*;

verus! {

/// The little-endian bytes of `x`.
pub open spec fn le_bytes(x: u32) -> Seq<u8> {
    seq![(x & 0xff) as u8, ((x >> 8) & 0xff) as u8, ((x >> 16) & 0xff) as u8, ((x >> 24) & 0xff) as u8]
}

/// The in-memory bytes of a `u32` (`bytemuck::bytes_of`): its little-endian
/// bytes on a little-endian machine, reversed on a big-endian one.
#[verifier::external_body]
pub(crate) fn u32_bytes(value: &u32) -> (r: Vec<u8>)
    ensures
        r@ == le_bytes(*value) || r@ == le_bytes(*value).reverse(),
{
    bytemuck::bytes_of(value).to_vec()
}

/// The plain types a storage buffer holds, by how they are laid out.
#[derive(Debug, Clone, Copy, PartialEq, Eq, Structural)]
pub enum StorageBufferType {
    F32,
    U32,
    I32,
    Vec2,
    Vec3,
    Vec4,
    Mat2,
    Mat4,
}

/// The alignment of a type in a storage buffer.
pub open spec fn type_align(t: StorageBufferType) -> u8 {
    match t {
        StorageBufferType::F32 | StorageBufferType::U32 | StorageBufferType::I32 => 4,
        StorageBufferType::Vec2 | StorageBufferType::Mat2 => 8,
        StorageBufferType::Vec3 | StorageBufferType::Vec4 | StorageBufferType::Mat4 => 16,
    }
}

/// The size in bytes of a type in a storage buffer.
pub open spec fn type_size(t: StorageBufferType) -> u8 {
    match t {
        StorageBufferType::F32 | StorageBufferType::U32 | StorageBufferType::I32 => 4,
        StorageBufferType::Vec2 => 8,
        StorageBufferType::Vec3 => 12,
        StorageBufferType::Vec4 | StorageBufferType::Mat2 => 16,
        StorageBufferType::Mat4 => 64,
    }
}

/// The WGSL name of a type.
pub open spec fn type_wgsl_name(t: StorageBufferType) -> &'static str {
    match t {
        StorageBufferType::F32 => "f32",
        StorageBufferType::U32 => "u32",
        StorageBufferType::I32 => "i32",
        StorageBufferType::Vec2 => "vec2<f32>",
        StorageBufferType::Vec3 => "vec3<f32>",
        StorageBufferType::Vec4 => "vec4<f32>",
        StorageBufferType::Mat2 => "mat2x2<f32>",
        StorageBufferType::Mat4 => "mat4x4<f32>",
    }
}

impl StorageBufferType {
    /// The alignment of the type.
    pub fn align(&self) -> (r: u8)
        ensures
            r == type_align(*self),
    {
        match self {
            StorageBufferType::F32 | StorageBufferType::U32 | StorageBufferType::I32 => 4,
            StorageBufferType::Vec2 | StorageBufferType::Mat2 => 8,
            StorageBufferType::Vec3 | StorageBufferType::Vec4 | StorageBufferType::Mat4 => 16,
        }
    }

    /// The size in bytes of the type.
    pub fn size(&self) -> (r: u8)
        ensures
            r == type_size(*self),
    {
        match self {
            StorageBufferType::F32 | StorageBufferType::U32 | StorageBufferType::I32 => 4,
            StorageBufferType::Vec2 => 8,
            StorageBufferType::Vec3 => 12,
            StorageBufferType::Vec4 | StorageBufferType::Mat2 => 16,
            StorageBufferType::Mat4 => 64,
        }
    }

    /// The WGSL name of the type.
    pub fn wgsl_type_name(&self) -> (r: &'static str)
        ensures
            r == type_wgsl_name(*self),
    {
        match self {
            StorageBufferType::F32 => "f32",
            StorageBufferType::U32 => "u32",
            StorageBufferType::I32 => "i32",
            StorageBufferType::Vec2 => "vec2<f32>",
            StorageBufferType::Vec3 => "vec3<f32>",
            StorageBufferType::Vec4 => "vec4<f32>",
            StorageBufferType::Mat2 => "mat2x2<f32>",
            StorageBufferType::Mat4 => "mat4x4<f32>",
        }
    }
}

/// The filler written to align a buffer of `len` bytes to `align`: the bytes
/// `0, 1, 2, ...` up to the next multiple (the length counted modulo 256, as
/// an `as u8` conversion counts it).
pub open spec fn padding(len: nat, align: u8) -> Seq<u8> {
    let rem = (len % 256) % (align as nat);
    if rem != 0 {
        Seq::new((align - rem) as nat, |i: int| i as u8)
    } else {
        Seq::empty()
    }
}

/// Appends the padding for `align` to `bytes`.
pub fn pad_bytes(bytes: &mut Vec<u8>, align: u8)
    requires
        align > 0,
    ensures
        final(bytes)@ == old(bytes)@ + padding(old(bytes)@.len(), align),
{
    let len = (bytes.len() % 256) as u8;
    let remaining = len % align;
    if remaining != 0 {
        let count = align - remaining;
        let mut b: u8 = 0;
        while b < count
            invariant
                b <= count,
                count == align - remaining,
                bytes@ == old(bytes)@ + Seq::new(b as nat, |i: int| i as u8),
            decreases count - b,
        {
            bytes.push(b);
            b = b + 1;
            assert(bytes@ =~= old(bytes)@ + Seq::new(b as nat, |i: int| i as u8));
        }
    } else {
        assert(bytes@ =~= old(bytes)@ + padding(old(bytes)@.len(), align));
    }
}

/// Appends `more` to `bytes`.
pub fn extend_bytes(bytes: &mut Vec<u8>, more: &[u8])
    ensures
        final(bytes)@ == old(bytes)@ + more@,
{
    let mut k: usize = 0;
    while k < more.len()
        invariant
            k <= more@.len(),
            bytes@ == old(bytes)@ + more@.take(k as int),
        decreases more@.len() - k,
    {
        bytes.push(more[k]);
        k = k + 1;
        assert(bytes@ =~= old(bytes)@ + more@.take(k as int));
    }
    assert(more@.take(more@.len() as int) =~= more@);
}

/// Padding a buffer to an alignment that divides 256 leaves its length a
/// multiple of that alignment, so every value pushed starts aligned.
pub proof fn lemma_padding_aligns(len: nat, align: u8)
    requires
        align > 0,
        256int % (align as int) == 0,
    ensures
        ((len + padding(len, align).len()) as int) % (align as int) == 0,
{
    let a = align as int;
    let l = len as int;
    assert((l % 256) % a == l % a) by (nonlinear_arith)
        requires a > 0, 256int % a == 0, l >= 0;
    let rem = (len % 256) % (align as nat);
    if rem != 0 {
        assert(padding(len, align).len() == a - l % a);
        assert((l + (a - l % a)) % a == 0) by (nonlinear_arith)
            requires a > 0, l >= 0;
    } else {
        assert(padding(len, align).len() == 0);
    }
}

/// The bytes of a shape's storage data: values laid out one after another,
/// each aligned to its type's alignment, the whole padded to the largest one.
pub struct SdfStorageBuffer {
    pub max_align: u8,
    pub bytes: Vec<u8>,
}

impl SdfStorageBuffer {
    /// An empty buffer.
    pub fn new() -> (r: Self)
        ensures
            r.max_align == 0,
            r.bytes@ == Seq::<u8>::empty(),
    {
        SdfStorageBuffer { max_align: 0, bytes: Vec::new() }
    }

    /// Appends a value's bytes after padding to its alignment.
    pub fn push(&mut self, value: &[u8], align: u8)
        requires
            align > 0,
            256int % (align as int) == 0,
        ensures
            final(self).max_align == if old(self).max_align < align { align } else { old(self).max_align },
            final(self).bytes@ == old(self).bytes@ + padding(old(self).bytes@.len(), align) + value@,
            ((old(self).bytes@.len() + padding(old(self).bytes@.len(), align).len()) as int) % (align as int) == 0,
    {
        proof {
            lemma_padding_aligns(self.bytes@.len(), align);
        }
        self.max_align = if self.max_align < align { align } else { self.max_align };
        pad_bytes(&mut self.bytes, align);
        extend_bytes(&mut self.bytes, value);
    }

    /// Appends the bytes of a value of type `t`, aligned as the type is.
    pub fn push_typed(&mut self, t: StorageBufferType, value: &[u8])
        requires
            value@.len() == type_size(t),
        ensures
            final(self).max_align == if old(self).max_align < type_align(t) { type_align(t) } else { old(self).max_align },
            final(self).bytes@ == old(self).bytes@ + padding(old(self).bytes@.len(), type_align(t)) + value@,
    {
        let align = t.align();
        self.push(value, align);
    }

    /// Appends a `u32` (alignment four).
    pub fn push_u32(&mut self, value: u32)
        ensures
            final(self).max_align == if old(self).max_align < 4 { 4u8 } else { old(self).max_align },
            final(self).bytes@ == old(self).bytes@ + padding(old(self).bytes@.len(), 4) + le_bytes(value)
                || final(self).bytes@ == old(self).bytes@ + padding(old(self).bytes@.len(), 4) + le_bytes(value).reverse(),
    {
        let bytes = u32_bytes(&value);
        self.push(bytes.as_slice(), 4);
    }

    /// The bytes, padded to the largest alignment pushed.
    pub fn bytes(&mut self) -> (r: Vec<u8>)
        requires
            old(self).max_align > 0,
            256int % (old(self).max_align as int) == 0,
        ensures
            (final(self).bytes@.len() as int) % (old(self).max_align as int) == 0,
            final(self).bytes@ == old(self).bytes@ + padding(old(self).bytes@.len(), old(self).max_align),
            final(self).max_align == old(self).max_align,
            r@ == final(self).bytes@,
    {
        proof {
            lemma_padding_aligns(self.bytes@.len(), self.max_align);
        }
        pad_bytes(&mut self.bytes, self.max_align);
        self.bytes.clone()
    }
}

/// The number of times `b` occurs among the first `n` bindings.
pub open spec fn occurrences_u32(bindings: Seq<u32>, b: u32, n: int) -> nat
    decreases n,
{
    if n <= 0 {
        0
    } else {
        occurrences_u32(bindings, b, n - 1) + if bindings[n - 1] == b { 1nat } else { 0nat }
    }
}

/// Numbers the items of each binding in order: each item gets the count of
/// earlier items with the same binding.
pub fn assign_variant_indices(bindings: &Vec<u32>, total_bindings: usize) -> (r: Vec<u32>)
    requires
        forall|k: int| 0 <= k < bindings@.len() ==> (#[trigger] bindings@[k] as int) < total_bindings,
        bindings@.len() <= u32::MAX,
    ensures
        r@.len() == bindings@.len(),
        forall|k: int| 0 <= k < bindings@.len() ==> (#[trigger] r@[k]) == occurrences_u32(bindings@, bindings@[k], k),
{
    let mut counts: Vec<u32> = Vec::new();
    let mut b: usize = 0;
    while b < total_bindings
        invariant
            b <= total_bindings,
            counts@.len() == b,
            forall|j: int| 0 <= j < b ==> counts@[j] == 0,
        decreases total_bindings - b,
    {
        counts.push(0);
        b = b + 1;
    }
    let mut r: Vec<u32> = Vec::new();
    let mut k: usize = 0;
    while k < bindings.len()
        invariant
            k <= bindings@.len(),
            bindings@.len() <= u32::MAX,
            counts@.len() == total_bindings,
            forall|m: int| 0 <= m < bindings@.len() ==> (#[trigger] bindings@[m] as int) < total_bindings,
            forall|c: int| 0 <= c < total_bindings && c <= u32::MAX ==> (#[trigger] counts@[c]) == occurrences_u32(bindings@, c as u32, k as int),
            r@.len() == k,
            forall|m: int| 0 <= m < k ==> (#[trigger] r@[m]) == occurrences_u32(bindings@, bindings@[m], m),
        decreases bindings@.len() - k,
    {
        let bind = bindings[k] as usize;
        let current = counts[bind];
        assert(current as nat <= k) by {
            lemma_occurrences_u32_bound(bindings@, bindings@[k as int], k as int);
        }
        r.push(current);
        counts.set(bind, current + 1);
        k = k + 1;
    }
    r
}

/// An item occurs at most `n` times among `n` items.
pub proof fn lemma_occurrences_u32_bound(bindings: Seq<u32>, b: u32, n: int)
    requires
        n >= 0,
    ensures
        occurrences_u32(bindings, b, n) <= n,
    decreases n,
{
    if n > 0 {
        lemma_occurrences_u32_bound(bindings, b, n - 1);
    }
}

} // verus!
