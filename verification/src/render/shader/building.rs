use crate::shader::lines::{linefy, Lines};
use crate::text::{decimal, push_decimal, push_str};
use vstd::prelude::*;

verus! {

broadcast use vstd::string::group_string_axioms;

/// One field line of a generated struct.
pub open spec fn field_line(prefix: Seq<char>, name: Seq<char>, wgsl_type: Seq<char>) -> Seq<char> {
    prefix + name + ": "@ + wgsl_type + ","@
}

/// Whether `line` is the field line of `name: wgsl_type` at position `i`,
/// prefixed by what `var_prefix` gives for `i`.
pub open spec fn prefixed_field<F: Fn(u8) -> String>(
    var_prefix: F,
    i: int,
    line: Seq<char>,
    name: Seq<char>,
    wgsl_type: Seq<char>,
) -> bool {
    exists|p: String| #[trigger] var_prefix.ensures((i as u8,), p) && line == field_line(p@, name, wgsl_type)
}

/// A WGSL struct named `name`: the lines of `default_vars` first, then one
/// field per entry of `vars`, each named by the prefix that `var_prefix`
/// gives for its position followed by the entry's name.
pub fn gen_struct<F: Fn(u8) -> String>(
    vars: &[(String, String)],
    name: String,
    default_vars: Lines,
    var_prefix: F,
) -> (r: Lines)
    requires
        vars@.len() <= 255,
        forall|i: u8| var_prefix.requires((i,)),
    ensures
        r@.len() == default_vars@.len() + vars@.len() + 3,
        r@[0] == "struct "@ + name@,
        r@[1] == "{"@,
        r@.subrange(2, 2 + default_vars@.len() as int) == default_vars@,
        r@[r@.len() - 1] == "}"@,
        forall|i: int|
            0 <= i < vars@.len() ==> prefixed_field(
                var_prefix,
                i,
                #[trigger] r@[2 + default_vars@.len() + i],
                vars@[i].0@,
                vars@[i].1@,
            ),
{
    let mut header = String::from_str("struct ");
    push_str(&mut header, name.as_str());
    let mut fields = Lines::new();
    let mut k: usize = 0;
    while k < vars.len()
        invariant
            k <= vars@.len() <= 255,
            forall|i: u8| var_prefix.requires((i,)),
            fields@.len() == k,
            forall|i: int|
                0 <= i < k ==> prefixed_field(var_prefix, i, #[trigger] fields@[i], vars@[i].0@, vars@[i].1@),
        decreases vars@.len() - k,
    {
        let position: u8 = k as u8;
        let mut line = var_prefix(position);
        let ghost p = line;
        push_str(&mut line, vars[k].0.as_str());
        push_str(&mut line, ": ");
        push_str(&mut line, vars[k].1.as_str());
        push_str(&mut line, ",");
        let ghost old_fields = fields@;
        fields = fields.add(line);
        proof {
            assert(k as int as u8 == position);
            assert(fields@[k as int] =~= field_line(p@, vars@[k as int].0@, vars@[k as int].1@));
            assert(var_prefix.ensures((k as int as u8,), p));
            assert(prefixed_field(var_prefix, k as int, fields@[k as int], vars@[k as int].0@, vars@[k as int].1@));
            assert forall|i: int| 0 <= i < k implies fields@[i] == old_fields[i] by {}
        }
        k = k + 1;
    }
    let ghost dv = default_vars@;
    let ghost fv = fields@;
    let body = default_vars.merge(fields);
    let r = Lines::from_line(header).block(body);
    assert(r@.subrange(2, 2 + dv.len() as int) =~= dv);
    assert forall|i: int| 0 <= i < vars@.len() implies r@[2 + dv.len() + i] == fv[i] by {}
    r
}

/// The fragment stage of a shader whose distance function is bound at
/// `binding`.
pub open spec fn fragment_stage(binding: u32) -> Seq<Seq<char>> {
    seq!["@fragment fn fragment(input: VertexOut) -> @location(0) vec4<f32>"@, "{"@,
        "let result = calc_sdf"@ + decimal(binding as nat) + "(input.sdf_index, input.world_position);"@]
        + linefy(alpha_source()) + seq!["}"@]
}

/// The WGSL source that turns a distance into coverage.
pub open spec fn alpha_source() -> Seq<char> {
    "let alpha = smoothstep(0.0, 1.0, -result.distance); return vec4(result.color, alpha);"@
}

/// The WGSL source of the result and vertex structs of a single shape kind's
/// shader.
pub open spec fn structs_source() -> Seq<char> {
    "#import bevy_sprite::mesh2d_functions::mesh2d_position_world_to_clip as world_to_clip; struct SdfResult { distance: f32, color: vec3<f32>, } struct VertexIn { @builtin(vertex_index) index: u32, @location(0) size: vec2<f32>, @location(1) translation: vec2<f32>, @location(2) sdf_index: u32, } struct VertexOut { @builtin(position) position: vec4<f32>, @location(0) world_position: vec2<f32>, @location(1) sdf_index: u32, }"@
}

/// The WGSL source of the vertex stage of a single shape kind's shader.
pub open spec fn vertex_source() -> Seq<char> {
    "@vertex fn vertex(input: VertexIn) -> VertexOut { let vertex_x = f32(input.index & 0x1u) - 0.5; let vertex_y = f32((input.index & 0x2u) >> 1u) - 0.5; let vertex_direction = vec2<f32>(vertex_x, vertex_y); var out: VertexOut; out.world_position = vertex_direction * input.size * 2.0; out.world_position += input.translation; out.position = world_to_clip(vec4(out.world_position, 0.0, 1.0)); out.sdf_index = input.sdf_index; return out; }"@
}

/// Builds the shader of the shape kind bound at `binding`.
pub struct SdfShaderBuilder {
    pub binding: u32,
}

impl SdfShaderBuilder {
    /// A builder for the shape kind bound at `binding`.
    pub fn new(binding: u32) -> (r: Self)
        ensures
            r.binding == binding,
    {
        SdfShaderBuilder { binding }
    }

    /// The result and vertex structs.
    pub fn gen_structs(&self) -> (r: Lines)
        ensures
            r@ == linefy(structs_source()),
    {
        Lines::from_linefy(String::from_str("#import bevy_sprite::mesh2d_functions::mesh2d_position_world_to_clip as world_to_clip; struct SdfResult { distance: f32, color: vec3<f32>, } struct VertexIn { @builtin(vertex_index) index: u32, @location(0) size: vec2<f32>, @location(1) translation: vec2<f32>, @location(2) sdf_index: u32, } struct VertexOut { @builtin(position) position: vec4<f32>, @location(0) world_position: vec2<f32>, @location(1) sdf_index: u32, }"))
    }

    /// The vertex stage: a quad of twice the instance's size around its
    /// translation.
    pub fn gen_vertex_shader(&self) -> (r: Lines)
        ensures
            r@ == linefy(vertex_source()),
    {
        Lines::from_linefy(String::from_str("@vertex fn vertex(input: VertexIn) -> VertexOut { let vertex_x = f32(input.index & 0x1u) - 0.5; let vertex_y = f32((input.index & 0x2u) >> 1u) - 0.5; let vertex_direction = vec2<f32>(vertex_x, vertex_y); var out: VertexOut; out.world_position = vertex_direction * input.size * 2.0; out.world_position += input.translation; out.position = world_to_clip(vec4(out.world_position, 0.0, 1.0)); out.sdf_index = input.sdf_index; return out; }"))
    }

    /// The fragment stage: calls the distance function of this builder's
    /// binding and turns the distance into alpha.
    pub fn gen_fragment_shader(&self) -> (r: Lines)
        ensures
            r@ == fragment_stage(self.binding),
    {
        let mut call = String::from_str("let result = calc_sdf");
        push_decimal(&mut call, self.binding as u64);
        push_str(&mut call, "(input.sdf_index, input.world_position);");
        let alpha = Lines::from_linefy(String::from_str("let alpha = smoothstep(0.0, 1.0, -result.distance); return vec4(result.color, alpha);"));
        let body = Lines::from_line(call).merge(alpha);
        let r = Lines::from_line(String::from_str("@fragment fn fragment(input: VertexOut) -> @location(0) vec4<f32>")).block(body);
        assert(r@ =~= fragment_stage(self.binding));
        r
    }
}

} // verus!
