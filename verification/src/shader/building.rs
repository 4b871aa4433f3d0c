use crate::flag::{bit_positions, lemma_bits_below_sorted, Flag};
use crate::shader::calculations::{
    calculations_written, distinct_ids, gen_calculations, order_of, registered, CalculationInfo,
    CalculationStructures,
};
use crate::sorting::{is_stable_order, sorted_positions_by_key};
use crate::shader::lines::{concat_lines, linefy, Lines};
use crate::text::{decimal, push_decimal, push_str};
use vstd::prelude::*;

verus! {

broadcast use vstd::string::group_string_axioms;

/// A field of a component's input struct: its name and WGSL type.
pub struct ShaderInput {
    pub name: String,
    pub wgsl_type: String,
}

impl ShaderInput {
    /// A copy of the field.
    pub fn duplicate(&self) -> (r: Self)
        ensures
            r.name@ == self.name@,
            r.wgsl_type@ == self.wgsl_type@,
    {
        ShaderInput { name: self.name.clone(), wgsl_type: self.wgsl_type.clone() }
    }
}

/// What a component adds to a shader: input fields, calculation steps and
/// helper functions.
pub struct CompShaderInfo {
    pub inputs: Vec<ShaderInput>,
    pub calculations: Vec<CalculationInfo>,
    pub snippets: Lines,
}

/// The components of a shape and the operations combining other shapes
/// into it: each operation's flag and the component flag of its operand.
pub struct SdfFlags {
    pub flag: Flag,
    pub operations: Vec<(Flag, Flag)>,
}

/// The component flags of a shape: its own, then those of its operands.
pub open spec fn comp_flags(flags: SdfFlags) -> Seq<Flag> {
    seq![flags.flag] + flags.operations@.map_values(|o: (Flag, Flag)| o.1)
}

impl SdfFlags {
    /// The component flags of the shape: its own, then those of its operands.
    pub fn iter_comps(&self) -> (r: Vec<Flag>)
        ensures
            r@ == comp_flags(*self),
    {
        let mut r: Vec<Flag> = Vec::new();
        r.push(self.flag);
        let mut k: usize = 0;
        while k < self.operations.len()
            invariant
                k <= self.operations@.len(),
                r@ == seq![self.flag] + self.operations@.take(k as int).map_values(|o: (Flag, Flag)| o.1),
            decreases self.operations@.len() - k,
        {
            r.push(self.operations[k].1);
            k = k + 1;
            assert(r@ =~= seq![self.flag] + self.operations@.take(k as int).map_values(|o: (Flag, Flag)| o.1));
        }
        assert(self.operations@.take(self.operations@.len() as int) =~= self.operations@);
        r
    }
}

/// Every component a flag names has shader information.
pub open spec fn flag_in_range(flag: Flag, n: nat) -> bool {
    forall|i: int| 0 <= i < bit_positions(flag.0).len() ==> (#[trigger] bit_positions(flag.0)[i] as int) < n
}

/// The input fields of the components at `ps`, as name and type.
pub open spec fn inputs_of(infos: Seq<CompShaderInfo>, ps: Seq<usize>) -> Seq<(Seq<char>, Seq<char>)>
    decreases ps.len(),
{
    if ps.len() == 0 {
        Seq::empty()
    } else {
        inputs_of(infos, ps.drop_last())
            + infos[ps.last() as int].inputs@.map_values(|i: ShaderInput| (i.name@, i.wgsl_type@))
    }
}

/// The input fields of the components a flag names, lowest component first.
pub fn gather_inputs(infos: &Vec<CompShaderInfo>, flag: Flag) -> (r: Vec<ShaderInput>)
    requires
        flag_in_range(flag, infos@.len()),
    ensures
        r@.map_values(|i: ShaderInput| (i.name@, i.wgsl_type@)) == inputs_of(infos@, bit_positions(flag.0)),
{
    let ps = flag.positions();
    let mut r: Vec<ShaderInput> = Vec::new();
    let mut k: usize = 0;
    while k < ps.len()
        invariant
            k <= ps@.len(),
            ps@ == bit_positions(flag.0),
            flag_in_range(flag, infos@.len()),
            r@.map_values(|i: ShaderInput| (i.name@, i.wgsl_type@)) == inputs_of(infos@, ps@.take(k as int)),
        decreases ps@.len() - k,
    {
        let info = &infos[ps[k]];
        assert(ps@.take(k + 1).drop_last() =~= ps@.take(k as int));
        let mut j: usize = 0;
        let ghost before = r@.map_values(|i: ShaderInput| (i.name@, i.wgsl_type@));
        while j < info.inputs.len()
            invariant
                j <= info.inputs@.len(),
                r@.map_values(|i: ShaderInput| (i.name@, i.wgsl_type@))
                    == before + info.inputs@.take(j as int).map_values(|i: ShaderInput| (i.name@, i.wgsl_type@)),
            decreases info.inputs@.len() - j,
        {
            let d = info.inputs[j].duplicate();
            let ghost prev = r@;
            r.push(d);
            assert(r@.map_values(|i: ShaderInput| (i.name@, i.wgsl_type@))
                =~= prev.map_values(|i: ShaderInput| (i.name@, i.wgsl_type@)).push((d.name@, d.wgsl_type@)));
            assert(info.inputs@.take(j + 1).map_values(|i: ShaderInput| (i.name@, i.wgsl_type@))
                =~= info.inputs@.take(j as int).map_values(|i: ShaderInput| (i.name@, i.wgsl_type@)).push((d.name@, d.wgsl_type@)));
            j = j + 1;
            assert(r@.map_values(|i: ShaderInput| (i.name@, i.wgsl_type@))
                =~= before + info.inputs@.take(j as int).map_values(|i: ShaderInput| (i.name@, i.wgsl_type@)));
        }
        assert(info.inputs@.take(info.inputs@.len() as int) =~= info.inputs@);
        k = k + 1;
    }
    assert(ps@.take(ps@.len() as int) =~= ps@);
    r
}

/// The storage binding line of a component combination's inputs.
pub open spec fn input_binding_line(flag: Flag, binding: usize) -> Seq<char> {
    "@group(1) @binding("@ + decimal(binding as nat) + ") var<storage, read> data"@ + decimal(flag.0 as nat)
        + ": array<SdfInput"@ + decimal(flag.0 as nat) + ">;"@
}

/// The declaration of a component combination's input buffer and struct.
pub open spec fn shader_input_lines(flag: Flag, binding: usize, inputs: Seq<(Seq<char>, Seq<char>)>) -> Seq<Seq<char>> {
    seq![input_binding_line(flag, binding), "struct SdfInput"@ + decimal(flag.0 as nat) + " {"@]
        + inputs.map_values(|i: (Seq<char>, Seq<char>)| i.0 + ":"@ + i.1 + ","@)
        + seq!["}"@]
}

/// Declares the input buffer at `binding` and the input struct of the
/// component combination `flag`.
pub fn gen_shader_input(flag: &Flag, binding: usize, inputs: &Vec<ShaderInput>) -> (r: Lines)
    ensures
        r@ == shader_input_lines(*flag, binding, inputs@.map_values(|i: ShaderInput| (i.name@, i.wgsl_type@))),
{
    let mut first = String::from_str("@group(1) @binding(");
    push_decimal(&mut first, binding as u64);
    push_str(&mut first, ") var<storage, read> data");
    push_decimal(&mut first, flag.0 as u64);
    push_str(&mut first, ": array<SdfInput");
    push_decimal(&mut first, flag.0 as u64);
    push_str(&mut first, ">;");
    let mut second = String::from_str("struct SdfInput");
    push_decimal(&mut second, flag.0 as u64);
    push_str(&mut second, " {");
    let mut out = Lines::new().add(first).add(second);
    let ghost fields = inputs@.map_values(|i: ShaderInput| (i.name@, i.wgsl_type@));
    let mut k: usize = 0;
    while k < inputs.len()
        invariant
            k <= inputs@.len(),
            fields == inputs@.map_values(|i: ShaderInput| (i.name@, i.wgsl_type@)),
            out@ == seq![input_binding_line(*flag, binding), "struct SdfInput"@ + decimal(flag.0 as nat) + " {"@]
                + fields.take(k as int).map_values(|i: (Seq<char>, Seq<char>)| i.0 + ":"@ + i.1 + ","@),
        decreases inputs@.len() - k,
    {
        let mut line = inputs[k].name.clone();
        push_str(&mut line, ":");
        push_str(&mut line, inputs[k].wgsl_type.as_str());
        push_str(&mut line, ",");
        out = out.add(line);
        k = k + 1;
        assert(out@ =~= seq![input_binding_line(*flag, binding), "struct SdfInput"@ + decimal(flag.0 as nat) + " {"@]
            + fields.take(k as int).map_values(|i: (Seq<char>, Seq<char>)| i.0 + ":"@ + i.1 + ","@));
    }
    assert(fields.take(inputs@.len() as int) =~= fields);
    let r = out.add(String::from_str("}"));
    assert(r@ =~= shader_input_lines(*flag, binding, fields));
    r
}

/// The input declarations of every non-empty component combination of a
/// shape, each with its binding.
pub open spec fn inputs_lines(flags: Seq<Flag>, bindings: Seq<usize>, infos: Seq<CompShaderInfo>) -> Seq<Seq<char>>
    decreases flags.len(),
{
    if flags.len() == 0 {
        Seq::empty()
    } else {
        let k = flags.len() - 1;
        inputs_lines(flags.drop_last(), bindings.drop_last(), infos) + if flags[k].0 == 0 {
            Seq::empty()
        } else {
            shader_input_lines(flags[k], bindings[k], inputs_of(infos, bit_positions(flags[k].0)))
        }
    }
}

/// The input declarations of a shape's component combinations; `bindings`
/// holds the binding of each combination in the order `iter_comps` gives.
pub fn gen_inputs(flags: &SdfFlags, bindings: &Vec<usize>, shader_infos: &Vec<CompShaderInfo>) -> (r: Lines)
    requires
        bindings@.len() == comp_flags(*flags).len(),
        forall|k: int| 0 <= k < comp_flags(*flags).len() ==> flag_in_range(#[trigger] comp_flags(*flags)[k], shader_infos@.len()),
    ensures
        r@ == inputs_lines(comp_flags(*flags), bindings@, shader_infos@),
{
    let comps = flags.iter_comps();
    let mut out = Lines::new();
    let mut k: usize = 0;
    while k < comps.len()
        invariant
            k <= comps@.len(),
            comps@ == comp_flags(*flags),
            bindings@.len() == comps@.len(),
            forall|m: int| 0 <= m < comps@.len() ==> flag_in_range(#[trigger] comps@[m], shader_infos@.len()),
            out@ == inputs_lines(comps@.take(k as int), bindings@.take(k as int), shader_infos@),
        decreases comps@.len() - k,
    {
        let flag = comps[k];
        assert(comps@.take(k + 1).drop_last() =~= comps@.take(k as int));
        assert(bindings@.take(k + 1).drop_last() =~= bindings@.take(k as int));
        if flag.is_empty() {
            assert(out@ =~= inputs_lines(comps@.take(k + 1), bindings@.take(k + 1), shader_infos@));
        } else {
            let inputs = gather_inputs(shader_infos, flag);
            let block = gen_shader_input(&flag, bindings[k], &inputs);
            out = out.merge(block);
            assert(out@ =~= inputs_lines(comps@.take(k + 1), bindings@.take(k + 1), shader_infos@));
        }
        k = k + 1;
    }
    assert(comps@.take(comps@.len() as int) =~= comps@);
    assert(bindings@.take(bindings@.len() as int) =~= bindings@);
    out
}

/// The calculation steps of the components at `ps`, component by component.
pub open spec fn calcs_of(infos: Seq<CompShaderInfo>, ps: Seq<usize>) -> Seq<CalculationInfo>
    decreases ps.len(),
{
    if ps.len() == 0 {
        Seq::empty()
    } else {
        calcs_of(infos, ps.drop_last()) + infos[ps.last() as int].calculations@
    }
}

/// The calculation steps of the components a flag names, lowest component first.
pub fn gather_calculations(infos: &Vec<CompShaderInfo>, flag: Flag) -> (r: Vec<CalculationInfo>)
    requires
        flag_in_range(flag, infos@.len()),
    ensures
        r@ == calcs_of(infos@, bit_positions(flag.0)),
{
    let ps = flag.positions();
    let mut r: Vec<CalculationInfo> = Vec::new();
    let mut k: usize = 0;
    while k < ps.len()
        invariant
            k <= ps@.len(),
            ps@ == bit_positions(flag.0),
            flag_in_range(flag, infos@.len()),
            r@ == calcs_of(infos@, ps@.take(k as int)),
        decreases ps@.len() - k,
    {
        let info = &infos[ps[k]];
        assert(ps@.take(k + 1).drop_last() =~= ps@.take(k as int));
        let ghost before = r@;
        let mut j: usize = 0;
        while j < info.calculations.len()
            invariant
                j <= info.calculations@.len(),
                r@ == before + info.calculations@.take(j as int),
            decreases info.calculations@.len() - j,
        {
            r.push(info.calculations[j].duplicate());
            j = j + 1;
            assert(r@ =~= before + info.calculations@.take(j as int));
        }
        assert(info.calculations@.take(info.calculations@.len() as int) =~= info.calculations@);
        k = k + 1;
    }
    assert(ps@.take(ps@.len() as int) =~= ps@);
    r
}

/// The helper functions of the components at `ps`, component by component.
pub open spec fn snippets_of(infos: Seq<CompShaderInfo>, ps: Seq<usize>) -> Seq<Seq<char>>
    decreases ps.len(),
{
    if ps.len() == 0 {
        Seq::empty()
    } else {
        snippets_of(infos, ps.drop_last()) + infos[ps.last() as int].snippets@
    }
}

/// The helper functions of the components a flag names, lowest component first.
pub fn gather_snippets(infos: &Vec<CompShaderInfo>, flag: Flag) -> (r: Lines)
    requires
        flag_in_range(flag, infos@.len()),
    ensures
        r@ == snippets_of(infos@, bit_positions(flag.0)),
{
    let ps = flag.positions();
    let mut r = Lines::new();
    let mut k: usize = 0;
    while k < ps.len()
        invariant
            k <= ps@.len(),
            ps@ == bit_positions(flag.0),
            flag_in_range(flag, infos@.len()),
            r@ == snippets_of(infos@, ps@.take(k as int)),
        decreases ps@.len() - k,
    {
        assert(ps@.take(k + 1).drop_last() =~= ps@.take(k as int));
        r = r.merge(infos[ps[k]].snippets.duplicate());
        k = k + 1;
    }
    assert(ps@.take(ps@.len() as int) =~= ps@);
    r
}

/// The header of the distance function of a component combination.
pub open spec fn sdf_function_header(flag: Flag) -> Seq<char> {
    "fn sdf"@ + decimal(flag.0 as nat) + "(index: u32, position: vec2<f32>) -> SdfResult"@
}

/// The distance function of a component combination around its calculation lines.
pub open spec fn sdf_function_lines(flag: Flag, calcs: Seq<Seq<char>>) -> Seq<Seq<char>> {
    seq![sdf_function_header(flag), "{"@, "let input = data"@ + decimal(flag.0 as nat) + "[index];"@,
        "var result: SdfResult;"@] + calcs + seq!["return result;"@, "}"@]
}

/// The distance function of the component combination `flag`: it reads the
/// combination's input and runs all of its calculation steps.
pub fn gen_sdf_function(flag: &Flag, calcs: &Vec<CalculationInfo>, structures: &CalculationStructures) -> (r: Lines)
    ensures
        exists|c: Seq<Seq<char>>| #[trigger] calculations_written(structures.0@, calcs@, true, c)
            && r@ == sdf_function_lines(*flag, c),
{
    let mut header = String::from_str("fn sdf");
    push_decimal(&mut header, flag.0 as u64);
    push_str(&mut header, "(index: u32, position: vec2<f32>) -> SdfResult");
    let mut input = String::from_str("let input = data");
    push_decimal(&mut input, flag.0 as u64);
    push_str(&mut input, "[index];");
    let calc_lines = gen_calculations(calcs, structures, true);
    let ghost c = calc_lines@;
    let body = Lines::new().add(input).add(String::from_str("var result: SdfResult;")).merge(calc_lines)
        .add(String::from_str("return result;"));
    let r = Lines::from_line(header).block(body);
    assert(r@ =~= sdf_function_lines(*flag, c));
    r
}

/// The distance functions of every non-empty component combination, given
/// the lines written for each one's calculations.
pub open spec fn sdf_functions_lines(flags: Seq<Flag>, calcs: Seq<Seq<Seq<char>>>) -> Seq<Seq<char>>
    decreases flags.len(),
{
    if flags.len() == 0 {
        Seq::empty()
    } else {
        let k = flags.len() - 1;
        sdf_functions_lines(flags.drop_last(), calcs.drop_last()) + if flags[k].0 == 0 {
            Seq::empty()
        } else {
            sdf_function_lines(flags[k], calcs[k])
        }
    }
}

/// `cs[k]` is what `gen_calculations` writes for the steps of the `k`-th
/// non-empty combination of `flags`.
pub open spec fn combination_calcs(
    flags: Seq<Flag>,
    infos: Seq<CompShaderInfo>,
    structs: Seq<(u64, crate::shader::calculations::CalculationStructure)>,
    cs: Seq<Seq<Seq<char>>>,
) -> bool {
    &&& cs.len() == flags.len()
    &&& forall|k: int| 0 <= k < flags.len() && flags[k].0 != 0 ==>
        calculations_written(structs, calcs_of(infos, bit_positions(flags[k].0)), true, #[trigger] cs[k])
}

/// The distance functions of a shape's non-empty component combinations.
pub fn gen_sdf_functions(flags: &SdfFlags, shader_infos: &Vec<CompShaderInfo>, structures: &CalculationStructures) -> (r: Lines)
    requires
        forall|k: int| 0 <= k < comp_flags(*flags).len() ==> flag_in_range(#[trigger] comp_flags(*flags)[k], shader_infos@.len()),
    ensures
        exists|cs: Seq<Seq<Seq<char>>>| #[trigger] combination_calcs(comp_flags(*flags), shader_infos@, structures.0@, cs)
            && r@ == sdf_functions_lines(comp_flags(*flags), cs),
{
    let comps = flags.iter_comps();
    let mut out = Lines::new();
    let ghost mut cs: Seq<Seq<Seq<char>>> = Seq::empty();
    let mut k: usize = 0;
    while k < comps.len()
        invariant
            k <= comps@.len(),
            comps@ == comp_flags(*flags),
            forall|m: int| 0 <= m < comps@.len() ==> flag_in_range(#[trigger] comps@[m], shader_infos@.len()),
            cs.len() == k,
            combination_calcs(comps@.take(k as int), shader_infos@, structures.0@, cs),
            out@ == sdf_functions_lines(comps@.take(k as int), cs),
        decreases comps@.len() - k,
    {
        let flag = comps[k];
        assert(comps@.take(k + 1).drop_last() =~= comps@.take(k as int));
        let ghost old_cs = cs;
        if flag.is_empty() {
            proof {
                cs = cs.push(Seq::empty());
                assert(cs.drop_last() =~= old_cs);
            }
        } else {
            let calcs = gather_calculations(shader_infos, flag);
            let f = gen_sdf_function(&flag, &calcs, structures);
            let ghost c = choose|c: Seq<Seq<char>>| #[trigger] calculations_written(structures.0@, calcs@, true, c)
                && f@ == sdf_function_lines(flag, c);
            out = out.merge(f);
            proof {
                cs = cs.push(c);
                assert(cs.drop_last() =~= old_cs);
            }
        }
        assert(combination_calcs(comps@.take(k + 1), shader_infos@, structures.0@, cs)) by {
            assert forall|m: int| 0 <= m < k + 1 && comps@.take(k + 1)[m].0 != 0 implies
                calculations_written(structures.0@, calcs_of(shader_infos@, bit_positions(comps@.take(k + 1)[m].0)), true, #[trigger] cs[m]) by {
                if m < k {
                    assert(comps@.take(k + 1)[m] == comps@.take(k as int)[m]);
                    assert(cs[m] == old_cs[m]);
                }
            }
        }
        assert(out@ =~= sdf_functions_lines(comps@.take(k + 1), cs));
        k = k + 1;
    }
    assert(comps@.take(comps@.len() as int) =~= comps@);
    out
}

/// The WGSL source of the result and vertex structs.
pub open spec fn structs_source() -> Seq<char> {
    "struct SdfResult { distance: f32, color: vec3<f32>, } struct VertexIn { @builtin(vertex_index) index: u32, @location(0) size: vec2<f32>, @location(1) translation: vec2<f32>, @location(2) data_index: u32, } struct VertexOut { @builtin(position) position: vec4<f32>, @location(0) world_position: vec2<f32>, @location(2) data_index: u32, }"@
}

/// The result and vertex structs of every shader.
pub fn gen_structs() -> (r: Lines)
    ensures
        r@ == linefy(structs_source()),
{
    Lines::from_linefy(String::from_str("struct SdfResult { distance: f32, color: vec3<f32>, } struct VertexIn { @builtin(vertex_index) index: u32, @location(0) size: vec2<f32>, @location(1) translation: vec2<f32>, @location(2) data_index: u32, } struct VertexOut { @builtin(position) position: vec4<f32>, @location(0) world_position: vec2<f32>, @location(2) data_index: u32, }"))
}

/// The WGSL source of the vertex stage.
pub open spec fn vertex_source() -> Seq<char> {
    "#import bevy_render::view::View; @group(0) @binding(0) var<uniform> view: View; @vertex fn vertex(input: VertexIn) -> VertexOut { let vertex_x = f32(input.index & 0x1u) - 0.5; let vertex_y = f32((input.index & 0x2u) >> 1u) - 0.5; let vertex_direction = vec2<f32>(vertex_x, vertex_y); var out: VertexOut; out.world_position = vertex_direction * input.size; out.world_position -= input.translation; out.position = view.clip_from_world * vec4(out.world_position, 0.0, 1.0); out.data_index = input.data_index; return out; }"@
}

/// The vertex stage of every shader: a quad around the shape.
pub fn gen_vertex_shader() -> (r: Lines)
    ensures
        r@ == linefy(vertex_source()),
{
    Lines::from_linefy(String::from_str("#import bevy_render::view::View; @group(0) @binding(0) var<uniform> view: View; @vertex fn vertex(input: VertexIn) -> VertexOut { let vertex_x = f32(input.index & 0x1u) - 0.5; let vertex_y = f32((input.index & 0x2u) >> 1u) - 0.5; let vertex_direction = vec2<f32>(vertex_x, vertex_y); var out: VertexOut; out.world_position = vertex_direction * input.size; out.world_position -= input.translation; out.position = view.clip_from_world * vec4(out.world_position, 0.0, 1.0); out.data_index = input.data_index; return out; }"))
}

/// What an operation adds to a shader: its helper functions and the WGSL
/// expression combining `result` with the operand's `op`.
pub struct OperationInfo {
    pub snippets: Lines,
    pub operation: String,
}

/// The information of each operation kind, by the bit position of its
/// flag; positions not registered yet hold a placeholder.
pub struct OperationInfos {
    pub infos: Vec<OperationInfo>,
    pub count: usize,
}

/// The placeholder operation text of position `i`.
pub open spec fn placeholder_operation(i: nat) -> Seq<char> {
    "UNINITIALIZED"@ + decimal(i)
}

impl OperationInfos {
    /// Thirty-two placeholder entries and nothing registered.
    pub fn new() -> (r: Self)
        ensures
            r.count == 0,
            r.infos@.len() == 32,
            forall|i: int| 0 <= i < 32 ==> (#[trigger] r.infos@[i]).snippets@.len() == 0
                && r.infos@[i].operation@ == placeholder_operation(i as nat),
    {
        let mut infos: Vec<OperationInfo> = Vec::new();
        let mut i: usize = 0;
        while i < 32
            invariant
                i <= 32,
                infos@.len() == i,
                forall|k: int| 0 <= k < i ==> (#[trigger] infos@[k]).snippets@.len() == 0
                    && infos@[k].operation@ == placeholder_operation(k as nat),
            decreases 32 - i,
        {
            let mut operation = String::from_str("UNINITIALIZED");
            push_decimal(&mut operation, i as u64);
            infos.push(OperationInfo { snippets: Lines::new(), operation });
            i = i + 1;
        }
        OperationInfos { infos, count: 0 }
    }

    /// Stores `info` at the next free position and returns that position.
    pub fn register(&mut self, info: OperationInfo) -> (bit: u8)
        requires
            old(self).count < 32,
            old(self).infos@.len() == 32,
        ensures
            bit == old(self).count,
            final(self).count == old(self).count + 1,
            final(self).infos@ == old(self).infos@.update(old(self).count as int, info),
    {
        let bit = self.count;
        self.infos.set(bit, info);
        self.count = self.count + 1;
        bit as u8
    }
}

/// A way of combining a shape with its operands.
pub trait Operation {
    /// The lines of the operation's helper functions.
    spec fn spec_snippets() -> Seq<Seq<char>>;

    /// The WGSL expression combining `result` with `op`.
    spec fn spec_operation() -> Seq<char>;

    /// The information a shader needs of this operation.
    fn operation_info() -> (r: OperationInfo)
        ensures
            r.snippets@ == Self::spec_snippets(),
            r.operation@ == Self::spec_operation(),
    ;
}

/// The helper functions of every component combination of a shape.
pub open spec fn comp_snippets(flags: Seq<Flag>, infos: Seq<CompShaderInfo>) -> Seq<Seq<char>>
    decreases flags.len(),
{
    if flags.len() == 0 {
        Seq::empty()
    } else {
        comp_snippets(flags.drop_last(), infos) + snippets_of(infos, bit_positions(flags.last().0))
    }
}

/// The helper functions of the operations, each by the lowest bit of its flag.
pub open spec fn op_snippets(ops: Seq<(Flag, Flag)>, op_infos: Seq<OperationInfo>) -> Seq<Seq<char>>
    decreases ops.len(),
{
    if ops.len() == 0 {
        Seq::empty()
    } else {
        op_snippets(ops.drop_last(), op_infos) + op_infos[bit_positions(ops.last().0.0)[0] as int].snippets@
    }
}

/// Every operation names an operation with known information.
pub open spec fn ops_known(ops: Seq<(Flag, Flag)>, n: nat) -> bool {
    forall|k: int| 0 <= k < ops.len() ==> bit_positions((#[trigger] ops[k]).0.0).len() > 0
        && (bit_positions(ops[k].0.0)[0] as int) < n
}

/// The helper functions a shape's shader needs: those of its component
/// combinations, then those of its operations.
pub fn gen_snippets(flags: &SdfFlags, shader_infos: &Vec<CompShaderInfo>, op_infos: &Vec<OperationInfo>) -> (r: Lines)
    requires
        forall|k: int| 0 <= k < comp_flags(*flags).len() ==> flag_in_range(#[trigger] comp_flags(*flags)[k], shader_infos@.len()),
        ops_known(flags.operations@, op_infos@.len()),
    ensures
        r@ == comp_snippets(comp_flags(*flags), shader_infos@) + op_snippets(flags.operations@, op_infos@),
{
    let comps = flags.iter_comps();
    let mut first = Lines::new();
    let mut k: usize = 0;
    while k < comps.len()
        invariant
            k <= comps@.len(),
            comps@ == comp_flags(*flags),
            forall|m: int| 0 <= m < comps@.len() ==> flag_in_range(#[trigger] comps@[m], shader_infos@.len()),
            first@ == comp_snippets(comps@.take(k as int), shader_infos@),
        decreases comps@.len() - k,
    {
        assert(comps@.take(k + 1).drop_last() =~= comps@.take(k as int));
        first = first.merge(gather_snippets(shader_infos, comps[k]));
        k = k + 1;
    }
    assert(comps@.take(comps@.len() as int) =~= comps@);
    let mut second = Lines::new();
    let mut j: usize = 0;
    while j < flags.operations.len()
        invariant
            j <= flags.operations@.len(),
            ops_known(flags.operations@, op_infos@.len()),
            second@ == op_snippets(flags.operations@.take(j as int), op_infos@),
        decreases flags.operations@.len() - j,
    {
        assert(flags.operations@.take(j + 1).drop_last() =~= flags.operations@.take(j as int));
        let op = flags.operations[j].0;
        let m = op.minimum();
        assert(bit_positions(flags.operations@[j as int].0.0).len() > 0);
        let i = match m {
            Some(i) => i,
            None => 0,
        };
        second = second.merge(op_infos[i].snippets.duplicate());
        j = j + 1;
    }
    assert(flags.operations@.take(flags.operations@.len() as int) =~= flags.operations@);
    first.merge(second)
}

/// The operation information an operation flag selects: its lowest bit, or
/// its number of bits when it has none.
pub open spec fn op_info_index(op: Flag) -> int {
    if bit_positions(op.0).len() > 0 {
        bit_positions(op.0)[0] as int
    } else {
        bit_positions(op.0).len() as int
    }
}

/// The two lines that evaluate the `i`-th operand and combine it into the result.
pub open spec fn op_lines(ops: Seq<(Flag, Flag)>, op_infos: Seq<OperationInfo>) -> Seq<Seq<char>>
    decreases ops.len(),
{
    if ops.len() == 0 {
        Seq::empty()
    } else {
        let i = ops.len() - 1;
        let (op, comp) = ops[i];
        op_lines(ops.drop_last(), op_infos) + seq![
            "op = sdf"@ + decimal(comp.0 as nat) + "(indices[vertex.data_index + "@ + decimal((i + 1) as nat)
                + "], vertex.world_position);"@,
            "result = "@ + op_infos[op_info_index(op)].operation@ + ";"@,
        ]
    }
}

/// The operand lines come in pairs, one pair per operation in order: the
/// `k`-th operand (from zero) is evaluated from slot `k + 1` of the shape's
/// gathered indices (slot 0 holds the shape's own index, see
/// `lemma_gathered_indices_own_first`), with the distance function of the
/// operand's component flag, and then combined into the result by the
/// expression of the operation's information.
pub proof fn lemma_op_lines_read_operand_slots(ops: Seq<(Flag, Flag)>, op_infos: Seq<OperationInfo>)
    ensures
        op_lines(ops, op_infos).len() == 2 * ops.len(),
        forall|k: int| 0 <= k < ops.len() ==> {
            &&& #[trigger] op_lines(ops, op_infos)[2 * k] == "op = sdf"@ + decimal(ops[k].1.0 as nat)
                + "(indices[vertex.data_index + "@ + decimal((k + 1) as nat) + "], vertex.world_position);"@
            &&& op_lines(ops, op_infos)[2 * k + 1] == "result = "@ + op_infos[op_info_index(ops[k].0)].operation@ + ";"@
        },
    decreases ops.len(),
{
    if ops.len() > 0 {
        let prev = ops.drop_last();
        lemma_op_lines_read_operand_slots(prev, op_infos);
        assert forall|k: int| 0 <= k < ops.len() implies {
            &&& #[trigger] op_lines(ops, op_infos)[2 * k] == "op = sdf"@ + decimal(ops[k].1.0 as nat)
                + "(indices[vertex.data_index + "@ + decimal((k + 1) as nat) + "], vertex.world_position);"@
            &&& op_lines(ops, op_infos)[2 * k + 1] == "result = "@ + op_infos[op_info_index(ops[k].0)].operation@ + ";"@
        } by {
            if k < prev.len() {
                assert(prev[k] == ops[k]);
                assert(op_lines(ops, op_infos)[2 * k] == op_lines(prev, op_infos)[2 * k]);
                assert(op_lines(ops, op_infos)[2 * k + 1] == op_lines(prev, op_infos)[2 * k + 1]);
            }
        }
    }
}

/// Every operation selects operation information that exists.
pub open spec fn ops_in_range(ops: Seq<(Flag, Flag)>, n: nat) -> bool {
    forall|k: int| 0 <= k < ops.len() ==> op_info_index((#[trigger] ops[k]).0) < n
}

/// The lines evaluating the operands of a shape and combining them into the result.
pub fn gen_op_calcs(ops: &Vec<(Flag, Flag)>, op_infos: &Vec<OperationInfo>) -> (r: Lines)
    requires
        ops_in_range(ops@, op_infos@.len()),
    ensures
        r@ == op_lines(ops@, op_infos@),
{
    let mut out = Lines::new();
    let mut i: usize = 0;
    while i < ops.len()
        invariant
            i <= ops@.len(),
            ops_in_range(ops@, op_infos@.len()),
            out@ == op_lines(ops@.take(i as int), op_infos@),
        decreases ops@.len() - i,
    {
        assert(ops@.take(i + 1).drop_last() =~= ops@.take(i as int));
        let (op, comp) = ops[i];
        let index = match op.minimum() {
            Some(m) => m,
            None => op.len(),
        };
        assert(index as int == op_info_index(op));
        let mut eval = String::from_str("op = sdf");
        push_decimal(&mut eval, comp.0 as u64);
        push_str(&mut eval, "(indices[vertex.data_index + ");
        push_decimal(&mut eval, (i + 1) as u64);
        push_str(&mut eval, "], vertex.world_position);");
        let mut combine = String::from_str("result = ");
        push_str(&mut combine, op_infos[index].operation.as_str());
        push_str(&mut combine, ";");
        out = out.add(eval).add(combine);
        i = i + 1;
        assert(out@ =~= op_lines(ops@.take(i as int), op_infos@));
    }
    assert(ops@.take(ops@.len() as int) =~= ops@);
    out
}

/// The WGSL source that turns the result into a colour with coverage.
pub open spec fn alpha_source() -> Seq<char> {
    "let alpha = clamp(0.0, 1.0, (-result.distance / view.frustum[0].w) * 250.0); return vec4(result.color, alpha);"@
}

/// The fragment stage around the given pieces.
pub open spec fn fragment_lines(
    flag: Flag,
    before: Seq<Seq<char>>,
    ops: Seq<Seq<char>>,
    after: Seq<Seq<char>>,
) -> Seq<Seq<char>> {
    seq!["@group(0) @binding(1) var<storage, read> indices: array<u32>;"@,
        "@fragment fn fragment(vertex: VertexOut) -> @location(0) vec4<f32>"@, "{"@]
        + (if flag.0 == 0 { Seq::empty() } else {
            seq!["let input = data"@ + decimal(flag.0 as nat) + "[indices[vertex.data_index]];"@]
        })
        + seq!["let world_position = vertex.world_position;"@, "var op: SdfResult;"@, "var result: SdfResult;"@]
        + before + ops + after + linefy(alpha_source()) + seq!["}"@]
}

/// The structure orders of the steps `calcs`.
pub open spec fn calc_structure_orders(structs: Seq<(u64, crate::shader::calculations::CalculationStructure)>, calcs: Seq<CalculationInfo>) -> Seq<u64> {
    calcs.map_values(|c: CalculationInfo| order_of(structs, c.id) as u64)
}

/// The index of the first step whose own order lies past the position
/// calculation's, or zero when there is none.
pub open spec fn split_index(calcs: Seq<CalculationInfo>) -> int {
    if exists|i: int| 0 <= i < calcs.len() && calcs[i].order > 1000 {
        choose|i: int| 0 <= i < calcs.len() && calcs[i].order > 1000
            && forall|j: int| 0 <= j < i ==> calcs[j].order <= 1000
    } else {
        0
    }
}

/// `out` is the fragment stage of a shape whose own steps, ordered by the
/// order of their calculations as `perm` gives, are written before and after
/// the operands around `split_index`.
pub open spec fn fragment_written(
    flags: SdfFlags,
    infos: Seq<CompShaderInfo>,
    op_infos: Seq<OperationInfo>,
    structs: Seq<(u64, crate::shader::calculations::CalculationStructure)>,
    out: Seq<Seq<char>>,
) -> bool {
    let calcs = calcs_of(infos, bit_positions(flags.flag.0));
    exists|perm: Seq<usize>, before: Seq<Seq<char>>, after: Seq<Seq<char>>|
        #![trigger fragment_lines(flags.flag, before, op_lines(flags.operations@, op_infos), after), is_stable_order(calc_structure_orders(structs, calcs), perm)]
        {
            let sorted = perm.map_values(|p: usize| calcs[p as int]);
            let split = split_index(sorted);
            &&& is_stable_order(calc_structure_orders(structs, calcs), perm)
            &&& calculations_written(structs, sorted.take(split), true, before)
            &&& calculations_written(structs, sorted.skip(split), false, after)
            &&& out == fragment_lines(flags.flag, before, op_lines(flags.operations@, op_infos), after)
        }
}

/// The steps ordered stably by the order of their calculations, and the
/// permutation that orders them.
fn sort_steps(calcs: &Vec<CalculationInfo>, structures: &CalculationStructures) -> (r: (Vec<usize>, Vec<CalculationInfo>))
    requires
        distinct_ids(structures.0@),
        forall|k: int| 0 <= k < calcs@.len() ==> registered(structures.0@, (#[trigger] calcs@[k]).id),
    ensures
        is_stable_order(calc_structure_orders(structures.0@, calcs@), r.0@),
        r.1@ == r.0@.map_values(|p: usize| calcs@[p as int]),
{
    let ghost cs = calcs@;
    let mut keys: Vec<u64> = Vec::new();
    let mut i: usize = 0;
    while i < calcs.len()
        invariant
            i <= calcs@.len(),
            cs == calcs@,
            distinct_ids(structures.0@),
            forall|k: int| 0 <= k < calcs@.len() ==> registered(structures.0@, (#[trigger] calcs@[k]).id),
            keys@ == calc_structure_orders(structures.0@, cs).take(i as int),
        decreases calcs@.len() - i,
    {
        keys.push(structures.order_of(calcs[i].id) as u64);
        i = i + 1;
        assert(keys@ =~= calc_structure_orders(structures.0@, cs).take(i as int));
    }
    assert(keys@ =~= calc_structure_orders(structures.0@, cs));
    let perm = sorted_positions_by_key(&keys);
    let ghost sorted = perm@.map_values(|p: usize| cs[p as int]);
    let mut ordered: Vec<CalculationInfo> = Vec::new();
    let mut t: usize = 0;
    while t < perm.len()
        invariant
            t <= perm@.len(),
            cs == calcs@,
            is_stable_order(calc_structure_orders(structures.0@, cs), perm@),
            sorted == perm@.map_values(|p: usize| cs[p as int]),
            ordered@ == sorted.take(t as int),
        decreases perm@.len() - t,
    {
        ordered.push(calcs[perm[t]].duplicate());
        t = t + 1;
        assert(ordered@ =~= sorted.take(t as int));
    }
    assert(ordered@ =~= sorted);
    (perm, ordered)
}

/// The position `split_index` names.
fn find_split(ordered: &Vec<CalculationInfo>) -> (r: usize)
    ensures
        r as int == split_index(ordered@),
        r <= ordered@.len(),
{
    let mut s: usize = 0;
    while s < ordered.len()
        invariant
            s <= ordered@.len(),
            forall|j: int| 0 <= j < s ==> ordered@[j].order <= 1000,
        decreases ordered@.len() - s,
    {
        if ordered[s].order > 1000 {
            assert(exists|i: int| 0 <= i < ordered@.len() && ordered@[i].order > 1000);
            let ghost c = choose|i: int| 0 <= i < ordered@.len() && ordered@[i].order > 1000
                && forall|j: int| 0 <= j < i ==> ordered@[j].order <= 1000;
            assert(ordered@[s as int].order > 1000 && forall|j: int| 0 <= j < s ==> ordered@[j].order <= 1000);
            assert(c == s) by {
                if c < s {
                } else if c > s {
                    assert(ordered@[s as int].order <= 1000);
                }
            }
            return s;
        }
        s = s + 1;
    }
    0
}

/// The steps before `split` and those from it on.
fn split_steps(ordered: &Vec<CalculationInfo>, split: usize) -> (r: (Vec<CalculationInfo>, Vec<CalculationInfo>))
    requires
        split <= ordered@.len(),
    ensures
        r.0@ == ordered@.take(split as int),
        r.1@ == ordered@.skip(split as int),
{
    let mut before_calcs: Vec<CalculationInfo> = Vec::new();
    let mut after_calcs: Vec<CalculationInfo> = Vec::new();
    let mut u: usize = 0;
    while u < ordered.len()
        invariant
            u <= ordered@.len(),
            split <= ordered@.len(),
            u <= split ==> before_calcs@ == ordered@.take(u as int) && after_calcs@.len() == 0,
            u > split ==> before_calcs@ == ordered@.take(split as int)
                && after_calcs@ == ordered@.subrange(split as int, u as int),
        decreases ordered@.len() - u,
    {
        if u < split {
            before_calcs.push(ordered[u].duplicate());
            assert(before_calcs@ =~= ordered@.take(u + 1));
        } else {
            after_calcs.push(ordered[u].duplicate());
            assert(after_calcs@ =~= ordered@.subrange(split as int, u + 1));
        }
        u = u + 1;
    }
    assert(before_calcs@ =~= ordered@.take(split as int));
    assert(after_calcs@ =~= ordered@.skip(split as int));
    (before_calcs, after_calcs)
}

/// The fragment stage of a shape's shader: its own steps up to the position,
/// the operands combined into the result, its remaining steps, and the
/// colour with coverage.
#[verifier::spinoff_prover]
pub fn gen_fragment_shader(
    flags: &SdfFlags,
    comp_infos: &Vec<CompShaderInfo>,
    op_infos: &Vec<OperationInfo>,
    structures: &CalculationStructures,
) -> (r: Lines)
    requires
        flag_in_range(flags.flag, comp_infos@.len()),
        ops_in_range(flags.operations@, op_infos@.len()),
        distinct_ids(structures.0@),
        forall|k: int| 0 <= k < calcs_of(comp_infos@, bit_positions(flags.flag.0)).len() ==>
            registered(structures.0@, (#[trigger] calcs_of(comp_infos@, bit_positions(flags.flag.0))[k]).id),
    ensures
        fragment_written(*flags, comp_infos@, op_infos@, structures.0@, r@),
{
    let calcs = gather_calculations(comp_infos, flags.flag);
    let ghost cs = calcs@;
    let (perm, ordered) = sort_steps(&calcs, structures);
    let ghost sorted = perm@.map_values(|p: usize| cs[p as int]);
    let split = find_split(&ordered);
    let (before_calcs, after_calcs) = split_steps(&ordered, split);
    let before = gen_calculations(&before_calcs, structures, true);
    let ops = gen_op_calcs(&flags.operations, op_infos);
    let after = gen_calculations(&after_calcs, structures, false);
    let ghost b = before@;
    let ghost a = after@;
    let r = assemble_fragment(flags.flag, before, ops, after);
    proof {
        let sorted2 = perm@.map_values(|p: usize| cs[p as int]);
        assert(sorted2 == sorted);
        assert(is_stable_order(calc_structure_orders(structures.0@, cs), perm@));
        assert(calculations_written(structures.0@, sorted.take(split_index(sorted)), true, b));
        assert(calculations_written(structures.0@, sorted.skip(split_index(sorted)), false, a));
        assert(r@ == fragment_lines(flags.flag, b, op_lines(flags.operations@, op_infos@), a));
    }
    r
}

/// The fragment stage around its pieces.
fn assemble_fragment(flag: Flag, before: Lines, ops: Lines, after: Lines) -> (r: Lines)
    ensures
        r@ == fragment_lines(flag, before@, ops@, after@),
{
    let mut body = Lines::new();
    if !flag.is_empty() {
        let mut input = String::from_str("let input = data");
        push_decimal(&mut input, flag.0 as u64);
        push_str(&mut input, "[indices[vertex.data_index]];");
        body = body.add(input);
    }
    let ghost b = before@;
    let ghost o = ops@;
    let ghost a = after@;
    let body = body.add(String::from_str("let world_position = vertex.world_position;"))
        .add(String::from_str("var op: SdfResult;"))
        .add(String::from_str("var result: SdfResult;"))
        .merge(before)
        .merge(ops)
        .merge(after)
        .merge(Lines::from_linefy(String::from_str("let alpha = clamp(0.0, 1.0, (-result.distance / view.frustum[0].w) * 250.0); return vec4(result.color, alpha);")));
    let head = Lines::new().add(String::from_str("@group(0) @binding(1) var<storage, read> indices: array<u32>;"))
        .add(String::from_str("@fragment fn fragment(vertex: VertexOut) -> @location(0) vec4<f32>"));
    let r = head.block(body);
    assert(r@ =~= fragment_lines(flag, b, o, a));
    r
}

/// A shape's shader from its pieces: structs, input declarations, helper
/// functions, the given distance functions, vertex stage and the given
/// fragment stage.
pub open spec fn shader_lines(
    flags: SdfFlags,
    bindings: Seq<usize>,
    comp_infos: Seq<CompShaderInfo>,
    op_infos: Seq<OperationInfo>,
    fns: Seq<Seq<char>>,
    frag: Seq<Seq<char>>,
) -> Seq<Seq<char>> {
    concat_lines(seq![
        linefy(structs_source()),
        inputs_lines(comp_flags(flags), bindings, comp_infos),
        comp_snippets(comp_flags(flags), comp_infos) + op_snippets(flags.operations@, op_infos),
        fns,
        linefy(vertex_source()),
        frag,
    ])
}

/// The whole shader of a shape: structs, input declarations, helper
/// functions, distance functions, vertex stage and fragment stage.
pub fn gen_shader_wgsl(
    flags: &SdfFlags,
    bindings: &Vec<usize>,
    comp_infos: &Vec<CompShaderInfo>,
    op_infos: &Vec<OperationInfo>,
    structures: &CalculationStructures,
) -> (r: Lines)
    requires
        bindings@.len() == comp_flags(*flags).len(),
        forall|k: int| 0 <= k < comp_flags(*flags).len() ==> flag_in_range(#[trigger] comp_flags(*flags)[k], comp_infos@.len()),
        ops_known(flags.operations@, op_infos@.len()),
        distinct_ids(structures.0@),
        forall|k: int| 0 <= k < calcs_of(comp_infos@, bit_positions(flags.flag.0)).len() ==>
            registered(structures.0@, (#[trigger] calcs_of(comp_infos@, bit_positions(flags.flag.0))[k]).id),
    ensures
        exists|fns: Seq<Seq<char>>, frag: Seq<Seq<char>>|
            #![trigger shader_lines(*flags, bindings@, comp_infos@, op_infos@, fns, frag)]
            (exists|cs: Seq<Seq<Seq<char>>>| #[trigger] combination_calcs(comp_flags(*flags), comp_infos@, structures.0@, cs)
                && fns == sdf_functions_lines(comp_flags(*flags), cs))
            && fragment_written(*flags, comp_infos@, op_infos@, structures.0@, frag)
            && r@ == shader_lines(*flags, bindings@, comp_infos@, op_infos@, fns, frag),
{
    assert(comp_flags(*flags)[0] == flags.flag);
    assert(ops_in_range(flags.operations@, op_infos@.len()));
    let a = gen_structs();
    let b = gen_inputs(flags, bindings, comp_infos);
    let c = gen_snippets(flags, comp_infos, op_infos);
    let d = gen_sdf_functions(flags, comp_infos, structures);
    let e = gen_vertex_shader();
    let f = gen_fragment_shader(flags, comp_infos, op_infos, structures);
    let ghost views = seq![a@, b@, c@, d@, e@, f@];
    let mut parts: Vec<Lines> = Vec::new();
    parts.push(a);
    parts.push(b);
    parts.push(c);
    parts.push(d);
    parts.push(e);
    parts.push(f);
    assert(parts@.map_values(|l: Lines| l@) =~= views);
    let r = Lines::concat(parts);
    assert(r@ == shader_lines(*flags, bindings@, comp_infos@, op_infos@, d@, f@));
    r
}

} // verus!
