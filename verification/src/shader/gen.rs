use crate::calculations::Calculation;
use crate::shader::ComponentShaderInfo;
use crate::text::{decimal, push_decimal, push_str};
use convert_case::{Case, Casing};
use vstd::prelude::*;

verus! {

broadcast use vstd::string::group_string_axioms;

/// What `convert_case` makes of a name in snake case.
pub uninterp spec fn snake_case(s: Seq<char>) -> Seq<char>;

/// `s` in snake case (`Casing::to_case(Case::Snake)`).
#[verifier::external_body]
fn to_snake_case(s: &str) -> (r: String)
    ensures
        r@ == snake_case(s@),
{
    s.to_case(Case::Snake)
}

/// The private variable declarations of the group's calculations, one per line.
pub open spec fn private_vars(calcs: Seq<Calculation>) -> Seq<char>
    decreases calcs.len(),
{
    if calcs.len() == 0 {
        Seq::empty()
    } else {
        private_vars(calcs.drop_last()) + "var<private> "@ + calcs.last().name@ + ": "@
            + calcs.last().wgsl_type@ + ";\n"@
    }
}

/// Declares each calculation as a private shader variable.
pub fn gen_calculations(calculations: &[Calculation]) -> (r: String)
    ensures
        r@ == private_vars(calculations@),
{
    let mut r = String::new();
    let mut k: usize = 0;
    while k < calculations.len()
        invariant
            k <= calculations@.len(),
            r@ == private_vars(calculations@.take(k as int)),
        decreases calculations@.len() - k,
    {
        assert(calculations@.take(k + 1).drop_last() =~= calculations@.take(k as int));
        push_str(&mut r, "var<private> ");
        push_str(&mut r, calculations[k].name.as_str());
        push_str(&mut r, ": ");
        push_str(&mut r, calculations[k].wgsl_type.as_str());
        push_str(&mut r, ";\n");
        k = k + 1;
        assert(r@ =~= private_vars(calculations@.take(k as int)));
    }
    assert(calculations@.take(calculations@.len() as int) =~= calculations@);
    r
}

/// The switch case calling the function of component `i`.
pub open spec fn selector_case(i: nat, info: ComponentShaderInfo) -> Seq<char> {
    let snake = snake_case(info.function_name@);
    "    case u32("@ + decimal(i) + "): {\n"@ + if info.render_data is Some {
        "      let info = comps"@ + decimal(i) + "[index];\n"@ + "      "@ + snake + "(info);\n"@
    } else {
        "      "@ + snake + "();\n"@
    } + "    }\n"@
}

/// The switch cases of the first `n` components.
pub open spec fn selector_cases(infos: Seq<ComponentShaderInfo>) -> Seq<char>
    decreases infos.len(),
{
    if infos.len() == 0 {
        Seq::empty()
    } else {
        selector_cases(infos.drop_last()) + selector_case((infos.len() - 1) as nat, infos.last())
    }
}

/// The function that runs component `comp_id` on entry `index` of its buffer.
pub open spec fn selector(infos: Seq<ComponentShaderInfo>) -> Seq<char> {
    "fn component(comp_id: u32, index: u32){\n  switch comp_id {\n"@ + selector_cases(infos)
        + "    case default: {}\n  }\n}\n"@
}

/// Writes the function that dispatches on the component id.
pub fn comp_selector(infos: &[ComponentShaderInfo]) -> (r: String)
    ensures
        r@ == selector(infos@),
{
    let mut body = String::new();
    let mut i: usize = 0;
    while i < infos.len()
        invariant
            i <= infos@.len(),
            body@ == selector_cases(infos@.take(i as int)),
        decreases infos@.len() - i,
    {
        assert(infos@.take(i + 1).drop_last() =~= infos@.take(i as int));
        let info = &infos[i];
        let snake = to_snake_case(info.function_name.as_str());
        push_str(&mut body, "    case u32(");
        push_decimal(&mut body, i as u64);
        push_str(&mut body, "): {\n");
        match &info.render_data {
            Some(_) => {
                push_str(&mut body, "      let info = comps");
                push_decimal(&mut body, i as u64);
                push_str(&mut body, "[index];\n");
                push_str(&mut body, "      ");
                push_str(&mut body, snake.as_str());
                push_str(&mut body, "(info);\n");
            },
            None => {
                push_str(&mut body, "      ");
                push_str(&mut body, snake.as_str());
                push_str(&mut body, "();\n");
            },
        }
        push_str(&mut body, "    }\n");
        i = i + 1;
        assert(body@ =~= selector_cases(infos@.take(i as int)));
    }
    assert(infos@.take(infos@.len() as int) =~= infos@);
    let mut r = String::from_str("fn component(comp_id: u32, index: u32){\n  switch comp_id {\n");
    push_str(&mut r, body.as_str());
    push_str(&mut r, "    case default: {}\n  }\n}\n");
    r
}

/// The buffer declarations and structs of the components with render data.
pub open spec fn bindings_text(infos: Seq<ComponentShaderInfo>) -> Seq<char>
    decreases infos.len(),
{
    if infos.len() == 0 {
        Seq::empty()
    } else {
        let i = (infos.len() - 1) as nat;
        bindings_text(infos.drop_last()) + match infos.last().render_data {
            Some(render) => "@group(2) @binding("@ + decimal(render.binding as nat) + ") var<storage, read> comps"@
                + decimal(i) + ": array<"@ + render.wgsl.name@ + ">;\n\n"@ + render.wgsl.definition@,
            None => Seq::empty(),
        }
    }
}

/// Declares the buffer and struct of each component that has render data.
pub fn structs_and_bindings(infos: &[ComponentShaderInfo]) -> (r: String)
    ensures
        r@ == bindings_text(infos@),
{
    let mut r = String::new();
    let mut i: usize = 0;
    while i < infos.len()
        invariant
            i <= infos@.len(),
            r@ == bindings_text(infos@.take(i as int)),
        decreases infos@.len() - i,
    {
        assert(infos@.take(i + 1).drop_last() =~= infos@.take(i as int));
        match &infos[i].render_data {
            Some(render) => {
                push_str(&mut r, "@group(2) @binding(");
                push_decimal(&mut r, render.binding as u64);
                push_str(&mut r, ") var<storage, read> comps");
                push_decimal(&mut r, i as u64);
                push_str(&mut r, ": array<");
                push_str(&mut r, render.wgsl.name.as_str());
                push_str(&mut r, ">;\n\n");
                push_str(&mut r, render.wgsl.definition.as_str());
            },
            None => {},
        }
        i = i + 1;
        assert(r@ =~= bindings_text(infos@.take(i as int)));
    }
    assert(infos@.take(infos@.len() as int) =~= infos@);
    r
}

/// The shader of a group: its snippets, component buffers, calculation
/// variables and component dispatch, separated by line breaks.
pub open spec fn group_shader(infos: Seq<ComponentShaderInfo>, calculations: Seq<Calculation>, snippets: Seq<char>) -> Seq<char> {
    snippets + "\n"@ + bindings_text(infos) + "\n"@ + private_vars(calculations) + "\n"@ + selector(infos)
}

/// Assembles the shader of a group.
pub fn gen_shader(infos: &[ComponentShaderInfo], calculations: &[Calculation], snippets: String) -> (r: String)
    ensures
        r@ == group_shader(infos@, calculations@, snippets@),
{
    let selector = comp_selector(infos);
    let stuff = structs_and_bindings(infos);
    let calcs = gen_calculations(calculations);
    let mut r = snippets;
    push_str(&mut r, "\n");
    push_str(&mut r, stuff.as_str());
    push_str(&mut r, "\n");
    push_str(&mut r, calcs.as_str());
    push_str(&mut r, "\n");
    push_str(&mut r, selector.as_str());
    r
}

} // verus!
