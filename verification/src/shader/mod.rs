pub mod bindgroups;
pub mod building;
pub mod calculations;
pub mod gen;
pub mod lines;
pub mod wgsl_struct;

use crate::text::push_str;
use vstd::prelude::*;

verus! {

/// The WGSL struct a component's render data is written as: its definition
/// and its name.
pub struct RenderDataWgsl {
    pub definition: String,
    pub name: String,
}

/// The buffer binding and struct of a component with render data.
pub struct ShaderInfo {
    pub binding: u32,
    pub wgsl: RenderDataWgsl,
}

/// What the shader needs of a component: the WGSL function it runs and, if it
/// has render data, where and how that data is bound.
pub struct ComponentShaderInfo {
    pub function_name: String,
    pub render_data: Option<ShaderInfo>,
}

/// A piece of WGSL added to a group's shader: the code itself or a file path.
pub enum AddSnippet {
    Inline(String),
    File(String),
}

/// The snippets of a group, in the order they were added.
pub struct Snippets(pub Vec<AddSnippet>);

/// The text of an added snippet: its code, or the path it is loaded from.
pub open spec fn snippet_view(s: AddSnippet) -> (bool, Seq<char>) {
    match s {
        AddSnippet::Inline(code) => (true, code@),
        AddSnippet::File(path) => (false, path@),
    }
}

impl AddSnippet {
    /// A copy of the snippet.
    pub fn duplicate(&self) -> (r: Self)
        ensures
            snippet_view(r) == snippet_view(*self),
    {
        match self {
            AddSnippet::Inline(code) => AddSnippet::Inline(code.clone()),
            AddSnippet::File(path) => AddSnippet::File(path.clone()),
        }
    }
}

/// The path of the fragment stage every group's shader starts with.
pub open spec fn fragment_path() -> Seq<char> {
    "embedded://cuttle/shader/fragment.wgsl"@
}

/// The snippets a group's shader is made of, in order: the shared fragment
/// stage, then the group's own.
pub fn snippet_sources(snippets: &Vec<AddSnippet>) -> (r: Vec<AddSnippet>)
    ensures
        r@.len() == snippets@.len() + 1,
        snippet_view(r@[0]) == (false, fragment_path()),
        forall|i: int| 0 <= i < snippets@.len() ==> snippet_view(#[trigger] r@[i + 1]) == snippet_view(snippets@[i]),
{
    let mut r: Vec<AddSnippet> = Vec::new();
    r.push(AddSnippet::File(String::from_str("embedded://cuttle/shader/fragment.wgsl")));
    let mut i: usize = 0;
    while i < snippets.len()
        invariant
            i <= snippets@.len(),
            r@.len() == i + 1,
            snippet_view(r@[0]) == (false, fragment_path()),
            forall|k: int| 0 <= k < i ==> snippet_view(#[trigger] r@[k + 1]) == snippet_view(snippets@[k]),
        decreases snippets@.len() - i,
    {
        r.push(snippets[i].duplicate());
        i = i + 1;
    }
    r
}

/// The texts of `parts` one after the other.
pub open spec fn joined(parts: Seq<Seq<char>>) -> Seq<char>
    decreases parts.len(),
{
    if parts.len() == 0 {
        Seq::empty()
    } else {
        joined(parts.drop_last()) + parts.last()
    }
}

/// The loaded snippet texts of a group, one after the other.
pub fn join_snippets(parts: &Vec<String>) -> (r: String)
    ensures
        r@ == joined(parts@.map_values(|p: String| p@)),
{
    let ghost ps = parts@.map_values(|p: String| p@);
    let mut r = String::new();
    let mut i: usize = 0;
    while i < parts.len()
        invariant
            i <= parts@.len(),
            ps == parts@.map_values(|p: String| p@),
            r@ == joined(ps.take(i as int)),
        decreases parts@.len() - i,
    {
        assert(ps.take(i + 1).drop_last() =~= ps.take(i as int));
        push_str(&mut r, parts[i].as_str());
        i = i + 1;
    }
    assert(ps.take(parts@.len() as int) =~= ps);
    r
}

} // verus!
