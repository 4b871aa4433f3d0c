use vstd::prelude::*;

verus! {

/// What decides whether a shape is visible to a view.
#[derive(Debug, Clone, Copy, PartialEq, Eq, Structural)]
pub struct VisibilityInputs {
    /// The view's camera is active.
    pub camera_active: bool,
    /// The shape is not hidden by itself or an ancestor.
    pub inherited_visible: bool,
    /// The shape's render layers meet the view's.
    pub layers_intersect: bool,
    /// The shape opts out of frustum culling.
    pub no_frustum_culling: bool,
    /// The view opts out of culling on the CPU.
    pub no_cpu_culling: bool,
    /// The shape's bounding circle meets the view's frustum.
    pub in_frustum: bool,
}

/// Whether a shape is visible: an active camera, not hidden, on a shared
/// layer, and inside the frustum unless culling is off for the shape or the
/// view.
pub open spec fn is_visible(v: VisibilityInputs) -> bool {
    &&& v.camera_active
    &&& v.inherited_visible
    &&& v.layers_intersect
    &&& (v.no_frustum_culling || v.no_cpu_culling || v.in_frustum)
}

/// Decides whether a shape is visible to a view.
pub fn check_visibility(v: VisibilityInputs) -> (r: bool)
    ensures
        r == is_visible(v),
{
    if !v.camera_active {
        return false;
    }
    if !v.inherited_visible {
        return false;
    }
    if !v.layers_intersect {
        return false;
    }
    if !v.no_frustum_culling && !v.no_cpu_culling {
        if !v.in_frustum {
            return false;
        }
    }
    true
}

} // verus!
