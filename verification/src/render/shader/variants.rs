use crate::shader::lines::Lines;
use crate::text::push_str;
use vstd::prelude::*;

verus! {

broadcast use vstd::string::group_string_axioms;

/// The variables a shape's distance function computes, in the order it
/// computes them.
#[derive(PartialEq, Eq, Structural, Clone, Copy, Debug)]
pub enum Calculation {
    Position,
    Operations,
    Distance,
    PixelColor,
}

/// The WGSL variable a calculation assigns.
pub open spec fn var_name(kind: Calculation) -> &'static str {
    match kind {
        Calculation::Position => "position",
        Calculation::Operations => "result",
        Calculation::Distance => "result.distance",
        Calculation::PixelColor => "result.color",
    }
}

/// The initial value a calculation's variable is declared with, if any.
pub open spec fn default_val(kind: Calculation) -> Option<&'static str> {
    match kind {
        Calculation::Position => Some("world_position"),
        Calculation::Operations => Some("SdfResult()"),
        Calculation::Distance => None,
        Calculation::PixelColor => None,
    }
}

impl Calculation {
    /// The WGSL variable this calculation assigns.
    pub fn var_name(&self) -> (r: &'static str)
        ensures
            r == var_name(*self),
    {
        match self {
            Calculation::Position => "position",
            Calculation::Operations => "result",
            Calculation::Distance => "result.distance",
            Calculation::PixelColor => "result.color",
        }
    }

    /// The initial value of the variable, if it is declared here.
    pub fn default_val(&self) -> (r: Option<&'static str>)
        ensures
            r == default_val(*self),
    {
        match self {
            Calculation::Position => Some("world_position"),
            Calculation::Operations => Some("SdfResult()"),
            Calculation::Distance => None,
            Calculation::PixelColor => None,
        }
    }
}

/// The pieces of one shape kind's distance function: its input fields, its
/// helper functions under the flag that asked for them, and the steps of
/// each calculation.
pub struct SdfCalculationBuilder {
    pub input: Vec<(String, String)>,
    pub extra: Vec<(u32, Lines)>,
    pub position: Vec<String>,
    pub operations: Vec<String>,
    pub distance: Vec<String>,
    pub pixel_color: Vec<String>,
    pub binding: u32,
}

/// The steps of a calculation, as text.
pub open spec fn steps(b: SdfCalculationBuilder, kind: Calculation) -> Seq<Seq<char>> {
    match kind {
        Calculation::Position => b.position@.map_values(|s: String| s@),
        Calculation::Operations => b.operations@.map_values(|s: String| s@),
        Calculation::Distance => b.distance@.map_values(|s: String| s@),
        Calculation::PixelColor => b.pixel_color@.map_values(|s: String| s@),
    }
}

/// The lines of a calculation: its declaration, if it has an initial value,
/// then one assignment per step.
pub open spec fn calculation_text(name: Seq<char>, default: Option<&'static str>, steps: Seq<Seq<char>>) -> Seq<Seq<char>> {
    (match default {
        Some(d) => seq!["var "@ + name + " = "@ + d@ + ";"@],
        None => Seq::empty(),
    }) + steps.map_values(|c: Seq<char>| name + " = "@ + c + ";"@)
}

/// `new` is `old` with the helper lines under `flag` set to `extra`: an
/// entry appended when `flag` had none, every entry under `flag` replaced
/// otherwise, the other entries kept.
pub open spec fn extra_updated(old: Seq<(u32, Lines)>, new: Seq<(u32, Lines)>, flag: u32, extra: Seq<Seq<char>>) -> bool {
    &&& (forall|k: int| 0 <= k < old.len() ==> old[k].0 != flag)
        ==> new.len() == old.len() + 1 && new.last().0 == flag && new.last().1@ == extra
    &&& (exists|k: int| 0 <= k < old.len() && old[k].0 == flag) ==> new.len() == old.len()
    &&& forall|k: int| 0 <= k < new.len() && new[k].0 == flag ==> (#[trigger] new[k]).1@ == extra
    &&& forall|k: int| 0 <= k < old.len() && old[k].0 != flag ==> (#[trigger] new[k]) == old[k]
}

impl SdfCalculationBuilder {
    /// A builder for the shape kind bound at `binding`.
    pub fn new(binding: u32) -> (r: Self)
        ensures
            r.binding == binding,
            r.input@.len() == 0,
            r.extra@.len() == 0,
            forall|k: Calculation| steps(r, k).len() == 0,
    {
        SdfCalculationBuilder {
            input: Vec::new(),
            extra: Vec::new(),
            position: Vec::new(),
            operations: Vec::new(),
            distance: Vec::new(),
            pixel_color: Vec::new(),
            binding,
        }
    }

    /// The number of input fields.
    pub fn input_len(&self) -> (r: usize)
        ensures
            r == self.input@.len(),
    {
        self.input.len()
    }

    /// Adds a step to the calculation `kind`.
    pub fn calc(&mut self, kind: Calculation, calc: String)
        ensures
            steps(*final(self), kind) == steps(*old(self), kind).push(calc@),
            forall|k: Calculation| k != kind ==> steps(*final(self), k) == steps(*old(self), k),
            final(self).input == old(self).input,
            final(self).extra == old(self).extra,
            final(self).binding == old(self).binding,
    {
        match kind {
            Calculation::Position => {
                self.position.push(calc);
                assert(steps(*self, kind) =~= steps(*old(self), kind).push(calc@));
            },
            Calculation::Operations => {
                self.operations.push(calc);
                assert(steps(*self, kind) =~= steps(*old(self), kind).push(calc@));
            },
            Calculation::Distance => {
                self.distance.push(calc);
                assert(steps(*self, kind) =~= steps(*old(self), kind).push(calc@));
            },
            Calculation::PixelColor => {
                self.pixel_color.push(calc);
                assert(steps(*self, kind) =~= steps(*old(self), kind).push(calc@));
            },
        }
    }

    /// Records the helper functions `extra` under `flag`, replacing earlier
    /// ones under the same flag.
    pub fn extra(&mut self, flag: u32, extra: Lines)
        ensures
            extra_updated(old(self).extra@, final(self).extra@, flag, extra@),
            final(self).input == old(self).input,
            final(self).binding == old(self).binding,
            forall|c: Calculation| steps(*final(self), c) == steps(*old(self), c),
    {
        let mut k: usize = 0;
        let mut found = false;
        while k < self.extra.len()
            invariant
                k <= self.extra@.len(),
                self.extra@.len() == old(self).extra@.len(),
                found ==> exists|j: int| 0 <= j < old(self).extra@.len() && old(self).extra@[j].0 == flag,
                forall|j: int| 0 <= j < k && self.extra@[j].0 == flag ==> (#[trigger] self.extra@[j]).1@ == extra@,
                forall|j: int| 0 <= j < old(self).extra@.len() && old(self).extra@[j].0 != flag ==> (#[trigger] self.extra@[j]) == old(self).extra@[j],
                forall|j: int| k <= j < self.extra@.len() ==> (#[trigger] self.extra@[j]) == old(self).extra@[j],
                !found ==> forall|j: int| 0 <= j < k ==> old(self).extra@[j].0 != flag,
                self.input == old(self).input,
                self.binding == old(self).binding,
                self.position == old(self).position,
                self.operations == old(self).operations,
                self.distance == old(self).distance,
                self.pixel_color == old(self).pixel_color,
            decreases self.extra@.len() - k,
        {
            if self.extra[k].0 == flag {
                self.extra.set(k, (flag, extra.duplicate()));
                found = true;
            }
            k = k + 1;
        }
        if !found {
            self.extra.push((flag, extra));
        }
    }

    /// Adds an input field.
    pub fn input(&mut self, name: String, wgsl_type: String)
        ensures
            final(self).input@ == old(self).input@.push((name, wgsl_type)),
            final(self).extra == old(self).extra,
            final(self).binding == old(self).binding,
            forall|c: Calculation| steps(*final(self), c) == steps(*old(self), c),
    {
        self.input.push((name, wgsl_type));
    }

    /// The lines of the calculation `kind`.
    pub fn calculation(&self, kind: Calculation) -> (r: Lines)
        ensures
            r@ == calculation_text(var_name(kind)@, default_val(kind), steps(*self, kind)),
    {
        let name = kind.var_name();
        let mut out = Lines::new();
        match kind.default_val() {
            Some(default) => {
                let mut line = String::from_str("var ");
                push_str(&mut line, name);
                push_str(&mut line, " = ");
                push_str(&mut line, default);
                push_str(&mut line, ";");
                out = out.add(line);
            },
            None => {},
        }
        let list = match kind {
            Calculation::Position => &self.position,
            Calculation::Operations => &self.operations,
            Calculation::Distance => &self.distance,
            Calculation::PixelColor => &self.pixel_color,
        };
        assert(list@.map_values(|s: String| s@) == steps(*self, kind));
        let ghost head = out@;
        let ghost st = steps(*self, kind);
        let mut k: usize = 0;
        while k < list.len()
            invariant
                k <= list@.len(),
                st == list@.map_values(|s: String| s@),
                out@ == head + st.take(k as int).map_values(|c: Seq<char>| name@ + " = "@ + c + ";"@),
            decreases list@.len() - k,
        {
            let mut line = String::from_str(name);
            push_str(&mut line, " = ");
            push_str(&mut line, list[k].as_str());
            push_str(&mut line, ";");
            out = out.add(line);
            k = k + 1;
            assert(out@ =~= head + st.take(k as int).map_values(|c: Seq<char>| name@ + " = "@ + c + ";"@));
        }
        assert(st.take(list@.len() as int) =~= st);
        assert(out@ =~= calculation_text(var_name(kind)@, default_val(kind), st));
        out
    }

    /// The lines of all calculations, in the order they run.
    pub fn calculations(&self) -> (r: Lines)
        ensures
            r@ == calculation_text(var_name(Calculation::Position)@, default_val(Calculation::Position), steps(*self, Calculation::Position))
                + calculation_text(var_name(Calculation::Operations)@, default_val(Calculation::Operations), steps(*self, Calculation::Operations))
                + calculation_text(var_name(Calculation::Distance)@, default_val(Calculation::Distance), steps(*self, Calculation::Distance))
                + calculation_text(var_name(Calculation::PixelColor)@, default_val(Calculation::PixelColor), steps(*self, Calculation::PixelColor)),
    {
        self.calculation(Calculation::Position)
            .merge(self.calculation(Calculation::Operations))
            .merge(self.calculation(Calculation::Distance))
            .merge(self.calculation(Calculation::PixelColor))
    }
}

} // verus!
