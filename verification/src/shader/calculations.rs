use crate::shader::lines::Lines;
use crate::sorting::{is_stable_order, sorted_positions_by_key};
use crate::text::push_str;
use vstd::prelude::*;

verus! {

broadcast use vstd::string::group_string_axioms;

/// How the variable of a calculation is declared before its first assignment.
#[derive(PartialEq, Eq, Clone, Copy, Debug)]
pub enum CalcInit {
    /// Not declared (the variable already exists).
    NoInit,
    /// Declared with the type's zero value.
    Default,
    /// Declared with the given WGSL expression as its value.
    Const(&'static str),
}

/// A shader variable that components compute in steps: its name, its WGSL
/// type, how it is declared, and where its steps stand among all steps.
#[derive(Clone, Copy, Debug)]
pub struct CalculationStructure {
    pub order: usize,
    pub name: &'static str,
    pub wgsl_type: &'static str,
    pub initialization: CalcInit,
}

/// One step of a calculation: the calculation it belongs to, its place among
/// that calculation's steps, and the WGSL expression assigned to the variable.
#[derive(Debug)]
pub struct CalculationInfo {
    pub id: u64,
    pub order: usize,
    pub calculation: String,
}

impl CalculationInfo {
    /// A copy of the step.
    pub fn duplicate(&self) -> (r: Self)
        ensures
            r == *self,
    {
        CalculationInfo { id: self.id, order: self.order, calculation: self.calculation.clone() }
    }

    /// A step of the calculation `id`.
    pub fn new(id: u64, order: usize, calculation: String) -> (r: Self)
        ensures
            r.id == id,
            r.order == order,
            r.calculation == calculation,
    {
        Self { id, order, calculation }
    }
}

/// A shader variable computed in steps by the components of a group.
pub trait SdfCalculation {
    spec fn spec_id() -> u64;

    spec fn spec_order() -> usize;

    spec fn spec_name() -> &'static str;

    spec fn spec_wgsl_type() -> &'static str;

    spec fn spec_initialization() -> CalcInit;

    /// The id steps of this calculation are filed under.
    fn id() -> (r: u64)
        ensures
            r == Self::spec_id(),
    ;

    /// Where the calculation's steps stand among those of other calculations.
    fn order() -> (r: usize)
        ensures
            r == Self::spec_order(),
    ;

    /// The variable the calculation computes.
    fn name() -> (r: &'static str)
        ensures
            r == Self::spec_name(),
    ;

    /// The WGSL type of the variable.
    fn wgsl_type() -> (r: &'static str)
        ensures
            r == Self::spec_wgsl_type(),
    ;

    /// How the variable is declared.
    fn initialization() -> (r: CalcInit)
        ensures
            r == Self::spec_initialization(),
    ;

    /// The registration record of the calculation.
    fn calculation_structure() -> (r: CalculationStructure)
        ensures
            r == (CalculationStructure {
                order: Self::spec_order(),
                name: Self::spec_name(),
                wgsl_type: Self::spec_wgsl_type(),
                initialization: Self::spec_initialization(),
            }),
    {
        CalculationStructure {
            wgsl_type: Self::wgsl_type(),
            order: Self::order(),
            name: Self::name(),
            initialization: Self::initialization(),
        }
    }

    /// A step of this calculation.
    fn calc(order: usize, calculation: String) -> (r: CalculationInfo)
        ensures
            r.id == Self::spec_id(),
            r.order == order,
            r.calculation == calculation,
    {
        CalculationInfo { id: Self::id(), order, calculation }
    }
}

/// The registered calculations, each under its id.
pub struct CalculationStructures(pub Vec<(u64, CalculationStructure)>);

/// No id is registered twice.
pub open spec fn distinct_ids(s: Seq<(u64, CalculationStructure)>) -> bool {
    forall|i: int, j: int| 0 <= i < j < s.len() ==> s[i].0 != s[j].0
}

impl CalculationStructures {
    /// No calculation registered.
    pub fn new() -> (r: Self)
        ensures
            r.0@ == Seq::<(u64, CalculationStructure)>::empty(),
    {
        CalculationStructures(Vec::new())
    }

    /// Registers `structure` under `id`, replacing what was registered under it.
    pub fn register(&mut self, id: u64, structure: CalculationStructure)
        requires
            distinct_ids(old(self).0@),
        ensures
            distinct_ids(final(self).0@),
            (exists|k: int| 0 <= k < old(self).0@.len() && old(self).0@[k].0 == id) ==>
                final(self).0@ == old(self).0@.update(
                    choose|k: int| 0 <= k < old(self).0@.len() && old(self).0@[k].0 == id, (id, structure)),
            (forall|k: int| 0 <= k < old(self).0@.len() ==> old(self).0@[k].0 != id) ==>
                final(self).0@ == old(self).0@.push((id, structure)),
    {
        let mut i: usize = 0;
        while i < self.0.len()
            invariant
                i <= self.0@.len(),
                self.0@ == old(self).0@,
                distinct_ids(old(self).0@),
                forall|k: int| 0 <= k < i ==> self.0@[k].0 != id,
            decreases self.0@.len() - i,
        {
            if self.0[i].0 == id {
                let ghost k = choose|k: int| 0 <= k < old(self).0@.len() && old(self).0@[k].0 == id;
                assert(k == i) by {
                    if k < i {
                    } else if k > i {
                        assert(old(self).0@[i as int].0 != old(self).0@[k].0);
                    }
                }
                self.0.set(i, (id, structure));
                assert(distinct_ids(self.0@)) by {
                    assert forall|a: int, b: int| 0 <= a < b < self.0@.len() implies self.0@[a].0 != self.0@[b].0 by {
                        if a != i && b != i {
                            assert(old(self).0@[a].0 != old(self).0@[b].0);
                        } else if a == i {
                            assert(old(self).0@[a].0 != old(self).0@[b].0);
                        } else {
                            assert(old(self).0@[a].0 != old(self).0@[b].0);
                        }
                    }
                }
                return;
            }
            i = i + 1;
        }
        self.0.push((id, structure));
    }
}

/// The positions of the steps that belong to calculation `id`, in order.
pub open spec fn steps_of(calcs: Seq<CalculationInfo>, id: u64) -> Seq<usize>
    decreases calcs.len(),
{
    if calcs.len() == 0 {
        Seq::empty()
    } else {
        let r = steps_of(calcs.drop_last(), id);
        if calcs.last().id == id {
            r.push((calcs.len() - 1) as usize)
        } else {
            r
        }
    }
}

/// The declaration line of a calculation; empty where none is written.
pub open spec fn init_line(s: CalculationStructure, init_calcs: bool) -> Seq<char> {
    match s.initialization {
        CalcInit::NoInit => Seq::empty(),
        CalcInit::Default => if init_calcs {
            "var "@ + s.name@ + ": "@ + s.wgsl_type@ + ";"@
        } else {
            Seq::empty()
        },
        CalcInit::Const(init) => if init_calcs {
            "var "@ + s.name@ + ": "@ + s.wgsl_type@ + " = "@ + init@ + ";"@
        } else {
            Seq::empty()
        },
    }
}

/// With declarations asked for, every calculation that is not already a
/// variable is declared before its steps assign it: its line is
/// `var <name>: <type>`, ended by `;` for a zero-initialised one and by
/// ` = <value>;` for one with an initial value. A calculation that already
/// exists, or a pass without declarations, gets an empty line.
pub proof fn lemma_declarations(s: CalculationStructure)
    ensures
        s.initialization is Default ==> init_line(s, true) == "var "@ + s.name@ + ": "@ + s.wgsl_type@ + ";"@,
        s.initialization matches CalcInit::Const(v) ==> init_line(s, true)
            == "var "@ + s.name@ + ": "@ + s.wgsl_type@ + " = "@ + v@ + ";"@,
        !(s.initialization is NoInit) ==> init_line(s, true).take(4) == "var "@
            && init_line(s, true).subrange(4, 4 + s.name@.len() as int) == s.name@,
        s.initialization is NoInit ==> init_line(s, true).len() == 0,
        init_line(s, false).len() == 0,
{
    reveal_strlit("var ");
    if !(s.initialization is NoInit) {
        assert(init_line(s, true).take(4) =~= "var "@);
        assert(init_line(s, true).subrange(4, 4 + s.name@.len() as int) =~= s.name@);
    }
}

/// The line assigning `expr` to `name`.
pub open spec fn assign_line(name: Seq<char>, expr: Seq<char>) -> Seq<char> {
    name + " = "@ + expr + ";"@
}

/// The assignments of the steps at `steps`, taken in the order `perm` gives.
pub open spec fn step_lines(name: Seq<char>, calcs: Seq<CalculationInfo>, steps: Seq<usize>, perm: Seq<usize>) -> Seq<Seq<char>> {
    perm.map_values(|p: usize| assign_line(name, calcs[steps[p as int] as int].calculation@))
}

/// The orders of the steps at `steps`.
pub open spec fn step_orders(calcs: Seq<CalculationInfo>, steps: Seq<usize>) -> Seq<u64> {
    steps.map_values(|i: usize| calcs[i as int].order as u64)
}

/// The orders of the registered calculations.
pub open spec fn structure_orders(s: Seq<(u64, CalculationStructure)>) -> Seq<u64> {
    s.map_values(|e: (u64, CalculationStructure)| e.1.order as u64)
}

/// The lines of the calculations taken in the order `sp` gives, each one's
/// steps in the order the matching item of `cps` gives.
pub open spec fn calculation_lines(
    structs: Seq<(u64, CalculationStructure)>,
    calcs: Seq<CalculationInfo>,
    init_calcs: bool,
    sp: Seq<usize>,
    cps: Seq<Seq<usize>>,
) -> Seq<Seq<char>>
    decreases sp.len(),
{
    if sp.len() == 0 {
        Seq::empty()
    } else {
        let k = sp.len() - 1;
        let (id, s) = structs[sp[k] as int];
        calculation_lines(structs, calcs, init_calcs, sp.drop_last(), cps.drop_last())
            + seq![init_line(s, init_calcs)]
            + step_lines(s.name@, calcs, steps_of(calcs, id), cps[k])
    }
}

/// The orders in which `gen_calculations` writes: the calculations stably
/// sorted by their order, and each one's steps stably sorted by theirs.
pub open spec fn calculation_orders(
    structs: Seq<(u64, CalculationStructure)>,
    calcs: Seq<CalculationInfo>,
    sp: Seq<usize>,
    cps: Seq<Seq<usize>>,
) -> bool {
    &&& is_stable_order(structure_orders(structs), sp)
    &&& cps.len() == sp.len()
    &&& forall|k: int| 0 <= k < sp.len() ==>
        is_stable_order(step_orders(calcs, steps_of(calcs, structs[sp[k] as int].0)), #[trigger] cps[k])
}

/// `out` is what `gen_calculations` writes for `calcs`.
pub open spec fn calculations_written(
    structs: Seq<(u64, CalculationStructure)>,
    calcs: Seq<CalculationInfo>,
    init_calcs: bool,
    out: Seq<Seq<char>>,
) -> bool {
    exists|sp: Seq<usize>, cps: Seq<Seq<usize>>| #![trigger calculation_lines(structs, calcs, init_calcs, sp, cps)]
        calculation_orders(structs, calcs, sp, cps) && out == calculation_lines(structs, calcs, init_calcs, sp, cps)
}

/// The order of the calculation registered under `id`.
pub open spec fn order_of(structs: Seq<(u64, CalculationStructure)>, id: u64) -> usize {
    structs[choose|k: int| 0 <= k < structs.len() && structs[k].0 == id].1.order
}

/// Whether a calculation is registered under `id`.
pub open spec fn registered(structs: Seq<(u64, CalculationStructure)>, id: u64) -> bool {
    exists|k: int| 0 <= k < structs.len() && structs[k].0 == id
}

impl CalculationStructures {
    /// The order of the calculation registered under `id`.
    pub fn order_of(&self, id: u64) -> (r: usize)
        requires
            distinct_ids(self.0@),
            registered(self.0@, id),
        ensures
            r == order_of(self.0@, id),
    {
        let mut i: usize = 0;
        while i < self.0.len()
            invariant
                i <= self.0@.len(),
                distinct_ids(self.0@),
                registered(self.0@, id),
                forall|k: int| 0 <= k < i ==> self.0@[k].0 != id,
            decreases self.0@.len() - i,
        {
            if self.0[i].0 == id {
                let ghost k = choose|k: int| 0 <= k < self.0@.len() && self.0@[k].0 == id;
                assert(k == i) by {
                    if k != i {
                        assert(k > i);
                        assert(self.0@[i as int].0 != self.0@[k].0);
                    }
                }
                return self.0[i].1.order;
            }
            i = i + 1;
        }
        assert(false);
        0
    }
}

/// The positions of the steps of calculation `id`.
fn find_steps(calcs: &Vec<CalculationInfo>, id: u64) -> (r: Vec<usize>)
    ensures
        r@ == steps_of(calcs@, id),
        forall|t: int| 0 <= t < r@.len() ==> (#[trigger] r@[t] as int) < calcs@.len(),
{
    let mut r: Vec<usize> = Vec::new();
    let mut i: usize = 0;
    while i < calcs.len()
        invariant
            i <= calcs@.len(),
            r@ == steps_of(calcs@.take(i as int), id),
            forall|t: int| 0 <= t < r@.len() ==> (#[trigger] r@[t] as int) < i,
        decreases calcs@.len() - i,
    {
        assert(calcs@.take(i + 1).drop_last() =~= calcs@.take(i as int));
        if calcs[i].id == id {
            r.push(i);
        }
        i = i + 1;
    }
    assert(calcs@.take(calcs@.len() as int) =~= calcs@);
    r
}

/// Writes the declaration line of a calculation.
fn write_init_line(s: &CalculationStructure, init_calcs: bool) -> (r: String)
    ensures
        r@ == init_line(*s, init_calcs),
{
    match s.initialization {
        CalcInit::NoInit => String::new(),
        CalcInit::Default => {
            if init_calcs {
                let mut r = String::from_str("var ");
                push_str(&mut r, s.name);
                push_str(&mut r, ": ");
                push_str(&mut r, s.wgsl_type);
                push_str(&mut r, ";");
                r
            } else {
                String::new()
            }
        },
        CalcInit::Const(init) => {
            if init_calcs {
                let mut r = String::from_str("var ");
                push_str(&mut r, s.name);
                push_str(&mut r, ": ");
                push_str(&mut r, s.wgsl_type);
                push_str(&mut r, " = ");
                push_str(&mut r, init);
                push_str(&mut r, ";");
                r
            } else {
                String::new()
            }
        },
    }
}

/// The lines of every registered calculation, ordered by calculation order:
/// its declaration (when `init_calcs`, an empty line otherwise or when it
/// needs none), then its steps ordered by step order. Steps of unregistered
/// calculations are left out.
pub fn gen_calculations(calcs: &Vec<CalculationInfo>, structures: &CalculationStructures, init_calcs: bool) -> (r: Lines)
    ensures
        calculations_written(structures.0@, calcs@, init_calcs, r@),
{
    let ghost structs = structures.0@;
    let mut keys: Vec<u64> = Vec::new();
    let mut i: usize = 0;
    while i < structures.0.len()
        invariant
            i <= structs.len(),
            structs == structures.0@,
            keys@ == structure_orders(structs).take(i as int),
        decreases structs.len() - i,
    {
        keys.push(structures.0[i].1.order as u64);
        i = i + 1;
        assert(keys@ =~= structure_orders(structs).take(i as int));
    }
    assert(keys@ =~= structure_orders(structs));
    let sp = sorted_positions_by_key(&keys);
    let mut out = Lines::new();
    let ghost mut cps: Seq<Seq<usize>> = Seq::empty();
    let mut k: usize = 0;
    while k < sp.len()
        invariant
            k <= sp@.len(),
            structs == structures.0@,
            is_stable_order(structure_orders(structs), sp@),
            cps.len() == k,
            forall|m: int| 0 <= m < k ==>
                is_stable_order(step_orders(calcs@, steps_of(calcs@, structs[sp@[m] as int].0)), #[trigger] cps[m]),
            out@ == calculation_lines(structs, calcs@, init_calcs, sp@.take(k as int), cps),
        decreases sp@.len() - k,
    {
        let pos = sp[k];
        assert((pos as int) < structs.len());
        let (id, s) = structures.0[pos];
        let steps = find_steps(calcs, id);
        let mut orders: Vec<u64> = Vec::new();
        let mut j: usize = 0;
        while j < steps.len()
            invariant
                j <= steps@.len(),
                steps@ == steps_of(calcs@, id),
                forall|t: int| 0 <= t < steps@.len() ==> (#[trigger] steps@[t] as int) < calcs@.len(),
                orders@ == step_orders(calcs@, steps@).take(j as int),
            decreases steps@.len() - j,
        {
            orders.push(calcs[steps[j]].order as u64);
            j = j + 1;
            assert(orders@ =~= step_orders(calcs@, steps@).take(j as int));
        }
        assert(orders@ =~= step_orders(calcs@, steps@));
        let cp = sorted_positions_by_key(&orders);
        let mut block = Lines::new().add(write_init_line(&s, init_calcs));
        let mut t: usize = 0;
        while t < cp.len()
            invariant
                t <= cp@.len(),
                is_stable_order(step_orders(calcs@, steps@), cp@),
                steps@ == steps_of(calcs@, id),
                forall|u: int| 0 <= u < steps@.len() ==> (#[trigger] steps@[u] as int) < calcs@.len(),
                block@ == seq![init_line(s, init_calcs)] + step_lines(s.name@, calcs@, steps@, cp@.take(t as int)),
            decreases cp@.len() - t,
        {
            let step = steps[cp[t]];
            let mut line = String::from_str(s.name);
            push_str(&mut line, " = ");
            push_str(&mut line, calcs[step].calculation.as_str());
            push_str(&mut line, ";");
            block = block.add(line);
            t = t + 1;
            assert(block@ =~= seq![init_line(s, init_calcs)] + step_lines(s.name@, calcs@, steps@, cp@.take(t as int)));
        }
        assert(cp@.take(cp@.len() as int) =~= cp@);
        let ghost old_out = out@;
        out = out.merge(block);
        proof {
            let old_cps = cps;
            cps = cps.push(cp@);
            assert(sp@.take(k + 1).drop_last() =~= sp@.take(k as int));
            assert(cps.drop_last() =~= old_cps);
            assert(sp@.take(k + 1)[k as int] == pos);
            assert(cps[k as int] == cp@);
            assert(out@ =~= calculation_lines(structs, calcs@, init_calcs, sp@.take(k + 1), cps));
        }
        k = k + 1;
    }
    assert(sp@.take(sp@.len() as int) =~= sp@);
    assert(calculation_orders(structures.0@, calcs@, sp@, cps));
    out
}

} // verus!
