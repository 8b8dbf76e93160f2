//! The work of one block: in which order connections are evaluated and
//! modules are worked, which samples of an output are looked at, and where
//! a gate output rises.

use vstd::prelude::*;
use vstd::string::StringExecFns;
use crate::graph::{port_defaults, port_names, GateState, GraphExecutor};
use crate::number::Number;
use crate::sequencing::{count_up, next_count};
use crate::text::{chars_of, contains, holds, same};

verus! {

/// One step of the work of a block.
#[derive(Debug, Clone, Copy, PartialEq, Eq, Structural)]
pub enum CycleStep {
    /// The connection with the index `connection` is evaluated into its
    /// input of the module with the index `module`.
    Evaluate { connection: usize, module: usize },
    /// The module with the index `module` works its block.
    Process { module: usize },
}

/// How often a step occurs among the steps `steps`.
pub open spec fn occurrences(steps: Seq<CycleStep>, step: CycleStep) -> nat
    decreases steps.len(),
{
    if steps.len() == 0 {
        0
    } else if steps.last() == step {
        occurrences(steps.drop_last(), step) + 1
    } else {
        occurrences(steps.drop_last(), step)
    }
}

/// A step occurs in two runs of steps as often as in the first and in the
/// second together.
pub proof fn lemma_occurrences_add(a: Seq<CycleStep>, b: Seq<CycleStep>, step: CycleStep)
    ensures
        occurrences(a + b, step) == occurrences(a, step) + occurrences(b, step),
    decreases b.len(),
{
    if b.len() == 0 {
        assert(a + b =~= a);
    } else {
        assert((a + b).drop_last() =~= a + b.drop_last());
        assert((a + b).last() == b.last());
        lemma_occurrences_add(a, b.drop_last(), step);
    }
}

impl GraphExecutor {
    /// The evaluations before the work of the module `m`: one for each of
    /// the first `n` connections that ends at the module, in their order.
    pub open spec fn evaluations(&self, m: int, n: int) -> Seq<CycleStep>
        decreases n,
    {
        if n <= 0 || n > self.connections.len() || m < 0 || m >= self.modules.len() {
            Seq::empty()
        } else if self.connections[n - 1].to_module@ == self.modules[m].name@ {
            self.evaluations(m, n - 1).push(
                CycleStep::Evaluate { connection: (n - 1) as usize, module: m as usize },
            )
        } else {
            self.evaluations(m, n - 1)
        }
    }

    /// The steps of the module `m`: its evaluations, then its work.
    pub open spec fn module_steps(&self, m: int) -> Seq<CycleStep> {
        self.evaluations(m, self.connections.len() as int).push(
            CycleStep::Process { module: m as usize },
        )
    }

    /// The steps of the first `m` modules.
    pub open spec fn plan_upto(&self, m: int) -> Seq<CycleStep>
        decreases m,
    {
        if m <= 0 || m > self.modules.len() {
            Seq::empty()
        } else {
            self.plan_upto(m - 1) + self.module_steps(m - 1)
        }
    }

    /// The steps of one block: for each module, in the order in which the
    /// modules were added, the evaluation of every connection that ends at
    /// it, then its work.
    pub open spec fn plan(&self) -> Seq<CycleStep> {
        self.plan_upto(self.modules.len() as int)
    }

    /// Among the evaluations of a module each connection occurs once if it
    /// ends at the module, and no other step occurs.
    pub proof fn lemma_evaluations(&self, m: int, n: int, step: CycleStep)
        requires
            0 <= m < self.modules.len(),
            0 <= n <= self.connections.len(),
        ensures
            occurrences(self.evaluations(m, n), step) == match step {
                CycleStep::Evaluate { connection, module } => if module == m && connection < n
                    && self.connections[connection as int].to_module@ == self.modules[m].name@ {
                    1nat
                } else {
                    0nat
                },
                CycleStep::Process { .. } => 0nat,
            },
        decreases n,
    {
        if n > 0 {
            self.lemma_evaluations(m, n - 1, step);
            if self.connections[n - 1].to_module@ == self.modules[m].name@ {
                let steps = self.evaluations(m, n);
                assert(steps.drop_last() =~= self.evaluations(m, n - 1));
            }
        }
    }

    /// Among the steps of the first `k` modules, the work of each of them
    /// occurs once, and the evaluation of a connection into one of them
    /// occurs once if the connection ends at it, else not at all.
    pub proof fn lemma_plan_upto(&self, k: int, step: CycleStep)
        requires
            0 <= k <= self.modules.len(),
        ensures
            occurrences(self.plan_upto(k), step) == match step {
                CycleStep::Evaluate { connection, module } => if module < k && connection
                    < self.connections.len() && self.connections[connection as int].to_module@
                    == self.modules[module as int].name@ {
                    1nat
                } else {
                    0nat
                },
                CycleStep::Process { module } => if module < k {
                    1nat
                } else {
                    0nat
                },
            },
        decreases k,
    {
        if k > 0 {
            self.lemma_plan_upto(k - 1, step);
            let evaluations = self.evaluations(k - 1, self.connections.len() as int);
            let steps = self.module_steps(k - 1);
            self.lemma_evaluations(k - 1, self.connections.len() as int, step);
            assert(steps.drop_last() =~= evaluations);
            lemma_occurrences_add(self.plan_upto(k - 1), steps, step);
        }
    }

    /// In one block every module works exactly once, and every connection
    /// that ends at a module is evaluated exactly once into that module.
    pub proof fn lemma_each_step_once(&self, step: CycleStep)
        ensures
            occurrences(self.plan(), step) == match step {
                CycleStep::Evaluate { connection, module } => if module < self.modules.len()
                    && connection < self.connections.len()
                    && self.connections[connection as int].to_module@
                    == self.modules[module as int].name@ {
                    1nat
                } else {
                    0nat
                },
                CycleStep::Process { module } => if module < self.modules.len() {
                    1nat
                } else {
                    0nat
                },
            },
    {
        self.lemma_plan_upto(self.modules.len() as int, step);
    }

    /// A module works behind its own evaluations and behind the work of the
    /// modules before it: the steps of the first `m + 1` modules end with
    /// the work of the module `m`, and the evaluations into the module `m`
    /// stand between the steps of the first `m` modules and that work.
    pub proof fn lemma_work_follows_evaluations(&self, m: int)
        requires
            0 <= m < self.modules.len(),
        ensures
            self.plan_upto(m + 1) == self.plan_upto(m) + self.evaluations(
                m,
                self.connections.len() as int,
            ) + seq![CycleStep::Process { module: m as usize }],
            self.plan_upto(m + 1).last() == (CycleStep::Process { module: m as usize }),
    {
        let e = self.evaluations(m, self.connections.len() as int);
        assert(self.module_steps(m) =~= e + seq![CycleStep::Process { module: m as usize }]);
        assert(self.plan_upto(m) + (e + seq![CycleStep::Process { module: m as usize }])
            =~= self.plan_upto(m) + e + seq![CycleStep::Process { module: m as usize }]);
    }

    /// Adds to `steps` the evaluations before the work of the module `m`.
    fn push_evaluations(&self, m: usize, steps: &mut Vec<CycleStep>)
        requires
            m < self.modules.len(),
        ensures
            final(steps)@ == old(steps)@ + self.evaluations(m as int, self.connections.len() as int),
    {
        let name = chars_of(self.modules[m].name.as_str());
        let mut c: usize = 0;
        assert(steps@ + Seq::<CycleStep>::empty() =~= steps@);
        while c < self.connections.len()
            invariant
                c <= self.connections.len(),
                m < self.modules.len(),
                name@ == self.modules[m as int].name@,
                steps@ == old(steps)@ + self.evaluations(m as int, c as int),
            decreases self.connections.len() - c,
        {
            if same(&chars_of(self.connections[c].to_module.as_str()), &name) {
                steps.push(CycleStep::Evaluate { connection: c, module: m });
                assert(steps@ =~= old(steps)@ + self.evaluations(m as int, c + 1));
            }
            c += 1;
        }
    }

    /// The steps of one block.
    pub fn plan_cycle(&self) -> (r: Vec<CycleStep>)
        ensures
            r@ == self.plan(),
    {
        let mut steps: Vec<CycleStep> = Vec::new();
        let mut m: usize = 0;
        while m < self.modules.len()
            invariant
                m <= self.modules.len(),
                steps@ == self.plan_upto(m as int),
            decreases self.modules.len() - m,
        {
            let ghost before = steps@;
            self.push_evaluations(m, &mut steps);
            steps.push(CycleStep::Process { module: m });
            assert(steps@ =~= before + self.module_steps(m as int));
            m += 1;
        }
        steps
    }

    /// The fills of the inputs of the module `m` for a block of
    /// `sample_count` samples: one for each input that the module declares,
    /// in their order, with the default value of the input.
    pub open spec fn module_fills(&self, m: int, sample_count: usize) -> Seq<InputFillView> {
        let node = self.modules[m].node;
        Seq::new(
            node.input_names().len(),
            |p: int|
                InputFillView {
                    module: m as usize,
                    port: node.input_names()[p],
                    length: sample_count,
                    value: node.input_defaults()[p],
                },
        )
    }

    /// The fills of the inputs of the first `m` modules.
    pub open spec fn fills_upto(&self, m: int, sample_count: usize) -> Seq<InputFillView>
        decreases m,
    {
        if m <= 0 || m > self.modules.len() {
            Seq::empty()
        } else {
            self.fills_upto(m - 1, sample_count) + self.module_fills(m - 1, sample_count)
        }
    }

    /// The fills at the beginning of a block of `sample_count` samples: for
    /// each module, in the order in which the modules were added, one for
    /// each input that it declares.
    pub open spec fn fills(&self, sample_count: usize) -> Seq<InputFillView> {
        self.fills_upto(self.modules.len() as int, sample_count)
    }

    /// Every input that a module declares is filled at the beginning of a
    /// block, in the length of the block and with its default value.
    pub proof fn lemma_every_input_is_filled(&self, m: int, p: int, sample_count: usize)
        requires
            0 <= m < self.modules.len(),
            0 <= p < self.modules[m].node.input_names().len(),
        ensures
            self.fills(sample_count).contains(
                InputFillView {
                    module: m as usize,
                    port: self.modules[m].node.input_names()[p],
                    length: sample_count,
                    value: self.modules[m].node.input_defaults()[p],
                },
            ),
    {
        self.lemma_filled_upto(m, p, sample_count, self.modules.len() as int);
    }

    /// Among the fills of the first `k` modules are those of each of them.
    proof fn lemma_filled_upto(&self, m: int, p: int, sample_count: usize, k: int)
        requires
            0 <= m < k <= self.modules.len(),
            0 <= p < self.modules[m].node.input_names().len(),
        ensures
            self.fills_upto(k, sample_count).contains(
                InputFillView {
                    module: m as usize,
                    port: self.modules[m].node.input_names()[p],
                    length: sample_count,
                    value: self.modules[m].node.input_defaults()[p],
                },
            ),
        decreases k,
    {
        let before = self.fills_upto(k - 1, sample_count);
        let here = self.module_fills(k - 1, sample_count);
        let all = self.fills_upto(k, sample_count);
        let fill = InputFillView {
            module: m as usize,
            port: self.modules[m].node.input_names()[p],
            length: sample_count,
            value: self.modules[m].node.input_defaults()[p],
        };
        if m == k - 1 {
            assert(here[p] == fill);
            assert(all[before.len() + p] == fill);
        } else {
            self.lemma_filled_upto(m, p, sample_count, k - 1);
            let at = choose|i: int| 0 <= i < before.len() && before[i] == fill;
            assert(all[at] == fill);
        }
    }

    /// Every fill of a block is for an input that a module of the graph
    /// declares, in the length of the block.
    pub proof fn lemma_fills_are_inputs(&self, sample_count: usize, k: int, i: int)
        requires
            0 <= k <= self.modules.len(),
            0 <= i < self.fills_upto(k, sample_count).len(),
        ensures
            ({
                let fill = self.fills_upto(k, sample_count)[i];
                &&& fill.module < k
                &&& fill.length == sample_count
                &&& self.modules[fill.module as int].node.input_names().contains(fill.port)
            }),
        decreases k,
    {
        let before = self.fills_upto(k - 1, sample_count);
        if i < before.len() {
            self.lemma_fills_are_inputs(sample_count, k - 1, i);
        } else {
            let names = self.modules[k - 1].node.input_names();
            assert(names[i - before.len()] == self.fills_upto(k, sample_count)[i].port);
        }
    }

    /// The fills at the beginning of a block of `sample_count` samples.
    pub fn plan_fills(&self, sample_count: usize) -> (r: Vec<InputFill>)
        ensures
            fill_views(r@) == self.fills(sample_count),
            forall|i: int| 0 <= i < r.len() ==> (#[trigger] r[i]).value.wf(),
    {
        let mut fills: Vec<InputFill> = Vec::new();
        let mut m: usize = 0;
        assert(fill_views(fills@) =~= self.fills_upto(0, sample_count));
        while m < self.modules.len()
            invariant
                m <= self.modules.len(),
                fill_views(fills@) == self.fills_upto(m as int, sample_count),
                forall|i: int| 0 <= i < fills.len() ==> (#[trigger] fills[i]).value.wf(),
            decreases self.modules.len() - m,
        {
            let ports = self.modules[m].node.inputs();
            let ghost before = self.fills_upto(m as int, sample_count);
            let ghost here = self.module_fills(m as int, sample_count);
            let mut p: usize = 0;
            assert(fill_views(fills@) =~= before + here.take(0));
            assert(port_names(ports@).len() == ports.len());
            while p < ports.len()
                invariant
                    p <= ports.len(),
                    m < self.modules.len(),
                    ports.len() == here.len(),
                    before == self.fills_upto(m as int, sample_count),
                    here == self.module_fills(m as int, sample_count),
                    port_names(ports@) == self.modules[m as int].node.input_names(),
                    port_defaults(ports@) == self.modules[m as int].node.input_defaults(),
                    crate::graph::ports_wf(ports@),
                    fill_views(fills@) == before + here.take(p as int),
                    forall|i: int| 0 <= i < fills.len() ==> (#[trigger] fills[i]).value.wf(),
                decreases ports.len() - p,
            {
                let fill = InputFill {
                    module: m,
                    port: ports[p].name.clone(),
                    length: sample_count,
                    value: ports[p].default_value.clone(),
                };
                proof {
                    assert(port_names(ports@)[p as int] == ports[p as int].name@);
                    assert(port_defaults(ports@)[p as int] == ports[p as int].default_value@);
                    assert(fill@ == here[p as int]);
                    assert(ports[p as int].default_value.wf());
                }
                let ghost had = fill_views(fills@);
                fills.push(fill);
                assert(fill_views(fills@) =~= had.push(here[p as int]));
                assert(before + here.take(p + 1) =~= (before + here.take(p as int)).push(
                    here[p as int],
                ));
                p += 1;
            }
            assert(here.take(p as int) =~= here);
            m += 1;
        }
        fills
    }

    /// Begins the work of a block: hands out its steps and counts the block.
    pub fn process(&mut self, sample_count: usize) -> (r: CyclePlan)
        ensures
            block_begun(*old(self), *final(self), sample_count, r),
            r.cycle == old(self).current_cycle,
            r.sample_count == sample_count,
            r.sample_step == sample_step_of(sample_count),
            r.steps@ == old(self).plan(),
            final(self).current_cycle == next_count(old(self).current_cycle),
            final(self).modules == old(self).modules,
            final(self).connections == old(self).connections,
            final(self).execution_order == old(self).execution_order,
            final(self).gate_states == old(self).gate_states,
    {
        let fills = self.plan_fills(sample_count);
        let steps = self.plan_cycle();
        let cycle = self.current_cycle;
        self.current_cycle = count_up(self.current_cycle);
        CyclePlan { cycle, sample_count, sample_step: sample_step(sample_count), fills, steps }
    }
}

/// An input that is made ready at the beginning of a block: the buffer of
/// the input `port` of the module with the index `module` gets the length
/// `length` and holds the value `value` at every place.
#[derive(Debug)]
pub struct InputFill {
    pub module: usize,
    pub port: String,
    pub length: usize,
    pub value: Number,
}

/// What an `InputFill` holds.
pub struct InputFillView {
    pub module: usize,
    pub port: Seq<char>,
    pub length: usize,
    pub value: Seq<char>,
}

impl View for InputFill {
    type V = InputFillView;

    open spec fn view(&self) -> InputFillView {
        InputFillView {
            module: self.module,
            port: self.port@,
            length: self.length,
            value: self.value@,
        }
    }
}

/// The views of a list of fills.
pub open spec fn fill_views(fills: Seq<InputFill>) -> Seq<InputFillView> {
    Seq::new(fills.len(), |i: int| fills[i]@)
}

/// The work of one block.
pub struct CyclePlan {
    /// The number of the block, counted from zero.
    pub cycle: usize,
    /// The number of samples in the block.
    pub sample_count: usize,
    /// Every how many samples an output is looked at.
    pub sample_step: usize,
    /// The inputs to be made ready before the first step.
    pub fills: Vec<InputFill>,
    /// The steps of the block, in order.
    pub steps: Vec<CycleStep>,
}

/// Whether the graph `after` and the plan `r` are what the beginning of a
/// block of `sample_count` samples makes of the graph `before`: the plan
/// holds the inputs to be made ready and the steps of the block, and the
/// block is counted. The modules,
/// the connections and the levels of gates stay as they are.
pub open spec fn block_begun(
    before: GraphExecutor,
    after: GraphExecutor,
    sample_count: usize,
    r: CyclePlan,
) -> bool {
    &&& r.cycle == before.current_cycle
    &&& r.sample_count == sample_count
    &&& r.sample_step == sample_step_of(sample_count)
    &&& fill_views(r.fills@) == before.fills(sample_count)
    &&& forall|i: int| 0 <= i < r.fills.len() ==> (#[trigger] r.fills[i]).value.wf()
    &&& r.steps@ == before.plan()
    &&& after.current_cycle == next_count(before.current_cycle)
    &&& after.modules == before.modules
    &&& after.connections == before.connections
    &&& after.execution_order == before.execution_order
    &&& after.gate_states == before.gate_states
}

/// Every how many samples an output is looked at: every sample of a block
/// of up to 128 samples, every 64th of a longer one.
pub open spec fn sample_step_of(sample_count: usize) -> usize {
    if sample_count > 128 {
        64
    } else {
        1
    }
}

/// Every how many samples an output is looked at.
pub fn sample_step(sample_count: usize) -> (r: usize)
    ensures
        r == sample_step_of(sample_count),
{
    if sample_count > 128 {
        64
    } else {
        1
    }
}

/// Whether the sample `i` of a block of `sample_count` samples is looked at.
pub fn is_sampled(sample_count: usize, i: usize) -> (r: bool)
    ensures
        r == (i < sample_count && i % sample_step_of(sample_count) == 0),
{
    i < sample_count && i % sample_step(sample_count) == 0
}

/// The index of the sample `i` of the block `cycle` among all samples;
/// `None` where it is beyond the range of `usize`.
pub fn sample_index(cycle: usize, sample_count: usize, i: usize) -> (r: Option<usize>)
    ensures
        match r {
            Some(index) => index == cycle * sample_count + i,
            None => cycle * sample_count + i > usize::MAX,
        },
{
    match cycle.checked_mul(sample_count) {
        Some(before) => before.checked_add(i),
        None => {
            assert(cycle * sample_count + i > usize::MAX);
            None
        },
    }
}

/// Whether an output of this name is a gate output: its name holds one of
/// the words `eor`, `eoc`, `gate`, `trigger` and `clock`.
pub open spec fn is_gate_name(name: Seq<char>) -> bool {
    contains(name, "eor"@) || contains(name, "eoc"@) || contains(name, "gate"@) || contains(
        name,
        "trigger"@,
    ) || contains(name, "clock"@)
}

/// Tests whether an output of this name is a gate output.
pub fn is_gate_output(name: &str) -> (r: bool)
    ensures
        r == is_gate_name(name@),
{
    let v = chars_of(name);
    holds(&v, "eor") || holds(&v, "eoc") || holds(&v, "gate") || holds(&v, "trigger") || holds(
        &v,
        "clock",
    )
}

/// The level before the sample `i` of a block: the level before the block
/// for the first sample, else that of the sample before.
pub open spec fn level_before(before: bool, highs: Seq<bool>, i: int) -> bool {
    if i <= 0 {
        before
    } else {
        highs[i - 1]
    }
}

/// Whether the output rises at the sample `i`: it is high there and was not
/// high before.
pub open spec fn rises_at(before: bool, highs: Seq<bool>, i: int) -> bool {
    0 <= i < highs.len() && highs[i] && !level_before(before, highs, i)
}

/// The samples among the first `n` at which the output rises, in order.
pub open spec fn edges_upto(before: bool, highs: Seq<bool>, n: int) -> Seq<int>
    decreases n,
{
    if n <= 0 || n > highs.len() {
        Seq::empty()
    } else if rises_at(before, highs, n - 1) {
        edges_upto(before, highs, n - 1).push(n - 1)
    } else {
        edges_upto(before, highs, n - 1)
    }
}

/// The samples of a block at which the output rises, in order.
pub open spec fn edges(before: bool, highs: Seq<bool>) -> Seq<int> {
    edges_upto(before, highs, highs.len() as int)
}

/// The level behind a block: that of its last sample, and the level before
/// the block where the block is empty.
pub open spec fn level_after(before: bool, highs: Seq<bool>) -> bool {
    level_before(before, highs, highs.len() as int)
}

/// The positions `s`, each moved on by `by`.
pub open spec fn moved(s: Seq<int>, by: int) -> Seq<int> {
    Seq::new(s.len(), |i: int| s[i] + by)
}

/// The edges among the first samples are those at which the output rises:
/// each once, in ascending order.
pub proof fn lemma_edges_are_rises(before: bool, highs: Seq<bool>, n: int)
    requires
        0 <= n <= highs.len(),
    ensures
        forall|i: int|
            edges_upto(before, highs, n).contains(i) <==> 0 <= i < n && rises_at(before, highs, i),
        forall|a: int, b: int|
            0 <= a < b < edges_upto(before, highs, n).len() ==> edges_upto(before, highs, n)[a]
                < edges_upto(before, highs, n)[b],
        forall|a: int|
            0 <= a < edges_upto(before, highs, n).len() ==> 0 <= (#[trigger] edges_upto(
                before,
                highs,
                n,
            )[a]) < n,
    decreases n,
{
    if n > 0 {
        lemma_edges_are_rises(before, highs, n - 1);
        let shorter = edges_upto(before, highs, n - 1);
        let all = edges_upto(before, highs, n);
        if rises_at(before, highs, n - 1) {
            assert(all == shorter.push(n - 1));
            assert(all[all.len() - 1] == n - 1);
            assert forall|i: int| all.contains(i) <==> 0 <= i < n && rises_at(
                before,
                highs,
                i,
            ) by {
                if all.contains(i) {
                    let k = choose|k: int| 0 <= k < all.len() && all[k] == i;
                    if k < shorter.len() {
                        assert(shorter[k] == i);
                        assert(shorter.contains(i));
                    }
                }
                if 0 <= i < n && rises_at(before, highs, i) {
                    if i == n - 1 {
                        assert(all[all.len() - 1] == i);
                    } else {
                        assert(shorter.contains(i));
                        let k = choose|k: int| 0 <= k < shorter.len() && shorter[k] == i;
                        assert(all[k] == i);
                    }
                }
            }
        }
    }
}

/// The edges of two blocks in a row are those of the first block followed
/// by those of the second, found with the level that the first block left:
/// a rise is seen once, also where it falls between the two blocks.
pub proof fn lemma_edges_across_blocks(before: bool, first: Seq<bool>, second: Seq<bool>)
    ensures
        edges(before, first + second) == edges(before, first) + moved(
            edges(level_after(before, first), second),
            first.len() as int,
        ),
        level_after(before, first + second) == level_after(level_after(before, first), second),
{
    lemma_edges_prefix(before, first, second, second.len() as int);
    assert((first + second).len() == first.len() + second.len());
}

/// The edges of the first block and of the first `n` samples of the second.
pub proof fn lemma_edges_prefix(before: bool, first: Seq<bool>, second: Seq<bool>, n: int)
    requires
        0 <= n <= second.len(),
    ensures
        edges_upto(before, first + second, first.len() + n) == edges(before, first) + moved(
            edges_upto(level_after(before, first), second, n),
            first.len() as int,
        ),
    decreases n,
{
    let both = first + second;
    let between = level_after(before, first);
    if n == 0 {
        lemma_edges_same_prefix(before, first, both, first.len() as int);
        assert(moved(edges_upto(between, second, 0), first.len() as int) =~= Seq::<int>::empty());
        assert(edges(before, first) + Seq::<int>::empty() =~= edges(before, first));
    } else {
        lemma_edges_prefix(before, first, second, n - 1);
        let i = first.len() + n - 1;
        assert(both[i] == second[n - 1]);
        assert(level_before(before, both, i) == level_before(between, second, n - 1)) by {
            if n - 1 > 0 {
                assert(both[i - 1] == second[n - 2]);
            } else if first.len() > 0 {
                assert(both[i - 1] == first[first.len() - 1]);
            }
        }
        assert(rises_at(before, both, i) == rises_at(between, second, n - 1));
        if rises_at(between, second, n - 1) {
            assert(moved(edges_upto(between, second, n - 1).push(n - 1), first.len() as int)
                =~= moved(edges_upto(between, second, n - 1), first.len() as int).push(i));
            assert((edges(before, first) + moved(
                edges_upto(between, second, n - 1),
                first.len() as int,
            )).push(i) =~= edges(before, first) + moved(
                edges_upto(between, second, n - 1),
                first.len() as int,
            ).push(i));
        }
    }
}

/// Blocks that begin with the same samples have the same edges among them.
pub proof fn lemma_edges_same_prefix(before: bool, a: Seq<bool>, b: Seq<bool>, n: int)
    requires
        0 <= n <= a.len() <= b.len(),
        forall|i: int| 0 <= i < a.len() ==> a[i] == b[i],
    ensures
        edges_upto(before, a, n) == edges_upto(before, b, n),
    decreases n,
{
    if n > 0 {
        lemma_edges_same_prefix(before, a, b, n - 1);
        assert(rises_at(before, a, n - 1) == rises_at(before, b, n - 1));
    }
}

/// The positions held in a vector.
pub open spec fn positions(v: Seq<usize>) -> Seq<int> {
    Seq::new(v.len(), |i: int| v[i] as int)
}

/// Finds the samples of a block at which a gate output rises. `before` is
/// the level behind the block before, `highs` says for each sample whether
/// the output is high.
pub fn rising_edges(before: bool, highs: &Vec<bool>) -> (r: Vec<usize>)
    ensures
        positions(r@) == edges(before, highs@),
{
    let mut found: Vec<usize> = Vec::new();
    let mut last = before;
    let mut i: usize = 0;
    assert(positions(found@) =~= Seq::<int>::empty());
    while i < highs.len()
        invariant
            i <= highs.len(),
            last == level_before(before, highs@, i as int),
            positions(found@) == edges_upto(before, highs@, i as int),
        decreases highs.len() - i,
    {
        let ghost so_far = positions(found@);
        if highs[i] && !last {
            found.push(i);
            assert(positions(found@) =~= so_far.push(i as int));
        }
        last = highs[i];
        i += 1;
    }
    found
}

/// The position of the first of the levels `states` that is kept under
/// `key` at or after `i`; the number of levels where there is none.
pub open spec fn level_index_from(states: Seq<GateState>, key: Seq<char>, i: int) -> int
    decreases states.len() - i,
{
    if i < 0 || i >= states.len() {
        states.len() as int
    } else if states[i].key@ == key {
        i
    } else {
        level_index_from(states, key, i + 1)
    }
}

/// The level that is kept under `key` among the levels `states`: low where
/// none is kept under it.
pub open spec fn level_of(states: Seq<GateState>, key: Seq<char>) -> bool {
    let i = level_index_from(states, key, 0);
    i < states.len() && states[i].high
}

/// A key is found at a place that holds it, if it is found.
pub proof fn lemma_level_found(states: Seq<GateState>, key: Seq<char>, from: int)
    requires
        0 <= from <= states.len(),
    ensures
        from <= level_index_from(states, key, from) <= states.len(),
        level_index_from(states, key, from) < states.len() ==> states[level_index_from(
            states,
            key,
            from,
        )].key@ == key,
    decreases states.len() - from,
{
    if from < states.len() && states[from].key@ != key {
        lemma_level_found(states, key, from + 1);
    }
}

/// Levels kept under the same keys are found at the same place.
pub proof fn lemma_same_keys(a: Seq<GateState>, b: Seq<GateState>, key: Seq<char>, from: int)
    requires
        a.len() == b.len(),
        forall|i: int| 0 <= i < a.len() ==> a[i].key@ == b[i].key@,
    ensures
        level_index_from(a, key, from) == level_index_from(b, key, from),
    decreases a.len() - from,
{
    if 0 <= from < a.len() && a[from].key@ != key {
        lemma_same_keys(a, b, key, from + 1);
    }
}

/// A level that is kept behind all others is found there under a new key,
/// and the levels under other keys are found where they were.
pub proof fn lemma_level_pushed(
    before: Seq<GateState>,
    added: GateState,
    key: Seq<char>,
    from: int,
)
    requires
        0 <= from <= before.len(),
    ensures
        added.key@ == key && level_index_from(before, key, from) == before.len()
            ==> level_index_from(before.push(added), key, from) == before.len(),
        added.key@ != key ==> (level_index_from(before.push(added), key, from) < before.len() + 1
            <==> level_index_from(before, key, from) < before.len()),
        added.key@ != key && level_index_from(before, key, from) < before.len()
            ==> level_index_from(before.push(added), key, from) == level_index_from(
            before,
            key,
            from,
        ),
    decreases before.len() - from,
{
    let after = before.push(added);
    if from < before.len() {
        assert(after[from] == before[from]);
        if before[from].key@ != key {
            lemma_level_pushed(before, added, key, from + 1);
        }
    } else {
        assert(after[from] == added);
        assert(level_index_from(after, key, from + 1) == after.len());
    }
}

/// Graphs that keep the same levels of gates have the same level of every
/// gate output.
pub proof fn lemma_levels_kept(a: GraphExecutor, b: GraphExecutor, module: Seq<char>, port: Seq<char>)
    requires
        a.gate_states == b.gate_states,
    ensures
        a.gate_level(module, port) == b.gate_level(module, port),
{
}

impl GraphExecutor {
    /// The name under which the level of a gate output is kept.
    pub open spec fn gate_key(module: Seq<char>, port: Seq<char>) -> Seq<char> {
        module + "."@ + port
    }

    /// The position of the first level kept under `key` at or after `i`; the
    /// number of levels kept where there is none.
    pub open spec fn gate_index_from(&self, key: Seq<char>, i: int) -> int {
        level_index_from(self.gate_states@, key, i)
    }

    /// The last level that was seen of the output `port` of the module
    /// `module`: low where none was seen yet.
    pub open spec fn gate_level(&self, module: Seq<char>, port: Seq<char>) -> bool {
        level_of(self.gate_states@, Self::gate_key(module, port))
    }

    /// Finds the level kept under `key`.
    fn find_gate(&self, key: &str) -> (r: Option<usize>)
        ensures
            match r {
                Some(i) => i == self.gate_index_from(key@, 0) && i < self.gate_states.len()
                    && self.gate_states[i as int].key@ == key@,
                None => self.gate_index_from(key@, 0) == self.gate_states.len(),
            },
    {
        let wanted = chars_of(key);
        let mut i: usize = 0;
        while i < self.gate_states.len()
            invariant
                i <= self.gate_states.len(),
                wanted@ == key@,
                self.gate_index_from(key@, 0) == self.gate_index_from(key@, i as int),
            decreases self.gate_states.len() - i,
        {
            if same(&chars_of(self.gate_states[i].key.as_str()), &wanted) {
                return Some(i);
            }
            i += 1;
        }
        None
    }

    /// Looks at a block of a gate output: finds the samples at which the
    /// output rises, taking up the level that the block before left, and
    /// keeps the level that this block leaves.
    pub fn observe_gate_block(&mut self, module: &str, port: &str, highs: &Vec<bool>) -> (r: Vec<
        usize,
    >)
        ensures
            positions(r@) == edges(old(self).gate_level(module@, port@), highs@),
            final(self).gate_level(module@, port@) == level_after(
                old(self).gate_level(module@, port@),
                highs@,
            ),
            forall|key: Seq<char>|
                key != Self::gate_key(module@, port@) ==> #[trigger] level_of(
                    final(self).gate_states@,
                    key,
                ) == level_of(old(self).gate_states@, key),
            final(self).modules == old(self).modules,
            final(self).connections == old(self).connections,
            final(self).execution_order == old(self).execution_order,
            final(self).current_cycle == old(self).current_cycle,
    {
        let key = String::from_str(module).concat(".").concat(port);
        let found = self.find_gate(key.as_str());
        let before = match found {
            Some(i) => self.gate_states[i].high,
            None => false,
        };
        let r = rising_edges(before, highs);
        let after = if highs.len() == 0 {
            before
        } else {
            highs[highs.len() - 1]
        };
        match found {
            Some(i) => {
                let ghost name = key@;
                self.gate_states.set(i, GateState { key, high: after });
                proof {
                    let now = self.gate_states@;
                    let was = old(self).gate_states@;
                    lemma_same_keys(now, was, name, 0);
                    assert forall|other: Seq<char>| other != name implies #[trigger] level_of(
                        now,
                        other,
                    ) == level_of(was, other) by {
                        lemma_same_keys(now, was, other, 0);
                        lemma_level_found(was, other, 0);
                    }
                }
            },
            None => {
                let ghost name = key@;
                self.gate_states.push(GateState { key, high: after });
                proof {
                    let now = self.gate_states@;
                    let was = old(self).gate_states@;
                    assert(now =~= was.push(now.last()));
                    lemma_level_pushed(was, now.last(), name, 0);
                    assert forall|other: Seq<char>| other != name implies #[trigger] level_of(
                        now,
                        other,
                    ) == level_of(was, other) by {
                        lemma_level_pushed(was, now.last(), other, 0);
                        lemma_level_found(was, other, 0);
                    }
                }
            },
        }
        r
    }
}

/// How a block of the stereo output is laid into the frames of the audio
/// device.
#[derive(Debug, Clone, Copy, PartialEq, Eq, Structural)]
pub struct FrameLayout {
    /// The number of samples that the graph is asked for: one for each
    /// whole frame of the device.
    pub frames: usize,
    /// The number of frames, from the first on, that take a sample.
    pub filled: usize,
    /// Whether a frame takes the left and the right sample apart, in its
    /// first two channels; else it takes their mean in its only channel.
    pub stereo: bool,
}

/// The smaller of two counts.
pub open spec fn smaller(a: usize, b: usize) -> usize {
    if a < b {
        a
    } else {
        b
    }
}

/// Lays a block of the stereo output into the audio device's frames of
/// `channels` samples each, `data_len` samples in all. `left` and `right`
/// are the lengths of the two output buffers. A frame takes a sample
/// where both buffers have one; the frames behind stay silent.
pub fn frame_layout(data_len: usize, channels: usize, left: usize, right: usize) -> (r: FrameLayout)
    requires
        channels > 0,
    ensures
        r.frames == data_len / channels,
        r.filled == smaller(r.frames, smaller(left, right)),
        r.stereo == (channels >= 2),
        r.filled * channels <= data_len,
{
    let frames = data_len / channels;
    let both = if left < right {
        left
    } else {
        right
    };
    let filled = if frames < both {
        frames
    } else {
        both
    };
    assert(filled * channels <= data_len) by (nonlinear_arith)
        requires
            filled <= data_len / channels,
            channels > 0,
    ;
    FrameLayout { frames, filled, stereo: channels >= 2 }
}

} // verus!
