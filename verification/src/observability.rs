//! What an observer of the graph is told, and observers that collect it or
//! make lines for the console of it.

use vstd::prelude::*;
use vstd::string::StringExecFns;
use crate::number::{decimal_digits, decimal_text, Number};
use crate::text::{chars_of, same, string_from};

verus! {

/// A sample of an output that was looked at.
#[derive(Debug)]
pub struct SignalEvent {
    pub module: String,
    pub port: String,
    pub sample_index: usize,
    pub value: Number,
}

/// A gate that fired: the module, its gate output, the index of the sample.
#[derive(Debug)]
pub struct GateEvent {
    pub module: String,
    pub gate: String,
    pub sample_index: usize,
    pub triggered: bool,
}

/// A parameter that was set.
#[derive(Debug)]
pub struct ParameterEvent {
    pub module: String,
    pub parameter: String,
    pub value: Number,
}

impl Clone for SignalEvent {
    fn clone(&self) -> (r: Self)
        ensures
            r@ == self@,
            r.module@ == self.module@,
            r.port@ == self.port@,
            r.sample_index == self.sample_index,
            r.value@ == self.value@,
    {
        SignalEvent {
            module: self.module.clone(),
            port: self.port.clone(),
            sample_index: self.sample_index,
            value: self.value.clone(),
        }
    }
}

impl Clone for GateEvent {
    fn clone(&self) -> (r: Self)
        ensures
            r@ == self@,
            r.module@ == self.module@,
            r.gate@ == self.gate@,
            r.sample_index == self.sample_index,
            r.triggered == self.triggered,
    {
        GateEvent {
            module: self.module.clone(),
            gate: self.gate.clone(),
            sample_index: self.sample_index,
            triggered: self.triggered,
        }
    }
}

impl Clone for ParameterEvent {
    fn clone(&self) -> (r: Self)
        ensures
            r@ == self@,
            r.module@ == self.module@,
            r.parameter@ == self.parameter@,
            r.value@ == self.value@,
    {
        ParameterEvent {
            module: self.module.clone(),
            parameter: self.parameter.clone(),
            value: self.value.clone(),
        }
    }
}

/// What a `SignalEvent` holds.
pub struct SignalEventView {
    pub module: Seq<char>,
    pub port: Seq<char>,
    pub sample_index: usize,
    pub value: Seq<char>,
}

/// What a `GateEvent` holds.
pub struct GateEventView {
    pub module: Seq<char>,
    pub gate: Seq<char>,
    pub sample_index: usize,
    pub triggered: bool,
}

/// What a `ParameterEvent` holds.
pub struct ParameterEventView {
    pub module: Seq<char>,
    pub parameter: Seq<char>,
    pub value: Seq<char>,
}

impl View for SignalEvent {
    type V = SignalEventView;

    open spec fn view(&self) -> SignalEventView {
        SignalEventView {
            module: self.module@,
            port: self.port@,
            sample_index: self.sample_index,
            value: self.value@,
        }
    }
}

impl View for GateEvent {
    type V = GateEventView;

    open spec fn view(&self) -> GateEventView {
        GateEventView {
            module: self.module@,
            gate: self.gate@,
            sample_index: self.sample_index,
            triggered: self.triggered,
        }
    }
}

impl View for ParameterEvent {
    type V = ParameterEventView;

    open spec fn view(&self) -> ParameterEventView {
        ParameterEventView { module: self.module@, parameter: self.parameter@, value: self.value@ }
    }
}

/// Tests whether two names are the same text.
fn same_name(a: &str, b: &str) -> (r: bool)
    ensures
        r == (a@ == b@),
{
    same(&chars_of(a), &chars_of(b))
}

impl SignalEvent {
    /// Whether the event came from the output `port` of the module `module`.
    pub open spec fn is_of(&self, module: Seq<char>, port: Seq<char>) -> bool {
        self.module@ == module && self.port@ == port
    }

    /// Tests whether the event came from the output `port` of the module `module`.
    pub fn belongs_to(&self, module: &str, port: &str) -> (r: bool)
        ensures
            r == self.is_of(module@, port@),
    {
        same_name(self.module.as_str(), module) && same_name(self.port.as_str(), port)
    }
}

impl GateEvent {
    /// Whether the event came from the output `gate` of the module `module`.
    pub open spec fn is_of(&self, module: Seq<char>, gate: Seq<char>) -> bool {
        self.module@ == module && self.gate@ == gate
    }

    /// Tests whether the event came from the output `gate` of the module `module`.
    pub fn belongs_to(&self, module: &str, gate: &str) -> (r: bool)
        ensures
            r == self.is_of(module@, gate@),
    {
        same_name(self.module.as_str(), module) && same_name(self.gate.as_str(), gate)
    }
}

/// The views of a list of samples that were looked at.
pub open spec fn signal_views(events: Seq<SignalEvent>) -> Seq<SignalEventView> {
    Seq::new(events.len(), |i: int| events[i]@)
}

/// The views of a list of gate events.
pub open spec fn gate_views(events: Seq<GateEvent>) -> Seq<GateEventView> {
    Seq::new(events.len(), |i: int| events[i]@)
}

/// The views of a list of parameters that were set.
pub open spec fn parameter_views(events: Seq<ParameterEvent>) -> Seq<ParameterEventView> {
    Seq::new(events.len(), |i: int| events[i]@)
}

/// What an observer has kept of what it was told: the events of each
/// sort, in the order in which they came, and the number of the block
/// whose work began last.
pub struct Observations {
    pub signals: Seq<SignalEventView>,
    pub gates: Seq<GateEventView>,
    pub parameters: Seq<ParameterEventView>,
    pub cycle_count: usize,
}

impl Observations {
    /// These observations and after them a sample that was looked at.
    pub open spec fn with_signal(self, event: SignalEventView) -> Observations {
        Observations { signals: self.signals.push(event), ..self }
    }

    /// These observations and after them a gate event.
    pub open spec fn with_gate(self, event: GateEventView) -> Observations {
        Observations { gates: self.gates.push(event), ..self }
    }

    /// These observations and after them a parameter that was set.
    pub open spec fn with_parameter(self, event: ParameterEventView) -> Observations {
        Observations { parameters: self.parameters.push(event), ..self }
    }

    /// These observations, with the work of the block `cycle` begun.
    pub open spec fn at_cycle(self, cycle: usize) -> Observations {
        Observations { cycle_count: cycle, ..self }
    }
}

/// What an observer of the graph is told.
pub trait SignalObserver {
    /// What the observer has kept of what it was told, for an observer
    /// that keeps it. One that keeps nothing is free in what it does with
    /// what it is told.
    open spec fn kept(&self) -> Option<Observations> {
        None
    }

    /// A sample of an output was looked at.
    fn observe_signal(&mut self, event: &SignalEvent)
        ensures
            old(self).kept() is Some ==> final(self).kept() == Some(
                old(self).kept()->0.with_signal(event@),
            ),
    ;

    /// A gate output rose.
    fn observe_gate(&mut self, event: &GateEvent)
        ensures
            old(self).kept() is Some ==> final(self).kept() == Some(
                old(self).kept()->0.with_gate(event@),
            ),
    ;

    /// A parameter was set.
    fn observe_parameter(&mut self, event: &ParameterEvent)
        ensures
            old(self).kept() is Some ==> final(self).kept() == Some(
                old(self).kept()->0.with_parameter(event@),
            ),
    ;

    /// The work of the block `cycle` begins.
    fn begin_process_cycle(&mut self, cycle: usize)
        ensures
            old(self).kept() is Some ==> final(self).kept() == Some(
                old(self).kept()->0.at_cycle(cycle),
            ),
    ;

    /// The work of the block `cycle` is done.
    fn end_process_cycle(&mut self, cycle: usize)
        ensures
            final(self).kept() == old(self).kept(),
    ;
}

/// An observer that keeps what it is told.
pub struct ObservationCollector {
    pub signals: Vec<SignalEvent>,
    pub gates: Vec<GateEvent>,
    pub parameters: Vec<ParameterEvent>,
    /// The number of the block that began last.
    pub cycle_count: usize,
}

/// The values of the events among the first `n` of `events` that came from
/// the output `port` of the module `module`, in order.
pub open spec fn values_among(
    events: Seq<SignalEvent>,
    module: Seq<char>,
    port: Seq<char>,
    n: int,
) -> Seq<Seq<char>>
    decreases n,
{
    if n <= 0 || n > events.len() {
        Seq::empty()
    } else if events[n - 1].is_of(module, port) {
        values_among(events, module, port, n - 1).push(events[n - 1].value@)
    } else {
        values_among(events, module, port, n - 1)
    }
}

/// The positions of the events among the first `n` of `events` that came
/// from the output `gate` of the module `module`, in order.
pub open spec fn gates_among(events: Seq<GateEvent>, module: Seq<char>, gate: Seq<char>, n: int) -> Seq<
    int,
>
    decreases n,
{
    if n <= 0 || n > events.len() {
        Seq::empty()
    } else if events[n - 1].is_of(module, gate) {
        gates_among(events, module, gate, n - 1).push(n - 1)
    } else {
        gates_among(events, module, gate, n - 1)
    }
}

/// The number of events among the first `n` of `events` that came from the
/// output `gate` of the module `module` and fired.
pub open spec fn fired_among(events: Seq<GateEvent>, module: Seq<char>, gate: Seq<char>, n: int) -> nat
    decreases n,
{
    if n <= 0 || n > events.len() {
        0
    } else {
        let before = fired_among(events, module, gate, n - 1);
        if events[n - 1].is_of(module, gate) && events[n - 1].triggered {
            before + 1
        } else {
            before
        }
    }
}

impl ObservationCollector {
    /// A collector that was told nothing yet.
    pub fn new() -> (r: Self)
        ensures
            r.signals@.len() == 0,
            r.gates@.len() == 0,
            r.parameters@.len() == 0,
            r.cycle_count == 0,
    {
        ObservationCollector {
            signals: Vec::new(),
            gates: Vec::new(),
            parameters: Vec::new(),
            cycle_count: 0,
        }
    }

    /// The samples of the output `port` of the module `module` that were
    /// looked at, in order.
    pub fn get_signal_values(&self, module: &str, port: &str) -> (r: Vec<Number>)
        ensures
            crate::parser::number_texts(r@) == values_among(
                self.signals@,
                module@,
                port@,
                self.signals@.len() as int,
            ),
    {
        let mut values: Vec<Number> = Vec::new();
        let mut i: usize = 0;
        assert(crate::parser::number_texts(values@) =~= Seq::<Seq<char>>::empty());
        while i < self.signals.len()
            invariant
                i <= self.signals.len(),
                crate::parser::number_texts(values@) == values_among(
                    self.signals@,
                    module@,
                    port@,
                    i as int,
                ),
            decreases self.signals.len() - i,
        {
            let ghost before = crate::parser::number_texts(values@);
            if self.signals[i].belongs_to(module, port) {
                values.push(self.signals[i].value.clone());
                assert(crate::parser::number_texts(values@) =~= before.push(
                    self.signals[i as int].value@,
                ));
            }
            i += 1;
        }
        values
    }

    /// The positions, among all gate events that were kept, of those that
    /// came from the output `gate` of the module `module`, in order.
    pub fn get_gate_events(&self, module: &str, gate: &str) -> (r: Vec<usize>)
        ensures
            crate::cycle::positions(r@) == gates_among(
                self.gates@,
                module@,
                gate@,
                self.gates@.len() as int,
            ),
            forall|i: int| 0 <= i < r.len() ==> (#[trigger] r[i]) < self.gates.len(),
    {
        let mut found: Vec<usize> = Vec::new();
        let mut i: usize = 0;
        assert(crate::cycle::positions(found@) =~= Seq::<int>::empty());
        while i < self.gates.len()
            invariant
                i <= self.gates.len(),
                crate::cycle::positions(found@) == gates_among(
                    self.gates@,
                    module@,
                    gate@,
                    i as int,
                ),
                forall|k: int| 0 <= k < found.len() ==> (#[trigger] found[k]) < i,
            decreases self.gates.len() - i,
        {
            let ghost before = crate::cycle::positions(found@);
            if self.gates[i].belongs_to(module, gate) {
                found.push(i);
                assert(crate::cycle::positions(found@) =~= before.push(i as int));
            }
            i += 1;
        }
        found
    }

    /// How often the output `gate` of the module `module` fired.
    pub fn gate_fire_count(&self, module: &str, gate: &str) -> (r: usize)
        ensures
            r == fired_among(self.gates@, module@, gate@, self.gates@.len() as int),
    {
        let mut count: usize = 0;
        let mut i: usize = 0;
        while i < self.gates.len()
            invariant
                i <= self.gates.len(),
                count <= i,
                count == fired_among(self.gates@, module@, gate@, i as int),
            decreases self.gates.len() - i,
        {
            if self.gates[i].belongs_to(module, gate) && self.gates[i].triggered {
                count += 1;
            }
            i += 1;
        }
        count
    }

    /// Whether the output `gate` of the module `module` fired.
    pub fn gate_fired(&self, module: &str, gate: &str) -> (r: bool)
        ensures
            r == (fired_among(self.gates@, module@, gate@, self.gates@.len() as int) > 0),
    {
        self.gate_fire_count(module, gate) > 0
    }
}

impl Default for ObservationCollector {
    fn default() -> (r: Self)
        ensures
            r.signals@.len() == 0,
            r.gates@.len() == 0,
            r.parameters@.len() == 0,
    {
        Self::new()
    }
}

impl View for ObservationCollector {
    type V = Observations;

    open spec fn view(&self) -> Observations {
        Observations {
            signals: signal_views(self.signals@),
            gates: gate_views(self.gates@),
            parameters: parameter_views(self.parameters@),
            cycle_count: self.cycle_count,
        }
    }
}

impl SignalObserver for ObservationCollector {
    /// The collector keeps all that it is told.
    open spec fn kept(&self) -> Option<Observations> {
        Some(self@)
    }

    fn observe_signal(&mut self, event: &SignalEvent)
        ensures
            final(self).signals@.len() == old(self).signals@.len() + 1,
            final(self).gates == old(self).gates,
            final(self).parameters == old(self).parameters,
    {
        self.signals.push(event.clone());
        assert(signal_views(self.signals@) =~= signal_views(old(self).signals@).push(event@));
    }

    fn observe_gate(&mut self, event: &GateEvent)
        ensures
            final(self).gates@.len() == old(self).gates@.len() + 1,
            final(self).signals == old(self).signals,
            final(self).parameters == old(self).parameters,
    {
        self.gates.push(event.clone());
        assert(gate_views(self.gates@) =~= gate_views(old(self).gates@).push(event@));
    }

    fn observe_parameter(&mut self, event: &ParameterEvent)
        ensures
            final(self).parameters@.len() == old(self).parameters@.len() + 1,
            final(self).signals == old(self).signals,
            final(self).gates == old(self).gates,
    {
        self.parameters.push(event.clone());
        assert(parameter_views(self.parameters@) =~= parameter_views(old(self).parameters@).push(
            event@,
        ));
    }

    fn begin_process_cycle(&mut self, cycle: usize)
        ensures
            final(self).signals == old(self).signals,
            final(self).gates == old(self).gates,
            final(self).parameters == old(self).parameters,
    {
        self.cycle_count = cycle;
    }

    fn end_process_cycle(&mut self, cycle: usize)
        ensures
            *final(self) == *old(self),
    {
    }
}

/// An observer that makes lines for the console of what it is told.
pub struct ConsoleObserver {
    /// Whether signals and blocks are written too.
    pub verbose: bool,
}

impl ConsoleObserver {
    /// An observer that writes signals and blocks only if `verbose`.
    pub fn new(verbose: bool) -> (r: Self)
        ensures
            r.verbose == verbose,
    {
        ConsoleObserver { verbose }
    }

    /// The line for a gate event: one for each gate that fired, none else.
    pub fn gate_line(&self, event: &GateEvent) -> (r: Option<String>)
        ensures
            r is Some == event.triggered,
            r is Some ==> r->0@ == "[GATE] "@ + event.module@ + "."@ + event.gate@
                + " TRIGGERED"@,
    {
        if event.triggered {
            Some(
                String::from_str("[GATE] ").concat(event.module.as_str()).concat(".").concat(
                    event.gate.as_str(),
                ).concat(" TRIGGERED"),
            )
        } else {
            None
        }
    }

    /// The line for the beginning of a block: one where signals and blocks
    /// are written, none else.
    pub fn cycle_line(&self, cycle: usize) -> (r: Option<String>)
        ensures
            r is Some == self.verbose,
            r is Some ==> r->0@ == "[CYCLE] Begin cycle "@ + decimal_text(cycle as nat),
    {
        if self.verbose {
            Some(
                String::from_str("[CYCLE] Begin cycle ").concat(
                    string_from(&decimal_digits(cycle)).as_str(),
                ),
            )
        } else {
            None
        }
    }
}

/// Tells several observers what one is told.
pub struct ObserverManager<O: SignalObserver> {
    pub observers: Vec<O>,
}

impl<O: SignalObserver> ObserverManager<O> {
    /// A manager without observers.
    pub fn new() -> (r: Self)
        ensures
            r.observers@.len() == 0,
    {
        ObserverManager { observers: Vec::new() }
    }

    /// Adds an observer behind those that are there.
    pub fn add_observer(&mut self, observer: O)
        ensures
            final(self).observers@ == old(self).observers@.push(observer),
    {
        self.observers.push(observer);
    }

    /// Tells every observer, in order, of a sample that was looked at.
    pub fn observe_signal(&mut self, module: &str, port: &str, sample_index: usize, value: Number)
        ensures
            final(self).observers@.len() == old(self).observers@.len(),
            forall|i: int|
                0 <= i < old(self).observers@.len() && (#[trigger] old(self).observers@[i]).kept()
                    is Some ==> final(self).observers@[i].kept() == Some(
                    old(self).observers@[i].kept()->0.with_signal(
                        SignalEventView {
                            module: module@,
                            port: port@,
                            sample_index,
                            value: value@,
                        },
                    ),
                ),
    {
        let event = SignalEvent {
            module: String::from_str(module),
            port: String::from_str(port),
            sample_index,
            value,
        };
        let mut i: usize = 0;
        while i < self.observers.len()
            invariant
                i <= self.observers.len(),
                self.observers@.len() == old(self).observers@.len(),
                event@ == (SignalEventView {
                    module: module@,
                    port: port@,
                    sample_index,
                    value: value@,
                }),
                forall|k: int|
                    i <= k < self.observers@.len() ==> self.observers@[k]
                        == old(self).observers@[k],
                forall|k: int|
                    0 <= k < i && (#[trigger] old(self).observers@[k]).kept() is Some
                        ==> self.observers@[k].kept() == Some(
                        old(self).observers@[k].kept()->0.with_signal(event@),
                    ),
            decreases self.observers.len() - i,
        {
            self.observers[i].observe_signal(&event);
            i += 1;
        }
    }

    /// Tells every observer, in order, of a gate event.
    pub fn observe_gate(&mut self, module: &str, gate: &str, sample_index: usize, triggered: bool)
        ensures
            final(self).observers@.len() == old(self).observers@.len(),
            forall|i: int|
                0 <= i < old(self).observers@.len() && (#[trigger] old(self).observers@[i]).kept()
                    is Some ==> final(self).observers@[i].kept() == Some(
                    old(self).observers@[i].kept()->0.with_gate(
                        GateEventView {
                            module: module@,
                            gate: gate@,
                            sample_index,
                            triggered,
                        },
                    ),
                ),
    {
        let event = GateEvent {
            module: String::from_str(module),
            gate: String::from_str(gate),
            sample_index,
            triggered,
        };
        let mut i: usize = 0;
        while i < self.observers.len()
            invariant
                i <= self.observers.len(),
                self.observers@.len() == old(self).observers@.len(),
                event@ == (GateEventView { module: module@, gate: gate@, sample_index, triggered }),
                forall|k: int|
                    i <= k < self.observers@.len() ==> self.observers@[k]
                        == old(self).observers@[k],
                forall|k: int|
                    0 <= k < i && (#[trigger] old(self).observers@[k]).kept() is Some
                        ==> self.observers@[k].kept() == Some(
                        old(self).observers@[k].kept()->0.with_gate(event@),
                    ),
            decreases self.observers.len() - i,
        {
            self.observers[i].observe_gate(&event);
            i += 1;
        }
    }

    /// Tells every observer, in order, of a parameter that was set.
    pub fn observe_parameter(&mut self, module: &str, parameter: &str, value: Number)
        ensures
            final(self).observers@.len() == old(self).observers@.len(),
            forall|i: int|
                0 <= i < old(self).observers@.len() && (#[trigger] old(self).observers@[i]).kept()
                    is Some ==> final(self).observers@[i].kept() == Some(
                    old(self).observers@[i].kept()->0.with_parameter(
                        ParameterEventView {
                            module: module@,
                            parameter: parameter@,
                            value: value@,
                        },
                    ),
                ),
    {
        let event = ParameterEvent {
            module: String::from_str(module),
            parameter: String::from_str(parameter),
            value,
        };
        let mut i: usize = 0;
        while i < self.observers.len()
            invariant
                i <= self.observers.len(),
                self.observers@.len() == old(self).observers@.len(),
                event@ == (ParameterEventView {
                    module: module@,
                    parameter: parameter@,
                    value: value@,
                }),
                forall|k: int|
                    i <= k < self.observers@.len() ==> self.observers@[k]
                        == old(self).observers@[k],
                forall|k: int|
                    0 <= k < i && (#[trigger] old(self).observers@[k]).kept() is Some
                        ==> self.observers@[k].kept() == Some(
                        old(self).observers@[k].kept()->0.with_parameter(event@),
                    ),
            decreases self.observers.len() - i,
        {
            self.observers[i].observe_parameter(&event);
            i += 1;
        }
    }

    /// Tells every observer, in order, that the work of a block begins.
    pub fn begin_process_cycle(&mut self, cycle: usize)
        ensures
            final(self).observers@.len() == old(self).observers@.len(),
            forall|i: int|
                0 <= i < old(self).observers@.len() && (#[trigger] old(self).observers@[i]).kept()
                    is Some ==> final(self).observers@[i].kept() == Some(
                    old(self).observers@[i].kept()->0.at_cycle(cycle),
                ),
    {
        let mut i: usize = 0;
        while i < self.observers.len()
            invariant
                i <= self.observers.len(),
                self.observers@.len() == old(self).observers@.len(),
                forall|k: int|
                    i <= k < self.observers@.len() ==> self.observers@[k]
                        == old(self).observers@[k],
                forall|k: int|
                    0 <= k < i && (#[trigger] old(self).observers@[k]).kept() is Some
                        ==> self.observers@[k].kept() == Some(
                        old(self).observers@[k].kept()->0.at_cycle(cycle),
                    ),
            decreases self.observers.len() - i,
        {
            self.observers[i].begin_process_cycle(cycle);
            i += 1;
        }
    }

    /// Tells every observer, in order, that the work of a block is done.
    pub fn end_process_cycle(&mut self, cycle: usize)
        ensures
            final(self).observers@.len() == old(self).observers@.len(),
            forall|i: int|
                0 <= i < old(self).observers@.len() ==> (
                #[trigger] final(self).observers@[i]).kept() == old(self).observers@[i].kept(),
    {
        let mut i: usize = 0;
        while i < self.observers.len()
            invariant
                i <= self.observers.len(),
                self.observers@.len() == old(self).observers@.len(),
                forall|k: int|
                    i <= k < self.observers@.len() ==> self.observers@[k]
                        == old(self).observers@[k],
                forall|k: int|
                    0 <= k < i ==> (#[trigger] self.observers@[k]).kept()
                        == old(self).observers@[k].kept(),
            decreases self.observers.len() - i,
        {
            self.observers[i].end_process_cycle(cycle);
            i += 1;
        }
    }
}

impl crate::graph::GraphExecutor {
    /// Sets a parameter of a module and tells the observers of it, if the
    /// module took the value.
    pub fn set_module_param_observed<O: SignalObserver>(
        &mut self,
        observers: &mut ObserverManager<O>,
        module_name: &str,
        param_name: &str,
        value: &Number,
    ) -> (r: Result<(), crate::graph::GraphError>)
        requires
            old(self).wf(),
            value.wf(),
        ensures
            final(self).wf(),
            final(self).connections == old(self).connections,
            final(observers).observers@.len() == old(observers).observers@.len(),
            crate::graph::entry_names(final(self).modules@) == crate::graph::entry_names(
                old(self).modules@,
            ),
            r is Ok <==> old(self).has_module(module_name@) && old(self).node_of(
                module_name@,
            ).accepts(param_name@, value@),
            r is Err ==> final(self).modules@ =~= old(self).modules@,
            r is Err ==> final(observers).observers@ =~= old(observers).observers@,
            r is Ok ==> forall|i: int|
                0 <= i < old(observers).observers@.len() && (
                #[trigger] old(observers).observers@[i]).kept() is Some
                    ==> final(observers).observers@[i].kept() == Some(
                    old(observers).observers@[i].kept()->0.with_parameter(
                        ParameterEventView {
                            module: module_name@,
                            parameter: param_name@,
                            value: value@,
                        },
                    ),
                ),
    {
        let r = self.set_module_param(module_name, param_name, value);
        if r.is_ok() {
            observers.observe_parameter(module_name, param_name, value.clone());
        }
        r
    }

    /// Tells every observer, in order, of a gate event of a module.
    pub fn observe_gate<O: SignalObserver>(
        &self,
        observers: &mut ObserverManager<O>,
        module_name: &str,
        gate_name: &str,
        sample_index: usize,
        triggered: bool,
    )
        ensures
            final(observers).observers@.len() == old(observers).observers@.len(),
            forall|i: int|
                0 <= i < old(observers).observers@.len() && (
                #[trigger] old(observers).observers@[i]).kept() is Some
                    ==> final(observers).observers@[i].kept() == Some(
                    old(observers).observers@[i].kept()->0.with_gate(
                        GateEventView {
                            module: module_name@,
                            gate: gate_name@,
                            sample_index,
                            triggered,
                        },
                    ),
                ),
    {
        observers.observe_gate(module_name, gate_name, sample_index, triggered);
    }

    /// Begins the work of a block and tells the observers of it.
    pub fn process_observed<O: SignalObserver>(
        &mut self,
        observers: &mut ObserverManager<O>,
        sample_count: usize,
    ) -> (r: crate::cycle::CyclePlan)
        ensures
            crate::cycle::block_begun(*old(self), *final(self), sample_count, r),
            r.cycle == old(self).current_cycle,
            r.sample_count == sample_count,
            r.sample_step == crate::cycle::sample_step_of(sample_count),
            r.steps@ == old(self).plan(),
            final(self).current_cycle == crate::sequencing::next_count(old(self).current_cycle),
            final(self).modules == old(self).modules,
            final(self).connections == old(self).connections,
            final(observers).observers@.len() == old(observers).observers@.len(),
            forall|i: int|
                0 <= i < old(observers).observers@.len() && (
                #[trigger] old(observers).observers@[i]).kept() is Some
                    ==> final(observers).observers@[i].kept() == Some(
                    old(observers).observers@[i].kept()->0.at_cycle(old(self).current_cycle),
                ),
    {
        observers.begin_process_cycle(self.current_cycle);
        self.process(sample_count)
    }
}

impl crate::graph_engine::GraphEngine {
    /// Does what a line says, as `process_line` does, and tells the
    /// observers of the parameter where the line is a parameter assignment
    /// that was carried out.
    pub fn process_line_observed<O: SignalObserver>(
        &mut self,
        observers: &mut ObserverManager<O>,
        line: &str,
    ) -> (r: Result<String, crate::graph_engine::EngineError>)
        requires
            old(self).wf(),
        ensures
            final(self).wf(),
            final(self).is_running == old(self).is_running,
            final(self).sample_rate == old(self).sample_rate,
            crate::graph_engine::processed(*old(self), *final(self), line@, r),
            final(observers).observers@.len() == old(observers).observers@.len(),
            match crate::parser::parse_line_spec(line@) {
                Ok(crate::parser::CommandView::SetParam { module, param, value }) => if r is Ok {
                    forall|i: int|
                        0 <= i < old(observers).observers@.len() && (
                        #[trigger] old(observers).observers@[i]).kept() is Some
                            ==> final(observers).observers@[i].kept() == Some(
                            old(observers).observers@[i].kept()->0.with_parameter(
                                ParameterEventView { module, parameter: param, value },
                            ),
                        )
                } else {
                    final(observers).observers@ == old(observers).observers@
                },
                _ => final(observers).observers@ == old(observers).observers@,
            },
    {
        match crate::parser::parse_line(line) {
            Ok(command) => {
                let set = match &command {
                    crate::parser::Command::SetParam { module, param, value } => Some(
                        ParameterEvent {
                            module: module.clone(),
                            parameter: param.clone(),
                            value: value.clone(),
                        },
                    ),
                    _ => None,
                };
                let r = self.handle_parsed_command(command);
                if r.is_ok() {
                    match set {
                        Some(event) => {
                            observers.observe_parameter(
                                event.module.as_str(),
                                event.parameter.as_str(),
                                event.value,
                            );
                        },
                        None => {},
                    }
                }
                r
            },
            Err(_) => self.handle_extended_syntax(line),
        }
    }
}

} // verus!
