//! The signal graph: modules by name, the connections between their ports,
//! and the order of work within one block of samples.

use vstd::prelude::*;
use vstd::string::StringExecFns;
use crate::graph_modules::ParamError;
use crate::node::Node;
use crate::number::Number;
use crate::text::{chars_of, same};

verus! {

/// A port of a module: its name, the value it has while nothing is connected
/// to it, and what it is for.
#[derive(Debug)]
pub struct PortDescriptor {
    pub name: String,
    pub default_value: Number,
    pub description: String,
}

impl PortDescriptor {
    /// A port.
    pub fn new(name: &str, default_value: Number, description: &str) -> (r: Self)
        ensures
            r.name@ == name@,
            r.default_value@ == default_value@,
            r.description@ == description@,
    {
        PortDescriptor {
            name: String::from_str(name),
            default_value,
            description: String::from_str(description),
        }
    }
}

impl Clone for PortDescriptor {
    fn clone(&self) -> (r: Self)
        ensures
            r.name@ == self.name@,
            r.default_value@ == self.default_value@,
            r.description@ == self.description@,
    {
        PortDescriptor {
            name: self.name.clone(),
            default_value: self.default_value.clone(),
            description: self.description.clone(),
        }
    }
}

/// The names of a list of ports.
pub open spec fn port_names(ports: Seq<PortDescriptor>) -> Seq<Seq<char>> {
    Seq::new(ports.len(), |i: int| ports[i].name@)
}

/// The default values of a list of ports.
pub open spec fn port_defaults(ports: Seq<PortDescriptor>) -> Seq<Seq<char>> {
    Seq::new(ports.len(), |i: int| ports[i].default_value@)
}

/// What the ports of a list are for.
pub open spec fn port_descriptions(ports: Seq<PortDescriptor>) -> Seq<Seq<char>> {
    Seq::new(ports.len(), |i: int| ports[i].description@)
}

/// Whether every default value of a list of ports is written as a number.
pub open spec fn ports_wf(ports: Seq<PortDescriptor>) -> bool {
    forall|i: int| 0 <= i < ports.len() ==> (#[trigger] ports[i]).default_value.wf()
}

/// Tests whether a list of ports holds one named `name`.
pub fn has_port(ports: &Vec<PortDescriptor>, name: &str) -> (r: bool)
    ensures
        r == port_names(ports@).contains(name@),
{
    let wanted = chars_of(name);
    let mut i: usize = 0;
    while i < ports.len()
        invariant
            i <= ports.len(),
            wanted@ == name@,
            forall|k: int| 0 <= k < i ==> port_names(ports@)[k] != name@,
        decreases ports.len() - i,
    {
        if same(&chars_of(ports[i].name.as_str()), &wanted) {
            assert(port_names(ports@)[i as int] == name@);
            return true;
        }
        i += 1;
    }
    false
}

/// Where the samples of an input come from.
#[derive(Debug)]
pub enum ConnectionExpr {
    /// The output `port` of the module `module`.
    Direct { module: String, port: String },
    /// The samples of `expr`, each multiplied by `factor`.
    Scaled { expr: Box<ConnectionExpr>, factor: Number },
    /// The samples of `expr`, each with `offset` added.
    Offset { expr: Box<ConnectionExpr>, offset: Number },
    /// The sum of the samples of `exprs`; silence for none.
    Sum { exprs: Vec<ConnectionExpr> },
}

/// What a `ConnectionExpr` holds.
pub enum ExprView {
    Direct { module: Seq<char>, port: Seq<char> },
    Scaled { expr: Box<ExprView>, factor: Seq<char> },
    Offset { expr: Box<ExprView>, offset: Seq<char> },
    Sum { exprs: Seq<ExprView> },
}

impl ConnectionExpr {
    /// What the expression holds.
    pub open spec fn model(&self) -> ExprView
        decreases self,
    {
        match self {
            ConnectionExpr::Direct { module, port } => ExprView::Direct {
                module: module@,
                port: port@,
            },
            ConnectionExpr::Scaled { expr, factor } => ExprView::Scaled {
                expr: Box::new(expr.model()),
                factor: factor@,
            },
            ConnectionExpr::Offset { expr, offset } => ExprView::Offset {
                expr: Box::new(expr.model()),
                offset: offset@,
            },
            ConnectionExpr::Sum { exprs } => ExprView::Sum { exprs: models(*exprs) },
        }
    }

    /// Whether the numbers of the expression are written as numbers.
    pub open spec fn wf(&self) -> bool
        decreases self,
    {
        match self {
            ConnectionExpr::Direct { .. } => true,
            ConnectionExpr::Scaled { expr, factor } => expr.wf() && factor.wf(),
            ConnectionExpr::Offset { expr, offset } => expr.wf() && offset.wf(),
            ConnectionExpr::Sum { exprs } => all_wf(*exprs),
        }
    }
}

/// What a list of expressions holds.
pub open spec fn models(exprs: Vec<ConnectionExpr>) -> Seq<ExprView>
    decreases exprs,
{
    Seq::new(
        exprs.len() as nat,
        |i: int|
            if 0 <= i < exprs.len() {
                exprs[i].model()
            } else {
                ExprView::Sum { exprs: Seq::empty() }
            },
    )
}

/// Whether the numbers of a list of expressions are written as numbers.
pub open spec fn all_wf(exprs: Vec<ConnectionExpr>) -> bool
    decreases exprs,
{
    forall|i: int| 0 <= i < exprs.len() ==> (#[trigger] exprs[i]).wf()
}

impl View for ConnectionExpr {
    type V = ExprView;

    open spec fn view(&self) -> ExprView {
        self.model()
    }
}

/// A connection: the input it ends at and the expression it takes samples from.
#[derive(Debug)]
pub struct Connection {
    pub to_module: String,
    pub to_port: String,
    pub expression: ConnectionExpr,
}

/// What a `Connection` holds.
pub struct ConnectionView {
    pub to_module: Seq<char>,
    pub to_port: Seq<char>,
    pub expression: ExprView,
}

impl View for Connection {
    type V = ConnectionView;

    open spec fn view(&self) -> ConnectionView {
        ConnectionView {
            to_module: self.to_module@,
            to_port: self.to_port@,
            expression: self.expression@,
        }
    }
}

/// The ports of a module, for inspection.
#[derive(Debug)]
pub struct ModuleInfo {
    pub name: String,
    pub inputs: Vec<PortDescriptor>,
    pub outputs: Vec<PortDescriptor>,
}

/// The texts of a vector of strings.
pub open spec fn strings(v: Seq<String>) -> Seq<Seq<char>> {
    Seq::new(v.len(), |i: int| v[i]@)
}

/// Adds a message at the end of a list of messages.
pub fn push_message(messages: &mut Vec<String>, message: String)
    ensures
        strings(final(messages)@) == strings(old(messages)@) + seq![message@],
{
    messages.push(message);
    assert(strings(messages@) =~= strings(old(messages)@) + seq![message@]);
}

/// A module of the graph under its name.
#[derive(Debug)]
pub struct ModuleEntry {
    pub name: String,
    pub node: Node,
}

/// Why the graph did not do what was asked.
#[derive(Debug)]
pub enum GraphError {
    /// The graph has no module of that name.
    ModuleNotFound { name: String },
    /// The module refused the parameter.
    Parameter { error: ParamError },
}

impl GraphError {
    /// The text of the error.
    pub open spec fn text(&self) -> Seq<char> {
        match self {
            GraphError::ModuleNotFound { name } => "Module '"@ + name@ + "' not found"@,
            GraphError::Parameter { error } => error.text(),
        }
    }

    /// The text shown to the user.
    pub fn message(&self) -> (r: String)
        ensures
            r@ == self.text(),
    {
        match self {
            GraphError::ModuleNotFound { name } => String::from_str("Module '").concat(
                name.as_str(),
            ).concat("' not found"),
            GraphError::Parameter { error } => error.message(),
        }
    }
}

/// The level that a gate output had at the last sample that was looked at.
#[derive(Debug)]
pub struct GateState {
    /// The module and the output, with a point between them.
    pub key: String,
    /// Whether the output was high.
    pub high: bool,
}

/// The graph: its modules in the order in which they were added, the
/// connections between them, the number of blocks worked so far, and the
/// last level of each gate output that was looked at.
#[derive(Debug)]
pub struct GraphExecutor {
    pub modules: Vec<ModuleEntry>,
    pub connections: Vec<Connection>,
    pub execution_order: Vec<String>,
    pub current_cycle: usize,
    pub gate_states: Vec<GateState>,
}

/// The names of a list of modules.
pub open spec fn entry_names(modules: Seq<ModuleEntry>) -> Seq<Seq<char>> {
    Seq::new(modules.len(), |i: int| modules[i].name@)
}

/// Whether the graph `after` is the graph `before` with a module put in
/// under the name `name`: in place of the module that had the name, else
/// behind all modules. Every other module is at its place as it was, and
/// so are the connections, the number of blocks and the levels of gates.
pub open spec fn put_in(before: GraphExecutor, after: GraphExecutor, name: Seq<char>) -> bool {
    &&& after.connections == before.connections
    &&& after.current_cycle == before.current_cycle
    &&& after.gate_states == before.gate_states
    &&& after.has_module(name)
    &&& after.index_of(name) == before.index_of(name)
    &&& after.modules@.len() == if before.has_module(name) {
        before.modules@.len()
    } else {
        before.modules@.len() + 1
    }
    &&& entry_names(after.modules@) == if before.has_module(name) {
        entry_names(before.modules@)
    } else {
        entry_names(before.modules@).push(name)
    }
    &&& forall|k: int|
        0 <= k < before.modules.len() && k != before.index_of(name) ==> after.modules[k]
            == before.modules[k]
}

/// Whether the graph `after` is the graph `before` with every manual gate
/// switched on, or off: every other module, the names, the connections,
/// the number of blocks and the levels of gates are as they were.
pub open spec fn gates_switched(before: GraphExecutor, after: GraphExecutor, on: bool) -> bool {
    &&& after.connections == before.connections
    &&& after.execution_order == before.execution_order
    &&& after.current_cycle == before.current_cycle
    &&& after.gate_states == before.gate_states
    &&& after.modules.len() == before.modules.len()
    &&& forall|k: int|
        0 <= k < before.modules.len() ==> (#[trigger] after.modules[k]).name
            == before.modules[k].name && after.modules[k].node == match before.modules[k].node {
            Node::ManualGate(_) => Node::ManualGate(
                crate::graph_modules::GraphManualGate { gate_on: on },
            ),
            other => other,
        }
}

/// The message for a destination module that is missing.
pub open spec fn missing_module(module: Seq<char>) -> Seq<char> {
    "Module '"@ + module + "' not found"@
}

/// The message for a destination port that the module does not declare.
pub open spec fn missing_input(module: Seq<char>, port: Seq<char>) -> Seq<char> {
    "Module '"@ + module + "' has no input port '"@ + port + "'"@
}

/// The message for a source module that is missing.
pub open spec fn missing_source(module: Seq<char>) -> Seq<char> {
    "Source module '"@ + module + "' not found"@
}

/// The message for a source port that the module does not declare.
pub open spec fn missing_output(module: Seq<char>, port: Seq<char>) -> Seq<char> {
    "Module '"@ + module + "' has no output port '"@ + port + "'"@
}

impl GraphExecutor {
    /// The position of the first module named `name` at or after `i`; the
    /// number of modules where there is none.
    pub open spec fn index_from(&self, name: Seq<char>, i: int) -> int
        decreases self.modules.len() - i,
    {
        if i < 0 || i >= self.modules.len() {
            self.modules.len() as int
        } else if self.modules[i].name@ == name {
            i
        } else {
            self.index_from(name, i + 1)
        }
    }

    /// The position of the module `name`; the number of modules where none
    /// has that name.
    pub open spec fn index_of(&self, name: Seq<char>) -> int {
        self.index_from(name, 0)
    }

    /// Whether the graph has a module `name`.
    pub open spec fn has_module(&self, name: Seq<char>) -> bool {
        self.index_of(name) < self.modules.len()
    }

    /// The module `name`.
    pub open spec fn node_of(&self, name: Seq<char>) -> Node {
        self.modules[self.index_of(name)].node
    }

    /// Whether the module `module` is there and declares the input `port`.
    pub open spec fn has_input(&self, module: Seq<char>, port: Seq<char>) -> bool {
        self.has_module(module) && self.node_of(module).input_names().contains(port)
    }

    /// Whether the module `module` is there and declares the output `port`.
    pub open spec fn has_output(&self, module: Seq<char>, port: Seq<char>) -> bool {
        self.has_module(module) && self.node_of(module).output_names().contains(port)
    }

    /// No two modules have one name, every module is valid, the modules are
    /// worked in the order in which they stand, and the numbers in the
    /// connections are written as numbers.
    pub open spec fn wf(&self) -> bool {
        &&& forall|i: int, j: int|
            0 <= i < j < self.modules.len() ==> self.modules[i].name@ != self.modules[j].name@
        &&& forall|i: int| 0 <= i < self.modules.len() ==> (#[trigger] self.modules[i]).node.wf()
        &&& strings(self.execution_order@) == entry_names(self.modules@)
        &&& forall|i: int|
            0 <= i < self.connections.len() ==> (#[trigger] self.connections[i]).expression.wf()
    }

    /// A graph without modules and connections, before its first block.
    pub fn new() -> (r: Self)
        ensures
            r.wf(),
            r.modules@.len() == 0,
            r.connections@.len() == 0,
            r.current_cycle == 0,
            r.gate_states@.len() == 0,
    {
        let r = GraphExecutor {
            modules: Vec::new(),
            connections: Vec::new(),
            execution_order: Vec::new(),
            current_cycle: 0,
            gate_states: Vec::new(),
        };
        assert(strings(r.execution_order@) =~= entry_names(r.modules@));
        r
    }

    /// Finds the module `name`.
    pub fn find_module(&self, name: &str) -> (r: Option<usize>)
        ensures
            0 <= self.index_of(name@) <= self.modules.len(),
            match r {
                Some(i) => self.has_module(name@) && i == self.index_of(name@),
                None => !self.has_module(name@),
            },
    {
        let wanted = chars_of(name);
        let mut i: usize = 0;
        while i < self.modules.len()
            invariant
                i <= self.modules.len(),
                wanted@ == name@,
                self.index_of(name@) == self.index_from(name@, i as int),
            decreases self.modules.len() - i,
        {
            if same(&chars_of(self.modules[i].name.as_str()), &wanted) {
                return Some(i);
            }
            i += 1;
        }
        None
    }

    /// The names of the modules in the order in which they are worked.
    fn update_execution_order(&mut self)
        ensures
            final(self).modules == old(self).modules,
            final(self).connections == old(self).connections,
            final(self).current_cycle == old(self).current_cycle,
            final(self).gate_states == old(self).gate_states,
            strings(final(self).execution_order@) == entry_names(final(self).modules@),
    {
        let mut order: Vec<String> = Vec::new();
        let mut i: usize = 0;
        while i < self.modules.len()
            invariant
                i <= self.modules.len(),
                order.len() == i,
                forall|k: int| 0 <= k < i ==> (#[trigger] order[k])@ == self.modules[k].name@,
            decreases self.modules.len() - i,
        {
            order.push(self.modules[i].name.clone());
            i += 1;
        }
        self.execution_order = order;
        assert(strings(self.execution_order@) =~= entry_names(self.modules@));
    }

    /// Adds a connection behind those that are there.
    pub fn add_connection(&mut self, connection: Connection)
        requires
            old(self).wf(),
            connection.expression.wf(),
        ensures
            final(self).wf(),
            final(self).modules == old(self).modules,
            final(self).execution_order == old(self).execution_order,
            final(self).current_cycle == old(self).current_cycle,
            final(self).gate_states == old(self).gate_states,
            final(self).connections@ == old(self).connections@.push(connection),
    {
        self.connections.push(connection);
    }

    /// The connections in the order in which they were added.
    pub fn list_connections(&self) -> (r: &Vec<Connection>)
        ensures
            r == self.connections,
    {
        &self.connections
    }

    /// The names of the modules in the order in which they were added.
    pub fn list_modules(&self) -> (r: Vec<String>)
        ensures
            strings(r@) == entry_names(self.modules@),
    {
        let mut names: Vec<String> = Vec::new();
        let mut i: usize = 0;
        while i < self.modules.len()
            invariant
                i <= self.modules.len(),
                names.len() == i,
                forall|k: int| 0 <= k < i ==> (#[trigger] names[k])@ == self.modules[k].name@,
            decreases self.modules.len() - i,
        {
            names.push(self.modules[i].name.clone());
            i += 1;
        }
        assert(strings(names@) =~= entry_names(self.modules@));
        names
    }

    /// The module `name`, if the graph has it.
    pub fn get_module(&self, name: &str) -> (r: Option<&Node>)
        ensures
            match r {
                Some(node) => self.has_module(name@) && *node == self.node_of(name@),
                None => !self.has_module(name@),
            },
    {
        match self.find_module(name) {
            Some(i) => Some(&self.modules[i].node),
            None => None,
        }
    }

    /// The ports of the module `name`, if the graph has it: for each input
    /// and each output its name, its default value and what it is for.
    pub fn inspect_module(&self, name: &str) -> (r: Option<ModuleInfo>)
        ensures
            match r {
                Some(info) => {
                    &&& self.has_module(name@)
                    &&& info.name@ == name@
                    &&& self.node_of(name@).has_ports(info.inputs@, info.outputs@)
                    &&& port_names(info.inputs@) == self.node_of(name@).input_names()
                    &&& port_names(info.outputs@) == self.node_of(name@).output_names()
                    &&& ports_wf(info.inputs@)
                    &&& ports_wf(info.outputs@)
                },
                None => !self.has_module(name@),
            },
    {
        match self.find_module(name) {
            Some(i) => Some(
                ModuleInfo {
                    name: String::from_str(name),
                    inputs: self.modules[i].node.inputs(),
                    outputs: self.modules[i].node.outputs(),
                },
            ),
            None => None,
        }
    }
}

impl GraphExecutor {
    /// The position of a name is that of the first module of that name.
    pub proof fn lemma_index(&self, name: Seq<char>, from: int)
        requires
            0 <= from <= self.modules.len(),
        ensures
            from <= self.index_from(name, from) <= self.modules.len(),
            forall|k: int| from <= k < self.index_from(name, from) ==> self.modules[k].name@ != name,
            self.index_from(name, from) < self.modules.len() ==> self.modules[self.index_from(
                name,
                from,
            )].name@ == name,
        decreases self.modules.len() - from,
    {
        if from < self.modules.len() && self.modules[from].name@ != name {
            self.lemma_index(name, from + 1);
        }
    }

    /// The graph has a module of a name just when the name is among the
    /// names of its modules.
    pub proof fn lemma_has_module(&self, name: Seq<char>)
        ensures
            self.has_module(name) <==> entry_names(self.modules@).contains(name),
    {
        self.lemma_index(name, 0);
        let names = entry_names(self.modules@);
        if self.has_module(name) {
            assert(names[self.index_of(name)] == name);
        }
        if names.contains(name) {
            let k = choose|k: int| 0 <= k < names.len() && names[k] == name;
            assert(self.modules[k].name@ == name);
        }
    }

    /// Where no two modules have one name, a module stands at the position
    /// of its name.
    pub proof fn lemma_index_of_entry(&self, i: int)
        requires
            0 <= i < self.modules.len(),
            forall|a: int, b: int|
                0 <= a < b < self.modules.len() ==> self.modules[a].name@ != self.modules[b].name@,
        ensures
            self.index_of(self.modules[i].name@) == i,
    {
        self.lemma_index(self.modules[i].name@, 0);
    }

    /// Adds the module `module` under the name `name`. A module that had
    /// the name before is replaced and keeps its place; else the module
    /// comes behind those that are there.
    pub fn add_module(&mut self, name: String, module: Node)
        requires
            old(self).wf(),
            module.wf(),
        ensures
            final(self).wf(),
            final(self).connections == old(self).connections,
            final(self).current_cycle == old(self).current_cycle,
            final(self).gate_states == old(self).gate_states,
            final(self).has_module(name@),
            final(self).node_of(name@) == module,
            final(self).index_of(name@) == old(self).index_of(name@),
            put_in(*old(self), *final(self), name@),
            entry_names(final(self).modules@) == if old(self).has_module(name@) {
                entry_names(old(self).modules@)
            } else {
                entry_names(old(self).modules@).push(name@)
            },
            if old(self).has_module(name@) {
                &&& final(self).modules.len() == old(self).modules.len()
                &&& entry_names(final(self).modules@) == entry_names(old(self).modules@)
                &&& forall|k: int|
                    0 <= k < old(self).modules.len() && k != old(self).index_of(name@)
                        ==> final(self).modules[k] == old(self).modules[k]
            } else {
                final(self).modules@ == old(self).modules@.push(final(self).modules@.last())
            },
    {
        proof {
            self.lemma_index(name@, 0);
        }
        let ghost at: int;
        match self.find_module(name.as_str()) {
            Some(i) => {
                self.modules.set(i, ModuleEntry { name, node: module });
                assert(entry_names(self.modules@) =~= entry_names(old(self).modules@));
                proof {
                    at = i as int;
                    assert forall|a: int, b: int| 0 <= a < b < self.modules.len() implies
                        self.modules[a].name@ != self.modules[b].name@ by {
                        assert(self.modules[a].name@ == old(self).modules[a].name@);
                        assert(self.modules[b].name@ == old(self).modules[b].name@);
                    }
                }
            },
            None => {
                self.modules.push(ModuleEntry { name, node: module });
                proof {
                    at = self.modules.len() - 1;
                    assert forall|a: int, b: int| 0 <= a < b < self.modules.len() implies
                        self.modules[a].name@ != self.modules[b].name@ by {
                        assert(self.modules[a] == old(self).modules[a]);
                        if b < old(self).modules.len() {
                            assert(self.modules[b] == old(self).modules[b]);
                        }
                    }
                    assert(self.modules@ =~= old(self).modules@.push(self.modules@.last()));
                    assert(entry_names(self.modules@) =~= entry_names(old(self).modules@).push(
                        name@,
                    ));
                }
            },
        }
        self.update_execution_order();
        proof {
            assert(self.modules[at].name@ == name@);
            self.lemma_index_of_entry(at);
        }
    }

    /// The module `name`, to be changed in place.
    pub fn get_module_mut(&mut self, name: &str) -> (r: Option<&mut Node>)
        ensures
            match r {
                Some(node) => {
                    let i = old(self).index_of(name@);
                    &&& old(self).has_module(name@)
                    &&& *node == old(self).node_of(name@)
                    &&& final(self).connections == old(self).connections
                    &&& final(self).execution_order == old(self).execution_order
                    &&& final(self).current_cycle == old(self).current_cycle
                    &&& final(self).gate_states == old(self).gate_states
                    &&& final(self).modules.len() == old(self).modules.len()
                    &&& final(self).modules[i].name == old(self).modules[i].name
                    &&& final(self).modules[i].node == *final(node)
                    &&& forall|k: int|
                        0 <= k < old(self).modules.len() && k != i ==> final(self).modules[k]
                            == old(self).modules[k]
                },
                None => !old(self).has_module(name@) && *final(self) == *old(self),
            },
    {
        match self.find_module(name) {
            Some(i) => Some(&mut self.modules[i].node),
            None => None,
        }
    }

    /// Sets the parameter `param_name` of the module `module_name`. Where
    /// the graph has no such module, or the module does not take the value
    /// for such a parameter, the graph stays as it is.
    pub fn set_module_param(&mut self, module_name: &str, param_name: &str, value: &Number) -> (r:
        Result<(), GraphError>)
        requires
            old(self).wf(),
            value.wf(),
        ensures
            final(self).wf(),
            final(self).connections == old(self).connections,
            final(self).execution_order == old(self).execution_order,
            final(self).current_cycle == old(self).current_cycle,
            final(self).gate_states == old(self).gate_states,
            entry_names(final(self).modules@) == entry_names(old(self).modules@),
            match r {
                Ok(_) => {
                    &&& old(self).has_module(module_name@)
                    &&& old(self).node_of(module_name@).accepts(param_name@, value@)
                    &&& final(self).node_of(module_name@).kind() == old(self).node_of(
                        module_name@,
                    ).kind()
                    &&& Node::param_set(
                        old(self).node_of(module_name@),
                        final(self).node_of(module_name@),
                        param_name@,
                        value@,
                        Ok(()),
                    )
                    &&& forall|k: int|
                        0 <= k < old(self).modules.len() && k != old(self).index_of(module_name@)
                            ==> final(self).modules[k] == old(self).modules[k]
                },
                Err(GraphError::ModuleNotFound { name }) => {
                    &&& !old(self).has_module(module_name@)
                    &&& name@ == module_name@
                    &&& *final(self) == *old(self)
                },
                Err(GraphError::Parameter { error }) => {
                    &&& old(self).has_module(module_name@)
                    &&& !old(self).node_of(module_name@).accepts(param_name@, value@)
                    &&& final(self).modules@ =~= old(self).modules@
                    &&& Node::param_set(
                        old(self).node_of(module_name@),
                        old(self).node_of(module_name@),
                        param_name@,
                        value@,
                        Err(error),
                    )
                },
            },
    {
        match self.find_module(module_name) {
            Some(i) => {
                let ghost before = self.modules@;
                let r = self.modules[i].node.set_param(param_name, value);
                assert(entry_names(self.modules@) =~= entry_names(before));
                proof {
                    old(self).lemma_index(module_name@, 0);
                    self.lemma_index(module_name@, 0);
                    assert forall|a: int| 0 <= a <= self.modules.len() implies self.index_from(
                        module_name@,
                        a,
                    ) == old(self).index_from(module_name@, a) by {
                        Self::lemma_same_names(*self, *old(self), module_name@, a);
                    }
                }
                match r {
                    Ok(_) => Ok(()),
                    Err(error) => Err(GraphError::Parameter { error }),
                }
            },
            None => Err(GraphError::ModuleNotFound { name: String::from_str(module_name) }),
        }
    }

    /// Graphs whose modules have the same names find a name at the same place.
    pub proof fn lemma_same_names(a: Self, b: Self, name: Seq<char>, from: int)
        requires
            entry_names(a.modules@) == entry_names(b.modules@),
        ensures
            a.index_from(name, from) == b.index_from(name, from),
        decreases a.modules.len() - from,
    {
        assert(a.modules.len() == entry_names(a.modules@).len());
        assert(b.modules.len() == entry_names(b.modules@).len());
        if 0 <= from < a.modules.len() {
            assert(a.modules[from].name@ == entry_names(a.modules@)[from]);
            assert(b.modules[from].name@ == entry_names(b.modules@)[from]);
            if a.modules[from].name@ != name {
                Self::lemma_same_names(a, b, name, from + 1);
            }
        }
    }

    /// The number of manual gates among the first `n` modules.
    pub open spec fn manual_gates(&self, n: int) -> nat
        decreases n,
    {
        if n <= 0 || n > self.modules.len() {
            0
        } else if self.modules[n - 1].node is ManualGate {
            self.manual_gates(n - 1) + 1
        } else {
            self.manual_gates(n - 1)
        }
    }

    /// Switches every manual gate of the graph and counts them.
    pub fn switch_manual_gates(&mut self, on: bool) -> (r: usize)
        requires
            old(self).wf(),
        ensures
            final(self).wf(),
            final(self).connections == old(self).connections,
            final(self).execution_order == old(self).execution_order,
            final(self).current_cycle == old(self).current_cycle,
            final(self).gate_states == old(self).gate_states,
            final(self).modules.len() == old(self).modules.len(),
            r == old(self).manual_gates(old(self).modules.len() as int),
            gates_switched(*old(self), *final(self), on),
            forall|k: int|
                0 <= k < old(self).modules.len() ==> (#[trigger] final(self).modules[k]).name
                    == old(self).modules[k].name && final(self).modules[k].node
                    == match old(self).modules[k].node {
                    Node::ManualGate(_) => Node::ManualGate(
                        crate::graph_modules::GraphManualGate { gate_on: on },
                    ),
                    other => other,
                },
    {
        let mut count: usize = 0;
        let mut i: usize = 0;
        while i < self.modules.len()
            invariant
                i <= self.modules.len(),
                self.modules.len() == old(self).modules.len(),
                self.connections == old(self).connections,
                self.execution_order == old(self).execution_order,
                self.current_cycle == old(self).current_cycle,
                self.gate_states == old(self).gate_states,
                count <= i,
                count == old(self).manual_gates(i as int),
                forall|k: int| i <= k < self.modules.len() ==> self.modules[k] == old(self).modules[k],
                forall|k: int|
                    0 <= k < i ==> (#[trigger] self.modules[k]).name == old(self).modules[k].name
                        && self.modules[k].node == match old(self).modules[k].node {
                        Node::ManualGate(_) => Node::ManualGate(
                            crate::graph_modules::GraphManualGate { gate_on: on },
                        ),
                        other => other,
                    },
            decreases self.modules.len() - i,
        {
            if self.modules[i].node.set_manual_gate(on) {
                count += 1;
            }
            i += 1;
        }
        assert(entry_names(self.modules@) =~= entry_names(old(self).modules@));
        count
    }

    /// Switches every manual gate of the graph on and counts them.
    pub fn activate_manual_gates(&mut self) -> (r: usize)
        requires
            old(self).wf(),
        ensures
            final(self).wf(),
            final(self).connections == old(self).connections,
            final(self).execution_order == old(self).execution_order,
            final(self).current_cycle == old(self).current_cycle,
            final(self).gate_states == old(self).gate_states,
            final(self).modules.len() == old(self).modules.len(),
            r == old(self).manual_gates(old(self).modules.len() as int),
            gates_switched(*old(self), *final(self), true),
            forall|k: int|
                0 <= k < old(self).modules.len() ==> (#[trigger] final(self).modules[k]).name
                    == old(self).modules[k].name && final(self).modules[k].node
                    == match old(self).modules[k].node {
                    Node::ManualGate(_) => Node::ManualGate(
                        crate::graph_modules::GraphManualGate { gate_on: true },
                    ),
                    other => other,
                },
    {
        self.switch_manual_gates(true)
    }

    /// Switches every manual gate of the graph off and counts them.
    pub fn release_manual_gates(&mut self) -> (r: usize)
        requires
            old(self).wf(),
        ensures
            final(self).wf(),
            final(self).connections == old(self).connections,
            final(self).execution_order == old(self).execution_order,
            final(self).current_cycle == old(self).current_cycle,
            final(self).gate_states == old(self).gate_states,
            final(self).modules.len() == old(self).modules.len(),
            r == old(self).manual_gates(old(self).modules.len() as int),
            gates_switched(*old(self), *final(self), false),
            forall|k: int|
                0 <= k < old(self).modules.len() ==> (#[trigger] final(self).modules[k]).name
                    == old(self).modules[k].name && final(self).modules[k].node
                    == match old(self).modules[k].node {
                    Node::ManualGate(_) => Node::ManualGate(
                        crate::graph_modules::GraphManualGate { gate_on: false },
                    ),
                    other => other,
                },
    {
        self.switch_manual_gates(false)
    }
}

impl GraphExecutor {
    /// Records that the input `port` of the stereo output `name` is
    /// connected, if `port` is one of its two sides. A graph without such a
    /// module, or with a module of another type under the name, stays as it is.
    pub fn mark_stereo_side(&mut self, name: &str, port: &str)
        requires
            old(self).wf(),
        ensures
            final(self).wf(),
            final(self).connections == old(self).connections,
            final(self).execution_order == old(self).execution_order,
            final(self).current_cycle == old(self).current_cycle,
            final(self).gate_states == old(self).gate_states,
            final(self).modules.len() == old(self).modules.len(),
            entry_names(final(self).modules@) == entry_names(old(self).modules@),
            forall|k: int|
                0 <= k < old(self).modules.len() && k != old(self).index_of(name@)
                    ==> final(self).modules[k] == old(self).modules[k],
            old(self).has_module(name@) ==> final(self).node_of(name@) == match old(self).node_of(
                name@,
            ) {
                Node::StereoOutput(out) => Node::StereoOutput(
                    crate::graph_modules::GraphStereoOutput {
                        left_connected: out.left_connected || port@ == "left"@,
                        right_connected: out.right_connected || port@ == "right"@,
                    },
                ),
                other => other,
            },
    {
        match self.find_module(name) {
            Some(i) => {
                let ghost before = self.modules@;
                let side = chars_of(port);
                let left = crate::text::is_text(&side, "left");
                let right = crate::text::is_text(&side, "right");
                match &mut self.modules[i].node {
                    Node::StereoOutput(out) => {
                        if left {
                            out.set_left_connected(true);
                        }
                        if right {
                            out.set_right_connected(true);
                        }
                    },
                    _ => {},
                }
                proof {
                    assert(entry_names(self.modules@) =~= entry_names(before));
                    assert forall|a: int| 0 <= a <= self.modules.len() implies self.index_from(
                        name@,
                        a,
                    ) == old(self).index_from(name@, a) by {
                        Self::lemma_same_names(*self, *old(self), name@, a);
                    }
                }
            },
            None => {},
        }
    }
}

impl Default for GraphExecutor {
    fn default() -> (r: Self)
        ensures
            r.wf(),
            r.modules@.len() == 0,
            r.connections@.len() == 0,
            r.current_cycle == 0,
            r.gate_states@.len() == 0,
    {
        Self::new()
    }
}

} // verus!
