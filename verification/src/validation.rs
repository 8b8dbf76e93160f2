//! Inspection of the connections of a graph: whether each ends at a declared
//! input and reads only declared outputs.

use vstd::prelude::*;
use vstd::string::StringExecFns;
use crate::graph::{
    has_port, missing_input, missing_module, missing_output, missing_source, models, push_message,
    strings, Connection, ConnectionExpr, ConnectionView, ExprView, GraphExecutor,
};

verus! {

impl GraphExecutor {
    /// What is to be said of the destination of a connection: nothing where
    /// the module is there and declares the input.
    pub open spec fn destination_diagnostics(&self, c: ConnectionView) -> Seq<Seq<char>> {
        if !self.has_module(c.to_module) {
            seq![missing_module(c.to_module)]
        } else if !self.node_of(c.to_module).input_names().contains(c.to_port) {
            seq![missing_input(c.to_module, c.to_port)]
        } else {
            Seq::empty()
        }
    }

    /// What is to be said of an expression: a message for each output it
    /// reads that no module declares, in the order in which they are read.
    pub open spec fn expression_diagnostics(&self, e: ExprView) -> Seq<Seq<char>>
        decreases e, 0int,
    {
        match e {
            ExprView::Direct { module, port } => {
                if !self.has_module(module) {
                    seq![missing_source(module)]
                } else if !self.node_of(module).output_names().contains(port) {
                    seq![missing_output(module, port)]
                } else {
                    Seq::empty()
                }
            },
            ExprView::Scaled { expr, .. } => self.expression_diagnostics(*expr),
            ExprView::Offset { expr, .. } => self.expression_diagnostics(*expr),
            ExprView::Sum { exprs } => self.summand_diagnostics(exprs, exprs.len() as int),
        }
    }

    /// What is to be said of the first `n` of the expressions `exprs`.
    pub open spec fn summand_diagnostics(&self, exprs: Seq<ExprView>, n: int) -> Seq<Seq<char>>
        decreases exprs, n,
    {
        if n <= 0 || n > exprs.len() {
            Seq::empty()
        } else {
            self.summand_diagnostics(exprs, n - 1) + self.expression_diagnostics(exprs[n - 1])
        }
    }

    /// What is to be said of a connection: of its destination, then of its
    /// expression.
    pub open spec fn connection_diagnostics(&self, c: ConnectionView) -> Seq<Seq<char>> {
        self.destination_diagnostics(c) + self.expression_diagnostics(c.expression)
    }

    /// What is to be said of the first `n` connections.
    pub open spec fn diagnostics_upto(&self, n: int) -> Seq<Seq<char>>
        decreases n,
    {
        if n <= 0 || n > self.connections.len() {
            Seq::empty()
        } else {
            self.diagnostics_upto(n - 1) + self.connection_diagnostics(self.connections[n - 1]@)
        }
    }

    /// What is to be said of the connections of the graph.
    pub open spec fn diagnostics(&self) -> Seq<Seq<char>> {
        self.diagnostics_upto(self.connections.len() as int)
    }

    /// Whether every output that an expression reads is declared by a
    /// module of the graph.
    pub open spec fn expression_valid(&self, e: ExprView) -> bool
        decreases e,
    {
        match e {
            ExprView::Direct { module, port } => self.has_output(module, port),
            ExprView::Scaled { expr, .. } => self.expression_valid(*expr),
            ExprView::Offset { expr, .. } => self.expression_valid(*expr),
            ExprView::Sum { exprs } => forall|i: int|
                0 <= i < exprs.len() ==> self.expression_valid(#[trigger] exprs[i]),
        }
    }

    /// Whether a connection ends at a declared input of a module of the
    /// graph and reads declared outputs only.
    pub open spec fn connection_valid(&self, c: ConnectionView) -> bool {
        self.has_input(c.to_module, c.to_port) && self.expression_valid(c.expression)
    }

    /// Nothing is to be said of an expression just when it is valid.
    pub proof fn lemma_expression_diagnostics(&self, e: ExprView)
        ensures
            self.expression_diagnostics(e).len() == 0 <==> self.expression_valid(e),
        decreases e, 0int,
    {
        match e {
            ExprView::Direct { .. } => {},
            ExprView::Scaled { expr, .. } => {
                self.lemma_expression_diagnostics(*expr);
            },
            ExprView::Offset { expr, .. } => {
                self.lemma_expression_diagnostics(*expr);
            },
            ExprView::Sum { exprs } => {
                self.lemma_summand_diagnostics(exprs, exprs.len() as int);
            },
        }
    }

    /// Nothing is to be said of the first `n` expressions just when each of
    /// them is valid.
    pub proof fn lemma_summand_diagnostics(&self, exprs: Seq<ExprView>, n: int)
        requires
            0 <= n <= exprs.len(),
        ensures
            self.summand_diagnostics(exprs, n).len() == 0 <==> forall|i: int|
                0 <= i < n ==> self.expression_valid(#[trigger] exprs[i]),
        decreases exprs, n,
    {
        if n > 0 {
            self.lemma_summand_diagnostics(exprs, n - 1);
            self.lemma_expression_diagnostics(exprs[n - 1]);
            if self.summand_diagnostics(exprs, n).len() == 0 {
                assert forall|i: int| 0 <= i < n implies self.expression_valid(
                    #[trigger] exprs[i],
                ) by {
                    if i == n - 1 {
                    }
                }
            }
        }
    }

    /// Nothing is to be said of the first `n` connections just when each of
    /// them is valid.
    pub proof fn lemma_diagnostics_upto(&self, n: int)
        requires
            0 <= n <= self.connections.len(),
        ensures
            self.diagnostics_upto(n).len() == 0 <==> forall|i: int|
                0 <= i < n ==> self.connection_valid(#[trigger] self.connections[i]@),
        decreases n,
    {
        if n > 0 {
            self.lemma_diagnostics_upto(n - 1);
            let c = self.connections[n - 1]@;
            self.lemma_expression_diagnostics(c.expression);
            if self.diagnostics_upto(n).len() == 0 {
                assert forall|i: int| 0 <= i < n implies self.connection_valid(
                    #[trigger] self.connections[i]@,
                ) by {
                    if i == n - 1 {
                    }
                }
            }
        }
    }

    /// Validation has nothing to say just when every connection ends at a
    /// declared input of a module of the graph and every output that its
    /// expression reads is declared by a module of the graph.
    pub proof fn lemma_validation_is_exact(&self)
        ensures
            self.diagnostics().len() == 0 <==> forall|i: int|
                0 <= i < self.connections.len() ==> self.connection_valid(
                    #[trigger] self.connections[i]@,
                ),
    {
        self.lemma_diagnostics_upto(self.connections.len() as int);
    }

    /// Adds to `errors` what is to be said of an expression.
    fn validate_expression(&self, expr: &ConnectionExpr, errors: &mut Vec<String>)
        ensures
            strings(final(errors)@) == strings(old(errors)@) + self.expression_diagnostics(expr@),
        decreases expr, 0int,
    {
        match expr {
            ConnectionExpr::Direct { module, port } => {
                match self.get_module(module.as_str()) {
                    Some(node) => {
                        let outputs = node.outputs();
                        if !has_port(&outputs, port.as_str()) {
                            push_message(
                                errors,
                                String::from_str("Module '").concat(module.as_str()).concat(
                                    "' has no output port '",
                                ).concat(port.as_str()).concat("'"),
                            );
                        } else {
                            assert(strings(errors@) + Seq::<Seq<char>>::empty() =~= strings(
                                errors@,
                            ));
                        }
                    },
                    None => {
                        push_message(
                            errors,
                            String::from_str("Source module '").concat(module.as_str()).concat(
                                "' not found",
                            ),
                        );
                    },
                }
            },
            ConnectionExpr::Scaled { expr, .. } => {
                self.validate_expression(expr, errors);
            },
            ConnectionExpr::Offset { expr, .. } => {
                self.validate_expression(expr, errors);
            },
            ConnectionExpr::Sum { exprs } => {
                self.validate_summands(exprs, exprs.len(), errors);
            },
        }
    }

    /// Adds to `errors` what is to be said of the first `n` of the
    /// expressions `exprs`.
    fn validate_summands(&self, exprs: &Vec<ConnectionExpr>, n: usize, errors: &mut Vec<String>)
        requires
            n <= exprs.len(),
        ensures
            strings(final(errors)@) == strings(old(errors)@) + self.summand_diagnostics(
                models(*exprs),
                n as int,
            ),
        decreases exprs, n,
    {
        if n == 0 {
            assert(strings(errors@) + Seq::<Seq<char>>::empty() =~= strings(errors@));
        } else {
            self.validate_summands(exprs, n - 1, errors);
            let ghost middle = strings(errors@);
            self.validate_expression(&exprs[n - 1], errors);
            assert(models(*exprs)[n - 1] == exprs[n - 1]@);
            assert(strings(old(errors)@) + (self.summand_diagnostics(models(*exprs), n - 1)
                + self.expression_diagnostics(exprs[n - 1]@)) =~= middle
                + self.expression_diagnostics(exprs[n - 1]@));
        }
    }

    /// Adds to `errors` what is to be said of the destination of a connection.
    fn validate_destination(&self, connection: &Connection, errors: &mut Vec<String>)
        ensures
            strings(final(errors)@) == strings(old(errors)@) + self.destination_diagnostics(
                connection@,
            ),
    {
        match self.get_module(connection.to_module.as_str()) {
            Some(node) => {
                let inputs = node.inputs();
                if !has_port(&inputs, connection.to_port.as_str()) {
                    push_message(
                        errors,
                        String::from_str("Module '").concat(connection.to_module.as_str()).concat(
                            "' has no input port '",
                        ).concat(connection.to_port.as_str()).concat("'"),
                    );
                } else {
                    assert(strings(errors@) + Seq::<Seq<char>>::empty() =~= strings(errors@));
                }
            },
            None => {
                push_message(
                    errors,
                    String::from_str("Module '").concat(connection.to_module.as_str()).concat(
                        "' not found",
                    ),
                );
            },
        }
    }

    /// What is to be said of the connections of the graph: for each
    /// connection, in order, a message where its destination module is
    /// missing or does not declare the input, and a message for each output
    /// that its expression reads and no module declares. The list is empty
    /// just when every connection is valid.
    pub fn validate_connections(&self) -> (r: Vec<String>)
        ensures
            strings(r@) == self.diagnostics(),
            r.len() == 0 <==> forall|i: int|
                0 <= i < self.connections.len() ==> self.connection_valid(
                    #[trigger] self.connections[i]@,
                ),
    {
        let mut errors: Vec<String> = Vec::new();
        let mut i: usize = 0;
        assert(strings(errors@) =~= Seq::<Seq<char>>::empty());
        while i < self.connections.len()
            invariant
                i <= self.connections.len(),
                strings(errors@) == self.diagnostics_upto(i as int),
            decreases self.connections.len() - i,
        {
            let ghost before = strings(errors@);
            self.validate_destination(&self.connections[i], &mut errors);
            self.validate_expression(&self.connections[i].expression, &mut errors);
            proof {
                let c = self.connections[i as int]@;
                assert(before + self.destination_diagnostics(c) + self.expression_diagnostics(
                    c.expression,
                ) =~= before + (self.destination_diagnostics(c) + self.expression_diagnostics(
                    c.expression,
                )));
            }
            i += 1;
        }
        proof {
            self.lemma_validation_is_exact();
            assert(strings(errors@).len() == errors.len());
        }
        errors
    }
}

} // verus!
