//! The buffers of the ports of one module, by name. The samples are kept
//! outside; what is kept here is which buffer belongs to which port.

use vstd::prelude::*;
use vstd::string::StringExecFns;
use crate::graph::strings;
use crate::text::{chars_of, same};

verus! {

/// The ports of a module that have a buffer: the buffer with the index `i`
/// belongs to the port `ports[i]`.
#[derive(Debug)]
pub struct PortBuffers {
    pub ports: Vec<String>,
}

impl PortBuffers {
    /// No port has two buffers.
    pub open spec fn wf(&self) -> bool {
        forall|i: int, j: int|
            0 <= i < j < self.ports.len() ==> self.ports[i]@ != self.ports[j]@
    }

    /// The index of the first buffer of the port `port` at or after `i`;
    /// the number of buffers where there is none.
    pub open spec fn index_from(&self, port: Seq<char>, i: int) -> int
        decreases self.ports.len() - i,
    {
        if i < 0 || i >= self.ports.len() {
            self.ports.len() as int
        } else if self.ports[i]@ == port {
            i
        } else {
            self.index_from(port, i + 1)
        }
    }

    /// Whether the port `port` has a buffer.
    pub open spec fn has(&self, port: Seq<char>) -> bool {
        self.index_from(port, 0) < self.ports.len()
    }

    /// The index of a port is that of its first buffer.
    pub proof fn lemma_index(&self, port: Seq<char>, from: int)
        requires
            0 <= from <= self.ports.len(),
        ensures
            from <= self.index_from(port, from) <= self.ports.len(),
            forall|k: int| from <= k < self.index_from(port, from) ==> self.ports[k]@ != port,
            self.index_from(port, from) < self.ports.len() ==> self.ports[self.index_from(
                port,
                from,
            )]@ == port,
        decreases self.ports.len() - from,
    {
        if from < self.ports.len() && self.ports[from]@ != port {
            self.lemma_index(port, from + 1);
        }
    }

    /// No buffers.
    pub fn new() -> (r: Self)
        ensures
            r.wf(),
            r.ports@.len() == 0,
    {
        PortBuffers { ports: Vec::new() }
    }

    /// The index of the buffer of the port `port`, if it has one.
    pub fn get(&self, port: &str) -> (r: Option<usize>)
        ensures
            match r {
                Some(i) => self.has(port@) && i == self.index_from(port@, 0) && i
                    < self.ports.len() && self.ports[i as int]@ == port@,
                None => !self.has(port@),
            },
    {
        let wanted = chars_of(port);
        let mut i: usize = 0;
        while i < self.ports.len()
            invariant
                i <= self.ports.len(),
                wanted@ == port@,
                self.index_from(port@, 0) == self.index_from(port@, i as int),
            decreases self.ports.len() - i,
        {
            if same(&chars_of(self.ports[i].as_str()), &wanted) {
                return Some(i);
            }
            i += 1;
        }
        None
    }

    /// The index of the buffer of the port `port`, to be written to.
    pub fn get_mut(&self, port: &str) -> (r: Option<usize>)
        ensures
            match r {
                Some(i) => self.has(port@) && i == self.index_from(port@, 0) && i
                    < self.ports.len() && self.ports[i as int]@ == port@,
                None => !self.has(port@),
            },
    {
        self.get(port)
    }

    /// The index of the buffer of the port `port`. A port without a buffer
    /// gets a new one behind those that are there, which is to be filled
    /// with the default value: the second part of the result says so.
    pub fn get_or_default(&mut self, port: &str) -> (r: (usize, bool))
        requires
            old(self).wf(),
        ensures
            final(self).wf(),
            r.1 == !old(self).has(port@),
            r.0 < final(self).ports.len(),
            final(self).ports[r.0 as int]@ == port@,
            if r.1 {
                r.0 == old(self).ports.len() && strings(final(self).ports@) == strings(
                    old(self).ports@,
                ).push(port@)
            } else {
                r.0 == old(self).index_from(port@, 0) && final(self).ports == old(self).ports
            },
    {
        proof {
            self.lemma_index(port@, 0);
        }
        match self.get(port) {
            Some(i) => (i, false),
            None => {
                self.ports.push(String::from_str(port));
                assert(strings(self.ports@) =~= strings(old(self).ports@).push(port@));
                (self.ports.len() - 1, true)
            },
        }
    }

    /// The indices of the buffers of several ports at once, each to be
    /// written to. The names are to differ from one another, so no buffer
    /// is handed out twice; a port without a buffer gets none.
    pub fn get_many_mut(&self, ports: &Vec<String>) -> (r: Vec<Option<usize>>)
        requires
            self.wf(),
            distinct(strings(ports@)),
        ensures
            r.len() == ports.len(),
            forall|i: int|
                0 <= i < ports.len() ==> (#[trigger] r[i]) == if self.has(ports[i]@) {
                    Some(self.index_from(ports[i]@, 0) as usize)
                } else {
                    None
                },
            forall|i: int, j: int|
                0 <= i < j < ports.len() && r[i] is Some && r[j] is Some ==> r[i]->0 != r[j]->0,
    {
        let ghost names = strings(ports@);
        let mut found: Vec<Option<usize>> = Vec::new();
        let mut i: usize = 0;
        while i < ports.len()
            invariant
                i <= ports.len(),
                found.len() == i,
                forall|k: int|
                    0 <= k < i ==> (#[trigger] found[k]) == if self.has(ports[k]@) {
                        Some(self.index_from(ports[k]@, 0) as usize)
                    } else {
                        None
                    },
            decreases ports.len() - i,
        {
            found.push(self.get(ports[i].as_str()));
            i += 1;
        }
        proof {
            assert forall|a: int, b: int|
                0 <= a < b < ports.len() && found[a] is Some && found[b] is Some implies found[a]->0
                != found[b]->0 by {
                assert(names[a] == ports[a]@);
                assert(names[b] == ports[b]@);
                self.lemma_index(ports[a]@, 0);
                self.lemma_index(ports[b]@, 0);
            }
        }
        found
    }
}

/// Whether no name occurs twice among `names`.
pub open spec fn distinct(names: Seq<Seq<char>>) -> bool {
    forall|i: int, j: int| 0 <= i < j < names.len() ==> names[i] != names[j]
}

/// Whether no name occurs twice among `ports`.
pub fn are_distinct(ports: &Vec<String>) -> (r: bool)
    ensures
        r == distinct(strings(ports@)),
{
    let ghost names = strings(ports@);
    let mut j: usize = 0;
    while j < ports.len()
        invariant
            j <= ports.len(),
            names == strings(ports@),
            forall|a: int, b: int| 0 <= a < b < j ==> names[a] != names[b],
        decreases ports.len() - j,
    {
        let name = chars_of(ports[j].as_str());
        let mut i: usize = 0;
        while i < j
            invariant
                i <= j < ports.len(),
                names == strings(ports@),
                name@ == ports[j as int]@,
                forall|a: int| 0 <= a < i ==> names[a] != names[j as int],
            decreases j - i,
        {
            assert(names[i as int] == ports[i as int]@);
            assert(names[j as int] == ports[j as int]@);
            if same(&chars_of(ports[i].as_str()), &name) {
                return false;
            }
            i += 1;
        }
        j += 1;
    }
    true
}

impl Default for PortBuffers {
    fn default() -> (r: Self)
        ensures
            r.wf(),
            r.ports@.len() == 0,
    {
        Self::new()
    }
}

} // verus!
