//! The standard sub-patches that the library carries with it.

use vstd::prelude::*;
use vstd::string::{StrSliceExecFns, StringExecFns};
use crate::text::{begins_with, chars_of, same, starts_with};

verus! {

/// One embedded sub-patch: its name, its source text and what it is for.
pub struct EmbeddedEntry {
    pub name: String,
    pub content: String,
    pub description: String,
}

/// The embedded sub-patches, by name.
pub struct EmbeddedStdlib {
    pub modules: Vec<EmbeddedEntry>,
}

/// What is known of an embedded sub-patch.
#[derive(Debug)]
pub struct EmbeddedModuleInfo {
    pub name: String,
    pub description: String,
    pub content: String,
    pub size_bytes: usize,
}

/// The name asked for is that of no embedded sub-patch.
#[derive(Debug)]
pub struct NotEmbedded {
    pub name: String,
}

impl NotEmbedded {
    /// The text shown to the user.
    pub fn message(&self) -> (r: String)
        ensures
            r@ == "Embedded stdlib module '"@ + self.name@ + "' not found"@,
    {
        String::from_str("Embedded stdlib module '").concat(self.name.as_str()).concat(
            "' not found",
        )
    }
}

/// Whether the character `x` comes before the character `y`.
pub open spec fn char_before(x: char, y: char) -> bool {
    (x as u32) < (y as u32)
}

/// Whether `a` comes before `b` in the order of strings: character by
/// character, a proper beginning first.
pub open spec fn text_less(a: Seq<char>, b: Seq<char>) -> bool
    decreases a.len(),
{
    if b.len() == 0 {
        false
    } else if a.len() == 0 {
        true
    } else if a[0] != b[0] {
        char_before(a[0], b[0])
    } else {
        text_less(a.subrange(1, a.len() as int), b.subrange(1, b.len() as int))
    }
}

/// The prefix that marks a path into the embedded sub-patches.
pub open spec fn stdlib_prefix() -> Seq<char> {
    "stdlib:"@
}

/// The source text of the sub-patch `uncertainty`.
pub const UNCERTAINTY: &'static str =
    "# Source of uncertainty: stepped and smooth random voltages with a gate\n\
clock: lfo 2\n\
chaos: noise\n\
drift: slew 0.2 0.2\n\
drift.in <- chaos.brown\n\
steps: slew 0.01 0.01\n\
steps.in <- chaos.white * 0.5\n\
level: vca 1\n\
level.audio <- drift.out\n\
level.cv <- clock.gate\n\
patchbay:\n  \
smooth: port 1 Slowly wandering voltage\n  \
stepped: port 2 Quickly changing voltage\n  \
gate: port 3 Clock gate\n  \
burst: port 4 Gated random voltage\n";

impl EmbeddedStdlib {
    /// The names are in ascending order, so each occurs once.
    pub open spec fn wf(&self) -> bool {
        forall|i: int, j: int|
            0 <= i < j < self.modules.len() ==> text_less(
                #[trigger] self.modules[i].name@,
                #[trigger] self.modules[j].name@,
            )
    }

    /// The position of the first sub-patch named `name` at or after `i`; the
    /// number of sub-patches where there is none.
    pub open spec fn index_from(&self, name: Seq<char>, i: int) -> int
        decreases self.modules.len() - i,
    {
        if i < 0 || i >= self.modules.len() {
            self.modules.len() as int
        } else if self.modules[i].name@ == name {
            i
        } else {
            self.index_from(name, i + 1)
        }
    }

    /// The position of the sub-patch `name`; the number of sub-patches where
    /// none has that name.
    pub open spec fn index_of(&self, name: Seq<char>) -> int {
        self.index_from(name, 0)
    }

    /// Whether a sub-patch `name` is embedded.
    pub open spec fn has(&self, name: Seq<char>) -> bool {
        self.index_of(name) < self.modules.len()
    }

    /// Whether these are the embedded sub-patches: `uncertainty` alone,
    /// with its source text.
    pub open spec fn is_the_library(&self) -> bool {
        &&& self.modules.len() == 1
        &&& self.modules[0].name@ == "uncertainty"@
        &&& self.modules[0].content@ == UNCERTAINTY@
    }

    /// Among the embedded sub-patches a name is found just when it is
    /// `uncertainty`.
    pub proof fn lemma_only_uncertainty(&self, name: Seq<char>)
        requires
            self.is_the_library(),
        ensures
            self.has(name) <==> name == "uncertainty"@,
            self.has(name) ==> self.modules[self.index_of(name)].content@ == UNCERTAINTY@,
    {
        assert(self.index_from(name, 1) == 1);
    }

    /// The embedded sub-patches: `uncertainty` alone.
    pub fn new() -> (r: Self)
        ensures
            r.is_the_library(),
            r.wf(),
            r.modules.len() == 1,
            r.modules[0].name@ == "uncertainty"@,
            r.modules[0].content@ == UNCERTAINTY@,
            r.has("uncertainty"@),
    {
        proof {
            reveal_strlit("uncertainty");
        }
        let mut modules: Vec<EmbeddedEntry> = Vec::new();
        modules.push(
            EmbeddedEntry {
                name: String::from_str("uncertainty"),
                content: String::from_str(UNCERTAINTY),
                description: String::from_str(
                    "Random CV and gate generator inspired by the Buchla Source of Uncertainty",
                ),
            },
        );
        EmbeddedStdlib { modules }
    }

    /// Finds the sub-patch `name`.
    pub fn find(&self, name: &str) -> (r: Option<usize>)
        ensures
            r is Some == self.has(name@),
            r is Some ==> r->0 == self.index_of(name@),
            0 <= self.index_of(name@) <= self.modules.len(),
    {
        let wanted = chars_of(name);
        let mut i: usize = 0;
        while i < self.modules.len()
            invariant
                i <= self.modules.len(),
                wanted@ == name@,
                self.index_of(name@) == self.index_from(name@, i as int),
            decreases self.modules.len() - i,
        {
            let candidate = chars_of(self.modules[i].name.as_str());
            if same(&candidate, &wanted) {
                return Some(i);
            }
            i += 1;
        }
        None
    }

    /// Whether a sub-patch `name` is embedded.
    pub fn has_module(&self, name: &str) -> (r: bool)
        ensures
            r == self.has(name@),
    {
        self.find(name).is_some()
    }

    /// The source text of the sub-patch `name`.
    pub fn get_module(&self, name: &str) -> (r: Result<&str, NotEmbedded>)
        ensures
            match r {
                Ok(content) => self.has(name@) && content@ == self.modules[self.index_of(
                    name@,
                )].content@,
                Err(e) => !self.has(name@) && e.name@ == name@,
            },
    {
        match self.find(name) {
            Some(i) => Ok(self.modules[i].content.as_str()),
            None => Err(NotEmbedded { name: String::from_str(name) }),
        }
    }

    /// What the sub-patch `name` is for.
    pub fn get_description(&self, name: &str) -> (r: Option<&str>)
        ensures
            match r {
                Some(d) => self.has(name@) && d@ == self.modules[self.index_of(
                    name@,
                )].description@,
                None => !self.has(name@),
            },
    {
        match self.find(name) {
            Some(i) => Some(self.modules[i].description.as_str()),
            None => None,
        }
    }

    /// The names of the embedded sub-patches, in ascending order.
    pub fn list_modules(&self) -> (r: Vec<String>)
        requires
            self.wf(),
        ensures
            r.len() == self.modules.len(),
            forall|i: int| 0 <= i < r.len() ==> (#[trigger] r[i])@ == self.modules[i].name@,
            forall|i: int, j: int|
                0 <= i < j < r.len() ==> text_less((#[trigger] r[i])@, (#[trigger] r[j])@),
    {
        let mut names: Vec<String> = Vec::new();
        let mut i: usize = 0;
        while i < self.modules.len()
            invariant
                i <= self.modules.len(),
                names.len() == i,
                forall|k: int| 0 <= k < i ==> (#[trigger] names[k])@ == self.modules[k].name@,
            decreases self.modules.len() - i,
        {
            names.push(self.modules[i].name.clone());
            i += 1;
        }
        names
    }

    /// Name, description, source text and size in bytes of the sub-patch `name`.
    pub fn get_module_info(&self, name: &str) -> (r: Option<EmbeddedModuleInfo>)
        ensures
            match r {
                Some(info) => {
                    let entry = self.modules[self.index_of(name@)];
                    &&& self.has(name@)
                    &&& info.name@ == name@
                    &&& info.content@ == entry.content@
                    &&& info.description@ == entry.description@
                    &&& info.size_bytes == vstd::utf8::encode_utf8(entry.content@).len() as usize
                },
                None => !self.has(name@),
            },
    {
        match self.find(name) {
            Some(i) => {
                let content = self.modules[i].content.clone();
                let size_bytes = content.as_str().len();
                Some(
                    EmbeddedModuleInfo {
                        name: String::from_str(name),
                        description: self.modules[i].description.clone(),
                        content,
                        size_bytes,
                    },
                )
            },
            None => None,
        }
    }

    /// Whether a path leads into the embedded sub-patches: it begins with `stdlib:`.
    pub fn is_stdlib_path(path: &str) -> (r: bool)
        ensures
            r == starts_with(path@, stdlib_prefix()),
    {
        let v = chars_of(path);
        let prefix = chars_of("stdlib:");
        begins_with(&v, &prefix)
    }

    /// What follows `stdlib:` in a path into the embedded sub-patches.
    pub fn extract_module_name(path: &str) -> (r: Option<&str>)
        ensures
            r is Some == starts_with(path@, stdlib_prefix()),
            r is Some ==> r->0@ == path@.subrange(stdlib_prefix().len() as int, path@.len() as int),
    {
        if Self::is_stdlib_path(path) {
            proof {
                reveal_strlit("stdlib:");
            }
            Some(path.substring_char(7, path.unicode_len()))
        } else {
            None
        }
    }
}

impl Default for EmbeddedStdlib {
    fn default() -> (r: Self)
        ensures
            r.is_the_library(),
            r.wf(),
            r.has("uncertainty"@),
    {
        Self::new()
    }
}

} // verus!
