//! Loading of sub-patches: their statements, their patchbay, and a cache of
//! what was loaded.

use vstd::prelude::*;
use vstd::string::StringExecFns;
use crate::embedded_stdlib::{stdlib_prefix, EmbeddedStdlib, NotEmbedded};
use crate::module_resolver::{ModuleNotFound, ModuleResolver};
use crate::parser::{
    clone_commands, command_views, commands_from, lines_of, parse_source, port_views, Command,
    CommandView, PatchbayDef, PortDefView,
};
use crate::text::{chars_of, same, starts_with};

verus! {

/// A sub-patch that was loaded.
#[derive(Debug)]
pub struct LoadedModule {
    /// The path under which the sub-patch was asked for.
    pub path: String,
    /// The place where it was found.
    pub file_path: String,
    /// Its source text.
    pub content: String,
    /// Its patchbay, if it defines one.
    pub patchbay: Option<PatchbayDef>,
    /// Its statements.
    pub commands: Vec<Command>,
}

/// The ports of an optional patchbay.
pub open spec fn patchbay_view(p: Option<PatchbayDef>) -> Option<Seq<PortDefView>> {
    match p {
        Some(b) => Some(b@),
        None => None,
    }
}

/// The patchbay that the first patchbay statement among the statements
/// from `i` on defines.
pub open spec fn first_patchbay(commands: Seq<CommandView>, i: int) -> Option<Seq<PortDefView>>
    decreases commands.len() - i,
{
    if i < 0 || i >= commands.len() {
        None
    } else {
        match commands[i] {
            CommandView::DefinePatchbay { ports } => Some(ports),
            _ => first_patchbay(commands, i + 1),
        }
    }
}

impl LoadedModule {
    /// The statements are those of the source text, the patchbay is the
    /// first that they define, and their numbers are written as numbers.
    pub open spec fn wf(&self) -> bool {
        &&& command_views(self.commands@) == commands_from(lines_of(self.content@), 0)
        &&& patchbay_view(self.patchbay) == first_patchbay(command_views(self.commands@), 0)
        &&& forall|i: int| 0 <= i < self.commands.len() ==> (#[trigger] self.commands[i]).wf()
    }

    /// Whether two loaded sub-patches hold the same.
    pub open spec fn same_as(&self, other: &LoadedModule) -> bool {
        &&& self.path@ == other.path@
        &&& self.file_path@ == other.file_path@
        &&& self.content@ == other.content@
        &&& patchbay_view(self.patchbay) == patchbay_view(other.patchbay)
        &&& command_views(self.commands@) == command_views(other.commands@)
    }
}

impl Clone for LoadedModule {
    fn clone(&self) -> (r: Self)
        ensures
            r.same_as(self),
            self.wf() ==> r.wf(),
    {
        LoadedModule {
            path: self.path.clone(),
            file_path: self.file_path.clone(),
            content: self.content.clone(),
            patchbay: match &self.patchbay {
                Some(p) => Some(p.clone()),
                None => None,
            },
            commands: clone_commands(&self.commands),
        }
    }
}

/// Why a sub-patch was not loaded.
#[derive(Debug)]
pub enum LoadError {
    /// No file was found for the path.
    NotFound { missing: ModuleNotFound },
    /// The path leads into the embedded sub-patches, and none has that name.
    NotEmbedded { unknown: NotEmbedded },
    /// The sub-patch is kept in this file, whose text was not handed in yet.
    FileNeeded { file_path: String },
}

/// Why the patchbay of a sub-patch is not in order.
#[derive(Debug)]
pub enum InterfaceError {
    /// The sub-patch defines no patchbay.
    NoPatchbay { path: String },
    /// The patchbay has no ports.
    EmptyPatchbay { path: String },
    /// Two ports have this number.
    DuplicatePortNumber { path: String, number: u32 },
    /// Two ports have this name.
    DuplicatePortName { path: String, name: String },
}

/// Why the imports of a patch were not processed.
#[derive(Debug)]
pub enum ImportError {
    /// A sub-patch was not loaded.
    Load { failure: LoadError },
    /// The patchbay of a sub-patch is not in order.
    Interface { fault: InterfaceError },
}

impl LoadError {
    /// The text of the error.
    pub open spec fn text(&self) -> Seq<char> {
        match self {
            LoadError::NotFound { missing } => missing.text(),
            LoadError::NotEmbedded { unknown } => "Embedded stdlib module '"@ + unknown.name@
                + "' not found"@,
            LoadError::FileNeeded { file_path } => "Failed to read module file '"@ + file_path@
                + "': its text was not handed in"@,
        }
    }

    /// The text shown to the user.
    pub fn message(&self) -> (r: String)
        ensures
            r@ == self.text(),
    {
        match self {
            LoadError::NotFound { missing } => missing.message(),
            LoadError::NotEmbedded { unknown } => unknown.message(),
            LoadError::FileNeeded { file_path } => String::from_str(
                "Failed to read module file '",
            ).concat(file_path.as_str()).concat("': its text was not handed in"),
        }
    }
}

impl InterfaceError {
    /// The text of the error.
    pub open spec fn text(&self) -> Seq<char> {
        match self {
            InterfaceError::NoPatchbay { path } => "Module '"@ + path@
                + "' has no patchbay interface"@,
            InterfaceError::EmptyPatchbay { path } => "Module '"@ + path@
                + "' has empty patchbay interface"@,
            InterfaceError::DuplicatePortNumber { path, number } => "Module '"@ + path@
                + "' has duplicate port number "@ + crate::number::decimal_text(*number as nat)
                + " in patchbay"@,
            InterfaceError::DuplicatePortName { path, name } => "Module '"@ + path@
                + "' has duplicate port name '"@ + name@ + "' in patchbay"@,
        }
    }

    /// The text shown to the user.
    pub fn message(&self) -> (r: String)
        ensures
            r@ == self.text(),
    {
        match self {
            InterfaceError::NoPatchbay { path } => String::from_str("Module '").concat(
                path.as_str(),
            ).concat("' has no patchbay interface"),
            InterfaceError::EmptyPatchbay { path } => String::from_str("Module '").concat(
                path.as_str(),
            ).concat("' has empty patchbay interface"),
            InterfaceError::DuplicatePortNumber { path, number } => String::from_str(
                "Module '",
            ).concat(path.as_str()).concat("' has duplicate port number ").concat(
                crate::text::string_from(&crate::number::decimal_digits(*number as usize)).as_str(),
            ).concat(" in patchbay"),
            InterfaceError::DuplicatePortName { path, name } => String::from_str(
                "Module '",
            ).concat(path.as_str()).concat("' has duplicate port name '").concat(
                name.as_str(),
            ).concat("' in patchbay"),
        }
    }
}

impl ImportError {
    /// The text of the error.
    pub open spec fn text(&self) -> Seq<char> {
        match self {
            ImportError::Load { failure } => failure.text(),
            ImportError::Interface { fault } => fault.text(),
        }
    }

    /// The text shown to the user.
    pub fn message(&self) -> (r: String)
        ensures
            r@ == self.text(),
    {
        match self {
            ImportError::Load { failure } => failure.message(),
            ImportError::Interface { fault } => fault.message(),
        }
    }
}

/// Whether the port `j` has the number of a port before it.
pub open spec fn repeats_number(ports: Seq<PortDefView>, j: int) -> bool {
    exists|i: int| 0 <= i < j && ports[i].port_number == ports[j].port_number
}

/// Whether the port `j` has the name of a port before it.
pub open spec fn repeats_name(ports: Seq<PortDefView>, j: int) -> bool {
    exists|i: int| 0 <= i < j && ports[i].name == ports[j].name
}

/// The first port at or after `j` that has the number of a port before it;
/// the number of ports where there is none.
pub open spec fn first_repeated_number(ports: Seq<PortDefView>, j: int) -> int
    decreases ports.len() - j,
{
    if j < 0 || j >= ports.len() {
        ports.len() as int
    } else if repeats_number(ports, j) {
        j
    } else {
        first_repeated_number(ports, j + 1)
    }
}

/// The first port at or after `j` that has the name of a port before it;
/// the number of ports where there is none.
pub open spec fn first_repeated_name(ports: Seq<PortDefView>, j: int) -> int
    decreases ports.len() - j,
{
    if j < 0 || j >= ports.len() {
        ports.len() as int
    } else if repeats_name(ports, j) {
        j
    } else {
        first_repeated_name(ports, j + 1)
    }
}

/// Whether a patchbay is in order: it is there, has a port, and no two of
/// its ports have one number or one name.
pub open spec fn interface_in_order(patchbay: Option<Seq<PortDefView>>) -> bool {
    match patchbay {
        Some(ports) => {
            &&& ports.len() > 0
            &&& first_repeated_number(ports, 0) == ports.len()
            &&& first_repeated_name(ports, 0) == ports.len()
        },
        None => false,
    }
}

/// The patchbay that a source text defines.
pub open spec fn patchbay_of(content: Seq<char>) -> Option<Seq<PortDefView>> {
    first_patchbay(commands_from(lines_of(content), 0), 0)
}

impl InterfaceError {
    /// The path of the sub-patch that the error speaks of.
    pub open spec fn subject(&self) -> Seq<char> {
        match self {
            InterfaceError::NoPatchbay { path } => path@,
            InterfaceError::EmptyPatchbay { path } => path@,
            InterfaceError::DuplicatePortNumber { path, number } => path@,
            InterfaceError::DuplicatePortName { path, name } => path@,
        }
    }

    /// Whether this is the error for the patchbay `patchbay`: that it is
    /// missing; else that it is empty; else the first port that has the
    /// number of a port before it; else the first that has the name of one.
    pub open spec fn describes(&self, patchbay: Option<Seq<PortDefView>>) -> bool {
        match self {
            InterfaceError::NoPatchbay { path } => patchbay is None,
            InterfaceError::EmptyPatchbay { path } => patchbay is Some && patchbay->0.len() == 0,
            InterfaceError::DuplicatePortNumber { path, number } => {
                let ports = patchbay->0;
                &&& patchbay is Some
                &&& first_repeated_number(ports, 0) < ports.len()
                &&& *number == ports[first_repeated_number(ports, 0)].port_number
            },
            InterfaceError::DuplicatePortName { path, name } => {
                let ports = patchbay->0;
                &&& patchbay is Some
                &&& ports.len() > 0
                &&& first_repeated_number(ports, 0) == ports.len()
                &&& first_repeated_name(ports, 0) < ports.len()
                &&& name@ == ports[first_repeated_name(ports, 0)].name
            },
        }
    }
}

/// A source text and the place where it was found.
pub struct SourceText {
    pub place: Seq<char>,
    pub content: Seq<char>,
}

/// The source text of a sub-patch that is handed to the loader: the path
/// under which the sub-patch is asked for, the place where the text was
/// found, and the text.
#[derive(Debug)]
pub struct ModuleText {
    pub path: String,
    pub file_path: String,
    pub content: String,
}

/// The source text that the last of the first `n` texts for the path
/// `path` holds, if one of them is for that path.
pub open spec fn handed_in(texts: Seq<ModuleText>, path: Seq<char>, n: int) -> Option<SourceText>
    decreases n,
{
    if n <= 0 || n > texts.len() {
        None
    } else if texts[n - 1].path@ == path {
        Some(SourceText { place: texts[n - 1].file_path@, content: texts[n - 1].content@ })
    } else {
        handed_in(texts, path, n - 1)
    }
}

/// Loads sub-patches and keeps what it has loaded.
pub struct ModuleLoader {
    pub resolver: ModuleResolver,
    pub cache: Vec<LoadedModule>,
}

impl ModuleLoader {
    /// Every sub-patch that is kept is valid.
    pub open spec fn wf(&self) -> bool {
        forall|i: int| 0 <= i < self.cache.len() ==> (#[trigger] self.cache[i]).wf()
    }

    /// A loader with the search paths of the user and nothing loaded.
    pub fn new() -> (r: Self)
        ensures
            r.wf(),
            r.cache@.len() == 0,
            r.resolver.search_paths.current_file_dir is None,
            r.resolver.embedded_stdlib.is_the_library(),
    {
        ModuleLoader { resolver: ModuleResolver::new(), cache: Vec::new() }
    }

    /// A loader for the imports of the patch file `patch_file`.
    pub fn from_patch_file(patch_file: &str) -> (r: Self)
        ensures
            r.wf(),
            r.cache@.len() == 0,
            r.resolver.is_for_patch_file(patch_file@),
    {
        ModuleLoader { resolver: ModuleResolver::from_patch_file(patch_file), cache: Vec::new() }
    }

    /// The position of the first sub-patch kept under `path` at or after
    /// `i`; the number of sub-patches kept where there is none.
    pub open spec fn cache_index_from(&self, path: Seq<char>, i: int) -> int
        decreases self.cache.len() - i,
    {
        if i < 0 || i >= self.cache.len() {
            self.cache.len() as int
        } else if self.cache[i].path@ == path {
            i
        } else {
            self.cache_index_from(path, i + 1)
        }
    }

    /// Whether a sub-patch is kept under `path`.
    pub open spec fn is_cached(&self, path: Seq<char>) -> bool {
        self.cache_index_from(path, 0) < self.cache.len()
    }

    /// The sub-patch kept under `path`.
    pub open spec fn cached(&self, path: Seq<char>) -> LoadedModule {
        self.cache[self.cache_index_from(path, 0)]
    }

    /// Whether `path` leads to one of the embedded sub-patches.
    pub open spec fn is_embedded(&self, path: Seq<char>) -> bool {
        starts_with(path, stdlib_prefix()) && self.resolver.embedded_stdlib.has(
            path.subrange(stdlib_prefix().len() as int, path.len() as int),
        )
    }

    /// The source text from which the sub-patch `path` is loaded: what is
    /// kept under the path, else the embedded sub-patch that it leads to.
    /// For any other path there is none.
    pub open spec fn source_of(&self, path: Seq<char>) -> Option<SourceText> {
        if self.is_cached(path) {
            Some(
                SourceText {
                    place: self.cached(path).file_path@,
                    content: self.cached(path).content@,
                },
            )
        } else {
            self.embedded_source(path)
        }
    }

    /// The source text of the embedded sub-patch that `path` leads to, if
    /// it leads to one.
    pub open spec fn embedded_source(&self, path: Seq<char>) -> Option<SourceText> {
        if self.is_embedded(path) {
            let stdlib = self.resolver.embedded_stdlib;
            let name = path.subrange(stdlib_prefix().len() as int, path.len() as int);
            Some(
                SourceText {
                    place: crate::module_resolver::embedded_place(path),
                    content: stdlib.modules[stdlib.index_of(name)].content@,
                },
            )
        } else {
            None
        }
    }

    /// The source text from which the sub-patch `path` is loaded once the
    /// texts `texts` are handed in: the last of them for the path, else
    /// what it was loaded from before.
    pub open spec fn source_with(&self, texts: Seq<ModuleText>, path: Seq<char>) -> Option<
        SourceText,
    > {
        match handed_in(texts, path, texts.len() as int) {
            Some(source) => Some(source),
            None => self.source_of(path),
        }
    }

    /// Whether the sub-patch `path` can be imported: it has a source text,
    /// and the patchbay that the text defines is in order.
    pub open spec fn can_import(&self, path: Seq<char>) -> bool {
        match self.source_of(path) {
            Some(source) => interface_in_order(patchbay_of(source.content)),
            None => false,
        }
    }

    /// The position of the first statement at or after `i` that imports a
    /// sub-patch which cannot be imported; the number of statements where
    /// there is none.
    pub open spec fn first_failing_import(&self, commands: Seq<CommandView>, i: int) -> int
        decreases commands.len() - i,
    {
        if i < 0 || i >= commands.len() {
            commands.len() as int
        } else {
            match commands[i] {
                CommandView::Import { import } => if self.can_import(import.path) {
                    self.first_failing_import(commands, i + 1)
                } else {
                    i
                },
                _ => self.first_failing_import(commands, i + 1),
            }
        }
    }

    /// A path that is kept is found at a place that holds it.
    proof fn lemma_found(&self, path: Seq<char>, from: int)
        requires
            0 <= from <= self.cache.len(),
        ensures
            from <= self.cache_index_from(path, from) <= self.cache.len(),
            self.cache_index_from(path, from) < self.cache.len() ==> self.cache[self.cache_index_from(
                path,
                from,
            )].path@ == path,
        decreases self.cache.len() - from,
    {
        if from < self.cache.len() && self.cache[from].path@ != path {
            self.lemma_found(path, from + 1);
        }
    }

    /// Finds the sub-patch kept under `path`.
    fn find_cached(&self, path: &str) -> (r: Option<usize>)
        ensures
            match r {
                Some(i) => self.is_cached(path@) && i == self.cache_index_from(path@, 0)
                    && self.cache[i as int].path@ == path@,
                None => !self.is_cached(path@) && self.cache_index_from(path@, 0)
                    == self.cache.len(),
            },
    {
        let wanted = chars_of(path);
        let mut i: usize = 0;
        while i < self.cache.len()
            invariant
                i <= self.cache.len(),
                wanted@ == path@,
                self.cache_index_from(path@, 0) == self.cache_index_from(path@, i as int),
            decreases self.cache.len() - i,
        {
            if same(&chars_of(self.cache[i].path.as_str()), &wanted) {
                return Some(i);
            }
            i += 1;
        }
        None
    }

    /// The sub-patch kept under `path`, if one is.
    pub fn get_cached_module(&self, path: &str) -> (r: Option<&LoadedModule>)
        ensures
            match r {
                Some(m) => self.is_cached(path@) && *m == self.cached(path@),
                None => !self.is_cached(path@),
            },
    {
        match self.find_cached(path) {
            Some(i) => Some(&self.cache[i]),
            None => None,
        }
    }

    /// Forgets what was loaded.
    pub fn clear_cache(&mut self)
        ensures
            final(self).wf(),
            final(self).cache@.len() == 0,
            final(self).resolver == old(self).resolver,
    {
        self.cache = Vec::new();
    }

    /// Whether a sub-patch `path` is kept or can be found: among the
    /// embedded sub-patches for a path that leads there, else among the
    /// files on disk.
    pub fn module_exists(&self, path: &str) -> (r: bool)
        ensures
            self.is_cached(path@) ==> r,
            starts_with(path@, stdlib_prefix()) ==> r == (self.is_cached(path@)
                || self.resolver.embedded_stdlib.has(
                path@.subrange(stdlib_prefix().len() as int, path@.len() as int),
            )),
    {
        self.find_cached(path).is_some() || self.resolver.module_exists(path)
    }

    /// The resolver of the loader.
    pub fn resolver(&self) -> (r: &ModuleResolver)
        ensures
            *r == self.resolver,
    {
        &self.resolver
    }

    /// The patchbay that the first patchbay statement among `commands` defines.
    pub fn extract_patchbay(commands: &Vec<Command>) -> (r: Option<PatchbayDef>)
        ensures
            patchbay_view(r) == first_patchbay(command_views(commands@), 0),
    {
        let mut i: usize = 0;
        let ghost views = command_views(commands@);
        while i < commands.len()
            invariant
                i <= commands.len(),
                views == command_views(commands@),
                first_patchbay(views, 0) == first_patchbay(views, i as int),
            decreases commands.len() - i,
        {
            assert(views[i as int] == commands[i as int]@);
            match &commands[i] {
                Command::DefinePatchbay { patchbay } => {
                    return Some(patchbay.clone());
                },
                _ => {},
            }
            i += 1;
        }
        None
    }

    /// Takes in the source text of the sub-patch `path`, found at
    /// `file_path`: reads its statements, finds its patchbay, and keeps it
    /// under `path` in place of what was kept there.
    pub fn install(&mut self, path: &str, file_path: String, content: String) -> (r:
        LoadedModule)
        requires
            old(self).wf(),
        ensures
            final(self).wf(),
            final(self).resolver == old(self).resolver,
            final(self).is_cached(path@),
            final(self).cached(path@).same_as(&r),
            r.wf(),
            r.path@ == path@,
            r.file_path@ == file_path@,
            r.content@ == content@,
            forall|other: Seq<char>|
                other != path@ ==> final(self).is_cached(other) == old(self).is_cached(other),
            forall|other: Seq<char>|
                other != path@ && old(self).is_cached(other) ==> #[trigger] final(self).cached(other)
                    == old(self).cached(other),
            final(self).source_of(path@) == Some(
                SourceText { place: file_path@, content: content@ },
            ),
            forall|other: Seq<char>|
                other != path@ ==> #[trigger] final(self).source_of(other) == old(self).source_of(
                    other,
                ),
    {
        let commands = parse_source(content.as_str());
        let patchbay = Self::extract_patchbay(&commands);
        let loaded = LoadedModule {
            path: String::from_str(path),
            file_path,
            content,
            patchbay,
            commands,
        };
        let copy = loaded.clone();
        match self.find_cached(path) {
            Some(i) => {
                self.cache.set(i, loaded);
                proof {
                    assert forall|k: int| 0 <= k < self.cache.len() implies (
                    #[trigger] self.cache[k]).wf() by {
                        if k != i {
                            assert(self.cache[k] == old(self).cache[k]);
                        }
                    }
                    assert forall|other: Seq<char>, from: int|
                        0 <= from <= self.cache.len() implies #[trigger] self.cache_index_from(
                        other,
                        from,
                    ) == old(self).cache_index_from(other, from) by {
                        Self::lemma_same_paths(*self, *old(self), other, from);
                    }
                    assert forall|other: Seq<char>|
                        other != path@ && old(self).is_cached(other) implies #[trigger] self.cached(
                        other,
                    ) == old(self).cached(other) by {
                        old(self).lemma_found(other, 0);
                        assert(self.cache_index_from(other, 0) == old(self).cache_index_from(
                            other,
                            0,
                        ));
                    }
                }
            },
            None => {
                self.cache.push(loaded);
                proof {
                    assert forall|k: int| 0 <= k < self.cache.len() implies (
                    #[trigger] self.cache[k]).wf() by {
                        if k < old(self).cache.len() {
                            assert(self.cache[k] == old(self).cache[k]);
                        }
                    }
                    self.lemma_pushed(*old(self), path@, 0);
                    assert forall|other: Seq<char>| other != path@ implies self.is_cached(other)
                        == old(self).is_cached(other) by {
                        self.lemma_pushed_other(*old(self), other, 0);
                    }
                    assert forall|other: Seq<char>|
                        other != path@ && old(self).is_cached(other) implies #[trigger] self.cached(
                        other,
                    ) == old(self).cached(other) by {
                        self.lemma_pushed_other(*old(self), other, 0);
                        old(self).lemma_found(other, 0);
                    }
                }
            },
        }
        proof {
            assert forall|other: Seq<char>| other != path@ implies #[trigger] self.source_of(other)
                == old(self).source_of(other) by {
                if old(self).is_cached(other) {
                    assert(self.cached(other) == old(self).cached(other));
                }
            }
        }
        copy
    }

    /// Takes in the source texts `texts`, one after another.
    pub fn install_all(&mut self, texts: &Vec<ModuleText>)
        requires
            old(self).wf(),
        ensures
            final(self).wf(),
            final(self).resolver == old(self).resolver,
            forall|path: Seq<char>| #[trigger]
                final(self).source_of(path) == old(self).source_with(texts@, path),
    {
        let mut i: usize = 0;
        while i < texts.len()
            invariant
                i <= texts.len(),
                self.wf(),
                self.resolver == old(self).resolver,
                forall|path: Seq<char>| #[trigger]
                    self.source_of(path) == match handed_in(texts@, path, i as int) {
                        Some(source) => Some(source),
                        None => old(self).source_of(path),
                    },
            decreases texts.len() - i,
        {
            let ghost before = *self;
            let kept = self.install(
                texts[i].path.as_str(),
                texts[i].file_path.clone(),
                texts[i].content.clone(),
            );
            proof {
                assert forall|path: Seq<char>| #[trigger]
                    self.source_of(path) == match handed_in(texts@, path, i + 1) {
                        Some(source) => Some(source),
                        None => old(self).source_of(path),
                    } by {
                    if path != texts[i as int].path@ {
                        assert(self.source_of(path) == before.source_of(path));
                    }
                }
            }
            i += 1;
        }
    }

    /// Loaders that keep sub-patches under the same paths find a path at
    /// the same place.
    proof fn lemma_same_paths(a: Self, b: Self, path: Seq<char>, from: int)
        requires
            a.cache.len() == b.cache.len(),
            forall|i: int| 0 <= i < a.cache.len() ==> a.cache[i].path@ == b.cache[i].path@,
        ensures
            a.cache_index_from(path, from) == b.cache_index_from(path, from),
        decreases a.cache.len() - from,
    {
        if 0 <= from < a.cache.len() && a.cache[from].path@ != path {
            Self::lemma_same_paths(a, b, path, from + 1);
        }
    }

    /// A sub-patch that is kept behind all others under a new path is found
    /// there.
    proof fn lemma_pushed(&self, before: Self, path: Seq<char>, from: int)
        requires
            0 <= from <= before.cache.len(),
            self.cache.len() == before.cache.len() + 1,
            forall|i: int| 0 <= i < before.cache.len() ==> self.cache[i] == before.cache[i],
            self.cache[before.cache.len() as int].path@ == path,
            before.cache_index_from(path, from) == before.cache.len(),
        ensures
            self.cache_index_from(path, from) == before.cache.len(),
        decreases before.cache.len() - from,
    {
        if from < before.cache.len() {
            self.lemma_pushed(before, path, from + 1);
        }
    }

    /// A sub-patch that is kept behind all others changes nothing for
    /// other paths.
    proof fn lemma_pushed_other(&self, before: Self, other: Seq<char>, from: int)
        requires
            0 <= from <= before.cache.len(),
            self.cache.len() == before.cache.len() + 1,
            forall|i: int| 0 <= i < before.cache.len() ==> self.cache[i] == before.cache[i],
            self.cache[before.cache.len() as int].path@ != other,
        ensures
            self.cache_index_from(other, from) < self.cache.len() <==> before.cache_index_from(
                other,
                from,
            ) < before.cache.len(),
            self.cache_index_from(other, from) < self.cache.len() ==> self.cache_index_from(
                other,
                from,
            ) == before.cache_index_from(other, from),
        decreases before.cache.len() - from,
    {
        if from < before.cache.len() {
            assert(self.cache[from] == before.cache[from]);
            if before.cache[from].path@ != other {
                self.lemma_pushed_other(before, other, from + 1);
            }
        } else {
            assert(self.cache_index_from(other, from + 1) == self.cache.len());
        }
    }

    /// Loads the sub-patch `path`: from what is kept, or from the embedded
    /// sub-patches. A sub-patch that is kept in a file whose text was not
    /// handed in yet is asked for by the error `FileNeeded`.
    pub fn load_module(&mut self, path: &str) -> (r: Result<LoadedModule, LoadError>)
        requires
            old(self).wf(),
        ensures
            final(self).wf(),
            final(self).resolver == old(self).resolver,
            old(self).is_cached(path@) ==> r is Ok && r->Ok_0.same_as(&old(self).cached(path@))
                && final(self).cache == old(self).cache,
            forall|other: Seq<char>| old(self).is_cached(other) ==> final(self).is_cached(other),
            r is Ok ==> r->Ok_0.same_as(&final(self).cached(path@)),
            match r {
                Ok(m) => m.wf() && m.path@ == path@ && final(self).is_cached(path@)
                    && (old(self).is_cached(path@) || {
                    let name = path@.subrange(stdlib_prefix().len() as int, path@.len() as int);
                    let stdlib = old(self).resolver.embedded_stdlib;
                    &&& starts_with(path@, stdlib_prefix())
                    &&& stdlib.has(name)
                    &&& m.content@ == stdlib.modules[stdlib.index_of(name)].content@
                    &&& m.file_path@ == crate::module_resolver::embedded_place(path@)
                }),
                Err(LoadError::NotEmbedded { unknown }) => starts_with(path@, stdlib_prefix())
                    && final(self).cache == old(self).cache,
                Err(_) => !starts_with(path@, stdlib_prefix()) && final(self).cache == old(self).cache,
            },
            r is Ok <==> old(self).source_of(path@) is Some,
            r is Ok ==> old(self).source_of(path@) == Some(
                SourceText { place: r->Ok_0.file_path@, content: r->Ok_0.content@ },
            ),
            forall|other: Seq<char>| #[trigger]
                final(self).source_of(other) == old(self).source_of(other),
    {
        match self.find_cached(path) {
            Some(i) => {
                assert(self.cache[i as int].wf());
                return Ok(self.cache[i].clone());
            },
            None => {},
        }
        let file_path = match self.resolver.resolve_module(path) {
            Ok(p) => p,
            Err(missing) => {
                return Err(LoadError::NotFound { missing });
            },
        };
        match EmbeddedStdlib::extract_module_name(path) {
            Some(name) => {
                let content = match self.resolver.embedded_stdlib.get_module(name) {
                    Ok(text) => String::from_str(text),
                    Err(unknown) => {
                        return Err(LoadError::NotEmbedded { unknown });
                    },
                };
                let loaded = self.install(path, file_path, content);
                proof {
                    assert forall|other: Seq<char>| #[trigger]
                        self.source_of(other) == old(self).source_of(other) by {
                        if other != path@ && old(self).is_cached(other) {
                            assert(self.cached(other) == old(self).cached(other));
                        }
                    }
                }
                Ok(loaded)
            },
            None => Err(LoadError::FileNeeded { file_path }),
        }
    }

    /// Whether the patchbay of a loaded sub-patch is in order: it is there,
    /// has a port, and no two of its ports have one number or one name.
    pub fn validate_module_interface(&self, loaded: &LoadedModule) -> (r: Result<
        (),
        InterfaceError,
    >)
        ensures
            r is Ok <==> interface_in_order(patchbay_view(loaded.patchbay)),
            r is Err ==> r->Err_0.describes(patchbay_view(loaded.patchbay)) && r->Err_0.subject()
                == loaded.path@,
            match r {
                Ok(_) => {
                    &&& loaded.patchbay is Some
                    &&& loaded.patchbay->0.ports.len() > 0
                    &&& first_repeated_number(loaded.patchbay->0@, 0) == loaded.patchbay->0@.len()
                    &&& first_repeated_name(loaded.patchbay->0@, 0) == loaded.patchbay->0@.len()
                },
                Err(InterfaceError::NoPatchbay { path }) => loaded.patchbay is None && path@
                    == loaded.path@,
                Err(InterfaceError::EmptyPatchbay { path }) => loaded.patchbay is Some
                    && loaded.patchbay->0.ports.len() == 0 && path@ == loaded.path@,
                Err(InterfaceError::DuplicatePortNumber { path, number }) => {
                    let ports = loaded.patchbay->0@;
                    &&& loaded.patchbay is Some
                    &&& first_repeated_number(ports, 0) < ports.len()
                    &&& number == ports[first_repeated_number(ports, 0)].port_number
                    &&& path@ == loaded.path@
                },
                Err(InterfaceError::DuplicatePortName { path, name }) => {
                    let ports = loaded.patchbay->0@;
                    &&& loaded.patchbay is Some
                    &&& ports.len() > 0
                    &&& first_repeated_number(ports, 0) == ports.len()
                    &&& first_repeated_name(ports, 0) < ports.len()
                    &&& name@ == ports[first_repeated_name(ports, 0)].name
                    &&& path@ == loaded.path@
                },
            },
    {
        let patchbay = match &loaded.patchbay {
            Some(p) => p,
            None => {
                return Err(InterfaceError::NoPatchbay { path: loaded.path.clone() });
            },
        };
        if patchbay.ports.len() == 0 {
            return Err(InterfaceError::EmptyPatchbay { path: loaded.path.clone() });
        }
        let ghost ports = patchbay@;
        assert(ports.len() == patchbay.ports.len());
        let mut j: usize = 0;
        while j < patchbay.ports.len()
            invariant
                j <= patchbay.ports.len(),
                ports == port_views(patchbay.ports@),
                loaded.patchbay == Some(*patchbay),
                first_repeated_number(ports, 0) == first_repeated_number(ports, j as int),
            decreases patchbay.ports.len() - j,
        {
            let mut i: usize = 0;
            while i < j
                invariant
                    i <= j < patchbay.ports.len(),
                    ports == port_views(patchbay.ports@),
                    loaded.patchbay == Some(*patchbay),
                    first_repeated_number(ports, 0) == first_repeated_number(ports, j as int),
                    forall|k: int| 0 <= k < i ==> ports[k].port_number != ports[j as int].port_number,
                decreases j - i,
            {
                assert(ports[i as int] == patchbay.ports[i as int]@);
                assert(ports[j as int] == patchbay.ports[j as int]@);
                if patchbay.ports[i].port_number == patchbay.ports[j].port_number {
                    assert(repeats_number(ports, j as int));
                    assert(first_repeated_number(ports, j as int) == j);
                    assert(loaded.patchbay->0@ == ports);
                    assert(ports[j as int].port_number == patchbay.ports[j as int].port_number);
                    return Err(
                        InterfaceError::DuplicatePortNumber {
                            path: loaded.path.clone(),
                            number: patchbay.ports[j].port_number,
                        },
                    );
                }
                i += 1;
            }
            assert(!repeats_number(ports, j as int));
            j += 1;
        }
        let mut j: usize = 0;
        while j < patchbay.ports.len()
            invariant
                j <= patchbay.ports.len(),
                ports == port_views(patchbay.ports@),
                loaded.patchbay == Some(*patchbay),
                first_repeated_number(ports, 0) == ports.len(),
                first_repeated_name(ports, 0) == first_repeated_name(ports, j as int),
            decreases patchbay.ports.len() - j,
        {
            assert(ports[j as int] == patchbay.ports[j as int]@);
            let name = chars_of(patchbay.ports[j].name.as_str());
            let mut i: usize = 0;
            while i < j
                invariant
                    i <= j < patchbay.ports.len(),
                    ports == port_views(patchbay.ports@),
                    loaded.patchbay == Some(*patchbay),
                    name@ == ports[j as int].name,
                    first_repeated_number(ports, 0) == ports.len(),
                    first_repeated_name(ports, 0) == first_repeated_name(ports, j as int),
                    forall|k: int| 0 <= k < i ==> ports[k].name != ports[j as int].name,
                decreases j - i,
            {
                assert(ports[i as int] == patchbay.ports[i as int]@);
                if same(&chars_of(patchbay.ports[i].name.as_str()), &name) {
                    assert(repeats_name(ports, j as int));
                    assert(first_repeated_name(ports, j as int) == j);
                    assert(loaded.patchbay->0@ == ports);
                    return Err(
                        InterfaceError::DuplicatePortName {
                            path: loaded.path.clone(),
                            name: patchbay.ports[j].name.clone(),
                        },
                    );
                }
                i += 1;
            }
            assert(!repeats_name(ports, j as int));
            j += 1;
        }
        Ok(())
    }

    /// Loads the sub-patch of every import among `commands`, in order, and
    /// tests its patchbay. The first sub-patch that is not loaded or whose
    /// patchbay is not in order ends the work, and the error is the one of
    /// that sub-patch. What was loaded until then is kept.
    pub fn process_imports(&mut self, commands: &Vec<Command>) -> (r: Result<
        Vec<LoadedModule>,
        ImportError,
    >)
        requires
            old(self).wf(),
        ensures
            final(self).wf(),
            final(self).resolver == old(self).resolver,
            r is Ok <==> old(self).first_failing_import(command_views(commands@), 0)
                == commands.len(),
            r is Ok ==> r->Ok_0.len() == import_count(command_views(commands@), commands.len() as int)
                && loaded_paths(r->Ok_0@) == import_paths(
                command_views(commands@),
                commands.len() as int,
            ) && forall|i: int|
                0 <= i < r->Ok_0.len() ==> (#[trigger] r->Ok_0[i]).wf() && final(self).is_cached(
                    r->Ok_0[i].path@,
                ) && old(self).source_of(r->Ok_0[i].path@) == Some(
                    SourceText { place: r->Ok_0[i].file_path@, content: r->Ok_0[i].content@ },
                ),
            r is Err ==> ({
                let at = old(self).first_failing_import(command_views(commands@), 0);
                let path = commands[at]@->import.path;
                &&& 0 <= at < commands.len()
                &&& commands[at] is Import
                &&& match r->Err_0 {
                    ImportError::Load { failure } => old(self).source_of(path) is None && ((
                    failure is NotEmbedded) <==> starts_with(path, stdlib_prefix())),
                    ImportError::Interface { fault } => old(self).source_of(path) is Some
                        && fault.subject() == path && fault.describes(
                        patchbay_of(old(self).source_of(path)->0.content),
                    ),
                }
            }),
            forall|other: Seq<char>| old(self).is_cached(other) ==> final(self).is_cached(other),
            forall|other: Seq<char>| #[trigger]
                final(self).source_of(other) == old(self).source_of(other),
    {
        let mut loaded: Vec<LoadedModule> = Vec::new();
        let ghost views = command_views(commands@);
        let mut i: usize = 0;
        while i < commands.len()
            invariant
                i <= commands.len(),
                self.wf(),
                self.resolver == old(self).resolver,
                views == command_views(commands@),
                views.len() == commands.len(),
                loaded.len() == import_count(views, i as int),
                loaded_paths(loaded@) == import_paths(views, i as int),
                old(self).first_failing_import(views, 0) == old(self).first_failing_import(
                    views,
                    i as int,
                ),
                forall|other: Seq<char>| old(self).is_cached(other) ==> self.is_cached(other),
                forall|other: Seq<char>| #[trigger]
                    self.source_of(other) == old(self).source_of(other),
                forall|k: int|
                    0 <= k < loaded.len() ==> (#[trigger] loaded[k]).wf() && self.is_cached(
                        loaded[k].path@,
                    ) && old(self).source_of(loaded[k].path@) == Some(
                        SourceText { place: loaded[k].file_path@, content: loaded[k].content@ },
                    ),
            decreases commands.len() - i,
        {
            assert(views[i as int] == commands[i as int]@);
            match &commands[i] {
                Command::Import { import } => {
                    let ghost path = import.path@;
                    assert(self.source_of(path) == old(self).source_of(path));
                    let module = match self.load_module(import.path.as_str()) {
                        Ok(m) => m,
                        Err(failure) => {
                            assert(!old(self).can_import(path));
                            return Err(ImportError::Load { failure });
                        },
                    };
                    assert(patchbay_view(module.patchbay) == patchbay_of(module.content@));
                    match self.validate_module_interface(&module) {
                        Ok(_) => {},
                        Err(fault) => {
                            assert(!old(self).can_import(path));
                            return Err(ImportError::Interface { fault });
                        },
                    }
                    assert(old(self).can_import(path));
                    let ghost before = loaded_paths(loaded@);
                    loaded.push(module);
                    assert(loaded_paths(loaded@) =~= before.push(import.path@));
                },
                _ => {},
            }
            i += 1;
        }
        Ok(loaded)
    }
}

/// The paths of the imports among the first `n` statements, in order.
pub open spec fn import_paths(commands: Seq<CommandView>, n: int) -> Seq<Seq<char>>
    decreases n,
{
    if n <= 0 || n > commands.len() {
        Seq::empty()
    } else {
        match commands[n - 1] {
            CommandView::Import { import } => import_paths(commands, n - 1).push(import.path),
            _ => import_paths(commands, n - 1),
        }
    }
}

/// The paths of a list of loaded sub-patches.
pub open spec fn loaded_paths(loaded: Seq<LoadedModule>) -> Seq<Seq<char>> {
    Seq::new(loaded.len(), |i: int| loaded[i].path@)
}

/// The number of imports among the first `n` statements.
pub open spec fn import_count(commands: Seq<CommandView>, n: int) -> nat
    decreases n,
{
    if n <= 0 || n > commands.len() {
        0
    } else if commands[n - 1] is Import {
        import_count(commands, n - 1) + 1
    } else {
        import_count(commands, n - 1)
    }
}

impl Default for ModuleLoader {
    fn default() -> (r: Self)
        ensures
            r.wf(),
            r.cache@.len() == 0,
            r.resolver.search_paths.current_file_dir is None,
            r.resolver.embedded_stdlib.is_the_library(),
    {
        Self::new()
    }
}

} // verus!
