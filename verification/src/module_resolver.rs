//! Where sub-patches are looked for: beside the patch file, in the user's
//! modules directory, in the system's, and among the embedded ones.

use vstd::prelude::*;
use vstd::string::StringExecFns;
use crate::embedded_stdlib::{stdlib_prefix, EmbeddedStdlib};
use crate::text::{chars_of, find, find_in, slice, starts_with, string_from};

verus! {

/// The path that `std::path::Path::join` makes of a base and a part.
pub uninterp spec fn joined_path(base: Seq<char>, part: Seq<char>) -> Seq<char>;

/// The directory that `std::path::Path::parent` finds for a path.
pub uninterp spec fn parent_path(path: Seq<char>) -> Option<Seq<char>>;

/// `std::path::Path::join`: the path `part` adjoined to `base`, as text.
#[verifier::external_body]
fn join_path(base: &str, part: &str) -> (r: String)
    ensures
        r@ == joined_path(base@, part@),
{
    std::path::Path::new(base).join(part).to_string_lossy().into_owned()
}

/// `std::path::Path::parent`: the path without its last component, as text;
/// `None` where it has none.
#[verifier::external_body]
fn parent_of(path: &str) -> (r: Option<String>)
    ensures
        match r {
            Some(p) => parent_path(path@) == Some(p@),
            None => parent_path(path@) is None,
        },
{
    match std::path::Path::new(path).parent() {
        Some(p) => Some(p.to_string_lossy().into_owned()),
        None => None,
    }
}

/// `dirs::home_dir`: the home directory of the user, as text. It depends on
/// the environment, so nothing is claimed of it.
#[verifier::external_body]
fn home_dir() -> (r: Option<String>) {
    match dirs::home_dir() {
        Some(p) => Some(p.to_string_lossy().into_owned()),
        None => None,
    }
}

/// `std::path::Path::is_file`: whether a regular file stands at the path
/// now. It depends on what is on disk, so nothing is claimed of it.
#[verifier::external_body]
fn is_file(path: &str) -> (r: bool) {
    std::path::Path::new(path).is_file()
}

/// The directories in which sub-patches are looked for.
#[derive(Debug)]
pub struct ModuleSearchPaths {
    /// The directory of the patch file, for imports beside it.
    pub current_file_dir: Option<String>,
    /// The modules directory of the user.
    pub user_modules_dir: String,
    /// The modules directory of the system.
    pub system_modules_dir: String,
}

/// The modules directory of a user whose home directory is `home`.
pub open spec fn user_dir_in(home: Seq<char>) -> Seq<char> {
    joined_path(joined_path(joined_path(home, ".config"@), "zim-dsp"@), "modules"@)
}

impl ModuleSearchPaths {
    /// The search paths of a user with the given home directory, or without one.
    pub fn with_home(home: Option<String>) -> (r: Self)
        ensures
            r.current_file_dir is None,
            r.system_modules_dir@ == "/usr/local/share/zim-dsp/modules"@,
            match home {
                Some(h) => r.user_modules_dir@ == user_dir_in(h@),
                None => r.user_modules_dir@ == "./user_modules"@,
            },
    {
        let user_modules_dir = match home {
            Some(h) => {
                let config = join_path(h.as_str(), ".config");
                let ours = join_path(config.as_str(), "zim-dsp");
                join_path(ours.as_str(), "modules")
            },
            None => String::from_str("./user_modules"),
        };
        ModuleSearchPaths {
            current_file_dir: None,
            user_modules_dir,
            system_modules_dir: String::from_str("/usr/local/share/zim-dsp/modules"),
        }
    }

    /// The search paths for imports of the patch file `patch_file`: those of
    /// the user, with the directory of the patch file before them.
    pub fn from_patch_file(patch_file: &str) -> (r: Self)
        ensures
            r.system_modules_dir@ == "/usr/local/share/zim-dsp/modules"@,
            r.user_modules_dir@ == "./user_modules"@ || exists|home: Seq<char>|
                r.user_modules_dir@ == user_dir_in(home),
            match r.current_file_dir {
                Some(d) => parent_path(patch_file@) == Some(d@),
                None => parent_path(patch_file@) is None,
            },
    {
        let mut paths = Self::default();
        match parent_of(patch_file) {
            Some(p) => {
                paths.current_file_dir = Some(p);
            },
            None => {},
        }
        paths
    }

    /// The directories in the order in which they are searched.
    pub open spec fn dirs(&self) -> Seq<Seq<char>> {
        match self.current_file_dir {
            Some(d) => seq![d@, self.user_modules_dir@, self.system_modules_dir@],
            None => seq![self.user_modules_dir@, self.system_modules_dir@],
        }
    }

    /// The directories in the order in which they are searched: that of the
    /// patch file, the user's, the system's.
    pub fn search_dirs(&self) -> (r: Vec<String>)
        ensures
            r.len() == self.dirs().len(),
            forall|i: int| 0 <= i < r.len() ==> (#[trigger] r[i])@ == self.dirs()[i],
    {
        let mut dirs: Vec<String> = Vec::new();
        match &self.current_file_dir {
            Some(d) => {
                dirs.push(d.clone());
            },
            None => {},
        }
        dirs.push(self.user_modules_dir.clone());
        dirs.push(self.system_modules_dir.clone());
        dirs
    }
}

impl Default for ModuleSearchPaths {
    /// The search paths of the user, with no patch file.
    fn default() -> (r: Self)
        ensures
            r.current_file_dir is None,
            r.system_modules_dir@ == "/usr/local/share/zim-dsp/modules"@,
            r.user_modules_dir@ == "./user_modules"@ || exists|home: Seq<char>|
                r.user_modules_dir@ == user_dir_in(home),
    {
        ModuleSearchPaths::with_home(home_dir())
    }
}

/// No sub-patch was found for a path.
#[derive(Debug)]
pub struct ModuleNotFound {
    /// The path that was asked for.
    pub path: String,
    /// The directories that were searched.
    pub searched: Vec<String>,
}

/// The names in `names`, each in double quotes, with a comma and a blank between them.
pub open spec fn quoted_list(names: Seq<Seq<char>>) -> Seq<char>
    decreases names.len(),
{
    if names.len() == 0 {
        Seq::empty()
    } else if names.len() == 1 {
        "\""@ + names[0] + "\""@
    } else {
        quoted_list(names.drop_last()) + ", "@ + "\""@ + names.last() + "\""@
    }
}

/// Writes names in double quotes, with a comma and a blank between them.
pub fn quote_list(names: &Vec<String>) -> (r: String)
    ensures
        r@ == quoted_list(crate::graph::strings(names@)),
{
    let ghost all = crate::graph::strings(names@);
    let mut text = String::new();
    let mut i: usize = 0;
    assert(all.subrange(0, 0) =~= Seq::<Seq<char>>::empty());
    while i < names.len()
        invariant
            i <= names.len(),
            all == crate::graph::strings(names@),
            text@ == quoted_list(all.subrange(0, i as int)),
        decreases names.len() - i,
    {
        let ghost before = all.subrange(0, i as int);
        let ghost now = all.subrange(0, i + 1);
        assert(now.drop_last() =~= before);
        assert(now.last() == names[i as int]@);
        if i > 0 {
            text = text.concat(", ");
        } else {
            assert(text@ + "\""@ =~= "\""@);
        }
        text = text.concat("\"").concat(names[i].as_str()).concat("\"");
        i += 1;
    }
    assert(all.subrange(0, names.len() as int) =~= all);
    text
}

impl ModuleNotFound {
    /// The text of the error.
    pub open spec fn text(&self) -> Seq<char> {
        "Module '"@ + self.path@ + "' not found in search paths: ["@ + quoted_list(
            crate::graph::strings(self.searched@),
        ) + "]"@
    }

    /// The text shown to the user.
    pub fn message(&self) -> (r: String)
        ensures
            r@ == self.text(),
    {
        String::from_str("Module '").concat(self.path.as_str()).concat(
            "' not found in search paths: [",
        ).concat(quote_list(&self.searched).as_str()).concat("]")
    }
}

/// Where the source text of a sub-patch is to be had.
#[derive(Debug)]
pub enum ModuleSource {
    /// The sub-patch is embedded: this is its source text.
    Embedded(String),
    /// The sub-patch is kept in this file.
    File(String),
}

/// Why the source of a sub-patch was not found.
#[derive(Debug)]
pub enum SourceError {
    /// No file was found for the path.
    NotFound { missing: ModuleNotFound },
    /// The path leads into the embedded sub-patches, and none has that name.
    NotEmbedded { unknown: crate::embedded_stdlib::NotEmbedded },
}

/// Finds sub-patches by their path.
pub struct ModuleResolver {
    pub search_paths: ModuleSearchPaths,
    pub embedded_stdlib: EmbeddedStdlib,
}

/// The file, relative to a search directory, in which the sub-patch `path`
/// is kept: `name.zim` for `name`, and `name.zim` inside the directory
/// `package` for `package:name`.
pub open spec fn file_path_of(path: Seq<char>) -> Seq<char> {
    match find(path, ":"@) {
        Some(c) => joined_path(
            path.subrange(0, c),
            path.subrange(c + ":"@.len(), path.len() as int) + ".zim"@,
        ),
        None => path + ".zim"@,
    }
}

/// The place that stands for an embedded sub-patch, which has no file.
pub open spec fn embedded_place(path: Seq<char>) -> Seq<char> {
    "<embedded>/"@ + path
}

/// The first candidate that was found to be a file.
pub open spec fn first_found(found: Seq<bool>, i: int) -> Option<int>
    decreases found.len() - i,
{
    if i < 0 || i >= found.len() {
        None
    } else if found[i] {
        Some(i)
    } else {
        first_found(found, i + 1)
    }
}

/// Picks the first candidate that was found to be a file.
pub fn pick_first(found: &Vec<bool>) -> (r: Option<usize>)
    ensures
        match r {
            Some(k) => first_found(found@, 0) == Some(k as int) && k < found.len(),
            None => first_found(found@, 0) is None,
        },
{
    let mut i: usize = 0;
    while i < found.len()
        invariant
            i <= found.len(),
            first_found(found@, 0) == first_found(found@, i as int),
        decreases found.len() - i,
    {
        if found[i] {
            return Some(i);
        }
        i += 1;
    }
    None
}

impl ModuleResolver {
    /// A resolver with the search paths of the user.
    pub fn new() -> (r: Self)
        ensures
            r.search_paths.current_file_dir is None,
            r.search_paths.system_modules_dir@ == "/usr/local/share/zim-dsp/modules"@,
            r.search_paths.user_modules_dir@ == "./user_modules"@ || exists|home: Seq<char>|
                r.search_paths.user_modules_dir@ == user_dir_in(home),
            r.embedded_stdlib.wf(),
            r.embedded_stdlib.is_the_library(),
            r.embedded_stdlib.has("uncertainty"@),
    {
        ModuleResolver {
            search_paths: ModuleSearchPaths::default(),
            embedded_stdlib: EmbeddedStdlib::new(),
        }
    }

    /// Whether the resolver is as it is made for the imports of the patch
    /// file `patch_file`: it looks in the directory of the patch file first,
    /// then in the modules directories of the user and of the system, and
    /// it has the embedded sub-patches.
    pub open spec fn is_for_patch_file(&self, patch_file: Seq<char>) -> bool {
        &&& self.search_paths.system_modules_dir@ == "/usr/local/share/zim-dsp/modules"@
        &&& self.search_paths.user_modules_dir@ == "./user_modules"@ || exists|home: Seq<char>|
            self.search_paths.user_modules_dir@ == user_dir_in(home)
        &&& match self.search_paths.current_file_dir {
            Some(d) => parent_path(patch_file) == Some(d@),
            None => parent_path(patch_file) is None,
        }
        &&& self.embedded_stdlib.wf()
        &&& self.embedded_stdlib.is_the_library()
        &&& self.embedded_stdlib.has("uncertainty"@)
    }

    /// A resolver for the imports of the patch file `patch_file`.
    pub fn from_patch_file(patch_file: &str) -> (r: Self)
        ensures
            r.is_for_patch_file(patch_file@),
            r.search_paths.system_modules_dir@ == "/usr/local/share/zim-dsp/modules"@,
            r.search_paths.user_modules_dir@ == "./user_modules"@ || exists|home: Seq<char>|
                r.search_paths.user_modules_dir@ == user_dir_in(home),
            match r.search_paths.current_file_dir {
                Some(d) => parent_path(patch_file@) == Some(d@),
                None => parent_path(patch_file@) is None,
            },
            r.embedded_stdlib.wf(),
            r.embedded_stdlib.is_the_library(),
            r.embedded_stdlib.has("uncertainty"@),
    {
        ModuleResolver {
            search_paths: ModuleSearchPaths::from_patch_file(patch_file),
            embedded_stdlib: EmbeddedStdlib::new(),
        }
    }

    /// The file, relative to a search directory, of the sub-patch `path`.
    pub fn module_path_to_file_path(&self, path: &str) -> (r: String)
        ensures
            r@ == file_path_of(path@),
    {
        let v = chars_of(path);
        let colon = chars_of(":");
        let suffix = chars_of(".zim");
        match find_in(&v, &colon) {
            Some(c) => {
                let package = string_from(&slice(&v, 0, c));
                let mut file = slice(&v, c + colon.len(), v.len());
                crate::text::append(&mut file, &suffix);
                join_path(package.as_str(), string_from(&file).as_str())
            },
            None => {
                let mut file = v;
                crate::text::append(&mut file, &suffix);
                string_from(&file)
            },
        }
    }

    /// The files at which the sub-patch `path` is looked for, in order.
    pub open spec fn candidates(&self, path: Seq<char>) -> Seq<Seq<char>> {
        Seq::new(
            self.search_paths.dirs().len(),
            |i: int| joined_path(self.search_paths.dirs()[i], file_path_of(path)),
        )
    }

    /// The files at which the sub-patch `path` is looked for, in order.
    pub fn candidate_files(&self, path: &str) -> (r: Vec<String>)
        ensures
            r.len() == self.candidates(path@).len(),
            forall|i: int| 0 <= i < r.len() ==> (#[trigger] r[i])@ == self.candidates(path@)[i],
    {
        let file = self.module_path_to_file_path(path);
        let dirs = self.search_paths.search_dirs();
        let mut r: Vec<String> = Vec::new();
        let mut i: usize = 0;
        while i < dirs.len()
            invariant
                i <= dirs.len(),
                r.len() == i,
                dirs.len() == self.search_paths.dirs().len(),
                file@ == file_path_of(path@),
                forall|k: int|
                    0 <= k < dirs.len() ==> (#[trigger] dirs[k])@ == self.search_paths.dirs()[k],
                forall|k: int| 0 <= k < i ==> (#[trigger] r[k])@ == self.candidates(path@)[k],
            decreases dirs.len() - i,
        {
            r.push(join_path(dirs[i].as_str(), file.as_str()));
            i += 1;
        }
        r
    }

    /// The place of the sub-patch `path`, given for each candidate file
    /// whether it was found: for an embedded sub-patch a place that names it,
    /// else the first candidate that was found.
    pub fn resolve_among(&self, path: &str, found: &Vec<bool>) -> (r: Result<
        String,
        ModuleNotFound,
    >)
        requires
            found.len() == self.search_paths.dirs().len(),
        ensures
            match r {
                Ok(p) => if starts_with(path@, stdlib_prefix()) {
                    p@ == embedded_place(path@)
                } else {
                    first_found(found@, 0) is Some && 0 <= first_found(found@, 0)->0
                        < found.len() && p@ == self.candidates(path@)[first_found(found@, 0)->0]
                },
                Err(e) => !starts_with(path@, stdlib_prefix()) && first_found(found@, 0) is None
                    && e.path@ == path@,
            },
    {
        if EmbeddedStdlib::is_stdlib_path(path) {
            return Ok(String::from_str("<embedded>/").concat(path));
        }
        let candidates = self.candidate_files(path);
        match pick_first(found) {
            Some(k) => Ok(candidates[k].clone()),
            None => Err(
                ModuleNotFound {
                    path: String::from_str(path),
                    searched: self.search_paths.search_dirs(),
                },
            ),
        }
    }

    /// Looks at each candidate file of the sub-patch `path` on disk.
    pub fn probe(&self, path: &str) -> (r: Vec<bool>)
        ensures
            r.len() == self.search_paths.dirs().len(),
    {
        let candidates = self.candidate_files(path);
        let mut found: Vec<bool> = Vec::new();
        let mut i: usize = 0;
        while i < candidates.len()
            invariant
                i <= candidates.len(),
                found.len() == i,
            decreases candidates.len() - i,
        {
            found.push(is_file(candidates[i].as_str()));
            i += 1;
        }
        found
    }

    /// The place of the sub-patch `path`: for an embedded sub-patch a place
    /// that names it, else the first of its candidate files that exists.
    pub fn resolve_module(&self, path: &str) -> (r: Result<String, ModuleNotFound>)
        ensures
            match r {
                Ok(p) => if starts_with(path@, stdlib_prefix()) {
                    p@ == embedded_place(path@)
                } else {
                    exists|k: int|
                        0 <= k < self.candidates(path@).len() && p@ == self.candidates(path@)[k]
                },
                Err(e) => !starts_with(path@, stdlib_prefix()) && e.path@ == path@,
            },
    {
        let found = self.probe(path);
        self.resolve_among(path, &found)
    }

    /// Where the source text of the sub-patch `path` is to be had: for a
    /// path into the embedded sub-patches the text itself, else the first
    /// of its candidate files that exists.
    pub fn load_module(&self, path: &str) -> (r: Result<ModuleSource, SourceError>)
        ensures
            match r {
                Ok(ModuleSource::Embedded(text)) => {
                    let name = path@.subrange(stdlib_prefix().len() as int, path@.len() as int);
                    &&& starts_with(path@, stdlib_prefix())
                    &&& self.embedded_stdlib.has(name)
                    &&& text@ == self.embedded_stdlib.modules[self.embedded_stdlib.index_of(
                        name,
                    )].content@
                },
                Ok(ModuleSource::File(file)) => !starts_with(path@, stdlib_prefix()) && exists|
                    k: int,
                |
                    0 <= k < self.candidates(path@).len() && file@ == self.candidates(path@)[k],
                Err(SourceError::NotEmbedded { unknown }) => starts_with(path@, stdlib_prefix())
                    && !self.embedded_stdlib.has(
                    path@.subrange(stdlib_prefix().len() as int, path@.len() as int),
                ),
                Err(SourceError::NotFound { missing }) => !starts_with(path@, stdlib_prefix())
                    && missing.path@ == path@,
            },
    {
        match EmbeddedStdlib::extract_module_name(path) {
            Some(name) => match self.embedded_stdlib.get_module(name) {
                Ok(text) => Ok(ModuleSource::Embedded(String::from_str(text))),
                Err(unknown) => Err(SourceError::NotEmbedded { unknown }),
            },
            None => match self.resolve_module(path) {
                Ok(file) => Ok(ModuleSource::File(file)),
                Err(missing) => Err(SourceError::NotFound { missing }),
            },
        }
    }

    /// Whether there is a sub-patch `path`: an embedded one of that name, or
    /// a file among its candidates.
    pub fn module_exists(&self, path: &str) -> (r: bool)
        ensures
            starts_with(path@, stdlib_prefix()) ==> r == self.embedded_stdlib.has(
                path@.subrange(stdlib_prefix().len() as int, path@.len() as int),
            ),
    {
        match EmbeddedStdlib::extract_module_name(path) {
            Some(name) => self.embedded_stdlib.has_module(name),
            None => self.resolve_module(path).is_ok(),
        }
    }
}

impl Default for ModuleResolver {
    fn default() -> (r: Self)
        ensures
            r.search_paths.current_file_dir is None,
            r.embedded_stdlib.wf(),
            r.embedded_stdlib.is_the_library(),
    {
        Self::new()
    }
}

} // verus!
