//! The list of the sub-patches that can be imported.

use vstd::prelude::*;
use vstd::string::StringExecFns;
use crate::embedded_stdlib::{char_before, text_less};
use crate::graph::strings;
use crate::module_resolver::ModuleResolver;
use crate::text::{chars_of, same, slice, string_from};

verus! {

/// Whether the names stand in ascending order, which leaves none twice.
pub open spec fn ascending(names: Seq<Seq<char>>) -> bool {
    forall|i: int, j: int| 0 <= i < j < names.len() ==> text_less(names[i], names[j])
}

/// Of two different characters one comes before the other.
pub proof fn lemma_char_total(x: char, y: char)
    ensures
        x == y || char_before(x, y) || char_before(y, x),
{
}

/// Tests whether a character comes before another.
pub fn char_comes_before(x: char, y: char) -> (r: bool)
    ensures
        r == char_before(x, y),
{
    x < y
}

/// No text comes before itself.
pub proof fn lemma_less_irreflexive(a: Seq<char>)
    ensures
        !text_less(a, a),
    decreases a.len(),
{
    if a.len() > 0 {
        lemma_less_irreflexive(a.subrange(1, a.len() as int));
    }
}

/// Of two different texts one comes before the other.
pub proof fn lemma_less_total(a: Seq<char>, b: Seq<char>)
    ensures
        a == b || text_less(a, b) || text_less(b, a),
    decreases a.len(),
{
    if a.len() > 0 && b.len() > 0 && a[0] == b[0] {
        let ra = a.subrange(1, a.len() as int);
        let rb = b.subrange(1, b.len() as int);
        lemma_less_total(ra, rb);
        if ra == rb {
            assert(a =~= b) by {
                assert forall|i: int| 0 <= i < a.len() implies a[i] == b[i] by {
                    if i > 0 {
                        assert(a[i] == ra[i - 1]);
                        assert(b[i] == rb[i - 1]);
                    }
                }
                assert(a.len() == ra.len() + 1);
                assert(b.len() == rb.len() + 1);
            }
        }
    } else if a.len() == 0 && b.len() == 0 {
        assert(a =~= b);
    } else if a.len() > 0 && b.len() > 0 {
        lemma_char_total(a[0], b[0]);
    }
}

/// What comes before a text comes before what the text comes before.
pub proof fn lemma_less_transitive(a: Seq<char>, b: Seq<char>, c: Seq<char>)
    requires
        text_less(a, b),
        text_less(b, c),
    ensures
        text_less(a, c),
    decreases a.len(),
{
    if a.len() > 0 && b.len() > 0 && c.len() > 0 && a[0] == b[0] && b[0] == c[0] {
        lemma_less_transitive(
            a.subrange(1, a.len() as int),
            b.subrange(1, b.len() as int),
            c.subrange(1, c.len() as int),
        );
    }
}

/// Tests whether a text comes before another.
pub fn comes_before(a: &Vec<char>, b: &Vec<char>) -> (r: bool)
    ensures
        r == text_less(a@, b@),
{
    let mut i: usize = 0;
    assert(a@.subrange(0, a.len() as int) =~= a@);
    assert(b@.subrange(0, b.len() as int) =~= b@);
    while i < a.len() && i < b.len()
        invariant
            i <= a.len(),
            i <= b.len(),
            text_less(a@, b@) == text_less(
                a@.subrange(i as int, a.len() as int),
                b@.subrange(i as int, b.len() as int),
            ),
        decreases a.len() - i,
    {
        let ghost ra = a@.subrange(i as int, a.len() as int);
        let ghost rb = b@.subrange(i as int, b.len() as int);
        assert(ra[0] == a@[i as int]);
        assert(rb[0] == b@[i as int]);
        if a[i] != b[i] {
            return char_comes_before(a[i], b[i]);
        }
        assert(ra.subrange(1, ra.len() as int) =~= a@.subrange(i + 1, a.len() as int));
        assert(rb.subrange(1, rb.len() as int) =~= b@.subrange(i + 1, b.len() as int));
        i += 1;
    }
    i < b.len()
}

/// Puts a name into a list in ascending order, unless it is there.
pub fn insert_ascending(names: &mut Vec<String>, name: String)
    requires
        ascending(strings(old(names)@)),
    ensures
        ascending(strings(final(names)@)),
        forall|n: Seq<char>|
            strings(final(names)@).contains(n) <==> strings(old(names)@).contains(n) || n == name@,
{
    let wanted = chars_of(name.as_str());
    let ghost before = strings(names@);
    let mut p: usize = 0;
    while p < names.len() && comes_before(&chars_of(names[p].as_str()), &wanted)
        invariant
            p <= names.len(),
            wanted@ == name@,
            before == strings(names@),
            forall|k: int| 0 <= k < p ==> text_less(before[k], name@),
        decreases names.len() - p,
    {
        assert(before[p as int] == names[p as int]@);
        p += 1;
    }
    if p < names.len() {
        assert(before[p as int] == names[p as int]@);
        if same(&chars_of(names[p].as_str()), &wanted) {
            proof {
                assert forall|n: Seq<char>| before.contains(n) <==> before.contains(n) || n
                    == name@ by {}
            }
            return ;
        }
        proof {
            lemma_less_total(before[p as int], name@);
        }
    }
    names.insert(p, name);
    proof {
        let after = strings(names@);
        assert(after.len() == before.len() + 1);
        assert forall|k: int| 0 <= k < after.len() implies after[k] == if k < p {
            before[k]
        } else if k == p {
            name@
        } else {
            before[k - 1]
        } by {}
        assert forall|i: int, j: int| 0 <= i < j < after.len() implies text_less(
            after[i],
            after[j],
        ) by {
            if j < p {
                assert(text_less(before[i], before[j]));
            } else if j == p {
                assert(text_less(before[i], name@));
            } else if i < p {
                assert(text_less(before[i], before[j - 1]));
            } else if i == p {
                assert(text_less(name@, before[p as int]));
                if j - 1 > p {
                    assert(text_less(before[p as int], before[j - 1]));
                    lemma_less_transitive(name@, before[p as int], before[j - 1]);
                }
            } else {
                assert(text_less(before[i - 1], before[j - 1]));
            }
        }
        assert forall|n: Seq<char>| after.contains(n) <==> before.contains(n) || n == name@ by {
            if after.contains(n) {
                let k = choose|k: int| 0 <= k < after.len() && after[k] == n;
                if k < p {
                    assert(before[k] == n);
                } else if k > p {
                    assert(before[k - 1] == n);
                }
            }
            if before.contains(n) {
                let k = choose|k: int| 0 <= k < before.len() && before[k] == n;
                if k < p {
                    assert(after[k] == n);
                } else {
                    assert(after[k + 1] == n);
                }
            }
            if n == name@ {
                assert(after[p as int] == n);
            }
        }
    }
}

/// The name of the sub-patch that a file holds: what stands before `.zim`
/// in the name of the file, if something does.
pub open spec fn stem_of(file: Seq<char>) -> Option<Seq<char>> {
    if file.len() > 4 && file.subrange(file.len() - 4, file.len() as int) == ".zim"@ {
        Some(file.subrange(0, file.len() - 4))
    } else {
        None
    }
}

/// The name of the sub-patch that a file holds.
pub fn module_stem(file_name: &str) -> (r: Option<String>)
    ensures
        match r {
            Some(stem) => stem_of(file_name@) == Some(stem@),
            None => stem_of(file_name@) is None,
        },
{
    let v = chars_of(file_name);
    if v.len() > 4 && same(&slice(&v, v.len() - 4, v.len()), &chars_of(".zim")) {
        Some(string_from(&slice(&v, 0, v.len() - 4)))
    } else {
        None
    }
}

impl ModuleResolver {
    /// Whether `name` names a sub-patch that can be imported: an embedded
    /// one, with `stdlib:` before its name, or one that a file holds.
    pub open spec fn is_available(&self, files: Seq<Seq<char>>, name: Seq<char>) -> bool {
        (exists|i: int|
            0 <= i < self.embedded_stdlib.modules.len() && name == "stdlib:"@
                + self.embedded_stdlib.modules[i].name@) || (exists|j: int|
            0 <= j < files.len() && stem_of(files[j]) == Some(name))
    }

    /// The sub-patches that can be imported, in ascending order and each
    /// once: the embedded ones and those that the files named `file_names`,
    /// found in the search directories, hold.
    pub fn list_available_modules(&self, file_names: &Vec<String>) -> (r: Vec<String>)
        ensures
            ascending(strings(r@)),
            forall|n: Seq<char>|
                strings(r@).contains(n) <==> self.is_available(strings(file_names@), n),
    {
        let ghost files = strings(file_names@);
        let mut names: Vec<String> = Vec::new();
        let mut i: usize = 0;
        while i < self.embedded_stdlib.modules.len()
            invariant
                i <= self.embedded_stdlib.modules.len(),
                ascending(strings(names@)),
                forall|n: Seq<char>|
                    strings(names@).contains(n) <==> exists|k: int|
                        0 <= k < i && n == "stdlib:"@ + self.embedded_stdlib.modules[k].name@,
            decreases self.embedded_stdlib.modules.len() - i,
        {
            let ghost before = strings(names@);
            let name = String::from_str("stdlib:").concat(
                self.embedded_stdlib.modules[i].name.as_str(),
            );
            insert_ascending(&mut names, name);
            proof {
                assert forall|n: Seq<char>| strings(names@).contains(n) <==> exists|k: int|
                    0 <= k < i + 1 && n == "stdlib:"@ + self.embedded_stdlib.modules[k].name@ by {
                    if before.contains(n) {
                        let k = choose|k: int|
                            0 <= k < i && n == "stdlib:"@ + self.embedded_stdlib.modules[k].name@;
                        assert(0 <= k < i + 1);
                    }
                    if exists|k: int|
                        0 <= k < i + 1 && n == "stdlib:"@ + self.embedded_stdlib.modules[k].name@ {
                        let k = choose|k: int|
                            0 <= k < i + 1 && n == "stdlib:"@
                                + self.embedded_stdlib.modules[k].name@;
                        if k < i {
                            assert(before.contains(n));
                        }
                    }
                }
            }
            i += 1;
        }
        let mut j: usize = 0;
        while j < file_names.len()
            invariant
                j <= file_names.len(),
                files == strings(file_names@),
                ascending(strings(names@)),
                forall|n: Seq<char>|
                    strings(names@).contains(n) <==> (exists|k: int|
                        0 <= k < self.embedded_stdlib.modules.len() && n == "stdlib:"@
                            + self.embedded_stdlib.modules[k].name@) || (exists|k: int|
                        0 <= k < j && stem_of(files[k]) == Some(n)),
            decreases file_names.len() - j,
        {
            let ghost before = strings(names@);
            assert(files[j as int] == file_names[j as int]@);
            match module_stem(file_names[j].as_str()) {
                Some(stem) => {
                    insert_ascending(&mut names, stem);
                },
                None => {},
            }
            proof {
                assert forall|n: Seq<char>| strings(names@).contains(n) <==> (exists|k: int|
                    0 <= k < self.embedded_stdlib.modules.len() && n == "stdlib:"@
                        + self.embedded_stdlib.modules[k].name@) || (exists|k: int|
                    0 <= k < j + 1 && stem_of(files[k]) == Some(n)) by {
                    if exists|k: int| 0 <= k < j && stem_of(files[k]) == Some(n) {
                        let k = choose|k: int| 0 <= k < j && stem_of(files[k]) == Some(n);
                        assert(0 <= k < j + 1);
                    }
                    if exists|k: int| 0 <= k < j + 1 && stem_of(files[k]) == Some(n) {
                        let k = choose|k: int| 0 <= k < j + 1 && stem_of(files[k]) == Some(n);
                        if k < j {
                        }
                    }
                }
            }
            j += 1;
        }
        names
    }
}

impl crate::module_loader::ModuleLoader {
    /// The sub-patches that can be imported, in ascending order and each
    /// once, given the names of the files found in the search directories.
    pub fn list_available_modules(&self, file_names: &Vec<String>) -> (r: Vec<String>)
        ensures
            ascending(strings(r@)),
            forall|n: Seq<char>|
                strings(r@).contains(n) <==> self.resolver.is_available(strings(file_names@), n),
    {
        self.resolver.list_available_modules(file_names)
    }
}

} // verus!
