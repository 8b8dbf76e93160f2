//! Writing statements out as lines, and the law that ties it to reading:
//! a declaration or a parameter assignment that is written out and read
//! again is the statement it was.

use vstd::prelude::*;
use vstd::string::StringExecFns;
use crate::modules::{lemma_name_reads_back, module_type_of, reveal_type_names, ModuleType};
use crate::number::{
    digits_end, is_decimal, is_digit, is_number, is_sign, is_word, lemma_number_not_empty, unsigned,
};
use crate::parser::{
    arrow_statement, declaration_of, is_blank, is_waveform, number_texts, numbers_from, params_of,
    parse_line_spec, strip_comment, Command, CommandView, ModuleTypeRef, ModuleTypeRefView,
    ParseErrorView,
};
use crate::reading::lemma_digits_before_end;
use crate::text::{
    find_from, is_space, occurs_at, split_whitespace, starts_with, trim, trim_end, trim_start,
};

verus! {

/// The parameters of a declaration as they are written out: each behind a blank.
pub open spec fn joined_params(params: Seq<Seq<char>>) -> Seq<char>
    decreases params.len(),
{
    if params.len() == 0 {
        Seq::empty()
    } else {
        joined_params(params.drop_last()) + " "@ + params.last()
    }
}

/// The type of a declaration as it is written out.
pub open spec fn type_text(t: ModuleTypeRefView) -> Seq<char> {
    match t {
        ModuleTypeRefView::BuiltIn(b) => b.spec_name(),
        ModuleTypeRefView::Imported(n) => n,
    }
}

/// The line that a statement is written out as.
pub open spec fn line_of(c: CommandView) -> Seq<char> {
    match c {
        CommandView::CreateModule { name, module_type, params } => name + ": "@ + type_text(
            module_type,
        ) + joined_params(params),
        CommandView::Connect { from, to } => to + " <- "@ + from,
        CommandView::SetParam { module, param, value } => module + "."@ + param + " <- "@ + value,
        CommandView::DefinePatchbay { .. } => "patchbay:"@,
        CommandView::Import { import } => match import.alias {
            Some(a) => "import "@ + import.path + " as "@ + a,
            None => "import "@ + import.path,
        },
    }
}

impl Command {
    /// Writes the statement out as a line of the patch language.
    pub fn to_line(&self) -> (r: String)
        ensures
            r@ == line_of(self@),
    {
        match self {
            Command::CreateModule { name, module_type, params } => {
                let mut line = name.clone().concat(": ");
                line = match module_type {
                    ModuleTypeRef::BuiltIn(t) => line.concat(t.name()),
                    ModuleTypeRef::Imported(n) => line.concat(n.as_str()),
                };
                let ghost head = line@;
                let ghost texts = number_texts(params@);
                let mut i: usize = 0;
                assert(texts.subrange(0, 0) =~= Seq::<Seq<char>>::empty());
                assert(head + Seq::<char>::empty() =~= head);
                while i < params.len()
                    invariant
                        i <= params.len(),
                        texts == number_texts(params@),
                        line@ == head + joined_params(texts.subrange(0, i as int)),
                    decreases params.len() - i,
                {
                    let ghost before = texts.subrange(0, i as int);
                    let ghost now = texts.subrange(0, i + 1);
                    assert(now.drop_last() =~= before);
                    assert(now.last() == params[i as int]@);
                    line = line.concat(" ").concat(params[i].as_str());
                    assert(head + joined_params(before) + " "@ + params[i as int]@ =~= head + (
                    joined_params(before) + " "@ + params[i as int]@));
                    i += 1;
                }
                assert(texts.subrange(0, params.len() as int) =~= texts);
                line
            },
            Command::Connect { from, to } => to.clone().concat(" <- ").concat(from.as_str()),
            Command::SetParam { module, param, value } => module.clone().concat(".").concat(
                param.as_str(),
            ).concat(" <- ").concat(value.as_str()),
            Command::DefinePatchbay { .. } => String::from_str("patchbay:"),
            Command::Import { import } => match &import.alias {
                Some(a) => String::from_str("import ").concat(import.path.as_str()).concat(
                    " as ",
                ).concat(a.as_str()),
                None => String::from_str("import ").concat(import.path.as_str()),
            },
        }
    }
}

/// A character that a name may hold.
pub open spec fn is_name_char(c: char) -> bool {
    !is_space(c) && c != '#' && c != ':' && c != '<' && c != '.'
}

/// A name: one character at least, none of them white space, `#`, `:`, `<`
/// or a point.
pub open spec fn is_name(s: Seq<char>) -> bool {
    s.len() > 0 && forall|i: int| 0 <= i < s.len() ==> is_name_char(#[trigger] s[i])
}

/// A character that a number may hold.
pub open spec fn is_number_char(c: char) -> bool {
    is_digit(c) || c == '+' || c == '-' || c == '.' || c == 'e' || c == 'E' || c == 'i' || c == 'I'
        || c == 'n' || c == 'N' || c == 'f' || c == 'F' || c == 't' || c == 'T' || c == 'y' || c
        == 'Y' || c == 'a' || c == 'A'
}

/// A number holds the characters of numbers only.
pub proof fn lemma_number_chars(s: Seq<char>)
    requires
        is_number(s),
    ensures
        s.len() > 0,
        forall|i: int| 0 <= i < s.len() ==> is_number_char(#[trigger] s[i]),
{
    lemma_number_not_empty(s);
    let b = unsigned(s);
    let shift = s.len() - b.len();
    assert forall|i: int| 0 <= i < b.len() implies is_number_char(#[trigger] b[i]) by {
        let inf = seq!['i', 'n', 'f'];
        let inf_up = seq!['I', 'N', 'F'];
        let infinity = seq!['i', 'n', 'f', 'i', 'n', 'i', 't', 'y'];
        let infinity_up = seq!['I', 'N', 'F', 'I', 'N', 'I', 'T', 'Y'];
        let nan = seq!['n', 'a', 'n'];
        let nan_up = seq!['N', 'A', 'N'];
        if is_word(b, inf, inf_up) {
            assert(b[i] == inf[i] || b[i] == inf_up[i]);
        } else if is_word(b, infinity, infinity_up) {
            assert(b[i] == infinity[i] || b[i] == infinity_up[i]);
        } else if is_word(b, nan, nan_up) {
            assert(b[i] == nan[i] || b[i] == nan_up[i]);
        } else {
            assert(is_decimal(b));
            lemma_digits_before_end(b, 0);
            let we = digits_end(b, 0);
            let point = we < b.len() && b[we] == '.';
            if point {
                lemma_digits_before_end(b, we + 1);
            }
            let me = if point {
                digits_end(b, we + 1)
            } else {
                we
            };
            if me < b.len() {
                let es = if me + 1 < b.len() && is_sign(b[me + 1]) {
                    me + 2
                } else {
                    me + 1
                };
                lemma_digits_before_end(b, es);
            }
        }
    }
    assert forall|i: int| 0 <= i < s.len() implies is_number_char(#[trigger] s[i]) by {
        if shift == 1 {
            if i > 0 {
                assert(s[i] == b[i - 1]);
            }
        } else {
            assert(s[i] == b[i]);
        }
    }
}

/// A text that neither begins nor ends with white space is trimmed.
pub proof fn lemma_trim_plain(s: Seq<char>)
    requires
        s.len() == 0 || (!is_space(s[0]) && !is_space(s.last())),
    ensures
        trim(s) == s,
{
}

/// A pattern is found at the first place where it stands.
pub proof fn lemma_find_first(s: Seq<char>, pat: Seq<char>, p: int, from: int)
    requires
        0 <= from <= p,
        occurs_at(s, pat, p),
        forall|k: int| from <= k < p ==> !occurs_at(s, pat, k),
    ensures
        find_from(s, pat, from) == Some(p),
    decreases p - from,
{
    if from < p {
        lemma_find_first(s, pat, p, from + 1);
    }
}

/// A pattern that stands nowhere is not found.
pub proof fn lemma_find_none(s: Seq<char>, pat: Seq<char>, from: int)
    requires
        0 <= from,
        forall|k: int| from <= k ==> !occurs_at(s, pat, k),
    ensures
        find_from(s, pat, from) is None,
    decreases s.len() - from,
{
    if from + pat.len() <= s.len() && from < s.len() {
        lemma_find_none(s, pat, from + 1);
    }
}

/// A pattern does not stand where the text differs from it.
pub proof fn lemma_differs(s: Seq<char>, pat: Seq<char>, k: int, j: int)
    requires
        0 <= j < pat.len(),
        0 <= k,
        k + j >= s.len() || s[k + j] != pat[j],
    ensures
        !occurs_at(s, pat, k),
{
    if occurs_at(s, pat, k) {
        assert(s.subrange(k, k + pat.len())[j] == s[k + j]);
    }
}

/// A word behind a blank is a word of its own.
pub proof fn lemma_words_push(x: Seq<char>, w: Seq<char>, k: int)
    requires
        1 <= k <= w.len(),
        forall|i: int| 0 <= i < w.len() ==> !is_space(#[trigger] w[i]),
    ensures
        split_whitespace(x + seq![' '] + w.subrange(0, k)) == split_whitespace(x).push(
            w.subrange(0, k),
        ),
    decreases k,
{
    let y = x + seq![' '] + w.subrange(0, k);
    let init = y.drop_last();
    assert(y.last() == w[k - 1]);
    if k == 1 {
        assert(init =~= x + seq![' ']);
        assert(init.last() == ' ');
        assert(init.drop_last() =~= x);
        assert(split_whitespace(init) == split_whitespace(x));
        assert(w.subrange(0, 1) =~= seq![w[0]]);
    } else {
        assert(init =~= x + seq![' '] + w.subrange(0, k - 1));
        lemma_words_push(x, w, k - 1);
        assert(init.last() == w[k - 2]);
        let words = split_whitespace(init);
        assert(words.drop_last() =~= split_whitespace(x));
        assert(words.last().push(w[k - 1]) =~= w.subrange(0, k));
    }
}

/// The words of a type and its parameters, each behind a blank, are the
/// type and the parameters.
pub proof fn lemma_words_of_rest(t: Seq<char>, params: Seq<Seq<char>>)
    requires
        " "@ == seq![' '],
        t.len() > 0,
        forall|i: int| 0 <= i < t.len() ==> !is_space(#[trigger] t[i]),
        forall|k: int|
            0 <= k < params.len() ==> (#[trigger] params[k]).len() > 0 && forall|i: int|
                0 <= i < params[k].len() ==> !is_space(#[trigger] params[k][i]),
    ensures
        split_whitespace(" "@ + t + joined_params(params)) == seq![t] + params,
    decreases params.len(),
{
    if params.len() == 0 {
        assert(" "@ + t + joined_params(params) =~= Seq::<char>::empty() + seq![' '] + t.subrange(
            0,
            t.len() as int,
        ));
        lemma_words_push(Seq::empty(), t, t.len() as int);
        assert(t.subrange(0, t.len() as int) =~= t);
        assert(split_whitespace(Seq::<char>::empty()).push(t) =~= seq![t] + params);
    } else {
        let init = params.drop_last();
        let last = params.last();
        assert forall|k: int| 0 <= k < init.len() implies (#[trigger] init[k]).len() > 0
            && forall|i: int| 0 <= i < init[k].len() ==> !is_space(#[trigger] init[k][i]) by {
            assert(init[k] == params[k]);
        }
        lemma_words_of_rest(t, init);
        let x = " "@ + t + joined_params(init);
        assert(" "@ + t + joined_params(params) =~= x + seq![' '] + last.subrange(
            0,
            last.len() as int,
        ));
        lemma_words_push(x, last, last.len() as int);
        assert(last.subrange(0, last.len() as int) =~= last);
        assert((seq![t] + init).push(last) =~= seq![t] + params);
    }
}

/// Words that are all numbers are all kept as numbers.
pub proof fn lemma_all_numbers(parts: Seq<Seq<char>>, i: int)
    requires
        0 <= i <= parts.len(),
        forall|k: int| i <= k < parts.len() ==> is_number(#[trigger] parts[k]),
    ensures
        numbers_from(parts, i) == parts.subrange(i, parts.len() as int),
    decreases parts.len() - i,
{
    if i < parts.len() {
        lemma_all_numbers(parts, i + 1);
        assert(seq![parts[i]] + parts.subrange(i + 1, parts.len() as int) =~= parts.subrange(
            i,
            parts.len() as int,
        ));
    } else {
        assert(parts.subrange(i, parts.len() as int) =~= Seq::<Seq<char>>::empty());
    }
}

/// A number is no waveform keyword.
pub proof fn lemma_number_is_no_waveform(s: Seq<char>)
    requires
        is_number(s),
    ensures
        !is_waveform(s),
{
    reveal_strlit("sine");
    reveal_strlit("saw");
    reveal_strlit("square");
    reveal_strlit("tri");
    reveal_strlit("triangle");
    lemma_number_chars(s);
    if is_waveform(s) {
        assert(is_number_char(s[0]));
        if s == "tri"@ || s == "triangle"@ {
            assert(is_number_char(s[1]));
            assert(s[1] == 'r');
        } else {
            assert(s[0] == 's');
        }
    }
}

/// The characters of the written type of a declaration.
pub open spec fn type_is_written(t: ModuleTypeRefView) -> bool {
    match t {
        ModuleTypeRefView::BuiltIn(b) => true,
        ModuleTypeRefView::Imported(n) => is_name(n) && module_type_of(n) is None,
    }
}

/// The names of the module types are names.
pub proof fn lemma_type_names_are_names(t: ModuleType)
    ensures
        is_name(t.spec_name()),
{
    reveal_type_names();
    let s = t.spec_name();
    assert forall|i: int| 0 <= i < s.len() implies is_name_char(#[trigger] s[i]) by {}
}

/// A declaration that is written out and read again is the declaration it
/// was, for a name that is a name, a type that is built in or whose name
/// is a name and stands for no built-in type, and parameters that are
/// numbers.
pub proof fn lemma_declaration_round_trip(
    name: Seq<char>,
    module_type: ModuleTypeRefView,
    params: Seq<Seq<char>>,
)
    requires
        is_name(name),
        type_is_written(module_type),
        forall|k: int| 0 <= k < params.len() ==> is_number(#[trigger] params[k]),
    ensures
        parse_line_spec(line_of(CommandView::CreateModule { name, module_type, params })) == Ok::<
            CommandView,
            ParseErrorView,
        >(CommandView::CreateModule { name, module_type, params }),
{
    reveal_strlit(": ");
    reveal_strlit(" ");
    reveal_strlit(":");
    reveal_strlit(" #");
    reveal_strlit("import ");
    reveal_strlit("patchbay:");
    assert(" "@ =~= seq![' ']);
    let t = type_text(module_type);
    match module_type {
        ModuleTypeRefView::BuiltIn(b) => {
            lemma_type_names_are_names(b);
            lemma_name_reads_back(b);
        },
        ModuleTypeRefView::Imported(n) => {},
    }
    assert(is_name(t));
    let tail = joined_params(params);
    let line = name + ": "@ + t + tail;
    assert forall|k: int| 0 <= k < params.len() implies (#[trigger] params[k]).len() > 0
        && forall|i: int|
        0 <= i < params[k].len() ==> !is_space(#[trigger] params[k][i]) && params[k][i] != '#'
            && params[k][i] != ':' by {
        lemma_number_chars(params[k]);
        assert forall|i: int| 0 <= i < params[k].len() implies !is_space(
            #[trigger] params[k][i],
        ) && params[k][i] != '#' && params[k][i] != ':' by {
            assert(is_number_char(params[k][i]));
        }
    }
    lemma_tail_chars(params);
    // The characters of the line.
    let n = name.len() as int;
    assert(line.len() == n + 2 + t.len() + tail.len());
    assert forall|i: int| 0 <= i < line.len() implies line[i] != '#' && (i != n ==> line[i]
        != ':') by {
        if i < n {
            assert(line[i] == name[i]);
        } else if i < n + 2 {
        } else if i < n + 2 + t.len() {
            assert(line[i] == t[i - n - 2]);
        } else {
            assert(line[i] == tail[i - n - 2 - t.len()]);
        }
    }
    assert(line[n] == ':');
    assert(line[n + 1] == ' ');
    assert(line[0] == name[0]);
    assert(!is_space(line.last()) && line.last() != ':') by {
        if tail.len() > 0 {
            assert(line.last() == tail.last());
        } else {
            assert(line.last() == t.last());
        }
    }
    // The line is stripped as it is.
    lemma_trim_plain(line);
    assert forall|k: int| 0 <= k implies !occurs_at(line, " #"@, k) by {
        lemma_differs(line, " #"@, k, 1);
    }
    lemma_find_none(line, " #"@, 0);
    assert(strip_comment(line) == line);
    assert(!is_blank(line));
    // It is neither an import nor a patchbay header.
    assert(!starts_with(line, "import "@)) by {
        if starts_with(line, "import "@) {
            let head = line.subrange(0, 7);
            assert(head[6] == line[6]);
            assert(head[0] == line[0]);
            assert(head[1] == line[1]);
            assert(head[2] == line[2]);
            assert(head[3] == line[3]);
            assert(head[4] == line[4]);
            assert(head[5] == line[5]);
            if n > 6 {
                assert(line[6] == name[6]);
            } else {
                assert(line[n] == ':');
            }
        }
    }
    assert(line != "patchbay:"@) by {
        assert("patchbay:"@.last() == ':');
    }
    // The colon behind the name is the first.
    assert(occurs_at(line, ":"@, n)) by {
        assert(line.subrange(n, n + 1) =~= ":"@);
    }
    assert forall|k: int| 0 <= k < n implies !occurs_at(line, ":"@, k) by {
        lemma_differs(line, ":"@, k, 0);
    }
    lemma_find_first(line, ":"@, n, 0);
    assert(line.subrange(0, n) =~= name);
    lemma_trim_plain(name);
    let rest = line.subrange(n + 1, line.len() as int);
    assert(rest =~= " "@ + t + tail);
    assert forall|k: int| 0 <= k < params.len() implies (#[trigger] params[k]).len() > 0
        && forall|i: int| 0 <= i < params[k].len() ==> !is_space(#[trigger] params[k][i]) by {}
    lemma_words_of_rest(t, params);
    let parts = seq![t] + params;
    assert(parts[0] == t);
    assert forall|k: int| 1 <= k < parts.len() implies is_number(#[trigger] parts[k]) by {
        assert(parts[k] == params[k - 1]);
    }
    lemma_all_numbers(parts, 1);
    assert(parts.subrange(1, parts.len() as int) =~= params);
    if parts.len() > 1 {
        lemma_number_is_no_waveform(parts[1]);
    }
    assert(params_of(module_type_of(t), parts) == params);
    assert(declaration_of(name, rest) == Ok::<CommandView, ParseErrorView>(
        CommandView::CreateModule { name, module_type, params },
    ));
}

/// The written parameters hold neither `#` nor `:`, and end with no blank.
pub proof fn lemma_tail_chars(params: Seq<Seq<char>>)
    requires
        " "@ == seq![' '],
        forall|k: int|
            0 <= k < params.len() ==> (#[trigger] params[k]).len() > 0 && forall|i: int|
                0 <= i < params[k].len() ==> !is_space(#[trigger] params[k][i]) && params[k][i]
                    != '#' && params[k][i] != ':',
    ensures
        forall|i: int|
            0 <= i < joined_params(params).len() ==> (#[trigger] joined_params(params)[i]) != '#'
                && joined_params(params)[i] != ':',
        params.len() > 0 ==> joined_params(params).len() > 0 && !is_space(
            joined_params(params).last(),
        ),
        params.len() == 0 ==> joined_params(params).len() == 0,
    decreases params.len(),
{
    if params.len() > 0 {
        let init = params.drop_last();
        let last = params.last();
        assert forall|k: int| 0 <= k < init.len() implies (#[trigger] init[k]).len() > 0
            && forall|i: int|
            0 <= i < init[k].len() ==> !is_space(#[trigger] init[k][i]) && init[k][i] != '#'
                && init[k][i] != ':' by {
            assert(init[k] == params[k]);
        }
        lemma_tail_chars(init);
        let head = joined_params(init);
        let all = joined_params(params);
        assert(all =~= head + seq![' '] + last);
        assert forall|i: int| 0 <= i < all.len() implies (#[trigger] all[i]) != '#' && all[i]
            != ':' by {
            if i < head.len() {
                assert(all[i] == head[i]);
            } else if i == head.len() {
            } else {
                assert(all[i] == last[i - head.len() - 1]);
            }
        }
        assert(all.last() == last.last());
    }
}

/// A parameter assignment that is written out and read again is the
/// assignment it was, for a module and a parameter that are names and a
/// value that is a number.
pub proof fn lemma_assignment_round_trip(module: Seq<char>, param: Seq<char>, value: Seq<char>)
    requires
        is_name(module),
        is_name(param),
        is_number(value),
    ensures
        parse_line_spec(line_of(CommandView::SetParam { module, param, value })) == Ok::<
            CommandView,
            ParseErrorView,
        >(CommandView::SetParam { module, param, value }),
{
    reveal_strlit(".");
    reveal_strlit(" <- ");
    reveal_strlit("<-");
    reveal_strlit(":");
    reveal_strlit(" #");
    reveal_strlit("import ");
    reveal_strlit("patchbay:");
    lemma_number_chars(value);
    let left = module + "."@ + param;
    let line = left + " <- "@ + value;
    let m = module.len() as int;
    let n = left.len() as int;
    assert(line.len() == n + 4 + value.len());
    assert forall|i: int| 0 <= i < line.len() implies line[i] != '#' && line[i] != ':' && (i
        != n + 1 ==> line[i] != '<') by {
        if i < m {
            assert(line[i] == module[i]);
        } else if i == m {
        } else if i < n {
            assert(line[i] == param[i - m - 1]);
        } else if i < n + 4 {
        } else {
            assert(line[i] == value[i - n - 4]);
            assert(is_number_char(value[i - n - 4]));
        }
    }
    assert(line[0] == module[0]);
    assert(line.last() == value.last());
    assert(is_number_char(value.last()));
    lemma_trim_plain(line);
    assert forall|k: int| 0 <= k implies !occurs_at(line, " #"@, k) by {
        lemma_differs(line, " #"@, k, 1);
    }
    lemma_find_none(line, " #"@, 0);
    assert(strip_comment(line) == line);
    assert(!is_blank(line));
    assert(!starts_with(line, "import "@)) by {
        if starts_with(line, "import "@) {
            let head = line.subrange(0, 7);
            assert(head[6] == line[6]);
            if m > 6 {
                assert(line[6] == module[6]);
            } else if m == 6 {
            } else if n > 6 {
                assert(line[6] == param[6 - m - 1]);
            } else {
                assert(head[0] == line[0]);
                assert(head[1] == line[1]);
                assert(head[2] == line[2]);
                assert(head[3] == line[3]);
                assert(head[4] == line[4]);
                assert(head[5] == line[5]);
                assert(line[m] == '.');
            }
        }
    }
    assert(line != "patchbay:"@) by {
        assert("patchbay:"@.last() == ':');
    }
    assert forall|k: int| 0 <= k implies !occurs_at(line, ":"@, k) by {
        lemma_differs(line, ":"@, k, 0);
    }
    lemma_find_none(line, ":"@, 0);
    assert(occurs_at(line, "<-"@, n + 1)) by {
        assert(line.subrange(n + 1, n + 3) =~= "<-"@);
    }
    assert forall|k: int| 0 <= k < n + 1 implies !occurs_at(line, "<-"@, k) by {
        lemma_differs(line, "<-"@, k, 0);
    }
    lemma_find_first(line, "<-"@, n + 1, 0);
    let before = line.subrange(0, n + 1);
    let behind = line.subrange(n + 3, line.len() as int);
    assert(before =~= left + seq![' ']);
    assert(trim_start(before) == before) by {
        assert(before[0] == module[0]);
    }
    assert(trim_end(before) == left) by {
        assert(before.last() == ' ');
        assert(before.subrange(0, before.len() - 1) =~= left);
        assert(left.last() == param[param.len() - 1]);
        assert(is_name_char(param[param.len() - 1]));
        assert(trim_end(left) == left);
    }
    assert(behind =~= seq![' '] + value);
    assert(trim_start(behind) == value) by {
        assert(behind[0] == ' ');
        assert(behind.subrange(1, behind.len() as int) =~= value);
        assert(is_number_char(value[0]));
        assert(trim_start(value) == value);
    }
    assert(trim_end(value) == value);
    assert(trim(before) == left);
    assert(trim(behind) == value);
    assert(occurs_at(left, "."@, m)) by {
        assert(left.subrange(m, m + 1) =~= "."@);
    }
    assert forall|k: int| 0 <= k < m implies !occurs_at(left, "."@, k) by {
        assert(left[k] == module[k]);
        lemma_differs(left, "."@, k, 0);
    }
    lemma_find_first(left, "."@, m, 0);
    assert(left.subrange(0, m) =~= module);
    assert(left.subrange(m + 1, left.len() as int) =~= param);
    assert(arrow_statement(left, value) == CommandView::SetParam { module, param, value });
}

/// A connection from an output to an input, each named as a module, a
/// point and a port, is the connection it was when it is written out and
/// read again, unless the source reads as a number.
pub proof fn lemma_connection_round_trip(
    to_module: Seq<char>,
    to_port: Seq<char>,
    from_module: Seq<char>,
    from_port: Seq<char>,
)
    requires
        is_name(to_module),
        is_name(to_port),
        is_name(from_module),
        is_name(from_port),
        !is_number(from_module + "."@ + from_port),
    ensures
        parse_line_spec(
            line_of(
                CommandView::Connect {
                    from: from_module + "."@ + from_port,
                    to: to_module + "."@ + to_port,
                },
            ),
        ) == Ok::<CommandView, ParseErrorView>(
            CommandView::Connect {
                from: from_module + "."@ + from_port,
                to: to_module + "."@ + to_port,
            },
        ),
{
    reveal_strlit(".");
    reveal_strlit(" <- ");
    reveal_strlit("<-");
    reveal_strlit(":");
    reveal_strlit(" #");
    reveal_strlit("import ");
    reveal_strlit("patchbay:");
    let left = to_module + "."@ + to_port;
    let right = from_module + "."@ + from_port;
    let line = left + " <- "@ + right;
    let m = to_module.len() as int;
    let n = left.len() as int;
    let f = from_module.len() as int;
    assert(line.len() == n + 4 + right.len());
    assert forall|i: int| 0 <= i < right.len() implies right[i] == '.' || is_name_char(
        #[trigger] right[i],
    ) by {
        if i < f {
            assert(right[i] == from_module[i]);
        } else if i > f {
            assert(right[i] == from_port[i - f - 1]);
        }
    }
    assert forall|i: int| 0 <= i < line.len() implies line[i] != '#' && line[i] != ':' && (i
        != n + 1 ==> line[i] != '<') by {
        if i < m {
            assert(line[i] == to_module[i]);
        } else if i == m {
        } else if i < n {
            assert(line[i] == to_port[i - m - 1]);
        } else if i < n + 4 {
        } else {
            assert(line[i] == right[i - n - 4]);
        }
    }
    assert(line[0] == to_module[0]);
    assert(line.last() == from_port[from_port.len() - 1]);
    assert(is_name_char(from_port[from_port.len() - 1]));
    lemma_trim_plain(line);
    assert forall|k: int| 0 <= k implies !occurs_at(line, " #"@, k) by {
        lemma_differs(line, " #"@, k, 1);
    }
    lemma_find_none(line, " #"@, 0);
    assert(strip_comment(line) == line);
    assert(!is_blank(line));
    assert(!starts_with(line, "import "@)) by {
        if starts_with(line, "import "@) {
            let head = line.subrange(0, 7);
            assert(head[6] == line[6]);
            if m > 6 {
                assert(line[6] == to_module[6]);
            } else if m == 6 {
            } else if n > 6 {
                assert(line[6] == to_port[6 - m - 1]);
            } else {
                assert(head[0] == line[0]);
                assert(head[1] == line[1]);
                assert(head[2] == line[2]);
                assert(head[3] == line[3]);
                assert(head[4] == line[4]);
                assert(head[5] == line[5]);
                assert(line[m] == '.');
            }
        }
    }
    assert(line != "patchbay:"@) by {
        assert("patchbay:"@.last() == ':');
    }
    assert forall|k: int| 0 <= k implies !occurs_at(line, ":"@, k) by {
        lemma_differs(line, ":"@, k, 0);
    }
    lemma_find_none(line, ":"@, 0);
    assert(occurs_at(line, "<-"@, n + 1)) by {
        assert(line.subrange(n + 1, n + 3) =~= "<-"@);
    }
    assert forall|k: int| 0 <= k < n + 1 implies !occurs_at(line, "<-"@, k) by {
        lemma_differs(line, "<-"@, k, 0);
    }
    lemma_find_first(line, "<-"@, n + 1, 0);
    let before = line.subrange(0, n + 1);
    let behind = line.subrange(n + 3, line.len() as int);
    assert(before =~= left + seq![' ']);
    assert(trim_start(before) == before) by {
        assert(before[0] == to_module[0]);
    }
    assert(trim_end(before) == left) by {
        assert(before.last() == ' ');
        assert(before.subrange(0, before.len() - 1) =~= left);
        assert(left.last() == to_port[to_port.len() - 1]);
        assert(is_name_char(to_port[to_port.len() - 1]));
        assert(trim_end(left) == left);
    }
    assert(behind =~= seq![' '] + right);
    assert(trim_start(behind) == right) by {
        assert(behind[0] == ' ');
        assert(behind.subrange(1, behind.len() as int) =~= right);
        assert(right[0] == from_module[0]);
        assert(is_name_char(from_module[0]));
        assert(trim_start(right) == right);
    }
    assert(trim_end(right) == right) by {
        assert(right.last() == from_port[from_port.len() - 1]);
    }
    assert(trim(before) == left);
    assert(trim(behind) == right);
    assert(arrow_statement(left, right) == CommandView::Connect { from: right, to: left });
}

} // verus!
