//! Source expressions as text: reading them, and renaming the modules that
//! they mention.

use vstd::prelude::*;
use vstd::string::StringExecFns;
use crate::graph::{ConnectionExpr, ExprView};
use crate::number::{is_number, number, Number};
use crate::text::{
    append, chars_of, lemma_trim_len, rfind, rfind_in, slice, split_in_two, split_pair,
    string_from, trim, trimmed,
};

verus! {

/// The two sides of the last operator `op` in `t`, where one side is a
/// number: the other side first, then the number. The right side is taken
/// for the number where it is one.
pub open spec fn operand_split(t: Seq<char>, op: Seq<char>) -> Option<(Seq<char>, Seq<char>)> {
    match rfind(t, op) {
        Some(p) => {
            let left = t.subrange(0, p);
            let right = t.subrange(p + op.len(), t.len() as int);
            if is_number(right) {
                Some((left, right))
            } else if is_number(left) {
                Some((right, left))
            } else {
                None
            }
        },
        None => None,
    }
}

/// The expression that a text stands for, if it stands for one.
///
/// The last ` + ` with a number on one side makes an offset of what the
/// other side stands for; failing that, the last ` * ` with a number on one
/// side makes a scaling; failing that, a text with exactly one point names
/// the output of a module.
pub open spec fn expr_of(s: Seq<char>) -> Option<ExprView>
    decreases s.len(),
{
    let t = trim(s);
    match operand_split(t, " + "@) {
        Some((inner, amount)) => if inner.len() < s.len() {
            match expr_of(inner) {
                Some(e) => Some(ExprView::Offset { expr: Box::new(e), offset: amount }),
                None => None,
            }
        } else {
            None
        },
        None => match operand_split(t, " * "@) {
            Some((inner, amount)) => if inner.len() < s.len() {
                match expr_of(inner) {
                    Some(e) => Some(ExprView::Scaled { expr: Box::new(e), factor: amount }),
                    None => None,
                }
            } else {
                None
            },
            None => match split_pair(t, "."@) {
                Some((module, port)) => Some(ExprView::Direct { module: module, port: port }),
                None => None,
            },
        },
    }
}

/// Splits `t` at its last operator `op`, where one side is a number.
fn split_operand(t: &Vec<char>, op: &str) -> (r: Option<(Vec<char>, Number)>)
    ensures
        match r {
            Some(pair) => operand_split(t@, op@) == Some((pair.0@, pair.1@)) && pair.1.wf()
                && pair.0.len() < t.len(),
            None => operand_split(t@, op@) is None,
        },
{
    let pattern = chars_of(op);
    match rfind_in(t, &pattern) {
        Some(p) => {
            let left = slice(t, 0, p);
            let right = slice(t, p + pattern.len(), t.len());
            match Number::read(&right) {
                Some(n) => {
                    proof {
                        crate::number::lemma_number_not_empty(right@);
                    }
                    Some((left, n))
                },
                None => match Number::read(&left) {
                    Some(n) => {
                        proof {
                            crate::number::lemma_number_not_empty(left@);
                        }
                        Some((right, n))
                    },
                    None => None,
                },
            }
        },
        None => None,
    }
}

/// Reads a source expression given as characters.
pub fn read_expression(v: &Vec<char>) -> (r: Option<ConnectionExpr>)
    ensures
        match r {
            Some(e) => expr_of(v@) == Some(e@) && e.wf(),
            None => expr_of(v@) is None,
        },
    decreases v.len(),
{
    let t = trimmed(v);
    proof {
        lemma_trim_len(v@);
    }
    match split_operand(&t, " + ") {
        Some((inner, amount)) => {
            return match read_expression(&inner) {
                Some(e) => Some(ConnectionExpr::Offset { expr: Box::new(e), offset: amount }),
                None => None,
            };
        },
        None => {},
    }
    match split_operand(&t, " * ") {
        Some((inner, amount)) => {
            return match read_expression(&inner) {
                Some(e) => Some(ConnectionExpr::Scaled { expr: Box::new(e), factor: amount }),
                None => None,
            };
        },
        None => {},
    }
    match split_in_two(&t, &chars_of(".")) {
        Some((module, port)) => Some(
            ConnectionExpr::Direct { module: string_from(&module), port: string_from(&port) },
        ),
        None => None,
    }
}

/// The characters at which a reference in an expression ends.
pub open spec fn is_delimiter(c: char) -> bool {
    c == '*' || c == '+' || c == '-' || c == ' '
}

/// Tests a character for a delimiter.
pub fn delimiter(c: char) -> (r: bool)
    ensures
        r == is_delimiter(c),
{
    c == '*' || c == '+' || c == '-' || c == ' '
}

/// The first position at or after `i` at which `s` holds a delimiter.
pub open spec fn token_end(s: Seq<char>, i: int) -> int
    decreases s.len() - i,
{
    if 0 <= i < s.len() && !is_delimiter(s[i]) {
        token_end(s, i + 1)
    } else {
        i
    }
}

/// A piece of an expression with the name `instance` and an underscore
/// before it, unless it is empty or a number.
pub open spec fn prefixed_token(instance: Seq<char>, token: Seq<char>) -> Seq<char> {
    if token.len() == 0 || is_number(token) {
        token
    } else {
        instance + "_"@ + token
    }
}

/// The expression `s` from the position `i` on, with the name `instance`
/// and an underscore before each piece between delimiters that is neither
/// empty nor a number.
pub open spec fn prefixed_from(instance: Seq<char>, s: Seq<char>, i: int) -> Seq<char>
    decreases s.len() - i,
{
    if i < 0 || i >= s.len() {
        Seq::empty()
    } else {
        let e = token_end(s, i);
        let token = prefixed_token(instance, s.subrange(i, e));
        if i <= e < s.len() {
            token + seq![s[e]] + prefixed_from(instance, s, e + 1)
        } else {
            token
        }
    }
}

/// Whether a reference holds an operator, and so is an expression.
pub open spec fn has_operator(s: Seq<char>) -> bool {
    exists|i: int| 0 <= i < s.len() && (s[i] == '*' || s[i] == '+' || s[i] == '-')
}

/// A reference of a sub-patch as it reads in the instance `instance`: an
/// expression with the name of the instance before each module it
/// mentions, another reference with the name of the instance before it.
pub open spec fn prefixed_reference(instance: Seq<char>, reference: Seq<char>) -> Seq<char> {
    if has_operator(reference) {
        prefixed_from(instance, reference, 0)
    } else {
        instance + "_"@ + reference
    }
}

/// Puts the name of an instance before each module that an expression mentions.
pub fn prefix_arithmetic_expression(instance_name: &str, expression: &str) -> (r: String)
    ensures
        r@ == prefixed_from(instance_name@, expression@, 0),
{
    let mut prefix = chars_of(instance_name);
    append(&mut prefix, &chars_of("_"));
    let s = chars_of(expression);
    let mut out: Vec<char> = Vec::new();
    let mut i: usize = 0;
    let ghost inst = instance_name@;
    assert(out@ + prefixed_from(inst, s@, 0) =~= prefixed_from(inst, s@, 0));
    while i < s.len()
        invariant
            i <= s.len(),
            prefix@ == inst + "_"@,
            out@ + prefixed_from(inst, s@, i as int) == prefixed_from(inst, s@, 0),
        decreases s.len() - i,
    {
        let mut e: usize = i;
        while e < s.len() && !delimiter(s[e])
            invariant
                i <= e <= s.len(),
                token_end(s@, i as int) == token_end(s@, e as int),
            decreases s.len() - e,
        {
            e += 1;
        }
        let token = slice(&s, i, e);
        let ghost before = out@;
        if token.len() > 0 && !number(&token) {
            append(&mut out, &prefix);
        }
        append(&mut out, &token);
        assert(out@ =~= before + prefixed_token(inst, token@));
        if e < s.len() {
            out.push(s[e]);
            assert(before + (prefixed_token(inst, token@) + seq![s@[e as int]] + prefixed_from(
                inst,
                s@,
                e + 1,
            )) =~= out@ + prefixed_from(inst, s@, e + 1));
            i = e + 1;
        } else {
            assert(prefixed_from(inst, s@, e as int) =~= Seq::<char>::empty());
            assert(before + prefixed_token(inst, token@) =~= out@ + prefixed_from(
                inst,
                s@,
                e as int,
            ));
            i = e;
        }
    }
    assert(out@ + Seq::<char>::empty() =~= out@);
    string_from(&out)
}

/// Tests whether a reference holds an operator.
fn is_expression(v: &Vec<char>) -> (r: bool)
    ensures
        r == has_operator(v@),
{
    let mut i: usize = 0;
    while i < v.len()
        invariant
            i <= v.len(),
            forall|k: int| 0 <= k < i ==> !(v@[k] == '*' || v@[k] == '+' || v@[k] == '-'),
        decreases v.len() - i,
    {
        if v[i] == '*' || v[i] == '+' || v[i] == '-' {
            return true;
        }
        i += 1;
    }
    false
}

/// Makes a reference of a sub-patch read as in the instance `instance_name`.
pub fn prefix_module_reference(instance_name: &str, module_ref: &str) -> (r: String)
    ensures
        r@ == prefixed_reference(instance_name@, module_ref@),
{
    let v = chars_of(module_ref);
    if is_expression(&v) {
        prefix_arithmetic_expression(instance_name, module_ref)
    } else {
        String::from_str(instance_name).concat("_").concat(module_ref)
    }
}

/// The name of a module of a sub-patch in the instance `instance`.
pub open spec fn prefixed_name(instance: Seq<char>, name: Seq<char>) -> Seq<char> {
    instance + "_"@ + name
}

/// Makes the name of a module of a sub-patch in the instance `instance_name`.
pub fn prefix_name(instance_name: &str, name: &str) -> (r: String)
    ensures
        r@ == prefixed_name(instance_name@, name@),
{
    String::from_str(instance_name).concat("_").concat(name)
}

/// Modules of one instance that differ in their names in the sub-patch
/// differ in their names in the instance.
pub proof fn lemma_names_stay_apart(instance: Seq<char>, a: Seq<char>, b: Seq<char>)
    requires
        prefixed_name(instance, a) == prefixed_name(instance, b),
    ensures
        a == b,
{
    let p = instance + "_"@;
    let x = prefixed_name(instance, a);
    let y = prefixed_name(instance, b);
    assert(x.subrange(p.len() as int, x.len() as int) =~= a);
    assert(y.subrange(p.len() as int, y.len() as int) =~= b);
}

/// The names of the modules of an instance begin with the name of the
/// instance and an underscore.
pub proof fn lemma_name_has_prefix(instance: Seq<char>, name: Seq<char>)
    ensures
        crate::text::starts_with(prefixed_name(instance, name), instance + "_"@),
{
    let p = instance + "_"@;
    let x = prefixed_name(instance, name);
    assert(x.subrange(0, p.len() as int) =~= p);
}

/// Modules of two instances have different names, unless the name of one
/// instance, with its underscore, begins that of the other.
pub proof fn lemma_instances_stay_apart(x: Seq<char>, y: Seq<char>, a: Seq<char>, b: Seq<char>)
    requires
        !crate::text::starts_with(x + "_"@, y + "_"@),
        !crate::text::starts_with(y + "_"@, x + "_"@),
    ensures
        prefixed_name(x, a) != prefixed_name(y, b),
{
    let px = x + "_"@;
    let py = y + "_"@;
    if prefixed_name(x, a) == prefixed_name(y, b) {
        let n = prefixed_name(x, a);
        assert(n.subrange(0, px.len() as int) =~= px);
        assert(n.subrange(0, py.len() as int) =~= py);
        if px.len() <= py.len() {
            assert(py.subrange(0, px.len() as int) =~= n.subrange(0, px.len() as int));
        } else {
            assert(px.subrange(0, py.len() as int) =~= n.subrange(0, py.len() as int));
        }
    }
}

} // verus!
