//! Templates whose braces all belong to placeholders: filling them does not
//! depend on the order in which the variables are applied.

use vstd::prelude::*;
use crate::map::lookup;
use crate::rules::{placeholder, template_spec};
use crate::text::replace_spec;

verus! {

pub open spec fn is_brace(c: char) -> bool {
    c == '{' || c == '}'
}

/// Text with no `{` and no `}`.
pub open spec fn brace_free(s: Seq<char>) -> bool {
    forall|i: int| 0 <= i < s.len() ==> !is_brace(#[trigger] s[i])
}

/// The longest start of `s` that holds no brace.
pub open spec fn name_run(s: Seq<char>) -> Seq<char>
    decreases s.len(),
{
    if s.len() == 0 || is_brace(s[0]) {
        Seq::empty()
    } else {
        seq![s[0]] + name_run(s.drop_first())
    }
}

/// The name of the placeholder `{{name}}` that `s` begins with, if it begins
/// with one (a name holds no brace).
pub open spec fn front_name(s: Seq<char>) -> Option<Seq<char>> {
    if s.len() >= 4 && s[0] == '{' && s[1] == '{' {
        let n = name_run(s.skip(2));
        if s.len() >= n.len() + 4 && s[n.len() + 2int] == '}' && s[n.len() + 3int] == '}' {
            Some(n)
        } else {
            None
        }
    } else {
        None
    }
}

/// Every brace of `s` belongs to a placeholder `{{name}}` of a variable of
/// `vars`.
pub open spec fn placeholders_only(s: Seq<char>, vars: Seq<(Seq<char>, Seq<char>)>) -> bool
    decreases s.len(),
{
    if s.len() == 0 {
        true
    } else if !is_brace(s[0]) {
        placeholders_only(s.drop_first(), vars)
    } else {
        match front_name(s) {
            Some(n) => lookup(vars, n) is Some && placeholders_only(s.skip(n.len() + 4int), vars),
            None => false,
        }
    }
}

/// `s` with every placeholder of a variable of `vars` replaced by the
/// variable's value, in one pass from the left.
pub open spec fn substituted(s: Seq<char>, vars: Seq<(Seq<char>, Seq<char>)>) -> Seq<char>
    decreases s.len(),
{
    if s.len() == 0 {
        s
    } else if front_name(s) is Some && lookup(vars, front_name(s)->0) is Some {
        lookup(vars, front_name(s)->0)->0 + substituted(s.skip(front_name(s)->0.len() + 4int), vars)
    } else {
        seq![s[0]] + substituted(s.drop_first(), vars)
    }
}

/// Names and values of `vars` hold no brace.
pub open spec fn braceless_vars(vars: Seq<(Seq<char>, Seq<char>)>) -> bool {
    forall|i: int| 0 <= i < vars.len() ==> brace_free(#[trigger] vars[i].0) && brace_free(vars[i].1)
}

/// The run of a brace-free name followed by a brace (or nothing) is the name.
proof fn lemma_name_run_of(n: Seq<char>, w: Seq<char>)
    requires
        brace_free(n),
        w.len() == 0 || is_brace(w[0]),
    ensures
        name_run(n + w) == n,
    decreases n.len(),
{
    if n.len() == 0 {
        assert(n + w =~= w);
    } else {
        lemma_name_run_of(n.drop_first(), w);
        assert((n + w).drop_first() =~= n.drop_first() + w);
        assert(seq![n[0]] + n.drop_first() =~= n);
    }
}

/// A name run is brace-free and starts its text.
proof fn lemma_name_run_prefix(s: Seq<char>)
    ensures
        brace_free(name_run(s)),
        name_run(s).len() <= s.len(),
        s.take(name_run(s).len() as int) == name_run(s),
    decreases s.len(),
{
    if s.len() > 0 && !is_brace(s[0]) {
        lemma_name_run_prefix(s.drop_first());
        let r = name_run(s.drop_first());
        assert(s.take(r.len() + 1int) =~= seq![s[0]] + s.drop_first().take(r.len() as int));
        assert forall|i: int| 0 <= i < name_run(s).len() implies !is_brace(#[trigger] name_run(s)[i]) by {
            if i > 0 {
                assert(name_run(s)[i] == r[i - 1]);
            }
        }
    } else {
        assert(s.take(0) =~= Seq::<char>::empty());
    }
}

/// Text that begins with a placeholder is that placeholder followed by the
/// rest.
proof fn lemma_front_placeholder(s: Seq<char>)
    requires
        front_name(s) is Some,
    ensures
        brace_free(front_name(s)->0),
        s == placeholder(front_name(s)->0) + s.skip(front_name(s)->0.len() + 4int),
{
    let n = front_name(s)->0;
    lemma_name_run_prefix(s.skip(2));
    assert(s.skip(2).take(n.len() as int) == n);
    assert(s =~= placeholder(n) + s.skip(n.len() + 4int)) by {
        assert forall|i: int| 2 <= i < n.len() + 2 implies s[i] == n[i - 2] by {
            assert(s.skip(2).take(n.len() as int)[i - 2] == s[i]);
        }
    }
}

/// A placeholder of a brace-free name begins with that name's placeholder.
proof fn lemma_front_of_placeholder(n: Seq<char>, rest: Seq<char>)
    requires
        brace_free(n),
    ensures
        front_name(placeholder(n) + rest) == Some(n),
{
    let s = placeholder(n) + rest;
    assert(s.skip(2) =~= n + (seq!['}', '}'] + rest));
    lemma_name_run_of(n, seq!['}', '}'] + rest);
}

/// Brace-free text in front passes through unchanged.
proof fn lemma_brace_free_front(u: Seq<char>, x: Seq<char>, vars: Seq<(Seq<char>, Seq<char>)>)
    requires
        brace_free(u),
    ensures
        substituted(u + x, vars) == u + substituted(x, vars),
        placeholders_only(u + x, vars) == placeholders_only(x, vars),
    decreases u.len(),
{
    if u.len() == 0 {
        assert(u + x =~= x);
    } else {
        lemma_brace_free_front(u.drop_first(), x, vars);
        assert((u + x).drop_first() =~= u.drop_first() + x);
        assert((u + x)[0] == u[0]);
        assert(!is_brace(u[0]));
        assert(seq![u[0]] + (u.drop_first() + substituted(x, vars)) =~= u + substituted(x, vars));
    }
}

/// Whether `pat` occurs in `s` at position `i`.
pub open spec fn occurs_at(s: Seq<char>, pat: Seq<char>, i: int) -> bool {
    s.len() - i >= pat.len() && s.skip(i).take(pat.len() as int) == pat
}

/// Where `pat` occurs nowhere before position `j`, replacing it leaves the
/// first `j` characters as they are.
proof fn lemma_replace_passes(s: Seq<char>, pat: Seq<char>, rep: Seq<char>, j: int)
    requires
        0 <= j <= s.len(),
        pat.len() > 0,
        forall|i: int| 0 <= i < j ==> !#[trigger] occurs_at(s, pat, i),
    ensures
        replace_spec(s, pat, rep) == s.take(j) + replace_spec(s.skip(j), pat, rep),
    decreases j,
{
    if j == 0 {
        assert(s.skip(0) =~= s);
        assert(s.take(0) + replace_spec(s, pat, rep) =~= replace_spec(s, pat, rep));
    } else {
        assert(!occurs_at(s, pat, 0));
        assert(s.skip(0) =~= s);
        let d = s.drop_first();
        assert forall|i: int| 0 <= i < j - 1 implies !#[trigger] occurs_at(d, pat, i) by {
            assert(!occurs_at(s, pat, i + 1));
            assert(d.skip(i) =~= s.skip(i + 1));
        }
        lemma_replace_passes(d, pat, rep, j - 1);
        assert(d.skip(j - 1) =~= s.skip(j));
        assert(s.take(j) =~= seq![s[0]] + d.take(j - 1));
    }
}

/// With no variable, text whose braces all belong to placeholders of
/// variables has no brace, and is its own substitution.
proof fn lemma_substituted_none(t: Seq<char>, vars: Seq<(Seq<char>, Seq<char>)>)
    requires
        vars.len() == 0,
        placeholders_only(t, vars),
    ensures
        substituted(t, vars) == t,
    decreases t.len(),
{
    if t.len() > 0 {
        lemma_substituted_none(t.drop_first(), vars);
        assert(seq![t[0]] + t.drop_first() =~= t);
    }
}

/// Text that begins with the placeholder of the first variable: replacing
/// that variable's placeholders puts its value in front.
proof fn lemma_fill_same(t: Seq<char>, vars: Seq<(Seq<char>, Seq<char>)>)
    requires
        vars.len() > 0,
        braceless_vars(vars),
        front_name(t) == Some(vars[0].0),
        placeholders_only(replace_spec(t.skip(vars[0].0.len() + 4int), placeholder(vars[0].0), vars[0].1), vars.drop_first()),
        substituted(replace_spec(t.skip(vars[0].0.len() + 4int), placeholder(vars[0].0), vars[0].1), vars.drop_first())
            == substituted(t.skip(vars[0].0.len() + 4int), vars),
    ensures
        placeholders_only(replace_spec(t, placeholder(vars[0].0), vars[0].1), vars.drop_first()),
        substituted(replace_spec(t, placeholder(vars[0].0), vars[0].1), vars.drop_first())
            == substituted(t, vars),
{
    let k0 = vars[0].0;
    let v0 = vars[0].1;
    let p = placeholder(k0);
    let t2 = t.skip(k0.len() + 4int);
    let r2 = replace_spec(t2, p, v0);
    assert(brace_free(k0) && brace_free(v0));
    lemma_front_placeholder(t);
    assert(t.take(p.len() as int) =~= p);
    assert(t.skip(p.len() as int) =~= t2);
    assert(replace_spec(t, p, v0) == v0 + r2);
    lemma_brace_free_front(v0, r2, vars.drop_first());
}

/// Text that begins with the placeholder of another variable: replacing the
/// first variable's placeholders leaves that placeholder in front.
proof fn lemma_fill_other(t: Seq<char>, vars: Seq<(Seq<char>, Seq<char>)>)
    requires
        vars.len() > 0,
        braceless_vars(vars),
        front_name(t) is Some,
        front_name(t)->0 != vars[0].0,
        lookup(vars, front_name(t)->0) is Some,
        placeholders_only(replace_spec(t.skip(front_name(t)->0.len() + 4int), placeholder(vars[0].0), vars[0].1), vars.drop_first()),
        substituted(replace_spec(t.skip(front_name(t)->0.len() + 4int), placeholder(vars[0].0), vars[0].1), vars.drop_first())
            == substituted(t.skip(front_name(t)->0.len() + 4int), vars),
    ensures
        placeholders_only(replace_spec(t, placeholder(vars[0].0), vars[0].1), vars.drop_first()),
        substituted(replace_spec(t, placeholder(vars[0].0), vars[0].1), vars.drop_first())
            == substituted(t, vars),
{
    let k0 = vars[0].0;
    let v0 = vars[0].1;
    let p = placeholder(k0);
    let n = front_name(t)->0;
    let ph = placeholder(n);
    let t2 = t.skip(n.len() + 4int);
    let r2 = replace_spec(t2, p, v0);
    let rest = vars.drop_first();
    assert(brace_free(k0));
    lemma_front_placeholder(t);
    assert(lookup(vars, n) == lookup(rest, n));
    assert forall|i: int| 0 <= i < ph.len() implies !#[trigger] occurs_at(t, p, i) by {
        if occurs_at(t, p, i) {
            assert(t[i] == ph[i]);
            if i == 0 {
                assert(t.take(p.len() as int) =~= p);
                assert(t =~= p + t.skip(k0.len() + 4int));
                lemma_front_of_placeholder(k0, t.skip(k0.len() + 4int));
            } else if i == 1 {
                assert(t.skip(i).take(p.len() as int)[1] == t[2]);
                assert(t[2] == ph[2]);
                if n.len() > 0 {
                    assert(ph[2] == n[0]);
                }
            } else {
                assert(t.skip(i).take(p.len() as int)[0] == t[i]);
                if i < n.len() + 2 {
                    assert(ph[i] == n[i - 2]);
                }
            }
        }
    }
    lemma_replace_passes(t, p, v0, ph.len() as int);
    assert(t.take(ph.len() as int) =~= ph);
    assert(t.skip(ph.len() as int) =~= t2);
    assert(replace_spec(t, p, v0) == ph + r2);
    lemma_front_of_placeholder(n, r2);
    assert((ph + r2)[0] == '{');
    assert((ph + r2).skip(n.len() + 4int) =~= r2);
}

/// The first variable's placeholders replaced, what is left has braces only
/// in placeholders of the other variables and substitutes to the same text.
proof fn lemma_fill_first(t: Seq<char>, vars: Seq<(Seq<char>, Seq<char>)>)
    requires
        vars.len() > 0,
        braceless_vars(vars),
        placeholders_only(t, vars),
    ensures
        placeholders_only(replace_spec(t, placeholder(vars[0].0), vars[0].1), vars.drop_first()),
        substituted(replace_spec(t, placeholder(vars[0].0), vars[0].1), vars.drop_first())
            == substituted(t, vars),
    decreases t.len(),
{
    let k0 = vars[0].0;
    let v0 = vars[0].1;
    let p = placeholder(k0);
    if t.len() == 0 {
    } else if !is_brace(t[0]) {
        assert(p[0] == '{');
        if t.len() >= p.len() {
            assert(t.take(p.len() as int)[0] == t[0]);
        }
        lemma_fill_first(t.drop_first(), vars);
        let r1 = replace_spec(t.drop_first(), p, v0);
        let r = replace_spec(t, p, v0);
        assert(r == seq![t[0]] + r1);
        assert(r.drop_first() =~= r1);
        assert(r[0] == t[0]);
    } else {
        let n = front_name(t)->0;
        lemma_fill_first(t.skip(n.len() + 4int), vars);
        if n == k0 {
            lemma_fill_same(t, vars);
        } else {
            lemma_fill_other(t, vars);
        }
    }
}

/// Filling such a template variable by variable gives its one-pass
/// substitution.
proof fn lemma_template_substitutes(t: Seq<char>, vars: Seq<(Seq<char>, Seq<char>)>)
    requires
        braceless_vars(vars),
        placeholders_only(t, vars),
    ensures
        template_spec(t, vars) == substituted(t, vars),
    decreases vars.len(),
{
    if vars.len() == 0 {
        lemma_substituted_none(t, vars);
    } else {
        lemma_fill_first(t, vars);
        let rest = vars.drop_first();
        assert(braceless_vars(rest)) by {
            assert forall|i: int| 0 <= i < rest.len() implies brace_free(#[trigger] rest[i].0)
                && brace_free(rest[i].1) by {
                assert(rest[i] == vars[i + 1]);
            }
        }
        lemma_template_substitutes(replace_spec(t, placeholder(vars[0].0), vars[0].1), rest);
    }
}

/// Which braces belong to placeholders, and the substitution, depend only on
/// the value each name has.
proof fn lemma_same_values(t: Seq<char>, a: Seq<(Seq<char>, Seq<char>)>, b: Seq<(Seq<char>, Seq<char>)>)
    requires
        forall|k: Seq<char>| #[trigger] lookup(a, k) == lookup(b, k),
    ensures
        placeholders_only(t, a) == placeholders_only(t, b),
        substituted(t, a) == substituted(t, b),
    decreases t.len(),
{
    if t.len() > 0 {
        lemma_same_values(t.drop_first(), a, b);
        if front_name(t) is Some {
            let n = front_name(t)->0;
            assert(lookup(a, n) == lookup(b, n));
            lemma_same_values(t.skip(n.len() + 4int), a, b);
        }
    }
}

/// When no name or value of the variables holds a brace and every brace of
/// the template belongs to a placeholder `{{name}}` of a variable, filling
/// the template gives the substitution of every placeholder by its value in
/// one pass, whatever the order of the variables: two variable lists that
/// give every name the same value fill it alike.
pub proof fn law_template_order_free(
    t: Seq<char>,
    vars: Seq<(Seq<char>, Seq<char>)>,
    other: Seq<(Seq<char>, Seq<char>)>,
)
    requires
        braceless_vars(vars),
        braceless_vars(other),
        forall|k: Seq<char>| #[trigger] lookup(vars, k) == lookup(other, k),
        placeholders_only(t, vars),
    ensures
        template_spec(t, vars) == substituted(t, vars),
        template_spec(t, vars) == template_spec(t, other),
{
    lemma_same_values(t, vars, other);
    lemma_template_substitutes(t, vars);
    lemma_template_substitutes(t, other);
}

} // verus!
