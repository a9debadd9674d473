//! Substitution of positional arguments into message templates.
//!
//! An anchor is the pair `{}`; each one takes the next argument, left to
//! right. A backslash before `{}` makes the pair literal (the backslash is
//! dropped); a backslash before anything else is kept with what follows it,
//! and one at the very end is dropped.
//! When the arguments run out, the anchor and everything after it are kept
//! as they stand. Arguments left over are ignored.

use vstd::prelude::*;
use crate::text::{chars_of, push_all, same_chars, string_of};

verus! {

/// The argument value that stands for a null element of the argument array.
pub open spec fn null_marker() -> Seq<char> {
    "NULL_ARGUMENT_ARRAY_ELEMENT"@
}

/// What an anchor is replaced with for argument `a`.
pub open spec fn arg_text(a: Seq<char>) -> Seq<char> {
    if a == null_marker() {
        "null"@
    } else {
        a
    }
}

/// The contents of each argument, in order.
pub open spec fn arg_views(args: Seq<String>) -> Seq<Seq<char>> {
    args.map_values(|s: String| s@)
}

/// Whether the pair `{}` starts at position `i` of `t`.
pub open spec fn anchor_at(t: Seq<char>, i: int) -> bool {
    0 <= i < t.len() - 1 && t[i] == '{' && t[i + 1] == '}'
}

/// Whether `t` holds the pair `{}` somewhere.
pub open spec fn has_anchor(t: Seq<char>) -> bool {
    exists|i: int| #[trigger] anchor_at(t, i)
}

/// The scan of `t` from the left, taking arguments from the front of `args`.
pub open spec fn render(t: Seq<char>, args: Seq<Seq<char>>) -> Seq<char>
    decreases t.len(),
{
    if t.len() == 0 {
        Seq::empty()
    } else if t[0] == '\\' {
        if t.len() == 1 {
            Seq::empty()
        } else if t[1] == '{' && t.len() > 2 && t[2] == '}' {
            seq!['{'] + render(t.subrange(2, t.len() as int), args)
        } else {
            t.subrange(0, 2) + render(t.subrange(2, t.len() as int), args)
        }
    } else if t[0] == '{' && t.len() > 1 && t[1] == '}' {
        if args.len() == 0 {
            t
        } else {
            arg_text(args[0]) + render(t.subrange(2, t.len() as int), args.drop_first())
        }
    } else {
        seq![t[0]] + render(t.drop_first(), args)
    }
}

/// The message for template `t` and arguments `args`: the template itself
/// when there is nothing to substitute, else its scan.
pub open spec fn formatted(t: Seq<char>, args: Seq<Seq<char>>) -> Seq<char> {
    if args.len() == 0 || !has_anchor(t) {
        t
    } else {
        render(t, args)
    }
}

/// With no arguments, or with no anchor in the template, the message is the
/// template itself.
pub proof fn lemma_format_unchanged(t: Seq<char>, args: Seq<Seq<char>>)
    requires
        args.len() == 0 || !has_anchor(t),
    ensures
        formatted(t, args) == t,
{
}

/// An argument equal to the null marker is put in as the text `null`.
pub proof fn lemma_null_marker_renders_null(rest: Seq<char>, args: Seq<Seq<char>>)
    ensures
        render("{}"@ + rest, seq![null_marker()] + args) == "null"@ + render(rest, args),
{
    reveal_strlit("{}");
    let t = "{}"@ + rest;
    let a = seq![null_marker()] + args;
    assert(t.subrange(2, t.len() as int) == rest);
    assert(a.drop_first() == args);
}

/// Whether the characters `t` hold the pair `{}`.
fn contains_anchor(t: &Vec<char>) -> (r: bool)
    ensures
        r == has_anchor(t@),
{
    let mut i: usize = 0;
    while i < t.len()
        invariant
            i <= t@.len(),
            forall|j: int| 0 <= j < i ==> !#[trigger] anchor_at(t@, j),
        decreases t@.len() - i,
    {
        if i + 1 < t.len() && t[i] == '{' && t[i + 1] == '}' {
            assert(anchor_at(t@, i as int));
            return true;
        }
        i = i + 1;
    }
    false
}

/// Renders `template` with `args` substituted for its anchors, in order.
pub fn format(template: &str, args: &[String]) -> (r: String)
    ensures
        r@ == formatted(template@, arg_views(args@)),
{
    let t = chars_of(template);
    if args.len() == 0 || !contains_anchor(&t) {
        return template.to_owned();
    }
    let ghost all = arg_views(args@);
    let null_chars = chars_of("NULL_ARGUMENT_ARRAY_ELEMENT");
    let null_text = chars_of("null");
    let n = t.len();
    let mut out: Vec<char> = Vec::new();
    let mut i: usize = 0;
    let mut k: usize = 0;
    assert(t@.subrange(0, n as int) == t@);
    assert(all.subrange(0, all.len() as int) == all);
    while i < n
        invariant
            i <= n,
            n == t@.len(),
            k <= args@.len(),
            all == arg_views(args@),
            null_chars@ == null_marker(),
            null_text@ == "null"@,
            out@ + render(t@.subrange(i as int, n as int), all.subrange(k as int, all.len() as int))
                == render(t@, all),
        decreases n - i,
    {
        let ghost rest = t@.subrange(i as int, n as int);
        let ghost left = all.subrange(k as int, all.len() as int);
        let c = t[i];
        if c == '\\' {
            if i + 1 == n {
                assert(rest == seq![c]);
                i = i + 1;
                assert(t@.subrange(i as int, n as int) == Seq::<char>::empty());
                continue;
            }
            let d = t[i + 1];
            assert(rest.subrange(2, rest.len() as int) == t@.subrange(i + 2, n as int));
            if d == '{' && i + 2 < n && t[i + 2] == '}' {
                out.push('{');
            } else {
                out.push(c);
                out.push(d);
                assert(rest.subrange(0, 2) == seq![c, d]);
            }
            i = i + 2;
        } else if c == '{' && i + 1 < n && t[i + 1] == '}' {
            assert(rest.subrange(2, rest.len() as int) == t@.subrange(i + 2, n as int));
            if k == args.len() {
                let ghost before = out@;
                let mut j: usize = i;
                while j < n
                    invariant
                        i <= j <= n,
                        n == t@.len(),
                        out@ == before + t@.subrange(i as int, j as int),
                    decreases n - j,
                {
                    out.push(t[j]);
                    j = j + 1;
                    assert(t@.subrange(i as int, j as int) == t@.subrange(i as int, j - 1) + seq![t@[j - 1]]);
                }
                assert(left.len() == 0);
                i = n;
                assert(t@.subrange(i as int, n as int) == Seq::<char>::empty());
                continue;
            }
            let a = chars_of(args[k].as_str());
            if same_chars(&a, &null_chars) {
                push_all(&mut out, &null_text);
            } else {
                push_all(&mut out, &a);
            }
            assert(left[0] == args@[k as int]@);
            assert(left.drop_first() == all.subrange(k + 1, all.len() as int));
            i = i + 2;
            k = k + 1;
        } else {
            out.push(c);
            assert(rest.drop_first() == t@.subrange(i + 1, n as int));
            i = i + 1;
        }
    }
    assert(t@.subrange(n as int, n as int) == Seq::<char>::empty());
    string_of(&out)
}

} // verus!
