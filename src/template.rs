//! Expansion of `{filename}`, `{filename:short}`, `{x}`, `{y}` and `{z}` in
//! rule messages and arguments.
//!
//! The template is read once from left to right. At each position the first
//! placeholder that starts there is replaced by its value and reading goes on
//! after it; substituted text is never read again. Anything else, stray braces
//! included, is copied as it stands.
use crate::text::{occurs_at, occurs_at_exec};
use vstd::prelude::*;

verus! {

/// The values the placeholders stand for.
pub ghost struct Bindings {
    pub full: Seq<char>,
    pub short: Seq<char>,
    pub x: Seq<char>,
    pub y: Seq<char>,
    pub z: Seq<char>,
}

pub open spec fn tok_full() -> Seq<char> {
    "{filename}"@
}

pub open spec fn tok_short() -> Seq<char> {
    "{filename:short}"@
}

pub open spec fn tok_x() -> Seq<char> {
    "{x}"@
}

pub open spec fn tok_y() -> Seq<char> {
    "{y}"@
}

pub open spec fn tok_z() -> Seq<char> {
    "{z}"@
}

/// A non-empty token `tok` starts at `i` in `t`.
pub open spec fn token_here(t: Seq<char>, i: int, tok: Seq<char>) -> bool {
    tok.len() > 0 && occurs_at(t, i, tok)
}

/// The placeholder that starts at `i`, if any: its length and its value.
pub open spec fn placeholder_at(t: Seq<char>, i: int, b: Bindings) -> Option<(int, Seq<char>)> {
    if token_here(t, i, tok_full()) {
        Some((tok_full().len() as int, b.full))
    } else if token_here(t, i, tok_short()) {
        Some((tok_short().len() as int, b.short))
    } else if token_here(t, i, tok_x()) {
        Some((tok_x().len() as int, b.x))
    } else if token_here(t, i, tok_y()) {
        Some((tok_y().len() as int, b.y))
    } else if token_here(t, i, tok_z()) {
        Some((tok_z().len() as int, b.z))
    } else {
        None
    }
}

/// The expansion of `t` from position `i` on.
pub open spec fn expand_from(t: Seq<char>, i: int, b: Bindings) -> Seq<char>
    decreases t.len() - i,
{
    if i < 0 || i >= t.len() {
        Seq::empty()
    } else {
        match placeholder_at(t, i, b) {
            Some((len, value)) => value + expand_from(t, i + len, b),
            None => seq![t[i]] + expand_from(t, i + 1, b),
        }
    }
}

/// The expansion of the whole template `t`.
pub open spec fn expand_spec(t: Seq<char>, b: Bindings) -> Seq<char> {
    expand_from(t, 0, b)
}

/// Finds the placeholder that starts at `i` of `t` (whose length is `n`).
fn find_placeholder<'a>(
    t: &str,
    n: usize,
    i: usize,
    full: &'a str,
    short: &'a str,
    x: &'a str,
    y: &'a str,
    z: &'a str,
) -> (r: Option<(usize, &'a str)>)
    requires
        n == t@.len(),
    ensures
        match placeholder_at(t@, i as int, Bindings { full: full@, short: short@, x: x@, y: y@, z: z@ }) {
            Some((len, value)) => r matches Some((l, v)) && l == len && v@ == value,
            None => r is None,
        },
{
    let b = Ghost(Bindings { full: full@, short: short@, x: x@, y: y@, z: z@ });
    let tok = "{filename}";
    let m = tok.unicode_len();
    if m > 0 && occurs_at_exec(t, n, i, tok) {
        return Some((m, full));
    }
    let tok = "{filename:short}";
    let m = tok.unicode_len();
    if m > 0 && occurs_at_exec(t, n, i, tok) {
        return Some((m, short));
    }
    let tok = "{x}";
    let m = tok.unicode_len();
    if m > 0 && occurs_at_exec(t, n, i, tok) {
        return Some((m, x));
    }
    let tok = "{y}";
    let m = tok.unicode_len();
    if m > 0 && occurs_at_exec(t, n, i, tok) {
        return Some((m, y));
    }
    let tok = "{z}";
    let m = tok.unicode_len();
    if m > 0 && occurs_at_exec(t, n, i, tok) {
        return Some((m, z));
    }
    None
}

/// Expands the placeholders of `template`: `{filename}` becomes `full`,
/// `{filename:short}` becomes `short`, and `{x}`, `{y}`, `{z}` become `x`,
/// `y`, `z`. Never fails.
pub fn expand(template: &str, full: &str, short: &str, x: &str, y: &str, z: &str) -> (r: String)
    ensures
        r@ == expand_spec(template@, Bindings { full: full@, short: short@, x: x@, y: y@, z: z@ }),
{
    let ghost b = Bindings { full: full@, short: short@, x: x@, y: y@, z: z@ };
    let ghost t = template@;
    let n = template.unicode_len();
    let mut out = String::new();
    let mut start: usize = 0;
    let mut i: usize = 0;
    while i < n
        invariant
            n == t.len(),
            t == template@,
            b == (Bindings { full: full@, short: short@, x: x@, y: y@, z: z@ }),
            start <= i <= n,
            out@ + t.subrange(start as int, i as int) + expand_from(t, i as int, b) == expand_spec(t, b),
        decreases n - i,
    {
        match find_placeholder(template, n, i, full, short, x, y, z) {
            Some((len, value)) => {
                let ghost before = out@;
                out.append(template.substring_char(start, i));
                out.append(value);
                proof {
                    assert(t.subrange((i + len) as int, (i + len) as int) =~= Seq::<char>::empty());
                    assert(before + t.subrange(start as int, i as int) + expand_from(t, i as int, b)
                        =~= out@ + t.subrange((i + len) as int, (i + len) as int) + expand_from(t, (i + len) as int, b));
                }
                i = i + len;
                start = i;
            },
            None => {
                proof {
                    assert(t.subrange(start as int, i + 1) =~= t.subrange(start as int, i as int).push(t[i as int]));
                    assert(out@ + t.subrange(start as int, i as int) + expand_from(t, i as int, b)
                        =~= out@ + t.subrange(start as int, i + 1) + expand_from(t, i + 1, b));
                }
                i = i + 1;
            },
        }
    }
    out.append(template.substring_char(start, n));
    proof {
        assert(out@ =~= out@ + expand_from(t, n as int, b));
    }
    out
}

} // verus!
