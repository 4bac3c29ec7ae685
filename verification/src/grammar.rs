//! The meaning of parsing: spec functions that say which tree the parser builds
//! from a character sequence, and the position where each step stops.
//!
//! Each function takes the whole input `s` and a start position `p`, and returns
//! what it parsed with the position just after it.

use vstd::prelude::*;
use crate::ast::{MatrixKind, SpecNode};
use crate::symbols::{accent_of, font_char, symbol_of, Font};
use crate::text::{is_alphabetic, is_white_space};

verus! {

// ---------------------------------------------------------------------------
// Scanning helpers
// ---------------------------------------------------------------------------

/// The first position at or after `p` that does not hold whitespace.
pub open spec fn ws_end(s: Seq<char>, p: int) -> int
    decreases s.len() - p,
{
    if 0 <= p < s.len() && is_white_space(s[p]) {
        ws_end(s, p + 1)
    } else {
        p
    }
}

/// The first position at or after `p` that does not hold an alphabetic character.
pub open spec fn alpha_end(s: Seq<char>, p: int) -> int
    decreases s.len() - p,
{
    if 0 <= p < s.len() && is_alphabetic(s[p]) {
        alpha_end(s, p + 1)
    } else {
        p
    }
}

/// The end of a command name that starts at `p` (just after a backslash): one
/// non-alphabetic character, or a run of alphabetic ones.
pub open spec fn name_end(s: Seq<char>, p: int) -> int {
    if 0 <= p < s.len() {
        if !is_alphabetic(s[p]) {
            p + 1
        } else {
            alpha_end(s, p)
        }
    } else {
        p
    }
}

/// The first position at or after `p` that holds `'}'`, or the end of `s`.
pub open spec fn close_brace_at(s: Seq<char>, p: int) -> int
    decreases s.len() - p,
{
    if 0 <= p < s.len() && s[p] != '}' {
        close_brace_at(s, p + 1)
    } else {
        p
    }
}

/// An environment name `{name}` after optional whitespace, and the position after
/// it; the empty name where no `{` follows.
pub open spec fn env_name(s: Seq<char>, p: int) -> (Seq<char>, int) {
    let q = ws_end(s, p);
    if 0 <= q < s.len() && s[q] == '{' {
        let e = close_brace_at(s, q + 1);
        (s.subrange(q + 1, e), if e < s.len() { e + 1 } else { e })
    } else {
        (Seq::empty(), q)
    }
}

/// One delimiter character after optional whitespace (empty at the end of input).
pub open spec fn delimiter(s: Seq<char>, p: int) -> (Seq<char>, int) {
    let q = ws_end(s, p);
    if 0 <= q < s.len() {
        (seq![s[q]], q + 1)
    } else {
        (Seq::empty(), q)
    }
}

/// The bracket style of the environment `name`.
pub open spec fn env_kind(name: Seq<char>) -> MatrixKind {
    if name == "pmatrix"@ {
        MatrixKind::Paren
    } else if name == "bmatrix"@ {
        MatrixKind::Bracket
    } else if name == "Bmatrix"@ {
        MatrixKind::Brace
    } else if name == "vmatrix"@ {
        MatrixKind::Vbar
    } else if name == "Vmatrix"@ {
        MatrixKind::VVbar
    } else if name == "cases"@ {
        MatrixKind::Cases
    } else {
        MatrixKind::Plain
    }
}

// ---------------------------------------------------------------------------
// Tree helpers
// ---------------------------------------------------------------------------

/// The empty text node, used where an argument is missing.
pub open spec fn empty_text() -> SpecNode {
    SpecNode::Text(Seq::empty())
}

/// The argument, or the empty text where there is none.
pub open spec fn or_empty(a: Option<SpecNode>) -> SpecNode {
    match a {
        Some(n) => n,
        None => empty_text(),
    }
}

/// `acc` with `n` appended when there is one.
pub open spec fn push_opt(acc: Seq<SpecNode>, n: Option<SpecNode>) -> Seq<SpecNode> {
    match n {
        Some(x) => acc.push(x),
        None => acc,
    }
}

/// The node for an unknown or symbol command `\name`.
pub open spec fn command_symbol(name: Seq<char>) -> SpecNode {
    match symbol_of(name) {
        Some(sym) => SpecNode::Symbol(sym),
        None => SpecNode::Text(seq!['\\'] + name),
    }
}

/// One step of attaching scripts: a base-less superscript or subscript binds to
/// the node before it; a superscript after a subscript (or the converse) makes
/// one node with both.
pub open spec fn collapse_step(acc: Seq<SpecNode>, n: SpecNode) -> Seq<SpecNode> {
    match n {
        SpecNode::Superscript { base: None, exp } => {
            if acc.len() > 0 {
                match acc.last() {
                    SpecNode::Subscript { base, sub } => acc.drop_last().push(
                        SpecNode::SubSup { base, sub, exp },
                    ),
                    other => acc.drop_last().push(
                        SpecNode::Superscript { base: Some(Box::new(other)), exp },
                    ),
                }
            } else {
                acc.push(n)
            }
        },
        SpecNode::Subscript { base: None, sub } => {
            if acc.len() > 0 {
                match acc.last() {
                    SpecNode::Superscript { base, exp } => acc.drop_last().push(
                        SpecNode::SubSup { base, sub, exp },
                    ),
                    other => acc.drop_last().push(
                        SpecNode::Subscript { base: Some(Box::new(other)), sub },
                    ),
                }
            } else {
                acc.push(n)
            }
        },
        _ => acc.push(n),
    }
}

/// Attaches base-less scripts, left to right.
pub open spec fn collapse(nodes: Seq<SpecNode>) -> Seq<SpecNode>
    decreases nodes.len(),
{
    if nodes.len() == 0 {
        Seq::empty()
    } else {
        collapse_step(collapse(nodes.drop_last()), nodes.last())
    }
}

pub proof fn lemma_collapse_push(x: Seq<SpecNode>, y: SpecNode)
    ensures
        collapse(x.push(y)) == collapse_step(collapse(x), y),
{
    assert(x.push(y).drop_last() == x);
}

/// The characters of `t` in the style `font` (characters without a styled form
/// stay as they are).
pub open spec fn styled_text(t: Seq<char>, font: Font) -> Seq<char> {
    Seq::new(
        t.len(),
        |i: int|
            match font_char(font, t[i]) {
                Some(c) => c,
                None => t[i],
            },
    )
}

/// `\mathbb` and friends: text becomes a styled symbol, groups are styled
/// throughout, other nodes are kept.
pub open spec fn restyle(n: SpecNode, font: Font) -> SpecNode
    decreases n,
{
    match n {
        SpecNode::Text(t) => SpecNode::Symbol(styled_text(t, font)),
        SpecNode::Group(ch) => SpecNode::Group(restyle_all(ch, font)),
        other => other,
    }
}

/// `restyle` on each node.
pub open spec fn restyle_all(ns: Seq<SpecNode>, font: Font) -> Seq<SpecNode>
    decreases ns,
{
    if ns.len() == 0 {
        Seq::empty()
    } else {
        restyle_all(ns.drop_last(), font).push(restyle(ns.last(), font))
    }
}

pub proof fn lemma_restyle_all_push(x: Seq<SpecNode>, y: SpecNode, font: Font)
    ensures
        restyle_all(x.push(y), font) == restyle_all(x, font).push(restyle(y, font)),
{
    assert(x.push(y).drop_last() == x);
}

/// Closes the current row of an environment, unless nothing is pending.
pub open spec fn finish_rows(
    rows: Seq<Seq<Seq<SpecNode>>>,
    row: Seq<Seq<SpecNode>>,
    cell: Seq<SpecNode>,
) -> Seq<Seq<Seq<SpecNode>>> {
    if cell.len() > 0 || row.len() > 0 {
        rows.push(row.push(cell))
    } else {
        rows
    }
}

/// What an environment body holds at a position.
pub enum EnvMark {
    /// `\\`: the row ends.
    RowBreak,
    /// `\end{name}` of this environment; parsing resumes after it.
    End(int),
    /// Anything else; content resumes at the position.
    Rest(int),
}

/// Classifies position `q` (inside the input) of the body of environment `env`.
pub open spec fn env_mark(s: Seq<char>, q: int, env: Seq<char>) -> EnvMark {
    if s[q] == '\\' && q + 1 < s.len() && s[q + 1] == '\\' {
        EnvMark::RowBreak
    } else if s[q] == '\\' {
        let e = alpha_end(s, q + 1);
        if s.subrange(q + 1, e) == "end"@ {
            let (nm, r) = env_name(s, e);
            if nm == env {
                EnvMark::End(r)
            } else {
                EnvMark::Rest(r)
            }
        } else {
            EnvMark::Rest(q)
        }
    } else {
        EnvMark::Rest(q)
    }
}

// ---------------------------------------------------------------------------
// Lemmas on the scanning helpers
// ---------------------------------------------------------------------------

pub proof fn lemma_ws_end(s: Seq<char>, p: int)
    requires
        0 <= p <= s.len(),
    ensures
        p <= ws_end(s, p) <= s.len(),
        ws_end(s, ws_end(s, p)) == ws_end(s, p),
        forall|i: int| p <= i < ws_end(s, p) ==> is_white_space(#[trigger] s[i]),
        ws_end(s, p) < s.len() ==> !is_white_space(s[ws_end(s, p)]),
    decreases s.len() - p,
{
    if p < s.len() && is_white_space(s[p]) {
        lemma_ws_end(s, p + 1);
    }
}

pub proof fn lemma_alpha_end(s: Seq<char>, p: int)
    requires
        0 <= p <= s.len(),
    ensures
        p <= alpha_end(s, p) <= s.len(),
        forall|i: int| p <= i < alpha_end(s, p) ==> is_alphabetic(#[trigger] s[i]),
        alpha_end(s, p) < s.len() ==> !is_alphabetic(s[alpha_end(s, p)]),
    decreases s.len() - p,
{
    if p < s.len() && is_alphabetic(s[p]) {
        lemma_alpha_end(s, p + 1);
    }
}

pub proof fn lemma_name_end(s: Seq<char>, p: int)
    requires
        0 <= p <= s.len(),
    ensures
        p <= name_end(s, p) <= s.len(),
        p < s.len() ==> p < name_end(s, p),
{
    if p < s.len() && is_alphabetic(s[p]) {
        lemma_alpha_end(s, p);
    }
}

pub proof fn lemma_close_brace_at(s: Seq<char>, p: int)
    requires
        0 <= p <= s.len(),
    ensures
        p <= close_brace_at(s, p) <= s.len(),
        forall|i: int| p <= i < close_brace_at(s, p) ==> #[trigger] s[i] != '}',
        close_brace_at(s, p) < s.len() ==> s[close_brace_at(s, p)] == '}',
    decreases s.len() - p,
{
    if p < s.len() && s[p] != '}' {
        lemma_close_brace_at(s, p + 1);
    }
}

pub proof fn lemma_env_name(s: Seq<char>, p: int)
    requires
        0 <= p <= s.len(),
    ensures
        p <= env_name(s, p).1 <= s.len(),
{
    lemma_ws_end(s, p);
    let q = ws_end(s, p);
    if q < s.len() && s[q] == '{' {
        lemma_close_brace_at(s, q + 1);
    }
}

pub proof fn lemma_delimiter(s: Seq<char>, p: int)
    requires
        0 <= p <= s.len(),
    ensures
        p <= delimiter(s, p).1 <= s.len(),
{
    lemma_ws_end(s, p);
}

pub proof fn lemma_env_mark(s: Seq<char>, q: int, env: Seq<char>)
    requires
        0 <= q < s.len(),
    ensures
        env_mark(s, q, env) matches EnvMark::End(r) ==> q < r <= s.len(),
        env_mark(s, q, env) matches EnvMark::Rest(r) ==> q <= r <= s.len(),
{
    if s[q] == '\\' && !(q + 1 < s.len() && s[q + 1] == '\\') {
        lemma_alpha_end(s, q + 1);
        lemma_env_name(s, alpha_end(s, q + 1));
    }
}


// ---------------------------------------------------------------------------
// The parser, as mutually recursive spec functions
// ---------------------------------------------------------------------------

/// The superscript node over `a`, if there is an argument.
pub open spec fn sup_of(a: Option<SpecNode>) -> Option<SpecNode> {
    match a {
        Some(x) => Some(SpecNode::Superscript { base: None, exp: Box::new(x) }),
        None => None,
    }
}

/// The subscript node over `a`, if there is an argument.
pub open spec fn sub_of(a: Option<SpecNode>) -> Option<SpecNode> {
    match a {
        Some(x) => Some(SpecNode::Subscript { base: None, sub: Box::new(x) }),
        None => None,
    }
}

/// An optional child, boxed.
pub open spec fn boxed(a: Option<SpecNode>) -> Option<Box<SpecNode>> {
    match a {
        Some(x) => Some(Box::new(x)),
        None => None,
    }
}

/// One node at position `p`: a command, a group, a script, a space or a single
/// character. A stray `}` is consumed and yields nothing.
pub open spec fn parse_node_at(s: Seq<char>, p: int) -> (Option<SpecNode>, int)
    decreases s.len() - p, 0int,
{
    if !(0 <= p < s.len()) {
        (None, p)
    } else {
        let c = s[p];
        if c == '\\' {
            parse_command_at(s, p + 1)
        } else if c == '{' {
            let (ch, q) = parse_group_at(s, p + 1);
            (Some(SpecNode::Group(ch)), q)
        } else if c == '}' {
            (None, p + 1)
        } else if c == '^' {
            let (a, q) = parse_arg_at(s, p + 1);
            (sup_of(a), q)
        } else if c == '_' {
            let (a, q) = parse_arg_at(s, p + 1);
            (sub_of(a), q)
        } else if c == ' ' || c == '\t' || c == '\n' || c == '\r' {
            (Some(SpecNode::Space(seq![' '])), p + 1)
        } else {
            (Some(SpecNode::Text(seq![c])), p + 1)
        }
    }
}

/// One argument after optional whitespace: a braced group, a command, or a
/// single character; nothing at the end of input.
pub open spec fn parse_arg_at(s: Seq<char>, p: int) -> (Option<SpecNode>, int)
    decreases s.len() - p, 0int,
{
    if !(0 <= p <= s.len()) {
        (None, p)
    } else {
        proof {
            lemma_ws_end(s, p);
        }
        let q = ws_end(s, p);
        if q >= s.len() {
            (None, q)
        } else if s[q] == '{' {
            let (ch, r) = parse_group_at(s, q + 1);
            (Some(SpecNode::Group(ch)), r)
        } else if s[q] == '\\' {
            parse_command_at(s, q + 1)
        } else {
            (Some(SpecNode::Text(seq![s[q]])), q + 1)
        }
    }
}

/// The nodes of a group up to its closing `}` (consumed) or the end of input,
/// with scripts attached.
pub open spec fn parse_group_at(s: Seq<char>, p: int) -> (Seq<SpecNode>, int)
    decreases s.len() - p, 2int,
{
    let (nodes, q) = group_loop(s, p, Seq::empty());
    (collapse(nodes), q)
}

/// The nodes from `q` up to a `}` (consumed) or the end of input, after `acc`.
pub open spec fn group_loop(s: Seq<char>, q: int, acc: Seq<SpecNode>) -> (Seq<SpecNode>, int)
    decreases s.len() - q, 1int,
{
    if !(0 <= q < s.len()) {
        (acc, q)
    } else if s[q] == '}' {
        (acc, q + 1)
    } else {
        let (n, r) = parse_node_at(s, q);
        if q < r <= s.len() {
            group_loop(s, r, push_opt(acc, n))
        } else {
            (push_opt(acc, n), r)
        }
    }
}

/// The nodes of a root index `[...]` up to `]` (consumed) or the end of input.
pub open spec fn index_loop(s: Seq<char>, q: int, acc: Seq<SpecNode>) -> (Seq<SpecNode>, int)
    decreases s.len() - q, 1int,
{
    if !(0 <= q < s.len()) {
        (acc, q)
    } else if s[q] == ']' {
        (acc, q + 1)
    } else {
        let (n, r) = parse_node_at(s, q);
        if q < r <= s.len() {
            index_loop(s, r, push_opt(acc, n))
        } else {
            (push_opt(acc, n), r)
        }
    }
}

/// Whether `\right` starts at `q`.
pub open spec fn right_at(s: Seq<char>, q: int) -> bool {
    s[q] == '\\' && s.subrange(q + 1, alpha_end(s, q + 1)) == "right"@
}

/// The body of `\left ... \right`, with scripts attached, and the position after
/// `\right` (or the end of input).
pub open spec fn parse_until_right_at(s: Seq<char>, p: int) -> (Seq<SpecNode>, int)
    decreases s.len() - p, 2int,
{
    let (nodes, q) = right_loop(s, p, Seq::empty());
    (collapse(nodes), q)
}

/// The nodes from `q` up to `\right` (consumed) or the end of input, after `acc`.
pub open spec fn right_loop(s: Seq<char>, q: int, acc: Seq<SpecNode>) -> (Seq<SpecNode>, int)
    decreases s.len() - q, 1int,
{
    if !(0 <= q < s.len()) {
        (acc, q)
    } else if right_at(s, q) {
        (acc, alpha_end(s, q + 1))
    } else {
        let (n, r) = parse_node_at(s, q);
        if q < r <= s.len() {
            right_loop(s, r, push_opt(acc, n))
        } else {
            (push_opt(acc, n), r)
        }
    }
}

/// The body of environment `env` up to its `\end{env}` (or the end of input).
pub open spec fn parse_env_at(s: Seq<char>, p: int, env: Seq<char>) -> (Option<SpecNode>, int)
    decreases s.len() - p, 2int,
{
    let (rows, q) = env_loop(s, p, env, Seq::empty(), Seq::empty(), Seq::empty());
    (Some(SpecNode::Matrix { kind: env_kind(env), rows }), q)
}

/// The rows of an environment body from `q`, given the rows, row and cell so far:
/// `\\` ends a row, `&` ends a cell.
pub open spec fn env_loop(
    s: Seq<char>,
    q: int,
    env: Seq<char>,
    rows: Seq<Seq<Seq<SpecNode>>>,
    row: Seq<Seq<SpecNode>>,
    cell: Seq<SpecNode>,
) -> (Seq<Seq<Seq<SpecNode>>>, int)
    decreases s.len() - q, 1int,
{
    if !(0 <= q < s.len()) {
        (finish_rows(rows, row, cell), q)
    } else {
        proof {
            lemma_env_mark(s, q, env);
        }
        match env_mark(s, q, env) {
            EnvMark::RowBreak => env_loop(
                s,
                q + 2,
                env,
                rows.push(row.push(cell)),
                Seq::empty(),
                Seq::empty(),
            ),
            EnvMark::End(r) => (finish_rows(rows, row, cell), r),
            EnvMark::Rest(r) => {
                if r < s.len() && s[r] == '&' {
                    env_loop(s, r + 1, env, rows, row.push(cell), Seq::empty())
                } else {
                    let (n, r2) = parse_node_at(s, r);
                    if q < r2 <= s.len() {
                        env_loop(s, r2, env, rows, row, push_opt(cell, n))
                    } else {
                        (finish_rows(rows, row, push_opt(cell, n)), r2)
                    }
                }
            },
        }
    }
}

/// A command whose name starts at `p` (just after its backslash).
pub open spec fn parse_command_at(s: Seq<char>, p: int) -> (Option<SpecNode>, int)
    decreases s.len() - p, 0int,
{
    if !(0 <= p < s.len()) {
        (Some(command_symbol(Seq::empty())), p)
    } else {
        proof {
            lemma_name_end(s, p);
        }
        let q = name_end(s, p);
        let name = s.subrange(p, q);
        if name == "frac"@ || name == "dfrac"@ || name == "tfrac"@ {
            let (a, q1) = parse_arg_at(s, q);
            if p < q1 <= s.len() {
                let (b, q2) = parse_arg_at(s, q1);
                (
                    Some(
                        SpecNode::Frac {
                            num: Box::new(or_empty(a)),
                            den: Box::new(or_empty(b)),
                        },
                    ),
                    q2,
                )
            } else {
                (None, q1)
            }
        } else if name == "sqrt"@ {
            proof {
                lemma_ws_end(s, q);
            }
            let q1 = ws_end(s, q);
            if q1 < s.len() && s[q1] == '[' {
                let (idx, q2) = index_loop(s, q1 + 1, Seq::empty());
                if p < q2 <= s.len() {
                    let (r, q3) = parse_arg_at(s, q2);
                    (
                        Some(
                            SpecNode::Sqrt {
                                index: Some(Box::new(SpecNode::Group(idx))),
                                radicand: Box::new(or_empty(r)),
                            },
                        ),
                        q3,
                    )
                } else {
                    (None, q2)
                }
            } else {
                let (r, q3) = parse_arg_at(s, q1);
                (Some(SpecNode::Sqrt { index: None, radicand: Box::new(or_empty(r)) }), q3)
            }
        } else if name == "binom"@ || name == "tbinom"@ || name == "dbinom"@ {
            let (a, q1) = parse_arg_at(s, q);
            if p < q1 <= s.len() {
                let (b, q2) = parse_arg_at(s, q1);
                (
                    Some(SpecNode::Binom { n: Box::new(or_empty(a)), k: Box::new(or_empty(b)) }),
                    q2,
                )
            } else {
                (None, q1)
            }
        } else if name == "boxed"@ {
            let (a, q1) = parse_arg_at(s, q);
            (Some(SpecNode::Boxed(Box::new(or_empty(a)))), q1)
        } else if name == "vec"@ || name == "hat"@ || name == "widehat"@ || name == "bar"@
            || name == "dot"@ || name == "ddot"@ || name == "tilde"@ || name == "widetilde"@ {
            match accent_of(name) {
                Some(acc) => {
                    let (a, q1) = parse_arg_at(s, q);
                    (Some(SpecNode::Accent { accent: acc, base: Box::new(or_empty(a)) }), q1)
                },
                None => (Some(SpecNode::Text(name)), q),
            }
        } else if name == "mathbb"@ {
            let (a, q1) = parse_arg_at(s, q);
            (Some(restyle(or_empty(a), Font::DoubleStruck)), q1)
        } else if name == "mathcal"@ {
            let (a, q1) = parse_arg_at(s, q);
            (Some(restyle(or_empty(a), Font::Script)), q1)
        } else if name == "mathfrak"@ {
            let (a, q1) = parse_arg_at(s, q);
            (Some(restyle(or_empty(a), Font::Fraktur)), q1)
        } else if name == "text"@ || name == "mathrm"@ || name == "mathit"@ || name == "mathbf"@
            || name == "operatorname"@ {
            let (a, q1) = parse_arg_at(s, q);
            (Some(or_empty(a)), q1)
        } else if name == "left"@ {
            proof {
                lemma_delimiter(s, q);
            }
            let (l, q1) = delimiter(s, q);
            let (body, q2) = parse_until_right_at(s, q1);
            let (r, q3) = delimiter(s, q2);
            (Some(SpecNode::Delimited { left: l, body, right: r }), q3)
        } else if name == "begin"@ {
            proof {
                lemma_env_name(s, q);
            }
            let (env, q1) = env_name(s, q);
            parse_env_at(s, q1, env)
        } else if name == "overline"@ {
            let (a, q1) = parse_arg_at(s, q);
            (Some(SpecNode::Overline(Box::new(or_empty(a)))), q1)
        } else if name == "underline"@ {
            let (a, q1) = parse_arg_at(s, q);
            (Some(SpecNode::Underline(Box::new(or_empty(a)))), q1)
        } else if name == "underbrace"@ || name == "overbrace"@ {
            let under = name == "underbrace"@;
            let (a, q1) = parse_arg_at(s, q);
            let body = Box::new(or_empty(a));
            if p < q1 <= s.len() {
                proof {
                    lemma_ws_end(s, q1);
                }
                let q2 = ws_end(s, q1);
                let mark = if under { '_' } else { '^' };
                let (label, q3) = if q2 < s.len() && s[q2] == mark {
                    let (l, q3) = parse_arg_at(s, q2 + 1);
                    (boxed(l), q3)
                } else {
                    (None, q1)
                };
                if under {
                    (Some(SpecNode::Underbrace { body, label }), q3)
                } else {
                    (Some(SpecNode::Overbrace { body, label }), q3)
                }
            } else {
                (None, q1)
            }
        } else {
            (Some(command_symbol(name)), q)
        }
    }
}

/// The nodes from `q` to the end of input, after `acc`.
pub open spec fn top_loop(s: Seq<char>, q: int, acc: Seq<SpecNode>) -> (Seq<SpecNode>, int)
    decreases s.len() - q,
{
    if !(0 <= q < s.len()) {
        (acc, q)
    } else {
        let (n, r) = parse_node_at(s, q);
        if q < r <= s.len() {
            top_loop(s, r, push_opt(acc, n))
        } else {
            (push_opt(acc, n), r)
        }
    }
}

/// The tree of a whole formula: its nodes, with scripts attached.
pub open spec fn parse_formula(s: Seq<char>) -> Seq<SpecNode> {
    collapse(top_loop(s, 0, Seq::empty()).0)
}


// ---------------------------------------------------------------------------
// Every parsing step stays within the input, and a node consumes input
// ---------------------------------------------------------------------------

pub proof fn lemma_node_pos(s: Seq<char>, p: int)
    requires
        0 <= p <= s.len(),
    ensures
        p <= parse_node_at(s, p).1 <= s.len(),
        p < s.len() ==> p < parse_node_at(s, p).1,
    decreases s.len() - p, 0int,
{
    if p < s.len() {
        let c = s[p];
        if c == '\\' {
            lemma_command_pos(s, p + 1);
        } else if c == '{' {
            lemma_group_pos(s, p + 1);
        } else if c == '^' || c == '_' {
            lemma_arg_pos(s, p + 1);
        }
    }
}

pub proof fn lemma_arg_pos(s: Seq<char>, p: int)
    requires
        0 <= p <= s.len(),
    ensures
        p <= parse_arg_at(s, p).1 <= s.len(),
    decreases s.len() - p, 0int,
{
    lemma_ws_end(s, p);
    let q = ws_end(s, p);
    if q < s.len() {
        if s[q] == '{' {
            lemma_group_pos(s, q + 1);
        } else if s[q] == '\\' {
            lemma_command_pos(s, q + 1);
        }
    }
}

pub proof fn lemma_group_pos(s: Seq<char>, p: int)
    requires
        0 <= p <= s.len(),
    ensures
        p <= parse_group_at(s, p).1 <= s.len(),
    decreases s.len() - p, 2int,
{
    lemma_group_loop_pos(s, p, Seq::empty());
}

pub proof fn lemma_group_loop_pos(s: Seq<char>, q: int, acc: Seq<SpecNode>)
    requires
        0 <= q <= s.len(),
    ensures
        q <= group_loop(s, q, acc).1 <= s.len(),
    decreases s.len() - q, 1int,
{
    if q < s.len() && s[q] != '}' {
        lemma_node_pos(s, q);
        let (n, r) = parse_node_at(s, q);
        lemma_group_loop_pos(s, r, push_opt(acc, n));
    }
}

pub proof fn lemma_index_loop_pos(s: Seq<char>, q: int, acc: Seq<SpecNode>)
    requires
        0 <= q <= s.len(),
    ensures
        q <= index_loop(s, q, acc).1 <= s.len(),
    decreases s.len() - q, 1int,
{
    if q < s.len() && s[q] != ']' {
        lemma_node_pos(s, q);
        let (n, r) = parse_node_at(s, q);
        lemma_index_loop_pos(s, r, push_opt(acc, n));
    }
}

pub proof fn lemma_until_right_pos(s: Seq<char>, p: int)
    requires
        0 <= p <= s.len(),
    ensures
        p <= parse_until_right_at(s, p).1 <= s.len(),
    decreases s.len() - p, 2int,
{
    lemma_right_loop_pos(s, p, Seq::empty());
}

pub proof fn lemma_right_loop_pos(s: Seq<char>, q: int, acc: Seq<SpecNode>)
    requires
        0 <= q <= s.len(),
    ensures
        q <= right_loop(s, q, acc).1 <= s.len(),
    decreases s.len() - q, 1int,
{
    if q < s.len() {
        if right_at(s, q) {
            lemma_alpha_end(s, q + 1);
        } else {
            lemma_node_pos(s, q);
            let (n, r) = parse_node_at(s, q);
            lemma_right_loop_pos(s, r, push_opt(acc, n));
        }
    }
}

pub proof fn lemma_env_pos(s: Seq<char>, p: int, env: Seq<char>)
    requires
        0 <= p <= s.len(),
    ensures
        p <= parse_env_at(s, p, env).1 <= s.len(),
        parse_env_at(s, p, env).0 is Some,
    decreases s.len() - p, 2int,
{
    lemma_env_loop_pos(s, p, env, Seq::empty(), Seq::empty(), Seq::empty());
}

pub proof fn lemma_env_loop_pos(
    s: Seq<char>,
    q: int,
    env: Seq<char>,
    rows: Seq<Seq<Seq<SpecNode>>>,
    row: Seq<Seq<SpecNode>>,
    cell: Seq<SpecNode>,
)
    requires
        0 <= q <= s.len(),
    ensures
        q <= env_loop(s, q, env, rows, row, cell).1 <= s.len(),
    decreases s.len() - q, 1int,
{
    if q < s.len() {
        lemma_env_mark(s, q, env);
        match env_mark(s, q, env) {
            EnvMark::RowBreak => {
                lemma_env_loop_pos(
                    s,
                    q + 2,
                    env,
                    rows.push(row.push(cell)),
                    Seq::empty(),
                    Seq::empty(),
                );
            },
            EnvMark::End(r) => {},
            EnvMark::Rest(r) => {
                if r < s.len() && s[r] == '&' {
                    lemma_env_loop_pos(s, r + 1, env, rows, row.push(cell), Seq::empty());
                } else {
                    lemma_node_pos(s, r);
                    let (n, r2) = parse_node_at(s, r);
                    if q < r2 <= s.len() {
                        lemma_env_loop_pos(s, r2, env, rows, row, push_opt(cell, n));
                    }
                }
            },
        }
    }
}

pub proof fn lemma_command_pos(s: Seq<char>, p: int)
    requires
        0 <= p <= s.len(),
    ensures
        p <= parse_command_at(s, p).1 <= s.len(),
    decreases s.len() - p, 0int,
{
    if p < s.len() {
        lemma_name_end(s, p);
        let q = name_end(s, p);
        let name = s.subrange(p, q);
        if name == "frac"@ || name == "dfrac"@ || name == "tfrac"@ {
            lemma_arg_pos(s, q);
            lemma_arg_pos(s, parse_arg_at(s, q).1);
        } else if name == "sqrt"@ {
            lemma_ws_end(s, q);
            let q1 = ws_end(s, q);
            if q1 < s.len() && s[q1] == '[' {
                lemma_index_loop_pos(s, q1 + 1, Seq::empty());
                lemma_arg_pos(s, index_loop(s, q1 + 1, Seq::empty()).1);
            } else {
                lemma_arg_pos(s, q1);
            }
        } else if name == "binom"@ || name == "tbinom"@ || name == "dbinom"@ {
            lemma_arg_pos(s, q);
            lemma_arg_pos(s, parse_arg_at(s, q).1);
        } else if name == "boxed"@ {
            lemma_arg_pos(s, q);
        } else if name == "vec"@ || name == "hat"@ || name == "widehat"@ || name == "bar"@
            || name == "dot"@ || name == "ddot"@ || name == "tilde"@ || name == "widetilde"@ {
            lemma_arg_pos(s, q);
        } else if name == "mathbb"@ || name == "mathcal"@ || name == "mathfrak"@ {
            lemma_arg_pos(s, q);
        } else if name == "text"@ || name == "mathrm"@ || name == "mathit"@ || name == "mathbf"@
            || name == "operatorname"@ {
            lemma_arg_pos(s, q);
        } else if name == "left"@ {
            lemma_delimiter(s, q);
            let q1 = delimiter(s, q).1;
            lemma_until_right_pos(s, q1);
            lemma_delimiter(s, parse_until_right_at(s, q1).1);
        } else if name == "begin"@ {
            lemma_env_name(s, q);
            let (env, q1) = env_name(s, q);
            lemma_env_pos(s, q1, env);
        } else if name == "overline"@ || name == "underline"@ {
            lemma_arg_pos(s, q);
        } else if name == "underbrace"@ || name == "overbrace"@ {
            lemma_arg_pos(s, q);
            let q1 = parse_arg_at(s, q).1;
            lemma_ws_end(s, q1);
            let q2 = ws_end(s, q1);
            if q2 < s.len() {
                lemma_arg_pos(s, q2 + 1);
            }
        }
    }
}

/// Whitespace before an argument may be skipped first.
pub proof fn lemma_arg_after_ws(s: Seq<char>, p: int)
    requires
        0 <= p <= s.len(),
    ensures
        parse_arg_at(s, ws_end(s, p)) == parse_arg_at(s, p),
{
    lemma_ws_end(s, p);
    lemma_ws_end(s, ws_end(s, p));
}

pub proof fn lemma_top_loop_pos(s: Seq<char>, q: int, acc: Seq<SpecNode>)
    requires
        0 <= q <= s.len(),
    ensures
        top_loop(s, q, acc).1 == s.len(),
    decreases s.len() - q,
{
    if q < s.len() {
        lemma_node_pos(s, q);
        let (n, r) = parse_node_at(s, q);
        lemma_top_loop_pos(s, r, push_opt(acc, n));
    }
}

} // verus!
