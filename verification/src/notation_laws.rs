//! What each notation renders to: the bracket characters of matrices, the
//! bracket kind chosen by an environment name, when fraction sides and
//! radicands take parentheses, how scripts are written, and how each node
//! is laid out inline around its parts.

use vstd::prelude::*;
use crate::ast::{MatrixKind, SpecNode};
use crate::grammar::{
    alpha_end, close_brace_at, env_kind, env_name, lemma_arg_pos, lemma_index_loop_pos,
    lemma_name_end, lemma_ws_end, name_end, parse_arg_at, parse_command_at, parse_env_at, ws_end,
};
use crate::laws::{lemma_trim_end_keeps, matrix_rows};
use crate::layout::{
    binom_2d, block, brace_2d, first_matrix, frac_2d, has_brace, matrix_2d, with_braces, brace_bar, centered, col_width, frac_side, grid, imax, inline_cells,
    inline_list, inline_of, inline_rows, label_text, padded_cell, row_brackets, row_content,
    to_sub, to_sup,
};
use crate::symbols::{accent_of, font_char, subscript_char, superscript_char, Font};
use crate::text::{is_alphabetic, is_white_space, repeat_char, trim, trim_end};

verus! {

// ---------------------------------------------------------------------------
// Matrix brackets
// ---------------------------------------------------------------------------

/// The character that opens line `r` of a display matrix of `n` rows, after
/// the two-space indent: plain brackets for one row, and for more rows the
/// top, middle or bottom piece of a tall bracket — parentheses for
/// `pmatrix`, square brackets for `bmatrix`, braces for `Bmatrix` and
/// `cases`, a single bar for `vmatrix` (a determinant), a double bar for
/// `Vmatrix` (a norm).
pub open spec fn opening_char(kind: MatrixKind, r: int, n: int) -> char {
    if n == 1 {
        match kind {
            MatrixKind::Paren => '(',
            MatrixKind::Bracket => '[',
            MatrixKind::Brace => '{',
            MatrixKind::Vbar => '|',
            MatrixKind::VVbar => '‖',
            _ => ' ',
        }
    } else {
        match kind {
            MatrixKind::Paren => if r == 0 {
                '⎛'
            } else if r == n - 1 {
                '⎝'
            } else {
                '⎜'
            },
            MatrixKind::Bracket => if r == 0 {
                '⎡'
            } else if r == n - 1 {
                '⎣'
            } else {
                '⎢'
            },
            MatrixKind::Brace | MatrixKind::Cases => if r == 0 {
                '⎧'
            } else if r == n - 1 {
                '⎩'
            } else {
                '⎨'
            },
            MatrixKind::Vbar => '│',
            MatrixKind::VVbar => '║',
            MatrixKind::Plain => ' ',
        }
    }
}

/// The character that closes line `r` of a display matrix of `n` rows (a
/// `cases` block has none).
pub open spec fn closing_char(kind: MatrixKind, r: int, n: int) -> char {
    if n == 1 {
        match kind {
            MatrixKind::Paren => ')',
            MatrixKind::Bracket => ']',
            MatrixKind::Brace => '}',
            MatrixKind::Vbar => '|',
            MatrixKind::VVbar => '‖',
            _ => ' ',
        }
    } else {
        match kind {
            MatrixKind::Paren => if r == 0 {
                '⎞'
            } else if r == n - 1 {
                '⎠'
            } else {
                '⎟'
            },
            MatrixKind::Bracket => if r == 0 {
                '⎤'
            } else if r == n - 1 {
                '⎦'
            } else {
                '⎥'
            },
            MatrixKind::Brace => if r == 0 {
                '⎫'
            } else if r == n - 1 {
                '⎭'
            } else {
                '⎬'
            },
            MatrixKind::Vbar => '│',
            MatrixKind::VVbar => '║',
            _ => ' ',
        }
    }
}

proof fn lemma_bracket_pieces(kind: MatrixKind, r: int, n: int)
    requires
        n >= 1,
        !(kind is Plain),
        !(kind is Cases && n == 1),
    ensures
        row_brackets(kind, r, n).0 == seq![opening_char(kind, r, n)],
        !(kind is Cases) ==> row_brackets(kind, r, n).1 == seq![closing_char(kind, r, n)],
        !is_white_space(opening_char(kind, r, n)),
        !is_white_space(closing_char(kind, r, n)) || kind is Cases,
{
    reveal_strlit("(");
    reveal_strlit(")");
    reveal_strlit("[");
    reveal_strlit("]");
    reveal_strlit("{");
    reveal_strlit("}");
    reveal_strlit("|");
    reveal_strlit("‖");
    reveal_strlit("⎛");
    reveal_strlit("⎜");
    reveal_strlit("⎝");
    reveal_strlit("⎞");
    reveal_strlit("⎟");
    reveal_strlit("⎠");
    reveal_strlit("⎡");
    reveal_strlit("⎢");
    reveal_strlit("⎣");
    reveal_strlit("⎤");
    reveal_strlit("⎥");
    reveal_strlit("⎦");
    reveal_strlit("⎧");
    reveal_strlit("⎨");
    reveal_strlit("⎩");
    reveal_strlit("⎫");
    reveal_strlit("⎬");
    reveal_strlit("⎭");
    reveal_strlit("│");
    reveal_strlit("║");
}

/// Each line of a display matrix starts with two spaces and the opening
/// bracket character of its row, and ends with the closing one: for a
/// `Vmatrix` every line is framed by double bars `║ … ║`, for a `vmatrix` by
/// single bars `│ … │`, for a `pmatrix` of three rows or more the lines open
/// with `⎛`, then `⎜`, then `⎝`.
pub proof fn law_matrix_line_brackets(kind: MatrixKind, rows: Seq<Seq<Seq<SpecNode>>>, r: int)
    requires
        0 <= r < rows.len(),
        !(kind is Plain),
        !(kind is Cases && rows.len() == 1),
    ensures
        ({
            let line = matrix_rows(kind, rows)[r];
            &&& line.len() >= 3
            &&& line[0] == ' ' && line[1] == ' '
            &&& line[2] == opening_char(kind, r, rows.len() as int)
            &&& !(kind is Cases) ==> line[line.len() - 1] == closing_char(
                kind,
                r,
                rows.len() as int,
            )
        }),
{
    let g = grid(rows);
    let n = rows.len() as int;
    lemma_bracket_pieces(kind, r, n);
    let (left, right) = row_brackets(kind, r, n);
    let x = "  "@ + left + " "@ + row_content(g, g[r], g[r].len() as int) + " "@ + right;
    reveal_strlit("  ");
    reveal_strlit(" ");
    assert(x[0] == ' ' && x[1] == ' ');
    assert(x[2] == left[0]);
    lemma_trim_end_keeps(x, 2);
    let line = trim_end(x);
    assert(line == matrix_rows(kind, rows)[r]);
    assert(line.take(3)[0] == x.take(3)[0]);
    assert(line.take(3)[1] == x.take(3)[1]);
    assert(line.take(3)[2] == x.take(3)[2]);
    if !(kind is Cases) {
        assert(x[x.len() - 1] == right[0]);
        assert(trim_end(x) == x);
    }
}

/// An inline matrix is framed by the plain brackets of its kind: `( … )`,
/// `[ … ]`, `{ … }`, `| … |`, `‖ … ‖`, and a lone `{` before the rows of
/// `cases`.
pub proof fn law_inline_matrix_brackets(kind: MatrixKind, rows: Seq<Seq<Seq<SpecNode>>>)
    ensures
        ({
            let t = inline_of(SpecNode::Matrix { kind, rows });
            let body = inline_rows(rows);
            match kind {
                MatrixKind::Plain => t == body,
                MatrixKind::Paren => t == seq!['('] + body + seq![')'],
                MatrixKind::Bracket => t == seq!['['] + body + seq![']'],
                MatrixKind::Brace => t == seq!['{'] + body + seq!['}'],
                MatrixKind::Vbar => t == seq!['|'] + body + seq!['|'],
                MatrixKind::VVbar => t == seq!['‖'] + body + seq!['‖'],
                MatrixKind::Cases => t == seq!['{'] + body,
            }
        }),
{
    reveal_strlit("(");
    reveal_strlit(")");
    reveal_strlit("[");
    reveal_strlit("]");
    reveal_strlit("{");
    reveal_strlit("}");
    reveal_strlit("|");
    reveal_strlit("‖");
    reveal_strlit("");
    let body = inline_rows(rows);
    assert(Seq::<char>::empty() + body + Seq::<char>::empty() == body);
    assert(seq!['{'] + body + Seq::<char>::empty() == seq!['{'] + body);
}

// ---------------------------------------------------------------------------
// Environments
// ---------------------------------------------------------------------------

/// The environment name decides the bracket kind, one name per kind:
/// `pmatrix` parentheses, `bmatrix` square brackets, `Bmatrix` braces,
/// `vmatrix` single bars, `Vmatrix` double bars, `cases` a left brace; every
/// other name (such as `matrix` or `aligned`) has no brackets.
pub proof fn law_environment_kinds(name: Seq<char>)
    ensures
        env_kind(name) is Paren <==> name == seq!['p', 'm', 'a', 't', 'r', 'i', 'x'],
        env_kind(name) is Bracket <==> name == seq!['b', 'm', 'a', 't', 'r', 'i', 'x'],
        env_kind(name) is Brace <==> name == seq!['B', 'm', 'a', 't', 'r', 'i', 'x'],
        env_kind(name) is Vbar <==> name == seq!['v', 'm', 'a', 't', 'r', 'i', 'x'],
        env_kind(name) is VVbar <==> name == seq!['V', 'm', 'a', 't', 'r', 'i', 'x'],
        env_kind(name) is Cases <==> name == seq!['c', 'a', 's', 'e', 's'],
{
    reveal_strlit("pmatrix");
    reveal_strlit("bmatrix");
    reveal_strlit("Bmatrix");
    reveal_strlit("vmatrix");
    reveal_strlit("Vmatrix");
    reveal_strlit("cases");
    assert("pmatrix"@ == seq!['p', 'm', 'a', 't', 'r', 'i', 'x']);
    assert("bmatrix"@ == seq!['b', 'm', 'a', 't', 'r', 'i', 'x']);
    assert("Bmatrix"@ == seq!['B', 'm', 'a', 't', 'r', 'i', 'x']);
    assert("vmatrix"@ == seq!['v', 'm', 'a', 't', 'r', 'i', 'x']);
    assert("Vmatrix"@ == seq!['V', 'm', 'a', 't', 'r', 'i', 'x']);
    assert("cases"@ == seq!['c', 'a', 's', 'e', 's']);
}

proof fn lemma_close_brace_at(s: Seq<char>, j: int, k: int)
    requires
        0 <= j <= k < s.len(),
        s[k] == '}',
        forall|m: int| j <= m < k ==> #[trigger] s[m] != '}',
    ensures
        close_brace_at(s, j) == k,
    decreases k - j,
{
    if j < k {
        lemma_close_brace_at(s, j + 1, k);
    }
}

/// `\begin{env}` parses to a matrix whose bracket kind is the one the name
/// `env` decides (given the Unicode facts that the letters of `begin` are
/// alphabetic and `{` is not).
pub proof fn law_begin_environment(s: Seq<char>, p: int, env: Seq<char>)
    requires
        0 <= p,
        p + 7 + env.len() <= s.len(),
        s.subrange(p, p + 5) == seq!['b', 'e', 'g', 'i', 'n'],
        s[p + 5] == '{',
        s.subrange(p + 6, p + 6 + env.len()) == env,
        s[p + 6 + env.len()] == '}',
        forall|i: int| 0 <= i < env.len() ==> #[trigger] env[i] != '}',
        is_alphabetic('b') && is_alphabetic('e') && is_alphabetic('g') && is_alphabetic('i')
            && is_alphabetic('n'),
        !is_alphabetic('{'),
    ensures
        parse_command_at(s, p).0 matches Some(SpecNode::Matrix { kind, .. }) && kind == env_kind(
            env,
        ),
{
    assert(s[p] == 'b' && s[p + 1] == 'e' && s[p + 2] == 'g' && s[p + 3] == 'i' && s[p + 4] == 'n')
        by {
        assert(s.subrange(p, p + 5)[0] == s[p]);
        assert(s.subrange(p, p + 5)[1] == s[p + 1]);
        assert(s.subrange(p, p + 5)[2] == s[p + 2]);
        assert(s.subrange(p, p + 5)[3] == s[p + 3]);
        assert(s.subrange(p, p + 5)[4] == s[p + 4]);
    }
    assert(alpha_end(s, p + 5) == p + 5);
    assert(alpha_end(s, p + 4) == p + 5);
    assert(alpha_end(s, p + 3) == p + 5);
    assert(alpha_end(s, p + 2) == p + 5);
    assert(alpha_end(s, p + 1) == p + 5);
    assert(alpha_end(s, p) == p + 5);
    assert(name_end(s, p) == p + 5);
    reveal_strlit("begin");
    reveal_strlit("frac");
    reveal_strlit("dfrac");
    reveal_strlit("tfrac");
    reveal_strlit("sqrt");
    reveal_strlit("binom");
    reveal_strlit("tbinom");
    reveal_strlit("dbinom");
    reveal_strlit("boxed");
    reveal_strlit("vec");
    reveal_strlit("hat");
    reveal_strlit("widehat");
    reveal_strlit("bar");
    reveal_strlit("dot");
    reveal_strlit("ddot");
    reveal_strlit("tilde");
    reveal_strlit("widetilde");
    reveal_strlit("mathbb");
    reveal_strlit("mathcal");
    reveal_strlit("mathfrak");
    reveal_strlit("text");
    reveal_strlit("mathrm");
    reveal_strlit("mathit");
    reveal_strlit("mathbf");
    reveal_strlit("operatorname");
    reveal_strlit("left");
    assert("begin"@ == seq!['b', 'e', 'g', 'i', 'n']);
    assert(s.subrange(p, name_end(s, p)) == "begin"@);
    let q = p + 5;
    assert(ws_end(s, q) == q);
    let k = p + 6 + env.len();
    assert forall|m: int| q + 1 <= m < k implies #[trigger] s[m] != '}' by {
        assert(s.subrange(p + 6, k)[m - p - 6] == s[m]);
    }
    lemma_close_brace_at(s, q + 1, k);
    assert(env_name(s, q) == (env, k + 1));
}


// ---------------------------------------------------------------------------
// Parentheses around fraction sides and radicands
// ---------------------------------------------------------------------------

/// A character that makes a rendered expression need parentheses: a space,
/// `+`, `-`, `=`, `/`, `·`, `×`, and (for fraction sides, where `√a/b` would
/// read as a root over `a/b`) the root sign.
pub open spec fn operator_char(c: char, root_sign: bool) -> bool {
    ||| c == ' '
    ||| c == '+'
    ||| c == '-'
    ||| c == '='
    ||| c == '/'
    ||| c == '·'
    ||| c == '×'
    ||| root_sign && c == '√'
}

/// Some character of `x`, once trimmed, is an operator character.
pub open spec fn has_operator(x: Seq<char>, root_sign: bool) -> bool {
    exists|i: int| 0 <= i < trim(x).len() && #[trigger] operator_char(trim(x)[i], root_sign)
}

proof fn lemma_compound_is_operator(x: Seq<char>, root_sign: bool)
    ensures
        crate::layout::compound(x, root_sign) == has_operator(x, root_sign),
{
    let t = trim(x);
    if has_operator(x, root_sign) {
        let i = choose|i: int| 0 <= i < t.len() && #[trigger] operator_char(t[i], root_sign);
        assert(crate::layout::compound_char(t[i], root_sign));
    }
    if crate::layout::compound(x, root_sign) {
        let i = choose|i: int|
            0 <= i < t.len() && #[trigger] crate::layout::compound_char(t[i], root_sign);
        assert(operator_char(t[i], root_sign));
    }
}

/// A fraction side is put in parentheses exactly when it holds an operator
/// (or a root sign) and does not already start with a parenthesis: `a+b`
/// over `c` is `(a+b)/c`, a side that is itself a fraction `b/c` becomes
/// `(b/c)`, while `p²` stays bare.
pub proof fn law_fraction_side(x: Seq<char>)
    ensures
        frac_side(x) == if has_operator(x, true) && !(x.len() > 0 && x[0] == '(') {
            seq!['('] + x + seq![')']
        } else {
            x
        },
{
    lemma_compound_is_operator(x, true);
    reveal_strlit("(");
    reveal_strlit(")");
}

proof fn lemma_lead_ws_white(x: Seq<char>, k: int)
    requires
        0 <= k < crate::text::lead_ws(x),
    ensures
        is_white_space(x[k]),
    decreases x.len(),
{
    crate::text::lemma_trim_start(x);
    if k > 0 {
        lemma_lead_ws_white(x.drop_first(), k - 1);
        assert(x.drop_first()[k - 1] == x[k]);
    }
}

/// A non-whitespace character of `x` is kept by trimming.
proof fn lemma_trim_keeps(x: Seq<char>, k: int)
    requires
        0 <= k < x.len(),
        !is_white_space(x[k]),
    ensures
        exists|i: int| 0 <= i < trim(x).len() && trim(x)[i] == x[k],
{
    crate::text::lemma_trim_start(x);
    let lead = crate::text::lead_ws(x) as int;
    let u = crate::text::trim_start(x);
    assert(lead <= k) by {
        if lead > k {
            assert(u == x.skip(lead));
            lemma_lead_ws_white(x, k);
        }
    }
    assert(u[k - lead] == x[k]);
    lemma_trim_end_keeps(u, k - lead);
    assert(trim(x) == trim_end(u));
    assert(trim_end(u).take(k - lead + 1)[k - lead] == u[k - lead]);
    assert(trim(x)[k - lead] == x[k]);
}

/// A fraction whose denominator is itself a fraction puts that denominator in
/// parentheses (unless its rendering already starts with one): `a/(b/c)`,
/// never `a/b/c`, which would read as `(a/b)/c`.
pub proof fn law_nested_fraction_denominator(a: SpecNode, b: SpecNode, c: SpecNode)
    requires
        !(inline_of(SpecNode::Frac { num: Box::new(b), den: Box::new(c) }).len() > 0 && inline_of(
            SpecNode::Frac { num: Box::new(b), den: Box::new(c) },
        )[0] == '('),
    ensures
        ({
            let inner = inline_of(SpecNode::Frac { num: Box::new(b), den: Box::new(c) });
            inline_of(SpecNode::Frac { num: Box::new(a), den: Box::new(SpecNode::Frac { num: Box::new(b), den: Box::new(c) }) })
                == frac_side(inline_of(a)) + seq!['/'] + (seq!['('] + inner + seq![')'])
        }),
{
    let inner = inline_of(SpecNode::Frac { num: Box::new(b), den: Box::new(c) });
    reveal_strlit("/");
    let k = frac_side(inline_of(b)).len() as int;
    assert(inner == frac_side(inline_of(b)) + seq!['/'] + frac_side(inline_of(c)));
    assert(inner[k] == '/');
    lemma_trim_keeps(inner, k);
    let i = choose|i: int| 0 <= i < trim(inner).len() && trim(inner)[i] == inner[k];
    assert(operator_char(trim(inner)[i], true));
    law_fraction_side(inner);
}

/// A radicand is put in parentheses exactly when it holds an operator (a root
/// sign alone does not count: `√√x`, but `√(a + b)`), and an index goes
/// before the root sign as a superscript.
pub proof fn law_root_layout(index: Option<Box<SpecNode>>, radicand: SpecNode)
    ensures
        ({
            let r = inline_of(radicand);
            let rf = if has_operator(r, false) {
                seq!['('] + r + seq![')']
            } else {
                r
            };
            inline_of(SpecNode::Sqrt { index, radicand: Box::new(radicand) }) == match index {
                Some(i) => to_sup(inline_of(*i)) + seq!['√'] + rf,
                None => seq!['√'] + rf,
            }
        }),
{
    lemma_compound_is_operator(inline_of(radicand), false);
    reveal_strlit("(");
    reveal_strlit(")");
    reveal_strlit("√");
}


// ---------------------------------------------------------------------------
// Scripts
// ---------------------------------------------------------------------------

/// `s` reads as a phrase (it holds a space or an arrow), so a subscript of it
/// is converted whole or not at all.
pub open spec fn phrase(s: Seq<char>) -> bool {
    exists|i: int|
        0 <= i < s.len() && (#[trigger] s[i] == ' ' || s[i] == '→' || s[i] == '←' || s[i] == '⟶')
}

/// Subscript text: each character in its subscript form where it has one and
/// as it stands otherwise, when every character has a form, or when some has
/// one and the text is not a phrase; else the whole text as `_(…)`.
/// Infinity, alone or signed, keeps a readable form instead.
pub proof fn law_subscript_text(s: Seq<char>)
    requires
        s != seq!['∞'],
        s != seq!['+', '∞'],
        s != seq!['-', '∞'],
    ensures
        to_sub(s) == if (forall|i: int| 0 <= i < s.len() ==> (#[trigger] subscript_char(s[i])) is Some)
            || (!phrase(s) && exists|i: int| 0 <= i < s.len() && (#[trigger] subscript_char(s[i])) is Some) {
            Seq::new(
                s.len(),
                |i: int|
                    match subscript_char(s[i]) {
                        Some(x) => x,
                        None => s[i],
                    },
            )
        } else {
            seq!['_', '('] + s + seq![')']
        },
{
    reveal_strlit("∞");
    reveal_strlit("+∞");
    reveal_strlit("-∞");
    reveal_strlit("_(");
    reveal_strlit(")");
    assert("∞"@ == seq!['∞']);
    assert("+∞"@ == seq!['+', '∞']);
    assert("-∞"@ == seq!['-', '∞']);
    if phrase(s) {
        let i = choose|i: int|
            0 <= i < s.len() && (#[trigger] s[i] == ' ' || s[i] == '→' || s[i] == '←' || s[i]
                == '⟶');
        assert(s.contains(s[i]));
    }
    if s.contains(' ') || s.contains('→') || s.contains('←') || s.contains('⟶') {
        assert(phrase(s));
    }
}

/// Infinity as a script keeps a readable form: `^∞` and `_∞`, and a signed
/// infinity puts the script form of its sign first — `₋_∞` under an integral
/// from −∞, never the unsigned `_∞`.
pub proof fn law_infinity_scripts()
    ensures
        to_sup(seq!['∞']) == seq!['^', '∞'],
        to_sub(seq!['∞']) == seq!['_', '∞'],
        superscript_char('+') == Some('⁺') && superscript_char('-') == Some('⁻'),
        subscript_char('+') == Some('₊') && subscript_char('-') == Some('₋'),
        to_sup(seq!['+', '∞']) == seq![superscript_char('+')->0] + to_sup(seq!['∞']),
        to_sup(seq!['-', '∞']) == seq![superscript_char('-')->0] + to_sup(seq!['∞']),
        to_sub(seq!['+', '∞']) == seq![subscript_char('+')->0] + to_sub(seq!['∞']),
        to_sub(seq!['-', '∞']) == seq![subscript_char('-')->0] + to_sub(seq!['∞']),
{
    reveal_strlit("∞");
    reveal_strlit("+∞");
    reveal_strlit("-∞");
    reveal_strlit("^∞");
    reveal_strlit("_∞");
    reveal_strlit("⁺^∞");
    reveal_strlit("⁻^∞");
    reveal_strlit("₊_∞");
    reveal_strlit("₋_∞");
    assert("∞"@ == seq!['∞']);
    assert("+∞"@ == seq!['+', '∞']);
    assert("-∞"@ == seq!['-', '∞']);
    assert(seq!['⁺'] + seq!['^', '∞'] == seq!['⁺', '^', '∞']);
    assert(seq!['⁻'] + seq!['^', '∞'] == seq!['⁻', '^', '∞']);
    assert(seq!['₊'] + seq!['_', '∞'] == seq!['₊', '_', '∞']);
    assert(seq!['₋'] + seq!['_', '∞'] == seq!['₋', '_', '∞']);
}

// ---------------------------------------------------------------------------
// Inline layout of each node around its parts
// ---------------------------------------------------------------------------

/// The rendering of an optional base (nothing when there is none).
pub open spec fn base_text(base: Option<Box<SpecNode>>) -> Seq<char> {
    match base {
        Some(x) => inline_of(*x),
        None => Seq::empty(),
    }
}

/// How each node is laid out inline around the renderings of its parts: a
/// delimited group is its left delimiter, its body and its right delimiter;
/// a box is `| … |`; a binomial `C(n, k)`; a fraction its two sides around
/// `/`; scripts follow their base; an accent combines with the first
/// character of its base; an underbrace puts `⏟` and its label as a
/// subscript after the body, an overbrace `⏞` and its label as a superscript.
pub proof fn law_inline_node_layout(n: SpecNode)
    ensures
        match n {
            SpecNode::Text(t) => inline_of(n) == t,
            SpecNode::Symbol(t) => inline_of(n) == t,
            SpecNode::Space(t) => inline_of(n) == t,
            SpecNode::Group(ch) => inline_of(n) == inline_list(ch),
            SpecNode::Delimited { left, body, right } => inline_of(n) == left + inline_list(body)
                + right,
            SpecNode::Superscript { base, exp } => inline_of(n) == base_text(base) + to_sup(
                inline_of(*exp),
            ),
            SpecNode::Subscript { base, sub } => inline_of(n) == base_text(base) + to_sub(
                inline_of(*sub),
            ),
            SpecNode::SubSup { base, sub, exp } => inline_of(n) == base_text(base) + to_sub(
                inline_of(*sub),
            ) + to_sup(inline_of(*exp)),
            SpecNode::Frac { num, den } => inline_of(n) == frac_side(inline_of(*num)) + seq!['/']
                + frac_side(inline_of(*den)),
            SpecNode::Binom { n: a, k } => inline_of(n) == seq!['C', '('] + inline_of(*a) + seq![
                ',',
                ' ',
            ] + inline_of(*k) + seq![')'],
            SpecNode::Accent { accent, base } => inline_of(n) == if inline_of(*base).len() > 0 {
                seq![inline_of(*base)[0], accent] + inline_of(*base).skip(1)
            } else {
                seq![accent]
            },
            SpecNode::Boxed(i) => inline_of(n) == seq!['|', ' '] + inline_of(*i) + seq![' ', '|'],
            SpecNode::Overline(i) => inline_of(n) == seq!['¯', '('] + inline_of(*i) + seq![')', '¯'],
            SpecNode::Underline(i) => inline_of(n) == seq!['_', '('] + inline_of(*i) + seq![')', '_'],
            SpecNode::Underbrace { body, label } => inline_of(n) == inline_of(*body) + seq!['⏟']
                + match label {
                Some(l) => to_sub(inline_of(*l)),
                None => Seq::empty(),
            },
            SpecNode::Overbrace { body, label } => inline_of(n) == match label {
                Some(l) => inline_of(*body) + seq!['⏞'] + to_sup(inline_of(*l)),
                None => seq!['⏞'] + inline_of(*body),
            },
            _ => true,
        },
{
    reveal_strlit("/");
    reveal_strlit("C(");
    reveal_strlit(", ");
    reveal_strlit(")");
    reveal_strlit("| ");
    reveal_strlit(" |");
    reveal_strlit("¯(");
    reveal_strlit(")¯");
    reveal_strlit("_(");
    reveal_strlit(")_");
    reveal_strlit("⏟");
    reveal_strlit("⏞");
    match n {
        SpecNode::Superscript { base, exp } => {},
        SpecNode::Underbrace { body, label } => {
            if label is None {
                assert(inline_of(*body) + "⏟"@ + Seq::<char>::empty() == inline_of(*body) + "⏟"@);
            }
        },
        _ => {},
    }
}


// ---------------------------------------------------------------------------
// Whole matrix lines, separators, 2D blocks
// ---------------------------------------------------------------------------

/// The text before the cells of line `r` of a display matrix of `n` rows:
/// the opening bracket character, a blank for `matrix` of several rows, and
/// nothing for a single-row `matrix` or `cases`.
pub open spec fn left_text(kind: MatrixKind, r: int, n: int) -> Seq<char> {
    if kind is Plain {
        if n == 1 {
            Seq::empty()
        } else {
            seq![' ']
        }
    } else if kind is Cases && n == 1 {
        Seq::empty()
    } else {
        seq![opening_char(kind, r, n)]
    }
}

/// The text after the cells of line `r`: the closing bracket character, a
/// blank for `matrix` of several rows, nothing for a single-row `matrix` or
/// for `cases`.
pub open spec fn right_text(kind: MatrixKind, r: int, n: int) -> Seq<char> {
    if kind is Plain {
        if n == 1 {
            Seq::empty()
        } else {
            seq![' ']
        }
    } else if kind is Cases {
        Seq::empty()
    } else {
        seq![closing_char(kind, r, n)]
    }
}

/// Line `r` of a display matrix: two spaces, the left bracket text, a space,
/// the row's padded cells, a space and the right bracket text, with trailing
/// blanks dropped; the cells are padded with spaces to their column's width
/// and separated by three spaces.
pub proof fn law_matrix_line_layout(kind: MatrixKind, rows: Seq<Seq<Seq<SpecNode>>>, r: int)
    requires
        0 <= r < rows.len(),
    ensures
        ({
            let g = grid(rows);
            let n = rows.len() as int;
            matrix_rows(kind, rows)[r] == trim_end(
                seq![' ', ' '] + left_text(kind, r, n) + seq![' '] + row_content(
                    g,
                    g[r],
                    g[r].len() as int,
                ) + seq![' '] + right_text(kind, r, n),
            )
        }),
{
    let n = rows.len() as int;
    if !(kind is Plain) && !(kind is Cases && n == 1) {
        lemma_bracket_pieces(kind, r, n);
    }
    reveal_strlit("  ");
    reveal_strlit(" ");
    reveal_strlit("");
    reveal_strlit("⎧");
    reveal_strlit("⎨");
    reveal_strlit("⎩");
    assert("  "@ == seq![' ', ' ']);
    assert(" "@ == seq![' ']);
}

/// The cells of a display matrix row: each padded on the right with spaces
/// to its column's width, consecutive cells three spaces apart.
pub proof fn law_row_content(g: Seq<Seq<Seq<char>>>, row: Seq<Seq<char>>, n: int)
    requires
        1 <= n <= row.len(),
    ensures
        padded_cell(g, row, n - 1) == row[n - 1] + repeat_char(
            ' ',
            (col_width(g, n - 1) - row[n - 1].len()) as nat,
        ),
        n == 1 ==> row_content(g, row, n) == padded_cell(g, row, 0),
        n > 1 ==> row_content(g, row, n) == row_content(g, row, n - 1) + seq![' ', ' ', ' ']
            + padded_cell(g, row, n - 1),
{
    reveal_strlit("   ");
}

/// A column is as wide as its widest cell.
pub proof fn law_column_width(g: Seq<Seq<Seq<char>>>, c: int)
    ensures
        forall|r: int| 0 <= r < g.len() && 0 <= c < g[r].len() ==> col_width(g, c) >= (
        #[trigger] g[r])[c].len(),
        col_width(g, c) == 0 || exists|r: int|
            0 <= r < g.len() && 0 <= c < g[r].len() && col_width(g, c) == (#[trigger] g[r])[c].len(),
    decreases g.len(),
{
    crate::layout::lemma_col_width(g, c);
    if g.len() > 0 {
        law_column_width(g.drop_last(), c);
        let d = g.drop_last();
        if col_width(d, c) != 0 && col_width(g, c) == col_width(d, c) {
            let r = choose|r: int|
                0 <= r < d.len() && 0 <= c < d[r].len() && col_width(d, c) == (#[trigger] d[r])[c].len();
            assert(g[r] == d[r]);
        }
        if col_width(g, c) != col_width(d, c) {
            assert(g[g.len() - 1] == g.last());
        }
    }
}

/// Inline matrix rows are separated by `; ` and the cells of a row by `, `.
pub proof fn law_inline_separators(rows: Seq<Seq<Seq<SpecNode>>>, cells: Seq<Seq<SpecNode>>)
    ensures
        rows.len() == 1 ==> inline_rows(rows) == inline_cells(rows[0]),
        rows.len() > 1 ==> inline_rows(rows) == inline_rows(rows.drop_last()) + seq![';', ' ']
            + inline_cells(rows.last()),
        cells.len() == 1 ==> inline_cells(cells) == inline_list(cells[0]),
        cells.len() > 1 ==> inline_cells(cells) == inline_cells(cells.drop_last()) + seq![',', ' ']
            + inline_list(cells.last()),
{
    reveal_strlit("; ");
    reveal_strlit(", ");
}

/// A lone binomial in display mode is two lines in tall parentheses: `⎛ n ⎞`
/// over `⎝ k ⎠`, each side centered in the wider one's width.
pub proof fn law_binomial_block(n: SpecNode, k: SpecNode)
    ensures
        ({
            let a = inline_of(n);
            let c = inline_of(k);
            let w = imax(a.len() as int, c.len() as int);
            binom_2d(n, k) == seq![' ', ' ', '⎛', ' '] + centered(a, w) + seq![' ', '⎞', '\n', ' ', ' ', '⎝', ' ']
                + centered(c, w) + seq![' ', '⎠']
        }),
{
    reveal_strlit("  ⎛ ");
    reveal_strlit(" ⎞\n  ⎝ ");
    reveal_strlit(" ⎠");
}

/// A lone underbrace in display mode is its body, then a `⏟` brace line, then
/// its label (when it has one); a lone overbrace is its label (when it has
/// one), then a `⏞` brace line, then its body. Each line is indented by two
/// spaces and centered in the width of the wider of body and label (at least
/// one); a brace line up to three wide is the glyph centered, wider it is a
/// rule of `─`.
pub proof fn law_brace_block(body: SpecNode, label: Option<Box<SpecNode>>, under: bool)
    ensures
        ({
            let b = inline_of(body);
            let l = label_text(label);
            let w = imax(imax(b.len() as int, l.len() as int), 1);
            let glyph = if under {
                '⏟'
            } else {
                '⏞'
            };
            let bar = if w <= 3 {
                centered(seq![glyph], w)
            } else {
                repeat_char('─', w as nat)
            };
            let body_line = seq![' ', ' '] + centered(b, w);
            let bar_line = seq![' ', ' '] + bar;
            let label_line = seq![' ', ' '] + centered(l, w);
            &&& brace_bar(glyph, w) == bar
            &&& under && l.len() > 0 ==> brace_2d(body, label, under) == body_line + seq!['\n']
                + bar_line + seq!['\n'] + label_line
            &&& under && l.len() == 0 ==> brace_2d(body, label, under) == body_line + seq!['\n']
                + bar_line
            &&& !under && l.len() > 0 ==> brace_2d(body, label, under) == label_line + seq!['\n']
                + bar_line + seq!['\n'] + body_line
            &&& !under && l.len() == 0 ==> brace_2d(body, label, under) == bar_line + seq!['\n']
                + body_line
        }),
{
    reveal_strlit("  ");
    reveal_strlit("\n");
    let b = inline_of(body);
    let l = label_text(label);
    let w = imax(imax(b.len() as int, l.len() as int), 1);
    let glyph = if under {
        '⏟'
    } else {
        '⏞'
    };
    let body_line = seq![' ', ' '] + centered(b, w);
    let bar_line = seq![' ', ' '] + brace_bar(glyph, w);
    let label_line = seq![' ', ' '] + centered(l, w);
    assert("  "@ == seq![' ', ' ']);
    assert("\n"@ == seq!['\n']);
    assert(body_line + seq!['\n'] + bar_line + Seq::<char>::empty() == body_line + seq!['\n'] + bar_line);
    assert(body_line + seq!['\n'] + bar_line + (seq!['\n'] + label_line) == body_line + seq!['\n'] + bar_line + seq!['\n'] + label_line);
    assert(Seq::<char>::empty() + bar_line + seq!['\n'] + body_line == bar_line + seq!['\n'] + body_line);
    assert(label_line + seq!['\n'] + bar_line + seq!['\n'] + body_line == (label_line + seq!['\n']) + bar_line + seq!['\n'] + body_line);
}

/// Digits as subscripts are the consecutive characters `₀`…`₉`
/// (U+2080–U+2089); as superscripts `⁰ ¹ ² ³ ⁴ ⁵ ⁶ ⁷ ⁸ ⁹`, where `¹ ² ³` are
/// the Latin-1 characters and the others U+2070, U+2074–U+2079.
pub proof fn law_script_digits(d: char)
    requires
        '0' <= d <= '9',
    ensures
        subscript_char(d) matches Some(x) && x as int == 0x2080 + (d as int - '0' as int),
        superscript_char(d) matches Some(x) && x as int == if d == '1' {
            0xB9
        } else if d == '2' {
            0xB2
        } else if d == '3' {
            0xB3
        } else {
            0x2070 + (d as int - '0' as int)
        },
{
}


/// The node a command builds is decided by its name: `\frac` (also `\dfrac`,
/// `\tfrac`) a fraction, `\sqrt` a root, `\binom` (also `\tbinom`,
/// `\dbinom`) a binomial, `\boxed` a box, `\vec` `\hat` `\bar` `\dot`
/// `\ddot` `\tilde` an accent with the combining arrow, circumflex, macron,
/// dot above, diaeresis or tilde, `\left` a delimited group, `\begin` a
/// matrix, `\overline` `\underline` `\underbrace` `\overbrace` their nodes.
pub proof fn law_command_nodes(s: Seq<char>, p: int)
    requires
        0 <= p < s.len(),
    ensures
        ({
            let name = s.subrange(p, name_end(s, p));
            let r = parse_command_at(s, p).0;
            &&& (name == seq!['f', 'r', 'a', 'c'] ||
                name == seq!['d', 'f', 'r', 'a', 'c'] ||
                name == seq!['t', 'f', 'r', 'a', 'c']
                ) ==> (r matches Some(SpecNode::Frac { .. }))
            &&& (name == seq!['s', 'q', 'r', 't']) ==> (r matches Some(SpecNode::Sqrt { .. }))
            &&& (name == seq!['b', 'i', 'n', 'o', 'm'] ||
                name == seq!['t', 'b', 'i', 'n', 'o', 'm'] ||
                name == seq!['d', 'b', 'i', 'n', 'o', 'm']
                ) ==> (r matches Some(SpecNode::Binom { .. }))
            &&& (name == seq!['b', 'o', 'x', 'e', 'd']) ==> (r matches Some(SpecNode::Boxed(_)))
            &&& (name == seq!['v', 'e', 'c']
                ) ==> (r matches Some(SpecNode::Accent { accent: '\u{20d7}', .. }))
            &&& (name == seq!['h', 'a', 't'] ||
                name == seq!['w', 'i', 'd', 'e', 'h', 'a', 't']
                ) ==> (r matches Some(SpecNode::Accent { accent: '\u{302}', .. }))
            &&& (name == seq!['b', 'a', 'r']
                ) ==> (r matches Some(SpecNode::Accent { accent: '\u{304}', .. }))
            &&& (name == seq!['d', 'o', 't']
                ) ==> (r matches Some(SpecNode::Accent { accent: '\u{307}', .. }))
            &&& (name == seq!['d', 'd', 'o', 't']
                ) ==> (r matches Some(SpecNode::Accent { accent: '\u{308}', .. }))
            &&& (name == seq!['t', 'i', 'l', 'd', 'e'] ||
                name == seq!['w', 'i', 'd', 'e', 't', 'i', 'l', 'd', 'e']
                ) ==> (r matches Some(SpecNode::Accent { accent: '\u{303}', .. }))
            &&& (name == seq!['l', 'e', 'f', 't']) ==> (r matches Some(SpecNode::Delimited { .. }))
            &&& (name == seq!['b', 'e', 'g', 'i', 'n']
                ) ==> (r matches Some(SpecNode::Matrix { .. }))
            &&& (name == seq!['o', 'v', 'e', 'r', 'l', 'i', 'n', 'e']
                ) ==> (r matches Some(SpecNode::Overline(_)))
            &&& (name == seq!['u', 'n', 'd', 'e', 'r', 'l', 'i', 'n', 'e']
                ) ==> (r matches Some(SpecNode::Underline(_)))
            &&& (name == seq!['u', 'n', 'd', 'e', 'r', 'b', 'r', 'a', 'c', 'e']
                ) ==> (r matches Some(SpecNode::Underbrace { .. }))
            &&& (name == seq!['o', 'v', 'e', 'r', 'b', 'r', 'a', 'c', 'e']
                ) ==> (r matches Some(SpecNode::Overbrace { .. }))
        }),
{
    reveal_strlit("frac");
    reveal_strlit("dfrac");
    reveal_strlit("tfrac");
    reveal_strlit("sqrt");
    reveal_strlit("binom");
    reveal_strlit("tbinom");
    reveal_strlit("dbinom");
    reveal_strlit("boxed");
    reveal_strlit("vec");
    reveal_strlit("hat");
    reveal_strlit("widehat");
    reveal_strlit("bar");
    reveal_strlit("dot");
    reveal_strlit("ddot");
    reveal_strlit("tilde");
    reveal_strlit("widetilde");
    reveal_strlit("mathbb");
    reveal_strlit("mathcal");
    reveal_strlit("mathfrak");
    reveal_strlit("text");
    reveal_strlit("mathrm");
    reveal_strlit("mathit");
    reveal_strlit("mathbf");
    reveal_strlit("operatorname");
    reveal_strlit("left");
    reveal_strlit("begin");
    reveal_strlit("overline");
    reveal_strlit("underline");
    reveal_strlit("underbrace");
    reveal_strlit("overbrace");
    assert("frac"@ == seq!['f', 'r', 'a', 'c']);
    assert("dfrac"@ == seq!['d', 'f', 'r', 'a', 'c']);
    assert("tfrac"@ == seq!['t', 'f', 'r', 'a', 'c']);
    assert("sqrt"@ == seq!['s', 'q', 'r', 't']);
    assert("binom"@ == seq!['b', 'i', 'n', 'o', 'm']);
    assert("tbinom"@ == seq!['t', 'b', 'i', 'n', 'o', 'm']);
    assert("dbinom"@ == seq!['d', 'b', 'i', 'n', 'o', 'm']);
    assert("boxed"@ == seq!['b', 'o', 'x', 'e', 'd']);
    assert("vec"@ == seq!['v', 'e', 'c']);
    assert("hat"@ == seq!['h', 'a', 't']);
    assert("widehat"@ == seq!['w', 'i', 'd', 'e', 'h', 'a', 't']);
    assert("bar"@ == seq!['b', 'a', 'r']);
    assert("dot"@ == seq!['d', 'o', 't']);
    assert("ddot"@ == seq!['d', 'd', 'o', 't']);
    assert("tilde"@ == seq!['t', 'i', 'l', 'd', 'e']);
    assert("widetilde"@ == seq!['w', 'i', 'd', 'e', 't', 'i', 'l', 'd', 'e']);
    assert("mathbb"@ == seq!['m', 'a', 't', 'h', 'b', 'b']);
    assert("mathcal"@ == seq!['m', 'a', 't', 'h', 'c', 'a', 'l']);
    assert("mathfrak"@ == seq!['m', 'a', 't', 'h', 'f', 'r', 'a', 'k']);
    assert("text"@ == seq!['t', 'e', 'x', 't']);
    assert("mathrm"@ == seq!['m', 'a', 't', 'h', 'r', 'm']);
    assert("mathit"@ == seq!['m', 'a', 't', 'h', 'i', 't']);
    assert("mathbf"@ == seq!['m', 'a', 't', 'h', 'b', 'f']);
    assert("operatorname"@ == seq!['o', 'p', 'e', 'r', 'a', 't', 'o', 'r', 'n', 'a', 'm', 'e']);
    assert("left"@ == seq!['l', 'e', 'f', 't']);
    assert("begin"@ == seq!['b', 'e', 'g', 'i', 'n']);
    assert("overline"@ == seq!['o', 'v', 'e', 'r', 'l', 'i', 'n', 'e']);
    assert("underline"@ == seq!['u', 'n', 'd', 'e', 'r', 'l', 'i', 'n', 'e']);
    assert("underbrace"@ == seq!['u', 'n', 'd', 'e', 'r', 'b', 'r', 'a', 'c', 'e']);
    assert("overbrace"@ == seq!['o', 'v', 'e', 'r', 'b', 'r', 'a', 'c', 'e']);
    lemma_name_end(s, p);
    let q = name_end(s, p);
    lemma_arg_pos(s, q);
    let q1 = parse_arg_at(s, q).1;
    lemma_ws_end(s, q);
    let w = ws_end(s, q);
    if w < s.len() && s[w] == '[' {
        lemma_index_loop_pos(s, w + 1, Seq::empty());
    }
}

/// Accent commands and their combining characters: `\vec` U+20D7 (arrow),
/// `\hat`/`\widehat` U+0302 (circumflex), `\bar` U+0304 (macron), `\dot`
/// U+0307, `\ddot` U+0308 (diaeresis), `\tilde`/`\widetilde` U+0303; no
/// other name is an accent.
pub proof fn law_accents(name: Seq<char>)
    ensures
        accent_of(name) == if name == seq!['v', 'e', 'c'] {
            Some('\u{20d7}')
        } else if name == seq!['h', 'a', 't'] || name == seq!['w', 'i', 'd', 'e', 'h', 'a', 't'] {
            Some('\u{302}')
        } else if name == seq!['b', 'a', 'r'] {
            Some('\u{304}')
        } else if name == seq!['d', 'o', 't'] {
            Some('\u{307}')
        } else if name == seq!['d', 'd', 'o', 't'] {
            Some('\u{308}')
        } else if name == seq!['t', 'i', 'l', 'd', 'e'] || name == seq!['w', 'i', 'd', 'e', 't', 'i', 'l', 'd', 'e'] {
            Some('\u{303}')
        } else {
            None
        },
{
    reveal_strlit("frac");
    reveal_strlit("dfrac");
    reveal_strlit("tfrac");
    reveal_strlit("sqrt");
    reveal_strlit("binom");
    reveal_strlit("tbinom");
    reveal_strlit("dbinom");
    reveal_strlit("boxed");
    reveal_strlit("vec");
    reveal_strlit("hat");
    reveal_strlit("widehat");
    reveal_strlit("bar");
    reveal_strlit("dot");
    reveal_strlit("ddot");
    reveal_strlit("tilde");
    reveal_strlit("widetilde");
    reveal_strlit("mathbb");
    reveal_strlit("mathcal");
    reveal_strlit("mathfrak");
    reveal_strlit("text");
    reveal_strlit("mathrm");
    reveal_strlit("mathit");
    reveal_strlit("mathbf");
    reveal_strlit("operatorname");
    reveal_strlit("left");
    reveal_strlit("begin");
    reveal_strlit("overline");
    reveal_strlit("underline");
    reveal_strlit("underbrace");
    reveal_strlit("overbrace");
    assert("frac"@ == seq!['f', 'r', 'a', 'c']);
    assert("dfrac"@ == seq!['d', 'f', 'r', 'a', 'c']);
    assert("tfrac"@ == seq!['t', 'f', 'r', 'a', 'c']);
    assert("sqrt"@ == seq!['s', 'q', 'r', 't']);
    assert("binom"@ == seq!['b', 'i', 'n', 'o', 'm']);
    assert("tbinom"@ == seq!['t', 'b', 'i', 'n', 'o', 'm']);
    assert("dbinom"@ == seq!['d', 'b', 'i', 'n', 'o', 'm']);
    assert("boxed"@ == seq!['b', 'o', 'x', 'e', 'd']);
    assert("vec"@ == seq!['v', 'e', 'c']);
    assert("hat"@ == seq!['h', 'a', 't']);
    assert("widehat"@ == seq!['w', 'i', 'd', 'e', 'h', 'a', 't']);
    assert("bar"@ == seq!['b', 'a', 'r']);
    assert("dot"@ == seq!['d', 'o', 't']);
    assert("ddot"@ == seq!['d', 'd', 'o', 't']);
    assert("tilde"@ == seq!['t', 'i', 'l', 'd', 'e']);
    assert("widetilde"@ == seq!['w', 'i', 'd', 'e', 't', 'i', 'l', 'd', 'e']);
    assert("mathbb"@ == seq!['m', 'a', 't', 'h', 'b', 'b']);
    assert("mathcal"@ == seq!['m', 'a', 't', 'h', 'c', 'a', 'l']);
    assert("mathfrak"@ == seq!['m', 'a', 't', 'h', 'f', 'r', 'a', 'k']);
    assert("text"@ == seq!['t', 'e', 'x', 't']);
    assert("mathrm"@ == seq!['m', 'a', 't', 'h', 'r', 'm']);
    assert("mathit"@ == seq!['m', 'a', 't', 'h', 'i', 't']);
    assert("mathbf"@ == seq!['m', 'a', 't', 'h', 'b', 'f']);
    assert("operatorname"@ == seq!['o', 'p', 'e', 'r', 'a', 't', 'o', 'r', 'n', 'a', 'm', 'e']);
    assert("left"@ == seq!['l', 'e', 'f', 't']);
    assert("begin"@ == seq!['b', 'e', 'g', 'i', 'n']);
    assert("overline"@ == seq!['o', 'v', 'e', 'r', 'l', 'i', 'n', 'e']);
    assert("underline"@ == seq!['u', 'n', 'd', 'e', 'r', 'l', 'i', 'n', 'e']);
    assert("underbrace"@ == seq!['u', 'n', 'd', 'e', 'r', 'b', 'r', 'a', 'c', 'e']);
    assert("overbrace"@ == seq!['o', 'v', 'e', 'r', 'b', 'r', 'a', 'c', 'e']);
}


/// The first matrix among the nodes: the matrix at the smallest position
/// holding one, if any.
pub proof fn law_first_matrix(ns: Seq<SpecNode>)
    ensures
        first_matrix(ns) is None <==> forall|i: int| 0 <= i < ns.len() ==> !(#[trigger] ns[i] is Matrix),
        first_matrix(ns) matches Some((kind, rows)) ==> exists|i: int|
            0 <= i < ns.len() && #[trigger] ns[i] == (SpecNode::Matrix { kind, rows }) && forall|j: int|
                0 <= j < i ==> !(#[trigger] ns[j] is Matrix),
    decreases ns.len(),
{
    if ns.len() > 0 {
        let t = ns.drop_first();
        law_first_matrix(t);
        assert forall|i: int| 0 <= i < t.len() implies #[trigger] t[i] == ns[i + 1] by {}
        if !(ns[0] is Matrix) {
            if first_matrix(t) is None {
                assert forall|i: int| 0 <= i < ns.len() implies !(#[trigger] ns[i] is Matrix) by {
                    if i > 0 {
                        assert(ns[i] == t[i - 1]);
                    }
                }
            } else {
                let (kind, rows) = first_matrix(t)->0;
                let i = choose|i: int|
                    0 <= i < t.len() && #[trigger] t[i] == (SpecNode::Matrix { kind, rows }) && forall|j: int|
                        0 <= j < i ==> !(#[trigger] t[j] is Matrix);
                assert(ns[i + 1] == t[i]);
                assert forall|j: int| 0 <= j < i + 1 implies !(#[trigger] ns[j] is Matrix) by {
                    if j > 0 {
                        assert(ns[j] == t[j - 1]);
                    }
                }
                let k = i;
                assert(exists|i2: int| 0 <= i2 < t.len() && t[i2] is Matrix) by {
                    assert(t[k] is Matrix);
                }
            }
        } else {
            assert(ns[0] == ns[0]);
        }
    }
}

/// A display block is chosen in this order: the first matrix among the nodes
/// in 2D; else a lone fraction, binomial, underbrace or overbrace in 2D; else,
/// when the nodes hold a brace, three lines of bodies, braces and labels;
/// else the inline rendering indented by two spaces.
pub proof fn law_block_choice(ns: Seq<SpecNode>)
    ensures
        first_matrix(ns) matches Some((kind, rows)) ==> block(ns) == matrix_2d(kind, rows),
        first_matrix(ns) is None && ns.len() == 1 ==> match ns[0] {
            SpecNode::Frac { num, den } => block(ns) == frac_2d(*num, *den),
            SpecNode::Binom { n, k } => block(ns) == binom_2d(*n, *k),
            SpecNode::Underbrace { body, label } => block(ns) == brace_2d(*body, label, true),
            SpecNode::Overbrace { body, label } => block(ns) == brace_2d(*body, label, false),
            _ => true,
        },
        first_matrix(ns) is None && !(ns.len() == 1 && (ns[0] is Frac || ns[0] is Binom
            || ns[0] is Underbrace || ns[0] is Overbrace)) ==> block(ns) == if has_brace(ns) {
            with_braces(ns)
        } else {
            seq![' ', ' '] + inline_list(ns)
        },
{
    reveal_strlit("  ");
    assert("  "@ == seq![' ', ' ']);
}


/// The code of the styled form of `c` in `font`, where it has one: the
/// letters (and, double-struck, the digits) map in order onto the Unicode
/// mathematical alphanumeric block, except the letters Unicode encodes in
/// the letterlike block (double-struck `ℂ ℍ ℕ ℙ ℚ ℝ ℤ`, script `ℬ ℰ ℱ ℋ ℐ ℒ ℳ ℛ ℯ ℊ ℴ`,
/// fraktur `ℭ ℌ ℑ ℜ ℨ`).
pub open spec fn styled_code(font: Font, c: char) -> Option<int> {
    let upper = 'A' <= c && c <= 'Z';
    let lower = 'a' <= c && c <= 'z';
    let digit = '0' <= c && c <= '9';
    let k = |first: char| c as int - first as int;
    match font {
        Font::DoubleStruck => if c == 'C' {
            Some(0x2102)
        } else if c == 'H' {
            Some(0x210D)
        } else if c == 'N' {
            Some(0x2115)
        } else if c == 'P' {
            Some(0x2119)
        } else if c == 'Q' {
            Some(0x211A)
        } else if c == 'R' {
            Some(0x211D)
        } else if c == 'Z' {
            Some(0x2124)
        } else if upper {
            Some(0x1D538 + k('A'))
        } else if lower {
            Some(0x1D552 + k('a'))
        } else if digit {
            Some(0x1D7D8 + k('0'))
        } else {
            None
        },
        Font::Script => if c == 'B' {
            Some(0x212C)
        } else if c == 'E' {
            Some(0x2130)
        } else if c == 'F' {
            Some(0x2131)
        } else if c == 'H' {
            Some(0x210B)
        } else if c == 'I' {
            Some(0x2110)
        } else if c == 'L' {
            Some(0x2112)
        } else if c == 'M' {
            Some(0x2133)
        } else if c == 'R' {
            Some(0x211B)
        } else if c == 'e' {
            Some(0x212F)
        } else if c == 'g' {
            Some(0x210A)
        } else if c == 'o' {
            Some(0x2134)
        } else if upper {
            Some(0x1D49C + k('A'))
        } else if lower {
            Some(0x1D4B6 + k('a'))
        } else {
            None
        },
        Font::Fraktur => if c == 'C' {
            Some(0x212D)
        } else if c == 'H' {
            Some(0x210C)
        } else if c == 'I' {
            Some(0x2111)
        } else if c == 'R' {
            Some(0x211C)
        } else if c == 'Z' {
            Some(0x2128)
        } else if upper {
            Some(0x1D504 + k('A'))
        } else if lower {
            Some(0x1D51E + k('a'))
        } else {
            None
        },
    }
}

/// `\mathbb`, `\mathcal` and `\mathfrak` style each character by the code
/// `styled_code` gives, and leave characters without a styled form alone.
pub proof fn law_styled_characters(font: Font, c: char)
    ensures
        match styled_code(font, c) {
            Some(x) => font_char(font, c) matches Some(y) && y as int == x,
            None => font_char(font, c) is None,
        },
{
}

} // verus!
