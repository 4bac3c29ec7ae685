//! Unicode renderer for LaTeX `MathNode` trees.
//!
//! Handles:
//! - Inline rendering (compact 1D math representation with Unicode symbols)
//! - Multi-line block display rendering (2D brackets, matrices, cases, aligned formulas)
//!
//! What each function produces is stated by the spec functions of `layout`.

use vstd::prelude::*;
use crate::ast::{
    lemma_cells_model_index, lemma_nodes_model_index, lemma_rows_model_index, node_model,
    nodes_model, opt_model, rows_model, MathNode, MatrixKind, SpecNode,
};
use crate::layout::{
    binom_2d, brace_2d, brace_bar, brace_columns, brace_piece, brace_width, col_width,
    first_matrix, frac_2d, grid, has_brace, has_overbrace, label_text, lemma_col_width,
    lemma_has_brace_step, matrix_2d, matrix_lines, row_brackets, row_content, with_braces,
    lemma_has_brace_prefix, lemma_col_width_step,
    all_sub, all_sup, any_sub, block, centered, compound, compound_char, frac_side, inline_of,
    inline_brackets, inline_cells, inline_concat, inline_list, inline_rows, normalized,
    partial_sub_ok, squeeze_ws, sub_map, sup_form, sup_map, to_sub, to_sup,
};
use crate::symbols::{subscript_char, superscript_char, to_subscript, to_superscript};
use crate::text::{
    char_is_white_space, chars_to_string, copy_range, eq_lit, is_white_space, push_all, push_lit,
    push_repeat, repeat_char, str_chars, trim, trim_end_len, trim_range,
};

verus! {

/// Whether formulas render on one line or as a display block.
#[derive(Debug, Clone, Copy, PartialEq, Eq, Structural)]
pub enum RenderMode {
    /// Compact one-line rendering.
    Inline,
    /// Multi-line 2D rendering.
    Block,
}

/// Renders trees of `MathNode`s in one mode.
pub struct Renderer {
    mode: RenderMode,
}

/// Squeezes whitespace runs to one space and trims the ends.
fn normalize_spaces(s: &Vec<char>) -> (r: Vec<char>)
    ensures
        r@ == normalized(s@),
{
    let mut out: Vec<char> = Vec::new();
    let mut prev_space = false;
    let mut i: usize = 0;
    while i < s.len()
        invariant
            i <= s.len(),
            out@ == squeeze_ws(s@.take(i as int)),
            prev_space <==> (out@.len() > 0 && out@.last() == ' '),
            forall|j: int| 0 <= j < out@.len() && out@[j] == ' ' ==> is_white_space(out@[j]),
        decreases s.len() - i,
    {
        let c = s[i];
        proof {
            assert(s@.take(i + 1).drop_last() == s@.take(i as int));
        }
        if char_is_white_space(c) {
            if !prev_space {
                out.push(' ');
                prev_space = true;
            }
        } else {
            out.push(c);
            prev_space = false;
        }
        i += 1;
    }
    proof {
        assert(s@.take(s.len() as int) == s@);
    }
    let (a, b) = trim_range(&out);
    copy_range(&out, a, b)
}

/// Whether an expression needs parentheses as a fraction side (`root_sign`)
/// or under a root.
fn is_compound(s: &Vec<char>, root_sign: bool) -> (r: bool)
    ensures
        r == compound(s@, root_sign),
{
    let (a, b) = trim_range(s);
    let ghost t = trim(s@);
    if a == b {
        return false;
    }
    let mut i = a;
    while i < b
        invariant
            a <= i <= b <= s.len(),
            t == trim(s@),
            t == s@.subrange(a as int, b as int),
            forall|j: int| 0 <= j < i - a ==> !compound_char(#[trigger] t[j], root_sign),
        decreases b - i,
    {
        let c = s[i];
        if c == ' ' || c == '+' || c == '-' || c == '=' || c == '/' || c == '·' || c == '×' || (
        root_sign && c == '√') {
            assert(t[i - a] == s@[i as int]);
            assert(compound_char(t[i - a], root_sign));
            assert(exists|j: int| 0 <= j < t.len() && #[trigger] compound_char(t[j], root_sign));
            return true;
        }
        i += 1;
    }
    false
}

/// The superscript form of `c` (see `sup_form`).
fn sup_form_of(c: char) -> (r: Option<char>)
    ensures
        r == sup_form(c),
{
    match to_superscript(c) {
        Some(x) => Some(x),
        None => {
            match c {
                '²' | '³' | '¹' | '⁰' | '⁴' | '⁵' | '⁶' | '⁷' | '⁸' | '⁹' | '⁻' | '⁺' => Some(c),
                _ => None,
            }
        },
    }
}

/// `s` as a superscript.
fn to_unicode_sup(s: &Vec<char>) -> (r: Vec<char>)
    ensures
        r@ == to_sup(s@),
{
    let mut res: Vec<char> = Vec::new();
    if eq_lit(s, "∞") {
        push_lit(&mut res, "^∞");
        return res;
    }
    if eq_lit(s, "+∞") {
        push_lit(&mut res, "⁺^∞");
        return res;
    }
    if eq_lit(s, "-∞") {
        push_lit(&mut res, "⁻^∞");
        return res;
    }
    let mut i: usize = 0;
    while i < s.len()
        invariant
            i <= s.len(),
            s@ != "∞"@ && s@ != "+∞"@ && s@ != "-∞"@,
            forall|j: int| 0 <= j < i ==> (#[trigger] sup_form(s@[j])) is Some,
            res@ == sup_map(s@.take(i as int)),
        decreases s.len() - i,
    {
        match sup_form_of(s[i]) {
            Some(x) => {
                res.push(x);
            },
            None => {
                assert(sup_form(s@[i as int]) is None);
                assert(!all_sup(s@));
                let mut fallback: Vec<char> = Vec::new();
                push_lit(&mut fallback, "^(");
                push_all(&mut fallback, s);
                push_lit(&mut fallback, ")");
                assert(fallback@ == "^("@ + s@ + ")"@);
                return fallback;
            },
        }
        i += 1;
        assert(res@ == sup_map(s@.take(i as int)));
    }
    assert(s@.take(s.len() as int) == s@);
    res
}

/// `s` as a subscript.
fn to_unicode_sub(s: &Vec<char>) -> (r: Vec<char>)
    ensures
        r@ == to_sub(s@),
{
    let mut res: Vec<char> = Vec::new();
    if eq_lit(s, "∞") {
        push_lit(&mut res, "_∞");
        return res;
    }
    if eq_lit(s, "+∞") {
        push_lit(&mut res, "₊_∞");
        return res;
    }
    if eq_lit(s, "-∞") {
        push_lit(&mut res, "₋_∞");
        return res;
    }
    // Phrases with spaces/arrows: all-or-nothing (keeps lim_(x → 0) readable)
    let mut use_partial = true;
    let mut k: usize = 0;
    while k < s.len()
        invariant
            k <= s.len(),
            use_partial == !(s@.take(k as int).contains(' ') || s@.take(k as int).contains('→')
                || s@.take(k as int).contains('←') || s@.take(k as int).contains('⟶')),
        decreases s.len() - k,
    {
        let c = s[k];
        proof {
            let t = s@.take(k as int);
            let t1 = s@.take(k + 1);
            assert(t1 == t.push(c));
            assert forall|x: char| t1.contains(x) <==> (t.contains(x) || x == c) by {
                if t1.contains(x) {
                    let j = choose|j: int| 0 <= j < t1.len() && t1[j] == x;
                    if j < t.len() {
                        assert(t[j] == x);
                    }
                }
                if t.contains(x) {
                    let j = choose|j: int| 0 <= j < t.len() && t[j] == x;
                    assert(t1[j] == x);
                }
                if x == c {
                    assert(t1[k as int] == x);
                }
            }
        }
        if c == ' ' || c == '→' || c == '←' || c == '⟶' {
            use_partial = false;
        }
        k += 1;
    }
    assert(s@.take(s.len() as int) == s@);
    let mut all_converted = true;
    let mut any_converted = false;
    let mut i: usize = 0;
    while i < s.len()
        invariant
            i <= s.len(),
            s@ != "∞"@ && s@ != "+∞"@ && s@ != "-∞"@,
            use_partial == partial_sub_ok(s@),
            all_converted == (forall|j: int| 0 <= j < i ==> (#[trigger] subscript_char(s@[j])) is Some),
            any_converted == (exists|j: int| 0 <= j < i && (#[trigger] subscript_char(s@[j])) is Some),
            use_partial ==> res@ == sub_map(s@.take(i as int)),
            !use_partial ==> all_converted && res@ == sub_map(s@.take(i as int)),
        decreases s.len() - i,
    {
        match to_subscript(s[i]) {
            Some(x) => {
                res.push(x);
                any_converted = true;
            },
            None => {
                if use_partial {
                    // Leave characters without a subscript form as they are
                    res.push(s[i]);
                    all_converted = false;
                } else {
                    assert(subscript_char(s@[i as int]) is None);
                    assert(!all_sub(s@));
                    assert(!partial_sub_ok(s@));
                    let mut fallback: Vec<char> = Vec::new();
                    push_lit(&mut fallback, "_(");
                    push_all(&mut fallback, s);
                    push_lit(&mut fallback, ")");
                    assert(fallback@ == "_("@ + s@ + ")"@);
                    return fallback;
                }
            },
        }
        i += 1;
        assert(res@ == sub_map(s@.take(i as int)));
    }
    assert(s@.take(s.len() as int) == s@);
    if all_converted || (use_partial && any_converted) {
        res
    } else {
        let mut fallback: Vec<char> = Vec::new();
        push_lit(&mut fallback, "_(");
        push_all(&mut fallback, s);
        push_lit(&mut fallback, ")");
        assert(fallback@ == "_("@ + s@ + ")"@);
        fallback
    }
}

/// The width of `s` in columns (one per character).
fn visual_width(s: &Vec<char>) -> (w: usize)
    ensures
        w == s@.len(),
{
    s.len()
}

/// `s` centered in `width` columns.
fn center_pad(s: &Vec<char>, width: usize) -> (r: Vec<char>)
    ensures
        r@ == centered(s@, width as int),
{
    let w = visual_width(s);
    let mut out: Vec<char> = Vec::new();
    if w >= width {
        push_all(&mut out, s);
        return out;
    }
    let pad = width - w;
    let left = pad / 2;
    let right = pad - left;
    push_repeat(&mut out, ' ', left);
    push_all(&mut out, s);
    push_repeat(&mut out, ' ', right);
    out
}


/// A fraction side, parenthesized when it is compound.
fn frac_side_fmt(x: Vec<char>) -> (r: Vec<char>)
    ensures
        r@ == frac_side(x@),
{
    if is_compound(&x, true) && !(x.len() > 0 && x[0] == '(') {
        let mut out: Vec<char> = Vec::new();
        out.push('(');
        push_all(&mut out, &x);
        out.push(')');
        assert(out@ == "("@ + x@ + ")"@) by {
            reveal_strlit("(");
            reveal_strlit(")");
        }
        out
    } else {
        x
    }
}

/// The opening and closing brackets of an inline matrix.
fn inline_brackets_of(kind: MatrixKind) -> (r: (&'static str, &'static str))
    ensures
        (r.0@, r.1@) == inline_brackets(kind),
{
    match kind {
        MatrixKind::Plain => ("", ""),
        MatrixKind::Paren => ("(", ")"),
        MatrixKind::Bracket => ("[", "]"),
        MatrixKind::Brace => ("{", "}"),
        MatrixKind::Vbar => ("|", "|"),
        MatrixKind::VVbar => ("‖", "‖"),
        MatrixKind::Cases => ("{", ""),
    }
}

impl Renderer {
    /// The mode this renderer renders in.
    pub closed spec fn mode(&self) -> RenderMode {
        self.mode
    }

    /// A renderer for `mode`.
    pub fn new(mode: RenderMode) -> (r: Self)
        ensures
            r.mode() == mode,
    {
        Self { mode }
    }

    /// Renders the nodes: inline on one line, or as a display block.
    pub fn render(&self, nodes: &[MathNode]) -> (out: String)
        ensures
            out@ == (match self.mode() {
                RenderMode::Inline => inline_list(nodes_model(nodes@)),
                RenderMode::Block => block(nodes_model(nodes@)),
            }),
    {
        let chars = match self.mode {
            RenderMode::Inline => self.render_inline_nodes(nodes),
            RenderMode::Block => self.render_block_nodes(nodes),
        };
        chars_to_string(&chars)
    }

    // =========================================================================
    // INLINE RENDERING (1D compact)
    // =========================================================================

    fn render_inline_nodes(&self, nodes: &[MathNode]) -> (r: Vec<char>)
        ensures
            r@ == inline_list(nodes_model(nodes@)),
        decreases nodes@,
    {
        let ghost m = nodes_model(nodes@);
        proof {
            lemma_nodes_model_index(nodes@);
        }
        let mut out: Vec<char> = Vec::new();
        let mut i: usize = 0;
        while i < nodes.len()
            invariant
                i <= nodes@.len(),
                m == nodes_model(nodes@),
                m.len() == nodes@.len(),
                forall|j: int| 0 <= j < nodes@.len() ==> #[trigger] m[j] == node_model(nodes@[j]),
                out@ == inline_concat(m.take(i as int)),
            decreases nodes@.len() - i,
        {
            let piece = self.render_inline_node(&nodes[i]);
            proof {
                assert(m.take(i + 1).drop_last() == m.take(i as int));
            }
            push_all(&mut out, &piece);
            i += 1;
        }
        proof {
            assert(m.take(nodes@.len() as int) == m);
        }
        normalize_spaces(&out)
    }

    /// The cells of a matrix row, separated by `, `.
    fn render_inline_cells(&self, row: &Vec<Vec<MathNode>>) -> (r: Vec<char>)
        ensures
            r@ == inline_cells(crate::ast::cells_model(row@)),
        decreases row@,
    {
        let ghost m = crate::ast::cells_model(row@);
        proof {
            lemma_cells_model_index(row@);
        }
        let mut out: Vec<char> = Vec::new();
        let mut j: usize = 0;
        while j < row.len()
            invariant
                j <= row@.len(),
                m == crate::ast::cells_model(row@),
                m.len() == row@.len(),
                forall|k: int| 0 <= k < row@.len() ==> #[trigger] m[k] == nodes_model(row@[k]@),
                out@ == inline_cells(m.take(j as int)),
            decreases row@.len() - j,
        {
            proof {
                assert(decreases_to!(row@ => row@[j as int]));
            }
            let cell = self.render_inline_nodes(row[j].as_slice());
            proof {
                assert(m.take(j + 1).drop_last() == m.take(j as int));
                assert(m.take(j + 1).last() == m[j as int]);
            }
            if j > 0 {
                push_lit(&mut out, ", ");
            }
            push_all(&mut out, &cell);
            j += 1;
        }
        proof {
            assert(m.take(row@.len() as int) == m);
        }
        out
    }

    fn render_inline_node(&self, node: &MathNode) -> (r: Vec<char>)
        ensures
            r@ == inline_of(node_model(*node)),
        decreases node,
    {
        match node {
            MathNode::Text(s) => str_chars(s.as_str()),
            MathNode::Symbol(s) => str_chars(s.as_str()),
            MathNode::Space(s) => str_chars(s.as_str()),
            MathNode::Group(children) => self.render_inline_nodes(children.as_slice()),
            MathNode::Superscript { base, exp } => {
                let mut out = match base {
                    Some(b) => self.render_inline_node(&**b),
                    None => Vec::new(),
                };
                let exp_str = self.render_inline_node(&**exp);
                let converted_exp = to_unicode_sup(&exp_str);
                push_all(&mut out, &converted_exp);
                out
            },
            MathNode::Subscript { base, sub } => {
                let mut out = match base {
                    Some(b) => self.render_inline_node(&**b),
                    None => Vec::new(),
                };
                let sub_str = self.render_inline_node(&**sub);
                let converted_sub = to_unicode_sub(&sub_str);
                push_all(&mut out, &converted_sub);
                out
            },
            MathNode::SubSup { base, sub, exp } => {
                let mut out = match base {
                    Some(b) => self.render_inline_node(&**b),
                    None => Vec::new(),
                };
                let sub_str = self.render_inline_node(&**sub);
                let exp_str = self.render_inline_node(&**exp);
                push_all(&mut out, &to_unicode_sub(&sub_str));
                push_all(&mut out, &to_unicode_sup(&exp_str));
                out
            },
            MathNode::Frac { num, den } => {
                // Parens only when the side is a compound expression (operators / spaces)
                let num_fmt = frac_side_fmt(self.render_inline_node(&**num));
                let den_fmt = frac_side_fmt(self.render_inline_node(&**den));
                let mut out = num_fmt;
                push_lit(&mut out, "/");
                push_all(&mut out, &den_fmt);
                out
            },
            MathNode::Sqrt { index, radicand } => {
                let rad_str = self.render_inline_node(&**radicand);
                let mut rad_fmt: Vec<char> = Vec::new();
                if is_compound(&rad_str, false) {
                    push_lit(&mut rad_fmt, "(");
                    push_all(&mut rad_fmt, &rad_str);
                    push_lit(&mut rad_fmt, ")");
                } else {
                    push_all(&mut rad_fmt, &rad_str);
                }
                let mut out = match index {
                    Some(idx) => to_unicode_sup(&self.render_inline_node(&**idx)),
                    None => Vec::new(),
                };
                push_lit(&mut out, "√");
                push_all(&mut out, &rad_fmt);
                out
            },
            MathNode::Binom { n, k } => {
                // Compact choose notation; block mode upgrades to 2D paren form
                let n_str = self.render_inline_node(&**n);
                let k_str = self.render_inline_node(&**k);
                let mut out: Vec<char> = Vec::new();
                push_lit(&mut out, "C(");
                push_all(&mut out, &n_str);
                push_lit(&mut out, ", ");
                push_all(&mut out, &k_str);
                push_lit(&mut out, ")");
                out
            },
            MathNode::Accent { accent, base } => {
                let base_str = self.render_inline_node(&**base);
                let mut out: Vec<char> = Vec::new();
                if base_str.len() > 0 {
                    out.push(base_str[0]);
                    out.push(*accent);
                    let rest = copy_range(&base_str, 1, base_str.len());
                    push_all(&mut out, &rest);
                    assert(out@ == seq![base_str@[0], *accent] + base_str@.skip(1));
                } else {
                    out.push(*accent);
                }
                out
            },
            MathNode::Delimited { left, body, right } => {
                let mut out = str_chars(left.as_str());
                let body_str = self.render_inline_nodes(body.as_slice());
                push_all(&mut out, &body_str);
                push_all(&mut out, &str_chars(right.as_str()));
                out
            },
            MathNode::Boxed(inner) => {
                let inner_str = self.render_inline_node(&**inner);
                let mut out: Vec<char> = Vec::new();
                push_lit(&mut out, "| ");
                push_all(&mut out, &inner_str);
                push_lit(&mut out, " |");
                out
            },
            MathNode::Overline(inner) => {
                let inner_str = self.render_inline_node(&**inner);
                let mut out: Vec<char> = Vec::new();
                push_lit(&mut out, "¯(");
                push_all(&mut out, &inner_str);
                push_lit(&mut out, ")¯");
                out
            },
            MathNode::Underline(inner) => {
                let inner_str = self.render_inline_node(&**inner);
                let mut out: Vec<char> = Vec::new();
                push_lit(&mut out, "_(");
                push_all(&mut out, &inner_str);
                push_lit(&mut out, ")_");
                out
            },
            MathNode::Underbrace { body, label } => {
                let mut out = self.render_inline_node(&**body);
                push_lit(&mut out, "⏟");
                match label {
                    Some(lab) => {
                        let lab_str = self.render_inline_node(&**lab);
                        push_all(&mut out, &to_unicode_sub(&lab_str));
                    },
                    None => {},
                }
                out
            },
            MathNode::Overbrace { body, label } => {
                let body_str = self.render_inline_node(&**body);
                match label {
                    Some(lab) => {
                        let lab_str = self.render_inline_node(&**lab);
                        let mut out = body_str;
                        push_lit(&mut out, "⏞");
                        push_all(&mut out, &to_unicode_sup(&lab_str));
                        out
                    },
                    None => {
                        let mut out: Vec<char> = Vec::new();
                        push_lit(&mut out, "⏞");
                        push_all(&mut out, &body_str);
                        out
                    },
                }
            },
            MathNode::Matrix { kind, rows } => {
                let (open, close) = inline_brackets_of(*kind);
                let ghost rm = rows_model(rows@);
                proof {
                    lemma_rows_model_index(rows@);
                    assert(decreases_to!(node => rows@));
                }
                let mut body: Vec<char> = Vec::new();
                let mut i: usize = 0;
                while i < rows.len()
                    invariant
                        i <= rows@.len(),
                        rm == rows_model(rows@),
                        rm.len() == rows@.len(),
                        forall|k: int|
                            0 <= k < rows@.len() ==> #[trigger] rm[k] == crate::ast::cells_model(
                                rows@[k]@,
                            ),
                        decreases_to!(node => rows@),
                        body@ == inline_rows(rm.take(i as int)),
                    decreases rows@.len() - i,
                {
                    proof {
                        assert(decreases_to!(rows@ => rows@[i as int]));
                    }
                    let row_str = self.render_inline_cells(&rows[i]);
                    proof {
                        assert(rm.take(i + 1).drop_last() == rm.take(i as int));
                        assert(rm.take(i + 1).last() == rm[i as int]);
                    }
                    if i > 0 {
                        push_lit(&mut body, "; ");
                    }
                    push_all(&mut body, &row_str);
                    i += 1;
                }
                proof {
                    assert(rm.take(rows@.len() as int) == rm);
                }
                let mut out: Vec<char> = Vec::new();
                push_lit(&mut out, open);
                push_all(&mut out, &body);
                push_lit(&mut out, close);
                out
            },
        }
    }

    // =========================================================================
    // BLOCK RENDERING (2D formatted math)
    // =========================================================================

    fn render_block_nodes(&self, nodes: &[MathNode]) -> (r: Vec<char>)
        ensures
            r@ == block(nodes_model(nodes@)),
    {
        let ghost m = nodes_model(nodes@);
        proof {
            lemma_nodes_model_index(nodes@);
            assert(m.skip(0) == m);
        }
        // Matrices / cases: high-fidelity 2D
        let mut i: usize = 0;
        while i < nodes.len()
            invariant
                i <= nodes@.len(),
                m == nodes_model(nodes@),
                m.len() == nodes@.len(),
                forall|j: int| 0 <= j < nodes@.len() ==> #[trigger] m[j] == node_model(nodes@[j]),
                first_matrix(m) == first_matrix(m.skip(i as int)),
            decreases nodes@.len() - i,
        {
            proof {
                assert(m.skip(i as int)[0] == m[i as int]);
                assert(m.skip(i as int).drop_first() == m.skip(i + 1));
            }
            match &nodes[i] {
                MathNode::Matrix { kind, rows } => {
                    return self.render_2d_matrix(*kind, rows);
                },
                _ => {},
            }
            i += 1;
        }
        proof {
            assert(m.skip(nodes@.len() as int).len() == 0);
        }
        // Single underbrace / overbrace / binom / frac → dedicated 2D
        if nodes.len() == 1 {
            match &nodes[0] {
                MathNode::Underbrace { body, label } => {
                    return self.render_2d_brace(&**body, label, true);
                },
                MathNode::Overbrace { body, label } => {
                    return self.render_2d_brace(&**body, label, false);
                },
                MathNode::Binom { n, k } => {
                    return self.render_2d_binom(&**n, &**k);
                },
                MathNode::Frac { num, den } => {
                    return self.render_2d_frac(&**num, &**den);
                },
                _ => {},
            }
        }
        // Mixed expression containing underbrace/overbrace: expand those nodes 2D
        if any_brace(nodes) {
            return self.render_block_with_braces(nodes);
        }
        // Standard display block: indented inline rendering
        let rendered = self.render_inline_nodes(nodes);
        let mut out: Vec<char> = Vec::new();
        push_lit(&mut out, "  ");
        push_all(&mut out, &rendered);
        out
    }

    /// 2D underbrace (under=true) or overbrace (under=false).
    fn render_2d_brace(&self, body: &MathNode, label: &Option<Box<MathNode>>, under: bool) -> (r:
        Vec<char>)
        ensures
            r@ == brace_2d(node_model(*body), opt_model(*label), under),
    {
        let body_str = self.render_inline_node(body);
        let label_str = match label {
            Some(l) => self.render_inline_node(&**l),
            None => Vec::new(),
        };
        let body_w = visual_width(&body_str);
        let label_w = visual_width(&label_str);
        let mut width = if body_w >= label_w {
            body_w
        } else {
            label_w
        };
        if width < 1 {
            width = 1;
        }
        let glyph = if under {
            '⏟'
        } else {
            '⏞'
        };
        let brace_line = brace_bar_of(glyph, width);
        let body_col = center_pad(&body_str, width);
        let label_col = center_pad(&label_str, width);
        stack_brace_lines(&body_col, &brace_line, &label_col, label_str.len() > 0, under)
    }

    fn render_2d_binom(&self, n: &MathNode, k: &MathNode) -> (r: Vec<char>)
        ensures
            r@ == binom_2d(node_model(*n), node_model(*k)),
    {
        let n_str = self.render_inline_node(n);
        let k_str = self.render_inline_node(k);
        let w = if visual_width(&n_str) >= visual_width(&k_str) {
            visual_width(&n_str)
        } else {
            visual_width(&k_str)
        };
        let mut out: Vec<char> = Vec::new();
        push_lit(&mut out, "  ⎛ ");
        push_all(&mut out, &center_pad(&n_str, w));
        push_lit(&mut out, " ⎞\n  ⎝ ");
        push_all(&mut out, &center_pad(&k_str, w));
        push_lit(&mut out, " ⎠");
        out
    }

    fn render_2d_frac(&self, num: &MathNode, den: &MathNode) -> (r: Vec<char>)
        ensures
            r@ == frac_2d(node_model(*num), node_model(*den)),
    {
        let num_str = self.render_inline_node(num);
        let den_str = self.render_inline_node(den);
        let mut w = if visual_width(&num_str) >= visual_width(&den_str) {
            visual_width(&num_str)
        } else {
            visual_width(&den_str)
        };
        if w < 1 {
            w = 1;
        }
        let mut out: Vec<char> = Vec::new();
        push_lit(&mut out, "  ");
        push_all(&mut out, &center_pad(&num_str, w));
        push_lit(&mut out, "\n  ");
        push_repeat(&mut out, '─', w);
        push_lit(&mut out, "\n  ");
        push_all(&mut out, &center_pad(&den_str, w));
        out
    }

    /// The body, brace and label columns of one node of a brace expression.
    fn brace_piece_of(&self, node: &MathNode) -> (r: (Vec<char>, Vec<char>, Vec<char>))
        ensures
            (r.0@, r.1@, r.2@) == brace_piece(node_model(*node)),
    {
        match node {
            MathNode::Underbrace { body, label } => self.brace_columns_of(&**body, label, '⏟'),
            MathNode::Overbrace { body, label } => self.brace_columns_of(&**body, label, '⏞'),
            other => {
                let s = self.render_inline_node(other);
                let mut blank: Vec<char> = Vec::new();
                push_repeat(&mut blank, ' ', s.len());
                let mut blank2: Vec<char> = Vec::new();
                push_repeat(&mut blank2, ' ', s.len());
                (s, blank, blank2)
            },
        }
    }

    /// The centered body, brace and label columns of one brace.
    fn brace_columns_of(&self, body: &MathNode, label: &Option<Box<MathNode>>, glyph: char) -> (r: (
        Vec<char>,
        Vec<char>,
        Vec<char>,
    ))
        ensures
            ({
                let b = inline_of(node_model(*body));
                let l = label_text(opt_model(*label));
                let w = brace_width(b, l);
                (r.0@, r.1@, r.2@) == (centered(b, w), brace_bar(glyph, w), centered(l, w))
            }),
    {
        let body_str = self.render_inline_node(body);
        let label_str = match label {
            Some(l) => self.render_inline_node(&**l),
            None => Vec::new(),
        };
        let mut w = if visual_width(&body_str) >= visual_width(&label_str) {
            visual_width(&body_str)
        } else {
            visual_width(&label_str)
        };
        if w < 1 {
            w = 1;
        }
        (center_pad(&body_str, w), brace_bar_of(glyph, w), center_pad(&label_str, w))
    }

    /// Block render when the expression mixes braces with other tokens.
    fn render_block_with_braces(&self, nodes: &[MathNode]) -> (r: Vec<char>)
        ensures
            r@ == with_braces(nodes_model(nodes@)),
    {
        let ghost m = nodes_model(nodes@);
        proof {
            lemma_nodes_model_index(nodes@);
            assert(m.take(0) == Seq::<SpecNode>::empty());
        }
        let mut body_line: Vec<char> = Vec::new();
        let mut bar_line: Vec<char> = Vec::new();
        let mut label_line: Vec<char> = Vec::new();
        let mut has_brace_part = false;
        let mut has_over_part = false;
        let mut i: usize = 0;
        while i < nodes.len()
            invariant
                i <= nodes@.len(),
                m == nodes_model(nodes@),
                m.len() == nodes@.len(),
                forall|j: int| 0 <= j < nodes@.len() ==> #[trigger] m[j] == node_model(nodes@[j]),
                (body_line@, bar_line@, label_line@) == brace_columns(m.take(i as int)),
                has_brace_part == has_brace(m.take(i as int)),
                has_over_part == has_overbrace(m.take(i as int)),
            decreases nodes@.len() - i,
        {
            proof {
                lemma_has_brace_step(m, i as int);
                assert(m.take(i + 1).drop_last() == m.take(i as int));
                assert(m.take(i + 1).last() == m[i as int]);
            }
            match &nodes[i] {
                MathNode::Underbrace { .. } => {
                    has_brace_part = true;
                },
                MathNode::Overbrace { .. } => {
                    has_brace_part = true;
                    has_over_part = true;
                },
                _ => {},
            }
            let (b, r, l) = self.brace_piece_of(&nodes[i]);
            push_all(&mut body_line, &b);
            push_all(&mut bar_line, &r);
            push_all(&mut label_line, &l);
            i += 1;
        }
        proof {
            assert(m.take(nodes@.len() as int) == m);
        }
        let mut out: Vec<char> = Vec::new();
        if !has_brace_part {
            push_lit(&mut out, "  ");
            push_all(&mut out, &self.render_inline_nodes(nodes));
            return out;
        }
        let (first, last) = if !has_over_part {
            (body_line, label_line)
        } else {
            (label_line, body_line)
        };
        push_lit(&mut out, "  ");
        push_all(&mut out, &first);
        push_lit(&mut out, "\n  ");
        push_all(&mut out, &bar_line);
        push_lit(&mut out, "\n  ");
        push_all(&mut out, &last);
        out
    }

    fn render_2d_matrix(&self, kind: MatrixKind, rows: &Vec<Vec<Vec<MathNode>>>) -> (r: Vec<char>)
        ensures
            r@ == matrix_2d(kind, rows_model(rows@)),
    {
        let ghost rm = rows_model(rows@);
        let ghost g = grid(rm);
        if rows.len() == 0 {
            return Vec::new();
        }
        proof {
            lemma_rows_model_index(rows@);
        }
        // The rendered cells
        let mut rendered_grid: Vec<Vec<Vec<char>>> = Vec::new();
        let mut i: usize = 0;
        while i < rows.len()
            invariant
                i <= rows@.len(),
                rm == rows_model(rows@),
                g == grid(rm),
                rm.len() == rows@.len(),
                forall|k: int|
                    0 <= k < rows@.len() ==> #[trigger] rm[k] == crate::ast::cells_model(
                        rows@[k]@,
                    ),
                texts_view(rendered_grid@) == g.take(i as int),
            decreases rows@.len() - i,
        {
            let row = &rows[i];
            let ghost cm = crate::ast::cells_model(row@);
            proof {
                lemma_cells_model_index(row@);
            }
            let mut cells: Vec<Vec<char>> = Vec::new();
            let mut j: usize = 0;
            while j < row.len()
                invariant
                    j <= row@.len(),
                    cm == crate::ast::cells_model(row@),
                    cm.len() == row@.len(),
                    forall|k: int| 0 <= k < row@.len() ==> #[trigger] cm[k] == nodes_model(row@[k]@),
                    row_view(cells@) == crate::layout::cell_texts(cm).take(j as int),
                decreases row@.len() - j,
            {
                let cell = self.render_inline_nodes(row[j].as_slice());
                proof {
                    assert(row_view(cells@.push(cell)) == row_view(cells@).push(cell@));
                }
                cells.push(cell);
                j += 1;
                assert(row_view(cells@) == crate::layout::cell_texts(cm).take(j as int));
            }
            proof {
                assert(crate::layout::cell_texts(cm).take(row@.len() as int) == crate::layout::cell_texts(cm));
                assert(texts_view(rendered_grid@.push(cells)) == texts_view(rendered_grid@).push(row_view(cells@)));
            }
            rendered_grid.push(cells);
            i += 1;
            assert(texts_view(rendered_grid@) == g.take(i as int));
        }
        proof {
            assert(g.take(rows@.len() as int) == g);
        }
        let n = rendered_grid.len();
        // Column widths
        let mut num_cols: usize = 0;
        let mut r: usize = 0;
        while r < n
            invariant
                n == rendered_grid@.len(),
                r <= n,
                forall|k: int| 0 <= k < r ==> #[trigger] rendered_grid@[k]@.len() <= num_cols,
            decreases n - r,
        {
            if rendered_grid[r].len() > num_cols {
                num_cols = rendered_grid[r].len();
            }
            r += 1;
        }
        let mut col_widths: Vec<usize> = Vec::new();
        let mut c: usize = 0;
        while c < num_cols
            invariant
                c <= num_cols,
                col_widths@.len() == c,
                forall|k: int| 0 <= k < c ==> #[trigger] col_widths@[k] == 0,
            decreases num_cols - c,
        {
            col_widths.push(0);
            c += 1;
        }
        let ghost gv = texts_view(rendered_grid@);
        let mut r: usize = 0;
        while r < n
            invariant
                n == rendered_grid@.len(),
                gv == texts_view(rendered_grid@),
                r <= n,
                col_widths@.len() == num_cols,
                forall|k: int| 0 <= k < n ==> #[trigger] rendered_grid@[k]@.len() <= num_cols,
                forall|k: int| 0 <= k < num_cols ==> #[trigger] col_widths@[k] == col_width(gv.take(r as int), k),
            decreases n - r,
        {
            let row = &rendered_grid[r];
            proof {
                assert(gv.take(r + 1).drop_last() == gv.take(r as int));
                assert(gv.take(r + 1).last() == gv[r as int]);
            }
            let mut c: usize = 0;
            while c < row.len()
                invariant
                    row == rendered_grid@[r as int],
                    gv == texts_view(rendered_grid@),
                    r < n,
                    n == rendered_grid@.len(),
                    c <= row@.len() <= num_cols,
                    gv[r as int] == row_view(row@),
                    col_widths@.len() == num_cols,
                    forall|k: int| 0 <= k < num_cols ==> #[trigger] col_widths@[k] == (if k < c {
                        col_width(gv.take(r + 1), k)
                    } else {
                        col_width(gv.take(r as int), k)
                    }),
                decreases row@.len() - c,
            {
                let cw = row[c].len();
                proof {
                    lemma_col_width_step(gv, r as int, c as int);
                    assert(gv[r as int][c as int] == row@[c as int]@);
                }
                if cw > col_widths[c] {
                    col_widths.set(c, cw);
                }
                c += 1;
            }
            proof {
                assert forall|k: int| 0 <= k < num_cols implies #[trigger] col_widths@[k] == col_width(gv.take(r + 1), k) by {
                    lemma_col_width_step(gv, r as int, k);
                }
            }
            r += 1;
        }
        proof {
            assert(gv.take(n as int) == gv);
            assert(gv == g);
        }
        // The lines
        let mut out: Vec<char> = Vec::new();
        let mut r: usize = 0;
        while r < n
            invariant
                n == rendered_grid@.len(),
                n >= 1,
                n == rows@.len(),
                g == texts_view(rendered_grid@),
                g == grid(rows_model(rows@)),
                r <= n,
                col_widths@.len() == num_cols,
                forall|k: int| 0 <= k < n ==> #[trigger] rendered_grid@[k]@.len() <= num_cols,
                forall|k: int| 0 <= k < num_cols ==> #[trigger] col_widths@[k] == col_width(g, k),
                out@ == matrix_lines(kind, g, r as int),
            decreases n - r,
        {
            let row = &rendered_grid[r];
            let (left_delim, right_delim) = row_brackets_of(kind, r, n);
            let mut line: Vec<char> = Vec::new();
            push_lit(&mut line, "  ");
            push_lit(&mut line, left_delim);
            push_lit(&mut line, " ");
            let ghost prefix = line@;
            let mut c: usize = 0;
            while c < row.len()
                invariant
                    row == rendered_grid@[r as int],
                    g == texts_view(rendered_grid@),
                    r < n,
                    n == rendered_grid@.len(),
                    c <= row@.len() <= num_cols,
                    col_widths@.len() == num_cols,
                    forall|k: int| 0 <= k < num_cols ==> #[trigger] col_widths@[k] == col_width(g, k),
                    line@ == prefix + row_content(g, g[r as int], c as int),
                decreases row@.len() - c,
            {
                let cell = &row[c];
                let w = col_widths[c];
                proof {
                    lemma_col_width(g, c as int);
                    assert(g[r as int][c as int] == cell@);
                }
                if c > 0 {
                    push_lit(&mut line, "   ");
                }
                push_all(&mut line, cell);
                push_repeat(&mut line, ' ', w - cell.len());
                c += 1;
                assert(line@ == prefix + row_content(g, g[r as int], c as int));
            }
            push_lit(&mut line, " ");
            push_lit(&mut line, right_delim);
            let end = trim_end_len(&line);
            let trimmed = copy_range(&line, 0, end);
            if r > 0 {
                push_lit(&mut out, "\n");
            }
            push_all(&mut out, &trimmed);
            r += 1;
        }
        out
    }
}

/// The lines of a lone brace, each indented by two spaces: body above brace
/// above label for an underbrace, label above brace above body for an
/// overbrace; the label line is left out when there is no label.
fn stack_brace_lines(
    body_col: &Vec<char>,
    bar: &Vec<char>,
    label_col: &Vec<char>,
    has_label: bool,
    under: bool,
) -> (r: Vec<char>)
    ensures
        ({
            let body_line = "  "@ + body_col@;
            let bar_line = "  "@ + bar@;
            let label_line = "  "@ + label_col@;
            let label_part = if has_label {
                "\n"@ + label_line
            } else {
                Seq::empty()
            };
            let label_top = if has_label {
                label_line + "\n"@
            } else {
                Seq::empty()
            };
            r@ == if under {
                body_line + "\n"@ + bar_line + label_part
            } else {
                label_top + bar_line + "\n"@ + body_line
            }
        }),
{
    let mut out: Vec<char> = Vec::new();
    if under {
        push_lit(&mut out, "  ");
        push_all(&mut out, body_col);
        push_lit(&mut out, "\n");
        push_lit(&mut out, "  ");
        push_all(&mut out, bar);
        if has_label {
            push_lit(&mut out, "\n");
            push_lit(&mut out, "  ");
            push_all(&mut out, label_col);
        }
    } else {
        if has_label {
            push_lit(&mut out, "  ");
            push_all(&mut out, label_col);
            push_lit(&mut out, "\n");
        }
        push_lit(&mut out, "  ");
        push_all(&mut out, bar);
        push_lit(&mut out, "\n");
        push_lit(&mut out, "  ");
        push_all(&mut out, body_col);
    }
    out
}

/// Whether some node is an underbrace or an overbrace.
fn any_brace(nodes: &[MathNode]) -> (r: bool)
    ensures
        r == has_brace(nodes_model(nodes@)),
{
    let ghost m = nodes_model(nodes@);
    proof {
        lemma_nodes_model_index(nodes@);
        assert(m.take(0) == Seq::<SpecNode>::empty());
    }
    let mut i: usize = 0;
    while i < nodes.len()
        invariant
            i <= nodes@.len(),
            m == nodes_model(nodes@),
            m.len() == nodes@.len(),
            forall|j: int| 0 <= j < nodes@.len() ==> #[trigger] m[j] == node_model(nodes@[j]),
            !has_brace(m.take(i as int)),
        decreases nodes@.len() - i,
    {
        proof {
            lemma_has_brace_step(m, i as int);
        }
        match &nodes[i] {
            MathNode::Underbrace { .. } | MathNode::Overbrace { .. } => {
                proof {
                    assert(m.take(nodes@.len() as int) == m);
                    lemma_has_brace_prefix(m, i + 1);
                }
                return true;
            },
            _ => {},
        }
        i += 1;
    }
    proof {
        assert(m.take(nodes@.len() as int) == m);
    }
    false
}

/// The line of a 2D brace `w` columns wide.
fn brace_bar_of(glyph: char, w: usize) -> (r: Vec<char>)
    ensures
        r@ == brace_bar(glyph, w as int),
{
    if w <= 3 {
        let mut g: Vec<char> = Vec::new();
        g.push(glyph);
        center_pad(&g, w)
    } else {
        let mut v: Vec<char> = Vec::new();
        push_repeat(&mut v, '─', w);
        v
    }
}

/// The brackets of row `r` of a 2D matrix of `n` rows.
fn row_brackets_of(kind: MatrixKind, r: usize, n: usize) -> (res: (&'static str, &'static str))
    requires
        r < n,
    ensures
        (res.0@, res.1@) == row_brackets(kind, r as int, n as int),
{
    if n == 1 {
        match kind {
            MatrixKind::Paren => ("(", ")"),
            MatrixKind::Bracket => ("[", "]"),
            MatrixKind::Brace => ("{", "}"),
            MatrixKind::Vbar => ("|", "|"),
            MatrixKind::VVbar => ("‖", "‖"),
            _ => ("", ""),
        }
    } else {
        let (top_l, mid_l, bot_l, top_r, mid_r, bot_r) = match kind {
            MatrixKind::Plain => (" ", " ", " ", " ", " ", " "),
            MatrixKind::Paren => ("⎛", "⎜", "⎝", "⎞", "⎟", "⎠"),
            MatrixKind::Bracket => ("⎡", "⎢", "⎣", "⎤", "⎥", "⎦"),
            MatrixKind::Brace => ("⎧", "⎨", "⎩", "⎫", "⎬", "⎭"),
            MatrixKind::Vbar => ("│", "│", "│", "│", "│", "│"),
            MatrixKind::VVbar => ("║", "║", "║", "║", "║", "║"),
            MatrixKind::Cases => ("⎧", "⎨", "⎩", "", "", ""),
        };
        if r == 0 {
            (top_l, top_r)
        } else if r == n - 1 {
            (bot_l, bot_r)
        } else {
            (mid_l, mid_r)
        }
    }
}

/// The characters of each rendered cell of a row.
pub open spec fn row_view(v: Seq<Vec<char>>) -> Seq<Seq<char>> {
    Seq::new(v.len(), |j: int| v[j]@)
}

/// The characters of each rendered cell of a grid.
pub open spec fn texts_view(v: Seq<Vec<Vec<char>>>) -> Seq<Seq<Seq<char>>> {
    Seq::new(v.len(), |i: int| row_view(v[i]@))
}

} // verus!
