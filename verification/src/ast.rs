//! Abstract syntax tree for LaTeX math expressions, and its mathematical model.

use vstd::prelude::*;

verus! {

/// A node of a parsed LaTeX formula.
#[derive(Debug, PartialEq)]
pub enum MathNode {
    /// Raw textual/alphanumeric content
    Text(String),
    /// A single symbol resolved to a Unicode character/string
    Symbol(String),
    /// A group enclosed in braces: `{ ... }`
    Group(Vec<MathNode>),
    /// Superscript: `base^{exponent}`
    Superscript { base: Option<Box<MathNode>>, exp: Box<MathNode> },
    /// Subscript: `base_{subscript}`
    Subscript { base: Option<Box<MathNode>>, sub: Box<MathNode> },
    /// Combined sub and super: `base_{sub}^{exp}`
    SubSup { base: Option<Box<MathNode>>, sub: Box<MathNode>, exp: Box<MathNode> },
    /// Fraction: `\frac{numerator}{denominator}`
    Frac { num: Box<MathNode>, den: Box<MathNode> },
    /// Square or n-th root: `\sqrt[n]{radicand}`
    Sqrt { index: Option<Box<MathNode>>, radicand: Box<MathNode> },
    /// Binomial coefficient: `\binom{n}{k}`
    Binom { n: Box<MathNode>, k: Box<MathNode> },
    /// Accent over a base: `\vec{x}`, `\hat{y}`
    Accent { accent: char, base: Box<MathNode> },
    /// Delimited block: `\left( ... \right)`
    Delimited { left: String, body: Vec<MathNode>, right: String },
    /// Matrix / Table environments: `\begin{matrix} ... \end{matrix}`
    Matrix { kind: MatrixKind, rows: Vec<Vec<Vec<MathNode>>> },
    /// Boxed formula: `\boxed{...}`
    Boxed(Box<MathNode>),
    /// Overline
    Overline(Box<MathNode>),
    /// Underline
    Underline(Box<MathNode>),
    /// Underbrace: `\underbrace{body}_{label}`
    Underbrace { body: Box<MathNode>, label: Option<Box<MathNode>> },
    /// Overbrace: `\overbrace{body}^{label}`
    Overbrace { body: Box<MathNode>, label: Option<Box<MathNode>> },
    /// Plain space
    Space(String),
}

/// The bracket style of a matrix-like environment.
#[derive(Debug, Clone, Copy, PartialEq, Eq, Structural)]
pub enum MatrixKind {
    /// `matrix`, `aligned`, ...
    Plain,
    /// `pmatrix`: ( ... )
    Paren,
    /// `bmatrix`: [ ... ]
    Bracket,
    /// `Bmatrix`: { ... }
    Brace,
    /// `vmatrix`: | ... |
    Vbar,
    /// `Vmatrix`: || ... ||
    VVbar,
    /// `cases`: {
    Cases,
}

/// The mathematical model of a `MathNode`: strings become character sequences
/// and vectors become sequences.
pub enum SpecNode {
    Text(Seq<char>),
    Symbol(Seq<char>),
    Group(Seq<SpecNode>),
    Superscript { base: Option<Box<SpecNode>>, exp: Box<SpecNode> },
    Subscript { base: Option<Box<SpecNode>>, sub: Box<SpecNode> },
    SubSup { base: Option<Box<SpecNode>>, sub: Box<SpecNode>, exp: Box<SpecNode> },
    Frac { num: Box<SpecNode>, den: Box<SpecNode> },
    Sqrt { index: Option<Box<SpecNode>>, radicand: Box<SpecNode> },
    Binom { n: Box<SpecNode>, k: Box<SpecNode> },
    Accent { accent: char, base: Box<SpecNode> },
    Delimited { left: Seq<char>, body: Seq<SpecNode>, right: Seq<char> },
    Matrix { kind: MatrixKind, rows: Seq<Seq<Seq<SpecNode>>> },
    Boxed(Box<SpecNode>),
    Overline(Box<SpecNode>),
    Underline(Box<SpecNode>),
    Underbrace { body: Box<SpecNode>, label: Option<Box<SpecNode>> },
    Overbrace { body: Box<SpecNode>, label: Option<Box<SpecNode>> },
    Space(Seq<char>),
}

/// Model of a node.
pub open spec fn node_model(n: MathNode) -> SpecNode
    decreases n,
{
    match n {
        MathNode::Text(s) => SpecNode::Text(s@),
        MathNode::Symbol(s) => SpecNode::Symbol(s@),
        MathNode::Group(v) => SpecNode::Group(nodes_model(v@)),
        MathNode::Superscript { base, exp } => SpecNode::Superscript {
            base: match base {
                Some(b) => Some(Box::new(node_model(*b))),
                None => None,
            },
            exp: Box::new(node_model(*exp)),
        },
        MathNode::Subscript { base, sub } => SpecNode::Subscript {
            base: match base {
                Some(b) => Some(Box::new(node_model(*b))),
                None => None,
            },
            sub: Box::new(node_model(*sub)),
        },
        MathNode::SubSup { base, sub, exp } => SpecNode::SubSup {
            base: match base {
                Some(b) => Some(Box::new(node_model(*b))),
                None => None,
            },
            sub: Box::new(node_model(*sub)),
            exp: Box::new(node_model(*exp)),
        },
        MathNode::Frac { num, den } => SpecNode::Frac {
            num: Box::new(node_model(*num)),
            den: Box::new(node_model(*den)),
        },
        MathNode::Sqrt { index, radicand } => SpecNode::Sqrt {
            index: match index {
                Some(b) => Some(Box::new(node_model(*b))),
                None => None,
            },
            radicand: Box::new(node_model(*radicand)),
        },
        MathNode::Binom { n, k } => SpecNode::Binom {
            n: Box::new(node_model(*n)),
            k: Box::new(node_model(*k)),
        },
        MathNode::Accent { accent, base } => SpecNode::Accent {
            accent,
            base: Box::new(node_model(*base)),
        },
        MathNode::Delimited { left, body, right } => SpecNode::Delimited {
            left: left@,
            body: nodes_model(body@),
            right: right@,
        },
        MathNode::Matrix { kind, rows } => SpecNode::Matrix { kind, rows: rows_model(rows@) },
        MathNode::Boxed(b) => SpecNode::Boxed(Box::new(node_model(*b))),
        MathNode::Overline(b) => SpecNode::Overline(Box::new(node_model(*b))),
        MathNode::Underline(b) => SpecNode::Underline(Box::new(node_model(*b))),
        MathNode::Underbrace { body, label } => SpecNode::Underbrace {
            body: Box::new(node_model(*body)),
            label: match label {
                Some(b) => Some(Box::new(node_model(*b))),
                None => None,
            },
        },
        MathNode::Overbrace { body, label } => SpecNode::Overbrace {
            body: Box::new(node_model(*body)),
            label: match label {
                Some(b) => Some(Box::new(node_model(*b))),
                None => None,
            },
        },
        MathNode::Space(s) => SpecNode::Space(s@),
    }
}

/// Model of an optional child.
pub open spec fn opt_model(o: Option<Box<MathNode>>) -> Option<Box<SpecNode>> {
    match o {
        Some(b) => Some(Box::new(node_model(*b))),
        None => None,
    }
}

/// Model of a sequence of nodes.
pub open spec fn nodes_model(v: Seq<MathNode>) -> Seq<SpecNode>
    decreases v,
{
    if v.len() == 0 {
        Seq::empty()
    } else {
        nodes_model(v.drop_last()).push(node_model(v.last()))
    }
}

/// Model of the rows of a matrix.
pub open spec fn rows_model(v: Seq<Vec<Vec<MathNode>>>) -> Seq<Seq<Seq<SpecNode>>>
    decreases v,
{
    if v.len() == 0 {
        Seq::empty()
    } else {
        rows_model(v.drop_last()).push(cells_model(v.last()@))
    }
}

/// Model of the cells of one matrix row.
pub open spec fn cells_model(v: Seq<Vec<MathNode>>) -> Seq<Seq<SpecNode>>
    decreases v,
{
    if v.len() == 0 {
        Seq::empty()
    } else {
        cells_model(v.drop_last()).push(nodes_model(v.last()@))
    }
}


/// Model of an optional node.
pub open spec fn opt_node_model(o: Option<MathNode>) -> Option<SpecNode> {
    match o {
        Some(n) => Some(node_model(n)),
        None => None,
    }
}

pub proof fn lemma_nodes_model_push(v: Seq<MathNode>, x: MathNode)
    ensures
        nodes_model(v.push(x)) == nodes_model(v).push(node_model(x)),
        nodes_model(v).len() == v.len(),
{
    assert(v.push(x).drop_last() == v);
    lemma_nodes_model_len(v);
}

pub proof fn lemma_nodes_model_len(v: Seq<MathNode>)
    ensures
        nodes_model(v).len() == v.len(),
    decreases v.len(),
{
    if v.len() > 0 {
        lemma_nodes_model_len(v.drop_last());
    }
}

pub proof fn lemma_cells_model_push(v: Seq<Vec<MathNode>>, x: Vec<MathNode>)
    ensures
        cells_model(v.push(x)) == cells_model(v).push(nodes_model(x@)),
{
    assert(v.push(x).drop_last() == v);
}

pub proof fn lemma_nodes_model_index(v: Seq<MathNode>)
    ensures
        nodes_model(v).len() == v.len(),
        forall|i: int| 0 <= i < v.len() ==> #[trigger] nodes_model(v)[i] == node_model(v[i]),
    decreases v.len(),
{
    if v.len() > 0 {
        lemma_nodes_model_index(v.drop_last());
    }
}

pub proof fn lemma_cells_model_index(v: Seq<Vec<MathNode>>)
    ensures
        cells_model(v).len() == v.len(),
        forall|i: int| 0 <= i < v.len() ==> #[trigger] cells_model(v)[i] == nodes_model(v[i]@),
    decreases v.len(),
{
    if v.len() > 0 {
        lemma_cells_model_index(v.drop_last());
    }
}

pub proof fn lemma_rows_model_index(v: Seq<Vec<Vec<MathNode>>>)
    ensures
        rows_model(v).len() == v.len(),
        forall|i: int| 0 <= i < v.len() ==> #[trigger] rows_model(v)[i] == cells_model(v[i]@),
    decreases v.len(),
{
    if v.len() > 0 {
        lemma_rows_model_index(v.drop_last());
    }
}

pub proof fn lemma_cells_model_len(v: Seq<Vec<MathNode>>)
    ensures
        cells_model(v).len() == v.len(),
    decreases v.len(),
{
    if v.len() > 0 {
        lemma_cells_model_len(v.drop_last());
    }
}

pub proof fn lemma_rows_model_push(v: Seq<Vec<Vec<MathNode>>>, x: Vec<Vec<MathNode>>)
    ensures
        rows_model(v.push(x)) == rows_model(v).push(cells_model(x@)),
{
    assert(v.push(x).drop_last() == v);
}

pub proof fn lemma_models_empty()
    ensures
        nodes_model(Seq::<MathNode>::empty()) == Seq::<SpecNode>::empty(),
        cells_model(Seq::<Vec<MathNode>>::empty()) == Seq::<Seq<SpecNode>>::empty(),
        rows_model(Seq::<Vec<Vec<MathNode>>>::empty()) == Seq::<Seq<Seq<SpecNode>>>::empty(),
{
}

} // verus!
