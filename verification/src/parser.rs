//! Recursive-descent parser for mathematical LaTeX.
//!
//! Transforms a LaTeX character stream into a `MathNode` tree. What it builds is
//! stated by the spec functions of `grammar`.

use vstd::prelude::*;
use vstd::string::StringExecFns;
use crate::ast::{
    cells_model, lemma_cells_model_len, lemma_cells_model_push, lemma_models_empty,
    lemma_nodes_model_len, lemma_nodes_model_push,
    lemma_rows_model_push, node_model, nodes_model, opt_model, opt_node_model, rows_model,
    MathNode, MatrixKind, SpecNode,
};
use crate::grammar::{
    finish_rows, group_loop, index_loop, right_loop, env_loop, parse_node_at, parse_arg_at,
    parse_group_at, parse_until_right_at, parse_env_at, parse_command_at, top_loop,
    lemma_arg_after_ws, lemma_arg_pos, lemma_node_pos, lemma_name_end, lemma_index_loop_pos,
    lemma_delimiter, lemma_env_name, lemma_env_mark, lemma_top_loop_pos,
    alpha_end, close_brace_at, collapse, collapse_step, lemma_collapse_push, command_symbol, delimiter, env_kind,
    env_name, lemma_alpha_end, lemma_close_brace_at, lemma_ws_end, or_empty, restyle,
    restyle_all, styled_text, ws_end, lemma_restyle_all_push,
};
use crate::symbols::{lookup_combining_accent, lookup_symbol, style_char, Font};
use crate::text::{
    char_is_alphabetic, char_is_white_space, char_string, chars_eq, chars_to_string, eq_lit,
    push_all,
    str_chars,
};

verus! {

/// A parser over the characters of one formula.
pub struct Parser {
    chars: Vec<char>,
    pos: usize,
}

impl Parser {
    /// The characters being parsed.
    pub closed spec fn input(&self) -> Seq<char> {
        self.chars@
    }

    /// The position of the next character to read.
    pub closed spec fn position(&self) -> int {
        self.pos as int
    }

    /// The position never passes the end of the input.
    pub closed spec fn wf(&self) -> bool {
        self.pos <= self.chars.len()
    }

    /// A parser at the start of `input`.
    pub fn new(input: &str) -> (p: Self)
        ensures
            p.wf(),
            p.input() == input@,
            p.position() == 0,
    {
        Self { chars: str_chars(input), pos: 0 }
    }

    fn peek(&self) -> (r: Option<char>)
        requires
            self.wf(),
        ensures
            r == (if self.pos < self.chars@.len() {
                Some(self.chars@[self.pos as int])
            } else {
                None
            }),
    {
        if self.pos < self.chars.len() {
            Some(self.chars[self.pos])
        } else {
            None
        }
    }

    fn advance(&mut self) -> (r: Option<char>)
        requires
            old(self).wf(),
        ensures
            final(self).wf(),
            final(self).chars@ == old(self).chars@,
            old(self).pos < old(self).chars@.len() ==> r == Some(
                old(self).chars@[old(self).pos as int],
            ) && final(self).pos == old(self).pos + 1,
            old(self).pos >= old(self).chars@.len() ==> r is None && final(self).pos
                == old(self).pos,
    {
        if self.pos < self.chars.len() {
            let c = self.chars[self.pos];
            self.pos = self.pos + 1;
            Some(c)
        } else {
            None
        }
    }

    fn skip_whitespace(&mut self)
        requires
            old(self).wf(),
        ensures
            final(self).wf(),
            final(self).chars@ == old(self).chars@,
            final(self).pos == ws_end(old(self).chars@, old(self).pos as int),
    {
        let ghost s = self.chars@;
        let ghost p0 = self.pos as int;
        proof {
            lemma_ws_end(s, p0);
        }
        while self.pos < self.chars.len() && char_is_white_space(self.chars[self.pos])
            invariant
                self.wf(),
                self.chars@ == s,
                ws_end(s, self.pos as int) == ws_end(s, p0),
            decreases s.len() - self.pos,
        {
            self.pos = self.pos + 1;
        }
    }

    /// Reads a run of alphabetic characters.
    fn read_letters(&mut self) -> (name: Vec<char>)
        requires
            old(self).wf(),
        ensures
            final(self).wf(),
            final(self).chars@ == old(self).chars@,
            final(self).pos == alpha_end(old(self).chars@, old(self).pos as int),
            name@ == old(self).chars@.subrange(old(self).pos as int, final(self).pos as int),
    {
        let ghost s = self.chars@;
        let ghost p0 = self.pos as int;
        let mut name: Vec<char> = Vec::new();
        while self.pos < self.chars.len() && char_is_alphabetic(self.chars[self.pos])
            invariant
                self.wf(),
                self.chars@ == s,
                0 <= p0 <= self.pos <= s.len(),
                alpha_end(s, self.pos as int) == alpha_end(s, p0),
                name@ == s.subrange(p0, self.pos as int),
            decreases s.len() - self.pos,
        {
            name.push(self.chars[self.pos]);
            self.pos = self.pos + 1;
            assert(name@ == s.subrange(p0, self.pos as int));
        }
        name
    }

    fn parse_env_name(&mut self) -> (name: Vec<char>)
        requires
            old(self).wf(),
        ensures
            final(self).wf(),
            final(self).chars@ == old(self).chars@,
            (name@, final(self).pos as int) == env_name(old(self).chars@, old(self).pos as int),
    {
        let ghost s = self.chars@;
        let ghost p0 = self.pos as int;
        self.skip_whitespace();
        let ghost q0 = self.pos as int;
        if self.pos < self.chars.len() && self.chars[self.pos] == '{' {
            self.pos = self.pos + 1;
            proof {
                lemma_close_brace_at(s, q0 + 1);
            }
            let mut name: Vec<char> = Vec::new();
            while self.pos < self.chars.len() && self.chars[self.pos] != '}'
                invariant
                    self.wf(),
                    self.chars@ == s,
                    0 <= q0 + 1 <= self.pos <= s.len(),
                    close_brace_at(s, self.pos as int) == close_brace_at(s, q0 + 1),
                    name@ == s.subrange(q0 + 1, self.pos as int),
                decreases s.len() - self.pos,
            {
                name.push(self.chars[self.pos]);
                self.pos = self.pos + 1;
                assert(name@ == s.subrange(q0 + 1, self.pos as int));
            }
            if self.pos < self.chars.len() {
                self.pos = self.pos + 1;
            }
            name
        } else {
            Vec::new()
        }
    }

    fn parse_right_delimiter(&mut self) -> (d: String)
        requires
            old(self).wf(),
        ensures
            final(self).wf(),
            final(self).chars@ == old(self).chars@,
            (d@, final(self).pos as int) == delimiter(old(self).chars@, old(self).pos as int),
    {
        self.skip_whitespace();
        match self.advance() {
            Some(c) => char_string(c),
            None => String::new(),
        }
    }

    fn parse_node(&mut self) -> (r: Option<MathNode>)
        requires
            old(self).wf(),
        ensures
            final(self).wf(),
            final(self).chars@ == old(self).chars@,
            (opt_node_model(r), final(self).pos as int) == parse_node_at(
                old(self).chars@,
                old(self).pos as int,
            ),
        decreases old(self).chars@.len() - old(self).pos, 0int,
    {
        let ghost s = self.chars@;
        let ghost p = self.pos as int;
        let c = match self.peek() {
            None => {
                return None;
            },
            Some(c) => c,
        };
        match c {
            '\\' => {
                self.advance();
                self.parse_command()
            },
            '{' => {
                self.advance();
                let children = self.parse_until_brace();
                Some(MathNode::Group(children))
            },
            '}' => {
                // Stray closing brace, consume
                self.advance();
                None
            },
            '^' => {
                self.advance();
                self.skip_whitespace();
                proof {
                    lemma_ws_end(s, p + 1);
                    lemma_arg_after_ws(s, p + 1);
                }
                match self.parse_single_arg() {
                    Some(arg) => Some(MathNode::Superscript { base: None, exp: Box::new(arg) }),
                    None => None,
                }
            },
            '_' => {
                self.advance();
                self.skip_whitespace();
                proof {
                    lemma_ws_end(s, p + 1);
                    lemma_arg_after_ws(s, p + 1);
                }
                match self.parse_single_arg() {
                    Some(arg) => Some(MathNode::Subscript { base: None, sub: Box::new(arg) }),
                    None => None,
                }
            },
            ' ' | '\t' | '\n' | '\r' => {
                self.advance();
                Some(MathNode::Space(char_string(' ')))
            },
            _ => {
                self.advance();
                Some(MathNode::Text(char_string(c)))
            },
        }
    }

    fn parse_until_brace(&mut self) -> (r: Vec<MathNode>)
        requires
            old(self).wf(),
        ensures
            final(self).wf(),
            final(self).chars@ == old(self).chars@,
            (nodes_model(r@), final(self).pos as int) == parse_group_at(
                old(self).chars@,
                old(self).pos as int,
            ),
        decreases old(self).chars@.len() - old(self).pos, 2int,
    {
        let ghost s = self.chars@;
        let ghost p0 = self.pos as int;
        let mut nodes: Vec<MathNode> = Vec::new();
        proof {
            lemma_models_empty();
        }
        loop
            invariant
                self.wf(),
                self.chars@ == s,
                s == old(self).chars@,
                p0 == old(self).pos,
                p0 <= self.pos,
                group_loop(s, self.pos as int, nodes_model(nodes@)) == group_loop(
                    s,
                    p0,
                    Seq::empty(),
                ),
            decreases s.len() - self.pos,
        {
            let c = match self.peek() {
                None => {
                    return self.collapse_sub_sup(nodes);
                },
                Some(c) => c,
            };
            if c == '}' {
                self.advance();
                return self.collapse_sub_sup(nodes);
            }
            proof {
                lemma_node_pos(s, self.pos as int);
            }
            match self.parse_node() {
                Some(node) => {
                    proof {
                        lemma_nodes_model_push(nodes@, node);
                    }
                    nodes.push(node);
                },
                None => {},
            }
        }
    }

    fn parse_single_arg(&mut self) -> (r: Option<MathNode>)
        requires
            old(self).wf(),
        ensures
            final(self).wf(),
            final(self).chars@ == old(self).chars@,
            (opt_node_model(r), final(self).pos as int) == parse_arg_at(
                old(self).chars@,
                old(self).pos as int,
            ),
        decreases old(self).chars@.len() - old(self).pos, 0int,
    {
        let ghost s = self.chars@;
        let ghost p = self.pos as int;
        proof {
            lemma_ws_end(s, p);
        }
        self.skip_whitespace();
        let c = match self.peek() {
            None => {
                return None;
            },
            Some(c) => c,
        };
        if c == '{' {
            self.advance();
            let nodes = self.parse_until_brace();
            Some(MathNode::Group(nodes))
        } else if c == '\\' {
            self.advance();
            self.parse_command()
        } else {
            self.advance();
            Some(MathNode::Text(char_string(c)))
        }
    }

    /// The nodes of a root index, up to its closing `]`.
    fn parse_index(&mut self) -> (r: Vec<MathNode>)
        requires
            old(self).wf(),
        ensures
            final(self).wf(),
            final(self).chars@ == old(self).chars@,
            (nodes_model(r@), final(self).pos as int) == index_loop(
                old(self).chars@,
                old(self).pos as int,
                Seq::empty(),
            ),
        decreases old(self).chars@.len() - old(self).pos, 1int,
    {
        let ghost s = self.chars@;
        let ghost p0 = self.pos as int;
        let mut nodes: Vec<MathNode> = Vec::new();
        proof {
            lemma_models_empty();
        }
        loop
            invariant
                self.wf(),
                self.chars@ == s,
                s == old(self).chars@,
                p0 == old(self).pos,
                p0 <= self.pos,
                index_loop(s, self.pos as int, nodes_model(nodes@)) == index_loop(
                    s,
                    p0,
                    Seq::empty(),
                ),
            decreases s.len() - self.pos,
        {
            let c = match self.peek() {
                None => {
                    return nodes;
                },
                Some(c) => c,
            };
            if c == ']' {
                self.advance();
                return nodes;
            }
            proof {
                lemma_node_pos(s, self.pos as int);
            }
            match self.parse_node() {
                Some(node) => {
                    proof {
                        lemma_nodes_model_push(nodes@, node);
                    }
                    nodes.push(node);
                },
                None => {},
            }
        }
    }

    fn parse_until_right(&mut self) -> (r: Vec<MathNode>)
        requires
            old(self).wf(),
        ensures
            final(self).wf(),
            final(self).chars@ == old(self).chars@,
            (nodes_model(r@), final(self).pos as int) == parse_until_right_at(
                old(self).chars@,
                old(self).pos as int,
            ),
        decreases old(self).chars@.len() - old(self).pos, 2int,
    {
        let ghost s = self.chars@;
        let ghost p0 = self.pos as int;
        let mut nodes: Vec<MathNode> = Vec::new();
        proof {
            lemma_models_empty();
        }
        loop
            invariant
                self.wf(),
                self.chars@ == s,
                s == old(self).chars@,
                p0 == old(self).pos,
                p0 <= self.pos,
                right_loop(s, self.pos as int, nodes_model(nodes@)) == right_loop(
                    s,
                    p0,
                    Seq::empty(),
                ),
            decreases s.len() - self.pos,
        {
            if self.pos >= self.chars.len() {
                return self.collapse_sub_sup(nodes);
            }
            if self.chars[self.pos] == '\\' {
                // Check if following is "right"
                let saved_pos = self.pos;
                self.advance();
                let cmd = self.read_letters();
                if eq_lit(&cmd, "right") {
                    return self.collapse_sub_sup(nodes);
                } else {
                    self.pos = saved_pos;
                }
            }
            proof {
                lemma_node_pos(s, self.pos as int);
            }
            match self.parse_node() {
                Some(node) => {
                    proof {
                        lemma_nodes_model_push(nodes@, node);
                    }
                    nodes.push(node);
                },
                None => {},
            }
        }
    }

    fn parse_environment(&mut self, env_name: &Vec<char>) -> (r: Option<MathNode>)
        requires
            old(self).wf(),
        ensures
            final(self).wf(),
            final(self).chars@ == old(self).chars@,
            (opt_node_model(r), final(self).pos as int) == parse_env_at(
                old(self).chars@,
                old(self).pos as int,
                env_name@,
            ),
        decreases old(self).chars@.len() - old(self).pos, 2int,
    {
        let ghost s = self.chars@;
        let ghost p0 = self.pos as int;
        let ghost env = env_name@;
        let kind = env_kind_of(env_name);
        let mut rows: Vec<Vec<Vec<MathNode>>> = Vec::new();
        let mut current_row: Vec<Vec<MathNode>> = Vec::new();
        let mut current_cell: Vec<MathNode> = Vec::new();
        proof {
            lemma_models_empty();
        }
        loop
            invariant
                self.wf(),
                self.chars@ == s,
                s == old(self).chars@,
                p0 == old(self).pos,
                env == env_name@,
                kind == env_kind(env),
                p0 <= self.pos,
                env_loop(
                    s,
                    self.pos as int,
                    env,
                    rows_model(rows@),
                    cells_model(current_row@),
                    nodes_model(current_cell@),
                ) == env_loop(s, p0, env, Seq::empty(), Seq::empty(), Seq::empty()),
            decreases s.len() - self.pos,
        {
            let ghost q = self.pos as int;
            if self.pos >= self.chars.len() {
                return Some(finish_matrix(kind, rows, current_row, current_cell));
            }
            proof {
                lemma_env_mark(s, q, env);
            }
            // Check for row separator \\ or \end{env_name}
            if self.chars[self.pos] == '\\' {
                let saved_pos = self.pos;
                self.advance();
                if self.pos < self.chars.len() && self.chars[self.pos] == '\\' {
                    self.advance();
                    // Double backslash = row separator
                    proof {
                        lemma_cells_model_push(current_row@, current_cell);
                    }
                    current_row.push(current_cell);
                    current_cell = Vec::new();
                    proof {
                        lemma_rows_model_push(rows@, current_row);
                        lemma_models_empty();
                    }
                    rows.push(current_row);
                    current_row = Vec::new();
                    continue;
                }
                let cmd = self.read_letters();
                if eq_lit(&cmd, "end") {
                    let end_env = self.parse_env_name();
                    if chars_eq(&end_env, env_name) {
                        return Some(finish_matrix(kind, rows, current_row, current_cell));
                    }
                } else {
                    self.pos = saved_pos;
                }
            }
            if self.pos < self.chars.len() && self.chars[self.pos] == '&' {
                self.advance();
                proof {
                    lemma_cells_model_push(current_row@, current_cell);
                    lemma_models_empty();
                }
                current_row.push(current_cell);
                current_cell = Vec::new();
                continue;
            }
            proof {
                lemma_node_pos(s, self.pos as int);
            }
            match self.parse_node() {
                Some(node) => {
                    proof {
                        lemma_nodes_model_push(current_cell@, node);
                    }
                    current_cell.push(node);
                },
                None => {},
            }
        }
    }

    #[verifier::rlimit(100)]
    #[verifier::spinoff_prover]
    fn parse_command(&mut self) -> (r: Option<MathNode>)
        requires
            old(self).wf(),
        ensures
            final(self).wf(),
            final(self).chars@ == old(self).chars@,
            (opt_node_model(r), final(self).pos as int) == parse_command_at(
                old(self).chars@,
                old(self).pos as int,
            ),
        decreases old(self).chars@.len() - old(self).pos, 0int,
    {
        let ghost s = self.chars@;
        let ghost p = self.pos as int;
        let c = match self.peek() {
            None => {
                return Some(symbol_node(&Vec::new()));
            },
            Some(c) => c,
        };
        proof {
            lemma_name_end(s, p);
        }
        // Special single char commands (e.g. \, \; \: \!)
        let name: Vec<char> = if !char_is_alphabetic(c) {
            self.advance();
            let mut n: Vec<char> = Vec::new();
            n.push(c);
            assert(n@ == s.subrange(p, p + 1));
            n
        } else {
            self.read_letters()
        };
        let ghost q = self.pos as int;
        if eq_lit(&name, "frac") || eq_lit(&name, "dfrac") || eq_lit(&name, "tfrac") {
            proof {
                lemma_arg_pos(s, q);
            }
            let num = self.parse_single_arg();
            let den = self.parse_single_arg();
            Some(MathNode::Frac { num: Box::new(arg_or_empty(num)), den: Box::new(arg_or_empty(den)) })
        } else if eq_lit(&name, "sqrt") {
            proof {
                lemma_ws_end(s, q);
            }
            self.skip_whitespace();
            let mut index: Option<Box<MathNode>> = None;
            if self.pos < self.chars.len() && self.chars[self.pos] == '[' {
                self.advance();
                proof {
                    lemma_index_loop_pos(s, self.pos as int, Seq::empty());
                }
                let idx_nodes = self.parse_index();
                let ghost idx_m = nodes_model(idx_nodes@);
                let grp = MathNode::Group(idx_nodes);
                assert(node_model(grp) == SpecNode::Group(idx_m));
                index = Some(Box::new(grp));
            }
            let radicand = self.parse_single_arg();
            Some(MathNode::Sqrt { index, radicand: Box::new(arg_or_empty(radicand)) })
        } else if eq_lit(&name, "binom") || eq_lit(&name, "tbinom") || eq_lit(&name, "dbinom") {
            proof {
                lemma_arg_pos(s, q);
            }
            let n = self.parse_single_arg();
            let k = self.parse_single_arg();
            Some(MathNode::Binom { n: Box::new(arg_or_empty(n)), k: Box::new(arg_or_empty(k)) })
        } else if eq_lit(&name, "boxed") {
            let inner = self.parse_single_arg();
            Some(MathNode::Boxed(Box::new(arg_or_empty(inner))))
        } else if eq_lit(&name, "vec") || eq_lit(&name, "hat") || eq_lit(&name, "widehat")
            || eq_lit(&name, "bar") || eq_lit(&name, "dot") || eq_lit(&name, "ddot") || eq_lit(
            &name,
            "tilde",
        ) || eq_lit(&name, "widetilde") {
            match lookup_combining_accent(&name) {
                Some(acc) => {
                    let base = self.parse_single_arg();
                    Some(MathNode::Accent { accent: acc, base: Box::new(arg_or_empty(base)) })
                },
                None => Some(MathNode::Text(chars_to_string(&name))),
            }
        } else if eq_lit(&name, "mathbb") {
            let arg = arg_or_empty(self.parse_single_arg());
            Some(self.apply_alphabet_transform(arg, Font::DoubleStruck))
        } else if eq_lit(&name, "mathcal") {
            let arg = arg_or_empty(self.parse_single_arg());
            Some(self.apply_alphabet_transform(arg, Font::Script))
        } else if eq_lit(&name, "mathfrak") {
            let arg = arg_or_empty(self.parse_single_arg());
            Some(self.apply_alphabet_transform(arg, Font::Fraktur))
        } else if eq_lit(&name, "text") || eq_lit(&name, "mathrm") || eq_lit(&name, "mathit")
            || eq_lit(&name, "mathbf") || eq_lit(&name, "operatorname") {
            Some(arg_or_empty(self.parse_single_arg()))
        } else if eq_lit(&name, "left") {
            proof {
                lemma_delimiter(s, q);
            }
            self.skip_whitespace();
            let left_delim = match self.advance() {
                Some(d) => char_string(d),
                None => String::new(),
            };
            let body = self.parse_until_right();
            let right_delim = self.parse_right_delimiter();
            Some(MathNode::Delimited { left: left_delim, body, right: right_delim })
        } else if eq_lit(&name, "begin") {
            proof {
                lemma_env_name(s, q);
            }
            let env_name = self.parse_env_name();
            self.parse_environment(&env_name)
        } else if eq_lit(&name, "overline") {
            let arg = self.parse_single_arg();
            Some(MathNode::Overline(Box::new(arg_or_empty(arg))))
        } else if eq_lit(&name, "underline") {
            let arg = self.parse_single_arg();
            Some(MathNode::Underline(Box::new(arg_or_empty(arg))))
        } else if eq_lit(&name, "underbrace") || eq_lit(&name, "overbrace") {
            let under = eq_lit(&name, "underbrace");
            proof {
                lemma_arg_pos(s, q);
            }
            let body = Box::new(arg_or_empty(self.parse_single_arg()));
            let saved_pos = self.pos;
            proof {
                lemma_ws_end(s, self.pos as int);
            }
            self.skip_whitespace();
            let mark = if under {
                '_'
            } else {
                '^'
            };
            let label = if self.pos < self.chars.len() && self.chars[self.pos] == mark {
                self.advance();
                match self.parse_single_arg() {
                    Some(l) => Some(Box::new(l)),
                    None => None,
                }
            } else {
                self.pos = saved_pos;
                None
            };
            if under {
                Some(MathNode::Underbrace { body, label })
            } else {
                Some(MathNode::Overbrace { body, label })
            }
        } else {
            Some(symbol_node(&name))
        }
    }

    /// Parses the whole remaining input.
    pub fn parse(&mut self) -> (nodes: Vec<MathNode>)
        requires
            old(self).wf(),
        ensures
            final(self).wf(),
            final(self).input() == old(self).input(),
            final(self).position() == old(self).input().len(),
            nodes_model(nodes@) == collapse(
                top_loop(old(self).input(), old(self).position(), Seq::empty()).0,
            ),
    {
        let ghost s = self.chars@;
        let ghost p0 = self.pos as int;
        let mut nodes: Vec<MathNode> = Vec::new();
        proof {
            lemma_models_empty();
            lemma_top_loop_pos(s, p0, Seq::empty());
        }
        while self.pos < self.chars.len()
            invariant
                self.wf(),
                self.chars@ == s,
                top_loop(s, self.pos as int, nodes_model(nodes@)) == top_loop(s, p0, Seq::empty()),
                top_loop(s, p0, Seq::empty()).1 == s.len(),
            decreases s.len() - self.pos,
        {
            proof {
                lemma_node_pos(s, self.pos as int);
            }
            match self.parse_node() {
                Some(node) => {
                    proof {
                        lemma_nodes_model_push(nodes@, node);
                    }
                    nodes.push(node);
                },
                None => {},
            }
        }
        self.collapse_sub_sup(nodes)
    }

    /// `\mathbb` and friends: restyles text, and groups throughout.
    fn apply_alphabet_transform(&self, node: MathNode, font: Font) -> (r: MathNode)
        ensures
            node_model(r) == restyle(node_model(node), font),
        decreases node,
    {
        match node {
            MathNode::Text(t) => {
                let ghost ts = t@;
                let mut out: Vec<char> = Vec::new();
                for c in it: t.as_str().chars()
                    invariant
                        it.seq() == ts,
                        out@ == styled_text(ts.take(it.index() as int), font),
                {
                    let ghost k = it.index() as int;
                    let sc = match style_char(font, c) {
                        Some(x) => x,
                        None => c,
                    };
                    out.push(sc);
                    assert(out@ == styled_text(ts.take(k + 1), font));
                }
                assert(ts.take(ts.len() as int) == ts);
                MathNode::Symbol(chars_to_string(&out))
            },
            MathNode::Group(children) => {
                let ghost all = children@;
                let ghost ch_vec = children;
                proof {
                    assert(decreases_to!(node => ch_vec));
                    assert(decreases_to!(ch_vec => ch_vec@));
                    assert(decreases_to!(node => ch_vec@));
                }
                let mut out: Vec<MathNode> = Vec::new();
                proof {
                    lemma_models_empty();
                    assert(all.take(0) == Seq::<MathNode>::empty());
                }
                for child in it: children
                    invariant
                        it.seq() == all,
                        decreases_to!(node => all),
                        nodes_model(out@) == restyle_all(
                            nodes_model(all.take(it.index() as int)),
                            font,
                        ),
                {
                    let ghost k = it.index() as int;
                    proof {
                        assert(all.take(k + 1) == all.take(k).push(child));
                        lemma_nodes_model_push(all.take(k), child);
                        lemma_restyle_all_push(nodes_model(all.take(k)), node_model(child), font);
                        assert(child == all[k]);
                        assert(decreases_to!(all => all[k]));
                        assert(decreases_to!(node => child));
                    }
                    let c2 = self.apply_alphabet_transform(child, font);
                    proof {
                        lemma_nodes_model_push(out@, c2);
                    }
                    out.push(c2);
                }
                assert(all.take(all.len() as int) == all);
                MathNode::Group(out)
            },
            other => other,
        }
    }

    /// Attaches base-less scripts to the node before them.
    fn collapse_sub_sup(&self, nodes: Vec<MathNode>) -> (r: Vec<MathNode>)
        ensures
            nodes_model(r@) == collapse(nodes_model(nodes@)),
    {
        let ghost all = nodes@;
        let mut result: Vec<MathNode> = Vec::new();
        proof {
            lemma_models_empty();
            assert(all.take(0) == Seq::<MathNode>::empty());
        }
        for node in it: nodes
            invariant
                it.seq() == all,
                nodes_model(result@) == collapse(nodes_model(all.take(it.index() as int))),
        {
            let ghost k = it.index() as int;
            proof {
                assert(all.take(k + 1) == all.take(k).push(node));
                lemma_nodes_model_push(all.take(k), node);
                lemma_collapse_push(nodes_model(all.take(k)), node_model(node));
            }
            collapse_push(&mut result, node);
        }
        proof {
            assert(all.take(all.len() as int) == all);
        }
        result
    }
}

/// The argument, or an empty text node where there is none.
fn arg_or_empty(a: Option<MathNode>) -> (r: MathNode)
    ensures
        node_model(r) == or_empty(opt_node_model(a)),
{
    match a {
        Some(n) => n,
        None => MathNode::Text(String::new()),
    }
}

/// The node of an unknown or symbol command `\name`.
fn symbol_node(name: &Vec<char>) -> (r: MathNode)
    ensures
        node_model(r) == command_symbol(name@),
{
    match lookup_symbol(name) {
        Some(sym) => MathNode::Symbol(String::from_str(sym)),
        None => {
            let mut t: Vec<char> = Vec::new();
            t.push('\\');
            push_all(&mut t, name);
            assert(t@ == seq!['\\'] + name@);
            MathNode::Text(chars_to_string(&t))
        },
    }
}

/// The bracket style of the environment `name`.
fn env_kind_of(name: &Vec<char>) -> (k: MatrixKind)
    ensures
        k == env_kind(name@),
{
    if eq_lit(name, "pmatrix") {
        MatrixKind::Paren
    } else if eq_lit(name, "bmatrix") {
        MatrixKind::Bracket
    } else if eq_lit(name, "Bmatrix") {
        MatrixKind::Brace
    } else if eq_lit(name, "vmatrix") {
        MatrixKind::Vbar
    } else if eq_lit(name, "Vmatrix") {
        MatrixKind::VVbar
    } else if eq_lit(name, "cases") {
        MatrixKind::Cases
    } else {
        MatrixKind::Plain
    }
}

/// The matrix node once the environment ends, closing the pending row.
fn finish_matrix(
    kind: MatrixKind,
    rows: Vec<Vec<Vec<MathNode>>>,
    current_row: Vec<Vec<MathNode>>,
    current_cell: Vec<MathNode>,
) -> (r: MathNode)
    ensures
        node_model(r) == (SpecNode::Matrix {
            kind,
            rows: finish_rows(
                rows_model(rows@),
                cells_model(current_row@),
                nodes_model(current_cell@),
            ),
        }),
{
    let mut rows = rows;
    let mut current_row = current_row;
    proof {
        lemma_nodes_model_len(current_cell@);
        lemma_cells_model_len(current_row@);
    }
    if !current_cell.is_empty() || !current_row.is_empty() {
        proof {
            lemma_cells_model_push(current_row@, current_cell);
        }
        current_row.push(current_cell);
        proof {
            lemma_rows_model_push(rows@, current_row);
        }
        rows.push(current_row);
    }
    MathNode::Matrix { kind, rows }
}

/// Appends `node` to `result`, attaching it to the last node when it is a
/// base-less script.
fn collapse_push(result: &mut Vec<MathNode>, node: MathNode)
    ensures
        nodes_model(final(result)@) == collapse_step(nodes_model(old(result)@), node_model(node)),
{
    let ghost pre = result@;
    proof {
        assert(opt_model(None::<Box<MathNode>>) == None::<Box<SpecNode>>);
    }
    match node {
        MathNode::Superscript { base: None, exp } => {
            match result.pop() {
                Some(last) => {
                    proof {
                        assert(pre == result@.push(last));
                        lemma_nodes_model_push(result@, last);
                    }
                    match last {
                        MathNode::Subscript { base, sub } => {
                            let n = MathNode::SubSup { base, sub, exp };
                            proof {
                                lemma_nodes_model_push(result@, n);
                            }
                            result.push(n);
                        },
                        other => {
                            let n = MathNode::Superscript { base: Some(Box::new(other)), exp };
                            proof {
                                lemma_nodes_model_push(result@, n);
                            }
                            result.push(n);
                        },
                    }
                },
                None => {
                    let n = MathNode::Superscript { base: None, exp };
                    proof {
                        lemma_nodes_model_push(result@, n);
                    }
                    result.push(n);
                },
            }
        },
        MathNode::Subscript { base: None, sub } => {
            match result.pop() {
                Some(last) => {
                    proof {
                        assert(pre == result@.push(last));
                        lemma_nodes_model_push(result@, last);
                    }
                    match last {
                        MathNode::Superscript { base, exp } => {
                            let n = MathNode::SubSup { base, sub, exp };
                            proof {
                                lemma_nodes_model_push(result@, n);
                            }
                            result.push(n);
                        },
                        other => {
                            let n = MathNode::Subscript { base: Some(Box::new(other)), sub };
                            proof {
                                lemma_nodes_model_push(result@, n);
                            }
                            result.push(n);
                        },
                    }
                },
                None => {
                    let n = MathNode::Subscript { base: None, sub };
                    proof {
                        lemma_nodes_model_push(result@, n);
                    }
                    result.push(n);
                },
            }
        },
        other => {
            proof {
                lemma_nodes_model_push(result@, other);
            }
            result.push(other);
        },
    }
}

} // verus!
