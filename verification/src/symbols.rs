//! Symbol tables: LaTeX command names to Unicode text, combining accents,
//! alphabet styles (blackboard bold, calligraphic, fraktur), and
//! superscript / subscript forms of characters.

use vstd::prelude::*;
use crate::text::{eq_lit, char_from_u32};

verus! {

/// The characters of an optional static string.
pub open spec fn str_opt_view(r: Option<&'static str>) -> Option<Seq<char>> {
    match r {
        Some(s) => Some(s@),
        None => None,
    }
}

/// The Unicode text that the command `\name` stands for, if it is a known symbol:
/// the first table, in the order below, that knows the name decides.
pub open spec fn symbol_of(name: Seq<char>) -> Option<Seq<char>> {
    if greek_symbol(name) is Some {
        greek_symbol(name)
    } else if operator_symbol(name) is Some {
        operator_symbol(name)
    } else if relation_symbol(name) is Some {
        relation_symbol(name)
    } else if arrow_symbol(name) is Some {
        arrow_symbol(name)
    } else if misc_symbol(name) is Some {
        misc_symbol(name)
    } else if spacing_symbol(name) is Some {
        spacing_symbol(name)
    } else {
        function_symbol(name)
    }
}

/// Looks up the Unicode text of the command `\name`.
pub fn lookup_symbol(name: &Vec<char>) -> (r: Option<&'static str>)
    ensures
        str_opt_view(r) == symbol_of(name@),
{
    let r = lookup_greek(name);
    if r.is_some() {
        return r;
    }
    let r = lookup_operator(name);
    if r.is_some() {
        return r;
    }
    let r = lookup_relation(name);
    if r.is_some() {
        return r;
    }
    let r = lookup_arrow(name);
    if r.is_some() {
        return r;
    }
    let r = lookup_misc(name);
    if r.is_some() {
        return r;
    }
    let r = lookup_spacing(name);
    if r.is_some() {
        return r;
    }
    lookup_function(name)
}

/// The combining character of the accent command `\name`.
pub open spec fn accent_of(name: Seq<char>) -> Option<char> {
    if name == "vec"@ {
        Some('\u{20d7}')
    } else if name == "hat"@ || name == "widehat"@ {
        Some('\u{302}')
    } else if name == "bar"@ {
        Some('\u{304}')
    } else if name == "dot"@ {
        Some('\u{307}')
    } else if name == "ddot"@ {
        Some('\u{308}')
    } else if name == "tilde"@ || name == "widetilde"@ {
        Some('\u{303}')
    } else {
        None
    }
}

/// Looks up the combining character of the accent command `\name`.
pub fn lookup_combining_accent(name: &Vec<char>) -> (r: Option<char>)
    ensures
        r == accent_of(name@),
{
    if eq_lit(name, "vec") {
        Some('\u{20d7}')
    } else if eq_lit(name, "hat") || eq_lit(name, "widehat") {
        Some('\u{302}')
    } else if eq_lit(name, "bar") {
        Some('\u{304}')
    } else if eq_lit(name, "dot") {
        Some('\u{307}')
    } else if eq_lit(name, "ddot") {
        Some('\u{308}')
    } else if eq_lit(name, "tilde") || eq_lit(name, "widetilde") {
        Some('\u{303}')
    } else {
        None
    }
}

/// The alphabet styles that `\mathbb`, `\mathcal` and `\mathfrak` select.
#[derive(Debug, Clone, Copy, PartialEq, Eq, Structural)]
pub enum Font {
    /// `\mathbb`: double-struck letters and digits.
    DoubleStruck,
    /// `\mathcal`: script letters.
    Script,
    /// `\mathfrak`: fraktur letters.
    Fraktur,
}

/// The character whose code is `base` plus the offset of `c` from `first`.
pub open spec fn shifted(c: char, first: char, base: int) -> char {
    (base + (c as int - first as int)) as char
}

/// The styled form of `c` in `font`, where the style has one.
pub open spec fn font_char(font: Font, c: char) -> Option<char> {
    match font {
        Font::DoubleStruck => {
            if c == 'C' {
                Some('ℂ')
            } else if c == 'H' {
                Some('ℍ')
            } else if c == 'N' {
                Some('ℕ')
            } else if c == 'P' {
                Some('ℙ')
            } else if c == 'Q' {
                Some('ℚ')
            } else if c == 'R' {
                Some('ℝ')
            } else if c == 'Z' {
                Some('ℤ')
            } else if 'A' <= c && c <= 'Z' {
                Some(shifted(c, 'A', 0x1D538))
            } else if 'a' <= c && c <= 'z' {
                Some(shifted(c, 'a', 0x1D552))
            } else if '0' <= c && c <= '9' {
                Some(shifted(c, '0', 0x1D7D8))
            } else {
                None
            }
        },
        Font::Script => {
            if c == 'B' {
                Some('ℬ')
            } else if c == 'E' {
                Some('ℰ')
            } else if c == 'F' {
                Some('ℱ')
            } else if c == 'H' {
                Some('ℋ')
            } else if c == 'I' {
                Some('ℐ')
            } else if c == 'L' {
                Some('ℒ')
            } else if c == 'M' {
                Some('ℳ')
            } else if c == 'R' {
                Some('ℛ')
            } else if c == 'e' {
                Some('ℯ')
            } else if c == 'g' {
                Some('ℊ')
            } else if c == 'o' {
                Some('ℴ')
            } else if 'A' <= c && c <= 'Z' {
                Some(shifted(c, 'A', 0x1D49C))
            } else if 'a' <= c && c <= 'z' {
                Some(shifted(c, 'a', 0x1D4B6))
            } else {
                None
            }
        },
        Font::Fraktur => {
            if c == 'C' {
                Some('ℭ')
            } else if c == 'H' {
                Some('ℌ')
            } else if c == 'I' {
                Some('ℑ')
            } else if c == 'R' {
                Some('ℜ')
            } else if c == 'Z' {
                Some('ℨ')
            } else if 'A' <= c && c <= 'Z' {
                Some(shifted(c, 'A', 0x1D504))
            } else if 'a' <= c && c <= 'z' {
                Some(shifted(c, 'a', 0x1D51E))
            } else {
                None
            }
        },
    }
}

/// The character `base + (c - first)`, where `c` lies in `first..=first+25`.
fn shift_char(c: char, first: char, base: u32) -> (r: char)
    requires
        first <= c,
        c as int - first as int <= 25,
        0x1D400 <= base <= 0x1D7E0,
    ensures
        r == shifted(c, first, base as int),
{
    let x: u32 = base + (c as u32 - first as u32);
    match char_from_u32(x) {
        Some(r) => {
            assert(r as int == x as int);
            assert(r == (r as int) as char);
            r
        },
        None => c,
    }
}

/// The styled form of `c` in `font`, where the style has one.
pub fn style_char(font: Font, c: char) -> (r: Option<char>)
    ensures
        r == font_char(font, c),
{
    match font {
        Font::DoubleStruck => {
            if c == 'C' {
                Some('ℂ')
            } else if c == 'H' {
                Some('ℍ')
            } else if c == 'N' {
                Some('ℕ')
            } else if c == 'P' {
                Some('ℙ')
            } else if c == 'Q' {
                Some('ℚ')
            } else if c == 'R' {
                Some('ℝ')
            } else if c == 'Z' {
                Some('ℤ')
            } else if 'A' <= c && c <= 'Z' {
                Some(shift_char(c, 'A', 0x1D538))
            } else if 'a' <= c && c <= 'z' {
                Some(shift_char(c, 'a', 0x1D552))
            } else if '0' <= c && c <= '9' {
                Some(shift_char(c, '0', 0x1D7D8))
            } else {
                None
            }
        },
        Font::Script => {
            if c == 'B' {
                Some('ℬ')
            } else if c == 'E' {
                Some('ℰ')
            } else if c == 'F' {
                Some('ℱ')
            } else if c == 'H' {
                Some('ℋ')
            } else if c == 'I' {
                Some('ℐ')
            } else if c == 'L' {
                Some('ℒ')
            } else if c == 'M' {
                Some('ℳ')
            } else if c == 'R' {
                Some('ℛ')
            } else if c == 'e' {
                Some('ℯ')
            } else if c == 'g' {
                Some('ℊ')
            } else if c == 'o' {
                Some('ℴ')
            } else if 'A' <= c && c <= 'Z' {
                Some(shift_char(c, 'A', 0x1D49C))
            } else if 'a' <= c && c <= 'z' {
                Some(shift_char(c, 'a', 0x1D4B6))
            } else {
                None
            }
        },
        Font::Fraktur => {
            if c == 'C' {
                Some('ℭ')
            } else if c == 'H' {
                Some('ℌ')
            } else if c == 'I' {
                Some('ℑ')
            } else if c == 'R' {
                Some('ℜ')
            } else if c == 'Z' {
                Some('ℨ')
            } else if 'A' <= c && c <= 'Z' {
                Some(shift_char(c, 'A', 0x1D504))
            } else if 'a' <= c && c <= 'z' {
                Some(shift_char(c, 'a', 0x1D51E))
            } else {
                None
            }
        },
    }
}

/// The Unicode superscript form of `c`, where one exists.
pub open spec fn superscript_char(c: char) -> Option<char> {
    match c {
        '0' => Some('⁰'),
        '1' => Some('¹'),
        '2' => Some('²'),
        '3' => Some('³'),
        '4' => Some('⁴'),
        '5' => Some('⁵'),
        '6' => Some('⁶'),
        '7' => Some('⁷'),
        '8' => Some('⁸'),
        '9' => Some('⁹'),
        '+' => Some('⁺'),
        '-' => Some('⁻'),
        '=' => Some('⁼'),
        '(' => Some('⁽'),
        ')' => Some('⁾'),
        'a' => Some('ᵃ'),
        'b' => Some('ᵇ'),
        'c' => Some('ᶜ'),
        'd' => Some('ᵈ'),
        'e' => Some('ᵉ'),
        'f' => Some('ᶠ'),
        'g' => Some('ᵍ'),
        'h' => Some('ʰ'),
        'i' => Some('ⁱ'),
        'j' => Some('ʲ'),
        'k' => Some('ᵏ'),
        'l' => Some('ˡ'),
        'm' => Some('ᵐ'),
        'n' => Some('ⁿ'),
        'o' => Some('ᵒ'),
        'p' => Some('ᵖ'),
        'r' => Some('ʳ'),
        's' => Some('ˢ'),
        't' => Some('ᵗ'),
        'u' => Some('ᵘ'),
        'v' => Some('ᵛ'),
        'w' => Some('ʷ'),
        'x' => Some('ˣ'),
        'y' => Some('ʸ'),
        'z' => Some('ᶻ'),
        'A' => Some('ᴬ'),
        'B' => Some('ᴮ'),
        'D' => Some('ᴰ'),
        'E' => Some('ᴱ'),
        'G' => Some('ᴳ'),
        'H' => Some('ᴴ'),
        'I' => Some('ᴵ'),
        'J' => Some('ᴶ'),
        'K' => Some('ᴷ'),
        'L' => Some('ᴸ'),
        'M' => Some('ᴹ'),
        'N' => Some('ᴺ'),
        'O' => Some('ᴼ'),
        'P' => Some('ᴾ'),
        'R' => Some('ᴿ'),
        'T' => Some('ᵀ'),
        'U' => Some('ᵁ'),
        'V' => Some('ⱽ'),
        'W' => Some('ᵂ'),
        'α' => Some('ᵅ'),
        'β' => Some('ᵝ'),
        'γ' => Some('ᵞ'),
        'δ' => Some('ᵟ'),
        'θ' => Some('ᶿ'),
        'ι' => Some('ᶥ'),
        'φ' => Some('ᵠ'),
        'χ' => Some('ᵡ'),
        _ => None,
    }
}

/// The Unicode superscript form of `c`, where one exists.
pub fn to_superscript(c: char) -> (r: Option<char>)
    ensures
        r == superscript_char(c),
{
    match c {
        '0' => Some('⁰'),
        '1' => Some('¹'),
        '2' => Some('²'),
        '3' => Some('³'),
        '4' => Some('⁴'),
        '5' => Some('⁵'),
        '6' => Some('⁶'),
        '7' => Some('⁷'),
        '8' => Some('⁸'),
        '9' => Some('⁹'),
        '+' => Some('⁺'),
        '-' => Some('⁻'),
        '=' => Some('⁼'),
        '(' => Some('⁽'),
        ')' => Some('⁾'),
        'a' => Some('ᵃ'),
        'b' => Some('ᵇ'),
        'c' => Some('ᶜ'),
        'd' => Some('ᵈ'),
        'e' => Some('ᵉ'),
        'f' => Some('ᶠ'),
        'g' => Some('ᵍ'),
        'h' => Some('ʰ'),
        'i' => Some('ⁱ'),
        'j' => Some('ʲ'),
        'k' => Some('ᵏ'),
        'l' => Some('ˡ'),
        'm' => Some('ᵐ'),
        'n' => Some('ⁿ'),
        'o' => Some('ᵒ'),
        'p' => Some('ᵖ'),
        'r' => Some('ʳ'),
        's' => Some('ˢ'),
        't' => Some('ᵗ'),
        'u' => Some('ᵘ'),
        'v' => Some('ᵛ'),
        'w' => Some('ʷ'),
        'x' => Some('ˣ'),
        'y' => Some('ʸ'),
        'z' => Some('ᶻ'),
        'A' => Some('ᴬ'),
        'B' => Some('ᴮ'),
        'D' => Some('ᴰ'),
        'E' => Some('ᴱ'),
        'G' => Some('ᴳ'),
        'H' => Some('ᴴ'),
        'I' => Some('ᴵ'),
        'J' => Some('ᴶ'),
        'K' => Some('ᴷ'),
        'L' => Some('ᴸ'),
        'M' => Some('ᴹ'),
        'N' => Some('ᴺ'),
        'O' => Some('ᴼ'),
        'P' => Some('ᴾ'),
        'R' => Some('ᴿ'),
        'T' => Some('ᵀ'),
        'U' => Some('ᵁ'),
        'V' => Some('ⱽ'),
        'W' => Some('ᵂ'),
        'α' => Some('ᵅ'),
        'β' => Some('ᵝ'),
        'γ' => Some('ᵞ'),
        'δ' => Some('ᵟ'),
        'θ' => Some('ᶿ'),
        'ι' => Some('ᶥ'),
        'φ' => Some('ᵠ'),
        'χ' => Some('ᵡ'),
        _ => None,
    }
}

/// The Unicode subscript form of `c`, where one exists.
pub open spec fn subscript_char(c: char) -> Option<char> {
    match c {
        '0' => Some('₀'),
        '1' => Some('₁'),
        '2' => Some('₂'),
        '3' => Some('₃'),
        '4' => Some('₄'),
        '5' => Some('₅'),
        '6' => Some('₆'),
        '7' => Some('₇'),
        '8' => Some('₈'),
        '9' => Some('₉'),
        '+' => Some('₊'),
        '-' => Some('₋'),
        '=' => Some('₌'),
        '(' => Some('₍'),
        ')' => Some('₎'),
        'a' => Some('ₐ'),
        'e' => Some('ₑ'),
        'h' => Some('ₕ'),
        'i' => Some('ᵢ'),
        'j' => Some('ⱼ'),
        'k' => Some('ₖ'),
        'l' => Some('ₗ'),
        'm' => Some('ₘ'),
        'n' => Some('ₙ'),
        'o' => Some('ₒ'),
        'p' => Some('ₚ'),
        'r' => Some('ᵣ'),
        's' => Some('ₛ'),
        't' => Some('ₜ'),
        'u' => Some('ᵤ'),
        'v' => Some('ᵥ'),
        'x' => Some('ₓ'),
        'β' => Some('ᵦ'),
        'γ' => Some('ᵧ'),
        'ρ' => Some('ᵨ'),
        'φ' => Some('ᵩ'),
        'χ' => Some('ᵪ'),
        _ => None,
    }
}

/// The Unicode subscript form of `c`, where one exists.
pub fn to_subscript(c: char) -> (r: Option<char>)
    ensures
        r == subscript_char(c),
{
    match c {
        '0' => Some('₀'),
        '1' => Some('₁'),
        '2' => Some('₂'),
        '3' => Some('₃'),
        '4' => Some('₄'),
        '5' => Some('₅'),
        '6' => Some('₆'),
        '7' => Some('₇'),
        '8' => Some('₈'),
        '9' => Some('₉'),
        '+' => Some('₊'),
        '-' => Some('₋'),
        '=' => Some('₌'),
        '(' => Some('₍'),
        ')' => Some('₎'),
        'a' => Some('ₐ'),
        'e' => Some('ₑ'),
        'h' => Some('ₕ'),
        'i' => Some('ᵢ'),
        'j' => Some('ⱼ'),
        'k' => Some('ₖ'),
        'l' => Some('ₗ'),
        'm' => Some('ₘ'),
        'n' => Some('ₙ'),
        'o' => Some('ₒ'),
        'p' => Some('ₚ'),
        'r' => Some('ᵣ'),
        's' => Some('ₛ'),
        't' => Some('ₜ'),
        'u' => Some('ᵤ'),
        'v' => Some('ᵥ'),
        'x' => Some('ₓ'),
        'β' => Some('ᵦ'),
        'γ' => Some('ᵧ'),
        'ρ' => Some('ᵨ'),
        'φ' => Some('ᵩ'),
        'χ' => Some('ᵪ'),
        _ => None,
    }
}
/// The Unicode text of the Greek letters.
pub open spec fn greek_symbol(name: Seq<char>) -> Option<Seq<char>> {
    if name == "alpha"@ {
        Some("α"@)
    } else if name == "beta"@ {
        Some("β"@)
    } else if name == "gamma"@ {
        Some("γ"@)
    } else if name == "delta"@ {
        Some("δ"@)
    } else if name == "epsilon"@ {
        Some("ϵ"@)
    } else if name == "varepsilon"@ {
        Some("ε"@)
    } else if name == "zeta"@ {
        Some("ζ"@)
    } else if name == "eta"@ {
        Some("η"@)
    } else if name == "theta"@ {
        Some("θ"@)
    } else if name == "vartheta"@ {
        Some("ϑ"@)
    } else if name == "iota"@ {
        Some("ι"@)
    } else if name == "kappa"@ {
        Some("κ"@)
    } else if name == "lambda"@ {
        Some("λ"@)
    } else if name == "mu"@ {
        Some("μ"@)
    } else if name == "nu"@ {
        Some("ν"@)
    } else if name == "xi"@ {
        Some("ξ"@)
    } else if name == "omicron"@ {
        Some("ο"@)
    } else if name == "pi"@ {
        Some("π"@)
    } else if name == "varpi"@ {
        Some("ϖ"@)
    } else if name == "rho"@ {
        Some("ρ"@)
    } else if name == "varrho"@ {
        Some("ϱ"@)
    } else if name == "sigma"@ {
        Some("σ"@)
    } else if name == "varsigma"@ {
        Some("ς"@)
    } else if name == "tau"@ {
        Some("τ"@)
    } else if name == "upsilon"@ {
        Some("υ"@)
    } else if name == "phi"@ {
        Some("ϕ"@)
    } else if name == "varphi"@ {
        Some("φ"@)
    } else if name == "chi"@ {
        Some("χ"@)
    } else if name == "psi"@ {
        Some("ψ"@)
    } else if name == "omega"@ {
        Some("ω"@)
    } else if name == "Gamma"@ {
        Some("Γ"@)
    } else if name == "Delta"@ {
        Some("Δ"@)
    } else if name == "Theta"@ {
        Some("Θ"@)
    } else if name == "Lambda"@ {
        Some("Λ"@)
    } else if name == "Xi"@ {
        Some("Ξ"@)
    } else if name == "Pi"@ {
        Some("Π"@)
    } else if name == "Sigma"@ {
        Some("Σ"@)
    } else if name == "Upsilon"@ {
        Some("Υ"@)
    } else if name == "Phi"@ {
        Some("Φ"@)
    } else if name == "Psi"@ {
        Some("Ψ"@)
    } else if name == "Omega"@ {
        Some("Ω"@)
    } else {
        None
    }
}

fn lookup_greek(name: &Vec<char>) -> (r: Option<&'static str>)
    ensures
        str_opt_view(r) == greek_symbol(name@),
{
    if eq_lit(name, "alpha") {
        return Some("α");
    }
    if eq_lit(name, "beta") {
        return Some("β");
    }
    if eq_lit(name, "gamma") {
        return Some("γ");
    }
    if eq_lit(name, "delta") {
        return Some("δ");
    }
    if eq_lit(name, "epsilon") {
        return Some("ϵ");
    }
    if eq_lit(name, "varepsilon") {
        return Some("ε");
    }
    if eq_lit(name, "zeta") {
        return Some("ζ");
    }
    if eq_lit(name, "eta") {
        return Some("η");
    }
    if eq_lit(name, "theta") {
        return Some("θ");
    }
    if eq_lit(name, "vartheta") {
        return Some("ϑ");
    }
    if eq_lit(name, "iota") {
        return Some("ι");
    }
    if eq_lit(name, "kappa") {
        return Some("κ");
    }
    if eq_lit(name, "lambda") {
        return Some("λ");
    }
    if eq_lit(name, "mu") {
        return Some("μ");
    }
    if eq_lit(name, "nu") {
        return Some("ν");
    }
    if eq_lit(name, "xi") {
        return Some("ξ");
    }
    if eq_lit(name, "omicron") {
        return Some("ο");
    }
    if eq_lit(name, "pi") {
        return Some("π");
    }
    if eq_lit(name, "varpi") {
        return Some("ϖ");
    }
    if eq_lit(name, "rho") {
        return Some("ρ");
    }
    if eq_lit(name, "varrho") {
        return Some("ϱ");
    }
    if eq_lit(name, "sigma") {
        return Some("σ");
    }
    if eq_lit(name, "varsigma") {
        return Some("ς");
    }
    if eq_lit(name, "tau") {
        return Some("τ");
    }
    if eq_lit(name, "upsilon") {
        return Some("υ");
    }
    if eq_lit(name, "phi") {
        return Some("ϕ");
    }
    if eq_lit(name, "varphi") {
        return Some("φ");
    }
    if eq_lit(name, "chi") {
        return Some("χ");
    }
    if eq_lit(name, "psi") {
        return Some("ψ");
    }
    if eq_lit(name, "omega") {
        return Some("ω");
    }
    if eq_lit(name, "Gamma") {
        return Some("Γ");
    }
    if eq_lit(name, "Delta") {
        return Some("Δ");
    }
    if eq_lit(name, "Theta") {
        return Some("Θ");
    }
    if eq_lit(name, "Lambda") {
        return Some("Λ");
    }
    if eq_lit(name, "Xi") {
        return Some("Ξ");
    }
    if eq_lit(name, "Pi") {
        return Some("Π");
    }
    if eq_lit(name, "Sigma") {
        return Some("Σ");
    }
    if eq_lit(name, "Upsilon") {
        return Some("Υ");
    }
    if eq_lit(name, "Phi") {
        return Some("Φ");
    }
    if eq_lit(name, "Psi") {
        return Some("Ψ");
    }
    if eq_lit(name, "Omega") {
        return Some("Ω");
    }
    None
}

/// The Unicode text of the binary and large operators.
pub open spec fn operator_symbol(name: Seq<char>) -> Option<Seq<char>> {
    if name == "pm"@ {
        Some("±"@)
    } else if name == "mp"@ {
        Some("∓"@)
    } else if name == "times"@ {
        Some("×"@)
    } else if name == "div"@ {
        Some("÷"@)
    } else if name == "cdot"@ {
        Some("·"@)
    } else if name == "ast"@ {
        Some("∗"@)
    } else if name == "star"@ {
        Some("⋆"@)
    } else if name == "circ"@ {
        Some("∘"@)
    } else if name == "bullet"@ {
        Some("•"@)
    } else if name == "oplus"@ {
        Some("⊕"@)
    } else if name == "ominus"@ {
        Some("⊖"@)
    } else if name == "otimes"@ {
        Some("⊗"@)
    } else if name == "oslash"@ {
        Some("⊘"@)
    } else if name == "odot"@ {
        Some("⊙"@)
    } else if name == "cap"@ {
        Some("∩"@)
    } else if name == "cup"@ {
        Some("∪"@)
    } else if name == "sqcap"@ {
        Some("⊓"@)
    } else if name == "sqcup"@ {
        Some("⊔"@)
    } else if name == "vee"@ {
        Some("∨"@)
    } else if name == "wedge"@ {
        Some("∧"@)
    } else if name == "land"@ {
        Some("∧"@)
    } else if name == "lor"@ {
        Some("∨"@)
    } else if name == "lnot"@ {
        Some("¬"@)
    } else if name == "neg"@ {
        Some("¬"@)
    } else if name == "setminus"@ {
        Some("∖"@)
    } else if name == "wr"@ {
        Some("≀"@)
    } else if name == "dagger"@ {
        Some("†"@)
    } else if name == "ddagger"@ {
        Some("‡"@)
    } else if name == "amalg"@ {
        Some("⨿"@)
    } else if name == "uplus"@ {
        Some("⊎"@)
    } else if name == "sum"@ {
        Some("∑"@)
    } else if name == "prod"@ {
        Some("∏"@)
    } else if name == "coprod"@ {
        Some("∐"@)
    } else if name == "int"@ {
        Some("∫"@)
    } else if name == "iint"@ {
        Some("∬"@)
    } else if name == "iiint"@ {
        Some("∭"@)
    } else if name == "oint"@ {
        Some("∮"@)
    } else if name == "oiint"@ {
        Some("∯"@)
    } else if name == "bigcup"@ {
        Some("⋃"@)
    } else if name == "bigcap"@ {
        Some("⋂"@)
    } else if name == "bigoplus"@ {
        Some("⨁"@)
    } else if name == "bigotimes"@ {
        Some("⨂"@)
    } else if name == "bigvee"@ {
        Some("⋁"@)
    } else if name == "bigwedge"@ {
        Some("⋀"@)
    } else if name == "bigsqcup"@ {
        Some("⨆"@)
    } else {
        None
    }
}

fn lookup_operator(name: &Vec<char>) -> (r: Option<&'static str>)
    ensures
        str_opt_view(r) == operator_symbol(name@),
{
    if eq_lit(name, "pm") {
        return Some("±");
    }
    if eq_lit(name, "mp") {
        return Some("∓");
    }
    if eq_lit(name, "times") {
        return Some("×");
    }
    if eq_lit(name, "div") {
        return Some("÷");
    }
    if eq_lit(name, "cdot") {
        return Some("·");
    }
    if eq_lit(name, "ast") {
        return Some("∗");
    }
    if eq_lit(name, "star") {
        return Some("⋆");
    }
    if eq_lit(name, "circ") {
        return Some("∘");
    }
    if eq_lit(name, "bullet") {
        return Some("•");
    }
    if eq_lit(name, "oplus") {
        return Some("⊕");
    }
    if eq_lit(name, "ominus") {
        return Some("⊖");
    }
    if eq_lit(name, "otimes") {
        return Some("⊗");
    }
    if eq_lit(name, "oslash") {
        return Some("⊘");
    }
    if eq_lit(name, "odot") {
        return Some("⊙");
    }
    if eq_lit(name, "cap") {
        return Some("∩");
    }
    if eq_lit(name, "cup") {
        return Some("∪");
    }
    if eq_lit(name, "sqcap") {
        return Some("⊓");
    }
    if eq_lit(name, "sqcup") {
        return Some("⊔");
    }
    if eq_lit(name, "vee") {
        return Some("∨");
    }
    if eq_lit(name, "wedge") {
        return Some("∧");
    }
    if eq_lit(name, "land") {
        return Some("∧");
    }
    if eq_lit(name, "lor") {
        return Some("∨");
    }
    if eq_lit(name, "lnot") {
        return Some("¬");
    }
    if eq_lit(name, "neg") {
        return Some("¬");
    }
    if eq_lit(name, "setminus") {
        return Some("∖");
    }
    if eq_lit(name, "wr") {
        return Some("≀");
    }
    if eq_lit(name, "dagger") {
        return Some("†");
    }
    if eq_lit(name, "ddagger") {
        return Some("‡");
    }
    if eq_lit(name, "amalg") {
        return Some("⨿");
    }
    if eq_lit(name, "uplus") {
        return Some("⊎");
    }
    if eq_lit(name, "sum") {
        return Some("∑");
    }
    if eq_lit(name, "prod") {
        return Some("∏");
    }
    if eq_lit(name, "coprod") {
        return Some("∐");
    }
    if eq_lit(name, "int") {
        return Some("∫");
    }
    if eq_lit(name, "iint") {
        return Some("∬");
    }
    if eq_lit(name, "iiint") {
        return Some("∭");
    }
    if eq_lit(name, "oint") {
        return Some("∮");
    }
    if eq_lit(name, "oiint") {
        return Some("∯");
    }
    if eq_lit(name, "bigcup") {
        return Some("⋃");
    }
    if eq_lit(name, "bigcap") {
        return Some("⋂");
    }
    if eq_lit(name, "bigoplus") {
        return Some("⨁");
    }
    if eq_lit(name, "bigotimes") {
        return Some("⨂");
    }
    if eq_lit(name, "bigvee") {
        return Some("⋁");
    }
    if eq_lit(name, "bigwedge") {
        return Some("⋀");
    }
    if eq_lit(name, "bigsqcup") {
        return Some("⨆");
    }
    None
}

/// The Unicode text of the relations.
pub open spec fn relation_symbol(name: Seq<char>) -> Option<Seq<char>> {
    if name == "leq"@ {
        Some("≤"@)
    } else if name == "le"@ {
        Some("≤"@)
    } else if name == "geq"@ {
        Some("≥"@)
    } else if name == "ge"@ {
        Some("≥"@)
    } else if name == "neq"@ {
        Some("≠"@)
    } else if name == "ne"@ {
        Some("≠"@)
    } else if name == "approx"@ {
        Some("≈"@)
    } else if name == "equiv"@ {
        Some("≡"@)
    } else if name == "sim"@ {
        Some("∼"@)
    } else if name == "simeq"@ {
        Some("≃"@)
    } else if name == "cong"@ {
        Some("≅"@)
    } else if name == "propto"@ {
        Some("∝"@)
    } else if name == "ll"@ {
        Some("≪"@)
    } else if name == "gg"@ {
        Some("≫"@)
    } else if name == "subset"@ {
        Some("⊂"@)
    } else if name == "supset"@ {
        Some("⊃"@)
    } else if name == "subseteq"@ {
        Some("⊆"@)
    } else if name == "supseteq"@ {
        Some("⊇"@)
    } else if name == "in"@ {
        Some("∈"@)
    } else if name == "notin"@ {
        Some("∉"@)
    } else if name == "ni"@ {
        Some("∋"@)
    } else if name == "mid"@ {
        Some("∣"@)
    } else if name == "nmid"@ {
        Some("∤"@)
    } else if name == "parallel"@ {
        Some("∥"@)
    } else if name == "perp"@ {
        Some("⊥"@)
    } else if name == "prec"@ {
        Some("≺"@)
    } else if name == "succ"@ {
        Some("≻"@)
    } else if name == "preceq"@ {
        Some("⪯"@)
    } else if name == "succeq"@ {
        Some("⪰"@)
    } else if name == "doteq"@ {
        Some("≐"@)
    } else if name == "models"@ {
        Some("⊨"@)
    } else if name == "vdash"@ {
        Some("⊢"@)
    } else if name == "dashv"@ {
        Some("⊣"@)
    } else if name == "asymp"@ {
        Some("≍"@)
    } else if name == "bowtie"@ {
        Some("⋈"@)
    } else if name == "leqslant"@ {
        Some("⩽"@)
    } else if name == "geqslant"@ {
        Some("⩾"@)
    } else {
        None
    }
}

fn lookup_relation(name: &Vec<char>) -> (r: Option<&'static str>)
    ensures
        str_opt_view(r) == relation_symbol(name@),
{
    if eq_lit(name, "leq") {
        return Some("≤");
    }
    if eq_lit(name, "le") {
        return Some("≤");
    }
    if eq_lit(name, "geq") {
        return Some("≥");
    }
    if eq_lit(name, "ge") {
        return Some("≥");
    }
    if eq_lit(name, "neq") {
        return Some("≠");
    }
    if eq_lit(name, "ne") {
        return Some("≠");
    }
    if eq_lit(name, "approx") {
        return Some("≈");
    }
    if eq_lit(name, "equiv") {
        return Some("≡");
    }
    if eq_lit(name, "sim") {
        return Some("∼");
    }
    if eq_lit(name, "simeq") {
        return Some("≃");
    }
    if eq_lit(name, "cong") {
        return Some("≅");
    }
    if eq_lit(name, "propto") {
        return Some("∝");
    }
    if eq_lit(name, "ll") {
        return Some("≪");
    }
    if eq_lit(name, "gg") {
        return Some("≫");
    }
    if eq_lit(name, "subset") {
        return Some("⊂");
    }
    if eq_lit(name, "supset") {
        return Some("⊃");
    }
    if eq_lit(name, "subseteq") {
        return Some("⊆");
    }
    if eq_lit(name, "supseteq") {
        return Some("⊇");
    }
    if eq_lit(name, "in") {
        return Some("∈");
    }
    if eq_lit(name, "notin") {
        return Some("∉");
    }
    if eq_lit(name, "ni") {
        return Some("∋");
    }
    if eq_lit(name, "mid") {
        return Some("∣");
    }
    if eq_lit(name, "nmid") {
        return Some("∤");
    }
    if eq_lit(name, "parallel") {
        return Some("∥");
    }
    if eq_lit(name, "perp") {
        return Some("⊥");
    }
    if eq_lit(name, "prec") {
        return Some("≺");
    }
    if eq_lit(name, "succ") {
        return Some("≻");
    }
    if eq_lit(name, "preceq") {
        return Some("⪯");
    }
    if eq_lit(name, "succeq") {
        return Some("⪰");
    }
    if eq_lit(name, "doteq") {
        return Some("≐");
    }
    if eq_lit(name, "models") {
        return Some("⊨");
    }
    if eq_lit(name, "vdash") {
        return Some("⊢");
    }
    if eq_lit(name, "dashv") {
        return Some("⊣");
    }
    if eq_lit(name, "asymp") {
        return Some("≍");
    }
    if eq_lit(name, "bowtie") {
        return Some("⋈");
    }
    if eq_lit(name, "leqslant") {
        return Some("⩽");
    }
    if eq_lit(name, "geqslant") {
        return Some("⩾");
    }
    None
}

/// The Unicode text of the arrows.
pub open spec fn arrow_symbol(name: Seq<char>) -> Option<Seq<char>> {
    if name == "to"@ {
        Some("→"@)
    } else if name == "rightarrow"@ {
        Some("→"@)
    } else if name == "leftarrow"@ {
        Some("←"@)
    } else if name == "gets"@ {
        Some("←"@)
    } else if name == "leftrightarrow"@ {
        Some("↔"@)
    } else if name == "Rightarrow"@ {
        Some("⇒"@)
    } else if name == "Leftarrow"@ {
        Some("⇐"@)
    } else if name == "Leftrightarrow"@ {
        Some("⇔"@)
    } else if name == "implies"@ {
        Some("⟹"@)
    } else if name == "impliedby"@ {
        Some("⟸"@)
    } else if name == "iff"@ {
        Some("⟺"@)
    } else if name == "mapsto"@ {
        Some("↦"@)
    } else if name == "longrightarrow"@ {
        Some("⟶"@)
    } else if name == "longleftarrow"@ {
        Some("⟵"@)
    } else if name == "longleftrightarrow"@ {
        Some("⟷"@)
    } else if name == "Longrightarrow"@ {
        Some("⟹"@)
    } else if name == "Longleftarrow"@ {
        Some("⟸"@)
    } else if name == "Longleftrightarrow"@ {
        Some("⟺"@)
    } else if name == "longmapsto"@ {
        Some("⟼"@)
    } else if name == "uparrow"@ {
        Some("↑"@)
    } else if name == "downarrow"@ {
        Some("↓"@)
    } else if name == "updownarrow"@ {
        Some("↕"@)
    } else if name == "Uparrow"@ {
        Some("⇑"@)
    } else if name == "Downarrow"@ {
        Some("⇓"@)
    } else if name == "nearrow"@ {
        Some("↗"@)
    } else if name == "searrow"@ {
        Some("↘"@)
    } else if name == "swarrow"@ {
        Some("↙"@)
    } else if name == "nwarrow"@ {
        Some("↖"@)
    } else if name == "hookrightarrow"@ {
        Some("↪"@)
    } else if name == "hookleftarrow"@ {
        Some("↩"@)
    } else if name == "rightharpoonup"@ {
        Some("⇀"@)
    } else if name == "leftharpoonup"@ {
        Some("↼"@)
    } else if name == "rightleftharpoons"@ {
        Some("⇌"@)
    } else {
        None
    }
}

fn lookup_arrow(name: &Vec<char>) -> (r: Option<&'static str>)
    ensures
        str_opt_view(r) == arrow_symbol(name@),
{
    if eq_lit(name, "to") {
        return Some("→");
    }
    if eq_lit(name, "rightarrow") {
        return Some("→");
    }
    if eq_lit(name, "leftarrow") {
        return Some("←");
    }
    if eq_lit(name, "gets") {
        return Some("←");
    }
    if eq_lit(name, "leftrightarrow") {
        return Some("↔");
    }
    if eq_lit(name, "Rightarrow") {
        return Some("⇒");
    }
    if eq_lit(name, "Leftarrow") {
        return Some("⇐");
    }
    if eq_lit(name, "Leftrightarrow") {
        return Some("⇔");
    }
    if eq_lit(name, "implies") {
        return Some("⟹");
    }
    if eq_lit(name, "impliedby") {
        return Some("⟸");
    }
    if eq_lit(name, "iff") {
        return Some("⟺");
    }
    if eq_lit(name, "mapsto") {
        return Some("↦");
    }
    if eq_lit(name, "longrightarrow") {
        return Some("⟶");
    }
    if eq_lit(name, "longleftarrow") {
        return Some("⟵");
    }
    if eq_lit(name, "longleftrightarrow") {
        return Some("⟷");
    }
    if eq_lit(name, "Longrightarrow") {
        return Some("⟹");
    }
    if eq_lit(name, "Longleftarrow") {
        return Some("⟸");
    }
    if eq_lit(name, "Longleftrightarrow") {
        return Some("⟺");
    }
    if eq_lit(name, "longmapsto") {
        return Some("⟼");
    }
    if eq_lit(name, "uparrow") {
        return Some("↑");
    }
    if eq_lit(name, "downarrow") {
        return Some("↓");
    }
    if eq_lit(name, "updownarrow") {
        return Some("↕");
    }
    if eq_lit(name, "Uparrow") {
        return Some("⇑");
    }
    if eq_lit(name, "Downarrow") {
        return Some("⇓");
    }
    if eq_lit(name, "nearrow") {
        return Some("↗");
    }
    if eq_lit(name, "searrow") {
        return Some("↘");
    }
    if eq_lit(name, "swarrow") {
        return Some("↙");
    }
    if eq_lit(name, "nwarrow") {
        return Some("↖");
    }
    if eq_lit(name, "hookrightarrow") {
        return Some("↪");
    }
    if eq_lit(name, "hookleftarrow") {
        return Some("↩");
    }
    if eq_lit(name, "rightharpoonup") {
        return Some("⇀");
    }
    if eq_lit(name, "leftharpoonup") {
        return Some("↼");
    }
    if eq_lit(name, "rightleftharpoons") {
        return Some("⇌");
    }
    None
}

/// The Unicode text of the logic, set, calculus and miscellaneous symbols, and delimiters.
pub open spec fn misc_symbol(name: Seq<char>) -> Option<Seq<char>> {
    if name == "forall"@ {
        Some("∀"@)
    } else if name == "exists"@ {
        Some("∃"@)
    } else if name == "nexists"@ {
        Some("∄"@)
    } else if name == "emptyset"@ {
        Some("∅"@)
    } else if name == "varnothing"@ {
        Some("∅"@)
    } else if name == "infty"@ {
        Some("∞"@)
    } else if name == "partial"@ {
        Some("∂"@)
    } else if name == "nabla"@ {
        Some("∇"@)
    } else if name == "aleph"@ {
        Some("ℵ"@)
    } else if name == "beth"@ {
        Some("ℶ"@)
    } else if name == "hbar"@ {
        Some("ℏ"@)
    } else if name == "ell"@ {
        Some("ℓ"@)
    } else if name == "wp"@ {
        Some("℘"@)
    } else if name == "Re"@ {
        Some("ℜ"@)
    } else if name == "Im"@ {
        Some("ℑ"@)
    } else if name == "top"@ {
        Some("⊤"@)
    } else if name == "bot"@ {
        Some("⊥"@)
    } else if name == "angle"@ {
        Some("∠"@)
    } else if name == "triangle"@ {
        Some("△"@)
    } else if name == "therefore"@ {
        Some("∴"@)
    } else if name == "because"@ {
        Some("∵"@)
    } else if name == "cdots"@ {
        Some("⋯"@)
    } else if name == "ldots"@ {
        Some("…"@)
    } else if name == "dots"@ {
        Some("…"@)
    } else if name == "vdots"@ {
        Some("⋮"@)
    } else if name == "ddots"@ {
        Some("⋱"@)
    } else if name == "prime"@ {
        Some("′"@)
    } else if name == "degree"@ {
        Some("°"@)
    } else if name == "surd"@ {
        Some("√"@)
    } else if name == "checkmark"@ {
        Some("✓"@)
    } else if name == "square"@ {
        Some("□"@)
    } else if name == "Box"@ {
        Some("□"@)
    } else if name == "blacksquare"@ {
        Some("■"@)
    } else if name == "qed"@ {
        Some("∎"@)
    } else if name == "diamond"@ {
        Some("⋄"@)
    } else if name == "clubsuit"@ {
        Some("♣"@)
    } else if name == "diamondsuit"@ {
        Some("♢"@)
    } else if name == "heartsuit"@ {
        Some("♡"@)
    } else if name == "spadesuit"@ {
        Some("♠"@)
    } else if name == "flat"@ {
        Some("♭"@)
    } else if name == "natural"@ {
        Some("♮"@)
    } else if name == "sharp"@ {
        Some("♯"@)
    } else if name == "S"@ {
        Some("§"@)
    } else if name == "P"@ {
        Some("¶"@)
    } else if name == "copyright"@ {
        Some("©"@)
    } else if name == "pounds"@ {
        Some("£"@)
    } else if name == "langle"@ {
        Some("⟨"@)
    } else if name == "rangle"@ {
        Some("⟩"@)
    } else if name == "lceil"@ {
        Some("⌈"@)
    } else if name == "rceil"@ {
        Some("⌉"@)
    } else if name == "lfloor"@ {
        Some("⌊"@)
    } else if name == "rfloor"@ {
        Some("⌋"@)
    } else if name == "lvert"@ {
        Some("|"@)
    } else if name == "rvert"@ {
        Some("|"@)
    } else if name == "lVert"@ {
        Some("‖"@)
    } else if name == "rVert"@ {
        Some("‖"@)
    } else if name == "vert"@ {
        Some("|"@)
    } else if name == "Vert"@ {
        Some("‖"@)
    } else if name == "colon"@ {
        Some(":"@)
    } else {
        None
    }
}

fn lookup_misc(name: &Vec<char>) -> (r: Option<&'static str>)
    ensures
        str_opt_view(r) == misc_symbol(name@),
{
    if eq_lit(name, "forall") {
        return Some("∀");
    }
    if eq_lit(name, "exists") {
        return Some("∃");
    }
    if eq_lit(name, "nexists") {
        return Some("∄");
    }
    if eq_lit(name, "emptyset") {
        return Some("∅");
    }
    if eq_lit(name, "varnothing") {
        return Some("∅");
    }
    if eq_lit(name, "infty") {
        return Some("∞");
    }
    if eq_lit(name, "partial") {
        return Some("∂");
    }
    if eq_lit(name, "nabla") {
        return Some("∇");
    }
    if eq_lit(name, "aleph") {
        return Some("ℵ");
    }
    if eq_lit(name, "beth") {
        return Some("ℶ");
    }
    if eq_lit(name, "hbar") {
        return Some("ℏ");
    }
    if eq_lit(name, "ell") {
        return Some("ℓ");
    }
    if eq_lit(name, "wp") {
        return Some("℘");
    }
    if eq_lit(name, "Re") {
        return Some("ℜ");
    }
    if eq_lit(name, "Im") {
        return Some("ℑ");
    }
    if eq_lit(name, "top") {
        return Some("⊤");
    }
    if eq_lit(name, "bot") {
        return Some("⊥");
    }
    if eq_lit(name, "angle") {
        return Some("∠");
    }
    if eq_lit(name, "triangle") {
        return Some("△");
    }
    if eq_lit(name, "therefore") {
        return Some("∴");
    }
    if eq_lit(name, "because") {
        return Some("∵");
    }
    if eq_lit(name, "cdots") {
        return Some("⋯");
    }
    if eq_lit(name, "ldots") {
        return Some("…");
    }
    if eq_lit(name, "dots") {
        return Some("…");
    }
    if eq_lit(name, "vdots") {
        return Some("⋮");
    }
    if eq_lit(name, "ddots") {
        return Some("⋱");
    }
    if eq_lit(name, "prime") {
        return Some("′");
    }
    if eq_lit(name, "degree") {
        return Some("°");
    }
    if eq_lit(name, "surd") {
        return Some("√");
    }
    if eq_lit(name, "checkmark") {
        return Some("✓");
    }
    if eq_lit(name, "square") {
        return Some("□");
    }
    if eq_lit(name, "Box") {
        return Some("□");
    }
    if eq_lit(name, "blacksquare") {
        return Some("■");
    }
    if eq_lit(name, "qed") {
        return Some("∎");
    }
    if eq_lit(name, "diamond") {
        return Some("⋄");
    }
    if eq_lit(name, "clubsuit") {
        return Some("♣");
    }
    if eq_lit(name, "diamondsuit") {
        return Some("♢");
    }
    if eq_lit(name, "heartsuit") {
        return Some("♡");
    }
    if eq_lit(name, "spadesuit") {
        return Some("♠");
    }
    if eq_lit(name, "flat") {
        return Some("♭");
    }
    if eq_lit(name, "natural") {
        return Some("♮");
    }
    if eq_lit(name, "sharp") {
        return Some("♯");
    }
    if eq_lit(name, "S") {
        return Some("§");
    }
    if eq_lit(name, "P") {
        return Some("¶");
    }
    if eq_lit(name, "copyright") {
        return Some("©");
    }
    if eq_lit(name, "pounds") {
        return Some("£");
    }
    if eq_lit(name, "langle") {
        return Some("⟨");
    }
    if eq_lit(name, "rangle") {
        return Some("⟩");
    }
    if eq_lit(name, "lceil") {
        return Some("⌈");
    }
    if eq_lit(name, "rceil") {
        return Some("⌉");
    }
    if eq_lit(name, "lfloor") {
        return Some("⌊");
    }
    if eq_lit(name, "rfloor") {
        return Some("⌋");
    }
    if eq_lit(name, "lvert") {
        return Some("|");
    }
    if eq_lit(name, "rvert") {
        return Some("|");
    }
    if eq_lit(name, "lVert") {
        return Some("‖");
    }
    if eq_lit(name, "rVert") {
        return Some("‖");
    }
    if eq_lit(name, "vert") {
        return Some("|");
    }
    if eq_lit(name, "Vert") {
        return Some("‖");
    }
    if eq_lit(name, "colon") {
        return Some(":");
    }
    None
}

/// The Unicode text of the escaped characters, spacing and sizing commands.
pub open spec fn spacing_symbol(name: Seq<char>) -> Option<Seq<char>> {
    if name == "{"@ {
        Some("{"@)
    } else if name == "}"@ {
        Some("}"@)
    } else if name == "|"@ {
        Some("‖"@)
    } else if name == ","@ {
        Some(" "@)
    } else if name == ";"@ {
        Some(" "@)
    } else if name == ":"@ {
        Some(" "@)
    } else if name == "!"@ {
        Some(""@)
    } else if name == " "@ {
        Some(" "@)
    } else if name == "\\"@ {
        Some(" "@)
    } else if name == "$"@ {
        Some("$"@)
    } else if name == "%"@ {
        Some("%"@)
    } else if name == "&"@ {
        Some("&"@)
    } else if name == "#"@ {
        Some("#"@)
    } else if name == "_"@ {
        Some("_"@)
    } else if name == "quad"@ {
        Some(" "@)
    } else if name == "qquad"@ {
        Some(" "@)
    } else if name == "big"@ {
        Some(""@)
    } else if name == "Big"@ {
        Some(""@)
    } else if name == "bigg"@ {
        Some(""@)
    } else if name == "Bigg"@ {
        Some(""@)
    } else if name == "bigl"@ {
        Some(""@)
    } else if name == "bigr"@ {
        Some(""@)
    } else if name == "Bigl"@ {
        Some(""@)
    } else if name == "Bigr"@ {
        Some(""@)
    } else if name == "biggl"@ {
        Some(""@)
    } else if name == "biggr"@ {
        Some(""@)
    } else if name == "Biggl"@ {
        Some(""@)
    } else if name == "Biggr"@ {
        Some(""@)
    } else if name == "bigm"@ {
        Some(""@)
    } else if name == "Bigm"@ {
        Some(""@)
    } else if name == "displaystyle"@ {
        Some(""@)
    } else if name == "textstyle"@ {
        Some(""@)
    } else if name == "limits"@ {
        Some(""@)
    } else if name == "nolimits"@ {
        Some(""@)
    } else {
        None
    }
}

fn lookup_spacing(name: &Vec<char>) -> (r: Option<&'static str>)
    ensures
        str_opt_view(r) == spacing_symbol(name@),
{
    if eq_lit(name, "{") {
        return Some("{");
    }
    if eq_lit(name, "}") {
        return Some("}");
    }
    if eq_lit(name, "|") {
        return Some("‖");
    }
    if eq_lit(name, ",") {
        return Some(" ");
    }
    if eq_lit(name, ";") {
        return Some(" ");
    }
    if eq_lit(name, ":") {
        return Some(" ");
    }
    if eq_lit(name, "!") {
        return Some("");
    }
    if eq_lit(name, " ") {
        return Some(" ");
    }
    if eq_lit(name, "\\") {
        return Some(" ");
    }
    if eq_lit(name, "$") {
        return Some("$");
    }
    if eq_lit(name, "%") {
        return Some("%");
    }
    if eq_lit(name, "&") {
        return Some("&");
    }
    if eq_lit(name, "#") {
        return Some("#");
    }
    if eq_lit(name, "_") {
        return Some("_");
    }
    if eq_lit(name, "quad") {
        return Some(" ");
    }
    if eq_lit(name, "qquad") {
        return Some(" ");
    }
    if eq_lit(name, "big") {
        return Some("");
    }
    if eq_lit(name, "Big") {
        return Some("");
    }
    if eq_lit(name, "bigg") {
        return Some("");
    }
    if eq_lit(name, "Bigg") {
        return Some("");
    }
    if eq_lit(name, "bigl") {
        return Some("");
    }
    if eq_lit(name, "bigr") {
        return Some("");
    }
    if eq_lit(name, "Bigl") {
        return Some("");
    }
    if eq_lit(name, "Bigr") {
        return Some("");
    }
    if eq_lit(name, "biggl") {
        return Some("");
    }
    if eq_lit(name, "biggr") {
        return Some("");
    }
    if eq_lit(name, "Biggl") {
        return Some("");
    }
    if eq_lit(name, "Biggr") {
        return Some("");
    }
    if eq_lit(name, "bigm") {
        return Some("");
    }
    if eq_lit(name, "Bigm") {
        return Some("");
    }
    if eq_lit(name, "displaystyle") {
        return Some("");
    }
    if eq_lit(name, "textstyle") {
        return Some("");
    }
    if eq_lit(name, "limits") {
        return Some("");
    }
    if eq_lit(name, "nolimits") {
        return Some("");
    }
    None
}

/// The Unicode text of the named functions, which render as their own name.
pub open spec fn function_symbol(name: Seq<char>) -> Option<Seq<char>> {
    if name == "sin"@ {
        Some("sin"@)
    } else if name == "cos"@ {
        Some("cos"@)
    } else if name == "tan"@ {
        Some("tan"@)
    } else if name == "cot"@ {
        Some("cot"@)
    } else if name == "sec"@ {
        Some("sec"@)
    } else if name == "csc"@ {
        Some("csc"@)
    } else if name == "arcsin"@ {
        Some("arcsin"@)
    } else if name == "arccos"@ {
        Some("arccos"@)
    } else if name == "arctan"@ {
        Some("arctan"@)
    } else if name == "sinh"@ {
        Some("sinh"@)
    } else if name == "cosh"@ {
        Some("cosh"@)
    } else if name == "tanh"@ {
        Some("tanh"@)
    } else if name == "coth"@ {
        Some("coth"@)
    } else if name == "log"@ {
        Some("log"@)
    } else if name == "ln"@ {
        Some("ln"@)
    } else if name == "lg"@ {
        Some("lg"@)
    } else if name == "exp"@ {
        Some("exp"@)
    } else if name == "lim"@ {
        Some("lim"@)
    } else if name == "liminf"@ {
        Some("liminf"@)
    } else if name == "limsup"@ {
        Some("limsup"@)
    } else if name == "max"@ {
        Some("max"@)
    } else if name == "min"@ {
        Some("min"@)
    } else if name == "sup"@ {
        Some("sup"@)
    } else if name == "inf"@ {
        Some("inf"@)
    } else if name == "det"@ {
        Some("det"@)
    } else if name == "dim"@ {
        Some("dim"@)
    } else if name == "ker"@ {
        Some("ker"@)
    } else if name == "deg"@ {
        Some("deg"@)
    } else if name == "gcd"@ {
        Some("gcd"@)
    } else if name == "lcm"@ {
        Some("lcm"@)
    } else if name == "arg"@ {
        Some("arg"@)
    } else if name == "Pr"@ {
        Some("Pr"@)
    } else if name == "hom"@ {
        Some("hom"@)
    } else if name == "mod"@ {
        Some("mod"@)
    } else if name == "bmod"@ {
        Some("bmod"@)
    } else {
        None
    }
}

fn lookup_function(name: &Vec<char>) -> (r: Option<&'static str>)
    ensures
        str_opt_view(r) == function_symbol(name@),
{
    if eq_lit(name, "sin") {
        return Some("sin");
    }
    if eq_lit(name, "cos") {
        return Some("cos");
    }
    if eq_lit(name, "tan") {
        return Some("tan");
    }
    if eq_lit(name, "cot") {
        return Some("cot");
    }
    if eq_lit(name, "sec") {
        return Some("sec");
    }
    if eq_lit(name, "csc") {
        return Some("csc");
    }
    if eq_lit(name, "arcsin") {
        return Some("arcsin");
    }
    if eq_lit(name, "arccos") {
        return Some("arccos");
    }
    if eq_lit(name, "arctan") {
        return Some("arctan");
    }
    if eq_lit(name, "sinh") {
        return Some("sinh");
    }
    if eq_lit(name, "cosh") {
        return Some("cosh");
    }
    if eq_lit(name, "tanh") {
        return Some("tanh");
    }
    if eq_lit(name, "coth") {
        return Some("coth");
    }
    if eq_lit(name, "log") {
        return Some("log");
    }
    if eq_lit(name, "ln") {
        return Some("ln");
    }
    if eq_lit(name, "lg") {
        return Some("lg");
    }
    if eq_lit(name, "exp") {
        return Some("exp");
    }
    if eq_lit(name, "lim") {
        return Some("lim");
    }
    if eq_lit(name, "liminf") {
        return Some("liminf");
    }
    if eq_lit(name, "limsup") {
        return Some("limsup");
    }
    if eq_lit(name, "max") {
        return Some("max");
    }
    if eq_lit(name, "min") {
        return Some("min");
    }
    if eq_lit(name, "sup") {
        return Some("sup");
    }
    if eq_lit(name, "inf") {
        return Some("inf");
    }
    if eq_lit(name, "det") {
        return Some("det");
    }
    if eq_lit(name, "dim") {
        return Some("dim");
    }
    if eq_lit(name, "ker") {
        return Some("ker");
    }
    if eq_lit(name, "deg") {
        return Some("deg");
    }
    if eq_lit(name, "gcd") {
        return Some("gcd");
    }
    if eq_lit(name, "lcm") {
        return Some("lcm");
    }
    if eq_lit(name, "arg") {
        return Some("arg");
    }
    if eq_lit(name, "Pr") {
        return Some("Pr");
    }
    if eq_lit(name, "hom") {
        return Some("hom");
    }
    if eq_lit(name, "mod") {
        return Some("mod");
    }
    if eq_lit(name, "bmod") {
        return Some("bmod");
    }
    None
}

} // verus!
