//! The mathematical text of the tree: spec functions that say, character for
//! character, what the renderer emits for every node.

use vstd::prelude::*;

use crate::ast::BlockView;
use crate::ast::ExprView;
use crate::ast::NumberView;
use crate::ast::StatView;
use crate::ast::VarView;

verus! {

/// `n` spaces.
pub open spec fn spaces(n: nat) -> Seq<char>
    decreases n,
{
    if n == 0 {
        Seq::empty()
    } else {
        spaces((n - 1) as nat).push(' ')
    }
}

/// The indentation ahead of a statement at nesting depth `d`: two spaces per
/// level.
pub open spec fn indent_text(d: nat) -> Seq<char> {
    spaces(2 * d)
}

/// The character for the decimal digit `d` (the digits start at code 48).
pub open spec fn digit_char(d: nat) -> char {
    ((d + 48) as u8) as char
}

/// The decimal digits of `n`, most significant first, without leading zeros
/// (a single `0` for zero).
pub open spec fn dec_digits(n: nat) -> Seq<char>
    decreases n,
{
    if n < 10 {
        seq![digit_char(n)]
    } else {
        dec_digits(n / 10).push(digit_char(n % 10))
    }
}

/// The decimal text of the integer `v`: its digits, behind `-` for a
/// negative value.
pub open spec fn int_text(v: int) -> Seq<char> {
    if v < 0 {
        seq!['-'] + dec_digits((-v) as nat)
    } else {
        dec_digits(v as nat)
    }
}

/// A control character's decimal escape: exactly three digits, so that a
/// digit following it in the source string cannot run into the escape.
pub open spec fn dec3_digits(n: nat) -> Seq<char> {
    seq![digit_char(n / 100 % 10), digit_char(n / 10 % 10), digit_char(n % 10)]
}

/// How one character of a string literal is emitted: the double quote, the
/// backslash and the common control characters get a two-character escape,
/// any other control character a three-digit decimal escape, and everything
/// else stands for itself.
pub open spec fn escaped_char(c: char) -> Seq<char> {
    if c == '"' {
        seq!['\\', '"']
    } else if c == '\\' {
        seq!['\\', '\\']
    } else if c == '\n' {
        seq!['\\', 'n']
    } else if c == '\r' {
        seq!['\\', 'r']
    } else if c == '\t' {
        seq!['\\', 't']
    } else if (c as nat) < 32 || (c as nat) == 127 {
        seq!['\\'] + dec3_digits(c as nat)
    } else {
        seq![c]
    }
}

/// The body of a string literal: every character escaped as needed.
pub open spec fn escaped_text(s: Seq<char>) -> Seq<char>
    decreases s.len(),
{
    if s.len() == 0 {
        Seq::empty()
    } else {
        escaped_text(s.drop_last()) + escaped_char(s.last())
    }
}

/// A string literal: the escaped body between double quotes.
pub open spec fn string_lit_text(s: Seq<char>) -> Seq<char> {
    seq!['"'] + escaped_text(s) + seq!['"']
}

/// One `[key] = (value)` pair of a table constructor.
pub open spec fn table_pair_text(p: (ExprView, ExprView)) -> Seq<char>
    decreases p,
{
    seq!['['] + expr_text(p.0) + "] = ("@ + expr_text(p.1) + seq![')']
}

/// The inside of a table constructor: the pairs in their given order,
/// comma-separated.
pub open spec fn table_body_text(fields: Seq<(ExprView, ExprView)>) -> Seq<char>
    decreases fields,
{
    if fields.len() == 0 {
        Seq::empty()
    } else if fields.len() == 1 {
        table_pair_text(fields[0])
    } else {
        table_body_text(fields.drop_last()) + seq![','] + table_pair_text(fields.last())
    }
}

/// The text of an expression. Expressions never hold line breaks or
/// indentation of their own.
pub open spec fn expr_text(e: ExprView) -> Seq<char>
    decreases e,
{
    match e {
        ExprView::Number(NumberView::Int(v)) => int_text(v),
        ExprView::Number(NumberView::Float(t)) => t,
        ExprView::Ident(n) => n,
        ExprView::Nil => "nil"@,
        ExprView::TableAccess { table, key } => seq!['('] + var_text(*table) + ")["@ + expr_text(
            *key,
        ) + seq![']'],
        ExprView::Table(fields) => seq!['{'] + table_body_text(fields) + seq!['}'],
        ExprView::Str(s) => string_lit_text(s),
        ExprView::Paren(inner) => seq!['('] + expr_text(*inner) + seq![')'],
    }
}

/// The text of an assignable location: an identifier stands for itself, a
/// computed place is parenthesized.
pub open spec fn var_text(v: VarView) -> Seq<char>
    decreases v,
{
    match v {
        VarView::Ident(n) => n,
        VarView::Expression(e) => seq!['('] + expr_text(*e) + seq![')'],
    }
}

/// The comma-joined parameter list of a function header.
pub open spec fn params_text(ps: Seq<Seq<char>>) -> Seq<char>
    decreases ps.len(),
{
    if ps.len() == 0 {
        Seq::empty()
    } else if ps.len() == 1 {
        ps[0]
    } else {
        params_text(ps.drop_last()) + seq![','] + ps.last()
    }
}

/// The name in a function header; an absent name renders as nothing.
pub open spec fn opt_name_text(n: Option<Seq<char>>) -> Seq<char> {
    match n {
        Some(s) => s,
        None => Seq::empty(),
    }
}

/// The `local ` marker ahead of a named function: present when the function
/// is nested inside another scope, absent at the top level of the program.
pub open spec fn local_marker(d: nat) -> Seq<char> {
    if d > 0 {
        "local "@
    } else {
        Seq::empty()
    }
}

/// A folded scope rendered at depth `d`: its header line, its body one level
/// deeper, and a closing `end` line at the same indentation as the header.
pub open spec fn block_text(b: BlockView, d: nat) -> Seq<char>
    decreases b,
{
    match b {
        BlockView::Function(f) => indent_text(d) + local_marker(d) + "function "@ + opt_name_text(
            f.name,
        ) + seq!['('] + params_text(f.params) + ")\n"@ + stats_text(f.code, d + 1) + indent_text(d)
            + "end\n"@,
        BlockView::Raw { code } => indent_text(d) + "do\n"@ + stats_text(code, d + 1) + indent_text(
            d,
        ) + "end\n"@,
    }
}

/// A statement rendered at depth `d`: a folded scope, or one
/// `local <place> = <value>;` line.
pub open spec fn stat_text(s: StatView, d: nat) -> Seq<char>
    decreases s,
{
    match s {
        StatView::Block(b) => block_text(b, d),
        StatView::Assign { place, value } => indent_text(d) + "local "@ + var_text(place)
            + " = "@ + expr_text(value) + ";\n"@,
    }
}

/// A statement sequence rendered at depth `d`: each statement's text, in
/// order.
pub open spec fn stats_text(ss: Seq<StatView>, d: nat) -> Seq<char>
    decreases ss,
{
    if ss.len() == 0 {
        Seq::empty()
    } else {
        stats_text(ss.drop_last(), d) + stat_text(ss.last(), d)
    }
}

/// The whole program: its top-level statements at depth zero.
pub open spec fn chunk_text(ss: Seq<StatView>) -> Seq<char> {
    stats_text(ss, 0)
}

/// Indentation is as long as the depth says: two characters per level.
pub proof fn lemma_spaces_len(n: nat)
    ensures
        spaces(n).len() == n,
    decreases n,
{
    if n > 0 {
        lemma_spaces_len((n - 1) as nat);
    }
}

/// Growing the depth by one extends the indentation by two spaces.
pub proof fn lemma_indent_step(d: nat)
    ensures
        indent_text(d + 1) == indent_text(d) + "  "@,
{
    reveal_strlit("  ");
    assert(spaces(2 * d + 2) == spaces(2 * d + 1).push(' '));
    assert(spaces(2 * d + 1) == spaces(2 * d).push(' '));
    assert(indent_text(d + 1) =~= indent_text(d) + "  "@);
}

} // verus!
