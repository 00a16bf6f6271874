//! The laws of the builder: proof functions stating, over the same model
//! that the contracts use, what holds of every built tree and of every
//! properly nested use of the scope stack.

use vstd::prelude::*;
use vstd::utf8::char_u32_cast;

use crate::ast::BlockView;
use crate::ast::ContextView;
use crate::ast::ExprView;
use crate::ast::StatView;
use crate::ast::VarView;
use crate::builder::block_code;
use crate::builder::block_with_code;
use crate::builder::close_block;
use crate::builder::open_function;
use crate::builder::open_raw;
use crate::builder::push_stat;
use crate::text::block_text;
use crate::text::dec3_digits;
use crate::text::dec_digits;
use crate::text::digit_char;
use crate::text::escaped_char;
use crate::text::escaped_text;
use crate::text::expr_text;
use crate::text::indent_text;
use crate::text::local_marker;
use crate::text::opt_name_text;
use crate::text::params_text;
use crate::text::spaces;
use crate::text::stat_text;
use crate::text::stats_text;
use crate::text::table_body_text;
use crate::text::table_pair_text;

verus! {

/// Indentation is spaces through and through, two per level.
pub proof fn lemma_spaces_all(n: nat)
    ensures
        spaces(n).len() == n,
        forall|i: int| 0 <= i < n ==> spaces(n)[i] == ' ',
    decreases n,
{
    if n > 0 {
        lemma_spaces_all((n - 1) as nat);
    }
}

/// A statement at nesting depth `d` renders with exactly `2 * d` leading
/// spaces: the indentation is that long, it is all spaces, and the character
/// after it is no space.
pub proof fn lemma_stat_indent(s: StatView, d: nat)
    ensures
        stat_text(s, d).len() > 2 * d,
        forall|i: int| 0 <= i < 2 * d ==> stat_text(s, d)[i] == ' ',
        stat_text(s, d)[2 * d as int] != ' ',
{
    lemma_spaces_all(2 * d);
    reveal_strlit("local ");
    reveal_strlit("function ");
    reveal_strlit("do\n");
    match s {
        StatView::Assign { place, value } => {
            assert(stat_text(s, d)[2 * d as int] == 'l');
        },
        StatView::Block(b) => {
            match b {
                BlockView::Function(f) => {
                    if d > 0 {
                        assert(stat_text(s, d)[2 * d as int] == 'l');
                    } else {
                        assert(stat_text(s, d)[2 * d as int] == 'f');
                    }
                },
                BlockView::Raw { code } => {
                    assert(stat_text(s, d)[2 * d as int] == 'd');
                },
            }
        },
    }
}

/// The numeric value a digit character stands for.
pub open spec fn digit_val(c: char) -> nat {
    ((c as nat) - 48) as nat
}

/// The number that a digit sequence spells, most significant digit first.
pub open spec fn digits_val(ds: Seq<char>) -> nat
    decreases ds.len(),
{
    if ds.len() == 0 {
        0
    } else {
        digits_val(ds.drop_last()) * 10 + digit_val(ds.last())
    }
}

/// An integer renders as its exact decimal digits: the emitted digit string
/// spells the number back, has no leading zero (except for zero itself), and
/// holds nothing but digits.
pub proof fn lemma_dec_digits_exact(n: nat)
    ensures
        digits_val(dec_digits(n)) == n,
        dec_digits(n).len() >= 1,
        n > 0 ==> dec_digits(n)[0] != '0',
        forall|i: int|
            0 <= i < dec_digits(n).len() ==> 48 <= (#[trigger] dec_digits(n)[i] as nat) <= 57,
    decreases n,
{
    if n < 10 {
        let ds = dec_digits(n);
        assert(ds == seq![digit_char(n)]);
        assert(ds.drop_last() =~= Seq::<char>::empty());
        assert(ds.last() == digit_char(n));
        assert(digits_val(ds) == digits_val(Seq::<char>::empty()) * 10 + digit_val(
            digit_char(n),
        ));
        assert(((n + 48) as u8) as nat == n + 48);
        assert((digit_char(n) as nat) == n + 48);
        assert(digit_val(digit_char(n)) == n);
    } else {
        lemma_dec_digits_exact(n / 10);
        let pre = dec_digits(n / 10);
        let whole = dec_digits(n);
        assert(whole == pre.push(digit_char(n % 10)));
        assert(whole.drop_last() =~= pre);
        assert(whole.last() == digit_char(n % 10));
        assert(digits_val(whole) == digits_val(pre) * 10 + digit_val(digit_char(n % 10)));
        assert(digit_val(digit_char(n % 10)) == n % 10);
        assert(digits_val(whole) == (n / 10) * 10 + n % 10);
        assert(whole[0] == pre[0]);
        assert forall|i: int|
            0 <= i < whole.len() implies 48 <= (#[trigger] whole[i] as nat) <= 57 by {
            if i < whole.len() - 1 {
                assert(whole[i] == pre[i]);
            } else {
                assert(whole[i] == digit_char(n % 10));
            }
        }
    }
}

/// A table constructor of two pairs renders the first pair strictly ahead of
/// the second, whatever the pairs hold.
pub proof fn lemma_table_pair_order(p1: (ExprView, ExprView), p2: (ExprView, ExprView))
    ensures
        expr_text(ExprView::Table(seq![p1, p2])) == seq!['{'] + table_pair_text(p1) + seq![',']
            + table_pair_text(p2) + seq!['}'],
{
    let fields = seq![p1, p2];
    assert(fields.drop_last() =~= seq![p1]);
    assert(fields.last() == p2);
    assert(seq![p1].drop_last() =~= Seq::<(ExprView, ExprView)>::empty());
    assert(table_body_text(seq![p1]) == table_pair_text(p1));
    assert(table_body_text(fields) == table_body_text(seq![p1]) + seq![',']
        + table_pair_text(p2));
    assert(expr_text(ExprView::Table(fields)) =~= seq!['{'] + table_pair_text(p1) + seq![',']
        + table_pair_text(p2) + seq!['}']);
}

/// Assigning to the same place twice in a row appends two distinct local
/// statements, in order; the first stays exactly as it was. The shadowing
/// behaviour of the source language is kept: nothing is mutated in place.
pub proof fn lemma_assign_shadowing(c: ContextView, p: VarView, v1: ExprView, v2: ExprView)
    ensures
        c.blocks.len() == 0 ==> push_stat(
            push_stat(c, StatView::Assign { place: p, value: v1 }),
            StatView::Assign { place: p, value: v2 },
        ).chunk == c.chunk.push(StatView::Assign { place: p, value: v1 }).push(
            StatView::Assign { place: p, value: v2 },
        ),
        c.blocks.len() > 0 ==> block_code(
            push_stat(
                push_stat(c, StatView::Assign { place: p, value: v1 }),
                StatView::Assign { place: p, value: v2 },
            ).blocks.last(),
        ) == block_code(c.blocks.last()).push(StatView::Assign { place: p, value: v1 }).push(
            StatView::Assign { place: p, value: v2 },
        ),
{
    let s1 = StatView::Assign { place: p, value: v1 };
    let s2 = StatView::Assign { place: p, value: v2 };
    if c.blocks.len() > 0 {
        let once = push_stat(c, s1);
        assert(once.blocks.last() == block_with_code(
            c.blocks.last(),
            block_code(c.blocks.last()).push(s1),
        ));
        assert(block_code(once.blocks.last()) == block_code(c.blocks.last()).push(s1));
        let twice = push_stat(once, s2);
        assert(twice.blocks.last() == block_with_code(
            once.blocks.last(),
            block_code(once.blocks.last()).push(s2),
        ));
        assert(block_code(twice.blocks.last()) == block_code(c.blocks.last()).push(s1).push(s2));
    }
}

/// Closing with no open scope leaves the context exactly as it was, and a
/// repeated close finds the same empty stack: together with the contract of
/// `finish_block` (which returns `NoCurrentBlock` precisely on an empty
/// stack), failing closes are idempotent.
pub proof fn lemma_close_on_empty_idempotent(c: ContextView)
    requires
        c.blocks.len() == 0,
    ensures
        close_block(c) == c,
        close_block(close_block(c)) == c,
{
}

// ---------------------------------------------------------------------------
// String literals decode back to what was given.
// ---------------------------------------------------------------------------

/// Whether `c` is a decimal digit character.
pub open spec fn is_digit(c: char) -> bool {
    48 <= (c as nat) <= 57
}

/// Prepends a decoded character to a successfully decoded rest.
pub open spec fn opt_prepend(c: char, r: Option<Seq<char>>) -> Option<Seq<char>> {
    match r {
        Some(rest) => Some(seq![c] + rest),
        None => None,
    }
}

/// Reads the body of a rendered string literal back: two-character escapes
/// for the quote, the backslash and the common control characters, a
/// three-digit decimal escape for the other control characters, and every
/// other character standing for itself. A raw quote, a raw control character
/// or a stray backslash makes the body invalid.
pub open spec fn unescape(t: Seq<char>) -> Option<Seq<char>>
    decreases t.len(),
{
    if t.len() == 0 {
        Some(Seq::empty())
    } else if t[0] == '\\' {
        if t.len() >= 2 && t[1] == '"' {
            opt_prepend('"', unescape(t.skip(2)))
        } else if t.len() >= 2 && t[1] == '\\' {
            opt_prepend('\\', unescape(t.skip(2)))
        } else if t.len() >= 2 && t[1] == 'n' {
            opt_prepend('\n', unescape(t.skip(2)))
        } else if t.len() >= 2 && t[1] == 'r' {
            opt_prepend('\r', unescape(t.skip(2)))
        } else if t.len() >= 2 && t[1] == 't' {
            opt_prepend('\t', unescape(t.skip(2)))
        } else if t.len() >= 4 && is_digit(t[1]) && is_digit(t[2]) && is_digit(t[3]) {
            let code = 100 * digit_val(t[1]) + 10 * digit_val(t[2]) + digit_val(t[3]);
            if code < 32 || code == 127 {
                opt_prepend((code as u32) as char, unescape(t.skip(4)))
            } else {
                None
            }
        } else {
            None
        }
    } else if t[0] == '"' {
        None
    } else if (t[0] as nat) < 32 || (t[0] as nat) == 127 {
        None
    } else {
        opt_prepend(t[0], unescape(t.drop_first()))
    }
}

/// A digit character spells its digit and nothing else.
pub proof fn lemma_digit_char_val(k: nat)
    requires
        k < 10,
    ensures
        (digit_char(k) as nat) == 48 + k,
        is_digit(digit_char(k)),
        digit_val(digit_char(k)) == k,
{
    assert(((k + 48) as u8) as nat == k + 48);
}

/// The escaped text can also be peeled off the front, one source character
/// at a time.
pub proof fn lemma_escaped_text_first(s: Seq<char>)
    requires
        s.len() > 0,
    ensures
        escaped_text(s) == escaped_char(s[0]) + escaped_text(s.drop_first()),
    decreases s.len(),
{
    if s.len() == 1 {
        assert(s.drop_last() =~= Seq::<char>::empty());
        assert(s.drop_first() =~= Seq::<char>::empty());
        assert(s.last() == s[0]);
        assert(escaped_text(s) == escaped_text(Seq::<char>::empty()) + escaped_char(s[0]));
        assert(escaped_text(s) =~= escaped_char(s[0]) + escaped_text(s.drop_first()));
    } else {
        let dl = s.drop_last();
        lemma_escaped_text_first(dl);
        let df = s.drop_first();
        assert(dl[0] == s[0]);
        assert(df.drop_last() =~= dl.drop_first());
        assert(df.last() == s.last());
        assert(escaped_text(df) == escaped_text(df.drop_last()) + escaped_char(df.last()));
        assert(escaped_text(s) == escaped_text(dl) + escaped_char(s.last()));
        assert(escaped_text(dl) == escaped_char(s[0]) + escaped_text(dl.drop_first()));
        assert(escaped_text(s) =~= escaped_char(s[0]) + escaped_text(df));
    }
}

/// A rendered string literal is a single valid literal: its body decodes
/// back, uniquely, to exactly the characters that were given - in
/// particular, an embedded quote comes out escaped, never raw.
#[verifier::rlimit(60)]
pub proof fn lemma_escape_round_trip(s: Seq<char>)
    ensures
        unescape(escaped_text(s)) == Some(s),
    decreases s.len(),
{
    if s.len() == 0 {
        assert(unescape(escaped_text(s)) == Some(Seq::<char>::empty()));
        assert(Seq::<char>::empty() =~= s);
    } else {
        let c = s[0];
        let rest = s.drop_first();
        lemma_escape_round_trip(rest);
        lemma_escaped_text_first(s);
        let u = escaped_char(c);
        let t = escaped_text(s);
        let enc_rest = escaped_text(rest);
        assert(t == u + enc_rest);
        assert(seq![c] + rest =~= s);
        if c == '"' || c == '\\' || c == '\n' || c == '\r' || c == '\t' {
            assert(u.len() == 2);
            assert(t[0] == u[0] && t[1] == u[1]);
            assert(t[0] == '\\');
            assert(t.skip(2) =~= enc_rest);
            assert(unescape(t) == opt_prepend(c, Some(rest)));
        } else if (c as nat) < 32 || (c as nat) == 127 {
            let q = c as nat;
            let d1 = q / 100 % 10;
            let d2 = q / 10 % 10;
            let d3 = q % 10;
            lemma_digit_char_val(d1);
            lemma_digit_char_val(d2);
            lemma_digit_char_val(d3);
            assert(u == seq!['\\'] + dec3_digits(q));
            assert(u.len() == 4);
            assert(t[0] == '\\');
            assert(t[1] == digit_char(d1));
            assert(t[2] == digit_char(d2));
            assert(t[3] == digit_char(d3));
            assert(t[1] != '"' && t[1] != '\\' && t[1] != 'n' && t[1] != 'r' && t[1] != 't');
            assert(q / 100 % 10 == q / 100);
            assert(q == 100 * (q / 100) + 10 * (q / 10 % 10) + q % 10);
            assert(100 * digit_val(t[1]) + 10 * digit_val(t[2]) + digit_val(t[3]) == q);
            char_u32_cast(c, c as u32);
            assert(q as u32 == c as u32);
            assert((q as u32) as char == c);
            assert(t.skip(4) =~= enc_rest);
            assert(unescape(t) == opt_prepend(c, Some(rest)));
        } else {
            assert(u == seq![c]);
            assert(t[0] == c);
            assert(t.drop_first() =~= enc_rest);
            assert(unescape(t) == opt_prepend(c, Some(rest)));
        }
    }
}

// ---------------------------------------------------------------------------
// Properly nested scope sequences.
// ---------------------------------------------------------------------------

/// The state of a freshly made context.
pub open spec fn empty_context() -> ContextView {
    ContextView { chunk: Seq::empty(), blocks: Seq::empty() }
}

/// One step of the scope-stack discipline: opening a scope, or closing the
/// innermost one.
pub enum ScopeOp {
    OpenFunction { name: Seq<char>, params: Seq<Seq<char>> },
    OpenRaw,
    Close,
}

/// What one step does to the context, exactly as the corresponding methods
/// (`start_function`, `start_raw_block`, `finish_block`) promise.
pub open spec fn apply_op(c: ContextView, op: ScopeOp) -> ContextView {
    match op {
        ScopeOp::OpenFunction { name, params } => open_function(c, name, params),
        ScopeOp::OpenRaw => open_raw(c),
        ScopeOp::Close => close_block(c),
    }
}

/// A whole sequence of steps, first step first.
pub open spec fn apply_ops(c: ContextView, ops: Seq<ScopeOp>) -> ContextView
    decreases ops.len(),
{
    if ops.len() == 0 {
        c
    } else {
        apply_ops(apply_op(c, ops[0]), ops.drop_first())
    }
}

/// Whether one step succeeds: closing needs an open scope, opening always
/// succeeds.
pub open spec fn op_ok(c: ContextView, op: ScopeOp) -> bool {
    match op {
        ScopeOp::Close => c.blocks.len() > 0,
        _ => true,
    }
}

/// Whether every step of the sequence succeeds on the states it meets.
pub open spec fn all_ops_ok(c: ContextView, ops: Seq<ScopeOp>) -> bool
    decreases ops.len(),
{
    ops.len() == 0 || (op_ok(c, ops[0]) && all_ops_ok(apply_op(c, ops[0]), ops.drop_first()))
}

/// How many steps of the sequence open a scope.
pub open spec fn n_opens(ops: Seq<ScopeOp>) -> nat
    decreases ops.len(),
{
    if ops.len() == 0 {
        0
    } else {
        (if ops[0] is Close {
            0nat
        } else {
            1nat
        }) + n_opens(ops.drop_first())
    }
}

/// How many steps of the sequence close a scope.
pub open spec fn n_closes(ops: Seq<ScopeOp>) -> nat
    decreases ops.len(),
{
    if ops.len() == 0 {
        0
    } else {
        (if ops[0] is Close {
            1nat
        } else {
            0nat
        }) + n_closes(ops.drop_first())
    }
}

/// On any stack deep enough for its closes, a step sequence succeeds
/// entirely, and the stack depth moves by opens minus closes.
pub proof fn lemma_ops_stack(c: ContextView, ops: Seq<ScopeOp>)
    requires
        forall|k: int|
            0 <= k <= ops.len() ==> n_closes(#[trigger] ops.subrange(0, k)) <= c.blocks.len()
                + n_opens(ops.subrange(0, k)),
    ensures
        all_ops_ok(c, ops),
        apply_ops(c, ops).blocks.len() + n_closes(ops) == c.blocks.len() + n_opens(ops),
    decreases ops.len(),
{
    if ops.len() > 0 {
        let op = ops[0];
        let c2 = apply_op(c, op);
        let tail = ops.drop_first();
        let one = ops.subrange(0, 1);
        assert(one.drop_first() =~= Seq::<ScopeOp>::empty());
        assert(one[0] == op);
        assert(n_closes(Seq::<ScopeOp>::empty()) == 0);
        assert(n_opens(Seq::<ScopeOp>::empty()) == 0);
        if op is Close {
            assert(n_closes(one) == 1 && n_opens(one) == 0);
            assert(1 <= c.blocks.len() + 0);
            assert(c2.blocks.len() == c.blocks.len() - 1);
        } else {
            assert(c2.blocks.len() == c.blocks.len() + 1);
        }
        assert forall|k: int|
            0 <= k <= tail.len() implies n_closes(#[trigger] tail.subrange(0, k))
            <= c2.blocks.len() + n_opens(tail.subrange(0, k)) by {
            let pk = ops.subrange(0, k + 1);
            assert(pk.drop_first() =~= tail.subrange(0, k));
            assert(pk[0] == op);
            assert(n_closes(pk) == (if op is Close {
                1nat
            } else {
                0nat
            }) + n_closes(tail.subrange(0, k)));
            assert(n_opens(pk) == (if op is Close {
                0nat
            } else {
                1nat
            }) + n_opens(tail.subrange(0, k)));
            assert(n_closes(pk) <= c.blocks.len() + n_opens(pk));
        }
        lemma_ops_stack(c2, tail);
    }
}

/// For any properly nested sequence of `start_function`, `start_raw_block`
/// and `finish_block` steps - no prefix closes more scopes than were opened,
/// and the whole sequence closes every scope it opens - every close finds an
/// open scope (so `finish_block` returns `Ok` each time), and the final
/// stack is empty again: the whole tree has been folded into the program,
/// and `render` serializes all of it.
pub proof fn lemma_nested_ops_succeed(ops: Seq<ScopeOp>)
    requires
        forall|k: int|
            0 <= k <= ops.len() ==> n_closes(#[trigger] ops.subrange(0, k)) <= n_opens(
                ops.subrange(0, k),
            ),
        n_closes(ops) == n_opens(ops),
    ensures
        all_ops_ok(empty_context(), ops),
        apply_ops(empty_context(), ops).blocks.len() == 0,
{
    assert(ops.subrange(0, ops.len() as int) =~= ops);
    lemma_ops_stack(empty_context(), ops);
}

/// The header line of a folded scope, without its indentation.
pub open spec fn header_text(b: BlockView, d: nat) -> Seq<char> {
    match b {
        BlockView::Function(f) => local_marker(d) + "function "@ + opt_name_text(f.name)
            + seq!['('] + params_text(f.params) + ")\n"@,
        BlockView::Raw { code: _ } => "do\n"@,
    }
}

/// Every folded scope renders as exactly one header line and one closing
/// `end` line at the same indentation, with its body between them, one level
/// deeper: the opening headers and the `end` markers of a rendered tree pair
/// up one for one, each pair equally indented.
pub proof fn lemma_block_render_shape(b: BlockView, d: nat)
    ensures
        block_text(b, d) == indent_text(d) + header_text(b, d) + stats_text(block_code(b), d + 1)
            + indent_text(d) + "end\n"@,
{
    match b {
        BlockView::Function(f) => {
            assert(block_text(b, d) =~= indent_text(d) + header_text(b, d) + stats_text(
                block_code(b),
                d + 1,
            ) + indent_text(d) + "end\n"@);
        },
        BlockView::Raw { code } => {
            assert(block_text(b, d) =~= indent_text(d) + header_text(b, d) + stats_text(
                block_code(b),
                d + 1,
            ) + indent_text(d) + "end\n"@);
        },
    }
}

} // verus!
