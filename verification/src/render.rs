//! The executable renderer: a depth-first, pre-order walk that emits the
//! text given by [`crate::text`].

use vstd::prelude::*;
use vstd::string::StrSliceExecFns;
use vstd::string::StringExecFns;

use crate::ast::Block;
use crate::ast::Expression;
use crate::ast::Number;
use crate::ast::Stat;
use crate::ast::Var;
use crate::ast::lemma_pairs_view;
use crate::ast::lemma_params_view;
use crate::ast::lemma_stats_view;
use crate::ast::params_view;
use crate::ast::stats_view;
use crate::text::dec_digits;
use crate::text::digit_char;
use crate::text::escaped_char;
use crate::text::escaped_text;
use crate::text::block_text;
use crate::text::expr_text;
use crate::text::indent_text;
use crate::text::int_text;
use crate::text::lemma_indent_step;
use crate::text::lemma_spaces_len;
use crate::text::params_text;
use crate::text::stat_text;
use crate::text::stats_text;
use crate::text::string_lit_text;
use crate::text::table_body_text;
use crate::text::table_pair_text;
use crate::text::var_text;

verus! {

/// Relies on `String::push`: appends the given character to the end of the
/// string.
#[verifier::external_body]
pub(crate) fn push_char(s: &mut String, c: char)
    ensures
        final(s)@ == old(s)@.push(c),
{
    s.push(c);
}

/// The character for a single decimal digit.
fn digit_of(n: u64) -> (c: char)
    requires
        n < 10,
    ensures
        c == digit_char(n as nat),
{
    ((n as u8) + 48) as char
}

/// Emits the decimal digits of `n`, most significant first.
fn write_u64(out: &mut String, n: u64)
    ensures
        final(out)@ == old(out)@ + dec_digits(n as nat),
    decreases n,
{
    if n < 10 {
        push_char(out, digit_of(n));
    } else {
        write_u64(out, n / 10);
        push_char(out, digit_of(n % 10));
    }
}

/// Emits the decimal text of `v`, with `-` ahead of a negative value.
fn write_i64(out: &mut String, v: i64)
    ensures
        final(out)@ == old(out)@ + int_text(v as int),
{
    if v >= 0 {
        write_u64(out, v as u64);
    } else {
        push_char(out, '-');
        let m: u64 = (-(v as i128)) as u64;
        assert(m as nat == (-(v as int)) as nat);
        write_u64(out, m);
    }
}

/// Emits the body of a string literal: each character of `s` escaped as
/// needed.
fn write_escaped(out: &mut String, s: &str)
    ensures
        final(out)@ == old(out)@ + escaped_text(s@),
{
    let n = s.unicode_len();
    let mut i: usize = 0;
    while i < n
        invariant
            n == s@.len(),
            i <= n,
            out@ == old(out)@ + escaped_text(s@.subrange(0, i as int)),
        decreases n - i,
    {
        let c = s.get_char(i);
        if c == '"' {
            push_char(out, '\\');
            push_char(out, '"');
        } else if c == '\\' {
            push_char(out, '\\');
            push_char(out, '\\');
        } else if c == '\n' {
            push_char(out, '\\');
            push_char(out, 'n');
        } else if c == '\r' {
            push_char(out, '\\');
            push_char(out, 'r');
        } else if c == '\t' {
            push_char(out, '\\');
            push_char(out, 't');
        } else {
            let code = c as u32;
            if code < 32 || code == 127 {
                push_char(out, '\\');
                push_char(out, digit_of((code / 100 % 10) as u64));
                push_char(out, digit_of((code / 10 % 10) as u64));
                push_char(out, digit_of((code % 10) as u64));
            } else {
                push_char(out, c);
            }
        }
        proof {
            let pre = s@.subrange(0, i as int);
            let ext = s@.subrange(0, i + 1);
            assert(ext.drop_last() =~= pre);
            assert(ext.last() == s@[i as int]);
            assert(escaped_text(ext) == escaped_text(pre) + escaped_char(s@[i as int]));
        }
        i = i + 1;
    }
    proof {
        assert(s@.subrange(0, n as int) =~= s@);
    }
}

/// Emits a whole string literal: the escaped body between double quotes.
fn write_str_lit(out: &mut String, s: &str)
    ensures
        final(out)@ == old(out)@ + string_lit_text(s@),
{
    push_char(out, '"');
    write_escaped(out, s);
    push_char(out, '"');
    proof {
        assert(out@ =~= old(out)@ + string_lit_text(s@));
    }
}

/// Emits the text of an expression.
pub(crate) fn write_expr(out: &mut String, e: &Expression)
    ensures
        final(out)@ == old(out)@ + expr_text(e@),
    decreases e,
{
    match e {
        Expression::Number(Number::Int(v)) => {
            write_i64(out, *v);
        },
        Expression::Number(Number::Float(t)) => {
            out.append(t.as_str());
        },
        Expression::Ident(n) => {
            out.append(n.as_str());
        },
        Expression::Nil => {
            out.append("nil");
        },
        Expression::TableAccess { table, key } => {
            push_char(out, '(');
            write_var(out, table);
            out.append(")[");
            write_expr(out, key);
            push_char(out, ']');
            proof {
                assert(out@ =~= old(out)@ + expr_text(e@));
            }
        },
        Expression::Table(fields) => {
            push_char(out, '{');
            let ghost pv = crate::ast::pairs_view(fields@);
            proof {
                lemma_pairs_view(fields@);
            }
            let m = fields.len();
            let mut i: usize = 0;
            while i < m
                invariant
                    *e == Expression::Table(*fields),
                    m == fields@.len(),
                    i <= m,
                    pv == crate::ast::pairs_view(fields@),
                    pv.len() == m,
                    forall|j: int|
                        0 <= j < m ==> pv[j] == (#[trigger] fields@[j].0@, fields@[j].1@),
                    out@ == old(out)@ + seq!['{'] + table_body_text(pv.subrange(0, i as int)),
                decreases m - i,
            {
                if i > 0 {
                    push_char(out, ',');
                }
                push_char(out, '[');
                proof {
                    assert(decreases_to!(*e => (*e)->Table_0));
                    assert(decreases_to!((*e)->Table_0 => (*e)->Table_0@));
                    assert(decreases_to!((*e)->Table_0@ => (*e)->Table_0@[i as int]));
                    assert(decreases_to!((*e)->Table_0@[i as int] => (*e)->Table_0@[i as int].0));
                    assert(decreases_to!((*e)->Table_0@[i as int] => (*e)->Table_0@[i as int].1));
                    assert((*e)->Table_0 == *fields);
                }
                write_expr(out, &fields[i].0);
                out.append("] = (");
                write_expr(out, &fields[i].1);
                push_char(out, ')');
                proof {
                    let pre = pv.subrange(0, i as int);
                    let ext = pv.subrange(0, i + 1);
                    assert(ext.drop_last() =~= pre);
                    assert(ext.last() == pv[i as int]);
                    assert(table_pair_text(pv[i as int]) == seq!['['] + expr_text(
                        fields@[i as int].0@,
                    ) + "] = ("@ + expr_text(fields@[i as int].1@) + seq![')']);
                    if i == 0 {
                        assert(table_body_text(ext) == table_pair_text(pv[0]));
                    } else {
                        assert(table_body_text(ext) == table_body_text(pre) + seq![',']
                            + table_pair_text(pv[i as int]));
                    }
                    assert(out@ =~= old(out)@ + seq!['{'] + table_body_text(ext));
                }
                i = i + 1;
            }
            push_char(out, '}');
            proof {
                assert(pv.subrange(0, m as int) =~= pv);
                assert(expr_text(e@) == seq!['{'] + table_body_text(pv) + seq!['}']);
                assert(out@ =~= old(out)@ + expr_text(e@));
            }
        },
        Expression::Str(s) => {
            write_str_lit(out, s.as_str());
        },
        Expression::Paren(inner) => {
            push_char(out, '(');
            write_expr(out, inner);
            push_char(out, ')');
            proof {
                assert(out@ =~= old(out)@ + expr_text(e@));
            }
        },
    }
}

/// Emits the text of an assignable location.
pub(crate) fn write_var(out: &mut String, v: &Var)
    ensures
        final(out)@ == old(out)@ + var_text(v@),
    decreases v,
{
    match v {
        Var::Ident(n) => {
            out.append(n.as_str());
        },
        Var::Expression(e) => {
            push_char(out, '(');
            write_expr(out, e);
            push_char(out, ')');
            proof {
                assert(out@ =~= old(out)@ + var_text(v@));
            }
        },
    }
}

/// Emits the comma-joined parameter list of a function header.
#[verifier::loop_isolation(false)]
fn write_params(out: &mut String, ps: &Vec<String>)
    ensures
        final(out)@ == old(out)@ + params_text(params_view(ps@)),
{
    let ghost pv = params_view(ps@);
    proof {
        lemma_params_view(ps@);
    }
    let m = ps.len();
    let mut i: usize = 0;
    while i < m
        invariant
            i <= m,
            out@ == old(out)@ + params_text(pv.subrange(0, i as int)),
        decreases m - i,
    {
        if i > 0 {
            push_char(out, ',');
        }
        out.append(ps[i].as_str());
        proof {
            let pre = pv.subrange(0, i as int);
            let ext = pv.subrange(0, i + 1);
            assert(ext.drop_last() =~= pre);
            assert(ext.last() == pv[i as int]);
            if i == 0 {
                assert(params_text(ext) == pv[0]);
            } else {
                assert(params_text(ext) == params_text(pre) + seq![','] + pv[i as int]);
            }
            assert(out@ =~= old(out)@ + params_text(ext));
        }
        i = i + 1;
    }
    proof {
        assert(pv.subrange(0, m as int) =~= pv);
    }
}

/// Emits a statement at the indentation `ind`, which must spell out the
/// nesting depth `d`.
pub(crate) fn write_stat(out: &mut String, s: &Stat, ind: &String, Ghost(d): Ghost<nat>)
    requires
        ind@ == indent_text(d),
    ensures
        final(out)@ == old(out)@ + stat_text(s@, d),
    decreases s,
{
    match s {
        Stat::Assign { place, value } => {
            out.append(ind.as_str());
            out.append("local ");
            write_var(out, place);
            out.append(" = ");
            write_expr(out, value);
            out.append(";
");
            proof {
                assert(out@ =~= old(out)@ + stat_text(s@, d));
            }
        },
        Stat::Block(b) => {
            proof {
                assert(decreases_to!(*s => (*s)->Block_0));
            }
            write_block(out, b, ind, Ghost(d));
        },
    }
}

/// Emits a folded scope: its header line, its body one level deeper, and the
/// closing `end` line at the indentation of the header.
pub(crate) fn write_block(out: &mut String, b: &Block, ind: &String, Ghost(d): Ghost<nat>)
    requires
        ind@ == indent_text(d),
    ensures
        final(out)@ == old(out)@ + block_text(b@, d),
    decreases b,
{
    let mut child_ind = ind.clone();
    child_ind.append("  ");
    proof {
        lemma_indent_step(d);
        lemma_spaces_len(2 * d);
    }
    match b {
        Block::Function(f) => {
            out.append(ind.as_str());
            if !ind.as_str().is_empty() {
                out.append("local ");
            }
            out.append("function ");
            match &f.name {
                Some(n) => {
                    out.append(n.as_str());
                },
                None => {},
            }
            push_char(out, '(');
            write_params(out, &f.params);
            out.append(")
");
            proof {
                assert(decreases_to!(*b => (*b)->Function_0));
                assert(decreases_to!((*b)->Function_0 => (*b)->Function_0.code));
            }
            write_stats(out, &f.code, &child_ind, Ghost(d + 1));
            out.append(ind.as_str());
            out.append("end
");
            proof {
                assert(out@ =~= old(out)@ + block_text(b@, d));
            }
        },
        Block::Raw { code } => {
            out.append(ind.as_str());
            out.append("do
");
            proof {
                assert(decreases_to!(*b => (*b)->Raw_code));
            }
            write_stats(out, code, &child_ind, Ghost(d + 1));
            out.append(ind.as_str());
            out.append("end
");
            proof {
                assert(out@ =~= old(out)@ + block_text(b@, d));
            }
        },
    }
}

/// Emits each statement of a sequence in order, all at depth `d`.
#[verifier::loop_isolation(false)]
pub(crate) fn write_stats(out: &mut String, ss: &Vec<Stat>, ind: &String, Ghost(d): Ghost<nat>)
    requires
        ind@ == indent_text(d),
    ensures
        final(out)@ == old(out)@ + stats_text(stats_view(ss@), d),
    decreases ss,
{
    let ghost sv = stats_view(ss@);
    proof {
        lemma_stats_view(ss@);
    }
    let m = ss.len();
    let mut i: usize = 0;
    while i < m
        invariant
            i <= m,
            out@ == old(out)@ + stats_text(sv.subrange(0, i as int), d),
        decreases m - i,
    {
        proof {
            assert(decreases_to!(*ss => ss@));
            assert(decreases_to!(ss@ => ss@[i as int]));
        }
        write_stat(out, &ss[i], ind, Ghost(d));
        proof {
            let pre = sv.subrange(0, i as int);
            let ext = sv.subrange(0, i + 1);
            assert(ext.drop_last() =~= pre);
            assert(ext.last() == sv[i as int]);
            assert(stats_text(ext, d) == stats_text(pre, d) + stat_text(sv[i as int], d));
            assert(out@ =~= old(out)@ + stats_text(ext, d));
        }
        i = i + 1;
    }
    proof {
        assert(sv.subrange(0, m as int) =~= sv);
    }
}

/// An indentation level of the renderer: `0` is the top of the program, and
/// each open scope adds one level.
#[derive(Clone, Copy, Debug, PartialEq, Eq, Structural)]
pub struct Ident(pub usize);

impl Ident {
    /// One level deeper.
    pub fn incr(&self) -> (r: Ident)
        requires
            self.0 < usize::MAX,
        ensures
            r.0 == self.0 + 1,
    {
        Ident(self.0 + 1)
    }

    /// The indentation text of this level: two spaces per level.
    pub fn text(&self) -> (r: String)
        ensures
            r@ == indent_text(self.0 as nat),
    {
        let mut out = String::new();
        let mut i: usize = 0;
        while i < self.0
            invariant
                i <= self.0,
                out@ == indent_text(i as nat),
            decreases self.0 - i,
        {
            out.append("  ");
            proof {
                lemma_indent_step(i as nat);
            }
            i = i + 1;
        }
        out
    }
}

} // verus!
