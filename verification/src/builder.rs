//! The imperative construction API: the scope-stack context that routes new
//! statements to the innermost open scope, and the expression and statement
//! builders.

use vstd::prelude::*;

use crate::Error;
use crate::ast::Block;
use crate::ast::BlockView;
use crate::ast::ContextView;
use crate::ast::ExprView;
use crate::ast::Expression;
use crate::ast::Function;
use crate::ast::FunctionView;
use crate::ast::Number;
use crate::ast::NumberView;
use crate::ast::Place;
use crate::ast::Stat;
use crate::ast::StatView;
use crate::ast::Value;
use crate::ast::Var;
use crate::ast::VarView;
use crate::ast::blocks_view;
use crate::ast::lemma_blocks_view;
use crate::ast::lemma_pairs_view;
use crate::ast::lemma_stats_view;
use crate::ast::pairs_view;
use crate::ast::params_view;
use crate::ast::stats_view;
use crate::render::write_stat;
use crate::text::chunk_text;
use crate::text::indent_text;
use crate::text::stat_text;
use crate::text::stats_text;

verus! {

// ---------------------------------------------------------------------------
// The transitions of the scope stack, as spec functions over the model.
// ---------------------------------------------------------------------------

/// The statements a scope holds so far.
pub open spec fn block_code(b: BlockView) -> Seq<StatView> {
    match b {
        BlockView::Function(f) => f.code,
        BlockView::Raw { code } => code,
    }
}

/// The same scope with its statements replaced; the header data stays.
pub open spec fn block_with_code(b: BlockView, code: Seq<StatView>) -> BlockView {
    match b {
        BlockView::Function(f) => BlockView::Function(
            FunctionView { name: f.name, params: f.params, code },
        ),
        BlockView::Raw { code: _ } => BlockView::Raw { code },
    }
}

/// Routing one statement: it goes to the innermost open scope or, with no
/// scope open, onto the program.
pub open spec fn push_stat(c: ContextView, s: StatView) -> ContextView {
    if c.blocks.len() == 0 {
        ContextView { chunk: c.chunk.push(s), blocks: c.blocks }
    } else {
        ContextView {
            chunk: c.chunk,
            blocks: c.blocks.update(
                c.blocks.len() - 1,
                block_with_code(c.blocks.last(), block_code(c.blocks.last()).push(s)),
            ),
        }
    }
}

/// Opening a function scope: a fresh, empty function frame on the stack.
pub open spec fn open_function(
    c: ContextView,
    name: Seq<char>,
    params: Seq<Seq<char>>,
) -> ContextView {
    ContextView {
        chunk: c.chunk,
        blocks: c.blocks.push(
            BlockView::Function(FunctionView { name: Some(name), params, code: Seq::empty() }),
        ),
    }
}

/// Opening a raw block scope: a fresh, empty raw frame on the stack.
pub open spec fn open_raw(c: ContextView) -> ContextView {
    ContextView {
        chunk: c.chunk,
        blocks: c.blocks.push(BlockView::Raw { code: Seq::empty() }),
    }
}

/// Closing the innermost scope: the top frame is folded into a statement of
/// its parent (or of the program). With no scope open nothing changes.
pub open spec fn close_block(c: ContextView) -> ContextView {
    if c.blocks.len() == 0 {
        c
    } else {
        push_stat(
            ContextView { chunk: c.chunk, blocks: c.blocks.drop_last() },
            StatView::Block(c.blocks.last()),
        )
    }
}

// ---------------------------------------------------------------------------
// The context.
// ---------------------------------------------------------------------------

/// Owns the program under construction and the stack of currently open
/// scopes, innermost last.
pub struct Context {
    pub chunk: Vec<Stat>,
    pub current_blocks: Vec<Block>,
}

impl View for Context {
    type V = ContextView;

    open spec fn view(&self) -> ContextView {
        ContextView {
            chunk: stats_view(self.chunk@),
            blocks: blocks_view(self.current_blocks@),
        }
    }
}

impl Block {
    /// Appends one statement to this scope's code.
    pub(crate) fn append(&mut self, node: Stat)
        ensures
            final(self)@ == block_with_code(old(self)@, block_code(old(self)@).push(node@)),
    {
        let ghost o = *old(self);
        match self {
            Block::Function(f) => {
                f.code.push(node);
                proof {
                    assert(f.code@.drop_last() =~= o->Function_0.code@);
                    assert((*self)@ =~= block_with_code(o@, block_code(o@).push(node@)));
                }
            },
            Block::Raw { code } => {
                code.push(node);
                proof {
                    assert(code@.drop_last() =~= o->Raw_code@);
                    assert((*self)@ =~= block_with_code(o@, block_code(o@).push(node@)));
                }
            },
        }
    }
}

impl Context {
    /// A fresh context: empty program, empty scope stack.
    pub fn new() -> (c: Context)
        ensures
            c@ == (ContextView { chunk: Seq::<StatView>::empty(), blocks: Seq::<
                BlockView,
            >::empty() }),
    {
        let c = Context { current_blocks: Vec::new(), chunk: Vec::new() };
        proof {
            assert(c@ =~= ContextView {
                chunk: Seq::<StatView>::empty(),
                blocks: Seq::<BlockView>::empty(),
            });
        }
        c
    }

    /// Routes a built statement to the innermost open scope, or to the
    /// program when no scope is open.
    fn add_stat(&mut self, stat: Stat)
        ensures
            final(self)@ == push_stat(old(self)@, stat@),
    {
        let ghost o = *old(self);
        proof {
            lemma_blocks_view(o.current_blocks@);
        }
        match self.current_blocks.pop() {
            Some(mut b) => {
                b.append(stat);
                let ghost gb = b@;
                self.current_blocks.push(b);
                proof {
                    let ob = o.current_blocks@;
                    let nb = self.current_blocks@;
                    lemma_blocks_view(nb);
                    let target = push_stat(o@, stat@).blocks;
                    assert(o@.blocks.last() == ob.last()@);
                    assert(gb == block_with_code(o@.blocks.last(), block_code(
                        o@.blocks.last(),
                    ).push(stat@)));
                    assert forall|i: int| 0 <= i < nb.len() implies blocks_view(nb)[i]
                        == target[i] by {
                        if i < nb.len() - 1 {
                            assert(nb[i] == ob.drop_last()[i]);
                            assert(ob.drop_last()[i] == ob[i]);
                            assert(blocks_view(ob)[i] == ob[i]@);
                        } else {
                            assert(nb[i]@ == gb);
                        }
                    }
                    assert(blocks_view(nb) =~= target);
                    assert((*self)@ =~= push_stat(o@, stat@));
                }
            },
            None => {
                self.chunk.push(stat);
                proof {
                    assert(self.chunk@.drop_last() =~= o.chunk@);
                    assert((*self)@ =~= push_stat(o@, stat@));
                }
            },
        }
    }

    /// Opens a function scope and hands back a place naming the function, so
    /// that it can be referenced before its body is finished.
    pub fn start_function(&mut self, name: String, params: Vec<String>) -> (p: Place)
        ensures
            final(self)@ == open_function(old(self)@, name@, params_view(params@)),
            p@ == VarView::Ident(name@),
    {
        let ghost o = *old(self);
        self.current_blocks.push(
            Block::Function(Function { name: Some(name.clone()), params, code: Vec::new() }),
        );
        proof {
            assert(self.current_blocks@.drop_last() =~= o.current_blocks@);
            assert((*self)@ =~= open_function(o@, name@, params_view(params@)));
        }
        Place(Var::Ident(name))
    }

    /// Opens a raw `do ... end` scope.
    pub fn start_raw_block(&mut self)
        ensures
            final(self)@ == open_raw(old(self)@),
    {
        let ghost o = *old(self);
        self.current_blocks.push(Block::Raw { code: Vec::new() });
        proof {
            assert(self.current_blocks@.drop_last() =~= o.current_blocks@);
            assert((*self)@ =~= open_raw(o@));
        }
    }

    /// Closes the innermost open scope, folding it into a statement of its
    /// parent (or of the program). With no scope open it fails and changes
    /// nothing.
    pub fn finish_block(&mut self) -> (r: Result<(), Error>)
        ensures
            final(self)@ == close_block(old(self)@),
            r == if old(self)@.blocks.len() == 0 {
                Err::<(), Error>(Error::NoCurrentBlock)
            } else {
                Ok::<(), Error>(())
            },
    {
        let ghost o = *old(self);
        proof {
            lemma_blocks_view(o.current_blocks@);
        }
        let finished_block = match self.current_blocks.pop() {
            Some(b) => b,
            None => {
                return Err(Error::NoCurrentBlock);
            },
        };
        proof {
            lemma_blocks_view(self.current_blocks@);
            assert(self.current_blocks@ =~= o.current_blocks@.drop_last());
            assert((*self)@.blocks =~= o@.blocks.drop_last());
        }
        self.add_stat(Stat::Block(finished_block));
        proof {
            assert((*self)@ =~= close_block(o@));
        }
        Ok(())
    }

    /// The statement builder, bound to this context.
    pub fn stat(&mut self) -> (b: StatBuilder<'_>)
        ensures
            *b.ctx == *old(self),
            *final(self) == *final(b.ctx),
    {
        StatBuilder { ctx: self }
    }

    /// The stateless expression builder; the context stays as it is.
    pub fn expr(&mut self) -> (b: ExprBuilder)
        ensures
            *final(self) == *old(self),
    {
        ExprBuilder
    }

    /// A place naming an identifier. No registration and no uniqueness check
    /// happens: identifiers are opaque to the builder.
    pub fn declare(&mut self, name: String) -> (p: Place)
        ensures
            *final(self) == *old(self),
            p@ == VarView::Ident(name@),
    {
        Place(Var::Ident(name))
    }

    /// Renders the finished top-level statements, in order, as indented
    /// text. Scopes still open on the stack are not rendered.
    pub fn render(&self) -> (out: String)
        ensures
            out@ == chunk_text(self@.chunk),
    {
        let mut out = String::new();
        let ind = String::new();
        let m = self.chunk.len();
        let ghost cv = stats_view(self.chunk@);
        proof {
            lemma_stats_view(self.chunk@);
        }
        let mut i: usize = 0;
        while i < m
            invariant
                i <= m,
                m == self.chunk@.len(),
                cv == stats_view(self.chunk@),
                cv.len() == m,
                forall|j: int| 0 <= j < m ==> cv[j] == #[trigger] self.chunk@[j]@,
                ind@ == indent_text(0),
                out@ == stats_text(cv.subrange(0, i as int), 0),
            decreases m - i,
        {
            write_stat(&mut out, &self.chunk[i], &ind, Ghost(0));
            proof {
                let pre = cv.subrange(0, i as int);
                let ext = cv.subrange(0, i + 1);
                assert(ext.drop_last() =~= pre);
                assert(ext.last() == cv[i as int]);
                assert(stats_text(ext, 0) == stats_text(pre, 0) + stat_text(cv[i as int], 0));
                assert(out@ =~= stats_text(ext, 0));
            }
            i = i + 1;
        }
        proof {
            assert(cv.subrange(0, m as int) =~= cv);
        }
        out
    }
}

// ---------------------------------------------------------------------------
// The expression builder.
// ---------------------------------------------------------------------------

/// The view of a list of key/value pairs handed to the table constructor.
pub open spec fn value_pairs_view(ps: Seq<(Value, Value)>) -> Seq<(ExprView, ExprView)>
    decreases ps.len(),
{
    if ps.len() == 0 {
        Seq::empty()
    } else {
        value_pairs_view(ps.drop_last()).push((ps.last().0@, ps.last().1@))
    }
}

/// The pair list view has the same length, element for element.
pub proof fn lemma_value_pairs_view(ps: Seq<(Value, Value)>)
    ensures
        value_pairs_view(ps).len() == ps.len(),
        forall|i: int|
            0 <= i < ps.len() ==> value_pairs_view(ps)[i] == (#[trigger] ps[i].0@, ps[i].1@),
    decreases ps.len(),
{
    if ps.len() > 0 {
        lemma_value_pairs_view(ps.drop_last());
        assert(value_pairs_view(ps) == value_pairs_view(ps.drop_last()).push(
            (ps.last().0@, ps.last().1@),
        ));
        assert forall|i: int|
            0 <= i < ps.len() implies value_pairs_view(ps)[i] == (
            #[trigger] ps[i].0@,
            ps[i].1@,
        ) by {
            if i < ps.len() - 1 {
                assert(ps.drop_last()[i] == ps[i]);
            } else {
                assert(ps[i] == ps.last());
            }
        }
    }
}

/// The stateless factory for values: literals and composite expressions.
pub struct ExprBuilder;

impl ExprBuilder {
    /// The `nil` literal.
    pub fn nil(self) -> (v: Value)
        ensures
            v@ == ExprView::Nil,
    {
        Value(Expression::Nil)
    }

    /// An integer literal; it renders as its exact decimal digits.
    pub fn integer(self, value: i64) -> (v: Value)
        ensures
            v@ == ExprView::Number(NumberView::Int(value as int)),
    {
        Value(Expression::Number(Number::Int(value)))
    }

    /// A float literal, given as the decimal text that stands for it; the
    /// renderer emits the text verbatim. The host prepares the text with its
    /// usual shortest round-trip formatting of machine floats.
    pub fn double(self, value: String) -> (v: Value)
        ensures
            v@ == ExprView::Number(NumberView::Float(value@)),
    {
        Value(Expression::Number(Number::Float(value)))
    }

    /// Reads a place as a value: an identifier passes through, a computed
    /// place becomes the wrapped expression, parenthesized.
    pub fn get_place(self, place: Place) -> (v: Value)
        ensures
            v@ == match place@ {
                VarView::Ident(n) => ExprView::Ident(n),
                VarView::Expression(e) => ExprView::Paren(e),
            },
    {
        match place.0 {
            Var::Ident(x) => Value(Expression::Ident(x)),
            Var::Expression(e) => Value(Expression::Paren(Box::new(e))),
        }
    }

    /// A table element access; it renders as `(table)[key]`.
    pub fn table_access(self, table: Place, key: Value) -> (v: Value)
        ensures
            v@ == (ExprView::TableAccess {
                table: Box::new(table@),
                key: Box::new(key@),
            }),
    {
        Value(Expression::TableAccess { key: Box::new(key.0), table: Box::new(table.0) })
    }

    /// A table constructor; the pairs keep their given order.
    pub fn table(self, values: Vec<(Value, Value)>) -> (v: Value)
        ensures
            v@ == ExprView::Table(value_pairs_view(values@)),
    {
        let ghost orig = values@;
        proof {
            lemma_value_pairs_view(orig);
        }
        let mut rest = values;
        let mut fields: Vec<(Expression, Expression)> = Vec::new();
        while rest.len() > 0
            invariant
                fields@.len() + rest@.len() == orig.len(),
                rest@ =~= orig.subrange(fields@.len() as int, orig.len() as int),
                forall|i: int|
                    0 <= i < fields@.len() ==> (#[trigger] fields@[i]).0@ == orig[i].0@
                        && fields@[i].1@ == orig[i].1@,
            decreases rest@.len(),
        {
            let (k, val) = rest.remove(0);
            fields.push((k.0, val.0));
        }
        proof {
            lemma_pairs_view(fields@);
            assert forall|i: int|
                0 <= i < orig.len() implies pairs_view(fields@)[i] == value_pairs_view(
                orig,
            )[i] by {
                assert(fields@[i].0@ == orig[i].0@ && fields@[i].1@ == orig[i].1@);
            }
            assert(pairs_view(fields@) =~= value_pairs_view(orig));
        }
        Value(Expression::Table(fields))
    }

    /// A string literal; the renderer escapes it into valid literal text.
    pub fn string(self, value: String) -> (v: Value)
        ensures
            v@ == ExprView::Str(value@),
    {
        Value(Expression::Str(value))
    }
}

// ---------------------------------------------------------------------------
// The statement builder.
// ---------------------------------------------------------------------------

/// The statement factory, bound to a context; statements it builds go to
/// the innermost open scope.
pub struct StatBuilder<'ctx> {
    pub ctx: &'ctx mut Context,
}

impl<'ctx> StatBuilder<'ctx> {
    /// Builds `local <place> = <value>;` and appends it to the current
    /// scope. Every assignment is a fresh local declaration: assigning the
    /// same name again shadows the earlier binding instead of mutating it.
    pub fn assign(self, place: Place, value: Value)
        ensures
            (*final(self.ctx))@ == push_stat(
                (*old(self.ctx))@,
                StatView::Assign { place: place@, value: value@ },
            ),
    {
        let stat = Stat::Assign { place: place.0, value: value.0 };
        self.ctx.add_stat(stat);
    }
}

} // verus!
