//! The node model of the builder: expressions, places, values, statements
//! and scopes, together with their mathematical views.
//!
//! The executable tree mirrors the views one for one. Every contract of the
//! crate speaks of the views: sequences of characters in place of strings,
//! unbounded integers in place of machine integers.

use vstd::prelude::*;

verus! {

// ---------------------------------------------------------------------------
// Views: the mathematical model of the tree.
// ---------------------------------------------------------------------------

/// A number keeps the integer/float distinction of the source language even
/// though Lua has a single numeric domain. A float is carried as the decimal
/// text that stands for it (the host converts its machine floats to text
/// before handing them in), so the renderer emits it verbatim.
pub enum NumberView {
    Int(int),
    Float(Seq<char>),
}

/// An assignable location: a bare identifier, or a computed expression
/// (for example a table element) used on the left side of an assignment.
pub enum VarView {
    Ident(Seq<char>),
    Expression(Box<ExprView>),
}

/// A fully built expression.
pub enum ExprView {
    Number(NumberView),
    Ident(Seq<char>),
    TableAccess { table: Box<VarView>, key: Box<ExprView> },
    Nil,
    Table(Seq<(ExprView, ExprView)>),
    Str(Seq<char>),
    /// An expression kept grouped: it renders inside its own parentheses.
    Paren(Box<ExprView>),
}

/// A named function scope: header data and the statements of its body.
pub struct FunctionView {
    pub name: Option<Seq<char>>,
    pub params: Seq<Seq<char>>,
    pub code: Seq<StatView>,
}

/// A scope: a named function, or a raw `do ... end` block.
pub enum BlockView {
    Function(FunctionView),
    Raw { code: Seq<StatView> },
}

/// A statement: a folded scope, or a local assignment.
pub enum StatView {
    Block(BlockView),
    Assign { place: VarView, value: ExprView },
}

/// The state of a [`crate::Context`]: the finished top-level statements and
/// the stack of currently open scopes, innermost last.
pub struct ContextView {
    pub chunk: Seq<StatView>,
    pub blocks: Seq<BlockView>,
}

// ---------------------------------------------------------------------------
// Executable nodes.
// ---------------------------------------------------------------------------

/// A number literal; see [`NumberView`] for the meaning of the variants.
#[derive(Debug)]
pub enum Number {
    Int(i64),
    /// The decimal text of a float, emitted verbatim by the renderer.
    Float(String),
}

#[derive(Debug)]
pub enum Var {
    Ident(String),
    Expression(Expression),
}

/// An assignable location, usable on the left side of an assignment.
#[derive(Debug)]
pub struct Place(pub Var);

#[derive(Debug)]
pub enum Expression {
    Number(Number),
    Ident(String),
    TableAccess { table: Box<Var>, key: Box<Expression> },
    Nil,
    Table(Vec<(Expression, Expression)>),
    Str(String),
    Paren(Box<Expression>),
}

/// A read-only expression result, usable as an assignment right-hand side or
/// nested within other expressions.
#[derive(Debug)]
pub struct Value(pub Expression);

/// A function call expression; reserved for later extension of the node set.
pub struct Call {
    pub function: Var,
    pub parameters: Vec<Expression>,
}

#[derive(Debug)]
pub struct Function {
    pub name: Option<String>,
    pub params: Vec<String>,
    pub code: Vec<Stat>,
}

#[derive(Debug)]
pub enum Block {
    Function(Function),
    Raw { code: Vec<Stat> },
}

#[derive(Debug)]
pub enum Stat {
    Block(Block),
    Assign { place: Var, value: Expression },
}

impl Value {
    /// Wraps this value as a computed place, so that, for example, a table
    /// element can stand on the left side of an assignment.
    pub fn to_place(self) -> (p: Place)
        ensures
            p@ == VarView::Expression(Box::new(self@)),
    {
        Place(Var::Expression(self.0))
    }
}

// ---------------------------------------------------------------------------
// The view of each executable node.
// ---------------------------------------------------------------------------

impl View for Number {
    type V = NumberView;

    open spec fn view(&self) -> NumberView {
        match self {
            Number::Int(v) => NumberView::Int(*v as int),
            Number::Float(t) => NumberView::Float(t@),
        }
    }
}

impl View for Var {
    type V = VarView;

    open spec fn view(&self) -> VarView
        decreases self,
    {
        match self {
            Var::Ident(n) => VarView::Ident(n@),
            Var::Expression(e) => VarView::Expression(Box::new(e@)),
        }
    }
}

pub open spec fn pairs_view(ps: Seq<(Expression, Expression)>) -> Seq<(ExprView, ExprView)>
    decreases ps,
{
    if ps.len() == 0 {
        Seq::empty()
    } else {
        pairs_view(ps.drop_last()).push((ps.last().0@, ps.last().1@))
    }
}

impl View for Expression {
    type V = ExprView;

    open spec fn view(&self) -> ExprView
        decreases self,
    {
        match self {
            Expression::Number(n) => ExprView::Number(n@),
            Expression::Ident(n) => ExprView::Ident(n@),
            Expression::TableAccess { table, key } => ExprView::TableAccess {
                table: Box::new((**table)@),
                key: Box::new((**key)@),
            },
            Expression::Nil => ExprView::Nil,
            Expression::Table(fields) => ExprView::Table(pairs_view(fields@)),
            Expression::Str(s) => ExprView::Str(s@),
            Expression::Paren(inner) => ExprView::Paren(Box::new((**inner)@)),
        }
    }
}

impl View for Place {
    type V = VarView;

    open spec fn view(&self) -> VarView {
        self.0@
    }
}

impl View for Value {
    type V = ExprView;

    open spec fn view(&self) -> ExprView {
        self.0@
    }
}

pub open spec fn params_view(ps: Seq<String>) -> Seq<Seq<char>>
    decreases ps,
{
    if ps.len() == 0 {
        Seq::empty()
    } else {
        params_view(ps.drop_last()).push(ps.last()@)
    }
}

pub open spec fn blocks_view(bs: Seq<Block>) -> Seq<BlockView>
    decreases bs,
{
    if bs.len() == 0 {
        Seq::empty()
    } else {
        blocks_view(bs.drop_last()).push(bs.last()@)
    }
}

pub open spec fn stats_view(ss: Seq<Stat>) -> Seq<StatView>
    decreases ss,
{
    if ss.len() == 0 {
        Seq::empty()
    } else {
        stats_view(ss.drop_last()).push(ss.last()@)
    }
}

impl View for Function {
    type V = FunctionView;

    open spec fn view(&self) -> FunctionView
        decreases self,
    {
        FunctionView {
            name: match self.name {
                Some(n) => Some(n@),
                None => None,
            },
            params: params_view(self.params@),
            code: stats_view(self.code@),
        }
    }
}

impl View for Block {
    type V = BlockView;

    open spec fn view(&self) -> BlockView
        decreases self,
    {
        match self {
            Block::Function(f) => BlockView::Function(f@),
            Block::Raw { code } => BlockView::Raw { code: stats_view(code@) },
        }
    }
}

impl View for Stat {
    type V = StatView;

    open spec fn view(&self) -> StatView
        decreases self,
    {
        match self {
            Stat::Block(b) => StatView::Block(b@),
            Stat::Assign { place, value } => StatView::Assign { place: place@, value: value@ },
        }
    }
}

// ---------------------------------------------------------------------------
// Facts about the sequence views.
// ---------------------------------------------------------------------------

/// The view of a scope stack has the same length, element for element.
pub proof fn lemma_blocks_view(bs: Seq<Block>)
    ensures
        blocks_view(bs).len() == bs.len(),
        forall|i: int| 0 <= i < bs.len() ==> blocks_view(bs)[i] == #[trigger] bs[i]@,
    decreases bs.len(),
{
    if bs.len() > 0 {
        lemma_blocks_view(bs.drop_last());
        assert(blocks_view(bs) == blocks_view(bs.drop_last()).push(bs.last()@));
        assert forall|i: int| 0 <= i < bs.len() implies blocks_view(bs)[i] == #[trigger] bs[i]@ by {
            if i < bs.len() - 1 {
                assert(bs.drop_last()[i] == bs[i]);
            } else {
                assert(bs[i] == bs.last());
            }
        }
    }
}

/// The view of a statement sequence has the same length, element for element.
pub proof fn lemma_stats_view(ss: Seq<Stat>)
    ensures
        stats_view(ss).len() == ss.len(),
        forall|i: int| 0 <= i < ss.len() ==> stats_view(ss)[i] == #[trigger] ss[i]@,
    decreases ss.len(),
{
    if ss.len() > 0 {
        lemma_stats_view(ss.drop_last());
        assert(stats_view(ss) == stats_view(ss.drop_last()).push(ss.last()@));
        assert forall|i: int| 0 <= i < ss.len() implies stats_view(ss)[i] == #[trigger] ss[i]@ by {
            if i < ss.len() - 1 {
                assert(ss.drop_last()[i] == ss[i]);
            } else {
                assert(ss[i] == ss.last());
            }
        }
    }
}

/// The view of a parameter list has the same length, element for element.
pub proof fn lemma_params_view(ps: Seq<String>)
    ensures
        params_view(ps).len() == ps.len(),
        forall|i: int| 0 <= i < ps.len() ==> params_view(ps)[i] == #[trigger] ps[i]@,
    decreases ps.len(),
{
    if ps.len() > 0 {
        lemma_params_view(ps.drop_last());
        assert(params_view(ps) == params_view(ps.drop_last()).push(ps.last()@));
        assert forall|i: int| 0 <= i < ps.len() implies params_view(ps)[i] == #[trigger] ps[i]@ by {
            if i < ps.len() - 1 {
                assert(ps.drop_last()[i] == ps[i]);
            } else {
                assert(ps[i] == ps.last());
            }
        }
    }
}

/// The view of a table field list has the same length, element for element.
pub proof fn lemma_pairs_view(ps: Seq<(Expression, Expression)>)
    ensures
        pairs_view(ps).len() == ps.len(),
        forall|i: int|
            0 <= i < ps.len() ==> pairs_view(ps)[i] == (#[trigger] ps[i].0@, ps[i].1@),
    decreases ps.len(),
{
    if ps.len() > 0 {
        lemma_pairs_view(ps.drop_last());
        assert(pairs_view(ps) == pairs_view(ps.drop_last()).push((ps.last().0@, ps.last().1@)));
        assert forall|i: int|
            0 <= i < ps.len() implies pairs_view(ps)[i] == (#[trigger] ps[i].0@, ps[i].1@) by {
            if i < ps.len() - 1 {
                assert(ps.drop_last()[i] == ps[i]);
            } else {
                assert(ps[i] == ps.last());
            }
        }
    }
}

// ---------------------------------------------------------------------------
// Cloning. The nodes own heap data and recurse through vectors, which the
// derived impl cannot handle here, so `clone` is written out; its contract
// says the copy has the same view as the original.
// ---------------------------------------------------------------------------

impl Clone for Number {
    /// The copy equals the original.
    fn clone(&self) -> (res: Number)
        ensures
            res == *self,
    {
        match self {
            Number::Int(v) => Number::Int(*v),
            Number::Float(t) => Number::Float(t.clone()),
        }
    }
}

fn clone_var(v: &Var) -> (res: Var)
    ensures
        res@ == v@,
    decreases v,
{
    match v {
        Var::Ident(n) => Var::Ident(n.clone()),
        Var::Expression(e) => Var::Expression(clone_expr(e)),
    }
}

fn clone_expr(e: &Expression) -> (res: Expression)
    ensures
        res@ == e@,
    decreases e,
{
    match e {
        Expression::Number(n) => Expression::Number(n.clone()),
        Expression::Ident(n) => Expression::Ident(n.clone()),
        Expression::TableAccess { table, key } => Expression::TableAccess {
            table: Box::new(clone_var(table)),
            key: Box::new(clone_expr(key)),
        },
        Expression::Nil => Expression::Nil,
        Expression::Table(fields) => {
            proof {
                lemma_pairs_view(fields@);
            }
            let m = fields.len();
            let mut out: Vec<(Expression, Expression)> = Vec::new();
            let mut i: usize = 0;
            while i < m
                invariant
                    *e == Expression::Table(*fields),
                    m == fields@.len(),
                    i <= m,
                    out@.len() == i,
                    forall|j: int|
                        0 <= j < i ==> (#[trigger] out@[j]).0@ == fields@[j].0@ && out@[j].1@
                            == fields@[j].1@,
                decreases m - i,
            {
                proof {
                    assert(decreases_to!(*e => (*e)->Table_0));
                    assert(decreases_to!((*e)->Table_0 => (*e)->Table_0@));
                    assert(decreases_to!((*e)->Table_0@ => (*e)->Table_0@[i as int]));
                    assert(decreases_to!((*e)->Table_0@[i as int] => (*e)->Table_0@[i as int].0));
                    assert(decreases_to!((*e)->Table_0@[i as int] => (*e)->Table_0@[i as int].1));
                    assert((*e)->Table_0 == *fields);
                }
                let k = clone_expr(&fields[i].0);
                let val = clone_expr(&fields[i].1);
                out.push((k, val));
                i = i + 1;
            }
            proof {
                lemma_pairs_view(out@);
                assert forall|j: int|
                    0 <= j < m implies pairs_view(out@)[j] == pairs_view(fields@)[j] by {
                    assert(out@[j].0@ == fields@[j].0@ && out@[j].1@ == fields@[j].1@);
                }
                assert(pairs_view(out@) =~= pairs_view(fields@));
            }
            Expression::Table(out)
        },
        Expression::Str(s) => Expression::Str(s.clone()),
        Expression::Paren(inner) => Expression::Paren(Box::new(clone_expr(inner))),
    }
}

fn clone_params(ps: &Vec<String>) -> (res: Vec<String>)
    ensures
        res@ == ps@,
{
    let m = ps.len();
    let mut out: Vec<String> = Vec::new();
    let mut i: usize = 0;
    while i < m
        invariant
            m == ps@.len(),
            i <= m,
            out@.len() == i,
            forall|j: int| 0 <= j < i ==> out@[j] == ps@[j],
        decreases m - i,
    {
        out.push(ps[i].clone());
        i = i + 1;
    }
    proof {
        assert(out@ =~= ps@);
    }
    out
}

fn clone_stats(ss: &Vec<Stat>) -> (res: Vec<Stat>)
    ensures
        stats_view(res@) == stats_view(ss@),
    decreases ss,
{
    proof {
        lemma_stats_view(ss@);
    }
    let m = ss.len();
    let mut out: Vec<Stat> = Vec::new();
    let mut i: usize = 0;
    while i < m
        invariant
            m == ss@.len(),
            i <= m,
            out@.len() == i,
            forall|j: int| 0 <= j < i ==> (#[trigger] out@[j])@ == ss@[j]@,
        decreases m - i,
    {
        proof {
            assert(decreases_to!(*ss => ss@));
            assert(decreases_to!(ss@ => ss@[i as int]));
        }
        out.push(clone_stat(&ss[i]));
        i = i + 1;
    }
    proof {
        lemma_stats_view(out@);
        assert forall|j: int| 0 <= j < m implies stats_view(out@)[j] == stats_view(ss@)[j] by {
            assert(out@[j]@ == ss@[j]@);
        }
        assert(stats_view(out@) =~= stats_view(ss@));
    }
    out
}

fn clone_function(f: &Function) -> (res: Function)
    ensures
        res@ == f@,
    decreases f,
{
    let name = match &f.name {
        Some(n) => Some(n.clone()),
        None => None,
    };
    proof {
        assert(decreases_to!(*f => f.code));
    }
    let code = clone_stats(&f.code);
    Function { name, params: clone_params(&f.params), code }
}

fn clone_block(b: &Block) -> (res: Block)
    ensures
        res@ == b@,
    decreases b,
{
    match b {
        Block::Function(f) => {
            proof {
                assert(decreases_to!(*b => (*b)->Function_0));
            }
            Block::Function(clone_function(f))
        },
        Block::Raw { code } => {
            proof {
                assert(decreases_to!(*b => (*b)->Raw_code));
            }
            Block::Raw { code: clone_stats(code) }
        },
    }
}

fn clone_stat(s: &Stat) -> (res: Stat)
    ensures
        res@ == s@,
    decreases s,
{
    match s {
        Stat::Block(b) => {
            proof {
                assert(decreases_to!(*s => (*s)->Block_0));
            }
            Stat::Block(clone_block(b))
        },
        Stat::Assign { place, value } => Stat::Assign {
            place: clone_var(place),
            value: clone_expr(value),
        },
    }
}

impl Clone for Var {
    /// The copy has the same view as the original.
    fn clone(&self) -> (res: Var)
        ensures
            res@ == self@,
    {
        clone_var(self)
    }
}

impl Clone for Expression {
    /// The copy has the same view as the original.
    fn clone(&self) -> (res: Expression)
        ensures
            res@ == self@,
    {
        clone_expr(self)
    }
}

impl Clone for Place {
    /// The copy has the same view as the original.
    fn clone(&self) -> (res: Place)
        ensures
            res@ == self@,
    {
        Place(clone_var(&self.0))
    }
}

impl Clone for Value {
    /// The copy has the same view as the original.
    fn clone(&self) -> (res: Value)
        ensures
            res@ == self@,
    {
        Value(clone_expr(&self.0))
    }
}

impl Clone for Function {
    /// The copy has the same view as the original.
    fn clone(&self) -> (res: Function)
        ensures
            res@ == self@,
    {
        clone_function(self)
    }
}

impl Clone for Block {
    /// The copy has the same view as the original.
    fn clone(&self) -> (res: Block)
        ensures
            res@ == self@,
    {
        clone_block(self)
    }
}

impl Clone for Stat {
    /// The copy has the same view as the original.
    fn clone(&self) -> (res: Stat)
        ensures
            res@ == self@,
    {
        clone_stat(self)
    }
}

} // verus!
