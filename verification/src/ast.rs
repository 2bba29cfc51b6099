//! The abstract syntax tree: expressions, statements, and their small
//! auxiliary enums. Every node that can raise a runtime error carries the
//! line of the responsible token. Variable reads and writes additionally
//! carry a node identity, assigned by the parser, which the resolver keys
//! its scope depths on. `SpExpr` and `SpStmt` are the mathematical images.
use vstd::prelude::*;

verus! {

#[derive(Clone, Copy, Debug, PartialEq, Eq, Structural)]
pub enum BinOp {
    Add,
    Div,
    Eq,
    Gt,
    GtEq,
    Lt,
    LtEq,
    Mul,
    NotEq,
    Sub,
}

#[derive(Clone, Copy, Debug, PartialEq, Eq, Structural)]
pub enum Keyword {
    And,
    Or,
}

#[derive(Clone, Copy, Debug, PartialEq, Eq, Structural)]
pub enum UnOp {
    Neg,
    Not,
}

#[derive(Debug)]
pub enum Lit {
    Bool(bool),
    Nil,
    Num(u64),
    Str(String),
}

pub enum SpLit {
    Bool(bool),
    Nil,
    Num(u64),
    Str(Seq<char>),
}

impl Lit {
    /// A copy with the same mathematical image.
    pub fn duplicate(&self) -> (r: Lit)
        ensures
            r@ == self@,
    {
        match self {
            Lit::Bool(b) => Lit::Bool(*b),
            Lit::Nil => Lit::Nil,
            Lit::Num(n) => Lit::Num(*n),
            Lit::Str(s) => Lit::Str(s.clone()),
        }
    }
}

impl View for Lit {
    type V = SpLit;

    open spec fn view(&self) -> SpLit {
        match self {
            Lit::Bool(b) => SpLit::Bool(*b),
            Lit::Nil => SpLit::Nil,
            Lit::Num(n) => SpLit::Num(*n),
            Lit::Str(s) => SpLit::Str(s@),
        }
    }
}

#[derive(Debug)]
pub enum Expr {
    Assign { name: String, value: Box<Expr>, line: u64, id: usize },
    Binary { lhs: Box<Expr>, op: BinOp, rhs: Box<Expr>, line: u64 },
    Call { callee: Box<Expr>, args: Vec<Expr>, line: u64 },
    Grouping(Box<Expr>),
    Unary(UnOp, Box<Expr>, u64),
    Literal(Lit),
    Logical { lhs: Box<Expr>, kw: Keyword, rhs: Box<Expr>, line: u64 },
    Variable { name: String, line: u64, id: usize },
}

pub enum SpExpr {
    Assign { name: Seq<char>, value: Box<SpExpr>, line: nat, id: nat },
    Binary { lhs: Box<SpExpr>, op: BinOp, rhs: Box<SpExpr>, line: nat },
    Call { callee: Box<SpExpr>, args: Seq<SpExpr>, line: nat },
    Grouping(Box<SpExpr>),
    Unary(UnOp, Box<SpExpr>, nat),
    Literal(SpLit),
    Logical { lhs: Box<SpExpr>, kw: Keyword, rhs: Box<SpExpr>, line: nat },
    Variable { name: Seq<char>, line: nat, id: nat },
}

/// The images of a sequence of expressions.
pub open spec fn exprs_view(v: Seq<Expr>) -> Seq<SpExpr>
    decreases v,
{
    if v.len() == 0 {
        Seq::empty()
    } else {
        seq![v[0].deep_view()] + exprs_view(v.drop_first())
    }
}

/// The images of a sequence of statements.
pub open spec fn stmts_view(v: Seq<Stmt>) -> Seq<SpStmt>
    decreases v,
{
    if v.len() == 0 {
        Seq::empty()
    } else {
        seq![v[0].deep_view()] + stmts_view(v.drop_first())
    }
}

/// The images of a sequence of names.
pub open spec fn names_view(v: Seq<String>) -> Seq<Seq<char>> {
    v.map_values(|p: String| p@)
}

impl DeepView for Expr {
    type V = SpExpr;

    open spec fn deep_view(&self) -> SpExpr
        decreases self,
    {
        match self {
            Expr::Assign { name, value, line, id } => SpExpr::Assign {
                name: name@,
                value: Box::new((**value).deep_view()),
                line: *line as nat,
                id: *id as nat,
            },
            Expr::Binary { lhs, op, rhs, line } => SpExpr::Binary {
                lhs: Box::new((**lhs).deep_view()),
                op: *op,
                rhs: Box::new((**rhs).deep_view()),
                line: *line as nat,
            },
            Expr::Call { callee, args, line } => SpExpr::Call {
                callee: Box::new((**callee).deep_view()),
                args: exprs_view(args@),
                line: *line as nat,
            },
            Expr::Grouping(inner) => SpExpr::Grouping(Box::new((**inner).deep_view())),
            Expr::Unary(op, rhs, line) => SpExpr::Unary(
                *op,
                Box::new((**rhs).deep_view()),
                *line as nat,
            ),
            Expr::Literal(lit) => SpExpr::Literal(lit@),
            Expr::Logical { lhs, kw, rhs, line } => SpExpr::Logical {
                lhs: Box::new((**lhs).deep_view()),
                kw: *kw,
                rhs: Box::new((**rhs).deep_view()),
                line: *line as nat,
            },
            Expr::Variable { name, line, id } => SpExpr::Variable {
                name: name@,
                line: *line as nat,
                id: *id as nat,
            },
        }
    }
}

impl View for Expr {
    type V = SpExpr;

    open spec fn view(&self) -> SpExpr {
        self.deep_view()
    }
}

#[derive(Debug)]
pub enum Stmt {
    Expr(Expr),
    Block(Vec<Stmt>),
    If { condition: Expr, then: Box<Stmt>, otherwise: Option<Box<Stmt>> },
    Function { name: String, params: Vec<String>, body: Vec<Stmt>, line: u64 },
    Print(Expr),
    Return(Option<Expr>, u64),
    Var(String, Option<Expr>),
    While(Expr, Box<Stmt>),
}

pub enum SpStmt {
    Expr(SpExpr),
    Block(Seq<SpStmt>),
    If { condition: SpExpr, then: Box<SpStmt>, otherwise: Option<Box<SpStmt>> },
    Function { name: Seq<char>, params: Seq<Seq<char>>, body: Seq<SpStmt>, line: nat },
    Print(SpExpr),
    Return(Option<SpExpr>, nat),
    Var(Seq<char>, Option<SpExpr>),
    While(SpExpr, Box<SpStmt>),
}

impl DeepView for Stmt {
    type V = SpStmt;

    open spec fn deep_view(&self) -> SpStmt
        decreases self,
    {
        match self {
            Stmt::Expr(e) => SpStmt::Expr(e.deep_view()),
            Stmt::Block(stmts) => SpStmt::Block(stmts_view(stmts@)),
            Stmt::If { condition, then, otherwise } => SpStmt::If {
                condition: condition.deep_view(),
                then: Box::new((**then).deep_view()),
                otherwise: match otherwise {
                    Some(s) => Some(Box::new((**s).deep_view())),
                    None => None,
                },
            },
            Stmt::Function { name, params, body, line } => SpStmt::Function {
                name: name@,
                params: names_view(params@),
                body: stmts_view(body@),
                line: *line as nat,
            },
            Stmt::Print(e) => SpStmt::Print(e.deep_view()),
            Stmt::Return(e, line) => SpStmt::Return(
                match e {
                    Some(e) => Some(e.deep_view()),
                    None => None,
                },
                *line as nat,
            ),
            Stmt::Var(name, init) => SpStmt::Var(
                name@,
                match init {
                    Some(e) => Some(e.deep_view()),
                    None => None,
                },
            ),
            Stmt::While(cond, body) => SpStmt::While(cond.deep_view(), Box::new((**body).deep_view())),
        }
    }
}

impl View for Stmt {
    type V = SpStmt;

    open spec fn view(&self) -> SpStmt {
        self.deep_view()
    }
}

pub proof fn lemma_exprs_view_index(v: Seq<Expr>)
    ensures
        exprs_view(v).len() == v.len(),
        forall|i: int| 0 <= i < v.len() ==> #[trigger] (exprs_view(v)[i]) == v[i].deep_view(),
    decreases v.len(),
{
    if v.len() == 0 {
        assert(exprs_view(v).len() == 0);
    } else {
        lemma_exprs_view_index(v.drop_first());
        assert(exprs_view(v) == seq![v[0].deep_view()] + exprs_view(v.drop_first()));
        assert forall|i: int| 0 <= i < v.len() implies #[trigger] (exprs_view(v)[i])
            == v[i].deep_view() by {
            if i > 0 {
                assert(exprs_view(v)[i] == exprs_view(v.drop_first())[i - 1]);
                assert(v.drop_first()[i - 1] == v[i]);
            }
        }
    }
}

pub proof fn lemma_vec_exprs_view(v: Vec<Expr>)
    ensures
        v.deep_view() == exprs_view(v@),
{
    lemma_exprs_view_index(v@);
    assert(v.deep_view() =~= exprs_view(v@));
}

pub proof fn lemma_stmts_view_index(v: Seq<Stmt>)
    ensures
        stmts_view(v).len() == v.len(),
        forall|i: int| 0 <= i < v.len() ==> #[trigger] (stmts_view(v)[i]) == v[i].deep_view(),
    decreases v.len(),
{
    if v.len() == 0 {
        assert(stmts_view(v).len() == 0);
    } else {
        lemma_stmts_view_index(v.drop_first());
        assert(stmts_view(v) == seq![v[0].deep_view()] + stmts_view(v.drop_first()));
        assert forall|i: int| 0 <= i < v.len() implies #[trigger] (stmts_view(v)[i])
            == v[i].deep_view() by {
            if i > 0 {
                assert(stmts_view(v)[i] == stmts_view(v.drop_first())[i - 1]);
                assert(v.drop_first()[i - 1] == v[i]);
            }
        }
    }
}

pub proof fn lemma_vec_stmts_view(v: Vec<Stmt>)
    ensures
        v.deep_view() == stmts_view(v@),
{
    lemma_stmts_view_index(v@);
    assert(v.deep_view() =~= stmts_view(v@));
}

pub proof fn lemma_vec_names_view(v: Vec<String>)
    ensures
        v.deep_view() == names_view(v@),
{
    assert(v.deep_view() =~= names_view(v@));
}

impl Expr {
    pub fn assign(name: String, expr: Expr, line: u64, id: usize) -> (r: Expr)
        ensures
            r@ == (SpExpr::Assign {
                name: name@,
                value: Box::new(expr@),
                line: line as nat,
                id: id as nat,
            }),
    {
        Expr::Assign { name, value: Box::new(expr), line, id }
    }

    pub fn binary(lhs: Expr, op: BinOp, rhs: Expr, line: u64) -> (r: Expr)
        ensures
            r@ == (SpExpr::Binary {
                lhs: Box::new(lhs@),
                op: op,
                rhs: Box::new(rhs@),
                line: line as nat,
            }),
    {
        Expr::Binary { lhs: Box::new(lhs), op, rhs: Box::new(rhs), line }
    }

    pub fn call(callee: Expr, args: Vec<Expr>, line: u64) -> (r: Expr)
        ensures
            r@ == (SpExpr::Call {
                callee: Box::new(callee@),
                args: args.deep_view(),
                line: line as nat,
            }),
    {
        proof {
            lemma_vec_exprs_view(args);
        }
        Expr::Call { callee: Box::new(callee), args, line }
    }

    pub fn grouping(expr: Expr) -> (r: Expr)
        ensures
            r@ == SpExpr::Grouping(Box::new(expr@)),
    {
        Expr::Grouping(Box::new(expr))
    }

    pub fn logical(lhs: Expr, kw: Keyword, rhs: Expr, line: u64) -> (r: Expr)
        ensures
            r@ == (SpExpr::Logical {
                lhs: Box::new(lhs@),
                kw: kw,
                rhs: Box::new(rhs@),
                line: line as nat,
            }),
    {
        Expr::Logical { lhs: Box::new(lhs), kw, rhs: Box::new(rhs), line }
    }

    pub fn unary(op: UnOp, rhs: Expr, line: u64) -> (r: Expr)
        ensures
            r@ == SpExpr::Unary(op, Box::new(rhs@), line as nat),
    {
        Expr::Unary(op, Box::new(rhs), line)
    }
}

} // verus!
