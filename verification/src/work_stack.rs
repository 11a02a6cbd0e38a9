//! Taking statements and expressions apart and putting them together again.
//!
//! A walk over the representation keeps its own stack of half-finished nodes,
//! so that deeply nested programs do not use up the call stack. The children of
//! every node come in the same order: statements that lead, expressions,
//! statements that follow, cases.

use vstd::prelude::*;
use crate::hir::{CatchClause, ClosureHead, Expr, LocalId, Shape, Stmt, SwitchCase, Tree};
use crate::hir::{
    case_tree, case_trees, catch_trees, expr_tree, expr_trees, opt_expr_tree, opt_stmt_trees,
    stmt_tree, stmt_trees,
};

verus! {

/// A node of the representation, whatever its sort.
pub enum Node {
    Expr(Expr),
    Stmt(Stmt),
    Case(SwitchCase),
}

impl Node {
    pub open spec fn tree(self) -> Tree {
        match self {
            Node::Expr(e) => expr_tree(e),
            Node::Stmt(s) => stmt_tree(s),
            Node::Case(c) => case_tree(c),
        }
    }
}

/// Whether a node is an expression, a statement or a case.
pub enum Sort {
    Expr,
    Stmt,
    Case,
}

impl Node {
    pub open spec fn sort(self) -> Sort {
        match self {
            Node::Expr(_) => Sort::Expr,
            Node::Stmt(_) => Sort::Stmt,
            Node::Case(_) => Sort::Case,
        }
    }
}

/// A node without its children.
pub enum Shell {
    Closure { head: ClosureHead },
    OtherExpr { tag: u64 },
    Let { id: LocalId },
    ExprStmt,
    Throw,
    Return,
    If { then_len: usize, has_else: bool },
    While,
    DoWhile,
    For { has_condition: bool, has_update: bool },
    Try { body_len: usize, catch: Option<(Option<LocalId>, usize)>, has_finally: bool },
    Switch,
    Case,
    Labeled { label: String },
    OtherStmt { tag: u64 },
}

/// The children of a node, by the group they belong to.
pub struct Kids {
    pub lead: Vec<Stmt>,
    pub exprs: Vec<Expr>,
    pub stmts: Vec<Stmt>,
    pub cases: Vec<SwitchCase>,
}

impl Kids {
    pub open spec fn trees(self) -> Seq<Tree> {
        stmt_trees(self.lead@) + expr_trees(self.exprs@) + stmt_trees(self.stmts@) + case_trees(
            self.cases@,
        )
    }

    pub fn none() -> (kids: Kids)
        ensures
            kids.lead@.len() == 0,
            kids.exprs@.len() == 0,
            kids.stmts@.len() == 0,
            kids.cases@.len() == 0,
            kids.trees() == Seq::<Tree>::empty(),
    {
        let kids = Kids {
            lead: Vec::new(),
            exprs: Vec::new(),
            stmts: Vec::new(),
            cases: Vec::new(),
        };
        assert(kids.trees() =~= Seq::<Tree>::empty());
        kids
    }
}

/// How many children of each group a node has.
pub struct Arity {
    pub lead: nat,
    pub exprs: nat,
    pub stmts: nat,
    pub cases: nat,
}

impl Kids {
    pub open spec fn arity(self) -> Arity {
        Arity {
            lead: self.lead@.len(),
            exprs: self.exprs@.len(),
            stmts: self.stmts@.len(),
            cases: self.cases@.len(),
        }
    }
}

impl Shell {
    pub open spec fn sort(self) -> Sort {
        match self {
            Shell::Closure { .. } => Sort::Expr,
            Shell::OtherExpr { .. } => Sort::Expr,
            Shell::Case => Sort::Case,
            _ => Sort::Stmt,
        }
    }

    /// Whether a node without its children can have so many of them.
    pub open spec fn admits(self, n: Arity) -> bool {
        match self {
            Shell::Closure { .. } => n.stmts == 0 && n.cases == 0,
            Shell::OtherExpr { .. } => n.lead == 0 && n.stmts == 0 && n.cases == 0,
            Shell::Let { .. } | Shell::Return => n.lead == 0 && n.exprs <= 1 && n.stmts == 0
                && n.cases == 0,
            Shell::ExprStmt | Shell::Throw => n.lead == 0 && n.exprs == 1 && n.stmts == 0
                && n.cases == 0,
            Shell::If { then_len, has_else } => n.lead == 0 && n.exprs == 1 && n.cases == 0
                && n.stmts >= then_len && (has_else || n.stmts == then_len),
            Shell::While | Shell::DoWhile => n.lead == 0 && n.exprs == 1 && n.cases == 0,
            Shell::For { has_condition, has_update } => n.lead <= 1 && n.cases == 0 && n.exprs == (
            if has_condition {
                1int
            } else {
                0
            }) + (if has_update {
                1int
            } else {
                0
            }),
            Shell::Try { body_len, catch, has_finally } => {
                let caught: int = match catch {
                    Some(c) => c.1 as int,
                    None => 0,
                };
                n.exprs == 0 && n.stmts == 0 && n.cases == 0 && n.lead >= body_len + caught && (
                has_finally || n.lead == body_len + caught)
            },
            Shell::Switch => n.lead == 0 && n.exprs == 1 && n.stmts == 0,
            Shell::Case => n.lead == 0 && n.exprs <= 1 && n.cases == 0,
            Shell::Labeled { .. } => n.lead == 1 && n.exprs == 0 && n.stmts == 0 && n.cases == 0,
            Shell::OtherStmt { .. } => n.lead == 0 && n.exprs == 0 && n.stmts == 0 && n.cases == 0,
        }
    }

    /// The shape of the node with so many children.
    pub open spec fn shape(self, n: Arity) -> Shape {
        match self {
            Shell::Closure { head } => Shape::Closure { head: head@, body_len: n.lead },
            Shell::OtherExpr { tag } => Shape::OtherExpr { tag },
            Shell::Let { id } => Shape::Let { id },
            Shell::ExprStmt => Shape::ExprStmt,
            Shell::Throw => Shape::Throw,
            Shell::Return => Shape::Return,
            Shell::If { then_len, has_else } => Shape::If { then_len: then_len as nat, has_else },
            Shell::While => Shape::While,
            Shell::DoWhile => Shape::DoWhile,
            Shell::For { has_condition, has_update } => Shape::For {
                has_init: n.lead > 0,
                has_condition,
                has_update,
            },
            Shell::Try { body_len, catch, has_finally } => Shape::Try {
                body_len: body_len as nat,
                catch: match catch {
                    Some(c) => Some((c.0, c.1 as nat)),
                    None => None,
                },
                has_finally,
            },
            Shell::Switch => Shape::Switch,
            Shell::Case => Shape::Case { has_test: n.exprs > 0 },
            Shell::Labeled { label } => Shape::Labeled { label: label@ },
            Shell::OtherStmt { tag } => Shape::OtherStmt { tag },
        }
    }
}

pub proof fn lemma_stmt_trees(s: Seq<Stmt>)
    ensures
        stmt_trees(s).len() == s.len(),
        forall|i: int| 0 <= i < s.len() ==> #[trigger] stmt_trees(s)[i] == stmt_tree(s[i]),
    decreases s.len(),
{
    if s.len() > 0 {
        lemma_stmt_trees(s.drop_last());
        assert forall|i: int| 0 <= i < s.len() implies #[trigger] stmt_trees(s)[i] == stmt_tree(
            s[i],
        ) by {
            if i < s.len() - 1 {
                assert(s.drop_last()[i] == s[i]);
            }
        }
    }
}

pub proof fn lemma_expr_trees(s: Seq<Expr>)
    ensures
        expr_trees(s).len() == s.len(),
        forall|i: int| 0 <= i < s.len() ==> #[trigger] expr_trees(s)[i] == expr_tree(s[i]),
    decreases s.len(),
{
    if s.len() > 0 {
        lemma_expr_trees(s.drop_last());
        assert forall|i: int| 0 <= i < s.len() implies #[trigger] expr_trees(s)[i] == expr_tree(
            s[i],
        ) by {
            if i < s.len() - 1 {
                assert(s.drop_last()[i] == s[i]);
            }
        }
    }
}

pub proof fn lemma_case_trees(s: Seq<SwitchCase>)
    ensures
        case_trees(s).len() == s.len(),
        forall|i: int| 0 <= i < s.len() ==> #[trigger] case_trees(s)[i] == case_tree(s[i]),
    decreases s.len(),
{
    if s.len() > 0 {
        lemma_case_trees(s.drop_last());
        assert forall|i: int| 0 <= i < s.len() implies #[trigger] case_trees(s)[i] == case_tree(
            s[i],
        ) by {
            if i < s.len() - 1 {
                assert(s.drop_last()[i] == s[i]);
            }
        }
    }
}

proof fn lemma_stmt_trees_add(a: Seq<Stmt>, b: Seq<Stmt>)
    ensures
        stmt_trees(a + b) == stmt_trees(a) + stmt_trees(b),
{
    lemma_stmt_trees(a);
    lemma_stmt_trees(b);
    lemma_stmt_trees(a + b);
    assert(stmt_trees(a + b) =~= stmt_trees(a) + stmt_trees(b));
}

proof fn lemma_one_expr(e: Expr)
    ensures
        expr_trees(seq![e]) == seq![expr_tree(e)],
{
    lemma_expr_trees(seq![e]);
    assert(expr_trees(seq![e]) =~= seq![expr_tree(e)]);
}

proof fn lemma_one_stmt(s: Stmt)
    ensures
        stmt_trees(seq![s]) == seq![stmt_tree(s)],
{
    lemma_stmt_trees(seq![s]);
    assert(stmt_trees(seq![s]) =~= seq![stmt_tree(s)]);
}

fn opt_list(e: Option<Expr>) -> (list: Vec<Expr>)
    ensures
        expr_trees(list@) == opt_expr_tree(e),
        list@.len() == if e is Some { 1int } else { 0 },
{
    let mut list: Vec<Expr> = Vec::new();
    match e {
        Some(e) => {
            list.push(e);
            proof {
                lemma_one_expr(e);
                assert(list@ =~= seq![e]);
            }
        },
        None => {
            assert(expr_trees(list@) =~= seq![]);
        },
    }
    list
}

/// The statements of two blocks, one after the other.
fn both(first: Vec<Stmt>, second: Option<Vec<Stmt>>) -> (all: Vec<Stmt>)
    ensures
        stmt_trees(all@) == stmt_trees(first@) + opt_stmt_trees(second),
        all@.len() >= first@.len(),
        second is None ==> all@.len() == first@.len(),
        second matches Some(s) ==> all@.len() == first@.len() + s@.len(),
{
    let mut all = first;
    match second {
        Some(s) => {
            let mut s = s;
            proof {
                lemma_stmt_trees_add(first@, s@);
            }
            all.append(&mut s);
        },
        None => {
            assert(stmt_trees(first@) =~= stmt_trees(first@) + seq![]);
        },
    }
    all
}

fn split_stmt(stmt: Stmt) -> (parts: (Shell, Kids))
    ensures
        stmt_tree(stmt) == (Tree {
            shape: parts.0.shape(parts.1.arity()),
            kids: parts.1.trees(),
        }),
        parts.0.admits(parts.1.arity()),
        parts.0.sort() == Sort::Stmt,
{
    let mut kids = Kids::none();
    let ghost want = stmt_tree(stmt).kids;
    proof {
        assert(stmt_trees(Seq::<Stmt>::empty()) =~= seq![]);
        assert(expr_trees(Seq::<Expr>::empty()) =~= seq![]);
        assert(case_trees(Seq::<SwitchCase>::empty()) =~= seq![]);
    }
    match stmt {
        Stmt::Let { id, init } => {
            kids.exprs = opt_list(init);
            assert(kids.trees() =~= want);
            (Shell::Let { id }, kids)
        },
        Stmt::Expr(e) => {
            kids.exprs = opt_list(Some(e));
            assert(kids.trees() =~= want);
            (Shell::ExprStmt, kids)
        },
        Stmt::Throw(e) => {
            kids.exprs = opt_list(Some(e));
            assert(kids.trees() =~= want);
            (Shell::Throw, kids)
        },
        Stmt::Return(e) => {
            kids.exprs = opt_list(e);
            assert(kids.trees() =~= want);
            (Shell::Return, kids)
        },
        Stmt::If { condition, then_branch, else_branch } => {
            let then_len: usize = then_branch.len();
            let has_else = else_branch.is_some();
            kids.exprs = opt_list(Some(condition));
            kids.stmts = both(then_branch, else_branch);
            assert(kids.trees() =~= want);
            (Shell::If { then_len, has_else }, kids)
        },
        Stmt::While { condition, body } => {
            kids.exprs = opt_list(Some(condition));
            kids.stmts = body;
            assert(kids.trees() =~= want);
            (Shell::While, kids)
        },
        Stmt::DoWhile { body, condition } => {
            kids.exprs = opt_list(Some(condition));
            kids.stmts = body;
            assert(kids.trees() =~= want);
            (Shell::DoWhile, kids)
        },
        Stmt::For { init, condition, update, body } => {
            let has_condition = condition.is_some();
            let has_update = update.is_some();
            if let Some(i) = init {
                proof {
                    lemma_one_stmt(*i);
                }
                kids.lead.push(*i);
                assert(kids.lead@ =~= seq![*i]);
            }
            let ghost parts = opt_expr_tree(condition) + opt_expr_tree(update);
            let mut exprs = opt_list(condition);
            let mut second = opt_list(update);
            proof {
                lemma_expr_trees(exprs@);
                lemma_expr_trees(second@);
                lemma_expr_trees(exprs@ + second@);
                assert(expr_trees(exprs@ + second@) =~= parts);
            }
            exprs.append(&mut second);
            kids.exprs = exprs;
            kids.stmts = body;
            assert(kids.trees() =~= want);
            (Shell::For { has_condition, has_update }, kids)
        },
        Stmt::Try { body, catch, finally } => {
            let body_len: usize = body.len();
            let has_finally = finally.is_some();
            let ghost caught = catch_trees(catch);
            let ghost ended = opt_stmt_trees(finally);
            let ghost main = stmt_trees(body@);
            let (catch_parts, lead) = match catch {
                Some(c) => {
                    let catch_len: usize = c.body.len();
                    assert(opt_stmt_trees(Some(c.body)) == caught);
                    (Some((c.param, catch_len)), both(body, Some(c.body)))
                },
                None => {
                    assert(main =~= main + caught);
                    (None, body)
                },
            };
            assert(stmt_trees(lead@) == main + caught);
            kids.lead = both(lead, finally);
            assert(kids.trees() =~= main + caught + ended);
            assert(want =~= main + caught + ended);
            (Shell::Try { body_len, catch: catch_parts, has_finally }, kids)
        },
        Stmt::Switch { discriminant, cases } => {
            kids.exprs = opt_list(Some(discriminant));
            kids.cases = cases;
            assert(kids.trees() =~= want);
            (Shell::Switch, kids)
        },
        Stmt::Labeled { label, body } => {
            proof {
                lemma_one_stmt(*body);
            }
            kids.lead.push(*body);
            assert(kids.lead@ =~= seq![*body]);
            assert(kids.trees() =~= want);
            (Shell::Labeled { label }, kids)
        },
        Stmt::Other(tag) => {
            assert(kids.trees() =~= want);
            (Shell::OtherStmt { tag }, kids)
        },
    }
}

/// The node without its children, and its children.
pub fn split(node: Node) -> (parts: (Shell, Kids))
    ensures
        node.tree() == (Tree {
            shape: parts.0.shape(parts.1.arity()),
            kids: parts.1.trees(),
        }),
        parts.0.admits(parts.1.arity()),
        parts.0.sort() == node.sort(),
{
    let mut kids = Kids::none();
    let ghost want = node.tree().kids;
    proof {
        assert(stmt_trees(Seq::<Stmt>::empty()) =~= seq![]);
        assert(expr_trees(Seq::<Expr>::empty()) =~= seq![]);
        assert(case_trees(Seq::<SwitchCase>::empty()) =~= seq![]);
    }
    match node {
        Node::Stmt(stmt) => split_stmt(stmt),
        Node::Expr(Expr::Closure { head, body, operands }) => {
            kids.lead = body;
            kids.exprs = operands;
            assert(kids.trees() =~= want);
            (Shell::Closure { head }, kids)
        },
        Node::Expr(Expr::Other { tag, operands }) => {
            kids.exprs = operands;
            assert(kids.trees() =~= want);
            (Shell::OtherExpr { tag }, kids)
        },
        Node::Case(case) => {
            kids.exprs = opt_list(case.test);
            kids.stmts = case.body;
            assert(kids.trees() =~= want);
            (Shell::Case, kids)
        },
    }
}

fn pop_expr(list: &mut Vec<Expr>) -> (expr: Option<Expr>)
    ensures
        old(list)@.len() == 0 ==> expr is None && final(list)@ == old(list)@,
        old(list)@.len() > 0 ==> expr == Some(old(list)@.last()) && final(list)@ == old(
            list,
        )@.drop_last(),
        expr_trees(old(list)@) == expr_trees(final(list)@) + opt_expr_tree(expr),
{
    let ghost all = list@;
    let expr = list.pop();
    proof {
        if all.len() == 0 {
            assert(opt_expr_tree(expr) =~= seq![]);
            assert(expr_trees(all) =~= expr_trees(list@) + seq![]);
        } else {
            assert(opt_expr_tree(expr) =~= seq![expr_tree(all.last())]);
            assert(expr_trees(all) =~= expr_trees(list@) + opt_expr_tree(expr));
        }
    }
    expr
}

/// Splits the statements into the first `at` and, where a second block is
/// there, the rest.
fn divide(all: Vec<Stmt>, at: usize, has_second: bool) -> (blocks: (Vec<Stmt>, Option<Vec<Stmt>>))
    requires
        at <= all@.len(),
        has_second || all@.len() == at,
    ensures
        blocks.0@.len() == at,
        blocks.1 is Some == has_second,
        stmt_trees(all@) == stmt_trees(blocks.0@) + opt_stmt_trees(blocks.1),
{
    let mut first = all;
    let second = first.split_off(at);
    proof {
        lemma_stmt_trees_add(first@, second@);
        assert(first@ + second@ =~= all@);
    }
    if has_second {
        assert(opt_stmt_trees(Some(second)) == stmt_trees(second@));
        (first, Some(second))
    } else {
        proof {
            lemma_stmt_trees(second@);
            assert(opt_stmt_trees(None::<Vec<Stmt>>) =~= seq![]);
            assert(stmt_trees(second@) =~= seq![]);
        }
        (first, None)
    }
}

fn join_for(has_condition: bool, has_update: bool, kids: Kids) -> (stmt: Stmt)
    requires
        (Shell::For { has_condition, has_update }).admits(kids.arity()),
    ensures
        stmt_tree(stmt) == (Tree {
            shape: (Shell::For { has_condition, has_update }).shape(kids.arity()),
            kids: kids.trees(),
        }),
{
    let mut lead = kids.lead;
    let mut exprs = kids.exprs;
    let ghost all = exprs@;
    let update = if has_update {
        pop_expr(&mut exprs)
    } else {
        None
    };
    proof {
        if !has_update {
            assert(expr_trees(all) =~= expr_trees(exprs@) + opt_expr_tree(update));
        }
    }
    let ghost some = exprs@;
    let condition = if has_condition {
        pop_expr(&mut exprs)
    } else {
        None
    };
    proof {
        if !has_condition {
            assert(expr_trees(some) =~= expr_trees(exprs@) + opt_expr_tree(condition));
        }
        assert(exprs@.len() == 0);
        assert(expr_trees(all) =~= opt_expr_tree(condition) + opt_expr_tree(update));
    }
    let ghost before = lead@;
    let init = match lead.pop() {
        Some(s) => {
            proof {
                lemma_one_stmt(s);
                assert(before =~= seq![s]);
            }
            Some(Box::new(s))
        },
        None => {
            assert(stmt_trees(before) =~= seq![]);
            None
        },
    };
    let stmt = Stmt::For { init, condition, update, body: kids.stmts };
    proof {
        lemma_case_trees(kids.cases@);
        assert(stmt_tree(stmt).kids =~= kids.trees());
    }
    stmt
}

fn join_try(
    body_len: usize,
    catch: Option<(Option<LocalId>, usize)>,
    has_finally: bool,
    kids: Kids,
) -> (stmt: Stmt)
    requires
        (Shell::Try { body_len, catch, has_finally }).admits(kids.arity()),
    ensures
        stmt_tree(stmt) == (Tree {
            shape: (Shell::Try { body_len, catch, has_finally }).shape(kids.arity()),
            kids: kids.trees(),
        }),
{
    let catch_len: usize = match catch {
        Some(c) => c.1,
        None => 0,
    };
    assert(kids.lead.len() <= usize::MAX);
    let (inner, finally) = divide(kids.lead, body_len + catch_len, has_finally);
    let (body, caught) = divide(inner, body_len, catch.is_some());
    let ghost second = caught;
    let clause = match (catch, caught) {
        (Some(c), Some(b)) => Some(CatchClause { param: c.0, body: b }),
        _ => None,
    };
    let stmt = Stmt::Try { body, catch: clause, finally };
    proof {
        lemma_stmt_trees(inner@);
        lemma_stmt_trees(body@);
        if let Some(b) = second {
            lemma_stmt_trees(b@);
            assert(opt_stmt_trees(second) == stmt_trees(b@));
        } else {
            assert(opt_stmt_trees(second) =~= seq![]);
        }
        assert(catch_trees(clause) == opt_stmt_trees(second));
        lemma_expr_trees(kids.exprs@);
        lemma_stmt_trees(kids.stmts@);
        lemma_case_trees(kids.cases@);
        assert(stmt_tree(stmt).kids =~= kids.trees());
    }
    stmt
}

/// `join` for nodes with exactly one expression among their children.
fn join_headed(shell: Shell, kids: Kids) -> (stmt: Stmt)
    requires
        shell is ExprStmt || shell is Throw || shell is If || shell is While || shell is DoWhile
            || shell is Switch,
        shell.admits(kids.arity()),
    ensures
        stmt_tree(stmt) == (Tree { shape: shell.shape(kids.arity()), kids: kids.trees() }),
{
    let ghost want = kids.trees();
    let mut exprs = kids.exprs;
    let ghost all = exprs@;
    match exprs.pop() {
        Some(e) => {
            proof {
                lemma_one_expr(e);
                assert(all =~= seq![e]);
                lemma_stmt_trees(kids.lead@);
                lemma_stmt_trees(kids.stmts@);
                lemma_case_trees(kids.cases@);
                assert(want =~= seq![expr_tree(e)] + stmt_trees(kids.stmts@) + case_trees(
                    kids.cases@,
                ));
            }
            match shell {
                Shell::ExprStmt => {
                    let stmt = Stmt::Expr(e);
                    assert(stmt_tree(stmt).kids =~= want);
                    stmt
                },
                Shell::Throw => {
                    let stmt = Stmt::Throw(e);
                    assert(stmt_tree(stmt).kids =~= want);
                    stmt
                },
                Shell::If { then_len, has_else } => {
                    let (then_branch, else_branch) = divide(kids.stmts, then_len, has_else);
                    let stmt = Stmt::If { condition: e, then_branch, else_branch };
                    assert(stmt_tree(stmt).kids =~= want);
                    stmt
                },
                Shell::While => {
                    let stmt = Stmt::While { condition: e, body: kids.stmts };
                    assert(stmt_tree(stmt).kids =~= want);
                    stmt
                },
                Shell::DoWhile => {
                    let stmt = Stmt::DoWhile { body: kids.stmts, condition: e };
                    assert(stmt_tree(stmt).kids =~= want);
                    stmt
                },
                _ => {
                    let stmt = Stmt::Switch { discriminant: e, cases: kids.cases };
                    assert(stmt_tree(stmt).kids =~= want);
                    stmt
                },
            }
        },
        None => Stmt::Other(0),
    }
}

/// The node over these children.
pub fn join(shell: Shell, kids: Kids) -> (node: Node)
    requires
        shell.admits(kids.arity()),
    ensures
        node.tree() == (Tree { shape: shell.shape(kids.arity()), kids: kids.trees() }),
        node.sort() == shell.sort(),
{
    let ghost want = kids.trees();
    proof {
        lemma_stmt_trees(kids.lead@);
        lemma_expr_trees(kids.exprs@);
        lemma_stmt_trees(kids.stmts@);
        lemma_case_trees(kids.cases@);
    }
    match shell {
        Shell::Closure { head } => {
            let node = Node::Expr(
                Expr::Closure { head, body: kids.lead, operands: kids.exprs },
            );
            assert(node.tree().kids =~= want);
            node
        },
        Shell::OtherExpr { tag } => {
            let node = Node::Expr(Expr::Other { tag, operands: kids.exprs });
            assert(node.tree().kids =~= want);
            node
        },
        Shell::Let { id } => {
            let mut exprs = kids.exprs;
            let init = pop_expr(&mut exprs);
            let node = Node::Stmt(Stmt::Let { id, init });
            proof {
                lemma_expr_trees(exprs@);
                assert(node.tree().kids =~= want);
            }
            node
        },
        Shell::Return => {
            let mut exprs = kids.exprs;
            let value = pop_expr(&mut exprs);
            let node = Node::Stmt(Stmt::Return(value));
            proof {
                lemma_expr_trees(exprs@);
                assert(node.tree().kids =~= want);
            }
            node
        },
        Shell::Case => {
            let mut exprs = kids.exprs;
            let test = pop_expr(&mut exprs);
            let node = Node::Case(SwitchCase { test, body: kids.stmts });
            proof {
                lemma_expr_trees(exprs@);
                assert(node.tree().kids =~= want);
            }
            node
        },
        Shell::For { has_condition, has_update } => Node::Stmt(
            join_for(has_condition, has_update, kids),
        ),
        Shell::Try { body_len, catch, has_finally } => Node::Stmt(
            join_try(body_len, catch, has_finally, kids),
        ),
        Shell::Labeled { label } => {
            let mut lead = kids.lead;
            match lead.pop() {
                Some(s) => {
                    let node = Node::Stmt(Stmt::Labeled { label, body: Box::new(s) });
                    assert(node.tree().kids =~= want);
                    node
                },
                None => Node::Stmt(Stmt::Other(0)),
            }
        },
        Shell::OtherStmt { tag } => {
            let node = Node::Stmt(Stmt::Other(tag));
            assert(node.tree().kids =~= want);
            node
        },
        Shell::ExprStmt
        | Shell::Throw
        | Shell::If { .. }
        | Shell::While
        | Shell::DoWhile
        | Shell::Switch => Node::Stmt(join_headed(shell, kids)),
    }
}

pub(crate) fn reversed<T>(list: Vec<T>) -> (back: Vec<T>)
    ensures
        back@ == list@.reverse(),
{
    let mut rest = list;
    let mut back: Vec<T> = Vec::new();
    while rest.len() > 0
        invariant
            rest@.len() <= list@.len(),
            rest@ == list@.take(rest@.len() as int),
            back@ == list@.skip(rest@.len() as int).reverse(),
        decreases rest.len(),
    {
        match rest.pop() {
            Some(x) => {
                back.push(x);
                assert(back@ =~= list@.skip(rest@.len() as int).reverse());
            },
            None => {},
        }
    }
    assert(list@.skip(0) =~= list@);
    back
}

/// The group that a child was taken from.
pub enum Slot {
    Lead,
    Expr,
    Stmt,
    Case,
}

impl Slot {
    pub open spec fn sort(self) -> Sort {
        match self {
            Slot::Lead => Sort::Stmt,
            Slot::Expr => Sort::Expr,
            Slot::Stmt => Sort::Stmt,
            Slot::Case => Sort::Case,
        }
    }
}

/// A node some of whose children have been visited.
///
/// The children still to be visited are held last to first.
pub struct Frame {
    pub shell: Shell,
    pub todo: Kids,
    pub done: Kids,
    pub slot: Slot,
}

pub struct FrameView {
    pub shape: Shape,
    pub done: Seq<Tree>,
    pub todo: Seq<Tree>,
}

impl Frame {
    /// The trees of the children still to be visited, the next one first.
    pub closed spec fn todo_trees(self) -> Seq<Tree> {
        stmt_trees(self.todo.lead@.reverse()) + expr_trees(self.todo.exprs@.reverse())
            + stmt_trees(self.todo.stmts@.reverse()) + case_trees(self.todo.cases@.reverse())
    }

    /// How many children there are in all, while `away` of the group `slot` is
    /// being visited.
    pub closed spec fn total(self, away: nat) -> Arity {
        Arity {
            lead: self.todo.lead@.len() + self.done.lead@.len() + (if self.slot is Lead {
                away
            } else {
                0
            }),
            exprs: self.todo.exprs@.len() + self.done.exprs@.len() + (if self.slot is Expr {
                away
            } else {
                0
            }),
            stmts: self.todo.stmts@.len() + self.done.stmts@.len() + (if self.slot is Stmt {
                away
            } else {
                0
            }),
            cases: self.todo.cases@.len() + self.done.cases@.len() + (if self.slot is Case {
                away
            } else {
                0
            }),
        }
    }

    pub closed spec fn view_with(self, away: nat) -> FrameView {
        FrameView {
            shape: self.shell.shape(self.total(away)),
            done: self.done.trees(),
            todo: self.todo_trees(),
        }
    }

    /// No child is being visited.
    pub closed spec fn resting(self) -> bool {
        &&& self.shell.admits(self.total(0))
        &&& self.todo.lead@.len() > 0 ==> self.done.exprs@.len() == 0
        &&& self.todo.lead@.len() > 0 || self.todo.exprs@.len() > 0 ==> self.done.stmts@.len() == 0
        &&& self.todo.lead@.len() > 0 || self.todo.exprs@.len() > 0 || self.todo.stmts@.len() > 0
            ==> self.done.cases@.len() == 0
    }

    /// A child of the group `slot` is being visited.
    pub closed spec fn waiting(self) -> bool {
        &&& self.shell.admits(self.total(1))
        &&& match self.slot {
            Slot::Lead => self.done.exprs@.len() == 0 && self.done.stmts@.len() == 0
                && self.done.cases@.len() == 0,
            Slot::Expr => self.todo.lead@.len() == 0 && self.done.stmts@.len() == 0
                && self.done.cases@.len() == 0,
            Slot::Stmt => self.todo.lead@.len() == 0 && self.todo.exprs@.len() == 0
                && self.done.cases@.len() == 0,
            Slot::Case => self.todo.lead@.len() == 0 && self.todo.exprs@.len() == 0
                && self.todo.stmts@.len() == 0,
        }
    }

    /// The frame of a node none of whose children has been visited.
    pub fn open(node: Node) -> (frame: Frame)
        ensures
            frame.resting(),
            frame.view_with(0) == (FrameView {
                shape: node.tree().shape,
                done: Seq::<Tree>::empty(),
                todo: node.tree().kids,
            }),
            frame.shell.sort() == node.sort(),
    {
        let (shell, kids) = split(node);
        let ghost all = kids;
        let todo = Kids {
            lead: reversed(kids.lead),
            exprs: reversed(kids.exprs),
            stmts: reversed(kids.stmts),
            cases: reversed(kids.cases),
        };
        let frame = Frame { shell, todo, done: Kids::none(), slot: Slot::Lead };
        proof {
            assert(todo.lead@.reverse() =~= all.lead@);
            assert(todo.exprs@.reverse() =~= all.exprs@);
            assert(todo.stmts@.reverse() =~= all.stmts@);
            assert(todo.cases@.reverse() =~= all.cases@);
        }
        frame
    }
}

proof fn lemma_pop_stmts(s: Seq<Stmt>)
    requires
        s.len() > 0,
    ensures
        stmt_trees(s.reverse()) == seq![stmt_tree(s.last())] + stmt_trees(s.drop_last().reverse()),
{
    lemma_stmt_trees(s.reverse());
    lemma_stmt_trees(s.drop_last().reverse());
    assert(stmt_trees(s.reverse()) =~= seq![stmt_tree(s.last())] + stmt_trees(
        s.drop_last().reverse(),
    ));
}

proof fn lemma_pop_exprs(s: Seq<Expr>)
    requires
        s.len() > 0,
    ensures
        expr_trees(s.reverse()) == seq![expr_tree(s.last())] + expr_trees(s.drop_last().reverse()),
{
    lemma_expr_trees(s.reverse());
    lemma_expr_trees(s.drop_last().reverse());
    assert(expr_trees(s.reverse()) =~= seq![expr_tree(s.last())] + expr_trees(
        s.drop_last().reverse(),
    ));
}

proof fn lemma_pop_cases(s: Seq<SwitchCase>)
    requires
        s.len() > 0,
    ensures
        case_trees(s.reverse()) == seq![case_tree(s.last())] + case_trees(s.drop_last().reverse()),
{
    lemma_case_trees(s.reverse());
    lemma_case_trees(s.drop_last().reverse());
    assert(case_trees(s.reverse()) =~= seq![case_tree(s.last())] + case_trees(
        s.drop_last().reverse(),
    ));
}

impl Frame {
    /// Takes out the next child to be visited.
    pub fn next_kid(&mut self) -> (kid: Option<Node>)
        requires
            old(self).resting(),
        ensures
            final(self).shell == old(self).shell,
            kid is None ==> *final(self) == *old(self) && old(self).view_with(0).todo.len() == 0,
            kid matches Some(k) ==> {
                &&& final(self).waiting()
                &&& k.sort() == final(self).slot.sort()
                &&& old(self).view_with(0).todo.len() > 0
                &&& final(self).view_with(1) == (FrameView {
                    todo: old(self).view_with(0).todo.drop_first(),
                    ..old(self).view_with(0)
                })
                &&& k.tree() == old(self).view_with(0).todo[0]
            },
    {
        let ghost before = *self;
        proof {
            lemma_stmt_trees(before.todo.lead@.reverse());
            lemma_expr_trees(before.todo.exprs@.reverse());
            lemma_stmt_trees(before.todo.stmts@.reverse());
            lemma_case_trees(before.todo.cases@.reverse());
        }
        if self.todo.lead.len() > 0 {
            proof {
                lemma_pop_stmts(before.todo.lead@);
            }
            self.slot = Slot::Lead;
            match self.todo.lead.pop() {
                Some(s) => {
                    assert(self.todo_trees() =~= before.todo_trees().drop_first());
                    Some(Node::Stmt(s))
                },
                None => None,
            }
        } else if self.todo.exprs.len() > 0 {
            proof {
                lemma_pop_exprs(before.todo.exprs@);
            }
            self.slot = Slot::Expr;
            match self.todo.exprs.pop() {
                Some(e) => {
                    assert(self.todo_trees() =~= before.todo_trees().drop_first());
                    Some(Node::Expr(e))
                },
                None => None,
            }
        } else if self.todo.stmts.len() > 0 {
            proof {
                lemma_pop_stmts(before.todo.stmts@);
            }
            self.slot = Slot::Stmt;
            match self.todo.stmts.pop() {
                Some(s) => {
                    assert(self.todo_trees() =~= before.todo_trees().drop_first());
                    Some(Node::Stmt(s))
                },
                None => None,
            }
        } else if self.todo.cases.len() > 0 {
            proof {
                lemma_pop_cases(before.todo.cases@);
            }
            self.slot = Slot::Case;
            match self.todo.cases.pop() {
                Some(c) => {
                    assert(self.todo_trees() =~= before.todo_trees().drop_first());
                    Some(Node::Case(c))
                },
                None => None,
            }
        } else {
            None
        }
    }

    /// Puts a visited child back in its place.
    pub fn accept(&mut self, node: Node)
        requires
            old(self).waiting(),
            node.sort() == old(self).slot.sort(),
        ensures
            final(self).resting(),
            final(self).shell == old(self).shell,
            final(self).view_with(0) == (FrameView {
                done: old(self).view_with(1).done.push(node.tree()),
                ..old(self).view_with(1)
            }),
    {
        let ghost before = *self;
        proof {
            lemma_stmt_trees(before.done.lead@);
            lemma_expr_trees(before.done.exprs@);
            lemma_stmt_trees(before.done.stmts@);
            lemma_case_trees(before.done.cases@);
        }
        match node {
            Node::Expr(e) => {
                self.done.exprs.push(e);
                assert(self.done.exprs@.drop_last() =~= before.done.exprs@);
                assert(self.done.trees() =~= before.done.trees().push(node.tree()));
            },
            Node::Case(c) => {
                self.done.cases.push(c);
                assert(self.done.cases@.drop_last() =~= before.done.cases@);
                assert(self.done.trees() =~= before.done.trees().push(node.tree()));
            },
            Node::Stmt(s) => {
                match self.slot {
                    Slot::Lead => {
                        self.done.lead.push(s);
                        assert(self.done.lead@.drop_last() =~= before.done.lead@);
                        assert(self.done.trees() =~= before.done.trees().push(node.tree()));
                    },
                    _ => {
                        self.done.stmts.push(s);
                        assert(self.done.stmts@.drop_last() =~= before.done.stmts@);
                        assert(self.done.trees() =~= before.done.trees().push(node.tree()));
                    },
                }
            },
        }
    }

    /// The node over its visited children.
    pub fn close(self) -> (node: Node)
        requires
            self.resting(),
            self.view_with(0).todo.len() == 0,
        ensures
            node.tree() == (Tree { shape: self.view_with(0).shape, kids: self.view_with(0).done }),
            node.sort() == self.shell.sort(),
    {
        proof {
            lemma_stmt_trees(self.todo.lead@.reverse());
            lemma_expr_trees(self.todo.exprs@.reverse());
            lemma_stmt_trees(self.todo.stmts@.reverse());
            lemma_case_trees(self.todo.cases@.reverse());
            assert(self.done.arity() == self.total(0));
        }
        join(self.shell, self.done)
    }
}

} // verus!
