//! The part of the intermediate representation that the generator pass reads.

use vstd::prelude::*;

verus! {

pub type LocalId = u32;

pub type FuncId = u32;

#[derive(Clone, Copy, Debug, PartialEq, Eq, Structural)]
pub struct Param {
    pub id: LocalId,
    pub is_rest: bool,
}

/// What a closure expression holds beside its body and its operands.
pub struct ClosureHead {
    pub func_id: FuncId,
    pub params: Vec<Param>,
    pub captures: Vec<LocalId>,
    pub mutable_captures: Vec<LocalId>,
    pub captures_this: bool,
    pub enclosing_class: Option<String>,
    pub is_strict: bool,
    pub is_async: bool,
    pub is_generator: bool,
}

/// An expression. Only closures are told apart; any other expression is named by
/// a tag and keeps its operands.
pub enum Expr {
    Closure { head: ClosureHead, body: Vec<Stmt>, operands: Vec<Expr> },
    Other { tag: u64, operands: Vec<Expr> },
}

pub struct SwitchCase {
    pub test: Option<Expr>,
    pub body: Vec<Stmt>,
}

pub struct CatchClause {
    pub param: Option<LocalId>,
    pub body: Vec<Stmt>,
}

/// A statement. Those that hold neither expressions nor statements are named by a
/// tag.
#[allow(inconsistent_fields)]
pub enum Stmt {
    Let { id: LocalId, init: Option<Expr> },
    Expr(Expr),
    Throw(Expr),
    Return(Option<Expr>),
    If { condition: Expr, then_branch: Vec<Stmt>, else_branch: Option<Vec<Stmt>> },
    While { condition: Expr, body: Vec<Stmt> },
    DoWhile { body: Vec<Stmt>, condition: Expr },
    For {
        init: Option<Box<Stmt>>,
        condition: Option<Expr>,
        update: Option<Expr>,
        body: Vec<Stmt>,
    },
    Try {
        body: Vec<Stmt>,
        catch: Option<CatchClause>,
        finally: Option<Vec<Stmt>>,
    },
    Switch { discriminant: Expr, cases: Vec<SwitchCase> },
    Labeled { label: String, body: Box<Stmt> },
    Other(u64),
}

pub struct HeadView {
    pub func_id: FuncId,
    pub params: Seq<Param>,
    pub captures: Seq<LocalId>,
    pub mutable_captures: Seq<LocalId>,
    pub captures_this: bool,
    pub enclosing_class: Option<Seq<char>>,
    pub is_strict: bool,
    pub is_async: bool,
    pub is_generator: bool,
}

pub open spec fn text_view(text: Option<String>) -> Option<Seq<char>> {
    match text {
        Some(text) => Some(text@),
        None => None,
    }
}

impl View for ClosureHead {
    type V = HeadView;

    open spec fn view(&self) -> HeadView {
        HeadView {
            func_id: self.func_id,
            params: self.params@,
            captures: self.captures@,
            mutable_captures: self.mutable_captures@,
            captures_this: self.captures_this,
            enclosing_class: text_view(self.enclosing_class),
            is_strict: self.is_strict,
            is_async: self.is_async,
            is_generator: self.is_generator,
        }
    }
}

/// What a node is, without its children.
pub enum Shape {
    Closure { head: HeadView, body_len: nat },
    OtherExpr { tag: u64 },
    Let { id: LocalId },
    ExprStmt,
    Throw,
    Return,
    If { then_len: nat, has_else: bool },
    While,
    DoWhile,
    For { has_init: bool, has_condition: bool, has_update: bool },
    Try { body_len: nat, catch: Option<(Option<LocalId>, nat)>, has_finally: bool },
    Switch,
    Case { has_test: bool },
    Labeled { label: Seq<char> },
    OtherStmt { tag: u64 },
}

/// A node with its children, in the order in which they are visited.
pub struct Tree {
    pub shape: Shape,
    pub kids: Seq<Tree>,
}

pub open spec fn opt_expr_tree(e: Option<Expr>) -> Seq<Tree>
    decreases e,
{
    match e {
        Some(e) => seq![expr_tree(e)],
        None => seq![],
    }
}

pub open spec fn opt_stmt_trees(s: Option<Vec<Stmt>>) -> Seq<Tree>
    decreases s,
{
    match s {
        Some(v) => stmt_trees(v@),
        None => seq![],
    }
}

pub open spec fn catch_trees(c: Option<CatchClause>) -> Seq<Tree>
    decreases c,
{
    match c {
        Some(c) => stmt_trees(c.body@),
        None => seq![],
    }
}

pub open spec fn catch_shape(c: Option<CatchClause>) -> Option<(Option<LocalId>, nat)> {
    match c {
        Some(c) => Some((c.param, c.body@.len())),
        None => None,
    }
}

pub open spec fn expr_tree(e: Expr) -> Tree
    decreases e,
{
    match e {
        Expr::Closure { head, body, operands } => Tree {
            shape: Shape::Closure { head: head@, body_len: body@.len() },
            kids: stmt_trees(body@) + expr_trees(operands@),
        },
        Expr::Other { tag, operands } => Tree {
            shape: Shape::OtherExpr { tag },
            kids: expr_trees(operands@),
        },
    }
}

pub open spec fn expr_trees(s: Seq<Expr>) -> Seq<Tree>
    decreases s,
{
    if s.len() == 0 {
        seq![]
    } else {
        expr_trees(s.drop_last()).push(expr_tree(s.last()))
    }
}

pub open spec fn case_tree(c: SwitchCase) -> Tree
    decreases c,
{
    Tree {
        shape: Shape::Case { has_test: c.test is Some },
        kids: opt_expr_tree(c.test) + stmt_trees(c.body@),
    }
}

pub open spec fn case_trees(s: Seq<SwitchCase>) -> Seq<Tree>
    decreases s,
{
    if s.len() == 0 {
        seq![]
    } else {
        case_trees(s.drop_last()).push(case_tree(s.last()))
    }
}

pub open spec fn stmt_trees(s: Seq<Stmt>) -> Seq<Tree>
    decreases s,
{
    if s.len() == 0 {
        seq![]
    } else {
        stmt_trees(s.drop_last()).push(stmt_tree(s.last()))
    }
}

pub open spec fn stmt_tree(s: Stmt) -> Tree
    decreases s,
{
    match s {
        Stmt::Let { id, init } => Tree { shape: Shape::Let { id }, kids: opt_expr_tree(init) },
        Stmt::Expr(e) => Tree { shape: Shape::ExprStmt, kids: seq![expr_tree(e)] },
        Stmt::Throw(e) => Tree { shape: Shape::Throw, kids: seq![expr_tree(e)] },
        Stmt::Return(e) => Tree { shape: Shape::Return, kids: opt_expr_tree(e) },
        Stmt::If { condition, then_branch, else_branch } => Tree {
            shape: Shape::If { then_len: then_branch@.len(), has_else: else_branch is Some },
            kids: seq![expr_tree(condition)] + stmt_trees(then_branch@) + opt_stmt_trees(
                else_branch,
            ),
        },
        Stmt::While { condition, body } => Tree {
            shape: Shape::While,
            kids: seq![expr_tree(condition)] + stmt_trees(body@),
        },
        Stmt::DoWhile { body, condition } => Tree {
            shape: Shape::DoWhile,
            kids: seq![expr_tree(condition)] + stmt_trees(body@),
        },
        Stmt::For { init, condition, update, body } => Tree {
            shape: Shape::For {
                has_init: init is Some,
                has_condition: condition is Some,
                has_update: update is Some,
            },
            kids: (match init {
                Some(i) => seq![stmt_tree(*i)],
                None => seq![],
            }) + opt_expr_tree(condition) + opt_expr_tree(update) + stmt_trees(body@),
        },
        Stmt::Try { body, catch, finally } => Tree {
            shape: Shape::Try {
                body_len: body@.len(),
                catch: catch_shape(catch),
                has_finally: finally is Some,
            },
            kids: stmt_trees(body@) + catch_trees(catch) + opt_stmt_trees(finally),
        },
        Stmt::Switch { discriminant, cases } => Tree {
            shape: Shape::Switch,
            kids: seq![expr_tree(discriminant)] + case_trees(cases@),
        },
        Stmt::Labeled { label, body } => Tree {
            shape: Shape::Labeled { label: label@ },
            kids: seq![stmt_tree(*body)],
        },
        Stmt::Other(tag) => Tree { shape: Shape::OtherStmt { tag }, kids: seq![] },
    }
}

pub struct Function {
    pub id: FuncId,
    pub name: String,
    pub params: Vec<Param>,
    pub body: Vec<Stmt>,
    pub is_strict: bool,
    pub is_async: bool,
    pub is_generator: bool,
    pub is_exported: bool,
    pub captures: Vec<LocalId>,
    pub was_plain_async: bool,
    pub was_unrolled: bool,
}

#[verifier::ext_equal]
pub struct FunctionView {
    pub id: FuncId,
    pub name: Seq<char>,
    pub params: Seq<Param>,
    pub body: Seq<Tree>,
    pub is_strict: bool,
    pub is_async: bool,
    pub is_generator: bool,
    pub is_exported: bool,
    pub captures: Seq<LocalId>,
    pub was_plain_async: bool,
    pub was_unrolled: bool,
}

impl View for Function {
    type V = FunctionView;

    open spec fn view(&self) -> FunctionView {
        FunctionView {
            id: self.id,
            name: self.name@,
            params: self.params@,
            body: stmt_trees(self.body@),
            is_strict: self.is_strict,
            is_async: self.is_async,
            is_generator: self.is_generator,
            is_exported: self.is_exported,
            captures: self.captures@,
            was_plain_async: self.was_plain_async,
            was_unrolled: self.was_unrolled,
        }
    }
}

/// A getter or a setter of a class, with the name of its property.
pub struct Accessor {
    pub name: String,
    pub function: Function,
}

#[verifier::ext_equal]
pub struct AccessorView {
    pub name: Seq<char>,
    pub function: FunctionView,
}

impl View for Accessor {
    type V = AccessorView;

    open spec fn view(&self) -> AccessorView {
        AccessorView { name: self.name@, function: self.function@ }
    }
}

pub struct Class {
    pub constructor: Option<Function>,
    pub methods: Vec<Function>,
    pub static_methods: Vec<Function>,
    pub getters: Vec<Accessor>,
    pub setters: Vec<Accessor>,
}

#[verifier::ext_equal]
pub struct ClassView {
    pub constructor: Option<FunctionView>,
    pub methods: Seq<FunctionView>,
    pub static_methods: Seq<FunctionView>,
    pub getters: Seq<AccessorView>,
    pub setters: Seq<AccessorView>,
}

/// The views of the items of a list.
pub open spec fn views_of<T: View>(list: Seq<T>) -> Seq<T::V> {
    Seq::new(list.len(), |i: int| list[i]@)
}

impl View for Class {
    type V = ClassView;

    open spec fn view(&self) -> ClassView {
        ClassView {
            constructor: match self.constructor {
                Some(f) => Some(f@),
                None => None,
            },
            methods: views_of(self.methods@),
            static_methods: views_of(self.static_methods@),
            getters: views_of(self.getters@),
            setters: views_of(self.setters@),
        }
    }
}

pub struct Module {
    pub functions: Vec<Function>,
    /// The statements at the top level.
    pub init: Vec<Stmt>,
    pub classes: Vec<Class>,
}

#[verifier::ext_equal]
pub struct ModuleView {
    pub functions: Seq<FunctionView>,
    pub init: Seq<Tree>,
    pub classes: Seq<ClassView>,
}

impl View for Module {
    type V = ModuleView;

    open spec fn view(&self) -> ModuleView {
        ModuleView {
            functions: views_of(self.functions@),
            init: stmt_trees(self.init@),
            classes: views_of(self.classes@),
        }
    }
}

} // verus!
