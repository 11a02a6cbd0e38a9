//! What holds of the generator pass as a whole.

use vstd::prelude::*;

use crate::generator::{
    closure_request, in_turn, lowered_class, lowered_function, lowered_member, lowering,
    lowering_accessors, lowering_classes, lowering_members, rewritten, transformed,
    transformed_all, transformed_module, walked_function, walking, LoweredView, Progress,
    RequestView, StepFn,
};
use crate::hir::{
    case_tree, case_trees, catch_trees, expr_tree, expr_trees, opt_expr_tree, opt_stmt_trees,
    stmt_tree, stmt_trees, views_of,
};
use crate::hir::{
    Accessor, AccessorView, CatchClause, Class, ClassView, Expr, FuncId, Function, FunctionView,
    Module, ModuleView, Shape, Stmt, SwitchCase, Tree,
};
use crate::work_stack::lemma_stmt_trees;

verus! {

/// Whether a node is a closure that is a generator.
pub open spec fn is_generator_closure(shape: Shape) -> bool {
    match shape {
        Shape::Closure { head, .. } => head.is_generator,
        _ => false,
    }
}

/// The number of generator closures in a tree, at any depth.
pub open spec fn generators_in(t: Tree) -> nat
    decreases t,
{
    (if is_generator_closure(t.shape) {
        1nat
    } else {
        0
    }) + generators_in_all(t.kids)
}

/// The number of generator closures in some trees.
pub open spec fn generators_in_all(ts: Seq<Tree>) -> nat
    decreases ts,
{
    if ts.len() == 0 {
        0
    } else {
        generators_in(ts[0]) + generators_in_all(ts.drop_first())
    }
}

proof fn lemma_joined(a: Seq<Tree>, b: Seq<Tree>)
    ensures
        generators_in_all(a + b) == generators_in_all(a) + generators_in_all(b),
    decreases a.len(),
{
    if a.len() == 0 {
        assert(a + b =~= b);
    } else {
        lemma_joined(a.drop_first(), b);
        assert((a + b).drop_first() =~= a.drop_first() + b);
    }
}

/// Every generator closure is lowered, and lowered once: a tree with some of
/// them makes as many requests, after those that were made before.
pub proof fn each_generator_is_asked_for_once(t: Tree, st: Progress, replies: Seq<LoweredView>)
    ensures
        transformed(t, st, replies).1.asked.len() == st.asked.len() + generators_in(t),
        st.asked.is_prefix_of(transformed(t, st, replies).1.asked),
    decreases t,
{
    each_generator_in_order(t.kids, st, replies);
    let (kids, after) = transformed_all(t.kids, st, replies);
    let asked = rewritten(Tree { shape: t.shape, kids }, after, replies).1.asked;
    assert(after.asked.is_prefix_of(asked));
    assert(st.asked.is_prefix_of(asked));
}

/// The same for a list of trees.
pub proof fn each_generator_in_order(ts: Seq<Tree>, st: Progress, replies: Seq<LoweredView>)
    ensures
        transformed_all(ts, st, replies).1.asked.len() == st.asked.len() + generators_in_all(ts),
        st.asked.is_prefix_of(transformed_all(ts, st, replies).1.asked),
        transformed_all(ts, st, replies).0.len() == ts.len(),
    decreases ts,
{
    if ts.len() > 0 {
        let between = transformed(ts[0], st, replies).1;
        each_generator_is_asked_for_once(ts[0], st, replies);
        each_generator_in_order(ts.drop_first(), between, replies);
    }
}

/// Code without generator closures stays as it is: nothing is asked of the
/// lowering, and no identifier is used.
pub proof fn code_without_generators_is_kept(t: Tree, st: Progress, replies: Seq<LoweredView>)
    requires
        generators_in(t) == 0,
    ensures
        transformed(t, st, replies) == (t, st),
    decreases t,
{
    statements_without_generators_are_kept(t.kids, st, replies);
}

/// The same for a list of statements.
pub proof fn statements_without_generators_are_kept(
    ts: Seq<Tree>,
    st: Progress,
    replies: Seq<LoweredView>,
)
    requires
        generators_in_all(ts) == 0,
    ensures
        transformed_all(ts, st, replies) == (ts, st),
    decreases ts,
{
    if ts.len() > 0 {
        code_without_generators_is_kept(ts[0], st, replies);
        statements_without_generators_are_kept(ts.drop_first(), st, replies);
        assert(seq![ts[0]] + ts.drop_first() =~= ts);
    } else {
        assert(ts =~= Seq::empty());
    }
}

/// Whether the replies hold no generator closures of their own.
pub open spec fn replies_are_clean(replies: Seq<LoweredView>) -> bool {
    forall|i: int|
        0 <= i < replies.len() ==> generators_in_all((#[trigger] replies[i]).function.body) == 0
}

/// Whether the requests from `from` on ask for bodies without generator
/// closures.
pub open spec fn requests_are_clean(asked: Seq<RequestView>, from: int) -> bool {
    forall|i: int|
        from <= i < asked.len() ==> generators_in_all((#[trigger] asked[i]).function.body) == 0
}

/// Where the lowering leaves no generator closure in what it returns, none is
/// left in the code; and each is lowered only when those inside it are, so that
/// the lowering is never handed a body with a generator closure in it.
pub proof fn no_generator_is_left(t: Tree, st: Progress, replies: Seq<LoweredView>)
    requires
        replies_are_clean(replies),
        transformed(t, st, replies).1.asked.len() <= replies.len(),
        shaped(t),
    ensures
        generators_in(transformed(t, st, replies).0) == 0,
        requests_are_clean(
            transformed(t, st, replies).1.asked,
            st.asked.len() as int,
        ),
    decreases t,
{
    let (kids, after) = transformed_all(t.kids, st, replies);
    each_generator_is_asked_for_once(t, st, replies);
    each_generator_in_order(t.kids, st, replies);
    no_generator_is_left_in_all(t.kids, st, replies);
    let (out, last) = rewritten(Tree { shape: t.shape, kids }, after, replies);
    if is_generator_closure(t.shape) {
        let body_len = t.shape->Closure_body_len as int;
        let head = t.shape->Closure_head;
        let reply = replies[after.asked.len() as int];
        lemma_joined(kids.take(body_len), kids.skip(body_len));
        assert(kids.take(body_len) + kids.skip(body_len) =~= kids);
        lemma_joined(reply.function.body, kids.skip(body_len));
        assert(last.asked == after.asked.push(
            closure_request(head, kids.take(body_len), after),
        ));
        assert forall|i: int| st.asked.len() <= i < last.asked.len() implies generators_in_all(
            (#[trigger] last.asked[i]).function.body,
        ) == 0 by {
            if i < after.asked.len() {
                assert(last.asked[i] == after.asked[i]);
            }
        }
    }
}

/// The same for a list of trees.
pub proof fn no_generator_is_left_in_all(ts: Seq<Tree>, st: Progress, replies: Seq<LoweredView>)
    requires
        replies_are_clean(replies),
        transformed_all(ts, st, replies).1.asked.len() <= replies.len(),
        shaped_all(ts),
    ensures
        generators_in_all(transformed_all(ts, st, replies).0) == 0,
        requests_are_clean(
            transformed_all(ts, st, replies).1.asked,
            st.asked.len() as int,
        ),
    decreases ts,
{
    if ts.len() > 0 {
        let (first, between) = transformed(ts[0], st, replies);
        let (rest, after) = transformed_all(ts.drop_first(), between, replies);
        each_generator_is_asked_for_once(ts[0], st, replies);
        each_generator_in_order(ts.drop_first(), between, replies);
        no_generator_is_left(ts[0], st, replies);
        no_generator_is_left_in_all(ts.drop_first(), between, replies);
        lemma_joined(seq![first], rest);
        assert(seq![first].drop_first() =~= Seq::empty());
        assert(generators_in_all(seq![first]) == generators_in(first) + generators_in_all(
            Seq::empty(),
        ));
        assert forall|i: int| st.asked.len() <= i < after.asked.len() implies generators_in_all(
            (#[trigger] after.asked[i]).function.body,
        ) == 0 by {
            if i < between.asked.len() {
                assert(after.asked[i] == between.asked[i]);
            }
        }
    }
}

/// A closure has at least as many children as its body has statements, at any
/// depth.
pub open spec fn shaped(t: Tree) -> bool
    decreases t,
{
    &&& t.shape matches Shape::Closure { body_len, .. } ==> body_len <= t.kids.len()
    &&& shaped_all(t.kids)
}

pub open spec fn shaped_all(ts: Seq<Tree>) -> bool
    decreases ts,
{
    ts.len() == 0 || (shaped(ts[0]) && shaped_all(ts.drop_first()))
}

proof fn lemma_shaped_joined(a: Seq<Tree>, b: Seq<Tree>)
    ensures
        shaped_all(a + b) == (shaped_all(a) && shaped_all(b)),
    decreases a.len(),
{
    if a.len() == 0 {
        assert(a + b =~= b);
    } else {
        lemma_shaped_joined(a.drop_first(), b);
        assert((a + b).drop_first() =~= a.drop_first() + b);
    }
}

proof fn lemma_shaped_one(t: Tree)
    requires
        shaped(t),
    ensures
        shaped_all(seq![t]),
{
    assert(seq![t].drop_first() =~= Seq::empty());
    assert(shaped_all(seq![t].drop_first()));
}

proof fn lemma_shaped_push(ts: Seq<Tree>, t: Tree)
    requires
        shaped_all(ts),
        shaped(t),
    ensures
        shaped_all(ts.push(t)),
{
    lemma_shaped_one(t);
    lemma_shaped_joined(ts, seq![t]);
    assert(ts.push(t) =~= ts + seq![t]);
}

proof fn lemma_shaped_expr(e: Expr)
    ensures
        shaped(expr_tree(e)),
    decreases e,
{
    match e {
        Expr::Closure { head, body, operands } => {
            lemma_shaped_stmts(body@);
            lemma_shaped_exprs(operands@);
            lemma_shaped_joined(stmt_trees(body@), expr_trees(operands@));
            lemma_stmt_trees(body@);
        },
        Expr::Other { tag, operands } => {
            lemma_shaped_exprs(operands@);
        },
    }
}

proof fn lemma_shaped_exprs(s: Seq<Expr>)
    ensures
        shaped_all(expr_trees(s)),
    decreases s,
{
    if s.len() > 0 {
        lemma_shaped_exprs(s.drop_last());
        lemma_shaped_expr(s.last());
        lemma_shaped_push(expr_trees(s.drop_last()), expr_tree(s.last()));
    }
}

proof fn lemma_shaped_opt_expr(e: Option<Expr>)
    ensures
        shaped_all(opt_expr_tree(e)),
    decreases e,
{
    if let Some(e) = e {
        lemma_shaped_expr(e);
        lemma_shaped_one(expr_tree(e));
    }
}

proof fn lemma_shaped_opt_stmts(s: Option<Vec<Stmt>>)
    ensures
        shaped_all(opt_stmt_trees(s)),
    decreases s,
{
    if let Some(v) = s {
        lemma_shaped_stmts(v@);
    }
}

proof fn lemma_shaped_catch(c: Option<CatchClause>)
    ensures
        shaped_all(catch_trees(c)),
    decreases c,
{
    if let Some(c) = c {
        lemma_shaped_stmts(c.body@);
    }
}

proof fn lemma_shaped_case(c: SwitchCase)
    ensures
        shaped(case_tree(c)),
    decreases c,
{
    lemma_shaped_opt_expr(c.test);
    lemma_shaped_stmts(c.body@);
    lemma_shaped_joined(opt_expr_tree(c.test), stmt_trees(c.body@));
}

proof fn lemma_shaped_cases(s: Seq<SwitchCase>)
    ensures
        shaped_all(case_trees(s)),
    decreases s,
{
    if s.len() > 0 {
        lemma_shaped_cases(s.drop_last());
        lemma_shaped_case(s.last());
        lemma_shaped_push(case_trees(s.drop_last()), case_tree(s.last()));
    }
}

proof fn lemma_shaped_stmts(s: Seq<Stmt>)
    ensures
        shaped_all(stmt_trees(s)),
    decreases s,
{
    if s.len() > 0 {
        lemma_shaped_stmts(s.drop_last());
        lemma_shaped_stmt(s.last());
        lemma_shaped_push(stmt_trees(s.drop_last()), stmt_tree(s.last()));
    }
}

proof fn lemma_shaped_stmt(s: Stmt)
    ensures
        shaped(stmt_tree(s)),
    decreases s,
{
    match s {
        Stmt::Let { id, init } => {
            lemma_shaped_opt_expr(init);
        },
        Stmt::Expr(e) => {
            lemma_shaped_expr(e);
            lemma_shaped_one(expr_tree(e));
        },
        Stmt::Throw(e) => {
            lemma_shaped_expr(e);
            lemma_shaped_one(expr_tree(e));
        },
        Stmt::Return(e) => {
            lemma_shaped_opt_expr(e);
        },
        Stmt::If { condition, then_branch, else_branch } => {
            lemma_shaped_expr(condition);
            lemma_shaped_one(expr_tree(condition));
            lemma_shaped_stmts(then_branch@);
            lemma_shaped_opt_stmts(else_branch);
            let head = seq![expr_tree(condition)] + stmt_trees(then_branch@);
            lemma_shaped_joined(seq![expr_tree(condition)], stmt_trees(then_branch@));
            lemma_shaped_joined(head, opt_stmt_trees(else_branch));
        },
        Stmt::While { condition, body } => {
            lemma_shaped_expr(condition);
            lemma_shaped_one(expr_tree(condition));
            lemma_shaped_stmts(body@);
            lemma_shaped_joined(seq![expr_tree(condition)], stmt_trees(body@));
        },
        Stmt::DoWhile { body, condition } => {
            lemma_shaped_expr(condition);
            lemma_shaped_one(expr_tree(condition));
            lemma_shaped_stmts(body@);
            lemma_shaped_joined(seq![expr_tree(condition)], stmt_trees(body@));
        },
        Stmt::For { init, condition, update, body } => {
            let first = match init {
                Some(i) => seq![stmt_tree(*i)],
                None => seq![],
            };
            if let Some(i) = init {
                lemma_shaped_stmt(*i);
                lemma_shaped_one(stmt_tree(*i));
            }
            lemma_shaped_opt_expr(condition);
            lemma_shaped_opt_expr(update);
            lemma_shaped_stmts(body@);
            lemma_shaped_joined(first, opt_expr_tree(condition));
            lemma_shaped_joined(first + opt_expr_tree(condition), opt_expr_tree(update));
            lemma_shaped_joined(
                first + opt_expr_tree(condition) + opt_expr_tree(update),
                stmt_trees(body@),
            );
        },
        Stmt::Try { body, catch, finally } => {
            lemma_shaped_stmts(body@);
            lemma_shaped_catch(catch);
            lemma_shaped_opt_stmts(finally);
            lemma_shaped_joined(stmt_trees(body@), catch_trees(catch));
            lemma_shaped_joined(
                stmt_trees(body@) + catch_trees(catch),
                opt_stmt_trees(finally),
            );
        },
        Stmt::Switch { discriminant, cases } => {
            lemma_shaped_expr(discriminant);
            lemma_shaped_one(expr_tree(discriminant));
            lemma_shaped_cases(cases@);
            lemma_shaped_joined(seq![expr_tree(discriminant)], case_trees(cases@));
        },
        Stmt::Labeled { label, body } => {
            lemma_shaped_stmt(*body);
            lemma_shaped_one(stmt_tree(*body));
        },
        Stmt::Other(tag) => {},
    }
}

/// All code is shaped so.
pub proof fn all_code_is_shaped(stmts: Seq<Stmt>)
    ensures
        shaped_all(stmt_trees(stmts)),
{
    lemma_shaped_stmts(stmts);
}

/// Whether the lowering gave no identifier back that it was told is taken, and
/// kept below the largest one, in its replies to the requests from `from` on.
pub open spec fn replies_only_use_up(
    asked: Seq<RequestView>,
    replies: Seq<LoweredView>,
    from: int,
) -> bool {
    &&& asked.len() <= replies.len()
    &&& forall|i: int|
        from <= i < asked.len() ==> (#[trigger] asked[i]).next_func_id <= replies[i].next_func_id
            < FuncId::MAX
}

/// Whether the functions of the requests from `from` on have identifiers from
/// `low` to below `high`, each larger than the one before.
pub open spec fn fresh_ids(asked: Seq<RequestView>, from: int, low: FuncId, high: FuncId) -> bool {
    &&& low <= high
    &&& forall|i: int| from <= i < asked.len() ==> low <= (#[trigger] asked[i]).function.id < high
    &&& forall|i: int, j: int|
        from <= i < j < asked.len() ==> (#[trigger] asked[i]).function.id < (
        #[trigger] asked[j]).function.id
}

/// Every generator closure gets an identifier of its own that was free, the
/// first of them the first free one, as long as the lowering only uses
/// identifiers up.
pub proof fn closures_get_fresh_ids(t: Tree, st: Progress, replies: Seq<LoweredView>)
    requires
        st.next_func_id < FuncId::MAX,
        replies_only_use_up(
            transformed(t, st, replies).1.asked,
            replies,
            st.asked.len() as int,
        ),
    ensures
        fresh_ids(
            transformed(t, st, replies).1.asked,
            st.asked.len() as int,
            st.next_func_id,
            transformed(t, st, replies).1.next_func_id,
        ),
        transformed(t, st, replies).1.next_func_id < FuncId::MAX,
        generators_in(t) > 0 ==> transformed(
            t,
            st,
            replies,
        ).1.asked[st.asked.len() as int].function.id == st.next_func_id,
    decreases t,
{
    let (kids, after) = transformed_all(t.kids, st, replies);
    let last = transformed(t, st, replies).1;
    each_generator_in_order(t.kids, st, replies);
    assert(replies_only_use_up(after.asked, replies, st.asked.len() as int)) by {
        assert forall|i: int| st.asked.len() <= i < after.asked.len() implies (
        #[trigger] after.asked[i]).next_func_id <= replies[i].next_func_id < FuncId::MAX by {
            assert(last.asked[i] == after.asked[i]);
        }
    }
    all_closures_get_fresh_ids(t.kids, st, replies);
    if generators_in_all(t.kids) == 0 {
        statements_without_generators_are_kept(t.kids, st, replies);
    } else {
        let first = st.asked.len() as int;
        assert(last.asked[first] == after.asked[first]);
    }
    if is_generator_closure(t.shape) {
        let n = after.asked.len() as int;
        assert(last.asked[n].next_func_id <= replies[n].next_func_id);
        assert forall|i: int| st.asked.len() <= i < n implies (
        #[trigger] last.asked[i]).function.id < after.next_func_id && last.asked[i].function.id
            >= st.next_func_id by {
            assert(last.asked[i] == after.asked[i]);
        }
        assert forall|i: int, j: int| st.asked.len() <= i < j < last.asked.len() implies (
        #[trigger] last.asked[i]).function.id < (#[trigger] last.asked[j]).function.id by {
            assert(last.asked[i] == after.asked[i]);
            if j < n {
                assert(last.asked[j] == after.asked[j]);
            }
        }
    }
}

/// The same for a list of trees.
pub proof fn all_closures_get_fresh_ids(ts: Seq<Tree>, st: Progress, replies: Seq<LoweredView>)
    requires
        st.next_func_id < FuncId::MAX,
        replies_only_use_up(
            transformed_all(ts, st, replies).1.asked,
            replies,
            st.asked.len() as int,
        ),
    ensures
        fresh_ids(
            transformed_all(ts, st, replies).1.asked,
            st.asked.len() as int,
            st.next_func_id,
            transformed_all(ts, st, replies).1.next_func_id,
        ),
        transformed_all(ts, st, replies).1.next_func_id < FuncId::MAX,
        generators_in_all(ts) > 0 ==> transformed_all(
            ts,
            st,
            replies,
        ).1.asked[st.asked.len() as int].function.id == st.next_func_id,
    decreases ts,
{
    if ts.len() > 0 {
        let between = transformed(ts[0], st, replies).1;
        let after = transformed_all(ts.drop_first(), between, replies).1;
        each_generator_is_asked_for_once(ts[0], st, replies);
        each_generator_in_order(ts.drop_first(), between, replies);
        assert(replies_only_use_up(between.asked, replies, st.asked.len() as int)) by {
            assert forall|i: int| st.asked.len() <= i < between.asked.len() implies (
            #[trigger] between.asked[i]).next_func_id <= replies[i].next_func_id < FuncId::MAX by {
                assert(after.asked[i] == between.asked[i]);
            }
        }
        closures_get_fresh_ids(ts[0], st, replies);
        all_closures_get_fresh_ids(ts.drop_first(), between, replies);
        let n = between.asked.len() as int;
        assert forall|i: int| st.asked.len() <= i < after.asked.len() implies st.next_func_id <= (
        #[trigger] after.asked[i]).function.id < after.next_func_id by {
            if i < n {
                assert(after.asked[i] == between.asked[i]);
            }
        }
        assert forall|i: int, j: int| st.asked.len() <= i < j < after.asked.len() implies (
        #[trigger] after.asked[i]).function.id < (#[trigger] after.asked[j]).function.id by {
            if i < n {
                assert(after.asked[i] == between.asked[i]);
            }
            if j < n {
                assert(after.asked[j] == between.asked[j]);
            }
        }
        if generators_in(ts[0]) == 0 {
            code_without_generators_is_kept(ts[0], st, replies);
        } else {
            assert(after.asked[st.asked.len() as int] == between.asked[st.asked.len() as int]);
        }
    }
}

/// A body is in order for the pass if it has no generator closure, or is shaped
/// as all code is.
pub open spec fn body_in_order(body: Seq<Tree>) -> bool {
    generators_in_all(body) == 0 || shaped_all(body)
}

/// Whether the functions hold no generator closure in their bodies.
pub open spec fn all_clean(list: Seq<FunctionView>) -> bool {
    forall|i: int| 0 <= i < list.len() ==> generators_in_all((#[trigger] list[i]).body) == 0
}

/// Whether none of the functions is a generator itself.
pub open spec fn all_plain(list: Seq<FunctionView>) -> bool {
    forall|i: int| 0 <= i < list.len() ==> !(#[trigger] list[i]).is_generator
}

pub open spec fn all_in_order(list: Seq<FunctionView>) -> bool {
    forall|i: int| 0 <= i < list.len() ==> body_in_order((#[trigger] list[i]).body)
}

pub open spec fn functions_of(list: Seq<AccessorView>) -> Seq<FunctionView> {
    Seq::new(list.len(), |i: int| list[i].function)
}

/// The members of a class: its constructor, methods, static methods, getters and
/// setters.
pub open spec fn class_members(c: ClassView) -> Seq<FunctionView> {
    (match c.constructor {
        Some(f) => seq![f],
        None => Seq::empty(),
    }) + c.methods + c.static_methods + functions_of(c.getters) + functions_of(c.setters)
}

/// The members of all classes.
pub open spec fn members_of(list: Seq<ClassView>) -> Seq<FunctionView>
    decreases list.len(),
{
    if list.len() == 0 {
        Seq::empty()
    } else {
        members_of(list.drop_last()) + class_members(list.last())
    }
}

/// All functions of a module, those of its classes among them.
pub open spec fn functions_in(m: ModuleView) -> Seq<FunctionView> {
    m.functions + members_of(m.classes)
}

/// Whether no body of the module holds a generator closure.
pub open spec fn module_is_clean(m: ModuleView) -> bool {
    generators_in_all(m.init) == 0 && all_clean(functions_in(m))
}

/// Whether no function of the module and no member of its classes is a
/// generator.
pub open spec fn module_is_plain(m: ModuleView) -> bool {
    all_plain(functions_in(m))
}

pub open spec fn module_in_order(m: ModuleView) -> bool {
    body_in_order(m.init) && all_in_order(functions_in(m))
}

/// Whether no reply is a generator function.
pub open spec fn replies_are_plain(replies: Seq<LoweredView>) -> bool {
    forall|i: int| 0 <= i < replies.len() ==> !(#[trigger] replies[i]).function.is_generator
}

/// Whether the requests from `from` on that are for closures, which are those
/// with captures, have identifiers from `low` to below `high`, each larger than
/// the one before.
pub open spec fn fresh_closure_ids(
    asked: Seq<RequestView>,
    from: int,
    low: FuncId,
    high: FuncId,
) -> bool {
    &&& low <= high
    &&& forall|i: int|
        from <= i < asked.len() && (#[trigger] asked[i]).extra is Some ==> low
            <= asked[i].function.id < high
    &&& forall|i: int, j: int|
        from <= i < j < asked.len() && (#[trigger] asked[i]).extra is Some && (
        #[trigger] asked[j]).extra is Some ==> asked[i].function.id < asked[j].function.id
}

/// The pass has gone on: what was asked stays asked, and the closures asked for
/// since have fresh identifiers.
spec fn advances(st: Progress, after: Progress, replies: Seq<LoweredView>) -> bool {
    let from = st.asked.len() as int;
    &&& st.asked.is_prefix_of(after.asked)
    &&& st.next_func_id < FuncId::MAX && replies_only_use_up(after.asked, replies, from) ==> {
        &&& fresh_closure_ids(after.asked, from, st.next_func_id, after.next_func_id)
        &&& after.next_func_id < FuncId::MAX
    }
}

proof fn lemma_advances_on(a: Progress, b: Progress, c: Progress, replies: Seq<LoweredView>)
    requires
        advances(a, b, replies),
        advances(b, c, replies),
    ensures
        advances(a, c, replies),
{
    let from = a.asked.len() as int;
    let mid = b.asked.len() as int;
    assert(a.asked.is_prefix_of(c.asked));
    assert forall|i: int| 0 <= i < mid implies #[trigger] c.asked[i] == b.asked[i] by {
        assert(b.asked =~= c.asked.take(mid));
    }
    if a.next_func_id < FuncId::MAX && replies_only_use_up(c.asked, replies, from) {
        assert forall|i: int| from <= i < mid implies (#[trigger] b.asked[i]).next_func_id
            <= replies[i].next_func_id < FuncId::MAX by {
            assert(c.asked[i] == b.asked[i]);
        }
        assert forall|i: int| from <= i < c.asked.len() && (
        #[trigger] c.asked[i]).extra is Some implies a.next_func_id <= c.asked[i].function.id
            < c.next_func_id by {
            if i < mid {
                assert(b.asked[i].extra is Some);
            }
        }
        assert forall|i: int, j: int| from <= i < j < c.asked.len() && (
        #[trigger] c.asked[i]).extra is Some && (
        #[trigger] c.asked[j]).extra is Some implies c.asked[i].function.id
            < c.asked[j].function.id by {
            if i < mid {
                assert(b.asked[i].extra is Some);
            }
            if j < mid {
                assert(b.asked[j].extra is Some);
            }
        }
    }
}

proof fn lemma_body_advances(body: Seq<Tree>, st: Progress, replies: Seq<LoweredView>)
    ensures
        advances(st, transformed_all(body, st, replies).1, replies),
{
    each_generator_in_order(body, st, replies);
    let after = transformed_all(body, st, replies).1;
    if st.next_func_id < FuncId::MAX && replies_only_use_up(
        after.asked,
        replies,
        st.asked.len() as int,
    ) {
        all_closures_get_fresh_ids(body, st, replies);
    }
}

proof fn lemma_function_advances(f: FunctionView, st: Progress, replies: Seq<LoweredView>)
    ensures
        advances(st, lowered_function(f, st, replies).1, replies),
{
    let after = lowered_function(f, st, replies).1;
    let n = st.asked.len() as int;
    assert(st.asked.is_prefix_of(after.asked));
    if f.is_generator && replies_only_use_up(after.asked, replies, n) {
        assert(after.asked[n].next_func_id == st.next_func_id);
    }
}

/// Whether a step goes on from wherever the pass stands.
spec fn step_advances<V>(step: StepFn<V>, replies: Seq<LoweredView>) -> bool {
    forall|v: V, st: Progress| advances(st, (#[trigger] step(v, st, replies)).1, replies)
}

proof fn lemma_in_turn_advances<V>(
    step: StepFn<V>,
    list: Seq<V>,
    st: Progress,
    replies: Seq<LoweredView>,
)
    requires
        step_advances(step, replies),
    ensures
        advances(st, in_turn(step, list, st, replies).1, replies),
        in_turn(step, list, st, replies).0.len() == list.len(),
    decreases list.len(),
{
    if list.len() > 0 {
        let between = in_turn(step, list.drop_last(), st, replies).1;
        let after = step(list.last(), between, replies).1;
        lemma_in_turn_advances(step, list.drop_last(), st, replies);
        lemma_advances_on(st, between, after, replies);
    } else {
        assert(st.asked.is_prefix_of(st.asked));
    }
}

/// Steps are taken one after the other, however the parts are grouped.
proof fn lemma_in_turn_joined<V>(
    step: StepFn<V>,
    a: Seq<V>,
    b: Seq<V>,
    st: Progress,
    replies: Seq<LoweredView>,
)
    ensures
        ({
            let (x, between) = in_turn(step, a, st, replies);
            let (y, after) = in_turn(step, b, between, replies);
            in_turn(step, a + b, st, replies) == (x + y, after)
        }),
    decreases b.len(),
{
    let (x, between) = in_turn(step, a, st, replies);
    let (y, after) = in_turn(step, b, between, replies);
    if b.len() == 0 {
        assert(a + b =~= a);
        assert(x + y =~= x);
    } else {
        lemma_in_turn_joined(step, a, b.drop_last(), st, replies);
        assert((a + b).drop_last() =~= a + b.drop_last());
        let rest = in_turn(step, b.drop_last(), between, replies).0;
        assert((x + rest).push(y.last()) =~= x + y);
    }
}

/// Steps that change nothing in any part change nothing in the list.
proof fn lemma_in_turn_keeps<V>(
    step: StepFn<V>,
    list: Seq<V>,
    st: Progress,
    replies: Seq<LoweredView>,
)
    requires
        forall|i: int|
            0 <= i < list.len() ==> step(#[trigger] list[i], st, replies) == (list[i], st),
    ensures
        in_turn(step, list, st, replies) == (list, st),
    decreases list.len(),
{
    if list.len() > 0 {
        let rest = list.drop_last();
        assert forall|i: int| 0 <= i < rest.len() implies step(#[trigger] rest[i], st, replies)
            == (rest[i], st) by {
            assert(rest[i] == list[i]);
        }
        lemma_in_turn_keeps(step, rest, st, replies);
        assert(list.last() == list[list.len() - 1]);
        assert(rest.push(list.last()) =~= list);
    } else {
        assert(list =~= Seq::empty());
    }
}

/// What each step makes of a part that meets `given` holds of every part in the
/// end, as long as there are replies.
proof fn lemma_in_turn_yields<V>(
    step: StepFn<V>,
    list: Seq<V>,
    st: Progress,
    replies: Seq<LoweredView>,
    given: spec_fn(V) -> bool,
    held: spec_fn(V) -> bool,
)
    requires
        step_advances(step, replies),
        in_turn(step, list, st, replies).1.asked.len() <= replies.len(),
        forall|i: int| 0 <= i < list.len() ==> given(#[trigger] list[i]),
        forall|v: V, s: Progress|
            given(v) && (#[trigger] step(v, s, replies)).1.asked.len() <= replies.len() ==> held(
                step(v, s, replies).0,
            ),
    ensures
        forall|i: int|
            0 <= i < list.len() ==> held(#[trigger] in_turn(step, list, st, replies).0[i]),
    decreases list.len(),
{
    if list.len() > 0 {
        let rest = list.drop_last();
        let (before, between) = in_turn(step, rest, st, replies);
        let (last, after) = step(list.last(), between, replies);
        let out = in_turn(step, list, st, replies).0;
        assert(advances(between, after, replies));
        assert(between.asked.len() <= after.asked.len());
        assert forall|i: int| 0 <= i < rest.len() implies given(#[trigger] rest[i]) by {
            assert(rest[i] == list[i]);
        }
        lemma_in_turn_advances(step, rest, st, replies);
        lemma_in_turn_yields(step, rest, st, replies, given, held);
        assert(given(list[list.len() - 1]));
        assert forall|i: int| 0 <= i < list.len() implies held(#[trigger] out[i]) by {
            if i < rest.len() {
                assert(out[i] == before[i]);
            } else {
                assert(out[i] == last);
            }
        }
    }
}

proof fn lemma_member_advances(f: FunctionView, st: Progress, replies: Seq<LoweredView>)
    ensures
        advances(st, lowered_member(f, st, replies).1, replies),
        lowered_function(f, st, replies).1.asked.len() <= lowered_member(
            f,
            st,
            replies,
        ).1.asked.len(),
{
    let (lowered, between) = lowered_function(f, st, replies);
    lemma_function_advances(f, st, replies);
    lemma_body_advances(lowered.body, between, replies);
    lemma_advances_on(st, between, lowered_member(f, st, replies).1, replies);
}

/// All steps on functions go on from wherever the pass stands.
proof fn lemma_steps_advance(replies: Seq<LoweredView>)
    ensures
        step_advances(lowering(), replies),
        step_advances(walking(), replies),
        step_advances(lowering_members(), replies),
{
    assert forall|f: FunctionView, st: Progress|
        advances(st, (#[trigger] lowering()(f, st, replies)).1, replies) by {
        lemma_function_advances(f, st, replies);
    }
    assert forall|f: FunctionView, st: Progress|
        advances(st, (#[trigger] walking()(f, st, replies)).1, replies) by {
        lemma_body_advances(f.body, st, replies);
    }
    assert forall|f: FunctionView, st: Progress|
        advances(st, (#[trigger] lowering_members()(f, st, replies)).1, replies) by {
        lemma_member_advances(f, st, replies);
    }
}

pub(crate) proof fn lemma_accessors_as_members(
    list: Seq<AccessorView>,
    st: Progress,
    replies: Seq<LoweredView>,
)
    ensures
        ({
            let (out, after) = in_turn(lowering_accessors(), list, st, replies);
            &&& in_turn(lowering_members(), functions_of(list), st, replies) == (
                functions_of(out),
                after,
            )
            &&& out.len() == list.len()
            &&& forall|i: int| 0 <= i < list.len() ==> (#[trigger] out[i]).name == list[i].name
        }),
    decreases list.len(),
{
    let (out, after) = in_turn(lowering_accessors(), list, st, replies);
    if list.len() > 0 {
        lemma_accessors_as_members(list.drop_last(), st, replies);
        assert(functions_of(list).drop_last() =~= functions_of(list.drop_last()));
        let rest = in_turn(lowering_accessors(), list.drop_last(), st, replies).0;
        assert(functions_of(rest).push(out.last().function) =~= functions_of(out));
        assert forall|i: int| 0 <= i < list.len() implies (#[trigger] out[i]).name
            == list[i].name by {
            if i < rest.len() {
                assert(out[i] == rest[i]);
            }
        }
    } else {
        assert(functions_of(list) =~= Seq::empty());
        assert(functions_of(out) =~= Seq::empty());
    }
}

proof fn lemma_class_as_members(c: ClassView, st: Progress, replies: Seq<LoweredView>)
    ensures
        in_turn(lowering_members(), class_members(c), st, replies) == (
            class_members(lowered_class(c, st, replies).0),
            lowered_class(c, st, replies).1,
        ),
{
    let (out, after) = lowered_class(c, st, replies);
    let first = match c.constructor {
        Some(f) => seq![f],
        None => Seq::empty(),
    };
    let first_out = match out.constructor {
        Some(f) => seq![f],
        None => Seq::empty(),
    };
    let st1 = match c.constructor {
        Some(f) => lowered_member(f, st, replies).1,
        None => st,
    };
    assert(in_turn(lowering_members(), first, st, replies) == (first_out, st1)) by {
        if let Some(f) = c.constructor {
            assert(first.drop_last() =~= Seq::empty());
            assert(in_turn(lowering_members(), Seq::empty(), st, replies) == (
                Seq::<FunctionView>::empty(),
                st,
            ));
            assert(Seq::<FunctionView>::empty().push(first_out[0]) =~= first_out);
        }
    }
    let st2 = in_turn(lowering_members(), c.methods, st1, replies).1;
    let st3 = in_turn(lowering_members(), c.static_methods, st2, replies).1;
    let st4 = in_turn(lowering_accessors(), c.getters, st3, replies).1;
    lemma_accessors_as_members(c.getters, st3, replies);
    lemma_accessors_as_members(c.setters, st4, replies);
    let two = first + c.methods;
    let three = two + c.static_methods;
    let four = three + functions_of(c.getters);
    lemma_in_turn_joined(lowering_members(), first, c.methods, st, replies);
    lemma_in_turn_joined(lowering_members(), two, c.static_methods, st, replies);
    lemma_in_turn_joined(lowering_members(), three, functions_of(c.getters), st, replies);
    lemma_in_turn_joined(lowering_members(), four, functions_of(c.setters), st, replies);
}

pub(crate) proof fn lemma_classes_as_members(
    list: Seq<ClassView>,
    st: Progress,
    replies: Seq<LoweredView>,
)
    ensures
        in_turn(lowering_members(), members_of(list), st, replies) == (
            members_of(in_turn(lowering_classes(), list, st, replies).0),
            in_turn(lowering_classes(), list, st, replies).1,
        ),
    decreases list.len(),
{
    if list.len() > 0 {
        let (before, between) = in_turn(lowering_classes(), list.drop_last(), st, replies);
        let last = lowered_class(list.last(), between, replies).0;
        lemma_classes_as_members(list.drop_last(), st, replies);
        lemma_class_as_members(list.last(), between, replies);
        lemma_in_turn_joined(
            lowering_members(),
            members_of(list.drop_last()),
            class_members(list.last()),
            st,
            replies,
        );
        assert(before.push(last).drop_last() =~= before);
    }
}

proof fn lemma_body_clean(body: Seq<Tree>, st: Progress, replies: Seq<LoweredView>)
    requires
        replies_are_clean(replies),
        transformed_all(body, st, replies).1.asked.len() <= replies.len(),
        body_in_order(body),
    ensures
        generators_in_all(transformed_all(body, st, replies).0) == 0,
{
    if generators_in_all(body) == 0 {
        statements_without_generators_are_kept(body, st, replies);
    } else {
        no_generator_is_left_in_all(body, st, replies);
    }
}

spec fn any_function() -> spec_fn(FunctionView) -> bool {
    |f: FunctionView| true
}

spec fn in_order() -> spec_fn(FunctionView) -> bool {
    |f: FunctionView| body_in_order(f.body)
}

spec fn clean() -> spec_fn(FunctionView) -> bool {
    |f: FunctionView| generators_in_all(f.body) == 0
}

spec fn plain() -> spec_fn(FunctionView) -> bool {
    |f: FunctionView| !f.is_generator
}

proof fn lemma_functions_lowered(list: Seq<FunctionView>, st: Progress, replies: Seq<LoweredView>)
    requires
        in_turn(lowering(), list, st, replies).1.asked.len() <= replies.len(),
    ensures
        replies_are_clean(replies) && all_in_order(list) ==> all_in_order(
            in_turn(lowering(), list, st, replies).0,
        ),
        replies_are_plain(replies) ==> all_plain(in_turn(lowering(), list, st, replies).0),
{
    lemma_steps_advance(replies);
    lemma_in_turn_advances(lowering(), list, st, replies);
    if replies_are_clean(replies) && all_in_order(list) {
        lemma_in_turn_yields(lowering(), list, st, replies, in_order(), in_order());
    }
    if replies_are_plain(replies) {
        lemma_in_turn_yields(lowering(), list, st, replies, any_function(), plain());
    }
}

proof fn lemma_functions_walked(list: Seq<FunctionView>, st: Progress, replies: Seq<LoweredView>)
    requires
        in_turn(walking(), list, st, replies).1.asked.len() <= replies.len(),
    ensures
        replies_are_clean(replies) && all_in_order(list) ==> all_clean(
            in_turn(walking(), list, st, replies).0,
        ),
        all_plain(list) ==> all_plain(in_turn(walking(), list, st, replies).0),
{
    lemma_steps_advance(replies);
    lemma_in_turn_advances(walking(), list, st, replies);
    if replies_are_clean(replies) && all_in_order(list) {
        assert forall|f: FunctionView, s: Progress|
            in_order()(f) && (#[trigger] walking()(f, s, replies)).1.asked.len()
                <= replies.len() implies clean()(walking()(f, s, replies).0) by {
            lemma_body_clean(f.body, s, replies);
        }
        lemma_in_turn_yields(walking(), list, st, replies, in_order(), clean());
    }
    if all_plain(list) {
        lemma_in_turn_yields(walking(), list, st, replies, plain(), plain());
    }
}

proof fn lemma_members_lowered(list: Seq<FunctionView>, st: Progress, replies: Seq<LoweredView>)
    requires
        in_turn(lowering_members(), list, st, replies).1.asked.len() <= replies.len(),
    ensures
        replies_are_clean(replies) && all_in_order(list) ==> all_clean(
            in_turn(lowering_members(), list, st, replies).0,
        ),
        replies_are_plain(replies) ==> all_plain(
            in_turn(lowering_members(), list, st, replies).0,
        ),
{
    lemma_steps_advance(replies);
    lemma_in_turn_advances(lowering_members(), list, st, replies);
    if replies_are_clean(replies) && all_in_order(list) {
        assert forall|f: FunctionView, s: Progress|
            in_order()(f) && (#[trigger] lowering_members()(f, s, replies)).1.asked.len()
                <= replies.len() implies clean()(lowering_members()(f, s, replies).0) by {
            let (inner, mid) = lowered_function(f, s, replies);
            lemma_member_advances(f, s, replies);
            lemma_body_clean(inner.body, mid, replies);
        }
        lemma_in_turn_yields(lowering_members(), list, st, replies, in_order(), clean());
    }
    if replies_are_plain(replies) {
        assert forall|f: FunctionView, s: Progress|
            any_function()(f) && (#[trigger] lowering_members()(f, s, replies)).1.asked.len()
                <= replies.len() implies plain()(lowering_members()(f, s, replies).0) by {
            lemma_member_advances(f, s, replies);
        }
        lemma_in_turn_yields(lowering_members(), list, st, replies, any_function(), plain());
    }
}

proof fn lemma_functions_kept(list: Seq<FunctionView>, st: Progress, replies: Seq<LoweredView>)
    requires
        all_clean(list),
        all_plain(list),
    ensures
        in_turn(lowering(), list, st, replies) == (list, st),
        in_turn(walking(), list, st, replies) == (list, st),
        in_turn(lowering_members(), list, st, replies) == (list, st),
{
    assert forall|i: int| 0 <= i < list.len() implies lowered_function(
        #[trigger] list[i],
        st,
        replies,
    ) == (list[i], st) && walked_function(list[i], st, replies) == (list[i], st) by {
        statements_without_generators_are_kept(list[i].body, st, replies);
    }
    lemma_in_turn_keeps(lowering(), list, st, replies);
    lemma_in_turn_keeps(walking(), list, st, replies);
    lemma_in_turn_keeps(lowering_members(), list, st, replies);
}

proof fn lemma_accessors_kept(list: Seq<AccessorView>, st: Progress, replies: Seq<LoweredView>)
    requires
        all_clean(functions_of(list)),
        all_plain(functions_of(list)),
    ensures
        in_turn(lowering_accessors(), list, st, replies) == (list, st),
{
    let out = in_turn(lowering_accessors(), list, st, replies).0;
    lemma_functions_kept(functions_of(list), st, replies);
    lemma_accessors_as_members(list, st, replies);
    assert forall|i: int| 0 <= i < list.len() implies out[i] == list[i] by {
        assert(functions_of(out)[i] == functions_of(list)[i]);
        assert(out[i].name == list[i].name);
    }
    assert(out =~= list);
}

proof fn lemma_split_clean(a: Seq<FunctionView>, b: Seq<FunctionView>)
    requires
        all_clean(a + b),
        all_plain(a + b),
    ensures
        all_clean(a),
        all_plain(a),
        all_clean(b),
        all_plain(b),
{
    assert forall|i: int| 0 <= i < a.len() implies generators_in_all((#[trigger] a[i]).body) == 0
        && !a[i].is_generator by {
        assert((a + b)[i] == a[i]);
    }
    assert forall|i: int| 0 <= i < b.len() implies generators_in_all((#[trigger] b[i]).body) == 0
        && !b[i].is_generator by {
        assert((a + b)[a.len() + i] == b[i]);
    }
}

proof fn lemma_class_kept(c: ClassView, st: Progress, replies: Seq<LoweredView>)
    requires
        all_clean(class_members(c)),
        all_plain(class_members(c)),
    ensures
        lowered_class(c, st, replies) == (c, st),
{
    let first = match c.constructor {
        Some(f) => seq![f],
        None => Seq::empty(),
    };
    let two = first + c.methods;
    let three = two + c.static_methods;
    let four = three + functions_of(c.getters);
    lemma_split_clean(four, functions_of(c.setters));
    lemma_split_clean(three, functions_of(c.getters));
    lemma_split_clean(two, c.static_methods);
    lemma_split_clean(first, c.methods);
    if let Some(f) = c.constructor {
        assert(first[0] == f);
        statements_without_generators_are_kept(f.body, st, replies);
    }
    lemma_functions_kept(c.methods, st, replies);
    lemma_functions_kept(c.static_methods, st, replies);
    lemma_accessors_kept(c.getters, st, replies);
    lemma_accessors_kept(c.setters, st, replies);
}

proof fn lemma_classes_kept(list: Seq<ClassView>, st: Progress, replies: Seq<LoweredView>)
    requires
        all_clean(members_of(list)),
        all_plain(members_of(list)),
    ensures
        in_turn(lowering_classes(), list, st, replies) == (list, st),
    decreases list.len(),
{
    if list.len() > 0 {
        lemma_split_clean(members_of(list.drop_last()), class_members(list.last()));
        lemma_classes_kept(list.drop_last(), st, replies);
        lemma_class_kept(list.last(), st, replies);
        assert(list.drop_last().push(list.last()) =~= list);
    } else {
        assert(list =~= Seq::empty());
    }
}

/// A module without generators, be they functions, members of classes or
/// closures, stays as it is, and uses no identifier.
pub proof fn modules_without_generators_are_kept(
    m: ModuleView,
    st: Progress,
    replies: Seq<LoweredView>,
)
    requires
        module_is_clean(m),
        module_is_plain(m),
    ensures
        transformed_module(m, st, replies) == (m, st),
{
    lemma_split_clean(m.functions, members_of(m.classes));
    lemma_functions_kept(m.functions, st, replies);
    statements_without_generators_are_kept(m.init, st, replies);
    lemma_classes_kept(m.classes, st, replies);
}

/// Each step of the pass over a module goes on from the one before.
proof fn lemma_module_steps(m: ModuleView, st: Progress, replies: Seq<LoweredView>)
    ensures
        ({
            let (lowered, st1) = in_turn(lowering(), m.functions, st, replies);
            let st2 = in_turn(walking(), lowered, st1, replies).1;
            let st3 = transformed_all(m.init, st2, replies).1;
            let st4 = transformed_module(m, st, replies).1;
            &&& st1.asked.len() <= st2.asked.len() <= st3.asked.len() <= st4.asked.len()
            &&& advances(st, st4, replies)
        }),
{
    let (lowered, st1) = in_turn(lowering(), m.functions, st, replies);
    let st2 = in_turn(walking(), lowered, st1, replies).1;
    let st3 = transformed_all(m.init, st2, replies).1;
    let st4 = transformed_module(m, st, replies).1;
    lemma_steps_advance(replies);
    lemma_in_turn_advances(lowering(), m.functions, st, replies);
    lemma_in_turn_advances(walking(), lowered, st1, replies);
    lemma_body_advances(m.init, st2, replies);
    lemma_classes_as_members(m.classes, st3, replies);
    lemma_in_turn_advances(lowering_members(), members_of(m.classes), st3, replies);
    lemma_advances_on(st, st1, st2, replies);
    lemma_advances_on(st, st2, st3, replies);
    lemma_advances_on(st, st3, st4, replies);
}

/// Where the lowering returns no generator function, no function of the module
/// and no member of a class is one after the pass.
pub proof fn no_generator_function_is_left_in_the_module(
    m: ModuleView,
    st: Progress,
    replies: Seq<LoweredView>,
)
    requires
        replies_are_plain(replies),
        transformed_module(m, st, replies).1.asked.len() <= replies.len(),
    ensures
        module_is_plain(transformed_module(m, st, replies).0),
{
    let (lowered, st1) = in_turn(lowering(), m.functions, st, replies);
    let st2 = in_turn(walking(), lowered, st1, replies).1;
    let st3 = transformed_all(m.init, st2, replies).1;
    lemma_module_steps(m, st, replies);
    lemma_functions_lowered(m.functions, st, replies);
    lemma_functions_walked(lowered, st1, replies);
    lemma_classes_as_members(m.classes, st3, replies);
    lemma_members_lowered(members_of(m.classes), st3, replies);
}

/// Where the lowering leaves no generator closure in what it returns, none is
/// left anywhere in the module.
pub proof fn no_generator_closure_is_left_in_the_module(
    m: ModuleView,
    st: Progress,
    replies: Seq<LoweredView>,
)
    requires
        replies_are_clean(replies),
        transformed_module(m, st, replies).1.asked.len() <= replies.len(),
        module_in_order(m),
    ensures
        module_is_clean(transformed_module(m, st, replies).0),
{
    let (lowered, st1) = in_turn(lowering(), m.functions, st, replies);
    let st2 = in_turn(walking(), lowered, st1, replies).1;
    let st3 = transformed_all(m.init, st2, replies).1;
    let all = functions_in(m);
    assert forall|i: int| 0 <= i < m.functions.len() implies body_in_order(
        (#[trigger] m.functions[i]).body,
    ) by {
        assert(all[i] == m.functions[i]);
    }
    let members = members_of(m.classes);
    assert forall|i: int| 0 <= i < members.len() implies body_in_order(
        (#[trigger] members[i]).body,
    ) by {
        assert(all[m.functions.len() + i] == members[i]);
    }
    lemma_module_steps(m, st, replies);
    lemma_functions_lowered(m.functions, st, replies);
    lemma_functions_walked(lowered, st1, replies);
    lemma_body_clean(m.init, st2, replies);
    lemma_classes_as_members(m.classes, st3, replies);
    lemma_members_lowered(members, st3, replies);
}

/// Where the lowering returns no generator function and leaves no generator
/// closure in what it returns, nothing in the module is a generator after the
/// pass.
pub proof fn no_generator_is_left_in_the_module(
    m: ModuleView,
    st: Progress,
    replies: Seq<LoweredView>,
)
    requires
        replies_are_plain(replies),
        replies_are_clean(replies),
        transformed_module(m, st, replies).1.asked.len() <= replies.len(),
        module_in_order(m),
    ensures
        module_is_plain(transformed_module(m, st, replies).0),
        module_is_clean(transformed_module(m, st, replies).0),
{
    no_generator_function_is_left_in_the_module(m, st, replies);
    no_generator_closure_is_left_in_the_module(m, st, replies);
}

/// Every generator closure of a module gets an identifier of its own that was
/// free, as long as the lowering only uses identifiers up.
pub proof fn closures_of_the_module_get_fresh_ids(
    m: ModuleView,
    st: Progress,
    replies: Seq<LoweredView>,
)
    requires
        st.next_func_id < FuncId::MAX,
        replies_only_use_up(
            transformed_module(m, st, replies).1.asked,
            replies,
            st.asked.len() as int,
        ),
    ensures
        fresh_closure_ids(
            transformed_module(m, st, replies).1.asked,
            st.asked.len() as int,
            st.next_func_id,
            transformed_module(m, st, replies).1.next_func_id,
        ),
        transformed_module(m, st, replies).1.next_func_id < FuncId::MAX,
{
    lemma_module_steps(m, st, replies);
}

proof fn lemma_functions_in_order(list: Seq<Function>)
    ensures
        all_in_order(views_of(list)),
{
    assert forall|i: int| 0 <= i < list.len() implies body_in_order(
        (#[trigger] views_of(list)[i]).body,
    ) by {
        all_code_is_shaped(list[i].body@);
    }
}

proof fn lemma_accessors_in_order(list: Seq<Accessor>)
    ensures
        all_in_order(functions_of(views_of(list))),
{
    assert forall|i: int| 0 <= i < list.len() implies body_in_order(
        (#[trigger] functions_of(views_of(list))[i]).body,
    ) by {
        all_code_is_shaped(list[i].function.body@);
    }
}

proof fn lemma_classes_in_order(list: Seq<Class>)
    ensures
        all_in_order(members_of(views_of(list))),
    decreases list.len(),
{
    if list.len() > 0 {
        let c = list.last();
        lemma_classes_in_order(list.drop_last());
        assert(views_of(list).drop_last() =~= views_of(list.drop_last()));
        if let Some(f) = c.constructor {
            all_code_is_shaped(f.body@);
        }
        lemma_functions_in_order(c.methods@);
        lemma_functions_in_order(c.static_methods@);
        lemma_accessors_in_order(c.getters@);
        lemma_accessors_in_order(c.setters@);
        assert(views_of(list).last() == c@);
    }
}

/// The module of every program is in order for the pass.
pub proof fn all_modules_are_in_order(module: Module)
    ensures
        module_in_order(module@),
{
    all_code_is_shaped(module.init@);
    lemma_functions_in_order(module.functions@);
    lemma_classes_in_order(module.classes@);
}

} // verus!
