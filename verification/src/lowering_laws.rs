//! What the lowering is asked by the generator pass, and what becomes of its
//! replies, told by the code that the pass is given.

use vstd::prelude::*;

use crate::generator::{
    answers, answers_all, begin, in_turn, lowered_class, lowered_function,
    lowered_member, lowering, lowering_accessors, lowering_classes, lowering_members,
    rewritten, transform_generator_closures_in_stmts, transform_generators,
    transform_plain_async_closure_body, transformed, transformed_all, transformed_module,
    walked_function, walking, Lowered, LoweredView, LoweringRequest, Progress, RequestView, StepFn,
};
use crate::generator_laws::{lemma_accessors_as_members, lemma_classes_as_members, members_of};
use crate::hir::{
    case_tree, case_trees, catch_trees, expr_tree, expr_trees, opt_expr_tree, opt_stmt_trees,
    stmt_tree, stmt_trees, text_view, ClassView, ClosureHead, Expr, FuncId, FunctionView, HeadView,
    LocalId, Module, ModuleView, Param, Shape, Stmt, SwitchCase, Tree,
};
use crate::work_stack::{lemma_expr_trees, lemma_stmt_trees};

verus! {

/// The generator closures in a tree, those inside a closure before it.
pub open spec fn heads_in(t: Tree) -> Seq<HeadView>
    decreases t,
{
    heads_in_all(t.kids) + match t.shape {
        Shape::Closure { head, .. } => if head.is_generator {
            seq![head]
        } else {
            seq![]
        },
        _ => seq![],
    }
}

pub open spec fn heads_in_all(ts: Seq<Tree>) -> Seq<HeadView>
    decreases ts,
{
    if ts.len() == 0 {
        seq![]
    } else {
        heads_in(ts[0]) + heads_in_all(ts.drop_first())
    }
}

/// The request carries what the closure is: its flags, its parameters and what it
/// takes from around it. It is that of a generator that stands for itself.
pub open spec fn carries(request: RequestView, head: HeadView) -> bool {
    &&& request.function.is_async == head.is_async
    &&& request.function.is_strict == head.is_strict
    &&& request.function.is_generator
    &&& !request.function.is_exported
    &&& !request.function.was_plain_async
    &&& !request.function.was_unrolled
    &&& request.function.params == head.params
    &&& request.function.captures.len() == 0
    &&& request.function.name == "__gen_closure_body"@
    &&& request.extra is Some
    &&& request.extra->0.captures == head.captures
    &&& request.extra->0.mutable_captures == head.mutable_captures
    &&& request.extra->0.captures_this == head.captures_this
    &&& request.extra->0.enclosing_class == head.enclosing_class
}

/// A node over children that are done: a generator closure is asked for with its
/// body and takes the body of the reply, keeps its operands and what else it is, and
/// is neither generator nor async any more; any other node is kept.
pub open spec fn node_done(
    shape: Shape,
    kids: Seq<Tree>,
    out: Tree,
    asked: Seq<RequestView>,
    replies: Seq<LoweredView>,
    at: int,
) -> bool {
    let plain = out.shape == shape && out.kids == kids;
    match shape {
        Shape::Closure { head, body_len } => if head.is_generator {
            &&& carries(asked[at], head)
            &&& asked[at].function.body == kids.take(body_len as int)
            &&& out.kids == replies[at].function.body + kids.skip(body_len as int)
            &&& out.shape matches Shape::Closure { head: done, body_len: len } && {
                &&& len == replies[at].function.body.len()
                &&& !done.is_generator
                &&& !done.is_async
                &&& done.func_id == head.func_id
                &&& done.params == head.params
                &&& done.captures == head.captures
                &&& done.mutable_captures == head.mutable_captures
                &&& done.captures_this == head.captures_this
                &&& done.enclosing_class == head.enclosing_class
                &&& done.is_strict == head.is_strict
            }
        } else {
            plain
        },
        _ => plain,
    }
}

/// The place behind the requests for the closures in the trees.
pub open spec fn behind(from: int, ts: Seq<Tree>) -> int {
    from + heads_in_all(ts).len()
}

/// The tree becomes the other by the requests and replies from a place on.
pub open spec fn tree_done(
    t: Tree,
    out: Tree,
    asked: Seq<RequestView>,
    replies: Seq<LoweredView>,
    from: int,
) -> bool
    decreases t,
{
    exists|kids: Seq<Tree>|
        trees_done(t.kids, kids, asked, replies, from) && #[trigger] node_done(
            t.shape,
            kids,
            out,
            asked,
            replies,
            behind(from, t.kids),
        )
}

pub open spec fn trees_done(
    ts: Seq<Tree>,
    outs: Seq<Tree>,
    asked: Seq<RequestView>,
    replies: Seq<LoweredView>,
    from: int,
) -> bool
    decreases ts,
{
    &&& outs.len() == ts.len()
    &&& ts.len() > 0 ==> tree_done(ts[0], outs[0], asked, replies, from) && trees_done(
        ts.drop_first(),
        outs.drop_first(),
        asked,
        replies,
        from + heads_in(ts[0]).len(),
    )
}

pub open spec fn begins_with(all: Seq<RequestView>, some: Seq<RequestView>) -> bool {
    &&& some.len() <= all.len()
    &&& forall|i: int| 0 <= i < some.len() ==> #[trigger] all[i] == some[i]
}

/// The identifiers that are free when the request at a place is made: those of the
/// reply before it, and at first those of the start.
pub open spec fn free_at(
    start: (LocalId, FuncId),
    from: int,
    replies: Seq<LoweredView>,
    at: int,
) -> (LocalId, FuncId) {
    if at <= from {
        start
    } else {
        (replies[at - 1].next_local_id, replies[at - 1].next_func_id)
    }
}

/// A closure takes the free function identifier and leaves the one after it; a
/// function has its own and leaves the free one.
pub open spec fn numbered(request: RequestView, free: (LocalId, FuncId)) -> bool {
    &&& request.next_local_id == free.0
    &&& match request.extra {
        Some(_) => {
            &&& request.function.id == free.1
            &&& free.1 < u32::MAX ==> request.next_func_id == free.1 + 1
            &&& free.1 == u32::MAX ==> request.next_func_id == 0
        },
        None => request.next_func_id == free.1,
    }
}

/// From one state of the pass to a later one the requests are numbered one by one
/// from the reply before, and the last reply says what is free in the end.
pub open spec fn numbers_on(st: Progress, after: Progress, replies: Seq<LoweredView>) -> bool {
    let start = (st.next_local_id, st.next_func_id);
    let from = st.asked.len() as int;
    &&& begins_with(after.asked, st.asked)
    &&& forall|k: int|
        from <= k < after.asked.len() ==> numbered(
            #[trigger] after.asked[k],
            free_at(start, from, replies, k),
        )
    &&& (after.next_local_id, after.next_func_id) == free_at(
        start,
        from,
        replies,
        after.asked.len() as int,
    )
}

/// The requests from a place on are those for the closures, one by one.
pub open spec fn each_carried(
    asked: Seq<RequestView>,
    from: int,
    heads: Seq<HeadView>,
) -> bool {
    forall|k: int| 0 <= k < heads.len() ==> carries(asked[from + k], #[trigger] heads[k])
}

proof fn lemma_carried_joined(
    a: Seq<RequestView>,
    b: Seq<RequestView>,
    from: int,
    one: Seq<HeadView>,
    two: Seq<HeadView>,
)
    requires
        0 <= from,
        from + one.len() <= a.len(),
        begins_with(b, a),
        each_carried(a, from, one),
        each_carried(b, from + one.len(), two),
    ensures
        each_carried(b, from, one + two),
{
    assert forall|k: int| 0 <= k < (one + two).len() implies carries(
        b[from + k],
        #[trigger] (one + two)[k],
    ) by {
        if k < one.len() {
            assert((one + two)[k] == one[k]);
            assert(b[from + k] == a[from + k]);
        } else {
            assert((one + two)[k] == two[k - one.len()]);
        }
    }
}

proof fn lemma_numbers_on(a: Progress, b: Progress, c: Progress, replies: Seq<LoweredView>)
    requires
        numbers_on(a, b, replies),
        numbers_on(b, c, replies),
    ensures
        numbers_on(a, c, replies),
{
    let start = (a.next_local_id, a.next_func_id);
    let from = a.asked.len() as int;
    assert forall|k: int| from <= k < c.asked.len() implies numbered(
        #[trigger] c.asked[k],
        free_at(start, from, replies, k),
    ) by {
        if k < b.asked.len() {
            assert(c.asked[k] == b.asked[k]);
        }
    }
    assert forall|k: int| 0 <= k < a.asked.len() implies #[trigger] c.asked[k] == a.asked[k] by {
        assert(c.asked[k] == b.asked[k]);
    }
}

proof fn lemma_tree_done(
    t: Tree,
    st: Progress,
    asked: Seq<RequestView>,
    replies: Seq<LoweredView>,
)
    requires
        begins_with(asked, transformed(t, st, replies).1.asked),
    ensures
        ({
            let (out, after) = transformed(t, st, replies);
            &&& numbers_on(st, after, replies)
            &&& after.asked.len() == st.asked.len() + heads_in(t).len()
            &&& each_carried(after.asked, st.asked.len() as int, heads_in(t))
            &&& tree_done(t, out, asked, replies, st.asked.len() as int)
        }),
    decreases t, 0nat,
{
    let (out, after) = transformed(t, st, replies);
    let (kids, between) = transformed_all(t.kids, st, replies);
    lemma_node_numbers(Tree { shape: t.shape, kids }, between, replies);
    assert(begins_with(asked, between.asked)) by {
        assert forall|i: int| 0 <= i < between.asked.len() implies #[trigger] asked[i]
            == between.asked[i] by {
            assert(after.asked[i] == between.asked[i]);
        }
    }
    lemma_trees_done(t.kids, st, asked, replies);
    lemma_numbers_on(st, between, after, replies);
    let at = between.asked.len() as int;
    if after.asked.len() > at {
        assert(asked[at] == after.asked[at]);
    }
    assert(trees_done(t.kids, kids, asked, replies, st.asked.len() as int));
    assert(after.asked.len() == st.asked.len() + heads_in(t).len());
    assert(at == behind(st.asked.len() as int, t.kids));
    let own = heads_in(t).skip(heads_in_all(t.kids).len() as int);
    assert(heads_in(t) =~= heads_in_all(t.kids) + own);
    lemma_carried_joined(
        between.asked,
        after.asked,
        st.asked.len() as int,
        heads_in_all(t.kids),
        own,
    );
    assert(node_done(t.shape, kids, out, asked, replies, behind(st.asked.len() as int, t.kids)));
}

proof fn lemma_node_numbers(t: Tree, st: Progress, replies: Seq<LoweredView>)
    ensures
        numbers_on(st, rewritten(t, st, replies).1, replies),
{
}

proof fn lemma_trees_done(
    ts: Seq<Tree>,
    st: Progress,
    asked: Seq<RequestView>,
    replies: Seq<LoweredView>,
)
    requires
        begins_with(asked, transformed_all(ts, st, replies).1.asked),
    ensures
        ({
            let (outs, after) = transformed_all(ts, st, replies);
            &&& numbers_on(st, after, replies)
            &&& after.asked.len() == st.asked.len() + heads_in_all(ts).len()
            &&& each_carried(after.asked, st.asked.len() as int, heads_in_all(ts))
            &&& trees_done(ts, outs, asked, replies, st.asked.len() as int)
        }),
    decreases ts, 1nat,
{
    if ts.len() > 0 {
        let (outs, after) = transformed_all(ts, st, replies);
        let (first, between) = transformed(ts[0], st, replies);
        let (rest, end) = transformed_all(ts.drop_first(), between, replies);
        lemma_trees_done(ts.drop_first(), between, asked, replies);
        assert(begins_with(asked, between.asked)) by {
            assert forall|i: int| 0 <= i < between.asked.len() implies #[trigger] asked[i]
                == between.asked[i] by {
                assert(after.asked[i] == between.asked[i]);
            }
        }
        lemma_tree_done(ts[0], st, asked, replies);
        lemma_numbers_on(st, between, after, replies);
        assert(outs.drop_first() =~= rest);
        lemma_carried_joined(
            between.asked,
            after.asked,
            st.asked.len() as int,
            heads_in(ts[0]),
            heads_in_all(ts.drop_first()),
        );
    }
}

/// Every generator closure in the statements is asked for once, those inside a
/// closure before it, with what it is and under the identifiers that the reply
/// before left free; it takes over the body of its own reply, and everything else
/// stays.
pub proof fn closures_are_lowered_as_they_are<F: Fn(LoweringRequest) -> Lowered>(
    stmts: Vec<Stmt>,
    next_local_id: &mut LocalId,
    next_func_id: &mut FuncId,
    lower: &F,
    out: Vec<Stmt>,
)
    requires
        call_ensures(
            transform_generator_closures_in_stmts::<F>,
            (stmts, next_local_id, next_func_id, lower),
            out,
        ),
    ensures
        exists|asked: Seq<RequestView>, replies: Seq<LoweredView>|
            {
                &&& #[trigger] answers_all(*lower, asked, replies)
                &&& asked.len() == heads_in_all(stmt_trees(stmts@)).len()
                &&& each_carried(asked, 0, heads_in_all(stmt_trees(stmts@)))
                &&& trees_done(stmt_trees(stmts@), stmt_trees(out@), asked, replies, 0)
                &&& numbers_on(
                    Progress {
                        next_local_id: *old(next_local_id),
                        next_func_id: *old(next_func_id),
                        asked: seq![],
                    },
                    Progress {
                        next_local_id: *final(next_local_id),
                        next_func_id: *final(next_func_id),
                        asked,
                    },
                    replies,
                )
            },
{
    let start = begin(*old(next_local_id), *old(next_func_id));
    let (asked, replies) = choose|asked: Seq<RequestView>, replies: Seq<LoweredView>| #[trigger]
        answers_all(*lower, asked, replies) && transformed_all(
            stmt_trees(stmts@),
            start,
            replies,
        ) == (
            stmt_trees(out@),
            Progress {
                next_local_id: *final(next_local_id),
                next_func_id: *final(next_func_id),
                asked,
            },
        );
    lemma_trees_done(stmt_trees(stmts@), start, asked, replies);
    assert(answers_all(*lower, asked, replies));
}

/// A generator function is asked for whole and becomes the function of the reply;
/// any other stays.
pub open spec fn function_done(
    f: FunctionView,
    out: FunctionView,
    asked: Seq<RequestView>,
    replies: Seq<LoweredView>,
    at: int,
) -> bool {
    if f.is_generator {
        &&& asked[at].function == f
        &&& asked[at].extra is None
        &&& out == replies[at].function
    } else {
        out == f
    }
}

/// Only the body of the function changes, by the closures in it.
pub open spec fn body_done(
    f: FunctionView,
    out: FunctionView,
    asked: Seq<RequestView>,
    replies: Seq<LoweredView>,
    from: int,
) -> bool {
    &&& trees_done(f.body, out.body, asked, replies, from)
    &&& out.id == f.id
    &&& out.name == f.name
    &&& out.params == f.params
    &&& out.is_strict == f.is_strict
    &&& out.is_async == f.is_async
    &&& out.is_generator == f.is_generator
    &&& out.is_exported == f.is_exported
    &&& out.captures == f.captures
    &&& out.was_plain_async == f.was_plain_async
    &&& out.was_unrolled == f.was_unrolled
}

pub open spec fn generators_among(list: Seq<FunctionView>) -> nat
    decreases list.len(),
{
    if list.len() == 0 {
        0
    } else {
        generators_among(list.drop_last()) + if list.last().is_generator {
            1nat
        } else {
            0
        }
    }
}

pub open spec fn closures_among(list: Seq<FunctionView>) -> nat
    decreases list.len(),
{
    if list.len() == 0 {
        0
    } else {
        closures_among(list.drop_last()) + heads_in_all(list.last().body).len()
    }
}

pub open spec fn functions_done(
    list: Seq<FunctionView>,
    outs: Seq<FunctionView>,
    asked: Seq<RequestView>,
    replies: Seq<LoweredView>,
    from: int,
) -> bool
    decreases list.len(),
{
    &&& outs.len() == list.len()
    &&& list.len() > 0 ==> {
        &&& functions_done(list.drop_last(), outs.drop_last(), asked, replies, from)
        &&& function_done(
            list.last(),
            outs.last(),
            asked,
            replies,
            from + generators_among(list.drop_last()),
        )
    }
}

pub open spec fn bodies_done(
    list: Seq<FunctionView>,
    outs: Seq<FunctionView>,
    asked: Seq<RequestView>,
    replies: Seq<LoweredView>,
    from: int,
) -> bool
    decreases list.len(),
{
    &&& outs.len() == list.len()
    &&& list.len() > 0 ==> {
        &&& bodies_done(list.drop_last(), outs.drop_last(), asked, replies, from)
        &&& body_done(
            list.last(),
            outs.last(),
            asked,
            replies,
            from + closures_among(list.drop_last()),
        )
    }
}

/// The members are lowered one by one where they are generators, and the closures
/// in the body of each, which may be that of its reply, are lowered before the next
/// member.
pub open spec fn members_done(
    list: Seq<FunctionView>,
    lowered: Seq<FunctionView>,
    outs: Seq<FunctionView>,
    asked: Seq<RequestView>,
    replies: Seq<LoweredView>,
    from: int,
) -> bool
    decreases list.len(),
{
    &&& lowered.len() == list.len()
    &&& outs.len() == list.len()
    &&& list.len() > 0 ==> {
        let at = from + generators_among(list.drop_last()) + closures_among(lowered.drop_last());
        &&& members_done(
            list.drop_last(),
            lowered.drop_last(),
            outs.drop_last(),
            asked,
            replies,
            from,
        )
        &&& function_done(list.last(), lowered.last(), asked, replies, at)
        &&& body_done(
            lowered.last(),
            outs.last(),
            asked,
            replies,
            if list.last().is_generator {
                at + 1
            } else {
                at
            },
        )
    }
}

proof fn lemma_prefix(
    asked: Seq<RequestView>,
    st: Progress,
    after: Progress,
    replies: Seq<LoweredView>,
)
    requires
        begins_with(asked, after.asked),
        numbers_on(st, after, replies),
    ensures
        begins_with(asked, st.asked),
{
    assert forall|i: int| 0 <= i < st.asked.len() implies #[trigger] asked[i] == st.asked[i] by {
        assert(after.asked[i] == st.asked[i]);
    }
}

proof fn lemma_functions_done(
    list: Seq<FunctionView>,
    st: Progress,
    asked: Seq<RequestView>,
    replies: Seq<LoweredView>,
)
    requires
        begins_with(asked, in_turn(lowering(), list, st, replies).1.asked),
    ensures
        ({
            let (outs, after) = in_turn(lowering(), list, st, replies);
            &&& numbers_on(st, after, replies)
            &&& after.asked.len() == st.asked.len() + generators_among(list)
            &&& functions_done(list, outs, asked, replies, st.asked.len() as int)
        }),
    decreases list.len(),
{
    if list.len() > 0 {
        let (before, between) = in_turn(lowering(), list.drop_last(), st, replies);
        let (last, after) = lowered_function(list.last(), between, replies);
        assert(in_turn(lowering(), list, st, replies) == (before.push(last), after));
        assert(numbers_on(between, after, replies));
        lemma_prefix(asked, between, after, replies);
        lemma_functions_done(list.drop_last(), st, asked, replies);
        lemma_numbers_on(st, between, after, replies);
        assert(before.push(last).drop_last() =~= before);
        if list.last().is_generator {
            let at = between.asked.len() as int;
            assert(asked[at] == after.asked[at]);
        }
    }
}

proof fn lemma_bodies_done(
    list: Seq<FunctionView>,
    st: Progress,
    asked: Seq<RequestView>,
    replies: Seq<LoweredView>,
)
    requires
        begins_with(asked, in_turn(walking(), list, st, replies).1.asked),
    ensures
        ({
            let (outs, after) = in_turn(walking(), list, st, replies);
            &&& numbers_on(st, after, replies)
            &&& after.asked.len() == st.asked.len() + closures_among(list)
            &&& bodies_done(list, outs, asked, replies, st.asked.len() as int)
        }),
    decreases list.len(),
{
    if list.len() > 0 {
        let (before, between) = in_turn(walking(), list.drop_last(), st, replies);
        let (last, after) = walked_function(list.last(), between, replies);
        assert(in_turn(walking(), list, st, replies) == (before.push(last), after));
        lemma_trees_done(list.last().body, between, asked, replies);
        lemma_prefix(asked, between, after, replies);
        lemma_bodies_done(list.drop_last(), st, asked, replies);
        lemma_numbers_on(st, between, after, replies);
        assert(before.push(last).drop_last() =~= before);
    }
}

/// The members after they are lowered, before their bodies are walked.
spec fn half_done(
    list: Seq<FunctionView>,
    st: Progress,
    replies: Seq<LoweredView>,
) -> Seq<FunctionView>
    decreases list.len(),
{
    if list.len() == 0 {
        seq![]
    } else {
        let between = in_turn(lowering_members(), list.drop_last(), st, replies).1;
        half_done(list.drop_last(), st, replies).push(
            lowered_function(list.last(), between, replies).0,
        )
    }
}

proof fn lemma_members_done(
    list: Seq<FunctionView>,
    st: Progress,
    asked: Seq<RequestView>,
    replies: Seq<LoweredView>,
)
    requires
        begins_with(asked, in_turn(lowering_members(), list, st, replies).1.asked),
    ensures
        ({
            let (outs, after) = in_turn(lowering_members(), list, st, replies);
            let lowered = half_done(list, st, replies);
            &&& numbers_on(st, after, replies)
            &&& after.asked.len() == st.asked.len() + generators_among(list) + closures_among(
                lowered,
            )
            &&& members_done(list, lowered, outs, asked, replies, st.asked.len() as int)
        }),
    decreases list.len(),
{
    if list.len() > 0 {
        let (before, between) = in_turn(lowering_members(), list.drop_last(), st, replies);
        let (mid, then) = lowered_function(list.last(), between, replies);
        let (last, after) = walked_function(mid, then, replies);
        assert(in_turn(lowering_members(), list, st, replies) == (before.push(last), after));
        assert(numbers_on(between, then, replies));
        lemma_trees_done(mid.body, then, asked, replies);
        lemma_prefix(asked, then, after, replies);
        lemma_prefix(asked, between, then, replies);
        lemma_members_done(list.drop_last(), st, asked, replies);
        lemma_numbers_on(st, between, then, replies);
        lemma_numbers_on(st, then, after, replies);
        assert(before.push(last).drop_last() =~= before);
        let lowered = half_done(list, st, replies);
        assert(lowered.drop_last() =~= half_done(list.drop_last(), st, replies));
        assert(lowered.last() == mid);
        if list.last().is_generator {
            let at = between.asked.len() as int;
            assert(asked[at] == then.asked[at]);
        }
    }
}

/// The classes have the same members in the same places under the same names.
pub open spec fn same_classes(list: Seq<ClassView>, outs: Seq<ClassView>) -> bool {
    &&& outs.len() == list.len()
    &&& forall|i: int| 0 <= i < list.len() ==> same_class(list[i], #[trigger] outs[i])
}

pub open spec fn same_class(c: ClassView, out: ClassView) -> bool {
    &&& out.constructor is Some == c.constructor is Some
    &&& out.methods.len() == c.methods.len()
    &&& out.static_methods.len() == c.static_methods.len()
    &&& out.getters.len() == c.getters.len()
    &&& forall|k: int| 0 <= k < c.getters.len() ==> (#[trigger] out.getters[k]).name
        == c.getters[k].name
    &&& out.setters.len() == c.setters.len()
    &&& forall|k: int| 0 <= k < c.setters.len() ==> (#[trigger] out.setters[k]).name
        == c.setters[k].name
}

proof fn lemma_in_turn_len<V>(
    step: StepFn<V>,
    list: Seq<V>,
    st: Progress,
    replies: Seq<LoweredView>,
)
    ensures
        in_turn(step, list, st, replies).0.len() == list.len(),
    decreases list.len(),
{
    if list.len() > 0 {
        lemma_in_turn_len(step, list.drop_last(), st, replies);
    }
}

proof fn lemma_same_class(c: ClassView, st: Progress, replies: Seq<LoweredView>)
    ensures
        same_class(c, lowered_class(c, st, replies).0),
{
    let st1 = match c.constructor {
        Some(f) => lowered_member(f, st, replies).1,
        None => st,
    };
    let st2 = in_turn(lowering_members(), c.methods, st1, replies).1;
    let st3 = in_turn(lowering_members(), c.static_methods, st2, replies).1;
    let st4 = in_turn(lowering_accessors(), c.getters, st3, replies).1;
    lemma_in_turn_len(lowering_members(), c.methods, st1, replies);
    lemma_in_turn_len(lowering_members(), c.static_methods, st2, replies);
    lemma_accessors_as_members(c.getters, st3, replies);
    lemma_accessors_as_members(c.setters, st4, replies);
}

proof fn lemma_same_classes(list: Seq<ClassView>, st: Progress, replies: Seq<LoweredView>)
    ensures
        same_classes(list, in_turn(lowering_classes(), list, st, replies).0),
    decreases list.len(),
{
    if list.len() > 0 {
        let (before, between) = in_turn(lowering_classes(), list.drop_last(), st, replies);
        let (last, after) = lowered_class(list.last(), between, replies);
        assert(in_turn(lowering_classes(), list, st, replies) == (before.push(last), after));
        lemma_same_classes(list.drop_last(), st, replies);
        lemma_same_class(list.last(), between, replies);
        assert forall|i: int| 0 <= i < list.len() implies same_class(
            list[i],
            #[trigger] before.push(last)[i],
        ) by {
            if i < before.len() {
                assert(before.push(last)[i] == before[i]);
                assert(list[i] == list.drop_last()[i]);
            }
        }
    }
}

/// The module becomes the other: its generator functions first, then the closures in
/// the bodies of all its functions and at its top level, then the members of its
/// classes.
pub open spec fn module_done(
    m: ModuleView,
    lowered: Seq<FunctionView>,
    members: Seq<FunctionView>,
    out: ModuleView,
    asked: Seq<RequestView>,
    replies: Seq<LoweredView>,
) -> bool {
    let bodies = generators_among(m.functions) as int;
    let init = bodies + closures_among(lowered);
    let classes = init + heads_in_all(m.init).len();
    &&& functions_done(m.functions, lowered, asked, replies, 0)
    &&& bodies_done(lowered, out.functions, asked, replies, bodies)
    &&& trees_done(m.init, out.init, asked, replies, init)
    &&& members_done(
        members_of(m.classes),
        members,
        members_of(out.classes),
        asked,
        replies,
        classes,
    )
    &&& same_classes(m.classes, out.classes)
    &&& asked.len() == classes + generators_among(members_of(m.classes)) + closures_among(members)
}

/// The identifier behind the largest one in use, and zero behind the last of all.
pub open spec fn first_free(largest: u32) -> u32 {
    if largest < u32::MAX {
        (largest + 1) as u32
    } else {
        0
    }
}

/// The pass over a module asks for every generator once, as it is and in this order,
/// under identifiers that begin behind the largest one in use; it puts every reply
/// where the generator was, and leaves everything else.
pub proof fn modules_are_lowered_as_they_are<F: Fn(LoweringRequest) -> Lowered>(
    module: &mut Module,
    max_local_id: LocalId,
    max_func_id: FuncId,
    lower: &F,
)
    requires
        call_ensures(
            transform_generators::<F>,
            (module, max_local_id, max_func_id, lower),
            (),
        ),
    ensures
        exists|
            after: Progress,
            replies: Seq<LoweredView>,
            lowered: Seq<FunctionView>,
            members: Seq<FunctionView>,
        |
            {
                &&& answers_all(*lower, after.asked, replies)
                &&& #[trigger] module_done(
                    old(module)@,
                    lowered,
                    members,
                    final(module)@,
                    after.asked,
                    replies,
                )
                &&& #[trigger] numbers_on(
                    Progress {
                        next_local_id: first_free(max_local_id),
                        next_func_id: first_free(max_func_id),
                        asked: seq![],
                    },
                    after,
                    replies,
                )
            },
{
    let m = old(module)@;
    let st = Progress {
        next_local_id: first_free(max_local_id),
        next_func_id: first_free(max_func_id),
        asked: seq![],
    };
    let (after, replies) = choose|after: Progress, replies: Seq<LoweredView>| #[trigger]
        answers_all(*lower, after.asked, replies) && transformed_module(m, st, replies) == (
            final(module)@,
            after,
        );
    let (lowered, st1) = in_turn(lowering(), m.functions, st, replies);
    let (functions, st2) = in_turn(walking(), lowered, st1, replies);
    let (init, st3) = transformed_all(m.init, st2, replies);
    let (classes, st4) = in_turn(lowering_classes(), m.classes, st3, replies);
    let members = half_done(members_of(m.classes), st3, replies);
    let asked = after.asked;
    lemma_same_classes(m.classes, st3, replies);
    lemma_classes_as_members(m.classes, st3, replies);
    lemma_members_done(members_of(m.classes), st3, asked, replies);
    lemma_prefix(asked, st3, st4, replies);
    lemma_trees_done(m.init, st2, asked, replies);
    lemma_prefix(asked, st2, st3, replies);
    lemma_bodies_done(lowered, st1, asked, replies);
    lemma_prefix(asked, st1, st2, replies);
    lemma_functions_done(m.functions, st, asked, replies);
    lemma_numbers_on(st, st1, st2, replies);
    lemma_numbers_on(st, st2, st3, replies);
    lemma_numbers_on(st, st3, st4, replies);
    assert(module_done(m, lowered, members, final(module)@, after.asked, replies));
}

/// The body of an async closure is asked for as that of a generator that was async,
/// with what the closure takes from around it, and the body and the identifiers of
/// the reply are handed on.
pub proof fn async_bodies_are_lowered_as_they_are<F: Fn(LoweringRequest) -> Lowered>(
    body: Vec<Stmt>,
    params: &[Param],
    captures: &[LocalId],
    mutable_captures: &[LocalId],
    captures_this: bool,
    enclosing_class: Option<String>,
    is_strict: bool,
    next_local_id: &mut LocalId,
    next_func_id: &mut FuncId,
    lower: &F,
    out: Vec<Stmt>,
)
    requires
        call_ensures(
            transform_plain_async_closure_body::<F>,
            (
                body,
                params,
                captures,
                mutable_captures,
                captures_this,
                enclosing_class,
                is_strict,
                next_local_id,
                next_func_id,
                lower,
            ),
            out,
        ),
    ensures
        exists|q: LoweringRequest, a: Lowered|
            {
                &&& #[trigger] call_ensures(*lower, (q,), a)
                &&& q.function.id == *old(next_func_id)
                &&& q.function.name@ == "__async_closure_body"@
                &&& q.function.params@ == params@
                &&& stmt_trees(q.function.body@) == stmt_trees(body@)
                &&& q.function.is_strict == is_strict
                &&& !q.function.is_async
                &&& q.function.is_generator
                &&& !q.function.is_exported
                &&& q.function.captures@.len() == 0
                &&& q.function.was_plain_async
                &&& !q.function.was_unrolled
                &&& q.next_local_id == *old(next_local_id)
                &&& q.next_func_id == first_free(*old(next_func_id))
                &&& q.extra matches Some(extra) && {
                    &&& extra.captures@ == captures@
                    &&& extra.mutable_captures@ == mutable_captures@
                    &&& extra.captures_this == captures_this
                    &&& text_view(extra.enclosing_class) == text_view(enclosing_class)
                }
                &&& stmt_trees(out@) == stmt_trees(a.function.body@)
                &&& *final(next_local_id) == a.next_local_id
                &&& *final(next_func_id) == a.next_func_id
            },
{
}

/// What the requests and the replies are told by shows every part of them.
pub proof fn requests_show_every_part<F: Fn(LoweringRequest) -> Lowered>(
    lower: F,
    request: RequestView,
    reply: LoweredView,
)
    requires
        answers(lower, request, reply),
    ensures
        exists|q: LoweringRequest, a: Lowered|
            {
                &&& #[trigger] call_ensures(lower, (q,), a)
                &&& q.next_local_id == request.next_local_id
                &&& q.next_func_id == request.next_func_id
                &&& q.function.id == request.function.id
                &&& q.function.name@ == request.function.name
                &&& q.function.params@ == request.function.params
                &&& stmt_trees(q.function.body@) == request.function.body
                &&& q.function.is_strict == request.function.is_strict
                &&& q.function.is_async == request.function.is_async
                &&& q.function.is_generator == request.function.is_generator
                &&& q.function.is_exported == request.function.is_exported
                &&& q.function.captures@ == request.function.captures
                &&& q.function.was_plain_async == request.function.was_plain_async
                &&& q.function.was_unrolled == request.function.was_unrolled
                &&& q.extra is Some == request.extra is Some
                &&& q.extra is Some ==> {
                    &&& q.extra->0.captures@ == request.extra->0.captures
                    &&& q.extra->0.mutable_captures@ == request.extra->0.mutable_captures
                    &&& q.extra->0.captures_this == request.extra->0.captures_this
                    &&& text_view(q.extra->0.enclosing_class) == request.extra->0.enclosing_class
                }
                &&& stmt_trees(a.function.body@) == reply.function.body
                &&& a.function@ == reply.function
                &&& a.next_local_id == reply.next_local_id
                &&& a.next_func_id == reply.next_func_id
            },
{
    let (q, a) = choose|q: LoweringRequest, a: Lowered|
        q@ == request && a@ == reply && #[trigger] call_ensures(lower, (q,), a);
    assert(call_ensures(lower, (q,), a));
}

/// There is one reply to every request, in its place.
pub proof fn replies_stand_by_their_requests<F: Fn(LoweringRequest) -> Lowered>(
    lower: F,
    asked: Seq<RequestView>,
    replies: Seq<LoweredView>,
    k: int,
)
    requires
        answers_all(lower, asked, replies),
        0 <= k < asked.len(),
    ensures
        replies.len() == asked.len(),
        answers(lower, asked[k], replies[k]),
{
}

/// The parts of an expression: a closure has its body before its operands.
pub proof fn expressions_have_their_parts(e: Expr)
    ensures
        e matches Expr::Closure { head, body, operands } ==> {
            &&& expr_tree(e).shape matches Shape::Closure { head: h, body_len }
                && body_len == body@.len() && shows_head(h, head)
            &&& expr_tree(e).kids == stmt_trees(body@) + expr_trees(operands@)
        },
        e matches Expr::Other { tag, operands } ==> {
            &&& expr_tree(e).shape == (Shape::OtherExpr { tag })
            &&& expr_tree(e).kids == expr_trees(operands@)
        },
{
}

/// What a closure is told by shows every part of it.
pub open spec fn shows_head(view: HeadView, head: ClosureHead) -> bool {
    &&& view.func_id == head.func_id
    &&& view.params == head.params@
    &&& view.captures == head.captures@
    &&& view.mutable_captures == head.mutable_captures@
    &&& view.captures_this == head.captures_this
    &&& view.enclosing_class is Some == head.enclosing_class is Some
    &&& head.enclosing_class is Some ==> view.enclosing_class->0 == head.enclosing_class->0@
    &&& view.is_strict == head.is_strict
    &&& view.is_async == head.is_async
    &&& view.is_generator == head.is_generator
}

/// The trees of a list are those of its items, one by one.
pub proof fn lists_have_a_tree_for_each_item(stmts: Seq<Stmt>, exprs: Seq<Expr>, i: int, j: int)
    requires
        0 <= i < stmts.len(),
        0 <= j < exprs.len(),
    ensures
        stmt_trees(stmts).len() == stmts.len(),
        stmt_trees(stmts)[i] == stmt_tree(stmts[i]),
        expr_trees(exprs).len() == exprs.len(),
        expr_trees(exprs)[j] == expr_tree(exprs[j]),
{
    lemma_stmt_trees(stmts);
    lemma_expr_trees(exprs);
}

/// No expression, or the one there is.
pub open spec fn at_most_one(e: Option<Expr>) -> Seq<Tree> {
    match e {
        Some(e) => seq![expr_tree(e)],
        None => seq![],
    }
}

/// The statements of a branch, where there is one.
pub open spec fn branch(b: Option<Vec<Stmt>>) -> Seq<Tree> {
    match b {
        Some(b) => stmt_trees(b@),
        None => seq![],
    }
}

/// The parts of a statement in the order in which they are visited, and what else
/// it is.
pub proof fn statements_have_their_parts(s: Stmt)
    ensures
        s matches Stmt::Let { id, init } ==> stmt_tree(s) == (Tree {
            shape: Shape::Let { id },
            kids: at_most_one(init),
        }),
        s matches Stmt::Expr(e) ==> stmt_tree(s) == (Tree {
            shape: Shape::ExprStmt,
            kids: seq![expr_tree(e)],
        }),
        s matches Stmt::Throw(e) ==> stmt_tree(s) == (Tree {
            shape: Shape::Throw,
            kids: seq![expr_tree(e)],
        }),
        s matches Stmt::Return(e) ==> stmt_tree(s) == (Tree {
            shape: Shape::Return,
            kids: at_most_one(e),
        }),
        s matches Stmt::If { condition, then_branch, else_branch } ==> stmt_tree(s) == (Tree {
            shape: Shape::If { then_len: then_branch@.len(), has_else: else_branch is Some },
            kids: seq![expr_tree(condition)] + stmt_trees(then_branch@) + branch(else_branch),
        }),
        s matches Stmt::While { condition, body } ==> stmt_tree(s) == (Tree {
            shape: Shape::While,
            kids: seq![expr_tree(condition)] + stmt_trees(body@),
        }),
        s matches Stmt::DoWhile { body, condition } ==> stmt_tree(s) == (Tree {
            shape: Shape::DoWhile,
            kids: seq![expr_tree(condition)] + stmt_trees(body@),
        }),
        s matches Stmt::Switch { discriminant, cases } ==> stmt_tree(s) == (Tree {
            shape: Shape::Switch,
            kids: seq![expr_tree(discriminant)] + case_trees(cases@),
        }),
        s matches Stmt::Labeled { label, body } ==> stmt_tree(s) == (Tree {
            shape: Shape::Labeled { label: label@ },
            kids: seq![stmt_tree(*body)],
        }),
        s matches Stmt::Other(tag) ==> stmt_tree(s) == (Tree {
            shape: Shape::OtherStmt { tag },
            kids: seq![],
        }),
{
    reveal_with_fuel(stmt_tree, 2);
    reveal_with_fuel(opt_expr_tree, 2);
    reveal_with_fuel(opt_stmt_trees, 2);
    reveal_with_fuel(catch_trees, 2);
}

/// The parts of a loop, of a guarded block and of a case, in the same way.
pub proof fn blocks_have_their_parts(s: Stmt, c: SwitchCase)
    ensures
        s matches Stmt::For { init, condition, update, body } ==> {
            &&& stmt_tree(s).shape == (Shape::For {
                has_init: init is Some,
                has_condition: condition is Some,
                has_update: update is Some,
            })
            &&& stmt_tree(s).kids == (if init is Some {
                seq![stmt_tree(*init->0)]
            } else {
                seq![]
            }) + at_most_one(condition) + at_most_one(update) + stmt_trees(body@)
        },
        s matches Stmt::Try { body, catch, finally } ==> {
            &&& stmt_tree(s).shape == (Shape::Try {
                body_len: body@.len(),
                catch: if catch is Some {
                    Some((catch->0.param, catch->0.body@.len()))
                } else {
                    None
                },
                has_finally: finally is Some,
            })
            &&& stmt_tree(s).kids == stmt_trees(body@) + (if catch is Some {
                stmt_trees(catch->0.body@)
            } else {
                seq![]
            }) + branch(finally)
        },
        case_tree(c).shape == (Shape::Case { has_test: c.test is Some }),
        case_tree(c).kids == at_most_one(c.test) + stmt_trees(c.body@),
{
    reveal_with_fuel(stmt_tree, 2);
    reveal_with_fuel(opt_expr_tree, 2);
    reveal_with_fuel(opt_stmt_trees, 2);
    reveal_with_fuel(catch_trees, 2);
}

} // verus!
