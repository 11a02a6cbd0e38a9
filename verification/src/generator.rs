//! Turning generator functions into state machines.
//!
//! The pass decides which functions and closures are lowered, in which order,
//! and under which identifiers. Building the state machine of one of them is
//! left to the lowering that the caller provides.

use vstd::prelude::*;
use crate::hir::{
    Accessor, AccessorView, Class, ClassView, Expr, FuncId, Function, FunctionView, HeadView,
    LocalId, Module, ModuleView, Param, Shape, Stmt, Tree,
};
use crate::hir::{stmt_tree, stmt_trees, text_view, views_of};
use crate::work_stack::{lemma_stmt_trees, reversed, Frame, FrameView, Node};

verus! {

/// What a closure takes from the scope around it.
pub struct ExtraCaptures {
    pub captures: Vec<LocalId>,
    pub mutable_captures: Vec<LocalId>,
    pub captures_this: bool,
    pub enclosing_class: Option<String>,
}

#[verifier::ext_equal]
pub struct ExtraCapturesView {
    pub captures: Seq<LocalId>,
    pub mutable_captures: Seq<LocalId>,
    pub captures_this: bool,
    pub enclosing_class: Option<Seq<char>>,
}

impl View for ExtraCaptures {
    type V = ExtraCapturesView;

    open spec fn view(&self) -> ExtraCapturesView {
        ExtraCapturesView {
            captures: self.captures@,
            mutable_captures: self.mutable_captures@,
            captures_this: self.captures_this,
            enclosing_class: text_view(self.enclosing_class),
        }
    }
}

/// A generator function to be lowered, and the identifiers that are free.
pub struct LoweringRequest {
    pub function: Function,
    pub next_local_id: LocalId,
    pub next_func_id: FuncId,
    pub extra: Option<ExtraCaptures>,
}

#[verifier::ext_equal]
pub struct RequestView {
    pub function: FunctionView,
    pub next_local_id: LocalId,
    pub next_func_id: FuncId,
    pub extra: Option<ExtraCapturesView>,
}

impl View for LoweringRequest {
    type V = RequestView;

    open spec fn view(&self) -> RequestView {
        RequestView {
            function: self.function@,
            next_local_id: self.next_local_id,
            next_func_id: self.next_func_id,
            extra: match self.extra {
                Some(extra) => Some(extra@),
                None => None,
            },
        }
    }
}

/// The lowered function, and the identifiers that are still free.
pub struct Lowered {
    pub function: Function,
    pub next_local_id: LocalId,
    pub next_func_id: FuncId,
}

#[verifier::ext_equal]
pub struct LoweredView {
    pub function: FunctionView,
    pub next_local_id: LocalId,
    pub next_func_id: FuncId,
}

impl View for Lowered {
    type V = LoweredView;

    open spec fn view(&self) -> LoweredView {
        LoweredView {
            function: self.function@,
            next_local_id: self.next_local_id,
            next_func_id: self.next_func_id,
        }
    }
}

/// How far the pass has come: the free identifiers, and what has been asked of
/// the lowering so far.
#[verifier::ext_equal]
pub struct Progress {
    pub next_local_id: LocalId,
    pub next_func_id: FuncId,
    pub asked: Seq<RequestView>,
}

/// The identifier after this one. After the last one the count begins anew.
pub open spec fn following(id: u32) -> u32 {
    if id == u32::MAX {
        0
    } else {
        (id + 1) as u32
    }
}

/// The state machine function that stands for the body of a generator closure.
pub open spec fn closure_function(
    head: HeadView,
    body: Seq<Tree>,
    id: FuncId,
) -> FunctionView {
    FunctionView {
        id,
        name: "__gen_closure_body"@,
        params: head.params,
        body,
        is_strict: head.is_strict,
        is_async: head.is_async,
        is_generator: true,
        is_exported: false,
        captures: Seq::empty(),
        was_plain_async: false,
        was_unrolled: false,
    }
}

/// What the lowering is asked for a generator closure: its body becomes a
/// function under the next free identifier.
pub open spec fn closure_request(head: HeadView, body: Seq<Tree>, st: Progress) -> RequestView {
    RequestView {
        function: closure_function(head, body, st.next_func_id),
        next_local_id: st.next_local_id,
        next_func_id: following(st.next_func_id),
        extra: Some(
            ExtraCapturesView {
                captures: head.captures,
                mutable_captures: head.mutable_captures,
                captures_this: head.captures_this,
                enclosing_class: head.enclosing_class,
            },
        ),
    }
}

/// The node after its own turn has come: a generator closure takes over the
/// body that the next reply holds, and is neither generator nor async any more.
/// Any other node stays as it is.
pub open spec fn rewritten(t: Tree, st: Progress, replies: Seq<LoweredView>) -> (Tree, Progress) {
    match t.shape {
        Shape::Closure { head, body_len } => if head.is_generator {
            let reply = replies[st.asked.len() as int];
            (
                Tree {
                    shape: Shape::Closure {
                        head: HeadView { is_generator: false, is_async: false, ..head },
                        body_len: reply.function.body.len(),
                    },
                    kids: reply.function.body + t.kids.skip(body_len as int),
                },
                Progress {
                    next_local_id: reply.next_local_id,
                    next_func_id: reply.next_func_id,
                    asked: st.asked.push(
                        closure_request(head, t.kids.take(body_len as int), st),
                    ),
                },
            )
        } else {
            (t, st)
        },
        _ => (t, st),
    }
}

/// The tree with its generator closures lowered, children before their parent.
pub open spec fn transformed(t: Tree, st: Progress, replies: Seq<LoweredView>) -> (Tree, Progress)
    decreases t,
{
    let (kids, after) = transformed_all(t.kids, st, replies);
    rewritten(Tree { shape: t.shape, kids }, after, replies)
}

/// The trees with their generator closures lowered, one tree after the other.
pub open spec fn transformed_all(
    ts: Seq<Tree>,
    st: Progress,
    replies: Seq<LoweredView>,
) -> (Seq<Tree>, Progress)
    decreases ts,
{
    if ts.len() == 0 {
        (Seq::empty(), st)
    } else {
        let (first, between) = transformed(ts[0], st, replies);
        let (rest, after) = transformed_all(ts.drop_first(), between, replies);
        (seq![first] + rest, after)
    }
}

/// What becomes of the lowest of a stack of half-visited nodes once all of them
/// are finished.
pub open spec fn completed(
    frames: Seq<FrameView>,
    st: Progress,
    replies: Seq<LoweredView>,
) -> (Tree, Progress)
    recommends
        frames.len() > 0,
    decreases frames.len(),
{
    let top = frames.last();
    let (kids, between) = transformed_all(top.todo, st, replies);
    let (node, after) = rewritten(
        Tree { shape: top.shape, kids: top.done + kids },
        between,
        replies,
    );
    if frames.len() <= 1 {
        (node, after)
    } else {
        let below = frames[frames.len() - 2];
        completed(
            frames.take(frames.len() - 2).push(
                FrameView { done: below.done.push(node), ..below },
            ),
            after,
            replies,
        )
    }
}

/// Visiting the next child of the topmost node first.
proof fn lemma_descend(frames: Seq<FrameView>, st: Progress, replies: Seq<LoweredView>)
    requires
        frames.len() > 0,
        frames.last().todo.len() > 0,
    ensures
        completed(frames, st, replies) == completed(
            frames.drop_last().push(
                FrameView { todo: frames.last().todo.drop_first(), ..frames.last() },
            ).push(
                FrameView {
                    shape: frames.last().todo[0].shape,
                    done: Seq::empty(),
                    todo: frames.last().todo[0].kids,
                },
            ),
            st,
            replies,
        ),
{
    let top = frames.last();
    let kid = top.todo[0];
    let lowered = FrameView { todo: top.todo.drop_first(), ..top };
    let opened = FrameView { shape: kid.shape, done: Seq::<Tree>::empty(), todo: kid.kids };
    let deeper = frames.drop_last().push(lowered).push(opened);
    let (inner, mid) = transformed_all(kid.kids, st, replies);
    assert(Seq::<Tree>::empty() + inner =~= inner);
    let (node, between) = transformed(kid, st, replies);
    let resumed = FrameView { done: lowered.done.push(node), ..lowered };
    assert(deeper.last() == opened);
    assert(deeper[deeper.len() - 2] == lowered);
    assert(deeper.take(deeper.len() - 2) =~= frames.drop_last());
    let again = frames.drop_last().push(resumed);
    assert(completed(deeper, st, replies) == completed(again, between, replies));
    let (rest, after) = transformed_all(top.todo.drop_first(), between, replies);
    assert(top.done.push(node) + rest =~= top.done + (seq![node] + rest));
    assert(again.last() == resumed);
    if frames.len() > 1 {
        assert(again.take(again.len() - 2) =~= frames.take(frames.len() - 2));
        assert(again[again.len() - 2] == frames[frames.len() - 2]);
    }
}

/// `all` begins with `some`.
pub open spec fn extends(all: Seq<LoweredView>, some: Seq<LoweredView>) -> bool {
    &&& some.len() <= all.len()
    &&& forall|i: int| 0 <= i < some.len() ==> #[trigger] all[i] == some[i]
}

/// `reply` is a reply that the lowering can give to `request`.
pub open spec fn answers<F: Fn(LoweringRequest) -> Lowered>(
    lower: F,
    request: RequestView,
    reply: LoweredView,
) -> bool {
    exists|q: LoweringRequest, a: Lowered|
        q@ == request && a@ == reply && #[trigger] call_ensures(lower, (q,), a)
}

/// The lowering has given the replies to the requests, one to each.
pub open spec fn answers_all<F: Fn(LoweringRequest) -> Lowered>(
    lower: F,
    requests: Seq<RequestView>,
    replies: Seq<LoweredView>,
) -> bool {
    &&& requests.len() == replies.len()
    &&& forall|i: int| 0 <= i < replies.len() ==> #[trigger] answers(lower, requests[i], replies[i])
}

/// The lowering takes any request.
pub open spec fn serves<F: Fn(LoweringRequest) -> Lowered>(lower: F) -> bool {
    forall|q: LoweringRequest| #[trigger] call_requires(lower, (q,))
}

/// The free identifiers, with a record of what the lowering was asked and said.
struct Counters {
    next_local_id: LocalId,
    next_func_id: FuncId,
    asked: Ghost<Seq<RequestView>>,
    replies: Ghost<Seq<LoweredView>>,
}

impl Counters {
    spec fn progress(self) -> Progress {
        Progress {
            next_local_id: self.next_local_id,
            next_func_id: self.next_func_id,
            asked: self.asked@,
        }
    }

    spec fn sound<F: Fn(LoweringRequest) -> Lowered>(self, lower: F) -> bool {
        &&& serves(lower)
        &&& answers_all(lower, self.asked@, self.replies@)
    }

    /// Asks the lowering for the function.
    fn ask<F: Fn(LoweringRequest) -> Lowered>(
        &mut self,
        request: LoweringRequest,
        lower: &F,
    ) -> (function: Function)
        requires
            old(self).sound(*lower),
        ensures
            final(self).sound(*lower),
            final(self).replies@.len() == old(self).replies@.len() + 1,
            final(self).replies@.drop_last() == old(self).replies@,
            final(self).replies@.last() == (LoweredView {
                function: function@,
                next_local_id: final(self).next_local_id,
                next_func_id: final(self).next_func_id,
            }),
            final(self).asked@ == old(self).asked@.push(request@),
    {
        let ghost before = *self;
        let reply = lower(request);
        self.asked = Ghost(self.asked@.push(request@));
        self.replies = Ghost(self.replies@.push(reply@));
        self.next_local_id = reply.next_local_id;
        self.next_func_id = reply.next_func_id;
        proof {
            assert(self.replies@.drop_last() =~= before.replies@);
            assert forall|i: int| 0 <= i < self.replies@.len() implies #[trigger] answers(
                *lower,
                self.asked@[i],
                self.replies@[i],
            ) by {
                if i < before.replies@.len() {
                    assert(answers(*lower, before.asked@[i], before.replies@[i]));
                } else {
                    assert(call_ensures(*lower, (request,), reply));
                }
            }
        }
        reply.function
    }
}

fn copy_params(list: &[Param]) -> (copy: Vec<Param>)
    ensures
        copy@ == list@,
{
    let mut copy: Vec<Param> = Vec::new();
    let mut i: usize = 0;
    while i < list.len()
        invariant
            i <= list@.len(),
            copy@ == list@.take(i as int),
        decreases list.len() - i,
    {
        copy.push(list[i]);
        i += 1;
        assert(copy@ =~= list@.take(i as int));
    }
    assert(list@.take(i as int) =~= list@);
    copy
}

fn copy_locals(list: &[LocalId]) -> (copy: Vec<LocalId>)
    ensures
        copy@ == list@,
{
    let mut copy: Vec<LocalId> = Vec::new();
    let mut i: usize = 0;
    while i < list.len()
        invariant
            i <= list@.len(),
            copy@ == list@.take(i as int),
        decreases list.len() - i,
    {
        copy.push(list[i]);
        i += 1;
        assert(copy@ =~= list@.take(i as int));
    }
    assert(list@.take(i as int) =~= list@);
    copy
}

fn copy_text(text: &Option<String>) -> (copy: Option<String>)
    ensures
        text_view(copy) == text_view(*text),
{
    match text {
        Some(text) => Some(text.clone()),
        None => None,
    }
}

/// Gives a node its own turn: see `rewritten`.
fn rewrite_node<F: Fn(LoweringRequest) -> Lowered>(
    node: Node,
    counters: &mut Counters,
    lower: &F,
) -> (out: Node)
    requires
        old(counters).sound(*lower),
    ensures
        final(counters).sound(*lower),
        extends(final(counters).replies@, old(counters).replies@),
        out.sort() == node.sort(),
        forall|all: Seq<LoweredView>| #[trigger]
            extends(all, final(counters).replies@) ==> rewritten(
                node.tree(),
                old(counters).progress(),
                all,
            ) == (out.tree(), final(counters).progress()),
{
    let ghost tree = node.tree();
    let ghost before = *counters;
    match node {
        Node::Expr(Expr::Closure { head, body, operands }) => {
            if head.is_generator {
                let mut head = head;
                let ghost first = head@;
                let synth_id = counters.next_func_id;
                let function = Function {
                    id: synth_id,
                    name: "__gen_closure_body".to_owned(),
                    params: copy_params(head.params.as_slice()),
                    body,
                    is_strict: head.is_strict,
                    is_async: head.is_async,
                    is_generator: true,
                    is_exported: false,
                    captures: Vec::new(),
                    was_plain_async: false,
                    was_unrolled: false,
                };
                let extra = ExtraCaptures {
                    captures: copy_locals(head.captures.as_slice()),
                    mutable_captures: copy_locals(head.mutable_captures.as_slice()),
                    captures_this: head.captures_this,
                    enclosing_class: copy_text(&head.enclosing_class),
                };
                let request = LoweringRequest {
                    function,
                    next_local_id: counters.next_local_id,
                    next_func_id: synth_id.wrapping_add(1),
                    extra: Some(extra),
                };
                let lowered = counters.ask(request, lower);
                head.is_generator = false;
                head.is_async = false;
                let out = Node::Expr(Expr::Closure { head, body: lowered.body, operands });
                proof {
                    lemma_stmt_trees(body@);
                    lemma_stmt_trees(lowered.body@);
                    assert(tree.kids.take(body@.len() as int) =~= stmt_trees(body@));
                    assert(request@ =~= closure_request(
                        first,
                        stmt_trees(body@),
                        before.progress(),
                    ));
                    assert(out.tree().kids =~= lowered@.body + tree.kids.skip(body@.len() as int));
                    assert(extends(counters.replies@, before.replies@)) by {
                        assert(counters.replies@.drop_last() =~= before.replies@);
                        assert forall|i: int|
                            0 <= i < before.replies@.len() implies
                            #[trigger] counters.replies@[i] == before.replies@[i] by {
                            assert(counters.replies@.drop_last()[i] == counters.replies@[i]);
                        }
                    }
                    assert forall|all: Seq<LoweredView>| #[trigger]
                        extends(all, counters.replies@) implies rewritten(
                        tree,
                        before.progress(),
                        all,
                    ) == (out.tree(), counters.progress()) by {
                        assert(all[before.replies@.len() as int] == counters.replies@.last());
                    }
                }
                out
            } else {
                Node::Expr(Expr::Closure { head, body, operands })
            }
        },
        _ => node,
    }
}

/// How much work there is in visiting a tree.
spec fn weight(t: Tree) -> nat
    decreases t,
{
    2 + weight_all(t.kids)
}

spec fn weight_all(ts: Seq<Tree>) -> nat
    decreases ts,
{
    if ts.len() == 0 {
        0
    } else {
        weight(ts[0]) + weight_all(ts.drop_first())
    }
}

spec fn stack_weight(frames: Seq<FrameView>) -> nat
    decreases frames.len(),
{
    if frames.len() == 0 {
        0
    } else {
        stack_weight(frames.drop_last()) + 1 + weight_all(frames.last().todo)
    }
}

/// The half-visited nodes; a child of every one but the topmost is being visited.
spec fn views(stack: Seq<Frame>) -> Seq<FrameView> {
    Seq::new(
        stack.len(),
        |i: int|
            stack[i].view_with(
                if i == stack.len() - 1 {
                    0
                } else {
                    1
                },
            ),
    )
}

spec fn nested(stack: Seq<Frame>) -> bool {
    &&& stack.len() > 0
    &&& stack.last().resting()
    &&& forall|i: int| 0 <= i < stack.len() - 1 ==> #[trigger] stack[i].waiting()
    &&& forall|i: int, j: int|
        0 <= i && j == i + 1 && j < stack.len() ==> (#[trigger] stack[i]).slot.sort() == (
        #[trigger] stack[j]).shell.sort()
}

proof fn lemma_weight_push(frames: Seq<FrameView>, top: FrameView)
    ensures
        stack_weight(frames.push(top)) == stack_weight(frames) + 1 + weight_all(top.todo),
{
    assert(frames.push(top).drop_last() =~= frames);
}

/// A child of the topmost node is opened.
proof fn lemma_opened(held: Seq<Frame>, top: Frame, child: Frame)
    requires
        nested(held),
        held.last().view_with(0).todo.len() > 0,
        top.shell == held.last().shell,
        top.waiting(),
        top.view_with(1) == (FrameView {
            todo: held.last().view_with(0).todo.drop_first(),
            ..held.last().view_with(0)
        }),
        child.resting(),
        child.shell.sort() == top.slot.sort(),
        child.view_with(0) == (FrameView {
            shape: held.last().view_with(0).todo[0].shape,
            done: Seq::<Tree>::empty(),
            todo: held.last().view_with(0).todo[0].kids,
        }),
    ensures
        nested(held.drop_last().push(top).push(child)),
        held.drop_last().push(top).push(child)[0].shell == held[0].shell,
        stack_weight(views(held.drop_last().push(top).push(child))) < stack_weight(views(held)),
        forall|st: Progress, all: Seq<LoweredView>|
            #![trigger completed(views(held.drop_last().push(top).push(child)), st, all)]
            completed(views(held.drop_last().push(top).push(child)), st, all) == completed(
                views(held),
                st,
                all,
            ),
{
    let now = held.drop_last().push(top).push(child);
    let seen = views(held);
    let lowered = FrameView { todo: seen.last().todo.drop_first(), ..seen.last() };
    let opened = FrameView {
        shape: seen.last().todo[0].shape,
        done: Seq::<Tree>::empty(),
        todo: seen.last().todo[0].kids,
    };
    assert(views(now) =~= seen.drop_last().push(lowered).push(opened));
    lemma_weight_push(seen.drop_last().push(lowered), opened);
    lemma_weight_push(seen.drop_last(), lowered);
    assert(weight(seen.last().todo[0]) == 2 + weight_all(opened.todo));
    assert forall|st: Progress, all: Seq<LoweredView>|
        #![trigger completed(views(now), st, all)]
        completed(views(now), st, all) == completed(views(held), st, all) by {
        lemma_descend(seen, st, all);
    }
}

/// The topmost node is finished and put back below its parent.
proof fn lemma_closed(held: Seq<Frame>, below: Frame, out: Tree)
    requires
        nested(held),
        held.len() > 1,
        held.last().view_with(0).todo.len() == 0,
        below.shell == held[held.len() - 2].shell,
        below.resting(),
        below.view_with(0) == (FrameView {
            done: held[held.len() - 2].view_with(1).done.push(out),
            ..held[held.len() - 2].view_with(1)
        }),
    ensures
        nested(held.take(held.len() - 2).push(below)),
        held.take(held.len() - 2).push(below)[0].shell == held[0].shell,
        stack_weight(views(held.take(held.len() - 2).push(below))) < stack_weight(views(held)),
        forall|st: Progress, after: Progress, all: Seq<LoweredView>|
            #![trigger
                completed(views(held), st, all),
                completed(views(held.take(held.len() - 2).push(below)), after, all)]
            rewritten(
                Tree {
                    shape: held.last().view_with(0).shape,
                    kids: held.last().view_with(0).done,
                },
                st,
                all,
            ) == (out, after) ==> completed(views(held), st, all) == completed(
                views(held.take(held.len() - 2).push(below)),
                after,
                all,
            ),
{
    let now = held.take(held.len() - 2).push(below);
    let seen = views(held);
    let resumed = FrameView {
        done: seen[seen.len() - 2].done.push(out),
        ..seen[seen.len() - 2]
    };
    assert(views(now) =~= seen.take(seen.len() - 2).push(resumed));
    lemma_weight_push(seen.take(seen.len() - 2), resumed);
    lemma_weight_push(seen.take(seen.len() - 2), seen[seen.len() - 2]);
    assert(seen.take(seen.len() - 2).push(seen[seen.len() - 2]) =~= seen.drop_last());
    assert(seen.last().done + Seq::<Tree>::empty() =~= seen.last().done);
    assert(seen.last() == held.last().view_with(0));
}

/// Lowers the generator closures below and in a node: see `transformed`.
fn transform_node<F: Fn(LoweringRequest) -> Lowered>(
    node: Node,
    counters: &mut Counters,
    lower: &F,
) -> (out: Node)
    requires
        old(counters).sound(*lower),
    ensures
        final(counters).sound(*lower),
        extends(final(counters).replies@, old(counters).replies@),
        out.sort() == node.sort(),
        forall|all: Seq<LoweredView>| #[trigger]
            extends(all, final(counters).replies@) ==> transformed(
                node.tree(),
                old(counters).progress(),
                all,
            ) == (out.tree(), final(counters).progress()),
{
    let ghost tree = node.tree();
    let ghost before = *counters;
    let mut stack: Vec<Frame> = Vec::new();
    let mut top = Frame::open(node);
    proof {
        assert(views(stack@.push(top)) =~= seq![
            FrameView { shape: tree.shape, done: Seq::empty(), todo: tree.kids },
        ]);
        assert forall|all: Seq<LoweredView>| #[trigger]
            extends(all, counters.replies@) implies completed(
            views(stack@.push(top)),
            counters.progress(),
            all,
        ) == transformed(tree, before.progress(), all) by {
            let (kids, st) = transformed_all(tree.kids, before.progress(), all);
            assert(Seq::<Tree>::empty() + kids =~= kids);
        }
    }
    loop
        invariant
            before == *old(counters),
            tree == node.tree(),
            counters.sound(*lower),
            extends(counters.replies@, before.replies@),
            nested(stack@.push(top)),
            stack@.push(top)[0].shell.sort() == node.sort(),
            forall|all: Seq<LoweredView>| #[trigger]
                extends(all, counters.replies@) ==> completed(
                    views(stack@.push(top)),
                    counters.progress(),
                    all,
                ) == transformed(tree, before.progress(), all),
        decreases stack_weight(views(stack@.push(top))),
    {
        let ghost held = stack@.push(top);
        assert(held.last() == top);
        assert(held.drop_last() =~= stack@);
        match top.next_kid() {
            Some(kid) => {
                let child = Frame::open(kid);
                proof {
                    lemma_opened(held, top, child);
                }
                let ghost now = held.drop_last().push(top).push(child);
                stack.push(top);
                top = child;
                assert(stack@.push(top) =~= now);
            },
            None => {
                let ghost known = counters.replies@;
                let ghost st = counters.progress();
                let joined = top.close();
                let out = rewrite_node(joined, counters, lower);
                match stack.pop() {
                    None => {
                        proof {
                            let last = views(held).last();
                            assert(last.done + Seq::<Tree>::empty() =~= last.done);
                            assert(last == held.last().view_with(0));
                            assert forall|all: Seq<LoweredView>| #[trigger]
                                extends(all, counters.replies@) implies transformed(
                                tree,
                                before.progress(),
                                all,
                            ) == (out.tree(), counters.progress()) by {
                                assert(extends(all, known));
                            }
                        }
                        return out;
                    },
                    Some(waiting) => {
                        let mut below = waiting;
                        assert(held[held.len() - 2] == waiting);
                        below.accept(out);
                        proof {
                            lemma_closed(held, below, out.tree());
                            let now = held.take(held.len() - 2).push(below);
                            assert(stack@.push(below) =~= now);
                            assert forall|all: Seq<LoweredView>| #[trigger]
                                extends(all, counters.replies@) implies completed(
                                views(now),
                                counters.progress(),
                                all,
                            ) == transformed(tree, before.progress(), all) by {
                                assert(extends(all, known));
                                assert(completed(views(held), st, all) == transformed(
                                    tree,
                                    before.progress(),
                                    all,
                                ));
                            }
                        }
                        top = below;
                    },
                }
            },
        }
    }
}

proof fn lemma_first_stmt(s: Seq<Stmt>)
    requires
        s.len() > 0,
    ensures
        stmt_trees(s).len() > 0,
        stmt_trees(s)[0] == stmt_tree(s[0]),
        stmt_trees(s).drop_first() == stmt_trees(s.drop_first()),
{
    lemma_stmt_trees(s);
    lemma_stmt_trees(s.drop_first());
    assert(stmt_trees(s).drop_first() =~= stmt_trees(s.drop_first()));
}

/// Lowers the generator closures in statements: see `transformed_all`.
fn transform_block<F: Fn(LoweringRequest) -> Lowered>(
    stmts: Vec<Stmt>,
    counters: &mut Counters,
    lower: &F,
) -> (out: Vec<Stmt>)
    requires
        old(counters).sound(*lower),
    ensures
        final(counters).sound(*lower),
        extends(final(counters).replies@, old(counters).replies@),
        forall|all: Seq<LoweredView>| #[trigger]
            extends(all, final(counters).replies@) ==> transformed_all(
                stmt_trees(stmts@),
                old(counters).progress(),
                all,
            ) == (stmt_trees(out@), final(counters).progress()),
{
    let ghost before = *counters;
    let mut rest = reversed(stmts);
    let mut out: Vec<Stmt> = Vec::new();
    proof {
        assert(rest@.reverse() =~= stmts@);
        assert forall|all: Seq<LoweredView>| #[trigger]
            extends(all, counters.replies@) implies ({
            let (tail, st) = transformed_all(
                stmt_trees(rest@.reverse()),
                counters.progress(),
                all,
            );
            transformed_all(stmt_trees(stmts@), before.progress(), all) == (
                stmt_trees(out@) + tail,
                st,
            )
        }) by {
            let (tail, st) = transformed_all(stmt_trees(stmts@), before.progress(), all);
            assert(stmt_trees(out@) + tail =~= tail);
        }
    }
    loop
        invariant
            before == *old(counters),
            counters.sound(*lower),
            extends(counters.replies@, before.replies@),
            forall|all: Seq<LoweredView>| #[trigger]
                extends(all, counters.replies@) ==> ({
                    let (tail, st) = transformed_all(
                        stmt_trees(rest@.reverse()),
                        counters.progress(),
                        all,
                    );
                    transformed_all(stmt_trees(stmts@), before.progress(), all) == (
                        stmt_trees(out@) + tail,
                        st,
                    )
                }),
        decreases rest@.len(),
    {
        let ghost left = rest@;
        let ghost known = counters.replies@;
        let ghost now = counters.progress();
        let ghost had = stmt_trees(out@);
        match rest.pop() {
            None => {
                proof {
                    assert(left.reverse() =~= Seq::<Stmt>::empty());
                    assert forall|all: Seq<LoweredView>| #[trigger]
                        extends(all, counters.replies@) implies transformed_all(
                        stmt_trees(stmts@),
                        before.progress(),
                        all,
                    ) == (stmt_trees(out@), counters.progress()) by {
                        assert(had + Seq::<Tree>::empty() =~= had);
                    }
                }
                return out;
            },
            Some(stmt) => {
                proof {
                    lemma_first_stmt(left.reverse());
                    assert(left.reverse().drop_first() =~= rest@.reverse());
                    assert(left.reverse()[0] == stmt);
                }
                match transform_node(Node::Stmt(stmt), counters, lower) {
                    Node::Stmt(s) => {
                        let ghost listed = out@;
                        out.push(s);
                        proof {
                            assert(out@.drop_last() =~= listed);
                            assert(stmt_trees(out@) =~= had.push(stmt_tree(s)));
                            assert forall|all: Seq<LoweredView>| #[trigger]
                                extends(all, counters.replies@) implies ({
                                let (tail, st) = transformed_all(
                                    stmt_trees(rest@.reverse()),
                                    counters.progress(),
                                    all,
                                );
                                transformed_all(stmt_trees(stmts@), before.progress(), all) == (
                                    stmt_trees(out@) + tail,
                                    st,
                                )
                            }) by {
                                assert(extends(all, known));
                                let (tail, st) = transformed_all(
                                    stmt_trees(rest@.reverse()),
                                    counters.progress(),
                                    all,
                                );
                                assert(had + (seq![stmt_tree(s)] + tail) =~= stmt_trees(out@)
                                    + tail);
                            }
                        }
                    },
                    _ => {},
                }
            },
        }
    }
}

/// The pass at its start.
pub open spec fn begin(next_local_id: LocalId, next_func_id: FuncId) -> Progress {
    Progress { next_local_id, next_func_id, asked: Seq::empty() }
}

/// The statements become others, and the counters are left, as some replies of the
/// lowering to what it is asked make them.
pub open spec fn lowers_statements<F: Fn(LoweringRequest) -> Lowered>(
    lower: F,
    stmts: Seq<Tree>,
    start: Progress,
    out: Seq<Tree>,
    next_local_id: LocalId,
    next_func_id: FuncId,
) -> bool {
    exists|asked: Seq<RequestView>, replies: Seq<LoweredView>| #[trigger]
        answers_all(lower, asked, replies) && transformed_all(stmts, start, replies) == (
            out,
            Progress { next_local_id, next_func_id, asked },
        )
}

/// Lowers every generator closure in the statements, closures inside a closure
/// before it.
pub fn transform_generator_closures_in_stmts<F: Fn(LoweringRequest) -> Lowered>(
    stmts: Vec<Stmt>,
    next_local_id: &mut LocalId,
    next_func_id: &mut FuncId,
    lower: &F,
) -> (out: Vec<Stmt>)
    requires
        serves(*lower),
    ensures
        lowers_statements(
            *lower,
            stmt_trees(stmts@),
            begin(*old(next_local_id), *old(next_func_id)),
            stmt_trees(out@),
            *final(next_local_id),
            *final(next_func_id),
        ),
{
    let mut counters = Counters {
        next_local_id: *next_local_id,
        next_func_id: *next_func_id,
        asked: Ghost(Seq::empty()),
        replies: Ghost(Seq::empty()),
    };
    let out = transform_block(stmts, &mut counters, lower);
    *next_local_id = counters.next_local_id;
    *next_func_id = counters.next_func_id;
    proof {
        assert(extends(counters.replies@, counters.replies@));
        assert(answers_all(*lower, counters.asked@, counters.replies@));
    }
    out
}

/// What the lowering is asked for the body of an async closure.
pub open spec fn async_request(
    body: Seq<Tree>,
    params: Seq<Param>,
    extra: ExtraCapturesView,
    is_strict: bool,
    next_local_id: LocalId,
    next_func_id: FuncId,
) -> RequestView {
    RequestView {
        function: FunctionView {
            id: next_func_id,
            name: "__async_closure_body"@,
            params,
            body,
            is_strict,
            is_async: false,
            is_generator: true,
            is_exported: false,
            captures: Seq::empty(),
            was_plain_async: true,
            was_unrolled: false,
        },
        next_local_id,
        next_func_id: following(next_func_id),
        extra: Some(extra),
    }
}

/// The lowering answers the request with a function of this body, and leaves the
/// counters so.
pub open spec fn lowers_body<F: Fn(LoweringRequest) -> Lowered>(
    lower: F,
    request: RequestView,
    body: Seq<Tree>,
    next_local_id: LocalId,
    next_func_id: FuncId,
) -> bool {
    exists|reply: LoweredView| #[trigger]
        answers(lower, request, reply) && body == reply.function.body && next_local_id
            == reply.next_local_id && next_func_id == reply.next_func_id
}

/// Lowers the body of a plain async closure whose awaits have become yields.
///
/// The caller marks the closure as no longer async and registers it as a step
/// closure.
pub fn transform_plain_async_closure_body<F: Fn(LoweringRequest) -> Lowered>(
    body: Vec<Stmt>,
    params: &[Param],
    outer_captures: &[LocalId],
    outer_mutable_captures: &[LocalId],
    outer_captures_this: bool,
    outer_enclosing_class: Option<String>,
    is_strict: bool,
    next_local_id: &mut LocalId,
    next_func_id: &mut FuncId,
    lower: &F,
) -> (out: Vec<Stmt>)
    requires
        serves(*lower),
    ensures
        lowers_body(
            *lower,
            async_request(
                stmt_trees(body@),
                params@,
                ExtraCapturesView {
                    captures: outer_captures@,
                    mutable_captures: outer_mutable_captures@,
                    captures_this: outer_captures_this,
                    enclosing_class: text_view(outer_enclosing_class),
                },
                is_strict,
                *old(next_local_id),
                *old(next_func_id),
            ),
            stmt_trees(out@),
            *final(next_local_id),
            *final(next_func_id),
        ),
{
    let synth_func_id = *next_func_id;
    let function = Function {
        id: synth_func_id,
        name: "__async_closure_body".to_owned(),
        params: copy_params(params),
        body,
        is_strict,
        is_async: false,
        is_generator: true,
        is_exported: false,
        captures: Vec::new(),
        was_plain_async: true,
        was_unrolled: false,
    };
    let extra = ExtraCaptures {
        captures: copy_locals(outer_captures),
        mutable_captures: copy_locals(outer_mutable_captures),
        captures_this: outer_captures_this,
        enclosing_class: outer_enclosing_class,
    };
    let request = LoweringRequest {
        function,
        next_local_id: *next_local_id,
        next_func_id: synth_func_id.wrapping_add(1),
        extra: Some(extra),
    };
    let reply = lower(request);
    proof {
        assert(request@ =~= async_request(
            stmt_trees(body@),
            params@,
            ExtraCapturesView {
                captures: outer_captures@,
                mutable_captures: outer_mutable_captures@,
                captures_this: outer_captures_this,
                enclosing_class: text_view(outer_enclosing_class),
            },
            is_strict,
            *old(next_local_id),
            *old(next_func_id),
        ));
        assert(answers(*lower, request@, reply@));
    }
    *next_local_id = reply.next_local_id;
    *next_func_id = reply.next_func_id;
    reply.function.body
}

/// What the pass makes of one part of the module, and how far it is then.
pub type StepFn<V> = spec_fn(V, Progress, Seq<LoweredView>) -> (V, Progress);

/// The parts after a step was taken for each, one after the other.
pub open spec fn in_turn<V>(
    step: StepFn<V>,
    list: Seq<V>,
    st: Progress,
    replies: Seq<LoweredView>,
) -> (Seq<V>, Progress)
    decreases list.len(),
{
    if list.len() == 0 {
        (Seq::empty(), st)
    } else {
        let (before, between) = in_turn(step, list.drop_last(), st, replies);
        let (last, after) = step(list.last(), between, replies);
        (before.push(last), after)
    }
}

/// A generator function becomes the function that the next reply holds.
pub open spec fn lowered_function(
    f: FunctionView,
    st: Progress,
    replies: Seq<LoweredView>,
) -> (FunctionView, Progress) {
    if f.is_generator {
        let reply = replies[st.asked.len() as int];
        (
            reply.function,
            Progress {
                next_local_id: reply.next_local_id,
                next_func_id: reply.next_func_id,
                asked: st.asked.push(
                    RequestView {
                        function: f,
                        next_local_id: st.next_local_id,
                        next_func_id: st.next_func_id,
                        extra: None,
                    },
                ),
            },
        )
    } else {
        (f, st)
    }
}

pub open spec fn lowering() -> StepFn<FunctionView> {
    |f: FunctionView, st: Progress, replies: Seq<LoweredView>| lowered_function(f, st, replies)
}

/// The function with the generator closures in its body lowered.
pub open spec fn walked_function(
    f: FunctionView,
    st: Progress,
    replies: Seq<LoweredView>,
) -> (FunctionView, Progress) {
    let (body, after) = transformed_all(f.body, st, replies);
    (FunctionView { body, ..f }, after)
}

pub open spec fn walking() -> StepFn<FunctionView> {
    |f: FunctionView, st: Progress, replies: Seq<LoweredView>| walked_function(f, st, replies)
}

/// A member of a class, lowered where it is a generator, and then with the
/// generator closures in its body lowered.
pub open spec fn lowered_member(
    f: FunctionView,
    st: Progress,
    replies: Seq<LoweredView>,
) -> (FunctionView, Progress) {
    let (lowered, between) = lowered_function(f, st, replies);
    walked_function(lowered, between, replies)
}

pub open spec fn lowering_members() -> StepFn<FunctionView> {
    |f: FunctionView, st: Progress, replies: Seq<LoweredView>| lowered_member(f, st, replies)
}

pub open spec fn lowered_accessor(
    a: AccessorView,
    st: Progress,
    replies: Seq<LoweredView>,
) -> (AccessorView, Progress) {
    let (function, after) = lowered_member(a.function, st, replies);
    (AccessorView { function, ..a }, after)
}

pub open spec fn lowering_accessors() -> StepFn<AccessorView> {
    |a: AccessorView, st: Progress, replies: Seq<LoweredView>| lowered_accessor(a, st, replies)
}

/// The class with its constructor, its methods, its static methods, its getters
/// and its setters lowered, in this order.
pub open spec fn lowered_class(
    c: ClassView,
    st: Progress,
    replies: Seq<LoweredView>,
) -> (ClassView, Progress) {
    let (constructor, st1) = match c.constructor {
        Some(f) => {
            let (f, after) = lowered_member(f, st, replies);
            (Some(f), after)
        },
        None => (None, st),
    };
    let (methods, st2) = in_turn(lowering_members(), c.methods, st1, replies);
    let (static_methods, st3) = in_turn(lowering_members(), c.static_methods, st2, replies);
    let (getters, st4) = in_turn(lowering_accessors(), c.getters, st3, replies);
    let (setters, st5) = in_turn(lowering_accessors(), c.setters, st4, replies);
    (ClassView { constructor, methods, static_methods, getters, setters }, st5)
}

pub open spec fn lowering_classes() -> StepFn<ClassView> {
    |c: ClassView, st: Progress, replies: Seq<LoweredView>| lowered_class(c, st, replies)
}

/// The module after the pass: first the generator functions are lowered, then
/// the generator closures in the bodies of all functions, then those in the
/// statements at the top level, and last the members of the classes.
pub open spec fn transformed_module(
    m: ModuleView,
    st: Progress,
    replies: Seq<LoweredView>,
) -> (ModuleView, Progress) {
    let (lowered, st1) = in_turn(lowering(), m.functions, st, replies);
    let (functions, st2) = in_turn(walking(), lowered, st1, replies);
    let (init, st3) = transformed_all(m.init, st2, replies);
    let (classes, st4) = in_turn(lowering_classes(), m.classes, st3, replies);
    (ModuleView { functions, init, classes }, st4)
}

/// A step of the pass as it is carried out.
trait Step {
    type Item: View;

    spec fn model() -> StepFn<<Self::Item as View>::V>;

    fn take<F: Fn(LoweringRequest) -> Lowered>(
        item: Self::Item,
        counters: &mut Counters,
        lower: &F,
    ) -> (out: Self::Item)
        requires
            old(counters).sound(*lower),
        ensures
            final(counters).sound(*lower),
            extends(final(counters).replies@, old(counters).replies@),
            forall|all: Seq<LoweredView>| #[trigger]
                extends(all, final(counters).replies@) ==> Self::model()(
                    item@,
                    old(counters).progress(),
                    all,
                ) == (out@, final(counters).progress()),
    ;
}

/// Takes the step for every item of a list: see `in_turn`.
fn take_in_turn<S: Step, F: Fn(LoweringRequest) -> Lowered>(
    list: Vec<S::Item>,
    counters: &mut Counters,
    lower: &F,
) -> (out: Vec<S::Item>)
    requires
        old(counters).sound(*lower),
    ensures
        final(counters).sound(*lower),
        extends(final(counters).replies@, old(counters).replies@),
        forall|all: Seq<LoweredView>| #[trigger]
            extends(all, final(counters).replies@) ==> in_turn(
                S::model(),
                views_of(list@),
                old(counters).progress(),
                all,
            ) == (views_of(out@), final(counters).progress()),
{
    let ghost before = *counters;
    let mut rest = reversed(list);
    let mut out: Vec<S::Item> = Vec::new();
    assert(views_of(list@.take(0)) =~= Seq::empty());
    assert(views_of(out@) =~= Seq::empty());
    loop
        invariant
            before == *old(counters),
            counters.sound(*lower),
            extends(counters.replies@, before.replies@),
            out@.len() + rest@.len() == list@.len(),
            rest@ == list@.skip(out@.len() as int).reverse(),
            forall|all: Seq<LoweredView>| #[trigger]
                extends(all, counters.replies@) ==> in_turn(
                    S::model(),
                    views_of(list@.take(out@.len() as int)),
                    before.progress(),
                    all,
                ) == (views_of(out@), counters.progress()),
        decreases rest@.len(),
    {
        let ghost known = counters.replies@;
        let ghost had = out@;
        match rest.pop() {
            None => {
                assert(list@.take(out@.len() as int) =~= list@);
                return out;
            },
            Some(item) => {
                let next = S::take(item, counters, lower);
                out.push(next);
                proof {
                    let n = had.len() as int;
                    assert(item == list@[n]);
                    assert(rest@ =~= list@.skip(out@.len() as int).reverse());
                    let seen = views_of(list@.take(n + 1));
                    assert(seen.drop_last() =~= views_of(list@.take(n)));
                    assert(seen.last() == item@);
                    assert(views_of(out@) =~= views_of(had).push(next@));
                    assert forall|all: Seq<LoweredView>| #[trigger]
                        extends(all, counters.replies@) implies in_turn(
                        S::model(),
                        views_of(list@.take(out@.len() as int)),
                        before.progress(),
                        all,
                    ) == (views_of(out@), counters.progress()) by {
                        assert(extends(all, known));
                    }
                }
            },
        }
    }
}

struct LowerFunction;

impl Step for LowerFunction {
    type Item = Function;

    spec fn model() -> StepFn<FunctionView> {
        lowering()
    }

    fn take<F: Fn(LoweringRequest) -> Lowered>(
        item: Function,
        counters: &mut Counters,
        lower: &F,
    ) -> (out: Function) {
        let ghost before = *counters;
        if item.is_generator {
            let request = LoweringRequest {
                function: item,
                next_local_id: counters.next_local_id,
                next_func_id: counters.next_func_id,
                extra: None,
            };
            let out = counters.ask(request, lower);
            proof {
                assert forall|i: int|
                    0 <= i < before.replies@.len() implies
                    #[trigger] counters.replies@[i] == before.replies@[i] by {
                    assert(counters.replies@.drop_last()[i] == counters.replies@[i]);
                }
                assert forall|all: Seq<LoweredView>| #[trigger]
                    extends(all, counters.replies@) implies lowered_function(
                    item@,
                    before.progress(),
                    all,
                ) == (out@, counters.progress()) by {
                    assert(all[before.replies@.len() as int] == counters.replies@.last());
                }
            }
            out
        } else {
            item
        }
    }
}

struct WalkFunction;

impl Step for WalkFunction {
    type Item = Function;

    spec fn model() -> StepFn<FunctionView> {
        walking()
    }

    fn take<F: Fn(LoweringRequest) -> Lowered>(
        item: Function,
        counters: &mut Counters,
        lower: &F,
    ) -> (out: Function) {
        let mut out = item;
        let mut body: Vec<Stmt> = Vec::new();
        std::mem::swap(&mut body, &mut out.body);
        out.body = transform_block(body, counters, lower);
        out
    }
}

struct LowerMember;

impl Step for LowerMember {
    type Item = Function;

    spec fn model() -> StepFn<FunctionView> {
        lowering_members()
    }

    fn take<F: Fn(LoweringRequest) -> Lowered>(
        item: Function,
        counters: &mut Counters,
        lower: &F,
    ) -> (out: Function) {
        let lowered = LowerFunction::take(item, counters, lower);
        let ghost known = counters.replies@;
        let out = WalkFunction::take(lowered, counters, lower);
        proof {
            assert forall|all: Seq<LoweredView>| #[trigger]
                extends(all, counters.replies@) implies extends(all, known) by {}
        }
        out
    }
}

struct LowerAccessor;

impl Step for LowerAccessor {
    type Item = Accessor;

    spec fn model() -> StepFn<AccessorView> {
        lowering_accessors()
    }

    fn take<F: Fn(LoweringRequest) -> Lowered>(
        item: Accessor,
        counters: &mut Counters,
        lower: &F,
    ) -> (out: Accessor) {
        Accessor { name: item.name, function: LowerMember::take(item.function, counters, lower) }
    }
}

struct LowerClass;

impl Step for LowerClass {
    type Item = Class;

    spec fn model() -> StepFn<ClassView> {
        lowering_classes()
    }

    fn take<F: Fn(LoweringRequest) -> Lowered>(
        item: Class,
        counters: &mut Counters,
        lower: &F,
    ) -> (out: Class) {
        let ghost before = *counters;
        let constructor = match item.constructor {
            Some(f) => Some(LowerMember::take(f, counters, lower)),
            None => None,
        };
        let ghost r1 = counters.replies@;
        let methods = take_in_turn::<LowerMember, F>(item.methods, counters, lower);
        let ghost r2 = counters.replies@;
        let static_methods = take_in_turn::<LowerMember, F>(item.static_methods, counters, lower);
        let ghost r3 = counters.replies@;
        let getters = take_in_turn::<LowerAccessor, F>(item.getters, counters, lower);
        let ghost r4 = counters.replies@;
        let setters = take_in_turn::<LowerAccessor, F>(item.setters, counters, lower);
        let out = Class { constructor, methods, static_methods, getters, setters };
        proof {
            assert forall|all: Seq<LoweredView>| #[trigger]
                extends(all, counters.replies@) implies lowered_class(
                item@,
                before.progress(),
                all,
            ) == (out@, counters.progress()) by {
                assert(extends(all, r4));
                assert(extends(all, r3));
                assert(extends(all, r2));
                assert(extends(all, r1));
            }
        }
        out
    }
}

/// The module becomes another as some replies of the lowering to what it is asked
/// make it.
pub open spec fn lowers_module<F: Fn(LoweringRequest) -> Lowered>(
    lower: F,
    module: ModuleView,
    start: Progress,
    out: ModuleView,
) -> bool {
    exists|after: Progress, replies: Seq<LoweredView>| #[trigger]
        answers_all(lower, after.asked, replies) && transformed_module(module, start, replies) == (
            out,
            after,
        )
}

/// Turns every generator of the module into a state machine: the generators
/// among its functions and the members of its classes, and the generator
/// closures in the bodies of these and at the top level.
///
/// `max_local_id` and `max_func_id` are the largest identifiers in use in it.
pub fn transform_generators<F: Fn(LoweringRequest) -> Lowered>(
    module: &mut Module,
    max_local_id: LocalId,
    max_func_id: FuncId,
    lower: &F,
)
    requires
        serves(*lower),
    ensures
        lowers_module(
            *lower,
            old(module)@,
            begin(following(max_local_id), following(max_func_id)),
            final(module)@,
        ),
{
    let ghost whole = module@;
    let mut counters = Counters {
        next_local_id: max_local_id.wrapping_add(1),
        next_func_id: max_func_id.wrapping_add(1),
        asked: Ghost(Seq::empty()),
        replies: Ghost(Seq::empty()),
    };
    let ghost start = counters.progress();
    let mut functions: Vec<Function> = Vec::new();
    std::mem::swap(&mut functions, &mut module.functions);
    let functions = take_in_turn::<LowerFunction, F>(functions, &mut counters, lower);
    let ghost r1 = counters.replies@;
    module.functions = take_in_turn::<WalkFunction, F>(functions, &mut counters, lower);
    let ghost r2 = counters.replies@;
    let mut init: Vec<Stmt> = Vec::new();
    std::mem::swap(&mut init, &mut module.init);
    module.init = transform_block(init, &mut counters, lower);
    let ghost r3 = counters.replies@;
    let mut classes: Vec<Class> = Vec::new();
    std::mem::swap(&mut classes, &mut module.classes);
    module.classes = take_in_turn::<LowerClass, F>(classes, &mut counters, lower);
    proof {
        let replies = counters.replies@;
        assert(extends(replies, replies));
        assert(extends(replies, r3));
        assert(extends(replies, r2));
        assert(extends(replies, r1));
        assert(answers_all(*lower, counters.progress().asked, replies));
        assert(transformed_module(whole, start, replies) == (module@, counters.progress()));
    }
}

} // verus!
