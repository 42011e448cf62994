//! The compiled, runtime form of a timeline script.
//!
//! A runtime node carries the immutable data of its script node together
//! with the interpreter's progress through it: a child cursor for a
//! sequence, an iteration counter for a loop, elapsed ticks for a timed
//! leaf, a fired flag for an instantaneous leaf.  Durations have already
//! been converted to whole ticks.

use vstd::prelude::*;

use crate::geom::Point;
use crate::script::ast_views;
use crate::script::ast_wf;
use crate::script::talk_ticks_m;
use crate::script::ticks_from_millis;
use crate::script::ticks_from_millis_m;
use crate::script::Ast;
use crate::script::AstM;
use crate::script::TalkPos;
use crate::script::TalkStyle;
use crate::script::MAX_LOOP_COUNT;
use crate::script::MAX_TALK_LEN;
use crate::script::MAX_TICKS;
use crate::script::TALK_BASE_TICKS;
use crate::script::TALK_TICKS_PER_CHAR;
use crate::stage::STAGE_BOUND;
use vstd::string::StrSliceExecFns;

verus! {

/// One runtime node of a compiled scene.
#[derive(Debug)]
pub enum Node {
    /// Children in order, and the cursor: the index of the active child.
    Sequence { children: Vec<Node>, idx: usize },
    /// All children advance each tick until each has completed.
    Parallel { children: Vec<Node> },
    /// The body runs `count` times; `iters` of them have completed.
    Loop { count: u32, iters: u32, body: Box<Node> },
    Wait { total: u32, elapsed: u32 },
    SlideTo {
        actor: i32,
        dest: Point,
        accel: bool,
        decel: bool,
        total: u32,
        elapsed: u32,
        start: Option<Point>,
    },
    JumpTo { actor: i32, dest: Point, total: u32, elapsed: u32, start: Option<Point> },
    Shake { total: u32, elapsed: u32 },
    SetBackground { name: String, fired: bool },
    PlaceActor { actor: i32, sprite: String, frame: u32, pos: Point, fired: bool },
    RemoveActor { actor: i32, fired: bool },
    PlaySound { id: u32, fired: bool },
    Say {
        actor: i32,
        style: TalkStyle,
        place: TalkPos,
        text: String,
        total: u32,
        elapsed: u32,
    },
    Notify { channel: i32, value: i32, fired: bool },
}

/// The mathematical value of a runtime node.
pub enum NodeM {
    Sequence { children: Seq<NodeM>, idx: int },
    Parallel { children: Seq<NodeM> },
    Loop { count: int, iters: int, body: Box<NodeM> },
    Wait { total: int, elapsed: int },
    SlideTo {
        actor: i32,
        dest: Point,
        accel: bool,
        decel: bool,
        total: int,
        elapsed: int,
        start: Option<Point>,
    },
    JumpTo { actor: i32, dest: Point, total: int, elapsed: int, start: Option<Point> },
    Shake { total: int, elapsed: int },
    SetBackground { name: Seq<char>, fired: bool },
    PlaceActor { actor: i32, sprite: Seq<char>, frame: u32, pos: Point, fired: bool },
    RemoveActor { actor: i32, fired: bool },
    PlaySound { id: u32, fired: bool },
    Say {
        actor: i32,
        style: TalkStyle,
        place: TalkPos,
        text: Seq<char>,
        total: int,
        elapsed: int,
    },
    Notify { channel: i32, value: i32, fired: bool },
}

/// The view of a runtime node.
pub open spec fn node_view(n: Node) -> NodeM
    decreases n,
{
    match n {
        Node::Sequence { children, idx } => NodeM::Sequence {
            children: node_views(children@),
            idx: idx as int,
        },
        Node::Parallel { children } => NodeM::Parallel { children: node_views(children@) },
        Node::Loop { count, iters, body } => NodeM::Loop {
            count: count as int,
            iters: iters as int,
            body: Box::new(node_view(*body)),
        },
        Node::Wait { total, elapsed } => NodeM::Wait {
            total: total as int,
            elapsed: elapsed as int,
        },
        Node::SlideTo { actor, dest, accel, decel, total, elapsed, start } => NodeM::SlideTo {
            actor,
            dest,
            accel,
            decel,
            total: total as int,
            elapsed: elapsed as int,
            start,
        },
        Node::JumpTo { actor, dest, total, elapsed, start } => NodeM::JumpTo {
            actor,
            dest,
            total: total as int,
            elapsed: elapsed as int,
            start,
        },
        Node::Shake { total, elapsed } => NodeM::Shake {
            total: total as int,
            elapsed: elapsed as int,
        },
        Node::SetBackground { name, fired } => NodeM::SetBackground { name: name@, fired },
        Node::PlaceActor { actor, sprite, frame, pos, fired } => NodeM::PlaceActor {
            actor,
            sprite: sprite@,
            frame,
            pos,
            fired,
        },
        Node::RemoveActor { actor, fired } => NodeM::RemoveActor { actor, fired },
        Node::PlaySound { id, fired } => NodeM::PlaySound { id, fired },
        Node::Say { actor, style, place, text, total, elapsed } => NodeM::Say {
            actor,
            style,
            place,
            text: text@,
            total: total as int,
            elapsed: elapsed as int,
        },
        Node::Notify { channel, value, fired } => NodeM::Notify { channel, value, fired },
    }
}

/// The views of a sequence of runtime nodes, in order.
pub open spec fn node_views(s: Seq<Node>) -> Seq<NodeM>
    decreases s,
{
    if s.len() == 0 {
        Seq::<NodeM>::empty()
    } else {
        node_views(s.drop_last()).push(node_view(s.last()))
    }
}

/// [`node_views`] is the element-wise view.
pub proof fn lemma_node_views(s: Seq<Node>)
    ensures
        node_views(s).len() == s.len(),
        forall|i: int| 0 <= i < s.len() ==> #[trigger] node_views(s)[i] == node_view(s[i]),
    decreases s.len(),
{
    if s.len() > 0 {
        lemma_node_views(s.drop_last());
    }
}

impl View for Node {
    type V = NodeM;

    open spec fn view(&self) -> NodeM {
        node_view(*self)
    }
}

/// The height of a runtime node tree: leaves are 0, composites one more
/// than their tallest child.  Progress fields do not affect it.
pub open spec fn node_height(n: NodeM) -> nat
    decreases n, 0int,
{
    match n {
        NodeM::Sequence { children, .. } => 1 + nodes_height(children),
        NodeM::Parallel { children } => 1 + nodes_height(children),
        NodeM::Loop { body, .. } => 1 + node_height(*body),
        _ => 0,
    }
}

/// The greatest height among a sequence of nodes.
pub open spec fn nodes_height(s: Seq<NodeM>) -> nat
    decreases s, 1int,
{
    if s.len() == 0 {
        0
    } else {
        let rest = nodes_height(s.drop_last());
        let last = node_height(s.last());
        if last >= rest {
            last
        } else {
            rest
        }
    }
}

/// Every element's height is bounded by the sequence's height.
pub proof fn lemma_nodes_height_index(s: Seq<NodeM>, i: int)
    requires
        0 <= i < s.len(),
    ensures
        node_height(s[i]) <= nodes_height(s),
    decreases s.len(),
{
    if i == s.len() - 1 {
    } else {
        lemma_nodes_height_index(s.drop_last(), i);
    }
}

/// Whether a node has completed all its work.
pub open spec fn node_done_m(n: NodeM) -> bool
    decreases n, 0int, 0int,
{
    match n {
        NodeM::Sequence { children, idx } => idx >= children.len(),
        NodeM::Parallel { children } => nodes_done_from(children, 0),
        NodeM::Loop { count, iters, .. } => iters >= count,
        NodeM::Wait { total, elapsed } => elapsed >= total,
        NodeM::SlideTo { total, elapsed, .. } => elapsed >= total,
        NodeM::JumpTo { total, elapsed, .. } => elapsed >= total,
        NodeM::Shake { total, elapsed } => elapsed >= total,
        NodeM::SetBackground { fired, .. } => fired,
        NodeM::PlaceActor { fired, .. } => fired,
        NodeM::RemoveActor { fired, .. } => fired,
        NodeM::PlaySound { fired, .. } => fired,
        NodeM::Say { total, elapsed, .. } => elapsed >= total,
        NodeM::Notify { fired, .. } => fired,
    }
}

/// Whether every node from position `i` on has completed.
pub open spec fn nodes_done_from(s: Seq<NodeM>, i: int) -> bool
    decreases s, 1int, s.len() - i,
{
    if i < 0 || i >= s.len() {
        true
    } else {
        node_done_m(s[i]) && nodes_done_from(s, i + 1)
    }
}

/// Well-formedness of a runtime node.  Besides the structural bounds the
/// script compiler establishes, a sequence cursor never rests on an
/// already-completed child, and a running loop body is never completed:
/// the interpreter advances past completed work within the tick that
/// completed it.
pub open spec fn node_wf(n: NodeM) -> bool
    decreases n, 0int, 0int,
{
    match n {
        NodeM::Sequence { children, idx } => {
            &&& children.len() >= 1
            &&& 0 <= idx <= children.len()
            &&& nodes_wf(children, 0)
            &&& forall|j: int|
                idx <= j < children.len() ==> !node_done_m(#[trigger] children[j])
        },
        NodeM::Parallel { children } => children.len() >= 1 && nodes_wf(children, 0),
        NodeM::Loop { count, iters, body } => {
            &&& 1 <= count <= MAX_LOOP_COUNT
            &&& 0 <= iters <= count
            &&& node_wf(*body)
            &&& iters < count ==> !node_done_m(*body)
        },
        NodeM::Wait { total, elapsed } => 1 <= total <= MAX_TICKS && 0 <= elapsed <= total,
        NodeM::SlideTo { dest, total, elapsed, start, .. } => {
            &&& dest.in_bounds()
            &&& 1 <= total <= MAX_TICKS
            &&& 0 <= elapsed <= total
            &&& start matches Some(p) ==> p.in_bounds_stage()
        },
        NodeM::JumpTo { dest, total, elapsed, start, .. } => {
            &&& dest.in_bounds()
            &&& 1 <= total <= MAX_TICKS
            &&& 0 <= elapsed <= total
            &&& start matches Some(p) ==> p.in_bounds_stage()
        },
        NodeM::Shake { total, elapsed } => 1 <= total <= MAX_TICKS && 0 <= elapsed <= total,
        NodeM::SetBackground { .. } => true,
        NodeM::PlaceActor { pos, .. } => pos.in_bounds(),
        NodeM::RemoveActor { .. } => true,
        NodeM::PlaySound { .. } => true,
        NodeM::Say { total, elapsed, .. } => 1 <= total <= MAX_TICKS && 0 <= elapsed <= total,
        NodeM::Notify { .. } => true,
    }
}

/// Well-formedness of every node from position `i` on.
pub open spec fn nodes_wf(s: Seq<NodeM>, i: int) -> bool
    decreases s, 1int, s.len() - i,
{
    if i < 0 || i >= s.len() {
        true
    } else {
        node_wf(s[i]) && nodes_wf(s, i + 1)
    }
}

/// Unfolds [`nodes_wf`] into an element-wise statement.
pub proof fn lemma_nodes_wf_index(s: Seq<NodeM>, i: int)
    requires
        0 <= i <= s.len(),
    ensures
        nodes_wf(s, i) <==> forall|j: int| i <= j < s.len() ==> node_wf(#[trigger] s[j]),
    decreases s.len() - i,
{
    if i < s.len() {
        lemma_nodes_wf_index(s, i + 1);
    }
}

/// Unfolds [`nodes_done_from`] into an element-wise statement.
pub proof fn lemma_nodes_done_index(s: Seq<NodeM>, i: int)
    requires
        0 <= i <= s.len(),
    ensures
        nodes_done_from(s, i) <==> forall|j: int|
            i <= j < s.len() ==> node_done_m(#[trigger] s[j]),
    decreases s.len() - i,
{
    if i < s.len() {
        lemma_nodes_done_index(s, i + 1);
    }
}

/// The node with all progress discarded: cursors to the start, counters
/// to zero, nothing fired.
pub open spec fn reset_m(n: NodeM) -> NodeM
    decreases n, 0int,
{
    match n {
        NodeM::Sequence { children, .. } => NodeM::Sequence {
            children: resets_m(children),
            idx: 0,
        },
        NodeM::Parallel { children } => NodeM::Parallel { children: resets_m(children) },
        NodeM::Loop { count, body, .. } => NodeM::Loop {
            count,
            iters: 0,
            body: Box::new(reset_m(*body)),
        },
        NodeM::Wait { total, .. } => NodeM::Wait { total, elapsed: 0 },
        NodeM::SlideTo { actor, dest, accel, decel, total, .. } => NodeM::SlideTo {
            actor,
            dest,
            accel,
            decel,
            total,
            elapsed: 0,
            start: None,
        },
        NodeM::JumpTo { actor, dest, total, .. } => NodeM::JumpTo {
            actor,
            dest,
            total,
            elapsed: 0,
            start: None,
        },
        NodeM::Shake { total, .. } => NodeM::Shake { total, elapsed: 0 },
        NodeM::SetBackground { name, .. } => NodeM::SetBackground { name, fired: false },
        NodeM::PlaceActor { actor, sprite, frame, pos, .. } => NodeM::PlaceActor {
            actor,
            sprite,
            frame,
            pos,
            fired: false,
        },
        NodeM::RemoveActor { actor, .. } => NodeM::RemoveActor { actor, fired: false },
        NodeM::PlaySound { id, .. } => NodeM::PlaySound { id, fired: false },
        NodeM::Say { actor, style, place, text, total, .. } => NodeM::Say {
            actor,
            style,
            place,
            text,
            total,
            elapsed: 0,
        },
        NodeM::Notify { channel, value, .. } => NodeM::Notify { channel, value, fired: false },
    }
}

/// Element-wise [`reset_m`].
pub open spec fn resets_m(s: Seq<NodeM>) -> Seq<NodeM>
    decreases s, 1int,
{
    if s.len() == 0 {
        Seq::<NodeM>::empty()
    } else {
        resets_m(s.drop_last()).push(reset_m(s.last()))
    }
}

/// [`resets_m`] is the element-wise reset.
pub proof fn lemma_resets_index(s: Seq<NodeM>)
    ensures
        resets_m(s).len() == s.len(),
        forall|i: int| 0 <= i < s.len() ==> #[trigger] resets_m(s)[i] == reset_m(s[i]),
    decreases s.len(),
{
    if s.len() > 0 {
        lemma_resets_index(s.drop_last());
    }
}

/// Resetting keeps the tree's height.
pub proof fn lemma_reset_height(n: NodeM)
    ensures
        node_height(reset_m(n)) == node_height(n),
    decreases n, 0int,
{
    match n {
        NodeM::Sequence { children, .. } => lemma_resets_height(children),
        NodeM::Parallel { children } => lemma_resets_height(children),
        NodeM::Loop { body, .. } => lemma_reset_height(*body),
        _ => {}
    }
}

proof fn lemma_resets_height(s: Seq<NodeM>)
    ensures
        nodes_height(resets_m(s)) == nodes_height(s),
    decreases s, 1int,
{
    if s.len() > 0 {
        lemma_resets_height(s.drop_last());
        lemma_reset_height(s.last());
        assert(resets_m(s).drop_last() =~= resets_m(s.drop_last()));
        assert(resets_m(s).last() == reset_m(s.last()));
    }
}

/// A reset of a well-formed node is well-formed and has all its work
/// ahead of it.
pub proof fn lemma_reset_wf(n: NodeM)
    requires
        node_wf(n),
    ensures
        node_wf(reset_m(n)),
        !node_done_m(reset_m(n)),
    decreases n, 0int,
{
    match n {
        NodeM::Sequence { children, .. } => {
            lemma_resets_wf(children);
            lemma_resets_index(children);
            lemma_nodes_wf_index(children, 0);
            lemma_nodes_wf_index(resets_m(children), 0);
        }
        NodeM::Parallel { children } => {
            lemma_resets_wf(children);
            lemma_resets_index(children);
            lemma_nodes_wf_index(children, 0);
            lemma_nodes_wf_index(resets_m(children), 0);
            lemma_nodes_done_index(resets_m(children), 0);
            assert(!node_done_m(reset_m(children[0])));
            assert(resets_m(children)[0] == reset_m(children[0]));
        }
        NodeM::Loop { body, .. } => {
            lemma_reset_wf(*body);
        }
        _ => {}
    }
}

proof fn lemma_resets_wf(s: Seq<NodeM>)
    requires
        nodes_wf(s, 0),
    ensures
        forall|i: int|
            0 <= i < s.len() ==> node_wf(#[trigger] resets_m(s)[i]) && !node_done_m(
                resets_m(s)[i],
            ),
    decreases s, 1int,
{
    lemma_nodes_wf_index(s, 0);
    lemma_resets_index(s);
    assert forall|i: int| 0 <= i < s.len() implies node_wf(#[trigger] resets_m(s)[i])
        && !node_done_m(resets_m(s)[i]) by {
        lemma_reset_wf(s[i]);
    }
}

/// Resetting twice is resetting once.
pub proof fn lemma_reset_idempotent(n: NodeM)
    ensures
        reset_m(reset_m(n)) == reset_m(n),
    decreases n, 0int,
{
    match n {
        NodeM::Sequence { children, .. } => lemma_resets_idempotent(children),
        NodeM::Parallel { children } => lemma_resets_idempotent(children),
        NodeM::Loop { body, .. } => lemma_reset_idempotent(*body),
        _ => {}
    }
}

proof fn lemma_resets_idempotent(s: Seq<NodeM>)
    ensures
        resets_m(resets_m(s)) == resets_m(s),
    decreases s, 1int,
{
    if s.len() > 0 {
        lemma_resets_idempotent(s.drop_last());
        lemma_reset_idempotent(s.last());
        assert(resets_m(s).drop_last() =~= resets_m(s.drop_last()));
        assert(resets_m(resets_m(s)) =~= resets_m(s));
    }
}

/// A fresh copy of a runtime node, with all progress discarded: how a
/// loop restarts its body.
pub fn fresh_copy(n: &Node) -> (r: Node)
    ensures
        r@ == reset_m(n@),
    decreases *n,
{
    match n {
        Node::Sequence { children, .. } => Node::Sequence {
            children: fresh_copies(children),
            idx: 0,
        },
        Node::Parallel { children } => Node::Parallel { children: fresh_copies(children) },
        Node::Loop { count, body, .. } => Node::Loop {
            count: *count,
            iters: 0,
            body: Box::new(fresh_copy(body)),
        },
        Node::Wait { total, .. } => Node::Wait { total: *total, elapsed: 0 },
        Node::SlideTo { actor, dest, accel, decel, total, .. } => Node::SlideTo {
            actor: *actor,
            dest: *dest,
            accel: *accel,
            decel: *decel,
            total: *total,
            elapsed: 0,
            start: None,
        },
        Node::JumpTo { actor, dest, total, .. } => Node::JumpTo {
            actor: *actor,
            dest: *dest,
            total: *total,
            elapsed: 0,
            start: None,
        },
        Node::Shake { total, .. } => Node::Shake { total: *total, elapsed: 0 },
        Node::SetBackground { name, .. } => Node::SetBackground {
            name: name.clone(),
            fired: false,
        },
        Node::PlaceActor { actor, sprite, frame, pos, .. } => Node::PlaceActor {
            actor: *actor,
            sprite: sprite.clone(),
            frame: *frame,
            pos: *pos,
            fired: false,
        },
        Node::RemoveActor { actor, .. } => Node::RemoveActor { actor: *actor, fired: false },
        Node::PlaySound { id, .. } => Node::PlaySound { id: *id, fired: false },
        Node::Say { actor, style, place, text, total, .. } => Node::Say {
            actor: *actor,
            style: *style,
            place: *place,
            text: text.clone(),
            total: *total,
            elapsed: 0,
        },
        Node::Notify { channel, value, .. } => Node::Notify {
            channel: *channel,
            value: *value,
            fired: false,
        },
    }
}

fn fresh_copies(children: &Vec<Node>) -> (r: Vec<Node>)
    ensures
        node_views(r@) == resets_m(node_views(children@)),
    decreases children@,
{
    let ghost views = node_views(children@);
    proof {
        lemma_node_views(children@);
        lemma_resets_index(views);
    }
    let mut out: Vec<Node> = Vec::new();
    let mut i: usize = 0;
    while i < children.len()
        invariant
            0 <= i <= children.len(),
            views == node_views(children@),
            views.len() == children.len(),
            forall|k: int| 0 <= k < children@.len() ==> #[trigger] views[k] == node_view(
                children@[k],
            ),
            node_views(out@) == views.take(i as int).map_values(|m: NodeM| reset_m(m)),
        decreases children.len() - i,
    {
        let ghost out_pre = out@;
        let fresh = fresh_copy(&children[i]);
        out.push(fresh);
        proof {
            assert(out@.drop_last() =~= out_pre);
            assert(out@.last() == fresh);
            assert(node_views(out@) == node_views(out_pre).push(fresh@));
            assert(views.take(i + 1).map_values(|m: NodeM| reset_m(m)) =~= views.take(
                i as int,
            ).map_values(|m: NodeM| reset_m(m)).push(reset_m(views[i as int])));
        }
        i = i + 1;
    }
    proof {
        assert(views.take(views.len() as int) =~= views);
        assert(resets_m(views) =~= views.map_values(|m: NodeM| reset_m(m))) by {
            lemma_resets_index(views);
            assert(resets_m(views).len() == views.len());
        }
    }
    out
}

/// Whether this node has completed all its work.
pub fn node_done(n: &Node) -> (r: bool)
    ensures
        r == node_done_m(n@),
    decreases *n, 0int, 0int,
{
    match n {
        Node::Sequence { children, idx } => {
            proof {
                lemma_node_views(children@);
            }
            *idx >= children.len()
        }
        Node::Parallel { children } => nodes_done(children, 0),
        Node::Loop { count, iters, .. } => *iters >= *count,
        Node::Wait { total, elapsed } => *elapsed >= *total,
        Node::SlideTo { total, elapsed, .. } => *elapsed >= *total,
        Node::JumpTo { total, elapsed, .. } => *elapsed >= *total,
        Node::Shake { total, elapsed } => *elapsed >= *total,
        Node::SetBackground { fired, .. } => *fired,
        Node::PlaceActor { fired, .. } => *fired,
        Node::RemoveActor { fired, .. } => *fired,
        Node::PlaySound { fired, .. } => *fired,
        Node::Say { total, elapsed, .. } => *elapsed >= *total,
        Node::Notify { fired, .. } => *fired,
    }
}

fn nodes_done(children: &Vec<Node>, i: usize) -> (r: bool)
    requires
        i <= children.len(),
    ensures
        r == nodes_done_from(node_views(children@), i as int),
    decreases *children, 1int, children.len() - i,
{
    proof {
        lemma_node_views(children@);
    }
    if i >= children.len() {
        true
    } else {
        node_done(&children[i]) && nodes_done(children, i + 1)
    }
}

/// How much work a node still has: an upper bound on the ticks and
/// zero-time firings it can still perform.  Every tick of an unfinished
/// node strictly decreases it, which is why every scene terminates.
pub open spec fn work_m(n: NodeM) -> nat
    decreases node_height(n), 0int, 0int,
    via work_m_decreases
{
    match n {
        NodeM::Sequence { children, idx } => {
            if 0 <= idx <= children.len() {
                ((children.len() - idx) + works_from(children, idx)) as nat
            } else {
                0
            }
        },
        NodeM::Parallel { children } => works_from(children, 0),
        NodeM::Loop { count, iters, body } => {
            if 0 <= iters < count {
                ((count - iters) + work_m(*body) + (count - iters - 1) * work_m(
                    reset_m(*body),
                )) as nat
            } else {
                0
            }
        },
        NodeM::Wait { total, elapsed } => if 0 <= elapsed <= total {
            (total - elapsed) as nat
        } else {
            0
        },
        NodeM::SlideTo { total, elapsed, .. } => if 0 <= elapsed <= total {
            (total - elapsed) as nat
        } else {
            0
        },
        NodeM::JumpTo { total, elapsed, .. } => if 0 <= elapsed <= total {
            (total - elapsed) as nat
        } else {
            0
        },
        NodeM::Shake { total, elapsed } => if 0 <= elapsed <= total {
            (total - elapsed) as nat
        } else {
            0
        },
        NodeM::SetBackground { fired, .. } => if fired {
            0
        } else {
            1
        },
        NodeM::PlaceActor { fired, .. } => if fired {
            0
        } else {
            1
        },
        NodeM::RemoveActor { fired, .. } => if fired {
            0
        } else {
            1
        },
        NodeM::PlaySound { fired, .. } => if fired {
            0
        } else {
            1
        },
        NodeM::Say { total, elapsed, .. } => if 0 <= elapsed <= total {
            (total - elapsed) as nat
        } else {
            0
        },
        NodeM::Notify { fired, .. } => if fired {
            0
        } else {
            1
        },
    }
}

/// The summed work of the nodes from position `i` on.
pub open spec fn works_from(s: Seq<NodeM>, i: int) -> nat
    decreases nodes_height(s), 1int, s.len() - i,
    via works_from_decreases
{
    if i < 0 || i >= s.len() {
        0
    } else {
        work_m(s[i]) + works_from(s, i + 1)
    }
}

#[via_fn]
proof fn work_m_decreases(n: NodeM) {
    match n {
        NodeM::Loop { body, .. } => {
            lemma_reset_height(*body);
        }
        _ => {}
    }
}

#[via_fn]
proof fn works_from_decreases(s: Seq<NodeM>, i: int) {
    if 0 <= i < s.len() {
        lemma_nodes_height_index(s, i);
    }
}

/// An unfinished well-formed node has work left.
pub proof fn lemma_work_pos(n: NodeM)
    requires
        node_wf(n),
        !node_done_m(n),
    ensures
        work_m(n) >= 1,
    decreases n, 0int,
{
    match n {
        NodeM::Sequence { .. } => {}
        NodeM::Parallel { children } => {
            lemma_nodes_done_index(children, 0);
            let j = choose|j: int|
                0 <= j < children.len() && !node_done_m(#[trigger] children[j]);
            lemma_nodes_wf_index(children, 0);
            lemma_work_pos(children[j]);
            lemma_works_from_index(children, 0, j);
        }
        NodeM::Loop { .. } => {
        }
        _ => {}
    }
}

/// The summed work bounds each element's work from below.
pub proof fn lemma_works_from_index(s: Seq<NodeM>, i: int, j: int)
    requires
        0 <= i <= j < s.len(),
    ensures
        works_from(s, i) >= work_m(s[j]),
    decreases j - i,
{
    if i < j {
        lemma_works_from_index(s, i + 1, j);
    }
}

/// The compiled runtime form of one script node.
pub open spec fn compile_m(a: AstM) -> NodeM
    decreases a, 0int,
{
    match a {
        AstM::Sequence { children } => NodeM::Sequence {
            children: compiles_m(children),
            idx: 0,
        },
        AstM::Parallel { children } => NodeM::Parallel { children: compiles_m(children) },
        AstM::Loop { count, body } => NodeM::Loop {
            count: count as int,
            iters: 0,
            body: Box::new(compile_m(*body)),
        },
        AstM::Wait { millis } => NodeM::Wait {
            total: ticks_from_millis_m(millis) as int,
            elapsed: 0,
        },
        AstM::SlideTo { actor, dest, accel, decel, millis } => NodeM::SlideTo {
            actor,
            dest,
            accel,
            decel,
            total: ticks_from_millis_m(millis) as int,
            elapsed: 0,
            start: None,
        },
        AstM::JumpTo { actor, dest, millis } => NodeM::JumpTo {
            actor,
            dest,
            total: ticks_from_millis_m(millis) as int,
            elapsed: 0,
            start: None,
        },
        AstM::Shake { intensity } => NodeM::Shake { total: intensity as int, elapsed: 0 },
        AstM::SetBackground { name } => NodeM::SetBackground { name, fired: false },
        AstM::PlaceActor { actor, sprite, frame, pos } => NodeM::PlaceActor {
            actor,
            sprite,
            frame,
            pos,
            fired: false,
        },
        AstM::RemoveActor { actor } => NodeM::RemoveActor { actor, fired: false },
        AstM::PlaySound { id } => NodeM::PlaySound { id, fired: false },
        AstM::Say { actor, style, place, text } => NodeM::Say {
            actor,
            style,
            place,
            text,
            total: talk_ticks_m(text.len()) as int,
            elapsed: 0,
        },
        AstM::Notify { channel, value } => NodeM::Notify { channel, value, fired: false },
    }
}

/// Element-wise [`compile_m`].
pub open spec fn compiles_m(s: Seq<AstM>) -> Seq<NodeM>
    decreases s, 1int,
{
    if s.len() == 0 {
        Seq::<NodeM>::empty()
    } else {
        compiles_m(s.drop_last()).push(compile_m(s.last()))
    }
}

/// [`compiles_m`] is the element-wise compilation.
pub proof fn lemma_compiles_index(s: Seq<AstM>)
    ensures
        compiles_m(s).len() == s.len(),
        forall|i: int| 0 <= i < s.len() ==> #[trigger] compiles_m(s)[i] == compile_m(s[i]),
    decreases s.len(),
{
    if s.len() > 0 {
        lemma_compiles_index(s.drop_last());
    }
}

/// Compiling a well-formed script node gives a well-formed runtime node
/// with all its work ahead of it.
pub proof fn lemma_compile_wf(a: AstM)
    requires
        ast_wf(a),
    ensures
        node_wf(compile_m(a)),
        !node_done_m(compile_m(a)),
    decreases a, 0int,
{
    match a {
        AstM::Sequence { children } => {
            lemma_compiles_wf(children);
            lemma_compiles_index(children);
            lemma_nodes_wf_index(compiles_m(children), 0);
        }
        AstM::Parallel { children } => {
            lemma_compiles_wf(children);
            lemma_compiles_index(children);
            lemma_nodes_wf_index(compiles_m(children), 0);
            lemma_nodes_done_index(compiles_m(children), 0);
            assert(!node_done_m(compiles_m(children)[0]));
        }
        AstM::Loop { body, .. } => {
            lemma_compile_wf(*body);
        }
        _ => {}
    }
}

proof fn lemma_compiles_wf(s: Seq<AstM>)
    requires
        forall|i: int| 0 <= i < s.len() ==> ast_wf(#[trigger] s[i]),
    ensures
        forall|i: int|
            0 <= i < s.len() ==> node_wf(#[trigger] compiles_m(s)[i]) && !node_done_m(
                compiles_m(s)[i],
            ),
    decreases s, 1int,
{
    lemma_compiles_index(s);
    assert forall|i: int| 0 <= i < s.len() implies node_wf(#[trigger] compiles_m(s)[i])
        && !node_done_m(compiles_m(s)[i]) by {
        lemma_compile_wf(s[i]);
    }
}

/// Compiles one script node, converting declared durations to ticks.
pub fn compile_node(a: &Ast) -> (r: Node)
    requires
        ast_wf(a@),
    ensures
        r@ == compile_m(a@),
        node_wf(r@),
        !node_done_m(r@),
    decreases *a,
{
    proof {
        lemma_compile_wf(a@);
    }
    match a {
        Ast::Sequence(children) => {
            proof {
                crate::script::lemma_ast_views(children@);
            }
            Node::Sequence { children: compile_nodes(children), idx: 0 }
        }
        Ast::Parallel(children) => {
            proof {
                crate::script::lemma_ast_views(children@);
            }
            Node::Parallel { children: compile_nodes(children) }
        }
        Ast::Loop(count, body) => Node::Loop {
            count: *count,
            iters: 0,
            body: Box::new(compile_node(body)),
        },
        Ast::Wait(millis) => Node::Wait { total: ticks_from_millis(*millis), elapsed: 0 },
        Ast::SlideTo(actor, dest, accel, decel, millis) => Node::SlideTo {
            actor: *actor,
            dest: *dest,
            accel: *accel,
            decel: *decel,
            total: ticks_from_millis(*millis),
            elapsed: 0,
            start: None,
        },
        Ast::JumpTo(actor, dest, millis) => Node::JumpTo {
            actor: *actor,
            dest: *dest,
            total: ticks_from_millis(*millis),
            elapsed: 0,
            start: None,
        },
        Ast::Shake(intensity) => Node::Shake { total: *intensity, elapsed: 0 },
        Ast::SetBackground(name) => Node::SetBackground { name: name.clone(), fired: false },
        Ast::PlaceActor(actor, sprite, frame, pos) => Node::PlaceActor {
            actor: *actor,
            sprite: sprite.clone(),
            frame: *frame,
            pos: *pos,
            fired: false,
        },
        Ast::RemoveActor(actor) => Node::RemoveActor { actor: *actor, fired: false },
        Ast::PlaySound(id) => Node::PlaySound { id: *id, fired: false },
        Ast::Say(actor, style, place, text) => {
            let len = text.as_str().unicode_len();
            Node::Say {
                actor: *actor,
                style: *style,
                place: *place,
                text: text.clone(),
                total: TALK_BASE_TICKS + TALK_TICKS_PER_CHAR * (len as u32),
                elapsed: 0,
            }
        }
        Ast::Notify(channel, value) => Node::Notify {
            channel: *channel,
            value: *value,
            fired: false,
        },
    }
}

/// Compiles a sequence of script nodes, in order.
pub fn compile_nodes(children: &Vec<Ast>) -> (r: Vec<Node>)
    requires
        forall|i: int| 0 <= i < children@.len() ==> ast_wf(#[trigger] ast_views(children@)[i]),
    ensures
        node_views(r@) == compiles_m(ast_views(children@)),
    decreases children@,
{
    let ghost avs = ast_views(children@);
    proof {
        crate::script::lemma_ast_views(children@);
        lemma_compiles_index(avs);
    }
    let mut out: Vec<Node> = Vec::new();
    let mut i: usize = 0;
    while i < children.len()
        invariant
            0 <= i <= children.len(),
            avs == ast_views(children@),
            avs.len() == children.len(),
            forall|k: int| 0 <= k < children@.len() ==> #[trigger] avs[k] == crate::script::ast_view(
                children@[k],
            ),
            forall|k: int| 0 <= k < children@.len() ==> ast_wf(#[trigger] avs[k]),
            node_views(out@) == compiles_m(avs.take(i as int)),
        decreases children.len() - i,
    {
        let ghost out_pre = out@;
        let node = compile_node(&children[i]);
        out.push(node);
        proof {
            assert(out@.drop_last() =~= out_pre);
            assert(node_views(out@) == node_views(out_pre).push(node@));
            assert(avs.take(i + 1).drop_last() =~= avs.take(i as int));
            assert(compiles_m(avs.take(i + 1)) == compiles_m(avs.take(i as int)).push(
                compile_m(avs[i as int]),
            ));
        }
        i = i + 1;
    }
    proof {
        assert(avs.take(avs.len() as int) =~= avs);
    }
    out
}

} // verus!
