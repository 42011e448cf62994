//! The tick-stepping algorithm.
//!
//! One tick advances a scene's runtime tree depth-first from the root
//! cursor to the currently-active leaves.  A sequence steps its current
//! child and advances past it within the same tick exactly when the child
//! completed without consuming time, so chains of instantaneous actions
//! all fire within one tick; a parallel node steps every unfinished child
//! once per tick, in document order, and completes only when all have; a
//! loop re-runs a fresh copy of its body until its count is exhausted.
//!
//! The whole semantics is given by the specification function [`step_m`];
//! the executable stepper is proved to match it exactly.

use vstd::prelude::*;

use crate::geom::Point;
use crate::node::fresh_copy;
use crate::node::lemma_node_views;
use crate::node::lemma_nodes_wf_index;
use crate::node::lemma_reset_idempotent;
use crate::node::lemma_reset_wf;
use crate::node::node_done;
use crate::node::node_done_m;
use crate::node::node_views;
use crate::node::node_wf;
use crate::node::nodes_wf;
use crate::node::Node;
use crate::node::node_height;
use crate::node::nodes_height;
use crate::node::lemma_nodes_height_index;
use crate::node::lemma_reset_height;
use crate::node::reset_m;
use crate::node::NodeM;
use crate::stage::actor_pos_m;
use crate::stage::place_actor_m;
use crate::stage::remove_actor_m;
use crate::stage::set_actor_pos_m;
use crate::stage::stage_wf;
use crate::stage::Actor;
use crate::stage::ActorM;
use crate::stage::Stage;
use crate::stage::StageM;
use crate::stage::STAGE_BOUND;

verus! {

/// How far above the straight line a jump arc rises, in pixels.
pub const JUMP_ARC_HEIGHT: u32 = 32;

/// The progress fraction of a timed motion, applied to a magnitude:
/// `mag` scaled by elapsed over total, eased at the start when `accel`
/// holds and at the end when `decel` holds, and clamped to `[0, mag]`.
pub open spec fn eased_off_m(mag: int, e: int, t: int, accel: bool, decel: bool) -> int
    recommends
        0 <= mag,
        1 <= t,
        0 <= e <= t,
{
    if e >= t {
        mag
    } else {
        let raw = if accel && decel {
            if 2 * e <= t {
                2 * mag * e * e / (t * t)
            } else {
                mag - 2 * mag * (t - e) * (t - e) / (t * t)
            }
        } else if accel {
            mag * e * e / (t * t)
        } else if decel {
            mag - mag * (t - e) * (t - e) / (t * t)
        } else {
            mag * e / t
        };
        if raw < 0 {
            0
        } else if raw > mag {
            mag
        } else {
            raw
        }
    }
}

/// One axis of an interpolated position: from `s` towards `d`, offset by
/// the eased fraction.  Always between the two endpoints, and exactly `d`
/// once `e == t`.
pub open spec fn axis_pos_m(s: int, d: int, e: int, t: int, accel: bool, decel: bool) -> int {
    if d >= s {
        s + eased_off_m(d - s, e, t, accel, decel)
    } else {
        s - eased_off_m(s - d, e, t, accel, decel)
    }
}

/// The height of the parabolic jump arc after `e` of `t` ticks: zero at
/// both endpoints, peaking at [`JUMP_ARC_HEIGHT`] in the middle.
pub open spec fn arc_off_m(e: int, t: int) -> int
    recommends
        1 <= t,
        0 <= e <= t,
{
    if e <= 0 || e >= t {
        0
    } else {
        let raw = 4 * (JUMP_ARC_HEIGHT as int) * e * (t - e) / (t * t);
        if raw > JUMP_ARC_HEIGHT as int {
            JUMP_ARC_HEIGHT as int
        } else if raw < 0 {
            0
        } else {
            raw
        }
    }
}

/// A value clamped to the stage coordinate bound.
pub open spec fn clamp_stage_m(v: int) -> int {
    if v < -STAGE_BOUND {
        -STAGE_BOUND as int
    } else if v > STAGE_BOUND {
        STAGE_BOUND as int
    } else {
        v
    }
}

/// The position of a sliding actor after `e` of `t` ticks.
pub open spec fn slide_pos_m(s: Point, d: Point, e: int, t: int, accel: bool, decel: bool) -> Point {
    Point {
        x: axis_pos_m(s.x as int, d.x as int, e, t, accel, decel) as i32,
        y: axis_pos_m(s.y as int, d.y as int, e, t, accel, decel) as i32,
    }
}

/// The position of a jumping actor after `e` of `t` ticks: linear in x,
/// linear minus the arc in y.
pub open spec fn jump_pos_m(s: Point, d: Point, e: int, t: int) -> Point {
    Point {
        x: axis_pos_m(s.x as int, d.x as int, e, t, false, false) as i32,
        y: clamp_stage_m(axis_pos_m(s.y as int, d.y as int, e, t, false, false) - arc_off_m(e, t))
            as i32,
    }
}

/// The result of stepping one node by one tick: the advanced node, the
/// stage after its effects, whether the node has now completed, and
/// whether it completed without consuming any time.
pub struct StepRes {
    pub node: NodeM,
    pub stage: StageM,
    pub done: bool,
    pub zero: bool,
}

/// The result of advancing a sequence from its cursor.
pub struct SeqRes {
    pub children: Seq<NodeM>,
    pub idx: int,
    pub stage: StageM,
    pub done: bool,
    pub zero: bool,
}

/// The result of stepping the children of a parallel node.
pub struct ParRes {
    pub children: Seq<NodeM>,
    pub stage: StageM,
    pub done: bool,
    pub zero: bool,
}

/// The result of advancing a loop.
pub struct LoopRes {
    pub cur: NodeM,
    pub iters: int,
    pub stage: StageM,
    pub done: bool,
    pub zero: bool,
}

/// The greater of two heights.
pub open spec fn max_height(a: nat, b: nat) -> nat {
    if a >= b {
        a
    } else {
        b
    }
}

/// Advances one node by one tick.  A node that has already completed is
/// left untouched.
pub open spec fn step_m(n: NodeM, st: StageM) -> StepRes
    decreases node_height(n), 1int, 0int,
        via step_m_decreases
{
    if node_done_m(n) {
        StepRes { node: n, stage: st, done: true, zero: true }
    } else {
        match n {
            NodeM::Sequence { children, idx } => {
                let r = seq_run_m(children, idx, st);
                StepRes {
                    node: NodeM::Sequence { children: r.children, idx: r.idx },
                    stage: r.stage,
                    done: r.done,
                    zero: r.zero,
                }
            },
            NodeM::Parallel { children } => {
                let r = par_run_m(children, 0, st);
                StepRes {
                    node: NodeM::Parallel { children: r.children },
                    stage: r.stage,
                    done: r.done,
                    zero: r.zero,
                }
            },
            NodeM::Loop { count, iters, body } => {
                let r = loop_run_m(count, iters, *body, reset_m(*body), st);
                StepRes {
                    node: NodeM::Loop { count, iters: r.iters, body: Box::new(r.cur) },
                    stage: r.stage,
                    done: r.done,
                    zero: r.zero,
                }
            },
            NodeM::Wait { total, elapsed } => StepRes {
                node: NodeM::Wait { total, elapsed: elapsed + 1 },
                stage: st,
                done: elapsed + 1 >= total,
                zero: false,
            },
            NodeM::SlideTo { actor, dest, accel, decel, total, elapsed, start } => {
                let s0 = match start {
                    Some(p) => p,
                    None => match actor_pos_m(st, actor) {
                        Some(p) => p,
                        None => dest,
                    },
                };
                let e2 = elapsed + 1;
                let p = slide_pos_m(s0, dest, e2, total, accel, decel);
                StepRes {
                    node: NodeM::SlideTo {
                        actor,
                        dest,
                        accel,
                        decel,
                        total,
                        elapsed: e2,
                        start: Some(s0),
                    },
                    stage: set_actor_pos_m(st, actor, p),
                    done: e2 >= total,
                    zero: false,
                }
            },
            NodeM::JumpTo { actor, dest, total, elapsed, start } => {
                let s0 = match start {
                    Some(p) => p,
                    None => match actor_pos_m(st, actor) {
                        Some(p) => p,
                        None => dest,
                    },
                };
                let e2 = elapsed + 1;
                let p = jump_pos_m(s0, dest, e2, total);
                StepRes {
                    node: NodeM::JumpTo { actor, dest, total, elapsed: e2, start: Some(s0) },
                    stage: set_actor_pos_m(st, actor, p),
                    done: e2 >= total,
                    zero: false,
                }
            },
            NodeM::Shake { total, elapsed } => {
                let e2 = elapsed + 1;
                StepRes {
                    node: NodeM::Shake { total, elapsed: e2 },
                    stage: StageM { shake: (total - e2) as u32, ..st },
                    done: e2 >= total,
                    zero: false,
                }
            },
            NodeM::SetBackground { name, fired } => StepRes {
                node: NodeM::SetBackground { name, fired: true },
                stage: StageM { bg: name, ..st },
                done: true,
                zero: true,
            },
            NodeM::PlaceActor { actor, sprite, frame, pos, fired } => StepRes {
                node: NodeM::PlaceActor { actor, sprite, frame, pos, fired: true },
                stage: place_actor_m(
                    st,
                    ActorM { id: actor, sprite, frame, pos, visible: true },
                ),
                done: true,
                zero: true,
            },
            NodeM::RemoveActor { actor, fired } => StepRes {
                node: NodeM::RemoveActor { actor, fired: true },
                stage: remove_actor_m(st, actor),
                done: true,
                zero: true,
            },
            NodeM::PlaySound { id, fired } => StepRes {
                node: NodeM::PlaySound { id, fired: true },
                stage: StageM { sounds: st.sounds.push(id), ..st },
                done: true,
                zero: true,
            },
            NodeM::Say { actor, style, place, text, total, elapsed } => StepRes {
                node: NodeM::Say { actor, style, place, text, total, elapsed: elapsed + 1 },
                stage: st,
                done: elapsed + 1 >= total,
                zero: false,
            },
            NodeM::Notify { channel, value, fired } => StepRes {
                node: NodeM::Notify { channel, value, fired: true },
                stage: StageM { queue: st.queue.push((channel, value)), ..st },
                done: true,
                zero: true,
            },
        }
    }
}

#[via_fn]
proof fn step_m_decreases(n: NodeM, st: StageM) {
    match n {
        NodeM::Loop { body, .. } => {
            lemma_reset_height(*body);
        },
        _ => {},
    }
}

/// Advances a sequence from child `idx` on: steps the current child,
/// and chains on past it within the same tick exactly when it completed
/// without consuming time.
pub open spec fn seq_run_m(children: Seq<NodeM>, idx: int, st: StageM) -> SeqRes
    decreases nodes_height(children), 2int, children.len() - idx,
        via seq_run_m_decreases
{
    if idx < 0 || idx >= children.len() {
        SeqRes { children, idx, stage: st, done: true, zero: true }
    } else {
        let r = step_m(children[idx], st);
        if !r.done {
            SeqRes {
                children: children.update(idx, r.node),
                idx,
                stage: r.stage,
                done: false,
                zero: false,
            }
        } else if r.zero {
            let rr = seq_run_m(children, idx + 1, r.stage);
            SeqRes {
                children: rr.children.update(idx, r.node),
                idx: rr.idx,
                stage: rr.stage,
                done: rr.done,
                zero: rr.zero,
            }
        } else {
            SeqRes {
                children: children.update(idx, r.node),
                idx: idx + 1,
                stage: r.stage,
                done: idx + 1 >= children.len(),
                zero: false,
            }
        }
    }
}

#[via_fn]
proof fn seq_run_m_decreases(children: Seq<NodeM>, idx: int, st: StageM) {
    if 0 <= idx < children.len() {
        lemma_nodes_height_index(children, idx);
    }
}

/// Steps every not-yet-completed child of a parallel node once, in
/// document order, threading the stage left to right.
pub open spec fn par_run_m(children: Seq<NodeM>, i: int, st: StageM) -> ParRes
    decreases nodes_height(children), 2int, children.len() - i,
        via par_run_m_decreases
{
    if i < 0 || i >= children.len() {
        ParRes { children, stage: st, done: true, zero: true }
    } else if node_done_m(children[i]) {
        par_run_m(children, i + 1, st)
    } else {
        let r = step_m(children[i], st);
        let rr = par_run_m(children, i + 1, r.stage);
        ParRes {
            children: rr.children.update(i, r.node),
            stage: rr.stage,
            done: r.done && rr.done,
            zero: r.zero && rr.zero,
        }
    }
}

#[via_fn]
proof fn par_run_m_decreases(children: Seq<NodeM>, i: int, st: StageM) {
    if 0 <= i < children.len() {
        lemma_nodes_height_index(children, i);
    }
}

/// Advances a loop: steps the current body; when it completes, counts
/// the iteration and starts the next from the pristine body `fresh` —
/// within the same tick if the body consumed no time, otherwise on the
/// next tick.
pub open spec fn loop_run_m(count: int, iters: int, cur: NodeM, fresh: NodeM, st: StageM) -> LoopRes
    decreases max_height(node_height(cur), node_height(fresh)), 2int, count - iters,
{
    let r = step_m(cur, st);
    if !r.done {
        LoopRes { cur: r.node, iters, stage: r.stage, done: false, zero: false }
    } else if iters + 1 >= count {
        LoopRes { cur: r.node, iters: iters + 1, stage: r.stage, done: true, zero: r.zero }
    } else if !r.zero {
        LoopRes { cur: fresh, iters: iters + 1, stage: r.stage, done: false, zero: false }
    } else {
        loop_run_m(count, iters + 1, fresh, fresh, r.stage)
    }
}


/// Executable form of [`eased_off_m`].
fn eased_off(mag: u32, e: u32, t: u32, accel: bool, decel: bool) -> (r: u32)
    requires
        mag <= 66000,
        1 <= t <= crate::script::MAX_TICKS,
        e <= t,
    ensures
        r == eased_off_m(mag as int, e as int, t as int, accel, decel),
        r <= mag,
{
    if e >= t {
        return mag;
    }
    let m = mag as u64;
    let e64 = e as u64;
    let t64 = t as u64;
    let w = t64 - e64;
    proof {
        assert(t64 * t64 >= 1 && t64 * t64 <= 40000 * 40000) by (nonlinear_arith)
            requires 1 <= t64 <= 40000;
        assert(2 * m * e64 <= 132000 * 40000 && 2 * m * e64 * e64 <= 132000 * 40000 * 40000)
            by (nonlinear_arith)
            requires m <= 66000 && e64 <= 40000;
        assert(2 * m * w <= 132000 * 40000 && 2 * m * w * w <= 132000 * 40000 * 40000)
            by (nonlinear_arith)
            requires m <= 66000 && w <= 40000;
        assert(m * e64 <= 66000 * 40000 && m * e64 * e64 <= 66000 * 40000 * 40000)
            by (nonlinear_arith)
            requires m <= 66000 && e64 <= 40000;
        assert(m * w <= 66000 * 40000 && m * w * w <= 66000 * 40000 * 40000)
            by (nonlinear_arith)
            requires m <= 66000 && w <= 40000;
    }
    let den = t64 * t64;
    if accel && decel {
        if 2 * e <= t {
            let v = 2 * m * e64 * e64 / den;
            if v > m {
                mag
            } else {
                v as u32
            }
        } else {
            let q = 2 * m * w * w / den;
            if q >= m {
                0
            } else {
                (m - q) as u32
            }
        }
    } else if accel {
        let v = m * e64 * e64 / den;
        if v > m {
            mag
        } else {
            v as u32
        }
    } else if decel {
        let q = m * w * w / den;
        if q >= m {
            0
        } else {
            (m - q) as u32
        }
    } else {
        let v = m * e64 / t64;
        if v > m {
            mag
        } else {
            v as u32
        }
    }
}

/// Executable form of [`axis_pos_m`]; the result stays between the two
/// endpoints.
fn axis_pos(s: i32, d: i32, e: u32, t: u32, accel: bool, decel: bool) -> (r: i32)
    requires
        -STAGE_BOUND <= s <= STAGE_BOUND,
        -crate::geom::COORD_BOUND <= d <= crate::geom::COORD_BOUND,
        1 <= t <= crate::script::MAX_TICKS,
        e <= t,
    ensures
        r as int == axis_pos_m(s as int, d as int, e as int, t as int, accel, decel),
        -STAGE_BOUND <= r <= STAGE_BOUND,
{
    if d >= s {
        let mag = (d - s) as u32;
        let off = eased_off(mag, e, t, accel, decel);
        s + (off as i32)
    } else {
        let mag = (s - d) as u32;
        let off = eased_off(mag, e, t, accel, decel);
        s - (off as i32)
    }
}

/// Executable form of [`arc_off_m`].
fn arc_off(e: u32, t: u32) -> (r: u32)
    requires
        1 <= t <= crate::script::MAX_TICKS,
        e <= t,
    ensures
        r == arc_off_m(e as int, t as int),
        r <= JUMP_ARC_HEIGHT,
{
    if e == 0 || e >= t {
        return 0;
    }
    let e64 = e as u64;
    let t64 = t as u64;
    let w = t64 - e64;
    proof {
        assert(t64 * t64 >= 1 && t64 * t64 <= 40000 * 40000) by (nonlinear_arith)
            requires 1 <= t64 <= 40000;
        assert(4 * (JUMP_ARC_HEIGHT as u64) * e64 <= 128 * 40000 && 4 * (JUMP_ARC_HEIGHT as u64)
            * e64 * w <= 128 * 40000 * 40000) by (nonlinear_arith)
            requires e64 <= 40000 && w <= 40000;
    }
    let raw = 4 * (JUMP_ARC_HEIGHT as u64) * e64 * w / (t64 * t64);
    if raw > JUMP_ARC_HEIGHT as u64 {
        JUMP_ARC_HEIGHT
    } else {
        raw as u32
    }
}

/// Executable form of [`slide_pos_m`].
fn slide_pos(s: Point, d: Point, e: u32, t: u32, accel: bool, decel: bool) -> (p: Point)
    requires
        s.in_bounds_stage(),
        d.in_bounds(),
        1 <= t <= crate::script::MAX_TICKS,
        e <= t,
    ensures
        p == slide_pos_m(s, d, e as int, t as int, accel, decel),
        p.in_bounds_stage(),
{
    Point {
        x: axis_pos(s.x, d.x, e, t, accel, decel),
        y: axis_pos(s.y, d.y, e, t, accel, decel),
    }
}

/// Executable form of [`jump_pos_m`].
fn jump_pos(s: Point, d: Point, e: u32, t: u32) -> (p: Point)
    requires
        s.in_bounds_stage(),
        d.in_bounds(),
        1 <= t <= crate::script::MAX_TICKS,
        e <= t,
    ensures
        p == jump_pos_m(s, d, e as int, t as int),
        p.in_bounds_stage(),
{
    let x = axis_pos(s.x, d.x, e, t, false, false);
    let y0 = axis_pos(s.y, d.y, e, t, false, false);
    let arc = arc_off(e, t);
    let y1 = y0 - (arc as i32);
    let y = if y1 < -STAGE_BOUND {
        -STAGE_BOUND
    } else if y1 > STAGE_BOUND {
        STAGE_BOUND
    } else {
        y1
    };
    Point { x, y }
}

/// A sequence run keeps the number of children and moves the cursor
/// forward, at most to the end.
pub proof fn lemma_seq_run_len(s: Seq<NodeM>, i: int, st: StageM)
    requires
        0 <= i <= s.len(),
    ensures
        seq_run_m(s, i, st).children.len() == s.len(),
        i <= seq_run_m(s, i, st).idx <= s.len(),
    decreases s.len() - i,
{
    if i < s.len() {
        let r = step_m(s[i], st);
        if r.done && r.zero {
            lemma_seq_run_len(s, i + 1, r.stage);
        }
    }
}

/// A parallel run keeps the number of children.
pub proof fn lemma_par_run_len(s: Seq<NodeM>, i: int, st: StageM)
    requires
        0 <= i <= s.len(),
    ensures
        par_run_m(s, i, st).children.len() == s.len(),
    decreases s.len() - i,
{
    if i < s.len() {
        if node_done_m(s[i]) {
            lemma_par_run_len(s, i + 1, st);
        } else {
            let r = step_m(s[i], st);
            lemma_par_run_len(s, i + 1, r.stage);
        }
    }
}

/// Updating a position below the cursor does not change how a sequence
/// runs; the update is carried through to the result.
pub proof fn lemma_seq_run_update_below(s: Seq<NodeM>, j: int, x: NodeM, i: int, st: StageM)
    requires
        0 <= j < i,
        j < s.len(),
    ensures
        ({
            let r = seq_run_m(s, i, st);
            let ru = seq_run_m(s.update(j, x), i, st);
            &&& ru.children == r.children.update(j, x)
            &&& ru.idx == r.idx
            &&& ru.stage == r.stage
            &&& ru.done == r.done
            &&& ru.zero == r.zero
        }),
    decreases s.len() - i,
{
    let su = s.update(j, x);
    let r = seq_run_m(s, i, st);
    let ru = seq_run_m(su, i, st);
    if i < 0 || i >= s.len() {
        assert(ru.children =~= r.children.update(j, x));
    } else {
        assert(su[i] == s[i]);
        let c = step_m(s[i], st);
        if !c.done {
            assert(su.update(i, c.node) =~= s.update(i, c.node).update(j, x));
        } else if c.zero {
            lemma_seq_run_update_below(s, j, x, i + 1, c.stage);
            lemma_seq_run_len(s, i + 1, c.stage);
            let rr = seq_run_m(s, i + 1, c.stage);
            assert(rr.children.update(j, x).update(i, c.node) =~= rr.children.update(
                i,
                c.node,
            ).update(j, x));
        } else {
            assert(su.update(i, c.node) =~= s.update(i, c.node).update(j, x));
        }
    }
}

/// Updating a position before `i` does not change how the remaining
/// children of a parallel node run.
pub proof fn lemma_par_run_update_below(s: Seq<NodeM>, j: int, x: NodeM, i: int, st: StageM)
    requires
        0 <= j < i,
        j < s.len(),
    ensures
        ({
            let r = par_run_m(s, i, st);
            let ru = par_run_m(s.update(j, x), i, st);
            &&& ru.children == r.children.update(j, x)
            &&& ru.stage == r.stage
            &&& ru.done == r.done
            &&& ru.zero == r.zero
        }),
    decreases s.len() - i,
{
    let su = s.update(j, x);
    let r = par_run_m(s, i, st);
    let ru = par_run_m(su, i, st);
    if i < 0 || i >= s.len() {
        assert(ru.children =~= r.children.update(j, x));
    } else {
        assert(su[i] == s[i]);
        if node_done_m(s[i]) {
            lemma_par_run_update_below(s, j, x, i + 1, st);
        } else {
            let c = step_m(s[i], st);
            lemma_par_run_update_below(s, j, x, i + 1, c.stage);
            lemma_par_run_len(s, i + 1, c.stage);
            let rr = par_run_m(s, i + 1, c.stage);
            assert(rr.children.update(j, x).update(i, c.node) =~= rr.children.update(
                i,
                c.node,
            ).update(j, x));
        }
    }
}

/// Advances one runtime node by one tick, applying its effects to the
/// stage.  Returns the advanced node, whether it has now completed, and
/// whether it completed without consuming time — exactly as [`step_m`]
/// says.
pub fn step_node(n: Node, st: &mut Stage) -> (r: (Node, bool, bool))
    requires
        node_wf(n@),
        stage_wf(old(st)@),
    ensures
        ({
            let sr = step_m(n@, old(st)@);
            &&& r.0@ == sr.node
            &&& final(st)@ == sr.stage
            &&& r.1 == sr.done
            &&& r.2 == sr.zero
        }),
        stage_wf(final(st)@),
    decreases node_height(n@), 1int, 0int,
{
    if node_done(&n) {
        return (n, true, true);
    }
    match n {
        Node::Sequence { children, idx } => {
            proof {
                lemma_node_views(children@);
            }
            let (children2, idx2, done, zero) = step_seq(children, idx, st);
            (Node::Sequence { children: children2, idx: idx2 }, done, zero)
        }
        Node::Parallel { children } => {
            proof {
                lemma_node_views(children@);
            }
            let (children2, done, zero) = step_par(children, st);
            (Node::Parallel { children: children2 }, done, zero)
        }
        Node::Loop { count, iters, body } => {
            let fresh = fresh_copy(&body);
            proof {
                lemma_reset_wf(body@);
                lemma_reset_height(body@);
                lemma_reset_idempotent(body@);
            }
            let (cur, iters2, done, zero) = step_loop(count, iters, *body, fresh, st);
            (Node::Loop { count, iters: iters2, body: Box::new(cur) }, done, zero)
        }
        Node::Wait { total, elapsed } => {
            let e2 = elapsed + 1;
            (Node::Wait { total, elapsed: e2 }, e2 >= total, false)
        }
        Node::SlideTo { actor, dest, accel, decel, total, elapsed, start } => {
            let s0 = match start {
                Some(p) => p,
                None => {
                    proof {
                        crate::stage::lemma_actor_pos_wf(st@, actor);
                    }
                    match st.pos_of(actor) {
                        Some(p) => p,
                        None => dest,
                    }
                }
            };
            let e2 = elapsed + 1;
            let p = slide_pos(s0, dest, e2, total, accel, decel);
            st.set_pos(actor, p);
            (
                Node::SlideTo { actor, dest, accel, decel, total, elapsed: e2, start: Some(s0) },
                e2 >= total,
                false,
            )
        }
        Node::JumpTo { actor, dest, total, elapsed, start } => {
            let s0 = match start {
                Some(p) => p,
                None => {
                    proof {
                        crate::stage::lemma_actor_pos_wf(st@, actor);
                    }
                    match st.pos_of(actor) {
                        Some(p) => p,
                        None => dest,
                    }
                }
            };
            let e2 = elapsed + 1;
            let p = jump_pos(s0, dest, e2, total);
            st.set_pos(actor, p);
            (
                Node::JumpTo { actor, dest, total, elapsed: e2, start: Some(s0) },
                e2 >= total,
                false,
            )
        }
        Node::Shake { total, elapsed } => {
            let e2 = elapsed + 1;
            st.shake = total - e2;
            (Node::Shake { total, elapsed: e2 }, e2 >= total, false)
        }
        Node::SetBackground { name, fired: _ } => {
            st.bg = name.clone();
            (Node::SetBackground { name, fired: true }, true, true)
        }
        Node::PlaceActor { actor, sprite, frame, pos, fired: _ } => {
            st.place(Actor { id: actor, sprite: sprite.clone(), frame, pos, visible: true });
            (Node::PlaceActor { actor, sprite, frame, pos, fired: true }, true, true)
        }
        Node::RemoveActor { actor, fired: _ } => {
            st.remove(actor);
            (Node::RemoveActor { actor, fired: true }, true, true)
        }
        Node::PlaySound { id, fired: _ } => {
            st.sounds.push(id);
            (Node::PlaySound { id, fired: true }, true, true)
        }
        Node::Say { actor, style, place, text, total, elapsed } => {
            let e2 = elapsed + 1;
            (Node::Say { actor, style, place, text, total, elapsed: e2 }, e2 >= total, false)
        }
        Node::Notify { channel, value, fired: _ } => {
            st.queue.push((channel, value));
            (Node::Notify { channel, value, fired: true }, true, true)
        }
    }
}

#[verifier::loop_isolation(false)]
fn step_seq(children: Vec<Node>, idx: usize, st: &mut Stage) -> (r: (Vec<Node>, usize, bool, bool))
    requires
        nodes_wf(node_views(children@), 0),
        idx <= children.len(),
        stage_wf(old(st)@),
    ensures
        ({
            let sr = seq_run_m(node_views(children@), idx as int, old(st)@);
            &&& node_views(r.0@) == sr.children
            &&& r.1 == sr.idx
            &&& final(st)@ == sr.stage
            &&& r.2 == sr.done
            &&& r.3 == sr.zero
        }),
        stage_wf(final(st)@),
    decreases nodes_height(node_views(children@)), 2int, 0int,
{
    let ghost views0 = node_views(children@);
    let ghost st0 = st@;
    let ghost sr = seq_run_m(views0, idx as int, st0);
    proof {
        lemma_node_views(children@);
        lemma_nodes_wf_index(views0, 0);
    }
    let mut children = children;
    let mut i: usize = idx;
    loop
        invariant
            idx <= i <= children.len(),
            children.len() == views0.len(),
            node_views(children@).len() == children.len(),
            stage_wf(st@),
            nodes_wf(views0, 0),
            forall|k: int| 0 <= k < children.len() ==> #[trigger] node_views(children@)[k]
                == children@[k]@,
            forall|k: int| i <= k < children.len() ==> #[trigger] node_views(children@)[k]
                == views0[k],
            sr == seq_run_m(node_views(children@), i as int, st@),
            sr == seq_run_m(views0, idx as int, st0),
        decreases children.len() - i,
    {
        let ghost views_now = node_views(children@);
        if i >= children.len() {
            return (children, i, true, true);
        }
        proof {
            lemma_nodes_wf_index(views0, 0);
            assert(node_wf(children@[i as int]@));
        }
        let child = children.remove(i);
        proof {
            assert(child@ == views0[i as int]);
            crate::node::lemma_nodes_height_index(views0, i as int);
        }
        let (child2, cdone, czero) = step_node(child, st);
        children.insert(i, child2);
        proof {
            assert(children@ =~= children@.subrange(0, i as int).push(child2) + children@.subrange(
                i + 1,
                children@.len() as int,
            ));
        }
        let ghost views_next = node_views(children@);
        proof {
            lemma_node_views(children@);
            assert(views_next =~= views_now.update(i as int, child2@));
        }
        if !cdone {
            proof {
                assert(sr == SeqRes {
                    children: views_next,
                    idx: i as int,
                    stage: st@,
                    done: false,
                    zero: false,
                });
            }
            return (children, i, false, false);
        } else if czero {
            proof {
                lemma_seq_run_update_below(views_now, i as int, child2@, i as int + 1, st@);
            }
            i = i + 1;
        } else {
            let done = i + 1 >= children.len();
            return (children, i + 1, done, false);
        }
    }
}

#[verifier::loop_isolation(false)]
fn step_par(children: Vec<Node>, st: &mut Stage) -> (r: (Vec<Node>, bool, bool))
    requires
        nodes_wf(node_views(children@), 0),
        stage_wf(old(st)@),
    ensures
        ({
            let pr = par_run_m(node_views(children@), 0, old(st)@);
            &&& node_views(r.0@) == pr.children
            &&& final(st)@ == pr.stage
            &&& r.1 == pr.done
            &&& r.2 == pr.zero
        }),
        stage_wf(final(st)@),
    decreases nodes_height(node_views(children@)), 2int, 0int,
{
    let ghost views0 = node_views(children@);
    let ghost st0 = st@;
    let ghost pr = par_run_m(views0, 0, st0);
    proof {
        lemma_node_views(children@);
        lemma_nodes_wf_index(views0, 0);
    }
    let mut children = children;
    let mut i: usize = 0;
    let mut done_acc = true;
    let mut zero_acc = true;
    loop
        invariant
            0 <= i <= children.len(),
            children.len() == views0.len(),
            node_views(children@).len() == children.len(),
            stage_wf(st@),
            nodes_wf(views0, 0),
            forall|k: int| 0 <= k < children.len() ==> #[trigger] node_views(children@)[k]
                == children@[k]@,
            forall|k: int| i <= k < children.len() ==> #[trigger] node_views(children@)[k]
                == views0[k],
            ({
                let rr = par_run_m(node_views(children@), i as int, st@);
                &&& pr.children == rr.children
                &&& pr.stage == rr.stage
                &&& pr.done == (done_acc && rr.done)
                &&& pr.zero == (zero_acc && rr.zero)
            }),
        decreases children.len() - i,
    {
        let ghost views_now = node_views(children@);
        if i >= children.len() {
            return (children, done_acc, zero_acc);
        }
        proof {
            lemma_nodes_wf_index(views0, 0);
            assert(node_wf(children@[i as int]@));
        }
        if node_done(&children[i]) {
            i = i + 1;
            continue;
        }
        let child = children.remove(i);
        proof {
            assert(child@ == views0[i as int]);
            crate::node::lemma_nodes_height_index(views0, i as int);
        }
        let (child2, cdone, czero) = step_node(child, st);
        children.insert(i, child2);
        proof {
            assert(children@ =~= children@.subrange(0, i as int).push(child2) + children@.subrange(
                i + 1,
                children@.len() as int,
            ));
        }
        let ghost views_next = node_views(children@);
        proof {
            lemma_node_views(children@);
            assert(views_next =~= views_now.update(i as int, child2@));
            lemma_par_run_update_below(views_now, i as int, child2@, i as int + 1, st@);
        }
        done_acc = done_acc && cdone;
        zero_acc = zero_acc && czero;
        i = i + 1;
    }
}

fn step_loop(count: u32, iters: u32, cur: Node, fresh: Node, st: &mut Stage) -> (r: (
    Node,
    u32,
    bool,
    bool,
))
    requires
        node_wf(cur@),
        node_wf(fresh@),
        fresh@ == reset_m(fresh@),
        iters < count <= crate::script::MAX_LOOP_COUNT,
        stage_wf(old(st)@),
    ensures
        ({
            let lr = loop_run_m(count as int, iters as int, cur@, fresh@, old(st)@);
            &&& r.0@ == lr.cur
            &&& r.1 == lr.iters
            &&& final(st)@ == lr.stage
            &&& r.2 == lr.done
            &&& r.3 == lr.zero
        }),
        stage_wf(final(st)@),
    decreases max_height(node_height(cur@), node_height(fresh@)), 2int, count - iters,
{
    let (cur2, cdone, czero) = step_node(cur, st);
    if !cdone {
        (cur2, iters, false, false)
    } else if iters + 1 >= count {
        (cur2, iters + 1, true, czero)
    } else if !czero {
        let next = fresh_copy(&fresh);
        proof {
            lemma_reset_height(fresh@);
        }
        (next, iters + 1, false, false)
    } else {
        let next = fresh_copy(&fresh);
        proof {
            lemma_reset_height(fresh@);
            lemma_reset_wf(fresh@);
        }
        step_loop(count, iters + 1, next, fresh, st)
    }
}

} // verus!
