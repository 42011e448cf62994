//! Preservation and progress properties of the stepper.
//!
//! A tick keeps the runtime tree and the stage well formed and reports
//! completion exactly when the advanced tree is complete; it never
//! invents or loses structure (the reset of a stepped node is the reset
//! of the node); and it strictly decreases the remaining work of an
//! unfinished node — which is why every scene runs to completion in
//! finitely many ticks.

use vstd::prelude::*;

use crate::geom::Point;
use crate::node::lemma_nodes_done_index;
use crate::node::lemma_nodes_height_index;
use crate::node::lemma_nodes_wf_index;
use crate::node::lemma_reset_height;
use crate::node::lemma_reset_idempotent;
use crate::node::lemma_reset_wf;
use crate::node::lemma_resets_index;
use crate::node::lemma_works_from_index;
use crate::node::node_done_m;
use crate::node::node_height;
use crate::node::node_wf;
use crate::node::nodes_height;
use crate::node::reset_m;
use crate::node::resets_m;
use crate::node::work_m;
use crate::node::works_from;
use crate::node::NodeM;
use crate::stage::lemma_actor_pos_wf;
use crate::stage::lemma_place_wf;
use crate::stage::lemma_remove_wf;
use crate::stage::lemma_set_pos_wf;
use crate::stage::stage_wf;
use crate::stage::StageM;
use crate::step::arc_off_m;
use crate::step::axis_pos_m;
use crate::step::eased_off_m;
use crate::step::jump_pos_m;
use crate::step::loop_run_m;
use crate::step::max_height;
use crate::step::par_run_m;
use crate::step::lemma_par_run_len;
use crate::step::lemma_seq_run_len;
use crate::step::seq_run_m;
use crate::step::slide_pos_m;
use crate::step::step_m;

verus! {

// ------------------------------------------------------------------
// Interpolated positions stay within the stage bound.
// ------------------------------------------------------------------

/// The eased offset lies between zero and the magnitude.
pub proof fn lemma_eased_off_range(mag: int, e: int, t: int, accel: bool, decel: bool)
    requires
        0 <= mag,
    ensures
        0 <= eased_off_m(mag, e, t, accel, decel) <= mag,
{
}

/// A slide position lies between its endpoints, axis by axis.
pub proof fn lemma_slide_pos_wf(s: Point, d: Point, e: int, t: int, accel: bool, decel: bool)
    requires
        s.in_bounds_stage(),
        d.in_bounds(),
    ensures
        slide_pos_m(s, d, e, t, accel, decel).in_bounds_stage(),
{
    lemma_eased_off_range(
        if d.x >= s.x {
            d.x - s.x
        } else {
            s.x - d.x
        },
        e,
        t,
        accel,
        decel,
    );
    lemma_eased_off_range(
        if d.y >= s.y {
            d.y - s.y
        } else {
            s.y - d.y
        },
        e,
        t,
        accel,
        decel,
    );
}

/// A jump position is clamped into the stage bound.
pub proof fn lemma_jump_pos_wf(s: Point, d: Point, e: int, t: int)
    requires
        s.in_bounds_stage(),
        d.in_bounds(),
    ensures
        jump_pos_m(s, d, e, t).in_bounds_stage(),
{
    lemma_eased_off_range(
        if d.x >= s.x {
            d.x - s.x
        } else {
            s.x - d.x
        },
        e,
        t,
        false,
        false,
    );
}

// ------------------------------------------------------------------
// A stepped node resets to the same pristine node.
// ------------------------------------------------------------------

/// Stepping does not change what a node resets to.
pub proof fn lemma_step_reset(n: NodeM, st: StageM)
    ensures
        reset_m(step_m(n, st).node) == reset_m(n),
    decreases node_height(n), 1int, 0int,
{
    if !node_done_m(n) {
        match n {
            NodeM::Sequence { children, idx } => {
                lemma_seq_run_reset(children, idx, st);
            },
            NodeM::Parallel { children } => {
                lemma_par_run_reset(children, 0, st);
            },
            NodeM::Loop { count, iters, body } => {
                lemma_reset_idempotent(*body);
                lemma_reset_height(*body);
                lemma_loop_run_reset(count, iters, *body, reset_m(*body), st);
            },
            _ => {},
        }
    }
}

proof fn lemma_seq_run_reset(children: Seq<NodeM>, idx: int, st: StageM)
    ensures
        resets_m(seq_run_m(children, idx, st).children) == resets_m(children),
    decreases nodes_height(children), 2int, children.len() - idx,
{
    if 0 <= idx < children.len() {
        lemma_nodes_height_index(children, idx);
        let r = step_m(children[idx], st);
        lemma_step_reset(children[idx], st);
        lemma_resets_index(children);
        if !r.done {
            lemma_resets_index(children.update(idx, r.node));
            assert(resets_m(children.update(idx, r.node)) =~= resets_m(children));
        } else if r.zero {
            lemma_seq_run_reset(children, idx + 1, r.stage);
            lemma_seq_run_len(children, idx + 1, r.stage);
            let rr = seq_run_m(children, idx + 1, r.stage);
            lemma_resets_index(rr.children);
            lemma_resets_index(rr.children.update(idx, r.node));
            assert(resets_m(rr.children.update(idx, r.node)) =~= resets_m(children));
        } else {
            lemma_resets_index(children.update(idx, r.node));
            assert(resets_m(children.update(idx, r.node)) =~= resets_m(children));
        }
    }
}

proof fn lemma_par_run_reset(children: Seq<NodeM>, i: int, st: StageM)
    ensures
        resets_m(par_run_m(children, i, st).children) == resets_m(children),
    decreases nodes_height(children), 2int, children.len() - i,
{
    if 0 <= i < children.len() {
        lemma_nodes_height_index(children, i);
        if node_done_m(children[i]) {
            lemma_par_run_reset(children, i + 1, st);
        } else {
            let r = step_m(children[i], st);
            lemma_step_reset(children[i], st);
            lemma_par_run_reset(children, i + 1, r.stage);
            lemma_par_run_len(children, i + 1, r.stage);
            let rr = par_run_m(children, i + 1, r.stage);
            lemma_resets_index(children);
            lemma_resets_index(rr.children);
            lemma_resets_index(rr.children.update(i, r.node));
            assert(resets_m(rr.children.update(i, r.node)) =~= resets_m(children));
        }
    }
}

proof fn lemma_loop_run_reset(count: int, iters: int, cur: NodeM, fresh: NodeM, st: StageM)
    requires
        fresh == reset_m(cur),
    ensures
        reset_m(loop_run_m(count, iters, cur, fresh, st).cur) == reset_m(cur),
    decreases max_height(node_height(cur), node_height(fresh)), 2int, count - iters,
{
    let r = step_m(cur, st);
    lemma_step_reset(cur, st);
    lemma_reset_idempotent(cur);
    if !r.done {
    } else if iters + 1 >= count {
    } else if !r.zero {
    } else {
        lemma_reset_height(cur);
        lemma_loop_run_reset(count, iters + 1, fresh, fresh, r.stage);
    }
}


// ------------------------------------------------------------------
// A step keeps the tree and stage well formed, and its completion
// flag agrees with the advanced tree.
// ------------------------------------------------------------------

/// Stepping a well-formed node on a well-formed stage gives a
/// well-formed node and stage, and reports completion exactly when the
/// advanced node is complete.
pub proof fn lemma_step_wf(n: NodeM, st: StageM)
    requires
        node_wf(n),
        stage_wf(st),
    ensures
        node_wf(step_m(n, st).node),
        stage_wf(step_m(n, st).stage),
        step_m(n, st).done == node_done_m(step_m(n, st).node),
    decreases node_height(n), 1int, 0int,
{
    if node_done_m(n) {
        return;
    }
    let r = step_m(n, st);
    match n {
        NodeM::Sequence { children, idx } => {
            lemma_nodes_wf_index(children, 0);
            lemma_seq_run_wf(children, idx, st);
            let sr = seq_run_m(children, idx, st);
            lemma_nodes_wf_index(sr.children, 0);
        },
        NodeM::Parallel { children } => {
            lemma_nodes_wf_index(children, 0);
            lemma_par_run_wf(children, 0, st);
            let pr = par_run_m(children, 0, st);
            lemma_nodes_wf_index(pr.children, 0);
            lemma_nodes_done_index(pr.children, 0);
        },
        NodeM::Loop { count, iters, body } => {
            lemma_reset_wf(*body);
            lemma_reset_idempotent(*body);
            lemma_reset_height(*body);
            lemma_loop_run_wf(count, iters, *body, reset_m(*body), st);
        },
        NodeM::SlideTo { actor, dest, accel, decel, total, elapsed, start } => {
            let s0 = match start {
                Some(p) => p,
                None => match crate::stage::actor_pos_m(st, actor) {
                    Some(p) => p,
                    None => dest,
                },
            };
            lemma_actor_pos_wf(st, actor);
            lemma_slide_pos_wf(s0, dest, elapsed + 1, total, accel, decel);
            lemma_set_pos_wf(st, actor, slide_pos_m(s0, dest, elapsed + 1, total, accel, decel));
        },
        NodeM::JumpTo { actor, dest, total, elapsed, start } => {
            let s0 = match start {
                Some(p) => p,
                None => match crate::stage::actor_pos_m(st, actor) {
                    Some(p) => p,
                    None => dest,
                },
            };
            lemma_actor_pos_wf(st, actor);
            lemma_jump_pos_wf(s0, dest, elapsed + 1, total);
            lemma_set_pos_wf(st, actor, jump_pos_m(s0, dest, elapsed + 1, total));
        },
        NodeM::PlaceActor { actor, sprite, frame, pos, .. } => {
            lemma_place_wf(
                st,
                crate::stage::ActorM { id: actor, sprite, frame, pos, visible: true },
            );
        },
        NodeM::RemoveActor { actor, .. } => {
            lemma_remove_wf(st, actor);
        },
        _ => {},
    }
}

proof fn lemma_seq_run_wf(children: Seq<NodeM>, idx: int, st: StageM)
    requires
        0 <= idx <= children.len(),
        forall|k: int| 0 <= k < children.len() ==> node_wf(#[trigger] children[k]),
        forall|k: int| idx <= k < children.len() ==> !node_done_m(#[trigger] children[k]),
        stage_wf(st),
    ensures
        ({
            let r = seq_run_m(children, idx, st);
            &&& r.children.len() == children.len()
            &&& idx <= r.idx <= children.len()
            &&& forall|k: int| 0 <= k < r.children.len() ==> node_wf(#[trigger] r.children[k])
            &&& forall|k: int|
                r.idx <= k < r.children.len() ==> !node_done_m(#[trigger] r.children[k])
            &&& stage_wf(r.stage)
            &&& r.done == (r.idx >= children.len())
        }),
    decreases nodes_height(children), 2int, children.len() - idx,
{
    if idx < children.len() {
        lemma_nodes_height_index(children, idx);
        let c = step_m(children[idx], st);
        lemma_step_wf(children[idx], st);
        if !c.done {
            let upd = children.update(idx, c.node);
            assert forall|k: int| 0 <= k < upd.len() implies node_wf(#[trigger] upd[k]) by {
                if k != idx {
                    assert(upd[k] == children[k]);
                }
            }
        } else if c.zero {
            lemma_seq_run_wf(children, idx + 1, c.stage);
            let rr = seq_run_m(children, idx + 1, c.stage);
            let upd = rr.children.update(idx, c.node);
            assert forall|k: int| 0 <= k < upd.len() implies node_wf(#[trigger] upd[k]) by {
                if k != idx {
                    assert(upd[k] == rr.children[k]);
                }
            }
            assert forall|k: int| rr.idx <= k < upd.len() implies !node_done_m(
                #[trigger] upd[k],
            ) by {
                assert(upd[k] == rr.children[k]);
            }
        } else {
            let upd = children.update(idx, c.node);
            assert forall|k: int| 0 <= k < upd.len() implies node_wf(#[trigger] upd[k]) by {
                if k != idx {
                    assert(upd[k] == children[k]);
                }
            }
            assert forall|k: int| idx + 1 <= k < upd.len() implies !node_done_m(
                #[trigger] upd[k],
            ) by {
                assert(upd[k] == children[k]);
            }
        }
    }
}

proof fn lemma_par_run_wf(children: Seq<NodeM>, i: int, st: StageM)
    requires
        0 <= i <= children.len(),
        forall|k: int| 0 <= k < children.len() ==> node_wf(#[trigger] children[k]),
        stage_wf(st),
    ensures
        ({
            let r = par_run_m(children, i, st);
            &&& r.children.len() == children.len()
            &&& forall|k: int| 0 <= k < r.children.len() ==> node_wf(#[trigger] r.children[k])
            &&& forall|j: int| 0 <= j < i ==> #[trigger] r.children[j] == children[j]
            &&& stage_wf(r.stage)
            &&& r.done == (forall|k: int|
                i <= k < r.children.len() ==> node_done_m(#[trigger] r.children[k]))
        }),
    decreases nodes_height(children), 2int, children.len() - i,
{
    let r = par_run_m(children, i, st);
    if i >= children.len() {
    } else {
        lemma_nodes_height_index(children, i);
        if node_done_m(children[i]) {
            lemma_par_run_wf(children, i + 1, st);
            let rr = par_run_m(children, i + 1, st);
            assert(r.children[i] == children[i]);
            assert(r.done == (forall|k: int|
                i <= k < r.children.len() ==> node_done_m(#[trigger] r.children[k]))) by {
                if rr.done {
                    assert(node_done_m(r.children[i]));
                }
            }
        } else {
            let c = step_m(children[i], st);
            lemma_step_wf(children[i], st);
            lemma_par_run_wf(children, i + 1, c.stage);
            let rr = par_run_m(children, i + 1, c.stage);
            let upd = rr.children.update(i, c.node);
            assert forall|k: int| 0 <= k < upd.len() implies node_wf(#[trigger] upd[k]) by {
                if k != i {
                    assert(upd[k] == rr.children[k]);
                }
            }
            assert forall|j: int| 0 <= j < i implies #[trigger] upd[j] == children[j] by {
                assert(upd[j] == rr.children[j]);
            }
            assert(r.done == (forall|k: int|
                i <= k < upd.len() ==> node_done_m(#[trigger] upd[k]))) by {
                assert(upd[i] == c.node);
                if c.done && rr.done {
                    assert forall|k: int| i <= k < upd.len() implies node_done_m(
                        #[trigger] upd[k],
                    ) by {
                        if k != i {
                            assert(upd[k] == rr.children[k]);
                        }
                    }
                } else if !c.done {
                    assert(!node_done_m(upd[i]));
                } else {
                    let w = choose|k: int|
                        i + 1 <= k < rr.children.len() && !node_done_m(
                            #[trigger] rr.children[k],
                        );
                    assert(!node_done_m(upd[w]));
                }
            }
        }
    }
}

proof fn lemma_loop_run_wf(count: int, iters: int, cur: NodeM, fresh: NodeM, st: StageM)
    requires
        node_wf(cur),
        !node_done_m(cur),
        node_wf(fresh),
        !node_done_m(fresh),
        fresh == reset_m(fresh),
        0 <= iters < count,
        stage_wf(st),
    ensures
        ({
            let r = loop_run_m(count, iters, cur, fresh, st);
            &&& node_wf(r.cur)
            &&& iters <= r.iters <= count
            &&& stage_wf(r.stage)
            &&& r.done == (r.iters >= count)
            &&& !r.done ==> !node_done_m(r.cur)
        }),
    decreases max_height(node_height(cur), node_height(fresh)), 2int, count - iters,
{
    let c = step_m(cur, st);
    lemma_step_wf(cur, st);
    if !c.done {
    } else if iters + 1 >= count {
    } else if !c.zero {
    } else {
        lemma_reset_height(cur);
        lemma_reset_idempotent(fresh);
        lemma_loop_run_wf(count, iters + 1, fresh, fresh, c.stage);
    }
}

// ------------------------------------------------------------------
// A step strictly decreases the remaining work of an unfinished node.
// ------------------------------------------------------------------

/// Work at positions at or past `i` ignores an update below `i`.
proof fn lemma_works_from_update_below(s: Seq<NodeM>, j: int, x: NodeM, i: int)
    requires
        0 <= j < i,
        j < s.len(),
    ensures
        works_from(s.update(j, x), i) == works_from(s, i),
    decreases s.len() - i,
{
    if 0 <= i < s.len() {
        lemma_works_from_update_below(s, j, x, i + 1);
        assert(s.update(j, x)[i] == s[i]);
    }
}

/// Unfolds the summed work at an updated head position.
proof fn lemma_works_from_update_at(s: Seq<NodeM>, i: int, x: NodeM)
    requires
        0 <= i < s.len(),
    ensures
        works_from(s.update(i, x), i) == work_m(x) + works_from(s, i + 1),
    decreases s.len() - i,
{
    lemma_works_from_update_below(s, i, x, i + 1);
    assert(s.update(i, x)[i] == x);
}

/// Stepping never increases remaining work, and strictly decreases it
/// for an unfinished node.
pub proof fn lemma_step_work(n: NodeM, st: StageM)
    requires
        node_wf(n),
    ensures
        work_m(step_m(n, st).node) <= work_m(n),
        !node_done_m(n) ==> work_m(step_m(n, st).node) < work_m(n),
    decreases node_height(n), 1int, 0int,
{
    if node_done_m(n) {
        return;
    }
    match n {
        NodeM::Sequence { children, idx } => {
            lemma_nodes_wf_index(children, 0);
            lemma_seq_run_work(children, idx, st);
            lemma_seq_run_len(children, idx, st);
        },
        NodeM::Parallel { children } => {
            lemma_nodes_wf_index(children, 0);
            lemma_nodes_done_index(children, 0);
            lemma_par_run_work(children, 0, st);
        },
        NodeM::Loop { count, iters, body } => {
            lemma_reset_idempotent(*body);
            lemma_reset_height(*body);
            lemma_loop_run_work(count, iters, *body, reset_m(*body), st);
        },
        _ => {},
    }
}

proof fn lemma_seq_run_work(children: Seq<NodeM>, idx: int, st: StageM)
    requires
        0 <= idx <= children.len(),
        forall|k: int| 0 <= k < children.len() ==> node_wf(#[trigger] children[k]),
        forall|k: int| idx <= k < children.len() ==> !node_done_m(#[trigger] children[k]),
    ensures
        ({
            let r = seq_run_m(children, idx, st);
            let w0 = (children.len() - idx) + works_from(children, idx);
            let w1 = (children.len() - r.idx) + works_from(r.children, r.idx);
            &&& w1 <= w0
            &&& idx < children.len() ==> w1 < w0
        }),
    decreases nodes_height(children), 2int, children.len() - idx,
{
    if idx < children.len() {
        lemma_nodes_height_index(children, idx);
        let c = step_m(children[idx], st);
        lemma_step_work(children[idx], st);
        lemma_seq_run_len(children, idx, st);
        if !c.done {
            lemma_works_from_update_at(children, idx, c.node);
        } else if c.zero {
            lemma_seq_run_work(children, idx + 1, c.stage);
            lemma_seq_run_len(children, idx + 1, c.stage);
            let rr = seq_run_m(children, idx + 1, c.stage);
            lemma_works_from_update_below(rr.children, idx, c.node, rr.idx);
        } else {
            lemma_works_from_update_below(children, idx, c.node, idx + 1);
        }
    }
}

proof fn lemma_par_run_work(children: Seq<NodeM>, i: int, st: StageM)
    requires
        0 <= i <= children.len(),
        forall|k: int| 0 <= k < children.len() ==> node_wf(#[trigger] children[k]),
    ensures
        ({
            let r = par_run_m(children, i, st);
            &&& works_from(r.children, i) <= works_from(children, i)
            &&& forall|j: int| 0 <= j < i ==> #[trigger] r.children[j] == children[j]
            &&& (exists|k: int|
                i <= k < children.len() && !node_done_m(#[trigger] children[k]))
                ==> works_from(r.children, i) < works_from(children, i)
        }),
    decreases nodes_height(children), 2int, children.len() - i,
{
    let r = par_run_m(children, i, st);
    if i >= children.len() {
    } else {
        lemma_nodes_height_index(children, i);
        lemma_par_run_len(children, i, st);
        if node_done_m(children[i]) {
            lemma_par_run_wf_free(children, i, st);
            lemma_par_run_work(children, i + 1, st);
            let rr = par_run_m(children, i + 1, st);
            assert(works_from(r.children, i) == work_m(r.children[i]) + works_from(
                rr.children,
                i + 1,
            ));
            assert(r.children[i] == children[i]);
            if exists|k: int| i <= k < children.len() && !node_done_m(#[trigger] children[k]) {
                let w = choose|k: int|
                    i <= k < children.len() && !node_done_m(#[trigger] children[k]);
                assert(w != i);
                assert(exists|k: int|
                    i + 1 <= k < children.len() && !node_done_m(#[trigger] children[k]));
            }
        } else {
            let c = step_m(children[i], st);
            lemma_step_work(children[i], st);
            lemma_par_run_work(children, i + 1, c.stage);
            lemma_par_run_len(children, i + 1, c.stage);
            let rr = par_run_m(children, i + 1, c.stage);
            lemma_works_from_update_at(rr.children, i, c.node);
            assert(works_from(rr.children.update(i, c.node), i) == work_m(c.node)
                + works_from(rr.children, i + 1));
            assert(works_from(rr.children, i + 1) <= works_from(children, i + 1));
            assert(work_m(c.node) < work_m(children[i]));
            assert forall|j: int| 0 <= j < i implies #[trigger] r.children[j]
                == children[j] by {
                assert(r.children[j] == rr.children[j]);
            }
        }
    }
}

/// Positions before `i` are untouched by a parallel run (needed without
/// the stage well-formedness that [`lemma_par_run_wf`] asks for).
proof fn lemma_par_run_wf_free(children: Seq<NodeM>, i: int, st: StageM)
    requires
        0 <= i <= children.len(),
    ensures
        ({
            let r = par_run_m(children, i, st);
            forall|j: int| 0 <= j < i ==> #[trigger] r.children[j] == children[j]
        }),
    decreases children.len() - i,
{
    lemma_par_run_len(children, i, st);
    if i < children.len() {
        if node_done_m(children[i]) {
            lemma_par_run_wf_free(children, i + 1, st);
            let rr = par_run_m(children, i + 1, st);
            let r = par_run_m(children, i, st);
            assert forall|j: int| 0 <= j < i implies #[trigger] r.children[j]
                == children[j] by {
                assert(r.children[j] == rr.children[j]);
            }
        } else {
            let c = step_m(children[i], st);
            lemma_par_run_wf_free(children, i + 1, c.stage);
            lemma_par_run_len(children, i + 1, c.stage);
            let rr = par_run_m(children, i + 1, c.stage);
            let r = par_run_m(children, i, st);
            assert forall|j: int| 0 <= j < i implies #[trigger] r.children[j]
                == children[j] by {
                assert(r.children[j] == rr.children[j]);
            }
        }
    }
}

proof fn lemma_loop_run_work(count: int, iters: int, cur: NodeM, fresh: NodeM, st: StageM)
    requires
        node_wf(cur),
        !node_done_m(cur),
        fresh == reset_m(cur),
        0 <= iters < count,
    ensures
        ({
            let r = loop_run_m(count, iters, cur, fresh, st);
            work_m(NodeM::Loop { count, iters: r.iters, body: Box::new(r.cur) }) < work_m(
                NodeM::Loop { count, iters, body: Box::new(cur) },
            )
        }),
    decreases max_height(node_height(cur), node_height(fresh)), 2int, count - iters,
{
    let c = step_m(cur, st);
    lemma_step_work(cur, st);
    lemma_step_reset(cur, st);
    let wcur = work_m(cur);
    let wfresh = work_m(fresh);
    proof_mul_facts(count, iters, wcur as int, wfresh as int);
    if !c.done {
        assert(reset_m(c.node) == reset_m(cur));
        proof_mul_facts(count, iters, work_m(c.node) as int, wfresh as int);
    } else if iters + 1 >= count {
    } else if !c.zero {
        lemma_reset_idempotent(cur);
        proof_mul_facts(count, iters + 1, wfresh as int, wfresh as int);
    } else {
        lemma_reset_idempotent(cur);
        lemma_reset_wf(cur);
        lemma_reset_height(cur);
        lemma_loop_run_work(count, iters + 1, fresh, fresh, c.stage);
        proof_mul_facts(count, iters + 1, wfresh as int, wfresh as int);
    }
}

/// Ring facts used by the loop work accounting.
proof fn proof_mul_facts(count: int, iters: int, w: int, f: int)
    requires
        f >= 0,
        w >= 0,
    ensures
        iters + 1 < count ==> (count - iters - 1) * f == (count - iters - 2) * f + f,
        iters < count ==> (count - iters - 1) * f >= 0,
        iters < count ==> (count - iters) * f == (count - iters - 1) * f + f,
{
    assert(iters + 1 < count ==> (count - iters - 1) * f == (count - iters - 2) * f + f)
        by (nonlinear_arith);
    assert(iters < count ==> (count - iters - 1) * f >= 0) by (nonlinear_arith)
        requires f >= 0;
    assert(iters < count ==> (count - iters) * f == (count - iters - 1) * f + f)
        by (nonlinear_arith);
}

} // verus!
