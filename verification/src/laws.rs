//! Laws of the scene interpreter, stated and proved once and for all.

use vstd::prelude::*;

use crate::control::core_run_m;
use crate::control::core_tick_m;
use crate::control::CoreM;
use crate::control::LiveScene;
use crate::node::node_done_m;
use crate::node::work_m;
use crate::node::NodeM;
use crate::scene::run_m;
use crate::scene::run_to_done_m;
use crate::scene::scene_done;
use crate::scene::scene_tick_m;
use crate::scene::scene_wf;
use crate::scene::lemma_scene_tick_wf;
use crate::scene::SceneM;
use crate::script::MAX_TICKS;
use crate::stage::StageM;
use crate::step::seq_run_m;
use crate::step::step_m;

verus! {

/// Determinism: running the same compiled scene to completion twice,
/// feeding identical tick counts, produces identical states — in
/// particular, identical notification sequences and identical actor
/// positions.  The interpreter consults nothing but the scene itself.
pub proof fn law_determinism(s1: SceneM, s2: SceneM, k: nat)
    requires
        s1 == s2,
    ensures
        run_m(s1, k) == run_m(s2, k),
        run_m(s1, k).stage.queue == run_m(s2, k).stage.queue,
        run_m(s1, k).stage.actors == run_m(s2, k).stage.actors,
{
}

/// A completed scene is a fixed point of ticking.
pub proof fn lemma_run_done_fixed(s: SceneM, k: nat)
    requires
        scene_done(s),
    ensures
        run_m(s, k) == s,
    decreases k,
{
    if k > 0 {
        lemma_run_done_fixed(scene_tick_m(s), (k - 1) as nat);
    }
}

/// Instant/skip equivalence: once tick-by-tick play has finished a scene,
/// its state — notification sequence included — is exactly the state the
/// fast-path skip produces on the identical scene.
pub proof fn law_skip_equivalence(s: SceneM, k: nat)
    requires
        scene_wf(s),
        scene_done(run_m(s, k)),
    ensures
        run_m(s, k) == run_to_done_m(s),
        run_m(s, k).stage.queue == run_to_done_m(s).stage.queue,
    decreases k,
{
    if scene_done(s) {
        lemma_run_done_fixed(s, k);
    } else {
        assert(k > 0) by {
            if k == 0 {
                assert(run_m(s, k) == s);
            }
        }
        lemma_scene_tick_wf(s);
        law_skip_equivalence(scene_tick_m(s), (k - 1) as nat);
    }
}

/// Ticks compose: running `a + b` ticks is running `a`, then `b`.
pub proof fn lemma_run_add(s: SceneM, a: nat, b: nat)
    ensures
        run_m(s, a + b) == run_m(run_m(s, a), b),
    decreases a,
{
    if a > 0 {
        lemma_run_add(scene_tick_m(s), (a - 1) as nat, b);
    }
}

/// Every well-formed scene terminates: the remaining work of its tree
/// bounds the ticks it can still consume, because each tick of an
/// unfinished scene strictly decreases it.
pub proof fn law_termination(s: SceneM)
    requires
        scene_wf(s),
    ensures
        scene_done(run_m(s, work_m(s.root))),
    decreases work_m(s.root),
{
    if !scene_done(s) {
        let s2 = scene_tick_m(s);
        crate::node::lemma_work_pos(s.root);
        crate::progress::lemma_step_work(s.root, s.stage);
        crate::progress::lemma_step_wf(s.root, s.stage);
        law_termination(s2);
        let w = work_m(s.root);
        let w2 = work_m(s2.root);
        assert(1 <= w && w2 < w);
        let rest = (w - 1 - w2) as nat;
        assert(run_m(s, w) == run_m(s2, (w - 1) as nat));
        assert(w2 + rest == (w - 1) as nat);
        lemma_run_add(s2, w2, rest);
        assert(run_m(s2, (w - 1) as nat) == run_m(run_m(s2, w2), rest));
        lemma_run_done_fixed(run_m(s2, w2), rest);
    } else {
        lemma_run_done_fixed(s, work_m(s.root));
    }
}

/// Preemption discards unfired leaves: once the intro has been replaced
/// (by the outro or an extra scene), no number of further ticks ever
/// advances it again — whatever it had not yet fired never fires.  The
/// notifications it had already appended survive the replacement itself:
/// see the queue clause of `PuzzleCore::begin_outro_scene`.
pub proof fn law_preemption_discards_unfired<C>(c: CoreM<C>, k: nat)
    requires
        c.live != LiveScene::Intro,
    ensures
        core_run_m(c, k).intro == c.intro,
        core_run_m(c, k).live != LiveScene::Intro,
    decreases k,
{
    if k > 0 {
        law_preemption_discards_unfired(core_tick_m(c), (k - 1) as nat);
    }
}

/// A parallel pair of plain waits with the given durations and elapsed
/// ticks.
pub open spec fn par_two_waits(d1: int, d2: int, e1: int, e2: int) -> NodeM {
    NodeM::Parallel {
        children: seq![
            NodeM::Wait { total: d1, elapsed: e1 },
            NodeM::Wait { total: d2, elapsed: e2 },
        ],
    }
}

/// The smaller of two mathematical integers.
pub open spec fn min_int(a: int, b: int) -> int {
    if a <= b {
        a
    } else {
        b
    }
}

/// A parallel pair of waits is complete exactly when both have elapsed.
pub proof fn lemma_par_waits_done(d1: int, d2: int, e1: int, e2: int)
    ensures
        node_done_m(par_two_waits(d1, d2, e1, e2)) == (e1 >= d1 && e2 >= d2),
{
    let children = par_two_waits(d1, d2, e1, e2)->Parallel_children;
    reveal_with_fuel(crate::node::node_done_m, 3);
    reveal_with_fuel(crate::node::nodes_done_from, 4);
    assert(children.len() == 2);
    assert(children[0] == NodeM::Wait { total: d1, elapsed: e1 });
    assert(children[1] == NodeM::Wait { total: d2, elapsed: e2 });
}

/// One tick of a parallel pair of waits: each unfinished branch advances
/// by one tick, a finished branch is not stepped, and nothing touches
/// the stage.
pub proof fn lemma_par_waits_tick(d1: int, d2: int, e1: int, e2: int, st: StageM)
    requires
        1 <= d1,
        1 <= d2,
        0 <= e1 <= d1,
        0 <= e2 <= d2,
        e1 < d1 || e2 < d2,
    ensures
        ({
            let r = step_m(par_two_waits(d1, d2, e1, e2), st);
            let e1n = min_int(e1 + 1, d1);
            let e2n = min_int(e2 + 1, d2);
            &&& r.node == par_two_waits(d1, d2, e1n, e2n)
            &&& r.stage == st
            &&& r.done == (e1n >= d1 && e2n >= d2)
        }),
{
    let n = par_two_waits(d1, d2, e1, e2);
    let children = n->Parallel_children;
    let c0 = NodeM::Wait { total: d1, elapsed: e1 };
    let c1 = NodeM::Wait { total: d2, elapsed: e2 };
    lemma_par_waits_done(d1, d2, e1, e2);
    lemma_par_waits_done(d1, d2, e1 + 1, e2 + 1);
    reveal_with_fuel(crate::node::node_done_m, 3);
    reveal_with_fuel(crate::step::step_m, 3);
    reveal_with_fuel(crate::step::par_run_m, 4);
    assert(children.len() == 2);
    assert(children[0] == c0);
    assert(children[1] == c1);
    let r = step_m(n, st);
    let e1n = min_int(e1 + 1, d1);
    let e2n = min_int(e2 + 1, d2);
    if e1 < d1 && e2 < d2 {
        let rr2 = crate::step::par_run_m(children, 2, st);
        assert(rr2.children == children);
        assert(r.node->Parallel_children =~= par_two_waits(
            d1,
            d2,
            e1 + 1,
            e2 + 1,
        )->Parallel_children);
    } else if e1 < d1 {
        assert(r.node->Parallel_children =~= par_two_waits(
            d1,
            d2,
            e1 + 1,
            e2,
        )->Parallel_children);
    } else {
        assert(r.node->Parallel_children =~= par_two_waits(
            d1,
            d2,
            e1,
            e2 + 1,
        )->Parallel_children);
    }
}

/// Join barrier: a parallel node whose branches last `d1 < d2` ticks
/// reports completion exactly at the tick where the longer branch
/// completes, and the shorter branch's post-completion ticks have no
/// further effect — the stage never changes at all.
pub proof fn law_join_barrier(d1: int, d2: int, st: StageM, k: nat)
    requires
        1 <= d1 < d2 <= MAX_TICKS,
    ensures
        ({
            let s = SceneM { root: par_two_waits(d1, d2, 0, 0), stage: st };
            let r = run_m(s, k);
            &&& r.root == par_two_waits(d1, d2, min_int(k as int, d1), min_int(k as int, d2))
            &&& r.stage == st
            &&& (scene_done(r) <==> k >= d2)
        }),
{
    law_join_barrier_from(d1, d2, 0, st, k);
}

/// The inductive heart of [`law_join_barrier`], from any mid-run state:
/// after `e2` ticks the shorter branch holds at `min(e2, d1)`.
pub proof fn law_join_barrier_from(d1: int, d2: int, e2: int, st: StageM, k: nat)
    requires
        1 <= d1 < d2 <= MAX_TICKS,
        0 <= e2 <= d2,
    ensures
        ({
            let s = SceneM { root: par_two_waits(d1, d2, min_int(e2, d1), e2), stage: st };
            let r = run_m(s, k);
            &&& r.root == par_two_waits(
                d1,
                d2,
                min_int(e2 + k, d1),
                min_int(e2 + k, d2),
            )
            &&& r.stage == st
            &&& (scene_done(r) <==> e2 + k >= d2)
        }),
    decreases k,
{
    let e1 = min_int(e2, d1);
    let s = SceneM { root: par_two_waits(d1, d2, e1, e2), stage: st };
    lemma_par_waits_done(d1, d2, e1, e2);
    if k == 0 {
    } else {
        if e2 >= d2 {
            assert(scene_done(s));
            lemma_run_done_fixed(s, k);
        } else {
            lemma_par_waits_tick(d1, d2, e1, e2, st);
            assert(min_int(e1 + 1, d1) == min_int(e2 + 1, d1));
            assert(scene_tick_m(s) == SceneM {
                root: par_two_waits(d1, d2, min_int(e2 + 1, d1), e2 + 1),
                stage: st,
            });
            law_join_barrier_from(d1, d2, e2 + 1, st, (k - 1) as nat);
        }
    }
}

/// An unfired notification leaf.
pub open spec fn notify_leaf(channel: i32, value: i32, fired: bool) -> NodeM {
    NodeM::Notify { channel, value, fired }
}

/// Sequence zero-duration chaining: a sequence of three consecutive
/// instantaneous leaves followed by one timed leaf fires all three
/// within the tick the sequence starts — their notifications are in the
/// buffer, in script order, after one tick — while the timed leaf has
/// consumed exactly that one first tick.
#[verifier::rlimit(60)]
pub proof fn law_zero_duration_chaining(
    c1: i32,
    v1: i32,
    c2: i32,
    v2: i32,
    c3: i32,
    v3: i32,
    t: int,
    st: StageM,
)
    requires
        1 <= t <= MAX_TICKS,
    ensures
        ({
            let root = NodeM::Sequence {
                children: seq![
                    notify_leaf(c1, v1, false),
                    notify_leaf(c2, v2, false),
                    notify_leaf(c3, v3, false),
                    NodeM::Wait { total: t, elapsed: 0 },
                ],
                idx: 0,
            };
            let r = scene_tick_m(SceneM { root, stage: st });
            &&& r.stage.queue == st.queue + seq![(c1, v1), (c2, v2), (c3, v3)]
            &&& r.stage.actors == st.actors
            &&& r.stage.bg == st.bg
            &&& r.root == NodeM::Sequence {
                children: seq![
                    notify_leaf(c1, v1, true),
                    notify_leaf(c2, v2, true),
                    notify_leaf(c3, v3, true),
                    NodeM::Wait { total: t, elapsed: 1 },
                ],
                idx: if t == 1 {
                    4int
                } else {
                    3int
                },
            }
            &&& (scene_done(r) <==> t == 1)
        }),
{
    reveal_with_fuel(crate::node::node_done_m, 3);
    reveal_with_fuel(crate::step::step_m, 3);
    reveal_with_fuel(seq_run_m, 6);
    let children = seq![
        notify_leaf(c1, v1, false),
        notify_leaf(c2, v2, false),
        notify_leaf(c3, v3, false),
        NodeM::Wait { total: t, elapsed: 0 },
    ];
    let root = NodeM::Sequence { children, idx: 0 };
    assert(!node_done_m(root));
    let st1 = StageM { queue: st.queue.push((c1, v1)), ..st };
    let st2 = StageM { queue: st1.queue.push((c2, v2)), ..st1 };
    let st3 = StageM { queue: st2.queue.push((c3, v3)), ..st2 };
    let r = step_m(root, st);
    let sr = seq_run_m(children, 0, st);
    assert(sr.children =~= children.update(0, notify_leaf(c1, v1, true)).update(
        1,
        notify_leaf(c2, v2, true),
    ).update(2, notify_leaf(c3, v3, true)).update(3, NodeM::Wait { total: t, elapsed: 1 }));
    assert(sr.children =~= seq![
        notify_leaf(c1, v1, true),
        notify_leaf(c2, v2, true),
        notify_leaf(c3, v3, true),
        NodeM::Wait { total: t, elapsed: 1 },
    ]);
    assert(st3.queue =~= st.queue + seq![(c1, v1), (c2, v2), (c3, v3)]);
}

} // verus!
