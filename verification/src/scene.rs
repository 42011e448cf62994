//! A scene: a compiled timeline script bound to its stage.
//!
//! A scene advances by exactly one discrete tick at a time and reports
//! whether it is still running.  It can also be skipped: driven to
//! completion in one call, depositing exactly the notifications that
//! tick-by-tick play would have deposited.

use vstd::prelude::*;

use crate::node::compiles_m;
use crate::node::fresh_copy;
use crate::node::lemma_compiles_index;
use crate::node::lemma_nodes_wf_index;
use crate::node::lemma_reset_wf;
use crate::node::node_done;
use crate::node::node_done_m;
use crate::node::node_wf;
use crate::node::reset_m;
use crate::node::work_m;
use crate::node::Node;
use crate::node::NodeM;
use crate::progress::lemma_step_wf;
use crate::progress::lemma_step_work;
use crate::script::ast_views;
use crate::script::script_wf;
use crate::script::Ast;
use crate::stage::empty_stage;
use crate::stage::lemma_empty_stage_wf;
use crate::stage::stage_wf;
use crate::stage::Stage;
use crate::stage::StageM;
use crate::step::step_m;

verus! {

/// A live scene: the runtime tree and the stage it acts upon.
#[derive(Debug)]
pub struct Scene {
    pub root: Node,
    pub stage: Stage,
}

/// The mathematical value of a [`Scene`].
pub struct SceneM {
    pub root: NodeM,
    pub stage: StageM,
}

impl View for Scene {
    type V = SceneM;

    open spec fn view(&self) -> SceneM {
        SceneM { root: self.root@, stage: self.stage@ }
    }
}

/// Scene well-formedness: a well-formed tree on a well-formed stage.
pub open spec fn scene_wf(s: SceneM) -> bool {
    node_wf(s.root) && stage_wf(s.stage)
}

/// Whether the scene has run to completion.
pub open spec fn scene_done(s: SceneM) -> bool {
    node_done_m(s.root)
}

/// One tick of a scene; a completed scene is left untouched.
pub open spec fn scene_tick_m(s: SceneM) -> SceneM {
    if scene_done(s) {
        s
    } else {
        let r = step_m(s.root, s.stage);
        SceneM { root: r.node, stage: r.stage }
    }
}

/// The scene after `k` ticks.
pub open spec fn run_m(s: SceneM, k: nat) -> SceneM
    decreases k,
{
    if k == 0 {
        s
    } else {
        run_m(scene_tick_m(s), (k - 1) as nat)
    }
}

/// The scene run to completion: what skipping produces, and what
/// tick-by-tick play reaches after enough ticks.
pub open spec fn run_to_done_m(s: SceneM) -> SceneM
    decreases work_m(s.root),
        when scene_wf(s)
        via run_to_done_m_decreases
{
    if scene_done(s) {
        s
    } else {
        run_to_done_m(scene_tick_m(s))
    }
}

#[via_fn]
proof fn run_to_done_m_decreases(s: SceneM) {
    if !scene_done(s) {
        lemma_step_work(s.root, s.stage);
        lemma_step_wf(s.root, s.stage);
    }
}

/// A tick preserves well-formedness.
pub proof fn lemma_scene_tick_wf(s: SceneM)
    requires
        scene_wf(s),
    ensures
        scene_wf(scene_tick_m(s)),
{
    if !scene_done(s) {
        lemma_step_wf(s.root, s.stage);
    }
}

/// The compiled scene of a script: the script's nodes in sequence, on an
/// empty stage.
pub open spec fn compile_scene_m(script: Seq<crate::script::AstM>) -> SceneM {
    SceneM {
        root: NodeM::Sequence { children: compiles_m(script), idx: 0 },
        stage: empty_stage(),
    }
}

impl Scene {
    /// Compiles a script into a fresh scene.  The script must be
    /// well-formed (see [`crate::script::script_valid`]): a malformed
    /// script is an authoring defect, not a runtime condition.
    pub fn compile(script: &Vec<Ast>) -> (s: Scene)
        requires
            script_wf(ast_views(script@)),
            script@.len() >= 1,
        ensures
            s@ == compile_scene_m(ast_views(script@)),
            scene_wf(s@),
            !scene_done(s@),
    {
        proof {
            crate::script::lemma_ast_views(script@);
        }
        let children = crate::node::compile_nodes(script);
        let root = Node::Sequence { children, idx: 0 };
        let stage = Stage::new();
        proof {
            lemma_empty_stage_wf();
            lemma_compiles_wf_pub(ast_views(script@));
            lemma_nodes_wf_index(compiles_m(ast_views(script@)), 0);
            lemma_compiles_index(ast_views(script@));
        }
        Scene { root, stage }
    }

    /// Whether the scene has run to completion.
    pub fn is_finished(&self) -> (r: bool)
        ensures
            r == scene_done(self@),
    {
        node_done(&self.root)
    }

    /// Advances the scene by exactly one tick and reports whether it is
    /// still running afterwards.
    pub fn tick(&mut self) -> (running: bool)
        requires
            scene_wf(old(self)@),
        ensures
            final(self)@ == scene_tick_m(old(self)@),
            scene_wf(final(self)@),
            running == !scene_done(final(self)@),
    {
        proof {
            lemma_scene_tick_wf(self@);
        }
        if self.is_finished() {
            return false;
        }
        let mut root = Node::Wait { total: 1, elapsed: 1 };
        core::mem::swap(&mut root, &mut self.root);
        proof {
            lemma_step_wf(root@, self.stage@);
        }
        let (root2, done, _zero) = crate::step::step_node(root, &mut self.stage);
        self.root = root2;
        !done
    }

    /// Drives the scene to completion in one call, bypassing the tick
    /// source: every remaining effect is applied, in script order, just
    /// as tick-by-tick play would have applied it.
    #[verifier::loop_isolation(false)]
    pub fn skip_to_end(&mut self)
        requires
            scene_wf(old(self)@),
        ensures
            final(self)@ == run_to_done_m(old(self)@),
            scene_wf(final(self)@),
            scene_done(final(self)@),
    {
        loop
            invariant
                scene_wf(self@),
                run_to_done_m(self@) == run_to_done_m(old(self)@),
            decreases work_m(self@.root),
        {
            proof {
                if !scene_done(self@) {
                    lemma_step_work(self@.root, self@.stage);
                    lemma_step_wf(self@.root, self@.stage);
                }
            }
            if !self.tick() {
                return;
            }
        }
    }

    /// Restarts the scene from its root: all interpreter progress is
    /// discarded and the stage is cleared.  Notifications still sitting
    /// in the buffer are discarded with it; the owner drains them first.
    pub fn restart(&mut self)
        requires
            node_wf(old(self)@.root),
        ensures
            final(self)@ == (SceneM { root: reset_m(old(self)@.root), stage: empty_stage() }),
            scene_wf(final(self)@),
            !scene_done(final(self)@),
    {
        proof {
            lemma_reset_wf(self@.root);
            lemma_empty_stage_wf();
        }
        let root = fresh_copy(&self.root);
        self.root = root;
        self.stage = Stage::new();
    }

    /// Removes and returns the buffered notifications, in the order the
    /// script fired them.
    pub fn take_notifications(&mut self) -> (q: Vec<(i32, i32)>)
        ensures
            q@ == old(self)@.stage.queue,
            final(self)@ == (SceneM {
                stage: StageM { queue: Seq::<(i32, i32)>::empty(), ..old(self)@.stage },
                ..old(self)@
            }),
    {
        let mut q: Vec<(i32, i32)> = Vec::new();
        core::mem::swap(&mut q, &mut self.stage.queue);
        q
    }

    /// Removes and returns the sound effects requested since the last
    /// drain, in order.
    pub fn take_sounds(&mut self) -> (s: Vec<u32>)
        ensures
            s@ == old(self)@.stage.sounds,
            final(self)@ == (SceneM {
                stage: StageM { sounds: Seq::<u32>::empty(), ..old(self)@.stage },
                ..old(self)@
            }),
    {
        let mut s: Vec<u32> = Vec::new();
        core::mem::swap(&mut s, &mut self.stage.sounds);
        s
    }

    /// The current screen-shake offset, in pixels: alternates direction
    /// and fades with the remaining shake ticks.
    pub fn shake_offset(&self) -> (dx: i32)
        requires
            stage_wf(self@.stage),
        ensures
            dx == shake_offset_m(self@.stage.shake),
    {
        if self.stage.shake == 0 {
            0
        } else if self.stage.shake % 2 == 0 {
            (self.stage.shake / 2) as i32 + 1
        } else {
            -((self.stage.shake / 2) as i32) - 1
        }
    }
}

/// The screen-shake offset for a remaining shake count: zero at rest,
/// otherwise alternating sign with fading magnitude.
pub open spec fn shake_offset_m(shake: u32) -> i32 {
    if shake == 0 {
        0
    } else if shake % 2 == 0 {
        ((shake / 2) + 1) as i32
    } else {
        (-((shake / 2) as i32) - 1) as i32
    }
}

/// Re-export of the compiled children well-formedness, for scene
/// assembly.
pub proof fn lemma_compiles_wf_pub(s: Seq<crate::script::AstM>)
    requires
        forall|i: int| 0 <= i < s.len() ==> crate::script::ast_wf(#[trigger] s[i]),
    ensures
        forall|i: int|
            0 <= i < s.len() ==> node_wf(#[trigger] compiles_m(s)[i]) && !node_done_m(
                compiles_m(s)[i],
            ),
{
    lemma_compiles_index(s);
    assert forall|i: int| 0 <= i < s.len() implies node_wf(#[trigger] compiles_m(s)[i])
        && !node_done_m(compiles_m(s)[i]) by {
        crate::node::lemma_compile_wf(s[i]);
    }
}

} // verus!
