//! Layered draw instructions.
//!
//! The engine never renders; it emits an ordered draw instruction set per
//! frame, across three layers, so that puzzle-specific art can composite
//! between the scripted background and back actors, and the scripted
//! foreground actors and dialogue bubbles.  While no scene is live, the
//! script layer emits nothing.  Actors with negative identifiers are
//! background props and draw in the back layer; the others draw in the
//! middle layer, in placement order.

use vstd::prelude::*;

use crate::control::live_scene_m;
use crate::control::LiveScene;
use crate::control::PuzzleCore;
use crate::geom::Point;
use crate::node::node_views;
use crate::node::Node;
use crate::node::NodeM;
use crate::scene::Scene;
use crate::scene::SceneM;
use crate::script::TalkPos;
use crate::script::TalkStyle;
use crate::stage::actor_pos_m;
use crate::stage::ActorM;
use crate::stage::Stage;
use crate::stage::StageM;

verus! {

/// One drawing instruction.
#[derive(Clone, Debug)]
pub enum DrawCmd {
    /// Paint the named background.
    Background { name: String },
    /// Paint one frame of a sprite set at a position.
    Sprite { sprite: String, frame: u32, pos: Point },
    /// Paint a dialogue bubble anchored at its actor's position.
    Bubble { actor: i32, style: TalkStyle, place: TalkPos, text: String, anchor: Point },
}

/// The mathematical value of a [`DrawCmd`].
pub enum DrawCmdM {
    Background { name: Seq<char> },
    Sprite { sprite: Seq<char>, frame: u32, pos: Point },
    Bubble { actor: i32, style: TalkStyle, place: TalkPos, text: Seq<char>, anchor: Point },
}

impl View for DrawCmd {
    type V = DrawCmdM;

    open spec fn view(&self) -> DrawCmdM {
        match self {
            DrawCmd::Background { name } => DrawCmdM::Background { name: name@ },
            DrawCmd::Sprite { sprite, frame, pos } => DrawCmdM::Sprite {
                sprite: sprite@,
                frame: *frame,
                pos: *pos,
            },
            DrawCmd::Bubble { actor, style, place, text, anchor } => DrawCmdM::Bubble {
                actor: *actor,
                style: *style,
                place: *place,
                text: text@,
                anchor: *anchor,
            },
        }
    }
}

/// The views of a sequence of drawing instructions, in order.
pub open spec fn cmd_views(s: Seq<DrawCmd>) -> Seq<DrawCmdM>
    decreases s,
{
    if s.len() == 0 {
        Seq::<DrawCmdM>::empty()
    } else {
        cmd_views(s.drop_last()).push(s.last()@)
    }
}

/// [`cmd_views`] is the element-wise view.
pub proof fn lemma_cmd_views(s: Seq<DrawCmd>)
    ensures
        cmd_views(s).len() == s.len(),
        forall|i: int| 0 <= i < s.len() ==> #[trigger] cmd_views(s)[i] == s[i]@,
    decreases s.len(),
{
    if s.len() > 0 {
        lemma_cmd_views(s.drop_last());
    }
}

/// Whether an actor draws in the given layer.
pub open spec fn in_layer(a: ActorM, back: bool) -> bool {
    a.visible && ((a.id < 0) == back)
}

/// The sprite instructions of the actors that draw in the given layer,
/// in placement order.
pub open spec fn actor_cmds_m(actors: Seq<ActorM>, back: bool) -> Seq<DrawCmdM>
    decreases actors,
{
    if actors.len() == 0 {
        Seq::<DrawCmdM>::empty()
    } else {
        let rest = actor_cmds_m(actors.drop_last(), back);
        let a = actors.last();
        if in_layer(a, back) {
            rest.push(DrawCmdM::Sprite { sprite: a.sprite, frame: a.frame, pos: a.pos })
        } else {
            rest
        }
    }
}

/// The back layer of a stage: its background, then its background props.
pub open spec fn back_cmds_m(st: StageM) -> Seq<DrawCmdM> {
    seq![DrawCmdM::Background { name: st.bg }] + actor_cmds_m(st.actors, true)
}

/// The middle layer of a stage: its foreground actors.
pub open spec fn middle_cmds_m(st: StageM) -> Seq<DrawCmdM> {
    actor_cmds_m(st.actors, false)
}

/// Where a bubble is anchored: its actor's position, or the origin for a
/// dialogue whose actor was never placed.
pub open spec fn anchor_of(st: StageM, actor: i32) -> Point {
    match actor_pos_m(st, actor) {
        Some(p) => p,
        None => Point { x: 0, y: 0 },
    }
}

/// The dialogue bubbles of every running dialogue leaf, in document
/// order.  A dialogue shows from the tick it starts until the tick
/// before it completes.
pub open spec fn bubble_cmds_m(n: NodeM, st: StageM) -> Seq<DrawCmdM>
    decreases n, 0int, 0int,
{
    match n {
        NodeM::Sequence { children, .. } => bubble_cmds_seq(children, 0, st),
        NodeM::Parallel { children } => bubble_cmds_seq(children, 0, st),
        NodeM::Loop { body, .. } => bubble_cmds_m(*body, st),
        NodeM::Say { actor, style, place, text, total, elapsed } => {
            if 1 <= elapsed < total {
                seq![
                    DrawCmdM::Bubble { actor, style, place, text, anchor: anchor_of(st, actor) },
                ]
            } else {
                Seq::<DrawCmdM>::empty()
            }
        },
        _ => Seq::<DrawCmdM>::empty(),
    }
}

/// The bubbles of the children from position `i` on, concatenated.
pub open spec fn bubble_cmds_seq(children: Seq<NodeM>, i: int, st: StageM) -> Seq<DrawCmdM>
    decreases children, 1int, children.len() - i,
{
    if i < 0 || i >= children.len() {
        Seq::<DrawCmdM>::empty()
    } else {
        bubble_cmds_m(children[i], st) + bubble_cmds_seq(children, i + 1, st)
    }
}

/// The front layer of a scene: its dialogue bubbles.
pub open spec fn front_cmds_m(s: SceneM) -> Seq<DrawCmdM> {
    bubble_cmds_m(s.root, s.stage)
}

fn push_actor_cmds(st: &Stage, back: bool, out: &mut Vec<DrawCmd>)
    ensures
        cmd_views(final(out)@) == cmd_views(old(out)@) + actor_cmds_m(st@.actors, back),
{
    let ghost actors = st@.actors;
    proof {
        lemma_cmd_views(out@);
        assert(actors.take(0) =~= Seq::<ActorM>::empty());
        assert(cmd_views(out@) + actor_cmds_m(actors.take(0), back) =~= cmd_views(out@));
    }
    let mut i: usize = 0;
    while i < st.actors.len()
        invariant
            0 <= i <= st.actors.len(),
            actors == st@.actors,
            actors.len() == st.actors.len(),
            cmd_views(out@) == cmd_views(old(out)@) + actor_cmds_m(actors.take(i as int), back),
        decreases st.actors.len() - i,
    {
        let ghost out_pre = out@;
        let a = &st.actors[i];
        proof {
            assert(a@ == actors[i as int]);
            assert(actors.take(i + 1).drop_last() =~= actors.take(i as int));
            assert(actors.take(i + 1).last() == actors[i as int]);
        }
        if a.visible && ((a.id < 0) == back) {
            let cmd = DrawCmd::Sprite { sprite: a.sprite.clone(), frame: a.frame, pos: a.pos };
            out.push(cmd);
            proof {
                assert(out@.drop_last() =~= out_pre);
                assert(cmd_views(out@) == cmd_views(out_pre).push(cmd@));
            }
        }
        i = i + 1;
    }
    proof {
        assert(actors.take(actors.len() as int) =~= actors);
    }
}

fn push_bubble_cmds(n: &Node, st: &Stage, out: &mut Vec<DrawCmd>)
    ensures
        cmd_views(final(out)@) == cmd_views(old(out)@) + bubble_cmds_m(n@, st@),
    decreases *n, 0int, 0int,
{
    match n {
        Node::Sequence { children, .. } => {
            push_bubble_cmds_seq(children, 0, st, out);
        }
        Node::Parallel { children } => {
            push_bubble_cmds_seq(children, 0, st, out);
        }
        Node::Loop { body, .. } => {
            push_bubble_cmds(body, st, out);
        }
        Node::Say { actor, style, place, text, total, elapsed } => {
            if 1 <= *elapsed && *elapsed < *total {
                let anchor = match st.pos_of(*actor) {
                    Some(p) => p,
                    None => Point { x: 0, y: 0 },
                };
                let cmd = DrawCmd::Bubble {
                    actor: *actor,
                    style: *style,
                    place: *place,
                    text: text.clone(),
                    anchor,
                };
                let ghost out_pre = out@;
                out.push(cmd);
                proof {
                    lemma_cmd_views(out@);
                    assert(out@.drop_last() =~= out_pre);
                    assert(cmd_views(out@) =~= cmd_views(out_pre) + bubble_cmds_m(n@, st@));
                }
            } else {
                proof {
                    assert(cmd_views(out@) =~= cmd_views(out@) + bubble_cmds_m(n@, st@));
                }
            }
        }
        _ => {
            proof {
                assert(cmd_views(out@) =~= cmd_views(out@) + bubble_cmds_m(n@, st@));
            }
        }
    }
}

fn push_bubble_cmds_seq(children: &Vec<Node>, i: usize, st: &Stage, out: &mut Vec<DrawCmd>)
    requires
        i <= children.len(),
    ensures
        cmd_views(final(out)@) == cmd_views(old(out)@) + bubble_cmds_seq(
            node_views(children@),
            i as int,
            st@,
        ),
    decreases *children, 1int, children.len() - i,
{
    let ghost views = node_views(children@);
    proof {
        crate::node::lemma_node_views(children@);
    }
    if i >= children.len() {
        proof {
            assert(cmd_views(out@) =~= cmd_views(out@) + bubble_cmds_seq(views, i as int, st@));
        }
        return;
    }
    push_bubble_cmds(&children[i], st, out);
    push_bubble_cmds_seq(children, i + 1, st, out);
    proof {
        assert(cmd_views(out@) =~= cmd_views(old(out)@) + bubble_cmds_seq(views, i as int, st@));
    }
}

impl Scene {
    /// The back layer: the background, then the background props.
    pub fn draw_background_layer(&self) -> (v: Vec<DrawCmd>)
        ensures
            cmd_views(v@) == back_cmds_m(self@.stage),
    {
        let mut out: Vec<DrawCmd> = Vec::new();
        out.push(DrawCmd::Background { name: self.stage.bg.clone() });
        proof {
            lemma_cmd_views(out@);
            assert(cmd_views(out@) =~= seq![DrawCmdM::Background { name: self@.stage.bg }]);
        }
        push_actor_cmds(&self.stage, true, &mut out);
        out
    }

    /// The middle layer: the foreground actors, in placement order.
    pub fn draw_middle_layer(&self) -> (v: Vec<DrawCmd>)
        ensures
            cmd_views(v@) == middle_cmds_m(self@.stage),
    {
        let mut out: Vec<DrawCmd> = Vec::new();
        proof {
            assert(cmd_views(out@) + middle_cmds_m(self@.stage) =~= middle_cmds_m(self@.stage));
        }
        push_actor_cmds(&self.stage, false, &mut out);
        out
    }

    /// The front layer: the dialogue bubbles of every running dialogue.
    pub fn draw_foreground_layer(&self) -> (v: Vec<DrawCmd>)
        ensures
            cmd_views(v@) == front_cmds_m(self@),
    {
        let mut out: Vec<DrawCmd> = Vec::new();
        proof {
            assert(cmd_views(out@) + front_cmds_m(self@) =~= front_cmds_m(self@));
        }
        push_bubble_cmds(&self.root, &self.stage, &mut out);
        out
    }
}

impl<C> PuzzleCore<C> {
    /// The live scene's back layer; empty while the session is
    /// interactive, when the script layer is a no-op.
    pub fn draw_back_layer(&self) -> (v: Vec<DrawCmd>)
        ensures
            cmd_views(v@) == match live_scene_m(self@) {
                Some(s) => back_cmds_m(s.stage),
                None => Seq::<DrawCmdM>::empty(),
            },
    {
        match self.live {
            LiveScene::Idle => Vec::new(),
            LiveScene::Intro => self.intro.draw_background_layer(),
            LiveScene::Outro => self.outro.draw_background_layer(),
            LiveScene::Extra(i) => {
                if i < self.extras.len() {
                    self.extras[i].draw_background_layer()
                } else {
                    Vec::new()
                }
            }
        }
    }

    /// The live scene's middle layer; empty while interactive.
    pub fn draw_middle_layer(&self) -> (v: Vec<DrawCmd>)
        ensures
            cmd_views(v@) == match live_scene_m(self@) {
                Some(s) => middle_cmds_m(s.stage),
                None => Seq::<DrawCmdM>::empty(),
            },
    {
        match self.live {
            LiveScene::Idle => Vec::new(),
            LiveScene::Intro => self.intro.draw_middle_layer(),
            LiveScene::Outro => self.outro.draw_middle_layer(),
            LiveScene::Extra(i) => {
                if i < self.extras.len() {
                    self.extras[i].draw_middle_layer()
                } else {
                    Vec::new()
                }
            }
        }
    }

    /// The live scene's front layer; empty while interactive.
    pub fn draw_front_layer(&self) -> (v: Vec<DrawCmd>)
        ensures
            cmd_views(v@) == match live_scene_m(self@) {
                Some(s) => front_cmds_m(s),
                None => Seq::<DrawCmdM>::empty(),
            },
    {
        match self.live {
            LiveScene::Idle => Vec::new(),
            LiveScene::Intro => self.intro.draw_foreground_layer(),
            LiveScene::Outro => self.outro.draw_foreground_layer(),
            LiveScene::Extra(i) => {
                if i < self.extras.len() {
                    self.extras[i].draw_foreground_layer()
                } else {
                    Vec::new()
                }
            }
        }
    }
}

} // verus!
