//! The declarative timeline script language.
//!
//! A script is an immutable tree of composite nodes (sequence, parallel,
//! loop) and leaves, built once and compiled into a runtime scene before
//! it is played.  Durations are declared in milliseconds and converted to
//! whole ticks at a fixed tick rate when the script is compiled; the
//! rounding rule is round-half-up with a minimum of one tick, so replays
//! are bit-identical.

use vstd::prelude::*;
use vstd::string::StrSliceExecFns;

use crate::geom::Point;

verus! {

/// The fixed nominal tick rate the host loop delivers.
pub const TICKS_PER_SECOND: u32 = 40;

/// The longest declarable duration, in milliseconds.
pub const MAX_MILLIS: u32 = 1000000;

/// An upper bound on the tick count of any timed leaf.
pub const MAX_TICKS: u32 = 40000;

/// The longest dialogue text a script may carry, in characters.
pub const MAX_TALK_LEN: usize = 4096;

/// The strongest allowed screen shake, which also bounds its duration
/// in ticks.
pub const MAX_SHAKE: u32 = 100;

/// The most times a loop may repeat its body.
pub const MAX_LOOP_COUNT: u32 = 10000;

/// Ticks a dialogue stays up regardless of its text.
pub const TALK_BASE_TICKS: u32 = 40;

/// Additional display ticks per character of dialogue text.
pub const TALK_TICKS_PER_CHAR: u32 = 2;

/// How a dialogue bubble is drawn.
#[derive(Clone, Copy, Debug, PartialEq, Eq, Structural)]
pub enum TalkStyle {
    /// An ordinary speech bubble.
    Normal,
    /// A system console message.
    System,
    /// A thought bubble.
    Thought,
}

/// Where a dialogue bubble sits relative to its actor.
#[derive(Clone, Copy, Debug, PartialEq, Eq, Structural)]
pub enum TalkPos {
    NE,
    NW,
    SE,
    SW,
    E,
    W,
}

/// One node of a timeline script.  Durations are in milliseconds,
/// positions in pixels, actors named by small integer identifiers scoped
/// to the scene.
#[derive(Debug)]
pub enum Ast {
    /// Runs the children strictly in order.
    Sequence(Vec<Ast>),
    /// Starts all children at once; completes when every child has.
    Parallel(Vec<Ast>),
    /// Runs the body the given number of times.
    Loop(u32, Box<Ast>),
    /// Consumes time only.
    Wait(u32),
    /// Slides an actor to a destination over a duration; the two flags
    /// ease the start and the end of the motion.
    SlideTo(i32, Point, bool, bool, u32),
    /// Moves an actor to a destination along a parabolic jump arc.
    JumpTo(i32, Point, u32),
    /// Shakes the screen; the intensity is also its duration in ticks.
    Shake(u32),
    /// Sets the scene background, instantaneously.
    SetBackground(String),
    /// Places (or replaces) an actor: identifier, sprite set, frame, position.
    PlaceActor(i32, String, u32, Point),
    /// Removes an actor, instantaneously.
    RemoveActor(i32),
    /// Fires a sound effect, instantaneously.
    PlaySound(u32),
    /// Shows dialogue for an actor for a text-length-derived duration.
    Say(i32, TalkStyle, TalkPos, String),
    /// Appends `(channel, value)` to the scene's notification buffer,
    /// instantaneously.
    Notify(i32, i32),
}

/// The mathematical value of an [`Ast`].
pub enum AstM {
    Sequence { children: Seq<AstM> },
    Parallel { children: Seq<AstM> },
    Loop { count: u32, body: Box<AstM> },
    Wait { millis: u32 },
    SlideTo { actor: i32, dest: Point, accel: bool, decel: bool, millis: u32 },
    JumpTo { actor: i32, dest: Point, millis: u32 },
    Shake { intensity: u32 },
    SetBackground { name: Seq<char> },
    PlaceActor { actor: i32, sprite: Seq<char>, frame: u32, pos: Point },
    RemoveActor { actor: i32 },
    PlaySound { id: u32 },
    Say { actor: i32, style: TalkStyle, place: TalkPos, text: Seq<char> },
    Notify { channel: i32, value: i32 },
}

/// The view of a script node.
pub open spec fn ast_view(a: Ast) -> AstM
    decreases a,
{
    match a {
        Ast::Sequence(children) => AstM::Sequence { children: ast_views(children@) },
        Ast::Parallel(children) => AstM::Parallel { children: ast_views(children@) },
        Ast::Loop(count, body) => AstM::Loop { count, body: Box::new(ast_view(*body)) },
        Ast::Wait(millis) => AstM::Wait { millis },
        Ast::SlideTo(actor, dest, accel, decel, millis) => AstM::SlideTo {
            actor,
            dest,
            accel,
            decel,
            millis,
        },
        Ast::JumpTo(actor, dest, millis) => AstM::JumpTo { actor, dest, millis },
        Ast::Shake(intensity) => AstM::Shake { intensity },
        Ast::SetBackground(name) => AstM::SetBackground { name: name@ },
        Ast::PlaceActor(actor, sprite, frame, pos) => AstM::PlaceActor {
            actor,
            sprite: sprite@,
            frame,
            pos,
        },
        Ast::RemoveActor(actor) => AstM::RemoveActor { actor },
        Ast::PlaySound(id) => AstM::PlaySound { id },
        Ast::Say(actor, style, place, text) => AstM::Say { actor, style, place, text: text@ },
        Ast::Notify(channel, value) => AstM::Notify { channel, value },
    }
}

/// The views of a sequence of script nodes, in order.
pub open spec fn ast_views(s: Seq<Ast>) -> Seq<AstM>
    decreases s,
{
    if s.len() == 0 {
        Seq::<AstM>::empty()
    } else {
        ast_views(s.drop_last()).push(ast_view(s.last()))
    }
}

/// [`ast_views`] is the element-wise view.
pub proof fn lemma_ast_views(s: Seq<Ast>)
    ensures
        ast_views(s).len() == s.len(),
        forall|i: int| 0 <= i < s.len() ==> #[trigger] ast_views(s)[i] == ast_view(s[i]),
    decreases s.len(),
{
    if s.len() > 0 {
        lemma_ast_views(s.drop_last());
    }
}

impl View for Ast {
    type V = AstM;

    open spec fn view(&self) -> AstM {
        ast_view(*self)
    }
}

/// Structural well-formedness of a script node: composites are nonempty,
/// loop counts are positive, durations and coordinates are bounded, and
/// dialogue text is not unreasonably long.  Anything else is a script
/// authoring defect and is rejected before a scene is built.
pub open spec fn ast_wf(a: AstM) -> bool
    decreases a,
{
    match a {
        AstM::Sequence { children } => children.len() >= 1 && forall|i: int|
            0 <= i < children.len() ==> ast_wf(#[trigger] children[i]),
        AstM::Parallel { children } => children.len() >= 1 && forall|i: int|
            0 <= i < children.len() ==> ast_wf(#[trigger] children[i]),
        AstM::Loop { count, body } => 1 <= count <= MAX_LOOP_COUNT && ast_wf(*body),
        AstM::Wait { millis } => millis <= MAX_MILLIS,
        AstM::SlideTo { dest, millis, .. } => dest.in_bounds() && millis <= MAX_MILLIS,
        AstM::JumpTo { dest, millis, .. } => dest.in_bounds() && millis <= MAX_MILLIS,
        AstM::Shake { intensity } => 1 <= intensity <= MAX_SHAKE,
        AstM::SetBackground { .. } => true,
        AstM::PlaceActor { pos, .. } => pos.in_bounds(),
        AstM::RemoveActor { .. } => true,
        AstM::PlaySound { .. } => true,
        AstM::Say { text, .. } => text.len() <= MAX_TALK_LEN,
        AstM::Notify { .. } => true,
    }
}

/// A whole script is well-formed when each of its top-level nodes is.
pub open spec fn script_wf(script: Seq<AstM>) -> bool {
    forall|i: int| 0 <= i < script.len() ==> ast_wf(#[trigger] script[i])
}

/// The number of whole ticks a declared duration occupies: milliseconds
/// at the fixed tick rate, rounded half up, and at least one tick, so
/// every timed action occupies at least one full tick.
pub open spec fn ticks_from_millis_m(millis: u32) -> u32
    recommends
        millis <= MAX_MILLIS,
{
    let t = ((millis * TICKS_PER_SECOND + 500) / 1000) as u32;
    if t == 0 {
        1u32
    } else {
        t
    }
}

/// How long a dialogue with `len` characters of text stays up, in ticks.
pub open spec fn talk_ticks_m(len: nat) -> u32
    recommends
        len <= MAX_TALK_LEN,
{
    (TALK_BASE_TICKS + TALK_TICKS_PER_CHAR * len) as u32
}

/// Executable form of [`ticks_from_millis_m`].
pub fn ticks_from_millis(millis: u32) -> (t: u32)
    requires
        millis <= MAX_MILLIS,
    ensures
        t == ticks_from_millis_m(millis),
        1 <= t <= MAX_TICKS,
{
    let t = (millis * TICKS_PER_SECOND + 500) / 1000;
    if t == 0 {
        1
    } else {
        t
    }
}

/// Executable check of [`ast_wf`]: scripts are validated before they are
/// compiled, and a malformed script is refused as an authoring defect.
pub fn ast_valid(a: &Ast) -> (r: bool)
    ensures
        r == ast_wf(a@),
    decreases *a,
{
    match a {
        Ast::Sequence(children) => {
            proof {
                lemma_ast_views(children@);
            }
            children.len() >= 1 && ast_children_valid(children)
        }
        Ast::Parallel(children) => {
            proof {
                lemma_ast_views(children@);
            }
            children.len() >= 1 && ast_children_valid(children)
        }
        Ast::Loop(count, body) => 1 <= *count && *count <= MAX_LOOP_COUNT && ast_valid(body),
        Ast::Wait(millis) => *millis <= MAX_MILLIS,
        Ast::SlideTo(_, dest, _, _, millis) => point_in_bounds(*dest) && *millis <= MAX_MILLIS,
        Ast::JumpTo(_, dest, millis) => point_in_bounds(*dest) && *millis <= MAX_MILLIS,
        Ast::Shake(intensity) => 1 <= *intensity && *intensity <= MAX_SHAKE,
        Ast::SetBackground(_) => true,
        Ast::PlaceActor(_, _, _, pos) => point_in_bounds(*pos),
        Ast::RemoveActor(_) => true,
        Ast::PlaySound(_) => true,
        Ast::Say(_, _, _, text) => text.as_str().unicode_len() <= MAX_TALK_LEN,
        Ast::Notify(_, _) => true,
    }
}

fn ast_children_valid(children: &Vec<Ast>) -> (r: bool)
    ensures
        r == script_wf(ast_views(children@)),
    decreases children@,
{
    let ghost views = ast_views(children@);
    proof {
        lemma_ast_views(children@);
    }
    let mut i: usize = 0;
    while i < children.len()
        invariant
            0 <= i <= children.len(),
            views == ast_views(children@),
            views.len() == children.len(),
            forall|k: int| 0 <= k < i ==> ast_wf(#[trigger] views[k]),
            forall|k: int| 0 <= k < children@.len() ==> #[trigger] views[k] == ast_view(
                children@[k],
            ),
        decreases children.len() - i,
    {
        if !ast_valid(&children[i]) {
            proof {
                assert(views[i as int] == children@[i as int]@);
            }
            return false;
        }
        proof {
            assert(views[i as int] == children@[i as int]@);
        }
        i = i + 1;
    }
    true
}

/// Executable check that both coordinates lie within the script bound.
pub fn point_in_bounds(p: Point) -> (r: bool)
    ensures
        r == p.in_bounds(),
{
    -crate::geom::COORD_BOUND <= p.x && p.x <= crate::geom::COORD_BOUND
        && -crate::geom::COORD_BOUND <= p.y && p.y <= crate::geom::COORD_BOUND
}

/// Executable check of [`script_wf`] over a whole script.
pub fn script_valid(script: &Vec<Ast>) -> (r: bool)
    ensures
        r == script_wf(ast_views(script@)),
{
    ast_children_valid(script)
}

} // verus!
