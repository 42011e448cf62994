//! The mutable state a running scene acts upon: the actor registry, the
//! current background, the notification buffer, the sounds requested this
//! tick, and the screen-shake counter.

use vstd::prelude::*;

use crate::geom::Point;
use crate::geom::COORD_BOUND;

verus! {

/// Actor positions can overshoot the scripted coordinate bound a little
/// during a jump arc; everything the stage stores stays within this bound.
pub const STAGE_BOUND: i32 = 33000;

/// An on-screen scripted entity: a character or prop placed by the script.
#[derive(Clone, Debug)]
pub struct Actor {
    pub id: i32,
    pub sprite: String,
    pub frame: u32,
    pub pos: Point,
    pub visible: bool,
}

/// The mathematical value of an [`Actor`].
pub struct ActorM {
    pub id: i32,
    pub sprite: Seq<char>,
    pub frame: u32,
    pub pos: Point,
    pub visible: bool,
}

impl View for Actor {
    type V = ActorM;

    open spec fn view(&self) -> ActorM {
        ActorM {
            id: self.id,
            sprite: self.sprite@,
            frame: self.frame,
            pos: self.pos,
            visible: self.visible,
        }
    }
}

/// What a scene mutates while it runs.
#[derive(Debug)]
pub struct Stage {
    /// The current background name; empty until a background is set.
    pub bg: String,
    /// The actor registry, in placement order.
    pub actors: Vec<Actor>,
    /// The notification buffer: `(channel, value)` pairs in script order.
    pub queue: Vec<(i32, i32)>,
    /// Sound-effect identifiers requested and not yet drained.
    pub sounds: Vec<u32>,
    /// Remaining ticks of screen shake.
    pub shake: u32,
}

/// The mathematical value of a [`Stage`].
pub struct StageM {
    pub bg: Seq<char>,
    pub actors: Seq<ActorM>,
    pub queue: Seq<(i32, i32)>,
    pub sounds: Seq<u32>,
    pub shake: u32,
}

impl View for Stage {
    type V = StageM;

    open spec fn view(&self) -> StageM {
        StageM {
            bg: self.bg@,
            actors: self.actors@.map_values(|a: Actor| a@),
            queue: self.queue@,
            sounds: self.sounds@,
            shake: self.shake,
        }
    }
}

/// The index of the actor with identifier `id` among `actors`, searching
/// from position `i` on; `-1` when there is none.
pub open spec fn find_actor_from(actors: Seq<ActorM>, id: i32, i: int) -> int
    decreases actors.len() - i,
{
    if i < 0 || i >= actors.len() {
        -1
    } else if actors[i].id == id {
        i
    } else {
        find_actor_from(actors, id, i + 1)
    }
}

/// The index of the actor with identifier `id`, or `-1`.
pub open spec fn find_actor(actors: Seq<ActorM>, id: i32) -> int {
    find_actor_from(actors, id, 0)
}

/// The position of the actor with identifier `id`, if it is placed.
pub open spec fn actor_pos_m(st: StageM, id: i32) -> Option<Point> {
    let j = find_actor(st.actors, id);
    if j >= 0 {
        Some(st.actors[j].pos)
    } else {
        None
    }
}

/// Placing an actor: an already-placed actor with the same identifier is
/// overwritten in place, keeping its slot in the registry order; a new
/// actor is appended.
pub open spec fn place_actor_m(st: StageM, a: ActorM) -> StageM {
    let j = find_actor(st.actors, a.id);
    if j >= 0 {
        StageM { actors: st.actors.update(j, a), ..st }
    } else {
        StageM { actors: st.actors.push(a), ..st }
    }
}

/// Removing an actor; removing an identifier that is not placed changes
/// nothing.
pub open spec fn remove_actor_m(st: StageM, id: i32) -> StageM {
    let j = find_actor(st.actors, id);
    if j >= 0 {
        StageM { actors: st.actors.remove(j), ..st }
    } else {
        st
    }
}

/// Moving an actor; an identifier that is not placed changes nothing.
pub open spec fn set_actor_pos_m(st: StageM, id: i32, pos: Point) -> StageM {
    let j = find_actor(st.actors, id);
    if j >= 0 {
        StageM { actors: st.actors.update(j, ActorM { pos, ..st.actors[j] }), ..st }
    } else {
        st
    }
}

/// Stage well-formedness: actor identifiers are unique, every stored
/// position is within the stage bound, and the shake counter never
/// exceeds a timed leaf's tick budget.
pub open spec fn stage_wf(st: StageM) -> bool {
    &&& forall|i: int, j: int|
        0 <= i < j < st.actors.len() ==> st.actors[i].id != st.actors[j].id
    &&& forall|i: int|
        0 <= i < st.actors.len() ==> (#[trigger] st.actors[i]).pos.in_bounds_stage()
    &&& st.shake <= crate::script::MAX_TICKS
}

impl Point {
    /// Within the slightly wider bound the stage guarantees.
    pub open spec fn in_bounds_stage(self) -> bool {
        -STAGE_BOUND <= self.x <= STAGE_BOUND && -STAGE_BOUND <= self.y <= STAGE_BOUND
    }
}


impl Stage {
    /// An empty stage: no background, no actors, nothing buffered.
    pub fn new() -> (st: Stage)
        ensures
            st@ == empty_stage(),
    {
        let st = Stage {
            bg: String::new(),
            actors: Vec::new(),
            queue: Vec::new(),
            sounds: Vec::new(),
            shake: 0,
        };
        proof {
            assert(st@.actors =~= empty_stage().actors);
            assert(st@.bg =~= empty_stage().bg);
            assert(st@ == empty_stage());
        }
        st
    }

    /// The registry index of actor `id`, if it is placed.
    pub fn find(&self, id: i32) -> (r: Option<usize>)
        ensures
            match r {
                Some(j) => find_actor(self@.actors, id) == j && j < self.actors.len(),
                None => find_actor(self@.actors, id) == -1,
            },
    {
        let ghost actors = self@.actors;
        let mut i: usize = 0;
        while i < self.actors.len()
            invariant
                0 <= i <= self.actors.len(),
                actors == self@.actors,
                actors.len() == self.actors.len(),
                find_actor_from(actors, id, 0) == find_actor_from(actors, id, i as int),
            decreases self.actors.len() - i,
        {
            proof {
                lemma_find_actor_from_unfold(actors, id, i as int);
            }
            if self.actors[i].id == id {
                return Some(i);
            }
            i = i + 1;
        }
        None
    }

    /// Applies [`place_actor_m`].
    pub fn place(&mut self, actor: Actor)
        requires
            stage_wf(old(self)@),
            actor.pos.in_bounds_stage(),
        ensures
            final(self)@ == place_actor_m(old(self)@, actor@),
            stage_wf(final(self)@),
    {
        let ghost prev = self@;
        match self.find(actor.id) {
            Some(j) => {
                proof {
                    lemma_find_actor_id(prev.actors, actor.id);
                }
                self.actors.set(j, actor);
                proof {
                    assert(self@.actors =~= prev.actors.update(j as int, actor@));
                }
            }
            None => {
                self.actors.push(actor);
                proof {
                    assert(self@.actors =~= prev.actors.push(actor@));
                    lemma_find_actor_none(prev.actors, actor.id);
                }
            }
        }
    }

    /// Applies [`remove_actor_m`].
    pub fn remove(&mut self, id: i32)
        requires
            stage_wf(old(self)@),
        ensures
            final(self)@ == remove_actor_m(old(self)@, id),
            stage_wf(final(self)@),
    {
        let ghost prev = self@;
        match self.find(id) {
            Some(j) => {
                self.actors.remove(j);
                proof {
                    assert(self@.actors =~= prev.actors.remove(j as int));
                }
            }
            None => {}
        }
    }

    /// Applies [`set_actor_pos_m`].
    pub fn set_pos(&mut self, id: i32, pos: Point)
        requires
            stage_wf(old(self)@),
            pos.in_bounds_stage(),
        ensures
            final(self)@ == set_actor_pos_m(old(self)@, id, pos),
            stage_wf(final(self)@),
    {
        let ghost prev = self@;
        match self.find(id) {
            Some(j) => {
                let a = &self.actors[j];
                let updated = Actor {
                    id: a.id,
                    sprite: a.sprite.clone(),
                    frame: a.frame,
                    pos,
                    visible: a.visible,
                };
                proof {
                    lemma_find_actor_id(prev.actors, id);
                }
                self.actors.set(j, updated);
                proof {
                    assert(updated@ == ActorM { pos, ..prev.actors[j as int] });
                    assert(self@.actors =~= prev.actors.update(
                        j as int,
                        ActorM { pos, ..prev.actors[j as int] },
                    ));
                }
            }
            None => {}
        }
    }

    /// The position of actor `id`, if it is placed.
    pub fn pos_of(&self, id: i32) -> (r: Option<Point>)
        ensures
            r == actor_pos_m(self@, id),
    {
        match self.find(id) {
            Some(j) => Some(self.actors[j].pos),
            None => None,
        }
    }
}

/// On a well-formed stage, a found actor position is within the stage
/// bound.
pub proof fn lemma_actor_pos_wf(st: StageM, id: i32)
    requires
        stage_wf(st),
    ensures
        actor_pos_m(st, id) matches Some(p) ==> p.in_bounds_stage(),
{
    lemma_find_actor_id(st.actors, id);
}

/// Placing a well-positioned actor keeps the stage well-formed.
pub proof fn lemma_place_wf(st: StageM, a: ActorM)
    requires
        stage_wf(st),
        a.pos.in_bounds_stage(),
    ensures
        stage_wf(place_actor_m(st, a)),
{
    lemma_find_actor_id(st.actors, a.id);
    lemma_find_actor_none(st.actors, a.id);
    let j = find_actor(st.actors, a.id);
    if j >= 0 {
        let actors = st.actors.update(j, a);
        assert forall|x: int, y: int| 0 <= x < y < actors.len() implies actors[x].id
            != actors[y].id by {
            assert(st.actors[x].id != st.actors[y].id);
        }
        assert forall|x: int| 0 <= x < actors.len() implies (#[trigger] actors[x])
            .pos.in_bounds_stage() by {
            if x != j {
                assert(actors[x] == st.actors[x]);
            }
        }
    } else {
        let actors = st.actors.push(a);
        assert forall|x: int, y: int| 0 <= x < y < actors.len() implies actors[x].id
            != actors[y].id by {
            if y < actors.len() - 1 {
                assert(st.actors[x].id != st.actors[y].id);
            } else {
                assert(actors[y] == a);
                assert(actors[x] == st.actors[x]);
            }
        }
        assert forall|x: int| 0 <= x < actors.len() implies (#[trigger] actors[x])
            .pos.in_bounds_stage() by {
            if x < actors.len() - 1 {
                assert(actors[x] == st.actors[x]);
            }
        }
    }
}

/// Removing an actor keeps the stage well-formed.
pub proof fn lemma_remove_wf(st: StageM, id: i32)
    requires
        stage_wf(st),
    ensures
        stage_wf(remove_actor_m(st, id)),
{
    let j = find_actor(st.actors, id);
    lemma_find_actor_id(st.actors, id);
    if j >= 0 {
        let actors = st.actors.remove(j);
        assert forall|x: int, y: int| 0 <= x < y < actors.len() implies actors[x].id
            != actors[y].id by {
            let x0 = if x < j { x } else { x + 1 };
            let y0 = if y < j { y } else { y + 1 };
            assert(actors[x] == st.actors[x0]);
            assert(actors[y] == st.actors[y0]);
        }
        assert forall|x: int| 0 <= x < actors.len() implies (#[trigger] actors[x])
            .pos.in_bounds_stage() by {
            let x0 = if x < j { x } else { x + 1 };
            assert(actors[x] == st.actors[x0]);
        }
    }
}

/// Moving an actor to a bounded position keeps the stage well-formed.
pub proof fn lemma_set_pos_wf(st: StageM, id: i32, pos: Point)
    requires
        stage_wf(st),
        pos.in_bounds_stage(),
    ensures
        stage_wf(set_actor_pos_m(st, id, pos)),
{
    let j = find_actor(st.actors, id);
    lemma_find_actor_id(st.actors, id);
    if j >= 0 {
        let actors = st.actors.update(j, ActorM { pos, ..st.actors[j] });
        assert forall|x: int, y: int| 0 <= x < y < actors.len() implies actors[x].id
            != actors[y].id by {
            assert(st.actors[x].id != st.actors[y].id);
        }
        assert forall|x: int| 0 <= x < actors.len() implies (#[trigger] actors[x])
            .pos.in_bounds_stage() by {
            if x != j {
                assert(actors[x] == st.actors[x]);
            }
        }
    }
}

/// The stage every scene starts from.
pub open spec fn empty_stage() -> StageM {
    StageM {
        bg: Seq::<char>::empty(),
        actors: Seq::<ActorM>::empty(),
        queue: Seq::<(i32, i32)>::empty(),
        sounds: Seq::<u32>::empty(),
        shake: 0u32,
    }
}

pub proof fn lemma_empty_stage_wf()
    ensures
        stage_wf(empty_stage()),
{
}

/// Unfolds one search step of [`find_actor_from`].
pub proof fn lemma_find_actor_from_unfold(actors: Seq<ActorM>, id: i32, i: int)
    requires
        0 <= i < actors.len(),
    ensures
        find_actor_from(actors, id, i) == if actors[i].id == id {
            i
        } else {
            find_actor_from(actors, id, i + 1)
        },
{
}

/// A found index really carries the searched identifier, and lies in range.
pub proof fn lemma_find_actor_id(actors: Seq<ActorM>, id: i32)
    ensures
        find_actor(actors, id) >= 0 ==> {
            &&& 0 <= find_actor(actors, id) < actors.len()
            &&& actors[find_actor(actors, id)].id == id
        },
    decreases actors.len(),
{
    lemma_find_actor_from_props(actors, id, 0);
}

/// When the search fails, no actor carries the identifier.
pub proof fn lemma_find_actor_none(actors: Seq<ActorM>, id: i32)
    ensures
        find_actor(actors, id) >= -1,
        find_actor(actors, id) == -1 ==> forall|i: int|
            0 <= i < actors.len() ==> (#[trigger] actors[i]).id != id,
{
    lemma_find_actor_from_props(actors, id, 0);
}

proof fn lemma_find_actor_from_props(actors: Seq<ActorM>, id: i32, i: int)
    requires
        0 <= i <= actors.len(),
    ensures
        find_actor_from(actors, id, i) >= -1,
        find_actor_from(actors, id, i) >= 0 ==> {
            &&& i <= find_actor_from(actors, id, i) < actors.len()
            &&& actors[find_actor_from(actors, id, i)].id == id
        },
        find_actor_from(actors, id, i) == -1 ==> forall|k: int|
            i <= k < actors.len() ==> (#[trigger] actors[k]).id != id,
    decreases actors.len() - i,
{
    if i < actors.len() {
        lemma_find_actor_from_props(actors, id, i + 1);
    }
}

} // verus!
