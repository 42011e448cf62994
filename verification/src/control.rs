//! The puzzle session controller.
//!
//! One controller owns a puzzle mode's intro and outro scenes, any number
//! of extra scenes, the undo/redo command stacks, and the notification
//! queue.  At most one scene is live at a time; while none is, input
//! reaches the interactive puzzle widget and the script layer draws
//! nothing.  Beginning a scene preempts whatever was live: the replaced
//! scene's interpreter state is discarded, its not-yet-fired leaves never
//! fire, and only notifications already appended survive, in the queue.

use vstd::prelude::*;

use crate::action::Action;
use crate::event::Event;
use crate::node::reset_m;
use crate::scene::scene_done;
use crate::scene::scene_tick_m;
use crate::scene::scene_wf;
use crate::scene::run_to_done_m;
use crate::scene::Scene;
use crate::scene::SceneM;
use crate::stage::empty_stage;
use crate::stage::StageM;

verus! {

/// A command the controller hands back to the enclosing puzzle view.
#[derive(Clone, Copy, Debug, PartialEq, Eq, Structural)]
pub enum PuzzleCmd {
    /// The puzzle's progress should be saved.
    Save,
    /// The host should move on to the next puzzle.
    Next,
}

/// Which scene, if any, is live.
#[derive(Clone, Copy, Debug, PartialEq, Eq, Structural)]
pub enum LiveScene {
    /// No scripted scene is live: the session is interactive.
    Idle,
    Intro,
    Outro,
    /// An auxiliary scene, by its index among the extra scenes.
    Extra(usize),
}

/// A puzzle session controller, generic over the puzzle's opaque undo
/// command values.
#[derive(Debug)]
pub struct PuzzleCore<C> {
    pub intro: Scene,
    pub outro: Scene,
    pub extras: Vec<Scene>,
    pub live: LiveScene,
    pub queue: Vec<(i32, i32)>,
    pub undo_stack: Vec<C>,
    pub redo_stack: Vec<C>,
}

/// The mathematical value of a [`PuzzleCore`].
pub struct CoreM<C> {
    pub intro: SceneM,
    pub outro: SceneM,
    pub extras: Seq<SceneM>,
    pub live: LiveScene,
    pub queue: Seq<(i32, i32)>,
    pub undo: Seq<C>,
    pub redo: Seq<C>,
}

impl<C> View for PuzzleCore<C> {
    type V = CoreM<C>;

    open spec fn view(&self) -> CoreM<C> {
        CoreM {
            intro: self.intro@,
            outro: self.outro@,
            extras: self.extras@.map_values(|s: Scene| s@),
            live: self.live,
            queue: self.queue@,
            undo: self.undo_stack@,
            redo: self.redo_stack@,
        }
    }
}

/// Controller well-formedness: every owned scene is well formed.
pub open spec fn core_wf<C>(c: CoreM<C>) -> bool {
    &&& scene_wf(c.intro)
    &&& scene_wf(c.outro)
    &&& forall|i: int| 0 <= i < c.extras.len() ==> scene_wf(#[trigger] c.extras[i])
}

/// The live scene, if any.
pub open spec fn live_scene_m<C>(c: CoreM<C>) -> Option<SceneM> {
    match c.live {
        LiveScene::Idle => None,
        LiveScene::Intro => Some(c.intro),
        LiveScene::Outro => Some(c.outro),
        LiveScene::Extra(i) => if i < c.extras.len() {
            Some(c.extras[i as int])
        } else {
            None
        },
    }
}

/// Every notification a drain would deliver right now: the controller's
/// queue followed by whatever the live scene has buffered.
pub open spec fn pending_m<C>(c: CoreM<C>) -> Seq<(i32, i32)> {
    match live_scene_m(c) {
        Some(s) => c.queue + s.stage.queue,
        None => c.queue,
    }
}

/// The controller with the live scene (if any) replaced by `s`.
pub open spec fn with_live_scene_m<C>(c: CoreM<C>, s: SceneM) -> CoreM<C> {
    match c.live {
        LiveScene::Idle => c,
        LiveScene::Intro => CoreM { intro: s, ..c },
        LiveScene::Outro => CoreM { outro: s, ..c },
        LiveScene::Extra(i) => if i < c.extras.len() {
            CoreM { extras: c.extras.update(i as int, s), ..c }
        } else {
            c
        },
    }
}

/// The controller after the live scene's buffered notifications have
/// been pulled into the controller queue.
pub open spec fn pulled_m<C>(c: CoreM<C>) -> CoreM<C> {
    match live_scene_m(c) {
        Some(s) => CoreM {
            queue: c.queue + s.stage.queue,
            ..with_live_scene_m(
                c,
                SceneM { stage: StageM { queue: Seq::<(i32, i32)>::empty(), ..s.stage }, ..s },
            )
        },
        None => c,
    }
}

impl<C> PuzzleCore<C> {
    /// A fresh session around compiled intro and outro scenes.  When the
    /// puzzle was visited before, the intro is skipped and the session
    /// starts interactive.
    pub fn new(intro: Scene, outro: Scene, skip_intro: bool) -> (c: PuzzleCore<C>)
        requires
            scene_wf(intro@),
            scene_wf(outro@),
        ensures
            c@.intro == intro@,
            c@.outro == outro@,
            c@.extras == Seq::<SceneM>::empty(),
            c@.live == if skip_intro {
                LiveScene::Idle
            } else {
                LiveScene::Intro
            },
            c@.queue == Seq::<(i32, i32)>::empty(),
            c@.undo == Seq::<C>::empty(),
            c@.redo == Seq::<C>::empty(),
            core_wf(c@),
    {
        let c = PuzzleCore {
            intro,
            outro,
            extras: Vec::new(),
            live: if skip_intro {
                LiveScene::Idle
            } else {
                LiveScene::Intro
            },
            queue: Vec::new(),
            undo_stack: Vec::new(),
            redo_stack: Vec::new(),
        };
        proof {
            assert(c@.extras =~= Seq::<SceneM>::empty());
        }
        c
    }

    /// Registers one more auxiliary scene; it can later be begun by its
    /// index, in registration order.
    pub fn add_extra_scene(&mut self, scene: Scene)
        requires
            scene_wf(scene@),
            core_wf(old(self)@),
        ensures
            final(self)@ == (CoreM { extras: old(self)@.extras.push(scene@), ..old(self)@ }),
            core_wf(final(self)@),
    {
        self.extras.push(scene);
        proof {
            assert(self@.extras =~= old(self)@.extras.push(scene@));
        }
    }

    /// Moves the live scene's buffered notifications to the controller
    /// queue, so that they survive any preemption.
    fn pull_queue(&mut self)
        requires
            core_wf(old(self)@),
        ensures
            final(self)@ == pulled_m(old(self)@),
            pending_m(final(self)@) == pending_m(old(self)@),
            core_wf(final(self)@),
    {
        let ghost prev = self@;
        match self.live {
            LiveScene::Idle => {
                proof {
                    assert(pending_m(self@) =~= pending_m(prev));
                }
            }
            LiveScene::Intro => {
                let mut q = self.intro.take_notifications();
                self.queue.append(&mut q);
                proof {
                    assert(pending_m(self@) =~= pending_m(prev));
                }
            }
            LiveScene::Outro => {
                let mut q = self.outro.take_notifications();
                self.queue.append(&mut q);
                proof {
                    assert(pending_m(self@) =~= pending_m(prev));
                }
            }
            LiveScene::Extra(i) => {
                if i < self.extras.len() {
                    let mut sc = self.extras.remove(i);
                    let mut q = sc.take_notifications();
                    self.extras.insert(i, sc);
                    self.queue.append(&mut q);
                    proof {
                        assert(self@.extras =~= prev.extras.update(
                            i as int,
                            self.extras@[i as int]@,
                        ));
                        assert(pending_m(self@) =~= pending_m(prev));
                    }
                } else {
                    proof {
                        assert(pending_m(self@) =~= pending_m(prev));
                    }
                }
            }
        }
    }

    /// Preempts whatever is live and makes the outro scene live, fresh
    /// from its root.  Notifications already appended — by any scene —
    /// survive in the queue; the replaced scene's unfired leaves never
    /// fire.  Idempotent: beginning the outro while it plays restarts it.
    pub fn begin_outro_scene(&mut self)
        requires
            core_wf(old(self)@),
        ensures
            ({
                let pulled = pulled_m(old(self)@);
                final(self)@ == (CoreM {
                    outro: SceneM { root: reset_m(pulled.outro.root), stage: empty_stage() },
                    live: LiveScene::Outro,
                    ..pulled
                })
            }),
            pending_m(final(self)@) == pending_m(old(self)@),
            final(self)@.undo == old(self)@.undo,
            final(self)@.redo == old(self)@.redo,
            core_wf(final(self)@),
            live_scene_m(final(self)@) matches Some(s) && !scene_done(s),
    {
        let ghost prev = self@;
        self.pull_queue();
        self.outro.restart();
        self.live = LiveScene::Outro;
        proof {
            assert(pending_m(self@) =~= pending_m(pulled_m(prev)));
        }
    }

    /// Preempts whatever is live and makes the extra scene at `index`
    /// live, fresh from its root; with no scene registered at `index`,
    /// nothing changes.  The same preemption rule as the outro: queued
    /// notifications survive, the replaced scene's unfired leaves never
    /// fire.
    pub fn begin_extra_scene(&mut self, index: usize)
        requires
            core_wf(old(self)@),
        ensures
            index < old(self)@.extras.len() ==> ({
                let pulled = pulled_m(old(self)@);
                final(self)@ == (CoreM {
                    extras: pulled.extras.update(
                        index as int,
                        SceneM {
                            root: reset_m(pulled.extras[index as int].root),
                            stage: empty_stage(),
                        },
                    ),
                    live: LiveScene::Extra(index),
                    ..pulled
                })
            }),
            index >= old(self)@.extras.len() ==> final(self)@ == old(self)@,
            pending_m(final(self)@) == pending_m(old(self)@),
            core_wf(final(self)@),
    {
        let ghost prev = self@;
        if index >= self.extras.len() {
            return;
        }
        self.pull_queue();
        let ghost pulled = self@;
        let mut sc = self.extras.remove(index);
        sc.restart();
        self.extras.insert(index, sc);
        self.live = LiveScene::Extra(index);
        proof {
            assert(self@.extras =~= pulled.extras.update(index as int, sc@));
            assert(pending_m(self@) =~= pending_m(pulled_m(prev)));
            assert(pending_m(self@) =~= pending_m(prev));
        }
    }

    /// Records an undoable command.  Pushing always clears the redo
    /// stack: once new work is done, the undone future is gone.
    pub fn push_undo(&mut self, cmd: C)
        ensures
            final(self)@ == (CoreM {
                undo: old(self)@.undo.push(cmd),
                redo: Seq::<C>::empty(),
                ..old(self)@
            }),
    {
        self.undo_stack.push(cmd);
        self.redo_stack.clear();
    }

    /// Takes the most recent undoable command, moving it to the redo
    /// stack, and lends it to the caller; `None` exactly when there is
    /// nothing to undo.
    pub fn pop_undo(&mut self) -> (r: Option<&C>)
        ensures
            old(self)@.undo.len() == 0 ==> r is None && final(self)@ == old(self)@,
            old(self)@.undo.len() > 0 ==> {
                &&& r matches Some(c) && *c == old(self)@.undo.last()
                &&& final(self)@ == (CoreM {
                    undo: old(self)@.undo.drop_last(),
                    redo: old(self)@.redo.push(old(self)@.undo.last()),
                    ..old(self)@
                })
            },
    {
        match self.undo_stack.pop() {
            Some(cmd) => {
                self.redo_stack.push(cmd);
                let i = self.redo_stack.len() - 1;
                Some(&self.redo_stack[i])
            }
            None => None,
        }
    }

    /// Takes the most recent redoable command, moving it back to the
    /// undo stack, and lends it to the caller; `None` exactly when there
    /// is nothing to redo.
    pub fn pop_redo(&mut self) -> (r: Option<&C>)
        ensures
            old(self)@.redo.len() == 0 ==> r is None && final(self)@ == old(self)@,
            old(self)@.redo.len() > 0 ==> {
                &&& r matches Some(c) && *c == old(self)@.redo.last()
                &&& final(self)@ == (CoreM {
                    undo: old(self)@.undo.push(old(self)@.redo.last()),
                    redo: old(self)@.redo.drop_last(),
                    ..old(self)@
                })
            },
    {
        match self.redo_stack.pop() {
            Some(cmd) => {
                self.undo_stack.push(cmd);
                let i = self.undo_stack.len() - 1;
                Some(&self.undo_stack[i])
            }
            None => None,
        }
    }

    /// Empties both stacks unconditionally: how `reset` and `solve`
    /// discard history.
    pub fn clear_undo_redo(&mut self)
        ensures
            final(self)@ == (CoreM {
                undo: Seq::<C>::empty(),
                redo: Seq::<C>::empty(),
                ..old(self)@
            }),
    {
        self.undo_stack.clear();
        self.redo_stack.clear();
    }

    /// Returns and empties the accumulated notifications, in firing
    /// order: the single consumer calls this once per dispatch cycle.
    pub fn drain_queue(&mut self) -> (q: Vec<(i32, i32)>)
        requires
            core_wf(old(self)@),
        ensures
            q@ == pending_m(old(self)@),
            final(self)@ == (CoreM { queue: Seq::<(i32, i32)>::empty(), ..pulled_m(old(self)@) }),
            pending_m(final(self)@) == Seq::<(i32, i32)>::empty(),
            core_wf(final(self)@),
    {
        let ghost prev = self@;
        self.pull_queue();
        let mut q: Vec<(i32, i32)> = Vec::new();
        core::mem::swap(&mut q, &mut self.queue);
        proof {
            assert(pending_m(self@) =~= Seq::<(i32, i32)>::empty());
        }
        q
    }
}


/// The controller after one clock tick: the live scene (if any) advances
/// one tick, its fresh notifications move to the controller queue, its
/// requested sounds are handed out, and a scene that has just completed
/// stops being live — the session turns interactive.
pub open spec fn core_tick_m<C>(c: CoreM<C>) -> CoreM<C> {
    match live_scene_m(c) {
        None => c,
        Some(s) => {
            let s2 = scene_tick_m(s);
            let drained = SceneM {
                stage: StageM {
                    queue: Seq::<(i32, i32)>::empty(),
                    sounds: Seq::<u32>::empty(),
                    ..s2.stage
                },
                ..s2
            };
            let c2 = CoreM {
                queue: c.queue + s2.stage.queue,
                ..with_live_scene_m(c, drained)
            };
            if scene_done(s2) {
                CoreM { live: LiveScene::Idle, ..c2 }
            } else {
                c2
            }
        },
    }
}

/// The controller after the live scene has been skipped to completion:
/// as if ticks had been delivered until it finished, all notifications
/// pulled, sounds discarded, and the session turned interactive.
pub open spec fn core_skip_m<C>(c: CoreM<C>) -> CoreM<C> {
    match live_scene_m(c) {
        None => c,
        Some(s) => {
            let s2 = run_to_done_m(s);
            let drained = SceneM {
                stage: StageM {
                    queue: Seq::<(i32, i32)>::empty(),
                    sounds: Seq::<u32>::empty(),
                    ..s2.stage
                },
                ..s2
            };
            CoreM {
                queue: c.queue + s2.stage.queue,
                live: LiveScene::Idle,
                ..with_live_scene_m(c, drained)
            }
        },
    }
}

/// The controller after `k` clock ticks.
pub open spec fn core_run_m<C>(c: CoreM<C>, k: nat) -> CoreM<C>
    decreases k,
{
    if k == 0 {
        c
    } else {
        core_run_m(core_tick_m(c), (k - 1) as nat)
    }
}

impl<C> PuzzleCore<C> {
    /// Dispatches one event.  A clock tick advances the live scene and
    /// asks for a redraw, handing out the sounds the scene requested;
    /// other input is consumed while a scene is live, so that it never
    /// reaches the puzzle widget mid-script.  With no live scene, every
    /// event is ignored and propagates to the puzzle widget.  The
    /// controller itself never returns a command value.
    pub fn handle_event(&mut self, event: &Event) -> (a: Action<PuzzleCmd>)
        requires
            core_wf(old(self)@),
        ensures
            core_wf(final(self)@),
            a.value is None,
            match *event {
                Event::ClockTick => {
                    &&& final(self)@ == core_tick_m(old(self)@)
                    &&& a.redraw == (live_scene_m(old(self)@) is Some)
                    &&& !a.stop
                    &&& a.sounds@ == match live_scene_m(old(self)@) {
                        Some(s) => scene_tick_m(s).stage.sounds,
                        None => Seq::<u32>::empty(),
                    }
                },
                Event::Quit => {
                    &&& final(self)@ == old(self)@
                    &&& !a.redraw
                    &&& !a.stop
                    &&& a.sounds@ == Seq::<u32>::empty()
                },
                _ => {
                    &&& final(self)@ == old(self)@
                    &&& !a.redraw
                    &&& a.stop == (live_scene_m(old(self)@) is Some)
                    &&& a.sounds@ == Seq::<u32>::empty()
                },
            },
    {
        match event {
            Event::ClockTick => {
                let (had_scene, sounds) = self.tick_live_scene();
                let mut a = Action::redraw_if(had_scene);
                a.sounds = sounds;
                a
            }
            Event::Quit => Action::ignore(),
            _ => {
                let live = match self.live {
                    LiveScene::Idle => false,
                    LiveScene::Extra(i) => i < self.extras.len(),
                    _ => true,
                };
                if live {
                    Action::ignore().and_stop()
                } else {
                    Action::ignore()
                }
            }
        }
    }

    /// Advances the live scene by one tick, pulls its notifications, and
    /// idles the session once the scene completes.  Returns whether a
    /// scene was live, and the sounds it requested this tick.
    fn tick_live_scene(&mut self) -> (r: (bool, Vec<u32>))
        requires
            core_wf(old(self)@),
        ensures
            core_wf(final(self)@),
            final(self)@ == core_tick_m(old(self)@),
            r.0 == (live_scene_m(old(self)@) is Some),
            r.1@ == match live_scene_m(old(self)@) {
                Some(s) => scene_tick_m(s).stage.sounds,
                None => Seq::<u32>::empty(),
            },
    {
        let ghost prev = self@;
        match self.live {
            LiveScene::Idle => (false, Vec::new()),
            LiveScene::Intro => {
                let running = self.intro.tick();
                let mut q = self.intro.take_notifications();
                self.queue.append(&mut q);
                let sounds = self.intro.take_sounds();
                if !running {
                    self.live = LiveScene::Idle;
                }
                proof {
                    assert(self@.queue =~= core_tick_m(prev).queue);
                    assert(self@ == core_tick_m(prev));
                }
                (true, sounds)
            }
            LiveScene::Outro => {
                let running = self.outro.tick();
                let mut q = self.outro.take_notifications();
                self.queue.append(&mut q);
                let sounds = self.outro.take_sounds();
                if !running {
                    self.live = LiveScene::Idle;
                }
                proof {
                    assert(self@.queue =~= core_tick_m(prev).queue);
                    assert(self@ == core_tick_m(prev));
                }
                (true, sounds)
            }
            LiveScene::Extra(i) => {
                if i >= self.extras.len() {
                    return (false, Vec::new());
                }
                let mut sc = self.extras.remove(i);
                let running = sc.tick();
                let mut q = sc.take_notifications();
                self.queue.append(&mut q);
                let sounds = sc.take_sounds();
                self.extras.insert(i, sc);
                if !running {
                    self.live = LiveScene::Idle;
                }
                proof {
                    assert(self@.extras =~= prev.extras.update(i as int, sc@));
                    assert(self@.queue =~= core_tick_m(prev).queue);
                    assert(self@.extras =~= core_tick_m(prev).extras);
                    assert(self@ == core_tick_m(prev));
                }
                (true, sounds)
            }
        }
    }

    /// Skips the live scene to completion in one call: the outro of a
    /// puzzle solved without interactive play still deposits every
    /// notification the normal playthrough would have produced, in
    /// script order, without the real-time tick budget.  Fast-path
    /// sounds are discarded.
    pub fn skip_live_scene(&mut self)
        requires
            core_wf(old(self)@),
        ensures
            core_wf(final(self)@),
            final(self)@ == core_skip_m(old(self)@),
    {
        let ghost prev = self@;
        match self.live {
            LiveScene::Idle => {}
            LiveScene::Intro => {
                self.intro.skip_to_end();
                let mut q = self.intro.take_notifications();
                self.queue.append(&mut q);
                let _sounds = self.intro.take_sounds();
                self.live = LiveScene::Idle;
                proof {
                    assert(self@.queue =~= core_skip_m(prev).queue);
                    assert(self@ == core_skip_m(prev));
                }
            }
            LiveScene::Outro => {
                self.outro.skip_to_end();
                let mut q = self.outro.take_notifications();
                self.queue.append(&mut q);
                let _sounds = self.outro.take_sounds();
                self.live = LiveScene::Idle;
                proof {
                    assert(self@.queue =~= core_skip_m(prev).queue);
                    assert(self@ == core_skip_m(prev));
                }
            }
            LiveScene::Extra(i) => {
                if i >= self.extras.len() {
                    return;
                }
                let mut sc = self.extras.remove(i);
                sc.skip_to_end();
                let mut q = sc.take_notifications();
                self.queue.append(&mut q);
                let _sounds = sc.take_sounds();
                self.extras.insert(i, sc);
                self.live = LiveScene::Idle;
                proof {
                    assert(self@.extras =~= prev.extras.update(i as int, sc@));
                    assert(self@.queue =~= core_skip_m(prev).queue);
                    assert(self@.extras =~= core_skip_m(prev).extras);
                    assert(self@ == core_skip_m(prev));
                }
            }
        }
    }

    /// Whether a scripted scene is currently live; while one is, the
    /// session is not interactive.
    pub fn is_scene_live(&self) -> (r: bool)
        ensures
            r == (live_scene_m(self@) is Some),
    {
        match self.live {
            LiveScene::Idle => false,
            LiveScene::Extra(i) => i < self.extras.len(),
            _ => true,
        }
    }
}

} // verus!
