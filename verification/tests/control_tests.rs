use cutscene::control::PuzzleCore;
use cutscene::draw::DrawCmd;
use cutscene::event::Event;
use cutscene::geom::Point;
use cutscene::scene::Scene;
use cutscene::script::script_valid;
use cutscene::script::Ast;

fn compiled(script: Vec<Ast>) -> Scene {
    assert!(script_valid(&script));
    Scene::compile(&script)
}

fn intro_script() -> Vec<Ast> {
    vec![
        Ast::SetBackground(String::from("hangar")),
        Ast::Notify(0, 1),
        Ast::Wait(75),
        Ast::Notify(0, -2),
    ]
}

fn outro_script() -> Vec<Ast> {
    vec![
        Ast::PlaySound(1),
        Ast::Notify(1, 0),
        Ast::Wait(25),
        Ast::Notify(1, 1),
    ]
}

fn session() -> PuzzleCore<i32> {
    PuzzleCore::new(compiled(intro_script()), compiled(outro_script()), false)
}

fn tick_until_idle(core: &mut PuzzleCore<i32>) -> usize {
    let mut ticks = 0;
    while core.is_scene_live() {
        core.handle_event(&Event::ClockTick);
        ticks += 1;
        assert!(ticks < 100000, "scene did not terminate");
    }
    ticks
}

#[test]
fn undo_redo_stack_discipline() {
    let mut core = session();
    core.push_undo(10);
    core.push_undo(20);
    assert_eq!(core.pop_undo(), Some(&20));
    core.push_undo(30);
    assert_eq!(core.pop_redo(), None);
    assert_eq!(core.pop_undo(), Some(&30));
    assert_eq!(core.pop_redo(), Some(&30));
    core.clear_undo_redo();
    assert_eq!(core.pop_undo(), None);
    assert_eq!(core.pop_redo(), None);
}

#[test]
fn intro_plays_then_session_turns_interactive() {
    let mut core = session();
    assert!(core.is_scene_live());
    // Input is consumed while the intro plays.
    let a = core.handle_event(&Event::MouseDown(Point::new(5, 5)));
    assert!(a.should_stop());
    // SetBackground and the first notification fire within the first
    // tick; the 75 ms wait is 3 ticks; the last notification, after a
    // timed leaf, takes the fourth tick.
    let ticks = tick_until_idle(&mut core);
    assert_eq!(ticks, 4);
    // Interactive: input reaches the puzzle widget.
    let a = core.handle_event(&Event::MouseDown(Point::new(5, 5)));
    assert!(!a.should_stop());
    assert_eq!(core.drain_queue(), vec![(0, 1), (0, -2)]);
}

#[test]
fn preemption_discards_unfired_leaves() {
    let mut core = session();
    // One tick fires the intro's first notification; its second sits
    // behind the wait and must never fire once the intro is replaced.
    core.handle_event(&Event::ClockTick);
    core.begin_outro_scene();
    tick_until_idle(&mut core);
    assert_eq!(core.drain_queue(), vec![(0, 1), (1, 0), (1, 1)]);
}

#[test]
fn begin_outro_is_idempotent_preemption() {
    let mut core = session();
    core.begin_outro_scene();
    core.handle_event(&Event::ClockTick);
    // Replacing the outro with the outro restarts it from its root.
    core.begin_outro_scene();
    tick_until_idle(&mut core);
    assert_eq!(core.drain_queue(), vec![(1, 0), (1, 0), (1, 1)]);
}

#[test]
fn skip_matches_real_time_play() {
    let mut played = session();
    played.begin_outro_scene();
    tick_until_idle(&mut played);
    let mut skipped = session();
    skipped.begin_outro_scene();
    skipped.skip_live_scene();
    assert!(!skipped.is_scene_live());
    assert_eq!(played.drain_queue(), skipped.drain_queue());
}

#[test]
fn tick_hands_out_scene_sounds() {
    let mut core = PuzzleCore::<i32>::new(
        compiled(outro_script()),
        compiled(outro_script()),
        false,
    );
    let mut a = core.handle_event(&Event::ClockTick);
    assert!(a.should_redraw());
    assert_eq!(a.drain_sounds(), vec![1]);
    let mut a = core.handle_event(&Event::ClockTick);
    assert_eq!(a.drain_sounds(), Vec::<u32>::new());
}

#[test]
fn extra_scenes_preempt_and_return() {
    let mut core = session();
    core.add_extra_scene(compiled(vec![Ast::Notify(9, 9), Ast::Wait(25)]));
    tick_until_idle(&mut core);
    core.drain_queue();
    core.begin_extra_scene(0);
    assert!(core.is_scene_live());
    tick_until_idle(&mut core);
    assert_eq!(core.drain_queue(), vec![(9, 9)]);
    // Beginning a missing extra scene is a safe no-op.
    core.begin_extra_scene(7);
    assert!(!core.is_scene_live());
}

#[test]
fn draw_layers_follow_the_live_scene() {
    let mut core = session();
    core.handle_event(&Event::ClockTick);
    let back = core.draw_back_layer();
    assert!(matches!(&back[0], DrawCmd::Background { name } if name == "hangar"));
    tick_until_idle(&mut core);
    // Interactive: the script layer draws nothing.
    assert!(core.draw_back_layer().is_empty());
    assert!(core.draw_middle_layer().is_empty());
    assert!(core.draw_front_layer().is_empty());
}

#[test]
fn drain_queue_empties_the_buffer() {
    let mut core = session();
    core.handle_event(&Event::ClockTick);
    assert_eq!(core.drain_queue(), vec![(0, 1)]);
    assert_eq!(core.drain_queue(), Vec::<(i32, i32)>::new());
}
