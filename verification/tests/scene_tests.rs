use cutscene::draw::DrawCmd;
use cutscene::geom::Point;
use cutscene::scene::Scene;
use cutscene::script::script_valid;
use cutscene::script::Ast;
use cutscene::script::TalkPos;
use cutscene::script::TalkStyle;

fn compiled(script: Vec<Ast>) -> Scene {
    assert!(script_valid(&script));
    Scene::compile(&script)
}

fn run_to_end(scene: &mut Scene) -> usize {
    let mut ticks = 0;
    while !scene.is_finished() {
        scene.tick();
        ticks += 1;
        assert!(ticks < 100000, "scene did not terminate");
    }
    ticks
}

#[test]
fn zero_duration_chaining() {
    // Three instantaneous leaves before a timed leaf all fire within the
    // first tick, before the timed leaf consumes any time.
    let mut scene = compiled(vec![
        Ast::Notify(0, 1),
        Ast::Notify(1, 2),
        Ast::Notify(2, 3),
        Ast::Wait(100),
    ]);
    assert!(scene.tick());
    assert_eq!(scene.take_notifications(), vec![(0, 1), (1, 2), (2, 3)]);
    // Wait(100 ms) is 4 ticks at 40 ticks per second; one is consumed.
    assert!(scene.tick());
    assert!(scene.tick());
    assert!(!scene.tick());
    assert!(scene.is_finished());
}

#[test]
fn join_barrier() {
    // 50 ms and 125 ms are 2 and 5 ticks; the parallel completes only
    // when the longer branch does.
    let mut scene = compiled(vec![Ast::Parallel(vec![Ast::Wait(50), Ast::Wait(125)])]);
    for _ in 0..4 {
        assert!(scene.tick(), "completed before the longer branch");
    }
    assert!(!scene.tick());
    assert!(scene.is_finished());
}

#[test]
fn notification_ordering() {
    // Notify(0,1), then a nested parallel with Notify(1,2) in branch A
    // and Notify(0,3) in branch B, A before B in document order.
    let mut scene = compiled(vec![
        Ast::Notify(0, 1),
        Ast::Parallel(vec![
            Ast::Sequence(vec![Ast::Notify(1, 2)]),
            Ast::Sequence(vec![Ast::Notify(0, 3)]),
        ]),
    ]);
    run_to_end(&mut scene);
    assert_eq!(scene.take_notifications(), vec![(0, 1), (1, 2), (0, 3)]);
}

#[test]
fn determinism() {
    let script = || {
        vec![
            Ast::SetBackground(String::from("bay")),
            Ast::PlaceActor(1, String::from("chars/guide"), 0, Point::new(0, 80)),
            Ast::Parallel(vec![
                Ast::SlideTo(1, Point::new(96, 80), false, true, 200),
                Ast::Sequence(vec![Ast::Wait(100), Ast::Notify(0, 4)]),
            ]),
            Ast::JumpTo(1, Point::new(128, 96), 100),
            Ast::Notify(1, -2),
        ]
    };
    let mut first = compiled(script());
    let mut second = compiled(script());
    let ticks = run_to_end(&mut first);
    assert_eq!(run_to_end(&mut second), ticks);
    assert_eq!(first.take_notifications(), second.take_notifications());
    assert_eq!(first.stage.pos_of(1), second.stage.pos_of(1));
    assert_eq!(first.stage.pos_of(1), Some(Point::new(128, 96)));
}

#[test]
fn instant_skip_equivalence() {
    let script = || {
        vec![
            Ast::Notify(1, 0),
            Ast::Wait(75),
            Ast::Notify(1, 1),
            Ast::Parallel(vec![Ast::Notify(0, 5), Ast::Wait(50)]),
            Ast::Notify(1, 2),
        ]
    };
    let mut played = compiled(script());
    run_to_end(&mut played);
    let mut skipped = compiled(script());
    skipped.skip_to_end();
    assert!(skipped.is_finished());
    assert_eq!(played.take_notifications(), skipped.take_notifications());
}

#[test]
fn slide_is_linear() {
    let mut scene = compiled(vec![
        Ast::PlaceActor(7, String::from("chars/probe"), 2, Point::new(0, 0)),
        // 100 ms is 4 ticks; a plain slide moves in equal steps.
        Ast::SlideTo(7, Point::new(100, 0), false, false, 100),
    ]);
    scene.tick();
    assert_eq!(scene.stage.pos_of(7), Some(Point::new(25, 0)));
    scene.tick();
    assert_eq!(scene.stage.pos_of(7), Some(Point::new(50, 0)));
    scene.tick();
    assert_eq!(scene.stage.pos_of(7), Some(Point::new(75, 0)));
    scene.tick();
    assert_eq!(scene.stage.pos_of(7), Some(Point::new(100, 0)));
    assert!(scene.is_finished());
}

#[test]
fn jump_lands_on_destination() {
    let mut scene = compiled(vec![
        Ast::PlaceActor(2, String::from("chars/scout"), 0, Point::new(0, 0)),
        // 50 ms is 2 ticks; mid-jump the arc lifts the actor above the line.
        Ast::JumpTo(2, Point::new(0, 100), 50),
    ]);
    // The instantaneous placement chains into the jump's first tick.
    scene.tick();
    let mid = scene.stage.pos_of(2).unwrap();
    assert_eq!(mid, Point::new(0, 18));
    scene.tick();
    assert_eq!(scene.stage.pos_of(2), Some(Point::new(0, 100)));
    assert!(scene.is_finished());
}

#[test]
fn place_remove_and_layers() {
    let mut scene = compiled(vec![
        Ast::SetBackground(String::from("engine_room")),
        Ast::PlaceActor(-1, String::from("props/bridge"), 0, Point::new(40, 30)),
        Ast::PlaceActor(3, String::from("chars/chief"), 1, Point::new(60, 70)),
        Ast::Wait(25),
        Ast::RemoveActor(3),
    ]);
    scene.tick();
    let back = scene.draw_background_layer();
    assert_eq!(back.len(), 2);
    assert!(matches!(&back[0], DrawCmd::Background { name } if name == "engine_room"));
    assert!(
        matches!(&back[1], DrawCmd::Sprite { sprite, frame: 0, pos } if sprite == "props/bridge"
            && *pos == Point::new(40, 30))
    );
    let middle = scene.draw_middle_layer();
    assert_eq!(middle.len(), 1);
    assert!(
        matches!(&middle[0], DrawCmd::Sprite { sprite, frame: 1, pos } if sprite == "chars/chief"
            && *pos == Point::new(60, 70))
    );
    run_to_end(&mut scene);
    assert!(scene.draw_middle_layer().is_empty());
    assert_eq!(scene.draw_background_layer().len(), 2);
}

#[test]
fn dialogue_bubble_shows_while_talking() {
    let mut scene = compiled(vec![
        Ast::PlaceActor(1, String::from("chars/guide"), 0, Point::new(10, 20)),
        Ast::Say(1, TalkStyle::System, TalkPos::NE, String::from("Hi")),
    ]);
    assert!(scene.draw_foreground_layer().is_empty());
    scene.tick();
    let front = scene.draw_foreground_layer();
    assert_eq!(front.len(), 1);
    assert!(matches!(
        &front[0],
        DrawCmd::Bubble { actor: 1, style: TalkStyle::System, place: TalkPos::NE, text, anchor }
            if text == "Hi" && *anchor == Point::new(10, 20)
    ));
    run_to_end(&mut scene);
    assert!(scene.draw_foreground_layer().is_empty());
}

#[test]
fn sounds_are_collected_in_order() {
    let mut scene = compiled(vec![
        Ast::PlaySound(9),
        Ast::PlaySound(4),
        Ast::Wait(25),
        Ast::PlaySound(2),
    ]);
    scene.tick();
    assert_eq!(scene.take_sounds(), vec![9, 4]);
    run_to_end(&mut scene);
    assert_eq!(scene.take_sounds(), vec![2]);
}

#[test]
fn loop_repeats_its_body() {
    let mut scene = compiled(vec![
        Ast::Loop(3, Box::new(Ast::Notify(5, 7))),
        Ast::Loop(2, Box::new(Ast::Sequence(vec![Ast::Wait(25), Ast::Notify(6, 1)]))),
    ]);
    run_to_end(&mut scene);
    assert_eq!(
        scene.take_notifications(),
        vec![(5, 7), (5, 7), (5, 7), (6, 1), (6, 1)]
    );
}

#[test]
fn shake_fades_and_stops() {
    let mut scene = compiled(vec![Ast::Shake(4)]);
    scene.tick();
    // Three shake ticks remain: an odd count leans left.
    assert_eq!(scene.shake_offset(), -2);
    scene.tick();
    assert_eq!(scene.shake_offset(), 2);
    run_to_end(&mut scene);
    assert_eq!(scene.shake_offset(), 0);
}

#[test]
fn eased_slides_hit_exact_positions() {
    // 100 ms is 4 ticks; the start eases over e*e/16 of the distance.
    let mut accel = compiled(vec![
        Ast::PlaceActor(1, String::from("chars/probe"), 0, Point::new(0, 0)),
        Ast::SlideTo(1, Point::new(160, 0), true, false, 100),
    ]);
    let mut accel_xs = Vec::new();
    while !accel.is_finished() {
        accel.tick();
        accel_xs.push(accel.stage.pos_of(1).unwrap().x);
    }
    assert_eq!(accel_xs, vec![10, 40, 90, 160]);

    let mut decel = compiled(vec![
        Ast::PlaceActor(1, String::from("chars/probe"), 0, Point::new(0, 0)),
        Ast::SlideTo(1, Point::new(160, 0), false, true, 100),
    ]);
    let mut decel_xs = Vec::new();
    while !decel.is_finished() {
        decel.tick();
        decel_xs.push(decel.stage.pos_of(1).unwrap().x);
    }
    assert_eq!(decel_xs, vec![70, 120, 150, 160]);

    let mut smooth = compiled(vec![
        Ast::PlaceActor(1, String::from("chars/probe"), 0, Point::new(0, 0)),
        Ast::SlideTo(1, Point::new(160, 0), true, true, 100),
    ]);
    let mut smooth_xs = Vec::new();
    while !smooth.is_finished() {
        smooth.tick();
        smooth_xs.push(smooth.stage.pos_of(1).unwrap().x);
    }
    assert_eq!(smooth_xs, vec![20, 80, 140, 160]);
}

#[test]
fn durations_round_half_up() {
    // At 40 ticks per second, 37 ms rounds down to 1 tick and 38 ms
    // rounds up to 2.
    let mut short = compiled(vec![Ast::Wait(37)]);
    assert!(!short.tick());
    let mut long = compiled(vec![Ast::Wait(38)]);
    assert!(long.tick());
    assert!(!long.tick());
}

#[test]
fn dialogue_duration_follows_text_length() {
    // A dialogue stays up 40 ticks plus 2 per character: 44 for "Hi".
    let mut scene = compiled(vec![Ast::Say(
        1,
        TalkStyle::Normal,
        TalkPos::E,
        String::from("Hi"),
    )]);
    assert_eq!(run_to_end(&mut scene), 44);
}

#[test]
fn restart_discards_progress_and_stage() {
    let mut scene = compiled(vec![
        Ast::Notify(0, 1),
        Ast::PlaceActor(1, String::from("chars/guide"), 0, Point::new(5, 5)),
        Ast::Wait(250),
        Ast::Notify(0, 2),
    ]);
    scene.tick();
    scene.tick();
    assert!(!scene.is_finished());
    scene.restart();
    assert!(!scene.is_finished());
    assert!(scene.take_notifications().is_empty());
    assert_eq!(scene.stage.pos_of(1), None);
    run_to_end(&mut scene);
    assert_eq!(scene.take_notifications(), vec![(0, 1), (0, 2)]);
}

#[test]
fn malformed_scripts_are_refused() {
    assert!(!script_valid(&vec![Ast::Parallel(vec![])]));
    assert!(!script_valid(&vec![Ast::Sequence(vec![])]));
    assert!(!script_valid(&vec![Ast::Loop(0, Box::new(Ast::Wait(1)))]));
    assert!(!script_valid(&vec![Ast::Wait(2000000)]));
    assert!(!script_valid(&vec![Ast::PlaceActor(
        0,
        String::from("chars/guide"),
        0,
        Point::new(40000, 0),
    )]));
    assert!(script_valid(&vec![Ast::Wait(0)]));
}

#[test]
fn zero_duration_wait_still_takes_one_tick() {
    let mut scene = compiled(vec![Ast::Wait(0), Ast::Notify(0, 1)]);
    assert!(scene.tick());
    assert!(scene.take_notifications().is_empty());
    assert!(!scene.tick());
    assert_eq!(scene.take_notifications(), vec![(0, 1)]);
}
