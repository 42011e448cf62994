use cutscene::action::Action;
use cutscene::event::Event;
use cutscene::event::KeyMod;
use cutscene::geom::round_up_to_16;
use cutscene::geom::Point;
use cutscene::title::decide_title_action;
use cutscene::title::TitleAction;
use cutscene::title::TitleDecision;

#[test]
fn translate_event() {
    assert_eq!(
        Event::MouseDown(Point::new(100, 200)).translate(30, 40),
        Event::MouseDown(Point::new(130, 240))
    );
    assert_eq!(Event::ClockTick.translate(30, 40), Event::ClockTick);
}

#[test]
fn translate_drag_and_others() {
    assert_eq!(
        Event::MouseDrag(Point::new(-5, 7)).translate(5, -7),
        Event::MouseDrag(Point::new(0, 0))
    );
    assert_eq!(Event::MouseUp.translate(1, 1), Event::MouseUp);
    assert_eq!(Event::Quit.translate(9, 9), Event::Quit);
    let key = Event::KeyDown(13, KeyMod::shift());
    assert_eq!(key.translate(2, 3), key);
    let text = Event::TextInput(String::from("abc"));
    assert_eq!(text.translate(2, 3), text);
}

#[test]
fn keymod_bits_and_union() {
    assert_eq!(KeyMod::none().bits, 0x0);
    assert_eq!(KeyMod::shift().bits, 0x1);
    assert_eq!(KeyMod::alt().bits, 0x2);
    assert_eq!(KeyMod::command().bits, 0x4);
    let both = KeyMod::shift().union(KeyMod::alt());
    assert_eq!(both.bits, 0x3);
    assert!(both.contains(KeyMod::shift()));
    assert!(both.contains(KeyMod::alt()));
    assert!(!both.contains(KeyMod::command()));
    assert!(both.contains(KeyMod::none()));
}

#[test]
fn round_up_to_16_values() {
    assert_eq!(round_up_to_16(0), 0);
    assert_eq!(round_up_to_16(1), 16);
    assert_eq!(round_up_to_16(16), 16);
    assert_eq!(round_up_to_16(17), 32);
    assert_eq!(round_up_to_16(100), 112);
}

#[test]
fn action_merge_and_flags() {
    let mut a: Action<i32> = Action::ignore();
    assert!(!a.should_stop());
    assert!(!a.should_redraw());
    a.merge(Action::redraw().and_play_sound(3));
    assert!(a.should_redraw());
    assert!(!a.should_stop());
    a.merge(Action::ignore().and_return(7));
    assert!(a.should_stop());
    assert_eq!(a.take_value(), Some(7));
    assert_eq!(a.drain_sounds(), vec![3]);
    assert_eq!(a.drain_sounds(), Vec::<u32>::new());
}

#[test]
fn action_value_stops_propagation() {
    let handled: Action<u8> = Action::redraw().and_return(1);
    assert!(handled.should_stop());
    let silenced = handled.but_no_value();
    assert!(silenced.should_stop());
    assert!(silenced.value.is_none());
    let stopped: Action<u8> = Action::ignore().and_stop();
    assert!(stopped.should_stop());
    let redraw_only: Action<u8> = Action::redraw_if(true);
    assert!(!redraw_only.should_stop());
}

#[test]
fn title_decisions() {
    assert_eq!(
        decide_title_action(&TitleAction::StartGame, true),
        TitleDecision::ContinueGame
    );
    assert_eq!(
        decide_title_action(&TitleAction::StartGame, false),
        TitleDecision::BeginNewGame
    );
    assert_eq!(
        decide_title_action(&TitleAction::SetFullscreen(true), false),
        TitleDecision::ApplyFullscreen(true)
    );
    assert_eq!(
        decide_title_action(&TitleAction::EraseGame, true),
        TitleDecision::ConfirmErase
    );
    assert_eq!(decide_title_action(&TitleAction::Quit, true), TitleDecision::Leave);
}
