use ytesrev::drawable::{Drawable, State};
use ytesrev::scene::{Action, DrawableWrapper, Scene, SceneList, YEvent};
use ytesrev::solid::Solid;
use ytesrev::window::WindowSettings;

#[test]
fn wrapper_is_done_once_hidden() {
    let mut scene = DrawableWrapper(Solid::new_rgba(0, 0, 0, 255));
    assert_eq!(scene.action(), Action::Continue);
    scene.event(YEvent::Other);
    scene.event(YEvent::StepSlide);
    assert_eq!(scene.action(), Action::Continue);
    scene.event(YEvent::Step);
    assert_eq!(scene.0.state(), State::Hidden);
    assert_eq!(scene.action(), Action::Done);
}

#[test]
fn scene_list_moves_on() {
    let mut list = SceneList::new(vec![
        DrawableWrapper(Solid::new_rgba(1, 1, 1, 1)),
        DrawableWrapper(Solid::new_rgba(2, 2, 2, 2)),
    ]);
    assert_eq!(list.get_current_scene(), 0);
    list.event(YEvent::Step);
    assert_eq!(list.get_current_scene(), 0);
    list.update(16);
    assert_eq!(list.get_current_scene(), 1);
    list.event(YEvent::StepSlide);
    assert_eq!(list.get_current_scene(), 2);
    assert_eq!(list.action(), Action::Done);
    list.event(YEvent::StepSlide);
    list.update(16);
    assert_eq!(list.get_current_scene(), 2);
}

#[test]
fn window_defaults() {
    let main = WindowSettings::main_window();
    assert!(!main.draw_settings.notes_view);
    assert_eq!(main.window_size, (1200, 800));
    let notes = WindowSettings::notes_window();
    assert!(notes.draw_settings.notes_view);
    assert_eq!(notes.window_size, (600, 400));
}
