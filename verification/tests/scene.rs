use ledge_engine::game::GameState;
use ledge_engine::scene::level::{Level, LevelBuilder};
use ledge_engine::scene::stack::{SceneStack, SceneSwitch};
use ledge_engine::scene::Scene;

struct Menu;
impl Scene<()> for Menu {}

#[test]
fn scene_stack_pushes_on_top() {
    let mut s: SceneStack<Box<dyn Scene<()>>> = SceneStack::new();
    assert_eq!(s.scenes.len(), 0);
    s.push(Box::new(Menu));
    s.push(Box::new(Menu));
    assert_eq!(s.scenes.len(), 2);
}

#[test]
fn scene_switch_constructors() {
    let r: SceneSwitch<()> = SceneSwitch::replace(Menu);
    assert!(matches!(r, SceneSwitch::Replace(_)));
    let p: SceneSwitch<()> = SceneSwitch::push(Menu);
    assert!(matches!(p, SceneSwitch::Push(_)));
}

#[test]
fn game_state_adds_spaces() {
    let mut g: GameState<Box<dyn Scene<()>>> = GameState::new();
    g.add_space(Box::new(Menu));
}

#[test]
fn level_builder_builds_a_level() {
    let mut b = LevelBuilder::new();
    assert!(!b.is_built);
    b.from_conf();
    b.with();
    b.from_conf_file();
    assert!(!b.is_built);
    let _level: Level = b.build();
}
