use asteroid_dodge::resources::GameData;
use bevy::app::App;
use bevy::ecs::resource::Resource;
use bevy::MinimalPlugins;

#[derive(Default)]
struct Game(GameData);

impl Resource for Game {}

#[test]
fn test_app_builds() {
    let mut app = App::new();
    app.add_plugins(MinimalPlugins).init_resource::<Game>();

    // If this doesn't panic, our setup is valid
    app.update();

    let game = app.world().resource::<Game>();
    assert_eq!(game.0, GameData { score: 0, is_game_over: false });
}
