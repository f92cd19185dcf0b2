use fps_netcode::persistence::{PersistenceLayer, PlayerStats};
use fps_netcode::collision::CollisionSystem;
use fps_netcode::editor::{Level, SceneManager};
use fps_netcode::config::Config;
use fps_netcode::net::{reply_to_command, reply_to_request, NetworkServer};
use fps_netcode::player_data::PlayerDataStore;
use fps_netcode::state::GameState;

#[test]
fn default_config_points_at_localhost() {
    let c = Config::load_or_default(None);
    assert_eq!(c.server.host, "127.0.0.1");
    assert_eq!(c.server.port, 7777);
    assert_eq!(c.client.server_host, "127.0.0.1");
    assert_eq!(c.client.server_port, 7777);
}

#[test]
fn loaded_config_is_kept() {
    let mut loaded = Config::default();
    loaded.server.port = 9000;
    loaded.client.server_host = "10.0.0.2".to_string();
    let c = Config::load_or_default(Some(loaded));
    assert_eq!(c.server.port, 9000);
    assert_eq!(c.client.server_host, "10.0.0.2");
}

#[test]
fn game_state_counts_ticks() {
    let mut s = GameState::new();
    assert_eq!(s.get_tick(), 0);
    s.update();
    s.update();
    assert_eq!(s.get_tick(), 2);
    assert_eq!(GameState::default().get_tick(), 0);
}

#[test]
fn server_address_joins_host_and_port() {
    assert_eq!(NetworkServer::new("127.0.0.1", 7778).addr, "127.0.0.1:7778");
    assert_eq!(NetworkServer::new("example.org", 0).addr, "example.org:0");
    assert_eq!(NetworkServer::new("h", 65535).addr, "h:65535");
    assert_eq!(NetworkServer::default().addr, "127.0.0.1:7777");
}

#[test]
fn requests_get_their_replies() {
    assert_eq!(reply_to_request("HELLO\n"), "WORLD\n");
    assert_eq!(reply_to_request("  PING\r\n"), "PONG\n");
    assert_eq!(reply_to_request("HELLO THERE\n"), "OK\n");
    assert_eq!(reply_to_request(""), "OK\n");
    assert_eq!(reply_to_command("PING"), "PONG\n");
    assert_eq!(reply_to_command("PING\n"), "OK\n");
}

#[test]
fn fresh_profiles_are_named_player() {
    let store = PlayerDataStore::new();
    let p = store.load_profile("p-17").unwrap();
    assert_eq!(p.player_id, "p-17");
    assert_eq!(p.username, "Player");
    assert!(store.save_profile(&p).is_ok());
}

#[test]
fn levels_and_scenes() {
    assert_eq!(Level::new("Arena".to_string()).name, "Arena");
    assert_eq!(Level::default().name, "Untitled");
    let mut scenes = SceneManager::new();
    assert!(scenes.load_scene("arena.scene").is_ok());
    assert!(scenes.save_scene("arena.scene").is_ok());
    let mut collisions = CollisionSystem::new();
    collisions.handle_collisions();
}

#[test]
fn persistence_gives_fresh_profiles() {
    let layer = PersistenceLayer::new();
    let p = layer.load_player_profile("p-3").unwrap();
    assert_eq!(p.player_id, "p-3");
    assert_eq!(p.username, "Player");
    assert_eq!((p.level, p.experience), (1, 0));
    assert_eq!(p.stats, PlayerStats::default());
    assert!(layer.save_player_profile(&p).is_ok());
    assert!(layer.enqueue_matchmaking("p-3").is_ok());
}
