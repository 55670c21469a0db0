use multihangman::client::{Config, HangmanClient, IpUsernamePair, JoinError};
use multihangman::structs::{Configurable, GameMode, Guess, HangmanEvent, HangmanEventResponse, HangmanGame, SocketAddress, User};

fn user(n: u16) -> User {
    User { ip: SocketAddress::V4 { ip: 0x0a00_0001, port: n } }
}

fn game() -> HangmanGame {
    let mut g = HangmanGame::from("apple".to_string(), 4, user(1), GameMode::MultiGuess);
    g.id = 3;
    g
}

fn joined_client() -> HangmanClient {
    let mut c = HangmanClient::new(HangmanEventResponse::LoginSuccess(user(5)));
    assert!(c.join_game(HangmanEventResponse::GameJoined(game())).is_ok());
    c
}

#[test]
fn login_success_sets_user() {
    let c = HangmanClient::new(HangmanEventResponse::LoginSuccess(user(5)));
    assert_eq!(c.user, Some(user(5)));
    assert!(c.game.is_none());
    let c = HangmanClient::new(HangmanEventResponse::LoginFailure);
    assert_eq!(c.user, None);
}

#[test]
fn sync_records_taken_guess() {
    let mut c = joined_client();
    let ev = c.sync_event("p".to_string());
    assert!(matches!(&ev, HangmanEvent::Sync(3, g) if g.guess == "p" && g.user == user(5) && g.id.is_none()));
    let (ev, resp) = c.sync(ev, HangmanEventResponse::Okay);
    assert!(matches!(ev, HangmanEvent::Sync(3, _)));
    assert!(matches!(resp, HangmanEventResponse::Okay));
    assert_eq!(c.game.as_ref().unwrap().guesses.len(), 1);
    let ev = c.sync_event("q".to_string());
    c.sync(ev, HangmanEventResponse::BadGuess);
    assert_eq!(c.game.as_ref().unwrap().guesses.len(), 2);
}

#[test]
fn sync_rejected_guess_not_recorded() {
    let mut c = joined_client();
    let ev = c.sync_event("p".to_string());
    c.sync(ev, HangmanEventResponse::SyncRejected);
    assert!(c.game.as_ref().unwrap().guesses.is_empty());
}

#[test]
fn create_game_reads_answer() {
    let c = joined_client();
    assert_eq!(c.create_game(HangmanEventResponse::GameCreated(9)), Some(9));
    assert_eq!(c.create_game(HangmanEventResponse::Error), None);
    assert_eq!(c.create_game(HangmanEventResponse::Okay), Some(0));
}

#[test]
fn join_game_answers() {
    let mut c = HangmanClient::new(HangmanEventResponse::LoginSuccess(user(5)));
    assert_eq!(c.join_game(HangmanEventResponse::Error), Err(JoinError::NoSuchGame));
    assert!(c.game.is_none());
    assert_eq!(c.join_game(HangmanEventResponse::Okay), Ok(()));
    assert!(c.game.is_none());
    assert_eq!(c.join_game(HangmanEventResponse::GameJoined(game())), Ok(()));
    assert_eq!(c.game.as_ref().unwrap().word, "apple");
}

#[test]
fn disconnect_confirmation() {
    let c = joined_client();
    assert!(c.disconnect(&HangmanEventResponse::Okay));
    assert!(!c.disconnect(&HangmanEventResponse::Error));
}

#[test]
fn relayed_events_update_game() {
    let mut c = joined_client();
    c.handle_event(HangmanEvent::Sync(3, Guess { id: None, user: user(1), guess: "a".to_string() }));
    assert_eq!(c.game.as_ref().unwrap().guesses[0].guess, "a");
    c.handle_event(HangmanEvent::JoinGame(1));
    assert!(c.game.is_some());
    c.handle_event(HangmanEvent::GameWon(user(1)));
    assert!(c.game.is_none());
    let mut c = joined_client();
    c.handle_event(HangmanEvent::GameDraw);
    assert!(c.game.is_none());
}

#[test]
fn received_events_are_queued() {
    let mut c = joined_client();
    c.recv_event(Some(HangmanEvent::GameDraw));
    c.recv_event(None);
    c.recv_event(Some(HangmanEvent::Disconnect));
    assert_eq!(c.event_queue.len(), 2);
    assert!(matches!(c.event_queue[1], HangmanEvent::Disconnect));
}

#[test]
fn config_add_and_remove() {
    let mut cfg = Config::with_entries(vec![IpUsernamePair::new("a:1".to_string(), "ann".to_string())], "c.toml".to_string());
    cfg.add_configset("b:2", "bob");
    assert_eq!(cfg.recent_ips().len(), 2);
    assert_eq!(cfg.recent_ips()[1].ip(), "b:2");
    assert_eq!(cfg.recent_ips()[1].username(), "bob");
    cfg.remove_ip(0);
    assert_eq!(cfg.recent_ips().len(), 1);
    assert_eq!(cfg.recent_ips()[0].username(), "bob");
    assert_eq!(cfg.file_name(), "c.toml");
    cfg.set_file_name("d.toml".to_string());
    assert_eq!(Configurable::file_name(&cfg), "d.toml");
}
