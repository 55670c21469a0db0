use multihangman::client::{HangmanClient, Scenes};
use multihangman::connect::{Config, ConnectScene};
use multihangman::game::GameScene;
use multihangman::scenes::{JoinGameScene, NewGameWizardScene, OpeningScene, WizardStatus, KEY_A, KEY_B, KEY_DOWN, KEY_ENTER, KEY_UP};
use multihangman::structs::{GameMode, Guess, HangmanEvent, HangmanEventResponse, HangmanGame, SocketAddress, User};

const KEY_BACKSPACE: u32 = 259;

fn user(n: u16) -> User {
    User { ip: SocketAddress::V4 { ip: 1, port: n } }
}

fn guess(text: &str) -> Guess {
    Guess { id: None, user: user(1), guess: text.to_string() }
}

fn client_with(word: &str, max: u16, guesses: &[&str]) -> HangmanClient {
    let mut g = HangmanGame::from(word.to_string(), max, user(1), GameMode::MultiGuess);
    for t in guesses {
        g.guesses.push(guess(t));
    }
    let mut c = HangmanClient::new(HangmanEventResponse::LoginSuccess(user(1)));
    c.join_game(HangmanEventResponse::GameJoined(g)).unwrap();
    c
}

#[test]
fn game_scene_shows_matches_and_attempts() {
    let mut c = client_with("hello", 5, &["l", "z", "h"]);
    let mut s = GameScene::new();
    assert_eq!(s.attempts(), "Attempts: ");
    s.update_values(&mut c);
    assert_eq!(s.guess_chars(), &vec!["h", " ", "l", "l", " "]);
    assert_eq!(s.attempts(), "Attempts: 4");
    assert_eq!(s.wrong_guesses(), "Wrong Guesses:\nz ");
    assert!(!s.has_next_scene());
}

#[test]
fn game_scene_cells_follow_bytes() {
    let mut c = client_with("né", 3, &["é"]);
    let mut s = GameScene::new();
    s.update_values(&mut c);
    assert_eq!(s.guess_chars(), &vec![" ", "é", " "]);
}

#[test]
fn game_scene_wrong_list_breaks_lines() {
    let wrong = ["a", "b", "c", "d", "f", "g", "i", "j", "k"];
    let mut c = client_with("xyz", 20, &wrong);
    let mut s = GameScene::new();
    s.update_values(&mut c);
    assert_eq!(s.wrong_guesses(), "Wrong Guesses:\na b c d f g i j \nk ");
    assert_eq!(s.attempts(), "Attempts: 11");
}

#[test]
fn game_scene_drains_events() {
    let mut c = client_with("hello", 5, &[]);
    c.recv_event(Some(HangmanEvent::Sync(0, guess("q"))));
    let mut s = GameScene::new();
    s.update_values(&mut c);
    assert!(c.event_queue.is_empty());
    assert_eq!(c.game.as_ref().unwrap().guesses.len(), 1);
    assert_eq!(s.take_timeout(), Some(100));
    assert_eq!(s.take_timeout(), None);
    c.recv_event(Some(HangmanEvent::GameWon(user(2))));
    s.update_values(&mut c);
    assert!(c.game.is_none());
    assert!(s.has_next_scene());
}

#[test]
fn game_scene_own_wrong_guess_flashes_longer() {
    let c = client_with("hello", 5, &[]);
    let mut s = GameScene::new();
    s.handle_hangman_event(c.game.as_ref().unwrap(), &HangmanEvent::Sync(0, guess("x")), true);
    assert_eq!(s.take_timeout(), Some(1000));
    s.handle_hangman_event(c.game.as_ref().unwrap(), &HangmanEvent::Sync(0, guess("e")), true);
    assert_eq!(s.take_timeout(), None);
    s.handle_hangman_event(c.game.as_ref().unwrap(), &HangmanEvent::GameDraw, false);
    assert!(s.has_next_scene());
}

#[test]
fn game_scene_guess_keys() {
    assert_eq!(GameScene::guess_of_key(65), Some("A".to_string()));
    assert_eq!(GameScene::guess_of_key(KEY_ENTER), None);
    assert_eq!(GameScene::guess_of_key(49), None);
}

#[test]
fn opening_scene_selection() {
    let mut s = OpeningScene::new();
    assert_eq!(s.next_scene(), Scenes::NewGameWizardScene);
    s.handle_key(KEY_DOWN);
    assert_eq!(s.selection(), Scenes::JoinGameScene);
    assert!(!s.has_next_scene());
    s.handle_key(KEY_UP);
    s.handle_key(KEY_DOWN);
    s.handle_key(KEY_ENTER);
    assert!(s.has_next_scene());
    assert_eq!(s.next_scene(), Scenes::JoinGameScene);
}

#[test]
fn join_scene_typing_and_answers() {
    let mut s = JoinGameScene::new();
    assert_eq!(s.handle_key(49), None); // '1'
    assert_eq!(s.handle_key(50), None); // '2'
    assert_eq!(s.game_id(), 12);
    assert_eq!(s.handle_key(KEY_BACKSPACE), None);
    assert_eq!(s.game_id(), 1);
    assert_eq!(s.handle_key(KEY_ENTER), Some(1));
    s.join_result(false);
    assert!(s.show_error());
    assert_eq!(s.game_id(), 0);
    assert!(!s.has_next_scene());
    s.error_seen();
    assert!(!s.show_error());
    s.join_result(true);
    assert!(s.has_next_scene());
    assert_eq!(s.next_scene(), Scenes::GameScene);
    let mut s = JoinGameScene::new();
    s.handle_key(KEY_B);
    assert_eq!(s.next_scene(), Scenes::OpeningScene);
}

#[test]
fn wizard_flow() {
    let mut s = NewGameWizardScene::new();
    for k in [72u32, 73] {
        assert_eq!(s.handle_key(k), None); // 'H', 'I'
    }
    assert_eq!(s.guess_str, "HI");
    assert_eq!(s.prompt_str(), "HI");
    assert_eq!(s.handle_key(KEY_ENTER), None);
    assert_eq!(s.wizard(), WizardStatus::MaxGuesses);
    assert_eq!(s.prompt_str(), "0");
    assert_eq!(s.instructions(), "What's the maximum number of guesses?\n\n\nPress ENTER to continue");
    s.handle_key(55); // '7'
    s.handle_key(48); // '0'
    assert_eq!(s.max_guesses, 70);
    assert_eq!(s.prompt_str(), "70");
    s.handle_key(KEY_ENTER);
    assert_eq!(s.wizard(), WizardStatus::Mode);
    assert_eq!(s.handle_key(50), None);
    assert_eq!(s.handle_key(KEY_B), Some(GameMode::MultiGuess));
    assert_eq!(s.handle_key(KEY_A), Some(GameMode::FastestGuess));
    let g = s.new_game(user(4), GameMode::FastestGuess);
    assert_eq!(g.word, "HI");
    assert_eq!(g.max_guesses, 70);
    assert!(!s.has_next_scene());
    s.game_started();
    assert!(s.has_next_scene());
    assert_eq!(s.next_scene(), Scenes::GameScene);
}

#[test]
fn wizard_guesses_wrap_to_16_bits() {
    let mut s = NewGameWizardScene::new();
    s.handle_key(KEY_ENTER);
    for k in [54u32, 53, 53, 51, 54] {
        s.handle_key(k); // 65536
    }
    assert_eq!(s.max_guesses, 0);
}

#[test]
fn connect_scene_flow() {
    let mut s = ConnectScene::new(Config::with_ips(vec![], "c.toml".to_string()));
    assert!(!s.handle_key(KEY_ENTER));
    assert!(s.add_ip());
    for k in [49u32, 59, 50] {
        s.handle_key(k); // "1", ';' becomes ':', "2"
    }
    assert_eq!(s.add_ip_buffer(), "1:2");
    assert!(s.handle_key(KEY_ENTER));
    assert!(!s.add_ip());
    assert_eq!(s.config().recent_ips(), &vec!["1:2".to_string()]);
    s.handle_key(KEY_DOWN);
    assert_eq!(s.selected_ip(), 1);
    s.handle_key(KEY_UP);
    assert_eq!(s.selected_ip(), 0);
    s.handle_key(KEY_UP);
    assert_eq!(s.selected_ip(), 0);
    assert!(!s.handle_key(KEY_ENTER));
    assert!(s.has_next_scene());
    assert_eq!(s.selected_server(), "1:2");
}
