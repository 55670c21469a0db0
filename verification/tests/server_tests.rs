use multihangman::db::DbUser;
use multihangman::server::{HangmanServer, Outgoing, ServerAction, SyncPlan};
use multihangman::structs::{GameMode, Guess, HangmanEvent, HangmanEventResponse, HangmanGame, SocketAddress, User};

fn addr(n: u16) -> SocketAddress {
    SocketAddress::V4 { ip: 0x7f00_0001, port: n }
}

fn user(n: u16) -> User {
    User { ip: addr(n) }
}

fn guess(by: u16, text: &str) -> Guess {
    Guess { id: None, user: user(by), guess: text.to_string() }
}

fn account(id: i32) -> DbUser {
    DbUser { id, username: format!("user{}", id), game_id: None, password: "hash".to_string() }
}

/// Carries out the whole plan of a guess, as when every message goes out,
/// and returns the messages in the order they are sent.
fn sync(s: &mut HangmanServer, u: &User, id: u64, g: Guess) -> Vec<Outgoing> {
    let plan: SyncPlan = s.respond_to_sync_event(u, id, g);
    let mut out = plan.replies;
    if let Some(g) = plan.record {
        s.record_guess(plan.id, g);
    }
    out.extend(plan.notices);
    if plan.finish {
        s.finish_game(plan.id);
    }
    out
}

/// A server with one game ("hello", `max` wrong guesses allowed) created by
/// user 1 and joined by users 1, 2 and 3.
fn server_with_game(max: u16) -> HangmanServer {
    let mut s = HangmanServer::new();
    s.respond_to_gamecreate_event(&user(1), HangmanGame::from("hello".to_string(), max, user(1), GameMode::MultiGuess));
    for n in 1..=3 {
        s.respond_to_joingame_event(&user(n), 0);
    }
    s
}

#[test]
fn gamecreate_assigns_position_as_id() {
    let mut s = HangmanServer::new();
    let out = s.respond_to_gamecreate_event(&user(1), HangmanGame::from(" first ".to_string(), 3, user(1), GameMode::FastestGuess));
    assert!(matches!(out.as_slice(), [Outgoing::Respond(a, HangmanEventResponse::GameCreated(0))] if *a == addr(1)));
    let out = s.respond_to_gamecreate_event(&user(2), HangmanGame::from("second".to_string(), 3, user(2), GameMode::MultiGuess));
    assert!(matches!(out.as_slice(), [Outgoing::Respond(a, HangmanEventResponse::GameCreated(1))] if *a == addr(2)));
    assert_eq!(s.games.len(), 2);
    assert_eq!(s.games[0].id, 0);
    assert_eq!(s.games[0].word, "first");
    assert_eq!(s.games[1].id, 1);
}

#[test]
fn joingame_adds_player_and_sends_game() {
    let mut s = HangmanServer::new();
    s.respond_to_gamecreate_event(&user(1), HangmanGame::from("word".to_string(), 3, user(1), GameMode::MultiGuess));
    let out = s.respond_to_joingame_event(&user(2), 0);
    match out.as_slice() {
        [Outgoing::Respond(a, HangmanEventResponse::GameJoined(g))] => {
            assert_eq!(*a, addr(2));
            assert_eq!(g.players, vec![user(2)]);
            assert_eq!(g.word, "word");
        }
        _ => panic!("unexpected answer"),
    }
    assert_eq!(s.games[0].players, vec![user(2)]);
}

#[test]
fn joingame_unknown_game_is_error() {
    let mut s = HangmanServer::new();
    let out = s.respond_to_joingame_event(&user(2), 4);
    assert!(matches!(out.as_slice(), [Outgoing::Respond(_, HangmanEventResponse::Error)]));
    assert!(s.games.is_empty());
}

#[test]
fn sync_good_guess_relayed_to_others() {
    let mut s = server_with_game(5);
    let out = sync(&mut s, &user(2), 0, guess(2, "l"));
    assert_eq!(out.len(), 3);
    assert!(matches!(&out[0], Outgoing::Send(a, HangmanEvent::Sync(0, g)) if *a == addr(1) && g.guess == "l"));
    assert!(matches!(&out[1], Outgoing::Send(a, HangmanEvent::Sync(0, _)) if *a == addr(3)));
    assert!(matches!(&out[2], Outgoing::Respond(a, HangmanEventResponse::Okay) if *a == addr(2)));
    assert_eq!(s.games[0].guesses.len(), 1);
    assert_eq!(s.games[0].guesses[0].guess, "l");
}

#[test]
fn sync_bad_guess_answered_badguess() {
    let mut s = server_with_game(5);
    let out = sync(&mut s, &user(1), 0, guess(1, "z"));
    assert!(matches!(out.last(), Some(Outgoing::Respond(a, HangmanEventResponse::BadGuess)) if *a == addr(1)));
    assert_eq!(s.games[0].guesses.len(), 1);
}

#[test]
fn sync_repeated_guess_rejected() {
    let mut s = server_with_game(5);
    sync(&mut s, &user(1), 0, guess(1, "e"));
    let out = sync(&mut s, &user(2), 0, guess(2, "e"));
    assert!(matches!(out.as_slice(), [Outgoing::Respond(a, HangmanEventResponse::SyncRejected)] if *a == addr(2)));
    assert_eq!(s.games[0].guesses.len(), 1);
}

#[test]
fn sync_unknown_game_is_error() {
    let mut s = server_with_game(5);
    let out = sync(&mut s, &user(1), 3, guess(1, "e"));
    assert!(matches!(out.as_slice(), [Outgoing::Respond(_, HangmanEventResponse::Error)]));
    assert_eq!(s.games.len(), 1);
}

#[test]
fn sync_winning_guess_announces_winner_and_removes_game() {
    let mut s = server_with_game(5);
    for g in ["h", "e", "l"] {
        sync(&mut s, &user(1), 0, guess(1, g));
    }
    let out = sync(&mut s, &user(3), 0, guess(3, "o"));
    // relayed to players 1 and 2, answer to 3, then GameWon to all three
    assert_eq!(out.len(), 6);
    assert!(matches!(&out[2], Outgoing::Respond(a, HangmanEventResponse::Okay) if *a == addr(3)));
    for (k, n) in [(3usize, 1u16), (4, 2), (5, 3)] {
        assert!(matches!(&out[k], Outgoing::Send(a, HangmanEvent::GameWon(w)) if *a == addr(n) && *w == user(3)));
    }
    assert!(s.games.is_empty());
}

#[test]
fn sync_last_attempt_draws() {
    let mut s = server_with_game(2);
    sync(&mut s, &user(1), 0, guess(1, "x"));
    assert_eq!(s.games.len(), 1);
    let out = sync(&mut s, &user(1), 0, guess(1, "y"));
    assert_eq!(out.len(), 6);
    assert!(matches!(&out[2], Outgoing::Respond(_, HangmanEventResponse::BadGuess)));
    for k in 3..6 {
        assert!(matches!(&out[k], Outgoing::Send(_, HangmanEvent::GameDraw)));
    }
    assert!(s.games.is_empty());
}

#[test]
fn removing_a_game_shifts_later_games() {
    let mut s = HangmanServer::new();
    s.respond_to_gamecreate_event(&user(1), HangmanGame::from("a".to_string(), 3, user(1), GameMode::MultiGuess));
    s.respond_to_gamecreate_event(&user(1), HangmanGame::from("b".to_string(), 3, user(1), GameMode::MultiGuess));
    sync(&mut s, &user(1), 0, guess(1, "a"));
    assert_eq!(s.games.len(), 1);
    assert_eq!(s.games[0].word, "b");
    assert_eq!(s.games[0].id, 1);
}

#[test]
fn login_then_disconnect() {
    let mut s = server_with_game(5);
    let out = s.respond_to_login_event(addr(2), Some(account(7)));
    assert!(matches!(out.as_slice(), [Outgoing::Respond(a, HangmanEventResponse::LoginSuccess(u))] if *a == addr(2) && *u == user(2)));
    let out = s.respond_to_disconnect_event(&user(2));
    assert!(matches!(out.as_slice(), [Outgoing::Respond(a, HangmanEventResponse::Okay)] if *a == addr(2)));
    assert_eq!(s.games[0].players, vec![user(1), user(3)]);
}

#[test]
fn login_failure() {
    let mut s = HangmanServer::new();
    let out = s.respond_to_login_event(addr(2), None);
    assert!(matches!(out.as_slice(), [Outgoing::Respond(a, HangmanEventResponse::LoginFailure)] if *a == addr(2)));
}

#[test]
fn disconnect_removes_only_first_occurrence() {
    let mut s = HangmanServer::new();
    s.respond_to_gamecreate_event(&user(1), HangmanGame::from("w".to_string(), 3, user(1), GameMode::MultiGuess));
    s.respond_to_joingame_event(&user(1), 0);
    s.respond_to_joingame_event(&user(2), 0);
    s.respond_to_joingame_event(&user(1), 0);
    s.respond_to_disconnect_event(&user(1));
    assert_eq!(s.games[0].players, vec![user(2), user(1)]);
}

#[test]
fn handle_event_dispatches() {
    let mut s = HangmanServer::new();
    match s.handle_event(HangmanEvent::Login("ann".to_string(), "pw".to_string()), addr(9)) {
        ServerAction::Authenticate(a, u, p) => {
            assert_eq!(a, addr(9));
            assert_eq!(u, "ann");
            assert_eq!(p, "pw");
        }
        _ => panic!("login must be authenticated"),
    }
    match s.handle_event(HangmanEvent::GameCreate(HangmanGame::from("w".to_string(), 1, user(9), GameMode::MultiGuess)), addr(9)) {
        ServerAction::Reply(out) => assert!(matches!(out.as_slice(), [Outgoing::Respond(_, HangmanEventResponse::GameCreated(0))])),
        _ => panic!(),
    }
    match s.handle_event(HangmanEvent::JoinGame(0), addr(9)) {
        ServerAction::Reply(out) => assert!(matches!(out.as_slice(), [Outgoing::Respond(_, HangmanEventResponse::GameJoined(_))])),
        _ => panic!(),
    }
    match s.handle_event(HangmanEvent::Sync(0, guess(9, "w")), addr(9)) {
        ServerAction::Staged(plan) => {
            assert!(matches!(plan.replies.as_slice(), [Outgoing::Respond(_, HangmanEventResponse::Okay)]));
            assert!(plan.record.is_some() && plan.finish);
            assert!(matches!(plan.notices.as_slice(), [Outgoing::Send(a, HangmanEvent::GameWon(w))] if *a == addr(9) && *w == user(9)));
        }
        _ => panic!(),
    }
    assert!(s.games[0].guesses.is_empty());
    match s.handle_event(HangmanEvent::GameDraw, addr(9)) {
        ServerAction::Reply(out) => assert!(out.is_empty()),
        _ => panic!(),
    }
    match s.handle_event(HangmanEvent::Disconnect, addr(9)) {
        ServerAction::Reply(out) => assert!(matches!(out.as_slice(), [Outgoing::Respond(_, HangmanEventResponse::Okay)])),
        _ => panic!(),
    }
    assert!(s.games[0].players.is_empty());
}

#[test]
fn guesses_equal_by_text() {
    assert!(guess(1, "a") == guess(2, "a"));
    assert!(guess(1, "a") != guess(1, "b"));
}

#[test]
fn sync_plan_changes_nothing_until_carried_out() {
    let mut s = server_with_game(1);
    let plan = s.respond_to_sync_event(&user(2), 0, guess(2, "z"));
    // the replies failed to go out: nothing was recorded
    assert!(s.games[0].guesses.is_empty());
    assert_eq!(plan.replies.len(), 3);
    assert!(matches!(&plan.replies[2], Outgoing::Respond(a, HangmanEventResponse::BadGuess) if *a == addr(2)));
    assert_eq!(plan.notices.len(), 3);
    assert!(plan.notices.iter().all(|m| matches!(m, Outgoing::Send(_, HangmanEvent::GameDraw))));
    assert!(plan.finish);
    // the replies went out, a notice failed: the guess is recorded and the game stays
    s.record_guess(plan.id, plan.record.unwrap());
    assert_eq!(s.games.len(), 1);
    assert_eq!(s.games[0].guesses.len(), 1);
    assert_eq!(s.games[0].guesses[0].guess, "z");
    s.finish_game(0);
    assert!(s.games.is_empty());
}

#[test]
fn refused_guess_plans_nothing_to_record() {
    let mut s = server_with_game(5);
    let plan = s.respond_to_sync_event(&user(1), 7, guess(1, "e"));
    assert!(matches!(plan.replies.as_slice(), [Outgoing::Respond(_, HangmanEventResponse::Error)]));
    assert!(plan.record.is_none() && plan.notices.is_empty() && !plan.finish);
    sync(&mut s, &user(1), 0, guess(1, "e"));
    let plan = s.respond_to_sync_event(&user(2), 0, guess(2, "e"));
    assert!(matches!(plan.replies.as_slice(), [Outgoing::Respond(_, HangmanEventResponse::SyncRejected)]));
    assert!(plan.record.is_none() && plan.notices.is_empty() && !plan.finish);
}
