//! The data that client and server exchange: users, guesses, games, the
//! events sent to the server and the server's responses.

use vstd::prelude::*;
use crate::text::{trim, trimmed};

verus! {

/// A network endpoint (IP address and port), as the server sees a client.
#[derive(Clone, Copy, Debug, PartialEq, Eq, Hash, Structural)]
pub enum SocketAddress {
    /// An IPv4 address (as a big-endian `u32`) and a port.
    V4 { ip: u32, port: u16 },
    /// An IPv6 address (as a big-endian `u128`), a port, the flow label and
    /// the scope id.
    V6 { ip6: u128, port: u16, flowinfo: u32, scope_id: u32 },
}

/// A player, identified by the endpoint it plays from.
#[derive(Clone, Copy, Debug, PartialEq, Eq, Hash, Structural)]
pub struct User {
    pub ip: SocketAddress,
}

/// How a game is played.
#[derive(Clone, Copy, Debug, PartialEq, Eq, Structural)]
pub enum GameMode {
    MultiGuess,
    FastestGuess,
}

/// A guess made by a user in a game.
#[derive(Debug)]
pub struct Guess {
    pub id: Option<i32>,
    pub user: User,
    pub guess: String,
}

/// The mathematical value of a guess.
pub struct GuessView {
    pub id: Option<i32>,
    pub user: User,
    pub guess: Seq<char>,
}

impl View for Guess {
    type V = GuessView;

    open spec fn view(&self) -> GuessView {
        GuessView { id: self.id, user: self.user, guess: self.guess@ }
    }
}

impl Clone for Guess {
    fn clone(&self) -> (r: Self)
        ensures
            r@ == self@,
    {
        Guess { id: self.id, user: self.user, guess: self.guess.clone() }
    }
}

/// Two guesses are equal when they guess the same text, whoever made them.
impl PartialEq for Guess {
    fn eq(&self, other: &Self) -> (r: bool) {
        self.guess == other.guess
    }
}

impl vstd::std_specs::cmp::PartialEqSpecImpl for Guess {
    open spec fn obeys_eq_spec() -> bool {
        true
    }

    open spec fn eq_spec(&self, other: &Self) -> bool {
        self.guess@ == other.guess@
    }
}

/// A hangman game: the word to guess, the number of wrong guesses allowed,
/// who created it, the guesses so far and who plays it.
#[derive(Debug)]
pub struct HangmanGame {
    pub id: u64,
    pub mode: GameMode,
    pub word: String,
    pub max_guesses: u16,
    pub creator: User,
    pub guesses: Vec<Guess>,
    pub players: Vec<User>,
}

/// The mathematical value of a game.
pub struct HangmanGameView {
    pub id: u64,
    pub mode: GameMode,
    pub word: Seq<char>,
    pub max_guesses: u16,
    pub creator: User,
    pub guesses: Seq<GuessView>,
    pub players: Seq<User>,
}

/// The values of a sequence of guesses.
pub open spec fn guess_views(s: Seq<Guess>) -> Seq<GuessView> {
    s.map_values(|g: Guess| g@)
}

impl View for HangmanGame {
    type V = HangmanGameView;

    open spec fn view(&self) -> HangmanGameView {
        HangmanGameView {
            id: self.id,
            mode: self.mode,
            word: self.word@,
            max_guesses: self.max_guesses,
            creator: self.creator,
            guesses: guess_views(self.guesses@),
            players: self.players@,
        }
    }
}

/// A copy of a sequence of guesses.
pub fn clone_guesses(v: &Vec<Guess>) -> (r: Vec<Guess>)
    ensures
        guess_views(r@) == guess_views(v@),
{
    let mut r: Vec<Guess> = Vec::new();
    let mut i: usize = 0;
    while i < v.len()
        invariant
            i <= v@.len(),
            guess_views(r@) == guess_views(v@.take(i as int)),
        decreases v.len() - i,
    {
        let ghost before = r@;
        r.push(v[i].clone());
        assert(guess_views(r@) =~= guess_views(before).push(v@[i as int]@));
        i = i + 1;
        assert(guess_views(v@.take(i as int)) =~= guess_views(v@.take(i - 1)).push(v@[i - 1]@));
    }
    assert(v@.take(i as int) =~= v@);
    r
}

/// A copy of a sequence of users.
pub fn clone_users(v: &Vec<User>) -> (r: Vec<User>)
    ensures
        r@ == v@,
{
    let mut r: Vec<User> = Vec::new();
    let mut i: usize = 0;
    while i < v.len()
        invariant
            i <= v@.len(),
            r@ == v@.take(i as int),
        decreases v.len() - i,
    {
        r.push(v[i]);
        i = i + 1;
        assert(r@ =~= v@.take(i as int));
    }
    assert(v@.take(i as int) =~= v@);
    r
}

impl Clone for HangmanGame {
    fn clone(&self) -> (r: Self)
        ensures
            r@ == self@,
    {
        HangmanGame {
            id: self.id,
            mode: self.mode,
            word: self.word.clone(),
            max_guesses: self.max_guesses,
            creator: self.creator,
            guesses: clone_guesses(&self.guesses),
            players: clone_users(&self.players),
        }
    }
}

impl HangmanGame {
    /// A new game (id 0, no guesses, no players) on `word` without its
    /// surrounding white space.
    pub fn from(word: String, max_guesses: u16, creator: User, mode: GameMode) -> (g: HangmanGame)
        ensures
            g@ == (HangmanGameView {
                id: 0,
                mode,
                word: trimmed(word@),
                max_guesses,
                creator,
                guesses: Seq::empty(),
                players: Seq::empty(),
            }),
    {
        let g = HangmanGame {
            word: trim(&word),
            guesses: Vec::new(),
            max_guesses,
            creator,
            mode,
            id: 0,
            players: Vec::new(),
        };
        assert(guess_views(g.guesses@) =~= Seq::<GuessView>::empty());
        g
    }
}

/// What a client sends to the server (and what the server relays to the
/// players of a game).
#[derive(Debug)]
pub enum HangmanEvent {
    GameCreate(HangmanGame),
    Login(String, String),
    Sync(u64, Guess),
    JoinGame(u64),
    Disconnect,
    GameWon(User),
    GameDraw,
}

/// The mathematical value of an event.
pub enum HangmanEventView {
    GameCreate(HangmanGameView),
    Login(Seq<char>, Seq<char>),
    Sync(u64, GuessView),
    JoinGame(u64),
    Disconnect,
    GameWon(User),
    GameDraw,
}

impl View for HangmanEvent {
    type V = HangmanEventView;

    open spec fn view(&self) -> HangmanEventView {
        match self {
            HangmanEvent::GameCreate(g) => HangmanEventView::GameCreate(g@),
            HangmanEvent::Login(u, p) => HangmanEventView::Login(u@, p@),
            HangmanEvent::Sync(id, g) => HangmanEventView::Sync(*id, g@),
            HangmanEvent::JoinGame(id) => HangmanEventView::JoinGame(*id),
            HangmanEvent::Disconnect => HangmanEventView::Disconnect,
            HangmanEvent::GameWon(u) => HangmanEventView::GameWon(*u),
            HangmanEvent::GameDraw => HangmanEventView::GameDraw,
        }
    }
}

impl Clone for HangmanEvent {
    fn clone(&self) -> (r: Self)
        ensures
            r@ == self@,
    {
        match self {
            HangmanEvent::GameCreate(g) => HangmanEvent::GameCreate(g.clone()),
            HangmanEvent::Login(u, p) => HangmanEvent::Login(u.clone(), p.clone()),
            HangmanEvent::Sync(id, g) => HangmanEvent::Sync(*id, g.clone()),
            HangmanEvent::JoinGame(id) => HangmanEvent::JoinGame(*id),
            HangmanEvent::Disconnect => HangmanEvent::Disconnect,
            HangmanEvent::GameWon(u) => HangmanEvent::GameWon(*u),
            HangmanEvent::GameDraw => HangmanEvent::GameDraw,
        }
    }
}

/// What the server answers to an event.
#[derive(Debug)]
pub enum HangmanEventResponse {
    GameCreated(u64),
    LoginSuccess(User),
    LoginFailure,
    GameJoined(HangmanGame),
    SyncRejected,
    BadGuess,
    Okay,
    Error,
}

/// The mathematical value of a response.
pub enum HangmanEventResponseView {
    GameCreated(u64),
    LoginSuccess(User),
    LoginFailure,
    GameJoined(HangmanGameView),
    SyncRejected,
    BadGuess,
    Okay,
    Error,
}

impl View for HangmanEventResponse {
    type V = HangmanEventResponseView;

    open spec fn view(&self) -> HangmanEventResponseView {
        match self {
            HangmanEventResponse::GameCreated(id) => HangmanEventResponseView::GameCreated(*id),
            HangmanEventResponse::LoginSuccess(u) => HangmanEventResponseView::LoginSuccess(*u),
            HangmanEventResponse::LoginFailure => HangmanEventResponseView::LoginFailure,
            HangmanEventResponse::GameJoined(g) => HangmanEventResponseView::GameJoined(g@),
            HangmanEventResponse::SyncRejected => HangmanEventResponseView::SyncRejected,
            HangmanEventResponse::BadGuess => HangmanEventResponseView::BadGuess,
            HangmanEventResponse::Okay => HangmanEventResponseView::Okay,
            HangmanEventResponse::Error => HangmanEventResponseView::Error,
        }
    }
}

/// A configuration that remembers the file it was read from.
pub trait Configurable {
    /// The name of the file the configuration belongs to.
    spec fn spec_file_name(&self) -> Seq<char>;

    fn set_file_name(&mut self, file_name: String)
        ensures
            final(self).spec_file_name() == file_name@,
    ;

    fn file_name(&self) -> (r: String)
        ensures
            r@ == self.spec_file_name(),
    ;
}

} // verus!
