//! The client's side of a game: its copy of the game it plays, the user it
//! is logged in as, the events other players' actions brought in, and what
//! it makes of the server's answers. Also the client's saved settings.

use std::collections::VecDeque;
use vstd::prelude::*;
use crate::server::{
    after_replies, already_guessed, is_drawn, is_won, law_new_guess_appended, sync_plan, sync_result,
    OutgoingView,
};
use crate::structs::{
    guess_views, Configurable, Guess, GuessView, HangmanEvent, HangmanEventResponse,
    HangmanEventResponseView, HangmanEventView, HangmanGame, HangmanGameView, User,
};

verus! {

/// The screens of the client.
#[derive(PartialEq, Eq, Hash, Clone, Copy, Debug, Structural)]
pub enum Scenes {
    JoinGameScene,
    OpeningScene,
    NewGameWizardScene,
    GameScene,
    NoScene,
}

/// A server the client connected to, and the user name used there.
#[derive(Debug, Default)]
pub struct IpUsernamePair {
    ip: String,
    username: String,
}

impl IpUsernamePair {
    pub closed spec fn spec_ip(&self) -> Seq<char> {
        self.ip@
    }

    pub closed spec fn spec_username(&self) -> Seq<char> {
        self.username@
    }

    pub fn new(ip: String, username: String) -> (p: IpUsernamePair)
        ensures
            p.spec_ip() == ip@,
            p.spec_username() == username@,
    {
        IpUsernamePair { ip, username }
    }

    pub fn ip(&self) -> (r: &String)
        ensures
            r@ == self.spec_ip(),
    {
        &self.ip
    }

    pub fn username(&self) -> (r: &String)
        ensures
            r@ == self.spec_username(),
    {
        &self.username
    }
}

/// The client's settings: the servers it connected to, most recent last.
#[derive(Debug, Default)]
pub struct Config {
    recent_ips: Vec<IpUsernamePair>,
    pub file_name: String,
}

/// The (server, user name) pairs of a sequence of entries.
pub open spec fn pair_views(s: Seq<IpUsernamePair>) -> Seq<(Seq<char>, Seq<char>)> {
    s.map_values(|p: IpUsernamePair| (p.spec_ip(), p.spec_username()))
}

impl Configurable for Config {
    closed spec fn spec_file_name(&self) -> Seq<char> {
        self.file_name@
    }

    fn set_file_name(&mut self, file_name: String)
        ensures
            final(self).entries() == old(self).entries(),
    {
        self.file_name = file_name;
    }

    fn file_name(&self) -> (r: String) {
        self.file_name.clone()
    }
}

impl Config {
    /// The remembered (server, user name) pairs.
    pub closed spec fn entries(&self) -> Seq<(Seq<char>, Seq<char>)> {
        pair_views(self.recent_ips@)
    }

    /// Settings holding `recent_ips`, belonging to the file `file_name`.
    pub fn with_entries(recent_ips: Vec<IpUsernamePair>, file_name: String) -> (c: Config)
        ensures
            c.entries() == pair_views(recent_ips@),
            c.spec_file_name() == file_name@,
    {
        Config { recent_ips, file_name }
    }

    /// The remembered entries, most recent last.
    pub fn recent_ips(&self) -> (r: &Vec<IpUsernamePair>)
        ensures
            pair_views(r@) == self.entries(),
    {
        &self.recent_ips
    }

    /// Remembers a connection to `ip` as `username`. (The password goes to
    /// the system keyring and the settings to their file, outside.)
    pub fn add_configset(&mut self, ip: &str, username: &str)
        ensures
            final(self).entries() == old(self).entries().push((ip@, username@)),
            final(self).spec_file_name() == old(self).spec_file_name(),
    {
        let ghost before = self.recent_ips@;
        self.recent_ips.push(IpUsernamePair { ip: ip.to_owned(), username: username.to_owned() });
        assert(pair_views(self.recent_ips@) =~= pair_views(before).push((ip@, username@)));
    }

    /// Forgets the `i`-th remembered connection.
    pub fn remove_ip(&mut self, i: usize)
        requires
            i < old(self).entries().len(),
        ensures
            final(self).entries() == old(self).entries().remove(i as int),
            final(self).spec_file_name() == old(self).spec_file_name(),
    {
        let ghost before = self.recent_ips@;
        self.recent_ips.remove(i);
        assert(pair_views(self.recent_ips@) =~= pair_views(before).remove(i as int));
    }
}

/// A failed attempt to join a game.
#[derive(Debug, Clone, Copy, PartialEq, Eq, Structural)]
pub enum JoinError {
    /// The server has no game with the requested id.
    NoSuchGame,
}

/// The values of a sequence of events.
pub open spec fn event_views(s: Seq<HangmanEvent>) -> Seq<HangmanEventView> {
    s.map_values(|e: HangmanEvent| e@)
}

/// The value of an optional game.
pub open spec fn opt_game_view(g: Option<HangmanGame>) -> Option<HangmanGameView> {
    match g {
        Some(g) => Some(g@),
        None => None,
    }
}

/// The local game after an event from the server: a relayed guess is
/// added to it; a finished game (won or drawn) is dropped.
pub open spec fn game_after_event(game: Option<HangmanGameView>, ev: HangmanEventView) -> Option<
    HangmanGameView,
> {
    match ev {
        HangmanEventView::Sync(_, guess) => Some(
            HangmanGameView { guesses: game->0.guesses.push(guess), ..game->0 },
        ),
        HangmanEventView::GameWon(_) => None,
        HangmanEventView::GameDraw => None,
        _ => game,
    }
}

/// The client's state.
pub struct HangmanClient {
    pub game: Option<HangmanGame>,
    pub user: Option<User>,
    pub event_queue: VecDeque<HangmanEvent>,
}

impl HangmanClient {
    pub open spec fn game_view(&self) -> Option<HangmanGameView> {
        opt_game_view(self.game)
    }

    pub open spec fn queue_view(&self) -> Seq<HangmanEventView> {
        event_views(self.event_queue@)
    }

    /// A client after the server answered its login: logged in as the
    /// user the server names on success, not logged in otherwise.
    pub fn new(login_response: HangmanEventResponse) -> (c: HangmanClient)
        ensures
            c.game is None,
            c.event_queue@.len() == 0,
            c.user == match login_response@ {
                HangmanEventResponseView::LoginSuccess(u) => Some(u),
                _ => None::<User>,
            },
    {
        let user = match login_response {
            HangmanEventResponse::LoginSuccess(u) => Some(u),
            _ => None,
        };
        HangmanClient { game: None, user, event_queue: VecDeque::new() }
    }

    /// The event that submits `guess_str` as the logged-in user's guess in
    /// the current game.
    pub fn sync_event(&self, guess_str: String) -> (ev: HangmanEvent)
        requires
            self.user is Some,
            self.game is Some,
        ensures
            ev@ == HangmanEventView::Sync(
                self.game->0.id,
                GuessView { id: None, user: self.user->0, guess: guess_str@ },
            ),
    {
        let user = match self.user {
            Some(u) => u,
            None => vstd::pervasive::unreached(),
        };
        let id = match &self.game {
            Some(g) => g.id,
            None => vstd::pervasive::unreached(),
        };
        HangmanEvent::Sync(id, Guess { id: None, user, guess: guess_str })
    }

    /// Takes the server's answer to the guess event `sync`: a guess the
    /// server took (right or wrong) is added to the local game. Returns the
    /// event and the answer.
    pub fn sync(&mut self, sync: HangmanEvent, response: HangmanEventResponse) -> (r: (
        HangmanEvent,
        HangmanEventResponse,
    ))
        requires
            old(self).game is Some,
            sync is Sync,
        ensures
            r.0@ == sync@,
            r.1@ == response@,
            final(self).user == old(self).user,
            final(self).queue_view() == old(self).queue_view(),
            (response is Okay || response is BadGuess) ==> final(self).game_view() == Some(
                HangmanGameView {
                    guesses: old(self).game_view()->0.guesses.push(sync->Sync_1@),
                    ..old(self).game_view()->0
                },
            ),
            !(response is Okay || response is BadGuess) ==> final(self).game_view() == old(self).game_view(),
    {
        let taken = match response {
            HangmanEventResponse::Okay | HangmanEventResponse::BadGuess => true,
            _ => false,
        };
        if taken {
            let guess = match &sync {
                HangmanEvent::Sync(_, g) => g.clone(),
                _ => vstd::pervasive::unreached(),
            };
            let mut game = self.game.take().unwrap();
            let ghost old_guesses = game.guesses@;
            game.guesses.push(guess);
            assert(guess_views(game.guesses@) =~= guess_views(old_guesses).push(sync->Sync_1@));
            self.game = Some(game);
        }
        (sync, response)
    }

    /// The id of the game the server created, from its answer: the id it
    /// names, none if it refused, and id 0 for any other answer.
    pub fn create_game(&self, response: HangmanEventResponse) -> (r: Option<u64>)
        ensures
            r == match response@ {
                HangmanEventResponseView::GameCreated(id) => Some(id),
                HangmanEventResponseView::Error => None::<u64>,
                _ => Some(0u64),
            },
    {
        match response {
            HangmanEventResponse::GameCreated(id) => Some(id),
            HangmanEventResponse::Error => None,
            _ => Some(0),
        }
    }

    /// Takes the server's answer to a join request: the game it sends
    /// becomes the local game; a refusal is an error; any other answer
    /// changes nothing.
    pub fn join_game(&mut self, response: HangmanEventResponse) -> (r: Result<(), JoinError>)
        ensures
            final(self).user == old(self).user,
            final(self).queue_view() == old(self).queue_view(),
            response is GameJoined ==> r is Ok && final(self).game_view() == Some(
                response->GameJoined_0@,
            ),
            response is Error ==> r == Err::<(), JoinError>(JoinError::NoSuchGame) && final(self).game_view() == old(self).game_view(),
            !(response is GameJoined || response is Error) ==> r is Ok && final(self).game_view() == old(self).game_view(),
    {
        match response {
            HangmanEventResponse::GameJoined(game) => {
                self.game = Some(game);
                Ok(())
            },
            HangmanEventResponse::Error => Err(JoinError::NoSuchGame),
            _ => Ok(()),
        }
    }

    /// Whether the server confirmed a disconnect.
    pub fn disconnect(&self, response: &HangmanEventResponse) -> (ok: bool)
        ensures
            ok == (response is Okay),
    {
        match response {
            HangmanEventResponse::Okay => true,
            _ => false,
        }
    }

    /// Applies an event relayed by the server to the local game (see
    /// `game_after_event`).
    pub fn handle_event(&mut self, event: HangmanEvent)
        requires
            event is Sync ==> old(self).game is Some,
        ensures
            final(self).game_view() == game_after_event(old(self).game_view(), event@),
            final(self).user == old(self).user,
            final(self).queue_view() == old(self).queue_view(),
    {
        match event {
            HangmanEvent::Sync(_, guess) => {
                let ghost gv = guess@;
                let mut game = self.game.take().unwrap();
                let ghost old_guesses = game.guesses@;
                game.guesses.push(guess);
                assert(guess_views(game.guesses@) =~= guess_views(old_guesses).push(gv));
                self.game = Some(game);
            },
            HangmanEvent::GameWon(_) | HangmanEvent::GameDraw => {
                self.game = None;
            },
            _ => {},
        }
    }

    /// Queues an event that arrived from the server (nothing when what
    /// arrived did not decode as an event).
    pub fn recv_event(&mut self, event: Option<HangmanEvent>)
        ensures
            final(self).game_view() == old(self).game_view(),
            final(self).user == old(self).user,
            final(self).queue_view() == match event {
                Some(e) => old(self).queue_view().push(e@),
                None => old(self).queue_view(),
            },
    {
        if let Some(e) = event {
            let ghost before = self.event_queue@;
            let ghost ev = e@;
            self.event_queue.push_back(e);
            assert(event_views(self.event_queue@) =~= event_views(before).push(ev));
        }
    }
}


/// When the client's copy of a game is the server's, a guess the server
/// records (new, and not ending the game) is answered with `Okay` or
/// `BadGuess`, the answers on which the client records the guess too: both
/// copies then hold the same guesses.
pub proof fn law_guess_keeps_copies_equal(
    games: Seq<HangmanGameView>,
    user: User,
    id: u64,
    guess: GuessView,
    local: HangmanGameView,
)
    requires
        id < games.len(),
        local == games[id as int],
        !already_guessed(local.guesses, guess.guess),
        !is_won(HangmanGameView { guesses: local.guesses.push(guess), ..local }),
        !is_drawn(HangmanGameView { guesses: local.guesses.push(guess), ..local }),
    ensures
        ({
            let r = sync_result(games, user, id, guess);
            &&& r.1.last() matches OutgoingView::Respond(ip, answer) && ip == user.ip && (
            answer is Okay || answer is BadGuess)
            &&& r.0[id as int] == HangmanGameView { guesses: local.guesses.push(guess), ..local }
        }),
{
}

/// A guess relayed by the server is added after the guesses the client
/// already had, which stay in order; nothing else of the game changes.
pub proof fn law_relayed_guess_appended(g: HangmanGameView, i: u64, x: GuessView)
    ensures
        ({
            let r = game_after_event(Some(g), HangmanEventView::Sync(i, x));
            &&& r is Some
            &&& r->0.guesses.len() == g.guesses.len() + 1
            &&& r->0.guesses.take(g.guesses.len() as int) == g.guesses
            &&& r->0.guesses.last() == x
            &&& r->0.id == g.id && r->0.mode == g.mode && r->0.word == g.word
            &&& r->0.max_guesses == g.max_guesses && r->0.creator == g.creator
            &&& r->0.players == g.players
        }),
{
    assert(g.guesses.push(x).take(g.guesses.len() as int) =~= g.guesses);
}

/// A player whose copy of a game is the server's, and who is relayed a new
/// guess the server takes, holds afterwards the game as the server recorded
/// it.
pub proof fn law_relayed_copies_agree(
    games: Seq<HangmanGameView>,
    user: User,
    id: u64,
    guess: GuessView,
)
    requires
        id < games.len(),
        forall|k: int|
            0 <= k < games[id as int].guesses.len() ==> #[trigger] games[id as int].guesses[k].guess
                != guess.guess,
    ensures
        game_after_event(Some(games[id as int]), HangmanEventView::Sync(id, guess)) == Some(
            after_replies(games, sync_plan(games, user, id, guess))[id as int],
        ),
{
    law_new_guess_appended(games, user, id, guess);
    law_relayed_guess_appended(games[id as int], id, guess);
    let a = game_after_event(Some(games[id as int]), HangmanEventView::Sync(id, guess))->0;
    let b = after_replies(games, sync_plan(games, user, id, guess))[id as int];
    assert(a.guesses =~= b.guesses) by {
        assert(a.guesses =~= a.guesses.take(games[id as int].guesses.len() as int).push(a.guesses.last()));
        assert(b.guesses =~= b.guesses.take(games[id as int].guesses.len() as int).push(b.guesses.last()));
    }
}

/// A won or drawn game is dropped from the client when it learns of it.
pub proof fn law_finished_game_dropped(game: Option<HangmanGameView>, winner: User)
    ensures
        game_after_event(game, HangmanEventView::GameWon(winner)) is None,
        game_after_event(game, HangmanEventView::GameDraw) is None,
{
}

} // verus!
