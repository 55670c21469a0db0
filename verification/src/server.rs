//! The server: the registry of running games and of logged-in users, and
//! how it answers each event a client sends. Every answer is a list of
//! messages, in the order the server sends them.

use vstd::prelude::*;
use crate::db::{DbUser, DbUserView};
use crate::structs::{
    clone_guesses, guess_views, Configurable, Guess, GuessView, HangmanEvent, HangmanEventResponse,
    HangmanEventResponseView, HangmanEventView, HangmanGame, HangmanGameView, SocketAddress, User,
};
use crate::text::{
    byte_len, byte_len_of, chars_of, contains, contains_sub, count_matches, count_of,
    lemma_no_matches_iff_absent,
};

verus! {

/// The server's settings.
#[derive(Debug, Default)]
pub struct ServerConfig {
    pub db_url: String,
    pub secret_key: String,
    pub file_name: String,
}

impl Configurable for ServerConfig {
    open spec fn spec_file_name(&self) -> Seq<char> {
        self.file_name@
    }

    fn set_file_name(&mut self, file_name: String)
        ensures
            final(self).db_url == old(self).db_url,
            final(self).secret_key == old(self).secret_key,
    {
        self.file_name = file_name;
    }

    fn file_name(&self) -> (r: String) {
        self.file_name.clone()
    }
}

/// A message the server sends: a response to the sender of an event, or an
/// event relayed to a player.
#[derive(Debug)]
pub enum Outgoing {
    Respond(SocketAddress, HangmanEventResponse),
    Send(SocketAddress, HangmanEvent),
}

/// The mathematical value of an outgoing message.
pub enum OutgoingView {
    Respond(SocketAddress, HangmanEventResponseView),
    Send(SocketAddress, HangmanEventView),
}

impl View for Outgoing {
    type V = OutgoingView;

    open spec fn view(&self) -> OutgoingView {
        match self {
            Outgoing::Respond(a, r) => OutgoingView::Respond(*a, r@),
            Outgoing::Send(a, e) => OutgoingView::Send(*a, e@),
        }
    }
}

/// The values of a sequence of messages.
pub open spec fn outgoing_views(s: Seq<Outgoing>) -> Seq<OutgoingView> {
    s.map_values(|o: Outgoing| o@)
}

/// What the server does next after an event: ask the account database
/// whether the credentials are good, send messages, or carry out the
/// staged plan of a guess.
#[derive(Debug)]
pub enum ServerAction {
    Authenticate(SocketAddress, String, String),
    Reply(Vec<Outgoing>),
    Staged(SyncPlan),
}

/// The values of a sequence of games.
pub open spec fn game_views(s: Seq<HangmanGame>) -> Seq<HangmanGameView> {
    s.map_values(|g: HangmanGame| g@)
}

// ---------------------------------------------------------------------------
// The rules, as functions of the games and the event.
// ---------------------------------------------------------------------------

/// Whether some guess in `guesses` already guesses the text `g`.
pub open spec fn already_guessed(guesses: Seq<GuessView>, g: Seq<char>) -> bool {
    exists|k: int| 0 <= k < guesses.len() && guesses[k].guess == g
}

/// The relay of a guess to the players of a game, skipping the player who
/// made the guess.
pub open spec fn sync_broadcast(players: Seq<User>, id: u64, guess: GuessView) -> Seq<
    OutgoingView,
>
    decreases players.len(),
{
    if players.len() == 0 {
        Seq::empty()
    } else {
        let rest = sync_broadcast(players.drop_last(), id, guess);
        if players.last().ip != guess.user.ip {
            rest.push(OutgoingView::Send(players.last().ip, HangmanEventView::Sync(id, guess)))
        } else {
            rest
        }
    }
}

/// The event `ev`, sent to every player.
pub open spec fn notify_all(players: Seq<User>, ev: HangmanEventView) -> Seq<OutgoingView> {
    players.map_values(|p: User| OutgoingView::Send(p.ip, ev))
}

/// The number of matches of all the guesses in the word, added up.
pub open spec fn total_matches(word: Seq<char>, guesses: Seq<GuessView>) -> nat
    decreases guesses.len(),
{
    if guesses.len() == 0 {
        0
    } else {
        total_matches(word, guesses.drop_last()) + count_matches(word, guesses.last().guess)
    }
}

/// The number of guesses that do not occur in the word.
pub open spec fn wrong_guesses(word: Seq<char>, guesses: Seq<GuessView>) -> nat
    decreases guesses.len(),
{
    if guesses.len() == 0 {
        0
    } else {
        wrong_guesses(word, guesses.drop_last()) + if count_matches(
            word,
            guesses.last().guess,
        ) == 0 {
            1nat
        } else {
            0nat
        }
    }
}

/// A game is won when its guesses match as many times as the word has bytes.
pub open spec fn is_won(g: HangmanGameView) -> bool {
    total_matches(g.word, g.guesses) == byte_len(g.word)
}

/// A game is drawn when its wrong guesses use up all its attempts.
pub open spec fn is_drawn(g: HangmanGameView) -> bool {
    wrong_guesses(g.word, g.guesses) == g.max_guesses
}

/// The games and the messages after `user` guesses `guess` in game `id`.
pub open spec fn sync_result(
    games: Seq<HangmanGameView>,
    user: User,
    id: u64,
    guess: GuessView,
) -> (Seq<HangmanGameView>, Seq<OutgoingView>) {
    if id >= games.len() {
        (games, seq![OutgoingView::Respond(user.ip, HangmanEventResponseView::Error)])
    } else {
        let g = games[id as int];
        if already_guessed(g.guesses, guess.guess) {
            (games, seq![OutgoingView::Respond(user.ip, HangmanEventResponseView::SyncRejected)])
        } else {
            let answer = if contains_sub(g.word, guess.guess) {
                HangmanEventResponseView::Okay
            } else {
                HangmanEventResponseView::BadGuess
            };
            let sent = sync_broadcast(g.players, id, guess).push(
                OutgoingView::Respond(user.ip, answer),
            );
            let next = HangmanGameView { guesses: g.guesses.push(guess), ..g };
            if is_won(next) {
                (
                    games.remove(id as int),
                    sent + notify_all(g.players, HangmanEventView::GameWon(user)),
                )
            } else if is_drawn(next) {
                (games.remove(id as int), sent + notify_all(g.players, HangmanEventView::GameDraw))
            } else {
                (games.update(id as int, next), sent)
            }
        }
    }
}

/// A game with one more guess.
pub open spec fn with_guess(g: HangmanGameView, guess: GuessView) -> HangmanGameView {
    HangmanGameView { guesses: g.guesses.push(guess), ..g }
}

/// The games with `guess` recorded in game `id`.
pub open spec fn record_in(games: Seq<HangmanGameView>, id: u64, guess: GuessView) -> Seq<
    HangmanGameView,
> {
    games.update(id as int, with_guess(games[id as int], guess))
}

/// The effect of a guess, staged around what it sends (see `sync_plan`).
#[derive(Debug)]
pub struct SyncPlan {
    /// The game guessed in.
    pub id: u64,
    /// Sent first: the relays of the guess and the answer to the guesser
    /// (or only the refusal).
    pub replies: Vec<Outgoing>,
    /// The guess to record once `replies` are out.
    pub record: Option<Guess>,
    /// Sent after the guess is recorded: who won, or that it is a draw.
    pub notices: Vec<Outgoing>,
    /// Whether the game is removed once `notices` are out.
    pub finish: bool,
}

/// The mathematical value of a plan.
pub struct SyncPlanView {
    pub id: u64,
    pub replies: Seq<OutgoingView>,
    pub record: Option<GuessView>,
    pub notices: Seq<OutgoingView>,
    pub finish: bool,
}

impl View for SyncPlan {
    type V = SyncPlanView;

    open spec fn view(&self) -> SyncPlanView {
        SyncPlanView {
            id: self.id,
            replies: outgoing_views(self.replies@),
            record: match self.record {
                Some(g) => Some(g@),
                None => None,
            },
            notices: outgoing_views(self.notices@),
            finish: self.finish,
        }
    }
}

/// The plan for `user`'s guess `guess` in game `id`: a guess for a missing
/// game is answered with an error, and a repeated one is rejected, with
/// nothing to record; otherwise the guess is relayed to the other players
/// and answered (`Okay` when it occurs in the word, `BadGuess` if not), then
/// recorded; when that wins or draws the game, every player is told and the
/// game is removed.
pub open spec fn sync_plan(games: Seq<HangmanGameView>, user: User, id: u64, guess: GuessView) -> SyncPlanView {
    let refuse = |r: HangmanEventResponseView|
        SyncPlanView {
            id,
            replies: seq![OutgoingView::Respond(user.ip, r)],
            record: None,
            notices: Seq::empty(),
            finish: false,
        };
    if id >= games.len() {
        refuse(HangmanEventResponseView::Error)
    } else {
        let g = games[id as int];
        if already_guessed(g.guesses, guess.guess) {
            refuse(HangmanEventResponseView::SyncRejected)
        } else {
            let answer = if contains_sub(g.word, guess.guess) {
                HangmanEventResponseView::Okay
            } else {
                HangmanEventResponseView::BadGuess
            };
            let replies = sync_broadcast(g.players, id, guess).push(
                OutgoingView::Respond(user.ip, answer),
            );
            let next = with_guess(g, guess);
            if is_won(next) {
                SyncPlanView {
                    id,
                    replies,
                    record: Some(guess),
                    notices: notify_all(g.players, HangmanEventView::GameWon(user)),
                    finish: true,
                }
            } else if is_drawn(next) {
                SyncPlanView {
                    id,
                    replies,
                    record: Some(guess),
                    notices: notify_all(g.players, HangmanEventView::GameDraw),
                    finish: true,
                }
            } else {
                SyncPlanView { id, replies, record: Some(guess), notices: Seq::empty(), finish: false }
            }
        }
    }
}

/// The games once `replies` of a plan are out (and its guess recorded).
pub open spec fn after_replies(games: Seq<HangmanGameView>, p: SyncPlanView) -> Seq<HangmanGameView> {
    match p.record {
        Some(g) => record_in(games, p.id, g),
        None => games,
    }
}

/// The games once a whole plan is carried out.
pub open spec fn after_plan(games: Seq<HangmanGameView>, p: SyncPlanView) -> Seq<HangmanGameView> {
    if p.finish {
        after_replies(games, p).remove(p.id as int)
    } else {
        after_replies(games, p)
    }
}

/// The games and the messages after `user` joins game `id`.
pub open spec fn join_result(games: Seq<HangmanGameView>, user: User, id: u64) -> (
    Seq<HangmanGameView>,
    Seq<OutgoingView>,
) {
    if id < games.len() {
        let joined = HangmanGameView { players: games[id as int].players.push(user), ..games[id as int] };
        (
            games.update(id as int, joined),
            seq![OutgoingView::Respond(user.ip, HangmanEventResponseView::GameJoined(joined))],
        )
    } else {
        (games, seq![OutgoingView::Respond(user.ip, HangmanEventResponseView::Error)])
    }
}

/// The games and the messages after `user` creates `game`: it is stored
/// with the next free id, which is the id the creator is told.
pub open spec fn create_result(games: Seq<HangmanGameView>, user: User, game: HangmanGameView) -> (
    Seq<HangmanGameView>,
    Seq<OutgoingView>,
) {
    (
        games.push(HangmanGameView { id: games.len() as u64, ..game }),
        seq![
            OutgoingView::Respond(
                user.ip,
                HangmanEventResponseView::GameCreated(games.len() as u64),
            ),
        ],
    )
}

/// `s` without the first occurrence of `u`.
pub open spec fn remove_first(s: Seq<User>, u: User) -> Seq<User>
    decreases s.len(),
{
    if s.len() == 0 {
        s
    } else if s[0] == u {
        s.drop_first()
    } else {
        seq![s[0]] + remove_first(s.drop_first(), u)
    }
}

/// The games after `user` disconnects: it leaves every game it played.
pub open spec fn disconnect_games(games: Seq<HangmanGameView>, user: User) -> Seq<HangmanGameView> {
    games.map_values(|g: HangmanGameView| HangmanGameView { players: remove_first(g.players, user), ..g })
}

// ---------------------------------------------------------------------------
// Logged-in users.
// ---------------------------------------------------------------------------

/// An account logged in from an endpoint.
#[derive(Debug)]
pub struct Session {
    pub ip: SocketAddress,
    pub account: DbUser,
}

/// The account logged in from `ip` (the latest session from it).
pub open spec fn lookup(s: Seq<Session>, ip: SocketAddress) -> Option<DbUserView>
    decreases s.len(),
{
    if s.len() == 0 {
        None
    } else if s.last().ip == ip {
        Some(s.last().account@)
    } else {
        lookup(s.drop_last(), ip)
    }
}

/// The sessions of `s` that are not from `ip`.
pub open spec fn drop_ip(s: Seq<Session>, ip: SocketAddress) -> Seq<Session>
    decreases s.len(),
{
    if s.len() == 0 {
        s
    } else if s.last().ip == ip {
        drop_ip(s.drop_last(), ip)
    } else {
        drop_ip(s.drop_last(), ip).push(s.last())
    }
}

proof fn lemma_lookup_drop_ip(s: Seq<Session>, ip: SocketAddress, other: SocketAddress)
    ensures
        lookup(drop_ip(s, ip), other) == if other == ip {
            None
        } else {
            lookup(s, other)
        },
    decreases s.len(),
{
    if s.len() > 0 {
        lemma_lookup_drop_ip(s.drop_last(), ip, other);
        if s.last().ip != ip {
            assert(drop_ip(s, ip).drop_last() =~= drop_ip(s.drop_last(), ip));
        }
    }
}

/// The sessions of `s` without those from `ip`.
fn without_ip(s: &Vec<Session>, ip: SocketAddress) -> (r: Vec<Session>)
    ensures
        forall|a: SocketAddress| #[trigger]
            lookup(r@, a) == if a == ip {
                None
            } else {
                lookup(s@, a)
            },
{
    let mut r: Vec<Session> = Vec::new();
    let mut i: usize = 0;
    while i < s.len()
        invariant
            i <= s@.len(),
            forall|a: SocketAddress| #[trigger]
                lookup(r@, a) == lookup(drop_ip(s@.take(i as int), ip), a),
        decreases s.len() - i,
    {
        let ghost before = r@;
        assert(s@.take(i + 1).drop_last() =~= s@.take(i as int));
        assert(s@.take(i + 1).last() == s@[i as int]);
        if s[i].ip != ip {
            r.push(Session { ip: s[i].ip, account: s[i].account.clone() });
            assert forall|a: SocketAddress| #[trigger]
                lookup(r@, a) == lookup(drop_ip(s@.take(i + 1), ip), a) by {
                assert(r@.drop_last() =~= before);
                assert(drop_ip(s@.take(i + 1), ip) == drop_ip(s@.take(i as int), ip).push(s@[i as int]));
                assert(drop_ip(s@.take(i + 1), ip).drop_last() =~= drop_ip(s@.take(i as int), ip));
                assert(lookup(before, a) == lookup(drop_ip(s@.take(i as int), ip), a));
            }
        } else {
            assert(drop_ip(s@.take(i + 1), ip) == drop_ip(s@.take(i as int), ip));
        }
        i = i + 1;
    }
    assert(s@.take(i as int) =~= s@);
    assert forall|a: SocketAddress| #[trigger]
        lookup(r@, a) == if a == ip {
            None
        } else {
            lookup(s@, a)
        } by {
        lemma_lookup_drop_ip(s@, ip, a);
    }
    r
}

// ---------------------------------------------------------------------------
// Helpers on players and guesses.
// ---------------------------------------------------------------------------

proof fn lemma_remove_first_at(s: Seq<User>, u: User, k: int)
    requires
        0 <= k <= s.len(),
        forall|j: int| 0 <= j < k ==> s[j] != u,
    ensures
        k < s.len() && s[k] == u ==> remove_first(s, u) == s.remove(k),
        k == s.len() ==> remove_first(s, u) == s,
    decreases k,
{
    if k > 0 {
        lemma_remove_first_at(s.drop_first(), u, k - 1);
        assert(s =~= seq![s[0]] + s.drop_first());
        if k < s.len() && s[k] == u {
            assert(seq![s[0]] + s.drop_first().remove(k - 1) =~= s.remove(k));
        }
    } else {
        if s.len() == 0 {
        }
    }
}

/// Removes the first occurrence of `u` from `players`, if any.
fn remove_player(players: &mut Vec<User>, u: User)
    ensures
        final(players)@ == remove_first(old(players)@, u),
{
    let mut k: usize = 0;
    while k < players.len()
        invariant
            k <= players@.len(),
            players@ == old(players)@,
            forall|j: int| 0 <= j < k ==> players@[j] != u,
        decreases players.len() - k,
    {
        if players[k] == u {
            proof {
                lemma_remove_first_at(players@, u, k as int);
            }
            players.remove(k);
            return;
        }
        k = k + 1;
    }
    proof {
        lemma_remove_first_at(players@, u, k as int);
    }
}

/// Whether a guess with the text of `g` is among `guesses`.
fn guessed_before(guesses: &Vec<Guess>, g: &Guess) -> (r: bool)
    ensures
        r == already_guessed(guess_views(guesses@), g.guess@),
{
    let mut k: usize = 0;
    while k < guesses.len()
        invariant
            k <= guesses@.len(),
            forall|j: int| 0 <= j < k ==> guesses@[j].guess@ != g.guess@,
        decreases guesses.len() - k,
    {
        if guesses[k].guess == g.guess {
            assert(guess_views(guesses@)[k as int].guess == g.guess@);
            return true;
        }
        k = k + 1;
    }
    false
}

/// The number of matches of all the guesses in `word` (exact up to `cap`,
/// and above `cap` whenever the exact number is), and the number of guesses
/// that do not occur in `word`.
fn tally(word: &Vec<char>, guesses: &Vec<Guess>, cap: usize) -> (r: (u128, usize))
    ensures
        total_matches(word@, guess_views(guesses@)) <= cap ==> r.0 == total_matches(
            word@,
            guess_views(guesses@),
        ),
        total_matches(word@, guess_views(guesses@)) > cap ==> r.0 > cap,
        r.1 == wrong_guesses(word@, guess_views(guesses@)),
{
    let word_len = word.len();
    let mut total: u128 = 0;
    let mut wrong: usize = 0;
    let mut i: usize = 0;
    while i < guesses.len()
        invariant
            i <= guesses@.len(),
            wrong <= i,
            word@.len() == word_len,
            total <= cap as u128 + usize::MAX as u128 + 1,
            total_matches(word@, guess_views(guesses@.take(i as int))) <= cap ==> total
                == total_matches(word@, guess_views(guesses@.take(i as int))),
            total_matches(word@, guess_views(guesses@.take(i as int))) > cap ==> total > cap,
            wrong == wrong_guesses(word@, guess_views(guesses@.take(i as int))),
        decreases guesses.len() - i,
    {
        let pat = chars_of(guesses[i].guess.as_str());
        let c = count_of(word, &pat);
        assert(c <= word@.len() + 1);
        assert(guess_views(guesses@.take(i + 1)).drop_last() =~= guess_views(guesses@.take(i as int)));
        assert(guess_views(guesses@.take(i + 1)).last() == guesses@[i as int]@);
        if total <= cap as u128 {
            total = total + c;
        }
        if c == 0 {
            wrong = wrong + 1;
        }
        i = i + 1;
    }
    assert(guesses@.take(i as int) =~= guesses@);
    (total, wrong)
}

/// The end-of-game notice to every player: who won, or that it is a draw.
fn notices_for(players: &Vec<User>, winner: Option<User>) -> (out: Vec<Outgoing>)
    ensures
        outgoing_views(out@) == notify_all(
            players@,
            match winner {
                Some(u) => HangmanEventView::GameWon(u),
                None => HangmanEventView::GameDraw,
            },
        ),
{
    let ghost ev = match winner {
        Some(u) => HangmanEventView::GameWon(u),
        None => HangmanEventView::GameDraw,
    };
    let mut out: Vec<Outgoing> = Vec::new();
    let mut p: usize = 0;
    while p < players.len()
        invariant
            p <= players@.len(),
            ev == match winner {
                Some(u) => HangmanEventView::GameWon(u),
                None => HangmanEventView::GameDraw,
            },
            outgoing_views(out@) == notify_all(players@.take(p as int), ev),
        decreases players.len() - p,
    {
        let ghost before = out@;
        let event = match winner {
            Some(u) => HangmanEvent::GameWon(u),
            None => HangmanEvent::GameDraw,
        };
        out.push(Outgoing::Send(players[p].ip, event));
        assert(outgoing_views(out@) =~= outgoing_views(before).push(out@.last()@));
        assert(notify_all(players@.take(p + 1), ev) =~= notify_all(players@.take(p as int), ev).push(
            OutgoingView::Send(players@[p as int].ip, ev),
        ));
        p = p + 1;
    }
    assert(players@.take(p as int) =~= players@);
    out
}

impl HangmanServer {
    /// The games, as values.
    pub open spec fn games_view(&self) -> Seq<HangmanGameView> {
        game_views(self.games@)
    }

    /// The account logged in from `ip`, if any.
    pub open spec fn account_of(&self, ip: SocketAddress) -> Option<DbUserView> {
        lookup(self.sessions@, ip)
    }

    /// A server with no games and nobody logged in.
    pub fn new() -> (s: HangmanServer)
        ensures
            s.games_view() == Seq::<HangmanGameView>::empty(),
            forall|ip: SocketAddress| s.account_of(ip) is None,
    {
        let s = HangmanServer { games: Vec::new(), sessions: Vec::new() };
        assert(s.games_view() =~= Seq::<HangmanGameView>::empty());
        s
    }

    /// The answer to a login from `ip`, given what the account database
    /// found for its credentials: on success the account is logged in from
    /// `ip` (replacing any earlier login from there).
    pub fn respond_to_login_event(&mut self, ip: SocketAddress, found: Option<DbUser>) -> (out: Vec<
        Outgoing,
    >)
        ensures
            final(self).games_view() == old(self).games_view(),
            found is None ==> outgoing_views(out@) == seq![
                OutgoingView::Respond(ip, HangmanEventResponseView::LoginFailure),
            ],
            found is None ==> forall|a: SocketAddress| #[trigger]
                final(self).account_of(a) == old(self).account_of(a),
            found is Some ==> outgoing_views(out@) == seq![
                OutgoingView::Respond(ip, HangmanEventResponseView::LoginSuccess(User { ip })),
            ],
            found is Some ==> final(self).account_of(ip) == Some(found->0@),
            found is Some ==> forall|a: SocketAddress|
                a != ip ==> #[trigger] final(self).account_of(a) == old(self).account_of(a),
    {
        let mut out: Vec<Outgoing> = Vec::new();
        match found {
            None => {
                out.push(Outgoing::Respond(ip, HangmanEventResponse::LoginFailure));
            },
            Some(account) => {
                let ghost found_view = account@;
                let mut sessions = without_ip(&self.sessions, ip);
                let ghost kept = sessions@;
                sessions.push(Session { ip, account });
                assert(sessions@.drop_last() =~= kept);
                assert forall|a: SocketAddress| a != ip implies #[trigger] lookup(sessions@, a)
                    == lookup(old(self).sessions@, a) by {
                    assert(lookup(kept, a) == lookup(old(self).sessions@, a));
                }
                self.sessions = sessions;
                out.push(Outgoing::Respond(ip, HangmanEventResponse::LoginSuccess(User { ip })));
            },
        }
        assert(outgoing_views(out@) =~= seq![out@[0]@]);
        out
    }

    /// The answer to a disconnect from `user`: it leaves every game it
    /// plays and is logged out.
    pub fn respond_to_disconnect_event(&mut self, user: &User) -> (out: Vec<Outgoing>)
        ensures
            final(self).games_view() == disconnect_games(old(self).games_view(), *user),
            final(self).account_of(user.ip) is None,
            forall|a: SocketAddress|
                a != user.ip ==> #[trigger] final(self).account_of(a) == old(self).account_of(a),
            outgoing_views(out@) == seq![
                OutgoingView::Respond(user.ip, HangmanEventResponseView::Okay),
            ],
    {
        let ghost old_games = self.games_view();
        let mut i: usize = 0;
        while i < self.games.len()
            invariant
                i <= self.games@.len(),
                self.games@.len() == old_games.len(),
                self.sessions@ == old(self).sessions@,
                forall|j: int|
                    0 <= j < i ==> #[trigger] game_views(self.games@)[j] == disconnect_games(
                        old_games,
                        *user,
                    )[j],
                forall|j: int|
                    i <= j < self.games@.len() ==> #[trigger] game_views(self.games@)[j]
                        == old_games[j],
            decreases self.games.len() - i,
        {
            let ghost before = game_views(self.games@);
            assert(before[i as int] == old_games[i as int]);
            let mut game = self.games.remove(i);
            assert(game@ == old_games[i as int]);
            remove_player(&mut game.players, *user);
            let ghost changed = game@;
            self.games.insert(i, game);
            assert(game_views(self.games@)[i as int] == changed);
            assert(disconnect_games(old_games, *user)[i as int] == HangmanGameView {
                players: remove_first(old_games[i as int].players, *user),
                ..old_games[i as int]
            });
            assert forall|j: int|
                0 <= j < self.games@.len() && j != i implies #[trigger] game_views(
                self.games@,
            )[j] == before[j] by {}
            i = i + 1;
        }
        assert(self.games_view() =~= disconnect_games(old_games, *user));
        let ghost old_sessions = self.sessions@;
        self.sessions = without_ip(&self.sessions, user.ip);
        assert forall|a: SocketAddress| a != user.ip implies #[trigger] lookup(self.sessions@, a)
            == lookup(old_sessions, a) by {}
        let mut out: Vec<Outgoing> = Vec::new();
        out.push(Outgoing::Respond(user.ip, HangmanEventResponse::Okay));
        assert(outgoing_views(out@) =~= seq![out@[0]@]);
        out
    }

    /// The plan for `user`'s guess `guess` in game `id` (see `sync_plan`):
    /// the messages to send first, the guess to record once they are out,
    /// the end-of-game notices to send next and whether the game is removed
    /// once those are out. Nothing changes until the plan is carried out
    /// with `record_guess` and `finish_game`.
    pub fn respond_to_sync_event(&self, user: &User, id: u64, guess: Guess) -> (plan: SyncPlan)
        ensures
            plan@ == sync_plan(self.games_view(), *user, id, guess@),
    {
        let ghost games0 = self.games_view();
        let ghost gv = guess@;
        let mut replies: Vec<Outgoing> = Vec::new();
        if id >= self.games.len() as u64 {
            replies.push(Outgoing::Respond(user.ip, HangmanEventResponse::Error));
            let plan = SyncPlan { id, replies, record: None, notices: Vec::new(), finish: false };
            assert(outgoing_views(plan.replies@) =~= seq![plan.replies@[0]@]);
            assert(outgoing_views(plan.notices@) =~= Seq::<OutgoingView>::empty());
            return plan;
        }
        let idx = id as usize;
        let game = &self.games[idx];
        let ghost g = game@;
        assert(g == games0[idx as int]);
        if guessed_before(&game.guesses, &guess) {
            replies.push(Outgoing::Respond(user.ip, HangmanEventResponse::SyncRejected));
            let plan = SyncPlan { id, replies, record: None, notices: Vec::new(), finish: false };
            assert(outgoing_views(plan.replies@) =~= seq![plan.replies@[0]@]);
            assert(outgoing_views(plan.notices@) =~= Seq::<OutgoingView>::empty());
            return plan;
        }
        let mut k: usize = 0;
        while k < game.players.len()
            invariant
                k <= game.players@.len(),
                game@ == g,
                guess@ == gv,
                outgoing_views(replies@) == sync_broadcast(game.players@.take(k as int), id, gv),
            decreases game.players.len() - k,
        {
            let ghost before = replies@;
            assert(game.players@.take(k + 1).drop_last() =~= game.players@.take(k as int));
            if game.players[k].ip != guess.user.ip {
                replies.push(Outgoing::Send(game.players[k].ip, HangmanEvent::Sync(id, guess.clone())));
                assert(outgoing_views(replies@) =~= outgoing_views(before).push(replies@.last()@));
            }
            k = k + 1;
        }
        assert(game.players@.take(k as int) =~= game.players@);
        let word = chars_of(game.word.as_str());
        let pat = chars_of(guess.guess.as_str());
        let ghost before_answer = replies@;
        if contains(&word, &pat) {
            replies.push(Outgoing::Respond(user.ip, HangmanEventResponse::Okay));
        } else {
            replies.push(Outgoing::Respond(user.ip, HangmanEventResponse::BadGuess));
        }
        assert(outgoing_views(replies@) =~= outgoing_views(before_answer).push(replies@.last()@));
        let mut guesses = clone_guesses(&game.guesses);
        let ghost old_guesses = guesses@;
        guesses.push(guess.clone());
        assert(guess_views(guesses@) =~= guess_views(old_guesses).push(gv));
        let bytes = byte_len_of(&game.word);
        let (total, wrong) = tally(&word, &guesses, bytes);
        let won = total == bytes as u128;
        let drawn = !won && wrong == game.max_guesses as usize;
        let notices = if won {
            notices_for(&game.players, Some(*user))
        } else if drawn {
            notices_for(&game.players, None)
        } else {
            Vec::new()
        };
        let plan = SyncPlan { id, replies, record: Some(guess), notices, finish: won || drawn };
        assert(outgoing_views(plan.notices@) =~= sync_plan(games0, *user, id, gv).notices);
        plan
    }

    /// Records `guess` in game `id`: the step after the relays and the
    /// answer of a guess went out.
    pub fn record_guess(&mut self, id: u64, guess: Guess)
        requires
            id < old(self).games@.len(),
        ensures
            final(self).games_view() == record_in(old(self).games_view(), id, guess@),
            forall|a: SocketAddress| #[trigger]
                final(self).account_of(a) == old(self).account_of(a),
    {
        let ghost games0 = self.games_view();
        let ghost gv = guess@;
        let n = self.games.len();
        assert(id < n);
        let idx = id as usize;
        let mut game = self.games.remove(idx);
        let ghost old_guesses = game.guesses@;
        game.guesses.push(guess);
        assert(guess_views(game.guesses@) =~= guess_views(old_guesses).push(gv));
        self.games.insert(idx, game);
        assert(self.games_view() =~= record_in(games0, id, gv));
    }

    /// Removes the finished game `id`: the step after its end was
    /// announced. Later games move up one place.
    pub fn finish_game(&mut self, id: u64)
        requires
            id < old(self).games@.len(),
        ensures
            final(self).games_view() == old(self).games_view().remove(id as int),
            forall|a: SocketAddress| #[trigger]
                final(self).account_of(a) == old(self).account_of(a),
    {
        let ghost games0 = self.games_view();
        let n = self.games.len();
        assert(id < n);
        let _ = self.games.remove(id as usize);
        assert(self.games_view() =~= games0.remove(id as int));
    }

    /// The answer to `user` joining game `id` (see `join_result`).
    pub fn respond_to_joingame_event(&mut self, user: &User, id: u64) -> (out: Vec<Outgoing>)
        ensures
            (final(self).games_view(), outgoing_views(out@)) == join_result(
                old(self).games_view(),
                *user,
                id,
            ),
            forall|a: SocketAddress| #[trigger]
                final(self).account_of(a) == old(self).account_of(a),
    {
        let ghost games0 = self.games_view();
        let mut out: Vec<Outgoing> = Vec::new();
        if id < self.games.len() as u64 {
            let idx = id as usize;
            let mut game = self.games.remove(idx);
            game.players.push(*user);
            let copy = game.clone();
            self.games.insert(idx, game);
            assert(self.games_view() =~= join_result(games0, *user, id).0);
            out.push(Outgoing::Respond(user.ip, HangmanEventResponse::GameJoined(copy)));
        } else {
            out.push(Outgoing::Respond(user.ip, HangmanEventResponse::Error));
        }
        assert(outgoing_views(out@) =~= seq![out@[0]@]);
        out
    }

    /// The answer to `user` creating `game` (see `create_result`).
    pub fn respond_to_gamecreate_event(&mut self, user: &User, game: HangmanGame) -> (out: Vec<
        Outgoing,
    >)
        ensures
            (final(self).games_view(), outgoing_views(out@)) == create_result(
                old(self).games_view(),
                *user,
                game@,
            ),
            forall|a: SocketAddress| #[trigger]
                final(self).account_of(a) == old(self).account_of(a),
    {
        let ghost games0 = self.games_view();
        let ghost g0 = game@;
        let mut game = game;
        let n = self.games.len() as u64;
        game.id = n;
        self.games.push(game);
        assert(self.games_view() =~= create_result(games0, *user, g0).0);
        let mut out: Vec<Outgoing> = Vec::new();
        out.push(Outgoing::Respond(user.ip, HangmanEventResponse::GameCreated(n)));
        assert(outgoing_views(out@) =~= seq![out@[0]@]);
        out
    }

    /// What the server does with `event` from `src`: a login is passed on
    /// to the account database; a guess is planned (see `sync_plan`), to be
    /// carried out as its messages go out; the other events are answered at
    /// once; events only the server sends are ignored.
    pub fn handle_event(&mut self, event: HangmanEvent, src: SocketAddress) -> (a: ServerAction)
        ensures
            event is Login ==> (a matches ServerAction::Authenticate(ip, u, p) && ip == src
                && event@ == HangmanEventView::Login(u@, p@)),
            event is Login ==> final(self).games_view() == old(self).games_view(),
            event is GameCreate ==> (a matches ServerAction::Reply(out) && (
            final(self).games_view(),
            outgoing_views(out@),
            ) == create_result(old(self).games_view(), User { ip: src }, event->GameCreate_0@)),
            event is JoinGame ==> (a matches ServerAction::Reply(out) && (
            final(self).games_view(),
            outgoing_views(out@),
            ) == join_result(old(self).games_view(), User { ip: src }, event->JoinGame_0)),
            event is Sync ==> (a matches ServerAction::Staged(plan) && plan@ == sync_plan(
                old(self).games_view(),
                User { ip: src },
                event->Sync_0,
                event->Sync_1@,
            )),
            event is Sync ==> final(self).games_view() == old(self).games_view(),
            event is Disconnect ==> (a matches ServerAction::Reply(out)
                && final(self).games_view() == disconnect_games(old(self).games_view(), User { ip: src })
                && outgoing_views(out@) == seq![
                OutgoingView::Respond(src, HangmanEventResponseView::Okay),
            ]),
            event is Disconnect ==> final(self).account_of(src) is None,
            event is Disconnect ==> forall|ip: SocketAddress|
                ip != src ==> #[trigger] final(self).account_of(ip) == old(self).account_of(ip),
            !(event is Disconnect) ==> forall|ip: SocketAddress| #[trigger]
                final(self).account_of(ip) == old(self).account_of(ip),
            (event is GameWon || event is GameDraw) ==> (a matches ServerAction::Reply(out)
                && out@.len() == 0 && final(self).games_view() == old(self).games_view()),
    {
        let user = User { ip: src };
        match event {
            HangmanEvent::Login(username, password) => ServerAction::Authenticate(
                src,
                username,
                password,
            ),
            HangmanEvent::GameCreate(game) => ServerAction::Reply(
                self.respond_to_gamecreate_event(&user, game),
            ),
            HangmanEvent::JoinGame(id) => ServerAction::Reply(
                self.respond_to_joingame_event(&user, id),
            ),
            HangmanEvent::Sync(id, guess) => ServerAction::Staged(
                self.respond_to_sync_event(&user, id, guess),
            ),
            HangmanEvent::Disconnect => ServerAction::Reply(
                self.respond_to_disconnect_event(&user),
            ),
            _ => ServerAction::Reply(Vec::new()),
        }
    }
}

/// The server's state: the running games (a game's id is where it was
/// stored when created) and the logged-in accounts by endpoint.
pub struct HangmanServer {
    pub games: Vec<HangmanGame>,
    pub sessions: Vec<Session>,
}


// ---------------------------------------------------------------------------
// Laws of the server.
// ---------------------------------------------------------------------------

/// Every game's id is its position in the list of games.
pub open spec fn ids_are_positions(games: Seq<HangmanGameView>) -> bool {
    forall|i: int| 0 <= i < games.len() ==> #[trigger] games[i].id == i
}

/// A created game is stored last with its position as its id, and that id
/// is what the creator is told; so ids stay equal to positions.
pub proof fn law_create_id_is_position(
    games: Seq<HangmanGameView>,
    user: User,
    game: HangmanGameView,
)
    requires
        ids_are_positions(games),
        games.len() < u64::MAX,
    ensures
        ids_are_positions(create_result(games, user, game).0),
        create_result(games, user, game).0.len() == games.len() + 1,
        create_result(games, user, game).0.take(games.len() as int) == games,
        create_result(games, user, game).0[games.len() as int].id == games.len(),
        create_result(games, user, game).1 == seq![
            OutgoingView::Respond(user.ip, HangmanEventResponseView::GameCreated(games.len() as u64)),
        ],
{
    let r = create_result(games, user, game).0;
    assert(r.take(games.len() as int) =~= games);
    assert forall|i: int| 0 <= i < r.len() implies #[trigger] r[i].id == i by {
        if i < games.len() {
            assert(r[i] == games[i]);
        }
    }
}

/// Joining a game keeps ids equal to positions and only adds the joining
/// user to that game's players, who is told the updated game.
pub proof fn law_join_adds_player(games: Seq<HangmanGameView>, user: User, id: u64)
    requires
        ids_are_positions(games),
        id < games.len(),
    ensures
        ids_are_positions(join_result(games, user, id).0),
        join_result(games, user, id).0[id as int].players == games[id as int].players.push(user),
        join_result(games, user, id).1 == seq![
            OutgoingView::Respond(
                user.ip,
                HangmanEventResponseView::GameJoined(join_result(games, user, id).0[id as int]),
            ),
        ],
{
    let r = join_result(games, user, id).0;
    assert forall|i: int| 0 <= i < r.len() implies #[trigger] r[i].id == i by {
        if i != id {
            assert(r[i] == games[i]);
        }
    }
}

/// Carrying out the plan of a guess in full has the effect of the guess
/// (`sync_result`): the same games, and the same messages, the replies
/// first. Until the replies are out nothing has changed; once they are, the
/// guess is recorded and the game stays in place, also while the notices of
/// its end go out; only a game the guess ends is then removed.
pub proof fn law_plan_carries_out_guess(games: Seq<HangmanGameView>, user: User, id: u64, guess: GuessView)
    ensures
        ({
            let p = sync_plan(games, user, id, guess);
            &&& sync_result(games, user, id, guess) == (after_plan(games, p), p.replies + p.notices)
            &&& p.id == id
            &&& p.record is None ==> p.notices.len() == 0 && !p.finish && after_plan(games, p)
                == games
            &&& p.record is Some ==> {
                &&& id < games.len()
                &&& p.record == Some(guess)
                &&& after_replies(games, p).len() == games.len()
                &&& after_replies(games, p)[id as int] == with_guess(games[id as int], guess)
                &&& forall|i: int|
                    0 <= i < games.len() && i != id ==> #[trigger] after_replies(games, p)[i]
                        == games[i]
            }
            &&& p.finish ==> p.record is Some
        }),
{
    let p = sync_plan(games, user, id, guess);
    if id < games.len() && !already_guessed(games[id as int].guesses, guess.guess) {
        let r = record_in(games, id, guess);
        assert(r.remove(id as int) =~= games.remove(id as int));
        assert(p.replies + Seq::<OutgoingView>::empty() =~= p.replies);
    } else {
        assert(p.replies + Seq::<OutgoingView>::empty() =~= p.replies);
    }
}

/// A guess is answered `BadGuess` exactly when it counts as one more wrong
/// guess against the game's attempts, and `Okay` exactly when it does not.
pub proof fn law_bad_guess_counts_as_wrong(g: HangmanGameView, guess: GuessView)
    ensures
        !contains_sub(g.word, guess.guess) <==> wrong_guesses(g.word, g.guesses.push(guess))
            == wrong_guesses(g.word, g.guesses) + 1,
        contains_sub(g.word, guess.guess) <==> wrong_guesses(g.word, g.guesses.push(guess))
            == wrong_guesses(g.word, g.guesses),
{
    lemma_no_matches_iff_absent(g.word, guess.guess);
    assert(g.guesses.push(guess).drop_last() =~= g.guesses);
}

/// A guess whose text any earlier guess of the game already has (the
/// first, the latest or any between, by whoever made it) is refused: only
/// its guesser is told, with `SyncRejected`; nothing is recorded, nothing
/// ends and the games stay as they are.
pub proof fn law_earlier_guess_rejected(
    games: Seq<HangmanGameView>,
    user: User,
    id: u64,
    guess: GuessView,
    k: int,
)
    requires
        id < games.len(),
        0 <= k < games[id as int].guesses.len(),
        games[id as int].guesses[k].guess == guess.guess,
    ensures
        sync_plan(games, user, id, guess).replies == seq![
            OutgoingView::Respond(user.ip, HangmanEventResponseView::SyncRejected),
        ],
        sync_plan(games, user, id, guess).record is None,
        sync_plan(games, user, id, guess).notices.len() == 0,
        !sync_plan(games, user, id, guess).finish,
        sync_result(games, user, id, guess) == (
            games,
            seq![OutgoingView::Respond(user.ip, HangmanEventResponseView::SyncRejected)],
        ),
{
    assert(already_guessed(games[id as int].guesses, guess.guess));
}

/// A guess whose text no earlier guess of the game has is taken: once its
/// relays and its answer are out, the game holds its old guesses followed by
/// this one, and nothing else of any game has changed.
pub proof fn law_new_guess_appended(games: Seq<HangmanGameView>, user: User, id: u64, guess: GuessView)
    requires
        id < games.len(),
        forall|k: int|
            0 <= k < games[id as int].guesses.len() ==> #[trigger] games[id as int].guesses[k].guess
                != guess.guess,
    ensures
        ({
            let p = sync_plan(games, user, id, guess);
            let r = after_replies(games, p);
            let g = games[id as int];
            &&& p.record == Some(guess)
            &&& r.len() == games.len()
            &&& forall|i: int| 0 <= i < games.len() && i != id ==> #[trigger] r[i] == games[i]
            &&& r[id as int].guesses.len() == g.guesses.len() + 1
            &&& r[id as int].guesses.take(g.guesses.len() as int) == g.guesses
            &&& r[id as int].guesses.last() == guess
            &&& r[id as int].id == g.id && r[id as int].mode == g.mode && r[id as int].word == g.word
            &&& r[id as int].max_guesses == g.max_guesses && r[id as int].creator == g.creator
            &&& r[id as int].players == g.players
        }),
{
    let g = games[id as int];
    assert(!already_guessed(g.guesses, guess.guess));
    assert(g.guesses.push(guess).take(g.guesses.len() as int) =~= g.guesses);
}

/// Joining a game changes only that game's players, which gain the joining
/// user at the end: its guesses, word and every other field stay, other
/// games stay, and the joining user is sent the game so joined.
pub proof fn law_join_changes_only_players(games: Seq<HangmanGameView>, user: User, id: u64)
    requires
        id < games.len(),
    ensures
        ({
            let r = join_result(games, user, id);
            let g = games[id as int];
            &&& r.0.len() == games.len()
            &&& forall|i: int| 0 <= i < games.len() && i != id ==> #[trigger] r.0[i] == games[i]
            &&& r.0[id as int].players == g.players.push(user)
            &&& r.0[id as int].guesses == g.guesses
            &&& r.0[id as int].id == g.id && r.0[id as int].mode == g.mode && r.0[id as int].word
                == g.word
            &&& r.0[id as int].max_guesses == g.max_guesses && r.0[id as int].creator == g.creator
            &&& r.1 == seq![
                OutgoingView::Respond(user.ip, HangmanEventResponseView::GameJoined(r.0[id as int])),
            ]
        }),
{
}

/// A created game is stored as it was sent, only with its id set to its
/// position: same word, attempts, mode, creator, guesses and players.
pub proof fn law_create_keeps_game(games: Seq<HangmanGameView>, user: User, game: HangmanGameView)
    requires
        games.len() < u64::MAX,
    ensures
        ({
            let r = create_result(games, user, game).0;
            let s = r[games.len() as int];
            &&& r.len() == games.len() + 1
            &&& s.id == games.len()
            &&& s.word == game.word && s.max_guesses == game.max_guesses && s.mode == game.mode
            &&& s.creator == game.creator && s.guesses == game.guesses && s.players == game.players
        }),
{
}

/// Disconnecting changes only the players of each game: every game keeps
/// its id, word, attempts, mode, creator and guesses. From the players the
/// first occurrence of the user is taken out (later players move up one
/// place); a game it does not play keeps its players.
pub proof fn law_disconnect_changes_only_players(games: Seq<HangmanGameView>, user: User)
    ensures
        disconnect_games(games, user).len() == games.len(),
        forall|k: int|
            0 <= k < games.len() ==> {
                let r = #[trigger] disconnect_games(games, user)[k];
                &&& r.guesses == games[k].guesses
                &&& r.id == games[k].id && r.word == games[k].word && r.mode == games[k].mode
                &&& r.max_guesses == games[k].max_guesses && r.creator == games[k].creator
            },
        forall|k: int|
            0 <= k < games.len() && !games[k].players.contains(user) ==> (#[trigger] disconnect_games(
                games,
                user,
            )[k]).players == games[k].players,
        forall|k: int, p: int|
            0 <= k < games.len() && 0 <= p < games[k].players.len() && games[k].players[p] == user
                && (forall|j: int| 0 <= j < p ==> games[k].players[j] != user) ==> (
            #[trigger] disconnect_games(games, user)[k]).players == #[trigger] games[k].players.remove(
                p,
            ),
{
    assert forall|k: int|
        0 <= k < games.len() && !games[k].players.contains(user) implies (#[trigger] disconnect_games(
        games,
        user,
    )[k]).players == games[k].players by {
        let s = games[k].players;
        assert forall|j: int| 0 <= j < s.len() implies s[j] != user by {
            if s[j] == user {
                assert(s.contains(user));
            }
        }
        lemma_remove_first_at(s, user, s.len() as int);
    }
    assert forall|k: int, p: int|
        0 <= k < games.len() && 0 <= p < games[k].players.len() && games[k].players[p] == user
            && (forall|j: int| 0 <= j < p ==> games[k].players[j] != user) implies (
        #[trigger] disconnect_games(games, user)[k]).players == #[trigger] games[k].players.remove(
        p,
    ) by {
        lemma_remove_first_at(games[k].players, user, p);
    }
}

/// Each guess adds its number of matches in the word to the game's total,
/// starting from none.
pub proof fn law_matches_add_up(word: Seq<char>, guesses: Seq<GuessView>, guess: GuessView)
    ensures
        total_matches(word, Seq::<GuessView>::empty()) == 0,
        total_matches(word, guesses.push(guess)) == total_matches(word, guesses) + count_matches(
            word,
            guess.guess,
        ),
{
    assert(guesses.push(guess).drop_last() =~= guesses);
}

/// A guess or a join for a game that does not exist is answered with an
/// error and changes nothing.
pub proof fn law_unknown_game_refused(
    games: Seq<HangmanGameView>,
    user: User,
    id: u64,
    guess: GuessView,
)
    requires
        id >= games.len(),
    ensures
        sync_result(games, user, id, guess) == (
            games,
            seq![OutgoingView::Respond(user.ip, HangmanEventResponseView::Error)],
        ),
        join_result(games, user, id) == (
            games,
            seq![OutgoingView::Respond(user.ip, HangmanEventResponseView::Error)],
        ),
{
}

/// A guess whose text was already guessed in the game is rejected and
/// changes nothing.
pub proof fn law_repeated_guess_rejected(
    games: Seq<HangmanGameView>,
    user: User,
    id: u64,
    guess: GuessView,
)
    requires
        id < games.len(),
        already_guessed(games[id as int].guesses, guess.guess),
    ensures
        sync_result(games, user, id, guess) == (
            games,
            seq![OutgoingView::Respond(user.ip, HangmanEventResponseView::SyncRejected)],
        ),
{
}

/// A new guess that does not end the game is recorded in it (and nothing
/// else changes); the guesser is told whether it occurs in the word, after
/// the other players were sent the guess.
pub proof fn law_guess_recorded(games: Seq<HangmanGameView>, user: User, id: u64, guess: GuessView)
    requires
        id < games.len(),
        !already_guessed(games[id as int].guesses, guess.guess),
        !is_won(HangmanGameView { guesses: games[id as int].guesses.push(guess), ..games[id as int] }),
        !is_drawn(
            HangmanGameView { guesses: games[id as int].guesses.push(guess), ..games[id as int] },
        ),
    ensures
        sync_result(games, user, id, guess).0 == games.update(
            id as int,
            HangmanGameView { guesses: games[id as int].guesses.push(guess), ..games[id as int] },
        ),
        sync_result(games, user, id, guess).1 == sync_broadcast(
            games[id as int].players,
            id,
            guess,
        ).push(
            OutgoingView::Respond(
                user.ip,
                if contains_sub(games[id as int].word, guess.guess) {
                    HangmanEventResponseView::Okay
                } else {
                    HangmanEventResponseView::BadGuess
                },
            ),
        ),
        ids_are_positions(games) ==> ids_are_positions(sync_result(games, user, id, guess).0),
{
    let r = sync_result(games, user, id, guess).0;
    if ids_are_positions(games) {
        assert forall|i: int| 0 <= i < r.len() implies #[trigger] r[i].id == i by {
            if i != id {
                assert(r[i] == games[i]);
            }
        }
    }
}

/// A guess that ends the game (won, or all attempts used) removes the game
/// and tells every player, the guesser included, who won or that it is a
/// draw, after the guess itself was relayed and answered.
pub proof fn law_game_end_announced(
    games: Seq<HangmanGameView>,
    user: User,
    id: u64,
    guess: GuessView,
)
    requires
        id < games.len(),
        !already_guessed(games[id as int].guesses, guess.guess),
        ({
            let next = HangmanGameView {
                guesses: games[id as int].guesses.push(guess),
                ..games[id as int]
            };
            is_won(next) || is_drawn(next)
        }),
    ensures
        sync_result(games, user, id, guess).0 == games.remove(id as int),
        ({
            let g = games[id as int];
            let next = HangmanGameView { guesses: g.guesses.push(guess), ..g };
            let out = sync_result(games, user, id, guess).1;
            let head = sync_broadcast(g.players, id, guess).len() + 1;
            &&& out.len() == head + g.players.len()
            &&& forall|k: int|
                0 <= k < g.players.len() ==> #[trigger] out[head + k] == OutgoingView::Send(
                    g.players[k].ip,
                    if is_won(next) {
                        HangmanEventView::GameWon(user)
                    } else {
                        HangmanEventView::GameDraw
                    },
                )
        }),
{
}

/// The relay of a guess goes, in order, to exactly the players of the game
/// other than the one who made the guess, each receiving the guess.
pub proof fn law_relay_skips_guesser(players: Seq<User>, id: u64, guess: GuessView)
    ensures
        sync_broadcast(players, id, guess) == players.filter(|p: User| p.ip != guess.user.ip).map_values(
            |p: User| OutgoingView::Send(p.ip, HangmanEventView::Sync(id, guess)),
        ),
    decreases players.len(),
{
    let pred = |p: User| p.ip != guess.user.ip;
    let f = |p: User| OutgoingView::Send(p.ip, HangmanEventView::Sync(id, guess));
    reveal_with_fuel(Seq::<_>::filter, 1);
    if players.len() > 0 {
        law_relay_skips_guesser(players.drop_last(), id, guess);
        let sub = players.drop_last().filter(pred);
        if pred(players.last()) {
            assert(players.filter(pred) == sub.push(players.last()));
            assert(sub.push(players.last()).map_values(f) =~= sub.map_values(f).push(
                f(players.last()),
            ));
        } else {
            assert(players.filter(pred) == sub);
        }
    } else {
        assert(players.filter(pred) =~= Seq::<User>::empty());
        assert(players.filter(pred).map_values(f) =~= Seq::<OutgoingView>::empty());
    }
}

/// No user occurs twice.
pub open spec fn no_repeats(s: Seq<User>) -> bool {
    forall|i: int, j: int| 0 <= i < j < s.len() ==> s[i] != s[j]
}

proof fn lemma_remove_first_no_dup(s: Seq<User>, u: User)
    requires
        no_repeats(s),
    ensures
        !remove_first(s, u).contains(u),
        forall|x: User| x != u ==> (remove_first(s, u).contains(x) <==> s.contains(x)),
    decreases s.len(),
{
    if s.len() > 0 {
        lemma_remove_first_no_dup(s.drop_first(), u);
        let r = remove_first(s, u);
        if s[0] == u {
            assert forall|k: int| 0 <= k < r.len() implies r[k] != u by {
                assert(r[k] == s[k + 1]);
            }
            assert forall|x: User| x != u implies (r.contains(x) <==> s.contains(x)) by {
                if s.contains(x) {
                    let k = choose|k: int| 0 <= k < s.len() && s[k] == x;
                    assert(r[k - 1] == x);
                }
                if r.contains(x) {
                    let k = choose|k: int| 0 <= k < r.len() && r[k] == x;
                    assert(s[k + 1] == x);
                }
            }
        } else {
            let rest = remove_first(s.drop_first(), u);
            assert(r == seq![s[0]] + rest);
            assert forall|k: int| 0 <= k < r.len() implies r[k] != u by {
                if k > 0 {
                    assert(r[k] == rest[k - 1]);
                }
            }
            assert forall|x: User| x != u implies (r.contains(x) <==> s.contains(x)) by {
                if s.contains(x) {
                    let k = choose|k: int| 0 <= k < s.len() && s[k] == x;
                    if k == 0 {
                        assert(r[0] == x);
                    } else {
                        assert(s.drop_first()[k - 1] == x);
                        assert(s.drop_first().contains(x));
                        assert(rest.contains(x));
                        let m = choose|m: int| 0 <= m < rest.len() && rest[m] == x;
                        assert(r[m + 1] == x);
                    }
                }
                if r.contains(x) {
                    let k = choose|k: int| 0 <= k < r.len() && r[k] == x;
                    if k == 0 {
                        assert(s[0] == x);
                    } else {
                        assert(rest[k - 1] == x);
                        assert(s.drop_first().contains(x));
                        let m = choose|m: int| 0 <= m < s.drop_first().len() && s.drop_first()[m] == x;
                        assert(s[m + 1] == x);
                    }
                }
            }
        }
    }
}

/// After a user disconnects it no longer plays any game in which it played
/// once, and every other player stays where it was.
pub proof fn law_disconnect_leaves_games(games: Seq<HangmanGameView>, user: User)
    requires
        forall|g: int| 0 <= g < games.len() ==> no_repeats(#[trigger] games[g].players),
    ensures
        disconnect_games(games, user).len() == games.len(),
        forall|g: int|
            0 <= g < games.len() ==> !(#[trigger] disconnect_games(games, user)[g]).players.contains(
                user,
            ),
        forall|g: int, x: User|
            0 <= g < games.len() && x != user ==> (disconnect_games(games, user)[g].players.contains(
                x,
            ) <==> #[trigger] games[g].players.contains(x)),
{
    assert forall|g: int| 0 <= g < games.len() implies !(#[trigger] disconnect_games(
        games,
        user,
    )[g]).players.contains(user) && forall|x: User|
        x != user ==> (disconnect_games(games, user)[g].players.contains(x)
            <==> games[g].players.contains(x)) by {
        lemma_remove_first_no_dup(games[g].players, user);
    }
}

} // verus!
