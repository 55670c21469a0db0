//! The game screen: what it shows of the word, the attempts left and the
//! wrong guesses, and how it reacts to guesses and to the end of a game.

use vstd::prelude::*;
use vstd::pervasive::VecAdditionalExecFns;
use vstd::string::StringExecFns;
use crate::categories::{is_letter_lowercase, is_letter_uppercase, letter_lowercase, letter_uppercase};
use crate::client::{game_after_event, HangmanClient, Scenes};
use crate::server::{already_guessed, is_drawn, sync_plan, wrong_guesses, OutgoingView};
use crate::structs::{
    GuessView, HangmanEvent, HangmanEventResponseView, HangmanEventView, HangmanGame, HangmanGameView,
    User,
};
use crate::text::{
    byte_len, byte_len_of, chars_of, char_width, digit_char, contains, contains_sub, count_matches, decimal,
    lemma_byte_len_take, lemma_match_starts_occur, match_starts, match_starts_from, push_char,
    to_decimal, width_of,
};

verus! {

/// The character a key code stands for (its low byte).
pub open spec fn key_char(key: u32) -> char {
    ((key % 256) as u8) as char
}

/// The character a key code stands for (its low byte).
pub fn char_of_key(key: u32) -> (c: char)
    ensures
        c == key_char(key),
{
    let b: u8 = (key % 256) as u8;
    b as char
}

/// `n` blank cells.
pub open spec fn blank_cells(n: nat) -> Seq<Seq<char>> {
    Seq::new(n, |i: int| seq![' '])
}

/// `cells` with the guess `g` written at the byte position of each of the
/// character positions `starts` of the word `w`.
pub open spec fn paint_starts(cells: Seq<Seq<char>>, w: Seq<char>, g: Seq<char>, starts: Seq<int>) -> Seq<
    Seq<char>,
>
    decreases starts.len(),
{
    if starts.len() == 0 {
        cells
    } else {
        paint_starts(cells, w, g, starts.drop_last()).update(byte_len(w.take(starts.last())) as int, g)
    }
}

/// `cells` with every guess, in order, written where it matches the word.
pub open spec fn paint(cells: Seq<Seq<char>>, w: Seq<char>, gs: Seq<GuessView>) -> Seq<Seq<char>>
    decreases gs.len(),
{
    if gs.len() == 0 {
        cells
    } else {
        paint_starts(
            paint(cells, w, gs.drop_last()),
            w,
            gs.last().guess,
            match_starts_from(w, gs.last().guess, 0),
        )
    }
}

/// The guesses that do not occur in the word, in order.
pub open spec fn wrong_list(w: Seq<char>, gs: Seq<GuessView>) -> Seq<Seq<char>>
    decreases gs.len(),
{
    if gs.len() == 0 {
        Seq::empty()
    } else if count_matches(w, gs.last().guess) == 0 {
        wrong_list(w, gs.drop_last()).push(gs.last().guess)
    } else {
        wrong_list(w, gs.drop_last())
    }
}

/// The wrong-guesses list starts a new line after its 8th entry and after
/// every 7 more.
pub open spec fn line_break_after(k: nat) -> bool {
    k > 1 && k % 7 == 1
}

/// The wrong guesses, each followed by a space, broken into lines.
pub open spec fn wrong_text(items: Seq<Seq<char>>) -> Seq<char>
    decreases items.len(),
{
    if items.len() == 0 {
        Seq::empty()
    } else {
        wrong_text(items.drop_last()) + items.last() + seq![' '] + if line_break_after(items.len()) {
            seq!['\n']
        } else {
            Seq::<char>::empty()
        }
    }
}

/// The screen's reaction to an event in a game on `word`: a guess that is
/// not in the word flashes the screen (long for one's own guess, short for
/// another player's); the end of the game leads back to the opening screen.
pub open spec fn scene_after_event(
    next: Scenes,
    timeout: Option<u64>,
    word: Seq<char>,
    ev: HangmanEventView,
    from_self: bool,
) -> (Scenes, Option<u64>) {
    match ev {
        HangmanEventView::Sync(_, g) => if !contains_sub(word, g.guess) {
            (
                next,
                Some(
                    if from_self {
                        1000u64
                    } else {
                        100u64
                    },
                ),
            )
        } else {
            (next, timeout)
        },
        HangmanEventView::GameWon(_) => (Scenes::OpeningScene, timeout),
        HangmanEventView::GameDraw => (Scenes::OpeningScene, timeout),
        _ => (next, timeout),
    }
}

/// Whether the queued events `q` (handled from the back) each find a game
/// to apply to: nothing may follow the end of the game.
pub open spec fn drain_ok(game: Option<HangmanGameView>, q: Seq<HangmanEventView>) -> bool
    decreases q.len(),
{
    q.len() == 0 || (game is Some && drain_ok(game_after_event(game, q.last()), q.drop_last()))
}

/// The local game after the queued events `q` (handled from the back).
pub open spec fn drain_game(game: Option<HangmanGameView>, q: Seq<HangmanEventView>) -> Option<
    HangmanGameView,
>
    decreases q.len(),
{
    if q.len() == 0 {
        game
    } else {
        drain_game(game_after_event(game, q.last()), q.drop_last())
    }
}

/// The screen's next scene and flash after the queued events `q`.
pub open spec fn drain_scene(
    next: Scenes,
    timeout: Option<u64>,
    game: Option<HangmanGameView>,
    q: Seq<HangmanEventView>,
) -> (Scenes, Option<u64>)
    decreases q.len(),
{
    if q.len() == 0 {
        (next, timeout)
    } else {
        let r = scene_after_event(next, timeout, game->0.word, q.last(), false);
        drain_scene(r.0, r.1, game_after_event(game, q.last()), q.drop_last())
    }
}

/// The values of a sequence of strings.
pub open spec fn string_views(s: Seq<String>) -> Seq<Seq<char>> {
    s.map_values(|x: String| x@)
}

/// The game screen.
pub struct GameScene {
    guess_chars: Vec<String>,
    next_scene: Scenes,
    attempts: String,
    wrong_guesses: String,
    wrong_guess_timeout: Option<u64>,
}

impl GameScene {
    /// The cells showing the word, one per byte of it.
    pub closed spec fn cells(&self) -> Seq<Seq<char>> {
        string_views(self.guess_chars@)
    }

    pub closed spec fn next(&self) -> Scenes {
        self.next_scene
    }

    pub closed spec fn attempts_text(&self) -> Seq<char> {
        self.attempts@
    }

    pub closed spec fn wrong_guesses_text(&self) -> Seq<char> {
        self.wrong_guesses@
    }

    pub closed spec fn timeout(&self) -> Option<u64> {
        self.wrong_guess_timeout
    }

    /// A game screen before it has seen the game.
    pub fn new() -> (s: GameScene)
        ensures
            s.cells().len() == 0,
            s.next() == Scenes::NoScene,
            s.attempts_text() == "Attempts: "@,
            s.wrong_guesses_text() == "Wrong Guesses: "@,
            s.timeout() is None,
    {
        GameScene {
            guess_chars: Vec::new(),
            next_scene: Scenes::NoScene,
            attempts: String::from_str("Attempts: "),
            wrong_guesses: String::from_str("Wrong Guesses: "),
            wrong_guess_timeout: None,
        }
    }

    /// Reacts to `event` in the game `game` (see `scene_after_event`).
    pub fn handle_hangman_event(&mut self, game: &HangmanGame, event: &HangmanEvent, from_self: bool)
        ensures
            (final(self).next(), final(self).timeout()) == scene_after_event(
                old(self).next(),
                old(self).timeout(),
                game@.word,
                event@,
                from_self,
            ),
            final(self).cells() == old(self).cells(),
            final(self).attempts_text() == old(self).attempts_text(),
            final(self).wrong_guesses_text() == old(self).wrong_guesses_text(),
    {
        match event {
            HangmanEvent::Sync(_, guess) => {
                let word = chars_of(game.word.as_str());
                let pat = chars_of(guess.guess.as_str());
                if !contains(&word, &pat) {
                    if from_self {
                        self.wrong_guess_timeout = Some(1000);
                    } else {
                        self.wrong_guess_timeout = Some(100);
                    }
                }
            },
            HangmanEvent::GameWon(_) => {
                self.next_scene = Scenes::OpeningScene;
            },
            HangmanEvent::GameDraw => {
                self.next_scene = Scenes::OpeningScene;
            },
            _ => {},
        }
    }

    /// The guess a key press makes: the key's character, when it is a
    /// letter.
    pub fn guess_of_key(key: u32) -> (g: Option<String>)
        ensures
            g is Some <==> (letter_lowercase(key_char(key)) || letter_uppercase(key_char(key))),
            g is Some ==> g->0@ == seq![key_char(key)],
            (key_char(key) as u32) < 128 ==> (g is Some <==> ('a' <= key_char(key) && key_char(key)
                <= 'z' || 'A' <= key_char(key) && key_char(key) <= 'Z')),
    {
        let c = char_of_key(key);
        if is_letter_lowercase(c) || is_letter_uppercase(c) {
            let mut s = String::new();
            push_char(&mut s, c);
            Some(s)
        } else {
            None
        }
    }

    /// Whether the screen is done and another should follow.
    pub fn has_next_scene(&self) -> (r: bool)
        ensures
            r == (self.next() != Scenes::NoScene),
    {
        self.next_scene != Scenes::NoScene
    }

    /// Takes the pending flash duration (in milliseconds), clearing it.
    pub fn take_timeout(&mut self) -> (t: Option<u64>)
        ensures
            t == old(self).timeout(),
            final(self).timeout() is None,
            final(self).next() == old(self).next(),
            final(self).cells() == old(self).cells(),
            final(self).attempts_text() == old(self).attempts_text(),
            final(self).wrong_guesses_text() == old(self).wrong_guesses_text(),
    {
        let t = self.wrong_guess_timeout;
        self.wrong_guess_timeout = None;
        t
    }

    /// The pending flash duration (in milliseconds), if any.
    pub fn wrong_guess_timeout(&self) -> (r: Option<u64>)
        ensures
            r == self.timeout(),
    {
        self.wrong_guess_timeout
    }

    /// The cells showing the word.
    pub fn guess_chars(&self) -> (r: &Vec<String>)
        ensures
            string_views(r@) == self.cells(),
    {
        &self.guess_chars
    }

    /// The attempts-left line.
    pub fn attempts(&self) -> (r: &String)
        ensures
            r@ == self.attempts_text(),
    {
        &self.attempts
    }

    /// The wrong-guesses text.
    pub fn wrong_guesses(&self) -> (r: &String)
        ensures
            r@ == self.wrong_guesses_text(),
    {
        &self.wrong_guesses
    }
}

/// The byte offset of every character position of `w` (and of its end).
fn byte_offsets(w: &Vec<char>, total: usize) -> (r: Vec<usize>)
    requires
        total == byte_len(w@),
    ensures
        r@.len() == w@.len() + 1,
        forall|k: int| 0 <= k <= w@.len() ==> #[trigger] r@[k] == byte_len(w@.take(k)),
{
    let mut r: Vec<usize> = Vec::new();
    r.push(0);
    assert(w@.take(0) =~= Seq::<char>::empty());
    let mut acc: usize = 0;
    let mut k: usize = 0;
    while k < w.len()
        invariant
            k <= w@.len(),
            total == byte_len(w@),
            r@.len() == k + 1,
            acc == byte_len(w@.take(k as int)),
            acc <= total,
            forall|j: int| 0 <= j <= k ==> #[trigger] r@[j] == byte_len(w@.take(j)),
        decreases w.len() - k,
    {
        proof {
            lemma_byte_len_take(w@, k as int);
            if k + 1 == w@.len() {
                assert(w@.take(k + 1) =~= w@);
            }
        }
        assert(byte_len(w@.take(k + 1)) <= byte_len(w@)) by {
            lemma_byte_len_take(w@, k as int);
        }
        acc = acc + width_of(w[k]);
        r.push(acc);
        k = k + 1;
    }
    r
}

impl GameScene {
    /// Brings the screen up to date with the client's game, then handles
    /// the events queued since (from the most recent back), applying each
    /// to the screen and then to the client.
    ///
    /// The cells (one per byte of the word, rebuilt blank when their number
    /// does not fit the word) show each guess where it matches the word; the
    /// attempts line gives the attempts left; the wrong guesses are listed.
    pub fn update_values(&mut self, client: &mut HangmanClient)
        requires
            old(client).game is Some,
            forall|k: int|
                0 <= k < old(client).game->0.guesses@.len() ==> (#[trigger] old(
                    client,
                ).game->0.guesses@[k]).guess@.len() > 0,
            wrong_guesses(old(client).game_view()->0.word, old(client).game_view()->0.guesses)
                <= old(client).game_view()->0.max_guesses,
            drain_ok(old(client).game_view(), old(client).queue_view()),
        ensures
            ({
                let g = old(client).game_view()->0;
                &&& final(self).cells() == paint(
                    if old(self).cells().len() == byte_len(g.word) {
                        old(self).cells()
                    } else {
                        blank_cells(byte_len(g.word))
                    },
                    g.word,
                    g.guesses,
                )
                &&& final(self).attempts_text() == "Attempts: "@ + decimal(
                    (g.max_guesses - wrong_guesses(g.word, g.guesses)) as nat,
                )
                &&& final(self).wrong_guesses_text() == "Wrong Guesses:\n"@ + wrong_text(
                    wrong_list(g.word, g.guesses),
                )
            }),
            (final(self).next(), final(self).timeout()) == drain_scene(
                old(self).next(),
                old(self).timeout(),
                old(client).game_view(),
                old(client).queue_view(),
            ),
            final(client).game_view() == drain_game(old(client).game_view(), old(client).queue_view()),
            final(client).queue_view().len() == 0,
            final(client).user == old(client).user,
    {
        self.render(client);
        self.drain_events(client);
    }

    fn render(&mut self, client: &HangmanClient)
        requires
            client.game is Some,
            forall|k: int|
                0 <= k < client.game->0.guesses@.len() ==> (#[trigger] client.game->0.guesses@[
                    k]).guess@.len() > 0,
            wrong_guesses(client.game_view()->0.word, client.game_view()->0.guesses)
                <= client.game_view()->0.max_guesses,
        ensures
            ({
                let g = client.game_view()->0;
                &&& final(self).cells() == paint(
                    if old(self).cells().len() == byte_len(g.word) {
                        old(self).cells()
                    } else {
                        blank_cells(byte_len(g.word))
                    },
                    g.word,
                    g.guesses,
                )
                &&& final(self).attempts_text() == "Attempts: "@ + decimal(
                    (g.max_guesses - wrong_guesses(g.word, g.guesses)) as nat,
                )
                &&& final(self).wrong_guesses_text() == "Wrong Guesses:\n"@ + wrong_text(
                    wrong_list(g.word, g.guesses),
                )
            }),
            final(self).next() == old(self).next(),
            final(self).timeout() == old(self).timeout(),
    {
        let game = match &client.game {
            Some(g) => g,
            None => vstd::pervasive::unreached(),
        };
        let ghost g = game@;
        let word = chars_of(game.word.as_str());
        let n_bytes = byte_len_of(&game.word);
        let offsets = byte_offsets(&word, n_bytes);
        if self.guess_chars.len() != n_bytes {
            let mut cells: Vec<String> = Vec::new();
            let mut i: usize = 0;
            while i < n_bytes
                invariant
                    i <= n_bytes,
                    string_views(cells@) == blank_cells(i as nat),
                decreases n_bytes - i,
            {
                let ghost before = cells@;
                let blank = String::from_str(" ");
                proof {
                    reveal_strlit(" ");
                    assert(blank@ =~= seq![' ']);
                }
                cells.push(blank);
                assert(string_views(cells@) =~= string_views(before).push(seq![' ']));
                i = i + 1;
                assert(string_views(cells@) =~= blank_cells(i as nat));
            }
            self.guess_chars = cells;
        }
        let ghost cells0 = self.cells();
        assert(cells0.len() == n_bytes);
        let mut remaining: u16 = game.max_guesses;
        let mut wrong_string = String::from_str("Wrong Guesses:\n");
        let mut rows_left: u32 = 7;
        let mut wrong_count: usize = 0;
        let mut i: usize = 0;
        while i < game.guesses.len()
            invariant
                game@ == g,
                word@ == g.word,
                n_bytes == byte_len(g.word),
                offsets@.len() == word@.len() + 1,
                forall|k: int| 0 <= k <= word@.len() ==> #[trigger] offsets@[k] == byte_len(word@.take(k)),
                forall|k: int|
                    0 <= k < game.guesses@.len() ==> (#[trigger] game.guesses@[k]).guess@.len() > 0,
                wrong_guesses(g.word, g.guesses) <= g.max_guesses,
                i <= game.guesses@.len(),
                self.cells() == paint(cells0, g.word, g.guesses.take(i as int)),
                self.cells().len() == n_bytes,
                wrong_count == wrong_list(g.word, g.guesses.take(i as int)).len(),
                wrong_count == wrong_guesses(g.word, g.guesses.take(i as int)),
                remaining == g.max_guesses - wrong_count,
                rows_left == if wrong_count == 0 {
                    7
                } else {
                    6 - ((wrong_count - 1) % 7)
                },
                wrong_string@ == "Wrong Guesses:\n"@ + wrong_text(
                    wrong_list(g.word, g.guesses.take(i as int)),
                ),
                self.next() == old(self).next(),
                self.timeout() == old(self).timeout(),
            decreases game.guesses.len() - i,
        {
            let guess = &game.guesses[i];
            let ghost gv = guess@;
            assert(g.guesses[i as int] == gv);
            assert(g.guesses.take(i + 1).drop_last() =~= g.guesses.take(i as int));
            assert(g.guesses.take(i + 1).last() == gv);
            proof {
                lemma_wrong_guesses_le(g.word, g.guesses, i + 1);
            }
            let pat = chars_of(guess.guess.as_str());
            let starts = match_starts(&word, &pat);
            proof {
                lemma_match_starts_occur(word@, pat@, 0);
            }
            let ghost base = self.cells();
            let mut j: usize = 0;
            while j < starts.len()
                invariant
                    word@ == g.word,
                    pat@ == gv.guess,
                    pat@.len() > 0,
                    guess@ == gv,
                    starts@.map_values(|x: usize| x as int) == match_starts_from(word@, pat@, 0),
                    forall|k: int|
                        0 <= k < match_starts_from(word@, pat@, 0).len() ==> occurs_at_ok(
                            word@,
                            pat@,
                            #[trigger] match_starts_from(word@, pat@, 0)[k],
                        ),
                    offsets@.len() == word@.len() + 1,
                    forall|k: int|
                        0 <= k <= word@.len() ==> #[trigger] offsets@[k] == byte_len(word@.take(k)),
                    n_bytes == byte_len(g.word),
                    j <= starts@.len(),
                    self.cells().len() == n_bytes,
                    self.cells() == paint_starts(
                        base,
                        g.word,
                        gv.guess,
                        starts@.map_values(|x: usize| x as int).take(j as int),
                    ),
                    self.next() == old(self).next(),
                    self.timeout() == old(self).timeout(),
                decreases starts.len() - j,
            {
                let p = starts[j];
                let ghost mp = starts@.map_values(|x: usize| x as int);
                assert(mp[j as int] == p as int);
                assert(occurs_at_ok(word@, pat@, mp[j as int]));
                proof {
                    lemma_byte_len_take(word@, p as int);
                }
                let at = offsets[p];
                assert(at < n_bytes);
                let ghost before = self.guess_chars@;
                self.guess_chars.set(at, guess.guess.clone());
                assert(string_views(self.guess_chars@) =~= string_views(before).update(
                    at as int,
                    gv.guess,
                ));
                j = j + 1;
                assert(mp.take(j as int).drop_last() =~= mp.take(j - 1));
                assert(mp.take(j as int).last() == p as int);
            }
            assert(starts@.map_values(|x: usize| x as int).take(j as int) =~= match_starts_from(
                word@,
                pat@,
                0,
            ));
            if starts.len() == 0 {
                assert(count_matches(g.word, gv.guess) == 0);
                remaining = remaining - 1;
                wrong_string.append(guess.guess.as_str());
                wrong_string.append(" ");
                let ghost k = wrong_count + 1;
                if rows_left == 0 {
                    wrong_string.append("\n");
                    rows_left = 7;
                }
                rows_left = rows_left - 1;
                wrong_count = wrong_count + 1;
                proof {
                    reveal_strlit(" ");
                    reveal_strlit("\n");
                    let items = wrong_list(g.word, g.guesses.take(i + 1));
                    assert(items == wrong_list(g.word, g.guesses.take(i as int)).push(gv.guess));
                    assert(items.drop_last() =~= wrong_list(g.word, g.guesses.take(i as int)));
                    assert(line_break_after(k as nat) == (k > 1 && (k - 1) % 7 == 0));
                }
                assert(wrong_string@ =~= "Wrong Guesses:\n"@ + wrong_text(
                    wrong_list(g.word, g.guesses.take(i + 1)),
                ));
            } else {
                assert(count_matches(g.word, gv.guess) != 0);
            }
            i = i + 1;
        }
        assert(g.guesses.take(i as int) =~= g.guesses);
        let mut attempts = String::from_str("Attempts: ");
        let digits = to_decimal(remaining as u64);
        attempts.append(digits.as_str());
        self.attempts = attempts;
        self.wrong_guesses = wrong_string;
    }

    fn drain_events(&mut self, client: &mut HangmanClient)
        requires
            drain_ok(old(client).game_view(), old(client).queue_view()),
        ensures
            (final(self).next(), final(self).timeout()) == drain_scene(
                old(self).next(),
                old(self).timeout(),
                old(client).game_view(),
                old(client).queue_view(),
            ),
            final(client).game_view() == drain_game(old(client).game_view(), old(client).queue_view()),
            final(client).queue_view().len() == 0,
            final(client).user == old(client).user,
            final(self).cells() == old(self).cells(),
            final(self).attempts_text() == old(self).attempts_text(),
            final(self).wrong_guesses_text() == old(self).wrong_guesses_text(),
    {
        while client.event_queue.len() > 0
            invariant
                drain_ok(client.game_view(), client.queue_view()),
                drain_scene(self.next(), self.timeout(), client.game_view(), client.queue_view())
                    == drain_scene(
                    old(self).next(),
                    old(self).timeout(),
                    old(client).game_view(),
                    old(client).queue_view(),
                ),
                drain_game(client.game_view(), client.queue_view()) == drain_game(
                    old(client).game_view(),
                    old(client).queue_view(),
                ),
                client.user == old(client).user,
                self.cells() == old(self).cells(),
                self.attempts_text() == old(self).attempts_text(),
                self.wrong_guesses_text() == old(self).wrong_guesses_text(),
            decreases client.event_queue.len(),
        {
            let ghost q = client.queue_view();
            let event = match client.event_queue.pop_back() {
                Some(e) => e,
                None => vstd::pervasive::unreached(),
            };
            assert(client.queue_view() =~= q.drop_last());
            assert(event@ == q.last());
            {
                let game = match &client.game {
                    Some(g) => g,
                    None => vstd::pervasive::unreached(),
                };
                self.handle_hangman_event(game, &event, false);
            }
            client.handle_event(event);
        }
    }
}

/// A pattern of the length of `p` fits in `w` at position `i` (the bounds
/// the painting proofs need of every reported match).
pub open spec fn occurs_at_ok(w: Seq<char>, p: Seq<char>, i: int) -> bool {
    &&& 0 <= i
    &&& i + p.len() <= w.len()
}

proof fn lemma_wrong_guesses_le(w: Seq<char>, gs: Seq<GuessView>, n: int)
    requires
        0 <= n <= gs.len(),
    ensures
        wrong_guesses(w, gs.take(n)) <= wrong_guesses(w, gs),
    decreases gs.len() - n,
{
    if n < gs.len() {
        lemma_wrong_guesses_le(w, gs, n + 1);
        assert(gs.take(n + 1).drop_last() =~= gs.take(n));
    } else {
        assert(gs.take(n) =~= gs);
    }
}


/// A guess that occurs in the word never flashes the screen, whoever made
/// it: the pending flash and the next scene stay as they were. A guess that
/// does not occur flashes it, longer for one's own guess.
pub proof fn law_flash_only_on_wrong_guess(
    next: Scenes,
    t: Option<u64>,
    word: Seq<char>,
    i: u64,
    g: GuessView,
    from_self: bool,
)
    ensures
        contains_sub(word, g.guess) ==> scene_after_event(
            next,
            t,
            word,
            HangmanEventView::Sync(i, g),
            from_self,
        ) == (next, t),
        !contains_sub(word, g.guess) ==> scene_after_event(
            next,
            t,
            word,
            HangmanEventView::Sync(i, g),
            from_self,
        ).0 == next,
        !contains_sub(word, g.guess) && from_self ==> scene_after_event(
            next,
            t,
            word,
            HangmanEventView::Sync(i, g),
            from_self,
        ).1 == Some(1000u64),
        !contains_sub(word, g.guess) && !from_self ==> scene_after_event(
            next,
            t,
            word,
            HangmanEventView::Sync(i, g),
            from_self,
        ).1 == Some(100u64),
{
}

/// For a new guess in a game, the screen of any player of that game
/// flashes exactly when the server answers the guesser `BadGuess`.
pub proof fn law_flash_matches_answer(
    games: Seq<HangmanGameView>,
    user: User,
    id: u64,
    guess: GuessView,
    next: Scenes,
    from_self: bool,
)
    requires
        id < games.len(),
        !already_guessed(games[id as int].guesses, guess.guess),
    ensures
        scene_after_event(next, None, games[id as int].word, HangmanEventView::Sync(id, guess), from_self).1
            is Some <==> sync_plan(games, user, id, guess).replies.last() == OutgoingView::Respond(
            user.ip,
            HangmanEventResponseView::BadGuess,
        ),
{
}

/// The wrong-guesses list holds one entry per wrong guess (as many as the
/// attempts used), each a guess that does not occur in the word, in the
/// order they were made.
pub proof fn law_wrong_list_counts_attempts(w: Seq<char>, gs: Seq<GuessView>)
    ensures
        wrong_list(w, gs).len() == wrong_guesses(w, gs),
        forall|k: int|
            0 <= k < wrong_list(w, gs).len() ==> count_matches(w, #[trigger] wrong_list(w, gs)[k])
                == 0,
    decreases gs.len(),
{
    if gs.len() > 0 {
        law_wrong_list_counts_attempts(w, gs.drop_last());
        let prev = wrong_list(w, gs.drop_last());
        if count_matches(w, gs.last().guess) == 0 {
            assert forall|k: int| 0 <= k < wrong_list(w, gs).len() implies count_matches(
                w,
                #[trigger] wrong_list(w, gs)[k],
            ) == 0 by {
                if k < prev.len() {
                    assert(wrong_list(w, gs)[k] == prev[k]);
                }
            }
        }
    }
}

/// The game screen shows no attempts left exactly when the server declares
/// the game a draw.
pub proof fn law_zero_attempts_is_draw(g: HangmanGameView)
    requires
        wrong_guesses(g.word, g.guesses) <= g.max_guesses,
    ensures
        is_drawn(g) <==> (g.max_guesses - wrong_guesses(g.word, g.guesses)) == 0,
        is_drawn(g) ==> decimal((g.max_guesses - wrong_guesses(g.word, g.guesses)) as nat)
            == seq!['0'],
{
    if is_drawn(g) {
        assert(decimal(0) == seq![digit_char(0)]);
    }
}

} // verus!
