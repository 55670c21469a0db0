//! The menu screens: the opening menu, joining a game by its id, and the
//! wizard that sets up a new game. Each reacts to one key press at a time;
//! where a key calls for the server, the screen says what to ask and is
//! then told the answer.

use vstd::prelude::*;
use vstd::string::StringExecFns;
use crate::client::Scenes;
use crate::game::{char_of_key, key_char};
use crate::structs::{GameMode, HangmanGame, HangmanGameView, User};
use crate::text::{decimal, to_decimal, trimmed};
use crate::textbox::{num_input, str_input, TextBox, ENTER};

verus! {

/// Key code of the enter key.
pub const KEY_ENTER: u32 = 257;

/// Key code of the up arrow.
pub const KEY_UP: u32 = 265;

/// Key code of the down arrow.
pub const KEY_DOWN: u32 = 264;

/// Key code of the A key.
pub const KEY_A: u32 = 65;

/// Key code of the B key.
pub const KEY_B: u32 = 66;

/// The opening menu: new game or join game.
pub struct OpeningScene {
    next_scene: Scenes,
    give_next_scene: bool,
}

impl OpeningScene {
    pub closed spec fn selected(&self) -> Scenes {
        self.next_scene
    }

    pub closed spec fn done(&self) -> bool {
        self.give_next_scene
    }

    /// The menu, with "new game" selected.
    pub fn new() -> (s: OpeningScene)
        ensures
            s.selected() == Scenes::NewGameWizardScene,
            !s.done(),
    {
        OpeningScene { give_next_scene: false, next_scene: Scenes::NewGameWizardScene }
    }

    /// Up selects "new game", down selects "join game", enter confirms.
    pub fn handle_key(&mut self, key: u32)
        ensures
            final(self).selected() == if key == KEY_UP {
                Scenes::NewGameWizardScene
            } else if key == KEY_DOWN {
                Scenes::JoinGameScene
            } else {
                old(self).selected()
            },
            final(self).done() == (old(self).done() || key == KEY_ENTER),
    {
        if key == KEY_UP {
            self.next_scene = Scenes::NewGameWizardScene;
        } else if key == KEY_DOWN {
            self.next_scene = Scenes::JoinGameScene;
        } else if key == KEY_ENTER {
            self.give_next_scene = true;
        }
    }

    /// Whether the choice is confirmed.
    pub fn has_next_scene(&self) -> (r: bool)
        ensures
            r == self.done(),
    {
        self.give_next_scene
    }

    /// The selected entry.
    pub fn selection(&self) -> (r: Scenes)
        ensures
            r == self.selected(),
    {
        self.next_scene
    }

    /// The screen that follows: the new-game wizard when selected, joining
    /// a game otherwise.
    pub fn next_scene(&self) -> (r: Scenes)
        ensures
            r == if self.selected() == Scenes::NewGameWizardScene {
                Scenes::NewGameWizardScene
            } else {
                Scenes::JoinGameScene
            },
    {
        match self.next_scene {
            Scenes::NewGameWizardScene => Scenes::NewGameWizardScene,
            _ => Scenes::JoinGameScene,
        }
    }
}

/// Joining a game by typing its id.
pub struct JoinGameScene {
    game_id: u64,
    next_scene: Scenes,
    show_error: bool,
}

impl JoinGameScene {
    pub closed spec fn id(&self) -> u64 {
        self.game_id
    }

    pub closed spec fn next(&self) -> Scenes {
        self.next_scene
    }

    pub closed spec fn error_shown(&self) -> bool {
        self.show_error
    }

    /// The screen, with id 0 typed in.
    pub fn new() -> (s: JoinGameScene)
        ensures
            s.id() == 0,
            s.next() == Scenes::NoScene,
            !s.error_shown(),
    {
        JoinGameScene { next_scene: Scenes::NoScene, game_id: 0, show_error: false }
    }

    /// Enter asks to join the typed game (its id is returned); B goes back
    /// to the opening menu; any other key edits the id.
    pub fn handle_key(&mut self, key: u32) -> (join: Option<u64>)
        ensures
            key == KEY_ENTER ==> join == Some(old(self).id()) && *final(self) == *old(self),
            key == KEY_B ==> join is None && final(self).next() == Scenes::OpeningScene
                && final(self).id() == old(self).id() && final(self).error_shown() == old(
                self,
            ).error_shown(),
            key != KEY_ENTER && key != KEY_B ==> join is None && final(self).id() == num_input(
                old(self).id(),
                key_char(key),
            ) && final(self).next() == old(self).next() && final(self).error_shown() == old(
                self,
            ).error_shown(),
    {
        if key == KEY_ENTER {
            Some(self.game_id)
        } else if key == KEY_B {
            self.next_scene = Scenes::OpeningScene;
            None
        } else {
            self.game_id = TextBox::process_input_num(self.game_id, char_of_key(key));
            None
        }
    }

    /// Takes the outcome of the join request: on success the game screen
    /// follows; on failure an error shows and the id resets to 0.
    pub fn join_result(&mut self, joined: bool)
        ensures
            joined ==> final(self).next() == Scenes::GameScene && final(self).id() == old(self).id()
                && final(self).error_shown() == old(self).error_shown(),
            !joined ==> final(self).error_shown() && final(self).id() == 0 && final(self).next()
                == old(self).next(),
    {
        if joined {
            self.next_scene = Scenes::GameScene;
        } else {
            self.show_error = true;
            self.game_id = 0;
        }
    }

    /// Hides the error once it has been shown.
    pub fn error_seen(&mut self)
        ensures
            !final(self).error_shown(),
            final(self).id() == old(self).id(),
            final(self).next() == old(self).next(),
    {
        self.show_error = false;
    }

    /// The typed id.
    pub fn game_id(&self) -> (r: u64)
        ensures
            r == self.id(),
    {
        self.game_id
    }

    /// Whether the error shows.
    pub fn show_error(&self) -> (r: bool)
        ensures
            r == self.error_shown(),
    {
        self.show_error
    }

    /// Whether another screen should follow.
    pub fn has_next_scene(&self) -> (r: bool)
        ensures
            r == (self.next() != Scenes::NoScene),
    {
        self.next_scene != Scenes::NoScene
    }

    /// The screen that follows: the game once joined, the opening menu
    /// otherwise.
    pub fn next_scene(&self) -> (r: Scenes)
        ensures
            r == if self.next() == Scenes::GameScene {
                Scenes::GameScene
            } else {
                Scenes::OpeningScene
            },
    {
        match self.next_scene {
            Scenes::GameScene => Scenes::GameScene,
            _ => Scenes::OpeningScene,
        }
    }
}

/// The steps of the new-game wizard.
#[derive(Debug, Clone, Copy, PartialEq, Eq, Structural)]
pub enum WizardStatus {
    Word,
    MaxGuesses,
    Mode,
}

/// The instructions of the word step.
pub open spec fn word_instructions() -> Seq<char> {
    "What's the word you'd like to guess?\n\n\nPress ENTER to continue"@
}

/// The instructions of the maximum-guesses step.
pub open spec fn max_guesses_instructions() -> Seq<char> {
    "What's the maximum number of guesses?\n\n\nPress ENTER to continue"@
}

/// The instructions of the mode step.
pub open spec fn mode_instructions() -> Seq<char> {
    "What game mode would you like?\nA: Fastest Guess\nB: Guess Together\n\nPress ENTER to continue"@
}

/// The wizard that sets up a new game: the word, then the number of wrong
/// guesses allowed, then the mode.
pub struct NewGameWizardScene {
    pub guess_str: String,
    pub max_guesses: u16,
    prompt_str: String,
    instructions: String,
    next_scene: bool,
    wizard: WizardStatus,
}

impl NewGameWizardScene {
    pub closed spec fn word(&self) -> Seq<char> {
        self.guess_str@
    }

    pub closed spec fn max(&self) -> u16 {
        self.max_guesses
    }

    pub closed spec fn step(&self) -> WizardStatus {
        self.wizard
    }

    pub closed spec fn prompt(&self) -> Seq<char> {
        self.prompt_str@
    }

    pub closed spec fn instruction_text(&self) -> Seq<char> {
        self.instructions@
    }

    pub closed spec fn done(&self) -> bool {
        self.next_scene
    }

    /// The wizard at its first step, with an empty word.
    pub fn new() -> (s: NewGameWizardScene)
        ensures
            s.step() == WizardStatus::Word,
            s.word().len() == 0,
            s.max() == 0,
            s.prompt().len() == 0,
            s.instruction_text() == word_instructions(),
            !s.done(),
    {
        NewGameWizardScene {
            guess_str: String::new(),
            max_guesses: 0,
            wizard: WizardStatus::Word,
            next_scene: false,
            prompt_str: String::new(),
            instructions: String::from_str(
                "What's the word you'd like to guess?\n\n\nPress ENTER to continue",
            ),
        }
    }

    /// One key press. At the word step the key edits the word, and enter
    /// moves on; at the guesses step enter moves on and other keys edit the
    /// number (kept to 16 bits); at the mode step A asks for a
    /// fastest-guess game and B for a guess-together game (the mode is
    /// returned, for the game to be created).
    pub fn handle_key(&mut self, key: u32) -> (create: Option<GameMode>)
        ensures
            ({
                let c = key_char(key);
                match old(self).step() {
                    WizardStatus::Word => {
                        &&& create is None
                        &&& final(self).word() == str_input(old(self).word(), c)
                        &&& final(self).max() == old(self).max()
                        &&& final(self).done() == old(self).done()
                        &&& if c == ENTER {
                            &&& final(self).step() == WizardStatus::MaxGuesses
                            &&& final(self).instruction_text() == max_guesses_instructions()
                            &&& final(self).prompt() == decimal(old(self).max() as nat)
                        } else {
                            &&& final(self).step() == WizardStatus::Word
                            &&& final(self).instruction_text() == old(self).instruction_text()
                            &&& final(self).prompt() == final(self).word()
                        }
                    },
                    WizardStatus::MaxGuesses => {
                        &&& create is None
                        &&& final(self).word() == old(self).word()
                        &&& final(self).done() == old(self).done()
                        &&& if c == ENTER {
                            &&& final(self).step() == WizardStatus::Mode
                            &&& final(self).instruction_text() == mode_instructions()
                            &&& final(self).max() == old(self).max()
                            &&& final(self).prompt() == old(self).prompt()
                        } else {
                            &&& final(self).step() == WizardStatus::MaxGuesses
                            &&& final(self).instruction_text() == old(self).instruction_text()
                            &&& final(self).max() == (num_input(
                                old(self).max() as u64,
                                c,
                            ) % 65536) as u16
                            &&& final(self).prompt() == decimal(final(self).max() as nat)
                        }
                    },
                    WizardStatus::Mode => {
                        &&& create == if key == KEY_A {
                            Some(GameMode::FastestGuess)
                        } else if key == KEY_B {
                            Some(GameMode::MultiGuess)
                        } else {
                            None::<GameMode>
                        }
                        &&& final(self).word() == old(self).word()
                        &&& final(self).max() == old(self).max()
                        &&& final(self).step() == old(self).step()
                        &&& final(self).prompt() == old(self).prompt()
                        &&& final(self).instruction_text() == old(self).instruction_text()
                        &&& final(self).done() == old(self).done()
                    },
                }
            }),
    {
        let unicode = char_of_key(key);
        match self.wizard {
            WizardStatus::Word => {
                self.guess_str = TextBox::process_input_str(&mut self.guess_str, unicode);
                self.prompt_str = self.guess_str.clone();
                if unicode == ENTER {
                    self.wizard = WizardStatus::MaxGuesses;
                    self.instructions = String::from_str(
                        "What's the maximum number of guesses?\n\n\nPress ENTER to continue",
                    );
                    self.prompt_str = to_decimal(self.max_guesses as u64);
                }
                None
            },
            WizardStatus::MaxGuesses => {
                if unicode == ENTER {
                    self.wizard = WizardStatus::Mode;
                    self.instructions = String::from_str(
                        "What game mode would you like?\nA: Fastest Guess\nB: Guess Together\n\nPress ENTER to continue",
                    );
                } else {
                    let n = TextBox::process_input_num(self.max_guesses as u64, unicode);
                    self.max_guesses = (n % 65536) as u16;
                    self.prompt_str = to_decimal(self.max_guesses as u64);
                }
                None
            },
            WizardStatus::Mode => {
                if key == KEY_A {
                    Some(GameMode::FastestGuess)
                } else if key == KEY_B {
                    Some(GameMode::MultiGuess)
                } else {
                    None
                }
            },
        }
    }

    /// The game to create: the typed word (trimmed), the typed number of
    /// guesses, created by `user`, in `mode`.
    pub fn new_game(&self, user: User, mode: GameMode) -> (g: HangmanGame)
        ensures
            g@ == (HangmanGameView {
                id: 0,
                mode,
                word: trimmed(self.word()),
                max_guesses: self.max(),
                creator: user,
                guesses: Seq::empty(),
                players: Seq::empty(),
            }),
    {
        HangmanGame::from(self.guess_str.clone(), self.max_guesses, user, mode)
    }

    /// Marks the game as created and joined: the game screen follows.
    pub fn game_started(&mut self)
        ensures
            final(self).done(),
            final(self).step() == old(self).step(),
            final(self).word() == old(self).word(),
            final(self).max() == old(self).max(),
            final(self).prompt() == old(self).prompt(),
            final(self).instruction_text() == old(self).instruction_text(),
    {
        self.next_scene = true;
    }

    /// Whether the game screen should follow.
    pub fn has_next_scene(&self) -> (r: bool)
        ensures
            r == self.done(),
    {
        self.next_scene
    }

    /// The screen that follows: the game.
    pub fn next_scene(&self) -> (r: Scenes)
        ensures
            r == Scenes::GameScene,
    {
        Scenes::GameScene
    }

    /// The current step.
    pub fn wizard(&self) -> (r: WizardStatus)
        ensures
            r == self.step(),
    {
        self.wizard
    }

    /// The text in the input box.
    pub fn prompt_str(&self) -> (r: &String)
        ensures
            r@ == self.prompt(),
    {
        &self.prompt_str
    }

    /// The instructions shown.
    pub fn instructions(&self) -> (r: &String)
        ensures
            r@ == self.instruction_text(),
    {
        &self.instructions
    }
}

} // verus!
