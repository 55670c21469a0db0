//! The rows of the server's database: user accounts, games and guesses.

use vstd::prelude::*;
use crate::structs::{GameMode, User};

verus! {

/// A user account to be created.
#[derive(Debug)]
pub struct NewDbUser {
    pub username: String,
    pub game_id: Option<i32>,
    pub password: String,
}

/// A stored user account.
#[derive(Debug)]
pub struct DbUser {
    pub id: i32,
    pub username: String,
    pub game_id: Option<i32>,
    pub password: String,
}

/// The mathematical value of a stored user account.
pub struct DbUserView {
    pub id: i32,
    pub username: Seq<char>,
    pub game_id: Option<i32>,
    pub password: Seq<char>,
}

impl View for DbUser {
    type V = DbUserView;

    open spec fn view(&self) -> DbUserView {
        DbUserView {
            id: self.id,
            username: self.username@,
            game_id: self.game_id,
            password: self.password@,
        }
    }
}

impl Clone for DbUser {
    fn clone(&self) -> (r: Self)
        ensures
            r@ == self@,
    {
        DbUser {
            id: self.id,
            username: self.username.clone(),
            game_id: self.game_id,
            password: self.password.clone(),
        }
    }
}

/// A stored game.
#[derive(Debug)]
pub struct DbGame {
    pub id: i32,
    pub mode: GameMode,
    pub word: String,
    pub max_guesses: i32,
    pub creator_id: i32,
}

/// A stored guess.
#[derive(Debug)]
pub struct Guess {
    pub id: Option<i32>,
    pub user: User,
    pub guess: String,
    pub game_id: Option<i32>,
}

/// A game to be stored.
#[derive(Debug)]
pub struct NewDbGame {
    pub mode: GameMode,
    pub word: String,
    pub max_guesses: i32,
    pub creator_id: i32,
}

} // verus!
