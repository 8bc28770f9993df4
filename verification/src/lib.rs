//! Game logic of a cookie-clicker played from a status bar.
//!
//! Cookie amounts are held exactly, as whole numbers of micro-cookies
//! (one cookie is `COOKIE` units), so that every cost, rate and gain of the
//! game is an integer and its arithmetic can be stated and proved.

pub mod cli;
pub mod format;
pub mod game;
pub mod text;
