//! A verified rules engine for a "Kings in the Corner"-style card game,
//! together with the action text codec, an automated player, and the
//! decision logic of the session layer that serializes concurrent access
//! to one running game.

pub mod ai;
pub mod cards;
pub mod codec;
pub mod game;
pub mod laws;
pub mod model;
pub mod session;
pub mod text;
