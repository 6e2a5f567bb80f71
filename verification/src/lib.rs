//! Core logic of a small ticket web service: the error model and its mapping
//! to client-facing errors, the request context, the in-memory ticket store,
//! the auth-token grammar, decimal numerals, and the decisions of the login,
//! auth and hello handlers.

pub mod ctx;
pub mod decimal;
pub mod error;
pub mod model;
mod text;
pub mod token;
pub mod web;

pub use ctx::Ctx;
pub use error::{ClientError, Error};
pub use model::{ModelController, Ticket, TicketForCreate};
pub use token::parse_token;
