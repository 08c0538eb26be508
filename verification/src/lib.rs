//! Verified core of a campus-network login client: configuration parsing,
//! portal-page scraping and the decisions of the login exchange.

pub mod config;
pub mod error;
pub mod login;
pub mod percent;
pub mod text;

pub use error::LoginError;
pub use login::extract;
