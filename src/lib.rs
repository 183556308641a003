//! Token brokering for a music client: TOTP secrets kept by version, the
//! one-time passwords derived from them, the internal-token cache and the
//! exchange retry rule, the OAuth hand-off mailbox, and the handling of
//! upstream answers.

pub mod player;
pub mod relay;
pub mod secrets;
pub mod token;
pub mod totp;
pub mod upstream;
