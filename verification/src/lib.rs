//! The logic of a self-hosted server monitor's hub: the conversion of what a
//! komari-agent reports into the hub's own model, and the notifications that the
//! hub sends through PushPlus, SMTP, Telegram and a webhook.
//!
//! What a function returns is stated in its contract, over the characters of its
//! strings and the contents of its JSON values. The functions named `law_...`
//! state what holds across functions, or in every state.

pub mod delivery;
pub mod headers;
pub mod json;
pub mod komari_compat;
pub mod laws;
pub mod markup;
pub mod notice;
pub mod pushplus;
pub mod settings;
pub mod smtp;
pub mod status;
pub mod telegram;
pub mod text;
pub mod validation;
pub mod watcher;
pub mod webhook;
