//! Client-side rules of the worldwide token counter and of the release check.
//!
//! The crate holds every decision that the command line tool makes around its
//! network traffic: when to upload, what to ask for, which release to announce,
//! how two versions compare, and what to tell the user when there is no version
//! to announce. It never touches the network itself. Each exchange is split in
//! two: one function says what to send, another takes the reply that came back.

pub mod cloud;
pub mod user_config;
