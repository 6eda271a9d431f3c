//! Decision logic for re-signing an update payload container: the manifest
//! model, the operation driver that walks it in order and resolves each
//! operation's source range, and the choice of passphrase source.

pub mod manifest;
pub mod driver;
pub mod laws;
pub mod passphrase;
