//! Which source unlocks the signing key.

use vstd::prelude::*;

verus! {

/// Where the private key's passphrase comes from.
#[derive(Clone, Copy, Debug, PartialEq, Eq)]
pub enum PassphraseOrigin {
    /// A named environment variable.
    EnvVar,
    /// The contents of a file.
    File,
    /// An interactive prompt naming the key file.
    Prompt,
}

/// Both an environment variable and a passphrase file were given.
#[derive(Clone, Copy, Debug, PartialEq, Eq)]
pub struct ConflictingPassphraseSources;

/// Picks the passphrase source from what was supplied: the environment
/// variable or the file when exactly one of them is given, the prompt when
/// neither is, and an error when both are.
pub fn choose_passphrase_origin(has_env_var: bool, has_file: bool) -> (r: Result<
    PassphraseOrigin,
    ConflictingPassphraseSources,
>)
    ensures
        r is Err <==> has_env_var && has_file,
        has_env_var && !has_file ==> r == Ok::<PassphraseOrigin, ConflictingPassphraseSources>(
            PassphraseOrigin::EnvVar,
        ),
        !has_env_var && has_file ==> r == Ok::<PassphraseOrigin, ConflictingPassphraseSources>(
            PassphraseOrigin::File,
        ),
        !has_env_var && !has_file ==> r == Ok::<PassphraseOrigin, ConflictingPassphraseSources>(
            PassphraseOrigin::Prompt,
        ),
{
    if has_env_var && has_file {
        Err(ConflictingPassphraseSources)
    } else if has_env_var {
        Ok(PassphraseOrigin::EnvVar)
    } else if has_file {
        Ok(PassphraseOrigin::File)
    } else {
        Ok(PassphraseOrigin::Prompt)
    }
}

} // verus!
