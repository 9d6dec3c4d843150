//! The setup token of the configured server, and the authenticator made with it.

use super::{
    drawn_token, lemma_token_bytes, random_url_token, token_fault, url_token, AuthError, AuthModel,
    Authenticator, DEFAULT_PAIRING_CODE_TTL, DEFAULT_SESSION_TTL, TOKEN_BYTES,
};
use crate::clock::NANOS_PER_SECOND;
use crate::config::{copy_path, AuthMode, Config};
use crate::crypto::{random_reading, url_safe, MAX_KEY_BYTES};
use crate::text::{trimmed, trimmed_end, trimmed_start};
use std::path::PathBuf;
use vstd::prelude::*;
use vstd::string::*;
use vstd::utf8::encode_utf8;

verus! {

/// What the server authenticates with, and where its token lies.
pub struct AuthMaterial {
    pub authenticator: Authenticator,
    pub newly_created: bool,
    pub token_path: PathBuf,
}

/// What to do about the token file.
#[derive(Debug)]
pub enum TokenStep {
    Keep(String),
    Fail(AuthError),
    Create,
}

/// A token that can be read is kept. A file that holds no token is never replaced.
pub fn token_step(read: Result<String, AuthError>, exists: bool) -> (step: TokenStep)
    ensures
        step == match read {
            Ok(token) => TokenStep::Keep(token),
            Err(error) => if exists {
                TokenStep::Fail(error)
            } else {
                TokenStep::Create
            },
        },
{
    match read {
        Ok(token) => TokenStep::Keep(token),
        Err(error) => if exists {
            TokenStep::Fail(error)
        } else {
            TokenStep::Create
        },
    }
}

/// A new random setup token.
pub fn new_setup_token() -> (token: Result<String, AuthError>)
    ensures
        match token {
            Ok(text) => url_token(text@, TOKEN_BYTES as int) && drawn_token(text@, TOKEN_BYTES)
                && encode_utf8(text@).len() == 43,
            Err(error) => error == AuthError::Random && random_reading(TOKEN_BYTES, None),
        },
{
    let token = random_url_token(TOKEN_BYTES);
    proof {
        if token is Ok {
            lemma_token_bytes(token->Ok_0@);
        }
    }
    token
}

/// What the file of a token holds: the token and a line break.
pub open spec fn file_contents(token: Seq<char>) -> Seq<char> {
    token + seq!['\n']
}

/// What was written of a token is read back as that token.
pub proof fn law_written_token_reads_back(token: Seq<char>)
    requires
        url_token(token, TOKEN_BYTES as int),
    ensures
        trimmed(file_contents(token)) == token,
        token_fault(trimmed(file_contents(token))) is None,
{
    let contents = file_contents(token);
    assert(token.len() == 43);
    assert(url_safe(token[0]));
    assert(contents[0] == token[0]);
    assert(trimmed_start(contents) == contents);
    assert(contents.last() == '\n');
    assert(contents.drop_last() =~= token);
    assert(url_safe(token[42]));
    assert(token.last() == token[42]);
    assert(trimmed_end(token) == token);
    assert(trimmed_end(contents) == trimmed_end(contents.drop_last()));
}

pub fn token_file_contents(token: &str) -> (contents: String)
    ensures
        contents@ == file_contents(token@),
{
    let mut contents = token.to_owned();
    contents.push('\n');
    assert(contents@ =~= file_contents(token@));
    contents
}

/// How the attempt to create the token file ended.
#[derive(Debug)]
pub enum TokenFileOutcome {
    Written,
    /// Another process was faster; this is what its file holds.
    AlreadyExists(Result<String, AuthError>),
    Failed(AuthError),
}

/// The token to use after the attempt to create its file, and whether it is new.
pub fn created_token(token: String, outcome: TokenFileOutcome) -> (loaded: Result<
    (String, bool),
    AuthError,
>)
    ensures
        loaded == match outcome {
            TokenFileOutcome::Written => Ok::<(String, bool), AuthError>((token, true)),
            TokenFileOutcome::AlreadyExists(Ok(existing)) => Ok((existing, false)),
            TokenFileOutcome::AlreadyExists(Err(error)) => Err(error),
            TokenFileOutcome::Failed(error) => Err(error),
        },
{
    match outcome {
        TokenFileOutcome::Written => Ok((token, true)),
        TokenFileOutcome::AlreadyExists(Ok(existing)) => Ok((existing, false)),
        TokenFileOutcome::AlreadyExists(Err(error)) => Err(error),
        TokenFileOutcome::Failed(error) => Err(error),
    }
}

/// The authenticator of a configuration. Where authentication is off, nothing depends on what was
/// loaded of the token file.
pub fn load_or_create(config: &Config, loaded: Result<(String, bool), AuthError>) -> (material:
    Result<AuthMaterial, AuthError>)
    requires
        loaded matches Ok((token, _)) ==> encode_utf8(token@).len() <= MAX_KEY_BYTES,
    ensures
        match (config.auth_mode, loaded) {
            (AuthMode::Disabled, _) => material matches Ok(made) && made.authenticator.model()
                == AuthModel::fresh(None, DEFAULT_PAIRING_CODE_TTL, DEFAULT_SESSION_TTL)
                && !made.newly_created && made.token_path == config.token_file,
            (AuthMode::Token, Ok((token, newly_created))) => material matches Ok(made)
                && made.authenticator.model() == AuthModel::fresh(
                Some(encode_utf8(token@)),
                (config.pairing_code_ttl_seconds * NANOS_PER_SECOND) as u128,
                (config.session_ttl_seconds * NANOS_PER_SECOND) as u128,
            ) && made.newly_created == newly_created && made.token_path == config.token_file,
            (AuthMode::Token, Err(error)) => material == Err::<AuthMaterial, AuthError>(error),
        },
{
    match config.auth_mode {
        AuthMode::Disabled => Ok(
            AuthMaterial {
                authenticator: Authenticator::disabled(),
                newly_created: false,
                token_path: copy_path(&config.token_file),
            },
        ),
        AuthMode::Token => match loaded {
            Err(error) => Err(error),
            Ok((token, newly_created)) => Ok(
                AuthMaterial {
                    authenticator: Authenticator::from_token_with_ttls(
                        token.as_str().as_bytes_vec(),
                        config.pairing_code_ttl_seconds as u128 * NANOS_PER_SECOND,
                        config.session_ttl_seconds as u128 * NANOS_PER_SECOND,
                    ),
                    newly_created,
                    token_path: copy_path(&config.token_file),
                },
            ),
        },
    }
}

/// A token that can be read is kept as it is; a file that cannot be read as one is never replaced;
/// only where there is no file is a new token made.
pub proof fn law_existing_token_is_never_replaced(
    read: Result<String, AuthError>,
    exists: bool,
    step: TokenStep,
)
    requires
        call_ensures(token_step, (read, exists), step),
    ensures
        step is Create ==> !exists && read is Err,
        step matches TokenStep::Keep(token) ==> read == Ok::<String, AuthError>(token),
        step matches TokenStep::Fail(error) ==> exists && read == Err::<String, AuthError>(error),
        read is Ok ==> step is Keep,
{
}

/// The token that counts is the one that lies in the file: the new one where it was written, and
/// the other one where another process was faster.
pub proof fn law_token_in_the_file_counts(
    token: String,
    outcome: TokenFileOutcome,
    loaded: Result<(String, bool), AuthError>,
)
    requires
        call_ensures(created_token, (token, outcome), loaded),
    ensures
        outcome is Written ==> loaded == Ok::<(String, bool), AuthError>((token, true)),
        outcome matches TokenFileOutcome::AlreadyExists(Ok(existing)) ==> loaded == Ok::<
            (String, bool),
            AuthError,
        >((existing, false)),
        outcome matches TokenFileOutcome::AlreadyExists(Err(_)) ==> loaded is Err,
        outcome is Failed ==> loaded is Err,
{
}

/// A server that authenticates uses the token that was loaded and the lifetimes of its
/// configuration, and starts without sessions and codes; a server that does not lets everyone in.
pub proof fn law_authenticator_follows_the_configuration(
    config: Config,
    loaded: Result<(String, bool), AuthError>,
    material: Result<AuthMaterial, AuthError>,
)
    requires
        call_ensures(load_or_create, (&config, loaded), material),
    ensures
        config.auth_mode is Disabled ==> (material matches Ok(made)
            && made.authenticator.model().setup_token is None && !made.newly_created),
        config.auth_mode is Token && loaded is Err ==> material is Err,
        config.auth_mode is Token ==> (loaded matches Ok((token, created)) ==> (
        material matches Ok(made) && {
            let state = made.authenticator.model();
            &&& state.setup_token == Some(encode_utf8(token@))
            &&& state.code_seconds() == config.pairing_code_ttl_seconds
            &&& state.session_ttl == config.session_ttl_seconds * 1_000_000_000
            &&& state.outstanding is None
            &&& made.newly_created == created
            &&& made.token_path == config.token_file
        })),
{
}

} // verus!
