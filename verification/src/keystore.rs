//! The secret key of a workspace in its file.
use vstd::prelude::*;

use crate::error::{concat, WorkspaceError, WorkspaceFault};
use crate::ids::Key;
use crate::path::FsPath;
use crate::state_files::{to_array, FileRead};
use crate::text::{decimal, decimal_text, lossy_text};

verus! {

/// The permissions of the key file: its owner reads and writes it.
pub const KEY_MODE: u32 = 0o600;

/// The permissions of a state directory that is made: its owner's alone.
pub const DIR_MODE: u32 = 0o700;

/// Why there is no key.
#[derive(Clone, Debug, PartialEq, Eq)]
pub enum KeyError {
    /// The file system refused.
    Io {
        /// The path.
        path: FsPath,
        /// Why.
        source: String,
    },
    /// The file does not hold a key.
    Corrupt {
        /// The path.
        path: FsPath,
        /// How many bytes it holds.
        got: usize,
    },
    /// The system has no randomness.
    Rng(String),
}

/// The message for a missing key.
pub open spec fn key_error_text(err: KeyError) -> Seq<char> {
    match err {
        KeyError::Io { path, source } => "workspace key "@ + lossy_text(path@) + ": "@ + source@,
        KeyError::Corrupt { path, got } => "workspace key "@ + lossy_text(path@)
            + " is corrupt: expected 32 bytes, got "@ + decimal(got as nat),
        KeyError::Rng(why) => "workspace key generation failed: "@ + why@,
    }
}

impl KeyError {
    /// The error as a message.
    pub fn message(&self) -> (text: String)
        ensures
            text@ == key_error_text(*self),
    {
        match self {
            KeyError::Io { path, source } => {
                let mut text = concat("workspace key ", path.display().as_str());
                text.append(": ");
                text.append(source.as_str());
                text
            },
            KeyError::Corrupt { path, got } => {
                let mut text = concat("workspace key ", path.display().as_str());
                text.append(" is corrupt: expected 32 bytes, got ");
                text.append(decimal_text(*got as u64).as_str());
                text
            },
            KeyError::Rng(why) => concat("workspace key generation failed: ", why.as_str()),
        }
    }
}

/// The key in a file.
pub fn parse_key(path: &FsPath, bytes: &Vec<u8>) -> (res: Result<[u8; 32], KeyError>)
    ensures
        bytes@.len() == 32 ==> (res matches Ok(key) && key@ == bytes@),
        bytes@.len() != 32 ==> (res matches Err(KeyError::Corrupt { path: p, got }) && p@ == path@ && got == bytes@.len()),
{
    if bytes.len() != 32 {
        return Err(KeyError::Corrupt { path: path.duplicate(), got: bytes.len() });
    }
    Ok(to_array(bytes))
}

/// What a key file leads to.
pub enum KeyStep {
    /// The key is there.
    Use([u8; 32]),
    /// A key was drawn, and is written.
    Write {
        /// The key.
        key: [u8; 32],
        /// The permissions of its file.
        mode: u32,
    },
    /// There is no key.
    Fail(KeyError),
}

/// Draws thirty-two bytes with `try_fill_bytes` of `rand::rngs::SysRng`.
/// Nothing is claimed of them: they are random, and the system may refuse to
/// give any.
#[verifier::external_body]
fn draw_key() -> (res: Result<[u8; 32], String>) {
    let mut bytes: [u8; 32] = [0; 32];
    match rand::TryRng::try_fill_bytes(&mut rand::rngs::SysRng, &mut bytes) {
        Ok(()) => Ok(bytes),
        Err(e) => Err(e.to_string()),
    }
}

/// What an attempt to draw a key leads to.
pub fn drawn(attempt: Result<[u8; 32], String>) -> (step: KeyStep)
    ensures
        step == match attempt {
            Ok(key) => KeyStep::Write { key, mode: KEY_MODE },
            Err(why) => KeyStep::Fail(KeyError::Rng(why)),
        },
{
    match attempt {
        Ok(key) => KeyStep::Write { key, mode: KEY_MODE },
        Err(why) => KeyStep::Fail(KeyError::Rng(why)),
    }
}

/// Decides what a key file leads to. A file that is there is never replaced,
/// whatever it holds; where there is none, a key is drawn, for its owner alone
/// to read.
pub fn load_or_create_secret(path: &FsPath, read: &FileRead) -> (step: KeyStep)
    ensures
        match read {
            FileRead::Missing => (step matches KeyStep::Write { mode, .. } && mode == KEY_MODE) || (step matches KeyStep::Fail(err) && err is Rng),
            FileRead::Failed(why) => step matches KeyStep::Fail(KeyError::Io { path: p, source }) && p@ == path@ && source@ == why@,
            FileRead::Bytes(bytes) => if bytes@.len() == 32 {
                step matches KeyStep::Use(key) && key@ == bytes@
            } else {
                step matches KeyStep::Fail(KeyError::Corrupt { path: p, got }) && p@ == path@ && got == bytes@.len()
            },
        },
{
    match read {
        FileRead::Missing => drawn(draw_key()),
        FileRead::Failed(why) => KeyStep::Fail(KeyError::Io { path: path.duplicate(), source: why.clone() }),
        FileRead::Bytes(bytes) => match parse_key(path, bytes) {
            Ok(key) => KeyStep::Use(key),
            Err(err) => KeyStep::Fail(err),
        },
    }
}

/// The key that was drawn, once it is in its file.
pub fn secret_written(path: &FsPath, key: [u8; 32], outcome: Result<(), String>) -> (res: Result<[u8; 32], KeyError>)
    ensures
        match outcome {
            Ok(()) => res == Ok::<[u8; 32], KeyError>(key),
            Err(why) => res matches Err(KeyError::Io { path: p, source }) && p@ == path@ && source == why,
        },
{
    match outcome {
        Ok(()) => Ok(key),
        Err(why) => Err(KeyError::Io { path: path.duplicate(), source: why }),
    }
}

/// What the file system says of a directory.
pub enum DirState {
    /// It is a directory.
    Dir,
    /// It is something else.
    Other,
    /// There is nothing.
    Missing,
    /// It cannot be told.
    Failed(String),
}

/// What a directory that is needed leads to: nothing, or it is made.
#[derive(Clone, Copy, Debug, PartialEq, Eq, Structural)]
pub enum DirStep {
    /// Nothing.
    Keep,
    /// It is made.
    Make {
        /// Its permissions.
        mode: u32,
    },
}

/// Decides what a directory that is needed leads to. One that is there is left
/// as it is.
pub fn ensure_dir(dir: &FsPath, state: &DirState) -> (res: Result<DirStep, String>)
    ensures
        match state {
            DirState::Dir => res == Ok::<DirStep, String>(DirStep::Keep),
            DirState::Missing => res == Ok::<DirStep, String>(DirStep::Make { mode: DIR_MODE }),
            DirState::Other => res matches Err(why) && why@ == lossy_text(dir@) + " exists but is not a directory"@,
            DirState::Failed(reason) => res matches Err(why) && why@ == reason@,
        },
{
    match state {
        DirState::Dir => Ok(DirStep::Keep),
        DirState::Missing => Ok(DirStep::Make { mode: DIR_MODE }),
        DirState::Other => Err(concat(dir.display().as_str(), " exists but is not a directory")),
        DirState::Failed(reason) => Err(reason.clone()),
    }
}

/// What a failure to have the state directory is reported as.
pub fn ensure_state_dir(dir: &FsPath, outcome: Result<(), String>) -> (res: Result<(), WorkspaceError>)
    ensures
        match outcome {
            Ok(()) => res is Ok,
            Err(why) => res matches Err(err) && err@ == WorkspaceFault::Iroh(
                "create state_dir "@ + lossy_text(dir@) + ": "@ + why@,
            ),
        },
{
    match outcome {
        Ok(()) => Ok(()),
        Err(why) => {
            let mut text = concat("create state_dir ", dir.display().as_str());
            text.append(": ");
            text.append(why.as_str());
            Err(WorkspaceError::Iroh(text))
        },
    }
}

/// A key that is in its file is used, whatever key it is; a file that holds
/// anything else, or cannot be read, is left as it is. Only where there is no
/// file is one written, for its owner alone.
pub proof fn law_keys_are_never_replaced(path: &FsPath, read: &FileRead, step: KeyStep)
    requires
        call_ensures(load_or_create_secret, (path, read), step),
    ensures
        step is Write ==> *read is Missing,
        step matches KeyStep::Write { mode, .. } ==> mode == KEY_MODE,
        step is Use <==> (*read matches FileRead::Bytes(bytes) && bytes@.len() == 32),
        step matches KeyStep::Use(key) ==> (*read matches FileRead::Bytes(bytes) && key@ == bytes@),
{
}

/// A key that was drawn is the one that is written, and the one that is used
/// once it is in its file.
pub proof fn law_drawn_keys_are_kept(key: [u8; 32], step: KeyStep, path: &FsPath, outcome: Result<(), String>, res: Result<[u8; 32], KeyError>)
    requires
        call_ensures(drawn, (Ok::<[u8; 32], String>(key),), step),
        call_ensures(secret_written, (path, key, outcome), res),
    ensures
        step == (KeyStep::Write { key, mode: KEY_MODE }),
        res is Ok <==> outcome is Ok,
        res matches Ok(used) ==> used == key,
{
}

/// A directory is made exactly where there is nothing, for its owner alone; one
/// that is there is left as it is, and anything else is an error.
pub proof fn law_directories_are_made_once(dir: &FsPath, state: &DirState, res: Result<DirStep, String>)
    requires
        call_ensures(ensure_dir, (dir, state), res),
    ensures
        res == Ok::<DirStep, String>(DirStep::Keep) <==> *state is Dir,
        res == Ok::<DirStep, String>(DirStep::Make { mode: DIR_MODE }) <==> *state is Missing,
        res is Err <==> *state is Other || *state is Failed,
{
}

} // verus!
