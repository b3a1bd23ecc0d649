//! What the four commands decide and compute, apart from the files they
//! read and write and the questions they ask: whether a command may go
//! ahead, what a typed answer means, what lock and diff make of their
//! inputs, and how sync gets from one step to the next.

use crate::crypto::{decrypt_env, encrypt_env, open_outcome, sealable, seal_outcome};
use crate::error::EnvLockError;
use crate::keyorder::same_text;
use crate::kv::{get_changes, is_reconciliation, texts, triples};
use crate::meta::{Meta, MetaView};
use crate::parse::{parse_env, parse_text};
use crate::primitives::{NONCE_LEN, SALT_LEN};
use crate::text::{chars_of, trim, trim_range};
use vstd::prelude::*;
use vstd::string::StringExecFns;

verus! {

/// One of the three artifacts.
#[derive(Debug, Clone, Copy, PartialEq, Eq, Structural)]
pub enum Artifact {
    /// The plaintext secrets file.
    Env,
    /// The ciphertext.
    Encrypted,
    /// The metadata.
    Meta,
}

/// Which of the artifacts exist.
#[derive(Debug, Clone, Copy, PartialEq, Eq, Structural)]
pub struct Presence {
    pub env: bool,
    pub encrypted: bool,
    pub meta: bool,
}

/// Whether a command may go ahead.
#[derive(Debug, Clone, Copy, PartialEq, Eq, Structural)]
pub enum Readiness {
    /// An input that the command needs is not there.
    Missing(Artifact),
    /// The command would overwrite this artifact and has to ask first.
    Confirm(Artifact),
    /// Nothing stands in the way.
    Ready,
}

/// Lock needs the plaintext, and asks before it overwrites a ciphertext
/// unless it is forced.
pub open spec fn lock_readiness_of(present: Presence, force: bool) -> Readiness {
    if !present.env {
        Readiness::Missing(Artifact::Env)
    } else if present.encrypted && !force {
        Readiness::Confirm(Artifact::Encrypted)
    } else {
        Readiness::Ready
    }
}

/// Unlock needs the ciphertext and the metadata, and asks before it
/// overwrites a plaintext unless it is forced.
pub open spec fn unlock_readiness_of(present: Presence, force: bool) -> Readiness {
    if !present.encrypted {
        Readiness::Missing(Artifact::Encrypted)
    } else if !present.meta {
        Readiness::Missing(Artifact::Meta)
    } else if present.env && !force {
        Readiness::Confirm(Artifact::Env)
    } else {
        Readiness::Ready
    }
}

/// Diff needs all three artifacts and writes nothing.
pub open spec fn diff_readiness_of(present: Presence) -> Readiness {
    if !present.env {
        Readiness::Missing(Artifact::Env)
    } else if !present.encrypted {
        Readiness::Missing(Artifact::Encrypted)
    } else if !present.meta {
        Readiness::Missing(Artifact::Meta)
    } else {
        Readiness::Ready
    }
}

/// Whether a command goes on, given the answer to the question it asked,
/// if it asked one.
pub open spec fn passes(readiness: Readiness, answer: Option<bool>) -> bool {
    match readiness {
        Readiness::Missing(_) => false,
        Readiness::Confirm(_) => answer == Some(true),
        Readiness::Ready => true,
    }
}

/// Whether lock may go ahead.
pub fn lock_readiness(present: Presence, force: bool) -> (r: Readiness)
    ensures
        r == lock_readiness_of(present, force),
        // an existing ciphertext is overwritten only if forced or confirmed
        present.encrypted && !force ==> forall|answer: Option<bool>|
            passes(r, answer) ==> answer == Some(true),
{
    if !present.env {
        Readiness::Missing(Artifact::Env)
    } else if present.encrypted && !force {
        Readiness::Confirm(Artifact::Encrypted)
    } else {
        Readiness::Ready
    }
}

/// Whether unlock may go ahead.
pub fn unlock_readiness(present: Presence, force: bool) -> (r: Readiness)
    ensures
        r == unlock_readiness_of(present, force),
        // an existing plaintext is overwritten only if forced or confirmed
        present.env && !force ==> forall|answer: Option<bool>|
            passes(r, answer) ==> answer == Some(true),
{
    if !present.encrypted {
        Readiness::Missing(Artifact::Encrypted)
    } else if !present.meta {
        Readiness::Missing(Artifact::Meta)
    } else if present.env && !force {
        Readiness::Confirm(Artifact::Env)
    } else {
        Readiness::Ready
    }
}

/// Whether diff may go ahead.
pub fn diff_readiness(present: Presence) -> (r: Readiness)
    ensures
        r == diff_readiness_of(present),
{
    if !present.env {
        Readiness::Missing(Artifact::Env)
    } else if !present.encrypted {
        Readiness::Missing(Artifact::Encrypted)
    } else if !present.meta {
        Readiness::Missing(Artifact::Meta)
    } else {
        Readiness::Ready
    }
}

/// Whether a command goes on.
pub fn may_proceed(readiness: Readiness, answer: Option<bool>) -> (r: bool)
    ensures
        r == passes(readiness, answer),
{
    match readiness {
        Readiness::Missing(_) => false,
        Readiness::Confirm(_) => match answer {
            Some(yes) => yes,
            None => false,
        },
        Readiness::Ready => true,
    }
}

/// What an artifact is called when it is reported missing.
pub open spec fn artifact_name(artifact: Artifact) -> Seq<char> {
    match artifact {
        Artifact::Env => "Env file"@,
        Artifact::Encrypted => "Encrypted file"@,
        Artifact::Meta => "Metadata file"@,
    }
}

/// The text that reports a missing input.
pub open spec fn missing_text(artifact: Artifact, path: Seq<char>) -> Seq<char> {
    artifact_name(artifact) + " '"@ + path + "' not found"@
}

/// The text that reports that the artifact expected at `path` is missing.
pub fn missing_message(artifact: Artifact, path: &str) -> (text: String)
    ensures
        text@ == missing_text(artifact, path@),
{
    let mut text = match artifact {
        Artifact::Env => "Env file".to_owned(),
        Artifact::Encrypted => "Encrypted file".to_owned(),
        Artifact::Meta => "Metadata file".to_owned(),
    };
    text.append(" '");
    text.append(path);
    text.append("' not found");
    text
}

/// Whether a typed answer means yes: trimmed, it reads `y` or `yes`, in
/// upper or lower case.
pub open spec fn is_yes(answer: Seq<char>) -> bool {
    let t = trim(answer);
    ||| t.len() == 1 && (t[0] == 'y' || t[0] == 'Y')
    ||| t.len() == 3 && (t[0] == 'y' || t[0] == 'Y') && (t[1] == 'e' || t[1] == 'E') && (t[2]
        == 's' || t[2] == 'S')
}

/// Whether a typed answer means yes.
pub fn is_affirmative(answer: &str) -> (r: bool)
    ensures
        r == is_yes(answer@),
{
    let chars = chars_of(answer);
    let (a, b) = trim_range(&chars, 0, chars.len());
    proof {
        assert(chars@.subrange(0, chars.len() as int) == chars@);
    }
    let ghost t = chars@.subrange(a as int, b as int);
    if b - a == 1 {
        assert(t[0] == chars@[a as int]);
        chars[a] == 'y' || chars[a] == 'Y'
    } else if b - a == 3 {
        assert(t[0] == chars@[a as int] && t[1] == chars@[a + 1] && t[2] == chars@[a + 2]);
        (chars[a] == 'y' || chars[a] == 'Y') && (chars[a + 1] == 'e' || chars[a + 1] == 'E') && (
        chars[a + 2] == 's' || chars[a + 2] == 'S')
    } else {
        false
    }
}

/// What lock makes of the plaintext and the password that was typed twice:
/// a password that differs from its confirmation is refused before
/// anything is derived or encrypted; otherwise the plaintext is sealed.
pub fn lock_contents(plaintext: &str, password: &str, confirmation: &str) -> (r: Result<
    (Vec<u8>, Meta),
    EnvLockError,
>)
    ensures
        password@ != confirmation@ ==> r == Err::<(Vec<u8>, Meta), EnvLockError>(
            EnvLockError::PasswordMismatch,
        ),
        r is Ok <==> password@ == confirmation@ && sealable(plaintext@, password@),
        r matches Ok((c, m)) ==> exists|salt: Seq<u8>, nonce: Seq<u8>|
            salt.len() == SALT_LEN && nonce.len() == NONCE_LEN && #[trigger] seal_outcome(
                plaintext@,
                password@,
                salt,
                nonce,
            ) == Ok::<(Seq<u8>, MetaView), EnvLockError>((c@, m@)),
        r matches Ok((c, m)) ==> open_outcome(c@, password@, m@) == Ok::<Seq<char>, EnvLockError>(
            plaintext@,
        ),
{
    if same_text(password, confirmation) {
        encrypt_env(plaintext, password)
    } else {
        Err(EnvLockError::PasswordMismatch)
    }
}

/// What diff makes of its inputs: the envelope is opened, and the live
/// plaintext is reconciled against what it held. Whatever keeps the
/// envelope from opening is handed on.
pub fn diff_contents(env_plain: &str, ciphertext: &[u8], password: &str, meta: &Meta) -> (r: Result<
    (Vec<String>, Vec<String>, Vec<(String, String, String)>),
    EnvLockError,
>)
    ensures
        match open_outcome(ciphertext@, password@, meta@) {
            Err(e) => r == Err::<
                (Vec<String>, Vec<String>, Vec<(String, String, String)>),
                EnvLockError,
            >(e),
            Ok(locked) => r matches Ok(d) && is_reconciliation(
                parse_text(env_plain@),
                parse_text(locked),
                texts(d.0@),
                texts(d.1@),
                triples(d.2@),
            ),
        },
{
    let decrypted = match decrypt_env(ciphertext, password, meta) {
        Ok(text) => text,
        Err(e) => {
            return Err(e);
        },
    };
    let current_env = parse_env(env_plain);
    let decrypted_env = parse_env(decrypted.as_str());
    Ok(get_changes(&current_env, &decrypted_env))
}

/// A step of sync.
#[derive(Debug, Clone, Copy, PartialEq, Eq, Structural)]
pub enum SyncStep {
    /// Lock, forced.
    Lock,
    /// Stage the ciphertext and the metadata.
    Stage,
    /// Commit with the message.
    Commit,
    /// Push.
    Push,
}

/// Where sync stands.
#[derive(Debug, Clone, Copy, PartialEq, Eq, Structural)]
pub enum SyncState {
    /// This step is to be done next.
    Next(SyncStep),
    /// All four steps were done.
    Completed,
    /// This step failed, and none was done after it.
    Aborted(SyncStep),
}

/// Where sync stands once `step` has succeeded or failed.
pub open spec fn sync_after(step: SyncStep, succeeded: bool) -> SyncState {
    if !succeeded {
        SyncState::Aborted(step)
    } else {
        match step {
            SyncStep::Lock => SyncState::Next(SyncStep::Stage),
            SyncStep::Stage => SyncState::Next(SyncStep::Commit),
            SyncStep::Commit => SyncState::Next(SyncStep::Push),
            SyncStep::Push => SyncState::Completed,
        }
    }
}

/// Where sync stands after the outcomes of the steps done so far, the
/// first of them being that of lock: outcomes after a failure or after the
/// last step change nothing.
pub open spec fn sync_run(outcomes: Seq<bool>) -> SyncState
    decreases outcomes.len(),
{
    if outcomes.len() == 0 {
        SyncState::Next(SyncStep::Lock)
    } else {
        match sync_run(outcomes.drop_last()) {
            SyncState::Next(step) => sync_after(step, outcomes.last()),
            done => done,
        }
    }
}

/// Sync begins with lock.
pub fn sync_start() -> (s: SyncState)
    ensures
        s == SyncState::Next(SyncStep::Lock),
{
    SyncState::Next(SyncStep::Lock)
}

/// Where sync stands once `step` has succeeded or failed: a failure
/// aborts what is left, a success leads to the next step.
pub fn sync_advance(step: SyncStep, succeeded: bool) -> (s: SyncState)
    ensures
        s == sync_after(step, succeeded),
{
    if !succeeded {
        SyncState::Aborted(step)
    } else {
        match step {
            SyncStep::Lock => SyncState::Next(SyncStep::Stage),
            SyncStep::Stage => SyncState::Next(SyncStep::Commit),
            SyncStep::Commit => SyncState::Next(SyncStep::Push),
            SyncStep::Push => SyncState::Completed,
        }
    }
}

/// The step of sync that comes at place `i`, counted from 0.
pub open spec fn step_at(i: int) -> SyncStep {
    if i <= 0 {
        SyncStep::Lock
    } else if i == 1 {
        SyncStep::Stage
    } else if i == 2 {
        SyncStep::Commit
    } else {
        SyncStep::Push
    }
}

/// One more outcome moves sync on by one step, unless it has come to rest.
proof fn lemma_sync_step(outcomes: Seq<bool>, k: int)
    requires
        0 < k <= outcomes.len(),
    ensures
        sync_run(outcomes.take(k)) == match sync_run(outcomes.take(k - 1)) {
            SyncState::Next(step) => sync_after(step, outcomes[k - 1]),
            done => done,
        },
{
    assert(outcomes.take(k).drop_last() == outcomes.take(k - 1));
}

/// Once sync has come to rest, further outcomes change nothing.
proof fn lemma_sync_rests(outcomes: Seq<bool>, n: int)
    requires
        0 <= n <= outcomes.len(),
        !(sync_run(outcomes.take(n)) is Next),
    ensures
        sync_run(outcomes) == sync_run(outcomes.take(n)),
    decreases outcomes.len(),
{
    if n < outcomes.len() {
        assert(outcomes.drop_last().take(n) == outcomes.take(n));
        lemma_sync_rests(outcomes.drop_last(), n);
    } else {
        assert(outcomes.take(n) == outcomes);
    }
}

/// As long as every step succeeds, sync stands at the next one.
proof fn lemma_sync_proceeds(outcomes: Seq<bool>, k: int)
    requires
        0 <= k <= outcomes.len(),
        k < 4,
        forall|j: int| 0 <= j < k ==> outcomes[j],
    ensures
        sync_run(outcomes.take(k)) == SyncState::Next(step_at(k)),
    decreases k,
{
    if k > 0 {
        lemma_sync_proceeds(outcomes, k - 1);
        lemma_sync_step(outcomes, k);
    }
}

/// The first step that fails aborts sync: whatever comes after it, sync
/// stands aborted at that step.
pub proof fn lemma_sync_aborts_at_first_failure(outcomes: Seq<bool>, i: int)
    requires
        0 <= i < 4,
        i < outcomes.len(),
        forall|j: int| 0 <= j < i ==> outcomes[j],
        !outcomes[i],
    ensures
        sync_run(outcomes) == SyncState::Aborted(step_at(i)),
{
    lemma_sync_proceeds(outcomes, i);
    lemma_sync_step(outcomes, i + 1);
    lemma_sync_rests(outcomes, i + 1);
}

/// Sync completes exactly when its four steps have all succeeded.
pub proof fn lemma_sync_completes(outcomes: Seq<bool>)
    ensures
        sync_run(outcomes) == SyncState::Completed <==> outcomes.len() >= 4 && outcomes[0]
            && outcomes[1] && outcomes[2] && outcomes[3],
{
    if exists|i: int| 0 <= i < 4 && i < outcomes.len() && !outcomes[i] {
        let i = choose|i: int|
            0 <= i < 4 && i < outcomes.len() && !outcomes[i] && forall|j: int|
                0 <= j < i ==> outcomes[j];
        lemma_sync_aborts_at_first_failure(outcomes, i);
    } else if outcomes.len() >= 4 {
        lemma_sync_proceeds(outcomes, 3);
        lemma_sync_step(outcomes, 4);
        lemma_sync_rests(outcomes, 4);
    } else {
        lemma_sync_proceeds(outcomes, outcomes.len() as int);
        assert(outcomes.take(outcomes.len() as int) == outcomes);
    }
}

/// The arguments that a step hands to the version-control program: none
/// for lock, which is not its business.
pub open spec fn git_arguments_of(
    step: SyncStep,
    encrypted_file: Seq<char>,
    meta_file: Seq<char>,
    message: Seq<char>,
) -> Seq<Seq<char>> {
    match step {
        SyncStep::Lock => Seq::empty(),
        SyncStep::Stage => seq!["add"@, encrypted_file, meta_file],
        SyncStep::Commit => seq!["commit"@, "-m"@, message],
        SyncStep::Push => seq!["push"@],
    }
}

/// The arguments that a step hands to the version-control program.
pub fn git_arguments(
    step: SyncStep,
    encrypted_file: &str,
    meta_file: &str,
    message: &str,
) -> (args: Vec<String>)
    ensures
        texts(args@) == git_arguments_of(step, encrypted_file@, meta_file@, message@),
{
    let mut args: Vec<String> = Vec::new();
    match step {
        SyncStep::Lock => {},
        SyncStep::Stage => {
            args.push("add".to_owned());
            args.push(encrypted_file.to_owned());
            args.push(meta_file.to_owned());
        },
        SyncStep::Commit => {
            args.push("commit".to_owned());
            args.push("-m".to_owned());
            args.push(message.to_owned());
        },
        SyncStep::Push => {
            args.push("push".to_owned());
        },
    }
    assert(texts(args@) =~= git_arguments_of(step, encrypted_file@, meta_file@, message@));
    args
}

} // verus!
