use envlock::commands::{
    diff_contents, diff_readiness, git_arguments, is_affirmative, lock_contents, lock_readiness,
    may_proceed, missing_message, sync_advance, sync_start, unlock_readiness, Artifact, Presence,
    Readiness, SyncState, SyncStep,
};
use envlock::crypto::{decrypt_env, encrypt_env};
use envlock::error::EnvLockError;

fn present(env: bool, encrypted: bool, meta: bool) -> Presence {
    Presence { env, encrypted, meta }
}

fn strings(items: &[&str]) -> Vec<String> {
    items.iter().map(|s| s.to_string()).collect()
}

#[test]
fn lock_needs_the_plaintext() {
    for force in [false, true] {
        for encrypted in [false, true] {
            for meta in [false, true] {
                assert_eq!(
                    lock_readiness(present(false, encrypted, meta), force),
                    Readiness::Missing(Artifact::Env)
                );
            }
        }
    }
}

#[test]
fn lock_asks_before_it_overwrites_unless_forced() {
    assert_eq!(
        lock_readiness(present(true, true, true), false),
        Readiness::Confirm(Artifact::Encrypted)
    );
    assert_eq!(
        lock_readiness(present(true, true, false), false),
        Readiness::Confirm(Artifact::Encrypted)
    );
    assert_eq!(lock_readiness(present(true, true, true), true), Readiness::Ready);
    assert_eq!(lock_readiness(present(true, false, false), false), Readiness::Ready);
    assert_eq!(lock_readiness(present(true, false, true), true), Readiness::Ready);
}

#[test]
fn unlock_needs_ciphertext_and_metadata() {
    for force in [false, true] {
        for env in [false, true] {
            assert_eq!(
                unlock_readiness(present(env, false, true), force),
                Readiness::Missing(Artifact::Encrypted)
            );
            assert_eq!(
                unlock_readiness(present(env, false, false), force),
                Readiness::Missing(Artifact::Encrypted)
            );
            assert_eq!(
                unlock_readiness(present(env, true, false), force),
                Readiness::Missing(Artifact::Meta)
            );
        }
    }
}

#[test]
fn unlock_asks_before_it_overwrites_unless_forced() {
    assert_eq!(
        unlock_readiness(present(true, true, true), false),
        Readiness::Confirm(Artifact::Env)
    );
    assert_eq!(unlock_readiness(present(true, true, true), true), Readiness::Ready);
    assert_eq!(unlock_readiness(present(false, true, true), false), Readiness::Ready);
}

#[test]
fn diff_needs_all_three_artifacts() {
    assert_eq!(diff_readiness(present(false, false, false)), Readiness::Missing(Artifact::Env));
    assert_eq!(diff_readiness(present(false, true, true)), Readiness::Missing(Artifact::Env));
    assert_eq!(
        diff_readiness(present(true, false, false)),
        Readiness::Missing(Artifact::Encrypted)
    );
    assert_eq!(
        diff_readiness(present(true, false, true)),
        Readiness::Missing(Artifact::Encrypted)
    );
    assert_eq!(diff_readiness(present(true, true, false)), Readiness::Missing(Artifact::Meta));
    assert_eq!(diff_readiness(present(true, true, true)), Readiness::Ready);
}

#[test]
fn a_command_goes_on_only_when_ready_or_confirmed() {
    for answer in [None, Some(false), Some(true)] {
        assert!(may_proceed(Readiness::Ready, answer));
        assert!(!may_proceed(Readiness::Missing(Artifact::Env), answer));
        assert!(!may_proceed(Readiness::Missing(Artifact::Meta), answer));
    }
    assert!(may_proceed(Readiness::Confirm(Artifact::Encrypted), Some(true)));
    assert!(!may_proceed(Readiness::Confirm(Artifact::Encrypted), Some(false)));
    assert!(!may_proceed(Readiness::Confirm(Artifact::Env), None));
}

#[test]
fn yes_is_y_or_yes_in_any_case() {
    for answer in ["y", "Y", "yes", "YES", "Yes", "yEs", " y ", "yes\n", "\tYeS\r\n", "\u{a0}y"] {
        assert!(is_affirmative(answer));
    }
    for answer in ["", " ", "n", "no", "N", "ye", "yess", "y es", "yeah", "ja", "1", "true", "ÿ"] {
        assert!(!is_affirmative(answer));
    }
}

#[test]
fn yes_agrees_with_trimming_and_lowercasing() {
    for answer in ["y", "Y\n", " yes ", "YES", "no", "", "yEs", "Yes please", "ΥES", "ſ", "yeſ"] {
        let lowered = answer.trim().to_lowercase();
        assert_eq!(is_affirmative(answer), lowered == "y" || lowered == "yes");
    }
}

#[test]
fn lock_refuses_passwords_that_differ() {
    for (password, confirmation) in [("a", "b"), ("pw", "pw "), ("", "x"), ("Pw", "pw")] {
        assert_eq!(
            lock_contents("A=1\n", password, confirmation).map(|_| ()),
            Err(EnvLockError::PasswordMismatch)
        );
    }
}

#[test]
fn lock_seals_when_the_passwords_agree() {
    let (ciphertext, meta) = lock_contents("A=1\n", "pw", "pw").unwrap();
    assert_eq!(ciphertext.len(), 4 + 16);
    assert_eq!(decrypt_env(&ciphertext, "pw", &meta).unwrap(), "A=1\n");
}

#[test]
fn diff_reconciles_the_plaintext_against_the_envelope() {
    let (ciphertext, meta) = encrypt_env("# locked\nA=1\nB=9\nD=4\n", "pw").unwrap();
    let (additions, removals, changes) =
        diff_contents("A=1\nB=2\n\nC=3\n", &ciphertext, "pw", &meta).unwrap();
    assert_eq!(additions, strings(&["C"]));
    assert_eq!(removals, strings(&["D"]));
    assert_eq!(changes, vec![("B".to_string(), "9".to_string(), "2".to_string())]);
}

#[test]
fn diff_of_the_locked_text_is_empty() {
    let text = "A=1\nB=2\n";
    let (ciphertext, meta) = encrypt_env(text, "pw").unwrap();
    let (additions, removals, changes) =
        diff_contents("B = 2\n# same\nA=1", &ciphertext, "pw", &meta).unwrap();
    assert!(additions.is_empty() && removals.is_empty() && changes.is_empty());
}

#[test]
fn diff_hands_on_what_keeps_the_envelope_shut() {
    let (ciphertext, meta) = encrypt_env("A=1\n", "pw").unwrap();
    assert_eq!(
        diff_contents("A=1\n", &ciphertext, "other", &meta),
        Err(EnvLockError::DecryptionError)
    );
}

#[test]
fn sync_goes_through_its_four_steps() {
    assert_eq!(sync_start(), SyncState::Next(SyncStep::Lock));
    assert_eq!(sync_advance(SyncStep::Lock, true), SyncState::Next(SyncStep::Stage));
    assert_eq!(sync_advance(SyncStep::Stage, true), SyncState::Next(SyncStep::Commit));
    assert_eq!(sync_advance(SyncStep::Commit, true), SyncState::Next(SyncStep::Push));
    assert_eq!(sync_advance(SyncStep::Push, true), SyncState::Completed);
}

#[test]
fn sync_aborts_at_the_first_failure() {
    for step in [SyncStep::Lock, SyncStep::Stage, SyncStep::Commit, SyncStep::Push] {
        assert_eq!(sync_advance(step, false), SyncState::Aborted(step));
    }
    for failing in 0..4 {
        let mut done = Vec::new();
        let mut state = sync_start();
        while let SyncState::Next(step) = state {
            done.push(step);
            state = sync_advance(step, done.len() - 1 != failing);
        }
        assert_eq!(done.len(), failing + 1);
        assert_eq!(state, SyncState::Aborted(done[failing]));
    }
}

#[test]
fn sync_hands_git_its_arguments() {
    assert_eq!(
        git_arguments(SyncStep::Stage, ".env.enc", ".env.meta.json", "msg"),
        strings(&["add", ".env.enc", ".env.meta.json"])
    );
    assert_eq!(
        git_arguments(SyncStep::Commit, ".env.enc", ".env.meta.json", "chore(env): update"),
        strings(&["commit", "-m", "chore(env): update"])
    );
    assert_eq!(git_arguments(SyncStep::Push, "a", "b", "c"), strings(&["push"]));
    assert_eq!(git_arguments(SyncStep::Lock, "a", "b", "c"), Vec::<String>::new());
}

#[test]
fn a_missing_input_is_reported_by_name_and_path() {
    assert_eq!(missing_message(Artifact::Env, ".env"), "Env file '.env' not found");
    assert_eq!(
        missing_message(Artifact::Encrypted, "secrets/.env.enc"),
        "Encrypted file 'secrets/.env.enc' not found"
    );
    assert_eq!(
        missing_message(Artifact::Meta, ".env.meta.json"),
        "Metadata file '.env.meta.json' not found"
    );
    assert_eq!(missing_message(Artifact::Env, ""), "Env file '' not found");
}
