//! The decision core of rolling back the last migration: whether to unapply
//! given the destructive-change warnings and the caller's force flag, and the
//! outputs reported either way. The migration store, the checker and the
//! applier are external collaborators driven by a thin shell around this.
use vstd::prelude::*;

verus! {

/// The rollback request: an optional force flag.
#[derive(Debug)]
pub struct UnapplyMigrationInput {
    pub force: Option<bool>,
}

/// What a rollback reports: which migration was rolled back, which is now
/// active, and any errors or destructive-change warnings.
#[derive(Debug)]
pub struct UnapplyMigrationOutput {
    pub rolled_back: String,
    pub active: Option<String>,
    pub errors: Vec<String>,
    pub warnings: Vec<String>,
}

/// Whether the migration is unapplied: always when the destructive-change
/// check found nothing; with warnings, only when force is unset or set.
pub fn should_unapply(has_warnings: bool, force: Option<bool>) -> (r: bool)
    ensures
        r == (!has_warnings || force is None || force == Some(true)),
{
    match (has_warnings, force) {
        (false, _) => true,
        (true, None) => true,
        (true, Some(f)) => f,
    }
}

/// The output when no migration is left to roll back: its one error
/// sentence is fixed here, not chosen by the caller.
pub fn output_no_candidate() -> (r: UnapplyMigrationOutput)
    ensures
        r.rolled_back@ == "not-applicable"@,
        r.active is None,
        r.errors@.len() == 1,
        r.errors@[0]@ == "There is no last migration that can be rolled back."@,
        r.warnings@ == Seq::<String>::empty(),
{
    let mut errors: Vec<String> = Vec::new();
    errors.push("There is no last migration that can be rolled back.".to_owned());
    UnapplyMigrationOutput {
        rolled_back: "not-applicable".to_owned(),
        active: None,
        errors,
        warnings: Vec::new(),
    }
}

/// The output after a rollback decision: the candidate's name, the newly
/// active migration and the warnings found, with no errors.
pub fn output_after_rollback(
    rolled_back: String,
    new_active: Option<String>,
    warnings: Vec<String>,
) -> (r: UnapplyMigrationOutput)
    ensures
        r.rolled_back == rolled_back,
        r.active == new_active,
        r.errors@ == Seq::<String>::empty(),
        r.warnings == warnings,
{
    UnapplyMigrationOutput { rolled_back, active: new_active, errors: Vec::new(), warnings }
}

} // verus!
