//! The statements that configure the store's journal.

use crate::text::{decimal, decimal_text, same_text, to_uppercase, uppercase};
use vstd::prelude::*;
use vstd::string::*;

verus! {

/// Whether an upper-case word names a checkpoint mode.
pub open spec fn is_checkpoint_mode(upper: Seq<char>) -> bool {
    upper == "PASSIVE"@ || upper == "FULL"@ || upper == "RESTART"@ || upper == "TRUNCATE"@
}

/// The statement that runs a checkpoint in the mode `upper`.
pub open spec fn checkpoint_text(upper: Seq<char>) -> Seq<char> {
    "PRAGMA wal_checkpoint("@ + upper + ")"@
}

/// The message with which a checkpoint mode is refused.
pub open spec fn invalid_mode_text(mode: Seq<char>) -> Seq<char> {
    "Invalid checkpoint mode: "@ + mode
        + ". Valid modes are: [\"PASSIVE\", \"FULL\", \"RESTART\", \"TRUNCATE\"]"@
}

/// Whether `upper` names a checkpoint mode, letter for letter.
pub fn checkpoint_mode_named(upper: &str) -> (r: bool)
    ensures
        r == is_checkpoint_mode(upper@),
{
    same_text(upper, "PASSIVE") || same_text(upper, "FULL") || same_text(upper, "RESTART")
        || same_text(upper, "TRUNCATE")
}

/// The statement for a checkpoint of the journal in the given mode, written
/// in any case; another word is refused.
pub fn checkpoint_statement(mode: &str) -> (r: Result<String, String>)
    ensures
        match r {
            Ok(statement) => is_checkpoint_mode(uppercase(mode@)) && statement@
                == checkpoint_text(uppercase(mode@)),
            Err(e) => !is_checkpoint_mode(uppercase(mode@)) && e@ == invalid_mode_text(mode@),
        },
{
    let upper = to_uppercase(mode);
    if !checkpoint_mode_named(upper.as_str()) {
        let mut message = "Invalid checkpoint mode: ".to_owned();
        message.append(mode);
        message.append(". Valid modes are: [\"PASSIVE\", \"FULL\", \"RESTART\", \"TRUNCATE\"]");
        return Err(message);
    }
    let mut statement = "PRAGMA wal_checkpoint(".to_owned();
    statement.append(upper.as_str());
    statement.append(")");
    Ok(statement)
}

/// The statements that a new connection runs: with the journal enabled, its
/// mode, the pages between automatic checkpoints, and normal syncing; without
/// it, none.
pub open spec fn pragmas_for(wal: bool, wal_autocheckpoint: i32) -> Seq<Seq<char>> {
    if wal {
        seq![
            "PRAGMA journal_mode = WAL"@,
            "PRAGMA wal_autocheckpoint = "@ + decimal(wal_autocheckpoint as int),
            "PRAGMA synchronous = NORMAL"@,
        ]
    } else {
        Seq::empty()
    }
}

/// The text of each statement of a list.
pub open spec fn statement_texts(statements: Seq<String>) -> Seq<Seq<char>> {
    statements.map_values(|s: String| s@)
}

/// The statements that a new connection runs, in order.
pub fn connection_pragmas(wal: bool, wal_autocheckpoint: i32) -> (r: Vec<String>)
    ensures
        statement_texts(r@) == pragmas_for(wal, wal_autocheckpoint),
{
    let mut out: Vec<String> = Vec::new();
    if wal {
        out.push("PRAGMA journal_mode = WAL".to_owned());
        let mut pages = "PRAGMA wal_autocheckpoint = ".to_owned();
        let number = decimal_text(wal_autocheckpoint as i64);
        pages.append(number.as_str());
        out.push(pages);
        out.push("PRAGMA synchronous = NORMAL".to_owned());
    }
    assert(statement_texts(out@) =~= pragmas_for(wal, wal_autocheckpoint));
    out
}

} // verus!
