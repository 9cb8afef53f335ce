//! Checking that a session journal holds only source-free workspace
//! checkpoints, each valid for the session's source, the last of which is
//! the workspace its manifest records.

use vstd::prelude::*;

use crate::snapshot::{snapshot_fault, FloatControlChecks, PocWorkspaceSnapshot};
use crate::text::{decimal_digits, push_decimal, push_str};

verus! {

/// A workspace checkpoint as it was read back from a journal: the snapshot,
/// or why it could not be decoded; the verdicts on its floating-point
/// controls; and whether it equals the workspace recorded in the manifest.
#[derive(Debug)]
pub struct WorkspaceCheckpoint {
    pub snapshot: Result<PocWorkspaceSnapshot, String>,
    pub checks: FloatControlChecks,
    pub matches_manifest: bool,
}

/// What a journal entry records.
#[derive(Debug)]
pub enum JournalEntryEvent {
    WorkspaceChanged(WorkspaceCheckpoint),
    /// Any event other than a workspace checkpoint.
    Other,
}

/// One entry of a session journal.
#[derive(Debug)]
pub struct SessionJournalEntry {
    pub sequence: u64,
    pub event: JournalEntryEvent,
}

/// Why one entry breaks the source-free workspace contract, if it does.
pub open spec fn entry_fault(entry: SessionJournalEntry, source_length: u64) -> Option<Seq<char>> {
    match entry.event {
        JournalEntryEvent::Other => Some(
            "POC session event #"@ + decimal_digits(entry.sequence as nat)
                + " is outside the source-free workspace contract"@,
        ),
        JournalEntryEvent::WorkspaceChanged(checkpoint) => match checkpoint.snapshot {
            Err(error) => Some(
                "invalid source-free workspace event #"@ + decimal_digits(entry.sequence as nat)
                    + ": "@ + error@,
            ),
            Ok(snapshot) => snapshot_fault(snapshot, source_length, checkpoint.checks),
        },
    }
}

/// The fault of the first entry, in journal order, that has one.
pub open spec fn first_entry_fault(entries: Seq<SessionJournalEntry>, source_length: u64) -> Option<
    Seq<char>,
>
    decreases entries.len(),
{
    if entries.len() == 0 {
        None
    } else {
        match first_entry_fault(entries.drop_last(), source_length) {
            Some(message) => Some(message),
            None => entry_fault(entries.last(), source_length),
        }
    }
}

/// The verdict on a whole journal: the first entry fault; otherwise a
/// journal without checkpoints; otherwise a last checkpoint that differs
/// from the manifest's workspace.
pub open spec fn journal_fault(entries: Seq<SessionJournalEntry>, source_length: u64) -> Option<
    Seq<char>,
> {
    if first_entry_fault(entries, source_length) is Some {
        first_entry_fault(entries, source_length)
    } else if entries.len() == 0 {
        Some("session journal has no workspace checkpoint"@)
    } else {
        match entries.last().event {
            JournalEntryEvent::WorkspaceChanged(checkpoint) => if checkpoint.matches_manifest {
                None
            } else {
                Some("session manifest does not match its final workspace event"@)
            },
            JournalEntryEvent::Other => None,
        }
    }
}

proof fn lemma_first_fault_persists(entries: Seq<SessionJournalEntry>, source_length: u64, n: int)
    requires
        0 <= n <= entries.len(),
        first_entry_fault(entries.take(n), source_length) is Some,
    ensures
        first_entry_fault(entries, source_length) == first_entry_fault(entries.take(n), source_length),
    decreases entries.len() - n,
{
    if n < entries.len() {
        assert(entries.take(n + 1).drop_last() =~= entries.take(n));
        lemma_first_fault_persists(entries, source_length, n + 1);
    } else {
        assert(entries.take(n) =~= entries);
    }
}

/// Checks every journal entry in order, then that a last workspace
/// checkpoint exists and equals the manifest's workspace.
pub fn validate_bundle_workspace_event(entries: &[SessionJournalEntry], source_length: u64) -> (result:
    Result<(), String>)
    ensures
        result is Ok <==> journal_fault(entries@, source_length) is None,
        result matches Err(message) ==> journal_fault(entries@, source_length) == Some(message@),
{
    let mut index: usize = 0;
    while index < entries.len()
        invariant
            index <= entries.len(),
            first_entry_fault(entries@.take(index as int), source_length) is None,
        decreases entries.len() - index,
    {
        let entry = &entries[index];
        proof {
            assert(entries@.take(index + 1).drop_last() =~= entries@.take(index as int));
            assert(entries@.take(index + 1).last() == *entry);
        }
        match &entry.event {
            JournalEntryEvent::Other => {
                let mut message = "POC session event #".to_owned();
                push_decimal(&mut message, entry.sequence);
                push_str(&mut message, " is outside the source-free workspace contract");
                proof {
                    lemma_first_fault_persists(entries@, source_length, index + 1);
                }
                return Err(message);
            },
            JournalEntryEvent::WorkspaceChanged(checkpoint) => match &checkpoint.snapshot {
                Err(error) => {
                    let mut message = "invalid source-free workspace event #".to_owned();
                    push_decimal(&mut message, entry.sequence);
                    push_str(&mut message, ": ");
                    push_str(&mut message, error.as_str());
                    proof {
                        lemma_first_fault_persists(entries@, source_length, index + 1);
                    }
                    return Err(message);
                },
                Ok(snapshot) => match snapshot.validate(source_length, checkpoint.checks) {
                    Ok(()) => {},
                    Err(message) => {
                        proof {
                            lemma_first_fault_persists(entries@, source_length, index + 1);
                        }
                        return Err(message);
                    },
                },
            },
        }
        index = index + 1;
    }
    proof {
        assert(entries@.take(entries.len() as int) =~= entries@);
    }
    if entries.len() == 0 {
        return Err("session journal has no workspace checkpoint".to_owned());
    }
    match &entries[entries.len() - 1].event {
        JournalEntryEvent::WorkspaceChanged(checkpoint) => {
            if !checkpoint.matches_manifest {
                return Err("session manifest does not match its final workspace event".to_owned());
            }
        },
        JournalEntryEvent::Other => {},
    }
    Ok(())
}

} // verus!
