//! Hypothesis branches and their stored, source-free form. Only explicit
//! single-range XOR branches are persisted; their key travels as a JSON
//! object `{"key": n}` that is parsed with `serde_json`.

use vstd::prelude::*;

use crate::ranges::ByteRange;
use crate::session::{StoredBranchStatus, StoredRange, StoredXorBranch};
use crate::session_support::{split_u128, split_u128_spec};
use crate::text::{push_str, text_equals};
use crate::workbench::{stored_branch_status, stored_branch_status_spec, BranchStatus};

verus! {

/// One step of a branch's transform pipeline: its kind and its parameters
/// as JSON text.
#[derive(Clone, Debug)]
pub struct TransformNode {
    pub kind: String,
    pub parameter_json: String,
}

/// A hypothesis branch: an identified, labelled transform over exact
/// source ranges.
#[derive(Clone, Debug)]
pub struct HypothesisBranch {
    pub id: u128,
    pub label: String,
    pub ranges: Vec<ByteRange>,
    pub nodes: Vec<TransformNode>,
    pub status: BranchStatus,
}

/// What `serde_json::from_str::<serde_json::Value>` gives for the text,
/// read as plain values: the parse error's message; or, for an object, its
/// entries in the map's order, each as its key and the value's `as_u64`;
/// or nothing for a value of another type.
pub uninterp spec fn json_object_entries(text: Seq<char>) -> Result<
    Option<Seq<(Seq<char>, Option<u64>)>>,
    Seq<char>,
>;

/// Parsed parameters as plain values.
pub open spec fn parameters_view(parsed: Result<Option<Vec<(String, Option<u64>)>>, String>) -> Result<
    Option<Seq<(Seq<char>, Option<u64>)>>,
    Seq<char>,
> {
    match parsed {
        Err(message) => Err(message@),
        Ok(None) => Ok(None),
        Ok(Some(entries)) => Ok(Some(entries@.map_values(|e: (String, Option<u64>)| (e.0@, e.1)))),
    }
}

/// `serde_json::from_str` into a `serde_json::Value`, read as plain values:
/// the error's message, or an object's entries with each value read by
/// `Value::as_u64`, or nothing for another value. The contract names the
/// result; JSON's grammar stays in `serde_json`.
#[verifier::external_body]
fn parse_json_object(text: &str) -> (parsed: Result<Option<Vec<(String, Option<u64>)>>, String>)
    ensures
        parameters_view(parsed) == json_object_entries(text@),
{
    match serde_json::from_str::<serde_json::Value>(text) {
        Err(error) => Err(error.to_string()),
        Ok(value) => match value.as_object() {
            None => Ok(None),
            Some(object) => {
                let mut entries = Vec::new();
                for (key, entry) in object {
                    entries.push((key.clone(), entry.as_u64()));
                }
                Ok(Some(entries))
            },
        },
    }
}

/// A stored branch as (identifier halves, label, range, key, status).
pub open spec fn stored_branch_view(b: StoredXorBranch) -> ([u64; 2], Seq<char>, StoredRange, u8, StoredBranchStatus) {
    (b.id, b.label@, b.range, b.key, b.status)
}

/// What storing `branch` gives when its single node's parameters parsed as
/// `parsed`, checked in this order: one range, one node, an XOR node, JSON
/// that parses, an object with exactly one entry, and a `key` entry that is
/// a byte.
pub open spec fn stored_xor_branch_spec(
    branch: HypothesisBranch,
    parsed: Result<Option<Seq<(Seq<char>, Option<u64>)>>, Seq<char>>,
) -> Result<([u64; 2], Seq<char>, StoredRange, u8, StoredBranchStatus), Seq<char>> {
    if branch.ranges@.len() != 1 {
        Err("POC XOR branches must retain exactly one source range"@)
    } else if branch.nodes@.len() != 1 {
        Err("POC XOR branches must retain exactly one transform node"@)
    } else if branch.nodes@[0].kind@ != "xor-byte"@ {
        Err("the POC session only persists explicit XOR branches"@)
    } else {
        match parsed {
            Err(message) => Err("invalid XOR branch parameters: "@ + message),
            Ok(None) => Err("XOR branch parameters are not an exact key object"@),
            Ok(Some(entries)) => if entries.len() != 1 {
                Err("XOR branch parameters are not an exact key object"@)
            } else if entries[0].0 == "key"@ && entries[0].1 is Some && entries[0].1->0 <= 255 {
                let range = branch.ranges@[0];
                Ok(
                    (
                        split_u128_spec(branch.id),
                        branch.label@,
                        StoredRange { start: range.start, end: range.end },
                        entries[0].1->0 as u8,
                        stored_branch_status_spec(branch.status),
                    ),
                )
            } else {
                Err("XOR branch key is outside the byte domain"@)
            },
        }
    }
}

/// The outcome of storing a branch, as plain values.
pub open spec fn outcome_view(result: Result<StoredXorBranch, String>) -> Result<
    ([u64; 2], Seq<char>, StoredRange, u8, StoredBranchStatus),
    Seq<char>,
> {
    match result {
        Ok(stored) => Ok(stored_branch_view(stored)),
        Err(message) => Err(message@),
    }
}

/// Stores a branch whose node parameters have already been parsed.
pub fn stored_xor_branch_from_parameters(
    branch: &HypothesisBranch,
    parsed: Result<Option<Vec<(String, Option<u64>)>>, String>,
) -> (result: Result<StoredXorBranch, String>)
    ensures
        outcome_view(result) == stored_xor_branch_spec(*branch, parameters_view(parsed)),
{
    if branch.ranges.len() != 1 {
        return Err("POC XOR branches must retain exactly one source range".to_owned());
    }
    if branch.nodes.len() != 1 {
        return Err("POC XOR branches must retain exactly one transform node".to_owned());
    }
    if !text_equals(branch.nodes[0].kind.as_str(), "xor-byte") {
        return Err("the POC session only persists explicit XOR branches".to_owned());
    }
    let entries = match parsed {
        Err(error) => {
            let mut message = "invalid XOR branch parameters: ".to_owned();
            push_str(&mut message, error.as_str());
            return Err(message);
        },
        Ok(None) => return Err("XOR branch parameters are not an exact key object".to_owned()),
        Ok(Some(entries)) => entries,
    };
    if entries.len() != 1 {
        return Err("XOR branch parameters are not an exact key object".to_owned());
    }
    let key = if text_equals(entries[0].0.as_str(), "key") {
        match entries[0].1 {
            Some(value) => if value <= 255 {
                value as u8
            } else {
                return Err("XOR branch key is outside the byte domain".to_owned());
            },
            None => return Err("XOR branch key is outside the byte domain".to_owned()),
        }
    } else {
        return Err("XOR branch key is outside the byte domain".to_owned());
    };
    let range = branch.ranges[0];
    Ok(
        StoredXorBranch {
            id: split_u128(branch.id),
            label: branch.label.clone(),
            range: StoredRange { start: range.start, end: range.end },
            key,
            status: stored_branch_status(branch.status),
        },
    )
}

/// The stored form of an explicit single-range XOR branch, refused for any
/// other branch. The single node's parameters are parsed as JSON.
pub fn stored_xor_branch(branch: &HypothesisBranch) -> (result: Result<StoredXorBranch, String>)
    ensures
        branch.nodes@.len() == 1 ==> outcome_view(result) == stored_xor_branch_spec(
            *branch,
            json_object_entries(branch.nodes@[0].parameter_json@),
        ),
        branch.nodes@.len() != 1 ==> outcome_view(result) == stored_xor_branch_spec(
            *branch,
            Ok(None),
        ),
{
    if branch.ranges.len() != 1 || branch.nodes.len() != 1 || !text_equals(
        branch.nodes[0].kind.as_str(),
        "xor-byte",
    ) {
        return stored_xor_branch_from_parameters(branch, Ok(None));
    }
    let parsed = parse_json_object(branch.nodes[0].parameter_json.as_str());
    stored_xor_branch_from_parameters(branch, parsed)
}

} // verus!
