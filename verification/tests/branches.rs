use strata_poc::branches::{
    stored_xor_branch, stored_xor_branch_from_parameters, HypothesisBranch, TransformNode,
};
use strata_poc::ranges::ByteRange;
use strata_poc::session::{StoredBranchStatus, StoredRange};
use strata_poc::workbench::BranchStatus;

fn branch(parameters: &str) -> HypothesisBranch {
    HypothesisBranch {
        id: (7_u128 << 64) | 44,
        label: "XOR 0xa7".to_owned(),
        ranges: vec![ByteRange { start: 4, end: 12 }],
        nodes: vec![TransformNode {
            kind: "xor-byte".to_owned(),
            parameter_json: parameters.to_owned(),
        }],
        status: BranchStatus::Pinned,
    }
}

#[test]
fn explicit_xor_branches_are_stored() -> Result<(), String> {
    let stored = stored_xor_branch(&branch(r#"{"key": 167}"#))?;
    assert_eq!(stored.id, [7, 44]);
    assert_eq!(stored.label, "XOR 0xa7");
    assert_eq!(stored.range, StoredRange { start: 4, end: 12 });
    assert_eq!(stored.key, 0xa7);
    assert_eq!(stored.status, StoredBranchStatus::Pinned);
    Ok(())
}

#[test]
fn other_branches_and_parameters_are_refused() {
    let mut two_ranges = branch(r#"{"key": 1}"#);
    two_ranges.ranges.push(ByteRange { start: 20, end: 24 });
    assert_eq!(
        stored_xor_branch(&two_ranges).err(),
        Some("POC XOR branches must retain exactly one source range".to_owned())
    );
    let mut no_nodes = branch(r#"{"key": 1}"#);
    no_nodes.nodes.clear();
    assert_eq!(
        stored_xor_branch(&no_nodes).err(),
        Some("POC XOR branches must retain exactly one transform node".to_owned())
    );
    let mut other_kind = branch(r#"{"key": 1}"#);
    other_kind.nodes[0].kind = "add-byte".to_owned();
    assert_eq!(
        stored_xor_branch(&other_kind).err(),
        Some("the POC session only persists explicit XOR branches".to_owned())
    );
    let invalid = stored_xor_branch(&branch("{key")).err().unwrap_or_default();
    assert!(invalid.starts_with("invalid XOR branch parameters: "));
    assert!(invalid.len() > "invalid XOR branch parameters: ".len());
    for not_exact in ["[1]", "7", r#"{"key": 1, "extra": 2}"#, "{}"] {
        assert_eq!(
            stored_xor_branch(&branch(not_exact)).err(),
            Some("XOR branch parameters are not an exact key object".to_owned()),
            "{not_exact}"
        );
    }
    for out_of_domain in [r#"{"key": 256}"#, r#"{"key": -1}"#, r#"{"key": "a"}"#, r#"{"kei": 1}"#, r#"{"key": 1.5}"#] {
        assert_eq!(
            stored_xor_branch(&branch(out_of_domain)).err(),
            Some("XOR branch key is outside the byte domain".to_owned()),
            "{out_of_domain}"
        );
    }
}

#[test]
fn parsed_parameters_decide_the_key() {
    let base = branch("");
    let ok = stored_xor_branch_from_parameters(&base, Ok(Some(vec![("key".to_owned(), Some(255))])));
    assert_eq!(ok.map(|stored| stored.key), Ok(255));
    assert_eq!(
        stored_xor_branch_from_parameters(&base, Err("oops".to_owned())).err(),
        Some("invalid XOR branch parameters: oops".to_owned())
    );
    assert_eq!(
        stored_xor_branch_from_parameters(&base, Ok(None)).err(),
        Some("XOR branch parameters are not an exact key object".to_owned())
    );
}
