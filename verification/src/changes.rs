//! Naming what changed between the workspace as it stands and the workspace
//! saved in a session: the top-level keys whose values differ, and, where both
//! values are objects, the nested keys that differ, as `key.nested`.

use vstd::prelude::*;

use crate::text::{chars_of, push_str, text_equals};

verus! {

/// A member of a nested JSON object: its key and its value written as
/// canonical JSON text.
#[derive(Clone, Debug)]
pub struct JsonLeaf {
    pub key: String,
    pub text: String,
}

/// A member of a top-level JSON object: its key, its value written as
/// canonical JSON text and, where that value is an object, its members in
/// key order.
#[derive(Clone, Debug)]
pub struct JsonMember {
    pub key: String,
    pub text: String,
    pub members: Option<Vec<JsonLeaf>>,
}

/// Key order: characters compared one by one by code point, a proper prefix
/// first. On UTF-8 text this is the byte order in which JSON objects keep
/// their keys.
pub open spec fn key_lt(a: Seq<char>, b: Seq<char>) -> bool
    decreases a.len(),
{
    if b.len() == 0 {
        false
    } else if a.len() == 0 {
        true
    } else if a[0] != b[0] {
        a[0] < b[0]
    } else {
        key_lt(a.drop_first(), b.drop_first())
    }
}

/// The nested keys, in key order over both objects, whose values differ
/// (or that one object lacks), each written `prefix.key`.
pub open spec fn nested_changes(prefix: Seq<char>, current: Seq<JsonLeaf>, saved: Seq<JsonLeaf>) -> Seq<
    Seq<char>,
>
    decreases current.len() + saved.len(),
{
    if current.len() == 0 && saved.len() == 0 {
        Seq::empty()
    } else if saved.len() == 0 || (current.len() > 0 && key_lt(current[0].key@, saved[0].key@)) {
        seq![prefix + "."@ + current[0].key@] + nested_changes(prefix, current.drop_first(), saved)
    } else if current.len() == 0 || key_lt(saved[0].key@, current[0].key@) {
        seq![prefix + "."@ + saved[0].key@] + nested_changes(prefix, current, saved.drop_first())
    } else if current[0].text@ == saved[0].text@ {
        nested_changes(prefix, current.drop_first(), saved.drop_first())
    } else {
        seq![prefix + "."@ + current[0].key@] + nested_changes(
            prefix,
            current.drop_first(),
            saved.drop_first(),
        )
    }
}

/// What differs between two values held under one key: nothing when their
/// texts agree; the differing nested keys when both are objects; otherwise
/// the key itself.
pub open spec fn member_changes(current: JsonMember, saved: JsonMember) -> Seq<Seq<char>> {
    if current.text@ == saved.text@ {
        Seq::empty()
    } else {
        match (current.members, saved.members) {
            (Some(a), Some(b)) => nested_changes(current.key@, a@, b@),
            _ => seq![current.key@],
        }
    }
}

/// The changed keys of two top-level objects, in key order over both: a key
/// that only one object has is changed as a whole.
pub open spec fn workspace_changes(current: Seq<JsonMember>, saved: Seq<JsonMember>) -> Seq<
    Seq<char>,
>
    decreases current.len() + saved.len(),
{
    if current.len() == 0 && saved.len() == 0 {
        Seq::empty()
    } else if saved.len() == 0 || (current.len() > 0 && key_lt(current[0].key@, saved[0].key@)) {
        seq![current[0].key@] + workspace_changes(current.drop_first(), saved)
    } else if current.len() == 0 || key_lt(saved[0].key@, current[0].key@) {
        seq![saved[0].key@] + workspace_changes(current, saved.drop_first())
    } else {
        member_changes(current[0], saved[0]) + workspace_changes(
            current.drop_first(),
            saved.drop_first(),
        )
    }
}

proof fn lemma_key_lt_irreflexive(a: Seq<char>)
    ensures
        !key_lt(a, a),
    decreases a.len(),
{
    if a.len() > 0 {
        lemma_key_lt_irreflexive(a.drop_first());
    }
}

/// A workspace compared with itself has no changed keys: right after a save,
/// nothing is reported as changed.
pub proof fn lemma_identical_workspaces_have_no_changes(members: Seq<JsonMember>)
    ensures
        workspace_changes(members, members) == Seq::<Seq<char>>::empty(),
    decreases members.len(),
{
    if members.len() > 0 {
        lemma_key_lt_irreflexive(members[0].key@);
        lemma_identical_workspaces_have_no_changes(members.drop_first());
    }
}

proof fn lemma_key_lt_trichotomy(a: Seq<char>, b: Seq<char>)
    ensures
        !key_lt(a, b) && !key_lt(b, a) ==> a == b,
    decreases a.len(),
{
    if a.len() > 0 && b.len() > 0 && a[0] == b[0] {
        lemma_key_lt_trichotomy(a.drop_first(), b.drop_first());
        if !key_lt(a, b) && !key_lt(b, a) {
            assert(a =~= seq![a[0]] + a.drop_first());
            assert(b =~= seq![b[0]] + b.drop_first());
        }
    } else if a.len() > 0 && b.len() > 0 {
    } else if a.len() == 0 && b.len() == 0 {
        assert(a =~= b);
    }
}

proof fn lemma_key_lt_transitive(a: Seq<char>, b: Seq<char>, c: Seq<char>)
    requires
        key_lt(a, b),
        key_lt(b, c),
    ensures
        key_lt(a, c),
    decreases a.len(),
{
    if a.len() > 0 && a[0] == b[0] && b[0] == c[0] {
        lemma_key_lt_transitive(a.drop_first(), b.drop_first(), c.drop_first());
    }
}

/// The nested key `prefix.key`.
pub open spec fn dotted(prefix: Seq<char>, key: Seq<char>) -> Seq<char> {
    prefix + "."@ + key
}

/// Whether no leaf of `leaves` has the key `key`.
pub open spec fn leaf_key_absent(leaves: Seq<JsonLeaf>, key: Seq<char>) -> bool {
    forall|j: int| 0 <= j < leaves.len() ==> (#[trigger] leaves[j]).key@ != key
}

/// A nested key that only one of two objects has is always reported as
/// changed, as `prefix.key`, whichever side holds it.
pub proof fn lemma_one_sided_nested_keys_reported(
    prefix: Seq<char>,
    current: Seq<JsonLeaf>,
    saved: Seq<JsonLeaf>,
)
    ensures
        forall|i: int|
            0 <= i < current.len() && leaf_key_absent(saved, (#[trigger] current[i]).key@) ==> nested_changes(
                prefix,
                current,
                saved,
            ).contains(dotted(prefix, current[i].key@)),
        forall|i: int|
            0 <= i < saved.len() && leaf_key_absent(current, (#[trigger] saved[i]).key@) ==> nested_changes(
                prefix,
                current,
                saved,
            ).contains(dotted(prefix, saved[i].key@)),
    decreases current.len() + saved.len(),
{
    let out = nested_changes(prefix, current, saved);
    if current.len() == 0 && saved.len() == 0 {
    } else if saved.len() == 0 || (current.len() > 0 && key_lt(current[0].key@, saved[0].key@)) {
        let rest_c = current.drop_first();
        lemma_one_sided_nested_keys_reported(prefix, rest_c, saved);
        let rest = nested_changes(prefix, rest_c, saved);
        assert(out == seq![dotted(prefix, current[0].key@)] + rest);
        assert forall|i: int|
            0 <= i < current.len() && leaf_key_absent(saved, (#[trigger] current[i]).key@) implies out.contains(
            dotted(prefix, current[i].key@),
        ) by {
            if i == 0 {
                assert(out[0] == dotted(prefix, current[0].key@));
            } else {
                assert(rest_c[i - 1] == current[i]);
                let k = choose|k: int| 0 <= k < rest.len() && rest[k] == dotted(prefix, current[i].key@);
                assert(out[k + 1] == rest[k]);
            }
        }
        assert forall|i: int|
            0 <= i < saved.len() && leaf_key_absent(current, (#[trigger] saved[i]).key@) implies out.contains(
            dotted(prefix, saved[i].key@),
        ) by {
            assert forall|j: int| 0 <= j < rest_c.len() implies (#[trigger] rest_c[j]).key@
                != saved[i].key@ by {
                assert(rest_c[j] == current[j + 1]);
            }
            let k = choose|k: int| 0 <= k < rest.len() && rest[k] == dotted(prefix, saved[i].key@);
            assert(out[k + 1] == rest[k]);
        }
    } else if current.len() == 0 || key_lt(saved[0].key@, current[0].key@) {
        let rest_s = saved.drop_first();
        lemma_one_sided_nested_keys_reported(prefix, current, rest_s);
        let rest = nested_changes(prefix, current, rest_s);
        assert(out == seq![dotted(prefix, saved[0].key@)] + rest);
        assert forall|i: int|
            0 <= i < saved.len() && leaf_key_absent(current, (#[trigger] saved[i]).key@) implies out.contains(
            dotted(prefix, saved[i].key@),
        ) by {
            if i == 0 {
                assert(out[0] == dotted(prefix, saved[0].key@));
            } else {
                assert(rest_s[i - 1] == saved[i]);
                let k = choose|k: int| 0 <= k < rest.len() && rest[k] == dotted(prefix, saved[i].key@);
                assert(out[k + 1] == rest[k]);
            }
        }
        assert forall|i: int|
            0 <= i < current.len() && leaf_key_absent(saved, (#[trigger] current[i]).key@) implies out.contains(
            dotted(prefix, current[i].key@),
        ) by {
            assert forall|j: int| 0 <= j < rest_s.len() implies (#[trigger] rest_s[j]).key@
                != current[i].key@ by {
                assert(rest_s[j] == saved[j + 1]);
            }
            let k = choose|k: int| 0 <= k < rest.len() && rest[k] == dotted(prefix, current[i].key@);
            assert(out[k + 1] == rest[k]);
        }
    } else {
        lemma_key_lt_trichotomy(current[0].key@, saved[0].key@);
        let rest_c = current.drop_first();
        let rest_s = saved.drop_first();
        lemma_one_sided_nested_keys_reported(prefix, rest_c, rest_s);
        let rest = nested_changes(prefix, rest_c, rest_s);
        let head: Seq<Seq<char>> = if current[0].text@ == saved[0].text@ {
            Seq::empty()
        } else {
            seq![dotted(prefix, current[0].key@)]
        };
        assert(out == head + rest);
        assert forall|i: int|
            0 <= i < current.len() && leaf_key_absent(saved, (#[trigger] current[i]).key@) implies out.contains(
            dotted(prefix, current[i].key@),
        ) by {
            if i == 0 {
                assert(saved[0].key@ == current[0].key@);
            } else {
                assert(rest_c[i - 1] == current[i]);
                assert forall|j: int| 0 <= j < rest_s.len() implies (#[trigger] rest_s[j]).key@
                    != current[i].key@ by {
                    assert(rest_s[j] == saved[j + 1]);
                }
                let k = choose|k: int| 0 <= k < rest.len() && rest[k] == dotted(prefix, current[i].key@);
                assert(out[k + head.len()] == rest[k]);
            }
        }
        assert forall|i: int|
            0 <= i < saved.len() && leaf_key_absent(current, (#[trigger] saved[i]).key@) implies out.contains(
            dotted(prefix, saved[i].key@),
        ) by {
            if i == 0 {
                assert(saved[0].key@ == current[0].key@);
            } else {
                assert(rest_s[i - 1] == saved[i]);
                assert forall|j: int| 0 <= j < rest_c.len() implies (#[trigger] rest_c[j]).key@
                    != saved[i].key@ by {
                    assert(rest_c[j] == current[j + 1]);
                }
                let k = choose|k: int| 0 <= k < rest.len() && rest[k] == dotted(prefix, saved[i].key@);
                assert(out[k + head.len()] == rest[k]);
            }
        }
    }
}

/// Members in strictly ascending key order, as a JSON object keeps them.
pub open spec fn members_ascending(members: Seq<JsonMember>) -> bool {
    forall|a: int, b: int|
        0 <= a < b < members.len() ==> key_lt((#[trigger] members[a]).key@, (#[trigger] members[b]).key@)
}

/// Whether no member of `members` has the key `key`.
pub open spec fn member_key_absent(members: Seq<JsonMember>, key: Seq<char>) -> bool {
    forall|j: int| 0 <= j < members.len() ==> (#[trigger] members[j]).key@ != key
}

proof fn lemma_contains_shift(front: Seq<Seq<char>>, rest: Seq<Seq<char>>, x: Seq<char>)
    requires
        rest.contains(x),
    ensures
        (front + rest).contains(x),
{
    let k = choose|k: int| 0 <= k < rest.len() && rest[k] == x;
    assert((front + rest)[front.len() + k] == x);
}

/// A top-level key that only one workspace has is always reported as
/// changed, whichever side holds it.
pub proof fn lemma_one_sided_keys_reported(current: Seq<JsonMember>, saved: Seq<JsonMember>)
    ensures
        forall|i: int|
            0 <= i < current.len() && member_key_absent(saved, (#[trigger] current[i]).key@)
                ==> workspace_changes(current, saved).contains(current[i].key@),
        forall|i: int|
            0 <= i < saved.len() && member_key_absent(current, (#[trigger] saved[i]).key@)
                ==> workspace_changes(current, saved).contains(saved[i].key@),
    decreases current.len() + saved.len(),
{
    let out = workspace_changes(current, saved);
    if current.len() == 0 && saved.len() == 0 {
    } else if saved.len() == 0 || (current.len() > 0 && key_lt(current[0].key@, saved[0].key@)) {
        let rest_c = current.drop_first();
        lemma_one_sided_keys_reported(rest_c, saved);
        let rest = workspace_changes(rest_c, saved);
        let head = seq![current[0].key@];
        assert(out == head + rest);
        assert forall|i: int|
            0 <= i < current.len() && member_key_absent(saved, (#[trigger] current[i]).key@) implies out.contains(
            current[i].key@,
        ) by {
            if i == 0 {
                assert(out[0] == current[0].key@);
            } else {
                assert(rest_c[i - 1] == current[i]);
                lemma_contains_shift(head, rest, current[i].key@);
            }
        }
        assert forall|i: int|
            0 <= i < saved.len() && member_key_absent(current, (#[trigger] saved[i]).key@) implies out.contains(
            saved[i].key@,
        ) by {
            assert forall|j: int| 0 <= j < rest_c.len() implies (#[trigger] rest_c[j]).key@
                != saved[i].key@ by {
                assert(rest_c[j] == current[j + 1]);
            }
            lemma_contains_shift(head, rest, saved[i].key@);
        }
    } else if current.len() == 0 || key_lt(saved[0].key@, current[0].key@) {
        let rest_s = saved.drop_first();
        lemma_one_sided_keys_reported(current, rest_s);
        let rest = workspace_changes(current, rest_s);
        let head = seq![saved[0].key@];
        assert(out == head + rest);
        assert forall|i: int|
            0 <= i < saved.len() && member_key_absent(current, (#[trigger] saved[i]).key@) implies out.contains(
            saved[i].key@,
        ) by {
            if i == 0 {
                assert(out[0] == saved[0].key@);
            } else {
                assert(rest_s[i - 1] == saved[i]);
                lemma_contains_shift(head, rest, saved[i].key@);
            }
        }
        assert forall|i: int|
            0 <= i < current.len() && member_key_absent(saved, (#[trigger] current[i]).key@) implies out.contains(
            current[i].key@,
        ) by {
            assert forall|j: int| 0 <= j < rest_s.len() implies (#[trigger] rest_s[j]).key@
                != current[i].key@ by {
                assert(rest_s[j] == saved[j + 1]);
            }
            lemma_contains_shift(head, rest, current[i].key@);
        }
    } else {
        lemma_key_lt_trichotomy(current[0].key@, saved[0].key@);
        let rest_c = current.drop_first();
        let rest_s = saved.drop_first();
        lemma_one_sided_keys_reported(rest_c, rest_s);
        let rest = workspace_changes(rest_c, rest_s);
        let head = member_changes(current[0], saved[0]);
        assert(out == head + rest);
        assert forall|i: int|
            0 <= i < current.len() && member_key_absent(saved, (#[trigger] current[i]).key@) implies out.contains(
            current[i].key@,
        ) by {
            if i == 0 {
                assert(saved[0].key@ == current[0].key@);
            } else {
                assert(rest_c[i - 1] == current[i]);
                assert forall|j: int| 0 <= j < rest_s.len() implies (#[trigger] rest_s[j]).key@
                    != current[i].key@ by {
                    assert(rest_s[j] == saved[j + 1]);
                }
                lemma_contains_shift(head, rest, current[i].key@);
            }
        }
        assert forall|i: int|
            0 <= i < saved.len() && member_key_absent(current, (#[trigger] saved[i]).key@) implies out.contains(
            saved[i].key@,
        ) by {
            if i == 0 {
                assert(saved[0].key@ == current[0].key@);
            } else {
                assert(rest_s[i - 1] == saved[i]);
                assert forall|j: int| 0 <= j < rest_c.len() implies (#[trigger] rest_c[j]).key@
                    != saved[i].key@ by {
                    assert(rest_c[j] == current[j + 1]);
                }
                lemma_contains_shift(head, rest, saved[i].key@);
            }
        }
    }
}

proof fn lemma_member_changes_included(current: Seq<JsonMember>, saved: Seq<JsonMember>, i: int, j: int)
    requires
        members_ascending(current),
        members_ascending(saved),
        0 <= i < current.len(),
        0 <= j < saved.len(),
        current[i].key@ == saved[j].key@,
    ensures
        forall|k: int|
            0 <= k < member_changes(current[i], saved[j]).len() ==> workspace_changes(
                current,
                saved,
            ).contains(#[trigger] member_changes(current[i], saved[j])[k]),
    decreases current.len() + saved.len(),
{
    let out = workspace_changes(current, saved);
    let target = member_changes(current[i], saved[j]);
    let rest_c = current.drop_first();
    let rest_s = saved.drop_first();
    assert(members_ascending(rest_c)) by {
        assert forall|a: int, b: int| 0 <= a < b < rest_c.len() implies key_lt(
            (#[trigger] rest_c[a]).key@,
            (#[trigger] rest_c[b]).key@,
        ) by {
            assert(rest_c[a] == current[a + 1] && rest_c[b] == current[b + 1]);
        }
    }
    assert(members_ascending(rest_s)) by {
        assert forall|a: int, b: int| 0 <= a < b < rest_s.len() implies key_lt(
            (#[trigger] rest_s[a]).key@,
            (#[trigger] rest_s[b]).key@,
        ) by {
            assert(rest_s[a] == saved[a + 1] && rest_s[b] == saved[b + 1]);
        }
    }
    if key_lt(current[0].key@, saved[0].key@) {
        if i == 0 {
            if j == 0 {
                lemma_key_lt_irreflexive(current[0].key@);
            } else {
                assert(key_lt(saved[0].key@, saved[j].key@));
                lemma_key_lt_transitive(current[0].key@, saved[0].key@, saved[j].key@);
                lemma_key_lt_irreflexive(current[0].key@);
            }
        } else {
            assert(rest_c[i - 1] == current[i]);
            lemma_member_changes_included(rest_c, saved, i - 1, j);
            assert(out == seq![current[0].key@] + workspace_changes(rest_c, saved));
            assert forall|k: int| 0 <= k < target.len() implies out.contains(#[trigger] target[k]) by {
                lemma_contains_shift(seq![current[0].key@], workspace_changes(rest_c, saved), target[k]);
            }
        }
    } else if key_lt(saved[0].key@, current[0].key@) {
        if j == 0 {
            if i == 0 {
                lemma_key_lt_irreflexive(saved[0].key@);
            } else {
                assert(key_lt(current[0].key@, current[i].key@));
                lemma_key_lt_transitive(saved[0].key@, current[0].key@, current[i].key@);
                lemma_key_lt_irreflexive(saved[0].key@);
            }
        } else {
            assert(rest_s[j - 1] == saved[j]);
            lemma_member_changes_included(current, rest_s, i, j - 1);
            assert(out == seq![saved[0].key@] + workspace_changes(current, rest_s));
            assert forall|k: int| 0 <= k < target.len() implies out.contains(#[trigger] target[k]) by {
                lemma_contains_shift(seq![saved[0].key@], workspace_changes(current, rest_s), target[k]);
            }
        }
    } else {
        lemma_key_lt_trichotomy(current[0].key@, saved[0].key@);
        let head = member_changes(current[0], saved[0]);
        let rest = workspace_changes(rest_c, rest_s);
        assert(out == head + rest);
        if i == 0 && j == 0 {
            assert forall|k: int| 0 <= k < target.len() implies out.contains(#[trigger] target[k]) by {
                assert(out[k] == head[k]);
            }
        } else if i == 0 {
            assert(key_lt(saved[0].key@, saved[j].key@));
            lemma_key_lt_irreflexive(saved[0].key@);
        } else if j == 0 {
            assert(key_lt(current[0].key@, current[i].key@));
            lemma_key_lt_irreflexive(current[0].key@);
        } else {
            assert(rest_c[i - 1] == current[i]);
            assert(rest_s[j - 1] == saved[j]);
            lemma_member_changes_included(rest_c, rest_s, i - 1, j - 1);
            assert forall|k: int| 0 <= k < target.len() implies out.contains(#[trigger] target[k]) by {
                lemma_contains_shift(head, rest, target[k]);
            }
        }
    }
}

/// When the values under one key of two workspaces (each in key order)
/// differ and both are objects, every nested key that only one of them has
/// is reported as `key.nested`.
pub proof fn lemma_one_sided_nested_keys_in_changed_keys(
    current: Seq<JsonMember>,
    saved: Seq<JsonMember>,
    i: int,
    j: int,
)
    requires
        members_ascending(current),
        members_ascending(saved),
        0 <= i < current.len(),
        0 <= j < saved.len(),
        current[i].key@ == saved[j].key@,
        current[i].text@ != saved[j].text@,
        current[i].members is Some,
        saved[j].members is Some,
    ensures
        ({
            let key = current[i].key@;
            let a = current[i].members->0@;
            let b = saved[j].members->0@;
            &&& forall|x: int|
                0 <= x < a.len() && leaf_key_absent(b, (#[trigger] a[x]).key@) ==> workspace_changes(
                    current,
                    saved,
                ).contains(dotted(key, a[x].key@))
            &&& forall|x: int|
                0 <= x < b.len() && leaf_key_absent(a, (#[trigger] b[x]).key@) ==> workspace_changes(
                    current,
                    saved,
                ).contains(dotted(key, b[x].key@))
        }),
{
    let key = current[i].key@;
    let a = current[i].members->0@;
    let b = saved[j].members->0@;
    lemma_member_changes_included(current, saved, i, j);
    lemma_one_sided_nested_keys_reported(key, a, b);
    let nested = nested_changes(key, a, b);
    assert(member_changes(current[i], saved[j]) == nested);
    assert forall|x: int| 0 <= x < a.len() && leaf_key_absent(b, (#[trigger] a[x]).key@) implies workspace_changes(
        current,
        saved,
    ).contains(dotted(key, a[x].key@)) by {
        let k = choose|k: int| 0 <= k < nested.len() && nested[k] == dotted(key, a[x].key@);
        assert(workspace_changes(current, saved).contains(nested[k]));
    }
    assert forall|x: int| 0 <= x < b.len() && leaf_key_absent(a, (#[trigger] b[x]).key@) implies workspace_changes(
        current,
        saved,
    ).contains(dotted(key, b[x].key@)) by {
        let k = choose|k: int| 0 <= k < nested.len() && nested[k] == dotted(key, b[x].key@);
        assert(workspace_changes(current, saved).contains(nested[k]));
    }
}

/// Two objects' members agree one by one: same keys, same texts, in order.
pub open spec fn leaves_agree(a: Seq<JsonLeaf>, b: Seq<JsonLeaf>) -> bool {
    a.len() == b.len() && forall|k: int|
        0 <= k < a.len() ==> (#[trigger] a[k]).key@ == b[k].key@ && a[k].text@ == b[k].text@
}

proof fn lemma_no_nested_changes_means_agreement(prefix: Seq<char>, a: Seq<JsonLeaf>, b: Seq<JsonLeaf>)
    ensures
        nested_changes(prefix, a, b).len() == 0 ==> leaves_agree(a, b),
    decreases a.len() + b.len(),
{
    if a.len() == 0 && b.len() == 0 {
    } else if b.len() == 0 || (a.len() > 0 && key_lt(a[0].key@, b[0].key@)) {
    } else if a.len() == 0 || key_lt(b[0].key@, a[0].key@) {
    } else {
        lemma_key_lt_trichotomy(a[0].key@, b[0].key@);
        let ra = a.drop_first();
        let rb = b.drop_first();
        lemma_no_nested_changes_means_agreement(prefix, ra, rb);
        if nested_changes(prefix, a, b).len() == 0 {
            assert(a[0].text@ == b[0].text@);
            assert forall|k: int| 0 <= k < a.len() implies (#[trigger] a[k]).key@ == b[k].key@
                && a[k].text@ == b[k].text@ by {
                if k > 0 {
                    assert(a[k] == ra[k - 1] && b[k] == rb[k - 1]);
                }
            }
        }
    }
}

/// The changed keys are empty only when the two workspaces agree key by key:
/// the same keys in the same order, and under each key the same text, or two
/// objects whose members agree one by one.
pub proof fn lemma_no_changes_means_agreement(current: Seq<JsonMember>, saved: Seq<JsonMember>)
    ensures
        workspace_changes(current, saved).len() == 0 ==> current.len() == saved.len() && forall|i: int|
            0 <= i < current.len() ==> (#[trigger] current[i]).key@ == saved[i].key@ && (
            current[i].text@ == saved[i].text@ || (current[i].members is Some && saved[i].members is Some
                && leaves_agree(current[i].members->0@, saved[i].members->0@))),
    decreases current.len() + saved.len(),
{
    if current.len() == 0 && saved.len() == 0 {
    } else if saved.len() == 0 || (current.len() > 0 && key_lt(current[0].key@, saved[0].key@)) {
    } else if current.len() == 0 || key_lt(saved[0].key@, current[0].key@) {
    } else {
        lemma_key_lt_trichotomy(current[0].key@, saved[0].key@);
        let rc = current.drop_first();
        let rs = saved.drop_first();
        lemma_no_changes_means_agreement(rc, rs);
        let head = member_changes(current[0], saved[0]);
        assert(workspace_changes(current, saved) == head + workspace_changes(rc, rs));
        if workspace_changes(current, saved).len() == 0 {
            assert(head.len() == 0);
            if current[0].text@ != saved[0].text@ {
                if current[0].members is Some && saved[0].members is Some {
                    lemma_no_nested_changes_means_agreement(
                        current[0].key@,
                        current[0].members->0@,
                        saved[0].members->0@,
                    );
                }
            }
            assert forall|i: int| 0 <= i < current.len() implies (#[trigger] current[i]).key@
                == saved[i].key@ && (current[i].text@ == saved[i].text@ || (current[i].members is Some
                && saved[i].members is Some && leaves_agree(
                current[i].members->0@,
                saved[i].members->0@,
            ))) by {
                if i > 0 {
                    assert(current[i] == rc[i - 1] && saved[i] == rs[i - 1]);
                }
            }
        }
    }
}

/// The views of a list of strings.
pub open spec fn texts_of(values: Seq<String>) -> Seq<Seq<char>> {
    values.map_values(|value: String| value@)
}

/// Whether key `a` comes before key `b`.
pub fn key_precedes(a: &str, b: &str) -> (lt: bool)
    ensures
        lt == key_lt(a@, b@),
{
    let x = chars_of(a);
    let y = chars_of(b);
    let mut k: usize = 0;
    assert(a@.skip(0) =~= a@ && b@.skip(0) =~= b@);
    while k < x.len() && k < y.len()
        invariant
            x@ == a@,
            y@ == b@,
            k <= x.len(),
            k <= y.len(),
            key_lt(a@, b@) == key_lt(a@.skip(k as int), b@.skip(k as int)),
        decreases x.len() - k,
    {
        assert(a@.skip(k as int).drop_first() =~= a@.skip(k + 1));
        assert(b@.skip(k as int).drop_first() =~= b@.skip(k + 1));
        if x[k] != y[k] {
            return x[k] < y[k];
        }
        k = k + 1;
    }
    k < y.len()
}

/// Appends `prefix.key` to `out`.
fn push_dotted(out: &mut Vec<String>, prefix: &str, key: &str)
    ensures
        texts_of(final(out)@) == texts_of(old(out)@).push(prefix@ + "."@ + key@),
{
    let mut name = prefix.to_owned();
    push_str(&mut name, ".");
    push_str(&mut name, key);
    out.push(name);
    proof {
        assert(texts_of(final(out)@) =~= texts_of(old(out)@).push(prefix@ + "."@ + key@));
    }
}

/// Appends the nested keys that differ between two objects to `out`.
fn push_nested_changes(out: &mut Vec<String>, prefix: &str, current: &Vec<JsonLeaf>, saved: &Vec<JsonLeaf>)
    ensures
        texts_of(final(out)@) == texts_of(old(out)@) + nested_changes(prefix@, current@, saved@),
{
    let mut i: usize = 0;
    let mut j: usize = 0;
    assert(current@.skip(0) =~= current@ && saved@.skip(0) =~= saved@);
    assert(texts_of(out@) + nested_changes(prefix@, current@, saved@) == texts_of(old(out)@)
        + nested_changes(prefix@, current@, saved@));
    while i < current.len() || j < saved.len()
        invariant
            i <= current.len(),
            j <= saved.len(),
            texts_of(out@) + nested_changes(prefix@, current@.skip(i as int), saved@.skip(j as int))
                == texts_of(old(out)@) + nested_changes(prefix@, current@, saved@),
        decreases current.len() + saved.len() - i - j,
    {
        let ghost c = current@.skip(i as int);
        let ghost s = saved@.skip(j as int);
        proof {
            assert(c.len() > 0 ==> c[0] == current@[i as int] && c.drop_first() =~= current@.skip(i + 1));
            assert(s.len() > 0 ==> s[0] == saved@[j as int] && s.drop_first() =~= saved@.skip(j + 1));
        }
        let take_current = if j == saved.len() {
            true
        } else if i < current.len() {
            key_precedes(current[i].key.as_str(), saved[j].key.as_str())
        } else {
            false
        };
        if take_current {
            push_dotted(out, prefix, current[i].key.as_str());
            proof {
                assert(texts_of(out@) + nested_changes(prefix@, current@.skip(i + 1), s) =~= texts_of(
                    old(out)@,
                ) + nested_changes(prefix@, current@, saved@));
            }
            i = i + 1;
        } else {
            let take_saved = if i == current.len() {
                true
            } else {
                key_precedes(saved[j].key.as_str(), current[i].key.as_str())
            };
            if take_saved {
                push_dotted(out, prefix, saved[j].key.as_str());
                proof {
                    assert(texts_of(out@) + nested_changes(prefix@, c, saved@.skip(j + 1)) =~= texts_of(
                        old(out)@,
                    ) + nested_changes(prefix@, current@, saved@));
                }
                j = j + 1;
            } else {
                if !text_equals(current[i].text.as_str(), saved[j].text.as_str()) {
                    push_dotted(out, prefix, current[i].key.as_str());
                }
                proof {
                    assert(texts_of(out@) + nested_changes(prefix@, current@.skip(i + 1), saved@.skip(j + 1))
                        =~= texts_of(old(out)@) + nested_changes(prefix@, current@, saved@));
                }
                i = i + 1;
                j = j + 1;
            }
        }
    }
    proof {
        assert(current@.skip(i as int).len() == 0 && saved@.skip(j as int).len() == 0);
        assert(texts_of(out@) + Seq::<Seq<char>>::empty() =~= texts_of(out@));
    }
}

/// Appends what differs under one key to `out`.
fn push_member_changes(out: &mut Vec<String>, current: &JsonMember, saved: &JsonMember)
    ensures
        texts_of(final(out)@) == texts_of(old(out)@) + member_changes(*current, *saved),
{
    if text_equals(current.text.as_str(), saved.text.as_str()) {
        assert(texts_of(out@) + Seq::<Seq<char>>::empty() =~= texts_of(out@));
        return;
    }
    match (&current.members, &saved.members) {
        (Some(a), Some(b)) => push_nested_changes(out, current.key.as_str(), a, b),
        _ => {
            out.push(current.key.clone());
            assert(texts_of(out@) =~= texts_of(old(out)@) + seq![current.key@]);
        },
    }
}

/// The keys that differ between the current workspace object and the saved
/// one, both given as members in key order: top-level keys whose values
/// differ or that one side lacks, and, where both values are objects, the
/// differing nested keys as `key.nested`.
pub fn session_changed_keys(current: &Vec<JsonMember>, saved: &Vec<JsonMember>) -> (keys: Vec<String>)
    ensures
        texts_of(keys@) == workspace_changes(current@, saved@),
{
    let mut out: Vec<String> = Vec::new();
    let mut i: usize = 0;
    let mut j: usize = 0;
    assert(current@.skip(0) =~= current@ && saved@.skip(0) =~= saved@);
    assert(texts_of(out@) + workspace_changes(current@, saved@) =~= workspace_changes(current@, saved@));
    while i < current.len() || j < saved.len()
        invariant
            i <= current.len(),
            j <= saved.len(),
            texts_of(out@) + workspace_changes(current@.skip(i as int), saved@.skip(j as int))
                == workspace_changes(current@, saved@),
        decreases current.len() + saved.len() - i - j,
    {
        let ghost c = current@.skip(i as int);
        let ghost s = saved@.skip(j as int);
        proof {
            assert(c.len() > 0 ==> c[0] == current@[i as int] && c.drop_first() =~= current@.skip(i + 1));
            assert(s.len() > 0 ==> s[0] == saved@[j as int] && s.drop_first() =~= saved@.skip(j + 1));
        }
        let take_current = if j == saved.len() {
            true
        } else if i < current.len() {
            key_precedes(current[i].key.as_str(), saved[j].key.as_str())
        } else {
            false
        };
        if take_current {
            out.push(current[i].key.clone());
            proof {
                assert(texts_of(out@) + workspace_changes(current@.skip(i + 1), s) =~= workspace_changes(
                    current@,
                    saved@,
                ));
            }
            i = i + 1;
        } else {
            let take_saved = if i == current.len() {
                true
            } else {
                key_precedes(saved[j].key.as_str(), current[i].key.as_str())
            };
            if take_saved {
                out.push(saved[j].key.clone());
                proof {
                    assert(texts_of(out@) + workspace_changes(c, saved@.skip(j + 1)) =~= workspace_changes(
                        current@,
                        saved@,
                    ));
                }
                j = j + 1;
            } else {
                push_member_changes(&mut out, &current[i], &saved[j]);
                proof {
                    assert(texts_of(out@) + workspace_changes(current@.skip(i + 1), saved@.skip(j + 1))
                        =~= workspace_changes(current@, saved@));
                }
                i = i + 1;
                j = j + 1;
            }
        }
    }
    proof {
        assert(texts_of(out@) + Seq::<Seq<char>>::empty() =~= texts_of(out@));
    }
    out
}

} // verus!
