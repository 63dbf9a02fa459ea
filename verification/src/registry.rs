//! The shared user registry: the signed-in user names, inserted on
//! authentication and removed on disconnect.  The surrounding application
//! holds it behind its connection lock; the operations and their law live
//! here.

use vstd::prelude::*;

verus! {

use crate::strutil::string_eq;

/// How often `name` stands in the registry.
pub open spec fn user_count(users: Seq<Seq<char>>, name: Seq<char>) -> nat
    decreases users.len(),
{
    if users.len() == 0 {
        0
    } else {
        user_count(users.drop_last(), name) + (if users.last() == name {
            1nat
        } else {
            0nat
        })
    }
}

/// The registry without any entry equal to `name`.
pub open spec fn remove_user_spec(users: Seq<Seq<char>>, name: Seq<char>) -> Seq<Seq<char>>
    decreases users.len(),
{
    if users.len() == 0 {
        Seq::empty()
    } else {
        remove_user_spec(users.drop_last(), name) + (if users.last() == name {
            Seq::<Seq<char>>::empty()
        } else {
            seq![users.last()]
        })
    }
}

/// Signs a user in: the name is appended to the registry.
pub fn registry_insert(users: &mut Vec<String>, name: String)
    ensures
        final(users).deep_view() == old(users).deep_view().push(name@),
{
    let ghost pre = users.deep_view();
    let ghost nv = name@;
    users.push(name);
    proof {
        assert(users.deep_view() =~= pre.push(nv));
    }
}

/// Signs a user out: every entry equal to the name leaves the registry.
#[verifier::loop_isolation(false)]
pub fn registry_remove(users: &mut Vec<String>, name: &str)
    ensures
        final(users).deep_view() == remove_user_spec(old(users).deep_view(), name@),
{
    let ghost uv = users.deep_view();
    let mut kept: Vec<String> = Vec::new();
    let mut i: usize = 0;
    proof {
        assert(uv.take(0) =~= Seq::<Seq<char>>::empty());
        assert(kept.deep_view() =~= remove_user_spec(uv.take(0), name@));
    }
    while i < users.len()
        invariant
            i <= users.len(),
            users.deep_view() == uv,
            kept.deep_view() == remove_user_spec(uv.take(i as int), name@),
        decreases users.len() - i,
    {
        proof {
            assert(uv.take(i + 1).drop_last() =~= uv.take(i as int));
            assert(uv.take(i + 1).last() == uv[i as int]);
        }
        let ghost pre = kept.deep_view();
        if !string_eq(&users[i], name) {
            kept.push(users[i].clone());
            proof {
                assert(kept.deep_view() =~= pre + seq![uv[i as int]]);
            }
        } else {
            proof {
                assert(pre + Seq::<Seq<char>>::empty() =~= pre);
            }
        }
        i += 1;
    }
    proof {
        assert(uv.take(users.len() as int) =~= uv);
    }
    *users = kept;
}

/// A name no entry equals is counted zero times.
pub proof fn lemma_count_zero(users: Seq<Seq<char>>, name: Seq<char>)
    requires
        forall|i: int| 0 <= i < users.len() ==> users[i] != name,
    ensures
        user_count(users, name) == 0,
    decreases users.len(),
{
    if users.len() > 0 {
        lemma_count_zero(users.drop_last(), name);
    }
}

proof fn lemma_remove_counts(users: Seq<Seq<char>>, name: Seq<char>, other: Seq<char>)
    ensures
        name != other ==> user_count(remove_user_spec(users, name), other) == user_count(
            users,
            other,
        ),
        user_count(remove_user_spec(users, name), name) == 0,
    decreases users.len(),
{
    if users.len() > 0 {
        lemma_remove_counts(users.drop_last(), name, other);
        let pre = remove_user_spec(users.drop_last(), name);
        if users.last() == name {
            assert(remove_user_spec(users, name) =~= pre);
        } else {
            assert(remove_user_spec(users, name) =~= pre.push(users.last()));
            lemma_count_snoc(pre, users.last(), other);
            lemma_count_snoc(pre, users.last(), name);
        }
    }
}

proof fn lemma_count_snoc(users: Seq<Seq<char>>, x: Seq<char>, name: Seq<char>)
    ensures
        user_count(users.push(x), name) == user_count(users, name) + (if x == name {
            1nat
        } else {
            0nat
        }),
{
    assert(users.push(x).drop_last() =~= users);
    assert(users.push(x).last() == x);
}

/// Law: a user absent from the registry appears exactly once after signing
/// in, and not at all after signing out again; no one else's entries
/// change.
pub proof fn lemma_registry_lifecycle(users: Seq<Seq<char>>, name: Seq<char>)
    requires
        user_count(users, name) == 0,
    ensures
        user_count(users.push(name), name) == 1,
        user_count(remove_user_spec(users.push(name), name), name) == 0,
        forall|other: Seq<char>|
            other != name ==> user_count(remove_user_spec(users.push(name), name), other)
                == user_count(users, other),
{
    lemma_count_snoc(users, name, name);
    lemma_remove_counts(users.push(name), name, name);
    assert forall|other: Seq<char>|
        other != name implies user_count(remove_user_spec(users.push(name), name), other)
        == user_count(users, other) by {
        lemma_remove_counts(users.push(name), name, other);
        lemma_count_snoc(users, name, other);
    }
}

} // verus!
