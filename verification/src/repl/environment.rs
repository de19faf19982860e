//! The environment variables of a round.

use vstd::prelude::*;

use crate::text::filter;

verus! {

/// Names the file of the persistent variables.
pub const STATE_FILE_VAR: &'static str = "REPL_STATE_FILE";

/// The texts of a list of variables and their values.
pub open spec fn entries(list: Seq<(String, String)>) -> Seq<(Seq<char>, Seq<char>)> {
    list.map_values(|entry: (String, String)| (entry.0@, entry.1@))
}

/// The entries of variables other than `key`.
pub open spec fn other_than(key: Seq<char>) -> spec_fn((Seq<char>, Seq<char>)) -> bool {
    |entry: (Seq<char>, Seq<char>)| entry.0 != key
}

/// `env` with `key` set to `value`: an entry for `key` is taken out, the new one stands last.
pub open spec fn env_set(
    env: Seq<(Seq<char>, Seq<char>)>,
    key: Seq<char>,
    value: Seq<char>,
) -> Seq<(Seq<char>, Seq<char>)> {
    env.filter(other_than(key)).push((key, value))
}

/// No variable stands twice in `env`.
pub open spec fn keys_distinct(env: Seq<(Seq<char>, Seq<char>)>) -> bool {
    forall|i: int, j: int| 0 <= i < j < env.len() ==> (#[trigger] env[i]).0 != (#[trigger] env[j]).0
}

/// The value of `key` in a process to which the entries of `env` are given in order: the last one
/// counts.
pub open spec fn env_value(env: Seq<(Seq<char>, Seq<char>)>, key: Seq<char>) -> Option<Seq<char>>
    decreases env.len(),
{
    if env.len() == 0 {
        None
    } else if env.last().0 == key {
        Some(env.last().1)
    } else {
        env_value(env.drop_last(), key)
    }
}

/// Appends the entries of `env` to `out`.
pub fn append_entries(out: &mut Vec<(String, String)>, env: &Vec<(String, String)>)
    ensures
        entries(final(out)@) == entries(old(out)@) + entries(env@),
{
    let ghost start = entries(out@);
    let ghost src = entries(env@);
    let mut i: usize = 0;
    assert(entries(out@) =~= start + src.take(0));
    while i < env.len()
        invariant
            i <= env@.len(),
            src == entries(env@),
            entries(out@) == start + src.take(i as int),
        decreases env@.len() - i,
    {
        let ghost before = entries(out@);
        out.push((env[i].0.clone(), env[i].1.clone()));
        i += 1;
        assert(entries(out@) =~= before.push(src[i - 1]));
        assert(entries(out@) =~= start + src.take(i as int));
    }
    assert(src.take(i as int) =~= src);
}

/// `env` without an entry for `key`, followed by the entry of `key` and `value`.
pub fn set_entry(env: &Vec<(String, String)>, key: String, value: String) -> (r: Vec<
    (String, String),
>)
    ensures
        entries(r@) == env_set(entries(env@), key@, value@),
{
    let ghost src = entries(env@);
    let ghost keep = other_than(key@);
    let mut r: Vec<(String, String)> = Vec::new();
    let mut i: usize = 0;
    assert(entries(r@) =~= src.take(0).filter(keep)) by {
        reveal(Seq::filter);
    }
    while i < env.len()
        invariant
            i <= env@.len(),
            src == entries(env@),
            keep == other_than(key@),
            entries(r@) == src.take(i as int).filter(keep),
        decreases env@.len() - i,
    {
        reveal(Seq::filter);
        assert(src.take(i + 1).drop_last() =~= src.take(i as int));
        let ghost before = entries(r@);
        if env[i].0 != key {
            r.push((env[i].0.clone(), env[i].1.clone()));
            assert(entries(r@) =~= before.push(src[i as int]));
        }
        i += 1;
    }
    assert(src.take(i as int) =~= src);
    let ghost before = entries(r@);
    r.push((key, value));
    assert(entries(r@) =~= before.push((key@, value@)));
    r
}

proof fn lemma_filter_keeps_distinct(env: Seq<(Seq<char>, Seq<char>)>, key: Seq<char>)
    requires
        keys_distinct(env),
    ensures
        keys_distinct(env.filter(other_than(key))),
    decreases env.len(),
{
    reveal(Seq::filter);
    let keep = other_than(key);
    if env.len() > 0 {
        let head = env.drop_last();
        lemma_filter_keeps_distinct(head, key);
        if keep(env.last()) {
            let f = head.filter(keep);
            assert forall|i: int| 0 <= i < f.len() implies (#[trigger] f[i]).0 != env.last().0 by {
                let at = filter::lemma_filter_origin(head, keep, i);
                assert(env[at].0 != env[env.len() - 1].0);
            }
        }
    }
}

/// Setting a variable leaves no variable twice.
pub proof fn law_env_set_keeps_keys_distinct(
    env: Seq<(Seq<char>, Seq<char>)>,
    key: Seq<char>,
    value: Seq<char>,
)
    requires
        keys_distinct(env),
    ensures
        keys_distinct(env_set(env, key, value)),
{
    lemma_filter_keeps_distinct(env, key);
    let f = env.filter(other_than(key));
    assert forall|i: int| 0 <= i < f.len() implies (#[trigger] f[i]).0 != key by {
        let at = filter::lemma_filter_origin(env, other_than(key), i);
    }
}

/// A process sees the value that was set last, and every other variable as before.
pub proof fn law_env_value_after_set(
    env: Seq<(Seq<char>, Seq<char>)>,
    key: Seq<char>,
    value: Seq<char>,
    other: Seq<char>,
)
    ensures
        env_value(env_set(env, key, value), key) == Some(value),
        other != key ==> env_value(env_set(env, key, value), other) == env_value(env, other),
{
    let set = env_set(env, key, value);
    let f = env.filter(other_than(key));
    assert(set.drop_last() =~= f);
    if other != key {
        lemma_value_in_filtered(env, key, other);
    }
}

proof fn lemma_value_in_filtered(
    env: Seq<(Seq<char>, Seq<char>)>,
    key: Seq<char>,
    other: Seq<char>,
)
    requires
        other != key,
    ensures
        env_value(env.filter(other_than(key)), other) == env_value(
            env,
            other,
        ),
    decreases env.len(),
{
    reveal(Seq::filter);
    let keep = other_than(key);
    if env.len() > 0 {
        let head = env.drop_last();
        lemma_value_in_filtered(head, key, other);
        if keep(env.last()) {
            assert(env.filter(keep) == head.filter(keep).push(env.last()));
            assert(env.filter(keep).drop_last() =~= head.filter(keep));
        }
    }
}

/// Setting a variable twice is the same as setting it once, to the second value.
pub proof fn law_env_set_again(
    env: Seq<(Seq<char>, Seq<char>)>,
    key: Seq<char>,
    first: Seq<char>,
    second: Seq<char>,
)
    ensures
        env_set(env_set(env, key, first), key, second) == env_set(env, key, second),
{
    reveal(Seq::filter);
    let keep = other_than(key);
    let f = env.filter(keep);
    let set = env_set(env, key, first);
    assert(set.drop_last() =~= f);
    assert(set.filter(keep) == f.filter(keep));
    filter::lemma_filter_twice(env, keep);
}

/// The entries of a list are its variables and values, one for one.
pub proof fn law_entries_are_the_list(list: Seq<(String, String)>, i: int)
    requires
        0 <= i < list.len(),
    ensures
        entries(list).len() == list.len(),
        entries(list)[i] == (list[i].0@, list[i].1@),
{
}

/// Setting a variable keeps every entry of another variable, in order and as it stands, drops the
/// entries of that variable, and puts the new one last: `kept` lists the indices of what is kept.
pub proof fn law_env_set_keeps_the_others(
    env: Seq<(Seq<char>, Seq<char>)>,
    key: Seq<char>,
    value: Seq<char>,
) -> (kept: Seq<int>)
    ensures
        forall|j: int, k: int| 0 <= j < k < kept.len() ==> #[trigger] kept[j] < #[trigger] kept[k],
        forall|i: int|
            #[trigger] kept.contains(i) <==> 0 <= i < env.len() && env[i].0 != key,
        env_set(env, key, value).len() == kept.len() + 1,
        forall|j: int|
            0 <= j < kept.len() ==> #[trigger] env_set(env, key, value)[j] == env[kept[j]],
        env_set(env, key, value)[kept.len() as int] == (key, value),
{
    let kept = filter::lemma_filter_selection(env, other_than(key));
    assert forall|i: int| #[trigger] kept.contains(i) <==> 0 <= i < env.len() && env[i].0
        != key by {
        if 0 <= i < env.len() && env[i].0 != key {
            assert(other_than(key)(env[i]));
        }
    }
    kept
}

/// A process sees the value of the last entry for a variable, and nothing where there is none.
pub proof fn law_env_value_is_the_last(
    env: Seq<(Seq<char>, Seq<char>)>,
    key: Seq<char>,
    i: int,
)
    requires
        0 <= i < env.len(),
        env[i].0 == key,
        forall|j: int| i < j < env.len() ==> (#[trigger] env[j]).0 != key,
    ensures
        env_value(env, key) == Some(env[i].1),
    decreases env.len(),
{
    if i < env.len() - 1 {
        assert(env[env.len() - 1].0 != key);
        law_env_value_is_the_last(env.drop_last(), key, i);
    }
}

/// A variable that no entry sets has no value.
pub proof fn law_env_value_of_no_entry(env: Seq<(Seq<char>, Seq<char>)>, key: Seq<char>)
    requires
        forall|i: int| 0 <= i < env.len() ==> (#[trigger] env[i]).0 != key,
    ensures
        env_value(env, key) is None,
    decreases env.len(),
{
    if env.len() > 0 {
        assert(env[env.len() - 1].0 != key);
        law_env_value_of_no_entry(env.drop_last(), key);
    }
}

} // verus!
