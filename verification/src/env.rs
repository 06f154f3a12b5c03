//! Environment maps for child processes, kept as ordered association lists
//! of name/value pairs; the first binding of a name wins.

use vstd::prelude::*;

verus! {

/// The character-level contents of a list of name/value pairs.
pub open spec fn env_views(s: Seq<(String, String)>) -> Seq<(Seq<char>, Seq<char>)> {
    s.map_values(|p: (String, String)| (p.0@, p.1@))
}

/// The value bound to `key`, the first binding winning.
pub open spec fn env_lookup(s: Seq<(String, String)>, key: Seq<char>) -> Option<Seq<char>>
    decreases s.len(),
{
    if s.len() == 0 {
        None
    } else if s[0].0@ == key {
        Some(s[0].1@)
    } else {
        env_lookup(s.drop_first(), key)
    }
}

proof fn lemma_env_lookup_update(s: Seq<(String, String)>, i: int, p: (String, String), k: Seq<char>)
    requires
        0 <= i < s.len(),
        s[i].0@ == p.0@,
        k != p.0@,
    ensures
        env_lookup(s.update(i, p), k) == env_lookup(s, k),
    decreases i,
{
    let u = s.update(i, p);
    if i == 0 {
        assert(u[0] == p);
        assert(u.drop_first() =~= s.drop_first());
    } else {
        assert(u[0] == s[0]);
        if s[0].0@ == k {
        } else {
            assert(u.drop_first() =~= s.drop_first().update(i - 1, p));
            lemma_env_lookup_update(s.drop_first(), i - 1, p, k);
        }
    }
}

proof fn lemma_env_lookup_at(s: Seq<(String, String)>, i: int, k: Seq<char>)
    requires
        0 <= i < s.len(),
        s[i].0@ == k,
        forall|j: int| 0 <= j < i ==> s[j].0@ != k,
    ensures
        env_lookup(s, k) == Some(s[i].1@),
    decreases i,
{
    if i == 0 {
    } else {
        assert(s.drop_first()[i - 1] == s[i]);
        lemma_env_lookup_at(s.drop_first(), i - 1, k);
    }
}

proof fn lemma_env_lookup_push(s: Seq<(String, String)>, p: (String, String), k: Seq<char>)
    ensures
        env_lookup(s.push(p), k) == match env_lookup(s, k) {
            Some(v) => Some(v),
            None => if p.0@ == k {
                Some(p.1@)
            } else {
                None
            },
        },
    decreases s.len(),
{
    let u = s.push(p);
    if s.len() == 0 {
        assert(u[0] == p);
        assert(u.drop_first() =~= Seq::<(String, String)>::empty());
    } else {
        assert(u[0] == s[0]);
        assert(u.drop_first() =~= s.drop_first().push(p));
        lemma_env_lookup_push(s.drop_first(), p, k);
    }
}

/// Copies an environment list; the copy has the same names and values.
pub fn clone_envs(src: &Vec<(String, String)>) -> (r: Vec<(String, String)>)
    ensures
        env_views(r@) == env_views(src@),
{
    let mut r: Vec<(String, String)> = Vec::new();
    let mut i: usize = 0;
    while i < src.len()
        invariant
            0 <= i <= src@.len(),
            r@.len() == i,
            forall|j: int| 0 <= j < i ==> #[trigger] r@[j].0@ == src@[j].0@ && r@[j].1@
                == src@[j].1@,
        decreases src@.len() - i,
    {
        let name = src[i].0.clone();
        let value = src[i].1.clone();
        r.push((name, value));
        i = i + 1;
    }
    proof {
        assert(env_views(r@) =~= env_views(src@));
    }
    r
}

/// Binds `key` to `value`: the first existing binding of `key` is replaced,
/// or a new binding is appended; every other name keeps its value.
pub fn set_env(envs: &mut Vec<(String, String)>, key: String, value: String)
    ensures
        env_lookup(final(envs)@, key@) == Some(value@),
        forall|k: Seq<char>| k != key@ ==> env_lookup(final(envs)@, k) == env_lookup(
            old(envs)@,
            k,
        ),
{
    let ghost orig = envs@;
    let mut i: usize = 0;
    while i < envs.len()
        invariant
            0 <= i <= orig.len(),
            orig == old(envs)@,
            envs@ == orig,
            forall|j: int| 0 <= j < i ==> #[trigger] orig[j].0@ != key@,
        decreases orig.len() - i,
    {
        if envs[i].0 == key {
            let _replaced = envs.remove(i);
            envs.insert(i, (key, value));
            proof {
                assert(envs@ =~= orig.update(i as int, envs@[i as int]));
                assert(envs@[i as int].0@ == key@);
                assert(envs@[i as int].1@ == value@);
                lemma_env_lookup_at(envs@, i as int, key@);
                assert forall|k: Seq<char>| k != key@ implies env_lookup(envs@, k) == env_lookup(
                    orig,
                    k,
                ) by {
                    lemma_env_lookup_update(orig, i as int, envs@[i as int], k);
                }
            }
            return ;
        }
        i = i + 1;
    }
    envs.push((key, value));
    proof {
        assert(envs@.last().0@ == key@);
        assert(envs@.drop_last() =~= orig);
        assert(forall|j: int| 0 <= j < orig.len() ==> #[trigger] orig[j].0@ != key@);
        assert(env_lookup(orig, key@) is None) by {
            lemma_env_lookup_none(orig, key@);
        }
        assert forall|k: Seq<char>| true implies env_lookup(envs@, k) == match env_lookup(
            orig,
            k,
        ) {
            Some(v) => Some(v),
            None => if key@ == k {
                Some(value@)
            } else {
                None
            },
        } by {
            lemma_env_lookup_push(orig, envs@.last(), k);
        }
    }
}

proof fn lemma_env_lookup_none(s: Seq<(String, String)>, k: Seq<char>)
    requires
        forall|j: int| 0 <= j < s.len() ==> #[trigger] s[j].0@ != k,
    ensures
        env_lookup(s, k) is None,
    decreases s.len(),
{
    if s.len() > 0 {
        assert(forall|j: int| 0 <= j < s.drop_first().len() ==> #[trigger] s.drop_first()[j].0@
            != k && s.drop_first()[j] == s[j + 1]);
        lemma_env_lookup_none(s.drop_first(), k);
    }
}

} // verus!
