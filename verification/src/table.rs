//! Name-keyed association lists. Rule detection entries, event fields and
//! the per-event result cache are all small string-keyed tables; this module
//! gives them one verified lookup/update discipline.

use vstd::prelude::*;
use crate::strings::str_eq;

verus! {

/// The value bound to `name`, taking the first binding when a key repeats.
pub open spec fn assoc_lookup<T>(s: Seq<(String, T)>, name: Seq<char>) -> Option<T>
    decreases s.len(),
{
    if s.len() == 0 {
        Option::None
    } else if s[0].0@ == name {
        Option::Some(s[0].1)
    } else {
        assoc_lookup(s.drop_first(), name)
    }
}

/// No key occurs twice.
pub open spec fn assoc_unique<T>(s: Seq<(String, T)>) -> bool {
    forall|i: int, j: int| 0 <= i < j < s.len() ==> (#[trigger] s[i]).0@ != (#[trigger] s[j]).0@
}

proof fn lemma_assoc_lookup_skip<T>(s: Seq<(String, T)>, name: Seq<char>, i: int)
    requires
        0 <= i <= s.len(),
        forall|k: int| 0 <= k < i ==> (#[trigger] s[k]).0@ != name,
    ensures
        assoc_lookup(s, name) == assoc_lookup(s.skip(i), name),
    decreases i,
{
    if i > 0 {
        assert(s.drop_first() =~= s.skip(1));
        lemma_assoc_lookup_skip(s.skip(1), name, i - 1);
        assert(s.skip(1).skip(i - 1) =~= s.skip(i));
    } else {
        assert(s.skip(0) =~= s);
    }
}

proof fn lemma_assoc_lookup_update<T>(s: Seq<(String, T)>, i: int, v: T)
    requires
        0 <= i < s.len(),
        forall|k: int| 0 <= k < i ==> (#[trigger] s[k]).0@ != s[i].0@,
    ensures
        assoc_lookup(s.update(i, (s[i].0, v)), s[i].0@) == Option::Some(v),
        forall|other: Seq<char>|
            other != s[i].0@ ==> assoc_lookup(s.update(i, (s[i].0, v)), other) == assoc_lookup(
                s,
                other,
            ),
    decreases s.len(),
{
    let s2 = s.update(i, (s[i].0, v));
    if i == 0 {
        assert(s2[0] == (s[0].0, v));
        assert(s2.drop_first() =~= s.drop_first());
        assert forall|other: Seq<char>| other != s[i].0@ implies assoc_lookup(s2, other)
            == assoc_lookup(s, other) by {
            assert(assoc_lookup(s2, other) == assoc_lookup(s2.drop_first(), other));
            assert(assoc_lookup(s, other) == assoc_lookup(s.drop_first(), other));
        }
    } else {
        let st = s.drop_first();
        assert(st[i - 1] == s[i]);
        lemma_assoc_lookup_update(st, i - 1, v);
        assert(s2[0] == s[0]);
        assert(s2.drop_first() =~= st.update(i - 1, (st[i - 1].0, v)));
        assert(assoc_lookup(s2, s[i].0@) == assoc_lookup(s2.drop_first(), s[i].0@));
        assert forall|other: Seq<char>| other != s[i].0@ implies assoc_lookup(s2, other)
            == assoc_lookup(s, other) by {
            if s[0].0@ != other {
                assert(assoc_lookup(s2, other) == assoc_lookup(s2.drop_first(), other));
                assert(assoc_lookup(s, other) == assoc_lookup(st, other));
            }
        }
    }
}

/// In a table without repeated keys, the lookup of the `i`-th key gives the
/// `i`-th value.
pub proof fn lemma_assoc_lookup_index<T>(s: Seq<(String, T)>, i: int)
    requires
        assoc_unique(s),
        0 <= i < s.len(),
    ensures
        assoc_lookup(s, s[i].0@) == Option::Some(s[i].1),
    decreases i,
{
    if i == 0 {
    } else {
        let st = s.drop_first();
        assert(st[i - 1] == s[i]);
        assert(assoc_unique(st)) by {
            assert(forall|a: int, b: int|
                0 <= a < b < st.len() ==> (#[trigger] st[a]).0@ == s[a + 1].0@ && (#[trigger] st[b]).0@
                    == s[b + 1].0@);
        }
        lemma_assoc_lookup_index(st, i - 1);
        assert(s[0].0@ != s[i].0@);
    }
}

/// A reference to the value bound to `name`, if any.
pub fn assoc_get<'a, T>(v: &'a Vec<(String, T)>, name: &str) -> (r: Option<&'a T>)
    ensures
        match r {
            Option::Some(t) => assoc_lookup(v@, name@) == Option::Some(*t),
            Option::None => assoc_lookup(v@, name@) is None,
        },
{
    let mut i: usize = 0;
    while i < v.len()
        invariant
            i <= v@.len(),
            forall|k: int| 0 <= k < i ==> (#[trigger] v@[k]).0@ != name@,
        decreases v@.len() - i,
    {
        if str_eq(v[i].0.as_str(), name) {
            proof {
                lemma_assoc_lookup_skip(v@, name@, i as int);
                assert(v@.skip(i as int)[0] == v@[i as int]);
            }
            return Option::Some(&v[i].1);
        }
        i = i + 1;
    }
    proof {
        lemma_assoc_lookup_skip(v@, name@, v@.len() as int);
        assert(v@.skip(v@.len() as int) =~= Seq::<(String, T)>::empty());
    }
    Option::None
}

/// Binds `name` to `value`, replacing an existing binding and keeping keys
/// unique.
pub fn assoc_set<T>(v: &mut Vec<(String, T)>, name: String, value: T)
    requires
        assoc_unique(old(v)@),
    ensures
        assoc_unique(final(v)@),
        assoc_lookup(final(v)@, name@) == Option::Some(value),
        forall|other: Seq<char>|
            other != name@ ==> assoc_lookup(final(v)@, other) == assoc_lookup(old(v)@, other),
        final(v)@.len() == old(v)@.len() + (if assoc_lookup(old(v)@, name@) is None {
            1int
        } else {
            0int
        }),
{
    let mut i: usize = 0;
    while i < v.len()
        invariant
            i <= v@.len(),
            v@ == old(v)@,
            assoc_unique(old(v)@),
            forall|k: int| 0 <= k < i ==> (#[trigger] v@[k]).0@ != name@,
        decreases v@.len() - i,
    {
        if str_eq(v[i].0.as_str(), name.as_str()) {
            let key = v[i].0.clone();
            proof {
                assert(key == v@[i as int].0);
                lemma_assoc_lookup_skip(old(v)@, name@, i as int);
                assert(old(v)@.skip(i as int)[0] == old(v)@[i as int]);
                assert(assoc_lookup(old(v)@, name@) == Option::Some(old(v)@[i as int].1));
            }
            v[i] = (key, value);
            proof {
                assert(v@ =~= old(v)@.update(i as int, (old(v)@[i as int].0, value)));
                lemma_assoc_lookup_update(old(v)@, i as int, value);
                assert forall|a: int, b: int| 0 <= a < b < v@.len() implies (#[trigger] v@[a]).0@
                    != (#[trigger] v@[b]).0@ by {
                    assert(old(v)@[a].0@ != old(v)@[b].0@);
                    assert(v@[a].0 == old(v)@[a].0);
                    assert(v@[b].0 == old(v)@[b].0);
                }
            }
            return ;
        }
        i = i + 1;
    }
    proof {
        lemma_assoc_lookup_skip(v@, name@, v@.len() as int);
        assert(v@.skip(v@.len() as int) =~= Seq::<(String, T)>::empty());
    }
    v.push((name, value));
    proof {
        let s2 = v@;
        let s1 = old(v)@;
        assert(s2 =~= s1.push((name, value)));
        lemma_assoc_lookup_push(s1, name, value);
    }
}

proof fn lemma_assoc_lookup_push<T>(s: Seq<(String, T)>, name: String, v: T)
    ensures
        assoc_lookup(s.push((name, v)), name@) == if assoc_lookup(s, name@) is Some {
            assoc_lookup(s, name@)
        } else {
            Option::Some(v)
        },
        forall|other: Seq<char>|
            other != name@ ==> assoc_lookup(s.push((name, v)), other) == assoc_lookup(s, other),
    decreases s.len(),
{
    let p = (name, v);
    let s2 = s.push(p);
    if s.len() == 0 {
        assert(s2[0] == p);
        assert(s2.drop_first() =~= Seq::<(String, T)>::empty());
        assert forall|other: Seq<char>| other != name@ implies assoc_lookup(s2, other)
            == assoc_lookup(s, other) by {
            assert(assoc_lookup(s2, other) == assoc_lookup(s2.drop_first(), other));
        }
    } else {
        lemma_assoc_lookup_push(s.drop_first(), name, v);
        assert(s2[0] == s[0]);
        assert(s2.drop_first() =~= s.drop_first().push(p));
        assert forall|other: Seq<char>| other != name@ implies assoc_lookup(s2, other)
            == assoc_lookup(s, other) by {
            if s[0].0@ != other {
                assert(assoc_lookup(s2, other) == assoc_lookup(s2.drop_first(), other));
                assert(assoc_lookup(s, other) == assoc_lookup(s.drop_first(), other));
            }
        }
    }
}

} // verus!
