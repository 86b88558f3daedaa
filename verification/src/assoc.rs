use vstd::prelude::*;

verus! {

// Association lists keyed by name.  Lookup takes the first entry with the
// given name; a well-formed list holds each name at most once, so updates
// keep lookup a function of the name alone.

/// The value stored under `name`, if any: the first entry whose name's view
/// equals `name`.
pub open spec fn assoc_lookup<T>(s: Seq<(String, T)>, name: Seq<char>) -> Option<T>
    decreases s.len(),
{
    if s.len() == 0 {
        None
    } else if s[0].0@ == name {
        Some(s[0].1)
    } else {
        assoc_lookup(s.subrange(1, s.len() as int), name)
    }
}

/// The set of names the list holds.
pub open spec fn assoc_names<T>(s: Seq<(String, T)>) -> Set<Seq<char>> {
    s.map_values(|p: (String, T)| p.0@).to_set()
}

/// Each name occurs at most once.
pub open spec fn assoc_wf<T>(s: Seq<(String, T)>) -> bool {
    forall|i: int, j: int| 0 <= i < j < s.len() ==> s[i].0@ != s[j].0@
}

pub proof fn lemma_assoc_names_finite<T>(s: Seq<(String, T)>)
    ensures
        assoc_names(s).finite(),
        assoc_names(s).len() <= s.len(),
{
    broadcast use vstd::seq_lib::seq_to_set_is_finite;

    let m = s.map_values(|p: (String, T)| p.0@);
    m.lemma_cardinality_of_set();
}

pub proof fn lemma_assoc_names_contains<T>(s: Seq<(String, T)>, name: Seq<char>)
    ensures
        assoc_names(s).contains(name) <==> exists|i: int| 0 <= i < s.len() && s[i].0@ == name,
{
    let m = s.map_values(|p: (String, T)| p.0@);
    if m.contains(name) {
        let i = choose|i: int| 0 <= i < m.len() && m[i] == name;
        assert(s[i].0@ == name);
    }
    if exists|i: int| 0 <= i < s.len() && s[i].0@ == name {
        let i = choose|i: int| 0 <= i < s.len() && s[i].0@ == name;
        assert(m[i] == name);
        assert(m.contains(name));
    }
}

pub proof fn lemma_assoc_lookup_some_iff<T>(s: Seq<(String, T)>, name: Seq<char>)
    ensures
        assoc_lookup(s, name) is Some <==> exists|i: int| 0 <= i < s.len() && s[i].0@ == name,
    decreases s.len(),
{
    if s.len() > 0 {
        let rest = s.subrange(1, s.len() as int);
        lemma_assoc_lookup_some_iff(rest, name);
        if s[0].0@ != name {
            if exists|i: int| 0 <= i < s.len() && s[i].0@ == name {
                let i = choose|i: int| 0 <= i < s.len() && s[i].0@ == name;
                assert(rest[i - 1] == s[i]);
            }
            if exists|i: int| 0 <= i < rest.len() && rest[i].0@ == name {
                let i = choose|i: int| 0 <= i < rest.len() && rest[i].0@ == name;
                assert(s[i + 1] == rest[i]);
            }
        }
    }
}

/// Lookup of the name stored at the first matching index `i` finds exactly
/// that entry's value.
pub proof fn lemma_assoc_lookup_at<T>(s: Seq<(String, T)>, i: int)
    requires
        0 <= i < s.len(),
        forall|j: int| 0 <= j < i ==> s[j].0@ != s[i].0@,
    ensures
        assoc_lookup(s, s[i].0@) == Some(s[i].1),
    decreases i,
{
    if i > 0 {
        let rest = s.subrange(1, s.len() as int);
        assert(rest[i - 1] == s[i]);
        assert forall|j: int| 0 <= j < i - 1 implies (#[trigger] rest[j]).0@ != rest[i - 1].0@ by {
            assert(rest[j] == s[j + 1]);
        }
        lemma_assoc_lookup_at(rest, i - 1);
    }
}

/// Replacing the entry at the first index holding `pair`'s name changes
/// lookup only at that name.
pub proof fn lemma_assoc_lookup_update<T>(s: Seq<(String, T)>, i: int, pair: (String, T))
    requires
        0 <= i < s.len(),
        pair.0@ == s[i].0@,
        forall|j: int| 0 <= j < i ==> s[j].0@ != pair.0@,
    ensures
        assoc_lookup(s.update(i, pair), pair.0@) == Some(pair.1),
        forall|n: Seq<char>| n != pair.0@ ==> assoc_lookup(s.update(i, pair), n) == assoc_lookup(
            s,
            n,
        ),
    decreases i,
{
    let t = s.update(i, pair);
    let trest = t.subrange(1, t.len() as int);
    let srest = s.subrange(1, s.len() as int);
    if i == 0 {
        assert(trest =~= srest);
        assert forall|n: Seq<char>| n != pair.0@ implies assoc_lookup(t, n) == assoc_lookup(
            s,
            n,
        ) by {
            assert(assoc_lookup(t, n) == assoc_lookup(trest, n));
            assert(assoc_lookup(s, n) == assoc_lookup(srest, n));
        }
    } else {
        assert(trest =~= srest.update(i - 1, pair));
        assert(srest[i - 1] == s[i]);
        assert forall|j: int| 0 <= j < i - 1 implies (#[trigger] srest[j]).0@ != pair.0@ by {
            assert(srest[j] == s[j + 1]);
        }
        lemma_assoc_lookup_update(srest, i - 1, pair);
        assert(t[0] == s[0]);
        assert(s[0].0@ != pair.0@);
        assert(assoc_lookup(t, pair.0@) == assoc_lookup(trest, pair.0@));
        assert forall|n: Seq<char>| n != pair.0@ implies assoc_lookup(t, n) == assoc_lookup(
            s,
            n,
        ) by {
            if t[0].0@ != n {
                assert(assoc_lookup(t, n) == assoc_lookup(trest, n));
                assert(assoc_lookup(s, n) == assoc_lookup(srest, n));
            }
        }
    }
}

/// Appending an entry with a fresh name adds exactly that binding.
pub proof fn lemma_assoc_lookup_push<T>(s: Seq<(String, T)>, pair: (String, T))
    ensures
        assoc_lookup(s.push(pair), pair.0@) == if assoc_lookup(s, pair.0@) is Some {
            assoc_lookup(s, pair.0@)
        } else {
            Some(pair.1)
        },
        forall|n: Seq<char>| n != pair.0@ ==> assoc_lookup(s.push(pair), n) == assoc_lookup(s, n),
    decreases s.len(),
{
    let t = s.push(pair);
    let trest = t.subrange(1, t.len() as int);
    let srest = s.subrange(1, s.len() as int);
    if s.len() == 0 {
        assert(t[0] == pair);
        assert(trest =~= Seq::<(String, T)>::empty());
        assert forall|n: Seq<char>| n != pair.0@ implies assoc_lookup(t, n) == assoc_lookup(
            s,
            n,
        ) by {
            assert(assoc_lookup(t, n) == assoc_lookup(trest, n));
        }
    } else {
        assert(t[0] == s[0]);
        assert(trest =~= srest.push(pair));
        lemma_assoc_lookup_push(srest, pair);
        assert(assoc_lookup(t, pair.0@) == if assoc_lookup(s, pair.0@) is Some {
            assoc_lookup(s, pair.0@)
        } else {
            Some(pair.1)
        });
        assert forall|n: Seq<char>| n != pair.0@ implies assoc_lookup(t, n) == assoc_lookup(
            s,
            n,
        ) by {
            if t[0].0@ != n {
                assert(assoc_lookup(t, n) == assoc_lookup(trest, n));
                assert(assoc_lookup(s, n) == assoc_lookup(srest, n));
            }
        }
    }
}

/// Find the first entry with the given name.
pub fn assoc_find<T>(entries: &Vec<(String, T)>, name: &String) -> (r: Option<usize>)
    ensures
        match r {
            Some(i) => 0 <= i < entries@.len() && entries@[i as int].0@ == name@ && forall|j: int|
                0 <= j < i ==> entries@[j].0@ != name@,
            None => forall|j: int| 0 <= j < entries@.len() ==> entries@[j].0@ != name@,
        },
{
    let mut i: usize = 0;
    while i < entries.len()
        invariant
            i <= entries.len(),
            forall|j: int| 0 <= j < i ==> entries@[j].0@ != name@,
        decreases entries.len() - i,
    {
        if entries[i].0 == *name {
            return Some(i);
        }
        i = i + 1;
    }
    None
}

/// Bind `name` to `value`, replacing any earlier binding of the same name.
pub fn assoc_set<T>(entries: &mut Vec<(String, T)>, name: String, value: T)
    requires
        assoc_wf(old(entries)@),
    ensures
        assoc_wf(final(entries)@),
        assoc_lookup(final(entries)@, name@) == Some(value),
        forall|n: Seq<char>| n != name@ ==> assoc_lookup(final(entries)@, n) == assoc_lookup(
            old(entries)@,
            n,
        ),
        (exists|i: int|
            0 <= i < old(entries)@.len() && old(entries)@[i].0@ == name@ && final(entries)@ == old(
                entries,
            )@.update(i, (name, value))) || final(entries)@ == old(entries)@.push((name, value)),
{
    let ghost name_view = name@;
    let ghost pre = entries@;
    match assoc_find(entries, &name) {
        Some(i) => {
            let ghost pair = (name, value);
            entries[i] = (name, value);
            proof {
                lemma_assoc_lookup_update(pre, i as int, pair);
                assert forall|a: int, b: int|
                    0 <= a < b < entries@.len() implies entries@[a].0@ != entries@[b].0@ by {
                    assert(pre[a].0@ == entries@[a].0@);
                    assert(pre[b].0@ == entries@[b].0@);
                }
            }
        },
        None => {
            let ghost pair = (name, value);
            entries.push((name, value));
            proof {
                lemma_assoc_lookup_push(pre, pair);
                lemma_assoc_lookup_some_iff(pre, name_view);
                assert forall|a: int, b: int|
                    0 <= a < b < entries@.len() implies entries@[a].0@ != entries@[b].0@ by {
                    if b < pre.len() {
                        assert(pre[a].0@ == entries@[a].0@);
                        assert(pre[b].0@ == entries@[b].0@);
                    } else {
                        assert(entries@[b].0@ == name_view);
                        assert(entries@[a].0@ == pre[a].0@);
                    }
                }
            }
        },
    }
}

} // verus!
