use vstd::prelude::*;

verus! {

/// The keys of a list of tags.
pub open spec fn keys_unique(s: Seq<(String, String)>) -> bool {
    forall|a: int, b: int| 0 <= a < b < s.len() ==> s[a].0@ != s[b].0@
}

/// The mapping from key to value that a list of tags holds; a later entry wins.
pub open spec fn tag_map(s: Seq<(String, String)>) -> Map<Seq<char>, Seq<char>>
    decreases s.len(),
{
    if s.len() == 0 {
        Map::empty()
    } else {
        tag_map(s.drop_last()).insert(s.last().0@, s.last().1@)
    }
}

/// A key is in the mapping exactly when some entry holds it.
pub proof fn lemma_tag_map_dom(s: Seq<(String, String)>, k: Seq<char>)
    ensures
        tag_map(s).contains_key(k) <==> exists|i: int| 0 <= i < s.len() && s[i].0@ == k,
    decreases s.len(),
{
    if s.len() > 0 {
        lemma_tag_map_dom(s.drop_last(), k);
        if tag_map(s).contains_key(k) && s.last().0@ != k {
            let i = choose|i: int| 0 <= i < s.len() - 1 && s.drop_last()[i].0@ == k;
            assert(s[i].0@ == k);
        }
        if exists|i: int| 0 <= i < s.len() && s[i].0@ == k {
            let i = choose|i: int| 0 <= i < s.len() && s[i].0@ == k;
            if i < s.len() - 1 {
                assert(s.drop_last()[i].0@ == k);
            }
        }
    }
}

/// With unique keys, the value under the key of an entry is that entry's value.
pub proof fn lemma_tag_map_at(s: Seq<(String, String)>, i: int)
    requires
        keys_unique(s),
        0 <= i < s.len(),
    ensures
        tag_map(s).contains_key(s[i].0@),
        tag_map(s)[s[i].0@] == s[i].1@,
    decreases s.len(),
{
    if i < s.len() - 1 {
        let t = s.drop_last();
        assert(t[i] == s[i]);
        assert(keys_unique(t));
        lemma_tag_map_at(t, i);
    }
}

/// With unique keys, the mapping has as many keys as the list has entries.
pub proof fn lemma_tag_map_len(s: Seq<(String, String)>)
    requires
        keys_unique(s),
    ensures
        tag_map(s).dom().finite(),
        tag_map(s).dom().len() == s.len(),
    decreases s.len(),
{
    if s.len() > 0 {
        let t = s.drop_last();
        assert(keys_unique(t));
        lemma_tag_map_len(t);
        lemma_tag_map_dom(t, s.last().0@);
        if tag_map(t).contains_key(s.last().0@) {
            let i = choose|i: int| 0 <= i < t.len() && t[i].0@ == s.last().0@;
            assert(s[i].0@ == s[s.len() - 1].0@);
        }
    }
}

/// Finds the position of a key in a list of tags.
pub fn find_tag(tags: &Vec<(String, String)>, key: &str) -> (r: Option<usize>)
    ensures
        match r {
            Some(i) => i < tags@.len() && tags@[i as int].0@ == key@,
            None => forall|i: int| 0 <= i < tags@.len() ==> tags@[i].0@ != key@,
        },
{
    let k = key.to_owned();
    let mut i: usize = 0;
    while i < tags.len()
        invariant
            0 <= i <= tags@.len(),
            k@ == key@,
            forall|j: int| 0 <= j < i ==> tags@[j].0@ != key@,
        decreases tags@.len() - i,
    {
        if tags[i].0 == k {
            return Some(i);
        }
        i = i + 1;
    }
    None
}

/// The list without any entry under `key`, the others kept in order.
pub fn without_tag(tags: &Vec<(String, String)>, key: &str) -> (r: Vec<(String, String)>)
    requires
        keys_unique(tags@),
    ensures
        keys_unique(r@),
        tag_map(r@) == tag_map(tags@).remove(key@),
        forall|i: int| 0 <= i < r@.len() ==> r@[i].0@ != key@,
{
    let k = key.to_owned();
    let mut out: Vec<(String, String)> = Vec::new();
    let mut i: usize = 0;
    while i < tags.len()
        invariant
            0 <= i <= tags@.len(),
            k@ == key@,
            keys_unique(tags@),
            keys_unique(out@),
            tag_map(out@) == tag_map(tags@.take(i as int)).remove(key@),
            forall|a: int| 0 <= a < out@.len() ==> out@[a].0@ != key@,
            forall|a: int, j: int|
                0 <= a < out@.len() && i <= j < tags@.len() ==> out@[a].0@ != tags@[j].0@,
        decreases tags@.len() - i,
    {
        let ghost prev = out@;
        assert(tags@.take(i + 1).drop_last() == tags@.take(i as int));
        if tags[i].0 != k {
            let e = (tags[i].0.clone(), tags[i].1.clone());
            out.push(e);
            proof {
                assert(out@.drop_last() == prev);
                assert forall|a: int, b: int| 0 <= a < b < out@.len() implies out@[a].0@
                    != out@[b].0@ by {
                    if b == out@.len() - 1 {
                        assert(prev[a].0@ != tags@[i as int].0@);
                    }
                }
                assert(tag_map(out@) =~= tag_map(tags@.take(i + 1)).remove(key@));
                assert forall|a: int, j: int|
                    0 <= a < out@.len() && i + 1 <= j < tags@.len() implies out@[a].0@
                    != tags@[j].0@ by {
                    if a == out@.len() - 1 {
                        assert(out@[a].0@ == tags@[i as int].0@);
                    } else {
                        assert(out@[a] == prev[a]);
                    }
                }
            }
        } else {
            proof {
                assert(tag_map(out@) =~= tag_map(tags@.take(i + 1)).remove(key@));
            }
        }
        i = i + 1;
    }
    assert(tags@.take(tags@.len() as int) == tags@);
    out
}

/// The list with `key` set to `value`, any earlier entry under `key` dropped.
pub fn with_tag(tags: &Vec<(String, String)>, key: &str, value: &str) -> (r: Vec<
    (String, String),
>)
    requires
        keys_unique(tags@),
    ensures
        keys_unique(r@),
        tag_map(r@) == tag_map(tags@).insert(key@, value@),
{
    let mut t = without_tag(tags, key);
    let ghost prev = t@;
    t.push((key.to_owned(), value.to_owned()));
    proof {
        assert(t@.drop_last() == prev);
        assert(tag_map(t@) =~= tag_map(tags@).insert(key@, value@));
    }
    t
}

/// The value under `key` in a list of tags with unique keys.
pub fn lookup_tag<'a>(tags: &'a Vec<(String, String)>, key: &str) -> (r: Option<&'a str>)
    requires
        keys_unique(tags@),
    ensures
        match r {
            Some(v) => tag_map(tags@).contains_key(key@) && tag_map(tags@)[key@] == v@,
            None => !tag_map(tags@).contains_key(key@),
        },
{
    proof {
        lemma_tag_map_dom(tags@, key@);
    }
    match find_tag(tags, key) {
        Some(i) => {
            proof {
                lemma_tag_map_at(tags@, i as int);
            }
            let e = &tags[i];
            Some(e.1.as_str())
        },
        None => None,
    }
}

} // verus!
