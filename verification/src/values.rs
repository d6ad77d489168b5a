//! Submitted form values: a multi-value map from field name to the values
//! posted under it, in the order they were posted (checkbox groups post one
//! name several times).

use vstd::prelude::*;

verus! {

/// A name with every value posted under it.
pub type ValuesView = Seq<(Seq<char>, Seq<Seq<char>>)>;

/// The value stored under `key` in a list of named entries (the first entry
/// with that name).
pub open spec fn lookup<V>(entries: Seq<(Seq<char>, V)>, key: Seq<char>) -> Option<V>
    decreases entries.len(),
{
    if entries.len() == 0 {
        None
    } else if entries[0].0 == key {
        Some(entries[0].1)
    } else {
        lookup(entries.drop_first(), key)
    }
}

/// No key occurs twice among `entries` (as in a map).
pub open spec fn keys_unique<V>(entries: Seq<(Seq<char>, V)>) -> bool {
    forall|i: int, j: int| 0 <= i < j < entries.len() ==> entries[i].0 != entries[j].0
}

/// The values posted under `key`, in order.
pub open spec fn values_of(pairs: Seq<(Seq<char>, Seq<char>)>, key: Seq<char>) -> Seq<Seq<char>>
    decreases pairs.len(),
{
    if pairs.len() == 0 {
        seq![]
    } else if pairs.last().0 == key {
        values_of(pairs.drop_last(), key).push(pairs.last().1)
    } else {
        values_of(pairs.drop_last(), key)
    }
}

/// The map a list of posted pairs denotes: each name that occurs, with all of
/// its values in order.
pub open spec fn grouped(pairs: Seq<(Seq<char>, Seq<char>)>, key: Seq<char>) -> Option<
    Seq<Seq<char>>,
> {
    if values_of(pairs, key).len() > 0 {
        Some(values_of(pairs, key))
    } else {
        None
    }
}

/// The pairs that `form_urlencoded::parse` yields for `input` (split on `&`,
/// empty items skipped, name and value split at the first `=`, `+` read as a
/// space, percent-escapes decoded, invalid UTF-8 replaced).
pub uninterp spec fn urlencoded_pairs(input: Seq<u8>) -> Seq<(Seq<char>, Seq<char>)>;

/// The values of a submission (or a query string), by field name.
pub struct FormValues {
    entries: Vec<(String, Vec<String>)>,
}

impl View for FormValues {
    type V = ValuesView;

    closed spec fn view(&self) -> ValuesView {
        self.entries@.map_values(|e: (String, Vec<String>)| (e.0@, e.1.deep_view()))
    }
}

pub proof fn lemma_lookup_update<V>(entries: Seq<(Seq<char>, V)>, i: int, key: Seq<char>, vs: V, k: Seq<char>)
    requires
        0 <= i < entries.len(),
        entries[i].0 == key,
        forall|j: int| 0 <= j < i ==> entries[j].0 != key,
    ensures
        lookup(entries.update(i, (key, vs)), k) == if k == key {
            Some(vs)
        } else {
            lookup(entries, k)
        },
        lookup(entries, key) == Some(entries[i].1),
    decreases i,
{
    let u = entries.update(i, (key, vs));
    if i > 0 {
        let rest = entries.drop_first();
        lemma_lookup_update(rest, i - 1, key, vs, k);
        assert(u.drop_first() =~= rest.update(i - 1, (key, vs)));
        assert(u[0] == entries[0]);
    } else {
        assert(u.drop_first() =~= entries.drop_first());
        assert(u[0] == (key, vs));
    }
}

pub proof fn lemma_lookup_push<V>(entries: Seq<(Seq<char>, V)>, key: Seq<char>, vs: V, k: Seq<char>)
    requires
        lookup(entries, key).is_none(),
    ensures
        lookup(entries.push((key, vs)), k) == if k == key {
            Some(vs)
        } else {
            lookup(entries, k)
        },
    decreases entries.len(),
{
    let p = entries.push((key, vs));
    if entries.len() > 0 {
        assert(entries[0].0 != key);
        lemma_lookup_push(entries.drop_first(), key, vs, k);
        assert(p.drop_first() =~= entries.drop_first().push((key, vs)));
        assert(p[0] == entries[0]);
    } else {
        assert(p.drop_first() =~= entries);
        assert(p[0] == (key, vs));
    }
}

pub proof fn lemma_lookup_absent<V>(entries: Seq<(Seq<char>, V)>, key: Seq<char>)
    requires
        forall|j: int| 0 <= j < entries.len() ==> entries[j].0 != key,
    ensures
        lookup(entries, key).is_none(),
    decreases entries.len(),
{
    if entries.len() > 0 {
        lemma_lookup_absent(entries.drop_first(), key);
    }
}

impl FormValues {
    /// Well-formed: each name is held once, with all its values.
    pub open spec fn wf(&self) -> bool {
        keys_unique(self@)
    }

    /// No values.
    pub fn new() -> (r: FormValues)
        ensures
            forall|k: Seq<char>| lookup(r@, k).is_none(),
            r.wf(),
    {
        let r = FormValues { entries: Vec::new() };
        assert(r@ =~= Seq::<(Seq<char>, Seq<Seq<char>>)>::empty());
        r
    }

    /// The values posted under `key`, if any.
    pub fn get(&self, key: &str) -> (r: Option<&Vec<String>>)
        ensures
            match r {
                Some(v) => lookup(self@, key@) == Some(v.deep_view()),
                None => lookup(self@, key@).is_none(),
            },
    {
        let mut i: usize = 0;
        while i < self.entries.len()
            invariant
                i <= self.entries@.len(),
                self@.len() == self.entries@.len(),
                forall|j: int| 0 <= j < i ==> self@[j].0 != key@,
            decreases self.entries@.len() - i,
        {
            if crate::text::str_eq(self.entries[i].0.as_str(), key) {
                proof {
                    lemma_lookup_update(self@, i as int, key@, self@[i as int].1, key@);
                }
                return Some(&self.entries[i].1);
            }
            i = i + 1;
        }
        proof {
            lemma_lookup_absent(self@, key@);
        }
        None
    }

    /// Add `value` after the values already posted under `key`.
    pub fn push_value(&mut self, key: String, value: String)
        requires
            old(self).wf(),
        ensures
            final(self).wf(),
            forall|k: Seq<char>|
                lookup(final(self)@, k) == if k == key@ {
                    Some(
                        match lookup(old(self)@, k) {
                            Some(vs) => vs,
                            None => seq![],
                        }.push(value@),
                    )
                } else {
                    lookup(old(self)@, k)
                },
    {
        let ghost before = self@;
        let mut i: usize = 0;
        while i < self.entries.len()
            invariant
                i <= self.entries@.len(),
                before == self@,
                before == old(self)@,
                keys_unique(before),
                self@.len() == self.entries@.len(),
                forall|j: int| 0 <= j < i ==> self@[j].0 != key@,
            decreases self.entries@.len() - i,
        {
            if crate::text::str_eq(self.entries[i].0.as_str(), key.as_str()) {
                let ghost old_vs = self@[i as int].1;
                assert(self@[i as int] == (self.entries@[i as int].0@, self.entries@[i as int].1.deep_view()));
                assert(before[i as int].0 == key@);
                let mut entry = (String::new(), Vec::new());
                std::mem::swap(&mut entry, &mut self.entries[i]);
                let (name, mut vs) = entry;
                let ghost vs_before = vs.deep_view();
                assert(vs_before == old_vs);
                vs.push(value);
                assert(vs.deep_view() =~= old_vs.push(value@));
                self.entries.set(i, (name, vs));
                proof {
                    assert(self@ =~= before.update(i as int, (key@, old_vs.push(value@))));
                    assert(keys_unique(self@));
                    assert forall|k: Seq<char>|
                        lookup(self@, k) == if k == key@ {
                            Some(
                                match lookup(before, k) {
                                    Some(vs) => vs,
                                    None => seq![],
                                }.push(value@),
                            )
                        } else {
                            lookup(before, k)
                        } by {
                        lemma_lookup_update(before, i as int, key@, old_vs.push(value@), k);
                        assert(lookup(before, key@) == Some(old_vs));
                    }
                    assert(before == old(self)@);
                }
                return;
            }
            i = i + 1;
        }
        proof {
            lemma_lookup_absent(before, key@);
        }
        let mut vs: Vec<String> = Vec::new();
        vs.push(value);
        let ghost kv = key@;
        let ghost nv = vs.deep_view();
        assert(nv =~= seq![value@]);
        self.entries.push((key, vs));
        proof {
            assert(self@ =~= before.push((kv, nv)));
            assert(keys_unique(self@));
            assert forall|k: Seq<char>|
                lookup(self@, k) == if k == kv {
                    Some(
                        match lookup(before, k) {
                            Some(vs) => vs,
                            None => seq![],
                        }.push(value@),
                    )
                } else {
                    lookup(before, k)
                } by {
                lemma_lookup_push(before, kv, nv, k);
                assert(Seq::<Seq<char>>::empty().push(value@) =~= nv);
            }
        }
    }
}

/// `form_urlencoded::parse`, each pair owned: the pairs are named
/// [`urlencoded_pairs`].
#[verifier::external_body]
fn urlencoded_parse(input: &[u8]) -> (r: Vec<(String, String)>)
    ensures
        r@.map_values(|p: (String, String)| (p.0@, p.1@)) == urlencoded_pairs(input@),
{
    form_urlencoded::parse(input).into_owned().collect()
}

/// Group posted pairs by name, keeping repeated names' values in order.
pub fn group_pairs(pairs: &Vec<(String, String)>) -> (r: FormValues)
    ensures
        r.wf(),
        forall|k: Seq<char>|
            lookup(r@, k) == grouped(pairs@.map_values(|p: (String, String)| (p.0@, p.1@)), k),
{
    let ghost pv = pairs@.map_values(|p: (String, String)| (p.0@, p.1@));
    let mut values = FormValues::new();
    let n = pairs.len();
    let mut i: usize = 0;
    while i < n
        invariant
            i <= n,
            n == pairs@.len(),
            pv == pairs@.map_values(|p: (String, String)| (p.0@, p.1@)),
            values.wf(),
            forall|k: Seq<char>| lookup(values@, k) == grouped(pv.take(i as int), k),
        decreases n - i,
    {
        let key = pairs[i].0.clone();
        let value = pairs[i].1.clone();
        let ghost before = values@;
        values.push_value(key, value);
        proof {
            assert(pv.take(i + 1).drop_last() =~= pv.take(i as int));
            assert(pv.take(i + 1).last() == pv[i as int]);
            assert forall|k: Seq<char>| lookup(values@, k) == grouped(pv.take(i + 1), k) by {
                assert(lookup(before, k) == grouped(pv.take(i as int), k));
            }
        }
        i = i + 1;
    }
    assert(pv.take(n as int) =~= pv);
    values
}

/// Parse an `application/x-www-form-urlencoded` payload (a body or a query
/// string) into a multi-value map, preserving repeated names (checkbox groups).
pub fn parse_pairs(raw: &str) -> (r: FormValues)
    ensures
        r.wf(),
        forall|k: Seq<char>| lookup(r@, k) == grouped(urlencoded_pairs(crate::auth::utf8(raw@)), k),
{
    let pairs = urlencoded_parse(raw.as_bytes());
    group_pairs(&pairs)
}

} // verus!
