//! Header names, values, and the map from names to values.

pub mod name;
pub mod value;

use vstd::prelude::*;

use crate::error::{Error, ErrorKind, InvalidHeaderName};
use crate::header::name::{spec_header_name_of, HeaderName};
use crate::header::value::HeaderValue;

verus! {

/// The map denoted by a sequence of header entries: later entries overwrite
/// earlier ones with the same name.
pub open spec fn map_of(s: Seq<(HeaderName, Seq<u8>)>) -> Map<HeaderName, Seq<u8>>
    decreases s.len(),
{
    if s.len() == 0 {
        Map::empty()
    } else {
        map_of(s.drop_last()).insert(s.last().0, s.last().1)
    }
}

/// Holds when no two entries of `s` share a name.
pub open spec fn unique_names(s: Seq<(HeaderName, Seq<u8>)>) -> bool {
    forall|i: int, j: int| 0 <= i < j < s.len() ==> (#[trigger] s[i]).0 != (#[trigger] s[j]).0
}

/// A name is in the map of `s` exactly when some entry of `s` carries it.
pub proof fn lemma_map_of_domain(s: Seq<(HeaderName, Seq<u8>)>, n: HeaderName)
    ensures
        map_of(s).contains_key(n) <==> exists|i: int| 0 <= i < s.len() && (#[trigger] s[i]).0 == n,
    decreases s.len(),
{
    if s.len() > 0 {
        lemma_map_of_domain(s.drop_last(), n);
        if s.last().0 == n {
            assert((#[trigger] s[s.len() - 1]).0 == n);
        } else if map_of(s).contains_key(n) {
            let i = choose|i: int| 0 <= i < s.drop_last().len() && (#[trigger] s.drop_last()[i]).0
                == n;
            assert((#[trigger] s[i]).0 == n);
        } else {
            assert forall|i: int| 0 <= i < s.len() && (#[trigger] s[i]).0 == n implies false by {
                if i < s.len() - 1 {
                    assert((#[trigger] s.drop_last()[i]).0 == n);
                }
            }
        }
    }
}

/// In a sequence whose names are unique, the map of `s` sends the name of
/// entry `i` to that entry's value.
pub proof fn lemma_map_of_at(s: Seq<(HeaderName, Seq<u8>)>, i: int)
    requires
        unique_names(s),
        0 <= i < s.len(),
    ensures
        map_of(s).contains_key(s[i].0),
        map_of(s)[s[i].0] == s[i].1,
    decreases s.len(),
{
    if i == s.len() - 1 {
    } else {
        lemma_map_of_at(s.drop_last(), i);
        assert(s.drop_last()[i] == s[i]);
    }
}

/// A map from recognized header names to values, with unique keys.
#[derive(Debug)]
pub struct HeaderMap {
    entries: Vec<(HeaderName, HeaderValue)>,
}

impl HeaderMap {
    /// The entries in storage order, a contract of the encoder.
    pub closed spec fn entries_seq(&self) -> Seq<(HeaderName, Seq<u8>)> {
        self.entries@.map(|_i: int, e: (HeaderName, HeaderValue)| (e.0, e.1@))
    }

    /// The mapping a contract speaks of.
    pub open spec fn as_map(&self) -> Map<HeaderName, Seq<u8>> {
        map_of(self.entries_seq())
    }

    /// No two entries share a name.
    pub open spec fn wf(&self) -> bool {
        unique_names(self.entries_seq())
    }

    /// Creates a new, empty `HeaderMap`.
    pub fn new() -> (m: HeaderMap)
        ensures
            m.wf(),
            m.as_map() == Map::<HeaderName, Seq<u8>>::empty(),
            m.entries_seq() == Seq::<(HeaderName, Seq<u8>)>::empty(),
    {
        let m = HeaderMap { entries: Vec::new() };
        proof {
            assert(m.entries_seq() =~= Seq::<(HeaderName, Seq<u8>)>::empty());
        }
        m
    }

    /// The number of headers in the map.
    pub fn len(&self) -> (n: usize)
        ensures
            n == self.entries_seq().len(),
    {
        self.entries.len()
    }

    /// Returns the entry at a storage index, name and value copied out.
    pub fn entry_at(&self, i: usize) -> (e: (HeaderName, HeaderValue))
        requires
            i < self.entries_seq().len(),
        ensures
            (e.0, e.1@) == self.entries_seq()[i as int],
    {
        let pair = &self.entries[i];
        (pair.0, pair.1.clone())
    }

    /// Finds the storage index of a name, if present.
    fn position_of(&self, name: HeaderName) -> (r: Option<usize>)
        ensures
            match r {
                Some(i) => i < self.entries_seq().len() && self.entries_seq()[i as int].0 == name,
                None => forall|k: int|
                    0 <= k < self.entries_seq().len() ==> (#[trigger] self.entries_seq()[k]).0
                        != name,
            },
    {
        let mut i: usize = 0;
        while i < self.entries.len()
            invariant
                i <= self.entries.len(),
                forall|k: int| 0 <= k < i ==> (#[trigger] self.entries_seq()[k]).0 != name,
            decreases self.entries.len() - i,
        {
            if self.entries[i].0 == name {
                return Some(i);
            }
            i += 1;
        }
        None
    }

    /// Inserts a header, the name and value given as raw bytes.
    ///
    /// A recognized name replaces any entry already stored under it and hands
    /// back the replaced value; an unrecognized name is an
    /// `InvalidHeaderName` error and leaves the map unchanged.
    pub fn insert(&mut self, name: &[u8], value: &[u8]) -> (r: Result<Option<HeaderValue>, Error>)
        requires
            old(self).wf(),
        ensures
            final(self).wf(),
            match spec_header_name_of(name@) {
                Some(n) => {
                    &&& r is Ok
                    &&& final(self).as_map() == old(self).as_map().insert(n, value@)
                    &&& match r->Ok_0 {
                        Some(prev) => old(self).as_map().contains_key(n) && prev@ == old(
                            self,
                        ).as_map()[n],
                        None => !old(self).as_map().contains_key(n),
                    }
                },
                None => {
                    &&& r is Err
                    &&& r->Err_0.kind() == ErrorKind::Header(InvalidHeaderName)
                    &&& *final(self) == *old(self)
                },
            },
    {
        match HeaderName::from_bytes(name) {
            Some(n) => {
                let v = HeaderValue::from_slice(value);
                Ok(self.insert_pair(n, v))
            },
            None => Err(Error::of_kind(ErrorKind::Header(InvalidHeaderName))),
        }
    }

    /// Inserts an already recognized name with its value, replacing and
    /// handing back any entry already stored under the name.
    pub fn insert_pair(&mut self, name: HeaderName, value: HeaderValue) -> (prev: Option<
        HeaderValue,
    >)
        requires
            old(self).wf(),
        ensures
            final(self).wf(),
            final(self).as_map() == old(self).as_map().insert(name, value@),
            match prev {
                Some(p) => old(self).as_map().contains_key(name) && p@ == old(self).as_map()[name],
                None => !old(self).as_map().contains_key(name),
            },
    {
        let ghost s_old = self.entries_seq();
        match self.position_of(name) {
            Some(i) => {
                proof {
                    lemma_map_of_at(s_old, i as int);
                }
                let removed = self.entries.remove(i);
                let ghost s_mid = self.entries_seq();
                proof {
                    assert(s_mid =~= s_old.remove(i as int));
                }
                self.entries.push((name, value));
                proof {
                    let s_new = self.entries_seq();
                    assert(s_new =~= s_mid.push((name, value@)));
                    assert(s_new.drop_last() =~= s_mid);
                    assert(unique_names(s_new)) by {
                        assert forall|a: int, b: int| 0 <= a < b < s_new.len() implies (
                        #[trigger] s_new[a]).0 != (#[trigger] s_new[b]).0 by {
                            if b < s_new.len() - 1 {
                                let a0 = if a < i { a } else { a + 1 };
                                let b0 = if b < i { b } else { b + 1 };
                                assert(s_old[a0] == s_new[a] && s_old[b0] == s_new[b]);
                            } else {
                                let a0 = if a < i { a } else { a + 1 };
                                assert(s_old[a0] == s_new[a]);
                                assert(s_old[a0].0 != s_old[i as int].0);
                            }
                        }
                    }
                    assert(self.as_map() =~= map_of(s_old).insert(name, value@)) by {
                        lemma_map_insert_after_remove(s_old, i as int, value@);
                    }
                }
                Some(removed.1)
            },
            None => {
                self.entries.push((name, value));
                proof {
                    let s_new = self.entries_seq();
                    assert(s_new =~= s_old.push((name, value@)));
                    assert(s_new.drop_last() =~= s_old);
                    assert(unique_names(s_new)) by {
                        assert forall|a: int, b: int| 0 <= a < b < s_new.len() implies (
                        #[trigger] s_new[a]).0 != (#[trigger] s_new[b]).0 by {
                            if b < s_new.len() - 1 {
                                assert(s_old[a] == s_new[a] && s_old[b] == s_new[b]);
                            } else {
                                assert(s_old[a] == s_new[a]);
                            }
                        }
                    }
                    lemma_map_of_domain(s_old, name);
                }
                None
            },
        }
    }

    /// Returns the header value stored under a name, if any.
    pub fn get(&self, name: &HeaderName) -> (r: Option<&HeaderValue>)
        requires
            self.wf(),
        ensures
            match r {
                Some(v) => self.as_map().contains_key(*name) && v@ == self.as_map()[*name],
                None => !self.as_map().contains_key(*name),
            },
    {
        match self.position_of(*name) {
            Some(i) => {
                proof {
                    lemma_map_of_at(self.entries_seq(), i as int);
                }
                Some(&self.entries[i].1)
            },
            None => {
                proof {
                    lemma_map_of_domain(self.entries_seq(), *name);
                }
                None
            },
        }
    }
}

/// Inserting a header and then looking its name up returns the inserted
/// value unchanged, whatever the map held before: the law tying
/// `HeaderMap::insert` to `HeaderMap::get`, stated over the map view their
/// contracts share.
pub proof fn lemma_insert_get(m: Map<HeaderName, Seq<u8>>, n: HeaderName, v: Seq<u8>)
    ensures
        m.insert(n, v).contains_key(n),
        m.insert(n, v)[n] == v,
{
}

/// Removing the unique entry with a name and reinserting the name denotes the
/// same map as inserting over the original sequence.
proof fn lemma_map_insert_after_remove(s: Seq<(HeaderName, Seq<u8>)>, i: int, v: Seq<u8>)
    requires
        unique_names(s),
        0 <= i < s.len(),
    ensures
        map_of(s.remove(i).push((s[i].0, v))) == map_of(s).insert(s[i].0, v),
{
    let n = s[i].0;
    let lhs = map_of(s.remove(i).push((n, v)));
    let rhs = map_of(s).insert(n, v);
    assert(s.remove(i).push((n, v)).drop_last() =~= s.remove(i));
    assert(lhs == map_of(s.remove(i)).insert(n, v));
    assert forall|k: HeaderName| lhs.contains_key(k) <==> rhs.contains_key(k) by {
        lemma_map_of_domain(s.remove(i), k);
        lemma_map_of_domain(s, k);
        if k == n {
            assert((#[trigger] s[i]).0 == n);
        } else {
            if exists|a: int| 0 <= a < s.remove(i).len() && (#[trigger] s.remove(i)[a]).0 == k {
                let a = choose|a: int|
                    0 <= a < s.remove(i).len() && (#[trigger] s.remove(i)[a]).0 == k;
                let a0 = if a < i { a } else { a + 1 };
                assert((#[trigger] s[a0]).0 == k);
            }
            if exists|a: int| 0 <= a < s.len() && (#[trigger] s[a]).0 == k {
                let a = choose|a: int| 0 <= a < s.len() && (#[trigger] s[a]).0 == k;
                let a0 = if a < i { a } else { a - 1 };
                assert(a != i);
                assert((#[trigger] s.remove(i)[a0]).0 == k);
            }
        }
    }
    assert forall|k: HeaderName| lhs.contains_key(k) implies lhs[k] == rhs[k] by {
        if k != n {
            lemma_map_of_domain(s.remove(i), k);
            let a = choose|a: int| 0 <= a < s.remove(i).len() && (#[trigger] s.remove(i)[a]).0 == k;
            assert(unique_names(s.remove(i))) by {
                assert forall|x: int, y: int| 0 <= x < y < s.remove(i).len() implies (
                #[trigger] s.remove(i)[x]).0 != (#[trigger] s.remove(i)[y]).0 by {
                    let x0 = if x < i { x } else { x + 1 };
                    let y0 = if y < i { y } else { y + 1 };
                    assert(s[x0] == s.remove(i)[x] && s[y0] == s.remove(i)[y]);
                }
            }
            lemma_map_of_at(s.remove(i), a);
            let a0 = if a < i { a } else { a + 1 };
            assert(s[a0] == s.remove(i)[a]);
            lemma_map_of_at(s, a0);
        }
    }
    assert(lhs =~= rhs);
}

} // verus!
