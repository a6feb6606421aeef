//! Named boolean flags packed into one word.

use vstd::prelude::*;

use crate::utils::str_equals;

verus! {

/// Up to 64 named boolean flags packed into one word. Each name is given
/// the next free bit when it is created; creating a name again gives it a
/// fresh bit.
pub struct BitFlagContainer {
    flags: u64,
    map: Vec<(String, u8)>,
    next_index: u8,
}

#[derive(Debug)]
pub enum FlagError {
    NotFound(String),
    Full,
}

/// Bit `i` of `flags`.
pub open spec fn bit(flags: u64, i: u8) -> bool {
    flags & (1u64 << (i as u64)) != 0
}

/// The position of the first entry named `k` at or after `i`, or -1.
pub open spec fn pos_from(es: Seq<(String, u8)>, k: Seq<char>, i: int) -> int
    decreases es.len() - i,
{
    if i >= es.len() || i < 0 {
        -1
    } else if es[i].0@ == k {
        i
    } else {
        pos_from(es, k, i + 1)
    }
}

/// The position of the entry named `k`, or -1.
pub open spec fn pos_of(es: Seq<(String, u8)>, k: Seq<char>) -> int {
    pos_from(es, k, 0)
}

proof fn lemma_pos_from(es: Seq<(String, u8)>, k: Seq<char>, i: int)
    requires
        0 <= i <= es.len(),
    ensures
        pos_from(es, k, i) == -1 ==> forall|j: int| i <= j < es.len() ==> es[j].0@ != k,
        pos_from(es, k, i) != -1 ==> i <= pos_from(es, k, i) < es.len() && es[pos_from(es, k, i)].0@ == k,
    decreases es.len() - i,
{
    if i < es.len() && es[i].0@ != k {
        lemma_pos_from(es, k, i + 1);
    }
}

proof fn lemma_pos_of(es: Seq<(String, u8)>, k: Seq<char>)
    ensures
        pos_of(es, k) == -1 <==> forall|j: int| 0 <= j < es.len() ==> es[j].0@ != k,
        pos_of(es, k) != -1 ==> 0 <= pos_of(es, k) < es.len() && es[pos_of(es, k)].0@ == k,
{
    lemma_pos_from(es, k, 0);
}

/// With names unique, the entry named `k` is the one at the position where
/// `k` stands.
proof fn lemma_pos_unique(es: Seq<(String, u8)>, k: Seq<char>, j: int)
    requires
        0 <= j < es.len(),
        es[j].0@ == k,
        forall|a: int, b: int| 0 <= a < es.len() && 0 <= b < es.len() && a != b ==> es[a].0@ != es[b].0@,
    ensures
        pos_of(es, k) == j,
{
    lemma_pos_of(es, k);
}

proof fn lemma_bit_set(f: u64, i: u8, j: u8)
    requires
        i < 64,
        j < 64,
    ensures
        bit(f | (1u64 << (i as u64)), i),
        i != j ==> bit(f | (1u64 << (i as u64)), j) == bit(f, j),
        !bit(f & !(1u64 << (i as u64)), i),
        i != j ==> bit(f & !(1u64 << (i as u64)), j) == bit(f, j),
{
    let a = i as u64;
    let b = j as u64;
    assert(a < 64 && b < 64 ==> (f | (1u64 << a)) & (1u64 << a) != 0) by (bit_vector);
    assert(a < 64 && b < 64 && a != b ==> (((f | (1u64 << a)) & (1u64 << b) != 0) == (f & (1u64 << b) != 0)))
        by (bit_vector);
    assert(a < 64 ==> (f & !(1u64 << a)) & (1u64 << a) == 0) by (bit_vector);
    assert(a < 64 && b < 64 && a != b ==> (((f & !(1u64 << a)) & (1u64 << b) != 0) == (f & (1u64 << b) != 0)))
        by (bit_vector);
}

impl BitFlagContainer {
    /// Names are unique, bits are handed out once each and below the next
    /// free one, and at most 64 are handed out.
    pub closed spec fn wf(&self) -> bool {
        &&& self.next_index <= 64
        &&& forall|a: int| 0 <= a < self.map@.len() ==> (#[trigger] self.map@[a]).1 < self.next_index
        &&& forall|a: int, b: int|
            0 <= a < self.map@.len() && 0 <= b < self.map@.len() && a != b ==> self.map@[a].0@ != self.map@[b].0@
                && self.map@[a].1 != self.map@[b].1
    }

    /// The flags by name.
    pub closed spec fn view(&self) -> Map<Seq<char>, bool> {
        Map::new(
            |k: Seq<char>| pos_of(self.map@, k) != -1,
            |k: Seq<char>| bit(self.flags, self.map@[pos_of(self.map@, k)].1),
        )
    }

    /// How many bits have been handed out.
    pub closed spec fn used(&self) -> nat {
        self.next_index as nat
    }

    pub fn new() -> (c: Self)
        ensures
            c.wf(),
            c.view() == Map::<Seq<char>, bool>::empty(),
            c.used() == 0,
    {
        let c = Self { flags: 0, map: Vec::new(), next_index: 0 };
        assert(c.view() =~= Map::<Seq<char>, bool>::empty());
        c
    }

    /// Creates the flag `key` with `value` on the next free bit; fails when
    /// all 64 bits are handed out.
    pub fn create_flag(&mut self, key: &str, value: bool) -> (r: Result<(), FlagError>)
        requires
            old(self).wf(),
        ensures
            final(self).wf(),
            old(self).used() >= 64 ==> (r matches Err(FlagError::Full) && final(self).view() == old(self).view()
                && final(self).used() == old(self).used()),
            old(self).used() < 64 ==> (r is Ok && final(self).view() == old(self).view().insert(key@, value)
                && final(self).used() == old(self).used() + 1),
    {
        if self.next_index >= 64 {
            return Err(FlagError::Full);
        }
        let ghost old_self = *self;
        let index = self.next_index;
        self.next_index = self.next_index + 1;
        let found = self.find(key);
        match found {
            Some(p) => {
                self.map.remove(p);
            },
            None => {},
        }
        let ghost kept = self.map@;
        self.map.push((String::from_str(key), index));
        self.set_value(index, value);
        proof {
            let old_es = old_self.map@;
            let es = self.map@;
            let n = es.len();
            lemma_pos_of(old_es, key@);
            // entry `a` of the list without `key` is entry `origin(a)` before
            let origin = |a: int| -> int {
                match found {
                    Some(p) => if a < p {
                        a
                    } else {
                        a + 1
                    },
                    None => a,
                }
            };
            assert forall|a: int| 0 <= a < n - 1 implies {
                &&& es[a] == kept[a]
                &&& 0 <= #[trigger] origin(a) < old_es.len()
                &&& kept[a] == old_es[origin(a)]
                &&& old_es[origin(a)].0@ != key@
            } by {
                if old_es[origin(a)].0@ == key@ {
                    lemma_pos_unique(old_es, key@, origin(a));
                }
            }
            assert forall|a: int| 0 <= a < n implies (#[trigger] es[a]).1 < self.next_index by {
                if a < n - 1 {
                    assert(origin(a) >= 0);
                }
            }
            assert forall|a: int, b: int| 0 <= a < n && 0 <= b < n && a != b implies es[a].0@ != es[b].0@
                && es[a].1 != es[b].1 by {
                if a < n - 1 {
                    assert(origin(a) >= 0);
                }
                if b < n - 1 {
                    assert(origin(b) >= 0);
                }
            }
            assert forall|k: Seq<char>| #[trigger] self.view().contains_key(k) == old_self.view().insert(
                key@,
                value,
            ).contains_key(k) by {
                lemma_pos_of(es, k);
                lemma_pos_of(old_es, k);
                if k == key@ {
                    lemma_pos_unique(es, k, n - 1);
                } else {
                    if pos_of(es, k) != -1 {
                        assert(origin(pos_of(es, k)) >= 0);
                    }
                    if pos_of(old_es, k) != -1 {
                        let b = pos_of(old_es, k);
                        let a = match found {
                            Some(p) => if b < p {
                                b
                            } else {
                                b - 1
                            },
                            None => b,
                        };
                        assert(origin(a) == b);
                        assert(es[a].0@ == k);
                    }
                }
            }
            assert forall|k: Seq<char>| #[trigger] self.view().contains_key(k) implies self.view()[k]
                == old_self.view().insert(key@, value)[k] by {
                lemma_pos_of(es, k);
                if k == key@ {
                    lemma_pos_unique(es, k, n - 1);
                    lemma_bit_set(old_self.flags, index, index);
                } else {
                    let a = pos_of(es, k);
                    assert(origin(a) >= 0);
                    lemma_pos_unique(old_es, k, origin(a));
                    lemma_bit_set(old_self.flags, index, es[a].1);
                }
            }
            assert(self.view() =~= old_self.view().insert(key@, value));
        }
        Ok(())
    }

    /// Sets the flag `key` to `value`; fails when there is no such flag.
    pub fn set_flag(&mut self, key: &str, value: bool) -> (r: Result<(), FlagError>)
        requires
            old(self).wf(),
        ensures
            final(self).wf(),
            final(self).used() == old(self).used(),
            !old(self).view().contains_key(key@) ==> (r matches Err(FlagError::NotFound(k)) && k@ == key@
                && final(self).view() == old(self).view()),
            old(self).view().contains_key(key@) ==> (r is Ok && final(self).view() == old(self).view().insert(key@, value)),
    {
        let ghost old_self = *self;
        let index = match self.get_index(key) {
            Ok(i) => i,
            Err(e) => return Err(e),
        };
        self.set_value(index, value);
        proof {
            let es = self.map@;
            assert(self.view() =~= old_self.view().insert(key@, value)) by {
                assert forall|k: Seq<char>| #[trigger] self.view().contains_key(k) implies self.view()[k] == old_self.view().insert(key@, value)[k] by {
                    lemma_pos_of(es, k);
                    lemma_pos_of(es, key@);
                    lemma_bit_set(old_self.flags, index, es[pos_of(es, k)].1);
                }
            }
        }
        Ok(())
    }

    /// The value of the flag `key`; fails when there is no such flag.
    pub fn get_flag(&self, key: &str) -> (r: Result<bool, FlagError>)
        requires
            self.wf(),
        ensures
            !self.view().contains_key(key@) ==> (r matches Err(FlagError::NotFound(k)) && k@ == key@),
            self.view().contains_key(key@) ==> r == Ok::<bool, FlagError>(self.view()[key@]),
    {
        let index = self.get_index(key)?;
        Ok(self.get_value(index))
    }

    /// The position of the entry named `key`.
    fn find(&self, key: &str) -> (r: Option<usize>)
        ensures
            match r {
                Some(p) => p < self.map@.len() && pos_of(self.map@, key@) == p as int,
                None => pos_of(self.map@, key@) == -1,
            },
    {
        let mut i: usize = 0;
        while i < self.map.len()
            invariant
                i <= self.map@.len(),
                pos_of(self.map@, key@) == pos_from(self.map@, key@, i as int),
            decreases self.map@.len() - i,
        {
            if str_equals(self.map[i].0.as_str(), key) {
                return Some(i);
            }
            i = i + 1;
        }
        None
    }

    /// The bit of the flag `key`.
    fn get_index(&self, key: &str) -> (r: Result<u8, FlagError>)
        requires
            self.wf(),
        ensures
            !self.view().contains_key(key@) ==> (r matches Err(FlagError::NotFound(k)) && k@ == key@),
            self.view().contains_key(key@) ==> (r matches Ok(i) && i == self.map@[pos_of(self.map@, key@)].1 && i < 64),
    {
        match self.find(key) {
            Some(p) => Ok(self.map[p].1),
            None => Err(FlagError::NotFound(String::from_str(key))),
        }
    }

    fn set_value(&mut self, index: u8, value: bool)
        requires
            index < 64,
        ensures
            final(self).map@ == old(self).map@,
            final(self).next_index == old(self).next_index,
            bit(final(self).flags, index) == value,
            forall|j: u8| j < 64 && j != index ==> bit(final(self).flags, j) == bit(old(self).flags, j),
    {
        let ghost f = self.flags;
        let mask = 1u64 << (index as u64);
        if value {
            self.flags = self.flags | mask;
        } else {
            self.flags = self.flags & !mask;
        }
        proof {
            lemma_bit_set(f, index, index);
            assert forall|j: u8| j < 64 && j != index implies bit(self.flags, j) == bit(f, j) by {
                lemma_bit_set(f, index, j);
            }
        }
    }

    fn get_value(&self, index: u8) -> (r: bool)
        requires
            index < 64,
        ensures
            r == bit(self.flags, index),
    {
        (self.flags & (1u64 << (index as u64))) != 0
    }
}

} // verus!
