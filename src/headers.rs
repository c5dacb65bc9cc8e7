//! An ordered multimap of header names to values.
use vstd::prelude::*;

verus! {

/// `c` in ASCII lower case: `A` to `Z` become `a` to `z`, every other
/// character stays.
pub open spec fn lower_char(c: char) -> char {
    if 'A' <= c && c <= 'Z' {
        ((c as u32) + 32) as char
    } else {
        c
    }
}

/// `s` in ASCII lower case, character by character.
pub open spec fn ascii_lower(s: Seq<char>) -> Seq<char> {
    s.map_values(|c: char| lower_char(c))
}

/// Relies on `str::to_ascii_lowercase`: each ASCII letter `A` to `Z` becomes
/// `a` to `z`, and every other character is kept.
#[verifier::external_body]
fn to_ascii_lower(s: &str) -> (r: String)
    ensures
        r@ == ascii_lower(s@),
{
    s.to_ascii_lowercase()
}

/// Header entries as text, in order.
pub type Entries = Seq<(Seq<char>, Seq<char>)>;

/// `s` without any entry named `name`; the others keep their order.
pub open spec fn without(s: Entries, name: Seq<char>) -> Entries
    decreases s.len(),
{
    if s.len() == 0 {
        s
    } else {
        let w = without(s.drop_last(), name);
        if s.last().0 == name {
            w
        } else {
            w.push(s.last())
        }
    }
}

/// Whether some entry of `s` is named `name`.
pub open spec fn has_name(s: Entries, name: Seq<char>) -> bool {
    exists|i: int| 0 <= i < s.len() && (#[trigger] s[i]).0 == name
}

/// The values of the entries named `name`, in order.
pub open spec fn values_of(s: Entries, name: Seq<char>) -> Seq<Seq<char>>
    decreases s.len(),
{
    if s.len() == 0 {
        seq![]
    } else {
        let w = values_of(s.drop_last(), name);
        if s.last().0 == name {
            w.push(s.last().1)
        } else {
            w
        }
    }
}

/// `s` with every entry named `name` replaced by one entry holding `value`.
pub open spec fn with_value(s: Entries, name: Seq<char>, value: Seq<char>) -> Entries {
    without(s, name).push((name, value))
}

/// An entry is named `name` exactly when it has a value under that name.
pub proof fn lemma_has_name_values(s: Entries, name: Seq<char>)
    ensures
        has_name(s, name) <==> values_of(s, name).len() > 0,
    decreases s.len(),
{
    if s.len() > 0 {
        let d = s.drop_last();
        lemma_has_name_values(d, name);
        if has_name(d, name) {
            let i = choose|i: int| 0 <= i < d.len() && (#[trigger] d[i]).0 == name;
            assert(s[i] == d[i]);
        }
        if has_name(s, name) && s.last().0 != name {
            let i = choose|i: int| 0 <= i < s.len() && (#[trigger] s[i]).0 == name;
            assert(d[i] == s[i]);
        }
        if s.last().0 == name {
            assert(s[s.len() - 1].0 == name);
        }
    }
}

/// Removing one name leaves the values under every other name as they were.
pub proof fn lemma_without_values(s: Entries, name: Seq<char>, other: Seq<char>)
    ensures
        values_of(without(s, name), other) == if name == other {
            Seq::<Seq<char>>::empty()
        } else {
            values_of(s, other)
        },
    decreases s.len(),
{
    if s.len() > 0 {
        lemma_without_values(s.drop_last(), name, other);
        let w = without(s.drop_last(), name);
        if s.last().0 != name {
            assert(w.push(s.last()).drop_last() =~= w);
        }
    }
}

/// Names that `without` does not remove stay present exactly when they were.
pub proof fn lemma_without_has(s: Entries, name: Seq<char>, other: Seq<char>)
    ensures
        has_name(without(s, name), other) <==> (name != other && has_name(s, other)),
{
    lemma_has_name_values(without(s, name), other);
    lemma_has_name_values(s, other);
    lemma_without_values(s, name, other);
}

/// Pushing an entry adds its value under its own name only.
pub proof fn lemma_push_values(s: Entries, e: (Seq<char>, Seq<char>), other: Seq<char>)
    ensures
        values_of(s.push(e), other) == if e.0 == other {
            values_of(s, other).push(e.1)
        } else {
            values_of(s, other)
        },
{
    assert(s.push(e).drop_last() =~= s);
}

/// A list of header entries; a name may carry several values. Names are
/// compared without regard to ASCII case and kept in lower case.
#[derive(Debug, Clone)]
pub struct HeaderMap {
    entries: Vec<(String, String)>,
}

impl View for HeaderMap {
    type V = Entries;

    closed spec fn view(&self) -> Entries {
        self.entries@.map_values(|e: (String, String)| (e.0@, e.1@))
    }
}

impl HeaderMap {
    /// An empty map.
    pub fn new() -> (r: HeaderMap)
        ensures
            r@ == Seq::<(Seq<char>, Seq<char>)>::empty(),
    {
        let r = HeaderMap { entries: Vec::new() };
        proof {
            assert(r@ =~= Seq::<(Seq<char>, Seq<char>)>::empty());
        }
        r
    }

    /// The number of entries.
    pub fn len(&self) -> (r: usize)
        ensures
            r == self@.len(),
    {
        self.entries.len()
    }

    /// Entry `i`, name and value.
    pub fn entry_at(&self, i: usize) -> (r: (String, String))
        requires
            i < self@.len(),
        ensures
            (r.0@, r.1@) == self@[i as int],
    {
        (self.entries[i].0.clone(), self.entries[i].1.clone())
    }

    /// Whether some entry is named `name`, in any ASCII case.
    pub fn contains_key(&self, name: &str) -> (r: bool)
        ensures
            r == has_name(self@, ascii_lower(name@)),
    {
        let key = to_ascii_lower(name);
        let mut i: usize = 0;
        while i < self.entries.len()
            invariant
                i <= self.entries@.len(),
                key@ == ascii_lower(name@),
                forall|j: int| 0 <= j < i ==> (#[trigger] self@[j]).0 != ascii_lower(name@),
            decreases self.entries@.len() - i,
        {
            if self.entries[i].0 == key {
                assert(self@[i as int].0 == ascii_lower(name@));
                return true;
            }
            assert(self@[i as int].0 != ascii_lower(name@));
            i = i + 1;
        }
        false
    }

    /// The first value under `name`, in any ASCII case, if any.
    pub fn get(&self, name: &str) -> (r: Option<String>)
        ensures
            match r {
                Some(v) => values_of(self@, ascii_lower(name@)).len() > 0 && v@ == values_of(
                    self@,
                    ascii_lower(name@),
                )[0],
                None => values_of(self@, ascii_lower(name@)).len() == 0,
            },
    {
        let key = to_ascii_lower(name);
        let mut found: Option<String> = None;
        let mut i: usize = self.entries.len();
        while i > 0
            invariant
                i <= self.entries@.len(),
                key@ == ascii_lower(name@),
                match found {
                    Some(v) => values_of(self@.subrange(i as int, self@.len() as int), key@).len()
                        > 0 && v@ == values_of(self@.subrange(i as int, self@.len() as int), key@)[0],
                    None => values_of(self@.subrange(i as int, self@.len() as int), key@).len() == 0,
                },
            decreases i,
        {
            i = i - 1;
            proof {
                lemma_prepend_values(self@.subrange(i + 1, self@.len() as int), self@[i as int], key@);
                assert(seq![self@[i as int]] + self@.subrange(i + 1, self@.len() as int)
                    =~= self@.subrange(i as int, self@.len() as int));
            }
            assert(self@[i as int] == (self.entries@[i as int].0@, self.entries@[i as int].1@));
            if self.entries[i].0 == key {
                found = Some(self.entries[i].1.clone());
            }
        }
        proof {
            assert(self@.subrange(0, self@.len() as int) =~= self@);
        }
        found
    }

    /// Removes every entry named `name`, in any ASCII case.
    pub fn remove(&mut self, name: &str)
        ensures
            final(self)@ == without(old(self)@, ascii_lower(name@)),
    {
        let key = to_ascii_lower(name);
        let mut kept: Vec<(String, String)> = Vec::new();
        let ghost s = self@;
        let mut i: usize = 0;
        while i < self.entries.len()
            invariant
                i <= self.entries@.len(),
                s == self@,
                key@ == ascii_lower(name@),
                kept@.map_values(|e: (String, String)| (e.0@, e.1@)) == without(s.take(i as int), key@),
            decreases self.entries@.len() - i,
        {
            proof {
                assert(s.take(i + 1).drop_last() =~= s.take(i as int));
            }
            assert(s[i as int] == (self.entries@[i as int].0@, self.entries@[i as int].1@));
            assert(s.take(i + 1).last() == s[i as int]);
            let ghost before = kept@;
            if self.entries[i].0 != key {
                let e = (self.entries[i].0.clone(), self.entries[i].1.clone());
                kept.push(e);
                assert(kept@ == before.push(e));
            }
            proof {
                assert(kept@.map_values(|e: (String, String)| (e.0@, e.1@)) =~= without(
                    s.take(i + 1),
                    key@,
                ));
            }
            i = i + 1;
        }
        proof {
            assert(s.take(i as int) =~= s);
        }
        self.entries = kept;
    }

    /// Replaces every entry named `name`, in any ASCII case, by one entry
    /// holding `value` under the lower-case name.
    pub fn insert(&mut self, name: &str, value: String)
        ensures
            final(self)@ == with_value(old(self)@, ascii_lower(name@), value@),
    {
        self.remove(name);
        self.entries.push((to_ascii_lower(name), value));
        proof {
            assert(self@ =~= with_value(old(self)@, ascii_lower(name@), value@));
        }
    }

    /// Adds an entry under the lower-case `name`, keeping those already there.
    pub fn append(&mut self, name: &str, value: String)
        ensures
            final(self)@ == old(self)@.push((ascii_lower(name@), value@)),
    {
        self.entries.push((to_ascii_lower(name), value));
        proof {
            assert(self@ =~= old(self)@.push((ascii_lower(name@), value@)));
        }
    }
}

/// Putting an entry in front adds its value first under its own name.
pub proof fn lemma_prepend_values(s: Entries, e: (Seq<char>, Seq<char>), other: Seq<char>)
    ensures
        values_of(seq![e] + s, other) == if e.0 == other {
            seq![e.1] + values_of(s, other)
        } else {
            values_of(s, other)
        },
    decreases s.len(),
{
    if s.len() == 0 {
        let t = seq![e];
        assert(seq![e] + s =~= t);
        assert(t.drop_last() =~= Seq::<(Seq<char>, Seq<char>)>::empty());
        assert(values_of(t.drop_last(), other) == Seq::<Seq<char>>::empty());
        assert(t.last() == e);
        assert(values_of(s, other) == Seq::<Seq<char>>::empty());
        assert(seq![e.1] + Seq::<Seq<char>>::empty() =~= seq![e.1]);
        assert(Seq::<Seq<char>>::empty().push(e.1) =~= seq![e.1]);
    } else {
        lemma_prepend_values(s.drop_last(), e, other);
        assert((seq![e] + s).drop_last() =~= seq![e] + s.drop_last());
        assert((seq![e] + s).last() == s.last());
        if e.0 == other {
            assert((seq![e.1] + values_of(s.drop_last(), other)).push(s.last().1) =~= seq![e.1]
                + values_of(s.drop_last(), other).push(s.last().1));
        }
    }
}

} // verus!
