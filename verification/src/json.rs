use vstd::prelude::*;

verus! {

/// A decoded JSON-like value: the generic shape that submitted inputs and
/// validated outputs are made of. Numbers keep the three-way split that the
/// decode step distinguishes: a whole number at or above zero, a whole number
/// below zero, and a number with a fractional representation. The fractional
/// case carries the raw bit pattern of the decoded 64-bit binary floating
/// point value; this layer never interprets those bits, it only carries them
/// through.
#[derive(Debug)]
pub enum JsonValue {
    Null,
    Bool(bool),
    /// A whole number at or above zero.
    Unsigned(u64),
    /// A whole number below zero.
    Signed(i64),
    /// A number with a fractional representation, as raw bits.
    Decimal(u64),
    Text(String),
    Array(Vec<JsonValue>),
    Object(JsonObject),
}

impl JsonValue {
    /// The value can be read as a text scalar.
    pub open spec fn is_text(self) -> bool {
        self is Text
    }

    /// The value can be read as a signed 64-bit whole number.
    pub open spec fn is_whole_number(self) -> bool {
        match self {
            JsonValue::Unsigned(n) => n <= i64::MAX as u64,
            JsonValue::Signed(_) => true,
            _ => false,
        }
    }

    /// The value can be read as a 64-bit floating point number: every kind of
    /// number qualifies, so whole numbers are a subset of decimals.
    pub open spec fn is_decimal_number(self) -> bool {
        self is Unsigned || self is Signed || self is Decimal
    }

    /// The value is exactly a boolean scalar.
    pub open spec fn is_boolean(self) -> bool {
        self is Bool
    }
}

/// True when no key occurs twice in the entry list.
pub open spec fn unique_keys(s: Seq<(String, JsonValue)>) -> bool {
    forall|i: int, j: int| 0 <= i < j < s.len() ==> s[i].0@ != s[j].0@
}

/// The map that an entry list denotes; a later entry for a key overrides an
/// earlier one.
pub open spec fn map_of(s: Seq<(String, JsonValue)>) -> Map<Seq<char>, JsonValue>
    decreases s.len(),
{
    if s.len() == 0 {
        Map::empty()
    } else {
        map_of(s.drop_last()).insert(s.last().0@, s.last().1)
    }
}

/// A key-value object of JSON-like values, the shape that raw input decodes
/// into and that validated output is assembled in. Keys are unique; lookup is
/// by the key's characters.
#[derive(Debug)]
pub struct JsonObject {
    entries: Vec<(String, JsonValue)>,
}

impl View for JsonObject {
    type V = Map<Seq<char>, JsonValue>;

    open spec fn view(&self) -> Map<Seq<char>, JsonValue> {
        map_of(self.kv())
    }
}

impl JsonObject {
    /// The entry list itself, for reasoning about order and uniqueness.
    pub closed spec fn kv(&self) -> Seq<(String, JsonValue)> {
        self.entries@
    }

    /// Well-formedness: no key occurs twice.
    pub open spec fn wf(&self) -> bool {
        unique_keys(self.kv())
    }

    pub fn new() -> (o: JsonObject)
        ensures
            o.wf(),
            o@ == Map::<Seq<char>, JsonValue>::empty(),
            o.kv() == Seq::<(String, JsonValue)>::empty(),
    {
        JsonObject { entries: Vec::new() }
    }

    /// Wrap an entry list as an object, keys as given.
    pub(crate) fn from_entries(entries: Vec<(String, JsonValue)>) -> (o: JsonObject)
        ensures
            o.kv() == entries@,
    {
        JsonObject { entries }
    }

    /// The index of the first entry whose key has the given characters.
    fn find_key(&self, key: &str) -> (r: Option<usize>)
        ensures
            match r {
                Some(i) => i < self.kv().len() && self.kv()[i as int].0@ == key@ && (forall|j: int|
                    0 <= j < i ==> self.kv()[j].0@ != key@),
                None => forall|j: int| 0 <= j < self.kv().len() ==> self.kv()[j].0@ != key@,
            },
    {
        let owned: String = key.to_owned();
        let n: usize = self.entries.len();
        let mut i: usize = 0;
        while i < n
            invariant
                n == self.entries@.len(),
                i <= n,
                owned@ == key@,
                forall|j: int| 0 <= j < i ==> self.entries@[j].0@ != key@,
            decreases n - i,
        {
            if self.entries[i].0 == owned {
                return Some(i);
            }
            i = i + 1;
        }
        None
    }

    /// Bind `key` to `value`, replacing any entry that already carries the
    /// key's characters.
    pub fn insert(&mut self, key: String, value: JsonValue)
        requires
            old(self).wf(),
        ensures
            final(self).wf(),
            final(self)@ == old(self)@.insert(key@, value),
    {
        match self.find_key(key.as_str()) {
            Some(i) => {
                proof {
                    lemma_map_of_remove(self.kv(), i as int);
                    lemma_unique_remove(self.kv(), i as int);
                    self.kv().remove_ensures(i as int);
                }
                self.entries.remove(i);
                proof {
                    let ghost prior = self.kv();
                    assert forall|j: int| 0 <= j < prior.len() implies prior[j].0@ != key@ by {
                        if j < i {
                            assert(prior[j] == old(self).kv()[j]);
                        } else {
                            assert(prior[j] == old(self).kv()[j + 1]);
                        }
                    }
                }
                self.entries.push((key, value));
                proof {
                    assert(self.kv().drop_last() =~= old(self).kv().remove(i as int));
                    assert(self@ =~= old(self)@.insert(key@, value));
                }
            },
            None => {
                self.entries.push((key, value));
                proof {
                    assert(self.kv().drop_last() =~= old(self).kv());
                }
            },
        }
    }

    /// Take out the entry that carries the key's characters, if any.
    pub fn remove(&mut self, key: &str) -> (r: Option<JsonValue>)
        requires
            old(self).wf(),
        ensures
            final(self).wf(),
            final(self)@ == old(self)@.remove(key@),
            match r {
                Some(v) => old(self)@.contains_key(key@) && v == old(self)@[key@],
                None => !old(self)@.contains_key(key@),
            },
    {
        proof {
            lemma_map_of_contains(self.kv(), key@);
        }
        match self.find_key(key) {
            Some(i) => {
                proof {
                    lemma_map_of_at(self.kv(), i as int);
                    lemma_map_of_remove(self.kv(), i as int);
                    lemma_unique_remove(self.kv(), i as int);
                }
                Some(self.entries.remove(i).1)
            },
            None => {
                proof {
                    assert(self@.remove(key@) =~= self@);
                }
                None
            },
        }
    }

    /// The entries in order, for callers that walk the whole object.
    pub fn entries(&self) -> (r: &Vec<(String, JsonValue)>)
        ensures
            r@ == self.kv(),
    {
        &self.entries
    }

    pub fn contains_key(&self, key: &str) -> (r: bool)
        ensures
            r == self@.contains_key(key@),
    {
        proof {
            lemma_map_of_contains(self.kv(), key@);
        }
        self.find_key(key).is_some()
    }

    pub fn get(&self, key: &str) -> (r: Option<&JsonValue>)
        requires
            self.wf(),
        ensures
            match r {
                Some(v) => self@.contains_key(key@) && *v == self@[key@],
                None => !self@.contains_key(key@),
            },
    {
        proof {
            lemma_map_of_contains(self.kv(), key@);
        }
        match self.find_key(key) {
            Some(i) => {
                proof {
                    lemma_map_of_at(self.kv(), i as int);
                }
                Some(&self.entries[i].1)
            },
            None => None,
        }
    }
}

/// A key is in the denoted map exactly when some entry carries it.
proof fn lemma_map_of_contains(s: Seq<(String, JsonValue)>, k: Seq<char>)
    ensures
        map_of(s).contains_key(k) <==> exists|i: int| 0 <= i < s.len() && s[i].0@ == k,
    decreases s.len(),
{
    if s.len() > 0 {
        lemma_map_of_contains(s.drop_last(), k);
        if s.last().0@ == k {
            assert(s[s.len() - 1].0@ == k);
        } else {
            if map_of(s).contains_key(k) {
                let i = choose|i: int| 0 <= i < s.drop_last().len() && s.drop_last()[i].0@ == k;
                assert(s[i].0@ == k);
            }
            if exists|i: int| 0 <= i < s.len() && s[i].0@ == k {
                let i = choose|i: int| 0 <= i < s.len() && s[i].0@ == k;
                assert(s.drop_last()[i].0@ == k);
            }
        }
    }
}

/// Under unique keys, the denoted map sends each entry's key to that entry's
/// value.
proof fn lemma_map_of_at(s: Seq<(String, JsonValue)>, i: int)
    requires
        unique_keys(s),
        0 <= i < s.len(),
    ensures
        map_of(s).contains_key(s[i].0@),
        map_of(s)[s[i].0@] == s[i].1,
    decreases s.len(),
{
    if i == s.len() - 1 {
    } else {
        assert(unique_keys(s.drop_last())) by {
            assert(forall|p: int, q: int|
                0 <= p < q < s.drop_last().len() ==> s.drop_last()[p] == s[p]
                    && s.drop_last()[q] == s[q]);
        }
        lemma_map_of_at(s.drop_last(), i);
        assert(s.drop_last()[i] == s[i]);
        assert(s[i].0@ != s.last().0@);
    }
}

/// Removing an entry keeps the remaining keys unique.
proof fn lemma_unique_remove(s: Seq<(String, JsonValue)>, i: int)
    requires
        unique_keys(s),
        0 <= i < s.len(),
    ensures
        unique_keys(s.remove(i)),
{
    s.remove_ensures(i);
    assert forall|p: int, q: int|
        0 <= p < q < s.remove(i).len() implies s.remove(i)[p].0@ != s.remove(i)[q].0@ by {
        let p0 = if p < i { p } else { p + 1 };
        let q0 = if q < i { q } else { q + 1 };
        assert(s.remove(i)[p] == s[p0]);
        assert(s.remove(i)[q] == s[q0]);
    }
}

/// Under unique keys, dropping the entry at an index drops exactly that
/// entry's key from the denoted map.
proof fn lemma_map_of_remove(s: Seq<(String, JsonValue)>, i: int)
    requires
        unique_keys(s),
        0 <= i < s.len(),
    ensures
        map_of(s.remove(i)) == map_of(s).remove(s[i].0@),
    decreases s.len(),
{
    let k = s[i].0@;
    if i == s.len() - 1 {
        assert(s.remove(i) =~= s.drop_last());
        lemma_map_of_contains(s.drop_last(), k);
        assert(forall|j: int| 0 <= j < s.drop_last().len() ==> s.drop_last()[j] == s[j]);
        assert(!map_of(s.drop_last()).contains_key(k));
        assert(map_of(s).remove(k) =~= map_of(s.drop_last()));
    } else {
        let t = s.drop_last();
        assert(unique_keys(t)) by {
            assert(forall|p: int, q: int|
                0 <= p < q < t.len() ==> t[p] == s[p] && t[q] == s[q]);
        }
        assert(t[i] == s[i]);
        lemma_map_of_remove(t, i);
        assert(s.remove(i).drop_last() =~= t.remove(i));
        assert(s.remove(i).last() == s.last());
        assert(s.remove(i).len() > 0);
        assert(map_of(s.remove(i)) == map_of(t.remove(i)).insert(s.last().0@, s.last().1));
        assert(s[i].0@ != s.last().0@);
        assert(map_of(t).remove(k).insert(s.last().0@, s.last().1) =~= map_of(t).insert(
            s.last().0@,
            s.last().1,
        ).remove(k));
    }
}

} // verus!
