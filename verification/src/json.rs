//! A JSON document model for daemon replies, with the object operations
//! (lookup, insert, remove, insert-if-absent) that the reply normalisers use.
//!
//! Numbers follow the three shapes a JSON number can take in a reply: a
//! non-negative integer, a negative integer, or a float kept as its decimal
//! text.

use vstd::prelude::*;
use vstd::string::StringExecFns;

verus! {

/// A JSON number.
#[derive(Debug)]
pub enum JsonNumber {
    /// An integer in `0..=u64::MAX`.
    PosInt(u64),
    /// A negative integer.
    NegInt(i64),
    /// A finite float, kept as its decimal text (such as `1.0` or `0.0001`).
    Float(String),
}

/// A JSON value. An object is a list of entries whose keys are distinct
/// (see [`obj_wf`]).
#[derive(Debug)]
pub enum JsonValue {
    Null,
    Bool(bool),
    Number(JsonNumber),
    Str(String),
    Array(Vec<JsonValue>),
    Object(Vec<(String, JsonValue)>),
}

/// The entries of an object have pairwise distinct keys.
pub open spec fn obj_keys_distinct(s: Seq<(String, JsonValue)>) -> bool {
    forall|i: int, j: int|
        0 <= i < s.len() && 0 <= j < s.len() && i != j ==> #[trigger] s[i].0@ != #[trigger] s[j].0@
}

/// The entries of an object have distinct keys and well-formed values.
pub open spec fn obj_wf(s: Seq<(String, JsonValue)>) -> bool {
    &&& obj_keys_distinct(s)
    &&& forall|i: int| 0 <= i < s.len() ==> (#[trigger] s[i]).1.wf()
}

/// `s` has an entry with key `k`.
pub open spec fn obj_has(s: Seq<(String, JsonValue)>, k: Seq<char>) -> bool {
    exists|i: int| 0 <= i < s.len() && #[trigger] s[i].0@ == k
}

/// The index of an entry with key `k` (meaningful when `obj_has(s, k)`).
pub open spec fn obj_index(s: Seq<(String, JsonValue)>, k: Seq<char>) -> int {
    choose|i: int| 0 <= i < s.len() && #[trigger] s[i].0@ == k
}

/// The entries of an object seen as a map from key to value.
pub open spec fn obj_map(s: Seq<(String, JsonValue)>) -> Map<Seq<char>, JsonValue> {
    Map::new(|k: Seq<char>| obj_has(s, k), |k: Seq<char>| s[obj_index(s, k)].1)
}

/// In a well-formed object, the entry at `i` is what the map holds for its key.
pub proof fn lemma_obj_map_at(s: Seq<(String, JsonValue)>, i: int)
    requires
        obj_keys_distinct(s),
        0 <= i < s.len(),
    ensures
        obj_map(s).contains_key(s[i].0@),
        obj_map(s)[s[i].0@] == s[i].1,
{
    assert(obj_has(s, s[i].0@));
    let j = obj_index(s, s[i].0@);
    assert(s[j].0@ == s[i].0@);
}

impl JsonValue {
    /// The value is an object.
    pub open spec fn is_obj(self) -> bool {
        self is Object
    }

    /// The value is an array.
    pub open spec fn is_arr(self) -> bool {
        self is Array
    }

    /// The value is an array with no elements.
    pub open spec fn is_empty_array(self) -> bool {
        self matches JsonValue::Array(a) && a@.len() == 0
    }

    /// The value is an object with no entries.
    pub open spec fn is_empty_object(self) -> bool {
        self matches JsonValue::Object(o) && o@.len() == 0
    }

    /// The value is a string whose characters are `t`.
    pub open spec fn is_str_of(self, t: Seq<char>) -> bool {
        self matches JsonValue::Str(s) && s@ == t
    }

    /// The value is a float whose decimal text is `t`.
    pub open spec fn is_float_of(self, t: Seq<char>) -> bool {
        self matches JsonValue::Number(JsonNumber::Float(s)) && s@ == t
    }

    /// Every object in the value, at any depth, holds distinct keys.
    pub open spec fn wf(self) -> bool
        decreases self,
    {
        match self {
            JsonValue::Object(o) => obj_keys_distinct(o@) && forall|i: int|
                0 <= i < o@.len() ==> (#[trigger] o@[i]).1.wf(),
            JsonValue::Array(a) => forall|i: int| 0 <= i < a@.len() ==> (#[trigger] a@[i]).wf(),
            _ => true,
        }
    }

    /// The member `k` of an object; `None` for a missing key or a non-object.
    pub open spec fn spec_get(self, k: Seq<char>) -> Option<JsonValue> {
        match self {
            JsonValue::Object(o) => if obj_has(o@, k) {
                Some(o@[obj_index(o@, k)].1)
            } else {
                None
            },
            _ => None,
        }
    }

    /// The integer value when it fits an `i64`.
    pub open spec fn spec_as_i64(self) -> Option<i64> {
        match self {
            JsonValue::Number(JsonNumber::PosInt(n)) => if n <= i64::MAX as u64 {
                Some(n as i64)
            } else {
                None
            },
            JsonValue::Number(JsonNumber::NegInt(n)) => Some(n),
            _ => None,
        }
    }

    /// The integer value when it is non-negative.
    pub open spec fn spec_as_u64(self) -> Option<u64> {
        match self {
            JsonValue::Number(JsonNumber::PosInt(n)) => Some(n),
            _ => None,
        }
    }

    /// The characters of a string value.
    pub open spec fn spec_as_str(self) -> Option<Seq<char>> {
        match self {
            JsonValue::Str(s) => Some(s@),
            _ => None,
        }
    }

    /// Whether the value is an array.
    pub fn is_array(&self) -> (r: bool)
        ensures
            r == self.is_arr(),
    {
        match self {
            JsonValue::Array(_) => true,
            _ => false,
        }
    }

    /// Whether the value is an object.
    pub fn is_object(&self) -> (r: bool)
        ensures
            r == self.is_obj(),
    {
        match self {
            JsonValue::Object(_) => true,
            _ => false,
        }
    }

    /// The member `key` of an object.
    pub fn get(&self, key: &str) -> (r: Option<&JsonValue>)
        requires
            self.wf(),
        ensures
            r is Some <==> self.spec_get(key@) is Some,
            r matches Some(v) ==> self.spec_get(key@) == Some(*v),
    {
        match self {
            JsonValue::Object(o) => match obj_find(o, key) {
                Some(i) => Some(&o[i].1),
                None => None,
            },
            _ => None,
        }
    }

    /// The value as an `i64`, when it is an integer that fits.
    pub fn as_i64(&self) -> (r: Option<i64>)
        ensures
            r == self.spec_as_i64(),
    {
        match self {
            JsonValue::Number(JsonNumber::PosInt(n)) => if *n <= 0x7fff_ffff_ffff_ffffu64 {
                Some(*n as i64)
            } else {
                None
            },
            JsonValue::Number(JsonNumber::NegInt(n)) => Some(*n),
            _ => None,
        }
    }

    /// The value as a `u64`, when it is a non-negative integer.
    pub fn as_u64(&self) -> (r: Option<u64>)
        ensures
            r == self.spec_as_u64(),
    {
        match self {
            JsonValue::Number(JsonNumber::PosInt(n)) => Some(*n),
            _ => None,
        }
    }

    /// The value as a string slice, when it is a string.
    pub fn as_str(&self) -> (r: Option<&str>)
        ensures
            r is Some <==> self is Str,
            r matches Some(s) ==> Some(s@) == self.spec_as_str(),
    {
        match self {
            JsonValue::Str(s) => Some(s.as_str()),
            _ => None,
        }
    }
}

/// A string value made from a literal.
pub fn json_string(s: &str) -> (r: JsonValue)
    ensures
        r.is_str_of(s@),
{
    JsonValue::Str(String::from_str(s))
}

/// An empty array.
pub fn empty_array() -> (r: JsonValue)
    ensures
        r.is_empty_array(),
{
    JsonValue::Array(Vec::new())
}

/// An empty object.
pub fn empty_object() -> (r: JsonValue)
    ensures
        r.is_empty_object(),
        r.wf(),
{
    JsonValue::Object(Vec::new())
}

/// The index of the entry with key `key`.
pub fn obj_find(o: &Vec<(String, JsonValue)>, key: &str) -> (r: Option<usize>)
    ensures
        r matches Some(i) ==> i < o@.len() && o@[i as int].0@ == key@,
        r is None <==> !obj_has(o@, key@),
{
    let k = String::from_str(key);
    let mut i: usize = 0;
    while i < o.len()
        invariant
            k@ == key@,
            0 <= i <= o@.len(),
            forall|j: int| 0 <= j < i ==> #[trigger] o@[j].0@ != key@,
        decreases o@.len() - i,
    {
        if o[i].0 == k {
            return Some(i);
        }
        i = i + 1;
    }
    proof {
        if obj_has(o@, key@) {
            let j = choose|j: int| 0 <= j < o@.len() && #[trigger] o@[j].0@ == key@;
            assert(o@[j].0@ == key@);
        }
    }
    None
}

/// Sets member `key` to `val`, replacing an existing value.
pub fn obj_insert(o: &mut Vec<(String, JsonValue)>, key: &str, val: JsonValue)
    requires
        obj_wf(old(o)@),
        val.wf(),
    ensures
        obj_wf(final(o)@),
        obj_map(final(o)@) == obj_map(old(o)@).insert(key@, val),
{
    let ghost v = val;
    match obj_find(o, key) {
        Some(i) => {
            let _old_entry = o.remove(i);
            o.insert(i, (String::from_str(key), val));
            proof {
                assert(forall|j: int| 0 <= j < o@.len() && j != i ==> o@[j] == old(o)@[j]);
                lemma_obj_map_at(o@, i as int);
                assert forall|k: Seq<char>| true implies (obj_has(o@, k) == (obj_has(old(o)@, k) || k == key@)) by {
                    if obj_has(o@, k) {
                        let j = choose|j: int| 0 <= j < o@.len() && #[trigger] o@[j].0@ == k;
                        if j != i {
                            assert(old(o)@[j].0@ == k);
                        }
                    }
                    if obj_has(old(o)@, k) {
                        let j = choose|j: int| 0 <= j < old(o)@.len() && #[trigger] old(o)@[j].0@ == k;
                        assert(o@[j].0@ == k);
                    }
                };
                assert forall|k: Seq<char>| #[trigger] obj_has(o@, k) && k != key@ implies
                    obj_map(o@)[k] == obj_map(old(o)@)[k] by {
                    let j = choose|j: int| 0 <= j < o@.len() && #[trigger] o@[j].0@ == k;
                    lemma_obj_map_at(o@, j);
                    lemma_obj_map_at(old(o)@, j);
                };
                assert(obj_map(o@) =~= obj_map(old(o)@).insert(key@, v));
            }
        },
        None => {
            o.push((String::from_str(key), val));
            proof {
                let n = old(o)@.len() as int;
                assert(forall|j: int| 0 <= j < n ==> o@[j] == old(o)@[j]);
                lemma_obj_map_at(o@, n);
                assert forall|k: Seq<char>| true implies (obj_has(o@, k) == (obj_has(old(o)@, k) || k == key@)) by {
                    if obj_has(o@, k) {
                        let j = choose|j: int| 0 <= j < o@.len() && #[trigger] o@[j].0@ == k;
                        if j != n {
                            assert(old(o)@[j].0@ == k);
                        }
                    }
                    if obj_has(old(o)@, k) {
                        let j = choose|j: int| 0 <= j < old(o)@.len() && #[trigger] old(o)@[j].0@ == k;
                        assert(o@[j].0@ == k);
                    }
                };
                assert forall|k: Seq<char>| #[trigger] obj_has(o@, k) && k != key@ implies
                    obj_map(o@)[k] == obj_map(old(o)@)[k] by {
                    let j = choose|j: int| 0 <= j < o@.len() && #[trigger] o@[j].0@ == k;
                    lemma_obj_map_at(o@, j);
                    lemma_obj_map_at(old(o)@, j);
                };
                assert(obj_map(o@) =~= obj_map(old(o)@).insert(key@, v));
            }
        },
    }
}

/// Sets member `key` to `val` unless the object already has that member.
pub fn obj_or_insert(o: &mut Vec<(String, JsonValue)>, key: &str, val: JsonValue)
    requires
        obj_wf(old(o)@),
        val.wf(),
    ensures
        obj_wf(final(o)@),
        obj_map(final(o)@).dom() == obj_map(old(o)@).dom().insert(key@),
        forall|k: Seq<char>|
            #![trigger obj_map(final(o)@)[k]]
            #![trigger obj_map(old(o)@).contains_key(k)]
            obj_map(old(o)@).contains_key(k) ==> obj_map(final(o)@).contains_key(k)
                && obj_map(final(o)@)[k] == obj_map(old(o)@)[k],
        forall|k: Seq<char>|
            #![trigger obj_map(final(o)@).contains_key(k)]
            k != key@ ==> obj_map(final(o)@).contains_key(k) == obj_map(old(o)@).contains_key(k),
        !obj_map(old(o)@).contains_key(key@) ==> obj_map(final(o)@)[key@] == val,
{
    if obj_find(o, key).is_none() {
        obj_insert(o, key, val);
    }
}

/// Removes member `key`, returning its value.
pub fn obj_take(o: &mut Vec<(String, JsonValue)>, key: &str) -> (r: Option<JsonValue>)
    requires
        obj_wf(old(o)@),
    ensures
        obj_wf(final(o)@),
        obj_map(final(o)@) == obj_map(old(o)@).remove(key@),
        r is Some <==> obj_map(old(o)@).contains_key(key@),
        r matches Some(v) ==> v == obj_map(old(o)@)[key@] && v.wf(),
{
    match obj_find(o, key) {
        Some(i) => {
            let entry = o.remove(i);
            proof {
                lemma_obj_map_at(old(o)@, i as int);
                assert(forall|j: int| 0 <= j < i ==> o@[j] == old(o)@[j]);
                assert(forall|j: int| i <= j < o@.len() ==> o@[j] == old(o)@[j + 1]);
                assert forall|a: int, b: int|
                    0 <= a < o@.len() && 0 <= b < o@.len() && a != b implies
                    #[trigger] o@[a].0@ != #[trigger] o@[b].0@ by {
                    let a2 = if a < i { a } else { a + 1 };
                    let b2 = if b < i { b } else { b + 1 };
                    assert(o@[a] == old(o)@[a2]);
                    assert(o@[b] == old(o)@[b2]);
                };
                assert forall|k: Seq<char>| true implies (obj_has(o@, k) == (obj_has(old(o)@, k) && k != key@)) by {
                    if obj_has(o@, k) {
                        let j = choose|j: int| 0 <= j < o@.len() && #[trigger] o@[j].0@ == k;
                        let j2 = if j < i { j } else { j + 1 };
                        assert(old(o)@[j2].0@ == k);
                        assert(j2 != i);
                    }
                    if obj_has(old(o)@, k) && k != key@ {
                        let j = choose|j: int| 0 <= j < old(o)@.len() && #[trigger] old(o)@[j].0@ == k;
                        assert(j != i);
                        let j2 = if j < i { j } else { j - 1 };
                        assert(o@[j2].0@ == k);
                    }
                };
                assert forall|k: Seq<char>| #[trigger] obj_has(o@, k) implies
                    obj_map(o@)[k] == obj_map(old(o)@)[k] by {
                    let j = choose|j: int| 0 <= j < o@.len() && #[trigger] o@[j].0@ == k;
                    let j2 = if j < i { j } else { j + 1 };
                    assert(o@[j] == old(o)@[j2]);
                    lemma_obj_map_at(o@, j);
                    lemma_obj_map_at(old(o)@, j2);
                };
                assert(obj_map(o@) =~= obj_map(old(o)@).remove(key@));
            }
            Some(entry.1)
        },
        None => {
            proof {
                assert(obj_map(o@) =~= obj_map(old(o)@).remove(key@));
            }
            None
        },
    }
}

/// The values of an object's entries, in entry order.
pub fn obj_into_values(o: Vec<(String, JsonValue)>) -> (r: Vec<JsonValue>)
    requires
        obj_wf(o@),
    ensures
        forall|i: int| 0 <= i < r@.len() ==> (#[trigger] r@[i]).wf(),
        r@ == o@.map_values(|e: (String, JsonValue)| e.1),
{
    let ghost orig = o@;
    let mut rest = o;
    let mut r: Vec<JsonValue> = Vec::new();
    while rest.len() > 0
        invariant
            r@.len() + rest@.len() == orig.len(),
            forall|j: int| 0 <= j < r@.len() ==> #[trigger] r@[j] == orig[j].1,
            forall|j: int| 0 <= j < rest@.len() ==> #[trigger] rest@[j] == orig[j + r@.len()],
            obj_wf(orig),
        decreases rest@.len(),
    {
        let e = rest.remove(0);
        r.push(e.1);
    }
    assert(r@ =~= orig.map_values(|e: (String, JsonValue)| e.1));
    r
}

} // verus!
