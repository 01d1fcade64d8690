//! JSON documents as trees.
//!
//! [`Json`] is the tree that the library builds and reads; [`JsonValue`] is the
//! mathematical value it stands for, over which every contract is stated.

use crate::text::same_text;
use vstd::prelude::*;

verus! {

/// A JSON document.
///
/// An object keeps its members in the order in which they were added.
#[derive(Debug, PartialEq, Eq)]
pub enum Json {
    Null,
    Bool(bool),
    /// A number without fraction or exponent.
    Integer(i128),
    /// Any other number, as its decimal text.
    Real(String),
    Text(String),
    Array(Vec<Json>),
    Object(Vec<(String, Json)>),
}

/// What a [`Json`] stands for.
pub enum JsonValue {
    Null,
    Bool(bool),
    Integer(int),
    Real(Seq<char>),
    Text(Seq<char>),
    Array(Seq<JsonValue>),
    Object(Seq<(Seq<char>, JsonValue)>),
}

/// The members of an object: keys with their values, in order.
pub type Members = Seq<(Seq<char>, JsonValue)>;

/// The value that a document stands for.
pub open spec fn json_value(j: Json) -> JsonValue
    decreases j,
{
    match j {
        Json::Null => JsonValue::Null,
        Json::Bool(b) => JsonValue::Bool(b),
        Json::Integer(i) => JsonValue::Integer(i as int),
        Json::Real(s) => JsonValue::Real(s@),
        Json::Text(s) => JsonValue::Text(s@),
        Json::Array(v) => JsonValue::Array(
            Seq::new(
                v@.len(),
                |i: int|
                    if 0 <= i < v@.len() {
                        json_value(v@[i])
                    } else {
                        JsonValue::Null
                    },
            ),
        ),
        Json::Object(v) => JsonValue::Object(
            Seq::new(
                v@.len(),
                |i: int|
                    if 0 <= i < v@.len() {
                        (v@[i].0@, json_value(v@[i].1))
                    } else {
                        (Seq::empty(), JsonValue::Null)
                    },
            ),
        ),
    }
}

impl View for Json {
    type V = JsonValue;

    open spec fn view(&self) -> JsonValue {
        json_value(*self)
    }
}

/// The values that a list of documents stands for.
pub open spec fn items_view(v: Seq<Json>) -> Seq<JsonValue> {
    Seq::new(v.len(), |i: int| v[i]@)
}

/// The members that a list of keyed documents stands for.
pub open spec fn members_view(v: Seq<(String, Json)>) -> Members {
    Seq::new(v.len(), |i: int| (v[i].0@, v[i].1@))
}

/// What a document that may be absent stands for.
pub open spec fn json_view(j: Option<&Json>) -> Option<JsonValue> {
    match j {
        Some(j) => Some(j@),
        None => None,
    }
}

/// An array stands for the values of its items.
pub proof fn lemma_array_view(v: Vec<Json>)
    ensures
        Json::Array(v)@ == JsonValue::Array(items_view(v@)),
{
    let a = Json::Array(v)@->Array_0;
    let b = items_view(v@);
    assert(a =~= b);
}

/// An object stands for the members that its entries stand for.
pub proof fn lemma_object_view(v: Vec<(String, Json)>)
    ensures
        Json::Object(v)@ == JsonValue::Object(members_view(v@)),
{
    let a = Json::Object(v)@->Object_0;
    let b = members_view(v@);
    assert(a =~= b);
}

/// The position of the last member with the key `key`, or -1 where no member
/// has it.
pub open spec fn key_index(members: Members, key: Seq<char>) -> int
    decreases members.len(),
{
    if members.len() == 0 {
        -1
    } else if members.last().0 == key {
        members.len() - 1
    } else {
        key_index(members.drop_last(), key)
    }
}

/// The value under `key` among `members`: that of the last member with that key.
pub open spec fn lookup(members: Members, key: Seq<char>) -> Option<JsonValue> {
    let i = key_index(members, key);
    if i >= 0 {
        Some(members[i].1)
    } else {
        None
    }
}

/// Whether some member has the key `key`.
pub open spec fn has_key(members: Members, key: Seq<char>) -> bool {
    exists|i: int| 0 <= i < members.len() && (#[trigger] members[i]).0 == key
}

/// No key occurs twice.
pub open spec fn distinct_keys(members: Members) -> bool {
    forall|i: int, j: int|
        0 <= i < j < members.len() ==> (#[trigger] members[i]).0 != (#[trigger] members[j]).0
}

/// `members` with `value` under `key`: in the place of the last member that had
/// the key, or at the end where none had it.
pub open spec fn with_member(members: Members, key: Seq<char>, value: JsonValue) -> Members {
    let i = key_index(members, key);
    if i >= 0 {
        members.update(i, (key, value))
    } else {
        members.push((key, value))
    }
}

/// What [`key_index`] finds: the last member with the key, or that there is
/// none.
pub proof fn lemma_key_index(members: Members, key: Seq<char>)
    ensures
        -1 <= key_index(members, key) < members.len(),
        key_index(members, key) >= 0 ==> members[key_index(members, key)].0 == key,
        forall|j: int|
            key_index(members, key) < j < members.len() ==> (#[trigger] members[j]).0 != key,
        has_key(members, key) <==> key_index(members, key) >= 0,
    decreases members.len(),
{
    if members.len() > 0 {
        let front = members.drop_last();
        lemma_key_index(front, key);
        if members.last().0 != key {
            assert forall|j: int| key_index(members, key) < j < members.len() implies (
            #[trigger] members[j]).0 != key by {
                if j < front.len() {
                    assert(front[j].0 != key);
                }
            }
        }
    }
    if key_index(members, key) >= 0 {
        assert(members[key_index(members, key)].0 == key);
    }
}

/// The last member with a key is what [`key_index`] finds.
pub proof fn lemma_key_index_is(members: Members, key: Seq<char>, i: int)
    requires
        -1 <= i < members.len(),
        i >= 0 ==> members[i].0 == key,
        forall|j: int| i < j < members.len() ==> (#[trigger] members[j]).0 != key,
    ensures
        key_index(members, key) == i,
{
    lemma_key_index(members, key);
    let k = key_index(members, key);
    if k > i {
        assert(members[k].0 != key);
    }
    if k < i {
        assert(members[i].0 != key);
    }
}

impl JsonValue {
    /// The member under `key`, if this is an object that has one.
    pub open spec fn get(self, key: Seq<char>) -> Option<JsonValue> {
        match self {
            JsonValue::Object(members) => lookup(members, key),
            _ => None,
        }
    }

    /// The item at `index`, if this is an array that is long enough.
    pub open spec fn item(self, index: int) -> Option<JsonValue> {
        match self {
            JsonValue::Array(items) => if 0 <= index < items.len() {
                Some(items[index])
            } else {
                None
            },
            _ => None,
        }
    }

    /// The text, if this is one.
    pub open spec fn as_text(self) -> Option<Seq<char>> {
        match self {
            JsonValue::Text(s) => Some(s),
            _ => None,
        }
    }

    /// The flag, if this is one.
    pub open spec fn as_bool(self) -> Option<bool> {
        match self {
            JsonValue::Bool(b) => Some(b),
            _ => None,
        }
    }

    /// The number, if it is an integer from 0 to `u64::MAX`.
    pub open spec fn as_u64(self) -> Option<u64> {
        match self {
            JsonValue::Integer(i) => if 0 <= i <= u64::MAX {
                Some(i as u64)
            } else {
                None
            },
            _ => None,
        }
    }

    /// The number, if it is an integer from `i64::MIN` to `i64::MAX`.
    pub open spec fn as_i64(self) -> Option<i64> {
        match self {
            JsonValue::Integer(i) => if i64::MIN <= i <= i64::MAX {
                Some(i as i64)
            } else {
                None
            },
            _ => None,
        }
    }

    /// The items, if this is an array.
    pub open spec fn as_array(self) -> Option<Seq<JsonValue>> {
        match self {
            JsonValue::Array(items) => Some(items),
            _ => None,
        }
    }

    /// The members, if this is an object.
    pub open spec fn as_object(self) -> Option<Members> {
        match self {
            JsonValue::Object(members) => Some(members),
            _ => None,
        }
    }

    /// The document can be written out and read back unchanged: every integer
    /// lies between `i64::MIN` and `u64::MAX`, no number is a [`JsonValue::Real`],
    /// and no object has a key twice.
    pub open spec fn representable(self) -> bool
        decreases self,
    {
        match self {
            JsonValue::Null => true,
            JsonValue::Bool(_) => true,
            JsonValue::Integer(i) => i64::MIN <= i <= u64::MAX,
            JsonValue::Real(_) => false,
            JsonValue::Text(_) => true,
            JsonValue::Array(items) => forall|i: int|
                0 <= i < items.len() ==> (#[trigger] items[i]).representable(),
            JsonValue::Object(members) => distinct_keys(members) && forall|i: int|
                0 <= i < members.len() ==> (#[trigger] members[i]).1.representable(),
        }
    }
}

impl Json {
    /// The member under `key`, if this is an object that has one.
    pub fn get(&self, key: &str) -> (r: Option<&Json>)
        ensures
            match r {
                Some(j) => self@.get(key@) == Some(j@),
                None => self@.get(key@) is None,
            },
    {
        match self {
            Json::Object(entries) => {
                proof {
                    lemma_object_view(*entries);
                }
                find_member(entries, key)
            },
            _ => None,
        }
    }

    /// The item at `index`, if this is an array that is long enough.
    pub fn item(&self, index: usize) -> (r: Option<&Json>)
        ensures
            match r {
                Some(j) => self@.item(index as int) == Some(j@),
                None => self@.item(index as int) is None,
            },
    {
        match self {
            Json::Array(items) => {
                proof {
                    lemma_array_view(*items);
                }
                if index < items.len() {
                    Some(&items[index])
                } else {
                    None
                }
            },
            _ => None,
        }
    }

    /// The text, if this is one.
    pub fn as_text(&self) -> (r: Option<&String>)
        ensures
            match r {
                Some(s) => self@.as_text() == Some(s@),
                None => self@.as_text() is None,
            },
    {
        match self {
            Json::Text(s) => Some(s),
            _ => None,
        }
    }

    /// The flag, if this is one.
    pub fn as_bool(&self) -> (r: Option<bool>)
        ensures
            r == self@.as_bool(),
    {
        match self {
            Json::Bool(b) => Some(*b),
            _ => None,
        }
    }

    /// The number, if it is an integer from 0 to `u64::MAX`.
    pub fn as_u64(&self) -> (r: Option<u64>)
        ensures
            r == self@.as_u64(),
    {
        match self {
            Json::Integer(i) => if 0 <= *i && *i <= 0xffff_ffff_ffff_ffff {
                Some(*i as u64)
            } else {
                None
            },
            _ => None,
        }
    }

    /// The number, if it is an integer from `i64::MIN` to `i64::MAX`.
    pub fn as_i64(&self) -> (r: Option<i64>)
        ensures
            r == self@.as_i64(),
    {
        match self {
            Json::Integer(i) => if -0x8000_0000_0000_0000 <= *i && *i <= 0x7fff_ffff_ffff_ffff {
                Some(*i as i64)
            } else {
                None
            },
            _ => None,
        }
    }

    /// The items, if this is an array.
    pub fn as_array(&self) -> (r: Option<&Vec<Json>>)
        ensures
            match r {
                Some(items) => self@.as_array() == Some(items_view(items@)),
                None => self@.as_array() is None,
            },
    {
        match self {
            Json::Array(items) => {
                proof {
                    lemma_array_view(*items);
                }
                Some(items)
            },
            _ => None,
        }
    }

    /// The members, if this is an object.
    pub fn as_object(&self) -> (r: Option<&Vec<(String, Json)>>)
        ensures
            match r {
                Some(entries) => self@.as_object() == Some(members_view(entries@)),
                None => self@.as_object() is None,
            },
    {
        match self {
            Json::Object(entries) => {
                proof {
                    lemma_object_view(*entries);
                }
                Some(entries)
            },
            _ => None,
        }
    }
}

/// The position of the last member of `entries` that has the key `key`.
pub fn find_key(entries: &Vec<(String, Json)>, key: &str) -> (r: Option<usize>)
    ensures
        match r {
            Some(i) => i < entries.len() && entries[i as int].0@ == key@ && forall|j: int|
                i < j < entries.len() ==> entries[j].0@ != key@,
            None => forall|j: int| 0 <= j < entries.len() ==> entries[j].0@ != key@,
        },
{
    let mut i: usize = entries.len();
    while i > 0
        invariant
            i <= entries.len(),
            forall|j: int| i <= j < entries.len() ==> entries[j].0@ != key@,
        decreases i,
    {
        i = i - 1;
        if same_text(entries[i].0.as_str(), key) {
            return Some(i);
        }
    }
    None
}

/// The value under `key` among `entries`.
pub fn find_member<'a>(entries: &'a Vec<(String, Json)>, key: &str) -> (r: Option<&'a Json>)
    ensures
        match r {
            Some(j) => lookup(members_view(entries@), key@) == Some(j@),
            None => lookup(members_view(entries@), key@) is None,
        },
{
    let ghost all = members_view(entries@);
    match find_key(entries, key) {
        Some(i) => {
            proof {
                lemma_key_index_is(all, key@, i as int);
            }
            Some(&entries[i].1)
        },
        None => {
            proof {
                lemma_key_index_is(all, key@, -1);
            }
            None
        },
    }
}

/// Puts `value` under `key`: in the place of the member that has the key, or at
/// the end where none has it.
pub fn set_member(entries: &mut Vec<(String, Json)>, key: String, value: Json)
    ensures
        members_view(final(entries)@) == with_member(members_view(old(entries)@), key@, value@),
{
    let ghost before = members_view(entries@);
    match find_key(entries, key.as_str()) {
        Some(i) => {
            proof {
                lemma_key_index_is(before, key@, i as int);
            }
            entries[i] = (key, value);
            assert(members_view(entries@) =~= before.update(i as int, (key@, value@)));
        },
        None => {
            proof {
                lemma_key_index_is(before, key@, -1);
            }
            entries.push((key, value));
            assert(members_view(entries@) =~= before.push((key@, value@)));
        },
    }
}

/// Whether no two of `entries` have one key.
fn keys_differ(entries: &Vec<(String, Json)>) -> (r: bool)
    ensures
        r == distinct_keys(members_view(entries@)),
{
    let ghost m = members_view(entries@);
    let mut j: usize = 0;
    while j < entries.len()
        invariant
            j <= entries.len(),
            m == members_view(entries@),
            forall|a: int, b: int| 0 <= a < b < j ==> (#[trigger] m[a]).0 != (#[trigger] m[b]).0,
        decreases entries.len() - j,
    {
        let mut i: usize = 0;
        while i < j
            invariant
                i <= j < entries.len(),
                m == members_view(entries@),
                forall|a: int| 0 <= a < i ==> (#[trigger] m[a]).0 != m[j as int].0,
            decreases j - i,
        {
            if same_text(entries[i].0.as_str(), entries[j].0.as_str()) {
                assert(m[i as int].0 == m[j as int].0);
                return false;
            }
            i = i + 1;
        }
        j = j + 1;
    }
    true
}

impl Json {
    /// Whether the document can be written out and read back unchanged.
    pub fn is_representable(&self) -> (r: bool)
        ensures
            r == self@.representable(),
        decreases self,
    {
        match self {
            Json::Null => true,
            Json::Bool(_) => true,
            Json::Integer(i) => -0x8000_0000_0000_0000 <= *i && *i <= 0xffff_ffff_ffff_ffff,
            Json::Real(_) => false,
            Json::Text(_) => true,
            Json::Array(items) => {
                proof {
                    lemma_array_view(*items);
                }
                let ghost all = items_view(items@);
                let mut k: usize = 0;
                while k < items.len()
                    invariant
                        k <= items.len(),
                        all == items_view(items@),
                        self == Json::Array(*items),
                        self@ == JsonValue::Array(all),
                        forall|a: int| 0 <= a < k ==> (#[trigger] all[a]).representable(),
                    decreases items.len() - k,
                {
                    proof {
                        vstd::std_specs::vec::axiom_vec_index_decreases(*items, k as int);
                    }
                    if !items[k].is_representable() {
                        proof {
                            assert(self@->Array_0 == all);
                            assert(k < all.len() && !all[k as int].representable());
                        }
                        return false;
                    }
                    k = k + 1;
                }
                true
            },
            Json::Object(entries) => {
                proof {
                    lemma_object_view(*entries);
                }
                if !keys_differ(entries) {
                    return false;
                }
                let ghost all = members_view(entries@);
                let mut k: usize = 0;
                while k < entries.len()
                    invariant
                        k <= entries.len(),
                        all == members_view(entries@),
                        self == Json::Object(*entries),
                        self@ == JsonValue::Object(all),
                        distinct_keys(all),
                        forall|a: int| 0 <= a < k ==> (#[trigger] all[a]).1.representable(),
                    decreases entries.len() - k,
                {
                    proof {
                        vstd::std_specs::vec::axiom_vec_index_decreases(*entries, k as int);
                    }
                    if !entries[k].1.is_representable() {
                        assert(!all[k as int].1.representable());
                        return false;
                    }
                    k = k + 1;
                }
                true
            },
        }
    }
}

impl Json {
    /// A copy of the document.
    pub fn duplicate(&self) -> (r: Json)
        ensures
            r@ == self@,
        decreases self,
    {
        match self {
            Json::Null => Json::Null,
            Json::Bool(b) => Json::Bool(*b),
            Json::Integer(i) => Json::Integer(*i),
            Json::Real(t) => Json::Real(t.clone()),
            Json::Text(t) => Json::Text(t.clone()),
            Json::Array(items) => {
                proof {
                    lemma_array_view(*items);
                }
                let mut out: Vec<Json> = Vec::new();
                let mut k: usize = 0;
                while k < items.len()
                    invariant
                        k <= items.len(),
                        out.len() == k,
                        self == Json::Array(*items),
                        self@ == JsonValue::Array(items_view(items@)),
                        forall|a: int| 0 <= a < k ==> out[a]@ == items[a]@,
                    decreases items.len() - k,
                {
                    proof {
                        vstd::std_specs::vec::axiom_vec_index_decreases(*items, k as int);
                    }
                    let item = items[k].duplicate();
                    out.push(item);
                    k = k + 1;
                }
                proof {
                    lemma_array_view(*items);
                    lemma_array_view(out);
                    assert(items_view(out@) =~= items_view(items@));
                }
                Json::Array(out)
            },
            Json::Object(entries) => {
                proof {
                    lemma_object_view(*entries);
                }
                let mut out: Vec<(String, Json)> = Vec::new();
                let mut k: usize = 0;
                while k < entries.len()
                    invariant
                        k <= entries.len(),
                        out.len() == k,
                        self == Json::Object(*entries),
                        self@ == JsonValue::Object(members_view(entries@)),
                        forall|a: int|
                            0 <= a < k ==> out[a].0@ == entries[a].0@ && out[a].1@ == entries[a].1@,
                    decreases entries.len() - k,
                {
                    proof {
                        vstd::std_specs::vec::axiom_vec_index_decreases(*entries, k as int);
                    }
                    let value = entries[k].1.duplicate();
                    out.push((entries[k].0.clone(), value));
                    k = k + 1;
                }
                proof {
                    lemma_object_view(*entries);
                    lemma_object_view(out);
                    assert(members_view(out@) =~= members_view(entries@));
                }
                Json::Object(out)
            },
        }
    }
}

impl Clone for Json {
    fn clone(&self) -> (r: Json)
        ensures
            r@ == self@,
    {
        self.duplicate()
    }
}

impl Json {
    /// Whether two documents stand for the same value.
    pub fn same(&self, other: &Json) -> (r: bool)
        ensures
            r == (self@ == other@),
        decreases self,
    {
        match (self, other) {
            (Json::Null, Json::Null) => true,
            (Json::Bool(a), Json::Bool(b)) => *a == *b,
            (Json::Integer(a), Json::Integer(b)) => *a == *b,
            (Json::Real(a), Json::Real(b)) => same_text(a.as_str(), b.as_str()),
            (Json::Text(a), Json::Text(b)) => same_text(a.as_str(), b.as_str()),
            (Json::Array(a), Json::Array(b)) => {
                proof {
                    lemma_array_view(*a);
                    lemma_array_view(*b);
                }
                if a.len() != b.len() {
                    assert(items_view(a@).len() != items_view(b@).len());
                    return false;
                }
                let mut k: usize = 0;
                while k < a.len()
                    invariant
                        k <= a.len(),
                        a.len() == b.len(),
                        self == Json::Array(*a),
                        self@ == JsonValue::Array(items_view(a@)),
                        other@ == JsonValue::Array(items_view(b@)),
                        forall|i: int| 0 <= i < k ==> a[i]@ == b[i]@,
                    decreases a.len() - k,
                {
                    proof {
                        vstd::std_specs::vec::axiom_vec_index_decreases(*a, k as int);
                    }
                    if !a[k].same(&b[k]) {
                        assert(items_view(a@)[k as int] != items_view(b@)[k as int]);
                        return false;
                    }
                    k = k + 1;
                }
                assert(items_view(a@) =~= items_view(b@));
                true
            },
            (Json::Object(a), Json::Object(b)) => {
                proof {
                    lemma_object_view(*a);
                    lemma_object_view(*b);
                }
                if a.len() != b.len() {
                    assert(members_view(a@).len() != members_view(b@).len());
                    return false;
                }
                let mut k: usize = 0;
                while k < a.len()
                    invariant
                        k <= a.len(),
                        a.len() == b.len(),
                        self == Json::Object(*a),
                        self@ == JsonValue::Object(members_view(a@)),
                        other@ == JsonValue::Object(members_view(b@)),
                        forall|i: int| 0 <= i < k ==> a[i].0@ == b[i].0@ && a[i].1@ == b[i].1@,
                    decreases a.len() - k,
                {
                    proof {
                        vstd::std_specs::vec::axiom_vec_index_decreases(*a, k as int);
                    }
                    if !same_text(a[k].0.as_str(), b[k].0.as_str()) || !a[k].1.same(&b[k].1) {
                        assert(members_view(a@)[k as int] != members_view(b@)[k as int]);
                        return false;
                    }
                    k = k + 1;
                }
                assert(members_view(a@) =~= members_view(b@));
                true
            },
            _ => false,
        }
    }
}

} // verus!
