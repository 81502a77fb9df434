use vstd::prelude::*;

verus! {

/// A JSON document, as carried by one wire frame. Strings are sequences
/// of characters. The protocol's own fields are integers, held exactly;
/// any other number — a fraction, an exponent, an integer beyond the
/// wire-sized magnitude — is carried through untouched as its lexeme,
/// so untyped passthrough payloads survive whatever numbers they hold.
/// Objects keep their fields in wire order.
#[derive(Debug, PartialEq)]
pub enum JsonValue {
    Null,
    Bool(bool),
    Int(i128),
    Num(Vec<char>),
    Str(Vec<char>),
    Arr(Vec<JsonValue>),
    Obj(Vec<(Vec<char>, JsonValue)>),
}

/// Position of the first field with the given key, or -1.
pub open spec fn obj_key_index(entries: Seq<(Vec<char>, JsonValue)>, key: Seq<char>) -> int
    decreases entries.len(),
{
    if entries.len() == 0 {
        -1
    } else if entries[0].0@ == key {
        0
    } else {
        let rest = obj_key_index(entries.drop_first(), key);
        if rest < 0 {
            -1
        } else {
            rest + 1
        }
    }
}

pub proof fn lemma_obj_key_index(entries: Seq<(Vec<char>, JsonValue)>, key: Seq<char>)
    ensures
        obj_key_index(entries, key) == -1 ==> forall|j: int|
            0 <= j < entries.len() ==> entries[j].0@ != key,
        obj_key_index(entries, key) != -1 ==> {
            let i = obj_key_index(entries, key);
            &&& 0 <= i < entries.len()
            &&& entries[i].0@ == key
            &&& forall|j: int| 0 <= j < i ==> entries[j].0@ != key
        },
    decreases entries.len(),
{
    if entries.len() > 0 && entries[0].0@ != key {
        lemma_obj_key_index(entries.drop_first(), key);
        let rest = obj_key_index(entries.drop_first(), key);
        if rest >= 0 {
            assert forall|j: int| 1 <= j < rest + 1 implies entries[j].0@ != key by {
                assert(entries.drop_first()[j - 1].0@ != key);
            }
        } else {
            assert forall|j: int| 1 <= j < entries.len() implies entries[j].0@ != key by {
                assert(entries.drop_first()[j - 1].0@ != key);
            }
        }
    }
}

/// The value of the first field with the given key, if the object has one.
pub open spec fn spec_obj_get(entries: Seq<(Vec<char>, JsonValue)>, key: Seq<char>) -> Option<
    JsonValue,
> {
    let i = obj_key_index(entries, key);
    if i == -1 {
        None
    } else {
        Some(entries[i].1)
    }
}

impl JsonValue {
    /// The value under a key, when this document is an object carrying
    /// that key; the first occurrence wins.
    pub open spec fn spec_field(&self, key: Seq<char>) -> Option<JsonValue> {
        match self {
            JsonValue::Obj(entries) => spec_obj_get(entries@, key),
            _ => None,
        }
    }

    pub fn field<'a>(&'a self, key: &Vec<char>) -> (r: Option<&'a JsonValue>)
        ensures
            r matches Some(v) ==> self.spec_field(key@) == Some(*v),
            r is None ==> self.spec_field(key@) is None,
    {
        match self {
            JsonValue::Obj(entries) => {
                proof {
                    assert(self is Obj && self->Obj_0 == *entries);
                    lemma_obj_key_index(entries@, key@);
                }
                let n = entries.len();
                let mut i: usize = 0;
                while i < n
                    invariant
                        i <= n,
                        n == entries@.len(),
                        self is Obj && self->Obj_0 == *entries,
                        forall|j: int| 0 <= j < i ==> entries@[j].0@ != key@,
                    decreases n - i,
                {
                    if crate::text::chars_eq(&entries[i].0, key) {
                        proof {
                            lemma_obj_key_index_found(entries@, key@, i as int);
                            assert(self.spec_field(key@) == Some(entries@[i as int].1));
                        }
                        return Some(&entries[i].1);
                    }
                    i += 1;
                }
                None
            },
            _ => None,
        }
    }

    pub open spec fn spec_as_bool(&self) -> Option<bool> {
        match self {
            JsonValue::Bool(b) => Some(*b),
            _ => None,
        }
    }

    pub fn as_bool(&self) -> (r: Option<bool>)
        ensures
            r == self.spec_as_bool(),
    {
        match self {
            JsonValue::Bool(b) => Some(*b),
            _ => None,
        }
    }

    pub open spec fn spec_as_int(&self) -> Option<i128> {
        match self {
            JsonValue::Int(n) => Some(*n),
            _ => None,
        }
    }

    pub fn as_int(&self) -> (r: Option<i128>)
        ensures
            r == self.spec_as_int(),
    {
        match self {
            JsonValue::Int(n) => Some(*n),
            _ => None,
        }
    }

    pub open spec fn spec_as_u64(&self) -> Option<u64> {
        match self {
            JsonValue::Int(n) => if 0 <= *n <= u64::MAX {
                Some(*n as u64)
            } else {
                None
            },
            _ => None,
        }
    }

    pub fn as_u64(&self) -> (r: Option<u64>)
        ensures
            r == self.spec_as_u64(),
    {
        match self {
            JsonValue::Int(n) => if 0 <= *n && *n <= u64::MAX as i128 {
                Some(*n as u64)
            } else {
                None
            },
            _ => None,
        }
    }

    pub open spec fn spec_as_i64(&self) -> Option<i64> {
        match self {
            JsonValue::Int(n) => if i64::MIN <= *n <= i64::MAX {
                Some(*n as i64)
            } else {
                None
            },
            _ => None,
        }
    }

    pub fn as_i64(&self) -> (r: Option<i64>)
        ensures
            r == self.spec_as_i64(),
    {
        match self {
            JsonValue::Int(n) => if i64::MIN as i128 <= *n && *n <= i64::MAX as i128 {
                Some(*n as i64)
            } else {
                None
            },
            _ => None,
        }
    }

    pub open spec fn spec_as_i32(&self) -> Option<i32> {
        match self {
            JsonValue::Int(n) => if i32::MIN <= *n <= i32::MAX {
                Some(*n as i32)
            } else {
                None
            },
            _ => None,
        }
    }

    pub fn as_i32(&self) -> (r: Option<i32>)
        ensures
            r == self.spec_as_i32(),
    {
        match self {
            JsonValue::Int(n) => if i32::MIN as i128 <= *n && *n <= i32::MAX as i128 {
                Some(*n as i32)
            } else {
                None
            },
            _ => None,
        }
    }

    pub fn as_str<'a>(&'a self) -> (r: Option<&'a Vec<char>>)
        ensures
            r matches Some(s) ==> *self matches JsonValue::Str(t) && t == *s,
            r is None ==> !(*self is Str),
    {
        match self {
            JsonValue::Str(s) => Some(s),
            _ => None,
        }
    }

    pub fn as_arr<'a>(&'a self) -> (r: Option<&'a Vec<JsonValue>>)
        ensures
            r matches Some(a) ==> *self matches JsonValue::Arr(b) && b == *a,
            r is None ==> !(*self is Arr),
    {
        match self {
            JsonValue::Arr(a) => Some(a),
            _ => None,
        }
    }

    pub fn as_obj<'a>(&'a self) -> (r: Option<&'a Vec<(Vec<char>, JsonValue)>>)
        ensures
            r matches Some(o) ==> *self matches JsonValue::Obj(p) && p == *o,
            r is None ==> !(*self is Obj),
    {
        match self {
            JsonValue::Obj(o) => Some(o),
            _ => None,
        }
    }
}

proof fn lemma_obj_key_index_found(entries: Seq<(Vec<char>, JsonValue)>, key: Seq<char>, i: int)
    requires
        0 <= i < entries.len(),
        entries[i].0@ == key,
        forall|j: int| 0 <= j < i ==> entries[j].0@ != key,
    ensures
        obj_key_index(entries, key) == i,
    decreases entries.len(),
{
    if i > 0 {
        assert forall|j: int| 0 <= j < i - 1 implies entries.drop_first()[j].0@ != key by {
            assert(entries[j + 1].0@ != key);
        }
        lemma_obj_key_index_found(entries.drop_first(), key, i - 1);
    }
}

/// A field's value sits inside its object: it is structurally smaller,
/// so recursion may descend through a field lookup.
pub proof fn lemma_field_decreases(j: JsonValue, key: Seq<char>, v: JsonValue)
    requires
        j.spec_field(key) == Some(v),
    ensures
        decreases_to!(j => v),
{
    match j {
        JsonValue::Obj(entries) => {
            let i = obj_key_index(entries@, key);
            lemma_obj_key_index(entries@, key);
            assert(0 <= i < entries@.len());
            assert(v == entries@[i].1);
            assert(decreases_to!(j => j->Obj_0@[i].1));
        },
        _ => {},
    }
}

} // verus!
