//! A plain JSON tree, the library's own model of the remote service's
//! request and response bodies. Values of outside JSON types are converted
//! into this tree once, at the trust boundary, and every traversal the
//! protocol performs is verified against the spec functions defined here.

use vstd::prelude::*;

verus! {

/// A JSON document as a tree of plain values. Numbers are carried as their
/// textual form and never interpreted: the protocol reads only strings,
/// arrays and objects. Object entries keep the order in which the source
/// document yielded them; key lookup takes the first entry with the key.
pub enum Json {
    Null,
    Bool(bool),
    Num(String),
    Str(String),
    Arr(Vec<Json>),
    Obj(Vec<(String, Json)>),
}

/// The value of the first entry of `entries` whose key reads `key`,
/// if any entry does.
pub open spec fn spec_entries_get(entries: Seq<(String, Json)>, key: Seq<char>) -> Option<Json>
    decreases entries.len(),
{
    if entries.len() == 0 {
        None
    } else if entries[0].0@ == key {
        Some(entries[0].1)
    } else {
        spec_entries_get(entries.drop_first(), key)
    }
}

/// Field lookup: `Some` value exactly when `j` is an object with an
/// entry named `key`.
pub open spec fn spec_get(j: Json, key: Seq<char>) -> Option<Json> {
    match j {
        Json::Obj(entries) => spec_entries_get(entries@, key),
        _ => None,
    }
}

/// The characters of `j` when it is a string value.
pub open spec fn spec_as_str(j: Json) -> Option<Seq<char>> {
    match j {
        Json::Str(s) => Some(s@),
        _ => None,
    }
}

/// The string value of field `key` of `j`, when `j` is an object, the
/// field is present, and its value is a string.
pub open spec fn spec_get_str(j: Json, key: Seq<char>) -> Option<Seq<char>> {
    match spec_get(j, key) {
        Some(v) => spec_as_str(v),
        None => None,
    }
}

impl Json {
    /// Looks a field up by name, as `spec_get` describes.
    pub fn get(&self, key: &str) -> (r: Option<&Json>)
        ensures
            match r {
                Some(v) => spec_get(*self, key@) == Some(*v),
                None => spec_get(*self, key@) is None,
            },
    {
        match self {
            Json::Obj(entries) => {
                let n = entries.len();
                let mut i: usize = 0;
                proof {
                    assert(entries@.skip(0) =~= entries@);
                }
                while i < n
                    invariant
                        n == entries.len(),
                        i <= n,
                        spec_get(*self, key@) == spec_entries_get(entries@, key@),
                        spec_entries_get(entries@, key@) == spec_entries_get(
                            entries@.skip(i as int),
                            key@,
                        ),
                    decreases n - i,
                {
                    proof {
                        assert(entries@.skip(i as int).drop_first() =~= entries@.skip(
                            i as int + 1,
                        ));
                    }
                    if eq_str(entries[i].0.as_str(), key) {
                        proof {
                            let s = entries@.skip(i as int);
                            assert(s[0] == entries@[i as int]);
                            assert(spec_entries_get(s, key@) == Some(s[0].1));
                        }
                        return Some(&entries[i].1);
                    }
                    i += 1;
                }
                None
            },
            _ => None,
        }
    }

    /// The string slice held by a string value.
    pub fn as_str(&self) -> (r: Option<&String>)
        ensures
            match r {
                Some(s) => spec_as_str(*self) == Some(s@),
                None => spec_as_str(*self) is None,
            },
    {
        match self {
            Json::Str(s) => Some(s),
            _ => None,
        }
    }

    /// The elements held by an array value.
    pub fn as_array(&self) -> (r: Option<&Vec<Json>>)
        ensures
            match r {
                Some(a) => *self matches Json::Arr(v) && v@ == a@,
                None => !(*self matches Json::Arr(_)),
            },
    {
        match self {
            Json::Arr(a) => Some(a),
            _ => None,
        }
    }

    /// The string value of a field, as `spec_get_str` describes.
    pub fn get_str(&self, key: &str) -> (r: Option<&String>)
        ensures
            match r {
                Some(s) => spec_get_str(*self, key@) == Some(s@),
                None => spec_get_str(*self, key@) is None,
            },
    {
        match self.get(key) {
            Some(v) => v.as_str(),
            None => None,
        }
    }
}

/// Character-for-character string comparison, so that contracts can speak
/// of view equality directly.
pub fn eq_str(a: &str, b: &str) -> (r: bool)
    ensures
        r == (a@ == b@),
{
    let an = a.unicode_len();
    let bn = b.unicode_len();
    if an != bn {
        proof {
            assert(a@ != b@);
        }
        return false;
    }
    let mut i: usize = 0;
    while i < an
        invariant
            an == a@.len(),
            bn == b@.len(),
            an == bn,
            i <= an,
            forall|k: int| 0 <= k < i ==> a@[k] == b@[k],
        decreases an - i,
    {
        if a.get_char(i) != b.get_char(i) {
            return false;
        }
        i += 1;
    }
    proof {
        assert(a@ =~= b@);
    }
    true
}

} // verus!
