//! A small model of JSON documents.
//!
//! The listing API hands back JSON trees; the decoding logic in this crate
//! only ever reads strings, arrays and objects out of them. [`Json`] is the
//! in-memory document and [`JsonV`] is its mathematical value, used by every
//! contract that speaks about document contents.

use vstd::prelude::*;

use crate::strutil::str_eq;

verus! {

/// One key/value entry of a JSON object.
pub struct Entry {
    pub key: String,
    pub value: Json,
}

/// Mathematical value of an object entry.
#[verifier::ext_equal]
pub struct EntryV {
    pub key: Seq<char>,
    pub value: JsonV,
}

/// Mathematical value of a JSON document.
///
/// Object entries keep their order; lookup takes the first entry with a
/// matching key.
#[verifier::ext_equal]
pub enum JsonV {
    Null,
    Bool(bool),
    /// The decimal text of a number. The listing logic never reads numbers,
    /// so their text is all that is kept of them.
    Num(Seq<char>),
    Str(Seq<char>),
    Arr(Seq<JsonV>),
    Obj(Seq<EntryV>),
}

/// An in-memory JSON document.
pub enum Json {
    Null,
    Bool(bool),
    /// The decimal text of a number.
    Num(String),
    Str(String),
    Arr(Vec<Json>),
    Obj(Vec<Entry>),
}

impl View for Json {
    type V = JsonV;

    open spec fn view(&self) -> JsonV
        decreases self,
    {
        match self {
            Json::Null => JsonV::Null,
            Json::Bool(b) => JsonV::Bool(*b),
            Json::Num(s) => JsonV::Num(s@),
            Json::Str(s) => JsonV::Str(s@),
            Json::Arr(items) => JsonV::Arr(
                Seq::new(
                    items@.len(),
                    |i: int|
                        if 0 <= i < items@.len() {
                            items@[i]@
                        } else {
                            JsonV::Null
                        },
                ),
            ),
            Json::Obj(entries) => JsonV::Obj(
                Seq::new(
                    entries@.len(),
                    |i: int|
                        if 0 <= i < entries@.len() {
                            EntryV { key: entries@[i].key@, value: entries@[i].value@ }
                        } else {
                            EntryV { key: Seq::empty(), value: JsonV::Null }
                        },
                ),
            ),
        }
    }
}

/// The mathematical values of a vector of documents.
pub open spec fn elem_views(items: Seq<Json>) -> Seq<JsonV> {
    items.map(|i: int, e: Json| e@)
}

/// The mathematical values of a vector of object entries.
pub open spec fn entry_views(entries: Seq<Entry>) -> Seq<EntryV> {
    entries.map(|i: int, e: Entry| EntryV { key: e.key@, value: e.value@ })
}

/// First entry of `entries` whose key is `key`, if any.
pub open spec fn obj_lookup(entries: Seq<EntryV>, key: Seq<char>) -> Option<JsonV>
    decreases entries.len(),
{
    if entries.len() == 0 {
        None
    } else if entries[0].key == key {
        Some(entries[0].value)
    } else {
        obj_lookup(entries.skip(1), key)
    }
}

/// Field `key` of `doc`, if `doc` is an object holding it.
pub open spec fn get_field(doc: JsonV, key: Seq<char>) -> Option<JsonV> {
    match doc {
        JsonV::Obj(entries) => obj_lookup(entries, key),
        _ => None,
    }
}

/// Field `key` of `doc`, if it is present and holds a string.
pub open spec fn get_str_field(doc: JsonV, key: Seq<char>) -> Option<Seq<char>> {
    match get_field(doc, key) {
        Some(JsonV::Str(s)) => Some(s),
        _ => None,
    }
}

impl Json {
    /// Field `key` of this document, if the document is an object holding it.
    pub fn get<'a>(&'a self, key: &str) -> (r: Option<&'a Json>)
        ensures
            match r {
                Some(v) => get_field(self@, key@) == Some(v@),
                None => get_field(self@, key@) is None,
            },
    {
        match self {
            Json::Obj(entries) => {
                let mut idx: usize = 0;
                proof {
                    assert(self@->Obj_0 =~= entry_views(entries@));
                    assert(entry_views(entries@).skip(0) =~= entry_views(entries@));
                }
                while idx < entries.len()
                    invariant
                        idx <= entries.len(),
                        get_field(self@, key@) == obj_lookup(
                            entry_views(entries@).skip(idx as int),
                            key@,
                        ),
                    decreases entries.len() - idx,
                {
                    proof {
                        assert(entry_views(entries@).skip(idx as int)[0] == entry_views(
                            entries@,
                        )[idx as int]);
                        assert(entry_views(entries@).skip(idx as int).skip(1) =~= entry_views(
                            entries@,
                        ).skip(idx as int + 1));
                    }
                    if str_eq(entries[idx].key.as_str(), key) {
                        return Some(&entries[idx].value);
                    }
                    idx = idx + 1;
                }
                proof {
                    assert(entry_views(entries@).skip(idx as int)
                        =~= Seq::<EntryV>::empty());
                }
                None
            },
            _ => None,
        }
    }

    /// The characters of this document, if it is a string.
    pub fn as_str<'a>(&'a self) -> (r: Option<&'a String>)
        ensures
            match r {
                Some(s) => self@ == JsonV::Str(s@),
                None => self@ !is Str,
            },
    {
        match self {
            Json::Str(s) => Some(s),
            _ => None,
        }
    }

    /// The elements of this document, if it is an array.
    pub fn as_array<'a>(&'a self) -> (r: Option<&'a Vec<Json>>)
        ensures
            match r {
                Some(items) => self@ == JsonV::Arr(elem_views(items@)),
                None => self@ !is Arr,
            },
    {
        match self {
            Json::Arr(items) => {
                proof {
                    assert(self@->Arr_0 =~= elem_views(items@));
                }
                Some(items)
            },
            _ => None,
        }
    }

    /// The entries of this document, if it is an object.
    pub fn as_object<'a>(&'a self) -> (r: Option<&'a Vec<Entry>>)
        ensures
            match r {
                Some(entries) => self@ == JsonV::Obj(entry_views(entries@)),
                None => self@ !is Obj,
            },
    {
        match self {
            Json::Obj(entries) => {
                proof {
                    assert(self@->Obj_0 =~= entry_views(entries@));
                }
                Some(entries)
            },
            _ => None,
        }
    }

    /// A fresh document with the same mathematical value.
    #[verifier::loop_isolation(false)]
    pub fn duplicate(&self) -> (r: Json)
        ensures
            r@ == self@,
        decreases self,
    {
        match self {
            Json::Null => Json::Null,
            Json::Bool(b) => Json::Bool(*b),
            Json::Num(s) => Json::Num(s.clone()),
            Json::Str(s) => Json::Str(s.clone()),
            Json::Arr(items) => {
                let mut out: Vec<Json> = Vec::new();
                let mut i: usize = 0;
                while i < items.len()
                    invariant
                        i <= items.len(),
                        out@.len() == i,
                        forall|j: int| 0 <= j < i ==> out@[j]@ == items@[j]@,
                    decreases items.len() - i,
                {
                    proof {
                        assert(decreases_to!(*self => *items));
                        assert(decreases_to!(*items => items@));
                        assert(decreases_to!(items@ => items@[i as int]));
                    }
                    out.push(items[i].duplicate());
                    i = i + 1;
                }
                let r = Json::Arr(out);
                proof {
                    assert(r@->Arr_0 =~= self@->Arr_0);
                }
                r
            },
            Json::Obj(entries) => {
                let mut out: Vec<Entry> = Vec::new();
                let mut i: usize = 0;
                while i < entries.len()
                    invariant
                        i <= entries.len(),
                        out@.len() == i,
                        forall|j: int|
                            0 <= j < i ==> out@[j].key@ == entries@[j].key@ && out@[j].value@
                                == entries@[j].value@,
                    decreases entries.len() - i,
                {
                    proof {
                        assert(decreases_to!(*self => *entries));
                        assert(decreases_to!(*entries => entries@));
                        assert(decreases_to!(entries@ => entries@[i as int]));
                        assert(decreases_to!(entries@[i as int] => entries@[i as int].value));
                    }
                    out.push(
                        Entry { key: entries[i].key.clone(), value: entries[i].value.duplicate() },
                    );
                    i = i + 1;
                }
                let r = Json::Obj(out);
                proof {
                    assert(r@->Obj_0 =~= self@->Obj_0);
                }
                r
            },
        }
    }
}

} // verus!
