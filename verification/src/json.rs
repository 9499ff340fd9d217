//! A structured document value: the library's own form for the contents of a
//! metadata document, including the open-ended throughput descriptor that is
//! carried through without interpretation.

use vstd::prelude::*;

verus! {

/// Mathematical model of a document value. Numbers are carried as their
/// decimal text: the library never computes with them, it only stores and
/// returns them.
#[verifier::ext_equal]
pub enum JsonData {
    Null,
    Bool(bool),
    Num(Seq<char>),
    Str(Seq<char>),
    Arr(Seq<JsonData>),
    Obj(Seq<(Seq<char>, JsonData)>),
}

/// A document value as held at run time.
#[derive(Debug, PartialEq)]
pub enum JsonValue {
    Null,
    Bool(bool),
    Num(String),
    Str(String),
    Arr(Vec<JsonValue>),
    Obj(Vec<(String, JsonValue)>),
}

pub open spec fn value_data(v: JsonValue) -> JsonData
    decreases v,
{
    match v {
        JsonValue::Null => JsonData::Null,
        JsonValue::Bool(b) => JsonData::Bool(b),
        JsonValue::Num(s) => JsonData::Num(s@),
        JsonValue::Str(s) => JsonData::Str(s@),
        JsonValue::Arr(items) => JsonData::Arr(arr_data(items@)),
        JsonValue::Obj(fields) => JsonData::Obj(obj_data(fields@)),
    }
}

pub open spec fn arr_data(items: Seq<JsonValue>) -> Seq<JsonData>
    decreases items,
{
    if items.len() == 0 {
        Seq::empty()
    } else {
        seq![value_data(items[0])] + arr_data(items.drop_first())
    }
}

pub open spec fn obj_data(fields: Seq<(String, JsonValue)>) -> Seq<(Seq<char>, JsonData)>
    decreases fields,
{
    if fields.len() == 0 {
        Seq::empty()
    } else {
        seq![(fields[0].0@, value_data(fields[0].1))] + obj_data(fields.drop_first())
    }
}

impl View for JsonValue {
    type V = JsonData;

    open spec fn view(&self) -> JsonData {
        value_data(*self)
    }
}

/// The model of a field list is elementwise.
pub proof fn lemma_obj_data(fields: Seq<(String, JsonValue)>)
    ensures
        obj_data(fields).len() == fields.len(),
        forall|i: int| 0 <= i < fields.len() ==> obj_data(fields)[i] == (
            fields[i].0@,
            value_data(fields[i].1),
        ),
    decreases fields,
{
    if fields.len() > 0 {
        lemma_obj_data(fields.drop_first());
    }
}

/// The value of the first field named `name`, if any.
pub open spec fn obj_lookup(fields: Seq<(Seq<char>, JsonData)>, name: Seq<char>) -> Option<
    JsonData,
>
    decreases fields,
{
    if fields.len() == 0 {
        Option::None
    } else if fields[0].0 == name {
        Option::Some(fields[0].1)
    } else {
        obj_lookup(fields.drop_first(), name)
    }
}

/// While no field among the first `k` is named `name`, the lookup is decided
/// by the rest.
pub proof fn lemma_obj_lookup_skip(fields: Seq<(Seq<char>, JsonData)>, name: Seq<char>, k: int)
    requires
        0 <= k <= fields.len(),
        forall|j: int| 0 <= j < k ==> fields[j].0 != name,
    ensures
        obj_lookup(fields, name) == obj_lookup(fields.skip(k), name),
    decreases k,
{
    if k > 0 {
        assert(forall|j: int| 0 <= j < k - 1 ==> #[trigger] fields.drop_first()[j] == fields[j
            + 1]);
        lemma_obj_lookup_skip(fields.drop_first(), name, k - 1);
        assert(fields.drop_first().skip(k - 1) =~= fields.skip(k));
    } else {
        assert(fields.skip(0) =~= fields);
    }
}

/// The lookup yields the field at the first index whose name matches.
pub proof fn lemma_obj_lookup_at(fields: Seq<(Seq<char>, JsonData)>, name: Seq<char>, k: int)
    requires
        0 <= k < fields.len(),
        forall|j: int| 0 <= j < k ==> fields[j].0 != name,
        fields[k].0 == name,
    ensures
        obj_lookup(fields, name) == Option::Some(fields[k].1),
{
    lemma_obj_lookup_skip(fields, name, k);
    assert(fields.skip(k)[0] == fields[k]);
}

impl JsonValue {
    /// A reference to the value of the first field named `name` of an object,
    /// `None` when there is no such field or the value is not an object.
    pub fn get_field<'a>(&'a self, name: &str) -> (r: Option<&'a JsonValue>)
        ensures
            match r {
                Option::Some(v) => self@ matches JsonData::Obj(fs) && obj_lookup(fs, name@)
                    == Option::Some(v@),
                Option::None => !(self@ matches JsonData::Obj(fs) && obj_lookup(fs, name@)
                    is Some),
            },
    {
        match self {
            JsonValue::Obj(fields) => {
                proof {
                    lemma_obj_data(fields@);
                }
                let ghost gfs = obj_data(fields@);
                let n = fields.len();
                let mut i: usize = 0;
                while i < n
                    invariant
                        n == fields@.len(),
                        0 <= i <= n,
                        gfs == obj_data(fields@),
                        self@ == JsonData::Obj(gfs),
                        gfs.len() == n,
                        forall|j: int| 0 <= j < gfs.len() ==> gfs[j] == (
                            fields@[j].0@,
                            value_data(fields@[j].1),
                        ),
                        forall|j: int| 0 <= j < i ==> gfs[j].0 != name@,
                    decreases n - i,
                {
                    if crate::text::str_is(&fields[i].0, name) {
                        proof {
                            lemma_obj_lookup_skip(gfs, name@, i as int);
                            assert(gfs.skip(i as int)[0] == gfs[i as int]);
                            assert(obj_lookup(gfs, name@) == Option::Some(gfs[i as int].1));
                        }
                        return Option::Some(&fields[i].1);
                    }
                    i += 1;
                }
                proof {
                    lemma_obj_lookup_skip(gfs, name@, n as int);
                    assert(gfs.skip(n as int) =~= Seq::empty());
                }
                Option::None
            },
            _ => Option::None,
        }
    }
}

} // verus!
