//! The metadata document of one benchmark: identifiers, a title, an optional
//! display value and the open throughput descriptor, read out of a structured
//! document value.

use vstd::prelude::*;

use crate::decode;
use crate::json::JsonData;
use crate::json::JsonValue;
use crate::json::obj_data;
use crate::json::obj_lookup;
use crate::json::value_data;
use crate::json::lemma_obj_data;
use crate::json::lemma_obj_lookup_at;
use crate::json::lemma_obj_lookup_skip;
use crate::text::str_is;

verus! {

/// A named field of the metadata document.
#[derive(Debug, Clone, Copy, PartialEq, Eq, Structural)]
pub enum FieldName {
    GroupId,
    FunctionId,
    ValueStr,
    FullId,
    DirectoryName,
    Title,
}

/// Why a metadata document was rejected.
#[derive(Debug, Clone, Copy, PartialEq, Eq, Structural)]
pub enum MetadataError {
    /// The bytes are not a well-formed document.
    Syntax,
    /// The document is not an object with named fields.
    NotObject,
    /// A required field is absent.
    Missing(FieldName),
    /// A field is present but is not a string.
    WrongType(FieldName),
}

/// Mathematical model of one benchmark's metadata.
#[verifier::ext_equal]
pub struct BenchmarkData {
    pub group_id: Seq<char>,
    pub function_id: Seq<char>,
    pub value_str: Option<Seq<char>>,
    pub throughput: JsonData,
    pub full_id: Seq<char>,
    pub directory_name: Seq<char>,
    pub title: Seq<char>,
}

/// One benchmark's metadata as held at run time.
#[derive(Debug, PartialEq)]
pub struct CriterionBenchmark {
    pub group_id: String,
    pub function_id: String,
    pub value_str: Option<String>,
    pub throughput: JsonValue,
    pub full_id: String,
    pub directory_name: String,
    pub title: String,
}

impl View for CriterionBenchmark {
    type V = BenchmarkData;

    open spec fn view(&self) -> BenchmarkData {
        BenchmarkData {
            group_id: self.group_id@,
            function_id: self.function_id@,
            value_str: match self.value_str {
                Option::Some(s) => Option::Some(s@),
                Option::None => Option::None,
            },
            throughput: self.throughput@,
            full_id: self.full_id@,
            directory_name: self.directory_name@,
            title: self.title@,
        }
    }
}

/// A required string field: its characters, or the error naming it.
pub open spec fn str_field(
    fs: Seq<(Seq<char>, JsonData)>,
    name: Seq<char>,
    tag: FieldName,
) -> Result<Seq<char>, MetadataError> {
    match obj_lookup(fs, name) {
        Option::None => Result::Err(MetadataError::Missing(tag)),
        Option::Some(v) => if v is Str {
            Result::Ok(v->Str_0)
        } else {
            Result::Err(MetadataError::WrongType(tag))
        },
    }
}

/// An optional string field: absent and null both stand for "no value".
pub open spec fn opt_field(
    fs: Seq<(Seq<char>, JsonData)>,
    name: Seq<char>,
    tag: FieldName,
) -> Result<Option<Seq<char>>, MetadataError> {
    match obj_lookup(fs, name) {
        Option::None => Result::Ok(Option::None),
        Option::Some(v) => match v {
            JsonData::Null => Result::Ok(Option::None),
            JsonData::Str(s) => Result::Ok(Option::Some(s)),
            _ => Result::Err(MetadataError::WrongType(tag)),
        },
    }
}

/// The throughput descriptor is carried as found; an absent field stands for
/// null.
pub open spec fn thr_field(fs: Seq<(Seq<char>, JsonData)>) -> JsonData {
    match obj_lookup(fs, "throughput"@) {
        Option::None => JsonData::Null,
        Option::Some(v) => v,
    }
}

/// What reading a metadata document out of the value `d` yields: the record,
/// or the first rejection in field order.
pub open spec fn parse_metadata_data(d: JsonData) -> Result<BenchmarkData, MetadataError> {
    if !(d is Obj) {
        Result::Err(MetadataError::NotObject)
    } else {
        let fs = d->Obj_0;
        let r_group = str_field(fs, "group_id"@, FieldName::GroupId);
        let r_function = str_field(fs, "function_id"@, FieldName::FunctionId);
        let r_value = opt_field(fs, "value_str"@, FieldName::ValueStr);
        let r_full = str_field(fs, "full_id"@, FieldName::FullId);
        let r_dir = str_field(fs, "directory_name"@, FieldName::DirectoryName);
        let r_title = str_field(fs, "title"@, FieldName::Title);
        if r_group is Err {
            Result::Err(r_group->Err_0)
        } else if r_function is Err {
            Result::Err(r_function->Err_0)
        } else if r_value is Err {
            Result::Err(r_value->Err_0)
        } else if r_full is Err {
            Result::Err(r_full->Err_0)
        } else if r_dir is Err {
            Result::Err(r_dir->Err_0)
        } else if r_title is Err {
            Result::Err(r_title->Err_0)
        } else {
            Result::Ok(
                BenchmarkData {
                    group_id: r_group->Ok_0,
                    function_id: r_function->Ok_0,
                    value_str: r_value->Ok_0,
                    throughput: thr_field(fs),
                    full_id: r_full->Ok_0,
                    directory_name: r_dir->Ok_0,
                    title: r_title->Ok_0,
                },
            )
        }
    }
}

/// What reading a metadata document out of the bytes `b` yields.
pub open spec fn parse_metadata_bytes(b: Seq<u8>) -> Result<BenchmarkData, MetadataError> {
    match decode::json_doc(b) {
        Option::None => Result::Err(MetadataError::Syntax),
        Option::Some(d) => parse_metadata_data(d),
    }
}

/// The field list a record is written back as: required fields as strings,
/// the display value only when there is one, the throughput descriptor as
/// held.
pub open spec fn meta_fields_data(m: BenchmarkData) -> Seq<(Seq<char>, JsonData)> {
    seq![
        ("group_id"@, JsonData::Str(m.group_id)),
        ("function_id"@, JsonData::Str(m.function_id)),
    ] + (match m.value_str {
        Option::Some(s) => seq![("value_str"@, JsonData::Str(s))],
        Option::None => Seq::empty(),
    }) + seq![
        ("throughput"@, m.throughput),
        ("full_id"@, JsonData::Str(m.full_id)),
        ("directory_name"@, JsonData::Str(m.directory_name)),
        ("title"@, JsonData::Str(m.title)),
    ]
}

/// The document value a record is written back as.
pub open spec fn meta_to_data(m: BenchmarkData) -> JsonData {
    JsonData::Obj(meta_fields_data(m))
}

/// Reading back a record written as a document value restores it exactly;
/// in particular the open throughput descriptor passes through untouched.
pub proof fn lemma_metadata_round_trip(m: BenchmarkData)
    ensures
        parse_metadata_data(meta_to_data(m)) == Result::<BenchmarkData, MetadataError>::Ok(m),
{
    reveal_strlit("group_id");
    reveal_strlit("function_id");
    reveal_strlit("value_str");
    reveal_strlit("throughput");
    reveal_strlit("full_id");
    reveal_strlit("directory_name");
    reveal_strlit("title");
    // The seven field names all have different lengths, so none can stand in
    // for another.
    assert("group_id"@.len() == 8);
    assert("function_id"@.len() == 11);
    assert("value_str"@.len() == 9);
    assert("throughput"@.len() == 10);
    assert("full_id"@.len() == 7);
    assert("directory_name"@.len() == 14);
    assert("title"@.len() == 5);
    let fs = meta_fields_data(m);
    match m.value_str {
        Option::Some(s) => {
            assert(fs =~= seq![
                ("group_id"@, JsonData::Str(m.group_id)),
                ("function_id"@, JsonData::Str(m.function_id)),
                ("value_str"@, JsonData::Str(s)),
                ("throughput"@, m.throughput),
                ("full_id"@, JsonData::Str(m.full_id)),
                ("directory_name"@, JsonData::Str(m.directory_name)),
                ("title"@, JsonData::Str(m.title)),
            ]);
            lemma_obj_lookup_at(fs, "group_id"@, 0);
            lemma_obj_lookup_at(fs, "function_id"@, 1);
            lemma_obj_lookup_at(fs, "value_str"@, 2);
            lemma_obj_lookup_at(fs, "throughput"@, 3);
            lemma_obj_lookup_at(fs, "full_id"@, 4);
            lemma_obj_lookup_at(fs, "directory_name"@, 5);
            lemma_obj_lookup_at(fs, "title"@, 6);
            assert(parse_metadata_data(meta_to_data(m))->Ok_0 =~= m);
        },
        Option::None => {
            assert(fs =~= seq![
                ("group_id"@, JsonData::Str(m.group_id)),
                ("function_id"@, JsonData::Str(m.function_id)),
                ("throughput"@, m.throughput),
                ("full_id"@, JsonData::Str(m.full_id)),
                ("directory_name"@, JsonData::Str(m.directory_name)),
                ("title"@, JsonData::Str(m.title)),
            ]);
            lemma_obj_lookup_at(fs, "group_id"@, 0);
            lemma_obj_lookup_at(fs, "function_id"@, 1);
            lemma_obj_lookup_at(fs, "throughput"@, 2);
            lemma_obj_lookup_at(fs, "full_id"@, 3);
            lemma_obj_lookup_at(fs, "directory_name"@, 4);
            lemma_obj_lookup_at(fs, "title"@, 5);
            lemma_obj_lookup_skip(fs, "value_str"@, 6);
            assert(fs.skip(6) =~= Seq::empty());
            assert(parse_metadata_data(meta_to_data(m))->Ok_0 =~= m);
        },
    }
}

/// The model of a parse result.
pub open spec fn meta_result_data(r: Result<CriterionBenchmark, MetadataError>) -> Result<
    BenchmarkData,
    MetadataError,
> {
    match r {
        Result::Ok(m) => Result::Ok(m@),
        Result::Err(e) => Result::Err(e),
    }
}

/// The index of the first field named `name`, if any.
fn find_field(fields: &Vec<(String, JsonValue)>, name: &str) -> (r: Option<usize>)
    ensures
        match r {
            Option::Some(i) => i < fields@.len() && fields@[i as int].0@ == name@ && obj_lookup(
                obj_data(fields@),
                name@,
            ) == Option::Some(value_data(fields@[i as int].1)),
            Option::None => obj_lookup(obj_data(fields@), name@) is None,
        },
{
    proof {
        lemma_obj_data(fields@);
    }
    let ghost gfs = obj_data(fields@);
    let n = fields.len();
    let mut i: usize = 0;
    while i < n
        invariant
            n == fields@.len(),
            0 <= i <= n,
            gfs == obj_data(fields@),
            gfs.len() == n,
            forall|j: int| 0 <= j < gfs.len() ==> gfs[j] == (
                fields@[j].0@,
                value_data(fields@[j].1),
            ),
            forall|j: int| 0 <= j < i ==> gfs[j].0 != name@,
        decreases n - i,
    {
        if str_is(&fields[i].0, name) {
            proof {
                lemma_obj_lookup_skip(gfs, name@, i as int);
                assert(gfs.skip(i as int)[0] == gfs[i as int]);
            }
            return Option::Some(i);
        }
        i += 1;
    }
    proof {
        lemma_obj_lookup_skip(gfs, name@, n as int);
        assert(gfs.skip(n as int) =~= Seq::empty());
    }
    Option::None
}

/// A required string field of `fields`, by first occurrence of `name`.
fn get_str(fields: &Vec<(String, JsonValue)>, name: &str, tag: FieldName) -> (r: Result<
    String,
    MetadataError,
>)
    ensures
        meta_str_result(r) == str_field(obj_data(fields@), name@, tag),
{
    match find_field(fields, name) {
        Option::Some(i) => match &fields[i].1 {
            JsonValue::Str(s) => Result::Ok(s.clone()),
            _ => Result::Err(MetadataError::WrongType(tag)),
        },
        Option::None => Result::Err(MetadataError::Missing(tag)),
    }
}

/// The model of a required-field result.
pub open spec fn meta_str_result(r: Result<String, MetadataError>) -> Result<
    Seq<char>,
    MetadataError,
> {
    match r {
        Result::Ok(s) => Result::Ok(s@),
        Result::Err(e) => Result::Err(e),
    }
}

/// The model of an optional-field result.
pub open spec fn meta_opt_result(r: Result<Option<String>, MetadataError>) -> Result<
    Option<Seq<char>>,
    MetadataError,
> {
    match r {
        Result::Ok(Option::Some(s)) => Result::Ok(Option::Some(s@)),
        Result::Ok(Option::None) => Result::Ok(Option::None),
        Result::Err(e) => Result::Err(e),
    }
}

/// An optional string field of `fields`, by first occurrence of `name`.
fn get_opt(fields: &Vec<(String, JsonValue)>, name: &str, tag: FieldName) -> (r: Result<
    Option<String>,
    MetadataError,
>)
    ensures
        meta_opt_result(r) == opt_field(obj_data(fields@), name@, tag),
{
    match find_field(fields, name) {
        Option::Some(i) => match &fields[i].1 {
            JsonValue::Null => Result::Ok(Option::None),
            JsonValue::Str(s) => Result::Ok(Option::Some(s.clone())),
            _ => Result::Err(MetadataError::WrongType(tag)),
        },
        Option::None => Result::Ok(Option::None),
    }
}

impl CriterionBenchmark {
    /// Reads the metadata record out of a document value. Every required
    /// field must be present as a string; the throughput descriptor is kept
    /// exactly as found.
    pub fn from_value(doc: JsonValue) -> (r: Result<CriterionBenchmark, MetadataError>)
        ensures
            meta_result_data(r) == parse_metadata_data(doc@),
    {
        let mut fields = match doc {
            JsonValue::Obj(fields) => fields,
            _ => {
                return Result::Err(MetadataError::NotObject);
            },
        };
        let ghost gfs = obj_data(fields@);
        let group_id = match get_str(&fields, "group_id", FieldName::GroupId) {
            Result::Ok(s) => s,
            Result::Err(e) => {
                return Result::Err(e);
            },
        };
        let function_id = match get_str(&fields, "function_id", FieldName::FunctionId) {
            Result::Ok(s) => s,
            Result::Err(e) => {
                return Result::Err(e);
            },
        };
        let value_str = match get_opt(&fields, "value_str", FieldName::ValueStr) {
            Result::Ok(v) => v,
            Result::Err(e) => {
                return Result::Err(e);
            },
        };
        let full_id = match get_str(&fields, "full_id", FieldName::FullId) {
            Result::Ok(s) => s,
            Result::Err(e) => {
                return Result::Err(e);
            },
        };
        let directory_name = match get_str(&fields, "directory_name", FieldName::DirectoryName) {
            Result::Ok(s) => s,
            Result::Err(e) => {
                return Result::Err(e);
            },
        };
        let title = match get_str(&fields, "title", FieldName::Title) {
            Result::Ok(s) => s,
            Result::Err(e) => {
                return Result::Err(e);
            },
        };
        let throughput = match find_field(&fields, "throughput") {
            Option::Some(i) => fields.swap_remove(i).1,
            Option::None => JsonValue::Null,
        };
        Result::Ok(
            CriterionBenchmark {
                group_id,
                function_id,
                value_str,
                throughput,
                full_id,
                directory_name,
                title,
            },
        )
    }

    /// Writes the record back as a document value, the throughput descriptor
    /// exactly as held.
    pub fn to_value(self) -> (r: JsonValue)
        ensures
            r@ == meta_to_data(self@),
    {
        let ghost gm = self@;
        let mut fields: Vec<(String, JsonValue)> = Vec::new();
        fields.push(("group_id".to_owned(), JsonValue::Str(self.group_id)));
        fields.push(("function_id".to_owned(), JsonValue::Str(self.function_id)));
        match self.value_str {
            Option::Some(s) => fields.push(("value_str".to_owned(), JsonValue::Str(s))),
            Option::None => {},
        }
        fields.push(("throughput".to_owned(), self.throughput));
        fields.push(("full_id".to_owned(), JsonValue::Str(self.full_id)));
        fields.push(("directory_name".to_owned(), JsonValue::Str(self.directory_name)));
        fields.push(("title".to_owned(), JsonValue::Str(self.title)));
        proof {
            lemma_obj_data(fields@);
            assert(obj_data(fields@) =~= meta_fields_data(gm));
        }
        JsonValue::Obj(fields)
    }

    /// Reads the metadata record out of document bytes.
    pub fn from_bytes(b: &[u8]) -> (r: Result<CriterionBenchmark, MetadataError>)
        ensures
            meta_result_data(r) == parse_metadata_bytes(b@),
    {
        match decode::parse_document(b) {
            Option::Some(v) => CriterionBenchmark::from_value(decode::convert_document(v)),
            Option::None => Result::Err(MetadataError::Syntax),
        }
    }
}

} // verus!
