//! The scanner and the loader: a depth-first walk over a subtree that loads
//! every valid result directory into one record and stops at the first
//! failure, carrying the failing directory's path outward.

use vstd::prelude::*;

use crate::fs::FsData;
use crate::fs::FsNode;
use crate::fs::child_of;
use crate::fs::entries_data;
use crate::fs::count_entries;
use crate::fs::is_result_dir;
use crate::fs::lemma_entries_data;
use crate::fs::result_dir_count;
use crate::fs::meta_bytes_of;
use crate::fs::node_data;
use crate::fs::raw_bytes_of;
use crate::metadata::BenchmarkData;
use crate::metadata::CriterionBenchmark;
use crate::metadata::MetadataError;
use crate::metadata::parse_metadata_bytes;
use crate::samples::CriterionRaw;
use crate::samples::RawError;
use crate::samples::SampleData;
use crate::samples::parse_raw_bytes;

verus! {

/// Which of a result directory's two files was rejected, and why.
#[derive(Debug, Clone, Copy, PartialEq, Eq, Structural)]
pub enum LoadErrorKind {
    /// `new/benchmark.json` was rejected.
    Metadata(MetadataError),
    /// `new/raw.csv` was rejected.
    Raw(RawError),
}

/// A failed scan: the entry names leading from the root to the failing
/// result directory, and what went wrong there.
#[derive(Debug, PartialEq)]
pub struct ScanError {
    pub path: Vec<String>,
    pub kind: LoadErrorKind,
}

/// Mathematical model of a failed scan.
#[verifier::ext_equal]
pub struct ScanErrData {
    pub path: Seq<Seq<char>>,
    pub kind: LoadErrorKind,
}

impl View for ScanError {
    type V = ScanErrData;

    open spec fn view(&self) -> ScanErrData {
        ScanErrData { path: self.path.deep_view(), kind: self.kind }
    }
}

/// Mathematical model of one loaded result directory.
#[verifier::ext_equal]
pub struct RecordData {
    pub benchmark: BenchmarkData,
    pub raw: Seq<SampleData>,
}

/// One loaded result directory: its metadata paired with its samples, both
/// from the same directory's fixed subpath.
#[derive(Debug, PartialEq)]
pub struct CriterionResult {
    pub benchmark: CriterionBenchmark,
    pub raw: CriterionRaw,
}

impl View for CriterionResult {
    type V = RecordData;

    open spec fn view(&self) -> RecordData {
        RecordData { benchmark: self.benchmark@, raw: self.raw@ }
    }
}

impl DeepView for CriterionResult {
    type V = RecordData;

    open spec fn deep_view(&self) -> RecordData {
        self.view()
    }
}

/// What loading a valid result directory yields: both files read and parsed,
/// the metadata checked first.
pub open spec fn load_data(d: FsData) -> Result<RecordData, LoadErrorKind> {
    match parse_metadata_bytes(meta_bytes_of(d)) {
        Result::Err(e) => Result::Err(LoadErrorKind::Metadata(e)),
        Result::Ok(m) => match parse_raw_bytes(raw_bytes_of(d)) {
            Result::Err(e) => Result::Err(LoadErrorKind::Raw(e)),
            Result::Ok(s) => Result::Ok(RecordData { benchmark: m, raw: s }),
        },
    }
}

/// The model of a load result.
pub open spec fn load_result_data(r: Result<CriterionResult, LoadErrorKind>) -> Result<
    RecordData,
    LoadErrorKind,
> {
    match r {
        Result::Ok(c) => Result::Ok(c@),
        Result::Err(e) => Result::Err(e),
    }
}

/// What scanning a subtree yields: the records of its valid result
/// directories in walk order, or the first failure. A lone file yields
/// nothing.
pub open spec fn scan_data(d: FsData) -> Result<Seq<RecordData>, ScanErrData>
    decreases d,
{
    match d {
        FsData::File(_) => Result::Ok(Seq::empty()),
        FsData::Dir(es) => scan_entries(es),
    }
}

/// The scan over a directory's entries, in order. A child directory that
/// satisfies the validity predicate is loaded and not entered; any other
/// child directory is entered; files are passed over. A failure beneath a
/// child carries that child's name on the front of its path.
pub open spec fn scan_entries(es: Seq<(Seq<char>, FsData)>) -> Result<Seq<RecordData>, ScanErrData>
    decreases es,
{
    if es.len() == 0 {
        Result::Ok(Seq::empty())
    } else {
        let head = scan_child(es[0].0, es[0].1);
        match head {
            Result::Err(e) => Result::Err(e),
            Result::Ok(found) => match scan_entries(es.drop_first()) {
                Result::Err(e) => Result::Err(e),
                Result::Ok(rest) => Result::Ok(found + rest),
            },
        }
    }
}

/// The scan's treatment of one named child.
pub open spec fn scan_child(name: Seq<char>, child: FsData) -> Result<Seq<RecordData>, ScanErrData>
    decreases child,
{
    match child {
        FsData::File(_) => Result::Ok(Seq::empty()),
        FsData::Dir(ces) => if is_result_dir(child) {
            match load_data(child) {
                Result::Ok(rec) => Result::Ok(seq![rec]),
                Result::Err(k) => Result::Err(ScanErrData { path: seq![name], kind: k }),
            }
        } else {
            match scan_entries(ces) {
                Result::Ok(recs) => Result::Ok(recs),
                Result::Err(e) => Result::Err(
                    ScanErrData { path: seq![name] + e.path, kind: e.kind },
                ),
            }
        },
    }
}

/// The model of a scan result.
pub open spec fn scan_result_data(r: Result<Vec<CriterionResult>, ScanError>) -> Result<
    Seq<RecordData>,
    ScanErrData,
> {
    match r {
        Result::Ok(v) => Result::Ok(v.deep_view()),
        Result::Err(e) => Result::Err(e@),
    }
}

impl CriterionResult {
    /// Whether the subtree is a valid result directory: `new/benchmark.json`
    /// and `new/raw.csv` both present as files.
    pub fn is_valid(node: &FsNode) -> (r: bool)
        ensures
            r == is_result_dir(node@),
    {
        match node {
            FsNode::Dir(entries) => match child_of(entries, "new") {
                Option::Some(n) => match n {
                    FsNode::Dir(nes) => {
                        let raw_ok = match child_of(nes, "raw.csv") {
                            Option::Some(c) => match c {
                                FsNode::File(_) => true,
                                _ => false,
                            },
                            Option::None => false,
                        };
                        let meta_ok = match child_of(nes, "benchmark.json") {
                            Option::Some(c) => match c {
                                FsNode::File(_) => true,
                                _ => false,
                            },
                            Option::None => false,
                        };
                        raw_ok && meta_ok
                    },
                    _ => false,
                },
                Option::None => false,
            },
            _ => false,
        }
    }

    /// Loads the two files of an already-validated result directory into one
    /// record.
    pub fn from_dir(node: &FsNode) -> (r: Result<CriterionResult, LoadErrorKind>)
        requires
            is_result_dir(node@),
        ensures
            load_result_data(r) == load_data(node@),
    {
        let entries = match node {
            FsNode::Dir(es) => es,
            FsNode::File(_) => {
                proof {
                    assert(false);
                }
                return Result::Err(LoadErrorKind::Metadata(MetadataError::Syntax));
            },
        };
        let new_node = match child_of(entries, "new") {
            Option::Some(n) => n,
            Option::None => {
                proof {
                    assert(false);
                }
                return Result::Err(LoadErrorKind::Metadata(MetadataError::Syntax));
            },
        };
        let new_entries = match new_node {
            FsNode::Dir(nes) => nes,
            FsNode::File(_) => {
                proof {
                    assert(false);
                }
                return Result::Err(LoadErrorKind::Metadata(MetadataError::Syntax));
            },
        };
        let meta_file = match child_of(new_entries, "benchmark.json") {
            Option::Some(c) => c,
            Option::None => {
                proof {
                    assert(false);
                }
                return Result::Err(LoadErrorKind::Metadata(MetadataError::Syntax));
            },
        };
        let meta_bytes = match meta_file {
            FsNode::File(b) => b,
            FsNode::Dir(_) => {
                proof {
                    assert(false);
                }
                return Result::Err(LoadErrorKind::Metadata(MetadataError::Syntax));
            },
        };
        let raw_file = match child_of(new_entries, "raw.csv") {
            Option::Some(c) => c,
            Option::None => {
                proof {
                    assert(false);
                }
                return Result::Err(LoadErrorKind::Metadata(MetadataError::Syntax));
            },
        };
        let raw_bytes = match raw_file {
            FsNode::File(b) => b,
            FsNode::Dir(_) => {
                proof {
                    assert(false);
                }
                return Result::Err(LoadErrorKind::Metadata(MetadataError::Syntax));
            },
        };
        proof {
            assert(meta_bytes@ == meta_bytes_of(node@));
            assert(raw_bytes@ == raw_bytes_of(node@));
        }
        let benchmark = match CriterionBenchmark::from_bytes(meta_bytes.as_slice()) {
            Result::Ok(m) => m,
            Result::Err(e) => {
                return Result::Err(LoadErrorKind::Metadata(e));
            },
        };
        let raw = match CriterionRaw::from_bytes(raw_bytes.as_slice()) {
            Result::Ok(v) => v,
            Result::Err(e) => {
                return Result::Err(LoadErrorKind::Raw(e));
            },
        };
        Result::Ok(CriterionResult { benchmark, raw })
    }
}

/// The walker over result trees.
#[derive(Debug, Default, Clone)]
pub struct CriterionReader;

/// Composing the records found so far with what the remaining entries yield.
pub open spec fn scan_entries_after(
    es: Seq<(Seq<char>, FsData)>,
    i: int,
    prefix: Seq<RecordData>,
) -> Result<Seq<RecordData>, ScanErrData> {
    match scan_entries(es.skip(i)) {
        Result::Ok(rest) => Result::Ok(prefix + rest),
        Result::Err(e) => Result::Err(e),
    }
}

impl CriterionReader {
    /// One step of the walk: every record found under `node` is appended to
    /// `out`, in walk order, unless some result directory fails to load. On
    /// failure the records appended before it remain: the old contents stay
    /// a prefix of the accumulator.
    fn visit_dir(&self, node: &FsNode, out: &mut Vec<CriterionResult>) -> (r: Result<
        (),
        ScanError,
    >)
        ensures
            r matches Result::Ok(u) ==> scan_data(node@) is Ok && final(out).deep_view() == old(
                out,
            ).deep_view() + scan_data(node@)->Ok_0,
            r matches Result::Err(e) ==> scan_data(node@) == Result::<
                Seq<RecordData>,
                ScanErrData,
            >::Err(e@),
            old(out)@.is_prefix_of(final(out)@),
        decreases *node,
    {
        let entries = match node {
            FsNode::Dir(es) => es,
            FsNode::File(_) => {
                proof {
                    assert(out.deep_view() =~= old(out).deep_view()
                        + Seq::<RecordData>::empty());
                    assert(out@ =~= out@.subrange(0, out@.len() as int));
                }
                return Result::Ok(());
            },
        };
        proof {
            lemma_entries_data(entries@);
        }
        let ghost ges = entries_data(entries@);
        let ghost base = out.deep_view();
        let n = entries.len();
        let mut i: usize = 0;
        proof {
            assert(ges.skip(0) =~= ges);
            assert(base + Seq::<RecordData>::empty() =~= base);
            assert(out@ =~= out@.subrange(0, out@.len() as int));
        }
        while i < n
            invariant
                old(out)@.is_prefix_of(out@),
                n == entries@.len(),
                0 <= i <= n,
                ges == entries_data(entries@),
                ges.len() == n,
                node@ == FsData::Dir(ges),
                node->Dir_0 == *entries,
                forall|j: int| 0 <= j < ges.len() ==> ges[j] == (
                    entries@[j].0@,
                    node_data(entries@[j].1),
                ),
                scan_entries_after(ges, i as int, out.deep_view()) == scan_entries_after(
                    ges,
                    0,
                    base,
                ),
            decreases n - i,
        {
            let name = &entries[i].0;
            let child = &entries[i].1;
            let ghost pre = out.deep_view();
            let ghost prev = out@;
            proof {
                assert(ges.skip(0) =~= ges);
                assert(ges.skip(i as int)[0] == ges[i as int]);
                assert(ges.skip(i as int).drop_first() =~= ges.skip(i as int + 1));
                assert(decreases_to!(*node => node->Dir_0));
                assert(decreases_to!(*entries => entries@));
                assert(decreases_to!(entries@ => entries@[i as int]));
                assert(decreases_to!(entries@[i as int] => entries@[i as int].1));
            }
            let is_dir = match child {
                FsNode::Dir(_) => true,
                FsNode::File(_) => false,
            };
            if is_dir {
                if CriterionResult::is_valid(child) {
                    let rec = match CriterionResult::from_dir(child) {
                        Result::Ok(rec) => rec,
                        Result::Err(k) => {
                            let mut path: Vec<String> = Vec::new();
                            path.push(name.clone());
                            let err = ScanError { path, kind: k };
                            proof {
                                assert(err@.path =~= seq![name@]);
                                assert(err@ =~= scan_child(ges[i as int].0, ges[i as int].1)
                                    ->Err_0);
                                assert(scan_entries(ges.skip(i as int)) == Result::<
                                    Seq<RecordData>,
                                    ScanErrData,
                                >::Err(err@));
                            }
                            return Result::Err(err);
                        },
                    };
                    out.push(rec);
                    proof {
                        assert(out@.subrange(0, old(out)@.len() as int) =~= prev.subrange(
                            0,
                            old(out)@.len() as int,
                        ));
                        assert(out.deep_view() =~= pre + seq![rec@]);
                        assert(scan_child(ges[i as int].0, ges[i as int].1) == Result::<
                            Seq<RecordData>,
                            ScanErrData,
                        >::Ok(seq![rec@]));
                    }
                } else {
                    match self.visit_dir(child, out) {
                        Result::Ok(u) => {
                            proof {
                                assert(scan_child(ges[i as int].0, ges[i as int].1) == Result::<
                                    Seq<RecordData>,
                                    ScanErrData,
                                >::Ok(scan_data(child@)->Ok_0));
                                assert(out@.subrange(0, old(out)@.len() as int) =~= prev.subrange(
                                    0,
                                    old(out)@.len() as int,
                                ));
                            }
                        },
                        Result::Err(mut e) => {
                            let ghost inner = e@;
                            e.path.insert(0, name.clone());
                            proof {
                                assert(e@.path =~= seq![name@] + inner.path);
                                assert(e@ =~= scan_child(ges[i as int].0, ges[i as int].1)
                                    ->Err_0);
                                assert(scan_entries(ges.skip(i as int)) == Result::<
                                    Seq<RecordData>,
                                    ScanErrData,
                                >::Err(e@));
                                assert(out@.subrange(0, old(out)@.len() as int) =~= prev.subrange(
                                    0,
                                    old(out)@.len() as int,
                                ));
                            }
                            return Result::Err(e);
                        },
                    }
                }
            } else {
                proof {
                    assert(scan_child(ges[i as int].0, ges[i as int].1) == Result::<
                        Seq<RecordData>,
                        ScanErrData,
                    >::Ok(Seq::<RecordData>::empty()));
                }
            }
            i += 1;
            proof {
                let ghost added = scan_child(ges[i - 1].0, ges[i - 1].1)->Ok_0;
                assert(out.deep_view() =~= pre + added);
                let rows_left = scan_entries(ges.skip(i as int));
                if rows_left is Ok {
                    assert((pre + added) + rows_left->Ok_0 =~= pre + (added + rows_left->Ok_0));
                }
            }
        }
        proof {
            assert(ges.skip(n as int) =~= Seq::<(Seq<char>, FsData)>::empty());
            assert(out.deep_view() + Seq::<RecordData>::empty() =~= out.deep_view());
        }
        Result::Ok(())
    }

    /// Scans the whole subtree under `node`: the records of every valid
    /// result directory in walk order, or the first failure with the path to
    /// its directory.
    pub fn scan(&self, node: &FsNode) -> (r: Result<Vec<CriterionResult>, ScanError>)
        ensures
            scan_result_data(r) == scan_data(node@),
    {
        let mut result: Vec<CriterionResult> = Vec::new();
        let ghost base = result.deep_view();
        match self.visit_dir(node, &mut result) {
            Result::Ok(u) => {
                proof {
                    assert(base =~= Seq::<RecordData>::empty());
                    assert(base + scan_data(node@)->Ok_0 =~= scan_data(node@)->Ok_0);
                }
                Result::Ok(result)
            },
            Result::Err(e) => Result::Err(e),
        }
    }
}

/// With no valid result directory anywhere beneath it, a subtree scans to
/// the empty record set, never to an error.
pub proof fn lemma_scan_empty(d: FsData)
    requires
        result_dir_count(d) == 0,
    ensures
        scan_data(d) == Result::<Seq<RecordData>, ScanErrData>::Ok(Seq::<RecordData>::empty()),
    decreases d,
{
    match d {
        FsData::File(_) => {},
        FsData::Dir(es) => {
            lemma_scan_entries_empty(es);
        },
    }
}

/// The empty-count case, entry by entry.
proof fn lemma_scan_entries_empty(es: Seq<(Seq<char>, FsData)>)
    requires
        count_entries(es) == 0,
    ensures
        scan_entries(es) == Result::<Seq<RecordData>, ScanErrData>::Ok(
            Seq::<RecordData>::empty(),
        ),
    decreases es,
{
    if es.len() > 0 {
        match es[0].1 {
            FsData::Dir(ces) => {
                assert(!is_result_dir(es[0].1));
                lemma_scan_empty(es[0].1);
            },
            FsData::File(_) => {},
        }
        assert(scan_child(es[0].0, es[0].1) == Result::<Seq<RecordData>, ScanErrData>::Ok(
            Seq::<RecordData>::empty(),
        ));
        lemma_scan_entries_empty(es.drop_first());
        assert(Seq::<RecordData>::empty() + Seq::<RecordData>::empty()
            =~= Seq::<RecordData>::empty());
    }
}

/// A successful scan returns exactly one record per valid result directory,
/// whatever the nesting depth or the order of siblings.
pub proof fn lemma_scan_count(d: FsData)
    ensures
        scan_data(d) matches Result::Ok(s) ==> s.len() == result_dir_count(d),
    decreases d,
{
    match d {
        FsData::File(_) => {},
        FsData::Dir(es) => {
            lemma_scan_entries_count(es);
        },
    }
}

/// The counting case, entry by entry.
proof fn lemma_scan_entries_count(es: Seq<(Seq<char>, FsData)>)
    ensures
        scan_entries(es) matches Result::Ok(s) ==> s.len() == count_entries(es),
    decreases es,
{
    if es.len() > 0 {
        let head = scan_child(es[0].0, es[0].1);
        match es[0].1 {
            FsData::Dir(ces) => {
                if is_result_dir(es[0].1) {
                    if head is Ok {
                        assert(head->Ok_0.len() == 1);
                    }
                } else {
                    lemma_scan_count(es[0].1);
                    if head is Ok {
                        assert(head->Ok_0.len() == count_entries(ces));
                    }
                }
            },
            FsData::File(_) => {
                assert(head->Ok_0.len() == 0);
            },
        }
        lemma_scan_entries_count(es.drop_first());
    }
}

/// Whether the walk under `d` reaches some valid result directory whose
/// files do not both parse.
pub open spec fn some_load_fails(d: FsData) -> bool
    decreases d,
{
    match d {
        FsData::File(_) => false,
        FsData::Dir(es) => entries_load_fails(es),
    }
}

/// The failure test over a directory's entries.
pub open spec fn entries_load_fails(es: Seq<(Seq<char>, FsData)>) -> bool
    decreases es,
{
    if es.len() == 0 {
        false
    } else {
        child_load_fails(es[0].1) || entries_load_fails(es.drop_first())
    }
}

/// The failure test for one child: a valid result directory fails when its
/// load does; any other directory fails when something beneath it does.
pub open spec fn child_load_fails(child: FsData) -> bool
    decreases child,
{
    match child {
        FsData::File(_) => false,
        FsData::Dir(ces) => if is_result_dir(child) {
            load_data(child) is Err
        } else {
            entries_load_fails(ces)
        },
    }
}

/// The scan fails exactly when some valid result directory it discovers
/// fails to load: one malformed file anywhere aborts the whole scan, and
/// with none the scan is owed a success.
pub proof fn lemma_scan_fail_fast(d: FsData)
    ensures
        scan_data(d) is Err <==> some_load_fails(d),
    decreases d,
{
    match d {
        FsData::File(_) => {},
        FsData::Dir(es) => {
            lemma_entries_fail_fast(es);
        },
    }
}

/// The fail-fast case, entry by entry.
proof fn lemma_entries_fail_fast(es: Seq<(Seq<char>, FsData)>)
    ensures
        scan_entries(es) is Err <==> entries_load_fails(es),
    decreases es,
{
    if es.len() > 0 {
        let head = scan_child(es[0].0, es[0].1);
        match es[0].1 {
            FsData::Dir(ces) => {
                if is_result_dir(es[0].1) {
                    assert(head is Err <==> load_data(es[0].1) is Err);
                } else {
                    lemma_scan_fail_fast(es[0].1);
                    assert(head is Err <==> entries_load_fails(ces));
                }
            },
            FsData::File(_) => {
                assert(!(head is Err));
            },
        }
        lemma_entries_fail_fast(es.drop_first());
        assert(head is Err <==> child_load_fails(es[0].1));
        assert(scan_entries(es) is Err <==> (head is Err || scan_entries(es.drop_first())
            is Err));
        assert(entries_load_fails(es) <==> (child_load_fails(es[0].1) || entries_load_fails(
            es.drop_first(),
        )));
    }
}

/// The scan surface: one operation from a subtree to an ordered result set.
pub trait Reader {
    type Output;

    /// Walks the subtree under `node` and returns what was found.
    fn evaluate(&self, node: &FsNode) -> Result<Self::Output, ScanError>;
}

impl Reader for CriterionReader {
    type Output = Vec<CriterionResult>;

    fn evaluate(&self, node: &FsNode) -> (r: Result<Vec<CriterionResult>, ScanError>)
        ensures
            scan_result_data(r) == scan_data(node@),
    {
        self.scan(node)
    }
}

} // verus!
