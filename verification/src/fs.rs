//! An in-memory model of a filesystem subtree: named entries, each a file
//! with its bytes or a directory with its own entries. The scanner walks
//! values of this shape; the layer around the library snapshots a real
//! directory into one.

use vstd::prelude::*;

use crate::text::str_is;

verus! {

/// Mathematical model of a subtree.
#[verifier::ext_equal]
pub enum FsData {
    File(Seq<u8>),
    Dir(Seq<(Seq<char>, FsData)>),
}

/// A subtree as held at run time. Entries keep the order in which the
/// directory was enumerated.
#[derive(Debug, PartialEq)]
pub enum FsNode {
    File(Vec<u8>),
    Dir(Vec<(String, FsNode)>),
}

pub open spec fn node_data(n: FsNode) -> FsData
    decreases n,
{
    match n {
        FsNode::File(b) => FsData::File(b@),
        FsNode::Dir(es) => FsData::Dir(entries_data(es@)),
    }
}

pub open spec fn entries_data(es: Seq<(String, FsNode)>) -> Seq<(Seq<char>, FsData)>
    decreases es,
{
    if es.len() == 0 {
        Seq::empty()
    } else {
        seq![(es[0].0@, node_data(es[0].1))] + entries_data(es.drop_first())
    }
}

impl View for FsNode {
    type V = FsData;

    open spec fn view(&self) -> FsData {
        node_data(*self)
    }
}

/// The model of an entry list is elementwise.
pub proof fn lemma_entries_data(es: Seq<(String, FsNode)>)
    ensures
        entries_data(es).len() == es.len(),
        forall|i: int| 0 <= i < es.len() ==> entries_data(es)[i] == (
            es[i].0@,
            node_data(es[i].1),
        ),
    decreases es,
{
    if es.len() > 0 {
        lemma_entries_data(es.drop_first());
    }
}

/// The subtree under the first entry named `name`, if any.
pub open spec fn dir_lookup(es: Seq<(Seq<char>, FsData)>, name: Seq<char>) -> Option<FsData>
    decreases es,
{
    if es.len() == 0 {
        Option::None
    } else if es[0].0 == name {
        Option::Some(es[0].1)
    } else {
        dir_lookup(es.drop_first(), name)
    }
}

/// While no entry among the first `k` is named `name`, the lookup is decided
/// by the rest.
pub proof fn lemma_dir_lookup_skip(es: Seq<(Seq<char>, FsData)>, name: Seq<char>, k: int)
    requires
        0 <= k <= es.len(),
        forall|j: int| 0 <= j < k ==> es[j].0 != name,
    ensures
        dir_lookup(es, name) == dir_lookup(es.skip(k), name),
    decreases k,
{
    if k > 0 {
        assert(forall|j: int| 0 <= j < k - 1 ==> #[trigger] es.drop_first()[j] == es[j + 1]);
        lemma_dir_lookup_skip(es.drop_first(), name, k - 1);
        assert(es.drop_first().skip(k - 1) =~= es.skip(k));
    } else {
        assert(es.skip(0) =~= es);
    }
}

/// A reference to the subtree under the first entry of `entries` named
/// `name`, if any.
pub fn child_of<'a>(entries: &'a Vec<(String, FsNode)>, name: &str) -> (r: Option<&'a FsNode>)
    ensures
        match r {
            Option::Some(c) => dir_lookup(entries_data(entries@), name@) == Option::Some(c@),
            Option::None => dir_lookup(entries_data(entries@), name@) is None,
        },
{
    proof {
        lemma_entries_data(entries@);
    }
    let ghost ges = entries_data(entries@);
    let n = entries.len();
    let mut i: usize = 0;
    while i < n
        invariant
            n == entries@.len(),
            0 <= i <= n,
            ges == entries_data(entries@),
            ges.len() == n,
            forall|j: int| 0 <= j < ges.len() ==> ges[j] == (
                entries@[j].0@,
                node_data(entries@[j].1),
            ),
            forall|j: int| 0 <= j < i ==> ges[j].0 != name@,
        decreases n - i,
    {
        if str_is(&entries[i].0, name) {
            proof {
                lemma_dir_lookup_skip(ges, name@, i as int);
                assert(ges.skip(i as int)[0] == ges[i as int]);
            }
            return Option::Some(&entries[i].1);
        }
        i += 1;
    }
    proof {
        lemma_dir_lookup_skip(ges, name@, n as int);
        assert(ges.skip(n as int) =~= Seq::empty());
    }
    Option::None
}

/// The validity predicate of the scan: the directory holds an entry `new`,
/// itself a directory holding the files `benchmark.json` and `raw.csv`.
pub open spec fn is_result_dir(d: FsData) -> bool {
    match d {
        FsData::Dir(es) => match dir_lookup(es, "new"@) {
            Option::Some(FsData::Dir(nes)) => (dir_lookup(nes, "raw.csv"@) matches Option::Some(
                FsData::File(_),
            )) && (dir_lookup(nes, "benchmark.json"@) matches Option::Some(FsData::File(_))),
            _ => false,
        },
        _ => false,
    }
}

/// The bytes of `new/benchmark.json` under a valid result directory.
pub open spec fn meta_bytes_of(d: FsData) -> Seq<u8> {
    dir_lookup(dir_lookup(d->Dir_0, "new"@)->0->Dir_0, "benchmark.json"@)->0->File_0
}

/// The bytes of `new/raw.csv` under a valid result directory.
pub open spec fn raw_bytes_of(d: FsData) -> Seq<u8> {
    dir_lookup(dir_lookup(d->Dir_0, "new"@)->0->Dir_0, "raw.csv"@)->0->File_0
}

/// The number of valid result directories the scan discovers under `d`:
/// every child directory that satisfies the predicate counts once, and
/// nothing beneath an already-valid directory is entered.
pub open spec fn result_dir_count(d: FsData) -> nat
    decreases d,
{
    match d {
        FsData::File(_) => 0,
        FsData::Dir(es) => count_entries(es),
    }
}

/// The count over a directory's entries.
pub open spec fn count_entries(es: Seq<(Seq<char>, FsData)>) -> nat
    decreases es,
{
    if es.len() == 0 {
        0
    } else {
        (match es[0].1 {
            FsData::Dir(_) => if is_result_dir(es[0].1) {
                1 as nat
            } else {
                result_dir_count(es[0].1)
            },
            FsData::File(_) => 0 as nat,
        }) + count_entries(es.drop_first())
    }
}

} // verus!
