//! The execution environment a result set refers to: commit hash and branch
//! name, each resolved from an ordered list of candidate values where the
//! first present non-empty one wins. The layer around the library gathers
//! the candidates; the choice itself is made here.

use vstd::prelude::*;
use vstd::string::StrSliceExecFns;

verus! {

/// Commit hash and branch name, both optional and independent.
#[derive(Debug, PartialEq)]
pub struct Environment {
    pub commit_hash: Option<String>,
    pub branch_name: Option<String>,
}

/// The first candidate that is present and non-empty, if any.
pub open spec fn first_nonempty(vals: Seq<Option<Seq<char>>>) -> Option<Seq<char>>
    decreases vals,
{
    if vals.len() == 0 {
        Option::None
    } else {
        match vals[0] {
            Option::Some(s) => if s.len() > 0 {
                Option::Some(s)
            } else {
                first_nonempty(vals.drop_first())
            },
            Option::None => first_nonempty(vals.drop_first()),
        }
    }
}

/// While the first `k` candidates are absent or empty, the choice is decided
/// by the rest.
proof fn lemma_first_nonempty_skip(vals: Seq<Option<Seq<char>>>, k: int)
    requires
        0 <= k <= vals.len(),
        forall|j: int| 0 <= j < k ==> ((#[trigger] vals[j]) matches Option::Some(s) ==> s.len()
            == 0),
    ensures
        first_nonempty(vals) == first_nonempty(vals.skip(k)),
    decreases k,
{
    if k > 0 {
        assert(forall|j: int| 0 <= j < k - 1 ==> #[trigger] vals.drop_first()[j] == vals[j + 1]);
        lemma_first_nonempty_skip(vals.drop_first(), k - 1);
        assert(vals.drop_first().skip(k - 1) =~= vals.skip(k));
    } else {
        assert(vals.skip(0) =~= vals);
    }
}

/// Picks the first present non-empty candidate.
fn pick_first(vals: &Vec<Option<String>>) -> (r: Option<String>)
    ensures
        r.deep_view() == first_nonempty(vals.deep_view()),
{
    let ghost dv = vals.deep_view();
    let n = vals.len();
    let mut i: usize = 0;
    while i < n
        invariant
            n == vals@.len(),
            0 <= i <= n,
            dv == vals.deep_view(),
            dv.len() == n,
            forall|j: int| 0 <= j < i ==> ((#[trigger] dv[j]) matches Option::Some(s) ==> s.len()
                == 0),
        decreases n - i,
    {
        match &vals[i] {
            Option::Some(s) => {
                if s.as_str().unicode_len() > 0 {
                    proof {
                        lemma_first_nonempty_skip(dv, i as int);
                        assert(dv.skip(i as int)[0] == dv[i as int]);
                    }
                    return Option::Some(s.clone());
                }
            },
            Option::None => {},
        }
        i += 1;
    }
    proof {
        lemma_first_nonempty_skip(dv, n as int);
        assert(dv.skip(n as int) =~= Seq::<Option<Seq<char>>>::empty());
    }
    Option::None
}

impl Environment {
    /// Resolves the environment from the candidate values of the recognized
    /// sources, each list in precedence order.
    pub fn from_candidates(commit: &Vec<Option<String>>, branch: &Vec<Option<String>>) -> (r:
        Environment)
        ensures
            r.commit_hash.deep_view() == first_nonempty(commit.deep_view()),
            r.branch_name.deep_view() == first_nonempty(branch.deep_view()),
    {
        Environment { commit_hash: pick_first(commit), branch_name: pick_first(branch) }
    }

    /// Set the commit hash: a present `value` overrides, an absent one
    /// leaves the environment as it was.
    pub fn with_commit_hash(self, value: Option<String>) -> (r: Environment)
        ensures
            value matches Option::Some(v) ==> r.commit_hash == Option::Some(v),
            value is None ==> r.commit_hash == self.commit_hash,
            r.branch_name == self.branch_name,
    {
        match value {
            Option::Some(v) => Environment { commit_hash: Option::Some(v), ..self },
            Option::None => self,
        }
    }

    /// Set the branch name: a present `value` overrides, an absent one
    /// leaves the environment as it was.
    pub fn with_branch_name(self, value: Option<String>) -> (r: Environment)
        ensures
            value matches Option::Some(v) ==> r.branch_name == Option::Some(v),
            value is None ==> r.branch_name == self.branch_name,
            r.commit_hash == self.commit_hash,
    {
        match value {
            Option::Some(v) => Environment { branch_name: Option::Some(v), ..self },
            Option::None => self,
        }
    }
}

} // verus!
