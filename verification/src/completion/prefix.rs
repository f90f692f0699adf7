//! The longest common prefix of the candidates.

use crate::completion::candidates::{names_of, Candidate};
use crate::text::{case_key, fold_case};
use vstd::prelude::*;

verus! {

/// Every name has a character at `i`, and it is the same in all of them,
/// case ignored.
pub open spec fn agree_at(names: Seq<Seq<char>>, i: int) -> bool {
    forall|j: int|
        0 <= j < names.len() ==> i < (#[trigger] names[j]).len() && fold_case(names[j][i])
            == fold_case(names[0][i])
}

/// For how many positions from `i` on the names agree, one after another.
pub open spec fn common_prefix_from(names: Seq<Seq<char>>, i: int) -> nat
    decreases names[0].len() - i,
{
    if names.len() > 0 && 0 <= i < names[0].len() && agree_at(names, i) {
        1 + common_prefix_from(names, i + 1)
    } else {
        0
    }
}

/// The length of the longest common prefix of `names`, case ignored: the
/// number of positions, from the first on, at which all the names agree. It
/// never goes past a position where one name has ended or differs.
pub open spec fn common_prefix_len(names: Seq<Seq<char>>) -> nat {
    common_prefix_from(names, 0)
}

/// `a` and `b` part ways at `k`: one of them ends there, or they hold
/// different characters there, case ignored.
pub open spec fn differ_at(a: Seq<char>, b: Seq<char>, k: int) -> bool {
    a.len() <= k || b.len() <= k || fold_case(a[k]) != fold_case(b[k])
}

/// Names that agree at every position from `i` up to `k`, and not at `k`,
/// agree for `k - i` positions from `i` on.
pub proof fn lemma_common_prefix_from(names: Seq<Seq<char>>, i: int, k: int)
    requires
        names.len() > 0,
        0 <= i <= k,
        forall|p: int| i <= p < k ==> agree_at(names, p),
        !agree_at(names, k),
    ensures
        common_prefix_from(names, i) == k - i,
    decreases k - i,
{
    if i < k {
        assert(agree_at(names, i));
        assert(i < names[0].len());
        lemma_common_prefix_from(names, i + 1, k);
    }
}

/// Names that share their first `k` characters, case ignored, and of
/// which two part ways at `k`, have a common prefix of length `k`.
pub proof fn lemma_common_prefix_ends_where_names_differ(
    names: Seq<Seq<char>>,
    k: int,
    a: int,
    b: int,
)
    requires
        names.len() >= 2,
        0 <= k,
        forall|j: int| 0 <= j < names.len() ==> (#[trigger] names[j]).len() >= k,
        forall|j: int, p: int|
            0 <= j < names.len() && 0 <= p < k ==> fold_case((#[trigger] names[j])[p])
                == fold_case(#[trigger] names[0][p]),
        0 <= a < names.len(),
        0 <= b < names.len(),
        differ_at(names[a], names[b], k),
    ensures
        common_prefix_len(names) == k,
{
    assert forall|p: int| 0 <= p < k implies agree_at(names, p) by {
        assert forall|j: int| 0 <= j < names.len() implies p < (#[trigger] names[j]).len()
            && fold_case(names[j][p]) == fold_case(names[0][p]) by {}
    }
    if agree_at(names, k) {
        assert(k < names[a].len() && fold_case(names[a][k]) == fold_case(names[0][k]));
        assert(k < names[b].len() && fold_case(names[b][k]) == fold_case(names[0][k]));
    }
    lemma_common_prefix_from(names, 0, k);
}

/// The common prefix is common: every name is at least as long, and all
/// agree with the first on every position before its end.
pub proof fn lemma_common_prefix_is_shared(names: Seq<Seq<char>>, j: int)
    requires
        0 <= j < names.len(),
    ensures
        common_prefix_len(names) <= names[j].len(),
        forall|p: int|
            0 <= p < common_prefix_len(names) ==> fold_case(#[trigger] names[j][p]) == fold_case(
                names[0][p],
            ),
{
    lemma_common_prefix_span(names, 0, j);
}

/// The `j`-th name reaches as far as the names agree from `i` on, and holds
/// there what the first name holds, case ignored.
pub proof fn lemma_common_prefix_span(names: Seq<Seq<char>>, i: int, j: int)
    requires
        0 <= i,
        0 <= j < names.len(),
    ensures
        i + common_prefix_from(names, i) <= names[j].len() || common_prefix_from(names, i) == 0,
        forall|p: int|
            i <= p < i + common_prefix_from(names, i) ==> fold_case(#[trigger] names[j][p])
                == fold_case(names[0][p]),
    decreases names[0].len() - i,
{
    if i < names[0].len() && agree_at(names, i) {
        lemma_common_prefix_span(names, i + 1, j);
        assert(i < names[j].len());
    }
}

/// Whether all the names of `found` agree at `i`.
pub fn all_agree_at(found: &Vec<Candidate>, i: usize) -> (r: bool)
    ensures
        r == agree_at(names_of(found.deep_view()), i as int),
{
    let ghost names = names_of(found.deep_view());
    if found.len() == 0 {
        return true;
    }
    if i >= found[0].name.len() {
        assert(names[0] == found@[0].name@);
        return false;
    }
    let key = case_key(found[0].name[i]);
    let mut j: usize = 0;
    while j < found.len()
        invariant
            j <= found.len(),
            found.len() > 0,
            names == names_of(found.deep_view()),
            i < found@[0].name@.len(),
            key == fold_case(found@[0].name@[i as int]),
            forall|m: int|
                0 <= m < j ==> i < (#[trigger] names[m]).len() && fold_case(names[m][i as int])
                    == fold_case(names[0][i as int]),
        decreases found.len() - j,
    {
        proof {
            assert(names[j as int] == found@[j as int].name@);
            assert(names[0] == found@[0].name@);
        }
        if i >= found[j].name.len() || case_key(found[j].name[i]) != key {
            return false;
        }
        j += 1;
    }
    true
}

/// The length of the longest common prefix of the names of `found`.
pub fn longest_common_prefix(found: &Vec<Candidate>) -> (r: usize)
    ensures
        r == common_prefix_len(names_of(found.deep_view())),
        found.len() > 0 ==> r <= found@[0].name@.len(),
{
    if found.len() == 0 {
        return 0;
    }
    let ghost names = names_of(found.deep_view());
    assert(names[0] == found@[0].name@);
    let limit = found[0].name.len();
    let mut k: usize = 0;
    while all_agree_at(found, k)
        invariant
            found.len() > 0,
            names == names_of(found.deep_view()),
            names[0] == found@[0].name@,
            limit == names[0].len(),
            forall|p: int| 0 <= p < k ==> agree_at(names, p),
            k <= limit,
        decreases limit - k,
    {
        assert(k < names[0].len());
        k += 1;
    }
    proof {
        lemma_common_prefix_from(names, 0, k as int);
    }
    k
}

/// The names agree at every position below their common prefix.
pub proof fn lemma_agreement_below_common_prefix(names: Seq<Seq<char>>, i: int, p: int)
    requires
        0 <= i <= p < i + common_prefix_from(names, i),
    ensures
        agree_at(names, p),
    decreases p - i,
{
    if i < p {
        lemma_agreement_below_common_prefix(names, i + 1, p);
    }
}

/// The names do not all agree at the position where their common prefix
/// ends.
pub proof fn lemma_common_prefix_stops(names: Seq<Seq<char>>, i: int)
    requires
        0 <= i,
        names.len() > 0,
    ensures
        !agree_at(names, i + common_prefix_from(names, i)),
    decreases names[0].len() - i,
{
    if i < names[0].len() && agree_at(names, i) {
        lemma_common_prefix_stops(names, i + 1);
    } else if agree_at(names, i) {
        assert(i < names[0].len());
    }
}

} // verus!
