use vstd::prelude::*;
use crate::record::{FetchError, Record};

verus! {

/// The fully expanded records of one requested page.
#[derive(Debug)]
pub struct NotionPageBlocksResult {
    /// The requested page.
    pub page_id: String,
    /// Its records, or none where fetching it failed.
    pub blocks: Vec<Record>,
}

/// The identifiers of `ids`, as character sequences.
pub open spec fn keys(ids: Seq<String>) -> Seq<Seq<char>> {
    ids.map_values(|s: String| s@)
}

/// The page identifiers of `results`, as character sequences.
pub open spec fn result_keys(results: Seq<NotionPageBlocksResult>) -> Seq<Seq<char>> {
    results.map_values(|r: NotionPageBlocksResult| r.page_id@)
}

/// The identifiers of `outcomes`, as character sequences.
pub open spec fn outcome_keys(
    outcomes: Seq<(String, Result<Vec<Record>, FetchError>)>,
) -> Seq<Seq<char>> {
    outcomes.map_values(|o: (String, Result<Vec<Record>, FetchError>)| o.0@)
}

/// The records that an outcome contributes: none on failure.
pub open spec fn blocks_of(outcome: Result<Vec<Record>, FetchError>) -> Seq<Record> {
    match outcome {
        Ok(v) => v@,
        Err(_) => Seq::empty(),
    }
}

fn contains_id(u: &Vec<String>, id: &String) -> (b: bool)
    ensures
        b == keys(u@).contains(id@),
{
    let mut i: usize = 0;
    while i < u.len()
        invariant
            0 <= i <= u.len(),
            forall|j: int| 0 <= j < i ==> u[j]@ != id@,
        decreases u.len() - i,
    {
        if u[i] == *id {
            assert(keys(u@)[i as int] == id@);
            return true;
        }
        i = i + 1;
    }
    assert(!keys(u@).contains(id@)) by {
        if keys(u@).contains(id@) {
            let j = choose|j: int| 0 <= j < keys(u@).len() && keys(u@)[j] == id@;
            assert(u[j]@ == id@);
        }
    }
    false
}

/// The requested identifiers with repeats dropped: every identifier once.
pub fn unique_ids(ids: &Vec<String>) -> (u: Vec<String>)
    ensures
        keys(u@).no_duplicates(),
        keys(u@).to_set() == keys(ids@).to_set(),
        u.len() <= ids.len(),
{
    let mut u: Vec<String> = Vec::new();
    let mut i: usize = 0;
    while i < ids.len()
        invariant
            0 <= i <= ids.len(),
            u.len() <= i,
            keys(u@).no_duplicates(),
            keys(u@).to_set() == keys(ids@.take(i as int)).to_set(),
        decreases ids.len() - i,
    {
        let id = &ids[i];
        assert(ids@.take(i + 1) == ids@.take(i as int).push(*id));
        proof {
            ids@.take(i as int).lemma_push_map_commute(|s: String| s@, *id);
            keys(ids@.take(i as int)).lemma_push_to_set_commute(id@);
        }
        if !contains_id(&u, id) {
            let ghost before = u@;
            proof {
                before.lemma_push_map_commute(|s: String| s@, *id);
                keys(before).lemma_push_to_set_commute(id@);
            }
            u.push(id.clone());
            assert(keys(u@) == keys(before).push(id@));
            assert(keys(u@).no_duplicates()) by {
                assert forall|a: int, b: int| 0 <= a < b < keys(u@).len() implies keys(u@)[a] != keys(u@)[b] by {
                    if b == keys(u@).len() - 1 {
                        assert(keys(before)[a] == keys(u@)[a]);
                    } else {
                        assert(keys(before)[a] == keys(u@)[a]);
                        assert(keys(before)[b] == keys(u@)[b]);
                    }
                }
            }
        } else {
            assert(keys(ids@.take(i as int)).to_set().contains(id@));
            assert(keys(ids@.take(i as int)).to_set().insert(id@) =~= keys(ids@.take(i as int)).to_set());
        }
        i = i + 1;
    }
    assert(ids@.take(ids.len() as int) =~= ids@);
    u
}

/// The result for one page: its records where fetching succeeded, none where
/// it failed.
pub fn page_result(page_id: String, outcome: Result<Vec<Record>, FetchError>) -> (r: NotionPageBlocksResult)
    ensures
        r.page_id == page_id,
        r.blocks@ == blocks_of(outcome),
{
    let blocks = match outcome {
        Ok(v) => v,
        Err(_) => Vec::new(),
    };
    NotionPageBlocksResult { page_id, blocks }
}

/// Turns the outcomes of the top-level fetches, in the order they completed,
/// into one result per page.
pub fn collect_results(outcomes: Vec<(String, Result<Vec<Record>, FetchError>)>) -> (r: Vec<NotionPageBlocksResult>)
    ensures
        r.len() == outcomes.len(),
        forall|i: int|
            0 <= i < r.len() ==> (#[trigger] r[i]).page_id == outcomes[i].0 && r[i].blocks@ == blocks_of(
                outcomes[i].1,
            ),
        result_keys(r@) == outcome_keys(outcomes@),
{
    let ghost outs0 = outcomes@;
    let mut pending = outcomes;
    let mut rev: Vec<NotionPageBlocksResult> = Vec::new();
    while pending.len() > 0
        invariant
            pending.len() + rev.len() == outs0.len(),
            forall|i: int| 0 <= i < pending.len() ==> pending[i] == outs0[i],
            forall|j: int| 0 <= j < rev.len() ==> (#[trigger] rev[j]).page_id == outs0[outs0.len() - 1 - j].0
                && rev[j].blocks@ == blocks_of(outs0[outs0.len() - 1 - j].1),
        decreases pending.len(),
    {
        let (id, o) = pending.pop().unwrap();
        rev.push(page_result(id, o));
    }
    let mut r: Vec<NotionPageBlocksResult> = Vec::new();
    let n = rev.len();
    while rev.len() > 0
        invariant
            rev.len() + r.len() == n,
            n == outs0.len(),
            forall|j: int| 0 <= j < rev.len() ==> (#[trigger] rev[j]).page_id == outs0[n - 1 - j].0
                && rev[j].blocks@ == blocks_of(outs0[n - 1 - j].1),
            forall|i: int| 0 <= i < r.len() ==> (#[trigger] r[i]).page_id == outs0[i].0 && r[i].blocks@ == blocks_of(outs0[i].1),
        decreases rev.len(),
    {
        let x = rev.pop().unwrap();
        r.push(x);
    }
    assert(result_keys(r@) =~= outcome_keys(outs0));
    r
}

/// Whatever order the per-page fetches complete in, the pages of the result
/// are exactly the requested identifiers, each once: repeats in the request
/// collapse to one entry.
pub proof fn lemma_result_keys(
    ids: Seq<String>,
    unique: Seq<String>,
    outcomes: Seq<(String, Result<Vec<Record>, FetchError>)>,
    results: Seq<NotionPageBlocksResult>,
)
    requires
        keys(unique).no_duplicates(),
        keys(unique).to_set() == keys(ids).to_set(),
        outcome_keys(outcomes).to_multiset() == keys(unique).to_multiset(),
        result_keys(results) == outcome_keys(outcomes),
    ensures
        result_keys(results).to_set() == keys(ids).to_set(),
        result_keys(results).no_duplicates(),
{
    broadcast use vstd::seq_lib::group_to_multiset_ensures;
    keys(unique).lemma_multiset_has_no_duplicates();
    result_keys(results).lemma_multiset_has_no_duplicates_conv();
    assert(result_keys(results).to_set() =~= keys(unique).to_set()) by {
        assert forall|k: Seq<char>| result_keys(results).to_set().contains(k) == keys(unique).to_set().contains(k) by {
            vstd::seq_lib::to_multiset_contains(result_keys(results), k);
            vstd::seq_lib::to_multiset_contains(keys(unique), k);
        }
    }
}

/// Completion order does not matter: where the same per-page outcomes arrive
/// in two orders, the two results give every page the same records, and list
/// the same pages.
pub proof fn lemma_order_independent(
    a: Seq<(String, Result<Vec<Record>, FetchError>)>,
    b: Seq<(String, Result<Vec<Record>, FetchError>)>,
    ra: Seq<NotionPageBlocksResult>,
    rb: Seq<NotionPageBlocksResult>,
)
    requires
        outcome_keys(a).no_duplicates(),
        a.to_multiset() == b.to_multiset(),
        ra.len() == a.len(),
        rb.len() == b.len(),
        forall|i: int|
            0 <= i < ra.len() ==> (#[trigger] ra[i]).page_id == a[i].0 && ra[i].blocks@ == blocks_of(a[i].1),
        forall|j: int|
            0 <= j < rb.len() ==> (#[trigger] rb[j]).page_id == b[j].0 && rb[j].blocks@ == blocks_of(b[j].1),
    ensures
        forall|i: int, j: int|
            0 <= i < ra.len() && 0 <= j < rb.len() && (#[trigger] ra[i]).page_id@ == (#[trigger] rb[j]).page_id@
                ==> ra[i].blocks@ == rb[j].blocks@,
        result_keys(ra).to_set() == result_keys(rb).to_set(),
{
    assert forall|j: int| 0 <= j < b.len() implies exists|k: int| 0 <= k < a.len() && a[k] == #[trigger] b[j] by {
        vstd::seq_lib::to_multiset_contains(b, b[j]);
        vstd::seq_lib::to_multiset_contains(a, b[j]);
        assert(b.contains(b[j]));
    }
    assert forall|i: int| 0 <= i < a.len() implies exists|k: int| 0 <= k < b.len() && b[k] == #[trigger] a[i] by {
        vstd::seq_lib::to_multiset_contains(a, a[i]);
        vstd::seq_lib::to_multiset_contains(b, a[i]);
        assert(a.contains(a[i]));
    }
    assert forall|i: int, j: int|
        0 <= i < ra.len() && 0 <= j < rb.len() && (#[trigger] ra[i]).page_id@ == (#[trigger] rb[j]).page_id@
            implies ra[i].blocks@ == rb[j].blocks@ by {
        let k = choose|k: int| 0 <= k < a.len() && a[k] == b[j];
        assert(outcome_keys(a)[k] == outcome_keys(a)[i]);
    }
    assert forall|x: Seq<char>| result_keys(ra).contains(x) implies result_keys(rb).contains(x) by {
        let i = choose|i: int| 0 <= i < result_keys(ra).len() && result_keys(ra)[i] == x;
        assert(ra[i].page_id@ == x);
        let k = choose|k: int| 0 <= k < b.len() && b[k] == a[i];
        assert(result_keys(rb)[k] == x);
    }
    assert forall|x: Seq<char>| result_keys(rb).contains(x) implies result_keys(ra).contains(x) by {
        let j = choose|j: int| 0 <= j < result_keys(rb).len() && result_keys(rb)[j] == x;
        assert(rb[j].page_id@ == x);
        let k = choose|k: int| 0 <= k < a.len() && a[k] == b[j];
        assert(result_keys(ra)[k] == x);
    }
    assert(result_keys(ra).to_set() =~= result_keys(rb).to_set());
}

} // verus!
