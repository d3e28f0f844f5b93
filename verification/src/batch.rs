//! Resolution of a batch of identifiers: every identifier is resolved on its
//! own and lands among the results or among the errors.

use crate::address::ip_of_text;
use crate::dictionary::Dictionary;
use crate::record::{GeoData, GeoDataView};
use crate::resolve::{lookup_text, outcome_view};
use crate::store::Databases;
use vstd::prelude::*;

verus! {

/// The identifiers to resolve, in the order of the request. An identifier
/// may occur more than once and need not denote an address.
#[derive(Clone, Debug)]
pub struct BatchLookupRequest {
    pub ips: Vec<String>,
}

/// The outcome of a batch: the records of the identifiers that resolved, and
/// the error texts of those that did not, each under its identifier.
pub struct BatchLookupResponse {
    pub results: Dictionary<GeoData>,
    pub errors: Dictionary<String>,
}

/// A batch outcome as two maps over identifiers.
#[verifier::ext_equal]
pub struct BatchView {
    pub results: Map<Seq<char>, GeoDataView>,
    pub errors: Map<Seq<char>, Seq<char>>,
}

impl View for BatchLookupRequest {
    type V = Seq<Seq<char>>;

    open spec fn view(&self) -> Seq<Seq<char>> {
        Seq::new(self.ips@.len(), |i: int| self.ips@[i]@)
    }
}

impl View for BatchLookupResponse {
    type V = BatchView;

    open spec fn view(&self) -> BatchView {
        BatchView {
            results: Map::new(
                |k: Seq<char>| self.results@.contains_key(k),
                |k: Seq<char>| self.results@[k]@,
            ),
            errors: Map::new(
                |k: Seq<char>| self.errors@.contains_key(k),
                |k: Seq<char>| self.errors@[k]@,
            ),
        }
    }
}

/// The batch outcome after the outcome of `id` has been recorded in `batch`:
/// a record goes among the results, an error text among the errors, in place
/// of what stood there under `id`.
pub open spec fn recorded(batch: BatchView, id: Seq<char>, outcome: Result<GeoDataView, Seq<char>>)
    -> BatchView {
    match outcome {
        Ok(g) => BatchView { results: batch.results.insert(id, g), errors: batch.errors },
        Err(e) => BatchView { results: batch.results, errors: batch.errors.insert(id, e) },
    }
}

/// The outcome of resolving the identifiers `ids` over `dbs`: an identifier
/// of the batch is among the results with its record if it resolves, and
/// among the errors with the error's text if it does not.
pub open spec fn batch_of(dbs: Databases, ids: Seq<Seq<char>>) -> BatchView {
    BatchView {
        results: Map::new(
            |k: Seq<char>| ids.contains(k) && dbs.answer(k) is Ok,
            |k: Seq<char>| dbs.answer(k)->Ok_0,
        ),
        errors: Map::new(
            |k: Seq<char>| ids.contains(k) && dbs.answer(k) is Err,
            |k: Seq<char>| dbs.answer(k)->Err_0,
        ),
    }
}

impl BatchLookupResponse {
    /// Both dictionaries are well formed.
    pub open spec fn wf(&self) -> bool {
        self.results.wf() && self.errors.wf()
    }

    /// The outcome of an empty batch: no identifier is recorded, neither
    /// among the results nor among the errors.
    pub fn new() -> (r: Self)
        ensures
            r.wf(),
            r.results@ == Map::<Seq<char>, GeoData>::empty(),
            r.errors@ == Map::<Seq<char>, String>::empty(),
            r.results.entries() == Seq::<(String, GeoData)>::empty(),
            r.errors.entries() == Seq::<(String, String)>::empty(),
            r@ == (BatchView { results: Map::empty(), errors: Map::empty() }),
    {
        let r = BatchLookupResponse { results: Dictionary::new(), errors: Dictionary::new() };
        assert(r@ =~~= (BatchView { results: Map::empty(), errors: Map::empty() }));
        r
    }

    /// Records the outcome of resolving `id`.
    pub fn record(&mut self, id: String, outcome: Result<GeoData, String>)
        requires
            old(self).wf(),
        ensures
            final(self).wf(),
            final(self)@ == recorded(old(self)@, id@, outcome_view(outcome)),
    {
        match outcome {
            Ok(g) => {
                self.results.insert(id, g);
            },
            Err(e) => {
                self.errors.insert(id, e);
            },
        }
        assert(self@ =~~= recorded(old(self)@, id@, outcome_view(outcome)));
    }
}

/// Resolving one identifier more records its outcome in the outcome of the
/// batch so far.
proof fn lemma_batch_step(dbs: Databases, ids: Seq<Seq<char>>, id: Seq<char>)
    ensures
        batch_of(dbs, ids.push(id)) == recorded(batch_of(dbs, ids), id, dbs.answer(id)),
{
    let more = ids.push(id);
    assert forall|k: Seq<char>| more.contains(k) <==> ids.contains(k) || k == id by {
        if ids.contains(k) {
            let i = choose|i: int| 0 <= i < ids.len() && ids[i] == k;
            assert(more[i] == k);
        }
        if k == id {
            assert(more[ids.len() as int] == k);
        }
    }
    assert(batch_of(dbs, more) =~~= recorded(batch_of(dbs, ids), id, dbs.answer(id)));
}

/// Resolves every identifier of the request. An identifier that denotes no
/// address, or whose address does not resolve, is recorded among the errors
/// and the rest of the batch goes on.
pub fn batch_lookup(req: &BatchLookupRequest, dbs: &Databases) -> (r: BatchLookupResponse)
    requires
        forall|i: int| 0 <= i < req@.len() ==> dbs.answers_text(#[trigger] req@[i]),
    ensures
        r.wf(),
        r@ == batch_of(*dbs, req@),
{
    let mut response = BatchLookupResponse::new();
    let n: usize = req.ips.len();
    let mut i: usize = 0;
    assert(req@.take(0) =~= Seq::empty());
    assert(response@ =~~= batch_of(*dbs, req@.take(0)));
    while i < n
        invariant
            i <= n == req.ips.len(),
            response.wf(),
            response@ == batch_of(*dbs, req@.take(i as int)),
            forall|j: int| 0 <= j < req@.len() ==> dbs.answers_text(#[trigger] req@[j]),
        decreases n - i,
    {
        let id: &String = &req.ips[i];
        assert(req@[i as int] == id@);
        let outcome = lookup_text(id.as_str(), dbs);
        response.record(id.clone(), outcome);
        proof {
            lemma_batch_step(*dbs, req@.take(i as int), id@);
            assert(req@.take(i as int).push(id@) =~= req@.take(i + 1));
        }
        i = i + 1;
    }
    assert(req@.take(n as int) =~= req@);
    response
}

/// The number of identifiers among `ids`, counted with repetition, that
/// satisfy `p`.
pub open spec fn count_where(ids: Seq<Seq<char>>, p: spec_fn(Seq<char>) -> bool) -> nat
    decreases ids.len(),
{
    if ids.len() == 0 {
        0
    } else {
        count_where(ids.drop_last(), p) + if p(ids.last()) {
            1nat
        } else {
            0nat
        }
    }
}

/// The identifier denotes no address.
pub open spec fn is_invalid(id: Seq<char>) -> bool {
    ip_of_text(id) is None
}

/// The identifier denotes an address that does not resolve over `dbs`.
pub open spec fn misses(dbs: Databases, id: Seq<char>) -> bool {
    ip_of_text(id) is Some && dbs.answer(id) is Err
}

/// The outcome of a batch covers its identifiers, each exactly once: every
/// identifier of the batch is a key either of the results or of the errors,
/// never of both, and no other key occurs. What stands under an identifier
/// is decided by the identifier alone, wherever and however often it occurs
/// in the batch: its record, or else the text of its error, which for an
/// identifier that denotes no address is `Invalid IP format`.
pub proof fn lemma_batch_covers(dbs: Databases, ids: Seq<Seq<char>>)
    ensures
        batch_of(dbs, ids).results.dom().disjoint(batch_of(dbs, ids).errors.dom()),
        batch_of(dbs, ids).results.dom().union(batch_of(dbs, ids).errors.dom()) == ids.to_set(),
        forall|k: Seq<char>| #[trigger]
            batch_of(dbs, ids).results.contains_key(k) ==> dbs.answer(k) == Ok::<
                GeoDataView,
                Seq<char>,
            >(batch_of(dbs, ids).results[k]),
        forall|k: Seq<char>| #[trigger]
            batch_of(dbs, ids).errors.contains_key(k) ==> dbs.answer(k) == Err::<
                GeoDataView,
                Seq<char>,
            >(batch_of(dbs, ids).errors[k]),
        forall|k: Seq<char>|
            ids.contains(k) && is_invalid(k) ==> #[trigger] batch_of(dbs, ids).errors.contains_key(k)
                && batch_of(dbs, ids).errors[k] == crate::resolve::invalid_format(),
{
    assert(batch_of(dbs, ids).results.dom().union(batch_of(dbs, ids).errors.dom())
        =~= ids.to_set());
}

/// The outcome of a batch without the identifier that came last.
proof fn lemma_batch_last(dbs: Databases, ids: Seq<Seq<char>>)
    requires
        ids.len() > 0,
    ensures
        batch_of(dbs, ids) == recorded(
            batch_of(dbs, ids.drop_last()),
            ids.last(),
            dbs.answer(ids.last()),
        ),
{
    assert(ids.drop_last().push(ids.last()) =~= ids);
    lemma_batch_step(dbs, ids.drop_last(), ids.last());
}

/// In a batch whose identifiers are all different, the results are as many
/// as the identifiers that are neither invalid nor missed, and the errors as
/// many as those that are invalid or missed.
pub proof fn lemma_batch_counts(dbs: Databases, ids: Seq<Seq<char>>)
    requires
        ids.no_duplicates(),
    ensures
        batch_of(dbs, ids).results.dom().finite(),
        batch_of(dbs, ids).errors.dom().finite(),
        batch_of(dbs, ids).results.len() == ids.len() - count_where(ids, |k| is_invalid(k))
            - count_where(ids, |k| misses(dbs, k)),
        batch_of(dbs, ids).errors.len() == count_where(ids, |k| is_invalid(k)) + count_where(
            ids,
            |k| misses(dbs, k),
        ),
    decreases ids.len(),
{
    if ids.len() == 0 {
        assert(batch_of(dbs, ids).results.dom() =~= Set::empty());
        assert(batch_of(dbs, ids).errors.dom() =~= Set::empty());
    } else {
        let init = ids.drop_last();
        let last = ids.last();
        lemma_batch_counts(dbs, init);
        lemma_batch_last(dbs, ids);
        assert(!init.contains(last)) by {
            if init.contains(last) {
                let i = choose|i: int| 0 <= i < init.len() && init[i] == last;
                assert(ids[i] == ids[ids.len() - 1]);
            }
        }
        let before = batch_of(dbs, init);
        match dbs.answer(last) {
            Ok(g) => {
                assert(batch_of(dbs, ids).results.dom() =~= before.results.dom().insert(last));
            },
            Err(e) => {
                assert(batch_of(dbs, ids).errors.dom() =~= before.errors.dom().insert(last));
            },
        }
    }
}

} // verus!
