use vstd::prelude::*;
use crate::account_type::AccountType;
use crate::storage_helper::copy_bytes;

verus! {

use vstd::seq_lib::lemma_sorted_unique;
use vstd::relations::sorted_by;
use vstd::relations::total_ordering;

/// Descending order on signer weights.
pub open spec fn desc_leq() -> spec_fn(u8, u8) -> bool {
    |a: u8, b: u8| a >= b
}

/// The signer weights sorted from the heaviest down.
pub open spec fn sorted_desc(s: Seq<u8>) -> Seq<u8> {
    s.sort_by(desc_leq())
}

/// The heaviest signer weight; zero when there are no signers.
pub open spec fn max_weight(s: Seq<u8>) -> u8
    decreases s.len(),
{
    if s.len() == 0 {
        0u8
    } else if s.last() > max_weight(s.drop_last()) {
        s.last()
    } else {
        max_weight(s.drop_last())
    }
}

/// How many signers carry any weight at all.
pub open spec fn count_active(s: Seq<u8>) -> int
    decreases s.len(),
{
    if s.len() == 0 {
        0int
    } else {
        count_active(s.drop_last()) + (if s.last() > 0 {
            1int
        } else {
            0int
        })
    }
}

/// The summed weight of the first `n` entries.
pub open spec fn prefix_weight(s: Seq<u8>, n: int) -> int
    decreases n,
{
    if n <= 0 {
        0int
    } else {
        prefix_weight(s, n - 1) + s[n - 1]
    }
}

/// The first count `n`, from `from` upward, at which the running sum of the
/// first `n` entries reaches the threshold; `None` when the whole sequence
/// never reaches it.
pub open spec fn multisig_count_from(s: Seq<u8>, threshold: int, from: int) -> Option<int>
    decreases s.len() - from + 1,
{
    if from < 1 || from > s.len() {
        None
    } else if prefix_weight(s, from) >= threshold {
        Some(from)
    } else {
        multisig_count_from(s, threshold, from + 1)
    }
}

/// The signer-weight heuristic. No signer with weight means a deactivated
/// account. A single signer that alone reaches the low threshold means a
/// tentative hot wallet. Otherwise the account is an N-of-M multisig, where N
/// is the least number of heaviest signers whose summed weight reaches the
/// threshold and M is the number of signers with any weight; when even the
/// whole sum falls short the account is treated as deactivated.
pub open spec fn classify_spec(w: Seq<u8>, low_threshold: u8) -> AccountType {
    if max_weight(w) == 0 {
        AccountType::Deactivated
    } else if max_weight(w) >= low_threshold {
        AccountType::HotWallet
    } else {
        match multisig_count_from(sorted_desc(w), low_threshold as int, 1) {
            Some(n) => AccountType::Multisig(n as u8, count_active(w) as u8),
            None => AccountType::Deactivated,
        }
    }
}

/// There are never more active signers than signers.
proof fn lemma_count_active_bound(s: Seq<u8>)
    ensures
        0 <= count_active(s) <= s.len(),
    decreases s.len(),
{
    if s.len() > 0 {
        lemma_count_active_bound(s.drop_last());
    }
}

/// A running sum that first reaches the threshold at `n` is what the
/// multisig count names.
proof fn lemma_msc_found(s: Seq<u8>, threshold: int, from: int, n: int)
    requires
        1 <= from <= n <= s.len(),
        prefix_weight(s, n) >= threshold,
        forall|m: int| from <= m < n ==> prefix_weight(s, m) < threshold,
    ensures
        multisig_count_from(s, threshold, from) == Some(n),
    decreases n - from,
{
    if from < n {
        lemma_msc_found(s, threshold, from + 1, n);
    }
}

/// A running sum that never reaches the threshold yields no multisig count.
proof fn lemma_msc_none(s: Seq<u8>, threshold: int, from: int)
    requires
        1 <= from,
        forall|m: int| from <= m <= s.len() ==> prefix_weight(s, m) < threshold,
    ensures
        multisig_count_from(s, threshold, from) is None,
    decreases s.len() - from + 1,
{
    if from <= s.len() {
        lemma_msc_none(s, threshold, from + 1);
    }
}

/// Sorts the signer weights from the heaviest down by repeatedly extracting
/// the heaviest remaining weight.
fn sort_weights_desc(v: &Vec<u8>) -> (r: Vec<u8>)
    ensures
        r@ == sorted_desc(v@),
        r@.len() == v@.len(),
{
    let mut work = copy_bytes(v);
    let mut out: Vec<u8> = Vec::new();
    proof {
        broadcast use vstd::seq_lib::group_to_multiset_ensures;
        broadcast use vstd::multiset::group_multiset_axioms;

        assert(out@.to_multiset().add(work@.to_multiset()) =~= v@.to_multiset());
    }
    while work.len() > 0
        invariant
            out@.to_multiset().add(work@.to_multiset()) == v@.to_multiset(),
            sorted_by(out@, desc_leq()),
            forall|x: int, y: int| 0 <= x < out@.len() && 0 <= y < work@.len() ==> out@[x]
                >= work@[y],
        decreases work@.len(),
    {
        let mut mi: usize = 0;
        let mut i: usize = 1;
        while i < work.len()
            invariant
                mi < work@.len(),
                1 <= i <= work@.len(),
                forall|j: int| 0 <= j < i ==> work@[j] <= work@[mi as int],
            decreases work@.len() - i,
        {
            if work[i] > work[mi] {
                mi = i;
            }
            i += 1;
        }
        let ghost old_out = out@;
        let ghost old_work = work@;
        let x = work.remove(mi);
        out.push(x);
        proof {
            broadcast use vstd::seq_lib::group_to_multiset_ensures;
            broadcast use vstd::multiset::group_multiset_axioms;

            assert(old_work.to_multiset().contains(x));
            assert(out@.to_multiset().add(work@.to_multiset()) =~= v@.to_multiset());
            assert forall|p: int, q: int| 0 <= p < q < out@.len() implies desc_leq()(
                out@[p],
                out@[q],
            ) by {
                if q < out@.len() - 1 {
                    assert(desc_leq()(old_out[p], old_out[q]));
                }
            };
        }
    }
    proof {
        broadcast use vstd::seq_lib::group_to_multiset_ensures;
        broadcast use vstd::multiset::group_multiset_axioms;

        assert(work@ =~= Seq::<u8>::empty());
        assert(out@.to_multiset() =~= v@.to_multiset());
        vstd::seq_lib::to_multiset_len(out@);
        vstd::seq_lib::to_multiset_len(v@);
        assert(total_ordering(desc_leq()));
        v@.lemma_sort_by_ensures(desc_leq());
        lemma_sorted_unique(out@, v@.sort_by(desc_leq()), desc_leq());
        assert(out@.len() == v@.len());
    }
    out
}

/// Classifies an externally-owned account from its signer weights and low
/// threshold, by the weight heuristic of [`classify_spec`]. The signer data
/// itself comes from the historical-data index; this function is handed the
/// weights as plain values.
pub fn check_if_centralized(weights: &Vec<u8>, low_threshold: u8) -> (r: AccountType)
    requires
        weights@.len() <= 255,
    ensures
        r == classify_spec(weights@, low_threshold),
{
    let mut max_w: u8 = 0;
    let mut i: usize = 0;
    while i < weights.len()
        invariant
            i <= weights@.len(),
            max_w == max_weight(weights@.take(i as int)),
        decreases weights@.len() - i,
    {
        proof {
            assert(weights@.take(i + 1).drop_last() =~= weights@.take(i as int));
        }
        if weights[i] > max_w {
            max_w = weights[i];
        }
        i += 1;
    }
    proof {
        assert(weights@.take(weights@.len() as int) =~= weights@);
    }
    if max_w == 0 {
        return AccountType::Deactivated;
    }
    if max_w >= low_threshold {
        return AccountType::HotWallet;
    }
    let mut total_signers: usize = 0;
    let mut i: usize = 0;
    while i < weights.len()
        invariant
            i <= weights@.len(),
            total_signers == count_active(weights@.take(i as int)),
            total_signers <= i,
        decreases weights@.len() - i,
    {
        proof {
            assert(weights@.take(i + 1).drop_last() =~= weights@.take(i as int));
        }
        if weights[i] > 0 {
            total_signers += 1;
        }
        i += 1;
    }
    proof {
        assert(weights@.take(weights@.len() as int) =~= weights@);
    }
    let sorted = sort_weights_desc(weights);
    let ghost s = sorted@;
    let mut total_weight: u32 = 0;
    let mut j: usize = 0;
    while j < sorted.len()
        invariant
            j <= s.len(),
            s == sorted@,
            s == sorted_desc(weights@),
            s.len() == weights@.len() <= 255,
            total_weight == prefix_weight(s, j as int),
            total_weight <= 255 * j,
            max_weight(weights@) != 0,
            max_weight(weights@) < low_threshold,
            total_signers == count_active(weights@) <= weights@.len(),
            forall|n: int| 1 <= n <= j ==> prefix_weight(s, n) < low_threshold as int,
        decreases s.len() - j,
    {
        total_weight = total_weight + sorted[j] as u32;
        proof {
            assert(prefix_weight(s, j + 1) == prefix_weight(s, j as int) + s[j as int]);
        }
        j += 1;
        if total_weight >= low_threshold as u32 {
            proof {
                lemma_msc_found(s, low_threshold as int, 1, j as int);
                lemma_count_active_bound(weights@);
                assert(multisig_count_from(sorted_desc(weights@), low_threshold as int, 1) == Some(
                    j as int,
                ));
            }
            return AccountType::Multisig(j as u8, total_signers as u8);
        }
    }
    proof {
        lemma_msc_none(s, low_threshold as int, 1);
    }
    AccountType::Deactivated
}

/// One transaction record of the historical-data index, ordered by ledger
/// sequence as the index returns them.
#[derive(Debug, PartialEq, Eq)]
pub struct TxRecord {
    pub ledger: u64,
    pub paging_token: String,
    pub source_account: String,
    pub fee_account: String,
}

/// Mathematical shape of a [`TxRecord`].
#[verifier::ext_equal]
pub struct TxRecordModel {
    pub ledger: u64,
    pub paging_token: Seq<char>,
    pub source_account: Seq<char>,
    pub fee_account: Seq<char>,
}

impl View for TxRecord {
    type V = TxRecordModel;

    open spec fn view(&self) -> TxRecordModel {
        TxRecordModel {
            ledger: self.ledger,
            paging_token: self.paging_token@,
            source_account: self.source_account@,
            fee_account: self.fee_account@,
        }
    }
}

/// Whether a record involves the account, as its source or as its fee payer.
pub open spec fn qualifying(r: TxRecordModel, account: Seq<char>) -> bool {
    r.source_account == account || r.fee_account == account
}

/// The records that involve the account, in their original order.
pub open spec fn filter_records(s: Seq<TxRecordModel>, account: Seq<char>) -> Seq<TxRecordModel>
    decreases s.len(),
{
    if s.len() == 0 {
        Seq::empty()
    } else if qualifying(s.last(), account) {
        filter_records(s.drop_last(), account).push(s.last())
    } else {
        filter_records(s.drop_last(), account)
    }
}

/// The records with consecutive paging-token duplicates collapsed to their
/// first occurrence: pages fetched through the cursor protocol may overlap at
/// their boundaries.
pub open spec fn dedup_records(s: Seq<TxRecordModel>) -> Seq<TxRecordModel>
    decreases s.len(),
{
    if s.len() <= 1 {
        s
    } else if s.last().paging_token == s[s.len() - 2].paging_token {
        dedup_records(s.drop_last())
    } else {
        dedup_records(s.drop_last()).push(s.last())
    }
}

/// The ledger sequence numbers of the records.
pub open spec fn ledgers_of(s: Seq<TxRecordModel>) -> Seq<u64> {
    s.map_values(|r: TxRecordModel| r.ledger)
}

/// The least difference between two consecutive ledger numbers; the largest
/// unsigned value stands for an unbounded gap when fewer than two records
/// exist.
pub open spec fn min_gap(ls: Seq<u64>) -> int
    decreases ls.len(),
{
    if ls.len() < 2 {
        u64::MAX as int
    } else {
        let rest = min_gap(ls.drop_last());
        let d = ls.last() - ls[ls.len() - 2];
        if d < rest {
            d
        } else {
            rest
        }
    }
}

/// The records are in ascending ledger order.
pub open spec fn ledger_sorted(s: Seq<TxRecordModel>) -> bool {
    forall|i: int, j: int| 0 <= i < j < s.len() ==> #[trigger] s[i].ledger <= #[trigger] s[j].ledger
}

/// Every filtered record is one of the input records.
proof fn lemma_filter_contains(s: Seq<TxRecordModel>, account: Seq<char>, x: TxRecordModel)
    requires
        filter_records(s, account).contains(x),
    ensures
        s.contains(x),
    decreases s.len(),
{
    if s.len() > 0 {
        let fd = filter_records(s.drop_last(), account);
        if qualifying(s.last(), account) {
            let f = fd.push(s.last());
            let k = choose|k: int| 0 <= k < f.len() && f[k] == x;
            if k == f.len() - 1 {
                assert(s[s.len() - 1] == x);
            } else {
                assert(fd.contains(x));
                lemma_filter_contains(s.drop_last(), account, x);
                let m = choose|m: int| 0 <= m < s.drop_last().len() && s.drop_last()[m] == x;
                assert(s[m] == x);
            }
        } else {
            lemma_filter_contains(s.drop_last(), account, x);
            let m = choose|m: int| 0 <= m < s.drop_last().len() && s.drop_last()[m] == x;
            assert(s[m] == x);
        }
    }
}

/// Every deduplicated record is one of the input records.
proof fn lemma_dedup_contains(s: Seq<TxRecordModel>, x: TxRecordModel)
    requires
        dedup_records(s).contains(x),
    ensures
        s.contains(x),
    decreases s.len(),
{
    if s.len() > 1 {
        let dd = dedup_records(s.drop_last());
        if s.last().paging_token == s[s.len() - 2].paging_token {
            lemma_dedup_contains(s.drop_last(), x);
            let m = choose|m: int| 0 <= m < s.drop_last().len() && s.drop_last()[m] == x;
            assert(s[m] == x);
        } else {
            let d = dd.push(s.last());
            let k = choose|k: int| 0 <= k < d.len() && d[k] == x;
            if k == d.len() - 1 {
                assert(s[s.len() - 1] == x);
            } else {
                assert(dd.contains(x));
                lemma_dedup_contains(s.drop_last(), x);
                let m = choose|m: int| 0 <= m < s.drop_last().len() && s.drop_last()[m] == x;
                assert(s[m] == x);
            }
        }
    }
}

/// Filtering keeps the records in ascending ledger order.
proof fn lemma_filter_sorted(s: Seq<TxRecordModel>, account: Seq<char>)
    requires
        ledger_sorted(s),
    ensures
        ledger_sorted(filter_records(s, account)),
    decreases s.len(),
{
    if s.len() > 0 {
        assert(ledger_sorted(s.drop_last()));
        lemma_filter_sorted(s.drop_last(), account);
        if qualifying(s.last(), account) {
            let fd = filter_records(s.drop_last(), account);
            let f = fd.push(s.last());
            assert forall|a: int, b: int| 0 <= a < b < f.len() implies #[trigger] f[a].ledger
                <= #[trigger] f[b].ledger by {
                if b == f.len() - 1 {
                    assert(fd.contains(fd[a]));
                    lemma_filter_contains(s.drop_last(), account, fd[a]);
                    let m = choose|m: int|
                        0 <= m < s.drop_last().len() && s.drop_last()[m] == fd[a];
                    if m < s.len() - 1 {
                        assert(s[m].ledger <= s[s.len() - 1].ledger);
                    }
                }
            };
        }
    }
}

/// Deduplication keeps the records in ascending ledger order.
proof fn lemma_dedup_sorted(s: Seq<TxRecordModel>)
    requires
        ledger_sorted(s),
    ensures
        ledger_sorted(dedup_records(s)),
    decreases s.len(),
{
    if s.len() > 1 {
        assert(ledger_sorted(s.drop_last()));
        lemma_dedup_sorted(s.drop_last());
        if !(s.last().paging_token == s[s.len() - 2].paging_token) {
            let dd = dedup_records(s.drop_last());
            let d = dd.push(s.last());
            assert forall|a: int, b: int| 0 <= a < b < d.len() implies #[trigger] d[a].ledger
                <= #[trigger] d[b].ledger by {
                if b == d.len() - 1 {
                    assert(dd.contains(dd[a]));
                    lemma_dedup_contains(s.drop_last(), dd[a]);
                    let m = choose|m: int|
                        0 <= m < s.drop_last().len() && s.drop_last()[m] == dd[a];
                    if m < s.len() - 1 {
                        assert(s[m].ledger <= s[s.len() - 1].ledger);
                    }
                }
            };
        }
    }
}

/// When the first record of a second batch carries the paging token of the
/// last record of a first batch, deduplication drops that first record.
proof fn lemma_boundary_dedup(p1: Seq<TxRecordModel>, p2: Seq<TxRecordModel>)
    requires
        p1.len() > 0,
        p2.len() > 0,
        p1.last().paging_token == p2[0].paging_token,
    ensures
        dedup_records(p1 + p2) == dedup_records(p1 + p2.drop_first()),
    decreases p2.len(),
{
    let s = p1 + p2;
    if p2.len() == 1 {
        assert(s.drop_last() =~= p1);
        assert(s.last() == p2[0]);
        assert(s[s.len() - 2] == p1.last());
        assert(p1 + p2.drop_first() =~= p1);
    } else {
        let p2d = p2.drop_last();
        lemma_boundary_dedup(p1, p2d);
        let s2 = p1 + p2.drop_first();
        assert(s.drop_last() =~= p1 + p2d);
        assert(s2.drop_last() =~= p1 + p2d.drop_first());
        assert(s.last() == p2.last());
        assert(s2.last() == p2.last());
        assert(s[s.len() - 2] == p2[p2.len() - 2]);
        if p2.len() == 2 {
            assert(s2[s2.len() - 2] == p1.last());
            assert(p2[p2.len() - 2] == p2[0]);
        } else {
            assert(s2[s2.len() - 2] == p2[p2.len() - 2]);
        }
    }
}

/// Filtering distributes over concatenation.
proof fn lemma_filter_concat(a: Seq<TxRecordModel>, b: Seq<TxRecordModel>, account: Seq<char>)
    ensures
        filter_records(a + b, account) == filter_records(a, account) + filter_records(b, account),
    decreases b.len(),
{
    if b.len() == 0 {
        assert(a + b =~= a);
        assert(filter_records(a, account) + filter_records(b, account) =~= filter_records(
            a,
            account,
        ));
    } else {
        lemma_filter_concat(a, b.drop_last(), account);
        assert((a + b).drop_last() =~= a + b.drop_last());
        assert((a + b).last() == b.last());
        if qualifying(b.last(), account) {
            assert((filter_records(a, account) + filter_records(b.drop_last(), account)).push(
                b.last(),
            ) =~= filter_records(a, account) + filter_records(b.drop_last(), account).push(
                b.last(),
            ));
        }
    }
}

/// LAW: pagination deduplication. When two consecutively fetched pages share
/// their boundary record — the last record of the first page arrives again as
/// the first record of the second — the frequency analysis, which filters the
/// accumulated records and deduplicates them by paging token, gives the same
/// result as if the shared record had arrived only once.
pub proof fn lemma_pagination_merge(
    p1: Seq<TxRecordModel>,
    p2: Seq<TxRecordModel>,
    account: Seq<char>,
)
    requires
        p1.len() > 0,
        p2.len() > 0,
        p1.last() == p2[0],
    ensures
        dedup_records(filter_records(p1 + p2, account)) == dedup_records(
            filter_records(p1 + p2.drop_first(), account),
        ),
{
    lemma_filter_concat(p1, p2, account);
    lemma_filter_concat(p1, p2.drop_first(), account);
    let f1 = filter_records(p1, account);
    let f2 = filter_records(p2, account);
    let f2d = filter_records(p2.drop_first(), account);
    assert(p2 =~= seq![p2[0]] + p2.drop_first());
    lemma_filter_concat(seq![p2[0]], p2.drop_first(), account);
    assert(filter_records(Seq::<TxRecordModel>::empty(), account) =~= Seq::<
        TxRecordModel,
    >::empty());
    assert(seq![p2[0]].drop_last() =~= Seq::<TxRecordModel>::empty());
    if qualifying(p2[0], account) {
        assert(filter_records(seq![p2[0]], account) =~= seq![p2[0]]);
        assert(f2 =~= seq![p2[0]] + f2d);
        assert(f1.len() > 0 && f1.last() == p1.last());
        assert(f2[0] == p2[0]);
        lemma_boundary_dedup(f1, f2);
        assert(f2.drop_first() =~= f2d);
    } else {
        assert(filter_records(seq![p2[0]], account) =~= Seq::<TxRecordModel>::empty());
        assert(f2 =~= f2d);
    }
}

/// Checks that fetched records are in ascending ledger order, as the
/// historical-data index returns them; the frequency analyzer depends on it.
pub fn is_ledger_sorted(records: &Vec<TxRecord>) -> (r: bool)
    ensures
        r == ledger_sorted(records@.map_values(|t: TxRecord| t@)),
{
    let ghost ms = records@.map_values(|t: TxRecord| t@);
    if records.len() == 0 {
        return true;
    }
    let mut i: usize = 1;
    while i < records.len()
        invariant
            1 <= i <= ms.len(),
            ms == records@.map_values(|t: TxRecord| t@),
            forall|a: int, b: int| 0 <= a < b < i ==> #[trigger] ms[a].ledger
                <= #[trigger] ms[b].ledger,
        decreases ms.len() - i,
    {
        if records[i - 1].ledger > records[i].ledger {
            proof {
                assert(ms[i - 1].ledger > ms[i as int].ledger);
            }
            return false;
        }
        proof {
            assert forall|a: int| 0 <= a < i implies ms[a].ledger <= ms[i as int].ledger by {
                if a < i - 1 {
                    assert(ms[a].ledger <= ms[i - 1].ledger);
                }
            };
        }
        i += 1;
    }
    true
}

/// Whether the cursor-following fetch protocol has reached the end of the
/// history: a page shorter than the full page size of two hundred records is
/// the last one.
pub fn page_exhausted(page_len: usize) -> (r: bool)
    ensures
        r == (page_len != 200),
{
    page_len != 200
}

/// The minimum ledger gap between consecutive transactions that involve the
/// account. The records, accumulated over all fetched pages in ascending
/// ledger order, are filtered to those where the account is the source or the
/// fee payer, deduplicated by paging token, and the least difference between
/// consecutive ledger numbers is returned; the largest unsigned value stands
/// for an unbounded gap when fewer than two transactions remain.
pub fn tx_frequency_for_account(records: &Vec<TxRecord>, account_id: &String) -> (r: u64)
    requires
        ledger_sorted(records@.map_values(|t: TxRecord| t@)),
    ensures
        r as int == min_gap(
            ledgers_of(
                dedup_records(
                    filter_records(records@.map_values(|t: TxRecord| t@), account_id@),
                ),
            ),
        ),
{
    let ghost ms = records@.map_values(|t: TxRecord| t@);
    let mut kept: Vec<u64> = Vec::new();
    let mut last_qual: Option<usize> = None;
    let mut i: usize = 0;
    while i < records.len()
        invariant
            i <= ms.len(),
            ms == records@.map_values(|t: TxRecord| t@),
            ({
                let f = filter_records(ms.take(i as int), account_id@);
                let d = dedup_records(f);
                &&& kept@ == ledgers_of(d)
                &&& match last_qual {
                    None => f.len() == 0,
                    Some(j) => 0 <= j < i && f.len() > 0 && f.last() == ms[j as int],
                }
            }),
        decreases ms.len() - i,
    {
        let ghost f0 = filter_records(ms.take(i as int), account_id@);
        let ghost d0 = dedup_records(f0);
        let q = records[i].source_account == *account_id || records[i].fee_account == *account_id;
        let mut dup = false;
        match last_qual {
            Some(j) => {
                dup = records[j].paging_token == records[i].paging_token;
            },
            None => {},
        }
        if q {
            if !dup {
                kept.push(records[i].ledger);
            }
            last_qual = Some(i);
        }
        proof {
            let f1 = filter_records(ms.take(i + 1), account_id@);
            let d1 = dedup_records(f1);
            assert(ms.take(i + 1).drop_last() =~= ms.take(i as int));
            assert(ms.take(i + 1).last() == ms[i as int]);
            if q {
                assert(qualifying(ms[i as int], account_id@));
                assert(f1 == f0.push(ms[i as int]));
                if f0.len() == 0 {
                    assert(d1 == f1);
                    assert(ledgers_of(d1) =~= ledgers_of(d0).push(ms[i as int].ledger));
                } else {
                    assert(f1[f1.len() - 2] == f0.last());
                    if dup {
                        assert(f1.drop_last() =~= f0);
                        assert(d1 == d0);
                    } else {
                        assert(f1.drop_last() =~= f0);
                        assert(d1 == d0.push(ms[i as int]));
                        assert(ledgers_of(d1) =~= ledgers_of(d0).push(ms[i as int].ledger));
                    }
                }
            } else {
                assert(f1 == f0);
            }
        }
        i += 1;
    }
    proof {
        assert(ms.take(ms.len() as int) =~= ms);
        let f = filter_records(ms, account_id@);
        let d = dedup_records(f);
        lemma_filter_sorted(ms, account_id@);
        lemma_dedup_sorted(f);
        assert forall|a: int, b: int| 0 <= a < b < kept@.len() implies kept@[a] <= kept@[b] by {
            assert(d[a].ledger <= d[b].ledger);
        };
    }
    if kept.len() < 2 {
        return u64::MAX;
    }
    let mut min_diff: u64 = u64::MAX;
    let mut j: usize = 1;
    while j < kept.len()
        invariant
            1 <= j <= kept@.len(),
            kept@ == ledgers_of(
                dedup_records(filter_records(ms, account_id@)),
            ),
            ms == records@.map_values(|t: TxRecord| t@),
            forall|a: int, b: int| 0 <= a < b < kept@.len() ==> kept@[a] <= kept@[b],
            min_diff as int == min_gap(kept@.take(j as int)),
        decreases kept@.len() - j,
    {
        let d = kept[j] - kept[j - 1];
        if d < min_diff {
            min_diff = d;
        }
        proof {
            assert(kept@.take(j + 1).drop_last() =~= kept@.take(j as int));
            assert(kept@.take(j + 1).last() == kept@[j as int]);
            assert(kept@.take(j + 1)[j - 1] == kept@[j - 1]);
        }
        j += 1;
    }
    proof {
        assert(kept@.take(kept@.len() as int) =~= kept@);
    }
    min_diff
}

} // verus!

