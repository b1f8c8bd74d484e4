use vstd::prelude::*;

verus! {

use vstd::hash_set::HashSetWithView;
use crate::activity::Activity;
use crate::activity::ActivityStreams;
use crate::activity::ActivityWithStreams;
use crate::activity::spec_is_virtual_ride;
use crate::activity::is_virtual_ride;
use crate::index::ActivityIndex;
use crate::index::summary_matches;
use crate::numfmt::spec_decimal;
use crate::numfmt::u64_to_string;
use vstd::string::StringExecFns;

/// Tunable limits of one run: how many summaries each page asks for, how
/// many pages a run may fetch, and the pause between enrichment calls.
#[derive(Clone, Copy)]
pub struct SyncConfig {
    pub per_page: u32,
    pub max_pages: u32,
    pub delay_ms: u64,
}

impl SyncConfig {
    /// Sane limits: at least one page of at least one activity, with room
    /// to count one page past the cap.
    pub open spec fn wf(&self) -> bool {
        1 <= self.max_pages < 0xffff_ffffu32 && 1 <= self.per_page
    }

    /// The stock configuration: fifty summaries per page, at most five
    /// pages per run, half a second between enrichment calls.
    pub fn standard() -> (c: SyncConfig)
        ensures
            c.per_page == 50,
            c.max_pages == 5,
            c.delay_ms == 500,
            c.wf(),
    {
        SyncConfig { per_page: 50, max_pages: 5, delay_ms: 500 }
    }
}

/// Where the pagination loop stands. The three non-`Paginating` phases
/// are terminal: no further page is requested from any of them.
#[derive(Clone, Copy, PartialEq, Eq, Structural, Debug)]
pub enum Phase {
    Paginating,
    FoundExisting,
    PageLimitReached,
    EmptyPage,
}

/// What the streams fetch for one candidate came to: a decoded set of
/// series, or a failure (error status or undecodable body), which costs
/// the candidate its streams but never its record.
pub enum StreamsOutcome {
    Fetched(ActivityStreams),
    Failed,
}

/// The streams a record keeps for each fetch outcome.
pub open spec fn spec_outcome_streams(o: StreamsOutcome) -> Option<ActivityStreams> {
    match o {
        StreamsOutcome::Fetched(s) => Some(s),
        StreamsOutcome::Failed => None,
    }
}

/// Whether a page scan, walking the page newest-first, meets an activity
/// whose id is already known.
pub open spec fn found_known(acts: Seq<Activity>, known: Set<i64>) -> bool
    decreases acts.len(),
{
    if acts.len() == 0 {
        false
    } else if known.contains(acts[0].id) {
        true
    } else {
        found_known(acts.drop_first(), known)
    }
}

/// The enrichment candidates a page scan collects: the target-typed
/// activities standing before the first already-known one, in page order.
pub open spec fn scan_candidates(acts: Seq<Activity>, known: Set<i64>) -> Seq<Activity>
    decreases acts.len(),
{
    if acts.len() == 0 {
        Seq::empty()
    } else if known.contains(acts[0].id) {
        Seq::empty()
    } else if spec_is_virtual_ride(acts[0]) {
        seq![acts[0]] + scan_candidates(acts.drop_first(), known)
    } else {
        scan_candidates(acts.drop_first(), known)
    }
}

/// Addition capped at the largest 64-bit value, as the fetched-activities
/// counter is kept.
pub open spec fn sat_add_u64(a: int, b: int) -> int {
    if a + b <= u64::MAX {
        a + b
    } else {
        u64::MAX as int
    }
}

/// Scanning one position further, over an unknown id, leaves the scan
/// unstopped and appends the activity exactly when it matches the filter.
proof fn lemma_scan_extend(s: Seq<Activity>, known: Set<i64>, k: int)
    requires
        0 <= k < s.len(),
        !found_known(s.take(k), known),
        !known.contains(s[k].id),
    ensures
        !found_known(s.take(k + 1), known),
        scan_candidates(s.take(k + 1), known) =~= if spec_is_virtual_ride(s[k]) {
            scan_candidates(s.take(k), known).push(s[k])
        } else {
            scan_candidates(s.take(k), known)
        },
    decreases k,
{
    let t1 = s.take(k + 1);
    let t0 = s.take(k);
    if k == 0 {
        assert(t0 =~= Seq::<Activity>::empty());
        assert(t1.len() == 1 && t1[0] == s[0]);
        assert(t1.drop_first() =~= Seq::<Activity>::empty());
        assert(scan_candidates(Seq::<Activity>::empty(), known) =~= Seq::<Activity>::empty());
        if spec_is_virtual_ride(s[0]) {
            assert(scan_candidates(t1, known) =~= seq![s[0]]);
            assert(scan_candidates(t0, known).push(s[0]) =~= seq![s[0]]);
        }
    } else {
        let d = s.drop_first();
        assert(t0[0] == s[0] && t1[0] == s[0]);
        assert(!known.contains(s[0].id));
        assert(t0.drop_first() =~= d.take(k - 1));
        assert(t1.drop_first() =~= d.take(k));
        assert(d[k - 1] == s[k]);
        lemma_scan_extend(d, known, k - 1);
        let a = scan_candidates(d.take(k - 1), known);
        let b = scan_candidates(d.take(k), known);
        if spec_is_virtual_ride(s[0]) {
            assert(scan_candidates(t1, known) == seq![s[0]] + b);
            assert(scan_candidates(t0, known) == seq![s[0]] + a);
            if spec_is_virtual_ride(s[k]) {
                assert((seq![s[0]] + a.push(s[k])) =~= (seq![s[0]] + a).push(s[k]));
            }
        } else {
            assert(scan_candidates(t1, known) == b);
            assert(scan_candidates(t0, known) == a);
        }
    }
}

/// Meeting a known id at position `k`, after an unstopped scan of the
/// prefix, stops the whole scan there: the page reports the find, and its
/// candidates are exactly the prefix's.
proof fn lemma_scan_found(s: Seq<Activity>, known: Set<i64>, k: int)
    requires
        0 <= k < s.len(),
        !found_known(s.take(k), known),
        known.contains(s[k].id),
    ensures
        found_known(s, known),
        scan_candidates(s, known) =~= scan_candidates(s.take(k), known),
    decreases k,
{
    let t0 = s.take(k);
    if k == 0 {
        assert(scan_candidates(s, known) =~= Seq::<Activity>::empty());
        assert(scan_candidates(t0, known) =~= Seq::<Activity>::empty());
    } else {
        let d = s.drop_first();
        assert(t0[0] == s[0]);
        assert(!known.contains(s[0].id));
        assert(t0.drop_first() =~= d.take(k - 1));
        assert(d[k - 1] == s[k]);
        lemma_scan_found(d, known, k - 1);
        if spec_is_virtual_ride(s[0]) {
            assert(scan_candidates(s, known) == seq![s[0]] + scan_candidates(d, known));
            assert(scan_candidates(t0, known) == seq![s[0]] + scan_candidates(
                d.take(k - 1),
                known,
            ));
        }
    }
}

/// The query a listing page is asked with: the page number and the page
/// size, rendered in decimal.
pub fn page_query(page: u32, per_page: u32) -> (q: Vec<(String, String)>)
    ensures
        q@.len() == 2,
        q@[0].0@ == "page"@,
        q@[0].1@ == spec_decimal(page as int),
        q@[1].0@ == "per_page"@,
        q@[1].1@ == spec_decimal(per_page as int),
{
    vec![
        (String::from_str("page"), u64_to_string(page as u64)),
        (String::from_str("per_page"), u64_to_string(per_page as u64)),
    ]
}

/// A sequence of activities whose ids are all unknown cannot stop a scan.
proof fn lemma_unknown_prefix_not_found(s: Seq<Activity>, known: Set<i64>)
    requires
        forall|i: int| 0 <= i < s.len() ==> !known.contains((#[trigger] s[i]).id),
    ensures
        !found_known(s, known),
    decreases s.len(),
{
    if s.len() > 0 {
        let d = s.drop_first();
        assert forall|i: int| 0 <= i < d.len() implies !known.contains((#[trigger] d[i]).id) by {
            assert(d[i] == s[i + 1]);
        };
        lemma_unknown_prefix_not_found(d, known);
    }
}

/// Pagination halts on the first occurrence of a known id: when position
/// `k` holds the first already-known id in page order, the scan reports
/// the find, and nothing at or past `k` — however well it matches the
/// filter — is collected: the candidates are exactly the strict prefix's.
pub proof fn lemma_scan_stops_at_first_known(acts: Seq<Activity>, known: Set<i64>, k: int)
    requires
        0 <= k < acts.len(),
        known.contains(acts[k].id),
        forall|j: int| 0 <= j < k ==> !known.contains((#[trigger] acts[j]).id),
    ensures
        found_known(acts, known),
        scan_candidates(acts, known) =~= scan_candidates(acts.take(k), known),
{
    let t = acts.take(k);
    assert forall|j: int| 0 <= j < t.len() implies !known.contains((#[trigger] t[j]).id) by {
        assert(t[j] == acts[j]);
    };
    lemma_unknown_prefix_not_found(t, known);
    lemma_scan_found(acts, known, k);
}

/// A repeat run with nothing new: when every listed activity is already
/// recorded, a page scan collects no candidate at all, and a nonempty
/// page stops the pagination at its very first entry. With no candidates
/// the run registers nothing, so the ledger leaves the run as it entered
/// it, but for the closing stamp.
pub proof fn lemma_rerun_collects_nothing(acts: Seq<Activity>, known: Set<i64>)
    requires
        forall|i: int| 0 <= i < acts.len() ==> known.contains((#[trigger] acts[i]).id),
    ensures
        scan_candidates(acts, known) =~= Seq::<Activity>::empty(),
        acts.len() > 0 ==> found_known(acts, known),
{
    if acts.len() > 0 {
        assert(known.contains(acts[0].id));
    }
}

/// The identifier set of a candidate list.
pub open spec fn candidate_ids(cands: Seq<Activity>) -> Set<i64> {
    Set::new(|id: i64| exists|i: int| 0 <= i < cands.len() && (#[trigger] cands[i]).id == id)
}

/// The ledger identifier set after the enrichment loop drains a candidate
/// list front-first: one registration per step, inserting the front
/// candidate's id — exactly what `enrich_with` and `register_existing`
/// each ensure of one step.
pub open spec fn ids_after_registration(before: Set<i64>, cands: Seq<Activity>) -> Set<i64>
    decreases cands.len(),
{
    if cands.len() == 0 {
        before
    } else {
        ids_after_registration(before.insert(cands[0].id), cands.drop_first())
    }
}

/// Every discovered candidate is registered: draining the candidate list
/// grows the ledger's identifiers by exactly the candidates' ids. With
/// the page cap reached and no known id met, the candidates are every
/// target-typed activity of the fetched pages, so all of them end in the
/// saved ledger.
pub proof fn lemma_enrichment_registers_all(before: Set<i64>, cands: Seq<Activity>)
    ensures
        ids_after_registration(before, cands) =~= before.union(candidate_ids(cands)),
    decreases cands.len(),
{
    if cands.len() == 0 {
        assert(candidate_ids(cands) =~= Set::<i64>::empty());
    } else {
        let d = cands.drop_first();
        lemma_enrichment_registers_all(before.insert(cands[0].id), d);
        assert forall|x: i64| candidate_ids(cands).contains(x) implies candidate_ids(d).insert(
            cands[0].id,
        ).contains(x) by {
            let i = choose|i: int| 0 <= i < cands.len() && (#[trigger] cands[i]).id == x;
            if i > 0 {
                assert(d[i - 1] == cands[i]);
                assert(candidate_ids(d).contains(x));
            }
        };
        assert forall|x: i64| candidate_ids(d).insert(cands[0].id).contains(
            x,
        ) implies candidate_ids(cands).contains(x) by {
            if x == cands[0].id {
                assert(cands[0].id == x);
                assert(candidate_ids(cands).contains(x));
            } else {
                let i = choose|i: int| 0 <= i < d.len() && (#[trigger] d[i]).id == x;
                assert(cands[i + 1] == d[i]);
                assert(candidate_ids(cands).contains(x));
            }
        };
        assert(candidate_ids(cands) =~= candidate_ids(d).insert(cands[0].id));
        assert(before.insert(cands[0].id).union(candidate_ids(d)) =~= before.union(
            candidate_ids(cands),
        ));
    }
}

/// Completeness of the scan: an activity standing at a position the scan
/// reaches — no known id at or before it — and matching the target
/// filter is collected as a candidate.
pub proof fn lemma_scanned_is_candidate(acts: Seq<Activity>, known: Set<i64>, i: int)
    requires
        0 <= i < acts.len(),
        forall|j: int| 0 <= j <= i ==> !known.contains((#[trigger] acts[j]).id),
        spec_is_virtual_ride(acts[i]),
    ensures
        scan_candidates(acts, known).contains(acts[i]),
    decreases i,
{
    assert(!known.contains(acts[0].id));
    let d = acts.drop_first();
    if i == 0 {
        assert(scan_candidates(acts, known)[0] == acts[0]);
    } else {
        assert forall|j: int| 0 <= j <= i - 1 implies !known.contains((#[trigger] d[j]).id) by {
            assert(d[j] == acts[j + 1]);
        };
        assert(d[i - 1] == acts[i]);
        lemma_scanned_is_candidate(d, known, i - 1);
        let sd = scan_candidates(d, known);
        let w = choose|w: int| 0 <= w < sd.len() && sd[w] == acts[i];
        if spec_is_virtual_ride(acts[0]) {
            assert(scan_candidates(acts, known)[w + 1] == acts[i]);
        } else {
            assert(scan_candidates(acts, known)[w] == acts[i]);
        }
    }
}

/// Soundness of the scan: every collected candidate matches the target
/// filter, is not already known, and stands in the page before any
/// already-known id.
pub proof fn lemma_candidate_was_scanned(acts: Seq<Activity>, known: Set<i64>, a: Activity)
    requires
        scan_candidates(acts, known).contains(a),
    ensures
        spec_is_virtual_ride(a),
        !known.contains(a.id),
        exists|i: int|
            0 <= i < acts.len() && acts[i] == a && (forall|j: int|
                0 <= j < i ==> !known.contains((#[trigger] acts[j]).id)),
    decreases acts.len(),
{
    assert(acts.len() > 0);
    assert(!known.contains(acts[0].id));
    let d = acts.drop_first();
    if spec_is_virtual_ride(acts[0]) && a == acts[0] {
        assert(0 <= 0 < acts.len() && acts[0] == a && (forall|j: int|
            0 <= j < 0 ==> !known.contains((#[trigger] acts[j]).id)));
    } else {
        if spec_is_virtual_ride(acts[0]) {
            let sa = scan_candidates(acts, known);
            let w = choose|w: int| 0 <= w < sa.len() && sa[w] == a;
            assert(w > 0);
            assert(scan_candidates(d, known)[w - 1] == a);
            assert(scan_candidates(d, known).contains(a));
        } else {
            assert(scan_candidates(d, known) == scan_candidates(acts, known));
        }
        lemma_candidate_was_scanned(d, known, a);
        let i0 = choose|i: int|
            0 <= i < d.len() && d[i] == a && (forall|j: int|
                0 <= j < i ==> !known.contains((#[trigger] d[j]).id));
        assert(acts[i0 + 1] == a);
        assert forall|j: int| 0 <= j < i0 + 1 implies !known.contains(
            (#[trigger] acts[j]).id,
        ) by {
            if j > 0 {
                assert(d[j - 1] == acts[j]);
            }
        };
        assert(0 <= i0 + 1 < acts.len() && acts[i0 + 1] == a && (forall|j: int|
            0 <= j < i0 + 1 ==> !known.contains((#[trigger] acts[j]).id)));
    }
}

/// An activity of a fetched page is collected as an enrichment candidate
/// exactly when it matches the target filter, its id is not in the known
/// set, and it stands in the page before the first already-known id.
pub proof fn lemma_candidate_membership(acts: Seq<Activity>, known: Set<i64>, a: Activity)
    ensures
        scan_candidates(acts, known).contains(a) <==> (spec_is_virtual_ride(a)
            && !known.contains(a.id) && exists|i: int|
            0 <= i < acts.len() && acts[i] == a && (forall|j: int|
                0 <= j < i ==> !known.contains((#[trigger] acts[j]).id))),
{
    if scan_candidates(acts, known).contains(a) {
        lemma_candidate_was_scanned(acts, known, a);
    }
    if spec_is_virtual_ride(a) && !known.contains(a.id) && (exists|i: int|
        0 <= i < acts.len() && acts[i] == a && (forall|j: int|
            0 <= j < i ==> !known.contains((#[trigger] acts[j]).id))) {
        let i = choose|i: int|
            0 <= i < acts.len() && acts[i] == a && (forall|j: int|
                0 <= j < i ==> !known.contains((#[trigger] acts[j]).id));
        assert forall|j: int| 0 <= j <= i implies !known.contains((#[trigger] acts[j]).id) by {
            if j == i {
                assert(acts[i] == a);
            }
        };
        lemma_scanned_is_candidate(acts, known, i);
    }
}

/// Scan one page against the known ids: move its new target-typed
/// activities onto the candidate list until an already-known id stops the
/// scan. Answers whether one did.
#[verifier::loop_isolation(false)]
fn scan_page(
    acts: Vec<Activity>,
    known: &HashSetWithView<i64>,
    candidates: &mut Vec<Activity>,
) -> (found: bool)
    ensures
        final(candidates)@ =~= old(candidates)@ + scan_candidates(acts@, known@),
        found == found_known(acts@, known@),
{
    let mut acts = acts;
    let ghost orig = acts@;
    let ghost knownv = known@;
    let ghost mut k: int = 0;
    proof {
        assert(orig.take(0) =~= Seq::<Activity>::empty());
        assert(candidates@ =~= old(candidates)@ + scan_candidates(orig.take(0), knownv));
        assert(acts@ =~= orig.skip(0));
    }
    loop
        invariant
            0 <= k <= orig.len(),
            acts@ =~= orig.skip(k),
            knownv == known@,
            !found_known(orig.take(k), knownv),
            candidates@ =~= old(candidates)@ + scan_candidates(orig.take(k), knownv),
        decreases orig.len() - k,
    {
        if acts.len() == 0 {
            proof {
                assert(orig.take(k) =~= orig);
            }
            return false;
        }
        let a = acts.remove(0);
        proof {
            assert(orig.skip(k)[0] == orig[k]);
            assert(a == orig[k]);
            assert(acts@ =~= orig.skip(k + 1));
        }
        if known.contains(&a.id) {
            proof {
                lemma_scan_found(orig, knownv, k);
            }
            return true;
        }
        let ghost old_candidates_view = candidates@;
        let is_target = is_virtual_ride(&a);
        if is_target {
            candidates.push(a);
        }
        proof {
            lemma_scan_extend(orig, knownv, k);
            if is_target {
                assert(candidates@ =~= old_candidates_view.push(orig[k]));
            }
            k = k + 1;
        }
    }
}

/// One incremental sync run: the ledger being grown, the ids known at the
/// start of the run, the pagination position, and the candidates found so
/// far, in discovery order.
pub struct SyncSession {
    pub index: ActivityIndex,
    pub known: HashSetWithView<i64>,
    pub candidates: Vec<Activity>,
    pub next_page: u32,
    pub phase: Phase,
    pub total_fetched: u64,
    pub config: SyncConfig,
}

impl SyncSession {
    /// Well-formedness: a sorted ledger, sane limits, and a page counter
    /// inside the cap while pagination runs.
    pub open spec fn wf(&self) -> bool {
        &&& self.index.wf()
        &&& self.config.wf()
        &&& 1 <= self.next_page
        &&& (self.phase == Phase::Paginating ==> self.next_page <= self.config.max_pages)
    }

    /// Begin a run: snapshot the known ids from the loaded ledger and
    /// stand ready to fetch page one.
    pub fn start(index: ActivityIndex, config: SyncConfig) -> (s: SyncSession)
        requires
            index.wf(),
            config.wf(),
        ensures
            s.wf(),
            s.index == index,
            s.known@ =~= index.ids(),
            s.candidates@ =~= Seq::<Activity>::empty(),
            s.next_page == 1,
            s.phase == Phase::Paginating,
            s.total_fetched == 0,
            s.config == config,
    {
        let known = index.get_known_ids();
        SyncSession {
            index,
            known,
            candidates: Vec::new(),
            next_page: 1,
            phase: Phase::Paginating,
            total_fetched: 0,
            config,
        }
    }

    /// While paginating, the next page to fetch; after any stop, nothing:
    /// once the scan has halted, no further page is ever requested in
    /// this run.
    pub fn wants_page(&self) -> (r: Option<u32>)
        ensures
            r == if self.phase == Phase::Paginating {
                Some(self.next_page)
            } else {
                None::<u32>
            },
    {
        if self.phase == Phase::Paginating {
            Some(self.next_page)
        } else {
            None
        }
    }

    /// Consume one fetched page. An empty page ends the run; otherwise
    /// the page is scanned newest-first, collecting new target-typed
    /// activities as candidates until an already-known id stops the scan,
    /// and pagination continues only below the page cap. The ledger and
    /// the known-id snapshot are untouched.
    pub fn on_page(&mut self, acts: Vec<Activity>)
        requires
            old(self).wf(),
            old(self).phase == Phase::Paginating,
        ensures
            final(self).wf(),
            final(self).index == old(self).index,
            final(self).known == old(self).known,
            final(self).config == old(self).config,
            final(self).candidates@ =~= old(self).candidates@ + scan_candidates(
                acts@,
                old(self).known@,
            ),
            acts@.len() == 0 ==> final(self).phase == Phase::EmptyPage && final(self).total_fetched
                == old(self).total_fetched && final(self).next_page == old(self).next_page,
            acts@.len() > 0 ==> final(self).total_fetched == sat_add_u64(
                old(self).total_fetched as int,
                acts@.len() as int,
            ),
            acts@.len() > 0 && found_known(acts@, old(self).known@) ==> final(self).phase
                == Phase::FoundExisting && final(self).next_page == old(self).next_page,
            acts@.len() > 0 && !found_known(acts@, old(self).known@) ==> final(self).next_page
                == old(self).next_page + 1 && final(self).phase == (
            if old(self).next_page + 1 > old(self).config.max_pages {
                Phase::PageLimitReached
            } else {
                Phase::Paginating
            }),
    {
        if acts.len() == 0 {
            self.phase = Phase::EmptyPage;
            proof {
                assert(scan_candidates(acts@, self.known@) =~= Seq::<Activity>::empty());
                assert(self.candidates@ =~= self.candidates@ + scan_candidates(
                    acts@,
                    self.known@,
                ));
            }
            return ;
        }
        let n: u64 = acts.len() as u64;
        if self.total_fetched <= u64::MAX - n {
            self.total_fetched = self.total_fetched + n;
        } else {
            self.total_fetched = u64::MAX;
        }
        let found = scan_page(acts, &self.known, &mut self.candidates);
        if found {
            self.phase = Phase::FoundExisting;
        } else {
            self.next_page = self.next_page + 1;
            if self.next_page > self.config.max_pages {
                self.phase = Phase::PageLimitReached;
            }
        }
    }

    /// How many discovered candidates still await enrichment.
    pub fn pending_candidates(&self) -> (n: usize)
        ensures
            n == self.candidates@.len(),
    {
        self.candidates.len()
    }

    /// The identifier of the next candidate to enrich.
    pub fn peek_candidate_id(&self) -> (id: i64)
        requires
            self.candidates@.len() > 0,
        ensures
            id == self.candidates@[0].id,
    {
        self.candidates[0].id
    }

    /// Whether the next candidate needs its streams fetched: it does
    /// unless a detail record for it already sits on disk from an earlier
    /// partial run (the answer depends on the disk).
    pub fn candidate_needs_fetch(&self) -> bool
        requires
            self.candidates@.len() > 0,
    {
        !crate::storage::activity_file_exists(self.candidates[0].id)
    }

    /// Register the next candidate in the ledger without a new record:
    /// its detail file already exists, so the run only repairs an index
    /// that fell behind the file store.
    pub fn register_existing(&mut self)
        requires
            old(self).wf(),
            old(self).candidates@.len() > 0,
        ensures
            final(self).wf(),
            final(self).candidates@ =~= old(self).candidates@.drop_first(),
            final(self).index.activities@.len() == old(self).index.activities@.len() + 1,
            exists|p: int, s: crate::index::ActivitySummary|
                0 <= p <= old(self).index.activities@.len() && final(self).index.activities@ == (
                #[trigger] old(self).index.activities@.insert(p, s)) && summary_matches(
                    s,
                    old(self).candidates@[0],
                ),
            final(self).index.ids() =~= old(self).index.ids().insert(old(self).candidates@[0].id),
            final(self).index.last_updated == old(self).index.last_updated,
            final(self).known == old(self).known,
            final(self).config == old(self).config,
            final(self).phase == old(self).phase,
            final(self).next_page == old(self).next_page,
            final(self).total_fetched == old(self).total_fetched,
    {
        let a = self.candidates.remove(0);
        proof {
            assert(self.candidates@ =~= old(self).candidates@.drop_first());
        }
        self.index.add_activity(&a);
    }

    /// Enrich the next candidate with its fetch outcome: the candidate is
    /// registered in the ledger whatever happened, and the record handed
    /// back for persisting carries the fetched streams on success and
    /// none on failure — a streams failure costs the streams, never the
    /// activity.
    pub fn enrich_with(&mut self, outcome: StreamsOutcome) -> (rec: ActivityWithStreams)
        requires
            old(self).wf(),
            old(self).candidates@.len() > 0,
        ensures
            final(self).wf(),
            final(self).candidates@ =~= old(self).candidates@.drop_first(),
            final(self).index.activities@.len() == old(self).index.activities@.len() + 1,
            exists|p: int, s: crate::index::ActivitySummary|
                0 <= p <= old(self).index.activities@.len() && final(self).index.activities@ == (
                #[trigger] old(self).index.activities@.insert(p, s)) && summary_matches(
                    s,
                    old(self).candidates@[0],
                ),
            final(self).index.ids() =~= old(self).index.ids().insert(old(self).candidates@[0].id),
            final(self).index.ids().contains(old(self).candidates@[0].id),
            final(self).index.last_updated == old(self).index.last_updated,
            rec.activity == old(self).candidates@[0],
            rec.streams == spec_outcome_streams(outcome),
            outcome is Failed ==> rec.streams is None,
            final(self).known == old(self).known,
            final(self).config == old(self).config,
            final(self).phase == old(self).phase,
            final(self).next_page == old(self).next_page,
            final(self).total_fetched == old(self).total_fetched,
    {
        let a = self.candidates.remove(0);
        proof {
            assert(self.candidates@ =~= old(self).candidates@.drop_first());
        }
        self.index.add_activity(&a);
        let streams = match outcome {
            StreamsOutcome::Fetched(s) => Some(s),
            StreamsOutcome::Failed => None,
        };
        ActivityWithStreams { activity: a, streams }
    }

    /// Close the run: stamp the ledger with the current time and hand it
    /// back for saving. Nothing but the stamp changes.
    pub fn finish(self) -> (ix: ActivityIndex)
        requires
            self.wf(),
        ensures
            ix.wf(),
            ix.activities == self.index.activities,
    {
        let mut ix = self.index;
        ix.stamp_now();
        ix
    }
}

} // verus!
