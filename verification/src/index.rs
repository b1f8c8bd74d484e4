use vstd::prelude::*;

verus! {

use vstd::hash_set::HashSetWithView;
use crate::activity::Activity;
use crate::order::lex_leq;
use crate::order::str_leq;
use crate::order::lemma_lex_refl;
use crate::order::lemma_lex_total;
use crate::order::lemma_lex_trans;

broadcast use
    vstd::std_specs::hash::axiom_i64_obeys_hash_table_key_model,
    vstd::seq_lib::group_to_multiset_ensures,
    vstd::multiset::group_multiset_axioms,
;

/// A lightweight projection of an activity: what the index ledger stores
/// per synced activity.
pub struct ActivitySummary {
    pub id: i64,
    pub name: String,
    pub start_date: String,
    pub distance: String,
    pub moving_time: i32,
    pub average_watts: Option<String>,
    pub average_heartrate: Option<String>,
}

/// The relation between a summary and the activity it projects.
pub open spec fn summary_matches(s: ActivitySummary, a: Activity) -> bool {
    &&& s.id == a.id
    &&& s.name@ == a.name@
    &&& s.start_date@ == a.start_date@
    &&& s.distance@ == a.distance@
    &&& s.moving_time == a.moving_time
    &&& s.average_watts.deep_view() == a.average_watts.deep_view()
    &&& s.average_heartrate.deep_view() == a.average_heartrate.deep_view()
}

/// Non-increasing order by start-date string: newest first. ISO-8601 dates
/// make the lexicographic order chronological.
pub open spec fn sorted_desc(s: Seq<ActivitySummary>) -> bool {
    forall|i: int, j: int|
        #![trigger s[i], s[j]]
        0 <= i <= j < s.len() ==> lex_leq(s[j].start_date@, s[i].start_date@)
}

/// The set of identifiers recorded in a summary sequence.
pub open spec fn id_set(s: Seq<ActivitySummary>) -> Set<i64> {
    Set::new(|id: i64| exists|i: int| 0 <= i < s.len() && (#[trigger] s[i]).id == id)
}

/// Extending a sequence by one summary extends its identifier set by that
/// summary's identifier.
pub proof fn lemma_id_set_push(s: Seq<ActivitySummary>, k: int)
    requires
        0 <= k < s.len(),
    ensures
        id_set(s.take(k + 1)) =~= id_set(s.take(k)).insert(s[k].id),
{
    let t1 = s.take(k + 1);
    let t0 = s.take(k);
    assert forall|x: i64| id_set(t1).contains(x) implies id_set(t0).insert(s[k].id).contains(
        x,
    ) by {
        let i = choose|i: int| 0 <= i < t1.len() && (#[trigger] t1[i]).id == x;
        if i < k {
            assert(t0[i] == s[i]);
            assert(id_set(t0).contains(x));
        } else {
            assert(t1[i] == s[k]);
        }
    };
    assert forall|x: i64| id_set(t0).insert(s[k].id).contains(x) implies id_set(t1).contains(
        x,
    ) by {
        if x == s[k].id {
            assert(t1[k] == s[k]);
            assert(id_set(t1).contains(x));
        } else {
            let i = choose|i: int| 0 <= i < t0.len() && (#[trigger] t0[i]).id == x;
            assert(t1[i] == s[i]);
            assert(id_set(t1).contains(x));
        }
    };
}

/// Inserting a summary anywhere in a sequence inserts its identifier into
/// the identifier set.
pub proof fn lemma_id_set_insert(s: Seq<ActivitySummary>, p: int, x: ActivitySummary)
    requires
        0 <= p <= s.len(),
    ensures
        id_set(s.insert(p, x)) =~= id_set(s).insert(x.id),
{
    let n = s.insert(p, x);
    assert forall|y: i64| id_set(n).contains(y) implies id_set(s).insert(x.id).contains(y) by {
        let i = choose|i: int| 0 <= i < n.len() && (#[trigger] n[i]).id == y;
        if i < p {
            assert(n[i] == s[i]);
            assert(id_set(s).contains(y) || y == x.id);
        } else if i == p {
            assert(n[i] == x);
        } else {
            assert(n[i] == s[i - 1]);
            assert(id_set(s).contains(y));
        }
    };
    assert forall|y: i64| id_set(s).insert(x.id).contains(y) implies id_set(n).contains(y) by {
        if y == x.id {
            assert(n[p] == x);
            assert(id_set(n).contains(y));
        } else {
            let i = choose|i: int| 0 <= i < s.len() && (#[trigger] s[i]).id == y;
            if i < p {
                assert(n[i] == s[i]);
            } else {
                assert(n[i + 1] == s[i]);
            }
            assert(id_set(n).contains(y));
        }
    };
}

proof fn lemma_chain(s: Seq<ActivitySummary>, i: int, j: int)
    requires
        forall|k: int| 0 <= k < s.len() - 1 ==> lex_leq(
            (#[trigger] s[k + 1]).start_date@,
            s[k].start_date@,
        ),
        0 <= i <= j < s.len(),
    ensures
        lex_leq(s[j].start_date@, s[i].start_date@),
    decreases j - i,
{
    if i == j {
        lemma_lex_refl(s[i].start_date@);
    } else {
        lemma_chain(s, i, j - 1);
        let k = j - 1;
        assert(lex_leq(s[k + 1].start_date@, s[k].start_date@));
        assert(lex_leq(s[j].start_date@, s[j - 1].start_date@));
        lemma_lex_trans(s[j].start_date@, s[j - 1].start_date@, s[i].start_date@);
    }
}

/// Inserting an element into a sequence inserts it into the sequence's
/// multiset.
proof fn lemma_to_multiset_insert(s: Seq<ActivitySummary>, p: int, x: ActivitySummary)
    requires
        0 <= p <= s.len(),
    ensures
        s.insert(p, x).to_multiset() =~= s.to_multiset().insert(x),
{
    let t = s.insert(p, x);
    assert(t.remove(p) =~= s);
    assert(t[p] == x);
    assert(t.remove(p).to_multiset() =~= t.to_multiset().remove(x));
    assert(t.contains(x));
    assert(t.to_multiset().count(x) > 0);
    assert forall|y: ActivitySummary| #[trigger] t.to_multiset().count(y) == s.to_multiset().insert(
        x,
    ).count(y) by {
        assert(s.to_multiset().count(y) == t.to_multiset().remove(x).count(y));
    };
    assert(t.to_multiset() =~= s.to_multiset().insert(x));
}

/// A sequence whose adjacent pairs are ordered is sorted throughout.
proof fn lemma_adjacent_sorted(s: Seq<ActivitySummary>)
    requires
        forall|k: int| 0 <= k < s.len() - 1 ==> lex_leq(
            (#[trigger] s[k + 1]).start_date@,
            s[k].start_date@,
        ),
    ensures
        sorted_desc(s),
{
    assert forall|i: int, j: int| 0 <= i <= j < s.len() implies lex_leq(
        (#[trigger] s[j]).start_date@,
        (#[trigger] s[i]).start_date@,
    ) by {
        lemma_chain(s, i, j);
    };
}

/// The synchronization ledger: a last-updated stamp plus activity
/// summaries, ordered newest-first by start date. The ids it records are
/// exactly the activities whose detail record has been persisted (or
/// attempted).
pub struct ActivityIndex {
    pub last_updated: String,
    pub activities: Vec<ActivitySummary>,
}

/// Clone an optional string, preserving its contents.
fn clone_opt_string(o: &Option<String>) -> (r: Option<String>)
    ensures
        r.deep_view() == o.deep_view(),
{
    match o {
        Some(s) => Some(s.clone()),
        None => None,
    }
}

/// Relies on chrono: `Utc::now()` rendered by `DateTime::to_rfc3339`, the
/// current wall clock as an RFC 3339 timestamp. The value depends on the
/// clock, so nothing is stated of it.
#[verifier::external_body]
fn now_rfc3339() -> String {
    chrono::Utc::now().to_rfc3339()
}

impl ActivityIndex {
    /// Well-formedness: the ledger is sorted newest-first.
    pub open spec fn wf(&self) -> bool {
        sorted_desc(self.activities@)
    }

    /// The identifier set the ledger records.
    pub open spec fn ids(&self) -> Set<i64> {
        id_set(self.activities@)
    }

    /// The empty ledger: empty stamp, no activities. What a first run
    /// starts from, and the recovery value when no stored state can be
    /// read.
    pub fn new() -> (ix: ActivityIndex)
        ensures
            ix.wf(),
            ix.activities@.len() == 0,
            ix.last_updated@ =~= Seq::<char>::empty(),
    {
        ActivityIndex { last_updated: String::new(), activities: Vec::new() }
    }

    /// Rebuild a ledger from stored parts, accepting them only when they
    /// satisfy the ordering invariant.
    pub fn from_parts(last_updated: String, activities: Vec<ActivitySummary>) -> (r: Option<
        ActivityIndex,
    >)
        ensures
            r is Some <==> sorted_desc(activities@),
            match r {
                Some(ix) => ix.last_updated == last_updated && ix.activities == activities
                    && ix.wf(),
                None => true,
            },
    {
        let n = activities.len();
        if n > 0 {
            let mut k: usize = 0;
            while k < n - 1
                invariant
                    n == activities@.len(),
                    0 < n,
                    k <= n - 1,
                    forall|t: int| 0 <= t < k ==> lex_leq(
                        (#[trigger] activities@[t + 1]).start_date@,
                        activities@[t].start_date@,
                    ),
                decreases n - k,
            {
                if !str_leq(
                    activities[k + 1].start_date.as_str(),
                    activities[k].start_date.as_str(),
                ) {
                    proof {
                        assert(!lex_leq(
                            activities@[k + 1].start_date@,
                            activities@[k as int].start_date@,
                        ));
                    }
                    return None;
                }
                k = k + 1;
            }
        }
        proof {
            lemma_adjacent_sorted(activities@);
        }
        Some(ActivityIndex { last_updated, activities })
    }

    /// Project an activity to the summary the ledger stores for it.
    pub fn summary_of(a: &Activity) -> (s: ActivitySummary)
        ensures
            summary_matches(s, *a),
    {
        ActivitySummary {
            id: a.id,
            name: a.name.clone(),
            start_date: a.start_date.clone(),
            distance: a.distance.clone(),
            moving_time: a.moving_time,
            average_watts: clone_opt_string(&a.average_watts),
            average_heartrate: clone_opt_string(&a.average_heartrate),
        }
    }

    /// The set of all recorded identifiers, for membership tests during
    /// pagination.
    pub fn get_known_ids(&self) -> (r: HashSetWithView<i64>)
        ensures
            r@ =~= self.ids(),
    {
        let mut r = HashSetWithView::<i64>::new();
        let n = self.activities.len();
        let mut i: usize = 0;
        proof {
            assert(id_set(self.activities@.take(0)) =~= Set::<i64>::empty());
        }
        while i < n
            invariant
                n == self.activities@.len(),
                i <= n,
                r@ =~= id_set(self.activities@.take(i as int)),
            decreases n - i,
        {
            r.insert(self.activities[i].id);
            proof {
                lemma_id_set_push(self.activities@, i as int);
            }
            i = i + 1;
        }
        proof {
            assert(self.activities@.take(n as int) =~= self.activities@);
        }
        r
    }

    fn insert_position(activities: &Vec<ActivitySummary>, key: &str) -> (p: usize)
        requires
            sorted_desc(activities@),
        ensures
            p <= activities@.len(),
            forall|j: int| 0 <= j < p ==> !lex_leq((#[trigger] activities@[j]).start_date@, key@),
            p < activities@.len() ==> lex_leq(activities@[p as int].start_date@, key@),
    {
        let n = activities.len();
        let mut p: usize = 0;
        while p < n
            invariant
                n == activities@.len(),
                p <= n,
                forall|j: int| 0 <= j < p ==> !lex_leq(
                    (#[trigger] activities@[j]).start_date@,
                    key@,
                ),
            decreases n - p,
        {
            if str_leq(activities[p].start_date.as_str(), key) {
                return p;
            }
            p = p + 1;
        }
        p
    }

    /// Record one activity: project it to a summary and insert the summary
    /// at its place in the newest-first order. The summary goes to the
    /// first position whose entry does not start later — so one with the
    /// same start date as existing entries goes before them — and nothing
    /// else moves. Deduplication is not this method's concern: the
    /// orchestrator checks membership before calling it.
    pub fn add_activity(&mut self, activity: &Activity)
        requires
            old(self).wf(),
        ensures
            final(self).wf(),
            final(self).last_updated == old(self).last_updated,
            final(self).activities@.len() == old(self).activities@.len() + 1,
            exists|p: int, s: ActivitySummary|
                0 <= p <= old(self).activities@.len() && final(self).activities@ == (#[trigger] old(
                    self,
                ).activities@.insert(p, s)) && summary_matches(s, *activity) && (forall|j: int|
                    0 <= j < p ==> !lex_leq(
                        (#[trigger] old(self).activities@[j]).start_date@,
                        activity.start_date@,
                    )) && (p < old(self).activities@.len() ==> lex_leq(
                    old(self).activities@[p].start_date@,
                    activity.start_date@,
                )),
            final(self).ids() =~= old(self).ids().insert(activity.id),
    {
        let s = Self::summary_of(activity);
        let p = Self::insert_position(&self.activities, s.start_date.as_str());
        let ghost o = self.activities@;
        let ghost pg = p as int;
        self.activities.insert(p, s);
        proof {
            let n = self.activities@;
            assert(n == o.insert(pg, s));
            assert forall|i: int, j: int| 0 <= i <= j < n.len() implies lex_leq(
                (#[trigger] n[j]).start_date@,
                (#[trigger] n[i]).start_date@,
            ) by {
                if j < pg {
                    assert(n[i] == o[i] && n[j] == o[j]);
                } else if i > pg {
                    assert(n[i] == o[i - 1] && n[j] == o[j - 1]);
                } else if i == pg && j == pg {
                    lemma_lex_refl(s.start_date@);
                } else if i < pg && j == pg {
                    assert(n[i] == o[i]);
                    assert(!lex_leq(o[i].start_date@, s.start_date@));
                    lemma_lex_total(o[i].start_date@, s.start_date@);
                } else if i == pg && j > pg {
                    assert(n[j] == o[j - 1]);
                    assert(pg <= j - 1 < o.len());
                    assert(lex_leq(o[j - 1].start_date@, o[pg].start_date@));
                    assert(lex_leq(o[pg].start_date@, s.start_date@));
                    lemma_lex_trans(o[j - 1].start_date@, o[pg].start_date@, s.start_date@);
                } else {
                    assert(i < pg && j > pg);
                    assert(n[i] == o[i] && n[j] == o[j - 1]);
                    assert(lex_leq(o[j - 1].start_date@, o[i].start_date@));
                }
            };
            lemma_id_set_insert(o, pg, s);
        }
    }

    /// Set the ledger's last-updated field to the given stamp, leaving
    /// the recorded activities untouched. The finalize step draws the
    /// stamp from the clock and applies it through this method.
    pub fn set_stamp(&mut self, stamp: String)
        ensures
            final(self).last_updated == stamp,
            final(self).activities == old(self).activities,
            final(self).wf() == old(self).wf(),
    {
        self.last_updated = stamp;
    }

    fn insert_position_after_ties(activities: &Vec<ActivitySummary>, key: &str) -> (p: usize)
        requires
            sorted_desc(activities@),
        ensures
            p <= activities@.len(),
            forall|j: int| 0 <= j < p ==> lex_leq(key@, (#[trigger] activities@[j]).start_date@),
            p < activities@.len() ==> !lex_leq(key@, activities@[p as int].start_date@),
    {
        let n = activities.len();
        let mut p: usize = 0;
        while p < n
            invariant
                n == activities@.len(),
                p <= n,
                forall|j: int| 0 <= j < p ==> lex_leq(
                    key@,
                    (#[trigger] activities@[j]).start_date@,
                ),
            decreases n - p,
        {
            if !str_leq(key, activities[p].start_date.as_str()) {
                return p;
            }
            p = p + 1;
        }
        p
    }

    /// Insert one summary at its place in the newest-first order, after
    /// any entries with the same start date, so that re-inserting an
    /// already-ordered run of summaries keeps their order. The ledger's
    /// contents grow by exactly this summary.
    fn insert_summary_stable(&mut self, s: ActivitySummary)
        requires
            old(self).wf(),
        ensures
            final(self).wf(),
            final(self).last_updated == old(self).last_updated,
            final(self).activities@.to_multiset() =~= old(
                self,
            ).activities@.to_multiset().insert(s),
    {
        let p = Self::insert_position_after_ties(&self.activities, s.start_date.as_str());
        let ghost o = self.activities@;
        let ghost pg = p as int;
        self.activities.insert(p, s);
        proof {
            let n = self.activities@;
            assert(n == o.insert(pg, s));
            assert forall|i: int, j: int| 0 <= i <= j < n.len() implies lex_leq(
                (#[trigger] n[j]).start_date@,
                (#[trigger] n[i]).start_date@,
            ) by {
                if j < pg {
                    assert(n[i] == o[i] && n[j] == o[j]);
                } else if i > pg {
                    assert(n[i] == o[i - 1] && n[j] == o[j - 1]);
                } else if i == pg && j == pg {
                    lemma_lex_refl(s.start_date@);
                } else if i < pg && j == pg {
                    assert(n[i] == o[i]);
                    assert(lex_leq(s.start_date@, o[i].start_date@));
                } else if i == pg && j > pg {
                    assert(n[j] == o[j - 1]);
                    assert(pg <= j - 1 < o.len());
                    assert(!lex_leq(s.start_date@, o[pg].start_date@));
                    lemma_lex_total(s.start_date@, o[pg].start_date@);
                    assert(lex_leq(o[j - 1].start_date@, o[pg].start_date@));
                    lemma_lex_trans(o[j - 1].start_date@, o[pg].start_date@, s.start_date@);
                } else {
                    assert(i < pg && j > pg);
                    assert(n[i] == o[i] && n[j] == o[j - 1]);
                    assert(lex_leq(o[j - 1].start_date@, o[i].start_date@));
                }
            };
            lemma_to_multiset_insert(o, pg, s);
        }
    }

    /// Rebuild a ledger from stored summaries, restoring the newest-first
    /// order where the stored order is off rather than dropping the data:
    /// each summary is inserted at its sorted place, after any entries
    /// with an equal start date, so an already-ordered store passes
    /// through unchanged. The result holds exactly the given summaries.
    #[verifier::loop_isolation(false)]
    pub fn from_summaries(last_updated: String, summaries: Vec<ActivitySummary>) -> (ix:
        ActivityIndex)
        ensures
            ix.wf(),
            ix.last_updated == last_updated,
            ix.activities@.to_multiset() =~= summaries@.to_multiset(),
    {
        let mut ix = ActivityIndex { last_updated, activities: Vec::new() };
        let mut rest = summaries;
        let ghost orig = rest@;
        proof {
            assert forall|y: ActivitySummary| #[trigger] ix.activities@.to_multiset().count(y)
                == 0 by {
                if ix.activities@.to_multiset().count(y) > 0 {
                    assert(ix.activities@.contains(y));
                }
            };
            assert(ix.activities@.to_multiset().add(rest@.to_multiset()) =~= orig.to_multiset());
        }
        while rest.len() > 0
            invariant
                ix.wf(),
                ix.last_updated == last_updated,
                orig.to_multiset() =~= ix.activities@.to_multiset().add(rest@.to_multiset()),
            decreases rest@.len(),
        {
            let ghost prev_rest = rest@;
            let ghost prev_acts = ix.activities@;
            let s = rest.remove(0);
            let ghost sg = s;
            ix.insert_summary_stable(s);
            proof {
                assert(prev_rest.remove(0).to_multiset() =~= prev_rest.to_multiset().remove(sg));
                assert(prev_rest.contains(sg));
                assert(prev_rest.to_multiset().count(sg) > 0);
                assert forall|y: ActivitySummary| #[trigger] orig.to_multiset().count(y)
                    == ix.activities@.to_multiset().add(rest@.to_multiset()).count(y) by {
                    assert(orig.to_multiset().count(y) == prev_acts.to_multiset().add(
                        prev_rest.to_multiset(),
                    ).count(y));
                    assert(ix.activities@.to_multiset().count(y)
                        == prev_acts.to_multiset().insert(sg).count(y));
                    assert(rest@.to_multiset().count(y) == prev_rest.to_multiset().remove(
                        sg,
                    ).count(y));
                };
                assert(orig.to_multiset() =~= ix.activities@.to_multiset().add(
                    rest@.to_multiset(),
                ));
            }
        }
        proof {
            assert forall|y: ActivitySummary| #[trigger] rest@.to_multiset().count(y) == 0 by {
                if rest@.to_multiset().count(y) > 0 {
                    assert(rest@.contains(y));
                }
            };
            assert(ix.activities@.to_multiset() =~= orig.to_multiset());
        }
        ix
    }

    /// Stamp the ledger's last-updated field with the current time: the
    /// clock is read once and the drawn value applied via `set_stamp`,
    /// whose contract ties the field to it. The recorded activities are
    /// untouched.
    pub fn stamp_now(&mut self)
        ensures
            final(self).activities == old(self).activities,
            final(self).wf() == old(self).wf(),
    {
        let stamp = now_rfc3339();
        self.set_stamp(stamp);
    }
}

} // verus!
