//! The wallpaper rotation: every image of the pool is shown once, in a
//! random order, before any is shown again.

use vstd::prelude::*;
use rand::rngs::{OsRng, SmallRng};
use rand::seq::SliceRandom;
use rand::SeedableRng;
use crate::sources::{candidates_view, dedup_first, ids_of, lemma_dedup_first, CandidateView, ImageCandidate};
use crate::state::PersistedState;
use crate::text::{contains_text, str_eq};

verus! {

#[verifier::external_type_specification]
#[verifier::external_body]
pub struct ExSmallRng(SmallRng);

/// A generator seeded from the operating system's randomness by
/// `SmallRng::from_rng(OsRng)`, or `None` when the system offers none
/// (`OsRng` then reports an error rather than panicking).
#[verifier::external_body]
fn fresh_rng() -> Option<SmallRng> {
    SmallRng::from_rng(OsRng).ok()
}

/// A generator seeded with `seed` by `SmallRng::seed_from_u64`.
#[verifier::external_body]
fn seeded_rng(seed: u64) -> SmallRng {
    SmallRng::seed_from_u64(seed)
}

/// Puts `ids` in a random order with `SliceRandom::shuffle`, which swaps
/// elements and so keeps every id, as often as it occurred.
#[verifier::external_body]
fn shuffle_ids(ids: &mut Vec<String>, rng: &mut SmallRng)
    ensures
        final(ids).deep_view().to_multiset() == old(ids).deep_view().to_multiset(),
{
    ids.shuffle(rng);
}

/// The last candidate with id `id` in `s`.
pub open spec fn last_with_id(s: Seq<CandidateView>, id: Seq<char>) -> Option<CandidateView>
    decreases s.len(),
{
    if s.len() == 0 {
        None
    } else if s.last().id == id {
        Some(s.last())
    } else {
        last_with_id(s.drop_last(), id)
    }
}

proof fn lemma_last_with_id_absent(s: Seq<CandidateView>, id: Seq<char>)
    ensures
        (last_with_id(s, id) is None) == !ids_of(s).contains(id),
    decreases s.len(),
{
    if s.len() > 0 {
        lemma_last_with_id_absent(s.drop_last(), id);
        assert(ids_of(s.drop_last()) =~= ids_of(s).drop_last());
        if ids_of(s).contains(id) && s.last().id != id {
            let k = choose|k: int| 0 <= k < ids_of(s).len() && ids_of(s)[k] == id;
            assert(k != s.len() - 1);
            assert(ids_of(s.drop_last())[k] == id);
        }
        if ids_of(s.drop_last()).contains(id) {
            let k = choose|k: int| 0 <= k < ids_of(s.drop_last()).len() && ids_of(s.drop_last())[k]
                == id;
            assert(ids_of(s)[k] == id);
        }
        if s.last().id == id {
            assert(ids_of(s)[s.len() - 1] == id);
        }
    }
}

proof fn lemma_last_with_id_at(s: Seq<CandidateView>, k: int)
    requires
        ids_of(s).no_duplicates(),
        0 <= k < s.len(),
    ensures
        last_with_id(s, s[k].id) == Some(s[k]),
    decreases s.len(),
{
    if k < s.len() - 1 {
        assert(ids_of(s)[k] != ids_of(s)[s.len() - 1]);
        assert(ids_of(s.drop_last()) =~= ids_of(s).drop_last());
        lemma_last_with_id_at(s.drop_last(), k);
    }
}

proof fn lemma_last_with_id_update(s: Seq<CandidateView>, k: int, c: CandidateView, id: Seq<char>)
    requires
        0 <= k < s.len(),
        s[k].id == c.id,
        ids_of(s).no_duplicates(),
    ensures
        last_with_id(s.update(k, c), id) == if id == c.id {
            Some(c)
        } else {
            last_with_id(s, id)
        },
    decreases s.len(),
{
    let t = s.update(k, c);
    if k == s.len() - 1 {
        assert(t.drop_last() =~= s.drop_last());
    } else {
        assert(t.drop_last() =~= s.drop_last().update(k, c));
        assert(ids_of(s.drop_last()) =~= ids_of(s).drop_last());
        assert(ids_of(s)[k] != ids_of(s)[s.len() - 1]);
        lemma_last_with_id_update(s.drop_last(), k, c, id);
    }
}

/// The ids of `s` that also occur in `pool`, in order.
pub open spec fn keep_ids(s: Seq<Seq<char>>, pool: Seq<Seq<char>>) -> Seq<Seq<char>> {
    s.filter(|id: Seq<char>| pool.contains(id))
}

proof fn lemma_last_with_id_id(s: Seq<CandidateView>, id: Seq<char>)
    ensures
        match last_with_id(s, id) {
            Some(c) => c.id == id,
            None => true,
        },
    decreases s.len(),
{
    if s.len() > 0 {
        lemma_last_with_id_id(s.drop_last(), id);
    }
}

/// The ids of the pool that are in neither `a` nor `b`, in pool order.
pub open spec fn fresh_ids(pool: Seq<Seq<char>>, a: Seq<Seq<char>>, b: Seq<Seq<char>>) -> Seq<
    Seq<char>,
> {
    pool.filter(|id: Seq<char>| !a.contains(id) && !b.contains(id))
}

/// The model of a rotation.
pub struct RotationView {
    /// The candidates, one per id.
    pub pool: Seq<CandidateView>,
    /// The ids still to be shown in this cycle, in the order they will be.
    pub remaining: Seq<Seq<char>>,
    /// The ids shown in this cycle.
    pub shown: Seq<Seq<char>>,
}

impl RotationView {
    /// The ids of the pool.
    pub open spec fn pool_ids(self) -> Seq<Seq<char>> {
        ids_of(self.pool)
    }

    /// Every id occurs once in the pool and in the shown set, and every
    /// queued or shown id belongs to the pool.
    pub open spec fn wf(self) -> bool {
        &&& self.pool_ids().no_duplicates()
        &&& self.shown.no_duplicates()
        &&& forall|k: int| 0 <= k < self.remaining.len() ==> self.pool_ids().contains(
            #[trigger] self.remaining[k],
        )
        &&& forall|k: int| 0 <= k < self.shown.len() ==> self.pool_ids().contains(
            #[trigger] self.shown[k],
        )
    }

    /// The cycle is coherent: no id is queued twice, and none is both
    /// queued and already shown. A restored state may break this.
    pub open spec fn consistent(self) -> bool {
        &&& self.remaining.no_duplicates()
        &&& forall|k: int| 0 <= k < self.remaining.len() ==> !self.shown.contains(
            #[trigger] self.remaining[k],
        )
    }

    /// Every id of the pool is either queued or shown.
    pub open spec fn covered(self) -> bool {
        forall|id: Seq<char>| #[trigger] self.pool_ids().contains(id) ==> self.remaining.contains(id)
            || self.shown.contains(id)
    }

    /// Whether every id of the pool was shown in this cycle.
    pub open spec fn cycle_done(self) -> bool {
        self.shown.len() >= self.pool.len()
    }
}

/// The rotation of wallpapers over a pool of candidates.
pub struct RotationManager {
    pool: Vec<ImageCandidate>,
    remaining: Vec<String>,
    shown: Vec<String>,
    rng: SmallRng,
}

impl View for RotationManager {
    type V = RotationView;

    closed spec fn view(&self) -> RotationView {
        RotationView {
            pool: candidates_view(self.pool@),
            remaining: self.remaining.deep_view(),
            shown: self.shown.deep_view(),
        }
    }
}

/// The index of the candidate with id `id` in `pool`.
fn find_candidate(pool: &Vec<ImageCandidate>, id: &str) -> (r: Option<usize>)
    ensures
        match r {
            Some(k) => k < pool.len() && pool[k as int]@.id == id@,
            None => !ids_of(candidates_view(pool@)).contains(id@),
        },
{
    let mut i: usize = 0;
    while i < pool.len()
        invariant
            i <= pool.len(),
            forall|k: int| 0 <= k < i ==> pool[k]@.id != id@,
        decreases pool.len() - i,
    {
        if str_eq(pool[i].id.as_str(), id) {
            return Some(i);
        }
        i += 1;
    }
    proof {
        let ids = ids_of(candidates_view(pool@));
        if ids.contains(id@) {
            let k = choose|k: int| 0 <= k < ids.len() && ids[k] == id@;
            assert(pool[k]@.id == id@);
        }
    }
    None
}

/// The ids of `pool`, in order.
fn pool_id_list(pool: &Vec<ImageCandidate>) -> (r: Vec<String>)
    ensures
        r.deep_view() == ids_of(candidates_view(pool@)),
{
    let mut out: Vec<String> = Vec::new();
    let mut i: usize = 0;
    while i < pool.len()
        invariant
            i <= pool.len(),
            out.deep_view() == ids_of(candidates_view(pool@.subrange(0, i as int))),
        decreases pool.len() - i,
    {
        let ghost before = out.deep_view();
        out.push(pool[i].id.clone());
        assert(out.deep_view() =~= before.push(pool[i as int]@.id));
        assert(ids_of(candidates_view(pool@.subrange(0, i + 1))) =~= ids_of(
            candidates_view(pool@.subrange(0, i as int)),
        ).push(pool[i as int]@.id));
        i += 1;
    }
    assert(pool@.subrange(0, pool.len() as int) =~= pool@);
    out
}

/// The ids of `ids` found in `keep`, in order.
fn filter_in(ids: &Vec<String>, keep: &Vec<String>) -> (r: Vec<String>)
    ensures
        r.deep_view() == keep_ids(ids.deep_view(), keep.deep_view()),
{
    let mut out: Vec<String> = Vec::new();
    let mut i: usize = 0;
    while i < ids.len()
        invariant
            i <= ids.len(),
            out.deep_view() == keep_ids(ids.deep_view().subrange(0, i as int), keep.deep_view()),
        decreases ids.len() - i,
    {
        let ghost pre = ids.deep_view().subrange(0, i as int);
        assert(ids.deep_view().subrange(0, i + 1) =~= pre.push(ids[i as int]@));
        proof {
            pre.lemma_filter_push(ids[i as int]@, |id: Seq<char>| keep.deep_view().contains(id));
        }
        if contains_text(keep, ids[i].as_str()) {
            let ghost before = out.deep_view();
            out.push(ids[i].clone());
            assert(out.deep_view() =~= before.push(ids[i as int]@));
        }
        i += 1;
    }
    assert(ids.deep_view().subrange(0, ids.len() as int) =~= ids.deep_view());
    out
}

/// The ids of `pool` in neither `a` nor `b`, in order.
fn filter_fresh(pool: &Vec<String>, a: &Vec<String>, b: &Vec<String>) -> (r: Vec<String>)
    ensures
        r.deep_view() == fresh_ids(pool.deep_view(), a.deep_view(), b.deep_view()),
{
    let mut out: Vec<String> = Vec::new();
    let mut i: usize = 0;
    while i < pool.len()
        invariant
            i <= pool.len(),
            out.deep_view() == fresh_ids(
                pool.deep_view().subrange(0, i as int),
                a.deep_view(),
                b.deep_view(),
            ),
        decreases pool.len() - i,
    {
        let ghost pre = pool.deep_view().subrange(0, i as int);
        assert(pool.deep_view().subrange(0, i + 1) =~= pre.push(pool[i as int]@));
        proof {
            pre.lemma_filter_push(
                pool[i as int]@,
                |id: Seq<char>| !a.deep_view().contains(id) && !b.deep_view().contains(id),
            );
        }
        if !contains_text(a, pool[i].as_str()) && !contains_text(b, pool[i].as_str()) {
            let ghost before = out.deep_view();
            out.push(pool[i].clone());
            assert(out.deep_view() =~= before.push(pool[i as int]@));
        }
        i += 1;
    }
    assert(pool.deep_view().subrange(0, pool.len() as int) =~= pool.deep_view());
    out
}

/// The ids of `ids`, each once, first occurrences kept.
fn dedup_ids_list(ids: &Vec<String>) -> (r: Vec<String>)
    ensures
        r.deep_view() == dedup_first(ids.deep_view()),
{
    let mut out: Vec<String> = Vec::new();
    let mut i: usize = 0;
    while i < ids.len()
        invariant
            i <= ids.len(),
            out.deep_view() == dedup_first(ids.deep_view().subrange(0, i as int)),
        decreases ids.len() - i,
    {
        let ghost pre = ids.deep_view().subrange(0, i as int);
        assert(ids.deep_view().subrange(0, i + 1).drop_last() =~= pre);
        if !contains_text(&out, ids[i].as_str()) {
            let ghost before = out.deep_view();
            out.push(ids[i].clone());
            assert(out.deep_view() =~= before.push(ids[i as int]@));
        }
        i += 1;
    }
    assert(ids.deep_view().subrange(0, ids.len() as int) =~= ids.deep_view());
    out
}

/// A filter of a sequence without duplicates has none.
proof fn lemma_filter_no_dup(s: Seq<Seq<char>>, f: spec_fn(Seq<char>) -> bool)
    requires
        s.no_duplicates(),
    ensures
        s.filter(f).no_duplicates(),
        forall|x: Seq<char>| #[trigger] s.filter(f).contains(x) <==> s.contains(x) && f(x),
    decreases s.len(),
{
    broadcast use vstd::seq_lib::group_filter_ensures;

    if s.len() > 0 {
        let p = s.drop_last();
        assert(p.no_duplicates());
        lemma_filter_no_dup(p, f);
        assert(s =~= p.push(s.last()));
        p.lemma_filter_push(s.last(), f);
        if !p.contains(s.last()) {
        } else {
            let k = choose|k: int| 0 <= k < p.len() && p[k] == s.last();
            assert(s[k] == s[s.len() - 1]);
        }
        if f(s.last()) {
            let q = p.filter(f);
            assert(!q.contains(s.last()));
            let t = q.push(s.last());
            assert forall|i: int, j: int| 0 <= i < t.len() && 0 <= j < t.len() && i != j implies t[i]
                != t[j] by {
                if i == q.len() {
                    assert(q.contains(t[j]));
                } else if j == q.len() {
                    assert(q.contains(t[i]));
                }
            }
        }
        assert forall|x: Seq<char>| #[trigger] s.filter(f).contains(x) <==> s.contains(x) && f(x) by {
            if s.contains(x) && x != s.last() {
                let k = choose|k: int| 0 <= k < s.len() && s[k] == x;
                assert(p[k] == x);
            }
            if p.contains(x) {
                let k = choose|k: int| 0 <= k < p.len() && p[k] == x;
                assert(s[k] == x);
            }
            assert(s[s.len() - 1] == s.last());
            if f(s.last()) {
                let q = p.filter(f);
                if q.push(s.last()).contains(x) && x != s.last() {
                    let k = choose|k: int| 0 <= k < q.push(s.last()).len() && q.push(s.last())[k] == x;
                    assert(q[k] == x);
                }
                if q.contains(x) {
                    let k = choose|k: int| 0 <= k < q.len() && q[k] == x;
                    assert(q.push(s.last())[k] == x);
                }
                assert(q.push(s.last())[q.len() as int] == s.last());
            }
        }
    }
}


/// A sequence with the multiset of one without duplicates has none, and
/// the same elements.
proof fn lemma_perm_of_distinct(a: Seq<Seq<char>>, b: Seq<Seq<char>>)
    requires
        a.to_multiset() == b.to_multiset(),
        b.no_duplicates(),
    ensures
        a.no_duplicates(),
        forall|x: Seq<char>| #[trigger] a.contains(x) <==> b.contains(x),
{
    broadcast use vstd::seq_lib::group_to_multiset_ensures;

    b.lemma_multiset_has_no_duplicates();
    a.lemma_multiset_has_no_duplicates_conv();
    assert forall|x: Seq<char>| #[trigger] a.contains(x) <==> b.contains(x) by {
        vstd::seq_lib::to_multiset_contains(a, x);
        vstd::seq_lib::to_multiset_contains(b, x);
        assert(a.to_multiset().count(x) == b.to_multiset().count(x));
    }
}

/// A sequence without duplicates that holds every element of a longer one
/// is impossible: some element of the longer one is missing from it.
proof fn lemma_missing_id(shown: Seq<Seq<char>>, pool: Seq<Seq<char>>) -> (id: Seq<char>)
    requires
        shown.no_duplicates(),
        pool.no_duplicates(),
        shown.len() < pool.len(),
    ensures
        pool.contains(id),
        !shown.contains(id),
{
    broadcast use vstd::seq_lib::seq_to_set_is_finite;

    shown.unique_seq_to_set();
    pool.unique_seq_to_set();
    if forall|x: Seq<char>| #[trigger] pool.contains(x) ==> shown.contains(x) {
        assert forall|x: Seq<char>| pool.to_set().contains(x) implies shown.to_set().contains(x) by {
            assert(pool.contains(x));
        }
        assert(pool.to_set().subset_of(shown.to_set()));
        vstd::set_lib::lemma_len_subset(pool.to_set(), shown.to_set());
        assert(false);
    }
    choose|x: Seq<char>| pool.contains(x) && !shown.contains(x)
}

/// The shown set a refill starts from.
pub open spec fn refill_shown(v: RotationView) -> Seq<Seq<char>> {
    if v.cycle_done() {
        Seq::empty()
    } else {
        v.shown
    }
}

/// The ids a refill queues: those of the pool not in its shown set.
pub open spec fn refill_ids(v: RotationView) -> Seq<Seq<char>> {
    fresh_ids(v.pool_ids(), refill_shown(v), Seq::empty())
}

/// `fin` is what a refill leaves of `mid`: with an empty pool, nothing
/// queued; otherwise the refill's shown set and a non-empty queue holding,
/// in some order, each id of the pool not in that set.
pub open spec fn refill_of(mid: RotationView, fin: RotationView) -> bool {
    &&& fin.pool == mid.pool
    &&& if mid.pool.len() == 0 {
        fin.remaining.len() == 0 && fin.shown == mid.shown
    } else {
        &&& fin.shown == refill_shown(mid)
        &&& fin.remaining.to_multiset() == refill_ids(mid).to_multiset()
        &&& fin.remaining.len() > 0
    }
}

/// The candidate of the pool with id `id`.
pub open spec fn pool_entry(v: RotationView, id: Seq<char>) -> Option<CandidateView> {
    last_with_id(v.pool, id)
}

/// `w` is what a call of [`RotationManager::next`] on `v` that returns the
/// candidate with id `id` leaves: the head of the queue is taken and marked
/// shown; with an empty queue, a new round is queued first (starting a new
/// cycle when every candidate was shown) and `id` is taken from it.
pub open spec fn next_step(v: RotationView, id: Seq<char>, w: RotationView) -> bool {
    &&& w.wf()
    &&& w.pool == v.pool
    &&& pool_entry(v, id) is Some
    &&& v.remaining.len() > 0 ==> {
        &&& id == v.remaining[0]
        &&& w.remaining == v.remaining.drop_first()
        &&& w.shown == if v.shown.contains(id) {
            v.shown
        } else {
            v.shown.push(id)
        }
    }
    &&& v.remaining.len() == 0 ==> {
        &&& !refill_shown(v).contains(id)
        &&& w.shown == refill_shown(v).push(id)
        &&& (seq![id] + w.remaining).to_multiset() == refill_ids(v).to_multiset()
    }
    &&& v.consistent() ==> w.consistent()
}

impl RotationManager {
    /// An empty rotation with a random generator seeded from the operating
    /// system; where the system offers no randomness, the generator gets a
    /// fixed seed, so the rotation still works, in an order that repeats
    /// between runs.
    pub fn new() -> (r: RotationManager)
        ensures
            r@.wf(),
            r@.consistent(),
            r@.pool.len() == 0,
            r@.remaining.len() == 0,
            r@.shown.len() == 0,
    {
        let rng = match fresh_rng() {
            Some(rng) => rng,
            None => seeded_rng(0),
        };
        let r = RotationManager {
            pool: Vec::new(),
            remaining: Vec::new(),
            shown: Vec::new(),
            rng: rng,
        };
        assert(r@.pool =~= Seq::<CandidateView>::empty());
        assert(r@.remaining =~= Seq::<Seq<char>>::empty());
        assert(r@.shown =~= Seq::<Seq<char>>::empty());
        r
    }

    /// Starts a new round: with an empty pool nothing is queued; otherwise
    /// the shown set is emptied when every image was shown, and every id not
    /// shown is queued in a random order.
    fn refill_cycle(&mut self)
        requires
            old(self)@.wf(),
        ensures
            final(self)@.wf(),
            final(self)@.consistent(),
            final(self)@.covered(),
            refill_of(old(self)@, final(self)@),
    {
        broadcast use vstd::seq_lib::group_to_multiset_ensures;

        let ghost v0 = self@;
        if self.pool.len() == 0 {
            self.remaining.clear();
            assert(self@.remaining =~= Seq::<Seq<char>>::empty());
            assert(self@.covered());
            return;
        }
        if self.shown.len() >= self.pool.len() {
            self.shown.clear();
            assert(self@.shown =~= Seq::<Seq<char>>::empty());
        }
        assert(self@.shown == refill_shown(v0));
        let ids = pool_id_list(&self.pool);
        let none: Vec<String> = Vec::new();
        assert(none.deep_view() =~= Seq::<Seq<char>>::empty());
        let mut fresh = filter_fresh(&ids, &self.shown, &none);
        let ghost f = fresh.deep_view();
        shuffle_ids(&mut fresh, &mut self.rng);
        self.remaining = fresh;
        proof {
            let v = self@;
            let pred = |id: Seq<char>| !refill_shown(v0).contains(id) && !Seq::<Seq<char>>::empty().contains(id);
            lemma_filter_no_dup(v0.pool_ids(), pred);
            lemma_perm_of_distinct(v.remaining, f);
            if !v0.cycle_done() {
                let id = lemma_missing_id(v0.shown, v0.pool_ids());
                assert(f.contains(id));
            } else {
                assert(v0.pool_ids()[0] == v0.pool[0].id);
                assert(f.contains(v0.pool_ids()[0]));
            }
            assert(exists|x: Seq<char>| f.contains(x));
            let w = choose|x: Seq<char>| f.contains(x);
            assert(v.remaining.contains(w));
            assert(v.remaining.len() > 0);
            assert forall|id: Seq<char>| #[trigger] v.pool_ids().contains(id) implies v.remaining.contains(
                id,
            ) || v.shown.contains(id) by {
                if !v.shown.contains(id) {
                    assert(f.contains(id));
                }
            }
            assert forall|k: int| 0 <= k < v.remaining.len() implies v.pool_ids().contains(
                #[trigger] v.remaining[k],
            ) && !v.shown.contains(v.remaining[k]) by {
                assert(v.remaining.contains(v.remaining[k]));
            }
            assert forall|k: int| 0 <= k < v.shown.len() implies v.pool_ids().contains(
                #[trigger] v.shown[k],
            ) by {
                assert(v0.shown.contains(v.shown[k]));
            }
        }
    }

    /// The number of candidates in the pool.
    pub fn pool_size(&self) -> (r: usize)
        ensures
            r == self@.pool.len(),
    {
        self.pool.len()
    }

    /// Copies of the candidates of the pool.
    pub fn candidates(&self) -> (r: Vec<ImageCandidate>)
        ensures
            candidates_view(r@) == self@.pool,
    {
        let mut out: Vec<ImageCandidate> = Vec::new();
        let mut i: usize = 0;
        while i < self.pool.len()
            invariant
                i <= self.pool.len(),
                candidates_view(out@) == candidates_view(self.pool@.subrange(0, i as int)),
            decreases self.pool.len() - i,
        {
            let c = self.pool[i].duplicate();
            let ghost before = candidates_view(out@);
            out.push(c);
            assert(candidates_view(out@) =~= before.push(c@));
            assert(candidates_view(self.pool@.subrange(0, i + 1)) =~= candidates_view(
                self.pool@.subrange(0, i as int),
            ).push(self.pool[i as int]@));
            i += 1;
        }
        assert(self.pool@.subrange(0, self.pool.len() as int) =~= self.pool@);
        out
    }

    /// The state to save: the queue and the shown set, with no last image.
    pub fn export_state(&self) -> (r: PersistedState)
        ensures
            r.remaining_queue.deep_view() == self@.remaining,
            r.shown_ids.deep_view() == self@.shown,
            r.last_image_id is None,
    {
        PersistedState {
            remaining_queue: crate::settings::clone_strings(&self.remaining),
            shown_ids: crate::settings::clone_strings(&self.shown),
            last_image_id: None,
        }
    }

    /// Copy of the pool's candidate with id `id`, which must be in it.
    fn entry(&self, id: &str) -> (r: ImageCandidate)
        requires
            self@.wf(),
            self@.pool_ids().contains(id@),
        ensures
            pool_entry(self@, id@) == Some(r@),
    {
        match find_candidate(&self.pool, id) {
            Some(k) => {
                proof {
                    lemma_last_with_id_at(self@.pool, k as int);
                }
                self.pool[k].duplicate()
            },
            None => {
                assert(false);
                self.pool[0].duplicate()
            },
        }
    }

    /// The candidate that [`RotationManager::next`] will return, refilling
    /// the queue first when it is empty; the shown set is left alone.
    pub fn peek_next(&mut self) -> (r: Option<ImageCandidate>)
        requires
            old(self)@.wf(),
        ensures
            final(self)@.wf(),
            final(self)@.pool == old(self)@.pool,
            old(self)@.remaining.len() > 0 ==> final(self)@ == old(self)@,
            old(self)@.remaining.len() == 0 && old(self)@.pool.len() > 0 ==> {
                &&& final(self)@.shown == refill_shown(old(self)@)
                &&& final(self)@.remaining.to_multiset() == refill_ids(old(self)@).to_multiset()
                &&& final(self)@.consistent()
            },
            old(self)@.remaining.len() == 0 && old(self)@.pool.len() == 0 ==> final(self)@
                == old(self)@,
            r is None <==> old(self)@.pool.len() == 0,
            match r {
                Some(c) => pool_entry(final(self)@, final(self)@.remaining[0]) == Some(c@),
                None => true,
            },
    {
        let ghost v0 = self@;
        if self.remaining.len() == 0 {
            self.refill_cycle();
            proof {
                if v0.pool.len() == 0 {
                    assert(self@.remaining =~= v0.remaining);
                }
            }
        }
        if self.remaining.len() == 0 {
            assert(v0.remaining.len() == 0);
            return None;
        }
        assert(self@.remaining[0] == self.remaining[0]@);
        assert(self@.pool.len() > 0) by {
            assert(self@.pool_ids().contains(self@.remaining[0]));
        }
        Some(self.entry(self.remaining[0].as_str()))
    }

    /// Takes the next candidate of the cycle, refilling the queue first
    /// when it is empty, and marks it shown.
    ///
    /// In a coherent cycle no candidate is returned twice: the id returned
    /// was not yet shown in the cycle, unless every candidate of the pool
    /// was, in which case a new cycle starts with it.
    pub fn next(&mut self) -> (r: Option<ImageCandidate>)
        requires
            old(self)@.wf(),
        ensures
            final(self)@.wf(),
            final(self)@.pool == old(self)@.pool,
            r is None <==> old(self)@.pool.len() == 0,
            r is None ==> final(self)@ == old(self)@,
            match r {
                Some(c) => {
                    &&& pool_entry(old(self)@, c@.id) == Some(c@)
                    &&& old(self)@.remaining.len() > 0 ==> {
                        &&& c@.id == old(self)@.remaining[0]
                        &&& final(self)@.remaining == old(self)@.remaining.drop_first()
                        &&& final(self)@.shown == if old(self)@.shown.contains(c@.id) {
                            old(self)@.shown
                        } else {
                            old(self)@.shown.push(c@.id)
                        }
                    }
                    &&& old(self)@.remaining.len() == 0 ==> {
                        &&& !refill_shown(old(self)@).contains(c@.id)
                        &&& final(self)@.shown == refill_shown(old(self)@).push(c@.id)
                        &&& (seq![c@.id] + final(self)@.remaining).to_multiset() == refill_ids(
                            old(self)@,
                        ).to_multiset()
                    }
                    &&& old(self)@.consistent() ==> final(self)@.consistent()
                    &&& old(self)@.consistent() ==> !old(self)@.shown.contains(c@.id) || (old(self)@.remaining.len() == 0 && old(self)@.cycle_done())
                    &&& next_step(old(self)@, c@.id, final(self)@)
                },
                None => true,
            },
    {
        let ghost v0 = self@;
        if self.remaining.len() == 0 {
            self.refill_cycle();
            proof {
                if v0.pool.len() == 0 {
                    assert(self@.remaining =~= v0.remaining);
                }
            }
        }
        if self.remaining.len() == 0 {
            return None;
        }
        let ghost v1 = self@;
        assert(v1.pool_ids().contains(v1.remaining[0]));
        assert(v1.pool.len() > 0);
        let id = self.remaining.remove(0);
        assert(id@ == v1.remaining[0]);
        assert(self@.remaining =~= v1.remaining.drop_first());
        let c = self.entry(id.as_str());
        proof {
            lemma_last_with_id_id(self@.pool, id@);
        }
        let already = contains_text(&self.shown, id.as_str());
        if !already {
            let ghost before = self.shown.deep_view();
            self.shown.push(id);
            assert(self@.shown =~= before.push(c@.id));
        }
        proof {
            let v = self@;
            assert(pool_entry(v0, c@.id) == Some(c@));
            assert forall|k: int| 0 <= k < v.remaining.len() implies v.pool_ids().contains(
                #[trigger] v.remaining[k],
            ) by {
                assert(v.remaining[k] == v1.remaining[k + 1]);
            }
            assert forall|k: int| 0 <= k < v.shown.len() implies v.pool_ids().contains(
                #[trigger] v.shown[k],
            ) by {
                if k < v1.shown.len() {
                    assert(v.shown[k] == v1.shown[k]);
                }
            }
            if !already {
                assert forall|i: int, j: int| 0 <= i < v.shown.len() && 0 <= j < v.shown.len() && i
                    != j implies v.shown[i] != v.shown[j] by {
                    if i == v1.shown.len() {
                        assert(v1.shown.contains(v.shown[j]));
                    } else if j == v1.shown.len() {
                        assert(v1.shown.contains(v.shown[i]));
                    }
                }
            }
            if v0.remaining.len() == 0 {
                assert(v1.consistent());
                assert(!v1.shown.contains(c@.id));
                assert(seq![c@.id] + v.remaining =~= v1.remaining);
            }
            if v1.consistent() {
                assert forall|k: int| 0 <= k < v.remaining.len() implies !v.shown.contains(
                    #[trigger] v.remaining[k],
                ) by {
                    assert(v.remaining[k] == v1.remaining[k + 1]);
                    assert(v1.remaining[k + 1] != v1.remaining[0]);
                    if v.shown.contains(v.remaining[k]) {
                        let j = choose|j: int| 0 <= j < v.shown.len() && v.shown[j] == v.remaining[k];
                        if j < v1.shown.len() {
                            assert(v1.shown[j] == v.remaining[k]);
                        }
                    }
                }
                assert forall|i: int, j: int| 0 <= i < v.remaining.len() && 0 <= j < v.remaining.len()
                    && i != j implies v.remaining[i] != v.remaining[j] by {
                    assert(v.remaining[i] == v1.remaining[i + 1]);
                    assert(v.remaining[j] == v1.remaining[j + 1]);
                }
            }
            if v0.consistent() && v0.remaining.len() > 0 {
                assert(v1 == v0);
                assert(!v0.shown.contains(v0.remaining[0]));
            }
        }
        Some(c)
    }
}


/// The pool a list of candidates makes: one candidate per id, the last
/// one given.
pub open spec fn pool_of(v: RotationView, candidates: Seq<CandidateView>) -> bool {
    &&& v.pool_ids().no_duplicates()
    &&& forall|id: Seq<char>| #[trigger] last_with_id(v.pool, id) == last_with_id(candidates, id)
}

/// Builds the pool of a list of candidates.
fn build_pool(candidates: &Vec<ImageCandidate>) -> (r: Vec<ImageCandidate>)
    ensures
        ids_of(candidates_view(r@)).no_duplicates(),
        forall|id: Seq<char>| #[trigger] last_with_id(candidates_view(r@), id) == last_with_id(
            candidates_view(candidates@),
            id,
        ),
{
    let mut out: Vec<ImageCandidate> = Vec::new();
    let mut i: usize = 0;
    while i < candidates.len()
        invariant
            i <= candidates.len(),
            ids_of(candidates_view(out@)).no_duplicates(),
            forall|id: Seq<char>| #[trigger] last_with_id(candidates_view(out@), id) == last_with_id(
                candidates_view(candidates@.subrange(0, i as int)),
                id,
            ),
        decreases candidates.len() - i,
    {
        let ghost pre = candidates_view(candidates@.subrange(0, i as int));
        let ghost cur = candidates_view(candidates@.subrange(0, i + 1));
        assert(cur.drop_last() =~= pre);
        assert(cur.last() == candidates[i as int]@);
        assert(cur =~= pre.push(candidates[i as int]@));
        let c = candidates[i].duplicate();
        let ghost before = candidates_view(out@);
        match find_candidate(&out, c.id.as_str()) {
            Some(k) => {
                proof {
                    assert forall|id: Seq<char>| #[trigger] last_with_id(before.update(k as int, c@), id)
                        == last_with_id(cur, id) by {
                        lemma_last_with_id_update(before, k as int, c@, id);
                    }
                }
                out.set(k, c);
                assert(candidates_view(out@) =~= before.update(k as int, c@));
                assert(ids_of(candidates_view(out@)) =~= ids_of(before));
            },
            None => {
                out.push(c);
                assert(candidates_view(out@) =~= before.push(c@));
                assert(candidates_view(out@).drop_last() =~= before);
                assert(ids_of(candidates_view(out@)) =~= ids_of(before).push(c@.id));
                proof {
                    assert forall|id: Seq<char>| #[trigger] last_with_id(candidates_view(out@), id)
                        == last_with_id(cur, id) by {
                        let o = candidates_view(out@);
                        assert(cur.drop_last() =~= pre);
                        assert(o.drop_last() =~= before);
                        assert(o.last() == c@);
                        assert(cur.last() == c@);
                        if c@.id != id {
                            assert(last_with_id(before, id) == last_with_id(pre, id));
                        }
                    }
                    let t = ids_of(candidates_view(out@));
                    assert forall|a: int, b: int| 0 <= a < t.len() && 0 <= b < t.len() && a != b
                        implies t[a] != t[b] by {
                        if a == before.len() {
                            assert(ids_of(before).contains(t[b]));
                        } else if b == before.len() {
                            assert(ids_of(before).contains(t[a]));
                        }
                    }
                }
            },
        }
        i += 1;
    }
    assert(candidates@.subrange(0, candidates.len() as int) =~= candidates@);
    out
}

impl RotationManager {
    /// Replaces the pool by `candidates`, one per id (the last one given).
    /// Queued and shown ids no longer in the pool are dropped; the ids of
    /// the pool in neither are queued after the rest, in a random order.
    /// When nothing is left queued, a new round starts.
    pub fn rebuild_pool(&mut self, candidates: Vec<ImageCandidate>)
        requires
            old(self)@.wf(),
        ensures
            final(self)@.wf(),
            final(self)@.covered(),
            pool_of(final(self)@, candidates_view(candidates@)),
            old(self)@.consistent() ==> final(self)@.consistent(),
            ({
                let p = final(self)@.pool_ids();
                let kept = keep_ids(old(self)@.remaining, p);
                let shown = keep_ids(old(self)@.shown, p);
                let added = fresh_ids(p, kept, shown);
                if kept.len() + added.len() > 0 {
                    &&& final(self)@.shown == shown
                    &&& final(self)@.remaining.subrange(0, kept.len() as int) == kept
                    &&& final(self)@.remaining.subrange(
                        kept.len() as int,
                        final(self)@.remaining.len() as int,
                    ).to_multiset() == added.to_multiset()
                } else {
                    refill_of(
                        RotationView { pool: final(self)@.pool, remaining: Seq::empty(), shown },
                        final(self)@,
                    )
                }
            }),
    {
        broadcast use vstd::seq_lib::group_to_multiset_ensures;

        let ghost v0 = self@;
        self.pool = build_pool(&candidates);
        let ids = pool_id_list(&self.pool);
        let ghost p = ids.deep_view();
        self.remaining = filter_in(&self.remaining, &ids);
        self.shown = filter_in(&self.shown, &ids);
        let ghost kept = self@.remaining;
        let ghost shown = self@.shown;
        let mut added = filter_fresh(&ids, &self.remaining, &self.shown);
        let ghost a0 = added.deep_view();
        shuffle_ids(&mut added, &mut self.rng);
        let ghost a1 = added.deep_view();
        self.remaining.append(&mut added);
        proof {
            let v = self@;
            vstd::seq_lib::to_multiset_len(a0);
            vstd::seq_lib::to_multiset_len(a1);
            assert(a0.len() == a1.len());
            assert(v.remaining =~= kept + a1);
            assert(v.remaining.subrange(0, kept.len() as int) =~= kept);
            assert(v.remaining.subrange(kept.len() as int, v.remaining.len() as int) =~= a1);
            let inp = |id: Seq<char>| p.contains(id);
            let fr = |id: Seq<char>| !kept.contains(id) && !shown.contains(id);
            lemma_filter_no_dup(p, fr);
            lemma_perm_of_distinct(a1, a0);
            lemma_filter_no_dup(v0.shown, inp);
            assert forall|k: int| 0 <= k < v.remaining.len() implies p.contains(
                #[trigger] v.remaining[k],
            ) by {
                if k < kept.len() {
                    assert(kept[k] == v.remaining[k]);
                    assert(kept.contains(kept[k]));
                    v0.remaining.lemma_filter_contains_rev(inp, kept[k]);
                } else {
                    assert(a1[k - kept.len()] == v.remaining[k]);
                    assert(a1.contains(v.remaining[k]));
                }
            }
            assert forall|k: int| 0 <= k < v.shown.len() implies p.contains(#[trigger] v.shown[k]) by {
                assert(v.shown.contains(v.shown[k]));
            }
            assert forall|id: Seq<char>| #[trigger] p.contains(id) implies v.remaining.contains(id)
                || v.shown.contains(id) by {
                if !kept.contains(id) && !shown.contains(id) {
                    assert(a0.contains(id));
                    assert(a1.contains(id));
                    let j = choose|j: int| 0 <= j < a1.len() && a1[j] == id;
                    assert(v.remaining[kept.len() + j] == id);
                } else if kept.contains(id) {
                    let j = choose|j: int| 0 <= j < kept.len() && kept[j] == id;
                    assert(v.remaining[j] == id);
                }
            }
            if v0.consistent() {
                lemma_filter_no_dup(v0.remaining, inp);
                assert forall|i: int, j: int| 0 <= i < v.remaining.len() && 0 <= j < v.remaining.len()
                    && i != j implies v.remaining[i] != v.remaining[j] by {
                    if i < kept.len() && j >= kept.len() {
                        assert(a1.contains(v.remaining[j]));
                        assert(kept.contains(v.remaining[i]));
                    } else if j < kept.len() && i >= kept.len() {
                        assert(a1.contains(v.remaining[i]));
                        assert(kept.contains(v.remaining[j]));
                    } else if i < kept.len() {
                        assert(kept[i] == v.remaining[i] && kept[j] == v.remaining[j]);
                    } else {
                        assert(a1[i - kept.len()] == v.remaining[i] && a1[j - kept.len()] == v.remaining[j]);
                    }
                }
                assert forall|k: int| 0 <= k < v.remaining.len() implies !v.shown.contains(
                    #[trigger] v.remaining[k],
                ) by {
                    if k < kept.len() {
                        assert(kept.contains(v.remaining[k]));
                        v0.remaining.lemma_filter_contains_rev(inp, v.remaining[k]);
                        let j = choose|j: int| 0 <= j < v0.remaining.len() && v0.remaining[j] == v.remaining[k];
                        if v.shown.contains(v.remaining[k]) {
                            v0.shown.lemma_filter_contains_rev(inp, v.remaining[k]);
                        }
                    } else {
                        assert(a1.contains(v.remaining[k]));
                    }
                }
            }
        }
        if self.remaining.len() == 0 {
            let ghost mid = self@;
            assert(mid.remaining =~= Seq::<Seq<char>>::empty());
            self.refill_cycle();
        }
    }

    /// Restores a saved state over the current pool: the saved queue and
    /// shown set, without the ids no longer in the pool (and the shown set
    /// without repeats). When nothing is left queued, a new round starts.
    pub fn restore_state(&mut self, state: &PersistedState)
        requires
            old(self)@.wf(),
        ensures
            final(self)@.wf(),
            final(self)@.pool == old(self)@.pool,
            ({
                let p = old(self)@.pool_ids();
                let kept = keep_ids(state.remaining_queue.deep_view(), p);
                let shown = dedup_first(keep_ids(state.shown_ids.deep_view(), p));
                if kept.len() > 0 {
                    final(self)@.remaining == kept && final(self)@.shown == shown
                } else {
                    refill_of(
                        RotationView { pool: old(self)@.pool, remaining: Seq::empty(), shown },
                        final(self)@,
                    )
                }
            }),
    {
        let ids = pool_id_list(&self.pool);
        let ghost p = ids.deep_view();
        self.remaining = filter_in(&state.remaining_queue, &ids);
        let kept_shown = filter_in(&state.shown_ids, &ids);
        self.shown = dedup_ids_list(&kept_shown);
        proof {
            let v = self@;
            let inp = |id: Seq<char>| p.contains(id);
            lemma_dedup_first(kept_shown.deep_view());
            assert forall|k: int| 0 <= k < v.remaining.len() implies p.contains(
                #[trigger] v.remaining[k],
            ) by {
                assert(v.remaining.contains(v.remaining[k]));
                state.remaining_queue.deep_view().lemma_filter_contains_rev(inp, v.remaining[k]);
            }
            assert forall|k: int| 0 <= k < v.shown.len() implies p.contains(#[trigger] v.shown[k]) by {
                assert(v.shown.contains(v.shown[k]));
                assert(kept_shown.deep_view().contains(v.shown[k]));
                state.shown_ids.deep_view().lemma_filter_contains_rev(inp, v.shown[k]);
            }
        }
        if self.remaining.len() == 0 {
            assert(self@.remaining =~= Seq::<Seq<char>>::empty());
            self.refill_cycle();
        }
    }
}

/// The candidates of a local refresh, followed by the feed candidates of
/// the current pool whose ids the refresh did not give.
pub open spec fn with_remote(local: Seq<CandidateView>, pool: Seq<CandidateView>) -> Seq<CandidateView>
    decreases pool.len(),
{
    if pool.len() == 0 {
        local
    } else {
        let rest = with_remote(local, pool.drop_last());
        let c = pool.last();
        if c.origin == crate::sources::Origin::Rss && !ids_of(rest).contains(c.id) {
            rest.push(c)
        } else {
            rest
        }
    }
}

/// Adds to the candidates of a local refresh the feed candidates the
/// rotation already holds, so that a refresh of local sources alone keeps
/// the feed images.
pub fn merge_with_existing_remote_candidates(
    rotation: &RotationManager,
    local_candidates: Vec<ImageCandidate>,
) -> (r: Vec<ImageCandidate>)
    ensures
        candidates_view(r@) == with_remote(candidates_view(local_candidates@), rotation@.pool),
{
    let mut out = local_candidates;
    let mut seen: Vec<String> = Vec::new();
    let mut j: usize = 0;
    while j < out.len()
        invariant
            j <= out.len(),
            seen.deep_view() == ids_of(candidates_view(out@.subrange(0, j as int))),
        decreases out.len() - j,
    {
        let ghost before = seen.deep_view();
        seen.push(out[j].id.clone());
        assert(seen.deep_view() =~= before.push(out[j as int]@.id));
        assert(ids_of(candidates_view(out@.subrange(0, j + 1))) =~= before.push(out[j as int]@.id));
        j += 1;
    }
    assert(out@.subrange(0, out.len() as int) =~= out@);
    let ghost local = candidates_view(out@);
    let pool = rotation.candidates();
    let mut i: usize = 0;
    while i < pool.len()
        invariant
            i <= pool.len(),
            candidates_view(pool@) == rotation@.pool,
            candidates_view(out@) == with_remote(local, candidates_view(pool@).subrange(0, i as int)),
            seen.deep_view() == ids_of(candidates_view(out@)),
        decreases pool.len() - i,
    {
        let ghost pre = candidates_view(pool@).subrange(0, i as int);
        assert(candidates_view(pool@).subrange(0, i + 1).drop_last() =~= pre);
        let is_rss = match pool[i].origin {
            crate::sources::Origin::Rss => true,
            _ => false,
        };
        if is_rss && !contains_text(&seen, pool[i].id.as_str()) {
            let c = pool[i].duplicate();
            let ghost b = candidates_view(out@);
            let ghost bs = seen.deep_view();
            seen.push(pool[i].id.clone());
            out.push(c);
            assert(candidates_view(out@) =~= b.push(c@));
            assert(seen.deep_view() =~= bs.push(c@.id));
            assert(ids_of(candidates_view(out@)) =~= ids_of(b).push(c@.id));
        }
        i += 1;
    }
    assert(candidates_view(pool@).subrange(0, pool.len() as int) =~= candidates_view(pool@));
    out
}


/// The state after `i` steps of a cycle that started with nothing shown.
proof fn lemma_cycle_prefix(views: Seq<RotationView>, ids: Seq<Seq<char>>, i: int)
    requires
        views.len() == ids.len() + 1,
        views[0].pool.len() <= ids.len(),
        views[0].wf(),
        views[0].consistent(),
        views[0].covered(),
        views[0].shown.len() == 0,
        forall|k: int| 0 <= k < ids.len() ==> #[trigger] next_step(views[k], ids[k], views[k + 1]),
        0 <= i <= views[0].pool.len(),
    ensures
        views[i].pool == views[0].pool,
        views[i].wf(),
        views[i].consistent(),
        views[i].covered(),
        views[i].shown == ids.take(i),
        views[i].remaining.len() == views[0].pool.len() - i,
    decreases i,
{
    if i == 0 {
        let v = views[0];
        v.remaining.unique_seq_to_set();
        v.pool_ids().unique_seq_to_set();
        assert(v.remaining.to_set() =~= v.pool_ids().to_set()) by {
            assert forall|x: Seq<char>| v.remaining.to_set().contains(x) implies v.pool_ids().to_set().contains(x) by {
                let k = choose|k: int| 0 <= k < v.remaining.len() && v.remaining[k] == x;
                assert(v.pool_ids().contains(v.remaining[k]));
            }
            assert forall|x: Seq<char>| v.pool_ids().to_set().contains(x) implies v.remaining.to_set().contains(x) by {
                assert(v.pool_ids().contains(x));
                assert(!v.shown.contains(x));
            }
        }
        assert(ids.take(0) =~= v.shown);
    } else {
        lemma_cycle_prefix(views, ids, i - 1);
        let k = i - 1;
        assert(next_step(views[k], ids[k], views[k + 1]));
        assert(k + 1 == i);
        let v = views[k];
        let w = views[i];
        let id = ids[k];
        assert(v.remaining.len() > 0);
        assert(!v.shown.contains(id));
        assert(w.shown == v.shown.push(id));
        assert(ids.take(i) =~= ids.take(i - 1).push(id));
        assert forall|x: Seq<char>| #[trigger] w.pool_ids().contains(x) implies w.remaining.contains(x)
            || w.shown.contains(x) by {
            assert(v.pool_ids().contains(x));
            if v.remaining.contains(x) {
                let k = choose|k: int| 0 <= k < v.remaining.len() && v.remaining[k] == x;
                if k == 0 {
                    assert(w.shown[w.shown.len() - 1] == x);
                } else {
                    assert(w.remaining[k - 1] == x);
                }
            } else {
                let k = choose|k: int| 0 <= k < v.shown.len() && v.shown[k] == x;
                assert(w.shown[k] == x);
            }
        }
    }
}

/// One cycle of the rotation shows every candidate once. Starting from a
/// coherent rotation with nothing yet shown and every candidate of its pool
/// queued, as many calls of [`RotationManager::next`] as the pool has candidates
/// return each candidate exactly once; the call after them starts a new
/// cycle, in which only the candidate it returns has been shown.
pub proof fn lemma_cycle_shows_each_once(views: Seq<RotationView>, ids: Seq<Seq<char>>)
    requires
        views.len() == ids.len() + 1,
        ids.len() == views[0].pool.len() + 1,
        views[0].wf(),
        views[0].consistent(),
        views[0].covered(),
        views[0].shown.len() == 0,
        forall|k: int| 0 <= k < ids.len() ==> #[trigger] next_step(views[k], ids[k], views[k + 1]),
    ensures
        ({
            let n = views[0].pool.len() as int;
            &&& ids.take(n).no_duplicates()
            &&& forall|id: Seq<char>| #[trigger] ids.take(n).contains(id) <==> views[0].pool_ids().contains(id)
            &&& views[n + 1].shown == seq![ids[n]]
        }),
{
    let n = views[0].pool.len() as int;
    lemma_cycle_prefix(views, ids, n);
    let v = views[n];
    assert(v.shown == ids.take(n));
    assert forall|id: Seq<char>| #[trigger] ids.take(n).contains(id) <==> views[0].pool_ids().contains(id) by {
        if ids.take(n).contains(id) {
            let k = choose|k: int| 0 <= k < v.shown.len() && v.shown[k] == id;
            assert(v.pool_ids().contains(v.shown[k]));
        }
        if views[0].pool_ids().contains(id) {
            assert(v.pool_ids().contains(id));
            assert(v.remaining.len() == 0);
        }
    }
    assert(next_step(v, ids[n], views[n + 1]));
    assert(v.cycle_done());
    assert(refill_shown(v) =~= Seq::<Seq<char>>::empty());
    assert(Seq::<Seq<char>>::empty().push(ids[n]) =~= seq![ids[n]]);
}

} // verus!
