//! The readback backend: frame publication, resize coordination and
//! teardown, with an epoch-based key ledger.
//!
//! The ghost ledger records every key ever minted and every key handed out
//! for release. Well-formedness ties the ledger to the slots: each minted
//! key sits in exactly one place — still tracked by a slot, or already
//! released — so by teardown every minted key has been handed out for
//! release exactly once.

use vstd::prelude::*;

use crate::geom::{must_reallocate, Size};
use crate::keys::{opt_keys, ImageKey, KeySlots};

verus! {

/// What one publish asks of the compositor service.
#[derive(Clone, Copy, Debug)]
pub struct PublishOutcome {
    /// The key under which the frame is now published.
    pub key: ImageKey,
    /// True: register the frame under `key` as a new image. False: update
    /// the image already registered under `key` in place.
    pub registered: bool,
    /// A retired key whose epoch is over: the service must release it now.
    pub release: Option<ImageKey>,
}

/// The mathematical state of a readback backend: the slots and size the
/// executable state holds, plus the full mint/release history.
#[verifier::ext_equal]
pub struct ReadbackModel {
    pub size: Size,
    pub current: Option<ImageKey>,
    pub previous: Option<ImageKey>,
    pub stale: Option<ImageKey>,
    /// Value of the next key to mint; every minted key is below it.
    pub next: u32,
    /// Every key ever minted, in order.
    pub minted: Seq<ImageKey>,
    /// Every key handed out for release, in order.
    pub released: Seq<ImageKey>,
}

impl ReadbackModel {
    pub open spec fn init(size: Size) -> ReadbackModel {
        ReadbackModel {
            size: size,
            current: None,
            previous: None,
            stale: None,
            next: 0,
            minted: Seq::empty(),
            released: Seq::empty(),
        }
    }

    pub open spec fn slots(self) -> KeySlots {
        KeySlots { current: self.current, previous: self.previous, stale: self.stale }
    }

    pub open spec fn well_formed(self) -> bool {
        &&& self.minted.no_duplicates()
        &&& self.released.no_duplicates()
        &&& forall|k: ImageKey| self.released.contains(k) ==> self.minted.contains(k)
        &&& forall|k: ImageKey| #[trigger] self.slots().holds(k) ==> self.minted.contains(k)
            && !self.released.contains(k)
        &&& forall|k: ImageKey| #[trigger] self.minted.contains(k) ==> k.0 < self.next
        &&& forall|k: ImageKey| #[trigger] self.minted.contains(k) ==> self.released.contains(k)
            || self.slots().holds(k)
        &&& self.slots().distinct()
    }

    /// One frame publication. Reuses the current key when one exists
    /// (update in place); otherwise mints a fresh key. Releases the stale
    /// key, if any, and shifts the retirement chain by one epoch.
    pub open spec fn publish(self) -> (ReadbackModel, PublishOutcome) {
        let (key, registered) = match self.current {
            Some(k) => (k, false),
            None => (ImageKey(self.next), true),
        };
        let post = ReadbackModel {
            size: self.size,
            current: Some(key),
            previous: None,
            stale: self.previous,
            next: if registered {
                (self.next + 1) as u32
            } else {
                self.next
            },
            minted: if registered {
                self.minted.push(key)
            } else {
                self.minted
            },
            released: match self.stale {
                Some(k) => self.released.push(k),
                None => self.released,
            },
        };
        (post, PublishOutcome { key, registered, release: self.stale })
    }

    /// One completed resize. The new size is what the context actually
    /// allocated on the grow path, and exactly the requested size on the
    /// shrink-or-equal path. A current key is retired into `previous`:
    /// a differently sized surface always needs a fresh key on the next
    /// publish.
    pub open spec fn recreate(self, requested: Size, allocated: Option<Size>) -> ReadbackModel {
        ReadbackModel {
            size: match allocated {
                Some(a) => a,
                None => requested,
            },
            current: None,
            previous: self.current,
            stale: self.stale,
            next: self.next,
            minted: self.minted,
            released: self.released,
        }
    }

    /// End of the worker's lifetime: every still-tracked key is handed out
    /// for release, each exactly once.
    pub open spec fn teardown(self) -> (ReadbackModel, Seq<ImageKey>) {
        let rel = self.slots().all_keys();
        let post = ReadbackModel {
            size: self.size,
            current: None,
            previous: None,
            stale: None,
            next: self.next,
            minted: self.minted,
            released: self.released + rel,
        };
        (post, rel)
    }
}

/// Pushing a fresh element keeps a sequence duplicate-free, and membership
/// grows by exactly that element.
proof fn lemma_push_fresh(s: Seq<ImageKey>, k: ImageKey)
    requires
        s.no_duplicates(),
        !s.contains(k),
    ensures
        s.push(k).no_duplicates(),
        forall|x: ImageKey| #[trigger] s.push(k).contains(x) <==> (s.contains(x) || x == k),
{
    assert forall|x: ImageKey| #[trigger] s.push(k).contains(x) implies (s.contains(x) || x == k) by {
        let i = choose|i: int| 0 <= i < s.push(k).len() && s.push(k)[i] == x;
        if i < s.len() {
            assert(s[i] == x);
        }
    }
    assert forall|x: ImageKey| (s.contains(x) || x == k) implies #[trigger] s.push(k).contains(x) by {
        if s.contains(x) {
            let i = choose|i: int| 0 <= i < s.len() && s[i] == x;
            assert(s.push(k)[i] == x);
        } else {
            assert(s.push(k)[s.len() as int] == x);
        }
    }
    assert forall|i: int, j: int|
        0 <= i < s.push(k).len() && 0 <= j < s.push(k).len() && i != j implies s.push(k)[i]
        != s.push(k)[j] by {
        if i < s.len() && j < s.len() {
            assert(s.push(k)[i] == s[i] && s.push(k)[j] == s[j]);
        } else if i < s.len() {
            assert(s.push(k)[i] == s[i] && s.push(k)[j] == k);
            assert(s.contains(s[i]));
        } else {
            assert(s.push(k)[i] == k && s.push(k)[j] == s[j]);
            assert(s.contains(s[j]));
        }
    }
}

/// Publication preserves well-formedness; the minted history only grows;
/// the returned key is minted and tracked as current afterwards.
pub proof fn lemma_publish_preserves(m: ReadbackModel)
    requires
        m.well_formed(),
        m.next < u32::MAX,
    ensures
        m.publish().0.well_formed(),
        m.publish().0.minted.contains(m.publish().1.key),
        forall|x: ImageKey| m.minted.contains(x) ==> #[trigger] m.publish().0.minted.contains(x),
        m.publish().1.registered ==> !m.minted.contains(m.publish().1.key),
{
    let (post, out) = m.publish();
    match m.current {
        None => {
            let k = ImageKey(m.next);
            assert(!m.minted.contains(k));
            lemma_push_fresh(m.minted, k);
            assert(post.minted.contains(k));
        },
        Some(k) => {
            assert(m.slots().holds(k));
            assert(post.minted.contains(k));
        },
    }
    match m.stale {
        Some(r) => {
            assert(m.slots().holds(r));
            lemma_push_fresh(m.released, r);
        },
        None => {},
    }
    assert forall|k: ImageKey| #[trigger] post.slots().holds(k) implies post.minted.contains(k)
        && !post.released.contains(k) by {
        assert(m.slots().holds(k) || k == out.key);
    }
    assert forall|k: ImageKey| #[trigger] post.minted.contains(k) implies post.released.contains(k)
        || post.slots().holds(k) by {
        if m.minted.contains(k) {
            if m.slots().holds(k) && !m.released.contains(k) {
                if m.stale == Some(k) {
                    assert(post.released.contains(k));
                } else {
                    assert(post.slots().holds(k));
                }
            }
        } else {
            assert(k == out.key);
            assert(post.slots().holds(k));
        }
    }
    assert(post.slots().distinct()) by {
        match m.previous {
            Some(p) => {
                assert(m.slots().holds(p));
            },
            None => {},
        }
    }
}

/// A completed resize preserves well-formedness and leaves the ledger
/// untouched: retirement moves a key between slots, it releases nothing.
pub proof fn lemma_recreate_preserves(m: ReadbackModel, requested: Size, allocated: Option<Size>)
    requires
        m.well_formed(),
        m.previous is None,
    ensures
        m.recreate(requested, allocated).well_formed(),
        m.recreate(requested, allocated).minted == m.minted,
        m.recreate(requested, allocated).released == m.released,
{
    let post = m.recreate(requested, allocated);
    assert forall|k: ImageKey| #[trigger] post.slots().holds(k) implies m.slots().holds(k) by {}
    assert forall|k: ImageKey| #[trigger] m.slots().holds(k) implies post.slots().holds(k) by {}
}

/// Why a checked resize was refused.
#[derive(Clone, Copy, Debug, PartialEq, Eq, Structural)]
pub enum RecreateError {
    /// A resize tried to retire the current key while the retirement slot
    /// was still occupied: a defect in the caller's publish cadence.
    RetirementSlotOccupied,
}

/// The executable state of a readback backend. The ghost ledger fields
/// realize the model's mint and release histories.
pub struct ReadbackState {
    pub size: Size,
    pub slots: KeySlots,
    pub next_key: u32,
    pub minted: Ghost<Seq<ImageKey>>,
    pub released: Ghost<Seq<ImageKey>>,
}

impl View for ReadbackState {
    type V = ReadbackModel;

    open spec fn view(&self) -> ReadbackModel {
        ReadbackModel {
            size: self.size,
            current: self.slots.current,
            previous: self.slots.previous,
            stale: self.slots.stale,
            next: self.next_key,
            minted: self.minted@,
            released: self.released@,
        }
    }
}

impl ReadbackState {
    /// A fresh readback backend: all three key slots empty, nothing minted.
    pub fn new(size: Size) -> (s: ReadbackState)
        ensures
            s@ == ReadbackModel::init(size),
            s@.well_formed(),
    {
        let s = ReadbackState {
            size,
            slots: KeySlots { current: None, previous: None, stale: None },
            next_key: 0,
            minted: Ghost(Seq::empty()),
            released: Ghost(Seq::empty()),
        };
        proof {
            assert(s@ =~= ReadbackModel::init(size));
        }
        s
    }

    /// Publish the current frame: reuse the current key as an in-place
    /// update when one exists, otherwise mint and register a fresh key;
    /// hand out the stale key for release and shift the retirement chain.
    pub fn publish(&mut self) -> (out: PublishOutcome)
        requires
            old(self)@.well_formed(),
            old(self)@.next < u32::MAX,
        ensures
            final(self)@ == old(self)@.publish().0,
            out == old(self)@.publish().1,
            final(self)@.well_formed(),
    {
        proof {
            lemma_publish_preserves(self@);
        }
        let (key, registered): (ImageKey, bool) = match self.slots.current {
            Some(k) => (k, false),
            None => {
                let k = ImageKey(self.next_key);
                self.next_key = self.next_key + 1;
                self.minted = Ghost(self.minted@.push(k));
                (k, true)
            },
        };
        let release = self.slots.stale;
        if let Some(r) = release {
            self.released = Ghost(self.released@.push(r));
        }
        self.slots.stale = self.slots.previous;
        self.slots.previous = None;
        self.slots.current = Some(key);
        proof {
            assert(self@ =~= old(self)@.publish().0);
        }
        PublishOutcome { key, registered, release }
    }

    /// Complete a resize. On the grow path `allocated` is the size the
    /// context actually allocated (it may exceed the request) and becomes
    /// the new size; on the shrink-or-equal path nothing was reallocated
    /// and the new size is exactly the requested one. A current key is
    /// retired into the (empty) retirement slot.
    pub fn recreate(&mut self, requested: Size, allocated: Option<Size>)
        requires
            old(self)@.well_formed(),
            old(self)@.previous is None,
            (allocated is Some) == must_reallocate(old(self)@.size, requested),
        ensures
            final(self)@ == old(self)@.recreate(requested, allocated),
            final(self)@.well_formed(),
    {
        proof {
            lemma_recreate_preserves(self@, requested, allocated);
        }
        match allocated {
            Some(a) => {
                self.size = a;
            },
            None => {
                self.size = requested;
            },
        }
        self.slots.previous = self.slots.current;
        self.slots.current = None;
        proof {
            assert(self@ =~= old(self)@.recreate(requested, allocated));
        }
    }

    /// A resize that checks the retirement-slot invariant instead of
    /// demanding it: a second resize issued before any intervening publish
    /// is refused as a defect, and the state is left untouched with the
    /// prior size intact.
    pub fn recreate_checked(&mut self, requested: Size, allocated: Option<Size>) -> (r: Result<
        (),
        RecreateError,
    >)
        requires
            old(self)@.well_formed(),
            (allocated is Some) == must_reallocate(old(self)@.size, requested),
        ensures
            final(self)@.well_formed(),
            match r {
                Ok(()) => old(self)@.previous is None && final(self)@ == old(self)@.recreate(
                    requested,
                    allocated,
                ),
                Err(_) => old(self)@.previous is Some && *final(self) == *old(self),
            },
    {
        if self.slots.previous.is_some() {
            return Err(RecreateError::RetirementSlotOccupied);
        }
        self.recreate(requested, allocated);
        Ok(())
    }

    /// End of the worker's lifetime: hand out every still-tracked key for
    /// release. Afterwards the release history holds every minted key
    /// exactly once.
    pub fn teardown(&mut self) -> (rel: Vec<ImageKey>)
        requires
            old(self)@.well_formed(),
        ensures
            final(self)@ == old(self)@.teardown().0,
            rel@ == old(self)@.teardown().1,
            final(self)@.well_formed(),
            final(self)@.released.no_duplicates(),
            forall|k: ImageKey| #[trigger] final(self)@.released.contains(k) <==> final(self)@.minted.contains(k),
    {
        let mut rel: Vec<ImageKey> = Vec::new();
        if let Some(k) = self.slots.current {
            rel.push(k);
        }
        if let Some(k) = self.slots.previous {
            rel.push(k);
        }
        if let Some(k) = self.slots.stale {
            rel.push(k);
        }
        self.slots.current = None;
        self.slots.previous = None;
        self.slots.stale = None;
        self.released = Ghost(self.released@ + rel@);
        proof {
            assert(rel@ =~= old(self)@.slots().all_keys());
            lemma_teardown_releases_exactly_minted(old(self)@);
            assert(self@ =~= old(self)@.teardown().0);
        }
        rel
    }

    /// Whether a fresh key can still be minted (a machine limit, never hit
    /// in practice): callers of `publish` outside verified code test this
    /// first.
    pub fn can_mint(&self) -> (r: bool)
        ensures
            r == (self@.next < u32::MAX),
    {
        self.next_key < u32::MAX
    }
}

/// Membership in a concatenation is membership in either part.
proof fn lemma_concat_contains(a: Seq<ImageKey>, b: Seq<ImageKey>)
    ensures
        forall|x: ImageKey| #[trigger] (a + b).contains(x) <==> (a.contains(x) || b.contains(x)),
{
    assert forall|x: ImageKey| #[trigger] (a + b).contains(x) implies (a.contains(x)
        || b.contains(x)) by {
        let i = choose|i: int| 0 <= i < (a + b).len() && (a + b)[i] == x;
        if i < a.len() {
            assert(a[i] == x);
        } else {
            assert(b[i - a.len()] == x);
        }
    }
    assert forall|x: ImageKey| (a.contains(x) || b.contains(x)) implies #[trigger] (a
        + b).contains(x) by {
        if a.contains(x) {
            let i = choose|i: int| 0 <= i < a.len() && a[i] == x;
            assert((a + b)[i] == x);
        } else {
            let i = choose|i: int| 0 <= i < b.len() && b[i] == x;
            assert((a + b)[a.len() + i] == x);
        }
    }
}

/// Concatenating duplicate-free sequences with no common element stays
/// duplicate-free.
proof fn lemma_concat_no_dup(a: Seq<ImageKey>, b: Seq<ImageKey>)
    requires
        a.no_duplicates(),
        b.no_duplicates(),
        forall|x: ImageKey| a.contains(x) ==> !b.contains(x),
    ensures
        (a + b).no_duplicates(),
{
    assert forall|i: int, j: int|
        0 <= i < (a + b).len() && 0 <= j < (a + b).len() && i != j implies (a + b)[i] != (
    a + b)[j] by {
        if i < a.len() && j < a.len() {
            assert((a + b)[i] == a[i] && (a + b)[j] == a[j]);
        } else if i < a.len() {
            assert((a + b)[i] == a[i] && (a + b)[j] == b[j - a.len()]);
            assert(a.contains(a[i]) && b.contains(b[j - a.len()]));
        } else if j < a.len() {
            assert((a + b)[i] == b[i - a.len()] && (a + b)[j] == a[j]);
            assert(a.contains(a[j]) && b.contains(b[i - a.len()]));
        } else {
            assert((a + b)[i] == b[i - a.len()] && (a + b)[j] == b[j - a.len()]);
        }
    }
}

/// With distinct slots, the held keys form a duplicate-free sequence whose
/// members are exactly the held keys.
proof fn lemma_all_keys_facts(s: KeySlots)
    requires
        s.distinct(),
    ensures
        s.all_keys().no_duplicates(),
        forall|x: ImageKey| #[trigger] s.all_keys().contains(x) <==> s.holds(x),
{
    lemma_concat_contains(opt_keys(s.current), opt_keys(s.previous));
    lemma_concat_contains(opt_keys(s.current) + opt_keys(s.previous), opt_keys(s.stale));
    assert forall|x: ImageKey| #[trigger] opt_keys(s.current).contains(x) <==> s.current == Some(
        x,
    ) by {
        if s.current == Some(x) {
            assert(opt_keys(s.current)[0] == x);
        }
    }
    assert forall|x: ImageKey| #[trigger] opt_keys(s.previous).contains(x) <==> s.previous == Some(
        x,
    ) by {
        if s.previous == Some(x) {
            assert(opt_keys(s.previous)[0] == x);
        }
    }
    assert forall|x: ImageKey| #[trigger] opt_keys(s.stale).contains(x) <==> s.stale == Some(x) by {
        if s.stale == Some(x) {
            assert(opt_keys(s.stale)[0] == x);
        }
    }
    lemma_concat_no_dup(opt_keys(s.current), opt_keys(s.previous));
    lemma_concat_no_dup(opt_keys(s.current) + opt_keys(s.previous), opt_keys(s.stale));
}

/// Teardown hands out for release exactly the keys that were still tracked,
/// after which every minted key has been released exactly once: none twice
/// (the release history stays duplicate-free), none left behind.
pub proof fn lemma_teardown_releases_exactly_minted(m: ReadbackModel)
    requires
        m.well_formed(),
    ensures
        m.teardown().0.well_formed(),
        m.teardown().0.released.no_duplicates(),
        forall|k: ImageKey| #[trigger] m.teardown().0.released.contains(k) <==> m.teardown().0.minted.contains(k),
        forall|k: ImageKey| #[trigger] m.teardown().1.contains(k) <==> m.slots().holds(k),
{
    let (post, rel) = m.teardown();
    lemma_all_keys_facts(m.slots());
    lemma_concat_contains(m.released, rel);
    assert forall|x: ImageKey| m.released.contains(x) implies !rel.contains(x) by {}
    lemma_concat_no_dup(m.released, rel);
    assert forall|k: ImageKey| #[trigger] post.released.contains(k) implies post.minted.contains(
        k,
    ) by {
        if rel.contains(k) {
            assert(m.slots().holds(k));
        }
    }
    assert forall|k: ImageKey| #[trigger] post.minted.contains(k) implies post.released.contains(
        k,
    ) by {
        assert(m.released.contains(k) || m.slots().holds(k));
    }
}

/// Publishing twice at unchanged size returns the same image key both
/// times: the second publish updates the registered image in place, no key
/// churn.
pub proof fn lemma_publish_twice_same_key(m: ReadbackModel)
    requires
        m.well_formed(),
        m.next < u32::MAX,
    ensures
        m.publish().0.publish().1.key == m.publish().1.key,
        !m.publish().0.publish().1.registered,
{
}

/// A publish occurring after a resize mints a fresh key: one different from
/// every key minted — and so from every key returned — before that resize.
pub proof fn lemma_publish_after_recreate_fresh(
    m: ReadbackModel,
    requested: Size,
    allocated: Option<Size>,
)
    requires
        m.well_formed(),
        m.previous is None,
        m.next < u32::MAX,
    ensures
        ({
            let out = m.recreate(requested, allocated).publish().1;
            out.registered && !m.minted.contains(out.key)
        }),
{
    let m1 = m.recreate(requested, allocated);
    let out = m1.publish().1;
    assert(out.key == ImageKey(m.next));
    if m.minted.contains(out.key) {
        assert(out.key.0 < m.next);
    }
}

/// One resize immediately followed by one publish.
pub open spec fn cycle(m: ReadbackModel, requested: Size, allocated: Option<Size>) -> ReadbackModel {
    m.recreate(requested, allocated).publish().0
}

/// Each step of a run is a valid resize: the retirement slot is free, the
/// reallocation outcome matches the resize policy, and a key can still be
/// minted.
pub open spec fn cycles_valid(m: ReadbackModel, steps: Seq<(Size, Option<Size>)>) -> bool
    decreases steps.len(),
{
    steps.len() == 0 || {
        &&& m.previous is None
        &&& (steps[0].1 is Some) == must_reallocate(m.size, steps[0].0)
        &&& m.next < u32::MAX
        &&& cycles_valid(cycle(m, steps[0].0, steps[0].1), steps.drop_first())
    }
}

/// The state after a run of resize-then-publish cycles.
pub open spec fn run_cycles(m: ReadbackModel, steps: Seq<(Size, Option<Size>)>) -> ReadbackModel
    decreases steps.len(),
{
    if steps.len() == 0 {
        m
    } else {
        run_cycles(cycle(m, steps[0].0, steps[0].1), steps.drop_first())
    }
}

/// Across any number of resizes each followed immediately by one publish,
/// teardown at end of the worker's lifetime has every minted key released
/// exactly once: none is released twice, none remains unreleased.
pub proof fn lemma_lifecycle_each_key_released_once(
    m: ReadbackModel,
    steps: Seq<(Size, Option<Size>)>,
)
    requires
        m.well_formed(),
        cycles_valid(m, steps),
    ensures
        ({
            let done = run_cycles(m, steps).teardown().0;
            &&& done.released.no_duplicates()
            &&& forall|k: ImageKey| #[trigger] done.released.contains(k) <==> done.minted.contains(
                k,
            )
        }),
    decreases steps.len(),
{
    if steps.len() == 0 {
        lemma_teardown_releases_exactly_minted(m);
    } else {
        let m1 = m.recreate(steps[0].0, steps[0].1);
        lemma_recreate_preserves(m, steps[0].0, steps[0].1);
        lemma_publish_preserves(m1);
        lemma_lifecycle_each_key_released_once(cycle(m, steps[0].0, steps[0].1), steps.drop_first());
    }
}

} // verus!

