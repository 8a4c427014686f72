//! Completion detection: turns create and close-after-write events into one
//! "ready" signal per finished write of a file.
//!
//! A path becomes pending when it is created. A close-after-write on a pending
//! path makes it ready and drops it, so the next write cycle starts afresh. A
//! close-after-write on a path that is not pending is ready under the
//! permissive policy (no file is missed) and ignored under the strict one.
//! Events on directories, and events of other kinds, change nothing.
use vstd::prelude::*;

verus! {

/// The kinds of filesystem event the detector tells apart.
#[derive(Clone, Copy, Debug, PartialEq, Eq, Structural)]
pub enum EventKind {
    /// A file or directory was created.
    Created,
    /// A file opened for writing was closed.
    ClosedWrite,
    /// Anything else.
    Other,
}

/// How a close-after-write without a preceding create is treated.
#[derive(Clone, Copy, Debug, PartialEq, Eq, Structural)]
pub enum Policy {
    /// The file is ready anyway.
    Permissive,
    /// The event is ignored.
    Strict,
}

impl Default for Policy {
    /// Permissive: a missed file costs more than an extra dispatch.
    fn default() -> (p: Policy)
        ensures
            p == Policy::Permissive,
    {
        Policy::Permissive
    }
}

/// A raw filesystem event.
pub struct RawEvent {
    /// The absolute path the event is about.
    pub path: String,
    /// What happened.
    pub kind: EventKind,
    /// Whether the path is a directory.
    pub is_dir: bool,
}

/// A raw event as plain values.
pub ghost struct EventView {
    pub path: Seq<char>,
    pub kind: EventKind,
    pub is_dir: bool,
}

impl View for RawEvent {
    type V = EventView;

    open spec fn view(&self) -> EventView {
        EventView { path: self.path@, kind: self.kind, is_dir: self.is_dir }
    }
}

/// The pending paths after event `e`.
pub open spec fn next_pending(pending: Set<Seq<char>>, e: EventView) -> Set<Seq<char>> {
    if e.is_dir {
        pending
    } else {
        match e.kind {
            EventKind::Created => pending.insert(e.path),
            EventKind::ClosedWrite => pending.remove(e.path),
            EventKind::Other => pending,
        }
    }
}

/// Whether event `e` makes its path ready.
pub open spec fn is_ready(pending: Set<Seq<char>>, policy: Policy, e: EventView) -> bool {
    !e.is_dir && e.kind == EventKind::ClosedWrite && (pending.contains(e.path) || policy
        == Policy::Permissive)
}

/// The per-path state of completion detection.
pub struct Detector {
    policy: Policy,
    pending: Vec<String>,
}

impl View for Detector {
    type V = Set<Seq<char>>;

    /// The paths that were created and not yet closed after writing.
    closed spec fn view(&self) -> Set<Seq<char>> {
        Set::new(|p: Seq<char>| exists|i: int| 0 <= i < self.pending@.len() && #[trigger] self.pending@[i]@ == p)
    }
}

impl Detector {
    /// The policy for a close-after-write on a path that is not pending.
    pub closed spec fn policy_spec(&self) -> Policy {
        self.policy
    }

    /// A detector with nothing pending.
    pub fn new(policy: Policy) -> (d: Detector)
        ensures
            d@ == Set::<Seq<char>>::empty(),
            d.policy_spec() == policy,
    {
        let d = Detector { policy, pending: Vec::new() };
        assert(d@ =~= Set::<Seq<char>>::empty());
        d
    }

    /// The detector's policy.
    pub fn policy(&self) -> (p: Policy)
        ensures
            p == self.policy_spec(),
    {
        self.policy
    }

    fn position(&self, path: &String) -> (r: Option<usize>)
        ensures
            match r {
                Some(i) => i < self.pending@.len() && self.pending@[i as int]@ == path@,
                None => !self@.contains(path@),
            },
    {
        let mut i: usize = 0;
        while i < self.pending.len()
            invariant
                i <= self.pending@.len(),
                forall|j: int| 0 <= j < i ==> self.pending@[j]@ != path@,
            decreases self.pending@.len() - i,
        {
            if self.pending[i] == *path {
                return Some(i);
            }
            i = i + 1;
        }
        None
    }

    /// Whether `path` is pending.
    pub fn is_pending(&self, path: &String) -> (r: bool)
        ensures
            r == self@.contains(path@),
    {
        self.position(path).is_some()
    }

    fn insert(&mut self, path: &String)
        ensures
            final(self)@ == old(self)@.insert(path@),
            final(self).policy == old(self).policy,
    {
        if self.position(path).is_none() {
            let ghost old_pending = self.pending@;
            self.pending.push(path.clone());
            assert forall|p: Seq<char>| #[trigger] self@.contains(p) == old(self)@.insert(path@).contains(p) by {
                if p != path@ && self@.contains(p) {
                    let i = choose|i: int| 0 <= i < self.pending@.len() && #[trigger] self.pending@[i]@ == p;
                    assert(old_pending[i]@ == p);
                }
                if old(self)@.contains(p) {
                    let i = choose|i: int| 0 <= i < old_pending.len() && #[trigger] old_pending[i]@ == p;
                    assert(self.pending@[i]@ == p);
                }
                if p == path@ {
                    assert(self.pending@[old_pending.len() as int]@ == p);
                }
            }
            assert(self@ =~= old(self)@.insert(path@));
        } else {
            assert(self@ =~= old(self)@.insert(path@));
        }
    }

    fn remove(&mut self, path: &String)
        ensures
            final(self)@ == old(self)@.remove(path@),
            final(self).policy == old(self).policy,
    {
        let ghost old_pending = self.pending@;
        let mut kept: Vec<String> = Vec::new();
        let mut i: usize = 0;
        while i < self.pending.len()
            invariant
                i <= self.pending@.len(),
                self.pending@ == old_pending,
                forall|k: int| 0 <= k < kept@.len() ==> (#[trigger] kept@[k])@ != path@,
                forall|k: int| #![trigger kept@[k]] 0 <= k < kept@.len() ==> exists|j: int| 0 <= j < i && (#[trigger] old_pending[j])@ == kept@[k]@,
                forall|j: int| #![trigger old_pending[j]] 0 <= j < i && old_pending[j]@ != path@ ==> exists|k: int| 0 <= k < kept@.len() && (#[trigger] kept@[k])@ == old_pending[j]@,
            decreases self.pending@.len() - i,
        {
            if self.pending[i] != *path {
                let ghost before = kept@;
                kept.push(self.pending[i].clone());
                assert forall|k: int| #![trigger kept@[k]] 0 <= k < kept@.len() implies exists|j: int| 0 <= j < i + 1 && (#[trigger] old_pending[j])@ == kept@[k]@ by {
                    if k < before.len() {
                        assert(kept@[k] == before[k]);
                        let j = choose|j: int| 0 <= j < i && (#[trigger] old_pending[j])@ == before[k]@;
                        assert(old_pending[j]@ == kept@[k]@);
                    } else {
                        assert(old_pending[i as int]@ == kept@[k]@);
                    }
                }
                assert forall|j: int| #![trigger old_pending[j]] 0 <= j < i + 1 && old_pending[j]@ != path@ implies exists|k: int| 0 <= k < kept@.len() && (#[trigger] kept@[k])@ == old_pending[j]@ by {
                    if j < i {
                        let k = choose|k: int| 0 <= k < before.len() && (#[trigger] before[k])@ == old_pending[j]@;
                        assert(kept@[k] == before[k]);
                    } else {
                        assert(kept@[before.len() as int]@ == old_pending[j]@);
                    }
                }
            }
            i = i + 1;
        }
        self.pending = kept;
        assert forall|p: Seq<char>| #[trigger] self@.contains(p) == old(self)@.remove(path@).contains(p) by {
            if self@.contains(p) {
                let k = choose|k: int| 0 <= k < kept@.len() && #[trigger] kept@[k]@ == p;
                let j = choose|j: int| 0 <= j < old_pending.len() && (#[trigger] old_pending[j])@ == kept@[k]@;
                assert(old(self)@.contains(p));
            }
            if old(self)@.remove(path@).contains(p) {
                let j = choose|j: int| 0 <= j < old_pending.len() && #[trigger] old_pending[j]@ == p;
                let k = choose|k: int| 0 <= k < kept@.len() && (#[trigger] kept@[k])@ == old_pending[j]@;
                assert(self@.contains(p));
            }
        }
        assert(self@ =~= old(self)@.remove(path@));
    }

    /// Whether event `e` would make its path ready, without feeding it.
    pub fn would_be_ready(&self, e: &RawEvent) -> (r: bool)
        ensures
            r == is_ready(self@, self.policy_spec(), e@),
    {
        !e.is_dir && e.kind == EventKind::ClosedWrite && (self.policy == Policy::Permissive
            || self.is_pending(&e.path))
    }

    /// Feeds one event to the detector; returns whether the event's path is
    /// now ready to act on.
    pub fn on_event(&mut self, e: &RawEvent) -> (ready: bool)
        ensures
            final(self)@ == next_pending(old(self)@, e@),
            ready == is_ready(old(self)@, old(self).policy_spec(), e@),
            final(self).policy_spec() == old(self).policy_spec(),
    {
        if e.is_dir {
            return false;
        }
        match e.kind {
            EventKind::Created => {
                self.insert(&e.path);
                false
            },
            EventKind::ClosedWrite => {
                let was_pending = self.is_pending(&e.path);
                self.remove(&e.path);
                match self.policy {
                    Policy::Permissive => true,
                    Policy::Strict => was_pending,
                }
            },
            EventKind::Other => false,
        }
    }
}

} // verus!
