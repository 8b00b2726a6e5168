//! The registry: the tracked threads, keyed by identifier, with the
//! watermark of the feed poll.
use vstd::prelude::*;
use crate::fields::{Pole, Status};
use crate::fil::{Fil, FilView};
use crate::text::{contains, seq_contains};

verus! {

pub struct Registry {
    fils: Vec<Fil>,
    /// Unix time, in seconds, of the latest feed entry merged so far.
    last_poll_time: i64,
    /// Whether views derived from the registry must be rendered again.
    needs_refresh: bool,
}

pub struct RegistryView {
    pub fils: Seq<FilView>,
    pub last_poll_time: i64,
    pub needs_refresh: bool,
}

impl View for Registry {
    type V = RegistryView;

    closed spec fn view(&self) -> RegistryView {
        RegistryView {
            fils: self.fils@.map_values(|f: Fil| f@),
            last_poll_time: self.last_poll_time,
            needs_refresh: self.needs_refresh,
        }
    }
}

/// Identifiers are unique among the threads.
pub open spec fn ids_unique(fils: Seq<FilView>) -> bool {
    forall|i: int, j: int|
        0 <= i < fils.len() && 0 <= j < fils.len() && i != j ==> #[trigger] fils[i].id
            != #[trigger] fils[j].id
}

/// Whether a thread with identifier `id` is among `fils`.
pub open spec fn has_id(fils: Seq<FilView>, id: u64) -> bool {
    exists|k: int| 0 <= k < fils.len() && #[trigger] fils[k].id == id
}

/// How many threads have a name in which `needle` occurs.
pub open spec fn count_named(fils: Seq<FilView>, needle: Seq<char>) -> nat
    decreases fils.len(),
{
    if fils.len() == 0 {
        0
    } else {
        count_named(fils.drop_last(), needle) + if seq_contains(fils.last().name, needle) {
            1nat
        } else {
            0nat
        }
    }
}

/// The identifiers, in order, of the threads that `keep` selects.
pub open spec fn ids_where(fils: Seq<FilView>, keep: spec_fn(FilView) -> bool) -> Seq<u64>
    decreases fils.len(),
{
    if fils.len() == 0 {
        Seq::empty()
    } else if keep(fils.last()) {
        ids_where(fils.drop_last(), keep).push(fils.last().id)
    } else {
        ids_where(fils.drop_last(), keep)
    }
}

/// Whether a thread has the given status and category, where asked.
pub open spec fn complies(f: FilView, status: Option<Status>, pole: Option<Pole>) -> bool {
    (status is None || status.unwrap() == f.status) && (pole is None || pole.unwrap() == f.pole)
}

impl Registry {
    pub open spec fn wf(&self) -> bool {
        ids_unique(self@.fils)
    }

    /// An empty registry with the given watermark.
    pub fn new(last_poll_time: i64) -> (r: Registry)
        ensures
            r.wf(),
            r@.fils == Seq::<FilView>::empty(),
            r@.last_poll_time == last_poll_time,
            !r@.needs_refresh,
    {
        let r = Registry { fils: Vec::new(), last_poll_time, needs_refresh: false };
        assert(r@.fils =~= Seq::<FilView>::empty());
        r
    }

    /// Unix time, in seconds, of the latest feed entry merged so far.
    pub fn last_poll_time(&self) -> (r: i64)
        ensures
            r == self@.last_poll_time,
    {
        self.last_poll_time
    }

    pub fn needs_refresh(&self) -> (r: bool)
        ensures
            r == self@.needs_refresh,
    {
        self.needs_refresh
    }

    /// Records that derived views were rendered again, or must be.
    pub fn set_needs_refresh(&mut self, b: bool)
        ensures
            final(self)@ == (RegistryView { needs_refresh: b, ..old(self)@ }),
            final(self).wf() == old(self).wf(),
    {
        self.needs_refresh = b;
    }

    /// Closes a poll whose latest entry is dated `latest`: the watermark
    /// moves forward to it (never back), and derived views must be rendered
    /// again.
    pub fn finish_poll(&mut self, latest: i64)
        ensures
            final(self)@ == (RegistryView {
                last_poll_time: if latest > old(self)@.last_poll_time {
                    latest
                } else {
                    old(self)@.last_poll_time
                },
                needs_refresh: true,
                ..old(self)@
            }),
            final(self).wf() == old(self).wf(),
    {
        if latest > self.last_poll_time {
            self.last_poll_time = latest;
        }
        self.needs_refresh = true;
    }

    pub fn len(&self) -> (r: usize)
        ensures
            r == self@.fils.len(),
    {
        self.fils.len()
    }

    pub fn fil_at(&self, i: usize) -> (r: &Fil)
        requires
            i < self@.fils.len(),
        ensures
            r@ == self@.fils[i as int],
    {
        &self.fils[i]
    }

    /// The position of the thread with identifier `id`.
    pub fn position(&self, id: u64) -> (r: Option<usize>)
        ensures
            match r {
                Some(k) => k < self@.fils.len() && self@.fils[k as int].id == id,
                None => !has_id(self@.fils, id),
            },
    {
        let mut i: usize = 0;
        while i < self.fils.len()
            invariant
                i <= self@.fils.len(),
                self@.fils.len() == self.fils@.len(),
                forall|k: int| 0 <= k < i ==> #[trigger] self@.fils[k].id != id,
            decreases self.fils@.len() - i,
        {
            assert(self@.fils[i as int] == self.fils@[i as int]@);
            if self.fils[i].get_id() == id {
                return Some(i);
            }
            i += 1;
        }
        None
    }

    pub fn contains_id(&self, id: u64) -> (r: bool)
        ensures
            r == has_id(self@.fils, id),
    {
        self.position(id).is_some()
    }

    /// The thread with identifier `id`, if any.
    pub fn get(&self, id: u64) -> (r: Option<&Fil>)
        ensures
            match r {
                Some(f) => has_id(self@.fils, id) && f@.id == id && self@.fils.contains(f@),
                None => !has_id(self@.fils, id),
            },
    {
        match self.position(id) {
            Some(k) => {
                assert(self@.fils[k as int] == self.fils@[k as int]@);
                Some(&self.fils[k])
            },
            None => None,
        }
    }

    /// Adds `fil` unless a thread with its identifier is already there; says
    /// whether it was added.
    pub fn insert(&mut self, fil: Fil) -> (r: bool)
        requires
            old(self).wf(),
        ensures
            final(self).wf(),
            r == !has_id(old(self)@.fils, fil@.id),
            r ==> final(self)@ == (RegistryView { fils: old(self)@.fils.push(fil@), ..old(self)@ }),
            !r ==> final(self)@ == old(self)@,
    {
        if self.contains_id(fil.get_id()) {
            false
        } else {
            let ghost before = self@.fils;
            self.fils.push(fil);
            assert(self@.fils =~= before.push(fil@));
            true
        }
    }

    /// Sets the status of the thread at position `k` and marks it changed.
    pub(crate) fn set_status_at(&mut self, k: usize, s: crate::fields::Status)
        requires
            old(self).wf(),
            k < old(self)@.fils.len(),
        ensures
            final(self).wf(),
            final(self)@ == (RegistryView {
                fils: old(self)@.fils.update(
                    k as int,
                    FilView { status: s, modified: true, ..old(self)@.fils[k as int] },
                ),
                ..old(self)@
            }),
    {
        let mut f = self.fils[k].duplicate();
        f.set_status(s);
        f.set_modified(true);
        let ghost before = self@.fils;
        self.fils.set(k, f);
        assert(self@.fils =~= before.update(
            k as int,
            FilView { status: s, modified: true, ..before[k as int] },
        ));
    }

    /// How many threads have a name in which `needle` occurs.
    pub fn count_named(&self, needle: &str) -> (r: usize)
        ensures
            r == count_named(self@.fils, needle@),
    {
        let mut i: usize = 0;
        let mut n: usize = 0;
        while i < self.fils.len()
            invariant
                i <= self@.fils.len(),
                self@.fils.len() == self.fils@.len(),
                n <= i,
                n == count_named(self@.fils.subrange(0, i as int), needle@),
            decreases self.fils@.len() - i,
        {
            let ghost pre = self@.fils.subrange(0, i as int);
            let ghost post = self@.fils.subrange(0, i + 1);
            assert(post.drop_last() =~= pre);
            assert(self@.fils[i as int] == self.fils@[i as int]@);
            if contains(self.fils[i].get_name().as_str(), needle) {
                n += 1;
            }
            i += 1;
        }
        assert(self@.fils.subrange(0, i as int) =~= self@.fils);
        n
    }

    /// The identifiers of the threads whose name holds `needle`, in order.
    pub fn search(&self, needle: &str) -> (r: Vec<u64>)
        ensures
            r@ == ids_where(self@.fils, |f: FilView| seq_contains(f.name, needle@)),
    {
        let ghost keep = |f: FilView| seq_contains(f.name, needle@);
        let mut r: Vec<u64> = Vec::new();
        let mut i: usize = 0;
        while i < self.fils.len()
            invariant
                i <= self@.fils.len(),
                self@.fils.len() == self.fils@.len(),
                keep == (|f: FilView| seq_contains(f.name, needle@)),
                r@ == ids_where(self@.fils.subrange(0, i as int), keep),
            decreases self.fils@.len() - i,
        {
            let ghost pre = self@.fils.subrange(0, i as int);
            let ghost post = self@.fils.subrange(0, i + 1);
            assert(post.drop_last() =~= pre);
            assert(self@.fils[i as int] == self.fils@[i as int]@);
            if contains(self.fils[i].get_name().as_str(), needle) {
                r.push(self.fils[i].get_id());
            }
            i += 1;
        }
        assert(self@.fils.subrange(0, i as int) =~= self@.fils);
        r
    }

    /// The identifiers of the threads with the given status and category,
    /// where asked, in order.
    pub fn matching(&self, status: &Option<Status>, pole: &Option<Pole>) -> (r: Vec<u64>)
        ensures
            r@ == ids_where(self@.fils, |f: FilView| complies(f, *status, *pole)),
    {
        let ghost keep = |f: FilView| complies(f, *status, *pole);
        let mut r: Vec<u64> = Vec::new();
        let mut i: usize = 0;
        while i < self.fils.len()
            invariant
                i <= self@.fils.len(),
                self@.fils.len() == self.fils@.len(),
                keep == (|f: FilView| complies(f, *status, *pole)),
                r@ == ids_where(self@.fils.subrange(0, i as int), keep),
            decreases self.fils@.len() - i,
        {
            let ghost pre = self@.fils.subrange(0, i as int);
            let ghost post = self@.fils.subrange(0, i + 1);
            assert(post.drop_last() =~= pre);
            assert(self@.fils[i as int] == self.fils@[i as int]@);
            let f = &self.fils[i];
            if Status::comply_with(f, status) && Pole::comply_with(f, pole) {
                r.push(f.get_id());
            }
            i += 1;
        }
        assert(self@.fils.subrange(0, i as int) =~= self@.fils);
        r
    }

    /// Puts `fil` in the registry, in place of the thread with the same
    /// identifier if there is one, else at the end.
    pub fn put(&mut self, fil: Fil)
        requires
            old(self).wf(),
        ensures
            final(self).wf(),
            has_id(old(self)@.fils, fil@.id) ==> exists|k: int|
                0 <= k < old(self)@.fils.len() && #[trigger] old(self)@.fils[k].id == fil@.id
                    && final(self)@ == (RegistryView { fils: old(self)@.fils.update(k, fil@), ..old(self)@ }),
            !has_id(old(self)@.fils, fil@.id) ==> final(self)@ == (RegistryView {
                fils: old(self)@.fils.push(fil@),
                ..old(self)@
            }),
    {
        match self.position(fil.get_id()) {
            Some(k) => {
                let ghost before = self@.fils;
                let ghost fv = fil@;
                self.fils.set(k, fil);
                assert(self@.fils =~= before.update(k as int, fv));
            },
            None => {
                self.insert(fil);
            },
        }
    }
}

} // verus!
