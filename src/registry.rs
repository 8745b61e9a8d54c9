//! The live registry: the descriptors of the connections armed with the
//! kernel, and the event loop's decisions over it.
use vstd::prelude::*;
use simple_slab::Slab;
use crate::readiness::{classify_event, has_bits, spec_classify, IoEvent, Readiness, CLOSE_EVENTS};
use crate::slab::{slab_get, slab_insert, slab_items, slab_len, slab_remove, slab_with_capacity};

verus! {

/// The registry never grows past this many descriptors.
pub open spec fn capacity_limit() -> nat {
    (usize::MAX / 8) as nat
}

/// `fd` stands in `s` at a position whose flag in `l` is set.
pub open spec fn is_latched_in(s: Seq<i32>, l: Seq<bool>, fd: i32) -> bool {
    exists|i: int| 0 <= i < s.len() && s[i] == fd && #[trigger] l[i]
}

/// `fd` stands in `s` at a position whose flag in `l` is clear.
pub open spec fn is_clear_in(s: Seq<i32>, l: Seq<bool>, fd: i32) -> bool {
    exists|i: int| 0 <= i < s.len() && s[i] == fd && !#[trigger] l[i]
}

/// One readiness event as the kernel reported it.
#[derive(Clone, Copy, Debug, PartialEq, Eq, Structural)]
pub struct ReadyEvent {
    /// The descriptor carried in the event's user data.
    pub fd: i32,
    /// The ready mask.
    pub flags: u32,
}

/// What the event loop does with one readiness event.
#[derive(Clone, Copy, Debug, PartialEq, Eq, Structural)]
pub enum Dispatch {
    /// The descriptor is not live: the event is ignored.
    Unknown(i32),
    /// Latch `ConnectionAborted` on the connection; queue nothing.
    Condemn(i32),
    /// Queue one work item of this kind for the connection.
    Enqueue(i32, IoEvent),
}

pub open spec fn spec_dispatch(live: Seq<i32>, e: ReadyEvent) -> Dispatch {
    if !live.contains(e.fd) {
        Dispatch::Unknown(e.fd)
    } else {
        match spec_classify(e.flags) {
            Readiness::Hangup => Dispatch::Condemn(e.fd),
            Readiness::Ready(ev) => Dispatch::Enqueue(e.fd, ev),
        }
    }
}

/// The outcome of offering a staged connection to the registry.
#[derive(Clone, Copy, Debug, PartialEq, Eq, Structural)]
pub enum Promotion {
    /// The descriptor is now live.
    Inserted,
    /// The descriptor is live already; the registry is unchanged.
    Duplicate,
    /// The registry is at its size limit; it is unchanged.
    Full,
}

/// The outcome of offering `fd` to a registry holding `live`.
pub open spec fn spec_promotion(live: Seq<i32>, fd: i32) -> Promotion {
    if live.contains(fd) {
        Promotion::Duplicate
    } else if live.len() >= capacity_limit() {
        Promotion::Full
    } else {
        Promotion::Inserted
    }
}

/// The registry after offering `fd` to it.
pub open spec fn after_promotion(live: Seq<i32>, fd: i32) -> Seq<i32> {
    if spec_promotion(live, fd) is Inserted {
        live.push(fd)
    } else {
        live
    }
}

/// The registry after offering each of `fds` in turn.
pub open spec fn after_promotions(live: Seq<i32>, fds: Seq<i32>) -> Seq<i32>
    decreases fds.len(),
{
    if fds.len() == 0 {
        live
    } else {
        after_promotion(after_promotions(live, fds.drop_last()), fds.last())
    }
}

/// The descriptors of the connections armed with the kernel. Only the event
/// loop changes it: it inserts on promotion and removes on reaping.
pub struct LiveRegistry {
    slab: Slab<i32>,
}

impl LiveRegistry {
    pub closed spec fn view(&self) -> Seq<i32> {
        slab_items(self.slab)
    }

    /// Each descriptor is live at most once, and the registry stays within
    /// its size limit.
    pub closed spec fn wf(&self) -> bool {
        &&& self@.no_duplicates()
        &&& self@.len() <= capacity_limit()
    }

    /// A well-formed registry holds each descriptor at most once.
    pub proof fn lemma_wf_distinct(&self)
        requires
            self.wf(),
        ensures
            self@.no_duplicates(),
    {
    }

    /// An empty registry with room for `pre_allocated` descriptors.
    pub fn new(pre_allocated: usize) -> (r: Self)
        requires
            pre_allocated <= usize::MAX / 4,
        ensures
            r.wf(),
            r@ == Seq::<i32>::empty(),
            r@.no_duplicates(),
    {
        LiveRegistry { slab: slab_with_capacity(pre_allocated) }
    }

    /// The number of live descriptors.
    pub fn len(&self) -> (r: usize)
        ensures
            r == self@.len(),
    {
        slab_len(&self.slab)
    }

    /// The descriptor in slot `i`.
    pub fn fd_at(&self, i: usize) -> (r: i32)
        requires
            i < self@.len(),
        ensures
            r == self@[i as int],
    {
        slab_get(&self.slab, i)
    }

    /// The slot of the connection with descriptor `fd`, by a scan from the
    /// first slot.
    pub fn find_connection_from_fd(&self, fd: i32) -> (r: Option<usize>)
        ensures
            match r {
                Some(i) => i < self@.len() && self@[i as int] == fd
                    && forall|j: int| 0 <= j < i ==> self@[j] != fd,
                None => !self@.contains(fd),
            },
    {
        let n = slab_len(&self.slab);
        let mut i: usize = 0;
        while i < n
            invariant
                n == self@.len(),
                i <= n,
                forall|j: int| 0 <= j < i ==> self@[j] != fd,
            decreases n - i,
        {
            if slab_get(&self.slab, i) == fd {
                return Some(i);
            }
            i = i + 1;
        }
        None
    }

    /// Whether `fd` is live.
    pub fn contains(&self, fd: i32) -> (r: bool)
        ensures
            r == self@.contains(fd),
    {
        match self.find_connection_from_fd(fd) {
            Some(_) => true,
            None => false,
        }
    }

    /// Promotes a staged connection: its descriptor becomes live unless it
    /// already is, or the registry is at its size limit.
    pub fn insert(&mut self, fd: i32) -> (r: Promotion)
        requires
            old(self).wf(),
        ensures
            final(self).wf(),
            final(self)@.no_duplicates(),
            r == spec_promotion(old(self)@, fd),
            final(self)@ == after_promotion(old(self)@, fd),
    {
        if self.contains(fd) {
            return Promotion::Duplicate;
        }
        if slab_len(&self.slab) >= usize::MAX / 8 {
            return Promotion::Full;
        }
        slab_insert(&mut self.slab, fd);
        proof {
            let s = old(self)@;
            let t = self@;
            assert forall|i: int, j: int| 0 <= i < t.len() && 0 <= j < t.len() && i != j
                implies t[i] != t[j] by {
                if i < s.len() && j < s.len() {
                    assert(s[i] != s[j]);
                } else if i == s.len() {
                    assert(t[i] == fd);
                    assert(t[j] == s[j]);
                } else {
                    assert(t[j] == fd);
                    assert(t[i] == s[i]);
                }
            }
        }
        Promotion::Inserted
    }

    /// Promotes a drained batch of staged connections, in order. Entry `i`
    /// of the result is the outcome for `fds[i]`.
    pub fn insert_new_connections(&mut self, fds: &Vec<i32>) -> (r: Vec<Promotion>)
        requires
            old(self).wf(),
        ensures
            final(self).wf(),
            final(self)@.no_duplicates(),
            final(self)@ == after_promotions(old(self)@, fds@),
            r@.len() == fds@.len(),
            forall|i: int| 0 <= i < fds@.len() ==> r@[i] == spec_promotion(
                after_promotions(old(self)@, fds@.take(i)),
                fds@[i],
            ),
    {
        let ghost start = self@;
        let mut out: Vec<Promotion> = Vec::with_capacity(fds.len());
        let mut i: usize = 0;
        while i < fds.len()
            invariant
                self.wf(),
                i <= fds@.len(),
                self@ == after_promotions(start, fds@.take(i as int)),
                out@.len() == i,
                forall|j: int| 0 <= j < i ==> out@[j] == spec_promotion(
                    after_promotions(start, fds@.take(j)),
                    fds@[j],
                ),
            decreases fds@.len() - i,
        {
            proof {
                let t = fds@.take(i as int + 1);
                assert(t.drop_last() =~= fds@.take(i as int));
                assert(t.last() == fds@[i as int]);
            }
            let p = self.insert(fds[i]);
            out.push(p);
            i = i + 1;
        }
        proof {
            assert(fds@.take(fds@.len() as int) =~= fds@);
        }
        out
    }

    /// Reaps the condemned connections. `latched[i]` tells whether the
    /// connection in slot `i` has a latched error. Each condemned
    /// descriptor is removed (the last slot moves into the freed one) and
    /// returned once, to be closed and reported; every other one stays.
    pub fn remove_stale_connections(&mut self, latched: &Vec<bool>) -> (r: Vec<i32>)
        requires
            old(self).wf(),
            latched@.len() == old(self)@.len(),
        ensures
            final(self).wf(),
            final(self)@.no_duplicates(),
            r@.no_duplicates(),
            forall|fd: i32| #[trigger] final(self)@.contains(fd)
                <==> is_clear_in(old(self)@, latched@, fd),
            forall|fd: i32| #[trigger] r@.contains(fd)
                <==> is_latched_in(old(self)@, latched@, fd),
    {
        let ghost s = self@;
        let ghost l = latched@;
        let mut lat: Vec<bool> = Vec::new();
        let n = slab_len(&self.slab);
        let mut k: usize = 0;
        while k < n
            invariant
                n == s.len(),
                l == latched@,
                l.len() == n,
                k <= n,
                lat@ == l.take(k as int),
            decreases n - k,
        {
            lat.push(latched[k]);
            proof {
                assert(l.take(k as int + 1) =~= l.take(k as int).push(l[k as int]));
            }
            k = k + 1;
        }
        proof {
            assert(l.take(n as int) =~= l);
        }
        let mut gone: Vec<i32> = Vec::new();
        let mut x: usize = 0;
        while x < slab_len(&self.slab)
            invariant
                self.wf(),
                s.no_duplicates(),
                s.len() == l.len(),
                self@.len() == lat@.len(),
                self@.len() + gone@.len() == s.len(),
                x <= self@.len(),
                gone@.no_duplicates(),
                forall|i: int| 0 <= i < self@.len() ==> s.contains(#[trigger] self@[i]),
                forall|i: int| 0 <= i < self@.len()
                    ==> (lat@[i] <==> is_latched_in(s, l, #[trigger] self@[i])),
                forall|i: int| 0 <= i < x ==> !#[trigger] lat@[i],
                forall|fd: i32| s.contains(fd)
                    <==> (self@.contains(fd) || #[trigger] gone@.contains(fd)),
                forall|fd: i32| #[trigger] gone@.contains(fd)
                    ==> is_latched_in(s, l, fd) && !self@.contains(fd),
            decreases 2 * self@.len() - x,
        {
            if lat[x] {
                let ghost cur = self@;
                let ghost gl = gone@;
                let fd = slab_remove(&mut self.slab, x);
                lat.swap_remove(x);
                gone.push(fd);
                proof {
                    let nc = self@;
                    assert(nc =~= cur.update(x as int, cur.last()).drop_last());
                    assert forall|i: int| 0 <= i < nc.len() implies (i == x && nc[i] == cur[cur.len() - 1])
                        || (i != x && nc[i] == cur[i]) by {}
                    assert forall|i: int, j: int| 0 <= i < nc.len() && 0 <= j < nc.len() && i != j
                        implies nc[i] != nc[j] by {
                        let oi = if i == x { cur.len() - 1 } else { i };
                        let oj = if j == x { cur.len() - 1 } else { j };
                        assert(nc[i] == cur[oi] && nc[j] == cur[oj]);
                    }
                    assert(!nc.contains(fd)) by {
                        if nc.contains(fd) {
                            let j = choose|j: int| 0 <= j < nc.len() && nc[j] == fd;
                            let oj = if j == x { cur.len() - 1 } else { j };
                            assert(cur[oj] == fd);
                            assert(cur[x as int] == fd);
                        }
                    }
                    assert(!gl.contains(fd)) by {
                        assert(cur.contains(fd)) by { assert(cur[x as int] == fd); }
                    }
                    assert forall|a: int, b: int| 0 <= a < gone@.len() && 0 <= b < gone@.len() && a != b
                        implies gone@[a] != gone@[b] by {
                        if a < gl.len() && b < gl.len() {
                            assert(gl[a] != gl[b]);
                        } else if a == gl.len() {
                            assert(gl.contains(gone@[b]));
                        } else {
                            assert(gl.contains(gone@[a]));
                        }
                    }
                    assert forall|i: int| 0 <= i < nc.len() implies s.contains(#[trigger] nc[i]) by {
                        let oi = if i == x { cur.len() - 1 } else { i };
                        assert(nc[i] == cur[oi]);
                    }
                    assert forall|fd2: i32| s.contains(fd2)
                        implies (nc.contains(fd2) || #[trigger] gone@.contains(fd2)) by {
                        if fd2 == fd {
                            assert(gone@[gl.len() as int] == fd);
                        } else if gl.contains(fd2) {
                            let j = choose|j: int| 0 <= j < gl.len() && gl[j] == fd2;
                            assert(gone@[j] == fd2);
                        } else {
                            assert(cur.contains(fd2));
                            let j = choose|j: int| 0 <= j < cur.len() && cur[j] == fd2;
                            if j == cur.len() - 1 {
                                if x as int == j {
                                    assert(false);
                                } else {
                                    assert(nc[x as int] == fd2);
                                }
                            } else {
                                assert(j != x);
                                assert(nc[j] == fd2);
                            }
                        }
                    }
                    assert forall|fd2: i32| #[trigger] gone@.contains(fd2)
                        implies s.contains(fd2) by {
                        let j = choose|j: int| 0 <= j < gone@.len() && gone@[j] == fd2;
                        if j < gl.len() {
                            assert(gl[j] == fd2);
                            assert(gl.contains(fd2));
                        } else {
                            assert(cur[x as int] == fd2);
                        }
                    }
                    assert forall|fd2: i32| nc.contains(fd2) implies s.contains(fd2) by {
                        let j = choose|j: int| 0 <= j < nc.len() && nc[j] == fd2;
                        assert(s.contains(nc[j]));
                    }
                    assert forall|fd2: i32| #[trigger] gone@.contains(fd2)
                        implies is_latched_in(s, l, fd2) && !nc.contains(fd2) by {
                        let j = choose|j: int| 0 <= j < gone@.len() && gone@[j] == fd2;
                        if j < gl.len() {
                            assert(gl[j] == fd2);
                            assert(gl.contains(fd2));
                            if nc.contains(fd2) {
                                let q = choose|q: int| 0 <= q < nc.len() && nc[q] == fd2;
                                let oq = if q == x { cur.len() - 1 } else { q };
                                assert(cur[oq] == fd2);
                            }
                        } else {
                            assert(fd2 == fd);
                            assert(lat@.len() == nc.len());
                        }
                    }
                    assert forall|i: int| 0 <= i < nc.len()
                        implies (lat@[i] <==> is_latched_in(s, l, #[trigger] nc[i])) by {
                        let oi = if i == x { cur.len() - 1 } else { i };
                        assert(nc[i] == cur[oi]);
                    }
                }
            } else {
                x = x + 1;
            }
        }
        proof {
            let c = self@;
            assert forall|fd: i32| #[trigger] c.contains(fd) <==> is_clear_in(s, l, fd) by {
                if c.contains(fd) {
                    let i = choose|i: int| 0 <= i < c.len() && c[i] == fd;
                    assert(!lat@[i]);
                    assert(!is_latched_in(s, l, fd));
                    assert(s.contains(fd));
                    let j = choose|j: int| 0 <= j < s.len() && s[j] == fd;
                    assert(!l[j]);
                }
                if is_clear_in(s, l, fd) {
                    let j = choose|j: int| 0 <= j < s.len() && s[j] == fd && !l[j];
                    assert(s.contains(fd));
                    if !c.contains(fd) {
                        assert(gone@.contains(fd));
                        let i = choose|i: int| 0 <= i < s.len() && s[i] == fd && l[i];
                        assert(i == j);
                    }
                }
            }
            assert forall|fd: i32| #[trigger] gone@.contains(fd) <==> is_latched_in(s, l, fd) by {
                if is_latched_in(s, l, fd) {
                    let j = choose|j: int| 0 <= j < s.len() && s[j] == fd && l[j];
                    assert(s.contains(fd));
                    if c.contains(fd) {
                        let i = choose|i: int| 0 <= i < c.len() && c[i] == fd;
                        assert(!lat@[i]);
                    }
                }
            }
        }
        gone
    }

    /// Decides, in order, what to do with each event of a batch: an event
    /// for a descriptor that is not live is ignored; one with an error or
    /// hang-up bit, or with neither the readable nor the writable bit,
    /// condemns its connection; any other queues one work item.
    pub fn update_io_events(&self, events: &Vec<ReadyEvent>) -> (r: Vec<Dispatch>)
        ensures
            r@.len() == events@.len(),
            forall|i: int| 0 <= i < events@.len() ==> r@[i] == spec_dispatch(self@, events@[i]),
    {
        let mut out: Vec<Dispatch> = Vec::with_capacity(events.len());
        let mut i: usize = 0;
        while i < events.len()
            invariant
                i <= events@.len(),
                out@.len() == i,
                forall|j: int| 0 <= j < i ==> out@[j] == spec_dispatch(self@, events@[j]),
            decreases events@.len() - i,
        {
            let e = events[i];
            let d = if !self.contains(e.fd) {
                Dispatch::Unknown(e.fd)
            } else {
                match classify_event(e.flags) {
                    Readiness::Hangup => Dispatch::Condemn(e.fd),
                    Readiness::Ready(ev) => Dispatch::Enqueue(e.fd, ev),
                }
            };
            out.push(d);
            i = i + 1;
        }
        out
    }
}

/// With distinct descriptors, a descriptor is either latched or clear,
/// never both; and each one at a flagged position is latched.
pub proof fn lemma_latched_or_clear(s: Seq<i32>, l: Seq<bool>)
    requires
        s.no_duplicates(),
        l.len() == s.len(),
    ensures
        forall|fd: i32| !(#[trigger] is_latched_in(s, l, fd) && is_clear_in(s, l, fd)),
        forall|i: int| 0 <= i < s.len() && l[i] ==> is_latched_in(s, l, #[trigger] s[i]),
        forall|i: int| 0 <= i < s.len() && !l[i] ==> is_clear_in(s, l, #[trigger] s[i]),
{
    assert forall|fd: i32| !(#[trigger] is_latched_in(s, l, fd) && is_clear_in(s, l, fd)) by {
        if is_latched_in(s, l, fd) && is_clear_in(s, l, fd) {
            let i = choose|i: int| 0 <= i < s.len() && s[i] == fd && l[i];
            let j = choose|j: int| 0 <= j < s.len() && s[j] == fd && !l[j];
            assert(i != j);
        }
    }
}

/// Reaping reports each condemned connection exactly once: a descriptor
/// reaped from `s` is not left live, so a later reaping of what is left
/// (`s2`, whatever its slot order) cannot report it again.
pub proof fn lemma_reaped_once(s: Seq<i32>, l1: Seq<bool>, s2: Seq<i32>, l2: Seq<bool>)
    requires
        s.no_duplicates(),
        l1.len() == s.len(),
        forall|fd: i32| #[trigger] s2.contains(fd) <==> is_clear_in(s, l1, fd),
    ensures
        forall|fd: i32| #[trigger] is_latched_in(s, l1, fd) ==> !s2.contains(fd),
        forall|fd: i32| #[trigger] is_latched_in(s, l1, fd) ==> !is_latched_in(s2, l2, fd),
{
    lemma_latched_or_clear(s, l1);
    assert forall|fd: i32| #[trigger] is_latched_in(s, l1, fd) implies !is_latched_in(s2, l2, fd) by {
        if is_latched_in(s2, l2, fd) {
            let i = choose|i: int| 0 <= i < s2.len() && s2[i] == fd && l2[i];
            assert(s2.contains(fd));
        }
    }
}

/// A connection condemned before it was promoted is reaped by the first
/// reaping after its promotion, and is then no longer live.
pub proof fn lemma_condemned_before_promotion(s: Seq<i32>, fd: i32, l: Seq<bool>)
    requires
        s.no_duplicates(),
        !s.contains(fd),
        l.len() == s.len() + 1,
        l[s.len() as int],
    ensures
        is_latched_in(s.push(fd), l, fd),
        !is_clear_in(s.push(fd), l, fd),
{
    let t = s.push(fd);
    assert forall|i: int, j: int| 0 <= i < t.len() && 0 <= j < t.len() && i != j
        implies t[i] != t[j] by {
        if i < s.len() && j < s.len() {
            assert(s[i] != s[j]);
        } else if i == s.len() {
            assert(t[j] == s[j]);
        } else {
            assert(t[i] == s[i]);
        }
    }
    lemma_latched_or_clear(t, l);
    assert(t[s.len() as int] == fd);
}

/// However many connections a batch promotes, no descriptor is live
/// twice; and while the registry stays under its size limit every
/// descriptor of the batch ends up live.
pub proof fn lemma_promotions_distinct(s: Seq<i32>, fds: Seq<i32>)
    requires
        s.no_duplicates(),
    ensures
        after_promotions(s, fds).no_duplicates(),
        after_promotions(s, fds).len() < capacity_limit() ==> forall|i: int|
            0 <= i < fds.len() ==> after_promotions(s, fds).contains(#[trigger] fds[i]),
    decreases fds.len(),
{
    if fds.len() > 0 {
        let n = fds.len() - 1;
        let q = fds.drop_last();
        let p = after_promotions(s, q);
        let f = after_promotions(s, fds);
        let x = fds.last();
        lemma_promotions_distinct(s, q);
        if !p.contains(x) && p.len() < capacity_limit() {
            assert(f == p.push(x));
            assert forall|a: int, b: int| 0 <= a < f.len() && 0 <= b < f.len() && a != b
                implies f[a] != f[b] by {
                if a < p.len() && b < p.len() {
                    assert(p[a] != p[b]);
                } else if a == p.len() {
                    assert(f[b] == p[b]);
                } else {
                    assert(f[a] == p[a]);
                }
            }
        } else {
            assert(f == p);
        }
        if f.len() < capacity_limit() {
            assert forall|i: int| 0 <= i < fds.len() implies f.contains(#[trigger] fds[i]) by {
                if i < n {
                    assert(q[i] == fds[i]);
                    assert(p.contains(q[i]));
                    let j = choose|j: int| 0 <= j < p.len() && p[j] == q[i];
                    if f != p {
                        assert(f == p.push(x));
                    }
                    assert(f[j] == fds[i]);
                } else if p.contains(x) {
                    let j = choose|j: int| 0 <= j < p.len() && p[j] == x;
                    assert(f == p);
                    assert(f[j] == fds[i]);
                } else {
                    assert(f[p.len() as int] == x);
                }
            }
        }
    }
}

/// A batch of distinct descriptors, none of them live, that fits under the
/// size limit is promoted whole: every one is inserted, and the registry
/// becomes the old one followed by the batch in staging order.
pub proof fn lemma_promotions_append(s: Seq<i32>, fds: Seq<i32>)
    requires
        s.no_duplicates(),
        fds.no_duplicates(),
        forall|i: int| 0 <= i < fds.len() ==> !s.contains(#[trigger] fds[i]),
        s.len() + fds.len() <= capacity_limit(),
    ensures
        after_promotions(s, fds) == s + fds,
        forall|i: int| 0 <= i < fds.len() ==> spec_promotion(
            after_promotions(s, fds.take(i)),
            #[trigger] fds[i],
        ) is Inserted,
    decreases fds.len(),
{
    if fds.len() > 0 {
        let n = fds.len() - 1;
        let q = fds.drop_last();
        let x = fds.last();
        assert forall|i: int| 0 <= i < q.len() implies !s.contains(#[trigger] q[i]) by {
            assert(q[i] == fds[i]);
        }
        lemma_promotions_append(s, q);
        let p = after_promotions(s, q);
        assert(p == s + q);
        assert(!p.contains(x)) by {
            if p.contains(x) {
                let j = choose|j: int| 0 <= j < p.len() && p[j] == x;
                if j < s.len() {
                    assert(s[j] == x);
                    assert(!s.contains(fds[n as int]));
                } else {
                    assert(q[j - s.len()] == fds[j - s.len()]);
                    assert(fds[j - s.len()] == fds[n as int]);
                }
            }
        }
        assert(after_promotions(s, fds) =~= s + fds);
        assert forall|i: int| 0 <= i < fds.len() implies spec_promotion(
            after_promotions(s, fds.take(i)),
            #[trigger] fds[i],
        ) is Inserted by {
            if i < n {
                assert(fds.take(i) =~= q.take(i));
                assert(q[i] == fds[i]);
            } else {
                assert(fds.take(i) =~= q);
            }
        }
    }
}

/// An event for a live descriptor is never dropped: it either condemns the
/// connection or queues exactly one work item.
pub proof fn lemma_live_event_handled(live: Seq<i32>, e: ReadyEvent)
    requires
        live.contains(e.fd),
    ensures
        spec_dispatch(live, e) is Condemn || spec_dispatch(live, e) is Enqueue,
        has_bits(e.flags, CLOSE_EVENTS) ==> spec_dispatch(live, e) == Dispatch::Condemn(e.fd),
{
}

} // verus!
