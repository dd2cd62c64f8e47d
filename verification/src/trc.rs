//! Biased reference counting (`Trc`): a count per thread of the pointers
//! that thread holds, and an atomic count of the threads that share the
//! data.
//!
//! The shared records and the per-thread records live in a heap owned by
//! the caller; a pointer is the number of its per-thread record. The heap
//! keeps each shared record's count equal to the number of live per-thread
//! records that point to it, and frees the data with the last of them.
use vstd::prelude::*;

verus! {

/// The shared part: the number of threads using the data, and the data.
pub struct AtomicThreadTrc<T> {
    pub atomicref: usize,
    pub data: T,
}

/// The part of one thread: the shared record it uses and how many pointers
/// the thread holds.
#[derive(Clone, Copy)]
pub struct LocalThreadTrc {
    pub atomicref: usize,
    pub threadref: usize,
}

/// The records of thread-reference-counted values.
pub struct TrcHeap<T> {
    pub shared: Vec<Option<AtomicThreadTrc<T>>>,
    pub locals: Vec<Option<LocalThreadTrc>>,
}

/// A pointer: the number of its per-thread record.
pub struct Trc {
    pub data: usize,
}

/// 1 when `x` is a live per-thread record of the shared record `a`.
pub open spec fn uses(x: Option<LocalThreadTrc>, a: usize) -> nat {
    match x {
        Some(l) => if l.atomicref == a {
            1nat
        } else {
            0nat
        },
        None => 0nat,
    }
}

/// The number of live per-thread records of the shared record `a`.
pub open spec fn users(ls: Seq<Option<LocalThreadTrc>>, a: usize) -> nat
    decreases ls.len(),
{
    if ls.len() == 0 {
        0
    } else {
        users(ls.drop_last(), a) + uses(ls.last(), a)
    }
}

proof fn lemma_users_push(ls: Seq<Option<LocalThreadTrc>>, x: Option<LocalThreadTrc>, a: usize)
    ensures
        users(ls.push(x), a) == users(ls, a) + uses(x, a),
{
    assert(ls.push(x).drop_last() =~= ls);
}

proof fn lemma_users_update(ls: Seq<Option<LocalThreadTrc>>, j: int, x: Option<LocalThreadTrc>, a: usize)
    requires
        0 <= j < ls.len(),
    ensures
        users(ls.update(j, x), a) + uses(ls[j], a) == users(ls, a) + uses(x, a),
    decreases ls.len(),
{
    if j < ls.len() - 1 {
        lemma_users_update(ls.drop_last(), j, x, a);
        assert(ls.update(j, x).drop_last() =~= ls.drop_last().update(j, x));
    } else {
        assert(ls.update(j, x).drop_last() =~= ls.drop_last());
    }
}

proof fn lemma_users_none(ls: Seq<Option<LocalThreadTrc>>, a: usize)
    requires
        forall|j: int| 0 <= j < ls.len() ==> uses(#[trigger] ls[j], a) == 0,
    ensures
        users(ls, a) == 0,
    decreases ls.len(),
{
    if ls.len() > 0 {
        lemma_users_none(ls.drop_last(), a);
        assert(uses(ls[ls.len() - 1], a) == 0);
    }
}

impl<T> TrcHeap<T> {
    /// Every live per-thread record holds at least one pointer and uses a
    /// live shared record; every live shared record counts exactly the live
    /// per-thread records that use it, and at least one does.
    pub open spec fn wf(&self) -> bool {
        &&& forall|j: int|
            0 <= j < self.locals.len() && (#[trigger] self.locals@[j]) is Some ==> {
                let l = self.locals@[j]->Some_0;
                &&& l.threadref >= 1
                &&& l.atomicref < self.shared.len()
                &&& self.shared@[l.atomicref as int] is Some
            }
        &&& forall|a: int|
            0 <= a < self.shared.len() && (#[trigger] self.shared@[a]) is Some ==> {
                &&& self.shared@[a]->Some_0.atomicref == users(self.locals@, a as usize)
                &&& self.shared@[a]->Some_0.atomicref >= 1
            }
    }

    /// `t` is a pointer whose per-thread record is live.
    pub open spec fn valid(&self, t: &Trc) -> bool {
        t.data < self.locals.len() && self.locals@[t.data as int] is Some
    }

    pub open spec fn local(&self, t: &Trc) -> LocalThreadTrc {
        self.locals@[t.data as int]->Some_0
    }

    pub open spec fn atomic(&self, t: &Trc) -> AtomicThreadTrc<T> {
        self.shared@[self.local(t).atomicref as int]->Some_0
    }

    /// A heap with no records.
    pub fn new() -> (h: TrcHeap<T>)
        ensures
            h.wf(),
            h.shared@.len() == 0,
            h.locals@.len() == 0,
    {
        TrcHeap { shared: Vec::new(), locals: Vec::new() }
    }

    fn take_shared(&mut self, a: usize) -> (r: Option<AtomicThreadTrc<T>>)
        requires
            a < old(self).shared.len(),
        ensures
            r == old(self).shared@[a as int],
            final(self).shared@ == old(self).shared@.update(a as int, None),
            final(self).locals@ == old(self).locals@,
    {
        let r = self.shared.remove(a);
        self.shared.insert(a, None);
        proof {
            assert(self.shared@ =~= old(self).shared@.update(a as int, None));
        }
        r
    }
}

impl Trc {
    /// A new value with one pointer, used by one thread (`Trc::new`).
    pub fn new<T>(heap: &mut TrcHeap<T>, value: T) -> (t: Trc)
        requires
            old(heap).wf(),
        ensures
            final(heap).wf(),
            final(heap).valid(&t),
            final(heap).local(&t).threadref == 1,
            final(heap).atomic(&t).atomicref == 1,
            final(heap).atomic(&t).data == value,
            final(heap).local(&t).atomicref == old(heap).shared.len(),
    {
        let a: usize = heap.shared.len();
        proof {
            assert forall|j: int| 0 <= j < heap.locals@.len() implies uses(#[trigger] heap.locals@[j], a) == 0 by {
                if heap.locals@[j] is Some {
                    assert(heap.locals@[j]->Some_0.atomicref < a);
                }
            }
            lemma_users_none(heap.locals@, a);
        }
        heap.shared.push(Some(AtomicThreadTrc { atomicref: 1, data: value }));
        let j: usize = heap.locals.len();
        let rec = LocalThreadTrc { atomicref: a, threadref: 1 };
        proof {
            assert forall|b: usize| #![trigger users(heap.locals@.push(Some(rec)), b)]
                users(heap.locals@.push(Some(rec)), b) == users(heap.locals@, b) + uses(Some(rec), b) by {
                lemma_users_push(heap.locals@, Some(rec), b);
            }
        }
        heap.locals.push(Some(rec));
        proof {
            assert forall|b: int| 0 <= b < heap.shared.len() && (#[trigger] heap.shared@[b]) is Some implies {
                &&& heap.shared@[b]->Some_0.atomicref == users(heap.locals@, b as usize)
                &&& heap.shared@[b]->Some_0.atomicref >= 1
            } by {
                assert(users(heap.locals@, b as usize) == users(old(heap).locals@, b as usize) + uses(Some(rec), b as usize));
            }
        }
        Trc { data: j }
    }

    /// How many pointers of this thread share the data (`Trc::thread_count`).
    pub fn thread_count<T>(heap: &TrcHeap<T>, this: &Trc) -> (r: usize)
        requires
            heap.valid(this),
        ensures
            r == heap.local(this).threadref,
    {
        match heap.locals[this.data] {
            Some(l) => l.threadref,
            None => 0,
        }
    }

    /// How many threads use the data (`Trc::atomic_count`).
    pub fn atomic_count<T>(heap: &TrcHeap<T>, this: &Trc) -> (r: usize)
        requires
            heap.wf(),
            heap.valid(this),
        ensures
            r == heap.atomic(this).atomicref,
            r == users(heap.locals@, heap.local(this).atomicref),
    {
        let a = match heap.locals[this.data] {
            Some(l) => l.atomicref,
            None => 0,
        };
        match &heap.shared[a] {
            Some(s) => s.atomicref,
            None => 0,
        }
    }

    /// Whether two pointers share the data (`Trc::ptr_eq`).
    pub fn ptr_eq<T>(heap: &TrcHeap<T>, this: &Trc, other: &Trc) -> (r: bool)
        requires
            heap.valid(this),
            heap.valid(other),
        ensures
            r == (heap.local(this).atomicref == heap.local(other).atomicref),
    {
        let a = match heap.locals[this.data] {
            Some(l) => l.atomicref,
            None => 0,
        };
        let b = match heap.locals[other.data] {
            Some(l) => l.atomicref,
            None => 0,
        };
        a == b
    }

    /// The shared record of the data (`Trc::as_ptr`).
    pub fn as_ptr<T>(heap: &TrcHeap<T>, this: &Trc) -> (r: usize)
        requires
            heap.valid(this),
        ensures
            r == heap.local(this).atomicref,
    {
        match heap.locals[this.data] {
            Some(l) => l.atomicref,
            None => 0,
        }
    }

    /// The data (`Deref::deref`).
    pub fn get<'a, T>(heap: &'a TrcHeap<T>, this: &Trc) -> (r: &'a T)
        requires
            heap.wf(),
            heap.valid(this),
        ensures
            *r == heap.atomic(this).data,
    {
        let a = match heap.locals[this.data] {
            Some(l) => l.atomicref,
            None => 0,
        };
        match &heap.shared[a] {
            Some(s) => &s.data,
            None => vstd::pervasive::unreached(),
        }
    }

    /// Replaces the data, for every pointer that shares it (`DerefMut`).
    pub fn set<T>(heap: &mut TrcHeap<T>, this: &Trc, value: T)
        requires
            old(heap).wf(),
            old(heap).valid(this),
        ensures
            final(heap).wf(),
            final(heap).locals@ == old(heap).locals@,
            final(heap).shared@ == old(heap).shared@.update(
                old(heap).local(this).atomicref as int,
                Some(AtomicThreadTrc { atomicref: old(heap).atomic(this).atomicref, data: value }),
            ),
    {
        let a = match heap.locals[this.data] {
            Some(l) => l.atomicref,
            None => 0,
        };
        let n = match heap.take_shared(a) {
            Some(s) => s.atomicref,
            None => 0,
        };
        heap.shared.set(a, Some(AtomicThreadTrc { atomicref: n, data: value }));
    }

    /// Another pointer of this thread (`Clone::clone`): the thread's count
    /// goes up by one.
    pub fn clone_local<T>(heap: &mut TrcHeap<T>, this: &Trc) -> (r: Trc)
        requires
            old(heap).wf(),
            old(heap).valid(this),
            old(heap).local(this).threadref < usize::MAX,
        ensures
            final(heap).wf(),
            r.data == this.data,
            final(heap).shared@ == old(heap).shared@,
            final(heap).locals@ == old(heap).locals@.update(
                this.data as int,
                Some(LocalThreadTrc { threadref: (old(heap).local(this).threadref + 1) as usize, ..old(heap).local(this) }),
            ),
    {
        let l = match heap.locals[this.data] {
            Some(l) => l,
            None => LocalThreadTrc { atomicref: 0, threadref: 0 },
        };
        let rec = LocalThreadTrc { atomicref: l.atomicref, threadref: l.threadref + 1 };
        proof {
            assert forall|b: usize| #![trigger users(heap.locals@.update(this.data as int, Some(rec)), b)]
                users(heap.locals@.update(this.data as int, Some(rec)), b) == users(heap.locals@, b) by {
                lemma_users_update(heap.locals@, this.data as int, Some(rec), b);
            }
        }
        heap.locals.set(this.data, Some(rec));
        proof {
            assert forall|b: int| 0 <= b < heap.shared.len() && (#[trigger] heap.shared@[b]) is Some implies {
                &&& heap.shared@[b]->Some_0.atomicref == users(heap.locals@, b as usize)
                &&& heap.shared@[b]->Some_0.atomicref >= 1
            } by {
                assert(users(heap.locals@, b as usize) == users(old(heap).locals@, b as usize));
            }
        }
        Trc { data: this.data }
    }

    /// A pointer for another thread (`Trc::clone_across_thread`): a new
    /// per-thread record with one pointer, and one more thread sharing the
    /// data.
    pub fn clone_across_thread<T>(heap: &mut TrcHeap<T>, this: &Trc) -> (r: Trc)
        requires
            old(heap).wf(),
            old(heap).valid(this),
            old(heap).atomic(this).atomicref < usize::MAX,
        ensures
            final(heap).wf(),
            final(heap).valid(&r),
            r.data == old(heap).locals.len(),
            final(heap).local(&r) == (LocalThreadTrc { atomicref: old(heap).local(this).atomicref, threadref: 1 }),
            final(heap).locals@ == old(heap).locals@.push(Some(final(heap).local(&r))),
            final(heap).shared@ == old(heap).shared@.update(
                old(heap).local(this).atomicref as int,
                Some(AtomicThreadTrc { atomicref: (old(heap).atomic(this).atomicref + 1) as usize, ..old(heap).atomic(this) }),
            ),
    {
        let a = match heap.locals[this.data] {
            Some(l) => l.atomicref,
            None => 0,
        };
        let s = heap.take_shared(a);
        match s {
            Some(s) => {
                heap.shared.set(a, Some(AtomicThreadTrc { atomicref: s.atomicref + 1, data: s.data }));
            },
            None => {},
        }
        let j: usize = heap.locals.len();
        let rec = LocalThreadTrc { atomicref: a, threadref: 1 };
        proof {
            assert forall|b: usize| #![trigger users(heap.locals@.push(Some(rec)), b)]
                users(heap.locals@.push(Some(rec)), b) == users(heap.locals@, b) + uses(Some(rec), b) by {
                lemma_users_push(heap.locals@, Some(rec), b);
            }
        }
        heap.locals.push(Some(rec));
        proof {
            assert forall|b: int| 0 <= b < heap.shared.len() && (#[trigger] heap.shared@[b]) is Some implies {
                &&& heap.shared@[b]->Some_0.atomicref == users(heap.locals@, b as usize)
                &&& heap.shared@[b]->Some_0.atomicref >= 1
            } by {
                assert(users(heap.locals@, b as usize) == users(old(heap).locals@, b as usize) + uses(Some(rec), b as usize));
            }
        }
        Trc { data: j }
    }

    /// Gives up a pointer (`Drop::drop`): the thread's count goes down;
    /// with the thread's last pointer the thread stops sharing the data, and
    /// with the last thread the data is freed.
    pub fn drop<T>(heap: &mut TrcHeap<T>, this: Trc)
        requires
            old(heap).wf(),
            old(heap).valid(&this),
        ensures
            final(heap).wf(),
            old(heap).local(&this).threadref > 1 ==> final(heap).shared@ == old(heap).shared@ && final(heap).locals@
                == old(heap).locals@.update(
                this.data as int,
                Some(LocalThreadTrc { threadref: (old(heap).local(&this).threadref - 1) as usize, ..old(heap).local(&this) }),
            ),
            old(heap).local(&this).threadref == 1 ==> {
                &&& final(heap).locals@ == old(heap).locals@.update(this.data as int, None)
                &&& final(heap).shared@ == old(heap).shared@.update(
                    old(heap).local(&this).atomicref as int,
                    if old(heap).atomic(&this).atomicref > 1 {
                        Some(AtomicThreadTrc { atomicref: (old(heap).atomic(&this).atomicref - 1) as usize, ..old(heap).atomic(&this) })
                    } else {
                        None
                    },
                )
            },
    {
        let l = match heap.locals[this.data] {
            Some(l) => l,
            None => LocalThreadTrc { atomicref: 0, threadref: 0 },
        };
        if l.threadref > 1 {
            let rec = LocalThreadTrc { atomicref: l.atomicref, threadref: l.threadref - 1 };
            proof {
                assert forall|b: usize| #![trigger users(heap.locals@.update(this.data as int, Some(rec)), b)]
                    users(heap.locals@.update(this.data as int, Some(rec)), b) == users(heap.locals@, b) by {
                    lemma_users_update(heap.locals@, this.data as int, Some(rec), b);
                }
            }
            heap.locals.set(this.data, Some(rec));
            proof {
                assert forall|b: int| 0 <= b < heap.shared.len() && (#[trigger] heap.shared@[b]) is Some implies {
                    &&& heap.shared@[b]->Some_0.atomicref == users(heap.locals@, b as usize)
                    &&& heap.shared@[b]->Some_0.atomicref >= 1
                } by {
                    assert(users(heap.locals@, b as usize) == users(old(heap).locals@, b as usize));
                }
            }
            return;
        }
        let a = l.atomicref;
        proof {
            assert forall|b: usize| #![trigger users(heap.locals@.update(this.data as int, None), b)]
                users(heap.locals@.update(this.data as int, None), b) + uses(heap.locals@[this.data as int], b)
                    == users(heap.locals@, b) by {
                lemma_users_update(heap.locals@, this.data as int, None, b);
            }
        }
        heap.locals.set(this.data, None);
        let s = heap.take_shared(a);
        match s {
            Some(s) => {
                if s.atomicref > 1 {
                    heap.shared.set(a, Some(AtomicThreadTrc { atomicref: s.atomicref - 1, data: s.data }));
                }
            },
            None => {},
        }
        proof {
            assert forall|b: int| 0 <= b < heap.shared.len() && (#[trigger] heap.shared@[b]) is Some implies {
                &&& heap.shared@[b]->Some_0.atomicref == users(heap.locals@, b as usize)
                &&& heap.shared@[b]->Some_0.atomicref >= 1
            } by {
                assert(users(heap.locals@, b as usize) + uses(old(heap).locals@[this.data as int], b as usize)
                    == users(old(heap).locals@, b as usize));
            }
            assert forall|j: int| 0 <= j < heap.locals.len() && (#[trigger] heap.locals@[j]) is Some implies {
                let l = heap.locals@[j]->Some_0;
                &&& l.threadref >= 1
                &&& l.atomicref < heap.shared.len()
                &&& heap.shared@[l.atomicref as int] is Some
            } by {
                let l2 = heap.locals@[j]->Some_0;
                if l2.atomicref == a {
                    // Another user of `a` remains, so `a` had more than one.
                    lemma_users_update(old(heap).locals@, this.data as int, None, a);
                    lemma_users_positive(heap.locals@, j, a);
                }
            }
        }
    }
}

proof fn lemma_users_positive(ls: Seq<Option<LocalThreadTrc>>, j: int, a: usize)
    requires
        0 <= j < ls.len(),
        uses(ls[j], a) == 1,
    ensures
        users(ls, a) >= 1,
    decreases ls.len(),
{
    if j < ls.len() - 1 {
        lemma_users_positive(ls.drop_last(), j, a);
    }
}

/// A pointer cloned in its thread and given up again leaves the thread's
/// record as it was (`clone_local` then `drop`): the thread count goes up
/// by one and back down.
pub proof fn law_clone_local_then_drop(l: LocalThreadTrc)
    requires
        1 <= l.threadref < usize::MAX,
    ensures
        ({
            let cloned = LocalThreadTrc { threadref: (l.threadref + 1) as usize, ..l };
            &&& cloned.threadref > 1
            &&& (LocalThreadTrc { threadref: (cloned.threadref - 1) as usize, ..cloned }) == l
        }),
{
}

/// Adding a per-thread record of the shared record `a` adds one to the
/// number of threads using it, and dropping it takes that one away again.
pub proof fn law_threads_counted(ls: Seq<Option<LocalThreadTrc>>, a: usize)
    ensures
        users(ls.push(Some(LocalThreadTrc { atomicref: a, threadref: 1 })), a) == users(ls, a) + 1,
        users(ls.push(Some(LocalThreadTrc { atomicref: a, threadref: 1 })).update(ls.len() as int, None), a)
            == users(ls, a),
{
    let rec = Some(LocalThreadTrc { atomicref: a, threadref: 1 });
    lemma_users_push(ls, rec, a);
    lemma_users_update(ls.push(rec), ls.len() as int, None, a);
}

} // verus!
