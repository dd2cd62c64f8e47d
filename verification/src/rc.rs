//! Reference counting with strong and weak pointers (`Mrc`, `Weak`).
//!
//! The shared boxes live in a heap owned by the caller; a pointer is the
//! number of its box. A box holds a strong count, a weak count that
//! includes one for all the strong pointers together while any lives, and
//! the value while any strong pointer lives. A box is freed when its weak
//! count reaches 0.
use vstd::prelude::*;

verus! {

/// A shared box: its counts and, while a strong pointer lives, its value.
pub struct MrcBox<T> {
    pub strong: usize,
    pub weak: usize,
    pub value: Option<T>,
}

/// The boxes of reference-counted values.
pub struct MrcHeap<T> {
    pub boxes: Vec<Option<MrcBox<T>>>,
}

/// A strong pointer.
pub struct Mrc {
    pub ptr: usize,
}

/// A weak pointer; `None` for one made by `Weak::new`, which points
/// nowhere.
pub struct Weak {
    pub ptr: Option<usize>,
}

impl<T> MrcHeap<T> {
    /// Every live box has a weak count of at least 1; it holds its value
    /// exactly while its strong count is positive, and then its weak count
    /// is above the strong pointers' shared one.
    pub open spec fn wf(&self) -> bool {
        forall|i: int|
            0 <= i < self.boxes.len() && (#[trigger] self.boxes@[i]) is Some ==> {
                let b = self.boxes@[i]->Some_0;
                &&& b.weak >= 1
                &&& (b.strong > 0 <==> b.value is Some)
            }
    }

    pub open spec fn live(&self, p: usize) -> bool {
        p < self.boxes.len() && self.boxes@[p as int] is Some
    }

    pub open spec fn boxed(&self, p: usize) -> MrcBox<T> {
        self.boxes@[p as int]->Some_0
    }

    /// `m` is a strong pointer into a box that has one.
    pub open spec fn valid(&self, m: &Mrc) -> bool {
        self.live(m.ptr) && self.boxed(m.ptr).strong > 0
    }

    /// `w` points nowhere, or into a live box.
    pub open spec fn valid_weak(&self, w: &Weak) -> bool {
        w.ptr matches Some(p) ==> self.live(p)
    }

    /// A heap with no boxes.
    pub fn new() -> (h: MrcHeap<T>)
        ensures
            h.wf(),
            h.boxes@.len() == 0,
    {
        MrcHeap { boxes: Vec::new() }
    }

    /// Takes box `p` out, leaving its slot empty.
    fn take_box(&mut self, p: usize) -> (b: Option<MrcBox<T>>)
        requires
            p < old(self).boxes.len(),
        ensures
            b == old(self).boxes@[p as int],
            final(self).boxes@ == old(self).boxes@.update(p as int, None),
    {
        let b = self.boxes.remove(p);
        self.boxes.insert(p, None);
        proof {
            assert(self.boxes@ =~= old(self).boxes@.update(p as int, None));
        }
        b
    }

    fn set_counts(&mut self, p: usize, strong: usize, weak: usize)
        requires
            old(self).live(p),
        ensures
            final(self).boxes@ == old(self).boxes@.update(
                p as int,
                Some(MrcBox { strong, weak, value: old(self).boxed(p).value }),
            ),
    {
        let b = self.take_box(p);
        match b {
            Some(b) => {
                self.boxes.set(p, Some(MrcBox { strong, weak, value: b.value }));
                proof {
                    assert(self.boxes@ =~= old(self).boxes@.update(
                        p as int,
                        Some(MrcBox { strong, weak, value: old(self).boxed(p).value }),
                    ));
                }
            },
            None => {},
        }
    }
}

impl Mrc {
    /// A new box holding `value`, with one strong pointer (`Mrc::new`).
    pub fn new<T>(heap: &mut MrcHeap<T>, value: T) -> (m: Mrc)
        requires
            old(heap).wf(),
        ensures
            final(heap).wf(),
            final(heap).boxes@ == old(heap).boxes@.push(Some(MrcBox { strong: 1, weak: 1, value: Some(value) })),
            m.ptr == old(heap).boxes@.len(),
    {
        let p: usize = heap.boxes.len();
        heap.boxes.push(Some(MrcBox { strong: 1, weak: 1, value: Some(value) }));
        Mrc { ptr: p }
    }

    /// The number of strong pointers to the box (`Mrc::strong_count`).
    pub fn strong_count<T>(heap: &MrcHeap<T>, this: &Mrc) -> (r: usize)
        requires
            heap.valid(this),
        ensures
            r == heap.boxed(this.ptr).strong,
    {
        match &heap.boxes[this.ptr] {
            Some(b) => b.strong,
            None => 0,
        }
    }

    /// The number of weak pointers to the box (`Mrc::weak_count`): its weak
    /// count less the strong pointers' shared one.
    pub fn weak_count<T>(heap: &MrcHeap<T>, this: &Mrc) -> (r: usize)
        requires
            heap.wf(),
            heap.valid(this),
        ensures
            r == heap.boxed(this.ptr).weak - 1,
    {
        assert(heap.boxes@[this.ptr as int] is Some);
        match &heap.boxes[this.ptr] {
            Some(b) => b.weak - 1,
            None => 0,
        }
    }

    /// Whether two pointers share a box (`Mrc::ptr_eq`).
    pub fn ptr_eq(this: &Mrc, other: &Mrc) -> (r: bool)
        ensures
            r == (this.ptr == other.ptr),
    {
        this.ptr == other.ptr
    }

    /// The box of the pointer, which is given up without a change of count
    /// (`Mrc::into_raw`).
    pub fn into_raw(this: Mrc) -> (r: usize)
        ensures
            r == this.ptr,
    {
        this.ptr
    }

    /// Another strong pointer to the same box (`Clone::clone`).
    pub fn clone_ptr<T>(heap: &mut MrcHeap<T>, this: &Mrc) -> (r: Mrc)
        requires
            old(heap).wf(),
            old(heap).valid(this),
            old(heap).boxed(this.ptr).strong < usize::MAX,
        ensures
            final(heap).wf(),
            r.ptr == this.ptr,
            final(heap).boxes@ == old(heap).boxes@.update(
                this.ptr as int,
                Some(MrcBox { strong: (old(heap).boxed(this.ptr).strong + 1) as usize, ..old(heap).boxed(this.ptr) }),
            ),
    {
        let (s, w) = match &heap.boxes[this.ptr] {
            Some(b) => (b.strong, b.weak),
            None => (0, 0),
        };
        heap.set_counts(this.ptr, s + 1, w);
        Mrc { ptr: this.ptr }
    }

    /// Whether this is the only pointer, strong or weak, to its box.
    fn is_unique<T>(heap: &MrcHeap<T>, this: &Mrc) -> (r: bool)
        requires
            heap.wf(),
            heap.valid(this),
        ensures
            r == (heap.boxed(this.ptr).strong == 1 && heap.boxed(this.ptr).weak == 1),
    {
        Mrc::strong_count(heap, this) == 1 && Mrc::weak_count(heap, this) == 0
    }

    /// Access to the value for change, when this is the only pointer to its
    /// box, strong or weak (`Mrc::get_mut`); else `None`.
    pub fn get_mut<'a, T>(heap: &'a mut MrcHeap<T>, this: &Mrc) -> (r: Option<&'a mut T>)
        requires
            old(heap).wf(),
            old(heap).valid(this),
        ensures
            final(heap).wf(),
            (old(heap).boxed(this.ptr).strong == 1 && old(heap).boxed(this.ptr).weak == 1) ==> {
                &&& r is Some
                &&& *r->Some_0 == old(heap).boxed(this.ptr).value->Some_0
                &&& final(heap).boxes@ == old(heap).boxes@.update(
                    this.ptr as int,
                    Some(MrcBox { value: Some(*final(r->Some_0)), ..old(heap).boxed(this.ptr) }),
                )
            },
            !(old(heap).boxed(this.ptr).strong == 1 && old(heap).boxed(this.ptr).weak == 1) ==> r is None
                && final(heap).boxes@ == old(heap).boxes@,
    {
        if !Mrc::is_unique(heap, this) {
            return None;
        }
        match &mut heap.boxes[this.ptr] {
            Some(b) => match &mut b.value {
                Some(v) => Some(v),
                None => None,
            },
            None => None,
        }
    }

    /// Access to the value for change, first moving it to a box of its own
    /// when other pointers share the box (`Mrc::make_mut`): with other strong
    /// pointers the value is cloned into a new box; with weak pointers only,
    /// it moves to a new box and they are left pointing at an empty one.
    pub fn make_mut<'a, T: Clone>(heap: &'a mut MrcHeap<T>, this: &mut Mrc) -> (r: &'a mut T)
        requires
            old(heap).wf(),
            old(heap).valid(old(this)),
        ensures
            final(heap).wf(),
            final(heap).valid(final(this)),
            ({
                let b = old(heap).boxed(old(this).ptr);
                if b.strong == 1 && b.weak == 1 {
                    &&& *final(this) == *old(this)
                    &&& *r == b.value->Some_0
                    &&& final(heap).boxes@ == old(heap).boxes@.update(
                        old(this).ptr as int,
                        Some(MrcBox { value: Some(*final(r)), ..b }),
                    )
                } else {
                    &&& final(this).ptr == old(heap).boxes@.len()
                    &&& (b.strong == 1 ==> *r == b.value->Some_0)
                    &&& (b.strong != 1 ==> cloned(b.value->Some_0, *r))
                    &&& final(heap).boxes@ == old(heap).boxes@.update(
                        old(this).ptr as int,
                        after_strong_drop(b),
                    ).push(Some(MrcBox { strong: 1, weak: 1, value: Some(*final(r)) }))
                }
            }),
    {
        let p = this.ptr;
        if !Mrc::is_unique(heap, this) {
            let shared = Mrc::strong_count(heap, this) != 1;
            let v: T = if shared {
                let c = match &heap.boxes[p] {
                    Some(b) => match &b.value {
                        Some(v) => v.clone(),
                        None => vstd::pervasive::unreached(),
                    },
                    None => vstd::pervasive::unreached(),
                };
                Mrc::drop(heap, Mrc { ptr: p });
                c
            } else {
                match heap.take_box(p) {
                    Some(b) => {
                        heap.boxes.set(p, Some(MrcBox { strong: 0, weak: b.weak - 1, value: None }));
                        match b.value {
                            Some(v) => v,
                            None => vstd::pervasive::unreached(),
                        }
                    },
                    None => vstd::pervasive::unreached(),
                }
            };
            let n: usize = heap.boxes.len();
            heap.boxes.push(Some(MrcBox { strong: 1, weak: 1, value: Some(v) }));
            *this = Mrc { ptr: n };
        }
        match &mut heap.boxes[this.ptr] {
            Some(b) => match &mut b.value {
                Some(v) => v,
                None => vstd::pervasive::unreached(),
            },
            None => vstd::pervasive::unreached(),
        }
    }

    /// A weak pointer to the box (`Mrc::downgrade`).
    pub fn downgrade<T>(heap: &mut MrcHeap<T>, this: &Mrc) -> (r: Weak)
        requires
            old(heap).wf(),
            old(heap).valid(this),
            old(heap).boxed(this.ptr).weak < usize::MAX,
        ensures
            final(heap).wf(),
            r.ptr == Some(this.ptr),
            final(heap).boxes@ == old(heap).boxes@.update(
                this.ptr as int,
                Some(MrcBox { weak: (old(heap).boxed(this.ptr).weak + 1) as usize, ..old(heap).boxed(this.ptr) }),
            ),
    {
        let (s, w) = match &heap.boxes[this.ptr] {
            Some(b) => (b.strong, b.weak),
            None => (0, 0),
        };
        heap.set_counts(this.ptr, s, w + 1);
        Weak { ptr: Some(this.ptr) }
    }
}

/// The box after one strong pointer goes: its strong count less one; when
/// that was the last, its value dropped and the shared weak count given
/// up, the box freed if no weak pointer remains.
pub open spec fn after_strong_drop<T>(b: MrcBox<T>) -> Option<MrcBox<T>> {
    if b.strong > 1 {
        Some(MrcBox { strong: (b.strong - 1) as usize, ..b })
    } else if b.weak > 1 {
        Some(MrcBox { strong: 0, weak: (b.weak - 1) as usize, value: None })
    } else {
        None
    }
}

/// The box after one weak pointer goes: its weak count less one, the box
/// freed when that was the last reference.
pub open spec fn after_weak_drop<T>(b: MrcBox<T>) -> Option<MrcBox<T>> {
    if b.weak > 1 {
        Some(MrcBox { weak: (b.weak - 1) as usize, ..b })
    } else {
        None
    }
}

impl Mrc {
    /// Gives up a strong pointer (`Drop::drop`).
    pub fn drop<T>(heap: &mut MrcHeap<T>, this: Mrc)
        requires
            old(heap).wf(),
            old(heap).valid(&this),
        ensures
            final(heap).wf(),
            final(heap).boxes@ == old(heap).boxes@.update(this.ptr as int, after_strong_drop(old(heap).boxed(this.ptr))),
    {
        let p = this.ptr;
        let b = heap.take_box(p);
        match b {
            Some(b) => {
                if b.strong > 1 {
                    heap.boxes.set(p, Some(MrcBox { strong: b.strong - 1, weak: b.weak, value: b.value }));
                } else if b.weak > 1 {
                    heap.boxes.set(p, Some(MrcBox { strong: 0, weak: b.weak - 1, value: None }));
                }
            },
            None => {},
        }
    }

    /// The value, when this is its only strong pointer; else the pointer
    /// back (`Mrc::try_unwrap`).
    pub fn try_unwrap<T>(heap: &mut MrcHeap<T>, this: Mrc) -> (r: Result<T, Mrc>)
        requires
            old(heap).wf(),
            old(heap).valid(&this),
        ensures
            final(heap).wf(),
            old(heap).boxed(this.ptr).strong == 1 ==> {
                &&& r is Ok
                &&& old(heap).boxed(this.ptr).value == Some(r->Ok_0)
                &&& final(heap).boxes@ == old(heap).boxes@.update(
                    this.ptr as int,
                    after_strong_drop(old(heap).boxed(this.ptr)),
                )
            },
            old(heap).boxed(this.ptr).strong != 1 ==> r == Err::<T, Mrc>(this) && final(heap).boxes@
                == old(heap).boxes@,
    {
        let one = match &heap.boxes[this.ptr] {
            Some(b) => b.strong == 1,
            None => false,
        };
        if !one {
            return Err(this);
        }
        let p = this.ptr;
        let b = heap.take_box(p);
        match b {
            Some(b) => {
                let w: usize = b.weak;
                match b.value {
                    Some(v) => {
                        if w > 1 {
                            heap.boxes.set(p, Some(MrcBox { strong: 0, weak: w - 1, value: None }));
                        }
                        Ok(v)
                    },
                    None => vstd::pervasive::unreached(),
                }
            },
            None => vstd::pervasive::unreached(),
        }
    }

    /// The value when this is its only strong pointer, else `None` and the
    /// pointer given up (`Mrc::into_inner`). Called on every strong pointer
    /// of a box, it gives the value exactly once: on the last one.
    pub fn into_inner<T>(heap: &mut MrcHeap<T>, this: Mrc) -> (r: Option<T>)
        requires
            old(heap).wf(),
            old(heap).valid(&this),
        ensures
            final(heap).wf(),
            final(heap).boxes@ == old(heap).boxes@.update(this.ptr as int, after_strong_drop(old(heap).boxed(this.ptr))),
            old(heap).boxed(this.ptr).strong == 1 ==> r is Some && old(heap).boxed(this.ptr).value == r,
            old(heap).boxed(this.ptr).strong != 1 ==> r is None,
    {
        match Mrc::try_unwrap(heap, this) {
            Ok(v) => Some(v),
            Err(m) => {
                Mrc::drop(heap, m);
                None
            },
        }
    }

    /// The value when this is its only strong pointer, else a clone of it
    /// and the pointer given up (`Mrc::unwrap_or_clone`).
    pub fn unwrap_or_clone<T: Clone>(heap: &mut MrcHeap<T>, this: Mrc) -> (r: T)
        requires
            old(heap).wf(),
            old(heap).valid(&this),
        ensures
            final(heap).wf(),
            final(heap).boxes@ == old(heap).boxes@.update(this.ptr as int, after_strong_drop(old(heap).boxed(this.ptr))),
            old(heap).boxed(this.ptr).strong == 1 ==> old(heap).boxed(this.ptr).value == Some(r),
            old(heap).boxed(this.ptr).strong != 1 ==> cloned(old(heap).boxed(this.ptr).value->Some_0, r),
    {
        let p = this.ptr;
        match Mrc::try_unwrap(heap, this) {
            Ok(v) => v,
            Err(m) => {
                let c = match &heap.boxes[p] {
                    Some(b) => match &b.value {
                        Some(v) => v.clone(),
                        None => vstd::pervasive::unreached(),
                    },
                    None => vstd::pervasive::unreached(),
                };
                Mrc::drop(heap, m);
                c
            },
        }
    }
}

impl Weak {
    /// A weak pointer to nothing (`Weak::new`).
    pub fn new() -> (w: Weak)
        ensures
            w.ptr is None,
    {
        Weak { ptr: None }
    }

    /// Another weak pointer to the same box (`Clone::clone`); one that
    /// points nowhere is copied without a change of count.
    pub fn clone_ptr<T>(heap: &mut MrcHeap<T>, this: &Weak) -> (r: Weak)
        requires
            old(heap).wf(),
            old(heap).valid_weak(this),
            this.ptr matches Some(p) ==> old(heap).boxed(p).weak < usize::MAX,
        ensures
            final(heap).wf(),
            r.ptr == this.ptr,
            match this.ptr {
                None => final(heap).boxes@ == old(heap).boxes@,
                Some(p) => final(heap).boxes@ == old(heap).boxes@.update(
                    p as int,
                    Some(MrcBox { weak: (old(heap).boxed(p).weak + 1) as usize, ..old(heap).boxed(p) }),
                ),
            },
    {
        match this.ptr {
            None => Weak { ptr: None },
            Some(p) => {
                let (s, w) = match &heap.boxes[p] {
                    Some(b) => (b.strong, b.weak),
                    None => (0, 0),
                };
                heap.set_counts(p, s, w + 1);
                Weak { ptr: Some(p) }
            },
        }
    }

    /// A strong pointer to the box while its value lives (`Weak::upgrade`).
    pub fn upgrade<T>(heap: &mut MrcHeap<T>, this: &Weak) -> (r: Option<Mrc>)
        requires
            old(heap).wf(),
            old(heap).valid_weak(this),
            this.ptr matches Some(p) ==> old(heap).boxed(p).strong < usize::MAX,
        ensures
            final(heap).wf(),
            match this.ptr {
                None => r is None && final(heap).boxes@ == old(heap).boxes@,
                Some(p) => if old(heap).boxed(p).strong == 0 {
                    r is None && final(heap).boxes@ == old(heap).boxes@
                } else {
                    r == Some(Mrc { ptr: p }) && final(heap).boxes@ == old(heap).boxes@.update(
                        p as int,
                        Some(MrcBox { strong: (old(heap).boxed(p).strong + 1) as usize, ..old(heap).boxed(p) }),
                    )
                },
            },
    {
        match this.ptr {
            None => None,
            Some(p) => {
                let (s, w) = match &heap.boxes[p] {
                    Some(b) => (b.strong, b.weak),
                    None => (0, 0),
                };
                if s == 0 {
                    None
                } else {
                    heap.set_counts(p, s + 1, w);
                    Some(Mrc { ptr: p })
                }
            },
        }
    }

    /// The number of strong pointers to the box, 0 for none
    /// (`Weak::strong_count`).
    pub fn strong_count<T>(heap: &MrcHeap<T>, this: &Weak) -> (r: usize)
        requires
            heap.valid_weak(this),
        ensures
            r == match this.ptr {
                None => 0,
                Some(p) => heap.boxed(p).strong,
            },
    {
        match this.ptr {
            None => 0,
            Some(p) => match &heap.boxes[p] {
                Some(b) => b.strong,
                None => 0,
            },
        }
    }

    /// The number of weak pointers to the box while its value lives, else 0
    /// (`Weak::weak_count`).
    pub fn weak_count<T>(heap: &MrcHeap<T>, this: &Weak) -> (r: usize)
        requires
            heap.wf(),
            heap.valid_weak(this),
        ensures
            r == match this.ptr {
                None => 0,
                Some(p) => if heap.boxed(p).strong > 0 {
                    (heap.boxed(p).weak - 1) as usize
                } else {
                    0
                },
            },
    {
        match this.ptr {
            None => 0,
            Some(p) => {
                assert(heap.boxes@[p as int] is Some);
                match &heap.boxes[p] {
                    Some(b) => if b.strong > 0 {
                        b.weak - 1
                    } else {
                        0
                    },
                    None => 0,
                }
            },
        }
    }

    /// Whether two weak pointers point alike (`Weak::ptr_eq`).
    pub fn ptr_eq(this: &Weak, other: &Weak) -> (r: bool)
        ensures
            r == (this.ptr == other.ptr),
    {
        match (this.ptr, other.ptr) {
            (None, None) => true,
            (Some(a), Some(b)) => a == b,
            _ => false,
        }
    }

    /// The box of the pointer, given up without a change of count
    /// (`Weak::into_raw`).
    pub fn into_raw(this: Weak) -> (r: Option<usize>)
        ensures
            r == this.ptr,
    {
        this.ptr
    }

    /// Gives up a weak pointer, freeing its box if it was the last pointer
    /// of any kind (`Drop::drop`).
    pub fn drop<T>(heap: &mut MrcHeap<T>, this: Weak)
        requires
            old(heap).wf(),
            old(heap).valid_weak(&this),
            this.ptr matches Some(p) ==> old(heap).boxed(p).weak > 1 || old(heap).boxed(p).strong == 0,
        ensures
            final(heap).wf(),
            match this.ptr {
                None => final(heap).boxes@ == old(heap).boxes@,
                Some(p) => final(heap).boxes@ == old(heap).boxes@.update(p as int, after_weak_drop(old(heap).boxed(p))),
            },
    {
        match this.ptr {
            None => {},
            Some(p) => {
                let b = heap.take_box(p);
                match b {
                    Some(b) => {
                        if b.weak > 1 {
                            heap.boxes.set(p, Some(MrcBox { strong: b.strong, weak: b.weak - 1, value: b.value }));
                        }
                    },
                    None => {},
                }
            },
        }
    }
}

/// Taking another strong pointer and giving it up leaves the box as it
/// was.
pub proof fn law_clone_then_drop<T>(b: MrcBox<T>)
    requires
        1 <= b.strong < usize::MAX,
    ensures
        after_strong_drop(MrcBox { strong: (b.strong + 1) as usize, ..b }) == Some(b),
{
}

/// A weak pointer made by `downgrade` (or `Weak::clone_ptr`) and then
/// dropped leaves the box as it was.
pub proof fn law_downgrade_then_drop<T>(b: MrcBox<T>)
    requires
        1 <= b.weak < usize::MAX,
    ensures
        after_weak_drop(MrcBox { weak: (b.weak + 1) as usize, ..b }) == Some(b),
{
}

/// Whether each of `n` calls of `into_inner`, one on each strong pointer of
/// box `b` in turn, gives the value (by `into_inner`'s contract: it does
/// when the box has one strong pointer, and each call leaves the box as
/// `after_strong_drop` says).
pub open spec fn into_inner_calls<T>(b: MrcBox<T>, n: nat) -> Seq<bool>
    decreases n,
{
    if n == 0 || b.strong == 0 {
        seq![]
    } else {
        seq![b.strong == 1] + match after_strong_drop(b) {
            Some(b2) => into_inner_calls(b2, (n - 1) as nat),
            None => seq![],
        }
    }
}

/// Called on every strong pointer of a box, `into_inner` gives the value
/// exactly once: on the last call.
pub proof fn law_into_inner_exactly_once<T>(b: MrcBox<T>)
    requires
        b.strong >= 1,
    ensures
        into_inner_calls(b, b.strong as nat).len() == b.strong,
        forall|i: int|
            0 <= i < b.strong ==> #[trigger] into_inner_calls(b, b.strong as nat)[i] == (i == b.strong - 1),
    decreases b.strong,
{
    if b.strong > 1 {
        let b2 = MrcBox { strong: (b.strong - 1) as usize, ..b };
        law_into_inner_exactly_once(b2);
        let rest = into_inner_calls(b2, (b.strong - 1) as nat);
        assert(into_inner_calls(b, b.strong as nat) =~= seq![false] + rest);
        assert forall|i: int| 0 <= i < b.strong implies #[trigger] into_inner_calls(b, b.strong as nat)[i] == (i
            == b.strong - 1) by {
            if i > 0 {
                assert(into_inner_calls(b, b.strong as nat)[i] == rest[i - 1]);
            }
        }
    } else {
        let calls = into_inner_calls(b, 1);
        assert(calls =~= seq![true] + match after_strong_drop(b) {
            Some(b2) => into_inner_calls(b2, 0),
            None => seq![],
        });
    }
}


/// The box after its pointers go in the order `drops`: `true` for a strong
/// pointer, `false` for a weak one.
pub open spec fn after_drops<T>(b: Option<MrcBox<T>>, drops: Seq<bool>) -> Option<MrcBox<T>>
    decreases drops.len(),
{
    if drops.len() == 0 {
        b
    } else {
        match b {
            None => None,
            Some(x) => after_drops(
                if drops[0] {
                    after_strong_drop(x)
                } else {
                    after_weak_drop(x)
                },
                drops.drop_first(),
            ),
        }
    }
}

/// How many of `drops` are drops of strong pointers.
pub open spec fn strong_drops(drops: Seq<bool>) -> nat
    decreases drops.len(),
{
    if drops.len() == 0 {
        0
    } else {
        (if drops[0] {
            1nat
        } else {
            0nat
        }) + strong_drops(drops.drop_first())
    }
}

proof fn lemma_strong_drops_bound(drops: Seq<bool>)
    ensures
        strong_drops(drops) <= drops.len(),
    decreases drops.len(),
{
    if drops.len() > 0 {
        lemma_strong_drops_bound(drops.drop_first());
    }
}

proof fn lemma_drops_free<T>(b: MrcBox<T>, weaks: nat, drops: Seq<bool>)
    requires
        b.weak >= 1,
        b.weak == weaks + (if b.strong > 0 {
            1nat
        } else {
            0nat
        }),
        strong_drops(drops) == b.strong,
        drops.len() == b.strong + weaks,
    ensures
        after_drops(Some(b), drops) is None,
    decreases drops.len(),
{
    if drops.len() > 0 {
        let rest = drops.drop_first();
        lemma_strong_drops_bound(rest);
        let next = if drops[0] {
            after_strong_drop(b)
        } else {
            after_weak_drop(b)
        };
        assert(after_drops(Some(b), drops) == after_drops(next, rest));
        match next {
            Some(b2) => {
                if drops[0] {
                    lemma_drops_free(b2, weaks, rest);
                } else {
                    lemma_drops_free(b2, (weaks - 1) as nat, rest);
                }
            },
            None => {
                assert(after_drops(None::<MrcBox<T>>, rest) is None);
            },
        }
    }
}

/// Reference counting leaves nothing behind: once every strong and every
/// weak pointer of a box has been dropped, in any order, the box is freed.
pub proof fn law_all_dropped_frees<T>(b: MrcBox<T>, drops: Seq<bool>)
    requires
        b.strong > 0,
        b.weak >= 1,
        strong_drops(drops) == b.strong,
        drops.len() == b.strong + b.weak - 1,
    ensures
        after_drops(Some(b), drops) is None,
{
    lemma_drops_free(b, (b.weak - 1) as nat, drops);
}

} // verus!
