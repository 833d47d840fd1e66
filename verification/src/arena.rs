//! A slot-reusing store for runtime constants. `intern` places a value in the
//! lowest free slot (appending when none is free) and returns its index, which
//! stays valid for as long as the slot is not freed again.

use vstd::prelude::*;

verus! {

/// One storage slot: either vacated or holding a value.
enum ArenaValue<T> {
    Absent,
    Present(T),
}

/// A growable store of values addressed by stable integer handles.
///
/// The view is the sequence of slots, a freed slot appearing as `None`.
pub struct Arena<T> {
    values: Vec<ArenaValue<T>>,
}

/// The slot's content as an optional value.
spec fn slot_opt<T>(v: ArenaValue<T>) -> Option<T> {
    match v {
        ArenaValue::Absent => None,
        ArenaValue::Present(t) => Some(t),
    }
}

impl<T> View for Arena<T> {
    type V = Seq<Option<T>>;

    closed spec fn view(&self) -> Seq<Option<T>> {
        self.values@.map_values(|v: ArenaValue<T>| slot_opt(v))
    }
}

/// Index of the first free slot of the arena, if any.
pub open spec fn first_absent<T>(s: Seq<Option<T>>) -> Option<int>
    decreases s.len(),
{
    if s.len() == 0 {
        None
    } else if s[0] is None {
        Some(0)
    } else {
        match first_absent(s.drop_first()) {
            Some(i) => Some(i + 1),
            None => None,
        }
    }
}

impl<T> Arena<T> {
    pub fn new() -> (a: Arena<T>)
        ensures
            a@ == Seq::<Option<T>>::empty(),
    {
        Arena { values: Vec::new() }
    }

    /// Stores `v` in the first free slot, or in a fresh slot at the end when
    /// every slot is taken, and returns the slot's index.
    pub fn intern(&mut self, v: T) -> (h: usize)
        ensures
            h < final(self)@.len(),
            final(self)@[h as int] == Some(v),
            match first_absent(old(self)@) {
                Some(i) => h == i && final(self)@ == old(self)@.update(i, Some(v)),
                None => h == old(self)@.len() && final(self)@ == old(self)@.push(Some(v)),
            },
    {
        let space = self.find_space();
        match space {
            Some(n) => {
                self.values[n] = ArenaValue::Present(v);
                proof {
                    assert(self@ =~= old(self)@.update(n as int, Some(v)));
                }
                n
            }
            None => {
                self.values.push(ArenaValue::Present(v));
                proof {
                    assert(self@ =~= old(self)@.push(Some(v)));
                }
                self.values.len() - 1
            }
        }
    }

    /// A reference to the value stored at `at`; the slot must be filled.
    pub fn value_ref(&self, at: usize) -> (r: &T)
        requires
            at < self@.len(),
            self@[at as int] is Some,
        ensures
            self@[at as int] == Some(*r),
    {
        match &self.values[at] {
            ArenaValue::Absent => vstd::pervasive::unreached(),
            ArenaValue::Present(t) => t,
        }
    }

    /// Vacates the slot at `at`; a later `intern` may reuse it.
    pub fn free(&mut self, at: usize)
        requires
            at < old(self)@.len(),
        ensures
            final(self)@ == old(self)@.update(at as int, None),
    {
        self.values[at] = ArenaValue::Absent;
        proof {
            assert(self@ =~= old(self)@.update(at as int, None::<T>));
        }
    }

    /// The index of the first `Absent` slot, or `None` when every slot holds
    /// a value.
    fn find_space(&self) -> (r: Option<usize>)
        ensures
            match r {
                Some(n) => n < self@.len() && first_absent(self@) == Some(n as int),
                None => first_absent(self@) == None::<int>,
            },
    {
        let mut i: usize = 0;
        while i < self.values.len()
            invariant
                i <= self@.len(),
                forall|j: int| 0 <= j < i ==> self@[j] is Some,
            decreases self@.len() - i,
        {
            match &self.values[i] {
                ArenaValue::Absent => {
                    proof {
                        lemma_first_absent_at(self@, i as int);
                    }
                    return Some(i);
                }
                ArenaValue::Present(_) => {}
            }
            i = i + 1;
        }
        proof {
            lemma_first_absent_none(self@);
        }
        None
    }
}

/// When every slot before `i` is filled and slot `i` is free, `i` is the
/// first free slot.
proof fn lemma_first_absent_at<T>(s: Seq<Option<T>>, i: int)
    requires
        0 <= i < s.len(),
        s[i] is None,
        forall|j: int| 0 <= j < i ==> s[j] is Some,
    ensures
        first_absent(s) == Some(i),
    decreases i,
{
    if i > 0 {
        lemma_first_absent_at(s.drop_first(), i - 1);
    }
}

/// When every slot is filled, there is no first free slot.
proof fn lemma_first_absent_none<T>(s: Seq<Option<T>>)
    requires
        forall|j: int| 0 <= j < s.len() ==> s[j] is Some,
    ensures
        first_absent(s) == None::<int>,
    decreases s.len(),
{
    if s.len() > 0 {
        lemma_first_absent_none(s.drop_first());
    }
}

} // verus!
