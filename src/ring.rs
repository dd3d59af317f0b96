use vstd::prelude::*;

verus! {

/// The window that results from pushing `value` into the window `w`:
/// the oldest value leaves, `value` becomes the newest.
pub open spec fn shifted<T>(w: Seq<T>, value: T) -> Seq<T> {
    w.drop_first().push(value)
}

/// The window that results from pushing each of `vs` in turn into `w`.
pub open spec fn shifted_all<T>(w: Seq<T>, vs: Seq<T>) -> Seq<T>
    decreases vs.len(),
{
    if vs.len() == 0 {
        w
    } else {
        shifted(shifted_all(w, vs.drop_last()), vs.last())
    }
}

proof fn lemma_shifted_all_concat<T>(w: Seq<T>, vs: Seq<T>)
    requires
        w.len() > 0,
    ensures
        shifted_all(w, vs) == (w + vs).subrange(vs.len() as int, (vs.len() + w.len()) as int),
    decreases vs.len(),
{
    if vs.len() == 0 {
        assert((w + vs).subrange(0, w.len() as int) =~= w);
    } else {
        let rest = vs.drop_last();
        lemma_shifted_all_concat(w, rest);
        let n = vs.len() as int;
        let m = w.len() as int;
        assert(shifted(shifted_all(w, rest), vs.last()) =~= (w + vs).subrange(n, n + m));
    }
}

/// Once at least as many values as the window holds have been pushed, the
/// window holds exactly the latest of them, in the order they were pushed,
/// whatever it held before.
pub proof fn lemma_window_holds_latest<T>(w: Seq<T>, vs: Seq<T>)
    requires
        w.len() > 0,
        vs.len() >= w.len(),
    ensures
        shifted_all(w, vs) == vs.subrange(vs.len() - w.len(), vs.len() as int),
{
    lemma_shifted_all_concat(w, vs);
    assert((w + vs).subrange(vs.len() as int, (vs.len() + w.len()) as int) =~= vs.subrange(
        vs.len() - w.len(),
        vs.len() as int,
    ));
}

/// A fixed-size history of the most recent values, readable as one
/// contiguous slice, oldest first.
///
/// The storage holds twice the window size. Each value is written twice,
/// once just behind the cursor and once `size` slots ahead of it, so the
/// window starting at the cursor is always contiguous.
pub struct Ring<T> {
    data: Vec<T>,
    pos: usize,
}

impl<T> Ring<T> {
    closed spec fn size(&self) -> nat {
        (self.data@.len() / 2) as nat
    }

    /// The storage layout is consistent: the cursor stays within
    /// `0..=size`, and every slot behind the cursor mirrors the slot
    /// `size + 1` places after it.
    #[verifier::type_invariant]
    spec fn wf(&self) -> bool {
        &&& self.data@.len() % 2 == 0
        &&& self.size() > 0
        &&& self.pos <= self.size()
        &&& forall|j: int|
            0 <= j && j + 1 < self.pos ==> #[trigger] self.data@[j] == self.data@[j + self.size() + 1]
    }
}

impl<T: Copy> Ring<T> {
    /// Creates a window of `size` values, each equal to `value`.
    pub fn new(size: usize, value: T) -> (r: Ring<T>)
        requires
            0 < size <= usize::MAX / 2,
        ensures
            r@ == Seq::new(size as nat, |i: int| value),
    {
        let n: usize = size * 2;
        let mut data: Vec<T> = Vec::with_capacity(n);
        let mut i: usize = 0;
        while i < n
            invariant
                n == size * 2,
                i <= n,
                data@ == Seq::new(i as nat, |k: int| value),
            decreases n - i,
        {
            data.push(value);
            i = i + 1;
            assert(data@ =~= Seq::new(i as nat, |k: int| value));
        }
        let r = Ring { data, pos: 0 };
        assert(r@ =~= Seq::new(size as nat, |k: int| value));
        r
    }

    /// Number of values in the window.
    pub fn len(&self) -> (r: usize)
        ensures
            r == self@.len(),
            r > 0,
    {
        proof { use_type_invariant(self); }
        self.data.len() / 2
    }

    /// Pushes `value` as the newest value of the window; the oldest leaves.
    ///
    /// The cursor advances modulo `size + 1`.
    pub fn enqueue(&mut self, value: T)
        ensures
            final(self)@ == shifted(old(self)@, value),
        no_unwind
    {
        proof { use_type_invariant(&*self); }
        let size = self.data.len() / 2;
        let ghost old_data = self.data@;
        let ghost p = self.pos as int;
        let inside = self.pos < size;
        if self.pos > 0 {
            self.data[self.pos - 1] = value;
        }
        if self.pos < size {
            self.data[self.pos + size] = value;
        }
        let next: usize = if inside { self.pos + 1 } else { 0 };
        assert(forall|j: int|
            0 <= j && j + 1 < next ==> #[trigger] self.data@[j] == self.data@[j + size + 1]);
        self.pos = next;
        if inside {
            assert(self@ =~= shifted(old_data.subrange(p, p + size), value));
        } else {
            assert forall|k: int| 0 <= k < size - 1 implies
                #[trigger] self.data@[k] == old_data[k + size + 1] by {
                assert(old_data[k] == old_data[k + size + 1]);
            }
            assert(self@ =~= shifted(old_data.subrange(p, p + size), value));
        }
    }

    /// The value at position `i` of the window, position 0 being the oldest.
    pub fn get(&self, i: usize) -> (r: T)
        requires
            i < self@.len(),
        ensures
            r == self@[i as int],
    {
        proof { use_type_invariant(self); }
        let n = self.data.len();
        assert(self.pos + i < n);
        self.data[self.pos + i]
    }

    /// The whole window as one slice, oldest first.
    pub fn window(&self) -> (r: &[T])
        ensures
            r@ == self@,
    {
        proof { use_type_invariant(self); }
        let size = self.data.len() / 2;
        vstd::slice::slice_subrange(self.data.as_slice(), self.pos, self.pos + size)
    }
}

impl<T: Copy> core::ops::Deref for Ring<T> {
    type Target = [T];

    fn deref(&self) -> (r: &[T])
        ensures
            r@ == self@,
    {
        self.window()
    }
}

impl<T> View for Ring<T> {
    type V = Seq<T>;

    /// The window: the `size` most recent values, oldest first.
    closed spec fn view(&self) -> Seq<T> {
        self.data@.subrange(self.pos as int, self.pos + self.data@.len() / 2)
    }
}

} // verus!
