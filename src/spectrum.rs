use vstd::prelude::*;

use crate::canvas::{opaque, pixel_count, LineData};
use crate::error::Error;
use crate::ring::Ring;

verus! {

/// Two to the power `n`.
pub open spec fn pow2(n: nat) -> nat
    decreases n,
{
    if n == 0 {
        1
    } else {
        2 * pow2((n - 1) as nat)
    }
}

proof fn lemma_pow2_grows(i: nat, j: nat)
    requires
        i <= j,
    ensures
        pow2(i) <= pow2(j),
    decreases j - i,
{
    if i < j {
        lemma_pow2_grows(i, (j - 1) as nat);
    }
}

/// Whether an analysis of the given order can be set up: the frame must
/// hold at least two values, and the history (twice the frame, stored
/// twice over) must fit in memory indexes.
pub open spec fn order_is_valid(order: nat) -> bool {
    2 <= order && pow2(order) <= usize::MAX / 2
}

/// The buffer sizes that follow from an analysis order.
#[derive(Debug, Clone, Copy, PartialEq, Eq, Structural)]
pub struct Layout {
    /// Values kept in the sample history: `2^order`.
    pub queue_size: usize,
    /// Values in one analysis frame and one spectrum: `2^(order - 1)`.
    pub buffer_size: usize,
    /// Spectrum bins that are accumulated: those strictly between the
    /// constant bin and the Nyquist bin, `buffer_size / 2 - 1` of them.
    pub bins: usize,
}

impl Layout {
    /// The sizes for `order`, or an error where no analysis of that order
    /// can be set up.
    pub fn from_order(order: u32) -> (r: Result<Layout, Error>)
        ensures
            r is Ok <==> order_is_valid(order as nat),
            r is Ok ==> ({
                let l = r->Ok_0;
                &&& l.queue_size == pow2(order as nat)
                &&& l.buffer_size == pow2((order - 1) as nat)
                &&& l.bins == l.buffer_size / 2 - 1
            }),
    {
        if order < 2 {
            return Err(Error());
        }
        let mut q: usize = 1;
        let mut i: u32 = 0;
        while i < order
            invariant
                i <= order,
                q == pow2(i as nat),
                q <= usize::MAX / 2,
            decreases order - i,
        {
            if q > usize::MAX / 4 {
                proof { lemma_pow2_grows((i + 1) as nat, order as nat); }
                return Err(Error());
            }
            q = q * 2;
            i = i + 1;
        }
        proof {
            reveal_with_fuel(pow2, 3);
            assert(pow2(2) == 4);
            lemma_pow2_grows(2, order as nat);
        }
        let half = q / 2;
        assert(pow2((order - 1) as nat) * 2 == q);
        Ok(Layout { queue_size: q, buffer_size: half, bins: half / 2 - 1 })
    }
}

/// Per-bin sums of spectrum magnitudes, and the number of analysis ticks
/// that went into them since the sums were last cleared.
pub struct Accumulator<T> {
    sums: Vec<T>,
    ticks: usize,
    zero: T,
}

impl<T> View for Accumulator<T> {
    type V = Seq<T>;

    /// The per-bin sums.
    closed spec fn view(&self) -> Seq<T> {
        self.sums@
    }
}

impl<T: Copy> Accumulator<T> {
    /// Number of ticks accumulated since the sums were last cleared.
    pub closed spec fn spec_ticks(&self) -> nat {
        self.ticks as nat
    }

    /// The value that every sum starts from.
    pub closed spec fn spec_zero(&self) -> T {
        self.zero
    }

    /// No sum has moved from zero while no tick has been counted.
    pub open spec fn wf(&self) -> bool {
        self.spec_ticks() == 0 ==> self@ == Seq::new(self@.len(), |i: int| self.spec_zero())
    }

    /// `len` bins, each holding `zero`, and no tick.
    pub fn new(len: usize, zero: T) -> (r: Accumulator<T>)
        ensures
            r.wf(),
            r@ == Seq::new(len as nat, |i: int| zero),
            r.spec_ticks() == 0,
            r.spec_zero() == zero,
    {
        let mut sums: Vec<T> = Vec::with_capacity(len);
        let mut i: usize = 0;
        while i < len
            invariant
                i <= len,
                sums@ == Seq::new(i as nat, |k: int| zero),
            decreases len - i,
        {
            sums.push(zero);
            i = i + 1;
            assert(sums@ =~= Seq::new(i as nat, |k: int| zero));
        }
        Accumulator { sums, ticks: 0, zero }
    }

    /// Number of bins.
    pub fn len(&self) -> (r: usize)
        ensures
            r == self@.len(),
    {
        self.sums.len()
    }

    /// Number of ticks accumulated since the sums were last cleared.
    pub fn ticks(&self) -> (r: usize)
        ensures
            r == self.spec_ticks(),
    {
        self.ticks
    }

    /// The sum of bin `i`.
    pub fn get(&self, i: usize) -> (r: T)
        requires
            i < self@.len(),
        ensures
            r == self@[i as int],
    {
        self.sums[i]
    }

    /// Counts one tick and adds one spectrum into the sums: sum `i` becomes
    /// `fold(sum, spectrum[i + 1])`. Bin 0 of the spectrum, the constant
    /// part, is never summed, nor any bin past the last sum.
    pub fn tick<S: Copy, F: Fn(T, S) -> T>(&mut self, spectrum: &[S], fold: F)
        requires
            old(self).wf(),
            old(self).spec_ticks() < usize::MAX,
            old(self)@.len() < spectrum@.len(),
            forall|v: T, i: int| 0 <= i < old(self)@.len() ==> #[trigger] fold.requires((v, spectrum@[i + 1])),
        ensures
            final(self).wf(),
            final(self).spec_ticks() == old(self).spec_ticks() + 1,
            final(self).spec_zero() == old(self).spec_zero(),
            final(self)@.len() == old(self)@.len(),
            forall|i: int|
                0 <= i < old(self)@.len() ==> fold.ensures(
                    (old(self)@[i], spectrum@[i + 1]),
                    #[trigger] final(self)@[i],
                ),
    {
        let n = self.sums.len();
        let mut i: usize = 0;
        while i < n
            invariant
                n == self.sums@.len(),
                n == old(self)@.len(),
                n < spectrum@.len(),
                i <= n,
                self.ticks == old(self).ticks,
                self.zero == old(self).zero,
                forall|k: int| i <= k < n ==> #[trigger] self.sums@[k] == old(self)@[k],
                forall|k: int|
                    0 <= k < i ==> fold.ensures((old(self)@[k], spectrum@[k + 1]), #[trigger] self.sums@[k]),
                forall|v: T, k: int| 0 <= k < n ==> #[trigger] fold.requires((v, spectrum@[k + 1])),
            decreases n - i,
        {
            let v = fold(self.sums[i], spectrum[i + 1]);
            self.sums.set(i, v);
            i = i + 1;
        }
        self.ticks = self.ticks + 1;
    }

    /// Starts a new epoch: every sum goes back to zero and the tick count
    /// to 0.
    pub fn clear(&mut self)
        ensures
            final(self).wf(),
            final(self)@ == Seq::new(old(self)@.len(), |i: int| old(self).spec_zero()),
            final(self).spec_ticks() == 0,
            final(self).spec_zero() == old(self).spec_zero(),
    {
        let n = self.sums.len();
        let mut i: usize = 0;
        while i < n
            invariant
                n == self.sums@.len(),
                i <= n,
                self.zero == old(self).zero,
                forall|k: int| 0 <= k < i ==> #[trigger] self.sums@[k] == self.zero,
            decreases n - i,
        {
            let z = self.zero;
            self.sums.set(i, z);
            i = i + 1;
        }
        self.ticks = 0;
        assert(self.sums@ =~= Seq::new(n as nat, |k: int| self.zero));
    }
}

/// Builds an analysis frame from the history window: value `k` of the
/// frame becomes `combine(window[2k], window[2k + 1])`, for as many values
/// as both the frame and the window's pairs allow; the rest of the frame
/// stays as it was.
pub fn build_frame<T: Copy, U, F: Fn(T, T) -> U>(window: &Ring<T>, frame: &mut Vec<U>, combine: F)
    requires
        forall|a: T, b: T| #[trigger] combine.requires((a, b)),
    ensures
        final(frame)@.len() == old(frame)@.len(),
        forall|k: int|
            0 <= k < old(frame)@.len() ==> if 2 * k + 1 < window@.len() {
                combine.ensures(
                    (window@[2 * k], window@[2 * k + 1]),
                    #[trigger] final(frame)@[k],
                )
            } else {
                final(frame)@[k] == old(frame)@[k]
            },
{
    let wlen = window.len();
    let pairs = wlen / 2;
    let n = if frame.len() < pairs { frame.len() } else { pairs };
    let mut k: usize = 0;
    while k < n
        invariant
            n <= frame@.len(),
            wlen == window@.len(),
            n <= window@.len() / 2,
            frame@.len() == old(frame)@.len(),
            k <= n,
            n == frame@.len() || n == window@.len() / 2,
            forall|j: int| k <= j < frame@.len() ==> #[trigger] frame@[j] == old(frame)@[j],
            forall|j: int|
                0 <= j < k ==> combine.ensures(
                    (window@[2 * j], window@[2 * j + 1]),
                    #[trigger] frame@[j],
                ),
            forall|a: T, b: T| #[trigger] combine.requires((a, b)),
        decreases n - k,
    {
        let v = combine(window.get(2 * k), window.get(2 * k + 1));
        frame.set(k, v);
        k = k + 1;
    }
}

/// Renders one row from the accumulated sums and starts a new epoch.
///
/// Where no tick was accumulated, nothing changes. Otherwise every whole
/// pixel `x` of `row` becomes opaque and gray, its red, green and blue set
/// to `shade(acc, x)`, computed from the sums as they were on entry; then
/// every sum goes back to zero and the tick count to 0.
pub fn render<T: Copy, F: Fn(&Accumulator<T>, usize) -> u8>(
    acc: &mut Accumulator<T>,
    row: &mut LineData,
    shade: F,
)
    requires
        old(acc).wf(),
        forall|x: usize| x < pixel_count(old(row)@.len()) ==> shade.requires((&*old(acc), x)),
    ensures
        old(acc).spec_ticks() == 0 ==> *final(acc) == *old(acc) && final(row)@ == old(row)@,
        old(acc).spec_ticks() != 0 ==> {
            &&& final(row)@.len() == old(row)@.len()
            &&& forall|k: int|
                4 * pixel_count(old(row)@.len()) <= k < old(row)@.len() ==> #[trigger] final(row)@[k]
                    == old(row)@[k]
            &&& forall|x: int|
                0 <= x < pixel_count(old(row)@.len()) ==> {
                    &&& #[trigger] final(row)@[4 * x] == final(row)@[4 * x + 1]
                    &&& final(row)@[4 * x] == final(row)@[4 * x + 2]
                    &&& final(row)@[4 * x + 3] == 255
                    &&& shade.ensures((&*old(acc), x as usize), final(row)@[4 * x])
                }
        },
        final(acc).wf(),
        final(acc).spec_ticks() == 0,
        final(acc).spec_zero() == old(acc).spec_zero(),
        final(acc)@ == Seq::new(old(acc)@.len(), |i: int| old(acc).spec_zero()),
{
    if acc.ticks() == 0 {
        return;
    }
    let ghost start = row@;
    let pixels = row.iter_mut();
    let n = pixels.len();
    let mut j: usize = 0;
    while j < n
        invariant
            n == pixels@.len(),
            n == pixel_count(start.len()),
            j <= n,
            *acc == *old(acc),
            row@.len() == start.len(),
            forall|k: int| 4 * j <= k < start.len() ==> #[trigger] row@[k] == opaque(start)[k],
            forall|k: int| 0 <= k < 4 * j && k % 4 == 3 ==> #[trigger] row@[k] == 255,
            forall|x: int|
                0 <= x < j ==> {
                    &&& #[trigger] row@[4 * x] == row@[4 * x + 1]
                    &&& row@[4 * x] == row@[4 * x + 2]
                    &&& shade.ensures((&*old(acc), x as usize), row@[4 * x])
                },
            forall|x: int|
                0 <= x < n ==> (#[trigger] pixels@[x]).x == x,
            forall|x: usize| x < n ==> shade.requires((&*old(acc), x)),
        decreases n - j,
    {
        let x = pixels[j].x;
        let c = shade(&*acc, x);
        row.set_gray(x, c);
        j = j + 1;
    }
    acc.clear();
}

} // verus!
