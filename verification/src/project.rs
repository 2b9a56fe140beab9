//! Reference model of the project pass: additive trail deposition.
//!
//! Each agent deposits its species' trail into the write image at its
//! rounded integer position. Many agents may hit the same pixel in one pass
//! and the order they are processed in is unspecified, so the combine rule
//! must be associative and commutative: this model accumulates by saturating
//! addition per channel, so a pixel ends up at the smaller of the channel
//! maximum and the sum of its old value and every deposit that hit it —
//! whatever the order.

use vstd::prelude::*;

verus! {

/// Largest value a trail channel holds; deposits saturate here.
pub const CHANNEL_MAX: u32 = 0xffff_ffff;

/// One channel of the trail field, as the write image of the project pass
/// sees it: a `width` by `height` grid of saturating counters, stored row
/// by row.
pub struct TrailImage {
    width: usize,
    height: usize,
    pixels: Vec<u32>,
}

/// One agent's deposit: the pixel its position rounds to and the amount of
/// its species' colour in this channel.
#[derive(Clone, Copy, PartialEq, Eq, Structural, Debug)]
pub struct Deposit {
    pub x: usize,
    pub y: usize,
    pub amount: u32,
}

/// Addition that stops at the channel maximum.
pub open spec fn sat_add(a: int, b: int) -> int {
    if a + b >= CHANNEL_MAX {
        CHANNEL_MAX as int
    } else {
        a + b
    }
}

/// What one deposit contributes to the pixel at `(x, y)`.
pub open spec fn hit_amount(d: Deposit, x: int, y: int) -> int {
    if d.x == x && d.y == y {
        d.amount as int
    } else {
        0
    }
}

/// The total amount a sequence of deposits lands on the pixel at `(x, y)`.
pub open spec fn weight_at(ds: Seq<Deposit>, x: int, y: int) -> int
    decreases ds.len(),
{
    if ds.len() == 0 {
        0
    } else {
        weight_at(ds.drop_last(), x, y) + hit_amount(ds.last(), x, y)
    }
}

/// Deposits only ever add.
pub proof fn lemma_weight_nonneg(ds: Seq<Deposit>, x: int, y: int)
    ensures
        weight_at(ds, x, y) >= 0,
    decreases ds.len(),
{
    if ds.len() > 0 {
        lemma_weight_nonneg(ds.drop_last(), x, y);
    }
}

/// Removing one deposit takes exactly its contribution away.
proof fn lemma_weight_remove(ds: Seq<Deposit>, j: int, x: int, y: int)
    requires
        0 <= j < ds.len(),
    ensures
        weight_at(ds.remove(j), x, y) == weight_at(ds, x, y) - hit_amount(ds[j], x, y),
    decreases ds.len(),
{
    if j == ds.len() - 1 {
        assert(ds.remove(j) =~= ds.drop_last());
    } else {
        assert(ds.remove(j).drop_last() =~= ds.drop_last().remove(j));
        assert(ds.remove(j).last() == ds.last());
        lemma_weight_remove(ds.drop_last(), j, x, y);
    }
}

/// Deposit order independence: two passes over the same deposits — the same
/// multiset, in any order — land the same total on every pixel, so the trail
/// image after the project pass does not depend on the order the agents were
/// processed in.
pub proof fn lemma_deposit_order_independent(ds1: Seq<Deposit>, ds2: Seq<Deposit>, x: int, y: int)
    requires
        ds1.to_multiset() == ds2.to_multiset(),
    ensures
        weight_at(ds1, x, y) == weight_at(ds2, x, y),
    decreases ds1.len(),
{
    broadcast use vstd::seq_lib::group_to_multiset_ensures;

    if ds1.len() == 0 {
        assert(ds1.to_multiset().len() == ds1.len());
        assert(ds2.to_multiset().len() == ds2.len());
    } else {
        let d = ds1.last();
        assert(ds1.contains(d));
        assert(ds2.to_multiset().count(d) > 0);
        assert(ds2.contains(d));
        let j = choose|j: int| 0 <= j < ds2.len() && ds2[j] == d;
        assert(ds1.drop_last().push(d) =~= ds1);
        assert(ds1.drop_last().to_multiset().insert(d) == ds1.to_multiset());
        assert(ds2.remove(j).to_multiset() == ds2.to_multiset().remove(d));
        assert(ds1.drop_last().to_multiset() =~= ds2.remove(j).to_multiset());
        lemma_deposit_order_independent(ds1.drop_last(), ds2.remove(j), x, y);
        lemma_weight_remove(ds2, j, x, y);
    }
}

/// The flat index of the pixel at `(x, y)` stays inside the grid.
proof fn lemma_index_bound(x: int, y: int, w: int, h: int)
    requires
        0 <= x < w,
        0 <= y < h,
    ensures
        0 <= y * w + x < w * h,
{
    assert(0 <= y * w + x < w * h) by (nonlinear_arith)
        requires
            0 <= x < w,
            0 <= y < h,
    ;
}

impl TrailImage {
    /// The grid shape and the stored pixels agree.
    pub closed spec fn wf(self) -> bool {
        &&& self.pixels@.len() == self.width * self.height
        &&& self.width * self.height <= usize::MAX
    }

    /// Width of the grid in pixels.
    pub closed spec fn width_spec(self) -> int {
        self.width as int
    }

    /// Height of the grid in pixels.
    pub closed spec fn height_spec(self) -> int {
        self.height as int
    }

    /// The channel value at `(x, y)`.
    pub closed spec fn at(self, x: int, y: int) -> int {
        self.pixels@[y * self.width + x] as int
    }

    /// A fresh image, every pixel cleared to the base value.
    pub fn new(width: usize, height: usize, base: u32) -> (r: Self)
        requires
            width * height <= usize::MAX,
        ensures
            r.wf(),
            r.width_spec() == width,
            r.height_spec() == height,
            forall|x: int, y: int|
                0 <= x < width && 0 <= y < height ==> #[trigger] r.at(x, y) == base,
    {
        let n = width * height;
        let mut pixels: Vec<u32> = Vec::new();
        let mut i: usize = 0;
        while i < n
            invariant
                i <= n,
                pixels@.len() == i,
                forall|j: int| 0 <= j < i ==> #[trigger] pixels@[j] == base,
            decreases n - i,
        {
            pixels.push(base);
            i = i + 1;
        }
        let r = TrailImage { width, height, pixels };
        proof {
            assert forall|x: int, y: int| 0 <= x < width && 0 <= y < height implies #[trigger] r.at(
                x,
                y,
            ) == base by {
                lemma_index_bound(x, y, width as int, height as int);
            }
        }
        r
    }

    /// Reads the channel value at `(x, y)`.
    pub fn pixel(&self, x: usize, y: usize) -> (r: u32)
        requires
            self.wf(),
            x < self.width_spec(),
            y < self.height_spec(),
        ensures
            r == self.at(x as int, y as int),
    {
        proof {
            lemma_index_bound(x as int, y as int, self.width as int, self.height as int);
        }
        self.pixels[y * self.width + x]
    }

    /// Accumulates one deposit: the hit pixel rises by the amount, stopping
    /// at the channel maximum; every other pixel keeps its value.
    pub fn deposit(&mut self, d: Deposit)
        requires
            old(self).wf(),
            d.x < old(self).width_spec(),
            d.y < old(self).height_spec(),
        ensures
            final(self).wf(),
            final(self).width_spec() == old(self).width_spec(),
            final(self).height_spec() == old(self).height_spec(),
            final(self).at(d.x as int, d.y as int) == sat_add(
                old(self).at(d.x as int, d.y as int),
                d.amount as int,
            ),
            forall|x: int, y: int|
                0 <= x < old(self).width_spec() && 0 <= y < old(self).height_spec() && !(x == d.x
                    && y == d.y) ==> #[trigger] final(self).at(x, y) == old(self).at(x, y),
    {
        proof {
            lemma_index_bound(d.x as int, d.y as int, self.width as int, self.height as int);
        }
        let idx = d.y * self.width + d.x;
        let cur = self.pixels[idx];
        let summed = if cur >= CHANNEL_MAX - d.amount {
            CHANNEL_MAX
        } else {
            cur + d.amount
        };
        self.pixels.set(idx, summed);
        proof {
            assert forall|x: int, y: int|
                0 <= x < old(self).width_spec() && 0 <= y < old(self).height_spec() && !(x == d.x
                    && y == d.y) implies #[trigger] final(self).at(x, y) == old(self).at(x, y) by {
                lemma_index_bound(x, y, self.width as int, self.height as int);
                assert(y * self.width + x != d.y * self.width + d.x) by (nonlinear_arith)
                    requires
                        0 <= x < self.width,
                        0 <= y < self.height,
                        0 <= d.x < self.width,
                        0 <= d.y < self.height,
                        !(x == d.x && y == d.y),
                ;
            }
        }
    }

    /// The project pass over one species' deposits: afterwards every pixel
    /// holds the saturating sum of its old value and the total weight the
    /// deposits land on it — a function of the deposit multiset alone.
    pub fn project(&mut self, deposits: &Vec<Deposit>)
        requires
            old(self).wf(),
            forall|i: int|
                0 <= i < deposits@.len() ==> (#[trigger] deposits@[i]).x < old(self).width_spec()
                    && deposits@[i].y < old(self).height_spec(),
        ensures
            final(self).wf(),
            final(self).width_spec() == old(self).width_spec(),
            final(self).height_spec() == old(self).height_spec(),
            forall|x: int, y: int|
                0 <= x < old(self).width_spec() && 0 <= y < old(self).height_spec()
                    ==> #[trigger] final(self).at(x, y) == sat_add(
                    old(self).at(x, y),
                    weight_at(deposits@, x, y),
                ),
    {
        let n = deposits.len();
        let mut i: usize = 0;
        proof {
            assert forall|x: int, y: int|
                0 <= x < old(self).width_spec() && 0 <= y < old(self).height_spec()
                    implies #[trigger] self.at(x, y) == sat_add(
                old(self).at(x, y),
                weight_at(deposits@.take(0), x, y),
            ) by {
                assert(weight_at(deposits@.take(0), x, y) == 0);
            }
        }
        while i < n
            invariant
                i <= n,
                n == deposits@.len(),
                self.wf(),
                self.width_spec() == old(self).width_spec(),
                self.height_spec() == old(self).height_spec(),
                forall|j: int|
                    0 <= j < n ==> (#[trigger] deposits@[j]).x < old(self).width_spec()
                        && deposits@[j].y < old(self).height_spec(),
                forall|x: int, y: int|
                    0 <= x < old(self).width_spec() && 0 <= y < old(self).height_spec()
                        ==> #[trigger] self.at(x, y) == sat_add(
                        old(self).at(x, y),
                        weight_at(deposits@.take(i as int), x, y),
                    ),
            decreases n - i,
        {
            let d = deposits[i];
            let ghost before = *self;
            self.deposit(d);
            proof {
                assert(deposits@.take(i as int + 1).drop_last() =~= deposits@.take(i as int));
                assert(deposits@.take(i as int + 1).last() == deposits@[i as int]);
                assert forall|x: int, y: int|
                    0 <= x < old(self).width_spec() && 0 <= y < old(self).height_spec()
                        implies #[trigger] self.at(x, y) == sat_add(
                    old(self).at(x, y),
                    weight_at(deposits@.take(i as int + 1), x, y),
                ) by {
                    lemma_weight_nonneg(deposits@.take(i as int), x, y);
                }
            }
            i = i + 1;
        }
        proof {
            assert(deposits@.take(n as int) =~= deposits@);
        }
    }
}

} // verus!
