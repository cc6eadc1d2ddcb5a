//! Linear selection by rank: the better a member, the likelier it is drawn.

use vstd::prelude::*;

verus! {

/// The bias of a selection, as the fraction `num / den`. A bias of one
/// draws every rank alike; a bias of two never draws the last.
#[derive(Clone, Copy, Debug, PartialEq, Eq, Structural)]
pub struct Bias {
    pub num: u32,
    pub den: u32,
}

impl Bias {
    /// The bias lies between one and two.
    pub open spec fn wf(self) -> bool {
        0 < self.den <= self.num <= 2 * self.den
    }

    /// Whether the bias lies between one and two.
    pub fn is_wf(&self) -> (r: bool)
        ensures
            r == self.wf(),
    {
        0 < self.den && self.den <= self.num && self.num - self.den <= self.den
    }
}

/// The weight of rank `rank`, the best being rank zero, among `size`
/// ranks: the probability `bias - 2 * (bias - 1) * rank / (size - 1)` of
/// its being drawn, times `den * (size - 1)`.
pub open spec fn weight(size: int, bias: Bias, rank: int) -> int {
    bias.num * (size - 1) - 2 * (bias.num - bias.den) * rank
}

/// The weights of the ranks before `rank`, together.
pub open spec fn weight_before(size: int, bias: Bias, rank: nat) -> int
    decreases rank,
{
    if rank == 0 {
        0
    } else {
        weight_before(size, bias, (rank - 1) as nat) + weight(size, bias, rank - 1)
    }
}

/// The draw `draw` selects the rank `rank` among `size`: lay the ranks out
/// one behind the other, each as wide as its weight; the draw, reduced to
/// the width of them all, falls on `rank`. Of one rank, that one is
/// selected.
pub open spec fn selects(size: int, bias: Bias, draw: int, rank: int) -> bool {
    &&& 0 <= rank < size
    &&& if size < 2 {
        rank == 0
    } else {
        let all = weight_before(size, bias, size as nat);
        let point = draw % all;
        weight_before(size, bias, rank as nat) <= point < weight_before(size, bias, (rank + 1) as nat)
    }
}

/// The weight of a rank, which is not negative and fits in 64 bits.
fn weight_of(size: u32, bias: Bias, rank: u32) -> (w: u128)
    requires
        bias.wf(),
        rank < size,
    ensures
        w == weight(size as int, bias, rank as int),
        w < 0x1_0000_0000_0000_0000,
        rank == 0 && size >= 2 ==> w > 0,
{
    let n: u128 = bias.num as u128;
    let excess: u128 = (bias.num - bias.den) as u128;
    let last: u128 = (size - 1) as u128;
    let r: u128 = rank as u128;
    assert(n * last < 0x1_0000_0000_0000_0000) by (nonlinear_arith)
        requires
            n < 0x1_0000_0000,
            last < 0x1_0000_0000,
    ;
    assert(2 * excess * r <= n * last) by (nonlinear_arith)
        requires
            2 * excess <= n,
            r <= last,
    ;
    assert(rank == 0 && size >= 2 ==> n * last > 0) by (nonlinear_arith)
        requires
            n > 0,
            last == size - 1,
    ;
    assert(rank == 0 ==> 2 * excess * r == 0) by (nonlinear_arith)
        requires
            r == rank,
    ;
    n * last - 2 * excess * r
}

/// The rank that the draw `draw` selects among `size` ranks under the
/// bias `bias`. With draws that are spread evenly, rank `r` comes with a
/// probability proportional to `bias - 2 * (bias - 1) * r / (size - 1)`.
pub fn linear_selection(size: u32, bias: Bias, draw: u64) -> (rank: usize)
    requires
        size >= 1,
        bias.wf(),
    ensures
        selects(size as int, bias, draw as int, rank as int),
{
    if size < 2 {
        return 0;
    }
    let mut all: u128 = 0;
    let mut k: u32 = 0;
    while k < size
        invariant
            k <= size,
            size >= 2,
            bias.wf(),
            all == weight_before(size as int, bias, k as nat),
            all <= k * 0x1_0000_0000_0000_0000,
            k >= 1 ==> all > 0,
        decreases size - k,
    {
        let w = weight_of(size, bias, k);
        all = all + w;
        k += 1;
    }
    let point: u128 = (draw as u128) % all;
    let mut rank: u32 = 0;
    let mut upto: u128 = weight_of(size, bias, 0);
    assert(upto == weight_before(size as int, bias, 1)) by {
        reveal_with_fuel(weight_before, 2);
    }
    while rank + 1 < size && point >= upto
        invariant
            rank < size,
            bias.wf(),
            all == weight_before(size as int, bias, size as nat),
            point < all,
            weight_before(size as int, bias, rank as nat) <= point,
            upto == weight_before(size as int, bias, (rank + 1) as nat),
            upto <= (rank + 1) * 0x1_0000_0000_0000_0000,
        decreases size - rank,
    {
        rank += 1;
        let w = weight_of(size, bias, rank);
        upto = upto + w;
    }
    rank as usize
}

/// No weight is negative.
pub proof fn lemma_weight_is_not_negative(size: int, bias: Bias, rank: int)
    requires
        bias.wf(),
        0 <= rank < size,
    ensures
        weight(size, bias, rank) >= 0,
{
    let n = bias.num as int;
    let excess = bias.num - bias.den;
    assert(2 * excess * rank <= n * (size - 1)) by (nonlinear_arith)
        requires
            0 <= 2 * excess <= n,
            0 <= rank <= size - 1,
    ;
}

/// The ranks lie one behind the other: what lies before a rank lies
/// before every later one.
pub proof fn lemma_weight_before_grows(size: int, bias: Bias, i: nat, j: nat)
    requires
        bias.wf(),
        i <= j <= size,
    ensures
        weight_before(size, bias, i) <= weight_before(size, bias, j),
    decreases j,
{
    if i < j {
        lemma_weight_before_grows(size, bias, i, (j - 1) as nat);
        lemma_weight_is_not_negative(size, bias, j - 1);
    }
}

/// A draw selects one rank only.
pub proof fn lemma_selection_is_one(size: int, bias: Bias, draw: int, a: int, b: int)
    requires
        bias.wf(),
        selects(size, bias, draw, a),
        selects(size, bias, draw, b),
    ensures
        a == b,
{
    if size >= 2 {
        if a < b {
            lemma_weight_before_grows(size, bias, (a + 1) as nat, b as nat);
        } else if b < a {
            lemma_weight_before_grows(size, bias, (b + 1) as nat, a as nat);
        }
    }
}

/// Under a bias above one a better rank weighs more than a worse one, so
/// that of draws spread evenly more select the best rank than the worst.
pub proof fn lemma_better_rank_weighs_more(size: int, bias: Bias, better: int, worse: int)
    requires
        bias.wf(),
        bias.num > bias.den,
        0 <= better < worse < size,
    ensures
        weight(size, bias, better) > weight(size, bias, worse),
{
    let excess = bias.num - bias.den;
    assert(2 * excess * better < 2 * excess * worse) by (nonlinear_arith)
        requires
            excess > 0,
            better < worse,
    ;
}

/// The draws that select a rank are as many as its weight: those from
/// what lies before it up to what lies before the next.
pub proof fn lemma_share_of_a_rank(size: int, bias: Bias, rank: int)
    requires
        bias.wf(),
        size >= 2,
        0 <= rank < size,
    ensures
        weight_before(size, bias, (rank + 1) as nat) - weight_before(size, bias, rank as nat) == weight(
            size,
            bias,
            rank,
        ),
        forall|draw: int|
            0 <= draw < weight_before(size, bias, size as nat) ==> (#[trigger] selects(
                size,
                bias,
                draw,
                rank,
            ) <==> weight_before(size, bias, rank as nat) <= draw < weight_before(
                size,
                bias,
                (rank + 1) as nat,
            )),
{
    assert forall|draw: int| 0 <= draw < weight_before(size, bias, size as nat) implies (#[trigger] selects(
        size,
        bias,
        draw,
        rank,
    ) <==> weight_before(size, bias, rank as nat) <= draw < weight_before(
        size,
        bias,
        (rank + 1) as nat,
    )) by {
        vstd::arithmetic::div_mod::lemma_small_mod(
            draw as nat,
            weight_before(size, bias, size as nat) as nat,
        );
    }
}

} // verus!
