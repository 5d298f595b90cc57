//! In-memory windowed dataset over a tokenized corpus, and the batcher that
//! stacks its items for the training loop.
use std::sync::Arc;
use vstd::prelude::*;

verus! {

/// Two to the 64th: the modulus of `u64` wrapping arithmetic.
pub open spec fn two_pow_64() -> int {
    0x1_0000_0000_0000_0000
}

/// The splitmix64 finalizer applied to `x`: add the golden-ratio increment,
/// then three xor-shift / multiply rounds, all modulo two to the 64th.
pub open spec fn splitmix64(x: u64) -> u64 {
    let x0 = ((x as int + 0x9E3779B97F4A7C15) % two_pow_64()) as u64;
    let x1 = (((x0 ^ (x0 >> 30u64)) as int * 0xBF58476D1CE4E5B9) % two_pow_64()) as u64;
    let x2 = (((x1 ^ (x1 >> 27u64)) as int * 0x94D049BB133111EB) % two_pow_64()) as u64;
    x2 ^ (x2 >> 31u64)
}

/// Where the window of item `index` starts in a corpus of `n_tokens` tokens:
/// the mix of `index + seed` (wrapping), reduced modulo the number of
/// possible starts `n_tokens - context_length`.
pub open spec fn window_start_spec(index: usize, seed: u64, n_tokens: int, context_length: int) -> int
    recommends
        n_tokens > context_length,
{
    let start = ((index as int + seed as int) % two_pow_64()) as u64;
    (splitmix64(start) as usize) as int % (n_tokens - context_length)
}

/// A dataset of `len` pseudo-random windows over a token corpus. Item `i`
/// is a `context_length` token window and the same window shifted by one
/// token, the next-token targets.
pub struct TokenWindowDataset {
    data: Arc<[i32]>,
    context_length: usize,
    len: usize,
    seed: u64,
}

impl TokenWindowDataset {
    /// The token corpus.
    pub closed spec fn tokens(&self) -> Seq<i32> {
        (*self.data)@
    }

    /// The number of tokens in a window.
    pub closed spec fn window_len(&self) -> usize {
        self.context_length
    }

    /// The number of items (windows) the dataset exposes.
    pub closed spec fn num_items(&self) -> usize {
        self.len
    }

    /// The seed that picks the windows.
    pub closed spec fn seed_spec(&self) -> u64 {
        self.seed
    }

    /// The corpus is longer than a window.
    #[verifier::type_invariant]
    closed spec fn wf(self) -> bool {
        (*self.data)@.len() > self.context_length
    }

    /// Where the window of item `index` starts.
    pub open spec fn start_of(&self, index: usize) -> int {
        window_start_spec(index, self.seed_spec(), self.tokens().len() as int, self.window_len() as int)
    }

    /// A dataset of `len` windows of `context_length` tokens over `data`,
    /// picked by `seed`. The corpus must be longer than one window.
    pub fn new(data: Arc<[i32]>, context_length: usize, len: usize, seed: u64) -> (d: Self)
        requires
            (*data)@.len() > context_length,
        ensures
            d.tokens() == (*data)@,
            d.window_len() == context_length,
            d.num_items() == len,
            d.seed_spec() == seed,
    {
        TokenWindowDataset { data, context_length, len, seed }
    }

    /// The start of the window of item `index`: a cheap deterministic mix
    /// (splitmix64) from the index to a position.
    pub fn window_start(&self, index: usize) -> (start: usize)
        ensures
            start == self.start_of(index),
            start == (splitmix64(((index as int + self.seed_spec() as int) % two_pow_64()) as u64)
                as usize) as int % (self.tokens().len() - self.window_len()),
            start + self.window_len() < self.tokens().len(),
    {
        proof {
            use_type_invariant(self);
        }
        let mut x: u64 = (index as u64).wrapping_add(self.seed);
        let ghost x_in = x;
        x = x.wrapping_add(0x9E3779B97F4A7C15);
        let ghost x0 = x;
        x = (x ^ (x >> 30)).wrapping_mul(0xBF58476D1CE4E5B9);
        let ghost x1 = x;
        x = (x ^ (x >> 27)).wrapping_mul(0x94D049BB133111EB);
        x ^= x >> 31;
        proof {
            assert(x_in == ((index as int + self.seed as int) % two_pow_64()) as u64);
            assert(x0 == ((x_in as int + 0x9E3779B97F4A7C15) % two_pow_64()) as u64);
            assert(x == splitmix64(x_in));
        }
        let n_starts = self.data.len() - self.context_length;
        (x as usize) % n_starts
    }

    /// Item `index`: `None` past the end, else the window of
    /// `context_length` tokens at `window_start(index)` and the same window
    /// one token later.
    pub fn get(&self, index: usize) -> (item: Option<(Vec<i32>, Vec<i32>)>)
        ensures
            index >= self.num_items() ==> item is None,
            index < self.num_items() ==> (item matches Some((x, y)) && {
                let s = self.start_of(index);
                &&& x@ == self.tokens().subrange(s, s + self.window_len())
                &&& y@ == self.tokens().subrange(s + 1, s + self.window_len() + 1)
            }),
    {
        if index >= self.len {
            return None;
        }
        let start = self.window_start(index);
        let data: &[i32] = &self.data;
        let n = data.len();
        assert(start + self.context_length + 1 <= n);
        let x = vstd::slice::slice_to_vec(
            vstd::slice::slice_subrange(data, start, start + self.context_length),
        );
        let y = vstd::slice::slice_to_vec(
            vstd::slice::slice_subrange(data, start + 1, start + self.context_length + 1),
        );
        Some((x, y))
    }

    /// The number of items.
    pub fn len(&self) -> (n: usize)
        ensures
            n == self.num_items(),
    {
        self.len
    }
}

/// The concatenation of the windows (first components) of `items`.
pub open spec fn concat_inputs(items: Seq<(Vec<i32>, Vec<i32>)>) -> Seq<i32> {
    items.map_values(|item: (Vec<i32>, Vec<i32>)| item.0@).flatten()
}

/// The concatenation of the targets (second components) of `items`.
pub open spec fn concat_targets(items: Seq<(Vec<i32>, Vec<i32>)>) -> Seq<i32> {
    items.map_values(|item: (Vec<i32>, Vec<i32>)| item.1@).flatten()
}

/// The length of the first window of `items`, or `0` for no items.
pub open spec fn first_window_len(items: Seq<(Vec<i32>, Vec<i32>)>) -> int {
    if items.len() == 0 {
        0
    } else {
        items[0].0@.len() as int
    }
}

/// Items stacked row after row, as the training loop uploads them: `xs`
/// holds the inputs, `ys` the targets, each as `batch_size` rows of
/// `context_length` tokens.
pub struct FlatBatch {
    pub xs: Vec<i32>,
    pub ys: Vec<i32>,
    pub batch_size: usize,
    pub context_length: usize,
}

/// Stacks dataset items into batches.
#[derive(Clone, Copy, Default)]
pub struct TokenBatcher;

impl TokenBatcher {
    /// Stacks `items`: the batch size is the number of items, the context
    /// length that of the first window (`0` for no items), and the inputs
    /// and targets are the items' windows concatenated in order.
    pub fn batch(&self, items: Vec<(Vec<i32>, Vec<i32>)>) -> (b: FlatBatch)
        requires
            items@.len() * first_window_len(items@) <= usize::MAX,
        ensures
            b.batch_size == items@.len(),
            b.context_length == first_window_len(items@),
            items@.len() == 0 ==> b.context_length == 0,
            items@.len() > 0 ==> b.context_length == items@[0].0@.len(),
            (forall|r: int|
                0 <= r < items@.len() ==> (#[trigger] items@[r]).0@.len() == b.context_length)
                ==> b.xs@.len() == b.batch_size * b.context_length,
            (forall|r: int|
                0 <= r < items@.len() ==> (#[trigger] items@[r]).1@.len() == b.context_length)
                ==> b.ys@.len() == b.batch_size * b.context_length,
            b.xs@ == concat_inputs(items@),
            b.ys@ == concat_targets(items@),
    {
        let batch_size = items.len();
        let context_length = if batch_size == 0 {
            0
        } else {
            items[0].0.len()
        };
        let ghost all = items@;
        let mut xs: Vec<i32> = Vec::with_capacity(batch_size * context_length);
        let mut ys: Vec<i32> = Vec::with_capacity(batch_size * context_length);
        for item in it: items
            invariant
                it.seq() == all,
                it.index() <= all.len(),
                xs@ == concat_inputs(all.take(it.index() as int)),
                ys@ == concat_targets(all.take(it.index() as int)),
        {
            let ghost k = it.index() as int;
            let (mut x, mut y) = item;
            proof {
                let f = |item: (Vec<i32>, Vec<i32>)| item.0@;
                let g = |item: (Vec<i32>, Vec<i32>)| item.1@;
                assert(all.take(k + 1) =~= all.take(k).push(all[k]));
                assert(all.take(k + 1).map_values(f) =~= all.take(k).map_values(f).push(x@));
                assert(all.take(k + 1).map_values(g) =~= all.take(k).map_values(g).push(y@));
                all.take(k).map_values(f).lemma_flatten_push(x@);
                all.take(k).map_values(g).lemma_flatten_push(y@);
            }
            xs.append(&mut x);
            ys.append(&mut y);
        }
        proof {
            assert(all.take(all.len() as int) =~= all);
            if forall|r: int| 0 <= r < all.len() ==> (#[trigger] all[r]).0@.len() == context_length {
                law_batch_shape(all, context_length as int);
            }
            if forall|r: int| 0 <= r < all.len() ==> (#[trigger] all[r]).1@.len() == context_length {
                lemma_targets_len(all, context_length as int);
            }
        }
        FlatBatch { xs, ys, batch_size, context_length }
    }
}

/// Rows of equal length `width` flatten to `rows.len() * width` elements,
/// element `t` of row `r` landing at `r * width + t`.
proof fn lemma_flatten_rows(rows: Seq<Seq<i32>>, width: int)
    requires
        width >= 0,
        forall|r: int| 0 <= r < rows.len() ==> (#[trigger] rows[r]).len() == width,
    ensures
        rows.flatten().len() == rows.len() * width,
        forall|r: int, t: int|
            0 <= r < rows.len() && 0 <= t < width ==> rows.flatten()[r * width + t] == #[trigger] rows[r][t],
    decreases rows.len(),
{
    if rows.len() > 0 {
        let rest = rows.drop_first();
        lemma_flatten_rows(rest, width);
        assert(rows.len() * width == width + rest.len() * width) by (nonlinear_arith)
            requires
                rows.len() == rest.len() + 1,
        ;
        assert forall|r: int, t: int| 0 <= r < rows.len() && 0 <= t < width implies rows.flatten()[r
            * width + t] == #[trigger] rows[r][t] by {
            if r > 0 {
                assert(r * width + t == width + ((r - 1) * width + t)) by (nonlinear_arith);
                assert((r - 1) * width + t < rest.len() * width) by (nonlinear_arith)
                    requires
                        1 <= r <= rest.len(),
                        0 <= t < width,
                {
                    assert((r - 1) * width + t < r * width);
                    assert(r * width <= rest.len() * width);
                }
                assert(rows[r] == rest[r - 1]);
            }
        }
    }
}

/// When every item holds a window and targets of `width` tokens, a batch is
/// `items.len()` rows of `width` tokens: input `t` of item `r` sits at
/// `r * width + t` of `xs`, and target `t` at the same place of `ys`.
pub proof fn law_batch_rows(items: Seq<(Vec<i32>, Vec<i32>)>, width: int)
    requires
        width >= 0,
        forall|r: int|
            0 <= r < items.len() ==> (#[trigger] items[r]).0@.len() == width && items[r].1@.len()
                == width,
    ensures
        concat_inputs(items).len() == items.len() * width,
        concat_targets(items).len() == items.len() * width,
        forall|r: int, t: int|
            0 <= r < items.len() && 0 <= t < width ==> concat_inputs(items)[r * width + t]
                == #[trigger] items[r].0@[t] && concat_targets(items)[r * width + t]
                == items[r].1@[t],
{
    let xs = items.map_values(|item: (Vec<i32>, Vec<i32>)| item.0@);
    let ys = items.map_values(|item: (Vec<i32>, Vec<i32>)| item.1@);
    assert forall|r: int| 0 <= r < xs.len() implies (#[trigger] xs[r]).len() == width by {
        assert(items[r].0@.len() == width);
    }
    assert forall|r: int| 0 <= r < ys.len() implies (#[trigger] ys[r]).len() == width by {
        assert(items[r].1@.len() == width);
    }
    lemma_flatten_rows(xs, width);
    lemma_flatten_rows(ys, width);
    assert forall|r: int, t: int| 0 <= r < items.len() && 0 <= t < width implies concat_inputs(
        items,
    )[r * width + t] == #[trigger] items[r].0@[t] && concat_targets(items)[r * width + t]
        == items[r].1@[t] by {
        assert(xs[r] == items[r].0@);
        assert(ys[r] == items[r].1@);
    }
}

/// When every input window of `items` has `width` tokens, the batch's
/// context length is `width` and the stacked inputs hold exactly
/// `items.len() * width` tokens, so they fill a `[items.len(), width]`
/// shape.
pub proof fn law_batch_shape(items: Seq<(Vec<i32>, Vec<i32>)>, width: int)
    requires
        width >= 0,
        forall|r: int| 0 <= r < items.len() ==> (#[trigger] items[r]).0@.len() == width,
    ensures
        items.len() > 0 ==> first_window_len(items) == width,
        concat_inputs(items).len() == items.len() * width,
        items.len() > 0 ==> concat_inputs(items).len() == items.len() * first_window_len(items),
{
    let xs = items.map_values(|item: (Vec<i32>, Vec<i32>)| item.0@);
    assert forall|r: int| 0 <= r < xs.len() implies (#[trigger] xs[r]).len() == width by {
        assert(items[r].0@.len() == width);
    }
    lemma_flatten_rows(xs, width);
}

/// When every target window of `items` has `width` tokens, the stacked
/// targets hold exactly `items.len() * width` tokens.
proof fn lemma_targets_len(items: Seq<(Vec<i32>, Vec<i32>)>, width: int)
    requires
        width >= 0,
        forall|r: int| 0 <= r < items.len() ==> (#[trigger] items[r]).1@.len() == width,
    ensures
        concat_targets(items).len() == items.len() * width,
{
    let ys = items.map_values(|item: (Vec<i32>, Vec<i32>)| item.1@);
    assert forall|r: int| 0 <= r < ys.len() implies (#[trigger] ys[r]).len() == width by {
        assert(items[r].1@.len() == width);
    }
    lemma_flatten_rows(ys, width);
}

/// Every item lies inside the corpus, and its targets are the tokens that
/// follow its inputs: target `k` is the token after input `k`, so target
/// `k` equals input `k + 1` within the window.
pub proof fn law_targets_are_next_tokens(d: TokenWindowDataset, index: usize, k: int)
    requires
        d.tokens().len() > d.window_len(),
        0 <= k < d.window_len(),
    ensures
        0 <= d.start_of(index),
        d.start_of(index) + d.window_len() < d.tokens().len(),
        ({
            let s = d.start_of(index);
            let x = d.tokens().subrange(s, s + d.window_len());
            let y = d.tokens().subrange(s + 1, s + d.window_len() + 1);
            &&& x[k] == d.tokens()[s + k]
            &&& y[k] == d.tokens()[s + k + 1]
            &&& k + 1 < d.window_len() ==> y[k] == x[k + 1]
        }),
{
}

/// The inverse of splitmix64: undo the final xor-shift, the second
/// multiplication (by its inverse modulo two to the 64th), the middle
/// xor-shift, the first multiplication, the first xor-shift and the
/// increment.
pub open spec fn unmix64(h: u64) -> u64 {
    let x2 = h ^ (h >> 31u64) ^ (h >> 62u64);
    let b = ((x2 as int * 0x319642b2d24d8ec3) % two_pow_64()) as u64;
    let x1 = b ^ (b >> 27u64) ^ (b >> 54u64);
    let d = ((x1 as int * 0x96de1b173f119089) % two_pow_64()) as u64;
    let x0 = d ^ (d >> 30u64) ^ (d >> 60u64);
    ((x0 as int - 0x9E3779B97F4A7C15 + two_pow_64()) % two_pow_64()) as u64
}

proof fn lemma_unshift31(x: u64, y: u64)
    by (bit_vector)
    requires
        x == y ^ (y >> 31u64) ^ (y >> 62u64),
    ensures
        x ^ (x >> 31u64) == y,
{
}

proof fn lemma_unshift27(x: u64, y: u64)
    by (bit_vector)
    requires
        x == y ^ (y >> 27u64) ^ (y >> 54u64),
    ensures
        x ^ (x >> 27u64) == y,
{
}

proof fn lemma_unshift30(x: u64, y: u64)
    by (bit_vector)
    requires
        x == y ^ (y >> 30u64) ^ (y >> 60u64),
    ensures
        x ^ (x >> 30u64) == y,
{
}

/// Multiplying by `c_inv` and then by `c`, modulo two to the 64th, is the
/// identity when `c * c_inv` is one modulo two to the 64th.
proof fn lemma_mul_inverse(y: u64, c: int, c_inv: int, k: int)
    requires
        c * c_inv == 1 + k * two_pow_64(),
    ensures
        (((y as int * c_inv) % two_pow_64()) * c) % two_pow_64() == y,
{
    let m = two_pow_64();
    vstd::arithmetic::div_mod::lemma_mul_mod_noop_left(y as int * c_inv, c, m);
    assert(y as int * c_inv * c == m * (y as int * k) + y) by (nonlinear_arith)
        requires
            c * c_inv == 1 + k * m,
    ;
    vstd::arithmetic::div_mod::lemma_mod_multiples_vanish(y as int * k, y as int, m);
    vstd::arithmetic::div_mod::lemma_small_mod(y as nat, m as nat);
}

/// splitmix64 is a bijection on `u64`: `unmix64` undoes it.
pub proof fn law_splitmix64_invertible(h: u64)
    ensures
        splitmix64(unmix64(h)) == h,
{
    let m = two_pow_64();
    let x2 = h ^ (h >> 31u64) ^ (h >> 62u64);
    let b = ((x2 as int * 0x319642b2d24d8ec3) % m) as u64;
    let x1 = b ^ (b >> 27u64) ^ (b >> 54u64);
    let d = ((x1 as int * 0x96de1b173f119089) % m) as u64;
    let x0 = d ^ (d >> 30u64) ^ (d >> 60u64);
    let x = unmix64(h);
    assert(((x as int + 0x9E3779B97F4A7C15) % m) as u64 == x0);
    lemma_unshift30(x0, d);
    lemma_mul_inverse(x1, 0xBF58476D1CE4E5B9, 0x96de1b173f119089, 8125545580553827436);
    assert((((x0 ^ (x0 >> 30u64)) as int * 0xBF58476D1CE4E5B9) % m) as u64 == x1);
    lemma_unshift27(x1, b);
    lemma_mul_inverse(x2, 0x94D049BB133111EB, 0x319642b2d24d8ec3, 2077064247507883091);
    assert((((x1 ^ (x1 >> 27u64)) as int * 0x94D049BB133111EB) % m) as u64 == x2);
    lemma_unshift31(x2, h);
}

/// The start of item `index` is the splitmix64 mix of `index + seed`
/// (wrapping) taken modulo the number of possible starts, so it is one of
/// the `tokens - context_length` positions at which a whole window and its
/// targets fit.
pub proof fn law_window_start_is_mix_mod_starts(d: TokenWindowDataset, index: usize)
    requires
        d.tokens().len() > d.window_len(),
    ensures
        ({
            let h = splitmix64(((index as int + d.seed_spec() as int) % two_pow_64()) as u64);
            let n_starts = d.tokens().len() - d.window_len();
            &&& d.start_of(index) == (h as usize) as int % n_starts
            &&& 0 <= d.start_of(index) < n_starts
        }),
{
}

/// On a 64-bit target every position at which a window fits is the start
/// of some item: for each position `s` there is an index whose mixed value
/// is `s` itself.
pub proof fn law_every_start_is_drawn(d: TokenWindowDataset, s: int)
    requires
        d.tokens().len() > d.window_len(),
        d.tokens().len() <= usize::MAX,
        0 <= s < d.tokens().len() - d.window_len(),
        usize::BITS == 64,
    ensures
        exists|index: usize| d.start_of(index) == s,
{
    let m = two_pow_64();
    let n_starts = d.tokens().len() - d.window_len();
    assert(usize::MAX == 0xFFFF_FFFF_FFFF_FFFF);
    assert(s <= usize::MAX);
    let h = s as u64;
    let x = unmix64(h);
    law_splitmix64_invertible(h);
    let index = ((x as int - d.seed_spec() as int + m) % m) as usize;
    assert(((index as int + d.seed_spec() as int) % m) as u64 == x);
    assert((h as usize) as int == s);
    vstd::arithmetic::div_mod::lemma_small_mod(s as nat, n_starts as nat);
    assert(d.start_of(index) == s);
}

/// Another handle on the same token buffer.
///
/// Trusted: calls `Arc::clone`, which the documentation describes as making
/// another pointer to the same allocation, so the tokens seen through it are
/// the same.
#[verifier::external_body]
fn share_tokens(data: &Arc<[i32]>) -> (shared: Arc<[i32]>)
    ensures
        (*shared)@ == (**data)@,
{
    Arc::clone(data)
}

impl Clone for TokenWindowDataset {
    /// A dataset over the same corpus, with the same windows.
    fn clone(&self) -> (c: Self)
        ensures
            c.tokens() == self.tokens(),
            c.window_len() == self.window_len(),
            c.num_items() == self.num_items(),
            c.seed_spec() == self.seed_spec(),
    {
        proof {
            use_type_invariant(self);
        }
        TokenWindowDataset {
            data: share_tokens(&self.data),
            context_length: self.context_length,
            len: self.len,
            seed: self.seed,
        }
    }
}

} // verus!
