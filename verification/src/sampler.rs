use vstd::prelude::*;
use crate::catalog::Config;

verus! {

/// One sampled attribute tuple for one item: an index into the background
/// palette and one index per image layer category, in category order. Any
/// combination is valid; nothing ties the categories together.
pub struct AttributeSample {
    pub background: usize,
    pub layers: Vec<usize>,
}

impl AttributeSample {
    /// Every sampled index lies in its category's range.
    pub open spec fn valid_for(self, config: Config) -> bool {
        &&& self.background < config.palette@.len()
        &&& self.layers@.len() == config.layers@.len()
        &&& forall|k: int|
            0 <= k < self.layers@.len() ==> #[trigger] self.layers@[k]
                < config.layers@[k].cardinality
    }
}

/// Relies on rand::Rng::gen_range over `0..n` on the thread-local
/// generator: the drawn value always lies in `[0, n)`. The range must be
/// non-empty, since gen_range panics on an empty one.
#[verifier::external_body]
fn random_index(n: usize) -> (r: usize)
    requires
        1 <= n,
    ensures
        r < n,
{
    rand::Rng::gen_range(&mut rand::thread_rng(), 0..n)
}

/// Draw one attribute sample for one item: one uniformly random index per
/// category, each drawn independently of the others. The sampler's own
/// responsibility is the per-category range and assembling the tuple in
/// category order; repeats across items are possible and accepted.
#[verifier::loop_isolation(false)]
pub fn sample(config: &Config) -> (s: AttributeSample)
    requires
        config.wf(),
    ensures
        s.valid_for(*config),
{
    let background = random_index(config.palette.len());
    let mut layers: Vec<usize> = Vec::new();
    let mut k: usize = 0;
    while k < config.layers.len()
        invariant
            k <= config.layers@.len(),
            layers@.len() == k,
            forall|j: int| 0 <= j < k ==> #[trigger] layers@[j] < config.layers@[j].cardinality,
        decreases config.layers@.len() - k,
    {
        layers.push(random_index(config.layers[k].cardinality));
        k = k + 1;
    }
    AttributeSample { background, layers }
}

} // verus!
