use vstd::prelude::*;

use rand::{Rng, SeedableRng};

verus! {

/// Declaration of the PCG-64 generator type (`rand_pcg::Pcg64` is an alias
/// for it); opaque to verification.
#[verifier::external_type_specification]
#[verifier::external_body]
pub struct ExLcg128Xsl64(rand_pcg::Lcg128Xsl64);

/// The simulation's pseudo-random generator: a PCG-64 owned by the driver
/// and threaded explicitly through every system that needs randomness, so a
/// run is reproducible from its seed.
pub struct SimRng {
    inner: rand_pcg::Pcg64,
}

impl SimRng {
    /// Relies on `rand::SeedableRng::seed_from_u64`: builds a PCG-64 whose
    /// draws are a function of `seed` alone.
    #[verifier::external_body]
    pub fn from_seed(seed: u64) -> SimRng {
        SimRng { inner: rand_pcg::Pcg64::seed_from_u64(seed) }
    }

    /// Relies on `rand::rng` and `rand::SeedableRng::from_rng`: seeds a
    /// PCG-64 from the thread-local entropy source.
    #[verifier::external_body]
    pub fn from_entropy() -> SimRng {
        SimRng { inner: rand_pcg::Pcg64::from_rng(&mut rand::rng()) }
    }

    /// Relies on `rand::Rng::random_range` over `0..n`, which returns a
    /// uniform value of that range and panics only when the range is empty.
    #[verifier::external_body]
    pub fn random_below(&mut self, n: u64) -> (r: u64)
        requires
            n > 0,
        ensures
            r < n,
    {
        self.inner.random_range(0..n)
    }
}

} // verus!
