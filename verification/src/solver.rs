//! The escape-time iteration of one point of the plane.
//!
//! The iteration is counted and bounded here; the complex arithmetic is
//! the caller's: a step `z -> z * z + c`, a test for escape, and the
//! smoothing of the count, all on binary64 encodings.

use vstd::prelude::*;
use crate::color::{bounded_orbit, is_interior};
use crate::encoding::{binary64_of_count, lemma_count_reaches_itself};
use crate::field::Orbit;

verus! {

/// A complex number as the binary64 encodings of its two parts.
#[derive(Clone, Copy, Debug, PartialEq, Eq, Structural)]
pub struct ComplexBits {
    pub re: u64,
    pub im: u64,
}

/// Zero, where every orbit starts.
pub open spec fn origin() -> ComplexBits {
    ComplexBits { re: 0, im: 0 }
}

/// `z` can be the iterate after `n` steps from zero for the point `c`,
/// with no iterate before it escaped.
pub open spec fn iterate_of<S: Fn(ComplexBits, ComplexBits) -> ComplexBits, E: Fn(
    ComplexBits,
) -> bool>(step: &S, escaped: &E, c: ComplexBits, n: nat, z: ComplexBits) -> bool
    decreases n,
{
    if n == 0 {
        z == origin()
    } else {
        exists|before: ComplexBits|
            {
                &&& iterate_of(step, escaped, c, (n - 1) as nat, before)
                &&& call_ensures(escaped, (before,), false)
                &&& #[trigger] call_ensures(step, (before, c), z)
            }
    }
}

/// `orbit` is a result of the iteration for `c` that stopped after `n`
/// steps at `z`: either `z` escaped, and the escape count is the smoothed
/// `n`; or the limit was reached with `z` not escaped, and the escape
/// count is the limit itself.
pub open spec fn stops_with<E: Fn(ComplexBits) -> bool, M: Fn(u32, ComplexBits) -> u64>(
    escaped: &E,
    smooth: &M,
    max_iterations: u32,
    n: u32,
    z: ComplexBits,
    orbit: Orbit,
) -> bool {
    &&& n <= max_iterations
    &&& orbit.z_re == z.re
    &&& orbit.z_im == z.im
    &&& {
        ||| call_ensures(escaped, (z,), true) && call_ensures(smooth, (n, z), orbit.escape)
        ||| n == max_iterations && call_ensures(escaped, (z,), false) && orbit.escape
            == binary64_of_count(max_iterations as nat)
    }
}

/// Iterates `z -> z * z + c` from zero until an iterate escapes or
/// `max_iterations` steps are done, whichever comes first.
pub fn run_mandelbrot<
    S: Fn(ComplexBits, ComplexBits) -> ComplexBits,
    E: Fn(ComplexBits) -> bool,
    M: Fn(u32, ComplexBits) -> u64,
>(max_iterations: u32, c: ComplexBits, step: &S, escaped: &E, smooth: &M) -> (out: Orbit)
    requires
        forall|z: ComplexBits| call_requires(step, (z, c)),
        forall|z: ComplexBits| call_requires(escaped, (z,)),
        forall|n: u32, z: ComplexBits| call_requires(smooth, (n, z)),
    ensures
        exists|n: u32, z: ComplexBits|
            #![trigger iterate_of(step, escaped, c, n as nat, z)]
            iterate_of(step, escaped, c, n as nat, z) && stops_with(
                escaped,
                smooth,
                max_iterations,
                n,
                z,
                out,
            ),
{
    let mut z: ComplexBits = ComplexBits { re: 0, im: 0 };
    let mut n: u32 = 0;
    loop
        invariant
            n <= max_iterations,
            iterate_of(step, escaped, c, n as nat, z),
            forall|z: ComplexBits| call_requires(step, (z, c)),
            forall|z: ComplexBits| call_requires(escaped, (z,)),
            forall|n: u32, z: ComplexBits| call_requires(smooth, (n, z)),
        decreases max_iterations - n,
    {
        let gone: bool = escaped(z);
        if gone {
            let escape: u64 = smooth(n, z);
            let out = Orbit { escape, z_re: z.re, z_im: z.im };
            assert(stops_with(escaped, smooth, max_iterations, n, z, out));
            return out;
        }
        if n >= max_iterations {
            let out = bounded_orbit(max_iterations, z.re, z.im);
            proof {
                lemma_count_reaches_itself(max_iterations);
            }
            assert(stops_with(escaped, smooth, max_iterations, n, z, out));
            return out;
        }
        let next: ComplexBits = step(z, c);
        n = n + 1;
        z = next;
    }
}

/// A point none of whose iterates ever escapes is reported as bounded,
/// with the iteration limit as its escape count, whatever the limit is.
pub proof fn law_bounded_orbit_is_interior<
    S: Fn(ComplexBits, ComplexBits) -> ComplexBits,
    E: Fn(ComplexBits) -> bool,
    M: Fn(u32, ComplexBits) -> u64,
>(
    step: &S,
    escaped: &E,
    smooth: &M,
    max_iterations: u32,
    c: ComplexBits,
    n: u32,
    z: ComplexBits,
    orbit: Orbit,
)
    requires
        iterate_of(step, escaped, c, n as nat, z),
        stops_with(escaped, smooth, max_iterations, n, z, orbit),
        forall|k: nat, w: ComplexBits|
            iterate_of(step, escaped, c, k, w) ==> !call_ensures(escaped, (w,), true),
    ensures
        n == max_iterations,
        orbit.escape == binary64_of_count(max_iterations as nat),
        is_interior(orbit, max_iterations),
{
    lemma_count_reaches_itself(max_iterations);
}

} // verus!
