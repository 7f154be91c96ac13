//! Gathering the light that reaches a surface point. Each light offers what
//! it would add to the diffuse and to the specular intensity; a light that
//! stands behind another surface adds nothing. Shadows are hard: a light is
//! either seen in full or not at all.

use vstd::prelude::*;
use vstd::std_specs::ops::AddSpec;
use std::ops::Add;
use crate::order::{comparable, less};

verus! {

/// One light as seen from a surface point.
#[derive(Clone, Copy, Debug)]
pub struct LightSample<T> {
    /// The distance to what the shadow ray towards the light meets first,
    /// if it meets anything.
    pub blocker: Option<T>,
    /// The distance to the light.
    pub light_distance: T,
    /// What the light adds to the diffuse intensity where it is seen.
    pub diffuse: T,
    /// What the light adds to the specular intensity where it is seen.
    pub specular: T,
}

/// The light gathered at a surface point.
#[derive(Clone, Copy, Debug)]
pub struct Glow<T> {
    pub diffuse: T,
    pub specular: T,
}

/// A light is hidden when something stands strictly nearer than the light
/// itself.
pub open spec fn hidden<T: PartialOrd>(blocker: Option<T>, light_distance: T) -> bool {
    blocker.is_some() && less(blocker.unwrap(), light_distance)
}

/// Whether a surface stands between a point and a light.
pub fn occluded<T: PartialOrd + Copy>(blocker: Option<T>, light_distance: T) -> (shadowed: bool)
    ensures
        comparable::<T>() ==> shadowed == hidden(blocker, light_distance),
{
    match blocker {
        Some(d) => d < light_distance,
        None => false,
    }
}

/// The sums of what the lights that are seen add, taken in the order of
/// `samples` and begun at `zero`.
pub open spec fn gathered<T: PartialOrd + Add<Output = T>>(
    samples: Seq<LightSample<T>>,
    zero: T,
) -> Glow<T>
    decreases samples.len(),
{
    if samples.len() == 0 {
        Glow { diffuse: zero, specular: zero }
    } else {
        let before = gathered(samples.drop_last(), zero);
        let light = samples.last();
        if hidden(light.blocker, light.light_distance) {
            before
        } else {
            Glow {
                diffuse: before.diffuse.add_spec(light.diffuse),
                specular: before.specular.add_spec(light.specular),
            }
        }
    }
}

/// Every sum of `gather` is defined on these samples.
pub open spec fn gather_req<T: PartialOrd + Add<Output = T>>(
    samples: Seq<LightSample<T>>,
    zero: T,
) -> bool
    decreases samples.len(),
{
    &&& comparable::<T>()
    &&& T::obeys_add_spec()
    &&& samples.len() > 0 ==> {
        let before = gathered(samples.drop_last(), zero);
        let light = samples.last();
        &&& gather_req(samples.drop_last(), zero)
        &&& !hidden(light.blocker, light.light_distance) ==> before.diffuse.add_req(light.diffuse)
            && before.specular.add_req(light.specular)
    }
}

/// Sums the diffuse and the specular intensity that the lights add at a
/// surface point, leaving out every light that is hidden. `zero` is the
/// scalar's 0.
pub fn gather<T: Copy + PartialOrd + Add<Output = T>>(samples: &[LightSample<T>], zero: T) -> (glow:
    Glow<T>)
    requires
        gather_req(samples@, zero),
    ensures
        glow == gathered(samples@, zero),
{
    let mut glow: Glow<T> = Glow { diffuse: zero, specular: zero };
    let mut i: usize = 0;
    proof {
        assert(samples@.take(0) =~= Seq::<LightSample<T>>::empty());
        lemma_gather_req_of_prefix(samples@, zero, 0);
    }
    while i < samples.len()
        invariant
            0 <= i <= samples@.len(),
            gather_req(samples@, zero),
            glow == gathered(samples@.take(i as int), zero),
        decreases samples@.len() - i,
    {
        proof {
            assert(samples@.take(i + 1).drop_last() =~= samples@.take(i as int));
            assert(samples@.take(i + 1).last() == samples@[i as int]);
            lemma_gather_req_of_prefix(samples@, zero, i + 1);
        }
        let light: &LightSample<T> = &samples[i];
        if !occluded(light.blocker, light.light_distance) {
            glow = Glow {
                diffuse: glow.diffuse + light.diffuse,
                specular: glow.specular + light.specular,
            };
        }
        i += 1;
    }
    assert(samples@.take(i as int) =~= samples@);
    glow
}

/// Where every sum is defined on `samples`, it is on each of their prefixes.
pub proof fn lemma_gather_req_of_prefix<T: PartialOrd + Add<Output = T>>(
    samples: Seq<LightSample<T>>,
    zero: T,
    n: int,
)
    requires
        gather_req(samples, zero),
        0 <= n <= samples.len(),
    ensures
        gather_req(samples.take(n), zero),
    decreases samples.len(),
{
    if n == samples.len() {
        assert(samples.take(n) =~= samples);
    } else {
        lemma_gather_req_of_prefix(samples.drop_last(), zero, n);
        assert(samples.drop_last().take(n) =~= samples.take(n));
    }
}

/// A hidden light adds nothing: the light gathered is what it would be if
/// that light were not there.
pub proof fn lemma_hidden_light_adds_nothing<T: PartialOrd + Add<Output = T>>(
    samples: Seq<LightSample<T>>,
    zero: T,
    k: int,
)
    requires
        0 <= k < samples.len(),
        hidden(samples[k].blocker, samples[k].light_distance),
    ensures
        gathered(samples, zero) == gathered(samples.remove(k), zero),
    decreases samples.len(),
{
    if k == samples.len() - 1 {
        assert(samples.remove(k) =~= samples.drop_last());
    } else {
        lemma_hidden_light_adds_nothing(samples.drop_last(), zero, k);
        assert(samples.remove(k).drop_last() =~= samples.drop_last().remove(k));
        assert(samples.remove(k).last() == samples.last());
    }
}

} // verus!
