//! The recursive ray caster. What a ray meets, what lies behind the scene,
//! which two rays leave a surface and how a surface is shaded are the four
//! steps of a `Tracer`; this module owns the recursion that joins them and
//! the depth at which it ends.

use vstd::prelude::*;

verus! {

/// The steps of a ray caster over rays `R`, surface hits `H` and colours `C`.
pub struct Tracer<I, B, S, F> {
    /// The greatest depth at which a ray is still followed into the scene.
    pub max_depth: usize,
    /// What the ray meets first, if anything.
    pub intersect: I,
    /// The colour behind the scene in the direction of the ray.
    pub background: B,
    /// The reflected and the refracted ray that leave a surface.
    pub scatter: S,
    /// The colour of a surface, given the colours that its reflected and its
    /// refracted ray brought back.
    pub shade: F,
}

impl<I, B, S, F> Tracer<I, B, S, F> {
    /// Every step may be taken on every input.
    pub open spec fn total<R, H, C>(self) -> bool where
        I: Fn(&R) -> Option<H>,
        B: Fn(&R) -> C,
        S: Fn(&R, &H) -> (R, R),
        F: Fn(&R, &H, C, C) -> C,
     {
        &&& forall|ray: R| call_requires(self.intersect, (&ray,))
        &&& forall|ray: R| call_requires(self.background, (&ray,))
        &&& forall|ray: R, hit: H| call_requires(self.scatter, (&ray, &hit))
        &&& forall|ray: R, hit: H, mirrored: C, bent: C|
            call_requires(self.shade, (&ray, &hit, mirrored, bent))
    }

    /// `color` is a colour that the steps can give to `ray` at `depth`. Past
    /// the greatest depth, and where the ray meets nothing, it is the
    /// background of the ray. Elsewhere it is the shade of what the ray meets,
    /// given a colour of the reflected and one of the refracted ray, both one
    /// level deeper.
    pub open spec fn traced<R, H, C>(self, ray: R, depth: nat, color: C) -> bool where
        I: Fn(&R) -> Option<H>,
        B: Fn(&R) -> C,
        S: Fn(&R, &H) -> (R, R),
        F: Fn(&R, &H, C, C) -> C,

        decreases self.max_depth + 1 - depth,
    {
        if depth > self.max_depth {
            call_ensures(self.background, (&ray,), color)
        } else {
            exists|met: Option<H>| #[trigger]
                call_ensures(self.intersect, (&ray,), met) && match met {
                    None => call_ensures(self.background, (&ray,), color),
                    Some(hit) => exists|mirrored: R, bent: R, first: C, second: C|
                        {
                            &&& #[trigger] call_ensures(
                                self.scatter,
                                (&ray, &hit),
                                (mirrored, bent),
                            )
                            &&& self.traced(mirrored, depth + 1, first)
                            &&& self.traced(bent, depth + 1, second)
                            &&& #[trigger] call_ensures(
                                self.shade,
                                (&ray, &hit, first, second),
                                color,
                            )
                        },
                }
        }
    }

    /// Casts `ray` at recursion depth `depth` and returns its colour.
    pub fn cast_ray<R, H, C>(&self, ray: &R, depth: usize) -> (color: C) where
        I: Fn(&R) -> Option<H>,
        B: Fn(&R) -> C,
        S: Fn(&R, &H) -> (R, R),
        F: Fn(&R, &H, C, C) -> C,

        requires
            self.total::<R, H, C>(),
            self.max_depth < usize::MAX,
        ensures
            self.traced(*ray, depth as nat, color),
        decreases self.max_depth + 1 - depth,
    {
        if depth > self.max_depth {
            return (self.background)(ray);
        }
        let met: Option<H> = (self.intersect)(ray);
        match met {
            None => (self.background)(ray),
            Some(hit) => {
                let (mirrored, bent) = (self.scatter)(ray, &hit);
                let first: C = self.cast_ray(&mirrored, depth + 1);
                let second: C = self.cast_ray(&bent, depth + 1);
                let color: C = (self.shade)(ray, &hit, first, second);
                assert(call_ensures(self.scatter, (ray, &hit), (mirrored, bent)));
                assert(call_ensures(self.intersect, (ray,), met));
                color
            },
        }
    }

    /// Past the greatest depth the recursion ends: the colour of a ray is its
    /// background and nothing else.
    pub proof fn lemma_depth_cutoff<R, H, C>(self, ray: R, depth: nat, color: C) where
        I: Fn(&R) -> Option<H>,
        B: Fn(&R) -> C,
        S: Fn(&R, &H) -> (R, R),
        F: Fn(&R, &H, C, C) -> C,

        requires
            depth > self.max_depth,
        ensures
            self.traced(ray, depth, color) <==> call_ensures(self.background, (&ray,), color),
    {
    }

    /// A ray that can meet nothing has the colour of its background, with no
    /// shading added.
    pub proof fn lemma_miss_is_background<R, H, C>(self, ray: R, depth: nat, color: C) where
        I: Fn(&R) -> Option<H>,
        B: Fn(&R) -> C,
        S: Fn(&R, &H) -> (R, R),
        F: Fn(&R, &H, C, C) -> C,

        requires
            self.traced(ray, depth, color),
            forall|met: Option<H>| call_ensures(self.intersect, (&ray,), met) ==> met.is_none(),
        ensures
            call_ensures(self.background, (&ray,), color),
    {
    }
}

} // verus!
