use vstd::prelude::*;

verus! {

/// The scattering model of a material.
#[derive(Clone, Copy, Debug, PartialEq, Eq, Structural)]
pub enum Surface {
    /// Lambertian diffuse: scatters around the normal.
    LambDiffuse,
    /// Mirror-like, possibly fuzzed.
    Reflective,
    /// Transparent, refracting or reflecting by Schlick's approximation.
    Dielectric,
}

impl Default for Surface {
    fn default() -> (r: Surface)
        ensures
            r == Surface::LambDiffuse,
    {
        Surface::LambDiffuse
    }
}

/// Whether a ray that met a surface of kind `s` leaves it again.
/// `above_surface` tells whether the candidate outgoing direction points to the
/// side of the normal; only a reflective surface can absorb.
pub open spec fn scatters_spec(s: Surface, above_surface: bool) -> bool {
    match s {
        Surface::LambDiffuse => true,
        Surface::Reflective => above_surface,
        Surface::Dielectric => true,
    }
}

/// Whether the outgoing direction is the mirror reflection of the incoming one.
/// A dielectric reflects when refraction is impossible or when the random draw
/// falls below the reflectance.
pub open spec fn reflects_spec(s: Surface, cannot_refract: bool, draw_below_reflectance: bool) -> bool {
    match s {
        Surface::LambDiffuse => false,
        Surface::Reflective => true,
        Surface::Dielectric => cannot_refract || draw_below_reflectance,
    }
}

impl Surface {
    /// Whether the scattered ray is kept (`true`) or absorbed.
    pub fn scatters(self, above_surface: bool) -> (r: bool)
        ensures
            r == scatters_spec(self, above_surface),
            self == Surface::LambDiffuse ==> r,
            self == Surface::Dielectric ==> r,
    {
        match self {
            Surface::LambDiffuse => true,
            Surface::Reflective => above_surface,
            Surface::Dielectric => true,
        }
    }

    /// Whether the outgoing direction is a mirror reflection; otherwise it is a
    /// diffuse direction (diffuse surface) or a refraction (dielectric).
    pub fn reflects(self, cannot_refract: bool, draw_below_reflectance: bool) -> (r: bool)
        ensures
            r == reflects_spec(self, cannot_refract, draw_below_reflectance),
    {
        match self {
            Surface::LambDiffuse => false,
            Surface::Reflective => true,
            Surface::Dielectric => cannot_refract || draw_below_reflectance,
        }
    }
}

} // verus!
