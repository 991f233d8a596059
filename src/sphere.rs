use vstd::prelude::*;

verus! {

/// Which of the two roots of a ray/sphere quadratic is the hit.
#[derive(Clone, Copy, Debug, PartialEq, Eq, Structural)]
pub enum Root {
    /// The smaller root, `(-half_b - sqrt(disc)) / a`.
    Near,
    /// The larger root, `(-half_b + sqrt(disc)) / a`.
    Far,
}

/// Whether key `t` lies in the closed range `[t_min, t_max]`.
pub open spec fn within(t: u64, t_min: u64, t_max: u64) -> bool {
    t_min <= t <= t_max
}

/// The root a sphere reports: the nearer one when it lies in the searched
/// range, else the farther one when that does, else none.
pub open spec fn root_choice(near: u64, far: u64, t_min: u64, t_max: u64) -> Option<Root> {
    if within(near, t_min, t_max) {
        Some(Root::Near)
    } else if within(far, t_min, t_max) {
        Some(Root::Far)
    } else {
        None
    }
}

/// Chooses the hit among the roots of a ray/sphere quadratic with a
/// non-negative discriminant. All four arguments are order keys (see
/// `order_key`) of ray parameters.
pub fn select_root(near: u64, far: u64, t_min: u64, t_max: u64) -> (r: Option<Root>)
    ensures
        r == root_choice(near, far, t_min, t_max),
{
    if t_min <= near && near <= t_max {
        Some(Root::Near)
    } else if t_min <= far && far <= t_max {
        Some(Root::Far)
    } else {
        None
    }
}

/// The key of the chosen root.
pub open spec fn root_key(r: Root, near: u64, far: u64) -> u64 {
    match r {
        Root::Near => near,
        Root::Far => far,
    }
}

/// Narrowing the upper end of the range keeps the chosen root when it still
/// lies below the new end, and loses it otherwise: a sphere searched up to the
/// closest hit found so far reports what it reports over the whole range,
/// exactly when that is no farther.
pub proof fn lemma_root_choice_narrowed(near: u64, far: u64, t_min: u64, t_max: u64, bound: u64)
    requires
        near <= far,
        bound <= t_max,
    ensures
        root_choice(near, far, t_min, bound) == (match root_choice(near, far, t_min, t_max) {
            Some(r) => if root_key(r, near, far) <= bound {
                Some(r)
            } else {
                None
            },
            None => None,
        }),
{
}

} // verus!
