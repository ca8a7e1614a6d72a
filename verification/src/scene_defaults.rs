use vstd::prelude::*;

verus! {

/// Image width used when a scene file names none.
pub fn default_width() -> (w: u32)
    ensures
        w == 800,
{
    800
}

/// Image height used when a scene file names none.
pub fn default_height() -> (h: u32)
    ensures
        h == 600,
{
    600
}

/// Number of reflection bounces used when a scene file names none.
pub fn default_max_bounces() -> (b: u32)
    ensures
        b == 3,
{
    3
}

/// Render time in milliseconds used when a scene file names none.
pub fn default_render_time_ms() -> (t: u64)
    ensures
        t == 500,
{
    500
}

} // verus!
