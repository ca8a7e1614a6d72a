use vstd::prelude::*;

verus! {

/// The fan that splits a convex polygon with `count` corners into
/// triangles: corners `(0, i + 1, i + 2)` for each `i` below `count - 2`, and
/// nothing for fewer than three corners.
pub open spec fn fan(count: nat) -> Seq<(usize, usize, usize)> {
    if count < 3 {
        Seq::empty()
    } else {
        Seq::new((count - 2) as nat, |i: int| (0usize, (i + 1) as usize, (i + 2) as usize))
    }
}

/// The triangles, as corner indices, that both renderers draw for a convex
/// polygon with `vertex_count` corners.
pub fn fan_triangles(vertex_count: usize) -> (tris: Vec<(usize, usize, usize)>)
    ensures
        tris@ == fan(vertex_count as nat),
{
    let mut tris: Vec<(usize, usize, usize)> = Vec::new();
    if vertex_count < 3 {
        return tris;
    }
    let mut i: usize = 1;
    while i < vertex_count - 1
        invariant
            3 <= vertex_count,
            1 <= i <= vertex_count - 1,
            tris@ == fan(vertex_count as nat).take(i - 1),
        decreases vertex_count - 1 - i,
    {
        tris.push((0, i, i + 1));
        proof {
            assert(fan(vertex_count as nat).take(i as int) =~= fan(vertex_count as nat).take(
                i - 1,
            ).push((0usize, i, (i + 1) as usize)));
        }
        i = i + 1;
    }
    proof {
        assert(fan(vertex_count as nat).take(i - 1) =~= fan(vertex_count as nat));
    }
    tris
}

/// Every triangle of a fan uses three distinct corners of the polygon, all
/// triangles share corner 0, and each one shares its last edge with the next.
pub proof fn lemma_fan_shape(count: nat)
    requires
        count <= usize::MAX,
    ensures
        fan(count).len() == if count < 3 { 0 } else { count - 2 },
        forall|i: int|
            0 <= i < fan(count).len() ==> {
                let t = #[trigger] fan(count)[i];
                &&& t.0 == 0
                &&& t.0 < t.1 < t.2 < count
            },
        forall|i: int|
            0 <= i < fan(count).len() - 1 ==> (#[trigger] fan(count)[i]).2 == fan(count)[i
                + 1].1,
{
}

/// Where a triangle of the GPU's triangle buffer comes from.
#[derive(Debug, Clone, Copy, PartialEq, Eq, Structural)]
pub enum TriangleSource {
    /// The scene's triangle at this index.
    Scene(usize),
    /// One triangle of the fan of the scene's polygon at this index, by its
    /// corner indices.
    Polygon { polygon: usize, v0: usize, v1: usize, v2: usize },
    /// The stand-in that keeps the buffer from being empty.
    Placeholder,
}

/// The scene's triangles `0..n`, in order.
pub open spec fn scene_triangle_sources(n: nat) -> Seq<TriangleSource> {
    Seq::new(n, |i: int| TriangleSource::Scene(i as usize))
}

/// The fan of polygon `p` with `count` corners.
pub open spec fn polygon_fan_sources(p: int, count: nat) -> Seq<TriangleSource> {
    fan(count).map_values(
        |t: (usize, usize, usize)|
            TriangleSource::Polygon { polygon: p as usize, v0: t.0, v1: t.1, v2: t.2 },
    )
}

/// The fans of all polygons, polygon by polygon.
pub open spec fn polygon_sources(sizes: Seq<usize>) -> Seq<TriangleSource>
    decreases sizes.len(),
{
    if sizes.len() == 0 {
        Seq::empty()
    } else {
        polygon_sources(sizes.drop_last()) + polygon_fan_sources(
            sizes.len() - 1,
            sizes.last() as nat,
        )
    }
}

/// The GPU triangle buffer: the scene's triangles, then the polygons' fans,
/// or a single placeholder when that leaves nothing.
pub open spec fn gpu_triangle_sources(num_triangles: nat, sizes: Seq<usize>) -> Seq<
    TriangleSource,
> {
    let all = scene_triangle_sources(num_triangles) + polygon_sources(sizes);
    if all.len() == 0 {
        seq![TriangleSource::Placeholder]
    } else {
        all
    }
}

/// How a scene is laid out in the GPU's storage buffers, and the counts that
/// the shader is told.
pub struct GpuSceneLayout {
    /// Entries in the sphere buffer (a placeholder when the scene has none).
    pub sphere_slots: usize,
    /// Spheres the shader tests.
    pub num_spheres: u32,
    /// The triangle buffer, entry by entry.
    pub triangles: Vec<TriangleSource>,
    /// Triangles the shader tests.
    pub num_triangles: u32,
    /// Entries in the light buffer (a placeholder when the scene has none).
    pub light_slots: usize,
    /// Lights the shader uses.
    pub num_lights: u32,
}

/// Lays out a scene with `num_spheres` spheres, `num_triangles` triangles,
/// polygons with `polygon_sizes` corners each, and `num_lights` lights.  No
/// storage buffer is ever empty (an empty list gets one placeholder); the
/// shader's sphere count is zero when the scene
/// has no sphere, and its triangle count is zero when the scene has neither
/// triangles nor polygons (a polygon list of degenerate polygons still
/// counts the placeholder).  Counts are truncated to 32 bits.
pub fn gpu_scene_layout(
    num_spheres: usize,
    num_triangles: usize,
    polygon_sizes: &[usize],
    num_lights: usize,
) -> (layout: GpuSceneLayout)
    ensures
        layout.sphere_slots == if num_spheres == 0 { 1 } else { num_spheres },
        layout.num_spheres == if num_spheres == 0 { 0 } else { num_spheres as u32 },
        layout.triangles@ == gpu_triangle_sources(num_triangles as nat, polygon_sizes@),
        layout.num_triangles == if num_triangles == 0 && polygon_sizes@.len() == 0 {
            0
        } else {
            layout.triangles@.len() as u32
        },
        layout.light_slots == if num_lights == 0 { 1 } else { num_lights },
        layout.num_lights == num_lights as u32,
        layout.sphere_slots >= 1 && layout.triangles@.len() >= 1 && layout.light_slots >= 1,
        forall|i: int|
            0 <= i < num_triangles ==> #[trigger] layout.triangles@[i] == TriangleSource::Scene(
                i as usize,
            ),
{
    let mut triangles: Vec<TriangleSource> = Vec::new();
    let mut t: usize = 0;
    while t < num_triangles
        invariant
            t <= num_triangles,
            triangles@ == scene_triangle_sources(t as nat),
        decreases num_triangles - t,
    {
        triangles.push(TriangleSource::Scene(t));
        proof {
            assert(scene_triangle_sources((t + 1) as nat) =~= scene_triangle_sources(
                t as nat,
            ).push(TriangleSource::Scene(t)));
        }
        t = t + 1;
    }
    proof {
        lemma_scene_triangles_first(num_triangles as nat, polygon_sizes@);
    }
    let mut p: usize = 0;
    while p < polygon_sizes.len()
        invariant
            p <= polygon_sizes@.len(),
            triangles@ == scene_triangle_sources(num_triangles as nat) + polygon_sources(
                polygon_sizes@.take(p as int),
            ),
        decreases polygon_sizes@.len() - p,
    {
        let corners = fan_triangles(polygon_sizes[p]);
        let ghost start = triangles@;
        let mut k: usize = 0;
        while k < corners.len()
            invariant
                k <= corners@.len(),
                corners@ == fan(polygon_sizes@[p as int] as nat),
                triangles@ == start + polygon_fan_sources(
                    p as int,
                    polygon_sizes@[p as int] as nat,
                ).take(k as int),
            decreases corners@.len() - k,
        {
            let (v0, v1, v2) = corners[k];
            triangles.push(TriangleSource::Polygon { polygon: p, v0, v1, v2 });
            proof {
                let fs = polygon_fan_sources(p as int, polygon_sizes@[p as int] as nat);
                assert(fs.take(k + 1) =~= fs.take(k as int).push(fs[k as int]));
                assert(start + fs.take(k + 1) =~= (start + fs.take(k as int)).push(fs[k as int]));
            }
            k = k + 1;
        }
        proof {
            let fs = polygon_fan_sources(p as int, polygon_sizes@[p as int] as nat);
            assert(fs.take(k as int) =~= fs);
            let taken = polygon_sizes@.take(p + 1);
            assert(taken.drop_last() =~= polygon_sizes@.take(p as int));
            assert(polygon_sources(taken) == polygon_sources(taken.drop_last()) + fs);
            assert(triangles@ =~= scene_triangle_sources(num_triangles as nat) + polygon_sources(
                taken,
            ));
        }
        p = p + 1;
    }
    proof {
        assert(polygon_sizes@.take(p as int) =~= polygon_sizes@);
    }
    if triangles.len() == 0 {
        triangles.push(TriangleSource::Placeholder);
        proof {
            assert(triangles@ =~= seq![TriangleSource::Placeholder]);
        }
    }
    let num_triangles_shader: u32 = if num_triangles == 0 && polygon_sizes.len() == 0 {
        0
    } else {
        triangles.len() as u32
    };
    GpuSceneLayout {
        sphere_slots: if num_spheres == 0 { 1 } else { num_spheres },
        num_spheres: if num_spheres == 0 { 0 } else { num_spheres as u32 },
        triangles,
        num_triangles: num_triangles_shader,
        light_slots: if num_lights == 0 { 1 } else { num_lights },
        num_lights: num_lights as u32,
    }
}

/// The GPU triangle buffer is never empty, and every entry names a triangle
/// the scene has or three corners of a polygon it has, so reading the scene
/// through it stays in bounds; polygon entries are exactly the fans that the
/// software renderer tests.
pub proof fn lemma_gpu_triangle_sources_in_bounds(num_triangles: nat, sizes: Seq<usize>)
    requires
        num_triangles <= usize::MAX,
        sizes.len() <= usize::MAX,
    ensures
        gpu_triangle_sources(num_triangles, sizes).len() >= 1,
        forall|k: int|
            0 <= k < gpu_triangle_sources(num_triangles, sizes).len() ==> match #[trigger] gpu_triangle_sources(
                num_triangles,
                sizes,
            )[k] {
                TriangleSource::Scene(i) => i < num_triangles,
                TriangleSource::Polygon { polygon, v0, v1, v2 } => polygon < sizes.len() && fan(
                    sizes[polygon as int] as nat,
                ).contains((v0, v1, v2)),
                TriangleSource::Placeholder => true,
            },
{
    lemma_polygon_sources_in_bounds(sizes);
    let all = scene_triangle_sources(num_triangles) + polygon_sources(sizes);
    assert forall|k: int| 0 <= k < all.len() implies match #[trigger] all[k] {
        TriangleSource::Scene(i) => i < num_triangles,
        TriangleSource::Polygon { polygon, v0, v1, v2 } => polygon < sizes.len() && fan(
            sizes[polygon as int] as nat,
        ).contains((v0, v1, v2)),
        TriangleSource::Placeholder => true,
    } by {
        if k >= num_triangles {
            assert(all[k] == polygon_sources(sizes)[k - num_triangles]);
        }
    }
}

proof fn lemma_polygon_sources_in_bounds(sizes: Seq<usize>)
    requires
        sizes.len() <= usize::MAX,
    ensures
        forall|k: int|
            0 <= k < polygon_sources(sizes).len() ==> match #[trigger] polygon_sources(sizes)[k] {
                TriangleSource::Polygon { polygon, v0, v1, v2 } => polygon < sizes.len() && fan(
                    sizes[polygon as int] as nat,
                ).contains((v0, v1, v2)),
                _ => false,
            },
    decreases sizes.len(),
{
    if sizes.len() > 0 {
        let init = sizes.drop_last();
        lemma_polygon_sources_in_bounds(init);
        let p = sizes.len() - 1;
        let head = polygon_sources(init);
        let tail = polygon_fan_sources(p, sizes.last() as nat);
        assert forall|k: int| 0 <= k < (head + tail).len() implies match #[trigger] (head
            + tail)[k] {
            TriangleSource::Polygon { polygon, v0, v1, v2 } => polygon < sizes.len() && fan(
                sizes[polygon as int] as nat,
            ).contains((v0, v1, v2)),
            _ => false,
        } by {
            if k < head.len() {
                assert((head + tail)[k] == head[k]);
                match head[k] {
                    TriangleSource::Polygon { polygon, v0, v1, v2 } => {
                        assert(sizes[polygon as int] == init[polygon as int]);
                    },
                    _ => {},
                }
            } else {
                let f = fan(sizes.last() as nat);
                let j = k - head.len();
                assert((head + tail)[k] == tail[j]);
                assert(f[j] == (f[j].0, f[j].1, f[j].2));
                assert(f.contains(f[j]));
                assert(tail[j] == TriangleSource::Polygon {
                    polygon: p as usize,
                    v0: f[j].0,
                    v1: f[j].1,
                    v2: f[j].2,
                });
                assert(sizes[p] == sizes.last());
            }
        }
    }
}

/// The GPU triangle buffer begins with every scene triangle exactly once, in
/// scene order: entry `i` is scene triangle `i` for each `i` below the number
/// of scene triangles, and no later entry names a scene triangle.
pub proof fn lemma_scene_triangles_first(num_triangles: nat, sizes: Seq<usize>)
    requires
        num_triangles <= usize::MAX,
    ensures
        forall|i: int|
            0 <= i < num_triangles ==> #[trigger] gpu_triangle_sources(num_triangles, sizes)[i]
                == TriangleSource::Scene(i as usize),
        forall|i: int|
            0 <= i < num_triangles ==> #[trigger] (scene_triangle_sources(num_triangles)
                + polygon_sources(sizes))[i] == TriangleSource::Scene(i as usize),
        forall|k: int|
            num_triangles <= k < gpu_triangle_sources(num_triangles, sizes).len() ==> !(
            #[trigger] gpu_triangle_sources(num_triangles, sizes)[k] is Scene),
{
    lemma_polygon_sources_in_bounds_unbounded(sizes);
    let all = scene_triangle_sources(num_triangles) + polygon_sources(sizes);
    assert forall|k: int|
        num_triangles <= k < gpu_triangle_sources(num_triangles, sizes).len() implies !(
        #[trigger] gpu_triangle_sources(num_triangles, sizes)[k] is Scene) by {
        if all.len() > 0 {
            assert(all[k] == polygon_sources(sizes)[k - num_triangles]);
        }
    }
}

proof fn lemma_polygon_sources_in_bounds_unbounded(sizes: Seq<usize>)
    ensures
        forall|k: int|
            0 <= k < polygon_sources(sizes).len() ==> #[trigger] polygon_sources(sizes)[k] is Polygon,
    decreases sizes.len(),
{
    if sizes.len() > 0 {
        let init = sizes.drop_last();
        lemma_polygon_sources_in_bounds_unbounded(init);
        let head = polygon_sources(init);
        let tail = polygon_fan_sources(sizes.len() - 1, sizes.last() as nat);
        assert forall|k: int| 0 <= k < (head + tail).len() implies #[trigger] (head + tail)[k] is Polygon by {
            if k < head.len() {
                assert((head + tail)[k] == head[k]);
            } else {
                assert((head + tail)[k] == tail[k - head.len()]);
            }
        }
    }
}

/// The number of triangles in the fans of polygons with these corner counts.
pub open spec fn fan_total(sizes: Seq<usize>) -> nat
    decreases sizes.len(),
{
    if sizes.len() == 0 {
        0
    } else {
        fan_total(sizes.drop_last()) + fan(sizes.last() as nat).len()
    }
}

/// The GPU triangle buffer holds one entry per scene triangle and per fan
/// triangle of each polygon, and a single placeholder only when there are
/// none of either.
pub proof fn lemma_gpu_triangle_count(num_triangles: nat, sizes: Seq<usize>)
    ensures
        ({
            let total = num_triangles + fan_total(sizes);
            gpu_triangle_sources(num_triangles, sizes).len() == if total == 0 {
                1
            } else {
                total
            }
        }),
{
    lemma_polygon_sources_len(sizes);
}

proof fn lemma_polygon_sources_len(sizes: Seq<usize>)
    ensures
        polygon_sources(sizes).len() == fan_total(sizes),
    decreases sizes.len(),
{
    if sizes.len() > 0 {
        lemma_polygon_sources_len(sizes.drop_last());
    }
}

/// Threads per workgroup along each axis of the compute shader.
pub const WORKGROUP_SIZE: u32 = 16;

/// The number of workgroups that cover `extent` pixels along one axis:
/// `(extent + 16 - 1) / 16`, evaluated left to right in 32 bits.
pub fn workgroup_count(extent: u32) -> (groups: u32)
    requires
        extent + WORKGROUP_SIZE <= u32::MAX,
    ensures
        groups == (extent + WORKGROUP_SIZE - 1) / (WORKGROUP_SIZE as int),
{
    (extent + WORKGROUP_SIZE - 1) / WORKGROUP_SIZE
}

/// The workgroups cover every pixel along the axis, and no workgroup lies
/// wholly past its end.
pub proof fn lemma_workgroups_cover(extent: u32)
    requires
        extent + WORKGROUP_SIZE <= u32::MAX,
    ensures
        ({
            let groups = (extent + WORKGROUP_SIZE - 1) / (WORKGROUP_SIZE as int);
            &&& groups * WORKGROUP_SIZE >= extent
            &&& groups == 0 || (groups - 1) * WORKGROUP_SIZE < extent
        }),
{
}

} // verus!
