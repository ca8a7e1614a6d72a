use raytracer::backend::{needs_gpu_probe, parse_backend, select_renderer, RenderBackend};
use raytracer::cli::{
    animation_options, find_flag, frame_file_name, parse_u32, parse_u64, single_frame_options,
    wants_animation, FrameOptions,
};
use raytracer::jitter::rand_simple_bits;
use raytracer::mesh::{fan_triangles, gpu_scene_layout, workgroup_count, TriangleSource};
use raytracer::raster::{assemble_image, PixelGrid};
use raytracer::render::{CpuRenderer, SampleBudget, SampleSchedule};
use raytracer::scene_defaults::{
    default_height, default_max_bounces, default_render_time_ms, default_width,
};

fn args(list: &[&str]) -> Vec<String> {
    list.iter().map(|s| s.to_string()).collect()
}

#[test]
fn scene_defaults_match_the_scene_format() {
    assert_eq!(default_width(), 800);
    assert_eq!(default_height(), 600);
    assert_eq!(default_max_bounces(), 3);
    assert_eq!(default_render_time_ms(), 500);
}

#[test]
fn cpu_renderer_is_constructed() {
    let _r: CpuRenderer = CpuRenderer::new();
}

#[test]
fn backend_names_ignore_case() {
    assert_eq!(parse_backend("cpu"), Ok(RenderBackend::Cpu));
    assert_eq!(parse_backend("CPU"), Ok(RenderBackend::Cpu));
    assert_eq!(parse_backend("Gpu"), Ok(RenderBackend::Gpu));
    assert_eq!("GPU".parse::<RenderBackend>(), Ok(RenderBackend::Gpu));
}

#[test]
fn unknown_backend_is_refused_with_its_name() {
    assert_eq!(
        parse_backend("Metal"),
        Err("Unknown backend: Metal. Use 'cpu' or 'gpu'".to_string())
    );
    assert_eq!(
        parse_backend(""),
        Err("Unknown backend: . Use 'cpu' or 'gpu'".to_string())
    );
}

#[test]
fn forced_cpu_needs_no_gpu() {
    assert!(!needs_gpu_probe(Some(RenderBackend::Cpu)));
    assert!(needs_gpu_probe(Some(RenderBackend::Gpu)));
    assert!(needs_gpu_probe(None));
    for available in [false, true] {
        let c = select_renderer(Some(RenderBackend::Cpu), available);
        assert_eq!(c.backend, RenderBackend::Cpu);
        assert_eq!(c.message, "Using CPU renderer (forced)");
        assert!(!c.warning);
    }
}

#[test]
fn gpu_request_falls_back_to_cpu() {
    let c = select_renderer(Some(RenderBackend::Gpu), true);
    assert_eq!((c.backend, c.message, c.warning), (RenderBackend::Gpu, "Using GPU renderer (forced)", false));
    let c = select_renderer(Some(RenderBackend::Gpu), false);
    assert_eq!(
        (c.backend, c.message, c.warning),
        (RenderBackend::Cpu, "GPU renderer requested but not available, falling back to CPU", true)
    );
}

#[test]
fn automatic_choice_prefers_the_gpu() {
    let c = select_renderer(None, true);
    assert_eq!((c.backend, c.message, c.warning), (RenderBackend::Gpu, "Using GPU renderer (auto-detected)", false));
    let c = select_renderer(None, false);
    assert_eq!((c.backend, c.message, c.warning), (RenderBackend::Cpu, "GPU not available, using CPU renderer", false));
}

#[test]
fn unsigned_numbers_parse_like_std() {
    for s in ["0", "42", "+7", "007", "18446744073709551615", "18446744073709551616", "", "+", "-1", "1a", " 1", "++1", "٣"] {
        assert_eq!(parse_u64(s), s.parse::<u64>().ok(), "{s}");
        assert_eq!(parse_u32(s), s.parse::<u32>().ok(), "{s}");
    }
    assert_eq!(parse_u32("4294967295"), Some(u32::MAX));
    assert_eq!(parse_u32("4294967296"), None);
    assert_eq!(parse_u64("4294967296"), Some(4294967296));
}

#[test]
fn single_frame_options_last_argument_wins() {
    let a = args(&["raytracer", "scene.json", "out.png", "250", "--gpu", "x", "--cpu", "900"]);
    assert_eq!(single_frame_options(&a), FrameOptions { backend: Some(RenderBackend::Cpu), time_ms: 900 });
    let a = args(&["raytracer", "scene.json", "out.png"]);
    assert_eq!(single_frame_options(&a), FrameOptions { backend: None, time_ms: 0 });
    let a = args(&["raytracer", "--cpu", "100", "out.png", "--gpu"]);
    assert_eq!(single_frame_options(&a), FrameOptions { backend: Some(RenderBackend::Gpu), time_ms: 0 });
}

#[test]
fn render_time_falls_back_to_the_scene() {
    let o = FrameOptions { backend: None, time_ms: 0 };
    assert_eq!(o.render_time_ms(500), 500);
    let o = FrameOptions { backend: None, time_ms: 1200 };
    assert_eq!(o.render_time_ms(500), 1200);
}

#[test]
fn flags_are_found_at_their_first_position() {
    let a = args(&["raytracer", "s.json", "out", "--animate", "2", "--animate"]);
    assert_eq!(find_flag(&a, "--animate"), Some(3));
    assert_eq!(find_flag(&a, "--cpu"), None);
    assert!(wants_animation(&a));
    assert!(!wants_animation(&args(&["raytracer", "s.json", "out.png"])));
}

#[test]
fn animation_options_use_defaults() {
    let a = args(&["raytracer", "s.json", "frames", "--animate", "3"]);
    let o = animation_options(&a).unwrap();
    assert_eq!((o.flag_index, o.fps, o.samples_per_frame, o.backend), (3, 30, 50, None));
    let a = args(&["raytracer", "s.json", "frames", "--gpu", "--animate", "3", "24", "10", "--cpu"]);
    let o = animation_options(&a).unwrap();
    assert_eq!((o.flag_index, o.fps, o.samples_per_frame, o.backend), (4, 24, 10, Some(RenderBackend::Cpu)));
    let a = args(&["raytracer", "s.json", "frames", "--animate", "3", "fast", "-1", "--gpu"]);
    let o = animation_options(&a).unwrap();
    assert_eq!((o.fps, o.samples_per_frame, o.backend), (30, 50, Some(RenderBackend::Gpu)));
    assert!(animation_options(&args(&["raytracer", "s.json", "out.png"])).is_none());
}

#[test]
fn frame_files_are_zero_padded() {
    assert_eq!(frame_file_name("out", 0), "out/frame_00000.png");
    assert_eq!(frame_file_name("out", 42), "out/frame_00042.png");
    assert_eq!(frame_file_name("a/b", 99999), "a/b/frame_99999.png");
    assert_eq!(frame_file_name("d", 123456), "d/frame_123456.png");
    for f in [0u32, 7, 1234, 99999, 100000, u32::MAX] {
        assert_eq!(frame_file_name("x", f), format!("x/frame_{:05}.png", f));
    }
}

#[test]
fn frame_file_number_reads_back() {
    for f in [0u32, 5, 31, 12345, 4000000000] {
        let name = frame_file_name("dir", f);
        let digits = &name["dir/frame_".len()..name.len() - ".png".len()];
        assert_eq!(parse_u32(digits), Some(f));
    }
}

fn reference_hash(x: u32, y: u32, sample: u32) -> u32 {
    let n = x
        .wrapping_mul(374761393)
        .wrapping_add(y.wrapping_mul(668265263))
        .wrapping_add(sample.wrapping_mul(1013904223));
    let n = (n ^ (n >> 13)).wrapping_mul(1274126177);
    n & 0xFFFF
}

#[test]
fn jitter_bits_match_the_hash() {
    assert_eq!(rand_simple_bits(0, 0, 0), 0);
    let n: u32 = 374761393;
    let n = (n ^ (n >> 13)).wrapping_mul(1274126177) & 0xFFFF;
    assert_eq!(rand_simple_bits(1, 0, 0), n);
    for (x, y, s) in [(1, 2, 3), (799, 599, 1), (u32::MAX, 17, 99999), (5, u32::MAX, u32::MAX)] {
        let b = rand_simple_bits(x, y, s);
        assert_eq!(b, reference_hash(x, y, s));
        assert!(b <= 0xFFFF);
    }
}

#[test]
fn pixel_grid_is_row_major() {
    let g = PixelGrid::new(4, 3).unwrap();
    assert_eq!(g.pixel_count(), 12);
    assert_eq!(g.index_of(0, 0), 0);
    assert_eq!(g.index_of(3, 0), 3);
    assert_eq!(g.index_of(0, 1), 4);
    assert_eq!(g.index_of(3, 2), 11);
    let mut seen = vec![false; 12];
    for y in 0..3 {
        for x in 0..4 {
            let i = g.index_of(x, y);
            assert!(!seen[i]);
            seen[i] = true;
        }
    }
    assert!(seen.iter().all(|s| *s));
}

#[test]
fn oversized_grid_is_refused() {
    assert!(PixelGrid::new(65536, 65536).is_none());
    assert!(PixelGrid::new(65536, 65535).is_some());
    assert!(PixelGrid::new(0, u32::MAX).is_some());
}

#[test]
fn image_takes_first_three_channels() {
    let g = PixelGrid::new(2, 2).unwrap();
    let rgba: Vec<u8> = (0u8..16).collect();
    let (w, h, samples) = assemble_image(&g, &rgba, 4).into_raw_parts();
    assert_eq!((w, h), (2, 2));
    assert_eq!(samples, vec![0, 1, 2, 4, 5, 6, 8, 9, 10, 12, 13, 14]);
    let rgb: Vec<u8> = (100u8..112).collect();
    let (_, _, samples) = assemble_image(&g, &rgb, 3).into_raw_parts();
    assert_eq!(samples, rgb);
}

#[test]
fn empty_image_has_no_samples() {
    let g = PixelGrid::new(0, 5).unwrap();
    let (w, h, samples) = assemble_image(&g, &[], 3).into_raw_parts();
    assert_eq!((w, h, samples.len()), (0, 5, 0));
}

#[test]
fn time_budget_stops_once_the_limit_is_reached() {
    let mut s = SampleSchedule::new(SampleBudget::TimeLimit { nanos: 1_000 });
    assert!(!s.finish_pass(10));
    assert!(!s.finish_pass(999));
    assert!(s.finish_pass(1_000));
    assert_eq!(s.taken, 3);
    let mut s = SampleSchedule::new(SampleBudget::TimeLimit { nanos: 0 });
    assert!(s.finish_pass(0));
    assert_eq!(s.taken, 1);
}

#[test]
fn sample_budget_takes_exactly_that_many_passes() {
    for count in [0u32, 1, 5] {
        let mut s = SampleSchedule::new(SampleBudget::Samples { count });
        let mut passes = 0;
        loop {
            passes += 1;
            if s.finish_pass(u128::MAX) {
                break;
            }
        }
        assert_eq!(passes, count.max(1));
        assert_eq!(s.taken, count.max(1));
    }
}

#[test]
fn polygon_fans_share_the_first_corner() {
    assert!(fan_triangles(0).is_empty());
    assert!(fan_triangles(2).is_empty());
    assert_eq!(fan_triangles(3), vec![(0, 1, 2)]);
    assert_eq!(fan_triangles(5), vec![(0, 1, 2), (0, 2, 3), (0, 3, 4)]);
}

#[test]
fn gpu_layout_orders_triangles_then_fans() {
    let l = gpu_scene_layout(2, 1, &[4, 2, 3], 3);
    assert_eq!((l.sphere_slots, l.num_spheres, l.num_lights), (2, 2, 3));
    assert_eq!(
        l.triangles,
        vec![
            TriangleSource::Scene(0),
            TriangleSource::Polygon { polygon: 0, v0: 0, v1: 1, v2: 2 },
            TriangleSource::Polygon { polygon: 0, v0: 0, v1: 2, v2: 3 },
            TriangleSource::Polygon { polygon: 2, v0: 0, v1: 1, v2: 2 },
        ]
    );
    assert_eq!(l.num_triangles, 4);
}

#[test]
fn gpu_layout_never_leaves_a_buffer_empty() {
    let l = gpu_scene_layout(0, 0, &[], 0);
    assert_eq!((l.sphere_slots, l.num_spheres, l.num_triangles), (1, 0, 0));
    assert_eq!(l.triangles, vec![TriangleSource::Placeholder]);
    let l = gpu_scene_layout(0, 0, &[2, 1], 1);
    assert_eq!(l.triangles, vec![TriangleSource::Placeholder]);
    assert_eq!(l.num_triangles, 1);
}

#[test]
fn workgroups_cover_the_image() {
    assert_eq!(workgroup_count(0), 0);
    assert_eq!(workgroup_count(1), 1);
    assert_eq!(workgroup_count(16), 1);
    assert_eq!(workgroup_count(17), 2);
    assert_eq!(workgroup_count(800), 50);
    assert_eq!(workgroup_count(600), 38);
}

#[test]
fn gpu_layout_counts_every_fan_triangle() {
    let l = gpu_scene_layout(1, 2, &[5, 0, 4], 1);
    assert_eq!(l.triangles.len(), 2 + 3 + 2);
    assert_eq!(l.num_triangles, 7);
    for t in &l.triangles {
        match *t {
            TriangleSource::Scene(i) => assert!(i < 2),
            TriangleSource::Polygon { polygon, v0, v1, v2 } => {
                let size = [5usize, 0, 4][polygon];
                assert!(fan_triangles(size).contains(&(v0, v1, v2)));
            }
            TriangleSource::Placeholder => panic!("no placeholder expected"),
        }
    }
}

#[test]
fn consecutive_fan_triangles_share_an_edge() {
    let f = fan_triangles(7);
    assert_eq!(f.len(), 5);
    for w in f.windows(2) {
        assert_eq!(w[0].2, w[1].1);
        assert_eq!(w[0].0, 0);
    }
}

#[test]
fn workgroups_cover_every_column_once() {
    for extent in [0u32, 1, 15, 16, 17, 31, 32, 33, 1920] {
        let g = workgroup_count(extent);
        assert!(g * 16 >= extent);
        assert!(g == 0 || (g - 1) * 16 < extent);
    }
}

#[test]
fn gpu_layout_gives_every_buffer_an_entry() {
    let l = gpu_scene_layout(0, 0, &[], 0);
    assert_eq!((l.sphere_slots, l.triangles.len(), l.light_slots), (1, 1, 1));
    assert_eq!((l.num_spheres, l.num_triangles, l.num_lights), (0, 0, 0));
    let l = gpu_scene_layout(3, 0, &[3], 2);
    assert_eq!((l.sphere_slots, l.light_slots, l.num_lights), (3, 2, 2));
}
