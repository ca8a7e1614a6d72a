use vstd::prelude::*;
use vstd::string::*;
use crate::backend::RenderBackend;
use crate::decimal::{
    parse_unsigned, parsed_unsigned, append_zero_padded, zero_padded, decimal_digits,
    lemma_zero_padded_reads_back, lemma_padded_width, ten_to, lemma_parsed_unsigned_range,
};

verus! {

/// The command line as strings.
pub open spec fn arg_views(args: Seq<String>) -> Seq<Seq<char>> {
    args.map_values(|a: String| a@)
}

/// The command line after the program name, the scene file and the output.
pub open spec fn option_args(args: Seq<Seq<char>>) -> Seq<Seq<char>> {
    if args.len() <= 3 {
        Seq::empty()
    } else {
        args.skip(3)
    }
}

/// What `parse::<u64>()` makes of an argument.
pub open spec fn parsed_u64(s: Seq<char>) -> Option<int> {
    parsed_unsigned(s, u64::MAX as int)
}

/// What `parse::<u32>()` makes of an argument.
pub open spec fn parsed_u32(s: Seq<char>) -> Option<int> {
    parsed_unsigned(s, u32::MAX as int)
}

/// `str::parse::<u64>`.
pub fn parse_u64(s: &str) -> (r: Option<u64>)
    ensures
        r matches Some(v) ==> parsed_u64(s@) == Some(v as int),
        r is None ==> parsed_u64(s@) is None,
{
    parse_unsigned(s, u64::MAX)
}

/// `str::parse::<u32>`.
pub fn parse_u32(s: &str) -> (r: Option<u32>)
    ensures
        r matches Some(v) ==> parsed_u32(s@) == Some(v as int),
        r is None ==> parsed_u32(s@) is None,
{
    match parse_unsigned(s, u32::MAX as u64) {
        Some(v) => Some(v as u32),
        None => None,
    }
}

/// The options of a single-frame render.
#[derive(Debug, Clone, Copy, PartialEq, Eq, Structural)]
pub struct FrameOptions {
    /// The backend that `--cpu` or `--gpu` asked for, if any.
    pub backend: Option<RenderBackend>,
    /// The render time in milliseconds given on the command line; zero when
    /// none was given.
    pub time_ms: u64,
}

/// The options that the arguments `opts` set, read left to right: `--cpu`
/// and `--gpu` choose the backend, a number sets the render time, anything
/// else is ignored, and a later argument overrides an earlier one.
pub open spec fn frame_options_of(opts: Seq<Seq<char>>) -> FrameOptions
    decreases opts.len(),
{
    if opts.len() == 0 {
        FrameOptions { backend: None, time_ms: 0 }
    } else {
        let before = frame_options_of(opts.drop_last());
        let a = opts.last();
        if a == "--cpu"@ {
            FrameOptions { backend: Some(RenderBackend::Cpu), ..before }
        } else if a == "--gpu"@ {
            FrameOptions { backend: Some(RenderBackend::Gpu), ..before }
        } else {
            match parsed_u64(a) {
                Some(t) => FrameOptions { time_ms: t as u64, ..before },
                None => before,
            }
        }
    }
}

/// An argument that sets the render time: a number that is not a backend flag.
pub open spec fn is_time_arg(a: Seq<char>) -> bool {
    a != "--cpu"@ && a != "--gpu"@ && parsed_u64(a) is Some
}

/// Every option argument counts, the first as much as any other, and the
/// last one of each kind wins: the backend is the one named by the last
/// `--cpu` or `--gpu` (none without either), and the render time is the
/// number given by the last numeric argument (zero without one).
pub proof fn lemma_frame_options_last_wins(opts: Seq<Seq<char>>)
    ensures
        forall|k: int|
            0 <= k < opts.len() && #[trigger] opts[k] == "--cpu"@ && (forall|j: int|
                k < j < opts.len() ==> opts[j] != "--gpu"@) ==> frame_options_of(opts).backend
                == Some(RenderBackend::Cpu),
        forall|k: int|
            0 <= k < opts.len() && #[trigger] opts[k] == "--gpu"@ && (forall|j: int|
                k < j < opts.len() ==> opts[j] != "--cpu"@) ==> frame_options_of(opts).backend
                == Some(RenderBackend::Gpu),
        (forall|j: int| 0 <= j < opts.len() ==> #[trigger] opts[j] != "--cpu"@ && opts[j] != "--gpu"@)
            ==> frame_options_of(opts).backend is None,
        forall|k: int|
            0 <= k < opts.len() && #[trigger] is_time_arg(opts[k]) && (forall|j: int|
                k < j < opts.len() ==> !is_time_arg(opts[j])) ==> frame_options_of(opts).time_ms
                == parsed_u64(opts[k])->0,
        (forall|j: int| 0 <= j < opts.len() ==> !#[trigger] is_time_arg(opts[j]))
            ==> frame_options_of(opts).time_ms == 0,
    decreases opts.len(),
{
    reveal_strlit("--cpu");
    reveal_strlit("--gpu");
    assert("--cpu"@[2] != "--gpu"@[2]);
    if opts.len() > 0 {
        let before = opts.drop_last();
        let n = opts.len() - 1;
        lemma_frame_options_last_wins(before);
        assert forall|k: int|
            0 <= k < opts.len() && #[trigger] opts[k] == "--cpu"@ && (forall|j: int|
                k < j < opts.len() ==> opts[j] != "--gpu"@) implies frame_options_of(opts).backend
            == Some(RenderBackend::Cpu) by {
            if k < n {
                assert(before[k] == opts[k]);
                assert forall|j: int| k < j < before.len() implies before[j] != "--gpu"@ by {
                    assert(before[j] == opts[j]);
                }
                assert(opts[n] != "--gpu"@);
            }
        }
        assert forall|k: int|
            0 <= k < opts.len() && #[trigger] opts[k] == "--gpu"@ && (forall|j: int|
                k < j < opts.len() ==> opts[j] != "--cpu"@) implies frame_options_of(opts).backend
            == Some(RenderBackend::Gpu) by {
            if k < n {
                assert(before[k] == opts[k]);
                assert forall|j: int| k < j < before.len() implies before[j] != "--cpu"@ by {
                    assert(before[j] == opts[j]);
                }
                assert(opts[n] != "--cpu"@);
            }
        }
        if forall|j: int| 0 <= j < opts.len() ==> #[trigger] opts[j] != "--cpu"@ && opts[j] != "--gpu"@ {
            assert forall|j: int| 0 <= j < before.len() implies #[trigger] before[j] != "--cpu"@
                && before[j] != "--gpu"@ by {
                assert(before[j] == opts[j]);
            }
            assert(opts[n] != "--cpu"@ && opts[n] != "--gpu"@);
        }
        assert forall|k: int|
            0 <= k < opts.len() && #[trigger] is_time_arg(opts[k]) && (forall|j: int|
                k < j < opts.len() ==> !is_time_arg(opts[j])) implies frame_options_of(opts).time_ms
            == parsed_u64(opts[k])->0 by {
            if k < n {
                assert(before[k] == opts[k]);
                assert forall|j: int| k < j < before.len() implies !is_time_arg(before[j]) by {
                    assert(before[j] == opts[j]);
                }
                assert(!is_time_arg(opts[n]));
            } else {
                lemma_parsed_unsigned_range(opts[k], u64::MAX as int);
            }
        }
        if forall|j: int| 0 <= j < opts.len() ==> !#[trigger] is_time_arg(opts[j]) {
            assert forall|j: int| 0 <= j < before.len() implies !#[trigger] is_time_arg(before[j]) by {
                assert(before[j] == opts[j]);
            }
            assert(!is_time_arg(opts[n]));
        }
    }
}

/// Reads the options of a single-frame render from the arguments after the
/// first three.
pub fn single_frame_options(args: &[String]) -> (o: FrameOptions)
    ensures
        o == frame_options_of(option_args(arg_views(args@))),
        forall|k: int|
            3 <= k < args@.len() && #[trigger] args@[k]@ == "--cpu"@ && (forall|j: int|
                k < j < args@.len() ==> args@[j]@ != "--gpu"@) ==> o.backend == Some(
                RenderBackend::Cpu,
            ),
        forall|k: int|
            3 <= k < args@.len() && #[trigger] args@[k]@ == "--gpu"@ && (forall|j: int|
                k < j < args@.len() ==> args@[j]@ != "--cpu"@) ==> o.backend == Some(
                RenderBackend::Gpu,
            ),
        (forall|j: int| 3 <= j < args@.len() ==> #[trigger] args@[j]@ != "--cpu"@ && args@[j]@
            != "--gpu"@) ==> o.backend is None,
        forall|k: int|
            3 <= k < args@.len() && #[trigger] is_time_arg(args@[k]@) && (forall|j: int|
                k < j < args@.len() ==> !is_time_arg(args@[j]@)) ==> o.time_ms == parsed_u64(
                args@[k]@,
            )->0,
        (forall|j: int| 3 <= j < args@.len() ==> !#[trigger] is_time_arg(args@[j]@)) ==> o.time_ms
            == 0,
{
    let ghost all = arg_views(args@);
    let cpu = String::from_str("--cpu");
    let gpu = String::from_str("--gpu");
    let mut o = FrameOptions { backend: None, time_ms: 0 };
    if args.len() <= 3 {
        proof {
            lemma_frame_options_of_args(args@);
        }
        return o;
    }
    let mut i: usize = 3;
    while i < args.len()
        invariant
            3 <= i <= args@.len(),
            all == arg_views(args@),
            cpu@ == "--cpu"@,
            gpu@ == "--gpu"@,
            o == frame_options_of(all.subrange(3, i as int)),
        decreases args@.len() - i,
    {
        let arg = &args[i];
        assert(all.subrange(3, i + 1).drop_last() =~= all.subrange(3, i as int));
        assert(all.subrange(3, i + 1).last() == arg@);
        if *arg == cpu {
            o = FrameOptions { backend: Some(RenderBackend::Cpu), ..o };
        } else if *arg == gpu {
            o = FrameOptions { backend: Some(RenderBackend::Gpu), ..o };
        } else {
            match parse_u64(arg.as_str()) {
                Some(t) => {
                    o = FrameOptions { time_ms: t, ..o };
                },
                None => {},
            }
        }
        i = i + 1;
    }
    assert(all.subrange(3, i as int) =~= option_args(all));
    proof {
        lemma_frame_options_of_args(args@);
    }
    o
}

/// The options of a single-frame render, read off the whole command line:
/// from the fourth argument on, the last `--cpu` or `--gpu` names the backend
/// and the last numeric argument gives the render time.
pub proof fn lemma_frame_options_of_args(args: Seq<String>)
    ensures
        forall|k: int|
            3 <= k < args.len() && #[trigger] args[k]@ == "--cpu"@ && (forall|j: int|
                k < j < args.len() ==> args[j]@ != "--gpu"@) ==> frame_options_of(option_args(arg_views(args))).backend == Some(
                RenderBackend::Cpu,
            ),
        forall|k: int|
            3 <= k < args.len() && #[trigger] args[k]@ == "--gpu"@ && (forall|j: int|
                k < j < args.len() ==> args[j]@ != "--cpu"@) ==> frame_options_of(option_args(arg_views(args))).backend == Some(
                RenderBackend::Gpu,
            ),
        (forall|j: int| 3 <= j < args.len() ==> #[trigger] args[j]@ != "--cpu"@ && args[j]@
            != "--gpu"@) ==> frame_options_of(option_args(arg_views(args))).backend is None,
        forall|k: int|
            3 <= k < args.len() && #[trigger] is_time_arg(args[k]@) && (forall|j: int|
                k < j < args.len() ==> !is_time_arg(args[j]@)) ==> frame_options_of(option_args(arg_views(args))).time_ms == parsed_u64(
                args[k]@,
            )->0,
        (forall|j: int| 3 <= j < args.len() ==> !#[trigger] is_time_arg(args[j]@)) ==> frame_options_of(option_args(arg_views(args))).time_ms
            == 0,
{
    let all = arg_views(args);
    let opts = option_args(all);
    lemma_frame_options_last_wins(opts);
    lemma_option_args_from_fourth(args);
    let o = frame_options_of(opts);
    assert forall|k: int|
        3 <= k < args.len() && #[trigger] args[k]@ == "--cpu"@ && (forall|j: int|
            k < j < args.len() ==> args[j]@ != "--gpu"@) implies o.backend == Some(
        RenderBackend::Cpu,
    ) by {
        assert(opts[k - 3] == args[k]@);
        assert forall|j: int| k - 3 < j < opts.len() implies opts[j] != "--gpu"@ by {
            assert(opts[j] == args[j + 3]@);
        }
    }
    assert forall|k: int|
        3 <= k < args.len() && #[trigger] args[k]@ == "--gpu"@ && (forall|j: int|
            k < j < args.len() ==> args[j]@ != "--cpu"@) implies o.backend == Some(
        RenderBackend::Gpu,
    ) by {
        assert(opts[k - 3] == args[k]@);
        assert forall|j: int| k - 3 < j < opts.len() implies opts[j] != "--cpu"@ by {
            assert(opts[j] == args[j + 3]@);
        }
    }
    if forall|j: int| 3 <= j < args.len() ==> #[trigger] args[j]@ != "--cpu"@ && args[j]@ != "--gpu"@ {
        assert forall|j: int| 0 <= j < opts.len() implies #[trigger] opts[j] != "--cpu"@ && opts[j]
            != "--gpu"@ by {
            assert(opts[j] == args[j + 3]@);
        }
    }
    assert forall|k: int|
        3 <= k < args.len() && #[trigger] is_time_arg(args[k]@) && (forall|j: int|
            k < j < args.len() ==> !is_time_arg(args[j]@)) implies o.time_ms == parsed_u64(
        args[k]@,
    )->0 by {
        assert(opts[k - 3] == args[k]@);
        assert forall|j: int| k - 3 < j < opts.len() implies !is_time_arg(opts[j]) by {
            assert(opts[j] == args[j + 3]@);
        }
    }
    if forall|j: int| 3 <= j < args.len() ==> !#[trigger] is_time_arg(args[j]@) {
        assert forall|j: int| 0 <= j < opts.len() implies !#[trigger] is_time_arg(opts[j]) by {
            assert(opts[j] == args[j + 3]@);
        }
    }
}

/// The options are every argument from the fourth on, in order.
pub proof fn lemma_option_args_from_fourth(args: Seq<String>)
    ensures
        option_args(arg_views(args)).len() == if args.len() <= 3 {
            0
        } else {
            args.len() - 3
        },
        forall|j: int|
            0 <= j < option_args(arg_views(args)).len() ==> #[trigger] option_args(arg_views(args))[j]
                == args[j + 3]@,
{
}

impl FrameOptions {
    /// The render time to use: the one given on the command line, or the
    /// scene's when none (or zero) was given.
    pub fn render_time_ms(&self, scene_render_time_ms: u64) -> (t: u64)
        ensures
            t == if self.time_ms > 0 {
                self.time_ms
            } else {
                scene_render_time_ms
            },
    {
        if self.time_ms > 0 {
            self.time_ms
        } else {
            scene_render_time_ms
        }
    }
}

/// The position of the first argument equal to `flag`.
pub fn find_flag(args: &[String], flag: &str) -> (r: Option<usize>)
    ensures
        r matches Some(i) ==> i < args@.len() && args@[i as int]@ == flag@ && forall|j: int|
            0 <= j < i ==> #[trigger] args@[j]@ != flag@,
        r is None ==> forall|j: int| 0 <= j < args@.len() ==> #[trigger] args@[j]@ != flag@,
{
    let wanted = String::from_str(flag);
    let mut i: usize = 0;
    while i < args.len()
        invariant
            i <= args@.len(),
            wanted@ == flag@,
            forall|j: int| 0 <= j < i ==> #[trigger] args@[j]@ != flag@,
        decreases args@.len() - i,
    {
        if args[i] == wanted {
            return Some(i);
        }
        i = i + 1;
    }
    None
}

/// Whether any argument is `--animate`.
pub fn wants_animation(args: &[String]) -> (r: bool)
    ensures
        r <==> exists|j: int| 0 <= j < args@.len() && #[trigger] args@[j]@ == "--animate"@,
{
    match find_flag(args, "--animate") {
        Some(_) => true,
        None => false,
    }
}

/// The options of an animation, read from the arguments around `--animate`.
#[derive(Debug, Clone, Copy, PartialEq, Eq, Structural)]
pub struct AnimationOptions {
    /// Where `--animate` stands; the length in seconds follows it.
    pub flag_index: usize,
    pub fps: u32,
    pub samples_per_frame: u32,
    /// `--cpu` anywhere wins over `--gpu` anywhere.
    pub backend: Option<RenderBackend>,
}

/// The `u32` that the argument at position `i` holds, or `default` when
/// there is no such argument or it is no such number.
pub open spec fn u32_arg_or(args: Seq<Seq<char>>, i: int, default: u32) -> u32 {
    if 0 <= i < args.len() {
        match parsed_u32(args[i]) {
            Some(v) => v as u32,
            None => default,
        }
    } else {
        default
    }
}

/// An argument that is there is read, wherever it stands, the last one
/// included: the number it holds when it holds one, else the default; and the
/// default when there is no argument at that position.
pub proof fn lemma_u32_arg_read_when_present(args: Seq<Seq<char>>, i: int, default: u32)
    ensures
        0 <= i < args.len() && parsed_u32(args[i]) is Some ==> u32_arg_or(args, i, default)
            == parsed_u32(args[i])->0,
        0 <= i < args.len() && parsed_u32(args[i]) is None ==> u32_arg_or(args, i, default)
            == default,
        !(0 <= i < args.len()) ==> u32_arg_or(args, i, default) == default,
{
    if 0 <= i < args.len() {
        lemma_parsed_unsigned_range(args[i], u32::MAX as int);
    }
}

/// Some argument is `flag`.
pub open spec fn has_arg(args: Seq<Seq<char>>, flag: Seq<char>) -> bool {
    exists|j: int| 0 <= j < args.len() && #[trigger] args[j] == flag
}

fn u32_arg_or_default(args: &[String], i: usize, default: u32) -> (v: u32)
    ensures
        v == u32_arg_or(arg_views(args@), i as int, default),
        i < args@.len() && parsed_u32(args@[i as int]@) is Some ==> v == parsed_u32(
            args@[i as int]@,
        )->0,
        i >= args@.len() || parsed_u32(args@[i as int]@) is None ==> v == default,
{
    proof {
        lemma_u32_arg_read_when_present(arg_views(args@), i as int, default);
    }
    if i < args.len() {
        match parse_u32(args[i].as_str()) {
            Some(v) => v,
            None => default,
        }
    } else {
        default
    }
}

/// Reads the options of an animation: `--animate <seconds> <fps>
/// [samples_per_frame]`, with 30 frames per second and 50 samples per frame
/// when those are missing or unreadable; `None` when there is no
/// `--animate`.
pub fn animation_options(args: &[String]) -> (r: Option<AnimationOptions>)
    ensures
        r is None <==> !has_arg(arg_views(args@), "--animate"@),
        r matches Some(o) ==> {
            let a = arg_views(args@);
            &&& o.flag_index < a.len()
            &&& a[o.flag_index as int] == "--animate"@
            &&& forall|j: int| 0 <= j < o.flag_index ==> #[trigger] a[j] != "--animate"@
            &&& o.fps == u32_arg_or(a, o.flag_index + 2, 30)
            &&& o.samples_per_frame == u32_arg_or(a, o.flag_index + 3, 50)
            &&& (o.flag_index + 2 < a.len() && parsed_u32(a[o.flag_index + 2]) is Some ==> o.fps
                == parsed_u32(a[o.flag_index + 2])->0)
            &&& (o.flag_index + 2 >= a.len() || parsed_u32(a[o.flag_index + 2]) is None ==> o.fps
                == 30)
            &&& (o.flag_index + 3 < a.len() && parsed_u32(a[o.flag_index + 3]) is Some
                ==> o.samples_per_frame == parsed_u32(a[o.flag_index + 3])->0)
            &&& (o.flag_index + 3 >= a.len() || parsed_u32(a[o.flag_index + 3]) is None
                ==> o.samples_per_frame == 50)
            &&& o.backend == if has_arg(a, "--cpu"@) {
                Some(RenderBackend::Cpu)
            } else if has_arg(a, "--gpu"@) {
                Some(RenderBackend::Gpu)
            } else {
                None
            }
        },
{
    let ghost a = arg_views(args@);
    let idx = match find_flag(args, "--animate") {
        Some(i) => i,
        None => {
            assert forall|j: int| 0 <= j < a.len() implies #[trigger] a[j] != "--animate"@ by {
                assert(a[j] == args@[j]@);
            }
            return None;
        },
    };
    assert(a[idx as int] == args@[idx as int]@);
    assert forall|j: int| 0 <= j < idx implies #[trigger] a[j] != "--animate"@ by {
        assert(a[j] == args@[j]@);
    }
    let len = args.len();
    let fps = if len - idx > 2 {
        u32_arg_or_default(args, idx + 2, 30)
    } else {
        30
    };
    let samples_per_frame = if len - idx > 3 {
        u32_arg_or_default(args, idx + 3, 50)
    } else {
        50
    };
    let cpu = find_flag(args, "--cpu");
    let gpu = find_flag(args, "--gpu");
    let backend = if cpu.is_some() {
        Some(RenderBackend::Cpu)
    } else if gpu.is_some() {
        Some(RenderBackend::Gpu)
    } else {
        None
    };
    proof {
        match cpu {
            Some(i) => {
                assert(a[i as int] == args@[i as int]@);
            },
            None => {
                assert forall|j: int| 0 <= j < a.len() implies #[trigger] a[j] != "--cpu"@ by {
                    assert(a[j] == args@[j]@);
                }
            },
        }
        match gpu {
            Some(i) => {
                assert(a[i as int] == args@[i as int]@);
            },
            None => {
                assert forall|j: int| 0 <= j < a.len() implies #[trigger] a[j] != "--gpu"@ by {
                    assert(a[j] == args@[j]@);
                }
            },
        }
    }
    Some(AnimationOptions { flag_index: idx, fps, samples_per_frame, backend })
}

/// The file of frame `frame` in `dir`: `dir/frame_NNNNN.png`, the number
/// padded with zeros to five digits.
pub open spec fn frame_file_name_of(dir: Seq<char>, frame: u32) -> Seq<char> {
    dir + "/frame_"@ + zero_padded(decimal_digits(frame as nat), 5) + ".png"@
}

/// The file that frame `frame` of an animation is written to.
pub fn frame_file_name(dir: &str, frame: u32) -> (name: String)
    ensures
        name@ == frame_file_name_of(dir@, frame),
{
    let mut name = String::from_str(dir);
    name.append("/frame_");
    append_zero_padded(&mut name, frame, 5);
    name.append(".png");
    name
}

/// A frame's file name holds its number: the part between `frame_` and
/// `.png` reads back as the frame number, and for frames below 100000 (the
/// range of ffmpeg's `%05d` pattern) it is exactly five digits long.
pub proof fn lemma_frame_file_name_holds_frame(dir: Seq<char>, frame: u32)
    ensures
        ({
            let digits = zero_padded(decimal_digits(frame as nat), 5);
            &&& frame_file_name_of(dir, frame) == dir + "/frame_"@ + digits + ".png"@
            &&& parsed_u32(digits) == Some(frame as int)
            &&& frame < 100000 ==> digits.len() == 5
        }),
{
    lemma_zero_padded_reads_back(frame as nat, 5, u32::MAX as int);
    if frame < 100000 {
        reveal_with_fuel(ten_to, 6);
        assert(ten_to(5) == 100000);
        lemma_padded_width(frame as nat, 5);
    }
}

} // verus!
