use vstd::prelude::*;
use vstd::string::*;

verus! {

/// Which renderer draws the picture.
#[derive(Debug, Clone, Copy, PartialEq, Eq, Structural)]
pub enum RenderBackend {
    Cpu,
    Gpu,
}

/// What `str::to_lowercase` makes of a string (Unicode lower case, the same
/// on every machine).
pub uninterp spec fn lowercase(s: Seq<char>) -> Seq<char>;

/// `str::to_lowercase`: its result is named `lowercase` of the argument.
#[verifier::external_body]
fn to_lowercase(s: &str) -> (lower: String)
    ensures
        lower@ == lowercase(s@),
{
    s.to_lowercase()
}

/// The message of a backend name that is neither `cpu` nor `gpu`.
pub open spec fn unknown_backend_message(name: Seq<char>) -> Seq<char> {
    "Unknown backend: "@ + name + ". Use 'cpu' or 'gpu'"@
}

/// The backend whose name is `lower`, already in lower case; `written` is
/// the name as the user wrote it, for the error message.
pub fn backend_from_lowercase(lower: &str, written: &str) -> (r: Result<RenderBackend, String>)
    ensures
        lower@ == "cpu"@ ==> r == Ok::<RenderBackend, String>(RenderBackend::Cpu),
        lower@ == "gpu"@ ==> r == Ok::<RenderBackend, String>(RenderBackend::Gpu),
        lower@ != "cpu"@ && lower@ != "gpu"@ ==> (r matches Err(msg)
            && msg@ == unknown_backend_message(written@)),
{
    proof {
        reveal_strlit("cpu");
        reveal_strlit("gpu");
        assert("cpu"@[0] != "gpu"@[0]);
    }
    let lower = String::from_str(lower);
    if lower == String::from_str("cpu") {
        Ok(RenderBackend::Cpu)
    } else if lower == String::from_str("gpu") {
        Ok(RenderBackend::Gpu)
    } else {
        let mut msg = String::from_str("Unknown backend: ");
        msg.append(written);
        msg.append(". Use 'cpu' or 'gpu'");
        Err(msg)
    }
}

/// Reads a backend name, ignoring case: `cpu` or `gpu`.
pub fn parse_backend(s: &str) -> (r: Result<RenderBackend, String>)
    ensures
        lowercase(s@) == "cpu"@ ==> r == Ok::<RenderBackend, String>(RenderBackend::Cpu),
        lowercase(s@) == "gpu"@ ==> r == Ok::<RenderBackend, String>(RenderBackend::Gpu),
        lowercase(s@) != "cpu"@ && lowercase(s@) != "gpu"@ ==> (r matches Err(msg)
            && msg@ == unknown_backend_message(s@)),
{
    let lower = to_lowercase(s);
    backend_from_lowercase(lower.as_str(), s)
}

impl core::str::FromStr for RenderBackend {
    type Err = String;

    fn from_str(s: &str) -> (r: Result<RenderBackend, String>)
        ensures
            lowercase(s@) == "cpu"@ ==> r == Ok::<RenderBackend, String>(RenderBackend::Cpu),
            lowercase(s@) == "gpu"@ ==> r == Ok::<RenderBackend, String>(RenderBackend::Gpu),
            lowercase(s@) != "cpu"@ && lowercase(s@) != "gpu"@ ==> (r matches Err(msg)
                && msg@ == unknown_backend_message(s@)),
    {
        parse_backend(s)
    }
}

/// The renderer that `select_renderer` settles on, and what it tells the
/// user: on standard error when `warning` holds, else on standard output.
pub struct RendererChoice {
    pub backend: RenderBackend,
    pub message: &'static str,
    pub warning: bool,
}

/// Whether choosing a renderer for this request needs to know whether a GPU
/// can be used: only a forced CPU needs no probe.
pub fn needs_gpu_probe(requested: Option<RenderBackend>) -> (probe: bool)
    ensures
        probe <==> requested != Some(RenderBackend::Cpu),
{
    match requested {
        Some(RenderBackend::Cpu) => false,
        _ => true,
    }
}

/// Chooses the renderer for a request (`None`: whichever is best) given
/// whether a GPU renderer could be set up.
pub fn select_renderer(requested: Option<RenderBackend>, gpu_available: bool) -> (c: RendererChoice)
    ensures
        c.backend == chosen_backend(requested, gpu_available),
        requested == Some(RenderBackend::Cpu) ==> c.backend == RenderBackend::Cpu && c.message@
            == "Using CPU renderer (forced)"@ && !c.warning,
        requested == Some(RenderBackend::Gpu) && gpu_available ==> c.backend == RenderBackend::Gpu
            && c.message@ == "Using GPU renderer (forced)"@ && !c.warning,
        requested == Some(RenderBackend::Gpu) && !gpu_available ==> c.backend
            == RenderBackend::Cpu && c.message@
            == "GPU renderer requested but not available, falling back to CPU"@ && c.warning,
        requested is None && gpu_available ==> c.backend == RenderBackend::Gpu && c.message@
            == "Using GPU renderer (auto-detected)"@ && !c.warning,
        requested is None && !gpu_available ==> c.backend == RenderBackend::Cpu && c.message@
            == "GPU not available, using CPU renderer"@ && !c.warning,
{
    match requested {
        Some(RenderBackend::Cpu) => RendererChoice {
            backend: RenderBackend::Cpu,
            message: "Using CPU renderer (forced)",
            warning: false,
        },
        Some(RenderBackend::Gpu) => {
            if gpu_available {
                RendererChoice {
                    backend: RenderBackend::Gpu,
                    message: "Using GPU renderer (forced)",
                    warning: false,
                }
            } else {
                RendererChoice {
                    backend: RenderBackend::Cpu,
                    message: "GPU renderer requested but not available, falling back to CPU",
                    warning: true,
                }
            }
        },
        None => {
            if gpu_available {
                RendererChoice {
                    backend: RenderBackend::Gpu,
                    message: "Using GPU renderer (auto-detected)",
                    warning: false,
                }
            } else {
                RendererChoice {
                    backend: RenderBackend::Cpu,
                    message: "GPU not available, using CPU renderer",
                    warning: false,
                }
            }
        },
    }
}

/// The backend `select_renderer` settles on.
pub open spec fn chosen_backend(requested: Option<RenderBackend>, gpu_available: bool) -> RenderBackend {
    match requested {
        Some(RenderBackend::Cpu) => RenderBackend::Cpu,
        _ => if gpu_available {
            RenderBackend::Gpu
        } else {
            RenderBackend::Cpu
        },
    }
}

/// The GPU draws only when it can be used and was not refused: a forced CPU
/// always gets the CPU, and a missing GPU always gets the CPU.
pub proof fn lemma_gpu_only_when_usable(requested: Option<RenderBackend>, gpu_available: bool)
    ensures
        chosen_backend(requested, gpu_available) == RenderBackend::Gpu <==> gpu_available
            && requested != Some(RenderBackend::Cpu),
{
}

} // verus!
