//! What the model runs on.

use vstd::prelude::*;

use crate::cli::launch::SERVER_SECTION;

verus! {

/// What the configuration wants the model to run on.
#[derive(Debug, Clone, Copy, PartialEq, Eq, Structural)]
pub enum BackendPreference {
    Auto,
    Cpu,
    Vulkan,
    Cuda,
    OpenCl,
    Rocm,
}

/// Something other than the processor that a model can run on.
#[derive(Debug, Clone, Copy, PartialEq, Eq, Structural)]
pub enum BackendKind {
    Vulkan,
    Cuda,
    OpenCl,
    Rocm,
}

impl BackendKind {
    /// The name that stands before the device's.
    pub open spec fn name(self) -> Seq<char> {
        match self {
            BackendKind::Vulkan => "Vulkan"@,
            BackendKind::Cuda => "CUDA"@,
            BackendKind::OpenCl => "OpenCL"@,
            BackendKind::Rocm => "ROCm"@,
        }
    }

    /// What is said where no device was found.
    pub open spec fn complaint(self) -> Seq<char> {
        "["@ + SERVER_SECTION@ + (match self {
            BackendKind::Vulkan =>
                "].backend = vulkan, but no usable Vulkan adapter was found"@,
            BackendKind::Cuda => "].backend = cuda, but no usable CUDA device was found"@,
            BackendKind::OpenCl => "].backend = opencl, but no usable OpenCL device was found"@,
            BackendKind::Rocm => "].backend = rocm, but no usable ROCm/HIP device was found"@,
        })
    }
}

/// What the model runs on, and how it is called.
#[derive(Debug)]
pub struct BackendChoice {
    pub kind: Option<BackendKind>,
    pub label: String,
}

/// What is said where the program has no part for what is wanted.
pub open spec fn not_built_text() -> Seq<char> {
    "["@ + SERVER_SECTION@
        + "].backend = rocm, but this build of orangu-server was compiled without the \"rocm\" Cargo feature (rebuild with `--features rocm`)"@
}

/// What is tried, in order: what is named, or, where nothing is, all that the
/// program has parts for.
pub open spec fn tries(preference: BackendPreference, rocm_built: bool) -> Seq<BackendKind> {
    match preference {
        BackendPreference::Cpu => Seq::empty(),
        BackendPreference::Vulkan => seq![BackendKind::Vulkan],
        BackendPreference::Cuda => seq![BackendKind::Cuda],
        BackendPreference::OpenCl => seq![BackendKind::OpenCl],
        BackendPreference::Rocm => seq![BackendKind::Rocm],
        BackendPreference::Auto => if rocm_built {
            seq![BackendKind::Vulkan, BackendKind::Cuda, BackendKind::OpenCl, BackendKind::Rocm]
        } else {
            seq![BackendKind::Vulkan, BackendKind::Cuda, BackendKind::OpenCl]
        },
    }
}

/// What is tried, in order, or why nothing can be.
pub fn backends_to_try(preference: BackendPreference, rocm_built: bool) -> (r: Result<
    Vec<BackendKind>,
    String,
>)
    ensures
        match r {
            Ok(list) => list@ == tries(preference, rocm_built) && !(preference
                == BackendPreference::Rocm && !rocm_built),
            Err(e) => preference == BackendPreference::Rocm && !rocm_built && e@
                == not_built_text(),
        },
        preference == BackendPreference::Cpu ==> r is Ok && r->Ok_0@.len() == 0,
        preference == BackendPreference::Vulkan ==> r is Ok && r->Ok_0@ == seq![
            BackendKind::Vulkan,
        ],
        preference == BackendPreference::Cuda ==> r is Ok && r->Ok_0@ == seq![BackendKind::Cuda],
        preference == BackendPreference::OpenCl ==> r is Ok && r->Ok_0@ == seq![
            BackendKind::OpenCl,
        ],
        preference == BackendPreference::Rocm && rocm_built ==> r is Ok && r->Ok_0@ == seq![
            BackendKind::Rocm,
        ],
        preference == BackendPreference::Auto ==> r is Ok && r->Ok_0@.take(3) == seq![
            BackendKind::Vulkan,
            BackendKind::Cuda,
            BackendKind::OpenCl,
        ] && r->Ok_0@.skip(3) == (if rocm_built {
            seq![BackendKind::Rocm]
        } else {
            Seq::empty()
        }),
{
    let mut list: Vec<BackendKind> = Vec::new();
    match preference {
        BackendPreference::Cpu => {},
        BackendPreference::Vulkan => {
            list.push(BackendKind::Vulkan);
        },
        BackendPreference::Cuda => {
            list.push(BackendKind::Cuda);
        },
        BackendPreference::OpenCl => {
            list.push(BackendKind::OpenCl);
        },
        BackendPreference::Rocm => {
            if !rocm_built {
                let mut s = "[".to_owned();
                s.append(SERVER_SECTION);
                s.append(
                    "].backend = rocm, but this build of orangu-server was compiled without the \"rocm\" Cargo feature (rebuild with `--features rocm`)",
                );
                return Err(s);
            }
            list.push(BackendKind::Rocm);
        },
        BackendPreference::Auto => {
            list.push(BackendKind::Vulkan);
            list.push(BackendKind::Cuda);
            list.push(BackendKind::OpenCl);
            if rocm_built {
                list.push(BackendKind::Rocm);
            }
        },
    }
    assert(list@ =~= tries(preference, rocm_built));
    assert(preference == BackendPreference::Auto ==> list@.take(3) =~= seq![
        BackendKind::Vulkan,
        BackendKind::Cuda,
        BackendKind::OpenCl,
    ] && list@.skip(3) =~= (if rocm_built {
        seq![BackendKind::Rocm]
    } else {
        Seq::empty()
    }));
    Ok(list)
}

/// How a device is called.
pub open spec fn device_label(kind: BackendKind, device: Seq<char>) -> Seq<char> {
    kind.name() + "/"@ + device
}

/// How a device is called.
fn label_of(kind: BackendKind, device: &str) -> (r: String)
    ensures
        r@ == device_label(kind, device@),
{
    let mut s = match kind {
        BackendKind::Vulkan => "Vulkan".to_owned(),
        BackendKind::Cuda => "CUDA".to_owned(),
        BackendKind::OpenCl => "OpenCL".to_owned(),
        BackendKind::Rocm => "ROCm".to_owned(),
    };
    s.append("/");
    s.append(device);
    s
}

/// What is said where no device was found.
fn complaint_of(kind: BackendKind) -> (r: String)
    ensures
        r@ == kind.complaint(),
{
    let mut s = "[".to_owned();
    s.append(SERVER_SECTION);
    match kind {
        BackendKind::Vulkan => {
            s.append("].backend = vulkan, but no usable Vulkan adapter was found");
        },
        BackendKind::Cuda => {
            s.append("].backend = cuda, but no usable CUDA device was found");
        },
        BackendKind::OpenCl => {
            s.append("].backend = opencl, but no usable OpenCL device was found");
        },
        BackendKind::Rocm => {
            s.append("].backend = rocm, but no usable ROCm/HIP device was found");
        },
    }
    s
}

/// How the processor is called.
pub open spec fn processor_label(avx2: bool) -> Seq<char> {
    if avx2 {
        "CPU/AVX2"@
    } else {
        "CPU"@
    }
}

/// What the model runs on: the first that a device was found for. Where none was,
/// the processor, unless something else was named. `devices` holds the names of the
/// devices that were found for what was tried, as far as it was.
pub open spec fn settled(
    tried: Seq<BackendKind>,
    devices: Seq<Option<String>>,
    choice: BackendChoice,
    avx2: bool,
) -> bool {
    if exists|i: int| is_first_found(devices, i) {
        let i = choose|i: int| is_first_found(devices, i);
        choice.kind == Some(tried[i]) && choice.label@ == device_label(tried[i], devices[i]->0@)
    } else {
        choice.kind is None && choice.label@ == processor_label(avx2)
    }
}

/// Whether device `i` is the first that was found.
pub open spec fn is_first_found(devices: Seq<Option<String>>, i: int) -> bool {
    &&& 0 <= i < devices.len()
    &&& devices[i] is Some
    &&& forall|j: int| 0 <= j < i ==> (#[trigger] devices[j]) is None
}

/// What the model runs on, or what is said where the one that was named has no
/// device.
pub fn select_backend(
    preference: BackendPreference,
    tried: &Vec<BackendKind>,
    devices: &Vec<Option<String>>,
    avx2: bool,
) -> (r: Result<BackendChoice, String>)
    requires
        tried@.len() == devices@.len(),
        exists|rocm_built: bool| tried@ == #[trigger] tries(preference, rocm_built),
    ensures
        match r {
            Ok(choice) => {
                &&& settled(tried@, devices@, choice, avx2)
                &&& choice.kind is Some || preference == BackendPreference::Auto || preference
                    == BackendPreference::Cpu
            },
            Err(e) => {
                &&& preference != BackendPreference::Auto
                &&& preference != BackendPreference::Cpu
                &&& forall|i: int| 0 <= i < devices@.len() ==> (#[trigger] devices@[i]) is None
                &&& e@ == tried@[0].complaint()
            },
        },
        forall|i: int|
            0 <= i < devices@.len() && (#[trigger] devices@[i]) is Some && (forall|j: int|
                0 <= j < i ==> (#[trigger] devices@[j]) is None) ==> r is Ok && r->Ok_0.kind
                == Some(tried@[i]) && r->Ok_0.label@ == tried@[i].name() + "/"@
                + devices@[i]->0@,
        r is Ok && r->Ok_0.kind is None && avx2 ==> r->Ok_0.label@ == "CPU/AVX2"@,
        r is Ok && r->Ok_0.kind is None && !avx2 ==> r->Ok_0.label@ == "CPU"@,
{
    let mut i: usize = 0;
    while i < tried.len()
        invariant
            i <= tried.len(),
            tried@.len() == devices@.len(),
            forall|j: int| 0 <= j < i ==> (#[trigger] devices@[j]) is None,
        decreases tried.len() - i,
    {
        if let Some(device) = &devices[i] {
            proof {
                assert(is_first_found(devices@, i as int));
                let c = choose|k: int| is_first_found(devices@, k);
                assert(c == i);
            }
            return Ok(
                BackendChoice {
                    kind: Some(tried[i]),
                    label: label_of(tried[i], device.as_str()),
                },
            );
        }
        i += 1;
    }
    match preference {
        BackendPreference::Auto | BackendPreference::Cpu => Ok(
            BackendChoice {
                kind: None,
                label: if avx2 {
                    "CPU/AVX2".to_owned()
                } else {
                    "CPU".to_owned()
                },
            },
        ),
        _ => Err(complaint_of(tried[0])),
    }
}

} // verus!
