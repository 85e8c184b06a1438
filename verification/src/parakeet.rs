//! Decision logic for choosing a transcription backend binary.
//!
//! Everything here is pure: the surrounding program inspects the machine
//! (which binaries are installed, whether a GPU is present, what the
//! current symlink points at) and passes plain values in; these functions
//! decide which backend to use.

use vstd::prelude::*;

verus! {

/// Parakeet backend variants
#[derive(Debug, Clone, Copy, PartialEq, Eq, Structural)]
pub enum ParakeetBackend {
    Avx2,
    Avx512,
    Cuda,
}

impl ParakeetBackend {
    pub open spec fn spec_binary_name(self) -> Seq<char> {
        match self {
            ParakeetBackend::Avx2 => "voxtype-parakeet-avx2"@,
            ParakeetBackend::Avx512 => "voxtype-parakeet-avx512"@,
            ParakeetBackend::Cuda => "voxtype-parakeet-cuda"@,
        }
    }

    pub open spec fn spec_display_name(self) -> Seq<char> {
        match self {
            ParakeetBackend::Avx2 => "Parakeet (AVX2)"@,
            ParakeetBackend::Avx512 => "Parakeet (AVX-512)"@,
            ParakeetBackend::Cuda => "Parakeet (CUDA)"@,
        }
    }

    pub open spec fn spec_whisper_equivalent(self) -> Seq<char> {
        match self {
            ParakeetBackend::Avx2 => "voxtype-avx2"@,
            ParakeetBackend::Avx512 => "voxtype-avx512"@,
            ParakeetBackend::Cuda => "voxtype-vulkan"@,
        }
    }

    /// File name of the backend's binary.
    pub fn binary_name(&self) -> (r: &'static str)
        ensures
            r@ == self.spec_binary_name(),
    {
        match self {
            ParakeetBackend::Avx2 => "voxtype-parakeet-avx2",
            ParakeetBackend::Avx512 => "voxtype-parakeet-avx512",
            ParakeetBackend::Cuda => "voxtype-parakeet-cuda",
        }
    }

    /// Human-readable name of the backend.
    pub fn display_name(&self) -> (r: &'static str)
        ensures
            r@ == self.spec_display_name(),
    {
        match self {
            ParakeetBackend::Avx2 => "Parakeet (AVX2)",
            ParakeetBackend::Avx512 => "Parakeet (AVX-512)",
            ParakeetBackend::Cuda => "Parakeet (CUDA)",
        }
    }

    /// The Whisper binary to fall back to when this backend is disabled.
    /// CUDA users likely have a GPU, so they fall back to vulkan.
    pub fn whisper_equivalent(&self) -> (r: &'static str)
        ensures
            r@ == self.spec_whisper_equivalent(),
    {
        match self {
            ParakeetBackend::Avx2 => "voxtype-avx2",
            ParakeetBackend::Avx512 => "voxtype-avx512",
            ParakeetBackend::Cuda => "voxtype-vulkan",
        }
    }
}

/// The backends reported available when exactly the flagged binaries are
/// installed, in the fixed order Avx2, Avx512, Cuda.
pub open spec fn spec_available_backends(avx2: bool, avx512: bool, cuda: bool) -> Seq<
    ParakeetBackend,
> {
    (if avx2 {
        seq![ParakeetBackend::Avx2]
    } else {
        Seq::empty()
    }) + (if avx512 {
        seq![ParakeetBackend::Avx512]
    } else {
        Seq::empty()
    }) + (if cuda {
        seq![ParakeetBackend::Cuda]
    } else {
        Seq::empty()
    })
}

/// Lists the installed Parakeet backends. Each flag says whether the
/// corresponding backend binary is installed on this machine.
pub fn detect_available_backends(avx2: bool, avx512: bool, cuda: bool) -> (r: Vec<
    ParakeetBackend,
>)
    ensures
        r@ == spec_available_backends(avx2, avx512, cuda),
{
    let mut available: Vec<ParakeetBackend> = Vec::new();
    if avx2 {
        available.push(ParakeetBackend::Avx2);
    }
    if avx512 {
        available.push(ParakeetBackend::Avx512);
    }
    if cuda {
        available.push(ParakeetBackend::Cuda);
    }
    proof {
        assert(available@ =~= spec_available_backends(avx2, avx512, cuda));
    }
    available
}

/// The backend `detect_best_parakeet_backend` must pick: CUDA when a
/// NVIDIA GPU is present, else AVX-512 when the CPU supports it, else
/// AVX2, else whatever is available.
pub open spec fn spec_best_backend(
    available: Seq<ParakeetBackend>,
    has_nvidia_gpu: bool,
    cpu_has_avx512: bool,
) -> Option<ParakeetBackend> {
    if available.len() == 0 {
        None
    } else if available.contains(ParakeetBackend::Cuda) && has_nvidia_gpu {
        Some(ParakeetBackend::Cuda)
    } else if available.contains(ParakeetBackend::Avx512) && cpu_has_avx512 {
        Some(ParakeetBackend::Avx512)
    } else if available.contains(ParakeetBackend::Avx2) {
        Some(ParakeetBackend::Avx2)
    } else {
        Some(available[0])
    }
}

fn contains_backend(v: &Vec<ParakeetBackend>, b: ParakeetBackend) -> (r: bool)
    ensures
        r == v@.contains(b),
{
    let mut i: usize = 0;
    while i < v.len()
        invariant
            0 <= i <= v@.len(),
            forall|k: int| 0 <= k < i ==> v@[k] != b,
        decreases v@.len() - i,
    {
        if v[i] == b {
            return true;
        }
        i += 1;
    }
    false
}

/// Picks the best Parakeet backend for this machine: prefer CUDA on a
/// NVIDIA GPU, then AVX-512 on a capable CPU, then AVX2, then anything.
pub fn detect_best_parakeet_backend(
    available: &Vec<ParakeetBackend>,
    has_nvidia_gpu: bool,
    cpu_has_avx512: bool,
) -> (r: Option<ParakeetBackend>)
    ensures
        r == spec_best_backend(available@, has_nvidia_gpu, cpu_has_avx512),
{
    if available.len() == 0 {
        return None;
    }
    if contains_backend(available, ParakeetBackend::Cuda) && has_nvidia_gpu {
        return Some(ParakeetBackend::Cuda);
    }
    if contains_backend(available, ParakeetBackend::Avx512) && cpu_has_avx512 {
        return Some(ParakeetBackend::Avx512);
    }
    if contains_backend(available, ParakeetBackend::Avx2) {
        return Some(ParakeetBackend::Avx2);
    }
    Some(available[0])
}

/// The Whisper binary `disable` must switch back to, given which Parakeet
/// backend was active and which Whisper binaries are installed: the active
/// backend's preferred equivalent when installed, else the first installed
/// binary in the order avx512, avx2, vulkan, cpu.
pub open spec fn spec_whisper_fallback(
    current: Option<ParakeetBackend>,
    avx512: bool,
    avx2: bool,
    vulkan: bool,
    cpu: bool,
) -> Option<Seq<char>> {
    let preferred = match current {
        Some(b) => b.spec_whisper_equivalent(),
        None => "voxtype-avx2"@,
    };
    let preferred_installed = match current {
        Some(ParakeetBackend::Avx512) => avx512,
        Some(ParakeetBackend::Avx2) | None => avx2,
        Some(ParakeetBackend::Cuda) => vulkan,
    };
    if preferred_installed {
        Some(preferred)
    } else if avx512 {
        Some("voxtype-avx512"@)
    } else if avx2 {
        Some("voxtype-avx2"@)
    } else if vulkan {
        Some("voxtype-vulkan"@)
    } else if cpu {
        Some("voxtype-cpu"@)
    } else {
        None
    }
}

/// Chooses the Whisper binary to restore when Parakeet is disabled.
/// Each flag says whether the corresponding Whisper binary is installed.
pub fn choose_whisper_fallback(
    current: Option<ParakeetBackend>,
    avx512: bool,
    avx2: bool,
    vulkan: bool,
    cpu: bool,
) -> (r: Option<&'static str>)
    ensures
        match (r, spec_whisper_fallback(current, avx512, avx2, vulkan, cpu)) {
            (Some(s), Some(t)) => s@ == t,
            (None, None) => true,
            _ => false,
        },
{
    let preferred: &'static str = match current {
        Some(b) => b.whisper_equivalent(),
        None => "voxtype-avx2",
    };
    let preferred_installed = match current {
        Some(ParakeetBackend::Avx512) => avx512,
        Some(ParakeetBackend::Avx2) | None => avx2,
        Some(ParakeetBackend::Cuda) => vulkan,
    };
    if preferred_installed {
        Some(preferred)
    } else if avx512 {
        Some("voxtype-avx512")
    } else if avx2 {
        Some("voxtype-avx2")
    } else if vulkan {
        Some("voxtype-vulkan")
    } else if cpu {
        Some("voxtype-cpu")
    } else {
        None
    }
}

} // verus!
