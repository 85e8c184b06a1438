use voxtype::parakeet::{
    choose_whisper_fallback, detect_available_backends, detect_best_parakeet_backend,
    ParakeetBackend,
};

#[test]
fn test_parakeet_backend_binary_names() {
    assert_eq!(ParakeetBackend::Avx2.binary_name(), "voxtype-parakeet-avx2");
    assert_eq!(ParakeetBackend::Avx512.binary_name(), "voxtype-parakeet-avx512");
    assert_eq!(ParakeetBackend::Cuda.binary_name(), "voxtype-parakeet-cuda");
}

#[test]
fn test_parakeet_backend_display_names() {
    assert_eq!(ParakeetBackend::Avx2.display_name(), "Parakeet (AVX2)");
    assert_eq!(ParakeetBackend::Avx512.display_name(), "Parakeet (AVX-512)");
    assert_eq!(ParakeetBackend::Cuda.display_name(), "Parakeet (CUDA)");
}

#[test]
fn test_parakeet_whisper_equivalents() {
    assert_eq!(ParakeetBackend::Avx2.whisper_equivalent(), "voxtype-avx2");
    assert_eq!(ParakeetBackend::Avx512.whisper_equivalent(), "voxtype-avx512");
    assert_eq!(ParakeetBackend::Cuda.whisper_equivalent(), "voxtype-vulkan");
}

#[test]
fn test_detect_available_backends_returns_vec() {
    // With no backend binaries installed the list is a valid, empty vector.
    let backends = detect_available_backends(false, false, false);
    assert!(backends.len() <= 3);
}

#[test]
fn test_backend_enum_equality() {
    assert_eq!(ParakeetBackend::Avx2, ParakeetBackend::Avx2);
    assert_ne!(ParakeetBackend::Avx2, ParakeetBackend::Avx512);
    assert_ne!(ParakeetBackend::Avx512, ParakeetBackend::Cuda);
}

#[test]
fn test_backend_clone() {
    let backend = ParakeetBackend::Cuda;
    let cloned = backend;
    assert_eq!(backend, cloned);
}

#[test]
fn test_available_backends_order_and_content() {
    let backends = detect_available_backends(true, false, true);
    assert_eq!(backends, vec![ParakeetBackend::Avx2, ParakeetBackend::Cuda]);
    let all = detect_available_backends(true, true, true);
    assert_eq!(
        all,
        vec![ParakeetBackend::Avx2, ParakeetBackend::Avx512, ParakeetBackend::Cuda]
    );
}

#[test]
fn test_best_backend_prefers_cuda_with_gpu() {
    let available = detect_available_backends(true, true, true);
    assert_eq!(
        detect_best_parakeet_backend(&available, true, true),
        Some(ParakeetBackend::Cuda)
    );
    // Without a GPU the CUDA build is not chosen.
    assert_eq!(
        detect_best_parakeet_backend(&available, false, true),
        Some(ParakeetBackend::Avx512)
    );
    assert_eq!(
        detect_best_parakeet_backend(&available, false, false),
        Some(ParakeetBackend::Avx2)
    );
}

#[test]
fn test_best_backend_empty_and_fallback() {
    let none = detect_available_backends(false, false, false);
    assert_eq!(detect_best_parakeet_backend(&none, true, true), None);
    // Only CUDA installed, no GPU: last resort is whatever is available.
    let cuda_only = detect_available_backends(false, false, true);
    assert_eq!(
        detect_best_parakeet_backend(&cuda_only, false, false),
        Some(ParakeetBackend::Cuda)
    );
}

#[test]
fn test_whisper_fallback_prefers_equivalent() {
    let chosen = choose_whisper_fallback(Some(ParakeetBackend::Avx512), true, true, true, true);
    assert_eq!(chosen, Some("voxtype-avx512"));
    let chosen = choose_whisper_fallback(Some(ParakeetBackend::Cuda), true, true, true, true);
    assert_eq!(chosen, Some("voxtype-vulkan"));
    let chosen = choose_whisper_fallback(None, true, true, true, true);
    assert_eq!(chosen, Some("voxtype-avx2"));
}

#[test]
fn test_whisper_fallback_order_when_equivalent_missing() {
    // The preferred vulkan build is missing: first installed in priority
    // order wins.
    let chosen = choose_whisper_fallback(Some(ParakeetBackend::Cuda), false, true, false, true);
    assert_eq!(chosen, Some("voxtype-avx2"));
    let chosen = choose_whisper_fallback(Some(ParakeetBackend::Cuda), false, false, false, true);
    assert_eq!(chosen, Some("voxtype-cpu"));
    let chosen = choose_whisper_fallback(Some(ParakeetBackend::Cuda), false, false, false, false);
    assert_eq!(chosen, None);
}
