// Choosing the device and settling the compute context.

use carya::device::contains;
use carya::error::DeviceError;
use carya::opencl::{build_ocl_proque, CLBackEnd};

fn names(list: &[&str]) -> Vec<String> {
    list.iter().map(|s| s.to_string()).collect()
}

#[test]
fn the_first_matching_device_is_selected() {
    let devices = names(&["Intel(R) UHD Graphics", "GeForce GTX 1080", "GeForce RTX 3090"]);
    assert_eq!(build_ocl_proque("GeForce".to_string(), &devices), Ok(1));
    assert_eq!(build_ocl_proque("RTX".to_string(), &devices), Ok(2));
    assert_eq!(build_ocl_proque("Graphics".to_string(), &devices), Ok(0));
    assert_eq!(build_ocl_proque("G".to_string(), &devices), Ok(0));
    assert_eq!(build_ocl_proque("".to_string(), &devices), Ok(0));
}

#[test]
fn no_matching_device_is_not_found() {
    let devices = names(&["Intel(R) UHD Graphics", "GeForce GTX 1080"]);
    assert_eq!(build_ocl_proque("Radeon".to_string(), &devices), Err(DeviceError::NotFound));
    assert_eq!(build_ocl_proque("GeForce".to_string(), &Vec::new()), Err(DeviceError::NotFound));
    assert_eq!(build_ocl_proque("".to_string(), &Vec::new()), Err(DeviceError::NotFound));
}

#[test]
fn matching_is_case_sensitive() {
    let devices = names(&["geforce gtx", "GEFORCE GTX", "GeForce GTX"]);
    assert_eq!(build_ocl_proque("GeForce".to_string(), &devices), Ok(2));
    assert_eq!(build_ocl_proque("GEFORCE".to_string(), &devices), Ok(1));
    assert_eq!(build_ocl_proque("Geforce".to_string(), &devices), Err(DeviceError::NotFound));
}

#[test]
fn containment_agrees_with_the_standard_library() {
    let samples = [
        "", "a", "aa", "ab", "ba", "aab", "aba", "GeForce", "GeForce GTX 1080", "Force",
        "1080", " ", "GTX ", "e G", "é", "né", "Gé", "Carte graphique née", "graphique",
        "日本", "本", "日本語のデバイス", "語の", "\u{00e9}\u{0301}", "\u{0301}",
    ];
    for hay in samples {
        for needle in samples {
            assert_eq!(contains(hay, needle), hay.contains(needle), "{:?} in {:?}", needle, hay);
        }
    }
}

#[test]
fn containment_at_the_edges() {
    assert!(contains("GeForce", ""));
    assert!(contains("", ""));
    assert!(!contains("", "G"));
    assert!(contains("GeForce", "GeForce"));
    assert!(!contains("GeForce", "GeForce "));
    assert!(contains("GeForce", "Ge"));
    assert!(contains("GeForce", "ce"));
    assert!(contains("GeForce", "eF"));
    assert!(!contains("GeForce", "ef"));
    assert!(!contains("GeForce", "Gorce"));
    assert!(contains("aaab", "aab"));
}

#[test]
fn a_context_needs_a_compiled_program_and_a_ready_device() {
    assert_eq!(CLBackEnd::new(3, true, true), Ok(CLBackEnd { device: 3 }));
    assert_eq!(CLBackEnd::new(3, false, true), Err(DeviceError::BuildFailure));
    assert_eq!(CLBackEnd::new(3, true, false), Err(DeviceError::Unavailable));
    assert_eq!(CLBackEnd::new(3, false, false), Err(DeviceError::BuildFailure));
}
