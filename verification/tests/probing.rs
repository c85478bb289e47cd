use device_negotiation::device::{probe, score, CandidateDevice, CapabilityReport};
use device_negotiation::extensions::{is_supported, missing_extensions, required_device_extensions};
use device_negotiation::queues::{QueueFamilies, QueueFamilyInfo};

const GRAPHICS: u32 = 0b1;
const COMPUTE: u32 = 0b10;
const TRANSFER: u32 = 0b100;
const INTEGRATED: i32 = 1;
const DISCRETE: i32 = 2;

fn family(queue_flags: u32, present_support: bool) -> QueueFamilyInfo {
    QueueFamilyInfo { queue_flags, present_support }
}

fn owned(names: &[&str]) -> Vec<String> {
    names.iter().map(|name| name.to_string()).collect()
}

fn device_with(families: Vec<QueueFamilyInfo>, extensions: &[&str]) -> CandidateDevice {
    CandidateDevice {
        handle: 1,
        device_type: INTEGRATED,
        max_image_dimension_2d: 4096,
        queue_families: families,
        extensions: owned(extensions),
    }
}

#[test]
fn default_families_resolve_nothing() {
    let families = QueueFamilies::default();
    assert_eq!(families.graphics, None);
    assert_eq!(families.presentation, None);
    assert!(!families.is_valid());
}

#[test]
fn families_are_valid_only_with_both_roles() {
    assert!(QueueFamilies { graphics: Some(0), presentation: Some(1) }.is_valid());
    assert!(QueueFamilies { graphics: Some(2), presentation: Some(2) }.is_valid());
    assert!(!QueueFamilies { graphics: Some(0), presentation: None }.is_valid());
    assert!(!QueueFamilies { graphics: None, presentation: Some(0) }.is_valid());
}

#[test]
fn graphics_resolves_to_first_family_with_the_bit() {
    let families = vec![
        family(COMPUTE, false),
        family(TRANSFER | COMPUTE, false),
        family(GRAPHICS | COMPUTE, false),
        family(GRAPHICS, false),
    ];
    let resolved = QueueFamilies::new(&families, true);
    assert_eq!(resolved.graphics, Some(2));
    assert_eq!(resolved.presentation, None);
}

#[test]
fn graphics_is_absent_when_no_family_has_the_bit() {
    let families = vec![family(COMPUTE, true), family(TRANSFER, true), family(0, true)];
    let resolved = QueueFamilies::new(&families, true);
    assert_eq!(resolved.graphics, None);
    assert_eq!(resolved.presentation, Some(0));
}

#[test]
fn graphics_test_reads_only_the_lowest_bit() {
    let families = vec![family(0xffff_fffe, false), family(0xffff_ffff, false)];
    assert_eq!(QueueFamilies::new(&families, false).graphics, Some(1));
}

#[test]
fn presentation_resolves_to_first_presenting_family() {
    let families = vec![
        family(GRAPHICS, false),
        family(COMPUTE, true),
        family(GRAPHICS, true),
    ];
    let resolved = QueueFamilies::new(&families, true);
    assert_eq!(resolved.graphics, Some(0));
    assert_eq!(resolved.presentation, Some(1));
}

#[test]
fn one_family_can_serve_both_roles() {
    let families = vec![family(COMPUTE, false), family(TRANSFER, false), family(GRAPHICS, true)];
    let resolved = QueueFamilies::new(&families, true);
    assert_eq!(resolved, QueueFamilies { graphics: Some(2), presentation: Some(2) });
}

#[test]
fn presentation_is_not_resolved_unless_requested() {
    let families = vec![family(GRAPHICS, true), family(COMPUTE, true)];
    let resolved = QueueFamilies::new(&families, false);
    assert_eq!(resolved, QueueFamilies { graphics: Some(0), presentation: None });
}

#[test]
fn no_families_resolve_nothing() {
    let resolved = QueueFamilies::new(&Vec::new(), true);
    assert_eq!(resolved, QueueFamilies { graphics: None, presentation: None });
}

#[test]
fn supported_name_is_found() {
    let supported = owned(&["VK_KHR_swapchain", "VK_KHR_maintenance1"]);
    assert!(is_supported(&"VK_KHR_maintenance1".to_string(), &supported));
    assert!(!is_supported(&"VK_KHR_maintenance2".to_string(), &supported));
    assert!(!is_supported(&"VK_KHR_swapchain".to_string(), &Vec::new()));
}

#[test]
fn missing_extensions_are_the_required_ones_not_supported() {
    let required = owned(&["a", "b", "c", "d"]);
    let supported = owned(&["d", "x", "b"]);
    assert_eq!(missing_extensions(&required, &supported), owned(&["a", "c"]));
}

#[test]
fn nothing_is_missing_when_all_are_supported() {
    let required = owned(&["a", "b"]);
    let supported = owned(&["b", "a", "c"]);
    assert_eq!(missing_extensions(&required, &supported), Vec::<String>::new());
    assert_eq!(missing_extensions(&Vec::new(), &Vec::new()), Vec::<String>::new());
}

#[test]
fn everything_is_missing_on_a_device_without_extensions() {
    let required = owned(&["a", "b"]);
    assert_eq!(missing_extensions(&required, &Vec::new()), required);
}

#[test]
fn required_device_extensions_name_the_swapchain() {
    assert_eq!(required_device_extensions(), owned(&["VK_KHR_swapchain"]));
}

#[test]
fn probe_reports_families_and_missing_extensions() {
    let device = device_with(
        vec![family(COMPUTE, false), family(GRAPHICS, false), family(TRANSFER, true)],
        &["VK_KHR_swapchain"],
    );
    let required = owned(&["VK_KHR_swapchain", "VK_EXT_hdr_metadata"]);
    let report = probe(&device, true, &required);
    assert_eq!(
        report,
        CapabilityReport {
            families: QueueFamilies { graphics: Some(1), presentation: Some(2) },
            presentation_requested: true,
            missing_extensions: owned(&["VK_EXT_hdr_metadata"]),
        }
    );
    assert!(!report.is_valid());
}

#[test]
fn probe_of_a_suitable_device_is_valid() {
    let device = device_with(vec![family(GRAPHICS, true)], &["VK_KHR_swapchain"]);
    let report = probe(&device, true, &required_device_extensions());
    assert_eq!(report.families, QueueFamilies { graphics: Some(0), presentation: Some(0) });
    assert!(report.missing_extensions.is_empty());
    assert!(report.is_valid());
}

#[test]
fn probe_without_presentation_leaves_it_absent_and_valid() {
    let device = device_with(vec![family(GRAPHICS, true)], &[]);
    let report = probe(&device, false, &Vec::new());
    assert_eq!(report.families, QueueFamilies { graphics: Some(0), presentation: None });
    assert!(!report.presentation_requested);
    assert!(report.is_valid());
}

#[test]
fn report_validity_follows_each_requirement() {
    let valid = CapabilityReport {
        families: QueueFamilies { graphics: Some(0), presentation: Some(1) },
        presentation_requested: true,
        missing_extensions: Vec::new(),
    };
    assert!(valid.is_valid());
    let missing = CapabilityReport { missing_extensions: owned(&["x"]), ..valid.clone() };
    assert!(!missing.is_valid());
    let no_graphics = CapabilityReport {
        families: QueueFamilies { graphics: None, presentation: Some(1) },
        ..valid.clone()
    };
    assert!(!no_graphics.is_valid());
    let no_presentation = CapabilityReport {
        families: QueueFamilies { graphics: Some(0), presentation: None },
        ..valid.clone()
    };
    assert!(!no_presentation.is_valid());
    let not_requested = CapabilityReport { presentation_requested: false, ..no_presentation };
    assert!(not_requested.is_valid());
}

#[test]
fn score_adds_the_bonus_for_a_discrete_device() {
    let mut device = device_with(Vec::new(), &[]);
    device.device_type = DISCRETE;
    device.max_image_dimension_2d = 8192;
    assert_eq!(score(&device), 11192);
}

#[test]
fn score_of_other_devices_is_the_dimension() {
    let mut device = device_with(Vec::new(), &[]);
    for device_type in [0, 1, 3, 4, -1] {
        device.device_type = device_type;
        assert_eq!(score(&device), 4096);
    }
    device.max_image_dimension_2d = 0;
    assert_eq!(score(&device), 0);
}

#[test]
fn score_does_not_wrap_at_the_largest_dimension() {
    let mut device = device_with(Vec::new(), &[]);
    device.device_type = DISCRETE;
    device.max_image_dimension_2d = u32::MAX;
    assert_eq!(score(&device), 4_294_970_295);
}
