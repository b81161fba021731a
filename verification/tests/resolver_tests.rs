use picam::models::PipelineConfig;
use picam::sys::{Capabilties, Device, FrameSize};
use picam::video::{Config, format_supports_builtin_encoder};

fn device(path: &str, format: &str, sizes: Vec<FrameSize>) -> Device {
    Device {
        path: path.to_string(),
        capabilities: vec![Capabilties { format: format.to_string(), resolution: sizes }],
    }
}

fn discrete(width: u32, height: u32) -> FrameSize {
    FrameSize::Discrete { width, height }
}

fn no_overrides() -> PipelineConfig {
    PipelineConfig { source: None, use_cam_builtin_encoder: None, width: None, height: None }
}

/// Device A offers 1920x1080 H264, device B 1280x720 YUV.
fn two_devices() -> Vec<Device> {
    vec![
        device("/dev/video0", "H264", vec![discrete(1920, 1080)]),
        device("/dev/video1", "YUYV", vec![discrete(1280, 720)]),
    ]
}

#[test]
fn resolver_picks_highest_pixel_count_with_builtin_encoder() {
    let config = Config::find_optimal_settings(&two_devices(), &no_overrides());
    assert_eq!(config.source, "/dev/video0");
    assert!(config.use_cam_builtin_encoder);
    assert_eq!((config.width, config.height), (1920, 1080));
}

#[test]
fn resolver_encoder_override_forces_the_software_path() {
    let overrides =
        PipelineConfig { use_cam_builtin_encoder: Some(false), ..no_overrides() };
    let config = Config::find_optimal_settings(&two_devices(), &overrides);
    assert_eq!(config.source, "/dev/video1");
    assert!(!config.use_cam_builtin_encoder);
    assert_eq!((config.width, config.height), (1280, 720));
}

#[test]
fn resolver_source_override_pins_the_device() {
    let overrides =
        PipelineConfig { source: Some("/dev/video1".to_string()), ..no_overrides() };
    let config = Config::find_optimal_settings(&two_devices(), &overrides);
    assert_eq!(config.source, "/dev/video1");
    assert_eq!((config.width, config.height), (1280, 720));
}

#[test]
fn resolver_dimension_override_requires_equality() {
    let overrides = PipelineConfig { width: Some(1280), height: Some(720), ..no_overrides() };
    let config = Config::find_optimal_settings(&two_devices(), &overrides);
    assert_eq!(config.source, "/dev/video1");
    assert_eq!((config.width, config.height), (1280, 720));
    // No device offers this exact size: nothing is selected.
    let overrides = PipelineConfig { width: Some(640), height: Some(480), ..no_overrides() };
    let config = Config::find_optimal_settings(&two_devices(), &overrides);
    assert_eq!(config.source, "");
    assert_eq!((config.width, config.height), (0, 0));
}

#[test]
fn resolver_stepwise_range_is_stretched_to_its_maximum() {
    let devices = vec![device(
        "/dev/video2",
        "YUYV",
        vec![FrameSize::Stepwise { max_width: 800, max_height: 600 }],
    )];
    let config = Config::find_optimal_settings(&devices, &no_overrides());
    assert_eq!((config.width, config.height), (800, 600));
    // An explicit larger override stretches past the maximum.
    let overrides = PipelineConfig { width: Some(1024), ..no_overrides() };
    let config = Config::find_optimal_settings(&devices, &overrides);
    assert_eq!((config.width, config.height), (1024, 600));
}

#[test]
fn resolver_ties_go_to_the_first_device_in_order() {
    let devices = vec![
        device("/dev/video0", "YUYV", vec![discrete(1280, 720)]),
        device("/dev/video1", "YUYV", vec![discrete(1280, 720)]),
    ];
    let config = Config::find_optimal_settings(&devices, &no_overrides());
    assert_eq!(config.source, "/dev/video0");
}

#[test]
fn resolver_with_no_devices_selects_nothing() {
    let config = Config::find_optimal_settings(&Vec::new(), &no_overrides());
    assert_eq!(config.source, "");
    assert!(!config.use_cam_builtin_encoder);
    assert_eq!((config.width, config.height), (0, 0));
}

#[test]
fn builtin_encoder_format_match_ignores_ascii_case() {
    assert!(format_supports_builtin_encoder("H264"));
    assert!(format_supports_builtin_encoder("h264"));
    assert!(!format_supports_builtin_encoder("YUYV"));
    assert!(!format_supports_builtin_encoder("H26"));
    assert!(!format_supports_builtin_encoder("H2644"));
}
