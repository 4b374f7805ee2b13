use el320x240_36hb_sender::algorithm::DitherAlgorithm;
use el320x240_36hb_sender::config::ConfigError;
use el320x240_36hb_sender::config::DitherConfig;
use el320x240_36hb_sender::plan::ComputePlan;
use el320x240_36hb_sender::plan::PlanError;
use el320x240_36hb_sender::DISPLAY_FPS;
use el320x240_36hb_sender::DISPLAY_HEIGHT;
use el320x240_36hb_sender::DISPLAY_WIDTH;

#[test]
fn display_constants() {
    assert_eq!(DISPLAY_WIDTH, 320);
    assert_eq!(DISPLAY_HEIGHT, 240);
    assert_eq!(DISPLAY_FPS, 30);
}

#[test]
fn config_accepts_display_geometry() {
    let cfg = DitherConfig::new(320, 240, 0, 255).unwrap();
    assert_eq!(cfg.width, 320);
    assert_eq!(cfg.height, 240);
    assert_eq!(cfg.black_level, 0);
    assert_eq!(cfg.white_level, 255);
    assert_eq!(cfg.derived_threshold(), 127);
}

#[test]
fn config_rejects_reversed_levels() {
    assert_eq!(
        DitherConfig::new(320, 240, 200, 100),
        Err(ConfigError::LevelsReversed)
    );
}

#[test]
fn config_rejects_unaligned_width() {
    assert_eq!(
        DitherConfig::new(13, 240, 0, 255),
        Err(ConfigError::WidthNotByteAligned)
    );
}

#[test]
fn config_rejects_oversized_frame() {
    assert_eq!(
        DitherConfig::new(0x10000, 0x10000, 0, 255),
        Err(ConfigError::FrameTooLarge)
    );
}

#[test]
fn plan_for_display_threshold() {
    // 320x240 with the threshold algorithm: a 9600-byte packed bitmap, an
    // equal staging buffer, and 2400 work items of 32 pixels covering all
    // 76800 pixels exactly once.
    let cfg = DitherConfig::new(320, 240, 0, 255).unwrap();
    let plan = ComputePlan::build(DitherAlgorithm::Threshold, &cfg).unwrap();
    assert_eq!(plan.config_width, 320);
    assert_eq!(plan.threshold, 127);
    assert_eq!(plan.output_len, 9600);
    assert_eq!(plan.staging_len, 9600);
    assert_eq!(plan.work_items, 2400);
    assert_eq!(plan.output_binding_count, 2);
    assert!(plan.matrix.is_none());
}

#[test]
fn plan_for_ordered_carries_matrix() {
    let cfg = DitherConfig::new(320, 240, 0, 255).unwrap();
    let plan = ComputePlan::build(DitherAlgorithm::Ordered, &cfg).unwrap();
    let m = plan.matrix.unwrap();
    assert_eq!(m.n, 4);
    assert_eq!(m.entries[0], 0);
    assert_eq!(m.entries[5], 4);
}

#[test]
fn plan_rejects_pinwheel() {
    let cfg = DitherConfig::new(320, 240, 0, 255).unwrap();
    assert!(matches!(
        ComputePlan::build(DitherAlgorithm::Pinwheel, &cfg),
        Err(PlanError::UnimplementedAlgorithm)
    ));
}

#[test]
fn plan_rejects_uneven_dispatch() {
    let cfg = DitherConfig::new(8, 1, 0, 255).unwrap();
    assert!(matches!(
        ComputePlan::build(DitherAlgorithm::Threshold, &cfg),
        Err(PlanError::DispatchGranularity)
    ));
}

#[test]
fn algorithm_names() {
    assert!(matches!(
        DitherAlgorithm::from_name("Threshold"),
        Some(DitherAlgorithm::Threshold)
    ));
    assert!(matches!(
        DitherAlgorithm::from_name("Ordered"),
        Some(DitherAlgorithm::Ordered)
    ));
    assert!(matches!(
        DitherAlgorithm::from_name("Pinwheel"),
        Some(DitherAlgorithm::Pinwheel)
    ));
    assert!(DitherAlgorithm::from_name("threshold").is_none());
    assert!(DitherAlgorithm::from_name("").is_none());
    assert!(DitherAlgorithm::from_name("Bayer").is_none());
}
