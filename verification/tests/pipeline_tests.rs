use el320x240_36hb_sender::algorithm::DitherAlgorithm;
use el320x240_36hb_sender::config::DitherConfig;
use el320x240_36hb_sender::frame::pack_frame_threshold;
use el320x240_36hb_sender::matrix::DitheringMatrix;
use el320x240_36hb_sender::pipeline::FramePipeline;
use el320x240_36hb_sender::plan::PlanError;
use el320x240_36hb_sender::queue::FrameQueue;

fn small_config() -> DitherConfig {
    DitherConfig::new(8, 2, 0, 255).unwrap()
}

#[test]
fn pinwheel_is_rejected_at_startup() {
    let cfg = small_config();
    let r = FramePipeline::new(cfg, DitherAlgorithm::Pinwheel, DitheringMatrix::bayer4());
    assert!(matches!(r, Err(PlanError::UnimplementedAlgorithm)));
}

#[test]
fn double_buffer_one_tick_latency() {
    // Across 1000 simulated ticks the bitmap read back at tick N+1 is
    // exactly the bitmap computed at tick N: the write index and the read
    // index of a tick never coincide, and the rotation delays every frame
    // by one tick.
    let cfg = small_config();
    let mut pipeline =
        FramePipeline::new(cfg, DitherAlgorithm::Threshold, DitheringMatrix::bayer4()).unwrap();
    let mut expected_next: Vec<u8> = vec![0u8, 0]; // zeroed display buffers
    for tick in 0..1000u32 {
        let value = (tick % 251) as u8;
        let frame = vec![value; 16];
        let published = pipeline.tick(Some(&frame));
        assert_eq!(published, expected_next);
        expected_next = pack_frame_threshold(&frame, &cfg);
    }
}

#[test]
fn stale_frame_reused_on_capture_failure() {
    let cfg = small_config();
    let mut pipeline =
        FramePipeline::new(cfg, DitherAlgorithm::Threshold, DitheringMatrix::bayer4()).unwrap();
    let bright = vec![255u8; 16];
    pipeline.tick(Some(&bright));
    // No frame this tick: the previous upload is dithered again, and one
    // tick later its bitmap comes out.
    pipeline.tick(None);
    let published = pipeline.tick(None);
    assert_eq!(published, pack_frame_threshold(&bright, &cfg));
    // A frame of the wrong size is ignored the same way.
    let wrong = vec![0u8; 5];
    pipeline.tick(Some(&wrong));
    let published = pipeline.tick(None);
    assert_eq!(published, pack_frame_threshold(&bright, &cfg));
}

#[test]
fn tick_and_publish_applies_queue_policy() {
    let cfg = small_config();
    let mut pipeline =
        FramePipeline::new(cfg, DitherAlgorithm::Threshold, DitheringMatrix::bayer4()).unwrap();
    let mut queue = FrameQueue::new(1);
    let frame = vec![255u8; 16];
    assert!(pipeline.tick_and_publish(Some(&frame), &mut queue));
    // The queue is full now: the next published bitmap is dropped.
    assert!(!pipeline.tick_and_publish(Some(&frame), &mut queue));
    // The first published bitmap is still the zeroed initial buffer.
    assert_eq!(queue.receive(), Some(vec![0u8, 0]));
    assert_eq!(queue.receive(), None);
    // With room again, publication succeeds.
    assert!(pipeline.tick_and_publish(Some(&frame), &mut queue));
    assert_eq!(queue.receive(), Some(pack_frame_threshold(&frame, &cfg)));
}
