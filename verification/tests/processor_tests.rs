use nier::ingest_config::ProcessingConfig;
use nier::processor::{FrameBuffer, FrameProcessor, ProcessorSettings};
use nier::rtsp::RawFrame;

fn create_test_config() -> ProcessingConfig {
    ProcessingConfig {
        target_width: 320,
        target_height: 240,
        target_fps_milli: 10_000,
        pixel_format: String::from("RGB"),
        queue_size: 10,
        num_workers: 1,
        drop_on_backpressure: true,
    }
}

fn create_test_frame(width: u32, height: u32) -> RawFrame {
    let size = (width * height * 3) as usize;
    RawFrame {
        data: vec![128u8; size],
        width,
        height,
        pts: Some(0),
        sequence: 0,
        captured_at_us: 0,
        format: String::from("RGB"),
    }
}

#[test]
fn test_processor_creation() {
    let config = create_test_config();
    let processor = FrameProcessor::new(config, String::from("test-device"));
    assert!(!processor.is_running());
}

#[test]
fn test_frame_resize() {
    let config = create_test_config();
    let mut processor = FrameProcessor::new(config, String::from("test-device"));
    let frame = create_test_frame(640, 480);
    let processed = processor.process_frame(frame, 5_000);
    assert_eq!(processed.width, 320);
    assert_eq!(processed.height, 240);
    assert_eq!(processed.data.len(), 320 * 240 * 3);
    assert_eq!(processed.pixel_format, "RGB24");
    // every sampled pixel keeps the source value
    assert!(processed.data.iter().all(|&b| b == 128));
}

#[test]
fn test_frame_buffer() {
    let mut buffer = FrameBuffer::new(3);
    assert!(buffer.is_empty());
    let config = create_test_config();
    let mut processor = FrameProcessor::new(config, String::from("test"));
    for i in 0..5 {
        let mut frame = create_test_frame(320, 240);
        frame.sequence = i;
        let processed = processor.process_frame(frame, 1_000 * (i + 1));
        buffer.push(processed);
    }
    assert_eq!(buffer.len(), 3);
    assert_eq!(buffer.latest().unwrap().sequence, 4);
}

#[test]
fn test_frames_in_window() {
    let mut buffer = FrameBuffer::new(10);
    let config = create_test_config();
    let mut processor = FrameProcessor::new(config, String::from("test"));
    for i in 0..5 {
        let frame = create_test_frame(320, 240);
        let processed = processor.process_frame(frame, 1_000 * (i + 1));
        buffer.push(processed);
    }
    // frames processed at 3000us or later: 3000, 4000, 5000
    assert_eq!(buffer.frames_in_window(3_000).len(), 3);
    buffer.clear();
    assert!(buffer.is_empty());
}

#[test]
fn test_stats_update() {
    let config = create_test_config();
    let mut processor = FrameProcessor::new(config, String::from("test-device"));
    let frame = create_test_frame(640, 480);
    let _ = processor.process_frame(frame, 250);
    let stats = processor.stats();
    assert_eq!(stats.frames_processed, 1);
    assert_eq!(stats.total_processing_time_us, 250);
    assert_eq!(stats.avg_processing_time_us, 250);
}

#[test]
fn test_settings_update() {
    let config = create_test_config();
    let mut processor = FrameProcessor::new(config, String::from("test-device"));
    let new_settings = ProcessorSettings {
        target_width: 160,
        target_height: 120,
        target_fps_milli: 5_000,
        drop_on_backpressure: false,
    };
    processor.update_settings(new_settings);
    assert_eq!(processor.settings.target_width, 160);
    assert_eq!(processor.settings.target_height, 120);
    assert_eq!(processor.settings.target_fps_milli, 5_000);
}

#[test]
fn test_rate_limiting() {
    // 10 fps: one frame admitted per 100ms window
    let config = create_test_config();
    let mut processor = FrameProcessor::new(config, String::from("test-device"));
    assert!(processor.should_process_frame(0));
    assert!(!processor.should_process_frame(50_000));
    assert!(!processor.should_process_frame(99_999));
    assert!(processor.should_process_frame(100_000));
    assert!(!processor.should_process_frame(150_000));
    assert!(processor.should_process_frame(250_000));
}

#[test]
fn test_rate_limit_burst_bound() {
    // a one-second burst at 10 fps admits exactly eleven of the dense arrivals
    let config = create_test_config();
    let mut processor = FrameProcessor::new(config, String::from("test-device"));
    let mut accepted = 0;
    let mut t = 0u64;
    while t <= 1_000_000 {
        if processor.should_process_frame(t) {
            accepted += 1;
        }
        t += 1_000;
    }
    assert_eq!(accepted, 11);
}

#[test]
fn test_frame_id_shape() {
    let config = create_test_config();
    let mut processor = FrameProcessor::new(config, String::from("cam-7"));
    let mut frame = create_test_frame(320, 240);
    frame.sequence = 42;
    frame.captured_at_us = 1_000;
    let processed = processor.process_frame(frame, 2_000);
    assert_eq!(processed.frame_id, "cam-7-42-1000000");
}
