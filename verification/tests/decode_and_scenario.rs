use std::io::Cursor;

use image::ImageFormat;

use pictowebp::batch::{BatchConfig, chunk_size, make_job, partition};
use pictowebp::codec::decode_image;
use pictowebp::outcome::{FailureCause, Outcome, TranscodeError};
use pictowebp::paths::derive_output_root;
use pictowebp::progress::ProgressTracker;
use pictowebp::report::{ErrorLog, finish_run, record_chunk};

fn png_bytes(width: u32, height: u32) -> Vec<u8> {
    let mut img = image::RgbaImage::new(width, height);
    img.put_pixel(0, 0, image::Rgba([255, 0, 0, 255]));
    let mut buf: Vec<u8> = Vec::new();
    img.write_to(&mut Cursor::new(&mut buf), ImageFormat::Png).unwrap();
    buf
}

#[test]
fn decodes_a_valid_png_into_rgba_pixels() {
    let data = png_bytes(3, 2);
    let decoded = decode_image(&data).unwrap();
    assert_eq!(decoded.width, 3);
    assert_eq!(decoded.height, 2);
    assert_eq!(decoded.pixels.len(), 4 * 3 * 2);
    assert_eq!(&decoded.pixels[0..4], &[255, 0, 0, 255]);
    assert_ne!(decoded.pixels, data);
}

#[test]
fn empty_bytes_fail_with_the_format_cause() {
    assert_eq!(decode_image(&Vec::new()).unwrap_err(), TranscodeError::DecodeFailed);
}

#[test]
fn garbage_bytes_fail_with_the_format_cause() {
    assert_eq!(
        decode_image(&b"not an image at all".to_vec()).unwrap_err(),
        TranscodeError::DecodeFailed
    );
}

#[test]
fn mixed_batch_scenario_reports_the_one_failure() {
    // A source root holding a/1.png (a valid 10x10 image) and a/2.jpg (a
    // zero-byte corrupt file), quality 80, two workers.
    let root = b"root".to_vec();
    let ext = b"WebP".to_vec();
    let out_root = derive_output_root(&root, &ext).unwrap();
    assert_eq!(out_root, b"root_webp".to_vec());

    let files: Vec<Vec<u8>> = vec![b"root/a/1.png".to_vec(), b"root/a/2.jpg".to_vec()];
    let contents: Vec<Vec<u8>> = vec![png_bytes(10, 10), Vec::new()];

    let config = BatchConfig::new(80, 2, 32).unwrap();
    let size = chunk_size(files.len(), config.worker_count, config.tuning);
    let chunks = partition(files.len(), size);

    let mut tracker = ProgressTracker::new(files.len());
    let mut log = ErrorLog::new();
    let mut dests: Vec<Vec<u8>> = Vec::new();
    for c in &chunks {
        let mut outcomes: Vec<Outcome> = Vec::new();
        for j in c.start..c.end {
            let job = make_job(&files[j], &root, &out_root, &ext, config.quality).unwrap();
            dests.push(job.dest.clone());
            // The encode and the writes happen outside the library; here the
            // decode alone decides the outcome.
            match decode_image(&contents[j]) {
                Ok(img) => outcomes.push(Outcome::Success {
                    original_size: contents[j].len() as u64,
                    encoded_size: img.pixels.len() as u64,
                }),
                Err(e) => outcomes.push(Outcome::Failure {
                    path: files[j].clone(),
                    cause: FailureCause::Transcode(e),
                }),
            }
        }
        record_chunk(&outcomes, &mut tracker, &mut log);
    }

    assert!(tracker.is_complete());
    let summary = finish_run(&tracker, log, 5);
    assert_eq!(summary.total_jobs, 2);
    assert_eq!(summary.succeeded, 1);
    assert_eq!(summary.failed, 1);
    assert_eq!(summary.failures.len(), 1);
    assert_eq!(summary.failures[0].path, b"root/a/2.jpg".to_vec());
    assert_eq!(
        summary.failures[0].cause,
        FailureCause::Transcode(TranscodeError::DecodeFailed)
    );
    assert_eq!(summary.elapsed_ms, 5);
    assert_eq!(
        dests,
        vec![b"root_webp/a/1.webp".to_vec(), b"root_webp/a/2.webp".to_vec()]
    );
}
