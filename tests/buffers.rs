use deft_video::sample_buffer::{frame_sample_count, SampleBuffer};

#[test]
fn new_buffer_is_empty() {
    let b = SampleBuffer::new(8);
    assert_eq!(b.len(), 0);
    assert_eq!(b.free_len(), 8);
}

#[test]
fn push_that_fits_is_accepted() {
    let mut b = SampleBuffer::new(8);
    assert!(b.try_push(&[1, 2, 3]));
    assert_eq!(b.len(), 3);
    assert_eq!(b.free_len(), 5);
    assert!(b.try_push(&[4, 5, 6, 7, 8]));
    assert_eq!(b.free_len(), 0);
}

#[test]
fn push_beyond_free_space_is_refused_whole() {
    let mut b = SampleBuffer::new(4);
    assert!(b.try_push(&[1, 2, 3]));
    assert!(!b.try_push(&[4, 5]));
    assert_eq!(b.len(), 3);
    let mut out = vec![0u32; 3];
    assert_eq!(b.fill(&mut out, 0), 3);
    assert_eq!(out, vec![1, 2, 3]);
}

#[test]
fn empty_push_always_fits() {
    let mut b = SampleBuffer::new(1);
    assert!(b.try_push(&[9]));
    assert!(b.try_push(&[]));
    assert_eq!(b.len(), 1);
}

#[test]
fn fill_from_full_queue() {
    let mut b = SampleBuffer::new(8);
    b.try_push(&[1, 2, 3, 4, 5]);
    let mut out = vec![77u32; 3];
    assert_eq!(b.fill(&mut out, 0), 3);
    assert_eq!(out, vec![1, 2, 3]);
    assert_eq!(b.len(), 2);
}

#[test]
fn underrun_fills_exact_shortfall_with_silence() {
    let mut b = SampleBuffer::new(8);
    b.try_push(&[10, 20]);
    let mut out = vec![5u32; 5];
    assert_eq!(b.fill(&mut out, 0), 2);
    assert_eq!(out, vec![10, 20, 0, 0, 0]);
    assert_eq!(b.len(), 0);
    let mut again = vec![5u32; 2];
    assert_eq!(b.fill(&mut again, 0x8000), 0);
    assert_eq!(again, vec![0x8000, 0x8000]);
}

#[test]
fn fill_keeps_order_across_wrap() {
    let mut b = SampleBuffer::new(4);
    b.try_push(&[1, 2, 3]);
    let mut out = vec![0u32; 2];
    b.fill(&mut out, 0);
    assert!(b.try_push(&[4, 5, 6]));
    let mut out = vec![0u32; 4];
    assert_eq!(b.fill(&mut out, 0), 4);
    assert_eq!(out, vec![3, 4, 5, 6]);
}

#[test]
fn fill_empty_request() {
    let mut b = SampleBuffer::new(2);
    b.try_push(&[1]);
    let mut out: Vec<u32> = Vec::new();
    assert_eq!(b.fill(&mut out, 0), 0);
    assert_eq!(b.len(), 1);
}

#[test]
fn frame_sample_counts() {
    assert_eq!(frame_sample_count(1024, 2, 4096), Some(2048));
    assert_eq!(frame_sample_count(1024, 2, 2048), Some(2048));
    assert_eq!(frame_sample_count(1024, 2, 2047), None);
    assert_eq!(frame_sample_count(5, 0, 0), Some(0));
    assert_eq!(frame_sample_count(usize::MAX, 2, usize::MAX), None);
}
