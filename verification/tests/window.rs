use triforce::buffer::{append_prefix, copy_range, resize_buffer};
use triforce::window::{CovarianceWindow, CHANNELS};

fn block(start: i32, len: usize) -> Vec<i32> {
    (0..len as i32).map(|k| start + k).collect()
}

fn blocks(start: i32, len: usize) -> (Vec<Vec<i32>>, Vec<Vec<i32>>) {
    let re = (0..CHANNELS).map(|c| block(start + 100 * c as i32, len)).collect();
    let im = (0..CHANNELS).map(|c| block(-start - 100 * c as i32, len)).collect();
    (re, im)
}

#[test]
fn new_window_is_overdue_and_empty() {
    let mut w: CovarianceWindow<i32> = CovarianceWindow::new();
    assert_eq!(w.samples_since_last_update(), usize::MAX);
    let (re, im) = blocks(0, 6);
    let u = w.push_block(true, &re, &im, 6).unwrap();
    // nothing carried over: the first third of the block alone
    assert_eq!(u.real[0], vec![0, 1]);
    assert_eq!(u.real[2], vec![200, 201]);
    assert_eq!(u.imag[1], vec![-100, -99]);
    assert_eq!(w.samples_since_last_update(), 0);
}

#[test]
fn skipped_blocks_only_count_samples() {
    let mut w: CovarianceWindow<i32> = CovarianceWindow::new();
    let (re, im) = blocks(0, 9);
    assert!(w.push_block(true, &re, &im, 9).is_some());
    let (re2, im2) = blocks(1000, 9);
    assert!(w.push_block(false, &re2, &im2, 9).is_none());
    assert_eq!(w.samples_since_last_update(), 9);
    assert!(w.push_block(false, &re2, &im2, 4).is_none());
    assert_eq!(w.samples_since_last_update(), 13);
    // the skipped blocks never reach the estimate
    let (re3, im3) = blocks(2000, 9);
    let u = w.push_block(true, &re3, &im3, 9).unwrap();
    assert_eq!(u.real[0], vec![3, 4, 5, 6, 7, 8, 2000, 2001, 2002]);
    assert_eq!(u.imag[2], vec![-197, -196, -195, -194, -193, -192, -2200, -2199, -2198]);
    assert_eq!(w.samples_since_last_update(), 0);
}

#[test]
fn consecutive_updates_span_one_block_length() {
    let mut w: CovarianceWindow<i32> = CovarianceWindow::new();
    let (re, im) = blocks(10, 12);
    w.push_block(true, &re, &im, 12);
    let (re2, im2) = blocks(50, 12);
    let u = w.push_block(true, &re2, &im2, 12).unwrap();
    for c in 0..CHANNELS {
        assert_eq!(u.real[c].len(), 12);
        assert_eq!(u.imag[c].len(), 12);
    }
    let expected: Vec<i32> = (14..22).chain(50..54).collect();
    assert_eq!(u.real[0], expected);
}

#[test]
fn update_partitions_block() {
    // window handed out followed by the carried window is the old window followed by the block
    let mut w: CovarianceWindow<i32> = CovarianceWindow::new();
    let (re, im) = blocks(0, 7);
    let first = w.push_block(true, &re, &im, 7).unwrap();
    let (re2, im2) = blocks(70, 7);
    let second = w.push_block(true, &re2, &im2, 7).unwrap();
    let mut joined = first.real[1].clone();
    joined.extend_from_slice(&second.real[1][..second.real[1].len() - 7 / 3]);
    assert_eq!(joined, re[1]);
}

#[test]
fn block_longer_than_buf_len_is_cut_at_buf_len() {
    let mut w: CovarianceWindow<i32> = CovarianceWindow::new();
    let (re, im) = blocks(0, 10);
    w.push_block(true, &re, &im, 5);
    let (re2, im2) = blocks(100, 10);
    let u = w.push_block(true, &re2, &im2, 5).unwrap();
    assert_eq!(u.real[0], vec![1, 2, 3, 4, 100]);
}

#[test]
fn empty_block_renews_with_carried_window() {
    let mut w: CovarianceWindow<i32> = CovarianceWindow::new();
    let (re, im) = blocks(0, 3);
    w.push_block(true, &re, &im, 3);
    let u = w.push_block(true, &re, &im, 0).unwrap();
    assert_eq!(u.real[0], vec![1, 2]);
    let u = w.push_block(true, &re, &im, 0).unwrap();
    assert!(u.real[0].is_empty());
}

#[test]
fn works_on_analytic_samples() {
    let mut w: CovarianceWindow<f32> = CovarianceWindow::new();
    let re: Vec<Vec<f32>> = vec![vec![0.5, -0.25, 1.0]; 3];
    let im: Vec<Vec<f32>> = vec![vec![0.0, 0.75, -1.5]; 3];
    let u = w.push_block(true, &re, &im, 3).unwrap();
    assert_eq!(u.real[0], vec![0.5]);
    assert_eq!(u.imag[2], vec![0.0]);
    let u = w.push_block(true, &re, &im, 3).unwrap();
    assert_eq!(u.real[1], vec![-0.25, 1.0, 0.5]);
}

#[test]
fn resize_pads_with_fill() {
    let mut v = vec![1, 2, 3];
    resize_buffer(&mut v, 5, 0);
    assert_eq!(v, vec![1, 2, 3, 0, 0]);
}

#[test]
fn resize_truncates() {
    let mut v = vec![1, 2, 3];
    resize_buffer(&mut v, 1, 0);
    assert_eq!(v, vec![1]);
    resize_buffer(&mut v, 1, 9);
    assert_eq!(v, vec![1]);
    resize_buffer(&mut v, 0, 9);
    assert!(v.is_empty());
}

#[test]
fn copy_and_append_ranges() {
    let src = [5, 6, 7, 8];
    assert_eq!(copy_range(&src, 1, 3), vec![6, 7]);
    assert!(copy_range(&src, 2, 2).is_empty());
    let mut dst = vec![1];
    append_prefix(&mut dst, &src, 2);
    assert_eq!(dst, vec![1, 5, 6]);
}
