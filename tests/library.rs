use spectrogram::canvas::{Line, LineData, Pixel};
use spectrogram::error::Error;
use spectrogram::ring::Ring;
use spectrogram::spectrum::{build_frame, render, Accumulator, Layout};

fn window<T: Copy>(r: &Ring<T>) -> Vec<T> {
    r.window().to_vec()
}

#[test]
fn ring_starts_filled() {
    let r = Ring::new(3, 7u32);
    assert_eq!(r.len(), 3);
    assert_eq!(window(&r), vec![7, 7, 7]);
}

#[test]
fn ring_keeps_latest_in_order() {
    let mut r = Ring::new(3, 0i64);
    for v in 1..=10 {
        r.enqueue(v);
        let lo = if v >= 3 { v - 2 } else { 1 };
        let mut expected: Vec<i64> = Vec::new();
        for _ in 0..(3 - (v - lo + 1)) {
            expected.push(0);
        }
        for k in lo..=v {
            expected.push(k);
        }
        assert_eq!(window(&r), expected);
    }
}

#[test]
fn ring_window_after_many_enqueues() {
    let mut r = Ring::new(4, 0u8);
    for v in [9u8, 8, 7, 6, 5, 4, 3] {
        r.enqueue(v);
    }
    assert_eq!(window(&r), vec![6, 5, 4, 3]);
    assert_eq!(r.get(0), 6);
    assert_eq!(r.get(3), 3);
    let as_slice: &[u8] = &r;
    assert_eq!(as_slice, &[6, 5, 4, 3]);
}

#[test]
fn ring_of_one() {
    let mut r = Ring::new(1, 0u16);
    r.enqueue(5);
    assert_eq!(window(&r), vec![5]);
    r.enqueue(6);
    assert_eq!(window(&r), vec![6]);
}

#[test]
fn ring_pairs_through_wrap() {
    let mut r = Ring::new(2, 0i32);
    let mut seen: Vec<Vec<i32>> = Vec::new();
    for v in 1..=5 {
        r.enqueue(v);
        seen.push(window(&r));
    }
    assert_eq!(
        seen,
        vec![vec![0, 1], vec![1, 2], vec![2, 3], vec![3, 4], vec![4, 5]]
    );
}

#[test]
fn layout_of_order_nine() {
    let l = Layout::from_order(9).unwrap();
    assert_eq!(l.queue_size, 512);
    assert_eq!(l.buffer_size, 256);
    assert_eq!(l.bins, 127);
}

#[test]
fn layout_of_smallest_order() {
    let l = Layout::from_order(2).unwrap();
    assert_eq!(l.queue_size, 4);
    assert_eq!(l.buffer_size, 2);
    assert_eq!(l.bins, 0);
}

#[test]
fn layout_rejects_small_orders() {
    assert_eq!(Layout::from_order(0), Err(Error()));
    assert_eq!(Layout::from_order(1), Err(Error()));
}

#[test]
fn layout_rejects_orders_too_large() {
    let bits = usize::BITS;
    assert_eq!(Layout::from_order(bits), Err(Error()));
    assert_eq!(Layout::from_order(bits - 1), Err(Error()));
    assert_eq!(Layout::from_order(u32::MAX), Err(Error()));
    let l = Layout::from_order(bits - 2).unwrap();
    assert_eq!(l.queue_size, 1usize << (bits - 2));
}

#[test]
fn accumulator_counts_ticks_and_sums() {
    let mut acc = Accumulator::new(3, 0u32);
    assert_eq!(acc.len(), 3);
    assert_eq!(acc.ticks(), 0);
    acc.tick(&[100u32, 1, 2, 3], |s: u32, bin: u32| s + bin);
    assert_eq!(acc.ticks(), 1);
    acc.tick(&[100u32, 0, 10, 20, 30, 40, 50, 60], |s: u32, bin: u32| s + bin);
    assert_eq!(acc.ticks(), 2);
    assert_eq!((acc.get(0), acc.get(1), acc.get(2)), (1, 12, 23));
    acc.clear();
    assert_eq!(acc.ticks(), 0);
    assert_eq!((acc.get(0), acc.get(1), acc.get(2)), (0, 0, 0));
}

#[test]
fn accumulator_of_floats() {
    let mut acc = Accumulator::new(2, 0.0f32);
    acc.tick(&[7.0f32, -1.0, 2.0, 9.0], |s: f32, bin: f32| s + 0.5 * bin.abs());
    assert_eq!(acc.get(0), 0.5);
    assert_eq!(acc.get(1), 1.0);
    assert!(acc.get(0) >= 0.0 && acc.get(1) >= 0.0);
}

#[test]
fn line_data_iter_mut_makes_pixels_opaque() {
    let mut row = LineData::new(vec![1, 2, 3, 4, 5, 6, 7, 8, 9, 10]);
    assert_eq!(row.len(), 2);
    let pixels = row.iter_mut();
    assert_eq!(
        pixels,
        vec![
            Pixel { x: 0, r: 1, g: 2, b: 3 },
            Pixel { x: 1, r: 5, g: 6, b: 7 },
        ]
    );
    assert_eq!(row.as_bytes(), &[1, 2, 3, 255, 5, 6, 7, 255, 9, 10]);
}

#[test]
fn line_data_set_gray() {
    let mut row = LineData::new(vec![0; 8]);
    row.set_gray(1, 42);
    assert_eq!(row.into_bytes(), vec![0, 0, 0, 0, 42, 42, 42, 0]);
}

#[test]
fn render_without_ticks_leaves_row_unchanged() {
    let bytes: Vec<u8> = (0..12).map(|b| b as u8 * 3).collect();
    let mut line = Line { len: 3, data: LineData::new(bytes.clone()) };
    let mut acc = Accumulator::new(4, 0u32);
    render(&mut acc, &mut line.data, |_: &Accumulator<u32>, _: usize| 0u8);
    assert_eq!(line.data.as_bytes(), bytes.as_slice());
    assert_eq!(acc.ticks(), 0);
}

#[test]
fn render_paints_and_resets() {
    let mut line = Line { len: 3, data: LineData::new(vec![9; 12]) };
    let mut acc = Accumulator::new(3, 0u32);
    let spectrum = [5u32, 0, 10, 20, 99, 99];
    acc.tick(&spectrum, |s: u32, bin: u32| s + bin);
    acc.tick(&spectrum, |s: u32, bin: u32| s + bin);
    render(&mut acc, &mut line.data, |a: &Accumulator<u32>, x: usize| {
        (a.get(x) / a.ticks() as u32) as u8
    });
    assert_eq!(
        line.data.as_bytes(),
        &[0, 0, 0, 255, 10, 10, 10, 255, 20, 20, 20, 255]
    );
    assert_eq!(acc.ticks(), 0);
    assert_eq!((acc.get(0), acc.get(1), acc.get(2)), (0, 0, 0));
    assert_eq!(line.len, 3);
}

#[test]
fn render_then_render_again_does_nothing() {
    let mut data = LineData::new(vec![1; 8]);
    let mut acc = Accumulator::new(1, 0u8);
    acc.tick(&[0u8, 1], |s: u8, bin: u8| s + bin);
    render(&mut acc, &mut data, |_: &Accumulator<u8>, _: usize| 100u8);
    let once = data.as_bytes().to_vec();
    assert_eq!(once, vec![100, 100, 100, 255, 100, 100, 100, 255]);
    render(&mut acc, &mut data, |_: &Accumulator<u8>, _: usize| 7u8);
    assert_eq!(data.as_bytes(), once.as_slice());
}

#[test]
fn build_frame_averages_pairs() {
    let mut r = Ring::new(8, 0i32);
    for v in [2, 4, 6, 8, 10, 12, 14, 16] {
        r.enqueue(v);
    }
    let mut frame = vec![0i32; 4];
    build_frame(&r, &mut frame, |a: i32, b: i32| (a + b) / 2);
    assert_eq!(frame, vec![3, 7, 11, 15]);
    r.enqueue(18);
    r.enqueue(20);
    build_frame(&r, &mut frame, |a: i32, b: i32| (a + b) / 2);
    assert_eq!(frame, vec![7, 11, 15, 19]);
}

#[test]
fn build_frame_leaves_unpaired_values() {
    let mut r = Ring::new(3, 1u32);
    r.enqueue(5);
    let mut frame = vec![9u32; 3];
    build_frame(&r, &mut frame, |a: u32, b: u32| a * 10 + b);
    assert_eq!(frame, vec![11, 9, 9]);
}

#[test]
fn accumulator_skips_constant_bin() {
    let mut acc = Accumulator::new(2, 0i32);
    acc.tick(&[1000, 1, 2, 3], |s: i32, bin: i32| s + bin);
    assert_eq!((acc.get(0), acc.get(1)), (1, 2));
}
