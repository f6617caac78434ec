use dsh_pet::pixels::{blit_frame, scale_bgra, AlphaMask};

fn mask_from(w: i32, h: i32, alpha: &[u8]) -> AlphaMask {
    let mut m = AlphaMask::new();
    m.resize(w, h);
    let mut bits = Vec::new();
    for a in alpha {
        bits.extend_from_slice(&[0, 0, 0, *a]);
    }
    m.capture_alpha(&bits);
    m
}

#[test]
fn new_mask_is_one_transparent_pixel() {
    let m = AlphaMask::new();
    assert_eq!((m.width(), m.height()), (1, 1));
    assert!(!m.hit_test_alpha(0, 0));
    assert!(m.hits().is_empty());
}

#[test]
fn hit_test_uses_alpha_threshold_and_bounds() {
    let m = mask_from(3, 2, &[0, 127, 128, 255, 10, 200]);
    assert!(!m.hit_test_alpha(0, 0));
    assert!(!m.hit_test_alpha(1, 0));
    assert!(m.hit_test_alpha(2, 0));
    assert!(m.hit_test_alpha(0, 1));
    assert!(!m.hit_test_alpha(1, 1));
    assert!(m.hit_test_alpha(2, 1));
    assert!(!m.hit_test_alpha(-1, 0));
    assert!(!m.hit_test_alpha(3, 0));
    assert!(!m.hit_test_alpha(0, 2));
}

#[test]
fn hit_region_is_row_runs_and_cached() {
    let mut m = mask_from(4, 2, &[200, 200, 0, 255, 0, 0, 0, 0]);
    assert!(m.update_hit_region());
    assert_eq!(m.hits(), &vec![(0, 0, 2, 1), (3, 0, 4, 1)]);
    // same mask: nothing to rebuild
    assert!(!m.update_hit_region());
    // fully transparent frame: cache emptied, region kept
    let mut bits = vec![0u8; 4 * 2 * 4];
    m.capture_alpha(&bits);
    assert!(!m.update_hit_region());
    assert!(m.hits().is_empty());
    bits[4 * 4 + 3] = 130;
    bits[7 * 4 + 3] = 130;
    m.capture_alpha(&bits);
    assert!(m.update_hit_region());
    assert_eq!(m.hits(), &vec![(0, 1, 1, 2), (3, 1, 4, 2)]);
}

#[test]
fn resize_clears_mask_and_cache() {
    let mut m = mask_from(2, 1, &[255, 255]);
    assert!(m.update_hit_region());
    m.resize(3, 3);
    assert_eq!((m.width(), m.height()), (3, 3));
    assert!(m.hits().is_empty());
    assert!(!m.hit_test_alpha(0, 0));
}

#[test]
fn scale_doubles_and_mirrors() {
    // 2x1 source: pixel A then pixel B
    let src = [1, 2, 3, 4, 5, 6, 7, 8];
    let mut dst = vec![9u8; 4 * 4 + 4];
    scale_bgra(&src, 2, 1, &mut dst, 4, 1, 16, false);
    assert_eq!(&dst[..16], &[1, 2, 3, 4, 1, 2, 3, 4, 5, 6, 7, 8, 5, 6, 7, 8]);
    assert_eq!(&dst[16..], &[9, 9, 9, 9]);
    let mut dst = vec![0u8; 16];
    scale_bgra(&src, 2, 1, &mut dst, 4, 1, 16, true);
    assert_eq!(&dst[..], &[5, 6, 7, 8, 5, 6, 7, 8, 1, 2, 3, 4, 1, 2, 3, 4]);
}

#[test]
fn scale_keeps_padding_between_rows() {
    // 1x2 source scaled to 1x2 with a stride of 8: bytes 4..8 of each row stay
    let src = [1, 1, 1, 1, 2, 2, 2, 2];
    let mut dst = vec![7u8; 16];
    scale_bgra(&src, 1, 2, &mut dst, 1, 2, 8, false);
    assert_eq!(dst, vec![1, 1, 1, 1, 7, 7, 7, 7, 2, 2, 2, 2, 7, 7, 7, 7]);
}

#[test]
fn scale_down_samples_nearest() {
    // 4x1 -> 2x1 takes columns 0 and 2
    let src = [0, 0, 0, 10, 0, 0, 0, 11, 0, 0, 0, 12, 0, 0, 0, 13];
    let mut dst = vec![0u8; 8];
    scale_bgra(&src, 4, 1, &mut dst, 2, 1, 8, false);
    assert_eq!(dst, vec![0, 0, 0, 10, 0, 0, 0, 12]);
}

#[test]
fn blit_draws_frame_below_padding_and_clears_the_rest() {
    let frame = [1u8, 1, 1, 1, 2, 2, 2, 2];
    let mut buf = vec![9u8; 4 * 4 + 2];
    blit_frame(&mut buf, &frame, 1, 2, 1);
    assert_eq!(buf, vec![0, 0, 0, 0, 1, 1, 1, 1, 2, 2, 2, 2, 0, 0, 0, 0, 0, 0]);
    let mut buf = vec![9u8; 8];
    blit_frame(&mut buf, &frame, 1, 2, 1);
    assert_eq!(buf, vec![0, 0, 0, 0, 1, 1, 1, 1]);
    let mut buf = vec![9u8; 8];
    blit_frame(&mut buf, &frame, 1, 2, 5);
    assert_eq!(buf, vec![0; 8]);
}
