use diorama::{upscale_framebuffer, Framebuffer};

#[test]
fn new_framebuffer_is_black() {
    let fb = Framebuffer::new(3, 2);
    assert_eq!(fb.width, 3);
    assert_eq!(fb.height, 2);
    assert_eq!(fb.get_buffer(), &[0u32; 6][..]);
}

#[test]
fn nearest_doubles_each_pixel() {
    let low = vec![1u32, 2, 3, 4];
    let high = upscale_framebuffer(&low, 2, 2, 4, 4);
    assert_eq!(
        high,
        vec![1, 1, 2, 2, 1, 1, 2, 2, 3, 3, 4, 4, 3, 3, 4, 4]
    );
}

#[test]
fn nearest_same_size_is_identity() {
    let buf: Vec<u32> = (0..15u32).map(|i| i * 0x010101).collect();
    assert_eq!(upscale_framebuffer(&buf, 5, 3, 5, 3), buf);
}

#[test]
fn nearest_uneven_ratio() {
    let low = vec![10u32, 20, 30];
    assert_eq!(upscale_framebuffer(&low, 3, 1, 4, 1), vec![10, 10, 20, 30]);
}

#[test]
fn nearest_to_empty() {
    assert_eq!(upscale_framebuffer(&[], 0, 0, 0, 0), Vec::<u32>::new());
}

#[test]
fn bilinear_uniform_stays_uniform() {
    let mut fb = Framebuffer::new(3, 2);
    for p in fb.buffer.iter_mut() {
        *p = 0x123456;
    }
    let big = fb.upscale_bilineal(7, 5);
    assert_eq!(big.width, 7);
    assert_eq!(big.height, 5);
    assert!(big.get_buffer().iter().all(|&p| p == 0x123456));
}

#[test]
fn bilinear_blends_between_columns() {
    let mut fb = Framebuffer::new(2, 1);
    fb.buffer[0] = 0x000000;
    fb.buffer[1] = 0x0000FF;
    let big = fb.upscale_bilineal(4, 1);
    assert_eq!(big.get_buffer(), &[0x000000, 0x00007F, 0x0000FF, 0x0000FF][..]);
}

#[test]
fn bilinear_blends_each_channel() {
    let mut fb = Framebuffer::new(1, 2);
    fb.buffer[0] = 0x204060;
    fb.buffer[1] = 0x406080;
    let big = fb.upscale_bilineal(1, 4);
    assert_eq!(
        big.get_buffer(),
        &[0x204060, 0x305070, 0x406080, 0x406080][..]
    );
}
