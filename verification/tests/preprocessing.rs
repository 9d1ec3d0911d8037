use rust_paddle_ocr::preprocess::{planar_rgb, prepare_rec_input, rec_input_size, RgbaPixels};

#[test]
fn short_crops_keep_their_size() {
    assert_eq!(rec_input_size(100, 48), (100, 48));
    assert_eq!(rec_input_size(7, 1), (7, 1));
}

#[test]
fn tall_crops_scale_to_input_height() {
    assert_eq!(rec_input_size(100, 96), (50, 48));
    assert_eq!(rec_input_size(100, 49), (97, 48));
    assert_eq!(rec_input_size(1, 100), (0, 48));
}

#[test]
fn planes_drop_alpha_and_separate_channels() {
    // 2 x 1 image: pixel 0 = (1,2,3,4), pixel 1 = (5,6,7,8)
    let input = planar_rgb(2, 1, &vec![1, 2, 3, 4, 5, 6, 7, 8]);
    assert_eq!((input.width, input.height), (2, 1));
    assert_eq!(input.planes, vec![1, 5, 2, 6, 3, 7]);
}

#[test]
fn short_crop_is_laid_out_unchanged() {
    let img = RgbaPixels { width: 1, height: 2, data: vec![10, 20, 30, 255, 40, 50, 60, 255] };
    let input = prepare_rec_input(&img);
    assert_eq!((input.width, input.height), (1, 2));
    assert_eq!(input.planes, vec![10, 40, 20, 50, 30, 60]);
}

#[test]
fn tall_crop_is_resampled_to_input_height() {
    let (w, h) = (4u32, 96u32);
    let data: Vec<u8> = (0..w * h).flat_map(|_| [200u8, 100, 50, 255]).collect();
    let input = prepare_rec_input(&RgbaPixels { width: w, height: h, data });
    assert_eq!((input.width, input.height), (2, 48));
    assert_eq!(input.planes.len(), 3 * 2 * 48);
    // a uniform image stays uniform under resampling
    assert!(input.planes[..96].iter().all(|&v| v == 200));
    assert!(input.planes[96..192].iter().all(|&v| v == 100));
    assert!(input.planes[192..].iter().all(|&v| v == 50));
}

#[test]
fn empty_crop() {
    let input = prepare_rec_input(&RgbaPixels { width: 0, height: 10, data: vec![] });
    assert_eq!((input.width, input.height), (0, 10));
    assert!(input.planes.is_empty());
}
