use reveal_viewer::decode::{DecodedImage, Orientation};
use reveal_viewer::pixels::{apply_orientation, magnify_nearest, magnify_nearest_crop, swap_red_blue};
use reveal_viewer::render::{fit_factor_to_budget, Resample};

fn image_2x1() -> DecodedImage {
    DecodedImage { rgba: vec![1, 1, 1, 1, 2, 2, 2, 2], width: 2, height: 1 }
}

#[test]
fn rotation_swaps_dimensions_and_moves_pixels() {
    let r = apply_orientation(&image_2x1(), Orientation::Rotate90);
    assert_eq!((r.width, r.height), (1, 2));
    assert_eq!(r.rgba, vec![1, 1, 1, 1, 2, 2, 2, 2]);
    let r = apply_orientation(&image_2x1(), Orientation::Rotate270);
    assert_eq!(r.rgba, vec![2, 2, 2, 2, 1, 1, 1, 1]);
    let r = apply_orientation(&image_2x1(), Orientation::FlipH);
    assert_eq!((r.width, r.height), (2, 1));
    assert_eq!(r.rgba, vec![2, 2, 2, 2, 1, 1, 1, 1]);
    let r = apply_orientation(&image_2x1(), Orientation::Normal);
    assert_eq!(r.rgba, image_2x1().rgba);
}

#[test]
fn magnifying_repeats_pixels() {
    let r = magnify_nearest(&image_2x1(), 2);
    assert_eq!((r.width, r.height), (4, 2));
    assert_eq!(r.rgba.len(), 32);
    assert_eq!(&r.rgba[0..16], &[1, 1, 1, 1, 1, 1, 1, 1, 2, 2, 2, 2, 2, 2, 2, 2]);
    let crop = magnify_nearest_crop(&image_2x1(), (1, 0, 5, 5), 1);
    assert_eq!((crop.width, crop.height), (1, 1));
    assert_eq!(crop.rgba, vec![2, 2, 2, 2]);
    let empty = magnify_nearest_crop(&image_2x1(), (2, 0, 1, 1), 3);
    assert_eq!((empty.width, empty.height, empty.rgba.len()), (0, 0, 0));
}

#[test]
fn red_and_blue_trade_places() {
    let mut b = vec![1, 2, 3, 4, 5, 6, 7, 8, 9];
    swap_red_blue(&mut b);
    assert_eq!(b, vec![3, 2, 1, 4, 7, 6, 5, 8, 9]);
}

#[test]
fn magnification_shrinks_to_fit_the_budget() {
    assert_eq!(fit_factor_to_budget((0, 0, 0, 10), 8), 1);
    assert_eq!(fit_factor_to_budget((0, 0, 100, 100), 8), 8);
    assert_eq!(fit_factor_to_budget((0, 0, 2048, 2048), 8), 2);
    assert_eq!(fit_factor_to_budget((0, 0, 100, 100), 0), 1);
    assert_eq!(Resample::from_antialias(true), Resample::Filtered);
    assert_eq!(Resample::from_antialias(false), Resample::Nearest);
}

#[test]
fn turning_back_undoes_a_turn() {
    let image = DecodedImage { rgba: vec![1, 1, 1, 1, 2, 2, 2, 2], width: 2, height: 1 };
    let turned = apply_orientation(&image, Orientation::Rotate90);
    assert_eq!((turned.width, turned.height), (1, 2));
    assert_eq!(turned.rgba, image.rgba);
    let back = apply_orientation(&turned, Orientation::Rotate270);
    assert_eq!((back.width, back.height, back.rgba.clone()), (2, 1, image.rgba.clone()));
    let flipped = apply_orientation(&apply_orientation(&image, Orientation::Transverse), Orientation::Transverse);
    assert_eq!(flipped.rgba, image.rgba);
}
