use pathtracer::camera::{Camera, CameraError};
use pathtracer::fixed::ONE;

fn fixed(value: f64) -> u64 {
    (value * ONE as f64).round() as u64
}

/// A 24 mm sensor behind a 40 mm lens at f/1.4, focused at fifteen metres.
fn standard() -> Camera {
    Camera::new(fixed(0.024), fixed(0.040), fixed(15.0), fixed(1.4), 0, 0).unwrap()
}

#[test]
fn a_camera_keeps_its_configuration() {
    let camera = Camera::new(fixed(0.024), fixed(0.040), fixed(15.0), fixed(1.4), 30 * ONE as i64, -45 * ONE as i64)
        .unwrap();
    assert_eq!(camera.sensor, 103_079_215);
    assert_eq!(camera.focal_length, 171_798_692);
    assert_eq!(camera.focus, 15 * ONE);
    assert_eq!(camera.fstop, 6_012_954_214);
    assert_eq!(camera.horizontal_angle, 30 * ONE as i64);
    assert_eq!(camera.vertical_angle, -45 * ONE as i64);
}

#[test]
fn the_aperture_is_the_focal_length_over_the_stop() {
    // 0.040 / 1.4 = 0.0285714...
    assert_eq!(standard().aperture, 122_713_351);
    let camera = Camera::new(ONE, 8 * ONE, 9 * ONE, 2 * ONE, 0, 0).unwrap();
    assert_eq!(camera.aperture, 4 * ONE);
    let camera = Camera::new(ONE, 8 * ONE, 9 * ONE, ONE / 2, 0, 0).unwrap();
    assert_eq!(camera.aperture, 16 * ONE);
}

#[test]
fn the_image_forms_where_the_thin_lens_puts_it() {
    // 1 / (1 / 0.040 - 1 / 15) = 0.0401069...
    assert_eq!(standard().image_distance, 172_258_046);
    // 1 / (1 / 2 - 1 / 6) = 3.
    let camera = Camera::new(ONE, 2 * ONE, 6 * ONE, ONE, 0, 0).unwrap();
    assert_eq!(camera.image_distance, 3 * ONE as i64);
}

#[test]
fn the_image_distance_is_negative_inside_the_focal_length() {
    // 1 / (1 / 3 - 1 / 1) = -1.5.
    let camera = Camera::new(ONE, 3 * ONE, ONE, ONE, 0, 0).unwrap();
    assert_eq!(camera.image_distance, -(3 * ONE as i64 / 2));
}

#[test]
fn a_focus_at_the_focal_length_is_refused() {
    assert_eq!(
        Camera::new(fixed(0.024), fixed(0.040), fixed(0.040), fixed(1.4), 0, 0),
        Err(CameraError::FocusAtFocalLength)
    );
    assert_eq!(Camera::new(0, 0, 0, 0, 0, 0), Err(CameraError::FocusAtFocalLength));
    assert_eq!(Camera::new(ONE, u64::MAX, u64::MAX, 1, 0, 0), Err(CameraError::FocusAtFocalLength));
    // Three units apart the lens can focus, with the image two to the
    // thirty-second over three away.
    let camera = Camera::new(ONE, ONE, ONE + 3, ONE, 0, 0).unwrap();
    assert_eq!(camera.image_distance as u128, ONE as u128 * (ONE as u128 + 3) / 3);
    // One unit apart the image would lie beyond what can be represented.
    assert_eq!(Camera::new(ONE, ONE, ONE + 1, ONE, 0, 0), Err(CameraError::Unrepresentable));
}

#[test]
fn a_stop_of_zero_is_refused() {
    assert_eq!(
        Camera::new(fixed(0.024), fixed(0.040), fixed(15.0), 0, 0, 0),
        Err(CameraError::Unrepresentable)
    );
}

#[test]
fn an_aperture_too_wide_to_represent_is_refused() {
    // The focal length over a stop of two to the minus thirty-second.
    assert_eq!(Camera::new(ONE, ONE + 1, 3 * ONE, 1, 0, 0), Err(CameraError::Unrepresentable));
    // The widest that fits.
    let camera = Camera::new(ONE, ONE - 1, 3 * ONE, 1, 0, 0).unwrap();
    assert_eq!(camera.aperture, (ONE - 1) * ONE);
}

#[test]
fn an_image_too_far_to_represent_is_refused() {
    // Two to the thirty-first, one unit short of the focus.
    let focal = 1u64 << 63;
    assert_eq!(Camera::new(ONE, focal, focal + 1, u64::MAX, 0, 0), Err(CameraError::Unrepresentable));
}

#[test]
fn rays_start_within_the_aperture() {
    let camera = Camera::new(ONE, 8 * ONE, 9 * ONE, ONE / 2, 0, 0).unwrap();
    // The radius is eight; the root of the draw scales it.
    assert_eq!(camera.aperture_radius(0), 0);
    assert_eq!(camera.aperture_radius(1 << 28), 2 * ONE);
    assert_eq!(camera.aperture_radius(1 << 30), 4 * ONE);
    assert_eq!(camera.aperture_radius(9 << 28), 6 * ONE);
    for draw in [1, 1000, u32::MAX / 3, u32::MAX] {
        assert!(camera.aperture_radius(draw) <= 8 * ONE);
    }
}

#[test]
fn the_largest_draw_reaches_the_rim() {
    let camera = standard();
    let radius = camera.aperture / 2;
    assert_eq!(radius, 61_356_675);
    assert_eq!(camera.aperture_radius(u32::MAX), radius - 1);
    assert_eq!(camera.aperture_radius(1 << 30), 30_678_337);
}

#[test]
fn a_closed_aperture_is_a_pinhole() {
    // At a stop beyond the focal length in units the aperture is a point.
    let camera = Camera::new(fixed(0.024), fixed(0.040), fixed(15.0), u64::MAX, 0, 0).unwrap();
    assert_eq!(camera.aperture, 0);
    for draw in [0, 1, 12345, u32::MAX / 2, u32::MAX] {
        assert_eq!(camera.aperture_radius(draw), 0);
    }
}

#[test]
fn the_aperture_closes_as_the_stop_grows() {
    let mut last = u64::MAX;
    for stop in [1, 2, 4, 8, 16, 1000, 1_000_000] {
        let camera = Camera::new(fixed(0.024), fixed(0.040), fixed(15.0), stop * ONE, 0, 0).unwrap();
        let widest = camera.aperture_radius(u32::MAX);
        assert!(widest < last);
        // Half the focal length over the stop.
        assert!(widest <= fixed(0.040) / (2 * stop));
        last = widest;
    }
}
