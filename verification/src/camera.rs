//! The configuration of the thin-lens camera and the sampling of its
//! aperture.
//!
//! Lengths are fixed-point quantities. The geometry of a ray, from the
//! sensor through the lens into the scene, is left to the caller; what is
//! decided here is whether a configuration can be used at all, what it
//! implies for the lens, and how far from the centre of the lens a ray
//! starts.

use crate::fixed::{
    lemma_product_bounds, lemma_root_exists, product, quotient, root, scale, sqrt, ONE,
};
use vstd::prelude::*;

verus! {

/// Why a configuration cannot be used.
#[derive(Clone, Copy, Debug, PartialEq, Eq, Structural)]
pub enum CameraError {
    /// The focus distance is the focal length: the image would form at
    /// infinity.
    FocusAtFocalLength,
    /// The diameter of the aperture or the image distance is too large to
    /// be represented, or the f-stop is zero.
    Unrepresentable,
}

/// A thin lens in front of a sensor.
#[derive(Clone, Copy, Debug, PartialEq, Eq, Structural)]
pub struct Camera {
    /// The size of the sensor.
    pub sensor: u64,
    pub focal_length: u64,
    /// The distance at which objects are in focus.
    pub focus: u64,
    pub fstop: u64,
    /// The diameter of the aperture.
    pub aperture: u64,
    /// The distance behind the lens at which the image forms; negative where
    /// the focus distance is shorter than the focal length.
    pub image_distance: i64,
    /// The rotation about the vertical axis, in degrees.
    pub horizontal_angle: i64,
    /// The rotation about the horizontal axis, in degrees.
    pub vertical_angle: i64,
}

/// The diameter of the aperture: the focal length over the f-stop.
pub open spec fn aperture_diameter(focal_length: u64, fstop: u64) -> int {
    quotient(focal_length as int, fstop as int)
}

/// The image distance of the thin lens, `1 / (1 / focal_length - 1 /
/// focus)`, which is `focal_length * focus / (focus - focal_length)`,
/// rounded towards zero.
pub open spec fn image_distance(focal_length: u64, focus: u64) -> int {
    if focus > focal_length {
        focal_length * focus / (focus - focal_length)
    } else {
        -(focal_length * focus / (focal_length - focus))
    }
}

/// Whether both derived quantities can be represented.
pub open spec fn representable(focal_length: u64, focus: u64, fstop: u64) -> bool {
    &&& fstop > 0
    &&& aperture_diameter(focal_length, fstop) <= u64::MAX
    &&& -i64::MAX <= image_distance(focal_length, focus) <= i64::MAX
}

/// The distance from the centre of the lens at which a ray starts, for a
/// uniform draw: the root of the draw times the radius of the aperture, so
/// that the starting points cover the disk evenly.
pub open spec fn aperture_offset(aperture: u64, draw: u32) -> int {
    product(aperture as int / 2, root(draw * ONE))
}

impl Camera {
    /// Whether the derived quantities are those of the configuration.
    pub open spec fn wf(self) -> bool {
        &&& self.focal_length != self.focus
        &&& representable(self.focal_length, self.focus, self.fstop)
        &&& self.aperture == aperture_diameter(self.focal_length, self.fstop)
        &&& self.image_distance == image_distance(self.focal_length, self.focus)
    }

    /// Configures a camera. A focus distance equal to the focal length is
    /// refused, and so is a configuration whose derived quantities cannot be
    /// represented.
    pub fn new(
        sensor: u64,
        focal_length: u64,
        focus: u64,
        fstop: u64,
        horizontal_angle: i64,
        vertical_angle: i64,
    ) -> (camera: Result<Camera, CameraError>)
        ensures
            match camera {
                Ok(c) => {
                    &&& focal_length != focus
                    &&& representable(focal_length, focus, fstop)
                    &&& c.wf()
                    &&& c.sensor == sensor
                    &&& c.focal_length == focal_length
                    &&& c.focus == focus
                    &&& c.fstop == fstop
                    &&& c.horizontal_angle == horizontal_angle
                    &&& c.vertical_angle == vertical_angle
                },
                Err(CameraError::FocusAtFocalLength) => focal_length == focus,
                Err(CameraError::Unrepresentable) => focal_length != focus && !representable(
                    focal_length,
                    focus,
                    fstop,
                ),
            },
    {
        if focal_length == focus {
            return Err(CameraError::FocusAtFocalLength);
        }
        if fstop == 0 {
            return Err(CameraError::Unrepresentable);
        }
        assert(focal_length * ONE <= 0xffff_ffff_ffff_ffff * 0x1_0000_0000) by (nonlinear_arith)
            requires
                focal_length <= 0xffff_ffff_ffff_ffff,
                ONE == 0x1_0000_0000,
        ;
        let aperture: u128 = (focal_length as u128 * ONE as u128) / (fstop as u128);
        if aperture > u64::MAX as u128 {
            return Err(CameraError::Unrepresentable);
        }
        assert(focal_length * focus <= 0xffff_ffff_ffff_ffff * 0xffff_ffff_ffff_ffff)
            by (nonlinear_arith)
            requires
                focal_length <= 0xffff_ffff_ffff_ffff,
                focus <= 0xffff_ffff_ffff_ffff,
        ;
        let area: u128 = focal_length as u128 * focus as u128;
        let behind: bool = focus > focal_length;
        let gap: u64 = if behind {
            focus - focal_length
        } else {
            focal_length - focus
        };
        let distance: u128 = area / (gap as u128);
        if distance > i64::MAX as u128 {
            return Err(CameraError::Unrepresentable);
        }
        let image_distance: i64 = if behind {
            distance as i64
        } else {
            -(distance as i64)
        };
        Ok(
            Camera {
                sensor,
                focal_length,
                focus,
                fstop,
                aperture: aperture as u64,
                image_distance,
                horizontal_angle,
                vertical_angle,
            },
        )
    }

    /// Samples the distance from the centre of the lens at which a ray
    /// starts.
    pub fn aperture_radius(&self, draw: u32) -> (radius: u64)
        ensures
            radius == aperture_offset(self.aperture, draw),
            radius <= self.aperture / 2,
    {
        assert(draw * ONE < 0x1_0000_0000 * 0x1_0000_0000) by (nonlinear_arith)
            requires
                draw < 0x1_0000_0000,
                ONE == 0x1_0000_0000,
        ;
        let spread: u64 = sqrt(draw as u128 * ONE as u128);
        assert(spread < ONE) by (nonlinear_arith)
            requires
                spread * spread <= draw * ONE,
                draw * ONE < 0x1_0000_0000 * 0x1_0000_0000,
                ONE == 0x1_0000_0000,
        ;
        scale(self.aperture / 2, spread)
    }
}

/// The pinhole limit. No ray starts farther from the centre of the lens
/// than the radius of the aperture, which is at most half the focal length
/// over the f-stop. Where the aperture has closed to a point, every ray
/// starts at the centre whatever is drawn, so that all rays through one
/// point of the sensor are the same ray.
pub proof fn lemma_pinhole(camera: Camera, draw: u32)
    requires
        camera.wf(),
    ensures
        0 <= aperture_offset(camera.aperture, draw) <= camera.aperture / 2,
        2 * aperture_offset(camera.aperture, draw) * camera.fstop <= camera.focal_length * ONE,
        camera.aperture <= 1 ==> aperture_offset(camera.aperture, draw) == 0,
{
    let spread = root(draw * ONE);
    lemma_root_exists(draw * ONE);
    assert(spread <= ONE) by (nonlinear_arith)
        requires
            0 <= spread,
            spread * spread <= draw * ONE,
            draw < 0x1_0000_0000,
            ONE == 0x1_0000_0000,
    ;
    let radius = camera.aperture as int / 2;
    lemma_product_bounds(radius, spread);
    let offset = aperture_offset(camera.aperture, draw);
    // The aperture times the f-stop does not exceed the focal length.
    vstd::arithmetic::div_mod::lemma_fundamental_div_mod(
        camera.focal_length * ONE,
        camera.fstop as int,
    );
    assert(2 * offset * camera.fstop <= camera.focal_length * ONE) by (nonlinear_arith)
        requires
            0 <= 2 * offset <= camera.aperture,
            camera.fstop * camera.aperture <= camera.focal_length * ONE,
            camera.fstop > 0,
    ;
}

} // verus!
