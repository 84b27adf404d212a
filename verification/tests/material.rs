use nalgebra::Vector3;
use pathtracer::color::Color;
use pathtracer::fixed::ONE;
use pathtracer::material::{
    refraction, FilteredProbabilityTest, Material, Scattering, BSDF, INV_PI, PI,
};

fn fixed(value: f64) -> u64 {
    (value * ONE as f64).round() as u64
}

fn as_real(value: u64) -> f64 {
    value as f64 / ONE as f64
}

fn color(r: f64, g: f64, b: f64) -> Color {
    Color::new(fixed(r), fixed(g), fixed(b))
}

/// A quarter reflects at normal incidence, half of the rest is transmitted,
/// half of what is left after that is absorbed.
fn layered() -> Material {
    Material::new(
        Color::new(ONE / 4, ONE / 2, ONE),
        3 * ONE / 2,
        ONE / 2,
        Color::black(),
        Color::new(ONE / 4, ONE / 4, ONE / 4),
        ONE / 2,
        ONE / 5,
    )
}

fn chalk(albedo: Color) -> Material {
    Material::new(albedo, ONE, 0, Color::black(), Color::black(), 0, 0)
}

const HEAD_ON: i64 = -(ONE as i64);

#[test]
fn schilck_is_correct() {
    let incident = Vector3::new(
        0.9999877074290066,
        0.002070457097031252,
        0.004505352182583419,
    );
    let normal = Vector3::new(
        -0.42430229364657923,
        0.17526903761586785,
        -0.8883964925974548,
    );

    let material = Material::new(
        color(0.1, 0.1, 1.0),
        fixed(1.0),
        fixed(0.0),
        color(0.0, 0.0, 0.0),
        color(0.04, 0.04, 0.04),
        fixed(0.0),
        fixed(0.2),
    );

    let cos_incident = (-incident).dot(&normal);
    let reflectance = material.schlick(fixed(cos_incident));
    let expected = Vector3::new(
        0.09881546766725074,
        0.09881546766725074,
        0.09881546766725074,
    );
    // The library computes in units of two to the minus thirty-two: the
    // result agrees to within a few of them.
    let resolution = 4.0 / ONE as f64;
    assert!((as_real(reflectance.r) - expected.x).abs() <= resolution);
    assert!((as_real(reflectance.g) - expected.y).abs() <= resolution);
    assert!((as_real(reflectance.b) - expected.z).abs() <= resolution);
    assert_eq!(reflectance, Color::new(424_409_201, 424_409_201, 424_409_201));
}

#[test]
fn schlick_at_normal_incidence_is_the_base_reflectance() {
    let material = layered();
    assert_eq!(material.schlick(ONE), Color::new(ONE / 4, ONE / 4, ONE / 4));
}

#[test]
fn schlick_at_grazing_incidence_is_one() {
    let material = Material::new(
        Color::black(),
        ONE,
        0,
        Color::black(),
        color(0.04, 0.5, 0.0),
        0,
        0,
    );
    assert_eq!(material.schlick(0), Color::white());
}

#[test]
fn schlick_raises_the_complement_of_the_cosine_to_the_fifth_power() {
    // At sixty degrees the cosine is a half, and a half to the fifth is one in
    // thirty-two.
    let material = chalk(Color::white());
    assert_eq!(material.schlick(ONE / 2), Color::new(ONE / 32, ONE / 32, ONE / 32));
}

#[test]
fn cascade_accumulates_the_excluded_mass() {
    let mut test = FilteredProbabilityTest::from_draw(0);
    assert_eq!(test.p, 0);
    test.or(ONE / 2);
    assert_eq!(test.p, ONE / 2);
    test.or(ONE / 2);
    assert_eq!(test.p, 3 * ONE / 4);
    test.or(ONE / 3);
    // 3/4 + 1/4 * 1/3, the third rounded down.
    assert_eq!(test.p, 3 * ONE / 4 + (ONE / 4) * (ONE / 3) / ONE);
    test.or(ONE);
    assert_eq!(test.p, ONE);
}

#[test]
fn cascade_keeps_its_draw() {
    let draw = (3 * ONE / 5) as u32;
    let mut test = FilteredProbabilityTest::from_draw(draw);
    // Below a half the draw does not fire, below three quarters it does.
    assert!(!test.or(ONE / 2));
    assert_eq!(test.r, draw);
    assert!(test.or(ONE / 2));
    assert_eq!(test.r, draw);
    // Once fired, always fired.
    assert!(test.or(0));
}

#[test]
fn cascade_outcome_of_no_weight_never_fires() {
    let mut test = FilteredProbabilityTest::from_draw(0);
    assert!(!test.or(0));
    assert_eq!(test.p, 0);
}

#[test]
fn cascade_outcome_of_full_weight_always_fires() {
    let mut test = FilteredProbabilityTest::from_draw(u32::MAX);
    assert!(!test.or(ONE / 2));
    assert!(test.or(ONE));
}

#[test]
fn cascade_on_a_fresh_draw_starts_with_nothing_excluded() {
    let mut test = FilteredProbabilityTest::new();
    assert_eq!(test.p, 0);
    let draw = test.r;
    assert_eq!(test.or(ONE / 2), (draw as u64) < ONE / 2);
}

#[test]
fn entering_light_runs_the_cascade_in_order() {
    let material = layered();
    let reflect = ONE / 4;
    let transmit = 5 * ONE / 8;
    let absorb = 13 * ONE / 16;
    let kind = |draw: u64| material.scatter(HEAD_ON, ONE, draw as u32).kind;
    assert_eq!(kind(0), Scattering::Reflect);
    assert_eq!(kind(reflect - 1), Scattering::Reflect);
    assert_eq!(kind(reflect), Scattering::Transmit);
    assert_eq!(kind(transmit - 1), Scattering::Transmit);
    assert_eq!(kind(transmit), Scattering::Absorb);
    assert_eq!(kind(absorb - 1), Scattering::Absorb);
    assert_eq!(kind(absorb), Scattering::Diffuse);
    assert_eq!(kind(ONE - 1), Scattering::Diffuse);
}

#[test]
fn reflection_is_tinted_by_the_metalness() {
    let sample = layered().scatter(HEAD_ON, ONE, 0);
    // Half way from white to a quarter.
    assert_eq!(
        sample,
        BSDF {
            kind: Scattering::Reflect,
            signal: Color::new(5 * ONE / 8, 5 * ONE / 8, 5 * ONE / 8),
            reflected: true,
        }
    );
    assert!(!sample.is_dead());
}

#[test]
fn transmission_loses_nothing_at_the_surface() {
    let sample = layered().scatter(HEAD_ON, ONE, (ONE / 2) as u32);
    assert_eq!(
        sample,
        BSDF { kind: Scattering::Transmit, signal: Color::white(), reflected: true }
    );
    assert!(!sample.is_dead());
}

#[test]
fn absorption_ends_the_path() {
    let sample = layered().scatter(HEAD_ON, ONE, (3 * ONE / 4) as u32);
    assert_eq!(
        sample,
        BSDF { kind: Scattering::Absorb, signal: Color::black(), reflected: false }
    );
    assert!(sample.is_dead());
}

#[test]
fn diffuse_scattering_carries_the_albedo_over_pi() {
    let sample = layered().scatter(HEAD_ON, ONE, u32::MAX);
    assert_eq!(INV_PI, 1_367_130_551);
    assert_eq!(
        sample,
        BSDF {
            kind: Scattering::Diffuse,
            signal: Color::new(341_782_637, 683_565_275, 1_367_130_551),
            reflected: false,
        }
    );
    assert!(!sample.is_dead());
}

#[test]
fn total_internal_reflection_on_entry_falls_through() {
    // Into a medium of index one half, at sixty degrees, nothing is refracted.
    let thin = Material::new(
        Color::white(),
        ONE / 2,
        ONE,
        Color::black(),
        Color::black(),
        0,
        0,
    );
    let cosine = -((ONE / 2) as i64);
    assert!(!refraction(cosine, ONE, ONE / 2));
    // The reflectance is one in thirty-two; every other draw is diffuse
    // although the surface is fully transparent.
    assert_eq!(thin.scatter(cosine, ONE, (ONE / 32 - 1) as u32).kind, Scattering::Reflect);
    assert_eq!(thin.scatter(cosine, ONE, (ONE / 32) as u32).kind, Scattering::Diffuse);
    assert_eq!(thin.scatter(cosine, ONE, u32::MAX).kind, Scattering::Diffuse);
    // Head on the light is refracted, and the same draws are transmitted.
    assert!(refraction(HEAD_ON, ONE, ONE / 2));
    assert_eq!(thin.scatter(HEAD_ON, ONE, 0).kind, Scattering::Transmit);
    assert_eq!(thin.scatter(HEAD_ON, ONE, u32::MAX).kind, Scattering::Transmit);
}

#[test]
fn refraction_follows_snell() {
    // From air into glass light always passes.
    assert!(refraction(-((ONE / 2) as i64), ONE, 3 * ONE / 2));
    assert!(refraction(0, ONE, 3 * ONE / 2));
    // From glass into air it passes head on, and not at sixty degrees.
    assert!(refraction(ONE as i64, 3 * ONE / 2, ONE));
    assert!(!refraction((ONE / 2) as i64, 3 * ONE / 2, ONE));
    // The critical angle of glass of index 1.5 has the cosine 0.745356.
    assert!(refraction(fixed(0.7454) as i64, 3 * ONE / 2, ONE));
    assert!(!refraction(fixed(0.7453) as i64, 3 * ONE / 2, ONE));
    // The sign of the cosine does not matter.
    assert!(!refraction(-((ONE / 2) as i64), 3 * ONE / 2, ONE));
}

#[test]
fn leaving_light_is_tinted_by_the_volume_it_crossed() {
    let material = layered();
    // Opacity a half, length one: half way from white to the albedo.
    assert_eq!(
        material.scatter(ONE as i64, ONE, 7),
        BSDF {
            kind: Scattering::Exit,
            signal: Color::new(5 * ONE / 8, 3 * ONE / 4, ONE),
            reflected: true,
        }
    );
    // Length a half: an eighth of the way.
    assert_eq!(
        material.refracted_exit(ONE / 2).signal,
        Color::new(29 * ONE / 32, 15 * ONE / 16, ONE)
    );
    // Length two: the volume is held at one, the tint is the albedo.
    assert_eq!(material.refracted_exit(2 * ONE).signal, Color::new(ONE / 4, ONE / 2, ONE));
    assert_eq!(material.refracted_exit(u64::MAX).signal, Color::new(ONE / 4, ONE / 2, ONE));
    // No length, no tint.
    assert_eq!(material.refracted_exit(0).signal, Color::white());
}

#[test]
fn leaving_light_ignores_the_draw() {
    let material = layered();
    let first = material.scatter(ONE as i64, ONE, 0);
    let last = material.scatter(ONE as i64, ONE, u32::MAX);
    assert_eq!(first, last);
}

#[test]
fn trapped_light_is_a_dead_sample() {
    let sample = layered().scatter((ONE / 2) as i64, ONE, 0);
    assert_eq!(
        sample,
        BSDF { kind: Scattering::Trapped, signal: Color::black(), reflected: false }
    );
    assert!(sample.is_dead());
}

#[test]
fn a_ray_along_the_surface_counts_as_leaving() {
    // A cosine of zero is not negative.
    let kind = layered().scatter(0, ONE, 0).kind;
    assert!(kind == Scattering::Exit || kind == Scattering::Trapped);
}

#[test]
fn dead_samples_carry_nothing() {
    let material = layered();
    assert_eq!(material.dead().signal, Color::black());
    assert_eq!(material.trapped().signal, Color::black());
    assert!(material.dead().is_dead());
    assert!(!material.trapped().reflected);
}

#[test]
fn the_parts_of_a_sample_agree_with_the_whole() {
    let material = layered();
    assert_eq!(material.reflected(), material.scatter(HEAD_ON, ONE, 0));
    assert_eq!(material.refracted_entry(), material.scatter(HEAD_ON, ONE, (ONE / 2) as u32));
    assert_eq!(material.diffused(), material.scatter(HEAD_ON, ONE, u32::MAX));
}

#[test]
fn bsdf_samples_the_material() {
    let material = layered();
    let mut seen = [false; 4];
    for _ in 0..2000 {
        let sample = material.bsdf(HEAD_ON, ONE);
        let expected = match sample.kind {
            Scattering::Reflect => material.reflected(),
            Scattering::Transmit => material.refracted_entry(),
            Scattering::Absorb => material.dead(),
            Scattering::Diffuse => material.diffused(),
            other => panic!("light from outside cannot be {:?}", other),
        };
        assert_eq!(sample, expected);
        seen[match sample.kind {
            Scattering::Reflect => 0,
            Scattering::Transmit => 1,
            Scattering::Absorb => 2,
            _ => 3,
        }] = true;
    }
    // Each kind has a probability of at least three in sixteen.
    assert_eq!(seen, [true; 4]);
}

#[test]
fn bsdf_frequencies_follow_the_weights() {
    let material = layered();
    let trials = 40_000;
    let mut reflected = 0;
    let mut diffuse = 0;
    for _ in 0..trials {
        match material.bsdf(HEAD_ON, ONE).kind {
            Scattering::Reflect => reflected += 1,
            Scattering::Diffuse => diffuse += 1,
            _ => {}
        }
    }
    // A quarter and three sixteenths, within five standard deviations.
    let share = |count: i32| count as f64 / trials as f64;
    assert!((share(reflected) - 0.25).abs() < 0.011);
    assert!((share(diffuse) - 0.1875).abs() < 0.010);
}

#[test]
fn energy_is_conserved_by_a_diffuse_surface() {
    let albedo = color(0.1, 0.5, 1.0);
    let material = chalk(albedo);
    let trials = 1000;
    let mut sum = [0.0f64; 3];
    for _ in 0..trials {
        let sample = material.bsdf(HEAD_ON, ONE);
        assert_eq!(sample.kind, Scattering::Diffuse);
        sum[0] += as_real(sample.signal.r);
        sum[1] += as_real(sample.signal.g);
        sum[2] += as_real(sample.signal.b);
    }
    let mean = |channel: usize| sum[channel] / trials as f64 * std::f64::consts::PI;
    assert!((mean(0) - 0.1).abs() < 1e-8);
    assert!((mean(1) - 0.5).abs() < 1e-8);
    assert!((mean(2) - 1.0).abs() < 1e-8);
}

#[test]
fn diffuse_signal_times_pi_is_the_albedo() {
    assert_eq!(PI, 13_493_037_704);
    for albedo in [0, 1, 2, 1000, ONE / 3, ONE / 2, ONE - 1, ONE] {
        let signal = chalk(Color::new(albedo, albedo, albedo)).diffused().signal.r;
        let back = (signal as u128 * PI as u128 / ONE as u128) as u64;
        assert!(back <= albedo);
        assert!(back + 4 >= albedo);
    }
}

#[test]
fn a_specular_draw_on_a_diffuse_surface_returns_white() {
    // At sixty degrees one draw in thirty-two is reflected even off chalk.
    let sample = chalk(color(0.1, 0.5, 1.0)).scatter(-((ONE / 2) as i64), ONE, 0);
    assert_eq!(sample.kind, Scattering::Reflect);
    assert_eq!(sample.signal, Color::white());
}

#[test]
fn emit_returns_the_emitted_radiance() {
    let light = Color::new(10 * ONE, 20 * ONE, 30 * ONE);
    let lamp = Material::new(Color::black(), ONE, 0, light, Color::black(), 0, 0);
    assert_eq!(lamp.emit(), light);
    assert_eq!(layered().emit(), Color::black());
}

#[test]
fn directed_emission_is_weighted_by_the_cosine() {
    let light = Color::new(10 * ONE, 20 * ONE, 30 * ONE);
    let lamp = Material::new(Color::black(), ONE, 0, light, Color::black(), 0, 0);
    assert_eq!(lamp.emit_towards(HEAD_ON), light);
    assert_eq!(
        lamp.emit_towards(-((ONE / 2) as i64)),
        Color::new(5 * ONE, 10 * ONE, 15 * ONE)
    );
    // Nothing is emitted along the surface or towards the inside.
    assert_eq!(lamp.emit_towards(0), Color::black());
    assert_eq!(lamp.emit_towards(ONE as i64), Color::black());
    // A surface that emits nothing emits nothing in any direction.
    assert_eq!(layered().emit_towards(HEAD_ON), Color::black());
}

#[test]
fn material_keeps_its_parameters() {
    let material = layered();
    assert_eq!(material.color, Color::new(ONE / 4, ONE / 2, ONE));
    assert_eq!(material.refraction, 3 * ONE / 2);
    assert_eq!(material.transparency, ONE / 2);
    assert_eq!(material.light, Color::black());
    assert_eq!(material.fresnel, Color::new(ONE / 4, ONE / 4, ONE / 4));
    assert_eq!(material.metal, ONE / 2);
    assert_eq!(material.gloss, ONE / 5);
}

#[test]
fn material_parameters_have_ranges() {
    assert!(layered().is_valid());
    let mut material = layered();
    material.transparency = ONE + 1;
    assert!(!material.is_valid());
    let mut material = layered();
    material.metal = ONE + 1;
    assert!(!material.is_valid());
    let mut material = layered();
    material.gloss = ONE + 1;
    assert!(!material.is_valid());
    let mut material = layered();
    material.color.g = ONE + 1;
    assert!(!material.is_valid());
    let mut material = layered();
    material.fresnel.b = ONE + 1;
    assert!(!material.is_valid());
    // Emission and the index of refraction are not bounded.
    let mut material = layered();
    material.light = Color::new(u64::MAX, 0, 0);
    material.refraction = u64::MAX;
    assert!(material.is_valid());
}
