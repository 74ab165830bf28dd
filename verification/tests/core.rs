use wallpp::database::WallpaperDatabase;
use wallpp::image::{ClampStep, Dims, Image, ScaleMode};
use wallpp::probe::parse_dimensions;
use wallpp::ratio::{aspect_lt_exec, fits_deficit_exec, ratio_lt_exec, Ratio};
use wallpp::wallpaper::Wallpaper;
use wallpp::{Config, RunError};

fn img(name: &str, width: u32, height: u32) -> Image {
    Image::new(format!("/photos/{}", name), String::from(name), width, height).unwrap()
}

#[test]
fn image_new_records_ratio_from_probed_dimensions() {
    let a = img("a.png", 1920, 1080);
    assert_eq!(a.filepath, "/photos/a.png");
    assert_eq!(a.filename, "a.png");
    assert_eq!(a.ratio, Ratio { num: 1920, den: 1080 });
}

#[test]
fn image_new_rejects_zero_dimensions() {
    let r = Image::new(String::from("/photos/z.png"), String::from("z.png"), 0, 1080);
    assert!(matches!(r, Err(RunError::ProbeError)));
    let r = Image::new(String::from("/photos/z.png"), String::from("z.png"), 1920, 0);
    assert!(matches!(r, Err(RunError::ProbeError)));
}

#[test]
fn ratio_comparisons() {
    let half = Ratio { num: 1, den: 2 };
    let two = Ratio { num: 2, den: 1 };
    let wide = Ratio { num: 16, den: 9 };
    assert!(ratio_lt_exec(half, two));
    assert!(!ratio_lt_exec(two, half));
    assert!(!ratio_lt_exec(wide, wide));
}

#[test]
fn deficit_test_matches_target_minus_working() {
    // target 1.78, working aspect exactly 1.0: the deficit is 0.78
    let t = Ratio { num: 178, den: 100 };
    assert!(fits_deficit_exec(Ratio { num: 4, den: 10 }, t, 1000, 1000));
    assert!(!fits_deficit_exec(Ratio { num: 9, den: 10 }, t, 1000, 1000));
    assert!(!fits_deficit_exec(Ratio { num: 19, den: 10 }, t, 1000, 1000));
}

#[test]
fn aspect_guard() {
    let t = Ratio { num: 16, den: 9 };
    assert!(aspect_lt_exec(1000, 1000, t));
    assert!(!aspect_lt_exec(2000, 1000, t));
}

#[test]
fn fit_upscales_four_times_when_doubling_misses_the_floor() {
    // height 700: doubled is 1400, still under 1440, so a 4x resample
    let mut d = Dims { width: 1000, height: 700 };
    let plan = Image::fit(&mut d, 1440, 2880);
    assert_eq!(plan.factor, 4);
    assert!(plan.clamp.is_none());
    assert_eq!(d, Dims { width: 4000, height: 2800 });
}

#[test]
fn fit_upscales_twice_when_height_misses_the_floor() {
    // height 800: doubled is 1600, inside the band, so a 2x resample
    let mut d = Dims { width: 1000, height: 800 };
    let plan = Image::fit(&mut d, 1440, 2880);
    assert_eq!(plan.factor, 2);
    assert!(plan.clamp.is_none());
    assert_eq!(d, Dims { width: 2000, height: 1600 });
}

#[test]
fn fit_clamps_down_to_the_ceiling_with_area_interpolation() {
    // height 3000 is over the band: rescale to 2880 with area averaging
    let mut d = Dims { width: 4000, height: 3000 };
    let plan = Image::fit(&mut d, 1440, 2880);
    assert_eq!(plan.factor, 1);
    assert_eq!(plan.clamp, Some(ClampStep { new_width: 3840, mode: ScaleMode::Area }));
    assert_eq!(d, Dims { width: 3840, height: 2880 });
}

#[test]
fn fit_clamps_up_to_the_ceiling_with_linear_interpolation() {
    // height 100 stays under the floor even after the 4x resample: the
    // clamp then targets the ceiling, not the floor
    let mut d = Dims { width: 50, height: 100 };
    let plan = Image::fit(&mut d, 1000, 1000);
    assert_eq!(plan.factor, 4);
    assert_eq!(plan.clamp, Some(ClampStep { new_width: 500, mode: ScaleMode::Linear }));
    assert_eq!(d, Dims { width: 500, height: 1000 });
}

#[test]
fn fit_leaves_an_in_band_raster_alone() {
    let mut d = Dims { width: 2000, height: 1500 };
    let plan = Image::fit(&mut d, 1440, 2880);
    assert_eq!(plan.factor, 1);
    assert!(plan.clamp.is_none());
    assert_eq!(d, Dims { width: 2000, height: 1500 });
}

#[test]
fn fit_rounds_the_clamped_width_to_nearest() {
    // 333 * 1000 / 1500 = 222, exactly; 500 * 999 / 1500 = 332.666... -> 333
    let mut d = Dims { width: 500, height: 1500 };
    let _ = Image::fit(&mut d, 999, 999);
    assert_eq!(d, Dims { width: 333, height: 999 });
}

#[test]
fn parse_dimensions_reads_a_probe_description() {
    let s = b"PNG image data, 1920 x 1080, 8-bit/color RGB, non-interlaced";
    assert_eq!(parse_dimensions(s), (1920, 1080));
}

#[test]
fn parse_dimensions_without_a_pair_yields_zeros() {
    assert_eq!(parse_dimensions(b"ASCII text, with very long lines"), (0, 0));
    assert_eq!(parse_dimensions(b""), (0, 0));
}

#[test]
fn parse_dimensions_skips_a_field_with_two_separators() {
    // "axb x 2" has two `x` bytes, so the field assigns nothing
    assert_eq!(parse_dimensions(b"axb x 2, 640 x 480"), (640, 480));
}

#[test]
fn parse_dimensions_keeps_a_partial_pair_until_a_later_field_decides() {
    assert_eq!(parse_dimensions(b"data, 10 x 0, 640 x 480"), (640, 480));
    assert_eq!(parse_dimensions(b"data, 10 x 0"), (10, 0));
}

#[test]
fn parse_dimensions_treats_overflow_as_zero() {
    assert_eq!(parse_dimensions(b"99999999999999 x 10"), (0, 10));
}

#[test]
fn wallpaper_contains_image_goes_by_filename() {
    let a = img("a.png", 100, 200);
    let b = img("b.png", 100, 200);
    let c = img("c.png", 300, 200);
    let w = Wallpaper::new(vec![a, b], img("0.jpg", 1600, 900));
    assert!(w.contains_image(&img("a.png", 999, 888)));
    assert!(!w.contains_image(&c));
}

#[test]
fn wallpaper_invalid_when_any_source_is_missing() {
    let w = Wallpaper::new(vec![img("a.png", 100, 200), img("b.png", 100, 200)], img(
        "0.jpg", 1600, 900,
    ));
    let full = vec![img("a.png", 100, 200), img("b.png", 100, 200)];
    let only_b = vec![img("b.png", 100, 200)];
    assert!(!w.invalid(&full));
    assert!(w.invalid(&only_b));
    assert!(w.invalid(&Vec::new()));
}

#[test]
fn delete_missing_drops_a_composite_when_one_source_vanished() {
    // sources [a, b]; the catalog kept b but lost a: the whole record goes
    let mut db = WallpaperDatabase::new();
    db.record_composite(Wallpaper::new(
        vec![img("a.png", 100, 200), img("b.png", 100, 200)],
        img("0.jpg", 1600, 900),
    ));
    let catalog = vec![img("b.png", 100, 200)];
    let removed = db.delete_missing(&catalog);
    assert_eq!(removed.len(), 1);
    assert_eq!(removed[0].wallpaper_image.filename, "0.jpg");
    assert_eq!(db.original_wallpapers.len(), 0);
}

#[test]
fn delete_missing_keeps_fully_covered_composites_in_order() {
    let mut db = WallpaperDatabase::new();
    db.record_composite(Wallpaper::new(vec![img("a.png", 100, 200)], img("0.jpg", 1600, 900)));
    db.record_composite(Wallpaper::new(vec![img("gone.png", 100, 200)], img("1.jpg", 1600, 900)));
    db.record_composite(Wallpaper::new(vec![img("b.png", 100, 200)], img("2.jpg", 1600, 900)));
    let catalog = vec![img("a.png", 100, 200), img("b.png", 100, 200)];
    let removed = db.delete_missing(&catalog);
    assert_eq!(removed.len(), 1);
    assert_eq!(removed[0].wallpaper_image.filename, "1.jpg");
    assert_eq!(db.original_wallpapers.len(), 2);
    assert_eq!(db.original_wallpapers[0].wallpaper_image.filename, "0.jpg");
    assert_eq!(db.original_wallpapers[1].wallpaper_image.filename, "2.jpg");
}

#[test]
fn regen_pool_is_the_catalog_minus_covered_images() {
    // catalog [a, b, c], one surviving composite consumed [a, b]: only c
    // still needs work
    let mut db = WallpaperDatabase::new();
    db.record_composite(Wallpaper::new(
        vec![img("a.png", 100, 200), img("b.png", 100, 200)],
        img("0.jpg", 1600, 900),
    ));
    let catalog = vec![
        img("a.png", 100, 200),
        img("b.png", 100, 200),
        img("c.png", 300, 200),
    ];
    let regen = db.get_regen_image_paths(catalog);
    assert_eq!(regen.len(), 1);
    assert_eq!(regen[0].filename, "c.png");
}

#[test]
fn config_carries_its_settings() {
    let c = Config::new(
        String::from("/in"),
        String::from("/out"),
        String::from("/models"),
        1440,
        2880,
        16,
        9,
    );
    assert_eq!(c.input_path, "/in");
    assert_eq!(c.output_path, "/out");
    assert_eq!(c.upscaler_path, "/models");
    assert_eq!(c.minimum_height, 1440);
    assert_eq!(c.maximum_height, 2880);
    assert_eq!(c.desired_aspect(), Ratio { num: 16, den: 9 });
}

#[test]
fn fit_accepts_mirrors_the_planner_precondition() {
    assert!(Image::fit_accepts(Dims { width: 1000, height: 700 }, 1440, 2880));
    // a zero height is never accepted
    assert!(!Image::fit_accepts(Dims { width: 1000, height: 0 }, 1440, 2880));
    // a 4x upscale of this width cannot be represented in 32 bits
    assert!(!Image::fit_accepts(Dims { width: 2_000_000_000, height: 700 }, 1440, 2880));
    // the upscaled and clamped dimensions stay representable here, except
    // for the clamped width: a short raster scaled up to a huge ceiling
    assert!(!Image::fit_accepts(Dims { width: 1000, height: 100 }, 1000, 4_000_000_000));
}
