use wallpp::assemble::{assemble_one, next_action, prepare_pool, shuffle_pool, Action};
use wallpp::database::WallpaperDatabase;
use wallpp::image::Image;
use wallpp::ratio::Ratio;
use wallpp::wallpaper::Wallpaper;

fn img(name: &str, width: u32, height: u32) -> Image {
    Image::new(format!("/photos/{}", name), String::from(name), width, height).unwrap()
}

#[test]
fn wide_seed_stops_immediately() {
    // pool ratios in order [0.4, 0.3, 1.9], target 1.78; the seed is popped
    // from the end, so it is the 1.9 image, which already meets the target:
    // one single-image composite, nothing concatenated
    let mut pool = vec![
        img("p40.png", 400, 1000),
        img("p30.png", 300, 1000),
        img("p190.png", 1900, 1000),
    ];
    let mut db = WallpaperDatabase::new();
    let t = Ratio { num: 178, den: 100 };
    let c = assemble_one(&mut pool, &mut db, t, 1000, 1000).unwrap();
    assert_eq!(c.provenance.len(), 1);
    assert_eq!(c.provenance[0].filename, "p190.png");
    assert_eq!(c.dims.width, 1900);
    assert_eq!(c.dims.height, 1000);
    assert_eq!(c.subsumed.len(), 0);
    assert_eq!(pool.len(), 2);
    assert_eq!(pool[0].filename, "p40.png");
    assert_eq!(pool[1].filename, "p30.png");
}

#[test]
fn greedy_scan_takes_the_lowest_fitting_index() {
    // working aspect 1.0 against target 1.78 leaves a 0.78 deficit; both
    // pool images fit, and the scan picks index 0
    let pool = vec![img("p40.png", 400, 1000), img("p30.png", 300, 1000)];
    let db = WallpaperDatabase::new();
    let t = Ratio { num: 178, den: 100 };
    let a = next_action(&pool, &db, t, 1000, 1000);
    assert_eq!(a, Action::TakePool(0));
}

#[test]
fn scan_skips_images_that_overshoot_the_deficit() {
    // 0.9 overshoots the 0.78 deficit, 0.3 fits: index 1 is chosen
    let pool = vec![img("p90.png", 900, 1000), img("p30.png", 300, 1000)];
    let db = WallpaperDatabase::new();
    let t = Ratio { num: 178, den: 100 };
    let a = next_action(&pool, &db, t, 1000, 1000);
    assert_eq!(a, Action::TakePool(1));
}

#[test]
fn finish_when_the_target_is_met() {
    let pool = vec![img("p40.png", 400, 1000)];
    let db = WallpaperDatabase::new();
    let t = Ratio { num: 178, den: 100 };
    let a = next_action(&pool, &db, t, 1800, 1000);
    assert_eq!(a, Action::Finish);
}

#[test]
fn finish_when_nothing_fits() {
    let pool = vec![img("p90.png", 900, 1000)];
    let db = WallpaperDatabase::new();
    let t = Ratio { num: 178, den: 100 };
    let a = next_action(&pool, &db, t, 1500, 1000);
    assert_eq!(a, Action::Finish);
}

#[test]
fn cache_is_scanned_only_after_the_pool() {
    // no pool image fits, but the cached composite (ratio 0.5) does
    let pool = vec![img("p90.png", 900, 1000)];
    let mut db = WallpaperDatabase::new();
    db.record_composite(Wallpaper::new(vec![img("a.png", 100, 200)], img("0.jpg", 500, 1000)));
    let t = Ratio { num: 178, den: 100 };
    let a = next_action(&pool, &db, t, 1000, 1000);
    assert_eq!(a, Action::TakeCache(0));
}

#[test]
fn assembly_concatenates_until_the_target_is_reached() {
    // seed 0.5, then the remaining 0.5 image is concatenated: working
    // aspect goes 0.5 -> 1.0, the deficit 0.78 admits nothing more
    let mut pool = vec![img("a.png", 1000, 2000), img("b.png", 1000, 2000)];
    let mut db = WallpaperDatabase::new();
    let t = Ratio { num: 178, den: 100 };
    let c = assemble_one(&mut pool, &mut db, t, 1000, 2000).unwrap();
    assert_eq!(c.provenance.len(), 2);
    assert_eq!(c.provenance[0].filename, "b.png");
    assert_eq!(c.provenance[1].filename, "a.png");
    assert_eq!(c.dims.width, 2000);
    assert_eq!(c.dims.height, 2000);
    assert_eq!(pool.len(), 0);
}

#[test]
fn assembly_subsumes_a_cached_composite_and_carries_its_sources() {
    // the pool has nothing that fits, the cache has a narrow composite:
    // its sources are prepended to the provenance, its image is appended
    // after the candidate step, and its file is scheduled for deletion
    let mut pool = vec![img("seed.png", 1000, 1000)];
    let mut db = WallpaperDatabase::new();
    db.record_composite(Wallpaper::new(
        vec![img("s1.png", 100, 200), img("s2.png", 100, 200)],
        img("0.jpg", 500, 1000),
    ));
    let t = Ratio { num: 178, den: 100 };
    let c = assemble_one(&mut pool, &mut db, t, 1000, 1000).unwrap();
    assert_eq!(c.provenance.len(), 4);
    assert_eq!(c.provenance[0].filename, "s1.png");
    assert_eq!(c.provenance[1].filename, "s2.png");
    assert_eq!(c.provenance[2].filename, "seed.png");
    assert_eq!(c.provenance[3].filename, "0.jpg");
    assert_eq!(c.subsumed.len(), 1);
    assert_eq!(c.subsumed[0].filename, "0.jpg");
    assert_eq!(db.original_wallpapers.len(), 0);
    // the subsumed composite (ratio 0.5) was fitted to height 1000 and
    // concatenated: 1000 + 500
    assert_eq!(c.dims.width, 1500);
    assert_eq!(c.dims.height, 1000);
}

#[test]
fn empty_pool_yields_no_composite() {
    let mut pool: Vec<Image> = Vec::new();
    let mut db = WallpaperDatabase::new();
    let t = Ratio { num: 16, den: 9 };
    assert!(assemble_one(&mut pool, &mut db, t, 1440, 2880).is_none());
}

#[test]
fn run_of_three_images_with_a_wide_seed_leaves_two_for_the_next_composite() {
    // catalog ratios [0.5, 0.5, 2.0], target 16/9; the seed pop takes the
    // 2.0 image: the first composite is that image alone, and the two 0.5
    // images stay in the pool and form the second composite together
    let mut pool = vec![
        img("a.png", 1000, 2000),
        img("b.png", 1000, 2000),
        img("wide.png", 2000, 1000),
    ];
    let mut db = WallpaperDatabase::new();
    let t = Ratio { num: 16, den: 9 };
    let first = assemble_one(&mut pool, &mut db, t, 1000, 2000).unwrap();
    assert_eq!(first.provenance.len(), 1);
    assert_eq!(first.provenance[0].filename, "wide.png");
    assert_eq!(first.subsumed.len(), 0);
    assert_eq!(pool.len(), 2);
    db.record_composite(Wallpaper::new(
        first.provenance,
        Image::new(String::from("/out/0.jpg"), String::from("0.jpg"), first.dims.width, first.dims.height)
            .unwrap(),
    ));

    let second = assemble_one(&mut pool, &mut db, t, 1000, 2000).unwrap();
    assert_eq!(second.provenance.len(), 2);
    assert_eq!(second.provenance[0].filename, "b.png");
    assert_eq!(second.provenance[1].filename, "a.png");
    assert_eq!(pool.len(), 0);
    // the wide composite in the cache overshoots the remaining deficit and
    // is left alone
    assert_eq!(db.original_wallpapers.len(), 1);

    let third = assemble_one(&mut pool, &mut db, t, 1000, 2000);
    assert!(third.is_none());
}

#[test]
fn shuffle_keeps_the_pool_contents() {
    let mut pool = vec![
        img("a.png", 100, 200),
        img("b.png", 200, 200),
        img("c.png", 300, 200),
        img("d.png", 400, 200),
        img("e.png", 500, 200),
    ];
    shuffle_pool(&mut pool);
    assert_eq!(pool.len(), 5);
    for name in ["a.png", "b.png", "c.png", "d.png", "e.png"] {
        assert!(pool.iter().any(|i| i.filename == name));
    }
}

#[test]
fn prepare_pool_invalidates_filters_and_keeps_the_contents() {
    // the first composite lost a source and goes; the second covers a and b,
    // so only c remains for this run
    let mut db = WallpaperDatabase::new();
    db.record_composite(Wallpaper::new(vec![img("gone.png", 100, 200)], img("0.jpg", 1600, 900)));
    db.record_composite(Wallpaper::new(
        vec![img("a.png", 100, 200), img("b.png", 100, 200)],
        img("1.jpg", 1600, 900),
    ));
    let catalog = vec![
        img("a.png", 100, 200),
        img("b.png", 100, 200),
        img("c.png", 300, 200),
    ];
    let (pool, invalidated) = prepare_pool(catalog, &mut db);
    assert_eq!(invalidated.len(), 1);
    assert_eq!(invalidated[0].wallpaper_image.filename, "0.jpg");
    assert_eq!(db.original_wallpapers.len(), 1);
    assert_eq!(db.original_wallpapers[0].wallpaper_image.filename, "1.jpg");
    assert_eq!(pool.len(), 1);
    assert_eq!(pool[0].filename, "c.png");
}
