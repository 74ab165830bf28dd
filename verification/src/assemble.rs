use vstd::prelude::*;
use crate::database::WallpaperDatabase;
use crate::image::{Dims, Image, spec_fit_height, spec_fit_width, spec_upscale_factor};
use crate::ratio::{aspect_lt, aspect_lt_exec, fits_deficit, fits_deficit_exec, ratio_ge, Ratio};
use crate::wallpaper::Wallpaper;
use rand::seq::SliceRandom;

verus! {

/// The aspect ratios of a pool of images, in pool order.
pub open spec fn pool_ratios(pool: Seq<Image>) -> Seq<Ratio> {
    pool.map_values(|img: Image| img.ratio)
}

/// The aspect ratios of the stored composites, in cache order.
pub open spec fn wall_ratios(walls: Seq<Wallpaper>) -> Seq<Ratio> {
    walls.map_values(|w: Wallpaper| w.wallpaper_image.ratio)
}

/// The greedy scan: the first (lowest) index whose ratio fits the remaining
/// deficit `t - wn/wd`, or nothing.
pub open spec fn first_fit(ratios: Seq<Ratio>, t: Ratio, wn: int, wd: int) -> Option<int>
    decreases ratios.len(),
{
    if ratios.len() == 0 {
        None
    } else if fits_deficit(ratios[0], t, wn, wd) {
        Some(0int)
    } else {
        match first_fit(ratios.drop_first(), t, wn, wd) {
            Some(i) => Some(i + 1),
            None => None,
        }
    }
}

/// What the greedy scan returns is the least fitting index; when it returns
/// nothing, no index fits.
pub proof fn lemma_first_fit_is_least(ratios: Seq<Ratio>, t: Ratio, wn: int, wd: int)
    ensures
        match first_fit(ratios, t, wn, wd) {
            Some(i) => 0 <= i < ratios.len() && fits_deficit(ratios[i], t, wn, wd) && (forall|
                k: int,
            | 0 <= k < i ==> !fits_deficit(ratios[k], t, wn, wd)),
            None => forall|k: int| 0 <= k < ratios.len() ==> !fits_deficit(ratios[k], t, wn, wd),
        },
    decreases ratios.len(),
{
    if ratios.len() == 0 {
    } else if fits_deficit(ratios[0], t, wn, wd) {
    } else {
        lemma_first_fit_is_least(ratios.drop_first(), t, wn, wd);
        match first_fit(ratios.drop_first(), t, wn, wd) {
            Some(j) => {
                assert(ratios[j + 1] == ratios.drop_first()[j]);
                assert forall|k: int| 0 <= k < j + 1 implies !fits_deficit(
                    ratios[k],
                    t,
                    wn,
                    wd,
                ) by {
                    if k >= 1 {
                        assert(ratios[k] == ratios.drop_first()[k - 1]);
                    }
                }
            },
            None => {
                assert forall|k: int| 0 <= k < ratios.len() implies !fits_deficit(
                    ratios[k],
                    t,
                    wn,
                    wd,
                ) by {
                    if k >= 1 {
                        assert(ratios[k] == ratios.drop_first()[k - 1]);
                    }
                }
            },
        }
    }
}

/// The state of one composite under assembly: the images still unplaced,
/// the reusable composites still cached, the provenance gathered so far,
/// the working raster's model dimensions, and the composite images whose
/// files are being superseded.
pub ghost struct Assembly {
    pub pool: Seq<Image>,
    pub walls: Seq<Wallpaper>,
    pub provenance: Seq<Image>,
    pub width: int,
    pub height: int,
    pub subsumed: Seq<Image>,
}

/// Convenience constructor for the assembly state.
pub open spec fn assembly(
    pool: Seq<Image>,
    walls: Seq<Wallpaper>,
    provenance: Seq<Image>,
    width: int,
    height: int,
    subsumed: Seq<Image>,
) -> Assembly {
    Assembly { pool, walls, provenance, width, height, subsumed }
}

/// Taking pool image `i`: it leaves the pool, is normalized to the working
/// height, is concatenated on the left (widths add), and is appended to the
/// provenance.
pub open spec fn take_pool_step(s: Assembly, i: int) -> Assembly
    recommends
        0 <= i < s.pool.len(),
{
    let img = s.pool[i];
    let cw = spec_fit_width(img.ratio.num as int, img.ratio.den as int, s.height, s.height);
    Assembly {
        pool: s.pool.remove(i),
        walls: s.walls,
        provenance: s.provenance.push(img),
        width: s.width + cw,
        height: s.height,
        subsumed: s.subsumed,
    }
}

/// Subsuming cached composite `j`: it leaves the cache, its sources are
/// prepended to the provenance, and its own composite image — normalized
/// and concatenated like a pool candidate — is appended; its file is
/// scheduled for deletion.
pub open spec fn subsume_step(s: Assembly, j: int) -> Assembly
    recommends
        0 <= j < s.walls.len(),
{
    let wp = s.walls[j];
    let cw = spec_fit_width(
        wp.wallpaper_image.ratio.num as int,
        wp.wallpaper_image.ratio.den as int,
        s.height,
        s.height,
    );
    Assembly {
        pool: s.pool,
        walls: s.walls.remove(j),
        provenance: wp.original_images@ + s.provenance + seq![wp.wallpaper_image],
        width: s.width + cw,
        height: s.height,
        subsumed: s.subsumed.push(wp.wallpaper_image),
    }
}

/// The assembly loop stops here: the working aspect has reached the target,
/// or nothing in the pool or the cache fits the remaining deficit.
pub open spec fn terminal(s: Assembly, t: Ratio) -> bool {
    !aspect_lt(s.width, s.height, t) || (first_fit(pool_ratios(s.pool), t, s.width, s.height)
        is None && first_fit(wall_ratios(s.walls), t, s.width, s.height) is None)
}

/// The greedy assembly loop: while the working aspect is under the target,
/// take the first fitting pool image, else subsume the first fitting cached
/// composite, else stop.
pub open spec fn assemble_loop(s: Assembly, t: Ratio) -> Assembly
    decreases s.pool.len() + s.walls.len(),
    via assemble_loop_decreases
{
    if !aspect_lt(s.width, s.height, t) {
        s
    } else {
        match first_fit(pool_ratios(s.pool), t, s.width, s.height) {
            Some(i) => assemble_loop(take_pool_step(s, i), t),
            None => match first_fit(wall_ratios(s.walls), t, s.width, s.height) {
                Some(j) => assemble_loop(subsume_step(s, j), t),
                None => s,
            },
        }
    }
}

#[via_fn]
proof fn assemble_loop_decreases(s: Assembly, t: Ratio) {
    lemma_first_fit_is_least(pool_ratios(s.pool), t, s.width, s.height);
    lemma_first_fit_is_least(wall_ratios(s.walls), t, s.width, s.height);
}

/// The machine bound on one normalization: the upscaled dimensions and the
/// final width fit in 32 bits.
pub open spec fn fit_ok(r: Ratio, min: int, max: int) -> bool {
    let f = spec_upscale_factor(r.den as int, min);
    (r.num as int) * f <= u32::MAX && (r.den as int) * f <= u32::MAX && spec_fit_width(
        r.num as int,
        r.den as int,
        min,
        max,
    ) <= u32::MAX
}

/// The machine bound on a whole assembly loop: every candidate the greedy
/// scan will pick normalizes within 32 bits and every concatenated width
/// stays within 32 bits.
pub open spec fn loop_fits(s: Assembly, t: Ratio) -> bool
    decreases s.pool.len() + s.walls.len(),
    via loop_fits_decreases
{
    if !aspect_lt(s.width, s.height, t) {
        true
    } else {
        match first_fit(pool_ratios(s.pool), t, s.width, s.height) {
            Some(i) => fit_ok(s.pool[i].ratio, s.height, s.height) && s.width + spec_fit_width(
                s.pool[i].ratio.num as int,
                s.pool[i].ratio.den as int,
                s.height,
                s.height,
            ) <= u32::MAX && loop_fits(take_pool_step(s, i), t),
            None => match first_fit(wall_ratios(s.walls), t, s.width, s.height) {
                Some(j) => fit_ok(s.walls[j].wallpaper_image.ratio, s.height, s.height) && s.width
                    + spec_fit_width(
                    s.walls[j].wallpaper_image.ratio.num as int,
                    s.walls[j].wallpaper_image.ratio.den as int,
                    s.height,
                    s.height,
                ) <= u32::MAX && loop_fits(subsume_step(s, j), t),
                None => true,
            },
        }
    }
}

#[via_fn]
proof fn loop_fits_decreases(s: Assembly, t: Ratio) {
    lemma_first_fit_is_least(pool_ratios(s.pool), t, s.width, s.height);
    lemma_first_fit_is_least(wall_ratios(s.walls), t, s.width, s.height);
}

/// Every image of the pool has a well-formed ratio.
pub open spec fn images_wf(pool: Seq<Image>) -> bool {
    forall|i: int| 0 <= i < pool.len() ==> pool[i].wf()
}

/// Every cached composite has a well-formed ratio.
pub open spec fn walls_wf(walls: Seq<Wallpaper>) -> bool {
    forall|j: int| 0 <= j < walls.len() ==> walls[j].wallpaper_image.wf()
}

/// The assembly state right after the seed was popped from the pool's end
/// and normalized into the height band.
pub open spec fn seed_assembly(pool: Seq<Image>, walls: Seq<Wallpaper>, min: int, max: int) -> Assembly
    recommends
        pool.len() > 0,
{
    let seed = pool.last();
    Assembly {
        pool: pool.drop_last(),
        walls: walls,
        provenance: seq![seed],
        width: spec_fit_width(seed.ratio.num as int, seed.ratio.den as int, min, max),
        height: spec_fit_height(seed.ratio.den as int, min, max),
        subsumed: Seq::<Image>::empty(),
    }
}

/// What one composite's assembly produces, as a function of the pool, the
/// cache and the configuration.
pub open spec fn assemble_one_spec(
    pool: Seq<Image>,
    walls: Seq<Wallpaper>,
    t: Ratio,
    min: int,
    max: int,
) -> Assembly {
    assemble_loop(seed_assembly(pool, walls, min, max), t)
}

/// What a call of the assembler needs: well-formed ratios, a positive band
/// ceiling (the working height must stay positive), and the machine bounds
/// of the run.
pub open spec fn assemble_pre(
    pool: Seq<Image>,
    walls: Seq<Wallpaper>,
    t: Ratio,
    min: int,
    max: int,
) -> bool {
    &&& images_wf(pool)
    &&& walls_wf(walls)
    &&& max >= 1
    &&& pool.len() > 0 ==> fit_ok(pool.last().ratio, min, max) && loop_fits(
        seed_assembly(pool, walls, min, max),
        t,
    )
}

/// The assembler's next decision, given the current working dimensions.
#[derive(Clone, Copy, PartialEq, Eq, Structural, Debug)]
pub enum Action {
    Finish,
    TakePool(usize),
    TakeCache(usize),
}

/// Scan the pool in order for the first image whose ratio fits the deficit.
#[verifier::loop_isolation(false)]
fn scan_pool(pool: &Vec<Image>, t: Ratio, width: u32, height: u32) -> (r: Option<usize>)
    ensures
        r is Some <==> first_fit(pool_ratios(pool@), t, width as int, height as int) is Some,
        r matches Some(i) ==> first_fit(pool_ratios(pool@), t, width as int, height as int)
            == Some(i as int),
        r matches Some(i) ==> i < pool@.len() && fits_deficit(
            pool@[i as int].ratio,
            t,
            width as int,
            height as int,
        ) && (forall|k: int|
            0 <= k < i ==> !fits_deficit(pool@[k].ratio, t, width as int, height as int)),
{
    let ghost ratios = pool_ratios(pool@);
    proof {
        lemma_first_fit_is_least(ratios, t, width as int, height as int);
        assert(forall|k: int| 0 <= k < pool@.len() ==> ratios[k] == pool@[k].ratio);
    }
    let mut i: usize = 0;
    while i < pool.len()
        invariant
            0 <= i <= pool.len(),
            forall|k: int| 0 <= k < i ==> !fits_deficit(ratios[k], t, width as int, height as int),
        decreases pool.len() - i,
    {
        if fits_deficit_exec(pool[i].ratio, t, width, height) {
            proof {
                assert(fits_deficit(ratios[i as int], t, width as int, height as int));
                let ff = first_fit(ratios, t, width as int, height as int);
                if ff is None {
                    assert(!fits_deficit(ratios[i as int], t, width as int, height as int));
                }
                if let Some(m) = ff {
                    if m < i as int {
                        assert(!fits_deficit(ratios[m], t, width as int, height as int));
                        assert(fits_deficit(ratios[m], t, width as int, height as int));
                    }
                    if m > i as int {
                        assert(!fits_deficit(ratios[i as int], t, width as int, height as int));
                    }
                }
                assert(ff == Some(i as int));
                assert forall|k: int| 0 <= k < i implies !fits_deficit(
                    pool@[k].ratio,
                    t,
                    width as int,
                    height as int,
                ) by {
                    assert(!fits_deficit(ratios[k], t, width as int, height as int));
                }
            }
            return Some(i);
        }
        i = i + 1;
    }
    None
}

/// Scan the cached composites in order for the first whose composite image
/// fits the deficit.
#[verifier::loop_isolation(false)]
fn scan_walls(walls: &Vec<Wallpaper>, t: Ratio, width: u32, height: u32) -> (r: Option<usize>)
    ensures
        r is Some <==> first_fit(wall_ratios(walls@), t, width as int, height as int) is Some,
        r matches Some(i) ==> first_fit(wall_ratios(walls@), t, width as int, height as int)
            == Some(i as int),
        r matches Some(i) ==> i < walls@.len() && fits_deficit(
            walls@[i as int].wallpaper_image.ratio,
            t,
            width as int,
            height as int,
        ) && (forall|k: int|
            0 <= k < i ==> !fits_deficit(
                walls@[k].wallpaper_image.ratio,
                t,
                width as int,
                height as int,
            )),
{
    let ghost ratios = wall_ratios(walls@);
    proof {
        lemma_first_fit_is_least(ratios, t, width as int, height as int);
        assert(forall|k: int|
            0 <= k < walls@.len() ==> ratios[k] == walls@[k].wallpaper_image.ratio);
    }
    let mut i: usize = 0;
    while i < walls.len()
        invariant
            0 <= i <= walls.len(),
            forall|k: int| 0 <= k < i ==> !fits_deficit(ratios[k], t, width as int, height as int),
        decreases walls.len() - i,
    {
        let w = &walls[i];
        if fits_deficit_exec(w.wallpaper_image.ratio, t, width, height) {
            proof {
                assert(fits_deficit(ratios[i as int], t, width as int, height as int));
                let ff = first_fit(ratios, t, width as int, height as int);
                if ff is None {
                    assert(!fits_deficit(ratios[i as int], t, width as int, height as int));
                }
                if let Some(m) = ff {
                    if m < i as int {
                        assert(!fits_deficit(ratios[m], t, width as int, height as int));
                        assert(fits_deficit(ratios[m], t, width as int, height as int));
                    }
                    if m > i as int {
                        assert(!fits_deficit(ratios[i as int], t, width as int, height as int));
                    }
                }
                assert(ff == Some(i as int));
                assert forall|k: int| 0 <= k < i implies !fits_deficit(
                    walls@[k].wallpaper_image.ratio,
                    t,
                    width as int,
                    height as int,
                ) by {
                    assert(!fits_deficit(ratios[k], t, width as int, height as int));
                }
            }
            return Some(i);
        }
        i = i + 1;
    }
    None
}

/// The assembler's decision for the current state: stop when the working
/// aspect has reached the target or nothing fits; otherwise take the first
/// fitting pool image, and only when no pool image fits, the first fitting
/// cached composite. The greedy scan always selects the lowest index whose
/// ratio lies under the remaining deficit.
pub fn next_action(
    pool: &Vec<Image>,
    db: &WallpaperDatabase,
    target: Ratio,
    width: u32,
    height: u32,
) -> (a: Action)
    ensures
        a == Action::Finish <==> terminal(
            assembly(
                pool@,
                db.original_wallpapers@,
                Seq::<Image>::empty(),
                width as int,
                height as int,
                Seq::<Image>::empty(),
            ),
            target,
        ),
        a matches Action::TakePool(i) ==> aspect_lt(width as int, height as int, target)
            && first_fit(pool_ratios(pool@), target, width as int, height as int) == Some(i as int),
        a matches Action::TakePool(i) ==> i < pool@.len() && fits_deficit(
            pool@[i as int].ratio,
            target,
            width as int,
            height as int,
        ) && (forall|k: int|
            0 <= k < i ==> !fits_deficit(pool@[k].ratio, target, width as int, height as int)),
        a matches Action::TakeCache(j) ==> aspect_lt(width as int, height as int, target)
            && first_fit(pool_ratios(pool@), target, width as int, height as int) is None
            && first_fit(wall_ratios(db.original_wallpapers@), target, width as int, height as int)
            == Some(j as int),
        a matches Action::TakeCache(j) ==> j < db.original_wallpapers@.len() && fits_deficit(
            db.original_wallpapers@[j as int].wallpaper_image.ratio,
            target,
            width as int,
            height as int,
        ) && (forall|k: int|
            0 <= k < j ==> !fits_deficit(
                db.original_wallpapers@[k].wallpaper_image.ratio,
                target,
                width as int,
                height as int,
            )),
{
    proof {
        lemma_first_fit_is_least(pool_ratios(pool@), target, width as int, height as int);
        lemma_first_fit_is_least(
            wall_ratios(db.original_wallpapers@),
            target,
            width as int,
            height as int,
        );
        assert(forall|k: int|
            0 <= k < pool@.len() ==> pool_ratios(pool@)[k] == pool@[k].ratio);
        assert(forall|k: int|
            0 <= k < db.original_wallpapers@.len() ==> wall_ratios(db.original_wallpapers@)[k]
                == db.original_wallpapers@[k].wallpaper_image.ratio);
    }
    if !aspect_lt_exec(width, height, target) {
        return Action::Finish;
    }
    match scan_pool(pool, target, width, height) {
        Some(i) => Action::TakePool(i),
        None => match scan_walls(&db.original_wallpapers, target, width, height) {
            Some(j) => Action::TakeCache(j),
            None => Action::Finish,
        },
    }
}

/// One finished composite: its full provenance in order, the model
/// dimensions of the raster, and the superseded composite images whose
/// files must be deleted.
#[derive(Debug)]
pub struct Composite {
    pub provenance: Vec<Image>,
    pub dims: Dims,
    pub subsumed: Vec<Image>,
}

/// Assembles one composite: pops the seed from the pool's end, normalizes
/// it into the height band, then greedily concatenates fitting candidates
/// until the target aspect is reached or nothing fits. Consumed pool images
/// and subsumed cached composites leave the pool and the cache. Returns
/// nothing when the pool is empty.
#[verifier::loop_isolation(false)]
pub fn assemble_one(
    pool: &mut Vec<Image>,
    db: &mut WallpaperDatabase,
    target: Ratio,
    min_height: u32,
    max_height: u32,
) -> (r: Option<Composite>)
    requires
        assemble_pre(
            old(pool)@,
            old(db).original_wallpapers@,
            target,
            min_height as int,
            max_height as int,
        ),
    ensures
        r is Some <==> old(pool)@.len() > 0,
        old(pool)@.len() == 0 ==> final(pool)@ == old(pool)@ && final(db).original_wallpapers@
            == old(db).original_wallpapers@,
        r matches Some(c) ==> ({
            let end = assemble_one_spec(
                old(pool)@,
                old(db).original_wallpapers@,
                target,
                min_height as int,
                max_height as int,
            );
            &&& c.provenance@ == end.provenance
            &&& c.dims.width == end.width
            &&& c.dims.height == end.height
            &&& c.subsumed@ == end.subsumed
            &&& final(pool)@ == end.pool
            &&& final(db).original_wallpapers@ == end.walls
        }),
        images_wf(final(pool)@),
        walls_wf(final(db).original_wallpapers@),
{
    let ghost pool0 = old(pool)@;
    let ghost walls0 = old(db).original_wallpapers@;
    let seed = match pool.pop() {
        None => {
            return None;
        },
        Some(s) => s,
    };
    let ghost init = seed_assembly(pool0, walls0, min_height as int, max_height as int);
    let ghost end = assemble_loop(init, target);
    let mut d = Dims { width: seed.ratio.num, height: seed.ratio.den };
    let _seed_plan = Image::fit(&mut d, min_height, max_height);
    let mut provenance: Vec<Image> = Vec::new();
    provenance.push(seed);
    let mut subsumed: Vec<Image> = Vec::new();
    proof {
        assert(pool@ =~= pool0.drop_last());
        assert(provenance@ =~= seq![pool0.last()]);
        assert(assembly(
            pool@,
            db.original_wallpapers@,
            provenance@,
            d.width as int,
            d.height as int,
            subsumed@,
        ) == init);
    }
    let mut done = false;
    while !done
        invariant
            images_wf(pool@),
            walls_wf(db.original_wallpapers@),
            d.height > 0,
            assemble_loop(
                assembly(
                    pool@,
                    db.original_wallpapers@,
                    provenance@,
                    d.width as int,
                    d.height as int,
                    subsumed@,
                ),
                target,
            ) == end,
            loop_fits(
                assembly(
                    pool@,
                    db.original_wallpapers@,
                    provenance@,
                    d.width as int,
                    d.height as int,
                    subsumed@,
                ),
                target,
            ),
            done ==> terminal(
                assembly(
                    pool@,
                    db.original_wallpapers@,
                    provenance@,
                    d.width as int,
                    d.height as int,
                    subsumed@,
                ),
                target,
            ),
        decreases pool.len() + db.original_wallpapers.len() + (if done { 0int } else { 1int }),
    {
        let ghost cur = assembly(
            pool@,
            db.original_wallpapers@,
            provenance@,
            d.width as int,
            d.height as int,
            subsumed@,
        );
        match next_action(pool, db, target, d.width, d.height) {
            Action::Finish => {
                proof {
                    assert(terminal(cur, target));
                }
                done = true;
            },
            Action::TakePool(i) => {
                proof {
                    assert(first_fit(pool_ratios(cur.pool), target, cur.width, cur.height)
                        == Some(i as int));
                    assert(assemble_loop(cur, target) == assemble_loop(
                        take_pool_step(cur, i as int),
                        target,
                    ));
                    assert(fit_ok(cur.pool[i as int].ratio, cur.height, cur.height));
                }
                let img = pool.remove(i);
                let mut cd = Dims { width: img.ratio.num, height: img.ratio.den };
                let _plan = Image::fit(&mut cd, d.height, d.height);
                proof {
                    assert(cd.height == d.height);
                }
                d.width = d.width + cd.width;
                provenance.push(img);
                proof {
                    assert(assembly(
                        pool@,
                        db.original_wallpapers@,
                        provenance@,
                        d.width as int,
                        d.height as int,
                        subsumed@,
                    ) == take_pool_step(cur, i as int));
                    assert forall|k: int| 0 <= k < pool@.len() implies pool@[k].wf() by {
                        assert(pool@[k] == if k < i as int {
                            cur.pool[k]
                        } else {
                            cur.pool[k + 1]
                        });
                    }
                }
            },
            Action::TakeCache(j) => {
                proof {
                    assert(first_fit(wall_ratios(cur.walls), target, cur.width, cur.height)
                        == Some(j as int));
                    assert(assemble_loop(cur, target) == assemble_loop(
                        subsume_step(cur, j as int),
                        target,
                    ));
                    assert(fit_ok(
                        cur.walls[j as int].wallpaper_image.ratio,
                        cur.height,
                        cur.height,
                    ));
                }
                let wp = db.original_wallpapers.remove(j);
                let Wallpaper { original_images: mut srcs, wallpaper_image } = wp;
                let mut cd = Dims { width: wallpaper_image.ratio.num, height: wallpaper_image.ratio.den };
                let _plan = Image::fit(&mut cd, d.height, d.height);
                proof {
                    assert(cd.height == d.height);
                }
                d.width = d.width + cd.width;
                srcs.append(&mut provenance);
                let keep = wallpaper_image.clone();
                srcs.push(keep);
                provenance = srcs;
                subsumed.push(wallpaper_image);
                proof {
                    assert(provenance@ =~= cur.walls[j as int].original_images@ + cur.provenance
                        + seq![cur.walls[j as int].wallpaper_image]);
                    assert(assembly(
                        pool@,
                        db.original_wallpapers@,
                        provenance@,
                        d.width as int,
                        d.height as int,
                        subsumed@,
                    ) == subsume_step(cur, j as int));
                    assert forall|k: int|
                        0 <= k < db.original_wallpapers@.len() implies db.original_wallpapers@[k].wallpaper_image.wf() by {
                        assert(db.original_wallpapers@[k] == if k < j as int {
                            cur.walls[k]
                        } else {
                            cur.walls[k + 1]
                        });
                    }
                }
            },
        }
    }
    proof {
        let cur = assembly(
            pool@,
            db.original_wallpapers@,
            provenance@,
            d.width as int,
            d.height as int,
            subsumed@,
        );
        assert(assemble_loop(cur, target) == cur);
    }
    Some(Composite { provenance, dims: d, subsumed })
}

/// A seed that already meets the target aspect once normalized yields a
/// single-image composite: its provenance is the seed alone, nothing is
/// concatenated, and neither the rest of the pool nor the cache is touched.
pub proof fn lemma_seed_meets_target_single_image(
    pool: Seq<Image>,
    walls: Seq<Wallpaper>,
    t: Ratio,
    min: int,
    max: int,
)
    requires
        pool.len() > 0,
        !aspect_lt(
            seed_assembly(pool, walls, min, max).width,
            seed_assembly(pool, walls, min, max).height,
            t,
        ),
    ensures
        assemble_one_spec(pool, walls, t, min, max) == seed_assembly(pool, walls, min, max),
        assemble_one_spec(pool, walls, t, min, max).provenance =~= seq![pool.last()],
        assemble_one_spec(pool, walls, t, min, max).pool == pool.drop_last(),
        assemble_one_spec(pool, walls, t, min, max).walls == walls,
        assemble_one_spec(pool, walls, t, min, max).subsumed =~= Seq::<Image>::empty(),
{
}

/// A seed whose ratio is at least the target, and whose normalization stops
/// at the upscale stage, yields a single-image composite: a pure upscale
/// preserves the aspect ratio exactly, so the working aspect already meets
/// the target.
pub proof fn lemma_wide_seed_single_image(
    pool: Seq<Image>,
    walls: Seq<Wallpaper>,
    t: Ratio,
    min: int,
    max: int,
)
    requires
        pool.len() > 0,
        pool.last().wf(),
        t.wf(),
        ratio_ge(pool.last().ratio, t),
        !crate::image::spec_needs_clamp(pool.last().ratio.den as int, min, max),
    ensures
        assemble_one_spec(pool, walls, t, min, max) == seed_assembly(pool, walls, min, max),
        assemble_one_spec(pool, walls, t, min, max).provenance =~= seq![pool.last()],
        assemble_one_spec(pool, walls, t, min, max).pool == pool.drop_last(),
        assemble_one_spec(pool, walls, t, min, max).walls == walls,
        assemble_one_spec(pool, walls, t, min, max).subsumed =~= Seq::<Image>::empty(),
{
    let seed = pool.last();
    let f = spec_upscale_factor(seed.ratio.den as int, min);
    let s = seed_assembly(pool, walls, min, max);
    assert(s.width == (seed.ratio.num as int) * f);
    assert(s.height == (seed.ratio.den as int) * f);
    assert(!aspect_lt((seed.ratio.num as int) * f, (seed.ratio.den as int) * f, t))
        by (nonlinear_arith)
        requires
            f >= 1,
            (seed.ratio.num as int) * (t.den as int) >= (t.num as int) * (seed.ratio.den as int),
    ;
    lemma_seed_meets_target_single_image(pool, walls, t, min, max);
}

/// Relies on rand's `SliceRandom::shuffle`: it permutes the elements in
/// place, so the contents as a multiset are kept; only the order changes.
#[verifier::external_body]
pub fn shuffle_pool(pool: &mut Vec<Image>)
    ensures
        final(pool)@.to_multiset() == old(pool)@.to_multiset(),
        final(pool)@.len() == old(pool)@.len(),
{
    pool.shuffle(&mut rand::thread_rng());
}

/// One run's preparation: invalidates every cached composite with a source
/// missing from the catalog, keeps only the catalog images no surviving
/// composite already covers, and randomizes their order. Returns the
/// shuffled pool and the invalidated records, whose composite files must be
/// deleted from disk.
pub fn prepare_pool(catalog: Vec<Image>, db: &mut WallpaperDatabase) -> (r: (
    Vec<Image>,
    Vec<Wallpaper>,
))
    ensures
        final(db).original_wallpapers@ == crate::database::surviving(
            old(db).original_wallpapers@,
            catalog@,
        ),
        r.1@ == crate::database::invalidated(old(db).original_wallpapers@, catalog@),
        r.0@.to_multiset() == crate::database::regen_pool(
            catalog@,
            crate::database::surviving(old(db).original_wallpapers@, catalog@),
        ).to_multiset(),
        r.0@.len() == crate::database::regen_pool(
            catalog@,
            crate::database::surviving(old(db).original_wallpapers@, catalog@),
        ).len(),
{
    let removed = db.delete_missing(&catalog);
    let mut pool = db.get_regen_image_paths(catalog);
    shuffle_pool(&mut pool);
    (pool, removed)
}

} // verus!
