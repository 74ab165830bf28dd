use vstd::prelude::*;
use crate::image::Image;
use crate::wallpaper::Wallpaper;

verus! {

/// The persisted cache: every composite a previous run produced, with the
/// sources each consumed. Loaded once at the start of a run, mutated only
/// in memory, persisted once at the end.
#[derive(Debug)]
pub struct WallpaperDatabase {
    pub original_wallpapers: Vec<Wallpaper>,
}

/// The wallpapers that survive invalidation against `catalog`, in order.
pub open spec fn surviving(walls: Seq<Wallpaper>, catalog: Seq<Image>) -> Seq<Wallpaper> {
    walls.filter(|w: Wallpaper| !w.spec_invalid(catalog))
}

/// The wallpapers that `catalog` invalidates, in order.
pub open spec fn invalidated(walls: Seq<Wallpaper>, catalog: Seq<Image>) -> Seq<Wallpaper> {
    walls.filter(|w: Wallpaper| w.spec_invalid(catalog))
}

/// Is `name` a source inside some wallpaper of the list?
pub open spec fn referenced_in(walls: Seq<Wallpaper>, name: Seq<char>) -> bool {
    exists|j: int| 0 <= j < walls.len() && walls[j].spec_contains_image(name)
}

/// The catalog entries not referenced as a source in any wallpaper: the
/// regen pool, in catalog order. These are the only images a run must
/// still process.
pub open spec fn regen_pool(catalog: Seq<Image>, walls: Seq<Wallpaper>) -> Seq<Image> {
    catalog.filter(|img: Image| !referenced_in(walls, img.filename@))
}

/// One step of a prefix filter: filtering `i + 1` elements extends the
/// filter of the first `i` by the `i`th element exactly when it matches.
proof fn lemma_filter_take_step<A>(s: Seq<A>, pred: spec_fn(A) -> bool, i: int)
    requires
        0 <= i < s.len(),
    ensures
        pred(s[i]) ==> s.take(i + 1).filter(pred) == s.take(i).filter(pred).push(s[i]),
        !pred(s[i]) ==> s.take(i + 1).filter(pred) == s.take(i).filter(pred),
{
    reveal(Seq::filter);
    assert(s.take(i + 1).drop_last() =~= s.take(i));
    assert(s.take(i + 1).last() == s[i]);
}

/// Invalidation leaves only valid records: every wallpaper that survives
/// `delete_missing` has all of its sources in the catalog.
pub proof fn lemma_surviving_are_valid(walls: Seq<Wallpaper>, catalog: Seq<Image>, i: int)
    requires
        0 <= i < surviving(walls, catalog).len(),
    ensures
        !surviving(walls, catalog)[i].spec_invalid(catalog),
{
    let pred = |w: Wallpaper| !w.spec_invalid(catalog);
    walls.lemma_filter_pred(pred, i);
    assert(pred(surviving(walls, catalog)[i]));
}

/// The regen pool never holds an image already counted inside a stored
/// wallpaper's sources.
pub proof fn lemma_regen_pool_not_referenced(catalog: Seq<Image>, walls: Seq<Wallpaper>, i: int)
    requires
        0 <= i < regen_pool(catalog, walls).len(),
    ensures
        !referenced_in(walls, regen_pool(catalog, walls)[i].filename@),
{
    let pred = |img: Image| !referenced_in(walls, img.filename@);
    catalog.lemma_filter_pred(pred, i);
    assert(pred(regen_pool(catalog, walls)[i]));
}

impl WallpaperDatabase {
    pub open spec fn wf(self) -> bool {
        forall|i: int|
            0 <= i < self.original_wallpapers@.len() ==> self.original_wallpapers@[i].wf()
    }

    /// The empty cache: what a run starts from when no cache file exists.
    pub fn new() -> (r: WallpaperDatabase)
        ensures
            r.original_wallpapers@ == Seq::<Wallpaper>::empty(),
            r.wf(),
    {
        WallpaperDatabase { original_wallpapers: Vec::new() }
    }

    /// Builds the cache from an already deserialized wallpaper list.
    pub fn from_wallpapers(wallpapers: Vec<Wallpaper>) -> (r: WallpaperDatabase)
        ensures
            r.original_wallpapers == wallpapers,
    {
        WallpaperDatabase { original_wallpapers: wallpapers }
    }

    /// Drops every wallpaper with a source missing from `images` and keeps
    /// the rest in order; returns the dropped records, in order, so that
    /// their composite files can be deleted from disk.
    #[verifier::loop_isolation(false)]
    pub fn delete_missing(&mut self, images: &Vec<Image>) -> (removed: Vec<Wallpaper>)
        ensures
            final(self).original_wallpapers@ == surviving(old(self).original_wallpapers@, images@),
            removed@ == invalidated(old(self).original_wallpapers@, images@),
    {
        let ghost orig = old(self).original_wallpapers@;
        let ghost pred_keep = |w: Wallpaper| !w.spec_invalid(images@);
        let ghost pred_drop = |w: Wallpaper| w.spec_invalid(images@);
        let mut kept: Vec<Wallpaper> = Vec::new();
        let mut removed: Vec<Wallpaper> = Vec::new();
        proof {
            assert(orig.take(0) =~= Seq::<Wallpaper>::empty());
            assert(Seq::<Wallpaper>::empty().filter(pred_keep) =~= Seq::<Wallpaper>::empty());
            assert(Seq::<Wallpaper>::empty().filter(pred_drop) =~= Seq::<Wallpaper>::empty());
        }
        while self.original_wallpapers.len() > 0
            invariant
                self.original_wallpapers@.len() <= orig.len(),
                self.original_wallpapers@ == orig.skip(
                    orig.len() - self.original_wallpapers@.len(),
                ),
                kept@ == orig.take(orig.len() - self.original_wallpapers@.len()).filter(pred_keep),
                removed@ == orig.take(orig.len() - self.original_wallpapers@.len()).filter(
                    pred_drop,
                ),
            decreases self.original_wallpapers.len(),
        {
            let ghost k = orig.len() - self.original_wallpapers@.len();
            let w = self.original_wallpapers.remove(0);
            proof {
                assert(w == orig[k]);
                assert(self.original_wallpapers@ =~= orig.skip(k + 1));
                lemma_filter_take_step(orig, pred_keep, k);
                lemma_filter_take_step(orig, pred_drop, k);
                assert(pred_keep(orig[k]) == !w.spec_invalid(images@));
                assert(pred_drop(orig[k]) == w.spec_invalid(images@));
            }
            if w.invalid(images) {
                removed.push(w);
            } else {
                kept.push(w);
            }
        }
        proof {
            assert(orig.take(orig.len() as int) =~= orig);
        }
        self.original_wallpapers = kept;
        removed
    }

    /// Is `name` a source inside some stored wallpaper?
    pub fn references(&self, image: &Image) -> (r: bool)
        ensures
            r == referenced_in(self.original_wallpapers@, image.filename@),
    {
        let mut j: usize = 0;
        while j < self.original_wallpapers.len()
            invariant
                0 <= j <= self.original_wallpapers.len(),
                forall|k: int|
                    0 <= k < j ==> !self.original_wallpapers@[k].spec_contains_image(
                        image.filename@,
                    ),
            decreases self.original_wallpapers.len() - j,
        {
            let w = &self.original_wallpapers[j];
            if w.contains_image(image) {
                return true;
            }
            j = j + 1;
        }
        false
    }

    /// The catalog entries not already accounted for by a surviving
    /// wallpaper, in catalog order: only these need processing this run.
    #[verifier::loop_isolation(false)]
    pub fn get_regen_image_paths(&self, images: Vec<Image>) -> (r: Vec<Image>)
        ensures
            r@ == regen_pool(images@, self.original_wallpapers@),
    {
        let ghost orig = images@;
        let ghost pred = |img: Image| !referenced_in(self.original_wallpapers@, img.filename@);
        let mut images = images;
        let mut out: Vec<Image> = Vec::new();
        proof {
            assert(orig.take(0) =~= Seq::<Image>::empty());
            assert(Seq::<Image>::empty().filter(pred) =~= Seq::<Image>::empty());
        }
        while images.len() > 0
            invariant
                images@.len() <= orig.len(),
                images@ == orig.skip(orig.len() - images@.len()),
                out@ == orig.take(orig.len() - images@.len()).filter(pred),
            decreases images.len(),
        {
            let ghost k = orig.len() - images@.len();
            let img = images.remove(0);
            proof {
                assert(img == orig[k]);
                assert(images@ =~= orig.skip(k + 1));
                lemma_filter_take_step(orig, pred, k);
                assert(pred(orig[k]) == !referenced_in(self.original_wallpapers@, img.filename@));
            }
            if !self.references(&img) {
                out.push(img);
            }
        }
        proof {
            assert(orig.take(orig.len() as int) =~= orig);
        }
        out
    }

    /// Appends a freshly assembled composite to the live list; nothing is
    /// written to disk until the cache is persisted.
    pub fn record_composite(&mut self, wallpaper: Wallpaper) -> (r: ())
        ensures
            final(self).original_wallpapers@ == old(self).original_wallpapers@.push(wallpaper),
    {
        self.original_wallpapers.push(wallpaper);
    }
}

} // verus!
