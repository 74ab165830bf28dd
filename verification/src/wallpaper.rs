use vstd::prelude::*;
use crate::image::Image;

verus! {

/// The provenance of one composite: the ordered source images it consumed
/// (including those carried forward from a subsumed composite) and the
/// record of the composite file itself.
#[derive(Debug)]
pub struct Wallpaper {
    pub original_images: Vec<Image>,
    pub wallpaper_image: Image,
}

/// Does the catalog hold an entry with this filename? Identity is the
/// filename, assumed unique within a run.
pub open spec fn catalog_has_filename(catalog: Seq<Image>, name: Seq<char>) -> bool {
    exists|i: int| 0 <= i < catalog.len() && catalog[i].filename@ == name
}

/// Scan for a filename in a list of images.
pub fn catalog_contains(catalog: &Vec<Image>, name: &String) -> (r: bool)
    ensures
        r == catalog_has_filename(catalog@, name@),
{
    let mut i: usize = 0;
    while i < catalog.len()
        invariant
            0 <= i <= catalog.len(),
            forall|k: int| 0 <= k < i ==> catalog@[k].filename@ != name@,
        decreases catalog.len() - i,
    {
        if catalog[i].filename == *name {
            return true;
        }
        i = i + 1;
    }
    false
}

impl Wallpaper {
    pub open spec fn wf(self) -> bool {
        self.wallpaper_image.wf() && forall|i: int|
            0 <= i < self.original_images@.len() ==> self.original_images@[i].wf()
    }

    pub fn new(original_images: Vec<Image>, wallpaper_image: Image) -> (r: Wallpaper)
        ensures
            r.original_images == original_images,
            r.wallpaper_image == wallpaper_image,
    {
        Wallpaper { original_images, wallpaper_image }
    }

    /// Some source image of this composite carries the given filename.
    pub open spec fn spec_contains_image(self, name: Seq<char>) -> bool {
        catalog_has_filename(self.original_images@, name)
    }

    pub fn contains_image(&self, image: &Image) -> (r: bool)
        ensures
            r == self.spec_contains_image(image.filename@),
    {
        catalog_contains(&self.original_images, &image.filename)
    }

    /// A wallpaper is invalid against a catalog when at least one of its
    /// sources is absent from the catalog (by filename). A single missing
    /// source invalidates the whole composite.
    pub open spec fn spec_invalid(self, catalog: Seq<Image>) -> bool {
        exists|i: int|
            0 <= i < self.original_images@.len() && !catalog_has_filename(
                catalog,
                self.original_images@[i].filename@,
            )
    }

    pub fn invalid(&self, images: &Vec<Image>) -> (r: bool)
        ensures
            r == self.spec_invalid(images@),
    {
        let mut i: usize = 0;
        while i < self.original_images.len()
            invariant
                0 <= i <= self.original_images.len(),
                forall|k: int|
                    0 <= k < i ==> catalog_has_filename(
                        images@,
                        self.original_images@[k].filename@,
                    ),
            decreases self.original_images.len() - i,
        {
            if !catalog_contains(images, &self.original_images[i].filename) {
                return true;
            }
            i = i + 1;
        }
        false
    }
}

} // verus!
