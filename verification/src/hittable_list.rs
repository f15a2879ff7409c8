//! A flat collection of surfaces probed in order; the closest hit wins.

use vstd::prelude::*;
use crate::surface::Surface;

verus! {

/// A list of surfaces.
pub struct HittableList {
    pub objects: Vec<Surface>,
}

impl Default for HittableList {
    /// The empty list.
    fn default() -> (r: HittableList)
        ensures
            r.objects@ =~= Seq::<Surface>::empty(),
    {
        HittableList { objects: Vec::new() }
    }
}

impl HittableList {
    /// A list holding one surface.
    pub fn new(object: Surface) -> (r: HittableList)
        ensures
            r.objects@ =~= seq![object],
    {
        let mut objects: Vec<Surface> = Vec::new();
        objects.push(object);
        HittableList { objects }
    }

    /// The empty list.
    pub fn empty() -> (r: HittableList)
        ensures
            r.objects@ =~= Seq::<Surface>::empty(),
    {
        HittableList { objects: Vec::new() }
    }

    /// The surfaces held.
    pub fn objects(&self) -> (r: &Vec<Surface>)
        ensures
            r == &self.objects,
    {
        &self.objects
    }

    /// Append a surface.
    pub fn add(&mut self, object: Surface)
        ensures
            final(self).objects@ == old(self).objects@.push(object),
    {
        self.objects.push(object);
    }
}

} // verus!
