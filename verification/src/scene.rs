//! Scene bookkeeping.
//!
//! A scene is an append-only collection: an ordered sequence of
//! primitives, a parallel sequence of indices into the renderer's
//! material table, and a sequence of lights.  Primitives and lights carry
//! floating-point geometry, so their payload types are generic and live
//! with the host program; what is verified here is the bookkeeping the
//! renderer relies on — the two parallel sequences stay in step, nothing
//! is ever removed or reordered, and every material index can be checked
//! against the table before rendering starts.

use vstd::prelude::*;

verus! {

/// An append-only scene over primitive payload `P` and light payload `L`.
pub struct Scene<P, L> {
    primitives: Vec<P>,
    material_index: Vec<usize>,
    lights: Vec<L>,
}

impl<P, L> Scene<P, L> {
    /// The primitives, in insertion order.
    pub closed spec fn spec_primitives(self) -> Seq<P> {
        self.primitives@
    }

    /// Material table index of each primitive: primitive `k` is shaded
    /// with material `spec_material_index()[k]`.
    pub closed spec fn spec_material_index(self) -> Seq<usize> {
        self.material_index@
    }

    /// The lights, in insertion order.
    pub closed spec fn spec_lights(self) -> Seq<L> {
        self.lights@
    }

    /// Each primitive has exactly one material index.
    pub open spec fn wf(self) -> bool {
        self.spec_primitives().len() == self.spec_material_index().len()
    }

    /// An empty scene.
    pub fn new() -> (r: Scene<P, L>)
        ensures
            r.wf(),
            r.spec_primitives().len() == 0,
            r.spec_material_index().len() == 0,
            r.spec_lights().len() == 0,
    {
        Scene { primitives: Vec::new(), material_index: Vec::new(), lights: Vec::new() }
    }

    /// Appends a primitive shaded with material `material_idx`; everything
    /// already in the scene keeps its place.
    pub fn add_primitive(&mut self, primitive: P, material_idx: usize)
        requires
            old(self).wf(),
        ensures
            final(self).wf(),
            final(self).spec_primitives() == old(self).spec_primitives().push(primitive),
            final(self).spec_material_index() == old(self).spec_material_index().push(
                material_idx,
            ),
            final(self).spec_lights() == old(self).spec_lights(),
    {
        self.primitives.push(primitive);
        self.material_index.push(material_idx);
    }

    /// Appends one light.
    pub fn add_light(&mut self, light: L)
        ensures
            final(self).spec_primitives() == old(self).spec_primitives(),
            final(self).spec_material_index() == old(self).spec_material_index(),
            final(self).spec_lights() == old(self).spec_lights().push(light),
    {
        self.lights.push(light);
    }

    /// Appends a batch of lights, keeping their order.
    pub fn add_lights(&mut self, lights: Vec<L>)
        ensures
            final(self).spec_primitives() == old(self).spec_primitives(),
            final(self).spec_material_index() == old(self).spec_material_index(),
            final(self).spec_lights() == old(self).spec_lights() + lights@,
    {
        let mut batch = lights;
        let ghost incoming: Seq<L> = batch@;
        while batch.len() > 0
            invariant
                self.primitives@ == old(self).primitives@,
                self.material_index@ == old(self).material_index@,
                self.lights@ + batch@ == old(self).lights@ + incoming,
            decreases batch.len(),
        {
            let light = batch.remove(0);
            self.lights.push(light);
        }
        proof {
            assert(self.lights@ =~= old(self).lights@ + incoming);
        }
    }

    /// Read-only view of the primitives.
    pub fn primitives(&self) -> (r: &Vec<P>)
        ensures
            r@ == self.spec_primitives(),
    {
        &self.primitives
    }

    /// Read-only view of the material indices.
    pub fn material_index(&self) -> (r: &Vec<usize>)
        ensures
            r@ == self.spec_material_index(),
    {
        &self.material_index
    }

    /// Read-only view of the lights.
    pub fn lights(&self) -> (r: &Vec<L>)
        ensures
            r@ == self.spec_lights(),
    {
        &self.lights
    }

    /// The configuration check made at render entry: every material index
    /// of the scene names an entry of a material table with
    /// `material_count` entries.
    pub fn materials_in_range(&self, material_count: usize) -> (r: bool)
        ensures
            r == forall|k: int|
                0 <= k < self.spec_material_index().len()
                    ==> (#[trigger] self.spec_material_index()[k]) < material_count,
    {
        let n: usize = self.material_index.len();
        let mut k: usize = 0;
        while k < n
            invariant
                k <= n,
                n == self.material_index.len(),
                forall|m: int|
                    0 <= m < k ==> (#[trigger] self.material_index@[m]) < material_count,
            decreases n - k,
        {
            if self.material_index[k] >= material_count {
                proof {
                    assert(self.spec_material_index()[k as int] >= material_count);
                }
                return false;
            }
            k = k + 1;
        }
        true
    }
}

} // verus!
