//! The scene: an insertion-ordered sequence of owned primitives, grown by
//! appending and edited in place by fixed positional steps.

use vstd::prelude::*;
use crate::world::{Primitive, Axis, StepDir, prim_moved};

verus! {

pub struct Scene {
    pub objects: Vec<Primitive>,
}

impl View for Scene {
    type V = Seq<Primitive>;

    open spec fn view(&self) -> Seq<Primitive> {
        self.objects@
    }
}

impl Scene {
    /// Every primitive's parameters are representable scalars.
    pub open spec fn wf(self) -> bool {
        forall|i: int| 0 <= i < self@.len() ==> (#[trigger] self@[i]).wf()
    }

    pub fn new() -> (s: Scene)
        ensures
            s@ == Seq::<Primitive>::empty(),
    {
        Scene { objects: Vec::new() }
    }

    pub fn len(&self) -> (n: usize)
        ensures
            n == self@.len(),
    {
        self.objects.len()
    }

    pub fn get(&self, i: usize) -> (p: &Primitive)
        requires
            i < self@.len(),
        ensures
            *p == self@[i as int],
    {
        &self.objects[i]
    }

    /// Append a primitive; the iteration order is the insertion order.
    pub fn add(&mut self, p: Primitive)
        ensures
            final(self)@ == old(self)@.push(p),
    {
        self.objects.push(p);
    }

    /// One fixed-step positional edit of the primitive at `idx`.
    pub fn mutate(&mut self, idx: usize, axis: Axis, dir: StepDir)
        requires
            idx < old(self)@.len(),
        ensures
            final(self)@ == old(self)@.update(
                idx as int,
                prim_moved(old(self)@[idx as int], axis, dir),
            ),
    {
        let mut p: Primitive = *self.get(idx);
        p.step(axis, dir);
        self.objects.set(idx, p);
    }
}

} // verus!
