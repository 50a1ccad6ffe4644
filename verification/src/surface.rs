//! The retained tree of surfaces.
//!
//! A surface owns its children; their order is paint order. Within one
//! parent no two children share an id: adding a child whose id is already
//! present moves it instead of duplicating it.

use vstd::prelude::*;
use crate::geometry::ComputedLayout;
use crate::style::{Border, BorderRadius, BoxShadow, Color, Image, Text};

verus! {

/// Identifies a surface; also its picking tag and its key into the layout table.
pub type SurfaceId = u16;

/// A node of the scene graph: paint attributes and children.
#[derive(Debug)]
pub struct Surface {
    pub id: SurfaceId,
    pub background_color: Option<Color>,
    pub border: Option<Border>,
    pub border_radius: Option<BorderRadius>,
    pub box_shadow: Option<BoxShadow>,
    pub image: Option<Image>,
    pub text: Option<Text>,
    pub children: Vec<Surface>,
}

/// No two of the surfaces share an id.
pub open spec fn distinct_ids(surfaces: Seq<Surface>) -> bool {
    forall|i: int, j: int|
        0 <= i < j < surfaces.len() ==> (#[trigger] surfaces[i]).id != (#[trigger] surfaces[j]).id
}

/// `at` is the place of the first of the surfaces whose id is `id`.
pub open spec fn is_first_with_id(surfaces: Seq<Surface>, id: SurfaceId, at: int) -> bool {
    &&& 0 <= at < surfaces.len()
    &&& surfaces[at].id == id
    &&& forall|j: int| 0 <= j < at ==> (#[trigger] surfaces[j]).id != id
}

/// None of the surfaces has the id `id`.
pub open spec fn lacks_id(surfaces: Seq<Surface>, id: SurfaceId) -> bool {
    forall|j: int| 0 <= j < surfaces.len() ==> (#[trigger] surfaces[j]).id != id
}

/// The place of the first surface whose id is `id`, or the length where there is none.
pub open spec fn position_of(surfaces: Seq<Surface>, id: SurfaceId) -> int {
    if exists|at: int| is_first_with_id(surfaces, id, at) {
        choose|at: int| is_first_with_id(surfaces, id, at)
    } else {
        surfaces.len() as int
    }
}

/// The surfaces without the first one whose id is `id`.
pub open spec fn without_id(surfaces: Seq<Surface>, id: SurfaceId) -> Seq<Surface> {
    if position_of(surfaces, id) < surfaces.len() {
        surfaces.remove(position_of(surfaces, id))
    } else {
        surfaces
    }
}

/// Two places that are both first for an id are the same place.
pub proof fn lemma_first_is_unique(surfaces: Seq<Surface>, id: SurfaceId, a: int, b: int)
    requires
        is_first_with_id(surfaces, id, a),
        is_first_with_id(surfaces, id, b),
    ensures
        a == b,
{
    if a < b {
        assert(surfaces[a].id != id);
    } else if b < a {
        assert(surfaces[b].id != id);
    }
}

/// `position_of` is the first place with the id where there is one, the length otherwise.
pub proof fn lemma_position_of(surfaces: Seq<Surface>, id: SurfaceId)
    ensures
        0 <= position_of(surfaces, id) <= surfaces.len(),
        position_of(surfaces, id) < surfaces.len() ==> is_first_with_id(
            surfaces,
            id,
            position_of(surfaces, id),
        ),
        position_of(surfaces, id) == surfaces.len() ==> lacks_id(surfaces, id),
{
    if exists|at: int| is_first_with_id(surfaces, id, at) {
    } else {
        assert forall|j: int| 0 <= j < surfaces.len() implies (#[trigger] surfaces[j]).id
            != id by {
            if surfaces[j].id == id {
                lemma_some_first(surfaces, id, j);
            }
        }
    }
}

/// Where some surface up to `upto` has the id, some place is first for it.
proof fn lemma_some_first(surfaces: Seq<Surface>, id: SurfaceId, upto: int)
    requires
        0 <= upto < surfaces.len(),
        surfaces[upto].id == id,
    ensures
        exists|at: int| is_first_with_id(surfaces, id, at),
    decreases upto,
{
    if forall|j: int| 0 <= j < upto ==> (#[trigger] surfaces[j]).id != id {
        assert(is_first_with_id(surfaces, id, upto));
    } else {
        let j = choose|j: int| 0 <= j < upto && (#[trigger] surfaces[j]).id == id;
        lemma_some_first(surfaces, id, j);
    }
}

impl Surface {
    /// A surface with no paint attributes and no children.
    pub fn new(id: SurfaceId) -> (surface: Self)
        ensures
            surface.id == id,
            surface.background_color is None,
            surface.border is None,
            surface.border_radius is None,
            surface.box_shadow is None,
            surface.image is None,
            surface.text is None,
            surface.children@.len() == 0,
            surface.well_formed(),
            surface.height() == 1,
    {
        let surface = Surface {
            id,
            background_color: None,
            border: None,
            border_radius: None,
            box_shadow: None,
            image: None,
            text: None,
            children: Vec::new(),
        };
        assert(surface.tallest_of(0) == 0);
        surface
    }

    /// Sibling ids are distinct, at every level of the tree.
    pub open spec fn well_formed(self) -> bool
        decreases self,
    {
        &&& distinct_ids(self.children@)
        &&& forall|i: int|
            0 <= i < self.children@.len() ==> (#[trigger] self.children@[i]).well_formed()
    }

    /// The number of surfaces on the longest path from this surface down to a leaf.
    pub open spec fn height(self) -> nat
        decreases self, self.children@.len() + 1,
    {
        1 + self.tallest_of(self.children@.len())
    }

    /// The greatest height among the first `n` children; 0 where there is none.
    pub open spec fn tallest_of(self, n: nat) -> nat
        decreases self, n,
    {
        if n == 0 || n > self.children@.len() {
            0
        } else {
            let rest = self.tallest_of((n - 1) as nat);
            let last = self.children@[n - 1].height();
            if last > rest {
                last
            } else {
                rest
            }
        }
    }

    /// This surface and every surface below it has an entry in the table.
    pub open spec fn covered_by(self, layouts: Seq<ComputedLayout>) -> bool
        decreases self,
    {
        &&& self.id < layouts.len()
        &&& forall|i: int|
            0 <= i < self.children@.len() ==> (#[trigger] self.children@[i]).covered_by(layouts)
    }

    /// None of the first `n` children is higher than the highest of them.
    pub proof fn lemma_tallest_bounds(self, n: nat, i: int)
        requires
            0 <= i < n <= self.children@.len(),
        ensures
            self.children@[i].height() <= self.tallest_of(n),
        decreases n,
    {
        if i < n - 1 {
            self.lemma_tallest_bounds((n - 1) as nat, i);
        }
    }

    /// One of the first `n` children is as high as the highest of them.
    pub proof fn lemma_tallest_attained(self, n: nat) -> (i: int)
        requires
            0 < n <= self.children@.len(),
        ensures
            0 <= i < n,
            self.children@[i].height() == self.tallest_of(n),
        decreases n,
    {
        let last = self.children@[n - 1].height();
        if n == 1 {
            assert(self.tallest_of(0) == 0);
            0
        } else if last > self.tallest_of((n - 1) as nat) {
            n - 1
        } else {
            self.lemma_tallest_attained((n - 1) as nat)
        }
    }

    /// A child is lower than its parent.
    pub proof fn lemma_child_is_lower(self, i: int)
        requires
            0 <= i < self.children@.len(),
        ensures
            self.children@[i].height() < self.height(),
    {
        self.lemma_tallest_bounds(self.children@.len(), i);
    }

    /// The highest of the first `n` children is no higher than a bound that
    /// holds of each of them.
    pub proof fn lemma_tallest_within(self, n: nat, bound: nat)
        requires
            n <= self.children@.len(),
            forall|i: int| 0 <= i < n ==> (#[trigger] self.children@[i]).height() <= bound,
        ensures
            self.tallest_of(n) <= bound,
        decreases n,
    {
        if n > 0 {
            self.lemma_tallest_within((n - 1) as nat, bound);
        }
    }

    /// Whether the tree is at most `limit` levels deep.
    pub fn fits_depth(&self, limit: usize) -> (fits: bool)
        ensures
            fits == (self.height() <= limit),
        decreases self,
    {
        if limit == 0 {
            return false;
        }
        let mut i: usize = 0;
        while i < self.children.len()
            invariant
                0 <= i <= self.children@.len(),
                limit > 0,
                forall|k: int| 0 <= k < i ==> (#[trigger] self.children@[k]).height() <= limit - 1,
            decreases self.children@.len() - i,
        {
            if !self.children[i].fits_depth(limit - 1) {
                proof {
                    self.lemma_tallest_bounds(self.children@.len(), i as int);
                }
                return false;
            }
            i += 1;
        }
        proof {
            self.lemma_tallest_within(self.children@.len(), (limit - 1) as nat);
        }
        true
    }

    /// Whether the table has an entry for this surface and every surface below it.
    pub fn is_covered_by(&self, layouts: &Vec<ComputedLayout>) -> (covered: bool)
        ensures
            covered == self.covered_by(layouts@),
        decreases self,
    {
        if self.id as usize >= layouts.len() {
            return false;
        }
        let mut i: usize = 0;
        while i < self.children.len()
            invariant
                0 <= i <= self.children@.len(),
                self.id < layouts@.len(),
                forall|k: int| 0 <= k < i ==> (#[trigger] self.children@[k]).covered_by(layouts@),
            decreases self.children@.len() - i,
        {
            if !self.children[i].is_covered_by(layouts) {
                return false;
            }
            i += 1;
        }
        true
    }

    /// The surface differs from `other` at most in its children.
    pub open spec fn same_paint_as(self, other: Surface) -> bool {
        &&& self.id == other.id
        &&& self.background_color == other.background_color
        &&& self.border == other.border
        &&& self.border_radius == other.border_radius
        &&& self.box_shadow == other.box_shadow
        &&& self.image == other.image
        &&& self.text == other.text
    }

    /// The place of the first child with the id, if any child has it.
    pub fn find_child(&self, id: SurfaceId) -> (found: Option<usize>)
        ensures
            match found {
                Some(at) => is_first_with_id(self.children@, id, at as int),
                None => lacks_id(self.children@, id),
            },
            found matches Some(at) ==> at == position_of(self.children@, id),
            found is None ==> position_of(self.children@, id) == self.children@.len(),
    {
        let mut i: usize = 0;
        while i < self.children.len()
            invariant
                0 <= i <= self.children@.len(),
                forall|j: int| 0 <= j < i ==> (#[trigger] self.children@[j]).id != id,
            decreases self.children@.len() - i,
        {
            if self.children[i].id == id {
                proof {
                    assert(is_first_with_id(self.children@, id, i as int));
                    lemma_position_of(self.children@, id);
                    lemma_first_is_unique(
                        self.children@,
                        id,
                        i as int,
                        position_of(self.children@, id),
                    );
                }
                return Some(i);
            }
            i += 1;
        }
        proof {
            lemma_position_of(self.children@, id);
            if position_of(self.children@, id) < self.children@.len() {
                assert(self.children@[position_of(self.children@, id)].id == id);
            }
        }
        None
    }

    /// Takes the first child with the id out of the tree and hands it
    /// over, with its subtree. The other children keep their order.
    pub fn remove_child(&mut self, id: SurfaceId) -> (removed: Option<Surface>)
        ensures
            final(self).same_paint_as(*old(self)),
            final(self).children@ == without_id(old(self).children@, id),
            match removed {
                Some(child) => {
                    &&& position_of(old(self).children@, id) < old(self).children@.len()
                    &&& child == old(self).children@[position_of(old(self).children@, id)]
                },
                None => lacks_id(old(self).children@, id),
            },
            old(self).well_formed() ==> final(self).well_formed(),
            old(self).well_formed() ==> lacks_id(final(self).children@, id),
    {
        match self.find_child(id) {
            Some(at) => {
                let child = self.children.remove(at);
                proof {
                    lemma_without_keeps_distinct(old(self).children@, id);
                }
                Some(child)
            },
            None => None,
        }
    }

    /// Makes `child` the last child. A child that is already there under
    /// the same id is taken out first: the child moves to the end and is
    /// never there twice.
    pub fn append_child(&mut self, child: Surface)
        ensures
            final(self).same_paint_as(*old(self)),
            final(self).children@ == without_id(old(self).children@, child.id).push(child),
            old(self).well_formed() && child.well_formed() ==> final(self).well_formed(),
    {
        match self.find_child(child.id) {
            Some(at) => {
                self.children.remove(at);
            },
            None => {},
        }
        proof {
            lemma_without_keeps_distinct(old(self).children@, child.id);
        }
        self.children.push(child);
    }

    /// Puts `child` in front of the first child whose id is `before`; at
    /// the end where no child has that id. A child that is already there
    /// under the id of `child` is taken out first.
    pub fn insert_before(&mut self, child: Surface, before: SurfaceId)
        ensures
            final(self).same_paint_as(*old(self)),
            final(self).children@ == without_id(old(self).children@, child.id).insert(
                position_of(without_id(old(self).children@, child.id), before),
                child,
            ),
            old(self).well_formed() && child.well_formed() ==> final(self).well_formed(),
    {
        match self.find_child(child.id) {
            Some(at) => {
                self.children.remove(at);
            },
            None => {},
        }
        proof {
            lemma_without_keeps_distinct(old(self).children@, child.id);
        }
        let at = match self.find_child(before) {
            Some(at) => at,
            None => self.children.len(),
        };
        self.children.insert(at, child);
    }
}

/// Taking the first surface with an id out of surfaces with distinct ids
/// leaves distinct ids, and none with that id.
pub proof fn lemma_without_keeps_distinct(surfaces: Seq<Surface>, id: SurfaceId)
    ensures
        distinct_ids(surfaces) ==> distinct_ids(without_id(surfaces, id)),
        distinct_ids(surfaces) ==> lacks_id(without_id(surfaces, id), id),
        forall|i: int|
            0 <= i < without_id(surfaces, id).len() ==> surfaces.contains(
                #[trigger] without_id(surfaces, id)[i],
            ),
{
    lemma_position_of(surfaces, id);
    let at = position_of(surfaces, id);
    let rest = without_id(surfaces, id);
    assert forall|i: int| 0 <= i < rest.len() implies surfaces.contains(#[trigger] rest[i]) by {
        if at < surfaces.len() && i >= at {
            assert(rest[i] == surfaces[i + 1]);
        } else {
            assert(rest[i] == surfaces[i]);
        }
    }
    if distinct_ids(surfaces) {
        assert forall|i: int, j: int| 0 <= i < j < rest.len() implies (#[trigger] rest[i]).id != (
        #[trigger] rest[j]).id by {
            if at < surfaces.len() {
                let a = if i < at { i } else { i + 1 };
                let b = if j < at { j } else { j + 1 };
                assert(rest[i] == surfaces[a]);
                assert(rest[j] == surfaces[b]);
            }
        }
        assert forall|j: int| 0 <= j < rest.len() implies (#[trigger] rest[j]).id != id by {
            if at < surfaces.len() {
                let b = if j < at { j } else { j + 1 };
                assert(rest[j] == surfaces[b]);
                assert(surfaces[at].id == id);
            }
        }
    }
}

} // verus!
