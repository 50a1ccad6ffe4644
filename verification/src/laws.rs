//! What holds of every compiled frame.
//!
//! A surface is named by the path that leads to it from the root, and a
//! primitive by its place in the frame. `emitted_at` says that the
//! primitive at a place is one that the surface at the end of a path emits;
//! `lemma_owner_of` shows that every place of a frame has such a path.

use vstd::prelude::*;
use vstd::relations::injective_on;
use vstd::set_lib::{lemma_int_range, lemma_len_subset, lemma_map_size, set_int_range};
use crate::compiler::{
    active_clip, background_part, border_part, declared_below, declared_clips, image_part,
    own_radius, own_visuals, paint, paint_children, renderable, shadow_clip_rect, shadow_part,
    surface_rect, text_part, MAX_DEPTH,
};
use crate::display_list::{
    is_topmost_hit, lemma_topmost_exists, lemma_topmost_is_unique, topmost_tag,
    ClipRegion, IdNamespace, ItemView, PrimitiveView,
};
use crate::geometry::{abs, ComputedLayout, LayoutPoint, ORIGIN_LIMIT, ENTRY_LIMIT};
use crate::paths::{
    block_at, block_start, border_at, clip_above, clip_at, emitted_at, entries_x_above,
    entries_y_above, lemma_block_in_frame, lemma_clip_passes_unrounded, lemma_covered_at,
    lemma_active_clip_is_registered, lemma_deepest_path, lemma_origin_is_sum, lemma_owner_of,
    lemma_path_concat, lemma_prefix_is_valid, lemma_region_owner, lemma_rounded_is_registered,
    origin_above, rect_at, region_at, surface_at, unrounded_below, valid_path, visuals_at,
};
use crate::surface::Surface;
use crate::text::LaidGlyph;

verus! {

/// Every primitive that a surface emits lies at the surface's rectangle,
/// carries the surface's id as its tag and the surface's own radius, and is
/// drawn under the clip that is active for the surface. Only a shadow may
/// reach beyond the rectangle.
pub proof fn law_primitive_belongs_to_surface(
    root: Surface,
    layouts: Seq<ComputedLayout>,
    origin: LayoutPoint,
    inherited: Option<ClipRegion>,
    runs: Seq<Vec<LaidGlyph>>,
    namespace: IdNamespace,
    path: Seq<int>,
    k: int,
)
    requires
        valid_path(root, path),
        emitted_at(root, layouts, origin, inherited, runs, namespace, path, k),
    ensures
        ({
            let primitive = paint(root, layouts, origin, inherited, runs, namespace)[k];
            let surface = surface_at(root, path);
            let rect = rect_at(root, layouts, origin, path);
            &&& primitive.layout.rect == rect
            &&& primitive.layout.tag == Some(surface.id)
            &&& primitive.border_radius == own_radius(surface)
            &&& primitive.clip == clip_at(root, layouts, origin, inherited, path)
            &&& primitive.layout.clip_rect == (if primitive.item is BoxShadow {
                shadow_clip_rect(surface.box_shadow->0, rect)
            } else {
                rect
            })
        }),
{
    let surface = surface_at(root, path);
    let rect = rect_at(root, layouts, origin, path);
    let clip = clip_at(root, layouts, origin, inherited, path);
    let visuals = own_visuals(surface, rect, clip, runs, namespace);
    assert(visuals == visuals_at(root, layouts, origin, inherited, runs, namespace, path));
    let a = shadow_part(surface, rect, clip);
    let b = background_part(surface, rect, clip);
    let c = image_part(surface, rect, clip);
    let d = text_part(surface, rect, clip, runs, namespace);
    assert(visuals == a + b + c + d);
}

/// A surface that declares no radius draws under the clip that it
/// inherits: the clip active for its parent, whatever its own rectangle.
/// Where no surface from the root down to it declares a radius, that is
/// the clip that the root inherited.
pub proof fn law_unrounded_surface_inherits_clip(
    root: Surface,
    layouts: Seq<ComputedLayout>,
    origin: LayoutPoint,
    inherited: Option<ClipRegion>,
    runs: Seq<Vec<LaidGlyph>>,
    namespace: IdNamespace,
    path: Seq<int>,
    k: int,
)
    requires
        valid_path(root, path),
        surface_at(root, path).border_radius is None,
        emitted_at(root, layouts, origin, inherited, runs, namespace, path, k),
    ensures
        ({
            let primitive = paint(root, layouts, origin, inherited, runs, namespace)[k];
            &&& primitive.clip == clip_above(root, layouts, origin, inherited, path)
            &&& path.len() == 0 ==> primitive.clip == inherited
            &&& path.len() > 0 ==> primitive.clip == clip_at(
                root,
                layouts,
                origin,
                inherited,
                path.drop_last(),
            )
            &&& root.border_radius is None && unrounded_below(root, path) ==> primitive.clip
                == inherited
        }),
{
    law_primitive_belongs_to_surface(root, layouts, origin, inherited, runs, namespace, path, k);
    if root.border_radius is None && unrounded_below(root, path) {
        lemma_clip_passes_unrounded(root, layouts, origin, inherited, path);
    }
    if path.len() > 0 {
        let parent = path.drop_last();
        let last = seq![path.last()];
        assert(parent + last =~= path);
        lemma_path_concat(root, layouts, origin, inherited, runs, namespace, parent, last);
        let above = surface_at(root, parent);
        let above_origin = origin_above(root, layouts, origin, parent);
        let above_clip = clip_above(root, layouts, origin, inherited, parent);
        let above_rect = surface_rect(above, layouts, above_origin);
        assert(last.drop_first() =~= Seq::<int>::empty());
        assert(clip_above(above, layouts, above_origin, above_clip, last) == clip_above(
            above.children@[last[0]],
            layouts,
            above_rect.origin,
            active_clip(above, above_rect, above_clip),
            last.drop_first(),
        ));
    }
}

/// Under a surface that declares a radius, the surface itself and every
/// surface below it, down to but not including the next that declares a
/// radius of its own, draw clipped by the rounded rectangle made of the
/// first surface's rectangle and radius.
///
/// `to` leads to the surface that declares the radius and `below` from
/// there to the surface that draws.
pub proof fn law_rounded_subtree_is_clipped(
    root: Surface,
    layouts: Seq<ComputedLayout>,
    origin: LayoutPoint,
    inherited: Option<ClipRegion>,
    runs: Seq<Vec<LaidGlyph>>,
    namespace: IdNamespace,
    to: Seq<int>,
    below: Seq<int>,
    k: int,
)
    requires
        valid_path(root, to + below),
        surface_at(root, to).border_radius is Some,
        unrounded_below(surface_at(root, to), below),
        emitted_at(root, layouts, origin, inherited, runs, namespace, to + below, k),
    ensures
        paint(root, layouts, origin, inherited, runs, namespace)[k].clip == Some(
            ClipRegion {
                rect: rect_at(root, layouts, origin, to),
                radii: surface_at(root, to).border_radius->0,
            },
        ),
{
    law_primitive_belongs_to_surface(
        root,
        layouts,
        origin,
        inherited,
        runs,
        namespace,
        to + below,
        k,
    );
    lemma_path_concat(root, layouts, origin, inherited, runs, namespace, to, below);
    lemma_clip_passes_unrounded(
        surface_at(root, to),
        layouts,
        origin_above(root, layouts, origin, to),
        clip_above(root, layouts, origin, inherited, to),
        below,
    );
}

/// A surface that has a shadow, a background, an image, a text and a
/// border emits exactly these five, in this order, with everything that its
/// children emit between the text and the border.
pub proof fn law_paint_order(
    surface: Surface,
    layouts: Seq<ComputedLayout>,
    origin: LayoutPoint,
    inherited: Option<ClipRegion>,
    runs: Seq<Vec<LaidGlyph>>,
    namespace: IdNamespace,
)
    requires
        surface.box_shadow is Some,
        surface.background_color is Some,
        surface.image is Some,
        surface.text is Some,
        surface.border is Some,
    ensures
        ({
            let frame = paint(surface, layouts, origin, inherited, runs, namespace);
            let rect = surface_rect(surface, layouts, origin);
            let below = paint_children(
                surface,
                surface.children@.len(),
                layouts,
                rect.origin,
                active_clip(surface, rect, inherited),
                runs,
                namespace,
            );
            &&& frame.len() == 5 + below.len()
            &&& frame[0].item is BoxShadow
            &&& frame[1].item is Rectangle
            &&& frame[2].item is Image
            &&& frame[3].item is Text
            &&& frame.subrange(4, (4 + below.len()) as int) == below
            &&& frame[(4 + below.len()) as int].item is Border
            &&& forall|i: int|
                0 <= i < 4 || i == 4 + below.len() ==> (#[trigger] frame[i]).layout.tag == Some(
                    surface.id,
                )
        }),
{
    let frame = paint(surface, layouts, origin, inherited, runs, namespace);
    let rect = surface_rect(surface, layouts, origin);
    let clip = active_clip(surface, rect, inherited);
    let below = paint_children(
        surface,
        surface.children@.len(),
        layouts,
        rect.origin,
        clip,
        runs,
        namespace,
    );
    let visuals = own_visuals(surface, rect, clip, runs, namespace);
    let a = shadow_part(surface, rect, clip);
    let b = background_part(surface, rect, clip);
    let c = image_part(surface, rect, clip);
    let d = text_part(surface, rect, clip, runs, namespace);
    assert(visuals == a + b + c + d);
    assert(frame == visuals + below + border_part(surface, rect, clip));
    assert(frame.subrange(4, (4 + below.len()) as int) =~= below);
}

/// Translation composes by addition: the rectangle of every primitive has
/// the size of its surface's layout entry, and its origin is the origin of
/// that entry plus the origins of the entries of all surfaces above, plus
/// the origin that the root was placed at.
pub proof fn law_rect_is_sum_of_origins(
    root: Surface,
    layouts: Seq<ComputedLayout>,
    origin: LayoutPoint,
    inherited: Option<ClipRegion>,
    runs: Seq<Vec<LaidGlyph>>,
    namespace: IdNamespace,
    path: Seq<int>,
    k: int,
)
    requires
        root.covered_by(layouts),
        abs(origin.x as int) + root.height() * ENTRY_LIMIT <= ORIGIN_LIMIT,
        abs(origin.y as int) + root.height() * ENTRY_LIMIT <= ORIGIN_LIMIT,
        valid_path(root, path),
        emitted_at(root, layouts, origin, inherited, runs, namespace, path, k),
    ensures
        ({
            let rect = paint(root, layouts, origin, inherited, runs, namespace)[k].layout.rect;
            let entry = layouts[surface_at(root, path).id as int];
            &&& rect.origin.x == origin.x + entries_x_above(root, layouts, path) + entry.x
            &&& rect.origin.y == origin.y + entries_y_above(root, layouts, path) + entry.y
            &&& rect.size.width == entry.width
            &&& rect.size.height == entry.height
        }),
{
    law_primitive_belongs_to_surface(root, layouts, origin, inherited, runs, namespace, path, k);
    lemma_origin_is_sum(root, layouts, origin, path);
    lemma_covered_at(root, layouts, path);
}

/// A primitive without its glyphs.
pub open spec fn outline(primitive: PrimitiveView) -> PrimitiveView {
    PrimitiveView {
        item: match primitive.item {
            ItemView::Text { font_key, color, glyphs } => ItemView::Text {
                font_key,
                color,
                glyphs: Seq::empty(),
            },
            other => other,
        },
        ..primitive
    }
}

/// The primitives of a frame without their glyphs, in the same order.
pub open spec fn outlines(frame: Seq<PrimitiveView>) -> Seq<PrimitiveView> {
    Seq::new(frame.len(), |i: int| outline(frame[i]))
}

proof fn lemma_outlines_concat(front: Seq<PrimitiveView>, back: Seq<PrimitiveView>)
    ensures
        outlines(front + back) == outlines(front) + outlines(back),
{
    assert(outlines(front + back) =~= outlines(front) + outlines(back));
}

proof fn lemma_same_outlines(
    surface: Surface,
    layouts: Seq<ComputedLayout>,
    origin: LayoutPoint,
    inherited: Option<ClipRegion>,
    namespace: IdNamespace,
    first: Seq<Vec<LaidGlyph>>,
    second: Seq<Vec<LaidGlyph>>,
)
    ensures
        outlines(paint(surface, layouts, origin, inherited, first, namespace)) == outlines(
            paint(surface, layouts, origin, inherited, second, namespace),
        ),
    decreases surface, surface.children@.len() + 1,
{
    let rect = surface_rect(surface, layouts, origin);
    let clip = active_clip(surface, rect, inherited);
    let len = surface.children@.len();
    let a = shadow_part(surface, rect, clip);
    let b = background_part(surface, rect, clip);
    let c = image_part(surface, rect, clip);
    let d1 = text_part(surface, rect, clip, first, namespace);
    let d2 = text_part(surface, rect, clip, second, namespace);
    let below1 = paint_children(surface, len, layouts, rect.origin, clip, first, namespace);
    let below2 = paint_children(surface, len, layouts, rect.origin, clip, second, namespace);
    let border = border_part(surface, rect, clip);
    lemma_same_outlines_below(surface, len, layouts, rect.origin, clip, namespace, first, second);
    assert(outlines(d1) =~= outlines(d2));
    lemma_outlines_concat(a + b + c, d1);
    lemma_outlines_concat(a + b + c, d2);
    lemma_outlines_concat(a + b + c + d1, below1);
    lemma_outlines_concat(a + b + c + d2, below2);
    lemma_outlines_concat(a + b + c + d1 + below1, border);
    lemma_outlines_concat(a + b + c + d2 + below2, border);
}

proof fn lemma_same_outlines_below(
    surface: Surface,
    n: nat,
    layouts: Seq<ComputedLayout>,
    origin: LayoutPoint,
    clip: Option<ClipRegion>,
    namespace: IdNamespace,
    first: Seq<Vec<LaidGlyph>>,
    second: Seq<Vec<LaidGlyph>>,
)
    ensures
        outlines(paint_children(surface, n, layouts, origin, clip, first, namespace)) == outlines(
            paint_children(surface, n, layouts, origin, clip, second, namespace),
        ),
    decreases surface, n,
{
    if n == 0 || n > surface.children@.len() {
    } else {
        let m = (n - 1) as nat;
        lemma_same_outlines_below(surface, m, layouts, origin, clip, namespace, first, second);
        lemma_same_outlines(
            surface.children@[n - 1],
            layouts,
            origin,
            clip,
            namespace,
            first,
            second,
        );
        lemma_outlines_concat(
            paint_children(surface, m, layouts, origin, clip, first, namespace),
            paint(surface.children@[n - 1], layouts, origin, clip, first, namespace),
        );
        lemma_outlines_concat(
            paint_children(surface, m, layouts, origin, clip, second, namespace),
            paint(surface.children@[n - 1], layouts, origin, clip, second, namespace),
        );
    }
}

/// Compiling is repeatable. Two frames compiled from the same tree and
/// table have the same primitives in the same order, with the same
/// rectangles, clips, radii and tags, whatever glyphs the shaper made the
/// first and the second time; with the same glyphs they are the same frame.
pub proof fn law_compile_is_repeatable(
    root: Surface,
    layouts: Seq<ComputedLayout>,
    origin: LayoutPoint,
    inherited: Option<ClipRegion>,
    namespace: IdNamespace,
    first: Seq<Vec<LaidGlyph>>,
    second: Seq<Vec<LaidGlyph>>,
)
    ensures
        outlines(paint(root, layouts, origin, inherited, first, namespace)) == outlines(
            paint(root, layouts, origin, inherited, second, namespace),
        ),
        paint(root, layouts, origin, inherited, first, namespace).len() == paint(
            root,
            layouts,
            origin,
            inherited,
            second,
            namespace,
        ).len(),
        first == second ==> paint(root, layouts, origin, inherited, first, namespace) == paint(
            root,
            layouts,
            origin,
            inherited,
            second,
            namespace,
        ),
{
    lemma_same_outlines(root, layouts, origin, inherited, namespace, first, second);
    assert(outlines(paint(root, layouts, origin, inherited, first, namespace)).len() == outlines(
        paint(root, layouts, origin, inherited, second, namespace),
    ).len());
}

/// Where the rectangle of every surface lies within that of the root, a
/// point outside the root's rectangle hits nothing.
pub proof fn law_miss_outside_root(
    root: Surface,
    layouts: Seq<ComputedLayout>,
    origin: LayoutPoint,
    inherited: Option<ClipRegion>,
    runs: Seq<Vec<LaidGlyph>>,
    namespace: IdNamespace,
    x: int,
    y: int,
)
    requires
        forall|path: Seq<int>| #[trigger]
            valid_path(root, path) ==> surface_rect(root, layouts, origin).encloses(
                rect_at(root, layouts, origin, path),
            ),
        !surface_rect(root, layouts, origin).holds(x, y),
    ensures
        topmost_tag(paint(root, layouts, origin, inherited, runs, namespace), x, y) is None,
{
    let frame = paint(root, layouts, origin, inherited, runs, namespace);
    assert forall|at: int| !is_topmost_hit(frame, x, y, at) by {
        if is_topmost_hit(frame, x, y, at) {
            let path = lemma_owner_of(root, layouts, origin, inherited, runs, namespace, at);
            law_primitive_belongs_to_surface(
                root,
                layouts,
                origin,
                inherited,
                runs,
                namespace,
                path,
                at,
            );
            assert(valid_path(root, path));
        }
    }
}

/// `above` leads to a surface that is above the end of `path`.
pub open spec fn leads_above(above: Seq<int>, path: Seq<int>) -> bool {
    above.len() < path.len() && path.subrange(0, above.len() as int) == above
}

/// The point hits a primitive that the surface at the end of the path emits.
pub open spec fn hits_surface(
    root: Surface,
    layouts: Seq<ComputedLayout>,
    origin: LayoutPoint,
    inherited: Option<ClipRegion>,
    runs: Seq<Vec<LaidGlyph>>,
    namespace: IdNamespace,
    path: Seq<int>,
    x: int,
    y: int,
) -> bool {
    let visuals = visuals_at(root, layouts, origin, inherited, runs, namespace, path);
    let border = border_at(root, layouts, origin, inherited, path);
    ||| exists|i: int| 0 <= i < visuals.len() && (#[trigger] visuals[i]).hit_by(x, y)
    ||| border.len() == 1 && border[0].hit_by(x, y)
}

/// The point query finds the deepest surface under a point. Where the
/// point hits a primitive of a surface, and every other surface whose
/// rectangle holds the point is above that surface and has no border, the
/// query answers with the id of that surface.
///
/// A border is drawn over everything below its surface, so a surface above
/// that has one would answer in its place.
pub proof fn law_hit_finds_deepest_surface(
    root: Surface,
    layouts: Seq<ComputedLayout>,
    origin: LayoutPoint,
    inherited: Option<ClipRegion>,
    runs: Seq<Vec<LaidGlyph>>,
    namespace: IdNamespace,
    path: Seq<int>,
    x: int,
    y: int,
)
    requires
        valid_path(root, path),
        hits_surface(root, layouts, origin, inherited, runs, namespace, path, x, y),
        forall|other: Seq<int>|
            #[trigger] valid_path(root, other) && other != path && rect_at(
                root,
                layouts,
                origin,
                other,
            ).holds(x, y) ==> leads_above(other, path) && surface_at(root, other).border is None,
    ensures
        topmost_tag(paint(root, layouts, origin, inherited, runs, namespace), x, y) == Some(
            surface_at(root, path).id,
        ),
{
    let frame = paint(root, layouts, origin, inherited, runs, namespace);
    let start = block_start(root, layouts, origin, inherited, runs, namespace, path);
    let block = block_at(root, layouts, origin, inherited, runs, namespace, path);
    let visuals = visuals_at(root, layouts, origin, inherited, runs, namespace, path);
    let border = border_at(root, layouts, origin, inherited, path);
    lemma_block_in_frame(root, layouts, origin, inherited, runs, namespace, path);
    let surface = surface_at(root, path);
    let below = paint_children(
        surface,
        surface.children@.len(),
        layouts,
        rect_at(root, layouts, origin, path).origin,
        clip_at(root, layouts, origin, inherited, path),
        runs,
        namespace,
    );
    assert(block == visuals + below + border);
    // A place of the frame where the surface is hit.
    let hit: int = if exists|i: int| 0 <= i < visuals.len() && (#[trigger] visuals[i]).hit_by(x, y) {
        let i = choose|i: int| 0 <= i < visuals.len() && (#[trigger] visuals[i]).hit_by(x, y);
        assert(frame.subrange(start, start + block.len())[i] == block[i]);
        start + i
    } else {
        let last = block.len() - 1;
        assert(frame.subrange(start, start + block.len())[last] == block[last]);
        start + last
    };
    assert(frame[hit].hit_by(x, y));
    let at = lemma_topmost_exists(frame, x, y, hit);
    let owner = lemma_owner_of(root, layouts, origin, inherited, runs, namespace, at);
    law_primitive_belongs_to_surface(root, layouts, origin, inherited, runs, namespace, owner, at);
    if owner != path {
        assert(valid_path(root, owner));
        assert(leads_above(owner, path));
        let rest = path.subrange(owner.len() as int, path.len() as int);
        assert(owner + rest =~= path);
        lemma_path_concat(root, layouts, origin, inherited, runs, namespace, owner, rest);
        let above = surface_at(root, owner);
        lemma_block_in_frame(
            above,
            layouts,
            origin_above(root, layouts, origin, owner),
            clip_above(root, layouts, origin, inherited, owner),
            runs,
            namespace,
            rest,
        );
        assert(border_at(root, layouts, origin, inherited, owner).len() == 0);
        assert(false);
    }
    let chosen = choose|at: int| is_topmost_hit(frame, x, y, at);
    lemma_topmost_is_unique(frame, x, y, at, chosen);
}

/// The number of surfaces of the tree that declare a radius.
pub open spec fn rounded_count(surface: Surface) -> nat
    decreases surface, surface.children@.len() + 1,
{
    (if surface.border_radius is Some {
        1nat
    } else {
        0nat
    }) + rounded_count_below(surface, surface.children@.len())
}

/// The number of surfaces in the subtrees of the first `n` children that
/// declare a radius.
pub open spec fn rounded_count_below(surface: Surface, n: nat) -> nat
    decreases surface, n,
{
    if n == 0 || n > surface.children@.len() {
        0
    } else {
        rounded_count_below(surface, (n - 1) as nat) + rounded_count(surface.children@[n - 1])
    }
}

proof fn lemma_count_below(
    surface: Surface,
    n: nat,
    layouts: Seq<ComputedLayout>,
    origin: LayoutPoint,
)
    ensures
        declared_below(surface, n, layouts, origin).len() == rounded_count_below(surface, n),
    decreases surface, n,
{
    if n == 0 || n > surface.children@.len() {
    } else {
        lemma_count_below(surface, (n - 1) as nat, layouts, origin);
        law_one_clip_for_each_radius(surface.children@[n - 1], layouts, origin);
    }
}

/// Compiling registers one clip region for each surface that declares a
/// radius: as many regions as such surfaces.
pub proof fn law_one_clip_for_each_radius(
    surface: Surface,
    layouts: Seq<ComputedLayout>,
    origin: LayoutPoint,
)
    ensures
        declared_clips(surface, layouts, origin).len() == rounded_count(surface),
    decreases surface, surface.children@.len() + 1,
{
    lemma_count_below(
        surface,
        surface.children@.len(),
        layouts,
        surface_rect(surface, layouts, origin).origin,
    );
}

/// The surface at the end of the path declares a radius, and `region` is
/// the rounded rectangle of that radius over the surface's absolute rectangle.
pub open spec fn declares_region(
    root: Surface,
    layouts: Seq<ComputedLayout>,
    origin: LayoutPoint,
    path: Seq<int>,
    region: ClipRegion,
) -> bool {
    &&& valid_path(root, path)
    &&& surface_at(root, path).border_radius matches Some(radius)
    &&& region == region_at(root, layouts, origin, path, radius)
}

/// Every registered clip region is the rounded rectangle of a surface
/// that declares a radius, over that surface's absolute rectangle; none comes
/// from a surface without a radius. The path that comes back leads to the
/// surface of the region at place `i`.
pub proof fn law_clip_belongs_to_rounded_surface(
    root: Surface,
    layouts: Seq<ComputedLayout>,
    origin: LayoutPoint,
    i: int,
) -> (path: Seq<int>)
    requires
        0 <= i < declared_clips(root, layouts, origin).len(),
    ensures
        declares_region(root, layouts, origin, path, declared_clips(root, layouts, origin)[i]),
{
    lemma_region_owner(root, layouts, origin, i)
}

/// Every surface that declares a radius has its clip region registered.
pub proof fn law_rounded_surface_has_clip(
    root: Surface,
    layouts: Seq<ComputedLayout>,
    origin: LayoutPoint,
    path: Seq<int>,
    region: ClipRegion,
)
    requires
        declares_region(root, layouts, origin, path, region),
    ensures
        declared_clips(root, layouts, origin).contains(region),
{
    lemma_rounded_is_registered(root, layouts, origin, path);
}

/// The clip of every primitive is the one that the root inherited or one
/// that was registered.
pub proof fn law_clip_of_primitive_is_registered(
    root: Surface,
    layouts: Seq<ComputedLayout>,
    origin: LayoutPoint,
    inherited: Option<ClipRegion>,
    runs: Seq<Vec<LaidGlyph>>,
    namespace: IdNamespace,
    k: int,
)
    requires
        0 <= k < paint(root, layouts, origin, inherited, runs, namespace).len(),
    ensures
        ({
            let clip = paint(root, layouts, origin, inherited, runs, namespace)[k].clip;
            clip == inherited || (clip matches Some(region) && declared_clips(
                root,
                layouts,
                origin,
            ).contains(region))
        }),
{
    let path = lemma_owner_of(root, layouts, origin, inherited, runs, namespace, k);
    law_primitive_belongs_to_surface(root, layouts, origin, inherited, runs, namespace, path, k);
    lemma_active_clip_is_registered(root, layouts, origin, inherited, path);
}

/// No two surfaces of the tree have the same id.
pub open spec fn unique_ids(root: Surface) -> bool {
    forall|a: Seq<int>, b: Seq<int>|
        #![trigger surface_at(root, a), surface_at(root, b)]
        valid_path(root, a) && valid_path(root, b) && a != b ==> surface_at(root, a).id
            != surface_at(root, b).id
}

/// A tree in which every surface has an id of its own is never too deep
/// to compile: there are no more levels than ids.
pub proof fn law_unique_ids_bound_depth(root: Surface, layouts: Seq<ComputedLayout>)
    requires
        unique_ids(root),
    ensures
        root.height() <= MAX_DEPTH,
        root.covered_by(layouts) ==> renderable(root, layouts),
{
    let path = lemma_deepest_path(root);
    let levels = root.height() as int;
    let id_at = |k: int| surface_at(root, path.take(k)).id as int;
    let places = set_int_range(0, levels);
    let ids = places.map(id_at);
    let all_ids = set_int_range(0, 0x1_0000);
    lemma_int_range(0, levels);
    lemma_int_range(0, 0x1_0000);
    assert(injective_on(id_at, places)) by {
        assert forall|j: int, k: int|
            places.contains(j) && places.contains(k) && #[trigger] id_at(j) == #[trigger] id_at(
                k,
            ) implies j == k by {
            lemma_prefix_is_valid(root, path, j);
            lemma_prefix_is_valid(root, path, k);
            if j != k {
                assert(path.take(j).len() != path.take(k).len());
                assert(surface_at(root, path.take(j)).id != surface_at(root, path.take(k)).id);
            }
        }
    }
    lemma_map_size(places, ids, id_at);
    assert(ids.subset_of(all_ids)) by {
        assert forall|id: int| ids.contains(id) implies all_ids.contains(id) by {
            let k = choose|k: int| places.contains(k) && id_at(k) == id;
        }
    }
    lemma_len_subset(ids, all_ids);
}

} // verus!
