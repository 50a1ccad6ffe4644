//! Paths into a surface tree, and what the compiler's walk has accumulated
//! when it arrives at the end of one.
//!
//! A path is the sequence of child indices that leads from a root down to a
//! surface; the empty path is the root itself.

use vstd::prelude::*;
use crate::compiler::{
    active_clip, border_part, declared_below, declared_clips, own_clip, own_visuals, paint,
    paint_children, surface_rect,
};
use crate::display_list::{ClipRegion, IdNamespace, PrimitiveView};
use crate::geometry::{abs, ComputedLayout, LayoutPoint, LayoutRect, ORIGIN_LIMIT, ENTRY_LIMIT};
use crate::style::BorderRadius;
use crate::surface::Surface;
use crate::text::LaidGlyph;

verus! {

/// Every index of the path is that of a child.
pub open spec fn valid_path(root: Surface, path: Seq<int>) -> bool
    decreases path.len(),
{
    path.len() == 0 || {
        &&& 0 <= path[0] < root.children@.len()
        &&& valid_path(root.children@[path[0]], path.drop_first())
    }
}

/// The surface at the end of the path.
pub open spec fn surface_at(root: Surface, path: Seq<int>) -> Surface
    decreases path.len(),
{
    if path.len() == 0 {
        root
    } else {
        surface_at(root.children@[path[0]], path.drop_first())
    }
}

/// The origin of the parent of the surface at the end of the path, where
/// `origin` is that of the root's parent.
pub open spec fn origin_above(
    root: Surface,
    layouts: Seq<ComputedLayout>,
    origin: LayoutPoint,
    path: Seq<int>,
) -> LayoutPoint
    decreases path.len(),
{
    if path.len() == 0 {
        origin
    } else {
        origin_above(
            root.children@[path[0]],
            layouts,
            surface_rect(root, layouts, origin).origin,
            path.drop_first(),
        )
    }
}

/// The clip that the surface at the end of the path inherits from its
/// parent, where `inherited` is what the root inherits.
pub open spec fn clip_above(
    root: Surface,
    layouts: Seq<ComputedLayout>,
    origin: LayoutPoint,
    inherited: Option<ClipRegion>,
    path: Seq<int>,
) -> Option<ClipRegion>
    decreases path.len(),
{
    if path.len() == 0 {
        inherited
    } else {
        let rect = surface_rect(root, layouts, origin);
        clip_above(
            root.children@[path[0]],
            layouts,
            rect.origin,
            active_clip(root, rect, inherited),
            path.drop_first(),
        )
    }
}

/// The absolute rectangle of the surface at the end of the path.
pub open spec fn rect_at(
    root: Surface,
    layouts: Seq<ComputedLayout>,
    origin: LayoutPoint,
    path: Seq<int>,
) -> LayoutRect {
    surface_rect(surface_at(root, path), layouts, origin_above(root, layouts, origin, path))
}

/// The clip that is active for the surface at the end of the path.
pub open spec fn clip_at(
    root: Surface,
    layouts: Seq<ComputedLayout>,
    origin: LayoutPoint,
    inherited: Option<ClipRegion>,
    path: Seq<int>,
) -> Option<ClipRegion> {
    active_clip(
        surface_at(root, path),
        rect_at(root, layouts, origin, path),
        clip_above(root, layouts, origin, inherited, path),
    )
}

/// What the surface at the end of the path emits before its children.
pub open spec fn visuals_at(
    root: Surface,
    layouts: Seq<ComputedLayout>,
    origin: LayoutPoint,
    inherited: Option<ClipRegion>,
    runs: Seq<Vec<LaidGlyph>>,
    namespace: IdNamespace,
    path: Seq<int>,
) -> Seq<PrimitiveView> {
    own_visuals(
        surface_at(root, path),
        rect_at(root, layouts, origin, path),
        clip_at(root, layouts, origin, inherited, path),
        runs,
        namespace,
    )
}

/// What the surface at the end of the path emits after its children.
pub open spec fn border_at(
    root: Surface,
    layouts: Seq<ComputedLayout>,
    origin: LayoutPoint,
    inherited: Option<ClipRegion>,
    path: Seq<int>,
) -> Seq<PrimitiveView> {
    border_part(
        surface_at(root, path),
        rect_at(root, layouts, origin, path),
        clip_at(root, layouts, origin, inherited, path),
    )
}

/// Everything emitted for the subtree at the end of the path.
pub open spec fn block_at(
    root: Surface,
    layouts: Seq<ComputedLayout>,
    origin: LayoutPoint,
    inherited: Option<ClipRegion>,
    runs: Seq<Vec<LaidGlyph>>,
    namespace: IdNamespace,
    path: Seq<int>,
) -> Seq<PrimitiveView> {
    paint(
        surface_at(root, path),
        layouts,
        origin_above(root, layouts, origin, path),
        clip_above(root, layouts, origin, inherited, path),
        runs,
        namespace,
    )
}

/// Where, in what is emitted for `root`, the subtree at the end of the
/// path begins.
pub open spec fn block_start(
    root: Surface,
    layouts: Seq<ComputedLayout>,
    origin: LayoutPoint,
    inherited: Option<ClipRegion>,
    runs: Seq<Vec<LaidGlyph>>,
    namespace: IdNamespace,
    path: Seq<int>,
) -> int
    decreases path.len(),
{
    if path.len() == 0 {
        0
    } else {
        let rect = surface_rect(root, layouts, origin);
        let clip = active_clip(root, rect, inherited);
        own_visuals(root, rect, clip, runs, namespace).len() + paint_children(
            root,
            path[0] as nat,
            layouts,
            rect.origin,
            clip,
            runs,
            namespace,
        ).len() + block_start(
            root.children@[path[0]],
            layouts,
            rect.origin,
            clip,
            runs,
            namespace,
            path.drop_first(),
        )
    }
}

/// The sum of the layout entries' horizontal origins over the surfaces
/// above the end of the path.
pub open spec fn entries_x_above(root: Surface, layouts: Seq<ComputedLayout>, path: Seq<int>) -> int
    decreases path.len(),
{
    if path.len() == 0 {
        0
    } else {
        layouts[root.id as int].x + entries_x_above(
            root.children@[path[0]],
            layouts,
            path.drop_first(),
        )
    }
}

/// The sum of the layout entries' vertical origins over the surfaces above
/// the end of the path.
pub open spec fn entries_y_above(root: Surface, layouts: Seq<ComputedLayout>, path: Seq<int>) -> int
    decreases path.len(),
{
    if path.len() == 0 {
        0
    } else {
        layouts[root.id as int].y + entries_y_above(
            root.children@[path[0]],
            layouts,
            path.drop_first(),
        )
    }
}

/// No surface below the root on the path, down to and with its end,
/// declares a radius.
pub open spec fn unrounded_below(root: Surface, path: Seq<int>) -> bool
    decreases path.len(),
{
    path.len() == 0 || {
        &&& root.children@[path[0]].border_radius is None
        &&& unrounded_below(root.children@[path[0]], path.drop_first())
    }
}

/// The path `[first] + rest`.
pub open spec fn prepend(first: int, rest: Seq<int>) -> Seq<int> {
    seq![first] + rest
}

/// Taking the first index off `[first] + rest` leaves `rest`.
pub proof fn lemma_prepend(first: int, rest: Seq<int>)
    ensures
        prepend(first, rest).len() == rest.len() + 1,
        prepend(first, rest)[0] == first,
        prepend(first, rest).drop_first() == rest,
{
    assert(prepend(first, rest).drop_first() =~= rest);
}

/// Some path is as long as the tree is high, less one for the root.
pub proof fn lemma_deepest_path(root: Surface) -> (path: Seq<int>)
    ensures
        valid_path(root, path),
        path.len() + 1 == root.height(),
    decreases root,
{
    let len = root.children@.len();
    if len == 0 {
        assert(root.tallest_of(0) == 0);
        Seq::empty()
    } else {
        let i = root.lemma_tallest_attained(len);
        let rest = lemma_deepest_path(root.children@[i]);
        lemma_prepend(i, rest);
        prepend(i, rest)
    }
}

/// The beginning of a path is a path.
pub proof fn lemma_prefix_is_valid(root: Surface, path: Seq<int>, k: int)
    requires
        valid_path(root, path),
        0 <= k <= path.len(),
    ensures
        valid_path(root, path.take(k)),
    decreases k,
{
    if k > 0 {
        assert(path.take(k)[0] == path[0]);
        assert(path.take(k).drop_first() =~= path.drop_first().take(k - 1));
        lemma_prefix_is_valid(root.children@[path[0]], path.drop_first(), k - 1);
    }
}

/// A table that covers a tree covers the surface at the end of every path.
pub proof fn lemma_covered_at(root: Surface, layouts: Seq<ComputedLayout>, path: Seq<int>)
    requires
        valid_path(root, path),
        root.covered_by(layouts),
    ensures
        surface_at(root, path).covered_by(layouts),
        surface_at(root, path).id < layouts.len(),
    decreases path.len(),
{
    if path.len() > 0 {
        lemma_covered_at(root.children@[path[0]], layouts, path.drop_first());
    }
}

/// Translation composes by addition: the origin that the walk has
/// accumulated above the end of a path is the origin it started from plus
/// the layout entries of the surfaces above.
pub proof fn lemma_origin_is_sum(
    root: Surface,
    layouts: Seq<ComputedLayout>,
    origin: LayoutPoint,
    path: Seq<int>,
)
    requires
        valid_path(root, path),
        abs(origin.x as int) + root.height() * ENTRY_LIMIT <= ORIGIN_LIMIT,
        abs(origin.y as int) + root.height() * ENTRY_LIMIT <= ORIGIN_LIMIT,
    ensures
        origin_above(root, layouts, origin, path).x == origin.x + entries_x_above(
            root,
            layouts,
            path,
        ),
        origin_above(root, layouts, origin, path).y == origin.y + entries_y_above(
            root,
            layouts,
            path,
        ),
        abs(origin_above(root, layouts, origin, path).x as int) + surface_at(root, path).height()
            * ENTRY_LIMIT <= ORIGIN_LIMIT,
        abs(origin_above(root, layouts, origin, path).y as int) + surface_at(root, path).height()
            * ENTRY_LIMIT <= ORIGIN_LIMIT,
    decreases path.len(),
{
    if path.len() > 0 {
        root.lemma_child_is_lower(path[0]);
        let child = root.children@[path[0]];
        let next = surface_rect(root, layouts, origin).origin;
        assert(child.height() * ENTRY_LIMIT <= (root.height() - 1) * ENTRY_LIMIT) by (nonlinear_arith)
            requires
                child.height() <= root.height() - 1,
        ;
        lemma_origin_is_sum(child, layouts, next, path.drop_first());
    }
}

/// The primitive at place `k` of what is emitted for `root` is emitted by
/// the surface at the end of the path: it is one of those that the surface
/// emits before its children, at its place in the surface's block, or the
/// surface's border, at the end of the block.
pub open spec fn emitted_at(
    root: Surface,
    layouts: Seq<ComputedLayout>,
    origin: LayoutPoint,
    inherited: Option<ClipRegion>,
    runs: Seq<Vec<LaidGlyph>>,
    namespace: IdNamespace,
    path: Seq<int>,
    k: int,
) -> bool {
    let frame = paint(root, layouts, origin, inherited, runs, namespace);
    let start = block_start(root, layouts, origin, inherited, runs, namespace, path);
    let block = block_at(root, layouts, origin, inherited, runs, namespace, path);
    let visuals = visuals_at(root, layouts, origin, inherited, runs, namespace, path);
    let border = border_at(root, layouts, origin, inherited, path);
    &&& 0 <= start <= k < start + block.len() <= frame.len()
    &&& {
        ||| k - start < visuals.len() && frame[k] == visuals[k - start]
        ||| border.len() == 1 && k == start + block.len() - 1 && frame[k] == border[0]
    }
}

/// What is emitted for the first `n` children begins with what is emitted
/// for the first `j` of them, followed by what is emitted for child `j`.
pub proof fn lemma_children_prefix(
    surface: Surface,
    n: nat,
    j: int,
    layouts: Seq<ComputedLayout>,
    origin: LayoutPoint,
    clip: Option<ClipRegion>,
    runs: Seq<Vec<LaidGlyph>>,
    namespace: IdNamespace,
)
    requires
        0 <= j < n <= surface.children@.len(),
    ensures
        ({
            let all = paint_children(surface, n, layouts, origin, clip, runs, namespace);
            let before = paint_children(surface, j as nat, layouts, origin, clip, runs, namespace);
            let child = paint(surface.children@[j], layouts, origin, clip, runs, namespace);
            &&& before.len() + child.len() <= all.len()
            &&& all.subrange(0, before.len() as int) == before
            &&& all.subrange(before.len() as int, (before.len() + child.len()) as int) == child
        }),
    decreases n,
{
    let all = paint_children(surface, n, layouts, origin, clip, runs, namespace);
    let before = paint_children(surface, j as nat, layouts, origin, clip, runs, namespace);
    let child = paint(surface.children@[j], layouts, origin, clip, runs, namespace);
    let shorter = paint_children(surface, (n - 1) as nat, layouts, origin, clip, runs, namespace);
    let last = paint(surface.children@[n - 1], layouts, origin, clip, runs, namespace);
    assert(all == shorter + last);
    if j == n - 1 {
        assert(all.subrange(0, before.len() as int) =~= before);
        assert(all.subrange(before.len() as int, (before.len() + child.len()) as int) =~= child);
    } else {
        lemma_children_prefix(surface, (n - 1) as nat, j, layouts, origin, clip, runs, namespace);
        assert(all.subrange(0, before.len() as int) =~= shorter.subrange(0, before.len() as int));
        assert(all.subrange(before.len() as int, (before.len() + child.len()) as int)
            =~= shorter.subrange(before.len() as int, (before.len() + child.len()) as int));
    }
}

/// Every place in what is emitted for the first `n` children lies in what
/// is emitted for one of them.
proof fn lemma_child_of(
    surface: Surface,
    n: nat,
    layouts: Seq<ComputedLayout>,
    origin: LayoutPoint,
    clip: Option<ClipRegion>,
    runs: Seq<Vec<LaidGlyph>>,
    namespace: IdNamespace,
    k: int,
) -> (j: int)
    requires
        n <= surface.children@.len(),
        0 <= k < paint_children(surface, n, layouts, origin, clip, runs, namespace).len(),
    ensures
        0 <= j < n,
        ({
            let before = paint_children(surface, j as nat, layouts, origin, clip, runs, namespace);
            let child = paint(surface.children@[j], layouts, origin, clip, runs, namespace);
            before.len() <= k < before.len() + child.len()
        }),
    decreases n,
{
    let shorter = paint_children(surface, (n - 1) as nat, layouts, origin, clip, runs, namespace);
    if k < shorter.len() {
        lemma_child_of(surface, (n - 1) as nat, layouts, origin, clip, runs, namespace, k)
    } else {
        n - 1
    }
}

/// Every primitive emitted for a tree is emitted by one of its surfaces.
/// The path that comes back leads to it.
pub proof fn lemma_owner_of(
    root: Surface,
    layouts: Seq<ComputedLayout>,
    origin: LayoutPoint,
    inherited: Option<ClipRegion>,
    runs: Seq<Vec<LaidGlyph>>,
    namespace: IdNamespace,
    k: int,
) -> (path: Seq<int>)
    requires
        0 <= k < paint(root, layouts, origin, inherited, runs, namespace).len(),
    ensures
        valid_path(root, path),
        emitted_at(root, layouts, origin, inherited, runs, namespace, path, k),
    decreases root,
{
    let rect = surface_rect(root, layouts, origin);
    let clip = active_clip(root, rect, inherited);
    let visuals = own_visuals(root, rect, clip, runs, namespace);
    let len = root.children@.len();
    let below = paint_children(root, len, layouts, rect.origin, clip, runs, namespace);
    let border = border_part(root, rect, clip);
    let frame = paint(root, layouts, origin, inherited, runs, namespace);
    assert(frame == visuals + below + border);
    if k < visuals.len() || k >= visuals.len() + below.len() {
        Seq::<int>::empty()
    } else {
        let inner = k - visuals.len();
        let j = lemma_child_of(root, len, layouts, rect.origin, clip, runs, namespace, inner);
        lemma_children_prefix(root, len, j, layouts, rect.origin, clip, runs, namespace);
        let child = root.children@[j];
        let before = paint_children(root, j as nat, layouts, rect.origin, clip, runs, namespace);
        let child_frame = paint(child, layouts, rect.origin, clip, runs, namespace);
        let rest = lemma_owner_of(
            child,
            layouts,
            rect.origin,
            clip,
            runs,
            namespace,
            inner - before.len(),
        );
        let path = prepend(j, rest);
        lemma_prepend(j, rest);
        assert(child_frame[inner - before.len()] == below.subrange(
            before.len() as int,
            (before.len() + child_frame.len()) as int,
        )[inner - before.len()]);
        assert(frame[k] == child_frame[inner - before.len()]);
        path
    }
}

/// What is emitted for the subtree at the end of a path stands, whole and
/// in one piece, in what is emitted for the root, from `block_start` on.
/// Below the root it stands after what the root emits before its children
/// and before the root's border.
pub proof fn lemma_block_in_frame(
    root: Surface,
    layouts: Seq<ComputedLayout>,
    origin: LayoutPoint,
    inherited: Option<ClipRegion>,
    runs: Seq<Vec<LaidGlyph>>,
    namespace: IdNamespace,
    path: Seq<int>,
)
    requires
        valid_path(root, path),
    ensures
        ({
            let frame = paint(root, layouts, origin, inherited, runs, namespace);
            let start = block_start(root, layouts, origin, inherited, runs, namespace, path);
            let block = block_at(root, layouts, origin, inherited, runs, namespace, path);
            let rect = surface_rect(root, layouts, origin);
            let clip = active_clip(root, rect, inherited);
            &&& 0 <= start
            &&& start + block.len() <= frame.len()
            &&& frame.subrange(start, start + block.len()) == block
            &&& path.len() > 0 ==> {
                &&& own_visuals(root, rect, clip, runs, namespace).len() <= start
                &&& start + block.len() + border_part(root, rect, clip).len() <= frame.len()
            }
        }),
    decreases path.len(),
{
    let frame = paint(root, layouts, origin, inherited, runs, namespace);
    let start = block_start(root, layouts, origin, inherited, runs, namespace, path);
    let block = block_at(root, layouts, origin, inherited, runs, namespace, path);
    if path.len() == 0 {
        assert(frame.subrange(0, frame.len() as int) =~= frame);
    } else {
        let rect = surface_rect(root, layouts, origin);
        let clip = active_clip(root, rect, inherited);
        let visuals = own_visuals(root, rect, clip, runs, namespace);
        let len = root.children@.len();
        let below = paint_children(root, len, layouts, rect.origin, clip, runs, namespace);
        let border = border_part(root, rect, clip);
        assert(frame == visuals + below + border);
        let j = path[0];
        let child = root.children@[j];
        let rest = path.drop_first();
        lemma_children_prefix(root, len, j, layouts, rect.origin, clip, runs, namespace);
        lemma_block_in_frame(child, layouts, rect.origin, clip, runs, namespace, rest);
        let before = paint_children(root, j as nat, layouts, rect.origin, clip, runs, namespace);
        let child_frame = paint(child, layouts, rect.origin, clip, runs, namespace);
        let inner = block_start(child, layouts, rect.origin, clip, runs, namespace, rest);
        assert(start == visuals.len() + before.len() + inner);
        assert(child_frame.subrange(inner, inner + block.len()) == block);
        assert(below.subrange(before.len() as int, (before.len() + child_frame.len()) as int)
            == child_frame);
        assert(frame.subrange(start, start + block.len()) =~= block) by {
            assert forall|i: int| 0 <= i < block.len() implies frame[start + i] == block[i] by {
                assert(block[i] == child_frame.subrange(inner, inner + block.len())[i]);
                assert(child_frame[inner + i] == below.subrange(
                    before.len() as int,
                    (before.len() + child_frame.len()) as int,
                )[inner + i]);
            }
        }
    }
}

/// Walking down `to` and then down `below` arrives where walking down
/// `to + below` arrives, with the same origin and clip accumulated.
pub proof fn lemma_path_concat(
    root: Surface,
    layouts: Seq<ComputedLayout>,
    origin: LayoutPoint,
    inherited: Option<ClipRegion>,
    runs: Seq<Vec<LaidGlyph>>,
    namespace: IdNamespace,
    to: Seq<int>,
    below: Seq<int>,
)
    requires
        valid_path(root, to + below),
    ensures
        valid_path(root, to),
        valid_path(surface_at(root, to), below),
        surface_at(root, to + below) == surface_at(surface_at(root, to), below),
        origin_above(root, layouts, origin, to + below) == origin_above(
            surface_at(root, to),
            layouts,
            origin_above(root, layouts, origin, to),
            below,
        ),
        clip_above(root, layouts, origin, inherited, to + below) == clip_above(
            surface_at(root, to),
            layouts,
            origin_above(root, layouts, origin, to),
            clip_above(root, layouts, origin, inherited, to),
            below,
        ),
        block_start(root, layouts, origin, inherited, runs, namespace, to + below) == block_start(
            root,
            layouts,
            origin,
            inherited,
            runs,
            namespace,
            to,
        ) + block_start(
            surface_at(root, to),
            layouts,
            origin_above(root, layouts, origin, to),
            clip_above(root, layouts, origin, inherited, to),
            runs,
            namespace,
            below,
        ),
    decreases to.len(),
{
    if to.len() == 0 {
        assert(to + below =~= below);
    } else {
        let rect = surface_rect(root, layouts, origin);
        let clip = active_clip(root, rect, inherited);
        assert((to + below)[0] == to[0]);
        assert((to + below).drop_first() =~= to.drop_first() + below);
        lemma_path_concat(
            root.children@[to[0]],
            layouts,
            rect.origin,
            clip,
            runs,
            namespace,
            to.drop_first(),
            below,
        );
    }
}

/// A clip passes unchanged through surfaces that declare no radius: below
/// a surface, as far as no surface declares one, the active clip is that of
/// the surface.
pub proof fn lemma_clip_passes_unrounded(
    root: Surface,
    layouts: Seq<ComputedLayout>,
    origin: LayoutPoint,
    inherited: Option<ClipRegion>,
    path: Seq<int>,
)
    requires
        valid_path(root, path),
        unrounded_below(root, path),
    ensures
        clip_at(root, layouts, origin, inherited, path) == active_clip(
            root,
            surface_rect(root, layouts, origin),
            inherited,
        ),
    decreases path.len(),
{
    if path.len() > 0 {
        let rect = surface_rect(root, layouts, origin);
        let clip = active_clip(root, rect, inherited);
        lemma_clip_passes_unrounded(
            root.children@[path[0]],
            layouts,
            rect.origin,
            clip,
            path.drop_first(),
        );
    }
}

/// The clip region of the surface at the end of the path, where it
/// declares the radius `radius`.
pub open spec fn region_at(
    root: Surface,
    layouts: Seq<ComputedLayout>,
    origin: LayoutPoint,
    path: Seq<int>,
    radius: BorderRadius,
) -> ClipRegion {
    ClipRegion { rect: rect_at(root, layouts, origin, path), radii: radius }
}

/// What the subtree of a child registers is among what the subtrees of
/// the first `n` children register, for every child among them.
pub proof fn lemma_declared_below_holds_child(
    surface: Surface,
    n: nat,
    j: int,
    layouts: Seq<ComputedLayout>,
    origin: LayoutPoint,
    clip: ClipRegion,
)
    requires
        0 <= j < n <= surface.children@.len(),
        declared_clips(surface.children@[j], layouts, origin).contains(clip),
    ensures
        declared_below(surface, n, layouts, origin).contains(clip),
    decreases n,
{
    let all = declared_below(surface, n, layouts, origin);
    let shorter = declared_below(surface, (n - 1) as nat, layouts, origin);
    let last = declared_clips(surface.children@[n - 1], layouts, origin);
    assert(all == shorter + last);
    if j == n - 1 {
        let at = choose|at: int| 0 <= at < last.len() && last[at] == clip;
        assert(all[shorter.len() + at] == clip);
    } else {
        lemma_declared_below_holds_child(surface, (n - 1) as nat, j, layouts, origin, clip);
        let at = choose|at: int| 0 <= at < shorter.len() && shorter[at] == clip;
        assert(all[at] == clip);
    }
}

/// What the children of a surface register is among what the surface registers.
pub proof fn lemma_declared_holds_below(
    surface: Surface,
    layouts: Seq<ComputedLayout>,
    origin: LayoutPoint,
    clip: ClipRegion,
)
    requires
        declared_below(
            surface,
            surface.children@.len(),
            layouts,
            surface_rect(surface, layouts, origin).origin,
        ).contains(clip),
    ensures
        declared_clips(surface, layouts, origin).contains(clip),
{
    let rect = surface_rect(surface, layouts, origin);
    let own = own_clip(surface, rect);
    let below = declared_below(surface, surface.children@.len(), layouts, rect.origin);
    let at = choose|at: int| 0 <= at < below.len() && below[at] == clip;
    assert((own + below)[own.len() + at] == clip);
}

/// Every surface that declares a radius has its clip region registered.
pub proof fn lemma_rounded_is_registered(
    root: Surface,
    layouts: Seq<ComputedLayout>,
    origin: LayoutPoint,
    path: Seq<int>,
)
    requires
        valid_path(root, path),
        surface_at(root, path).border_radius is Some,
    ensures
        declared_clips(root, layouts, origin).contains(
            region_at(root, layouts, origin, path, surface_at(root, path).border_radius->0),
        ),
    decreases path.len(),
{
    let rect = surface_rect(root, layouts, origin);
    let own = own_clip(root, rect);
    let below = declared_below(root, root.children@.len(), layouts, rect.origin);
    if path.len() == 0 {
        assert((own + below)[0] == own[0]);
    } else {
        let child = root.children@[path[0]];
        lemma_rounded_is_registered(child, layouts, rect.origin, path.drop_first());
        let region = region_at(
            root,
            layouts,
            origin,
            path,
            surface_at(root, path).border_radius->0,
        );
        lemma_declared_below_holds_child(
            root,
            root.children@.len(),
            path[0],
            layouts,
            rect.origin,
            region,
        );
        lemma_declared_holds_below(root, layouts, origin, region);
    }
}

/// The clip that is active for a surface is the one that the root
/// inherited or one that was registered.
pub proof fn lemma_active_clip_is_registered(
    root: Surface,
    layouts: Seq<ComputedLayout>,
    origin: LayoutPoint,
    inherited: Option<ClipRegion>,
    path: Seq<int>,
)
    requires
        valid_path(root, path),
    ensures
        clip_at(root, layouts, origin, inherited, path) == inherited || (clip_at(
            root,
            layouts,
            origin,
            inherited,
            path,
        ) matches Some(clip) && declared_clips(root, layouts, origin).contains(clip)),
    decreases path.len(),
{
    let rect = surface_rect(root, layouts, origin);
    let own = own_clip(root, rect);
    let below = declared_below(root, root.children@.len(), layouts, rect.origin);
    let active = active_clip(root, rect, inherited);
    if root.border_radius is Some {
        assert((own + below)[0] == own[0]);
        assert(declared_clips(root, layouts, origin).contains(active->0));
    }
    if path.len() > 0 {
        let child = root.children@[path[0]];
        let rest = path.drop_first();
        lemma_active_clip_is_registered(child, layouts, rect.origin, active, rest);
        let reached = clip_at(child, layouts, rect.origin, active, rest);
        assert(reached == clip_at(root, layouts, origin, inherited, path));
        if reached != active {
            lemma_declared_below_holds_child(
                root,
                root.children@.len(),
                path[0],
                layouts,
                rect.origin,
                reached->0,
            );
            lemma_declared_holds_below(root, layouts, origin, reached->0);
        }
    }
}

/// Every place among what the subtrees of the first `n` children register
/// lies in what one of them registers.
proof fn lemma_region_child_of(
    surface: Surface,
    n: nat,
    layouts: Seq<ComputedLayout>,
    origin: LayoutPoint,
    i: int,
) -> (found: (int, int))
    requires
        n <= surface.children@.len(),
        0 <= i < declared_below(surface, n, layouts, origin).len(),
    ensures
        0 <= found.0 < n,
        0 <= found.1 < declared_clips(surface.children@[found.0], layouts, origin).len(),
        declared_below(surface, n, layouts, origin)[i] == declared_clips(
            surface.children@[found.0],
            layouts,
            origin,
        )[found.1],
    decreases n,
{
    let shorter = declared_below(surface, (n - 1) as nat, layouts, origin);
    if i < shorter.len() {
        lemma_region_child_of(surface, (n - 1) as nat, layouts, origin, i)
    } else {
        (n - 1, i - shorter.len())
    }
}

/// Every registered clip region is that of a surface that declares a
/// radius. The path that comes back leads to it.
pub proof fn lemma_region_owner(
    root: Surface,
    layouts: Seq<ComputedLayout>,
    origin: LayoutPoint,
    i: int,
) -> (path: Seq<int>)
    requires
        0 <= i < declared_clips(root, layouts, origin).len(),
    ensures
        valid_path(root, path),
        surface_at(root, path).border_radius is Some,
        declared_clips(root, layouts, origin)[i] == region_at(
            root,
            layouts,
            origin,
            path,
            surface_at(root, path).border_radius->0,
        ),
    decreases root,
{
    let rect = surface_rect(root, layouts, origin);
    let own = own_clip(root, rect);
    let below = declared_below(root, root.children@.len(), layouts, rect.origin);
    if i < own.len() {
        Seq::<int>::empty()
    } else {
        let found = lemma_region_child_of(
            root,
            root.children@.len(),
            layouts,
            rect.origin,
            i - own.len(),
        );
        let rest = lemma_region_owner(root.children@[found.0], layouts, rect.origin, found.1);
        lemma_prepend(found.0, rest);
        prepend(found.0, rest)
    }
}

} // verus!
