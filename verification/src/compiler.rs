//! The scene compiler: a depth-first walk over the surface tree that emits,
//! for each surface, its shadow, background, image and text, then the
//! subtrees of its children in their stored order, then its border.
//!
//! `paint` says what the walk emits as a function of the tree, the layout
//! table, the origin and clip inherited from the parent, and the glyph run
//! that the text shaper made for each surface with text.
//! `RenderContext::render_surface` is the walk itself.

use vstd::prelude::*;
use crate::display_list::{
    frame_view, BorderDisplayItem, BoxShadowDisplayItem, ClipRegion, CompiledFrame,
    FontInstanceKey, IdNamespace, ImageDisplayItem, ItemView, LayoutPrimitiveInfo, Primitive,
    PrimitiveView, RectangleDisplayItem, SpecificDisplayItem, TextDisplayItem,
};
use crate::laws::law_clip_of_primitive_is_registered;
use crate::geometry::{
    abs, ComputedLayout, LayoutPoint, LayoutRect, LayoutSize, ENTRY_LIMIT, ORIGIN_LIMIT,
};
use crate::style::{Border, BorderRadius, BoxShadow, Color, Image, Text};
use crate::surface::{Surface, SurfaceId};
use crate::text::{
    baseline, baseline_offset, glyphs_at, place_glyphs, GlyphInstance, LaidGlyph, TextShaper,
};

verus! {

/// The deepest tree that can be compiled: with the root at the frame's
/// origin, every accumulated origin then stays within `ORIGIN_LIMIT`.
pub const MAX_DEPTH: usize = 0x1_0000;

/// The absolute rectangle of a surface whose parent's origin is `origin`.
pub open spec fn surface_rect(
    surface: Surface,
    layouts: Seq<ComputedLayout>,
    origin: LayoutPoint,
) -> LayoutRect {
    layouts[surface.id as int].placed_at(origin)
}

/// The radius that a surface's own primitives carry: the one it declares,
/// or square corners. The radius of an ancestor never reaches it.
pub open spec fn own_radius(surface: Surface) -> BorderRadius {
    match surface.border_radius {
        Some(radius) => radius,
        None => BorderRadius(0, 0, 0, 0),
    }
}

/// The clip that is active for a surface and handed down to its children:
/// the surface's own rounded rectangle where it declares a radius, in place
/// of the inherited clip; the inherited clip unchanged where it declares none.
pub open spec fn active_clip(
    surface: Surface,
    rect: LayoutRect,
    inherited: Option<ClipRegion>,
) -> Option<ClipRegion> {
    match surface.border_radius {
        Some(radius) => Some(ClipRegion { rect, radii: radius }),
        None => inherited,
    }
}

/// A primitive of `surface`, drawn within `clip_rect`.
pub open spec fn primitive_of(
    surface: Surface,
    item: ItemView,
    rect: LayoutRect,
    clip_rect: LayoutRect,
    clip: Option<ClipRegion>,
) -> PrimitiveView {
    PrimitiveView {
        item,
        layout: LayoutPrimitiveInfo { rect, clip_rect, tag: Some(surface.id) },
        clip,
        border_radius: own_radius(surface),
    }
}

pub open spec fn shadow_item(shadow: BoxShadow, rect: LayoutRect) -> ItemView {
    ItemView::BoxShadow(
        BoxShadowDisplayItem {
            box_bounds: rect,
            offset: shadow.offset,
            color: shadow.color,
            blur_radius: shadow.blur,
            spread_radius: shadow.spread,
        },
    )
}

/// The rectangle that a shadow may cover: the box moved by the shadow's
/// offset and grown by its spread and blur.
pub open spec fn shadow_clip_rect(shadow: BoxShadow, rect: LayoutRect) -> LayoutRect {
    rect.spread_by(shadow.offset, shadow.spread + shadow.blur)
}

pub open spec fn background_item(color: Color) -> ItemView {
    ItemView::Rectangle(RectangleDisplayItem { color })
}

pub open spec fn image_item(image: Image, rect: LayoutRect) -> ItemView {
    ItemView::Image { url: image.url@, stretch_size: rect.size }
}

/// The text of a surface: the glyphs of its run, each moved to the
/// surface's rectangle and down to the baseline.
pub open spec fn text_item(
    text: Text,
    run: Seq<LaidGlyph>,
    rect: LayoutRect,
    namespace: IdNamespace,
) -> ItemView {
    ItemView::Text {
        font_key: FontInstanceKey(namespace, text.font_size),
        color: text.color,
        glyphs: glyphs_at(
            run,
            rect.origin.x as int,
            rect.origin.y + baseline_offset(text.font_size, text.line_height),
        ),
    }
}

pub open spec fn border_item(border: Border) -> ItemView {
    ItemView::Border(
        BorderDisplayItem {
            top: border.top,
            right: border.right,
            bottom: border.bottom,
            left: border.left,
        },
    )
}

pub open spec fn shadow_part(
    surface: Surface,
    rect: LayoutRect,
    clip: Option<ClipRegion>,
) -> Seq<PrimitiveView> {
    match surface.box_shadow {
        Some(shadow) => seq![
            primitive_of(
                surface,
                shadow_item(shadow, rect),
                rect,
                shadow_clip_rect(shadow, rect),
                clip,
            ),
        ],
        None => Seq::empty(),
    }
}

pub open spec fn background_part(
    surface: Surface,
    rect: LayoutRect,
    clip: Option<ClipRegion>,
) -> Seq<PrimitiveView> {
    match surface.background_color {
        Some(color) => seq![primitive_of(surface, background_item(color), rect, rect, clip)],
        None => Seq::empty(),
    }
}

pub open spec fn image_part(
    surface: Surface,
    rect: LayoutRect,
    clip: Option<ClipRegion>,
) -> Seq<PrimitiveView> {
    match surface.image {
        Some(image) => seq![primitive_of(surface, image_item(image, rect), rect, rect, clip)],
        None => Seq::empty(),
    }
}

/// The glyph run that the table holds for a surface; no glyphs where the
/// table does not reach the surface's id.
pub open spec fn run_for(runs: Seq<Vec<LaidGlyph>>, id: SurfaceId) -> Seq<LaidGlyph> {
    if id < runs.len() {
        runs[id as int]@
    } else {
        Seq::empty()
    }
}

pub open spec fn text_part(
    surface: Surface,
    rect: LayoutRect,
    clip: Option<ClipRegion>,
    runs: Seq<Vec<LaidGlyph>>,
    namespace: IdNamespace,
) -> Seq<PrimitiveView> {
    match surface.text {
        Some(text) => seq![
            primitive_of(
                surface,
                text_item(text, run_for(runs, surface.id), rect, namespace),
                rect,
                rect,
                clip,
            ),
        ],
        None => Seq::empty(),
    }
}

pub open spec fn border_part(
    surface: Surface,
    rect: LayoutRect,
    clip: Option<ClipRegion>,
) -> Seq<PrimitiveView> {
    match surface.border {
        Some(border) => seq![primitive_of(surface, border_item(border), rect, rect, clip)],
        None => Seq::empty(),
    }
}

/// What a surface emits before its children: shadow, background, image,
/// text, each where the surface has it.
pub open spec fn own_visuals(
    surface: Surface,
    rect: LayoutRect,
    clip: Option<ClipRegion>,
    runs: Seq<Vec<LaidGlyph>>,
    namespace: IdNamespace,
) -> Seq<PrimitiveView> {
    shadow_part(surface, rect, clip) + background_part(surface, rect, clip) + image_part(
        surface,
        rect,
        clip,
    ) + text_part(surface, rect, clip, runs, namespace)
}

/// Everything emitted for a surface and its subtree, in paint order.
///
/// `origin` is the absolute origin of the parent and `inherited` the clip
/// that is active there.
pub open spec fn paint(
    surface: Surface,
    layouts: Seq<ComputedLayout>,
    origin: LayoutPoint,
    inherited: Option<ClipRegion>,
    runs: Seq<Vec<LaidGlyph>>,
    namespace: IdNamespace,
) -> Seq<PrimitiveView>
    decreases surface, surface.children@.len() + 1,
{
    let rect = surface_rect(surface, layouts, origin);
    let clip = active_clip(surface, rect, inherited);
    own_visuals(surface, rect, clip, runs, namespace) + paint_children(
        surface,
        surface.children@.len(),
        layouts,
        rect.origin,
        clip,
        runs,
        namespace,
    ) + border_part(surface, rect, clip)
}

/// Everything emitted for the first `n` children of a surface, each subtree
/// in full before the next. `origin` and `clip` are those of the surface.
pub open spec fn paint_children(
    surface: Surface,
    n: nat,
    layouts: Seq<ComputedLayout>,
    origin: LayoutPoint,
    clip: Option<ClipRegion>,
    runs: Seq<Vec<LaidGlyph>>,
    namespace: IdNamespace,
) -> Seq<PrimitiveView>
    decreases surface, n,
{
    if n == 0 || n > surface.children@.len() {
        Seq::empty()
    } else {
        paint_children(surface, (n - 1) as nat, layouts, origin, clip, runs, namespace) + paint(
            surface.children@[n - 1],
            layouts,
            origin,
            clip,
            runs,
            namespace,
        )
    }
}

/// A tree can be compiled against a table when the table has an entry for
/// every surface of the tree and the tree is no deeper than `MAX_DEPTH`.
pub open spec fn renderable(surface: Surface, layouts: Seq<ComputedLayout>) -> bool {
    surface.covered_by(layouts) && surface.height() <= MAX_DEPTH
}

/// The frame compiled from a tree whose root's parent origin is the
/// frame's origin, with no clip active.
pub open spec fn compiled(
    root: Surface,
    layouts: Seq<ComputedLayout>,
    runs: Seq<Vec<LaidGlyph>>,
    namespace: IdNamespace,
) -> Seq<PrimitiveView> {
    paint(root, layouts, LayoutPoint { x: 0, y: 0 }, None, runs, namespace)
}

/// The clip region that a surface declares with a radius.
pub open spec fn own_clip(surface: Surface, rect: LayoutRect) -> Seq<ClipRegion> {
    match surface.border_radius {
        Some(radius) => seq![ClipRegion { rect, radii: radius }],
        None => Seq::empty(),
    }
}

/// The clip regions that compiling a subtree registers: one for each
/// surface that declares a radius, over that surface's absolute rectangle,
/// in the order of the walk. `origin` is the absolute origin of the parent.
pub open spec fn declared_clips(
    surface: Surface,
    layouts: Seq<ComputedLayout>,
    origin: LayoutPoint,
) -> Seq<ClipRegion>
    decreases surface, surface.children@.len() + 1,
{
    let rect = surface_rect(surface, layouts, origin);
    own_clip(surface, rect) + declared_below(
        surface,
        surface.children@.len(),
        layouts,
        rect.origin,
    )
}

/// The clip regions that the subtrees of the first `n` children register.
/// `origin` is the absolute origin of the surface.
pub open spec fn declared_below(
    surface: Surface,
    n: nat,
    layouts: Seq<ComputedLayout>,
    origin: LayoutPoint,
) -> Seq<ClipRegion>
    decreases surface, n,
{
    if n == 0 || n > surface.children@.len() {
        Seq::empty()
    } else {
        declared_below(surface, (n - 1) as nat, layouts, origin) + declared_clips(
            surface.children@[n - 1],
            layouts,
            origin,
        )
    }
}

/// What compiling a tree gives: the frame, and the clip regions to
/// register with the backend for it.
#[derive(Debug)]
pub struct Compilation {
    pub frame: CompiledFrame,
    /// One region for each surface that declares a radius, in the order of
    /// the walk.
    pub clips: Vec<ClipRegion>,
}

/// The state of one compilation pass.
///
/// `layout`, `space_and_clip` and `border_radius` belong to the surface
/// being compiled; between surfaces they are those of the parent.
pub struct RenderContext<'a> {
    pub computed_layouts: &'a Vec<ComputedLayout>,
    /// The glyph run of each surface with text, by surface id.
    pub glyph_runs: &'a Vec<Vec<LaidGlyph>>,
    pub namespace: IdNamespace,
    /// The primitives emitted so far.
    pub builder: CompiledFrame,
    /// The clip regions registered so far.
    pub clips: Vec<ClipRegion>,
    pub border_radius: BorderRadius,
    pub layout: LayoutPrimitiveInfo,
    /// The active clip.
    pub space_and_clip: Option<ClipRegion>,
}

impl<'a> RenderContext<'a> {
    /// A context at the frame's origin, with nothing emitted, no clip
    /// registered and none active.
    pub fn new(
        computed_layouts: &'a Vec<ComputedLayout>,
        glyph_runs: &'a Vec<Vec<LaidGlyph>>,
        namespace: IdNamespace,
        content_rect: LayoutRect,
    ) -> (context: Self)
        ensures
            context.computed_layouts == computed_layouts,
            context.glyph_runs == glyph_runs,
            context.namespace == namespace,
            context.builder@.len() == 0,
            context.clips@.len() == 0,
            context.border_radius == BorderRadius(0, 0, 0, 0),
            context.layout == (LayoutPrimitiveInfo {
                rect: content_rect,
                clip_rect: content_rect,
                tag: None,
            }),
            context.space_and_clip is None,
    {
        RenderContext {
            computed_layouts,
            glyph_runs,
            namespace,
            builder: Vec::new(),
            clips: Vec::new(),
            border_radius: BorderRadius::zero(),
            layout: LayoutPrimitiveInfo { rect: content_rect, clip_rect: content_rect, tag: None },
            space_and_clip: None,
        }
    }

    /// The two contexts differ at most in what they have emitted and
    /// registered.
    pub open spec fn same_state_as(self, other: Self) -> bool {
        &&& self.computed_layouts == other.computed_layouts
        &&& self.glyph_runs == other.glyph_runs
        &&& self.namespace == other.namespace
        &&& self.border_radius == other.border_radius
        &&& self.layout == other.layout
        &&& self.space_and_clip == other.space_and_clip
    }

    /// The current origin leaves room for `levels` more levels of nesting.
    pub open spec fn room_for(self, levels: nat) -> bool {
        &&& abs(self.layout.rect.origin.x as int) + levels * ENTRY_LIMIT <= ORIGIN_LIMIT
        &&& abs(self.layout.rect.origin.y as int) + levels * ENTRY_LIMIT <= ORIGIN_LIMIT
    }

    /// The primitive that `push` emits for an item in the current state.
    pub open spec fn primitive_for(self, item: SpecificDisplayItem) -> Primitive {
        Primitive {
            item,
            layout: self.layout,
            clip: self.space_and_clip,
            border_radius: self.border_radius,
        }
    }

    /// The shadow of the current surface's box.
    pub fn box_shadow(&self, box_shadow: BoxShadow) -> (item: SpecificDisplayItem)
        ensures
            item@ == shadow_item(box_shadow, self.layout.rect),
    {
        SpecificDisplayItem::BoxShadow(
            BoxShadowDisplayItem {
                box_bounds: self.layout.rect,
                offset: box_shadow.offset,
                color: box_shadow.color,
                blur_radius: box_shadow.blur,
                spread_radius: box_shadow.spread,
            },
        )
    }

    /// A rectangle of one color.
    pub fn background_color(&self, color: Color) -> (item: SpecificDisplayItem)
        ensures
            item@ == background_item(color),
    {
        SpecificDisplayItem::Rectangle(RectangleDisplayItem { color })
    }

    /// The image stretched to fit the current surface's rectangle.
    pub fn image(&self, image: &Image) -> (item: SpecificDisplayItem)
        ensures
            item@ == image_item(*image, self.layout.rect),
    {
        SpecificDisplayItem::Image(
            ImageDisplayItem { url: image.url.clone(), stretch_size: self.layout.rect.size },
        )
    }

    /// The glyph run of the current surface, each glyph moved to the
    /// surface's rectangle and down to the baseline. Outside of a surface
    /// the run is empty.
    pub fn text(&self, text: &Text) -> (item: SpecificDisplayItem)
        requires
            self.layout.rect.origin.within(ORIGIN_LIMIT as int),
        ensures
            item@ == text_item(
                *text,
                match self.layout.tag {
                    Some(id) => run_for(self.glyph_runs@, id),
                    None => Seq::empty(),
                },
                self.layout.rect,
                self.namespace,
            ),
    {
        let rect = self.layout.rect;
        let text_y = rect.origin.y + baseline(text);
        let glyphs = match self.layout.tag {
            Some(id) => if (id as usize) < self.glyph_runs.len() {
                place_glyphs(&self.glyph_runs[id as usize], rect.origin.x, text_y)
            } else {
                Vec::new()
            },
            None => Vec::new(),
        };
        proof {
            let empty = glyphs_at(
                Seq::<LaidGlyph>::empty(),
                rect.origin.x as int,
                rect.origin.y + baseline_offset(text.font_size, text.line_height),
            );
            assert(empty =~= Seq::<GlyphInstance>::empty());
        }
        SpecificDisplayItem::Text(
            TextDisplayItem {
                font_key: FontInstanceKey(self.namespace, text.font_size),
                color: text.color,
                glyphs,
            },
        )
    }

    /// The four sides of a border.
    pub fn border(&self, border: Border) -> (item: SpecificDisplayItem)
        ensures
            item@ == border_item(border),
    {
        SpecificDisplayItem::Border(
            BorderDisplayItem {
                top: border.top,
                right: border.right,
                bottom: border.bottom,
                left: border.left,
            },
        )
    }

    /// The context is at `surface`: its layout is that of a primitive of the
    /// surface and its radius is the surface's own.
    pub open spec fn at_surface(self, surface: Surface) -> bool {
        &&& self.layout == (LayoutPrimitiveInfo {
            rect: self.layout.rect,
            clip_rect: self.layout.rect,
            tag: Some(surface.id),
        })
        &&& self.border_radius == own_radius(surface)
    }

    /// Emits an item with the clip and radius of the current surface, at `layout`.
    fn emit(&mut self, item: SpecificDisplayItem, layout: LayoutPrimitiveInfo)
        ensures
            final(self).builder@ == old(self).builder@.push(
                (Primitive {
                    item,
                    layout,
                    clip: old(self).space_and_clip,
                    border_radius: old(self).border_radius,
                }),
            ),
            frame_view(final(self).builder@) == frame_view(old(self).builder@).push(
                (PrimitiveView {
                    item: item@,
                    layout,
                    clip: old(self).space_and_clip,
                    border_radius: old(self).border_radius,
                }),
            ),
            final(self).same_state_as(*old(self)),
            final(self).clips == old(self).clips,
    {
        let primitive = Primitive {
            item,
            layout,
            clip: self.space_and_clip,
            border_radius: self.border_radius,
        };
        self.builder.push(primitive);
        assert(frame_view(self.builder@) =~= frame_view(old(self).builder@).push(primitive@));
    }

    /// Emits an item with the layout, clip and radius of the current surface.
    pub fn push(&mut self, item: SpecificDisplayItem)
        ensures
            final(self).builder@ == old(self).builder@.push(old(self).primitive_for(item)),
            frame_view(final(self).builder@) == frame_view(old(self).builder@).push(
                old(self).primitive_for(item)@,
            ),
            final(self).same_state_as(*old(self)),
            final(self).clips == old(self).clips,
    {
        let layout = self.layout;
        self.emit(item, layout);
    }

    /// Emits the shadow of the current surface, where it has one. The shadow
    /// may cover the box moved by its offset and grown by its spread and blur.
    fn emit_shadow(&mut self, surface: &Surface)
        requires
            old(self).at_surface(*surface),
            old(self).layout.rect.bounded(),
        ensures
            frame_view(final(self).builder@) == frame_view(old(self).builder@) + shadow_part(
                *surface,
                old(self).layout.rect,
                old(self).space_and_clip,
            ),
            final(self).same_state_as(*old(self)),
            final(self).clips == old(self).clips,
    {
        match surface.box_shadow {
            Some(shadow) => {
                let item = self.box_shadow(shadow);
                let margin: i64 = shadow.spread as i64 + shadow.blur as i64;
                let rect = self.layout.rect;
                let layout = LayoutPrimitiveInfo {
                    rect,
                    clip_rect: rect.translate_inflate(shadow.offset, margin),
                    tag: self.layout.tag,
                };
                self.emit(item, layout);
            },
            None => {},
        }
        assert(frame_view(self.builder@) =~= frame_view(old(self).builder@) + shadow_part(
            *surface,
            old(self).layout.rect,
            old(self).space_and_clip,
        ));
    }

    /// Emits the background of the current surface, where it has one.
    fn emit_background(&mut self, surface: &Surface)
        requires
            old(self).at_surface(*surface),
        ensures
            frame_view(final(self).builder@) == frame_view(old(self).builder@) + background_part(
                *surface,
                old(self).layout.rect,
                old(self).space_and_clip,
            ),
            final(self).same_state_as(*old(self)),
            final(self).clips == old(self).clips,
    {
        match surface.background_color {
            Some(color) => {
                let item = self.background_color(color);
                self.push(item);
            },
            None => {},
        }
        assert(frame_view(self.builder@) =~= frame_view(old(self).builder@) + background_part(
            *surface,
            old(self).layout.rect,
            old(self).space_and_clip,
        ));
    }

    /// Emits the image of the current surface, where it has one.
    fn emit_image(&mut self, surface: &Surface)
        requires
            old(self).at_surface(*surface),
        ensures
            frame_view(final(self).builder@) == frame_view(old(self).builder@) + image_part(
                *surface,
                old(self).layout.rect,
                old(self).space_and_clip,
            ),
            final(self).same_state_as(*old(self)),
            final(self).clips == old(self).clips,
    {
        match &surface.image {
            Some(image) => {
                let item = self.image(image);
                self.push(item);
            },
            None => {},
        }
        assert(frame_view(self.builder@) =~= frame_view(old(self).builder@) + image_part(
            *surface,
            old(self).layout.rect,
            old(self).space_and_clip,
        ));
    }

    /// Emits the text of the current surface, where it has one.
    fn emit_text(&mut self, surface: &Surface)
        requires
            old(self).at_surface(*surface),
            old(self).layout.rect.bounded(),
        ensures
            frame_view(final(self).builder@) == frame_view(old(self).builder@) + text_part(
                *surface,
                old(self).layout.rect,
                old(self).space_and_clip,
                old(self).glyph_runs@,
                old(self).namespace,
            ),
            final(self).same_state_as(*old(self)),
            final(self).clips == old(self).clips,
    {
        match &surface.text {
            Some(text) => {
                let item = self.text(text);
                self.push(item);
            },
            None => {},
        }
        assert(frame_view(self.builder@) =~= frame_view(old(self).builder@) + text_part(
            *surface,
            old(self).layout.rect,
            old(self).space_and_clip,
            old(self).glyph_runs@,
            old(self).namespace,
        ));
    }

    /// Emits the border of the current surface, where it has one.
    fn emit_border(&mut self, surface: &Surface)
        requires
            old(self).at_surface(*surface),
        ensures
            frame_view(final(self).builder@) == frame_view(old(self).builder@) + border_part(
                *surface,
                old(self).layout.rect,
                old(self).space_and_clip,
            ),
            final(self).same_state_as(*old(self)),
            final(self).clips == old(self).clips,
    {
        match surface.border {
            Some(border) => {
                let item = self.border(border);
                self.push(item);
            },
            None => {},
        }
        assert(frame_view(self.builder@) =~= frame_view(old(self).builder@) + border_part(
            *surface,
            old(self).layout.rect,
            old(self).space_and_clip,
        ));
    }

    /// Emits what the current surface paints below its children: shadow,
    /// background, image, text.
    fn emit_visuals(&mut self, surface: &Surface)
        requires
            old(self).at_surface(*surface),
            old(self).layout.rect.bounded(),
        ensures
            frame_view(final(self).builder@) == frame_view(old(self).builder@) + own_visuals(
                *surface,
                old(self).layout.rect,
                old(self).space_and_clip,
                old(self).glyph_runs@,
                old(self).namespace,
            ),
            final(self).same_state_as(*old(self)),
            final(self).clips == old(self).clips,
    {
        let ghost before = frame_view(self.builder@);
        let ghost rect = self.layout.rect;
        let ghost clip = self.space_and_clip;
        self.emit_shadow(surface);
        self.emit_background(surface);
        self.emit_image(surface);
        self.emit_text(surface);
        proof {
            let a = shadow_part(*surface, rect, clip);
            let b = background_part(*surface, rect, clip);
            let c = image_part(*surface, rect, clip);
            let d = text_part(*surface, rect, clip, self.glyph_runs@, self.namespace);
            assert(before + a + b + c + d =~= before + (a + b + c + d));
        }
    }

    /// Compiles the children of the current surface in their stored order,
    /// each subtree in full before the next.
    fn render_children(&mut self, surface: &Surface)
        requires
            surface.covered_by(old(self).computed_layouts@),
            old(self).room_for((surface.height() - 1) as nat),
        ensures
            frame_view(final(self).builder@) == frame_view(old(self).builder@) + paint_children(
                *surface,
                surface.children@.len(),
                old(self).computed_layouts@,
                old(self).layout.rect.origin,
                old(self).space_and_clip,
                old(self).glyph_runs@,
                old(self).namespace,
            ),
            final(self).same_state_as(*old(self)),
            final(self).clips@ == old(self).clips@ + declared_below(
                *surface,
                surface.children@.len(),
                old(self).computed_layouts@,
                old(self).layout.rect.origin,
            ),
        decreases surface, 0nat,
    {
        let ghost before = frame_view(self.builder@);
        let ghost registered = self.clips@;
        let mut i: usize = 0;
        assert(self.clips@ =~= registered + declared_below(
            *surface,
            0,
            self.computed_layouts@,
            self.layout.rect.origin,
        ));
        assert(frame_view(self.builder@) =~= before + paint_children(
            *surface,
            0,
            self.computed_layouts@,
            self.layout.rect.origin,
            self.space_and_clip,
            self.glyph_runs@,
            self.namespace,
        ));
        while i < surface.children.len()
            invariant
                0 <= i <= surface.children@.len(),
                surface.covered_by(self.computed_layouts@),
                self.room_for((surface.height() - 1) as nat),
                self.same_state_as(*old(self)),
                self.clips@ == registered + declared_below(
                    *surface,
                    i as nat,
                    self.computed_layouts@,
                    self.layout.rect.origin,
                ),
                frame_view(self.builder@) == before + paint_children(
                    *surface,
                    i as nat,
                    self.computed_layouts@,
                    self.layout.rect.origin,
                    self.space_and_clip,
                    self.glyph_runs@,
                    self.namespace,
                ),
            decreases surface.children@.len() - i,
        {
            let ghost so_far = paint_children(
                *surface,
                i as nat,
                self.computed_layouts@,
                self.layout.rect.origin,
                self.space_and_clip,
                self.glyph_runs@,
                self.namespace,
            );
            let ghost next = paint(
                surface.children@[i as int],
                self.computed_layouts@,
                self.layout.rect.origin,
                self.space_and_clip,
                self.glyph_runs@,
                self.namespace,
            );
            let ghost listed = declared_below(
                *surface,
                i as nat,
                self.computed_layouts@,
                self.layout.rect.origin,
            );
            let ghost more = declared_clips(
                surface.children@[i as int],
                self.computed_layouts@,
                self.layout.rect.origin,
            );
            proof {
                surface.lemma_child_is_lower(i as int);
            }
            self.render_surface(&surface.children[i]);
            i += 1;
            assert(before + so_far + next =~= before + (so_far + next));
            assert(registered + listed + more =~= registered + (listed + more));
        }
    }

    /// Compiles a surface and its subtree, appending to what was emitted
    /// before. The state of the context is that of the parent on entry and
    /// again on return.
    pub fn render_surface(&mut self, surface: &Surface)
        requires
            surface.covered_by(old(self).computed_layouts@),
            old(self).room_for(surface.height()),
        ensures
            frame_view(final(self).builder@) == frame_view(old(self).builder@) + paint(
                *surface,
                old(self).computed_layouts@,
                old(self).layout.rect.origin,
                old(self).space_and_clip,
                old(self).glyph_runs@,
                old(self).namespace,
            ),
            final(self).same_state_as(*old(self)),
            final(self).clips@ == old(self).clips@ + declared_clips(
                *surface,
                old(self).computed_layouts@,
                old(self).layout.rect.origin,
            ),
        decreases surface, 1nat,
    {
        let parent_layout = self.layout;
        let parent_space_and_clip = self.space_and_clip;
        let parent_border_radius = self.border_radius;
        let ghost before = frame_view(self.builder@);
        let ghost registered = self.clips@;

        let entry = self.computed_layouts[surface.id as usize];
        let rect = entry.translate(parent_layout.rect.origin);
        self.layout = LayoutPrimitiveInfo { rect, clip_rect: rect, tag: Some(surface.id) };

        // The radius is shared by the surface's primitives, not drawn by itself.
        match surface.border_radius {
            Some(radius) => {
                let region = ClipRegion { rect, radii: radius };
                self.border_radius = radius;
                self.clips.push(region);
                self.space_and_clip = Some(region);
            },
            None => {
                self.border_radius = BorderRadius::zero();
            },
        }
        let ghost clip = self.space_and_clip;
        assert(self.clips@ =~= registered + own_clip(*surface, rect));

        self.emit_visuals(surface);
        self.render_children(surface);
        self.emit_border(surface);

        proof {
            let visuals = own_visuals(*surface, rect, clip, self.glyph_runs@, self.namespace);
            let below = paint_children(
                *surface,
                surface.children@.len(),
                self.computed_layouts@,
                rect.origin,
                clip,
                self.glyph_runs@,
                self.namespace,
            );
            let border = border_part(*surface, rect, clip);
            assert(before + visuals + below + border =~= before + (visuals + below + border));
            let own = own_clip(*surface, rect);
            let under = declared_below(
                *surface,
                surface.children@.len(),
                self.computed_layouts@,
                rect.origin,
            );
            assert(registered + own + under =~= registered + (own + under));
        }

        self.layout = parent_layout;
        self.space_and_clip = parent_space_and_clip;
        self.border_radius = parent_border_radius;
    }
}

/// A table of `len` empty glyph runs.
pub fn empty_runs(len: usize) -> (runs: Vec<Vec<LaidGlyph>>)
    ensures
        runs@.len() == len,
        forall|id: int| 0 <= id < len ==> (#[trigger] runs@[id])@.len() == 0,
{
    let mut runs: Vec<Vec<LaidGlyph>> = Vec::new();
    let mut i: usize = 0;
    while i < len
        invariant
            0 <= i <= len,
            runs@.len() == i,
            forall|id: int| 0 <= id < i ==> (#[trigger] runs@[id])@.len() == 0,
        decreases len - i,
    {
        runs.push(Vec::new());
        i += 1;
    }
    runs
}

/// Some surface of the tree has text and the id `id`.
pub open spec fn has_text_at(surface: Surface, id: SurfaceId) -> bool
    decreases surface,
{
    ||| surface.text is Some && surface.id == id
    ||| exists|i: int|
        0 <= i < surface.children@.len() && has_text_at(#[trigger] surface.children@[i], id)
}

/// The text whose glyphs a walk over the tree leaves in the table at `id`:
/// that of the last surface, in the order of the walk, that has a text and
/// the id. The walk takes a surface before its children and the children in
/// their stored order.
pub open spec fn last_text_at(surface: Surface, id: SurfaceId) -> Option<Text>
    decreases surface, surface.children@.len() + 1,
{
    match last_text_below(surface, surface.children@.len(), id) {
        Some(text) => Some(text),
        None => if surface.id == id {
            surface.text
        } else {
            None
        },
    }
}

/// The text of the last surface, in the order of the walk, among the
/// subtrees of the first `n` children, that has a text and the id `id`.
pub open spec fn last_text_below(surface: Surface, n: nat, id: SurfaceId) -> Option<Text>
    decreases surface, n,
{
    if n == 0 || n > surface.children@.len() {
        None
    } else {
        match last_text_at(surface.children@[n - 1], id) {
            Some(text) => Some(text),
            None => last_text_below(surface, (n - 1) as nat, id),
        }
    }
}

/// The glyphs are what the shaper gave, or may give, for the text and the
/// available size.
pub open spec fn shaped_by<S: TextShaper>(
    shaper: S,
    text: Text,
    available: LayoutSize,
    glyphs: Vec<LaidGlyph>,
) -> bool {
    call_ensures(S::shape_text, (&shaper, &text, available), glyphs)
}

/// The extent of a layout entry, as the shaper is given it.
pub open spec fn entry_size(entry: ComputedLayout) -> LayoutSize {
    LayoutSize { width: entry.width as i64, height: entry.height as i64 }
}

/// The table `now` is the table `before` after a walk over the tree: at
/// the id of every surface with text it holds glyphs that the shaper made
/// for the text that `last_text_at` names and the size of the layout entry at
/// that id; everywhere else it is as before.
pub open spec fn shaped_over<S: TextShaper>(
    surface: Surface,
    layouts: Seq<ComputedLayout>,
    shaper: S,
    before: Seq<Vec<LaidGlyph>>,
    now: Seq<Vec<LaidGlyph>>,
) -> bool {
    &&& now.len() == before.len()
    &&& forall|id: SurfaceId|
        id < layouts.len() && id < now.len() ==> match #[trigger] last_text_at(surface, id) {
            Some(text) => shaped_by(shaper, text, entry_size(layouts[id as int]), now[id as int]),
            None => now[id as int] == before[id as int],
        }
}

/// Where a subtree has no surface with a text and the id, the walk over it
/// names no text for the id.
pub proof fn lemma_no_text_no_last(surface: Surface, id: SurfaceId)
    requires
        !has_text_at(surface, id),
    ensures
        last_text_at(surface, id) is None,
    decreases surface, surface.children@.len() + 1,
{
    lemma_no_text_none_below(surface, surface.children@.len(), id);
}

/// Where a subtree has no surface with a text and the id, the walk over
/// its first `n` children names no text for the id.
pub proof fn lemma_no_text_none_below(surface: Surface, n: nat, id: SurfaceId)
    requires
        !has_text_at(surface, id),
        n <= surface.children@.len(),
    ensures
        last_text_below(surface, n, id) is None,
    decreases surface, n,
{
    if n > 0 {
        assert(!has_text_at(surface.children@[n - 1], id));
        lemma_no_text_no_last(surface.children@[n - 1], id);
        lemma_no_text_none_below(surface, (n - 1) as nat, id);
    }
}

/// Shapes the texts of a subtree into a table that has an entry for every
/// surface of it: a surface first, then its children in their stored order,
/// each putting the glyphs of its text at its id.
fn shape_into<S: TextShaper>(
    surface: &Surface,
    computed_layouts: &Vec<ComputedLayout>,
    shaper: &S,
    glyph_runs: &mut Vec<Vec<LaidGlyph>>,
)
    requires
        surface.covered_by(computed_layouts@),
        old(glyph_runs)@.len() == computed_layouts@.len(),
    ensures
        final(glyph_runs)@.len() == computed_layouts@.len(),
        shaped_over(*surface, computed_layouts@, *shaper, old(glyph_runs)@, final(glyph_runs)@),
        forall|id: SurfaceId|
            id < computed_layouts@.len() && !has_text_at(*surface, id) ==> final(glyph_runs)@[id as int]
                == old(glyph_runs)@[id as int],
    decreases surface,
{
    match &surface.text {
        Some(text) => {
            let available = computed_layouts[surface.id as usize].size();
            let glyphs = shaper.shape_text(text, available);
            glyph_runs.set(surface.id as usize, glyphs);
        },
        None => {},
    }
    let ghost own = glyph_runs@;
    let mut i: usize = 0;
    while i < surface.children.len()
        invariant
            0 <= i <= surface.children@.len(),
            surface.covered_by(computed_layouts@),
            glyph_runs@.len() == computed_layouts@.len(),
            own.len() == computed_layouts@.len(),
            forall|id: SurfaceId|
                id < computed_layouts@.len() ==> match #[trigger] last_text_below(
                    *surface,
                    i as nat,
                    id,
                ) {
                    Some(text) => shaped_by(
                        *shaper,
                        text,
                        entry_size(computed_layouts@[id as int]),
                        glyph_runs@[id as int],
                    ),
                    None => glyph_runs@[id as int] == own[id as int],
                },
        decreases surface.children@.len() - i,
    {
        let ghost before = glyph_runs@;
        shape_into(&surface.children[i], computed_layouts, shaper, glyph_runs);
        proof {
            assert forall|id: SurfaceId| id < computed_layouts@.len() implies match #[trigger] last_text_below(
                *surface,
                (i + 1) as nat,
                id,
            ) {
                Some(text) => shaped_by(
                    *shaper,
                    text,
                    entry_size(computed_layouts@[id as int]),
                    glyph_runs@[id as int],
                ),
                None => glyph_runs@[id as int] == own[id as int],
            } by {
                let child = last_text_at(surface.children@[i as int], id);
                let earlier = last_text_below(*surface, i as nat, id);
                assert(last_text_below(*surface, (i + 1) as nat, id) == match child {
                    Some(text) => Some(text),
                    None => earlier,
                });
            }
        }
        i += 1;
    }
    proof {
        assert forall|id: SurfaceId|
            id < computed_layouts@.len() implies match #[trigger] last_text_at(*surface, id) {
            Some(text) => shaped_by(
                *shaper,
                text,
                entry_size(computed_layouts@[id as int]),
                glyph_runs@[id as int],
            ),
            None => glyph_runs@[id as int] == old(glyph_runs)@[id as int],
        } by {
            let below = last_text_below(*surface, surface.children@.len(), id);
        }
        assert forall|id: SurfaceId|
            id < computed_layouts@.len() && !has_text_at(*surface, id) implies glyph_runs@[id as int]
            == old(glyph_runs)@[id as int] by {
            lemma_no_text_no_last(*surface, id);
        }
    }
}

/// Has the shaper lay out the text of every surface of the tree that has
/// one, for the size of the surface's layout entry, and gives the glyphs in
/// a table by surface id, as long as the layout table.
///
/// What the glyphs of a text are is up to the shaper. Where several
/// surfaces with text share an id, the table holds the glyphs of the last
/// of them in the order of the walk. Where no surface with text has an id,
/// the table has no glyphs for it.
pub fn shape_texts<S: TextShaper>(
    surface: &Surface,
    computed_layouts: &Vec<ComputedLayout>,
    shaper: &S,
) -> (glyph_runs: Vec<Vec<LaidGlyph>>)
    requires
        surface.covered_by(computed_layouts@),
    ensures
        glyph_runs@.len() == computed_layouts@.len(),
        forall|id: SurfaceId|
            id < computed_layouts@.len() ==> match #[trigger] last_text_at(*surface, id) {
                Some(text) => shaped_by(
                    *shaper,
                    text,
                    entry_size(computed_layouts@[id as int]),
                    glyph_runs@[id as int],
                ),
                None => glyph_runs@[id as int]@.len() == 0,
            },
        forall|id: SurfaceId|
            id < computed_layouts@.len() && !has_text_at(*surface, id) ==> (
            #[trigger] glyph_runs@[id as int])@.len() == 0,
{
    let mut glyph_runs = empty_runs(computed_layouts.len());
    shape_into(surface, computed_layouts, shaper, &mut glyph_runs);
    glyph_runs
}

/// Compiles a tree into a frame: the primitives of every surface in paint
/// order, at absolute positions, each under the clip active for it and
/// tagged with the id of its surface. With the frame come the clip regions
/// to register: one for each surface that declares a radius.
pub fn compile(
    root: &Surface,
    computed_layouts: &Vec<ComputedLayout>,
    glyph_runs: &Vec<Vec<LaidGlyph>>,
    namespace: IdNamespace,
) -> (compilation: Compilation)
    requires
        renderable(*root, computed_layouts@),
    ensures
        frame_view(compilation.frame@) == compiled(
            *root,
            computed_layouts@,
            glyph_runs@,
            namespace,
        ),
        compilation.clips@ == declared_clips(
            *root,
            computed_layouts@,
            LayoutPoint { x: 0, y: 0 },
        ),
        forall|k: int|
            0 <= k < compilation.frame@.len() ==> ((#[trigger] compilation.frame@[k]).clip matches Some(
                region,
            ) ==> compilation.clips@.contains(region)),
{
    let content_rect = LayoutRect {
        origin: LayoutPoint { x: 0, y: 0 },
        size: computed_layouts[0].size(),
    };
    let mut context = RenderContext::new(computed_layouts, glyph_runs, namespace, content_rect);
    context.render_surface(root);
    assert(frame_view(context.builder@) =~= compiled(
        *root,
        computed_layouts@,
        glyph_runs@,
        namespace,
    ));
    assert(context.clips@ =~= declared_clips(
        *root,
        computed_layouts@,
        LayoutPoint { x: 0, y: 0 },
    ));
    proof {
        assert forall|k: int| 0 <= k < context.builder@.len() implies ((
        #[trigger] context.builder@[k]).clip matches Some(region) ==> context.clips@.contains(
            region,
        )) by {
            assert(frame_view(context.builder@)[k].clip == context.builder@[k].clip);
            law_clip_of_primitive_is_registered(
                *root,
                computed_layouts@,
                LayoutPoint { x: 0, y: 0 },
                None,
                glyph_runs@,
                namespace,
                k,
            );
        }
    }
    Compilation { frame: context.builder, clips: context.clips }
}

} // verus!
