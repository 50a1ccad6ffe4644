//! The compiled frame: an ordered list of primitives, later ones painting
//! over earlier ones, and the point query over it.

use vstd::prelude::*;
use crate::geometry::{LayoutRect, LayoutSize, LayoutVector2D};
use crate::style::{BorderRadius, BorderSide, Color};
use crate::surface::SurfaceId;
use crate::text::GlyphInstance;

verus! {

/// The range of keys that one backend connection hands out.
#[derive(Clone, Copy, Debug, PartialEq, Eq, Structural)]
pub struct IdNamespace(pub u32);

/// A font at one pixel size.
#[derive(Clone, Copy, Debug, PartialEq, Eq, Structural)]
pub struct FontInstanceKey(pub IdNamespace, pub u32);

/// A rounded rectangle outside of which nothing is drawn.
#[derive(Clone, Copy, Debug, PartialEq, Eq, Structural)]
pub struct ClipRegion {
    pub rect: LayoutRect,
    pub radii: BorderRadius,
}

/// Where a primitive lies and whose it is.
#[derive(Clone, Copy, Debug, PartialEq, Eq, Structural)]
pub struct LayoutPrimitiveInfo {
    /// Absolute rectangle of the owning surface.
    pub rect: LayoutRect,
    /// Rectangle outside of which the primitive itself is not drawn.
    pub clip_rect: LayoutRect,
    /// Picking tag: the id of the owning surface. A primitive without a tag
    /// is invisible to the point query.
    pub tag: Option<SurfaceId>,
}

/// A shadow around `box_bounds`, drawn outside of it. Its corners are those
/// of the primitive's radius.
#[derive(Clone, Copy, Debug, PartialEq, Eq, Structural)]
pub struct BoxShadowDisplayItem {
    pub box_bounds: LayoutRect,
    pub offset: LayoutVector2D,
    pub color: Color,
    pub blur_radius: i32,
    pub spread_radius: i32,
}

/// A rectangle filled with one color.
#[derive(Clone, Copy, Debug, PartialEq, Eq, Structural)]
pub struct RectangleDisplayItem {
    pub color: Color,
}

/// The image at `url`, stretched to `stretch_size`, untinted, with alpha
/// multiplied into its colors.
#[derive(Clone, Debug)]
pub struct ImageDisplayItem {
    pub url: String,
    pub stretch_size: LayoutSize,
}

/// A run of positioned glyphs in one font instance and color.
#[derive(Clone, Debug)]
pub struct TextDisplayItem {
    pub font_key: FontInstanceKey,
    pub color: Color,
    pub glyphs: Vec<GlyphInstance>,
}

/// A border of four sides, drawn with anti-aliasing. Its corners are
/// those of the primitive's radius.
#[derive(Clone, Copy, Debug, PartialEq, Eq, Structural)]
pub struct BorderDisplayItem {
    pub top: BorderSide,
    pub right: BorderSide,
    pub bottom: BorderSide,
    pub left: BorderSide,
}

/// What a primitive draws.
#[derive(Clone, Debug)]
pub enum SpecificDisplayItem {
    BoxShadow(BoxShadowDisplayItem),
    Rectangle(RectangleDisplayItem),
    Image(ImageDisplayItem),
    Text(TextDisplayItem),
    Border(BorderDisplayItem),
}

/// One drawable unit of a compiled frame.
#[derive(Clone, Debug)]
pub struct Primitive {
    pub item: SpecificDisplayItem,
    pub layout: LayoutPrimitiveInfo,
    /// The active clip, if any surface at or above the owner declared a radius.
    pub clip: Option<ClipRegion>,
    /// The radius the owner declared; square corners where it declared none.
    pub border_radius: BorderRadius,
}

/// A compiled frame: its primitives in paint order. A later primitive
/// paints over an earlier one.
pub type CompiledFrame = Vec<Primitive>;

/// What a primitive draws, as a mathematical value.
pub enum ItemView {
    BoxShadow(BoxShadowDisplayItem),
    Rectangle(RectangleDisplayItem),
    Image { url: Seq<char>, stretch_size: LayoutSize },
    Text { font_key: FontInstanceKey, color: Color, glyphs: Seq<GlyphInstance> },
    Border(BorderDisplayItem),
}

/// A primitive as a mathematical value.
pub struct PrimitiveView {
    pub item: ItemView,
    pub layout: LayoutPrimitiveInfo,
    pub clip: Option<ClipRegion>,
    pub border_radius: BorderRadius,
}

impl View for SpecificDisplayItem {
    type V = ItemView;

    open spec fn view(&self) -> ItemView {
        match *self {
            SpecificDisplayItem::BoxShadow(shadow) => ItemView::BoxShadow(shadow),
            SpecificDisplayItem::Rectangle(rectangle) => ItemView::Rectangle(rectangle),
            SpecificDisplayItem::Image(image) => ItemView::Image {
                url: image.url@,
                stretch_size: image.stretch_size,
            },
            SpecificDisplayItem::Text(text) => ItemView::Text {
                font_key: text.font_key,
                color: text.color,
                glyphs: text.glyphs@,
            },
            SpecificDisplayItem::Border(border) => ItemView::Border(border),
        }
    }
}

impl View for Primitive {
    type V = PrimitiveView;

    open spec fn view(&self) -> PrimitiveView {
        PrimitiveView {
            item: self.item@,
            layout: self.layout,
            clip: self.clip,
            border_radius: self.border_radius,
        }
    }
}

/// The primitives of a list as mathematical values, in the same order.
pub open spec fn frame_view(primitives: Seq<Primitive>) -> Seq<PrimitiveView> {
    Seq::new(primitives.len(), |i: int| primitives[i]@)
}

impl PrimitiveView {
    /// The point query counts the point as on this primitive: the primitive
    /// is tagged, and the point lies in its rectangle and clip rectangle, and
    /// in the bounding rectangle of the active clip. The rounding of the
    /// clip is ignored.
    pub open spec fn hit_by(self, x: int, y: int) -> bool {
        &&& self.layout.tag is Some
        &&& self.layout.rect.holds(x, y)
        &&& self.layout.clip_rect.holds(x, y)
        &&& self.clip matches Some(clip) ==> clip.rect.holds(x, y)
    }
}

/// `at` is the place of the last primitive of the frame that the point hits.
pub open spec fn is_topmost_hit(frame: Seq<PrimitiveView>, x: int, y: int, at: int) -> bool {
    &&& 0 <= at < frame.len()
    &&& frame[at].hit_by(x, y)
    &&& forall|j: int| at < j < frame.len() ==> !(#[trigger] frame[j]).hit_by(x, y)
}

/// The point hits no primitive of the frame.
pub open spec fn misses_all(frame: Seq<PrimitiveView>, x: int, y: int) -> bool {
    forall|j: int| 0 <= j < frame.len() ==> !(#[trigger] frame[j]).hit_by(x, y)
}

/// The tag of the topmost primitive that the point hits, if it hits any.
pub open spec fn topmost_tag(frame: Seq<PrimitiveView>, x: int, y: int) -> Option<SurfaceId> {
    if exists|at: int| is_topmost_hit(frame, x, y, at) {
        frame[choose|at: int| is_topmost_hit(frame, x, y, at)].layout.tag
    } else {
        None
    }
}

/// Two places that are both topmost for a point are the same place.
pub proof fn lemma_topmost_is_unique(frame: Seq<PrimitiveView>, x: int, y: int, a: int, b: int)
    requires
        is_topmost_hit(frame, x, y, a),
        is_topmost_hit(frame, x, y, b),
    ensures
        a == b,
{
    if a < b {
        assert(!frame[b].hit_by(x, y));
    } else if b < a {
        assert(!frame[a].hit_by(x, y));
    }
}

/// Where a point hits some primitive of a frame, there is a topmost one
/// that it hits, at the same place or later.
pub proof fn lemma_topmost_exists(frame: Seq<PrimitiveView>, x: int, y: int, hit: int) -> (at: int)
    requires
        0 <= hit < frame.len(),
        frame[hit].hit_by(x, y),
    ensures
        hit <= at,
        is_topmost_hit(frame, x, y, at),
    decreases frame.len() - hit,
{
    if forall|j: int| hit < j < frame.len() ==> !(#[trigger] frame[j]).hit_by(x, y) {
        hit
    } else {
        let later = choose|j: int| hit < j < frame.len() && (#[trigger] frame[j]).hit_by(x, y);
        lemma_topmost_exists(frame, x, y, later)
    }
}

impl Primitive {
    /// Whether the point query counts the point as on this primitive.
    pub fn hit(&self, x: i64, y: i64) -> (inside: bool)
        ensures
            inside == self@.hit_by(x as int, y as int),
    {
        let in_clip = match self.clip {
            Some(clip) => clip.rect.contains(x, y),
            None => true,
        };
        self.layout.tag.is_some() && self.layout.rect.contains(x, y)
            && self.layout.clip_rect.contains(x, y) && in_clip
    }
}

impl SpecificDisplayItem {
    /// A copy that draws the same.
    pub fn duplicate(&self) -> (copy: SpecificDisplayItem)
        ensures
            copy@ == self@,
    {
        match self {
            SpecificDisplayItem::BoxShadow(shadow) => SpecificDisplayItem::BoxShadow(*shadow),
            SpecificDisplayItem::Rectangle(rectangle) => SpecificDisplayItem::Rectangle(*rectangle),
            SpecificDisplayItem::Image(image) => SpecificDisplayItem::Image(
                ImageDisplayItem { url: image.url.clone(), stretch_size: image.stretch_size },
            ),
            SpecificDisplayItem::Text(text) => {
                let mut glyphs: Vec<GlyphInstance> = Vec::new();
                let mut i: usize = 0;
                while i < text.glyphs.len()
                    invariant
                        0 <= i <= text.glyphs@.len(),
                        glyphs@ == text.glyphs@.take(i as int),
                    decreases text.glyphs@.len() - i,
                {
                    glyphs.push(text.glyphs[i]);
                    i += 1;
                    assert(glyphs@ =~= text.glyphs@.take(i as int));
                }
                assert(glyphs@ =~= text.glyphs@);
                SpecificDisplayItem::Text(
                    TextDisplayItem { font_key: text.font_key, color: text.color, glyphs },
                )
            },
            SpecificDisplayItem::Border(border) => SpecificDisplayItem::Border(*border),
        }
    }
}

/// Copies a frame, primitive by primitive.
pub fn duplicate_frame(primitives: &CompiledFrame) -> (copy: CompiledFrame)
    ensures
        frame_view(copy@) == frame_view(primitives@),
{
    let mut copy: Vec<Primitive> = Vec::new();
    let mut i: usize = 0;
    while i < primitives.len()
        invariant
            0 <= i <= primitives@.len(),
            copy@.len() == i,
            forall|k: int| 0 <= k < i ==> copy@[k]@ == primitives@[k]@,
        decreases primitives@.len() - i,
    {
        let primitive = &primitives[i];
        copy.push(
            Primitive {
                item: primitive.item.duplicate(),
                layout: primitive.layout,
                clip: primitive.clip,
                border_radius: primitive.border_radius,
            },
        );
        i += 1;
    }
    assert(frame_view(copy@) =~= frame_view(primitives@));
    copy
}

/// Finds the surface under a point: the tag of the last primitive in paint
/// order that the point hits.
pub fn hit_test_frame(primitives: &CompiledFrame, x: i64, y: i64) -> (tag: Option<SurfaceId>)
    ensures
        tag == topmost_tag(frame_view(primitives@), x as int, y as int),
        tag is None <==> misses_all(frame_view(primitives@), x as int, y as int),
{
    let ghost frame = frame_view(primitives@);
    let mut i: usize = primitives.len();
    while i > 0
        invariant
            0 <= i <= primitives.len(),
            frame == frame_view(primitives@),
            forall|j: int| i <= j < frame.len() ==> !(#[trigger] frame[j]).hit_by(x as int, y as int),
        decreases i,
    {
        i -= 1;
        if primitives[i].hit(x, y) {
            proof {
                assert(is_topmost_hit(frame, x as int, y as int, i as int));
                let chosen = choose|at: int| is_topmost_hit(frame, x as int, y as int, at);
                lemma_topmost_is_unique(frame, x as int, y as int, i as int, chosen);
            }
            return primitives[i].layout.tag;
        }
    }
    proof {
        assert forall|at: int| !is_topmost_hit(frame, x as int, y as int, at) by {
            if 0 <= at < frame.len() {
                assert(!frame[at].hit_by(x as int, y as int));
            }
        }
    }
    None
}

/// The clip regions registered for a frame, and for every primitive the
/// place of the region that it is drawn under.
#[derive(Debug)]
pub struct ClipTable {
    pub regions: Vec<ClipRegion>,
    pub of_primitive: Vec<Option<usize>>,
}

/// `at` is the first place among the regions that holds `clip`.
pub open spec fn is_first_place(regions: Seq<ClipRegion>, clip: ClipRegion, at: int) -> bool {
    &&& 0 <= at < regions.len()
    &&& regions[at] == clip
    &&& forall|j: int| 0 <= j < at ==> regions[j] != clip
}

/// The table holds the regions as they were registered and gives for every
/// primitive the first place of its clip among them; nothing for a
/// primitive without a clip, and nothing where the clip was not registered.
pub open spec fn tabulates(
    table: ClipTable,
    frame: Seq<PrimitiveView>,
    regions: Seq<ClipRegion>,
) -> bool {
    &&& table.regions@ == regions
    &&& table.of_primitive@.len() == frame.len()
    &&& forall|k: int|
        0 <= k < frame.len() ==> match (#[trigger] frame[k]).clip {
            Some(clip) => if regions.contains(clip) {
                &&& table.of_primitive@[k] matches Some(place)
                &&& is_first_place(regions, clip, place as int)
            } else {
                table.of_primitive@[k] is None
            },
            None => table.of_primitive@[k] is None,
        }
}

/// Finds the first place of a region among those registered.
fn find_region(regions: &Vec<ClipRegion>, clip: ClipRegion) -> (found: Option<usize>)
    ensures
        match found {
            Some(place) => is_first_place(regions@, clip, place as int),
            None => !regions@.contains(clip),
        },
{
    let mut i: usize = 0;
    while i < regions.len()
        invariant
            0 <= i <= regions@.len(),
            forall|j: int| 0 <= j < i ==> regions@[j] != clip,
        decreases regions@.len() - i,
    {
        if regions[i] == clip {
            return Some(i);
        }
        i += 1;
    }
    None
}

/// Says for every primitive of a frame which of the registered clip
/// regions it is drawn under.
pub fn clip_table(primitives: &CompiledFrame, regions: Vec<ClipRegion>) -> (table: ClipTable)
    ensures
        tabulates(table, frame_view(primitives@), regions@),
{
    let ghost frame = frame_view(primitives@);
    let mut of_primitive: Vec<Option<usize>> = Vec::new();
    let mut k: usize = 0;
    while k < primitives.len()
        invariant
            0 <= k <= primitives@.len(),
            frame == frame_view(primitives@),
            of_primitive@.len() == k,
            forall|j: int|
                0 <= j < k ==> match (#[trigger] frame[j]).clip {
                    Some(clip) => if regions@.contains(clip) {
                        &&& of_primitive@[j] matches Some(place)
                        &&& is_first_place(regions@, clip, place as int)
                    } else {
                        of_primitive@[j] is None
                    },
                    None => of_primitive@[j] is None,
                },
        decreases primitives@.len() - k,
    {
        assert(frame[k as int].clip == primitives@[k as int].clip);
        match primitives[k].clip {
            Some(clip) => {
                let place = find_region(&regions, clip);
                of_primitive.push(place);
            },
            None => {
                of_primitive.push(None);
            },
        }
        k += 1;
    }
    ClipTable { regions, of_primitive }
}

} // verus!
