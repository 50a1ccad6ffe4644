//! The render service: compiles a frame, hands it to the display-list
//! backend as a transaction, and keeps it for the point query.
//!
//! The backend works on its own and signals when a transaction has been
//! rendered. The service owns the protocol around it: one transaction is in
//! flight at a time, and presentation follows the signal. The embedder
//! carries transactions to the backend and the signal back.

use vstd::prelude::*;
use crate::compiler::{
    compile, compiled, declared_clips, entry_size, has_text_at, last_text_at, renderable,
    shape_texts, shaped_by, Compilation, MAX_DEPTH,
};
use crate::display_list::{
    clip_table, duplicate_frame, frame_view, hit_test_frame, tabulates, topmost_tag, ClipTable,
    CompiledFrame, IdNamespace,
};
use crate::geometry::{ComputedLayout, LayoutPoint, LayoutSize};
use crate::resources::{font_registrations, register_font, FontKey, ResourceUpdate};
use crate::surface::{Surface, SurfaceId};
use crate::text::{LaidGlyph, TextShaper};

verus! {

/// A pipeline of the backend. There is one per window.
#[derive(Clone, Copy, Debug, PartialEq, Eq, Structural)]
pub struct PipelineId(pub u32, pub u32);

/// The generation of a display list within its pipeline.
#[derive(Clone, Copy, Debug, PartialEq, Eq, Structural)]
pub struct Epoch(pub u32);

/// The size of the framebuffer in device pixels.
#[derive(Clone, Copy, Debug, PartialEq, Eq, Structural)]
pub struct DeviceIntSize {
    pub width: i32,
    pub height: i32,
}

/// The primitives of one frame with the pipeline and content size they
/// were built for, and the clip regions to register for them: one for each
/// surface that declares a radius.
#[derive(Debug)]
pub struct DisplayList {
    pub pipeline_id: PipelineId,
    pub content_size: LayoutSize,
    pub primitives: CompiledFrame,
    pub clips: ClipTable,
}

/// A display list as a transaction sets it.
#[derive(Debug)]
pub struct SetDisplayList {
    pub epoch: Epoch,
    pub viewport_size: LayoutSize,
    pub display_list: DisplayList,
}

/// One submission to the backend: resource registrations and at most one
/// display list.
#[derive(Debug)]
pub struct Transaction {
    pub root_pipeline: PipelineId,
    pub resource_updates: Vec<ResourceUpdate>,
    pub display_list: Option<SetDisplayList>,
    pub generate_frame: bool,
}

/// What the backend has been sent and has not yet signalled.
#[derive(Clone, Copy, Debug, PartialEq, Eq, Structural)]
pub enum InFlight {
    Nothing,
    /// A transaction that loads fonts. Nothing is presented after it.
    Fonts,
    /// A transaction that sets a frame. The frame is presented after it.
    Frame,
}

/// The render service of one window.
pub struct WebrenderRenderService<S: TextShaper> {
    pub text_shaper: S,
    pub namespace: IdNamespace,
    pub layout_size: LayoutSize,
    pub fb_size: DeviceIntSize,
    pub in_flight: InFlight,
    /// The most recently submitted frame.
    pub frame: CompiledFrame,
}

/// The pipeline of the window's frames.
pub open spec fn frame_pipeline() -> PipelineId {
    PipelineId(0, 0)
}

/// The pipeline that stands for none.
pub open spec fn dummy_pipeline() -> PipelineId {
    PipelineId(0xffff_ffff, 0xffff_ffff)
}

impl<S: TextShaper> WebrenderRenderService<S> {
    /// A service for a framebuffer of 1024 by 768 pixels, with nothing in
    /// flight and no frame submitted.
    pub fn new(text_shaper: S, namespace: IdNamespace) -> (service: Self)
        ensures
            service.text_shaper == text_shaper,
            service.namespace == namespace,
            service.fb_size == (DeviceIntSize { width: 1024, height: 768 }),
            service.layout_size == (LayoutSize { width: 1024, height: 768 }),
            service.in_flight == InFlight::Nothing,
            service.frame@.len() == 0,
    {
        let fb_size = DeviceIntSize { width: 1024, height: 768 };
        let layout_size = LayoutSize { width: fb_size.width as i64, height: fb_size.height as i64 };
        WebrenderRenderService {
            text_shaper,
            namespace,
            layout_size,
            fb_size,
            in_flight: InFlight::Nothing,
            frame: Vec::new(),
        }
    }

    /// Everything but what is in flight and the submitted frame is the same.
    pub open spec fn same_setup_as(self, other: Self) -> bool {
        &&& self.text_shaper == other.text_shaper
        &&& self.namespace == other.namespace
        &&& self.layout_size == other.layout_size
        &&& self.fb_size == other.fb_size
    }

    /// Finds the surface under a point of the most recently submitted
    /// frame: the tag of the topmost primitive that the point hits. The
    /// rounding of clips is not taken into account.
    pub fn hit_test(&self, x: i64, y: i64) -> (tag: Option<SurfaceId>)
        ensures
            tag == topmost_tag(frame_view(self.frame@), x as int, y as int),
    {
        hit_test_frame(&self.frame, x, y)
    }

    /// Does nothing: the service holds no state that depends on the
    /// window's size. After a resize the embedder computes a new layout
    /// table and renders again.
    pub fn resize() {
    }

    /// Whether `render` accepts the tree with the table.
    pub fn can_render(surface: &Surface, computed_layouts: &Vec<ComputedLayout>) -> (ok: bool)
        ensures
            ok == renderable(*surface, computed_layouts@),
    {
        surface.is_covered_by(computed_layouts) && surface.fits_depth(MAX_DEPTH)
    }

    /// Builds the transaction that loads a font and its instances, and
    /// marks it as in flight.
    pub fn load_fonts(&mut self, font_key: FontKey, font: Vec<u8>, font_index: u32) -> (transaction:
        Transaction)
        requires
            old(self).in_flight == InFlight::Nothing,
        ensures
            transaction.root_pipeline == dummy_pipeline(),
            transaction.resource_updates@ == font_registrations(font_key, font, font_index),
            transaction.display_list is None,
            transaction.generate_frame,
            final(self).in_flight == InFlight::Fonts,
            final(self).frame == old(self).frame,
            final(self).same_setup_as(*old(self)),
    {
        self.in_flight = InFlight::Fonts;
        Transaction {
            root_pipeline: PipelineId(0xffff_ffff, 0xffff_ffff),
            resource_updates: register_font(font_key, font, font_index),
            display_list: None,
            generate_frame: true,
        }
    }

    /// Builds the transaction that sets the frame and registers its clip
    /// regions, and marks it as in flight. A copy of the frame's primitives
    /// is kept for the point query.
    pub fn send_frame(&mut self, content_size: LayoutSize, builder: Compilation) -> (transaction:
        Transaction)
        requires
            old(self).in_flight == InFlight::Nothing,
        ensures
            transaction.root_pipeline == frame_pipeline(),
            transaction.resource_updates@.len() == 0,
            transaction.generate_frame,
            transaction.display_list matches Some(set) && {
                &&& set.epoch == Epoch(0)
                &&& set.viewport_size == old(self).layout_size
                &&& set.display_list.pipeline_id == frame_pipeline()
                &&& set.display_list.content_size == content_size
                &&& set.display_list.primitives == builder.frame
                &&& tabulates(set.display_list.clips, frame_view(builder.frame@), builder.clips@)
            },
            frame_view(final(self).frame@) == frame_view(builder.frame@),
            final(self).in_flight == InFlight::Frame,
            final(self).same_setup_as(*old(self)),
    {
        self.frame = duplicate_frame(&builder.frame);
        self.in_flight = InFlight::Frame;
        let clips = clip_table(&builder.frame, builder.clips);
        Transaction {
            root_pipeline: PipelineId(0, 0),
            resource_updates: Vec::new(),
            display_list: Some(
                SetDisplayList {
                    epoch: Epoch(0),
                    viewport_size: self.layout_size,
                    display_list: DisplayList {
                        pipeline_id: PipelineId(0, 0),
                        content_size,
                        primitives: builder.frame,
                        clips,
                    },
                },
            ),
            generate_frame: true,
        }
    }

    /// Takes note that the backend has signalled, or that its signal can
    /// no longer come, and says what to present: the framebuffer size where
    /// a frame was in flight, nothing otherwise. Nothing is in flight after.
    pub fn wait_for_frame(&mut self) -> (present: Option<DeviceIntSize>)
        ensures
            present == (if old(self).in_flight == InFlight::Frame {
                Some(old(self).fb_size)
            } else {
                None
            }),
            final(self).in_flight == InFlight::Nothing,
            final(self).frame == old(self).frame,
            final(self).same_setup_as(*old(self)),
    {
        let present = match self.in_flight {
            InFlight::Frame => Some(self.fb_size),
            _ => None,
        };
        self.in_flight = InFlight::Nothing;
        present
    }

    /// Compiles the tree against the table and builds the transaction that
    /// sets the compiled frame.
    ///
    /// The root is placed at the frame's origin with no clip active. The
    /// content size is that of the table's first entry. The frame is the
    /// one compiled with the glyph runs that the shaper made for each text
    /// and the size of its surface's layout entry; surfaces without text
    /// have none.
    pub fn render(&mut self, surface: &Surface, computed_layouts: &Vec<ComputedLayout>) -> (transaction:
        Transaction)
        requires
            renderable(*surface, computed_layouts@),
            old(self).in_flight == InFlight::Nothing,
        ensures
            transaction.root_pipeline == frame_pipeline(),
            transaction.resource_updates@.len() == 0,
            transaction.generate_frame,
            transaction.display_list matches Some(set) && {
                &&& set.epoch == Epoch(0)
                &&& set.viewport_size == old(self).layout_size
                &&& set.display_list.pipeline_id == frame_pipeline()
                &&& set.display_list.content_size == (LayoutSize {
                    width: computed_layouts@[0].width as i64,
                    height: computed_layouts@[0].height as i64,
                })
                &&& frame_view(set.display_list.primitives@) == frame_view(final(self).frame@)
                &&& tabulates(
                    set.display_list.clips,
                    frame_view(final(self).frame@),
                    declared_clips(*surface, computed_layouts@, LayoutPoint { x: 0, y: 0 }),
                )
                &&& forall|k: int|
                    0 <= k < set.display_list.primitives@.len() ==> ((
                    #[trigger] set.display_list.primitives@[k]).clip is Some
                        ==> set.display_list.clips.of_primitive@[k] is Some)
            },
            exists|runs: Seq<Vec<LaidGlyph>>|
                {
                    &&& runs.len() == computed_layouts@.len()
                    &&& forall|id: SurfaceId|
                        id < runs.len() && !has_text_at(*surface, id) ==> (#[trigger] runs[id as int])@.len()
                            == 0
                    &&& forall|id: SurfaceId|
                        id < runs.len() ==> (#[trigger] last_text_at(*surface, id) matches Some(
                            text,
                        ) ==> shaped_by(
                            old(self).text_shaper,
                            text,
                            entry_size(computed_layouts@[id as int]),
                            runs[id as int],
                        ))
                    &&& frame_view(final(self).frame@) == #[trigger] compiled(
                        *surface,
                        computed_layouts@,
                        runs,
                        old(self).namespace,
                    )
                },
            final(self).in_flight == InFlight::Frame,
            final(self).same_setup_as(*old(self)),
    {
        let content_size = computed_layouts[0].size();
        let glyph_runs = shape_texts(surface, computed_layouts, &self.text_shaper);
        let builder = compile(surface, computed_layouts, &glyph_runs, self.namespace);
        let ghost compiled_frame = builder.frame@;
        let transaction = self.send_frame(content_size, builder);
        proof {
            let set = transaction.display_list->0;
            assert forall|k: int|
                0 <= k < set.display_list.primitives@.len() && (
                #[trigger] set.display_list.primitives@[k]).clip is Some implies set.display_list.clips.of_primitive@[k] is Some by {
                assert(frame_view(compiled_frame)[k].clip == compiled_frame[k].clip);
            }
        }
        transaction
    }
}

} // verus!
