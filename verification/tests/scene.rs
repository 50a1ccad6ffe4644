use stain::compiler::{compile, empty_runs, shape_texts, RenderContext, MAX_DEPTH};
use stain::display_list::{
    hit_test_frame, BoxShadowDisplayItem, ClipRegion, FontInstanceKey, IdNamespace,
    LayoutPrimitiveInfo, Primitive, RectangleDisplayItem, SpecificDisplayItem,
};
use stain::geometry::{
    ComputedLayout, LayoutPoint, LayoutRect, LayoutSize, LayoutVector2D,
};
use stain::service::WebrenderRenderService;
use stain::style::{
    Border, BorderRadius, BorderSide, BorderStyle, BoxShadow, Color, Image, Text,
};
use stain::surface::Surface;
use stain::text::{baseline, place_glyphs, GlyphInstance, LaidGlyph, TextShaper};

const RED: Color = Color(255, 0, 0, 255);
const BLACK: Color = Color(0, 0, 0, 255);

/// Lays every character out on one line, ten units apart.
struct LineShaper;

impl TextShaper for LineShaper {
    fn shape_text(&self, text: &Text, _available: LayoutSize) -> Vec<LaidGlyph> {
        text.text
            .chars()
            .enumerate()
            .map(|(i, c)| LaidGlyph { glyph_index: c as u32, x: 10 * i as i32, y: 0 })
            .collect()
    }
}

/// Lays out as many glyphs as the available width has hundreds.
struct WidthShaper;

impl TextShaper for WidthShaper {
    fn shape_text(&self, _text: &Text, available: LayoutSize) -> Vec<LaidGlyph> {
        (0..available.width / 100)
            .map(|i| LaidGlyph { glyph_index: i as u32, x: 0, y: available.height as i32 })
            .collect()
    }
}

fn rect(x: i64, y: i64, width: i64, height: i64) -> LayoutRect {
    LayoutRect::new(LayoutPoint::new(x, y), LayoutSize::new(width, height))
}

fn solid(width: i32) -> Border {
    Border::uniform(BorderSide { width, color: BLACK, style: BorderStyle::Solid })
}

fn text(content: &str, font_size: u32, line_height: u32) -> Text {
    Text { text: content.to_string(), font_size, line_height, color: BLACK }
}

fn compile_plain(root: &Surface, layouts: &Vec<ComputedLayout>) -> Vec<Primitive> {
    let runs = empty_runs(layouts.len());
    assert!(WebrenderRenderService::<LineShaper>::can_render(root, layouts));
    compile(root, layouts, &runs, IdNamespace(1)).frame
}

fn context<'a>(
    layouts: &'a Vec<ComputedLayout>,
    runs: &'a Vec<Vec<LaidGlyph>>,
) -> RenderContext<'a> {
    RenderContext::new(layouts, runs, IdNamespace(1), rect(0, 0, 100, 100))
}

#[test]
fn child_with_background_and_rounded_border() {
    let mut root = Surface::new(0);
    let mut child = Surface::new(1);
    child.background_color = Some(RED);
    child.border_radius = Some(BorderRadius::uniform(5));
    child.border = Some(solid(1));
    root.append_child(child);
    let layouts = vec![ComputedLayout::new(0, 0, 200, 100), ComputedLayout::new(10, 10, 50, 50)];

    let mut service = WebrenderRenderService::new(LineShaper, IdNamespace(7));
    assert!(WebrenderRenderService::<LineShaper>::can_render(&root, &layouts));
    let transaction = service.render(&root, &layouts);
    let list = transaction.display_list.expect("a frame sets a display list").display_list;

    assert!(list.primitives.len() >= 2);
    assert_eq!(list.primitives.len(), 2);
    let background = &list.primitives[0];
    assert!(matches!(background.item, SpecificDisplayItem::Rectangle(r) if r.color == RED));
    assert_eq!(background.layout.rect, rect(10, 10, 50, 50));
    assert_eq!(background.layout.tag, Some(1));
    assert_eq!(
        background.clip,
        Some(ClipRegion { rect: rect(10, 10, 50, 50), radii: BorderRadius(5, 5, 5, 5) })
    );
    let border = &list.primitives[1];
    assert!(matches!(border.item, SpecificDisplayItem::Border(b) if b.top.width == 1));
    assert_eq!(border.layout.rect, rect(10, 10, 50, 50));
    assert_eq!(border.layout.tag, Some(1));
    assert_eq!(border.border_radius, BorderRadius(5, 5, 5, 5));
    assert_eq!(border.clip, background.clip);
}

#[test]
fn test_background_color() {
    let layouts = vec![ComputedLayout::new(0, 0, 100, 100)];
    let runs = empty_runs(1);
    let ctx = context(&layouts, &runs);
    let item = ctx.background_color(BLACK);
    assert!(matches!(
        item,
        SpecificDisplayItem::Rectangle(RectangleDisplayItem { color }) if color == BLACK
    ));
}

#[test]
fn test_box_shadow() {
    let layouts = vec![ComputedLayout::new(0, 0, 100, 100)];
    let runs = empty_runs(1);
    let ctx = context(&layouts, &runs);
    let offset = LayoutVector2D { x: 5, y: 5 };
    let item = ctx.box_shadow(BoxShadow { offset, blur: 10, spread: 5, color: BLACK });
    match item {
        SpecificDisplayItem::BoxShadow(shadow) => assert_eq!(
            shadow,
            BoxShadowDisplayItem {
                box_bounds: rect(0, 0, 100, 100),
                offset,
                color: BLACK,
                blur_radius: 10,
                spread_radius: 5,
            }
        ),
        other => panic!("expected a shadow, found {:?}", other),
    }
}

#[test]
fn push_uses_the_state_of_the_context() {
    let layouts = vec![ComputedLayout::new(0, 0, 100, 100)];
    let runs = empty_runs(1);
    let mut ctx = context(&layouts, &runs);
    ctx.layout = LayoutPrimitiveInfo {
        rect: rect(1, 2, 3, 4),
        clip_rect: rect(1, 2, 3, 4),
        tag: Some(9),
    };
    ctx.border_radius = BorderRadius::uniform(2);
    ctx.space_and_clip = Some(ClipRegion { rect: rect(0, 0, 9, 9), radii: BorderRadius::zero() });
    let item = ctx.border(solid(3));
    ctx.push(item);
    assert_eq!(ctx.builder.len(), 1);
    let pushed = &ctx.builder[0];
    assert_eq!(pushed.layout, ctx.layout);
    assert_eq!(pushed.clip, ctx.space_and_clip);
    assert_eq!(pushed.border_radius, BorderRadius(2, 2, 2, 2));
    assert!(matches!(pushed.item, SpecificDisplayItem::Border(b) if b.left.width == 3));
}

#[test]
fn shadow_may_cover_the_box_moved_and_grown() {
    let mut root = Surface::new(0);
    root.box_shadow = Some(BoxShadow {
        offset: LayoutVector2D { x: 5, y: -3 },
        blur: 10,
        spread: 5,
        color: BLACK,
    });
    let layouts = vec![ComputedLayout::new(20, 30, 100, 50)];
    let frame = compile_plain(&root, &layouts);
    assert_eq!(frame.len(), 1);
    assert_eq!(frame[0].layout.rect, rect(20, 30, 100, 50));
    // moved by (5, -3), grown by 5 + 10 on every side
    assert_eq!(frame[0].layout.clip_rect, rect(10, 12, 130, 80));
    assert_eq!(frame[0].border_radius, BorderRadius(0, 0, 0, 0));
    assert_eq!(frame[0].clip, None);
}

#[test]
fn all_five_are_emitted_in_paint_order_around_the_children() {
    let mut root = Surface::new(0);
    root.box_shadow = Some(BoxShadow {
        offset: LayoutVector2D { x: 0, y: 0 },
        blur: 1,
        spread: 1,
        color: BLACK,
    });
    root.background_color = Some(RED);
    root.image = Some(Image { url: "picture.png".to_string() });
    root.text = Some(text("ab", 27, 20));
    root.border = Some(solid(2));
    let mut first = Surface::new(1);
    first.background_color = Some(BLACK);
    first.border = Some(solid(1));
    let mut second = Surface::new(2);
    second.background_color = Some(RED);
    root.append_child(first);
    root.append_child(second);
    let layouts = vec![
        ComputedLayout::new(0, 0, 300, 200),
        ComputedLayout::new(1, 1, 10, 10),
        ComputedLayout::new(2, 2, 20, 20),
    ];
    let runs = shape_texts(&root, &layouts, &LineShaper);
    let frame = compile(&root, &layouts, &runs, IdNamespace(1)).frame;

    let kinds: Vec<(&str, Option<u16>)> = frame
        .iter()
        .map(|p| {
            let kind = match p.item {
                SpecificDisplayItem::BoxShadow(_) => "shadow",
                SpecificDisplayItem::Rectangle(_) => "background",
                SpecificDisplayItem::Image(_) => "image",
                SpecificDisplayItem::Text(_) => "text",
                SpecificDisplayItem::Border(_) => "border",
            };
            (kind, p.layout.tag)
        })
        .collect();
    assert_eq!(
        kinds,
        vec![
            ("shadow", Some(0)),
            ("background", Some(0)),
            ("image", Some(0)),
            ("text", Some(0)),
            ("background", Some(1)),
            ("border", Some(1)),
            ("background", Some(2)),
            ("border", Some(0)),
        ]
    );
    match &frame[2].item {
        SpecificDisplayItem::Image(image) => {
            assert_eq!(image.url, "picture.png");
            assert_eq!(image.stretch_size, LayoutSize::new(300, 200));
        }
        other => panic!("expected an image, found {:?}", other),
    }
}

#[test]
fn rectangles_are_sums_of_the_origins_above() {
    let mut root = Surface::new(0);
    let mut middle = Surface::new(1);
    let mut leaf = Surface::new(2);
    root.background_color = Some(RED);
    middle.background_color = Some(RED);
    leaf.background_color = Some(RED);
    middle.append_child(leaf);
    root.append_child(middle);
    let layouts = vec![
        ComputedLayout::new(100, 200, 800, 600),
        ComputedLayout::new(-30, 40, 300, 300),
        ComputedLayout::new(7, -9, 20, 10),
    ];
    let frame = compile_plain(&root, &layouts);
    assert_eq!(frame.len(), 3);
    assert_eq!(frame[0].layout.rect, rect(100, 200, 800, 600));
    assert_eq!(frame[1].layout.rect, rect(100 - 30, 200 + 40, 300, 300));
    assert_eq!(frame[2].layout.rect, rect(100 - 30 + 7, 200 + 40 - 9, 20, 10));
    for primitive in &frame {
        assert_eq!(primitive.layout.clip_rect, primitive.layout.rect);
    }
}

#[test]
fn sums_do_not_wrap_at_the_ends_of_the_entry_range() {
    let mut root = Surface::new(0);
    let mut child = Surface::new(0);
    child.background_color = Some(RED);
    root.append_child(child);
    let layouts = vec![ComputedLayout::new(i32::MAX, i32::MIN, i32::MAX, i32::MIN)];
    let frame = compile_plain(&root, &layouts);
    assert_eq!(frame.len(), 1);
    assert_eq!(
        frame[0].layout.rect,
        rect(2 * i32::MAX as i64, 2 * i32::MIN as i64, i32::MAX as i64, i32::MIN as i64)
    );
}

#[test]
fn unrounded_surface_draws_under_the_inherited_clip() {
    let mut root = Surface::new(0);
    root.border_radius = Some(BorderRadius(1, 2, 3, 4));
    let mut middle = Surface::new(1);
    middle.background_color = Some(RED);
    let mut leaf = Surface::new(2);
    leaf.background_color = Some(BLACK);
    leaf.border = Some(solid(1));
    middle.append_child(leaf);
    root.append_child(middle);
    let layouts = vec![
        ComputedLayout::new(5, 5, 100, 100),
        ComputedLayout::new(10, 10, 500, 500),
        ComputedLayout::new(1, 1, 5, 5),
    ];
    let frame = compile_plain(&root, &layouts);
    assert_eq!(frame.len(), 3);
    let inherited = Some(ClipRegion { rect: rect(5, 5, 100, 100), radii: BorderRadius(1, 2, 3, 4) });
    for primitive in &frame {
        assert_eq!(primitive.clip, inherited);
        assert_eq!(primitive.border_radius, BorderRadius(0, 0, 0, 0));
    }
}

#[test]
fn without_any_radius_nothing_is_clipped() {
    let mut root = Surface::new(0);
    root.background_color = Some(RED);
    let mut child = Surface::new(1);
    child.background_color = Some(RED);
    root.append_child(child);
    let layouts = vec![ComputedLayout::new(0, 0, 10, 10), ComputedLayout::new(50, 50, 10, 10)];
    let frame = compile_plain(&root, &layouts);
    assert_eq!(frame.len(), 2);
    assert_eq!(frame[0].clip, None);
    assert_eq!(frame[1].clip, None);
}

#[test]
fn innermost_radius_replaces_the_clip_for_its_subtree_only() {
    let mut root = Surface::new(0);
    root.border_radius = Some(BorderRadius::uniform(8));
    root.background_color = Some(RED);
    root.border = Some(solid(1));
    let mut rounded = Surface::new(1);
    rounded.border_radius = Some(BorderRadius::uniform(3));
    rounded.background_color = Some(RED);
    let mut inner = Surface::new(2);
    inner.background_color = Some(RED);
    rounded.append_child(inner);
    let mut sibling = Surface::new(3);
    sibling.background_color = Some(RED);
    root.append_child(rounded);
    root.append_child(sibling);
    let layouts = vec![
        ComputedLayout::new(0, 0, 100, 100),
        ComputedLayout::new(10, 10, 40, 40),
        ComputedLayout::new(2, 2, 4, 4),
        ComputedLayout::new(60, 60, 30, 30),
    ];
    let frame = compile_plain(&root, &layouts);
    let outer = Some(ClipRegion { rect: rect(0, 0, 100, 100), radii: BorderRadius(8, 8, 8, 8) });
    let nested = Some(ClipRegion { rect: rect(10, 10, 40, 40), radii: BorderRadius(3, 3, 3, 3) });
    let seen: Vec<(Option<u16>, Option<ClipRegion>, BorderRadius)> =
        frame.iter().map(|p| (p.layout.tag, p.clip, p.border_radius)).collect();
    assert_eq!(
        seen,
        vec![
            (Some(0), outer, BorderRadius(8, 8, 8, 8)),
            (Some(1), nested, BorderRadius(3, 3, 3, 3)),
            (Some(2), nested, BorderRadius(0, 0, 0, 0)),
            (Some(3), outer, BorderRadius(0, 0, 0, 0)),
            // the border of the root comes after its children, with the root's own radius
            (Some(0), outer, BorderRadius(8, 8, 8, 8)),
        ]
    );
}

#[test]
fn compiling_twice_gives_the_same_frame() {
    let mut root = Surface::new(0);
    root.background_color = Some(RED);
    root.text = Some(text("hi", 16, 20));
    let mut child = Surface::new(1);
    child.border_radius = Some(BorderRadius::uniform(2));
    child.border = Some(solid(1));
    root.append_child(child);
    let layouts = vec![ComputedLayout::new(0, 0, 100, 100), ComputedLayout::new(10, 10, 20, 20)];

    let mut service = WebrenderRenderService::new(LineShaper, IdNamespace(3));
    let first = service.render(&root, &layouts).display_list.unwrap().display_list.primitives;
    service.wait_for_frame();
    let second = service.render(&root, &layouts).display_list.unwrap().display_list.primitives;
    assert_eq!(first.len(), second.len());
    assert_eq!(first.len(), 3);
    for (a, b) in first.iter().zip(second.iter()) {
        assert_eq!(a.layout, b.layout);
        assert_eq!(a.clip, b.clip);
        assert_eq!(a.border_radius, b.border_radius);
        assert_eq!(format!("{:?}", a.item), format!("{:?}", b.item));
    }
}

#[test]
fn frames_differ_only_in_glyphs_when_the_shaper_differs() {
    let mut root = Surface::new(0);
    root.text = Some(text("abc", 16, 20));
    root.border = Some(solid(1));
    let layouts = vec![ComputedLayout::new(0, 0, 200, 30)];
    let by_line = shape_texts(&root, &layouts, &LineShaper);
    let by_width = shape_texts(&root, &layouts, &WidthShaper);
    assert_eq!(by_line[0].len(), 3);
    // the shaper is asked for the size of the layout entry: 200 wide, 30 high
    assert_eq!(
        by_width[0],
        vec![
            LaidGlyph { glyph_index: 0, x: 0, y: 30 },
            LaidGlyph { glyph_index: 1, x: 0, y: 30 },
        ]
    );
    let first = compile(&root, &layouts, &by_line, IdNamespace(1)).frame;
    let second = compile(&root, &layouts, &by_width, IdNamespace(1)).frame;
    assert_eq!(first.len(), 2);
    assert_eq!(second.len(), 2);
    for (a, b) in first.iter().zip(second.iter()) {
        assert_eq!(a.layout, b.layout);
        assert_eq!(a.clip, b.clip);
        assert_eq!(a.border_radius, b.border_radius);
    }
    assert!(matches!(&first[0].item, SpecificDisplayItem::Text(t) if t.glyphs.len() == 3));
    assert!(matches!(&second[0].item, SpecificDisplayItem::Text(t) if t.glyphs.len() == 2));
}

#[test]
fn shaping_gives_no_glyphs_to_surfaces_without_text() {
    let mut root = Surface::new(0);
    let mut child = Surface::new(2);
    child.text = Some(text("x", 10, 10));
    root.append_child(child);
    let layouts = vec![
        ComputedLayout::new(0, 0, 10, 10),
        ComputedLayout::new(0, 0, 10, 10),
        ComputedLayout::new(0, 0, 10, 10),
    ];
    let runs = shape_texts(&root, &layouts, &LineShaper);
    assert_eq!(runs.len(), 3);
    assert_eq!(runs[0], Vec::new());
    assert_eq!(runs[1], Vec::new());
    assert_eq!(runs[2], vec![LaidGlyph { glyph_index: 'x' as u32, x: 0, y: 0 }]);
}

#[test]
fn text_is_moved_to_the_surface_and_down_to_the_baseline() {
    let mut root = Surface::new(0);
    let mut child = Surface::new(1);
    child.text = Some(Text { text: "ab".to_string(), font_size: 27, line_height: 20, color: RED });
    root.append_child(child);
    let layouts = vec![ComputedLayout::new(100, 100, 500, 500), ComputedLayout::new(10, 20, 80, 40)];
    let runs = shape_texts(&root, &layouts, &LineShaper);
    let frame = compile(&root, &layouts, &runs, IdNamespace(42)).frame;
    assert_eq!(frame.len(), 1);
    assert_eq!(frame[0].layout.rect, rect(110, 120, 80, 40));
    match &frame[0].item {
        SpecificDisplayItem::Text(item) => {
            assert_eq!(item.font_key, FontInstanceKey(IdNamespace(42), 27));
            assert_eq!(item.color, RED);
            // baseline: 20 / 2 + 27 * 10 / 27 = 20 below the top of the box
            assert_eq!(
                item.glyphs,
                vec![
                    GlyphInstance { index: 'a' as u32, point: LayoutPoint::new(110, 140) },
                    GlyphInstance { index: 'b' as u32, point: LayoutPoint::new(120, 140) },
                ]
            );
        }
        other => panic!("expected text, found {:?}", other),
    }
}

#[test]
fn text_without_a_run_in_the_table_has_no_glyphs() {
    let mut root = Surface::new(0);
    root.text = Some(text("abc", 16, 20));
    let layouts = vec![ComputedLayout::new(0, 0, 100, 20)];
    let frame = compile(&root, &layouts, &Vec::new(), IdNamespace(1)).frame;
    assert_eq!(frame.len(), 1);
    assert!(matches!(&frame[0].item, SpecificDisplayItem::Text(t) if t.glyphs.is_empty()));

    let runs = empty_runs(1);
    let ctx = context(&layouts, &runs);
    // outside of a surface there is no run to take
    assert!(matches!(
        ctx.text(&text("abc", 16, 20)),
        SpecificDisplayItem::Text(t)
            if t.glyphs.is_empty() && t.font_key == FontInstanceKey(IdNamespace(1), 16)
    ));
}

#[test]
fn baseline_is_half_the_line_plus_ten_twenty_sevenths_of_the_font() {
    assert_eq!(baseline(&text("", 27, 20)), 20);
    assert_eq!(baseline(&text("", 16, 20)), 10 + 5);
    assert_eq!(baseline(&text("", 16, 21)), 10 + 5);
    assert_eq!(baseline(&text("", 0, 0)), 0);
    assert_eq!(baseline(&text("", 2, 1)), 0);
    assert_eq!(baseline(&text("", 3, 1)), 1);
    assert_eq!(
        baseline(&text("", u32::MAX, u32::MAX)),
        (u32::MAX / 2) as i64 + (u32::MAX as i64 * 10) / 27
    );
}

#[test]
fn glyphs_keep_their_order_and_index_when_placed() {
    let run = vec![
        LaidGlyph { glyph_index: 5, x: 0, y: 0 },
        LaidGlyph { glyph_index: 6, x: -4, y: 9 },
        LaidGlyph { glyph_index: 5, x: i32::MAX, y: i32::MIN },
    ];
    assert_eq!(
        place_glyphs(&run, 100, -200),
        vec![
            GlyphInstance { index: 5, point: LayoutPoint::new(100, -200) },
            GlyphInstance { index: 6, point: LayoutPoint::new(96, -191) },
            GlyphInstance {
                index: 5,
                point: LayoutPoint::new(100 + i32::MAX as i64, -200 + i32::MIN as i64),
            },
        ]
    );
    assert_eq!(place_glyphs(&Vec::new(), 1, 1), Vec::new());
}

#[test]
fn a_tree_without_paint_compiles_to_an_empty_frame() {
    let mut root = Surface::new(0);
    root.append_child(Surface::new(1));
    root.border_radius = Some(BorderRadius::uniform(4));
    let layouts = vec![ComputedLayout::new(0, 0, 10, 10), ComputedLayout::new(0, 0, 10, 10)];
    assert_eq!(compile_plain(&root, &layouts).len(), 0);
}

#[test]
fn a_missing_layout_entry_cannot_be_rendered() {
    let mut root = Surface::new(0);
    let mut child = Surface::new(1);
    child.append_child(Surface::new(5));
    root.append_child(child);
    let mut layouts = vec![ComputedLayout::new(0, 0, 10, 10); 5];
    assert!(!root.is_covered_by(&layouts));
    assert!(!WebrenderRenderService::<LineShaper>::can_render(&root, &layouts));
    layouts.push(ComputedLayout::new(0, 0, 1, 1));
    assert!(root.is_covered_by(&layouts));
    assert!(WebrenderRenderService::<LineShaper>::can_render(&root, &layouts));
    assert!(!Surface::new(0).is_covered_by(&Vec::new()));
}

#[test]
fn depth_is_counted_in_surfaces() {
    let mut root = Surface::new(0);
    assert!(root.fits_depth(1));
    assert!(!root.fits_depth(0));
    let mut middle = Surface::new(1);
    middle.append_child(Surface::new(2));
    root.append_child(Surface::new(3));
    root.append_child(middle);
    root.append_child(Surface::new(4));
    assert!(root.fits_depth(3));
    assert!(root.fits_depth(MAX_DEPTH));
    assert!(!root.fits_depth(2));
}

#[test]
fn point_outside_the_root_hits_nothing() {
    let mut root = Surface::new(0);
    root.background_color = Some(RED);
    let mut child = Surface::new(1);
    child.background_color = Some(BLACK);
    root.append_child(child);
    let layouts = vec![ComputedLayout::new(10, 10, 200, 100), ComputedLayout::new(10, 10, 50, 50)];
    let frame = compile_plain(&root, &layouts);
    assert_eq!(hit_test_frame(&frame, 9, 50), None);
    assert_eq!(hit_test_frame(&frame, 50, 9), None);
    assert_eq!(hit_test_frame(&frame, 210, 50), None);
    assert_eq!(hit_test_frame(&frame, 50, 110), None);
    assert_eq!(hit_test_frame(&frame, i64::MAX, i64::MIN), None);
    assert_eq!(hit_test_frame(&Vec::new(), 0, 0), None);
}

#[test]
fn point_inside_a_leaf_hits_the_leaf() {
    let mut root = Surface::new(0);
    root.background_color = Some(RED);
    let mut child = Surface::new(1);
    child.background_color = Some(BLACK);
    let mut leaf = Surface::new(2);
    leaf.background_color = Some(RED);
    child.append_child(leaf);
    root.append_child(child);
    let layouts = vec![
        ComputedLayout::new(0, 0, 200, 100),
        ComputedLayout::new(10, 10, 50, 50),
        ComputedLayout::new(5, 5, 10, 10),
    ];
    let frame = compile_plain(&root, &layouts);
    assert_eq!(hit_test_frame(&frame, 15, 15), Some(2));
    assert_eq!(hit_test_frame(&frame, 24, 24), Some(2));
    // the far edges are outside
    assert_eq!(hit_test_frame(&frame, 25, 25), Some(1));
    assert_eq!(hit_test_frame(&frame, 14, 15), Some(1));
    assert_eq!(hit_test_frame(&frame, 60, 60), Some(0));
    assert_eq!(hit_test_frame(&frame, 0, 0), Some(0));
    assert_eq!(hit_test_frame(&frame, 199, 99), Some(0));
}

#[test]
fn a_border_above_answers_in_place_of_the_leaf() {
    let mut root = Surface::new(0);
    root.border = Some(solid(1));
    let mut leaf = Surface::new(1);
    leaf.background_color = Some(RED);
    root.append_child(leaf);
    let layouts = vec![ComputedLayout::new(0, 0, 200, 100), ComputedLayout::new(10, 10, 50, 50)];
    let frame = compile_plain(&root, &layouts);
    assert_eq!(hit_test_frame(&frame, 20, 20), Some(0));
}

#[test]
fn the_corners_of_a_rounded_clip_still_hit_and_its_outside_does_not() {
    let mut root = Surface::new(0);
    root.border_radius = Some(BorderRadius::uniform(20));
    let mut child = Surface::new(1);
    child.background_color = Some(RED);
    root.append_child(child);
    // the child reaches beyond the rounded root
    let layouts = vec![ComputedLayout::new(0, 0, 100, 100), ComputedLayout::new(50, 50, 100, 100)];
    let frame = compile_plain(&root, &layouts);
    assert_eq!(hit_test_frame(&frame, 99, 99), Some(1));
    assert_eq!(hit_test_frame(&frame, 120, 120), None);
}

#[test]
fn untagged_primitives_are_not_hit() {
    let primitive = Primitive {
        item: SpecificDisplayItem::Rectangle(RectangleDisplayItem { color: RED }),
        layout: LayoutPrimitiveInfo {
            rect: rect(0, 0, 10, 10),
            clip_rect: rect(0, 0, 10, 10),
            tag: None,
        },
        clip: None,
        border_radius: BorderRadius::zero(),
    };
    assert!(!primitive.hit(5, 5));
    assert_eq!(hit_test_frame(&vec![primitive], 5, 5), None);
}

#[test]
fn rectangles_at_the_ends_of_the_range_do_not_wrap() {
    let far = rect(i64::MAX - 1, i64::MIN, 10, 10);
    assert!(far.contains(i64::MAX, i64::MIN));
    assert!(!far.contains(i64::MIN, i64::MIN));
    let negative = rect(0, 0, -5, 5);
    assert!(!negative.contains(0, 0));
    assert!(!negative.contains(-1, 0));
}

#[test]
fn of_texts_that_share_an_id_the_last_in_the_walk_is_shaped_into_the_table() {
    let mut root = Surface::new(0);
    root.text = Some(text("a", 10, 10));
    let mut first = Surface::new(1);
    first.text = Some(text("x", 10, 10));
    let mut second = Surface::new(1);
    second.text = Some(text("yz", 10, 10));
    // a child with the id of the root: it comes after the root in the walk
    let mut inner = Surface::new(0);
    inner.text = Some(text("bcd", 10, 10));
    first.children.push(inner);
    root.children.push(first);
    root.children.push(second);
    let layouts = vec![ComputedLayout::new(0, 0, 300, 10), ComputedLayout::new(0, 0, 200, 20)];

    let runs = shape_texts(&root, &layouts, &LineShaper);
    assert_eq!(runs.len(), 2);
    let indices = |run: &Vec<LaidGlyph>| run.iter().map(|g| g.glyph_index).collect::<Vec<u32>>();
    assert_eq!(indices(&runs[0]), vec!['b' as u32, 'c' as u32, 'd' as u32]);
    assert_eq!(indices(&runs[1]), vec!['y' as u32, 'z' as u32]);

    // each text is shaped for the size of the layout entry at its id
    let runs = shape_texts(&root, &layouts, &WidthShaper);
    assert_eq!(runs[0], vec![LaidGlyph { glyph_index: 0, x: 0, y: 10 }; 3]
        .into_iter()
        .enumerate()
        .map(|(i, g)| LaidGlyph { glyph_index: i as u32, ..g })
        .collect::<Vec<LaidGlyph>>());
    assert_eq!(
        runs[1],
        vec![
            LaidGlyph { glyph_index: 0, x: 0, y: 20 },
            LaidGlyph { glyph_index: 1, x: 0, y: 20 },
        ]
    );
}

#[test]
fn one_clip_is_registered_for_each_surface_that_declares_a_radius() {
    let mut root = Surface::new(0);
    root.background_color = Some(RED);
    // rounded, with nothing drawn under it
    let mut bare = Surface::new(1);
    bare.border_radius = Some(BorderRadius::uniform(2));
    // two rounded surfaces with the same rectangle and radius
    let mut first = Surface::new(2);
    first.border_radius = Some(BorderRadius::uniform(4));
    first.background_color = Some(RED);
    let mut second = Surface::new(2);
    second.border_radius = Some(BorderRadius::uniform(4));
    second.background_color = Some(BLACK);
    let mut inner = Surface::new(3);
    inner.border_radius = Some(BorderRadius(1, 2, 3, 4));
    first.append_child(inner);
    root.children.push(bare);
    root.children.push(first);
    root.children.push(second);
    let layouts = vec![
        ComputedLayout::new(100, 100, 50, 50),
        ComputedLayout::new(1, 1, 10, 10),
        ComputedLayout::new(2, 2, 20, 20),
        ComputedLayout::new(3, 3, 5, 5),
    ];
    let runs = empty_runs(4);
    let compilation = compile(&root, &layouts, &runs, IdNamespace(1));
    let shared = ClipRegion { rect: rect(102, 102, 20, 20), radii: BorderRadius(4, 4, 4, 4) };
    assert_eq!(
        compilation.clips,
        vec![
            ClipRegion { rect: rect(101, 101, 10, 10), radii: BorderRadius(2, 2, 2, 2) },
            shared,
            ClipRegion { rect: rect(105, 105, 5, 5), radii: BorderRadius(1, 2, 3, 4) },
            shared,
        ]
    );
    assert_eq!(compilation.frame.len(), 3);
    for primitive in &compilation.frame {
        if let Some(clip) = primitive.clip {
            assert!(compilation.clips.contains(&clip));
        }
    }

    // no radius, no clip: not from the root's rectangle either
    let plain = compile(&Surface::new(0), &layouts, &runs, IdNamespace(1));
    assert!(plain.clips.is_empty());
}

#[test]
fn render_surface_registers_after_what_was_registered_before() {
    let mut child = Surface::new(1);
    child.border_radius = Some(BorderRadius::uniform(3));
    let layouts = vec![ComputedLayout::new(0, 0, 100, 100), ComputedLayout::new(5, 6, 7, 8)];
    let runs = empty_runs(2);
    let mut ctx = context(&layouts, &runs);
    let earlier = ClipRegion { rect: rect(0, 0, 1, 1), radii: BorderRadius::zero() };
    ctx.clips.push(earlier);
    ctx.render_surface(&child);
    assert_eq!(
        ctx.clips,
        vec![earlier, ClipRegion { rect: rect(5, 6, 7, 8), radii: BorderRadius(3, 3, 3, 3) }]
    );
    assert!(ctx.builder.is_empty());
    assert_eq!(ctx.space_and_clip, None);
}
