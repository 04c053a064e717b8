use vstd::prelude::*;

verus! {

/// The color spaces in which a gradient can run.
#[derive(Clone, Copy, Debug, PartialEq, Eq, Structural)]
pub enum ColorSpace {
    Oklab,
    Oklch,
    Srgb,
    D65Gray,
    LinearRgb,
    Hsl,
    Hsv,
    Cmyk,
}

/// A gradient: its stops, each a color at a place, the color space in which
/// it runs, and all that gives it its shape.
pub struct Gradient<C, O> {
    pub stops: Vec<(C, O)>,
    pub space: ColorSpace,
    pub shape: O,
}

/// How an area or a line is painted. `C` is a color; `O` stands for all
/// that is no color.
pub enum Paint<C, O> {
    Solid(C),
    Gradient(Gradient<C, O>),
    Tiling(O),
}

/// A stroke: its paint, and all that gives it its shape.
pub struct FixedStroke<C, O> {
    pub paint: Paint<C, O>,
    pub shape: O,
}

/// A shape: how it is filled and stroked, and its geometry.
pub struct Shape<C, O> {
    pub fill: Option<Paint<C, O>>,
    pub stroke: Option<FixedStroke<C, O>>,
    pub geometry: O,
}

/// A run of text: how it is filled and stroked, and its font and glyphs.
pub struct TextItem<C, O> {
    pub fill: Paint<C, O>,
    pub stroke: Option<FixedStroke<C, O>>,
    pub run: O,
}

/// One thing that is drawn in a frame.
pub enum FrameItem<C, O> {
    /// A frame within the frame, with its transform and clip.
    Group(FrameTree<C, O>, O),
    Text(TextItem<C, O>),
    Shape(Shape<C, O>),
    /// Anything that holds no color of its own.
    Other(O),
}

/// A frame: the things that are drawn in it, each at its place, and its size
/// and kind.
pub struct FrameTree<C, O> {
    pub items: Vec<(O, FrameItem<C, O>)>,
    pub layout: O,
}

/// A page: its frame, the paint of its background, and its numbering.
pub struct Page<C, O> {
    pub frame: FrameTree<C, O>,
    pub fill: Option<Paint<C, O>>,
    pub numbering: O,
}

/// Whether the stops `after` are the stops `before` with each color turned
/// by `turn` and each place kept.
pub open spec fn stops_inverted<C, O, F: Fn(&C) -> C>(
    turn: F,
    before: Seq<(C, O)>,
    after: Seq<(C, O)>,
) -> bool {
    &&& after.len() == before.len()
    &&& forall|i: int|
        0 <= i < before.len() ==> (#[trigger] after[i]).1 == before[i].1 && call_ensures(
            turn,
            (&before[i].0,),
            after[i].0,
        )
}

/// Whether the paint `after` is the paint `before` with each color turned by
/// `turn`. A gradient of turned colors runs in the space of hue, saturation
/// and lightness; a tiling stays as it is.
pub open spec fn paint_inverted<C, O, F: Fn(&C) -> C>(
    turn: F,
    before: Paint<C, O>,
    after: Paint<C, O>,
) -> bool {
    match before {
        Paint::Solid(color) => after matches Paint::Solid(turned) && call_ensures(
            turn,
            (&color,),
            turned,
        ),
        Paint::Gradient(gradient) => after matches Paint::Gradient(turned) && turned.shape
            == gradient.shape && turned.space == ColorSpace::Hsl && stops_inverted(
            turn,
            gradient.stops@,
            turned.stops@,
        ),
        Paint::Tiling(tiling) => after == before,
    }
}

/// Whether the paint that may be there is turned.
pub open spec fn fill_inverted<C, O, F: Fn(&C) -> C>(
    turn: F,
    before: Option<Paint<C, O>>,
    after: Option<Paint<C, O>>,
) -> bool {
    match before {
        Some(paint) => after matches Some(turned) && paint_inverted(turn, paint, turned),
        None => after is None,
    }
}

/// Whether the stroke that may be there is turned: its paint is, and its
/// shape is kept.
pub open spec fn stroke_inverted<C, O, F: Fn(&C) -> C>(
    turn: F,
    before: Option<FixedStroke<C, O>>,
    after: Option<FixedStroke<C, O>>,
) -> bool {
    match before {
        Some(stroke) => after matches Some(turned) && turned.shape == stroke.shape
            && paint_inverted(turn, stroke.paint, turned.paint),
        None => after is None,
    }
}

/// Whether the thing `after` is the thing `before` with each color turned by
/// `turn` and all else kept.
pub open spec fn item_inverted<C, O, F: Fn(&C) -> C>(
    turn: F,
    before: FrameItem<C, O>,
    after: FrameItem<C, O>,
) -> bool
    decreases before, 0nat,
{
    match before {
        FrameItem::Group(frame, placing) => after matches FrameItem::Group(turned, kept) && kept
            == placing && frame_inverted(turn, frame, turned),
        FrameItem::Text(text) => after matches FrameItem::Text(turned) && turned.run == text.run
            && paint_inverted(turn, text.fill, turned.fill) && stroke_inverted(
            turn,
            text.stroke,
            turned.stroke,
        ),
        FrameItem::Shape(shape) => after matches FrameItem::Shape(turned) && turned.geometry
            == shape.geometry && fill_inverted(turn, shape.fill, turned.fill) && stroke_inverted(
            turn,
            shape.stroke,
            turned.stroke,
        ),
        FrameItem::Other(other) => after == before,
    }
}

/// Whether the frame `after` is the frame `before` with each color turned by
/// `turn`: the same things at the same places in the same order, each of
/// them turned, and the same layout.
pub open spec fn frame_inverted<C, O, F: Fn(&C) -> C>(
    turn: F,
    before: FrameTree<C, O>,
    after: FrameTree<C, O>,
) -> bool
    decreases before, 1nat,
{
    &&& after.layout == before.layout
    &&& after.items@.len() == before.items@.len()
    &&& forall|i: int|
        0 <= i < before.items@.len() ==> (#[trigger] after.items@[i]).0 == before.items@[i].0
            && item_inverted(turn, before.items@[i].1, after.items@[i].1)
}

/// Whether the page `after` is the page `before` with each color turned by
/// `turn` and all else kept.
pub open spec fn page_inverted<C, O, F: Fn(&C) -> C>(
    turn: F,
    before: Page<C, O>,
    after: Page<C, O>,
) -> bool {
    &&& after.numbering == before.numbering
    &&& frame_inverted(turn, before.frame, after.frame)
    &&& fill_inverted(turn, before.fill, after.fill)
}

/// Turns the color of each stop of a gradient.
pub fn process_gradient_stops<C, O, F: Fn(&C) -> C>(stops: Vec<(C, O)>, turn: &F) -> (result: Vec<
    (C, O),
>)
    requires
        forall|color: &C| call_requires(*turn, (color,)),
    ensures
        stops_inverted(*turn, stops@, result@),
{
    let mut result: Vec<(C, O)> = Vec::new();
    for stop in it: stops.into_iter()
        invariant
            it.seq() == stops@,
            forall|color: &C| call_requires(*turn, (color,)),
            result@.len() == it.index(),
            forall|i: int|
                0 <= i < it.index() ==> (#[trigger] result@[i]).1 == stops@[i].1 && call_ensures(
                    *turn,
                    (&stops@[i].0,),
                    result@[i].0,
                ),
    {
        let (color, place) = stop;
        let turned = turn(&color);
        result.push((turned, place));
    }
    result
}

/// Turns the colors of a gradient, which from then on runs in the space of
/// hue, saturation and lightness.
pub fn process_gradient<C, O, F: Fn(&C) -> C>(gradient: Gradient<C, O>, turn: &F) -> (result:
    Gradient<C, O>)
    requires
        forall|color: &C| call_requires(*turn, (color,)),
    ensures
        result.shape == gradient.shape,
        result.space == ColorSpace::Hsl,
        stops_inverted(*turn, gradient.stops@, result.stops@),
{
    let Gradient { stops, space: _, shape } = gradient;
    Gradient { stops: process_gradient_stops(stops, turn), space: ColorSpace::Hsl, shape }
}

/// Turns the colors of a paint.
pub fn process_paint<C, O, F: Fn(&C) -> C>(paint: Paint<C, O>, turn: &F) -> (result: Paint<C, O>)
    requires
        forall|color: &C| call_requires(*turn, (color,)),
    ensures
        paint_inverted(*turn, paint, result),
{
    match paint {
        Paint::Solid(color) => Paint::Solid(turn(&color)),
        Paint::Gradient(gradient) => Paint::Gradient(process_gradient(gradient, turn)),
        Paint::Tiling(tiling) => Paint::Tiling(tiling),
    }
}

/// Turns the colors of a stroke.
pub fn process_stroke<C, O, F: Fn(&C) -> C>(stroke: FixedStroke<C, O>, turn: &F) -> (result:
    FixedStroke<C, O>)
    requires
        forall|color: &C| call_requires(*turn, (color,)),
    ensures
        stroke_inverted(*turn, Some(stroke), Some(result)),
{
    let FixedStroke { paint, shape } = stroke;
    FixedStroke { paint: process_paint(paint, turn), shape }
}

/// Turns the colors of a shape.
pub fn process_shape<C, O, F: Fn(&C) -> C>(shape: Shape<C, O>, turn: &F) -> (result: Shape<C, O>)
    requires
        forall|color: &C| call_requires(*turn, (color,)),
    ensures
        result.geometry == shape.geometry,
        fill_inverted(*turn, shape.fill, result.fill),
        stroke_inverted(*turn, shape.stroke, result.stroke),
{
    let Shape { fill, stroke, geometry } = shape;
    Shape {
        fill: match fill {
            Some(paint) => Some(process_paint(paint, turn)),
            None => None,
        },
        stroke: match stroke {
            Some(stroke) => Some(process_stroke(stroke, turn)),
            None => None,
        },
        geometry,
    }
}

/// Turns the colors of one thing that is drawn in a frame.
pub fn process_frame_item<C, O, F: Fn(&C) -> C>(item: FrameItem<C, O>, turn: &F) -> (result:
    FrameItem<C, O>)
    requires
        forall|color: &C| call_requires(*turn, (color,)),
    ensures
        item_inverted(*turn, item, result),
    decreases item, 0nat,
{
    match item {
        FrameItem::Group(frame, placing) => FrameItem::Group(
            invert_frame_colors(frame, turn),
            placing,
        ),
        FrameItem::Text(text) => {
            let TextItem { fill, stroke, run } = text;
            FrameItem::Text(
                TextItem {
                    fill: process_paint(fill, turn),
                    stroke: match stroke {
                        Some(stroke) => Some(process_stroke(stroke, turn)),
                        None => None,
                    },
                    run,
                },
            )
        },
        FrameItem::Shape(shape) => FrameItem::Shape(process_shape(shape, turn)),
        FrameItem::Other(other) => FrameItem::Other(other),
    }
}

/// Turns the colors of a frame and of the frames within it.
pub fn invert_frame_colors<C, O, F: Fn(&C) -> C>(frame: FrameTree<C, O>, turn: &F) -> (result: FrameTree<
    C,
    O,
>)
    requires
        forall|color: &C| call_requires(*turn, (color,)),
    ensures
        frame_inverted(*turn, frame, result),
    decreases frame, 1nat,
{
    let ghost whole = frame;
    let FrameTree { items, layout } = frame;
    let mut result: Vec<(O, FrameItem<C, O>)> = Vec::new();
    for entry in it: items.into_iter()
        invariant
            it.seq() == items@,
            whole.items == items,
            whole == frame,
            forall|color: &C| call_requires(*turn, (color,)),
            result@.len() == it.index(),
            forall|i: int|
                0 <= i < it.index() ==> (#[trigger] result@[i]).0 == items@[i].0 && item_inverted(
                    *turn,
                    items@[i].1,
                    result@[i].1,
                ),
    {
        let (place, item) = entry;
        proof {
            let at = it.index();
            assert(item == whole.items@[at].1);
            assert(decreases_to!(whole => whole.items));
            assert(decreases_to!(whole.items => whole.items@));
            assert(decreases_to!(whole.items@ => whole.items@[at]));
            assert(decreases_to!(whole.items@[at] => whole.items@[at].1));
        }
        let turned = process_frame_item(item, turn);
        result.push((place, turned));
    }
    FrameTree { items: result, layout }
}

/// Makes the dark copy of a page: every color is turned by `turn`, and all
/// else stays as it is.
pub fn invert_page_colors<C, O, F: Fn(&C) -> C>(page: Page<C, O>, turn: &F) -> (result: Page<C, O>)
    requires
        forall|color: &C| call_requires(*turn, (color,)),
    ensures
        page_inverted(*turn, page, result),
{
    let Page { frame, fill, numbering } = page;
    Page {
        frame: invert_frame_colors(frame, turn),
        fill: match fill {
            Some(paint) => Some(process_paint(paint, turn)),
            None => None,
        },
        numbering,
    }
}

} // verus!
