use typstdriver::darkifier::{
    invert_page_colors, process_gradient, ColorSpace, FixedStroke, FrameTree, FrameItem, Gradient,
    Page, Paint, Shape, TextItem,
};

fn turn(color: &u8) -> u8 {
    255 - *color
}

fn gradient() -> Gradient<u8, &'static str> {
    Gradient { stops: vec![(0, "0%"), (100, "50%"), (255, "100%")], space: ColorSpace::Oklab, shape: "linear 45deg" }
}

#[test]
fn gradient_keeps_places_and_moves_to_hsl() {
    let turned = process_gradient(gradient(), &turn);
    assert_eq!(turned.stops, vec![(255, "0%"), (155, "50%"), (0, "100%")]);
    assert_eq!(turned.space, ColorSpace::Hsl);
    assert_eq!(turned.shape, "linear 45deg");
}

#[test]
fn page_keeps_everything_but_colors() {
    let inner = FrameTree {
        items: vec![(
            "at 1,1",
            FrameItem::Shape(Shape {
                fill: Some(Paint::Gradient(gradient())),
                stroke: None,
                geometry: "rect 3x4",
            }),
        )],
        layout: "inner 10x10",
    };
    let page = Page {
        frame: FrameTree {
            items: vec![
                (
                    "at 0,0",
                    FrameItem::Text(TextItem {
                        fill: Paint::Solid(10),
                        stroke: Some(FixedStroke { paint: Paint::Solid(20), shape: "1pt" }),
                        run: "hello in font",
                    }),
                ),
                ("at 5,5", FrameItem::Group(inner, "rotate 90")),
                ("at 9,9", FrameItem::Other("image")),
                (
                    "at 2,2",
                    FrameItem::Shape(Shape {
                        fill: Some(Paint::Tiling("dots")),
                        stroke: Some(FixedStroke { paint: Paint::Solid(255), shape: "2pt" }),
                        geometry: "circle",
                    }),
                ),
            ],
            layout: "a4",
        },
        fill: Some(Paint::Solid(255)),
        numbering: "1 of 1",
    };
    let dark = invert_page_colors(page, &turn);
    assert_eq!(dark.numbering, "1 of 1");
    assert!(matches!(dark.fill, Some(Paint::Solid(0))));
    assert_eq!(dark.frame.layout, "a4");
    assert_eq!(dark.frame.items.len(), 4);
    match &dark.frame.items[0] {
        ("at 0,0", FrameItem::Text(text)) => {
            assert!(matches!(text.fill, Paint::Solid(245)));
            assert!(matches!(text.stroke, Some(FixedStroke { paint: Paint::Solid(235), shape: "1pt" })));
            assert_eq!(text.run, "hello in font");
        }
        _ => panic!("text expected"),
    }
    match &dark.frame.items[1] {
        ("at 5,5", FrameItem::Group(frame, "rotate 90")) => {
            assert_eq!(frame.layout, "inner 10x10");
            match &frame.items[0] {
                ("at 1,1", FrameItem::Shape(shape)) => {
                    assert_eq!(shape.geometry, "rect 3x4");
                    assert!(shape.stroke.is_none());
                    match &shape.fill {
                        Some(Paint::Gradient(g)) => {
                            assert_eq!(g.stops, vec![(255, "0%"), (155, "50%"), (0, "100%")]);
                            assert_eq!(g.space, ColorSpace::Hsl);
                        }
                        _ => panic!("gradient expected"),
                    }
                }
                _ => panic!("shape expected"),
            }
        }
        _ => panic!("group expected"),
    }
    assert!(matches!(&dark.frame.items[2], ("at 9,9", FrameItem::Other("image"))));
    match &dark.frame.items[3] {
        ("at 2,2", FrameItem::Shape(shape)) => {
            assert!(matches!(shape.fill, Some(Paint::Tiling("dots"))));
            assert!(matches!(shape.stroke, Some(FixedStroke { paint: Paint::Solid(0), shape: "2pt" })));
        }
        _ => panic!("shape expected"),
    }
}

#[test]
fn page_without_fill_stays_without() {
    let page: Page<u8, &str> =
        Page { frame: FrameTree { items: vec![], layout: "a5" }, fill: None, numbering: "-" };
    let dark = invert_page_colors(page, &turn);
    assert!(dark.fill.is_none());
    assert!(dark.frame.items.is_empty());
}
