use tilemap::{
    render_tile, Cache, Info, MemoryCache, Node, Point, Polygon, PolygonProps, Polyline,
    PolylineProps, Proj, Rectangle, Shape, SvgTile, TextProps,
};

#[test]
fn test_tile_rect() {
    let proj = Proj::default();
    let rect = proj.tile_rect(11, 17);
    assert_eq!(rect.min, Point::new(11 * 256000, 17 * 256000));
    assert_eq!(rect.max, Point::new(12 * 256000, 18 * 256000));
}

#[test]
fn test_tile_rect_span() {
    let proj = Proj::default();
    for (x, y) in [(0u64, 0u64), (1, 1), (13398, 6724), (1 << 20, 3)] {
        let rect = proj.tile_rect(x, y);
        assert_eq!(rect.max.x, rect.min.x + 256000);
        assert_eq!(rect.max.y, rect.min.y + 256000);
    }
}

#[test]
fn test_svg_tile() {
    let proj = Proj::default();
    let svg = SvgTile::new(13398, 6724, 14, proj);
    assert_eq!(svg.x(), 13398);
    assert_eq!(svg.y(), 6724);
    assert_eq!(svg.z(), 14);
    assert_eq!(*svg.proj(), Proj::WGS84);

    let rect = svg.rect();
    assert_eq!(rect.min, Point::new(13398 * 256000, 6724 * 256000));
    assert_eq!(rect.max, Point::new(13399 * 256000, 6725 * 256000));

    let pos = svg.local(&Point::new(13398 * 256000 + 120604, 6724 * 256000 + 77420));
    assert_eq!((120604, 77420), pos);
}

#[test]
fn test_svg_render() {
    let proj = Proj::default();
    let mut svg = SvgTile::new(0, 0, 0, proj);
    svg.append_text(
        &Point::new(10_000, 128_000),
        "hello world",
        &TextProps::new("red", 32, 700, 10),
    );

    let mut polyline = Polyline::new();
    polyline.append(&Point::new(0, 0));
    polyline.append(&Point::new(256_000, 0));
    polyline.append(&Point::new(256_000, 256_000));
    polyline.append(&Point::new(0, 256_000));
    svg.append_polyline(&polyline, &PolylineProps::new("red", 5, 10));
    svg.append_text_path(
        &polyline,
        "TEXT PATH",
        &PolylineProps::new("green", 3, 10),
        &TextProps::new("blue", 32, 700, 10),
    );

    let mut polygon = Polygon::new();
    polygon.append(&Point::new(128_000, 0));
    polygon.append(&Point::new(128_000, 256_000));
    polygon.append(&Point::new(256_000, 256_000));
    polygon.append(&Point::new(256_000, 0));
    svg.append_polygon(&polygon, &PolygonProps::new("green", "cyan", 3, 5, 10));

    svg.sort_tags();
    println!("SVG:{}", String::from_utf8(svg.dump()).unwrap());
}

fn park_node() -> Node {
    // a polygon well inside the (0, 0) tile, with room for its label
    let mut ring = Polygon::new();
    ring.append(&Point::new(10_000, 10_000));
    ring.append(&Point::new(100_000, 10_000));
    ring.append(&Point::new(100_000, 100_000));
    ring.append(&Point::new(10_000, 100_000));
    Node {
        shape: Shape::Polygon(ring),
        info: Info {
            name: String::from("Park"),
            rect: Rectangle::new(&Point::new(10_000, 10_000), &Point::new(100_000, 100_000)),
        },
    }
}

fn layer_props() -> (PolygonProps, PolylineProps, TextProps) {
    (
        PolygonProps::new("#d3f8e2", "#5491f5", 3, 10, 20),
        PolylineProps::new("#5491f5", 3, 20),
        TextProps::new("#5491f5", 32, 700, 30),
    )
}

#[test]
fn test_park_scene() {
    // one named polygon inside the tile: exactly one fill, one border and
    // one label, in that priority order after finalization; a second
    // request for the same address is served from the cache unchanged
    let empty: Vec<Node> = Vec::new();
    let nodes = vec![park_node()];
    let svg = render_tile(0, 0, 14, Proj::default(), &nodes, &empty, &empty, &empty, &empty);
    let out = String::from_utf8(svg.dump()).unwrap();

    assert_eq!(out.matches("<polygon").count(), 1);
    assert_eq!(out.matches("<polyline").count(), 1);
    assert_eq!(out.matches("<text").count(), 1);
    assert!(out.contains(">Park</text>"));
    let fill_at = out.find("<polygon").unwrap();
    let border_at = out.find("<polyline").unwrap();
    let text_at = out.find("<text").unwrap();
    assert!(fill_at < border_at);
    assert!(border_at < text_at);

    let mut cache = MemoryCache::new();
    let id = "tile:14-0-0";
    let mut rendered = 0;
    let first = if let Some(data) = cache.get(id) {
        data.clone()
    } else {
        rendered += 1;
        let data = svg.dump();
        cache.save(id, data.clone());
        data
    };
    let second = if let Some(data) = cache.get(id) {
        data.clone()
    } else {
        rendered += 1;
        svg.dump()
    };
    assert_eq!(rendered, 1);
    assert_eq!(first, second);
    assert_eq!(second, svg.dump());
}

#[test]
fn test_outside_tile_scene() {
    // a feature entirely outside the tile's pixel rectangle contributes
    // nothing
    let (pg, pl, tx) = layer_props();
    let mut svg = SvgTile::new(0, 0, 14, Proj::default());
    let before = svg.dump();
    let mut node = park_node();
    node.info.rect = Rectangle::new(&Point::new(300_000, 300_000), &Point::new(400_000, 400_000));
    let nodes = vec![node];
    svg.draw_tile(&nodes, &pg, &pl, &tx);
    let after = svg.dump();
    assert_eq!(before, after);
}

#[test]
fn test_minimum_area_cull() {
    // 9.999 square pixels is culled, exactly 10 square pixels is kept
    let (pg, pl, tx) = layer_props();

    let mut svg = SvgTile::new(0, 0, 14, Proj::default());
    let mut culled = park_node();
    culled.info.name = String::new();
    culled.info.rect = Rectangle::new(&Point::new(0, 0), &Point::new(9_999, 1_000));
    svg.draw_tile(&vec![culled], &pg, &pl, &tx);
    let out = String::from_utf8(svg.dump()).unwrap();
    assert_eq!(out.matches("<polygon").count(), 0);

    let mut svg = SvgTile::new(0, 0, 14, Proj::default());
    let mut kept = park_node();
    kept.info.name = String::new();
    kept.info.rect = Rectangle::new(&Point::new(0, 0), &Point::new(10_000, 1_000));
    svg.draw_tile(&vec![kept], &pg, &pl, &tx);
    let out = String::from_utf8(svg.dump()).unwrap();
    assert_eq!(out.matches("<polygon").count(), 1);
    assert_eq!(out.matches("<polyline").count(), 1);
    // no label: the name is empty
    assert_eq!(out.matches("<text").count(), 0);
}

#[test]
fn test_polyline_zoom_thresholds() {
    // below both zoom thresholds a polyline is skipped entirely; above
    // them an unnamed polyline is stroked and a named one gets a path
    let (pg, pl, tx) = layer_props();
    let mut chain = Polyline::new();
    chain.append(&Point::new(0, 0));
    chain.append(&Point::new(200_000, 0));
    let node = Node {
        shape: Shape::Polyline(chain),
        info: Info {
            name: String::new(),
            rect: Rectangle::new(&Point::new(0, 0), &Point::new(200_000, 50_000)),
        },
    };

    let mut svg = SvgTile::new(0, 0, 9, Proj::default());
    svg.draw_node(&node, &pg, &pl, &tx);
    let out = String::from_utf8(svg.dump()).unwrap();
    assert_eq!(out.matches("<polyline").count(), 0);

    let mut svg = SvgTile::new(0, 0, 11, Proj::default());
    svg.draw_node(&node, &pg, &pl, &tx);
    let out = String::from_utf8(svg.dump()).unwrap();
    assert_eq!(out.matches("<polyline").count(), 1);

    let mut named = node;
    named.info.name = String::from("River");
    let mut svg = SvgTile::new(0, 0, 11, Proj::default());
    svg.draw_node(&named, &pg, &pl, &tx);
    let out = String::from_utf8(svg.dump()).unwrap();
    assert_eq!(out.matches("<path").count(), 1);
    assert!(out.contains("ID_1"));
    assert!(out.contains(">River</textPath>"));
}

#[test]
fn test_text_path_offset_drop() {
    // a path too short for its label keeps the stroke and drops the text
    let (pg, pl, tx) = layer_props();
    let mut chain = Polyline::new();
    chain.append(&Point::new(0, 0));
    chain.append(&Point::new(30_000, 0));
    let node = Node {
        shape: Shape::Polyline(chain),
        info: Info {
            name: String::from("A very long road name indeed"),
            rect: Rectangle::new(&Point::new(0, 0), &Point::new(30_000, 30_000)),
        },
    };
    let mut svg = SvgTile::new(0, 0, 11, Proj::default());
    svg.draw_node(&node, &pg, &pl, &tx);
    let out = String::from_utf8(svg.dump()).unwrap();
    assert_eq!(out.matches("<path").count(), 1);
    assert_eq!(out.matches("textPath").count(), 0);
}

#[test]
fn test_text_size() {
    let tx = TextProps::new("red", 32, 700, 30);
    let r = SvgTile::text_size("Park", &tx);
    assert_eq!(r.min, Point::new(0, 0));
    assert_eq!(r.max.x, 64_000);
    assert_eq!(r.max.y, 32_000);
}
