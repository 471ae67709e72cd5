//! The scene compositor: per-feature culling, styling and emission of
//! drawing primitives into the scene tree, in tile-local pixel space.
//!
//! Every coordinate is an integer count of thousandths of a pixel; the
//! caller projects geographic data into global pixel space before
//! handing it over, and the compositor translates into tile-local space.

use vstd::prelude::*;
use vstd::string::StringExecFns;
use crate::base::{in_range, trunc_div, floor_sqrt};
use crate::info::{Info, Node, Shape};
use crate::numfmt::{mpx_chars, u64_chars, push_mpx, push_char, push_u64};
use crate::point::Point;
use crate::polygon::Polygon;
use crate::polyline::Polyline;
use crate::proj::{Proj, TILE_SPAN, TILE_INDEX_LIMIT};
use crate::rectangle::{Rectangle, rect_valid};
use crate::xml::{XmlNode, esc, attrs_view, lemma_esc_plain, with_priority, sorted_by_priority};

verus! {

/// Zoom levels at or below this show no polylines.
pub const SHOW_POLYLINE: u64 = 10;

/// Zoom levels at or below this show no polyline labels.
pub const SHOW_TEXT: u64 = 10;

/// Features whose projected bounding rectangle covers less than this
/// area (in squared thousandths of a pixel: ten square pixels) are
/// culled as sub-pixel clutter.
pub const MIN_AREA: i128 = 10 * 1000 * 1000;

/// A label along a path is dropped when its start offset would be at or
/// under this many thousandths of a pixel (ten pixels).
pub const MIN_LABEL_OFFSET: i64 = 10 * 1000;

/// Styling of a stroked line.
pub struct PolylineProps {
    pub color: String,
    pub width: usize,
    pub priority: i32,
}

impl PolylineProps {
    /// Styling from a color name, stroke width and priority.
    pub fn new(color: &str, width: usize, priority: i32) -> (r: PolylineProps)
        ensures
            r.color@ == color@,
            r.width == width,
            r.priority == priority,
    {
        PolylineProps { color: String::from_str(color), width, priority }
    }
}

/// Styling of a text label.
pub struct TextProps {
    pub fill_color: String,
    pub size: usize,
    pub weight: usize,
    pub priority: i32,
}

impl TextProps {
    /// Styling from a color name, font size, font weight and priority.
    pub fn new(fill_color: &str, size: usize, weight: usize, priority: i32) -> (r: TextProps)
        ensures
            r.fill_color@ == fill_color@,
            r.size == size,
            r.weight == weight,
            r.priority == priority,
    {
        TextProps { fill_color: String::from_str(fill_color), size, weight, priority }
    }
}

/// Styling of a filled polygon and its border.
pub struct PolygonProps {
    pub fill_color: String,
    pub border_color: String,
    pub border_width: usize,
    pub fill_priority: i32,
    pub border_priority: i32,
}

impl PolygonProps {
    /// Styling from fill and border color names, a border width, and the
    /// two priorities.
    pub fn new(
        fill_color: &str,
        border_color: &str,
        border_width: usize,
        fill_priority: i32,
        border_priority: i32,
    ) -> (r: PolygonProps)
        ensures
            r.fill_color@ == fill_color@,
            r.border_color@ == border_color@,
            r.border_width == border_width,
            r.fill_priority == fill_priority,
            r.border_priority == border_priority,
    {
        PolygonProps {
            fill_color: String::from_str(fill_color),
            border_color: String::from_str(border_color),
            border_width,
            fill_priority,
            border_priority,
        }
    }
}

/// The styling of a stroked line, in the abstract.
pub struct LineStyle {
    pub color: Seq<char>,
    pub width: int,
    pub priority: int,
}

impl View for PolylineProps {
    type V = LineStyle;

    open spec fn view(&self) -> LineStyle {
        LineStyle { color: self.color@, width: self.width as int, priority: self.priority as int }
    }
}

/// The styling of a text label, in the abstract.
pub struct TextStyle {
    pub fill_color: Seq<char>,
    pub size: int,
    pub weight: int,
    pub priority: int,
}

impl View for TextProps {
    type V = TextStyle;

    open spec fn view(&self) -> TextStyle {
        TextStyle {
            fill_color: self.fill_color@,
            size: self.size as int,
            weight: self.weight as int,
            priority: self.priority as int,
        }
    }
}

/// The styling of a filled polygon and its border, in the abstract.
pub struct PolygonStyle {
    pub fill_color: Seq<char>,
    pub border_color: Seq<char>,
    pub border_width: int,
    pub fill_priority: int,
    pub border_priority: int,
}

impl View for PolygonProps {
    type V = PolygonStyle;

    open spec fn view(&self) -> PolygonStyle {
        PolygonStyle {
            fill_color: self.fill_color@,
            border_color: self.border_color@,
            border_width: self.border_width as int,
            fill_priority: self.fill_priority as int,
            border_priority: self.border_priority as int,
        }
    }
}

/// A point rendered into an attribute: `x,y` in pixels.
pub open spec fn pt_chars(p: (int, int)) -> Seq<char> {
    mpx_chars(p.0) + seq![','] + mpx_chars(p.1)
}

/// A point list rendered into an attribute: points joined by spaces.
pub open spec fn pts_chars(pts: Seq<(int, int)>) -> Seq<char>
    decreases pts.len(),
{
    if pts.len() == 0 {
        Seq::empty()
    } else if pts.len() == 1 {
        pt_chars(pts[0])
    } else {
        pts_chars(pts.drop_last()) + seq![' '] + pt_chars(pts.last())
    }
}

/// Path-drawing instructions: a move to the first point, a line to each
/// following one.
pub open spec fn path_chars(pts: Seq<(int, int)>) -> Seq<char>
    decreases pts.len(),
{
    if pts.len() == 0 {
        Seq::empty()
    } else if pts.len() == 1 {
        seq!['M'] + pt_chars(pts[0])
    } else {
        path_chars(pts.drop_last()) + seq![' ', 'L'] + pt_chars(pts.last())
    }
}

/// One segment's contribution to a path's length: the Euclidean distance
/// rounded down.
pub open spec fn seg_len(a: (int, int), b: (int, int)) -> int {
    floor_sqrt(((b.0 - a.0) * (b.0 - a.0) + (b.1 - a.1) * (b.1 - a.1)) as nat) as int
}

/// The accumulated length of a point chain.
pub open spec fn path_len(pts: Seq<(int, int)>) -> int
    decreases pts.len(),
{
    if pts.len() <= 1 {
        0
    } else {
        path_len(pts.drop_last()) + seg_len(pts[pts.len() - 2], pts.last())
    }
}

/// Points translated into tile-local space.
pub open spec fn local_pts(pts: Seq<Point>, ox: int, oy: int) -> Seq<(int, int)> {
    pts.map(|i: int, p: Point| (p.x - ox, p.y - oy))
}

/// The style attribute of a stroked line.
pub open spec fn stroke_style_chars(color: Seq<char>, width: int) -> Seq<char> {
    "fill:none;stroke:"@ + color + ";stroke-width:"@ + u64_chars(width as nat)
}

/// The style attribute of a polygon fill.
pub open spec fn fill_style_chars(color: Seq<char>) -> Seq<char> {
    "fill:"@ + color + ";stroke:"@ + color + ";"@
}

/// A path identifier: `ID_` and a number.
pub open spec fn id_chars(id: int) -> Seq<char> {
    "ID_"@ + u64_chars(id as nat)
}

/// The byte length of a text, as the machine reports it.
pub open spec fn text_bytes(t: Seq<char>) -> int {
    (vstd::utf8::encode_utf8(t).len() as usize) as int
}

/// One drawing primitive of a composed scene, in the abstract: what the
/// emitted scene elements are matched against.
pub enum ScenePrim {
    /// A stroked open chain (`polyline` element).
    Stroke { pts: Seq<(int, int)>, color: Seq<char>, width: int, priority: int },
    /// A filled ring (`polygon` element).
    Fill { pts: Seq<(int, int)>, color: Seq<char>, priority: int },
    /// A stroked path carrying an identifier (`path` element).
    Path { id: int, pts: Seq<(int, int)>, color: Seq<char>, width: int, priority: int },
    /// A label along the path with the given identifier (`text` element
    /// holding a `textPath`).
    PathText {
        id: int,
        offset: int,
        text: Seq<char>,
        color: Seq<char>,
        size: int,
        weight: int,
        priority: int,
    },
    /// A label at a point (`text` element).
    Label {
        x: int,
        y: int,
        text: Seq<char>,
        color: Seq<char>,
        size: int,
        weight: int,
        priority: int,
    },
}

/// Whether one scene element is exactly the rendering of one primitive.
pub open spec fn prim_matches(n: XmlNode, p: ScenePrim) -> bool {
    match p {
        ScenePrim::Stroke { pts, color, width, priority } => {
            &&& n.tag@ == "polyline"@
            &&& n.text@ == Seq::<char>::empty()
            &&& n.nodes@.len() == 0
            &&& n.priority == priority
            &&& attrs_view(n.attrs@).len() == 2
            &&& attrs_view(n.attrs@)[0] == ("points"@, esc(pts_chars(pts)))
            &&& attrs_view(n.attrs@)[1] == ("style"@, esc(stroke_style_chars(color, width)))
        },
        ScenePrim::Fill { pts, color, priority } => {
            &&& n.tag@ == "polygon"@
            &&& n.text@ == Seq::<char>::empty()
            &&& n.nodes@.len() == 0
            &&& n.priority == priority
            &&& attrs_view(n.attrs@).len() == 2
            &&& attrs_view(n.attrs@)[0] == ("points"@, esc(pts_chars(pts)))
            &&& attrs_view(n.attrs@)[1] == ("style"@, esc(fill_style_chars(color)))
        },
        ScenePrim::Path { id, pts, color, width, priority } => {
            &&& n.tag@ == "path"@
            &&& n.text@ == Seq::<char>::empty()
            &&& n.nodes@.len() == 0
            &&& n.priority == priority
            &&& attrs_view(n.attrs@).len() == 5
            &&& attrs_view(n.attrs@)[0] == ("id"@, esc(id_chars(id)))
            &&& attrs_view(n.attrs@)[1] == ("fill"@, esc("none"@))
            &&& attrs_view(n.attrs@)[2] == ("stroke"@, esc(color))
            &&& attrs_view(n.attrs@)[3] == ("stroke-width"@, esc(u64_chars(width as nat)))
            &&& attrs_view(n.attrs@)[4] == ("d"@, esc(path_chars(pts)))
        },
        ScenePrim::PathText { id, offset, text, color, size, weight, priority } => {
            &&& n.tag@ == "text"@
            &&& n.text@ == Seq::<char>::empty()
            &&& n.attrs@.len() == 0
            &&& n.priority == priority
            &&& n.nodes@.len() == 1
            &&& {
                let tp = n.nodes@[0];
                &&& tp.tag@ == "textPath"@
                &&& tp.text@ == esc(text)
                &&& tp.nodes@.len() == 0
                &&& tp.priority == 0
                &&& attrs_view(tp.attrs@).len() == 5
                &&& attrs_view(tp.attrs@)[0] == ("href"@, esc(seq!['#'] + id_chars(id)))
                &&& attrs_view(tp.attrs@)[1] == ("startOffset"@, esc(mpx_chars(offset)))
                &&& attrs_view(tp.attrs@)[2] == ("font-size"@, esc(u64_chars(size as nat)))
                &&& attrs_view(tp.attrs@)[3] == ("font-weight"@, esc(u64_chars(weight as nat)))
                &&& attrs_view(tp.attrs@)[4] == ("fill"@, esc(color))
            }
        },
        ScenePrim::Label { x, y, text, color, size, weight, priority } => {
            &&& n.tag@ == "text"@
            &&& n.text@ == esc(text)
            &&& n.nodes@.len() == 0
            &&& n.priority == priority
            &&& attrs_view(n.attrs@).len() == 5
            &&& attrs_view(n.attrs@)[0] == ("x"@, esc(mpx_chars(x)))
            &&& attrs_view(n.attrs@)[1] == ("y"@, esc(mpx_chars(y)))
            &&& attrs_view(n.attrs@)[2] == ("fill"@, esc(color))
            &&& attrs_view(n.attrs@)[3] == ("font-size"@, esc(u64_chars(size as nat)))
            &&& attrs_view(n.attrs@)[4] == ("font-weight"@, esc(u64_chars(weight as nat)))
        },
    }
}

/// One square tile of the scene, collecting elements under an `svg` root.
pub struct SvgTile {
    pub x: u64,
    pub y: u64,
    pub z: u64,
    pub proj: Proj,
    pub xml: XmlNode,
    pub id_count: usize,
}

/// Everything but the collected elements and the identifier counter is
/// kept.
pub open spec fn same_frame(pre: SvgTile, post: SvgTile) -> bool {
    &&& post.x == pre.x
    &&& post.y == pre.y
    &&& post.z == pre.z
    &&& post.proj == pre.proj
    &&& post.xml.tag == pre.xml.tag
    &&& post.xml.text == pre.xml.text
    &&& post.xml.attrs == pre.xml.attrs
    &&& post.xml.priority == pre.xml.priority
}

/// The scene gained exactly the renderings of `prims`, in order, after
/// the elements it already had.
pub open spec fn appended(pre: SvgTile, post: SvgTile, prims: Seq<ScenePrim>) -> bool {
    &&& same_frame(pre, post)
    &&& post.xml.nodes@.len() == pre.xml.nodes@.len() + prims.len()
    &&& post.xml.nodes@.subrange(0, pre.xml.nodes@.len() as int) == pre.xml.nodes@
    &&& forall|k: int|
        0 <= k < prims.len() ==> prim_matches(
            post.xml.nodes@[pre.xml.nodes@.len() + k],
            #[trigger] prims[k],
        )
}

impl SvgTile {
    /// Tile addresses the pixel grid can hold.
    pub open spec fn wf(&self) -> bool {
        self.x < TILE_INDEX_LIMIT && self.y < TILE_INDEX_LIMIT
    }

    /// The x coordinate of the tile's pixel-space origin.
    pub open spec fn origin_x(&self) -> int {
        self.x * TILE_SPAN
    }

    /// The y coordinate of the tile's pixel-space origin.
    pub open spec fn origin_y(&self) -> int {
        self.y * TILE_SPAN
    }

    /// A fresh tile at the given address: an `svg` root sized to one
    /// tile, no elements yet, no identifiers used.
    pub fn new(x: u64, y: u64, z: u64, proj: Proj) -> (r: SvgTile)
        ensures
            r.x == x,
            r.y == y,
            r.z == z,
            r.proj == proj,
            r.id_count == 0,
            r.xml.tag@ == "svg"@,
            r.xml.text@ == Seq::<char>::empty(),
            r.xml.priority == 0,
            r.xml.nodes@.len() == 0,
            attrs_view(r.xml.attrs@) =~~= seq![
                ("xmlns"@, esc("http://www.w3.org/2000/svg"@)),
                ("width"@, "256"@),
                ("height"@, "256"@),
                ("viewBox"@, esc("0, 0, 256, 256"@)),
            ],
    {
        let mut xml = XmlNode::new("svg", "");
        proof {
            reveal_strlit("svg");
            reveal_strlit("");
            lemma_esc_plain("svg"@);
            lemma_esc_plain(""@);
            lemma_plain_keys();
        }
        xml.set_attr("xmlns", "http://www.w3.org/2000/svg");
        xml.set_attr("width", "256");
        xml.set_attr("height", "256");
        xml.set_attr("viewBox", "0, 0, 256, 256");
        proof {
            reveal_strlit("256");
            lemma_esc_plain("256"@);
        }
        SvgTile { x, y, z, proj, xml, id_count: 0 }
    }

    /// The tile's column.
    pub fn x(&self) -> (r: u64)
        ensures
            r == self.x,
    {
        self.x
    }

    /// The tile's row.
    pub fn y(&self) -> (r: u64)
        ensures
            r == self.y,
    {
        self.y
    }

    /// The tile's zoom level.
    pub fn z(&self) -> (r: u64)
        ensures
            r == self.z,
    {
        self.z
    }

    /// The projection the tile was addressed under.
    pub fn proj(&self) -> (r: &Proj)
        ensures
            *r == self.proj,
    {
        &self.proj
    }

    /// The tile's own rectangle in global pixel space.
    pub fn rect(&self) -> (r: Rectangle)
        requires
            self.wf(),
        ensures
            r.min.x == self.origin_x(),
            r.min.y == self.origin_y(),
            r.max.x == r.min.x + TILE_SPAN,
            r.max.y == r.min.y + TILE_SPAN,
            rect_valid(r),
            r.bounded(),
    {
        self.proj.tile_rect(self.x, self.y)
    }

    /// A global pixel-space point in tile-local coordinates.
    pub fn local(&self, point: &Point) -> (r: (i64, i64))
        requires
            self.wf(),
            point.bounded(),
        ensures
            r.0 == point.x - self.origin_x(),
            r.1 == point.y - self.origin_y(),
    {
        let ox = (self.x as i64) * TILE_SPAN;
        let oy = (self.y as i64) * TILE_SPAN;
        (point.x - ox, point.y - oy)
    }

    /// The estimated footprint of a label: half a font size of width per
    /// byte of text, one font size of height.
    pub fn text_size(text: &str, text_props: &TextProps) -> (r: Rectangle)
        requires
            text_props.size <= 0x4000_0000_0000,
            text_bytes(text@) * text_props.size <= 0x4000_0000_0000,
        ensures
            r.min.x == 0,
            r.min.y == 0,
            rect_valid(r),
            r.max.x == ((text_bytes(text@) * text_props.size) / 2) * 1000,
            r.max.y == text_props.size * 1000,
    {
        let bl = text.len();
        let sz = text_props.size;
        proof {
            assert(bl as int == text_bytes(text@));
        }
        let w = ((((bl as u64) * (sz as u64)) / 2) as i64) * 1000;
        let h = ((sz as u64) as i64) * 1000;
        Rectangle { min: Point::new(0, 0), max: Point::new(w, h) }
    }

    /// Sorts the collected elements stably by ascending priority: the
    /// finalization step before serializing.
    pub fn sort_tags(&mut self)
        ensures
            same_frame(*old(self), *final(self)),
            final(self).id_count == old(self).id_count,
            final(self).xml.nodes@.len() == old(self).xml.nodes@.len(),
            crate::xml::sorted_by_priority(final(self).xml.nodes@),
            forall|p: int|
                #![trigger final(self).xml.nodes@.filter(crate::xml::with_priority(p))]
                final(self).xml.nodes@.filter(crate::xml::with_priority(p)) == old(
                    self,
                ).xml.nodes@.filter(crate::xml::with_priority(p)),
    {
        self.xml.sort();
    }

    /// The serialized scene as bytes.
    pub fn dump(&self) -> (r: Vec<u8>)
        ensures
            r@ == vstd::utf8::encode_utf8(crate::xml::xml_chars(self.xml)),
    {
        let s = self.xml.to_string();
        s.as_str().as_bytes_vec()
    }

    /// Emits a stroked chain for `polyline`, styled by `props`.
    #[verifier::rlimit(100)]
    #[verifier::spinoff_prover]
    pub fn append_polyline(&mut self, polyline: &Polyline, props: &PolylineProps)
        requires
            old(self).wf(),
            polyline.bounded(),
        ensures
            final(self).id_count == old(self).id_count,
            appended(
                *old(self),
                *final(self),
                seq![
                    ScenePrim::Stroke {
                        pts: local_pts(
                            polyline.points@,
                            old(self).origin_x(),
                            old(self).origin_y(),
                        ),
                        color: props.color@,
                        width: props.width as int,
                        priority: props.priority as int,
                    },
                ],
            ),
    {
        let mut node = XmlNode::new("polyline", "");
        let ox = (self.x as i64) * TILE_SPAN;
        let oy = (self.y as i64) * TILE_SPAN;
        let pts = pts_string(&polyline.points, ox, oy);
        proof {
            lemma_plain_keys();
        }
        node.set_attr("points", pts.as_str());
        let style = stroke_style(&props.color, props.width);
        node.set_attr("style", style.as_str());
        node.set_priority(props.priority);
        proof {
            reveal_strlit("polyline");
            lemma_esc_plain("polyline"@);
            reveal_strlit("");
            lemma_esc_plain(""@);
            assert(attrs_view(node.attrs@) =~~= seq![
                ("points"@, esc(pts@)),
                ("style"@, esc(style@)),
            ]);
        }
        self.xml.add_node(node);
        proof {
            assert(self.xml.nodes@.subrange(0, old(self).xml.nodes@.len() as int)
                =~= old(self).xml.nodes@);
        }
    }

    /// Emits a filled ring and its border for `polygon`: two elements
    /// with independent priorities, styled by `props`.
    #[verifier::rlimit(100)]
    #[verifier::spinoff_prover]
    pub fn append_polygon(&mut self, polygon: &Polygon, props: &PolygonProps)
        requires
            old(self).wf(),
            polygon.bounded(),
        ensures
            final(self).id_count == old(self).id_count,
            appended(
                *old(self),
                *final(self),
                seq![
                    ScenePrim::Fill {
                        pts: local_pts(
                            polygon.points@,
                            old(self).origin_x(),
                            old(self).origin_y(),
                        ),
                        color: props.fill_color@,
                        priority: props.fill_priority as int,
                    },
                    ScenePrim::Stroke {
                        pts: local_pts(
                            polygon.points@,
                            old(self).origin_x(),
                            old(self).origin_y(),
                        ),
                        color: props.border_color@,
                        width: props.border_width as int,
                        priority: props.border_priority as int,
                    },
                ],
            ),
    {
        let ox = (self.x as i64) * TILE_SPAN;
        let oy = (self.y as i64) * TILE_SPAN;
        let pts = pts_string(&polygon.points, ox, oy);
        proof {
            lemma_plain_keys();
            reveal_strlit("polygon");
            lemma_esc_plain("polygon"@);
            reveal_strlit("polyline");
            lemma_esc_plain("polyline"@);
            reveal_strlit("");
            lemma_esc_plain(""@);
        }
        let mut polygon_node = XmlNode::new("polygon", "");
        let style = fill_style(&props.fill_color);
        polygon_node.set_attr("points", pts.as_str());
        polygon_node.set_attr("style", style.as_str());
        polygon_node.set_priority(props.fill_priority);
        proof {
            assert(attrs_view(polygon_node.attrs@) =~~= seq![
                ("points"@, esc(pts@)),
                ("style"@, esc(style@)),
            ]);
        }
        self.xml.add_node(polygon_node);

        let mut polyline_node = XmlNode::new("polyline", "");
        let style = stroke_style(&props.border_color, props.border_width);
        polyline_node.set_attr("points", pts.as_str());
        polyline_node.set_attr("style", style.as_str());
        polyline_node.set_priority(props.border_priority);
        proof {
            assert(attrs_view(polyline_node.attrs@) =~~= seq![
                ("points"@, esc(pts@)),
                ("style"@, esc(style@)),
            ]);
        }
        self.xml.add_node(polyline_node);
        proof {
            assert(self.xml.nodes@.subrange(0, old(self).xml.nodes@.len() as int)
                =~= old(self).xml.nodes@);
        }
    }
}

/// The attribute keys and fixed attribute values the compositor writes
/// contain no character that escaping would change.
proof fn lemma_plain_keys()
    ensures
        esc("points"@) == "points"@,
        esc("style"@) == "style"@,
        esc("xmlns"@) == "xmlns"@,
        esc("width"@) == "width"@,
        esc("height"@) == "height"@,
        esc("viewBox"@) == "viewBox"@,
        esc("id"@) == "id"@,
        esc("fill"@) == "fill"@,
        esc("none"@) == "none"@,
        esc("stroke"@) == "stroke"@,
        esc("stroke-width"@) == "stroke-width"@,
        esc("d"@) == "d"@,
        esc("href"@) == "href"@,
        esc("startOffset"@) == "startOffset"@,
        esc("font-size"@) == "font-size"@,
        esc("font-weight"@) == "font-weight"@,
        esc("x"@) == "x"@,
        esc("y"@) == "y"@,
        esc("text"@) == "text"@,
        esc("path"@) == "path"@,
        esc("textPath"@) == "textPath"@,
        esc(""@) == Seq::<char>::empty(),
        ""@ == Seq::<char>::empty(),
        "points"@ != "style"@,
        "xmlns"@ != "width"@,
        "xmlns"@ != "height"@,
        "xmlns"@ != "viewBox"@,
        "width"@ != "height"@,
        "width"@ != "viewBox"@,
        "height"@ != "viewBox"@,
        "id"@ != "fill"@,
        "id"@ != "stroke"@,
        "id"@ != "stroke-width"@,
        "id"@ != "d"@,
        "fill"@ != "stroke"@,
        "fill"@ != "stroke-width"@,
        "fill"@ != "d"@,
        "stroke"@ != "stroke-width"@,
        "stroke"@ != "d"@,
        "stroke-width"@ != "d"@,
        "href"@ != "startOffset"@,
        "href"@ != "font-size"@,
        "href"@ != "font-weight"@,
        "href"@ != "fill"@,
        "startOffset"@ != "font-size"@,
        "startOffset"@ != "font-weight"@,
        "startOffset"@ != "fill"@,
        "font-size"@ != "font-weight"@,
        "font-size"@ != "fill"@,
        "font-weight"@ != "fill"@,
        "x"@ != "y"@,
        "x"@ != "fill"@,
        "x"@ != "font-size"@,
        "x"@ != "font-weight"@,
        "y"@ != "fill"@,
        "y"@ != "font-size"@,
        "y"@ != "font-weight"@,
{
    reveal_strlit("points");
    reveal_strlit("style");
    reveal_strlit("xmlns");
    reveal_strlit("width");
    reveal_strlit("height");
    reveal_strlit("viewBox");
    reveal_strlit("id");
    reveal_strlit("fill");
    reveal_strlit("none");
    reveal_strlit("stroke");
    reveal_strlit("stroke-width");
    reveal_strlit("d");
    reveal_strlit("href");
    reveal_strlit("startOffset");
    reveal_strlit("font-size");
    reveal_strlit("font-weight");
    reveal_strlit("x");
    reveal_strlit("y");
    reveal_strlit("text");
    reveal_strlit("path");
    reveal_strlit("textPath");
    reveal_strlit("");
    assert(""@ =~= Seq::<char>::empty());
    lemma_esc_plain("points"@);
    lemma_esc_plain("style"@);
    lemma_esc_plain("xmlns"@);
    lemma_esc_plain("width"@);
    lemma_esc_plain("height"@);
    lemma_esc_plain("viewBox"@);
    lemma_esc_plain("id"@);
    lemma_esc_plain("fill"@);
    lemma_esc_plain("none"@);
    lemma_esc_plain("stroke"@);
    lemma_esc_plain("stroke-width"@);
    lemma_esc_plain("d"@);
    lemma_esc_plain("href"@);
    lemma_esc_plain("startOffset"@);
    lemma_esc_plain("font-size"@);
    lemma_esc_plain("font-weight"@);
    lemma_esc_plain("x"@);
    lemma_esc_plain("y"@);
    lemma_esc_plain("text"@);
    lemma_esc_plain("path"@);
    lemma_esc_plain("textPath"@);
    assert("startOffset"@[0] != "font-weight"@[0]);
}

/// The `points` attribute text for a chain, tile-locally.
fn pts_string(pts: &Vec<Point>, ox: i64, oy: i64) -> (r: String)
    requires
        forall|i: int| 0 <= i < pts@.len() ==> (#[trigger] pts@[i]).bounded(),
        in_range(ox as int),
        in_range(oy as int),
    ensures
        r@ == pts_chars(local_pts(pts@, ox as int, oy as int)),
{
    let ghost lp = local_pts(pts@, ox as int, oy as int);
    let mut out = String::new();
    let n = pts.len();
    let mut i: usize = 0;
    while i < n
        invariant
            i <= n,
            n == pts@.len(),
            forall|k: int| 0 <= k < pts@.len() ==> (#[trigger] pts@[k]).bounded(),
            in_range(ox as int),
            in_range(oy as int),
            lp == local_pts(pts@, ox as int, oy as int),
            out@ == pts_chars(lp.subrange(0, i as int)),
        decreases n - i,
    {
        if i > 0 {
            push_char(&mut out, ' ');
        }
        push_mpx(&mut out, pts[i].x - ox);
        push_char(&mut out, ',');
        push_mpx(&mut out, pts[i].y - oy);
        proof {
            let pre = lp.subrange(0, i as int);
            let cur = lp.subrange(0, (i + 1) as int);
            assert(cur.drop_last() =~= pre);
            assert(cur.last() == lp[i as int]);
            assert(lp[i as int] == (pts@[i as int].x - ox, pts@[i as int].y - oy));
            assert(out@ =~= pts_chars(cur));
        }
        i += 1;
    }
    proof {
        assert(lp.subrange(0, n as int) =~= lp);
    }
    out
}

/// The `style` attribute text of a stroked line.
fn stroke_style(color: &String, width: usize) -> (r: String)
    ensures
        r@ == stroke_style_chars(color@, width as int),
{
    let mut out = String::new();
    out.append("fill:none;stroke:");
    out.append(color.as_str());
    out.append(";stroke-width:");
    push_u64(&mut out, width as u64);
    proof {
        assert(out@ =~= stroke_style_chars(color@, width as int));
    }
    out
}

/// The `style` attribute text of a polygon fill.
fn fill_style(color: &String) -> (r: String)
    ensures
        r@ == fill_style_chars(color@),
{
    let mut out = String::new();
    out.append("fill:");
    out.append(color.as_str());
    out.append(";stroke:");
    out.append(color.as_str());
    out.append(";");
    proof {
        assert(out@ =~= fill_style_chars(color@));
    }
    out
}


impl SvgTile {
    /// Emits a centered label at a global pixel-space point: the text is
    /// shifted left by half its estimated width.
    #[verifier::rlimit(100)]
    #[verifier::spinoff_prover]
    pub fn append_text(&mut self, point: &Point, text: &str, props: &TextProps)
        requires
            old(self).wf(),
            point.bounded(),
            props.size <= 0x4000_0000_0000,
            text_bytes(text@) * props.size <= 0x4000_0000_0000,
        ensures
            final(self).id_count == old(self).id_count,
            appended(
                *old(self),
                *final(self),
                seq![
                    ScenePrim::Label {
                        x: point.x - old(self).origin_x() - ((text_bytes(text@) * props.size)
                            / 2) * 1000 / 2,
                        y: point.y - old(self).origin_y(),
                        text: text@,
                        color: props.fill_color@,
                        size: props.size as int,
                        weight: props.weight as int,
                        priority: props.priority as int,
                    },
                ],
            ),
    {
        let mut node = XmlNode::new("text", text);
        let (lx, ly) = self.local(point);
        let ts = SvgTile::text_size(text, props);
        let wh = ((ts.max.x as u64) / 2) as i64;
        let xv = crate::numfmt::fmt_mpx(lx - wh);
        let yv = crate::numfmt::fmt_mpx(ly);
        let fs = crate::numfmt::u64_to_string(props.size as u64);
        let fw = crate::numfmt::u64_to_string(props.weight as u64);
        proof {
            lemma_plain_keys();
        }
        node.set_attr("x", xv.as_str());
        node.set_attr("y", yv.as_str());
        node.set_attr("fill", props.fill_color.as_str());
        node.set_attr("font-size", fs.as_str());
        node.set_attr("font-weight", fw.as_str());
        node.set_priority(props.priority);
        proof {
            assert(attrs_view(node.attrs@) =~~= seq![
                ("x"@, esc(xv@)),
                ("y"@, esc(yv@)),
                ("fill"@, esc(props.fill_color@)),
                ("font-size"@, esc(fs@)),
                ("font-weight"@, esc(fw@)),
            ]);
        }
        self.xml.add_node(node);
        proof {
            assert(self.xml.nodes@.subrange(0, old(self).xml.nodes@.len() as int)
                =~= old(self).xml.nodes@);
        }
    }

    /// Emits a stroked path carrying a fresh identifier, and, when the
    /// path is long enough to offer a legible start offset, a label laid
    /// out along it; a cramped label is silently dropped and only the
    /// path is kept.
    #[verifier::rlimit(100)]
    #[verifier::spinoff_prover]
    pub fn append_text_path(
        &mut self,
        polyline: &Polyline,
        text: &str,
        line_props: &PolylineProps,
        text_props: &TextProps,
    )
        requires
            old(self).wf(),
            polyline.bounded(),
            polyline.points@.len() <= 0x1_0000_0000_0000,
            old(self).id_count < usize::MAX,
            text_props.size <= 0x4000_0000_0000,
            text_bytes(text@) * text_props.size <= 0x4000_0000_0000,
        ensures
            final(self).id_count == old(self).id_count + 1,
            appended(
                *old(self),
                *final(self),
                text_path_prims(
                    local_pts(polyline.points@, old(self).origin_x(), old(self).origin_y()),
                    old(self).id_count + 1,
                    text@,
                    line_props.color@,
                    line_props.width as int,
                    line_props.priority as int,
                    text_props.fill_color@,
                    text_props.size as int,
                    text_props.weight as int,
                    text_props.priority as int,
                ),
            ),
    {
        let ghost pre = *self;
        let ox = (self.x as i64) * TILE_SPAN;
        let oy = (self.y as i64) * TILE_SPAN;
        let ghost lp = local_pts(polyline.points@, ox as int, oy as int);
        let (data, path_length) = path_data(&polyline.points, ox, oy);

        self.id_count = self.id_count + 1;
        let mut ids = String::new();
        ids.append("ID_");
        crate::numfmt::push_u64(&mut ids, self.id_count as u64);
        proof {
            assert(ids@ =~= id_chars(pre.id_count + 1));
        }

        let mut path = XmlNode::new("path", "");
        let sw = crate::numfmt::u64_to_string(line_props.width as u64);
        proof {
            lemma_plain_keys();
        }
        path.set_attr("id", ids.as_str());
        path.set_attr("fill", "none");
        path.set_attr("stroke", line_props.color.as_str());
        path.set_attr("stroke-width", sw.as_str());
        path.set_attr("d", data.as_str());
        path.set_priority(line_props.priority);
        proof {
            assert(attrs_view(path.attrs@) =~~= seq![
                ("id"@, esc(ids@)),
                ("fill"@, esc("none"@)),
                ("stroke"@, esc(line_props.color@)),
                ("stroke-width"@, esc(sw@)),
                ("d"@, esc(data@)),
            ]);
        }
        self.xml.add_node(path);

        let ts = SvgTile::text_size(text, text_props);
        let diff = path_length - (ts.max.x as i128);
        let offset: i128 = if diff >= 0 {
            diff / 2
        } else {
            -((-diff) / 2)
        };
        proof {
            assert(offset == label_offset(lp, text@, text_props.size as int));
        }

        if offset > (MIN_LABEL_OFFSET as i128) {
            let mut href = String::new();
            push_char(&mut href, '#');
            href.append(ids.as_str());
            let mut so = String::new();
            crate::numfmt::push_mpx_wide(&mut so, offset);
            let fs = crate::numfmt::u64_to_string(text_props.size as u64);
            let fw = crate::numfmt::u64_to_string(text_props.weight as u64);
            let mut text_path = XmlNode::new("textPath", text);
            proof {
                lemma_plain_keys();
            }
            text_path.set_attr("href", href.as_str());
            text_path.set_attr("startOffset", so.as_str());
            text_path.set_attr("font-size", fs.as_str());
            text_path.set_attr("font-weight", fw.as_str());
            text_path.set_attr("fill", text_props.fill_color.as_str());
            proof {
                assert(attrs_view(text_path.attrs@) =~~= seq![
                    ("href"@, esc(href@)),
                    ("startOffset"@, esc(so@)),
                    ("font-size"@, esc(fs@)),
                    ("font-weight"@, esc(fw@)),
                    ("fill"@, esc(text_props.fill_color@)),
                ]);
            }
            let mut label = XmlNode::new("text", "");
            label.add_node(text_path);
            label.set_priority(text_props.priority);
            self.xml.add_node(label);
        }
        proof {
            assert(self.xml.nodes@.subrange(0, pre.xml.nodes@.len() as int)
                =~= pre.xml.nodes@);
        }
    }
}

/// The primitives a labelled path contributes: the path itself, and the
/// label when its start offset clears the legibility margin.
pub open spec fn text_path_prims(
    pts: Seq<(int, int)>,
    id: int,
    text: Seq<char>,
    line_color: Seq<char>,
    line_width: int,
    line_priority: int,
    text_color: Seq<char>,
    size: int,
    weight: int,
    text_priority: int,
) -> Seq<ScenePrim> {
    let path = ScenePrim::Path {
        id,
        pts,
        color: line_color,
        width: line_width,
        priority: line_priority,
    };
    let offset = label_offset(pts, text, size);
    if offset > MIN_LABEL_OFFSET {
        seq![
            path,
            ScenePrim::PathText {
                id,
                offset,
                text,
                color: text_color,
                size,
                weight,
                priority: text_priority,
            },
        ]
    } else {
        seq![path]
    }
}

/// Where along a path a label of the given text starts: half of what the
/// path's length leaves over after the label's estimated width.
pub open spec fn label_offset(pts: Seq<(int, int)>, text: Seq<char>, size: int) -> int {
    trunc_div(path_len(pts) - ((text_bytes(text) * size) / 2) * 1000, 2)
}

/// The path-drawing instructions and accumulated length of a chain,
/// tile-locally.
fn path_data(pts: &Vec<Point>, ox: i64, oy: i64) -> (r: (String, i128))
    requires
        forall|i: int| 0 <= i < pts@.len() ==> (#[trigger] pts@[i]).bounded(),
        pts@.len() <= 0x1_0000_0000_0000,
        in_range(ox as int),
        in_range(oy as int),
    ensures
        r.0@ == path_chars(local_pts(pts@, ox as int, oy as int)),
        r.1 == path_len(local_pts(pts@, ox as int, oy as int)),
        0 <= r.1,
{
    let ghost lp = local_pts(pts@, ox as int, oy as int);
    let mut data = String::new();
    let mut path_length: i128 = 0;
    let mut prev_x: i64 = 0;
    let mut prev_y: i64 = 0;
    let n = pts.len();
    let mut i: usize = 0;
    while i < n
        invariant
            i <= n,
            n == pts@.len(),
            n <= 0x1_0000_0000_0000,
            forall|k: int| 0 <= k < pts@.len() ==> (#[trigger] pts@[k]).bounded(),
            in_range(ox as int),
            in_range(oy as int),
            lp == local_pts(pts@, ox as int, oy as int),
            data@ == path_chars(lp.subrange(0, i as int)),
            path_length == path_len(lp.subrange(0, i as int)),
            0 <= path_length,
            path_length <= (i as int) * 0xFFFF_FFFF_FFFF_FFFF,
            i > 0 ==> prev_x == lp[i as int - 1].0 && prev_y == lp[i as int - 1].1,
        decreases n - i,
    {
        let px = pts[i].x - ox;
        let py = pts[i].y - oy;
        if i == 0 {
            push_char(&mut data, 'M');
            push_mpx(&mut data, px);
            push_char(&mut data, ',');
            push_mpx(&mut data, py);
        } else {
            push_char(&mut data, ' ');
            push_char(&mut data, 'L');
            push_mpx(&mut data, px);
            push_char(&mut data, ',');
            push_mpx(&mut data, py);
            let d = seg_dist(prev_x, prev_y, px, py);
            path_length = path_length + (d as i128);
        }
        prev_x = px;
        prev_y = py;
        proof {
            let prefix = lp.subrange(0, i as int);
            let cur = lp.subrange(0, (i + 1) as int);
            assert(cur.drop_last() =~= prefix);
            assert(cur.last() == lp[i as int]);
            assert(lp[i as int] == (pts@[i as int].x - ox, pts@[i as int].y - oy));
            assert(data@ =~= path_chars(cur));
            if i > 0 {
                assert(cur[i as int - 1] == prefix[i as int - 1]);
            }
        }
        i += 1;
    }
    proof {
        assert(lp.subrange(0, n as int) =~= lp);
    }
    (data, path_length)
}

/// The Euclidean distance between two tile-local points, rounded down.
fn seg_dist(ax: i64, ay: i64, bx: i64, by: i64) -> (r: u64)
    requires
        crate::base::in_local_range(ax as int),
        crate::base::in_local_range(ay as int),
        crate::base::in_local_range(bx as int),
        crate::base::in_local_range(by as int),
    ensures
        r == seg_len((ax as int, ay as int), (bx as int, by as int)),
{
    let dx = (bx as i128) - (ax as i128);
    let dy = (by as i128) - (ay as i128);
    let adx: u128 = if dx < 0 {
        (-dx) as u128
    } else {
        dx as u128
    };
    let ady: u128 = if dy < 0 {
        (-dy) as u128
    } else {
        dy as u128
    };
    proof {
        crate::base::lemma_mul_bounds(adx as int, adx as int, 0x8000_0000_0000_0000);
        crate::base::lemma_mul_bounds(ady as int, ady as int, 0x8000_0000_0000_0000);
        crate::base::lemma_square_nonneg(adx as int);
        crate::base::lemma_square_nonneg(ady as int);
        assert((adx as int) * (adx as int) == (dx as int) * (dx as int)) by (nonlinear_arith)
            requires
                adx as int == dx as int || adx as int == -(dx as int),
        ;
        assert((ady as int) * (ady as int) == (dy as int) * (dy as int)) by (nonlinear_arith)
            requires
                ady as int == dy as int || ady as int == -(dy as int),
        ;
    }
    let sq = adx * adx + ady * ady;
    crate::base::isqrt(sq)
}


/// The signed area of a bounding rectangle.
pub open spec fn rect_area(r: Rectangle) -> int {
    (r.max.x - r.min.x) * (r.max.y - r.min.y)
}

/// Whether a feature survives culling against the tile whose origin is
/// `(ox, oy)`: its projected rectangle must touch the tile and cover at
/// least the minimum area.
pub open spec fn kept(node: Node, ox: int, oy: int) -> bool {
    &&& rect_valid(node.info.rect)
    &&& node.info.rect.max.x >= ox
    &&& node.info.rect.max.y >= oy
    &&& node.info.rect.min.x <= ox + TILE_SPAN
    &&& node.info.rect.min.y <= oy + TILE_SPAN
    &&& rect_area(node.info.rect) >= MIN_AREA
}

/// How many path identifiers drawing one feature consumes.
pub open spec fn ids_used(z: int, node: Node, ox: int, oy: int) -> int {
    if kept(node, ox, oy) && node.shape is Polyline && z > SHOW_TEXT
        && node.info.name@.len() > 0 {
        1
    } else {
        0
    }
}

/// The primitives one feature contributes to a tile at zoom `z` with
/// origin `(ox, oy)`, `id0` identifiers being already taken: nothing if
/// culled; for a polyline a labelled path, a plain stroke, or nothing,
/// by zoom and label; for a polygon a fill, a border, and a centered
/// label when the rectangle leaves room for it; nothing for the rest.
pub open spec fn node_prims(
    z: int,
    ox: int,
    oy: int,
    node: Node,
    pg: PolygonStyle,
    pl: LineStyle,
    tx: TextStyle,
    id0: int,
) -> Seq<ScenePrim> {
    if !kept(node, ox, oy) {
        Seq::empty()
    } else {
        match node.shape {
            Shape::Polyline(pline) => {
                let pts = local_pts(pline.points@, ox, oy);
                if z > SHOW_TEXT && node.info.name@.len() > 0 {
                    text_path_prims(
                        pts,
                        id0 + 1,
                        node.info.name@,
                        pl.color,
                        pl.width,
                        pl.priority,
                        tx.fill_color,
                        tx.size,
                        tx.weight,
                        tx.priority,
                    )
                } else if z > SHOW_POLYLINE {
                    seq![
                        ScenePrim::Stroke {
                            pts,
                            color: pl.color,
                            width: pl.width,
                            priority: pl.priority,
                        },
                    ]
                } else {
                    Seq::empty()
                }
            },
            Shape::Polygon(poly) => polygon_prims(ox, oy, poly.points@, node.info, pg, tx),
            _ => Seq::empty(),
        }
    }
}

/// The primitives a kept polygon contributes: its fill, its border, and
/// a centered label when the name is present and the bounding rectangle
/// exceeds the label's estimated footprint in both directions.
pub open spec fn polygon_prims(
    ox: int,
    oy: int,
    pts0: Seq<Point>,
    info: Info,
    pg: PolygonStyle,
    tx: TextStyle,
) -> Seq<ScenePrim> {
    let pts = local_pts(pts0, ox, oy);
    let two = seq![
        ScenePrim::Fill { pts, color: pg.fill_color, priority: pg.fill_priority },
        ScenePrim::Stroke {
            pts,
            color: pg.border_color,
            width: pg.border_width,
            priority: pg.border_priority,
        },
    ];
    let w = ((text_bytes(info.name@) * tx.size) / 2) * 1000;
    let h = tx.size * 1000;
    let r = info.rect;
    if info.name@.len() > 0 && r.max.x - r.min.x > w && r.max.y - r.min.y > h {
        two.push(
            ScenePrim::Label {
                x: trunc_div(r.min.x + r.max.x, 2) - ox - w / 2,
                y: trunc_div(r.min.y + r.max.y, 2) - oy,
                text: info.name@,
                color: tx.fill_color,
                size: tx.size,
                weight: tx.weight,
                priority: tx.priority,
            },
        )
    } else {
        two
    }
}

/// Every point of the shape within the kernel's bound, and chains short
/// enough to measure.
pub open spec fn shape_bounded(s: Shape) -> bool {
    match s {
        Shape::Polyline(p) => p.bounded() && p.points@.len() <= 0x1_0000_0000_0000,
        Shape::Polygon(p) => p.bounded(),
        _ => true,
    }
}

/// What drawing one feature needs of it: bounded geometry and a label
/// whose estimated footprint stays representable at the given font size.
pub open spec fn drawable(node: Node, size: int) -> bool {
    &&& node.info.rect.bounded()
    &&& shape_bounded(node.shape)
    &&& 0 <= size <= 0x4000_0000_0000
    &&& text_bytes(node.info.name@) * size <= 0x4000_0000_0000
}

/// The identifiers consumed by a list of features, in order.
pub open spec fn nodes_ids(z: int, ox: int, oy: int, ns: Seq<Node>) -> int
    decreases ns.len(),
{
    if ns.len() == 0 {
        0
    } else {
        nodes_ids(z, ox, oy, ns.drop_last()) + ids_used(z, ns.last(), ox, oy)
    }
}

/// The primitives a list of features contributes, in order, threading
/// the identifier counter through.
pub open spec fn nodes_prims(
    z: int,
    ox: int,
    oy: int,
    ns: Seq<Node>,
    pg: PolygonStyle,
    pl: LineStyle,
    tx: TextStyle,
    id0: int,
) -> Seq<ScenePrim>
    decreases ns.len(),
{
    if ns.len() == 0 {
        Seq::empty()
    } else {
        nodes_prims(z, ox, oy, ns.drop_last(), pg, pl, tx, id0) + node_prims(
            z,
            ox,
            oy,
            ns.last(),
            pg,
            pl,
            tx,
            id0 + nodes_ids(z, ox, oy, ns.drop_last()),
        )
    }
}

/// A list of features consumes between zero and one identifier each.
proof fn lemma_nodes_ids_bounds(z: int, ox: int, oy: int, ns: Seq<Node>)
    ensures
        0 <= nodes_ids(z, ox, oy, ns) <= ns.len(),
    decreases ns.len(),
{
    if ns.len() > 0 {
        lemma_nodes_ids_bounds(z, ox, oy, ns.drop_last());
    }
}

/// Scene extensions compose.
proof fn lemma_appended_trans(
    a: SvgTile,
    b: SvgTile,
    c: SvgTile,
    p1: Seq<ScenePrim>,
    p2: Seq<ScenePrim>,
)
    requires
        appended(a, b, p1),
        appended(b, c, p2),
    ensures
        appended(a, c, p1 + p2),
{
    let la = a.xml.nodes@.len() as int;
    let lb = b.xml.nodes@.len() as int;
    assert(c.xml.nodes@.subrange(0, la) =~= b.xml.nodes@.subrange(0, la));
    assert(b.xml.nodes@.subrange(0, la) =~= a.xml.nodes@);
    assert forall|k: int| 0 <= k < (p1 + p2).len() implies prim_matches(
        c.xml.nodes@[la + k],
        #[trigger] (p1 + p2)[k],
    ) by {
        if k < p1.len() {
            assert((p1 + p2)[k] == p1[k]);
            assert(b.xml.nodes@[la + k] == c.xml.nodes@.subrange(0, lb)[la + k]);
            assert(c.xml.nodes@[la + k] == b.xml.nodes@[la + k]);
        } else {
            assert((p1 + p2)[k] == p2[k - p1.len()]);
            assert(c.xml.nodes@[lb + (k - p1.len())] == c.xml.nodes@[la + k]);
        }
    }
}

impl SvgTile {
    /// Whether a feature survives culling against this tile.
    fn keeps(&self, node: &Node) -> (r: bool)
        requires
            self.wf(),
            node.info.rect.bounded(),
        ensures
            r == kept(*node, self.origin_x(), self.origin_y()),
    {
        let trect = self.rect();
        node.info.rect.is_intersect(&trect) && match node.info.rect.area() {
            Some(v) => v >= MIN_AREA,
            None => true,
        }
    }

    /// Emits a kept polygon's fill and border, and a centered label when
    /// the feature's name fits its projected rectangle.
    #[verifier::rlimit(100)]
    #[verifier::spinoff_prover]
    fn draw_polygon(
        &mut self,
        polygon: &Polygon,
        info: &Info,
        polygon_props: &PolygonProps,
        text_props: &TextProps,
    )
        requires
            old(self).wf(),
            polygon.bounded(),
            info.rect.bounded(),
            text_props.size <= 0x4000_0000_0000,
            text_bytes(info.name@) * text_props.size <= 0x4000_0000_0000,
        ensures
            final(self).id_count == old(self).id_count,
            appended(
                *old(self),
                *final(self),
                polygon_prims(
                    old(self).origin_x(),
                    old(self).origin_y(),
                    polygon.points@,
                    *info,
                    polygon_props@,
                    text_props@,
                ),
            ),
    {
        let ghost s0 = *self;
        let ghost prims = polygon_prims(s0.origin_x(), s0.origin_y(), polygon.points@, *info,
            polygon_props@, text_props@);
        self.append_polygon(polygon, polygon_props);
        let ghost mid = *self;
        proof {
            let two = seq![
                ScenePrim::Fill {
                    pts: local_pts(polygon.points@, s0.origin_x(), s0.origin_y()),
                    color: polygon_props.fill_color@,
                    priority: polygon_props.fill_priority as int,
                },
                ScenePrim::Stroke {
                    pts: local_pts(polygon.points@, s0.origin_x(), s0.origin_y()),
                    color: polygon_props.border_color@,
                    width: polygon_props.border_width as int,
                    priority: polygon_props.border_priority as int,
                },
            ];
            assert(two =~= prims.subrange(0, 2));
            assert(appended(s0, mid, prims.subrange(0, 2)));
        }
        let ts = SvgTile::text_size(info.name.as_str(), text_props);
        let has_name = info.name.as_str().unicode_len() > 0;
        if has_name && info.rect.width() > ts.max.x && info.rect.height() > ts.max.y {
            let c = info.rect.center();
            proof {
                crate::base::lemma_half_range(info.rect.min.x + info.rect.max.x,
                    0x2000_0000_0000_0000);
                crate::base::lemma_half_range(info.rect.min.y + info.rect.max.y,
                    0x2000_0000_0000_0000);
            }
            self.append_text(&c, info.name.as_str(), text_props);
            proof {
                let lbl = ScenePrim::Label {
                    x: c.x - mid.origin_x() - ((text_bytes(info.name@) * text_props.size) / 2)
                        * 1000 / 2,
                    y: c.y - mid.origin_y(),
                    text: info.name@,
                    color: text_props.fill_color@,
                    size: text_props.size as int,
                    weight: text_props.weight as int,
                    priority: text_props.priority as int,
                };
                assert(appended(mid, *self, seq![lbl]));
                assert(lbl == prims[2]);
                assert(seq![lbl] =~= prims.subrange(2, 3));
                assert(appended(mid, *self, prims.subrange(2, 3)));
                lemma_appended_trans(s0, mid, *self, prims.subrange(0, 2), prims.subrange(2, 3));
                assert(prims.subrange(0, 2) + prims.subrange(2, 3) =~= prims);
                assert(appended(s0, *self, prims));
            }
        } else {
            proof {
                assert(prims =~= prims.subrange(0, 2));
                assert(appended(s0, *self, prims));
            }
        }
    }

    /// Culls one feature against this tile and, if it survives, emits
    /// its primitives: a labelled path, stroke, fill, border or label by
    /// shape, zoom and styling.
    #[verifier::rlimit(100)]
    #[verifier::spinoff_prover]
    pub fn draw_node(
        &mut self,
        node: &Node,
        polygon_props: &PolygonProps,
        polyline_props: &PolylineProps,
        text_props: &TextProps,
    )
        requires
            old(self).wf(),
            drawable(*node, text_props.size as int),
            old(self).id_count < usize::MAX,
        ensures
            final(self).id_count == old(self).id_count + ids_used(
                old(self).z as int,
                *node,
                old(self).origin_x(),
                old(self).origin_y(),
            ),
            appended(
                *old(self),
                *final(self),
                node_prims(
                    old(self).z as int,
                    old(self).origin_x(),
                    old(self).origin_y(),
                    *node,
                    polygon_props@,
                    polyline_props@,
                    text_props@,
                    old(self).id_count as int,
                ),
            ),
    {
        let ghost s0 = *self;
        let keep = self.keeps(node);
        if !keep {
            proof {
                assert(self.xml.nodes@.subrange(0, s0.xml.nodes@.len() as int)
                    =~= s0.xml.nodes@);
            }
            return ;
        }
        match &node.shape {
            Shape::Polyline(polyline) => {
                if self.z > SHOW_TEXT && node.info.name.as_str().unicode_len() > 0 {
                    self.append_text_path(
                        polyline,
                        node.info.name.as_str(),
                        polyline_props,
                        text_props,
                    );
                } else if self.z > SHOW_POLYLINE {
                    self.append_polyline(polyline, polyline_props);
                } else {
                    proof {
                        assert(self.xml.nodes@.subrange(0, s0.xml.nodes@.len() as int)
                            =~= s0.xml.nodes@);
                    }
                }
            },
            Shape::Polygon(polygon) => {
                self.draw_polygon(polygon, &node.info, polygon_props, text_props);
            },
            _ => {
                proof {
                    assert(self.xml.nodes@.subrange(0, s0.xml.nodes@.len() as int)
                        =~= s0.xml.nodes@);
                }
            },
        }
    }

    /// Draws a whole feature layer: each feature in source order, culled
    /// and styled the same way.
    pub fn draw_tile(
        &mut self,
        nodes: &Vec<Node>,
        polygon_props: &PolygonProps,
        polyline_props: &PolylineProps,
        text_props: &TextProps,
    )
        requires
            old(self).wf(),
            forall|i: int|
                0 <= i < nodes@.len() ==> drawable(#[trigger] nodes@[i], text_props.size as int),
            old(self).id_count + nodes@.len() <= usize::MAX,
        ensures
            final(self).id_count == old(self).id_count + nodes_ids(
                old(self).z as int,
                old(self).origin_x(),
                old(self).origin_y(),
                nodes@,
            ),
            appended(
                *old(self),
                *final(self),
                nodes_prims(
                    old(self).z as int,
                    old(self).origin_x(),
                    old(self).origin_y(),
                    nodes@,
                    polygon_props@,
                    polyline_props@,
                    text_props@,
                    old(self).id_count as int,
                ),
            ),
    {
        let ghost s0 = *self;
        let ghost z = s0.z as int;
        let ghost ox = s0.origin_x();
        let ghost oy = s0.origin_y();
        proof {
            assert(nodes@.subrange(0, 0) =~= Seq::<Node>::empty());
            assert(s0.xml.nodes@.subrange(0, s0.xml.nodes@.len() as int) =~= s0.xml.nodes@);
        }
        let n = nodes.len();
        let mut i: usize = 0;
        while i < n
            invariant
                i <= n,
                n == nodes@.len(),
                s0 == *old(self),
                self.wf(),
                z == s0.z as int,
                ox == s0.origin_x(),
                oy == s0.origin_y(),
                forall|k: int|
                    0 <= k < nodes@.len() ==> drawable(#[trigger] nodes@[k], text_props.size as int),
                s0.id_count + nodes@.len() <= usize::MAX,
                self.id_count == s0.id_count + nodes_ids(z, ox, oy, nodes@.subrange(0, i as int)),
                appended(
                    s0,
                    *self,
                    nodes_prims(
                        z,
                        ox,
                        oy,
                        nodes@.subrange(0, i as int),
                        polygon_props@,
                        polyline_props@,
                        text_props@,
                        s0.id_count as int,
                    ),
                ),
            decreases n - i,
        {
            proof {
                lemma_nodes_ids_bounds(z, ox, oy, nodes@.subrange(0, i as int));
            }
            let ghost mid = *self;
            self.draw_node(&nodes[i], polygon_props, polyline_props, text_props);
            proof {
                let prefix = nodes@.subrange(0, i as int);
                let cur = nodes@.subrange(0, (i + 1) as int);
                assert(cur.drop_last() =~= prefix);
                assert(cur.last() == nodes@[i as int]);
                lemma_appended_trans(
                    s0,
                    mid,
                    *self,
                    nodes_prims(z, ox, oy, prefix, polygon_props@, polyline_props@, text_props@,
                        s0.id_count as int),
                    node_prims(z, ox, oy, nodes@[i as int], polygon_props@, polyline_props@,
                        text_props@, mid.id_count as int),
                );
            }
            i += 1;
        }
        proof {
            assert(nodes@.subrange(0, n as int) =~= nodes@);
        }
    }
}


/// The fixed styling of the administrative-region layer.
pub open spec fn region_styles() -> (PolygonStyle, LineStyle, TextStyle) {
    (
        PolygonStyle {
            fill_color: "#d3f8e2"@,
            border_color: "#5491f5"@,
            border_width: 3,
            fill_priority: 10,
            border_priority: 20,
        },
        LineStyle { color: "#5491f5"@, width: 3, priority: 20 },
        TextStyle { fill_color: "#5491f5"@, size: 32, weight: 700, priority: 30 },
    )
}

/// The fixed styling of the water layer.
pub open spec fn water_styles() -> (PolygonStyle, LineStyle, TextStyle) {
    (
        PolygonStyle {
            fill_color: "#90daee"@,
            border_color: "#90daee"@,
            border_width: 1,
            fill_priority: 10,
            border_priority: 20,
        },
        LineStyle { color: "#90daee"@, width: 1, priority: 20 },
        TextStyle { fill_color: "#000000"@, size: 20, weight: 700, priority: 30 },
    )
}

/// The fixed styling of the land layer.
pub open spec fn land_styles() -> (PolygonStyle, LineStyle, TextStyle) {
    (
        PolygonStyle {
            fill_color: "#f5f0e5"@,
            border_color: "#aab9c9"@,
            border_width: 1,
            fill_priority: 10,
            border_priority: 20,
        },
        LineStyle { color: "#aab9c9"@, width: 3, priority: 20 },
        TextStyle { fill_color: "#000000"@, size: 20, weight: 700, priority: 30 },
    )
}

/// The fixed styling of the road layer; its polygons reuse the region
/// priorities.
pub open spec fn road_styles() -> (PolygonStyle, LineStyle, TextStyle) {
    (
        PolygonStyle {
            fill_color: "#aab9c9"@,
            border_color: "#78909c"@,
            border_width: 1,
            fill_priority: 10,
            border_priority: 20,
        },
        LineStyle { color: "#78909c"@, width: 3, priority: 20 },
        TextStyle { fill_color: "#000000"@, size: 20, weight: 900, priority: 30 },
    )
}

/// The fixed styling of the building layer.
pub open spec fn building_styles() -> (PolygonStyle, LineStyle, TextStyle) {
    (
        PolygonStyle {
            fill_color: "#e8e9ed"@,
            border_color: "#aab9c9"@,
            border_width: 1,
            fill_priority: 10,
            border_priority: 20,
        },
        LineStyle { color: "#aab9c9"@, width: 3, priority: 20 },
        TextStyle { fill_color: "#000000"@, size: 20, weight: 700, priority: 30 },
    )
}

/// The primitives of one whole tile: the five layers in their fixed
/// order, each with its own styling, threading the path-identifier
/// counter from layer to layer.
pub open spec fn tile_scene(
    z: int,
    ox: int,
    oy: int,
    region: Seq<Node>,
    water: Seq<Node>,
    land: Seq<Node>,
    road: Seq<Node>,
    building: Seq<Node>,
) -> Seq<ScenePrim> {
    let i1 = nodes_ids(z, ox, oy, region);
    let i2 = i1 + nodes_ids(z, ox, oy, water);
    let i3 = i2 + nodes_ids(z, ox, oy, land);
    let i4 = i3 + nodes_ids(z, ox, oy, road);
    nodes_prims(z, ox, oy, region, region_styles().0, region_styles().1, region_styles().2, 0)
        + nodes_prims(z, ox, oy, water, water_styles().0, water_styles().1, water_styles().2, i1)
        + nodes_prims(z, ox, oy, land, land_styles().0, land_styles().1, land_styles().2, i2)
        + nodes_prims(z, ox, oy, road, road_styles().0, road_styles().1, road_styles().2, i3)
        + nodes_prims(
        z,
        ox,
        oy,
        building,
        building_styles().0,
        building_styles().1,
        building_styles().2,
        i4,
    )
}

/// Whether a finalized element list is a rendering of `prims`: some list
/// matching the primitives one to one reads, priority for priority, the
/// same as the finalized list, which is its stable reordering.
pub open spec fn renders(xml_nodes: Seq<XmlNode>, prims: Seq<ScenePrim>) -> bool {
    exists|ns: Seq<XmlNode>|
        {
            &&& #[trigger] ns.len() == prims.len()
            &&& (forall|k: int| 0 <= k < prims.len() ==> prim_matches(ns[k], #[trigger] prims[k]))
            &&& xml_nodes.len() == ns.len()
            &&& (forall|p: int|
                #![trigger xml_nodes.filter(with_priority(p))]
                xml_nodes.filter(with_priority(p)) == ns.filter(with_priority(p)))
        }
}

/// Renders one tile: composes the five feature layers in their fixed
/// order against the tile's pixel rectangle, then finalizes the scene by
/// the stable priority sort. The result holds exactly the renderings of
/// `tile_scene`, reordered by ascending priority with ties in scene
/// order.
pub fn render_tile(
    x: u64,
    y: u64,
    z: u64,
    proj: Proj,
    region: &Vec<Node>,
    water: &Vec<Node>,
    land: &Vec<Node>,
    road: &Vec<Node>,
    building: &Vec<Node>,
) -> (r: SvgTile)
    requires
        x < TILE_INDEX_LIMIT,
        y < TILE_INDEX_LIMIT,
        forall|i: int| 0 <= i < region@.len() ==> drawable(#[trigger] region@[i], 32),
        forall|i: int| 0 <= i < water@.len() ==> drawable(#[trigger] water@[i], 20),
        forall|i: int| 0 <= i < land@.len() ==> drawable(#[trigger] land@[i], 20),
        forall|i: int| 0 <= i < road@.len() ==> drawable(#[trigger] road@[i], 20),
        forall|i: int| 0 <= i < building@.len() ==> drawable(#[trigger] building@[i], 20),
        region@.len() + water@.len() + land@.len() + road@.len() + building@.len() <= usize::MAX,
    ensures
        r.x == x,
        r.y == y,
        r.z == z,
        r.proj == proj,
        r.xml.tag@ == "svg"@,
        r.xml.text@ == Seq::<char>::empty(),
        sorted_by_priority(r.xml.nodes@),
        renders(
            r.xml.nodes@,
            tile_scene(
                z as int,
                x * TILE_SPAN,
                y * TILE_SPAN,
                region@,
                water@,
                land@,
                road@,
                building@,
            ),
        ),
{
    let mut tile = SvgTile::new(x, y, z, proj);
    let ghost t0 = tile;
    let ghost zi = z as int;
    let ghost ox = (x * TILE_SPAN) as int;
    let ghost oy = (y * TILE_SPAN) as int;
    let ghost scene = tile_scene(zi, ox, oy, region@, water@, land@, road@, building@);

    let pg = PolygonProps::new("#d3f8e2", "#5491f5", 3, 10, 20);
    let pl = PolylineProps::new("#5491f5", 3, 20);
    let tx = TextProps::new("#5491f5", 32, 700, 30);
    proof {
        lemma_nodes_ids_bounds(zi, ox, oy, region@);
        lemma_nodes_ids_bounds(zi, ox, oy, water@);
        lemma_nodes_ids_bounds(zi, ox, oy, land@);
        lemma_nodes_ids_bounds(zi, ox, oy, road@);
    }
    tile.draw_tile(region, &pg, &pl, &tx);
    let ghost p1 = nodes_prims(zi, ox, oy, region@, region_styles().0, region_styles().1,
        region_styles().2, 0);
    proof {
        assert(appended(t0, tile, p1));
    }

    let pg = PolygonProps::new("#90daee", "#90daee", 1, 10, 20);
    let pl = PolylineProps::new("#90daee", 1, 20);
    let tx = TextProps::new("#000000", 20, 700, 30);
    let ghost t1 = tile;
    tile.draw_tile(water, &pg, &pl, &tx);
    let ghost i1 = nodes_ids(zi, ox, oy, region@);
    let ghost p2 = nodes_prims(zi, ox, oy, water@, water_styles().0, water_styles().1,
        water_styles().2, i1);
    proof {
        assert(appended(t1, tile, p2));
        lemma_appended_trans(t0, t1, tile, p1, p2);
    }

    let pg = PolygonProps::new("#f5f0e5", "#aab9c9", 1, 10, 20);
    let pl = PolylineProps::new("#aab9c9", 3, 20);
    let tx = TextProps::new("#000000", 20, 700, 30);
    let ghost t2 = tile;
    tile.draw_tile(land, &pg, &pl, &tx);
    let ghost i2 = i1 + nodes_ids(zi, ox, oy, water@);
    let ghost p3 = nodes_prims(zi, ox, oy, land@, land_styles().0, land_styles().1,
        land_styles().2, i2);
    proof {
        assert(appended(t2, tile, p3));
        lemma_appended_trans(t0, t2, tile, p1 + p2, p3);
    }

    let pg = PolygonProps::new("#aab9c9", "#78909c", 1, 10, 20);
    let pl = PolylineProps::new("#78909c", 3, 20);
    let tx = TextProps::new("#000000", 20, 900, 30);
    let ghost t3 = tile;
    tile.draw_tile(road, &pg, &pl, &tx);
    let ghost i3 = i2 + nodes_ids(zi, ox, oy, land@);
    let ghost p4 = nodes_prims(zi, ox, oy, road@, road_styles().0, road_styles().1,
        road_styles().2, i3);
    proof {
        assert(appended(t3, tile, p4));
        lemma_appended_trans(t0, t3, tile, p1 + p2 + p3, p4);
    }

    let pg = PolygonProps::new("#e8e9ed", "#aab9c9", 1, 10, 20);
    let pl = PolylineProps::new("#aab9c9", 3, 20);
    let tx = TextProps::new("#000000", 20, 700, 30);
    let ghost t4 = tile;
    tile.draw_tile(building, &pg, &pl, &tx);
    let ghost i4 = i3 + nodes_ids(zi, ox, oy, road@);
    let ghost p5 = nodes_prims(zi, ox, oy, building@, building_styles().0, building_styles().1,
        building_styles().2, i4);
    proof {
        assert(appended(t4, tile, p5));
        lemma_appended_trans(t0, t4, tile, p1 + p2 + p3 + p4, p5);
        assert(p1 + p2 + p3 + p4 + p5 =~= scene);
    }

    let ghost unsorted = tile.xml.nodes@;
    tile.sort_tags();
    proof {
        assert(unsorted.len() == scene.len());
        assert forall|k: int| 0 <= k < scene.len() implies prim_matches(
            unsorted[k],
            #[trigger] scene[k],
        ) by {
            assert(unsorted[t0.xml.nodes@.len() + k] == unsorted[k]);
        }
        assert(renders(tile.xml.nodes@, scene));
    }
    tile
}

} // verus!
