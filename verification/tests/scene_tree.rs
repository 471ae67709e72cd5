use tilemap::{fmt_mpx, i64_to_string, u64_to_string, XmlNode};

#[test]
fn test_xml_node() {
    let mut svg = XmlNode::new("SVG", "");
    svg.set_attr("xmlns", "http://www.w3.org/2000/svg");
    svg.set_attr("width", "256");
    svg.set_attr("height", "256");
    svg.set_attr("viewBox", "0 0 256 256");

    let mut path = XmlNode::new("path", "");
    path.set_attr("id", "PATH_0");
    path.set_attr("stroke", "red");
    path.set_attr("fill", "none");
    path.set_attr("d", "M10,90 Q90,90 90,45 Q90,10 50,10 Q10,10 10,40 Q10,70 45,70 Q70,70 75,50");

    let mut text_path = XmlNode::new("textPath", "测试文本");
    text_path.set_attr("href", "#PATH_0");
    text_path.set_attr("lengthAdjust", "spacingAndGlyphs");

    let mut text = XmlNode::new("text", "");
    text.add_node(text_path);

    svg.add_node(path);
    svg.add_node(text);
    println!("{}", svg.to_string());
}

#[test]
fn test_to_string_shape() {
    let mut node = XmlNode::new("tag", "body");
    node.set_attr("a", "1");
    node.set_attr("b", "2");
    assert_eq!(node.to_string(), "<tag a=\"1\" b=\"2\">body</tag>");

    // a second set of the same key replaces the value in place
    node.set_attr("a", "3");
    assert_eq!(node.to_string(), "<tag a=\"3\" b=\"2\">body</tag>");

    let mut outer = XmlNode::new("o", "");
    outer.add_node(node);
    assert_eq!(outer.to_string(), "<o><tag a=\"3\" b=\"2\">body</tag></o>");
}

#[test]
fn test_escape() {
    let n = XmlNode::new("t", "a&b<c>d\"e'f");
    assert_eq!(n.to_string(), "<t>a&amp;b&l;c&gt;d&quot;e&apos;f</t>");

    let m = XmlNode::new("t", "言葉");
    assert_eq!(m.to_string(), "<t>言葉</t>");
}

#[test]
fn test_sort_stable() {
    let mut root = XmlNode::new("r", "");
    for (tag, priority) in [("a", 2), ("b", 1), ("c", 2), ("d", 1), ("e", 0)] {
        let mut child = XmlNode::new(tag, "");
        child.set_priority(priority);
        root.add_node(child);
    }
    root.sort();
    // ascending priority; equal priorities keep insertion order
    assert_eq!(root.to_string(), "<r><e></e><b></b><d></d><a></a><c></c></r>");
}

#[test]
fn test_number_strings() {
    assert_eq!(u64_to_string(0), "0");
    assert_eq!(u64_to_string(906), "906");
    assert_eq!(i64_to_string(-42), "-42");
    assert_eq!(i64_to_string(7), "7");
    assert_eq!(fmt_mpx(128_000), "128.000");
    assert_eq!(fmt_mpx(-500), "-0.500");
    assert_eq!(fmt_mpx(120_604), "120.604");
    assert_eq!(fmt_mpx(0), "0.000");
}
