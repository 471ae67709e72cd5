//! The scene tree: a minimal XML element with escaped text, ordered
//! attributes, child elements, and an integer drawing priority.
//!
//! Attributes keep insertion order, so serialization is deterministic.
//! `sort` reorders the children stably by ascending priority; it is the
//! finalization step of a scene.

use vstd::prelude::*;
use vstd::string::StringExecFns;
use vstd::pervasive::VecAdditionalExecFns;

verus! {

/// What one character contributes to escaped text.
pub open spec fn esc_char(c: char) -> Seq<char> {
    if c == '&' {
        seq!['&', 'a', 'm', 'p', ';']
    } else if c == '<' {
        seq!['&', 'l', ';']
    } else if c == '>' {
        seq!['&', 'g', 't', ';']
    } else if c == '"' {
        seq!['&', 'q', 'u', 'o', 't', ';']
    } else if c == '\'' {
        seq!['&', 'a', 'p', 'o', 's', ';']
    } else {
        seq![c]
    }
}

/// Escaped text: each character replaced by its escape.
pub open spec fn esc(t: Seq<char>) -> Seq<char>
    decreases t.len(),
{
    if t.len() == 0 {
        Seq::empty()
    } else {
        esc(t.drop_last()) + esc_char(t.last())
    }
}

/// A character that escaping leaves alone.
pub open spec fn plain_char(c: char) -> bool {
    c != '&' && c != '<' && c != '>' && c != '"' && c != '\''
}

/// Escaping text made of plain characters returns it unchanged.
pub proof fn lemma_esc_plain(t: Seq<char>)
    requires
        forall|k: int| 0 <= k < t.len() ==> plain_char(#[trigger] t[k]),
    ensures
        esc(t) == t,
    decreases t.len(),
{
    if t.len() == 0 {
        assert(esc(t) =~= t);
    } else {
        lemma_esc_plain(t.drop_last());
        assert(plain_char(t.last()));
        assert(esc(t) =~= t.drop_last() + seq![t.last()]);
        assert(t.drop_last() + seq![t.last()] =~= t);
    }
}

/// The attribute list as pairs of character sequences.
pub open spec fn attrs_view(attrs: Seq<(String, String)>) -> Seq<(Seq<char>, Seq<char>)> {
    attrs.map(|i: int, a: (String, String)| (a.0@, a.1@))
}

/// Whether some attribute has the key `k`.
pub open spec fn has_key(attrs: Seq<(Seq<char>, Seq<char>)>, k: Seq<char>) -> bool {
    exists|i: int| #![trigger attrs[i]] 0 <= i < attrs.len() && attrs[i].0 == k
}

/// The first index whose key is `k`.
pub open spec fn key_index(attrs: Seq<(Seq<char>, Seq<char>)>, k: Seq<char>) -> int
    decreases attrs.len(),
{
    if attrs.len() == 0 {
        0
    } else if attrs[0].0 == k {
        0
    } else {
        1 + key_index(attrs.drop_first(), k)
    }
}

proof fn lemma_key_index(attrs: Seq<(Seq<char>, Seq<char>)>, k: Seq<char>)
    requires
        has_key(attrs, k),
    ensures
        0 <= key_index(attrs, k) < attrs.len(),
        attrs[key_index(attrs, k)].0 == k,
        forall|i: int| #![trigger attrs[i]] 0 <= i < key_index(attrs, k) ==> attrs[i].0 != k,
    decreases attrs.len(),
{
    if attrs.len() == 0 {
    } else if attrs[0].0 == k {
    } else {
        assert(has_key(attrs.drop_first(), k)) by {
            let w = choose|i: int| #![trigger attrs[i]] 0 <= i < attrs.len() && attrs[i].0 == k;
            assert(attrs.drop_first()[w - 1].0 == k);
        }
        lemma_key_index(attrs.drop_first(), k);
        assert forall|i: int| #![trigger attrs[i]] 0 <= i < key_index(attrs, k) implies attrs[i].0 != k by {
            if i > 0 {
                assert(attrs.drop_first()[i - 1].0 != k);
            }
        }
    }
}

/// One XML element.
pub struct XmlNode {
    pub tag: String,
    pub text: String,
    pub attrs: Vec<(String, String)>,
    pub nodes: Vec<XmlNode>,
    pub priority: i32,
}

impl XmlNode {
    /// Escaped text for markup: the five XML special characters are
    /// replaced, every other character is kept.
    pub fn escape(text: &str) -> (r: String)
        ensures
            r@ == esc(text@),
    {
        let len = text.unicode_len();
        let mut out = String::new();
        let mut i: usize = 0;
        while i < len
            invariant
                i <= len,
                len == text@.len(),
                out@ == esc(text@.subrange(0, i as int)),
            decreases len - i,
        {
            let c = text.get_char(i);
            if c == '&' {
                out.append("&amp;");
                proof {
                    reveal_strlit("&amp;");
                    assert("&amp;"@ =~= esc_char('&'));
                }
            } else if c == '<' {
                out.append("&l;");
                proof {
                    reveal_strlit("&l;");
                    assert("&l;"@ =~= esc_char('<'));
                }
            } else if c == '>' {
                out.append("&gt;");
                proof {
                    reveal_strlit("&gt;");
                    assert("&gt;"@ =~= esc_char('>'));
                }
            } else if c == '"' {
                out.append("&quot;");
                proof {
                    reveal_strlit("&quot;");
                    assert("&quot;"@ =~= esc_char('"'));
                }
            } else if c == '\'' {
                out.append("&apos;");
                proof {
                    reveal_strlit("&apos;");
                    assert("&apos;"@ =~= esc_char('\''));
                }
            } else {
                push_one(&mut out, c);
            }
            proof {
                let pre = text@.subrange(0, i as int);
                let cur = text@.subrange(0, (i + 1) as int);
                assert(cur.drop_last() =~= pre);
                assert(cur.last() == text@[i as int]);
                assert(out@ =~= esc(cur));
            }
            i += 1;
        }
        proof {
            assert(text@.subrange(0, len as int) =~= text@);
        }
        out
    }

    /// A fresh element with the given tag and text, both escaped, no
    /// attributes, no children, and priority zero.
    pub fn new(tag: &str, text: &str) -> (r: XmlNode)
        ensures
            r.tag@ == esc(tag@),
            r.text@ == esc(text@),
            r.attrs@.len() == 0,
            r.nodes@.len() == 0,
            r.priority == 0,
    {
        XmlNode {
            tag: XmlNode::escape(tag),
            text: XmlNode::escape(text),
            attrs: Vec::new(),
            nodes: Vec::new(),
            priority: 0,
        }
    }

    /// The element's (escaped) tag.
    pub fn tag(&self) -> (r: &str)
        ensures
            r@ == self.tag@,
    {
        self.tag.as_str()
    }

    /// Sets the drawing priority.
    pub fn set_priority(&mut self, priority: i32)
        ensures
            final(self).priority == priority,
            final(self).tag == old(self).tag,
            final(self).text == old(self).text,
            final(self).attrs == old(self).attrs,
            final(self).nodes == old(self).nodes,
    {
        self.priority = priority;
    }

    /// Sets an attribute: key and value are escaped; an attribute whose
    /// key matches (first match) has its value replaced in place, any
    /// other key is appended, keeping insertion order.
    pub fn set_attr(&mut self, key: &str, value: &str)
        ensures
            final(self).tag == old(self).tag,
            final(self).text == old(self).text,
            final(self).nodes == old(self).nodes,
            final(self).priority == old(self).priority,
            ({
                let a0 = attrs_view(old(self).attrs@);
                let a1 = attrs_view(final(self).attrs@);
                let k = esc(key@);
                let v = esc(value@);
                if has_key(a0, k) {
                    a1 =~~= a0.update(key_index(a0, k), (k, v))
                } else {
                    a1 =~~= a0.push((k, v))
                }
            }),
    {
        let ek = XmlNode::escape(key);
        let ev = XmlNode::escape(value);
        let ghost a0 = attrs_view(self.attrs@);
        let ghost k = esc(key@);
        let n = self.attrs.len();
        let mut i: usize = 0;
        while i < n
            invariant
                i <= n,
                n == self.attrs@.len(),
                ek@ == k,
                k == esc(key@),
                ev@ == esc(value@),
                a0 == attrs_view(self.attrs@),
                a0 == attrs_view(old(self).attrs@),
                self.attrs == old(self).attrs,
                self.tag == old(self).tag,
                self.text == old(self).text,
                self.nodes == old(self).nodes,
                self.priority == old(self).priority,
                forall|j: int| #![trigger a0[j]] 0 <= j < i ==> a0[j].0 != k,
            decreases n - i,
        {
            let hit = self.attrs[i].0 == ek;
            proof {
                assert(a0[i as int] == (self.attrs@[i as int].0@, self.attrs@[i as int].1@));
            }
            if hit {
                proof {
                    assert(a0[i as int].0 == k);
                    assert(has_key(a0, k));
                    lemma_key_index(a0, k);
                    assert(key_index(a0, k) == i as int);
                }
                self.attrs.set(i, (ek, ev));
                proof {
                    assert(attrs_view(self.attrs@) =~~= a0.update(i as int, (k, esc(value@))));
                }
                return ;
            }
            proof {
                assert(a0[i as int].0 != k);
            }
            i += 1;
        }
        self.attrs.push((ek, ev));
        proof {
            assert(!has_key(a0, k)) by {
                if has_key(a0, k) {
                    let w = choose|w: int| #![trigger a0[w]] 0 <= w < a0.len() && a0[w].0 == k;
                    assert(a0[w].0 != k);
                }
            }
            assert(attrs_view(self.attrs@) =~~= a0.push((k, esc(value@))));
        }
    }

    /// Appends a child element.
    pub fn add_node(&mut self, node: XmlNode)
        ensures
            final(self).tag == old(self).tag,
            final(self).text == old(self).text,
            final(self).attrs == old(self).attrs,
            final(self).priority == old(self).priority,
            final(self).nodes@ == old(self).nodes@.push(node),
    {
        self.nodes.push(node);
    }
}

fn push_one(s: &mut String, c: char)
    requires
        plain_char(c),
    ensures
        final(s)@ == old(s)@ + esc_char(c),
{
    crate::numfmt::push_char(s, c);
}


/// The markup for one attribute: a space, the key, `="`, the value, `"`.
pub open spec fn attr_chars(a: (Seq<char>, Seq<char>)) -> Seq<char> {
    seq![' '] + a.0 + seq!['=', '"'] + a.1 + seq!['"']
}

/// The markup for an attribute list, in stored order.
pub open spec fn attrs_chars(s: Seq<(Seq<char>, Seq<char>)>) -> Seq<char>
    decreases s.len(),
{
    if s.len() == 0 {
        Seq::empty()
    } else {
        attrs_chars(s.drop_last()) + attr_chars(s.last())
    }
}

/// The serialized form of one element: the open tag with its attributes,
/// the text, the children in order, and the close tag.
pub open spec fn xml_chars(n: XmlNode) -> Seq<char>
    decreases n,
{
    seq!['<'] + n.tag@ + attrs_chars(attrs_view(n.attrs@)) + seq!['>'] + n.text@
        + children_chars(n.nodes@) + seq!['<', '/'] + n.tag@ + seq!['>']
}

/// The serialized forms of a list of elements, concatenated in order.
pub open spec fn children_chars(s: Seq<XmlNode>) -> Seq<char>
    decreases s,
{
    if s.len() == 0 {
        Seq::empty()
    } else {
        children_chars(s.drop_last()) + xml_chars(s.last())
    }
}

/// The predicate picking elements with priority `p`.
pub open spec fn with_priority(p: int) -> spec_fn(XmlNode) -> bool {
    |n: XmlNode| n.priority == p
}

/// Children ordered by ascending priority.
pub open spec fn sorted_by_priority(s: Seq<XmlNode>) -> bool {
    forall|a: int, b: int|
        #![trigger s[a], s[b]]
        0 <= a <= b < s.len() ==> s[a].priority <= s[b].priority
}

/// The first `n` elements ordered by ascending priority.
pub open spec fn sorted_prefix(s: Seq<XmlNode>, n: int) -> bool {
    forall|a: int, b: int|
        #![trigger s[a], s[b]]
        0 <= a <= b < n && b < s.len() ==> s[a].priority <= s[b].priority
}

proof fn lemma_filter_none(s: Seq<XmlNode>, pred: spec_fn(XmlNode) -> bool)
    requires
        forall|k: int| 0 <= k < s.len() ==> !pred(#[trigger] s[k]),
    ensures
        s.filter(pred) == Seq::<XmlNode>::empty(),
    decreases s.len(),
{
    reveal(Seq::filter);
    if s.len() == 0 {
        assert(s.filter(pred) =~= Seq::<XmlNode>::empty());
    } else {
        lemma_filter_none(s.drop_last(), pred);
        assert(!pred(s.last()));
    }
}

proof fn lemma_filter_singleton(x: XmlNode, pred: spec_fn(XmlNode) -> bool)
    ensures
        pred(x) ==> x_seq(x).filter(pred) == x_seq(x),
        !pred(x) ==> x_seq(x).filter(pred) == Seq::<XmlNode>::empty(),
{
    reveal(Seq::filter);
    let s = x_seq(x);
    assert(s.drop_last() =~= Seq::<XmlNode>::empty());
    assert(Seq::<XmlNode>::empty().filter(pred) =~= Seq::<XmlNode>::empty());
    assert(s.last() == x);
    if pred(x) {
        assert(s.filter(pred) =~= Seq::<XmlNode>::empty().push(x));
        assert(Seq::<XmlNode>::empty().push(x) =~= s);
    }
}

pub open spec fn x_seq(x: XmlNode) -> Seq<XmlNode> {
    seq![x]
}

/// Moving an element left past neighbours of strictly greater priority
/// does not change which elements carry any given priority, nor their
/// relative order.
proof fn lemma_move_left_filter(s: Seq<XmlNode>, i: int, j: int)
    requires
        0 <= j < i < s.len(),
        forall|m: int| #![trigger s[m]] j <= m < i ==> s[m].priority > s[i].priority,
    ensures
        forall|p: int|
            #![trigger moved_left(s, i, j).filter(with_priority(p))]
            moved_left(s, i, j).filter(with_priority(p)) == s.filter(with_priority(p)),
{
    let x = s[i];
    let a = s.subrange(0, j);
    let m = s.subrange(j, i);
    let b = s.subrange(i + 1, s.len() as int);
    let t = moved_left(s, i, j);
    assert(s =~= a + m + x_seq(x) + b);
    assert forall|p: int|
        #![trigger moved_left(s, i, j).filter(with_priority(p))]
        moved_left(s, i, j).filter(with_priority(p)) == s.filter(with_priority(p)) by {
        let pred = with_priority(p);
        lemma_filter_singleton(x, pred);
        broadcast use Seq::filter_distributes_over_add;
        if p == x.priority {
            lemma_filter_none(m, pred);
            assert(t.filter(pred) =~= s.filter(pred));
        } else {
            assert(x_seq(x).filter(pred) == Seq::<XmlNode>::empty());
            assert(t.filter(pred) =~= s.filter(pred));
        }
    }
}

/// The sequence with the element at `i` moved to position `j < i`.
pub open spec fn moved_left(s: Seq<XmlNode>, i: int, j: int) -> Seq<XmlNode> {
    s.subrange(0, j) + x_seq(s[i]) + s.subrange(j, i) + s.subrange(i + 1, s.len() as int)
}

impl XmlNode {
    /// Serializes the element.
    pub fn to_string(&self) -> (r: String)
        ensures
            r@ == xml_chars(*self),
        decreases *self,
    {
        let mut out = String::new();
        out.append("<");
        out.append(self.tag.as_str());
        proof {
            reveal_strlit("<");
            assert("<"@ =~= seq!['<']);
        }
        let ghost head = seq!['<'] + self.tag@;
        assert(out@ == head);
        let n = self.attrs.len();
        let mut i: usize = 0;
        while i < n
            invariant
                i <= n,
                n == self.attrs@.len(),
                out@ == head + attrs_chars(attrs_view(self.attrs@).subrange(0, i as int)),
            decreases n - i,
        {
            out.append(" ");
            out.append(self.attrs[i].0.as_str());
            out.append("=\"");
            out.append(self.attrs[i].1.as_str());
            out.append("\"");
            proof {
                reveal_strlit(" ");
                reveal_strlit("=\"");
                reveal_strlit("\"");
                let av = attrs_view(self.attrs@);
                let pre = av.subrange(0, i as int);
                let cur = av.subrange(0, (i + 1) as int);
                assert(cur.drop_last() =~= pre);
                assert(cur.last() == av[i as int]);
                assert(av[i as int].0 == self.attrs@[i as int].0@);
                assert(out@ =~= head + attrs_chars(cur));
            }
            i += 1;
        }
        proof {
            assert(attrs_view(self.attrs@).subrange(0, n as int) =~= attrs_view(self.attrs@));
        }
        out.append(">");
        out.append(self.text.as_str());
        proof {
            reveal_strlit(">");
            assert(">"@ =~= seq!['>']);
        }
        let ghost mid = head + attrs_chars(attrs_view(self.attrs@)) + seq!['>'] + self.text@;
        assert(out@ == mid);
        let c = self.nodes.len();
        let mut k: usize = 0;
        while k < c
            invariant
                k <= c,
                c == self.nodes@.len(),
                out@ == mid + children_chars(self.nodes@.subrange(0, k as int)),
            decreases c - k,
        {
            proof {
                assert(decreases_to!(*self => self.nodes));
                assert(decreases_to!(self.nodes => self.nodes@));
                assert(decreases_to!(self.nodes@ => self.nodes@[k as int]));
            }
            let piece = self.nodes[k].to_string();
            out.append(piece.as_str());
            proof {
                let pre = self.nodes@.subrange(0, k as int);
                let cur = self.nodes@.subrange(0, (k + 1) as int);
                assert(cur.drop_last() =~= pre);
                assert(cur.last() == self.nodes@[k as int]);
                assert(out@ =~= mid + children_chars(cur));
            }
            k += 1;
        }
        proof {
            assert(self.nodes@.subrange(0, c as int) =~= self.nodes@);
        }
        out.append("</");
        out.append(self.tag.as_str());
        out.append(">");
        proof {
            reveal_strlit("</");
            reveal_strlit(">");
            assert("</"@ =~= seq!['<', '/']);
            assert(out@ =~= xml_chars(*self));
        }
        out
    }

    /// Reorders the children by ascending priority; children of equal
    /// priority keep their relative order, so the sort is stable and the
    /// result is unique: it is sorted, and for every priority the
    /// children carrying it read as before.
    #[verifier::loop_isolation(false)]
    pub fn sort(&mut self)
        ensures
            final(self).tag == old(self).tag,
            final(self).text == old(self).text,
            final(self).attrs == old(self).attrs,
            final(self).priority == old(self).priority,
            final(self).nodes@.len() == old(self).nodes@.len(),
            sorted_by_priority(final(self).nodes@),
            forall|p: int|
                #![trigger final(self).nodes@.filter(with_priority(p))]
                final(self).nodes@.filter(with_priority(p)) == old(self).nodes@.filter(
                    with_priority(p),
                ),
    {
        let mut i: usize = 1;
        while i < self.nodes.len()
            invariant
                1 <= i,
                self.nodes@.len() == old(self).nodes@.len(),
                self.tag == old(self).tag,
                self.text == old(self).text,
                self.attrs == old(self).attrs,
                self.priority == old(self).priority,
                self.nodes@.len() == 0 || i <= self.nodes@.len(),
                sorted_prefix(self.nodes@, i as int),
                forall|p: int|
                    #![trigger self.nodes@.filter(with_priority(p))]
                    self.nodes@.filter(with_priority(p)) == old(self).nodes@.filter(
                        with_priority(p),
                    ),
            decreases self.nodes@.len() - i,
        {
            let pr = self.nodes[i].priority;
            let ghost s0 = self.nodes@;
            let mut j: usize = 0;
            while j < i && self.nodes[j].priority <= pr
                invariant
                    j <= i,
                    self.nodes@ == s0,
                    forall|m: int| #![trigger s0[m]] 0 <= m < j ==> s0[m].priority <= pr,
                decreases i - j,
            {
                j += 1;
            }
            if j < i {
                proof {
                    assert(s0[j as int].priority > pr);
                    assert forall|m: int| #![trigger s0[m]] j <= m < i implies s0[m].priority
                        > s0[i as int].priority by {
                        assert(s0[j as int].priority <= s0[m].priority);
                    }
                }
                let x = self.nodes.remove(i);
                self.nodes.insert(j, x);
                proof {
                    assert(self.nodes@ =~= moved_left(s0, i as int, j as int));
                    lemma_move_left_filter(s0, i as int, j as int);
                    let t = self.nodes@;
                    assert forall|a: int, b: int|
                        #![trigger t[a], t[b]]
                        0 <= a <= b < i + 1 && b < t.len() implies t[a].priority
                        <= t[b].priority by {
                        assert(forall|m: int|
                            #![trigger s0[m]]
                            0 <= m < j ==> t[m] == s0[m]);
                        assert(t[j as int] == s0[i as int]);
                        assert(forall|m: int|
                            #![trigger s0[m - 1]]
                            j < m <= i ==> t[m] == s0[m - 1]);
                    }
                }
            } else {
                proof {
                    assert forall|a: int, b: int|
                        #![trigger self.nodes@[a], self.nodes@[b]]
                        0 <= a <= b < i + 1 && b < self.nodes@.len() implies self.nodes@[a].priority
                        <= self.nodes@[b].priority by {
                        if b == i {
                            if a < i {
                                assert(s0[a].priority <= pr);
                            }
                        }
                    }
                }
            }
            i += 1;
        }
    }
}

} // verus!
