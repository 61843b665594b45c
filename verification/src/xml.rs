//! Documents: the elements of an XML text, with what is read of them.

use roxmltree::Error as XmlError;
use vstd::prelude::*;

use crate::text;

verus! {

/// The error that roxmltree gives for a text that is no XML document.
#[verifier::external_type_specification]
#[verifier::external_body]
pub struct ExXmlError(XmlError);

/// An attribute of an element. `namespace` is the URI that a prefix stands for.
#[derive(Debug, Clone)]
pub struct Attribute {
    pub namespace: Option<String>,
    pub name: String,
    pub value: String,
}

pub struct AttributeView {
    pub namespace: Option<Seq<char>>,
    pub name: Seq<char>,
    pub value: Seq<char>,
}

pub open spec fn opt_text(t: Option<String>) -> Option<Seq<char>> {
    match t {
        Some(s) => Some(s@),
        None => None,
    }
}

impl View for Attribute {
    type V = AttributeView;

    open spec fn view(&self) -> AttributeView {
        AttributeView {
            namespace: opt_text(self.namespace),
            name: self.name@,
            value: self.value@,
        }
    }
}

pub open spec fn attributes(v: Seq<Attribute>) -> Seq<AttributeView> {
    v.map_values(|a: Attribute| a@)
}

/// An element: its local name, its attributes, the text that it begins with and the elements
/// directly inside it.
#[derive(Debug)]
pub struct Element {
    pub name: String,
    pub attributes: Vec<Attribute>,
    pub text: Option<String>,
    pub children: Vec<Element>,
}

pub struct ElementView {
    pub name: Seq<char>,
    pub attributes: Seq<AttributeView>,
    pub text: Option<Seq<char>>,
    pub children: Seq<ElementView>,
}

impl Element {
    pub open spec fn view(self) -> ElementView
        decreases self,
    {
        ElementView {
            name: self.name@,
            attributes: attributes(self.attributes@),
            text: opt_text(self.text),
            children: Seq::new(
                self.children@.len(),
                |i: int|
                    if 0 <= i < self.children@.len() {
                        self.children@[i].view()
                    } else {
                        arbitrary()
                    },
            ),
        }
    }
}

pub open spec fn elements(v: Seq<Element>) -> Seq<ElementView> {
    v.map_values(|e: Element| e@)
}

pub proof fn children_view(e: Element)
    ensures
        e@.children == elements(e.children@),
{
    assert(e@.children =~= elements(e.children@));
}

/// The value of the first attribute called `name` without a prefix.
pub open spec fn attribute_of(attributes: Seq<AttributeView>, name: Seq<char>) -> Option<Seq<char>>
    decreases attributes.len(),
{
    if attributes.len() == 0 {
        None
    } else if attributes[0].namespace is None && attributes[0].name == name {
        Some(attributes[0].value)
    } else {
        attribute_of(attributes.drop_first(), name)
    }
}

impl Element {
    /// The value of an attribute without a prefix.
    pub fn attribute(&self, name: &str) -> (r: Option<&String>)
        ensures
            r is Some <==> attribute_of(self@.attributes, name@) is Some,
            r matches Some(v) ==> attribute_of(self@.attributes, name@) == Some(v@),
    {
        let ghost all = self@.attributes;
        assert(all.skip(0) =~= all);
        for i in 0..self.attributes.len()
            invariant
                all == attributes(self.attributes@),
                attribute_of(all, name@) == attribute_of(all.skip(i as int), name@),
        {
            let a: &Attribute = &self.attributes[i];
            assert(all.skip(i as int)[0] == a@);
            assert(all.skip(i as int).drop_first() =~= all.skip(i + 1));
            if a.namespace.is_none() && text::same(a.name.as_str(), name) {
                return Some(&a.value);
            }
        }
        assert(all.skip(all.len() as int) =~= seq![]);
        None
    }

    /// Whether the local name is `name`.
    pub fn has_tag_name(&self, name: &str) -> (r: bool)
        ensures
            r == (self@.name == name@),
    {
        text::same(self.name.as_str(), name)
    }
}

/// A node of a document in document order. `parent` is the position of the node that it lies
/// directly in; `name` and `attributes` are those of an element.
#[derive(Debug)]
pub struct Node {
    pub parent: Option<usize>,
    pub element: bool,
    pub name: String,
    pub attributes: Vec<Attribute>,
    pub text: Option<String>,
}

pub struct NodeView {
    pub parent: Option<usize>,
    pub element: bool,
    pub name: Seq<char>,
    pub attributes: Seq<AttributeView>,
    pub text: Option<Seq<char>>,
}

impl View for Node {
    type V = NodeView;

    open spec fn view(&self) -> NodeView {
        NodeView {
            parent: self.parent,
            element: self.element,
            name: self.name@,
            attributes: attributes(self.attributes@),
            text: opt_text(self.text),
        }
    }
}

pub open spec fn nodes_view(v: Seq<Node>) -> Seq<NodeView> {
    v.map_values(|n: Node| n@)
}

/// The nodes of the document that a text holds, when it holds one.
pub uninterp spec fn xml_nodes(text: Seq<char>) -> Option<Seq<NodeView>>;

/// `roxmltree::Document::parse`, with its nodes in the order of `Document::descendants`, in which
/// the position of a node is its `NodeId`. The nodes that a text gives are named `xml_nodes`; a
/// text that has none is an error. Of the error nothing is said.
#[verifier::external_body]
pub(crate) fn parse_nodes(text: &str) -> (r: Result<Vec<Node>, XmlError>)
    ensures
        r is Ok <==> xml_nodes(text@) is Some,
        r matches Ok(v) ==> xml_nodes(text@) == Some(nodes_view(v@)),
{
    let document = roxmltree::Document::parse(text)?;
    Ok(document.descendants().map(|n| Node {
        parent: n.parent().map(|p| p.id().get_usize()),
        element: n.is_element(),
        name: n.tag_name().name().to_owned(),
        attributes: n.attributes().map(|a| Attribute {
            namespace: a.namespace().map(str::to_owned),
            name: a.name().to_owned(),
            value: a.value().to_owned(),
        }).collect(),
        text: n.text().map(str::to_owned),
    }).collect())
}

/// The element at `i`, with the elements inside it.
pub open spec fn element_at(nodes: Seq<NodeView>, i: int) -> ElementView
    decreases nodes.len() - i, 1nat,
{
    ElementView {
        name: nodes[i].name,
        attributes: nodes[i].attributes,
        text: nodes[i].text,
        children: if i < nodes.len() {
            elements_in(nodes, i, i + 1)
        } else {
            seq![]
        },
    }
}

/// The elements directly inside the node at `parent`, among the nodes from `from` on.
pub open spec fn elements_in(nodes: Seq<NodeView>, parent: int, from: int) -> Seq<ElementView>
    decreases nodes.len() - from, 2nat,
{
    if from >= nodes.len() {
        seq![]
    } else if nodes[from].element && (nodes[from].parent matches Some(p) && p == parent) {
        seq![element_at(nodes, from)] + elements_in(nodes, parent, from + 1)
    } else {
        elements_in(nodes, parent, from + 1)
    }
}

/// The position of the first element called `name` from `from` on, or the number of nodes.
pub open spec fn find_element(nodes: Seq<NodeView>, name: Seq<char>, from: int) -> int
    decreases nodes.len() - from,
{
    if from >= nodes.len() {
        nodes.len() as int
    } else if nodes[from].element && nodes[from].name == name {
        from
    } else {
        find_element(nodes, name, from + 1)
    }
}

/// The first element of the document called `name`.
pub open spec fn first_element(nodes: Seq<NodeView>, name: Seq<char>) -> Option<ElementView> {
    let i = find_element(nodes, name, 0);
    if i < nodes.len() {
        Some(element_at(nodes, i))
    } else {
        None
    }
}

/// Turns a list of elements around.
fn reversed(v: Vec<Element>) -> (r: Vec<Element>)
    ensures
        elements(r@) == elements(v@).reverse(),
{
    let mut rest = v;
    let mut out: Vec<Element> = Vec::new();
    while rest.len() > 0
        invariant
            out@ + rest@.reverse() =~= v@.reverse(),
        decreases rest@.len(),
    {
        let e: Element = rest.pop().unwrap();
        out.push(e);
    }
    assert(out@ =~= v@.reverse());
    assert(elements(out@) =~= elements(v@).reverse());
    out
}

/// Builds the first element called `name` of a document.
pub fn take_element(nodes: Vec<Node>, name: &str) -> (r: Option<Element>)
    ensures
        r is Some <==> first_element(nodes_view(nodes@), name@) is Some,
        r matches Some(e) ==> first_element(nodes_view(nodes@), name@) == Some(e@),
{
    let ghost all = nodes_view(nodes@);
    let n: usize = nodes.len();
    let mut k: usize = 0;
    while k < n && !(nodes[k].element && text::same(nodes[k].name.as_str(), name))
        invariant
            n == nodes@.len(),
            all == nodes_view(nodes@),
            k <= n,
            find_element(all, name@, 0) == find_element(all, name@, k as int),
        decreases n - k,
    {
        k += 1;
    }
    if k == n {
        return None;
    }
    let mut inside: Vec<Vec<Element>> = Vec::new();
    for i in 0..n
        invariant
            inside@.len() == i,
            forall|p: int| 0 <= p < i ==> elements((#[trigger] inside@[p])@) =~= seq![],
    {
        inside.push(Vec::new());
    }
    let mut rest = nodes;
    let mut i: usize = n;
    while i > k + 1
        invariant
            k < i <= n,
            n == all.len(),
            rest@.len() == i,
            inside@.len() == i,
            nodes_view(rest@) =~= all.take(i as int),
            forall|p: int|
                0 <= p < i ==> elements((#[trigger] inside@[p])@) == elements_in(
                    all,
                    p,
                    i as int,
                ).reverse(),
        decreases i,
    {
        i = i - 1;
        let ghost nodes_before = rest@;
        let ghost inside_before = inside@;
        let node: Node = rest.pop().unwrap();
        let children: Vec<Element> = reversed(inside.pop().unwrap());
        proof {
            assert(nodes_view(nodes_before)[i as int] == nodes_before[i as int]@);
            assert(elements(inside_before[i as int]@) == elements_in(
                all,
                i as int,
                i + 1,
            ).reverse());
            assert(elements(children@) =~= elements_in(all, i as int, i + 1));
            assert(nodes_view(rest@) =~= all.take(i as int));
        }
        if node.element {
            if let Some(p) = node.parent {
                if p < i {
                    let e = Element {
                        name: node.name,
                        attributes: node.attributes,
                        text: node.text,
                        children,
                    };
                    proof {
                        children_view(e);
                        assert(e@ == element_at(all, i as int));
                    }
                    let mut siblings: Vec<Element> = Vec::new();
                    std::mem::swap(&mut siblings, &mut inside[p]);
                    let ghost younger = siblings@;
                    siblings.push(e);
                    std::mem::swap(&mut siblings, &mut inside[p]);
                    proof {
                        assert(younger == inside_before[p as int]@);
                        assert(elements(younger.push(e)) =~= elements(younger).push(e@));
                        assert(elements(inside@[p as int]@) =~= elements_in(
                            all,
                            p as int,
                            i as int,
                        ).reverse());
                    }
                }
            }
        }
    }
    proof {
        assert(nodes_view(rest@)[k as int] == rest@[k as int]@);
        assert(elements(inside@[k as int]@) == elements_in(all, k as int, k + 1).reverse());
    }
    let node: Node = rest.pop().unwrap();
    let children: Vec<Element> = reversed(inside.pop().unwrap());
    let e = Element { name: node.name, attributes: node.attributes, text: node.text, children };
    proof {
        children_view(e);
        assert(elements(children@) =~= elements_in(all, k as int, k + 1));
    }
    Some(e)
}

/// The value of an attribute is that of the first one with its name and without a prefix, and there
/// is none exactly where no attribute has that name without a prefix.
pub proof fn first_attribute_counts(attributes: Seq<AttributeView>, name: Seq<char>)
    ensures
        attribute_of(attributes, name) matches Some(v) ==> exists|i: int|
            #![trigger attributes[i]]
            0 <= i < attributes.len() && attributes[i].namespace is None && attributes[i].name
                == name && attributes[i].value == v && forall|j: int|
                #![trigger attributes[j]]
                0 <= j < i ==> attributes[j].namespace is Some || attributes[j].name != name,
        attribute_of(attributes, name) is None <==> forall|i: int|
            #![trigger attributes[i]]
            0 <= i < attributes.len() ==> attributes[i].namespace is Some || attributes[i].name
                != name,
    decreases attributes.len(),
{
    if attributes.len() > 0 && !(attributes[0].namespace is None && attributes[0].name == name) {
        let rest = attributes.drop_first();
        first_attribute_counts(rest, name);
        assert(forall|i: int| 0 < i < attributes.len() ==> attributes[i] == rest[i - 1]);
        assert(forall|i: int| 0 <= i < rest.len() ==> rest[i] == attributes[i + 1]);
        if let Some(v) = attribute_of(rest, name) {
            let i = choose|i: int|
                #![trigger rest[i]]
                0 <= i < rest.len() && rest[i].namespace is None && rest[i].name == name
                    && rest[i].value == v && forall|j: int|
                    #![trigger rest[j]]
                    0 <= j < i ==> rest[j].namespace is Some || rest[j].name != name;
            assert(attributes[i + 1] == rest[i]);
        } else {
            assert forall|i: int|
                #![trigger attributes[i]]
                0 <= i < attributes.len() implies attributes[i].namespace is Some
                || attributes[i].name != name by {
                if i > 0 {
                    assert(attributes[i] == rest[i - 1]);
                }
            }
        }
        if forall|i: int|
            #![trigger attributes[i]]
            0 <= i < attributes.len() ==> attributes[i].namespace is Some || attributes[i].name
                != name {
            assert forall|i: int|
                #![trigger rest[i]]
                0 <= i < rest.len() implies rest[i].namespace is Some || rest[i].name != name by {
                assert(rest[i] == attributes[i + 1]);
            }
        }
    }
}

/// Whether positions go up.
pub open spec fn goes_up(places: Seq<int>) -> bool {
    forall|a: int, b: int|
        #![trigger places[a], places[b]]
        0 <= a < b < places.len() ==> places[a] < places[b]
}

/// Whether the elements at some places are those directly inside a node, in document order.
pub open spec fn are_inside(
    nodes: Seq<NodeView>,
    parent: int,
    from: int,
    places: Seq<int>,
    children: Seq<ElementView>,
) -> bool {
    &&& goes_up(places)
    &&& forall|j: int| #[trigger]
        places.contains(j) <==> from <= j < nodes.len() && nodes[j].element
            && nodes[j].parent is Some && nodes[j].parent->Some_0 == parent
    &&& children.len() == places.len()
    &&& forall|k: int|
        0 <= k < children.len() ==> #[trigger] children[k] == element_at(nodes, places[k])
}

proof fn places_inside(nodes: Seq<NodeView>, parent: int, from: int) -> (places: Seq<int>)
    requires
        0 <= from,
    ensures
        are_inside(nodes, parent, from, places, elements_in(nodes, parent, from)),
    decreases nodes.len() - from,
{
    if from >= nodes.len() {
        Seq::empty()
    } else {
        let rest = places_inside(nodes, parent, from + 1);
        let children = elements_in(nodes, parent, from + 1);
        if nodes[from].element && (nodes[from].parent matches Some(p) && p == parent) {
            let all = seq![from] + rest;
            let now = seq![element_at(nodes, from)] + children;
            assert forall|j: int| #[trigger]
                all.contains(j) <==> from <= j < nodes.len() && nodes[j].element
                    && nodes[j].parent is Some && nodes[j].parent->Some_0 == parent by {
                if j == from {
                    assert(all[0] == j);
                }
                if rest.contains(j) {
                    let k = choose|k: int| 0 <= k < rest.len() && rest[k] == j;
                    assert(all[k + 1] == j);
                }
                if all.contains(j) && j != from {
                    let k = choose|k: int| 0 <= k < all.len() && all[k] == j;
                    assert(rest[k - 1] == j);
                }
            }
            assert(goes_up(all)) by {
                assert forall|a: int, b: int|
                    #![trigger all[a], all[b]]
                    0 <= a < b < all.len() implies all[a] < all[b] by {
                    assert(all[b] == rest[b - 1]);
                    assert(rest.contains(rest[b - 1]));
                    if a > 0 {
                        assert(all[a] == rest[a - 1]);
                    }
                }
            }
            assert forall|k: int| 0 <= k < now.len() implies #[trigger] now[k] == element_at(
                nodes,
                all[k],
            ) by {
                if k > 0 {
                    assert(now[k] == children[k - 1]);
                    assert(all[k] == rest[k - 1]);
                }
            }
            all
        } else {
            assert forall|j: int| #[trigger]
                rest.contains(j) <==> from <= j < nodes.len() && nodes[j].element
                    && nodes[j].parent is Some && nodes[j].parent->Some_0 == parent by {
            }
            rest
        }
    }
}

/// An element has the name, the attributes and the text of its node, and its children are the
/// elements directly inside it: all of them and no others, in document order.
pub proof fn elements_are_built_from_their_nodes(nodes: Seq<NodeView>, i: int)
    requires
        0 <= i < nodes.len(),
    ensures
        element_at(nodes, i).name == nodes[i].name,
        element_at(nodes, i).attributes == nodes[i].attributes,
        element_at(nodes, i).text == nodes[i].text,
        exists|places: Seq<int>| #[trigger]
            are_inside(nodes, i, i + 1, places, element_at(nodes, i).children),
{
    let places = places_inside(nodes, i, i + 1);
    assert(are_inside(nodes, i, i + 1, places, element_at(nodes, i).children));
}

/// The element that a document is searched for is the first one with the name.
pub proof fn first_element_is_first(nodes: Seq<NodeView>, name: Seq<char>)
    ensures
        first_element(nodes, name) matches Some(e) ==> exists|i: int|
            #![trigger nodes[i]]
            0 <= i < nodes.len() && nodes[i].element && nodes[i].name == name && e == element_at(
                nodes,
                i,
            ) && forall|j: int|
                #![trigger nodes[j]]
                0 <= j < i ==> !nodes[j].element || nodes[j].name != name,
        first_element(nodes, name) is None <==> forall|i: int|
            #![trigger nodes[i]]
            0 <= i < nodes.len() ==> !nodes[i].element || nodes[i].name != name,
{
    found_element_is_first(nodes, name, 0);
    let i = find_element(nodes, name, 0);
    if i < nodes.len() {
        assert(nodes[i].element);
    }
}

proof fn found_element_is_first(nodes: Seq<NodeView>, name: Seq<char>, from: int)
    requires
        0 <= from <= nodes.len(),
    ensures
        from <= find_element(nodes, name, from) <= nodes.len(),
        find_element(nodes, name, from) < nodes.len() ==> nodes[find_element(
            nodes,
            name,
            from,
        )].element && nodes[find_element(nodes, name, from)].name == name,
        forall|j: int|
            #![trigger nodes[j]]
            from <= j < find_element(nodes, name, from) ==> !nodes[j].element || nodes[j].name
                != name,
    decreases nodes.len() - from,
{
    if from < nodes.len() && !(nodes[from].element && nodes[from].name == name) {
        found_element_is_first(nodes, name, from + 1);
    }
}

/// Views show what there is: of a node and of an element every part.
pub proof fn views_show_nodes(attribute: Attribute, node: Node, element: Element)
    ensures
        attribute@.name == attribute.name@,
        attribute@.value == attribute.value@,
        attribute@.namespace is Some <==> attribute.namespace is Some,
        attribute.namespace is Some ==> attribute@.namespace->Some_0
            == attribute.namespace->Some_0@,
        node@.parent == node.parent,
        node@.element == node.element,
        node@.name == node.name@,
        node@.attributes.len() == node.attributes@.len(),
        forall|i: int|
            0 <= i < node.attributes@.len() ==> #[trigger] node@.attributes[i]
                == node.attributes@[i]@,
        node@.text is Some <==> node.text is Some,
        node.text is Some ==> node@.text->Some_0 == node.text->Some_0@,
        element@.name == element.name@,
        element@.attributes.len() == element.attributes@.len(),
        forall|i: int|
            0 <= i < element.attributes@.len() ==> #[trigger] element@.attributes[i]
                == element.attributes@[i]@,
        element@.text is Some <==> element.text is Some,
        element.text is Some ==> element@.text->Some_0 == element.text->Some_0@,
        element@.children.len() == element.children@.len(),
        forall|i: int|
            0 <= i < element.children@.len() ==> #[trigger] element@.children[i]
                == element.children@[i]@,
{
}

} // verus!
