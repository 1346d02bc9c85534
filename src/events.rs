use vstd::prelude::*;

verus! {

/// The three kinds of markup event that the scan parser reacts to.
#[derive(Debug, Clone, Copy, PartialEq, Eq, Structural)]
pub enum EventKind {
    /// An element opens: `<name ...>`.
    Start,
    /// An element closes: `</name>`.
    End,
    /// A self-closing element: `<name .../>`.
    Empty,
}

/// One attribute of an element, as written in the document.
#[derive(Debug, Clone)]
pub struct Attribute {
    pub key: String,
    pub value: String,
}

/// One markup event: its kind, the element's local name and its attributes in
/// document order (a closing element has none).
#[derive(Debug, Clone)]
pub struct XmlEvent {
    pub kind: EventKind,
    pub name: String,
    pub attributes: Vec<Attribute>,
}

/// An event as a mathematical value: kind, name, and each attribute's key and
/// value.
pub struct XmlEventModel {
    pub kind: EventKind,
    pub name: Seq<char>,
    pub attributes: Seq<(Seq<char>, Seq<char>)>,
}

impl View for XmlEvent {
    type V = XmlEventModel;

    open spec fn view(&self) -> XmlEventModel {
        XmlEventModel {
            kind: self.kind,
            name: self.name@,
            attributes: self.attributes@.map_values(|a: Attribute| (a.key@, a.value@)),
        }
    }
}

impl XmlEvent {
    /// Whether this event opens an element called `name`.
    pub open spec fn opens(self, name: Seq<char>) -> bool {
        self.kind == EventKind::Start && self.name@ == name
    }

    /// Whether this event closes an element called `name`.
    pub open spec fn closes(self, name: Seq<char>) -> bool {
        self.kind == EventKind::End && self.name@ == name
    }

    /// Whether this event is a self-closing element called `name`.
    pub open spec fn is_leaf(self, name: Seq<char>) -> bool {
        self.kind == EventKind::Empty && self.name@ == name
    }
}

/// The value of the first attribute whose key is `key`.
pub open spec fn find_attr(attrs: Seq<Attribute>, key: Seq<char>) -> Option<String>
    decreases attrs.len(),
{
    if attrs.len() == 0 {
        None
    } else if attrs[0].key@ == key {
        Some(attrs[0].value)
    } else {
        find_attr(attrs.drop_first(), key)
    }
}

/// Looks up an attribute by its exact key; the first one wins.
pub fn attribute(attrs: &Vec<Attribute>, key: &str) -> (r: Option<String>)
    ensures
        r == find_attr(attrs@, key@),
{
    let mut i: usize = 0;
    assert(attrs@.subrange(0, attrs@.len() as int) =~= attrs@);
    while i < attrs.len()
        invariant
            i <= attrs@.len(),
            find_attr(attrs@, key@) == find_attr(attrs@.subrange(i as int, attrs@.len() as int), key@),
        decreases attrs.len() - i,
    {
        let ghost rest = attrs@.subrange(i as int, attrs@.len() as int);
        assert(rest.drop_first() =~= attrs@.subrange(i + 1, attrs@.len() as int));
        if crate::text::is_text(&attrs[i].key, key) {
            return Some(attrs[i].value.clone());
        }
        i = i + 1;
    }
    None
}

} // verus!
