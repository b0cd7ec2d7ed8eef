//! Documents as clients submit them, and the panels that are kept of them.
//!
//! A panel's content is never interpreted here. A submitted element is
//! carried as its kind and its encoded text; once a document has been
//! validated, only the text of each panel is kept.

use vstd::prelude::*;

verus! {

/// The kind of a structured value, as far as validation looks at it.
#[derive(Clone, Copy, Debug, PartialEq, Eq, Structural)]
pub enum Kind {
    Null,
    Boolean,
    Number,
    Text,
    Sequence,
    Object,
}

/// One element of a submitted `panels` sequence: what kind of value it is,
/// and its encoded text.
#[derive(Debug, PartialEq, Eq)]
pub struct Fragment {
    pub kind: Kind,
    pub body: String,
}

pub struct FragmentView {
    pub kind: Kind,
    pub body: Seq<char>,
}

impl View for Fragment {
    type V = FragmentView;

    open spec fn view(&self) -> FragmentView {
        FragmentView { kind: self.kind, body: self.body@ }
    }
}

impl FragmentView {
    /// Only a structured object is recognised as a panel.
    pub open spec fn is_panel(self) -> bool {
        self.kind == Kind::Object
    }
}

impl Fragment {
    /// Whether this element is recognisable as a panel.
    pub fn is_panel(&self) -> (yes: bool)
        ensures
            yes == self@.is_panel(),
    {
        match self.kind {
            Kind::Object => true,
            _ => false,
        }
    }
}

impl Clone for Fragment {
    fn clone(&self) -> (copy: Self)
        ensures
            copy@ == self@,
    {
        Fragment { kind: self.kind, body: self.body.clone() }
    }
}

/// The views of a run of submitted elements, in order.
pub open spec fn fragment_views(items: Seq<Fragment>) -> Seq<FragmentView> {
    Seq::new(items.len(), |i: int| items[i]@)
}

/// A copy of a run of submitted elements.
pub fn clone_fragments(items: &Vec<Fragment>) -> (copy: Vec<Fragment>)
    ensures
        fragment_views(copy@) == fragment_views(items@),
{
    let mut copy: Vec<Fragment> = Vec::new();
    let mut i: usize = 0;
    while i < items.len()
        invariant
            i <= items.len(),
            copy.len() == i,
            forall|j: int| 0 <= j < i ==> copy[j]@ == items[j]@,
        decreases items.len() - i,
    {
        copy.push(items[i].clone());
        i += 1;
    }
    assert(fragment_views(copy@) =~= fragment_views(items@));
    copy
}

/// The `panels` member of a submitted document.
#[derive(Debug, PartialEq, Eq)]
pub enum PanelsField {
    /// The document has no such member.
    Missing,
    /// The member is present but is not a sequence.
    Malformed,
    /// The member is a sequence of these elements.
    Sequence(Vec<Fragment>),
}

pub enum PanelsFieldView {
    Missing,
    Malformed,
    Sequence(Seq<FragmentView>),
}

impl View for PanelsField {
    type V = PanelsFieldView;

    open spec fn view(&self) -> PanelsFieldView {
        match self {
            PanelsField::Missing => PanelsFieldView::Missing,
            PanelsField::Malformed => PanelsFieldView::Malformed,
            PanelsField::Sequence(items) => PanelsFieldView::Sequence(fragment_views(items@)),
        }
    }
}

impl Clone for PanelsField {
    fn clone(&self) -> (copy: Self)
        ensures
            copy@ == self@,
    {
        match self {
            PanelsField::Missing => PanelsField::Missing,
            PanelsField::Malformed => PanelsField::Malformed,
            PanelsField::Sequence(items) => PanelsField::Sequence(clone_fragments(items)),
        }
    }
}

/// A dashboard document as a client submits it.
#[derive(Debug, PartialEq, Eq)]
pub struct Document {
    /// The identifier the client asks for, if it asks for one.
    pub id: Option<String>,
    pub title: String,
    pub panels: PanelsField,
}

pub struct DocumentView {
    pub id: Option<Seq<char>>,
    pub title: Seq<char>,
    pub panels: PanelsFieldView,
}

impl View for Document {
    type V = DocumentView;

    open spec fn view(&self) -> DocumentView {
        DocumentView {
            id: match self.id {
                Some(id) => Some(id@),
                None => None,
            },
            title: self.title@,
            panels: self.panels@,
        }
    }
}

impl Clone for Document {
    fn clone(&self) -> (copy: Self)
        ensures
            copy@ == self@,
    {
        Document {
            id: match &self.id {
                Some(id) => Some(id.clone()),
                None => None,
            },
            title: self.title.clone(),
            panels: self.panels.clone(),
        }
    }
}

/// A panel of a stored dashboard: the encoded text of a structured object.
#[derive(Debug, PartialEq, Eq)]
pub struct Panel {
    pub body: String,
}

impl View for Panel {
    type V = Seq<char>;

    open spec fn view(&self) -> Seq<char> {
        self.body@
    }
}

impl Clone for Panel {
    fn clone(&self) -> (copy: Self)
        ensures
            copy@ == self@,
    {
        Panel { body: self.body.clone() }
    }
}

/// The texts of a run of panels, in order.
pub open spec fn panel_views(panels: Seq<Panel>) -> Seq<Seq<char>> {
    Seq::new(panels.len(), |i: int| panels[i]@)
}

/// The texts of a run of submitted elements, in order: the panels that a
/// valid document asks for.
pub open spec fn bodies(items: Seq<FragmentView>) -> Seq<Seq<char>> {
    Seq::new(items.len(), |i: int| items[i].body)
}

/// A copy of a run of panels.
pub fn clone_panels(panels: &Vec<Panel>) -> (copy: Vec<Panel>)
    ensures
        panel_views(copy@) == panel_views(panels@),
{
    let mut copy: Vec<Panel> = Vec::new();
    let mut i: usize = 0;
    while i < panels.len()
        invariant
            i <= panels.len(),
            copy.len() == i,
            forall|j: int| 0 <= j < i ==> copy[j]@ == panels[j]@,
        decreases panels.len() - i,
    {
        copy.push(panels[i].clone());
        i += 1;
    }
    assert(panel_views(copy@) =~= panel_views(panels@));
    copy
}

/// The panels that a sequence of submitted elements asks for: the text of
/// each element, in order.
pub fn panels_of(items: &Vec<Fragment>) -> (panels: Vec<Panel>)
    ensures
        panel_views(panels@) == bodies(fragment_views(items@)),
{
    let mut panels: Vec<Panel> = Vec::new();
    let mut i: usize = 0;
    while i < items.len()
        invariant
            i <= items.len(),
            panels.len() == i,
            forall|j: int| 0 <= j < i ==> panels[j]@ == items[j].body@,
        decreases items.len() - i,
    {
        panels.push(Panel { body: items[i].body.clone() });
        i += 1;
    }
    assert(panel_views(panels@) =~= bodies(fragment_views(items@)));
    panels
}

} // verus!
