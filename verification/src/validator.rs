//! Structural validation of submitted documents.
//!
//! Validation is shallow: it looks at the title and at the shape of the
//! `panels` member, never at what a panel holds.

use vstd::prelude::*;
use crate::document::{Document, DocumentView, FragmentView, PanelsField, PanelsFieldView, Fragment, fragment_views};
use crate::error::ValidationError;

verus! {

/// Every element is recognisable as a panel.
pub open spec fn all_panels(items: Seq<FragmentView>) -> bool {
    forall|i: int| 0 <= i < items.len() ==> (#[trigger] items[i]).is_panel()
}

/// `i` is the position of the first element that is no panel.
pub open spec fn first_malformed_at(items: Seq<FragmentView>, i: int) -> bool {
    &&& 0 <= i < items.len()
    &&& !items[i].is_panel()
    &&& forall|j: int| 0 <= j < i ==> (#[trigger] items[j]).is_panel()
}

/// The position of the first element that is no panel, where there is one.
pub open spec fn first_malformed(items: Seq<FragmentView>) -> int {
    choose|i: int| first_malformed_at(items, i)
}

/// The verdict on a document: the title is looked at first, then whether
/// `panels` is there, then whether it is a sequence, then its elements from
/// the front.
pub open spec fn validate_spec(doc: DocumentView) -> Result<(), ValidationError> {
    if doc.title.len() == 0 {
        Err(ValidationError::EmptyTitle)
    } else {
        match doc.panels {
            PanelsFieldView::Missing => Err(ValidationError::MissingPanels),
            PanelsFieldView::Malformed => Err(ValidationError::PanelsNotSequence),
            PanelsFieldView::Sequence(items) => if all_panels(items) {
                Ok(())
            } else {
                Err(ValidationError::MalformedPanel { index: first_malformed(items) as usize })
            },
        }
    }
}

/// A document that validation accepts.
pub open spec fn is_valid(doc: DocumentView) -> bool {
    validate_spec(doc) is Ok
}

/// A document is valid exactly when its title is not empty and its `panels`
/// member is a sequence of structured objects.
pub proof fn valid_means(doc: DocumentView)
    ensures
        is_valid(doc) <==> doc.title.len() > 0 && match doc.panels {
            PanelsFieldView::Sequence(items) => all_panels(items),
            _ => false,
        },
{
}

/// At most one position is the first malformed one, and there is one
/// whenever some element is no panel.
pub proof fn first_malformed_unique(items: Seq<FragmentView>, i: int)
    requires
        first_malformed_at(items, i),
    ensures
        !all_panels(items),
        first_malformed(items) == i,
{
    let k = first_malformed(items);
    assert(first_malformed_at(items, k));
    if k < i {
        assert(items[k].is_panel());
    } else if i < k {
        assert(items[i].is_panel());
    }
}

/// The position of the first element that is no panel, or `None` where every
/// element is one.
pub fn scan_panels(items: &Vec<Fragment>) -> (found: Option<usize>)
    ensures
        found is None <==> all_panels(fragment_views(items@)),
        found matches Some(i) ==> first_malformed_at(fragment_views(items@), i as int),
{
    let mut i: usize = 0;
    while i < items.len()
        invariant
            i <= items.len(),
            forall|j: int| 0 <= j < i ==> (#[trigger] fragment_views(items@)[j]).is_panel(),
        decreases items.len() - i,
    {
        if !items[i].is_panel() {
            assert(!fragment_views(items@)[i as int].is_panel());
            return Some(i);
        }
        i += 1;
    }
    None
}

/// Checks that a document is well formed: a title that is not empty, and a
/// `panels` member that is a sequence of structured objects. Reports the
/// first thing that is wrong.
pub fn validate(document: &Document) -> (verdict: Result<(), ValidationError>)
    ensures
        verdict == validate_spec(document@),
{
    if document.title.as_str().is_empty() {
        return Err(ValidationError::EmptyTitle);
    }
    match &document.panels {
        PanelsField::Missing => Err(ValidationError::MissingPanels),
        PanelsField::Malformed => Err(ValidationError::PanelsNotSequence),
        PanelsField::Sequence(items) => {
            match scan_panels(items) {
                None => Ok(()),
                Some(index) => {
                    proof {
                        first_malformed_unique(fragment_views(items@), index as int);
                    }
                    Err(ValidationError::MalformedPanel { index })
                },
            }
        },
    }
}

} // verus!
