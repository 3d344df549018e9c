//! The slots of a panel.

use vstd::prelude::*;

verus! {

/// One position of the panel: labelled, or left free.
#[derive(Clone, Debug)]
pub enum Slot {
    Occupied { text: String, group: String },
    Free,
}

/// What a `Slot` stands for.
pub ghost enum SlotView {
    Occupied { text: Seq<char>, group: Seq<char> },
    Free,
}

impl View for Slot {
    type V = SlotView;

    open spec fn view(&self) -> SlotView {
        match self {
            Slot::Occupied { text, group } => SlotView::Occupied { text: text@, group: group@ },
            Slot::Free => SlotView::Free,
        }
    }
}

} // verus!
