//! What can go wrong while balloons are laid out.

use vstd::prelude::*;

use crate::text::{chars_of, decimal, extend, push_decimal, string_of};

verus! {

/// Why a balloon could not be made, placed or drawn.
#[derive(Clone, Debug, PartialEq, Eq)]
pub enum LayoutError {
    /// The slot lies beyond the last slot of the panel.
    InvalidSlot { slot: usize },
    /// The balloon was asked to move further left than its text and slot allow.
    ShiftTooLarge { shift: usize, text: String },
    /// No row has room left for the balloon of this slot.
    PlacementExhausted { slot: usize },
    /// The balloon of this slot was moved so far left that its pointer no
    /// longer starts below its bottom wall.
    PointerDetached { slot: usize },
}

impl LayoutError {
    /// The error in words.
    pub open spec fn message_of(self) -> Seq<char> {
        match self {
            LayoutError::InvalidSlot { slot } => decimal(slot as nat) + " is not in a valid slot!"@,
            LayoutError::ShiftTooLarge { shift, text } => "Shift "@ + decimal(shift as nat)
                + " is too large for balloon "@ + text@,
            LayoutError::PlacementExhausted { slot } => "No row has room for the balloon of slot "@
                + decimal(slot as nat),
            LayoutError::PointerDetached { slot } => "The pointer of the balloon of slot "@
                + decimal(slot as nat) + " starts beyond its wall"@,
        }
    }

    /// The error in words.
    pub fn message(&self) -> (text: String)
        ensures
            text@ == self.message_of(),
    {
        let mut out: Vec<char> = Vec::new();
        match self {
            LayoutError::InvalidSlot { slot } => {
                push_decimal(&mut out, *slot);
                extend(&mut out, &chars_of(" is not in a valid slot!"));
            },
            LayoutError::ShiftTooLarge { shift, text } => {
                extend(&mut out, &chars_of("Shift "));
                push_decimal(&mut out, *shift);
                extend(&mut out, &chars_of(" is too large for balloon "));
                extend(&mut out, &chars_of(text.as_str()));
            },
            LayoutError::PlacementExhausted { slot } => {
                extend(&mut out, &chars_of("No row has room for the balloon of slot "));
                push_decimal(&mut out, *slot);
            },
            LayoutError::PointerDetached { slot } => {
                extend(&mut out, &chars_of("The pointer of the balloon of slot "));
                push_decimal(&mut out, *slot);
                extend(&mut out, &chars_of(" starts beyond its wall"));
            },
        }
        assert(out@ =~= self.message_of());
        string_of(&out)
    }
}

} // verus!
