//! The kinds of modal dialog, and how their buttons and texts are laid out.
use vstd::prelude::*;

verus! {

/// Whether a modal dialog alerts or informs.
#[derive(Clone, Copy, PartialEq, Eq)]
pub enum MsgType {
    Alert,
    Info,
}

/// How the buttons of a modal dialog are aligned.
#[derive(Clone, Copy, PartialEq, Eq)]
pub enum AlignButton {
    Row,
    Column,
}

/// How a text of a modal dialog is shown: the key of a localized text, or raw text in
/// normal or bold type.
#[derive(Clone, Copy, PartialEq, Eq)]
pub enum TextStyle {
    Key,
    RawNormal,
    RawBold,
}

} // verus!
