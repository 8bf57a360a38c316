//! One recorded error message: the error's type name and what it displayed.

use vstd::prelude::*;

verus! {

/// The mathematical value of a [`Message`].
pub ghost struct MessageView {
    pub type_label: Seq<char>,
    pub display: Seq<char>,
}

/// An error message recorded in a backtrace.
pub struct Message {
    pub type_label: String,
    pub display: String,
}

impl View for Message {
    type V = MessageView;

    open spec fn view(&self) -> MessageView {
        MessageView { type_label: self.type_label@, display: self.display@ }
    }
}

impl Clone for Message {
    fn clone(&self) -> (r: Self)
        ensures
            r@ == self@,
    {
        Message { type_label: self.type_label.clone(), display: self.display.clone() }
    }
}

impl Message {
    /// Records that an error of type `type_label` displayed `display`.
    pub fn new(type_label: &str, display: String) -> (r: Self)
        ensures
            r@ == (MessageView { type_label: type_label@, display: display@ }),
    {
        Message { type_label: type_label.to_owned(), display }
    }

    /// The name of the error's type.
    pub fn type_label(&self) -> (r: &str)
        ensures
            r@ == self@.type_label,
    {
        self.type_label.as_str()
    }

    /// What the error displayed when it was recorded.
    pub fn display(&self) -> (r: &str)
        ensures
            r@ == self@.display,
    {
        self.display.as_str()
    }
}

} // verus!
