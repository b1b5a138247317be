//! A posted message and its mathematical view.

use vstd::prelude::*;

use crate::token::{is_premium, spec_is_premium};

verus! {

/// A message as it is stored and handed out.
#[derive(Debug, PartialEq, Eq)]
pub struct PostedMessage {
    /// Whether the call that posted the message carried at least the premium
    /// threshold.
    pub premium: bool,
    /// The account that posted the message.
    pub sender: String,
    /// The text of the message.
    pub text: String,
}

/// What a [`PostedMessage`] stands for: its flag and its two strings as
/// sequences of characters.
pub struct MessageView {
    pub premium: bool,
    pub sender: Seq<char>,
    pub text: Seq<char>,
}

/// The message that the account `sender` posts with `text` while
/// `attached_deposit` yoctoNEAR are attached to the call.
pub open spec fn posted(text: Seq<char>, sender: Seq<char>, attached_deposit: u128) -> MessageView {
    MessageView { premium: spec_is_premium(attached_deposit), sender, text }
}

impl View for PostedMessage {
    type V = MessageView;

    open spec fn view(&self) -> MessageView {
        MessageView { premium: self.premium, sender: self.sender@, text: self.text@ }
    }
}

impl DeepView for PostedMessage {
    type V = MessageView;

    open spec fn deep_view(&self) -> MessageView {
        self.view()
    }
}

impl PostedMessage {
    /// Builds the message that `sender` posts with `text`. The premium flag is
    /// decided by the deposit alone; sender and text are taken as they are.
    pub fn new(text: String, sender: String, attached_deposit: u128) -> (message: PostedMessage)
        ensures
            message@ == posted(text@, sender@, attached_deposit),
            message.premium <==> attached_deposit >= crate::token::premium_threshold(),
            message.sender@ == sender@,
            message.text@ == text@,
    {
        PostedMessage { premium: is_premium(attached_deposit), sender, text }
    }
}

impl Clone for PostedMessage {
    /// A copy with the same flag, sender and text.
    fn clone(&self) -> (copy: PostedMessage)
        ensures
            copy@ == self@,
    {
        PostedMessage {
            premium: self.premium,
            sender: self.sender.clone(),
            text: self.text.clone(),
        }
    }
}

} // verus!
