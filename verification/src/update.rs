//! Plain-value description of what the chat transport delivers.

use vstd::prelude::*;

verus! {

/// The message that an inbound message replies to.
#[derive(Debug, PartialEq, Eq)]
pub struct Referenced {
    pub id: i32,
    pub chat_id: i64,
    pub text: Option<String>,
}

/// An inbound chat message.
#[derive(Debug, PartialEq, Eq)]
pub struct Message {
    pub id: i32,
    pub chat_id: i64,
    pub text: Option<String>,
    pub reply_to: Option<Referenced>,
}

/// One delivery of the transport: a new message, a new version of a message
/// seen before, or anything else.
#[derive(Debug, PartialEq, Eq)]
pub enum Update {
    Message(Message),
    EditedMessage(Message),
    Other,
}

/// `Referenced` with its text as a sequence of characters.
pub struct ReferencedView {
    pub id: i32,
    pub chat_id: i64,
    pub text: Option<Seq<char>>,
}

/// `Message` with its texts as sequences of characters.
pub struct MessageView {
    pub id: i32,
    pub chat_id: i64,
    pub text: Option<Seq<char>>,
    pub reply_to: Option<ReferencedView>,
}

/// `Update` over `MessageView`.
pub enum UpdateView {
    Message(MessageView),
    EditedMessage(MessageView),
    Other,
}

/// The characters of an optional text.
pub open spec fn text_view(text: Option<String>) -> Option<Seq<char>> {
    match text {
        Some(t) => Some(t@),
        None => None,
    }
}

impl View for Referenced {
    type V = ReferencedView;

    open spec fn view(&self) -> ReferencedView {
        ReferencedView { id: self.id, chat_id: self.chat_id, text: text_view(self.text) }
    }
}

impl View for Message {
    type V = MessageView;

    open spec fn view(&self) -> MessageView {
        MessageView {
            id: self.id,
            chat_id: self.chat_id,
            text: text_view(self.text),
            reply_to: match self.reply_to {
                Some(r) => Some(r@),
                None => None,
            },
        }
    }
}

impl View for Update {
    type V = UpdateView;

    open spec fn view(&self) -> UpdateView {
        match *self {
            Update::Message(m) => UpdateView::Message(m@),
            Update::EditedMessage(m) => UpdateView::EditedMessage(m@),
            Update::Other => UpdateView::Other,
        }
    }
}

} // verus!
