//! Replies to HTTP requests.

use vstd::prelude::*;

verus! {

/// The body of a reply.
pub enum Body {
    Text(String),
    Bytes(Vec<u8>),
}

/// What a [`Body`] holds.
pub enum BodyView {
    Text(Seq<char>),
    Bytes(Seq<u8>),
}

impl View for Body {
    type V = BodyView;

    open spec fn view(&self) -> BodyView {
        match self {
            Body::Text(text) => BodyView::Text(text@),
            Body::Bytes(bytes) => BodyView::Bytes(bytes@),
        }
    }
}

/// A reply: its status code, the headers that are set besides those that every
/// reply of its kind of body has, and its body.
pub struct HttpReply {
    pub status: u16,
    pub headers: Vec<(String, String)>,
    pub body: Body,
}

/// What an [`HttpReply`] holds.
pub struct HttpReplyView {
    pub status: u16,
    pub headers: Seq<(Seq<char>, Seq<char>)>,
    pub body: BodyView,
}

impl View for HttpReply {
    type V = HttpReplyView;

    open spec fn view(&self) -> HttpReplyView {
        HttpReplyView {
            status: self.status,
            headers: self.headers.deep_view(),
            body: self.body@,
        }
    }
}

/// A reply of plain text.
pub open spec fn text_reply(status: u16, text: Seq<char>) -> HttpReplyView {
    HttpReplyView { status, headers: seq![], body: BodyView::Text(text) }
}

impl HttpReply {
    /// A reply of plain text.
    pub fn text(status: u16, text: String) -> (res: HttpReply)
        ensures
            res@ == text_reply(status, text@),
    {
        let res = HttpReply { status, headers: Vec::new(), body: Body::Text(text) };
        assert(res@.headers =~= seq![]);
        res
    }
}

/// A reply of plain text has the text as its body, all of it.
pub proof fn law_text_is_the_body(status: u16, text: Seq<char>)
    ensures
        text_reply(status, text).status == status,
        text_reply(status, text).body == BodyView::Text(text),
        text_reply(status, text).headers.len() == 0,
{
}

/// A reply is looked at whole: no part of it is left out or changed.
pub proof fn law_reply_is_looked_at_whole(reply: HttpReply)
    ensures
        reply@.status == reply.status,
        reply@.headers.len() == reply.headers@.len(),
        forall|i: int|
            0 <= i < reply.headers@.len() ==> #[trigger] reply@.headers[i] == (
                reply.headers@[i].0@,
                reply.headers@[i].1@,
            ),
        reply.body matches Body::Text(text) ==> reply@.body == BodyView::Text(text@),
        reply.body matches Body::Bytes(bytes) ==> reply@.body == BodyView::Bytes(bytes@),
{
}

} // verus!
