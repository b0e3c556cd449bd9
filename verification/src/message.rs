use vstd::prelude::*;

use crate::date::Date;
use mail_parser::MimeHeaders;

verus! {

/// One attachment as the underlying mail parser reports it: a possibly
/// absent filename and the decoded bytes.
pub struct RawAttachment {
    pub name: Option<String>,
    pub contents: Vec<u8>,
}

/// What the engine reads of one parsed message: the Date header cut to
/// day granularity, the Subject header, and the attachments in the order
/// the parser reports them.
pub struct ParsedMessage {
    pub date: Option<Date>,
    pub subject: Option<String>,
    pub attachments: Vec<RawAttachment>,
}

pub ghost struct RawAttachmentModel {
    pub name: Option<Seq<char>>,
    pub contents: Seq<u8>,
}

pub ghost struct MessageModel {
    pub date: Option<Date>,
    pub subject: Option<Seq<char>>,
    pub attachments: Seq<RawAttachmentModel>,
}

impl View for RawAttachment {
    type V = RawAttachmentModel;

    open spec fn view(&self) -> RawAttachmentModel {
        RawAttachmentModel { name: self.name.deep_view(), contents: self.contents@ }
    }
}

impl DeepView for RawAttachment {
    type V = RawAttachmentModel;

    open spec fn deep_view(&self) -> RawAttachmentModel {
        self@
    }
}

impl View for ParsedMessage {
    type V = MessageModel;

    open spec fn view(&self) -> MessageModel {
        MessageModel {
            date: self.date,
            subject: self.subject.deep_view(),
            attachments: self.attachments.deep_view(),
        }
    }
}

impl DeepView for ParsedMessage {
    type V = MessageModel;

    open spec fn deep_view(&self) -> MessageModel {
        self@
    }
}

/// What the mail parser makes of one raw message: a function of the
/// bytes alone. `None` stands for bytes it cannot parse at all.
pub uninterp spec fn parse_model(bytes: Seq<u8>) -> Option<MessageModel>;

/// Relies on mail_parser: MessageParser::parse turns raw message bytes
/// into a structured message, and Message::date, Message::subject,
/// Message::attachments, MimeHeaders::attachment_name and
/// MessagePart::contents read the parsed headers and decoded parts. All
/// of them compute from the raw bytes alone.
#[verifier::external_body]
pub(crate) fn parse_message(bytes: &Vec<u8>) -> (r: Option<ParsedMessage>)
    ensures
        match r {
            Some(m) => parse_model(bytes@) == Some(m@),
            None => parse_model(bytes@) is None,
        },
{
    let msg = mail_parser::MessageParser::default().parse(bytes.as_slice())?;
    let date = msg.date().map(|d| Date { year: d.year, month: d.month, day: d.day });
    let subject = msg.subject().map(|s| s.to_string());
    let mut attachments = Vec::new();
    for part in msg.attachments() {
        attachments.push(RawAttachment {
            name: part.attachment_name().map(|n| n.to_string()),
            contents: part.contents().to_vec(),
        });
    }
    Some(ParsedMessage { date, subject, attachments })
}

} // verus!
