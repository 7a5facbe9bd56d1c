//! What the bot can send, as plain data.
//!
//! Every type here has a view that replaces owned strings by character
//! sequences; all contracts in this crate are stated over those views.

use vstd::prelude::*;

verus! {

/// The characters of an optional string.
pub open spec fn opt_text(o: Option<String>) -> Option<Seq<char>> {
    match o {
        Some(s) => Some(s@),
        None => None,
    }
}

/// One titled entry of an embed.
#[derive(Debug, Clone, PartialEq, Eq)]
pub struct EmbedField {
    pub name: String,
    pub value: String,
    /// Whether the entry may share a row with its neighbours.
    pub inline: bool,
}

pub struct EmbedFieldView {
    pub name: Seq<char>,
    pub value: Seq<char>,
    pub inline: bool,
}

impl View for EmbedField {
    type V = EmbedFieldView;

    open spec fn view(&self) -> EmbedFieldView {
        EmbedFieldView { name: self.name@, value: self.value@, inline: self.inline }
    }
}

/// A structured attachment to a message.
#[derive(Debug, Clone, PartialEq, Eq)]
pub struct Embed {
    pub title: String,
    pub description: Option<String>,
    pub fields: Vec<EmbedField>,
    pub footer: Option<String>,
    /// Address of the picture shown inside the embed.
    pub image: Option<String>,
    /// Seconds since the Unix epoch.
    pub timestamp: Option<i64>,
}

pub struct EmbedView {
    pub title: Seq<char>,
    pub description: Option<Seq<char>>,
    pub fields: Seq<EmbedFieldView>,
    pub footer: Option<Seq<char>>,
    pub image: Option<Seq<char>>,
    pub timestamp: Option<i64>,
}

impl View for Embed {
    type V = EmbedView;

    open spec fn view(&self) -> EmbedView {
        EmbedView {
            title: self.title@,
            description: opt_text(self.description),
            fields: self.fields@.map_values(|f: EmbedField| f@),
            footer: opt_text(self.footer),
            image: opt_text(self.image),
            timestamp: self.timestamp,
        }
    }
}

/// A message the bot sends in answer to a command.
#[derive(Debug, Clone, PartialEq, Eq)]
pub enum OutboundReply {
    /// Plain text to the channel the command came from.
    Text(String),
    /// An embed to the channel the command came from, with optional text
    /// beside it and an optional local file attached.
    Rich { content: Option<String>, embed: Embed, attachment: Option<String> },
    /// Plain text to the author of the command, in private.
    Direct(String),
}

pub enum OutboundReplyView {
    Text(Seq<char>),
    Rich { content: Option<Seq<char>>, embed: EmbedView, attachment: Option<Seq<char>> },
    Direct(Seq<char>),
}

impl View for OutboundReply {
    type V = OutboundReplyView;

    open spec fn view(&self) -> OutboundReplyView {
        match self {
            OutboundReply::Text(s) => OutboundReplyView::Text(s@),
            OutboundReply::Rich { content, embed, attachment } => OutboundReplyView::Rich {
                content: opt_text(*content),
                embed: embed@,
                attachment: opt_text(*attachment),
            },
            OutboundReply::Direct(s) => OutboundReplyView::Direct(s@),
        }
    }
}

} // verus!
