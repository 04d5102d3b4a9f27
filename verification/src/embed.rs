//! Rich display blocks and the controls attached to a reply, as plain data.
//!
//! The caller turns these into the messaging platform's own builders.

use vstd::prelude::*;

verus! {

/// Colour of an open issue or pull request.
pub const OPEN_COLOUR: u32 = 0x238636;

/// Colour of a merged pull request.
pub const RESOLVED_COLOUR: u32 = 0x8957e5;

/// Colour of a closed issue or pull request.
pub const CLOSED_COLOUR: u32 = 0xda3633;

/// Colour of neutral content.
pub const ACCENT_COLOUR: u32 = 0x8957e5;

/// Colour of a success notice.
pub const OK_COLOUR: u32 = 0x2ecc71;

/// Colour of an error notice.
pub const ERROR_COLOUR: u32 = 0xe74c3c;

/// Colour of a listing.
pub const LIST_COLOUR: u32 = 0x1abc9c;

/// The views of an optional string.
pub open spec fn opt_view(s: Option<String>) -> Option<Seq<char>> {
    match s {
        Some(s) => Some(s@),
        None => None,
    }
}

/// Who wrote the content of an embed.
#[derive(Clone, Debug, PartialEq, Eq)]
pub struct Author {
    pub name: String,
    pub url: String,
    pub icon_url: String,
}

pub struct AuthorView {
    pub name: Seq<char>,
    pub url: Seq<char>,
    pub icon_url: Seq<char>,
}

impl View for Author {
    type V = AuthorView;

    open spec fn view(&self) -> AuthorView {
        AuthorView { name: self.name@, url: self.url@, icon_url: self.icon_url@ }
    }
}

/// A titled value shown inside an embed.
#[derive(Clone, Debug, PartialEq, Eq)]
pub struct Field {
    pub name: String,
    pub value: String,
    pub inline: bool,
}

pub struct FieldView {
    pub name: Seq<char>,
    pub value: Seq<char>,
    pub inline: bool,
}

impl View for Field {
    type V = FieldView;

    open spec fn view(&self) -> FieldView {
        FieldView { name: self.name@, value: self.value@, inline: self.inline }
    }
}

/// The views of a list of fields.
pub open spec fn field_views(fields: Seq<Field>) -> Seq<FieldView> {
    fields.map_values(|f: Field| f@)
}

/// Appending a field appends its view.
pub proof fn lemma_field_views_push(fields: Seq<Field>, field: Field)
    ensures
        field_views(fields.push(field)) == field_views(fields).push(field@),
{
}

/// One rich display block.
#[derive(Clone, Debug, PartialEq, Eq)]
pub struct Embed {
    pub title: Option<String>,
    pub description: Option<String>,
    pub url: Option<String>,
    pub colour: Option<u32>,
    pub author: Option<Author>,
    pub fields: Vec<Field>,
    pub footer: Option<String>,
    pub image: Option<String>,
    pub thumbnail: Option<String>,
}

pub struct EmbedView {
    pub title: Option<Seq<char>>,
    pub description: Option<Seq<char>>,
    pub url: Option<Seq<char>>,
    pub colour: Option<u32>,
    pub author: Option<AuthorView>,
    pub fields: Seq<FieldView>,
    pub footer: Option<Seq<char>>,
    pub image: Option<Seq<char>>,
    pub thumbnail: Option<Seq<char>>,
}

impl View for Embed {
    type V = EmbedView;

    open spec fn view(&self) -> EmbedView {
        EmbedView {
            title: opt_view(self.title),
            description: opt_view(self.description),
            url: opt_view(self.url),
            colour: self.colour,
            author: match self.author {
                Some(a) => Some(a@),
                None => None,
            },
            fields: field_views(self.fields@),
            footer: opt_view(self.footer),
            image: opt_view(self.image),
            thumbnail: opt_view(self.thumbnail),
        }
    }
}

/// The views of a list of embeds.
pub open spec fn embed_views(embeds: Seq<Embed>) -> Seq<EmbedView> {
    embeds.map_values(|e: Embed| e@)
}

impl EmbedView {
    /// An embed without any content.
    pub open spec fn empty() -> EmbedView {
        EmbedView {
            title: None,
            description: None,
            url: None,
            colour: None,
            author: None,
            fields: Seq::empty(),
            footer: None,
            image: None,
            thumbnail: None,
        }
    }

    /// This embed with its description cleared.
    pub open spec fn without_body(self) -> EmbedView {
        EmbedView { description: None, ..self }
    }
}

impl Embed {
    /// An embed without any content.
    pub fn new() -> (embed: Embed)
        ensures
            embed@ == EmbedView::empty(),
    {
        let embed = Embed {
            title: None,
            description: None,
            url: None,
            colour: None,
            author: None,
            fields: Vec::new(),
            footer: None,
            image: None,
            thumbnail: None,
        };
        assert(embed@.fields =~= Seq::empty());
        embed
    }
}

/// A notice: a title and a text in the given colour.
pub open spec fn notice_of(title: Seq<char>, content: Seq<char>, colour: u32) -> EmbedView {
    EmbedView {
        title: Some(title),
        description: Some(content),
        colour: Some(colour),
        ..EmbedView::empty()
    }
}

fn notice(title: &str, content: &str, colour: u32) -> (embed: Embed)
    ensures
        embed@ == notice_of(title@, content@, colour),
{
    let mut embed = Embed::new();
    embed.title = Some(title.to_owned());
    embed.description = Some(content.to_owned());
    embed.colour = Some(colour);
    embed
}

/// The notice that something went well.
pub fn ok_embed(title: &str, content: &str) -> (embed: Embed)
    ensures
        embed@ == notice_of(title@, content@, OK_COLOUR),
{
    notice(title, content, OK_COLOUR)
}

/// The notice that something went wrong.
pub fn error_embed(title: &str, content: &str) -> (embed: Embed)
    ensures
        embed@ == notice_of(title@, content@, ERROR_COLOUR),
{
    notice(title, content, ERROR_COLOUR)
}

/// The notice, meant for the actor alone, that a button press was refused.
pub fn interaction_error(content: &str) -> (embed: Embed)
    ensures
        embed@ == notice_of("Unable to execute interaction"@, content@, ERROR_COLOUR),
{
    notice("Unable to execute interaction", content, ERROR_COLOUR)
}

/// What an actor without the right to press a button is told.
pub const MISSING_PERMISSION: &'static str =
    "Unable to use interaction because you are missing `MANAGE_MESSAGES`.";

/// A button under a reply.
#[derive(Clone, Debug, PartialEq, Eq)]
pub struct Button {
    pub id: String,
    pub label: Option<String>,
    pub emoji: Option<char>,
    pub danger: bool,
}

pub struct ButtonView {
    pub id: Seq<char>,
    pub label: Option<Seq<char>>,
    pub emoji: Option<char>,
    pub danger: bool,
}

impl View for Button {
    type V = ButtonView;

    open spec fn view(&self) -> ButtonView {
        ButtonView {
            id: self.id@,
            label: opt_view(self.label),
            emoji: self.emoji,
            danger: self.danger,
        }
    }
}

/// The views of a row of buttons.
pub open spec fn button_views(buttons: Seq<Button>) -> Seq<ButtonView> {
    buttons.map_values(|b: Button| b@)
}

/// Every embed with its description cleared.
pub open spec fn bodies_hidden(embeds: Seq<EmbedView>) -> Seq<EmbedView> {
    embeds.map_values(|e: EmbedView| e.without_body())
}

/// Clears the description of every embed and keeps everything else.
pub fn hide_bodies(embeds: Vec<Embed>) -> (hidden: Vec<Embed>)
    ensures
        embed_views(hidden@) == bodies_hidden(embed_views(embeds@)),
{
    let mut hidden = embeds;
    let mut i: usize = 0;
    while i < hidden.len()
        invariant
            i <= hidden.len(),
            hidden.len() == embeds.len(),
            forall|k: int| 0 <= k < i ==> (#[trigger] hidden@[k])@ == embeds@[k]@.without_body(),
            forall|k: int| i <= k < hidden.len() ==> hidden@[k] == embeds@[k],
        decreases hidden.len() - i,
    {
        hidden[i].description = None;
        i += 1;
    }
    hidden
}

/// Hiding bodies twice shows the same embeds as hiding them once.
pub proof fn lemma_hide_bodies_idempotent(embeds: Seq<EmbedView>)
    ensures
        bodies_hidden(bodies_hidden(embeds)) == bodies_hidden(embeds),
{
}

} // verus!
