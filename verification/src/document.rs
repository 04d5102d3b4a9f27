//! Issues and pull requests as they were fetched, and how they are shown.

use vstd::prelude::*;
use vstd::string::StringExecFns;
use crate::embed::{
    field_views, opt_view, Author, Embed, EmbedView, Field, FieldView, CLOSED_COLOUR, OPEN_COLOUR,
    RESOLVED_COLOUR,
};
use crate::formatting::{bound_body, bounded_body, MAX_TEXT_LENGTH};
use crate::text::{
    chars_of, decimal, decimal_string, join_chars, join_on, string_of, string_rows, string_views,
};

verus! {

/// Something that can be shown as an embed.
pub trait Embeddable {
    /// The embed that shows this value.
    spec fn embedded(&self) -> EmbedView;

    /// Builds the embed that shows this value.
    fn embed(&self) -> (embed: Embed)
        ensures
            embed@ == self.embedded(),
    ;
}

/// The title of item `number`: the number behind a hash sign, then the
/// item's own title where it has one.
pub open spec fn numbered_title(number: u64, title: Option<Seq<char>>) -> Seq<char> {
    match title {
        Some(title) => "#"@ + decimal(number as nat) + ": "@ + title,
        None => "#"@ + decimal(number as nat),
    }
}

/// The labels as one text: each name between backticks, separated by commas.
/// There is no such text for an empty list.
pub open spec fn labels_text(labels: Seq<Seq<char>>) -> Option<Seq<char>> {
    if labels.len() == 0 {
        None
    } else {
        Some("`"@ + join_on(labels, "`, `"@) + "`"@)
    }
}

/// The fields under an issue or pull request: the milestone, then the
/// labels, each only where present.
pub open spec fn detail_fields(milestone: Option<Seq<char>>, labels: Option<Seq<char>>) -> Seq<
    FieldView,
> {
    let first = match milestone {
        Some(title) => seq![FieldView { name: "Milestone"@, value: title, inline: true }],
        None => Seq::empty(),
    };
    match labels {
        Some(text) => first.push(FieldView { name: "Labels"@, value: text, inline: true }),
        None => first,
    }
}

fn numbered_title_of(number: u64, title: Option<&String>) -> (text: String)
    ensures
        text@ == numbered_title(
            number,
            match title {
                Some(t) => Some(t@),
                None => None,
            },
        ),
{
    let mut text = "#".to_owned();
    let digits = decimal_string(number);
    text.append(digits.as_str());
    match title {
        Some(title) => {
            text.append(": ");
            text.append(title.as_str());
        },
        None => {},
    }
    text
}

fn labels_text_of(labels: &Vec<String>) -> (text: Option<String>)
    ensures
        opt_view(text) == labels_text(string_views(labels@)),
{
    if labels.len() == 0 {
        None
    } else {
        let names = string_rows(labels);
        let sep = chars_of("`, `");
        let joined = join_chars(&names, &sep);
        let inner = string_of(&joined);
        let mut text = "`".to_owned();
        text.append(inner.as_str());
        text.append("`");
        Some(text)
    }
}

fn detail_fields_of(milestone: Option<&String>, labels: Option<String>) -> (fields: Vec<Field>)
    ensures
        field_views(fields@) == detail_fields(
            match milestone {
                Some(m) => Some(m@),
                None => None,
            },
            opt_view(labels),
        ),
{
    let mut fields: Vec<Field> = Vec::new();
    match milestone {
        Some(title) => {
            fields.push(Field { name: "Milestone".to_owned(), value: title.clone(), inline: true });
        },
        None => {},
    }
    match labels {
        Some(text) => {
            fields.push(Field { name: "Labels".to_owned(), value: text, inline: true });
        },
        None => {},
    }
    fields
}

fn copy_author(author: &Author) -> (copy: Author)
    ensures
        copy@ == author@,
{
    Author {
        name: author.name.clone(),
        url: author.url.clone(),
        icon_url: author.icon_url.clone(),
    }
}

/// An issue as the tracker returned it.
#[derive(Clone, Debug, PartialEq, Eq)]
pub struct IssueDocument {
    pub number: u64,
    pub title: String,
    pub body: Option<String>,
    pub html_url: String,
    pub user: Author,
    pub closed: bool,
    pub milestone: Option<String>,
    pub labels: Vec<String>,
}

impl IssueDocument {
    /// The title shown for the issue.
    pub open spec fn title_text(&self) -> Seq<char> {
        numbered_title(self.number, Some(self.title@))
    }

    /// The body shown for the issue; a missing body counts as empty.
    pub open spec fn content_text(&self) -> Seq<char> {
        bounded_body(
            match self.body {
                Some(b) => b@,
                None => Seq::empty(),
            },
        )
    }

    /// The colour that tells the issue's state.
    pub open spec fn colour(&self) -> u32 {
        if self.closed {
            CLOSED_COLOUR
        } else {
            OPEN_COLOUR
        }
    }

    pub fn get_title(&self) -> (title: String)
        ensures
            title@ == self.title_text(),
    {
        numbered_title_of(self.number, Some(&self.title))
    }

    pub fn get_content(&self) -> (content: String)
        ensures
            content@ == self.content_text(),
            content@.len() <= MAX_TEXT_LENGTH,
    {
        match &self.body {
            Some(body) => bound_body(body.as_str()),
            None => {
                proof {
                    reveal_strlit("");
                }
                bound_body("")
            },
        }
    }

    pub fn get_colour(&self) -> (colour: u32)
        ensures
            colour == self.colour(),
    {
        if self.closed {
            CLOSED_COLOUR
        } else {
            OPEN_COLOUR
        }
    }

    pub fn get_labels(&self) -> (labels: Option<String>)
        ensures
            opt_view(labels) == labels_text(string_views(self.labels@)),
    {
        labels_text_of(&self.labels)
    }
}

impl Embeddable for IssueDocument {
    open spec fn embedded(&self) -> EmbedView {
        EmbedView {
            title: Some(self.title_text()),
            description: Some(self.content_text()),
            url: Some(self.html_url@),
            colour: Some(self.colour()),
            author: Some(self.user@),
            fields: detail_fields(
                opt_view(self.milestone),
                labels_text(string_views(self.labels@)),
            ),
            ..EmbedView::empty()
        }
    }

    fn embed(&self) -> (embed: Embed) {
        let mut embed = Embed::new();
        embed.title = Some(self.get_title());
        embed.description = Some(self.get_content());
        embed.url = Some(self.html_url.clone());
        embed.colour = Some(self.get_colour());
        embed.author = Some(copy_author(&self.user));
        embed.fields = detail_fields_of(self.milestone.as_ref(), self.get_labels());
        embed
    }
}

/// A pull request as the tracker returned it.
#[derive(Clone, Debug, PartialEq, Eq)]
pub struct PullDocument {
    pub number: u64,
    pub title: Option<String>,
    pub body: Option<String>,
    pub html_url: Option<String>,
    pub user: Option<Author>,
    pub closed: bool,
    pub merged: bool,
    pub milestone: Option<String>,
    pub labels: Option<Vec<String>>,
}

impl PullDocument {
    /// The title shown for the pull request.
    pub open spec fn title_text(&self) -> Seq<char> {
        numbered_title(self.number, opt_view(self.title))
    }

    /// The body shown for the pull request; a missing body counts as empty.
    pub open spec fn content_text(&self) -> Seq<char> {
        bounded_body(
            match self.body {
                Some(b) => b@,
                None => Seq::empty(),
            },
        )
    }

    /// The colour that tells the pull request's state: merged only once it
    /// is closed.
    pub open spec fn colour(&self) -> u32 {
        if self.closed {
            if self.merged {
                RESOLVED_COLOUR
            } else {
                CLOSED_COLOUR
            }
        } else {
            OPEN_COLOUR
        }
    }

    /// The labels as one text, where the pull request has any.
    pub open spec fn labels(&self) -> Option<Seq<char>> {
        match self.labels {
            Some(labels) => labels_text(string_views(labels@)),
            None => None,
        }
    }

    pub fn get_title(&self) -> (title: String)
        ensures
            title@ == self.title_text(),
    {
        numbered_title_of(self.number, self.title.as_ref())
    }

    pub fn get_content(&self) -> (content: String)
        ensures
            content@ == self.content_text(),
            content@.len() <= MAX_TEXT_LENGTH,
    {
        match &self.body {
            Some(body) => bound_body(body.as_str()),
            None => {
                proof {
                    reveal_strlit("");
                }
                bound_body("")
            },
        }
    }

    pub fn get_colour(&self) -> (colour: u32)
        ensures
            colour == self.colour(),
    {
        if self.closed {
            if self.merged {
                RESOLVED_COLOUR
            } else {
                CLOSED_COLOUR
            }
        } else {
            OPEN_COLOUR
        }
    }

    pub fn get_labels(&self) -> (labels: Option<String>)
        ensures
            opt_view(labels) == self.labels(),
    {
        match &self.labels {
            Some(labels) => labels_text_of(labels),
            None => None,
        }
    }
}

impl Embeddable for PullDocument {
    open spec fn embedded(&self) -> EmbedView {
        EmbedView {
            title: Some(self.title_text()),
            description: Some(self.content_text()),
            url: opt_view(self.html_url),
            colour: Some(self.colour()),
            author: match self.user {
                Some(a) => Some(a@),
                None => None,
            },
            fields: detail_fields(opt_view(self.milestone), self.labels()),
            ..EmbedView::empty()
        }
    }

    fn embed(&self) -> (embed: Embed) {
        let mut embed = Embed::new();
        embed.title = Some(self.get_title());
        embed.description = Some(self.get_content());
        embed.url = match &self.html_url {
            Some(url) => Some(url.clone()),
            None => None,
        };
        embed.colour = Some(self.get_colour());
        embed.author = match &self.user {
            Some(user) => Some(copy_author(user)),
            None => None,
        };
        embed.fields = detail_fields_of(self.milestone.as_ref(), self.get_labels());
        embed
    }
}

} // verus!
