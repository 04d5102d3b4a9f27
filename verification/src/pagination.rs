//! Paged lists: chunking items into pages, and the state machine behind the
//! previous and next buttons of a paged reply.

use vstd::prelude::*;
use vstd::string::StringExecFns;
use crate::embed::{
    button_views, field_views, lemma_field_views_push, opt_view, Button, ButtonView, Embed,
    EmbedView, Field, FieldView, LIST_COLOUR,
};
use crate::structures::{snippet_views, Aliases, RepositoryDetailsView, Snippet, SnippetView};
use crate::text::{
    all_digits, begins_with, chars_of, decimal, decimal_string, has_prefix, lemma_concat_cancel,
    lemma_concat_has_prefix, lemma_decimal_round_trip, lemma_digits_then_rest, same_chars,
    strip_prefix_chars,
};

verus! {

/// Number of items shown on one page.
pub const PAGE_SIZE: usize = 25;

/// How long a paged reply waits for the next button press, in seconds.
pub const PAGER_TIMEOUT: u64 = 180;

/// What a button of a paged reply asks for.
#[derive(Clone, Copy, Debug, PartialEq, Eq, Structural)]
pub enum Kind {
    Next,
    Previous,
}

impl Kind {
    /// The text that follows the session id in this button's id.
    pub open spec fn suffix(self) -> Seq<char> {
        match self {
            Kind::Next => seq!['n', 'e', 'x', 't'],
            Kind::Previous => seq!['p', 'r', 'e', 'v'],
        }
    }

    /// The id of this button in the session `ctx_id`.
    pub open spec fn id_in(self, ctx_id: Seq<char>) -> Seq<char> {
        ctx_id + self.suffix()
    }

    /// The button that `id` names in the session `ctx_id`, if any.
    pub open spec fn decode(id: Seq<char>, ctx_id: Seq<char>) -> Option<Kind> {
        if id == Kind::Next.id_in(ctx_id) {
            Some(Kind::Next)
        } else if id == Kind::Previous.id_in(ctx_id) {
            Some(Kind::Previous)
        } else {
            None
        }
    }

    /// Decodes a pressed button's id. An id that does not carry the session
    /// id as its prefix, or carries an unknown suffix, names no button.
    pub fn from_id(id: &str, ctx_id: &str) -> (kind: Option<Kind>)
        ensures
            kind == Kind::decode(id@, ctx_id@),
    {
        let id_chars = chars_of(id);
        let ctx_chars = chars_of(ctx_id);
        match strip_prefix_chars(&id_chars, &ctx_chars) {
            None => {
                proof {
                    lemma_concat_has_prefix(ctx_id@, Kind::Next.suffix());
                    lemma_concat_has_prefix(ctx_id@, Kind::Previous.suffix());
                }
                None
            },
            Some(rest) => {
                proof {
                    lemma_concat_cancel(ctx_id@, rest@, Kind::Next.suffix());
                    lemma_concat_cancel(ctx_id@, rest@, Kind::Previous.suffix());
                }
                let next = vec!['n', 'e', 'x', 't'];
                let previous = vec!['p', 'r', 'e', 'v'];
                if same_chars(&rest, &next) {
                    Some(Kind::Next)
                } else if same_chars(&rest, &previous) {
                    Some(Kind::Previous)
                } else {
                    None
                }
            },
        }
    }
}

/// Number of pages that `items` items fill.
pub open spec fn page_count_of(items: nat) -> nat {
    (items + PAGE_SIZE - 1) as nat / (PAGE_SIZE as nat)
}

/// The items cut into pages: every page but the last holds `PAGE_SIZE`
/// items, the last holds what is left, and there is no empty page.
pub open spec fn paged<T>(items: Seq<T>) -> Seq<Seq<T>> {
    Seq::new(
        page_count_of(items.len()),
        |p: int|
            items.subrange(
                p * PAGE_SIZE,
                if (p + 1) * PAGE_SIZE <= items.len() {
                    (p + 1) * PAGE_SIZE
                } else {
                    items.len() as int
                },
            ),
    )
}

/// The views of a list of pages.
pub open spec fn page_views(pages: Seq<Vec<Field>>) -> Seq<Seq<FieldView>> {
    pages.map_values(|page: Vec<Field>| field_views(page@))
}

/// Pages are never empty and never hold more than `PAGE_SIZE` items; all
/// but the last are full; and page after page they hold every item once,
/// in order.
pub proof fn lemma_paged<T>(items: Seq<T>)
    ensures
        paged(items).len() == 0 <==> items.len() == 0,
        forall|p: int|
            0 <= p < paged(items).len() ==> 0 < (#[trigger] paged(items)[p]).len() <= PAGE_SIZE,
        forall|p: int|
            0 <= p < paged(items).len() - 1 ==> (#[trigger] paged(items)[p]).len() == PAGE_SIZE,
        forall|i: int|
            0 <= i < items.len() ==> i / (PAGE_SIZE as int) < paged(items).len() && paged(
                items,
            )[i / (PAGE_SIZE as int)][i % (PAGE_SIZE as int)] == #[trigger] items[i],
{
}

fn copy_field(field: &Field) -> (copy: Field)
    ensures
        copy@ == field@,
{
    Field { name: field.name.clone(), value: field.value.clone(), inline: field.inline }
}

/// Cuts a list of fields into pages of `PAGE_SIZE`.
pub fn paginate(items: &Vec<Field>) -> (pages: Vec<Vec<Field>>)
    ensures
        page_views(pages@) == paged(field_views(items@)),
{
    let ghost all = field_views(items@);
    let mut pages: Vec<Vec<Field>> = Vec::new();
    let mut start: usize = 0;
    while start < items.len()
        invariant
            start <= items.len(),
            all == field_views(items@),
            pages.len() <= page_count_of(all.len()),
            start == items.len() ==> pages.len() == page_count_of(all.len()),
            start < items.len() ==> start == pages.len() * PAGE_SIZE,
            forall|p: int|
                0 <= p < pages.len() ==> field_views(#[trigger] pages@[p]@) == paged(all)[p],
        decreases items.len() - start,
    {
        let end: usize = if items.len() - start > PAGE_SIZE {
            start + PAGE_SIZE
        } else {
            items.len()
        };
        let mut page: Vec<Field> = Vec::new();
        let mut k: usize = start;
        while k < end
            invariant
                start <= k <= end <= items.len(),
                all == field_views(items@),
                field_views(page@) == all.subrange(start as int, k as int),
            decreases end - k,
        {
            let ghost before = page@;
            let copy = copy_field(&items[k]);
            page.push(copy);
            k += 1;
            proof {
                lemma_field_views_push(before, copy);
            }
        }
        pages.push(page);
        start = end;
    }
    pages
}

/// One page of a list as an embed: the title, the page's fields, and the
/// page indicator where there is one.
pub open spec fn page_embed_of(title: Seq<char>, fields: Seq<FieldView>, footer: Option<Seq<char>>)
    -> EmbedView {
    EmbedView {
        title: Some(title),
        colour: Some(LIST_COLOUR),
        fields,
        footer,
        ..EmbedView::empty()
    }
}

/// Builds the embed of one page of a list.
pub fn page_embed(title: &str, fields: &Vec<Field>, footer: Option<String>) -> (embed: Embed)
    ensures
        embed@ == page_embed_of(title@, field_views(fields@), opt_view(footer)),
{
    let mut shown: Vec<Field> = Vec::new();
    let mut k: usize = 0;
    while k < fields.len()
        invariant
            k <= fields.len(),
            field_views(shown@) == field_views(fields@).take(k as int),
        decreases fields.len() - k,
    {
        let ghost before = shown@;
        let copy = copy_field(&fields[k]);
        shown.push(copy);
        k += 1;
        proof {
            lemma_field_views_push(before, copy);
        }
    }
    assert(field_views(fields@).take(k as int) =~= field_views(fields@));
    let mut embed = Embed::new();
    embed.title = Some(title.to_owned());
    embed.colour = Some(LIST_COLOUR);
    embed.fields = shown;
    embed.footer = footer;
    embed
}

/// The fields that list snippets: id and title, side by side.
pub open spec fn snippet_fields_of(snippets: Seq<SnippetView>) -> Seq<FieldView> {
    snippets.map_values(|s: SnippetView| FieldView { name: s.id, value: s.title, inline: true })
}

/// Builds the fields that list `snippets`.
pub fn snippet_fields(snippets: &Vec<Snippet>) -> (fields: Vec<Field>)
    ensures
        field_views(fields@) == snippet_fields_of(snippet_views(snippets@)),
{
    let mut fields: Vec<Field> = Vec::new();
    let mut k: usize = 0;
    while k < snippets.len()
        invariant
            k <= snippets.len(),
            field_views(fields@) == snippet_fields_of(snippet_views(snippets@)).take(k as int),
        decreases snippets.len() - k,
    {
        let ghost before = fields@;
        let field = Field {
            name: snippets[k].id.clone(),
            value: snippets[k].title.clone(),
            inline: true,
        };
        fields.push(field);
        k += 1;
        proof {
            lemma_field_views_push(before, field);
        }
    }
    fields
}

/// The fields that list repository aliases: the key, and the repository as
/// name and owner around a slash, side by side.
pub open spec fn alias_fields_of(listing: Seq<(Seq<char>, RepositoryDetailsView)>) -> Seq<
    FieldView,
> {
    listing.map_values(
        |entry: (Seq<char>, RepositoryDetailsView)|
            FieldView { name: entry.0, value: entry.1.name + "/"@ + entry.1.owner, inline: true },
    )
}

/// Builds the fields that list `aliases`.
pub fn alias_fields(aliases: &Aliases) -> (fields: Vec<Field>)
    ensures
        field_views(fields@) == alias_fields_of(aliases.listing()),
{
    let mut fields: Vec<Field> = Vec::new();
    let mut k: usize = 0;
    while k < aliases.len()
        invariant
            k <= aliases.listing().len(),
            field_views(fields@) == alias_fields_of(aliases.listing()).take(k as int),
        decreases aliases.listing().len() - k,
    {
        let ghost before = fields@;
        match aliases.entry(k) {
            Some(entry) => {
                let mut value = entry.details.name.clone();
                value.append("/");
                value.append(entry.details.owner.as_str());
                let field = Field { name: entry.key.clone(), value, inline: true };
                fields.push(field);
                proof {
                    lemma_field_views_push(before, field);
                }
            },
            None => {},
        }
        k += 1;
    }
    fields
}

/// The fields that sum up repository aliases: the key in bold, and the
/// repository as owner and name around a slash, one below the other.
pub open spec fn alias_summary_of(listing: Seq<(Seq<char>, RepositoryDetailsView)>) -> Seq<
    FieldView,
> {
    listing.map_values(
        |entry: (Seq<char>, RepositoryDetailsView)|
            FieldView {
                name: "**"@ + entry.0 + "**"@,
                value: entry.1.owner + "/"@ + entry.1.name,
                inline: false,
            },
    )
}

/// Builds the embed that sums up `aliases`.
pub fn alias_summary(aliases: &Aliases) -> (embed: Embed)
    ensures
        embed@ == (EmbedView {
            title: Some("Issue tokens"@),
            colour: Some(LIST_COLOUR),
            fields: alias_summary_of(aliases.listing()),
            ..EmbedView::empty()
        }),
{
    let mut fields: Vec<Field> = Vec::new();
    let mut k: usize = 0;
    while k < aliases.len()
        invariant
            k <= aliases.listing().len(),
            field_views(fields@) == alias_summary_of(aliases.listing()).take(k as int),
        decreases aliases.listing().len() - k,
    {
        let ghost before = fields@;
        match aliases.entry(k) {
            Some(entry) => {
                let mut name = "**".to_owned();
                name.append(entry.key.as_str());
                name.append("**");
                let mut value = entry.details.owner.clone();
                value.append("/");
                value.append(entry.details.name.as_str());
                let field = Field { name, value, inline: false };
                fields.push(field);
                proof {
                    lemma_field_views_push(before, field);
                }
            },
            None => {},
        }
        k += 1;
    }
    assert(alias_summary_of(aliases.listing()).take(k as int) =~= alias_summary_of(
        aliases.listing(),
    ));
    let mut embed = Embed::new();
    embed.title = Some("Issue tokens".to_owned());
    embed.colour = Some(LIST_COLOUR);
    embed.fields = fields;
    embed
}

/// The page that follows `page`, wrapping to the first after the last.
pub open spec fn next_page(page: nat, pages: nat) -> nat {
    if page + 1 >= pages {
        0
    } else {
        page + 1
    }
}

/// The page that precedes `page`, wrapping to the last before the first.
pub open spec fn previous_page(page: nat, pages: nat) -> nat {
    if page == 0 {
        (pages - 1) as nat
    } else {
        (page - 1) as nat
    }
}

/// The footer of page `page` (counted from zero) out of `pages`.
pub open spec fn page_footer(page: nat, pages: nat) -> Seq<char> {
    "Page: "@ + decimal(page + 1) + "/"@ + decimal(pages)
}

/// What the caller does after handing an event to a [`Pager`].
#[derive(Clone, Copy, Debug, PartialEq, Eq, Structural)]
pub enum PagerAction {
    /// Nothing: the event is not for this session, or changes nothing.
    Ignore,
    /// Replace the message's content by the given page, in place.
    ShowPage(usize),
    /// Edit the message to the given page without any controls.
    RemoveControls(usize),
}

/// The interactive session of one paged reply.
///
/// A pager is active from the moment the reply is sent until its wait for
/// a button press times out. While active it tracks the page on show.
pub struct Pager {
    ctx_id: String,
    pages: usize,
    page: usize,
    timed_out: bool,
}

impl Pager {
    #[verifier::type_invariant]
    spec fn inv(self) -> bool {
        self.is_valid()
    }

    /// A pager always has at least one page and shows one of its pages.
    pub closed spec fn is_valid(self) -> bool {
        0 < self.pages && self.page < self.pages
    }

    /// The session id that prefixes the ids of this reply's buttons.
    pub closed spec fn session(self) -> Seq<char> {
        self.ctx_id@
    }

    /// Number of pages.
    pub closed spec fn page_count(self) -> nat {
        self.pages as nat
    }

    /// Index of the page on show, counted from zero.
    pub closed spec fn current(self) -> nat {
        self.page as nat
    }

    /// Whether the wait for a button press has timed out.
    pub closed spec fn is_timed_out(self) -> bool {
        self.timed_out
    }

    /// Whether the reply carries previous and next buttons, and so whether
    /// the session listens to events at all.
    pub open spec fn paginates(self) -> bool {
        self.page_count() > 1
    }

    /// The state after the button `kind` was pressed while page `current` of
    /// `pages` was on show.
    pub open spec fn turned(kind: Kind, current: nat, pages: nat) -> nat {
        match kind {
            Kind::Next => next_page(current, pages),
            Kind::Previous => previous_page(current, pages),
        }
    }

    /// Starts a session on the first page. The session id is the decimal
    /// form of `ctx_id`. There is no pager for an empty list of pages.
    pub fn new(ctx_id: u64, pages: usize) -> (pager: Option<Pager>)
        ensures
            pager is Some <==> pages > 0,
            pager matches Some(p) ==> {
                &&& p.is_valid()
                &&& p.session() == decimal(ctx_id as nat)
                &&& all_digits(p.session())
                &&& p.page_count() == pages
                &&& p.current() == 0
                &&& !p.is_timed_out()
            },
    {
        if pages == 0 {
            None
        } else {
            proof {
                lemma_decimal_round_trip(ctx_id as nat);
            }
            Some(Pager { ctx_id: decimal_string(ctx_id), pages, page: 0, timed_out: false })
        }
    }

    /// Index of the page on show.
    pub fn current_page(&self) -> (page: usize)
        ensures
            page == self.current(),
            page < self.page_count(),
    {
        proof {
            use_type_invariant(self);
        }
        self.page
    }

    /// Number of pages.
    pub fn total_pages(&self) -> (pages: usize)
        ensures
            pages == self.page_count(),
            pages > 0,
    {
        proof {
            use_type_invariant(self);
        }
        self.pages
    }

    /// Whether the reply carries pagination controls: a single page is
    /// shown without any.
    pub fn has_controls(&self) -> (controls: bool)
        ensures
            controls == self.paginates(),
    {
        self.pages > 1
    }

    /// The id of the button `kind` on this reply.
    pub fn button_id(&self, kind: Kind) -> (id: String)
        ensures
            id@ == kind.id_in(self.session()),
            Kind::decode(id@, self.session()) == Some(kind),
    {
        let mut id = self.ctx_id.clone();
        match kind {
            Kind::Next => {
                proof {
                    reveal_strlit("next");
                }
                id.append("next");
            },
            Kind::Previous => {
                proof {
                    reveal_strlit("prev");
                }
                id.append("prev");
            },
        }
        proof {
            lemma_concat_cancel(self.session(), Kind::Next.suffix(), Kind::Previous.suffix());
        }
        id
    }

    /// The buttons under the reply: previous and next where it paginates
    /// and the session is live, and none otherwise.
    pub open spec fn controls_of(self) -> Seq<ButtonView> {
        if self.paginates() && !self.is_timed_out() {
            seq![
                ButtonView {
                    id: Kind::Previous.id_in(self.session()),
                    label: None,
                    emoji: Some('\u{25c0}'),
                    danger: false,
                },
                ButtonView {
                    id: Kind::Next.id_in(self.session()),
                    label: None,
                    emoji: Some('\u{25b6}'),
                    danger: false,
                },
            ]
        } else {
            Seq::empty()
        }
    }

    /// The buttons that the reply carries now: see [`Pager::controls_of`].
    pub fn controls(&self) -> (buttons: Vec<Button>)
        ensures
            button_views(buttons@) == self.controls_of(),
    {
        let mut buttons: Vec<Button> = Vec::new();
        if self.pages > 1 && !self.timed_out {
            buttons.push(
                Button {
                    id: self.button_id(Kind::Previous),
                    label: None,
                    emoji: Some('\u{25c0}'),
                    danger: false,
                },
            );
            buttons.push(
                Button {
                    id: self.button_id(Kind::Next),
                    label: None,
                    emoji: Some('\u{25b6}'),
                    danger: false,
                },
            );
        }
        buttons
    }

    /// The page indicator, present only where the reply paginates.
    pub fn footer(&self) -> (footer: Option<String>)
        ensures
            footer is Some <==> self.paginates(),
            footer matches Some(f) ==> f@ == page_footer(self.current(), self.page_count()),
    {
        proof {
            use_type_invariant(self);
        }
        if self.pages > 1 {
            let mut footer = "Page: ".to_owned();
            let shown = decimal_string((self.page + 1) as u64);
            footer.append(shown.as_str());
            footer.append("/");
            let total = decimal_string(self.pages as u64);
            footer.append(total.as_str());
            Some(footer)
        } else {
            None
        }
    }

    /// Whether an event with this button id is let through to the session:
    /// the id carries the session id as its prefix.
    pub fn accepts(&self, custom_id: &str) -> (accepted: bool)
        ensures
            accepted == has_prefix(custom_id@, self.session()),
    {
        let id_chars = chars_of(custom_id);
        let ctx_chars = chars_of(self.ctx_id.as_str());
        begins_with(&id_chars, &ctx_chars)
    }

    /// Handles a pressed button.
    ///
    /// While the session is active and paginates, `next` and `prev` turn the
    /// page with wraparound and ask for the new page to be shown. Any other
    /// id, and any press on a session that does not paginate or has timed
    /// out, is ignored and leaves the session as it was.
    pub fn press(&mut self, custom_id: &str) -> (action: PagerAction)
        ensures
            final(self).session() == old(self).session(),
            final(self).page_count() == old(self).page_count(),
            final(self).is_timed_out() == old(self).is_timed_out(),
            match Kind::decode(custom_id@, old(self).session()) {
                Some(kind) if old(self).paginates() && !old(self).is_timed_out() => {
                    &&& final(self).current() == Pager::turned(
                        kind,
                        old(self).current(),
                        old(self).page_count(),
                    )
                    &&& action == PagerAction::ShowPage(final(self).current() as usize)
                },
                _ => {
                    &&& final(self).current() == old(self).current()
                    &&& action == PagerAction::Ignore
                },
            },
    {
        proof {
            use_type_invariant(&*self);
        }
        if self.timed_out || self.pages <= 1 {
            return PagerAction::Ignore;
        }
        match Kind::from_id(custom_id, self.ctx_id.as_str()) {
            Some(Kind::Next) => {
                if self.page + 1 >= self.pages {
                    self.page = 0;
                } else {
                    self.page = self.page + 1;
                }
                PagerAction::ShowPage(self.page)
            },
            Some(Kind::Previous) => {
                if self.page == 0 {
                    self.page = self.pages - 1;
                } else {
                    self.page = self.page - 1;
                }
                PagerAction::ShowPage(self.page)
            },
            None => PagerAction::Ignore,
        }
    }

    /// Ends the session after the wait for a press has timed out.
    ///
    /// The first timeout of a paginating session asks for the controls to be
    /// removed from the message, which keeps showing the current page.
    /// Nothing else has a visible effect.
    pub fn time_out(&mut self) -> (action: PagerAction)
        ensures
            final(self).session() == old(self).session(),
            final(self).page_count() == old(self).page_count(),
            final(self).current() == old(self).current(),
            final(self).is_timed_out(),
            action == if old(self).paginates() && !old(self).is_timed_out() {
                PagerAction::RemoveControls(old(self).current() as usize)
            } else {
                PagerAction::Ignore
            },
    {
        proof {
            use_type_invariant(&*self);
        }
        let first = !self.timed_out;
        self.timed_out = true;
        if first && self.pages > 1 {
            PagerAction::RemoveControls(self.page)
        } else {
            PagerAction::Ignore
        }
    }
}

/// `Next` from the last page shows the first page, `Previous` from the
/// first page shows the last, and every turn stays within the pages.
pub proof fn lemma_pages_wrap(page: nat, pages: nat)
    requires
        page < pages,
    ensures
        next_page((pages - 1) as nat, pages) == 0,
        previous_page(0, pages) == pages - 1,
        next_page(page, pages) < pages,
        previous_page(page, pages) < pages,
{
}

/// Sessions do not answer each other's buttons: with session ids written
/// in digits, a button id of one session names a button in another session
/// only if the two sessions are the same, and then it names itself.
pub proof fn lemma_buttons_belong_to_one_session(kind: Kind, own: Seq<char>, other: Seq<char>)
    requires
        all_digits(own),
        all_digits(other),
    ensures
        Kind::decode(kind.id_in(own), own) == Some(kind),
        Kind::decode(kind.id_in(own), other) is Some ==> own == other,
{
    lemma_concat_cancel(own, Kind::Next.suffix(), Kind::Previous.suffix());
    if Kind::decode(kind.id_in(own), other) is Some {
        let named = Kind::decode(kind.id_in(own), other)->0;
        lemma_digits_then_rest(own, kind.suffix(), other, named.suffix());
    }
}

/// `Next` and `Previous` undo each other.
pub proof fn lemma_turns_are_inverse(page: nat, pages: nat)
    requires
        page < pages,
    ensures
        previous_page(next_page(page, pages), pages) == page,
        next_page(previous_page(page, pages), pages) == page,
{
}

} // verus!
