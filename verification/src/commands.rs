//! What the bot's commands decide before they answer: which embed a
//! request describes, how an edit changes an embed, and whether an alias is
//! acceptable.

use vstd::prelude::*;
use vstd::string::StringExecFns;
use crate::embed::{opt_view, Embed};
use crate::pattern::{is_match_of, regex_compiles, regex_is_match};
use crate::structures::{BotState, RepositoryDetails, RepositoryDetailsView, Snippet, SnippetView};
use crate::text::{chars_of, lowercase, same_chars, string_of, to_lowercase};

verus! {

/// Why a text is no hexadecimal number.
#[derive(Clone, Copy, Debug, PartialEq, Eq)]
pub enum HexError {
    /// The character at `index` is no hexadecimal digit.
    InvalidHexCharacter { c: char, index: usize },
    /// The digits do not come in pairs.
    OddLength,
    /// The digits do not fill the place meant for them.
    InvalidStringLength,
}

/// The number that a hexadecimal digit writes.
pub open spec fn hex_value(digit: u8) -> Option<u8> {
    if 0x30 <= digit <= 0x39 {
        Some((digit - 0x30) as u8)
    } else if 0x61 <= digit <= 0x66 {
        Some((digit - 0x61 + 10) as u8)
    } else if 0x41 <= digit <= 0x46 {
        Some((digit - 0x41 + 10) as u8)
    } else {
        None
    }
}

/// Whether `outcome` is what decoding the hexadecimal digits `data` gives.
///
/// An odd number of digits is refused first. Then the first character that
/// is no digit is reported with its position. Otherwise every pair of
/// digits gives one byte, the first digit being the high half.
pub open spec fn is_hex_decoding(data: Seq<u8>, outcome: Result<Seq<u8>, HexError>) -> bool {
    match outcome {
        Ok(bytes) => {
            &&& data.len() % 2 == 0
            &&& bytes.len() == data.len() / 2
            &&& forall|i: int| 0 <= i < data.len() ==> hex_value(#[trigger] data[i]) is Some
            &&& forall|k: int|
                0 <= k < bytes.len() ==> (#[trigger] bytes[k]) == hex_value(data[2 * k])->0 * 16
                    + hex_value(data[2 * k + 1])->0
        },
        Err(HexError::OddLength) => data.len() % 2 == 1,
        Err(HexError::InvalidHexCharacter { c, index }) => {
            &&& data.len() % 2 == 0
            &&& index < data.len()
            &&& hex_value(data[index as int]) is None
            &&& c == data[index as int] as char
            &&& forall|i: int| 0 <= i < index ==> hex_value(#[trigger] data[i]) is Some
        },
        Err(HexError::InvalidStringLength) => false,
    }
}

/// The bytes of a decoding outcome as a sequence.
pub open spec fn hex_outcome_view(outcome: Result<Vec<u8>, HexError>) -> Result<
    Seq<u8>,
    HexError,
> {
    match outcome {
        Ok(bytes) => Ok(bytes@),
        Err(e) => Err(e),
    }
}

/// `hex::decode`, with its error carried over variant by variant.
#[verifier::external_body]
pub(crate) fn hex_decode(data: &Vec<u8>) -> (outcome: Result<Vec<u8>, HexError>)
    ensures
        is_hex_decoding(data@, hex_outcome_view(outcome)),
{
    hex::decode(data).map_err(
        |e|
            match e {
                hex::FromHexError::InvalidHexCharacter { c, index } => {
                    HexError::InvalidHexCharacter { c, index }
                },
                hex::FromHexError::OddLength => HexError::OddLength,
                hex::FromHexError::InvalidStringLength => HexError::InvalidStringLength,
            },
    )
}

/// Why a text is no colour.
#[derive(Clone, Copy, Debug, PartialEq, Eq)]
pub enum ColourError {
    /// It is no hexadecimal number.
    Hex(HexError),
    /// It holds fewer than the three bytes of red, green and blue.
    TooShort,
}

/// An ASCII capital letter in lowercase, any other byte unchanged.
pub open spec fn ascii_lower(b: u8) -> u8 {
    if 0x41 <= b <= 0x5a {
        (b + 32) as u8
    } else {
        b
    }
}

/// The digits of a colour as they are decoded: in lowercase and without
/// hash signs.
pub open spec fn colour_digits(bytes: Seq<u8>) -> Seq<u8>
    decreases bytes.len(),
{
    if bytes.len() == 0 {
        Seq::empty()
    } else {
        let front = colour_digits(bytes.drop_last());
        if bytes.last() == 0x23 {
            front
        } else {
            front.push(ascii_lower(bytes.last()))
        }
    }
}

/// The colour with the given red, green and blue.
pub open spec fn rgb(red: u8, green: u8, blue: u8) -> u32 {
    (red * 65536 + green * 256 + blue) as u32
}

/// Whether `outcome` is what reading `text`, taken as UTF-8, as a colour gives:
/// the first three bytes of its decoded digits as red, green and blue.
pub open spec fn is_colour_reading(text: Seq<char>, outcome: Result<u32, ColourError>) -> bool {
    let digits = colour_digits(vstd::utf8::encode_utf8(text));
    match outcome {
        Ok(colour) => exists|bytes: Seq<u8>|
            #[trigger] is_hex_decoding(digits, Ok(bytes)) && bytes.len() >= 3 && colour == rgb(
                bytes[0],
                bytes[1],
                bytes[2],
            ),
        Err(ColourError::TooShort) => exists|bytes: Seq<u8>|
            #[trigger] is_hex_decoding(digits, Ok(bytes)) && bytes.len() < 3,
        Err(ColourError::Hex(e)) => is_hex_decoding(digits, Err(e)),
    }
}

/// Reads a colour written as hexadecimal digits, such as `ff00ff`. Capital
/// letters and hash signs are accepted; what follows the first six digits
/// is decoded but not used.
pub fn parse_colour(text: &str) -> (colour: Result<u32, ColourError>)
    ensures
        is_colour_reading(text@, colour),
{
    let bytes = text.as_bytes();
    let mut digits: Vec<u8> = Vec::new();
    let mut i: usize = 0;
    while i < bytes.len()
        invariant
            i <= bytes.len(),
            digits@ == colour_digits(bytes@.take(i as int)),
        decreases bytes.len() - i,
    {
        let b = bytes[i];
        proof {
            assert(bytes@.take(i + 1).drop_last() == bytes@.take(i as int));
        }
        if b != 0x23 {
            if 0x41 <= b && b <= 0x5a {
                digits.push(b + 32);
            } else {
                digits.push(b);
            }
        }
        i += 1;
    }
    proof {
        assert(bytes@.take(i as int) == bytes@);
    }
    match hex_decode(&digits) {
        Ok(decoded) => {
            if decoded.len() < 3 {
                Err(ColourError::TooShort)
            } else {
                let red = decoded[0] as u32;
                let green = decoded[1] as u32;
                let blue = decoded[2] as u32;
                Ok(red * 65536 + green * 256 + blue)
            }
        },
        Err(e) => Err(ColourError::Hex(e)),
    }
}

/// A text with every backslash followed by the letter n turned into a line
/// feed, read from left to right.
pub open spec fn unescaped(text: Seq<char>) -> Seq<char>
    decreases text.len(),
{
    if text.len() == 0 {
        Seq::empty()
    } else if text.len() >= 2 && text[0] == '\\' && text[1] == 'n' {
        seq!['\n'] + unescaped(text.skip(2))
    } else {
        seq![text[0]] + unescaped(text.skip(1))
    }
}

/// A text with every line feed turned into a backslash followed by the
/// letter n.
pub open spec fn escaped(text: Seq<char>) -> Seq<char>
    decreases text.len(),
{
    if text.len() == 0 {
        Seq::empty()
    } else if text[0] == '\n' {
        seq!['\\', 'n'] + escaped(text.skip(1))
    } else {
        seq![text[0]] + escaped(text.skip(1))
    }
}

/// Turns every written-out `\n` into a line feed.
pub fn unescape_newlines(text: &str) -> (plain: String)
    ensures
        plain@ == unescaped(text@),
{
    let chars = chars_of(text);
    let mut out: Vec<char> = Vec::new();
    let mut i: usize = 0;
    assert(chars@.skip(0) =~= chars@);
    while i < chars.len()
        invariant
            i <= chars.len(),
            out@ + unescaped(chars@.skip(i as int)) == unescaped(chars@),
        decreases chars.len() - i,
    {
        let ghost rest = chars@.skip(i as int);
        if chars[i] == '\\' && i + 1 < chars.len() && chars[i + 1] == 'n' {
            out.push('\n');
            proof {
                assert(rest.skip(2) =~= chars@.skip(i + 2));
            }
            i += 2;
        } else {
            out.push(chars[i]);
            proof {
                assert(rest.skip(1) =~= chars@.skip(i + 1));
            }
            i += 1;
        }
    }
    string_of(&out)
}

/// Writes every line feed out as `\n`.
pub fn escape_newlines(text: &str) -> (written: String)
    ensures
        written@ == escaped(text@),
{
    let chars = chars_of(text);
    let mut out: Vec<char> = Vec::new();
    let mut i: usize = 0;
    assert(chars@.skip(0) =~= chars@);
    while i < chars.len()
        invariant
            i <= chars.len(),
            out@ + escaped(chars@.skip(i as int)) == escaped(chars@),
        decreases chars.len() - i,
    {
        let ghost rest = chars@.skip(i as int);
        if chars[i] == '\n' {
            out.push('\\');
            out.push('n');
        } else {
            out.push(chars[i]);
        }
        proof {
            assert(rest.skip(1) =~= chars@.skip(i + 1));
        }
        i += 1;
    }
    string_of(&out)
}

/// Escaping the line feeds of a text that holds no backslash and
/// unescaping the result gives the text back.
pub proof fn lemma_escape_round_trip(text: Seq<char>)
    requires
        !text.contains('\\'),
    ensures
        unescaped(escaped(text)) == text,
    decreases text.len(),
{
    if text.len() > 0 {
        let rest = text.skip(1);
        lemma_escape_round_trip(rest);
        let written = escaped(text);
        if text[0] == '\n' {
            assert(written.skip(2) =~= escaped(rest));
        } else {
            assert(written.skip(1) =~= escaped(rest));
        }
    }
}

/// A new snippet: id and title as given, and the content with its
/// written-out line feeds made real.
pub fn new_snippet(id: String, title: String, content: &str) -> (snippet: Snippet)
    ensures
        snippet@ == (SnippetView { id: id@, title: title@, content: unescaped(content@) }),
{
    Snippet { id, title, content: unescape_newlines(content) }
}

/// A snippet after an edit: a new title replaces the old one, and a new
/// content replaces the old one once its written-out line feeds are made
/// real. What is not given stays.
pub fn edit_snippet(snippet: &Snippet, title: Option<String>, content: Option<&str>) -> (edited:
    Snippet)
    ensures
        edited@.id == snippet@.id,
        edited@.title == match title {
            Some(t) => t@,
            None => snippet@.title,
        },
        edited@.content == match content {
            Some(c) => unescaped(c@),
            None => snippet@.content,
        },
{
    Snippet {
        id: snippet.id.clone(),
        title: match title {
            Some(t) => t,
            None => snippet.title.clone(),
        },
        content: match content {
            Some(c) => unescape_newlines(c),
            None => snippet.content.clone(),
        },
    }
}

/// Where to look when an argument cannot be read and the command has no
/// help text of its own.
pub const DEFAULT_USAGE: &'static str = "Please check the help menu for usage information";

/// What a user is told when an argument cannot be read: the input, where
/// there is one, the error, and on a line of its own how the command is
/// used.
pub open spec fn argument_error_of(
    input: Option<Seq<char>>,
    error: Seq<char>,
    usage: Option<Seq<char>>,
) -> Seq<char> {
    let usage = match usage {
        Some(text) => text,
        None => DEFAULT_USAGE@,
    };
    match input {
        Some(input) => "**Cannot parse `"@ + input + "` as argument: "@ + error + "**\n"@ + usage,
        None => "### "@ + error + "\n"@ + usage,
    }
}

/// Writes what a user is told when an argument cannot be read.
pub fn argument_error(input: Option<&str>, error: &str, usage: Option<&str>) -> (text: String)
    ensures
        text@ == argument_error_of(
            match input {
                Some(i) => Some(i@),
                None => None,
            },
            error@,
            match usage {
                Some(u) => Some(u@),
                None => None,
            },
        ),
{
    let usage = match usage {
        Some(text) => text,
        None => DEFAULT_USAGE,
    };
    let mut text = String::new();
    match input {
        Some(input) => {
            text.append("**Cannot parse `");
            text.append(input);
            text.append("` as argument: ");
            text.append(error);
            text.append("**\n");
        },
        None => {
            text.append("### ");
            text.append(error);
            text.append("\n");
        },
    }
    text.append(usage);
    text
}

/// Whether a message is looked at for references: it must come from a
/// person, not a bot, and must have been sent in a guild.
pub fn handles_message(author_is_bot: bool, in_guild: bool) -> (handled: bool)
    ensures
        handled == (!author_is_bot && in_guild),
{
    !author_is_bot && in_guild
}

/// What a user asks an embed to hold.
#[derive(Clone, Debug, PartialEq, Eq)]
pub struct EmbedRequest {
    pub title: Option<String>,
    pub description: Option<String>,
    pub color: Option<String>,
    pub url: Option<String>,
    pub image: Option<String>,
    pub footer: Option<String>,
    pub thumbnail: Option<String>,
}

/// Why a request for an embed is refused.
#[derive(Clone, Copy, Debug, PartialEq, Eq, Structural)]
pub enum EmbedRefusal {
    /// It asks for neither title, description, image, footer nor thumbnail.
    NothingToShow,
    /// It gives a url but no title to carry it.
    UrlWithoutTitle,
}

/// An embed to send, and what was wrong with the colour asked for, if
/// anything: then the embed goes out without a colour.
#[derive(Clone, Debug, PartialEq, Eq)]
pub struct EmbedPlan {
    pub embed: Embed,
    pub colour_error: Option<ColourError>,
}

impl EmbedRequest {
    /// Why the request is refused, if it is.
    pub open spec fn refusal(&self) -> Option<EmbedRefusal> {
        if self.title is None && self.description is None && self.image is None
            && self.thumbnail is None && self.footer is None {
            Some(EmbedRefusal::NothingToShow)
        } else if self.url is Some && self.title is None {
            Some(EmbedRefusal::UrlWithoutTitle)
        } else {
            None
        }
    }
}

fn copy_text(text: &Option<String>) -> (copy: Option<String>)
    ensures
        copy == *text,
{
    match text {
        Some(t) => Some(t.clone()),
        None => None,
    }
}

/// Decides which embed a request describes.
///
/// The embed takes title, image, footer and thumbnail as they are, and the
/// description with its written-out line feeds made real. It takes the
/// colour where that can be read; where it cannot, the error is reported
/// beside the embed.
pub fn plan_embed(request: &EmbedRequest) -> (plan: Result<EmbedPlan, EmbedRefusal>)
    ensures
        match plan {
            Err(refusal) => request.refusal() == Some(refusal),
            Ok(plan) => {
                &&& request.refusal() is None
                &&& plan.embed@.title == opt_view(request.title)
                &&& plan.embed@.description == match request.description {
                    Some(d) => Some(unescaped(d@)),
                    None => None,
                }
                &&& plan.embed@.image == opt_view(request.image)
                &&& plan.embed@.footer == opt_view(request.footer)
                &&& plan.embed@.thumbnail == opt_view(request.thumbnail)
                &&& plan.embed@.url is None
                &&& plan.embed@.author is None
                &&& plan.embed@.fields.len() == 0
                &&& match request.color {
                    None => plan.embed@.colour is None && plan.colour_error is None,
                    Some(text) => match plan.colour_error {
                        None => plan.embed@.colour matches Some(c) && is_colour_reading(
                            text@,
                            Ok(c),
                        ),
                        Some(e) => plan.embed@.colour is None && is_colour_reading(
                            text@,
                            Err(e),
                        ),
                    },
                }
            },
        },
{
    if request.title.is_none() && request.description.is_none() && request.image.is_none()
        && request.thumbnail.is_none() && request.footer.is_none() {
        return Err(EmbedRefusal::NothingToShow);
    }
    if request.url.is_some() && request.title.is_none() {
        return Err(EmbedRefusal::UrlWithoutTitle);
    }
    let mut embed = Embed::new();
    embed.title = copy_text(&request.title);
    embed.description = match &request.description {
        Some(d) => Some(unescape_newlines(d.as_str())),
        None => None,
    };
    embed.image = copy_text(&request.image);
    embed.footer = copy_text(&request.footer);
    embed.thumbnail = copy_text(&request.thumbnail);
    let mut colour_error: Option<ColourError> = None;
    match &request.color {
        Some(text) => {
            match parse_colour(text.as_str()) {
                Ok(colour) => {
                    embed.colour = Some(colour);
                },
                Err(e) => {
                    colour_error = Some(e);
                },
            }
        },
        None => {},
    }
    Ok(EmbedPlan { embed, colour_error })
}

/// What an edit makes of one part of an embed: a new text replaces the old
/// one, a lone underscore removes it, and nothing keeps it.
pub open spec fn edited(new: Option<Seq<char>>, old: Option<Seq<char>>) -> Option<Seq<char>> {
    match new {
        Some(text) => if text == seq!['_'] {
            None
        } else {
            Some(text)
        },
        None => old,
    }
}

fn is_underscore(text: &str) -> (lone: bool)
    ensures
        lone == (text@ == seq!['_']),
{
    let chars = chars_of(text);
    let underscore = vec!['_'];
    assert(underscore@ =~= seq!['_']);
    same_chars(&chars, &underscore)
}

fn edit_text(new: &Option<String>, old: &Option<String>) -> (text: Option<String>)
    ensures
        opt_view(text) == edited(opt_view(*new), opt_view(*old)),
{
    match new {
        Some(t) => {
            if is_underscore(t.as_str()) {
                None
            } else {
                Some(t.clone())
            }
        },
        None => copy_text(old),
    }
}

/// Why a message cannot be edited as an embed.
#[derive(Clone, Copy, Debug, PartialEq, Eq, Structural)]
pub enum EditRefusal {
    /// The message did not come from a command.
    NotAnInteraction,
    /// The message came from another command than the one that makes
    /// embeds.
    NotAnEmbedInteraction,
}

/// Whether a message can be edited as an embed: it must come from the
/// command named `embed`.
pub fn check_editable(interaction_name: Option<&str>) -> (checked: Result<(), EditRefusal>)
    ensures
        checked == match interaction_name {
            None => Err::<(), EditRefusal>(EditRefusal::NotAnInteraction),
            Some(name) => if name@ == "embed"@ {
                Ok(())
            } else {
                Err(EditRefusal::NotAnEmbedInteraction)
            },
        },
{
    match interaction_name {
        None => Err(EditRefusal::NotAnInteraction),
        Some(name) => {
            let given = name.to_owned();
            let wanted = "embed".to_owned();
            if given == wanted {
                Ok(())
            } else {
                Err(EditRefusal::NotAnEmbedInteraction)
            }
        },
    }
}

/// Decides what an edit makes of an embed.
///
/// Title, description, url, image, footer and thumbnail each follow
/// [`edited`]. A colour that can be read replaces the old one; one that
/// cannot, or a lone underscore, leaves the embed without colour, and the
/// error is reported beside the embed; no colour keeps the old one. Author
/// and fields are not carried over.
pub fn plan_edit(existing: &Embed, request: &EmbedRequest) -> (plan: EmbedPlan)
    ensures
        plan.embed@.title == edited(opt_view(request.title), existing@.title),
        plan.embed@.description == edited(opt_view(request.description), existing@.description),
        plan.embed@.url == edited(opt_view(request.url), existing@.url),
        plan.embed@.image == edited(opt_view(request.image), existing@.image),
        plan.embed@.footer == edited(opt_view(request.footer), existing@.footer),
        plan.embed@.thumbnail == edited(opt_view(request.thumbnail), existing@.thumbnail),
        plan.embed@.author is None,
        plan.embed@.fields.len() == 0,
        match request.color {
            None => plan.embed@.colour == existing@.colour && plan.colour_error is None,
            Some(text) => if text@ == seq!['_'] {
                plan.embed@.colour is None && plan.colour_error is None
            } else {
                match plan.colour_error {
                    None => plan.embed@.colour matches Some(c) && is_colour_reading(
                        text@,
                        Ok(c),
                    ),
                    Some(e) => plan.embed@.colour is None && is_colour_reading(
                        text@,
                        Err(e),
                    ),
                }
            },
        },
{
    let mut embed = Embed::new();
    embed.title = edit_text(&request.title, &existing.title);
    embed.description = edit_text(&request.description, &existing.description);
    embed.url = edit_text(&request.url, &existing.url);
    embed.image = edit_text(&request.image, &existing.image);
    embed.footer = edit_text(&request.footer, &existing.footer);
    embed.thumbnail = edit_text(&request.thumbnail, &existing.thumbnail);
    let mut colour_error: Option<ColourError> = None;
    match &request.color {
        Some(text) => {
            if !is_underscore(text.as_str()) {
                match parse_colour(text.as_str()) {
                    Ok(colour) => {
                        embed.colour = Some(colour);
                    },
                    Err(e) => {
                        colour_error = Some(e);
                    },
                }
            }
        },
        None => {
            embed.colour = existing.colour;
        },
    }
    EmbedPlan { embed, colour_error }
}

/// What the key of an alias must look like.
pub const KEY_PATTERN: &'static str = "[a-z+]+$";

/// What the owner and the name of a repository must look like.
pub const REPOSITORY_PATTERN: &'static str = "^([a-zA-Z0-9-_]+)*$";

/// Why an alias is refused.
#[derive(Clone, Copy, Debug, PartialEq, Eq, Structural)]
pub enum AliasRefusal {
    /// The key does not look as [`KEY_PATTERN`] asks.
    Key,
    /// Owner or name do not look as [`REPOSITORY_PATTERN`] asks.
    Repository,
    /// A pattern was refused, so nothing could be checked.
    Unchecked,
}

/// What checking an alias gives: the key is looked at first, then owner and
/// name. A pattern that `regex` refuses leaves its part unchecked.
pub open spec fn alias_check(key: Seq<char>, owner: Seq<char>, repository: Seq<char>) -> Result<
    (),
    AliasRefusal,
> {
    if !regex_compiles(KEY_PATTERN@, usize::BITS as nat) {
        Err(AliasRefusal::Unchecked)
    } else if !regex_is_match(KEY_PATTERN@, key) {
        Err(AliasRefusal::Key)
    } else if !regex_compiles(REPOSITORY_PATTERN@, usize::BITS as nat) {
        Err(AliasRefusal::Unchecked)
    } else if !regex_is_match(REPOSITORY_PATTERN@, owner) || !regex_is_match(
        REPOSITORY_PATTERN@,
        repository,
    ) {
        Err(AliasRefusal::Repository)
    } else {
        Ok(())
    }
}

/// Checks the parts of an alias against their patterns: see [`alias_check`].
pub fn check_alias(key: &str, owner: &str, repository: &str) -> (checked: Result<(), AliasRefusal>)
    ensures
        checked == alias_check(key@, owner@, repository@),
{
    match is_match_of(KEY_PATTERN, key) {
        None => {
            return Err(AliasRefusal::Unchecked);
        },
        Some(false) => {
            return Err(AliasRefusal::Key);
        },
        Some(true) => {},
    }
    match (is_match_of(REPOSITORY_PATTERN, owner), is_match_of(REPOSITORY_PATTERN, repository)) {
        (Some(true), Some(true)) => Ok(()),
        (Some(false), _) => Err(AliasRefusal::Repository),
        (Some(true), Some(false)) => Err(AliasRefusal::Repository),
        _ => Err(AliasRefusal::Unchecked),
    }
}

impl BotState {
    /// Makes `key`, in lowercase, stand for the repository, provided the
    /// parts pass [`check_alias`]. A refused alias changes nothing.
    pub fn add_repo(&mut self, key: &str, owner: &str, repository: &str) -> (added: Result<
        (),
        AliasRefusal,
    >)
        ensures
            added == alias_check(key@, owner@, repository@),
            final(self).snippets == old(self).snippets,
            match added {
                Ok(()) => {
                    &&& final(self).issue_prefixes.lookup(lowercase(key@)) == Some(
                        RepositoryDetailsView { owner: owner@, name: repository@ },
                    )
                    &&& forall|other: Seq<char>|
                        other != lowercase(key@) ==> final(self).issue_prefixes.lookup(other)
                            == old(self).issue_prefixes.lookup(other)
                },
                Err(_) => final(self).issue_prefixes == old(self).issue_prefixes,
            },
    {
        match check_alias(key, owner, repository) {
            Ok(()) => {
                let details = RepositoryDetails {
                    owner: owner.to_owned(),
                    name: repository.to_owned(),
                };
                self.issue_prefixes.insert(to_lowercase(key), details);
                Ok(())
            },
            Err(refusal) => Err(refusal),
        }
    }

    /// The repository that the alias `key` stands for, if any.
    pub fn get_repo_details(&self, key: &str) -> (details: Option<RepositoryDetails>)
        ensures
            match details {
                Some(d) => self.issue_prefixes.lookup(key@) == Some(d@),
                None => self.issue_prefixes.lookup(key@) is None,
            },
    {
        match self.issue_prefixes.get(key) {
            Some(details) => Some(details.duplicate()),
            None => None,
        }
    }

    /// Removes the alias `key`, if it is there.
    pub fn rm_repo(&mut self, key: &str)
        ensures
            final(self).snippets == old(self).snippets,
            final(self).issue_prefixes.lookup(key@) is None,
            forall|other: Seq<char>|
                other != key@ ==> final(self).issue_prefixes.lookup(other) == old(
                    self,
                ).issue_prefixes.lookup(other),
    {
        let _ = self.issue_prefixes.remove(key);
    }
}

} // verus!
