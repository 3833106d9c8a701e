//! The read-only view of the mail inbox.
use vstd::prelude::*;

use crate::events::copy_text;
use crate::order;
use crate::order::stable_order;
use crate::text;
use crate::text::{among, chars_of, concat, decimal_of, string_of, strip_prefix, trimmed};

verus! {

/// What a message's labels say.
#[derive(Debug, PartialEq, Eq)]
pub struct GmailMetadata {
    pub unread: bool,
    pub important: bool,
    pub starred: bool,
    pub category: Option<String>,
}

/// A category's name as a word: its first character in upper case, the rest in lower.
pub open spec fn category_word(name: Seq<char>) -> Seq<char> {
    if name.len() == 0 {
        name
    } else {
        text::uppercase(name[0]) + text::lowercase(name.drop_first())
    }
}

/// The category that the first category label from `from` on names.
pub open spec fn category_in(labels: Seq<Seq<char>>, from: int) -> Option<Seq<char>>
    decreases labels.len() - from,
{
    if from < 0 || from >= labels.len() {
        None
    } else {
        match text::behind(labels[from], "CATEGORY_"@) {
            Some(name) => Some(category_word(name)),
            None => category_in(labels, from + 1),
        }
    }
}

/// A category's name as a word, its first character given in upper case and the rest in
/// lower.
fn word_of(name: &str) -> (r: String)
    ensures
        r@ == category_word(name@),
{
    let v = chars_of(name);
    if v.len() == 0 {
        return String::new();
    }
    let rest = string_of(&v, 1, v.len());
    assert(rest@ =~= name@.drop_first());
    concat(text::to_uppercase(v[0]).as_str(), text::to_lowercase(rest.as_str()).as_str())
}

/// Reads a message's labels.
pub fn gmail_metadata(labels: &Vec<String>) -> (r: GmailMetadata)
    ensures
        r.unread == text::texts(labels@).contains("UNREAD"@),
        r.important == text::texts(labels@).contains("IMPORTANT"@),
        r.starred == text::texts(labels@).contains("STARRED"@),
        text::text_option(r.category) == category_in(text::texts(labels@), 0),
{
    let ghost all = text::texts(labels@);
    let mut category: Option<String> = None;
    let mut i: usize = 0;
    while i < labels.len() && category.is_none()
        invariant
            0 <= i <= labels@.len(),
            all == text::texts(labels@),
            match category {
                Some(word) => category_in(all, 0) == Some(word@),
                None => category_in(all, 0) == category_in(all, i as int),
            },
        decreases labels@.len() - i,
    {
        assert(all[i as int] == labels@[i as int]@);
        if let Some(name) = strip_prefix(labels[i].as_str(), "CATEGORY_") {
            category = Some(word_of(name.as_str()));
        }
        i += 1;
    }
    GmailMetadata {
        unread: among(labels, "UNREAD"),
        important: among(labels, "IMPORTANT"),
        starred: among(labels, "STARRED"),
        category,
    }
}

/// A message in the list.
#[derive(Debug, PartialEq, Eq)]
pub struct GmailMessageSummary {
    pub id: String,
    pub from: String,
    pub subject: String,
    pub date: String,
    pub snippet: String,
    pub unread: bool,
    pub important: bool,
    pub starred: bool,
    pub category: Option<String>,
}

/// A message that was opened.
#[derive(Debug, PartialEq, Eq)]
pub struct GmailMessageDetail {
    pub summary: GmailMessageSummary,
    pub to: String,
    pub body: String,
}

#[derive(Debug, PartialEq, Eq)]
pub enum GmailInboxState {
    Loading,
    Ready(Vec<GmailMessageSummary>),
    Error(String),
}

#[derive(Debug, PartialEq, Eq)]
pub enum GmailMessageState {
    Loading(GmailMessageSummary),
    Ready(GmailMessageDetail),
    Error(GmailMessageSummary, String),
}

/// What a message's headers give, each of them where it is there.
#[derive(Debug, PartialEq, Eq)]
pub struct MessageHeaders {
    pub from: Option<String>,
    pub subject: Option<String>,
    pub date: Option<String>,
    pub snippet: Option<String>,
}

pub open spec fn text_or(value: Option<String>, other: Seq<char>) -> Seq<char> {
    match value {
        Some(s) => s@,
        None => other,
    }
}

/// The list's entry for a message.
pub fn summary_of(id: String, headers: MessageHeaders, labels: &Vec<String>) -> (r:
    GmailMessageSummary)
    ensures
        r.id == id,
        r.from@ == text_or(headers.from, "Unknown sender"@),
        r.subject@ == text_or(headers.subject, "(no subject)"@),
        r.date@ == text_or(headers.date, Seq::empty()),
        r.snippet@ == text_or(headers.snippet, Seq::empty()),
        r.unread == text::texts(labels@).contains("UNREAD"@),
        r.important == text::texts(labels@).contains("IMPORTANT"@),
        r.starred == text::texts(labels@).contains("STARRED"@),
        text::text_option(r.category) == category_in(text::texts(labels@), 0),
{
    let metadata = gmail_metadata(labels);
    GmailMessageSummary {
        id,
        from: match headers.from {
            Some(s) => s,
            None => "Unknown sender".to_owned(),
        },
        subject: match headers.subject {
            Some(s) => s,
            None => "(no subject)".to_owned(),
        },
        date: match headers.date {
            Some(s) => s,
            None => String::new(),
        },
        snippet: match headers.snippet {
            Some(s) => s,
            None => String::new(),
        },
        unread: metadata.unread,
        important: metadata.important,
        starred: metadata.starred,
        category: metadata.category,
    }
}

impl GmailMessageSummary {
    pub fn copy(&self) -> (r: GmailMessageSummary)
        ensures
            r == *self,
    {
        GmailMessageSummary {
            id: self.id.clone(),
            from: self.from.clone(),
            subject: self.subject.clone(),
            date: self.date.clone(),
            snippet: self.snippet.clone(),
            unread: self.unread,
            important: self.important,
            starred: self.starred,
            category: copy_text(&self.category),
        }
    }
}

/// The keys by which messages that came in any order are listed.
pub open spec fn list_keys(messages: Seq<(usize, GmailMessageSummary)>) -> Seq<(u128, u64)> {
    messages.map_values(|m: (usize, GmailMessageSummary)| (m.0 as u128, 0u64))
}

/// The messages in the order of the list, whatever the order in which they came.
pub fn in_list_order(messages: &Vec<(usize, GmailMessageSummary)>) -> (r: Vec<GmailMessageSummary>)
    ensures
        r@.len() == messages@.len(),
        forall|k: int|
            0 <= k < r@.len() ==> #[trigger] r@[k] == messages@[order::order_of(
                list_keys(messages@),
            )[k]].1,
{
    let mut keys: Vec<(u128, u64)> = Vec::new();
    let mut i: usize = 0;
    while i < messages.len()
        invariant
            0 <= i <= messages@.len(),
            keys@.len() == i,
            forall|k: int| 0 <= k < i ==> #[trigger] keys@[k] == (messages@[k].0 as u128, 0u64),
        decreases messages@.len() - i,
    {
        keys.push((messages[i].0 as u128, 0));
        i += 1;
    }
    assert(keys@ =~= list_keys(messages@));
    let order = stable_order(&keys);
    let ghost o = order::order_of(list_keys(messages@));
    let mut r: Vec<GmailMessageSummary> = Vec::new();
    let mut k: usize = 0;
    while k < order.len()
        invariant
            0 <= k <= order@.len(),
            r@.len() == k,
            o == order::positions(order@),
            order::is_order(o, keys@),
            keys@.len() == messages@.len(),
            forall|m: int| 0 <= m < k ==> #[trigger] r@[m] == messages@[o[m]].1,
        decreases order@.len() - k,
    {
        assert(o[k as int] == order@[k as int]);
        r.push(messages[order[k]].1.copy());
        k += 1;
    }
    r
}

/// The opened message: without a text of its own it shows its snippet.
pub fn detail_of(summary: GmailMessageSummary, to: Option<String>, body: Option<String>) -> (r:
    GmailMessageDetail)
    ensures
        r.summary == summary,
        r.to@ == text_or(to, Seq::empty()),
        r.body@ == match body {
            Some(body) if text::trim(body@).len() > 0 => body@,
            _ => summary.snippet@,
        },
{
    let to = match to {
        Some(to) => to,
        None => String::new(),
    };
    let body = match body {
        Some(body) => if trimmed(body.as_str()).as_str().is_empty() {
            summary.snippet.clone()
        } else {
            body
        },
        None => summary.snippet.clone(),
    };
    GmailMessageDetail { summary, to, body }
}

/// The inbox and the message opened from it.
#[derive(Debug, PartialEq, Eq)]
pub struct Mailbox {
    pub inbox: GmailInboxState,
    pub message: Option<GmailMessageState>,
}

/// What stands in the body of the view.
#[derive(Debug, PartialEq, Eq)]
pub enum MailBody {
    /// A subject, the state of its message, and the error where it failed.
    MessageLoading { subject: String },
    MessageFailed { subject: String, error: String },
    Message { initial: String, to: String },
    InboxLoading,
    InboxFailed { error: String },
    InboxEmpty,
    /// The heading, and the initial of every sender.
    Inbox { heading: String, initials: Vec<String> },
}

/// The letter that stands for a sender.
pub open spec fn initial(from: Seq<char>) -> Seq<char> {
    if from.len() > 0 {
        text::uppercase(from[0])
    } else {
        text::uppercase('?')
    }
}

/// The letter that stands for a sender, the question mark where there is none.
pub fn initial_of(from: &str) -> (r: String)
    ensures
        r@ == initial(from@),
{
    let v = chars_of(from);
    if v.len() > 0 {
        text::to_uppercase(v[0])
    } else {
        text::to_uppercase('?')
    }
}

pub open spec fn badge_if(shown: bool, badge: Seq<char>) -> Seq<Seq<char>> {
    if shown {
        seq![badge]
    } else {
        Seq::empty()
    }
}

/// The badges below a message's subject, in their order.
pub open spec fn badges(message: GmailMessageSummary) -> Seq<Seq<char>> {
    badge_if(message.unread, "Unread"@) + badge_if(message.important, "Important"@) + badge_if(
        message.starred,
        "Starred"@,
    ) + match message.category {
        Some(category) => seq![category@],
        None => Seq::empty(),
    }
}

fn add_badge(shown: bool, badge: &str, line: &mut Vec<String>)
    ensures
        text::texts(final(line)@) == text::texts(old(line)@) + badge_if(shown, badge@),
{
    let ghost before = text::texts(line@);
    if shown {
        line.push(badge.to_owned());
    }
    assert(text::texts(line@) =~= before + badge_if(shown, badge@));
}

/// The badges below a message's subject.
pub fn badges_of(message: &GmailMessageSummary) -> (r: Vec<String>)
    ensures
        text::texts(r@) == badges(*message),
{
    let mut line: Vec<String> = Vec::new();
    assert(text::texts(line@) =~= Seq::empty());
    add_badge(message.unread, "Unread", &mut line);
    add_badge(message.important, "Important", &mut line);
    add_badge(message.starred, "Starred", &mut line);
    match &message.category {
        Some(category) => add_badge(true, category.as_str(), &mut line),
        None => add_badge(false, "", &mut line),
    }
    assert(text::texts(line@) =~= badges(*message));
    line
}

impl Mailbox {
    /// The inbox is loaded anew; an opened message is closed.
    pub fn refresh(&mut self)
        ensures
            final(self).inbox is Loading,
            final(self).message is None,
    {
        self.message = None;
        self.inbox = GmailInboxState::Loading;
    }

    /// The inbox was loaded, or was not.
    pub fn inbox_loaded(&mut self, result: Result<Vec<GmailMessageSummary>, String>)
        ensures
            final(self).message == old(self).message,
            final(self).inbox == match result {
                Ok(messages) => GmailInboxState::Ready(messages),
                Err(error) => GmailInboxState::Error(error),
            },
    {
        self.inbox = match result {
            Ok(messages) => GmailInboxState::Ready(messages),
            Err(error) => GmailInboxState::Error(error),
        };
    }

    /// A message is opened.
    pub fn open(&mut self, summary: GmailMessageSummary)
        ensures
            final(self).inbox == old(self).inbox,
            final(self).message == Some(GmailMessageState::Loading(summary)),
    {
        self.message = Some(GmailMessageState::Loading(summary));
    }

    /// The opened message is closed: the inbox is in view again.
    pub fn close(&mut self)
        ensures
            *final(self) == (Mailbox { message: None, ..*old(self) }),
    {
        self.message = None;
    }

    /// The opened message was loaded, or was not. A failure is told of the message that
    /// is open; nothing happens where none is any more.
    pub fn message_loaded(&mut self, result: Result<GmailMessageDetail, String>)
        ensures
            final(self).inbox == old(self).inbox,
            final(self).message == match result {
                Ok(message) => Some(GmailMessageState::Ready(message)),
                Err(error) => match old(self).message {
                    Some(GmailMessageState::Loading(summary)) => Some(
                        GmailMessageState::Error(summary, error),
                    ),
                    Some(GmailMessageState::Error(summary, _)) => Some(
                        GmailMessageState::Error(summary, error),
                    ),
                    Some(GmailMessageState::Ready(message)) => Some(
                        GmailMessageState::Error(message.summary, error),
                    ),
                    None => None,
                },
            },
    {
        match result {
            Ok(message) => {
                self.message = Some(GmailMessageState::Ready(message));
            },
            Err(error) => {
                let open = self.message.take();
                self.message = match open {
                    Some(GmailMessageState::Loading(summary)) => Some(
                        GmailMessageState::Error(summary, error),
                    ),
                    Some(GmailMessageState::Error(summary, _)) => Some(
                        GmailMessageState::Error(summary, error),
                    ),
                    Some(GmailMessageState::Ready(message)) => Some(
                        GmailMessageState::Error(message.summary, error),
                    ),
                    None => None,
                };
            },
        }
    }

    /// The title of the view.
    pub fn title(&self) -> (r: &'static str)
        ensures
            r@ == (if self.message is Some {
                "Gmail  ·  Message"@
            } else {
                "Gmail  ·  Email"@
            }),
    {
        if self.message.is_some() {
            "Gmail  ·  Message"
        } else {
            "Gmail  ·  Email"
        }
    }

    /// What the view shows: the opened message, else the inbox.
    pub fn body(&self) -> (r: MailBody)
        ensures
            match self.message {
                Some(GmailMessageState::Loading(summary)) => r matches MailBody::MessageLoading {
                    subject,
                } && subject == summary.subject,
                Some(GmailMessageState::Error(summary, why)) => r matches MailBody::MessageFailed {
                    subject,
                    error,
                } && subject == summary.subject && error == why,
                Some(GmailMessageState::Ready(message)) => r matches MailBody::Message {
                    initial: letter,
                    to,
                } && letter@ == initial(message.summary.from@) && to@ == "to "@ + message.to@,
                None => match self.inbox {
                    GmailInboxState::Loading => r is InboxLoading,
                    GmailInboxState::Error(why) => r matches MailBody::InboxFailed { error }
                        && error == why,
                    GmailInboxState::Ready(messages) => if messages@.len() == 0 {
                        r is InboxEmpty
                    } else {
                        r matches MailBody::Inbox { heading, initials } && heading@
                            == text::decimal(messages@.len()) + " recent messages"@
                            && initials@.len() == messages@.len() && forall|k: int|
                            0 <= k < messages@.len() ==> (#[trigger] initials@[k])@ == initial(
                                messages@[k].from@,
                            )
                    },
                },
            },
    {
        match &self.message {
            Some(GmailMessageState::Loading(summary)) => MailBody::MessageLoading {
                subject: summary.subject.clone(),
            },
            Some(GmailMessageState::Error(summary, error)) => MailBody::MessageFailed {
                subject: summary.subject.clone(),
                error: error.clone(),
            },
            Some(GmailMessageState::Ready(message)) => MailBody::Message {
                initial: initial_of(message.summary.from.as_str()),
                to: concat("to ", message.to.as_str()),
            },
            None => match &self.inbox {
                GmailInboxState::Loading => MailBody::InboxLoading,
                GmailInboxState::Error(error) => MailBody::InboxFailed { error: error.clone() },
                GmailInboxState::Ready(messages) => {
                    if messages.len() == 0 {
                        return MailBody::InboxEmpty;
                    }
                    let mut initials: Vec<String> = Vec::new();
                    let mut i: usize = 0;
                    while i < messages.len()
                        invariant
                            0 <= i <= messages@.len(),
                            initials@.len() == i,
                            forall|k: int|
                                0 <= k < i ==> (#[trigger] initials@[k])@ == initial(
                                    messages@[k].from@,
                                ),
                        decreases messages@.len() - i,
                    {
                        initials.push(initial_of(messages[i].from.as_str()));
                        i += 1;
                    }
                    MailBody::Inbox {
                        heading: concat(
                            decimal_of(messages.len() as u64).as_str(),
                            " recent messages",
                        ),
                        initials,
                    }
                },
            },
        }
    }
}

} // verus!
