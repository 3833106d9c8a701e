//! What holds of what stands around the conversations: the models, the mail, the tasks, the
//! tabs.
use vstd::prelude::*;

use crate::events::ModelRoute;
use crate::labels;
use crate::mail;
use crate::mail::{
    GmailInboxState, GmailMessageDetail, GmailMessageState, GmailMessageSummary, GmailMetadata,
    MailBody, Mailbox, MessageHeaders,
};
use crate::models;
use crate::order;
use crate::tabs;
use crate::tabs::{Slot, TabEntry, TabSession};
use crate::text;
use crate::todoist;
use crate::todoist::{
    TaskNotes, TodoistLoadState, TodoistPanelState, TodoistProject, TodoistTask,
};
use crate::todos::Tone;

verus! {

/// A model is served by its first route; how that is paid for is told in words where there
/// are any for it.
pub proof fn models_are_served_by_their_first_route(
    model: Seq<char>,
    routes: Seq<ModelRoute>,
    i: int,
)
    requires
        0 <= i < routes.len(),
        routes[i].model@ == model,
        forall|k: int| 0 <= k < i ==> (#[trigger] routes[k]).model@ != model,
    ensures
        models::served_by(Some(model), routes) is Some,
        ({
            let method = text::lowercase(routes[i].api_method@);
            let said = models::served_by(Some(model), routes)->0;
            &&& text::holds(method, "oauth"@) ==> said == "oauth"@
            &&& !text::holds(method, "oauth"@) && (text::holds(method, "api-key"@) || text::holds(
                method,
                "api_key"@,
            )) ==> said == "api key"@
            &&& !text::holds(method, "oauth"@) && !text::holds(method, "api-key"@) && !text::holds(
                method,
                "api_key"@,
            ) ==> said == method
        }),
{
    lemma_route(routes, model, i, 0);
}

proof fn lemma_route(routes: Seq<ModelRoute>, model: Seq<char>, i: int, from: int)
    requires
        0 <= from <= i < routes.len(),
        routes[i].model@ == model,
        forall|k: int| 0 <= k < i ==> (#[trigger] routes[k]).model@ != model,
    ensures
        models::route_for(routes, model, from) == Some(routes[i]),
    decreases i - from,
{
    if from < i {
        lemma_route(routes, model, i, from + 1);
    }
}

/// A model without a route is not served, and neither is none.
pub proof fn models_without_a_route_are_not_served(model: Seq<char>, routes: Seq<ModelRoute>)
    requires
        forall|k: int| 0 <= k < routes.len() ==> (#[trigger] routes[k]).model@ != model,
    ensures
        models::served_by(Some(model), routes) is None,
        models::served_by(None, routes) is None,
{
    lemma_no_route(routes, model, 0);
}

proof fn lemma_no_route(routes: Seq<ModelRoute>, model: Seq<char>, from: int)
    requires
        0 <= from <= routes.len(),
        forall|k: int| 0 <= k < routes.len() ==> (#[trigger] routes[k]).model@ != model,
    ensures
        models::route_for(routes, model, from) is None,
    decreases routes.len() - from,
{
    if from < routes.len() {
        lemma_no_route(routes, model, from + 1);
    }
}

/// The models that can be chosen are those of available routes, each once, in dictionary
/// order.
pub proof fn available_models_can_be_chosen(routes: Vec<ModelRoute>, names: Vec<String>)
    requires
        call_ensures(models::available_model_names, (&routes,), names),
    ensures
        forall|k: int|
            0 <= k < names@.len() ==> has_available_route(routes@, (#[trigger] names@[k])@),
        forall|i: int|
            0 <= i < routes@.len() && (#[trigger] routes@[i]).available ==> text::texts(
                names@,
            ).contains(routes@[i].model@),
        forall|a: int, b: int|
            0 <= a < b < names@.len() ==> text::less(
                (#[trigger] names@[a])@,
                (#[trigger] names@[b])@,
            ),
{
    let all = text::texts(names@);
    assert forall|k: int| 0 <= k < names@.len() implies has_available_route(
        routes@,
        (#[trigger] names@[k])@,
    ) by {
        assert(all[k] == names@[k]@);
        assert(all.contains(all[k]));
        assert(models::is_offered(routes@, all[k]));
    }
    assert forall|i: int| 0 <= i < routes@.len() && (#[trigger] routes@[i]).available implies
        all.contains(routes@[i].model@) by {
        assert(models::is_offered(routes@, routes@[i].model@));
    }
    assert forall|a: int, b: int| 0 <= a < b < names@.len() implies text::less(
        (#[trigger] names@[a])@,
        (#[trigger] names@[b])@,
    ) by {
        assert(all[a] == names@[a]@ && all[b] == names@[b]@);
    }
}

/// Whether a model has an available route.
pub open spec fn has_available_route(routes: Seq<ModelRoute>, model: Seq<char>) -> bool {
    exists|i: int|
        0 <= i < routes.len() && (#[trigger] routes[i]).available && routes[i].model@ == model
}

/// A route that names its provider gives the model that provider's logo; one that names none
/// leaves it to the model's name.
pub proof fn logos_are_the_providers(model: Seq<char>, method: Seq<char>, family: Seq<char>)
    ensures
        ({
            let logo = models::logo_of(model, method, family);
            let m = text::lower_all(method);
            let n = text::lower_all(model);
            &&& text::holds(m, "anthropic"@) ==> logo == "anthropic-api"@
            &&& !text::holds(m, "anthropic"@) && text::holds(m, "openai"@) ==> logo == "openai"@
            &&& !names_provider(m) ==> {
                &&& text::starts(n, family) ==> logo == "anthropic-api"@
                &&& !text::starts(n, family) && (text::starts(n, "gpt"@) || text::starts(n, "o1"@)
                    || text::starts(n, "o3"@)) ==> logo == "openai"@
                &&& !text::starts(n, family) && !text::starts(n, "gpt"@) && !text::starts(n, "o1"@)
                    && !text::starts(n, "o3"@) ==> {
                    &&& text::starts(n, "gemini"@) ==> logo == "gemini"@
                    &&& !text::starts(n, "gemini"@) && text::starts(n, "grok"@) ==> logo == "xai"@
                    &&& !text::starts(n, "gemini"@) && !text::starts(n, "grok"@) && (text::starts(
                        n,
                        "mistral"@,
                    ) || text::starts(n, "codestral"@)) ==> logo == "mistral"@
                    &&& !text::starts(n, "gemini"@) && !text::starts(n, "grok"@) && !text::starts(
                        n,
                        "mistral"@,
                    ) && !text::starts(n, "codestral"@) && text::starts(n, "deepseek"@) ==> logo
                        == "deepseek"@
                    &&& !text::starts(n, "gemini"@) && !text::starts(n, "grok"@) && !text::starts(
                        n,
                        "mistral"@,
                    ) && !text::starts(n, "codestral"@) && !text::starts(n, "deepseek"@) ==> logo
                        == method
                }
            }
            &&& names_provider(m) && !text::holds(m, "anthropic"@) ==> text::holds(m, logo)
        }),
{
    let m = text::lower_all(method);
    let names = models::provider_names();
    assert(names.len() == 20);
    assert(names[0] == "anthropic"@ && names[1] == "openai"@);
    reveal_strlit("anthropic");
    reveal_strlit("openai");
    assert("anthropic"@.len() == 9 && "openai"@.len() == 6);
    lemma_named(names, m, 0);
    if !text::holds(m, "anthropic"@) {
        lemma_named(names, m, 1);
        assert(models::name_in(names, m, 0) == models::name_in(names, m, 1));
    }
}

/// Whether a method names a provider.
pub open spec fn names_provider(m: Seq<char>) -> bool {
    text::holds(m, "anthropic"@) || text::holds(m, "openai"@) || text::holds(m, "gemini"@)
        || text::holds(m, "google"@) || text::holds(m, "copilot"@) || text::holds(m, "openrouter"@)
        || text::holds(m, "bedrock"@) || text::holds(m, "azure"@) || text::holds(m, "cursor"@)
        || text::holds(m, "antigravity"@) || text::holds(m, "xai"@) || text::holds(m, "mistral"@)
        || text::holds(m, "deepseek"@) || text::holds(m, "kimi"@) || text::holds(m, "zai"@)
        || text::holds(m, "groq"@) || text::holds(m, "perplexity"@) || text::holds(m, "cerebras"@)
        || text::holds(m, "minimax"@) || text::holds(m, "ollama"@)
}

proof fn lemma_named(names: Seq<Seq<char>>, m: Seq<char>, from: int)
    requires
        0 <= from <= names.len(),
        names == models::provider_names(),
    ensures
        match models::name_in(names, m, from) {
            Some(name) => text::holds(m, name) && exists|i: int|
                from <= i < names.len() && name == #[trigger] names[i] && forall|k: int|
                    from <= k < i ==> !text::holds(m, #[trigger] names[k]),
            None => forall|k: int| from <= k < names.len() ==> !text::holds(m, #[trigger] names[k]),
        },
        from == 0 ==> (models::name_in(names, m, from) is Some <==> names_provider(m)),
    decreases names.len() - from,
{
    if from < names.len() {
        lemma_named(names, m, from + 1);
        if text::holds(m, names[from]) {
            assert(names[from] == names[from]);
        }
    }
    if from == 0 {
        assert(names.len() == 20);
        let n = models::provider_names();
        assert(n[0] == "anthropic"@ && n[1] == "openai"@ && n[2] == "gemini"@ && n[3] == "google"@
            && n[4] == "copilot"@ && n[5] == "openrouter"@ && n[6] == "bedrock"@ && n[7]
            == "azure"@ && n[8] == "cursor"@ && n[9] == "antigravity"@ && n[10] == "xai"@ && n[11]
            == "mistral"@ && n[12] == "deepseek"@ && n[13] == "kimi"@ && n[14] == "zai"@ && n[15]
            == "groq"@ && n[16] == "perplexity"@ && n[17] == "cerebras"@ && n[18] == "minimax"@
            && n[19] == "ollama"@);
        if let Some(name) = models::name_in(names, m, 0) {
            let i = choose|i: int|
                0 <= i < names.len() && name == #[trigger] names[i] && forall|k: int|
                    0 <= k < i ==> !text::holds(m, #[trigger] names[k]);
            assert(text::holds(m, n[i]));
        } else {
            assert(forall|k: int| 0 <= k < 20 ==> !text::holds(m, #[trigger] n[k]));
        }
    }
}

/// A model's logo is that of its last available route, and a model without one has none.
pub proof fn logos_are_of_the_last_route(
    routes: Seq<ModelRoute>,
    family: Seq<char>,
    model: Seq<char>,
)
    ensures
        ({
            let table = models::logo_table(routes, family);
            &&& table.dom().contains(model) <==> exists|i: int|
                0 <= i < routes.len() && (#[trigger] routes[i]).available && routes[i].model@
                    == model
            &&& table.dom().contains(model) ==> exists|i: int|
                0 <= i < routes.len() && (#[trigger] routes[i]).available && routes[i].model@
                    == model && table[model] == models::logo_of(
                    model,
                    routes[i].api_method@,
                    family,
                ) && forall|k: int|
                    i < k < routes.len() && (#[trigger] routes[k]).available
                        ==> routes[k].model@ != model
        }),
    decreases routes.len(),
{
    if routes.len() > 0 {
        let fewer = routes.drop_last();
        let n = routes.len() - 1;
        logos_are_of_the_last_route(fewer, family, model);
        let last = routes[n];
        if last.available && last.model@ == model {
            assert(models::logo_table(routes, family)[model] == models::logo_of(
                model,
                last.api_method@,
                family,
            ));
        } else {
            if models::logo_table(fewer, family).dom().contains(model) {
                let i = choose|i: int|
                    0 <= i < fewer.len() && (#[trigger] fewer[i]).available && fewer[i].model@
                        == model && models::logo_table(fewer, family)[model] == models::logo_of(
                        model,
                        fewer[i].api_method@,
                        family,
                    ) && forall|k: int|
                        i < k < fewer.len() && (#[trigger] fewer[k]).available
                            ==> fewer[k].model@ != model;
                assert(routes[i] == fewer[i]);
                assert forall|k: int|
                    i < k < routes.len() && (#[trigger] routes[k]).available implies
                    routes[k].model@ != model by {
                    if k < n {
                        assert(fewer[k] == routes[k]);
                    }
                }
            } else if exists|i: int|
                0 <= i < routes.len() && (#[trigger] routes[i]).available && routes[i].model@
                    == model {
                let i = choose|i: int|
                    0 <= i < routes.len() && (#[trigger] routes[i]).available && routes[i].model@
                        == model;
                assert(fewer[i] == routes[i]);
            }
        }
    }
}

/// A message is what its labels say, in the list as alone.
pub proof fn messages_are_what_their_labels_say(
    id: String,
    headers: MessageHeaders,
    marks: Vec<String>,
    summary: GmailMessageSummary,
    read: GmailMetadata,
)
    requires
        call_ensures(mail::summary_of, (id, headers, &marks), summary),
        call_ensures(mail::gmail_metadata, (&marks,), read),
    ensures
        summary.id@ == id@,
        summary.unread == read.unread && summary.important == read.important && summary.starred
            == read.starred,
        text::text_option(summary.category) == text::text_option(read.category),
        read.unread <==> exists|i: int|
            0 <= i < marks@.len() && (#[trigger] marks@[i])@ == "UNREAD"@,
        read.important <==> exists|i: int|
            0 <= i < marks@.len() && (#[trigger] marks@[i])@ == "IMPORTANT"@,
        read.starred <==> exists|i: int|
            0 <= i < marks@.len() && (#[trigger] marks@[i])@ == "STARRED"@,
        headers.from is Some ==> summary.from@ == headers.from->0@,
        headers.from is None ==> summary.from@ == "Unknown sender"@,
        headers.subject is Some ==> summary.subject@ == headers.subject->0@,
        headers.subject is None ==> summary.subject@ == "(no subject)"@,
        headers.date is Some ==> summary.date@ == headers.date->0@,
        headers.date is None ==> summary.date@.len() == 0,
        headers.snippet is Some ==> summary.snippet@ == headers.snippet->0@,
        headers.snippet is None ==> summary.snippet@.len() == 0,
{
    let all = text::texts(marks@);
    assert forall|i: int| 0 <= i < marks@.len() implies all[i] == (#[trigger] marks@[i])@ by {}
    lemma_marked(marks@, "UNREAD"@);
    lemma_marked(marks@, "IMPORTANT"@);
    lemma_marked(marks@, "STARRED"@);
}

proof fn lemma_marked(marks: Seq<String>, mark: Seq<char>)
    ensures
        text::texts(marks).contains(mark) <==> exists|i: int|
            0 <= i < marks.len() && (#[trigger] marks[i])@ == mark,
{
    let all = text::texts(marks);
    if all.contains(mark) {
        let i = choose|i: int| 0 <= i < all.len() && all[i] == mark;
        assert(marks[i]@ == mark);
    }
    if exists|i: int| 0 <= i < marks.len() && (#[trigger] marks[i])@ == mark {
        let i = choose|i: int| 0 <= i < marks.len() && (#[trigger] marks[i])@ == mark;
        assert(all[i] == mark);
    }
}

/// A message's category is that of its first category label, as a word.
pub proof fn the_first_category_counts(marks: Seq<Seq<char>>, i: int, name: Seq<char>)
    requires
        0 <= i < marks.len(),
        marks[i] == "CATEGORY_"@ + name,
        forall|k: int| 0 <= k < i ==> !text::starts(#[trigger] marks[k], "CATEGORY_"@),
    ensures
        name.len() > 0 ==> mail::category_in(marks, 0) == Some(
            text::uppercase(name[0]) + text::lowercase(name.drop_first()),
        ),
        name.len() == 0 ==> mail::category_in(marks, 0) == Some(name),
{
    let p = "CATEGORY_"@;
    assert(marks[i].subrange(0, p.len() as int) =~= p);
    assert(marks[i].subrange(p.len() as int, marks[i].len() as int) =~= name);
    lemma_category(marks, i, 0);
}

proof fn lemma_category(marks: Seq<Seq<char>>, i: int, from: int)
    requires
        0 <= from <= i < marks.len(),
        forall|k: int| 0 <= k < i ==> !text::starts(#[trigger] marks[k], "CATEGORY_"@),
    ensures
        mail::category_in(marks, from) == mail::category_in(marks, i),
    decreases i - from,
{
    if from < i {
        lemma_category(marks, i, from + 1);
        assert(!text::starts(marks[from], "CATEGORY_"@));
    }
}

/// Messages are listed by their numbers, whatever the order in which they came.
pub proof fn messages_are_listed_by_number(
    messages: Vec<(usize, GmailMessageSummary)>,
    listed: Vec<GmailMessageSummary>,
)
    requires
        call_ensures(mail::in_list_order, (&messages,), listed),
    ensures
        listed@.len() == messages@.len(),
        exists|at: Seq<int>| #[trigger]
            lists_by_number(messages@, listed@, at),
{
    let keys = mail::list_keys(messages@);
    let at = order::order_of(keys);
    order::order_exists(keys);
    order::order_lists_every_row(keys);
    assert forall|a: int, b: int| 0 <= a < b < at.len() implies messages@[#[trigger] at[a]].0
        <= messages@[#[trigger] at[b]].0 by {
        assert(keys[at[a]].0 == messages@[at[a]].0 && keys[at[b]].0 == messages@[at[b]].0);
    }
    assert(lists_by_number(messages@, listed@, at));
}

/// Whether messages are listed at the given places: each once, by their numbers.
pub open spec fn lists_by_number(
    messages: Seq<(usize, GmailMessageSummary)>,
    listed: Seq<GmailMessageSummary>,
    at: Seq<int>,
) -> bool {
    &&& at.len() == messages.len()
    &&& at.no_duplicates()
    &&& forall|k: int| 0 <= k < at.len() ==> 0 <= #[trigger] at[k] < messages.len() && listed[k]
        == messages[at[k]].1
    &&& forall|a: int, b: int|
        0 <= a < b < at.len() ==> messages[#[trigger] at[a]].0 <= messages[#[trigger] at[b]].0
}

/// A message shows its text, and its snippet where that is blank.
pub proof fn messages_show_their_text(
    summary: GmailMessageSummary,
    to: Option<String>,
    body: Option<String>,
    detail: GmailMessageDetail,
)
    requires
        call_ensures(mail::detail_of, (summary, to, body), detail),
    ensures
        detail.summary == summary,
        body is Some && text::trim(body->0@).len() > 0 ==> detail.body@ == body->0@,
        body is None || text::trim(body->0@).len() == 0 ==> detail.body@ == summary.snippet@,
        to is Some ==> detail.to@ == to->0@,
        to is None ==> detail.to@.len() == 0,
{
}

/// A message's badges tell what it is, each at most once and in one order.
pub proof fn badges_tell_what_a_message_is(message: GmailMessageSummary)
    ensures
        ({
            let all = mail::badges(message);
            let one = |b: bool|
                if b {
                    1int
                } else {
                    0
                };
            let u = one(message.unread);
            let i = one(message.important);
            let s = one(message.starred);
            &&& all.len() == u + i + s + one(message.category is Some)
            &&& message.unread ==> all[0] == "Unread"@
            &&& message.important ==> all[u] == "Important"@
            &&& message.starred ==> all[u + i] == "Starred"@
            &&& message.category is Some ==> all.last() == message.category->0@
        }),
{
}

/// An opened message is in view, whatever it comes to: its subject while it loads and where
/// it fails, and the error with it. A failure without an opened message changes nothing.
pub proof fn opened_messages_are_in_view(
    m: &mut Mailbox,
    summary: GmailMessageSummary,
    after: &mut Mailbox,
    why: String,
    shown: MailBody,
    failed: MailBody,
    title: &'static str,
)
    requires
        call_ensures(Mailbox::open, (m, summary), ()),
        call_ensures(Mailbox::body, (&*final(m),), shown),
        *old(after) == *final(m),
        call_ensures(Mailbox::message_loaded, (after, Err(why)), ()),
        call_ensures(Mailbox::body, (&*final(after),), failed),
        call_ensures(Mailbox::title, (&*final(after),), title),
    ensures
        shown is MessageLoading,
        shown->MessageLoading_subject@ == summary.subject@,
        failed is MessageFailed,
        failed->MessageFailed_subject@ == summary.subject@,
        failed->MessageFailed_error@ == why@,
        title@ == "Gmail  ·  Message"@,
        final(after).inbox == old(m).inbox,
{
}

/// A message that was loaded is shown by its sender's initial; without one open, a failure
/// is dropped.
pub proof fn loaded_messages_are_shown(
    m: &mut Mailbox,
    result: Result<GmailMessageDetail, String>,
    shown: MailBody,
)
    requires
        call_ensures(Mailbox::message_loaded, (m, result), ()),
        call_ensures(Mailbox::body, (&*final(m),), shown),
    ensures
        final(m).inbox == old(m).inbox,
        result is Ok ==> shown is Message && shown->initial@ == mail::initial(
            result->Ok_0.summary.from@,
        ) && shown->to@.skip(3) == result->Ok_0.to@,
        result is Err && old(m).message is None ==> final(m).message is None,
        result is Err && old(m).message is Some ==> shown is MessageFailed
            && shown->MessageFailed_error@ == result->Err_0@,
        result is Err && old(m).message is Some ==> shown->MessageFailed_subject@ == (
        match old(m).message->0 {
            GmailMessageState::Loading(summary) => summary.subject@,
            GmailMessageState::Error(summary, _) => summary.subject@,
            GmailMessageState::Ready(message) => message.summary.subject@,
        }),
{
    reveal_strlit("to ");
    if result is Ok {
        assert(shown->to@.skip(3) =~= result->Ok_0.to@);
    }
}

/// Closing a message brings the inbox back as it was, and loading anew closes it.
pub proof fn closing_brings_the_inbox_back(
    m: &mut Mailbox,
    r: &mut Mailbox,
    title: &'static str,
    shown: MailBody,
)
    requires
        call_ensures(Mailbox::close, (m,), ()),
        call_ensures(Mailbox::refresh, (r,), ()),
        call_ensures(Mailbox::title, (&*final(m),), title),
        call_ensures(Mailbox::body, (&*final(r),), shown),
    ensures
        final(m).message is None,
        final(m).inbox == old(m).inbox,
        title@ == "Gmail  ·  Email"@,
        shown is InboxLoading,
{
}

/// The inbox shows what was loaded: every message by its sender's initial, and how many
/// there are; or why it was not.
pub proof fn the_inbox_shows_what_was_loaded(
    m: &mut Mailbox,
    result: Result<Vec<GmailMessageSummary>, String>,
    shown: MailBody,
)
    requires
        old(m).message is None,
        call_ensures(Mailbox::inbox_loaded, (m, result), ()),
        call_ensures(Mailbox::body, (&*final(m),), shown),
    ensures
        result is Err ==> shown is InboxFailed && shown->InboxFailed_error@ == result->Err_0@,
        result is Ok && result->Ok_0@.len() == 0 ==> shown is InboxEmpty,
        result is Ok && result->Ok_0@.len() > 0 ==> shown is Inbox && shown->heading@
            == text::decimal(result->Ok_0@.len()) + " recent messages"@ && shown->initials@.len()
            == result->Ok_0@.len(),
        result is Ok ==> forall|k: int|
            0 <= k < result->Ok_0@.len() ==> (#[trigger] shown->initials@[k])@ == mail::initial(
                result->Ok_0@[k].from@,
            ),
{
}

/// A sender is known by the first letter, and nobody by a question mark.
pub proof fn senders_are_known_by_their_first_letter(from: Seq<char>)
    ensures
        from.len() > 0 ==> mail::initial(from) == text::uppercase(from[0]),
        from.len() == 0 ==> mail::initial(from) == text::uppercase('?'),
{
}

/// The tasks in view are those of the selected project, all tasks where none is selected, in
/// their order.
pub proof fn tasks_in_view_are_the_projects(tasks: Seq<TodoistTask>, selected: Option<String>)
    ensures
        ({
            let at = todoist::visible(tasks, selected);
            &&& forall|a: int, b: int| 0 <= a < b < at.len() ==> #[trigger] at[a] < #[trigger] at[b]
            &&& forall|k: int| 0 <= k < at.len() ==> 0 <= #[trigger] at[k] < tasks.len()
            &&& forall|i: int| #[trigger]
                at.contains(i) <==> 0 <= i < tasks.len() && (selected is None
                    || tasks[i].project_id@ == selected->0@)
        }),
    decreases tasks.len(),
{
    if tasks.len() > 0 {
        let fewer = tasks.drop_last();
        let n = tasks.len() - 1;
        tasks_in_view_are_the_projects(fewer, selected);
        let before = todoist::visible(fewer, selected);
        let at = todoist::visible(tasks, selected);
        assert forall|i: int| #[trigger] at.contains(i) <==> 0 <= i < tasks.len() && (selected
            is None || tasks[i].project_id@ == selected->0@) by {
            if at.contains(i) {
                let k = choose|k: int| 0 <= k < at.len() && at[k] == i;
                if k < before.len() {
                    assert(before[k] == i);
                    assert(before.contains(i));
                }
            }
            if 0 <= i < n {
                assert(fewer[i] == tasks[i]);
                if before.contains(i) {
                    let k = choose|k: int| 0 <= k < before.len() && before[k] == i;
                    assert(at[k] == i);
                }
            } else if i == n && todoist::in_view(tasks[n], selected) {
                assert(at[before.len() as int] == n);
            }
        }
    }
}

/// The most urgent tasks are listed first; those as urgent as each other stay in their order,
/// and no task in view is left out.
pub proof fn urgent_tasks_are_listed_first(tasks: Seq<TodoistTask>, selected: Option<String>)
    ensures
        ({
            let l = todoist::listed(tasks, selected);
            &&& l.len() == todoist::visible(tasks, selected).len()
            &&& l.no_duplicates()
            &&& forall|k: int|
                0 <= k < l.len() ==> todoist::visible(tasks, selected).contains(#[trigger] l[k])
            &&& forall|a: int, b: int|
                0 <= a < b < l.len() ==> {
                    let x = tasks[#[trigger] l[a]].priority;
                    let y = tasks[#[trigger] l[b]].priority;
                    x > y || (x == y && l[a] < l[b])
                }
        }),
{
    let shown = todoist::visible(tasks, selected);
    let keys = todoist::urgency(tasks, shown);
    let o = order::order_of(keys);
    let l = todoist::listed(tasks, selected);
    order::order_exists(keys);
    order::order_lists_every_row(keys);
    tasks_in_view_are_the_projects(tasks, selected);
    assert forall|k: int| 0 <= k < l.len() implies shown.contains(#[trigger] l[k]) by {
        assert(l[k] == shown[o[k]]);
    }
    assert forall|a: int, b: int| 0 <= a < b < l.len() implies ({
        let x = tasks[#[trigger] l[a]].priority;
        let y = tasks[#[trigger] l[b]].priority;
        x > y || (x == y && l[a] < l[b])
    }) by {
        assert(l[a] == shown[o[a]] && l[b] == shown[o[b]]);
        assert(keys[o[a]].0 == 255 - tasks[l[a]].priority);
        assert(keys[o[b]].0 == 255 - tasks[l[b]].priority);
        assert(order::before(keys[o[a]], keys[o[b]]) || (keys[o[a]] == keys[o[b]] && o[a] < o[b]));
    }
    assert(l.no_duplicates()) by {
        assert forall|a: int, b: int| 0 <= a < l.len() && 0 <= b < l.len() && a != b implies l[a]
            != l[b] by {
            if a < b {
                assert(tasks[l[a]].priority > tasks[l[b]].priority || l[a] < l[b]);
            } else {
                assert(tasks[l[b]].priority > tasks[l[a]].priority || l[b] < l[a]);
            }
        }
    }
}

/// Only the completed task leaves the list.
pub proof fn only_the_completed_task_leaves(
    s: &mut TodoistPanelState,
    result: Result<String, String>,
)
    requires
        call_ensures(TodoistPanelState::completed, (s, result), ()),
    ensures
        result is Ok ==> final(s).tasks@ == old(s).tasks@.filter(others_than(result->Ok_0@)) && final(s).load == old(s).load,
        result is Err ==> final(s).tasks@ == old(s).tasks@ && final(s).load
            == TodoistLoadState::Error(result->Err_0),
        final(s).busy_tasks@.len() == 0,
        final(s).selected_project == old(s).selected_project,
        final(s).projects == old(s).projects,
{
    if result is Ok {
        lemma_remaining(old(s).tasks@, result->Ok_0@);
    }
}

/// All tasks but those with an id.
pub open spec fn others_than(id: Seq<char>) -> spec_fn(TodoistTask) -> bool {
    |t: TodoistTask| t.id@ != id
}

proof fn lemma_remaining(tasks: Seq<TodoistTask>, id: Seq<char>)
    ensures
        todoist::remaining(tasks, id) == tasks.filter(others_than(id)),
    decreases tasks.len(),
{
    reveal(Seq::filter);
    if tasks.len() > 0 {
        lemma_remaining(tasks.drop_last(), id);
    } else {
        assert(todoist::remaining(tasks, id) =~= tasks);
    }
}

/// A new task comes last; where it could not be created the list stays and the error is told.
pub proof fn new_tasks_come_last(s: &mut TodoistPanelState, result: Result<TodoistTask, String>)
    requires
        call_ensures(TodoistPanelState::created, (s, result), ()),
    ensures
        result is Ok ==> final(s).load is Ready && final(s).tasks@.len() == old(s).tasks@.len() + 1
            && final(s).tasks@.last() == result->Ok_0 && final(s).tasks@.drop_last() == old(s).tasks@,
        result is Err ==> final(s).tasks@ == old(s).tasks@ && final(s).load
            == TodoistLoadState::Error(result->Err_0),
        final(s).busy_tasks == old(s).busy_tasks,
        final(s).selected_project == old(s).selected_project,
        final(s).projects == old(s).projects,
{
    if result is Ok {
        assert(final(s).tasks@.drop_last() =~= old(s).tasks@);
    }
}

/// A task under completion is busy, and so are those that were; nothing else changes.
pub proof fn tasks_are_busy_until_they_are_completed(s: &mut TodoistPanelState, id: &str)
    requires
        call_ensures(TodoistPanelState::complete, (s, id), ()),
    ensures
        text::texts(final(s).busy_tasks@).contains(id@),
        forall|other: Seq<char>|
            other != id@ ==> (#[trigger] text::texts(final(s).busy_tasks@).contains(other)
                <==> text::texts(old(s).busy_tasks@).contains(other)),
        final(s).tasks == old(s).tasks,
        final(s).load == old(s).load,
{
    let before = text::texts(old(s).busy_tasks@);
    let after = text::texts(final(s).busy_tasks@);
    if !before.contains(id@) {
        assert(after[before.len() as int] == id@);
    }
    assert forall|other: Seq<char>| other != id@ implies (#[trigger] after.contains(other)
        <==> before.contains(other)) by {
        if before.contains(other) {
            let k = choose|k: int| 0 <= k < before.len() && before[k] == other;
            assert(after[k] == other);
        }
        if after.contains(other) {
            let k = choose|k: int| 0 <= k < after.len() && after[k] == other;
            assert(before[k] == other);
        }
    }
}

/// What is loaded replaces what was there, and what could not be loaded leaves it; the
/// selection stays either way.
pub proof fn loading_replaces_the_tasks(
    s: &mut TodoistPanelState,
    result: Result<(Vec<TodoistTask>, Vec<TodoistProject>), String>,
    r: &mut TodoistPanelState,
)
    requires
        call_ensures(TodoistPanelState::refreshed, (s, result), ()),
        call_ensures(TodoistPanelState::refresh, (r,), ()),
    ensures
        result matches Ok((tasks, projects)) ==> final(s).tasks == tasks && final(s).projects
            == projects && final(s).load is Ready,
        result matches Err(why) ==> final(s).tasks == old(s).tasks && final(s).projects == old(s).projects && final(s).load == TodoistLoadState::Error(why),
        final(s).selected_project == old(s).selected_project,
        final(s).busy_tasks == old(s).busy_tasks,
        final(r).load is Loading,
        final(r).tasks == old(r).tasks,
        final(r).busy_tasks == old(r).busy_tasks,
        final(r).selected_project == old(r).selected_project,
{
}

/// A line makes a task of the selected project, unless it is blank.
pub proof fn lines_make_tasks(
    s: TodoistPanelState,
    line: &str,
    made: Option<(String, Option<String>)>,
)
    requires
        call_ensures(TodoistPanelState::new_task, (&s, line), made),
    ensures
        made is None <==> text::trim(line@).len() == 0,
        made matches Some((words, project)) ==> words@ == text::trim(line@) && project
            == s.selected_project,
{
}

/// A task's notes tell when it is due, the first project with its id, and how urgent it is,
/// counted down from the most urgent.
pub proof fn notes_tell_of_the_task(s: TodoistPanelState, task: TodoistTask, notes: TaskNotes)
    requires
        task.priority <= 5,
        call_ensures(TodoistPanelState::notes, (&s, &task), notes),
    ensures
        notes.due is Some <==> task.due is Some,
        task.due is Some ==> notes.due->0@.skip(2) == task.due->0@,
        notes.project is Some <==> exists|i: int|
            0 <= i < s.projects@.len() && (#[trigger] s.projects@[i]).id@ == task.project_id@,
        notes.project is Some ==> exists|i: int|
            0 <= i < s.projects@.len() && (#[trigger] s.projects@[i]).id@ == task.project_id@
                && notes.project->0@.skip(2) == s.projects@[i].name@ && forall|k: int|
                0 <= k < i ==> (#[trigger] s.projects@[k]).id@ != task.project_id@,
        notes.priority is Some <==> task.priority > 1,
        task.priority == 4 ==> notes.priority->0@.skip(1) == text::decimal(1),
        task.priority == 3 ==> notes.priority->0@.skip(1) == text::decimal(2),
        task.priority == 2 ==> notes.priority->0@.skip(1) == text::decimal(3),
        notes.busy <==> text::texts(s.busy_tasks@).contains(task.id@),
{
    reveal_strlit("◷ ");
    reveal_strlit("# ");
    reveal_strlit("P");
    assert("◷ "@.len() == 2 && "# "@.len() == 2 && "P"@.len() == 1);
    if let Some(due) = task.due {
        assert(notes.due->0@.skip(2) =~= due@);
    }
    lemma_project(s.projects@, task.project_id@, 0);
    if let Some(name) = todoist::project_name(s.projects@, task.project_id@, 0) {
        assert(notes.project->0@.skip(2) =~= name);
    }
    if task.priority > 1 {
        assert(notes.priority->0@.skip(1) =~= text::decimal((5 - task.priority) as nat));
    }
}

proof fn lemma_project(projects: Seq<TodoistProject>, id: Seq<char>, from: int)
    requires
        0 <= from <= projects.len(),
        forall|k: int| 0 <= k < from ==> (#[trigger] projects[k]).id@ != id,
    ensures
        match todoist::project_name(projects, id, from) {
            Some(name) => exists|i: int|
                0 <= i < projects.len() && (#[trigger] projects[i]).id@ == id && name
                    == projects[i].name@ && forall|k: int|
                    0 <= k < i ==> (#[trigger] projects[k]).id@ != id,
            None => forall|k: int| 0 <= k < projects.len() ==> (#[trigger] projects[k]).id@ != id,
        },
    decreases projects.len() - from,
{
    if from < projects.len() {
        if projects[from].id@ == id {
            assert(projects[from].id@ == id);
        } else {
            lemma_project(projects, id, from + 1);
        }
    }
}

/// The more urgent a task, the louder its mark.
pub proof fn urgent_tasks_are_marked(priority: u8, tone: Tone)
    requires
        call_ensures(todoist::todoist_priority_color, (priority,), tone),
    ensures
        tone is Bad <==> priority == 4,
        tone is Warn <==> priority == 3,
        tone is Accent <==> priority == 2,
        tone is Faint <==> priority < 2 || priority > 4,
{
}

/// In place of tasks stands what there is to say: that they load, that there are none, or
/// what went wrong.
pub proof fn no_tasks_are_told_of(s: TodoistPanelState, words: String, heading: String)
    requires
        call_ensures(TodoistPanelState::empty_message, (&s,), words),
        call_ensures(TodoistPanelState::heading, (&s,), heading),
    ensures
        s.load is Loading ==> words@ == "Loading Todoist…"@,
        s.load is Ready ==> words@ == "No open tasks in this view."@,
        s.load matches TodoistLoadState::Error(why) ==> words@.len() > why@.len() && words@.take(
            why@.len() as int,
        ) == why@,
        heading@.take(text::decimal(s.tasks@.len()).len() as int) == text::decimal(s.tasks@.len()),
{
    reveal_strlit(
        "\n\nSet TODOIST_API_TOKEN, then refresh. The token is never written to Jcode config.",
    );
    if let TodoistLoadState::Error(why) = s.load {
        assert(words@.take(why@.len() as int) =~= why@);
    }
    let d = text::decimal(s.tasks@.len());
    assert(heading@.take(d.len() as int) =~= d);
}

/// The tab in focus is the first that is: in the active row, and the active panel's or the
/// row's own.
pub proof fn the_tab_in_focus_is_selected(
    all: Vec<TabEntry>,
    active_row: usize,
    active: usize,
    selected: usize,
)
    requires
        call_ensures(tabs::selected, (&all, active_row, active), selected),
    ensures
        ({
            let focused = |i: int|
                0 <= i < all@.len() && all@[i].row == active_row && (all@[i].slot is None
                    || all@[i].slot->0 == active);
            &&& (exists|i: int| #[trigger] focused(i)) ==> focused(selected as int)
            &&& forall|i: int| #[trigger] focused(i) ==> selected <= i
            &&& (forall|i: int| !(#[trigger] focused(i))) ==> selected == 0
        }),
{
    lemma_focused(all@, active_row as int, active as int, 0);
    let focused = |i: int|
        0 <= i < all@.len() && all@[i].row == active_row && (all@[i].slot is None || all@[i].slot->0
            == active);
    assert forall|i: int| #[trigger] focused(i) <==> 0 <= i < all@.len() && tabs::is_focused(
        all@[i],
        active_row as int,
        active as int,
    ) by {}
}

proof fn lemma_focused(all: Seq<TabEntry>, active_row: int, active: int, from: int)
    requires
        0 <= from <= all.len(),
    ensures
        match tabs::focused_from(all, active_row, active, from) {
            Some(i) => from <= i < all.len() && tabs::is_focused(all[i], active_row, active)
                && forall|k: int|
                from <= k < i ==> !tabs::is_focused(#[trigger] all[k], active_row, active),
            None => forall|k: int|
                from <= k < all.len() ==> !tabs::is_focused(#[trigger] all[k], active_row, active),
        },
    decreases all.len() - from,
{
    if from < all.len() {
        lemma_focused(all, active_row, active, from + 1);
    }
}

/// The tabs of a row stand for its open panels in their order and are counted within it; the
/// active row has a tab of its own where nothing is open in it, and another row has none.
pub proof fn rows_have_the_tabs_of_their_panels(slots: Seq<Slot>, row: int, active_row: int)
    requires
        0 <= row <= usize::MAX,
        slots.len() <= usize::MAX,
    ensures
        ({
            let t = tabs::row_tabs(slots, row, active_row);
            let is_open = |k: int| 0 <= k < slots.len() && slots[k].row == row && !slots[k].closing;
            &&& forall|i: int|
                0 <= i < t.len() ==> (#[trigger] t[i]).row == row && t[i].position == i
            &&& forall|i: int|
                0 <= i < t.len() && (#[trigger] t[i]).slot is Some ==> is_open(
                    t[i].slot->0 as int,
                )
            &&& forall|a: int, b: int|
                0 <= a < b < t.len() && (#[trigger] t[a]).slot is Some && (#[trigger] t[b]).slot
                    is Some ==> t[a].slot->0 < t[b].slot->0
            &&& forall|k: int| #[trigger]
                is_open(k) ==> exists|i: int|
                    0 <= i < t.len() && (#[trigger] t[i]).slot == Some(k as usize)
            &&& (forall|k: int| !(#[trigger] is_open(k))) ==> t.len() == if row == active_row {
                1nat
            } else {
                0
            }
        }),
{
    let t = tabs::row_tabs(slots, row, active_row);
    let open = tabs::open_in(slots, row, slots.len() as int);
    lemma_open(slots, row, slots.len() as int);
    let is_open = |k: int| 0 <= k < slots.len() && slots[k].row == row && !slots[k].closing;
    assert forall|k: int| #[trigger] is_open(k) implies exists|i: int|
        0 <= i < t.len() && (#[trigger] t[i]).slot == Some(k as usize) by {
        assert(open.contains(k));
        let i = choose|i: int| 0 <= i < open.len() && open[i] == k;
        assert(t[i].slot == Some(k as usize));
    }
    assert forall|i: int| 0 <= i < t.len() && (#[trigger] t[i]).slot is Some implies is_open(
        t[i].slot->0 as int,
    ) by {
        assert(open.contains(open[i]));
    }
    if forall|k: int| !(#[trigger] is_open(k)) {
        if open.len() > 0 {
            assert(open.contains(open[0]));
            assert(is_open(open[0]));
        }
    }
}

proof fn lemma_open(slots: Seq<Slot>, row: int, n: int)
    requires
        0 <= n <= slots.len(),
    ensures
        ({
            let open = tabs::open_in(slots, row, n);
            &&& open.len() <= n
            &&& forall|a: int, b: int| 0 <= a < b < open.len() ==> #[trigger] open[a] < #[trigger] open[b]
            &&& forall|a: int| 0 <= a < open.len() ==> 0 <= #[trigger] open[a] < n
            &&& forall|k: int| #[trigger]
                open.contains(k) <==> 0 <= k < n && slots[k].row == row && !slots[k].closing
        }),
    decreases n,
{
    if n > 0 {
        lemma_open(slots, row, n - 1);
        let before = tabs::open_in(slots, row, n - 1);
        let open = tabs::open_in(slots, row, n);
        assert forall|k: int| #[trigger] open.contains(k) <==> 0 <= k < n && slots[k].row == row
            && !slots[k].closing by {
            if open.contains(k) {
                let a = choose|a: int| 0 <= a < open.len() && open[a] == k;
                if a < before.len() {
                    assert(before[a] == k);
                    assert(before.contains(k));
                }
            }
            if before.contains(k) {
                let a = choose|a: int| 0 <= a < before.len() && before[a] == k;
                assert(open[a] == k);
            }
            if k == n - 1 && slots[k].row == row && !slots[k].closing {
                assert(open[before.len() as int] == k);
            }
        }
    }
}

/// A tab is called by its session's label, and has its icon; a row without a session is
/// called empty.
pub proof fn tabs_are_called_by_their_session(
    session: Option<TabSession>,
    label: (String, String),
    id: &str,
    title: &str,
    named: String,
)
    requires
        call_ensures(tabs::tab_label, (session,), label),
        call_ensures(labels::folder_session_title, (id, title), named),
        session matches Some(s) ==> s.session_id@ == id@ && s.title@ == title@,
    ensures
        session is Some ==> label.0@ == named@,
        session is None ==> label.0@ == "Empty workspace"@ && label.1@ == "📁"@,
        session is Some && session->0.icon is Some ==> label.1@ == session->0.icon->0@,
        session is Some && session->0.icon is None ==> label.1@ == "💫"@,
{
}

/// A tab keeps its panel's key; a row's own tab has one that no other row has.
pub proof fn tabs_keep_their_keys(
    a: TabEntry,
    b: TabEntry,
    slots: Vec<Slot>,
    first: u64,
    second: u64,
)
    requires
        a.slot matches Some(slot) ==> slot < slots@.len(),
        b.slot matches Some(slot) ==> slot < slots@.len(),
        call_ensures(tabs::tab_key, (a, &slots), first),
        call_ensures(tabs::tab_key, (b, &slots), second),
    ensures
        a.slot is Some ==> first == slots@[a.slot->0 as int].key,
        a.slot is None && b.slot is None && a.row != b.row ==> first != second,
        a.slot is None && b.slot is None && a.row < b.row ==> first > second,
{
}

/// A tab's hint counts the workspaces from one and ends with the title.
pub proof fn hints_count_from_one(row: usize, title: &str, hint: String)
    requires
        row < usize::MAX,
        call_ensures(tabs::tab_hint, (row, title), hint),
    ensures
        hint@.len() >= title@.len(),
        hint@.skip(hint@.len() - title@.len()) == title@,
        text::at(hint@, text::decimal((row + 1) as nat), 10),
{
    reveal_strlit("Workspace ");
    assert("Workspace "@.len() == 10);
    assert(hint@.skip(hint@.len() - title@.len()) =~= title@);
    let d = text::decimal((row + 1) as nat);
    assert(hint@.subrange(10, 10 + d.len() as int) =~= d);
}

} // verus!
