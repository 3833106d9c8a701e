//! What holds of what is done to a panel: opening it, leaving it, keeping it, closing what it
//! shows.
use vstd::prelude::*;

use crate::composer;
use crate::composer::{OverlayCancel, UpdateRequest};
use crate::events::{ResponseStats, SessionInfo};
use crate::labels;
use crate::panel;
use crate::panel::Panel;
use crate::sessions::{UnfinishedSession, UnfinishedTodo};
use crate::surface;
use crate::surface::{Escape, FocusTarget, Handed, Keepsakes, PanelSnapshot, Surface};
use crate::text;
use crate::transcript;
use crate::transcript::Item;

verus! {

/// Whether a panel holds the same conversation as another.
pub open spec fn same_conversation(a: panel::PanelView, b: panel::PanelView) -> bool {
    &&& a.items == b.items
    &&& a.streaming_text == b.streaming_text
    &&& a.streaming_reasoning == b.streaming_reasoning
    &&& a.pending_users == b.pending_users
    &&& a.accepted_users == b.accepted_users
    &&& a.session_id == b.session_id
    &&& a.connection_phase == b.connection_phase
    &&& a.history_loaded == b.history_loaded
}

/// The way out closes one thing at a time: the recovery before the choice of a model, and
/// that before the turn. Only where it stops a turn does the queue wait, and only then is the
/// session told, unless the panel is a preview.
pub proof fn ways_out_close_one_thing(p: &mut Panel, way: OverlayCancel)
    requires
        call_ensures(Panel::overlay_cancelled, (p,), way),
    ensures
        same_conversation(old(p)@, final(p)@),
        final(p)@.status == old(p)@.status,
        way is ClosedRecovery <==> old(p)@.recovery_picker_open,
        !final(p)@.recovery_picker_open,
        way is ClosedModels <==> !old(p)@.recovery_picker_open && old(p)@.model_picker_open,
        !(way is ClosedModels) ==> final(p)@.model_picker_open == old(p)@.model_picker_open,
        way is ClosedModels ==> !final(p)@.model_picker_open,
        way is StoppedTurn ==> final(p)@.queue_paused && (way->send <==> !old(p)@.contents.preview),
        !(way is StoppedTurn) ==> final(p)@.queue_paused == old(p)@.queue_paused,
        way is Nothing ==> !composer::has_turn(old(p)@),
        way is StoppedTurn ==> composer::has_turn(old(p)@),
{
}

/// The choice of a model is open while the line asks for it, and closed once it does not;
/// in a draft it does not open. A change is told where there was one to make.
pub proof fn the_choice_of_models_follows_the_line(p: &mut Panel, line: &str, changed: bool)
    requires
        call_ensures(Panel::input_changed, (p, line), changed),
    ensures
        ({
            let draft = old(p)@.session_id == "startup://draft"@ || text::starts(
                old(p)@.session_id,
                "startup://draft/"@,
            );
            let asks = line@ == "/model"@ || text::starts(line@, "/model "@);
            &&& asks && !draft ==> final(p)@.model_picker_open && changed
            &&& !asks ==> !final(p)@.model_picker_open
            &&& !asks ==> (changed <==> old(p)@.model_picker_open)
            &&& draft && !old(p)@.model_picker_open ==> !final(p)@.model_picker_open
            &&& final(p)@.model_picker_open != old(p)@.model_picker_open ==> changed
        }),
        same_conversation(old(p)@, final(p)@),
        final(p)@.status == old(p)@.status,
        final(p)@.recovery_picker_open == old(p)@.recovery_picker_open,
        final(p)@.queue_paused == old(p)@.queue_paused,
{
}

/// What is typed goes to a conversation alone. A draft says that it is on its way; a session
/// that is there keeps its status.
pub proof fn what_is_typed_goes_to_a_conversation(p: &mut Panel, ready: Option<bool>)
    requires
        call_ensures(Panel::connect_input, (p,), ready),
    ensures
        ({
            let draft = old(p)@.session_id == "startup://draft"@ || text::starts(
                old(p)@.session_id,
                "startup://draft/"@,
            );
            &&& ready is None <==> old(p)@.contents.side_document
            &&& ready is Some ==> (ready->0 <==> draft)
            &&& ready == Some(true) ==> final(p)@.status == "Starting session · you can type now"@
            &&& ready != Some(true) ==> final(p)@.status == old(p)@.status
        }),
        same_conversation(old(p)@, final(p)@),
{
}

/// How an update ended is told last: as an answer where it went well, as an error where it
/// did not.
pub proof fn updates_are_told_of(p: &mut Panel, outcome: Result<String, String>)
    requires
        call_ensures(Panel::update_concluded, (p, outcome), ()),
    ensures
        final(p)@.items.len() == old(p)@.items.len() + 1,
        final(p)@.items.drop_last() == old(p)@.items,
        outcome is Ok ==> final(p)@.items.last() == transcript::ItemView::Assistant(outcome->Ok_0@),
        outcome is Err ==> final(p)@.items.last() == transcript::ItemView::Error(outcome->Err_0@),
        final(p)@.streaming_text == old(p)@.streaming_text,
        final(p)@.status == old(p)@.status,
{
    assert(final(p)@.items.drop_last() =~= old(p)@.items);
}

/// A request to update is answered last, and the answer is followed. No two requests get the
/// same answer.
pub proof fn update_requests_are_answered(
    p: &mut Panel,
    request: UpdateRequest,
    other: UpdateRequest,
)
    requires
        call_ensures(Panel::update_requested, (p, request), ()),
    ensures
        final(p)@.items.len() == old(p)@.items.len() + 1,
        final(p)@.items.drop_last() == old(p)@.items,
        final(p)@.items.last() == transcript::ItemView::Assistant(composer::update_answer(request)),
        final(p)@.stick_to_bottom,
        request != other ==> composer::update_answer(request) != composer::update_answer(other),
{
    assert(final(p)@.items.drop_last() =~= old(p)@.items);
    reveal_strlit("Checking for Jcode Desktop updates…");
    reveal_strlit("Jcode Desktop is already checking for updates.");
    reveal_strlit("A Jcode Desktop update is downloading in the background.");
    reveal_strlit("Installing the update and restarting Jcode Desktop…");
    reveal_strlit("Automatic updates are unavailable in this build of Jcode Desktop.");
    assert("Checking for Jcode Desktop updates…"@[0] == 'C');
    assert("Jcode Desktop is already checking for updates."@[0] == 'J');
    assert("A Jcode Desktop update is downloading in the background."@[1] == ' ');
    assert("Installing the update and restarting Jcode Desktop…"@[0] == 'I');
    assert("Automatic updates are unavailable in this build of Jcode Desktop."@[1] == 'u');
    assert("A Jcode Desktop update is downloading in the background."@[0] == 'A');
    assert("Automatic updates are unavailable in this build of Jcode Desktop."@[0] == 'A');
}

/// A message that could not be sent ends the turn with its error in view, and what was
/// queued waits.
pub proof fn failed_messages_hold_up_the_queue(
    p: &mut Panel,
    message: String,
    stats: Option<ResponseStats>,
)
    requires
        call_ensures(Panel::message_failed, (p, message, stats), ()),
    ensures
        final(p)@.queue_paused,
        final(p)@.stick_to_bottom,
        final(p)@.items.len() > old(p)@.items.len(),
        final(p)@.items.last() == transcript::ItemView::Error(message@),
        final(p)@.streaming_text.len() == 0,
        final(p)@.streaming_reasoning.len() == 0,
        final(p)@.session_id == old(p)@.session_id,
{
    let q = panel::finished(old(p)@, panel::stats_option(stats));
    assert(final(p)@.items == q.items.push(transcript::ItemView::Error(message@)));
}

/// What a panel draws goes by what it holds. What it holds besides the first of these is not
/// drawn.
pub proof fn panels_draw_one_thing(p: panel::PanelView)
    ensures
        ({
            let s = surface::surface_of(p);
            let plain = !p.contents.side_document && p.session_id != "desktop://changelog"@
                && !text::starts(p.session_id, "accounts://"@);
            &&& s is SideDocument <==> p.contents.side_document
            &&& s is Changelog <==> !p.contents.side_document && p.session_id
                == "desktop://changelog"@
            &&& !p.contents.side_document && text::starts(p.session_id, "accounts://"@)
                && p.session_id != "desktop://changelog"@ ==> s is Accounts
            &&& s is Accounts ==> text::starts(p.session_id, "accounts://"@)
            &&& s is ChangeReview <==> plain && p.contents.change_review
            &&& s is Terminal <==> plain && !p.contents.change_review && p.contents.terminal
            &&& s is CodeFile ==> p.contents.code_file && !p.contents.terminal
            &&& s is Mail ==> p.contents.mail && !p.contents.code_file
            &&& s is Tasks ==> p.contents.tasks && !p.contents.mail
            &&& s is UnfinishedWork ==> p.contents.unfinished_work && !p.contents.tasks
            &&& s is Conversation <==> plain && !p.contents.change_review && !p.contents.terminal
                && !p.contents.code_file && !p.contents.mail && !p.contents.tasks
                && !p.contents.unfinished_work
        }),
{
}

/// A panel whose session can go on in a second one is a conversation with a session, unless
/// it is the mail or the tasks that it shows.
pub proof fn only_conversations_are_forked(p: Panel, forks: bool, refreshes: bool)
    requires
        call_ensures(Panel::can_fork, (&p,), forks),
        call_ensures(Panel::can_refresh_account_runtime, (&p,), refreshes),
    ensures
        refreshes ==> forks,
        forks && !refreshes ==> p@.contents.mail || p@.contents.tasks,
        refreshes ==> !p@.contents.mail && !p@.contents.tasks,
        forks ==> {
            let s = surface::surface_of(p@);
            s is Conversation || s is Mail || s is Tasks || s is UnfinishedWork
        },
        forks ==> !composer::is_pending_id(p@.session_id) && !p@.contents.preview && p@.session_id
            != "settings://default-directory"@ && p@.session_id != "settings://machines"@
            && p@.session_id != "unfinished-work"@,
        surface::surface_of(p@) is Conversation && !composer::is_pending_id(p@.session_id)
            && !p@.contents.preview && p@.session_id != "settings://default-directory"@
            && p@.session_id != "settings://machines"@ && p@.session_id != "unfinished-work"@
            ==> forks,
{
}

/// Panels are told apart by their ids.
pub proof fn panels_are_told_apart_by_id(
    p: Panel,
    changelog: bool,
    machines: bool,
    directory: bool,
    draft: bool,
    pending: bool,
    accounts: bool,
)
    requires
        call_ensures(Panel::is_changelog, (&p,), changelog),
        call_ensures(Panel::is_machines, (&p,), machines),
        call_ensures(Panel::is_default_directory, (&p,), directory),
        call_ensures(Panel::is_startup_draft, (&p,), draft),
        call_ensures(Panel::is_pending_session, (&p,), pending),
        call_ensures(Panel::is_accounts_panel, (&p,), accounts),
    ensures
        p@.session_id == "desktop://changelog"@ ==> changelog,
        p@.session_id == "settings://machines"@ ==> machines,
        p@.session_id == "settings://default-directory"@ ==> directory,
        p@.session_id == "startup://draft"@ ==> draft,
        draft ==> pending,
        pending && !draft ==> text::starts(p@.session_id, "startup://draft/"@),
        text::starts(p@.session_id, "startup://draft/"@) ==> pending,
        !(changelog && machines) && !(changelog && directory) && !(changelog && draft),
        !(machines && directory) && !(machines && draft) && !(directory && draft),
        accounts <==> text::starts(p@.session_id, "accounts://"@),
{
    reveal_strlit("desktop://changelog");
    reveal_strlit("settings://machines");
    reveal_strlit("settings://default-directory");
    reveal_strlit("startup://draft");
    assert("desktop://changelog"@.len() == 19);
    assert("settings://machines"@.len() == 19);
    assert("settings://default-directory"@.len() == 28);
    assert("startup://draft"@.len() == 15);
    assert("desktop://changelog"@[0] == 'd' && "settings://machines"@[0] == 's');
}

/// A panel scrolls where it has rows or something streams in; besides, whatever is no
/// conversation does, but for the list of what is left undone.
pub proof fn panels_with_content_scroll(p: Panel, scrolls: bool)
    requires
        call_ensures(Panel::has_scrollable_conversation, (&p,), scrolls),
    ensures
        p@.transcript_row_count > 0 || p@.streaming_text.len() > 0 || p@.streaming_reasoning.len()
            > 0 ==> scrolls,
        !(surface::surface_of(p@) is Conversation) && !(surface::surface_of(p@) is UnfinishedWork)
            ==> scrolls,
        surface::surface_of(p@) is Conversation && !p@.contents.mail_message && p@.session_id
            != "settings://default-directory"@ && p@.session_id != "settings://machines"@
            && p@.transcript_row_count == 0 && p@.streaming_text.len() == 0
            && p@.streaming_reasoning.len() == 0 ==> !scrolls,
{
}

/// The keys go to a place to type where there is one: the login's, then the document's, and
/// in a terminal the terminal's; the input has them in a conversation alone.
pub proof fn keys_go_where_there_is_a_place_to_type(
    p: panel::PanelView,
    login: bool,
    document: bool,
)
    ensures
        ({
            let f = surface::focus_of(p, login, document);
            let shows = p.contents.image_preview || p.contents.diff_review;
            let s = surface::surface_of(p);
            &&& f is Login <==> login
            &&& f is Document <==> !login && document
            &&& !login && !document ==> {
                &&& shows ==> f is Panel
                &&& s is Accounts ==> f is Panel
                &&& s is Terminal && !shows ==> f is Terminal
                &&& s is Mail || s is UnfinishedWork || s is CodeFile ==> f is Panel || p.contents.terminal
                &&& s is Changelog || s is SideDocument ==> f is Panel || p.contents.terminal
                &&& (s is Conversation || s is Tasks) && !shows && !p.contents.unfinished_work
                    ==> f is Input
            }
        }),
{
}

/// Escape closes one thing: in a conversation the login first, then the recovery, then the
/// review of a change, then an image. What it says it closed is closed, and nothing else is.
pub proof fn escape_closes_one_thing(p: &mut Panel, way: Escape)
    requires
        call_ensures(Panel::escape_pressed, (p,), way),
    ensures
        same_conversation(old(p)@, final(p)@),
        ({
            let before = old(p)@;
            let after = final(p)@;
            let s = surface::surface_of(before);
            &&& s is Accounts <==> way == (Escape::Login { panel: true })
            &&& way == (Escape::Login { panel: false }) <==> s is Conversation
                && before.contents.login
            &&& way is Recovery <==> s is Conversation && !before.contents.login
                && before.recovery_picker_open
            &&& way is ImagePreview <==> s is Conversation && !before.contents.login
                && !before.recovery_picker_open && !before.contents.diff_review
                && before.contents.image_preview
            &&& way is DiffReview <==> s is ChangeReview || (s is Conversation
                && !before.contents.login && !before.recovery_picker_open
                && before.contents.diff_review)
            &&& way is Login ==> !after.contents.login
            &&& !(way is Login) ==> after.contents.login == before.contents.login
            &&& way is DiffReview ==> !after.contents.diff_review
            &&& !(way is DiffReview) ==> after.contents.diff_review == before.contents.diff_review
            &&& way is ImagePreview ==> !after.contents.image_preview
            &&& !(way is ImagePreview) ==> after.contents.image_preview
                == before.contents.image_preview
            &&& way is Recovery ==> !after.recovery_picker_open
            &&& !(way is Recovery) ==> after.recovery_picker_open == before.recovery_picker_open
            &&& after.contents.side_document == before.contents.side_document
            &&& after.contents.terminal == before.contents.terminal
            &&& after.model_picker_open == before.model_picker_open
        }),
{
}

/// The session that comes for a draft takes its place with its own id, title and folder; what
/// was typed and shown meanwhile stays.
pub proof fn sessions_take_their_drafts_place(
    p: &mut Panel,
    session: SessionInfo,
    waits: bool,
)
    requires
        call_ensures(Panel::attach_startup_session, (p, session), waits),
    ensures
        final(p)@.session_id == session.session_id@,
        session.title is Some && session.title->0@.len() > 0 ==> final(p)@.title
            == session.title->0@,
        session.title is None || session.title->0@.len() == 0 ==> final(p)@.title
            == labels::short_name(session.session_id@),
        final(p)@.working_dir == text::text_option(session.working_dir),
        final(p)@.status == "idle"@,
        final(p)@.items == old(p)@.items,
        final(p)@.pending_users == old(p)@.pending_users,
        final(p)@.startup_layout == old(p)@.startup_layout,
        final(p)@.stick_to_bottom == old(p)@.stick_to_bottom,
        waits <==> !old(p)@.history_loaded,
{
}

/// What is kept of a panel is what it is taken up with: its title, its folder, whether it
/// follows its end and else where it stood, and what its input holds.
pub proof fn what_is_kept_is_taken_up(
    before: Panel,
    x: u32,
    y: u32,
    terminal: Option<(Option<u64>, u64)>,
    keepsakes: Keepsakes,
    snapshot: PanelSnapshot,
    p: &mut Panel,
    handed: Handed,
)
    requires
        call_ensures(Panel::snapshot, (&before, x, y, terminal, keepsakes), snapshot),
        call_ensures(Panel::restore_snapshot, (p, snapshot), handed),
    ensures
        handed is Document <==> old(p)@.contents.side_document,
        handed is Document ==> text::text_option(handed->Document_0)
            == keepsakes@.side_document,
        handed is Conversation ==> handed->prompt_queue@ == keepsakes@.prompt_queue
            && handed->draft@ == keepsakes@.draft,
        !old(p)@.contents.side_document ==> {
            &&& final(p)@.title == before@.title
            &&& final(p)@.working_dir == before@.working_dir
            &&& final(p)@.image_pane_open == before@.image_pane_open
            &&& final(p)@.queue_paused == before@.queue_paused
            &&& final(p)@.stick_to_bottom == before@.stick_to_bottom
            &&& before@.stick_to_bottom ==> final(p)@.pending_history_scroll is None
            &&& !before@.stick_to_bottom ==> final(p)@.pending_history_scroll == Some((x, y))
            &&& final(p)@.startup_layout == Some(true) <==> before@.startup_layout == Some(true)
            &&& final(p)@.startup_layout is Some ==> final(p)@.startup_layout == Some(true)
        },
        same_conversation(old(p)@, final(p)@),
        snapshot@.session_id == before@.session_id,
        terminal is None ==> snapshot@.terminal_output_cursor is None
            && snapshot@.terminal_resource_id is None,
        terminal matches Some((id, cursor)) ==> snapshot@.terminal_output_cursor == Some(cursor)
            && snapshot@.terminal_resource_id == id,
{
}

/// A panel is opened on its session, with its items and at its end, and with nothing that a
/// turn leaves.
pub proof fn panels_are_opened_afresh(
    id: String,
    title: Option<String>,
    folder: Option<String>,
    items: Vec<Item>,
    p: Panel,
)
    requires
        call_ensures(Panel::new, (id, title, folder, items), p),
    ensures
        p@.session_id == id@,
        title is Some && title->0@.len() > 0 ==> p@.title == title->0@,
        title is None || title->0@.len() == 0 ==> p@.title == labels::short_name(id@),
        p@.working_dir == text::text_option(folder),
        p@.items == transcript::item_views(items@),
        p@.status == "idle"@,
        p@.streaming_text.len() == 0 && p@.streaming_reasoning.len() == 0,
        p@.connection_phase.len() == 0,
        p@.pending_users.len() == 0 && p@.accepted_users.len() == 0,
        p@.stick_to_bottom && !p@.history_loaded && !p@.queue_paused,
        !p@.model_picker_open && !p@.recovery_picker_open && !p@.image_pane_open,
        p@.model is None && p@.startup_layout is None && p@.pending_history_scroll is None,
        !composer::has_turn(p@),
        surface::surface_of(p@) is Conversation || surface::surface_of(p@) is Changelog
            || surface::surface_of(p@) is Accounts,
{
}

/// A panel of another kind draws what it was opened for, and is no conversation that can be
/// forked.
pub proof fn panels_draw_what_they_are_opened_for(
    accounts: Panel,
    source: &str,
    preview: bool,
    mail: Panel,
    tasks: Panel,
    terminal: Panel,
    folder: Option<String>,
    items: Vec<Item>,
    unfinished: Panel,
)
    requires
        call_ensures(Panel::new_accounts, (source, preview), accounts),
        call_ensures(Panel::new_gmail, (), mail),
        call_ensures(Panel::new_todoist, (), tasks),
        call_ensures(Panel::new_terminal, (folder, items), terminal),
        call_ensures(Panel::new_unfinished_work, (items,), unfinished),
    ensures
        surface::surface_of(accounts@) is Accounts,
        accounts@.session_id.skip(11) == source@,
        accounts@.contents.login,
        accounts@.contents.preview == preview,
        surface::surface_of(mail@) is Mail,
        surface::surface_of(tasks@) is Tasks,
        surface::surface_of(terminal@) is Terminal,
        terminal@.working_dir == text::text_option(folder),
        terminal@.items == transcript::item_views(items@),
        surface::surface_of(unfinished@) is UnfinishedWork,
        unfinished@.items == transcript::item_views(items@),
        !surface::forks(accounts@) && !surface::forks(terminal@) && !surface::forks(unfinished@),
{
    reveal_strlit("accounts://");
    reveal_strlit("desktop://changelog");
    reveal_strlit("gmail://inbox");
    reveal_strlit("todoist://tasks");
    reveal_strlit("terminal");
    reveal_strlit("unfinished-work");
    let id = "accounts://"@ + source@;
    assert("accounts://"@.len() == 11);
    assert(id.subrange(0, 11) =~= "accounts://"@);
    assert(id.skip(11) =~= source@);
    assert(id[0] == 'a' && "desktop://changelog"@[0] == 'd');
    assert("desktop://changelog"@.len() == 19 && "gmail://inbox"@.len() == 13);
    assert("todoist://tasks"@.len() == 15 && "terminal"@.len() == 8);
    assert("unfinished-work"@.len() == 15);
    lemma_elsewhere("gmail://inbox"@);
    lemma_elsewhere("todoist://tasks"@);
    lemma_elsewhere("terminal"@);
    lemma_elsewhere("unfinished-work"@);
}

proof fn lemma_elsewhere(id: Seq<char>)
    ensures
        id.len() > 0 && id[0] != 'a' ==> !text::starts(id, "accounts://"@),
{
    reveal_strlit("accounts://");
    if text::starts(id, "accounts://"@) {
        assert(id.subrange(0, "accounts://"@.len() as int)[0] == id[0]);
        assert("accounts://"@[0] == 'a');
    }
}

/// A file's panel is titled by the file's name, or its whole path where it has no name.
pub proof fn files_are_titled_by_their_names(
    path: &str,
    name: Option<String>,
    folder: Option<String>,
    p: Panel,
)
    requires
        call_ensures(Panel::new_code_file, (path, name, folder), p),
    ensures
        p@.contents.code_file,
        p@.session_id.skip(7) == path@,
        name is Some && name->0@.len() > 0 ==> p@.title == name->0@,
        name is None && path@.len() > 0 ==> p@.title == path@,
        p@.working_dir == text::text_option(folder),
        surface::surface_of(p@) is CodeFile,
{
    reveal_strlit("file://");
    reveal_strlit("desktop://changelog");
    assert("file://"@.len() == 7);
    assert(p@.session_id.skip(7) =~= path@);
    assert(p@.session_id[0] == 'f' && "desktop://changelog"@[0] == 'd');
    lemma_elsewhere(p@.session_id);
}

/// A file is shown up to two mebibytes, and one that is not says how large it is.
pub proof fn large_files_are_not_shown(bytes: u64, why: Option<String>)
    requires
        call_ensures(surface::too_large, (bytes,), why),
    ensures
        why is Some <==> bytes > 2 * 1024 * 1024,
        why is Some ==> text::holds(why->0@, text::decimal(bytes as nat)),
{
    if let Some(message) = why {
        let before = "file is too large to preview ("@;
        let d = text::decimal(bytes as nat);
        assert(message@.subrange(before.len() as int, (before.len() + d.len()) as int) =~= d);
        assert(text::at(message@, d, before.len() as int));
    }
}

/// A file that is no text says so; another says what went wrong.
pub proof fn unreadable_files_say_why(is_text: bool, message: &str, why: String)
    requires
        call_ensures(surface::unreadable, (is_text, message), why),
    ensures
        is_text ==> why@ == message@,
        !is_text ==> why@ == "binary files cannot be previewed"@,
{
}

/// The lines of a file are numbered from one, and each is shown as it is; an empty one is
/// kept open by a space.
pub proof fn lines_are_numbered_from_one(lines: Seq<Seq<char>>, i: int)
    requires
        0 <= i < lines.len(),
    ensures
        surface::numbered(lines).len() == lines.len(),
        surface::numbered(lines)[i].0 == text::decimal((i + 1) as nat),
        lines[i].len() > 0 ==> surface::numbered(lines)[i].1 == lines[i],
        lines[i].len() == 0 ==> surface::numbered(lines)[i].1 == " "@,
{
}

/// What is at work has its own mark, however its status is cased.
pub proof fn work_in_hand_is_marked(todo: UnfinishedTodo, mark: &'static str)
    requires
        call_ensures(surface::todo_mark, (&todo,), mark),
    ensures
        text::lower_all(todo.status@) == "in_progress"@ ==> mark@ == "◐"@,
        text::lower_all(todo.status@) != "in_progress"@ ==> mark@ == "○"@,
{
    reveal_strlit("in_progress");
    assert(text::lower_all("in_progress"@) =~= "in_progress"@);
}

/// A new list of unfinished work is taken up, and a change is told where there is one.
pub proof fn unfinished_work_is_taken_up(
    shown: &mut Option<Vec<UnfinishedSession>>,
    sessions: Vec<UnfinishedSession>,
    changed: bool,
)
    requires
        call_ensures(surface::set_unfinished_work, (shown, sessions), changed),
    ensures
        *final(shown) is Some,
        surface::unfinished_views((*final(shown))->0@) == surface::unfinished_views(sessions@),
        changed <==> *old(shown) is None || surface::unfinished_views((*old(shown))->0@)
            != surface::unfinished_views(sessions@),
{
}

} // verus!
