//! What holds of the sidebar: which sessions it lists, under which titles, and what is left
//! to do in them.
use vstd::prelude::*;

use crate::json;
use crate::order;
use crate::sessions;
use crate::sessions::{
    FileView, SessionView, StoreView, TodoFileView, TodoView, MAX_PERSISTED_SIDEBAR_SESSIONS,
};
use crate::text;

verus! {

/// A title that is missing or of nothing but white space.
pub open spec fn is_untitled(title: Option<Seq<char>>) -> bool {
    title is None || text::all_white(title->0)
}

proof fn lemma_untitled(title: Option<Seq<char>>)
    ensures
        sessions::is_blank(title) <==> is_untitled(title),
        sessions::non_blank(title) is None <==> is_untitled(title),
        !is_untitled(title) ==> sessions::non_blank(title) == Some(text::trim(title->0)),
{
    if title is Some {
        text::trimming_takes_the_white_ends(title->0);
    }
}

/// Whether an entry is one of the runtime's sessions: all that the runtime tells of it stands,
/// but that its record may know a later status and its todos a title where it has none.
pub open spec fn is_entry_of(entry: SessionView, session: SessionView, store: StoreView) -> bool {
    &&& entry.session_id == session.session_id
    &&& entry.working_dir == session.working_dir
    &&& entry.transcript_bytes == session.transcript_bytes
    &&& entry.saved == session.saved
    &&& entry.updated_at_ms == session.updated_at_ms
    &&& entry.last_active_at_ms == session.last_active_at_ms
    &&& entry.archived == session.archived
    &&& entry.parent_session_id == session.parent_session_id
    &&& entry.agent_label == session.agent_label
    &&& entry.swarm_status == session.swarm_status
    &&& entry.edit_stats == session.edit_stats
    &&& entry.title == (if is_untitled(session.title) {
        sessions::stored_title(store, session.session_id)
    } else {
        session.title
    })
    &&& text::starts(session.session_id, "ssh://"@) ==> entry.status == session.status
    &&& (forall|f: int|
        0 <= f < store.files.len() ==> (#[trigger] store.files[f]).id != session.session_id)
        ==> entry.status == session.status
    &&& forall|f: int|
        0 <= f < store.files.len() && (#[trigger] store.files[f]).id == session.session_id && (
        forall|g: int| 0 <= g < f ==> (#[trigger] store.files[g]).id != session.session_id)
            && !text::starts(session.session_id, "ssh://"@) ==> entry.status == (
        match store.files[f].record {
            Some(record) => sessions::shown_status(record.status),
            None => session.status,
        })
}

/// Whether an entry is what the store keeps in a file: the first title that is not blank, of
/// the one that the user gave, the one of its todos and the record's own.
pub open spec fn is_entry_from(entry: SessionView, file: FileView, store: StoreView) -> bool {
    let record = file.record->0;
    let of_todos = sessions::stored_title(store, file.id);
    &&& file.record is Some
    &&& entry.session_id == file.id
    &&& entry.working_dir == record.working_dir
    &&& entry.saved == record.saved
    &&& entry.status == sessions::shown_status(record.status)
    &&& entry.transcript_bytes == file.transcript_bytes
    &&& !is_untitled(record.custom_title) ==> entry.title == record.custom_title
    &&& is_untitled(record.custom_title) && of_todos is Some ==> entry.title == of_todos
    &&& is_untitled(record.custom_title) && of_todos is None && !is_untitled(record.title)
        ==> entry.title == record.title
    &&& entry.title is None ==> is_untitled(record.custom_title) && of_todos is None && is_untitled(
        record.title,
    )
    &&& is_untitled(record.custom_title) && of_todos is None && is_untitled(record.title)
        ==> entry.title is None
    &&& entry.updated_at_ms == (if file.modified_ms != 0 && file.modified_ms <= i64::MAX {
        Some(file.modified_ms as i64)
    } else {
        entry.updated_at_ms
    })
    &&& !entry.archived
    &&& entry.parent_session_id is None
}

proof fn lemma_entry_of(session: SessionView, store: StoreView)
    ensures
        is_entry_of(
            sessions::titled(sessions::with_status(session, store), store),
            session,
            store,
        ),
{
    lemma_untitled(session.title);
    if forall|f: int|
        0 <= f < store.files.len() ==> (#[trigger] store.files[f]).id != session.session_id {
        lemma_no_record(store.files, session.session_id, 0);
    }
    let entry = sessions::titled(sessions::with_status(session, store), store);
    assert forall|f: int|
        0 <= f < store.files.len() && (#[trigger] store.files[f]).id == session.session_id && (
        forall|g: int| 0 <= g < f ==> (#[trigger] store.files[g]).id != session.session_id)
            && !text::starts(session.session_id, "ssh://"@) implies entry.status == (
    match store.files[f].record {
        Some(record) => sessions::shown_status(record.status),
        None => session.status,
    }) by {
        lemma_record(store.files, session.session_id, 0, f);
    }
}

proof fn lemma_record(files: Seq<FileView>, id: Seq<char>, from: int, f: int)
    requires
        0 <= from <= f < files.len(),
        files[f].id == id,
        forall|g: int| 0 <= g < f ==> (#[trigger] files[g]).id != id,
    ensures
        sessions::record_of(files, id, from) == files[f].record,
    decreases f - from,
{
    if from < f {
        assert(files[from].id != id);
        lemma_record(files, id, from + 1, f);
    }
}

proof fn lemma_no_record(files: Seq<FileView>, id: Seq<char>, from: int)
    requires
        0 <= from <= files.len(),
        forall|f: int| 0 <= f < files.len() ==> (#[trigger] files[f]).id != id,
    ensures
        sessions::record_of(files, id, from) is None,
    decreases files.len() - from,
{
    if from < files.len() {
        assert(files[from].id != id);
        lemma_no_record(files, id, from + 1);
    }
}

proof fn lemma_entry_from(file: FileView, store: StoreView)
    requires
        file.record is Some,
    ensures
        is_entry_from(
            sessions::titled(sessions::stored_session(file, file.record->0, store), store),
            file,
            store,
        ),
{
    let record = file.record->0;
    lemma_untitled(record.custom_title);
    lemma_untitled(record.title);
    lemma_untitled(sessions::stored_title(store, file.id));
    lemma_untitled(None);
}

proof fn lemma_live(sessions: Seq<SessionView>, store: StoreView)
    ensures
        sessions::live(sessions, store) == sessions.filter(
            |s: SessionView| !s.archived && !store.archived.contains(s.session_id),
        ),
    decreases sessions.len(),
{
    reveal(Seq::filter);
    if sessions.len() > 0 {
        lemma_live(sessions.drop_last(), store);
    }
}

/// The runtime's sessions that count are those that neither they themselves nor the store
/// call archived, in the runtime's order.
pub proof fn live_sessions_are_those_not_archived(sessions: Seq<SessionView>, store: StoreView)
    ensures
        sessions::live(sessions, store) == sessions.filter(
            |s: SessionView| !s.archived && !store.archived.contains(s.session_id),
        ),
{
    lemma_live(sessions, store);
}

/// Whether a file can be listed: its session is neither archived nor one of the runtime's.
pub open spec fn is_eligible(
    file: FileView,
    sessions: Seq<SessionView>,
    store: StoreView,
) -> bool {
    &&& !store.archived.contains(file.id)
    &&& forall|i: int|
        0 <= i < sessions::live(sessions, store).len() ==> (#[trigger] sessions::live(
            sessions,
            store,
        )[i]).session_id != file.id
}

proof fn lemma_candidates(
    files: Seq<FileView>,
    archived: Seq<Seq<char>>,
    known: Seq<Seq<char>>,
)
    ensures
        sessions::candidates(files, archived, known) == files.filter(
            |f: FileView| !archived.contains(f.id) && !known.contains(f.id),
        ),
        forall|k: int|
            0 <= k < sessions::candidates(files, archived, known).len() ==> {
                let file = #[trigger] sessions::candidates(files, archived, known)[k];
                files.contains(file) && !archived.contains(file.id) && !known.contains(file.id)
            },
    decreases files.len(),
{
    reveal(Seq::filter);
    if files.len() > 0 {
        let fewer = files.drop_last();
        lemma_candidates(fewer, archived, known);
        let all = sessions::candidates(files, archived, known);
        let before = sessions::candidates(fewer, archived, known);
        assert forall|k: int| 0 <= k < all.len() implies {
            let file = #[trigger] all[k];
            files.contains(file) && !archived.contains(file.id) && !known.contains(file.id)
        } by {
            if k < before.len() {
                assert(all[k] == before[k]);
                let j = fewer.index_of(before[k]);
                assert(files[j] == all[k]);
            } else {
                assert(files[files.len() - 1] == all[k]);
            }
        }
    }
}

proof fn lemma_stored(files: Seq<FileView>, store: StoreView)
    ensures
        sessions::stored_sessions(files, store).len() <= files.len(),
        forall|k: int|
            0 <= k < sessions::stored_sessions(files, store).len() ==> exists|f: int|
                #![trigger files[f]]
                0 <= f < files.len() && files[f].record is Some && (
                #[trigger] sessions::stored_sessions(files, store)[k]) == sessions::stored_session(
                    files[f],
                    files[f].record->0,
                    store,
                ),
    decreases files.len(),
{
    if files.len() > 0 {
        let fewer = files.drop_last();
        lemma_stored(fewer, store);
        let all = sessions::stored_sessions(files, store);
        let before = sessions::stored_sessions(fewer, store);
        assert forall|k: int| 0 <= k < all.len() implies exists|f: int|
            #![trigger files[f]]
            0 <= f < files.len() && files[f].record is Some && (#[trigger] all[k])
                == sessions::stored_session(files[f], files[f].record->0, store) by {
            if k < before.len() {
                assert(all[k] == before[k]);
                let f = choose|f: int|
                    #![trigger fewer[f]]
                    0 <= f < fewer.len() && fewer[f].record is Some && before[k]
                        == sessions::stored_session(fewer[f], fewer[f].record->0, store);
                assert(files[f] == fewer[f]);
            } else {
                let f = files.len() - 1;
                assert(files[f].record is Some);
            }
        }
    }
}

/// The first file of an id that has a sound record is listed among the stored sessions.
proof fn lemma_stored_lists(files: Seq<FileView>, store: StoreView, f: int)
    requires
        0 <= f < files.len(),
        files[f].record is Some,
        forall|g: int| 0 <= g < f ==> (#[trigger] files[g]).id != files[f].id,
    ensures
        sessions::stored_sessions(files, store).contains(
            sessions::stored_session(files[f], files[f].record->0, store),
        ),
    decreases files.len(),
{
    let fewer = files.drop_last();
    let all = sessions::stored_sessions(files, store);
    let before = sessions::stored_sessions(fewer, store);
    let wanted = sessions::stored_session(files[f], files[f].record->0, store);
    if f < files.len() - 1 {
        lemma_stored_lists(fewer, store, f);
        let k = before.index_of(wanted);
        assert(all[k] == wanted);
    } else {
        let ids = sessions::file_ids(fewer);
        if ids.contains(files[f].id) {
            let g = ids.index_of(files[f].id);
            assert(files[g].id == files[f].id);
        }
        assert(all[all.len() - 1] == wanted);
    }
}

/// Every entry of the sidebar is a session that is told of: one of the runtime's that is not
/// archived or, where the runtime lists fewer than the sidebar holds, one that a file keeps
/// and that the runtime does not list. It is shown as it is told of there.
pub proof fn entries_are_told_of(sessions: Seq<SessionView>, store: StoreView, k: int)
    requires
        0 <= k < sessions::sidebar(sessions, store).len(),
    ensures
        ({
            let entry = sessions::sidebar(sessions, store)[k];
            let live = sessions::live(sessions, store);
            ||| exists|i: int|
                0 <= i < live.len() && is_entry_of(entry, #[trigger] live[i], store)
            ||| live.len() < MAX_PERSISTED_SIDEBAR_SESSIONS && exists|f: int|
                0 <= f < store.files.len() && is_eligible(store.files[f], sessions, store)
                    && is_entry_from(entry, #[trigger] store.files[f], store)
        }),
{
    let live = sessions::live(sessions, store);
    let current = sessions::live_with_status(sessions, store);
    let shown = sessions::sidebar(sessions, store);
    if current.len() >= MAX_PERSISTED_SIDEBAR_SESSIONS {
        let i = current.len() - 1 - k;
        assert(current[i] == sessions::with_status(live[i], store));
        assert(shown[k] == sessions::titled(current[i], store));
        lemma_entry_of(live[i], store);
        assert(is_entry_of(shown[k], live[i], store));
    } else {
        let all = sessions::gathered(sessions, store);
        order::order_exists(sessions::by_activity(all, store));
        let o = order::order_of(sessions::by_activity(all, store));
        let at = o[k];
        assert(shown[k] == all[at]);
        lemma_gathered(sessions, store, at);
    }
}

proof fn lemma_gathered(sessions: Seq<SessionView>, store: StoreView, at: int)
    requires
        0 <= at < sessions::gathered(sessions, store).len(),
    ensures
        ({
            let entry = sessions::gathered(sessions, store)[at];
            let live = sessions::live(sessions, store);
            if at < live.len() {
                is_entry_of(entry, live[at], store)
            } else {
                exists|f: int|
                    0 <= f < store.files.len() && is_eligible(store.files[f], sessions, store)
                        && is_entry_from(entry, #[trigger] store.files[f], store)
            }
        }),
{
    let live = sessions::live(sessions, store);
    let current = sessions::live_with_status(sessions, store);
    let ids = sessions::session_ids(current);
    let files = sessions::candidates(store.files, store.archived, ids);
    let chosen = sessions::picked(files);
    let found = sessions::stored_sessions(chosen, store);
    let all = sessions::gathered(sessions, store);
    assert(all[at] == sessions::titled((current + found)[at], store));
    if at < live.len() {
        assert(current[at] == sessions::with_status(live[at], store));
        lemma_entry_of(live[at], store);
    } else {
        let j = at - live.len();
        lemma_stored(chosen, store);
        assert((current + found)[at] == found[j]);
        let c = choose|c: int|
            #![trigger chosen[c]]
            0 <= c < chosen.len() && chosen[c].record is Some && found[j]
                == sessions::stored_session(chosen[c], chosen[c].record->0, store);
        order::order_exists(sessions::newest_first(files));
        let o = order::order_of(sessions::newest_first(files));
        assert(0 <= o[c] < files.len());
        assert(chosen[c] == files[o[c]]);
        lemma_candidates(store.files, store.archived, ids);
        let file = files[o[c]];
        let f = store.files.index_of(file);
        assert(store.files[f] == file);
        lemma_entry_from(file, store);
        lemma_ids(sessions, store);
        assert forall|i: int| 0 <= i < live.len() implies (#[trigger] sessions::live(
            sessions,
            store,
        )[i]).session_id != file.id by {
            assert(ids[i] == live[i].session_id);
            assert(ids.contains(ids[i]));
        }
        assert(is_entry_from(all[at], store.files[f], store));
    }
}

proof fn lemma_ids(sessions: Seq<SessionView>, store: StoreView)
    ensures
        ({
            let live = sessions::live(sessions, store);
            let ids = sessions::session_ids(sessions::live_with_status(sessions, store));
            ids.len() == live.len() && forall|i: int|
                0 <= i < live.len() ==> #[trigger] ids[i] == live[i].session_id
        }),
{
}

/// A stored session is listed, under the title that it has there, as long as the sidebar has
/// room for all that are eligible: the runtime lists fewer than it holds, and so does the
/// store.
pub proof fn stored_sessions_are_listed(sessions: Seq<SessionView>, store: StoreView, f: int)
    requires
        0 <= f < store.files.len() <= MAX_PERSISTED_SIDEBAR_SESSIONS,
        sessions::live(sessions, store).len() < MAX_PERSISTED_SIDEBAR_SESSIONS,
        store.files[f].record is Some,
        is_eligible(store.files[f], sessions, store),
        forall|g: int|
            0 <= g < store.files.len() && g != f ==> (#[trigger] store.files[g]).id
                != store.files[f].id,
    ensures
        exists|k: int|
            0 <= k < sessions::sidebar(sessions, store).len() && is_entry_from(
                #[trigger] sessions::sidebar(sessions, store)[k],
                store.files[f],
                store,
            ),
{
    let file = store.files[f];
    let live = sessions::live(sessions, store);
    let current = sessions::live_with_status(sessions, store);
    let ids = sessions::session_ids(current);
    let files = sessions::candidates(store.files, store.archived, ids);
    let chosen = sessions::picked(files);
    let found = sessions::stored_sessions(chosen, store);
    let all = sessions::gathered(sessions, store);
    lemma_ids(sessions, store);
    if ids.contains(file.id) {
        let i = ids.index_of(file.id);
        assert(sessions::live(sessions, store)[i].session_id == file.id);
    }
    lemma_candidates(store.files, store.archived, ids);
    let keep = |g: FileView| !store.archived.contains(g.id) && !ids.contains(g.id);
    lemma_filter_holds(store.files, keep, f);
    let c = files.index_of(file);
    lemma_filter_len(store.files, keep);
    order::order_exists(sessions::newest_first(files));
    order::order_lists_every_row(sessions::newest_first(files));
    let o = order::order_of(sessions::newest_first(files));
    assert(o.contains(c));
    let at = choose|k: int| 0 <= k < o.len() && o[k] == c;
    assert(chosen[at] == file);
    assert forall|g: int| 0 <= g < at implies (#[trigger] chosen[g]).id != file.id by {
        assert(o[g] != o[at]);
        assert(chosen[g] == files[o[g]]);
        if files[o[g]].id == file.id {
            let other = store.files.index_of(files[o[g]]);
            assert(store.files[other] == files[o[g]]);
            if other != f {
                assert(store.files[other].id != store.files[f].id);
            }
            lemma_filter_once(store.files, keep, file, f, o[g], c);
        }
    }
    lemma_stored_lists(chosen, store, at);
    let j = found.index_of(sessions::stored_session(file, file.record->0, store));
    lemma_entry_from(file, store);
    let place = live.len() + j;
    assert((current + found)[place] == found[j]);
    assert(all[place] == sessions::titled(found[j], store));
    order::order_lists_every_row(sessions::by_activity(all, store));
    let p = order::order_of(sessions::by_activity(all, store));
    assert(p.contains(place));
    let k = choose|k: int| 0 <= k < p.len() && p[k] == place;
    assert(sessions::sidebar(sessions, store)[k] == all[place]);
}

proof fn lemma_filter_holds(files: Seq<FileView>, keep: spec_fn(FileView) -> bool, f: int)
    requires
        0 <= f < files.len(),
        keep(files[f]),
    ensures
        files.filter(keep).contains(files[f]),
    decreases files.len(),
{
    reveal(Seq::filter);
    let fewer = files.drop_last();
    if f < files.len() - 1 {
        lemma_filter_holds(fewer, keep, f);
        let k = fewer.filter(keep).index_of(files[f]);
        assert(files.filter(keep)[k] == files[f]);
    } else {
        assert(files.filter(keep)[files.filter(keep).len() - 1] == files[f]);
    }
}

proof fn lemma_filter_len(files: Seq<FileView>, keep: spec_fn(FileView) -> bool)
    ensures
        files.filter(keep).len() <= files.len(),
    decreases files.len(),
{
    reveal(Seq::filter);
    if files.len() > 0 {
        lemma_filter_len(files.drop_last(), keep);
    }
}

/// What occurs once is kept once.
proof fn lemma_filter_once(
    files: Seq<FileView>,
    keep: spec_fn(FileView) -> bool,
    file: FileView,
    f: int,
    a: int,
    b: int,
)
    requires
        0 <= f < files.len(),
        files[f] == file,
        forall|g: int| 0 <= g < files.len() && g != f ==> #[trigger] files[g] != file,
        0 <= a < files.filter(keep).len(),
        0 <= b < files.filter(keep).len(),
        files.filter(keep)[a] == file,
        files.filter(keep)[b] == file,
    ensures
        a == b,
    decreases files.len(),
{
    reveal(Seq::filter);
    let fewer = files.drop_last();
    let kept = fewer.filter(keep);
    if f == files.len() - 1 {
        assert forall|g: int| 0 <= g < kept.len() implies #[trigger] kept[g] != file by {
            lemma_filter_from(fewer, keep, g);
            let h = fewer.index_of(kept[g]);
            assert(files[h] == kept[g]);
            assert(files[h] != file);
        }
        if a < kept.len() {
            assert(kept[a] != file);
        }
        if b < kept.len() {
            assert(kept[b] != file);
        }
    } else {
        assert(files[files.len() - 1] != file);
        assert forall|g: int| 0 <= g < fewer.len() && g != f implies #[trigger] fewer[g]
            != file by {
            assert(files[g] != file);
        }
        lemma_filter_once(fewer, keep, file, f, a, b);
    }
}

proof fn lemma_filter_from(files: Seq<FileView>, keep: spec_fn(FileView) -> bool, k: int)
    requires
        0 <= k < files.filter(keep).len(),
    ensures
        files.contains(files.filter(keep)[k]),
    decreases files.len(),
{
    reveal(Seq::filter);
    let fewer = files.drop_last();
    let kept = fewer.filter(keep);
    if k < kept.len() {
        lemma_filter_from(fewer, keep, k);
        let h = fewer.index_of(kept[k]);
        assert(files[h] == files.filter(keep)[k]);
    } else {
        assert(files[files.len() - 1] == files.filter(keep)[k]);
    }
}

/// The sidebar grows by no more sessions of the store than it holds, and by none where the
/// runtime fills it.
pub proof fn the_store_fills_up_the_sidebar(sessions: Seq<SessionView>, store: StoreView)
    ensures
        ({
            let live = sessions::live(sessions, store).len();
            let shown = sessions::sidebar(sessions, store).len();
            &&& live <= shown
            &&& live >= MAX_PERSISTED_SIDEBAR_SESSIONS ==> shown == live
            &&& shown <= live + MAX_PERSISTED_SIDEBAR_SESSIONS
            &&& MAX_PERSISTED_SIDEBAR_SESSIONS == 100
        }),
{
    let ids = sessions::session_ids(sessions::live_with_status(sessions, store));
    let files = sessions::candidates(store.files, store.archived, ids);
    lemma_stored(sessions::picked(files), store);
}

/// Of the files that can be listed the most recent are: one that is passed over was written
/// no later than any that is taken.
pub proof fn the_most_recent_files_are_taken(files: Seq<FileView>, a: int, b: int)
    requires
        0 <= a < sessions::picked(files).len(),
        0 <= b < files.len(),
        forall|k: int| 0 <= k < sessions::picked(files).len() ==> #[trigger] sessions::picked(files)[k] != files[b],
    ensures
        sessions::recency(files[b]) <= sessions::recency(sessions::picked(files)[a]),
{
    let keys = sessions::newest_first(files);
    order::order_exists(keys);
    order::order_lists_every_row(keys);
    let o = order::order_of(keys);
    assert(o.contains(b));
    let at = choose|k: int| 0 <= k < o.len() && o[k] == b;
    let chosen = sessions::picked(files);
    assert(chosen[a] == files[o[a]]);
    if at < chosen.len() {
        assert(chosen[at] == files[b]);
    }
    assert(a < at);
    assert(order::before(keys[o[a]], keys[o[at]]) || (keys[o[a]] == keys[o[at]] && o[a] < o[at]));
}

/// The time of a file is when it was written; the time in its id counts where that is not
/// known.
pub proof fn files_are_as_recent_as_they_were_written(file: FileView)
    ensures
        file.modified_ms > 0 ==> sessions::recency(file) == file.modified_ms,
        file.modified_ms == 0 ==> sessions::recency(file) == (match crate::harness::stamp_of(
            file.id,
        ) {
            Some(ms) => ms,
            None => 0,
        }),
{
}

/// A session was last active when its file was last written: the last file of its id, unless
/// it is archived. Without one the time in its id counts.
pub proof fn sessions_are_as_active_as_their_files(
    id: Seq<char>,
    files: Seq<FileView>,
    archived: Seq<Seq<char>>,
    f: int,
)
    ensures
        !archived.contains(id) && 0 <= f < files.len() && files[f].id == id && (forall|g: int|
            f < g < files.len() ==> (#[trigger] files[g]).id != id) ==> sessions::activity(
            id,
            files,
            archived,
        ) == sessions::recency(files[f]),
        archived.contains(id) || (forall|g: int|
            0 <= g < files.len() ==> (#[trigger] files[g]).id != id) ==> sessions::activity(
            id,
            files,
            archived,
        ) == sessions::stamp_or_zero(id),
    decreases files.len(),
{
    if files.len() > 0 {
        let fewer = files.drop_last();
        let last = files.len() - 1;
        assert(files[last] == files.last());
        assert forall|g: int| 0 <= g < fewer.len() implies fewer[g] == #[trigger] files[g] by {}
        sessions_are_as_active_as_their_files(id, fewer, archived, f);
    }
}

/// Whether a todo is the one that a session is at: the last in progress, else the last that
/// is not completed, else the last.
pub open spec fn is_current(todos: Seq<TodoView>, i: int) -> bool {
    let progress = |t: TodoView| text::lower_all(t.status) == text::lower_all("in_progress"@);
    let completed = |t: TodoView| text::lower_all(t.status) == text::lower_all("completed"@);
    &&& 0 <= i < todos.len()
    &&& if exists|k: int| 0 <= k < todos.len() && progress(#[trigger] todos[k]) {
        progress(todos[i]) && forall|k: int| i < k < todos.len() ==> !progress(#[trigger] todos[k])
    } else if exists|k: int| 0 <= k < todos.len() && !completed(#[trigger] todos[k]) {
        !completed(todos[i]) && forall|k: int|
            i < k < todos.len() ==> completed(#[trigger] todos[k])
    } else {
        i == todos.len() - 1
    }
}

/// A session is titled by what it is at: the group of the current todo, else what the user
/// wants by it all, else the current todo itself; each without white space around it, and
/// none that is blank.
pub proof fn titles_tell_what_a_session_is_at(
    todos: Seq<TodoView>,
    intention: Option<Seq<char>>,
    i: int,
)
    requires
        is_current(todos, i),
    ensures
        ({
            let title = sessions::todo_title(todos, intention);
            &&& !is_untitled(todos[i].group) ==> title == Some(text::trim(todos[i].group->0))
            &&& is_untitled(todos[i].group) && !is_untitled(intention) ==> title == Some(
                text::trim(intention->0),
            )
            &&& is_untitled(todos[i].group) && is_untitled(intention) ==> title == (
            if text::all_white(todos[i].content) {
                None
            } else {
                Some(text::trim(todos[i].content))
            })
        }),
{
    lemma_current(todos, i);
    lemma_untitled(todos[i].group);
    lemma_untitled(intention);
    lemma_untitled(Some(todos[i].content));
}

/// Without any todos a session is titled by what the user wants by it.
pub proof fn intentions_title_sessions_without_todos(intention: Option<Seq<char>>)
    ensures
        sessions::todo_title(Seq::empty(), intention) == (if is_untitled(intention) {
            None
        } else {
            Some(text::trim(intention->0))
        }),
{
    lemma_untitled(intention);
}

proof fn lemma_current(todos: Seq<TodoView>, i: int)
    requires
        is_current(todos, i),
    ensures
        sessions::current_todo(todos) == Some(todos[i]),
{
    let progress = |t: TodoView| text::lower_all(t.status) == text::lower_all("in_progress"@);
    let completed = |t: TodoView| text::lower_all(t.status) == text::lower_all("completed"@);
    if exists|k: int| 0 <= k < todos.len() && progress(#[trigger] todos[k]) {
        lemma_in_progress(todos, i);
    } else {
        assert forall|k: int| 0 <= k < todos.len() implies !sessions::status_is(
            #[trigger] todos[k],
            "in_progress"@,
        ) by {
            assert(!progress(todos[k]));
        }
        lemma_none_in_progress(todos);
        if exists|k: int| 0 <= k < todos.len() && !completed(#[trigger] todos[k]) {
            lemma_open(todos, i);
        } else {
            assert forall|k: int| 0 <= k < todos.len() implies sessions::status_is(
                #[trigger] todos[k],
                "completed"@,
            ) by {
                assert(completed(todos[k]));
            }
            lemma_none_open(todos);
        }
    }
}

proof fn lemma_in_progress(todos: Seq<TodoView>, i: int)
    requires
        0 <= i < todos.len(),
        sessions::status_is(todos[i], "in_progress"@),
        forall|k: int|
            i < k < todos.len() ==> !sessions::status_is(#[trigger] todos[k], "in_progress"@),
    ensures
        sessions::last_in_progress(todos) == Some(todos[i]),
    decreases todos.len(),
{
    if i < todos.len() - 1 {
        assert(!sessions::status_is(todos[todos.len() - 1], "in_progress"@));
        lemma_in_progress(todos.drop_last(), i);
    }
}

proof fn lemma_none_in_progress(todos: Seq<TodoView>)
    requires
        forall|k: int|
            0 <= k < todos.len() ==> !sessions::status_is(#[trigger] todos[k], "in_progress"@),
    ensures
        sessions::last_in_progress(todos) is None,
    decreases todos.len(),
{
    if todos.len() > 0 {
        assert(!sessions::status_is(todos[todos.len() - 1], "in_progress"@));
        lemma_none_in_progress(todos.drop_last());
    }
}

proof fn lemma_open(todos: Seq<TodoView>, i: int)
    requires
        0 <= i < todos.len(),
        !sessions::status_is(todos[i], "completed"@),
        forall|k: int|
            i < k < todos.len() ==> sessions::status_is(#[trigger] todos[k], "completed"@),
    ensures
        sessions::last_open(todos) == Some(todos[i]),
    decreases todos.len(),
{
    if i < todos.len() - 1 {
        assert(sessions::status_is(todos[todos.len() - 1], "completed"@));
        lemma_open(todos.drop_last(), i);
    }
}

proof fn lemma_none_open(todos: Seq<TodoView>)
    requires
        forall|k: int|
            0 <= k < todos.len() ==> sessions::status_is(#[trigger] todos[k], "completed"@),
    ensures
        sessions::last_open(todos) is None,
    decreases todos.len(),
{
    if todos.len() > 0 {
        assert(sessions::status_is(todos[todos.len() - 1], "completed"@));
        lemma_none_open(todos.drop_last());
    }
}

/// Whether the todos of a session are in a file: the first that names the session.
pub open spec fn is_todo_file(store: StoreView, id: Seq<char>, f: int) -> bool {
    &&& 0 <= f < store.todo_files.len()
    &&& store.todo_files[f].session_id == id
    &&& forall|g: int| 0 <= g < f ==> (#[trigger] store.todo_files[g]).session_id != id
}

proof fn lemma_todo_file(files: Seq<TodoFileView>, id: Seq<char>, from: int, f: int)
    requires
        0 <= from <= f < files.len(),
        files[f].session_id == id,
        forall|g: int| from <= g < f ==> (#[trigger] files[g]).session_id != id,
    ensures
        sessions::todo_file_of(files, id, from) == Some(files[f]),
    decreases f - from,
{
    if from < f {
        assert(files[from].session_id != id);
        lemma_todo_file(files, id, from + 1, f);
    }
}

/// A session of this host takes its title from its own todos and no other's; a remote session
/// has none here.
pub proof fn titles_are_of_the_sessions_own_todos(store: StoreView, id: Seq<char>, f: int)
    ensures
        text::starts(id, "ssh://"@) ==> sessions::stored_title(store, id) is None,
        !text::starts(id, "ssh://"@) && is_todo_file(store, id, f) ==> sessions::stored_title(
            store,
            id,
        ) == sessions::todo_title(
            if store.todo_files[f].todos is Some {
                store.todo_files[f].todos->0
            } else {
                Seq::empty()
            },
            store.todo_files[f].user_intention,
        ),
        (forall|g: int|
            0 <= g < store.todo_files.len() ==> (#[trigger] store.todo_files[g]).session_id != id)
            ==> sessions::stored_title(store, id) is None,
{
    if is_todo_file(store, id, f) {
        lemma_todo_file(store.todo_files, id, 0, f);
    }
    if forall|g: int|
        0 <= g < store.todo_files.len() ==> (#[trigger] store.todo_files[g]).session_id != id {
        lemma_no_todo_file(store.todo_files, id, 0);
    }
}

proof fn lemma_no_todo_file(files: Seq<TodoFileView>, id: Seq<char>, from: int)
    requires
        0 <= from <= files.len(),
        forall|g: int| 0 <= g < files.len() ==> (#[trigger] files[g]).session_id != id,
    ensures
        sessions::todo_file_of(files, id, from) is None,
    decreases files.len() - from,
{
    if from < files.len() {
        assert(files[from].session_id != id);
        lemma_no_todo_file(files, id, from + 1);
    }
}

/// Work is left in a session of this host that does not run and has todos which are not
/// completed; those are what is left, in their order. It goes by the session's title, else
/// by that of its todos, else by its id.
pub proof fn unfinished_work_is_what_is_not_completed(
    session: SessionView,
    store: StoreView,
    f: int,
)
    requires
        is_todo_file(store, session.session_id, f),
        store.todo_files[f].todos is Some,
    ensures
        ({
            let left = store.todo_files[f].todos->0.filter(
                |t: TodoView| text::lower_all(t.status) != text::lower_all("completed"@),
            );
            let runs = session.status == "active"@ || session.status == "running"@
                || session.status == "working"@;
            let found = sessions::left_in(session, store);
            &&& found is Some <==> !text::starts(session.session_id, "ssh://"@) && !runs
                && left.len() > 0
            &&& found matches Some(work) ==> {
                &&& work.session_id == session.session_id
                &&& work.working_dir == session.working_dir
                &&& work.todos == left
                &&& !is_untitled(session.title) ==> work.title == session.title->0
                &&& is_untitled(session.title) ==> work.title == (match sessions::stored_title(
                    store,
                    session.session_id,
                ) {
                    Some(title) => title,
                    None => session.session_id,
                })
            }
        }),
{
    lemma_todo_file(store.todo_files, session.session_id, 0, f);
    lemma_open_todos(store.todo_files[f].todos->0);
    if session.title is Some {
        text::trimming_takes_the_white_ends(session.title->0);
    }
}

proof fn lemma_open_todos(todos: Seq<TodoView>)
    ensures
        sessions::open_todos(todos) == todos.filter(
            |t: TodoView| text::lower_all(t.status) != text::lower_all("completed"@),
        ),
    decreases todos.len(),
{
    reveal(Seq::filter);
    if todos.len() > 0 {
        lemma_open_todos(todos.drop_last());
    }
}

/// The unfinished sessions are those with work left, each once and in their order.
pub proof fn unfinished_sessions_keep_their_order(
    sessions: Seq<SessionView>,
    store: StoreView,
    i: int,
)
    requires
        0 <= i < sessions.len(),
    ensures
        sessions::left_in(sessions[i], store) is None ==> sessions::unfinished(sessions, store)
            == sessions::unfinished(sessions.remove(i), store),
        sessions::left_in(sessions[i], store) matches Some(work) ==> sessions::unfinished(
            sessions,
            store,
        ) == sessions::unfinished(sessions.take(i), store) + seq![work] + sessions::unfinished(
            sessions.skip(i + 1),
            store,
        ),
{
    let first = sessions.take(i);
    let rest = sessions.skip(i + 1);
    let one = seq![sessions[i]];
    assert(sessions =~= first + one + rest);
    assert(sessions.remove(i) =~= first + rest);
    lemma_unfinished_add(first, rest, store);
    lemma_unfinished_add(first + one, rest, store);
    assert((first + one).drop_last() =~= first);
    assert((first + one).last() == sessions[i]);
}

proof fn lemma_unfinished_add(a: Seq<SessionView>, b: Seq<SessionView>, store: StoreView)
    ensures
        sessions::unfinished(a + b, store) == sessions::unfinished(a, store)
            + sessions::unfinished(b, store),
    decreases b.len(),
{
    if b.len() == 0 {
        assert(a + b =~= a);
        assert(sessions::unfinished(a, store) + sessions::unfinished(b, store)
            =~= sessions::unfinished(a, store));
    } else {
        lemma_unfinished_add(a, b.drop_last(), store);
        assert((a + b).drop_last() =~= a + b.drop_last());
        assert(sessions::unfinished(a + b, store) =~= sessions::unfinished(a, store)
            + sessions::unfinished(b, store));
    }
}

/// A stored status is shown in small letters where it is one of those that a session passes
/// through; any other leaves the session idle.
pub proof fn stored_statuses_are_of_a_kind(status: json::JsonView)
    ensures
        ({
            let s = sessions::shown_status(status);
            s == "idle"@ || s == "active"@ || s == "closed"@ || s == "crashed"@ || s == "reloaded"@
                || s == "compacted"@ || s == "ratelimited"@ || s == "rate_limited"@ || s
                == "error"@
        }),
        status matches json::JsonView::Text(name) ==> {
            let s = text::lower_all(name);
            (s == "active"@ || s == "closed"@ || s == "crashed"@ || s == "reloaded"@ || s
                == "compacted"@ || s == "ratelimited"@ || s == "rate_limited"@ || s == "error"@)
                ==> sessions::shown_status(status) == s
        },
        status matches json::JsonView::Object(entries) ==> (entries.len() > 0 ==> {
            let s = text::lower_all(entries[0].0);
            (s == "active"@ || s == "closed"@ || s == "crashed"@ || s == "reloaded"@ || s
                == "compacted"@ || s == "ratelimited"@ || s == "rate_limited"@ || s == "error"@)
                ==> sessions::shown_status(status) == s
        }),
        !(status is Text) && !(status is Object) ==> sessions::shown_status(status) == "idle"@,
{
    if !(status is Text) && !(status is Object) {
        lemma_idle_is_no_stage();
    }
}

proof fn lemma_idle_is_no_stage()
    ensures
        text::lower_all("idle"@).len() == 4,
        !sessions::is_lifecycle_status(text::lower_all("idle"@)),
{
    reveal_strlit("idle");
    reveal_strlit("active");
    reveal_strlit("closed");
    reveal_strlit("crashed");
    reveal_strlit("reloaded");
    reveal_strlit("compacted");
    reveal_strlit("ratelimited");
    reveal_strlit("rate_limited");
    reveal_strlit("error");
    let s = text::lower_all("idle"@);
    assert("active"@.len() == 6 && "closed"@.len() == 6 && "crashed"@.len() == 7);
    assert("reloaded"@.len() == 8 && "compacted"@.len() == 9 && "error"@.len() == 5);
    assert("ratelimited"@.len() == 11 && "rate_limited"@.len() == 12);
}

/// The archive names sessions by the names under its `sessions`, and nothing else does.
pub proof fn archives_name_sessions(archive: json::JsonView, id: Seq<char>)
    ensures
        sessions::archived_in(archive).contains(id) <==> (archive.get("sessions"@)
            matches Some(json::JsonView::Object(entries)) && exists|i: int|
            0 <= i < entries.len() && (#[trigger] entries[i]).0 == id),
{
    if let Some(json::JsonView::Object(entries)) = archive.get("sessions"@) {
        let ids = sessions::archived_in(archive);
        if exists|i: int| 0 <= i < entries.len() && (#[trigger] entries[i]).0 == id {
            let i = choose|i: int| 0 <= i < entries.len() && (#[trigger] entries[i]).0 == id;
            assert(ids[i] == id);
        }
        if ids.contains(id) {
            let i = ids.index_of(id);
            assert(entries[i].0 == id);
        }
    }
}

/// A field's name is looked for at its first or at its last place in a text.
pub proof fn fields_are_found_at_either_end(s: Seq<u8>, p: Seq<u8>)
    ensures
        match sessions::first_bytes(s, p, 0) {
            Some(i) => 0 <= i && i + p.len() <= s.len() && s.subrange(i, i + p.len()) == p
                && forall|k: int| 0 <= k < i ==> !sessions::bytes_at(s, p, k),
            None => forall|k: int| !sessions::bytes_at(s, p, k),
        },
        match sessions::last_bytes(s, p, s.len() as int + 1) {
            Some(i) => 0 <= i && i + p.len() <= s.len() && s.subrange(i, i + p.len()) == p
                && forall|k: int| i < k ==> !sessions::bytes_at(s, p, k),
            None => forall|k: int| !sessions::bytes_at(s, p, k),
        },
{
    lemma_first_bytes(s, p, 0);
    lemma_last_bytes(s, p, s.len() as int + 1);
}

proof fn lemma_first_bytes(s: Seq<u8>, p: Seq<u8>, from: int)
    requires
        0 <= from <= s.len() + 1,
    ensures
        match sessions::first_bytes(s, p, from) {
            Some(i) => from <= i && sessions::bytes_at(s, p, i) && forall|k: int|
                from <= k < i ==> !sessions::bytes_at(s, p, k),
            None => forall|k: int| from <= k ==> !sessions::bytes_at(s, p, k),
        },
    decreases s.len() + 1 - from,
{
    if from <= s.len() && !sessions::bytes_at(s, p, from) {
        lemma_first_bytes(s, p, from + 1);
    }
}

proof fn lemma_last_bytes(s: Seq<u8>, p: Seq<u8>, to: int)
    requires
        0 <= to <= s.len() + 1,
    ensures
        match sessions::last_bytes(s, p, to) {
            Some(i) => 0 <= i < to && sessions::bytes_at(s, p, i) && forall|k: int|
                i < k < to ==> !sessions::bytes_at(s, p, k),
            None => forall|k: int| k < to ==> !sessions::bytes_at(s, p, k),
        },
    decreases to,
{
    if to > 0 && !sessions::bytes_at(s, p, to - 1) {
        lemma_last_bytes(s, p, to - 1);
    }
}

} // verus!
