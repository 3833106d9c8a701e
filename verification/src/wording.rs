//! What holds of the words that are shown, and of the values that are read from texts.
use vstd::prelude::*;

use crate::json;
use crate::json::JsonView;
use crate::labels;
use crate::text;

verus! {

/// A session without a name is called by the end of its id: by all of it where it is short.
pub proof fn sessions_are_called_by_the_end_of_their_id(id: Seq<char>)
    ensures
        ({
            let name = labels::short_name(id);
            &&& name.take(8) == "session "@
            &&& id.len() <= 8 ==> name.skip(8) == id
            &&& id.len() >= 8 ==> name.len() == 16 && forall|k: int|
                0 <= k < 8 ==> name[8 + k] == #[trigger] id[id.len() - 8 + k]
        }),
{
    reveal_strlit("session ");
    let name = labels::short_name(id);
    assert("session "@.len() == 8);
    assert(name.take(8) =~= "session "@);
    if id.len() <= 8 {
        assert(name.skip(8) =~= id);
    }
}

/// A session's own title is what is left of it without white space around it, unless that
/// only tells the id.
pub proof fn own_titles_say_more_than_the_id(id: Seq<char>, title: Seq<char>)
    ensures
        match labels::own_title(id, title) {
            Some(own) => own == text::trim(title) && own.len() > 0 && own != id && own
                != labels::short_name(id),
            None => text::trim(title).len() == 0 || text::trim(title) == id || text::trim(title)
                == labels::short_name(id),
        },
{
}

/// A session is labelled by the words of its own title; one without a title is a new one.
pub proof fn sessions_are_labelled_by_their_title(id: &str, title: &str, label: String)
    requires
        call_ensures(labels::folder_session_title, (id, title), label),
    ensures
        labels::own_title(id@, title@) is Some ==> label@ == text::join(
            text::words(text::trim(title@)),
            " "@,
        ),
        labels::own_title(id@, title@) is None ==> label@ == text::join(
            text::words("New session"@),
            " "@,
        ),
{
}

/// A text is clipped behind: what is left of it is its beginning up to the limit, without
/// white space at the cut, and the cut is marked.
pub proof fn texts_are_clipped_behind(s: Seq<char>, limit: nat)
    ensures
        ({
            let flat = text::join(text::words(s), " "@);
            let r = labels::condensed(s, limit);
            &&& flat.len() <= limit ==> r == flat
            &&& flat.len() > limit ==> {
                let kept = r.len() - 1;
                &&& 0 <= kept <= limit
                &&& r[kept] == '…'
                &&& r.take(kept) == flat.take(kept)
                &&& kept > 0 ==> !text::is_white(flat[kept - 1])
                &&& forall|k: int| kept <= k < limit ==> text::is_white(#[trigger] flat[k])
            }
        }),
{
    reveal_strlit("…");
    let flat = text::collapse(s);
    if flat.len() > limit {
        let head = flat.take(limit as int);
        let j = lemma_cut_behind(head);
        let r = labels::condensed(s, limit);
        assert("…"@.len() == 1 && "…"@[0] == '…');
        assert(text::trim_end(head) == head.take(j));
        assert(r.take(j) =~= flat.take(j));
        assert(r.len() == j + 1 && r[j] == '…');
        assert forall|k: int| j <= k < limit implies text::is_white(#[trigger] flat[k]) by {
            assert(head[k] == flat[k]);
        }
    }
}

proof fn lemma_cut_behind(s: Seq<char>) -> (j: int)
    ensures
        0 <= j <= s.len(),
        text::trim_end(s) == s.take(j),
        j > 0 ==> !text::is_white(s[j - 1]),
        forall|k: int| j <= k < s.len() ==> text::is_white(#[trigger] s[k]),
    decreases s.len(),
{
    if s.len() > 0 && text::is_white(s.last()) {
        let fewer = s.drop_last();
        let j = lemma_cut_behind(fewer);
        assert(fewer.take(j) =~= s.take(j));
        assert forall|k: int| j <= k < s.len() implies text::is_white(#[trigger] s[k]) by {
            if k < fewer.len() {
                assert(fewer[k] == s[k]);
            }
        }
        if j > 0 {
            assert(fewer[j - 1] == s[j - 1]);
        }
        j
    } else {
        assert(s.take(s.len() as int) =~= s);
        s.len() as int
    }
}

proof fn lemma_cut_before(s: Seq<char>) -> (i: int)
    ensures
        0 <= i <= s.len(),
        text::trim_start(s) == s.skip(i),
        i < s.len() ==> !text::is_white(s[i]),
        forall|k: int| 0 <= k < i ==> text::is_white(#[trigger] s[k]),
    decreases s.len(),
{
    if s.len() > 0 && text::is_white(s[0]) {
        let fewer = s.drop_first();
        let i = lemma_cut_before(fewer);
        assert(fewer.skip(i) =~= s.skip(i + 1));
        assert forall|k: int| 0 <= k < i + 1 implies text::is_white(#[trigger] s[k]) by {
            if k > 0 {
                assert(fewer[k - 1] == s[k]);
            }
        }
        if i < fewer.len() {
            assert(fewer[i] == s[i + 1]);
        }
        i + 1
    } else {
        assert(s.skip(0) =~= s);
        0
    }
}

/// A text is clipped in front: what is left of it is its end, without white space at the
/// cut, and the cut is marked.
pub proof fn texts_are_clipped_in_front(s: Seq<char>, limit: nat)
    ensures
        ({
            let flat = text::join(text::words(s), " "@);
            let r = labels::condensed_tail(s, limit);
            &&& flat.len() <= limit ==> r == flat
            &&& flat.len() > limit ==> {
                let kept = r.len() - 1;
                &&& 0 <= kept <= limit
                &&& r[0] == '…'
                &&& r.skip(1) == flat.skip(flat.len() - kept)
                &&& kept > 0 ==> !text::is_white(flat[flat.len() - kept])
                &&& forall|k: int|
                    flat.len() - limit <= k < flat.len() - kept ==> text::is_white(#[trigger] flat[k])
            }
        }),
{
    reveal_strlit("…");
    let flat = text::collapse(s);
    if flat.len() > limit {
        let from = flat.len() - limit;
        let tail = flat.skip(from);
        let i = lemma_cut_before(tail);
        let r = labels::condensed_tail(s, limit);
        assert("…"@.len() == 1 && "…"@[0] == '…');
        assert(r.skip(1) =~= flat.skip(from + i));
        assert(r.len() == 1 + limit - i);
        assert forall|k: int| from <= k < from + i implies text::is_white(#[trigger] flat[k]) by {
            assert(tail[k - from] == flat[k]);
        }
        if i < limit {
            assert(tail[i] == flat[from + i]);
        }
    }
}

/// A prompt gives a title unless it is blank or a command; the title is its beginning.
pub proof fn prompts_give_titles(prompt: Seq<char>)
    ensures
        ({
            let flat = text::join(text::words(prompt), " "@);
            &&& labels::prompt_title(prompt) is None <==> flat.len() == 0 || flat[0] == '/'
            &&& labels::prompt_title(prompt) is Some && flat.len() <= 64 ==> labels::prompt_title(
                prompt,
            )->0 == flat
            &&& labels::prompt_title(prompt) is Some && flat.len() > 64 ==> {
                let title = labels::prompt_title(prompt)->0;
                let kept = title.len() - 1;
                &&& 0 <= kept <= 64
                &&& title[kept] == '…'
                &&& title.take(kept) == flat.take(kept)
            }
        }),
{
    texts_are_clipped_behind(prompt, 64);
}

/// A control sequence, which an escape and a bracket begin, is dropped up to its final
/// character; what follows it is treated as if it had not been there.
pub proof fn control_sequences_are_dropped(parameters: Seq<char>, end: char, rest: Seq<char>)
    requires
        '@' <= end,
        end <= '~',
        forall|k: int|
            0 <= k < parameters.len() ==> !('@' <= #[trigger] parameters[k] && parameters[k] <= '~'),
    ensures
        labels::plain(seq!['\u{1b}', '['] + parameters + seq![end] + rest) == labels::plain(rest),
{
    let s = seq!['\u{1b}', '['] + parameters + seq![end] + rest;
    lemma_control(parameters, end, rest);
    assert(s.skip(2) =~= parameters + seq![end] + rest);
}

proof fn lemma_control(parameters: Seq<char>, end: char, rest: Seq<char>)
    requires
        '@' <= end,
        end <= '~',
        forall|k: int|
            0 <= k < parameters.len() ==> !('@' <= #[trigger] parameters[k] && parameters[k] <= '~'),
    ensures
        labels::after_control(parameters + seq![end] + rest) == rest,
    decreases parameters.len(),
{
    let s = parameters + seq![end] + rest;
    if parameters.len() == 0 {
        assert(s[0] == end);
        assert(s.drop_first() =~= rest);
    } else {
        let fewer = parameters.drop_first();
        assert forall|k: int| 0 <= k < fewer.len() implies !('@' <= #[trigger] fewer[k] && fewer[k]
            <= '~') by {
            assert(fewer[k] == parameters[k + 1]);
        }
        lemma_control(fewer, end, rest);
        assert(s[0] == parameters[0]);
        assert(s.drop_first() =~= fewer + seq![end] + rest);
    }
}

/// A command to the system, which an escape and the other bracket begin, is dropped up to
/// the bell that ends it.
pub proof fn system_commands_are_dropped(body: Seq<char>, rest: Seq<char>)
    requires
        forall|k: int|
            0 <= k < body.len() ==> #[trigger] body[k] != '\u{7}' && body[k] != '\u{1b}',
    ensures
        labels::plain(seq!['\u{1b}', ']'] + body + seq!['\u{7}'] + rest) == labels::plain(rest),
        labels::plain(seq!['\u{1b}', ']'] + body + seq!['\u{1b}', '\\'] + rest) == labels::plain(
            rest,
        ),
{
    let s = seq!['\u{1b}', ']'] + body + seq!['\u{7}'] + rest;
    lemma_command(body, seq!['\u{7}'] + rest);
    let bell = seq!['\u{7}'] + rest;
    assert(bell.drop_first() =~= rest);
    assert(s.skip(2) =~= body + (seq!['\u{7}'] + rest));
    let t = seq!['\u{1b}', ']'] + body + seq!['\u{1b}', '\\'] + rest;
    let end = seq!['\u{1b}', '\\'] + rest;
    lemma_command(body, end);
    assert(end.skip(2) =~= rest);
    assert(t.skip(2) =~= body + end);
}

proof fn lemma_command(body: Seq<char>, end: Seq<char>)
    requires
        forall|k: int|
            0 <= k < body.len() ==> #[trigger] body[k] != '\u{7}' && body[k] != '\u{1b}',
    ensures
        labels::after_command(body + end) == labels::after_command(end),
    decreases body.len(),
{
    let s = body + end;
    if body.len() > 0 {
        let fewer = body.drop_first();
        assert forall|k: int| 0 <= k < fewer.len() implies #[trigger] fewer[k] != '\u{7}'
            && fewer[k] != '\u{1b}' by {
            assert(fewer[k] == body[k + 1]);
        }
        lemma_command(fewer, end);
        assert(s[0] == body[0]);
        assert(s.drop_first() =~= fewer + end);
    } else {
        assert(s =~= end);
    }
}

/// The choice of a character set is dropped with its final character, and so is any other
/// pair of an escape and a character.
pub proof fn short_sequences_are_dropped(intermediate: char, end: char, other: char, rest: Seq<char>)
    requires
        ' ' <= intermediate,
        intermediate <= '/',
        '0' <= end,
        end <= '~',
        other != '[',
        other != ']',
        !(' ' <= other && other <= '/'),
    ensures
        labels::plain(seq!['\u{1b}', intermediate, end] + rest) == labels::plain(rest),
        labels::plain(seq!['\u{1b}', other] + rest) == labels::plain(rest),
{
    let s = seq!['\u{1b}', intermediate, end] + rest;
    assert(s.skip(2) =~= seq![end] + rest);
    assert((seq![end] + rest).drop_first() =~= rest);
    let t = seq!['\u{1b}', other] + rest;
    assert(t.skip(2) =~= rest);
}

/// What comes before a sequence stays in front of what is left of the rest.
pub proof fn plain_characters_stay(before: Seq<char>, rest: Seq<char>)
    requires
        !before.contains('\u{1b}'),
    ensures
        labels::plain(before + rest) == before + labels::plain(rest),
    decreases before.len(),
{
    if before.len() > 0 {
        let fewer = before.drop_first();
        assert(!fewer.contains('\u{1b}')) by {
            if fewer.contains('\u{1b}') {
                let k = choose|k: int| 0 <= k < fewer.len() && fewer[k] == '\u{1b}';
                assert(before[k + 1] == '\u{1b}');
            }
        }
        assert(before.contains(before[0]));
        plain_characters_stay(fewer, rest);
        assert((before + rest).drop_first() =~= fewer + rest);
        assert(seq![before[0]] + (fewer + labels::plain(rest)) =~= before + labels::plain(rest));
    } else {
        assert(before + rest =~= rest);
        assert(before + labels::plain(rest) =~= labels::plain(rest));
    }
}

/// A block is clipped in its middle: two thirds of the lines that stay are its first ones,
/// the others its last ones, and between them it says how many are hidden.
pub proof fn blocks_are_clipped_in_their_middle(s: Seq<char>, max: nat)
    ensures
        ({
            let all = text::lines(s);
            let r = labels::clipped(s, max);
            let head = text::join(all.take(((max * 2) / 3) as int), "\n"@);
            let tail = text::join(all.skip(all.len() - (max - (max * 2) / 3)), "\n"@);
            &&& all.len() <= max ==> r == s
            &&& all.len() > max ==> r.len() > head.len() + tail.len() && r.take(head.len() as int)
                == head && r.skip(r.len() - tail.len()) == tail && r.subrange(
                head.len() as int,
                r.len() - tail.len(),
            ) == "\n… "@ + text::decimal((all.len() - max) as nat) + " lines hidden …\n"@
        }),
{
    let all = text::lines(s);
    let r = labels::clipped(s, max);
    if all.len() > max {
        reveal_strlit("\n… ");
        let head = text::join(all.take(((max * 2) / 3) as int), "\n"@);
        let tail = text::join(all.skip(all.len() - (max - (max * 2) / 3)), "\n"@);
        let middle = "\n… "@ + text::decimal((all.len() - max) as nat) + " lines hidden …\n"@;
        assert("\n… "@.len() == 3);
        assert(r == head + middle + tail);
        assert(r.take(head.len() as int) =~= head);
        assert(r.skip(r.len() - tail.len()) =~= tail);
        assert(r.subrange(head.len() as int, r.len() - tail.len()) =~= middle);
    }
}

/// The scalars of JSON read as what they say; what is no scalar does not.
pub proof fn scalars_read_as_what_they_say(value: JsonView)
    ensures
        value is Text ==> labels::scalar(value) == Some(value->Text_0),
        value is Number ==> labels::scalar(value) == Some(value->text),
        value == JsonView::Bool(true) ==> labels::scalar(value) == Some("true"@),
        value == JsonView::Bool(false) ==> labels::scalar(value) == Some("false"@),
        value is Null || value is Array || value is Object ==> labels::scalar(value) is None,
{
}

/// A call is summed up by what it says it is for; where it says nothing, by its arguments
/// once they are complete, and until then not at all.
pub proof fn calls_are_summed_up(summary: Option<&str>, input: &str, line: String)
    requires
        call_ensures(labels::tool_summary, (summary, input), line),
    ensures
        ({
            let said = match summary {
                Some(s) => s@,
                None => input@,
            };
            let flat = text::join(text::words(said), " "@);
            &&& summary is None && json::json_text(input@) is None ==> line@.len() == 0
            &&& summary is Some || json::json_text(input@) is Some ==> {
                &&& flat.len() <= 90 ==> line@ == flat
                &&& flat.len() > 90 ==> 0 < line@.len() <= 91 && line@.last() == '…'
                    && line@.drop_last() == flat.take(line@.len() - 1)
            }
        }),
{
    texts_are_clipped_behind(input@, 90);
    if let Some(s) = summary {
        texts_are_clipped_behind(s@, 90);
    }
    if summary is Some || json::json_text(input@) is Some {
        assert(line@.drop_last() =~= line@.take(line@.len() - 1));
    }
}

/// A call's detail names it, shows its arguments, and shows what it gave back where that is
/// anything.
pub proof fn details_show_the_call(name: Seq<char>, arguments: Seq<char>, output: Seq<char>)
    ensures
        ({
            let r = labels::call_detail(name, arguments, output);
            let call = "Tool call\n"@ + text::trim(name) + "\n"@ + labels::clipped(arguments, 40);
            let gave = "\n\nOutput\n"@ + labels::clipped(text::trim(labels::plain(output)), 40);
            &&& text::trim(output).len() == 0 ==> r == call
            &&& text::trim(output).len() > 0 ==> r == call + gave
        }),
{
    reveal_strlit("\n\nOutput\n");
    reveal_strlit("\n\n");
    reveal_strlit("Output\n");
    let r = labels::call_detail(name, arguments, output);
    let call = "Tool call\n"@ + text::trim(name) + "\n"@ + labels::clipped(arguments, 40);
    let gave = "\n\nOutput\n"@ + labels::clipped(text::trim(labels::plain(output)), 40);
    assert("\n\n"@ + "Output\n"@ =~= "\n\nOutput\n"@);
    if text::trim(output).len() == 0 {
        assert(r =~= call);
    } else {
        assert(r =~= call + gave);
    }
}

/// Arguments are shown without white space around them, and never as nothing.
pub proof fn arguments_are_shown(input: Seq<char>)
    ensures
        text::trim(input).len() > 0 ==> labels::shown_arguments(input) == text::trim(input),
        text::trim(input).len() == 0 ==> labels::shown_arguments(input) == "{}"@,
{
}

/// An account is labelled by what is known of it: the provider first, then the method.
pub proof fn accounts_are_labelled_by_what_is_known(
    provider: Option<Seq<char>>,
    method: Option<Seq<char>>,
)
    ensures
        ({
            let r = labels::account_label(provider, method);
            let p = provider is Some && provider->0.len() > 0;
            let m = method is Some && method->0.len() > 0;
            &&& !p && !m ==> r == "Accounts"@
            &&& p && !m ==> r == provider->0
            &&& !p && m ==> r == method->0
            &&& p && m ==> r.take(provider->0.len() as int) == provider->0 && r.skip(
                r.len() - method->0.len(),
            ) == method->0 && r.len() == provider->0.len() + 3 + method->0.len()
        }),
{
    reveal_strlit(" · ");
    let r = labels::account_label(provider, method);
    if provider is Some && provider->0.len() > 0 && method is Some && method->0.len() > 0 {
        assert(" · "@.len() == 3);
        assert(r.take(provider->0.len() as int) =~= provider->0);
        assert(r.skip(r.len() - method->0.len()) =~= method->0);
    }
}

/// What is used of the context is told first, and of how much where that is known.
pub proof fn usage_is_told_of_the_window(
    used: Option<&str>,
    window: Option<(&str, &str)>,
    label: Option<String>,
)
    requires
        call_ensures(labels::context_usage_label, (used, window), label),
    ensures
        label is Some <==> used is Some,
        used is Some ==> label->0@.len() >= used->0@.len() && label->0@.take(
            used->0@.len() as int,
        ) == used->0@,
        used is Some && window is None ==> label->0@.skip(used->0@.len() as int) == " tokens"@,
        used is Some && window is Some ==> label->0@.skip(used->0@.len() as int) == " / "@
            + (window->0).0@ + " ("@ + (window->0).1@ + "%)"@,
{
    if let Some(u) = used {
        let l = label->0@;
        assert(l.take(u@.len() as int) =~= u@);
        if let Some((size, percent)) = window {
            assert(l.skip(u@.len() as int) =~= " / "@ + size@ + " ("@ + percent@ + "%)"@);
        } else {
            assert(l.skip(u@.len() as int) =~= " tokens"@);
        }
    }
}

/// A path below the home directory is told from there, which alone is shortened; a path that
/// only begins alike is not.
pub proof fn paths_are_told_from_home(home: Seq<char>, below: Seq<char>, path: Seq<char>)
    ensures
        labels::short_path(home + "/"@ + below, Some(home)) == "~/"@ + below,
        labels::short_path(home, Some(home)) == "~ (home)"@,
        labels::short_path(path, None) == path,
        path != home && !text::starts(path, home + "/"@) ==> labels::short_path(path, Some(home))
            == path,
{
    reveal_strlit("/");
    let p = home + "/"@;
    let full = home + "/"@ + below;
    assert(full.subrange(0, p.len() as int) =~= p);
    assert(full.subrange(p.len() as int, full.len() as int) =~= below);
    assert(full.len() > home.len());
}

/// A command is named by its first word, and the answer to one that does nothing holds that
/// name.
pub proof fn unavailable_commands_are_named(input: &str, help: Option<&str>, answer: String)
    requires
        call_ensures(labels::command_unavailable_message, (input, help), answer),
    ensures
        ({
            let name = if text::words(input@).len() > 0 {
                text::words(input@)[0]
            } else {
                input@
            };
            &&& text::holds(answer@, name)
            &&& help is Some ==> text::holds(answer@, text::lower_all(help->0@))
            &&& help is Some ==> answer@[0] == '`'
            &&& help is None ==> answer@[0] == 'U'
        }),
{
    let name = labels::named_command(input@);
    let a = answer@;
    reveal_strlit("`");
    reveal_strlit("Unknown command: `");
    reveal_strlit("` is a Jcode command, but its ");
    match help {
        Some(h) => {
            let low = text::lower_all(h@);
            let from = 1 + name.len() + "` is a Jcode command, but its "@.len();
            assert(a.subrange(1, 1 + name.len() as int) =~= name);
            assert(text::at(a, name, 1));
            assert(a.subrange(from as int, (from + low.len()) as int) =~= low);
            assert(text::at(a, low, from as int));
        },
        None => {
            let from = "Unknown command: `"@.len() as int;
            assert(a.subrange(from, from + name.len()) =~= name);
            assert(text::at(a, name, from));
        },
    }
}

/// A field has the value that stands under its name first.
pub proof fn fields_have_their_first_value(value: JsonView, name: Seq<char>)
    ensures
        match value.get(name) {
            Some(found) => value is Object && exists|i: int|
                0 <= i < value->Object_0.len() && (#[trigger] value->Object_0[i]) == (name, found)
                    && forall|k: int| 0 <= k < i ==> (#[trigger] value->Object_0[k]).0 != name,
            None => value is Object ==> forall|k: int|
                0 <= k < value->Object_0.len() ==> (#[trigger] value->Object_0[k]).0 != name,
        },
        value.field_text(name) is Some ==> value.get(name) == Some(
            JsonView::Text(value.field_text(name)->0),
        ),
        value.get(name) is Some && value.get(name)->0 is Text ==> value.field_text(name) is Some,
        value.field_items(name) is Some ==> value.get(name) == Some(
            JsonView::Array(value.field_items(name)->0),
        ),
        value.get(name) is Some && value.get(name)->0 is Array ==> value.field_items(name) is Some,
{
    if let JsonView::Object(entries) = value {
        lemma_entry(entries, name);
    }
}

proof fn lemma_entry(entries: Seq<(Seq<char>, JsonView)>, name: Seq<char>)
    ensures
        match json::entry(entries, name) {
            Some(found) => exists|i: int|
                0 <= i < entries.len() && (#[trigger] entries[i]) == (name, found) && forall|k: int|
                    0 <= k < i ==> (#[trigger] entries[k]).0 != name,
            None => forall|k: int| 0 <= k < entries.len() ==> (#[trigger] entries[k]).0 != name,
        },
    decreases entries.len(),
{
    if entries.len() > 0 {
        if entries[0].0 == name {
            assert(entries[0] == (name, entries[0].1));
        } else {
            let rest = entries.drop_first();
            lemma_entry(rest, name);
            match json::entry(rest, name) {
                Some(found) => {
                    let i = choose|i: int|
                        0 <= i < rest.len() && (#[trigger] rest[i]) == (name, found) && forall|k: int|
                            0 <= k < i ==> (#[trigger] rest[k]).0 != name;
                    assert(entries[i + 1] == (name, found));
                    assert forall|k: int| 0 <= k < i + 1 implies (#[trigger] entries[k]).0
                        != name by {
                        if k > 0 {
                            assert(rest[k - 1] == entries[k]);
                        }
                    }
                },
                None => {
                    assert forall|k: int| 0 <= k < entries.len() implies (#[trigger] entries[k]).0
                        != name by {
                        if k > 0 {
                            assert(rest[k - 1] == entries[k]);
                        }
                    }
                },
            }
        }
    }
}

/// A field that may stand there only once is found where it does, missing where it does not,
/// and refused where it stands there twice.
pub proof fn fields_may_stand_only_once(fields: Seq<(Seq<char>, Seq<char>)>, name: Seq<char>)
    ensures
        match json::only_field(fields, name) {
            Some(Some(value)) => exists|i: int|
                0 <= i < fields.len() && (#[trigger] fields[i]) == (name, value) && forall|k: int|
                    0 <= k < fields.len() && k != i ==> (#[trigger] fields[k]).0 != name,
            Some(None) => forall|k: int| 0 <= k < fields.len() ==> (#[trigger] fields[k]).0 != name,
            None => exists|a: int, b: int|
                0 <= a < b < fields.len() && (#[trigger] fields[a]).0 == name && (
                #[trigger] fields[b]).0 == name,
        },
    decreases fields.len(),
{
    if fields.len() > 0 {
        let fewer = fields.drop_last();
        let n = fields.len() - 1;
        fields_may_stand_only_once(fewer, name);
        assert forall|k: int| 0 <= k < n implies #[trigger] fewer[k] == fields[k] by {}
        match json::only_field(fewer, name) {
            Some(Some(value)) => {
                let i = choose|i: int|
                    0 <= i < fewer.len() && (#[trigger] fewer[i]) == (name, value) && forall|k: int|
                        0 <= k < fewer.len() && k != i ==> (#[trigger] fewer[k]).0 != name;
                assert(fields[i] == (name, value));
                if fields.last().0 != name {
                    assert forall|k: int| 0 <= k < fields.len() && k != i implies (
                    #[trigger] fields[k]).0 != name by {
                        if k < n {
                            assert(fewer[k] == fields[k]);
                        }
                    }
                } else {
                    assert(fields[n].0 == name);
                }
            },
            Some(None) => {
                assert forall|k: int| 0 <= k < n implies (#[trigger] fields[k]).0 != name by {
                    assert(fewer[k] == fields[k]);
                }
                if fields.last().0 == name {
                    assert(fields[n] == (name, fields[n].1));
                }
            },
            None => {
                let (a, b) = choose|a: int, b: int|
                    0 <= a < b < fewer.len() && (#[trigger] fewer[a]).0 == name && (
                    #[trigger] fewer[b]).0 == name;
                assert(fields[a].0 == name && fields[b].0 == name);
            },
        }
    }
}

/// An array is read item by item: its first item is the first value in it, and the others
/// are those of the array without it.
pub proof fn arrays_are_read_item_by_item(
    s: Seq<char>,
    value: Seq<char>,
    rest: Seq<char>,
    others: Seq<char>,
)
    requires
        json::bare(s) == s,
        !json::opens(s, ']'),
        json::leading_span(s) == Some((value, rest)),
        json::bare(rest) == seq![','] + others,
        others.len() < s.len(),
        json::bare(others) == others,
        !json::opens(others, ']'),
    ensures
        json::elements(seq!['['] + s) == match json::elements(seq!['['] + others) {
            Some(after) => Some(seq![value] + after),
            None => None,
        },
{
    let a = seq!['['] + s;
    let b = seq!['['] + others;
    assert(a.drop_first() =~= s);
    assert(b.drop_first() =~= others);
    assert((seq![','] + others).drop_first() =~= others);
    lemma_elements(seq![value], others);
    assert(Seq::<Seq<char>>::empty().push(value) =~= seq![value]);
    assert(json::elements(a) == json::elements_from(seq![value], others));
}

/// An array of one item has that item, and an array without any has none.
pub proof fn arrays_end_with_their_bracket(
    s: Seq<char>,
    value: Seq<char>,
    rest: Seq<char>,
    after: Seq<char>,
)
    requires
        json::bare(s) == s,
        !json::opens(s, ']'),
        json::leading_span(s) == Some((value, rest)),
        json::opens(json::bare(rest), ']'),
    ensures
        json::elements(seq!['['] + s) == Some(seq![value]),
        json::elements(seq!['[', ']'] + after) == Some(Seq::<Seq<char>>::empty()),
{
    let a = seq!['['] + s;
    assert(a.drop_first() =~= s);
    assert(Seq::<Seq<char>>::empty().push(value) =~= seq![value]);
    let e = seq!['[', ']'] + after;
    assert(e.drop_first()[0] == ']');
    assert(json::bare(e.drop_first()) == e.drop_first());
}

proof fn lemma_elements(done: Seq<Seq<char>>, s: Seq<char>)
    ensures
        json::elements_from(done, s) == match json::elements_from(Seq::empty(), s) {
            Some(after) => Some(done + after),
            None => None,
        },
    decreases s.len(),
{
    if let Some((value, rest)) = json::leading_span(json::bare(s)) {
        let next = json::bare(rest);
        let none = Seq::<Seq<char>>::empty();
        assert(done.push(value) =~= done + none.push(value));
        if !json::opens(next, ']') && json::opens(next, ',') && next.len() <= s.len() {
            lemma_elements(done.push(value), next.drop_first());
            lemma_elements(none.push(value), next.drop_first());
            if let Some(after) = json::elements_from(none, next.drop_first()) {
                assert(done.push(value) + after =~= done + (none.push(value) + after));
            }
        }
    }
}

/// An object is read field by field: its first field is the first name and value in it, and
/// the others are those of the object without it.
pub proof fn objects_are_read_field_by_field(
    s: Seq<char>,
    key: Seq<char>,
    name: Seq<char>,
    colon: Seq<char>,
    written: Seq<char>,
    value: Seq<char>,
    rest: Seq<char>,
    others: Seq<char>,
)
    requires
        json::bare(s) == s,
        !json::opens(s, '}'),
        json::leading_span(s) == Some((key, colon)),
        json::json_text(key) == Some(JsonView::Text(name)),
        json::bare(colon) == seq![':'] + written,
        json::leading_span(json::bare(written)) == Some((value, rest)),
    ensures
        json::bare(rest) == seq![','] + others && others.len() < s.len() && json::bare(others)
            == others && !json::opens(others, '}') ==> json::fields(seq!['{'] + s)
            == match json::fields(seq!['{'] + others) {
            Some(after) => Some(seq![(name, value)] + after),
            None => None,
        },
        json::opens(json::bare(rest), '}') ==> json::fields(seq!['{'] + s) == Some(
            seq![(name, value)],
        ),
{
    let a = seq!['{'] + s;
    let b = seq!['{'] + others;
    assert(a.drop_first() =~= s);
    assert(b.drop_first() =~= others);
    assert((seq![':'] + written).drop_first() =~= written);
    assert((seq![','] + others).drop_first() =~= others);
    let none = Seq::<(Seq<char>, Seq<char>)>::empty();
    assert(none.push((name, value)) =~= seq![(name, value)]);
    lemma_fields(seq![(name, value)], others);
}

proof fn lemma_fields(done: Seq<(Seq<char>, Seq<char>)>, s: Seq<char>)
    ensures
        json::fields_from(done, s) == match json::fields_from(Seq::empty(), s) {
            Some(after) => Some(done + after),
            None => None,
        },
    decreases s.len(),
{
    if let Some((key, colon)) = json::leading_span(json::bare(s)) {
        if let Some(JsonView::Text(name)) = json::json_text(key) {
            if json::opens(json::bare(colon), ':') {
                if let Some((value, rest)) = json::leading_span(
                    json::bare(json::bare(colon).drop_first()),
                ) {
                    let next = json::bare(rest);
                    let none = Seq::<(Seq<char>, Seq<char>)>::empty();
                    assert(done.push((name, value)) =~= done + none.push((name, value)));
                    if !json::opens(next, '}') && json::opens(next, ',') && next.len() <= s.len() {
                        lemma_fields(done.push((name, value)), next.drop_first());
                        lemma_fields(none.push((name, value)), next.drop_first());
                        if let Some(after) = json::fields_from(none, next.drop_first()) {
                            assert(done.push((name, value)) + after =~= done + (none.push(
                                (name, value),
                            ) + after));
                        }
                    }
                }
            }
        }
    }
}

/// An array is not read where none begins, nor an object.
pub proof fn values_are_read_by_their_brackets(s: Seq<char>)
    ensures
        json::elements(s) is Some ==> s.len() > 0 && s[0] == '[',
        json::fields(s) is Some ==> s.len() > 0 && s[0] == '{',
{
}

/// The gaps in front of a value are passed over, all of them and nothing else.
pub proof fn gaps_are_passed_over(gaps: Seq<char>, s: Seq<char>)
    requires
        forall|k: int|
            0 <= k < gaps.len() ==> #[trigger] gaps[k] == ' ' || gaps[k] == '\n' || gaps[k] == '\t'
                || gaps[k] == '\r',
        s.len() > 0 ==> s[0] != ' ' && s[0] != '\n' && s[0] != '\t' && s[0] != '\r',
    ensures
        json::bare(gaps + s) == s,
    decreases gaps.len(),
{
    if gaps.len() > 0 {
        let fewer = gaps.drop_first();
        assert forall|k: int| 0 <= k < fewer.len() implies #[trigger] fewer[k] == ' ' || fewer[k]
            == '\n' || fewer[k] == '\t' || fewer[k] == '\r' by {
            assert(fewer[k] == gaps[k + 1]);
        }
        gaps_are_passed_over(fewer, s);
        assert((gaps + s)[0] == gaps[0]);
        assert((gaps + s).drop_first() =~= fewer + s);
    } else {
        assert(gaps + s =~= s);
    }
}

} // verus!
