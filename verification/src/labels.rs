//! The words around a conversation: titles, summaries, clipped output.
use vstd::prelude::*;

use crate::json;
use crate::json::{parse_json, Json};
use crate::text;
use crate::text::{
    chars_of, collapsed, concat, concat3, decimal_of, joined, lines_of, lowered, same, string_of,
    strip_prefix, trimmed, trimmed_end, trimmed_start, words_of,
};

verus! {

/// How a session without a name is called: by the last eight characters of its id.
pub open spec fn short_name(session_id: Seq<char>) -> Seq<char> {
    "session "@ + if session_id.len() > 8 {
        session_id.skip(session_id.len() - 8)
    } else {
        session_id
    }
}

pub fn short_id(session_id: &str) -> (r: String)
    ensures
        r@ == short_name(session_id@),
{
    let v = chars_of(session_id);
    let from: usize = if v.len() > 8 {
        v.len() - 8
    } else {
        0
    };
    let tail = string_of(&v, from, v.len());
    assert(tail@ =~= if v@.len() > 8 {
        v@.skip(v@.len() - 8)
    } else {
        v@
    });
    concat("session ", tail.as_str())
}

/// A title that was given to the session, rather than made from its id.
pub open spec fn own_title(session_id: Seq<char>, title: Seq<char>) -> Option<Seq<char>> {
    let t = text::trim(title);
    if t.len() > 0 && t != session_id && t != short_name(session_id) {
        Some(t)
    } else {
        None
    }
}

pub fn custom_session_title(session_id: &str, title: &str) -> (r: Option<String>)
    ensures
        text::text_option(r) == own_title(session_id@, title@),
{
    let t = trimmed(title);
    if !t.as_str().is_empty() && !same(t.as_str(), session_id) && !same(
        t.as_str(),
        short_id(session_id).as_str(),
    ) {
        Some(t)
    } else {
        None
    }
}

/// The label of a session's tab and of its row: its own title on one line, never its id.
pub fn folder_session_title(session_id: &str, title: &str) -> (r: String)
    ensures
        r@ == text::collapse(
            match own_title(session_id@, title@) {
                Some(title) => title,
                None => "New session"@,
            },
        ),
{
    match custom_session_title(session_id, title) {
        Some(title) => collapsed(title.as_str()),
        None => collapsed("New session"),
    }
}

/// A label never shows the session's id, nor the name made from it.
pub proof fn labels_hide_the_id(session_id: Seq<char>)
    requires
        session_id.len() > 0,
        !text::is_white(session_id[0]),
        !text::is_white(session_id.last()),
    ensures
        own_title(session_id, session_id) is None,
        own_title(session_id, short_name(session_id)) is None,
{
    let name = short_name(session_id);
    reveal_strlit("session ");
    assert(name[0] == 's');
    assert(name.last() == session_id.last());
    lemma_trimmed_stays(session_id);
    lemma_trimmed_stays(name);
}

proof fn lemma_trimmed_stays(s: Seq<char>)
    requires
        s.len() > 0,
        !text::is_white(s[0]),
        !text::is_white(s.last()),
    ensures
        text::trim(s) == s,
{
    text::lemma_trim_start(s, 0);
    assert(s.subrange(0, s.len() as int) =~= s);
    text::lemma_trim_end(s, s.len() as int);
}

/// The text on one line, cut behind `limit` characters.
pub open spec fn condensed(s: Seq<char>, limit: nat) -> Seq<char> {
    let flat = text::collapse(s);
    if flat.len() <= limit {
        flat
    } else {
        text::trim_end(flat.take(limit as int)) + "…"@
    }
}

/// The text on one line, cut so that its last `limit` characters stay.
pub open spec fn condensed_tail(s: Seq<char>, limit: nat) -> Seq<char> {
    let flat = text::collapse(s);
    if flat.len() <= limit {
        flat
    } else {
        "…"@ + text::trim_start(flat.skip(flat.len() - limit))
    }
}

fn cut(flat: &str, limit: usize) -> (r: String)
    requires
        limit <= flat@.len(),
    ensures
        r@ == text::trim_end(flat@.take(limit as int)) + "…"@,
{
    let head = string_of(&chars_of(flat), 0, limit);
    assert(head@ =~= flat@.take(limit as int));
    concat(trimmed_end(head.as_str()).as_str(), "…")
}

/// Collapses white space and clips to a readable length.
pub fn condense(text: &str, limit: usize) -> (r: String)
    ensures
        r@ == condensed(text@, limit as nat),
{
    let flat = collapsed(text);
    if chars_of(flat.as_str()).len() <= limit {
        flat
    } else {
        cut(flat.as_str(), limit)
    }
}

/// Collapses white space and clips from the front: the newest words stay.
pub fn condense_tail(text: &str, limit: usize) -> (r: String)
    ensures
        r@ == condensed_tail(text@, limit as nat),
{
    let flat = collapsed(text);
    let v = chars_of(flat.as_str());
    if v.len() <= limit {
        flat
    } else {
        let tail = string_of(&v, v.len() - limit, v.len());
        assert(tail@ =~= v@.skip(v@.len() - limit));
        concat("…", trimmed_start(tail.as_str()).as_str())
    }
}

proof fn lemma_trim_shortens(s: Seq<char>)
    ensures
        text::trim_end(s).len() <= s.len(),
        text::trim_start(s).len() <= s.len(),
    decreases s.len(),
{
    if s.len() > 0 {
        lemma_trim_shortens(s.drop_last());
        lemma_trim_shortens(s.drop_first());
    }
}

/// A clipped text is no longer than its limit and the mark of the cut.
pub proof fn condensed_is_short(s: Seq<char>, limit: nat)
    ensures
        condensed(s, limit).len() <= limit + 1,
        condensed_tail(s, limit).len() <= limit + 1,
        text::collapse(s).len() <= limit ==> condensed(s, limit) == text::collapse(s)
            && condensed_tail(s, limit) == text::collapse(s),
{
    reveal_strlit("…");
    let flat = text::collapse(s);
    if flat.len() > limit {
        lemma_trim_shortens(flat.take(limit as int));
        lemma_trim_shortens(flat.skip(flat.len() - limit));
    }
}

/// The title that a first prompt gives a conversation; a command gives none.
pub open spec fn prompt_title(prompt: Seq<char>) -> Option<Seq<char>> {
    let flat = text::collapse(prompt);
    if flat.len() == 0 || flat[0] == '/' {
        None
    } else {
        Some(condensed(prompt, 64))
    }
}

/// Gives a new conversation a label from its first prompt.
pub fn first_prompt_title(prompt: &str) -> (r: Option<String>)
    ensures
        text::text_option(r) == prompt_title(prompt@),
{
    let flat = collapsed(prompt);
    let v = chars_of(flat.as_str());
    if v.len() == 0 || v[0] == '/' {
        return None;
    }
    if v.len() > 64 {
        Some(cut(flat.as_str(), 64))
    } else {
        Some(flat)
    }
}

/// What follows a control sequence: it ends with a character from `@` to `~`.
pub open spec fn after_control(s: Seq<char>) -> Seq<char>
    decreases s.len(),
{
    if s.len() == 0 {
        s
    } else if '@' <= s[0] && s[0] <= '~' {
        s.drop_first()
    } else {
        after_control(s.drop_first())
    }
}

/// What follows an operating-system command: it ends with a bell, or with an escape and
/// a backslash.
pub open spec fn after_command(s: Seq<char>) -> Seq<char>
    decreases s.len(),
{
    if s.len() == 0 {
        s
    } else if s[0] == '\u{7}' {
        s.drop_first()
    } else if s[0] == '\u{1b}' && s.len() > 1 && s[1] == '\\' {
        s.skip(2)
    } else {
        after_command(s.drop_first())
    }
}

/// Whether a character stands between the escape and the final character of a sequence
/// such as ESC ( B.
pub open spec fn is_intermediate(c: char) -> bool {
    ' ' <= c && c <= '/'
}

/// What follows a sequence with intermediate characters: they end with one final character
/// from `0` to `~`. Any other character is no part of the sequence and stays.
pub open spec fn after_intermediates(s: Seq<char>) -> Seq<char>
    decreases s.len(),
{
    if s.len() == 0 {
        s
    } else if is_intermediate(s[0]) {
        after_intermediates(s.drop_first())
    } else if '0' <= s[0] && s[0] <= '~' {
        s.drop_first()
    } else {
        s
    }
}

pub proof fn lemma_after_is_shorter(s: Seq<char>)
    ensures
        after_control(s).len() <= s.len(),
        after_command(s).len() <= s.len(),
        after_intermediates(s).len() <= s.len(),
    decreases s.len(),
{
    if s.len() > 0 {
        lemma_after_is_shorter(s.drop_first());
    }
}

/// The text without terminal escape sequences.
pub open spec fn plain(s: Seq<char>) -> Seq<char>
    decreases s.len(),
{
    if s.len() == 0 {
        s
    } else if s[0] != '\u{1b}' {
        seq![s[0]] + plain(s.drop_first())
    } else if s.len() == 1 {
        Seq::empty()
    } else {
        proof {
            lemma_after_is_shorter(s.skip(2));
        }
        if s[1] == '[' {
            plain(after_control(s.skip(2)))
        } else if s[1] == ']' {
            plain(after_command(s.skip(2)))
        } else if is_intermediate(s[1]) {
            plain(after_intermediates(s.skip(2)))
        } else {
            plain(s.skip(2))
        }
    }
}

/// Drops terminal escape sequences: colors, cursor moves, titles, character sets.
pub fn strip_ansi(text: &str) -> (r: String)
    ensures
        r@ == plain(text@),
{
    let v = chars_of(text);
    let n: usize = v.len();
    let mut out = String::new();
    let mut i: usize = 0;
    assert(text@.skip(0) == text@);
    assert(out@ + plain(text@.skip(0)) =~= plain(text@));
    while i < n
        invariant
            i <= n,
            n == v@.len(),
            v@ == text@,
            out@ + plain(text@.skip(i as int)) == plain(text@),
        decreases n - i,
    {
        let ghost rest = text@.skip(i as int);
        assert(rest[0] == v@[i as int]);
        if v[i] != '\u{1b}' {
            let ghost before = out@;
            out.push(v[i]);
            assert(rest.drop_first() == text@.skip(i + 1));
            assert(before.push(rest[0]) + plain(rest.drop_first()) =~= before + (seq![rest[0]]
                + plain(rest.drop_first())));
            i += 1;
        } else if i + 1 == n {
            i += 1;
            assert(plain(text@.skip(i as int)) =~= Seq::empty());
        } else {
            let kind = v[i + 1];
            assert(rest[1] == kind);
            assert(rest.skip(2) == text@.skip(i + 2));
            i += 2;
            let ghost from = i as int;
            if kind == '[' {
                let mut open = true;
                while open && i < n
                    invariant
                        from <= i <= n,
                        n == v@.len(),
                        v@ == text@,
                        after_control(rest.skip(2)) == (if open {
                            after_control(text@.skip(i as int))
                        } else {
                            text@.skip(i as int)
                        }),
                    decreases n - i,
                {
                    assert(text@.skip(i as int)[0] == v@[i as int]);
                    assert(text@.skip(i as int).drop_first() == text@.skip(i + 1));
                    if '@' <= v[i] && v[i] <= '~' {
                        open = false;
                    }
                    i += 1;
                }
                assert(i == n ==> text@.skip(i as int).len() == 0);
            } else if kind == ']' {
                let mut open = true;
                while open && i < n
                    invariant
                        from <= i <= n,
                        n == v@.len(),
                        v@ == text@,
                        after_command(rest.skip(2)) == (if open {
                            after_command(text@.skip(i as int))
                        } else {
                            text@.skip(i as int)
                        }),
                    decreases n - i,
                {
                    let ghost here = text@.skip(i as int);
                    assert(here[0] == v@[i as int]);
                    assert(here.drop_first() == text@.skip(i + 1));
                    if v[i] == '\u{7}' {
                        open = false;
                        i += 1;
                    } else if v[i] == '\u{1b}' && i + 1 < n && v[i + 1] == '\\' {
                        assert(here[1] == '\\');
                        assert(here.skip(2) == text@.skip(i + 2));
                        open = false;
                        i += 2;
                    } else {
                        assert(here.len() > 1 ==> here[1] == v@[i + 1]);
                        i += 1;
                    }
                }
                assert(i == n ==> text@.skip(i as int).len() == 0);
            } else if ' ' <= kind && kind <= '/' {
                let mut open = true;
                while open && i < n
                    invariant
                        from <= i <= n,
                        n == v@.len(),
                        v@ == text@,
                        after_intermediates(rest.skip(2)) == (if open {
                            after_intermediates(text@.skip(i as int))
                        } else {
                            text@.skip(i as int)
                        }),
                    decreases n - i, open as int,
                {
                    assert(text@.skip(i as int)[0] == v@[i as int]);
                    assert(text@.skip(i as int).drop_first() == text@.skip(i + 1));
                    if ' ' <= v[i] && v[i] <= '/' {
                        i += 1;
                    } else {
                        open = false;
                        if '0' <= v[i] && v[i] <= '~' {
                            i += 1;
                        }
                    }
                }
                assert(i == n ==> text@.skip(i as int).len() == 0);
            }
        }
    }
    assert(text@.skip(i as int).len() == 0);
    assert(out@ + plain(text@.skip(i as int)) =~= out@);
    out
}

/// No escape character is left.
pub proof fn plain_text_has_no_escape(s: Seq<char>)
    ensures
        !plain(s).contains('\u{1b}'),
    decreases s.len(),
{
    if s.len() > 0 {
        if s[0] != '\u{1b}' {
            plain_text_has_no_escape(s.drop_first());
            let rest = plain(s.drop_first());
            assert forall|k: int| 0 <= k < plain(s).len() implies plain(s)[k] != '\u{1b}' by {
                if k > 0 {
                    assert(plain(s)[k] == rest[k - 1]);
                    assert(rest.contains(rest[k - 1]));
                }
            }
        } else if s.len() > 1 {
            lemma_after_is_shorter(s.skip(2));
            plain_text_has_no_escape(after_control(s.skip(2)));
            plain_text_has_no_escape(after_command(s.skip(2)));
            plain_text_has_no_escape(after_intermediates(s.skip(2)));
            plain_text_has_no_escape(s.skip(2));
        }
    }
}

/// A text without escape characters stays as it is.
pub proof fn plain_text_stays(s: Seq<char>)
    requires
        !s.contains('\u{1b}'),
    ensures
        plain(s) == s,
    decreases s.len(),
{
    if s.len() > 0 {
        assert(s.contains(s[0]));
        assert forall|c: char| s.drop_first().contains(c) implies s.contains(c) by {
            let k = choose|k: int| 0 <= k < s.drop_first().len() && s.drop_first()[k] == c;
            assert(s[k + 1] == c);
        }
        plain_text_stays(s.drop_first());
        assert(seq![s[0]] + s.drop_first() =~= s);
    }
}

/// Dropping escape sequences twice is dropping them once.
pub proof fn plain_twice_is_plain_once(s: Seq<char>)
    ensures
        plain(plain(s)) == plain(s),
{
    plain_text_has_no_escape(s);
    plain_text_stays(plain(s));
}

/// The text, or its first and last lines with a note of how many are hidden between them.
pub open spec fn clipped(s: Seq<char>, max: nat) -> Seq<char> {
    let all = text::lines(s);
    if all.len() <= max {
        s
    } else {
        let head = (max * 2 / 3) as int;
        let tail = max - head;
        text::join(all.take(head), "\n"@) + ("\n… "@ + text::decimal((all.len() - max) as nat)
            + " lines hidden …\n"@) + text::join(all.skip(all.len() - tail), "\n"@)
    }
}

fn part_of(lines: &Vec<String>, from: usize, to: usize) -> (r: Vec<String>)
    requires
        from <= to <= lines@.len(),
    ensures
        text::texts(r@) == text::texts(lines@).subrange(from as int, to as int),
{
    let mut r: Vec<String> = Vec::new();
    let mut i: usize = from;
    while i < to
        invariant
            from <= i <= to <= lines@.len(),
            r@.len() == i - from,
            forall|k: int| 0 <= k < r@.len() ==> #[trigger] r@[k] == lines@[from + k],
        decreases to - i,
    {
        r.push(lines[i].clone());
        i += 1;
    }
    assert(text::texts(r@) =~= text::texts(lines@).subrange(from as int, to as int));
    r
}

/// Keeps a block short by its head and its tail.
pub fn clip_lines(text: &str, max_lines: usize) -> (r: String)
    ensures
        r@ == clipped(text@, max_lines as nat),
{
    let lines = lines_of(text);
    let n: usize = lines.len();
    if n <= max_lines {
        return text.to_owned();
    }
    let head: usize = max_lines / 3 * 2 + max_lines % 3 * 2 / 3;
    assert(head == max_lines * 2 / 3);
    let tail: usize = max_lines - head;
    let hidden: usize = n - head - tail;
    let ghost all = text::lines(text@);
    let first = part_of(&lines, 0, head);
    assert(text::texts(first@) =~= all.take(head as int));
    let last = part_of(&lines, n - tail, n);
    assert(text::texts(last@) =~= all.skip(n - tail));
    let note = concat3("\n… ", decimal_of(hidden as u64).as_str(), " lines hidden …\n");
    concat3(
        joined(&first, "\n").as_str(),
        note.as_str(),
        joined(&last, "\n").as_str(),
    )
}

/// What a JSON scalar reads as.
pub open spec fn scalar(value: json::JsonView) -> Option<Seq<char>> {
    match value {
        json::JsonView::Text(s) => Some(s),
        json::JsonView::Number { text, float_bits } => Some(text),
        json::JsonView::Bool(flag) => Some(
            if flag {
                "true"@
            } else {
                "false"@
            },
        ),
        _ => None,
    }
}

pub fn json_scalar(value: &Json) -> (r: Option<String>)
    ensures
        text::text_option(r) == scalar(value@),
{
    match value {
        Json::Text(s) => Some(s.clone()),
        Json::Number { text, .. } => Some(text.clone()),
        Json::Bool(flag) => Some(
            if *flag {
                "true".to_owned()
            } else {
                "false".to_owned()
            },
        ),
        _ => None,
    }
}

/// The line that says what a tool call is for: the summary found in its arguments, else
/// the arguments themselves once they are complete.
pub fn tool_summary(summary: Option<&str>, input: &str) -> (r: String)
    ensures
        r@ == match summary {
            Some(s) => condensed(s@, 90),
            None => if json::json_text(input@) is Some {
                condensed(input@, 90)
            } else {
                Seq::empty()
            },
        },
{
    match summary {
        Some(s) => condense(s, 90),
        None => if parse_json(input).is_some() {
            condense(input, 90)
        } else {
            String::new()
        },
    }
}

/// A tool call's arguments as they are shown: at least an empty object.
pub open spec fn shown_arguments(input: Seq<char>) -> Seq<char> {
    if text::trim(input).len() == 0 {
        "{}"@
    } else {
        text::trim(input)
    }
}

/// A tool call's detail: its name, its arguments and the ends of its output.
pub open spec fn call_detail(name: Seq<char>, arguments: Seq<char>, output: Seq<char>) -> Seq<char> {
    let call = "Tool call\n"@ + text::trim(name) + ("\n"@ + clipped(arguments, 40));
    if text::trim(output).len() == 0 {
        call
    } else {
        call + "\n\n"@ + ("Output\n"@ + clipped(text::trim(plain(output)), 40))
    }
}

/// A tool call's detail, its arguments as they are to be shown.
pub fn call_detail_of(name: &str, arguments: &str, output: &str) -> (r: String)
    ensures
        r@ == call_detail(name@, arguments@, output@),
{
    let call = concat3(
        "Tool call\n",
        trimmed(name).as_str(),
        concat("\n", clip_lines(arguments, 40).as_str()).as_str(),
    );
    if trimmed(output).as_str().is_empty() {
        call
    } else {
        let shown = trimmed(strip_ansi(output).as_str());
        concat3(
            call.as_str(),
            "\n\n",
            concat("Output\n", clip_lines(shown.as_str(), 40).as_str()).as_str(),
        )
    }
}

/// The expanded detail of a tool call: the exact invocation plus the ends of its output.
pub fn tool_detail(name: &str, input: &str, output: &str) -> (r: String)
    ensures
        r@ == call_detail(
            name@,
            match json::pretty_text(shown_arguments(input@)) {
                Some(pretty) => pretty,
                None => shown_arguments(input@),
            },
            output@,
        ),
{
    let given = trimmed(input);
    let arguments = if given.as_str().is_empty() {
        "{}".to_owned()
    } else {
        given
    };
    match json::pretty(arguments.as_str()) {
        Some(pretty) => call_detail_of(name, pretty.as_str(), output),
        None => call_detail_of(name, arguments.as_str(), output),
    }
}

/// The label of the account control: the provider and the credential method, as far as
/// they are known.
pub open spec fn account_label(provider: Option<Seq<char>>, method: Option<Seq<char>>) -> Seq<char> {
    let p = match provider {
        Some(s) => s,
        None => Seq::empty(),
    };
    let m = match method {
        Some(s) => s,
        None => Seq::empty(),
    };
    if p.len() == 0 && m.len() == 0 {
        "Accounts"@
    } else if p.len() == 0 {
        m
    } else if m.len() == 0 {
        p
    } else {
        p + " · "@ + m
    }
}

pub open spec fn view_of(o: Option<&str>) -> Option<Seq<char>> {
    match o {
        Some(s) => Some(s@),
        None => None,
    }
}

pub fn account_method_label(provider: Option<&str>, auth_method: Option<&str>) -> (r: String)
    ensures
        r@ == account_label(view_of(provider), view_of(auth_method)),
{
    let p = provider.unwrap_or("");
    let m = auth_method.unwrap_or("");
    proof {
        reveal_strlit("");
        assert(""@ =~= Seq::empty());
    }
    if p.is_empty() {
        if m.is_empty() {
            "Accounts".to_owned()
        } else {
            m.to_owned()
        }
    } else if m.is_empty() {
        p.to_owned()
    } else {
        concat3(p, " · ", m)
    }
}

/// How much of the context is used: the amount, and beside it the window's size and the
/// share in percent where the window is known. The numbers come formatted.
pub fn context_usage_label(used: Option<&str>, window: Option<(&str, &str)>) -> (r: Option<String>)
    ensures
        text::text_option(r) == match used {
            Some(used) => Some(
                match window {
                    Some((size, percent)) => used@ + " / "@ + size@ + (" ("@ + percent@ + "%)"@),
                    None => used@ + " tokens"@,
                },
            ),
            None => None,
        },
{
    match used {
        Some(used) => Some(
            match window {
                Some((size, percent)) => concat(
                    concat3(used, " / ", size).as_str(),
                    concat3(" (", percent, "%)").as_str(),
                ),
                None => concat(used, " tokens"),
            },
        ),
        None => None,
    }
}

/// A path with the home directory written short.
pub open spec fn short_path(path: Seq<char>, home: Option<Seq<char>>) -> Seq<char> {
    match home {
        Some(home) => if path == home {
            "~ (home)"@
        } else {
            match text::behind(path, home + "/"@) {
                Some(rest) => "~/"@ + rest,
                None => path,
            }
        },
        None => path,
    }
}

/// Shortens a path below the home directory.
pub fn compact_dir(path: &str, home: Option<&str>) -> (r: String)
    ensures
        r@ == short_path(path@, view_of(home)),
{
    match home {
        Some(home) => if same(path, home) {
            "~ (home)".to_owned()
        } else {
            match strip_prefix(path, concat(home, "/").as_str()) {
                Some(rest) => concat("~/", rest.as_str()),
                None => path.to_owned(),
            }
        },
        None => path.to_owned(),
    }
}

/// The name of a command: its first word.
pub open spec fn named_command(input: Seq<char>) -> Seq<char> {
    let w = text::words(input);
    if w.len() > 0 {
        w[0]
    } else {
        input
    }
}

pub fn command_name(input: &str) -> (r: String)
    ensures
        r@ == named_command(input@),
{
    let w = words_of(input);
    if w.len() > 0 {
        assert(text::texts(w@)[0] == w@[0]@);
        w[0].clone()
    } else {
        assert(text::texts(w@).len() == 0);
        input.to_owned()
    }
}

/// What to answer to a command that does nothing here: whether it is one at all depends
/// on the catalog, whose help text for it is given where it lists the command.
pub fn command_unavailable_message(input: &str, help: Option<&str>) -> (r: String)
    ensures
        r@ == match help {
            Some(help) => "`"@ + named_command(input@) + ("` is a Jcode command, but its "@
                + text::lower_all(help@) + " behavior is not available in Desktop yet."@),
            None => "Unknown command: `"@ + named_command(input@)
                + "`. Type `/help` for available commands."@,
        },
{
    let name = command_name(input);
    match help {
        Some(help) => concat3(
            "`",
            name.as_str(),
            concat3(
                "` is a Jcode command, but its ",
                lowered(help).as_str(),
                " behavior is not available in Desktop yet.",
            ).as_str(),
        ),
        None => concat3(
            "Unknown command: `",
            name.as_str(),
            "`. Type `/help` for available commands.",
        ),
    }
}

} // verus!
