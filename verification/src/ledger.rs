//! What holds of accounts: how they are read, named and ordered, and how usage is told of
//! them.
use vstd::prelude::*;

use crate::accounts;
use crate::accounts::{Account, AccountView, LimitView, ReportView};
use crate::json;
use crate::order;
use crate::text;

verus! {

/// Every provider that has an id is an account, in the report's order: the connected ones
/// first, then the others.
pub proof fn every_provider_is_an_account(report: json::JsonView)
    ensures
        match report.field_items("providers"@) {
            Some(providers) => accounts::catalog(report) matches Some(all) && {
                let known = accounts::accounts_of(providers);
                &&& all == known.filter(|a: AccountView| a.status == "available"@)
                    + known.filter(|a: AccountView| a.status != "available"@)
                &&& known == providers.map_values(
                    |p: json::JsonView| accounts::account_of(p),
                ).filter(|a: AccountView| a.id.len() > 0)
            },
            None => accounts::catalog(report) is None,
        },
{
    if let Some(providers) = report.field_items("providers"@) {
        let known = accounts::accounts_of(providers);
        lemma_part(known, true);
        lemma_part(known, false);
        lemma_known(providers);
        assert(known.filter(|a: AccountView| (a.status == "available"@) == true)
            =~= known.filter(|a: AccountView| a.status == "available"@)) by {
            lemma_same_filter(
                known,
                |a: AccountView| (a.status == "available"@) == true,
                |a: AccountView| a.status == "available"@,
            );
        }
        lemma_same_filter(
            known,
            |a: AccountView| (a.status == "available"@) == false,
            |a: AccountView| a.status != "available"@,
        );
    }
}

proof fn lemma_same_filter(
    s: Seq<AccountView>,
    f: spec_fn(AccountView) -> bool,
    g: spec_fn(AccountView) -> bool,
)
    requires
        forall|a: AccountView| #[trigger] f(a) == g(a),
    ensures
        s.filter(f) == s.filter(g),
    decreases s.len(),
{
    reveal(Seq::filter);
    if s.len() > 0 {
        lemma_same_filter(s.drop_last(), f, g);
        assert(f(s.last()) == g(s.last()));
    }
}

proof fn lemma_part(all: Seq<AccountView>, connected: bool)
    ensures
        accounts::connected_part(all, connected) == all.filter(
            |a: AccountView| (a.status == "available"@) == connected,
        ),
    decreases all.len(),
{
    reveal(Seq::filter);
    if all.len() > 0 {
        lemma_part(all.drop_last(), connected);
    }
}

proof fn lemma_known(providers: Seq<json::JsonView>)
    ensures
        accounts::accounts_of(providers) == providers.map_values(
            |p: json::JsonView| accounts::account_of(p),
        ).filter(|a: AccountView| a.id.len() > 0),
    decreases providers.len(),
{
    reveal(Seq::filter);
    let read = |p: json::JsonView| accounts::account_of(p);
    if providers.len() > 0 {
        lemma_known(providers.drop_last());
        assert(providers.map_values(read).drop_last() =~= providers.drop_last().map_values(read));
        assert(providers.map_values(read).last() == accounts::account_of(providers.last()));
    }
}

/// An account is what its entry says, each field under its own name; what is not said is
/// empty, and nothing is known of its usage.
pub proof fn accounts_are_what_their_entry_says(provider: json::JsonView)
    ensures
        ({
            let a = accounts::account_of(provider);
            &&& provider.field_text("id"@) is Some ==> a.id == provider.field_text("id"@)->0
            &&& provider.field_text("id"@) is None ==> a.id.len() == 0
            &&& provider.field_text("display_name"@) is Some ==> a.display_name
                == provider.field_text("display_name"@)->0
            &&& provider.field_text("status"@) is Some ==> a.status == provider.field_text(
                "status"@,
            )->0
            &&& provider.field_text("auth_kind"@) is Some ==> a.auth_kind == provider.field_text(
                "auth_kind"@,
            )->0
            &&& provider.field_text("method"@) is Some ==> a.method == provider.field_text(
                "method"@,
            )->0
            &&& a.limits.len() == 0
            &&& a.usage_reports.len() == 0
        }),
{
}

/// Whether a report is about an account and about none before it.
pub open spec fn is_first_about(
    all: Seq<AccountView>,
    name: Seq<char>,
    family: Seq<char>,
    i: int,
) -> bool {
    &&& 0 <= i < all.len()
    &&& accounts::is_about(all[i], name, family)
    &&& forall|k: int| 0 <= k < i ==> !accounts::is_about(#[trigger] all[k], name, family)
}

proof fn lemma_subject(all: Seq<AccountView>, name: Seq<char>, family: Seq<char>, from: int)
    requires
        0 <= from <= all.len(),
    ensures
        match accounts::subject(all, name, family, from) {
            Some(i) => from <= i < all.len() && accounts::is_about(all[i], name, family)
                && forall|k: int|
                from <= k < i ==> !accounts::is_about(#[trigger] all[k], name, family),
            None => forall|k: int|
                from <= k < all.len() ==> !accounts::is_about(#[trigger] all[k], name, family),
        },
    decreases all.len() - from,
{
    if from < all.len() && !accounts::is_about(all[from], name, family) {
        lemma_subject(all, name, family, from + 1);
    }
}

/// A usage report goes to the first account that it is about, behind the reports that the
/// account has, and to no other; one that is about none is passed over.
pub proof fn a_report_goes_to_its_account(
    all: Seq<AccountView>,
    provider: json::JsonView,
    family: Seq<char>,
    i: int,
)
    requires
        0 <= i < all.len(),
    ensures
        ({
            let after = accounts::with_report(all, provider, family);
            let name = provider.field_text("provider_name"@);
            &&& after.len() == all.len()
            &&& name is Some && is_first_about(all, name->0, family, i) ==> {
                &&& after[i].usage_reports.len() == all[i].usage_reports.len() + 1
                &&& after[i].usage_reports.drop_last() == all[i].usage_reports
                &&& after[i].usage_reports.last().provider_name == name->0
                &&& after[i].id == all[i].id
                &&& after[i].status == all[i].status
                &&& after[i].display_name == all[i].display_name
            }
            &&& !(name is Some && is_first_about(all, name->0, family, i)) ==> after[i] == all[i]
        }),
{
    let after = accounts::with_report(all, provider, family);
    if let Some(name) = provider.field_text("provider_name"@) {
        lemma_subject(all, name, family, 0);
        if let Some(at) = accounts::subject(all, name, family, 0) {
            if is_first_about(all, name, family, i) {
                if i < at {
                    assert(!accounts::is_about(all[i], name, family));
                }
                if at < i {
                    assert(!accounts::is_about(all[at], name, family));
                }
                assert(after[i].usage_reports.drop_last() =~= all[i].usage_reports);
            } else if at == i {
                assert(is_first_about(all, name, family, i));
            }
        } else if is_first_about(all, name, family, i) {
            assert(!accounts::is_about(all[i], name, family));
        }
    }
}

/// Reports come in one after the other, each as if alone; an account that gained none keeps
/// its limits, and one that did shows those of the login that speaks for it.
pub proof fn reports_come_in_one_by_one(
    all: Seq<AccountView>,
    report: json::JsonView,
    family: Seq<char>,
    i: int,
)
    requires
        0 <= i < all.len(),
        report.field_items("providers"@) is Some,
        report.field_items("providers"@)->0.len() > 0,
    ensures
        ({
            let entries = report.field_items("providers"@)->0;
            let filled = accounts::with_reports(all, entries, family);
            let after = accounts::merged(all, report, family);
            &&& filled == accounts::with_report(
                accounts::with_reports(all, entries.drop_last(), family),
                entries.last(),
                family,
            )
            &&& after[i].usage_reports == filled[i].usage_reports
            &&& filled[i].usage_reports.len() <= all[i].usage_reports.len() ==> after[i].limits
                == filled[i].limits
            &&& filled[i].usage_reports.len() > all[i].usage_reports.len() ==> after[i].limits == (
            match accounts::summary_report(filled[i].usage_reports) {
                Some(k) => filled[i].usage_reports[k].limits,
                None => Seq::empty(),
            })
        }),
{
}

/// Whether a report is of the login in use: its name ends with the mark, but for white space.
pub open spec fn is_marked(report: ReportView) -> bool {
    exists|k: int|
        0 <= k < report.provider_name.len() && #[trigger] report.provider_name[k] == '✦'
            && text::all_white(report.provider_name.skip(k + 1))
}

proof fn lemma_marked(report: ReportView)
    ensures
        accounts::is_active_report(report) <==> is_marked(report),
{
    let s = report.provider_name;
    let j = white_end(s, s.len() as int);
    text::lemma_trim_end(s, j);
    if accounts::is_active_report(report) {
        assert(s[j - 1] == '✦');
        assert forall|k: int| 0 <= k < s.skip(j).len() implies text::is_white(
            #[trigger] s.skip(j)[k],
        ) by {
            assert(s.skip(j)[k] == s[j + k]);
        }
        assert(s.skip(j - 1 + 1) =~= s.skip(j));
    }
    if is_marked(report) {
        let k = choose|k: int|
            0 <= k < s.len() && #[trigger] s[k] == '✦' && text::all_white(s.skip(k + 1));
        if j <= k {
            assert(text::is_white(s[k]));
        }
        if k + 1 < j {
            assert(s.skip(k + 1)[j - 1 - (k + 1)] == s[j - 1]);
        }
    }
}

proof fn white_end(s: Seq<char>, to: int) -> (j: int)
    requires
        0 <= to <= s.len(),
        forall|k: int| to <= k < s.len() ==> text::is_white(#[trigger] s[k]),
    ensures
        0 <= j <= to,
        forall|k: int| j <= k < s.len() ==> text::is_white(#[trigger] s[k]),
        j > 0 ==> !text::is_white(s[j - 1]),
    decreases to,
{
    if to > 0 && text::is_white(s[to - 1]) {
        white_end(s, to - 1)
    } else {
        to
    }
}

/// The login that speaks for an account is the only one that is in use, or the only one there
/// is; where neither is so, none does.
pub proof fn one_login_speaks_for_an_account(reports: Seq<ReportView>, i: int, j: int)
    ensures
        0 <= i < reports.len() && is_marked(reports[i]) && (forall|k: int|
            0 <= k < reports.len() && k != i ==> !is_marked(#[trigger] reports[k]))
            ==> accounts::summary_report(reports) == Some(i),
        0 <= i < j < reports.len() && is_marked(reports[i]) && is_marked(reports[j])
            ==> accounts::summary_report(reports) is None,
        (forall|k: int| 0 <= k < reports.len() ==> !is_marked(#[trigger] reports[k])) ==> (
        accounts::summary_report(reports) == (if reports.len() == 1 {
            Some(0int)
        } else {
            None
        })),
{
    let active = accounts::reports_where(reports, true);
    lemma_where(reports);
    assert forall|k: int| 0 <= k < reports.len() implies (accounts::is_active_report(
        #[trigger] reports[k],
    ) <==> is_marked(reports[k])) by {
        lemma_marked(reports[k]);
    }
    if 0 <= i < reports.len() && is_marked(reports[i]) {
        assert(accounts::is_active_report(reports[i]));
        assert(active.contains(i));
        let a = active.index_of(i);
        if forall|k: int| 0 <= k < reports.len() && k != i ==> !is_marked(#[trigger] reports[k]) {
            if active.len() > 1 {
                let b = if a == 0 {
                    1int
                } else {
                    0
                };
                assert(active[b] != active[a]);
                assert(is_marked(reports[active[b]]));
            }
        }
        if 0 <= i < j < reports.len() && is_marked(reports[j]) {
            assert(active.contains(j));
            let b = active.index_of(j);
            assert(a != b);
        }
    }
    if forall|k: int| 0 <= k < reports.len() ==> !is_marked(#[trigger] reports[k]) {
        if active.len() > 0 {
            assert(is_marked(reports[active[0]]));
        }
    }
}

proof fn lemma_where(reports: Seq<ReportView>)
    ensures
        forall|k: int|
            0 <= k < accounts::reports_where(reports, true).len() ==> {
                let at = #[trigger] accounts::reports_where(reports, true)[k];
                0 <= at < reports.len() && accounts::is_active_report(reports[at])
            },
        forall|i: int|
            0 <= i < reports.len() && accounts::is_active_report(#[trigger] reports[i])
                ==> accounts::reports_where(reports, true).contains(i),
        forall|a: int, b: int|
            0 <= a < b < accounts::reports_where(reports, true).len() ==> (
            #[trigger] accounts::reports_where(reports, true)[a]) < (
            #[trigger] accounts::reports_where(reports, true)[b]),
    decreases reports.len(),
{
    if reports.len() > 0 {
        let fewer = reports.drop_last();
        lemma_where(fewer);
        let before = accounts::reports_where(fewer, true);
        let all = accounts::reports_where(reports, true);
        assert forall|i: int|
            0 <= i < reports.len() && accounts::is_active_report(
                #[trigger] reports[i],
            ) implies all.contains(i) by {
            if i < fewer.len() {
                assert(fewer[i] == reports[i]);
                assert(before.contains(i));
                let k = before.index_of(i);
                assert(all[k] == i);
            } else {
                assert(all[all.len() - 1] == i);
            }
        }
        assert forall|k: int| 0 <= k < all.len() implies {
            let at = #[trigger] all[k];
            0 <= at < reports.len() && accounts::is_active_report(reports[at])
        } by {
            if k < before.len() {
                assert(all[k] == before[k]);
                assert(fewer[before[k]] == reports[before[k]]);
            }
        }
        assert forall|a: int, b: int| 0 <= a < b < all.len() implies (#[trigger] all[a]) < (
        #[trigger] all[b]) by {
            if b < before.len() {
                assert(all[a] == before[a] && all[b] == before[b]);
            } else {
                assert(all[a] == before[a]);
            }
        }
    }
}

/// A limit is told as its entry tells it, where that names it and gives a percentage; other
/// entries tell of none. The limits keep their order.
pub proof fn limits_are_told_as_reported(entries: Seq<json::JsonView>, more: json::JsonView)
    ensures
        ({
            let name = more.field_text("name"@);
            let percent = more.get("usage_percent"@);
            let told = name is Some && percent is Some && percent->0 is Number
                && percent->0->float_bits is Some;
            let before = accounts::limits_of(entries);
            let after = accounts::limits_of(entries.push(more));
            &&& !told ==> after == before
            &&& told ==> after == before.push(
                LimitView {
                    name: name->0,
                    usage_percent_bits: percent->0->float_bits->0,
                    reset_in: more.field_text("reset_in"@),
                },
            )
            &&& accounts::limits_of(Seq::empty()).len() == 0
        }),
{
    assert(entries.push(more).drop_last() =~= entries);
}

/// A report is told of under its own name. Its label is the first that is given as one, and
/// all else that is told stays, in its order.
pub proof fn reports_keep_what_is_told(provider: json::JsonView, name: Seq<char>)
    ensures
        ({
            let report = accounts::report_of(provider, name);
            let pairs = accounts::pairs_of(accounts::items_or_none(provider, "extra_info"@));
            let is_label = |p: (Seq<char>, Seq<char>)| p.0 == "Account label"@;
            &&& report.provider_name == name
            &&& report.extra_info == pairs.filter(
                |p: (Seq<char>, Seq<char>)| p.0 != "Account label"@,
            )
            &&& match report.account_label {
                Some(label) => exists|k: int|
                    0 <= k < pairs.len() && (#[trigger] pairs[k]) == ("Account label"@, label)
                        && forall|m: int| 0 <= m < k ==> (#[trigger] pairs[m]).0 != "Account label"@,
                None => forall|k: int|
                    0 <= k < pairs.len() ==> (#[trigger] pairs[k]).0 != "Account label"@,
            }
        }),
{
    let pairs = accounts::pairs_of(accounts::items_or_none(provider, "extra_info"@));
    lemma_plain(pairs);
    lemma_label(pairs);
}

proof fn lemma_plain(pairs: Seq<(Seq<char>, Seq<char>)>)
    ensures
        accounts::plain_pairs(pairs) == pairs.filter(
            |p: (Seq<char>, Seq<char>)| p.0 != "Account label"@,
        ),
    decreases pairs.len(),
{
    reveal(Seq::filter);
    if pairs.len() > 0 {
        lemma_plain(pairs.drop_last());
    }
}

proof fn lemma_label(pairs: Seq<(Seq<char>, Seq<char>)>)
    ensures
        match accounts::label_in(pairs) {
            Some(label) => exists|k: int|
                0 <= k < pairs.len() && (#[trigger] pairs[k]) == ("Account label"@, label)
                    && forall|m: int| 0 <= m < k ==> (#[trigger] pairs[m]).0 != "Account label"@,
            None => forall|k: int|
                0 <= k < pairs.len() ==> (#[trigger] pairs[k]).0 != "Account label"@,
        },
    decreases pairs.len(),
{
    if pairs.len() > 0 {
        let fewer = pairs.drop_last();
        lemma_label(fewer);
        match accounts::label_in(fewer) {
            Some(label) => {
                let k = choose|k: int|
                    0 <= k < fewer.len() && (#[trigger] fewer[k]) == ("Account label"@, label)
                        && forall|m: int| 0 <= m < k ==> (#[trigger] fewer[m]).0 != "Account label"@;
                assert(pairs[k] == fewer[k]);
                assert forall|m: int| 0 <= m < k implies (#[trigger] pairs[m]).0
                    != "Account label"@ by {
                    assert(pairs[m] == fewer[m]);
                }
            },
            None => {
                let last = pairs.len() - 1;
                assert forall|m: int| 0 <= m < last implies (#[trigger] pairs[m]).0
                    != "Account label"@ by {
                    assert(pairs[m] == fewer[m]);
                }
                assert(pairs[last] == pairs.last());
            },
        }
    }
}

/// Reports name providers in words and in any case. A login's reports are not those of an API
/// key of the same vendor.
pub proof fn reports_name_providers(account: AccountView, name: Seq<char>, family: Seq<char>)
    requires
        family != "openai"@,
        family != "openai-api"@,
        family != "anthropic-api"@,
        family != "jcode"@,
    ensures
        ({
            let n = text::lower_all(name);
            let about = accounts::is_about(account, name, family);
            &&& about == accounts::is_about(account, n, family)
            &&& account.id == family ==> (about <==> text::starts(
                n,
                "anthropic ("@ + family + ")"@,
            ) || text::starts(n, "anthropic - "@))
            &&& account.id == "anthropic-api"@ ==> (about <==> text::starts(n, "anthropic api"@))
            &&& account.id == "openai"@ ==> (about <==> text::starts(n, "openai (chatgpt)"@)
                || text::starts(n, "openai - "@))
            &&& account.id == "openai-api"@ ==> (about <==> text::starts(n, "openai api"@))
            &&& account.id == "jcode"@ ==> (about <==> text::starts(n, "jcode subscription"@))
        }),
{
    text::lowering_leaves_no_capitals(name);
    reveal_strlit("openai");
    reveal_strlit("openai-api");
    reveal_strlit("anthropic-api");
    reveal_strlit("jcode");
    assert("openai"@.len() == 6 && "openai-api"@.len() == 10);
    assert("anthropic-api"@.len() == 13 && "jcode"@.len() == 5);
}

/// The most recent accounts keep their order behind the one just used, which leads; no more
/// than three are kept.
pub proof fn used_accounts_keep_their_order(recent: Seq<Seq<char>>, id: Seq<char>)
    requires
        !(recent.len() > 0 && recent[0] == id),
    ensures
        ({
            let rest = recent.filter(|other: Seq<char>| other != id);
            let all = seq![id] + rest;
            accounts::used(recent, id) == (if all.len() > 3 {
                all.take(3)
            } else {
                all
            })
        }),
        accounts::used(recent, id).len() <= 3,
{
    lemma_without(recent, id);
}

proof fn lemma_without(ids: Seq<Seq<char>>, id: Seq<char>)
    ensures
        accounts::without(ids, id) == ids.filter(|other: Seq<char>| other != id),
    decreases ids.len(),
{
    reveal(Seq::filter);
    if ids.len() > 0 {
        lemma_without(ids.drop_last(), id);
    }
}

/// Among accounts that are alike connected the active one comes before all others, one used
/// more recently before one used earlier, and a used one before those that were not.
pub proof fn used_accounts_come_first(
    a: AccountView,
    b: AccountView,
    active: Option<Seq<char>>,
    recent: Seq<Seq<char>>,
    i: int,
)
    requires
        recent.len() <= 3,
        (a.status == "available"@) == (b.status == "available"@),
        active != Some(b.id),
        0 <= i < recent.len() && recent[i] == a.id && !recent.take(i).contains(b.id) && a.id != b.id
            || active == Some(a.id),
    ensures
        order::before(
            accounts::rank(a, active, recent),
            accounts::rank(b, active, recent),
        ),
{
    lemma_position(recent, a.id, 0);
    lemma_position(recent, b.id, 0);
    if active != Some(a.id) {
        if let Some(k) = accounts::position_in(recent, b.id, 0) {
            if k < i {
                assert(recent.take(i)[k] == b.id);
            }
        }
    }
}

proof fn lemma_position(ids: Seq<Seq<char>>, id: Seq<char>, from: int)
    requires
        0 <= from <= ids.len(),
    ensures
        match accounts::position_in(ids, id, from) {
            Some(k) => from <= k < ids.len() && ids[k] == id && forall|m: int|
                from <= m < k ==> #[trigger] ids[m] != id,
            None => forall|m: int| from <= m < ids.len() ==> #[trigger] ids[m] != id,
        },
    decreases ids.len() - from,
{
    if from < ids.len() && ids[from] != id {
        lemma_position(ids, id, from + 1);
    }
}

/// A provider's spellings come to one account, whatever their case and the space around them.
/// A login and an API key of a vendor are two accounts; how the runtime was authorised tells
/// them apart where the spelling does not. A provider that is not known is its own account.
#[verifier::rlimit(40)]
pub proof fn spellings_come_to_one_account(
    provider: Seq<char>,
    auth: Option<Seq<char>>,
    family: Seq<char>,
)
    requires
        ({
            let p = text::lower_all(text::trim(provider));
            !accounts::names_anthropic(p, family) && !accounts::names_anthropic_api(p, family)
        }),
    ensures
        ({
            let p = text::lower_all(text::trim(provider));
            let by_key = auth is Some && text::holds(text::lower_all(auth->0), "api"@);
            let id = accounts::credential(provider, auth, family);
            &&& p == "openai"@ || p == "chatgpt"@ || p == "openai-oauth"@ ==> id == (if by_key {
                "openai-api"@
            } else {
                "openai"@
            })
            &&& p == "openai-api"@ || p == "openai-api-key"@ ==> id == "openai-api"@
            &&& p == "gemini"@ || p == "google"@ || p == "gemini-oauth"@ ==> id == (if by_key {
                "gemini-api"@
            } else {
                "gemini"@
            })
            &&& p == "gemini-api"@ || p == "gemini-api-key"@ ==> id == "gemini-api"@
            &&& p == "zai"@ || p == "z.ai"@ || p == "zhipu"@ ==> id == "zai"@
            &&& id == p || id == "openai"@ || id == "openai-api"@ || id == "gemini"@ || id
                == "gemini-api"@ || id == "zai"@
        }),
{
    reveal_strlit("openai");
    reveal_strlit("chatgpt");
    reveal_strlit("openai-oauth");
    reveal_strlit("openai-api");
    reveal_strlit("openai-api-key");
    reveal_strlit("gemini");
    reveal_strlit("google");
    reveal_strlit("gemini-oauth");
    reveal_strlit("gemini-api");
    reveal_strlit("gemini-api-key");
    reveal_strlit("zai");
    reveal_strlit("z.ai");
    reveal_strlit("zhipu");
    assert("openai"@[0] == 'o' && "chatgpt"@[0] == 'c' && "openai-oauth"@[0] == 'o');
    assert("openai-api"@[0] == 'o' && "openai-api-key"@[0] == 'o' && "gemini"@[0] == 'g');
    assert("google"@[0] == 'g' && "gemini-oauth"@[0] == 'g' && "gemini-api"@[0] == 'g');
    assert("gemini-api-key"@[0] == 'g' && "zai"@[0] == 'z' && "z.ai"@[0] == 'z');
    assert("zhipu"@[0] == 'z');
    assert("openai"@.len() == 6 && "openai-oauth"@.len() == 12 && "openai-api"@.len() == 10);
    assert("openai-api-key"@.len() == 14 && "gemini"@.len() == 6 && "google"@.len() == 6);
    assert("gemini-oauth"@.len() == 12 && "gemini-api"@.len() == 10);
    assert("gemini-api-key"@.len() == 14);
}

/// Anthropic's login goes by the name of its model family, however it is spelled, and its API
/// key by a name of its own.
pub proof fn anthropic_has_a_login_and_a_key(
    provider: Seq<char>,
    auth: Option<Seq<char>>,
    family: Seq<char>,
)
    ensures
        ({
            let p = text::lower_all(text::trim(provider));
            let by_key = auth is Some && text::holds(text::lower_all(auth->0), "api"@);
            let id = accounts::credential(provider, auth, family);
            let login = p == "anthropic"@ || p == family || p == family + "-oauth"@ || p == family
                + "-cli"@ || p == "anthropic-oauth"@;
            let key = p == "anthropic-api"@ || p == "anthropic-api-key"@ || p == family + "-api"@;
            &&& login ==> id == (if by_key {
                "anthropic-api"@
            } else {
                family
            })
            &&& key && !login ==> id == "anthropic-api"@
        }),
{
}

/// What is said of an account's status follows from it: only an available account is signed in
/// or connected, by whether it is a login or a key, and a status that is not known is said to
/// be so.
pub proof fn statuses_are_put_in_words(account: AccountView)
    ensures
        ({
            let words = accounts::status_words(account);
            let login = account.auth_kind == "OAuth"@ || account.auth_kind == "device code"@;
            &&& account.status == "available"@ ==> words == (if login {
                "Signed in"@
            } else {
                "Connected"@
            })
            &&& account.status == "expired"@ ==> words == "Expired · sign in again"@
            &&& account.status == "not_configured"@ ==> words == (if login {
                "Not signed in"@
            } else {
                "Not configured"@
            })
            &&& account.status != "available"@ && account.status != "expired"@ && account.status
                != "not_configured"@ ==> words == "Status unknown"@
        }),
{
    reveal_strlit("available");
    reveal_strlit("expired");
    reveal_strlit("not_configured");
    assert("available"@.len() == 9 && "expired"@.len() == 7 && "not_configured"@.len() == 14);
}

/// A login's name in a report is what stands behind its vendor, and the mark of the login in
/// use is no part of it.
pub proof fn report_names_hold_the_label(vendor: Seq<char>, label: Seq<char>)
    requires
        vendor.len() > 0,
        !vendor.contains('-'),
        !text::is_white(vendor[0]),
        label.len() > 0,
        !text::is_white(label[0]),
        !text::is_white(label.last()),
        label.last() != ')',
        label.last() != '✦',
    ensures
        accounts::report_label(vendor + " - "@ + label) == label,
        accounts::report_email(vendor + " - "@ + label) is None,
        !accounts::report_marked(vendor + " - "@ + label),
        accounts::report_label(vendor + " - "@ + label + " ✦"@) == label,
        accounts::report_marked(vendor + " - "@ + label + " ✦"@),
{
    reveal_strlit(" - ");
    reveal_strlit(" ✦");
    let name = vendor + " - "@ + label;
    assert(name.last() == label.last() && name[0] == vendor[0]);
    text::lemma_already_trimmed(name);
    lemma_behind_vendor(vendor, label);
    let marked = name + " ✦"@;
    assert(" ✦"@ =~= seq![' ', '✦']);
    assert(marked.last() == '✦');
    assert(marked[0] == vendor[0]);
    text::lemma_already_trimmed(marked);
    let cut = marked.drop_last();
    assert(cut.drop_last() =~= name);
    text::lemma_trim_end(cut, name.len() as int);
    assert(cut.subrange(0, name.len() as int) =~= name);
}

proof fn lemma_behind_vendor(vendor: Seq<char>, label: Seq<char>)
    requires
        !vendor.contains('-'),
        label.len() > 0,
        !text::is_white(label[0]),
        !text::is_white(label.last()),
    ensures
        accounts::without_vendor(vendor + " - "@ + label) == label,
{
    reveal_strlit(" - ");
    assert(" - "@ =~= seq![' ', '-', ' ']);
    let name = vendor + " - "@ + label;
    let at = vendor.len() as int;
    let dash = " - "@;
    assert(dash.len() == 3 && dash[1] == '-');
    assert(text::at(name, dash, at)) by {
        assert(name.subrange(at, at + 3) =~= dash);
    }
    text::lemma_find(name, dash, 0);
    let found = text::find(name, dash)->0;
    assert(found <= at);
    if found < at {
        lemma_dash(name, dash, found);
        assert(name[found + 1] == '-');
        if found + 1 < at {
            assert(vendor[found + 1] == name[found + 1]);
            assert(vendor.contains(vendor[found + 1]));
        } else {
            assert(name[at] == dash[0]);
        }
    }
    assert(name.subrange(at + 3, name.len() as int) =~= label);
    text::lemma_already_trimmed(label);
}

proof fn lemma_dash(name: Seq<char>, dash: Seq<char>, found: int)
    requires
        text::at(name, dash, found),
        dash.len() == 3,
        dash[1] == '-',
    ensures
        found + 3 <= name.len(),
        name[found + 1] == '-',
{
    assert(name.subrange(found, found + 3)[1] == dash[1]);
}

/// The address that a report prints behind a login's name, in brackets, is told apart from
/// the name.
pub proof fn report_names_hold_the_address(
    vendor: Seq<char>,
    label: Seq<char>,
    email: Seq<char>,
)
    requires
        vendor.len() > 0,
        !vendor.contains('-'),
        !text::is_white(vendor[0]),
        label.len() > 0,
        !text::is_white(label[0]),
        !text::is_white(label.last()),
        email.contains('@'),
        !email.contains('('),
        !text::is_white(email[0]),
        !text::is_white(email.last()),
    ensures
        accounts::report_email(vendor + " - "@ + label + " ("@ + email + ")"@) == Some(email),
        accounts::report_label(vendor + " - "@ + label + " ("@ + email + ")"@) == label,
{
    reveal_strlit(" - ");
    reveal_strlit(" (");
    reveal_strlit(")");
    assert(" ("@ =~= seq![' ', '(']);
    assert(")"@ =~= seq![')']);
    let first = vendor + " - "@ + label;
    let name = first + " ("@ + email + ")"@;
    let open = first.len() as int + 1;
    assert(name[0] == vendor[0]);
    assert(name.last() == ')');
    text::lemma_already_trimmed(name);
    text::characters_are_found_at_either_end(name, '(', name.len() as int);
    assert(name[open] == '(');
    let found = text::char_below(name, '(', name.len() as int)->0;
    if found > open {
        assert(name[found] == email[found - open - 1] || found == name.len() - 1);
        if found < name.len() - 1 {
            assert(email.contains(email[found - open - 1]));
        }
    }
    assert(name.subrange(open + 1, name.len() - 1) =~= email);
    assert(email.len() > 0);
    text::lemma_already_trimmed(email);
    let cut = name.subrange(0, open);
    assert(cut.last() == ' ');
    assert(cut.subrange(0, first.len() as int) =~= first);
    assert(first.last() == label.last());
    text::lemma_trim_end(cut, first.len() as int);
    lemma_behind_vendor(vendor, label);
}

/// The model family is named by the first account of Anthropic's, and by no other.
pub proof fn the_family_is_anthropics(all: Seq<AccountView>)
    ensures
        match accounts::family_in(all) {
            Some(name) => exists|i: int|
                0 <= i < all.len() && (#[trigger] all[i]).id == name && text::starts(
                    all[i].display_name,
                    "Anthropic/"@,
                ) && forall|k: int|
                    0 <= k < i ==> !text::starts((#[trigger] all[k]).display_name, "Anthropic/"@),
            None => forall|k: int|
                0 <= k < all.len() ==> !text::starts(
                    (#[trigger] all[k]).display_name,
                    "Anthropic/"@,
                ),
        },
    decreases all.len(),
{
    if all.len() > 0 && !text::starts(all[0].display_name, "Anthropic/"@) {
        let rest = all.drop_first();
        the_family_is_anthropics(rest);
        match accounts::family_in(rest) {
            Some(name) => {
                let i = choose|i: int|
                    0 <= i < rest.len() && (#[trigger] rest[i]).id == name && text::starts(
                        rest[i].display_name,
                        "Anthropic/"@,
                    ) && forall|k: int|
                        0 <= k < i ==> !text::starts(
                            (#[trigger] rest[k]).display_name,
                            "Anthropic/"@,
                        );
                assert(all[i + 1] == rest[i]);
                assert forall|k: int| 0 <= k < i + 1 implies !text::starts(
                    (#[trigger] all[k]).display_name,
                    "Anthropic/"@,
                ) by {
                    if k > 0 {
                        assert(all[k] == rest[k - 1]);
                    }
                }
            },
            None => {
                assert forall|k: int| 0 <= k < all.len() implies !text::starts(
                    (#[trigger] all[k]).display_name,
                    "Anthropic/"@,
                ) by {
                    if k > 0 {
                        assert(all[k] == rest[k - 1]);
                    }
                }
            },
        }
    }
}

} // verus!
