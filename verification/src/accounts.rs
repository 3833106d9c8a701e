//! Connected accounts: which logins and API keys the runtime can use, and what
//! the usage report says of each.
use vstd::prelude::*;

use crate::json;
use crate::json::{parse_json, Json};
use crate::order;
use crate::order::stable_order;
use crate::text;
use crate::text::{
    chars_of, concat, concat3, contains, decimal_of, ends_with_char, find_char, has_char, lowered,
    position, rfind_char, same, starts_with, string_of, trimmed, trimmed_end,
};

verus! {

/// One quota of a login. The percentage consumed is kept as the bits of a
/// double-precision number.
#[derive(Debug, PartialEq, Eq)]
pub struct UsageLimit {
    pub name: String,
    pub usage_percent_bits: u64,
    pub reset_in: Option<String>,
}

/// What the usage command reports of one login.
#[derive(Debug, PartialEq, Eq)]
pub struct UsageReport {
    pub provider_name: String,
    pub account_label: Option<String>,
    pub limits: Vec<UsageLimit>,
    pub extra_info: Vec<(String, String)>,
}

/// One supported provider, as the runtime's auth report lists it.
#[derive(Debug, PartialEq, Eq)]
pub struct Account {
    /// Stable provider id (`openai`, `openai-api`, ...): keys the logo lookup.
    pub id: String,
    pub display_name: String,
    /// `available`, `expired`, or `not_configured`.
    pub status: String,
    /// `OAuth`, `API key`, `CLI`, `device code`, ...
    pub auth_kind: String,
    /// Human method line, e.g. "API key (`OPENAI_API_KEY`)".
    pub method: String,
    /// The limits of one login: the active one, or the only one.
    pub limits: Vec<UsageLimit>,
    /// Each login's own report; unrelated logins are never summed.
    pub usage_reports: Vec<UsageReport>,
}

pub const USAGE_ESTIMATE_NOTE: &'static str =
    "Recorded by Jcode. API-equivalent estimates, not your ChatGPT bill. Today starts at local midnight. Lifetime covers recorded history only.";

#[verifier::ext_equal]
pub struct LimitView {
    pub name: Seq<char>,
    pub usage_percent_bits: u64,
    pub reset_in: Option<Seq<char>>,
}

#[verifier::ext_equal]
pub struct ReportView {
    pub provider_name: Seq<char>,
    pub account_label: Option<Seq<char>>,
    pub limits: Seq<LimitView>,
    pub extra_info: Seq<(Seq<char>, Seq<char>)>,
}

#[verifier::ext_equal]
pub struct AccountView {
    pub id: Seq<char>,
    pub display_name: Seq<char>,
    pub status: Seq<char>,
    pub auth_kind: Seq<char>,
    pub method: Seq<char>,
    pub limits: Seq<LimitView>,
    pub usage_reports: Seq<ReportView>,
}

impl View for UsageLimit {
    type V = LimitView;

    open spec fn view(&self) -> LimitView {
        LimitView {
            name: self.name@,
            usage_percent_bits: self.usage_percent_bits,
            reset_in: text::text_option(self.reset_in),
        }
    }
}

impl View for UsageReport {
    type V = ReportView;

    open spec fn view(&self) -> ReportView {
        ReportView {
            provider_name: self.provider_name@,
            account_label: text::text_option(self.account_label),
            limits: limit_views(self.limits@),
            extra_info: pair_views(self.extra_info@),
        }
    }
}

impl View for Account {
    type V = AccountView;

    open spec fn view(&self) -> AccountView {
        AccountView {
            id: self.id@,
            display_name: self.display_name@,
            status: self.status@,
            auth_kind: self.auth_kind@,
            method: self.method@,
            limits: limit_views(self.limits@),
            usage_reports: report_views(self.usage_reports@),
        }
    }
}

pub open spec fn limit_views(v: Seq<UsageLimit>) -> Seq<LimitView> {
    v.map_values(|l: UsageLimit| l@)
}

pub open spec fn pair_views(v: Seq<(String, String)>) -> Seq<(Seq<char>, Seq<char>)> {
    v.map_values(|p: (String, String)| (p.0@, p.1@))
}

pub open spec fn report_views(v: Seq<UsageReport>) -> Seq<ReportView> {
    v.map_values(|r: UsageReport| r@)
}

pub open spec fn account_views(v: Seq<Account>) -> Seq<AccountView> {
    v.map_values(|a: Account| a@)
}

/// Wakes the account feed: the next generation number, back to zero behind the last.
pub fn request_refresh(generation: &mut u64)
    ensures
        *final(generation) == (if *old(generation) == u64::MAX {
            0
        } else {
            (*old(generation) + 1) as u64
        }),
{
    *generation = generation.wrapping_add(1);
}

/// What is left of a report name's body without the vendor: what follows the
/// first " - ", else what follows the first parenthesized group, else nothing.
pub open spec fn without_vendor(body: Seq<char>) -> Seq<char> {
    match text::find(body, " - "@) {
        Some(i) => text::trim(body.subrange(i + " - "@.len(), body.len() as int)),
        None => match text::char_from(body, '(', 0) {
            Some(open) => match text::char_from(body, ')', open) {
                Some(close) => text::trim(body.subrange(close + 1, body.len() as int)),
                None => Seq::empty(),
            },
            None => Seq::empty(),
        },
    }
}

/// The position of the parenthesis that opens a masked address at the end of a
/// report name's body: the last group, where it holds an at sign.
pub open spec fn email_start(body: Seq<char>) -> Option<int> {
    if body.len() > 0 && body.last() == ')' {
        match text::char_below(body, '(', body.len() as int) {
            Some(open) => if text::trim(body.subrange(open + 1, body.len() - 1)).contains('@') {
                Some(open)
            } else {
                None
            },
            None => None,
        }
    } else {
        None
    }
}

/// A report name without its active marker.
pub open spec fn report_body(name: Seq<char>) -> Seq<char> {
    let t = text::trim(name);
    if t.len() > 0 && t.last() == '✦' {
        text::trim_end(t.drop_last())
    } else {
        t
    }
}

/// The login's own name within a report name.
pub open spec fn report_label(name: Seq<char>) -> Seq<char> {
    let body = report_body(name);
    match email_start(body) {
        Some(open) => without_vendor(text::trim_end(body.subrange(0, open))),
        None => without_vendor(body),
    }
}

/// The masked address within a report name.
pub open spec fn report_email(name: Seq<char>) -> Option<Seq<char>> {
    let body = report_body(name);
    match email_start(body) {
        Some(open) => Some(text::trim(body.subrange(open + 1, body.len() - 1))),
        None => None,
    }
}

/// Whether a report name carries the marker of the active login at its end.
pub open spec fn report_marked(name: Seq<char>) -> bool {
    let t = text::trim(name);
    t.len() > 0 && t.last() == '✦'
}

/// Splits `Anthropic - silver-fox (s***k@gmail.com) ✦` into its login label,
/// masked email, and active marker.
pub fn parse_report_name(provider_name: &str) -> (r: (String, Option<String>, bool))
    ensures
        r.0@ == report_label(provider_name@),
        text::text_option(r.1) == report_email(provider_name@),
        r.2 == report_marked(provider_name@),
{
    let t = trimmed(provider_name);
    let tv = chars_of(t.as_str());
    let active = tv.len() > 0 && tv[tv.len() - 1] == '✦';
    let body = if active {
        let head = string_of(&tv, 0, tv.len() - 1);
        assert(head@ == t@.drop_last());
        trimmed_end(head.as_str())
    } else {
        t
    };
    let v = chars_of(body.as_str());
    if v.len() > 0 && v[v.len() - 1] == ')' {
        if let Some(open) = rfind_char(&v, '(') {
            let inner = trimmed(string_of(&v, open + 1, v.len() - 1).as_str());
            if has_char(inner.as_str(), '@') {
                let head = trimmed_end(string_of(&v, 0, open).as_str());
                return (strip_provider_prefix(head.as_str()), Some(inner), active);
            }
        }
    }
    (strip_provider_prefix(body.as_str()), None, active)
}

/// Drops the vendor prefix that the usage report repeats on every row.
pub fn strip_provider_prefix(body: &str) -> (r: String)
    ensures
        r@ == without_vendor(body@),
{
    let v = chars_of(body);
    let n: usize = v.len();
    proof {
        reveal_strlit(" - ");
    }
    if let Some(i) = position(body, " - ") {
        return trimmed(string_of(&v, i + 3, v.len()).as_str());
    }
    if let Some(open) = find_char(&v, '(', 0) {
        if let Some(close) = find_char(&v, ')', open) {
            return trimmed(string_of(&v, close + 1, n).as_str());
        }
    }
    String::new()
}

/// The text without any trailing run of the character.
pub open spec fn without_tail(s: Seq<char>, c: char) -> Seq<char>
    decreases s.len(),
{
    if s.len() > 0 && s.last() == c {
        without_tail(s.drop_last(), c)
    } else {
        s
    }
}

fn trim_tail(s: &str, c: char) -> (r: String)
    ensures
        r@ == without_tail(s@, c),
{
    let v = chars_of(s);
    let mut n: usize = v.len();
    assert(v@.take(n as int) == s@);
    while n > 0 && v[n - 1] == c
        invariant
            n <= v@.len(),
            without_tail(v@.take(n as int), c) == without_tail(s@, c),
        decreases n,
    {
        assert(v@.take(n as int).drop_last() == v@.take(n - 1));
        n -= 1;
    }
    assert(v@.subrange(0, n as int) == v@.take(n as int));
    string_of(&v, 0, n)
}

/// The name of a login: the label in the report's name, else the label it was
/// given apart, where either says anything.
pub open spec fn login_label_of(report: ReportView) -> Option<Seq<char>> {
    let label = report_label(report.provider_name);
    if label.len() > 0 {
        Some(label)
    } else {
        match report.account_label {
            Some(given) if text::trim(given).len() > 0 => Some(text::trim(given)),
            _ => None,
        }
    }
}

/// Whether a report is of the active login: its name ends with the marker.
pub open spec fn is_active_report(report: ReportView) -> bool {
    let name = text::trim_end(report.provider_name);
    name.len() > 0 && name.last() == '✦'
}

impl UsageReport {
    /// The report's name with the login's label behind it.
    pub fn title(&self) -> (r: String)
        ensures
            r@ == match self@.account_label {
                Some(label) => self@.provider_name + " · "@ + label,
                None => self@.provider_name,
            },
    {
        match &self.account_label {
            Some(label) => concat3(self.provider_name.as_str(), " · ", label.as_str()),
            None => self.provider_name.clone(),
        }
    }

    /// Whether this is the active login's report.
    pub fn is_active(&self) -> (r: bool)
        ensures
            r == is_active_report(self@),
    {
        ends_with_char(trimmed_end(self.provider_name.as_str()).as_str(), '✦')
    }

    /// The login's own name, never the vendor's.
    pub fn login_label(&self) -> (r: Option<String>)
        ensures
            text::text_option(r) == login_label_of(self@),
    {
        let parsed = parse_report_name(self.provider_name.as_str()).0;
        if !parsed.as_str().is_empty() {
            return Some(parsed);
        }
        match &self.account_label {
            Some(label) => {
                let label = trimmed(label.as_str());
                if label.as_str().is_empty() {
                    None
                } else {
                    Some(label)
                }
            },
            None => None,
        }
    }

    /// The masked address that the report prints, e.g. `s***k@gmail.com`.
    pub fn masked_email(&self) -> (r: Option<String>)
        ensures
            text::text_option(r) == report_email(self@.provider_name),
    {
        parse_report_name(self.provider_name.as_str()).1
    }

    /// One line that identifies this login: its label, its address or both, else
    /// the report's name without the marker.
    pub fn heading(&self) -> (r: String)
        ensures
            r@ == match (login_label_of(self@), report_email(self@.provider_name)) {
                (Some(label), Some(email)) => label + " · "@ + email,
                (Some(label), None) => label,
                (None, Some(email)) => email,
                (None, None) => text::trim(without_tail(self@.provider_name, '✦')),
            },
    {
        match (self.login_label(), self.masked_email()) {
            (Some(label), Some(email)) => concat3(label.as_str(), " · ", email.as_str()),
            (Some(label), None) => label,
            (None, Some(email)) => email,
            (None, None) => trimmed(trim_tail(self.provider_name.as_str(), '✦').as_str()),
        }
    }
}

/// The positions of the reports of active logins, or of the others.
pub open spec fn reports_where(reports: Seq<ReportView>, active: bool) -> Seq<int>
    decreases reports.len(),
{
    if reports.len() == 0 {
        Seq::empty()
    } else {
        let before = reports_where(reports.drop_last(), active);
        if is_active_report(reports.last()) == active {
            before.push(reports.len() - 1)
        } else {
            before
        }
    }
}

/// The one report that speaks for the account: the only active one, or the only one.
pub open spec fn summary_report(reports: Seq<ReportView>) -> Option<int> {
    let active = reports_where(reports, true);
    if active.len() == 1 {
        Some(active[0])
    } else if active.len() == 0 && reports.len() == 1 {
        Some(0)
    } else {
        None
    }
}

/// The account with its limits drawn from the report that speaks for it.
pub open spec fn summarised(account: AccountView) -> AccountView {
    AccountView {
        limits: match summary_report(account.usage_reports) {
            Some(i) => account.usage_reports[i].limits,
            None => Seq::empty(),
        },
        ..account
    }
}

/// The limits that may be shown for the account as a whole.
pub open spec fn shown_limits(account: AccountView) -> Option<Seq<LimitView>> {
    match summary_report(account.usage_reports) {
        Some(i) => Some(account.usage_reports[i].limits),
        None => if account.usage_reports.len() == 0 {
            Some(account.limits)
        } else {
            None
        },
    }
}

/// The positions listed are positions of reports, in ascending order.
pub proof fn lemma_reports_where(reports: Seq<ReportView>, active: bool)
    ensures
        forall|k: int|
            0 <= k < reports_where(reports, active).len() ==> 0 <= #[trigger] reports_where(
                reports,
                active,
            )[k] < reports.len() && is_active_report(
                reports[reports_where(reports, active)[k]],
            ) == active,
        reports_where(reports, true).len() + reports_where(reports, false).len() == reports.len(),
    decreases reports.len(),
{
    if reports.len() > 0 {
        lemma_reports_where(reports.drop_last(), active);
        let all = reports_where(reports, active);
        assert forall|k: int| 0 <= k < all.len() implies 0 <= #[trigger] all[k] < reports.len()
            && is_active_report(reports[all[k]]) == active by {
            if k < reports_where(reports.drop_last(), active).len() {
                assert(all[k] == reports_where(reports.drop_last(), active)[k]);
            }
        }
    }
}

/// Never a blend of several logins: an account with reports shows the limits of
/// one of them, or none at all, and its summary says the same.
pub proof fn summary_is_of_one_login(account: AccountView)
    requires
        account.usage_reports.len() > 0,
    ensures
        match shown_limits(account) {
            Some(limits) => summarised(account).limits == limits && exists|i: int|
                0 <= i < account.usage_reports.len() && limits
                    == #[trigger] account.usage_reports[i].limits,
            None => summarised(account).limits.len() == 0,
        },
        account.usage_reports.len() > 1 && shown_limits(account) is Some ==> exists|i: int|
            0 <= i < account.usage_reports.len() && is_active_report(
                #[trigger] account.usage_reports[i],
            ) && shown_limits(account) == Some(account.usage_reports[i].limits),
{
    lemma_reports_where(account.usage_reports, true);
    let active = reports_where(account.usage_reports, true);
    if active.len() == 1 {
        let i = active[0];
        assert(is_active_report(account.usage_reports[i]));
    } else if active.len() == 0 && account.usage_reports.len() == 1 {
        assert(account.usage_reports[0].limits == shown_limits(account)->0);
    }
}

pub open spec fn is_login_kind(auth_kind: Seq<char>) -> bool {
    auth_kind == "OAuth"@ || auth_kind == "device code"@
}

/// The words for an account's status.
pub open spec fn status_words(account: AccountView) -> Seq<char> {
    if account.status == "available"@ {
        if is_login_kind(account.auth_kind) {
            "Signed in"@
        } else {
            "Connected"@
        }
    } else if account.status == "expired"@ {
        "Expired · sign in again"@
    } else if account.status == "not_configured"@ {
        if is_login_kind(account.auth_kind) {
            "Not signed in"@
        } else {
            "Not configured"@
        }
    } else {
        "Status unknown"@
    }
}

pub open spec fn has_history(account: AccountView) -> bool {
    account.id == "openai"@ && account.status != "not_configured"@
}

pub open spec fn has_breakdown(account: AccountView) -> bool {
    account.status != "not_configured"@ && (account.usage_reports.len() > 1 || exists|i: int|
        0 <= i < account.usage_reports.len() && says_something(#[trigger] account.usage_reports[i]))
}

pub open spec fn says_something(report: ReportView) -> bool {
    report.limits.len() > 0 || report.extra_info.len() > 0
}

fn clone_text(o: &Option<String>) -> (r: Option<String>)
    ensures
        r == *o,
{
    match o {
        Some(s) => Some(s.clone()),
        None => None,
    }
}

fn clone_limits(limits: &Vec<UsageLimit>) -> (r: Vec<UsageLimit>)
    ensures
        limit_views(r@) == limit_views(limits@),
{
    let mut r: Vec<UsageLimit> = Vec::new();
    let mut i: usize = 0;
    while i < limits.len()
        invariant
            0 <= i <= limits@.len(),
            r@.len() == i,
            limit_views(r@) == limit_views(limits@).take(i as int),
        decreases limits@.len() - i,
    {
        let limit = &limits[i];
        r.push(
            UsageLimit {
                name: limit.name.clone(),
                usage_percent_bits: limit.usage_percent_bits,
                reset_in: clone_text(&limit.reset_in),
            },
        );
        i += 1;
        assert(limit_views(r@) =~= limit_views(limits@).take(i as int));
    }
    assert(limit_views(limits@).take(i as int) == limit_views(limits@));
    r
}

impl Account {
    /// The positions of the reports of active logins, or of the others.
    fn positions_where(&self, active: bool) -> (r: Vec<usize>)
        ensures
            order::positions(r@) == reports_where(self@.usage_reports, active),
            forall|k: int| 0 <= k < r@.len() ==> #[trigger] r@[k] < self.usage_reports@.len(),
    {
        let mut r: Vec<usize> = Vec::new();
        let ghost reports = self@.usage_reports;
        let mut i: usize = 0;
        while i < self.usage_reports.len()
            invariant
                0 <= i <= self.usage_reports@.len(),
                reports == report_views(self.usage_reports@),
                order::positions(r@) == reports_where(reports.take(i as int), active),
                forall|k: int| 0 <= k < r@.len() ==> #[trigger] r@[k] < i,
            decreases self.usage_reports@.len() - i,
        {
            assert(reports.take(i + 1).drop_last() == reports.take(i as int));
            assert(reports.take(i + 1).last() == self.usage_reports@[i as int]@);
            let ghost before = order::positions(r@);
            if self.usage_reports[i].is_active() == active {
                r.push(i);
                assert(order::positions(r@) =~= before.push(i as int));
            }
            i += 1;
        }
        assert(reports.take(i as int) == reports);
        r
    }

    /// The limits that may be shown for the account as a whole.
    pub fn active_limits(&self) -> (r: Option<&Vec<UsageLimit>>)
        ensures
            match r {
                Some(limits) => shown_limits(self@) == Some(limit_views(limits@)),
                None => shown_limits(self@) is None,
            },
    {
        let active = self.positions_where(true);
        let ghost reports = self@.usage_reports;
        if active.len() == 1 {
            let i: usize = active[0];
            assert(order::positions(active@)[0] == i);
            assert(reports[i as int] == self.usage_reports@[i as int]@);
            Some(&self.usage_reports[i].limits)
        } else if active.len() == 0 {
            if self.usage_reports.len() == 1 {
                assert(reports[0] == self.usage_reports@[0]@);
                Some(&self.usage_reports[0].limits)
            } else if self.usage_reports.len() == 0 {
                Some(&self.limits)
            } else {
                None
            }
        } else {
            None
        }
    }

    /// The reports with their positions, the active logins' first.
    pub fn ordered_reports(&self) -> (r: Vec<(usize, &UsageReport)>)
        ensures
            r@.map_values(|e: (usize, &UsageReport)| e.0 as int) == reports_where(
                self@.usage_reports,
                true,
            ) + reports_where(self@.usage_reports, false),
            forall|k: int|
                0 <= k < r@.len() ==> (#[trigger] r@[k]).0 < self.usage_reports@.len() && *r@[k].1
                    == self.usage_reports@[r@[k].0 as int],
    {
        let mut order = self.positions_where(true);
        let mut others = self.positions_where(false);
        let ghost first = order@;
        let ghost second = others@;
        order.append(&mut others);
        assert(order@ =~= first + second);
        assert(order::positions(order@) =~= order::positions(first) + order::positions(second));
        let mut r: Vec<(usize, &UsageReport)> = Vec::new();
        let mut i: usize = 0;
        while i < order.len()
            invariant
                0 <= i <= order@.len(),
                r@.len() == i,
                forall|k: int|
                    0 <= k < order@.len() ==> #[trigger] order@[k] < self.usage_reports@.len(),
                forall|k: int|
                    0 <= k < i ==> (#[trigger] r@[k]).0 == order@[k] && *r@[k].1
                        == self.usage_reports@[order@[k] as int],
            decreases order@.len() - i,
        {
            r.push((order[i], &self.usage_reports[order[i]]));
            i += 1;
        }
        assert(r@.map_values(|e: (usize, &UsageReport)| e.0 as int) =~= order::positions(order@));
        r
    }

    /// Makes `limits` a summary of one login, and empty where several logins
    /// leave it open whose they would be.
    pub fn refresh_summary_limits(&mut self)
        ensures
            final(self)@ == summarised(old(self)@),
    {
        let active = self.positions_where(true);
        let ghost reports = self@.usage_reports;
        if active.len() == 1 {
            let i: usize = active[0];
            assert(order::positions(active@)[0] == i);
            assert(reports[i as int] == self.usage_reports@[i as int]@);
            self.limits = clone_limits(&self.usage_reports[i].limits);
        } else if active.len() == 0 && self.usage_reports.len() == 1 {
            assert(reports[0] == self.usage_reports@[0]@);
            self.limits = clone_limits(&self.usage_reports[0].limits);
        } else {
            self.limits = Vec::new();
            assert(limit_views(self.limits@) =~= Seq::empty());
        }
    }

    pub fn available(&self) -> (r: bool)
        ensures
            r == (self@.status == "available"@),
    {
        same(self.status.as_str(), "available")
    }

    fn has_login_kind(&self) -> (r: bool)
        ensures
            r == is_login_kind(self@.auth_kind),
    {
        same(self.auth_kind.as_str(), "OAuth") || same(self.auth_kind.as_str(), "device code")
    }

    pub fn status_label(&self) -> (r: &'static str)
        ensures
            r@ == status_words(self@),
    {
        if same(self.status.as_str(), "available") {
            if self.has_login_kind() {
                "Signed in"
            } else {
                "Connected"
            }
        } else if same(self.status.as_str(), "expired") {
            "Expired · sign in again"
        } else if same(self.status.as_str(), "not_configured") {
            if self.has_login_kind() {
                "Not signed in"
            } else {
                "Not configured"
            }
        } else {
            "Status unknown"
        }
    }

    pub fn shows_oauth_history(&self) -> (r: bool)
        ensures
            r == has_history(self@),
    {
        same(self.id.as_str(), "openai") && !same(self.status.as_str(), "not_configured")
    }

    /// Whether the account's logins are broken down: where there are several, or
    /// one of them reports anything.
    pub fn shows_login_breakdown(&self) -> (r: bool)
        ensures
            r == has_breakdown(self@),
    {
        if same(self.status.as_str(), "not_configured") {
            return false;
        }
        if self.usage_reports.len() > 1 {
            return true;
        }
        let ghost reports = self@.usage_reports;
        if self.usage_reports.len() == 1 {
            let report = &self.usage_reports[0];
            assert(reports[0] == report@);
            let r = report.limits.len() > 0 || report.extra_info.len() > 0;
            assert(r == says_something(reports[0]));
            r
        } else {
            false
        }
    }

    /// Whether the row grows past the compact height.
    pub fn expands(&self) -> (r: bool)
        ensures
            r == (has_history(self@) || has_breakdown(self@)),
    {
        self.shows_oauth_history() || self.shows_login_breakdown()
    }

    /// The status line, which says how many logins a provider holds.
    pub fn status_detail(&self) -> (r: String)
        ensures
            r@ == (if self@.usage_reports.len() > 1 {
                status_words(self@) + " · "@ + text::decimal(self@.usage_reports.len()) + " accounts"@
            } else {
                status_words(self@)
            }),
    {
        let label = self.status_label();
        if self.usage_reports.len() > 1 {
            let count = decimal_of(self.usage_reports.len() as u64);
            concat(concat3(label, " · ", count.as_str()).as_str(), " accounts")
        } else {
            label.to_owned()
        }
    }

    /// The runtime's name for switching accounts, for providers that have one. `family` is
    /// the name of Anthropic's model family, which its login goes by.
    pub fn switch_provider(&self, family: &str) -> (r: Option<&str>)
        ensures
            str_option(r) == if self@.id == family@ || self@.id == "openai"@ {
                Some(self@.id)
            } else {
                None
            },
    {
        if same(self.id.as_str(), family) || same(self.id.as_str(), "openai") {
            Some(self.id.as_str())
        } else {
            None
        }
    }
}

/// The name of Anthropic's model family, as the report of the logins gives it: the id of
/// the first account whose display name begins with the company's.
pub open spec fn family_in(accounts: Seq<AccountView>) -> Option<Seq<char>>
    decreases accounts.len(),
{
    if accounts.len() == 0 {
        None
    } else if text::starts(accounts[0].display_name, "Anthropic/"@) {
        Some(accounts[0].id)
    } else {
        family_in(accounts.drop_first())
    }
}

/// The name of Anthropic's model family, as the report of the logins gives it.
pub fn family_of(accounts: &Vec<Account>) -> (r: Option<String>)
    ensures
        text::text_option(r) == family_in(account_views(accounts@)),
{
    let ghost all = account_views(accounts@);
    let mut i: usize = 0;
    assert(all.skip(0) == all);
    while i < accounts.len()
        invariant
            0 <= i <= accounts@.len(),
            all == account_views(accounts@),
            family_in(all) == family_in(all.skip(i as int)),
        decreases accounts@.len() - i,
    {
        assert(all.skip(i as int)[0] == accounts@[i as int]@);
        if starts_with(accounts[i].display_name.as_str(), "Anthropic/") {
            return Some(accounts[i].id.clone());
        }
        assert(all.skip(i as int).drop_first() == all.skip(i + 1));
        i += 1;
    }
    None
}

pub open spec fn names_anthropic(provider: Seq<char>, family: Seq<char>) -> bool {
    provider == "anthropic"@ || provider == family || provider == family + "-oauth"@ || provider
        == family + "-cli"@ || provider == "anthropic-oauth"@
}

pub open spec fn names_anthropic_api(provider: Seq<char>, family: Seq<char>) -> bool {
    provider == "anthropic-api"@ || provider == "anthropic-api-key"@ || provider == family
        + "-api"@
}

pub open spec fn names_openai(provider: Seq<char>) -> bool {
    provider == "openai"@ || provider == "chatgpt"@ || provider == "openai-oauth"@
}

pub open spec fn names_openai_api(provider: Seq<char>) -> bool {
    provider == "openai-api"@ || provider == "openai-api-key"@
}

pub open spec fn names_gemini(provider: Seq<char>) -> bool {
    provider == "gemini"@ || provider == "google"@ || provider == "gemini-oauth"@
}

pub open spec fn names_gemini_api(provider: Seq<char>) -> bool {
    provider == "gemini-api"@ || provider == "gemini-api-key"@
}

pub open spec fn names_zai(provider: Seq<char>) -> bool {
    provider == "zai"@ || provider == "z.ai"@ || provider == "zhipu"@
}

/// The account id for a provider as the runtime spells it: every spelling of one
/// credential has one id, and a login differs from an API key. Anthropic's login goes by
/// the name of its model family.
pub open spec fn credential(
    provider: Seq<char>,
    auth: Option<Seq<char>>,
    family: Seq<char>,
) -> Seq<char> {
    let api_key = match auth {
        Some(a) => text::holds(text::lower_all(a), "api"@),
        None => false,
    };
    let p = text::lower_all(text::trim(provider));
    if names_anthropic(p, family) {
        if api_key {
            "anthropic-api"@
        } else {
            family
        }
    } else if names_anthropic_api(p, family) {
        "anthropic-api"@
    } else if names_openai(p) {
        if api_key {
            "openai-api"@
        } else {
            "openai"@
        }
    } else if names_openai_api(p) {
        "openai-api"@
    } else if names_gemini(p) {
        if api_key {
            "gemini-api"@
        } else {
            "gemini"@
        }
    } else if names_gemini_api(p) {
        "gemini-api"@
    } else if names_zai(p) {
        "zai"@
    } else {
        p
    }
}

proof fn lemma_lower_keeps_trim(s: Seq<char>)
    ensures
        text::trim(text::lower_all(text::trim(s))) == text::lower_all(text::trim(s)),
        text::lower_all(text::lower_all(text::trim(s))) == text::lower_all(text::trim(s)),
{
    let t = text::trim(s);
    let p = text::lower_all(t);
    text::lemma_trim_ends(s);
    assert(text::lower_all(p) =~= p);
    if p.len() > 0 {
        assert(p[0] == text::lower(t[0]));
        assert(p.last() == text::lower(t.last()));
        text::lemma_already_trimmed(p);
    } else {
        assert(p =~= Seq::empty());
    }
}

/// The spellings that are made of the family's name are none of the other ids.
proof fn lemma_family_apart(family: Seq<char>, id: Seq<char>)
    requires
        family != "openai"@,
        family != "gemini"@,
        id == "openai"@ || id == "openai-api"@ || id == "gemini"@ || id == "gemini-api"@ || id
            == "zai"@,
    ensures
        id != family + "-oauth"@,
        id != family + "-cli"@,
        id != family + "-api"@,
{
    reveal_strlit("openai");
    reveal_strlit("openai-api");
    reveal_strlit("gemini");
    reveal_strlit("gemini-api");
    reveal_strlit("zai");
    reveal_strlit("-oauth");
    reveal_strlit("-cli");
    reveal_strlit("-api");
    let oauth = family + "-oauth"@;
    let cli = family + "-cli"@;
    let api = family + "-api"@;
    assert(oauth[oauth.len() - 1] == 'h');
    assert(cli[cli.len() - 2] == 'l');
    assert(api[api.len() - 4] == '-' && api[api.len() - 2] == 'p');
    if id == api {
        assert(family =~= id.take(id.len() - 4));
        assert("openai-api"@.take(6) =~= "openai"@);
        assert("gemini-api"@.take(6) =~= "gemini"@);
    }
}

proof fn lemma_account_ids(family: Seq<char>)
    requires
        text::lower_all(text::trim(family)) == family,
        family != "openai"@,
        family != "gemini"@,
    ensures
        credential(family, None, family) == family,
        credential("openai"@, None, family) == "openai"@,
        credential("openai-api"@, None, family) == "openai-api"@,
        credential("gemini"@, None, family) == "gemini"@,
        credential("gemini-api"@, None, family) == "gemini-api"@,
        credential("zai"@, None, family) == "zai"@,
        credential("anthropic-api"@, None, family) == "anthropic-api"@,
{
    lemma_family_apart(family, "openai"@);
    lemma_family_apart(family, "openai-api"@);
    lemma_family_apart(family, "gemini"@);
    lemma_family_apart(family, "gemini-api"@);
    lemma_family_apart(family, "zai"@);
    reveal_strlit("anthropic-api");
    reveal_strlit("openai");
    reveal_strlit("openai-api");
    reveal_strlit("gemini");
    reveal_strlit("gemini-api");
    reveal_strlit("zai");
    reveal_strlit("-oauth");
    reveal_strlit("-cli");
    let oauth = family + "-oauth"@;
    let cli = family + "-cli"@;
    assert(oauth[oauth.len() - 1] == 'h');
    assert(cli[cli.len() - 2] == 'l');
    text::lemma_already_trimmed("anthropic-api"@);
    text::lemma_already_trimmed("openai"@);
    text::lemma_already_trimmed("openai-api"@);
    text::lemma_already_trimmed("gemini"@);
    text::lemma_already_trimmed("gemini-api"@);
    text::lemma_already_trimmed("zai"@);
    assert(text::lower_all("anthropic-api"@) =~= "anthropic-api"@);
    assert(text::lower_all("openai"@) =~= "openai"@);
    assert(text::lower_all("openai-api"@) =~= "openai-api"@);
    assert(text::lower_all("gemini"@) =~= "gemini"@);
    assert(text::lower_all("gemini-api"@) =~= "gemini-api"@);
    assert(text::lower_all("zai"@) =~= "zai"@);
    reveal_strlit("anthropic");
    reveal_strlit("anthropic-oauth");
    reveal_strlit("anthropic-api-key");
    reveal_strlit("chatgpt");
    reveal_strlit("openai-oauth");
    reveal_strlit("openai-api-key");
    reveal_strlit("google");
    reveal_strlit("gemini-oauth");
    reveal_strlit("gemini-api-key");
}

/// An account id is its own: asked for again, it comes back. The family's name is taken to
/// be written in lower case and to be no other vendor's.
pub proof fn account_ids_stay(provider: Seq<char>, auth: Option<Seq<char>>, family: Seq<char>)
    requires
        text::lower_all(text::trim(family)) == family,
        family != "openai"@,
        family != "gemini"@,
    ensures
        credential(credential(provider, auth, family), None, family) == credential(
            provider,
            auth,
            family,
        ),
{
    lemma_lower_keeps_trim(provider);
    lemma_account_ids(family);
}

pub open spec fn str_option(o: Option<&str>) -> Option<Seq<char>> {
    match o {
        Some(s) => Some(s@),
        None => None,
    }
}

/// Resolves the credential, not the model family, onto the account id that the
/// interface keys on.
pub fn credential_id(provider: &str, auth: Option<&str>, family: &str) -> (r: String)
    ensures
        r@ == credential(provider@, str_option(auth), family@),
{
    let api_key = match auth {
        Some(a) => contains(lowered(a).as_str(), "api"),
        None => false,
    };
    let owned = lowered(trimmed(provider).as_str());
    let p = owned.as_str();
    let id: &str = if same(p, "anthropic") || same(p, family) || same(
        p,
        concat(family, "-oauth").as_str(),
    ) || same(p, concat(family, "-cli").as_str()) || same(p, "anthropic-oauth") {
        if api_key {
            "anthropic-api"
        } else {
            family
        }
    } else if same(p, "anthropic-api") || same(p, "anthropic-api-key") || same(
        p,
        concat(family, "-api").as_str(),
    ) {
        "anthropic-api"
    } else if same(p, "openai") || same(p, "chatgpt") || same(p, "openai-oauth") {
        if api_key {
            "openai-api"
        } else {
            "openai"
        }
    } else if same(p, "openai-api") || same(p, "openai-api-key") {
        "openai-api"
    } else if same(p, "gemini") || same(p, "google") || same(p, "gemini-oauth") {
        if api_key {
            "gemini-api"
        } else {
            "gemini"
        }
    } else if same(p, "gemini-api") || same(p, "gemini-api-key") {
        "gemini-api"
    } else if same(p, "zai") || same(p, "z.ai") || same(p, "zhipu") {
        "zai"
    } else {
        p
    };
    id.to_owned()
}

/// The ids without one of them.
pub open spec fn without(ids: Seq<Seq<char>>, id: Seq<char>) -> Seq<Seq<char>>
    decreases ids.len(),
{
    if ids.len() == 0 {
        ids
    } else if ids.last() == id {
        without(ids.drop_last(), id)
    } else {
        without(ids.drop_last(), id).push(ids.last())
    }
}

/// The first three of the ids, or all of them.
pub open spec fn first_three(ids: Seq<Seq<char>>) -> Seq<Seq<char>> {
    if ids.len() > 3 {
        ids.take(3)
    } else {
        ids
    }
}

/// The ids in use after `id` was used: it leads, the others follow in their order,
/// three in all.
pub open spec fn used(recent: Seq<Seq<char>>, id: Seq<char>) -> Seq<Seq<char>> {
    if recent.len() > 0 && recent[0] == id {
        recent
    } else {
        first_three(seq![id] + without(recent, id))
    }
}

/// Records a use in the bounded list of recently used ids.
pub fn record_use(recent: &mut Vec<String>, id: String)
    ensures
        text::texts(final(recent)@) == used(text::texts(old(recent)@), id@),
{
    if recent.len() > 0 && same(recent[0].as_str(), id.as_str()) {
        assert(text::texts(recent@)[0] == id@);
        return;
    }
    let ghost before = text::texts(recent@);
    assert(recent@.len() > 0 ==> before[0] == recent@[0]@);
    let ghost mut seen: int = 0;
    let mut i: usize = 0;
    assert(before.skip(0) == before);
    assert(text::texts(recent@).take(0) == without(before.take(0), id@));
    assert(text::texts(recent@).skip(0) == before.skip(0));
    while i < recent.len()
        invariant
            0 <= i <= recent@.len(),
            0 <= seen <= before.len(),
            before.len() - seen == recent@.len() - i,
            text::texts(recent@).take(i as int) == without(before.take(seen), id@),
            text::texts(recent@).skip(i as int) == before.skip(seen),
        decreases recent@.len() - i,
    {
        let ghost now = text::texts(recent@);
        assert(before.take(seen + 1).drop_last() == before.take(seen));
        assert(now.skip(i as int)[0] == now[i as int]);
        assert(before.skip(seen)[0] == before[seen]);
        assert(now[i as int] == recent@[i as int]@);
        assert(before.take(seen + 1).last() == before[seen]);
        assert(before.skip(seen).skip(1) == before.skip(seen + 1));
        if same(recent[i].as_str(), id.as_str()) {
            recent.remove(i);
            assert(text::texts(recent@) =~= now.remove(i as int));
            assert(text::texts(recent@).take(i as int) =~= now.take(i as int));
            assert(text::texts(recent@).skip(i as int) =~= now.skip(i as int).skip(1));
        } else {
            i += 1;
            assert(now.take(i as int) =~= now.take(i - 1).push(now[i - 1]));
            assert(now.skip(i as int) =~= now.skip(i - 1).skip(1));
        }
        proof {
            seen = seen + 1;
        }
    }
    assert(before.take(seen) == before);
    assert(text::texts(recent@).take(i as int) == text::texts(recent@));
    let ghost kept = text::texts(recent@);
    let ghost name = id@;
    recent.insert(0, id);
    assert(text::texts(recent@) =~= seq![name] + kept);
    recent.truncate(3);
    assert(text::texts(recent@) =~= first_three(seq![name] + kept));
}

/// The id just used leads the list.
pub proof fn used_id_leads(recent: Seq<Seq<char>>, id: Seq<char>)
    ensures
        used(recent, id).len() > 0,
        used(recent, id)[0] == id,
{
}

/// The list never grows past three ids.
pub proof fn used_is_bounded(recent: Seq<Seq<char>>, id: Seq<char>)
    requires
        recent.len() <= 3,
    ensures
        used(recent, id).len() <= 3,
{
}

/// Using the same id again changes nothing.
pub proof fn used_twice_is_used_once(recent: Seq<Seq<char>>, id: Seq<char>)
    ensures
        used(used(recent, id), id) == used(recent, id),
{
}

proof fn lemma_without(ids: Seq<Seq<char>>, id: Seq<char>)
    ensures
        forall|k: int| 0 <= k < without(ids, id).len() ==> #[trigger] without(ids, id)[k] != id,
        forall|x: Seq<char>| without(ids, id).contains(x) ==> ids.contains(x),
        ids.no_duplicates() ==> without(ids, id).no_duplicates(),
    decreases ids.len(),
{
    if ids.len() > 0 {
        let front = ids.drop_last();
        lemma_without(front, id);
        let kept = without(front, id);
        assert forall|x: Seq<char>| front.contains(x) implies ids.contains(x) by {
            let k = choose|k: int| 0 <= k < front.len() && front[k] == x;
            assert(ids[k] == x);
        }
        assert(ids.contains(ids[ids.len() - 1]));
        if ids.no_duplicates() {
            assert(front.no_duplicates());
            assert(!kept.contains(ids.last())) by {
                if kept.contains(ids.last()) {
                    assert(front.contains(ids.last()));
                    let k = choose|k: int| 0 <= k < front.len() && front[k] == ids.last();
                    assert(ids[k] == ids[ids.len() - 1]);
                }
            }
        }
        if ids.last() != id {
            let all = kept.push(ids.last());
            assert forall|x: Seq<char>| all.contains(x) implies ids.contains(x) by {
                let k = choose|k: int| 0 <= k < all.len() && all[k] == x;
                if k < kept.len() {
                    assert(kept.contains(kept[k]));
                }
            }
            if ids.no_duplicates() {
                assert forall|i: int, j: int|
                    0 <= i < all.len() && 0 <= j < all.len() && i != j implies all[i] != all[j] by {
                    if i < kept.len() {
                        assert(kept.contains(kept[i]));
                    }
                    if j < kept.len() {
                        assert(kept.contains(kept[j]));
                    }
                }
            }
        }
    }
}

/// No id occurs twice in the list if none did before.
pub proof fn used_stays_unique(recent: Seq<Seq<char>>, id: Seq<char>)
    requires
        recent.no_duplicates(),
    ensures
        used(recent, id).no_duplicates(),
{
    lemma_without(recent, id);
}

/// The first position of an id in a list.
pub open spec fn position_in(ids: Seq<Seq<char>>, id: Seq<char>, from: int) -> Option<int>
    decreases ids.len() - from,
{
    if from < 0 || from >= ids.len() {
        None
    } else if ids[from] == id {
        Some(from)
    } else {
        position_in(ids, id, from + 1)
    }
}

/// The rank of an account's row: connected accounts come first, and in either group
/// the active one, the recently used by recency, then the rest.
pub open spec fn rank(account: AccountView, active: Option<Seq<char>>, recent: Seq<Seq<char>>) -> (
    u128,
    u64,
) {
    let connected = account.status == "available"@;
    (
        if connected {
            0
        } else {
            1
        },
        if active == Some(account.id) {
            0
        } else {
            match position_in(recent, account.id, 0) {
                Some(i) => (i + 1) as u64,
                None => if connected {
                    4
                } else {
                    5
                },
            }
        },
    )
}

pub open spec fn ranks(
    accounts: Seq<Account>,
    active: Option<Seq<char>>,
    recent: Seq<Seq<char>>,
) -> Seq<(u128, u64)> {
    accounts.map_values(|a: Account| rank(a@, active, recent))
}

fn rank_of(account: &Account, active: Option<&str>, recent: &[String]) -> (r: (u128, u64))
    ensures
        r == rank(account@, str_option(active), text::texts(recent@)),
{
    let connected = account.available();
    let group: u128 = if connected {
        0
    } else {
        1
    };
    if let Some(id) = active {
        if same(id, account.id.as_str()) {
            return (group, 0);
        }
    }
    let ghost ids = text::texts(recent@);
    let n: usize = recent.len();
    let mut i: usize = 0;
    while i < n
        invariant
            0 <= i <= recent@.len(),
            ids == text::texts(recent@),
            n == recent@.len(),
            group == (if account@.status == "available"@ { 0u128 } else { 1u128 }),
            str_option(active) != Some(account@.id),
            position_in(ids, account@.id, 0) == position_in(ids, account@.id, i as int),
        decreases recent@.len() - i,
    {
        assert(ids[i as int] == recent@[i as int]@);
        if same(recent[i].as_str(), account.id.as_str()) {
            return (group, i as u64 + 1);
        }
        i += 1;
    }
    (
        group,
        if connected {
            4
        } else {
            5
        },
    )
}

/// Every account is listed once.
pub proof fn every_account_is_listed(
    accounts: Seq<Account>,
    active: Option<Seq<char>>,
    recent: Seq<Seq<char>>,
)
    ensures
        ({
            let o = order::order_of(ranks(accounts, active, recent));
            o.len() == accounts.len() && o.no_duplicates() && forall|i: int|
                0 <= i < accounts.len() ==> o.contains(i)
        }),
{
    order::order_lists_every_row(ranks(accounts, active, recent));
}

/// A connected account never stands behind one that is not.
pub proof fn connected_accounts_come_first(
    accounts: Seq<Account>,
    active: Option<Seq<char>>,
    recent: Seq<Seq<char>>,
    i: int,
    j: int,
)
    requires
        0 <= i < j < accounts.len(),
        accounts[order::order_of(ranks(accounts, active, recent))[j]]@.status == "available"@,
    ensures
        accounts[order::order_of(ranks(accounts, active, recent))[i]]@.status == "available"@,
{
    let keys = ranks(accounts, active, recent);
    order::order_exists(keys);
    let o = order::order_of(keys);
    assert(order::before(keys[o[i]], keys[o[j]]) || (keys[o[i]] == keys[o[j]] && o[i] < o[j]));
}

/// Among the connected accounts, and among the others, nothing stands before the active
/// account but what has its id.
pub proof fn active_account_leads(
    accounts: Seq<Account>,
    id: Seq<char>,
    recent: Seq<Seq<char>>,
    i: int,
    j: int,
)
    requires
        0 <= i < j < accounts.len(),
        recent.len() < u64::MAX,
        accounts[order::order_of(ranks(accounts, Some(id), recent))[j]]@.id == id,
        (accounts[order::order_of(ranks(accounts, Some(id), recent))[i]]@.status == "available"@)
            == (accounts[order::order_of(ranks(accounts, Some(id), recent))[j]]@.status
            == "available"@),
    ensures
        accounts[order::order_of(ranks(accounts, Some(id), recent))[i]]@.id == id,
{
    let keys = ranks(accounts, Some(id), recent);
    order::order_exists(keys);
    let o = order::order_of(keys);
    let first = accounts[o[i]]@;
    assert(order::before(keys[o[i]], keys[o[j]]) || (keys[o[i]] == keys[o[j]] && o[i] < o[j]));
    assert(keys[o[j]].1 == 0);
    assert(keys[o[i]].1 == 0);
    if first.id != id {
        lemma_position_in(recent, first.id, 0);
    }
}

proof fn lemma_position_in(ids: Seq<Seq<char>>, id: Seq<char>, from: int)
    ensures
        position_in(ids, id, from) matches Some(i) ==> 0 <= i < ids.len() && ids[i] == id,
    decreases ids.len() - from,
{
    if 0 <= from < ids.len() && ids[from] != id {
        lemma_position_in(ids, id, from + 1);
    }
}

/// The accounts by rank, accounts of equal rank in their own order.
pub fn ordered<'a>(accounts: &'a [Account], active: Option<&str>, recent: &[String]) -> (r: Vec<
    &'a Account,
>)
    ensures
        r@.len() == accounts@.len(),
        forall|k: int|
            0 <= k < r@.len() ==> *(#[trigger] r@[k]) == accounts@[order::order_of(
                ranks(accounts@, str_option(active), text::texts(recent@)),
            )[k]],
{
    let ghost wanted = ranks(accounts@, str_option(active), text::texts(recent@));
    let mut keys: Vec<(u128, u64)> = Vec::new();
    let mut i: usize = 0;
    while i < accounts.len()
        invariant
            0 <= i <= accounts@.len(),
            keys@.len() == i,
            wanted == ranks(accounts@, str_option(active), text::texts(recent@)),
            forall|k: int| 0 <= k < i ==> #[trigger] keys@[k] == wanted[k],
        decreases accounts@.len() - i,
    {
        keys.push(rank_of(&accounts[i], active, recent));
        i += 1;
    }
    assert(keys@ =~= wanted);
    let order = stable_order(&keys);
    let ghost p = order::positions(order@);
    let mut r: Vec<&'a Account> = Vec::new();
    let mut k: usize = 0;
    while k < order.len()
        invariant
            0 <= k <= order@.len(),
            r@.len() == k,
            p == order::positions(order@),
            wanted.len() == accounts@.len(),
            order::is_order(p, wanted),
            forall|m: int| 0 <= m < k ==> *(#[trigger] r@[m]) == accounts@[p[m]],
        decreases order@.len() - k,
    {
        assert(p[k as int] == order@[k as int]);
        r.push(&accounts[order[k]]);
        k += 1;
    }
    r
}

/// The account that one entry of the auth report describes.
pub open spec fn account_of(provider: json::JsonView) -> AccountView {
    AccountView {
        id: text_or_empty(provider, "id"@),
        display_name: text_or_empty(provider, "display_name"@),
        status: text_or_empty(provider, "status"@),
        auth_kind: text_or_empty(provider, "auth_kind"@),
        method: text_or_empty(provider, "method"@),
        limits: Seq::empty(),
        usage_reports: Seq::empty(),
    }
}

pub open spec fn text_or_empty(value: json::JsonView, name: Seq<char>) -> Seq<char> {
    match value.field_text(name) {
        Some(s) => s,
        None => Seq::empty(),
    }
}

/// The accounts of the entries that have an id.
pub open spec fn accounts_of(providers: Seq<json::JsonView>) -> Seq<AccountView>
    decreases providers.len(),
{
    if providers.len() == 0 {
        Seq::empty()
    } else {
        let before = accounts_of(providers.drop_last());
        let account = account_of(providers.last());
        if account.id.len() > 0 {
            before.push(account)
        } else {
            before
        }
    }
}

/// The accounts that are connected, or those that are not.
pub open spec fn connected_part(accounts: Seq<AccountView>, connected: bool) -> Seq<AccountView>
    decreases accounts.len(),
{
    if accounts.len() == 0 {
        accounts
    } else {
        let before = connected_part(accounts.drop_last(), connected);
        if (accounts.last().status == "available"@) == connected {
            before.push(accounts.last())
        } else {
            before
        }
    }
}

/// The catalog that an auth report spells: every provider with an id, the connected
/// ones first.
pub open spec fn catalog(report: json::JsonView) -> Option<Seq<AccountView>> {
    match report.field_items("providers"@) {
        Some(providers) => {
            let accounts = accounts_of(providers);
            Some(connected_part(accounts, true) + connected_part(accounts, false))
        },
        None => None,
    }
}

fn field_or_empty(value: &Json, name: &str) -> (r: String)
    ensures
        r@ == text_or_empty(value@, name@),
{
    match value.field_text(name) {
        Some(s) => s.clone(),
        None => String::new(),
    }
}

/// The catalog that an auth report spells.
pub fn catalog_of(report: &Json) -> (r: Option<Vec<Account>>)
    ensures
        match r {
            Some(accounts) => catalog(report@) == Some(account_views(accounts@)),
            None => catalog(report@) is None,
        },
{
    let providers = match report.field_items("providers") {
        Some(providers) => providers,
        None => return None,
    };
    let ghost entries = json::json_views(providers@);
    let mut front: Vec<Account> = Vec::new();
    let mut back: Vec<Account> = Vec::new();
    let mut i: usize = 0;
    assert(account_views(front@) =~= Seq::empty());
    while i < providers.len()
        invariant
            0 <= i <= providers@.len(),
            entries == json::json_views(providers@),
            account_views(front@) == connected_part(accounts_of(entries.take(i as int)), true),
            account_views(back@) == connected_part(accounts_of(entries.take(i as int)), false),
        decreases providers@.len() - i,
    {
        let provider = &providers[i];
        assert(entries.take(i + 1).drop_last() == entries.take(i as int));
        assert(entries.take(i + 1).last() == provider@);
        let account = Account {
            id: field_or_empty(provider, "id"),
            display_name: field_or_empty(provider, "display_name"),
            status: field_or_empty(provider, "status"),
            auth_kind: field_or_empty(provider, "auth_kind"),
            method: field_or_empty(provider, "method"),
            limits: Vec::new(),
            usage_reports: Vec::new(),
        };
        assert(account@ =~= account_of(provider@));
        let ghost before = accounts_of(entries.take(i as int));
        assert(before.push(account@).drop_last() == before);
        let ghost front_before = account_views(front@);
        let ghost back_before = account_views(back@);
        if !account.id.as_str().is_empty() {
            let ghost added = account@;
            if account.available() {
                front.push(account);
                assert(account_views(front@) =~= front_before.push(added));
            } else {
                back.push(account);
                assert(account_views(back@) =~= back_before.push(added));
            }
        }
        i += 1;
    }
    assert(entries.take(i as int) == entries);
    let ghost first = front@;
    let ghost second = back@;
    front.append(&mut back);
    assert(account_views(front@) =~= account_views(first) + account_views(second));
    Some(front)
}

/// Parses the complete auth report.
pub fn parse(json: &str) -> (r: Option<Vec<Account>>)
    ensures
        match json::json_text(json@) {
            Some(report) => match r {
                Some(accounts) => catalog(report) == Some(account_views(accounts@)),
                None => catalog(report) is None,
            },
            None => r is None,
        },
{
    match parse_json(json) {
        Some(report) => catalog_of(&report),
        None => None,
    }
}

/// The limit that one entry of a usage report describes: it has a name and a percentage.
pub open spec fn limit_of(limit: json::JsonView) -> Option<LimitView> {
    match (limit.field_text("name"@), limit.get("usage_percent"@)) {
        (
            Some(name),
            Some(json::JsonView::Number { text, float_bits: Some(bits) }),
        ) => Some(
            LimitView {
                name,
                usage_percent_bits: bits,
                reset_in: limit.field_text("reset_in"@),
            },
        ),
        _ => None,
    }
}

/// The limits of the entries that describe one.
pub open spec fn limits_of(entries: Seq<json::JsonView>) -> Seq<LimitView>
    decreases entries.len(),
{
    if entries.len() == 0 {
        Seq::empty()
    } else {
        let before = limits_of(entries.drop_last());
        match limit_of(entries.last()) {
            Some(limit) => before.push(limit),
            None => before,
        }
    }
}

/// The key and the value of an entry that starts with two texts.
pub open spec fn pair_of(entry: json::JsonView) -> Option<(Seq<char>, Seq<char>)> {
    match entry {
        json::JsonView::Array(items) => if items.len() >= 2 {
            match (items[0].text(), items[1].text()) {
                (Some(key), Some(value)) => Some((key, value)),
                _ => None,
            }
        } else {
            None
        },
        _ => None,
    }
}

/// The pairs of the entries that are one.
pub open spec fn pairs_of(entries: Seq<json::JsonView>) -> Seq<(Seq<char>, Seq<char>)>
    decreases entries.len(),
{
    if entries.len() == 0 {
        Seq::empty()
    } else {
        let before = pairs_of(entries.drop_last());
        match pair_of(entries.last()) {
            Some(pair) => before.push(pair),
            None => before,
        }
    }
}

/// The value of the first pair that labels the account.
pub open spec fn label_in(pairs: Seq<(Seq<char>, Seq<char>)>) -> Option<Seq<char>>
    decreases pairs.len(),
{
    if pairs.len() == 0 {
        None
    } else {
        match label_in(pairs.drop_last()) {
            Some(label) => Some(label),
            None => if pairs.last().0 == "Account label"@ {
                Some(pairs.last().1)
            } else {
                None
            },
        }
    }
}

/// The pairs that do not label the account.
pub open spec fn plain_pairs(pairs: Seq<(Seq<char>, Seq<char>)>) -> Seq<(Seq<char>, Seq<char>)>
    decreases pairs.len(),
{
    if pairs.len() == 0 {
        pairs
    } else if pairs.last().0 == "Account label"@ {
        plain_pairs(pairs.drop_last())
    } else {
        plain_pairs(pairs.drop_last()).push(pairs.last())
    }
}

pub open spec fn items_or_none(value: json::JsonView, name: Seq<char>) -> Seq<json::JsonView> {
    match value.field_items(name) {
        Some(items) => items,
        None => Seq::empty(),
    }
}

/// The report that one entry of the usage report describes.
pub open spec fn report_of(provider: json::JsonView, name: Seq<char>) -> ReportView {
    let pairs = pairs_of(items_or_none(provider, "extra_info"@));
    ReportView {
        provider_name: name,
        account_label: label_in(pairs),
        limits: limits_of(items_or_none(provider, "limits"@)),
        extra_info: plain_pairs(pairs),
    }
}

/// The id with its dashes and underscores as spaces.
pub open spec fn spaced(id: Seq<char>) -> Seq<char> {
    id.map_values(
        |c: char|
            if c == '-' || c == '_' {
                ' '
            } else {
                c
            },
    )
}

/// Whether a report's name is the candidate, or begins with it as a word.
pub open spec fn named(name: Seq<char>, candidate: Seq<char>) -> bool {
    let c = text::trim(candidate);
    c.len() > 0 && (name == c || text::starts(name, c + " "@))
}

/// Whether a usage report of the given name is about the account. The usage report
/// prints human names, which differ from the ids of the auth report.
pub open spec fn is_about(account: AccountView, provider_name: Seq<char>, family: Seq<char>) -> bool {
    let name = text::lower_all(provider_name);
    if account.id == family {
        text::starts(name, "anthropic ("@ + family + ")"@) || text::starts(name, "anthropic - "@)
    } else if account.id == "anthropic-api"@ {
        text::starts(name, "anthropic api"@)
    } else if account.id == "openai"@ {
        text::starts(name, "openai (chatgpt)"@) || text::starts(name, "openai - "@)
    } else if account.id == "openai-api"@ {
        text::starts(name, "openai api"@)
    } else if account.id == "jcode"@ {
        text::starts(name, "jcode subscription"@)
    } else {
        named(name, spaced(account.id)) || named(name, text::lower_all(account.display_name))
    }
}

/// The first account from `from` on that a report of the given name is about.
pub open spec fn subject(
    accounts: Seq<AccountView>,
    name: Seq<char>,
    family: Seq<char>,
    from: int,
) -> Option<int>
    decreases accounts.len() - from,
{
    if from < 0 || from >= accounts.len() {
        None
    } else if is_about(accounts[from], name, family) {
        Some(from)
    } else {
        subject(accounts, name, family, from + 1)
    }
}

/// The accounts with one more report, where it is about one of them.
pub open spec fn with_report(
    accounts: Seq<AccountView>,
    provider: json::JsonView,
    family: Seq<char>,
) -> Seq<
    AccountView,
> {
    match provider.field_text("provider_name"@) {
        Some(name) => match subject(accounts, name, family, 0) {
            Some(i) => accounts.update(
                i,
                AccountView {
                    usage_reports: accounts[i].usage_reports.push(report_of(provider, name)),
                    ..accounts[i]
                },
            ),
            None => accounts,
        },
        None => accounts,
    }
}

/// The accounts with the reports of all the entries, in their order.
pub open spec fn with_reports(
    accounts: Seq<AccountView>,
    providers: Seq<json::JsonView>,
    family: Seq<char>,
) -> Seq<
    AccountView,
>
    decreases providers.len(),
{
    if providers.len() == 0 {
        accounts
    } else {
        with_report(
            with_reports(accounts, providers.drop_last(), family),
            providers.last(),
            family,
        )
    }
}

proof fn lemma_reports_keep(
    accounts: Seq<AccountView>,
    providers: Seq<json::JsonView>,
    family: Seq<char>,
)
    ensures
        with_reports(accounts, providers, family).len() == accounts.len(),
        forall|i: int|
            0 <= i < accounts.len() ==> (#[trigger] with_reports(accounts, providers, family)[i])
                == (AccountView {
                usage_reports: with_reports(accounts, providers, family)[i].usage_reports,
                ..accounts[i]
            }) && accounts[i].usage_reports.is_prefix_of(
                with_reports(accounts, providers, family)[i].usage_reports,
            ),
    decreases providers.len(),
{
    if providers.len() > 0 {
        lemma_reports_keep(accounts, providers.drop_last(), family);
        let before = with_reports(accounts, providers.drop_last(), family);
        if let Some(name) = providers.last().field_text("provider_name"@) {
            lemma_subject(before, name, family, 0);
        }
    }
}

proof fn lemma_subject(
    accounts: Seq<AccountView>,
    name: Seq<char>,
    family: Seq<char>,
    from: int,
)
    ensures
        subject(accounts, name, family, from) matches Some(i) ==> 0 <= i < accounts.len(),
    decreases accounts.len() - from,
{
    if 0 <= from < accounts.len() && !is_about(accounts[from], name, family) {
        lemma_subject(accounts, name, family, from + 1);
    }
}

/// Merging usage in neither adds nor drops an account, changes none but in its limits and
/// reports, and keeps the reports it had.
pub proof fn merging_keeps_the_accounts(
    accounts: Seq<AccountView>,
    report: json::JsonView,
    family: Seq<char>,
    i: int,
)
    requires
        0 <= i < accounts.len(),
    ensures
        merged(accounts, report, family).len() == accounts.len(),
        merged(accounts, report, family)[i] == (AccountView {
            usage_reports: merged(accounts, report, family)[i].usage_reports,
            limits: merged(accounts, report, family)[i].limits,
            ..accounts[i]
        }),
        accounts[i].usage_reports.is_prefix_of(merged(accounts, report, family)[i].usage_reports),
{
    if let Some(providers) = report.field_items("providers"@) {
        lemma_reports_keep(accounts, providers, family);
        let filled = with_reports(accounts, providers, family);
        assert(filled[i] == (AccountView {
            usage_reports: filled[i].usage_reports,
            ..accounts[i]
        }));
    }
}

/// The accounts with a usage report merged in: each report goes to the first account
/// it is about, and every account that gained one is summarised anew.
pub open spec fn merged(
    accounts: Seq<AccountView>,
    report: json::JsonView,
    family: Seq<char>,
) -> Seq<AccountView> {
    match report.field_items("providers"@) {
        Some(providers) => {
            let filled = with_reports(accounts, providers, family);
            Seq::new(
                accounts.len(),
                |i: int|
                    if filled[i].usage_reports.len() > accounts[i].usage_reports.len() {
                        summarised(filled[i])
                    } else {
                        filled[i]
                    },
            )
        },
        None => accounts,
    }
}

fn named_as(name: &str, candidate: &str) -> (r: bool)
    ensures
        r == named(name@, candidate@),
{
    let c = trimmed(candidate);
    !c.as_str().is_empty() && (same(name, c.as_str()) || starts_with(
        name,
        concat(c.as_str(), " ").as_str(),
    ))
}

fn spaced_id(id: &str) -> (r: String)
    ensures
        r@ == spaced(id@),
{
    let v = chars_of(id);
    let mut r = String::new();
    let mut i: usize = 0;
    while i < v.len()
        invariant
            0 <= i <= v@.len(),
            v@ == id@,
            r@ == spaced(id@).take(i as int),
        decreases v@.len() - i,
    {
        let c = if v[i] == '-' || v[i] == '_' {
            ' '
        } else {
            v[i]
        };
        r.push(c);
        i += 1;
        assert(spaced(id@).take(i as int) =~= spaced(id@).take(i - 1).push(spaced(id@)[i - 1]));
    }
    assert(spaced(id@).take(i as int) == spaced(id@));
    r
}

/// Whether a usage report of the given name is about the account.
pub fn usage_provider_matches(account: &Account, provider_name: &str, family: &str) -> (r: bool)
    ensures
        r == is_about(account@, provider_name@, family@),
{
    let lower = lowered(provider_name);
    let name = lower.as_str();
    let id = account.id.as_str();
    if same(id, family) {
        starts_with(name, concat3("anthropic (", family, ")").as_str()) || starts_with(
            name,
            "anthropic - ",
        )
    } else if same(id, "anthropic-api") {
        starts_with(name, "anthropic api")
    } else if same(id, "openai") {
        starts_with(name, "openai (chatgpt)") || starts_with(name, "openai - ")
    } else if same(id, "openai-api") {
        starts_with(name, "openai api")
    } else if same(id, "jcode") {
        starts_with(name, "jcode subscription")
    } else {
        named_as(name, spaced_id(id).as_str()) || named_as(
            name,
            lowered(account.display_name.as_str()).as_str(),
        )
    }
}

fn subject_of(accounts: &Vec<Account>, name: &str, family: &str) -> (r: Option<usize>)
    ensures
        match r {
            Some(i) => subject(account_views(accounts@), name@, family@, 0) == Some(i as int) && i
                < accounts@.len(),
            None => subject(account_views(accounts@), name@, family@, 0) is None,
        },
{
    let ghost all = account_views(accounts@);
    let mut i: usize = 0;
    while i < accounts.len()
        invariant
            0 <= i <= accounts@.len(),
            all == account_views(accounts@),
            subject(all, name@, family@, 0) == subject(all, name@, family@, i as int),
        decreases accounts@.len() - i,
    {
        assert(all[i as int] == accounts@[i as int]@);
        if usage_provider_matches(&accounts[i], name, family) {
            return Some(i);
        }
        i += 1;
    }
    None
}

fn read_limit(limit: &Json) -> (r: Option<UsageLimit>)
    ensures
        match r {
            Some(l) => limit_of(limit@) == Some(l@),
            None => limit_of(limit@) is None,
        },
{
    let name = match limit.field_text("name") {
        Some(name) => name,
        None => return None,
    };
    let bits: u64 = match limit.get("usage_percent") {
        Some(Json::Number { text, float_bits: Some(bits) }) => *bits,
        _ => return None,
    };
    let reset_in = match limit.field_text("reset_in") {
        Some(s) => Some(s.clone()),
        None => None,
    };
    Some(UsageLimit { name: name.clone(), usage_percent_bits: bits, reset_in })
}

fn read_limits(provider: &Json) -> (r: Vec<UsageLimit>)
    ensures
        limit_views(r@) == limits_of(items_or_none(provider@, "limits"@)),
{
    let mut r: Vec<UsageLimit> = Vec::new();
    assert(limit_views(r@) =~= Seq::empty());
    if let Some(entries) = provider.field_items("limits") {
        let ghost all = json::json_views(entries@);
        let mut i: usize = 0;
        while i < entries.len()
            invariant
                0 <= i <= entries@.len(),
                all == json::json_views(entries@),
                limit_views(r@) == limits_of(all.take(i as int)),
            decreases entries@.len() - i,
        {
            assert(all.take(i + 1).drop_last() == all.take(i as int));
            assert(all.take(i + 1).last() == entries@[i as int]@);
            let ghost before = limit_views(r@);
            if let Some(limit) = read_limit(&entries[i]) {
                let ghost added = limit@;
                r.push(limit);
                assert(limit_views(r@) =~= before.push(added));
            }
            i += 1;
        }
        assert(all.take(i as int) == all);
    }
    r
}

fn read_pair(entry: &Json) -> (r: Option<(String, String)>)
    ensures
        match r {
            Some(p) => pair_of(entry@) == Some((p.0@, p.1@)),
            None => pair_of(entry@) is None,
        },
{
    if let Some(items) = entry.as_items() {
        if items.len() >= 2 {
            assert(json::json_views(items@)[0] == items@[0]@);
            assert(json::json_views(items@)[1] == items@[1]@);
            if let Some(key) = items[0].as_text() {
                if let Some(value) = items[1].as_text() {
                    return Some((key.clone(), value.clone()));
                }
            }
        }
    }
    None
}

/// The label among the pairs and the pairs without it.
fn read_pairs(provider: &Json) -> (r: (Option<String>, Vec<(String, String)>))
    ensures
        text::text_option(r.0) == label_in(pairs_of(items_or_none(provider@, "extra_info"@))),
        pair_views(r.1@) == plain_pairs(pairs_of(items_or_none(provider@, "extra_info"@))),
{
    let mut label: Option<String> = None;
    let mut plain: Vec<(String, String)> = Vec::new();
    assert(pair_views(plain@) =~= Seq::empty());
    if let Some(entries) = provider.field_items("extra_info") {
        let ghost all = json::json_views(entries@);
        let mut i: usize = 0;
        while i < entries.len()
            invariant
                0 <= i <= entries@.len(),
                all == json::json_views(entries@),
                text::text_option(label) == label_in(pairs_of(all.take(i as int))),
                pair_views(plain@) == plain_pairs(pairs_of(all.take(i as int))),
            decreases entries@.len() - i,
        {
            assert(all.take(i + 1).drop_last() == all.take(i as int));
            assert(all.take(i + 1).last() == entries@[i as int]@);
            let ghost before = pairs_of(all.take(i as int));
            let ghost plain_before = pair_views(plain@);
            if let Some(pair) = read_pair(&entries[i]) {
                let ghost added = (pair.0@, pair.1@);
                assert(before.push(added).drop_last() == before);
                if same(pair.0.as_str(), "Account label") {
                    if label.is_none() {
                        label = Some(pair.1);
                    }
                } else {
                    plain.push(pair);
                    assert(pair_views(plain@) =~= plain_before.push(added));
                }
            }
            i += 1;
        }
        assert(all.take(i as int) == all);
    }
    (label, plain)
}

/// Merges a usage report into the accounts of the auth report.
pub fn merge_report(accounts: &mut Vec<Account>, report: &Json, family: &str)
    ensures
        account_views(final(accounts)@) == merged(
            account_views(old(accounts)@),
            report@,
            family@,
        ),
{
    let providers = match report.field_items("providers") {
        Some(providers) => providers,
        None => return,
    };
    let ghost start = account_views(accounts@);
    let ghost entries = json::json_views(providers@);
    let n: usize = accounts.len();
    let mut lengths: Vec<usize> = Vec::new();
    let mut k: usize = 0;
    while k < n
        invariant
            0 <= k <= n,
            n == accounts@.len(),
            start == account_views(accounts@),
            lengths@.len() == k,
            forall|m: int| 0 <= m < k ==> #[trigger] lengths@[m] == start[m].usage_reports.len(),
        decreases n - k,
    {
        assert(start[k as int].usage_reports.len() == accounts@[k as int].usage_reports@.len());
        lengths.push(accounts[k].usage_reports.len());
        k += 1;
    }
    let mut i: usize = 0;
    while i < providers.len()
        invariant
            0 <= i <= providers@.len(),
            entries == json::json_views(providers@),
            accounts@.len() == n,
            account_views(accounts@) == with_reports(
                start,
                entries.take(i as int),
                family@,
            ),
        decreases providers@.len() - i,
    {
        let provider = &providers[i];
        assert(entries.take(i + 1).drop_last() == entries.take(i as int));
        assert(entries.take(i + 1).last() == provider@);
        if let Some(name) = provider.field_text("provider_name") {
            if let Some(at) = subject_of(accounts, name.as_str(), family) {
                let ghost before = account_views(accounts@);
                let (account_label, extra_info) = read_pairs(provider);
                let new_report = UsageReport {
                    provider_name: name.clone(),
                    account_label,
                    limits: read_limits(provider),
                    extra_info,
                };
                let ghost added = new_report@;
                assert(added =~= report_of(provider@, name@));
                let ghost old_reports = accounts@[at as int].usage_reports@;
                let account = &mut accounts[at];
                account.usage_reports.push(new_report);
                assert(report_views(accounts@[at as int].usage_reports@) =~= report_views(
                    old_reports,
                ).push(added));
                assert(account_views(accounts@) =~= before.update(
                    at as int,
                    AccountView {
                        usage_reports: before[at as int].usage_reports.push(added),
                        ..before[at as int]
                    },
                ));
            }
        }
        i += 1;
    }
    assert(entries.take(i as int) == entries);
    let ghost filled = account_views(accounts@);
    let ghost done = |m: int|
        if filled[m].usage_reports.len() > start[m].usage_reports.len() {
            summarised(filled[m])
        } else {
            filled[m]
        };
    let mut j: usize = 0;
    while j < n
        invariant
            0 <= j <= n,
            n == accounts@.len(),
            n == filled.len(),
            n == lengths@.len(),
            forall|m: int| 0 <= m < n ==> #[trigger] lengths@[m] == start[m].usage_reports.len(),
            forall|m: int| 0 <= m < j ==> (#[trigger] accounts@[m])@ == done(m),
            forall|m: int| j <= m < n ==> (#[trigger] accounts@[m])@ == filled[m],
            done == |m: int|
                if filled[m].usage_reports.len() > start[m].usage_reports.len() {
                    summarised(filled[m])
                } else {
                    filled[m]
                },
        decreases n - j,
    {
        assert(accounts@[j as int]@ == filled[j as int]);
        assert(filled[j as int].usage_reports.len() == accounts@[j as int].usage_reports@.len());
        if accounts[j].usage_reports.len() > lengths[j] {
            accounts[j].refresh_summary_limits();
        }
        j += 1;
    }
    assert(account_views(accounts@) =~= merged(start, report@, family@));
}

/// Merges the usage command's output into the accounts; what is no JSON changes nothing.
pub fn merge_usage(accounts: &mut Vec<Account>, json: &str, family: &str)
    ensures
        account_views(final(accounts)@) == match json::json_text(json@) {
            Some(report) => merged(account_views(old(accounts)@), report, family@),
            None => account_views(old(accounts)@),
        },
{
    if let Some(report) = parse_json(json) {
        merge_report(accounts, &report, family);
    }
}

/// The file of the icon that shows a provider, for the providers that have one.
pub open spec fn icon(id: Seq<char>, family: Seq<char>) -> Option<Seq<char>> {
    if id == family {
        Some(family + ".svg"@)
    } else if id == "jcode"@ {
        Some("jcode.svg"@)
    } else if id == "anthropic-api"@ {
        Some("anthropic.svg"@)
    } else if id == "openai"@ || id == "openai-api"@ || id == "openai-compatible"@ {
        Some("openai.svg"@)
    } else if id == "gemini"@ || id == "gemini-api"@ {
        Some("gemini.svg"@)
    } else if id == "google"@ {
        Some("google.svg"@)
    } else if id == "copilot"@ {
        Some("githubcopilot.svg"@)
    } else if id == "openrouter"@ {
        Some("openrouter.svg"@)
    } else if id == "bedrock"@ {
        Some("bedrock.svg"@)
    } else if id == "azure"@ {
        Some("azure.svg"@)
    } else if id == "cursor"@ {
        Some("cursor.svg"@)
    } else if id == "antigravity"@ {
        Some("antigravity.svg"@)
    } else if id == "grok-build"@ {
        Some("grok.svg"@)
    } else if id == "xai"@ {
        Some("xai.svg"@)
    } else if id == "mistral"@ {
        Some("mistral.svg"@)
    } else if id == "deepseek"@ {
        Some("deepseek.svg"@)
    } else if id == "moonshotai"@ || id == "kimi"@ {
        Some("moonshot.svg"@)
    } else if id == "zai"@ {
        Some("zhipu.svg"@)
    } else if id == "alibaba-coding-plan"@ {
        Some("qwen.svg"@)
    } else if id == "groq"@ {
        Some("groq.svg"@)
    } else if id == "perplexity"@ {
        Some("perplexity.svg"@)
    } else if id == "huggingface"@ {
        Some("huggingface.svg"@)
    } else if id == "togetherai"@ {
        Some("together.svg"@)
    } else if id == "deepinfra"@ {
        Some("deepinfra.svg"@)
    } else if id == "cerebras"@ {
        Some("cerebras.svg"@)
    } else if id == "minimax"@ {
        Some("minimax.svg"@)
    } else if id == "nvidia-nim"@ {
        Some("nvidia.svg"@)
    } else if id == "fireworks"@ {
        Some("fireworks.svg"@)
    } else if id == "baseten"@ {
        Some("baseten.svg"@)
    } else if id == "lmstudio"@ {
        Some("lmstudio.svg"@)
    } else if id == "ollama"@ {
        Some("ollama.svg"@)
    } else {
        None
    }
}

/// The file of the provider's logo among the icon assets; providers without a
/// recognizable mark fall back to a lettermark.
pub fn logo(provider_id: &str, family: &str) -> (r: Option<String>)
    ensures
        text::text_option(r) == icon(provider_id@, family@),
{
    if same(provider_id, family) {
        return Some(concat(family, ".svg"));
    }
    match known_logo(provider_id) {
        Some(file) => Some(file.to_owned()),
        None => None,
    }
}

/// The icon's file for the providers whose ids are fixed.
fn known_logo(provider_id: &str) -> (r: Option<&'static str>)
    ensures
        forall|family: Seq<char>|
            family != provider_id@ ==> str_option(r) == #[trigger] icon(provider_id@, family),
{
    let id = provider_id;
    if same(id, "jcode") {
        Some("jcode.svg")
    } else if same(id, "anthropic-api") {
        Some("anthropic.svg")
    } else if same(id, "openai") || same(id, "openai-api") || same(id, "openai-compatible") {
        Some("openai.svg")
    } else if same(id, "gemini") || same(id, "gemini-api") {
        Some("gemini.svg")
    } else if same(id, "google") {
        Some("google.svg")
    } else if same(id, "copilot") {
        Some("githubcopilot.svg")
    } else if same(id, "openrouter") {
        Some("openrouter.svg")
    } else if same(id, "bedrock") {
        Some("bedrock.svg")
    } else if same(id, "azure") {
        Some("azure.svg")
    } else if same(id, "cursor") {
        Some("cursor.svg")
    } else if same(id, "antigravity") {
        Some("antigravity.svg")
    } else if same(id, "grok-build") {
        Some("grok.svg")
    } else if same(id, "xai") {
        Some("xai.svg")
    } else if same(id, "mistral") {
        Some("mistral.svg")
    } else if same(id, "deepseek") {
        Some("deepseek.svg")
    } else if same(id, "moonshotai") || same(id, "kimi") {
        Some("moonshot.svg")
    } else if same(id, "zai") {
        Some("zhipu.svg")
    } else if same(id, "alibaba-coding-plan") {
        Some("qwen.svg")
    } else if same(id, "groq") {
        Some("groq.svg")
    } else if same(id, "perplexity") {
        Some("perplexity.svg")
    } else if same(id, "huggingface") {
        Some("huggingface.svg")
    } else if same(id, "togetherai") {
        Some("together.svg")
    } else if same(id, "deepinfra") {
        Some("deepinfra.svg")
    } else if same(id, "cerebras") {
        Some("cerebras.svg")
    } else if same(id, "minimax") {
        Some("minimax.svg")
    } else if same(id, "nvidia-nim") {
        Some("nvidia.svg")
    } else if same(id, "fireworks") {
        Some("fireworks.svg")
    } else if same(id, "baseten") {
        Some("baseten.svg")
    } else if same(id, "lmstudio") {
        Some("lmstudio.svg")
    } else if same(id, "ollama") {
        Some("ollama.svg")
    } else {
        None
    }
}

/// The lettermark for providers without a logo: the first character in upper case.
pub fn lettermark(display_name: &str) -> (r: String)
    ensures
        r@ == (if display_name@.len() > 0 {
            text::uppercase(display_name@[0])
        } else {
            "?"@
        }),
{
    let v = chars_of(display_name);
    if v.len() > 0 {
        text::to_uppercase(v[0])
    } else {
        "?".to_owned()
    }
}

} // verus!
