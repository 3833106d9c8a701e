//! Accounts: identities, order, labels, and the merging of usage reports.
use jcode_desktop_ui::accounts::{
    credential_id, family_of, lettermark, logo, merge_usage, ordered, parse, record_use,
    request_refresh, Account, UsageLimit, UsageReport, USAGE_ESTIMATE_NOTE,
};

/// A stand-in for the name of Anthropic's model family.
const FAMILY: &str = "aurora";

fn percent(limit: &UsageLimit) -> f64 {
    f64::from_bits(limit.usage_percent_bits)
}

#[test]
fn recent_accounts_are_bounded_unique_and_stable_for_any_family() {
    let mut recent = Vec::new();
    for id in [
        "aurora",
        "openai",
        "gemini",
        "openrouter",
        "gemini",
        "gemini",
    ] {
        record_use(&mut recent, id.into());
    }
    assert_eq!(recent, ["gemini", "openrouter", "openai"]);
}

#[test]
fn credential_identity_distinguishes_oauth_from_api_keys_for_any_family() {
    assert_eq!(credential_id("anthropic", Some("oauth"), FAMILY), "aurora");
    assert_eq!(credential_id("anthropic", Some("api key"), FAMILY), "anthropic-api");
    assert_eq!(credential_id("openai", Some("api key"), FAMILY), "openai-api");
    assert_eq!(credential_id("openai", Some("oauth"), FAMILY), "openai");
    assert_eq!(credential_id("openrouter", None, FAMILY), "openrouter");
}

/// The runtime names the same credential several ways. The footer looked
/// up "Aurora" and found nothing, so it always said "Limits —".
#[test]
fn credential_identity_folds_every_runtime_spelling_of_a_provider_for_any_family() {
    for provider in ["Aurora", "aurora", "anthropic", "Anthropic", "aurora-oauth"] {
        assert_eq!(
            credential_id(provider, Some("oauth"), FAMILY),
            "aurora",
            "{provider} is the Aurora subscription"
        );
    }
    assert_eq!(credential_id("aurora-cli", None, FAMILY), "aurora");
    assert_eq!(credential_id("Aurora", Some("api key"), FAMILY), "anthropic-api");
    assert_eq!(credential_id("anthropic-api-key", None, FAMILY), "anthropic-api");
    for provider in ["OpenAI", "chatgpt", "openai-oauth"] {
        assert_eq!(credential_id(provider, Some("oauth"), FAMILY), "openai");
    }
    assert_eq!(credential_id("ChatGPT", Some("api key"), FAMILY), "openai-api");
    assert_eq!(credential_id("Gemini", Some("oauth"), FAMILY), "gemini");
    assert_eq!(credential_id("gemini", Some("api key"), FAMILY), "gemini-api");
    assert_eq!(credential_id("Z.AI", None, FAMILY), "zai");
    assert_eq!(credential_id("zhipu", None, FAMILY), "zai");
    assert_eq!(credential_id("OpenRouter", None, FAMILY), "openrouter");
}

/// The sub-block heading has to name the login, not repeat the vendor.
#[test]
fn report_names_split_into_login_label_masked_email_and_active_marker_for_any_family() {
    for (name, label, email, active) in [
        (
            "Anthropic - aurora-fox (s***k@gmail.com) ✦",
            Some("aurora-fox"),
            Some("s***k@gmail.com"),
            true,
        ),
        (
            "Anthropic - aurora-otter (a***h@gmail.com)",
            Some("aurora-otter"),
            Some("a***h@gmail.com"),
            false,
        ),
        (
            "OpenAI (ChatGPT) (a***h@proton.me)",
            None,
            Some("a***h@proton.me"),
            false,
        ),
        ("Z.AI (API key)", None, None, false),
        ("Google Gemini", None, None, false),
    ] {
        let report = UsageReport {
            provider_name: name.into(),
            account_label: None,
            limits: Vec::new(),
            extra_info: Vec::new(),
        };
        assert_eq!(report.login_label().as_deref(), label, "label of {name}");
        assert_eq!(report.masked_email().as_deref(), email, "email of {name}");
        assert_eq!(report.is_active(), active, "active marker of {name}");
        assert!(!report.heading().is_empty(), "heading of {name}");
    }
    let labelled = UsageReport {
        provider_name: "OpenAI (ChatGPT) (a***h@proton.me)".into(),
        account_label: Some("openai-otter".into()),
        limits: Vec::new(),
        extra_info: Vec::new(),
    };
    assert_eq!(labelled.login_label().as_deref(), Some("openai-otter"));
    assert_eq!(labelled.heading(), "openai-otter · a***h@proton.me");
}

/// The reported bug: two Aurora logins were concatenated into one six-limit
/// row whose first two entries belonged to different accounts.
#[test]
fn two_logins_keep_separate_limits_and_never_concatenate_for_any_family() {
    let mut accounts =
        parse(r#"{"providers":[{"id":"aurora","display_name":"Anthropic/Aurora","status":"available","auth_kind":"OAuth"}]}"#)
            .unwrap();
    merge_usage(
        &mut accounts,
        r#"{"providers":[
        {"provider_name":"Anthropic - aurora-fox (s***k@gmail.com) ✦","limits":[
            {"name":"5-hour window","usage_percent":3.0,"reset_in":"4h 29m"},
            {"name":"7-day window","usage_percent":0.0,"reset_in":"2d 6h"},
            {"name":"7-day Fable window","usage_percent":0.0,"reset_in":"2d 6h"}
        ],"extra_info":[["Last used","just now"]]},
        {"provider_name":"Anthropic - aurora-otter (a***h@gmail.com)","limits":[
            {"name":"5-hour window","usage_percent":62.0,"reset_in":"1h 59m"},
            {"name":"7-day window","usage_percent":14.0,"reset_in":"5d 1h"},
            {"name":"7-day Fable window","usage_percent":0.0,"reset_in":"5d 1h"}
        ],"extra_info":[["Last used","28m ago"]]}
    ]}"#,
        FAMILY,
    );
    let aurora = &accounts[0];
    assert_eq!(aurora.usage_reports.len(), 2);
    assert_eq!(aurora.usage_reports[0].limits.len(), 3);
    assert_eq!(aurora.usage_reports[1].limits.len(), 3);
    assert_eq!(
        aurora.limits.len(),
        3,
        "the summary must describe one login, not six blended limits"
    );
    assert_eq!(percent(&aurora.limits[0]), 3.0);
    assert_eq!(percent(&aurora.active_limits().unwrap()[0]), 3.0);
    assert!(aurora.shows_login_breakdown());
    assert!(aurora.expands());
    assert_eq!(aurora.status_detail(), "Signed in · 2 accounts");
    let order: Vec<_> = aurora
        .ordered_reports()
        .into_iter()
        .map(|(index, report)| (index, report.login_label().unwrap()))
        .collect();
    assert_eq!(
        order,
        vec![(0, "aurora-fox".to_string()), (1, "aurora-otter".to_string())],
        "the active login leads the breakdown"
    );
    assert_eq!(aurora.switch_provider(FAMILY), Some("aurora"));
}

/// An inactive second login must not let the footer show the wrong quota.
#[test]
fn ambiguous_multi_login_summary_is_empty_rather_than_wrong_for_any_family() {
    let mut accounts =
        parse(r#"{"providers":[{"id":"aurora","status":"available"}]}"#).unwrap();
    merge_usage(
        &mut accounts,
        r#"{"providers":[
        {"provider_name":"Anthropic - one","limits":[{"name":"5 hour","usage_percent":10.0}]},
        {"provider_name":"Anthropic - two","limits":[{"name":"5 hour","usage_percent":90.0}]}
    ]}"#,
        FAMILY,
    );
    assert!(accounts[0].limits.is_empty());
    assert!(accounts[0].active_limits().is_none());
}

/// API-key providers report spend rather than quotas, and that is still
/// worth showing under the provider header.
#[test]
fn api_key_providers_with_only_extra_info_still_get_a_breakdown() {
    let mut accounts =
        parse(r#"{"providers":[{"id":"zai","display_name":"Z.AI","status":"available","auth_kind":"API key"}]}"#)
            .unwrap();
    merge_usage(
        &mut accounts,
        r#"{"providers":[{"provider_name":"Z.AI (API key)","extra_info":[
            ["Key status","active"],["Local spend (this machine)","$1.20"]
        ]}]}"#,
        FAMILY,
    );
    assert!(accounts[0].shows_login_breakdown());
    assert!(accounts[0].limits.is_empty());
    assert_eq!(accounts[0].usage_reports[0].extra_info.len(), 2);
    assert_eq!(accounts[0].status_detail(), "Connected");
    assert_eq!(accounts[0].switch_provider(FAMILY), None);
}

/// Punctuated vendors spell their id and their display name differently,
/// and the usage report only ever prints the display name.
#[test]
fn usage_reports_match_a_provider_by_id_or_display_name() {
    let mut accounts = parse(
        r#"{"providers":[
        {"id":"zai","display_name":"Z.AI","status":"available","auth_kind":"API key"},
        {"id":"gemini","display_name":"Google Gemini","status":"available","auth_kind":"OAuth"},
        {"id":"openrouter","display_name":"OpenRouter","status":"available","auth_kind":"API key"}
    ]}"#,
    )
    .unwrap();
    merge_usage(
        &mut accounts,
        r#"{"providers":[
        {"provider_name":"Z.AI (API key)","extra_info":[["Key status","active"]]},
        {"provider_name":"Google Gemini","extra_info":[["Last used","1h ago"]]},
        {"provider_name":"OpenRouter","extra_info":[["Local spend (this machine)","$0.30"]]}
    ]}"#,
        FAMILY,
    );
    for id in ["zai", "gemini", "openrouter"] {
        let account = accounts.iter().find(|a| a.id == id).unwrap();
        assert_eq!(
            account.usage_reports.len(),
            1,
            "{id} should receive exactly its own report"
        );
    }
}

#[test]
fn active_then_recent_then_available_and_expired() {
    let rows: Vec<_> = ["other", "expired", "recent", "active", "other2"]
        .into_iter()
        .map(|id| Account {
            id: id.into(),
            display_name: id.into(),
            status: if id == "expired" {
                "expired"
            } else {
                "available"
            }
            .into(),
            auth_kind: String::new(),
            method: String::new(),
            usage_reports: Vec::new(),
            limits: Vec::new(),
        })
        .collect();
    let recent = vec!["recent".into(), "active".into()];
    let ids: Vec<_> = ordered(&rows, Some("active"), &recent)
        .into_iter()
        .map(|a| a.id.as_str())
        .collect();
    assert_eq!(ids, ["active", "recent", "other", "other2", "expired"]);
    let ids: Vec<_> = ordered(&rows, Some("unknown"), &[])
        .into_iter()
        .map(|a| a.id.as_str())
        .collect();
    assert_eq!(ids, ["other", "recent", "active", "other2", "expired"]);
}

const SAMPLE: &str = r#"{
    "any_available": true,
    "providers": [
        {"id": "aurora", "display_name": "Anthropic/Aurora", "status": "expired",
         "method": "OAuth (expired)", "auth_kind": "OAuth", "recommended": true},
        {"id": "anthropic-api", "display_name": "Anthropic API", "status": "available",
         "method": "API key (`ANTHROPIC_API_KEY`)", "auth_kind": "API key"},
        {"id": "openrouter", "display_name": "OpenRouter", "status": "not_configured",
         "method": "not configured", "auth_kind": "API key"},
        {"id": "openai", "display_name": "OpenAI", "status": "available",
         "method": "OAuth", "auth_kind": "OAuth"}
    ]
}"#;

#[test]
fn parse_keeps_all_providers_and_puts_available_first_for_any_family() {
    let accounts = parse(SAMPLE).expect("sample parses");
    assert_eq!(
        accounts
            .iter()
            .map(|account| account.id.as_str())
            .collect::<Vec<_>>(),
        vec!["anthropic-api", "openai", "aurora", "openrouter"],
        "unconfigured and expired providers remain visible after connected ones"
    );
    assert!(accounts[0].available());
    assert_eq!(accounts[2].status, "expired");
    assert_eq!(accounts[2].auth_kind, "OAuth");
}

#[test]
fn parse_rejects_garbage() {
    assert!(parse("not json").is_none());
    assert!(parse("{}").is_none());
}

#[test]
fn signed_out_active_and_recent_accounts_do_not_split_connection_groups_for_any_family() {
    let accounts = parse(SAMPLE).unwrap();
    let rows = ordered(&accounts, Some("openrouter"), &["aurora".into()]);
    assert_eq!(
        rows.iter().map(|a| a.id.as_str()).collect::<Vec<_>>(),
        ["anthropic-api", "openai", "openrouter", "aurora"]
    );
}

#[test]
fn labels_distinguish_login_key_expiry_and_unknown_status_for_any_family() {
    let mut account = parse(SAMPLE).unwrap().remove(0);
    for (status, kind, label) in [
        ("available", "OAuth", "Signed in"),
        ("available", "device code", "Signed in"),
        ("available", "API key", "Connected"),
        ("available", "local endpoint", "Connected"),
        ("expired", "OAuth", "Expired · sign in again"),
        ("not_configured", "OAuth", "Not signed in"),
        ("not_configured", "device code", "Not signed in"),
        ("not_configured", "API key", "Not configured"),
        ("not_configured", "local endpoint", "Not configured"),
        ("new-status", "OAuth", "Status unknown"),
    ] {
        account.status = status.into();
        account.auth_kind = kind.into();
        assert_eq!(account.status_label(), label);
    }
}

#[test]
fn completely_unconfigured_catalog_is_not_an_empty_account_list() {
    let accounts = parse(
        r#"{"providers":[
        {"id":"openai","status":"not_configured","auth_kind":"OAuth"},
        {"id":"ollama","status":"not_configured","auth_kind":"local endpoint"},
        {"id":"future-provider","status":"unknown"}, {}
    ]}"#,
    )
    .unwrap();
    assert_eq!(accounts.len(), 3);
    assert!(accounts.iter().all(|a| !a.available()));
    assert!(!accounts[0].shows_oauth_history());
}

#[test]
fn oauth_history_preserves_each_label_and_report_without_summing_for_any_family() {
    let mut accounts = parse(SAMPLE).unwrap();
    accounts.extend(parse(r#"{"providers":[{"id":"openai-api","display_name":"OpenAI API","status":"available","auth_kind":"API key"}]}"#).unwrap());
    merge_usage(
        &mut accounts,
        r#"{"providers":[
        {"provider_name":"OpenAI - personal (p***l@example.com) ✦","limits":[],"extra_info":[
            ["Account label","personal"],["Today","10 input · ~$0.01"],["Lifetime","100 input · ~$0.10"]
        ]},
        {"provider_name":"OpenAI - work (w***k@example.com)","extra_info":[
            ["Account label","work"],["Today","20 input · ~$0.02"],["Lifetime","200 input · ~$0.20"],
            ["Coverage","Recorded history only"], ["invalid"], null, [123,"bad"]
        ]},
        {"provider_name":"OpenAI API","extra_info":[["Today","999 API-key tokens"]]}
    ]}"#,
        FAMILY,
    );
    let openai = accounts
        .iter()
        .find(|account| account.id == "openai")
        .unwrap();
    assert!(openai.shows_oauth_history());
    assert_eq!(openai.usage_reports.len(), 2);
    let personal = &openai.usage_reports[0];
    let work = &openai.usage_reports[1];
    assert_eq!(personal.account_label.as_deref(), Some("personal"));
    assert_eq!(
        personal.title(),
        "OpenAI - personal (p***l@example.com) ✦ · personal"
    );
    assert_eq!(
        personal.extra_info[0],
        ("Today".into(), "10 input · ~$0.01".into())
    );
    assert_eq!(work.account_label.as_deref(), Some("work"));
    assert_eq!(work.extra_info.len(), 3);
    assert_eq!(
        work.extra_info[1],
        ("Lifetime".into(), "200 input · ~$0.20".into())
    );
    assert!(
        accounts
            .iter()
            .filter(|account| !matches!(account.id.as_str(), "openai" | "openai-api"))
            .all(|account| account.usage_reports.is_empty())
    );
    let api = accounts
        .iter()
        .find(|account| account.id == "openai-api")
        .unwrap();
    assert!(!api.shows_oauth_history());
    assert_eq!(api.usage_reports.len(), 1);
    assert_eq!(api.usage_reports[0].extra_info[0].1, "999 API-key tokens");
}

#[test]
fn oauth_history_retains_no_data_and_accepts_older_reports_for_any_family() {
    let mut accounts = parse(SAMPLE).unwrap();
    merge_usage(
        &mut accounts,
        r#"{"providers":[
        {"provider_name":"OpenAI (ChatGPT) empty","extra_info":[
            ["Today","No recorded usage"],["Lifetime","No recorded usage"]
        ]},
        {"provider_name":"OpenAI (ChatGPT) older","limits":[]}
    ]}"#,
        FAMILY,
    );
    let openai = accounts
        .iter()
        .find(|account| account.id == "openai")
        .unwrap();
    assert_eq!(openai.usage_reports[0].extra_info[0].1, "No recorded usage");
    assert_eq!(openai.usage_reports[0].title(), "OpenAI (ChatGPT) empty");
    assert!(openai.usage_reports[1].extra_info.is_empty());
    assert!(USAGE_ESTIMATE_NOTE.contains("not your ChatGPT bill"));
    assert!(USAGE_ESTIMATE_NOTE.contains("local midnight"));
}

#[test]
fn usage_limits_merge_by_provider_and_preserve_every_limit_for_any_family() {
    let mut accounts = parse(SAMPLE).unwrap();
    merge_usage(
        &mut accounts,
        r#"{"providers":[{"provider_name":"OpenAI (ChatGPT) (a***@example.com)","limits":[
            {"name":"5 hour","usage_percent":24.5,"reset_in":"2h"},
            {"name":"Weekly","usage_percent":81.0,"reset_in":"4d"}
        ]}]}"#,
        FAMILY,
    );
    let openai = accounts
        .iter()
        .find(|account| account.id == "openai")
        .unwrap();
    assert_eq!(openai.limits.len(), 2);
    assert_eq!(openai.limits[0].name, "5 hour");
    assert_eq!(percent(&openai.limits[1]), 81.0);
    assert_eq!(openai.limits[1].reset_in.as_deref(), Some("4d"));
    assert_eq!(openai.active_limits(), Some(&openai.limits));
}

#[test]
fn status_limits_select_active_login_and_refuse_ambiguous_reports_for_any_family() {
    let mut accounts =
        parse(r#"{"providers":[{"id":"aurora","status":"available"}]}"#).unwrap();
    merge_usage(
        &mut accounts,
        r#"{"providers":[
        {"provider_name":"Anthropic - personal ✦","limits":[{"name":"5 hour","usage_percent":24.0}]},
        {"provider_name":"Anthropic - work","limits":[{"name":"5 hour","usage_percent":91.0}]}
    ]}"#,
        FAMILY,
    );
    assert_eq!(percent(&accounts[0].active_limits().unwrap()[0]), 24.);
    accounts[0].usage_reports[0].provider_name = "Anthropic - personal".into();
    assert!(accounts[0].active_limits().is_none());
    accounts[0].usage_reports[1].provider_name.push_str(" ✦");
    assert_eq!(percent(&accounts[0].active_limits().unwrap()[0]), 91.);
}

#[test]
fn usage_merge_handles_duplicate_reports_empty_limits_and_bad_entries_for_any_family() {
    let mut accounts = parse(SAMPLE).unwrap();
    merge_usage(
        &mut accounts,
        r#"{"providers":[
            {"provider_name":"OpenAI (ChatGPT) first","limits":[
                {"name":"5 hour","usage_percent":120.0,"reset_in":null},
                {"name":"missing percent"}
            ]},
            {"provider_name":"OpenAI (ChatGPT) second","limits":[]},
            {"provider_name":"OpenAI (ChatGPT) third","limits":[
                {"name":"Weekly","usage_percent":10.0,"reset_in":"6d"}
            ]},
            {"provider_name":"Unknown provider","limits":[
                {"name":"Ignored","usage_percent":50.0}
            ]}
        ]}"#,
        FAMILY,
    );
    let openai = accounts
        .iter()
        .find(|account| account.id == "openai")
        .unwrap();
    assert_eq!(
        openai
            .usage_reports
            .iter()
            .map(|report| report.limits.len())
            .collect::<Vec<_>>(),
        [1, 0, 1],
        "each credential report keeps only its own valid limits"
    );
    assert_eq!(percent(&openai.usage_reports[0].limits[0]), 120.0);
    assert_eq!(openai.usage_reports[0].limits[0].reset_in, None);
    assert!(
        openai.limits.is_empty(),
        "limits from unrelated reports must never be concatenated"
    );
    assert!(
        accounts
            .iter()
            .filter(|account| account.id != "openai")
            .all(|account| account.limits.is_empty()),
        "unknown providers must not leak into another account"
    );
}

#[test]
fn every_shippable_provider_has_a_logo_and_the_rest_fall_back_for_any_family() {
    for id in [
        "aurora",
        "jcode",
        "anthropic-api",
        "openai",
        "openai-api",
        "gemini",
        "google",
        "copilot",
        "openrouter",
        "bedrock",
        "azure",
        "cursor",
        "antigravity",
        "grok-build",
        "xai",
        "mistral",
        "deepseek",
        "moonshotai",
        "groq",
        "perplexity",
        "huggingface",
        "togetherai",
        "cerebras",
        "nvidia-nim",
        "lmstudio",
        "ollama",
    ] {
        let file = logo(id, FAMILY).unwrap_or_else(|| panic!("{id} should have a logo"));
        assert!(
            file.ends_with(".svg"),
            "{id}'s logo should be an svg document"
        );
    }
    assert!(logo("unknown-provider", FAMILY).is_none());
    assert_eq!(lettermark("jcode router"), "J");
    assert_eq!(lettermark(""), "?");
}

#[test]
fn a_refresh_moves_the_generation_on() {
    let mut generation = 6;
    request_refresh(&mut generation);
    assert_eq!(generation, 7);
    generation = u64::MAX;
    request_refresh(&mut generation);
    assert_eq!(generation, 0);
}

#[test]
fn an_account_id_is_its_own() {
    for (provider, auth) in [
        ("Aurora", Some("oauth")),
        ("anthropic", Some("api key")),
        ("chatgpt", None),
        (" Mistral ", None),
    ] {
        let id = credential_id(provider, auth, FAMILY);
        assert_eq!(credential_id(&id, None, FAMILY), id);
    }
    assert_eq!(credential_id(" Mistral ", None, FAMILY), "mistral");
}

#[test]
fn using_an_account_again_moves_it_to_the_front() {
    let mut recent = vec!["aurora".to_string(), "openai".to_string(), "gemini".to_string()];
    record_use(&mut recent, "openai".into());
    assert_eq!(recent, ["openai", "aurora", "gemini"]);
    record_use(&mut recent, "openai".into());
    assert_eq!(recent, ["openai", "aurora", "gemini"]);
}

#[test]
fn merging_usage_keeps_the_accounts_and_their_reports() {
    let mut accounts =
        parse(r#"{"providers":[{"id":"openai","status":"available"},{"id":"xai"}]}"#).unwrap();
    merge_usage(&mut accounts, r#"{"providers":[{"provider_name":"OpenAI - one"}]}"#, FAMILY);
    merge_usage(&mut accounts, r#"{"providers":[{"provider_name":"OpenAI - two"}]}"#, FAMILY);
    merge_usage(&mut accounts, "no report", FAMILY);
    merge_usage(&mut accounts, "{}", FAMILY);
    let ids: Vec<_> = accounts.iter().map(|account| account.id.as_str()).collect();
    assert_eq!(ids, ["openai", "xai"]);
    let names: Vec<_> =
        accounts[0].usage_reports.iter().map(|report| report.provider_name.as_str()).collect();
    assert_eq!(names, ["OpenAI - one", "OpenAI - two"]);
    assert!(accounts[1].usage_reports.is_empty());
}

#[test]
fn logos_are_named_by_their_files() {
    assert_eq!(logo("copilot", FAMILY), Some("githubcopilot.svg".to_string()));
    assert_eq!(logo("kimi", FAMILY), logo("moonshotai", FAMILY));
    assert_eq!(logo("Aurora", FAMILY), None);
    assert_eq!(lettermark("ßeta"), "SS");
}

#[test]
fn the_report_of_the_logins_names_the_family() {
    let report = |name: &str| {
        let text = format!(
            r#"{{"providers":[{{"id":"openai","display_name":"OpenAI","status":"available"}},
                {{"id":"{FAMILY}","display_name":"{name}","status":"available"}}]}}"#
        );
        family_of(&parse(&text).unwrap())
    };
    assert_eq!(report("Anthropic/Aurora"), Some(FAMILY.to_string()));
    assert_eq!(report("Aurora"), None);
    assert_eq!(family_of(&vec![]), None);
}
