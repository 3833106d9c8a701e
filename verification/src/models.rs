//! Models and the routes that serve them.
use vstd::prelude::*;

use crate::events::ModelRoute;
use crate::text;
use crate::text::{comes_first, contains, lowered, same, starts_with};

verus! {

/// The first route from `from` on that serves the model.
pub open spec fn route_for(routes: Seq<ModelRoute>, model: Seq<char>, from: int) -> Option<ModelRoute>
    decreases routes.len() - from,
{
    if from < 0 || from >= routes.len() {
        None
    } else if routes[from].model@ == model {
        Some(routes[from])
    } else {
        route_for(routes, model, from + 1)
    }
}

/// A credential route phrased for humans, its method in lower case.
pub open spec fn method_words(method: Seq<char>) -> Seq<char> {
    if text::holds(method, "oauth"@) {
        "oauth"@
    } else if text::holds(method, "api-key"@) || text::holds(method, "api_key"@) {
        "api key"@
    } else {
        method
    }
}

/// A credential route phrased for humans, its method in lower case.
pub fn method_label(method: String) -> (r: String)
    ensures
        r@ == method_words(method@),
{
    if contains(method.as_str(), "oauth") {
        "oauth".to_owned()
    } else if contains(method.as_str(), "api-key") || contains(method.as_str(), "api_key") {
        "api key".to_owned()
    } else {
        method
    }
}

/// The credential route that serves a model.
pub open spec fn served_by(model: Option<Seq<char>>, routes: Seq<ModelRoute>) -> Option<Seq<char>> {
    match model {
        Some(model) => match route_for(routes, model, 0) {
            Some(route) => Some(method_words(text::lowercase(route.api_method@))),
            None => None,
        },
        None => None,
    }
}

pub fn auth_method_for_model(model: Option<&str>, routes: &Vec<ModelRoute>) -> (r: Option<String>)
    ensures
        text::text_option(r) == served_by(
            match model {
                Some(model) => Some(model@),
                None => None,
            },
            routes@,
        ),
{
    let name = match model {
        Some(name) => name,
        None => return None,
    };
    let mut i: usize = 0;
    while i < routes.len()
        invariant
            0 <= i <= routes@.len(),
            model == Some(name),
            route_for(routes@, name@, 0) == route_for(routes@, name@, i as int),
        decreases routes@.len() - i,
    {
        if same(routes[i].model.as_str(), name) {
            return Some(method_label(text::to_lowercase(routes[i].api_method.as_str())));
        }
        i += 1;
    }
    None
}

/// Whether some available route serves the model.
pub open spec fn is_offered(routes: Seq<ModelRoute>, model: Seq<char>) -> bool {
    exists|i: int|
        0 <= i < routes.len() && (#[trigger] routes[i]).available && routes[i].model@ == model
}

/// Whether the texts stand in dictionary order, none of them twice.
pub open spec fn ascending(names: Seq<Seq<char>>) -> bool {
    forall|i: int, j: int|
        #![trigger names[i], names[j]]
        0 <= i < j < names.len() ==> text::less(names[i], names[j])
}

/// The names with one more where it belongs, each of them once.
pub open spec fn placed(names: Seq<Seq<char>>, name: Seq<char>) -> Seq<Seq<char>>
    decreases names.len(),
{
    if names.len() == 0 {
        seq![name]
    } else if names[0] == name {
        names
    } else if text::less(names[0], name) {
        seq![names[0]] + placed(names.drop_first(), name)
    } else {
        seq![name] + names
    }
}

/// The models that can be chosen, in dictionary order.
pub open spec fn offered_names(routes: Seq<ModelRoute>) -> Seq<Seq<char>>
    decreases routes.len(),
{
    if routes.len() == 0 {
        Seq::empty()
    } else if routes.last().available {
        placed(offered_names(routes.drop_last()), routes.last().model@)
    } else {
        offered_names(routes.drop_last())
    }
}

proof fn lemma_placed(names: Seq<Seq<char>>, name: Seq<char>, at: int)
    requires
        0 <= at <= names.len(),
        forall|k: int| 0 <= k < at ==> text::less(#[trigger] names[k], name),
        at < names.len() ==> !text::less(names[at], name),
    ensures
        placed(names, name) == (if at < names.len() && names[at] == name {
            names
        } else {
            names.insert(at, name)
        }),
    decreases names.len(),
{
    if names.len() == 0 {
        assert(names.insert(0, name) =~= seq![name]);
    } else if at > 0 {
        let rest = names.drop_first();
        text::lemma_less_total(names[0], name);
        assert forall|k: int| 0 <= k < at - 1 implies text::less(#[trigger] rest[k], name) by {
            assert(rest[k] == names[k + 1]);
        }
        lemma_placed(rest, name, at - 1);
        assert(seq![names[0]] + rest =~= names);
        assert(seq![names[0]] + rest.insert(at - 1, name) =~= names.insert(at, name));
    } else {
        assert(seq![name] + names =~= names.insert(0, name));
    }
}

/// Puts a name where it belongs among names in dictionary order, where it is not there.
fn place(names: &mut Vec<String>, name: &String)
    requires
        ascending(text::texts(old(names)@)),
    ensures
        ascending(text::texts(final(names)@)),
        text::texts(final(names)@) == placed(text::texts(old(names)@), name@),
        forall|x: Seq<char>|
            #![trigger text::texts(final(names)@).contains(x)]
            text::texts(final(names)@).contains(x) <==> text::texts(old(names)@).contains(x) || x
                == name@,
{
    let ghost before = text::texts(names@);
    let mut at: usize = 0;
    while at < names.len() && comes_first(names[at].as_str(), name.as_str())
        invariant
            0 <= at <= names@.len(),
            before == text::texts(names@),
            forall|k: int| 0 <= k < at ==> text::less(#[trigger] before[k], name@),
        decreases names@.len() - at,
    {
        assert(before[at as int] == names@[at as int]@);
        at += 1;
    }
    if at < names.len() && same(names[at].as_str(), name.as_str()) {
        assert(before[at as int] == name@);
        assert(before.contains(name@));
        proof {
            text::lemma_less_total(before[at as int], name@);
            lemma_placed(before, name@, at as int);
        }
        return;
    }
    names.insert(at, name.clone());
    proof {
        let after = text::texts(names@);
        assert(after =~= before.insert(at as int, name@));
        assert(at < before.len() ==> before[at as int] != name@);
        lemma_placed(before, name@, at as int);
        assert forall|k: int| at <= k < before.len() implies text::less(
            name@,
            #[trigger] before[k],
        ) by {
            text::lemma_less_total(before[at as int], name@);
            if k > at {
                assert(text::less(before[at as int], before[k]));
                text::lemma_less_transitive(name@, before[at as int], before[k]);
            }
        }
        assert forall|i: int, j: int|
            #![trigger after[i], after[j]]
            0 <= i < j < after.len() implies text::less(after[i], after[j]) by {
            let x = if i < at { i } else { i - 1 };
            let y = if j < at { j } else { j - 1 };
            if i != at { assert(after[i] == before[x]); }
            if j != at { assert(after[j] == before[y]); }
        }
        assert forall|x: Seq<char>| after.contains(x) <==> before.contains(x) || x == name@ by {
            if before.contains(x) {
                let k = choose|k: int| 0 <= k < before.len() && before[k] == x;
                if k < at {
                    assert(after[k] == x);
                } else {
                    assert(after[k + 1] == x);
                }
            }
            if x == name@ {
                assert(after[at as int] == x);
            }
            if after.contains(x) {
                let k = choose|k: int| 0 <= k < after.len() && after[k] == x;
                if k < at {
                    assert(before[k] == x);
                } else if k > at {
                    assert(before[k - 1] == x);
                }
            }
        }
    }
}

/// The models that can be chosen, in dictionary order, each once.
pub fn available_model_names(routes: &Vec<ModelRoute>) -> (r: Vec<String>)
    ensures
        text::texts(r@) == offered_names(routes@),
        ascending(text::texts(r@)),
        forall|x: Seq<char>|
            #![trigger text::texts(r@).contains(x)]
            text::texts(r@).contains(x) <==> is_offered(routes@, x),
{
    let mut r: Vec<String> = Vec::new();
    let mut i: usize = 0;
    assert(text::texts(r@) =~= Seq::empty());
    while i < routes.len()
        invariant
            0 <= i <= routes@.len(),
            text::texts(r@) == offered_names(routes@.take(i as int)),
            ascending(text::texts(r@)),
            forall|x: Seq<char>|
                #![trigger text::texts(r@).contains(x)]
                text::texts(r@).contains(x) <==> is_offered(routes@.take(i as int), x),
        decreases routes@.len() - i,
    {
        let ghost seen = routes@.take(i as int);
        let ghost next = routes@.take(i + 1);
        let ghost before = text::texts(r@);
        assert(next.drop_last() == seen);
        if routes[i].available {
            place(&mut r, &routes[i].model);
        }
        proof {
            assert forall|x: Seq<char>|
                #![trigger text::texts(r@).contains(x)]
                text::texts(r@).contains(x) <==> is_offered(next, x) by {
                assert(next[i as int] == routes@[i as int]);
                if is_offered(seen, x) {
                    let k = choose|k: int|
                        0 <= k < seen.len() && (#[trigger] seen[k]).available && seen[k].model@
                            == x;
                    assert(next[k] == seen[k]);
                }
                if is_offered(next, x) {
                    let k = choose|k: int|
                        0 <= k < next.len() && (#[trigger] next[k]).available && next[k].model@
                            == x;
                    if k < i {
                        assert(seen[k] == next[k]);
                    }
                }
                assert(before.contains(x) <==> is_offered(seen, x));
            }
        }
        i += 1;
    }
    assert(routes@.take(i as int) == routes@);
    r
}

/// The providers that are recognized within a route's method, in the order in which they
/// are looked for.
pub open spec fn provider_names() -> Seq<Seq<char>> {
    seq![
        "anthropic"@,
        "openai"@,
        "gemini"@,
        "google"@,
        "copilot"@,
        "openrouter"@,
        "bedrock"@,
        "azure"@,
        "cursor"@,
        "antigravity"@,
        "xai"@,
        "mistral"@,
        "deepseek"@,
        "kimi"@,
        "zai"@,
        "groq"@,
        "perplexity"@,
        "cerebras"@,
        "minimax"@,
        "ollama"@,
    ]
}

/// The first of the names from `from` on that the method holds.
pub open spec fn name_in(names: Seq<Seq<char>>, method: Seq<char>, from: int) -> Option<Seq<char>>
    decreases names.len() - from,
{
    if from < 0 || from >= names.len() {
        None
    } else if text::holds(method, names[from]) {
        Some(names[from])
    } else {
        name_in(names, method, from + 1)
    }
}

/// The provider whose logo shows a model: the one named in the route's method, else the
/// one that the model's name points to, else the method itself. `family` is the name that
/// Anthropic's models begin with.
pub open spec fn logo_of(model: Seq<char>, api_method: Seq<char>, family: Seq<char>) -> Seq<char> {
    match name_in(provider_names(), text::lower_all(api_method), 0) {
        Some(name) => if name == "anthropic"@ {
            "anthropic-api"@
        } else {
            name
        },
        None => {
            let m = text::lower_all(model);
            if text::starts(m, family) {
                "anthropic-api"@
            } else if text::starts(m, "gpt"@) || text::starts(m, "o1"@) || text::starts(m, "o3"@) {
                "openai"@
            } else if text::starts(m, "gemini"@) {
                "gemini"@
            } else if text::starts(m, "grok"@) {
                "xai"@
            } else if text::starts(m, "mistral"@) || text::starts(m, "codestral"@) {
                "mistral"@
            } else if text::starts(m, "deepseek"@) {
                "deepseek"@
            } else {
                api_method
            }
        },
    }
}

pub fn model_logo_provider(model: &str, api_method: &str, family: &str) -> (r: String)
    ensures
        r@ == logo_of(model@, api_method@, family@),
{
    let method = lowered(api_method);
    let names: Vec<&str> = vec![
        "anthropic",
        "openai",
        "gemini",
        "google",
        "copilot",
        "openrouter",
        "bedrock",
        "azure",
        "cursor",
        "antigravity",
        "xai",
        "mistral",
        "deepseek",
        "kimi",
        "zai",
        "groq",
        "perplexity",
        "cerebras",
        "minimax",
        "ollama",
    ];
    let ghost views = provider_names();
    assert(names@.map_values(|s: &str| s@) =~= views);
    let mut i: usize = 0;
    while i < names.len()
        invariant
            0 <= i <= names@.len(),
            views == provider_names(),
            names@.map_values(|s: &str| s@) == views,
            method@ == text::lower_all(api_method@),
            name_in(views, method@, 0) == name_in(views, method@, i as int),
        decreases names@.len() - i,
    {
        let name = names[i];
        assert(views[i as int] == name@);
        if contains(method.as_str(), name) {
            return if same(name, "anthropic") {
                "anthropic-api".to_owned()
            } else {
                name.to_owned()
            };
        }
        i += 1;
    }
    let owned = lowered(model);
    let m = owned.as_str();
    if starts_with(m, family) {
        "anthropic-api".to_owned()
    } else if starts_with(m, "gpt") || starts_with(m, "o1") || starts_with(m, "o3") {
        "openai".to_owned()
    } else if starts_with(m, "gemini") {
        "gemini".to_owned()
    } else if starts_with(m, "grok") {
        "xai".to_owned()
    } else if starts_with(m, "mistral") || starts_with(m, "codestral") {
        "mistral".to_owned()
    } else if starts_with(m, "deepseek") {
        "deepseek".to_owned()
    } else {
        api_method.to_owned()
    }
}

/// The pairs of models and logos as a table: the entry of a model that is already there
/// is replaced.
pub open spec fn with_entry(
    table: Map<Seq<char>, Seq<char>>,
    route: ModelRoute,
    family: Seq<char>,
) -> Map<Seq<char>, Seq<char>> {
    if route.available {
        table.insert(route.model@, logo_of(route.model@, route.api_method@, family))
    } else {
        table
    }
}

/// The logo of every model that can be chosen, by its last route.
pub open spec fn logo_table(routes: Seq<ModelRoute>, family: Seq<char>) -> Map<Seq<char>, Seq<char>>
    decreases routes.len(),
{
    if routes.len() == 0 {
        Map::empty()
    } else {
        with_entry(logo_table(routes.drop_last(), family), routes.last(), family)
    }
}

/// The table that a list of pairs stands for.
pub open spec fn table_of(pairs: Seq<(String, String)>) -> Map<Seq<char>, Seq<char>>
    decreases pairs.len(),
{
    if pairs.len() == 0 {
        Map::empty()
    } else {
        table_of(pairs.drop_last()).insert(pairs.last().0@, pairs.last().1@)
    }
}

/// The logo of every model that can be chosen, as pairs; a later pair counts for its model.
pub fn available_model_logo_providers(routes: &Vec<ModelRoute>, family: &str) -> (r: Vec<
    (String, String),
>)
    ensures
        table_of(r@) == logo_table(routes@, family@),
{
    let mut r: Vec<(String, String)> = Vec::new();
    let mut i: usize = 0;
    while i < routes.len()
        invariant
            0 <= i <= routes@.len(),
            table_of(r@) == logo_table(routes@.take(i as int), family@),
        decreases routes@.len() - i,
    {
        assert(routes@.take(i + 1).drop_last() == routes@.take(i as int));
        if routes[i].available {
            let logo = model_logo_provider(
                routes[i].model.as_str(),
                routes[i].api_method.as_str(),
                family,
            );
            let ghost before = r@;
            r.push((routes[i].model.clone(), logo));
            assert(r@.drop_last() == before);
        }
        i += 1;
    }
    assert(routes@.take(i as int) == routes@);
    r
}

} // verus!
