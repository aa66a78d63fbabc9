//! Switching the API provider a driver talks to.
//!
//! A provider is selected by environment variables in the settings file. This module
//! says which variables a provider configuration clears and sets; reading and writing
//! the settings file is the caller's part.

use crate::env::{assigned, lookup, Assignment};
use vstd::prelude::*;
use vstd::string::*;

verus! {

/// A provider the user has configured.
#[derive(Debug)]
pub struct ProviderConfig {
    pub id: String,
    pub name: String,
    pub description: String,
    pub base_url: String,
    pub auth_token: Option<String>,
    pub api_key: Option<String>,
    pub api_key_helper: Option<String>,
    pub model: Option<String>,
    pub enable_auto_api_key_helper: Option<bool>,
}

/// View of [`ProviderConfig`].
pub struct ProviderConfigView {
    pub id: Seq<char>,
    pub name: Seq<char>,
    pub description: Seq<char>,
    pub base_url: Seq<char>,
    pub auth_token: Option<Seq<char>>,
    pub api_key: Option<Seq<char>>,
    pub api_key_helper: Option<Seq<char>>,
    pub model: Option<Seq<char>>,
    pub enable_auto_api_key_helper: Option<bool>,
}

impl View for ProviderConfig {
    type V = ProviderConfigView;

    open spec fn view(&self) -> ProviderConfigView {
        ProviderConfigView {
            id: self.id@,
            name: self.name@,
            description: self.description@,
            base_url: self.base_url@,
            auth_token: self.auth_token.deep_view(),
            api_key: self.api_key.deep_view(),
            api_key_helper: self.api_key_helper.deep_view(),
            model: self.model.deep_view(),
            enable_auto_api_key_helper: self.enable_auto_api_key_helper,
        }
    }
}

/// The provider settings that are in force.
#[derive(Debug)]
pub struct CurrentConfig {
    pub anthropic_base_url: Option<String>,
    pub anthropic_auth_token: Option<String>,
    pub anthropic_api_key: Option<String>,
    pub anthropic_api_key_helper: Option<String>,
    pub anthropic_model: Option<String>,
    pub anthropic_small_fast_model: Option<String>,
    pub api_timeout_ms: Option<String>,
    pub claude_code_disable_nonessential_traffic: Option<String>,
}

/// View of [`CurrentConfig`].
pub struct CurrentConfigView {
    pub anthropic_base_url: Option<Seq<char>>,
    pub anthropic_auth_token: Option<Seq<char>>,
    pub anthropic_api_key: Option<Seq<char>>,
    pub anthropic_api_key_helper: Option<Seq<char>>,
    pub anthropic_model: Option<Seq<char>>,
    pub anthropic_small_fast_model: Option<Seq<char>>,
    pub api_timeout_ms: Option<Seq<char>>,
    pub claude_code_disable_nonessential_traffic: Option<Seq<char>>,
}

impl View for CurrentConfig {
    type V = CurrentConfigView;

    open spec fn view(&self) -> CurrentConfigView {
        CurrentConfigView {
            anthropic_base_url: self.anthropic_base_url.deep_view(),
            anthropic_auth_token: self.anthropic_auth_token.deep_view(),
            anthropic_api_key: self.anthropic_api_key.deep_view(),
            anthropic_api_key_helper: self.anthropic_api_key_helper.deep_view(),
            anthropic_model: self.anthropic_model.deep_view(),
            anthropic_small_fast_model: self.anthropic_small_fast_model.deep_view(),
            api_timeout_ms: self.api_timeout_ms.deep_view(),
            claude_code_disable_nonessential_traffic: self.claude_code_disable_nonessential_traffic.deep_view(),
        }
    }
}

/// The address of the first-party API.
pub open spec fn first_party_url() -> Seq<char> {
    "https://api.anthropic.com"@
}

/// A third-party provider, that is any other than the first-party API, needs a
/// credential: an auth token or an API key.
pub open spec fn lacks_credentials(config: ProviderConfigView) -> bool {
    config.base_url != first_party_url() && config.auth_token is None && config.api_key is None
}

/// Checks that a provider configuration can be switched to.
pub fn validate_third_party_config(config: &ProviderConfig) -> (r: Result<(), String>)
    ensures
        match r {
            Ok(_) => !lacks_credentials(config@),
            Err(e) => lacks_credentials(config@) && e@ == "第三方API需要设置认证令牌或API密钥"@,
        },
{
    if !(*config.base_url.as_str() == *"https://api.anthropic.com") && config.auth_token.is_none()
        && config.api_key.is_none() {
        Err(String::from_str("第三方API需要设置认证令牌或API密钥"))
    } else {
        Ok(())
    }
}

/// The provider settings that the environment of a settings file puts in force.
pub fn current_provider_config(env: &Vec<(String, String)>, api_key_helper: Option<String>) -> (r:
    CurrentConfig)
    ensures
        r@ == (CurrentConfigView {
            anthropic_base_url: assigned(env.deep_view(), "ANTHROPIC_BASE_URL"@),
            anthropic_auth_token: assigned(env.deep_view(), "ANTHROPIC_AUTH_TOKEN"@),
            anthropic_api_key: assigned(env.deep_view(), "ANTHROPIC_API_KEY"@),
            anthropic_api_key_helper: api_key_helper.deep_view(),
            anthropic_model: assigned(env.deep_view(), "ANTHROPIC_MODEL"@),
            anthropic_small_fast_model: assigned(env.deep_view(), "ANTHROPIC_SMALL_FAST_MODEL"@),
            api_timeout_ms: assigned(env.deep_view(), "API_TIMEOUT_MS"@),
            claude_code_disable_nonessential_traffic: assigned(
                env.deep_view(),
                "CLAUDE_CODE_DISABLE_NONESSENTIAL_TRAFFIC"@,
            ),
        }),
{
    CurrentConfig {
        anthropic_base_url: lookup(env, "ANTHROPIC_BASE_URL"),
        anthropic_auth_token: lookup(env, "ANTHROPIC_AUTH_TOKEN"),
        anthropic_api_key: lookup(env, "ANTHROPIC_API_KEY"),
        anthropic_api_key_helper: api_key_helper,
        anthropic_model: lookup(env, "ANTHROPIC_MODEL"),
        anthropic_small_fast_model: lookup(env, "ANTHROPIC_SMALL_FAST_MODEL"),
        api_timeout_ms: lookup(env, "API_TIMEOUT_MS"),
        claude_code_disable_nonessential_traffic: lookup(
            env,
            "CLAUDE_CODE_DISABLE_NONESSENTIAL_TRAFFIC",
        ),
    }
}

/// What switching to a provider does to the settings file.
#[derive(Debug)]
pub struct ProviderSwitch {
    /// The variables to remove from the environment first.
    pub cleared: Vec<String>,
    /// The variables to set afterwards, in order.
    pub set: Vec<(String, String)>,
    /// The helper command to store; `None` removes the helper.
    pub api_key_helper: Option<String>,
}

/// View of [`ProviderSwitch`].
pub struct ProviderSwitchView {
    pub cleared: Seq<Seq<char>>,
    pub set: Seq<Assignment>,
    pub api_key_helper: Option<Seq<char>>,
}

impl View for ProviderSwitch {
    type V = ProviderSwitchView;

    open spec fn view(&self) -> ProviderSwitchView {
        ProviderSwitchView {
            cleared: self.cleared.deep_view(),
            set: self.set.deep_view(),
            api_key_helper: self.api_key_helper.deep_view(),
        }
    }
}

/// The variables that every switch clears.
pub open spec fn cleared_variables() -> Seq<Seq<char>> {
    seq![
        "ANTHROPIC_API_KEY"@,
        "ANTHROPIC_AUTH_TOKEN"@,
        "ANTHROPIC_BASE_URL"@,
        "ANTHROPIC_MODEL"@,
        "ANTHROPIC_SMALL_FAST_MODEL"@,
        "API_TIMEOUT_MS"@,
        "CLAUDE_CODE_DISABLE_NONESSENTIAL_TRAFFIC"@,
    ]
}

/// The value of an optional setting that is given and not empty.
pub open spec fn given(value: Option<Seq<char>>) -> Option<Seq<char>> {
    match value {
        Some(v) => if v.len() > 0 {
            Some(v)
        } else {
            None
        },
        None => None,
    }
}

/// The assignment of `key`, where a value is given.
pub open spec fn optional_entry(key: Seq<char>, value: Option<Seq<char>>) -> Seq<Assignment> {
    match given(value) {
        Some(v) => seq![(key, v)],
        None => Seq::empty(),
    }
}

/// The variables a switch sets: the address, the credentials and the model that are
/// given; for a third-party provider a long timeout and no inessential traffic; and the
/// given model once more as the small, fast one.
pub open spec fn switched_variables(config: ProviderConfigView, base: Seq<char>) -> Seq<Assignment> {
    seq![("ANTHROPIC_BASE_URL"@, base)] + optional_entry("ANTHROPIC_AUTH_TOKEN"@, config.auth_token)
        + optional_entry("ANTHROPIC_API_KEY"@, config.api_key) + optional_entry(
        "ANTHROPIC_MODEL"@,
        config.model,
    ) + (if base != first_party_url() {
        seq![
            ("API_TIMEOUT_MS"@, "600000"@),
            ("CLAUDE_CODE_DISABLE_NONESSENTIAL_TRAFFIC"@, "1"@),
        ]
    } else {
        Seq::empty()
    }) + optional_entry("ANTHROPIC_SMALL_FAST_MODEL"@, config.model)
}

/// The helper command of a switch: where the user asked for one and an auth token is
/// given, a command that prints the token.
pub open spec fn switched_helper(config: ProviderConfigView) -> Option<Seq<char>> {
    if config.enable_auto_api_key_helper == Some(true) {
        match given(config.auth_token) {
            Some(token) => Some("echo '"@ + token + "'"@),
            None => None,
        }
    } else {
        None
    }
}

fn push_given(set: &mut Vec<(String, String)>, key: &str, value: &Option<String>)
    ensures
        final(set).deep_view() == old(set).deep_view() + optional_entry(key@, value.deep_view()),
{
    match value {
        Some(v) => {
            if !v.as_str().is_empty() {
                set.push((String::from_str(key), v.clone()));
                assert(set.deep_view() =~= old(set).deep_view() + seq![(key@, v@)]);
                return;
            }
        },
        None => {},
    }
    assert(set.deep_view() =~= old(set).deep_view() + Seq::<Assignment>::empty());
}

/// Works out what switching to `config` does to the settings file. `base` is the
/// provider's address in normal form.
pub fn plan_provider_switch(config: &ProviderConfig, base: &str) -> (r: ProviderSwitch)
    ensures
        r@ == (ProviderSwitchView {
            cleared: cleared_variables(),
            set: switched_variables(config@, base@),
            api_key_helper: switched_helper(config@),
        }),
{
    let mut cleared: Vec<String> = Vec::new();
    cleared.push(String::from_str("ANTHROPIC_API_KEY"));
    cleared.push(String::from_str("ANTHROPIC_AUTH_TOKEN"));
    cleared.push(String::from_str("ANTHROPIC_BASE_URL"));
    cleared.push(String::from_str("ANTHROPIC_MODEL"));
    cleared.push(String::from_str("ANTHROPIC_SMALL_FAST_MODEL"));
    cleared.push(String::from_str("API_TIMEOUT_MS"));
    cleared.push(String::from_str("CLAUDE_CODE_DISABLE_NONESSENTIAL_TRAFFIC"));
    assert(cleared.deep_view() =~= cleared_variables());
    let mut set: Vec<(String, String)> = Vec::new();
    set.push((String::from_str("ANTHROPIC_BASE_URL"), String::from_str(base)));
    assert(set.deep_view() =~= seq![("ANTHROPIC_BASE_URL"@, base@)]);
    push_given(&mut set, "ANTHROPIC_AUTH_TOKEN", &config.auth_token);
    push_given(&mut set, "ANTHROPIC_API_KEY", &config.api_key);
    push_given(&mut set, "ANTHROPIC_MODEL", &config.model);
    let ghost so_far = set.deep_view();
    if !(*base == *"https://api.anthropic.com") {
        set.push((String::from_str("API_TIMEOUT_MS"), String::from_str("600000")));
        set.push(
            (String::from_str("CLAUDE_CODE_DISABLE_NONESSENTIAL_TRAFFIC"), String::from_str("1")),
        );
        assert(set.deep_view() =~= so_far + seq![
            ("API_TIMEOUT_MS"@, "600000"@),
            ("CLAUDE_CODE_DISABLE_NONESSENTIAL_TRAFFIC"@, "1"@),
        ]);
    } else {
        assert(set.deep_view() =~= so_far + Seq::<Assignment>::empty());
    }
    push_given(&mut set, "ANTHROPIC_SMALL_FAST_MODEL", &config.model);
    let wants_helper = match config.enable_auto_api_key_helper {
        Some(flag) => flag,
        None => false,
    };
    let api_key_helper = if wants_helper {
        match &config.auth_token {
            Some(token) => {
                if !token.as_str().is_empty() {
                    let mut command = String::from_str("echo '");
                    command.append(token.as_str());
                    command.append("'");
                    Some(command)
                } else {
                    None
                }
            },
            None => None,
        }
    } else {
        None
    };
    ProviderSwitch { cleared, set, api_key_helper }
}

/// The members of a credentials file that hold an API key.
pub open spec fn is_api_key_field(key: Seq<char>) -> bool {
    key == "OPENAI_API_KEY"@ || key == "OPENAI_KEY"@ || key == "API_KEY"@
}

/// Decides [`is_api_key_field`].
pub fn api_key_field(key: &str) -> (r: bool)
    ensures
        r == is_api_key_field(key@),
{
    *key == *"OPENAI_API_KEY" || *key == *"OPENAI_KEY" || *key == *"API_KEY"
}

/// A member of the credentials a provider offers: its name, and whether it has a value,
/// that is, is neither null nor the empty text.
pub type Offered = (Seq<char>, bool);

/// The offered credentials hold an API key.
pub open spec fn offers_api_key(offered: Seq<Offered>) -> bool {
    exists|i: int| 0 <= i < offered.len() && is_api_key_field(offered[i].0) && offered[i].1
}

/// The name of an offered member that has a value.
pub open spec fn adopted_name(member: Offered) -> Option<Seq<char>> {
    if member.1 {
        Some(member.0)
    } else {
        None
    }
}

/// [`adopted_name`] as a function value.
pub open spec fn adopts() -> spec_fn(Offered) -> Option<Seq<char>> {
    |member: Offered| adopted_name(member)
}

/// How offered credentials are merged into the credentials on disk.
#[derive(Debug)]
pub struct AuthMerge {
    /// The API keys on disk are removed first: the provider offers none, so that a stale
    /// key is not used with it.
    pub clear_api_keys: bool,
    /// The offered members that replace those on disk, by name.
    pub adopted: Vec<String>,
}

/// Plans the merge of offered credentials into the credentials on disk: members that
/// have a value are adopted, and the API keys on disk are cleared where none is offered.
pub fn plan_auth_merge(offered: &Vec<(String, bool)>) -> (r: AuthMerge)
    ensures
        r.clear_api_keys == !offers_api_key(offered.deep_view()),
        r.adopted.deep_view() == offered.deep_view().filter_map(adopts()),
{
    let ghost pick = adopts();
    let mut has_key = false;
    let mut adopted: Vec<String> = Vec::new();
    let mut i: usize = 0;
    assert(offered.deep_view().take(0) =~= Seq::<Offered>::empty());
    assert(adopted.deep_view() =~= Seq::<Seq<char>>::empty());
    while i < offered.len()
        invariant
            i <= offered@.len(),
            pick == adopts(),
            has_key == offers_api_key(offered.deep_view().take(i as int)),
            adopted.deep_view() == offered.deep_view().take(i as int).filter_map(pick),
        decreases offered@.len() - i,
    {
        let ghost before = adopted.deep_view();
        proof {
            offered.deep_view().lemma_filter_map_take_succ(pick, i as int);
            let upto = offered.deep_view().take(i + 1);
            let earlier = offered.deep_view().take(i as int);
            assert(upto[i as int] == offered@[i as int].deep_view());
            assert(offered@[i as int].deep_view().0 == offered@[i as int].0@);
            assert(offered@[i as int].deep_view().1 == offered@[i as int].1);
            if offers_api_key(earlier) {
                let k = choose|k: int|
                    0 <= k < earlier.len() && is_api_key_field(earlier[k].0) && earlier[k].1;
                assert(upto[k] == earlier[k]);
            }
            if offers_api_key(upto) {
                let k = choose|k: int|
                    0 <= k < upto.len() && is_api_key_field(upto[k].0) && upto[k].1;
                if k < i {
                    assert(earlier[k] == upto[k]);
                }
            }
        }
        if offered[i].1 {
            if api_key_field(offered[i].0.as_str()) {
                has_key = true;
            }
            adopted.push(offered[i].0.clone());
            assert(adopted.deep_view() =~= before + seq![offered@[i as int].0@]);
        }
        i += 1;
    }
    assert(offered.deep_view().take(i as int) =~= offered.deep_view());
    AuthMerge { clear_api_keys: !has_key, adopted }
}

/// The settings of a configuration table that belong to the provider; switching the
/// provider removes them before the new ones are put in.
pub open spec fn is_provider_key(key: Seq<char>) -> bool {
    key == "model_provider"@ || key == "model"@ || key == "model_providers"@
}

/// Decides [`is_provider_key`].
pub fn provider_key(key: &str) -> (r: bool)
    ensures
        r == is_provider_key(key@),
{
    *key == *"model_provider" || *key == *"model" || *key == *"model_providers"
}

} // verus!
