//! The credentials of the provider, and the backend that they open.

use vstd::prelude::*;

use crate::json::{get_unsigned, unsigned_at, Json, JsonValue};
use crate::json_text::{parse_json, parsed_json};
use crate::provider::base64::{base64_url_safe_no_pad_decode, decoded};
use crate::provider::models::{
    infos_of, is_known_chatgpt_phase_capable_model_id, marks_phase, model_views,
    models_for_provider, ModelId, ModelInfoView, ProviderModelInfo,
};
use crate::provider::responses::{ConfigView, ResponsesConfig, ResponsesSurface};
use crate::text::{
    opt_view, push_text, same_text, split_at_char, split_once_char, starts_with, trim, trim_of,
    views,
};
use crate::utf8::strict_text;

verus! {

/// The name of the provider.
pub const CHATGPT_PROVIDER_NAME: &'static str = "chatgpt";

/// The address of the provider.
pub const CHATGPT_BASE_URL: &'static str = "https://chatgpt.com/backend-api";

/// How long before it expires a token is refreshed at the latest, in
/// milliseconds.
pub const REFRESH_MARGIN_MS: u64 = 300000;

/// The OAuth credentials of the provider.
#[derive(Debug, PartialEq, Eq)]
pub struct OpenAiAuth {
    /// The access token, sent as bearer credential.
    pub access_token: String,
    /// The token that renews the access token.
    pub refresh_token: String,
    /// When the access token expires, in milliseconds since the epoch.
    pub expires_at_ms: u64,
    /// The account, sent as `chatgpt-account-id`.
    pub account_id: Option<String>,
}

/// The OAuth credentials of the provider, as mathematics.
pub struct AuthView {
    pub access_token: Seq<char>,
    pub refresh_token: Seq<char>,
    pub expires_at_ms: u64,
    pub account_id: Option<Seq<char>>,
}

impl View for OpenAiAuth {
    type V = AuthView;

    open spec fn view(&self) -> AuthView {
        AuthView {
            access_token: self.access_token@,
            refresh_token: self.refresh_token@,
            expires_at_ms: self.expires_at_ms,
            account_id: opt_view(self.account_id),
        }
    }
}

impl Default for OpenAiAuth {
    /// No credentials.
    fn default() -> (auth: Self)
        ensures
            auth@ == (AuthView {
                access_token: seq![],
                refresh_token: seq![],
                expires_at_ms: 0,
                account_id: None,
            }),
    {
        let access_token = String::new();
        let refresh_token = String::new();
        assert(access_token@ =~= seq![]);
        assert(refresh_token@ =~= seq![]);
        OpenAiAuth { access_token, refresh_token, expires_at_ms: 0, account_id: None }
    }
}

impl OpenAiAuth {
    /// A copy of the credentials.
    pub fn copy(&self) -> (auth: OpenAiAuth)
        ensures
            auth@ == self@,
    {
        OpenAiAuth {
            access_token: self.access_token.clone(),
            refresh_token: self.refresh_token.clone(),
            expires_at_ms: self.expires_at_ms,
            account_id: self.account_id.clone(),
        }
    }
}

/// Whether a text is nothing but white space.
pub open spec fn is_blank(text: Seq<char>) -> bool {
    trim_of(text).len() == 0
}

/// Whether a text is nothing but white space.
pub fn blank(text: &str) -> (b: bool)
    ensures
        b == is_blank(text@),
{
    let trimmed = trim(text);
    trimmed.as_str().is_empty()
}

/// Whether there are credentials at all.
pub open spec fn has_auth(auth: AuthView) -> bool {
    !is_blank(auth.access_token) || !is_blank(auth.refresh_token)
}

/// Whether there are credentials at all.
pub fn has_chatgpt_auth(auth: &OpenAiAuth) -> (b: bool)
    ensures
        b == has_auth(auth@),
{
    !blank(auth.access_token.as_str()) || !blank(auth.refresh_token.as_str())
}

/// The models of the provider.
pub open spec fn chatgpt_models() -> Seq<Seq<char>> {
    seq!["gpt-5.5"@, "gpt-5.4"@, "gpt-5.4-mini"@, "gpt-5.3-codex"@]
}

/// The models that credentials open: all of them, or none.
pub open spec fn models_of(auth: AuthView) -> Seq<ModelInfoView> {
    if has_auth(auth) {
        infos_of(CHATGPT_PROVIDER_NAME@, chatgpt_models())
    } else {
        seq![]
    }
}

/// The models that credentials open.
pub fn models_for_auth(auth: &OpenAiAuth) -> (models: Vec<ProviderModelInfo>)
    ensures
        model_views(models@) == models_of(auth@),
{
    if has_chatgpt_auth(auth) {
        let mut names: Vec<String> = Vec::new();
        push_text(&mut names, "gpt-5.5".to_owned());
        push_text(&mut names, "gpt-5.4".to_owned());
        push_text(&mut names, "gpt-5.4-mini".to_owned());
        push_text(&mut names, "gpt-5.3-codex".to_owned());
        assert(views(names@) =~= chatgpt_models());
        models_for_provider(CHATGPT_PROVIDER_NAME, &names)
    } else {
        let models: Vec<ProviderModelInfo> = Vec::new();
        assert(model_views(models@) =~= seq![]);
        models
    }
}

/// What the credentials are worth at a moment, in words.
pub open spec fn status_of(auth: AuthView, now_ms: u64) -> Seq<char> {
    if !has_auth(auth) {
        "chatgpt: not configured"@
    } else if now_ms < auth.expires_at_ms {
        "chatgpt: logged in"@
    } else {
        "chatgpt: expired"@
    }
}

/// What the credentials are worth at a moment, in words.
pub fn status_text(auth: &OpenAiAuth, now_ms: u64) -> (text: String)
    ensures
        text@ == status_of(auth@, now_ms),
{
    if !has_chatgpt_auth(auth) {
        "chatgpt: not configured".to_owned()
    } else if now_ms < auth.expires_at_ms {
        "chatgpt: logged in".to_owned()
    } else {
        "chatgpt: expired".to_owned()
    }
}

/// The payload of a token: what stands between its first two dots, or behind
/// its first where it has no second.
pub open spec fn payload_of(jwt: Seq<char>) -> Option<Seq<char>> {
    match split_at_char(jwt, '.') {
        Some((_, rest)) => match split_at_char(rest, '.') {
            Some((payload, _)) => Some(payload),
            None => Some(rest),
        },
        None => None,
    }
}

/// The payload of a token.
pub fn jwt_payload(jwt: &str) -> (payload: Option<String>)
    ensures
        opt_view(payload) == payload_of(jwt@),
{
    match split_once_char(jwt, '.') {
        Some((_, rest)) => match split_once_char(rest.as_str(), '.') {
            Some((payload, _)) => Some(payload),
            None => Some(rest),
        },
        None => None,
    }
}

/// When claims say that their token was issued, in milliseconds since the
/// epoch; nothing where they do not say it, or where it does not fit.
pub open spec fn issued_in(claims: Json) -> Option<u64> {
    match unsigned_at(claims, "iat"@) {
        Some(secs) => if secs * 1000 <= u64::MAX {
            Some((secs * 1000) as u64)
        } else {
            None
        },
        None => None,
    }
}

/// When claims say that their token was issued, in milliseconds since the epoch.
pub fn claims_issued_at_ms(claims: &JsonValue) -> (issued: Option<u64>)
    ensures
        issued == issued_in(claims@),
{
    match get_unsigned(claims, "iat") {
        Some(secs) => {
            if secs <= 18446744073709551u64 {
                Some(secs * 1000)
            } else {
                None
            }
        },
        None => None,
    }
}

/// When a token says that it was issued.
pub open spec fn issued_at(jwt: Seq<char>) -> Option<u64> {
    match payload_of(jwt) {
        Some(payload) => match decoded(payload) {
            Some(bytes) => if vstd::utf8::valid_utf8(bytes) {
                match parsed_json(vstd::utf8::decode_utf8(bytes)) {
                    Ok(claims) => issued_in(claims),
                    Err(_) => None,
                }
            } else {
                None
            },
            None => None,
        },
        None => None,
    }
}

/// When a token says that it was issued, in milliseconds since the epoch.
pub fn jwt_issued_at_ms(jwt: &str) -> (issued: Option<u64>)
    ensures
        issued == issued_at(jwt@),
{
    match jwt_payload(jwt) {
        Some(payload) => match base64_url_safe_no_pad_decode(payload.as_str()) {
            Some(bytes) => match strict_text(bytes.as_slice()) {
                Some(text) => match parse_json(text.as_str()) {
                    Ok(claims) => claims_issued_at_ms(&claims),
                    Err(_) => None,
                },
                None => None,
            },
            None => None,
        },
        None => None,
    }
}

/// The sum of two numbers, as far as it fits.
pub open spec fn capped_sum(a: u64, b: u64) -> u64 {
    if a + b <= u64::MAX {
        (a + b) as u64
    } else {
        u64::MAX
    }
}

/// Whether a token is to be refreshed at a moment: half of its life is over, or
/// it expires within the margin.
pub open spec fn is_due(issued: Option<u64>, expires_at_ms: u64, now_ms: u64) -> bool {
    let half_over = match issued {
        Some(issued) => {
            let lifetime = if expires_at_ms > issued {
                expires_at_ms - issued
            } else {
                0
            };
            issued + lifetime / 2 <= now_ms
        },
        None => false,
    };
    half_over || expires_at_ms <= capped_sum(now_ms, REFRESH_MARGIN_MS)
}

/// Whether a token that was issued at a moment is to be refreshed.
pub fn token_is_due(issued: Option<u64>, expires_at_ms: u64, now_ms: u64) -> (due: bool)
    ensures
        due == is_due(issued, expires_at_ms, now_ms),
{
    if let Some(issued_at_ms) = issued {
        let lifetime: u64 = if expires_at_ms > issued_at_ms {
            expires_at_ms - issued_at_ms
        } else {
            0
        };
        if issued_at_ms + lifetime / 2 <= now_ms {
            return true;
        }
    }
    let limit: u64 = if now_ms <= 18446744073709551615u64 - REFRESH_MARGIN_MS {
        now_ms + REFRESH_MARGIN_MS
    } else {
        18446744073709551615u64
    };
    expires_at_ms <= limit
}

/// Whether a token is to be refreshed at a moment.
pub fn oauth_token_should_refresh(access_token: &str, expires_at_ms: u64, now_ms: u64) -> (due:
    bool)
    ensures
        due == is_due(issued_at(access_token@), expires_at_ms, now_ms),
{
    let issued = jwt_issued_at_ms(access_token);
    token_is_due(issued, expires_at_ms, now_ms)
}

/// Whether credentials are to be refreshed at a moment, and can be.
pub open spec fn refresh_wanted(auth: AuthView, now_ms: u64) -> bool {
    is_due(issued_at(auth.access_token), auth.expires_at_ms, now_ms) && !is_blank(
        auth.refresh_token,
    )
}

/// Whether credentials are to be refreshed at a moment, and can be.
pub fn wants_refresh(auth: &OpenAiAuth, now_ms: u64) -> (b: bool)
    ensures
        b == refresh_wanted(auth@, now_ms),
{
    oauth_token_should_refresh(auth.access_token.as_str(), auth.expires_at_ms, now_ms) && !blank(
        auth.refresh_token.as_str(),
    )
}

/// The backend that credentials open for a model of the provider.
pub open spec fn backend_of(model: Seq<char>, auth: AuthView) -> Option<ConfigView> {
    if is_blank(auth.access_token) {
        None
    } else {
        Some(
            ConfigView {
                surface: ResponsesSurface::ChatGpt,
                base_url: CHATGPT_BASE_URL@,
                api_key: auth.access_token,
                model_id: model,
                account_id: auth.account_id,
                supports_reasoning_effort: true,
                supports_reasoning_summary: true,
                supports_verbosity: "gpt-5"@.is_prefix_of(model),
                supports_phase: marks_phase(model),
                supports_encrypted_reasoning: true,
                supports_websocket: true,
                supports_compaction: true,
                supports_prompt_cache_key: true,
            },
        )
    }
}

/// The view of an optional backend.
pub open spec fn opt_config(config: Option<ResponsesConfig>) -> Option<ConfigView> {
    match config {
        Some(config) => Some(config@),
        None => None,
    }
}

/// The view of optional credentials.
pub open spec fn opt_auth(auth: Option<OpenAiAuth>) -> Option<AuthView> {
    match auth {
        Some(auth) => Some(auth@),
        None => None,
    }
}

/// The backend that credentials open for a model of the provider.
pub fn chatgpt_backend(model: &str, auth: &OpenAiAuth) -> (config: Option<ResponsesConfig>)
    ensures
        opt_config(config) == backend_of(model@, auth@),
{
    if blank(auth.access_token.as_str()) {
        return None;
    }
    Some(
        ResponsesConfig {
            surface: ResponsesSurface::ChatGpt,
            base_url: CHATGPT_BASE_URL.to_owned(),
            api_key: auth.access_token.clone(),
            model_id: model.to_owned(),
            account_id: auth.account_id.clone(),
            supports_reasoning_effort: true,
            supports_reasoning_summary: true,
            supports_verbosity: starts_with(model, "gpt-5"),
            supports_phase: is_known_chatgpt_phase_capable_model_id(model),
            supports_encrypted_reasoning: true,
            supports_websocket: true,
            supports_compaction: true,
            supports_prompt_cache_key: true,
        },
    )
}

/// The credentials that a refresh leaves: the new ones where it was wanted and
/// gave some.
pub open spec fn after_refresh(auth: AuthView, wanted: bool, refreshed: Option<AuthView>) -> AuthView {
    match refreshed {
        Some(refreshed) => if wanted {
            refreshed
        } else {
            auth
        },
        None => auth,
    }
}

/// The backend for a model, with the credentials that a refresh leaves. The
/// refresh counts only where the credentials want it.
pub fn resolve_chatgpt_backend(
    model: &ModelId,
    auth: &mut OpenAiAuth,
    now_ms: u64,
    refreshed: Option<OpenAiAuth>,
) -> (config: Option<ResponsesConfig>)
    ensures
        final(auth)@ == after_refresh(
            old(auth)@,
            refresh_wanted(old(auth)@, now_ms),
            opt_auth(refreshed),
        ),
        opt_config(config) == backend_of(model@.model, final(auth)@),
{
    if wants_refresh(auth, now_ms) {
        if let Some(fresh) = refreshed {
            *auth = fresh;
        }
    }
    chatgpt_backend(model.model.as_str(), auth)
}

/// The backend for a model of any provider: only those of this one have one.
pub fn resolve_responses_backend(
    model: &ModelId,
    auth: &mut OpenAiAuth,
    now_ms: u64,
    refreshed: Option<OpenAiAuth>,
) -> (config: Option<ResponsesConfig>)
    ensures
        model@.provider != CHATGPT_PROVIDER_NAME@ ==> config is None && final(auth)@ == old(
            auth,
        )@,
        model@.provider == CHATGPT_PROVIDER_NAME@ ==> {
            &&& final(auth)@ == after_refresh(
                old(auth)@,
                refresh_wanted(old(auth)@, now_ms),
                opt_auth(refreshed),
            )
            &&& opt_config(config) == backend_of(model@.model, final(auth)@)
        },
{
    if !same_text(model.provider.as_str(), CHATGPT_PROVIDER_NAME) {
        return None;
    }
    resolve_chatgpt_backend(model, auth, now_ms, refreshed)
}

/// What the setup command is asked to do.
#[derive(Clone, Copy, Debug, PartialEq, Eq, Structural)]
pub enum CliCommand {
    Login,
    Logout,
    Status,
    Help,
}

/// The help of the setup command.
pub const PROVIDER_CLI_HELP: &'static str =
    "Usage: tau provider chatgpt <subcommand>\n\nSubcommands:\n  login        Log in / refresh ChatGPT OAuth credentials\n  logout       Remove ChatGPT OAuth credentials\n  status       Show ChatGPT auth status";

/// What the first argument asks for; help where there is none.
pub open spec fn command_of(args: Seq<Seq<char>>) -> Result<CliCommand, Seq<char>> {
    if args.len() == 0 {
        Ok(CliCommand::Help)
    } else if args[0] == "login"@ {
        Ok(CliCommand::Login)
    } else if args[0] == "logout"@ || args[0] == "remove"@ {
        Ok(CliCommand::Logout)
    } else if args[0] == "status"@ || args[0] == "list"@ {
        Ok(CliCommand::Status)
    } else if args[0] == "help"@ || args[0] == "--help"@ || args[0] == "-h"@ {
        Ok(CliCommand::Help)
    } else {
        Err("unknown chatgpt provider subcommand: "@ + args[0])
    }
}

/// What the arguments of the setup command ask for.
pub fn parse_provider_cli(args: &Vec<String>) -> (command: Result<CliCommand, String>)
    ensures
        match command {
            Ok(command) => command_of(views(args@)) == Ok::<CliCommand, Seq<char>>(command),
            Err(message) => command_of(views(args@)) == Err::<CliCommand, Seq<char>>(message@),
        },
{
    if args.len() == 0 {
        return Ok(CliCommand::Help);
    }
    let first = args[0].as_str();
    if same_text(first, "login") {
        Ok(CliCommand::Login)
    } else if same_text(first, "logout") || same_text(first, "remove") {
        Ok(CliCommand::Logout)
    } else if same_text(first, "status") || same_text(first, "list") {
        Ok(CliCommand::Status)
    } else if same_text(first, "help") || same_text(first, "--help") || same_text(first, "-h") {
        Ok(CliCommand::Help)
    } else {
        let mut message = "unknown chatgpt provider subcommand: ".to_owned();
        message.append(first);
        Err(message)
    }
}

/// Refuses a login whose redirect does not carry the state that it was given.
pub fn check_login_state(state: &str, expected: &str) -> (r: Result<(), String>)
    ensures
        r is Ok <==> state@ == expected@,
        r matches Err(message) ==> message@
            == "state mismatch \u{2014} possible CSRF attack or stale URL"@,
{
    if same_text(state, expected) {
        Ok(())
    } else {
        Err("state mismatch \u{2014} possible CSRF attack or stale URL".to_owned())
    }
}

/// A token that is due stays due, and one that has expired is due.
pub proof fn law_due_stays_due(issued: Option<u64>, expires_at_ms: u64, now_ms: u64, later_ms: u64)
    requires
        now_ms <= later_ms,
    ensures
        is_due(issued, expires_at_ms, now_ms) ==> is_due(issued, expires_at_ms, later_ms),
        expires_at_ms <= now_ms ==> is_due(issued, expires_at_ms, now_ms),
{
}

/// Credentials open models and backends alike only where there are some: no
/// model is published without credentials, and none without a token is called.
pub proof fn law_no_credentials_open_nothing(auth: AuthView, model: Seq<char>)
    ensures
        !has_auth(auth) ==> models_of(auth).len() == 0,
        !has_auth(auth) ==> backend_of(model, auth) is None,
{
}

} // verus!
