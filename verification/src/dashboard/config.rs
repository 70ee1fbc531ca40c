//! Configuration of the dashboard.
use crate::number::{ascii_alnum, is_ascii_alnum};
use crate::text::{chars_of, opt_view, trim, trimmed};
use vstd::prelude::*;
use vstd::string::*;

verus! {

/// How many characters an access token has at least.
pub const MIN_TOKEN_CHARS: usize = 16;

/// A value that is not to be shown.
pub struct SecretField {
    value: String,
}

impl View for SecretField {
    type V = Seq<char>;

    closed spec fn view(&self) -> Seq<char> {
        self.value@
    }
}

impl SecretField {
    pub fn new(value: String) -> (out: SecretField)
        ensures
            out@ == value@,
    {
        SecretField { value }
    }

    /// The value itself.
    pub fn expose(&self) -> (out: &str)
        ensures
            out@ == self@,
    {
        self.value.as_str()
    }
}

pub struct CfgDashboard {
    /// Port to listen on.
    pub port: u16,
    /// Address to listen on.
    pub bind: String,
    /// Whether the configuration can be read and written over the network. It may hold secrets.
    pub allow_config_api: bool,
    /// Whether the station can be controlled over the network: stations sent off, short messages
    /// sent, the service restarted and shut down.
    pub allow_control_commands: bool,
    /// The token that access to the configuration and control requires.
    pub auth_token: Option<SecretField>,
}

/// What a configuration says, with its texts as character sequences.
pub ghost struct CfgDashboardView {
    pub port: u16,
    pub bind: Seq<char>,
    pub allow_config_api: bool,
    pub allow_control_commands: bool,
    pub auth_token: Option<Seq<char>>,
}

impl View for CfgDashboard {
    type V = CfgDashboardView;

    open spec fn view(&self) -> CfgDashboardView {
        CfgDashboardView {
            port: self.port,
            bind: self.bind@,
            allow_config_api: self.allow_config_api,
            allow_control_commands: self.allow_control_commands,
            auth_token: match self.auth_token {
                Some(token) => Some(token@),
                None => None,
            },
        }
    }
}

impl Default for CfgDashboard {
    fn default() -> (out: CfgDashboard)
        ensures
            out@ == (CfgDashboardView {
                port: 8080,
                bind: "127.0.0.1"@,
                allow_config_api: false,
                allow_control_commands: false,
                auth_token: None,
            }),
    {
        CfgDashboard {
            port: default_port(),
            bind: default_bind(),
            allow_config_api: false,
            allow_control_commands: false,
            auth_token: None,
        }
    }
}

/// A configuration as it is written in a file, with defaults for what is left out.
pub struct CfgDashboardDto {
    pub port: u16,
    pub bind: String,
    pub allow_config_api: bool,
    pub allow_control_commands: bool,
    pub auth_token: Option<String>,
}

/// The port where none is given.
pub fn default_port() -> (out: u16)
    ensures
        out == 8080,
{
    8080
}

/// The address where none is given.
pub fn default_bind() -> (out: String)
    ensures
        out@ == "127.0.0.1"@,
{
    "127.0.0.1".to_owned()
}

/// A text without surrounding white space, or nothing where nothing else is left.
pub open spec fn nonempty(value: Seq<char>) -> Option<Seq<char>> {
    if trimmed(value).len() == 0 {
        None
    } else {
        Some(trimmed(value))
    }
}

/// A text without surrounding white space, or nothing where nothing else is left.
pub fn empty_to_none(value: String) -> (out: Option<String>)
    ensures
        opt_view(out) == nonempty(value@),
{
    let text = trim(value.as_str());
    if text.as_str().unicode_len() == 0 {
        None
    } else {
        Some(text)
    }
}

/// Whether a character needs no escape in a URL.
pub open spec fn is_url_safe(c: char) -> bool {
    is_ascii_alnum(c) || c == '-' || c == '.' || c == '_' || c == '~'
}

/// Whether a character needs no escape in a URL.
pub fn is_url_safe_token_char(ch: char) -> (r: bool)
    ensures
        r == is_url_safe(ch),
{
    ascii_alnum(ch) || ch == '-' || ch == '.' || ch == '_' || ch == '~'
}

/// Whether a text can be an access token.
pub open spec fn is_token(token: Seq<char>) -> bool {
    &&& token.len() >= MIN_TOKEN_CHARS
    &&& forall|i: int| 0 <= i < token.len() ==> is_url_safe(#[trigger] token[i])
}

/// Whether a text can be an access token.
pub fn valid_token(token: &str) -> (r: bool)
    ensures
        r == is_token(token@),
{
    let chars = chars_of(token);
    if chars.len() < MIN_TOKEN_CHARS {
        return false;
    }
    let mut i: usize = 0;
    while i < chars.len()
        invariant
            i <= chars@.len(),
            chars@ == token@,
            forall|k: int| 0 <= k < i ==> is_url_safe(#[trigger] chars@[k]),
        decreases chars@.len() - i,
    {
        if !is_url_safe_token_char(chars[i]) {
            assert(!is_url_safe(token@[i as int]));
            return false;
        }
        i = i + 1;
    }
    true
}

/// The token that a configuration file gives.
pub open spec fn given_token(src: CfgDashboardDto) -> Option<Seq<char>> {
    match src.auth_token {
        Some(token) => nonempty(token@),
        None => None,
    }
}

/// What a configuration file stands for, or why it is refused: a port is needed, a token has to
/// be long and safe enough, and nothing that needs a token is allowed without one.
pub open spec fn patched(src: CfgDashboardDto) -> Result<CfgDashboardView, Seq<char>> {
    let auth_token = given_token(src);
    if src.port == 0 {
        Err("dashboard: port cannot be 0"@)
    } else if auth_token matches Some(token) && !is_token(token) {
        Err(
            "dashboard: auth_token must be at least 16 URL-safe characters (A-Z a-z 0-9 - . _ ~)"@,
        )
    } else if (src.allow_config_api || src.allow_control_commands) && auth_token is None {
        Err("dashboard: allow_config_api/allow_control_commands requires auth_token"@)
    } else {
        Ok(
            CfgDashboardView {
                port: src.port,
                bind: src.bind@,
                allow_config_api: src.allow_config_api,
                allow_control_commands: src.allow_control_commands,
                auth_token,
            },
        )
    }
}

/// A result whose value and error are taken by their views.
pub open spec fn cfg_result(r: Result<CfgDashboard, String>) -> Result<CfgDashboardView, Seq<char>> {
    match r {
        Ok(cfg) => Ok(cfg@),
        Err(e) => Err(e@),
    }
}

/// What a configuration file stands for, or why it is refused.
pub fn apply_dashboard_patch(src: CfgDashboardDto) -> (out: Result<CfgDashboard, String>)
    ensures
        cfg_result(out) == patched(src),
{
    if src.port == 0 {
        return Err("dashboard: port cannot be 0".to_owned());
    }
    let auth_token = match src.auth_token {
        Some(token) => empty_to_none(token),
        None => None,
    };
    let auth_token = match auth_token {
        Some(token) => {
            if !valid_token(token.as_str()) {
                return Err(
                    "dashboard: auth_token must be at least 16 URL-safe characters (A-Z a-z 0-9 - . _ ~)".to_owned(),
                );
            }
            Some(SecretField::new(token))
        },
        None => None,
    };
    if (src.allow_config_api || src.allow_control_commands) && auth_token.is_none() {
        return Err(
            "dashboard: allow_config_api/allow_control_commands requires auth_token".to_owned(),
        );
    }
    Ok(
        CfgDashboard {
            port: src.port,
            bind: src.bind,
            allow_config_api: src.allow_config_api,
            allow_control_commands: src.allow_control_commands,
            auth_token,
        },
    )
}

// ---------------------------------------------------------------------------------------------
// Laws
// ---------------------------------------------------------------------------------------------
/// In a configuration that is accepted, whatever needs a token has one, and the token is long
/// and safe enough.
pub proof fn accepted_access_needs_token(src: CfgDashboardDto)
    requires
        patched(src) is Ok,
    ensures
        ({
            let cfg = patched(src)->Ok_0;
            &&& cfg.port != 0
            &&& cfg.allow_config_api || cfg.allow_control_commands ==> cfg.auth_token is Some
            &&& cfg.auth_token matches Some(token) ==> is_token(token)
        }),
{
}

/// A configuration is accepted just where it has a port, its token, if it has one, is at least
/// sixteen characters of those that need no escape, and it has one where anything that needs it is
/// allowed. What is accepted is what was written, each in its place, with the token trimmed and an
/// empty one left out. Of several reasons to refuse it the first is given.
pub proof fn configuration_is_taken_as_written(
    src: CfgDashboardDto,
    out: Result<CfgDashboard, String>,
    token: Option<Seq<char>>,
)
    requires
        call_ensures(apply_dashboard_patch, (src,), out),
        token == match src.auth_token {
            Some(text) => if trimmed(text@).len() > 0 {
                Some(trimmed(text@))
            } else {
                None
            },
            None => None,
        },
    ensures
        ({
            let bad_token = token is Some && !(token->0.len() >= 16 && forall|i: int|
                0 <= i < token->0.len() ==> is_url_safe(#[trigger] token->0[i]));
            let missing_token = (src.allow_config_api || src.allow_control_commands)
                && token is None;
            &&& out is Ok <==> src.port != 0 && !bad_token && !missing_token
            &&& src.port == 0 ==> out->Err_0@ == "dashboard: port cannot be 0"@
            &&& src.port != 0 && bad_token ==> out->Err_0@
                == "dashboard: auth_token must be at least 16 URL-safe characters (A-Z a-z 0-9 - . _ ~)"@
            &&& src.port != 0 && missing_token ==> out->Err_0@
                == "dashboard: allow_config_api/allow_control_commands requires auth_token"@
            &&& out matches Ok(cfg) ==> {
                &&& cfg.port == src.port
                &&& cfg.bind@ == src.bind@
                &&& cfg.allow_config_api == src.allow_config_api
                &&& cfg.allow_control_commands == src.allow_control_commands
                &&& cfg.auth_token is Some <==> token is Some
                &&& token is Some ==> cfg.auth_token->0@ == token->0
            }
        }),
{
    if let Ok(cfg) = out {
        assert(cfg@.port == cfg.port && cfg@.bind == cfg.bind@);
    }
}

/// Characters that need no escape are the letters and digits of ASCII and four signs.
pub proof fn safe_characters_are_few(c: char, r: bool)
    requires
        call_ensures(is_url_safe_token_char, (c,), r),
    ensures
        r <==> 48 <= c as u32 <= 57 || 65 <= c as u32 <= 90 || 97 <= c as u32 <= 122 || c == '-' || c
            == '.' || c == '_' || c == '~',
{
}

/// A token has at least sixteen characters, all of which need no escape, and is then valid.
pub proof fn tokens_are_long_and_safe(token: &str, r: bool)
    requires
        call_ensures(valid_token, (token,), r),
    ensures
        r <==> token@.len() >= 16 && forall|i: int|
            0 <= i < token@.len() ==> is_url_safe(#[trigger] token@[i]),
{
}

/// An optional text is trimmed, and there is none where only white space was given.
pub proof fn blank_texts_are_left_out(value: String, out: Option<String>, s: &str, text: String)
    requires
        call_ensures(empty_to_none, (value,), out),
        s@ == value@,
        call_ensures(trim, (s,), text),
    ensures
        text@.len() == 0 ==> out is None,
        text@.len() > 0 ==> (out matches Some(t) && t@ == text@),
{
}

/// Where nothing is configured, the dashboard listens on port 8080 of this machine alone, allows
/// nothing that needs a token, and has none.
pub proof fn defaults_allow_nothing(port: u16, bind: String, cfg: CfgDashboard)
    requires
        call_ensures(default_port, (), port),
        call_ensures(default_bind, (), bind),
        call_ensures(CfgDashboard::default, (), cfg),
    ensures
        port == 8080,
        bind@ == "127.0.0.1"@,
        cfg.port == port,
        cfg.bind@ == bind@,
        !cfg.allow_config_api,
        !cfg.allow_control_commands,
        cfg.auth_token is None,
{
    assert(cfg@.port == cfg.port && cfg@.bind == cfg.bind@ && cfg@.allow_config_api
        == cfg.allow_config_api && cfg@.allow_control_commands == cfg.allow_control_commands);
}

/// A value that is not to be shown is the one that was put in.
pub proof fn secrets_are_kept(value: String, secret: SecretField, out: &str)
    requires
        call_ensures(SecretField::new, (value,), secret),
        call_ensures(SecretField::expose, (&secret,), out),
    ensures
        out@ == value@,
{
}

} // verus!
