//! Talking to a server from the settings window: what is asked, and what is
//! made of the answer.
use vstd::prelude::*;

use crate::config::Config;
use crate::text;

verus! {

/// The address that tells whether a server is one of ours.
pub fn health_endpoint(url: &str) -> (r: String)
    ensures
        r@ == text::without_trailing(url@, '/') + "/health"@,
{
    let mut out = text::trim_end_matches(url, '/');
    out.append("/health");
    out
}

/// The address at which streams are created.
pub fn register_endpoint(url: &str) -> (r: String)
    ensures
        r@ == text::without_trailing(url@, '/') + "/stream"@,
{
    let mut out = text::trim_end_matches(url, '/');
    out.append("/stream");
    out
}

/// The address at which a stream is changed.
pub fn stream_endpoint(url: &str, stream_id: &str) -> (r: String)
    ensures
        r@ == text::without_trailing(url@, '/') + "/stream/"@ + stream_id@,
{
    let mut out = text::trim_end_matches(url, '/');
    out.append("/stream/");
    out.append(stream_id);
    out
}

/// What a test of a server's address came to.
pub enum UrlTestResult {
    Connected { requires_password: bool },
    Failed(String),
}

pub const NOT_OURS: &'static str = "Not a froklog server (wrong URL or port?)";

/// What a server's answer to the health request comes to: whether it says that
/// it is well, and whether it asks for a password.
pub fn url_test_result(ok: Option<bool>, requires_password: Option<bool>) -> (r: UrlTestResult)
    ensures
        match r {
            UrlTestResult::Connected { requires_password: p } => ok == Some(true) && p == (
            requires_password == Some(true)),
            UrlTestResult::Failed(e) => ok != Some(true) && e@ == NOT_OURS@,
        },
{
    let well: bool = match ok {
        Some(b) => b,
        None => false,
    };
    if !well {
        return UrlTestResult::Failed(NOT_OURS.to_owned());
    }
    UrlTestResult::Connected {
        requires_password: match requires_password {
            Some(b) => b,
            None => false,
        },
    }
}

/// What the window says of a test.
pub open spec fn test_text(t: UrlTestResult) -> Seq<char> {
    match t {
        UrlTestResult::Connected { requires_password } => if requires_password {
            "Connected — password required"@
        } else {
            "Connected — open registration"@
        },
        UrlTestResult::Failed(e) => "Could not reach server: "@ + e@,
    }
}

/// What the window says of a test.
pub fn url_test_text(t: &UrlTestResult) -> (r: String)
    ensures
        r@ == test_text(*t),
{
    match t {
        UrlTestResult::Connected { requires_password } => if *requires_password {
            "Connected — password required".to_owned()
        } else {
            "Connected — open registration".to_owned()
        },
        UrlTestResult::Failed(e) => {
            let mut out: String = "Could not reach server: ".to_owned();
            out.append(e.as_str());
            out
        },
    }
}

/// What a registration came to.
pub enum RegisterResult {
    Registered { stream_id: String, stream_token: String, view_token: String },
    Refused(String),
}

/// What a server answered to a registration.
pub struct RegisterReply {
    pub status: u16,
    /// The status as the program shows it, e.g. `404 Not Found`.
    pub status_text: String,
    /// Why the body could not be read, where it could not.
    pub unreadable: Option<String>,
    pub error: Option<String>,
    pub stream_id: Option<String>,
    pub stream_token: Option<String>,
    pub view_token: Option<String>,
}

pub const PASSWORD_WANTED: &'static str = "Server requires a password — fill in the Password field.";

/// Why a reply is no registration: the first reason that applies.
pub open spec fn refusal(r: RegisterReply) -> Option<Seq<char>> {
    if r.status == 401 {
        Some(PASSWORD_WANTED@)
    } else if !(200 <= r.status < 300) {
        Some("Server returned "@ + r.status_text@)
    } else if r.unreadable is Some {
        Some("Bad response: "@ + r.unreadable->0@)
    } else if r.error is Some {
        Some("Server error: "@ + r.error->0@)
    } else if r.stream_id is None {
        Some("missing stream_id in server response"@)
    } else if r.stream_token is None {
        Some("missing stream_token in server response"@)
    } else if r.view_token is None {
        Some("missing view_token in server response"@)
    } else {
        None
    }
}

fn words(head: &str, tail: &str) -> (r: String)
    ensures
        r@ == head@ + tail@,
{
    let mut out: String = head.to_owned();
    out.append(tail);
    out
}

/// What a server's answer to a registration comes to.
pub fn register_result(reply: RegisterReply) -> (r: RegisterResult)
    ensures
        match r {
            RegisterResult::Registered { stream_id, stream_token, view_token } => {
                &&& refusal(reply) is None
                &&& Some(stream_id) == reply.stream_id
                &&& Some(stream_token) == reply.stream_token
                &&& Some(view_token) == reply.view_token
            },
            RegisterResult::Refused(e) => refusal(reply) == Some(e@),
        },
{
    if reply.status == 401 {
        return RegisterResult::Refused(PASSWORD_WANTED.to_owned());
    }
    if !(200 <= reply.status && reply.status < 300) {
        return RegisterResult::Refused(words("Server returned ", reply.status_text.as_str()));
    }
    if let Some(e) = &reply.unreadable {
        return RegisterResult::Refused(words("Bad response: ", e.as_str()));
    }
    if let Some(e) = &reply.error {
        return RegisterResult::Refused(words("Server error: ", e.as_str()));
    }
    match (reply.stream_id, reply.stream_token, reply.view_token) {
        (Some(stream_id), Some(stream_token), Some(view_token)) => RegisterResult::Registered {
            stream_id,
            stream_token,
            view_token,
        },
        (None, _, _) => RegisterResult::Refused("missing stream_id in server response".to_owned()),
        (_, None, _) => RegisterResult::Refused("missing stream_token in server response".to_owned()),
        (_, _, None) => RegisterResult::Refused("missing view_token in server response".to_owned()),
    }
}

/// What the window knows of the registration.
pub struct Registration {
    pub is_registered: bool,
    pub stream_id_text: String,
    /// Whether the player's name was typed rather than taken from a file.
    pub player_user_set: bool,
    /// Whether the server was chosen rather than taken from a file.
    pub server_user_set: bool,
}

pub const NOT_REGISTERED: &'static str = "Not registered";

/// The title of what is said of a registration.
pub const REGISTER_TITLE: &'static str = "Register";

/// What is said where a field is missing.
pub const REGISTER_INCOMPLETE: &'static str = "Enter a server URL (and test it) and a player name.";

/// The title of the question before the credentials are cleared.
pub const UNREGISTER_TITLE: &'static str = "Unregister";

/// The question before the credentials are cleared.
pub const UNREGISTER_QUESTION: &'static str = "Clear stream credentials? The viewer URL will stop working.";

/// What a press of the register button leads to.
pub enum RegisterStep {
    /// The question before the credentials are cleared.
    AskUnregister,
    /// A field is missing.
    Incomplete,
    /// The server is asked.
    Send,
}

impl Registration {
    /// What a press of the register button leads to.
    pub fn press(&self, url: &str, player: &str) -> (r: RegisterStep)
        ensures
            match r {
                RegisterStep::AskUnregister => self.is_registered,
                RegisterStep::Incomplete => !self.is_registered && (url@.len() == 0
                    || player@.len() == 0),
                RegisterStep::Send => !self.is_registered && url@.len() > 0 && player@.len() > 0,
            },
    {
        if self.is_registered {
            RegisterStep::AskUnregister
        } else if url.is_empty() || player.is_empty() {
            RegisterStep::Incomplete
        } else {
            RegisterStep::Send
        }
    }

    /// Whether the register button can be pressed: always to unregister, else
    /// where there is an address and a player.
    pub fn can_press(&self, url_len: usize, player_len: usize) -> (r: bool)
        ensures
            r == (self.is_registered || (url_len > 0 && player_len > 0)),
    {
        self.is_registered || (url_len > 0 && player_len > 0)
    }

    /// Whether the identifier of the stream can be copied: once it is registered.
    pub fn can_copy(&self) -> (r: bool)
        ensures
            r == self.is_registered,
    {
        self.is_registered
    }

    /// The title and the words that a step is shown with, if any.
    pub open spec fn spec_words(step: RegisterStep) -> Option<(Seq<char>, Seq<char>)> {
        match step {
            RegisterStep::AskUnregister => Some((UNREGISTER_TITLE@, UNREGISTER_QUESTION@)),
            RegisterStep::Incomplete => Some((REGISTER_TITLE@, REGISTER_INCOMPLETE@)),
            RegisterStep::Send => None,
        }
    }

    /// The title and the words that a step is shown with, if any.
    pub fn words(step: &RegisterStep) -> (r: Option<(&'static str, &'static str)>)
        ensures
            Registration::spec_words(*step) == match r {
                Some((title, words)) => Some((title@, words@)),
                None => None,
            },
    {
        match step {
            RegisterStep::AskUnregister => Some((UNREGISTER_TITLE, UNREGISTER_QUESTION)),
            RegisterStep::Incomplete => Some((REGISTER_TITLE, REGISTER_INCOMPLETE)),
            RegisterStep::Send => None,
        }
    }

    /// What stands where the identifier of the stream is shown.
    pub fn shown_id(&self) -> (r: &str)
        ensures
            r@ == if self.stream_id_text@.len() > 0 {
                self.stream_id_text@
            } else {
                NOT_REGISTERED@
            },
    {
        if self.stream_id_text.as_str().is_empty() {
            NOT_REGISTERED
        } else {
            self.stream_id_text.as_str()
        }
    }

    /// What the register button says.
    pub fn button_text(&self) -> (r: &'static str)
        ensures
            r@ == (if self.is_registered {
                "Unregister"@
            } else {
                "Register"@
            }),
    {
        if self.is_registered {
            "Unregister"
        } else {
            "Register"
        }
    }

    /// Clears the credentials.
    pub fn unregister<F>(&mut self, cfg: Config<F>) -> (r: Config<F>)
        ensures
            !final(self).is_registered,
            final(self).stream_id_text@.len() == 0,
            final(self).player_user_set == old(self).player_user_set,
            final(self).server_user_set == old(self).server_user_set,
            r == (Config { stream_id: None, stream_token: None, view_token: None, ..cfg }),
    {
        self.is_registered = false;
        self.stream_id_text = String::new();
        Config { stream_id: None, stream_token: None, view_token: None, ..cfg }
    }

    /// Takes the credentials of a registration over, and the address and the
    /// log that it was made with, so that the program can start at once.
    pub fn registered<F>(
        &mut self,
        cfg: Config<F>,
        stream_id: String,
        stream_token: String,
        view_token: String,
        url: &str,
        log: &str,
    ) -> (r: Config<F>)
        ensures
            final(self).is_registered,
            final(self).stream_id_text@ == stream_id@,
            final(self).player_user_set == old(self).player_user_set,
            final(self).server_user_set == old(self).server_user_set,
            text::opt_view(r.server_url) == if url@.len() > 0 {
                Some(url@)
            } else {
                text::opt_view(cfg.server_url)
            },
            text::opt_view(r.log_path) == if log@.len() > 0 {
                Some(log@)
            } else {
                text::opt_view(cfg.log_path)
            },
            r == (Config {
                stream_id: Some(stream_id),
                stream_token: Some(stream_token),
                view_token: Some(view_token),
                server_url: r.server_url,
                log_path: r.log_path,
                ..cfg
            }),
    {
        self.is_registered = true;
        self.stream_id_text = stream_id.clone();
        let server_url: Option<String> = if url.is_empty() {
            cfg.server_url
        } else {
            Some(url.to_owned())
        };
        let log_path: Option<String> = if log.is_empty() {
            cfg.log_path
        } else {
            Some(log.to_owned())
        };
        Config {
            stream_id: Some(stream_id),
            stream_token: Some(stream_token),
            view_token: Some(view_token),
            server_url,
            log_path,
            ..cfg
        }
    }
}

// ── Laws ────────────────────────────────────────────────────────────────────

/// A reply is a registration exactly where it succeeded, can be read, reports no
/// error and holds all three credentials.
pub proof fn registrations_are_complete(r: RegisterReply)
    ensures
        refusal(r) is None <==> {
            &&& 200 <= r.status < 300
            &&& r.unreadable is None
            &&& r.error is None
            &&& r.stream_id is Some
            &&& r.stream_token is Some
            &&& r.view_token is Some
        },
{
}

} // verus!
