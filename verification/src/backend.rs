//! What the remote service hands over, what the session knows about its own
//! credentials, and the prompt that asks the user for them.

use crate::editable::{Draft, Editable, Field};
use crate::prompt::{HandleRes, Overlay, Prompt, PromptButton};
use crate::text::{contains, has_infix};
use vstd::prelude::*;

verus! {

/// One user record as the remote service lists it.
pub struct UserInfoV1 {
    pub name: String,
    pub is_guest: bool,
    pub admin: bool,
    pub deactivated: bool,
    pub shadow_banned: bool,
    pub displayname: String,
    pub avatar_url: Option<String>,
    pub creation_ts: usize,
}

/// Reads a flag that the service sends as a number: zero is `false`, every
/// other number is `true`.
pub fn bool_from_num(v: usize) -> (r: bool)
    ensures
        r == (v != 0),
{
    v != 0
}

/// The status with which the service refuses a token.
pub const STATUS_UNAUTHORIZED: u16 = 401;

/// What is to happen next with a prompt that a backend put up.
#[derive(Clone, Copy, Debug, PartialEq, Eq, Structural)]
pub enum PromptStep {
    /// The prompt stays open.
    Pending,
    /// The backend is done with the prompt.
    Done,
    /// The credentials were taken over and are to be checked against the
    /// service; `validated` takes the outcome.
    Validate,
}

/// How a backend leaves things once it has seen what a prompt answered.
pub struct PromptOutcome {
    /// What is to happen next with the prompt.
    pub step: PromptStep,
    /// The prompt as the backend leaves it.
    pub prompt: Overlay,
    /// The answer as the backend hands it on.
    pub answer: HandleRes,
}

/// The outcome of a backend that leaves the prompt open and changes neither
/// the prompt nor the answer.
pub open spec fn left_alone(p: Overlay, r: HandleRes) -> PromptOutcome {
    PromptOutcome { step: PromptStep::Pending, prompt: p, answer: r }
}

/// A source of data that may need to ask the user for something first.
///
/// A backend that leaves everything as the trait gives it never asks, and
/// leaves every prompt open and alone.
pub trait BackendImpl {
    /// The prompt that the backend asks with, where it requires information
    /// from the user.
    open spec fn asks_with(&self) -> Option<Overlay> {
        None
    }

    /// How the backend leaves things once the prompt `p` has ended with the
    /// answer `r`.
    open spec fn outcome(&self, p: Overlay, r: HandleRes) -> PromptOutcome {
        left_alone(p, r)
    }

    /// Whether the backend takes anything over for itself from the prompt
    /// `p` that has ended with the answer `r`.
    open spec fn takes_from(&self, p: Overlay, r: HandleRes) -> bool {
        false
    }

    /// Returns true if the backend requires information from the user. It
    /// then leaves in `p` the prompt that it asks with; else `p` stays as it
    /// is.
    fn set_prompt(&self, _p: &mut Prompt) -> (asks: bool)
        ensures
            asks ==> self.asks_with() == Some(final(_p)@),
            !asks ==> final(_p)@ == old(_p)@,
    {
        false
    }

    /// Invoked with what the prompt answered to a key. Says whether the
    /// backend is done with the prompt too. As long as the prompt has not
    /// ended, the prompt stays open and nothing is changed. Once it has
    /// ended, the backend either leaves everything alone or leaves it as
    /// `outcome` says, and changes itself only where `takes_from` says.
    fn prompt_done(&mut self, _p: &mut Prompt, _r: &mut HandleRes) -> (step: PromptStep)
        ensures
            !(*old(_r) is Exit) ==> step == PromptStep::Pending && *final(_r) == *old(_r)
                && final(_p)@ == old(_p)@ && &*final(self) == &*old(self),
            (PromptOutcome { step, prompt: final(_p)@, answer: *final(_r) }) == left_alone(
                old(_p)@,
                *old(_r),
            ) || (PromptOutcome { step, prompt: final(_p)@, answer: *final(_r) }) == old(
                self,
            ).outcome(old(_p)@, *old(_r)),
            &*final(self) == &*old(self) || old(self).takes_from(old(_p)@, *old(_r)),
    {
        PromptStep::Pending
    }
}

/// The session with the remote service: where it is and how to get in.
pub struct Synapse {
    token_valid: bool,
    access_token: String,
    host: String,
    allow_invalid_certs: bool,
}

/// The session as contracts see it.
pub struct Credentials {
    pub token_valid: bool,
    pub host: Seq<char>,
    pub token: Seq<char>,
}

/// The prompt that asks for host and token, filled with what is known. The
/// cursor starts on the token where a host is there already.
pub open spec fn credential_prompt(c: Credentials) -> Overlay {
    Overlay {
        msg: "Please provide the missing server information"@,
        error: seq![],
        fields: seq![
            ("Host"@, Field::Str(Draft::fresh(c.host))),
            ("Access Token"@, Field::Str(Draft::fresh(c.token))),
        ],
        buttons: seq![PromptButton::Okay, PromptButton::Exit],
        cursor: if c.host.len() > 0 {
            1
        } else {
            0
        },
        action: None,
    }
}

/// What is wrong with the credentials before any request is made.
pub open spec fn local_error(host: Seq<char>, token: Seq<char>) -> Option<Seq<char>> {
    if host.len() == 0 {
        Some("Error : host is mandatory"@)
    } else if token.len() == 0 {
        Some("Error : token is mandatory"@)
    } else {
        None
    }
}

/// The field that an error points at: the token for a refused token, the
/// host for a failed request, else the one the cursor is on.
pub open spec fn routed_cursor(cursor: int, error: Seq<char>) -> int {
    if has_infix(error, "401"@) || has_infix(error, "token"@) {
        1
    } else if has_infix(error, "request"@) || has_infix(error, "host"@) {
        0
    } else {
        cursor
    }
}

/// The prompt opened again with `error` shown, the cursor on the field that
/// the error points at, and no action chosen: the prompt has not ended.
pub open spec fn rejected(p: Overlay, error: Seq<char>) -> Overlay {
    Overlay { error, cursor: routed_cursor(p.cursor, error), action: None, ..p }
}

/// The credentials that a prompt holds in its first two fields.
pub open spec fn taken_from(c: Credentials, p: Overlay) -> Credentials {
    Credentials { host: p.fields[0].1.as_text(), token: p.fields[1].1.as_text(), ..c }
}

/// Whether `r` says that the prompt ended with a go-ahead and the prompt
/// holds the two fields to take the credentials from.
pub open spec fn submits(p: Overlay, r: HandleRes) -> bool {
    r == HandleRes::Exit(true) && p.fields.len() >= 2
}

impl Credentials {
    /// The session once the prompt `p` has answered `r` to a key: on a
    /// go-ahead, host and token are taken from the prompt.
    pub open spec fn after_prompt(self, p: Overlay, r: HandleRes) -> Credentials {
        if submits(p, r) {
            taken_from(self, p)
        } else {
            self
        }
    }

    /// What is to happen with the prompt `p` that has answered `r`: it
    /// stays open unless it ended; it is done with where it ended without a
    /// go-ahead; on a go-ahead it stays where host or token is missing, and
    /// else the credentials are to be checked against the service.
    pub open spec fn step_after_prompt(self, p: Overlay, r: HandleRes) -> PromptStep {
        match r {
            HandleRes::Exit(false) => PromptStep::Done,
            HandleRes::Exit(true) => if p.fields.len() < 2 {
                PromptStep::Done
            } else if local_error(taken_from(self, p).host, taken_from(self, p).token) is Some {
                PromptStep::Pending
            } else {
                PromptStep::Validate
            },
            _ => PromptStep::Pending,
        }
    }

    /// The prompt `p` once it has answered `r`: it shows what is wrong where
    /// a go-ahead came without host or token.
    pub open spec fn prompt_after(self, p: Overlay, r: HandleRes) -> Overlay {
        if submits(p, r) {
            match local_error(taken_from(self, p).host, taken_from(self, p).token) {
                Some(e) => rejected(p, e),
                None => p,
            }
        } else {
            p
        }
    }
}

/// The answer that is handed on once the backend has seen the prompt's
/// answer `r`: a go-ahead becomes a redraw.
pub open spec fn answer_after_prompt(r: HandleRes) -> HandleRes {
    if r == HandleRes::Exit(true) {
        HandleRes::ReDraw
    } else {
        r
    }
}

impl View for Synapse {
    type V = Credentials;

    closed spec fn view(&self) -> Credentials {
        Credentials { token_valid: self.token_valid, host: self.host@, token: self.access_token@ }
    }
}

/// Opens the prompt again: shows `error` in it, puts the cursor on the field
/// that the error points at, and takes back the action that was chosen.
pub fn reject(p: &mut Prompt, error: String)
    ensures
        final(p)@ == rejected(old(p)@, error@),
{
    // Try to set the cursor to the invalid input
    if contains(error.as_str(), "401") || contains(error.as_str(), "token") {
        p.cursor = 1;
    } else if contains(error.as_str(), "request") || contains(error.as_str(), "host") {
        p.cursor = 0;
    }
    p.error = error;
    p.action = None;
}

impl Synapse {
    /// A session with the service at `host`, without a token yet.
    pub fn new(host: String, allow_invalid_certs: bool) -> (r: Self)
        ensures
            r@ == (Credentials { token_valid: false, host: host@, token: seq![] }),
            r.accepts_invalid_certs() == allow_invalid_certs,
    {
        Synapse { token_valid: false, host, access_token: String::new(), allow_invalid_certs }
    }

    /// Whether invalid TLS certificates are to be accepted.
    pub closed spec fn accepts_invalid_certs(&self) -> bool {
        self.allow_invalid_certs
    }

    /// Whether invalid TLS certificates are to be accepted.
    pub fn allow_invalid_certs(&self) -> (r: bool)
        ensures
            r == self.accepts_invalid_certs(),
    {
        self.allow_invalid_certs
    }

    /// Where the service is.
    pub fn host(&self) -> (r: &str)
        ensures
            r@ == self@.host,
    {
        self.host.as_str()
    }

    /// The token to get in with.
    pub fn access_token(&self) -> (r: &str)
        ensures
            r@ == self@.token,
    {
        self.access_token.as_str()
    }

    /// Whether the service accepted the token.
    pub fn token_valid(&self) -> (r: bool)
        ensures
            r == self@.token_valid,
    {
        self.token_valid
    }

    /// Checks what can be checked without a request: host and token must
    /// both be there.
    pub fn validate_token(&self) -> (r: Result<(), String>)
        ensures
            match r {
                Ok(_) => local_error(self@.host, self@.token) is None,
                Err(e) => local_error(self@.host, self@.token) == Some(e@),
            },
    {
        if self.host.as_str().is_empty() {
            return Err("Error : host is mandatory".to_owned());
        } else if self.access_token.as_str().is_empty() {
            return Err("Error : token is mandatory".to_owned());
        }
        Ok(())
    }

    /// Takes in the status of a reply. A refusal of the token makes the
    /// session count as not logged in, so that the credentials are asked for
    /// again. Returns whether the status is the expected one.
    pub fn note_status(&mut self, status: u16, expected: Option<u16>) -> (r: bool)
        ensures
            final(self)@ == (Credentials {
                token_valid: old(self)@.token_valid && status != STATUS_UNAUTHORIZED,
                ..old(self)@
            }),
            final(self).accepts_invalid_certs() == old(self).accepts_invalid_certs(),
            r == match expected {
                Some(s) => status == s,
                None => true,
            },
    {
        if status == STATUS_UNAUTHORIZED {
            self.token_valid = false;
        }
        match expected {
            Some(s) => status == s,
            None => true,
        }
    }

    /// Takes in the outcome of checking the credentials against the
    /// service. On success the session counts as logged in and the prompt is
    /// done with. On failure the prompt shows the error and stays.
    pub fn validated(&mut self, p: &mut Prompt, outcome: Result<(), String>) -> (done: bool)
        ensures
            final(self).accepts_invalid_certs() == old(self).accepts_invalid_certs(),
            match outcome {
                Ok(_) => done && final(self)@ == (Credentials { token_valid: true, ..old(self)@ })
                    && final(p)@ == old(p)@,
                Err(e) => !done && final(self)@ == old(self)@ && final(p)@ == rejected(
                    old(p)@,
                    e@,
                ),
            },
    {
        match outcome {
            Ok(_) => {
                self.token_valid = true;
                true
            },
            Err(e) => {
                reject(p, e);
                false
            },
        }
    }
}

impl BackendImpl for Synapse {
    /// The credential prompt, unless the session is logged in.
    open spec fn asks_with(&self) -> Option<Overlay> {
        if self@.token_valid {
            None
        } else {
            Some(credential_prompt(self@))
        }
    }

    /// What becomes of the credential prompt once it has ended.
    open spec fn outcome(&self, p: Overlay, r: HandleRes) -> PromptOutcome {
        PromptOutcome {
            step: self@.step_after_prompt(p, r),
            prompt: self@.prompt_after(p, r),
            answer: answer_after_prompt(r),
        }
    }

    /// Host and token are taken over on a go-ahead.
    open spec fn takes_from(&self, p: Overlay, r: HandleRes) -> bool {
        submits(p, r)
    }

    /// Puts up the credential prompt unless the session is logged in.
    fn set_prompt(&self, p: &mut Prompt) -> (asks: bool)
        ensures
            asks == !self@.token_valid,
            asks ==> final(p)@ == credential_prompt(self@),
            !asks ==> final(p)@ == old(p)@,
    {
        if self.token_valid {
            return false;
        }
        let mut fields: Vec<(String, Editable)> = Vec::new();
        fields.push(("Host".to_owned(), Editable::string(self.host.as_str())));
        fields.push(("Access Token".to_owned(), Editable::string(self.access_token.as_str())));
        let mut buttons: Vec<PromptButton> = Vec::new();
        buttons.push(PromptButton::Okay);
        buttons.push(PromptButton::Exit);
        let cursor: usize = if !self.host.as_str().is_empty() {
            1
        } else {
            0
        };
        *p = Prompt::new(
            Some("Please provide the missing server information"),
            None,
            Some(fields),
            Some(buttons),
            cursor,
        );
        proof {
            assert(p@.fields =~= credential_prompt(self@).fields);
            assert(p@.buttons =~= credential_prompt(self@).buttons);
        }
        true
    }

    /// Invoked with what the prompt answered to a key. Unless the prompt
    /// ended, it stays open. Where it ended without a go-ahead the backend
    /// is done with it and the answer stands. With a go-ahead the answer
    /// becomes a redraw and host and token are taken from the first two
    /// fields: where one of them is missing the prompt shows what is wrong
    /// and stays, else they are to be checked against the service.
    fn prompt_done(&mut self, p: &mut Prompt, r: &mut HandleRes) -> (step: PromptStep)
        ensures
            final(self).accepts_invalid_certs() == old(self).accepts_invalid_certs(),
            final(self)@ == old(self)@.after_prompt(old(p)@, *old(r)),
            final(p)@ == old(self)@.prompt_after(old(p)@, *old(r)),
            step == old(self)@.step_after_prompt(old(p)@, *old(r)),
            *final(r) == answer_after_prompt(*old(r)),
    {
        match *r {
            HandleRes::Exit(is_submit) => {
                if !is_submit {
                    // Exit out of the prompt
                    return PromptStep::Done;
                }
            },
            _ => {
                return PromptStep::Pending;
            },
        }
        *r = HandleRes::ReDraw;
        // User hit [submit]
        if p.fields.len() < 2 {
            return PromptStep::Done;
        }
        // Take the values from the prompt fields
        self.host = p.fields[0].1.as_str().to_owned();
        self.access_token = p.fields[1].1.as_str().to_owned();
        match self.validate_token() {
            Err(e) => {
                reject(p, e);
                PromptStep::Pending
            },
            Ok(_) => PromptStep::Validate,
        }
    }
}

} // verus!
