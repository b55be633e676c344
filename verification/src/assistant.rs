//! The conversational assistant context of a session.
//!
//! An [`AssistantContext`] owns a credential, a selected model out of a fixed
//! set, and an ordered transcript of user and assistant turns. Asking a
//! question is split around the network: [`AssistantContext::begin_ask`]
//! records the user turn and builds the outbound request, the unverified
//! layer performs the HTTP exchange, and [`AssistantContext::record_reply`]
//! folds the provider's candidate replies back into the transcript. A
//! transport failure between the two calls leaves exactly the user turn
//! recorded, which is the intended history fidelity.

use vstd::prelude::*;
use crate::errors::ShellError;
use crate::text::{spec_trim, trim};

verus! {

/// Who produced a transcript turn.
#[derive(Clone, Copy, Debug, PartialEq, Eq, Structural)]
pub enum Role {
    User,
    Assistant,
}

/// One transcript entry.
#[derive(Clone, Debug)]
pub struct Turn {
    pub role: Role,
    pub text: String,
}

/// The mathematical value of a [`Turn`].
pub struct TurnView {
    pub role: Role,
    pub text: Seq<char>,
}

impl View for Turn {
    type V = TurnView;

    open spec fn view(&self) -> TurnView {
        TurnView { role: self.role, text: self.text@ }
    }
}

/// The fixed set of models the assistant can be pointed at.
#[derive(Clone, Copy, Debug, PartialEq, Eq, Structural)]
pub enum ModelId {
    Gpt35Turbo,
    Gpt4,
    TextDavinci003,
}

impl ModelId {
    /// The provider-side name of the model.
    pub open spec fn spec_name(self) -> Seq<char> {
        match self {
            ModelId::Gpt35Turbo => "gpt-3.5-turbo"@,
            ModelId::Gpt4 => "gpt-4"@,
            ModelId::TextDavinci003 => "text-davinci-003"@,
        }
    }

    /// Executable mirror of [`ModelId::spec_name`].
    pub fn name(&self) -> (r: &'static str)
        ensures
            r@ == self.spec_name(),
    {
        match self {
            ModelId::Gpt35Turbo => "gpt-3.5-turbo",
            ModelId::Gpt4 => "gpt-4",
            ModelId::TextDavinci003 => "text-davinci-003",
        }
    }

    /// The model a given name denotes, if it denotes one at all.
    pub open spec fn spec_from_name(s: Seq<char>) -> Option<ModelId> {
        if s == "gpt-3.5-turbo"@ {
            Some(ModelId::Gpt35Turbo)
        } else if s == "gpt-4"@ {
            Some(ModelId::Gpt4)
        } else if s == "text-davinci-003"@ {
            Some(ModelId::TextDavinci003)
        } else {
            None
        }
    }

    /// Executable mirror of [`ModelId::spec_from_name`].
    pub fn from_name(s: &str) -> (r: Option<ModelId>)
        ensures
            r == Self::spec_from_name(s@),
    {
        if crate::text::str_eq(s, "gpt-3.5-turbo") {
            Some(ModelId::Gpt35Turbo)
        } else if crate::text::str_eq(s, "gpt-4") {
            Some(ModelId::Gpt4)
        } else if crate::text::str_eq(s, "text-davinci-003") {
            Some(ModelId::TextDavinci003)
        } else {
            None
        }
    }
}

/// The outbound request for one question: the rendered prompt, the reply
/// budget and the model name, as the provider expects them.
pub struct AskRequest {
    pub prompt: String,
    pub max_tokens: u32,
    pub model: String,
}

/// The reply budget every request carries.
pub const MAX_REPLY_TOKENS: u32 = 150;

/// The mathematical value of an [`AssistantContext`].
pub struct AssistantView {
    pub credential: Option<Seq<char>>,
    pub model: ModelId,
    pub transcript: Seq<TurnView>,
}

/// Conversational state: an optional bearer credential, the selected model,
/// and the transcript, which only grows through asking (one user and one
/// assistant turn per completed call) or empties through an explicit clear.
pub struct AssistantContext {
    credential: Option<String>,
    model: ModelId,
    transcript: Vec<Turn>,
}

impl View for AssistantContext {
    type V = AssistantView;

    closed spec fn view(&self) -> AssistantView {
        AssistantView {
            credential: match self.credential {
                Some(ref c) => Some(c@),
                None => None,
            },
            model: self.model,
            transcript: self.transcript@.map_values(|t: Turn| t@),
        }
    }
}

/// How a transcript turn is written into the prompt.
pub open spec fn spec_turn_line(t: TurnView) -> Seq<char> {
    match t.role {
        Role::User => "User: "@ + t.text,
        Role::Assistant => "Voia: "@ + t.text,
    }
}

/// The transcript rendered oldest-to-newest, one line per turn, separated
/// by newlines.
pub open spec fn spec_joined_lines(ts: Seq<TurnView>) -> Seq<char>
    decreases ts.len(),
{
    if ts.len() == 0 {
        Seq::empty()
    } else if ts.len() == 1 {
        spec_turn_line(ts[0])
    } else {
        spec_joined_lines(ts.drop_last()) + "\n"@ + spec_turn_line(ts.last())
    }
}

/// The full outbound prompt: the rendered transcript followed by a cue for
/// the assistant's next line.
pub open spec fn spec_prompt(ts: Seq<TurnView>) -> Seq<char> {
    spec_joined_lines(ts) + "\nVoia:"@
}

/// The contents persisted to the configuration store for a credential.
pub open spec fn spec_credential_line(value: Seq<char>) -> Seq<char> {
    "OPENAI_API_KEY="@ + value
}

/// The line `set_credential` hands to the configuration store.
pub fn credential_line(value: &str) -> (r: String)
    ensures
        r@ == spec_credential_line(value@),
{
    let mut out = "OPENAI_API_KEY=".to_owned();
    out.append(value);
    out
}

fn turn_line(t: &Turn) -> (r: String)
    ensures
        r@ == spec_turn_line(t@),
{
    let mut out = match t.role {
        Role::User => "User: ".to_owned(),
        Role::Assistant => "Voia: ".to_owned(),
    };
    out.append(t.text.as_str());
    out
}

fn build_prompt(ts: &Vec<Turn>) -> (r: String)
    ensures
        r@ == spec_prompt(ts@.map_values(|t: Turn| t@)),
{
    let ghost v = ts@.map_values(|t: Turn| t@);
    let mut out = String::new();
    let n = ts.len();
    let mut i: usize = 0;
    proof {
        assert(v.take(0) =~= Seq::<TurnView>::empty());
    }
    while i < n
        invariant
            n == ts@.len(),
            v == ts@.map_values(|t: Turn| t@),
            v.len() == n,
            0 <= i <= n,
            out@ == spec_joined_lines(v.take(i as int)),
        decreases n - i,
    {
        if i > 0 {
            out.append("\n");
        }
        let line = turn_line(&ts[i]);
        out.append(line.as_str());
        proof {
            let w = v.take(i as int + 1);
            assert(w.last() == v[i as int]);
            if i == 0 {
                assert(w.len() == 1);
                assert(w[0] == v[0]);
            } else {
                assert(w.drop_last() =~= v.take(i as int));
            }
        }
        i += 1;
    }
    proof {
        assert(v.take(n as int) =~= v);
    }
    out.append("\nVoia:");
    out
}

impl AssistantContext {
    /// A fresh context: the given credential (if one was found), the default
    /// model, and an empty transcript.
    pub fn new(credential: Option<String>) -> (r: AssistantContext)
        ensures
            r@.credential == match credential {
                Some(c) => Some::<Seq<char>>(c@),
                None => None::<Seq<char>>,
            },
            r@.model == ModelId::Gpt35Turbo,
            r@.transcript == Seq::<TurnView>::empty(),
    {
        let r = AssistantContext { credential, model: ModelId::Gpt35Turbo, transcript: Vec::new() };
        proof {
            assert(r@.transcript =~= Seq::<TurnView>::empty());
        }
        r
    }

    /// Bring the assistant up from the external configuration source:
    /// without a credential there is nothing to activate.
    pub fn activate(credential: Option<String>) -> (r: Result<AssistantContext, ShellError>)
        ensures
            credential is None ==> (r matches Err(e) && e == ShellError::MissingCredential),
            credential matches Some(c) ==> (r matches Ok(a) && a@.credential == Some(c@)
                && a@.model == ModelId::Gpt35Turbo && a@.transcript == Seq::<TurnView>::empty()),
    {
        match credential {
            None => Err(ShellError::MissingCredential),
            Some(c) => Ok(Self::new(Some(c))),
        }
    }

    /// Whether a credential is present.
    pub fn has_credential(&self) -> (r: bool)
        ensures
            r == (self@.credential is Some),
    {
        self.credential.is_some()
    }

    /// The selected model's name.
    pub fn model_name(&self) -> (r: &'static str)
        ensures
            r@ == self@.model.spec_name(),
    {
        self.model.name()
    }

    /// The transcript turns, oldest first.
    pub fn transcript_len(&self) -> (r: usize)
        ensures
            r == self@.transcript.len(),
    {
        self.transcript.len()
    }

    /// A copy of the `i`-th transcript turn.
    pub fn turn(&self, i: usize) -> (r: Turn)
        requires
            i < self@.transcript.len(),
        ensures
            r@ == self@.transcript[i as int],
    {
        let t = &self.transcript[i];
        Turn { role: t.role, text: t.text.clone() }
    }

    /// Record the user's question and build the outbound request.
    ///
    /// Without a credential this fails with `MissingCredential` and changes
    /// nothing, so an unasked context keeps an empty transcript. With one,
    /// exactly the user turn is appended — it stays recorded even if the
    /// network call that follows fails — and the request carries the whole
    /// transcript rendered oldest-to-newest.
    pub fn begin_ask(&mut self, question: &str) -> (r: Result<AskRequest, ShellError>)
        ensures
            final(self)@.credential == old(self)@.credential,
            final(self)@.model == old(self)@.model,
            old(self)@.credential is None ==> (r matches Err(e)
                && e == ShellError::MissingCredential
                && final(self)@.transcript == old(self)@.transcript),
            old(self)@.credential is Some ==> (r matches Ok(req)
                && final(self)@.transcript == old(self)@.transcript.push(
                    TurnView { role: Role::User, text: question@ },
                )
                && req.prompt@ == spec_prompt(final(self)@.transcript)
                && req.model@ == old(self)@.model.spec_name()
                && req.max_tokens == MAX_REPLY_TOKENS),
    {
        if self.credential.is_none() {
            return Err(ShellError::MissingCredential);
        }
        let ghost old_view = self@.transcript;
        let text = question.to_owned();
        self.transcript.push(Turn { role: Role::User, text });
        proof {
            assert(self@.transcript =~= old_view.push(
                TurnView { role: Role::User, text: question@ },
            ));
        }
        let prompt = build_prompt(&self.transcript);
        Ok(AskRequest { prompt, max_tokens: MAX_REPLY_TOKENS, model: self.model.name().to_owned() })
    }

    /// Fold the provider's candidate replies into the transcript.
    ///
    /// The first candidate, trimmed of surrounding whitespace, becomes the
    /// assistant turn and the returned reply; with no candidates a fixed
    /// fallback is recorded instead, so the conversation never skips a turn.
    pub fn record_reply(&mut self, choices: &Vec<String>) -> (r: String)
        ensures
            final(self)@.credential == old(self)@.credential,
            final(self)@.model == old(self)@.model,
            choices@.len() > 0 ==> r@ == spec_trim(choices@[0]@),
            choices@.len() == 0 ==> r@ == "I'm sorry, I couldn't generate a response."@,
            final(self)@.transcript == old(self)@.transcript.push(
                TurnView { role: Role::Assistant, text: r@ },
            ),
    {
        let reply = if choices.len() > 0 {
            trim(choices[0].as_str())
        } else {
            "I'm sorry, I couldn't generate a response.".to_owned()
        };
        let ghost old_view = self@.transcript;
        let text = reply.clone();
        self.transcript.push(Turn { role: Role::Assistant, text });
        proof {
            assert(self@.transcript =~= old_view.push(
                TurnView { role: Role::Assistant, text: reply@ },
            ));
        }
        reply
    }

    /// Point the assistant at another model. An unrecognized name changes
    /// nothing.
    pub fn set_model(&mut self, name: &str)
        ensures
            final(self)@.credential == old(self)@.credential,
            final(self)@.transcript == old(self)@.transcript,
            final(self)@.model == match ModelId::spec_from_name(name@) {
                Some(m) => m,
                None => old(self)@.model,
            },
    {
        match ModelId::from_name(name) {
            Some(m) => {
                self.model = m;
            },
            None => {},
        }
    }

    /// Remember a new credential. Persisting it to the configuration store
    /// is the caller's separate step (see [`credential_line`]); the
    /// in-memory credential is updated regardless of how that step fares.
    pub fn set_credential(&mut self, value: &str)
        ensures
            final(self)@.credential == Some(value@),
            final(self)@.model == old(self)@.model,
            final(self)@.transcript == old(self)@.transcript,
    {
        self.credential = Some(value.to_owned());
    }

    /// Forget the conversation; the credential and the model stay.
    pub fn clear_history(&mut self)
        ensures
            final(self)@.credential == old(self)@.credential,
            final(self)@.model == old(self)@.model,
            final(self)@.transcript == Seq::<TurnView>::empty(),
    {
        self.transcript.clear();
        proof {
            assert(self@.transcript =~= Seq::<TurnView>::empty());
        }
    }
}

} // verus!
