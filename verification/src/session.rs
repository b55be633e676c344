//! One named session: its directory environment, its append-only command
//! history, and its optional assistant context (created lazily on first use).

use vstd::prelude::*;
use crate::assistant::{AssistantContext, AssistantView};
use crate::environment::{EnvView, Environment};

verus! {

/// The mathematical value of a [`Session`].
pub struct SessionView {
    pub name: Seq<char>,
    pub history: Seq<Seq<char>>,
    pub env: EnvView,
    pub assistant: Option<AssistantView>,
}

/// A named, isolated unit of shell state. The name never changes after
/// creation; the history only grows, one entry per non-empty submitted line.
pub struct Session {
    pub name: String,
    pub history: Vec<String>,
    pub env: Environment,
    pub assistant: Option<AssistantContext>,
}

impl View for Session {
    type V = SessionView;

    open spec fn view(&self) -> SessionView {
        SessionView {
            name: self.name@,
            history: self.history@.map_values(|l: String| l@),
            env: self.env@,
            assistant: match self.assistant {
                Some(ref a) => Some(a@),
                None => None,
            },
        }
    }
}

/// The view a session fresh out of [`Session::new`] has.
pub open spec fn spec_fresh_session(
    name: Seq<char>,
    current_dir: Seq<char>,
    home_dir: Seq<char>,
) -> SessionView {
    SessionView {
        name,
        history: Seq::empty(),
        env: EnvView { current_dir, home_dir },
        assistant: None,
    }
}

impl Session {
    /// A fresh session with an empty history, no assistant, and an
    /// environment built from the caller-supplied process working directory
    /// and home directory.
    pub fn new(name: String, current_dir: String, home_dir: String) -> (r: Session)
        ensures
            r@ == spec_fresh_session(name@, current_dir@, home_dir@),
    {
        let r = Session {
            name,
            history: Vec::new(),
            env: Environment::new(current_dir, home_dir),
            assistant: None,
        };
        proof {
            assert(r@.history =~= Seq::<Seq<char>>::empty());
        }
        r
    }

    /// The recorded history, oldest first.
    pub fn history_len(&self) -> (r: usize)
        ensures
            r == self@.history.len(),
    {
        self.history.len()
    }
}

/// The pool of hints a session greets with.
pub open spec fn spec_tips() -> Seq<Seq<char>> {
    seq![
        "Use 'clear' to clean the terminal"@,
        "Try 'partermai help' to see all available commands"@,
        "Use 'tip' to see another hint like this one"@,
        "Use 'cd ~' to jump back to your home directory"@,
        "Use 'ls -a' to show hidden files"@,
        "Use 'history' to replay this session's commands"@,
    ]
}

/// Relies on rand::random_range over `0..n`: it returns a value of the
/// range, and panics only on an empty range, which the precondition rules
/// out.
#[verifier::external_body]
fn random_below(n: usize) -> (r: usize)
    requires
        n >= 1,
    ensures
        r < n,
{
    rand::random_range(0..n)
}

/// One hint out of the fixed pool, chosen at random.
pub fn random_tip() -> (r: String)
    ensures
        spec_tips().contains(r@),
{
    let idx = random_below(6);
    let tip: &str = if idx == 0 {
        "Use 'clear' to clean the terminal"
    } else if idx == 1 {
        "Try 'partermai help' to see all available commands"
    } else if idx == 2 {
        "Use 'tip' to see another hint like this one"
    } else if idx == 3 {
        "Use 'cd ~' to jump back to your home directory"
    } else if idx == 4 {
        "Use 'ls -a' to show hidden files"
    } else {
        "Use 'history' to replay this session's commands"
    };
    proof {
        if idx == 0 {
            assert(spec_tips()[0] == tip@);
        } else if idx == 1 {
            assert(spec_tips()[1] == tip@);
        } else if idx == 2 {
            assert(spec_tips()[2] == tip@);
        } else if idx == 3 {
            assert(spec_tips()[3] == tip@);
        } else if idx == 4 {
            assert(spec_tips()[4] == tip@);
        } else {
            assert(spec_tips()[5] == tip@);
        }
    }
    tip.to_owned()
}

} // verus!
