//! The working-directory state of one session.
//!
//! An [`Environment`] holds the session's current directory and its home
//! directory, both as plain path strings. Path resolution (the home alias
//! `~`, home-relative `~/x`, absolute and current-directory-relative paths)
//! is verified logic; whether a resolved path names an existing directory is
//! a question about the file system, so [`Environment::change_directory`]
//! takes the answer to that probe as an argument and the unverified shell
//! around the library performs the probe (and mirrors a successful change
//! into the process-wide working directory).

use vstd::prelude::*;
use crate::errors::ShellError;

verus! {

/// The mathematical value of an [`Environment`].
pub struct EnvView {
    pub current_dir: Seq<char>,
    pub home_dir: Seq<char>,
}

/// Directory state of a session: where it is and where its home is.
/// The home directory never changes after construction.
pub struct Environment {
    current_dir: String,
    home_dir: String,
}

impl View for Environment {
    type V = EnvView;

    closed spec fn view(&self) -> EnvView {
        EnvView { current_dir: self.current_dir@, home_dir: self.home_dir@ }
    }
}

/// `rel` appended under `dir`, with exactly one separating slash.
pub open spec fn spec_join(dir: Seq<char>, rel: Seq<char>) -> Seq<char> {
    if dir.len() > 0 && dir.last() == '/' {
        dir + rel
    } else {
        dir + seq!['/'] + rel
    }
}

/// Where a path argument points, given the environment:
/// `~` is the home directory, `~/x` is `x` under the home directory,
/// an absolute path stands for itself, and anything else is taken
/// relative to the current directory.
pub open spec fn spec_resolve(env: EnvView, path: Seq<char>) -> Seq<char> {
    if path.len() == 1 && path[0] == '~' {
        env.home_dir
    } else if path.len() >= 2 && path[0] == '~' && path[1] == '/' {
        spec_join(env.home_dir, path.subrange(2, path.len() as int))
    } else if path.len() >= 1 && path[0] == '/' {
        path
    } else {
        spec_join(env.current_dir, path)
    }
}

/// Resolving the home alias yields the home directory, whatever the
/// current directory is.
pub proof fn lemma_resolve_home(env: EnvView, path: Seq<char>)
    requires
        path.len() == 1,
        path[0] == '~',
    ensures
        spec_resolve(env, path) == env.home_dir,
{
}

impl Environment {
    /// A fresh environment. The caller supplies the process working
    /// directory and the user's home directory as plain strings.
    pub fn new(current_dir: String, home_dir: String) -> (r: Environment)
        ensures
            r@.current_dir == current_dir@,
            r@.home_dir == home_dir@,
    {
        Environment { current_dir, home_dir }
    }

    /// The current directory, for display and for spawning processes in.
    pub fn current_dir_display(&self) -> (r: String)
        ensures
            r@ == self@.current_dir,
    {
        self.current_dir.clone()
    }

    /// The home directory.
    pub fn home_dir_display(&self) -> (r: String)
        ensures
            r@ == self@.home_dir,
    {
        self.home_dir.clone()
    }

    /// Turn a path argument into the absolute path it denotes here.
    pub fn resolve(&self, path: &str) -> (r: String)
        ensures
            r@ == spec_resolve(self@, path@),
    {
        let n = path.unicode_len();
        if n == 1 && path.get_char(0) == '~' {
            return self.home_dir.clone();
        }
        if n >= 2 && path.get_char(0) == '~' && path.get_char(1) == '/' {
            let rest = path.substring_char(2, n);
            return Self::join(&self.home_dir, rest);
        }
        if n >= 1 && path.get_char(0) == '/' {
            return path.to_owned();
        }
        Self::join(&self.current_dir, path)
    }

    fn join(dir: &String, rel: &str) -> (r: String)
        ensures
            r@ == spec_join(dir@, rel@),
    {
        let n = dir.as_str().unicode_len();
        let mut out = dir.clone();
        if n > 0 && dir.as_str().get_char(n - 1) == '/' {
            out.append(rel);
            assert(dir@.last() == dir@[n - 1]);
            out
        } else {
            out.append("/");
            out.append(rel);
            proof {
                assert(("/")@ =~= seq!['/']) by {
                    reveal_strlit("/");
                }
            }
            out
        }
    }

    /// Change the current directory to where `path` resolves.
    ///
    /// `target_is_dir` is the caller's answer to whether the resolved path
    /// names an existing directory; the change happens exactly when it does,
    /// and on failure the environment is untouched.
    pub fn change_directory(&mut self, path: &str, target_is_dir: bool) -> (r: Result<
        (),
        ShellError,
    >)
        ensures
            final(self)@.home_dir == old(self)@.home_dir,
            target_is_dir ==> r == Ok::<(), ShellError>(()) && final(self)@.current_dir
                == spec_resolve(old(self)@, path@),
            !target_is_dir ==> r == Err::<(), ShellError>(ShellError::PathNotFound)
                && final(self)@ == old(self)@,
    {
        let target = self.resolve(path);
        if target_is_dir {
            self.current_dir = target;
            Ok(())
        } else {
            Err(ShellError::PathNotFound)
        }
    }
}

} // verus!
