//! The registry of sessions: uniquely named sessions plus at most one
//! "active" session reference, which is a lookup key into the registry,
//! never a second owner.
//!
//! Every method preserves the registry invariant: names are unique, and the
//! active reference, when set, names a present session. Each transition is
//! specified by a spec-level function of the registry's mathematical value,
//! and the executable methods are proved to implement exactly those
//! transitions.

use vstd::prelude::*;
use vstd::multiset::Multiset;
use crate::errors::ShellError;
use crate::session::{Session, SessionView, spec_fresh_session};
use crate::text::{lex_le, lemma_lex_le_total, lemma_lex_le_trans, str_eq, str_le};

verus! {

/// The mathematical value of a [`SessionManager`].
pub struct ManagerView {
    pub sessions: Seq<SessionView>,
    pub active: Option<Seq<char>>,
}

/// The first index at or after `i` holding a session named `name`, or -1.
pub open spec fn find_from(ss: Seq<SessionView>, name: Seq<char>, i: int) -> int
    decreases ss.len() - i,
    when 0 <= i
{
    if i >= ss.len() {
        -1
    } else if ss[i].name == name {
        i
    } else {
        find_from(ss, name, i + 1)
    }
}

/// The index of the session named `name`, or -1 if there is none.
pub open spec fn spec_find(ss: Seq<SessionView>, name: Seq<char>) -> int {
    find_from(ss, name, 0)
}

pub proof fn lemma_find_from_props(ss: Seq<SessionView>, name: Seq<char>, i: int)
    requires
        0 <= i <= ss.len(),
    ensures
        find_from(ss, name, i) == -1 ==> (forall|k: int|
            i <= k < ss.len() ==> ss[k].name != name),
        find_from(ss, name, i) != -1 ==> i <= find_from(ss, name, i) < ss.len() && ss[find_from(
            ss,
            name,
            i,
        )].name == name && (forall|k: int| i <= k < find_from(ss, name, i) ==> ss[k].name != name),
    decreases ss.len() - i,
{
    if i < ss.len() && ss[i].name != name {
        lemma_find_from_props(ss, name, i + 1);
    }
}

/// If `r` is the first index whose session is named `name`, the search
/// finds exactly `r`.
pub proof fn lemma_find_first(ss: Seq<SessionView>, name: Seq<char>, r: int)
    requires
        0 <= r < ss.len(),
        ss[r].name == name,
        forall|k: int| 0 <= k < r ==> ss[k].name != name,
    ensures
        spec_find(ss, name) == r,
{
    lemma_find_range(ss, name, 0, r);
}

proof fn lemma_find_range(ss: Seq<SessionView>, name: Seq<char>, i: int, r: int)
    requires
        0 <= i <= r < ss.len(),
        ss[r].name == name,
        forall|k: int| i <= k < r ==> ss[k].name != name,
    ensures
        find_from(ss, name, i) == r,
    decreases r - i,
{
    if i < r {
        lemma_find_range(ss, name, i + 1, r);
    }
}

impl ManagerView {
    /// Whether a session of this name is registered.
    pub open spec fn contains_name(self, name: Seq<char>) -> bool {
        spec_find(self.sessions, name) >= 0
    }

    /// The registry invariant: unique names, and an active reference that
    /// names a present session.
    pub open spec fn wf(self) -> bool {
        &&& (forall|i: int, j: int|
            0 <= i < j < self.sessions.len() ==> self.sessions[i].name != self.sessions[j].name)
        &&& match self.active {
            Some(n) => self.contains_name(n),
            None => true,
        }
    }
}

/// What `create` does: a duplicate name is refused and nothing changes;
/// otherwise a fresh session (empty history, no assistant) is appended and
/// the active reference is untouched.
pub open spec fn spec_create(
    m: ManagerView,
    name: Seq<char>,
    current_dir: Seq<char>,
    home_dir: Seq<char>,
) -> (ManagerView, Result<(), ShellError>) {
    if m.contains_name(name) {
        (m, Err(ShellError::DuplicateSession))
    } else {
        (
            ManagerView {
                sessions: m.sessions.push(spec_fresh_session(name, current_dir, home_dir)),
                active: m.active,
            },
            Ok(()),
        )
    }
}

/// What `switch` does: an absent name is refused and nothing changes;
/// otherwise only the active reference moves.
pub open spec fn spec_switch(m: ManagerView, name: Seq<char>) -> (
    ManagerView,
    Result<(), ShellError>,
) {
    if m.contains_name(name) {
        (ManagerView { sessions: m.sessions, active: Some(name) }, Ok(()))
    } else {
        (m, Err(ShellError::SessionNotFound))
    }
}

/// What `close` does: an absent name is refused and nothing changes;
/// otherwise the session is removed, and the active reference is cleared
/// exactly when it named the removed session.
pub open spec fn spec_close(m: ManagerView, name: Seq<char>) -> (
    ManagerView,
    Result<(), ShellError>,
) {
    if m.contains_name(name) {
        (
            ManagerView {
                sessions: m.sessions.remove(spec_find(m.sessions, name)),
                active: if m.active == Some(name) {
                    None
                } else {
                    m.active
                },
            },
            Ok(()),
        )
    } else {
        (m, Err(ShellError::SessionNotFound))
    }
}

/// Law: creating the same name twice in succession always yields
/// `DuplicateSession` on the second call and leaves the first call's result
/// untouched; when the first call succeeded, the session it registered
/// still has an empty history after both calls.
pub proof fn lemma_create_twice(
    m: ManagerView,
    name: Seq<char>,
    cd1: Seq<char>,
    hd1: Seq<char>,
    cd2: Seq<char>,
    hd2: Seq<char>,
)
    ensures
        ({
            let (m1, r1) = spec_create(m, name, cd1, hd1);
            let (m2, r2) = spec_create(m1, name, cd2, hd2);
            &&& r2 == Err::<(), ShellError>(ShellError::DuplicateSession)
            &&& m2 == m1
            &&& (r1 == Ok::<(), ShellError>(()) ==> m1.sessions[spec_find(m1.sessions, name)].history
                == Seq::<Seq<char>>::empty())
        }),
{
    if m.contains_name(name) {
    } else {
        let (m1, r1) = spec_create(m, name, cd1, hd1);
        lemma_find_from_props(m.sessions, name, 0);
        let last = m.sessions.len() as int;
        assert(m1.sessions[last].name == name);
        lemma_find_first(m1.sessions, name, last);
    }
}

/// A sequence of names in lexicographic order.
pub open spec fn sorted_lex(s: Seq<Seq<char>>) -> bool {
    forall|i: int, j: int| 0 <= i < j < s.len() ==> lex_le(s[i], s[j])
}

/// The registry of sessions keyed by name, plus the optional active name.
pub struct SessionManager {
    sessions: Vec<Session>,
    active: Option<String>,
}

impl View for SessionManager {
    type V = ManagerView;

    closed spec fn view(&self) -> ManagerView {
        ManagerView {
            sessions: self.sessions@.map_values(|s: Session| s@),
            active: match self.active {
                Some(ref n) => Some(n@),
                None => None,
            },
        }
    }
}

impl SessionManager {
    /// An empty registry with no active session.
    pub fn new() -> (r: SessionManager)
        ensures
            r@.sessions == Seq::<SessionView>::empty(),
            r@.active is None,
            r@.wf(),
    {
        let r = SessionManager { sessions: Vec::new(), active: None };
        proof {
            assert(r@.sessions =~= Seq::<SessionView>::empty());
        }
        r
    }

    /// The index of the session of this name, if it is registered.
    fn find_index(&self, name: &str) -> (r: Option<usize>)
        ensures
            match r {
                Some(i) => spec_find(self@.sessions, name@) == i as int,
                None => spec_find(self@.sessions, name@) == -1,
            },
    {
        let ghost ss = self@.sessions;
        let n = self.sessions.len();
        let mut i: usize = 0;
        while i < n
            invariant
                n == ss.len(),
                ss == self@.sessions,
                0 <= i <= n,
                find_from(ss, name@, 0) == find_from(ss, name@, i as int),
            decreases n - i,
        {
            if str_eq(self.sessions[i].name.as_str(), name) {
                assert(ss[i as int].name == name@);
                return Some(i);
            }
            i += 1;
        }
        None
    }

    /// Whether a session of this name is registered.
    pub fn contains(&self, name: &str) -> (r: bool)
        ensures
            r == self@.contains_name(name@),
    {
        self.find_index(name).is_some()
    }

    /// The active session's name, if one is set.
    pub fn active_name(&self) -> (r: Option<String>)
        ensures
            match r {
                Some(n) => self@.active == Some(n@),
                None => self@.active is None,
            },
    {
        match &self.active {
            Some(n) => Some(n.clone()),
            None => None,
        }
    }

    /// How many sessions are registered.
    pub fn len(&self) -> (r: usize)
        ensures
            r == self@.sessions.len(),
    {
        self.sessions.len()
    }

    /// Register a fresh session under `name`. The caller supplies the
    /// process working directory and the home directory for the new
    /// session's environment.
    pub fn create(&mut self, name: &str, current_dir: String, home_dir: String) -> (r: Result<
        (),
        ShellError,
    >)
        requires
            old(self)@.wf(),
        ensures
            final(self)@ == spec_create(old(self)@, name@, current_dir@, home_dir@).0,
            r == spec_create(old(self)@, name@, current_dir@, home_dir@).1,
            final(self)@.wf(),
    {
        let ghost old_view = self@;
        match self.find_index(name) {
            Some(_) => Err(ShellError::DuplicateSession),
            None => {
                proof {
                    lemma_find_from_props(old_view.sessions, name@, 0);
                }
                let session = Session::new(name.to_owned(), current_dir, home_dir);
                self.sessions.push(session);
                proof {
                    assert(self@.sessions =~= old_view.sessions.push(
                        spec_fresh_session(name@, current_dir@, home_dir@),
                    ));
                    let ss = self@.sessions;
                    assert forall|i: int, j: int| 0 <= i < j < ss.len() implies ss[i].name
                        != ss[j].name by {
                        if j == ss.len() - 1 {
                            assert(ss[i].name != name@);
                        }
                    }
                    match old_view.active {
                        Some(n) => {
                            lemma_find_from_props(old_view.sessions, n, 0);
                            lemma_find_first(ss, n, spec_find(old_view.sessions, n));
                        },
                        None => {},
                    }
                }
                Ok(())
            },
        }
    }

    /// Make `name` the active session; everything else stays as it was.
    pub fn switch(&mut self, name: &str) -> (r: Result<(), ShellError>)
        requires
            old(self)@.wf(),
        ensures
            final(self)@ == spec_switch(old(self)@, name@).0,
            r == spec_switch(old(self)@, name@).1,
            final(self)@.wf(),
    {
        match self.find_index(name) {
            Some(_) => {
                self.active = Some(name.to_owned());
                Ok(())
            },
            None => Err(ShellError::SessionNotFound),
        }
    }

    /// Remove the session named `name`. Removing the active session clears
    /// the active reference; removing any other leaves it untouched.
    pub fn close(&mut self, name: &str) -> (r: Result<(), ShellError>)
        requires
            old(self)@.wf(),
        ensures
            final(self)@ == spec_close(old(self)@, name@).0,
            r == spec_close(old(self)@, name@).1,
            final(self)@.wf(),
    {
        let ghost old_view = self@;
        match self.find_index(name) {
            Some(i) => {
                proof {
                    lemma_find_from_props(old_view.sessions, name@, 0);
                }
                let _removed = self.sessions.remove(i);
                let was_active = match &self.active {
                    Some(a) => str_eq(a.as_str(), name),
                    None => false,
                };
                if was_active {
                    self.active = None;
                }
                proof {
                    let ss = self@.sessions;
                    assert(ss =~= old_view.sessions.remove(i as int));
                    match self@.active {
                        Some(n) => {
                            lemma_find_from_props(old_view.sessions, n, 0);
                            let k = spec_find(old_view.sessions, n);
                            assert(old_view.sessions[k].name == n);
                            assert(n != name@);
                            let k2 = if k < i as int {
                                k
                            } else {
                                k - 1
                            };
                            assert(ss[k2].name == n);
                            lemma_find_first(ss, n, k2);
                        },
                        None => {},
                    }
                }
                Ok(())
            },
            None => Err(ShellError::SessionNotFound),
        }
    }

    /// Detach the active session to run its prompt loop: the session leaves
    /// the registry and the active reference is cleared, so the registry
    /// invariant holds while the loop owns the session. Returns `None` when
    /// no session is active.
    pub fn take_active(&mut self) -> (r: Option<Session>)
        requires
            old(self)@.wf(),
        ensures
            old(self)@.active is None ==> r is None && final(self)@ == old(self)@,
            old(self)@.active matches Some(n) ==> (r matches Some(s)
                && s@ == old(self)@.sessions[spec_find(old(self)@.sessions, n)]
                && final(self)@.sessions == old(self)@.sessions.remove(
                    spec_find(old(self)@.sessions, n),
                )
                && final(self)@.active is None),
            final(self)@.wf(),
    {
        let name = match &self.active {
            Some(n) => n.clone(),
            None => {
                return None;
            },
        };
        let ghost old_view = self@;
        match self.find_index(name.as_str()) {
            Some(i) => {
                proof {
                    lemma_find_from_props(old_view.sessions, name@, 0);
                }
                let s = self.sessions.remove(i);
                self.active = None;
                proof {
                    assert(self@.sessions =~= old_view.sessions.remove(i as int));
                }
                Some(s)
            },
            None => {
                // unreachable under the invariant: the active name is present
                None
            },
        }
    }

    /// Return a session taken with [`SessionManager::take_active`] to the
    /// registry (and, since it was active when taken, make it active again).
    pub fn restore(&mut self, session: Session) -> (r: Result<(), ShellError>)
        requires
            old(self)@.wf(),
        ensures
            old(self)@.contains_name(session@.name) ==> r == Err::<(), ShellError>(
                ShellError::DuplicateSession,
            ) && final(self)@ == old(self)@,
            !old(self)@.contains_name(session@.name) ==> r == Ok::<(), ShellError>(())
                && final(self)@.sessions == old(self)@.sessions.push(session@)
                && final(self)@.active == Some(session@.name),
            final(self)@.wf(),
    {
        let ghost old_view = self@;
        match self.find_index(session.name.as_str()) {
            Some(_) => Err(ShellError::DuplicateSession),
            None => {
                proof {
                    lemma_find_from_props(old_view.sessions, session@.name, 0);
                }
                let name = session.name.clone();
                let ghost sv = session@;
                self.sessions.push(session);
                self.active = Some(name);
                proof {
                    assert(self@.sessions =~= old_view.sessions.push(sv));
                    let ss = self@.sessions;
                    assert forall|i: int, j: int| 0 <= i < j < ss.len() implies ss[i].name
                        != ss[j].name by {
                        if j == ss.len() - 1 {
                            assert(ss[i].name != sv.name);
                        }
                    }
                    lemma_find_first(ss, sv.name, ss.len() - 1);
                }
                Ok(())
            },
        }
    }

    /// All session names, sorted lexicographically so the report is
    /// deterministic whatever the insertion order was.
    pub fn list(&self) -> (r: Vec<String>)
        ensures
            r@.map_values(|s: String| s@).to_multiset() == self@.sessions.map_values(
                |s: SessionView| s.name,
            ).to_multiset(),
            sorted_lex(r@.map_values(|s: String| s@)),
    {
        let ghost ss = self@.sessions;
        let n = self.sessions.len();
        let mut names: Vec<String> = Vec::new();
        let mut i: usize = 0;
        proof {
            assert(names@.map_values(|s: String| s@) =~= ss.map_values(
                |s: SessionView| s.name,
            ).take(0));
        }
        while i < n
            invariant
                n == ss.len(),
                ss == self@.sessions,
                0 <= i <= n,
                names@.map_values(|s: String| s@) == ss.map_values(|s: SessionView| s.name).take(
                    i as int,
                ),
            decreases n - i,
        {
            let ghost before = names@.map_values(|s: String| s@);
            names.push(self.sessions[i].name.clone());
            proof {
                assert(names@.map_values(|s: String| s@) =~= before.push(ss[i as int].name));
                assert(ss.map_values(|s: SessionView| s.name).take(i as int + 1) =~= before.push(
                    ss[i as int].name,
                ));
            }
            i += 1;
        }
        proof {
            assert(ss.map_values(|s: SessionView| s.name).take(n as int) =~= ss.map_values(
                |s: SessionView| s.name,
            ));
        }
        sort_names(names)
    }
}

/// Sort names lexicographically: the result is ordered and holds exactly
/// the given names, multiplicities included.
pub fn sort_names(v: Vec<String>) -> (r: Vec<String>)
    ensures
        r@.map_values(|s: String| s@).to_multiset() == v@.map_values(|s: String| s@).to_multiset(),
        sorted_lex(r@.map_values(|s: String| s@)),
{
    broadcast use vstd::seq_lib::group_to_multiset_ensures;

    let mut src = v;
    let mut out: Vec<String> = Vec::new();
    proof {
        assert(out@.map_values(|s: String| s@) =~= Seq::<Seq<char>>::empty());
    }
    while src.len() > 0
        invariant
            out@.map_values(|s: String| s@).to_multiset().add(
                src@.map_values(|s: String| s@).to_multiset(),
            ) == v@.map_values(|s: String| s@).to_multiset(),
            sorted_lex(out@.map_values(|s: String| s@)),
            forall|i: int, j: int|
                0 <= i < out@.len() && 0 <= j < src@.len() ==> #[trigger] lex_le(
                    out@[i]@,
                    src@[j]@,
                ),
        decreases src.len(),
    {
        let ghost src_view = src@.map_values(|s: String| s@);
        let ghost out_view = out@.map_values(|s: String| s@);
        // find the least remaining name
        let m = src.len();
        let mut mi: usize = 0;
        let mut j: usize = 1;
        proof {
            lemma_lex_le_total(src_view[0], src_view[0]);
        }
        while j < m
            invariant
                m == src@.len(),
                src_view == src@.map_values(|s: String| s@),
                0 <= mi < m,
                mi < j <= m || (j <= m && mi == 0),
                forall|k: int| 0 <= k < j ==> lex_le(src_view[mi as int], src_view[k]),
            decreases m - j,
        {
            if str_le(src[j].as_str(), src[mi].as_str()) {
                proof {
                    assert forall|k: int| 0 <= k < j + 1 implies lex_le(
                        src_view[j as int],
                        src_view[k],
                    ) by {
                        if k < j {
                            lemma_lex_le_trans(src_view[j as int], src_view[mi as int], src_view[k]);
                        } else {
                            lemma_lex_le_total(src_view[j as int], src_view[j as int]);
                        }
                    }
                }
                mi = j;
            } else {
                proof {
                    lemma_lex_le_total(src_view[j as int], src_view[mi as int]);
                }
            }
            j += 1;
        }
        proof {
            lemma_lex_le_total(src_view[mi as int], src_view[mi as int]);
        }
        let ghost old_out = out@;
        let ghost old_src = src@;
        let picked = src.remove(mi);
        let ghost pv = picked@;
        out.push(picked);
        proof {
            assert(src@.map_values(|s: String| s@) =~= src_view.remove(mi as int));
            assert(out@.map_values(|s: String| s@) =~= out_view.push(pv));
            assert(src_view[mi as int] == pv);
            let new_out = out_view.push(pv);
            let new_src = src_view.remove(mi as int);
            assert(new_out.to_multiset().add(new_src.to_multiset()) =~= out_view.to_multiset().add(
                src_view.to_multiset(),
            )) by {
                out_view.to_multiset_ensures();
                src_view.to_multiset_ensures();
                assert(new_out.to_multiset() =~= out_view.to_multiset().insert(pv));
                assert(new_src.to_multiset() =~= src_view.to_multiset().remove(pv));
                assert(src_view.to_multiset().count(pv) > 0);
            }
            assert forall|i: int, j2: int| 0 <= i < j2 < new_out.len() implies lex_le(
                new_out[i],
                new_out[j2],
            ) by {
                assert(new_out[i] == out_view[i] && out_view[i] == old_out[i]@);
                if j2 < new_out.len() - 1 {
                    assert(lex_le(out_view[i], out_view[j2]));
                } else {
                    assert(lex_le(old_out[i]@, old_src[mi as int]@));
                }
            }
            assert forall|i: int, j2: int|
                0 <= i < out@.len() && 0 <= j2 < src@.len() implies #[trigger] lex_le(
                out@[i]@,
                src@[j2]@,
            ) by {
                let orig = if j2 < mi as int {
                    j2
                } else {
                    j2 + 1
                };
                assert(src@[j2] == old_src[orig]);
                assert(src@[j2]@ == src_view[orig]);
                if i < out@.len() - 1 {
                    assert(out@[i] == old_out[i]);
                    assert(lex_le(old_out[i]@, old_src[orig]@));
                } else {
                    assert(out@[i]@ == pv);
                    assert(lex_le(src_view[mi as int], src_view[orig]));
                }
            }
        }
    }
    proof {
        assert(src@.map_values(|s: String| s@).to_multiset() =~= Multiset::<Seq<char>>::empty()) by {
            assert(src@.map_values(|s: String| s@).len() == 0);
        }
        assert(out@.map_values(|s: String| s@).to_multiset() =~= out@.map_values(
            |s: String| s@,
        ).to_multiset().add(src@.map_values(|s: String| s@).to_multiset()));
    }
    out
}

} // verus!
