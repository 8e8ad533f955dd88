//! Session groups: labelled sessions with an active flag and collected
//! output, and named groups of them (timeouts in milliseconds).
use vstd::prelude::*;
use crate::text::{push_str, str_eq};

verus! {

/// The result of an operation on one session of a group.
#[derive(Debug, Clone)]
pub struct GroupResult {
    /// The session.
    pub session_id: usize,
    /// Whether it succeeded.
    pub success: bool,
    /// Its output.
    pub output: String,
}

/// What a group knows of a session.
#[derive(Debug, Clone)]
struct SessionInfo {
    label: String,
    active: bool,
    output: String,
}

/// The value of a session's entry: its label, whether it is active, its
/// output.
#[verifier::ext_equal]
pub struct SessionView {
    /// The label.
    pub label: Seq<char>,
    /// Whether it is active.
    pub active: bool,
    /// The collected output.
    pub output: Seq<char>,
}

spec fn info_view(i: SessionInfo) -> SessionView {
    SessionView { label: i.label@, active: i.active, output: i.output@ }
}

/// Whether the identifiers of a sequence of entries increase strictly.
pub open spec fn ids_increasing(ids: Seq<usize>) -> bool {
    forall|i: int, j: int| 0 <= i < j < ids.len() ==> ids[i] < ids[j]
}

/// A group of sessions.
#[derive(Debug)]
pub struct SessionGroup {
    name: String,
    sessions: Vec<(usize, SessionInfo)>,
    next_id: usize,
    timeout: u64,
}

impl SessionGroup {
    /// The name.
    pub closed spec fn spec_name(&self) -> Seq<char> {
        self.name@
    }

    /// Calls `f` with the identifier and label of each active session, in the
    /// order they were added.
    pub fn for_each<F>(&self, f: F)
        where
            F: FnMut(usize, &str),
        requires
            forall|id: usize, l: &str| #[trigger] f.requires((id, l)),
    {
        let mut f = f;
        let mut i: usize = 0;
        while i < self.sessions.len()
            invariant
                i <= self.sessions@.len(),
                forall|id: usize, l: &str| #[trigger] f.requires((id, l)),
            decreases self.sessions.len() - i,
        {
            if self.sessions[i].1.active {
                f(self.sessions[i].0, self.sessions[i].1.label.as_str());
            }
            i = i + 1;
        }
    }

    /// The sessions' identifiers, in the order they were added.
    pub closed spec fn spec_ids(&self) -> Seq<usize> {
        self.sessions@.map_values(|e: (usize, SessionInfo)| e.0)
    }

    /// The sessions' entries, in the same order.
    pub closed spec fn spec_infos(&self) -> Seq<SessionView> {
        self.sessions@.map_values(|e: (usize, SessionInfo)| info_view(e.1))
    }

    /// The identifier the next session gets.
    pub closed spec fn spec_next_id(&self) -> usize {
        self.next_id
    }

    /// The timeout.
    pub closed spec fn spec_timeout(&self) -> u64 {
        self.timeout
    }

    /// The map from identifiers to entries.
    pub open spec fn sessions_map(&self) -> Map<usize, SessionView> {
        Map::new(
            |id: usize| self.spec_ids().contains(id),
            |id: usize| self.spec_infos()[self.spec_ids().index_of(id)],
        )
    }

    /// Identifiers increase in the order of addition and lie below the next.
    pub open spec fn wf(&self) -> bool {
        &&& ids_increasing(self.spec_ids())
        &&& forall|i: int| 0 <= i < self.spec_ids().len() ==> #[trigger] self.spec_ids()[i] < self.spec_next_id()
        &&& self.spec_ids().len() == self.spec_infos().len()
    }

    /// An empty group named `name`, with a 30 s timeout.
    pub fn new(name: &str) -> (r: Self)
        ensures
            r.wf(),
            r.spec_name() == name@,
            r.spec_ids().len() == 0,
            r.spec_next_id() == 0,
            r.spec_timeout() == 30_000,
    {
        let r = SessionGroup { name: name.to_owned(), sessions: Vec::new(), next_id: 0, timeout: 30_000 };
        assert(r.spec_ids() =~= Seq::<usize>::empty());
        assert(r.spec_infos() =~= Seq::<SessionView>::empty());
        r
    }

    /// Set the timeout.
    pub fn with_timeout(self, timeout: u64) -> (r: Self)
        requires
            self.wf(),
        ensures
            r.wf(),
            r.spec_timeout() == timeout,
            r.spec_name() == self.spec_name(),
            r.spec_ids() == self.spec_ids(),
            r.spec_infos() == self.spec_infos(),
            r.spec_next_id() == self.spec_next_id(),
    {
        SessionGroup { timeout, ..self }
    }

    /// The name.
    pub fn name(&self) -> (r: &str)
        ensures
            r@ == self.spec_name(),
    {
        self.name.as_str()
    }

    /// Add an active session with no output; its identifier is the next one.
    pub fn add(&mut self, label: &str) -> (r: usize)
        requires
            old(self).wf(),
            old(self).spec_next_id() < usize::MAX,
        ensures
            final(self).wf(),
            r == old(self).spec_next_id(),
            final(self).spec_next_id() == r + 1,
            final(self).spec_ids() == old(self).spec_ids().push(r),
            final(self).spec_infos() == old(self).spec_infos().push(SessionView { label: label@, active: true, output: Seq::empty() }),
            final(self).spec_name() == old(self).spec_name(),
            final(self).spec_timeout() == old(self).spec_timeout(),
    {
        let id = self.next_id;
        self.next_id = self.next_id + 1;
        self.sessions.push((id, SessionInfo { label: label.to_owned(), active: true, output: String::new() }));
        assert(self.spec_ids() =~= old(self).spec_ids().push(id));
        assert(self.spec_infos() =~= old(self).spec_infos().push(SessionView { label: label@, active: true, output: Seq::empty() }));
        id
    }

    /// Identifiers are never reused: every identifier the group has handed
    /// out lies below the next one (`add` hands out the next and raises it by
    /// one; no other operation lowers it), so the next is held by no session
    /// and is larger than any handed out before.
    pub proof fn law_ids_never_reused(&self, handed_out: usize)
        requires
            self.wf(),
            self.spec_ids().contains(handed_out),
        ensures
            handed_out < self.spec_next_id(),
            !self.spec_ids().contains(self.spec_next_id()),
    {
    }

    /// The position of session `id`.
    fn position(&self, id: usize) -> (r: Option<usize>)
        requires
            self.wf(),
        ensures
            match r {
                Some(i) => i < self.spec_ids().len() && self.spec_ids()[i as int] == id,
                None => !self.spec_ids().contains(id),
            },
    {
        let mut i: usize = 0;
        while i < self.sessions.len()
            invariant
                i <= self.spec_ids().len(),
                self.spec_ids().len() == self.sessions@.len(),
                forall|j: int| 0 <= j < i ==> self.spec_ids()[j] != id,
            decreases self.sessions.len() - i,
        {
            if self.sessions[i].0 == id {
                return Some(i);
            }
            i = i + 1;
        }
        None
    }

    /// Remove session `id`.
    pub fn remove(&mut self, id: usize)
        requires
            old(self).wf(),
        ensures
            final(self).wf(),
            final(self).spec_name() == old(self).spec_name(),
            final(self).spec_next_id() == old(self).spec_next_id(),
            final(self).spec_timeout() == old(self).spec_timeout(),
            old(self).spec_ids().contains(id) ==> final(self).spec_ids() == old(self).spec_ids().remove(old(self).spec_ids().index_of(id))
                && final(self).spec_infos() == old(self).spec_infos().remove(old(self).spec_ids().index_of(id)),
            !old(self).spec_ids().contains(id) ==> final(self).spec_ids() == old(self).spec_ids()
                && final(self).spec_infos() == old(self).spec_infos(),
    {
        match self.position(id) {
            Some(i) => {
                proof {
                    lemma_index_of_increasing(old(self).spec_ids(), i as int);
                }
                self.sessions.remove(i);
                assert(self.spec_ids() =~= old(self).spec_ids().remove(i as int));
                assert(self.spec_infos() =~= old(self).spec_infos().remove(i as int));
            },
            None => {},
        }
    }

    /// The number of sessions.
    pub fn len(&self) -> (r: usize)
        ensures
            r == self.spec_ids().len(),
    {
        self.sessions.len()
    }

    /// Whether the group has no session.
    pub fn is_empty(&self) -> (r: bool)
        ensures
            r == (self.spec_ids().len() == 0),
    {
        self.sessions.len() == 0
    }

    /// The number of active sessions.
    pub fn active_count(&self) -> (r: usize)
        ensures
            r == count_active(self.spec_infos()),
    {
        let mut n: usize = 0;
        let mut i: usize = 0;
        while i < self.sessions.len()
            invariant
                i <= self.sessions@.len(),
                self.spec_infos().len() == self.sessions@.len(),
                n == count_active(self.spec_infos().take(i as int)),
                n <= i,
            decreases self.sessions.len() - i,
        {
            proof {
                assert(self.spec_infos().take(i + 1).drop_last() =~= self.spec_infos().take(i as int));
            }
            if self.sessions[i].1.active {
                n = n + 1;
            }
            i = i + 1;
        }
        assert(self.spec_infos().take(i as int) =~= self.spec_infos());
        n
    }

    /// The label of session `id`.
    pub fn label(&self, id: usize) -> (r: Option<&str>)
        requires
            self.wf(),
        ensures
            match r {
                Some(l) => self.sessions_map().contains_key(id) && l@ == self.sessions_map()[id].label,
                None => !self.sessions_map().contains_key(id),
            },
    {
        match self.position(id) {
            Some(i) => {
                proof {
                    lemma_index_of_increasing(self.spec_ids(), i as int);
                }
                Some(self.sessions[i].1.label.as_str())
            },
            None => None,
        }
    }

    /// Change an entry.
    fn set_info(&mut self, i: usize, info: SessionInfo)
        requires
            old(self).wf(),
            i < old(self).spec_ids().len(),
        ensures
            final(self).wf(),
            final(self).spec_ids() == old(self).spec_ids(),
            final(self).spec_infos() == old(self).spec_infos().update(i as int, info_view(info)),
            final(self).spec_name() == old(self).spec_name(),
            final(self).spec_next_id() == old(self).spec_next_id(),
            final(self).spec_timeout() == old(self).spec_timeout(),
    {
        let id = self.sessions[i].0;
        self.sessions.set(i, (id, info));
        assert(self.spec_ids() =~= old(self).spec_ids());
        assert(self.spec_infos() =~= old(self).spec_infos().update(i as int, info_view(info)));
    }

    /// Mark session `id` active or not.
    pub fn set_active(&mut self, id: usize, active: bool)
        requires
            old(self).wf(),
        ensures
            final(self).wf(),
            final(self).spec_ids() == old(self).spec_ids(),
            final(self).spec_name() == old(self).spec_name(),
            final(self).spec_next_id() == old(self).spec_next_id(),
            old(self).spec_ids().contains(id) ==> final(self).spec_infos() == old(self).spec_infos().update(
                old(self).spec_ids().index_of(id),
                SessionView { active, ..old(self).spec_infos()[old(self).spec_ids().index_of(id)] },
            ),
            !old(self).spec_ids().contains(id) ==> final(self).spec_infos() == old(self).spec_infos(),
    {
        match self.position(id) {
            Some(i) => {
                proof {
                    lemma_index_of_increasing(old(self).spec_ids(), i as int);
                }
                let old_info = &self.sessions[i].1;
                let info = SessionInfo { label: old_info.label.clone(), active, output: old_info.output.clone() };
                self.set_info(i, info);
            },
            None => {},
        }
    }

    /// Append to the output of session `id`.
    pub fn append_output(&mut self, id: usize, output: &str)
        requires
            old(self).wf(),
        ensures
            final(self).wf(),
            final(self).spec_ids() == old(self).spec_ids(),
            final(self).spec_name() == old(self).spec_name(),
            final(self).spec_next_id() == old(self).spec_next_id(),
            old(self).spec_ids().contains(id) ==> final(self).spec_infos() == old(self).spec_infos().update(
                old(self).spec_ids().index_of(id),
                SessionView {
                    output: old(self).spec_infos()[old(self).spec_ids().index_of(id)].output + output@,
                    ..old(self).spec_infos()[old(self).spec_ids().index_of(id)]
                },
            ),
            !old(self).spec_ids().contains(id) ==> final(self).spec_infos() == old(self).spec_infos(),
    {
        match self.position(id) {
            Some(i) => {
                proof {
                    lemma_index_of_increasing(old(self).spec_ids(), i as int);
                }
                let old_info = &self.sessions[i].1;
                let mut out = old_info.output.clone();
                push_str(&mut out, output);
                let info = SessionInfo { label: old_info.label.clone(), active: old_info.active, output: out };
                self.set_info(i, info);
            },
            None => {},
        }
    }

    /// The output of session `id`.
    pub fn output(&self, id: usize) -> (r: Option<&str>)
        requires
            self.wf(),
        ensures
            match r {
                Some(o) => self.sessions_map().contains_key(id) && o@ == self.sessions_map()[id].output,
                None => !self.sessions_map().contains_key(id),
            },
    {
        match self.position(id) {
            Some(i) => {
                proof {
                    lemma_index_of_increasing(self.spec_ids(), i as int);
                }
                Some(self.sessions[i].1.output.as_str())
            },
            None => None,
        }
    }

    /// Clear every session's output.
    pub fn clear_output(&mut self)
        requires
            old(self).wf(),
        ensures
            final(self).wf(),
            final(self).spec_ids() == old(self).spec_ids(),
            final(self).spec_name() == old(self).spec_name(),
            final(self).spec_next_id() == old(self).spec_next_id(),
            final(self).spec_infos().len() == old(self).spec_infos().len(),
            forall|i: int| 0 <= i < old(self).spec_infos().len() ==> #[trigger] final(self).spec_infos()[i] == (SessionView {
                output: Seq::empty(),
                ..old(self).spec_infos()[i]
            }),
    {
        let mut i: usize = 0;
        while i < self.sessions.len()
            invariant
                self.wf(),
                i <= self.sessions@.len(),
                self.spec_ids() == old(self).spec_ids(),
                self.spec_name() == old(self).spec_name(),
                self.spec_next_id() == old(self).spec_next_id(),
                self.spec_infos().len() == old(self).spec_infos().len(),
                self.sessions@.len() == old(self).spec_infos().len(),
                forall|j: int| 0 <= j < i ==> #[trigger] self.spec_infos()[j] == (SessionView {
                    output: Seq::empty(),
                    ..old(self).spec_infos()[j]
                }),
                forall|j: int| i <= j < self.spec_infos().len() ==> #[trigger] self.spec_infos()[j] == old(self).spec_infos()[j],
            decreases self.sessions.len() - i,
        {
            let old_info = &self.sessions[i].1;
            let info = SessionInfo { label: old_info.label.clone(), active: old_info.active, output: String::new() };
            proof {
                assert(self.spec_infos()[i as int] == old(self).spec_infos()[i as int]);
                assert(self.spec_infos()[i as int] == info_view(self.sessions@[i as int].1));
                assert(info_view(info) =~= (SessionView { output: Seq::empty(), ..old(self).spec_infos()[i as int] }));
            }
            self.set_info(i, info);
            i = i + 1;
        }
    }

    /// The sessions' identifiers, in the order they were added.
    pub fn session_ids(&self) -> (r: Vec<usize>)
        ensures
            r@ == self.spec_ids(),
    {
        let mut v: Vec<usize> = Vec::new();
        let mut i: usize = 0;
        while i < self.sessions.len()
            invariant
                i <= self.sessions@.len(),
                v@ == self.spec_ids().take(i as int),
            decreases self.sessions.len() - i,
        {
            v.push(self.sessions[i].0);
            i = i + 1;
            assert(v@ =~= self.spec_ids().take(i as int));
        }
        assert(self.spec_ids().take(i as int) =~= self.spec_ids());
        v
    }

    /// The identifiers of the active sessions, in the order they were added.
    pub fn active_ids(&self) -> (r: Vec<usize>)
        ensures
            r@ == active_ids_of(self.spec_ids(), self.spec_infos()),
    {
        let mut v: Vec<usize> = Vec::new();
        let mut i: usize = 0;
        while i < self.sessions.len()
            invariant
                i <= self.sessions@.len(),
                self.spec_ids().len() == self.sessions@.len(),
                self.spec_infos().len() == self.sessions@.len(),
                v@ == active_ids_of(self.spec_ids().take(i as int), self.spec_infos().take(i as int)),
            decreases self.sessions.len() - i,
        {
            proof {
                assert(self.spec_ids().take(i + 1).drop_last() =~= self.spec_ids().take(i as int));
                assert(self.spec_infos().take(i + 1).drop_last() =~= self.spec_infos().take(i as int));
            }
            if self.sessions[i].1.active {
                v.push(self.sessions[i].0);
            }
            i = i + 1;
        }
        assert(self.spec_ids().take(i as int) =~= self.spec_ids());
        assert(self.spec_infos().take(i as int) =~= self.spec_infos());
        v
    }
}

/// How many entries are active.
pub open spec fn count_active(s: Seq<SessionView>) -> nat
    decreases s.len(),
{
    if s.len() == 0 {
        0
    } else {
        count_active(s.drop_last()) + if s.last().active { 1nat } else { 0nat }
    }
}

/// The identifiers of the active entries, in order.
pub open spec fn active_ids_of(ids: Seq<usize>, infos: Seq<SessionView>) -> Seq<usize>
    decreases ids.len(),
{
    if ids.len() == 0 || infos.len() == 0 {
        Seq::empty()
    } else {
        let rest = active_ids_of(ids.drop_last(), infos.drop_last());
        if infos.last().active {
            rest.push(ids.last())
        } else {
            rest
        }
    }
}

/// In a sequence of increasing identifiers, the position of an element is
/// its index.
pub proof fn lemma_index_of_increasing(ids: Seq<usize>, i: int)
    requires
        ids_increasing(ids),
        0 <= i < ids.len(),
    ensures
        ids.contains(ids[i]),
        ids.index_of(ids[i]) == i,
{
    ids.index_of_first_ensures(ids[i]);
    assert(ids.contains(ids[i]));
    let k = ids.index_of(ids[i]);
    if k < i {
        assert(ids[k] < ids[i]);
    }
    if k > i {
        assert(ids[i] < ids[k]);
    }
}

/// Builder for session groups.
#[derive(Debug)]
pub struct GroupBuilder {
    name: String,
    timeout: u64,
    labels: Vec<String>,
}

impl GroupBuilder {
    /// The labels so far.
    pub closed spec fn spec_labels(&self) -> Seq<Seq<char>> {
        self.labels@.map_values(|l: String| l@)
    }

    /// The name.
    pub closed spec fn spec_name(&self) -> Seq<char> {
        self.name@
    }

    /// The timeout.
    pub closed spec fn spec_timeout(&self) -> u64 {
        self.timeout
    }

    /// A builder for a group named `name`, with a 30 s timeout.
    pub fn new(name: &str) -> (r: Self)
        ensures
            r.spec_name() == name@,
            r.spec_timeout() == 30_000,
            r.spec_labels().len() == 0,
    {
        let r = GroupBuilder { name: name.to_owned(), timeout: 30_000, labels: Vec::new() };
        assert(r.spec_labels() =~= Seq::<Seq<char>>::empty());
        r
    }

    /// Set the timeout.
    pub fn timeout(self, timeout: u64) -> (r: Self)
        ensures
            r.spec_timeout() == timeout,
            r.spec_name() == self.spec_name(),
            r.spec_labels() == self.spec_labels(),
    {
        GroupBuilder { timeout, ..self }
    }

    /// Add a session label.
    pub fn add(self, label: &str) -> (r: Self)
        ensures
            r.spec_labels() == self.spec_labels().push(label@),
            r.spec_name() == self.spec_name(),
            r.spec_timeout() == self.spec_timeout(),
    {
        let mut s = self;
        s.labels.push(label.to_owned());
        assert(s.spec_labels() =~= self.spec_labels().push(label@));
        s
    }

    /// The group: one active session per label, numbered from 0 in order.
    pub fn build(self) -> (r: SessionGroup)
        ensures
            r.wf(),
            r.spec_name() == self.spec_name(),
            r.spec_timeout() == self.spec_timeout(),
            r.spec_ids().len() == self.spec_labels().len(),
            forall|i: int| 0 <= i < r.spec_ids().len() ==> #[trigger] r.spec_ids()[i] == i && r.spec_infos()[i] == (SessionView {
                label: self.spec_labels()[i],
                active: true,
                output: Seq::empty(),
            }),
    {
        let mut group = SessionGroup::new(self.name.as_str()).with_timeout(self.timeout);
        let mut i: usize = 0;
        while i < self.labels.len()
            invariant
                group.wf(),
                i <= self.labels@.len(),
                group.spec_name() == self.spec_name(),
                group.spec_timeout() == self.spec_timeout(),
                group.spec_next_id() == i,
                group.spec_ids().len() == i,
                forall|j: int| 0 <= j < i ==> #[trigger] group.spec_ids()[j] == j && group.spec_infos()[j] == (SessionView {
                    label: self.spec_labels()[j],
                    active: true,
                    output: Seq::empty(),
                }),
            decreases self.labels.len() - i,
        {
            let ghost before = group.spec_infos();
            group.add(self.labels[i].as_str());
            proof {
                assert(group.spec_infos()[i as int] =~= (SessionView {
                    label: self.spec_labels()[i as int],
                    active: true,
                    output: Seq::empty(),
                }));
                assert forall|j: int| 0 <= j < i + 1 implies #[trigger] group.spec_ids()[j] == j && group.spec_infos()[j] == (SessionView {
                    label: self.spec_labels()[j],
                    active: true,
                    output: Seq::empty(),
                }) by {
                    if j < i {
                        assert(group.spec_infos()[j] == before[j]);
                    }
                }
            }
            i = i + 1;
        }
        assert(group.spec_ids().len() == self.spec_labels().len());
        assert forall|k: int| 0 <= k < group.spec_ids().len() implies #[trigger] group.spec_ids()[k] == k
            && group.spec_infos()[k] == (SessionView { label: self.spec_labels()[k], active: true, output: Seq::empty() }) by {
            assert(group.spec_ids()[k] == k);
        }
        group
    }
}

/// Named groups of sessions.
#[derive(Debug)]
pub struct GroupManager {
    groups: Vec<SessionGroup>,
}

impl GroupManager {
    /// The groups, in the order they were created.
    pub closed spec fn spec_groups(&self) -> Seq<SessionGroup> {
        self.groups@
    }

    /// Names are distinct and every group is well formed.
    pub open spec fn wf(&self) -> bool {
        &&& forall|i: int, j: int| 0 <= i < j < self.spec_groups().len()
            ==> (#[trigger] self.spec_groups()[i]).spec_name() != (#[trigger] self.spec_groups()[j]).spec_name()
        &&& forall|i: int| 0 <= i < self.spec_groups().len() ==> (#[trigger] self.spec_groups()[i]).wf()
    }

    /// No group.
    pub fn new() -> (r: Self)
        ensures
            r.wf(),
            r.spec_groups().len() == 0,
    {
        GroupManager { groups: Vec::new() }
    }

    /// The position of the group named `name`.
    fn position(&self, name: &str) -> (r: Option<usize>)
        ensures
            match r {
                Some(i) => i < self.spec_groups().len() && self.spec_groups()[i as int].spec_name() == name@,
                None => forall|i: int| 0 <= i < self.spec_groups().len() ==> (#[trigger] self.spec_groups()[i]).spec_name() != name@,
            },
    {
        let mut i: usize = 0;
        while i < self.groups.len()
            invariant
                i <= self.groups@.len(),
                forall|j: int| 0 <= j < i ==> (#[trigger] self.spec_groups()[j]).spec_name() != name@,
            decreases self.groups.len() - i,
        {
            if str_eq(self.groups[i].name(), name) {
                return Some(i);
            }
            i = i + 1;
        }
        None
    }

    /// The group named `name`, created empty if there is none.
    pub fn create(&mut self, name: &str) -> (r: &mut SessionGroup)
        requires
            old(self).wf(),
        ensures
            (*r).spec_name() == name@,
            (*r).wf(),
            (exists|i: int| 0 <= i < old(self).spec_groups().len() && (#[trigger] old(self).spec_groups()[i]).spec_name() == name@)
                ==> exists|i: int| 0 <= i < old(self).spec_groups().len() && *r == old(self).spec_groups()[i]
                && final(self).spec_groups() == old(self).spec_groups().update(i, *final(r)),
            !(exists|i: int| 0 <= i < old(self).spec_groups().len() && (#[trigger] old(self).spec_groups()[i]).spec_name() == name@)
                ==> (*r).spec_ids().len() == 0 && (*r).spec_next_id() == 0 && (*r).spec_timeout() == 30_000
                && final(self).spec_groups() == old(self).spec_groups().push(*final(r)),
    {
        let i = match self.position(name) {
            Some(i) => i,
            None => {
                self.groups.push(SessionGroup::new(name));
                self.groups.len() - 1
            },
        };
        &mut self.groups[i]
    }

    /// The group named `name`.
    pub fn get(&self, name: &str) -> (r: Option<&SessionGroup>)
        ensures
            match r {
                Some(g) => g.spec_name() == name@ && exists|i: int| 0 <= i < self.spec_groups().len() && *g == self.spec_groups()[i],
                None => forall|i: int| 0 <= i < self.spec_groups().len() ==> (#[trigger] self.spec_groups()[i]).spec_name() != name@,
            },
    {
        match self.position(name) {
            Some(i) => Some(&self.groups[i]),
            None => None,
        }
    }

    /// The group named `name`, to change.
    pub fn get_mut(&mut self, name: &str) -> (r: Option<&mut SessionGroup>)
        ensures
            match r {
                Some(g) => (*g).spec_name() == name@ && exists|i: int| 0 <= i < old(self).spec_groups().len()
                    && *g == old(self).spec_groups()[i]
                    && final(self).spec_groups() == old(self).spec_groups().update(i, *final(g)),
                None => *final(self) == *old(self) && forall|i: int| 0 <= i < old(self).spec_groups().len()
                    ==> (#[trigger] old(self).spec_groups()[i]).spec_name() != name@,
            },
    {
        match self.position(name) {
            Some(i) => Some(&mut self.groups[i]),
            None => None,
        }
    }

    /// Remove the group named `name`.
    pub fn remove(&mut self, name: &str) -> (r: Option<SessionGroup>)
        requires
            old(self).wf(),
        ensures
            final(self).wf(),
            match r {
                Some(g) => g.spec_name() == name@ && exists|i: int| 0 <= i < old(self).spec_groups().len()
                    && g == old(self).spec_groups()[i]
                    && final(self).spec_groups() == old(self).spec_groups().remove(i),
                None => final(self).spec_groups() == old(self).spec_groups()
                    && forall|i: int| 0 <= i < old(self).spec_groups().len() ==> (#[trigger] old(self).spec_groups()[i]).spec_name() != name@,
            },
    {
        match self.position(name) {
            Some(i) => {
                let g = self.groups.remove(i);
                proof {
                    assert forall|a: int, b: int| 0 <= a < b < self.spec_groups().len()
                        implies (#[trigger] self.spec_groups()[a]).spec_name() != (#[trigger] self.spec_groups()[b]).spec_name() by {
                        let a0 = if a < i { a } else { a + 1 };
                        let b0 = if b < i { b } else { b + 1 };
                        assert(self.spec_groups()[a] == old(self).spec_groups()[a0]);
                        assert(self.spec_groups()[b] == old(self).spec_groups()[b0]);
                    }
                    assert forall|a: int| 0 <= a < self.spec_groups().len() implies (#[trigger] self.spec_groups()[a]).wf() by {
                        let a0 = if a < i { a } else { a + 1 };
                        assert(self.spec_groups()[a] == old(self).spec_groups()[a0]);
                    }
                }
                Some(g)
            },
            None => None,
        }
    }

    /// The groups' names, in the order they were created.
    pub fn names(&self) -> (r: Vec<&str>)
        ensures
            r@.len() == self.spec_groups().len(),
            forall|i: int| 0 <= i < r@.len() ==> (#[trigger] r@[i])@ == self.spec_groups()[i].spec_name(),
    {
        let mut v: Vec<&str> = Vec::new();
        let mut i: usize = 0;
        while i < self.groups.len()
            invariant
                i <= self.groups@.len(),
                v@.len() == i,
                forall|j: int| 0 <= j < i ==> (#[trigger] v@[j])@ == self.spec_groups()[j].spec_name(),
            decreases self.groups.len() - i,
        {
            v.push(self.groups[i].name());
            i = i + 1;
        }
        v
    }

    /// The number of sessions in all groups.
    pub fn total_sessions(&self) -> (r: usize)
        requires
            total_len(self.spec_groups()) <= usize::MAX,
        ensures
            r == total_len(self.spec_groups()),
    {
        let mut n: usize = 0;
        let mut i: usize = 0;
        while i < self.groups.len()
            invariant
                i <= self.groups@.len(),
                total_len(self.spec_groups()) <= usize::MAX,
                n == total_len(self.spec_groups().take(i as int)),
            decreases self.groups.len() - i,
        {
            proof {
                assert(self.spec_groups().take(i + 1).drop_last() =~= self.spec_groups().take(i as int));
                lemma_total_len_prefix(self.spec_groups(), i + 1);
            }
            n = n + self.groups[i].len();
            i = i + 1;
        }
        assert(self.spec_groups().take(i as int) =~= self.spec_groups());
        n
    }
}

/// The number of sessions in a sequence of groups.
pub open spec fn total_len(gs: Seq<SessionGroup>) -> nat
    decreases gs.len(),
{
    if gs.len() == 0 {
        0
    } else {
        total_len(gs.drop_last()) + gs.last().spec_ids().len()
    }
}

/// A prefix holds no more sessions than the whole.
pub proof fn lemma_total_len_prefix(gs: Seq<SessionGroup>, k: int)
    requires
        0 <= k <= gs.len(),
    ensures
        total_len(gs.take(k)) <= total_len(gs),
    decreases gs.len(),
{
    if k < gs.len() {
        assert(gs.drop_last().take(k) =~= gs.take(k));
        lemma_total_len_prefix(gs.drop_last(), k);
    } else {
        assert(gs.take(k) =~= gs);
    }
}

} // verus!
