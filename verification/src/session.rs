//! Simple session management: sessions with plain messages, kept in
//! memory by id. Each session is saved as `<id>.json` in the storage
//! directory; reading and writing those files belong to the program around
//! the library, which saves a session after every change to it.

use vstd::prelude::*;
use crate::ids::{fresh_id, now_millis};
use crate::text::{owned, push_str, str_eq};

verus! {

/// A message of a simple session.
#[derive(Debug)]
pub struct Message {
    pub id: String,
    /// "user" | "assistant" | "tool"
    pub role: String,
    pub content: String,
    pub timestamp: i64,
}

/// A simple session.
#[derive(Debug)]
pub struct Session {
    pub id: String,
    pub created_at: i64,
    pub updated_at: i64,
    pub messages: Vec<Message>,
}

pub struct MessageView {
    pub id: Seq<char>,
    pub role: Seq<char>,
    pub content: Seq<char>,
    pub timestamp: i64,
}

pub struct SessionView {
    pub id: Seq<char>,
    pub created_at: i64,
    pub updated_at: i64,
    pub messages: Seq<MessageView>,
}

impl View for Message {
    type V = MessageView;

    open spec fn view(&self) -> MessageView {
        MessageView { id: self.id@, role: self.role@, content: self.content@, timestamp: self.timestamp }
    }
}

pub open spec fn message_views(v: Seq<Message>) -> Seq<MessageView> {
    v.map_values(|m: Message| m@)
}

impl View for Session {
    type V = SessionView;

    open spec fn view(&self) -> SessionView {
        SessionView {
            id: self.id@,
            created_at: self.created_at,
            updated_at: self.updated_at,
            messages: message_views(self.messages@),
        }
    }
}

pub open spec fn session_views(v: Seq<Session>) -> Seq<SessionView> {
    v.map_values(|s: Session| s@)
}

impl Message {
    pub fn duplicate(&self) -> (r: Message)
        ensures
            r@ == self@,
    {
        Message { id: self.id.clone(), role: self.role.clone(), content: self.content.clone(), timestamp: self.timestamp }
    }
}

impl Session {
    pub fn duplicate(&self) -> (r: Session)
        ensures
            r@ == self@,
    {
        let mut messages: Vec<Message> = Vec::new();
        let mut i: usize = 0;
        while i < self.messages.len()
            invariant
                i <= self.messages@.len(),
                messages@.len() == i,
                message_views(messages@) == message_views(self.messages@).take(i as int),
            decreases self.messages@.len() - i,
        {
            let m = self.messages[i].duplicate();
            let ghost before = messages@;
            messages.push(m);
            assert(messages@ == before.push(m));
            assert(message_views(messages@) =~= message_views(self.messages@).take(i + 1));
            i += 1;
        }
        assert(message_views(self.messages@).take(self.messages@.len() as int) =~= message_views(self.messages@));
        Session { id: self.id.clone(), created_at: self.created_at, updated_at: self.updated_at, messages }
    }
}

/// The sessions of a list, by id (later entries win).
pub open spec fn by_id(v: Seq<SessionView>) -> Map<Seq<char>, SessionView>
    decreases v.len(),
{
    if v.len() == 0 {
        Map::empty()
    } else {
        by_id(v.drop_last()).insert(v.last().id, v.last())
    }
}

pub open spec fn distinct_ids(v: Seq<SessionView>) -> bool {
    forall|i: int, j: int| 0 <= i < j < v.len() ==> v[i].id != v[j].id
}

proof fn lemma_by_id_keys(v: Seq<SessionView>, k: Seq<char>)
    ensures
        by_id(v).contains_key(k) <==> exists|i: int| 0 <= i < v.len() && v[i].id == k,
    decreases v.len(),
{
    if v.len() > 0 {
        lemma_by_id_keys(v.drop_last(), k);
        if by_id(v.drop_last()).contains_key(k) {
            let i = choose|i: int| 0 <= i < v.drop_last().len() && v.drop_last()[i].id == k;
            assert(v[i].id == k);
        }
        if exists|i: int| 0 <= i < v.len() && v[i].id == k {
            let i = choose|i: int| 0 <= i < v.len() && v[i].id == k;
            if i < v.len() - 1 {
                assert(v.drop_last()[i].id == k);
            }
        }
    }
}

proof fn lemma_by_id_value(v: Seq<SessionView>, i: int)
    requires
        distinct_ids(v),
        0 <= i < v.len(),
    ensures
        by_id(v).contains_key(v[i].id),
        by_id(v)[v[i].id] == v[i],
    decreases v.len(),
{
    if i < v.len() - 1 {
        assert(v.drop_last()[i] == v[i]);
        lemma_by_id_value(v.drop_last(), i);
    }
}

proof fn lemma_by_id_update(v: Seq<SessionView>, i: int, s: SessionView)
    requires
        distinct_ids(v),
        0 <= i < v.len(),
        v[i].id == s.id,
    ensures
        distinct_ids(v.update(i, s)),
        by_id(v.update(i, s)) == by_id(v).insert(s.id, s),
{
    let w = v.update(i, s);
    assert forall|a: int, b: int| 0 <= a < b < w.len() implies w[a].id != w[b].id by {
        assert(w[a].id == v[a].id);
        assert(w[b].id == v[b].id);
    }
    assert forall|k: Seq<char>| #[trigger] by_id(w).contains_key(k) <==> by_id(v).insert(s.id, s).contains_key(k) by {
        lemma_by_id_keys(w, k);
        lemma_by_id_keys(v, k);
        if exists|j: int| 0 <= j < v.len() && v[j].id == k {
            let j = choose|j: int| 0 <= j < v.len() && v[j].id == k;
            assert(w[j].id == k);
        }
        if exists|j: int| 0 <= j < w.len() && w[j].id == k {
            let j = choose|j: int| 0 <= j < w.len() && w[j].id == k;
            assert(v[j].id == k);
        }
    }
    assert forall|k: Seq<char>| #[trigger] by_id(w).contains_key(k) implies by_id(w)[k] == by_id(v).insert(s.id, s)[k] by {
        lemma_by_id_keys(w, k);
        let j = choose|j: int| 0 <= j < w.len() && w[j].id == k;
        lemma_by_id_value(w, j);
        if j != i {
            lemma_by_id_value(v, j);
        }
    }
    assert(by_id(w) =~= by_id(v).insert(s.id, s));
}

proof fn lemma_by_id_push(v: Seq<SessionView>, s: SessionView)
    requires
        distinct_ids(v),
        !by_id(v).contains_key(s.id),
    ensures
        distinct_ids(v.push(s)),
        by_id(v.push(s)) == by_id(v).insert(s.id, s),
{
    let w = v.push(s);
    assert(w.drop_last() =~= v);
    assert forall|a: int, b: int| 0 <= a < b < w.len() implies w[a].id != w[b].id by {
        if b == v.len() {
            lemma_by_id_keys(v, s.id);
            assert(v[a].id == w[a].id);
        } else {
            assert(w[a] == v[a]);
            assert(w[b] == v[b]);
        }
    }
}

/// Most recently updated first.
pub open spec fn newest_first(v: Seq<SessionView>) -> bool {
    forall|i: int, j: int| 0 <= i < j < v.len() ==> v[i].updated_at >= v[j].updated_at
}

/// `v` lists the sessions of `m`, each once.
pub open spec fn lists(m: Map<Seq<char>, SessionView>, v: Seq<SessionView>) -> bool {
    &&& forall|i: int| 0 <= i < v.len() ==> m.contains_key(#[trigger] v[i].id) && m[v[i].id] == v[i]
    &&& forall|k: Seq<char>| #[trigger] m.contains_key(k) ==> exists|i: int| 0 <= i < v.len() && v[i].id == k
    &&& distinct_ids(v)
}

/// Sessions by id, with the directory they are saved in.
pub struct SessionManager {
    sessions: Vec<Session>,
    storage_path: String,
}

impl SessionManager {
    /// The sessions held, by id.
    pub closed spec fn sessions(&self) -> Map<Seq<char>, SessionView> {
        by_id(session_views(self.sessions@))
    }

    pub closed spec fn wf(&self) -> bool {
        distinct_ids(session_views(self.sessions@))
    }

    pub closed spec fn storage(&self) -> Seq<char> {
        self.storage_path@
    }

    /// A manager with no sessions yet, saving into `storage_path`.
    pub fn new(storage_path: String) -> (r: SessionManager)
        ensures
            r.wf(),
            r.sessions() == Map::<Seq<char>, SessionView>::empty(),
            r.storage() == storage_path@,
    {
        let r = SessionManager { sessions: Vec::new(), storage_path };
        assert(session_views(r.sessions@) =~= Seq::<SessionView>::empty());
        r
    }

    /// The directory sessions are saved in.
    pub fn storage_path(&self) -> (r: &str)
        ensures
            r@ == self.storage(),
    {
        self.storage_path.as_str()
    }

    fn position(&self, id: &str) -> (r: Option<usize>)
        requires
            self.wf(),
        ensures
            match r {
                Some(i) => i < self.sessions@.len() && self.sessions@[i as int].id@ == id@,
                None => !self.sessions().contains_key(id@),
            },
    {
        let mut i: usize = 0;
        while i < self.sessions.len()
            invariant
                i <= self.sessions@.len(),
                forall|j: int| 0 <= j < i ==> self.sessions@[j].id@ != id@,
            decreases self.sessions@.len() - i,
        {
            if str_eq(self.sessions[i].id.as_str(), id) {
                return Some(i);
            }
            i += 1;
        }
        proof {
            lemma_by_id_keys(session_views(self.sessions@), id@);
            if exists|j: int| 0 <= j < self.sessions@.len() && session_views(self.sessions@)[j].id == id@ {
                let j = choose|j: int| 0 <= j < self.sessions@.len() && session_views(self.sessions@)[j].id == id@;
                assert(self.sessions@[j].id@ == id@);
            }
        }
        None
    }

    /// Keep `s` under its id, replacing any session with that id.
    pub fn put(&mut self, s: Session)
        requires
            old(self).wf(),
        ensures
            final(self).wf(),
            final(self).storage() == old(self).storage(),
            final(self).sessions() == old(self).sessions().insert(s@.id, s@),
    {
        let ghost before = session_views(self.sessions@);
        let ghost sv = s@;
        match self.position(s.id.as_str()) {
            Some(i) => {
                self.sessions.set(i, s);
                proof {
                    assert(session_views(self.sessions@) =~= before.update(i as int, sv));
                    lemma_by_id_update(before, i as int, sv);
                }
            },
            None => {
                self.sessions.push(s);
                proof {
                    assert(session_views(self.sessions@) =~= before.push(sv));
                    lemma_by_id_push(before, sv);
                }
            },
        }
    }

    /// Take in the sessions read from the storage directory; of two with
    /// the same id, the later one stays.
    pub fn load(&mut self, found: Vec<Session>)
        requires
            old(self).wf(),
        ensures
            final(self).wf(),
            final(self).storage() == old(self).storage(),
            final(self).sessions() == old(self).sessions().union_prefer_right(by_id(session_views(found@))),
    {
        let ghost all = session_views(found@);
        let ghost start = self.sessions();
        let mut rest = found;
        let ghost mut done: Seq<SessionView> = Seq::empty();
        assert(all =~= done + session_views(rest@));
        assert(start.union_prefer_right(by_id(done)) =~= start);
        while rest.len() > 0
            invariant
                self.wf(),
                self.storage() == old(self).storage(),
                start == old(self).sessions(),
                all == done + session_views(rest@),
                self.sessions() == start.union_prefer_right(by_id(done)),
            decreases rest@.len(),
        {
            let ghost before_rest = rest@;
            let s = rest.remove(0);
            let ghost sv = s@;
            assert(session_views(before_rest) =~= seq![sv] + session_views(rest@));
            self.put(s);
            proof {
                let nd = done.push(sv);
                assert(nd.drop_last() =~= done);
                assert(start.union_prefer_right(by_id(nd)) =~= start.union_prefer_right(by_id(done)).insert(sv.id, sv));
                done = nd;
                assert(all =~= done + session_views(rest@));
            }
        }
        assert(done =~= all);
    }

    /// Create an empty session with a fresh id, stamped now; hands back a
    /// copy (to be saved).
    pub fn create_session(&mut self) -> (r: Session)
        requires
            old(self).wf(),
        ensures
            final(self).wf(),
            final(self).storage() == old(self).storage(),
            r@.created_at == r@.updated_at,
            r@.messages.len() == 0,
            final(self).sessions() == old(self).sessions().insert(r@.id, r@),
    {
        let now = now_millis();
        let session = Session { id: fresh_id(), created_at: now, updated_at: now, messages: Vec::new() };
        assert(session@.messages =~= Seq::<MessageView>::empty());
        let copy = session.duplicate();
        self.put(session);
        copy
    }

    /// The session with id `id`, copied.
    pub fn get_session(&self, id: &str) -> (r: Option<Session>)
        requires
            self.wf(),
        ensures
            match r {
                Some(s) => self.sessions().contains_key(id@) && s@ == self.sessions()[id@],
                None => !self.sessions().contains_key(id@),
            },
    {
        match self.position(id) {
            Some(i) => {
                proof {
                    lemma_by_id_value(session_views(self.sessions@), i as int);
                }
                Some(self.sessions[i].duplicate())
            },
            None => None,
        }
    }

    /// Append a message stamped now to a session, whose update time
    /// becomes now; `None` (and no change) when there is no such session.
    pub fn add_message(&mut self, session_id: &str, role: &str, content: &str) -> (r: Option<Message>)
        requires
            old(self).wf(),
        ensures
            final(self).wf(),
            final(self).storage() == old(self).storage(),
            !old(self).sessions().contains_key(session_id@) ==> r is None && final(self).sessions() == old(self).sessions(),
            old(self).sessions().contains_key(session_id@) ==> (r matches Some(m) && m@.role == role@ && m@.content
                == content@ && exists|t: i64|
                final(self).sessions() == old(self).sessions().insert(
                    session_id@,
                    #[trigger] appended(old(self).sessions()[session_id@], m@, t),
                )),
    {
        let i = match self.position(session_id) {
            Some(i) => i,
            None => return None,
        };
        proof {
            lemma_by_id_value(session_views(self.sessions@), i as int);
        }
        let message = Message {
            id: fresh_id(),
            role: owned(role),
            content: owned(content),
            timestamp: now_millis(),
        };
        let mut s = self.sessions[i].duplicate();
        let ghost old_s = s@;
        let copy = message.duplicate();
        let ghost mv = message@;
        s.messages.push(message);
        assert(message_views(s.messages@) =~= old_s.messages.push(mv));
        s.updated_at = now_millis();
        let ghost t = s.updated_at;
        assert(s@ == appended(old_s, mv, t));
        proof {
            assert(session_views(self.sessions@)[i as int] == old_s);
            assert(old_s.id == session_id@);
        }
        let ghost before = self.sessions();
        self.put(s);
        assert(self.sessions() == before.insert(session_id@, appended(before[session_id@], copy@, t)));
        Some(copy)
    }
}

/// A session with one more message, updated at `t`.
pub open spec fn appended(s: SessionView, m: MessageView, t: i64) -> SessionView {
    SessionView { updated_at: t, messages: s.messages.push(m), ..s }
}

/// `s` placed just after the sessions updated at least as recently.
fn insert_newest_first(v: &mut Vec<Session>, s: Session)
    requires
        newest_first(session_views(old(v)@)),
    ensures
        newest_first(session_views(final(v)@)),
        exists|p: int| 0 <= p <= old(v)@.len() && session_views(final(v)@) == session_views(old(v)@).insert(p, s@),
{
    let ghost before = session_views(v@);
    let mut p: usize = 0;
    while p < v.len() && v[p].updated_at >= s.updated_at
        invariant
            p <= v@.len(),
            before == session_views(v@),
            forall|j: int| 0 <= j < p ==> before[j].updated_at >= s.updated_at,
        decreases v@.len() - p,
    {
        p += 1;
    }
    let ghost sv = s@;
    v.insert(p, s);
    let ghost w = session_views(v@);
    assert(w =~= before.insert(p as int, sv));
    assert forall|i: int, j: int| 0 <= i < j < w.len() implies w[i].updated_at >= w[j].updated_at by {
        if j < p {
            assert(w[i] == before[i] && w[j] == before[j]);
        } else if j == p {
            assert(w[i] == before[i]);
        } else if i < p {
            assert(w[i] == before[i] && w[j] == before[j - 1]);
        } else if i == p {
            assert(w[j] == before[j - 1]);
            assert(before[p as int].updated_at >= before[j - 1].updated_at);
        } else {
            assert(w[i] == before[i - 1] && w[j] == before[j - 1]);
        }
    }
}

/// `out` holds, in some order, exactly the first `k` entries of `cv`.
pub open spec fn holds_prefix(out: Seq<SessionView>, cv: Seq<SessionView>, k: int) -> bool {
    &&& out.len() == k
    &&& forall|j: int| #![trigger cv[j]] 0 <= j < k ==> exists|a: int| 0 <= a < k && out[a] == cv[j]
    &&& forall|a: int| #![trigger out[a]] 0 <= a < k ==> exists|j: int| 0 <= j < k && out[a] == cv[j]
    &&& distinct_ids(out)
}

proof fn lemma_holds_prefix_next(before: Seq<SessionView>, cv: Seq<SessionView>, k: int, p: int)
    requires
        0 <= k < cv.len(),
        distinct_ids(cv),
        holds_prefix(before, cv, k),
        0 <= p <= before.len(),
    ensures
        holds_prefix(before.insert(p, cv[k]), cv, k + 1),
{
    lemma_prefix_covers(before, cv, k, p);
    lemma_prefix_from(before, cv, k, p);
    lemma_prefix_distinct(before, cv, k, p);
}

proof fn lemma_prefix_covers(before: Seq<SessionView>, cv: Seq<SessionView>, k: int, p: int)
    requires
        0 <= k < cv.len(),
        holds_prefix(before, cv, k),
        0 <= p <= before.len(),
    ensures
        forall|j: int| #![trigger cv[j]] 0 <= j < k + 1 ==> exists|a: int| 0 <= a < k + 1 && before.insert(p, cv[k])[a] == cv[j],
{
    let w = before.insert(p, cv[k]);
    assert forall|j: int| #![trigger cv[j]] 0 <= j < k + 1 implies exists|a: int| 0 <= a < k + 1 && w[a] == cv[j] by {
        if j == k {
            assert(w[p] == cv[j]);
        } else {
            let a = choose|a: int| 0 <= a < k && before[a] == cv[j];
            if a < p {
                assert(w[a] == cv[j]);
            } else {
                assert(w[a + 1] == cv[j]);
            }
        }
    }
}

proof fn lemma_prefix_from(before: Seq<SessionView>, cv: Seq<SessionView>, k: int, p: int)
    requires
        0 <= k < cv.len(),
        holds_prefix(before, cv, k),
        0 <= p <= before.len(),
    ensures
        forall|a: int| #![trigger before.insert(p, cv[k])[a]] 0 <= a < k + 1 ==> exists|j: int| 0 <= j < k + 1 && before.insert(p, cv[k])[a] == cv[j],
{
    let w = before.insert(p, cv[k]);
    assert forall|a: int| #![trigger w[a]] 0 <= a < k + 1 implies exists|j: int| 0 <= j < k + 1 && w[a] == cv[j] by {
        if a == p {
            assert(w[a] == cv[k]);
        } else if a < p {
            assert(w[a] == before[a]);
        } else {
            assert(w[a] == before[a - 1]);
        }
    }
}

proof fn lemma_prefix_distinct(before: Seq<SessionView>, cv: Seq<SessionView>, k: int, p: int)
    requires
        0 <= k < cv.len(),
        distinct_ids(cv),
        holds_prefix(before, cv, k),
        0 <= p <= before.len(),
    ensures
        distinct_ids(before.insert(p, cv[k])),
{
    let w = before.insert(p, cv[k]);
    assert forall|a: int, b: int| 0 <= a < b < w.len() implies w[a].id != w[b].id by {
        if a != p && b != p {
            let a2 = if a < p { a } else { a - 1 };
            let b2 = if b < p { b } else { b - 1 };
            assert(before[a2] == w[a]);
            assert(before[b2] == w[b]);
        } else if a == p {
            let b2 = if b < p { b } else { b - 1 };
            assert(before[b2] == w[b]);
            let jj = choose|j: int| 0 <= j < k && before[b2] == cv[j];
            assert(cv[jj].id != cv[k].id);
        } else {
            let a2 = if a < p { a } else { a - 1 };
            assert(before[a2] == w[a]);
            let jj = choose|j: int| 0 <= j < k && before[a2] == cv[j];
            assert(cv[jj].id != cv[k].id);
        }
    }
}

impl SessionManager {
    /// Every session, most recently updated first.
    pub fn list_sessions(&self) -> (r: Vec<Session>)
        requires
            self.wf(),
        ensures
            newest_first(session_views(r@)),
            lists(self.sessions(), session_views(r@)),
    {
        let ghost cv = session_views(self.sessions@);
        let mut out: Vec<Session> = Vec::new();
        let mut k: usize = 0;
        assert(session_views(out@) =~= Seq::<SessionView>::empty());
        while k < self.sessions.len()
            invariant
                k <= self.sessions@.len(),
                cv == session_views(self.sessions@),
                distinct_ids(cv),
                newest_first(session_views(out@)),
                holds_prefix(session_views(out@), cv, k as int),
            decreases self.sessions@.len() - k,
        {
            let ghost before = session_views(out@);
            let s = self.sessions[k].duplicate();
            insert_newest_first(&mut out, s);
            proof {
                let p = choose|p: int| 0 <= p <= before.len() && session_views(out@) == before.insert(p, cv[k as int]);
                lemma_holds_prefix_next(before, cv, k as int, p);
            }
            k += 1;
        }
        proof {
            let w = session_views(out@);
            assert forall|i: int| 0 <= i < w.len() implies self.sessions().contains_key(#[trigger] w[i].id)
                && self.sessions()[w[i].id] == w[i] by {
                let j = choose|j: int| 0 <= j < k && w[i] == cv[j];
                lemma_by_id_value(cv, j);
            }
            assert forall|key: Seq<char>| #[trigger] self.sessions().contains_key(key) implies exists|i: int|
                0 <= i < w.len() && w[i].id == key by {
                lemma_by_id_keys(cv, key);
                let j = choose|j: int| 0 <= j < cv.len() && cv[j].id == key;
                let a = choose|a: int| 0 <= a < k && w[a] == cv[j];
                assert(w[a].id == key);
            }
        }
        out
    }
}

/// The file a session is saved in: `<id>.json`.
pub fn session_file_name(id: &str) -> (r: String)
    ensures
        r@ == id@ + ".json"@,
{
    let mut s = owned(id);
    push_str(&mut s, ".json");
    s
}

} // verus!
