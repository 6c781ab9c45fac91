//! The in-memory side of the append-only JSONL session store: one `.jsonl`
//! file per session, mirrored by a cache of sessions. Writing and reading
//! the files is left to the caller; this type keeps the cache and decides
//! what each operation does to it.

use vstd::prelude::*;
use crate::store::{Message, MessageView, Session, SessionView, session_views, message_views};
use crate::store::store_trait::{
    SessionStore, StoreError, store_create, store_add_message, store_delete, store_update_compaction,
    sorted_by_update, lists_all, opt_session_view, with_message, title_after,
};
use crate::text::{owned, push_str, str_eq, take_chars};

verus! {

/// The sessions of a cache, by id (later entries win).
pub open spec fn cache_map(v: Seq<SessionView>) -> Map<Seq<char>, SessionView>
    decreases v.len(),
{
    if v.len() == 0 {
        Map::empty()
    } else {
        cache_map(v.drop_last()).insert(v.last().id, v.last())
    }
}

/// No two sessions share an id.
pub open spec fn unique_ids(v: Seq<SessionView>) -> bool {
    forall|i: int, j: int| 0 <= i < j < v.len() ==> v[i].id != v[j].id
}

pub proof fn lemma_cache_keys(v: Seq<SessionView>, k: Seq<char>)
    ensures
        cache_map(v).contains_key(k) <==> exists|i: int| 0 <= i < v.len() && v[i].id == k,
    decreases v.len(),
{
    if v.len() > 0 {
        lemma_cache_keys(v.drop_last(), k);
        if cache_map(v.drop_last()).contains_key(k) {
            let i = choose|i: int| 0 <= i < v.drop_last().len() && v.drop_last()[i].id == k;
            assert(v[i].id == k);
        }
        if exists|i: int| 0 <= i < v.len() && v[i].id == k {
            let i = choose|i: int| 0 <= i < v.len() && v[i].id == k;
            if i < v.len() - 1 {
                assert(v.drop_last()[i].id == k);
            }
        }
    }
}

pub proof fn lemma_cache_value(v: Seq<SessionView>, i: int)
    requires
        unique_ids(v),
        0 <= i < v.len(),
    ensures
        cache_map(v).contains_key(v[i].id),
        cache_map(v)[v[i].id] == v[i],
    decreases v.len(),
{
    if i < v.len() - 1 {
        assert(v.drop_last()[i] == v[i]);
        lemma_cache_value(v.drop_last(), i);
        assert(v[i].id != v.last().id);
    }
}

pub proof fn lemma_cache_update(v: Seq<SessionView>, i: int, s: SessionView)
    requires
        unique_ids(v),
        0 <= i < v.len(),
        v[i].id == s.id,
    ensures
        unique_ids(v.update(i, s)),
        cache_map(v.update(i, s)) == cache_map(v).insert(s.id, s),
{
    let w = v.update(i, s);
    assert(unique_ids(w)) by {
        assert forall|a: int, b: int| 0 <= a < b < w.len() implies w[a].id != w[b].id by {
            assert(w[a].id == v[a].id);
            assert(w[b].id == v[b].id);
        }
    }
    assert forall|k: Seq<char>| #[trigger] cache_map(w).contains_key(k) <==> cache_map(v).insert(s.id, s).contains_key(k) by {
        lemma_cache_keys(w, k);
        lemma_cache_keys(v, k);
        if exists|j: int| 0 <= j < v.len() && v[j].id == k {
            let j = choose|j: int| 0 <= j < v.len() && v[j].id == k;
            assert(w[j].id == k);
        }
        if exists|j: int| 0 <= j < w.len() && w[j].id == k {
            let j = choose|j: int| 0 <= j < w.len() && w[j].id == k;
            assert(v[j].id == k);
        }
    }
    assert forall|k: Seq<char>| #[trigger] cache_map(w).contains_key(k) implies cache_map(w)[k] == cache_map(v).insert(s.id, s)[k] by {
        lemma_cache_keys(w, k);
        let j = choose|j: int| 0 <= j < w.len() && w[j].id == k;
        lemma_cache_value(w, j);
        if j != i {
            lemma_cache_value(v, j);
        }
    }
    assert(cache_map(w) =~= cache_map(v).insert(s.id, s));
}

pub proof fn lemma_cache_push(v: Seq<SessionView>, s: SessionView)
    requires
        unique_ids(v),
        !cache_map(v).contains_key(s.id),
    ensures
        unique_ids(v.push(s)),
        cache_map(v.push(s)) == cache_map(v).insert(s.id, s),
{
    let w = v.push(s);
    assert(w.drop_last() =~= v);
    assert forall|a: int, b: int| 0 <= a < b < w.len() implies w[a].id != w[b].id by {
        if b == v.len() {
            lemma_cache_keys(v, s.id);
            assert(v[a].id == w[a].id);
        } else {
            assert(w[a] == v[a]);
            assert(w[b] == v[b]);
        }
    }
}

pub proof fn lemma_cache_remove(v: Seq<SessionView>, i: int)
    requires
        unique_ids(v),
        0 <= i < v.len(),
    ensures
        unique_ids(v.remove(i)),
        cache_map(v.remove(i)) == cache_map(v).remove(v[i].id),
{
    let w = v.remove(i);
    let id = v[i].id;
    assert forall|a: int, b: int| 0 <= a < b < w.len() implies w[a].id != w[b].id by {
        let a2 = if a < i { a } else { a + 1 };
        let b2 = if b < i { b } else { b + 1 };
        assert(w[a] == v[a2]);
        assert(w[b] == v[b2]);
    }
    assert forall|k: Seq<char>| #[trigger] cache_map(w).contains_key(k) <==> cache_map(v).remove(id).contains_key(k) by {
        lemma_cache_keys(w, k);
        lemma_cache_keys(v, k);
        if exists|j: int| 0 <= j < v.len() && v[j].id == k && k != id {
            let j = choose|j: int| 0 <= j < v.len() && v[j].id == k && k != id;
            if j < i {
                assert(w[j].id == k);
            } else {
                assert(j != i);
                assert(w[j - 1].id == k);
            }
        }
        if exists|j: int| 0 <= j < w.len() && w[j].id == k {
            let j = choose|j: int| 0 <= j < w.len() && w[j].id == k;
            let j2 = if j < i { j } else { j + 1 };
            assert(v[j2].id == k);
            assert(j2 != i);
        }
    }
    assert forall|k: Seq<char>| #[trigger] cache_map(w).contains_key(k) implies cache_map(w)[k] == cache_map(v).remove(id)[k] by {
        lemma_cache_keys(w, k);
        let j = choose|j: int| 0 <= j < w.len() && w[j].id == k;
        let j2 = if j < i { j } else { j + 1 };
        assert(w[j] == v[j2]);
        lemma_cache_value(w, j);
        lemma_cache_value(v, j2);
    }
    assert(cache_map(w) =~= cache_map(v).remove(id));
}

/// Append-only JSONL session store: the directory of its files and the
/// cache of sessions they hold.
pub struct JsonSessionStore {
    dir: String,
    cache: Vec<Session>,
}

/// `PathBuf::from(dir).join(name)` as text.
pub uninterp spec fn spec_path_join(dir: Seq<char>, name: Seq<char>) -> Seq<char>;

/// `Path::join`: `dir` followed by `name` under the platform's path rules.
/// Claimed: the result depends on the two texts alone.
#[verifier::external_body]
fn path_join(dir: &str, name: &str) -> (r: String)
    ensures
        r@ == spec_path_join(dir@, name@),
{
    std::path::Path::new(dir).join(name).to_string_lossy().to_string()
}

impl JsonSessionStore {
    /// The directory that holds the session files.
    pub closed spec fn dir_view(&self) -> Seq<char> {
        self.dir@
    }

    /// An empty store over `dir`.
    pub fn new(dir: String) -> (r: JsonSessionStore)
        ensures
            r.dir_view() == dir@,
            r.inv(),
            r.sessions() == Map::<Seq<char>, SessionView>::empty(),
    {
        let r = JsonSessionStore { dir, cache: Vec::new() };
        assert(session_views(r.cache@) =~= Seq::<SessionView>::empty());
        r
    }

    /// The file that holds session `id`: `<dir>/<id>.jsonl`.
    pub fn session_path(&self, id: &str) -> (r: String)
        ensures
            r@ == spec_path_join(self.dir_view(), id@ + ".jsonl"@),
    {
        let mut name = owned(id);
        push_str(&mut name, ".jsonl");
        path_join(self.dir.as_str(), name.as_str())
    }

    fn find(&self, id: &str) -> (r: Option<usize>)
        requires
            self.inv(),
        ensures
            match r {
                Some(i) => i < self.cache@.len() && self.cache@[i as int].id@ == id@,
                None => !self.sessions().contains_key(id@),
            },
    {
        let mut i: usize = 0;
        while i < self.cache.len()
            invariant
                i <= self.cache@.len(),
                forall|j: int| 0 <= j < i ==> self.cache@[j].id@ != id@,
            decreases self.cache@.len() - i,
        {
            if str_eq(self.cache[i].id.as_str(), id) {
                return Some(i);
            }
            i += 1;
        }
        proof {
            lemma_cache_keys(session_views(self.cache@), id@);
            if exists|j: int| 0 <= j < self.cache@.len() && session_views(self.cache@)[j].id == id@ {
                let j = choose|j: int| 0 <= j < self.cache@.len() && session_views(self.cache@)[j].id == id@;
                assert(self.cache@[j].id@ == id@);
            }
        }
        None
    }
}

/// `s` placed into `v` just after the entries updated at least as recently.
pub fn insert_by_update(v: &mut Vec<Session>, s: Session)
    requires
        sorted_by_update(session_views(old(v)@)),
    ensures
        sorted_by_update(session_views(final(v)@)),
        exists|p: int| 0 <= p <= old(v)@.len() && session_views(final(v)@) == session_views(old(v)@).insert(p, s@),
{
    let ghost before = session_views(v@);
    let mut p: usize = 0;
    while p < v.len() && v[p].updated_at >= s.updated_at
        invariant
            p <= v@.len(),
            before == session_views(v@),
            forall|j: int| 0 <= j < p ==> before[j].updated_at >= s.updated_at,
        decreases v@.len() - p,
    {
        p += 1;
    }
    proof {
        lemma_sorted_insert(before, p as int, s@);
    }
    let ghost sv = s@;
    v.insert(p, s);
    assert(session_views(v@) =~= before.insert(p as int, sv));
}

/// Inserting at the first place whose neighbour was updated earlier keeps
/// the order.
pub proof fn lemma_sorted_insert(before: Seq<SessionView>, p: int, x: SessionView)
    requires
        sorted_by_update(before),
        0 <= p <= before.len(),
        forall|j: int| 0 <= j < p ==> before[j].updated_at >= x.updated_at,
        p < before.len() ==> before[p].updated_at < x.updated_at,
    ensures
        sorted_by_update(before.insert(p, x)),
{
    let w = before.insert(p, x);
    assert forall|i: int, j: int| 0 <= i < j < w.len() implies w[i].updated_at >= w[j].updated_at by {
        if j < p {
            assert(w[i] == before[i]);
            assert(w[j] == before[j]);
        } else if j == p {
            assert(w[i] == before[i]);
        } else if i < p {
            assert(w[i] == before[i]);
            assert(w[j] == before[j - 1]);
        } else if i == p {
            assert(w[j] == before[j - 1]);
            assert(before[p].updated_at >= before[j - 1].updated_at);
        } else {
            assert(w[i] == before[i - 1]);
            assert(w[j] == before[j - 1]);
        }
    }
}

/// `out` holds, in some order, exactly the first `k` entries of `cv`.
pub open spec fn holds_first(out: Seq<SessionView>, cv: Seq<SessionView>, k: int) -> bool {
    &&& out.len() == k
    &&& forall|j: int| #![trigger cv[j]] 0 <= j < k ==> exists|a: int| 0 <= a < k && out[a] == cv[j]
    &&& forall|a: int| #![trigger out[a]] 0 <= a < k ==> exists|j: int| 0 <= j < k && out[a] == cv[j]
    &&& unique_ids(out)
}

pub proof fn lemma_holds_next(before: Seq<SessionView>, cv: Seq<SessionView>, k: int, p: int)
    requires
        0 <= k < cv.len(),
        unique_ids(cv),
        holds_first(before, cv, k),
        0 <= p <= before.len(),
    ensures
        holds_first(before.insert(p, cv[k]), cv, k + 1),
{
    lemma_holds_next_covers(before, cv, k, p);
    lemma_holds_next_from(before, cv, k, p);
    lemma_holds_next_unique(before, cv, k, p);
}

proof fn lemma_holds_next_covers(before: Seq<SessionView>, cv: Seq<SessionView>, k: int, p: int)
    requires
        0 <= k < cv.len(),
        holds_first(before, cv, k),
        0 <= p <= before.len(),
    ensures
        forall|j: int| #![trigger cv[j]] 0 <= j < k + 1 ==> exists|a: int| 0 <= a < k + 1 && before.insert(p, cv[k])[a] == cv[j],
{
    let w = before.insert(p, cv[k]);
    assert forall|j: int| #![trigger cv[j]] 0 <= j < k + 1 implies exists|a: int| 0 <= a < k + 1 && w[a] == cv[j] by {
        if j == k {
            assert(w[p] == cv[j]);
        } else {
            let a = choose|a: int| 0 <= a < k && before[a] == cv[j];
            if a < p {
                assert(w[a] == cv[j]);
            } else {
                assert(w[a + 1] == cv[j]);
            }
        }
    }
}

proof fn lemma_holds_next_from(before: Seq<SessionView>, cv: Seq<SessionView>, k: int, p: int)
    requires
        0 <= k < cv.len(),
        holds_first(before, cv, k),
        0 <= p <= before.len(),
    ensures
        forall|a: int| #![trigger before.insert(p, cv[k])[a]] 0 <= a < k + 1 ==> exists|j: int| 0 <= j < k + 1 && before.insert(p, cv[k])[a] == cv[j],
{
    let w = before.insert(p, cv[k]);
    assert forall|a: int| #![trigger w[a]] 0 <= a < k + 1 implies exists|j: int| 0 <= j < k + 1 && w[a] == cv[j] by {
        if a == p {
            assert(w[a] == cv[k]);
        } else if a < p {
            assert(w[a] == before[a]);
        } else {
            assert(w[a] == before[a - 1]);
        }
    }
}

proof fn lemma_holds_next_unique(before: Seq<SessionView>, cv: Seq<SessionView>, k: int, p: int)
    requires
        0 <= k < cv.len(),
        unique_ids(cv),
        holds_first(before, cv, k),
        0 <= p <= before.len(),
    ensures
        unique_ids(before.insert(p, cv[k])),
{
    let w = before.insert(p, cv[k]);
    assert forall|a: int, b: int| 0 <= a < b < w.len() implies w[a].id != w[b].id by {
        if a != p && b != p {
            let a2 = if a < p { a } else { a - 1 };
            let b2 = if b < p { b } else { b - 1 };
            assert(before[a2] == w[a]);
            assert(before[b2] == w[b]);
        } else if a == p {
            let b2 = if b < p { b } else { b - 1 };
            assert(before[b2] == w[b]);
            let jj = choose|j: int| 0 <= j < k && before[b2] == cv[j];
            assert(cv[jj].id != cv[k].id);
        } else {
            let a2 = if a < p { a } else { a - 1 };
            assert(before[a2] == w[a]);
            let jj = choose|j: int| 0 <= j < k && before[a2] == cv[j];
            assert(cv[jj].id != cv[k].id);
        }
    }
}

/// Holding every entry of a cache with unique ids lists its map.
pub proof fn lemma_holds_all(w: Seq<SessionView>, cv: Seq<SessionView>)
    requires
        unique_ids(cv),
        holds_first(w, cv, cv.len() as int),
    ensures
        lists_all(cache_map(cv), w),
{
    let k = cv.len() as int;
    assert forall|i: int| 0 <= i < w.len() implies cache_map(cv).contains_key(#[trigger] w[i].id)
        && cache_map(cv)[w[i].id] == w[i] by {
        let j = choose|j: int| 0 <= j < k && w[i] == cv[j];
        lemma_cache_value(cv, j);
    }
    assert forall|key: Seq<char>| #[trigger] cache_map(cv).contains_key(key) implies exists|i: int|
        0 <= i < w.len() && w[i].id == key by {
        lemma_cache_keys(cv, key);
        let j = choose|j: int| 0 <= j < cv.len() && cv[j].id == key;
        let a = choose|a: int| 0 <= a < k && w[a] == cv[j];
        assert(w[a].id == key);
    }
}

impl SessionStore for JsonSessionStore {
    closed spec fn sessions(&self) -> Map<Seq<char>, SessionView> {
        cache_map(session_views(self.cache@))
    }

    closed spec fn inv(&self) -> bool {
        unique_ids(session_views(self.cache@))
    }

    open spec fn infallible(&self) -> bool {
        true
    }

    fn create(&mut self, session: &Session) -> (r: Result<(), StoreError>)
        ensures
            r is Ok,
            final(self).dir_view() == old(self).dir_view(),
    {
        let s = session.duplicate();
        let ghost sv = s@;
        let ghost before = session_views(self.cache@);
        match self.find(session.id.as_str()) {
            Some(i) => {
                self.cache.set(i, s);
                proof {
                    assert(session_views(self.cache@) =~= before.update(i as int, sv));
                    lemma_cache_update(before, i as int, sv);
                }
            },
            None => {
                self.cache.push(s);
                proof {
                    assert(session_views(self.cache@) =~= before.push(sv));
                    lemma_cache_push(before, sv);
                }
            },
        }
        Ok(())
    }

    fn get(&self, id: &str) -> (r: Result<Option<Session>, StoreError>)
        ensures
            r is Ok,
    {
        match self.find(id) {
            Some(i) => {
                proof {
                    lemma_cache_value(session_views(self.cache@), i as int);
                }
                Ok(Some(self.cache[i].duplicate()))
            },
            None => Ok(None),
        }
    }

    fn list(&self) -> (r: Result<Vec<Session>, StoreError>)
        ensures
            r is Ok,
    {
        let ghost cv = session_views(self.cache@);
        let mut out: Vec<Session> = Vec::new();
        let mut k: usize = 0;
        assert(session_views(out@) =~= Seq::<SessionView>::empty());
        while k < self.cache.len()
            invariant
                k <= self.cache@.len(),
                cv == session_views(self.cache@),
                unique_ids(cv),
                sorted_by_update(session_views(out@)),
                holds_first(session_views(out@), cv, k as int),
            decreases self.cache@.len() - k,
        {
            let ghost before = session_views(out@);
            let s = self.cache[k].duplicate();
            insert_by_update(&mut out, s);
            proof {
                let p = choose|p: int| 0 <= p <= before.len() && session_views(out@) == before.insert(p, cv[k as int]);
                lemma_holds_next(before, cv, k as int, p);
            }
            k += 1;
        }
        proof {
            lemma_holds_all(session_views(out@), cv);
        }
        Ok(out)
    }

    fn add_message(&mut self, session_id: &str, msg: &Message) -> (r: Result<(), StoreError>)
        ensures
            r is Ok,
            final(self).dir_view() == old(self).dir_view(),
    {
        let ghost before = session_views(self.cache@);
        match self.find(session_id) {
            Some(i) => {
                proof {
                    lemma_cache_value(before, i as int);
                }
                let mut s = self.cache[i].duplicate();
                let ghost old_s = s@;
                if s.title.as_str().is_empty() && !msg.content.as_str().is_empty() {
                    s.title = take_chars(msg.content.as_str(), 50);
                }
                if msg.timestamp > s.updated_at {
                    s.updated_at = msg.timestamp;
                }
                let m = msg.duplicate();
                let ghost mv = m@;
                s.messages.push(m);
                proof {
                    assert(message_views(s.messages@) =~= old_s.messages.push(mv));
                    assert(s@ == with_message(old_s, msg@));
                }
                let ghost sv = s@;
                self.cache.set(i, s);
                proof {
                    assert(session_views(self.cache@) =~= before.update(i as int, sv));
                    lemma_cache_update(before, i as int, sv);
                }
            },
            None => {},
        }
        Ok(())
    }

    fn delete(&mut self, id: &str) -> (r: Result<(), StoreError>)
        ensures
            r is Ok,
            final(self).dir_view() == old(self).dir_view(),
    {
        let ghost before = session_views(self.cache@);
        match self.find(id) {
            Some(i) => {
                self.cache.remove(i);
                proof {
                    assert(session_views(self.cache@) =~= before.remove(i as int));
                    lemma_cache_remove(before, i as int);
                }
            },
            None => {
                assert(cache_map(before).remove(id@) =~= cache_map(before));
            },
        }
        Ok(())
    }

    fn update_compaction(&mut self, session_id: &str, summary: Option<&str>, last_msg_id: Option<&str>) -> (r:
        Result<(), StoreError>)
        ensures
            r is Ok,
            final(self).dir_view() == old(self).dir_view(),
    {
        let ghost before = session_views(self.cache@);
        match self.find(session_id) {
            Some(i) => {
                proof {
                    lemma_cache_value(before, i as int);
                }
                let mut s = self.cache[i].duplicate();
                s.compacted_summary = match summary {
                    Some(t) => Some(owned(t)),
                    None => None,
                };
                s.compacted_message_id = match last_msg_id {
                    Some(t) => Some(owned(t)),
                    None => None,
                };
                let ghost sv = s@;
                self.cache.set(i, s);
                proof {
                    assert(session_views(self.cache@) =~= before.update(i as int, sv));
                    lemma_cache_update(before, i as int, sv);
                }
            },
            None => {},
        }
        Ok(())
    }
}


// ── Replaying a session file ──────────────────────────────────────────

/// One line of a session file, as the reader classified it.
pub enum LogLine {
    /// Empty or whitespace only.
    Blank,
    /// A line that reads as a message.
    Entry(Message),
    /// A line that reads as a whole session record (and not as a message).
    Header(Session),
    /// Anything else.
    Unreadable,
}

/// The model of a line.
pub enum LogLineView {
    Blank,
    Entry(MessageView),
    Header(SessionView),
    Unreadable,
}

impl View for LogLine {
    type V = LogLineView;

    open spec fn view(&self) -> LogLineView {
        match self {
            LogLine::Blank => LogLineView::Blank,
            LogLine::Entry(m) => LogLineView::Entry(m@),
            LogLine::Header(s) => LogLineView::Header(s@),
            LogLine::Unreadable => LogLineView::Unreadable,
        }
    }
}

pub open spec fn log_line_views(v: Seq<LogLine>) -> Seq<LogLineView> {
    v.map_values(|l: LogLine| l@)
}

/// A session that begins with message `m` and has nothing else yet.
pub open spec fn started_by(id: Seq<char>, m: MessageView) -> SessionView {
    SessionView {
        id,
        created_at: m.timestamp,
        updated_at: m.timestamp,
        messages: Seq::empty(),
        title: Seq::empty(),
        compacted_summary: None,
        compacted_message_id: None,
    }
}

/// What one line does to the session read so far: a message is appended
/// (starting the session if there is none yet), a session record replaces
/// it, anything else is skipped.
pub open spec fn replay_line(id: Seq<char>, acc: Option<SessionView>, line: LogLineView) -> Option<SessionView> {
    match line {
        LogLineView::Entry(m) => {
            let s = match acc {
                Some(s) => s,
                None => started_by(id, m),
            };
            Some(
                SessionView {
                    updated_at: if m.timestamp > s.updated_at { m.timestamp } else { s.updated_at },
                    messages: s.messages.push(m),
                    ..s
                },
            )
        },
        LogLineView::Header(s) => Some(s),
        _ => acc,
    }
}

/// The session a file's lines describe, if any.
pub open spec fn replay(id: Seq<char>, lines: Seq<LogLineView>) -> Option<SessionView>
    decreases lines.len(),
{
    if lines.len() == 0 {
        None
    } else {
        replay_line(id, replay(id, lines.drop_last()), lines.last())
    }
}

/// The session a file's lines describe: its messages in order, the latest
/// session record replacing what came before it.
pub fn replay_session(id: &str, lines: Vec<LogLine>) -> (r: Option<Session>)
    ensures
        opt_session_view(r) == replay(id@, log_line_views(lines@)),
{
    let ghost all = log_line_views(lines@);
    let mut acc: Option<Session> = None;
    let mut rest = lines;
    let ghost mut done: Seq<LogLineView> = Seq::empty();
    assert(all =~= done + log_line_views(rest@));
    while rest.len() > 0
        invariant
            all == done + log_line_views(rest@),
            opt_session_view(acc) == replay(id@, done),
        decreases rest@.len(),
    {
        let ghost before = rest@;
        let line = rest.remove(0);
        proof {
            assert(log_line_views(before) =~= seq![line@] + log_line_views(rest@));
        }
        let ghost prev = done;
        match line {
            LogLine::Entry(m) => {
                let mut s = match acc {
                    Some(s) => s,
                    None => session_with_messages(owned(id), m.timestamp),
                };
                if m.timestamp > s.updated_at {
                    s.updated_at = m.timestamp;
                }
                let ghost before_msgs = message_views(s.messages@);
                let ghost mv = m@;
                s.messages.push(m);
                assert(message_views(s.messages@) =~= before_msgs.push(mv));
                acc = Some(s);
            },
            LogLine::Header(s) => {
                acc = Some(s);
            },
            _ => {},
        }
        proof {
            done = prev.push(line@);
            assert(done.drop_last() =~= prev);
            assert(all =~= done + log_line_views(rest@));
        }
    }
    proof {
        assert(log_line_views(rest@) =~= Seq::<LogLineView>::empty());
        assert(done =~= all);
    }
    acc
}

/// An empty session with the given id and time stamps.
fn session_with_messages(id: String, at: i64) -> (r: Session)
    ensures
        r@ == (SessionView {
            id: id@,
            created_at: at,
            updated_at: at,
            messages: Seq::empty(),
            title: Seq::empty(),
            compacted_summary: None,
            compacted_message_id: None,
        }),
{
    crate::store::session_with(id, at)
}

/// The session loaded for a file: what its lines describe, or an empty
/// session under the file's id when they describe none.
pub open spec fn loaded_session(id: Seq<char>, lines: Seq<LogLineView>) -> SessionView {
    match replay(id, lines) {
        Some(s) => s,
        None => SessionView {
            id,
            created_at: 0,
            updated_at: 0,
            messages: Seq::empty(),
            title: Seq::empty(),
            compacted_summary: None,
            compacted_message_id: None,
        },
    }
}

impl JsonSessionStore {
    /// Bring the session of one file into the cache.
    pub fn load_file(&mut self, id: &str, lines: Vec<LogLine>)
        requires
            old(self).inv(),
        ensures
            final(self).inv(),
            final(self).dir_view() == old(self).dir_view(),
            final(self).sessions() == store_create(old(self).sessions(), loaded_session(id@, log_line_views(lines@))),
    {
        let s = match replay_session(id, lines) {
            Some(s) => s,
            None => crate::store::session_with(owned(id), 0),
        };
        let _ = self.create(&s);
    }
}


/// The lines the store writes for messages added to a session.
pub open spec fn entry_lines(ms: Seq<MessageView>) -> Seq<LogLineView> {
    ms.map_values(|m: MessageView| LogLineView::Entry(m))
}

/// A session after messages are added to it one by one.
pub open spec fn with_messages(s: SessionView, ms: Seq<MessageView>) -> SessionView
    decreases ms.len(),
{
    if ms.len() == 0 {
        s
    } else {
        with_message(with_messages(s, ms.drop_last()), ms.last())
    }
}

/// A session file as the store writes it (the session record, then one
/// line per message added) reads back as the session the store holds:
/// the same messages in the same order and the same update time. Only a
/// title set by those messages is not in the file; a session that had its
/// title already reads back exactly.
pub proof fn law_replay_written_file(s: SessionView, ms: Seq<MessageView>)
    ensures
        replay(s.id, seq![LogLineView::Header(s)] + entry_lines(ms)) == Some(
            SessionView { title: s.title, ..with_messages(s, ms) },
        ),
        s.title.len() > 0 ==> replay(s.id, seq![LogLineView::Header(s)] + entry_lines(ms)) == Some(
            with_messages(s, ms),
        ),
    decreases ms.len(),
{
    let lines = seq![LogLineView::Header(s)] + entry_lines(ms);
    if ms.len() == 0 {
        assert(lines =~= seq![LogLineView::Header(s)]);
        assert(lines.drop_last() =~= Seq::<LogLineView>::empty());
    } else {
        let prev = ms.drop_last();
        law_replay_written_file(s, prev);
        assert(lines.drop_last() =~= seq![LogLineView::Header(s)] + entry_lines(prev));
        assert(lines.last() == LogLineView::Entry(ms.last()));
        lemma_title_kept(s, ms);
    }
}

/// Adding messages never drops a title the session already had.
proof fn lemma_title_kept(s: SessionView, ms: Seq<MessageView>)
    ensures
        s.title.len() > 0 ==> with_messages(s, ms).title == s.title,
    decreases ms.len(),
{
    if ms.len() > 0 {
        lemma_title_kept(s, ms.drop_last());
    }
}

} // verus!
