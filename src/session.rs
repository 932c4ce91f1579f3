use vstd::prelude::*;

use crate::errors::AppError;
use crate::ids::random_id;
use crate::keyed::{
    keyed, keys_unique, lemma_keyed_dom, lemma_keyed_filter, lemma_keyed_push, lemma_keyed_remove,
    lemma_keyed_update, lemma_keyed_value, lemma_unique_push,
};
use crate::text::{join2, owned};

verus! {

broadcast use vstd::seq_lib::group_seq_properties;

/// A value kept in a session under a key.
struct DataEntry<V> {
    key: String,
    value: V,
}

pub struct EntryView<V> {
    pub key: Seq<char>,
    pub value: V,
}

pub open spec fn entry_key<V>() -> spec_fn(EntryView<V>) -> Seq<char> {
    |e: EntryView<V>| e.key
}

/// One user's session: when it was last used and the values it keeps. Times are in
/// milliseconds.
pub struct SessionData<V> {
    session_id: String,
    created_at: u64,
    last_accessed: u64,
    data: Vec<DataEntry<V>>,
}

/// A session has lapsed once more than `expiry` has passed since its last use, or when
/// its last use lies in the future.
pub open spec fn session_expired(last_accessed: u64, expiry: u64, now: u64) -> bool {
    now < last_accessed || now - last_accessed > expiry
}

impl<V> SessionData<V> {
    pub closed spec fn id(&self) -> Seq<char> {
        self.session_id@
    }

    pub closed spec fn created(&self) -> u64 {
        self.created_at
    }

    pub closed spec fn last_used(&self) -> u64 {
        self.last_accessed
    }

    pub fn session_id(&self) -> (r: &String)
        ensures
            r@ == self.id(),
    {
        &self.session_id
    }

    pub fn created_at(&self) -> (r: u64)
        ensures
            r == self.created(),
    {
        self.created_at
    }

    pub fn last_accessed(&self) -> (r: u64)
        ensures
            r == self.last_used(),
    {
        self.last_accessed
    }

    pub closed spec fn entry_list(&self) -> Seq<EntryView<V>> {
        self.data@.map_values(|e: DataEntry<V>| EntryView { key: e.key@, value: e.value })
    }

    /// The values kept, by key.
    pub open spec fn values(&self) -> Map<Seq<char>, V> {
        keyed(self.entry_list(), entry_key()).map_values(|e: EntryView<V>| e.value)
    }

    pub open spec fn wf(&self) -> bool {
        keys_unique(self.entry_list(), entry_key())
    }

    /// A session under `session_id`, begun at `now`, keeping nothing.
    pub fn new(session_id: String, now: u64) -> (r: SessionData<V>)
        ensures
            r.wf(),
            r.id() == session_id@,
            r.created() == now,
            r.last_used() == now,
            r.values() == Map::<Seq<char>, V>::empty(),
    {
        let r = SessionData { session_id, created_at: now, last_accessed: now, data: Vec::new() };
        proof {
            assert(r.values() =~= Map::<Seq<char>, V>::empty());
        }
        r
    }

    pub fn touch(&mut self, now: u64)
        ensures
            final(self).last_used() == now,
            final(self).id() == old(self).id(),
            final(self).created() == old(self).created(),
            final(self).entry_list() == old(self).entry_list(),
    {
        self.last_accessed = now;
    }

    pub fn is_expired(&self, expiry: u64, now: u64) -> (r: bool)
        ensures
            r == session_expired(self.last_used(), expiry, now),
    {
        now < self.last_accessed || now - self.last_accessed > expiry
    }

    fn find(&self, key: &str) -> (r: Option<usize>)
        requires
            self.wf(),
        ensures
            r is None <==> !self.values().contains_key(key@),
            r is Some ==> r->Some_0 < self.entry_list().len() && self.entry_list()[r->Some_0 as int].key
                == key@ && self.values()[key@] == self.entry_list()[r->Some_0 as int].value,
    {
        let wanted = owned(key);
        let mut i: usize = 0;
        while i < self.data.len()
            invariant
                self.wf(),
                i <= self.data@.len(),
                wanted@ == key@,
                forall|j: int| 0 <= j < i ==> self.entry_list()[j].key != key@,
            decreases self.data@.len() - i,
        {
            if self.data[i].key == wanted {
                proof {
                    lemma_keyed_dom(self.entry_list(), entry_key(), key@);
                    lemma_keyed_value(self.entry_list(), entry_key(), i as int);
                    assert(self.entry_list()[i as int].key == key@);
                }
                return Some(i);
            }
            i = i + 1;
        }
        proof {
            lemma_keyed_dom(self.entry_list(), entry_key(), key@);
        }
        None
    }

    /// Keeps `value` under `key`, replacing what was there, and counts as a use at `now`.
    pub fn set(&mut self, key: String, value: V, now: u64)
        requires
            old(self).wf(),
        ensures
            final(self).wf(),
            final(self).values() == old(self).values().insert(key@, value),
            final(self).last_used() == now,
            final(self).id() == old(self).id(),
            final(self).created() == old(self).created(),
    {
        let ghost before = self.entry_list();
        let ghost values_before = self.values();
        match self.find(key.as_str()) {
            Some(i) => {
                let entry = DataEntry { key, value };
                self.data.set(i, entry);
                proof {
                    let ev = EntryView { key: entry.key@, value: entry.value };
                    assert(self.entry_list() =~= before.update(i as int, ev));
                    lemma_keyed_update(before, entry_key(), i as int, ev);
                    assert(self.values() =~= values_before.insert(ev.key, ev.value));
                }
            },
            None => {
                let entry = DataEntry { key, value };
                self.data.push(entry);
                proof {
                    let ev = EntryView { key: entry.key@, value: entry.value };
                    assert(self.entry_list() =~= before.push(ev));
                    lemma_unique_push(before, entry_key(), ev);
                    lemma_keyed_push(before, entry_key(), ev);
                    assert(self.values() =~= values_before.insert(ev.key, ev.value));
                }
            },
        }
        self.last_accessed = now;
    }

    /// The value kept under `key`.
    pub fn get(&self, key: &str) -> (r: Option<&V>)
        requires
            self.wf(),
        ensures
            r is Some <==> self.values().contains_key(key@),
            r is Some ==> *r->Some_0 == self.values()[key@],
    {
        match self.find(key) {
            Some(i) => Some(&self.data[i].value),
            None => None,
        }
    }

    /// Takes the value under `key` out, and counts as a use at `now`.
    pub fn remove(&mut self, key: &str, now: u64) -> (r: Option<V>)
        requires
            old(self).wf(),
        ensures
            final(self).wf(),
            final(self).values() == old(self).values().remove(key@),
            r is Some <==> old(self).values().contains_key(key@),
            r is Some ==> r->Some_0 == old(self).values()[key@],
            final(self).last_used() == now,
            final(self).id() == old(self).id(),
            final(self).created() == old(self).created(),
    {
        let r = match self.find(key) {
            None => {
                proof {
                    assert(self.values() =~= self.values().remove(key@));
                }
                None
            },
            Some(i) => {
                let ghost before = self.entry_list();
                let entry = self.data.remove(i);
                proof {
                    assert(self.entry_list() =~= before.remove(i as int));
                    lemma_keyed_remove(before, entry_key(), i as int);
                    assert(self.values() =~= keyed(before, entry_key()).map_values(|e: EntryView<V>| e.value).remove(key@));
                }
                Some(entry.value)
            },
        };
        self.last_accessed = now;
        r
    }

    /// Drops every value, and counts as a use at `now`.
    pub fn clear(&mut self, now: u64)
        ensures
            final(self).wf(),
            final(self).values() == Map::<Seq<char>, V>::empty(),
            final(self).last_used() == now,
            final(self).id() == old(self).id(),
            final(self).created() == old(self).created(),
    {
        self.data = Vec::new();
        self.last_accessed = now;
        proof {
            assert(self.values() =~= Map::<Seq<char>, V>::empty());
        }
    }
}

/// The value of a session.
pub struct SessionView<V> {
    pub id: Seq<char>,
    pub created_at: u64,
    pub last_accessed: u64,
    pub values: Map<Seq<char>, V>,
}

pub open spec fn session_key<V>() -> spec_fn(SessionView<V>) -> Seq<char> {
    |s: SessionView<V>| s.id
}

pub open spec fn view_of<V>(s: SessionData<V>) -> SessionView<V> {
    SessionView { id: s.id(), created_at: s.created(), last_accessed: s.last_used(), values: s.values() }
}

pub open spec fn live_session<V>(expiry: u64, now: u64) -> spec_fn(SessionView<V>) -> bool {
    |s: SessionView<V>| !session_expired(s.last_accessed, expiry, now)
}

pub open spec fn not_found(e: AppError, id: Seq<char>) -> bool {
    e matches AppError::SessionError { message } && message@ == "Session not found: "@ + id
}

/// Counts over the sessions at one moment.
#[derive(Debug, Clone, Copy, PartialEq, Eq, Structural)]
pub struct SessionStats {
    pub total_sessions: usize,
    pub active_sessions: usize,
    pub expired_sessions: usize,
    pub expiry_duration_seconds: u64,
}

/// How long a session lives without use by default: one hour, in milliseconds.
pub const DEFAULT_SESSION_EXPIRY_MS: u64 = 3_600_000;

/// Keeps user sessions until they go unused longer than the expiry. Times are in
/// milliseconds and are given by the caller.
pub struct SessionManager<V> {
    sessions: Vec<SessionData<V>>,
    expiry_duration: u64,
}

impl<V> SessionManager<V> {
    pub closed spec fn session_list(&self) -> Seq<SessionView<V>> {
        self.sessions@.map_values(|s: SessionData<V>| view_of(s))
    }

    /// The sessions by id.
    pub open spec fn sessions(&self) -> Map<Seq<char>, SessionView<V>> {
        keyed(self.session_list(), session_key())
    }

    pub closed spec fn expiry(&self) -> u64 {
        self.expiry_duration
    }

    pub closed spec fn wf(&self) -> bool {
        &&& keys_unique(self.session_list(), session_key())
        &&& forall|i: int| 0 <= i < self.sessions@.len() ==> (#[trigger] self.sessions@[i]).wf()
    }

    pub fn new() -> (r: SessionManager<V>)
        ensures
            r.wf(),
            r.sessions() == Map::<Seq<char>, SessionView<V>>::empty(),
            r.expiry() == DEFAULT_SESSION_EXPIRY_MS,
    {
        SessionManager::with_expiry(DEFAULT_SESSION_EXPIRY_MS)
    }

    /// A manager whose sessions lapse after `expiry_ms` milliseconds without use.
    pub fn with_expiry(expiry_ms: u64) -> (r: SessionManager<V>)
        ensures
            r.wf(),
            r.sessions() == Map::<Seq<char>, SessionView<V>>::empty(),
            r.expiry() == expiry_ms,
    {
        let r = SessionManager { sessions: Vec::new(), expiry_duration: expiry_ms };
        proof {
            assert(r.sessions() =~= Map::<Seq<char>, SessionView<V>>::empty());
        }
        r
    }

    fn find(&self, id: &str) -> (r: Option<usize>)
        requires
            self.wf(),
        ensures
            r is None <==> !self.sessions().contains_key(id@),
            r is Some ==> r->Some_0 < self.session_list().len() && self.session_list()[r->Some_0 as int].id
                == id@ && self.sessions()[id@] == self.session_list()[r->Some_0 as int],
    {
        let wanted = owned(id);
        let mut i: usize = 0;
        while i < self.sessions.len()
            invariant
                self.wf(),
                i <= self.sessions@.len(),
                wanted@ == id@,
                forall|j: int| 0 <= j < i ==> self.session_list()[j].id != id@,
            decreases self.sessions@.len() - i,
        {
            if self.sessions[i].session_id == wanted {
                proof {
                    lemma_keyed_dom(self.session_list(), session_key(), id@);
                    lemma_keyed_value(self.session_list(), session_key(), i as int);
                    assert(self.session_list()[i as int].id == id@);
                }
                return Some(i);
            }
            i = i + 1;
        }
        proof {
            lemma_keyed_dom(self.session_list(), session_key(), id@);
        }
        None
    }

    fn missing(id: &str) -> (r: AppError)
        ensures
            not_found(r, id@),
    {
        AppError::SessionError { message: join2("Session not found: ", id) }
    }

    /// After the session at `i` of `raw` was replaced by `s`, with the same id, the
    /// manager is well formed and its map has `s` under that id.
    proof fn lemma_replaced(self, raw: Seq<SessionData<V>>, i: int, s: SessionData<V>)
        requires
            keys_unique(raw.map_values(|x: SessionData<V>| view_of(x)), session_key()),
            forall|j: int| 0 <= j < raw.len() ==> (#[trigger] raw[j]).wf(),
            0 <= i < raw.len(),
            s.wf(),
            s.id() == raw[i].id(),
            self.sessions@ == raw.update(i, s),
        ensures
            self.wf(),
            self.sessions() == keyed(raw.map_values(|x: SessionData<V>| view_of(x)), session_key()).insert(
                s.id(),
                view_of(s),
            ),
            self.session_list().len() == raw.len(),
    {
        let before = raw.map_values(|x: SessionData<V>| view_of(x));
        assert(self.session_list() =~= before.update(i, view_of(s)));
        lemma_keyed_update(before, session_key(), i, view_of(s));
        assert forall|j: int| 0 <= j < self.sessions@.len() implies (#[trigger] self.sessions@[j]).wf() by {
            if j != i {
                assert(self.sessions@[j] == raw[j]);
            }
        }
    }

    /// Puts `s` in place of the session at `i`, which has the same id.
    fn put_back(&mut self, i: usize, s: SessionData<V>)
        requires
            old(self).wf(),
            i < old(self).sessions@.len(),
            s.wf(),
            s.id() == old(self).session_list()[i as int].id,
        ensures
            final(self).wf(),
            final(self).expiry() == old(self).expiry(),
            final(self).sessions() == old(self).sessions().insert(s.id(), view_of(s)),
            final(self).session_list().len() == old(self).session_list().len(),
    {
        let ghost raw = self.sessions@;
        self.sessions.set(i, s);
        proof {
            self.lemma_replaced(raw, i as int, s);
        }
    }

    /// Begins a session at `now` under a fresh random id and returns the id.
    pub fn create_session(&mut self, now: u64) -> (r: String)
        requires
            old(self).wf(),
        ensures
            final(self).wf(),
            final(self).expiry() == old(self).expiry(),
            final(self).sessions().contains_key(r@),
            final(self).sessions()[r@].created_at == now,
            final(self).sessions()[r@].last_accessed == now,
            final(self).sessions()[r@].values == Map::<Seq<char>, V>::empty(),
            forall|k: Seq<char>| k != r@ ==> (#[trigger] final(self).sessions().contains_key(k) <==> old(self).sessions().contains_key(k)),
            forall|k: Seq<char>| k != r@ && #[trigger] final(self).sessions().contains_key(k) ==> final(self).sessions()[k] == old(self).sessions()[k],
    {
        let id = random_id();
        let session = SessionData::new(owned(id.as_str()), now);
        match self.find(id.as_str()) {
            Some(i) => {
                self.put_back(i, session);
            },
            None => {
                let ghost before = self.session_list();
                let ghost raw = self.sessions@;
                self.sessions.push(session);
                proof {
                    assert(self.session_list() =~= before.push(view_of(session)));
                    lemma_unique_push(before, session_key(), view_of(session));
                    lemma_keyed_push(before, session_key(), view_of(session));
                    assert forall|j: int| 0 <= j < self.sessions@.len() implies (#[trigger] self.sessions@[j]).wf() by {
                        if j < raw.len() {
                            assert(self.sessions@[j] == raw[j]);
                        }
                    }
                }
            },
        }
        id
    }

    /// The session under `id`.
    pub fn get_session(&self, id: &str) -> (r: Option<&SessionData<V>>)
        requires
            self.wf(),
        ensures
            r is Some <==> self.sessions().contains_key(id@),
            r is Some ==> view_of(*r->Some_0) == self.sessions()[id@] && r->Some_0.wf(),
    {
        match self.find(id) {
            Some(i) => Some(&self.sessions[i]),
            None => None,
        }
    }

    /// Counts a use of the session at `now`.
    pub fn touch_session(&mut self, id: &str, now: u64) -> (r: Result<(), AppError>)
        requires
            old(self).wf(),
        ensures
            final(self).wf(),
            final(self).expiry() == old(self).expiry(),
            r is Ok <==> old(self).sessions().contains_key(id@),
            r is Err ==> not_found(r->Err_0, id@) && final(self).sessions() == old(self).sessions(),
            r is Ok ==> final(self).sessions() == old(self).sessions().insert(
                id@,
                SessionView { last_accessed: now, ..old(self).sessions()[id@] },
            ),
    {
        match self.find(id) {
            None => Err(Self::missing(id)),
            Some(i) => {
                let ghost raw = self.sessions@;
                let mut s = self.sessions.remove(i);
                proof {
                    assert(s == raw[i as int]);
                }
                s.touch(now);
                self.sessions.insert(i, s);
                proof {
                    assert(self.sessions@ =~= raw.update(i as int, s));
                    assert(s.values() == raw[i as int].values());
                    self.lemma_replaced(raw, i as int, s);
                }
                Ok(())
            },
        }
    }

    /// Keeps `value` under `key` in the session, counting a use at `now`.
    pub fn set_session_data(&mut self, id: &str, key: String, value: V, now: u64) -> (r: Result<(), AppError>)
        requires
            old(self).wf(),
        ensures
            final(self).wf(),
            final(self).expiry() == old(self).expiry(),
            r is Ok <==> old(self).sessions().contains_key(id@),
            r is Err ==> not_found(r->Err_0, id@) && final(self).sessions() == old(self).sessions(),
            r is Ok ==> final(self).sessions() == old(self).sessions().insert(
                id@,
                SessionView {
                    last_accessed: now,
                    values: old(self).sessions()[id@].values.insert(key@, value),
                    ..old(self).sessions()[id@]
                },
            ),
    {
        match self.find(id) {
            None => Err(Self::missing(id)),
            Some(i) => {
                let ghost raw = self.sessions@;
                let mut s = self.sessions.remove(i);
                proof {
                    assert(s == raw[i as int]);
                }
                s.set(key, value, now);
                self.sessions.insert(i, s);
                proof {
                    assert(self.sessions@ =~= raw.update(i as int, s));
                    self.lemma_replaced(raw, i as int, s);
                }
                Ok(())
            },
        }
    }

    /// Takes the value under `key` out of the session, counting a use at `now`.
    pub fn remove_session_data(&mut self, id: &str, key: &str, now: u64) -> (r: Result<Option<V>, AppError>)
        requires
            old(self).wf(),
        ensures
            final(self).wf(),
            final(self).expiry() == old(self).expiry(),
            r is Ok <==> old(self).sessions().contains_key(id@),
            r is Err ==> not_found(r->Err_0, id@) && final(self).sessions() == old(self).sessions(),
            r is Ok ==> final(self).sessions() == old(self).sessions().insert(
                id@,
                SessionView {
                    last_accessed: now,
                    values: old(self).sessions()[id@].values.remove(key@),
                    ..old(self).sessions()[id@]
                },
            ) && (r->Ok_0 is Some <==> old(self).sessions()[id@].values.contains_key(key@)) && (r->Ok_0 is Some
                ==> r->Ok_0->Some_0 == old(self).sessions()[id@].values[key@]),
    {
        match self.find(id) {
            None => Err(Self::missing(id)),
            Some(i) => {
                let ghost raw = self.sessions@;
                let mut s = self.sessions.remove(i);
                proof {
                    assert(s == raw[i as int]);
                }
                let v = s.remove(key, now);
                self.sessions.insert(i, s);
                proof {
                    assert(self.sessions@ =~= raw.update(i as int, s));
                    self.lemma_replaced(raw, i as int, s);
                }
                Ok(v)
            },
        }
    }

    /// Ends the session.
    pub fn destroy_session(&mut self, id: &str) -> (r: Result<(), AppError>)
        requires
            old(self).wf(),
        ensures
            final(self).wf(),
            final(self).expiry() == old(self).expiry(),
            r is Ok <==> old(self).sessions().contains_key(id@),
            r is Err ==> not_found(r->Err_0, id@),
            final(self).sessions() == old(self).sessions().remove(id@),
    {
        match self.find(id) {
            None => {
                proof {
                    assert(self.sessions() =~= self.sessions().remove(id@));
                }
                Err(Self::missing(id))
            },
            Some(i) => {
                let ghost before = self.session_list();
                let ghost raw = self.sessions@;
                self.sessions.remove(i);
                proof {
                    assert(self.session_list() =~= before.remove(i as int));
                    lemma_keyed_remove(before, session_key(), i as int);
                    assert forall|j: int| 0 <= j < self.sessions@.len() implies (#[trigger] self.sessions@[j]).wf() by {
                        if j < i {
                            assert(self.sessions@[j] == raw[j]);
                        } else {
                            assert(self.sessions@[j] == raw[j + 1]);
                        }
                    }
                }
                Ok(())
            },
        }
    }

    /// Ends every session that has lapsed at `now`; returns how many there were.
    pub fn cleanup_expired_sessions(&mut self, now: u64) -> (r: Result<usize, AppError>)
        requires
            old(self).wf(),
        ensures
            r is Ok,
            final(self).wf(),
            final(self).expiry() == old(self).expiry(),
            final(self).session_list() == old(self).session_list().filter(live_session(old(self).expiry(), now)),
            forall|k: Seq<char>|
                #[trigger] final(self).sessions().contains_key(k) <==> old(self).sessions().contains_key(k)
                    && !session_expired(old(self).sessions()[k].last_accessed, old(self).expiry(), now),
            forall|k: Seq<char>|
                #[trigger] final(self).sessions().contains_key(k) ==> final(self).sessions()[k] == old(self).sessions()[k],
            r->Ok_0 == old(self).session_list().len() - final(self).session_list().len(),
    {
        let ghost orig = self.session_list();
        let ghost raw = self.sessions@;
        let expiry = self.expiry_duration;
        let mut rest: Vec<SessionData<V>> = Vec::new();
        std::mem::swap(&mut self.sessions, &mut rest);
        let n = rest.len();
        let mut i: usize = 0;
        while i < n
            invariant
                n == orig.len(),
                n == raw.len(),
                orig == raw.map_values(|x: SessionData<V>| view_of(x)),
                forall|j: int| 0 <= j < raw.len() ==> (#[trigger] raw[j]).wf(),
                i <= n,
                rest@.len() == n - i,
                forall|j: int| 0 <= j < n - i ==> #[trigger] rest@[j] == raw[i + j],
                expiry == old(self).expiry(),
                self.expiry_duration == expiry,
                self.session_list() == orig.take(i as int).filter(live_session(expiry, now)),
                forall|j: int| 0 <= j < self.sessions@.len() ==> (#[trigger] self.sessions@[j]).wf(),
                self.sessions@.len() <= i,
            decreases n - i,
        {
            let ghost rest_before = rest@;
            let s = rest.remove(0);
            proof {
                assert(s == raw[i as int]);
                assert(view_of(s) == orig[i as int]);
                assert(orig.take(i + 1) =~= orig.take(i as int).push(view_of(s)));
                orig.take(i as int).lemma_filter_push(view_of(s), live_session(expiry, now));
                assert forall|j: int| 0 <= j < n - (i + 1) implies #[trigger] rest@[j] == raw[(i + 1) + j] by {
                    assert(rest@[j] == rest_before[j + 1]);
                }
            }
            if !s.is_expired(expiry, now) {
                let ghost before = self.session_list();
                let ghost kept = self.sessions@;
                self.sessions.push(s);
                proof {
                    assert(self.session_list() =~= before.push(view_of(s)));
                    assert forall|j: int| 0 <= j < self.sessions@.len() implies (#[trigger] self.sessions@[j]).wf() by {
                        if j < kept.len() {
                            assert(self.sessions@[j] == kept[j]);
                        }
                    }
                }
            }
            i = i + 1;
        }
        proof {
            assert(orig.take(n as int) =~= orig);
            lemma_keyed_filter(orig, session_key(), live_session(expiry, now));
            orig.lemma_filter_len(live_session(expiry, now));
        }
        Ok(n - self.sessions.len())
    }

    /// The number of sessions held, lapsed ones included until they are cleaned up.
    pub fn session_count(&self) -> (r: usize)
        ensures
            r == self.session_list().len(),
    {
        self.sessions.len()
    }

    /// Whether the session exists and has not lapsed at `now`.
    pub fn validate_session(&self, id: &str, now: u64) -> (r: bool)
        requires
            self.wf(),
        ensures
            r <==> self.sessions().contains_key(id@) && !session_expired(
                self.sessions()[id@].last_accessed,
                self.expiry(),
                now,
            ),
    {
        match self.find(id) {
            None => false,
            Some(i) => !self.sessions[i].is_expired(self.expiry_duration, now),
        }
    }

    /// Counts over the sessions at `now`.
    pub fn get_stats(&self, now: u64) -> (r: SessionStats)
        ensures
            r.total_sessions == self.session_list().len(),
            r.expired_sessions == self.session_list().len() - self.session_list().filter(
                live_session(self.expiry(), now),
            ).len(),
            r.active_sessions == self.session_list().filter(live_session(self.expiry(), now)).len(),
            r.expiry_duration_seconds == self.expiry() / 1000,
    {
        let ghost v = self.session_list();
        let mut live: usize = 0;
        let mut i: usize = 0;
        while i < self.sessions.len()
            invariant
                v == self.session_list(),
                i <= v.len(),
                live == v.take(i as int).filter(live_session(self.expiry(), now)).len(),
                live <= i,
            decreases v.len() - i,
        {
            proof {
                assert(v.take(i + 1) =~= v.take(i as int).push(v[i as int]));
                v.take(i as int).lemma_filter_push(v[i as int], live_session(self.expiry(), now));
            }
            if !self.sessions[i].is_expired(self.expiry_duration, now) {
                live = live + 1;
            }
            i = i + 1;
        }
        proof {
            assert(v.take(i as int) =~= v);
            v.lemma_filter_len(live_session(self.expiry(), now));
        }
        SessionStats {
            total_sessions: self.sessions.len(),
            active_sessions: live,
            expired_sessions: self.sessions.len() - live,
            expiry_duration_seconds: self.expiry_duration / 1000,
        }
    }
}

impl<V: Clone> SessionManager<V> {
    /// A clone of the value under `key` in the session.
    pub fn get_session_data(&self, id: &str, key: &str) -> (r: Result<Option<V>, AppError>)
        requires
            self.wf(),
        ensures
            r is Ok <==> self.sessions().contains_key(id@),
            r is Err ==> not_found(r->Err_0, id@),
            r is Ok ==> (r->Ok_0 is Some <==> self.sessions()[id@].values.contains_key(key@)),
            r is Ok && r->Ok_0 is Some ==> cloned(self.sessions()[id@].values[key@], r->Ok_0->Some_0),
    {
        match self.find(id) {
            None => Err(Self::missing(id)),
            Some(i) => {
                proof {
                    assert(self.sessions@[i as int].wf());
                }
                match self.sessions[i].get(key) {
                    Some(v) => Ok(Some(v.clone())),
                    None => Ok(None),
                }
            },
        }
    }
}

} // verus!
