use vstd::prelude::*;

verus! {

/// Default time-to-live of a session's records: 30 minutes, in milliseconds.
pub const SESSION_TTL_MS: u64 = 1_800_000;

/// One timed interval of a session, for the client's timeline view.
#[derive(Clone, Debug)]
pub struct PerformanceRecord {
    /// Start of the interval (Unix time, milliseconds).
    pub start_time: u64,
    /// End of the interval (Unix time, milliseconds).
    pub end_time: u64,
    /// Row group of the timeline.
    pub channel_group: String,
    /// Row within the group.
    pub channel_index: String,
    /// Text shown with the interval.
    pub msg: String,
}

/// The records of one session and when the session was first seen.
pub struct SessionLog {
    pub session_id: String,
    pub started_at: u64,
    pub records: Vec<PerformanceRecord>,
}

/// Mathematical view of a [`SessionLog`].
pub struct SessionView {
    pub session_id: Seq<char>,
    pub started_at: u64,
    pub records: Seq<PerformanceRecord>,
}

impl View for SessionLog {
    type V = SessionView;

    open spec fn view(&self) -> SessionView {
        SessionView { session_id: self.session_id@, started_at: self.started_at, records: self.records@ }
    }
}

/// Position of the first session named `id`, or -1 when there is none.
pub open spec fn session_index(s: Seq<SessionView>, id: Seq<char>) -> int
    decreases s.len(),
{
    if s.len() == 0 {
        -1
    } else {
        let k = session_index(s.drop_last(), id);
        if k >= 0 {
            k
        } else if s.last().session_id == id {
            s.len() - 1
        } else {
            -1
        }
    }
}

proof fn lemma_session_index_bounds(s: Seq<SessionView>, id: Seq<char>)
    ensures
        -1 <= session_index(s, id) < s.len(),
        session_index(s, id) >= 0 ==> s[session_index(s, id)].session_id == id,
        session_index(s, id) == -1 ==> forall|j: int|
            0 <= j < s.len() ==> (#[trigger] s[j]).session_id != id,
    decreases s.len(),
{
    if s.len() > 0 {
        lemma_session_index_bounds(s.drop_last(), id);
        let k = session_index(s.drop_last(), id);
        if k >= 0 {
            assert(s.drop_last()[k] == s[k]);
        } else {
            assert forall|j: int| 0 <= j < s.len() - 1 implies (#[trigger] s[j]).session_id
                != id by {
                assert(s.drop_last()[j] == s[j]);
            }
        }
    }
}

proof fn lemma_session_index_prefix(s: Seq<SessionView>, id: Seq<char>, i: int)
    requires
        0 <= i < s.len(),
        session_index(s.subrange(0, i), id) == -1,
    ensures
        s[i].session_id == id ==> session_index(s.subrange(0, i + 1), id) == i,
        s[i].session_id != id ==> session_index(s.subrange(0, i + 1), id) == -1,
{
    assert(s.subrange(0, i + 1).drop_last() =~= s.subrange(0, i));
}

/// The records of session `id`, if it has any.
pub open spec fn records_of(s: Seq<SessionView>, id: Seq<char>) -> Option<Seq<PerformanceRecord>> {
    let k = session_index(s, id);
    if k >= 0 {
        Some(s[k].records)
    } else {
        None
    }
}

/// The sessions after appending `recs` to session `id`; a session not seen
/// before is started at `now`.
pub open spec fn after_add(
    s: Seq<SessionView>,
    id: Seq<char>,
    recs: Seq<PerformanceRecord>,
    now: u64,
) -> Seq<SessionView> {
    let k = session_index(s, id);
    if k >= 0 {
        s.update(k, SessionView { records: s[k].records + recs, ..s[k] })
    } else {
        s.push(SessionView { session_id: id, started_at: now, records: recs })
    }
}

/// A session is expired at `now` once its age exceeds the time-to-live.
pub open spec fn session_expired(v: SessionView, now: u64, ttl: u64) -> bool {
    now >= v.started_at && now - v.started_at > ttl
}

/// Timing records, grouped by session, each session kept for a time-to-live.
pub struct PerformanceStore {
    sessions: Vec<SessionLog>,
    default_ttl: u64,
}

impl PerformanceStore {
    pub closed spec fn sessions(&self) -> Seq<SessionView> {
        self.sessions@.map_values(|l: SessionLog| l@)
    }

    pub closed spec fn ttl(&self) -> u64 {
        self.default_ttl
    }

    /// An empty store whose sessions live for 30 minutes.
    pub fn new() -> (r: PerformanceStore)
        ensures
            r.sessions() == Seq::<SessionView>::empty(),
            r.ttl() == SESSION_TTL_MS,
    {
        let r = PerformanceStore { sessions: Vec::new(), default_ttl: SESSION_TTL_MS };
        assert(r.sessions() =~= Seq::<SessionView>::empty());
        r
    }

    fn find(&self, session_id: &str) -> (r: Option<usize>)
        ensures
            match r {
                Some(k) => k as int == session_index(self.sessions(), session_id@),
                None => session_index(self.sessions(), session_id@) == -1,
            },
    {
        let key = String::from_str(session_id);
        let n = self.sessions.len();
        let mut i: usize = 0;
        while i < n
            invariant
                n == self.sessions@.len(),
                key@ == session_id@,
                i <= n,
                session_index(self.sessions().subrange(0, i as int), session_id@) == -1,
            decreases n - i,
        {
            proof {
                lemma_session_index_prefix(self.sessions(), session_id@, i as int);
            }
            if self.sessions[i].session_id == key {
                proof {
                    lemma_session_index_first(self.sessions(), session_id@, i as int);
                }
                return Some(i);
            }
            i = i + 1;
        }
        assert(self.sessions().subrange(0, n as int) =~= self.sessions());
        None
    }

    /// Appends `records` to the session `session_id`, starting the session at
    /// `now` (milliseconds) if it is new.
    pub fn add_records(&mut self, session_id: &str, records: Vec<PerformanceRecord>, now: u64)
        ensures
            final(self).sessions() == after_add(old(self).sessions(), session_id@, records@, now),
            final(self).ttl() == old(self).ttl(),
    {
        let ghost before = self.sessions();
        match self.find(session_id) {
            Some(k) => {
                proof {
                    lemma_session_index_bounds(before, session_id@);
                }
                let mut log = self.sessions.remove(k);
                let ghost log0 = log@;
                let mut more = records;
                log.records.append(&mut more);
                self.sessions.insert(k, log);
                assert(self.sessions() =~= before.update(
                    k as int,
                    SessionView { records: log0.records + records@, ..log0 },
                ));
            },
            None => {
                self.sessions.push(
                    SessionLog { session_id: String::from_str(session_id), started_at: now, records },
                );
                assert(self.sessions() =~= before.push(
                    SessionView { session_id: session_id@, started_at: now, records: records@ },
                ));
            },
        }
    }

    /// Appends one record to the session `session_id`, starting the session at
    /// `now` (milliseconds) if it is new.
    pub fn add_record(&mut self, session_id: &str, record: PerformanceRecord, now: u64)
        ensures
            final(self).sessions() == after_add(
                old(self).sessions(),
                session_id@,
                seq![record],
                now,
            ),
            final(self).ttl() == old(self).ttl(),
    {
        let v = vec![record];
        assert(v@ =~= seq![record]);
        self.add_records(session_id, v, now);
    }

    /// A copy of the records of session `session_id`, if the session exists.
    pub fn get_records(&self, session_id: &str) -> (r: Option<Vec<PerformanceRecord>>)
        ensures
            match r {
                Some(v) => records_of(self.sessions(), session_id@) == Some(v@),
                None => records_of(self.sessions(), session_id@) is None,
            },
    {
        match self.find(session_id) {
            Some(k) => {
                proof {
                    lemma_session_index_bounds(self.sessions(), session_id@);
                }
                let src = &self.sessions[k].records;
                let mut out: Vec<PerformanceRecord> = Vec::new();
                let mut i: usize = 0;
                while i < src.len()
                    invariant
                        i <= src@.len(),
                        out@.len() == i,
                        forall|j: int| 0 <= j < i ==> #[trigger] out@[j] == src@[j],
                    decreases src@.len() - i,
                {
                    out.push(copy_record(&src[i]));
                    i = i + 1;
                }
                assert(out@ =~= src@);
                Some(out)
            },
            None => None,
        }
    }

    /// Removes every session older than the time-to-live at `now` and returns
    /// how many were removed.
    pub fn cleanup_expired(&mut self, now: u64) -> (r: usize)
        ensures
            final(self).sessions() == old(self).sessions().filter(
                |v: SessionView| !session_expired(v, now, old(self).ttl()),
            ),
            r == old(self).sessions().len() - final(self).sessions().len(),
            final(self).ttl() == old(self).ttl(),
    {
        let ghost before = self.sessions();
        let ttl = self.default_ttl;
        let ghost pred = |v: SessionView| !session_expired(v, now, ttl);
        let mut rest: Vec<SessionLog> = Vec::new();
        std::mem::swap(&mut rest, &mut self.sessions);
        let n = rest.len();
        let mut kept: Vec<SessionLog> = Vec::new();
        let mut i: usize = 0;
        assert(rest@.map_values(|l: SessionLog| l@) =~= before.subrange(0, n as int));
        proof {
            reveal(Seq::filter);
        }
        assert(kept@.map_values(|l: SessionLog| l@) =~= before.subrange(0, 0).filter(pred));
        while i < n
            invariant
                n == before.len(),
                i <= n,
                rest@.len() == n - i,
                rest@.map_values(|l: SessionLog| l@) =~= before.subrange(i as int, n as int),
                kept@.map_values(|l: SessionLog| l@) == before.subrange(0, i as int).filter(pred),
                kept@.len() <= i,
                pred == (|v: SessionView| !session_expired(v, now, ttl)),
            decreases n - i,
        {
            let ghost rest0 = rest@.map_values(|l: SessionLog| l@);
            let ghost kept0 = kept@.map_values(|l: SessionLog| l@);
            let log = rest.remove(0);
            proof {
                assert(log@ == rest0[0]);
                assert(rest0[0] == before[i as int]);
                assert(rest@.map_values(|l: SessionLog| l@) =~= rest0.subrange(1, rest0.len() as int));
            }
            let expired = now >= log.started_at && now - log.started_at > ttl;
            if !expired {
                kept.push(log);
                assert(kept@.map_values(|l: SessionLog| l@) =~= kept0.push(before[i as int]));
            }
            proof {
                let s1 = before.subrange(0, i + 1);
                assert(s1.drop_last() =~= before.subrange(0, i as int));
                assert(s1.last() == before[i as int]);
                assert(pred(before[i as int]) == !expired);
                reveal(Seq::filter);
                assert(s1.filter(pred) == (if pred(s1.last()) {
                    s1.drop_last().filter(pred).push(s1.last())
                } else {
                    s1.drop_last().filter(pred)
                }));
                assert(kept@.map_values(|l: SessionLog| l@) == s1.filter(pred));
            }
            i = i + 1;
        }
        assert(before.subrange(0, n as int) =~= before);
        self.sessions = kept;
        n - self.sessions.len()
    }

    /// Removes every session.
    pub fn clear_all(&mut self)
        ensures
            final(self).sessions() == Seq::<SessionView>::empty(),
            final(self).ttl() == old(self).ttl(),
    {
        self.sessions = Vec::new();
        assert(self.sessions() =~= Seq::<SessionView>::empty());
    }
}

proof fn lemma_session_index_first(s: Seq<SessionView>, id: Seq<char>, i: int)
    requires
        0 <= i < s.len(),
        session_index(s.subrange(0, i), id) == -1,
        s[i].session_id == id,
    ensures
        session_index(s, id) == i,
    decreases s.len() - i,
{
    if i == s.len() - 1 {
        assert(s.drop_last() =~= s.subrange(0, i));
    } else {
        let t = s.drop_last();
        assert(t.subrange(0, i) =~= s.subrange(0, i));
        assert(t[i] == s[i]);
        lemma_session_index_first(t, id, i);
    }
}

/// A record with the same fields as `r`.
pub fn copy_record(r: &PerformanceRecord) -> (c: PerformanceRecord)
    ensures
        c == *r,
{
    PerformanceRecord {
        start_time: r.start_time,
        end_time: r.end_time,
        channel_group: r.channel_group.clone(),
        channel_index: r.channel_index.clone(),
        msg: r.msg.clone(),
    }
}

} // verus!
