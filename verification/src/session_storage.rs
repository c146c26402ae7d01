use vstd::prelude::*;

use crate::open_api_models::Message;
use crate::text::{
    decimal_text, digits_value, format_decimal, join_path, lemma_decimal_text_injective,
    lemma_decimal_text_start, lemma_decimal_text_value,
    lemma_path_join_injective, path_join,
};

verus! {

/// How long a stored session stays in use after it was started, in seconds.
pub const SESSION_TTL_SECS: u64 = 300;

/// The earliest second (since the Unix epoch) that a UTC date-time can hold.
pub const MIN_TIMESTAMP_SECS: i64 = -8334601315200;

/// The latest second (since the Unix epoch) that a UTC date-time can hold.
pub const MAX_TIMESTAMP_SECS: i64 = 8210266876799;

/// An instant in UTC: whole seconds since the Unix epoch (not counting leap
/// seconds) and the nanoseconds past them. Nanoseconds of `1_000_000_000` or
/// more mark a leap second, which only follows a second that ends a minute.
#[derive(Debug, Clone, Copy, PartialEq, Eq, Structural)]
pub struct Timestamp {
    pub secs: i64,
    pub nanos: u32,
}

/// The instants that a UTC date-time can hold.
pub open spec fn representable(t: Timestamp) -> bool {
    &&& MIN_TIMESTAMP_SECS <= t.secs <= MAX_TIMESTAMP_SECS
    &&& (t.nanos < 1_000_000_000 || (t.nanos < 2_000_000_000 && (t.secs as int) % 60 == 59))
}

impl Timestamp {
    /// Whether a session started at this instant can be resumed without the
    /// end of its time to live overflowing the clock.
    pub fn is_resumable(&self) -> (ok: bool)
        ensures
            ok == resumable(*self),
    {
        date_time_exists(self) && ttl_end_exists(self, SESSION_TTL_SECS)
    }
}

/// `t` plus `secs` seconds, as (seconds, nanoseconds); a leap second is left
/// as soon as time moves on.
pub open spec fn later_by(t: Timestamp, secs: int) -> (int, int) {
    if t.nanos >= 1_000_000_000 {
        (t.secs + secs, t.nanos - 1_000_000_000)
    } else {
        (t.secs + secs, t.nanos as int)
    }
}

/// Strictly earlier, comparing seconds first and nanoseconds second.
pub open spec fn earlier(a: (int, int), b: (int, int)) -> bool {
    a.0 < b.0 || (a.0 == b.0 && a.1 < b.1)
}

/// The session started at `created` has outlived its time to live at `now`.
pub open spec fn expired(created: Timestamp, now: Timestamp) -> bool {
    earlier(later_by(created, SESSION_TTL_SECS as int), (now.secs as int, now.nanos as int))
}

/// Whether `chrono::DateTime::from_timestamp` accepts the instant.
/// The contract claims chrono's range and its rule that a leap second only
/// follows the last second of a minute.
#[verifier::external_body]
fn date_time_exists(t: &Timestamp) -> (ok: bool)
    ensures
        ok == representable(*t),
{
    chrono::DateTime::from_timestamp(t.secs, t.nanos).is_some()
}

/// Whether `checked_add_signed` of `ttl_secs` seconds (converted by
/// `chrono::Duration::from_std`) to the date-time of `t` stays within
/// chrono's range. The contract claims what chrono's source shows: the sum
/// falls `ttl_secs` seconds after the second of `t`, and the range ends with
/// the second `MAX_TIMESTAMP_SECS`.
#[verifier::external_body]
fn ttl_end_exists(t: &Timestamp, ttl_secs: u64) -> (ok: bool)
    requires
        representable(*t),
        1 <= ttl_secs <= 86_400,
    ensures
        ok == (t.secs + ttl_secs <= MAX_TIMESTAMP_SECS),
{
    let start = chrono::DateTime::from_timestamp(t.secs, t.nanos).unwrap();
    let ttl = chrono::Duration::from_std(std::time::Duration::from_secs(ttl_secs)).unwrap();
    start.checked_add_signed(ttl).is_some()
}

/// `std::time::SystemTime`: an instant of the system clock, carried through
/// unread.
#[verifier::external_type_specification]
#[verifier::external_body]
pub struct ExSystemTime(std::time::SystemTime);

/// `std::time::SystemTime::now()`.
/// Nothing is claimed of the instant: it is what the clock reads.
#[verifier::external_body]
fn system_now() -> (now: std::time::SystemTime) {
    std::time::SystemTime::now()
}

/// `SystemTime::duration_since(UNIX_EPOCH)`, as whole seconds and the
/// nanoseconds past them; `None` when the instant lies before the epoch.
/// The contract claims what the documentation of `Duration::subsec_nanos`
/// states: the nanoseconds are less than one billion.
#[verifier::external_body]
fn since_unix_epoch(t: &std::time::SystemTime) -> (since: Option<(u64, u32)>)
    ensures
        since matches Some(d) ==> d.1 < 1_000_000_000,
{
    match t.duration_since(std::time::UNIX_EPOCH) {
        Ok(d) => Some((d.as_secs(), d.subsec_nanos())),
        Err(_) => None,
    }
}

/// A reading of the system clock: what `since_unix_epoch` gave for an
/// instant that `system_now` gave, on calls that were made.
pub closed spec fn clock_reading(reading: Option<(u64, u32)>) -> bool {
    exists|clock: std::time::SystemTime|
        call_ensures(system_now, (), clock) && #[trigger] call_ensures(
            since_unix_epoch,
            (&clock,),
            reading,
        )
}

/// The instant that a reading of the clock stands for, as `chrono::Utc::now`
/// turns it into a date-time: the whole seconds and nanoseconds since the
/// epoch, when chrono can hold them; `None` when the clock reads before the
/// epoch or beyond the last date-time.
pub open spec fn instant_of(reading: Option<(u64, u32)>) -> Option<Timestamp> {
    match reading {
        Some(d) => if d.0 <= i64::MAX && representable(Timestamp { secs: d.0 as i64, nanos: d.1 }) {
            Some(Timestamp { secs: d.0 as i64, nanos: d.1 })
        } else {
            None
        },
        None => None,
    }
}

/// The current instant as `chrono::Utc::now` reads it (the system clock
/// measured from the Unix epoch, as a UTC date-time), or `None` where that
/// call would panic: when the clock reads before the epoch or beyond the last
/// date-time chrono can hold.
fn current_time() -> (now: Option<Timestamp>)
    ensures
        now matches Some(t) ==> representable(t) && t.nanos < 1_000_000_000,
        exists|reading: Option<(u64, u32)>| clock_reading(reading) && now == instant_of(reading),
{
    let read_clock = system_now;
    let measure = since_unix_epoch;
    let clock = read_clock();
    let reading = measure(&clock);
    proof {
        assert(clock_reading(reading));
    }
    match reading {
        None => None,
        Some((secs, nanos)) => {
            if secs > i64::MAX as u64 {
                return None;
            }
            let t = Timestamp { secs: secs as i64, nanos };
            if date_time_exists(&t) {
                Some(t)
            } else {
                None
            }
        },
    }
}

/// `created + ttl < now` on `chrono::DateTime<Utc>` values, with the time to
/// live converted by `chrono::Duration::from_std`.
/// The contract claims what chrono's source shows for a positive time to
/// live: the sum is `ttl_secs` seconds later, a leap second being left, and
/// date-times are ordered by seconds, then nanoseconds.
#[verifier::external_body]
fn outlived(created: &Timestamp, ttl_secs: u64, now: &Timestamp) -> (passed: bool)
    requires
        representable(*created),
        representable(*now),
        1 <= ttl_secs <= 86_400,
        created.secs + ttl_secs <= MAX_TIMESTAMP_SECS,
    ensures
        passed == earlier(later_by(*created, ttl_secs as int), (now.secs as int, now.nanos as int)),
{
    let created = chrono::DateTime::from_timestamp(created.secs, created.nanos).unwrap();
    let now = chrono::DateTime::from_timestamp(now.secs, now.nanos).unwrap();
    let ttl = chrono::Duration::from_std(std::time::Duration::from_secs(ttl_secs)).unwrap();
    created + ttl < now
}

/// The last `depth` messages of `messages` (all of them when there are no
/// more than `depth`).
pub open spec fn last_messages(messages: Seq<Message>, depth: nat) -> Seq<Message> {
    if depth >= messages.len() {
        messages
    } else {
        messages.subrange(messages.len() - depth, messages.len() as int)
    }
}

/// Trimming keeps no more messages than asked for, and never more than
/// there were.
pub proof fn lemma_trim_within_depth(messages: Seq<Message>, depth: nat)
    ensures
        last_messages(messages, depth).len() <= depth,
        last_messages(messages, depth).len() <= messages.len(),
        last_messages(messages, depth).len() == if depth < messages.len() { depth } else { messages.len() },
{
}

/// The messages kept by trimming are the newest ones, in their order: they
/// end the conversation.
pub proof fn lemma_trim_keeps_suffix(messages: Seq<Message>, depth: nat)
    ensures
        forall|i: int|
            0 <= i < last_messages(messages, depth).len() ==> #[trigger] last_messages(messages, depth)[i]
                == messages[messages.len() - last_messages(messages, depth).len() + i],
{
}

/// Trimming to a depth no smaller than the conversation changes nothing.
pub proof fn lemma_trim_short_unchanged(messages: Seq<Message>, depth: nat)
    requires
        messages.len() <= depth,
    ensures
        last_messages(messages, depth) == messages,
{
}

/// Trimming twice to the same depth is trimming once.
pub proof fn lemma_trim_idempotent(messages: Seq<Message>, depth: nat)
    ensures
        last_messages(last_messages(messages, depth), depth) == last_messages(messages, depth),
{
}

/// Trimming to `a`, then to `b`, is trimming to the smaller of the two.
pub proof fn lemma_trim_twice(messages: Seq<Message>, a: nat, b: nat)
    ensures
        last_messages(last_messages(messages, a), b) == last_messages(
            messages,
            if a < b { a } else { b },
        ),
{
    let n = messages.len();
    if a < n && b < a {
        assert(last_messages(last_messages(messages, a), b) =~= messages.subrange(n - b, n as int));
    }
}

/// After a question and its answer are added and the conversation is trimmed
/// to at least two messages, it ends with the question, then the answer.
pub proof fn lemma_exchange_kept(messages: Seq<Message>, question: Message, answer: Message, depth: nat)
    requires
        depth >= 2,
    ensures
        ({
            let kept = last_messages(messages.push(question).push(answer), depth);
            &&& kept.len() >= 2
            &&& kept.len() <= depth
            &&& kept[kept.len() - 2] == question
            &&& kept[kept.len() - 1] == answer
        }),
{
}

/// A session started at `now` is still in use at `now`.
pub proof fn lemma_fresh_not_expired(now: Timestamp)
    requires
        representable(now),
    ensures
        !expired(now, now),
{
}

/// Once a session has outlived its time to live, it stays outlived.
pub proof fn lemma_expired_stays(created: Timestamp, now: Timestamp, later: Timestamp)
    requires
        expired(created, now),
        !earlier((later.secs as int, later.nanos as int), (now.secs as int, now.nanos as int)),
    ensures
        expired(created, later),
{
}

/// A session is in use until its time to live has passed, and outlived once
/// it has: started at second `s` (not in a leap second), it is kept at any
/// instant up to `s + 300` and replaced after.
pub proof fn lemma_expiry_boundary(created: Timestamp, now: Timestamp)
    requires
        created.nanos < 1_000_000_000,
    ensures
        expired(created, now) <==> (now.secs > created.secs + 300 || (now.secs == created.secs + 300
            && now.nanos > created.nanos)),
{
}

/// A conversation: when it started and its messages, oldest first.
#[derive(Debug)]
pub struct Session {
    pub created_at: Timestamp,
    pub messages: Vec<Message>,
}

/// `session` started at `now` and holds no message yet.
pub open spec fn fresh_at(session: Session, now: Timestamp) -> bool {
    session.created_at == now && session.messages@ == Seq::<Message>::empty()
}

/// A stored session can be resumed at `now` without overflowing the clock.
pub open spec fn resumable(created: Timestamp) -> bool {
    representable(created) && created.secs + SESSION_TTL_SECS <= MAX_TIMESTAMP_SECS
}

/// What starting a session does with the instant the clock gave: a session
/// with no message stamped with that instant, or none when the clock could
/// not be read.
pub open spec fn started_by_clock(now: Option<Timestamp>, session: Option<Session>) -> bool {
    match now {
        Some(now) => session matches Some(s) && fresh_at(s, now),
        None => session is None,
    }
}

/// What restoring a stored session does with the instant the clock gave:
/// the stored session while its time to live lasts at that instant, else a
/// fresh session stamped with it; none only when the clock could not be read.
pub open spec fn restored_by_clock(stored: Option<Session>, now: Option<Timestamp>, restored: Option<Session>) -> bool {
    match now {
        Some(now) => restored matches Some(session) && match stored {
            Some(s) => if expired(s.created_at, now) {
                fresh_at(session, now)
            } else {
                session == s
            },
            None => fresh_at(session, now),
        },
        None => restored is None,
    }
}

/// The instant a clock reading stands for is exactly its seconds and
/// nanoseconds since the epoch, whenever chrono can hold them.
pub proof fn lemma_instant_is_reading(secs: u64, nanos: u32)
    requires
        secs <= MAX_TIMESTAMP_SECS,
        nanos < 1_000_000_000,
    ensures
        instant_of(Some((secs, nanos))) == Some(Timestamp { secs: secs as i64, nanos }),
{
}

/// A new session holds no message and is stamped with the very instant the
/// clock gave.
pub proof fn lemma_new_session_stamped_now(now: Timestamp, session: Option<Session>)
    requires
        started_by_clock(Some(now), session),
    ensures
        session matches Some(s) && s.created_at.secs == now.secs && s.created_at.nanos == now.nanos
            && s.messages@.len() == 0,
{
}

/// A clock that can be read always gives a session, whatever was stored.
pub proof fn lemma_restore_succeeds(stored: Option<Session>, now: Timestamp, restored: Option<Session>)
    requires
        restored_by_clock(stored, Some(now), restored),
    ensures
        restored is Some,
{
}

/// A stored session started more than five minutes before the clock's
/// reading is replaced by an empty session stamped with that reading.
pub proof fn lemma_restore_replaces_old(stored: Session, now: Timestamp, restored: Option<Session>)
    requires
        restored_by_clock(Some(stored), Some(now), restored),
        stored.created_at.secs + 300 < now.secs,
    ensures
        restored matches Some(s) && s.created_at == now && s.messages@.len() == 0,
{
}

/// A stored session started less than five minutes before the clock's
/// reading is kept as it is, with all its messages.
pub proof fn lemma_restore_keeps_recent(stored: Session, now: Timestamp, restored: Option<Session>)
    requires
        restored_by_clock(Some(stored), Some(now), restored),
        now.secs < stored.created_at.secs + 300,
    ensures
        restored matches Some(s) && s.created_at == stored.created_at && s.messages@
            == stored.messages@,
{
}

impl Clone for Session {
    fn clone(&self) -> (copy: Self)
        ensures
            copy.created_at == self.created_at,
            copy.messages@ == self.messages@,
    {
        let messages = self.messages.clone();
        proof {
            assert(messages@ =~= self.messages@);
        }
        Session { created_at: self.created_at, messages }
    }
}

impl Session {
    /// A session that starts now, with no message; `None` when the system
    /// clock reads before the Unix epoch or beyond the last date-time.
    pub fn new() -> (session: Option<Session>)
        ensures
            session matches Some(s) ==> representable(s.created_at) && s.messages@ == Seq::<
                Message,
            >::empty(),
            exists|reading: Option<(u64, u32)>|
                clock_reading(reading) && started_by_clock(instant_of(reading), session),
    {
        match current_time() {
            Some(now) => Some(Session::started_at(now)),
            None => None,
        }
    }

    /// A session that starts at `now`, with no message.
    pub fn started_at(now: Timestamp) -> (session: Session)
        ensures
            fresh_at(session, now),
    {
        Session { created_at: now, messages: Vec::new() }
    }

    /// Appends `message` after the other messages.
    pub fn push_message(&mut self, message: Message)
        ensures
            final(self).messages@ == old(self).messages@.push(message),
            final(self).created_at == old(self).created_at,
    {
        self.messages.push(message);
    }

    /// Keeps only the last `depth` messages.
    pub fn trim(&mut self, depth: usize)
        ensures
            final(self).messages@ == last_messages(old(self).messages@, depth as nat),
            final(self).created_at == old(self).created_at,
    {
        let len = self.messages.len();
        if depth < len {
            let kept = self.messages.split_off(len - depth);
            self.messages = kept;
        }
    }

    /// The session to go on with at `now`, given the one that was stored, if
    /// any: the stored one while its time to live lasts, else a fresh one
    /// started at `now`.
    pub fn resume(stored: Option<Session>, now: Timestamp) -> (session: Session)
        requires
            representable(now),
            stored matches Some(s) ==> resumable(s.created_at),
        ensures
            match stored {
                Some(s) => if expired(s.created_at, now) {
                    fresh_at(session, now)
                } else {
                    session == s
                },
                None => fresh_at(session, now),
            },
    {
        match stored {
            Some(s) => {
                if outlived(&s.created_at, SESSION_TTL_SECS, &now) {
                    Session::started_at(now)
                } else {
                    s
                }
            },
            None => Session::started_at(now),
        }
    }

    /// The session to go on with now, given the one that was stored, if any;
    /// `None` when the system clock reads before the Unix epoch or beyond the
    /// last date-time.
    pub fn restore(stored: Option<Session>) -> (restored: Option<Session>)
        requires
            stored matches Some(s) ==> resumable(s.created_at),
        ensures
            exists|reading: Option<(u64, u32)>|
                clock_reading(reading) && restored_by_clock(stored, instant_of(reading), restored),
            restored matches Some(session) ==> exists|now: Timestamp|
                representable(now) && match stored {
                    Some(s) => if expired(s.created_at, now) {
                        fresh_at(session, now)
                    } else {
                        session == s
                    },
                    None => fresh_at(session, now),
                },
    {
        match current_time() {
            Some(now) => Some(Session::resume(stored, now)),
            None => None,
        }
    }
}

/// Where the session of one terminal is stored.
pub struct SessionStorage {
    path: String,
}

/// The name of the file that holds the session with the given id.
pub open spec fn session_file_name(session_id: int) -> Seq<char> {
    decimal_text(session_id) + ".json"@
}

/// The name of a session file is the id written in decimal (a minus sign
/// for a negative id, then digits that read back as its magnitude),
/// followed by `.json`.
pub proof fn lemma_session_file_name_reads_back(session_id: int)
    ensures
        ({
            let name = session_file_name(session_id);
            let id_text = name.subrange(0, name.len() - 5);
            &&& name.subrange(name.len() - 5, name.len() as int) == ".json"@
            &&& (id_text[0] == '-') == (session_id < 0)
            &&& session_id < 0 ==> digits_value(id_text.drop_first()) == -session_id
            &&& session_id >= 0 ==> digits_value(id_text) == session_id
        }),
{
    let name = session_file_name(session_id);
    reveal_strlit(".json");
    lemma_decimal_text_value(session_id);
    assert(name.subrange(0, name.len() - 5) =~= decimal_text(session_id));
    assert(name.subrange(name.len() - 5, name.len() as int) =~= ".json"@);
}

/// Sessions with different ids are kept in different files of the same
/// directory, so one terminal never reads or overwrites another's session.
pub proof fn lemma_session_paths_distinct(dir: Seq<char>, a: int, b: int)
    requires
        a != b,
    ensures
        session_file_name(a) != session_file_name(b),
        path_join(dir, session_file_name(a)) != path_join(dir, session_file_name(b)),
{
    lemma_decimal_text_injective(a, b);
    lemma_decimal_text_start(a);
    lemma_decimal_text_start(b);
    let na = session_file_name(a);
    let nb = session_file_name(b);
    if na == nb {
        let ta = decimal_text(a);
        let tb = decimal_text(b);
        assert(na.len() == nb.len());
        assert(na.subrange(0, ta.len() as int) =~= ta);
        assert(nb.subrange(0, tb.len() as int) =~= tb);
    }
    assert(na[0] == decimal_text(a)[0]);
    assert(nb[0] == decimal_text(b)[0]);
    lemma_path_join_injective(dir, na, nb);
}

impl SessionStorage {
    /// The text of the path of the session file.
    pub closed spec fn path_text(&self) -> Seq<char> {
        self.path@
    }

    /// Storage for the session with id `session_id` in the directory `dir`.
    pub fn new(dir: &str, session_id: i32) -> (storage: SessionStorage)
        ensures
            storage.path_text() == path_join(dir@, session_file_name(session_id as int)),
            dir@.len() > 0 && dir@.last() != '/' ==> storage.path_text() == dir@ + seq!['/']
                + session_file_name(session_id as int),
    {
        let name = format_decimal(session_id as i64).concat(".json");
        proof {
            lemma_decimal_text_start(session_id as int);
            assert(name@[0] == decimal_text(session_id as int)[0]);
        }
        SessionStorage { path: join_path(dir, name.as_str()) }
    }

    /// The path of the session file.
    pub fn path(&self) -> (path: &str)
        ensures
            path@ == self.path_text(),
    {
        self.path.as_str()
    }
}

} // verus!
