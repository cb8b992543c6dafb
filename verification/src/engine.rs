//! Core engine: actions, errors, the `Game` trait, sessions and the `Engine`
//! that wires registered games with a session store.

use vstd::prelude::*;
use crate::sort::sort_by_key;
use rand::RngCore;

verus! {

// ---------------------------------------------------------------------------
// Action
// ---------------------------------------------------------------------------

/// A generic instruction sent by a client/actor.
///
/// The payload holds, for each key, the value as an integer when it is one
/// (`None` for any other value): that is all the rules read of it.
pub struct Action {
    pub action_type: String,
    pub actor: Option<String>,
    pub payload: Option<Vec<(String, Option<i64>)>>,
    pub idempotency_key: Option<String>,
}

/// The mathematical view of an [`Action`].
pub struct ActionView {
    pub action_type: Seq<char>,
    pub actor: Option<Seq<char>>,
    pub payload: Option<Seq<(Seq<char>, Option<i64>)>>,
    pub idempotency_key: Option<Seq<char>>,
}

pub open spec fn opt_string_view(o: Option<String>) -> Option<Seq<char>> {
    match o {
        Some(s) => Some(s@),
        None => None,
    }
}

pub open spec fn payload_view(p: Seq<(String, Option<i64>)>) -> Seq<(Seq<char>, Option<i64>)> {
    p.map_values(|e: (String, Option<i64>)| (e.0@, e.1))
}

impl View for Action {
    type V = ActionView;

    open spec fn view(&self) -> ActionView {
        ActionView {
            action_type: self.action_type@,
            actor: opt_string_view(self.actor),
            payload: match self.payload {
                Some(p) => Some(payload_view(p@)),
                None => None,
            },
            idempotency_key: opt_string_view(self.idempotency_key),
        }
    }
}

/// The value stored under the first entry with `key`, if any.
pub open spec fn payload_lookup(p: Seq<(Seq<char>, Option<i64>)>, key: Seq<char>) -> Option<Option<i64>>
    decreases p.len(),
{
    if p.len() == 0 {
        None
    } else if p[0].0 == key {
        Some(p[0].1)
    } else {
        payload_lookup(p.drop_first(), key)
    }
}

/// The integer under `key` in the payload, narrowed to `i32` as `as` does.
pub open spec fn payload_int(a: ActionView, key: Seq<char>) -> Option<i32> {
    match a.payload {
        None => None,
        Some(p) => match payload_lookup(p, key) {
            Some(Some(v)) => Some(v as i32),
            _ => None,
        },
    }
}

/// Reads an integer of the payload, narrowed to `i32`.
pub fn get_int(action: &Action, key: &str) -> (r: Option<i32>)
    ensures
        r == payload_int(action@, key@),
{
    match &action.payload {
        None => None,
        Some(p) => {
            let key_string = key.to_owned();
            let ghost pv = payload_view(p@);
            let mut i: usize = 0;
            assert(pv.skip(0) =~= pv);
            while i < p.len()
                invariant
                    i <= p@.len(),
                    pv == payload_view(p@),
                    action@.payload == Some(pv),
                    key_string@ == key@,
                    payload_lookup(pv, key@) == payload_lookup(pv.skip(i as int), key@),
                decreases p@.len() - i,
            {
                proof {
                    assert(pv[i as int] == (p@[i as int].0@, p@[i as int].1));
                    assert(pv.skip(i as int)[0] == pv[i as int]);
                    assert(pv.skip(i as int).drop_first() =~= pv.skip(i + 1));
                }
                if p[i].0 == key_string {
                    assert(action@.payload == Some(pv));
                    assert(payload_lookup(pv.skip(i as int), key@) == Some(p@[i as int].1));
                    return match p[i].1 {
                        Some(v) => Some(#[verifier::truncate] (v as i32)),
                        None => None,
                    };
                }
                i = i + 1;
            }
            None
        },
    }
}

// ---------------------------------------------------------------------------
// Errors
// ---------------------------------------------------------------------------

/// Errors produced by the game logic.
#[derive(Debug, Clone)]
pub struct GameError(pub String);

impl GameError {
    /// The text of the error, as shown to clients.
    pub fn message(&self) -> (m: String)
        ensures
            m@ == self.0@,
    {
        self.0.clone()
    }
}

/// Errors produced by the engine / store layer.
#[derive(Debug, Clone, PartialEq, Eq)]
pub enum EngineError {
    GameNotFound,
    SessionNotFound,
    Conflict,
    Validation(String),
    Store(String),
}

/// The text of an engine error, as shown to clients.
pub open spec fn engine_error_text(e: EngineError) -> Seq<char> {
    match e {
        EngineError::GameNotFound => "engine: game not found"@,
        EngineError::SessionNotFound => "engine: session not found"@,
        EngineError::Conflict => "engine: conflict"@,
        EngineError::Validation(msg) => msg@,
        EngineError::Store(msg) => "store: "@ + msg@,
    }
}

/// The HTTP status an engine error is answered with.
pub open spec fn engine_error_status(e: EngineError) -> u16 {
    match e {
        EngineError::GameNotFound | EngineError::SessionNotFound => 404,
        EngineError::Conflict => 409,
        EngineError::Validation(_) | EngineError::Store(_) => 400,
    }
}

impl EngineError {
    /// The text of the error, as shown to clients.
    pub fn message(&self) -> (m: String)
        ensures
            m@ == engine_error_text(*self),
    {
        match self {
            EngineError::GameNotFound => "engine: game not found".to_owned(),
            EngineError::SessionNotFound => "engine: session not found".to_owned(),
            EngineError::Conflict => "engine: conflict".to_owned(),
            EngineError::Validation(msg) => msg.clone(),
            EngineError::Store(msg) => {
                let mut s = "store: ".to_owned();
                s.append(msg.as_str());
                s
            },
        }
    }

    /// The HTTP status the error is answered with: not found (404) for a
    /// missing game or session, conflict (409), bad request (400) otherwise.
    pub fn http_status(&self) -> (code: u16)
        ensures
            code == engine_error_status(*self),
    {
        match self {
            EngineError::GameNotFound | EngineError::SessionNotFound => 404,
            EngineError::Conflict => 409,
            EngineError::Validation(_) | EngineError::Store(_) => 400,
        }
    }
}

// ---------------------------------------------------------------------------
// Game trait
// ---------------------------------------------------------------------------

/// What `validate` answers: `Ok` or the error's text.
pub open spec fn validation_matches(r: Result<(), GameError>, expected: Result<(), Seq<char>>) -> bool {
    match r {
        Ok(_) => expected is Ok,
        Err(e) => expected == Err::<(), Seq<char>>(e.0@),
    }
}

/// What `apply` answers: the new state or the error's text.
pub open spec fn application_matches<T: View>(r: Result<T, GameError>, expected: Result<T::V, Seq<char>>) -> bool {
    match r {
        Ok(s) => expected == Ok::<T::V, Seq<char>>(s@),
        Err(e) => expected == Err::<T::V, Seq<char>>(e.0@),
    }
}

/// A game's state: it has a mathematical view and can be copied.
pub trait GameState: View + Sized {
    /// A copy of the state.
    fn duplicate(&self) -> (r: Self)
        ensures
            r@ == self@,
    ;
}

/// The view of the state of a game.
pub type ViewOf<G> = <<G as Game>::State as View>::V;

/// Defines the logic for a particular game. Implementations are deterministic
/// and pure: each method's result is a function of its arguments, given by the
/// spec functions of the trait.
pub trait Game {
    /// The state of a deal of the game.
    type State: GameState;

    /// The game's stable, unique name.
    spec fn spec_name(&self) -> Seq<char>;

    /// The starting state for a seed.
    spec fn spec_initial_state(&self, seed: i64) -> <Self::State as View>::V;

    /// What more the game knows of its starting state for a seed, as
    /// `initial_state` finds it.
    spec fn spec_initial_state_facts(&self, seed: i64) -> bool;

    /// The answer of `validate`.
    spec fn spec_validate(&self, st: <Self::State as View>::V, a: ActionView) -> Result<(), Seq<char>>;

    /// The answer of `apply`.
    spec fn spec_apply(&self, st: <Self::State as View>::V, a: ActionView) -> Result<<Self::State as View>::V, Seq<char>>;

    /// The inputs on which `validate` is defined.
    spec fn spec_validate_defined(&self, st: <Self::State as View>::V, a: ActionView) -> bool;

    /// The inputs on which `apply` is defined.
    spec fn spec_apply_defined(&self, st: <Self::State as View>::V, a: ActionView) -> bool;

    /// A stable, unique name for the game (e.g. "sixtysix").
    fn name(&self) -> (n: &str)
        ensures
            n@ == self.spec_name(),
    ;

    /// Create the starting state. `seed` enables deterministic randomness.
    fn initial_state(&self, seed: i64) -> (s: Self::State)
        ensures
            s@ == self.spec_initial_state(seed),
            self.spec_initial_state_facts(seed),
    ;

    /// Check whether an action is valid given the state.
    fn validate(&self, state: &Self::State, action: &Action) -> (r: Result<(), GameError>)
        requires
            self.spec_validate_defined(state@, action@),
        ensures
            validation_matches(r, self.spec_validate(state@, action@)),
    ;

    /// Return a new state after applying the action.
    fn apply(&self, state: &Self::State, action: &Action) -> (r: Result<Self::State, GameError>)
        requires
            self.spec_apply_defined(state@, action@),
        ensures
            application_matches(r, self.spec_apply(state@, action@)),
    ;

    /// Whether `validate` is defined on these inputs.
    fn validate_defined(&self, state: &Self::State, action: &Action) -> (b: bool)
        ensures
            b == self.spec_validate_defined(state@, action@),
    ;

    /// Whether `apply` is defined on these inputs.
    fn apply_defined(&self, state: &Self::State, action: &Action) -> (b: bool)
        ensures
            b == self.spec_apply_defined(state@, action@),
    ;
}


/// The mathematical view of an [`EngineError`].
pub enum EngineErrorView {
    GameNotFound,
    SessionNotFound,
    Conflict,
    Validation(Seq<char>),
    Store(Seq<char>),
}

impl View for EngineError {
    type V = EngineErrorView;

    open spec fn view(&self) -> EngineErrorView {
        match self {
            EngineError::GameNotFound => EngineErrorView::GameNotFound,
            EngineError::SessionNotFound => EngineErrorView::SessionNotFound,
            EngineError::Conflict => EngineErrorView::Conflict,
            EngineError::Validation(m) => EngineErrorView::Validation(m@),
            EngineError::Store(m) => EngineErrorView::Store(m@),
        }
    }
}

// ---------------------------------------------------------------------------
// Session
// ---------------------------------------------------------------------------

/// A point in time: whole seconds since the Unix epoch and the nanoseconds
/// within that second (above 999,999,999 only during a leap second).
#[derive(Debug, Clone, Copy, PartialEq, Eq)]
pub struct Timestamp {
    pub secs: i64,
    pub nanos: u32,
}

/// The position of a timestamp on the time line: later times have larger keys.
pub open spec fn time_key(t: Timestamp) -> int {
    t.secs * 4294967296 + t.nanos
}

/// Whether `a` is later than `b`.
pub fn later_than(a: Timestamp, b: Timestamp) -> (r: bool)
    ensures
        r == (time_key(a) > time_key(b)),
{
    a.secs > b.secs || (a.secs == b.secs && a.nanos > b.nanos)
}

/// A single instance of a game.
#[derive(Debug, Clone)]
pub struct Session<T> {
    pub id: String,
    pub game_name: String,
    pub state: T,
    pub version: u64,
    pub created_at: Timestamp,
    pub updated_at: Timestamp,
}

/// The mathematical view of a [`Session`].
pub struct SessionView<V> {
    pub id: Seq<char>,
    pub game_name: Seq<char>,
    pub state: V,
    pub version: u64,
    pub created_at: Timestamp,
    pub updated_at: Timestamp,
}

impl<T: View> View for Session<T> {
    type V = SessionView<T::V>;

    open spec fn view(&self) -> SessionView<T::V> {
        SessionView {
            id: self.id@,
            game_name: self.game_name@,
            state: self.state@,
            version: self.version,
            created_at: self.created_at,
            updated_at: self.updated_at,
        }
    }
}

impl<T: GameState> Session<T> {
    /// A copy of the session.
    pub fn copy(&self) -> (r: Session<T>)
        ensures
            r@ == self@,
    {
        Session {
            id: self.id.clone(),
            game_name: self.game_name.clone(),
            state: self.state.duplicate(),
            version: self.version,
            created_at: self.created_at,
            updated_at: self.updated_at,
        }
    }
}

/// The views of a list of sessions.
pub open spec fn sessions_view<T: View>(v: Seq<Session<T>>) -> Seq<SessionView<T::V>> {
    v.map_values(|s: Session<T>| s@)
}

// ---------------------------------------------------------------------------
// Store trait and the model of a store
// ---------------------------------------------------------------------------

/// No two sessions share an id.
pub open spec fn ids_unique<V>(s: Seq<SessionView<V>>) -> bool {
    forall|i: int, j: int| 0 <= i < j < s.len() ==> s[i].id != s[j].id
}

/// Some session has this id.
pub open spec fn has_id<V>(s: Seq<SessionView<V>>, id: Seq<char>) -> bool {
    exists|i: int| 0 <= i < s.len() && s[i].id == id
}

/// The position of the session with this id (meaningful when there is one).
pub open spec fn position_of<V>(s: Seq<SessionView<V>>, id: Seq<char>) -> int {
    choose|i: int| 0 <= i < s.len() && s[i].id == id
}

/// The session with this id, if any.
pub open spec fn session_with_id<V>(s: Seq<SessionView<V>>, id: Seq<char>) -> Option<SessionView<V>> {
    if has_id(s, id) {
        Some(s[position_of(s, id)])
    } else {
        None
    }
}

/// The sessions after an update: the session with the same id replaced.
pub open spec fn after_update<V>(s: Seq<SessionView<V>>, session: SessionView<V>) -> Seq<SessionView<V>> {
    s.update(position_of(s, session.id), session)
}

/// The sessions after the session with this id is deleted.
pub open spec fn after_delete<V>(s: Seq<SessionView<V>>, id: Seq<char>) -> Seq<SessionView<V>> {
    s.remove(position_of(s, id))
}

/// A session belongs to a listing for `game_name`: every session does when the
/// name is empty.
pub open spec fn matches_game<V>(s: SessionView<V>, game_name: Seq<char>) -> bool {
    game_name.len() == 0 || s.game_name == game_name
}

/// The sessions of `s` that belong to a listing for `game_name`, in order.
pub open spec fn matching_sessions<V>(s: Seq<SessionView<V>>, game_name: Seq<char>) -> Seq<SessionView<V>>
    decreases s.len(),
{
    if s.len() == 0 {
        s
    } else if matches_game(s.last(), game_name) {
        matching_sessions(s.drop_last(), game_name).push(s.last())
    } else {
        matching_sessions(s.drop_last(), game_name)
    }
}

/// The key sessions are listed by: their creation time.
pub open spec fn created_key<V>() -> spec_fn(SessionView<V>) -> int {
    |s: SessionView<V>| time_key(s.created_at)
}

/// Where a page of a listing of `len` items ends.
pub open spec fn page_end(len: int, offset: int, limit: int) -> int {
    if limit == 0 {
        len
    } else if offset + limit < len {
        offset + limit
    } else {
        len
    }
}

/// The page of `all` that starts at `offset` and holds at most `limit` items
/// (all the rest when `limit` is 0).
pub open spec fn page<A>(all: Seq<A>, offset: int, limit: int) -> Seq<A> {
    if offset >= all.len() {
        Seq::empty()
    } else {
        all.subrange(offset, page_end(all.len() as int, offset, limit))
    }
}

/// A listing: the matching sessions, oldest first (equal creation times in
/// creation order), paged.
pub open spec fn listing<V>(s: Seq<SessionView<V>>, game_name: Seq<char>, offset: int, limit: int) -> Seq<SessionView<V>> {
    page(sort_by_key(matching_sessions(s, game_name), created_key()), offset, limit)
}

/// The page bounds can be computed without overflow.
pub open spec fn page_fits<V>(s: Seq<SessionView<V>>, game_name: Seq<char>, offset: int, limit: int) -> bool {
    (offset < matching_sessions(s, game_name).len() && limit != 0) ==> offset + limit <= usize::MAX
}

/// The view of a session that may be missing.
pub open spec fn opt_session_view<T: View>(o: Option<Session<T>>) -> Option<SessionView<T::V>> {
    match o {
        Some(s) => Some(s@),
        None => None,
    }
}

/// Abstracts persistence for sessions. A store holds a sequence of sessions
/// with distinct ids, in the order they were created, given by `sessions`.
/// A method that fails leaves the sessions as they were. A store that is
/// `reliable` fails only on the refusals named below (a taken id for `create`,
/// a missing id for `update` and `delete`); another store may also fail with
/// errors of its own (of I/O, say), each a `Store` error whose message
/// `fails_with` admits.
pub trait Store<T: GameState> {
    /// The sessions held, in the order they were created.
    spec fn sessions(&self) -> Seq<SessionView<T::V>>;

    /// The store fails only on the refusals its methods name.
    spec fn reliable(&self) -> bool;

    /// The messages of the `Store` errors the store may fail with of its own.
    spec fn fails_with(&self, msg: Seq<char>) -> bool;

    /// Adds a session. Refused when its id is taken.
    fn create(&mut self, session: Session<T>) -> (r: Result<(), EngineError>)
        requires
            ids_unique(old(self).sessions()),
        ensures
            ids_unique(final(self).sessions()),
            final(self).reliable() == old(self).reliable(),
            forall|m: Seq<char>| #[trigger] final(self).fails_with(m) == old(self).fails_with(m),
            has_id(old(self).sessions(), session@.id) ==> r is Err,
            r matches Err(e) ==> (has_id(old(self).sessions(), session@.id) && e@
                == EngineErrorView::Store("duplicate id"@)) || (e@ matches EngineErrorView::Store(m)
                && old(self).fails_with(m)),
            old(self).reliable() ==> (r is Ok <==> !has_id(old(self).sessions(), session@.id)),
            r is Ok ==> final(self).sessions() == old(self).sessions().push(session@),
            r is Err ==> final(self).sessions() == old(self).sessions(),
    ;

    /// The session with this id, `None` when there is none.
    fn get(&self, id: &str) -> (r: Result<Option<Session<T>>, EngineError>)
        requires
            ids_unique(self.sessions()),
        ensures
            r matches Ok(o) ==> opt_session_view(o) == session_with_id(self.sessions(), id@),
            self.reliable() ==> r is Ok,
            r matches Err(e) ==> (e@ matches EngineErrorView::Store(m) && self.fails_with(m)),
    ;

    /// Replaces the session with the same id. Refused when there is none.
    fn update(&mut self, session: Session<T>) -> (r: Result<(), EngineError>)
        requires
            ids_unique(old(self).sessions()),
        ensures
            ids_unique(final(self).sessions()),
            final(self).reliable() == old(self).reliable(),
            forall|m: Seq<char>| #[trigger] final(self).fails_with(m) == old(self).fails_with(m),
            !has_id(old(self).sessions(), session@.id) ==> r is Err,
            r matches Err(e) ==> (!has_id(old(self).sessions(), session@.id) && e@
                == EngineErrorView::SessionNotFound) || (e@ matches EngineErrorView::Store(m)
                && old(self).fails_with(m)),
            old(self).reliable() ==> (r is Ok <==> has_id(old(self).sessions(), session@.id)),
            old(self).reliable() ==> (r matches Err(e) ==> e@ == EngineErrorView::SessionNotFound),
            r is Ok ==> final(self).sessions() == after_update(old(self).sessions(), session@),
            r is Err ==> final(self).sessions() == old(self).sessions(),
    ;

    /// A page of the sessions of a game (of every game when `game_name` is
    /// empty), oldest first.
    fn list(&self, game_name: &str, offset: usize, limit: usize) -> (r: Result<
        Vec<Session<T>>,
        EngineError,
    >)
        requires
            ids_unique(self.sessions()),
            page_fits(self.sessions(), game_name@, offset as int, limit as int),
        ensures
            r matches Ok(v) ==> sessions_view(v@) == listing(
                self.sessions(),
                game_name@,
                offset as int,
                limit as int,
            ),
            self.reliable() ==> r is Ok,
            r matches Err(e) ==> (e@ matches EngineErrorView::Store(m) && self.fails_with(m)),
    ;

    /// Deletes the session with this id. Refused when there is none.
    fn delete(&mut self, id: &str) -> (r: Result<(), EngineError>)
        requires
            ids_unique(old(self).sessions()),
        ensures
            ids_unique(final(self).sessions()),
            final(self).reliable() == old(self).reliable(),
            forall|m: Seq<char>| #[trigger] final(self).fails_with(m) == old(self).fails_with(m),
            !has_id(old(self).sessions(), id@) ==> r is Err,
            r matches Err(e) ==> (!has_id(old(self).sessions(), id@) && e@
                == EngineErrorView::SessionNotFound) || (e@ matches EngineErrorView::Store(m)
                && old(self).fails_with(m)),
            old(self).reliable() ==> (r is Ok <==> has_id(old(self).sessions(), id@)),
            old(self).reliable() ==> (r matches Err(e) ==> e@ == EngineErrorView::SessionNotFound),
            r is Ok ==> final(self).sessions() == after_delete(old(self).sessions(), id@),
            r is Err ==> final(self).sessions() == old(self).sessions(),
    ;
}


// ---------------------------------------------------------------------------
// Session ids and time
// ---------------------------------------------------------------------------

/// The lowercase hexadecimal digit of a value below 16.
pub open spec fn hex_digit(n: int) -> char {
    if n < 10 {
        (48 + n) as char
    } else {
        (87 + n) as char
    }
}

/// Bytes written as lowercase hexadecimal, two digits per byte, high half first.
pub open spec fn lower_hex(b: Seq<u8>) -> Seq<char>
    decreases b.len(),
{
    if b.len() == 0 {
        Seq::empty()
    } else {
        lower_hex(b.drop_last()) + seq![hex_digit(b.last() as int / 16), hex_digit(b.last() as int % 16)]
    }
}

/// A character is a lowercase hexadecimal digit.
pub open spec fn is_hex_digit(c: char) -> bool {
    ('0' <= c && c <= '9') || ('a' <= c && c <= 'f')
}

/// A session id: 32 lowercase hexadecimal digits.
pub open spec fn is_session_id(s: Seq<char>) -> bool {
    s.len() == 32 && forall|i: int| 0 <= i < s.len() ==> is_hex_digit(#[trigger] s[i])
}

/// Hexadecimal text has two digits per byte, all of them lowercase hex digits.
pub proof fn lemma_lower_hex(b: Seq<u8>)
    ensures
        lower_hex(b).len() == 2 * b.len(),
        forall|i: int| 0 <= i < lower_hex(b).len() ==> is_hex_digit(#[trigger] lower_hex(b)[i]),
    decreases b.len(),
{
    if b.len() > 0 {
        lemma_lower_hex(b.drop_last());
        let x = b.last();
        assert(0 <= x as int / 16 < 16 && 0 <= x as int % 16 < 16);
        let t = lower_hex(b.drop_last());
        let u = seq![hex_digit(x as int / 16), hex_digit(x as int % 16)];
        assert forall|i: int| 0 <= i < lower_hex(b).len() implies is_hex_digit(
            #[trigger] lower_hex(b)[i],
        ) by {
            if i < t.len() {
                assert(lower_hex(b)[i] == t[i]);
            } else {
                assert(lower_hex(b)[i] == u[i - t.len()]);
            }
        }
    }
}

/// Sixteen random bytes from `rand::thread_rng()`, through
/// `RngCore::fill_bytes`. Nothing is claimed of the bytes.
#[verifier::external_body]
fn random_bytes() -> (b: [u8; 16]) {
    let mut buf = [0u8; 16];
    rand::thread_rng().fill_bytes(&mut buf);
    buf
}

/// `hex::encode`: each byte as two lowercase hexadecimal digits, high half first.
#[verifier::external_body]
fn hex_encode(bytes: &[u8; 16]) -> (s: String)
    ensures
        s@ == lower_hex(bytes@),
{
    hex::encode(bytes)
}

/// A random session id: 16 random bytes in lowercase hexadecimal.
pub fn random_id() -> (id: String)
    ensures
        is_session_id(id@),
{
    let buf = random_bytes();
    let id = hex_encode(&buf);
    proof {
        lemma_lower_hex(buf@);
        assert(buf@.len() == 16);
    }
    id
}

/// The current time from `chrono::Utc::now()`, read as `timestamp()` and
/// `timestamp_subsec_nanos()`. Which time is read is left unsaid.
#[verifier::external_body]
fn utc_now() -> (t: Timestamp) {
    let now = chrono::Utc::now();
    Timestamp { secs: now.timestamp(), nanos: now.timestamp_subsec_nanos() }
}

// ---------------------------------------------------------------------------
// Engine
// ---------------------------------------------------------------------------

/// The names of a list of games.
pub open spec fn game_names<G: Game>(games: Seq<G>) -> Seq<Seq<char>> {
    games.map_values(|g: G| g.spec_name())
}

/// Names are non-empty and distinct.
pub open spec fn names_ok(names: Seq<Seq<char>>) -> bool {
    &&& forall|i: int| 0 <= i < names.len() ==> (#[trigger] names[i]).len() > 0
    &&& forall|i: int, j: int| 0 <= i < j < names.len() ==> names[i] != names[j]
}

/// Some game of the list has this name.
pub open spec fn has_game<G: Game>(games: Seq<G>, name: Seq<char>) -> bool {
    exists|i: int| 0 <= i < games.len() && (#[trigger] games[i]).spec_name() == name
}

/// The game of the list with this name (meaningful when there is one).
pub open spec fn game_named<G: Game>(games: Seq<G>, name: Seq<char>) -> G {
    games[choose|i: int| 0 <= i < games.len() && (#[trigger] games[i]).spec_name() == name]
}

/// A new session of a game: version 1, created and updated at `now`.
pub open spec fn new_session<G: Game>(
    game: G,
    game_name: Seq<char>,
    seed: i64,
    id: Seq<char>,
    now: Timestamp,
) -> SessionView<ViewOf<G>> {
    SessionView {
        id: id,
        game_name: game_name,
        state: game.spec_initial_state(seed),
        version: 1,
        created_at: now,
        updated_at: now,
    }
}

/// What an action makes of a session: the game is looked up by the session's
/// game name, the action validated, then applied; the new state gets the next
/// version and is stamped with `now`.
pub open spec fn next_session_rules<G: Game>(
    games: Seq<G>,
    s: SessionView<ViewOf<G>>,
    a: ActionView,
    now: Timestamp,
) -> Result<SessionView<ViewOf<G>>, EngineErrorView> {
    match next_state_rules(games, s, a) {
        Err(e) => Err(e),
        Ok(st) => Ok(
            SessionView { state: st, version: (s.version + 1) as u64, updated_at: now, ..s },
        ),
    }
}

/// The state an action makes of a session's state, or why it is refused: the
/// game is looked up by the session's game name, the action validated, then
/// applied. It does not depend on the time.
pub open spec fn next_state_rules<G: Game>(
    games: Seq<G>,
    s: SessionView<ViewOf<G>>,
    a: ActionView,
) -> Result<ViewOf<G>, EngineErrorView> {
    if !has_game(games, s.game_name) {
        Err(EngineErrorView::GameNotFound)
    } else {
        let g = game_named(games, s.game_name);
        match g.spec_validate(s.state, a) {
            Err(m) => Err(EngineErrorView::Validation(m)),
            Ok(_) => match g.spec_apply(s.state, a) {
                Err(m) => Err(EngineErrorView::Validation(m)),
                Ok(st) => Ok(st),
            },
        }
    }
}

/// The inputs on which an action can be taken on a session without a panic:
/// the game's `validate`, then `apply` are defined, and the version can grow.
pub open spec fn action_defined_rules<G: Game>(games: Seq<G>, s: SessionView<ViewOf<G>>, a: ActionView) -> bool {
    has_game(games, s.game_name) ==> {
        let g = game_named(games, s.game_name);
        &&& g.spec_validate_defined(s.state, a)
        &&& g.spec_validate(s.state, a) is Ok ==> {
            &&& g.spec_apply_defined(s.state, a)
            &&& g.spec_apply(s.state, a) is Ok ==> s.version < u64::MAX
        }
    }
}

/// How an action on the session with id `id` is answered when the store
/// never fails by itself: `SessionNotFound` when there is no such session,
/// otherwise success exactly when the game takes the action, and the
/// refusal of `next_state_rules` when it does not.
pub open spec fn applied_as_stated<G: Game>(
    games: Seq<G>,
    sessions: Seq<SessionView<ViewOf<G>>>,
    id: Seq<char>,
    a: ActionView,
    r: Result<Session<G::State>, EngineError>,
) -> bool {
    if !has_id(sessions, id) {
        r matches Err(e) && e@ == EngineErrorView::SessionNotFound
    } else {
        match next_state_rules(games, session_with_id(sessions, id).unwrap(), a) {
            Ok(st) => r matches Ok(s) && s@.state == st,
            Err(why) => r matches Err(e) && e@ == why,
        }
    }
}

/// Wires games with storage and provides a simple API to manipulate sessions.
pub struct Engine<G: Game, S: Store<G::State>> {
    store: S,
    games: Vec<G>,
}

impl<G: Game, S: Store<G::State>> Engine<G, S> {
    /// The sessions of the store.
    pub closed spec fn sessions(&self) -> Seq<SessionView<ViewOf<G>>> {
        self.store.sessions()
    }

    /// The store fails only on the refusals its methods name.
    pub closed spec fn store_reliable(&self) -> bool {
        self.store.reliable()
    }

    /// An error the store may fail with of its own: a `Store` error whose
    /// message the store admits.
    pub closed spec fn store_error(&self, e: EngineErrorView) -> bool {
        e matches EngineErrorView::Store(m) && self.store.fails_with(m)
    }

    /// The registered games, in the order they were registered.
    pub closed spec fn registered(&self) -> Seq<G> {
        self.games@
    }

    /// The engine's invariant: session ids and game names are distinct, game
    /// names non-empty.
    pub closed spec fn wf(&self) -> bool {
        &&& ids_unique(self.store.sessions())
        &&& names_ok(game_names(self.games@))
    }

    /// An engine with no games over a store.
    pub fn new(store: S) -> (e: Self)
        requires
            ids_unique(store.sessions()),
        ensures
            e.wf(),
            e.sessions() == store.sessions(),
            e.store_reliable() == store.reliable(),
            e.registered() == Seq::<G>::empty(),
    {
        let e = Engine { store, games: Vec::new() };
        assert(game_names(e.games@) =~= Seq::<Seq<char>>::empty());
        e
    }

    /// Register a game. The name must be non-empty and not already taken.
    pub fn register(&mut self, game: G)
        requires
            old(self).wf(),
            game.spec_name().len() > 0,
            !has_game(old(self).registered(), game.spec_name()),
        ensures
            final(self).wf(),
            final(self).registered() == old(self).registered().push(game),
            final(self).sessions() == old(self).sessions(),
            final(self).store_reliable() == old(self).store_reliable(),
            forall|e: EngineErrorView| #[trigger] final(self).store_error(e) == old(self).store_error(e),
    {
        let ghost before = self.games@;
        self.games.push(game);
        proof {
            let names = game_names(self.games@);
            assert(names =~= game_names(before).push(game.spec_name()));
            assert forall|i: int, j: int| 0 <= i < j < names.len() implies names[i] != names[j] by {
                if j == names.len() - 1 {
                    assert(before[i].spec_name() == names[i]);
                }
            }
        }
    }

    /// Returns registered game names, in the order they were registered.
    pub fn games(&self) -> (names: Vec<String>)
        ensures
            names@.map_values(|s: String| s@) == game_names(self.registered()),
    {
        let mut names: Vec<String> = Vec::new();
        let mut i: usize = 0;
        while i < self.games.len()
            invariant
                i <= self.games@.len(),
                names@.map_values(|s: String| s@) == game_names(self.games@).take(i as int),
            decreases self.games@.len() - i,
        {
            let n = self.games[i].name().to_owned();
            let ghost before = names@;
            names.push(n);
            proof {
                assert(names@.map_values(|s: String| s@) =~= before.map_values(|s: String| s@).push(
                    n@,
                ));
                assert(game_names(self.games@).take(i + 1) =~= game_names(self.games@).take(
                    i as int,
                ).push(self.games@[i as int].spec_name()));
            }
            i = i + 1;
        }
        assert(game_names(self.games@).take(self.games@.len() as int) =~= game_names(self.games@));
        names
    }

    /// The position of the game with this name, if any.
    fn find_game(&self, name: &str) -> (r: Option<usize>)
        requires
            self.wf(),
        ensures
            match r {
                Some(i) => i < self.games@.len() && has_game(self.games@, name@) && game_named(
                    self.games@,
                    name@,
                ) == self.games@[i as int],
                None => !has_game(self.games@, name@),
            },
    {
        let target = name.to_owned();
        let mut i: usize = 0;
        while i < self.games.len()
            invariant
                i <= self.games@.len(),
                target@ == name@,
                self.wf(),
                forall|k: int| 0 <= k < i ==> (#[trigger] self.games@[k]).spec_name() != name@,
            decreases self.games@.len() - i,
        {
            let n = self.games[i].name().to_owned();
            if n == target {
                proof {
                    let g = self.games@;
                    assert(g[i as int].spec_name() == name@);
                    let j = choose|j: int| 0 <= j < g.len() && (#[trigger] g[j]).spec_name() == name@;
                    let names = game_names(g);
                    if j != i as int {
                        assert(names[i as int] == g[i as int].spec_name());
                        assert(names[j] == g[j].spec_name());
                        if j < i {
                            assert(names[j] != names[i as int]);
                        } else {
                            assert(names[i as int] != names[j]);
                        }
                    }
                }
                return Some(i);
            }
            i = i + 1;
        }
        None
    }

    /// Create a new session for the named game, with the given id and time.
    pub fn create_session_at(&mut self, game_name: &str, seed: i64, id: String, now: Timestamp) -> (r:
        Result<Session<G::State>, EngineError>)
        requires
            old(self).wf(),
        ensures
            final(self).wf(),
            final(self).registered() == old(self).registered(),
            !has_game(old(self).registered(), game_name@) ==> (r matches Err(e) && e@
                == EngineErrorView::GameNotFound),
            r matches Ok(s) ==> has_game(old(self).registered(), game_name@) && s@ == new_session(
                game_named(old(self).registered(), game_name@),
                game_name@,
                seed,
                id@,
                now,
            ) && final(self).sessions() == old(self).sessions().push(s@),
            has_id(old(self).sessions(), id@) ==> r is Err,
            r is Err ==> final(self).sessions() == old(self).sessions(),
            final(self).store_reliable() == old(self).store_reliable(),
            forall|e: EngineErrorView| #[trigger] final(self).store_error(e) == old(self).store_error(e),
            r matches Err(e) ==> (!has_game(old(self).registered(), game_name@) && e@
                == EngineErrorView::GameNotFound) || (has_game(old(self).registered(), game_name@)
                && has_id(old(self).sessions(), id@) && e@ == EngineErrorView::Store(
                "duplicate id"@,
            )) || (has_game(old(self).registered(), game_name@) && old(self).store_error(e@)),
            old(self).store_reliable() && has_game(old(self).registered(), game_name@) && !has_id(
                old(self).sessions(),
                id@,
            ) ==> r is Ok,
            has_game(old(self).registered(), game_name@) ==> game_named(
                old(self).registered(),
                game_name@,
            ).spec_initial_state_facts(seed),
    {
        let gi = match self.find_game(game_name) {
            Some(i) => i,
            None => {
                return Err(EngineError::GameNotFound);
            },
        };
        let state = self.games[gi].initial_state(seed);
        let session = Session {
            id: id,
            game_name: game_name.to_owned(),
            state: state,
            version: 1,
            created_at: now,
            updated_at: now,
        };
        let stored = session.copy();
        match self.store.create(stored) {
            Ok(()) => Ok(session),
            Err(e) => Err(e),
        }
    }

    /// Create a new session for the named game, with a random id, stamped
    /// with the current time.
    pub fn create_session(&mut self, game_name: &str, seed: i64) -> (r: Result<Session<G::State>, EngineError>)
        requires
            old(self).wf(),
        ensures
            final(self).wf(),
            final(self).registered() == old(self).registered(),
            !has_game(old(self).registered(), game_name@) ==> (r matches Err(e) && e@
                == EngineErrorView::GameNotFound),
            r matches Ok(s) ==> has_game(old(self).registered(), game_name@) && is_session_id(s@.id)
                && s@ == new_session(
                game_named(old(self).registered(), game_name@),
                game_name@,
                seed,
                s@.id,
                s@.created_at,
            ) && final(self).sessions() == old(self).sessions().push(s@),
            r is Err ==> final(self).sessions() == old(self).sessions(),
            final(self).store_reliable() == old(self).store_reliable(),
            forall|e: EngineErrorView| #[trigger] final(self).store_error(e) == old(self).store_error(e),
            r matches Err(e) ==> (!has_game(old(self).registered(), game_name@) && e@
                == EngineErrorView::GameNotFound) || (has_game(old(self).registered(), game_name@)
                && e@ == EngineErrorView::Store("duplicate id"@)) || (has_game(
                old(self).registered(),
                game_name@,
            ) && old(self).store_error(e@)),
            old(self).store_reliable() && has_game(old(self).registered(), game_name@) && (forall|
                i: int,
            |
                0 <= i < old(self).sessions().len() ==> !is_session_id(
                    #[trigger] old(self).sessions()[i].id,
                )) ==> r is Ok,
            has_game(old(self).registered(), game_name@) ==> game_named(
                old(self).registered(),
                game_name@,
            ).spec_initial_state_facts(seed),
    {
        let id = random_id();
        let now = utc_now();
        self.create_session_at(game_name, seed, id, now)
    }

    /// Get a session by id.
    pub fn get_session(&self, id: &str) -> (r: Result<Session<G::State>, EngineError>)
        requires
            self.wf(),
        ensures
            r matches Ok(s) ==> session_with_id(self.sessions(), id@) == Some(s@),
            !has_id(self.sessions(), id@) ==> r is Err,
            self.store_reliable() ==> (r is Ok <==> has_id(self.sessions(), id@)),
            self.store_reliable() ==> (r matches Err(e) ==> e@ == EngineErrorView::SessionNotFound),
            r matches Err(e) ==> (!has_id(self.sessions(), id@) && e@
                == EngineErrorView::SessionNotFound) || self.store_error(e@),
    {
        match self.store.get(id) {
            Ok(Some(s)) => Ok(s),
            Ok(None) => Err(EngineError::SessionNotFound),
            Err(e) => Err(e),
        }
    }

    /// Whether an action can be taken on the session with this id without a
    /// panic (see `action_defined_rules`); the store's error when it cannot
    /// be read.
    pub fn action_defined(&self, id: &str, action: &Action) -> (r: Result<bool, EngineError>)
        requires
            self.wf(),
        ensures
            r matches Ok(b) ==> b == (session_with_id(self.sessions(), id@) matches Some(s)
                ==> action_defined_rules(self.registered(), s, action@)),
            self.store_reliable() ==> r is Ok,
            r matches Err(e) ==> self.store_error(e@),
    {
        let session = match self.store.get(id) {
            Ok(Some(s)) => s,
            Ok(None) => {
                return Ok(true);
            },
            Err(e) => {
                return Err(e);
            },
        };
        let gi = match self.find_game(session.game_name.as_str()) {
            Some(i) => i,
            None => {
                return Ok(true);
            },
        };
        let game = &self.games[gi];
        if !game.validate_defined(&session.state, action) {
            return Ok(false);
        }
        match game.validate(&session.state, action) {
            Err(_) => Ok(true),
            Ok(()) => {
                if !game.apply_defined(&session.state, action) {
                    return Ok(false);
                }
                match game.apply(&session.state, action) {
                    Err(_) => Ok(true),
                    Ok(_) => Ok(session.version < u64::MAX),
                }
            },
        }
    }

    /// What an action makes of a session, stamped with `now` (see
    /// `next_session_rules`).
    pub fn next_session(&self, session: &Session<G::State>, action: &Action, now: Timestamp) -> (r: Result<
        Session<G::State>,
        EngineError,
    >)
        requires
            self.wf(),
            action_defined_rules(self.registered(), session@, action@),
        ensures
            match r {
                Ok(s) => next_session_rules(self.registered(), session@, action@, now) == Ok::<
                    SessionView<ViewOf<G>>,
                    EngineErrorView,
                >(s@),
                Err(e) => next_session_rules(self.registered(), session@, action@, now) == Err::<
                    SessionView<ViewOf<G>>,
                    EngineErrorView,
                >(e@),
            },
    {
        let gi = match self.find_game(session.game_name.as_str()) {
            Some(i) => i,
            None => {
                return Err(EngineError::GameNotFound);
            },
        };
        let game = &self.games[gi];
        match game.validate(&session.state, action) {
            Err(e) => {
                return Err(EngineError::Validation(e.0));
            },
            Ok(()) => {},
        }
        let new_state = match game.apply(&session.state, action) {
            Err(e) => {
                return Err(EngineError::Validation(e.0));
            },
            Ok(st) => st,
        };
        let mut next = session.copy();
        next.state = new_state;
        next.version = next.version + 1;
        next.updated_at = now;
        Ok(next)
    }

    /// Validate and apply an action to the session with this id, stamping it
    /// with `now`.
    pub fn apply_action_at(&mut self, id: &str, action: Action, now: Timestamp) -> (r: Result<
        Session<G::State>,
        EngineError,
    >)
        requires
            old(self).wf(),
            session_with_id(old(self).sessions(), id@) matches Some(s) ==> action_defined_rules(
                old(self).registered(),
                s,
                action@,
            ),
        ensures
            final(self).wf(),
            final(self).registered() == old(self).registered(),
            !has_id(old(self).sessions(), id@) ==> r is Err,
            r matches Ok(s) ==> has_id(old(self).sessions(), id@) && next_session_rules(
                old(self).registered(),
                session_with_id(old(self).sessions(), id@).unwrap(),
                action@,
                now,
            ) == Ok::<SessionView<ViewOf<G>>, EngineErrorView>(s@) && final(self).sessions() == after_update(
                old(self).sessions(),
                s@,
            ),
            has_id(old(self).sessions(), id@) && next_session_rules(
                old(self).registered(),
                session_with_id(old(self).sessions(), id@).unwrap(),
                action@,
                now,
            ) is Err ==> r is Err,
            r is Err ==> final(self).sessions() == old(self).sessions(),
            final(self).store_reliable() == old(self).store_reliable(),
            old(self).store_reliable() ==> applied_as_stated(
                old(self).registered(),
                old(self).sessions(),
                id@,
                action@,
                r,
            ),
            forall|e: EngineErrorView| #[trigger] final(self).store_error(e) == old(self).store_error(e),
            r matches Err(e) ==> (!has_id(old(self).sessions(), id@) && e@
                == EngineErrorView::SessionNotFound) || (has_id(old(self).sessions(), id@)
                && next_state_rules(
                old(self).registered(),
                session_with_id(old(self).sessions(), id@).unwrap(),
                action@,
            ) == Err::<ViewOf<G>, EngineErrorView>(e@)) || old(self).store_error(e@),
    {
        let session = match self.store.get(id) {
            Ok(Some(s)) => s,
            Ok(None) => {
                return Err(EngineError::SessionNotFound);
            },
            Err(e) => {
                return Err(e);
            },
        };
        let next = match self.next_session(&session, &action, now) {
            Ok(n) => n,
            Err(e) => {
                return Err(e);
            },
        };
        assert(next@.id == session@.id);
        let stored = next.copy();
        match self.store.update(stored) {
            Ok(()) => Ok(next),
            Err(e) => Err(e),
        }
    }

    /// Validate and apply an action to the session with this id, stamping it
    /// with the current time.
    pub fn apply_action(&mut self, id: &str, action: Action) -> (r: Result<Session<G::State>, EngineError>)
        requires
            old(self).wf(),
            session_with_id(old(self).sessions(), id@) matches Some(s) ==> action_defined_rules(
                old(self).registered(),
                s,
                action@,
            ),
        ensures
            final(self).wf(),
            final(self).registered() == old(self).registered(),
            !has_id(old(self).sessions(), id@) ==> r is Err,
            r matches Ok(s) ==> has_id(old(self).sessions(), id@) && next_session_rules(
                old(self).registered(),
                session_with_id(old(self).sessions(), id@).unwrap(),
                action@,
                s@.updated_at,
            ) == Ok::<SessionView<ViewOf<G>>, EngineErrorView>(s@) && final(self).sessions() == after_update(
                old(self).sessions(),
                s@,
            ),
            r is Err ==> final(self).sessions() == old(self).sessions(),
            final(self).store_reliable() == old(self).store_reliable(),
            old(self).store_reliable() ==> applied_as_stated(
                old(self).registered(),
                old(self).sessions(),
                id@,
                action@,
                r,
            ),
            forall|e: EngineErrorView| #[trigger] final(self).store_error(e) == old(self).store_error(e),
            r matches Err(e) ==> (!has_id(old(self).sessions(), id@) && e@
                == EngineErrorView::SessionNotFound) || (has_id(old(self).sessions(), id@)
                && next_state_rules(
                old(self).registered(),
                session_with_id(old(self).sessions(), id@).unwrap(),
                action@,
            ) == Err::<ViewOf<G>, EngineErrorView>(e@)) || old(self).store_error(e@),
    {
        let now = utc_now();
        self.apply_action_at(id, action, now)
    }

    /// List sessions for a given game (all games when the name is empty),
    /// oldest first, paged.
    pub fn list_sessions(&self, game_name: &str, offset: usize, limit: usize) -> (r: Result<
        Vec<Session<G::State>>,
        EngineError,
    >)
        requires
            self.wf(),
            page_fits(self.sessions(), game_name@, offset as int, limit as int),
        ensures
            r matches Ok(v) ==> sessions_view(v@) == listing(
                self.sessions(),
                game_name@,
                offset as int,
                limit as int,
            ),
            self.store_reliable() ==> r is Ok,
            r matches Err(e) ==> self.store_error(e@),
    {
        self.store.list(game_name, offset, limit)
    }

    /// Delete a session.
    pub fn delete_session(&mut self, id: &str) -> (r: Result<(), EngineError>)
        requires
            old(self).wf(),
        ensures
            final(self).wf(),
            final(self).registered() == old(self).registered(),
            !has_id(old(self).sessions(), id@) ==> r is Err,
            r is Ok ==> final(self).sessions() == after_delete(old(self).sessions(), id@),
            r is Err ==> final(self).sessions() == old(self).sessions(),
            final(self).store_reliable() == old(self).store_reliable(),
            old(self).store_reliable() ==> (r is Ok <==> has_id(old(self).sessions(), id@)),
            old(self).store_reliable() ==> (r matches Err(e) ==> e@
                == EngineErrorView::SessionNotFound),
            forall|e: EngineErrorView| #[trigger] final(self).store_error(e) == old(self).store_error(e),
            r matches Err(e) ==> (!has_id(old(self).sessions(), id@) && e@
                == EngineErrorView::SessionNotFound) || old(self).store_error(e@),
    {
        self.store.delete(id)
    }
}

} // verus!
