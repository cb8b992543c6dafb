use sixtysix::engine::{
    later_than, random_id, Action, Engine, EngineError, Game, Session, Store, Timestamp,
};
use sixtysix::game::{SixtySix, State};
use sixtysix::store::Memory;

fn ts(secs: i64, nanos: u32) -> Timestamp {
    Timestamp { secs, nanos }
}

fn close_stock() -> Action {
    Action {
        action_type: "closeStock".to_string(),
        actor: None,
        payload: None,
        idempotency_key: None,
    }
}

fn session(id: &str, game: &str, created: Timestamp) -> Session<State> {
    Session {
        id: id.to_string(),
        game_name: game.to_string(),
        state: SixtySix.initial_state(0),
        version: 1,
        created_at: created,
        updated_at: created,
    }
}

#[test]
fn session_ids_are_32_hex_digits() {
    let id = random_id();
    assert_eq!(id.len(), 32);
    assert!(id.chars().all(|c| c.is_ascii_digit() || ('a'..='f').contains(&c)));
    assert_ne!(random_id(), id);
}

#[test]
fn create_session_fills_fields() {
    let mut engine = Engine::new(Memory::new());
    engine.register(SixtySix);
    assert_eq!(engine.games(), vec!["sixtysix".to_string()]);
    let s = engine.create_session("sixtysix", 42).unwrap();
    assert_eq!(s.version, 1);
    assert_eq!(s.created_at, s.updated_at);
    assert!(s.created_at.secs > 1_600_000_000);
    assert_eq!(s.state.hands, SixtySix.initial_state(42).hands);
    assert_eq!(s.id.len(), 32);
}

#[test]
fn unknown_game_and_session_errors() {
    let mut engine = Engine::new(Memory::new());
    engine.register(SixtySix);
    assert_eq!(engine.create_session("chess", 0).unwrap_err(), EngineError::GameNotFound);
    assert_eq!(engine.get_session("nope").unwrap_err(), EngineError::SessionNotFound);
    assert_eq!(engine.apply_action("nope", close_stock()).unwrap_err(), EngineError::SessionNotFound);
    assert_eq!(engine.delete_session("nope").unwrap_err(), EngineError::SessionNotFound);
}

#[test]
fn apply_action_bumps_version_and_reports_refusals() {
    let mut engine = Engine::new(Memory::new());
    engine.register(SixtySix);
    let s = engine
        .create_session_at("sixtysix", 5, "abc".to_string(), ts(100, 0))
        .unwrap();
    let after = engine.apply_action_at("abc", close_stock(), ts(200, 7)).unwrap();
    assert_eq!(after.version, 2);
    assert!(after.state.closed);
    assert_eq!(after.created_at, ts(100, 0));
    assert_eq!(after.updated_at, ts(200, 7));
    assert_eq!(engine.get_session("abc").unwrap().version, 2);
    // closing twice is refused by the rules; the session is unchanged
    let err = engine.apply_action_at("abc", close_stock(), ts(300, 0)).unwrap_err();
    assert_eq!(err, EngineError::Validation("cannot close".to_string()));
    assert_eq!(err.message(), "cannot close");
    assert_eq!(err.http_status(), 400);
    assert_eq!(engine.get_session("abc").unwrap().version, 2);
    assert_eq!(s.id, "abc");
    // duplicate id refused by the store
    let dup = engine.create_session_at("sixtysix", 5, "abc".to_string(), ts(400, 0));
    assert_eq!(dup.unwrap_err(), EngineError::Store("duplicate id".to_string()));
    assert_eq!(engine.action_defined("abc", &close_stock()), Ok(true));
}

#[test]
fn session_of_unregistered_game_is_reported() {
    let mut mem = Memory::new();
    mem.create(session("x", "chess", ts(1, 0))).unwrap();
    let mut engine: Engine<SixtySix, Memory<State>> = Engine::new(mem);
    assert_eq!(engine.apply_action("x", close_stock()).unwrap_err(), EngineError::GameNotFound);
}

#[test]
fn listing_orders_filters_and_pages() {
    let mut engine = Engine::new(Memory::new());
    engine.register(SixtySix);
    engine.create_session_at("sixtysix", 1, "c".to_string(), ts(30, 0)).unwrap();
    engine.create_session_at("sixtysix", 1, "a".to_string(), ts(10, 5)).unwrap();
    engine.create_session_at("sixtysix", 1, "b".to_string(), ts(10, 9)).unwrap();
    let ids = |v: Vec<Session<State>>| v.into_iter().map(|s| s.id).collect::<Vec<_>>();
    assert_eq!(ids(engine.list_sessions("sixtysix", 0, 0).unwrap()), vec!["a", "b", "c"]);
    assert_eq!(ids(engine.list_sessions("", 0, 0).unwrap()), vec!["a", "b", "c"]);
    assert_eq!(ids(engine.list_sessions("sixtysix", 1, 1).unwrap()), vec!["b"]);
    assert_eq!(ids(engine.list_sessions("sixtysix", 1, 10).unwrap()), vec!["b", "c"]);
    assert!(engine.list_sessions("sixtysix", 3, 1).unwrap().is_empty());
    assert!(engine.list_sessions("chess", 0, 0).unwrap().is_empty());
    engine.delete_session("b").unwrap();
    assert_eq!(ids(engine.list_sessions("sixtysix", 0, 0).unwrap()), vec!["a", "c"]);
}

#[test]
fn memory_reads_back_writes() {
    let mut m = Memory::new();
    m.create(session("a", "g", ts(5, 0))).unwrap();
    m.create(session("b", "h", ts(4, 0))).unwrap();
    assert!(m.get("z").unwrap().is_none());
    let mut a = m.get("a").unwrap().unwrap();
    a.version = 9;
    m.update(a).unwrap();
    assert_eq!(m.get("a").unwrap().unwrap().version, 9);
    assert_eq!(m.get("b").unwrap().unwrap().version, 1);
    assert_eq!(m.update(session("z", "g", ts(1, 0))).unwrap_err(), EngineError::SessionNotFound);
    assert_eq!(
        m.create(session("b", "g", ts(1, 0))).unwrap_err(),
        EngineError::Store("duplicate id".to_string())
    );
    let all = m.list("", 0, 0).unwrap();
    assert_eq!(all.iter().map(|s| s.id.as_str()).collect::<Vec<_>>(), vec!["b", "a"]);
    m.delete("a").unwrap();
    assert!(m.get("a").unwrap().is_none());
    assert!(m.get("b").unwrap().is_some());
    let d: Memory<State> = Memory::default();
    assert!(d.list("", 0, 0).unwrap().is_empty());
}

#[test]
fn engine_error_messages_and_statuses() {
    assert_eq!(EngineError::GameNotFound.message(), "engine: game not found");
    assert_eq!(EngineError::SessionNotFound.message(), "engine: session not found");
    assert_eq!(EngineError::Conflict.message(), "engine: conflict");
    assert_eq!(EngineError::Validation("bad".to_string()).message(), "bad");
    assert_eq!(EngineError::Store("down".to_string()).message(), "store: down");
    assert_eq!(EngineError::GameNotFound.http_status(), 404);
    assert_eq!(EngineError::SessionNotFound.http_status(), 404);
    assert_eq!(EngineError::Conflict.http_status(), 409);
    assert_eq!(EngineError::Validation(String::new()).http_status(), 400);
    assert_eq!(EngineError::Store(String::new()).http_status(), 400);
}

#[test]
fn timestamps_order() {
    assert!(later_than(ts(2, 0), ts(1, 999_999_999)));
    assert!(later_than(ts(1, 5), ts(1, 4)));
    assert!(!later_than(ts(1, 4), ts(1, 4)));
    assert!(!later_than(ts(-1, 0), ts(0, 0)));
}
