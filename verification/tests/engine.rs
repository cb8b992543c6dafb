use sixtysix::engine::{Action, Engine};
use sixtysix::game::SixtySix;
use sixtysix::store::Memory;

#[test]
fn engine_create_get_apply_list_delete() {
    let mem = Memory::new();
    let mut engine = Engine::new(mem);
    engine.register(SixtySix);

    // create session
    let s = engine.create_session("sixtysix", 0).unwrap();
    assert_eq!(s.game_name, "sixtysix");
    assert_eq!(s.version, 1);

    // get session
    let gs = engine.get_session(&s.id).unwrap();
    assert_eq!(gs.id, s.id);

    // apply closeStock action
    let action = Action {
        action_type: "closeStock".to_string(),
        actor: None,
        payload: None,
        idempotency_key: None,
    };
    engine.apply_action(&s.id, action).unwrap();

    // list
    let list = engine.list_sessions("sixtysix", 0, 10).unwrap();
    assert!(!list.is_empty());

    // delete
    engine.delete_session(&s.id).unwrap();
}
