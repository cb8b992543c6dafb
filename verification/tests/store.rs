use sixtysix::engine::{Session, Store, Timestamp};
use sixtysix::engine::Game;
use sixtysix::game::SixtySix;
use sixtysix::store::Memory;

#[test]
fn memory_crud() {
    let mut m = Memory::new();
    let now = Timestamp { secs: 1_700_000_000, nanos: 0 };
    let s = Session {
        id: "a".to_string(),
        game_name: "g".to_string(),
        state: SixtySix.initial_state(0),
        version: 1,
        created_at: now,
        updated_at: now,
    };

    // create
    m.create(s.clone()).unwrap();

    // duplicate
    assert!(m.create(s.clone()).is_err());

    // get
    let got = m.get("a").unwrap().unwrap();
    assert_eq!(got.id, "a");

    // update
    let mut updated = got;
    updated.version = 2;
    m.update(updated).unwrap();

    // list
    let list = m.list("g", 0, 10).unwrap();
    assert_eq!(list.len(), 1);

    // delete
    m.delete("a").unwrap();

    // delete non-existent
    assert!(m.delete("a").is_err());
}
