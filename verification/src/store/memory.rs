//! In-memory store useful for tests and small deployments.

use vstd::prelude::*;
use crate::engine::{
    EngineError, EngineErrorView, GameState, Session, SessionView, Store, sessions_view, ids_unique, has_id,
    position_of, matching_sessions, created_key, page_end, later_than, time_key,
};
use crate::sort::{sort_by_key, lemma_insert_by_key_at, lemma_sort_by_key_props};

verus! {

/// Sessions kept in memory, in the order they were created.
pub struct Memory<T> {
    sessions: Vec<Session<T>>,
}

/// Views of sessions keep the order and the length of the sessions.
proof fn lemma_sessions_view_push<T: View>(v: Seq<Session<T>>, s: Session<T>)
    ensures
        sessions_view(v.push(s)) == sessions_view(v).push(s@),
{
    assert(sessions_view(v.push(s)) =~= sessions_view(v).push(s@));
}

impl<T: GameState> Memory<T> {
    /// An empty store.
    pub fn new() -> (m: Memory<T>)
        ensures
            m.sessions() == Seq::<SessionView<T::V>>::empty(),
    {
        let m = Memory { sessions: Vec::new() };
        assert(m.sessions() =~= Seq::<SessionView<T::V>>::empty());
        m
    }

    /// The position of the session with this id, if any.
    fn position(&self, id: &str) -> (r: Option<usize>)
        requires
            ids_unique(self.sessions()),
        ensures
            match r {
                Some(i) => i < self.sessions@.len() && self.sessions()[i as int].id == id@
                    && position_of(self.sessions(), id@) == i && has_id(self.sessions(), id@),
                None => !has_id(self.sessions(), id@),
            },
    {
        let id_string = id.to_owned();
        let ghost sv = self.sessions();
        let mut i: usize = 0;
        while i < self.sessions.len()
            invariant
                i <= self.sessions@.len(),
                sv == self.sessions(),
                ids_unique(sv),
                sv.len() == self.sessions@.len(),
                id_string@ == id@,
                forall|k: int| 0 <= k < i ==> sv[k].id != id@,
            decreases self.sessions@.len() - i,
        {
            assert(sv[i as int] == self.sessions@[i as int]@);
            if self.sessions[i].id == id_string {
                proof {
                    let j = position_of(sv, id@);
                    assert(sv[i as int].id == id@);
                    assert(0 <= j < sv.len() && sv[j].id == id@);
                    if j != i as int {
                        if j < i {
                        } else {
                            assert(sv[i as int].id != sv[j].id);
                        }
                    }
                }
                return Some(i);
            }
            i = i + 1;
        }
        None
    }

    /// The matching sessions, copied, in order.
    fn matching(&self, game_name: &str) -> (r: Vec<Session<T>>)
        ensures
            sessions_view(r@) == matching_sessions(self.sessions(), game_name@),
    {
        let name = game_name.to_owned();
        let all_games = game_name.is_empty();
        let ghost sv = self.sessions();
        let mut r: Vec<Session<T>> = Vec::new();
        let mut i: usize = 0;
        while i < self.sessions.len()
            invariant
                i <= self.sessions@.len(),
                sv == self.sessions(),
                sv.len() == self.sessions@.len(),
                name@ == game_name@,
                all_games == (game_name@.len() == 0),
                sessions_view(r@) == matching_sessions(sv.take(i as int), game_name@),
            decreases self.sessions@.len() - i,
        {
            let s = &self.sessions[i];
            proof {
                assert(sv[i as int] == s@);
                assert(sv.take(i + 1).drop_last() =~= sv.take(i as int));
                assert(sv.take(i + 1).last() == s@);
            }
            if all_games || s.game_name == name {
                let c = s.copy();
                proof {
                    lemma_sessions_view_push(r@, c);
                }
                r.push(c);
            }
            i = i + 1;
        }
        assert(sv.take(sv.len() as int) =~= sv);
        r
    }
}

/// The sessions sorted by creation time, oldest first (a stable sort).
fn sort_by_creation<T: GameState>(v: &Vec<Session<T>>) -> (r: Vec<Session<T>>)
    ensures
        sessions_view(r@) == sort_by_key(sessions_view(v@), created_key()),
{
    let ghost vv = sessions_view(v@);
    let mut res: Vec<Session<T>> = Vec::new();
    let mut i: usize = 0;
    while i < v.len()
        invariant
            i <= v@.len(),
            vv == sessions_view(v@),
            sessions_view(res@) == sort_by_key(vv.take(i as int), created_key()),
        decreases v@.len() - i,
    {
        let x = v[i].copy();
        proof {
            lemma_sort_by_key_props(vv.take(i as int), created_key());
        }
        let mut j: usize = res.len();
        while j > 0 && later_than(res[j - 1].created_at, x.created_at)
            invariant
                j <= res@.len(),
                forall|k: int|
                    j <= k < res@.len() ==> time_key(#[trigger] res@[k].created_at) > time_key(
                        x.created_at,
                    ),
            decreases j,
        {
            j = j - 1;
        }
        proof {
            let key = created_key();
            let rv = sessions_view(res@);
            assert forall|k: int| j <= k < rv.len() implies key(#[trigger] rv[k]) > key(x@) by {
                assert(rv[k] == res@[k]@);
            }
            if j > 0 {
                assert(rv[j - 1] == res@[j - 1]@);
            }
            lemma_insert_by_key_at(rv, x@, key, j as int);
            assert(vv.take(i + 1).drop_last() =~= vv.take(i as int));
            assert(vv.take(i + 1).last() == x@);
        }
        let ghost before = res@;
        res.insert(j, x);
        proof {
            assert(sessions_view(res@) =~= sessions_view(before).insert(j as int, x@));
        }
        i = i + 1;
    }
    assert(vv.take(vv.len() as int) =~= vv);
    res
}

impl<T: GameState> Default for Memory<T> {
    fn default() -> (m: Memory<T>)
        ensures
            m.sessions() == Seq::<SessionView<T::V>>::empty(),
    {
        Memory::new()
    }
}

impl<T: GameState> Store<T> for Memory<T> {
    closed spec fn sessions(&self) -> Seq<SessionView<T::V>> {
        sessions_view(self.sessions@)
    }

    /// Memory fails only on the refusals the methods name.
    open spec fn reliable(&self) -> bool {
        true
    }

    /// Memory has no errors of its own.
    open spec fn fails_with(&self, msg: Seq<char>) -> bool {
        false
    }

    fn create(&mut self, session: Session<T>) -> (r: Result<(), EngineError>)
        ensures
            r is Ok <==> !has_id(old(self).sessions(), session@.id),
            r matches Err(e) ==> e@ == EngineErrorView::Store("duplicate id"@),
    {
        match self.position(session.id.as_str()) {
            Some(_) => Err(EngineError::Store("duplicate id".to_owned())),
            None => {
                let ghost before = self.sessions@;
                proof {
                    lemma_sessions_view_push(before, session);
                }
                self.sessions.push(session);
                Ok(())
            },
        }
    }

    fn get(&self, id: &str) -> (r: Result<Option<Session<T>>, EngineError>)
        ensures
            r is Ok,
    {
        match self.position(id) {
            Some(i) => Ok(Some(self.sessions[i].copy())),
            None => Ok(None),
        }
    }

    fn update(&mut self, session: Session<T>) -> (r: Result<(), EngineError>)
        ensures
            r is Ok <==> has_id(old(self).sessions(), session@.id),
            r matches Err(e) ==> e@ == EngineErrorView::SessionNotFound,
    {
        match self.position(session.id.as_str()) {
            None => Err(EngineError::SessionNotFound),
            Some(i) => {
                let ghost before = self.sessions@;
                let ghost sv = session@;
                self.sessions.set(i, session);
                proof {
                    assert(self.sessions() =~= sessions_view(before).update(i as int, sv));
                }
                Ok(())
            },
        }
    }

    fn list(&self, game_name: &str, offset: usize, limit: usize) -> (r: Result<
        Vec<Session<T>>,
        EngineError,
    >)
        ensures
            r is Ok,
    {
        let matching = self.matching(game_name);
        let all = sort_by_creation(&matching);
        proof {
            lemma_sort_by_key_props(sessions_view(matching@), created_key());
        }
        let ghost av = sessions_view(all@);
        assert(av.len() == all@.len());
        if offset >= all.len() {
            let empty: Vec<Session<T>> = Vec::new();
            assert(sessions_view(empty@) =~= Seq::<SessionView<T::V>>::empty());
            return Ok(empty);
        }
        let end = if limit == 0 {
            all.len()
        } else {
            let e = offset + limit;
            if e < all.len() {
                e
            } else {
                all.len()
            }
        };
        assert(end == page_end(av.len() as int, offset as int, limit as int));
        let mut out: Vec<Session<T>> = Vec::new();
        let mut i = offset;
        while i < end
            invariant
                offset <= i <= end <= all@.len(),
                av == sessions_view(all@),
                sessions_view(out@) == av.subrange(offset as int, i as int),
            decreases end - i,
        {
            let c = all[i].copy();
            proof {
                lemma_sessions_view_push(out@, c);
                assert(av.subrange(offset as int, i + 1) =~= av.subrange(offset as int, i as int).push(
                    av[i as int],
                ));
            }
            out.push(c);
            i = i + 1;
        }
        Ok(out)
    }

    fn delete(&mut self, id: &str) -> (r: Result<(), EngineError>)
        ensures
            r is Ok <==> has_id(old(self).sessions(), id@),
            r matches Err(e) ==> e@ == EngineErrorView::SessionNotFound,
    {
        match self.position(id) {
            None => Err(EngineError::SessionNotFound),
            Some(i) => {
                let ghost before = self.sessions@;
                self.sessions.remove(i);
                proof {
                    assert(self.sessions() =~= sessions_view(before).remove(i as int));
                }
                Ok(())
            },
        }
    }
}

} // verus!
