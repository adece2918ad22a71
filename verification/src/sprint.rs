//! Writing sprints: who takes part, and each member's running stats.
use vstd::prelude::*;

use crate::ids::UserId;
use crate::wordle::users::User;

verus! {

/// The id and name of a user.
pub open spec fn user_view(u: User) -> (u64, Seq<char>) {
    (u.id.0, u.name@)
}

impl Clone for User {
    fn clone(&self) -> (r: User)
        ensures
            user_view(r) == user_view(*self),
    {
        User { id: self.id, name: self.name.clone() }
    }
}

/// A sprint and its members.
#[derive(Debug)]
pub struct Sprint {
    members: Vec<User>,
}

impl Sprint {
    /// The members, by id and name, in the order they joined.
    pub closed spec fn members_view(&self) -> Seq<(u64, Seq<char>)> {
        Seq::new(self.members@.len(), |i: int| user_view(self.members@[i]))
    }

    /// A sprint with no members yet.
    pub fn new() -> (r: Sprint)
        ensures
            r.members_view().len() == 0,
    {
        Sprint { members: Vec::new() }
    }

    /// Adds `member`, unless a member with the same id is already in.
    pub fn add_member(&mut self, member: User)
        ensures
            (exists|i: int| 0 <= i < old(self).members_view().len() && (#[trigger] old(self).members_view()[i]).0 == member.id.0)
                ==> final(self).members_view() == old(self).members_view(),
            !(exists|i: int| 0 <= i < old(self).members_view().len() && (#[trigger] old(self).members_view()[i]).0 == member.id.0)
                ==> final(self).members_view() == old(self).members_view().push(user_view(member)),
    {
        let n = self.members.len();
        for i in 0..n
            invariant
                n == self.members@.len(),
                self.members_view() == old(self).members_view(),
                forall|j: int| 0 <= j < i ==> (#[trigger] self.members_view()[j]).0 != member.id.0,
        {
            if self.members[i].id.0 == member.id.0 {
                assert(self.members_view()[i as int].0 == member.id.0);
                return;
            }
        }
        self.members.push(member);
        assert(self.members_view() =~= old(self).members_view().push(user_view(member)));
    }

    /// Copies of the members, in the order they joined.
    pub fn members(&self) -> (r: Vec<User>)
        ensures
            Seq::new(r@.len(), |i: int| user_view(r@[i])) == self.members_view(),
    {
        let mut out: Vec<User> = Vec::new();
        let n = self.members.len();
        for i in 0..n
            invariant
                n == self.members@.len(),
                Seq::new(out@.len(), |k: int| user_view(out@[k])) == self.members_view().take(i as int),
        {
            let m = &self.members[i];
            let name = m.name.clone();
            let u = User { id: m.id, name };
            assert(user_view(u) == self.members_view()[i as int]);
            let ghost prev = Seq::new(out@.len(), |k: int| user_view(out@[k]));
            let ghost uv = user_view(u);
            out.push(u);
            assert(Seq::new(out@.len(), |k: int| user_view(out@[k])) =~= prev.push(uv));
            assert(self.members_view().take(i + 1) =~= self.members_view().take(i as int).push(
                self.members_view()[i as int],
            ));
        }
        assert(self.members_view().take(n as int) =~= self.members_view());
        out
    }
}

/// A member's sprint statistics.
#[derive(Clone, Copy, Debug, Default, PartialEq, Eq, Structural)]
pub struct SprintStats {
    pub words: u32,
    pub most_words: u32,
    pub points: u32,
    pub wins: u32,
}

/// A sprint member and their statistics.
#[derive(Clone, Copy, Debug, PartialEq, Eq, Structural)]
pub struct SprintMember {
    pub id: UserId,
    pub stats: SprintStats,
}

impl SprintMember {
    /// A member with no statistics yet.
    pub fn new(id: UserId) -> (r: SprintMember)
        ensures
            r.id == id,
            r.stats == (SprintStats { words: 0, most_words: 0, points: 0, wins: 0 }),
    {
        SprintMember { id, stats: SprintStats { words: 0, most_words: 0, points: 0, wins: 0 } }
    }
}

} // verus!
