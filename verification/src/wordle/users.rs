//! Who takes part in a game: the one who started it and, in a server, whoever else
//! guesses.
use std::collections::HashMap;
use vstd::prelude::*;

use crate::ids::UserId;

verus! {

broadcast use vstd::std_specs::hash::group_hash_axioms;

/// A discord user, as much of one as the game needs.
#[derive(Debug)]
pub struct User {
    pub id: UserId,
    pub name: String,
}

/// Users keyed by their id.
#[derive(Debug)]
pub struct UserMap {
    map: HashMap<u64, User>,
}

impl View for UserMap {
    type V = Map<u64, User>;

    closed spec fn view(&self) -> Map<u64, User> {
        self.map@
    }
}

impl UserMap {
    /// No users.
    pub fn new() -> (r: UserMap)
        ensures
            r@ == Map::<u64, User>::empty(),
    {
        UserMap { map: HashMap::new() }
    }

    /// Adds `user`, replacing any user with the same id.
    pub fn insert(&mut self, user: User)
        ensures
            final(self)@ == old(self)@.insert(user.id.0, user),
    {
        let id = user.id.0;
        self.map.insert(id, user);
    }

    /// A map of users holds finitely many.
    pub proof fn lemma_finite(&self)
        ensures
            self@.dom().finite(),
    {
    }

    /// How many users there are.
    pub fn len(&self) -> (r: usize)
        ensures
            r == self@.len(),
    {
        self.map.len()
    }

    /// The user with id `id`, if there is one.
    pub fn get(&self, id: UserId) -> (r: Option<&User>)
        ensures
            match r {
                Some(u) => self@.contains_key(id.0) && *u == self@[id.0],
                None => !self@.contains_key(id.0),
            },
    {
        self.map.get(&id.0)
    }

    /// Whether a user has id `id`.
    pub fn contains(&self, id: UserId) -> (r: bool)
        ensures
            r == self@.contains_key(id.0),
    {
        self.get(id).is_some()
    }
}

/// The players of a game: in direct messages only the one who started it; in a
/// server, anyone who guesses joins them.
pub enum Users<'owner> {
    One(&'owner User),
    More { owner: &'owner User, others: Option<UserMap> },
}

/// What one `add` of `user` does: the owner and whether others may join stay; if others
/// may join and `user` is not the owner, `user` joins under their id, replacing whoever
/// joined before with that id.
pub open spec fn joins(before: Users, user: User, after: Users) -> bool {
    &&& after.owner_view() == before.owner_view()
    &&& after.open_view() == before.open_view()
    &&& after.others_view() == if before.open_view() && user.id.0 != before.owner_view().id.0 {
        before.others_view().insert(user.id.0, user)
    } else {
        before.others_view()
    }
}

impl<'owner> Users<'owner> {
    /// The one who started the game.
    pub open spec fn owner_view(&self) -> User {
        match self {
            Users::One(u) => **u,
            Users::More { owner, .. } => **owner,
        }
    }

    /// The players who joined, by id.
    pub open spec fn others_view(&self) -> Map<u64, User> {
        match self {
            Users::More { others: Some(m), .. } => m@,
            _ => Map::empty(),
        }
    }

    /// Whether others may join.
    pub open spec fn open_view(&self) -> bool {
        self is More
    }

    /// Whether someone with id `id` takes part.
    pub open spec fn has(&self, id: u64) -> bool {
        id == self.owner_view().id.0 || self.others_view().contains_key(id)
    }

    /// Finitely many players join a game.
    pub proof fn lemma_others_finite(&self)
        ensures
            self.others_view().dom().finite(),
    {
        if let Users::More { others: Some(m), .. } = self {
            m.lemma_finite();
        }
    }

    /// A game for `user` alone.
    pub fn one(user: &'owner User) -> (r: Self)
        ensures
            r matches Users::One(u) && *u == *user,
            r.owner_view() == *user,
            !r.others_view().contains_key(r.owner_view().id.0),
            !r.open_view(),
            r.others_view() == Map::<u64, User>::empty(),
    {
        Users::One(user)
    }

    /// A game started by `owner` that others may join.
    pub fn more(owner: &'owner User) -> (r: Self)
        ensures
            r matches Users::More { owner: o, others: None } && *o == *owner,
            r.owner_view() == *owner,
            !r.others_view().contains_key(r.owner_view().id.0),
            r.open_view(),
            r.others_view() == Map::<u64, User>::empty(),
    {
        Users::More { owner, others: None }
    }

    /// How many take part: the owner and the others who joined.
    pub fn count(&self) -> (r: usize)
        requires
            self.others_view().len() < usize::MAX,
        ensures
            r == self.others_view().len() + 1,
    {
        match self {
            Users::One(..) => 1,
            Users::More { others, .. } => match others {
                Some(m) => m.len() + 1,
                None => 1,
            },
        }
    }

    /// The one who started the game.
    pub fn owner(&self) -> (r: &'owner User)
        ensures
            *r == self.owner_view(),
    {
        match self {
            Users::One(owner) => owner,
            Users::More { owner, .. } => owner,
        }
    }

    /// The owner, by id. Those who joined are not listed.
    pub fn user_map(&self) -> (r: HashMap<u64, &'owner User>)
        ensures
            r@ == map![self.owner_view().id.0 => &self.owner_view()],
    {
        let owner = self.owner();
        let mut m: HashMap<u64, &'owner User> = HashMap::new();
        m.insert(owner.id.0, owner);
        proof {
            assert(m@ =~= map![self.owner_view().id.0 => &self.owner_view()]);
        }
        m
    }

    /// The player with id `id`: the owner first, then those who joined.
    fn get(&self, id: UserId) -> (r: Option<&User>)
        ensures
            r is Some <==> self.has(id.0),
            r matches Some(u) ==> u.id.0 == id.0 || (self.others_view().contains_key(id.0) && *u
                == self.others_view()[id.0]),
    {
        let owner = self.owner();
        if id.0 == owner.id.0 {
            Some(owner)
        } else {
            match self {
                Users::More { others: Some(m), .. } => m.get(id),
                _ => None,
            }
        }
    }

    /// Whether the player with id `id` takes part.
    pub fn contains(&self, id: UserId) -> (r: bool)
        ensures
            r == self.has(id.0),
    {
        self.get(id).is_some()
    }

    /// Lets `user` join, if others may join and `user` is not the owner; otherwise the
    /// game is left as it was.
    pub fn add(&mut self, user: User)
        ensures
            joins(*old(self), user, *final(self)),
            !old(self).open_view() || user.id.0 == old(self).owner_view().id.0 ==> *final(self)
                == *old(self),
            final(self).others_view().dom().finite(),
            !old(self).others_view().contains_key(old(self).owner_view().id.0)
                ==> !final(self).others_view().contains_key(final(self).owner_view().id.0),
    {
        proof {
            self.lemma_others_finite();
        }
        match self {
            Users::One(..) => {},
            Users::More { owner, others } => {
                if user.id.0 != owner.id.0 {
                    let mut m = match others.take() {
                        Some(m) => m,
                        None => UserMap::new(),
                    };
                    m.insert(user);
                    proof {
                        m.lemma_finite();
                    }
                    *others = Some(m);
                }
            },
        }
    }
}

/// A map of users that either owns them or borrows them.
#[allow(inconsistent_fields)]
pub enum NewUserMap<'user> {
    Owned { map: HashMap<u64, User> },
    Borrowed { map: HashMap<u64, &'user User> },
}

impl<'user> NewUserMap<'user> {
    /// An empty map that owns its users.
    pub fn owned() -> (r: Self)
        ensures
            r matches NewUserMap::Owned { map } && map@ == Map::<u64, User>::empty(),
    {
        NewUserMap::Owned { map: HashMap::new() }
    }

    /// An empty map that borrows its users.
    pub fn borrowed() -> (r: Self)
        ensures
            r matches NewUserMap::Borrowed { map } && map@ == Map::<u64, &'user User>::empty(),
    {
        NewUserMap::Borrowed { map: HashMap::new() }
    }

    /// Adds `user` to a map that owns its users.
    pub fn insert(&mut self, user: User)
        requires
            *old(self) is Owned,
        ensures
            *final(self) matches NewUserMap::Owned { map: m } && (*old(self) matches NewUserMap::Owned {
                map: m0,
            } && m@ == m0@.insert(user.id.0, user)),
    {
        match self {
            NewUserMap::Owned { map } => {
                let id = user.id.0;
                map.insert(id, user);
            },
            NewUserMap::Borrowed { .. } => {},
        }
    }
}

/// Once a player has joined a game that others may join, they take part in it; and
/// the owner always does.
pub proof fn lemma_added_takes_part(before: Users, after: Users, user: User)
    requires
        before.open_view(),
        joins(before, user, after),
    ensures
        after.has(user.id.0),
        after.has(after.owner_view().id.0),
        forall|id: u64| before.has(id) ==> after.has(id),
{
}

/// The ids of everyone who takes part in `users`.
pub open spec fn player_ids(users: Users) -> Set<u64> {
    Set::new(|id: u64| users.has(id))
}

/// When the owner is not among those who joined, as `one`, `more` and `add` keep it,
/// the players are the owner and the joined, each counted once: finitely many, one
/// more than joined, which is what `count` gives.
pub proof fn lemma_count_is_players(users: Users)
    requires
        !users.others_view().contains_key(users.owner_view().id.0),
    ensures
        player_ids(users).finite(),
        player_ids(users).len() == users.others_view().len() + 1,
{
    users.lemma_others_finite();
    let dom = users.others_view().dom();
    assert(player_ids(users) =~= dom.insert(users.owner_view().id.0));
}

/// Whether `states` are a game's states as `added` join it one after another: each
/// state follows from the one before by `add` of the next user.
pub open spec fn joins_in_turn(states: Seq<Users>, added: Seq<User>) -> bool {
    &&& states.len() == added.len() + 1
    &&& forall|i: int| 0 <= i < added.len() ==> #[trigger] joins_at(states, added, i)
}

/// Whether state `i + 1` of `states` follows from state `i` by `add` of `added[i]`.
pub open spec fn joins_at(states: Seq<Users>, added: Seq<User>, i: int) -> bool {
    joins(states[i], added[i], states[i + 1])
}

/// The ids of the players who joined a game of the owner with id `owner` when `added`
/// joined: none when others may not join, else each id among `added` but the owner's.
pub open spec fn joined_ids(owner: u64, open: bool, added: Seq<User>) -> Set<u64> {
    Set::new(
        |id: u64| open && id != owner && exists|i: int| 0 <= i < added.len() && #[trigger] added[i].id.0 == id,
    )
}

/// A game started by `owner` (by `one` or `more`, no one joined yet) that then sees
/// `added` join in turn keeps its owner, who still takes part, and keeps whether others
/// may join; the players who joined are those with the ids among `added` other than
/// the owner's, each counted once, and none at all in a game for one. So the game
/// counts one player more than there are such ids.
pub proof fn lemma_joins_in_turn(states: Seq<Users>, added: Seq<User>)
    requires
        joins_in_turn(states, added),
        states[0].others_view() == Map::<u64, User>::empty(),
    ensures
        states.last().owner_view() == states[0].owner_view(),
        states.last().open_view() == states[0].open_view(),
        states.last().has(states[0].owner_view().id.0),
        states.last().others_view().dom() == joined_ids(
            states[0].owner_view().id.0,
            states[0].open_view(),
            added,
        ),
        states.last().others_view().dom().finite(),
        !states.last().others_view().contains_key(states.last().owner_view().id.0),
        states.last().others_view().len() == joined_ids(
            states[0].owner_view().id.0,
            states[0].open_view(),
            added,
        ).len(),
    decreases added.len(),
{
    let owner = states[0].owner_view().id.0;
    let open = states[0].open_view();
    if added.len() == 0 {
        assert(joined_ids(owner, open, added) =~= Set::empty());
    } else {
        let k = added.len() - 1;
        let s2 = states.drop_last();
        let a2 = added.drop_last();
        assert forall|i: int| 0 <= i < a2.len() implies #[trigger] joins_at(s2, a2, i) by {
            assert(joins_at(states, added, i));
        }
        lemma_joins_in_turn(s2, a2);
        assert(joins_at(states, added, k));
        let u = added[k];
        let prev = joined_ids(owner, open, a2);
        let next = joined_ids(owner, open, added);
        if open && u.id.0 != owner {
            assert forall|id: u64| next.contains(id) <==> prev.insert(u.id.0).contains(id) by {
                if next.contains(id) && id != u.id.0 {
                    let i = choose|i: int| 0 <= i < added.len() && #[trigger] added[i].id.0 == id;
                    assert(a2[i].id.0 == id);
                }
                if prev.contains(id) {
                    let i = choose|i: int| 0 <= i < a2.len() && #[trigger] a2[i].id.0 == id;
                    assert(added[i].id.0 == id);
                }
                if id == u.id.0 {
                    assert(added[k].id.0 == id);
                }
            }
            assert(next =~= prev.insert(u.id.0));
        } else {
            assert forall|id: u64| next.contains(id) <==> prev.contains(id) by {
                if next.contains(id) {
                    let i = choose|i: int| 0 <= i < added.len() && #[trigger] added[i].id.0 == id;
                    if i < k {
                        assert(a2[i].id.0 == id);
                    }
                }
                if prev.contains(id) {
                    let i = choose|i: int| 0 <= i < a2.len() && #[trigger] a2[i].id.0 == id;
                    assert(added[i].id.0 == id);
                }
            }
            assert(next =~= prev);
        }
    }
}

} // verus!
