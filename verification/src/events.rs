//! Which gateway events the bot acts on, and how failures of the message watchers are
//! reported together.
use vstd::prelude::*;

use crate::text::{join, push_str};

verus! {

/// Whether the watchers look at a message: not the bot's own, not a direct message,
/// and in a channel where watchers may answer.
pub fn should_watch(own: bool, private: bool, channel_allowed: bool) -> (r: bool)
    ensures
        r == (!own && !private && channel_allowed),
{
    !own && !private && channel_allowed
}

/// Whether a reaction may ask for a bug report: not the bot's own, and in a server.
pub fn should_check_reaction(by_bot: bool, in_guild: bool) -> (r: bool)
    ensures
        r == (!by_bot && in_guild),
{
    !by_bot && in_guild
}

/// The watchers that failed on one message, by their errors' messages.
#[derive(Debug)]
pub struct MessageWatchersErrors {
    failures: Vec<String>,
}

/// The messages of the failed results, in order.
pub open spec fn failures_of(results: Seq<Result<(), String>>) -> Seq<Seq<char>>
    decreases results.len(),
{
    if results.len() == 0 {
        Seq::empty()
    } else {
        let rest = failures_of(results.drop_last());
        match results.last() {
            Ok(_) => rest,
            Err(e) => rest.push(e@),
        }
    }
}

impl MessageWatchersErrors {
    pub closed spec fn failures_view(&self) -> Seq<Seq<char>> {
        Seq::new(self.failures@.len(), |i: int| self.failures@[i]@)
    }

    /// The failures among the watchers' results, if there is any.
    pub fn from_results(results: Vec<Result<(), String>>) -> (r: Option<MessageWatchersErrors>)
        ensures
            failures_of(results@).len() == 0 ==> r is None,
            failures_of(results@).len() > 0 ==> (r matches Some(e) && e.failures_view()
                == failures_of(results@)),
    {
        let n = results.len();
        let ghost rs = results@;
        let mut failures: Vec<String> = Vec::new();
        let mut i: usize = 0;
        let mut results = results;
        assert(rs.skip(0) =~= rs);
        while i < n
            invariant
                i <= n == rs.len(),
                results@ == rs.skip(i as int),
                Seq::new(failures@.len(), |k: int| failures@[k]@) == failures_of(rs.take(i as int)),
            decreases n - i,
        {
            assert(rs.take(i + 1).drop_last() =~= rs.take(i as int));
            let item = results.remove(0);
            assert(item == rs[i as int]);
            assert(results@ =~= rs.skip(i + 1));
            match item {
                Ok(()) => {},
                Err(e) => {
                    failures.push(e);
                },
            }
            assert(Seq::new(failures@.len(), |k: int| failures@[k]@) =~= failures_of(rs.take(i + 1)));
            i = i + 1;
        }
        assert(rs.take(n as int) =~= rs);
        if failures.len() == 0 {
            None
        } else {
            Some(MessageWatchersErrors { failures })
        }
    }

    /// The message: every failure's message, one after another.
    pub fn to_string(&self) -> (r: String)
        ensures
            r@ == join(self.failures_view(), Seq::empty()),
    {
        let ghost fs = self.failures_view();
        let mut s = String::new();
        for i in 0..self.failures.len()
            invariant
                fs == Seq::new(self.failures@.len(), |k: int| self.failures@[k]@),
                s@ == join(fs.take(i as int), Seq::empty()),
        {
            assert(fs.take(i + 1).drop_last() =~= fs.take(i as int));
            if i == 0 {
                assert(fs.take(0) =~= Seq::<Seq<char>>::empty());
            }
            let ghost before = s@;
            push_str(&mut s, self.failures[i].as_str());
            assert(s@ =~= join(fs.take(i + 1), Seq::empty()));
        }
        assert(fs.take(self.failures@.len() as int) =~= fs);
        s
    }
}

} // verus!
