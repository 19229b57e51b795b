//! Requests that wait for a response.

use crate::text_map::TextMap;
use vstd::prelude::*;

verus! {

/// The requests that wait for a response: by the JSON text of their id, the number of whoever waits.
pub struct Pending {
    slots: TextMap<u64>,
}

impl View for Pending {
    type V = Map<Seq<char>, u64>;

    closed spec fn view(&self) -> Map<Seq<char>, u64> {
        self.slots@
    }
}

/// What a transport says to those who wait when it closes.
pub const CLOSED: &'static str = "MCP transport closed";

/// What a relay transport says to those who wait when it shuts down.
pub const SHUTTING_DOWN: &'static str = "Transport shutting down";

impl Pending {
    /// Nobody waits.
    pub fn new() -> (r: Self)
        ensures
            r@ == Map::<Seq<char>, u64>::empty(),
    {
        Pending { slots: TextMap::new() }
    }

    /// A request goes out. One under the same id that still waited is forgotten.
    pub fn sent(&mut self, id: &str, waiter: u64)
        ensures
            final(self)@ == old(self)@.insert(id@, waiter),
    {
        self.slots.insert(id.to_owned(), waiter);
    }

    /// A response came in, or the wait for one is given up. Gives whoever waited for it.
    pub fn settled(&mut self, id: &str) -> (r: Option<u64>)
        ensures
            final(self)@ == old(self)@.remove(id@),
            match r {
                Some(w) => old(self)@.contains_key(id@) && w == old(self)@[id@],
                None => !old(self)@.contains_key(id@),
            },
    {
        self.slots.remove(id)
    }

    /// The transport closes. Gives everybody who waited.
    pub fn closed(&mut self) -> (r: Vec<u64>)
        ensures
            final(self)@ == Map::<Seq<char>, u64>::empty(),
            r@.len() == old(self)@.dom().len(),
            exists|ids: Seq<Seq<char>>|
                {
                    &&& #[trigger] ids.no_duplicates()
                    &&& ids.len() == r@.len()
                    &&& forall|k: Seq<char>| #[trigger]
                        old(self)@.contains_key(k) == ids.contains(k)
                    &&& forall|i: int|
                        0 <= i < r@.len() ==> #[trigger] r@[i] == old(self)@[ids[i]]
                },
    {
        let n: usize = self.slots.len();
        let ghost before = self.slots;
        let ghost ids = self.slots.keys();
        let mut r: Vec<u64> = Vec::new();
        let mut i: usize = 0;
        while i < n
            invariant
                i <= n,
                n == ids.len(),
                ids == self.slots.keys(),
                self.slots == before,
                r@.len() == i,
                forall|k: int| 0 <= k < i ==> #[trigger] r@[k] == before@[ids[k]],
            decreases n - i,
        {
            let entry = self.slots.entry_at(i);
            r.push(*entry.1);
            i = i + 1;
        }
        self.slots = TextMap::new();
        proof {
            assert forall|k: Seq<char>| #[trigger] before@.contains_key(k) == ids.contains(k) by {}
            assert(ids.no_duplicates());
        }
        r
    }
}

/// Those who wait after more requests went out.
pub open spec fn after_more(m: Map<Seq<char>, u64>, more: Seq<(Seq<char>, u64)>) -> Map<
    Seq<char>,
    u64,
>
    decreases more.len(),
{
    if more.len() == 0 {
        m
    } else {
        after_more(m, more.drop_last()).insert(more.last().0, more.last().1)
    }
}

/// A response finds whoever sent the request, however many requests under other ids went out since.
pub proof fn response_reaches_sender(
    before: Map<Seq<char>, u64>,
    id: Seq<char>,
    waiter: u64,
    more: Seq<(Seq<char>, u64)>,
)
    requires
        forall|i: int| 0 <= i < more.len() ==> (#[trigger] more[i]).0 != id,
    ensures
        after_more(before.insert(id, waiter), more).contains_key(id),
        after_more(before.insert(id, waiter), more)[id] == waiter,
    decreases more.len(),
{
    if more.len() > 0 {
        assert forall|i: int| 0 <= i < more.drop_last().len() implies (
        #[trigger] more.drop_last()[i]).0 != id by {
            assert(more[i].0 != id);
        }
        response_reaches_sender(before, id, waiter, more.drop_last());
        assert(more[more.len() - 1].0 != id);
    }
}

} // verus!
