//! What the channel subscribes to.

use super::channel::{NostrChannel, NostrChannelConfig};
use crate::text::opt_text;
use vstd::prelude::*;

verus! {

/// A subscription: event kinds, and where given their author, the key that they are addressed to,
/// and whether only events from now on count.
pub struct FilterSpec {
    pub kinds: Vec<u16>,
    pub author: Option<String>,
    pub addressed_to: Option<String>,
    pub since_now: bool,
}

/// What a `FilterSpec` says.
pub struct FilterView {
    pub kinds: Seq<u16>,
    pub author: Option<Seq<char>>,
    pub addressed_to: Option<Seq<char>>,
    pub since_now: bool,
}

impl View for FilterSpec {
    type V = FilterView;

    open spec fn view(&self) -> FilterView {
        FilterView {
            kinds: self.kinds@,
            author: opt_text(self.author),
            addressed_to: opt_text(self.addressed_to),
            since_now: self.since_now,
        }
    }
}

/// A subscription to everything of some kinds from now on.
pub open spec fn of_kinds(kinds: Seq<u16>) -> FilterView {
    FilterView { kinds, author: None, addressed_to: None, since_now: true }
}

/// What is subscribed to for the groups.
pub open spec fn group_filters(groups: nat) -> Seq<FilterView> {
    if groups > 0 {
        seq![of_kinds(seq![9u16, 11u16, 12u16])]
    } else {
        Seq::empty()
    }
}

/// What is subscribed to for direct messages.
pub open spec fn dm_filters(listen: bool, key: Seq<char>) -> Seq<FilterView> {
    if listen {
        seq![FilterView { addressed_to: Some(key), ..of_kinds(seq![1059u16]) }]
    } else {
        Seq::empty()
    }
}

/// What is subscribed to of the owner: published settings from now on, and every ownership claim.
pub open spec fn owner_filters(owner: Option<Seq<char>>) -> Seq<FilterView> {
    match owner {
        Some(o) => seq![
            FilterView { author: Some(o), ..of_kinds(seq![30078u16]) },
            FilterView { author: Some(o), since_now: false, ..of_kinds(seq![14199u16]) },
        ],
        None => Seq::empty(),
    }
}

/// The kinds of task status events.
pub open spec fn task_kinds() -> Seq<u16> {
    seq![1630u16, 1631u16, 1632u16, 1633u16, 1634u16, 1635u16, 1636u16, 1637u16]
}

/// Everything that a channel subscribes to.
pub open spec fn filters_of(c: NostrChannelConfig) -> Seq<FilterView> {
    group_filters(c.groups@.len()) + dm_filters(c.listen_dms, c.public_key@) + seq![
        of_kinds(task_kinds()),
    ] + owner_filters(opt_text(c.owner)) + seq![
        FilterView { addressed_to: Some(c.public_key@), ..of_kinds(seq![1121u16]) },
        of_kinds(seq![31121u16]),
    ]
}

/// What a list of filters says.
pub open spec fn filter_views(v: Seq<FilterSpec>) -> Seq<FilterView> {
    Seq::new(v.len(), |i: int| v[i]@)
}

fn push_filter(
    filters: &mut Vec<FilterSpec>,
    kinds: Vec<u16>,
    author: Option<String>,
    addressed_to: Option<String>,
    since_now: bool,
)
    ensures
        filter_views(final(filters)@) == filter_views(old(filters)@).push(
            FilterView {
                kinds: kinds@,
                author: opt_text(author),
                addressed_to: opt_text(addressed_to),
                since_now,
            },
        ),
{
    let ghost before = filters@;
    let f = FilterSpec { kinds, author, addressed_to, since_now };
    filters.push(f);
    assert(filter_views(filters@) =~= filter_views(before).push(f@));
}

impl NostrChannel {
    /// What the channel subscribes to.
    pub fn build_filters(&self) -> (r: Vec<FilterSpec>)
        ensures
            filter_views(r@) == filters_of(self.config),
    {
        let key = &self.config.public_key;
        let mut filters: Vec<FilterSpec> = Vec::new();
        let ghost a = group_filters(self.config.groups@.len());
        let ghost b = dm_filters(self.config.listen_dms, key@);
        let ghost c = seq![of_kinds(task_kinds())];
        let ghost d = owner_filters(opt_text(self.config.owner));
        if self.config.groups.len() > 0 {
            let kinds: Vec<u16> = vec![9u16, 11u16, 12u16];
            assert(kinds@ =~= seq![9u16, 11u16, 12u16]);
            push_filter(&mut filters, kinds, None, None, true);
        }
        assert(filter_views(filters@) =~= a);
        if self.config.listen_dms {
            let kinds: Vec<u16> = vec![1059u16];
            assert(kinds@ =~= seq![1059u16]);
            push_filter(&mut filters, kinds, None, Some(key.clone()), true);
        }
        assert(filter_views(filters@) =~= a + b);
        let kinds: Vec<u16> = vec![
            1630u16,
            1631u16,
            1632u16,
            1633u16,
            1634u16,
            1635u16,
            1636u16,
            1637u16,
        ];
        assert(kinds@ =~= task_kinds());
        push_filter(&mut filters, kinds, None, None, true);
        assert(filter_views(filters@) =~= a + b + c);
        if let Some(owner) = &self.config.owner {
            let kinds: Vec<u16> = vec![30078u16];
            assert(kinds@ =~= seq![30078u16]);
            push_filter(&mut filters, kinds, Some(owner.clone()), None, true);
            let kinds: Vec<u16> = vec![14199u16];
            assert(kinds@ =~= seq![14199u16]);
            push_filter(&mut filters, kinds, Some(owner.clone()), None, false);
        }
        assert(filter_views(filters@) =~= a + b + c + d);
        let kinds: Vec<u16> = vec![1121u16];
        assert(kinds@ =~= seq![1121u16]);
        push_filter(&mut filters, kinds, None, Some(key.clone()), true);
        let kinds: Vec<u16> = vec![31121u16];
        assert(kinds@ =~= seq![31121u16]);
        push_filter(&mut filters, kinds, None, None, true);
        assert(filter_views(filters@) =~= filters_of(self.config));
        filters
    }
}

/// What is asked of the relays: the messages of groups where groups are followed, direct messages to
/// the agent where it listens to them, the statuses of tasks, what the owner publishes and claims, the
/// requests to the agent, and the states of agents.
pub proof fn relays_are_asked(c: NostrChannelConfig)
    ensures
        ({
            let f = filters_of(c);
            &&& c.groups@.len() > 0 ==> exists|i: int|
                0 <= i < f.len() && (#[trigger] f[i]).kinds == seq![9u16, 11u16, 12u16] && f[i].author
                    is None && f[i].addressed_to is None && f[i].since_now
            &&& c.listen_dms ==> exists|i: int|
                0 <= i < f.len() && (#[trigger] f[i]).kinds == seq![1059u16] && f[i].addressed_to == Some(
                    c.public_key@,
                ) && f[i].since_now
            &&& exists|i: int|
                0 <= i < f.len() && (#[trigger] f[i]).kinds == seq![
                    1630u16,
                    1631u16,
                    1632u16,
                    1633u16,
                    1634u16,
                    1635u16,
                    1636u16,
                    1637u16,
                ] && f[i].author is None && f[i].since_now
            &&& c.owner matches Some(o) ==> exists|i: int|
                0 <= i < f.len() && (#[trigger] f[i]).kinds == seq![30078u16] && f[i].author == Some(o@)
                    && f[i].since_now
            &&& c.owner matches Some(o) ==> exists|i: int|
                0 <= i < f.len() && (#[trigger] f[i]).kinds == seq![14199u16] && f[i].author == Some(o@)
                    && !f[i].since_now
            &&& exists|i: int|
                0 <= i < f.len() && (#[trigger] f[i]).kinds == seq![1121u16] && f[i].addressed_to == Some(
                    c.public_key@,
                ) && f[i].since_now
            &&& exists|i: int|
                0 <= i < f.len() && (#[trigger] f[i]).kinds == seq![31121u16] && f[i].author is None
                    && f[i].addressed_to is None && f[i].since_now
            &&& f.len() == (if c.groups@.len() > 0 {
                1int
            } else {
                0
            }) + (if c.listen_dms {
                1int
            } else {
                0
            }) + (if c.owner is Some {
                2int
            } else {
                0
            }) + 3
        }),
{
    let f = filters_of(c);
    let g: int = if c.groups@.len() > 0 {
        1
    } else {
        0
    };
    let d: int = if c.listen_dms {
        1
    } else {
        0
    };
    if c.groups@.len() > 0 {
        assert(f[0].kinds == seq![9u16, 11u16, 12u16]);
    }
    if c.listen_dms {
        assert(f[g].kinds == seq![1059u16]);
    }
    assert(f[g + d].kinds == task_kinds());
    if c.owner is Some {
        assert(f[g + d + 1].kinds == seq![30078u16]);
        assert(f[g + d + 2].kinds == seq![14199u16]);
        assert(f[g + d + 3].kinds == seq![1121u16]);
        assert(f[g + d + 4].kinds == seq![31121u16]);
    } else {
        assert(f[g + d + 1].kinds == seq![1121u16]);
        assert(f[g + d + 2].kinds == seq![31121u16]);
    }
}

} // verus!
