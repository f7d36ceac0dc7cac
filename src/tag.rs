use vstd::prelude::*;

use crate::client::ClientId;
use crate::monitor::Monitor;

verus! {

/// `s` without any occurrence of `id`, order kept.
pub open spec fn remove_all(s: Seq<ClientId>, id: ClientId) -> Seq<ClientId>
    decreases s.len(),
{
    if s.len() == 0 {
        Seq::empty()
    } else {
        let rest = remove_all(s.drop_last(), id);
        if s.last() == id {
            rest
        } else {
            rest.push(s.last())
        }
    }
}

/// Removing an absent handle changes nothing.
pub proof fn lemma_remove_absent(s: Seq<ClientId>, id: ClientId)
    requires
        !s.contains(id),
    ensures
        remove_all(s, id) == s,
    decreases s.len(),
{
    if s.len() > 0 {
        assert(!s.drop_last().contains(id)) by {
            if s.drop_last().contains(id) {
                let k = choose|k: int| 0 <= k < s.len() - 1 && #[trigger] s.drop_last()[k] == id;
                assert(s[k] == id);
            }
        }
        lemma_remove_absent(s.drop_last(), id);
        assert(s.last() != id);
        assert(s.drop_last().push(s.last()) =~= s);
    }
}

/// What is left after removal never holds `id`, and holds only what was there.
pub proof fn lemma_remove_all_members(s: Seq<ClientId>, id: ClientId)
    ensures
        !remove_all(s, id).contains(id),
        forall|x: ClientId| #[trigger] remove_all(s, id).contains(x) ==> s.contains(x),
    decreases s.len(),
{
    if s.len() > 0 {
        lemma_remove_all_members(s.drop_last(), id);
        let rest = remove_all(s.drop_last(), id);
        assert forall|x: ClientId| #[trigger] remove_all(s, id).contains(x) implies s.contains(
            x,
        ) by {
            if rest.contains(x) {
                let k = choose|k: int| 0 <= k < rest.len() && #[trigger] rest[k] == x;
                assert(s.drop_last().contains(x));
                let k2 = choose|k2: int|
                    0 <= k2 < s.drop_last().len() && #[trigger] s.drop_last()[k2] == x;
                assert(s[k2] == x);
            } else {
                let r = remove_all(s, id);
                let k = choose|k: int| 0 <= k < r.len() && #[trigger] r[k] == x;
                assert(s[s.len() - 1] == x);
            }
        }
        if remove_all(s, id).contains(id) {
            let r = remove_all(s, id);
            let k = choose|k: int| 0 <= k < r.len() && #[trigger] r[k] == id;
            if s.last() != id {
                assert(k < rest.len());
                assert(rest[k] == id);
            }
        }
    }
}

/// Removal keeps every other handle.
pub proof fn lemma_remove_keeps_others(s: Seq<ClientId>, id: ClientId, other: ClientId)
    requires
        other != id,
        s.contains(other),
    ensures
        remove_all(s, id).contains(other),
    decreases s.len(),
{
    let rest = remove_all(s.drop_last(), id);
    if s.last() == other {
        assert(remove_all(s, id) == rest.push(other));
        assert(remove_all(s, id)[rest.len() as int] == other);
    } else {
        let k = choose|k: int| 0 <= k < s.len() && s[k] == other;
        assert(s.drop_last()[k] == other);
        lemma_remove_keeps_others(s.drop_last(), id, other);
        let j = choose|j: int| 0 <= j < rest.len() && rest[j] == other;
        if s.last() != id {
            assert(remove_all(s, id)[j] == other);
        }
    }
}

/// Gaps between windows.
#[derive(Debug, Clone, Copy, PartialEq, Eq, Default, Structural)]
pub struct Gaps {
    /// Horizontal gap between windows.
    pub inner_horizontal: u32,
    /// Vertical gaps between windows.
    pub inner_vertical: u32,
    /// Horizontal outer gaps to the root window.
    pub outer_horizontal: u32,
    /// Vertical outer gaps to the root window.
    pub outer_vertical: u32,
}

/// The state of a tag.
#[derive(Debug, Clone, Copy, PartialEq, Eq, Default, Structural)]
pub struct TagState {
    /// Whether this tag is currently selected.
    pub selected: bool,
    /// Whether this tag is currently occupied by one or more clients.
    pub occupied: bool,
    /// Whether a client has an urgent status in this tag.
    pub urgent: bool,
}

/// The placement strategies a tag can use.
#[derive(Debug, Clone, Copy, PartialEq, Eq, Structural)]
pub enum LayoutKind {
    /// Leaves every client where it is.
    Test,
}

/// A tiling layout: its symbol and name, and the strategy that places clients.
#[derive(Debug, Clone, Copy)]
pub struct Layout {
    pub symbol: &'static str,
    pub name: &'static str,
    pub kind: LayoutKind,
}

impl Layout {
    /// Creates a layout.
    pub fn new(symbol: &'static str, name: &'static str, kind: LayoutKind) -> (r: Layout)
        ensures
            r.symbol == symbol,
            r.name == name,
            r.kind == kind,
    {
        Layout { symbol, name, kind }
    }

    /// Places the clients of `tag` on `monitor`.
    pub fn apply(&self, tag: &Tag, monitor: &Monitor) {
        match self.kind {
            LayoutKind::Test => test_layout(tag, monitor),
        }
    }
}

/// The layout that places nothing.
pub fn test_layout(_tag: &Tag, _monitor: &Monitor) {
}

/// A workspace holding clients, in insertion order.
#[derive(Debug)]
pub struct Tag {
    idx: u8,
    label: String,
    clients: Vec<ClientId>,
    layout: Layout,
    /// The share of the width given to the master client, in thousandths.
    master_factor: u16,
    gaps: Gaps,
    state: TagState,
}

impl Tag {
    /// The clients of this tag, in insertion order.
    pub closed spec fn members(self) -> Seq<ClientId> {
        self.clients@
    }

    /// The index of this tag.
    pub closed spec fn index(self) -> u8 {
        self.idx
    }

    /// The label of this tag.
    pub closed spec fn label_view(self) -> Seq<char> {
        self.label@
    }

    /// The occupied flag agrees with the client list.
    pub closed spec fn wf(self) -> bool {
        self.state.occupied == (self.clients@.len() > 0)
    }

    /// A tag without clients.
    pub fn new(idx: u8, label: String, layout: Layout) -> (r: Tag)
        ensures
            r.members() == Seq::<ClientId>::empty(),
            r.index() == idx,
            r.label_view() == label@,
            r.layout_spec() == layout,
            r.master_factor_spec() == 0,
            r.gaps_spec() == (Gaps {
                inner_horizontal: 0,
                inner_vertical: 0,
                outer_horizontal: 0,
                outer_vertical: 0,
            }),
            r.wf(),
    {
        Tag {
            idx,
            label,
            clients: Vec::new(),
            layout,
            master_factor: 0,
            gaps: Gaps { inner_horizontal: 0, inner_vertical: 0, outer_horizontal: 0, outer_vertical: 0 },
            state: TagState { selected: false, occupied: false, urgent: false },
        }
    }

    /// The index of the tag.
    pub fn idx(&self) -> (r: u8)
        ensures
            r == self.index(),
    {
        self.idx
    }

    /// The label of the tag.
    pub fn label(&self) -> (r: &String)
        ensures
            r@ == self.label_view(),
    {
        &self.label
    }

    /// All clients in this tag.
    pub fn clients(&self) -> (r: &Vec<ClientId>)
        ensures
            r@ == self.members(),
    {
        &self.clients
    }

    /// The layout of this tag.
    pub closed spec fn layout_spec(self) -> Layout {
        self.layout
    }

    /// The share of the width given to the master client, in thousandths.
    pub closed spec fn master_factor_spec(self) -> u16 {
        self.master_factor
    }

    /// The gaps of this tag.
    pub closed spec fn gaps_spec(self) -> Gaps {
        self.gaps
    }

    /// The current layout of the tag.
    pub fn layout(&self) -> (r: Layout)
        ensures
            r == self.layout_spec(),
    {
        self.layout
    }

    /// The share of the width given to the master client, in thousandths.
    pub fn master_factor(&self) -> (r: u16)
        ensures
            r == self.master_factor_spec(),
    {
        self.master_factor
    }

    /// Sets the share of the width given to the master client, in thousandths.
    pub fn set_master_factor(&mut self, master_factor: u16)
        requires
            old(self).wf(),
        ensures
            final(self).wf(),
            final(self).master_factor_spec() == master_factor,
            final(self).members() == old(self).members(),
            final(self).index() == old(self).index(),
            final(self).layout_spec() == old(self).layout_spec(),
    {
        self.master_factor = master_factor;
    }

    /// Gaps between windows.
    pub fn gaps(&self) -> (r: Gaps)
        ensures
            r == self.gaps_spec(),
    {
        self.gaps
    }

    /// The state of this tag.
    pub fn state(&self) -> (r: TagState)
        requires
            self.wf(),
        ensures
            r.occupied == (self.members().len() > 0),
    {
        self.state
    }

    /// Changes the layout of this tag.
    pub fn change_layout(&mut self, layout: Layout)
        requires
            old(self).wf(),
        ensures
            final(self).wf(),
            final(self).layout_spec() == layout,
            final(self).members() == old(self).members(),
            final(self).index() == old(self).index(),
            final(self).master_factor_spec() == old(self).master_factor_spec(),
    {
        self.layout = layout;
    }

    /// Appends a client.
    pub fn push_client(&mut self, client: ClientId)
        ensures
            final(self).members() == old(self).members().push(client),
            final(self).index() == old(self).index(),
            final(self).wf(),
    {
        self.clients.push(client);
        self.state.occupied = true;
    }

    /// Removes every occurrence of a client, keeping the order of the others.
    pub fn remove_client(&mut self, client: ClientId)
        ensures
            final(self).members() == remove_all(old(self).members(), client),
            final(self).index() == old(self).index(),
            final(self).wf(),
    {
        let mut kept: Vec<ClientId> = Vec::new();
        let n = self.clients.len();
        let mut i: usize = 0;
        while i < n
            invariant
                n == self.clients@.len(),
                i <= n,
                kept@ == remove_all(self.clients@.take(i as int), client),
            decreases n - i,
        {
            let c = self.clients[i];
            assert(self.clients@.take(i + 1).drop_last() =~= self.clients@.take(i as int));
            if c != client {
                kept.push(c);
            }
            i += 1;
        }
        assert(self.clients@.take(n as int) =~= self.clients@);
        self.clients = kept;
        self.state.occupied = self.clients.len() > 0;
    }
}

impl PartialEq for Tag {
    /// Tags are equal when their index and label are.
    fn eq(&self, other: &Tag) -> (r: bool) {
        self.idx == other.idx && self.label == other.label
    }
}

impl vstd::std_specs::cmp::PartialEqSpecImpl for Tag {
    open spec fn obeys_eq_spec() -> bool {
        true
    }

    open spec fn eq_spec(&self, other: &Tag) -> bool {
        self.index() == other.index() && self.label_view() == other.label_view()
    }
}

} // verus!
