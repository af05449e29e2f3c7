//! The bookkeeping of a Monte Carlo search tree: the nodes, which child a
//! move leads to, how often each node was visited and was available, and
//! which move was tried most. Scoring the nodes (rewards and the UCT
//! formula) is floating point and stays with the search that uses the tree.
use vstd::prelude::*;
use vstd::std_specs::cmp::PartialEqSpec;

verus! {

/// A search tree's counts and edges, as a mathematical value. Node 0 is the
/// root; `children[n]` lists node `n`'s moves with the node each leads to.
#[verifier::ext_equal]
pub struct TreeModel<A> {
    /// How many simulations passed through each node.
    pub visits: Seq<u32>,
    /// How many simulations each node's move was legal in.
    pub avails: Seq<u32>,
    /// Each node's moves and the nodes they lead to, oldest first.
    pub children: Seq<Seq<(A, usize)>>,
}

/// A tree whose count lists match its node list, which has a root, and whose
/// edges all lead to nodes of the tree.
pub open spec fn tree_wf<A>(m: TreeModel<A>) -> bool {
    &&& m.visits.len() == m.children.len()
    &&& m.avails.len() == m.children.len()
    &&& m.children.len() >= 1
    &&& forall|n: int, k: int|
        0 <= n < m.children.len() && 0 <= k < m.children[n].len() ==> #[trigger] m.children[n][k].1 < m.children.len()
}

/// The ids of the children among `kids` whose move is legal, in order: a
/// move is legal when some entry of `legal` equals it.
pub open spec fn legal_ids<A: PartialEq>(kids: Seq<(A, usize)>, legal: Seq<A>) -> Seq<usize>
    decreases kids.len(),
{
    if kids.len() == 0 {
        Seq::empty()
    } else {
        let rest = legal_ids(kids.drop_last(), legal);
        if exists|j: int| 0 <= j < legal.len() && #[trigger] legal[j].eq_spec(&kids.last().0) {
            rest.push(kids.last().1)
        } else {
            rest
        }
    }
}

/// The positions in `legal` of the moves no child among `kids` has taken
/// yet, in order.
pub open spec fn untried_positions_spec<A: PartialEq>(kids: Seq<(A, usize)>, legal: Seq<A>) -> Seq<usize>
    decreases legal.len(),
{
    if legal.len() == 0 {
        Seq::empty()
    } else {
        let rest = untried_positions_spec(kids, legal.drop_last());
        if exists|k: int| 0 <= k < kids.len() && #[trigger] kids[k].0.eq_spec(&legal.last()) {
            rest
        } else {
            rest.push((legal.len() - 1) as usize)
        }
    }
}

/// The tree after `parent` gains a child by `action`.
pub open spec fn with_child<A>(m: TreeModel<A>, parent: int, action: A) -> TreeModel<A> {
    TreeModel {
        visits: m.visits.push(0),
        avails: m.avails.push(0),
        children: m.children.update(parent, m.children[parent].push((action, m.children.len() as usize))).push(Seq::empty()),
    }
}

/// A move is found again once it is added: when no move of `parent` equals
/// `action`, then after adding a child by `action` (a move equal to itself),
/// the first of `parent`'s moves equal to it is the new one, leading to the
/// new node.
pub proof fn lemma_added_child_is_found<A: PartialEq>(m: TreeModel<A>, parent: int, action: A)
    requires
        tree_wf(m),
        0 <= parent < m.children.len(),
        action.eq_spec(&action),
        forall|k: int| 0 <= k < m.children[parent].len() ==> !m.children[parent][k].0.eq_spec(&action),
    ensures
        ({
            let kids = with_child(m, parent, action).children[parent];
            let k = m.children[parent].len() as int;
            &&& 0 <= k < kids.len()
            &&& kids[k].0.eq_spec(&action)
            &&& kids[k].1 == m.children.len() as usize
            &&& forall|j: int| 0 <= j < k ==> !kids[j].0.eq_spec(&action)
        }),
{
    let old_kids = m.children[parent];
    let kids = with_child(m, parent, action).children[parent];
    assert(kids == old_kids.push((action, m.children.len() as usize)));
    let k = old_kids.len() as int;
    assert(kids[k] == (action, m.children.len() as usize));
    assert forall|j: int| 0 <= j < k implies !kids[j].0.eq_spec(&action) by {
        assert(kids[j] == old_kids[j]);
    }
}

/// Counting visits only ever adds: a node's visit count never drops, and the
/// edges are untouched.
pub proof fn lemma_visits_only_grow<A>(m: TreeModel<A>, id: int)
    requires
        tree_wf(m),
        0 <= id < m.children.len(),
        m.visits[id] < u32::MAX,
    ensures
        ({
            let after = TreeModel::<A> { visits: m.visits.update(id, (m.visits[id] + 1) as u32), ..m };
            &&& tree_wf(after)
            &&& forall|n: int| 0 <= n < m.visits.len() ==> m.visits[n] <= after.visits[n]
            &&& after.children == m.children
        }),
{
}

/// A Monte Carlo search tree's nodes, edges and counts.
pub struct SearchTree<A> {
    visits: Vec<u32>,
    avails: Vec<u32>,
    children: Vec<Vec<(A, usize)>>,
}

impl<A> View for SearchTree<A> {
    type V = TreeModel<A>;

    closed spec fn view(&self) -> TreeModel<A> {
        TreeModel {
            visits: self.visits@,
            avails: self.avails@,
            children: self.children@.map_values(|kids: Vec<(A, usize)>| kids@),
        }
    }
}

impl<A> SearchTree<A> {
    /// The tree is well formed (see [`tree_wf`]).
    pub open spec fn wf(&self) -> bool {
        tree_wf(self@)
    }

    /// A tree holding only the root, unvisited.
    pub fn new() -> (t: SearchTree<A>)
        ensures
            t@ == (TreeModel::<A> { visits: seq![0u32], avails: seq![0u32], children: seq![Seq::<(A, usize)>::empty()] }),
            t.wf(),
    {
        let mut children: Vec<Vec<(A, usize)>> = Vec::new();
        children.push(Vec::new());
        let t = SearchTree { visits: vec![0u32], avails: vec![0u32], children };
        proof {
            assert(t@.children =~= seq![Seq::<(A, usize)>::empty()]);
        }
        t
    }

    /// The number of nodes.
    pub fn len(&self) -> (n: usize)
        ensures
            n == self@.children.len(),
    {
        self.children.len()
    }

    /// How many simulations passed through node `id`.
    pub fn visits(&self, id: usize) -> (v: u32)
        requires
            self.wf(),
            id < self@.children.len(),
        ensures
            v == self@.visits[id as int],
    {
        self.visits[id]
    }

    /// How many simulations node `id`'s move was legal in.
    pub fn avails(&self, id: usize) -> (v: u32)
        requires
            self.wf(),
            id < self@.children.len(),
        ensures
            v == self@.avails[id as int],
    {
        self.avails[id]
    }

    /// Node `id`'s moves and the nodes they lead to, oldest first.
    pub fn children(&self, id: usize) -> (kids: &[(A, usize)])
        requires
            id < self@.children.len(),
        ensures
            kids@ == self@.children[id as int],
    {
        self.children[id].as_slice()
    }

    /// Adds a new, unvisited node reached from `parent` by `action`, and
    /// returns its id.
    pub fn add_child(&mut self, parent: usize, action: A) -> (id: usize)
        requires
            old(self).wf(),
            parent < old(self)@.children.len(),
        ensures
            final(self).wf(),
            id == old(self)@.children.len(),
            final(self)@ == with_child(old(self)@, parent as int, action),
    {
        let id = self.children.len();
        self.visits.push(0);
        self.avails.push(0);
        let mut kids = self.children.remove(parent);
        kids.push((action, id));
        self.children.insert(parent, kids);
        self.children.push(Vec::new());
        proof {
            let want = old(self)@.children.update(parent as int, old(self)@.children[parent as int].push((action, id)))
                .push(Seq::empty());
            assert(self@.children =~= want);
            assert forall|n: int, k: int|
                0 <= n < self@.children.len() && 0 <= k < self@.children[n].len() implies #[trigger] self@.children[n][k].1 < self@.children.len() by {
                if n != parent as int && n < old(self)@.children.len() {
                    assert(self@.children[n] == old(self)@.children[n]);
                }
                if n == parent as int && k < old(self)@.children[n].len() {
                    assert(self@.children[n][k] == old(self)@.children[n][k]);
                }
            }
        }
        id
    }

    /// Counts one more simulation through node `id`.
    pub fn visit(&mut self, id: usize)
        requires
            old(self).wf(),
            id < old(self)@.children.len(),
            old(self)@.visits[id as int] < u32::MAX,
        ensures
            final(self).wf(),
            final(self)@ == (TreeModel::<A> {
                visits: old(self)@.visits.update(id as int, (old(self)@.visits[id as int] + 1) as u32),
                ..old(self)@
            }),
    {
        let v = self.visits[id];
        self.visits.set(id, v + 1);
        proof {
            assert(self@.children =~= old(self)@.children);
        }
    }

    /// Counts one more simulation in which node `id`'s move was legal.
    pub fn make_available(&mut self, id: usize)
        requires
            old(self).wf(),
            id < old(self)@.children.len(),
            old(self)@.avails[id as int] < u32::MAX,
        ensures
            final(self).wf(),
            final(self)@ == (TreeModel::<A> {
                avails: old(self)@.avails.update(id as int, (old(self)@.avails[id as int] + 1) as u32),
                ..old(self)@
            }),
    {
        let v = self.avails[id];
        self.avails.set(id, v + 1);
        proof {
            assert(self@.children =~= old(self)@.children);
        }
    }

    /// The position among `parent`'s moves of the most visited one: the last
    /// of them when several tie, and none when `parent` has no moves.
    pub fn most_visited(&self, parent: usize) -> (r: Option<usize>)
        requires
            self.wf(),
            parent < self@.children.len(),
        ensures
            ({
                let kids = self@.children[parent as int];
                match r {
                    None => kids.len() == 0,
                    Some(k) => {
                        &&& k < kids.len()
                        &&& forall|j: int| 0 <= j < kids.len() ==> self@.visits[kids[j].1 as int] <= self@.visits[kids[k as int].1 as int]
                        &&& forall|j: int| k < j < kids.len() ==> self@.visits[kids[j].1 as int] < self@.visits[kids[k as int].1 as int]
                    },
                }
            }),
    {
        let kids = self.children[parent].as_slice();
        if kids.len() == 0 {
            return None;
        }
        let ghost model = self@;
        let mut best: usize = 0;
        let mut i: usize = 1;
        while i < kids.len()
            invariant
                self.wf(),
                model == self@,
                parent < self@.children.len(),
                kids@ == self@.children[parent as int],
                1 <= i <= kids@.len(),
                best < i,
                forall|j: int| 0 <= j < i ==> model.visits[kids@[j].1 as int] <= model.visits[kids@[best as int].1 as int],
                forall|j: int| best < j < i ==> model.visits[kids@[j].1 as int] < model.visits[kids@[best as int].1 as int],
            decreases kids@.len() - i,
        {
            assert(kids@[i as int].1 < self@.children.len());
            assert(kids@[best as int].1 < self@.children.len());
            if self.visits[kids[i].1] >= self.visits[kids[best].1] {
                best = i;
            }
            i = i + 1;
        }
        Some(best)
    }
}

impl<A: PartialEq> SearchTree<A> {
    /// The node `parent`'s move `action` leads to, if that move was taken
    /// (the first such child, by `A`'s `==`).
    pub fn find_child(&self, parent: usize, action: &A) -> (r: Option<usize>)
        requires
            parent < self@.children.len(),
        ensures
            A::obeys_eq_spec() ==> ({
                let kids = self@.children[parent as int];
                match r {
                    Some(id) => exists|k: int|
                        0 <= k < kids.len() && kids[k].0.eq_spec(action) && kids[k].1 == id
                        && forall|j: int| 0 <= j < k ==> !kids[j].0.eq_spec(action),
                    None => forall|k: int| 0 <= k < kids.len() ==> !kids[k].0.eq_spec(action),
                }
            }),
    {
        let kids = self.children[parent].as_slice();
        let mut k: usize = 0;
        while k < kids.len()
            invariant
                kids@ == self@.children[parent as int],
                k <= kids@.len(),
                A::obeys_eq_spec() ==> forall|j: int| 0 <= j < k ==> !kids@[j].0.eq_spec(action),
            decreases kids@.len() - k,
        {
            if kids[k].0 == *action {
                return Some(kids[k].1);
            }
            k = k + 1;
        }
        None
    }

    /// The ids of `parent`'s children whose move is in `legal`, in order.
    pub fn legal_children(&self, parent: usize, legal: &[A]) -> (ids: Vec<usize>)
        requires
            parent < self@.children.len(),
        ensures
            A::obeys_eq_spec() ==> ids@ == legal_ids(self@.children[parent as int], legal@),
    {
        let kids = self.children[parent].as_slice();
        let mut ids: Vec<usize> = Vec::new();
        let mut k: usize = 0;
        while k < kids.len()
            invariant
                kids@ == self@.children[parent as int],
                k <= kids@.len(),
                A::obeys_eq_spec() ==> ids@ == legal_ids(kids@.take(k as int), legal@),
            decreases kids@.len() - k,
        {
            assert(kids@.take(k + 1).drop_last() =~= kids@.take(k as int));
            assert(kids@.take(k + 1).last() == kids@[k as int]);
            let mut found = false;
            let mut j: usize = 0;
            while j < legal.len()
                invariant
                    k < kids@.len(),
                    j <= legal@.len(),
                    A::obeys_eq_spec() ==> (found <==> exists|i: int| 0 <= i < j && #[trigger] legal@[i].eq_spec(&kids@[k as int].0)),
                decreases legal@.len() - j,
            {
                if legal[j] == kids[k].0 {
                    found = true;
                }
                j = j + 1;
            }
            if found {
                ids.push(kids[k].1);
            }
            k = k + 1;
        }
        assert(kids@.take(kids@.len() as int) =~= kids@);
        ids
    }

    /// The positions in `legal` of the moves `parent` has no child for yet,
    /// in order.
    pub fn untried_positions(&self, parent: usize, legal: &[A]) -> (positions: Vec<usize>)
        requires
            parent < self@.children.len(),
        ensures
            A::obeys_eq_spec() ==> positions@ == untried_positions_spec(self@.children[parent as int], legal@),
            forall|i: int| 0 <= i < positions@.len() ==> positions@[i] < legal@.len(),
    {
        let kids = self.children[parent].as_slice();
        let mut positions: Vec<usize> = Vec::new();
        let mut i: usize = 0;
        while i < legal.len()
            invariant
                kids@ == self@.children[parent as int],
                i <= legal@.len(),
                A::obeys_eq_spec() ==> positions@ == untried_positions_spec(kids@, legal@.take(i as int)),
                forall|p: int| 0 <= p < positions@.len() ==> positions@[p] < i,
            decreases legal@.len() - i,
        {
            assert(legal@.take(i + 1).drop_last() =~= legal@.take(i as int));
            assert(legal@.take(i + 1).last() == legal@[i as int]);
            let mut taken = false;
            let mut k: usize = 0;
            while k < kids.len()
                invariant
                    i < legal@.len(),
                    k <= kids@.len(),
                    A::obeys_eq_spec() ==> (taken <==> exists|c: int| 0 <= c < k && #[trigger] kids@[c].0.eq_spec(&legal@[i as int])),
                decreases kids@.len() - k,
            {
                if kids[k].0 == legal[i] {
                    taken = true;
                }
                k = k + 1;
            }
            if !taken {
                positions.push(i);
            }
            i = i + 1;
        }
        assert(legal@.take(legal@.len() as int) =~= legal@);
        positions
    }
}

} // verus!
