// The tree of a text document: nodes known by their ids, each with the
// element it draws and the nodes below it.
use vstd::prelude::*;

verus! {

broadcast use vstd::string::group_string_axioms;

/// A node of a document: its id, the positions of the nodes below it (in
/// the document's list of nodes), and the element it draws.
pub struct DocumentNode<E> {
    id: String,
    descendants: Vec<usize>,
    pub inner: E,
}

impl<E> DocumentNode<E> {
    pub closed spec fn id_view(&self) -> Seq<char> {
        self.id@
    }

    /// The element the node draws.
    pub closed spec fn element(&self) -> E {
        self.inner
    }

    /// The positions of the nodes below this one, in insertion order.
    pub closed spec fn children(&self) -> Seq<usize> {
        self.descendants@
    }

    pub fn new(id: &str, element: E) -> (r: Self)
        ensures
            r.id_view() == id@,
            r.children() == Seq::<usize>::empty(),
            r.element() == element,
    {
        Self { id: id.to_string(), descendants: Vec::new(), inner: element }
    }

    pub fn descendants_mut(&mut self) -> (r: &mut Vec<usize>)
        ensures
            r@ == old(self).children(),
            final(self).children() == final(r)@,
            final(self).id_view() == old(self).id_view(),
            final(self).element() == old(self).element(),
    {
        &mut self.descendants
    }

    pub fn descendants(&self) -> (r: &Vec<usize>)
        ensures
            r@ == self.children(),
    {
        &self.descendants
    }

    pub fn id(&self) -> (r: &str)
        ensures
            r@ == self.id_view(),
    {
        self.id.as_str()
    }
}

/// The node bound to `key` in a list of bindings: the latest binding wins.
pub open spec fn find_in(ids: Seq<(String, usize)>, key: Seq<char>) -> Option<usize>
    decreases ids.len(),
{
    if ids.len() == 0 {
        None
    } else if ids.last().0@ == key {
        Some(ids.last().1)
    } else {
        find_in(ids.drop_last(), key)
    }
}

proof fn lemma_find_in_bound(ids: Seq<(String, usize)>, key: Seq<char>, n: nat)
    requires
        forall|i: int| 0 <= i < ids.len() ==> (#[trigger] ids[i]).1 < n,
    ensures
        find_in(ids, key) matches Some(p) ==> p < n,
    decreases ids.len(),
{
    if ids.len() > 0 {
        lemma_find_in_bound(ids.drop_last(), key, n);
    }
}

/// A document: a tree of nodes whose root is node `root`, and the binding of
/// ids to nodes.
pub struct DocumentContext<E> {
    pub root: usize,
    nodes: Vec<DocumentNode<E>>,
    ids: Vec<(String, usize)>,
}

impl<E> DocumentContext<E> {
    /// The position of the root node.
    pub closed spec fn root_index(&self) -> usize {
        self.root
    }

    /// The nodes, in insertion order.
    pub closed spec fn nodes(&self) -> Seq<DocumentNode<E>> {
        self.nodes@
    }

    /// The node bound to the id `key`, if any.
    pub closed spec fn find(&self, key: Seq<char>) -> Option<usize> {
        find_in(self.ids@, key)
    }

    /// Every binding and every link points at a node.
    pub closed spec fn wf(&self) -> bool {
        &&& self.root < self.nodes.len()
        &&& forall|i: int| 0 <= i < self.ids.len() ==> (#[trigger] self.ids@[i]).1 < self.nodes.len()
        &&& forall|k: int, c: int|
            0 <= k < self.nodes.len() && 0 <= c < self.nodes@[k].children().len() ==> (
            #[trigger] self.nodes@[k].children()[c]) < self.nodes.len()
    }

    /// A document of one node, the root, with the id "root".
    pub fn new(root_element: E) -> (r: Self)
        ensures
            r.wf(),
            r.root_index() == 0,
            r.nodes().len() == 1,
            r.nodes()[0].id_view() == "root"@,
            r.nodes()[0].children() == Seq::<usize>::empty(),
            r.nodes()[0].element() == root_element,
            forall|key: Seq<char>| #[trigger] r.find(key) == if key == "root"@ {
                Some(0usize)
            } else {
                None::<usize>
            },
    {
        let root = DocumentNode::new("root", root_element);
        let mut nodes: Vec<DocumentNode<E>> = Vec::new();
        nodes.push(root);
        let mut ids: Vec<(String, usize)> = Vec::new();
        let root_id = "root".to_string();
        assert(root_id@ == "root"@);
        ids.push((root_id, 0));
        let r = Self { root: 0, nodes, ids };
        assert forall|key: Seq<char>| #[trigger] r.find(key) == if key == "root"@ {
            Some(0usize)
        } else {
            None::<usize>
        } by {
            assert(r.ids@.last().0@ == "root"@);
            assert(find_in(r.ids@.drop_last(), key) is None);
        }
        r
    }

    /// The node bound to `key`.
    fn lookup(&self, key: &String) -> (r: Option<usize>)
        ensures
            r == self.find(key@),
    {
        let mut i = self.ids.len();
        assert(self.ids@.subrange(0, i as int) =~= self.ids@);
        while i > 0
            invariant
                i <= self.ids.len(),
                find_in(self.ids@, key@) == find_in(self.ids@.subrange(0, i as int), key@),
            decreases i,
        {
            let ghost prefix = self.ids@.subrange(0, i as int);
            assert(prefix.drop_last() =~= self.ids@.subrange(0, i - 1));
            if self.ids[i - 1].0 == *key {
                return Some(self.ids[i - 1].1);
            }
            i = i - 1;
        }
        None
    }

    /// Adds a node with the id `id` and the element `value`, binds `id` to it
    /// (in place of any node bound to it before), and puts it below the node
    /// bound to `parent_id` (after the binding, so below itself where the two
    /// ids are the same).
    pub fn insert(&mut self, parent_id: &str, id: &str, value: E)
        requires
            old(self).wf(),
            old(self).find(parent_id@) is Some || parent_id@ == id@,
            old(self).nodes().len() < usize::MAX,
        ensures
            final(self).wf(),
            final(self).root_index() == old(self).root_index(),
            forall|key: Seq<char>| #[trigger] final(self).find(key) == if key == id@ {
                Some(old(self).nodes().len() as usize)
            } else {
                old(self).find(key)
            },
            ({
                let n = old(self).nodes().len() as int;
                let p = final(self).find(parent_id@)->0 as int;
                &&& final(self).nodes().len() == n + 1
                &&& forall|k: int| 0 <= k < n && k != p ==> #[trigger] final(self).nodes()[k] == old(self).nodes()[k]
                &&& final(self).nodes()[n].id_view() == id@
                &&& final(self).nodes()[n].element() == value
                &&& p != n ==> final(self).nodes()[n].children() == Seq::<usize>::empty()
                &&& p < n ==> final(self).nodes()[p].id_view() == old(self).nodes()[p].id_view()
                &&& p < n ==> final(self).nodes()[p].element() == old(self).nodes()[p].element()
                &&& p < n ==> final(self).nodes()[p].children() == old(self).nodes()[p].children().push(n as usize)
                &&& p == n ==> final(self).nodes()[n].children() == seq![n as usize]
            }),
    {
        let n = self.nodes.len();
        let element = DocumentNode::new(id, value);
        self.nodes.push(element);
        let key = id.to_string();
        self.ids.push((key, n));
        let parent = parent_id.to_string();
        let found = self.lookup(&parent);
        proof {
            if parent_id@ == id@ {
                assert(self.ids@.last().0@ == id@);
            } else {
                assert(self.ids@.drop_last() =~= old(self).ids@);
            }
        }
        let p = found.unwrap();
        let ghost ids = self.ids@;
        proof {
            assert(ids.drop_last() =~= old(self).ids@);
            assert forall|k: Seq<char>| #[trigger] find_in(ids, k) == if k == id@ {
                Some(n)
            } else {
                find_in(old(self).ids@, k)
            } by {}
            assert forall|i: int| 0 <= i < ids.len() implies (#[trigger] ids[i]).1 < n + 1 by {
                if i < ids.len() - 1 {
                    assert(ids[i] == old(self).ids@[i]);
                }
            }
            lemma_find_in_bound(ids, parent_id@, (n + 1) as nat);
        }
        let ghost before = self.nodes@;
        self.nodes[p].descendants.push(n);
        proof {
            let after = self.nodes@;
            assert(after.len() == n + 1);
            assert(after[p as int].children() == before[p as int].children().push(n));
            assert(forall|k: int| 0 <= k < n + 1 && k != p ==> after[k] == before[k]);
            assert forall|k: int, c: int|
                0 <= k < after.len() && 0 <= c < after[k].children().len() implies (
                #[trigger] after[k].children()[c]) < after.len() by {
                if k == p {
                    if c < before[p as int].children().len() && p < n {
                        assert(before[p as int] == old(self).nodes@[p as int]);
                        assert(before[p as int].children()[c] < n);
                    }
                } else if k < n {
                    assert(after[k] == old(self).nodes@[k]);
                }
            }
        }
    }

    /// The node bound to `id`, to change it.
    pub fn select_mut(&mut self, id: &str) -> (r: &mut DocumentNode<E>)
        requires
            old(self).wf(),
            old(self).find(id@) is Some,
        ensures
            *r == old(self).nodes()[old(self).find(id@)->0 as int],
            final(self).nodes() == old(self).nodes().update(
                old(self).find(id@)->0 as int,
                *final(r),
            ),
            forall|key: Seq<char>| #[trigger] final(self).find(key) == old(self).find(key),
            final(self).root_index() == old(self).root_index(),
            (forall|c: int|
                0 <= c < final(r).children().len() ==> #[trigger] final(r).children()[c]
                    < old(self).nodes().len()) ==> final(self).wf(),
    {
        let key = id.to_string();
        let p = self.lookup(&key).unwrap();
        proof {
            lemma_find_in_bound(self.ids@, id@, self.nodes@.len());
        }
        &mut self.nodes[p]
    }

    /// The node bound to `id`.
    pub fn select(&self, id: &str) -> (r: &DocumentNode<E>)
        requires
            self.wf(),
            self.find(id@) is Some,
        ensures
            *r == self.nodes()[self.find(id@)->0 as int],
    {
        let key = id.to_string();
        let p = self.lookup(&key).unwrap();
        proof {
            lemma_find_in_bound(self.ids@, id@, self.nodes@.len());
        }
        &self.nodes[p]
    }
}

} // verus!
