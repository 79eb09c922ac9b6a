use vstd::multiset::Multiset;
use vstd::prelude::*;

verus! {

/// A node of the radix tree: the bytes it adds to the path from the root,
/// how many times the path ending here was added, and the outgoing edges.
struct Node {
    refcount: u32,
    prefix: Vec<u8>,
    edges: Vec<Edge>,
}

/// An edge to a child, labelled with the first byte of the child's prefix.
struct Edge {
    first_byte: u8,
    node: Box<Node>,
}

/// Index of the edge labelled `b`, or -1.
spec fn edge_index(edges: Seq<Edge>, b: u8) -> int {
    if exists|i: int| 0 <= i < edges.len() && (#[trigger] edges[i]).first_byte == b {
        choose|i: int| 0 <= i < edges.len() && (#[trigger] edges[i]).first_byte == b
    } else {
        -1
    }
}

impl Node {
    /// How many times `key` (a path starting at this node) has been added.
    spec fn count(self, key: Seq<u8>) -> nat
        decreases self,
    {
        let plen = self.prefix@.len();
        if plen <= key.len() && key.take(plen as int) == self.prefix@ {
            let rest = key.skip(plen as int);
            if rest.len() == 0 {
                self.refcount as nat
            } else {
                let i = edge_index(self.edges@, rest[0]);
                if 0 <= i < self.edges@.len() {
                    self.edges@[i].node.count(rest)
                } else {
                    0
                }
            }
        } else {
            0
        }
    }

    spec fn wf(self) -> bool
        decreases self,
    {
        &&& forall|i: int, j: int|
            0 <= i < j < self.edges@.len() ==> (#[trigger] self.edges@[i]).first_byte != (
            #[trigger] self.edges@[j]).first_byte
        &&& forall|i: int|
            0 <= i < self.edges@.len() ==> {
                let e = #[trigger] self.edges@[i];
                &&& e.node.prefix@.len() > 0
                &&& e.node.prefix@[0] == e.first_byte
                &&& e.node.wf()
            }
    }
}

proof fn lemma_edge_index_found(edges: Seq<Edge>, i: int)
    requires
        0 <= i < edges.len(),
        forall|a: int, b: int|
            0 <= a < b < edges.len() ==> (#[trigger] edges[a]).first_byte != (
            #[trigger] edges[b]).first_byte,
    ensures
        edge_index(edges, edges[i].first_byte) == i,
{
    let b = edges[i].first_byte;
    assert(edges[i].first_byte == b);
    let j = edge_index(edges, b);
    assert(0 <= j < edges.len() && edges[j].first_byte == b);
    if j < i {
        assert(edges[j].first_byte != edges[i].first_byte);
    } else if i < j {
        assert(edges[i].first_byte != edges[j].first_byte);
    }
}

proof fn lemma_edge_index_absent(edges: Seq<Edge>, b: u8)
    requires
        forall|i: int| 0 <= i < edges.len() ==> (#[trigger] edges[i]).first_byte != b,
    ensures
        edge_index(edges, b) == -1,
{
}

/// Finds the edge labelled `b`.
fn find_edge(edges: &Vec<Edge>, b: u8) -> (r: Option<usize>)
    ensures
        r matches Some(i) ==> i < edges@.len() && edges@[i as int].first_byte == b,
        r is None ==> forall|i: int| 0 <= i < edges@.len() ==> (#[trigger] edges@[i]).first_byte != b,
{
    let mut i: usize = 0;
    while i < edges.len()
        invariant
            i <= edges@.len(),
            forall|j: int| 0 <= j < i ==> (#[trigger] edges@[j]).first_byte != b,
        decreases edges@.len() - i,
    {
        if edges[i].first_byte == b {
            return Some(i);
        }
        i = i + 1;
    }
    None
}

/// Length of the longest common prefix of `prefix` and `key[pos..]`.
fn common_len(prefix: &Vec<u8>, key: &[u8], pos: usize) -> (pm: usize)
    requires
        pos <= key@.len(),
    ensures
        pm <= prefix@.len(),
        pos + pm <= key@.len(),
        prefix@.take(pm as int) == key@.subrange(pos as int, pos + pm),
        pm < prefix@.len() && pos + pm < key@.len() ==> prefix@[pm as int] != key@[pos + pm],
{
    let mut pm: usize = 0;
    while pm < prefix.len() && pos + pm < key.len() && prefix[pm] == key[pos + pm]
        invariant
            pm <= prefix@.len(),
            pos + pm <= key@.len(),
            key@.len() == key.len(),
            forall|j: int| 0 <= j < pm ==> prefix@[j] == key@[pos + j],
        decreases prefix@.len() - pm,
    {
        pm = pm + 1;
    }
    assert(prefix@.take(pm as int) =~= key@.subrange(pos as int, pos + pm));
    pm
}

impl Node {
    fn new() -> (n: Node)
        ensures
            n.refcount == 0,
            n.prefix@ == Seq::<u8>::empty(),
            n.edges@ == Seq::<Edge>::empty(),
    {
        Node { refcount: 0, prefix: Vec::new(), edges: Vec::new() }
    }

    fn with_prefix(prefix: &[u8]) -> (n: Node)
        ensures
            n.refcount == 0,
            n.prefix@ == prefix@,
            n.edges@ == Seq::<Edge>::empty(),
    {
        Node { refcount: 0, prefix: vstd::slice::slice_to_vec(prefix), edges: Vec::new() }
    }

    /// A childless node counts its own prefix `refcount` times and nothing else.
    proof fn lemma_leaf_count(self, k: Seq<u8>)
        requires
            self.edges@.len() == 0,
        ensures
            self.count(k) == if k == self.prefix@ {
                self.refcount as nat
            } else {
                0nat
            },
    {
        let plen = self.prefix@.len();
        if k == self.prefix@ {
            assert(k.take(plen as int) =~= k);
        }
        if plen <= k.len() && k.take(plen as int) == self.prefix@ {
            if k.skip(plen as int).len() == 0 {
                assert(k =~= self.prefix@);
            } else {
                assert(k != self.prefix@);
            }
        }
    }
}

spec fn bump(k: Seq<u8>, key: Seq<u8>) -> nat {
    if k == key {
        1nat
    } else {
        0nat
    }
}

proof fn lemma_seq_split_eq(k: Seq<u8>, b: Seq<u8>, a: Seq<u8>, m: int)
    requires
        0 <= m <= k.len(),
        m <= b.len(),
        k.take(m) == a,
        b.take(m) == a,
        k.skip(m) == b.skip(m),
    ensures
        k == b,
{
    assert(k.skip(m).len() == k.len() - m);
    assert(b.skip(m).len() == b.len() - m);
    assert(k.len() == b.len());
    assert forall|i: int| 0 <= i < k.len() implies k[i] == b[i] by {
        if i < m {
            assert(k.take(m)[i] == k[i]);
            assert(b.take(m)[i] == b[i]);
        } else {
            assert(k.skip(m)[i - m] == k[i]);
            assert(b.skip(m)[i - m] == b[i]);
        }
    }
    assert(k =~= b);
}

/// Adds the key `key[pos..]` below `node`.
fn add_at(node: &mut Node, key: &[u8], pos: usize) -> (fresh: bool)
    requires
        old(node).wf(),
        pos <= key@.len(),
        old(node).count(key@.skip(pos as int)) < u32::MAX,
    ensures
        final(node).wf(),
        forall|k: Seq<u8>| #[trigger] final(node).count(k) == old(node).count(k) + bump(k, key@.skip(pos as int)),
        fresh == (old(node).count(key@.skip(pos as int)) == 0),
        old(node).prefix@.len() > 0 && pos < key@.len() && old(node).prefix@[0] == key@[pos as int]
            ==> final(node).prefix@.len() > 0 && final(node).prefix@[0] == old(node).prefix@[0],
        old(node).prefix@.len() == 0 ==> final(node).prefix@.len() == 0,
    decreases *old(node),
{
    let ghost n0 = *node;
    let ghost kk = key@.skip(pos as int);
    let plen = node.prefix.len();
    let pm = common_len(&node.prefix, key, pos);
    proof {
        assert(kk.take(pm as int) =~= key@.subrange(pos as int, pos + pm));
        assert(key@.len() == key.len());
    }
    if pm < plen {
        // The key leaves this node's prefix part-way: split the node.
        let suffix = vstd::slice::slice_to_vec(vstd::slice::slice_subrange(node.prefix.as_slice(), pm, plen));
        let mut old_edges: Vec<Edge> = Vec::new();
        std::mem::swap(&mut old_edges, &mut node.edges);
        let split_node = Node { refcount: node.refcount, prefix: suffix, edges: old_edges };
        node.prefix.truncate(pm);
        if pos + pm < key.len() {
            node.refcount = 0;
            let mut key_node = Node::with_prefix(vstd::slice::slice_subrange(key, pos + pm, key.len()));
            key_node.refcount = 1;
            node.edges.push(Edge { first_byte: key[pos + pm], node: Box::new(key_node) });
        } else {
            node.refcount = 1;
        }
        let fb = split_node.prefix[0];
        let ghost sn = split_node;
        node.edges.push(Edge { first_byte: fb, node: Box::new(split_node) });
        proof {
            assert(node.prefix@ =~= n0.prefix@.take(pm as int));
            assert(sn.prefix@ =~= n0.prefix@.skip(pm as int));
            if pos + pm < key@.len() {
                assert(node.edges@[0].node.prefix@ =~= kk.skip(pm as int));
            }
            lemma_split_counts(n0, *node, sn, kk, pm as int);
            assert(n0.count(kk) == 0);
        }
        return true;
    }
    let npos = pos + plen;
    proof {
        assert(kk.take(plen as int) =~= n0.prefix@);
    }
    if npos == key.len() {
        proof {
            assert(kk =~= n0.prefix@);
            assert(n0.count(kk) == n0.refcount) by {
                assert(kk.skip(plen as int).len() == 0);
            }
        }
        node.refcount = node.refcount + 1;
        proof {
            lemma_exact_counts(n0, *node, kk);
        }
        return node.refcount == 1;
    }
    let b = key[npos];
    proof {
        assert(kk.skip(plen as int)[0] == b);
        assert(kk.skip(plen as int) =~= key@.skip(npos as int));
    }
    match find_edge(&node.edges, b) {
        Some(i) => {
            proof {
                lemma_edge_index_found(n0.edges@, i as int);
                assert(n0.count(kk) == n0.edges@[i as int].node.count(key@.skip(npos as int)));
                let e = n0.edges@[i as int];
                assert(e.node.wf());
            }
            let mut e = node.edges.remove(i);
            let ghost child0 = *e.node;
            let r = add_at(&mut *e.node, key, npos);
            node.edges.insert(i, e);
            proof {
                lemma_child_counts(n0, *node, i as int, kk);
            }
            r
        },
        None => {
            let mut key_node = Node::with_prefix(vstd::slice::slice_subrange(key, npos, key.len()));
            key_node.refcount = 1;
            node.edges.push(Edge { first_byte: b, node: Box::new(key_node) });
            proof {
                lemma_edge_index_absent(n0.edges@, b);
                lemma_leaf_edge_counts(n0, *node, kk);
            }
            true
        },
    }
}

spec fn dec(k: Seq<u8>, key: Seq<u8>, d: int) -> int {
    if k == key {
        d
    } else {
        0int
    }
}

/// Replacing child `i` by one that counts `key.skip(plen)` once less.
proof fn lemma_child_counts_dec(n: Node, n2: Node, i: int, key: Seq<u8>, d: int)
    requires
        n.wf(),
        n2.prefix@ == n.prefix@,
        n2.refcount == n.refcount,
        0 <= i < n.edges@.len(),
        n2.edges@.len() == n.edges@.len(),
        forall|j: int| 0 <= j < n.edges@.len() && j != i ==> n2.edges@[j] == n.edges@[j],
        n2.edges@[i].first_byte == n.edges@[i].first_byte,
        n2.edges@[i].node.prefix@ == n.edges@[i].node.prefix@,
        n2.edges@[i].node.wf(),
        n.prefix@.len() < key.len(),
        key.take(n.prefix@.len() as int) == n.prefix@,
        key[n.prefix@.len() as int] == n.edges@[i].first_byte,
        forall|k: Seq<u8>| #[trigger] n2.edges@[i].node.count(k) as int == n.edges@[i].node.count(k) - dec(
            k,
            key.skip(n.prefix@.len() as int),
            d,
        ),
    ensures
        n2.wf(),
        forall|k: Seq<u8>| #[trigger] n2.count(k) as int == n.count(k) - dec(k, key, d),
{
    let p = n.prefix@;
    let plen = p.len() as int;
    assert forall|a: int, b: int| 0 <= a < b < n2.edges@.len() implies (#[trigger] n2.edges@[a]).first_byte != (
        #[trigger] n2.edges@[b]).first_byte by {
        assert(n.edges@[a].first_byte != n.edges@[b].first_byte);
    }
    assert forall|j: int| 0 <= j < n2.edges@.len() implies {
        let e = #[trigger] n2.edges@[j];
        &&& e.node.prefix@.len() > 0
        &&& e.node.prefix@[0] == e.first_byte
        &&& e.node.wf()
    } by {
        if j != i {
            assert(n.edges@[j] == n2.edges@[j]);
        } else {
            let e = n.edges@[i];
            assert(e.node.prefix@.len() > 0);
        }
    }
    assert forall|k: Seq<u8>| #[trigger] n2.count(k) as int == n.count(k) - dec(k, key, d) by {
        if k == key {
            assert(k.take(plen) == p);
        }
        if plen <= k.len() && k.take(plen) == p {
            let rest = k.skip(plen);
            if rest.len() > 0 {
                let b = rest[0];
                let j = edge_index(n.edges@, b);
                if 0 <= j < n.edges@.len() {
                    lemma_edge_index_found(n.edges@, j);
                    lemma_edge_index_found(n2.edges@, j);
                    if j == i {
                        assert(n2.count(k) == n2.edges@[i].node.count(rest));
                        assert(n.count(k) == n.edges@[i].node.count(rest));
                        if rest == key.skip(plen) {
                            lemma_seq_split_eq(k, key, p, plen);
                        } else if k == key {
                            assert(rest == key.skip(plen));
                        }
                    } else {
                        assert(n2.edges@[j] == n.edges@[j]);
                        assert(n2.count(k) == n.count(k));
                        if k == key {
                            assert(rest[0] == key[plen]);
                            lemma_edge_index_found(n.edges@, i);
                        }
                    }
                } else {
                    assert forall|q: int| 0 <= q < n2.edges@.len() implies (#[trigger] n2.edges@[q]).first_byte != b by {
                        if n2.edges@[q].first_byte == b {
                            assert(n.edges@[q].first_byte == b);
                        }
                    }
                    lemma_edge_index_absent(n2.edges@, b);
                    if k == key {
                        assert(n.edges@[i].first_byte == b);
                    }
                }
            } else {
                if k == key {
                    assert(key.len() == plen);
                }
            }
        }
    }
}

/// Dropping one reference of a node's own path.
proof fn lemma_exact_counts_dec(n: Node, n2: Node, key: Seq<u8>)
    requires
        n.wf(),
        n2.prefix@ == n.prefix@,
        n2.edges@ == n.edges@,
        n2.refcount + 1 == n.refcount,
        key == n.prefix@,
    ensures
        n2.wf(),
        forall|k: Seq<u8>| #[trigger] n2.count(k) as int == n.count(k) - dec(k, key, 1),
{
    let plen = key.len() as int;
    assert(key.take(plen) =~= key);
    assert(key.skip(plen).len() == 0);
    assert forall|k: Seq<u8>| #[trigger] n2.count(k) as int == n.count(k) - dec(k, key, 1) by {
        if plen <= k.len() && k.take(plen) == key {
            if k.skip(plen).len() == 0 {
                assert(k =~= key);
            } else {
                assert(k != key);
            }
        } else {
            assert(k != key);
        }
    }
}

/// Drops one reference of `key[pos..]` below `node`.  Returns `None` (and
/// changes nothing) when the key is not stored; otherwise whether that was
/// its last reference.
fn remove_at(node: &mut Node, key: &[u8], pos: usize) -> (r: Option<bool>)
    requires
        old(node).wf(),
        pos <= key@.len(),
    ensures
        final(node).wf(),
        final(node).prefix@ == old(node).prefix@,
        r is None <==> old(node).count(key@.skip(pos as int)) == 0,
        r matches Some(last) ==> last == (old(node).count(key@.skip(pos as int)) == 1),
        forall|k: Seq<u8>| #[trigger] final(node).count(k) as int == old(node).count(k) - dec(
            k,
            key@.skip(pos as int),
            if r is Some { 1int } else { 0int },
        ),
    decreases *old(node),
{
    let ghost n0 = *node;
    let ghost kk = key@.skip(pos as int);
    let plen = node.prefix.len();
    let pm = common_len(&node.prefix, key, pos);
    proof {
        assert(kk.take(pm as int) =~= key@.subrange(pos as int, pos + pm));
        assert(key@.len() == key.len());
    }
    if pm < plen {
        proof {
            if plen <= kk.len() && kk.take(plen as int) == n0.prefix@ {
                assert(kk.take(plen as int)[pm as int] == n0.prefix@[pm as int]);
            }
            assert forall|k: Seq<u8>| #[trigger] node.count(k) as int == n0.count(k) - dec(k, kk, 0) by {}
        }
        return None;
    }
    let npos = pos + plen;
    proof {
        assert(kk.take(plen as int) =~= n0.prefix@);
    }
    if npos == key.len() {
        proof {
            assert(kk =~= n0.prefix@);
            assert(kk.skip(plen as int).len() == 0);
        }
        if node.refcount == 0 {
            proof {
                assert forall|k: Seq<u8>| #[trigger] node.count(k) as int == n0.count(k) - dec(k, kk, 0) by {}
            }
            return None;
        }
        node.refcount = node.refcount - 1;
        proof {
            lemma_exact_counts_dec(n0, *node, kk);
        }
        return Some(node.refcount == 0);
    }
    let b = key[npos];
    proof {
        assert(kk.skip(plen as int)[0] == b);
        assert(kk.skip(plen as int) =~= key@.skip(npos as int));
    }
    match find_edge(&node.edges, b) {
        Some(i) => {
            proof {
                lemma_edge_index_found(n0.edges@, i as int);
                let e = n0.edges@[i as int];
                assert(e.node.wf());
            }
            let mut e = node.edges.remove(i);
            let r = remove_at(&mut *e.node, key, npos);
            node.edges.insert(i, e);
            proof {
                lemma_child_counts_dec(n0, *node, i as int, kk, if r is Some { 1int } else { 0int });
                assert(n0.count(kk) == n0.edges@[i as int].node.count(key@.skip(npos as int)));
            }
            r
        },
        None => {
            proof {
                lemma_edge_index_absent(n0.edges@, b);
                assert forall|k: Seq<u8>| #[trigger] node.count(k) as int == n0.count(k) - dec(k, kk, 0) by {}
            }
            None
        },
    }
}

/// Some prefix of `key` (possibly empty) is stored below `n`.
spec fn matches_from(n: Node, key: Seq<u8>) -> bool {
    exists|i: int| 0 <= i <= key.len() && #[trigger] n.count(key.take(i)) > 0
}

proof fn lemma_matches_step(n: Node, key: Seq<u8>)
    requires
        n.wf(),
    ensures
        !(n.prefix@.len() <= key.len() && key.take(n.prefix@.len() as int) == n.prefix@) ==> !matches_from(n, key),
        n.prefix@.len() == key.len() && key.take(n.prefix@.len() as int) == n.prefix@ ==> (matches_from(n, key) <==> n.refcount > 0),
        n.prefix@.len() < key.len() && key.take(n.prefix@.len() as int) == n.prefix@ ==> (matches_from(n, key) <==> (
            n.refcount > 0 || {
                let i = edge_index(n.edges@, key[n.prefix@.len() as int]);
                0 <= i < n.edges@.len() && matches_from(*n.edges@[i].node, key.skip(n.prefix@.len() as int))
            })),
{
    let p = n.prefix@;
    let plen = p.len() as int;
    if matches_from(n, key) {
        let i = choose|i: int| 0 <= i <= key.len() && #[trigger] n.count(key.take(i)) > 0;
        let ki = key.take(i);
        assert(plen <= ki.len() && ki.take(plen) == p);
        assert(ki.take(plen) =~= key.take(plen));
        if i == plen {
            assert(ki.skip(plen).len() == 0);
        } else if i > plen {
            assert(ki.skip(plen)[0] == key[plen]);
            let j = edge_index(n.edges@, key[plen]);
            assert(ki.skip(plen) =~= key.skip(plen).take(i - plen));
            if n.refcount == 0 {
                assert(0 <= j < n.edges@.len());
                assert(n.edges@[j].node.count(key.skip(plen).take(i - plen)) > 0);
            }
        }
    }
    if plen <= key.len() && key.take(plen) == p {
        assert(key.take(plen).skip(plen).len() == 0);
        if n.refcount > 0 {
            assert(key.take(plen).take(plen) =~= p);
            assert(n.count(key.take(plen)) > 0);
        }
        if plen < key.len() {
            let j = edge_index(n.edges@, key[plen]);
            if 0 <= j < n.edges@.len() && matches_from(*n.edges@[j].node, key.skip(plen)) {
                let c = *n.edges@[j].node;
                let q = choose|q: int| 0 <= q <= key.skip(plen).len() && #[trigger] c.count(key.skip(plen).take(q)) > 0;
                let kq = key.take(plen + q);
                assert(kq.take(plen) =~= p);
                assert(kq.skip(plen) =~= key.skip(plen).take(q));
                if q > 0 {
                    assert(kq.skip(plen)[0] == key[plen]);
                    assert(n.count(kq) > 0);
                } else {
                    assert(c.count(Seq::<u8>::empty()) == 0) by {
                        assert(c.prefix@.len() > 0) by {
                            let e = n.edges@[j];
                            assert(e.node.prefix@.len() > 0);
                        }
                    }
                    assert(key.skip(plen).take(0) =~= Seq::<u8>::empty());
                }
            }
        }
    }
}

/// A radix tree of byte strings with reference counts.
pub struct RadixTree {
    root: Box<Node>,
    size: usize,
    keys: Ghost<Multiset<Seq<u8>>>,
}

impl View for RadixTree {
    type V = Multiset<Seq<u8>>;

    /// The stored keys, each as many times as it was added and not removed.
    closed spec fn view(&self) -> Multiset<Seq<u8>> {
        self.keys@
    }
}

impl RadixTree {
    pub closed spec fn wf(&self) -> bool {
        &&& self.root.wf()
        &&& self.root.prefix@.len() == 0
        &&& forall|k: Seq<u8>| #[trigger] self.keys@.count(k) == self.root.count(k)
        &&& self.size == self.keys@.len()
    }

    /// Some stored key is a prefix of `key` (the empty key included).
    pub open spec fn matches(&self, key: Seq<u8>) -> bool {
        exists|i: int| 0 <= i <= key.len() && #[trigger] self@.count(key.take(i)) > 0
    }

    pub fn new() -> (t: Self)
        ensures
            t.wf(),
            t@ == Multiset::<Seq<u8>>::empty(),
    {
        broadcast use vstd::multiset::group_multiset_axioms;

        let t = RadixTree { root: Box::new(Node::new()), size: 0, keys: Ghost(Multiset::empty()) };
        proof {
            assert forall|k: Seq<u8>| #[trigger] t.keys@.count(k) == t.root.count(k) by {
                let r = *t.root;
                if k.len() > 0 {
                    assert(k.take(0) =~= r.prefix@);
                    lemma_edge_index_absent(r.edges@, k[0]);
                }
            }
        }
        t
    }

    /// Adds one reference of `key`; returns true when the key was not stored.
    ///
    /// Every key added stays found. Where `key` leaves a node's prefix part
    /// way through, the node keeps the bytes matched so far, and the rest of
    /// its prefix and the rest of the key each hang below it as a child under
    /// an edge labelled with its first byte; a lookup that follows an edge
    /// goes on with the key from the byte after the ones already matched. So
    /// after `ab` and `ac` are added, both are found.
    pub fn add(&mut self, key: &[u8]) -> (fresh: bool)
        requires
            old(self).wf(),
            old(self)@.count(key@) < u32::MAX,
            old(self)@.len() < usize::MAX,
        ensures
            final(self).wf(),
            final(self)@ == old(self)@.insert(key@),
            fresh == !old(self)@.contains(key@),
    {
        broadcast use vstd::multiset::group_multiset_axioms, vstd::multiset::lemma_insert_len;

        proof {
            assert(key@.skip(0) =~= key@);
        }
        let fresh = add_at(&mut *self.root, key, 0);
        self.size = self.size + 1;
        proof {
            let old_keys = self.keys@;
            self.keys@ = old_keys.insert(key@);
            assert forall|k: Seq<u8>| #[trigger] self.keys@.count(k) == self.root.count(k) by {}
        }
        fresh
    }

    /// Drops one reference of `key`; returns true when that was its last one.
    pub fn remove(&mut self, key: &[u8]) -> (last: bool)
        requires
            old(self).wf(),
        ensures
            final(self).wf(),
            final(self)@ == old(self)@.remove(key@),
            last == (old(self)@.count(key@) == 1),
    {
        broadcast use vstd::multiset::group_multiset_axioms;

        proof {
            assert(key@.skip(0) =~= key@);
        }
        let r = remove_at(&mut *self.root, key, 0);
        match r {
            Some(last) => {
                proof {
                    assert(self.keys@.count(key@) > 0);
                }
                self.size = self.size - 1;
                proof {
                    let old_keys = self.keys@;
                    self.keys@ = old_keys.remove(key@);
                    assert forall|k: Seq<u8>| #[trigger] self.keys@.count(k) == self.root.count(k) by {}
                }
                last
            },
            None => {
                proof {
                    assert(self.keys@.remove(key@) =~= self.keys@);
                    assert forall|k: Seq<u8>| #[trigger] self.keys@.count(k) == self.root.count(k) by {}
                }
                false
            },
        }
    }

    /// Whether some stored key is a prefix of `key`.
    pub fn contains(&self, key: &[u8]) -> (found: bool)
        requires
            self.wf(),
        ensures
            found == self.matches(key@),
    {
        if self.root.refcount > 0 {
            proof {
                let r = *self.root;
                lemma_matches_step(r, key@);
                assert(key@.take(0).len() == 0);
                assert(self@.count(key@.take(0)) == r.count(key@.take(0)));
                if r.prefix@.len() == 0 {
                    assert(key@.take(0) =~= r.prefix@);
                    assert(key@.take(0).take(0) =~= r.prefix@);
                    assert(key@.take(0).skip(0).len() == 0);
                }
            }
            return true;
        }
        let mut current: &Node = &*self.root;
        let mut pos: usize = 0;
        proof {
            assert(key@.skip(0) =~= key@);
            assert(self.matches(key@) == matches_from(*self.root, key@)) by {
                if self.matches(key@) {
                    let i = choose|i: int| 0 <= i <= key@.len() && #[trigger] self@.count(key@.take(i)) > 0;
                    assert(self.root.count(key@.take(i)) > 0);
                }
                if matches_from(*self.root, key@) {
                    let i = choose|i: int| 0 <= i <= key@.len() && #[trigger] self.root.count(key@.take(i)) > 0;
                    assert(self@.count(key@.take(i)) > 0);
                }
            }
        }
        loop
            invariant
                current.wf(),
                pos <= key@.len(),
                key@.len() == key.len(),
                self.matches(key@) == matches_from(*current, key@.skip(pos as int)),
            decreases key@.len() - pos + if current.prefix@.len() == 0 {
                1int
            } else {
                0int
            },
        {
            let ghost kk = key@.skip(pos as int);
            proof {
                lemma_matches_step(*current, kk);
            }
            let plen = current.prefix.len();
            let pm = common_len(&current.prefix, key, pos);
            proof {
                assert(kk.take(pm as int) =~= key@.subrange(pos as int, pos + pm));
            }
            if pm < plen {
                proof {
                    if plen <= kk.len() && kk.take(plen as int) == current.prefix@ {
                        assert(kk.take(plen as int)[pm as int] == current.prefix@[pm as int]);
                    }
                }
                return false;
            }
            proof {
                assert(kk.take(plen as int) =~= current.prefix@);
            }
            if current.refcount > 0 {
                return true;
            }
            let npos = pos + plen;
            if npos == key.len() {
                return false;
            }
            let b = key[npos];
            proof {
                assert(kk[plen as int] == b);
                assert(kk.skip(plen as int) =~= key@.skip(npos as int));
            }
            match find_edge(&current.edges, b) {
                Some(i) => {
                    proof {
                        lemma_edge_index_found(current.edges@, i as int);
                        let e = current.edges@[i as int];
                        assert(e.node.wf() && e.node.prefix@.len() > 0);
                    }
                    current = &*current.edges[i].node;
                    pos = npos;
                },
                None => {
                    proof {
                        lemma_edge_index_absent(current.edges@, b);
                    }
                    return false;
                },
            }
        }
    }

    /// The number of stored references (every `add` counts, every successful
    /// `remove` uncounts).
    pub fn size(&self) -> (n: usize)
        requires
            self.wf(),
        ensures
            n == self@.len(),
    {
        self.size
    }
}

/// Splitting a node's prefix at `pm` and hanging the rest below keeps every
/// count, and the key `key` (which leaves the prefix at `pm`) gains one.
proof fn lemma_split_counts(n: Node, n2: Node, split: Node, key: Seq<u8>, pm: int)
    requires
        n.wf(),
        0 <= pm < n.prefix@.len(),
        pm <= key.len(),
        key.take(pm) == n.prefix@.take(pm),
        pm < key.len() ==> key[pm] != n.prefix@[pm],
        split.refcount == n.refcount,
        split.prefix@ == n.prefix@.skip(pm),
        split.edges@ == n.edges@,
        n2.prefix@ == n.prefix@.take(pm),
        n2.refcount == (if key.len() == pm {
            1u32
        } else {
            0u32
        }),
        key.len() == pm ==> n2.edges@.len() == 1 && n2.edges@[0].first_byte == n.prefix@[pm]
            && *n2.edges@[0].node == split,
        key.len() > pm ==> n2.edges@.len() == 2 && n2.edges@[1].first_byte == n.prefix@[pm]
            && *n2.edges@[1].node == split && n2.edges@[0].first_byte == key[pm]
            && n2.edges@[0].node.refcount == 1 && n2.edges@[0].node.prefix@ == key.skip(pm)
            && n2.edges@[0].node.edges@.len() == 0,
    ensures
        n2.wf(),
        forall|k: Seq<u8>| #[trigger] n2.count(k) == n.count(k) + bump(k, key),
{
    let p = n.prefix@;
    let plen = p.len() as int;
    let ghost i_split: int = if key.len() == pm { 0 } else { 1 };
    assert(split.wf()) by {
        assert forall|i: int| 0 <= i < split.edges@.len() implies {
            let e = #[trigger] split.edges@[i];
            &&& e.node.prefix@.len() > 0
            &&& e.node.prefix@[0] == e.first_byte
            &&& e.node.wf()
        } by {
            assert(n.edges@[i] == split.edges@[i]);
        }
    }
    if key.len() > pm {
        let leaf = *n2.edges@[0].node;
        assert(leaf.wf());
    }
    assert forall|k: Seq<u8>| #[trigger] n2.count(k) == n.count(k) + bump(k, key) by {
        if k == key {
            assert(k.take(pm) == p.take(pm));
        }
        if plen <= k.len() && k.take(plen) == p {
            assert(k.take(pm) =~= k.take(plen).take(pm));
            assert(p.take(pm) =~= p.take(plen).take(pm));
        }
        if pm <= k.len() && k.take(pm) == p.take(pm) {
            let rest = k.skip(pm);
            if rest.len() == 0 {
                if key.len() == pm {
                    assert(k.skip(pm) =~= key.skip(pm));
                    lemma_seq_split_eq(k, key, p.take(pm), pm);
                } else {
                    assert(k != key);
                }
            } else {
                let b = rest[0];
                assert(b == k[pm]);
                if b == p[pm] {
                    lemma_edge_index_found(n2.edges@, i_split);
                    assert(n2.count(k) == split.count(rest));
                    let p2 = p.skip(pm);
                    if p2.len() <= rest.len() && rest.take(p2.len() as int) == p2 {
                        assert forall|i: int| 0 <= i < plen implies k.take(plen)[i] == p[i] by {
                            if i < pm {
                                assert(k.take(pm)[i] == p.take(pm)[i]);
                            } else {
                                assert(rest.take(p2.len() as int)[i - pm] == p2[i - pm]);
                            }
                        }
                        assert(k.take(plen) =~= p);
                        assert(rest.skip(p2.len() as int) =~= k.skip(plen));
                    } else {
                        if plen <= k.len() && k.take(plen) == p {
                            assert(rest.take(p2.len() as int) =~= p2) by {
                                assert forall|i: int| 0 <= i < p2.len() implies rest.take(p2.len() as int)[i] == p2[i] by {
                                    assert(k.take(plen)[pm + i] == p[pm + i]);
                                }
                            }
                        }
                    }
                    if k == key {
                        assert(key[pm] == b);
                    }
                } else {
                    if plen <= k.len() && k.take(plen) == p {
                        assert(k.take(plen)[pm] == p[pm]);
                    }
                    if key.len() > pm && b == key[pm] {
                        lemma_edge_index_found(n2.edges@, 0);
                        let leaf = *n2.edges@[0].node;
                        leaf.lemma_leaf_count(rest);
                        if rest == key.skip(pm) {
                            lemma_seq_split_eq(k, key, p.take(pm), pm);
                        } else {
                            assert(rest != key.skip(pm));
                            if k == key {
                                assert(k.skip(pm) == key.skip(pm));
                            }
                        }
                    } else {
                        assert forall|i: int| 0 <= i < n2.edges@.len() implies (#[trigger] n2.edges@[i]).first_byte != b by {}
                        lemma_edge_index_absent(n2.edges@, b);
                        if k == key {
                            assert(key[pm] == b);
                        }
                    }
                }
            }
        } else {
            assert(k != key);
        }
    }
}

/// Replacing child `i` by one that counts `key.skip(plen)` once more.
proof fn lemma_child_counts(n: Node, n2: Node, i: int, key: Seq<u8>)
    requires
        n.wf(),
        n2.prefix@ == n.prefix@,
        n2.refcount == n.refcount,
        0 <= i < n.edges@.len(),
        n2.edges@.len() == n.edges@.len(),
        forall|j: int| 0 <= j < n.edges@.len() && j != i ==> n2.edges@[j] == n.edges@[j],
        n2.edges@[i].first_byte == n.edges@[i].first_byte,
        n2.edges@[i].node.prefix@.len() > 0,
        n2.edges@[i].node.prefix@[0] == n.edges@[i].first_byte,
        n2.edges@[i].node.wf(),
        n.prefix@.len() < key.len(),
        key.take(n.prefix@.len() as int) == n.prefix@,
        key[n.prefix@.len() as int] == n.edges@[i].first_byte,
        forall|k: Seq<u8>| #[trigger] n2.edges@[i].node.count(k) == n.edges@[i].node.count(k) + bump(
            k,
            key.skip(n.prefix@.len() as int),
        ),
    ensures
        n2.wf(),
        forall|k: Seq<u8>| #[trigger] n2.count(k) == n.count(k) + bump(k, key),
{
    let p = n.prefix@;
    let plen = p.len() as int;
    assert forall|a: int, b: int| 0 <= a < b < n2.edges@.len() implies (#[trigger] n2.edges@[a]).first_byte != (
        #[trigger] n2.edges@[b]).first_byte by {
        assert(n.edges@[a].first_byte != n.edges@[b].first_byte);
    }
    assert forall|j: int| 0 <= j < n2.edges@.len() implies {
        let e = #[trigger] n2.edges@[j];
        &&& e.node.prefix@.len() > 0
        &&& e.node.prefix@[0] == e.first_byte
        &&& e.node.wf()
    } by {
        if j != i {
            assert(n.edges@[j] == n2.edges@[j]);
        }
    }
    assert forall|k: Seq<u8>| #[trigger] n2.count(k) == n.count(k) + bump(k, key) by {
        if k == key {
            assert(k.take(plen) == p);
        }
        if plen <= k.len() && k.take(plen) == p {
            let rest = k.skip(plen);
            if rest.len() > 0 {
                let b = rest[0];
                let j = edge_index(n.edges@, b);
                if 0 <= j < n.edges@.len() {
                    lemma_edge_index_found(n.edges@, j);
                    lemma_edge_index_found(n2.edges@, j);
                    if j == i {
                        assert(n2.count(k) == n2.edges@[i].node.count(rest));
                        assert(n.count(k) == n.edges@[i].node.count(rest));
                        if rest == key.skip(plen) {
                            lemma_seq_split_eq(k, key, p, plen);
                        } else if k == key {
                            assert(rest == key.skip(plen));
                        }
                    } else {
                        assert(n2.edges@[j] == n.edges@[j]);
                        assert(n2.count(k) == n.count(k));
                        if k == key {
                            assert(rest[0] == key[plen]);
                            lemma_edge_index_found(n.edges@, i);
                        }
                    }
                } else {
                    assert forall|q: int| 0 <= q < n2.edges@.len() implies (#[trigger] n2.edges@[q]).first_byte != b by {
                        if n2.edges@[q].first_byte == b {
                            assert(n.edges@[q].first_byte == b);
                        }
                    }
                    lemma_edge_index_absent(n2.edges@, b);
                    if k == key {
                        assert(n.edges@[i].first_byte == b);
                    }
                }
            } else {
                if k == key {
                    assert(key.len() == plen);
                }
            }
        }
    }
}

/// Adding a new leaf edge for `key` below a node whose prefix it extends.
proof fn lemma_leaf_edge_counts(n: Node, n2: Node, key: Seq<u8>)
    requires
        n.wf(),
        n2.prefix@ == n.prefix@,
        n2.refcount == n.refcount,
        n.prefix@.len() < key.len(),
        key.take(n.prefix@.len() as int) == n.prefix@,
        forall|q: int| 0 <= q < n.edges@.len() ==> (#[trigger] n.edges@[q]).first_byte != key[n.prefix@.len() as int],
        n2.edges@.len() == n.edges@.len() + 1,
        forall|q: int| 0 <= q < n.edges@.len() ==> n2.edges@[q] == n.edges@[q],
        n2.edges@[n.edges@.len() as int].first_byte == key[n.prefix@.len() as int],
        n2.edges@[n.edges@.len() as int].node.refcount == 1,
        n2.edges@[n.edges@.len() as int].node.prefix@ == key.skip(n.prefix@.len() as int),
        n2.edges@[n.edges@.len() as int].node.edges@.len() == 0,
    ensures
        n2.wf(),
        forall|k: Seq<u8>| #[trigger] n2.count(k) == n.count(k) + bump(k, key),
{
    let p = n.prefix@;
    let plen = p.len() as int;
    let last = n.edges@.len() as int;
    let leaf = *n2.edges@[last].node;
    assert(leaf.wf());
    assert forall|a: int, b: int| 0 <= a < b < n2.edges@.len() implies (#[trigger] n2.edges@[a]).first_byte != (
        #[trigger] n2.edges@[b]).first_byte by {
        if b < last {
            assert(n.edges@[a].first_byte != n.edges@[b].first_byte);
        } else {
            assert(n.edges@[a].first_byte != key[plen]);
        }
    }
    assert forall|j: int| 0 <= j < n2.edges@.len() implies {
        let e = #[trigger] n2.edges@[j];
        &&& e.node.prefix@.len() > 0
        &&& e.node.prefix@[0] == e.first_byte
        &&& e.node.wf()
    } by {
        if j < last {
            assert(n.edges@[j] == n2.edges@[j]);
        }
    }
    assert forall|k: Seq<u8>| #[trigger] n2.count(k) == n.count(k) + bump(k, key) by {
        if k == key {
            assert(k.take(plen) == p);
        }
        if plen <= k.len() && k.take(plen) == p {
            let rest = k.skip(plen);
            if rest.len() > 0 {
                let b = rest[0];
                if b == key[plen] {
                    lemma_edge_index_found(n2.edges@, last);
                    lemma_edge_index_absent(n.edges@, b);
                    leaf.lemma_leaf_count(rest);
                    if rest == key.skip(plen) {
                        lemma_seq_split_eq(k, key, p, plen);
                    } else if k == key {
                        assert(rest == key.skip(plen));
                    }
                } else {
                    let j = edge_index(n.edges@, b);
                    if 0 <= j < n.edges@.len() {
                        lemma_edge_index_found(n.edges@, j);
                        lemma_edge_index_found(n2.edges@, j);
                    } else {
                        assert forall|q: int| 0 <= q < n2.edges@.len() implies (#[trigger] n2.edges@[q]).first_byte != b by {
                            if q < last && n2.edges@[q].first_byte == b {
                                assert(n.edges@[q].first_byte == b);
                            }
                        }
                        lemma_edge_index_absent(n2.edges@, b);
                    }
                    if k == key {
                        assert(rest[0] == key[plen]);
                    }
                }
            } else if k == key {
                assert(key.len() == plen);
            }
        }
    }
}

/// Bumping the refcount of a node counts its own path once more.
proof fn lemma_exact_counts(n: Node, n2: Node, key: Seq<u8>)
    requires
        n.wf(),
        n2.prefix@ == n.prefix@,
        n2.edges@ == n.edges@,
        n2.refcount == n.refcount + 1,
        key == n.prefix@,
    ensures
        n2.wf(),
        forall|k: Seq<u8>| #[trigger] n2.count(k) == n.count(k) + bump(k, key),
{
    let plen = key.len() as int;
    assert(key.take(plen) =~= key);
    assert(key.skip(plen).len() == 0);
    assert forall|k: Seq<u8>| #[trigger] n2.count(k) == n.count(k) + bump(k, key) by {
        if plen <= k.len() && k.take(plen) == key {
            if k.skip(plen).len() == 0 {
                assert(k =~= key);
            } else {
                assert(k != key);
            }
        } else {
            assert(k != key);
        }
    }
}


/// Adding a key and then removing it leaves the keys as they were.
pub proof fn law_add_then_remove(keys: Multiset<Seq<u8>>, key: Seq<u8>)
    ensures
        keys.insert(key).remove(key) == keys,
{
    broadcast use vstd::multiset::group_multiset_axioms;

    assert(keys.insert(key).remove(key) =~= keys);
}

/// A stored key matches every string it begins.
pub proof fn law_stored_key_matches(t: RadixTree, key: Seq<u8>, data: Seq<u8>)
    requires
        t@.count(key) > 0,
        key.len() <= data.len(),
        data.take(key.len() as int) == key,
    ensures
        t.matches(data),
{
    assert(t@.count(data.take(key.len() as int)) > 0);
}

} // verus!
