use vstd::prelude::*;

verus! {

/// The children of a trie node: none, one (for the single byte `min`), or a
/// table covering the bytes `min .. min + count`.
enum NextNode {
    Empty,
    Single(Box<Trie>),
    Table(Vec<Option<Box<Trie>>>),
}

/// A prefix trie with reference counts: each stored prefix is counted once per
/// `add`.
pub struct Trie {
    refcnt: u32,
    min: u8,
    count: u16,
    live_nodes: u16,
    next: NextNode,
}

/// Number of occupied slots of a child table.
pub open spec fn live_slots(s: Seq<Option<Box<Trie>>>) -> nat
    decreases s.len(),
{
    if s.len() == 0 {
        0
    } else {
        live_slots(s.drop_last()) + if s.last() is Some {
            1nat
        } else {
            0nat
        }
    }
}

pub open spec fn empty_slots(n: nat) -> Seq<Option<Box<Trie>>> {
    Seq::new(n, |i: int| None)
}

proof fn lemma_live_slots_bound(s: Seq<Option<Box<Trie>>>)
    ensures
        live_slots(s) <= s.len(),
    decreases s.len(),
{
    if s.len() > 0 {
        lemma_live_slots_bound(s.drop_last());
    }
}

proof fn lemma_live_slots_append(a: Seq<Option<Box<Trie>>>, b: Seq<Option<Box<Trie>>>)
    ensures
        live_slots(a + b) == live_slots(a) + live_slots(b),
    decreases b.len(),
{
    if b.len() == 0 {
        assert(a + b =~= a);
    } else {
        assert((a + b).drop_last() =~= a + b.drop_last());
        lemma_live_slots_append(a, b.drop_last());
    }
}

proof fn lemma_live_slots_empty(n: nat)
    ensures
        live_slots(empty_slots(n)) == 0,
    decreases n,
{
    if n > 0 {
        assert(empty_slots(n).drop_last() =~= empty_slots((n - 1) as nat));
        lemma_live_slots_empty((n - 1) as nat);
    }
}

proof fn lemma_live_slots_update(s: Seq<Option<Box<Trie>>>, i: int, v: Option<Box<Trie>>)
    requires
        0 <= i < s.len(),
    ensures
        live_slots(s.update(i, v)) + (if s[i] is Some {
            1int
        } else {
            0int
        }) == live_slots(s) + (if v is Some {
            1int
        } else {
            0int
        }),
    decreases s.len(),
{
    if i == s.len() - 1 {
        assert(s.update(i, v).drop_last() =~= s.drop_last());
    } else {
        assert(s.update(i, v).drop_last() =~= s.drop_last().update(i, v));
        lemma_live_slots_update(s.drop_last(), i, v);
    }
}

spec fn empty_trie() -> Trie {
    Trie { refcnt: 0, min: 0, count: 0, live_nodes: 0, next: NextNode::Empty }
}

spec fn table_view(n: NextNode) -> Seq<Option<Box<Trie>>> {
    match n {
        NextNode::Table(t) => t@,
        _ => Seq::empty(),
    }
}

impl Trie {
    /// The child reached by byte `c`, if any.
    pub closed spec fn child(self, c: u8) -> Option<Trie> {
        if self.count == 0 || c < self.min || c >= self.min + self.count {
            None
        } else {
            match self.next {
                NextNode::Empty => None,
                NextNode::Single(n) => Some(*n),
                NextNode::Table(t) => match t@[c - self.min] {
                    Some(b) => Some(*b),
                    None => None,
                },
            }
        }
    }

    /// How many times `key` has been added.
    pub closed spec fn count(self, key: Seq<u8>) -> nat
        decreases key.len(),
    {
        if key.len() == 0 {
            self.refcnt as nat
        } else {
            match self.child(key[0]) {
                Some(n) => n.count(key.drop_first()),
                None => 0,
            }
        }
    }

    /// Some prefix of `data` (possibly empty, possibly all of it) is stored.
    pub open spec fn matches(self, data: Seq<u8>) -> bool {
        exists|i: int| 0 <= i <= data.len() && #[trigger] self.count(data.take(i)) > 0
    }

    /// Structural well-formedness of the node and all nodes below it.
    pub closed spec fn wf(self) -> bool
        decreases self,
    {
        &&& self.min + self.count <= 256
        &&& match self.next {
            NextNode::Empty => self.count == 0 && self.live_nodes == 0,
            NextNode::Single(n) => self.count == 1 && self.live_nodes == 1 && n.wf(),
            NextNode::Table(t) => {
                &&& self.count >= 2
                &&& t@.len() == self.count
                &&& self.live_nodes == live_slots(t@)
                &&& forall|i: int|
                    0 <= i < t@.len() ==> match #[trigger] t@[i] {
                        Some(b) => b.wf(),
                        None => true,
                    }
            },
        }
    }

    proof fn lemma_child_wf(self, c: u8)
        requires
            self.wf(),
        ensures
            self.child(c) matches Some(n) ==> n.wf(),
    {
        if self.child(c) is Some {
            match self.next {
                NextNode::Table(t) => {
                    let i = c - self.min;
                    assert(match t@[i] {
                        Some(b) => b.wf(),
                        None => true,
                    });
                },
                _ => {},
            }
        }
    }

    /// Nodes with the same refcount and the same children count the same keys.
    proof fn lemma_count_by_children(a: Trie, b: Trie, k: Seq<u8>)
        requires
            a.refcnt == b.refcnt,
            forall|x: u8| #[trigger] a.child(x) == b.child(x),
        ensures
            a.count(k) == b.count(k),
    {
        if k.len() > 0 {
            assert(a.child(k[0]) == b.child(k[0]));
        }
    }

    proof fn lemma_new_counts_zero(self, k: Seq<u8>)
        requires
            self.refcnt == 0,
            self.count == 0,
        ensures
            self.count(k) == 0,
    {
    }


    /// Widens the child range so that it covers `c`, keeping every child.
    fn extend_to(&mut self, c: u8)
        requires
            old(self).wf(),
            old(self).count >= 1,
            c < old(self).min || c >= old(self).min + old(self).count,
        ensures
            final(self).wf(),
            final(self).count >= 2,
            final(self).min <= c < final(self).min + final(self).count,
            final(self).refcnt == old(self).refcnt,
            forall|x: u8| #[trigger] final(self).child(x) == old(self).child(x),
    {
        let mut next = NextNode::Empty;
        std::mem::swap(&mut next, &mut self.next);
        match next {
            NextNode::Single(old_node) => {
                let old_c = self.min;
                let new_min = if c < old_c { c } else { old_c };
                let new_count: u16 = if old_c < c { (c - old_c) as u16 + 1 } else { (old_c - c) as u16 + 1 };
                let mut table: Vec<Option<Box<Trie>>> = Vec::new();
                while table.len() < new_count as usize
                    invariant
                        table.len() <= new_count,
                        table@ =~= empty_slots(table@.len()),
                    decreases new_count - table.len(),
                {
                    table.push(None);
                }
                let ghost before = table@;
                proof {
                    lemma_live_slots_empty(table@.len());
                }
                table.set((old_c - new_min) as usize, Some(old_node));
                proof {
                    lemma_live_slots_update(before, (old_c - new_min) as int, Some(old_node));
                }
                self.min = new_min;
                self.count = new_count;
                self.next = NextNode::Table(table);
                proof {
                    assert forall|i: int| 0 <= i < table@.len() implies match #[trigger] table@[i] {
                        Some(b) => b.wf(),
                        None => true,
                    } by {}
                    assert forall|x: u8| #[trigger] self.child(x) == old(self).child(x) by {}
                }
            },
            NextNode::Table(mut table) => {
                let ghost t0 = table@;
                if self.min < c {
                    let new_count: u16 = (c - self.min) as u16 + 1;
                    while table.len() < new_count as usize
                        invariant
                            t0.len() <= table.len() <= new_count,
                            table@ =~= t0 + empty_slots((table@.len() - t0.len()) as nat),
                        decreases new_count - table.len(),
                    {
                        table.push(None);
                    }
                    proof {
                        lemma_live_slots_empty((table@.len() - t0.len()) as nat);
                        lemma_live_slots_append(t0, empty_slots((table@.len() - t0.len()) as nat));
                    }
                    self.count = new_count;
                    self.next = NextNode::Table(table);
                } else {
                    let old_min = self.min;
                    let new_count: u16 = (old_min - c) as u16 + self.count;
                    let mut new_table: Vec<Option<Box<Trie>>> = Vec::new();
                    while new_table.len() < (old_min - c) as usize
                        invariant
                            new_table.len() <= old_min - c,
                            new_table@ =~= empty_slots(new_table@.len()),
                        decreases (old_min - c) as usize - new_table.len(),
                    {
                        new_table.push(None);
                    }
                    let ghost pre = new_table@;
                    new_table.append(&mut table);
                    proof {
                        lemma_live_slots_empty(pre.len());
                        lemma_live_slots_append(pre, t0);
                        assert(new_table@ =~= pre + t0);
                    }
                    self.min = c;
                    self.count = new_count;
                    self.next = NextNode::Table(new_table);
                }
                proof {
                    let t = table_view(self.next);
                    assert forall|i: int| 0 <= i < t.len() implies match #[trigger] t[i] {
                        Some(b) => b.wf(),
                        None => true,
                    } by {
                        let j = i - (old(self).min - self.min);
                        if 0 <= j < t0.len() {
                            assert(t[i] == t0[j]);
                            assert(match t0[j] {
                                Some(b) => b.wf(),
                                None => true,
                            });
                        }
                    }
                    assert forall|x: u8| #[trigger] self.child(x) == old(self).child(x) by {
                        if self.min <= x < self.min + self.count {
                            let j = x - old(self).min;
                            if 0 <= j < t0.len() {
                                assert(t[x - self.min] == t0[j]);
                            }
                        }
                    }
                }
            },
            NextNode::Empty => {
                // unreachable: a node with a non-empty range has children
                self.next = NextNode::Empty;
            },
        }
    }

    /// Adds the key `key[pos..]` below this node.
    fn add_at(&mut self, key: &[u8], pos: usize) -> (fresh: bool)
        requires
            old(self).wf(),
            pos <= key@.len(),
            old(self).count(key@.skip(pos as int)) < u32::MAX,
        ensures
            final(self).wf(),
            forall|k: Seq<u8>| #[trigger] final(self).count(k) == old(self).count(k) + (if k
                == key@.skip(pos as int) {
                1nat
            } else {
                0nat
            }),
            fresh == (old(self).count(key@.skip(pos as int)) == 0),
        decreases key@.len() - pos,
    {
        let ghost kk = key@.skip(pos as int);
        if pos == key.len() {
            self.refcnt = self.refcnt + 1;
            proof {
                assert(kk.len() == 0);
                assert forall|k: Seq<u8>| #[trigger] self.count(k) == old(self).count(k) + (if k
                    == kk {
                    1nat
                } else {
                    0nat
                }) by {
                    if k.len() > 0 {
                        assert(self.child(k[0]) == old(self).child(k[0]));
                    } else {
                        assert(k =~= kk);
                    }
                }
            }
            return self.refcnt == 1;
        }
        let c = key[pos];
        let ghost rest = key@.skip(pos + 1);
        proof {
            assert(kk[0] == c);
            assert(kk.drop_first() =~= rest);
        }
        if self.count == 0 {
            self.min = c;
            self.count = 1;
            let mut node = Box::new(Trie::new());
            self.live_nodes = self.live_nodes + 1;
            let result = node.add_at(key, pos + 1);
            self.next = NextNode::Single(node);
            proof {
                self.lemma_counts_after_child(*old(self), c, empty_trie(), rest, kk);
            }
            return result;
        }
        if c < self.min || c as u16 >= self.min as u16 + self.count {
            self.extend_to(c);
        }
        let ghost mid = *self;
        proof {
            mid.lemma_child_wf(c);
            assert forall|k: Seq<u8>| #[trigger] mid.count(k) == old(self).count(k) by {
                Trie::lemma_count_by_children(mid, *old(self), k);
            }
        }
        let mut next = NextNode::Empty;
        std::mem::swap(&mut next, &mut self.next);
        let result;
        match next {
            NextNode::Single(mut node) => {
                let ghost oc = *node;
                result = node.add_at(key, pos + 1);
                self.next = NextNode::Single(node);
                proof {
                    assert(mid.child(c) == Some(oc));
                    self.lemma_counts_after_child(mid, c, oc, rest, kk);
                }
            },
            NextNode::Table(mut table) => {
                let idx = (c - self.min) as usize;
                let ghost t0 = table@;
                if table[idx].is_none() {
                    table.set(idx, Some(Box::new(Trie::new())));
                    proof {
                        lemma_live_slots_update(t0, idx as int, table@[idx as int]);
                        lemma_live_slots_bound(t0);
                    }
                    self.live_nodes = self.live_nodes + 1;
                }
                let ghost t1 = table@;
                let ghost oc = match t1[idx as int] {
                    Some(b) => *b,
                    None => empty_trie(),
                };
                let slot = table[idx].take();
                match slot {
                    Some(mut node) => {
                        proof {
                            assert(*node == oc);
                        }
                        result = node.add_at(key, pos + 1);
                        let ghost t2 = table@;
                        table.set(idx, Some(node));
                        proof {
                            lemma_live_slots_update(t1, idx as int, None);
                            lemma_live_slots_update(t2, idx as int, table@[idx as int]);
                            assert(table@ =~= t1.update(idx as int, table@[idx as int]));
                        }
                    },
                    None => {
                        result = false;
                    },
                }
                self.next = NextNode::Table(table);
                proof {
                    let t = table_view(self.next);
                    assert forall|i: int| 0 <= i < t.len() implies match #[trigger] t[i] {
                        Some(b) => b.wf(),
                        None => true,
                    } by {
                        if i != idx {
                            assert(t[i] == t0[i]);
                            assert(match t0[i] {
                                Some(b) => b.wf(),
                                None => true,
                            });
                        }
                    }
                    self.lemma_counts_after_child(mid, c, oc, rest, kk);
                }
            },
            NextNode::Empty => {
                result = false;
                self.next = NextNode::Empty;
            },
        }
        result
    }

    /// Replacing the child at byte `c` (whose old counts were those of `oc`)
    /// by one that counts `rest` once more adds one to the count of `c · rest`.
    proof fn lemma_counts_after_child(self, before: Trie, c: u8, oc: Trie, rest: Seq<u8>, kk: Seq<u8>)
        requires
            self.refcnt == before.refcnt,
            forall|x: u8| x != c ==> #[trigger] self.child(x) == before.child(x),
            before.child(c) matches Some(n) ==> n == oc,
            before.child(c) is None ==> forall|j: Seq<u8>| #[trigger] oc.count(j) == 0,
            self.child(c) matches Some(n) && forall|j: Seq<u8>| #[trigger] n.count(j) == oc.count(j)
                + (if j == rest {
                1nat
            } else {
                0nat
            }),
            kk.len() > 0,
            kk[0] == c,
            kk.drop_first() == rest,
        ensures
            forall|k: Seq<u8>| #[trigger] self.count(k) == before.count(k) + (if k == kk {
                1nat
            } else {
                0nat
            }),
    {
        assert forall|k: Seq<u8>| #[trigger] self.count(k) == before.count(k) + (if k == kk {
            1nat
        } else {
            0nat
        }) by {
            if k.len() > 0 {
                if k[0] == c {
                    let n = self.child(c)->0;
                    assert(self.count(k) == n.count(k.drop_first()));
                    assert(before.count(k) == oc.count(k.drop_first()));
                    if k.drop_first() == rest {
                        assert forall|i: int| 0 <= i < k.len() implies k[i] == kk[i] by {
                            if i > 0 {
                                assert(k[i] == k.drop_first()[i - 1]);
                                assert(kk[i] == kk.drop_first()[i - 1]);
                            }
                        }
                        assert(k =~= kk);
                    } else {
                        assert(k != kk);
                    }
                } else {
                    assert(self.child(k[0]) == before.child(k[0]));
                    assert(k != kk);
                }
            } else {
                assert(k != kk);
            }
        }
    }

    proof fn lemma_matches_step(self, d: Seq<u8>)
        ensures
            d.len() == 0 ==> (self.matches(d) <==> self.refcnt > 0),
            d.len() > 0 ==> (self.matches(d) <==> (self.refcnt > 0 || (self.child(d[0]) matches Some(
                n,
            ) && n.matches(d.drop_first())))),
    {
        assert(d.take(0) =~= Seq::<u8>::empty());
        assert(self.count(d.take(0)) == self.refcnt);
        if d.len() > 0 {
            if self.matches(d) && self.refcnt == 0 {
                let i = choose|i: int| 0 <= i <= d.len() && #[trigger] self.count(d.take(i)) > 0;
                assert(i > 0);
                assert(d.take(i)[0] == d[0]);
                let n = self.child(d[0])->0;
                assert(d.take(i).drop_first() =~= d.drop_first().take(i - 1));
                assert(n.count(d.drop_first().take(i - 1)) > 0);
            }
            if self.child(d[0]) is Some {
                let n = self.child(d[0])->0;
                if n.matches(d.drop_first()) {
                    let j = choose|j: int|
                        0 <= j <= d.drop_first().len() && #[trigger] n.count(d.drop_first().take(j)) > 0;
                    assert(d.take(j + 1).drop_first() =~= d.drop_first().take(j));
                    assert(self.count(d.take(j + 1)) > 0);
                }
            }
        }
    }

    /// Whether some stored prefix is a prefix of `data`.
    pub fn check(&self, data: &[u8]) -> (found: bool)
        requires
            self.wf(),
        ensures
            found == self.matches(data@),
    {
        let mut current: &Trie = self;
        let mut pos: usize = 0;
        proof {
            assert(data@.skip(0) =~= data@);
        }
        loop
            invariant
                current.wf(),
                pos <= data@.len(),
                data@.len() == data.len(),
                self.matches(data@) == current.matches(data@.skip(pos as int)),
            decreases data@.len() - pos,
        {
            let ghost d = data@.skip(pos as int);
            proof {
                current.lemma_matches_step(d);
            }
            if current.refcnt > 0 {
                return true;
            }
            if pos == data.len() {
                return false;
            }
            let c = data[pos];
            proof {
                assert(d[0] == c);
                assert(d.drop_first() =~= data@.skip(pos + 1));
                current.lemma_child_wf(c);
            }
            if c < current.min || c as u16 >= current.min as u16 + current.count {
                return false;
            }
            match &current.next {
                NextNode::Single(node) => {
                    current = &**node;
                },
                NextNode::Table(table) => {
                    match &table[(c - current.min) as usize] {
                        Some(node) => {
                            current = &**node;
                        },
                        None => {
                            return false;
                        },
                    }
                },
                NextNode::Empty => {
                    return false;
                },
            }
            pos = pos + 1;
        }
    }

    /// Adds `prefix` once more; returns true when it was not stored before.
    pub fn add(&mut self, prefix: &[u8]) -> (fresh: bool)
        requires
            old(self).wf(),
            old(self).count(prefix@) < u32::MAX,
        ensures
            final(self).wf(),
            forall|k: Seq<u8>| #[trigger] final(self).count(k) == old(self).count(k) + (if k
                == prefix@ {
                1nat
            } else {
                0nat
            }),
            fresh == (old(self).count(prefix@) == 0),
    {
        proof {
            assert(prefix@.skip(0) =~= prefix@);
        }
        self.add_at(prefix, 0)
    }

    proof fn lemma_live_slots_zero(s: Seq<Option<Box<Trie>>>)
        ensures
            live_slots(s) == 0 <==> forall|i: int| 0 <= i < s.len() ==> #[trigger] s[i] is None,
        decreases s.len(),
    {
        if s.len() > 0 {
            Trie::lemma_live_slots_zero(s.drop_last());
            if live_slots(s) == 0 {
                assert forall|i: int| 0 <= i < s.len() implies #[trigger] s[i] is None by {
                    if i < s.len() - 1 {
                        assert(s.drop_last()[i] == s[i]);
                    }
                }
            }
            if forall|i: int| 0 <= i < s.len() ==> #[trigger] s[i] is None {
                assert forall|i: int| 0 <= i < s.drop_last().len() implies #[trigger] s.drop_last()[i] is None by {
                    assert(s[i] is None);
                }
            }
        }
    }

    /// A node is redundant when it stores nothing itself and has no children.
    fn is_redundant(&self) -> (r: bool)
        requires
            self.wf(),
        ensures
            r == (self.count(Seq::empty()) == 0 && forall|x: u8| #[trigger] self.child(x) is None),
    {
        proof {
            let t = table_view(self.next);
            if self.next is Table {
                Trie::lemma_live_slots_zero(t);
                if self.live_nodes != 0 {
                    let i = choose|i: int| 0 <= i < t.len() && #[trigger] t[i] is Some;
                    let x = (self.min + i) as u8;
                    assert(self.child(x) is Some);
                }
            } else if self.next is Single {
                assert(self.child(self.min) is Some);
            }
        }
        self.refcnt == 0 && self.live_nodes == 0
    }

    pub fn new() -> (t: Self)
        ensures
            t.wf(),
            forall|k: Seq<u8>| #[trigger] t.count(k) == 0,
    {
        let t = Trie { refcnt: 0, min: 0, count: 0, live_nodes: 0, next: NextNode::Empty };
        proof {
            assert forall|k: Seq<u8>| #[trigger] t.count(k) == 0 by {
                t.lemma_new_counts_zero(k);
            }
        }
        t
    }
}

/// A trie that also counts how many distinct prefixes it holds.
pub struct TrieWithSize {
    num_prefixes: u32,
    trie: Trie,
    stored: Ghost<Set<Seq<u8>>>,
}

impl TrieWithSize {
    pub closed spec fn wf(&self) -> bool {
        &&& self.trie.wf()
        &&& self.stored@.finite()
        &&& forall|k: Seq<u8>| #[trigger] self.stored@.contains(k) <==> self.trie.count(k) > 0
        &&& self.num_prefixes as int == self.stored@.len() as int % 0x1_0000_0000
    }

    /// The distinct prefixes stored.
    pub closed spec fn prefixes(&self) -> Set<Seq<u8>> {
        self.stored@
    }

    /// How many times `key` has been added.
    pub closed spec fn count(&self, key: Seq<u8>) -> nat {
        self.trie.count(key)
    }

    /// The count of distinct prefixes the trie keeps (modulo 2^32).
    pub closed spec fn spec_num_prefixes(&self) -> u32 {
        self.num_prefixes
    }

    pub open spec fn matches(&self, data: Seq<u8>) -> bool {
        exists|i: int| 0 <= i <= data.len() && #[trigger] self.count(data.take(i)) > 0
    }

    pub fn new() -> (t: Self)
        ensures
            t.wf(),
            t.prefixes() == Set::<Seq<u8>>::empty(),
            t.spec_num_prefixes() == 0,
            forall|k: Seq<u8>| #[trigger] t.count(k) == 0,
    {
        let t = TrieWithSize { num_prefixes: 0, trie: Trie::new(), stored: Ghost(Set::empty()) };
        proof {
            assert forall|k: Seq<u8>| #[trigger] t.stored@.contains(k) <==> t.trie.count(k) > 0 by {}
        }
        t
    }

    /// The prefix count is the number of distinct prefixes stored, taken
    /// modulo 2^32 as the counter wraps.
    pub proof fn law_num_prefixes_counts_distinct(&self)
        requires
            self.wf(),
        ensures
            self.prefixes().finite(),
            self.spec_num_prefixes() as int == self.prefixes().len() as int % 0x1_0000_0000,
    {
    }

    /// Adds `prefix`; when it is new, the prefix count grows by one.
    pub fn add(&mut self, prefix: &[u8]) -> (fresh: bool)
        requires
            old(self).wf(),
            old(self).count(prefix@) < u32::MAX,
        ensures
            final(self).wf(),
            forall|k: Seq<u8>| #[trigger] final(self).count(k) == old(self).count(k) + (if k
                == prefix@ {
                1nat
            } else {
                0nat
            }),
            fresh == (old(self).count(prefix@) == 0),
            fresh == !old(self).prefixes().contains(prefix@),
            final(self).prefixes() == old(self).prefixes().insert(prefix@),
            final(self).prefixes().len() == old(self).prefixes().len() + (if fresh {
                1nat
            } else {
                0nat
            }),
            final(self).spec_num_prefixes() == (if fresh {
                old(self).spec_num_prefixes().wrapping_add(1)
            } else {
                old(self).spec_num_prefixes()
            }),
    {
        if self.trie.add(prefix) {
            self.num_prefixes = self.num_prefixes.wrapping_add(1);
            proof {
                let old_set = self.stored@;
                self.stored@ = old_set.insert(prefix@);
                assert(!old_set.contains(prefix@));
            }
            proof {
                assert forall|k: Seq<u8>| #[trigger] self.stored@.contains(k) <==> self.trie.count(k) > 0 by {}
            }
            true
        } else {
            proof {
                assert(self.stored@.insert(prefix@) =~= self.stored@);
                assert forall|k: Seq<u8>| #[trigger] self.stored@.contains(k) <==> self.trie.count(k) > 0 by {}
            }
            false
        }
    }

    pub fn check(&self, data: &[u8]) -> (found: bool)
        requires
            self.wf(),
        ensures
            found == self.matches(data@),
    {
        let r = self.trie.check(data);
        proof {
            assert(self.trie.matches(data@) == self.matches(data@)) by {
                if self.matches(data@) {
                    let i = choose|i: int| 0 <= i <= data@.len() && #[trigger] self.count(data@.take(i)) > 0;
                    assert(self.trie.count(data@.take(i)) > 0);
                }
                if self.trie.matches(data@) {
                    let i = choose|i: int| 0 <= i <= data@.len() && #[trigger] self.trie.count(data@.take(i)) > 0;
                    assert(self.count(data@.take(i)) > 0);
                }
            }
        }
        r
    }

    /// The number of distinct prefixes added (modulo 2^32).
    pub fn num_prefixes(&self) -> (n: u32)
        requires
            self.wf(),
        ensures
            n as int == self.prefixes().len() as int % 0x1_0000_0000,
            n == self.spec_num_prefixes(),
    {
        self.num_prefixes
    }
}

/// After `p` is added, every `data` that begins with `p` matches the trie.
pub proof fn lemma_added_prefix_matches(t: Trie, p: Seq<u8>, data: Seq<u8>)
    requires
        t.count(p) > 0,
        p.len() <= data.len(),
        data.take(p.len() as int) == p,
    ensures
        t.matches(data),
{
    assert(t.count(data.take(p.len() as int)) > 0);
}


/// Adding prefixes never makes a string stop matching: a trie whose counts
/// are at least those of another matches everything the other matches.
pub proof fn law_adding_keeps_matches(before: TrieWithSize, after: TrieWithSize, data: Seq<u8>)
    requires
        forall|k: Seq<u8>| #[trigger] after.count(k) >= before.count(k),
        before.matches(data),
    ensures
        after.matches(data),
{
    let i = choose|i: int| 0 <= i <= data.len() && #[trigger] before.count(data.take(i)) > 0;
    assert(after.count(data.take(i)) > 0);
}

} // verus!
