use vstd::prelude::*;

verus! {

/// The context an object is made in.
pub struct Context;

/// The I/O thread an object runs in.
pub struct IoThread;

/// The options an object is made with: how long, in milliseconds, to linger
/// on termination.
#[derive(Debug, Clone, Copy, PartialEq, Eq, Structural)]
pub struct Options {
    pub linger: u64,
}

/// A message an object sends, or a step it takes, as it owns children and
/// terminates. Objects are named by their ids.
#[derive(Debug, Clone, Copy, PartialEq, Eq, Structural)]
pub enum OwnAction {
    /// Plug the child `object` in.
    ProcessPlug { object: u64 },
    /// Tell `owner` that it now owns `object`.
    SendOwn { owner: u64, object: u64 },
    /// Tell `object` to terminate, lingering `linger` milliseconds.
    SendTerm { object: u64, linger: i32 },
    /// Ask `owner` to terminate its child `object`.
    SendTermReq { owner: u64, object: u64 },
    /// Tell `owner` that this object has terminated.
    SendTermAck { owner: u64 },
    /// Destroy this object.
    Destroy,
}

/// An object that owns others, and terminates only once they all have.
pub struct Own {
    /// The identity of this object.
    pub id: u64,
    pub options: Options,
    /// Whether termination has started.
    pub terminating: bool,
    /// Commands sent to this object.
    pub sent_seqnum: u64,
    /// Commands this object has processed.
    pub processed_seqnum: u64,
    /// The object that owns this one.
    pub owner: Option<u64>,
    /// The objects this one owns; none twice.
    pub owned: Vec<u64>,
    /// Termination acknowledgements still awaited.
    pub term_acks: i32,
}

/// The actions with which an object finishes terminating, where it is ready
/// to: all it owned has acknowledged and every command sent to it is
/// processed.
pub open spec fn finish(o: Own) -> Seq<OwnAction> {
    if o.terminating && o.processed_seqnum == o.sent_seqnum && o.term_acks == 0 {
        match o.owner {
            Some(owner) => seq![OwnAction::SendTermAck { owner }, OwnAction::Destroy],
            None => seq![OwnAction::Destroy],
        }
    } else {
        Seq::empty()
    }
}

/// A termination message to each of `objects`, in order.
pub open spec fn terms_to(objects: Seq<u64>, linger: i32) -> Seq<OwnAction> {
    objects.map_values(|o: u64| OwnAction::SendTerm { object: o, linger })
}

impl Own {
    pub open spec fn wf(&self) -> bool {
        &&& self.owned@.no_duplicates()
        &&& self.term_acks >= 0
        &&& self.terminating ==> self.owned@.len() == 0
    }

    /// Whether the fields hold what `new` gives them, but for the options.
    pub open spec fn is_fresh(&self, id: u64) -> bool {
        &&& self.id == id
        &&& !self.terminating
        &&& self.sent_seqnum == 0
        &&& self.processed_seqnum == 0
        &&& self.owner is None
        &&& self.owned@ == Seq::<u64>::empty()
        &&& self.term_acks == 0
    }

    /// A fresh object of a context, with no linger.
    pub fn new_with_context(_parent: &mut Context, _tid: u32, id: u64) -> (o: Self)
        ensures
            o.wf(),
            o.is_fresh(id),
            o.options.linger == 0,
    {
        Own {
            id,
            options: Options { linger: 0 },
            terminating: false,
            sent_seqnum: 0,
            processed_seqnum: 0,
            owner: None,
            owned: Vec::new(),
            term_acks: 0,
        }
    }

    /// A fresh object of an I/O thread, with the given options.
    pub fn new_with_io_thread(_io_thread: &mut IoThread, options: Options, id: u64) -> (o: Self)
        ensures
            o.wf(),
            o.is_fresh(id),
            o.options == options,
    {
        Own {
            id,
            options,
            terminating: false,
            sent_seqnum: 0,
            processed_seqnum: 0,
            owner: None,
            owned: Vec::new(),
            term_acks: 0,
        }
    }

    /// Records the owner; an object has one owner at most.
    pub fn set_owner(&mut self, owner: u64)
        requires
            old(self).owner is None,
        ensures
            final(self).owner == Some(owner),
            final(self).id == old(self).id,
            final(self).options == old(self).options,
            final(self).terminating == old(self).terminating,
            final(self).sent_seqnum == old(self).sent_seqnum,
            final(self).processed_seqnum == old(self).processed_seqnum,
            final(self).owned == old(self).owned,
            final(self).term_acks == old(self).term_acks,
    {
        self.owner = Some(owner);
    }

    /// Counts a command sent to this object (wrapping, as an atomic add does).
    pub fn inc_seqnum(&mut self)
        ensures
            final(self).sent_seqnum == old(self).sent_seqnum.wrapping_add(1),
            final(self).processed_seqnum == old(self).processed_seqnum,
            final(self).id == old(self).id,
            final(self).options == old(self).options,
            final(self).terminating == old(self).terminating,
            final(self).owner == old(self).owner,
            final(self).owned == old(self).owned,
            final(self).term_acks == old(self).term_acks,
    {
        self.sent_seqnum = self.sent_seqnum.wrapping_add(1);
    }

    /// Counts a command processed, and finishes terminating if that was the
    /// last thing awaited.
    pub fn process_seqnum(&mut self) -> (r: Vec<OwnAction>)
        requires
            old(self).wf(),
            old(self).processed_seqnum < u64::MAX,
        ensures
            final(self).wf(),
            final(self).processed_seqnum == old(self).processed_seqnum + 1,
            final(self).sent_seqnum == old(self).sent_seqnum,
            final(self).id == old(self).id,
            final(self).options == old(self).options,
            final(self).terminating == old(self).terminating,
            final(self).owner == old(self).owner,
            final(self).owned == old(self).owned,
            final(self).term_acks == old(self).term_acks,
            r@ == finish(*final(self)),
    {
        self.processed_seqnum += 1;
        self.check_term_acks()
    }

    /// Takes `object` on as a child: it gets this object as its owner, is
    /// plugged in, and this object is told it owns it.
    pub fn launch_child(&mut self, object: &mut Own) -> (r: Vec<OwnAction>)
        requires
            old(object).owner is None,
        ensures
            final(object).owner == Some(old(self).id),
            final(object).id == old(object).id,
            final(object).terminating == old(object).terminating,
            final(object).owned == old(object).owned,
            final(object).term_acks == old(object).term_acks,
            final(object).sent_seqnum == old(object).sent_seqnum,
            final(object).processed_seqnum == old(object).processed_seqnum,
            final(object).options == old(object).options,
            r@ == seq![
                OwnAction::ProcessPlug { object: old(object).id },
                OwnAction::SendOwn { owner: old(self).id, object: old(object).id },
            ],
    {
        object.set_owner(self.id);
        let mut r = Vec::new();
        r.push(OwnAction::ProcessPlug { object: object.id });
        r.push(OwnAction::SendOwn { owner: self.id, object: object.id });
        r
    }

    /// Asks for the termination of the child `object`.
    pub fn term_child(&mut self, object: &Own) -> (r: Vec<OwnAction>)
        requires
            old(self).wf(),
            old(self).term_acks < i32::MAX,
        ensures
            final(self).wf(),
            Self::term_req_done(*old(self), *final(self), object.id, r@),
    {
        self.process_term_req(object.id)
    }

    /// What a termination request for `object` does: nothing while
    /// terminating or where `object` is not owned; else `object` leaves the
    /// owned set, an acknowledgement is awaited and `object` is told to
    /// terminate with this object's linger.
    pub open spec fn term_req_done(old: Own, new: Own, object: u64, r: Seq<OwnAction>) -> bool {
        &&& new.id == old.id
        &&& new.options == old.options
        &&& new.terminating == old.terminating
        &&& new.sent_seqnum == old.sent_seqnum
        &&& new.processed_seqnum == old.processed_seqnum
        &&& new.owner == old.owner
        &&& if old.terminating || !old.owned@.contains(object) {
            &&& new.owned@ == old.owned@
            &&& new.term_acks == old.term_acks
            &&& r == Seq::<OwnAction>::empty()
        } else {
            &&& new.owned@ == old.owned@.remove_value(object)
            &&& new.term_acks == old.term_acks + 1
            &&& r == seq![OwnAction::SendTerm { object, linger: old.options.linger as i32 }]
        }
    }

    /// Handles a request to terminate the child `object`.
    pub fn process_term_req(&mut self, object: u64) -> (r: Vec<OwnAction>)
        requires
            old(self).wf(),
            old(self).term_acks < i32::MAX,
        ensures
            final(self).wf(),
            Self::term_req_done(*old(self), *final(self), object, r@),
    {
        let mut r = Vec::new();
        if self.terminating {
            return r;
        }
        let mut i: usize = 0;
        while i < self.owned.len() && self.owned[i] != object
            invariant
                i <= self.owned@.len(),
                forall|j: int| 0 <= j < i ==> self.owned@[j] != object,
            decreases self.owned@.len() - i,
        {
            i += 1;
        }
        if i == self.owned.len() {
            return r;
        }
        let ghost before = self.owned@;
        self.owned.remove(i);
        proof {
            assert(before[i as int] == object);
            assert(before.contains(object));
            before.index_of_first_ensures(object);
            assert(before.index_of_first(object) == Some(i as int)) by {
                let k = before.index_of_first(object)->0;
                if k < i {
                    assert(before[k] != object);
                }
                if k > i {
                    assert(before[i as int] != object);
                }
            }
            assert(self.owned@ =~= before.remove_value(object));
            assert(self.owned@.no_duplicates()) by {
                assert forall|a: int, b: int| 0 <= a < b < self.owned@.len() implies self.owned@[a] != self.owned@[b] by {
                    let a0 = if a < i { a } else { a + 1 };
                    let b0 = if b < i { b } else { b + 1 };
                    assert(self.owned@[a] == before[a0]);
                    assert(self.owned@[b] == before[b0]);
                }
            }
        }
        self.register_term_acks(1);
        r.push(OwnAction::SendTerm { object, linger: self.options.linger as i32 });
        r
    }

    /// Takes on the child `object`, or, while terminating, tells it at once
    /// to terminate and awaits its acknowledgement.
    pub fn process_own(&mut self, object: u64) -> (r: Vec<OwnAction>)
        requires
            old(self).wf(),
            old(self).term_acks < i32::MAX,
        ensures
            final(self).wf(),
            final(self).id == old(self).id,
            final(self).options == old(self).options,
            final(self).terminating == old(self).terminating,
            final(self).sent_seqnum == old(self).sent_seqnum,
            final(self).processed_seqnum == old(self).processed_seqnum,
            final(self).owner == old(self).owner,
            old(self).terminating ==> final(self).owned == old(self).owned && final(self).term_acks
                == old(self).term_acks + 1 && r@ == seq![OwnAction::SendTerm { object, linger: 0 }],
            !old(self).terminating ==> final(self).term_acks == old(self).term_acks && r@
                == Seq::<OwnAction>::empty() && final(self).owned@.to_set() == old(self).owned@.to_set().insert(object),
    {
        let mut r = Vec::new();
        if self.terminating {
            self.register_term_acks(1);
            r.push(OwnAction::SendTerm { object, linger: 0 });
            return r;
        }
        let mut i: usize = 0;
        while i < self.owned.len() && self.owned[i] != object
            invariant
                i <= self.owned@.len(),
                forall|j: int| 0 <= j < i ==> self.owned@[j] != object,
            decreases self.owned@.len() - i,
        {
            i += 1;
        }
        let ghost before = self.owned@;
        if i == self.owned.len() {
            self.owned.push(object);
            proof {
                assert(self.owned@ == before.push(object));
                assert forall|a: int, b: int| 0 <= a < b < self.owned@.len() implies self.owned@[a] != self.owned@[b] by {
                    if b == before.len() {
                        assert(before[a] != object);
                    }
                }
                assert forall|x: u64| #[trigger] self.owned@.contains(x) == (before.contains(x) || x == object) by {
                    if self.owned@.contains(x) {
                        let k = choose|k: int| 0 <= k < self.owned@.len() && self.owned@[k] == x;
                        if k < before.len() {
                            assert(before[k] == x);
                        }
                    }
                    if before.contains(x) {
                        let k = choose|k: int| 0 <= k < before.len() && before[k] == x;
                        assert(self.owned@[k] == x);
                    }
                    if x == object {
                        assert(self.owned@[before.len() as int] == x);
                    }
                }
                assert(self.owned@.to_set() =~= before.to_set().insert(object));
            }
        } else {
            proof {
                assert(before[i as int] == object);
                assert(before.to_set() =~= before.to_set().insert(object));
            }
        }
        r
    }

    /// Starts termination: directly where this object has no owner, else by
    /// asking the owner to terminate it. Nothing happens a second time.
    pub fn terminate(&mut self) -> (r: Vec<OwnAction>)
        requires
            old(self).wf(),
            old(self).term_acks + old(self).owned@.len() <= i32::MAX,
        ensures
            final(self).wf(),
            old(self).terminating ==> *final(self) == *old(self) && r@ == Seq::<OwnAction>::empty(),
            !old(self).terminating && old(self).owner is None ==> Self::term_done(
                *old(self),
                *final(self),
                old(self).options.linger as i32,
                r@,
            ),
            !old(self).terminating && old(self).owner is Some ==> *final(self) == *old(self) && r@
                == seq![OwnAction::SendTermReq { owner: old(self).owner->0, object: old(self).id }],
    {
        if self.terminating {
            return Vec::new();
        }
        match self.owner {
            None => {
                let linger = self.options.linger as i32;
                self.process_term(linger)
            },
            Some(owner) => {
                let mut r = Vec::new();
                r.push(OwnAction::SendTermReq { owner, object: self.id });
                r
            },
        }
    }

    pub fn is_terminating(&self) -> (b: bool)
        ensures
            b == self.terminating,
    {
        self.terminating
    }

    /// What termination does: every owned object is told to terminate, an
    /// acknowledgement is awaited from each, the owned set empties, and the
    /// object finishes at once where nothing is awaited.
    pub open spec fn term_done(old: Own, new: Own, linger: i32, r: Seq<OwnAction>) -> bool {
        &&& new.id == old.id
        &&& new.options == old.options
        &&& new.terminating
        &&& new.sent_seqnum == old.sent_seqnum
        &&& new.processed_seqnum == old.processed_seqnum
        &&& new.owner == old.owner
        &&& new.owned@ == Seq::<u64>::empty()
        &&& new.term_acks == old.term_acks + old.owned@.len()
        &&& r == terms_to(old.owned@, linger) + finish(new)
    }

    /// Terminates this object, lingering `linger` milliseconds.
    pub fn process_term(&mut self, linger: i32) -> (r: Vec<OwnAction>)
        requires
            old(self).wf(),
            !old(self).terminating,
            old(self).term_acks + old(self).owned@.len() <= i32::MAX,
        ensures
            final(self).wf(),
            Self::term_done(*old(self), *final(self), linger, r@),
    {
        let mut r: Vec<OwnAction> = Vec::new();
        let n = self.owned.len();
        let mut i: usize = 0;
        while i < n
            invariant
                n == self.owned@.len(),
                i <= n,
                self.owned@ == old(self).owned@,
                r@ == terms_to(self.owned@.take(i as int), linger),
            decreases n - i,
        {
            r.push(OwnAction::SendTerm { object: self.owned[i], linger });
            i += 1;
            proof {
                assert(self.owned@.take(i as int) =~= self.owned@.take(i - 1).push(self.owned@[i - 1]));
                assert(r@ =~= terms_to(self.owned@.take(i as int), linger));
            }
        }
        proof {
            assert(self.owned@.take(n as int) =~= self.owned@);
        }
        self.register_term_acks(n as i32);
        self.owned = Vec::new();
        self.terminating = true;
        let mut done = self.check_term_acks();
        r.append(&mut done);
        r
    }

    /// Awaits `count` more acknowledgements.
    pub fn register_term_acks(&mut self, count: i32)
        requires
            old(self).term_acks + count <= i32::MAX,
            old(self).term_acks + count >= i32::MIN,
        ensures
            final(self).term_acks == old(self).term_acks + count,
            final(self).id == old(self).id,
            final(self).options == old(self).options,
            final(self).terminating == old(self).terminating,
            final(self).sent_seqnum == old(self).sent_seqnum,
            final(self).processed_seqnum == old(self).processed_seqnum,
            final(self).owner == old(self).owner,
            final(self).owned == old(self).owned,
    {
        self.term_acks += count;
    }

    /// Counts one acknowledgement in, and finishes terminating if it was the
    /// last thing awaited.
    pub fn unregister_term_ack(&mut self) -> (r: Vec<OwnAction>)
        requires
            old(self).wf(),
            old(self).term_acks > 0,
        ensures
            final(self).wf(),
            final(self).term_acks == old(self).term_acks - 1,
            final(self).id == old(self).id,
            final(self).options == old(self).options,
            final(self).terminating == old(self).terminating,
            final(self).sent_seqnum == old(self).sent_seqnum,
            final(self).processed_seqnum == old(self).processed_seqnum,
            final(self).owner == old(self).owner,
            final(self).owned == old(self).owned,
            r@ == finish(*final(self)),
    {
        self.term_acks -= 1;
        self.check_term_acks()
    }

    /// A child's acknowledgement of termination.
    pub fn process_term_ack(&mut self) -> (r: Vec<OwnAction>)
        requires
            old(self).wf(),
            old(self).term_acks > 0,
        ensures
            final(self).wf(),
            final(self).term_acks == old(self).term_acks - 1,
            final(self).id == old(self).id,
            final(self).options == old(self).options,
            final(self).terminating == old(self).terminating,
            final(self).sent_seqnum == old(self).sent_seqnum,
            final(self).processed_seqnum == old(self).processed_seqnum,
            final(self).owner == old(self).owner,
            final(self).owned == old(self).owned,
            r@ == finish(*final(self)),
    {
        self.unregister_term_ack()
    }

    fn check_term_acks(&self) -> (r: Vec<OwnAction>)
        requires
            self.wf(),
        ensures
            r@ == finish(*self),
    {
        let mut r = Vec::new();
        if self.terminating && self.processed_seqnum == self.sent_seqnum && self.term_acks == 0 {
            if let Some(owner) = self.owner {
                r.push(OwnAction::SendTermAck { owner });
            }
            r.push(OwnAction::Destroy);
        }
        r
    }
}

/// Once an object with no owner has started terminating, the last of its
/// children's acknowledgements to come in, with every command processed,
/// destroys it.
pub proof fn law_last_ack_destroys(o: Own)
    requires
        o.wf(),
        o.terminating,
        o.owner is None,
        o.processed_seqnum == o.sent_seqnum,
        o.term_acks == 0,
    ensures
        finish(o) == seq![OwnAction::Destroy],
{
}

} // verus!
