use vstd::prelude::*;

use crate::address::Address;

verus! {

/// Why an operation on the registry was refused.
#[derive(Clone, Copy, Debug, PartialEq, Eq, Structural)]
pub enum WillError {
    /// The caller is not the owner named in the request.
    Unauthorized,
    /// The will was executed before.
    AlreadyExecuted,
}

/// One owner's will: the fingerprint of its document, who is named in it,
/// and whether it has been executed.
#[derive(Clone, Debug, PartialEq, Eq)]
pub struct WillData {
    pub content_hash: String,
    pub beneficiaries: Vec<Address>,
    pub executed: bool,
}

/// The mathematical value of a [`WillData`].
pub struct WillView {
    pub content_hash: Seq<char>,
    pub beneficiaries: Seq<Seq<char>>,
    pub executed: bool,
}

/// The identities that a sequence of addresses names, in order.
pub open spec fn identities(s: Seq<Address>) -> Seq<Seq<char>> {
    s.map_values(|a: Address| a@)
}

impl View for WillData {
    type V = WillView;

    open spec fn view(&self) -> WillView {
        WillView {
            content_hash: self.content_hash@,
            beneficiaries: identities(self.beneficiaries@),
            executed: self.executed,
        }
    }
}

/// A will as it stands right after it is created.
pub open spec fn fresh_will(content_hash: Seq<char>, beneficiaries: Seq<Seq<char>>) -> WillView {
    WillView { content_hash, beneficiaries, executed: false }
}

/// The same will, marked executed.
pub open spec fn executed_will(w: WillView) -> WillView {
    WillView { content_hash: w.content_hash, beneficiaries: w.beneficiaries, executed: true }
}

/// What executing one will gives: the result, and the will afterwards.
pub open spec fn execute_will_outcome(w: WillView) -> (Result<(), WillError>, WillView) {
    if w.executed {
        (Err(WillError::AlreadyExecuted), w)
    } else {
        (Ok(()), executed_will(w))
    }
}

/// The record stored for `owner`, if any.
pub open spec fn lookup(m: Map<Seq<char>, WillView>, owner: Seq<char>) -> Option<WillView> {
    if m.contains_key(owner) {
        Some(m[owner])
    } else {
        None
    }
}

/// What `create` gives on registry contents `m`: the result, and the contents afterwards.
/// Only the owner may create; a new record replaces any earlier one.
pub open spec fn create_outcome(
    m: Map<Seq<char>, WillView>,
    caller: Seq<char>,
    owner: Seq<char>,
    content_hash: Seq<char>,
    beneficiaries: Seq<Seq<char>>,
) -> (Result<(), WillError>, Map<Seq<char>, WillView>) {
    if caller == owner {
        (Ok(()), m.insert(owner, fresh_will(content_hash, beneficiaries)))
    } else {
        (Err(WillError::Unauthorized), m)
    }
}

/// What `execute` gives on registry contents `m`: without a record nothing
/// happens; an executed record is refused; otherwise the record is marked executed.
pub open spec fn execute_outcome(m: Map<Seq<char>, WillView>, owner: Seq<char>) -> (
    Result<(), WillError>,
    Map<Seq<char>, WillView>,
) {
    if !m.contains_key(owner) {
        (Ok(()), m)
    } else {
        let (r, w) = execute_will_outcome(m[owner]);
        (r, m.insert(owner, w))
    }
}

impl WillData {
    /// A will that is not executed yet.
    pub fn new(content_hash: String, beneficiaries: Vec<Address>) -> (r: WillData)
        ensures
            r@ == fresh_will(content_hash@, identities(beneficiaries@)),
    {
        WillData { content_hash, beneficiaries, executed: false }
    }

    /// An independent copy of this will.
    pub fn copy(&self) -> (r: WillData)
        ensures
            r@ == self@,
    {
        let mut beneficiaries: Vec<Address> = Vec::new();
        let mut i: usize = 0;
        while i < self.beneficiaries.len()
            invariant
                i <= self.beneficiaries@.len(),
                beneficiaries@.len() == i,
                forall|j: int| 0 <= j < i ==> #[trigger] beneficiaries@[j]@ == self.beneficiaries@[j]@,
            decreases self.beneficiaries@.len() - i,
        {
            beneficiaries.push(self.beneficiaries[i].copy());
            i = i + 1;
        }
        let r = WillData {
            content_hash: self.content_hash.clone(),
            beneficiaries,
            executed: self.executed,
        };
        assert(identities(r.beneficiaries@) =~= identities(self.beneficiaries@));
        r
    }

    /// Marks the will executed. A will that was executed before is refused and
    /// left as it was.
    pub fn mark_executed(&mut self) -> (r: Result<(), WillError>)
        ensures
            (r, final(self)@) == execute_will_outcome(old(self)@),
    {
        if self.executed {
            Err(WillError::AlreadyExecuted)
        } else {
            self.executed = true;
            Ok(())
        }
    }
}

/// One stored record and the owner it is kept under.
struct Entry {
    owner: Address,
    data: WillData,
}

/// The registry: at most one will for each owner.
pub struct Will {
    entries: Vec<Entry>,
    contents: Ghost<Map<Seq<char>, WillView>>,
}

impl View for Will {
    type V = Map<Seq<char>, WillView>;

    closed spec fn view(&self) -> Map<Seq<char>, WillView> {
        self.contents@
    }
}

impl Will {
    /// The entries hold exactly the registry's contents, one entry per owner.
    pub closed spec fn well_formed(&self) -> bool {
        &&& forall|i: int|
            #![trigger self.entries@[i]]
            0 <= i < self.entries@.len() ==> self.contents@.contains_key(self.entries@[i].owner@)
                && self.contents@[self.entries@[i].owner@] == self.entries@[i].data@
        &&& forall|k: Seq<char>|
            #[trigger] self.contents@.contains_key(k) ==> exists|i: int|
                0 <= i < self.entries@.len() && #[trigger] self.entries@[i].owner@ == k
        &&& forall|i: int, j: int|
            #![trigger self.entries@[i], self.entries@[j]]
            0 <= i < j < self.entries@.len() ==> self.entries@[i].owner@ != self.entries@[j].owner@
    }

    /// An empty registry.
    pub fn new() -> (r: Will)
        ensures
            r.well_formed(),
            r@ == Map::<Seq<char>, WillView>::empty(),
    {
        Will { entries: Vec::new(), contents: Ghost(Map::empty()) }
    }

    /// Where the record of `owner` is kept, if there is one.
    fn position(&self, owner: &Address) -> (r: Option<usize>)
        requires
            self.well_formed(),
        ensures
            match r {
                Some(i) => i < self.entries@.len() && self.entries@[i as int].owner@ == owner@,
                None => !self@.contains_key(owner@),
            },
    {
        let mut i: usize = 0;
        while i < self.entries.len()
            invariant
                self.well_formed(),
                i <= self.entries@.len(),
                forall|j: int| 0 <= j < i ==> #[trigger] self.entries@[j].owner@ != owner@,
            decreases self.entries@.len() - i,
        {
            if self.entries[i].owner.same_as(owner) {
                return Some(i);
            }
            i = i + 1;
        }
        None
    }

    /// Records a will for `owner`, replacing any earlier one. Only the owner
    /// may do so; any other caller is refused and nothing changes.
    pub fn create(
        &mut self,
        caller: &Address,
        owner: Address,
        content_hash: String,
        beneficiaries: Vec<Address>,
    ) -> (r: Result<(), WillError>)
        requires
            old(self).well_formed(),
        ensures
            final(self).well_formed(),
            (r, final(self)@) == create_outcome(
                old(self)@,
                caller@,
                owner@,
                content_hash@,
                identities(beneficiaries@),
            ),
    {
        if !caller.same_as(&owner) {
            return Err(WillError::Unauthorized);
        }
        let data = WillData::new(content_hash, beneficiaries);
        let ghost key = owner@;
        let ghost value = data@;
        let ghost before = self.entries@;
        let ghost i_new: int;
        match self.position(&owner) {
            Some(i) => {
                self.entries.set(i, Entry { owner, data });
                proof {
                    i_new = i as int;
                }
            },
            None => {
                self.entries.push(Entry { owner, data });
                proof {
                    i_new = before.len() as int;
                }
            },
        }
        self.contents = Ghost(self.contents@.insert(key, value));
        proof {
            assert(self.entries@[i_new].owner@ == key);
            assert forall|k: Seq<char>| #[trigger] self.contents@.contains_key(k) implies exists|i: int|
                0 <= i < self.entries@.len() && #[trigger] self.entries@[i].owner@ == k by {
                if k != key {
                    let j = choose|j: int| 0 <= j < before.len() && #[trigger] before[j].owner@ == k;
                    assert(self.entries@[j] == before[j]);
                }
            }
        }
        Ok(())
    }

    /// The will recorded for `owner`, if any. Anyone may read it.
    pub fn get(&self, owner: &Address) -> (r: Option<WillData>)
        requires
            self.well_formed(),
        ensures
            match r {
                Some(d) => lookup(self@, owner@) == Some(d@),
                None => lookup(self@, owner@) == None::<WillView>,
            },
    {
        match self.position(owner) {
            Some(i) => Some(self.entries[i].data.copy()),
            None => None,
        }
    }

    /// Marks the will of `owner` executed. Without a record this does nothing
    /// and succeeds; a will executed before is refused and left as it was.
    /// Whoever calls may execute.
    pub fn execute(&mut self, owner: &Address) -> (r: Result<(), WillError>)
        requires
            old(self).well_formed(),
        ensures
            final(self).well_formed(),
            (r, final(self)@) == execute_outcome(old(self)@, owner@),
    {
        match self.position(owner) {
            None => Ok(()),
            Some(i) => {
                let ghost before = self.entries@;
                let r = self.entries[i].data.mark_executed();
                self.contents = Ghost(self.contents@.insert(owner@, self.entries@[i as int].data@));
                proof {
                    assert forall|j: int| 0 <= j < before.len() && j != i implies #[trigger] self.entries@[j]
                        == before[j] by {}
                    assert forall|k: Seq<char>| #[trigger] self.contents@.contains_key(k) implies exists|j: int|
                        0 <= j < self.entries@.len() && #[trigger] self.entries@[j].owner@ == k by {
                        if k != owner@ {
                            let j = choose|j: int| 0 <= j < before.len() && #[trigger] before[j].owner@ == k;
                            assert(self.entries@[j] == before[j]);
                        } else {
                            assert(self.entries@[i as int].owner@ == k);
                        }
                    }
                }
                r
            },
        }
    }
}

} // verus!
