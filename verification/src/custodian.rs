//! The custodian's record of who owns each statechain. Co-signing for a
//! statechain is bound to its owner's key, and runs one session at a time.

use vstd::prelude::*;
use crate::bytes::bytes_eq;

verus! {

/// Why the custodian refuses.
#[derive(Clone, Copy, Debug, PartialEq, Eq, Structural)]
pub enum CustodianError {
    /// The statechain has an owner already.
    AlreadyRegistered,
    /// The custodian does not know the statechain.
    UnknownStatechain,
    /// The key is not the owner's.
    NotOwner,
    /// A session for the statechain is under way.
    SessionActive,
    /// No session for the statechain is under way.
    NoSession,
    /// The signatures of the statechain cannot be counted any further.
    CounterExhausted,
}

/// What the custodian holds of one statechain.
#[derive(Debug)]
pub struct OwnerRecord {
    pub statechain_id: String,
    /// Authentication key of the owner.
    pub owner_key: Vec<u8>,
    /// The signatures that the custodian has made for the statechain.
    pub num_sigs: u32,
    /// Whether a signing or transfer session is under way.
    pub session_open: bool,
}

/// A record as mathematical values.
pub struct RecordView {
    pub statechain_id: Seq<char>,
    pub owner_key: Seq<u8>,
    pub num_sigs: u32,
    pub session_open: bool,
}

impl View for OwnerRecord {
    type V = RecordView;

    open spec fn view(&self) -> RecordView {
        RecordView {
            statechain_id: self.statechain_id@,
            owner_key: self.owner_key@,
            num_sigs: self.num_sigs,
            session_open: self.session_open,
        }
    }
}

/// The custodian's records.
#[derive(Debug)]
pub struct Custodian {
    records: Vec<OwnerRecord>,
}

impl View for Custodian {
    type V = Seq<RecordView>;

    closed spec fn view(&self) -> Seq<RecordView> {
        self.records@.map_values(|r: OwnerRecord| r@)
    }
}

/// The record at `i` is the one of statechain `id`.
pub open spec fn is_record(records: Seq<RecordView>, i: int, id: Seq<char>) -> bool {
    0 <= i < records.len() && records[i].statechain_id == id
}

/// The custodian knows the statechain `id`.
pub open spec fn knows(records: Seq<RecordView>, id: Seq<char>) -> bool {
    exists|i: int| is_record(records, i, id)
}

/// The position of the record of statechain `id`.
pub open spec fn record_position(records: Seq<RecordView>, id: Seq<char>) -> int {
    choose|i: int| is_record(records, i, id)
}

/// The record of statechain `id`; meaningful where the custodian knows it.
pub open spec fn record_of(records: Seq<RecordView>, id: Seq<char>) -> RecordView {
    records[record_position(records, id)]
}

/// No statechain has two records.
pub open spec fn records_wf(records: Seq<RecordView>) -> bool {
    forall|i: int, j: int|
        0 <= i < j < records.len() ==> (#[trigger] records[i]).statechain_id != (
        #[trigger] records[j]).statechain_id
}

/// Where no statechain has two records, a record is found at one position
/// only.
pub proof fn lemma_record_at(records: Seq<RecordView>, i: int, id: Seq<char>)
    requires
        records_wf(records),
        is_record(records, i, id),
    ensures
        record_position(records, id) == i,
        record_of(records, id) == records[i],
{
    let k = record_position(records, id);
    if k < i {
        assert(records[k].statechain_id != records[i].statechain_id);
    } else if i < k {
        assert(records[i].statechain_id != records[k].statechain_id);
    }
}

/// What opening a session for statechain `id` with the key `key` does, or
/// the reason for refusing.
pub open spec fn begin_outcome(records: Seq<RecordView>, id: Seq<char>, key: Seq<u8>) -> Result<
    Seq<RecordView>,
    CustodianError,
> {
    if !knows(records, id) {
        Err(CustodianError::UnknownStatechain)
    } else if record_of(records, id).owner_key != key {
        Err(CustodianError::NotOwner)
    } else if record_of(records, id).session_open {
        Err(CustodianError::SessionActive)
    } else {
        Ok(
            records.update(
                record_position(records, id),
                RecordView { session_open: true, ..record_of(records, id) },
            ),
        )
    }
}

/// What closing the session of statechain `id` does: with `signed`, one more
/// signature is counted; with `new_owner`, the statechain passes to that key.
pub open spec fn end_outcome(
    records: Seq<RecordView>,
    id: Seq<char>,
    signed: bool,
    new_owner: Option<Seq<u8>>,
) -> Result<Seq<RecordView>, CustodianError> {
    if !knows(records, id) {
        Err(CustodianError::UnknownStatechain)
    } else if !record_of(records, id).session_open {
        Err(CustodianError::NoSession)
    } else if signed && record_of(records, id).num_sigs == u32::MAX {
        Err(CustodianError::CounterExhausted)
    } else {
        Ok(
            records.update(
                record_position(records, id),
                RecordView {
                    statechain_id: id,
                    owner_key: match new_owner {
                        Some(key) => key,
                        None => record_of(records, id).owner_key,
                    },
                    num_sigs: if signed {
                        (record_of(records, id).num_sigs + 1) as u32
                    } else {
                        record_of(records, id).num_sigs
                    },
                    session_open: false,
                },
            ),
        )
    }
}

impl Custodian {
    /// The custodian's invariant holds.
    pub open spec fn wf(&self) -> bool {
        records_wf(self@)
    }

    /// A custodian without statechains.
    pub fn new() -> (custodian: Custodian)
        ensures
            custodian@ == Seq::<RecordView>::empty(),
            custodian.wf(),
    {
        let custodian = Custodian { records: Vec::new() };
        assert(custodian@ =~= Seq::<RecordView>::empty());
        custodian
    }

    /// The position of the record of a statechain.
    fn find(&self, statechain_id: &String) -> (at: Option<usize>)
        ensures
            at matches Some(i) ==> is_record(self@, i as int, statechain_id@),
            at is Some <==> knows(self@, statechain_id@),
    {
        let mut i: usize = 0;
        while i < self.records.len()
            invariant
                i <= self.records@.len(),
                forall|j: int| 0 <= j < i ==> !is_record(self@, j, statechain_id@),
            decreases self.records@.len() - i,
        {
            if self.records[i].statechain_id == *statechain_id {
                assert(is_record(self@, i as int, statechain_id@));
                return Some(i);
            }
            i = i + 1;
        }
        None
    }

    /// The signatures that the custodian has made for a statechain.
    pub fn num_sigs(&self, statechain_id: &String) -> (n: Option<u32>)
        requires
            self.wf(),
        ensures
            n == (if knows(self@, statechain_id@) {
                Some(record_of(self@, statechain_id@).num_sigs)
            } else {
                None
            }),
    {
        match self.find(statechain_id) {
            Some(i) => {
                proof {
                    lemma_record_at(self@, i as int, statechain_id@);
                }
                Some(self.records[i].num_sigs)
            },
            None => None,
        }
    }

    /// Records a new statechain with its first owner.
    pub fn register(&mut self, statechain_id: String, owner_key: Vec<u8>) -> (r: Result<
        (),
        CustodianError,
    >)
        requires
            old(self).wf(),
        ensures
            final(self).wf(),
            knows(old(self)@, statechain_id@) ==> r == Err::<(), CustodianError>(
                CustodianError::AlreadyRegistered,
            ) && final(self)@ == old(self)@,
            !knows(old(self)@, statechain_id@) ==> r == Ok::<(), CustodianError>(())
                && final(self)@ == old(self)@.push(
                RecordView {
                    statechain_id: statechain_id@,
                    owner_key: owner_key@,
                    num_sigs: 0,
                    session_open: false,
                },
            ),
    {
        if self.find(&statechain_id).is_some() {
            return Err(CustodianError::AlreadyRegistered);
        }
        let ghost before = self@;
        let record = OwnerRecord { statechain_id, owner_key, num_sigs: 0, session_open: false };
        self.records.push(record);
        assert(self@ =~= before.push(record@));
        assert forall|i: int, j: int| 0 <= i < j < self@.len() implies (#[trigger] self@[i]).statechain_id
            != (#[trigger] self@[j]).statechain_id by {
            if j < before.len() {
                assert(before[i].statechain_id != before[j].statechain_id);
            } else {
                assert(!is_record(before, i, record@.statechain_id));
            }
        }
        Ok(())
    }

    /// Opens a signing or transfer session for a statechain. Only the owner
    /// can, and only while no other session for the statechain is under way:
    /// a second attempt is refused, it does not run beside the first.
    pub fn begin_session(&mut self, statechain_id: &String, key: &Vec<u8>) -> (r: Result<
        (),
        CustodianError,
    >)
        requires
            old(self).wf(),
        ensures
            final(self).wf(),
            match begin_outcome(old(self)@, statechain_id@, key@) {
                Ok(records) => r == Ok::<(), CustodianError>(()) && final(self)@ == records,
                Err(e) => r == Err::<(), CustodianError>(e) && final(self)@ == old(self)@,
            },
    {
        let at = match self.find(statechain_id) {
            Some(at) => at,
            None => {
                return Err(CustodianError::UnknownStatechain);
            },
        };
        let ghost before = self@;
        proof {
            lemma_record_at(before, at as int, statechain_id@);
        }
        if !bytes_eq(&self.records[at].owner_key, key) {
            return Err(CustodianError::NotOwner);
        }
        if self.records[at].session_open {
            return Err(CustodianError::SessionActive);
        }
        self.records[at].session_open = true;
        assert(self@ =~= before.update(
            at as int,
            RecordView { session_open: true, ..before[at as int] },
        ));
        proof {
            lemma_ids_kept(before, self@);
        }
        Ok(())
    }

    /// Closes the session of a statechain. With `signed`, the custodian has
    /// made one more signature; with `new_owner`, the statechain has passed
    /// to that key, which alone can open the next session.
    pub fn end_session(
        &mut self,
        statechain_id: &String,
        signed: bool,
        new_owner: Option<Vec<u8>>,
    ) -> (r: Result<(), CustodianError>)
        requires
            old(self).wf(),
        ensures
            final(self).wf(),
            match end_outcome(
                old(self)@,
                statechain_id@,
                signed,
                match new_owner {
                    Some(key) => Some(key@),
                    None => None,
                },
            ) {
                Ok(records) => r == Ok::<(), CustodianError>(()) && final(self)@ == records,
                Err(e) => r == Err::<(), CustodianError>(e) && final(self)@ == old(self)@,
            },
    {
        let at = match self.find(statechain_id) {
            Some(at) => at,
            None => {
                return Err(CustodianError::UnknownStatechain);
            },
        };
        let ghost before = self@;
        proof {
            lemma_record_at(before, at as int, statechain_id@);
        }
        if !self.records[at].session_open {
            return Err(CustodianError::NoSession);
        }
        if signed && self.records[at].num_sigs == u32::MAX {
            return Err(CustodianError::CounterExhausted);
        }
        if signed {
            let n = self.records[at].num_sigs + 1;
            self.records[at].num_sigs = n;
        }
        match new_owner {
            Some(key) => {
                self.records[at].owner_key = key;
            },
            None => {},
        }
        self.records[at].session_open = false;
        assert(self@.len() == before.len());
        assert(self@ =~= end_outcome(
            before,
            statechain_id@,
            signed,
            match new_owner {
                Some(key) => Some(key@),
                None => None,
            },
        )->Ok_0);
        proof {
            lemma_ids_kept(before, self@);
        }
        Ok(())
    }
}

/// A change that keeps every record's statechain keeps the records well
/// formed.
pub proof fn lemma_ids_kept(before: Seq<RecordView>, after: Seq<RecordView>)
    requires
        records_wf(before),
        after.len() == before.len(),
        forall|i: int|
            0 <= i < before.len() ==> (#[trigger] after[i]).statechain_id
                == before[i].statechain_id,
    ensures
        records_wf(after),
{
    assert forall|i: int, j: int| 0 <= i < j < after.len() implies (#[trigger] after[i]).statechain_id
        != (#[trigger] after[j]).statechain_id by {
        assert(before[i].statechain_id != before[j].statechain_id);
    }
}

/// While a session for a statechain is under way no second one is opened,
/// whoever asks.
pub proof fn lemma_one_session_at_a_time(
    records: Seq<RecordView>,
    id: Seq<char>,
    key: Seq<u8>,
    other_key: Seq<u8>,
)
    requires
        records_wf(records),
        begin_outcome(records, id, key) is Ok,
    ensures
        begin_outcome(begin_outcome(records, id, key)->Ok_0, id, other_key) is Err,
        begin_outcome(begin_outcome(records, id, key)->Ok_0, id, key) == Err::<
            Seq<RecordView>,
            CustodianError,
        >(CustodianError::SessionActive),
{
    let i = record_position(records, id);
    assert(is_record(records, i, id));
    let after = begin_outcome(records, id, key)->Ok_0;
    lemma_ids_kept(records, after);
    assert(is_record(after, i, id));
    lemma_record_at(after, i, id);
}

/// Once a statechain has passed to a new owner, the old owner's key opens
/// no session for it.
pub proof fn lemma_cosigning_is_bound_to_the_new_owner(
    records: Seq<RecordView>,
    id: Seq<char>,
    signed: bool,
    new_key: Seq<u8>,
    old_key: Seq<u8>,
)
    requires
        records_wf(records),
        end_outcome(records, id, signed, Some(new_key)) is Ok,
        old_key != new_key,
    ensures
        begin_outcome(end_outcome(records, id, signed, Some(new_key))->Ok_0, id, old_key) == Err::<
            Seq<RecordView>,
            CustodianError,
        >(CustodianError::NotOwner),
        begin_outcome(end_outcome(records, id, signed, Some(new_key))->Ok_0, id, new_key) is Ok,
{
    let i = record_position(records, id);
    assert(is_record(records, i, id));
    let after = end_outcome(records, id, signed, Some(new_key))->Ok_0;
    lemma_ids_kept(records, after);
    assert(is_record(after, i, id));
    lemma_record_at(after, i, id);
}

} // verus!
