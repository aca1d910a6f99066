//! The coins of one wallet and the states they move through: confirmation,
//! duplicates at a reused deposit address, transfer, withdrawal and
//! invalidation.

use vstd::prelude::*;
use crate::bytes::{bytes_clone, bytes_eq};
use crate::tx::OutPoint;

verus! {

/// Where a coin stands in its life.
#[derive(Clone, Copy, Debug, PartialEq, Eq, Structural)]
pub enum CoinStatus {
    /// Registered with the custodian, no confirmed output yet.
    Initialised,
    /// The canonical coin of its statechain, owned and spendable.
    Confirmed,
    /// A further output at a deposit address that already has a coin.
    Duplicated,
    /// Handed to a receiver who has not taken it yet.
    InTransfer,
    /// Taken by the receiver; no longer this wallet's.
    Transferred,
    /// A sibling was withdrawn with more signatures; cannot be transferred.
    Invalidated,
    /// Spent on chain.
    Withdrawn,
}

/// Why an operation on the coin store is refused.
#[derive(Clone, Copy, Debug, PartialEq, Eq, Structural)]
pub enum CoinError {
    /// The statechain is already in the store.
    AlreadyRegistered,
    /// No coin of that statechain (and duplicate index) is in the store.
    UnknownCoin,
    /// Another coin already stands for that output.
    OutpointTaken,
    /// The duplicate indexes or the signature counter are used up.
    CounterExhausted,
    /// The coin's status does not allow the operation.
    WrongStatus,
    /// A sibling was withdrawn, or the coin is invalidated: a receiver would
    /// refuse the transfer over the difference in signature count.
    SignatureCountMismatch,
}

impl CoinError {
    /// What the owner is told.
    pub open spec fn message_spec(&self) -> Seq<char> {
        match self {
            CoinError::AlreadyRegistered => "This statechain is already in the wallet."@,
            CoinError::UnknownCoin => "No such coin in the wallet."@,
            CoinError::OutpointTaken => "Another coin already stands for this output."@,
            CoinError::CounterExhausted => "No further duplicate or signature can be counted."@,
            CoinError::WrongStatus => "The status of the coin does not allow this."@,
            CoinError::SignatureCountMismatch => "There have been withdrawals of other coins with this same statechain_id (possibly duplicates). This transfer cannot be performed because the recipient would reject it due to the difference in signature count. This coin can be withdrawn, however."@,
        }
    }

    /// What the owner is told. For a transfer that is refused over the
    /// signature count the text says that the coin can still be withdrawn.
    pub fn message(&self) -> (text: String)
        ensures
            text@ == self.message_spec(),
    {
        match self {
            CoinError::AlreadyRegistered => String::from_str(
                "This statechain is already in the wallet.",
            ),
            CoinError::UnknownCoin => String::from_str("No such coin in the wallet."),
            CoinError::OutpointTaken => String::from_str(
                "Another coin already stands for this output.",
            ),
            CoinError::CounterExhausted => String::from_str(
                "No further duplicate or signature can be counted.",
            ),
            CoinError::WrongStatus => String::from_str(
                "The status of the coin does not allow this.",
            ),
            CoinError::SignatureCountMismatch => String::from_str(
                "There have been withdrawals of other coins with this same statechain_id (possibly duplicates). This transfer cannot be performed because the recipient would reject it due to the difference in signature count. This coin can be withdrawn, however.",
            ),
        }
    }
}

/// One output under joint control of an owner and the custodian.
#[derive(Debug)]
pub struct StatechainCoin {
    pub statechain_id: String,
    /// Public part of the owner's key share.
    pub user_pubkey: Vec<u8>,
    /// Taproot address of the aggregate of the owner's and custodian's keys.
    pub aggregated_address: String,
    /// 0 for the canonical coin, above 0 for a sibling at a reused address.
    pub duplicate_index: u32,
    pub status: CoinStatus,
    /// Amount in satoshis.
    pub amount: u64,
    /// The output that the coin stands for, once one is confirmed.
    pub utxo_outpoint: Option<OutPoint>,
    /// Depth of the coin's exit chain: the signatures made for it so far.
    pub current_backup_tx_n: u32,
}

/// A coin as mathematical values.
pub struct CoinView {
    pub statechain_id: Seq<char>,
    pub user_pubkey: Seq<u8>,
    pub aggregated_address: Seq<char>,
    pub duplicate_index: u32,
    pub status: CoinStatus,
    pub amount: u64,
    pub utxo_outpoint: Option<(Seq<u8>, u32)>,
    pub current_backup_tx_n: u32,
}

impl View for StatechainCoin {
    type V = CoinView;

    open spec fn view(&self) -> CoinView {
        CoinView {
            statechain_id: self.statechain_id@,
            user_pubkey: self.user_pubkey@,
            aggregated_address: self.aggregated_address@,
            duplicate_index: self.duplicate_index,
            status: self.status,
            amount: self.amount,
            utxo_outpoint: match self.utxo_outpoint {
                Some(o) => Some(o.key()),
                None => None,
            },
            current_backup_tx_n: self.current_backup_tx_n,
        }
    }
}

/// Some coin of the statechain `id` is among `coins`.
pub open spec fn holds_id(coins: Seq<CoinView>, id: Seq<char>) -> bool {
    exists|i: int| 0 <= i < coins.len() && (#[trigger] coins[i]).statechain_id == id
}

/// Some coin among `coins` stands for the output `key`.
pub open spec fn holds_outpoint(coins: Seq<CoinView>, key: (Seq<u8>, u32)) -> bool {
    exists|i: int| 0 <= i < coins.len() && (#[trigger] coins[i]).utxo_outpoint == Some(key)
}

/// The coin at `i` is the one of statechain `id` with duplicate index `index`.
pub open spec fn is_coin(coins: Seq<CoinView>, i: int, id: Seq<char>, index: u32) -> bool {
    &&& 0 <= i < coins.len()
    &&& coins[i].statechain_id == id
    &&& coins[i].duplicate_index == index
}

/// Some coin of statechain `id` has duplicate index `index`.
pub open spec fn holds_coin(coins: Seq<CoinView>, id: Seq<char>, index: u32) -> bool {
    exists|i: int| is_coin(coins, i, id, index)
}

/// The lowest duplicate index that no coin of statechain `id` has reached:
/// one more than the highest in use, 0 where there is none.
pub open spec fn next_duplicate_index(coins: Seq<CoinView>, id: Seq<char>) -> nat
    decreases coins.len(),
{
    if coins.len() == 0 {
        0
    } else {
        let rest = next_duplicate_index(coins.drop_last(), id);
        let last = coins.last();
        if last.statechain_id == id && last.duplicate_index + 1 > rest {
            (last.duplicate_index + 1) as nat
        } else {
            rest
        }
    }
}

/// What holds of every store: no output stands behind two coins, and no two
/// coins of one statechain share a duplicate index.
pub open spec fn store_wf(coins: Seq<CoinView>) -> bool {
    &&& forall|i: int, j: int|
        0 <= i < j < coins.len() && (#[trigger] coins[i]).utxo_outpoint is Some ==> coins[i].utxo_outpoint != (
        #[trigger] coins[j]).utxo_outpoint
    &&& forall|i: int, j: int|
        0 <= i < j < coins.len() && (#[trigger] coins[i]).statechain_id == (
        #[trigger] coins[j]).statechain_id ==> coins[i].duplicate_index
            != coins[j].duplicate_index
}

/// Every coin of statechain `id` has a duplicate index below
/// `next_duplicate_index`.
pub proof fn lemma_next_duplicate_index_unused(coins: Seq<CoinView>, id: Seq<char>)
    ensures
        forall|i: int|
            0 <= i < coins.len() && (#[trigger] coins[i]).statechain_id == id
                ==> coins[i].duplicate_index < next_duplicate_index(coins, id),
        next_duplicate_index(coins, id) == 0 <==> !holds_id(coins, id),
    decreases coins.len(),
{
    if coins.len() > 0 {
        let front = coins.drop_last();
        lemma_next_duplicate_index_unused(front, id);
        assert forall|i: int|
            0 <= i < coins.len() && (#[trigger] coins[i]).statechain_id == id
                implies coins[i].duplicate_index < next_duplicate_index(coins, id) by {
            if i < coins.len() - 1 {
                assert(front[i] == coins[i]);
            }
        }
        if holds_id(coins, id) {
            let i = choose|i: int| 0 <= i < coins.len() && (#[trigger] coins[i]).statechain_id == id;
            assert(coins[i].duplicate_index < next_duplicate_index(coins, id));
        } else {
            if holds_id(front, id) {
                let i = choose|i: int|
                    0 <= i < front.len() && (#[trigger] front[i]).statechain_id == id;
                assert(coins[i] == front[i]);
            }
            assert(coins.last() == coins[coins.len() - 1]);
        }
    }
}

/// The coins of one wallet.
#[derive(Debug)]
pub struct CoinStore {
    coins: Vec<StatechainCoin>,
}

impl View for CoinStore {
    type V = Seq<CoinView>;

    closed spec fn view(&self) -> Seq<CoinView> {
        self.coins@.map_values(|c: StatechainCoin| c@)
    }
}

impl CoinStore {
    /// The store's invariant holds.
    pub open spec fn wf(&self) -> bool {
        store_wf(self@)
    }

    /// A store without coins.
    pub fn new() -> (store: CoinStore)
        ensures
            store@ == Seq::<CoinView>::empty(),
            store.wf(),
    {
        let store = CoinStore { coins: Vec::new() };
        assert(store@ =~= Seq::<CoinView>::empty());
        store
    }

    /// The number of coins, of every status.
    pub fn len(&self) -> (n: usize)
        ensures
            n == self@.len(),
    {
        self.coins.len()
    }

    /// The coin at position `i`, in the order in which the coins came.
    pub fn get(&self, i: usize) -> (coin: Option<&StatechainCoin>)
        ensures
            i < self@.len() ==> coin is Some && coin->Some_0@ == self@[i as int],
            i >= self@.len() ==> coin is None,
    {
        if i < self.coins.len() {
            Some(&self.coins[i])
        } else {
            None
        }
    }

    /// Whether a coin of the statechain is in the store.
    pub fn has_statechain(&self, statechain_id: &String) -> (found: bool)
        ensures
            found == holds_id(self@, statechain_id@),
    {
        let mut i: usize = 0;
        while i < self.coins.len()
            invariant
                i <= self.coins@.len(),
                forall|j: int| 0 <= j < i ==> (#[trigger] self@[j]).statechain_id != statechain_id@,
            decreases self.coins@.len() - i,
        {
            if self.coins[i].statechain_id == *statechain_id {
                assert(self@[i as int].statechain_id == statechain_id@);
                return true;
            }
            i = i + 1;
        }
        false
    }

    /// Whether a coin in the store stands for the output.
    pub fn has_outpoint(&self, outpoint: &OutPoint) -> (found: bool)
        ensures
            found == holds_outpoint(self@, outpoint.key()),
    {
        let mut i: usize = 0;
        while i < self.coins.len()
            invariant
                i <= self.coins@.len(),
                forall|j: int| 0 <= j < i ==> (#[trigger] self@[j]).utxo_outpoint != Some(outpoint.key()),
            decreases self.coins@.len() - i,
        {
            match &self.coins[i].utxo_outpoint {
                Some(o) => {
                    if bytes_eq(&o.txid, &outpoint.txid) && o.vout == outpoint.vout {
                        assert(self@[i as int].utxo_outpoint == Some(outpoint.key()));
                        return true;
                    }
                },
                None => {},
            }
            i = i + 1;
        }
        false
    }

    /// The position of the coin of a statechain with a duplicate index.
    pub fn find(&self, statechain_id: &String, duplicate_index: u32) -> (at: Option<usize>)
        ensures
            at matches Some(i) ==> is_coin(self@, i as int, statechain_id@, duplicate_index),
            at is Some <==> holds_coin(self@, statechain_id@, duplicate_index),
    {
        let mut i: usize = 0;
        while i < self.coins.len()
            invariant
                i <= self.coins@.len(),
                forall|j: int| 0 <= j < i ==> !is_coin(self@, j, statechain_id@, duplicate_index),
            decreases self.coins@.len() - i,
        {
            if self.coins[i].duplicate_index == duplicate_index && self.coins[i].statechain_id
                == *statechain_id {
                assert(is_coin(self@, i as int, statechain_id@, duplicate_index));
                return Some(i);
            }
            i = i + 1;
        }
        None
    }

    /// The status of the coin of a statechain with a duplicate index.
    pub fn status_of(&self, statechain_id: &String, duplicate_index: u32) -> (status: Option<
        CoinStatus,
    >)
        ensures
            status is Some <==> holds_coin(self@, statechain_id@, duplicate_index),
            status matches Some(s) ==> exists|i: int|
                is_coin(self@, i, statechain_id@, duplicate_index) && self@[i].status == s,
    {
        match self.find(statechain_id, duplicate_index) {
            Some(i) => Some(self.coins[i].status),
            None => None,
        }
    }

    /// The duplicate index that the next coin of the statechain would get.
    pub fn next_index(&self, statechain_id: &String) -> (next: u64)
        ensures
            next == next_duplicate_index(self@, statechain_id@),
    {
        let mut next: u64 = 0;
        let mut i: usize = 0;
        while i < self.coins.len()
            invariant
                i <= self.coins@.len(),
                next == next_duplicate_index(self@.subrange(0, i as int), statechain_id@),
                next <= u32::MAX as u64 + 1,
            decreases self.coins@.len() - i,
        {
            proof {
                let upto = self@.subrange(0, i + 1);
                assert(upto.drop_last() =~= self@.subrange(0, i as int));
                assert(upto.last() == self@[i as int]);
            }
            if self.coins[i].statechain_id == *statechain_id && self.coins[i].duplicate_index as u64
                + 1 > next {
                next = self.coins[i].duplicate_index as u64 + 1;
            }
            i = i + 1;
        }
        assert(self@.subrange(0, i as int) =~= self@);
        next
    }

    /// Registers a deposit: the statechain gets its canonical coin, which
    /// waits for an output. A statechain that the store already holds is
    /// refused and the store stays as it was.
    pub fn register_deposit(
        &mut self,
        statechain_id: String,
        user_pubkey: Vec<u8>,
        aggregated_address: String,
    ) -> (r: Result<(), CoinError>)
        requires
            old(self).wf(),
        ensures
            final(self).wf(),
            holds_id(old(self)@, statechain_id@) ==> r == Err::<(), CoinError>(
                CoinError::AlreadyRegistered,
            ) && final(self)@ == old(self)@,
            !holds_id(old(self)@, statechain_id@) ==> r == Ok::<(), CoinError>(()) && final(self)@
                == old(self)@.push(
                initial_coin(statechain_id@, user_pubkey@, aggregated_address@),
            ),
    {
        if self.has_statechain(&statechain_id) {
            return Err(CoinError::AlreadyRegistered);
        }
        let ghost before = self@;
        let coin = StatechainCoin {
            statechain_id,
            user_pubkey,
            aggregated_address,
            duplicate_index: 0,
            status: CoinStatus::Initialised,
            amount: 0,
            utxo_outpoint: None,
            current_backup_tx_n: 0,
        };
        self.coins.push(coin);
        assert(self@ =~= before.push(coin@));
        Ok(())
    }

    /// Records an output that was confirmed at the deposit address of a
    /// statechain. The first one makes the canonical coin `Confirmed`; each
    /// further one becomes a new coin, `Duplicated`, with the next duplicate
    /// index. Returns the duplicate index of the coin that took the output.
    pub fn confirm_utxo(&mut self, statechain_id: &String, outpoint: OutPoint, amount: u64) -> (r:
        Result<u32, CoinError>)
        requires
            old(self).wf(),
        ensures
            final(self).wf(),
            match confirm_outcome(old(self)@, statechain_id@, outpoint.key(), amount) {
                Ok((coins, index)) => r == Ok::<u32, CoinError>(index) && final(self)@ == coins,
                Err(e) => r == Err::<u32, CoinError>(e) && final(self)@ == old(self)@,
            },
    {
        let at = match self.find(statechain_id, 0) {
            Some(at) => at,
            None => {
                return Err(CoinError::UnknownCoin);
            },
        };
        if self.has_outpoint(&outpoint) {
            return Err(CoinError::OutpointTaken);
        }
        let ghost before = self@;
        proof {
            lemma_coin_at(before, at as int, statechain_id@, 0);
        }
        if self.coins[at].status == CoinStatus::Initialised {
            self.coins[at].status = CoinStatus::Confirmed;
            self.coins[at].amount = amount;
            self.coins[at].utxo_outpoint = Some(outpoint);
            assert(self@ =~= before.update(
                at as int,
                CoinView {
                    status: CoinStatus::Confirmed,
                    amount,
                    utxo_outpoint: Some(outpoint.key()),
                    ..before[at as int]
                },
            ));
            return Ok(0);
        }
        let next = self.next_index(statechain_id);
        if next > u32::MAX as u64 {
            return Err(CoinError::CounterExhausted);
        }
        proof {
            lemma_next_duplicate_index_unused(before, statechain_id@);
        }
        let coin = StatechainCoin {
            statechain_id: self.coins[at].statechain_id.clone(),
            user_pubkey: bytes_clone(&self.coins[at].user_pubkey),
            aggregated_address: self.coins[at].aggregated_address.clone(),
            duplicate_index: next as u32,
            status: CoinStatus::Duplicated,
            amount,
            utxo_outpoint: Some(outpoint),
            current_backup_tx_n: 0,
        };
        self.coins.push(coin);
        assert(self@ =~= before.push(coin@));
        Ok(next as u32)
    }
}

/// The canonical coin of a statechain that was just registered.
pub open spec fn initial_coin(id: Seq<char>, user_pubkey: Seq<u8>, address: Seq<char>) -> CoinView {
    CoinView {
        statechain_id: id,
        user_pubkey,
        aggregated_address: address,
        duplicate_index: 0,
        status: CoinStatus::Initialised,
        amount: 0,
        utxo_outpoint: None,
        current_backup_tx_n: 0,
    }
}

/// The coin of statechain `id` with duplicate index `index`; meaningful where
/// the store holds one.
pub open spec fn coin_at(coins: Seq<CoinView>, id: Seq<char>, index: u32) -> CoinView {
    coins[position_of(coins, id, index)]
}

/// The position of the coin of statechain `id` with duplicate index `index`.
pub open spec fn position_of(coins: Seq<CoinView>, id: Seq<char>, index: u32) -> int {
    choose|i: int| is_coin(coins, i, id, index)
}

/// In a well-formed store a coin is found at one position only.
pub proof fn lemma_coin_at(coins: Seq<CoinView>, i: int, id: Seq<char>, index: u32)
    requires
        store_wf(coins),
        is_coin(coins, i, id, index),
    ensures
        position_of(coins, id, index) == i,
        coin_at(coins, id, index) == coins[i],
{
    let k = position_of(coins, id, index);
    assert(is_coin(coins, k, id, index));
    if k < i {
        assert(coins[k].duplicate_index != coins[i].duplicate_index);
    } else if i < k {
        assert(coins[i].duplicate_index != coins[k].duplicate_index);
    }
}

/// What confirming an output for statechain `id` does: the new coins and the
/// duplicate index that took the output, or the reason for refusing.
pub open spec fn confirm_outcome(
    coins: Seq<CoinView>,
    id: Seq<char>,
    key: (Seq<u8>, u32),
    amount: u64,
) -> Result<(Seq<CoinView>, u32), CoinError> {
    if !holds_coin(coins, id, 0) {
        Err(CoinError::UnknownCoin)
    } else if holds_outpoint(coins, key) {
        Err(CoinError::OutpointTaken)
    } else if coin_at(coins, id, 0).status == CoinStatus::Initialised {
        Ok(
            (
                coins.update(
                    position_of(coins, id, 0),
                    CoinView {
                        status: CoinStatus::Confirmed,
                        amount,
                        utxo_outpoint: Some(key),
                        ..coin_at(coins, id, 0)
                    },
                ),
                0,
            ),
        )
    } else if next_duplicate_index(coins, id) > u32::MAX {
        Err(CoinError::CounterExhausted)
    } else {
        Ok(
            (
                coins.push(
                    CoinView {
                        duplicate_index: next_duplicate_index(coins, id) as u32,
                        status: CoinStatus::Duplicated,
                        amount,
                        utxo_outpoint: Some(key),
                        current_backup_tx_n: 0,
                        ..coin_at(coins, id, 0)
                    },
                ),
                next_duplicate_index(coins, id) as u32,
            ),
        )
    }
}

/// The coin belongs to statechain `id` and is the canonical coin or one of
/// the chosen duplicates.
pub open spec fn is_selected(c: CoinView, id: Seq<char>, chosen: Seq<u32>) -> bool {
    c.statechain_id == id && (c.duplicate_index == 0 || chosen.contains(c.duplicate_index))
}

/// The coin stands in the way of a transfer of statechain `id`: a sibling was
/// withdrawn, or a coin that should move is invalidated.
pub open spec fn blocks_transfer(c: CoinView, id: Seq<char>, chosen: Seq<u32>) -> bool {
    c.statechain_id == id && (c.status == CoinStatus::Withdrawn || (is_selected(c, id, chosen)
        && c.status == CoinStatus::Invalidated))
}

/// The coin should move but is neither owned nor already on its way.
pub open spec fn unfit_for_transfer(c: CoinView, id: Seq<char>, chosen: Seq<u32>) -> bool {
    is_selected(c, id, chosen) && (c.status == CoinStatus::Initialised || c.status
        == CoinStatus::Transferred)
}

/// The coin should move and get a signature, but its counter is at its end.
pub open spec fn exhausted_for_transfer(c: CoinView, id: Seq<char>, chosen: Seq<u32>) -> bool {
    is_selected(c, id, chosen) && (c.status == CoinStatus::Confirmed || c.status
        == CoinStatus::Duplicated) && c.current_backup_tx_n == u32::MAX
}

/// The coin after a transfer of statechain `id` with the chosen duplicates
/// was sent: a selected coin is `InTransfer`, with one more signature if it
/// was not on its way already; any other coin is as before.
pub open spec fn sent_coin(c: CoinView, id: Seq<char>, chosen: Seq<u32>) -> CoinView {
    if !is_selected(c, id, chosen) {
        c
    } else if c.status == CoinStatus::InTransfer {
        c
    } else {
        CoinView {
            status: CoinStatus::InTransfer,
            current_backup_tx_n: (c.current_backup_tx_n + 1) as u32,
            ..c
        }
    }
}

/// What sending statechain `id` with the chosen duplicates does to the store,
/// or the reason for refusing.
pub open spec fn send_outcome(coins: Seq<CoinView>, id: Seq<char>, chosen: Seq<u32>) -> Result<
    Seq<CoinView>,
    CoinError,
> {
    if !holds_coin(coins, id, 0) || exists|k: int|
        0 <= k < chosen.len() && !holds_coin(coins, id, #[trigger] chosen[k]) {
        Err(CoinError::UnknownCoin)
    } else if exists|i: int| 0 <= i < coins.len() && blocks_transfer(#[trigger] coins[i], id, chosen) {
        Err(CoinError::SignatureCountMismatch)
    } else if exists|i: int|
        0 <= i < coins.len() && unfit_for_transfer(#[trigger] coins[i], id, chosen) {
        Err(CoinError::WrongStatus)
    } else if exists|i: int|
        0 <= i < coins.len() && exhausted_for_transfer(#[trigger] coins[i], id, chosen) {
        Err(CoinError::CounterExhausted)
    } else {
        Ok(coins.map_values(|c: CoinView| sent_coin(c, id, chosen)))
    }
}

/// The coin after the receiver took statechain `id`: what was `InTransfer`
/// is `Transferred`.
pub open spec fn handed_over_coin(c: CoinView, id: Seq<char>) -> CoinView {
    if c.statechain_id == id && c.status == CoinStatus::InTransfer {
        CoinView { status: CoinStatus::Transferred, ..c }
    } else {
        c
    }
}

/// Whether the coin can be withdrawn: it has an output and is neither on its
/// way to a receiver nor withdrawn already.
pub open spec fn withdrawable(status: CoinStatus) -> bool {
    status == CoinStatus::Confirmed || status == CoinStatus::Duplicated || status
        == CoinStatus::Transferred || status == CoinStatus::Invalidated
}

/// The coin after the coin `(id, index)` was withdrawn with `signatures`
/// signatures: the withdrawn coin itself is `Withdrawn` with that count; a
/// sibling with strictly fewer signatures is `Invalidated`, unless it was
/// withdrawn before; any other coin is as before.
pub open spec fn coin_after_withdrawal(c: CoinView, id: Seq<char>, index: u32, signatures: u32) -> CoinView {
    if c.statechain_id != id {
        c
    } else if c.duplicate_index == index {
        CoinView { status: CoinStatus::Withdrawn, current_backup_tx_n: signatures, ..c }
    } else if c.status != CoinStatus::Withdrawn && c.current_backup_tx_n < signatures {
        CoinView { status: CoinStatus::Invalidated, ..c }
    } else {
        c
    }
}

/// What withdrawing the coin `(id, index)` does to the store, or the reason
/// for refusing. The withdrawal is one more signature for the coin.
pub open spec fn withdraw_outcome(coins: Seq<CoinView>, id: Seq<char>, index: u32) -> Result<
    Seq<CoinView>,
    CoinError,
> {
    if !holds_coin(coins, id, index) {
        Err(CoinError::UnknownCoin)
    } else if !withdrawable(coin_at(coins, id, index).status) {
        Err(CoinError::WrongStatus)
    } else if coin_at(coins, id, index).current_backup_tx_n == u32::MAX {
        Err(CoinError::CounterExhausted)
    } else {
        Ok(
            coins.map_values(
                |c: CoinView|
                    coin_after_withdrawal(
                        c,
                        id,
                        index,
                        (coin_at(coins, id, index).current_backup_tx_n + 1) as u32,
                    ),
            ),
        )
    }
}

/// One output of a statechain that a transfer brings.
#[derive(Debug)]
pub struct IncomingCoin {
    pub utxo_outpoint: OutPoint,
    /// Amount in satoshis.
    pub amount: u64,
    /// Depth of the exit chain that came with the output.
    pub backup_tx_n: u32,
}

/// An incoming output as mathematical values.
pub struct IncomingView {
    pub utxo_outpoint: (Seq<u8>, u32),
    pub amount: u64,
    pub backup_tx_n: u32,
}

impl View for IncomingCoin {
    type V = IncomingView;

    open spec fn view(&self) -> IncomingView {
        IncomingView { utxo_outpoint: self.utxo_outpoint.key(), amount: self.amount, backup_tx_n: self.backup_tx_n }
    }
}

/// The outputs of a transfer as mathematical values.
pub open spec fn incoming_views(incoming: Seq<IncomingCoin>) -> Seq<IncomingView> {
    incoming.map_values(|c: IncomingCoin| c@)
}

/// Some output that the transfer brings is in the store already, or the
/// transfer brings one output twice.
pub open spec fn outpoint_clash(coins: Seq<CoinView>, incoming: Seq<IncomingView>) -> bool {
    ||| exists|k: int| 0 <= k < incoming.len() && holds_outpoint(coins, (#[trigger] incoming[k]).utxo_outpoint)
    ||| exists|k: int, l: int|
        0 <= k < l < incoming.len() && (#[trigger] incoming[k]).utxo_outpoint == (#[trigger] incoming[l]).utxo_outpoint
}

/// The coin that the receiver holds for the `k`-th output of a transfer: the
/// first is the canonical coin, `Confirmed`; the others are `Duplicated`, and
/// numbered as they come.
pub open spec fn received_coin(
    id: Seq<char>,
    user_pubkey: Seq<u8>,
    address: Seq<char>,
    incoming: Seq<IncomingView>,
    k: int,
) -> CoinView {
    CoinView {
        statechain_id: id,
        user_pubkey,
        aggregated_address: address,
        duplicate_index: k as u32,
        status: if k == 0 {
            CoinStatus::Confirmed
        } else {
            CoinStatus::Duplicated
        },
        amount: incoming[k].amount,
        utxo_outpoint: Some(incoming[k].utxo_outpoint),
        current_backup_tx_n: incoming[k].backup_tx_n,
    }
}

/// What receiving statechain `id` does to the store and whether coins were
/// added, or the reason for refusing. A statechain that the store holds
/// already is received as a no-op.
pub open spec fn receive_outcome(
    coins: Seq<CoinView>,
    id: Seq<char>,
    user_pubkey: Seq<u8>,
    address: Seq<char>,
    incoming: Seq<IncomingView>,
) -> Result<(Seq<CoinView>, bool), CoinError> {
    if holds_id(coins, id) {
        Ok((coins, false))
    } else if incoming.len() == 0 {
        Err(CoinError::UnknownCoin)
    } else if incoming.len() > u32::MAX {
        Err(CoinError::CounterExhausted)
    } else if outpoint_clash(coins, incoming) {
        Err(CoinError::OutpointTaken)
    } else {
        Ok(
            (
                coins + Seq::new(
                    incoming.len(),
                    |k: int| received_coin(id, user_pubkey, address, incoming, k),
                ),
                true,
            ),
        )
    }
}

/// The store after an attempt to receive: as `receive_outcome` says on
/// success, unchanged on refusal.
pub open spec fn store_after_receive(
    coins: Seq<CoinView>,
    id: Seq<char>,
    user_pubkey: Seq<u8>,
    address: Seq<char>,
    incoming: Seq<IncomingView>,
) -> Seq<CoinView> {
    match receive_outcome(coins, id, user_pubkey, address, incoming) {
        Ok((after, _)) => after,
        Err(_) => coins,
    }
}

/// Receiving the same transfer twice leaves the store as receiving it once
/// does, and the second time adds no coin.
pub proof fn lemma_receive_idempotent(
    coins: Seq<CoinView>,
    id: Seq<char>,
    user_pubkey: Seq<u8>,
    address: Seq<char>,
    incoming: Seq<IncomingView>,
)
    ensures
        ({
            let once = store_after_receive(coins, id, user_pubkey, address, incoming);
            let twice = store_after_receive(once, id, user_pubkey, address, incoming);
            &&& twice == once
            &&& receive_outcome(coins, id, user_pubkey, address, incoming) is Ok ==> receive_outcome(
                once,
                id,
                user_pubkey,
                address,
                incoming,
            ) == Ok::<(Seq<CoinView>, bool), CoinError>((once, false))
        }),
{
    let once = store_after_receive(coins, id, user_pubkey, address, incoming);
    match receive_outcome(coins, id, user_pubkey, address, incoming) {
        Ok((after, added)) => {
            if added {
                let fresh = Seq::new(
                    incoming.len(),
                    |k: int| received_coin(id, user_pubkey, address, incoming, k),
                );
                assert(after == coins + fresh);
                assert(after[coins.len() as int] == fresh[0]);
                assert(after[coins.len() as int].statechain_id == id);
                assert(holds_id(after, id));
            }
        },
        Err(_) => {},
    }
}

/// A transfer that is sent moves the canonical coin and the chosen duplicates
/// to `InTransfer` and leaves every other coin as it was.
pub proof fn lemma_send_moves_exactly_the_selected(
    coins: Seq<CoinView>,
    id: Seq<char>,
    chosen: Seq<u32>,
    i: int,
)
    requires
        send_outcome(coins, id, chosen) is Ok,
        0 <= i < coins.len(),
    ensures
        ({
            let after = send_outcome(coins, id, chosen)->Ok_0;
            &&& after.len() == coins.len()
            &&& is_selected(coins[i], id, chosen) ==> after[i].status == CoinStatus::InTransfer
            &&& !is_selected(coins[i], id, chosen) ==> after[i] == coins[i]
        }),
{
}

/// The store after the outputs `outputs`, each an outpoint with its amount,
/// were confirmed one after the other for statechain `id`; a confirmation
/// that is refused changes nothing.
pub open spec fn after_confirming(
    coins: Seq<CoinView>,
    id: Seq<char>,
    outputs: Seq<((Seq<u8>, u32), u64)>,
) -> Seq<CoinView>
    decreases outputs.len(),
{
    if outputs.len() == 0 {
        coins
    } else {
        let before = after_confirming(coins, id, outputs.drop_last());
        match confirm_outcome(before, id, outputs.last().0, outputs.last().1) {
            Ok((after, _)) => after,
            Err(_) => before,
        }
    }
}

/// The coin that stands for the `k`-th output at the deposit address of a
/// statechain: the first is the canonical coin, `Confirmed`; every further
/// one is `Duplicated`, with its place among the outputs as duplicate index.
pub open spec fn deposit_coin(
    id: Seq<char>,
    user_pubkey: Seq<u8>,
    address: Seq<char>,
    outputs: Seq<((Seq<u8>, u32), u64)>,
    k: int,
) -> CoinView {
    CoinView {
        statechain_id: id,
        user_pubkey,
        aggregated_address: address,
        duplicate_index: k as u32,
        status: if k == 0 {
            CoinStatus::Confirmed
        } else {
            CoinStatus::Duplicated
        },
        amount: outputs[k].1,
        utxo_outpoint: Some(outputs[k].0),
        current_backup_tx_n: 0,
    }
}

/// The coins of a statechain that was registered and got the outputs
/// `outputs`: the canonical coin that waits, where there is no output yet,
/// else one coin for each output.
pub open spec fn deposit_coins(
    id: Seq<char>,
    user_pubkey: Seq<u8>,
    address: Seq<char>,
    outputs: Seq<((Seq<u8>, u32), u64)>,
) -> Seq<CoinView> {
    if outputs.len() == 0 {
        seq![initial_coin(id, user_pubkey, address)]
    } else {
        Seq::new(outputs.len(), |k: int| deposit_coin(id, user_pubkey, address, outputs, k))
    }
}

/// The outputs are new to the store and differ from one another.
pub open spec fn fresh_outputs(coins: Seq<CoinView>, outputs: Seq<((Seq<u8>, u32), u64)>) -> bool {
    &&& forall|k: int| 0 <= k < outputs.len() ==> !holds_outpoint(coins, (#[trigger] outputs[k]).0)
    &&& forall|k: int, l: int|
        0 <= k < l < outputs.len() ==> (#[trigger] outputs[k]).0 != (#[trigger] outputs[l]).0
}

/// A store that holds nothing of a statechain, followed by the coins of its
/// deposits, is well formed, and the next duplicate index of the statechain
/// is the number of its coins.
proof fn lemma_deposits_well_formed(
    coins: Seq<CoinView>,
    id: Seq<char>,
    user_pubkey: Seq<u8>,
    address: Seq<char>,
    outputs: Seq<((Seq<u8>, u32), u64)>,
)
    requires
        store_wf(coins),
        !holds_id(coins, id),
        fresh_outputs(coins, outputs),
        outputs.len() <= 0x1_0000_0000,
    ensures
        store_wf(coins + deposit_coins(id, user_pubkey, address, outputs)),
        outputs.len() >= 1 ==> next_duplicate_index(
            coins + deposit_coins(id, user_pubkey, address, outputs),
            id,
        ) == outputs.len(),
    decreases outputs.len(),
{
    let made = deposit_coins(id, user_pubkey, address, outputs);
    let all = coins + made;
    assert forall|i: int, j: int|
        0 <= i < j < all.len() && (#[trigger] all[i]).utxo_outpoint is Some implies all[i].utxo_outpoint
        != (#[trigger] all[j]).utxo_outpoint by {
        if j < coins.len() {
            assert(coins[i].utxo_outpoint != coins[j].utxo_outpoint);
        } else if outputs.len() > 0 {
            if i < coins.len() {
                assert(!holds_outpoint(coins, outputs[j - coins.len()].0));
                assert(all[i] == coins[i]);
            } else {
                assert(outputs[i - coins.len()].0 != outputs[j - coins.len()].0);
            }
        }
    }
    assert forall|i: int, j: int|
        0 <= i < j < all.len() && (#[trigger] all[i]).statechain_id == (
        #[trigger] all[j]).statechain_id implies all[i].duplicate_index
        != all[j].duplicate_index by {
        if j < coins.len() {
            assert(coins[i].duplicate_index != coins[j].duplicate_index);
        } else if i < coins.len() {
            assert(all[i] == coins[i]);
            assert(coins[i].statechain_id != id);
        }
    }
    if outputs.len() >= 1 {
        let fewer = outputs.drop_last();
        let last = deposit_coin(id, user_pubkey, address, outputs, outputs.len() - 1);
        assert(all.last() == last);
        if outputs.len() == 1 {
            assert(all.drop_last() =~= coins);
            lemma_next_duplicate_index_unused(coins, id);
        } else {
            assert(fresh_outputs(coins, fewer)) by {
                assert forall|k: int| 0 <= k < fewer.len() implies !holds_outpoint(
                    coins,
                    (#[trigger] fewer[k]).0,
                ) by {
                    assert(fewer[k] == outputs[k]);
                }
                assert forall|k: int, l: int| 0 <= k < l < fewer.len() implies (
                #[trigger] fewer[k]).0 != (#[trigger] fewer[l]).0 by {
                    assert(fewer[k] == outputs[k]);
                    assert(fewer[l] == outputs[l]);
                }
            }
            lemma_deposits_well_formed(coins, id, user_pubkey, address, fewer);
            let before = coins + deposit_coins(id, user_pubkey, address, fewer);
            assert(all.drop_last() =~= before) by {
                assert forall|i: int| 0 <= i < before.len() implies all.drop_last()[i]
                    == before[i] by {
                    if i >= coins.len() {
                        assert(fewer[i - coins.len()] == outputs[i - coins.len()]);
                    }
                }
            }
        }
    }
}

/// Deposits to one address: a statechain that is registered in a store that
/// holds nothing of it, and then gets outputs that are new and differ from
/// one another, has one coin for each output, in the order in which they
/// came, with the duplicate indexes 0, 1, 2 and so on; the first is
/// `Confirmed`, every other `Duplicated`, and what the store held before is
/// as it was.
pub proof fn lemma_deposits_to_one_address(
    coins: Seq<CoinView>,
    id: Seq<char>,
    user_pubkey: Seq<u8>,
    address: Seq<char>,
    outputs: Seq<((Seq<u8>, u32), u64)>,
)
    requires
        store_wf(coins),
        !holds_id(coins, id),
        fresh_outputs(coins, outputs),
        outputs.len() <= 0x1_0000_0000,
    ensures
        after_confirming(coins.push(initial_coin(id, user_pubkey, address)), id, outputs) == coins
            + deposit_coins(id, user_pubkey, address, outputs),
        store_wf(coins + deposit_coins(id, user_pubkey, address, outputs)),
    decreases outputs.len(),
{
    let start = coins.push(initial_coin(id, user_pubkey, address));
    lemma_deposits_well_formed(coins, id, user_pubkey, address, outputs);
    if outputs.len() == 0 {
        assert(start =~= coins + deposit_coins(id, user_pubkey, address, outputs));
    } else {
        let fewer = outputs.drop_last();
        assert(fresh_outputs(coins, fewer)) by {
            assert forall|k: int| 0 <= k < fewer.len() implies !holds_outpoint(
                coins,
                (#[trigger] fewer[k]).0,
            ) by {
                assert(fewer[k] == outputs[k]);
            }
            assert forall|k: int, l: int| 0 <= k < l < fewer.len() implies (#[trigger] fewer[k]).0
                != (#[trigger] fewer[l]).0 by {
                assert(fewer[k] == outputs[k]);
                assert(fewer[l] == outputs[l]);
            }
        }
        lemma_deposits_to_one_address(coins, id, user_pubkey, address, fewer);
        let before = coins + deposit_coins(id, user_pubkey, address, fewer);
        let n = coins.len() as int;
        let key = outputs.last().0;
        let amount = outputs.last().1;
        assert(before == after_confirming(start, id, fewer));
        assert(is_coin(before, n, id, 0)) by {
            if fewer.len() > 0 {
                assert(before[n] == deposit_coin(id, user_pubkey, address, fewer, 0));
            }
        }
        lemma_coin_at(before, n, id, 0);
        assert(!holds_outpoint(before, key)) by {
            if holds_outpoint(before, key) {
                let i = choose|i: int|
                    0 <= i < before.len() && (#[trigger] before[i]).utxo_outpoint == Some(key);
                if i < n {
                    assert(before[i] == coins[i]);
                    assert(holds_outpoint(coins, outputs[outputs.len() - 1].0));
                } else if fewer.len() > 0 {
                    assert(fewer[i - n] == outputs[i - n]);
                    assert(outputs[i - n].0 != outputs[outputs.len() - 1].0);
                }
            }
        }
        let wanted = coins + deposit_coins(id, user_pubkey, address, outputs);
        if fewer.len() == 0 {
            assert(before[n].status == CoinStatus::Initialised);
            assert(before.update(
                n,
                CoinView {
                    status: CoinStatus::Confirmed,
                    amount,
                    utxo_outpoint: Some(key),
                    ..before[n]
                },
            ) =~= wanted);
        } else {
            assert(before[n] == deposit_coin(id, user_pubkey, address, fewer, 0));
            lemma_deposits_well_formed(coins, id, user_pubkey, address, fewer);
            assert(next_duplicate_index(before, id) == fewer.len());
            assert(before.push(
                CoinView {
                    duplicate_index: fewer.len() as u32,
                    status: CoinStatus::Duplicated,
                    amount,
                    utxo_outpoint: Some(key),
                    current_backup_tx_n: 0,
                    ..before[n]
                },
            ) =~= wanted) by {
                assert forall|i: int| n <= i < before.len() implies before[i] == wanted[i] by {
                    assert(fewer[i - n] == outputs[i - n]);
                }
            }
        }
    }
}

/// Once the receiver has taken a transfer that was sent, every coin that was
/// sent is `Transferred` at the sender, and a coin that was left out and was
/// not on its way before is as it was.
pub proof fn lemma_sent_coins_end_transferred(
    coins: Seq<CoinView>,
    id: Seq<char>,
    chosen: Seq<u32>,
    i: int,
)
    requires
        send_outcome(coins, id, chosen) is Ok,
        0 <= i < coins.len(),
    ensures
        ({
            let sent = send_outcome(coins, id, chosen)->Ok_0;
            let done = sent.map_values(|c: CoinView| handed_over_coin(c, id));
            &&& done.len() == coins.len()
            &&& is_selected(coins[i], id, chosen) ==> done[i].status == CoinStatus::Transferred
            &&& !is_selected(coins[i], id, chosen) && coins[i].status != CoinStatus::InTransfer
                ==> done[i] == coins[i]
        }),
{
}

/// After a withdrawal no transfer of the statechain is sent: the attempt is
/// refused over the signature count.
pub proof fn lemma_no_transfer_after_withdrawal(
    coins: Seq<CoinView>,
    id: Seq<char>,
    index: u32,
    chosen: Seq<u32>,
)
    requires
        store_wf(coins),
        withdraw_outcome(coins, id, index) is Ok,
    ensures
        ({
            let after = withdraw_outcome(coins, id, index)->Ok_0;
            send_outcome(after, id, chosen) is Err && (send_outcome(after, id, chosen)
                == Err::<Seq<CoinView>, CoinError>(CoinError::SignatureCountMismatch) || send_outcome(
                after,
                id,
                chosen,
            ) == Err::<Seq<CoinView>, CoinError>(CoinError::UnknownCoin))
        }),
{
    let after = withdraw_outcome(coins, id, index)->Ok_0;
    let i = position_of(coins, id, index);
    assert(is_coin(coins, i, id, index));
    assert(after[i].status == CoinStatus::Withdrawn);
    assert(blocks_transfer(after[i], id, chosen));
}

/// Invalidation is for good, and so is withdrawal: whatever is sent, handed
/// over or withdrawn afterwards, a withdrawn coin stays `Withdrawn`, and an
/// invalidated coin stays `Invalidated` until it is withdrawn itself.
pub proof fn lemma_invalidation_is_permanent(
    coins: Seq<CoinView>,
    id: Seq<char>,
    chosen: Seq<u32>,
    index: u32,
    i: int,
)
    requires
        0 <= i < coins.len(),
        coins[i].status == CoinStatus::Invalidated || coins[i].status == CoinStatus::Withdrawn,
    ensures
        send_outcome(coins, id, chosen) matches Ok(after) ==> after[i].status == coins[i].status,
        handed_over_coin(coins[i], id).status == coins[i].status,
        withdraw_outcome(coins, id, index) matches Ok(after) ==> after[i].status
            == coins[i].status || (coins[i].status == CoinStatus::Invalidated && after[i].status
            == CoinStatus::Withdrawn),
{
    if send_outcome(coins, id, chosen) is Ok {
        assert(!blocks_transfer(coins[i], id, chosen));
    }
}

/// A change that keeps every coin's statechain, duplicate index and output
/// keeps the store well formed.
pub proof fn lemma_wf_kept(before: Seq<CoinView>, after: Seq<CoinView>)
    requires
        store_wf(before),
        after.len() == before.len(),
        forall|i: int|
            0 <= i < before.len() ==> (#[trigger] after[i]).statechain_id == before[i].statechain_id
                && after[i].duplicate_index == before[i].duplicate_index && after[i].utxo_outpoint
                == before[i].utxo_outpoint,
    ensures
        store_wf(after),
{
    assert forall|i: int, j: int|
        0 <= i < j < after.len() && (#[trigger] after[i]).utxo_outpoint is Some implies after[i].utxo_outpoint != (
    #[trigger] after[j]).utxo_outpoint by {
        assert(before[i].utxo_outpoint != before[j].utxo_outpoint);
    }
    assert forall|i: int, j: int|
        0 <= i < j < after.len() && (#[trigger] after[i]).statechain_id == (
        #[trigger] after[j]).statechain_id implies after[i].duplicate_index
        != after[j].duplicate_index by {
        assert(before[i].duplicate_index != before[j].duplicate_index);
    }
}

/// Whether `x` is among the chosen duplicate indexes.
pub fn is_chosen(chosen: &Vec<u32>, x: u32) -> (found: bool)
    ensures
        found == chosen@.contains(x),
{
    let mut k: usize = 0;
    while k < chosen.len()
        invariant
            k <= chosen@.len(),
            forall|j: int| 0 <= j < k ==> chosen@[j] != x,
        decreases chosen@.len() - k,
    {
        if chosen[k] == x {
            return true;
        }
        k = k + 1;
    }
    false
}

impl CoinStore {
    /// Sends a transfer of a statechain: its canonical coin and the chosen
    /// duplicates become `InTransfer`, each with one more signature unless it
    /// was on its way already; duplicates that were not chosen stay as they
    /// are. Refused, with the store unchanged, where a coin that should move
    /// is missing (`UnknownCoin`), where a sibling was withdrawn or a coin
    /// that should move is invalidated (`SignatureCountMismatch`), where one
    /// is not owned (`WrongStatus`), or where a counter is used up
    /// (`CounterExhausted`); the first of these that applies is returned.
    #[verifier::loop_isolation(false)]
    pub fn transfer_send(&mut self, statechain_id: &String, duplicate_indexes: &Vec<u32>) -> (r:
        Result<(), CoinError>)
        requires
            old(self).wf(),
        ensures
            final(self).wf(),
            match send_outcome(old(self)@, statechain_id@, duplicate_indexes@) {
                Ok(coins) => r == Ok::<(), CoinError>(()) && final(self)@ == coins,
                Err(e) => r == Err::<(), CoinError>(e) && final(self)@ == old(self)@,
            },
    {
        let ghost id = statechain_id@;
        let ghost chosen = duplicate_indexes@;
        let ghost before = self@;
        if self.find(statechain_id, 0).is_none() {
            return Err(CoinError::UnknownCoin);
        }
        let mut k: usize = 0;
        while k < duplicate_indexes.len()
            invariant
                k <= chosen.len(),
                chosen == duplicate_indexes@,
                id == statechain_id@,
                self@ == before,
                forall|j: int| 0 <= j < k ==> holds_coin(before, id, #[trigger] chosen[j]),
            decreases chosen.len() - k,
        {
            if self.find(statechain_id, duplicate_indexes[k]).is_none() {
                return Err(CoinError::UnknownCoin);
            }
            k = k + 1;
        }
        let mut blocked = false;
        let mut unfit = false;
        let mut exhausted = false;
        let mut i: usize = 0;
        while i < self.coins.len()
            invariant
                i <= before.len(),
                chosen == duplicate_indexes@,
                id == statechain_id@,
                self@ == before,
                self.coins@.len() == before.len(),
                blocked <==> exists|j: int|
                    0 <= j < i && blocks_transfer(#[trigger] before[j], id, chosen),
                unfit <==> exists|j: int|
                    0 <= j < i && unfit_for_transfer(#[trigger] before[j], id, chosen),
                exhausted <==> exists|j: int|
                    0 <= j < i && exhausted_for_transfer(#[trigger] before[j], id, chosen),
            decreases before.len() - i,
        {
            let coin = &self.coins[i];
            assert(coin@ == before[i as int]);
            if coin.statechain_id == *statechain_id {
                let selected = coin.duplicate_index == 0 || is_chosen(
                    duplicate_indexes,
                    coin.duplicate_index,
                );
                let status = coin.status;
                if status == CoinStatus::Withdrawn || (selected && status
                    == CoinStatus::Invalidated) {
                    blocked = true;
                }
                if selected && (status == CoinStatus::Initialised || status
                    == CoinStatus::Transferred) {
                    unfit = true;
                }
                if selected && (status == CoinStatus::Confirmed || status == CoinStatus::Duplicated)
                    && coin.current_backup_tx_n == u32::MAX {
                    exhausted = true;
                }
            }
            i = i + 1;
        }
        if blocked {
            return Err(CoinError::SignatureCountMismatch);
        }
        if unfit {
            return Err(CoinError::WrongStatus);
        }
        if exhausted {
            return Err(CoinError::CounterExhausted);
        }
        let mut i: usize = 0;
        while i < self.coins.len()
            invariant
                i <= before.len(),
                chosen == duplicate_indexes@,
                id == statechain_id@,
                self.coins@.len() == before.len(),
                forall|j: int|
                    0 <= j < before.len() ==> !blocks_transfer(#[trigger] before[j], id, chosen)
                        && !unfit_for_transfer(before[j], id, chosen) && !exhausted_for_transfer(
                        before[j],
                        id,
                        chosen,
                    ),
                forall|j: int| 0 <= j < i ==> (#[trigger] self@[j]) == sent_coin(before[j], id, chosen),
                forall|j: int| i <= j < before.len() ==> (#[trigger] self@[j]) == before[j],
            decreases before.len() - i,
        {
            assert(self@[i as int] == before[i as int]);
            assert(!exhausted_for_transfer(before[i as int], id, chosen));
            let ghost mid = self@;
            let ghost old_coins = self.coins@;
            if self.coins[i].statechain_id == *statechain_id && (self.coins[i].duplicate_index == 0
                || is_chosen(duplicate_indexes, self.coins[i].duplicate_index))
                && self.coins[i].status != CoinStatus::InTransfer {
                let signatures = self.coins[i].current_backup_tx_n + 1;
                self.coins[i].status = CoinStatus::InTransfer;
                self.coins[i].current_backup_tx_n = signatures;
            }
            assert(self@[i as int] == sent_coin(before[i as int], id, chosen));
            assert forall|j: int| 0 <= j < before.len() && j != i implies (#[trigger] self@[j])
                == mid[j] by {
                assert(self.coins@[j] == old_coins[j]);
            }
            i = i + 1;
        }
        assert(self@ =~= before.map_values(|c: CoinView| sent_coin(c, id, chosen)));
        proof {
            lemma_wf_kept(before, self@);
        }
        Ok(())
    }

    /// Records that the receiver took the statechain: every coin of it that
    /// was `InTransfer` becomes `Transferred`. Returns whether any coin was.
    #[verifier::loop_isolation(false)]
    pub fn complete_transfer(&mut self, statechain_id: &String) -> (moved: bool)
        requires
            old(self).wf(),
        ensures
            final(self).wf(),
            final(self)@ == old(self)@.map_values(
                |c: CoinView| handed_over_coin(c, statechain_id@),
            ),
            moved <==> exists|i: int|
                0 <= i < old(self)@.len() && (#[trigger] old(self)@[i]).statechain_id
                    == statechain_id@ && old(self)@[i].status == CoinStatus::InTransfer,
    {
        let ghost id = statechain_id@;
        let ghost before = self@;
        let mut moved = false;
        let mut i: usize = 0;
        while i < self.coins.len()
            invariant
                i <= before.len(),
                id == statechain_id@,
                self.coins@.len() == before.len(),
                forall|j: int| 0 <= j < i ==> (#[trigger] self@[j]) == handed_over_coin(before[j], id),
                forall|j: int| i <= j < before.len() ==> (#[trigger] self@[j]) == before[j],
                moved <==> exists|j: int|
                    0 <= j < i && (#[trigger] before[j]).statechain_id == id && before[j].status
                        == CoinStatus::InTransfer,
            decreases before.len() - i,
        {
            assert(self@[i as int] == before[i as int]);
            let ghost mid = self@;
            let ghost old_coins = self.coins@;
            if self.coins[i].status == CoinStatus::InTransfer && self.coins[i].statechain_id
                == *statechain_id {
                self.coins[i].status = CoinStatus::Transferred;
                moved = true;
            }
            assert forall|j: int| 0 <= j < before.len() && j != i implies (#[trigger] self@[j])
                == mid[j] by {
                assert(self.coins@[j] == old_coins[j]);
            }
            i = i + 1;
        }
        assert(self@ =~= before.map_values(|c: CoinView| handed_over_coin(c, id)));
        proof {
            lemma_wf_kept(before, self@);
        }
        moved
    }

    /// Withdraws one coin: it becomes `Withdrawn`, with one more signature,
    /// and every sibling that has strictly fewer signatures than it then has
    /// becomes `Invalidated`, unless that sibling was withdrawn before.
    /// Refused, with the store unchanged, where the coin is missing
    /// (`UnknownCoin`), where it has no output, is on its way to a receiver
    /// or is withdrawn already (`WrongStatus`), or where its counter is used
    /// up (`CounterExhausted`).
    #[verifier::loop_isolation(false)]
    pub fn withdraw(&mut self, statechain_id: &String, duplicate_index: u32) -> (r: Result<
        (),
        CoinError,
    >)
        requires
            old(self).wf(),
        ensures
            final(self).wf(),
            match withdraw_outcome(old(self)@, statechain_id@, duplicate_index) {
                Ok(coins) => r == Ok::<(), CoinError>(()) && final(self)@ == coins,
                Err(e) => r == Err::<(), CoinError>(e) && final(self)@ == old(self)@,
            },
    {
        let ghost id = statechain_id@;
        let ghost before = self@;
        let at = match self.find(statechain_id, duplicate_index) {
            Some(at) => at,
            None => {
                return Err(CoinError::UnknownCoin);
            },
        };
        proof {
            lemma_coin_at(before, at as int, id, duplicate_index);
        }
        let status = self.coins[at].status;
        if !(status == CoinStatus::Confirmed || status == CoinStatus::Duplicated || status
            == CoinStatus::Transferred || status == CoinStatus::Invalidated) {
            return Err(CoinError::WrongStatus);
        }
        if self.coins[at].current_backup_tx_n == u32::MAX {
            return Err(CoinError::CounterExhausted);
        }
        let signatures = self.coins[at].current_backup_tx_n + 1;
        let mut i: usize = 0;
        while i < self.coins.len()
            invariant
                i <= before.len(),
                id == statechain_id@,
                self.coins@.len() == before.len(),
                forall|j: int|
                    0 <= j < i ==> (#[trigger] self@[j]) == coin_after_withdrawal(
                        before[j],
                        id,
                        duplicate_index,
                        signatures,
                    ),
                forall|j: int| i <= j < before.len() ==> (#[trigger] self@[j]) == before[j],
            decreases before.len() - i,
        {
            assert(self@[i as int] == before[i as int]);
            let ghost mid = self@;
            let ghost old_coins = self.coins@;
            if self.coins[i].statechain_id == *statechain_id {
                if self.coins[i].duplicate_index == duplicate_index {
                    self.coins[i].status = CoinStatus::Withdrawn;
                    self.coins[i].current_backup_tx_n = signatures;
                } else if self.coins[i].status != CoinStatus::Withdrawn
                    && self.coins[i].current_backup_tx_n < signatures {
                    self.coins[i].status = CoinStatus::Invalidated;
                }
            }
            assert forall|j: int| 0 <= j < before.len() && j != i implies (#[trigger] self@[j])
                == mid[j] by {
                assert(self.coins@[j] == old_coins[j]);
            }
            i = i + 1;
        }
        assert(self@ =~= before.map_values(
            |c: CoinView| coin_after_withdrawal(c, id, duplicate_index, signatures),
        ));
        proof {
            lemma_wf_kept(before, self@);
        }
        Ok(())
    }

    /// Takes a statechain that a transfer brought: the first output becomes
    /// the canonical coin, `Confirmed`, the others become `Duplicated`,
    /// numbered from 1 as they come. Returns whether coins were added: a
    /// statechain that the store holds already is left alone, so taking the
    /// same transfer again changes nothing. Refused, with the store
    /// unchanged, where the transfer brings no output (`UnknownCoin`), more
    /// than can be numbered (`CounterExhausted`), or an output that the
    /// store holds or that it brings twice (`OutpointTaken`).
    #[verifier::loop_isolation(false)]
    pub fn receive(
        &mut self,
        statechain_id: &String,
        user_pubkey: &Vec<u8>,
        aggregated_address: &String,
        incoming: &Vec<IncomingCoin>,
    ) -> (r: Result<bool, CoinError>)
        requires
            old(self).wf(),
        ensures
            final(self).wf(),
            match receive_outcome(
                old(self)@,
                statechain_id@,
                user_pubkey@,
                aggregated_address@,
                incoming_views(incoming@),
            ) {
                Ok((coins, added)) => r == Ok::<bool, CoinError>(added) && final(self)@ == coins,
                Err(e) => r == Err::<bool, CoinError>(e) && final(self)@ == old(self)@,
            },
    {
        let ghost id = statechain_id@;
        let ghost before = self@;
        let ghost inc = incoming_views(incoming@);
        if self.has_statechain(statechain_id) {
            return Ok(false);
        }
        if incoming.len() == 0 {
            return Err(CoinError::UnknownCoin);
        }
        if incoming.len() as u64 > u32::MAX as u64 {
            return Err(CoinError::CounterExhausted);
        }
        let mut k: usize = 0;
        while k < incoming.len()
            invariant
                k <= inc.len(),
                inc == incoming_views(incoming@),
                self@ == before,
                forall|j: int| 0 <= j < k ==> !holds_outpoint(before, (#[trigger] inc[j]).utxo_outpoint),
                forall|a: int, b: int|
                    0 <= a < b < k ==> (#[trigger] inc[a]).utxo_outpoint != (#[trigger] inc[b]).utxo_outpoint,
            decreases inc.len() - k,
        {
            assert(inc[k as int] == incoming@[k as int]@);
            if self.has_outpoint(&incoming[k].utxo_outpoint) {
                assert(holds_outpoint(before, inc[k as int].utxo_outpoint));
                return Err(CoinError::OutpointTaken);
            }
            let mut l: usize = 0;
            while l < k
                invariant
                    l <= k < inc.len(),
                    inc == incoming_views(incoming@),
                    forall|a: int| 0 <= a < l ==> (#[trigger] inc[a]).utxo_outpoint != inc[k as int].utxo_outpoint,
                decreases k - l,
            {
                assert(inc[l as int] == incoming@[l as int]@);
                assert(inc[k as int] == incoming@[k as int]@);
                if bytes_eq(&incoming[l].utxo_outpoint.txid, &incoming[k].utxo_outpoint.txid) && incoming[l].utxo_outpoint.vout
                    == incoming[k].utxo_outpoint.vout {
                    assert(inc[l as int].utxo_outpoint == inc[k as int].utxo_outpoint);
                    return Err(CoinError::OutpointTaken);
                }
                l = l + 1;
            }
            k = k + 1;
        }
        assert(!outpoint_clash(before, inc));
        let ghost fresh = Seq::new(
            inc.len(),
            |k: int| received_coin(id, user_pubkey@, aggregated_address@, inc, k),
        );
        let mut k: usize = 0;
        while k < incoming.len()
            invariant
                k <= inc.len(),
                inc.len() <= u32::MAX,
                inc == incoming_views(incoming@),
                id == statechain_id@,
                fresh == Seq::new(
                    inc.len(),
                    |k: int| received_coin(id, user_pubkey@, aggregated_address@, inc, k),
                ),
                self@ == before + fresh.subrange(0, k as int),
            decreases inc.len() - k,
        {
            assert(inc[k as int] == incoming@[k as int]@);
            let ghost mid = self@;
            let coin = StatechainCoin {
                statechain_id: statechain_id.clone(),
                user_pubkey: bytes_clone(user_pubkey),
                aggregated_address: aggregated_address.clone(),
                duplicate_index: k as u32,
                status: if k == 0 {
                    CoinStatus::Confirmed
                } else {
                    CoinStatus::Duplicated
                },
                amount: incoming[k].amount,
                utxo_outpoint: Some(
                    OutPoint { txid: bytes_clone(&incoming[k].utxo_outpoint.txid), vout: incoming[k].utxo_outpoint.vout },
                ),
                current_backup_tx_n: incoming[k].backup_tx_n,
            };
            assert(coin@ == fresh[k as int]);
            self.coins.push(coin);
            assert(self@ =~= mid.push(coin@));
            assert(self@ =~= before + fresh.subrange(0, k + 1));
            k = k + 1;
        }
        assert(fresh.subrange(0, k as int) =~= fresh);
        proof {
            let after = self@;
            assert forall|i: int, j: int|
                0 <= i < j < after.len() && (#[trigger] after[i]).utxo_outpoint is Some implies after[i].utxo_outpoint
                != (#[trigger] after[j]).utxo_outpoint by {
                if j < before.len() {
                    assert(before[i].utxo_outpoint != before[j].utxo_outpoint);
                } else if i < before.len() {
                    assert(!holds_outpoint(before, inc[j - before.len()].utxo_outpoint));
                } else {
                    assert(inc[i - before.len()].utxo_outpoint != inc[j - before.len()].utxo_outpoint);
                }
            }
            assert forall|i: int, j: int|
                0 <= i < j < after.len() && (#[trigger] after[i]).statechain_id == (
                #[trigger] after[j]).statechain_id implies after[i].duplicate_index
                != after[j].duplicate_index by {
                if j < before.len() {
                    assert(before[i].duplicate_index != before[j].duplicate_index);
                } else if i < before.len() {
                    assert(before[i].statechain_id != id);
                }
            }
        }
        Ok(true)
    }
}

} // verus!
