//! The balance ledger: a finite map from account identifiers to balances, and
//! the sum of all balances it holds.

use crate::errors::TokenError;
use vstd::prelude::*;

verus! {

/// One ledger entry: an account identifier and the balance recorded for it.
#[derive(Clone, Debug)]
pub struct Account {
    pub id: String,
    pub balance: u128,
}

/// The map that a sequence of entries stands for. Where an identifier occurs
/// more than once, the entry nearest the end decides.
pub open spec fn entries_map(entries: Seq<Account>) -> Map<Seq<char>, u128>
    decreases entries.len(),
{
    if entries.len() == 0 {
        Map::empty()
    } else {
        entries_map(entries.drop_last()).insert(entries.last().id@, entries.last().balance)
    }
}

/// The sum of all balances of a finite ledger.
pub open spec fn map_total(m: Map<Seq<char>, u128>) -> nat
    decreases m.dom().len(),
    when m.dom().finite()
{
    if m.dom().is_empty() {
        0
    } else {
        let k = m.dom().choose();
        m[k] as nat + map_total(m.remove(k))
    }
}

/// The balance that a ledger shows for an account: zero where it has none.
pub open spec fn balance_in(m: Map<Seq<char>, u128>, id: Seq<char>) -> u128 {
    if m.contains_key(id) {
        m[id]
    } else {
        0
    }
}

/// What a credit of `amount` to `id` makes of a ledger: refused where the
/// account is not registered or the new balance leaves the range of a balance.
pub open spec fn credit_result(m: Map<Seq<char>, u128>, id: Seq<char>, amount: u128) -> Result<
    Map<Seq<char>, u128>,
    TokenError,
> {
    if !m.contains_key(id) {
        Err(TokenError::NotRegistered)
    } else if m[id] + amount > u128::MAX {
        Err(TokenError::Overflow)
    } else {
        Ok(m.insert(id, (m[id] + amount) as u128))
    }
}

/// What a debit of `amount` from `id` makes of a ledger: refused where the
/// account is not registered or holds less than `amount`.
pub open spec fn debit_result(m: Map<Seq<char>, u128>, id: Seq<char>, amount: u128) -> Result<
    Map<Seq<char>, u128>,
    TokenError,
> {
    if !m.contains_key(id) {
        Err(TokenError::NotRegistered)
    } else if m[id] < amount {
        Err(TokenError::InsufficientBalance)
    } else {
        Ok(m.insert(id, (m[id] - amount) as u128))
    }
}

/// What registering `id` makes of a ledger: an entry with balance zero,
/// refused where the account has an entry already.
pub open spec fn register_result(m: Map<Seq<char>, u128>, id: Seq<char>) -> Result<
    Map<Seq<char>, u128>,
    TokenError,
> {
    if m.contains_key(id) {
        Err(TokenError::AlreadyRegistered)
    } else {
        Ok(m.insert(id, 0))
    }
}

/// What a transfer of `amount` from `sender` to `receiver` makes of a ledger:
/// a debit of the sender followed by a credit of the receiver, refused where
/// the amount is zero or either step is refused.
pub open spec fn transfer_result(
    m: Map<Seq<char>, u128>,
    sender: Seq<char>,
    receiver: Seq<char>,
    amount: u128,
) -> Result<Map<Seq<char>, u128>, TokenError> {
    if amount == 0 {
        Err(TokenError::InvalidAmount)
    } else {
        match debit_result(m, sender, amount) {
            Err(e) => Err(e),
            Ok(debited) => credit_result(debited, receiver, amount),
        }
    }
}

/// The sum of a finite ledger is the balance of any one of its accounts plus
/// the sum of the ledger without that account.
pub proof fn lemma_total_remove(m: Map<Seq<char>, u128>, id: Seq<char>)
    requires
        m.dom().finite(),
        m.contains_key(id),
    ensures
        map_total(m) == m[id] as nat + map_total(m.remove(id)),
    decreases m.dom().len(),
{
    let k = m.dom().choose();
    if k != id {
        lemma_total_remove(m.remove(k), id);
        lemma_total_remove(m.remove(id), k);
        assert(m.remove(k).remove(id) =~= m.remove(id).remove(k));
    }
}

/// The empty ledger sums to zero.
pub proof fn lemma_total_empty()
    ensures
        map_total(Map::<Seq<char>, u128>::empty()) == 0,
{
}

/// Writing a balance for an account changes the sum by the difference between
/// the new balance and the one the ledger showed before.
pub proof fn lemma_total_insert(m: Map<Seq<char>, u128>, id: Seq<char>, balance: u128)
    requires
        m.dom().finite(),
    ensures
        map_total(m.insert(id, balance)) == map_total(m) - balance_in(m, id) + balance,
{
    let after = m.insert(id, balance);
    lemma_total_remove(after, id);
    if m.contains_key(id) {
        lemma_total_remove(m, id);
        assert(after.remove(id) =~= m.remove(id));
    } else {
        assert(after.remove(id) =~= m);
    }
}

/// No single balance exceeds the sum of a finite ledger.
pub proof fn lemma_balance_le_total(m: Map<Seq<char>, u128>, id: Seq<char>)
    requires
        m.dom().finite(),
    ensures
        balance_in(m, id) <= map_total(m),
{
    if m.contains_key(id) {
        lemma_total_remove(m, id);
    }
}

/// Two distinct accounts of a finite ledger together hold no more than its sum.
pub proof fn lemma_two_balances_le_total(m: Map<Seq<char>, u128>, a: Seq<char>, b: Seq<char>)
    requires
        m.dom().finite(),
        a != b,
    ensures
        balance_in(m, a) + balance_in(m, b) <= map_total(m),
{
    if m.contains_key(a) {
        lemma_total_remove(m, a);
        lemma_balance_le_total(m.remove(a), b);
    } else {
        lemma_balance_le_total(m, b);
    }
}

/// A credit that is not refused raises the sum of all balances by its amount
/// and registers no account.
pub proof fn lemma_credit_adds_to_total(m: Map<Seq<char>, u128>, id: Seq<char>, amount: u128)
    requires
        m.dom().finite(),
        credit_result(m, id, amount) is Ok,
    ensures
        credit_result(m, id, amount)->Ok_0.dom() == m.dom(),
        map_total(credit_result(m, id, amount)->Ok_0) == map_total(m) + amount,
{
    lemma_total_insert(m, id, (m[id] + amount) as u128);
    assert(m.insert(id, (m[id] + amount) as u128).dom() =~= m.dom());
}

/// A debit that is not refused lowers the sum of all balances by its amount
/// and leaves every account registered.
pub proof fn lemma_debit_takes_from_total(m: Map<Seq<char>, u128>, id: Seq<char>, amount: u128)
    requires
        m.dom().finite(),
        debit_result(m, id, amount) is Ok,
    ensures
        debit_result(m, id, amount)->Ok_0.dom() == m.dom(),
        map_total(debit_result(m, id, amount)->Ok_0) == map_total(m) - amount,
{
    lemma_total_insert(m, id, (m[id] - amount) as u128);
    assert(m.insert(id, (m[id] - amount) as u128).dom() =~= m.dom());
}

/// A debit of more than the account holds is refused, and so no balance is
/// ever brought below zero.
pub proof fn lemma_debit_beyond_balance_is_refused(
    m: Map<Seq<char>, u128>,
    id: Seq<char>,
    amount: u128,
)
    requires
        balance_in(m, id) < amount,
    ensures
        debit_result(m, id, amount) is Err,
        forall|receiver: Seq<char>| (#[trigger] transfer_result(m, id, receiver, amount)) is Err,
{
}

/// Registering an account leaves the sum of all balances as it was.
pub proof fn lemma_register_keeps_total(m: Map<Seq<char>, u128>, id: Seq<char>)
    requires
        m.dom().finite(),
        register_result(m, id) is Ok,
    ensures
        map_total(register_result(m, id)->Ok_0) == map_total(m),
        balance_in(register_result(m, id)->Ok_0, id) == 0,
{
    lemma_total_insert(m, id, 0);
}

/// A transfer is pure redistribution: it leaves the sum of all balances and
/// the set of registered accounts as they were. Between two distinct accounts
/// the sender loses exactly what the receiver gains; a transfer of an account
/// to itself changes nothing.
pub proof fn lemma_transfer_keeps_total(
    m: Map<Seq<char>, u128>,
    sender: Seq<char>,
    receiver: Seq<char>,
    amount: u128,
)
    requires
        m.dom().finite(),
        transfer_result(m, sender, receiver, amount) is Ok,
    ensures
        map_total(transfer_result(m, sender, receiver, amount)->Ok_0) == map_total(m),
        transfer_result(m, sender, receiver, amount)->Ok_0.dom() == m.dom(),
        sender != receiver ==> {
            let moved = transfer_result(m, sender, receiver, amount)->Ok_0;
            &&& moved[sender] == m[sender] - amount
            &&& moved[receiver] == m[receiver] + amount
        },
        sender == receiver ==> transfer_result(m, sender, receiver, amount)->Ok_0 == m,
        forall|other: Seq<char>|
            other != sender && other != receiver ==> balance_in(
                transfer_result(m, sender, receiver, amount)->Ok_0,
                other,
            ) == balance_in(m, other),
{
    let debited = debit_result(m, sender, amount)->Ok_0;
    lemma_debit_takes_from_total(m, sender, amount);
    lemma_credit_adds_to_total(debited, receiver, amount);
    if sender == receiver {
        assert(transfer_result(m, sender, receiver, amount)->Ok_0 =~= m);
    }
}

/// A transfer to or from an account that is not registered is refused.
pub proof fn lemma_transfer_needs_registration(
    m: Map<Seq<char>, u128>,
    sender: Seq<char>,
    receiver: Seq<char>,
    amount: u128,
)
    requires
        !m.contains_key(sender) || !m.contains_key(receiver),
    ensures
        transfer_result(m, sender, receiver, amount) is Err,
        amount > 0 && !m.contains_key(sender) ==> transfer_result(m, sender, receiver, amount)
            == Err::<Map<Seq<char>, u128>, TokenError>(TokenError::NotRegistered),
{
}

/// While the sum of all balances fits the range of a balance, no transfer is
/// refused for overflow: a transfer then succeeds exactly when the amount is
/// positive, both accounts are registered and the sender holds the amount.
pub proof fn lemma_transfer_in_range(
    m: Map<Seq<char>, u128>,
    sender: Seq<char>,
    receiver: Seq<char>,
    amount: u128,
)
    requires
        m.dom().finite(),
        map_total(m) <= u128::MAX,
    ensures
        transfer_result(m, sender, receiver, amount) != Err::<Map<Seq<char>, u128>, TokenError>(
            TokenError::Overflow,
        ),
        transfer_result(m, sender, receiver, amount) is Ok <==> {
            &&& amount > 0
            &&& m.contains_key(sender)
            &&& m.contains_key(receiver)
            &&& m[sender] >= amount
        },
{
    if sender != receiver {
        lemma_two_balances_le_total(m, sender, receiver);
    }
}

/// The map of a sequence of entries is finite.
pub proof fn lemma_entries_map_finite(entries: Seq<Account>)
    ensures
        entries_map(entries).dom().finite(),
    decreases entries.len(),
{
    if entries.len() > 0 {
        lemma_entries_map_finite(entries.drop_last());
    }
}

/// An account that no entry names is not in the map.
pub proof fn lemma_entries_map_absent(entries: Seq<Account>, id: Seq<char>)
    requires
        forall|j: int| 0 <= j < entries.len() ==> entries[j].id@ != id,
    ensures
        !entries_map(entries).contains_key(id),
    decreases entries.len(),
{
    if entries.len() > 0 {
        let rest = entries.drop_last();
        assert forall|j: int| 0 <= j < rest.len() implies rest[j].id@ != id by {
            assert(rest[j] == entries[j]);
        }
        lemma_entries_map_absent(rest, id);
    }
}

/// The map shows for an account the balance of the last entry that names it.
pub proof fn lemma_entries_map_last(entries: Seq<Account>, i: int, id: Seq<char>)
    requires
        0 <= i < entries.len(),
        entries[i].id@ == id,
        forall|j: int| i < j < entries.len() ==> entries[j].id@ != id,
    ensures
        entries_map(entries).contains_key(id),
        entries_map(entries)[id] == entries[i].balance,
    decreases entries.len(),
{
    if i < entries.len() - 1 {
        let rest = entries.drop_last();
        assert forall|j: int| i < j < rest.len() implies rest[j].id@ != id by {
            assert(rest[j] == entries[j]);
        }
        lemma_entries_map_last(rest, i, id);
    }
}

/// Replacing the last entry that names an account writes that account's
/// balance in the map and touches nothing else.
pub proof fn lemma_entries_map_update(entries: Seq<Account>, i: int, entry: Account)
    requires
        0 <= i < entries.len(),
        entries[i].id@ == entry.id@,
        forall|j: int| i < j < entries.len() ==> entries[j].id@ != entry.id@,
    ensures
        entries_map(entries.update(i, entry)) == entries_map(entries).insert(
            entry.id@,
            entry.balance,
        ),
    decreases entries.len(),
{
    let updated = entries.update(i, entry);
    let rest = entries.drop_last();
    if i == entries.len() - 1 {
        assert(updated.drop_last() =~= rest);
        assert(entries_map(updated) =~= entries_map(entries).insert(entry.id@, entry.balance));
    } else {
        assert forall|j: int| i < j < rest.len() implies rest[j].id@ != entry.id@ by {
            assert(rest[j] == entries[j]);
        }
        lemma_entries_map_update(rest, i, entry);
        assert(updated.drop_last() =~= rest.update(i, entry));
        assert(updated.last() == entries.last());
        assert(entries_map(updated) =~= entries_map(entries).insert(entry.id@, entry.balance));
    }
}

/// The ledger: every account that may hold a balance, with its balance. An
/// account is registered exactly when the ledger has an entry for it; an entry
/// with balance zero counts.
#[derive(Clone, Debug)]
pub struct Ledger {
    pub entries: Vec<Account>,
}

impl View for Ledger {
    type V = Map<Seq<char>, u128>;

    open spec fn view(&self) -> Map<Seq<char>, u128> {
        entries_map(self.entries@)
    }
}

impl Ledger {
    /// The sum of all balances in the ledger.
    pub open spec fn total(&self) -> nat {
        map_total(self@)
    }

    /// A ledger without accounts.
    pub fn new() -> (ledger: Ledger)
        ensures
            ledger@ == Map::<Seq<char>, u128>::empty(),
            ledger.total() == 0,
    {
        Ledger { entries: Vec::new() }
    }

    /// The position of the last entry that names `id`, if there is one.
    fn position(&self, id: &String) -> (found: Option<usize>)
        ensures
            match found {
                Some(i) => {
                    &&& i < self.entries@.len()
                    &&& self.entries@[i as int].id@ == id@
                    &&& forall|j: int| i < j < self.entries@.len() ==> self.entries@[j].id@ != id@
                },
                None => forall|j: int| 0 <= j < self.entries@.len() ==> self.entries@[j].id@ != id@,
            },
    {
        let mut i: usize = self.entries.len();
        while i > 0
            invariant
                i <= self.entries@.len(),
                forall|j: int| i <= j < self.entries@.len() ==> self.entries@[j].id@ != id@,
            decreases i,
        {
            i = i - 1;
            if self.entries[i].id == *id {
                return Some(i);
            }
        }
        None
    }

    /// The balance recorded for `id`, or `None` where the account is not
    /// registered.
    pub fn get(&self, id: &String) -> (balance: Option<u128>)
        ensures
            balance == (if self@.contains_key(id@) {
                Some(self@[id@])
            } else {
                None
            }),
    {
        match self.position(id) {
            Some(i) => {
                proof {
                    lemma_entries_map_last(self.entries@, i as int, id@);
                }
                Some(self.entries[i].balance)
            },
            None => {
                proof {
                    lemma_entries_map_absent(self.entries@, id@);
                }
                None
            },
        }
    }

    /// Whether `id` is registered.
    pub fn contains_key(&self, id: &String) -> (registered: bool)
        ensures
            registered == self@.contains_key(id@),
    {
        self.get(id).is_some()
    }

    /// Records `balance` for `id`, registering the account where it was not,
    /// and returns the balance recorded before.
    pub fn insert(&mut self, id: &String, balance: u128) -> (previous: Option<u128>)
        ensures
            final(self)@ == old(self)@.insert(id@, balance),
            previous == (if old(self)@.contains_key(id@) {
                Some(old(self)@[id@])
            } else {
                None
            }),
            final(self).total() == old(self).total() - balance_in(old(self)@, id@) + balance,
    {
        proof {
            lemma_entries_map_finite(self.entries@);
            lemma_total_insert(self@, id@, balance);
        }
        let entry = Account { id: id.clone(), balance };
        match self.position(id) {
            Some(i) => {
                proof {
                    lemma_entries_map_last(self.entries@, i as int, id@);
                    lemma_entries_map_update(self.entries@, i as int, entry);
                }
                let previous = self.entries[i].balance;
                self.entries.set(i, entry);
                Some(previous)
            },
            None => {
                proof {
                    lemma_entries_map_absent(self.entries@, id@);
                    assert(self.entries@.push(entry).drop_last() =~= self.entries@);
                }
                self.entries.push(entry);
                None
            },
        }
    }
}

} // verus!
