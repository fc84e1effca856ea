//! The registry of accounts, keyed by address: what each account holds in
//! value and in data, how value moves and how records come and go.

use crate::address::{
    bytes_of, derive_address, derived_address, matches_derived, seed_bytes, Address,
};
use crate::records::{
    comment_views, Comment, Error, Post, PostView, UserProfile, UserProfileView,
};
use vstd::prelude::*;

verus! {

/// What an account holds besides value.
#[derive(Clone, Debug, PartialEq, Eq)]
pub enum Record {
    /// Nothing: a caller's own account or a vault.
    Wallet,
    /// The profile of a user.
    Profile(UserProfile),
    /// A post.
    Post(Post),
}

/// Model of what an account holds besides value.
pub enum RecordView {
    Wallet,
    Profile(UserProfileView),
    Post(PostView),
}

impl View for Record {
    type V = RecordView;

    open spec fn view(&self) -> RecordView {
        match self {
            Record::Wallet => RecordView::Wallet,
            Record::Profile(profile) => RecordView::Profile(profile@),
            Record::Post(post) => RecordView::Post(post@),
        }
    }
}

/// Model of an account: its value and its data.
pub struct AccountView {
    pub balance: nat,
    pub record: RecordView,
}

/// Whether a record may be stored at `address`: a post fits its reserved
/// space and was not written by its own address. A wallet is no record.
pub open spec fn record_ok(address: Address, record: RecordView) -> bool {
    match record {
        RecordView::Wallet => false,
        RecordView::Profile(_) => true,
        RecordView::Post(post) => post.fits() && post.author != address,
    }
}

/// Whether an account may stand at `address`: a wallet holds value, a
/// record is one that may be stored there.
pub open spec fn account_ok(address: Address, account: AccountView) -> bool {
    if account.record is Wallet {
        account.balance > 0
    } else {
        record_ok(address, account.record)
    }
}

/// Model of the ledger: the program that owns the records, the price of a
/// byte of storage, all the value that the ledger holds and the accounts
/// that exist.
pub struct LedgerView {
    pub program: Address,
    pub storage_price: nat,
    pub supply: nat,
    pub accounts: Map<Address, AccountView>,
}

impl LedgerView {
    /// Every account is one that may stand at its address.
    pub open spec fn wf(self) -> bool {
        forall|a: Address| #[trigger]
            self.accounts.contains_key(a) ==> account_ok(a, self.accounts[a])
    }

    /// Whether an account exists at `a`.
    pub open spec fn has_account(self, a: Address) -> bool {
        self.accounts.contains_key(a)
    }

    /// The value held at `a`; none where no account exists.
    pub open spec fn balance(self, a: Address) -> nat {
        if self.accounts.contains_key(a) {
            self.accounts[a].balance
        } else {
            0
        }
    }

    /// The value that can be paid out of `a`: what a wallet holds. The
    /// value under a profile or a post pays for its storage and stays.
    pub open spec fn available(self, a: Address) -> nat {
        if self.accounts.contains_key(a) && self.accounts[a].record is Wallet {
            self.accounts[a].balance
        } else {
            0
        }
    }

    /// The profile at `a`, if one is there.
    pub open spec fn profile(self, a: Address) -> Option<UserProfileView> {
        if self.accounts.contains_key(a) {
            match self.accounts[a].record {
                RecordView::Profile(profile) => Some(profile),
                _ => None,
            }
        } else {
            None
        }
    }

    /// The post at `a`, if one is there.
    pub open spec fn post(self, a: Address) -> Option<PostView> {
        if self.accounts.contains_key(a) {
            match self.accounts[a].record {
                RecordView::Post(post) => Some(post),
                _ => None,
            }
        } else {
            None
        }
    }

    /// The posts counted by the profile at `profile`; none where there is
    /// no profile.
    pub open spec fn counted_posts(self, profile: Address) -> nat {
        match self.profile(profile) {
            Some(found) => found.post_count,
            None => 0,
        }
    }

    /// The likes counted by the post at `post`; none where there is no
    /// post.
    pub open spec fn counted_likes(self, post: Address) -> nat {
        match self.post(post) {
            Some(found) => found.like_count,
            None => 0,
        }
    }

    /// The price of `space` bytes of storage.
    pub open spec fn storage_cost(self, space: nat) -> nat {
        space * self.storage_price
    }

    /// The ledger after `amount` left the wallet at `a`. A wallet left
    /// without value ceases to exist.
    pub open spec fn withdraw(self, a: Address, amount: nat) -> LedgerView {
        if amount == 0 {
            self
        } else if self.balance(a) == amount {
            LedgerView {
                accounts: self.accounts.remove(a),
                supply: (self.supply - amount) as nat,
                ..self
            }
        } else {
            LedgerView {
                accounts: self.accounts.insert(
                    a,
                    AccountView {
                        balance: (self.balance(a) - amount) as nat,
                        record: RecordView::Wallet,
                    },
                ),
                supply: (self.supply - amount) as nat,
                ..self
            }
        }
    }

    /// The ledger after `amount` arrived at `a`. Value sent to an address
    /// without an account opens a wallet there.
    pub open spec fn deposit(self, a: Address, amount: nat) -> LedgerView {
        if amount == 0 {
            self
        } else if self.accounts.contains_key(a) {
            LedgerView {
                accounts: self.accounts.insert(
                    a,
                    AccountView { balance: self.accounts[a].balance + amount, ..self.accounts[a] },
                ),
                supply: self.supply + amount,
                ..self
            }
        } else {
            LedgerView {
                accounts: self.accounts.insert(
                    a,
                    AccountView { balance: amount, record: RecordView::Wallet },
                ),
                supply: self.supply + amount,
                ..self
            }
        }
    }

    /// The ledger after `amount` moved from the wallet at `from` to `to`.
    pub open spec fn moved(self, from: Address, to: Address, amount: nat) -> LedgerView {
        self.withdraw(from, amount).deposit(to, amount)
    }

    /// The ledger with `record` in place of the data of the account at `a`.
    pub open spec fn with_record(self, a: Address, record: RecordView) -> LedgerView {
        LedgerView {
            accounts: self.accounts.insert(a, AccountView { balance: self.balance(a), record }),
            ..self
        }
    }

    /// The ledger after `payer` paid for `space` bytes at `a` and `record`
    /// was stored there: the price stays with the new account.
    pub open spec fn created(self, a: Address, space: nat, payer: Address, record: RecordView) -> LedgerView {
        let paid = self.withdraw(payer, self.storage_cost(space));
        LedgerView {
            accounts: paid.accounts.insert(
                a,
                AccountView { balance: self.storage_cost(space), record },
            ),
            supply: paid.supply + self.storage_cost(space),
            ..paid
        }
    }

    /// The ledger after the account at `a` was closed and all its value
    /// went to `recipient`.
    pub open spec fn closed(self, a: Address, recipient: Address) -> LedgerView {
        LedgerView {
            accounts: self.accounts.remove(a),
            supply: (self.supply - self.balance(a)) as nat,
            ..self
        }.deposit(recipient, self.balance(a))
    }

    /// What moving `amount` from `from` to `to` comes to, where `authority`
    /// holds the bytes of the address that the caller proved to act for, by
    /// signing or by deriving it from seeds.
    pub open spec fn transfer(
        self,
        from: Address,
        to: Address,
        amount: nat,
        authority: Option<Seq<u8>>,
    ) -> Result<LedgerView, Error> {
        if authority != Some(from@) {
            Err(Error::Unauthorized)
        } else if self.available(from) < amount {
            Err(Error::InsufficientFunds)
        } else {
            Ok(self.moved(from, to, amount))
        }
    }

    /// What creating `record` at `a` comes to, paid for by `payer`.
    pub open spec fn create(
        self,
        a: Address,
        space: nat,
        payer: Address,
        record: RecordView,
    ) -> Result<LedgerView, Error> {
        if self.has_account(a) {
            Err(Error::DuplicateInitialization)
        } else if self.available(payer) < self.storage_cost(space) {
            Err(Error::InsufficientFunds)
        } else {
            Ok(self.created(a, space, payer, record))
        }
    }

    /// What closing the record at `a` comes to: a wallet is not closed.
    pub open spec fn close(self, a: Address, recipient: Address) -> Result<LedgerView, Error> {
        if !self.has_account(a) || self.accounts[a].record is Wallet {
            Err(Error::NotFound)
        } else {
            Ok(self.closed(a, recipient))
        }
    }
}

/// One account of the registry.
struct Account {
    address: Address,
    balance: u64,
    record: Record,
}

impl Account {
    spec fn view(&self) -> AccountView {
        AccountView { balance: self.balance as nat, record: self.record@ }
    }
}

spec fn stands_at(s: Seq<Account>, a: Address, i: int) -> bool {
    0 <= i < s.len() && s[i].address == a
}

spec fn index_of(s: Seq<Account>, a: Address) -> int {
    choose|i: int| stands_at(s, a, i)
}

spec fn accounts_map(s: Seq<Account>) -> Map<Address, AccountView> {
    Map::new(|a: Address| exists|i: int| stands_at(s, a, i), |a: Address| s[index_of(s, a)]@)
}

spec fn distinct(s: Seq<Account>) -> bool {
    forall|i: int, j: int| 0 <= i < j < s.len() ==> s[i].address != s[j].address
}

spec fn total(s: Seq<Account>) -> nat
    decreases s.len(),
{
    if s.len() == 0 {
        0
    } else {
        total(s.drop_last()) + s.last().balance as nat
    }
}

proof fn lemma_map_at(s: Seq<Account>, i: int)
    requires
        distinct(s),
        0 <= i < s.len(),
    ensures
        accounts_map(s).contains_key(s[i].address),
        accounts_map(s)[s[i].address] == s[i]@,
{
    assert(stands_at(s, s[i].address, i));
    let j = index_of(s, s[i].address);
    assert(stands_at(s, s[i].address, j));
    assert(i == j);
}

proof fn lemma_map_absent(s: Seq<Account>, a: Address)
    requires
        forall|i: int| 0 <= i < s.len() ==> s[i].address != a,
    ensures
        !accounts_map(s).contains_key(a),
{
    assert forall|i: int| !stands_at(s, a, i) by {}
}

proof fn lemma_push(s: Seq<Account>, x: Account)
    requires
        distinct(s),
        !accounts_map(s).contains_key(x.address),
    ensures
        distinct(s.push(x)),
        accounts_map(s.push(x)) == accounts_map(s).insert(x.address, x@),
        total(s.push(x)) == total(s) + x.balance,
{
    let t = s.push(x);
    assert(t.drop_last() =~= s);
    assert forall|i: int| 0 <= i < s.len() implies s[i].address != x.address by {
        assert(stands_at(s, s[i].address, i));
    }
    assert(distinct(t));
    assert forall|a: Address| accounts_map(t).contains_key(a) == accounts_map(s).insert(
        x.address,
        x@,
    ).contains_key(a) by {
        if accounts_map(t).contains_key(a) {
            let i = choose|i: int| stands_at(t, a, i);
            if i < s.len() {
                assert(stands_at(s, a, i));
            }
        }
        if accounts_map(s).contains_key(a) {
            let i = choose|i: int| stands_at(s, a, i);
            assert(stands_at(t, a, i));
        }
        if a == x.address {
            assert(stands_at(t, a, s.len() as int));
        }
    }
    assert forall|a: Address| accounts_map(t).contains_key(a) implies accounts_map(t)[a]
        == accounts_map(s).insert(x.address, x@)[a] by {
        let i = choose|i: int| stands_at(t, a, i);
        lemma_map_at(t, i);
        if i < s.len() {
            lemma_map_at(s, i);
        }
    }
    assert(accounts_map(t) =~= accounts_map(s).insert(x.address, x@));
}

proof fn lemma_total_remove(s: Seq<Account>, i: int)
    requires
        0 <= i < s.len(),
    ensures
        total(s.remove(i)) + s[i].balance == total(s),
    decreases s.len(),
{
    if i == s.len() - 1 {
        assert(s.remove(i) =~= s.drop_last());
    } else {
        lemma_total_remove(s.drop_last(), i);
        assert(s.remove(i).drop_last() =~= s.drop_last().remove(i));
        assert(s.remove(i).last() == s.last());
    }
}

proof fn lemma_remove(s: Seq<Account>, i: int)
    requires
        distinct(s),
        0 <= i < s.len(),
    ensures
        distinct(s.remove(i)),
        accounts_map(s.remove(i)) == accounts_map(s).remove(s[i].address),
        total(s.remove(i)) + s[i].balance == total(s),
{
    let t = s.remove(i);
    let gone = s[i].address;
    lemma_total_remove(s, i);
    assert forall|j: int, k: int| 0 <= j < k < t.len() implies t[j].address != t[k].address by {
        let j0 = if j < i { j } else { j + 1 };
        let k0 = if k < i { k } else { k + 1 };
        assert(t[j] == s[j0] && t[k] == s[k0]);
    }
    assert forall|a: Address| accounts_map(t).contains_key(a) == accounts_map(s).remove(
        gone,
    ).contains_key(a) by {
        if accounts_map(t).contains_key(a) {
            let j = choose|j: int| stands_at(t, a, j);
            let j0 = if j < i { j } else { j + 1 };
            assert(t[j] == s[j0]);
            assert(stands_at(s, a, j0));
        }
        if accounts_map(s).contains_key(a) && a != gone {
            let j = choose|j: int| stands_at(s, a, j);
            let j1 = if j < i { j } else { j - 1 };
            assert(t[j1] == s[j]);
            assert(stands_at(t, a, j1));
        }
    }
    assert forall|a: Address| accounts_map(t).contains_key(a) implies accounts_map(t)[a]
        == accounts_map(s).remove(gone)[a] by {
        let j = choose|j: int| stands_at(t, a, j);
        let j0 = if j < i { j } else { j + 1 };
        assert(t[j] == s[j0]);
        lemma_map_at(t, j);
        lemma_map_at(s, j0);
    }
    assert(accounts_map(t) =~= accounts_map(s).remove(gone));
}

/// The ledger: every account that exists, with its value and its data.
pub struct Ledger {
    program: Address,
    storage_price: u64,
    supply: u64,
    accounts: Vec<Account>,
}

impl View for Ledger {
    type V = LedgerView;

    closed spec fn view(&self) -> LedgerView {
        LedgerView {
            program: self.program,
            storage_price: self.storage_price as nat,
            supply: self.supply as nat,
            accounts: accounts_map(self.accounts@),
        }
    }
}

impl Ledger {
    /// The ledger's own invariant: no address stands twice, every account
    /// may stand where it does, and all value together fits a `u64`.
    pub closed spec fn wf(&self) -> bool {
        &&& distinct(self.accounts@)
        &&& total(self.accounts@) == self.supply
        &&& forall|i: int|
            0 <= i < self.accounts@.len() ==> account_ok(
                #[trigger] self.accounts@[i].address,
                self.accounts@[i]@,
            )
    }

    /// All the value that the ledger holds.
    pub open spec fn supply(&self) -> nat {
        self@.supply
    }

    /// A well-formed ledger has a well-formed model, and no account holds
    /// more than the ledger's supply.
    pub proof fn lemma_wf(&self)
        requires
            self.wf(),
        ensures
            self@.wf(),
            self.supply() <= u64::MAX,
            self@.storage_price <= u64::MAX,
            forall|a: Address| #[trigger] self@.balance(a) <= self.supply(),
    {
        let s = self.accounts@;
        assert forall|a: Address| #[trigger]
            self@.accounts.contains_key(a) implies account_ok(a, self@.accounts[a]) by {
            let i = choose|i: int| stands_at(s, a, i);
            lemma_map_at(s, i);
        }
        assert forall|a: Address| #[trigger] self@.balance(a) <= self.supply() by {
            if self@.accounts.contains_key(a) {
                let i = choose|i: int| stands_at(s, a, i);
                lemma_map_at(s, i);
                lemma_total_remove(s, i);
            }
        }
    }

    /// An empty ledger for the records of `program`, where a byte of
    /// storage costs `storage_price`.
    pub fn new(program: Address, storage_price: u64) -> (ledger: Ledger)
        ensures
            ledger.wf(),
            ledger.supply() == 0,
            ledger@.program == program,
            ledger@.storage_price == storage_price,
            ledger@.supply == 0,
            ledger@.accounts == Map::<Address, AccountView>::empty(),
    {
        let ledger = Ledger { program, storage_price, supply: 0, accounts: Vec::new() };
        proof {
            assert(ledger@.accounts =~= Map::<Address, AccountView>::empty()) by {
                assert forall|a: Address| !ledger@.accounts.contains_key(a) by {
                    lemma_map_absent(ledger.accounts@, a);
                }
            }
        }
        ledger
    }

    /// The program that owns the records.
    pub fn program(&self) -> (program: Address)
        ensures
            program == self@.program,
    {
        self.program
    }

    /// The price of a byte of storage.
    pub fn storage_price(&self) -> (price: u64)
        ensures
            price == self@.storage_price,
    {
        self.storage_price
    }

    fn find(&self, a: &Address) -> (r: Option<usize>)
        requires
            self.wf(),
        ensures
            match r {
                Some(i) => i < self.accounts@.len() && self.accounts@[i as int].address == *a
                    && self@.accounts.contains_key(*a) && self@.accounts[*a]
                    == self.accounts@[i as int]@,
                None => !self@.accounts.contains_key(*a),
            },
    {
        let mut i: usize = 0;
        while i < self.accounts.len()
            invariant
                self.wf(),
                i <= self.accounts@.len(),
                forall|k: int| 0 <= k < i ==> self.accounts@[k].address != *a,
            decreases self.accounts@.len() - i,
        {
            if self.accounts[i].address.same(a) {
                proof {
                    lemma_map_at(self.accounts@, i as int);
                }
                return Some(i);
            }
            i += 1;
        }
        proof {
            lemma_map_absent(self.accounts@, *a);
        }
        None
    }

    fn take(&mut self, i: usize) -> (account: Account)
        requires
            old(self).wf(),
            i < old(self).accounts@.len(),
        ensures
            final(self).wf(),
            account == old(self).accounts@[i as int],
            old(self)@.accounts.contains_key(account.address),
            old(self)@.accounts[account.address] == account@,
            account_ok(account.address, account@),
            final(self)@ == (LedgerView {
                accounts: old(self)@.accounts.remove(account.address),
                supply: (old(self)@.supply - account.balance) as nat,
                ..old(self)@
            }),
            final(self).supply() + account.balance == old(self).supply(),
    {
        proof {
            lemma_remove(self.accounts@, i as int);
            lemma_map_at(self.accounts@, i as int);
        }
        let account = self.accounts.remove(i);
        self.supply = self.supply - account.balance;
        proof {
            assert forall|k: int| 0 <= k < self.accounts@.len() implies account_ok(
                #[trigger] self.accounts@[k].address,
                self.accounts@[k]@,
            ) by {
                let k0 = if k < i { k } else { k + 1 };
                assert(self.accounts@[k] == old(self).accounts@[k0]);
            }
        }
        account
    }

    fn put(&mut self, account: Account)
        requires
            old(self).wf(),
            !old(self)@.accounts.contains_key(account.address),
            account_ok(account.address, account@),
            old(self).supply() + account.balance <= u64::MAX,
        ensures
            final(self).wf(),
            final(self)@ == (LedgerView {
                accounts: old(self)@.accounts.insert(account.address, account@),
                supply: old(self)@.supply + account.balance as nat,
                ..old(self)@
            }),
            final(self).supply() == old(self).supply() + account.balance,
    {
        proof {
            lemma_push(self.accounts@, account);
        }
        self.supply = self.supply + account.balance;
        self.accounts.push(account);
    }
}

/// How a caller shows the right to move value out of an account.
#[derive(Clone, Debug, PartialEq, Eq)]
pub enum Authorization {
    /// The caller signed as this address.
    Signature(Address),
    /// The account is the one that the program derives from these seeds.
    Seeds(Vec<Vec<u8>>),
}

impl Authorization {
    /// The bytes of the address that the authorization speaks for under
    /// `program`, if any.
    pub open spec fn proven(&self, program: Address) -> Option<Seq<u8>> {
        match self {
            Authorization::Signature(signer) => Some(signer@),
            Authorization::Seeds(seeds) => derived_address(seed_bytes(seeds@), program),
        }
    }
}

impl Ledger {
    /// All the value that the ledger holds.
    pub fn total_supply(&self) -> (n: u64)
        ensures
            n == self.supply(),
    {
        self.supply
    }

    /// Whether an account exists at `a`.
    pub fn has_account(&self, a: &Address) -> (r: bool)
        requires
            self.wf(),
        ensures
            r == self@.has_account(*a),
    {
        self.find(a).is_some()
    }

    /// The value held at `a`.
    pub fn balance(&self, a: &Address) -> (n: u64)
        requires
            self.wf(),
        ensures
            n == self@.balance(*a),
    {
        match self.find(a) {
            Some(i) => self.accounts[i].balance,
            None => 0,
        }
    }

    /// The value that can be paid out of `a`.
    pub fn available(&self, a: &Address) -> (n: u64)
        requires
            self.wf(),
        ensures
            n == self@.available(*a),
    {
        match self.find(a) {
            Some(i) => match &self.accounts[i].record {
                Record::Wallet => self.accounts[i].balance,
                _ => 0,
            },
            None => 0,
        }
    }

    /// The profile at `a`, if one is there.
    pub fn profile(&self, a: &Address) -> (r: Option<UserProfile>)
        requires
            self.wf(),
        ensures
            match r {
                Some(profile) => self@.profile(*a) == Some(profile@),
                None => self@.profile(*a) is None,
            },
    {
        match self.find(a) {
            Some(i) => match &self.accounts[i].record {
                Record::Profile(profile) => Some(*profile),
                _ => None,
            },
            None => None,
        }
    }

    /// The post at `a`, if one is there.
    pub fn post(&self, a: &Address) -> (r: Option<&Post>)
        requires
            self.wf(),
        ensures
            match r {
                Some(post) => self@.post(*a) == Some(post@),
                None => self@.post(*a) is None,
            },
    {
        match self.find(a) {
            Some(i) => match &self.accounts[i].record {
                Record::Post(post) => Some(post),
                _ => None,
            },
            None => None,
        }
    }

    /// The price of `space` bytes, or `None` where no account could hold
    /// that much.
    pub fn storage_cost(&self, space: u64) -> (r: Option<u64>)
        ensures
            match r {
                Some(cost) => cost == self@.storage_cost(space as nat),
                None => self@.storage_cost(space as nat) > u64::MAX,
            },
    {
        assert(space * self.storage_price <= u64::MAX * u64::MAX) by (nonlinear_arith)
            requires
                0 <= space <= u64::MAX,
                0 <= self.storage_price <= u64::MAX,
        ;
        let cost: u128 = (space as u128) * (self.storage_price as u128);
        if cost > u64::MAX as u128 {
            None
        } else {
            Some(cost as u64)
        }
    }

    /// Takes `amount` out of the wallet at `a`.
    pub(crate) fn withdraw(&mut self, a: &Address, amount: u64)
        requires
            old(self).wf(),
            old(self)@.available(*a) >= amount,
        ensures
            final(self).wf(),
            final(self)@ == old(self)@.withdraw(*a, amount as nat),
            final(self).supply() + amount == old(self).supply(),
    {
        if amount == 0 {
            return ;
        }
        match self.find(a) {
            Some(i) => {
                let mut account = self.take(i);
                if account.balance > amount {
                    account.balance = account.balance - amount;
                    self.put(account);
                }
                proof {
                    assert(self@.accounts =~= old(self)@.withdraw(*a, amount as nat).accounts);
                }
            },
            None => {},
        }
    }

    /// Adds `amount` to the account at `a`, a new wallet where none exists.
    pub(crate) fn deposit(&mut self, a: &Address, amount: u64)
        requires
            old(self).wf(),
            old(self).supply() + amount <= u64::MAX,
        ensures
            final(self).wf(),
            final(self)@ == old(self)@.deposit(*a, amount as nat),
            final(self).supply() == old(self).supply() + amount,
    {
        if amount == 0 {
            return ;
        }
        match self.find(a) {
            Some(i) => {
                let mut account = self.take(i);
                account.balance = account.balance + amount;
                self.put(account);
            },
            None => {
                self.put(Account { address: *a, balance: amount, record: Record::Wallet });
            },
        }
        proof {
            assert(self@.accounts =~= old(self)@.deposit(*a, amount as nat).accounts);
        }
    }

    /// Brings new value into the ledger, at `a`. Nothing happens where the
    /// ledger's supply would no longer fit a `u64`.
    pub fn fund(&mut self, a: &Address, amount: u64) -> (done: bool)
        requires
            old(self).wf(),
        ensures
            final(self).wf(),
            done == (old(self).supply() + amount <= u64::MAX),
            done ==> final(self)@ == old(self)@.deposit(*a, amount as nat),
            done ==> final(self).supply() == old(self).supply() + amount,
            !done ==> final(self)@ == old(self)@ && final(self).supply() == old(self).supply(),
    {
        if amount > u64::MAX - self.supply {
            return false;
        }
        self.deposit(a, amount);
        true
    }

    /// Puts `record` in place of the data of the account at `a`.
    pub(crate) fn store(&mut self, a: &Address, record: Record)
        requires
            old(self).wf(),
            old(self)@.has_account(*a),
            record_ok(*a, record@),
        ensures
            final(self).wf(),
            final(self)@ == old(self)@.with_record(*a, record@),
            final(self).supply() == old(self).supply(),
    {
        match self.find(a) {
            Some(i) => {
                let mut account = self.take(i);
                account.record = record;
                self.put(account);
            },
            None => {},
        }
        proof {
            assert(self@.accounts =~= old(self)@.with_record(*a, record@).accounts);
        }
    }

    /// Moves `amount` from `from` to `to` for a caller who proved to act
    /// for `authority`. Fails with `Unauthorized` unless that is `from`,
    /// with `InsufficientFunds` unless the wallet at `from` holds `amount`.
    pub fn transfer_as(
        &mut self,
        from: &Address,
        to: &Address,
        amount: u64,
        authority: &Option<Address>,
    ) -> (r: Result<(), Error>)
        requires
            old(self).wf(),
        ensures
            final(self).wf(),
            final(self).supply() == old(self).supply(),
            match old(self)@.transfer(*from, *to, amount as nat, bytes_of(*authority)) {
                Ok(after) => r is Ok && final(self)@ == after,
                Err(e) => r == Err::<(), Error>(e) && final(self)@ == old(self)@,
            },
    {
        if !matches_derived(authority, from) {
            return Err(Error::Unauthorized);
        }
        if self.available(from) < amount {
            return Err(Error::InsufficientFunds);
        }
        self.withdraw(from, amount);
        self.deposit(to, amount);
        Ok(())
    }

    /// Moves `amount` from `from` to `to` on the strength of a signature or
    /// of seeds that derive `from`.
    pub fn transfer(
        &mut self,
        from: &Address,
        to: &Address,
        amount: u64,
        authorization: &Authorization,
    ) -> (r: Result<(), Error>)
        requires
            old(self).wf(),
        ensures
            final(self).wf(),
            final(self).supply() == old(self).supply(),
            match old(self)@.transfer(
                *from,
                *to,
                amount as nat,
                authorization.proven(old(self)@.program),
            ) {
                Ok(after) => r is Ok && final(self)@ == after,
                Err(e) => r == Err::<(), Error>(e) && final(self)@ == old(self)@,
            },
    {
        let authority = match authorization {
            Authorization::Signature(signer) => Some(*signer),
            Authorization::Seeds(seeds) => match derive_address(seeds, &self.program) {
                Some((address, _)) => Some(address),
                None => None,
            },
        };
        self.transfer_as(from, to, amount, &authority)
    }

    /// Stores `record` in a new account at `a` with `space` bytes, which
    /// `payer` pays for. Fails with `DuplicateInitialization` where an
    /// account exists at `a`, with `InsufficientFunds` where the payer's
    /// wallet does not hold the price.
    pub fn create(&mut self, a: &Address, space: u64, payer: &Address, record: Record) -> (r:
        Result<(), Error>)
        requires
            old(self).wf(),
            record_ok(*a, record@),
        ensures
            final(self).wf(),
            final(self).supply() == old(self).supply(),
            match old(self)@.create(*a, space as nat, *payer, record@) {
                Ok(after) => r is Ok && final(self)@ == after,
                Err(e) => r == Err::<(), Error>(e) && final(self)@ == old(self)@,
            },
    {
        if self.has_account(a) {
            return Err(Error::DuplicateInitialization);
        }
        let cost = match self.storage_cost(space) {
            Some(cost) => cost,
            None => { return Err(Error::InsufficientFunds); },
        };
        if self.available(payer) < cost {
            return Err(Error::InsufficientFunds);
        }
        self.withdraw(payer, cost);
        self.put(Account { address: *a, balance: cost, record });
        Ok(())
    }

    /// Closes the record at `a` and hands all its value to `recipient`.
    /// Fails with `NotFound` where no record is stored at `a`.
    pub fn close(&mut self, a: &Address, recipient: &Address) -> (r: Result<(), Error>)
        requires
            old(self).wf(),
        ensures
            final(self).wf(),
            final(self).supply() == old(self).supply(),
            match old(self)@.close(*a, *recipient) {
                Ok(after) => r is Ok && final(self)@ == after,
                Err(e) => r == Err::<(), Error>(e) && final(self)@ == old(self)@,
            },
    {
        match self.find(a) {
            Some(i) => {
                if matches!(self.accounts[i].record, Record::Wallet) {
                    return Err(Error::NotFound);
                }
                let account = self.take(i);
                self.deposit(recipient, account.balance);
                Ok(())
            },
            None => Err(Error::NotFound),
        }
    }
}

impl Ledger {
    /// Counts one more post on the profile at `a`.
    pub(crate) fn count_post(&mut self, a: &Address)
        requires
            old(self).wf(),
            old(self)@.profile(*a) is Some,
            old(self)@.profile(*a).unwrap().post_count < u64::MAX,
        ensures
            final(self).wf(),
            final(self).supply() == old(self).supply(),
            final(self)@ == old(self)@.with_record(
                *a,
                RecordView::Profile(old(self)@.profile(*a).unwrap().posted()),
            ),
    {
        match self.profile(a) {
            Some(profile) => {
                let next = UserProfile { user: profile.user, post_count: profile.post_count + 1 };
                self.store(a, Record::Profile(next));
            },
            None => {},
        }
    }

    /// Counts one more like on the post at `a`.
    pub(crate) fn like(&mut self, a: &Address)
        requires
            old(self).wf(),
            old(self)@.post(*a) is Some,
            old(self)@.post(*a).unwrap().like_count < u64::MAX,
        ensures
            final(self).wf(),
            final(self).supply() == old(self).supply(),
            final(self)@ == old(self)@.with_record(
                *a,
                RecordView::Post(old(self)@.post(*a).unwrap().liked()),
            ),
    {
        match self.find(a) {
            Some(i) => {
                let Account { address, balance, record } = self.take(i);
                let record = match record {
                    Record::Post(mut post) => {
                        post.like_count = post.like_count + 1;
                        Record::Post(post)
                    },
                    other => other,
                };
                self.put(Account { address, balance, record });
            },
            None => {},
        }
        proof {
            assert(self@.accounts =~= old(self)@.with_record(
                *a,
                RecordView::Post(old(self)@.post(*a).unwrap().liked()),
            ).accounts);
        }
    }

    /// Appends `comment` to the thread of the post at `a`.
    pub(crate) fn append_comment(&mut self, a: &Address, comment: Comment)
        requires
            old(self).wf(),
            old(self)@.post(*a) is Some,
            old(self)@.post(*a).unwrap().commented(comment@).fits(),
        ensures
            final(self).wf(),
            final(self).supply() == old(self).supply(),
            final(self)@ == old(self)@.with_record(
                *a,
                RecordView::Post(old(self)@.post(*a).unwrap().commented(comment@)),
            ),
    {
        let ghost added = comment@;
        match self.find(a) {
            Some(i) => {
                let Account { address, balance, record } = self.take(i);
                let record = match record {
                    Record::Post(mut post) => {
                        let ghost before = post.comments@;
                        post.comments.push(comment);
                        proof {
                            assert(comment_views(post.comments@) =~= comment_views(before).push(
                                added,
                            ));
                        }
                        Record::Post(post)
                    },
                    other => other,
                };
                self.put(Account { address, balance, record });
            },
            None => {},
        }
        proof {
            assert(self@.accounts =~= old(self)@.with_record(
                *a,
                RecordView::Post(old(self)@.post(*a).unwrap().commented(added)),
            ).accounts);
        }
    }
}

} // verus!
