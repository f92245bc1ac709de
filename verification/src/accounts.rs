//! Amounts recorded per address, kept in the order of the addresses' bytes
//! so that they can be listed page by page.

use vstd::prelude::*;
use vstd::string::*;
use vstd::utf8::{encode_utf8, encode_utf8_decode_utf8};
use crate::error::{ContractError, Failure};

verus! {

/// The bytes an address is ordered by: its UTF-8 encoding.
pub open spec fn key_bytes(addr: Seq<char>) -> Seq<u8> {
    encode_utf8(addr)
}

/// `a` and `b` agree before position `i`, and there `a` ends or holds the
/// smaller byte.
pub open spec fn differs_at(a: Seq<u8>, b: Seq<u8>, i: int) -> bool {
    &&& 0 <= i <= a.len()
    &&& i < b.len()
    &&& forall|j: int| 0 <= j < i ==> a[j] == b[j]
    &&& (i == a.len() || a[i] < b[i])
}

/// `a` comes before `b` in lexicographic order.
pub open spec fn bytes_lt(a: Seq<u8>, b: Seq<u8>) -> bool {
    exists|i: int| differs_at(a, b, i)
}

/// Address `a` comes before address `b`.
pub open spec fn addr_lt(a: Seq<char>, b: Seq<char>) -> bool {
    bytes_lt(key_bytes(a), key_bytes(b))
}

pub proof fn lemma_bytes_lt_irreflexive(a: Seq<u8>)
    ensures
        !bytes_lt(a, a),
{
    assert forall|i: int| !differs_at(a, a, i) by {}
}

pub proof fn lemma_bytes_lt_transitive(a: Seq<u8>, b: Seq<u8>, c: Seq<u8>)
    requires
        bytes_lt(a, b),
        bytes_lt(b, c),
    ensures
        bytes_lt(a, c),
{
    let i1 = choose|i: int| differs_at(a, b, i);
    let i2 = choose|i: int| differs_at(b, c, i);
    if i1 <= i2 {
        assert(differs_at(a, c, i1));
    } else {
        assert(differs_at(a, c, i2));
    }
}

/// Two addresses with the same bytes are the same address.
pub proof fn lemma_key_bytes_injective(a: Seq<char>, b: Seq<char>)
    requires
        key_bytes(a) == key_bytes(b),
    ensures
        a == b,
{
    encode_utf8_decode_utf8(a);
    encode_utf8_decode_utf8(b);
}

pub proof fn lemma_addr_lt_distinct(a: Seq<char>, b: Seq<char>)
    requires
        addr_lt(a, b),
    ensures
        a != b,
{
    lemma_bytes_lt_irreflexive(key_bytes(a));
}

/// How one address stands to another in the order of their bytes.
#[derive(Clone, Copy, Debug, PartialEq, Eq, Structural)]
pub enum Order {
    Before,
    Same,
    After,
}

/// Whether `o` is how `a` stands to `b`.
pub open spec fn is_order(o: Order, a: Seq<char>, b: Seq<char>) -> bool {
    match o {
        Order::Before => addr_lt(a, b),
        Order::Same => a == b,
        Order::After => addr_lt(b, a),
    }
}

/// Where `a` stands to `b` in the order of their bytes.
pub fn compare_addresses(a: &str, b: &str) -> (o: Order)
    ensures
        is_order(o, a@, b@),
{
    let x = a.as_bytes();
    let y = b.as_bytes();
    let mut i: usize = 0;
    while i < x.len() && i < y.len()
        invariant
            x@ == key_bytes(a@),
            y@ == key_bytes(b@),
            i <= x.len(),
            i <= y.len(),
            forall|j: int| 0 <= j < i ==> x@[j] == y@[j],
        decreases x.len() - i,
    {
        if x[i] < y[i] {
            assert(differs_at(x@, y@, i as int));
            return Order::Before;
        }
        if x[i] > y[i] {
            assert(differs_at(y@, x@, i as int));
            return Order::After;
        }
        i = i + 1;
    }
    if x.len() < y.len() {
        assert(differs_at(x@, y@, i as int));
        Order::Before
    } else if x.len() > y.len() {
        assert(differs_at(y@, x@, i as int));
        Order::After
    } else {
        proof {
            assert(x@ =~= y@);
            lemma_key_bytes_injective(a@, b@);
        }
        Order::Same
    }
}

/// An address and the amount recorded for it.
#[derive(Clone, Debug, PartialEq, Eq)]
pub struct Account {
    pub address: String,
    pub amount: u128,
}

/// The accounts are in strictly ascending order of their addresses.
pub open spec fn sorted(s: Seq<Account>) -> bool {
    forall|i: int, j: int|
        #![trigger s[i], s[j]]
        0 <= i < j < s.len() ==> addr_lt(s[i].address@, s[j].address@)
}

/// The sum of the amounts.
pub open spec fn sum(s: Seq<Account>) -> nat
    decreases s.len(),
{
    if s.len() == 0 {
        0
    } else {
        sum(s.drop_last()) + s.last().amount as nat
    }
}

/// Whether there is an account for the address.
pub open spec fn holds(s: Seq<Account>, addr: Seq<char>) -> bool {
    exists|i: int| 0 <= i < s.len() && (#[trigger] s[i]).address@ == addr
}

/// The place of an address's account.
pub open spec fn position(s: Seq<Account>, addr: Seq<char>) -> int {
    choose|i: int| 0 <= i < s.len() && (#[trigger] s[i]).address@ == addr
}

/// The amounts by address.
pub open spec fn balances(s: Seq<Account>) -> Map<Seq<char>, nat> {
    Map::new(|addr: Seq<char>| holds(s, addr), |addr: Seq<char>| s[position(s, addr)].amount as nat)
}

/// Whether an account comes after the address a listing resumes from.
pub open spec fn follows(start_after: Option<Seq<char>>, account: Account) -> bool {
    match start_after {
        None => true,
        Some(addr) => addr_lt(addr, account.address@),
    }
}

/// The address a listing resumes from.
pub open spec fn start_key(start_after: Option<&str>) -> Option<Seq<char>> {
    match start_after {
        None => None,
        Some(addr) => Some(addr@),
    }
}

/// Whether `from` is where the accounts after `start_after` begin.
pub open spec fn is_page_start(s: Seq<Account>, start_after: Option<Seq<char>>, from: int) -> bool {
    &&& 0 <= from <= s.len()
    &&& forall|j: int| 0 <= j < s.len() ==> (follows(start_after, #[trigger] s[j]) <==> j >= from)
}

/// Accounts as pairs of address and amount.
pub open spec fn listing(s: Seq<Account>) -> Seq<(Seq<char>, nat)> {
    Seq::new(s.len(), |i: int| (s[i].address@, s[i].amount as nat))
}

/// Pairs as pairs of address and amount.
pub open spec fn pairs(s: Seq<(String, u128)>) -> Seq<(Seq<char>, nat)> {
    Seq::new(s.len(), |i: int| (s[i].0@, s[i].1 as nat))
}

/// The page of at most `limit` accounts that begins at `from`.
pub open spec fn page_at(s: Seq<Account>, from: int, limit: nat) -> Seq<(Seq<char>, nat)> {
    let end = if from + limit <= s.len() { from + limit } else { s.len() as int };
    listing(s.subrange(from, end))
}

pub proof fn lemma_position_unique(s: Seq<Account>, p: int)
    requires
        sorted(s),
        0 <= p < s.len(),
    ensures
        holds(s, s[p].address@),
        position(s, s[p].address@) == p,
{
    let addr = s[p].address@;
    let q = position(s, addr);
    assert(s[q].address@ == addr);
    if q < p {
        lemma_addr_lt_distinct(s[q].address@, s[p].address@);
    } else if p < q {
        lemma_addr_lt_distinct(s[p].address@, s[q].address@);
    }
}

pub proof fn lemma_sum_insert(s: Seq<Account>, i: int, account: Account)
    requires
        0 <= i <= s.len(),
    ensures
        sum(s.insert(i, account)) == sum(s) + account.amount,
    decreases s.len() - i,
{
    let t = s.insert(i, account);
    if i == s.len() {
        assert(t.drop_last() =~= s);
    } else {
        assert(t.drop_last() =~= s.drop_last().insert(i, account));
        lemma_sum_insert(s.drop_last(), i, account);
    }
}

pub proof fn lemma_sum_update(s: Seq<Account>, i: int, account: Account)
    requires
        0 <= i < s.len(),
    ensures
        sum(s.update(i, account)) + s[i].amount == sum(s) + account.amount,
    decreases s.len() - i,
{
    let t = s.update(i, account);
    if i == s.len() - 1 {
        assert(t.drop_last() =~= s.drop_last());
    } else {
        assert(t.drop_last() =~= s.drop_last().update(i, account));
        lemma_sum_update(s.drop_last(), i, account);
    }
}

pub proof fn lemma_sum_take(s: Seq<Account>, i: int)
    requires
        0 <= i <= s.len(),
    ensures
        sum(s.take(i)) <= sum(s),
        i < s.len() ==> sum(s.take(i + 1)) == sum(s.take(i)) + s[i].amount,
    decreases s.len() - i,
{
    if i == s.len() {
        assert(s.take(i) =~= s);
    } else {
        assert(s.take(i + 1).drop_last() =~= s.take(i));
        lemma_sum_take(s, i + 1);
    }
}

/// An amount is no more than the sum it is part of.
pub proof fn lemma_sum_bounds_each(s: Seq<Account>, i: int)
    requires
        0 <= i < s.len(),
    ensures
        s[i].amount <= sum(s),
{
    lemma_sum_take(s, i);
    lemma_sum_take(s, i + 1);
}

/// Recording an account at its place in the order keeps the order and adds
/// the account to the balances.
pub proof fn lemma_insert_account(s: Seq<Account>, i: int, account: Account)
    requires
        sorted(s),
        0 <= i <= s.len(),
        forall|j: int| 0 <= j < i ==> addr_lt((#[trigger] s[j]).address@, account.address@),
        i < s.len() ==> addr_lt(account.address@, s[i].address@),
    ensures
        sorted(s.insert(i, account)),
        !holds(s, account.address@),
        balances(s.insert(i, account)) =~= balances(s).insert(
            account.address@,
            account.amount as nat,
        ),
{
    let t = s.insert(i, account);
    let addr = account.address@;
    assert forall|j: int| i <= j < s.len() implies addr_lt(addr, (#[trigger] s[j]).address@) by {
        if j > i {
            lemma_bytes_lt_transitive(
                key_bytes(addr),
                key_bytes(s[i].address@),
                key_bytes(s[j].address@),
            );
        }
    }
    assert forall|j: int| 0 <= j < s.len() implies (#[trigger] s[j]).address@ != addr by {
        if j < i {
            lemma_addr_lt_distinct(s[j].address@, addr);
        } else {
            lemma_addr_lt_distinct(addr, s[j].address@);
        }
    }
    assert forall|a: int, b: int| 0 <= a < b < t.len() implies addr_lt(
        (#[trigger] t[a]).address@,
        (#[trigger] t[b]).address@,
    ) by {
        if b < i {
            assert(t[a] == s[a] && t[b] == s[b]);
        } else if b == i {
            assert(t[a] == s[a]);
        } else if a < i {
            assert(t[a] == s[a] && t[b] == s[b - 1]);
        } else if a == i {
            assert(t[b] == s[b - 1]);
        } else {
            assert(t[a] == s[a - 1] && t[b] == s[b - 1]);
        }
    }
    assert forall|q: Seq<char>| holds(t, q) <==> (q == addr || holds(s, q)) by {
        if holds(t, q) {
            let p = position(t, q);
            if p < i {
                assert(s[p].address@ == q);
            } else if p > i {
                assert(s[p - 1].address@ == q);
            }
        }
        if q == addr {
            assert(t[i].address@ == q);
        }
        if holds(s, q) {
            let p = position(s, q);
            if p < i {
                assert(t[p].address@ == q);
            } else {
                assert(t[p + 1].address@ == q);
            }
        }
    }
    assert forall|q: Seq<char>| holds(t, q) implies t[position(t, q)].amount as nat
        == balances(s).insert(addr, account.amount as nat)[q] by {
        let p = position(t, q);
        if p == i {
        } else if p < i {
            assert(t[p] == s[p]);
            lemma_position_unique(s, p);
        } else {
            assert(t[p] == s[p - 1]);
            lemma_position_unique(s, p - 1);
        }
    }
}

/// Changing the amount of an account keeps the order and changes that
/// balance alone.
pub proof fn lemma_update_account(s: Seq<Account>, i: int, account: Account)
    requires
        sorted(s),
        0 <= i < s.len(),
        account.address@ == s[i].address@,
    ensures
        sorted(s.update(i, account)),
        balances(s.update(i, account)) =~= balances(s).insert(
            account.address@,
            account.amount as nat,
        ),
{
    let t = s.update(i, account);
    let addr = account.address@;
    assert forall|a: int, b: int| 0 <= a < b < t.len() implies addr_lt(
        (#[trigger] t[a]).address@,
        (#[trigger] t[b]).address@,
    ) by {
        assert(t[a].address@ == s[a].address@);
        assert(t[b].address@ == s[b].address@);
    }
    assert forall|q: Seq<char>| holds(t, q) <==> (q == addr || holds(s, q)) by {
        if holds(t, q) {
            let p = position(t, q);
            assert(s[p].address@ == q);
        }
        if q == addr {
            assert(t[i].address@ == q);
        }
        if holds(s, q) {
            let p = position(s, q);
            assert(t[p].address@ == q);
        }
    }
    assert forall|q: Seq<char>| holds(t, q) implies t[position(t, q)].amount as nat
        == balances(s).insert(addr, account.amount as nat)[q] by {
        let p = position(t, q);
        lemma_position_unique(t, p);
        if p != i {
            assert(t[p] == s[p]);
            lemma_position_unique(s, p);
            lemma_position_unique(s, i);
        }
    }
}

/// Amounts recorded by address. No address occurs twice, the accounts are in
/// ascending order of their addresses, and the amounts add up to a `u128`.
#[derive(Clone, Debug, PartialEq, Eq)]
pub struct Accounts {
    pub entries: Vec<Account>,
}

impl View for Accounts {
    type V = Map<Seq<char>, nat>;

    open spec fn view(&self) -> Map<Seq<char>, nat> {
        balances(self.entries@)
    }
}

impl Accounts {
    pub open spec fn wf(&self) -> bool {
        sorted(self.entries@) && sum(self.entries@) <= u128::MAX
    }

    /// The amount recorded for an address; zero where there is none.
    pub open spec fn amount_of(&self, addr: Seq<char>) -> nat {
        if self@.contains_key(addr) {
            self@[addr]
        } else {
            0
        }
    }

    /// The sum of all amounts.
    pub open spec fn total(&self) -> nat {
        sum(self.entries@)
    }

    /// No accounts.
    pub fn new() -> (r: Accounts)
        ensures
            r.wf(),
            r@ =~= Map::<Seq<char>, nat>::empty(),
            r.total() == 0,
            r.entries@.len() == 0,
    {
        Accounts { entries: Vec::new() }
    }

    /// Whether the accounts are in order and their amounts add up.
    pub fn is_wf(&self) -> (b: bool)
        ensures
            b == self.wf(),
    {
        let n = self.entries.len();
        let mut acc: u128 = 0;
        let mut i: usize = 0;
        while i < n
            invariant
                n == self.entries@.len(),
                i <= n,
                acc == sum(self.entries@.take(i as int)),
                sorted(self.entries@.take(i as int)),
            decreases n - i,
        {
            let ghost s = self.entries@;
            proof {
                lemma_sum_take(s, i as int);
            }
            if i > 0 {
                match compare_addresses(
                    self.entries[i - 1].address.as_str(),
                    self.entries[i].address.as_str(),
                ) {
                    Order::Before => {},
                    _ => {
                        proof {
                            let a = s[i - 1].address@;
                            let b = s[i as int].address@;
                            if addr_lt(a, b) {
                                lemma_addr_lt_distinct(a, b);
                                if addr_lt(b, a) {
                                    lemma_bytes_lt_transitive(key_bytes(a), key_bytes(b), key_bytes(a));
                                    lemma_bytes_lt_irreflexive(key_bytes(a));
                                }
                            }
                        }
                        return false;
                    },
                }
            }
            match acc.checked_add(self.entries[i].amount) {
                Some(next) => {
                    acc = next;
                },
                None => {
                    proof {
                        lemma_sum_take(s, i + 1);
                    }
                    return false;
                },
            }
            proof {
                let t = s.take(i + 1);
                assert forall|a: int, b: int| 0 <= a < b < t.len() implies addr_lt(
                    (#[trigger] t[a]).address@,
                    (#[trigger] t[b]).address@,
                ) by {
                    if b < i {
                        assert(s.take(i as int)[a] == t[a] && s.take(i as int)[b] == t[b]);
                    } else if a < i - 1 {
                        assert(s.take(i as int)[a] == t[a]);
                        assert(s.take(i as int)[i - 1] == t[i - 1]);
                        lemma_bytes_lt_transitive(
                            key_bytes(t[a].address@),
                            key_bytes(t[i - 1].address@),
                            key_bytes(t[b].address@),
                        );
                    }
                }
            }
            i = i + 1;
        }
        assert(self.entries@.take(n as int) =~= self.entries@);
        true
    }

    /// The amount recorded for an address; zero where there is none.
    pub fn get(&self, addr: &str) -> (r: u128)
        requires
            self.wf(),
        ensures
            r == self.amount_of(addr@),
    {
        let n = self.entries.len();
        let mut i: usize = 0;
        while i < n
            invariant
                n == self.entries@.len(),
                i <= n,
                self.wf(),
                forall|j: int| 0 <= j < i ==> (#[trigger] self.entries@[j]).address@ != addr@,
            decreases n - i,
        {
            match compare_addresses(self.entries[i].address.as_str(), addr) {
                Order::Same => {
                    proof {
                        lemma_position_unique(self.entries@, i as int);
                    }
                    return self.entries[i].amount;
                },
                Order::Before => {
                    proof {
                        lemma_addr_lt_distinct(self.entries@[i as int].address@, addr@);
                    }
                },
                Order::After => {
                    proof {
                        lemma_addr_lt_distinct(addr@, self.entries@[i as int].address@);
                    }
                },
            }
            i = i + 1;
        }
        0
    }

    /// The sum of all amounts.
    pub fn total_amount(&self) -> (r: u128)
        requires
            self.wf(),
        ensures
            r == self.total(),
    {
        let n = self.entries.len();
        let mut acc: u128 = 0;
        let mut i: usize = 0;
        while i < n
            invariant
                n == self.entries@.len(),
                i <= n,
                self.wf(),
                acc == sum(self.entries@.take(i as int)),
            decreases n - i,
        {
            proof {
                lemma_sum_take(self.entries@, i as int);
                lemma_sum_take(self.entries@, i + 1);
            }
            acc = acc + self.entries[i].amount;
            i = i + 1;
        }
        assert(self.entries@.take(n as int) =~= self.entries@);
        acc
    }

    /// Adds an amount to what is recorded for an address, and returns the
    /// new amount. Fails, changing nothing, where the sum of all amounts
    /// would no longer fit.
    pub fn add(&mut self, addr: &str, amount: u128) -> (r: Result<u128, ContractError>)
        requires
            old(self).wf(),
        ensures
            final(self).wf(),
            match r {
                Ok(recorded) => {
                    &&& old(self).total() + amount <= u128::MAX
                    &&& recorded == old(self).amount_of(addr@) + amount
                    &&& final(self)@ == old(self)@.insert(addr@, recorded as nat)
                    &&& final(self).total() == old(self).total() + amount
                },
                Err(e) => {
                    &&& e@ == Failure::ArithmeticOverflow
                    &&& old(self).total() + amount > u128::MAX
                    &&& *final(self) == *old(self)
                },
            },
    {
        let total = self.total_amount();
        if total.checked_add(amount).is_none() {
            return Err(ContractError::ArithmeticOverflow);
        }
        let ghost s = self.entries@;
        let n = self.entries.len();
        let mut i: usize = 0;
        let mut passed = false;
        while i < n && !passed
            invariant
                n == s.len(),
                s == self.entries@,
                *self == *old(self),
                i <= n,
                self.wf(),
                sum(s) + amount <= u128::MAX,
                forall|j: int| 0 <= j < i ==> addr_lt((#[trigger] s[j]).address@, addr@),
                passed ==> i < n && addr_lt(addr@, s[i as int].address@),
            decreases n - i + if passed { 0int } else { 1int },
        {
            match compare_addresses(self.entries[i].address.as_str(), addr) {
                Order::Before => {
                    i = i + 1;
                },
                Order::Same => {
                    proof {
                        lemma_position_unique(s, i as int);
                        lemma_sum_bounds_each(s, i as int);
                    }
                    let recorded: u128 = self.entries[i].amount + amount;
                    let account = Account { address: self.entries[i].address.clone(), amount: recorded };
                    proof {
                        lemma_update_account(s, i as int, account);
                        lemma_sum_update(s, i as int, account);
                    }
                    self.entries.set(i, account);
                    return Ok(recorded);
                },
                Order::After => {
                    passed = true;
                },
            }
        }
        let account = Account { address: String::from_str(addr), amount };
        proof {
            lemma_insert_account(s, i as int, account);
            lemma_sum_insert(s, i as int, account);
        }
        self.entries.insert(i, account);
        Ok(amount)
    }

    /// At most `limit` accounts, in the order of their addresses, beginning
    /// after `start_after` where that is given.
    pub fn page(&self, start_after: Option<&str>, limit: u32) -> (r: Vec<(String, u128)>)
        requires
            self.wf(),
        ensures
            r@.len() <= limit,
            exists|from: int|
                is_page_start(self.entries@, start_key(start_after), from) && pairs(r@)
                    == page_at(self.entries@, from, limit as nat),
    {
        let ghost s = self.entries@;
        let ghost after = start_key(start_after);
        let n = self.entries.len();
        let mut from: usize = 0;
        if let Some(addr) = start_after {
            let mut passed = false;
            while from < n && !passed
                invariant
                    n == s.len(),
                    s == self.entries@,
                    from <= n,
                    self.wf(),
                    after == Some(addr@),
                    forall|j: int| 0 <= j < from ==> !follows(after, #[trigger] s[j]),
                    passed ==> from < n && addr_lt(addr@, s[from as int].address@),
                decreases n - from + if passed { 0int } else { 1int },
            {
                match compare_addresses(addr, self.entries[from].address.as_str()) {
                    Order::Before => {
                        passed = true;
                    },
                    Order::Same => {
                        proof {
                            lemma_bytes_lt_irreflexive(key_bytes(addr@));
                        }
                        from = from + 1;
                    },
                    Order::After => {
                        proof {
                            let e = s[from as int].address@;
                            if addr_lt(addr@, e) {
                                lemma_bytes_lt_transitive(key_bytes(e), key_bytes(addr@), key_bytes(e));
                                lemma_bytes_lt_irreflexive(key_bytes(e));
                            }
                        }
                        from = from + 1;
                    },
                }
            }
            proof {
                assert forall|j: int| from <= j < s.len() implies follows(after, #[trigger] s[j]) by {
                    if j > from {
                        lemma_bytes_lt_transitive(
                            key_bytes(addr@),
                            key_bytes(s[from as int].address@),
                            key_bytes(s[j].address@),
                        );
                    }
                }
            }
        }
        assert(is_page_start(s, after, from as int));
        let mut out: Vec<(String, u128)> = Vec::new();
        let mut i: usize = from;
        let mut taken: u32 = 0;
        while i < n && taken < limit
            invariant
                n == s.len(),
                s == self.entries@,
                from <= i <= n,
                taken <= limit,
                i == from + taken,
                out@.len() == taken,
                forall|k: int|
                    0 <= k < taken ==> (#[trigger] out@[k]).0@ == s[from + k].address@ && out@[k].1
                        == s[from + k].amount,
            decreases n - i,
        {
            out.push((self.entries[i].address.clone(), self.entries[i].amount));
            i = i + 1;
            taken = taken + 1;
        }
        assert(pairs(out@) =~= page_at(s, from as int, limit as nat));
        out
    }
}

} // verus!
