//! Configured TV accounts, and how the target TV of a command is found.
use vstd::prelude::*;
use crate::error::{Error, ErrorCode, ErrorView, opt_view};
use crate::text::{
    chars_of, compare_strs, lemma_lex_transitive, lemma_lex_trichotomy, lex_lt, owned, push_str,
    str_eq, trim, trim_chars, trimmed,
};

verus! {

broadcast use vstd::string::group_string_axioms;

/// A configured TV: its address, MAC address and model (both may be empty), and when it
/// was added.
#[derive(Debug)]
pub struct AccountConfig {
    pub host: String,
    pub mac: String,
    pub model: String,
    pub added_at: String,
}

/// The mathematical value of an account.
pub struct AccountView {
    pub host: Seq<char>,
    pub mac: Seq<char>,
    pub model: Seq<char>,
    pub added_at: Seq<char>,
}

impl View for AccountConfig {
    type V = AccountView;

    open spec fn view(&self) -> AccountView {
        AccountView { host: self.host@, mac: self.mac@, model: self.model@, added_at: self.added_at@ }
    }
}

impl AccountConfig {
    /// A copy of this account.
    pub fn copy(&self) -> (r: AccountConfig)
        ensures
            r@ == self@,
    {
        AccountConfig {
            host: self.host.clone(),
            mac: self.mac.clone(),
            model: self.model.clone(),
            added_at: self.added_at.clone(),
        }
    }
}

/// The account a pairing saves: the TV's host, no MAC address or model, stamped
/// `added_at`.
pub fn paired_account(host: &str, added_at: String) -> (r: AccountConfig)
    ensures
        r@ == (AccountView { host: host@, mac: Seq::empty(), model: Seq::empty(), added_at: added_at@ }),
{
    AccountConfig { host: owned(host), mac: String::new(), model: String::new(), added_at }
}

/// The views of named accounts.
pub open spec fn entries_view(s: Seq<(String, AccountConfig)>) -> Seq<(Seq<char>, AccountView)> {
    Seq::new(s.len() as nat, |i: int| (s[i].0@, s[i].1@))
}

/// No name occurs twice.
pub open spec fn names_unique(v: Seq<(Seq<char>, AccountView)>) -> bool {
    forall|i: int, j: int| 0 <= i < j < v.len() ==> #[trigger] v[i].0 != #[trigger] v[j].0
}

/// The position of the account named `name`.
pub open spec fn index_of(v: Seq<(Seq<char>, AccountView)>, name: Seq<char>) -> Option<int> {
    if exists|i: int| 0 <= i < v.len() && #[trigger] v[i].0 == name {
        Some(choose|i: int| 0 <= i < v.len() && #[trigger] v[i].0 == name)
    } else {
        None
    }
}

/// The accounts after `insert`: an existing account of that name is replaced in its
/// place; a new one is appended.
pub open spec fn inserted(v: Seq<(Seq<char>, AccountView)>, name: Seq<char>, acct: AccountView) -> Seq<(Seq<char>, AccountView)> {
    match index_of(v, name) {
        Some(i) => v.update(i, (name, acct)),
        None => v.push((name, acct)),
    }
}

/// The accounts after removing the one named `name` (the others keep their order).
pub open spec fn removed(v: Seq<(Seq<char>, AccountView)>, name: Seq<char>) -> Seq<(Seq<char>, AccountView)> {
    match index_of(v, name) {
        Some(i) => v.remove(i),
        None => v,
    }
}

/// The configured TV accounts, in the order they were added, each name once.
pub struct Config {
    accounts: Vec<(String, AccountConfig)>,
}

impl View for Config {
    type V = Seq<(Seq<char>, AccountView)>;

    closed spec fn view(&self) -> Seq<(Seq<char>, AccountView)> {
        entries_view(self.accounts@)
    }
}

/// A found position holds the name.
pub proof fn lemma_index_of_found(v: Seq<(Seq<char>, AccountView)>, name: Seq<char>)
    ensures
        index_of(v, name) matches Some(i) ==> 0 <= i < v.len() && v[i].0 == name,
        index_of(v, name) is None ==> forall|k: int| 0 <= k < v.len() ==> #[trigger] v[k].0 != name,
{
}

proof fn lemma_index_of(v: Seq<(Seq<char>, AccountView)>, name: Seq<char>, i: int)
    requires
        names_unique(v),
        0 <= i < v.len(),
        v[i].0 == name,
    ensures
        index_of(v, name) == Some(i),
{
}

/// A name keeps naming one account after `insert`: looking up the inserted name finds
/// the inserted account, and any other name finds what it found before.
pub proof fn lemma_find_after_insert(
    v: Seq<(Seq<char>, AccountView)>,
    name: Seq<char>,
    acct: AccountView,
    other: Seq<char>,
)
    requires
        names_unique(v),
    ensures
        names_unique(inserted(v, name, acct)),
        index_of(inserted(v, name, acct), name) matches Some(i) && inserted(v, name, acct)[i] == (
        name,
        acct,
    ),
        other != name ==> (match index_of(v, other) {
            Some(j) => index_of(inserted(v, name, acct), other) matches Some(k) && inserted(
                v,
                name,
                acct,
            )[k] == v[j],
            None => index_of(inserted(v, name, acct), other) is None,
        }),
{
    lemma_index_of_found(v, name);
    lemma_index_of_found(v, other);
    let nv = inserted(v, name, acct);
    let pos = match index_of(v, name) {
        Some(i) => i,
        None => v.len() as int,
    };
    assert(nv[pos] == (name, acct));
    assert forall|a: int, b: int| 0 <= a < b < nv.len() implies #[trigger] nv[a].0 != #[trigger] nv[b].0 by {
        if a != pos && b != pos {
            assert(nv[a] == v[a] && nv[b] == v[b]);
        } else if a == pos {
            assert(nv[b] == v[b]);
        } else {
            assert(nv[a] == v[a]);
        }
    }
    lemma_index_of(nv, name, pos);
    if other != name {
        match index_of(v, other) {
            Some(j) => {
                assert(j != pos);
                assert(nv[j] == v[j]);
                lemma_index_of(nv, other, j);
            },
            None => {
                assert forall|k: int| 0 <= k < nv.len() implies #[trigger] nv[k].0 != other by {
                    if k != pos {
                        assert(nv[k] == v[k]);
                    }
                }
            },
        }
    }
}

/// After removing a name, no account has that name, and any other name finds what it
/// found before.
pub proof fn lemma_find_after_remove(v: Seq<(Seq<char>, AccountView)>, name: Seq<char>, other: Seq<char>)
    requires
        names_unique(v),
    ensures
        index_of(removed(v, name), name) is None,
        other != name ==> (match index_of(v, other) {
            Some(j) => index_of(removed(v, name), other) matches Some(k) && removed(v, name)[k] == v[j],
            None => index_of(removed(v, name), other) is None,
        }),
{
    lemma_index_of_found(v, name);
    lemma_index_of_found(v, other);
    let nv = removed(v, name);
    match index_of(v, name) {
        Some(i) => {
            assert forall|k: int| 0 <= k < nv.len() implies #[trigger] nv[k].0 != name by {
                if k < i {
                    assert(nv[k] == v[k]);
                } else {
                    assert(nv[k] == v[k + 1]);
                }
            }
            assert forall|a: int, b: int| 0 <= a < b < nv.len() implies #[trigger] nv[a].0 != #[trigger] nv[b].0 by {
                let a2 = if a < i { a } else { a + 1 };
                let b2 = if b < i { b } else { b + 1 };
                assert(nv[a] == v[a2] && nv[b] == v[b2]);
            }
            if other != name {
                match index_of(v, other) {
                    Some(j) => {
                        let k = if j < i { j } else { j - 1 };
                        assert(nv[k] == v[j]);
                        lemma_index_of(nv, other, k);
                    },
                    None => {
                        assert forall|k: int| 0 <= k < nv.len() implies #[trigger] nv[k].0 != other by {
                            if k < i {
                                assert(nv[k] == v[k]);
                            } else {
                                assert(nv[k] == v[k + 1]);
                            }
                        }
                    },
                }
            }
        },
        None => {
            if other != name {
                match index_of(v, other) {
                    Some(j) => {
                        lemma_index_of(nv, other, j);
                    },
                    None => {},
                }
            }
        },
    }
}

impl Config {
    #[verifier::type_invariant]
    closed spec fn unique_names(self) -> bool {
        names_unique(entries_view(self.accounts@))
    }

    /// No account.
    pub fn new() -> (c: Config)
        ensures
            c@ == Seq::<(Seq<char>, AccountView)>::empty(),
    {
        let c = Config { accounts: Vec::new() };
        assert(c@ =~= Seq::<(Seq<char>, AccountView)>::empty());
        c
    }

    /// The number of accounts.
    pub fn len(&self) -> (n: usize)
        ensures
            n == self@.len(),
            names_unique(self@),
    {
        proof {
            use_type_invariant(self);
        }
        self.accounts.len()
    }

    /// Whether there is no account.
    pub fn is_empty(&self) -> (b: bool)
        ensures
            b == (self@.len() == 0),
    {
        self.accounts.len() == 0
    }

    /// The account at position `i`, with its name.
    pub fn entry(&self, i: usize) -> (r: (&String, &AccountConfig))
        requires
            i < self@.len(),
        ensures
            (r.0@, r.1@) == self@[i as int],
    {
        (&self.accounts[i].0, &self.accounts[i].1)
    }

    /// The account named `name` (compared exactly), with its stored name.
    pub fn find(&self, name: &str) -> (r: Option<(&String, &AccountConfig)>)
        ensures
            match index_of(self@, name@) {
                Some(i) => r matches Some(p) && (p.0@, p.1@) == self@[i],
                None => r is None,
            },
    {
        match self.position(name) {
            Some(i) => {
                assert(self@[i as int] == (self.accounts@[i as int].0@, self.accounts@[i as int].1@));
                Some((&self.accounts[i].0, &self.accounts[i].1))
            },
            None => None,
        }
    }

    /// The position of the account named `name`.
    pub fn position(&self, name: &str) -> (r: Option<usize>)
        ensures
            r matches Some(k) ==> index_of(self@, name@) == Some(k as int),
            r is None ==> index_of(self@, name@) is None,
    {
        proof {
            use_type_invariant(self);
        }
        let mut i: usize = 0;
        while i < self.accounts.len()
            invariant
                i <= self@.len(),
                names_unique(self@),
                forall|j: int| 0 <= j < i ==> #[trigger] self@[j].0 != name@,
            decreases self@.len() - i,
        {
            if str_eq(self.accounts[i].0.as_str(), name) {
                proof {
                    lemma_index_of(self@, name@, i as int);
                }
                return Some(i);
            }
            i += 1;
        }
        None
    }

    /// Sets the account `name`: replaced in its place when the name is known, appended
    /// otherwise.
    pub fn insert(&mut self, name: String, acct: AccountConfig)
        ensures
            final(self)@ == inserted(old(self)@, name@, acct@),
    {
        proof {
            use_type_invariant(&*self);
        }
        let pos = self.position(name.as_str());
        let ghost before = self@;
        proof {
            lemma_index_of_found(before, name@);
        }
        let mut v: Vec<(String, AccountConfig)> = Vec::new();
        std::mem::swap(&mut v, &mut self.accounts);
        assert(entries_view(v@) == before);
        let ghost entry = (name@, acct@);
        match pos {
            Some(i) => {
                v.set(i, (name, acct));
                assert(entries_view(v@) =~= before.update(i as int, entry));
            },
            None => {
                v.push((name, acct));
                assert(entries_view(v@) =~= before.push(entry));
            },
        }
        proof {
            let nv = entries_view(v@);
            assert forall|a: int, b: int| 0 <= a < b < nv.len() implies #[trigger] nv[a].0 != #[trigger] nv[b].0 by {
                if pos is None {
                    if b == before.len() {
                        assert(nv[a] == before[a]);
                    } else {
                        assert(nv[a] == before[a] && nv[b] == before[b]);
                    }
                } else {
                    let i = pos.unwrap() as int;
                    if a == i {
                        assert(before[i].0 == entry.0);
                        assert(nv[b] == before[b]);
                    } else if b == i {
                        assert(before[i].0 == entry.0);
                        assert(nv[a] == before[a]);
                    } else {
                        assert(nv[a] == before[a] && nv[b] == before[b]);
                    }
                }
            }
        }
        self.accounts = v;
    }

    /// Removes the account `name` (the others keep their order); whether there was one.
    pub fn shift_remove(&mut self, name: &str) -> (found: bool)
        ensures
            found == (index_of(old(self)@, name@) is Some),
            final(self)@ == removed(old(self)@, name@),
    {
        proof {
            use_type_invariant(&*self);
        }
        let pos = self.position(name);
        let ghost before = self@;
        proof {
            lemma_index_of_found(before, name@);
        }
        match pos {
            Some(i) => {
                let mut v: Vec<(String, AccountConfig)> = Vec::new();
                std::mem::swap(&mut v, &mut self.accounts);
                assert(entries_view(v@) == before);
                v.remove(i);
                assert(entries_view(v@) =~= before.remove(i as int));
                proof {
                    let nv = entries_view(v@);
                    assert forall|a: int, b: int| 0 <= a < b < nv.len() implies #[trigger] nv[a].0 != #[trigger] nv[b].0 by {
                        let a2 = if a < i { a } else { a + 1 };
                        let b2 = if b < i { b } else { b + 1 };
                        assert(nv[a] == before[a2] && nv[b] == before[b2]);
                    }
                }
                self.accounts = v;
                true
            },
            None => false,
        }
    }
}

} // verus!

verus! {

/// Whether `j` occurs in `idx`.
pub open spec fn lists(idx: Seq<usize>, j: int) -> bool {
    exists|k: int| 0 <= k < idx.len() && #[trigger] idx[k] == j
}

/// `idx` lists every position of `v` once, by increasing name.
pub open spec fn is_sorted_order(v: Seq<(Seq<char>, AccountView)>, idx: Seq<usize>) -> bool {
    &&& idx.len() == v.len()
    &&& forall|k: int| 0 <= k < idx.len() ==> #[trigger] idx[k] < v.len()
    &&& forall|j: int| 0 <= j < v.len() ==> #[trigger] lists(idx, j)
    &&& forall|k: int, l: int|
        0 <= k < l < idx.len() ==> lex_lt(v[#[trigger] idx[k] as int].0, v[#[trigger] idx[l] as int].0)
}

/// There is only one order by name: two such orders of the same accounts are equal.
pub proof fn lemma_sorted_order_unique(v: Seq<(Seq<char>, AccountView)>, a: Seq<usize>, b: Seq<usize>)
    requires
        is_sorted_order(v, a),
        is_sorted_order(v, b),
    ensures
        a == b,
{
    if a != b {
        assert(a.len() == b.len());
        let k = choose|k: int| 0 <= k < a.len() && a[k] != b[k] && forall|m: int| 0 <= m < k ==> a[m] == b[m];
        assert(exists|k: int| 0 <= k < a.len() && a[k] != b[k]) by {
            if forall|k: int| 0 <= k < a.len() ==> a[k] == b[k] {
                assert(a =~= b);
            }
        }
        lemma_first_difference(a, b);
        let ak = a[k] as int;
        let bk = b[k] as int;
        assert(lists(b, ak));
        assert(lists(a, bk));
        let l = choose|l: int| 0 <= l < b.len() && #[trigger] b[l] == ak;
        let m = choose|m: int| 0 <= m < a.len() && #[trigger] a[m] == bk;
        lemma_lex_trichotomy(v[ak].0, v[bk].0);
        lemma_lex_trichotomy(v[ak].0, v[ak].0);
        lemma_lex_trichotomy(v[bk].0, v[bk].0);
        assert(l != k);
        assert(m != k);
        if l < k {
            assert(a[l] == b[l]);
            assert(lex_lt(v[a[l] as int].0, v[a[k] as int].0));
        } else if m < k {
            assert(a[m] == b[m]);
            assert(lex_lt(v[b[m] as int].0, v[b[k] as int].0));
        } else {
            assert(lex_lt(v[b[k] as int].0, v[b[l] as int].0));
            assert(lex_lt(v[a[k] as int].0, v[a[m] as int].0));
        }
    }
}

proof fn lemma_first_difference(a: Seq<usize>, b: Seq<usize>)
    requires
        a.len() == b.len(),
        exists|k: int| 0 <= k < a.len() && a[k] != b[k],
    ensures
        exists|k: int| 0 <= k < a.len() && a[k] != b[k] && forall|m: int| 0 <= m < k ==> a[m] == b[m],
    decreases a.len(),
{
    if a[0] != b[0] {
        assert(forall|m: int| 0 <= m < 0 ==> a[m] == b[m]);
    } else {
        let k0 = choose|k: int| 0 <= k < a.len() && a[k] != b[k];
        assert(a.drop_first()[k0 - 1] != b.drop_first()[k0 - 1]);
        lemma_first_difference(a.drop_first(), b.drop_first());
        let k = choose|k: int| 0 <= k < a.len() - 1 && a.drop_first()[k] != b.drop_first()[k] && forall|m: int| 0 <= m < k ==> a.drop_first()[m] == b.drop_first()[m];
        assert forall|m: int| 0 <= m < k + 1 implies a[m] == b[m] by {
            if m > 0 {
                assert(a.drop_first()[m - 1] == b.drop_first()[m - 1]);
            }
        }
        assert(a[k + 1] != b[k + 1]);
    }
}

impl Config {
    /// The positions of the accounts by increasing name.
    pub fn sorted(&self) -> (idx: Vec<usize>)
        ensures
            is_sorted_order(self@, idx@),
    {
        let n = self.len();
        let ghost v = self@;
        let mut idx: Vec<usize> = Vec::new();
        let mut i: usize = 0;
        while i < n
            invariant
                n == v.len(),
                v == self@,
                names_unique(v),
                i <= n,
                idx@.len() == i,
                forall|k: int| 0 <= k < idx@.len() ==> #[trigger] idx@[k] < i,
                forall|j: int| 0 <= j < i ==> #[trigger] lists(idx@, j),
                forall|k: int, l: int|
                    0 <= k < l < idx@.len() ==> lex_lt(v[#[trigger] idx@[k] as int].0, v[#[trigger] idx@[l] as int].0),
            decreases n - i,
        {
            let (name_i, _) = self.entry(i);
            let mut p: usize = 0;
            while p < idx.len() && compare_strs(self.entry(idx[p]).0.as_str(), name_i.as_str()) == -1
                invariant
                    n == v.len(),
                    v == self@,
                    i < n,
                    name_i@ == v[i as int].0,
                    p <= idx@.len(),
                    forall|k: int| 0 <= k < idx@.len() ==> #[trigger] idx@[k] < i,
                    forall|k: int| 0 <= k < p ==> lex_lt(v[#[trigger] idx@[k] as int].0, v[i as int].0),
                decreases idx@.len() - p,
            {
                p += 1;
            }
            let ghost old_idx = idx@;
            proof {
                assert forall|k: int| p <= k < old_idx.len() implies lex_lt(v[i as int].0, v[#[trigger] old_idx[k] as int].0) by {
                    if p < old_idx.len() {
                        let q = old_idx[p as int] as int;
                        assert(q < i);
                        assert(v[q].0 != v[i as int].0);
                        lemma_lex_trichotomy(v[q].0, v[i as int].0);
                        assert(lex_lt(v[i as int].0, v[q].0));
                        if k > p {
                            lemma_lex_transitive(v[i as int].0, v[q].0, v[old_idx[k] as int].0);
                        }
                    }
                }
            }
            idx.insert(p, i);
            proof {
                let nw = idx@;
                assert forall|k: int| 0 <= k < nw.len() implies #[trigger] nw[k] < i + 1 by {
                    if k < p { assert(nw[k] == old_idx[k]); } else if k > p { assert(nw[k] == old_idx[k - 1]); }
                }
                assert forall|j: int| 0 <= j < i + 1 implies #[trigger] lists(nw, j) by {
                    if j == i {
                        assert(nw[p as int] == i);
                    } else {
                        assert(lists(old_idx, j));
                        let k0 = choose|k: int| 0 <= k < old_idx.len() && #[trigger] old_idx[k] == j;
                        if k0 < p {
                            assert(nw[k0] == j);
                        } else {
                            assert(nw[k0 + 1] == j);
                        }
                    }
                }
                assert forall|k: int, l: int| 0 <= k < l < nw.len() implies lex_lt(v[#[trigger] nw[k] as int].0, v[#[trigger] nw[l] as int].0) by {
                    if l < p {
                        assert(nw[k] == old_idx[k] && nw[l] == old_idx[l]);
                    } else if l == p {
                        assert(nw[k] == old_idx[k]);
                    } else if k < p {
                        assert(nw[k] == old_idx[k] && nw[l] == old_idx[l - 1]);
                        lemma_lex_transitive(v[old_idx[k] as int].0, v[i as int].0, v[old_idx[l - 1] as int].0);
                    } else if k == p {
                        assert(nw[l] == old_idx[l - 1]);
                    } else {
                        assert(nw[k] == old_idx[k - 1] && nw[l] == old_idx[l - 1]);
                    }
                }
            }
            i += 1;
        }
        idx
    }
}

} // verus!

verus! {

/// The message shown when no account is configured.
pub open spec fn no_accounts_text() -> Seq<char> {
    "No TV accounts are configured yet. Run 'samsung-artmode pair' or 'samsung-artmode accounts add <name> --host <ip>'."@
}

/// How an account is listed: `name (host)`, or `name (host - model)` when the model is
/// not blank.
pub open spec fn account_label(name: Seq<char>, a: AccountView) -> Seq<char> {
    if trim(a.model).len() == 0 {
        name + " ("@ + a.host + ")"@
    } else {
        name + " ("@ + a.host + " - "@ + a.model + ")"@
    }
}

/// The labels of the accounts at the positions `idx`, separated by `, `.
pub open spec fn labels(v: Seq<(Seq<char>, AccountView)>, idx: Seq<usize>) -> Seq<char>
    decreases idx.len(),
{
    if idx.len() == 0 {
        Seq::empty()
    } else if idx.len() == 1 {
        account_label(v[idx[0] as int].0, v[idx[0] as int].1)
    } else {
        labels(v, idx.drop_last()) + ", "@ + account_label(v[idx.last() as int].0, v[idx.last() as int].1)
    }
}

/// The description of the configured accounts, listed by name.
pub open spec fn accounts_description(v: Seq<(Seq<char>, AccountView)>, idx: Seq<usize>) -> Seq<char> {
    if v.len() == 0 {
        no_accounts_text()
    } else {
        "Configured TV accounts: "@ + labels(v, idx)
    }
}

fn push_label(s: &mut String, name: &String, a: &AccountConfig)
    ensures
        final(s)@ == old(s)@ + account_label(name@, a@),
{
    push_str(s, name.as_str());
    push_str(s, " (");
    push_str(s, a.host.as_str());
    if !crate::text::is_blank(a.model.as_str()) {
        push_str(s, " - ");
        push_str(s, a.model.as_str());
    }
    push_str(s, ")");
}

/// Describes the configured accounts, listed by name; the sorted order is the only one
/// (`lemma_sorted_order_unique`).
pub fn describe_accounts(config: &Config) -> (r: String)
    ensures
        exists|idx: Seq<usize>| is_sorted_order(config@, idx) && r@ == accounts_description(config@, idx),
{
    if config.is_empty() {
        assert(is_sorted_order(config@, Seq::<usize>::empty()));
        return owned(
            "No TV accounts are configured yet. Run 'samsung-artmode pair' or 'samsung-artmode accounts add <name> --host <ip>'.",
        );
    }
    let idx = config.sorted();
    let mut r = owned("Configured TV accounts: ");
    let ghost v = config@;
    let mut i: usize = 0;
    while i < idx.len()
        invariant
            v == config@,
            is_sorted_order(v, idx@),
            i <= idx@.len(),
            r@ == "Configured TV accounts: "@ + labels(v, idx@.subrange(0, i as int)),
        decreases idx@.len() - i,
    {
        let ghost before = r@;
        if i > 0 {
            push_str(&mut r, ", ");
        }
        let (name, acct) = config.entry(idx[i]);
        push_label(&mut r, name, acct);
        proof {
            let sub = idx@.subrange(0, i + 1);
            assert(sub.drop_last() == idx@.subrange(0, i as int));
            assert(sub.last() == idx@[i as int]);
            if i == 0 {
                assert(idx@.subrange(0, 0).len() == 0);
            }
        }
        i += 1;
    }
    assert(idx@.subrange(0, idx@.len() as int) == idx@);
    r
}

} // verus!

verus! {

/// The TV a command talks to.
#[derive(Debug)]
pub struct ResolvedTv {
    pub name: Option<String>,
    pub host: String,
    pub token: Option<String>,
}

/// The mathematical value of a resolved TV: name, host, token.
pub open spec fn resolved_view(t: ResolvedTv) -> (Option<Seq<char>>, Seq<char>, Option<Seq<char>>) {
    (opt_view(t.name), t.host@, opt_view(t.token))
}

/// A value given on the command line, trimmed, when it is not blank.
pub open spec fn given(v: Option<Seq<char>>) -> Option<Seq<char>> {
    match v {
        Some(s) => if trim(s).len() > 0 { Some(trim(s)) } else { None },
        None => None,
    }
}

/// A value from the environment when it is not blank (as it is, not trimmed).
pub open spec fn present(v: Option<Seq<char>>) -> Option<Seq<char>> {
    match v {
        Some(s) => if trim(s).len() > 0 { Some(s) } else { None },
        None => None,
    }
}

/// The token for a TV given by address: the `--token` flag (trimmed), else the
/// `SAMSUNG_TV_TOKEN` environment value, each only when not blank.
pub open spec fn direct_token(token: Option<Seq<char>>, env_token: Option<Seq<char>>) -> Option<Seq<char>> {
    match given(token) {
        Some(t) => Some(t),
        None => present(env_token),
    }
}

/// The first step of finding the target TV.
#[derive(Debug)]
pub enum ResolveStep {
    /// The TV is known.
    Resolved(ResolvedTv),
    /// The TV is the configured account of this (trimmed) name.
    Account(String),
    /// Nothing names a TV.
    NoTarget,
}

/// The view of a first step.
pub enum ResolveStepView {
    Resolved((Option<Seq<char>>, Seq<char>, Option<Seq<char>>)),
    Account(Seq<char>),
    NoTarget,
}

/// How the target TV is found, in order: an explicit `--host` (with `--token` or
/// `SAMSUNG_TV_TOKEN`); else an explicit `--account`; else the `SAMSUNG_TV_HOST`
/// environment value (with the same token); else there is no target. Blank values count
/// as absent.
pub open spec fn resolve_step(
    account: Option<Seq<char>>,
    host: Option<Seq<char>>,
    token: Option<Seq<char>>,
    env_host: Option<Seq<char>>,
    env_token: Option<Seq<char>>,
) -> ResolveStepView {
    match given(host) {
        Some(h) => ResolveStepView::Resolved((None, h, direct_token(token, env_token))),
        None => match given(account) {
            Some(a) => ResolveStepView::Account(a),
            None => match given(env_host) {
                Some(h) => ResolveStepView::Resolved((None, h, direct_token(token, env_token))),
                None => ResolveStepView::NoTarget,
            },
        },
    }
}

/// The view of an optional string slice.
pub open spec fn opt_str_view(s: Option<&str>) -> Option<Seq<char>> {
    match s {
        Some(t) => Some(t@),
        None => None,
    }
}

/// The view of a first step.
pub open spec fn step_view(s: ResolveStep) -> ResolveStepView {
    match s {
        ResolveStep::Resolved(t) => ResolveStepView::Resolved(resolved_view(t)),
        ResolveStep::Account(a) => ResolveStepView::Account(a@),
        ResolveStep::NoTarget => ResolveStepView::NoTarget,
    }
}

/// The token a TV given by address is reached with: a non-blank `--token` flag, trimmed,
/// wins; else a non-blank `SAMSUNG_TV_TOKEN` value, as it is; else none. This holds
/// whether the address came from `--host` or from `SAMSUNG_TV_HOST`, and only an
/// address from neither leaves the account to decide.
pub proof fn lemma_direct_token(
    account: Option<Seq<char>>,
    host: Option<Seq<char>>,
    token: Option<Seq<char>>,
    env_host: Option<Seq<char>>,
    env_token: Option<Seq<char>>,
)
    ensures
        resolve_step(account, host, token, env_host, env_token) is Resolved ==> resolve_step(
            account,
            host,
            token,
            env_host,
            env_token,
        )->Resolved_0.2 == (if token is Some && trim(token->Some_0).len() > 0 {
            Some(trim(token->Some_0))
        } else if env_token is Some && trim(env_token->Some_0).len() > 0 {
            env_token
        } else {
            None
        }),
        (host is Some && trim(host->Some_0).len() > 0) ==> (resolve_step(
            account,
            host,
            token,
            env_host,
            env_token,
        ) is Resolved && resolve_step(account, host, token, env_host, env_token)->Resolved_0.1 == trim(
            host->Some_0,
        )),
        (!(host is Some && trim(host->Some_0).len() > 0) && !(account is Some && trim(
            account->Some_0,
        ).len() > 0) && env_host is Some && trim(env_host->Some_0).len() > 0) ==> (resolve_step(
            account,
            host,
            token,
            env_host,
            env_token,
        ) is Resolved && resolve_step(account, host, token, env_host, env_token)->Resolved_0.1 == trim(
            env_host->Some_0,
        )),
{
}

/// Without a `--host`, a non-blank `--account` names the account (trimmed), whatever
/// `SAMSUNG_TV_HOST` says; with none of the three, nothing names a TV.
pub proof fn lemma_account_or_nothing(
    account: Option<Seq<char>>,
    host: Option<Seq<char>>,
    token: Option<Seq<char>>,
    env_host: Option<Seq<char>>,
    env_token: Option<Seq<char>>,
)
    ensures
        (!(host is Some && trim(host->Some_0).len() > 0) && account is Some && trim(account->Some_0).len()
            > 0) ==> resolve_step(account, host, token, env_host, env_token) == ResolveStepView::Account(
            trim(account->Some_0),
        ),
        (!(host is Some && trim(host->Some_0).len() > 0) && !(account is Some && trim(
            account->Some_0,
        ).len() > 0) && !(env_host is Some && trim(env_host->Some_0).len() > 0)) ==> resolve_step(
            account,
            host,
            token,
            env_host,
            env_token,
        ) == ResolveStepView::NoTarget,
{
}

fn given_value(v: Option<&str>) -> (r: Option<String>)
    ensures
        opt_view(r) == given(opt_str_view(v)),
{
    match v {
        Some(s) => {
            let t = trimmed(s);
            if t.as_str().unicode_len() > 0 {
                Some(t)
            } else {
                None
            }
        },
        None => None,
    }
}

fn present_value(v: Option<&str>) -> (r: Option<String>)
    ensures
        opt_view(r) == present(opt_str_view(v)),
{
    match v {
        Some(s) => if crate::text::is_blank(s) {
            None
        } else {
            Some(owned(s))
        },
        None => None,
    }
}

fn direct_token_value(token: Option<&str>, env_token: Option<&str>) -> (r: Option<String>)
    ensures
        opt_view(r) == direct_token(opt_str_view(token), opt_str_view(env_token)),
{
    match given_value(token) {
        Some(t) => Some(t),
        None => present_value(env_token),
    }
}

/// The first step of finding the target TV, from the command-line flags and the
/// environment values `SAMSUNG_TV_HOST` and `SAMSUNG_TV_TOKEN`.
pub fn resolve(
    account: Option<&str>,
    host: Option<&str>,
    token: Option<&str>,
    env_host: Option<&str>,
    env_token: Option<&str>,
) -> (r: ResolveStep)
    ensures
        step_view(r) == resolve_step(
            opt_str_view(account),
            opt_str_view(host),
            opt_str_view(token),
            opt_str_view(env_host),
            opt_str_view(env_token),
        ),
        r is Resolved ==> opt_view(r->Resolved_0.token) == (if opt_str_view(token) is Some && trim(
            opt_str_view(token)->Some_0,
        ).len() > 0 {
            Some(trim(opt_str_view(token)->Some_0))
        } else if opt_str_view(env_token) is Some && trim(opt_str_view(env_token)->Some_0).len() > 0 {
            opt_str_view(env_token)
        } else {
            None
        }),
{
    proof {
        lemma_direct_token(
            opt_str_view(account),
            opt_str_view(host),
            opt_str_view(token),
            opt_str_view(env_host),
            opt_str_view(env_token),
        );
    }
    if let Some(h) = given_value(host) {
        return ResolveStep::Resolved(
            ResolvedTv { name: None, host: h, token: direct_token_value(token, env_token) },
        );
    }
    if let Some(a) = given_value(account) {
        return ResolveStep::Account(a);
    }
    if let Some(h) = given_value(env_host) {
        return ResolveStep::Resolved(
            ResolvedTv { name: None, host: h, token: direct_token_value(token, env_token) },
        );
    }
    ResolveStep::NoTarget
}

/// The error for an account name that is not configured.
pub open spec fn unknown_account_error(requested: Seq<char>, description: Seq<char>) -> ErrorView {
    ErrorView {
        code: ErrorCode::NoAccount,
        message: "No TV account named '"@ + requested + "'."@,
        detail: Some(description),
        remediation: Some("samsung-artmode accounts list"@),
    }
}

/// The configured account a name refers to, with its name and host; the token given on
/// the command line comes along (trimmed) when it is not blank. An unknown name is a
/// `no_account` error that lists the configured accounts.
pub fn resolve_account(config: &Config, requested: &str, token: Option<&str>) -> (r: Result<(String, String, Option<String>), Error>)
    ensures
        match index_of(config@, requested@) {
            Some(i) => r matches Ok((n, h, t)) && n@ == config@[i].0 && h@ == config@[i].1.host
                && opt_view(t) == given(opt_str_view(token)),
            None => r matches Err(e) && exists|idx: Seq<usize>|
                is_sorted_order(config@, idx) && e@ == unknown_account_error(
                    requested@,
                    accounts_description(config@, idx),
                ),
        },
{
    match config.find(requested) {
        Some((name, acct)) => Ok((name.clone(), acct.host.clone(), given_value(token))),
        None => {
            let mut msg = owned("No TV account named '");
            push_str(&mut msg, requested);
            push_str(&mut msg, "'.");
            let d = describe_accounts(config);
            Err(Error::new(ErrorCode::NoAccount, msg).detail(d).fix(owned("samsung-artmode accounts list")))
        },
    }
}

/// The token of a configured account: the one given on the command line when there is
/// one, else the one stored for the account.
pub open spec fn account_token(given: Option<Seq<char>>, stored: Option<Seq<char>>) -> Option<Seq<char>> {
    match given {
        Some(g) => Some(g),
        None => stored,
    }
}

/// Whether the stored token is wanted: only when none was given on the command line.
pub fn stored_token_needed(given: &Option<String>) -> (b: bool)
    ensures
        b == (given is None),
{
    given.is_none()
}

/// The TV of a configured account: its token is the one given on the command line, else
/// the stored one (`account_token`), and only when it is not blank.
pub fn account_resolved(name: String, host: String, given: Option<String>, stored: Option<String>) -> (r: ResolvedTv)
    ensures
        resolved_view(r) == (Some(name@), host@, present(account_token(opt_view(given), opt_view(stored)))),
{
    let key = match given {
        Some(g) => Some(g),
        None => stored,
    };
    let token = match key {
        Some(k) => if crate::text::is_blank(k.as_str()) {
            None
        } else {
            Some(k)
        },
        None => None,
    };
    ResolvedTv { name: Some(name), host, token }
}

/// The error when nothing names a TV: a `no_account` error that lists the configured
/// accounts.
pub fn no_target_error(config: &Config) -> (e: Error)
    ensures
        exists|idx: Seq<usize>|
            is_sorted_order(config@, idx) && e@ == (ErrorView {
                code: ErrorCode::NoAccount,
                message: "No TV specified. Pass --account <name> or --host <ip>."@,
                detail: Some(accounts_description(config@, idx)),
                remediation: Some("samsung-artmode accounts list"@),
            }),
{
    let d = describe_accounts(config);
    Error::new(ErrorCode::NoAccount, owned("No TV specified. Pass --account <name> or --host <ip>.")).detail(d).fix(
        owned("samsung-artmode accounts list"),
    )
}

} // verus!
