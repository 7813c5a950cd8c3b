//! The Steam client's local accounts (`loginusers.vdf`) and the account context.
use vstd::prelude::*;

use crate::text::{
    all_digits, chars_eq, chars_of, contains, contains_seq, is_ascii_digit, parse_i64,
    parse_i64_chars, split, split_chars, string_from_chars, trim, trim_chars,
};

verus! {

/// One account known to the local Steam client.
pub struct SteamAccount {
    pub steam_id: String,
    pub persona_name: String,
    pub account_name: String,
    pub most_recent: i64,
    pub is_active: bool,
}

/// Mathematical model of [`SteamAccount`].
pub struct AccountView {
    pub steam_id: Seq<char>,
    pub persona_name: Seq<char>,
    pub account_name: Seq<char>,
    pub most_recent: i64,
    pub is_active: bool,
}

impl View for SteamAccount {
    type V = AccountView;

    open spec fn view(&self) -> AccountView {
        AccountView {
            steam_id: self.steam_id@,
            persona_name: self.persona_name@,
            account_name: self.account_name@,
            most_recent: self.most_recent,
            is_active: self.is_active,
        }
    }
}

/// The models of a list of accounts.
pub open spec fn account_views(v: Seq<SteamAccount>) -> Seq<AccountView> {
    v.map_values(|a: SteamAccount| a@)
}

impl SteamAccount {
    /// A copy with the same contents.
    pub fn duplicate(&self) -> (r: SteamAccount)
        ensures
            r@ == self@,
    {
        SteamAccount {
            steam_id: self.steam_id.clone(),
            persona_name: self.persona_name.clone(),
            account_name: self.account_name.clone(),
            most_recent: self.most_recent,
            is_active: self.is_active,
        }
    }
}

/// Some account of the list has id `id`.
pub open spec fn has_account_id(accounts: Seq<AccountView>, id: Seq<char>) -> bool {
    exists|i: int| 0 <= i < accounts.len() && (#[trigger] accounts[i]).steam_id == id
}

/// Whether an account of the list has id `id`.
pub fn account_known(accounts: &Vec<SteamAccount>, id: &[char]) -> (b: bool)
    ensures
        b == has_account_id(account_views(accounts@), id@),
{
    let ghost views = account_views(accounts@);
    for i in 0..accounts.len()
        invariant
            views == account_views(accounts@),
            forall|j: int| 0 <= j < i ==> (#[trigger] views[j]).steam_id != id@,
    {
        let k = chars_of(accounts[i].steam_id.as_str());
        if chars_eq(k.as_slice(), id) {
            assert(views[i as int].steam_id == id@);
            return true;
        }
    }
    false
}


/// What the parser collected for one Steam id of `loginusers.vdf`.
pub struct UserEntry {
    pub id: Seq<char>,
    pub persona: Seq<char>,
    pub account: Seq<char>,
    pub timestamp: i64,
    pub most_recent: bool,
}

/// The parser's state: the users seen so far (in first-seen order) and the current id.
pub struct ParseState {
    pub users: Seq<UserEntry>,
    pub current: Seq<char>,
}

/// The id that a line names: a quoted run of 17 ASCII digits.
pub open spec fn line_steam_id(t: Seq<char>) -> Option<Seq<char>> {
    if t.len() >= 2 && t[0] == '"' && t.last() == '"' {
        let inner = t.subrange(1, t.len() - 1);
        if inner.len() == 17 && all_digits(inner) {
            Some(inner)
        } else {
            None
        }
    } else {
        None
    }
}

/// The value of a `"Key"  "value"` line: the fourth piece between quotes.
pub open spec fn vdf_value(t: Seq<char>) -> Option<Seq<char>> {
    let parts = split(t, '"');
    if parts.len() >= 4 {
        Some(parts[3])
    } else {
        None
    }
}

/// Position of the user with id `id`, or -1.
pub open spec fn user_index(users: Seq<UserEntry>, id: Seq<char>) -> int
    decreases users.len(),
{
    if users.len() == 0 {
        -1
    } else if users.last().id == id {
        users.len() - 1
    } else {
        user_index(users.drop_last(), id)
    }
}

pub open spec fn new_user(id: Seq<char>) -> UserEntry {
    UserEntry { id, persona: Seq::empty(), account: Seq::empty(), timestamp: 0, most_recent: false }
}

/// The user record after a key line.
pub open spec fn user_after_line(e: UserEntry, t: Seq<char>) -> UserEntry {
    if contains_seq(t, "\"PersonaName\""@) {
        match vdf_value(t) {
            Some(v) => UserEntry { persona: v, ..e },
            None => e,
        }
    } else if contains_seq(t, "\"AccountName\""@) {
        match vdf_value(t) {
            Some(v) => UserEntry { account: v, ..e },
            None => e,
        }
    } else if contains_seq(t, "\"Timestamp\""@) {
        match vdf_value(t) {
            Some(v) => UserEntry {
                timestamp: match parse_i64(v) {
                    Some(n) => n,
                    None => 0,
                },
                ..e
            },
            None => e,
        }
    } else if contains_seq(t, "\"MostRecent\""@) {
        match vdf_value(t) {
            Some(v) => UserEntry { most_recent: v == "1"@, ..e },
            None => e,
        }
    } else {
        e
    }
}

/// The parser's state after one line.
pub open spec fn parse_step(st: ParseState, line: Seq<char>) -> ParseState {
    let t = trim(line);
    let st1 = match line_steam_id(t) {
        Some(id) => ParseState {
            users: if user_index(st.users, id) >= 0 {
                st.users
            } else {
                st.users.push(new_user(id))
            },
            current: id,
        },
        None => st,
    };
    if st1.current.len() == 0 {
        st1
    } else {
        let i = user_index(st1.users, st1.current);
        ParseState { users: st1.users.update(i, user_after_line(st1.users[i], t)), ..st1 }
    }
}

/// The parser's state after the given lines.
pub open spec fn parse_lines(lines: Seq<Seq<char>>) -> ParseState
    decreases lines.len(),
{
    if lines.len() == 0 {
        ParseState { users: Seq::empty(), current: Seq::empty() }
    } else {
        parse_step(parse_lines(lines.drop_last()), lines.last())
    }
}

/// The account of a user record: the account name stands in for a missing persona name.
pub open spec fn user_account(u: UserEntry) -> AccountView {
    AccountView {
        steam_id: u.id,
        persona_name: if u.persona.len() == 0 {
            u.account
        } else {
            u.persona
        },
        account_name: u.account,
        most_recent: u.timestamp,
        is_active: u.most_recent,
    }
}

/// The accounts of the users that have a persona or an account name, in first-seen order.
pub open spec fn named_accounts(users: Seq<UserEntry>) -> Seq<AccountView>
    decreases users.len(),
{
    if users.len() == 0 {
        Seq::empty()
    } else {
        let rest = named_accounts(users.drop_last());
        let u = users.last();
        if u.persona.len() != 0 || u.account.len() != 0 {
            rest.push(user_account(u))
        } else {
            rest
        }
    }
}

/// `a` is listed before `b`: the active account first, then by the most recent login.
pub open spec fn account_before(a: AccountView, b: AccountView) -> bool {
    (a.is_active && !b.is_active) || (a.is_active == b.is_active && a.most_recent > b.most_recent)
}

pub open spec fn accounts_sorted(s: Seq<AccountView>) -> bool {
    forall|i: int, j: int| 0 <= i < j < s.len() ==> !account_before(s[j], s[i])
}

/// First position at which `a` goes before the account there (the length when none).
pub open spec fn insert_position(s: Seq<AccountView>, a: AccountView) -> int
    decreases s.len(),
{
    if s.len() == 0 {
        0
    } else if account_before(a, s[0]) {
        0
    } else {
        1 + insert_position(s.drop_first(), a)
    }
}

/// Stable insertion sort of accounts.
pub open spec fn sort_accounts(s: Seq<AccountView>) -> Seq<AccountView>
    decreases s.len(),
{
    if s.len() == 0 {
        Seq::empty()
    } else {
        let sorted = sort_accounts(s.drop_last());
        sorted.insert(insert_position(sorted, s.last()), s.last())
    }
}

/// The accounts that `loginusers.vdf` content lists.
pub open spec fn login_users(content: Seq<char>) -> Seq<AccountView> {
    sort_accounts(named_accounts(parse_lines(split(content, '\n')).users))
}

proof fn lemma_insert_position(s: Seq<AccountView>, a: AccountView)
    ensures
        0 <= insert_position(s, a) <= s.len(),
        forall|k: int| 0 <= k < insert_position(s, a) ==> !account_before(a, #[trigger] s[k]),
        insert_position(s, a) < s.len() ==> account_before(a, s[insert_position(s, a)]),
    decreases s.len(),
{
    if s.len() > 0 && !account_before(a, s[0]) {
        lemma_insert_position(s.drop_first(), a);
        assert forall|k: int| 0 <= k < insert_position(s, a) implies !account_before(
            a,
            #[trigger] s[k],
        ) by {
            if k > 0 {
                assert(s[k] == s.drop_first()[k - 1]);
            }
        }
    }
}

/// Sorting keeps the accounts (as a multiset) and orders them.
pub proof fn lemma_sort_accounts(s: Seq<AccountView>)
    ensures
        accounts_sorted(sort_accounts(s)),
        sort_accounts(s).to_multiset() == s.to_multiset(),
        sort_accounts(s).len() == s.len(),
    decreases s.len(),
{
    broadcast use vstd::seq_lib::to_multiset_insert, vstd::seq_lib::to_multiset_build;

    if s.len() > 0 {
        let sorted = sort_accounts(s.drop_last());
        lemma_sort_accounts(s.drop_last());
        let a = s.last();
        let p = insert_position(sorted, a);
        lemma_insert_position(sorted, a);
        let r = sorted.insert(p, a);
        assert(s.drop_last().push(a) == s);
        assert(r.to_multiset() == sorted.to_multiset().insert(a));
        assert(s.drop_last().push(a).to_multiset() == s.drop_last().to_multiset().insert(a));
        assert forall|i: int, j: int| 0 <= i < j < r.len() implies !account_before(r[j], r[i]) by {
            if j < p {
                assert(r[i] == sorted[i] && r[j] == sorted[j]);
            } else if j == p {
                assert(r[i] == sorted[i]);
            } else if i == p {
                assert(r[j] == sorted[j - 1]);
                if j - 1 > p {
                    assert(!account_before(sorted[j - 1], sorted[p]));
                }
            } else if i < p {
                assert(r[i] == sorted[i] && r[j] == sorted[j - 1]);
            } else {
                assert(r[i] == sorted[i - 1] && r[j] == sorted[j - 1]);
            }
        }
    } else {
        assert(s =~= Seq::<AccountView>::empty());
    }
}


/// A user record while parsing.
struct UserRec {
    id: Vec<char>,
    persona: Vec<char>,
    account: Vec<char>,
    timestamp: i64,
    most_recent: bool,
}

impl View for UserRec {
    type V = UserEntry;

    closed spec fn view(&self) -> UserEntry {
        UserEntry {
            id: self.id@,
            persona: self.persona@,
            account: self.account@,
            timestamp: self.timestamp,
            most_recent: self.most_recent,
        }
    }
}

spec fn users_view(v: Seq<UserRec>) -> Seq<UserEntry> {
    v.map_values(|u: UserRec| u@)
}

proof fn lemma_user_index(s: Seq<UserEntry>, id: Seq<char>)
    ensures
        -1 <= user_index(s, id) < s.len(),
        user_index(s, id) >= 0 ==> s[user_index(s, id)].id == id,
        user_index(s, id) == -1 ==> forall|j: int| 0 <= j < s.len() ==> (#[trigger] s[j]).id != id,
    decreases s.len(),
{
    if s.len() > 0 && s.last().id != id {
        lemma_user_index(s.drop_last(), id);
        assert forall|j: int| 0 <= j < s.len() && user_index(s, id) == -1 implies (
        #[trigger] s[j]).id != id by {
            if j < s.len() - 1 {
                assert(s[j] == s.drop_last()[j]);
            }
        }
    }
}

proof fn lemma_user_index_take(s: Seq<UserEntry>, id: Seq<char>, i: int)
    requires
        0 <= i <= s.len(),
        forall|j: int| i <= j < s.len() ==> (#[trigger] s[j]).id != id,
    ensures
        user_index(s, id) == user_index(s.take(i), id),
    decreases s.len() - i,
{
    if i < s.len() {
        assert(s.drop_last().take(i) == s.take(i));
        lemma_user_index_take(s.drop_last(), id, i);
    } else {
        assert(s.take(i) == s);
    }
}

/// Same ids in the same places give the same positions.
proof fn lemma_user_index_same_ids(s: Seq<UserEntry>, t: Seq<UserEntry>, id: Seq<char>)
    requires
        s.len() == t.len(),
        forall|j: int| 0 <= j < s.len() ==> (#[trigger] s[j]).id == t[j].id,
    ensures
        user_index(s, id) == user_index(t, id),
    decreases s.len(),
{
    if s.len() > 0 {
        lemma_user_index_same_ids(s.drop_last(), t.drop_last(), id);
        assert(s.last() == s[s.len() - 1]);
        assert(t.last() == t[t.len() - 1]);
    }
}

fn find_user(users: &Vec<UserRec>, id: &[char]) -> (r: Option<usize>)
    ensures
        match r {
            Some(i) => i as int == user_index(users_view(users@), id@),
            None => user_index(users_view(users@), id@) == -1,
        },
{
    let ghost v = users_view(users@);
    let mut i = users.len();
    while i > 0
        invariant
            i <= users@.len(),
            v == users_view(users@),
            forall|j: int| i <= j < v.len() ==> (#[trigger] v[j]).id != id@,
        decreases i,
    {
        if chars_eq(users[i - 1].id.as_slice(), id) {
            proof {
                lemma_user_index_take(v, id@, i as int);
                assert(v.take(i as int).last() == v[i - 1]);
            }
            return Some(i - 1);
        }
        i = i - 1;
    }
    proof {
        lemma_user_index_take(v, id@, 0);
    }
    None
}

fn copy_range(s: &[char], from: usize, to: usize) -> (r: Vec<char>)
    requires
        from <= to <= s.len(),
    ensures
        r@ == s@.subrange(from as int, to as int),
{
    let mut r: Vec<char> = Vec::new();
    let mut p = from;
    while p < to
        invariant
            from <= p <= to <= s.len(),
            r@ == s@.subrange(from as int, p as int),
        decreases to - p,
    {
        r.push(s[p]);
        assert(s@.subrange(from as int, p + 1) == s@.subrange(from as int, p as int).push(
            s@[p as int],
        ));
        p = p + 1;
    }
    r
}

fn line_steam_id_exec(t: &[char]) -> (r: Option<Vec<char>>)
    ensures
        match line_steam_id(t@) {
            Some(id) => r matches Some(v) && v@ == id,
            None => r is None,
        },
{
    let n = t.len();
    if n >= 2 && t[0] == '"' && t[n - 1] == '"' {
        let inner = copy_range(t, 1, n - 1);
        assert(t@.last() == t@[n - 1]);
        assert(inner@ == t@.subrange(1, t@.len() - 1));
        if inner.len() != 17 {
            return None;
        }
        for i in 0..17
            invariant
                inner@.len() == 17,
                inner@ == t@.subrange(1, t@.len() - 1),
                t@.len() >= 2,
                t@[0] == '"',
                t@.last() == '"',
                forall|j: int| 0 <= j < i ==> is_ascii_digit(inner@[j]),
        {
            if !crate::text::char_is_digit(inner[i]) {
                assert(!is_ascii_digit(inner@[i as int]));
                assert(!all_digits(inner@));
                return None;
            }
        }
        Some(inner)
    } else {
        None
    }
}

/// What `extract_vdf_value` gives: the fourth quote-separated piece of a line.
fn vdf_value_exec(t: &[char]) -> (r: Option<Vec<char>>)
    ensures
        match vdf_value(t@) {
            Some(v) => r matches Some(x) && x@ == v,
            None => r is None,
        },
{
    let parts = split_chars(t, '"');
    if parts.len() >= 4 {
        let ghost views = crate::text::seqs_of(parts@);
        assert(views[3] == parts@[3]@);
        Some(crate::text::copy_chars(parts[3].as_slice()))
    } else {
        None
    }
}

fn user_after_line_exec(e: &UserRec, t: &[char]) -> (r: UserRec)
    ensures
        r@ == user_after_line(e@, t@),
{
    let persona_key = chars_of("\"PersonaName\"");
    let account_key = chars_of("\"AccountName\"");
    let ts_key = chars_of("\"Timestamp\"");
    let recent_key = chars_of("\"MostRecent\"");
    let mut r = UserRec {
        id: crate::text::copy_chars(e.id.as_slice()),
        persona: crate::text::copy_chars(e.persona.as_slice()),
        account: crate::text::copy_chars(e.account.as_slice()),
        timestamp: e.timestamp,
        most_recent: e.most_recent,
    };
    if contains(t, persona_key.as_slice()) {
        if let Some(v) = vdf_value_exec(t) {
            r.persona = v;
        }
    } else if contains(t, account_key.as_slice()) {
        if let Some(v) = vdf_value_exec(t) {
            r.account = v;
        }
    } else if contains(t, ts_key.as_slice()) {
        if let Some(v) = vdf_value_exec(t) {
            r.timestamp = match parse_i64_chars(v.as_slice()) {
                Some(n) => n,
                None => 0,
            };
        }
    } else if contains(t, recent_key.as_slice()) {
        if let Some(v) = vdf_value_exec(t) {
            let one = chars_of("1");
            r.most_recent = chars_eq(v.as_slice(), one.as_slice());
        }
    }
    r
}

/// Every id the parser tracks as current has a record.
spec fn state_ok(st: ParseState) -> bool {
    st.current.len() == 0 || user_index(st.users, st.current) >= 0
}

proof fn lemma_parse_lines_ok(lines: Seq<Seq<char>>)
    ensures
        state_ok(parse_lines(lines)),
    decreases lines.len(),
{
    if lines.len() > 0 {
        lemma_parse_lines_ok(lines.drop_last());
        let st = parse_lines(lines.drop_last());
        let t = trim(lines.last());
        lemma_user_index(st.users, st.current);
        match line_steam_id(t) {
            Some(id) => {
                lemma_user_index(st.users, id);
                if user_index(st.users, id) < 0 {
                    let us = st.users.push(new_user(id));
                    assert(us.last().id == id);
                }
            },
            None => {},
        }
        let st1 = match line_steam_id(t) {
            Some(id) => ParseState {
                users: if user_index(st.users, id) >= 0 {
                    st.users
                } else {
                    st.users.push(new_user(id))
                },
                current: id,
            },
            None => st,
        };
        if st1.current.len() != 0 {
            let i = user_index(st1.users, st1.current);
            lemma_user_index(st1.users, st1.current);
            let us = st1.users.update(i, user_after_line(st1.users[i], t));
            assert(user_after_line(st1.users[i], t).id == st1.users[i].id);
            lemma_user_index_same_ids(st1.users, us, st1.current);
        }
    }
}

/// The accounts that `loginusers.vdf` content lists: each quoted 17-digit id starts a user,
/// whose `PersonaName`, `AccountName`, `Timestamp` and `MostRecent` lines fill it in; users
/// with neither name are left out; the active account comes first, then the most recent.
pub fn parse_login_users(content: &str) -> (r: Vec<SteamAccount>)
    ensures
        account_views(r@) == login_users(content@),
        accounts_sorted(account_views(r@)),
        forall|i: int, j: int|
            0 <= i < j < r@.len() ==> {
                &&& (#[trigger] r@[i]).is_active || !(#[trigger] r@[j]).is_active
                &&& r@[i].is_active == r@[j].is_active ==> r@[i].most_recent >= r@[j].most_recent
            },
{
    let text = chars_of(content);
    let lines = split_chars(text.as_slice(), '\n');
    let ghost lv = crate::text::seqs_of(lines@);
    let mut users: Vec<UserRec> = Vec::new();
    let mut current: Vec<char> = Vec::new();
    assert(users_view(users@) =~= Seq::<UserEntry>::empty());
    assert(lv.take(0) =~= Seq::<Seq<char>>::empty());
    for k in 0..lines.len()
        invariant
            lv == crate::text::seqs_of(lines@),
            lv.len() == lines@.len(),
            ({
                let st = parse_lines(lv.take(k as int));
                &&& users_view(users@) == st.users
                &&& current@ == st.current
            }),
    {
        let ghost st0 = parse_lines(lv.take(k as int));
        proof {
            assert(lv.take(k + 1).drop_last() == lv.take(k as int));
            assert(lv.take(k + 1).last() == lines@[k as int]@);
            lemma_parse_lines_ok(lv.take(k as int));
        }
        let t = trim_chars(lines[k].as_slice());
        if let Some(id) = line_steam_id_exec(t.as_slice()) {
            if find_user(&users, id.as_slice()).is_none() {
                let ghost before = users_view(users@);
                users.push(
                    UserRec {
                        id: crate::text::copy_chars(id.as_slice()),
                        persona: Vec::new(),
                        account: Vec::new(),
                        timestamp: 0,
                        most_recent: false,
                    },
                );
                assert(users_view(users@) =~= before.push(new_user(id@)));
            }
            current = id;
        }
        if current.len() > 0 {
            let ghost uv = users_view(users@);
            proof {
                lemma_user_index(uv, current@);
                if line_steam_id(t@) is Some {
                    lemma_user_index(st0.users, current@);
                    if user_index(st0.users, current@) < 0 {
                        assert(uv.last().id == current@);
                    }
                }
            }
            match find_user(&users, current.as_slice()) {
                Some(i) => {
                    let updated = user_after_line_exec(&users[i], t.as_slice());
                    users.set(i, updated);
                    assert(users_view(users@) =~= uv.update(i as int, updated@));
                },
                None => {
                    assert(false);
                },
            }
        }
    }
    assert(lv.take(lines.len() as int) == lv);
    assert(lv == split(text@, '\n'));
    let ghost users_final = users_view(users@);
    let mut named: Vec<SteamAccount> = Vec::new();
    for i in 0..users.len()
        invariant
            users_final == users_view(users@),
            account_views(named@) == named_accounts(users_final.take(i as int)),
    {
        proof {
            assert(users_final.take(i + 1).drop_last() == users_final.take(i as int));
            assert(users_final.take(i + 1).last() == users@[i as int]@);
        }
        let u = &users[i];
        if u.persona.len() != 0 || u.account.len() != 0 {
            let ghost before = account_views(named@);
            let persona = if u.persona.len() == 0 {
                string_from_chars(u.account.as_slice())
            } else {
                string_from_chars(u.persona.as_slice())
            };
            named.push(
                SteamAccount {
                    steam_id: string_from_chars(u.id.as_slice()),
                    persona_name: persona,
                    account_name: string_from_chars(u.account.as_slice()),
                    most_recent: u.timestamp,
                    is_active: u.most_recent,
                },
            );
            assert(account_views(named@) =~= before.push(user_account(u@)));
        }
    }
    assert(users_final.take(users.len() as int) == users_final);
    let r = sort_by_recency(named);
    proof {
        lemma_sort_accounts(named_accounts(users_final));
        let v = account_views(r@);
        assert forall|i: int, j: int| 0 <= i < j < r@.len() implies {
            &&& (#[trigger] r@[i]).is_active || !(#[trigger] r@[j]).is_active
            &&& r@[i].is_active == r@[j].is_active ==> r@[i].most_recent >= r@[j].most_recent
        } by {
            assert(v[i] == r@[i]@ && v[j] == r@[j]@);
            assert(!account_before(v[j], v[i]));
        }
    }
    r
}

fn before_exec(a: &SteamAccount, b: &SteamAccount) -> (r: bool)
    ensures
        r == account_before(a@, b@),
{
    (a.is_active && !b.is_active) || (a.is_active == b.is_active && a.most_recent > b.most_recent)
}

/// Stable insertion sort: the active account first, then the most recent login.
fn sort_by_recency(v: Vec<SteamAccount>) -> (r: Vec<SteamAccount>)
    ensures
        account_views(r@) == sort_accounts(account_views(v@)),
{
    let ghost input = account_views(v@);
    let mut sorted: Vec<SteamAccount> = Vec::new();
    let mut k: usize = 0;
    assert(input.take(0) =~= Seq::<AccountView>::empty());
    while k < v.len()
        invariant
            k <= v@.len(),
            input == account_views(v@),
            account_views(sorted@) == sort_accounts(input.take(k as int)),
        decreases v@.len() - k,
    {
        let a = v[k].duplicate();
        let ghost sv = account_views(sorted@);
        let mut p: usize = 0;
        assert(sv.subrange(0, sv.len() as int) == sv);
        while p < sorted.len() && !before_exec(&a, &sorted[p])
            invariant
                p <= sorted@.len(),
                sv == account_views(sorted@),
                insert_position(sv, a@) == p + insert_position(sv.subrange(p as int, sv.len() as int), a@),
            decreases sorted@.len() - p,
        {
            proof {
                let rest = sv.subrange(p as int, sv.len() as int);
                assert(rest[0] == sv[p as int]);
                assert(rest.drop_first() == sv.subrange(p + 1, sv.len() as int));
            }
            p = p + 1;
        }
        proof {
            let rest = sv.subrange(p as int, sv.len() as int);
            if p < sorted@.len() {
                assert(rest[0] == sv[p as int]);
            }
            assert(input.take(k + 1).drop_last() == input.take(k as int));
            assert(input.take(k + 1).last() == a@);
        }
        sorted.insert(p, a);
        assert(account_views(sorted@) =~= sv.insert(p as int, a@));
        k = k + 1;
    }
    assert(input.take(v@.len() as int) == input);
    sorted
}


/// Position of the first active account, or -1.
pub open spec fn first_active(accounts: Seq<AccountView>) -> int
    decreases accounts.len(),
{
    if accounts.len() == 0 {
        -1
    } else if accounts[0].is_active {
        0
    } else {
        let r = first_active(accounts.drop_first());
        if r < 0 {
            -1
        } else {
            r + 1
        }
    }
}

/// Position of the first account with id `id`, or -1.
pub open spec fn first_with_id(accounts: Seq<AccountView>, id: Seq<char>) -> int
    decreases accounts.len(),
{
    if accounts.len() == 0 {
        -1
    } else if accounts[0].steam_id == id {
        0
    } else {
        let r = first_with_id(accounts.drop_first(), id);
        if r < 0 {
            -1
        } else {
            r + 1
        }
    }
}

pub open spec fn account_at(accounts: Seq<AccountView>, i: int) -> Option<AccountView> {
    if 0 <= i < accounts.len() {
        Some(accounts[i])
    } else {
        None
    }
}

pub open spec fn opt_account_view(a: Option<SteamAccount>) -> Option<AccountView> {
    match a {
        Some(x) => Some(x@),
        None => None,
    }
}

proof fn lemma_first_active_step(s: Seq<AccountView>, i: int)
    requires
        0 <= i < s.len(),
        forall|j: int| 0 <= j < i ==> !(#[trigger] s[j]).is_active,
    ensures
        first_active(s) == (if s[i].is_active {
            i
        } else {
            let r = first_active(s.subrange(i + 1, s.len() as int));
            if r < 0 {
                -1
            } else {
                r + i + 1
            }
        }),
    decreases i,
{
    if i > 0 {
        lemma_first_active_step(s.drop_first(), i - 1);
        assert(s.drop_first().subrange(i, s.drop_first().len() as int) == s.subrange(
            i + 1,
            s.len() as int,
        ));
    }
}

proof fn lemma_first_with_id_step(s: Seq<AccountView>, id: Seq<char>, i: int)
    requires
        0 <= i < s.len(),
        forall|j: int| 0 <= j < i ==> (#[trigger] s[j]).steam_id != id,
    ensures
        first_with_id(s, id) == (if s[i].steam_id == id {
            i
        } else {
            let r = first_with_id(s.subrange(i + 1, s.len() as int), id);
            if r < 0 {
                -1
            } else {
                r + i + 1
            }
        }),
    decreases i,
{
    if i > 0 {
        lemma_first_with_id_step(s.drop_first(), id, i - 1);
        assert(s.drop_first().subrange(i, s.drop_first().len() as int) == s.subrange(
            i + 1,
            s.len() as int,
        ));
    }
}

/// The account that the Steam client has signed in (the first one marked active).
pub fn get_client_active_account(accounts: &Vec<SteamAccount>) -> (r: Option<SteamAccount>)
    ensures
        opt_account_view(r) == account_at(
            account_views(accounts@),
            first_active(account_views(accounts@)),
        ),
{
    let ghost v = account_views(accounts@);
    for i in 0..accounts.len()
        invariant
            v == account_views(accounts@),
            forall|j: int| 0 <= j < i ==> !(#[trigger] v[j]).is_active,
    {
        proof {
            lemma_first_active_step(v, i as int);
        }
        if accounts[i].is_active {
            return Some(accounts[i].duplicate());
        }
    }
    proof {
        lemma_first_active_none(v);
    }
    None
}

proof fn lemma_first_active_none(s: Seq<AccountView>)
    requires
        forall|j: int| 0 <= j < s.len() ==> !(#[trigger] s[j]).is_active,
    ensures
        first_active(s) == -1,
    decreases s.len(),
{
    if s.len() > 0 {
        lemma_first_active_none(s.drop_first());
        assert(!s[0].is_active);
    }
}

proof fn lemma_first_with_id_none(s: Seq<AccountView>, id: Seq<char>)
    requires
        forall|j: int| 0 <= j < s.len() ==> (#[trigger] s[j]).steam_id != id,
    ensures
        first_with_id(s, id) == -1,
    decreases s.len(),
{
    if s.len() > 0 {
        lemma_first_with_id_none(s.drop_first(), id);
        assert(s[0].steam_id != id);
    }
}

/// The account signed in to the Steam client.
pub fn get_active_steam_account(accounts: &Vec<SteamAccount>) -> (r: Option<SteamAccount>)
    ensures
        opt_account_view(r) == account_at(
            account_views(accounts@),
            first_active(account_views(accounts@)),
        ),
{
    get_client_active_account(accounts)
}

fn find_account_by_id(accounts: &Vec<SteamAccount>, id: &[char]) -> (r: Option<SteamAccount>)
    ensures
        opt_account_view(r) == account_at(
            account_views(accounts@),
            first_with_id(account_views(accounts@), id@),
        ),
{
    let ghost v = account_views(accounts@);
    for i in 0..accounts.len()
        invariant
            v == account_views(accounts@),
            forall|j: int| 0 <= j < i ==> (#[trigger] v[j]).steam_id != id@,
    {
        proof {
            lemma_first_with_id_step(v, id@, i as int);
        }
        let k = chars_of(accounts[i].steam_id.as_str());
        if chars_eq(k.as_slice(), id) {
            return Some(accounts[i].duplicate());
        }
    }
    proof {
        lemma_first_with_id_none(v, id@);
    }
    None
}

/// Which account is selected in the settings and which one the Steam client uses.
pub struct SteamAccountContext {
    pub selected_steam_id: String,
    pub selected_persona_name: Option<String>,
    pub client_active_steam_id: Option<String>,
    pub client_active_persona_name: Option<String>,
    pub client_mismatch: bool,
    pub accounts: Vec<SteamAccount>,
}

pub open spec fn opt_string_view(o: Option<String>) -> Option<Seq<char>> {
    match o {
        Some(s) => Some(s@),
        None => None,
    }
}

/// The account context for the selected id over the client's accounts: names of the
/// selected and of the client's active account, and whether the two differ.
pub fn build_account_context(selected_steam_id: &str, accounts: Vec<SteamAccount>) -> (r:
    SteamAccountContext)
    ensures
        ({
            let v = account_views(accounts@);
            let active = account_at(v, first_active(v));
            let selected = account_at(v, first_with_id(v, selected_steam_id@));
            &&& r.selected_steam_id@ == selected_steam_id@
            &&& opt_string_view(r.selected_persona_name) == match selected {
                Some(a) => Some(a.persona_name),
                None => None,
            }
            &&& opt_string_view(r.client_active_steam_id) == match active {
                Some(a) => Some(a.steam_id),
                None => None,
            }
            &&& opt_string_view(r.client_active_persona_name) == match active {
                Some(a) => Some(a.persona_name),
                None => None,
            }
            &&& r.client_mismatch == match active {
                Some(a) => a.steam_id != selected_steam_id@,
                None => false,
            }
            &&& account_views(r.accounts@) == v
        }),
{
    let client_active = get_client_active_account(&accounts);
    let sel = chars_of(selected_steam_id);
    let selected = find_account_by_id(&accounts, sel.as_slice());
    let client_active_steam_id = match &client_active {
        Some(a) => Some(a.steam_id.clone()),
        None => None,
    };
    let client_mismatch = match &client_active {
        Some(a) => {
            let k = chars_of(a.steam_id.as_str());
            !chars_eq(k.as_slice(), sel.as_slice())
        },
        None => false,
    };
    SteamAccountContext {
        selected_steam_id: crate::text::owned(selected_steam_id),
        selected_persona_name: match selected {
            Some(a) => Some(a.persona_name),
            None => None,
        },
        client_active_steam_id,
        client_active_persona_name: match client_active {
            Some(a) => Some(a.persona_name),
            None => None,
        },
        client_mismatch,
        accounts,
    }
}

/// The Steam id to work with: the configured one (trimmed) when set, else the Steam
/// client's signed-in account. `client_active` is that account, or the error of reading it.
pub fn resolve_steam_id(settings_id: &str, client_active: Result<Option<SteamAccount>, String>) -> (r:
    Result<String, String>)
    ensures
        trim(settings_id@).len() != 0 ==> (r matches Ok(id) && id@ == trim(settings_id@)),
        trim(settings_id@).len() == 0 ==> match client_active {
            Err(e) => r matches Err(m) && m@ == e@,
            Ok(Some(a)) => r matches Ok(id) && id@ == a.steam_id@,
            Ok(None) => r matches Err(m) && m@
                == "No Steam account found. Sign in to the Steam client."@,
        },
{
    let trimmed = crate::text::trim_str(settings_id);
    if !trimmed.as_str().is_empty() {
        return Ok(trimmed);
    }
    match client_active {
        Err(e) => Err(e),
        Ok(Some(a)) => Ok(a.steam_id),
        Ok(None) => Err(crate::text::owned("No Steam account found. Sign in to the Steam client.")),
    }
}

/// The accounts of `loginusers.vdf` come with the Steam client's active account first, and
/// otherwise from the most recently used to the least recently used.
pub proof fn law_login_users_order(content: Seq<char>)
    ensures
        forall|i: int, j: int|
            0 <= i < j < login_users(content).len() ==> {
                &&& (#[trigger] login_users(content)[i]).is_active || !(#[trigger] login_users(content)[j]).is_active
                &&& login_users(content)[i].is_active == login_users(content)[j].is_active ==> login_users(content)[i].most_recent
                    >= login_users(content)[j].most_recent
            },
{
    lemma_sort_accounts(named_accounts(parse_lines(split(content, '\n')).users));
    let v = login_users(content);
    assert forall|i: int, j: int| 0 <= i < j < v.len() implies {
        &&& (#[trigger] v[i]).is_active || !(#[trigger] v[j]).is_active
        &&& v[i].is_active == v[j].is_active ==> v[i].most_recent >= v[j].most_recent
    } by {
        assert(!account_before(v[j], v[i]));
    }
}

} // verus!
