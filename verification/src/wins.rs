//! Won giveaways: the codes already seen for an account, and which wins of a fetched
//! list are new. Reading and writing the cache file, notifying and claiming happen
//! outside this crate; they hand the lists in and take the new wins back.
use vstd::prelude::*;

use crate::settings::string_views;
use crate::steamgifts::{won_views, WonGiveaway, WonView};
use crate::text::{chars_eq, chars_of, owned, push_all, string_from_chars, trim, trim_str};

verus! {

/// The codes of won giveaways already seen; no code is stored twice.
pub struct KnownWins {
    codes: Vec<String>,
}

impl View for KnownWins {
    type V = Set<Seq<char>>;

    closed spec fn view(&self) -> Set<Seq<char>> {
        string_views(self.codes@).to_set()
    }
}

/// Whether some win of `ws` has code `c`.
pub open spec fn has_code(ws: Seq<WonView>, c: Seq<char>) -> bool {
    exists|j: int| 0 <= j < ws.len() && (#[trigger] ws[j]).code == c
}

/// The codes of all wins of `ws`.
pub open spec fn codes_of(ws: Seq<WonView>) -> Set<Seq<char>> {
    Set::new(|c: Seq<char>| has_code(ws, c))
}

/// The wins of `ws`, in order, whose code is neither in `known` nor held by an earlier
/// win of `ws`.
pub open spec fn fresh_wins(known: Set<Seq<char>>, ws: Seq<WonView>) -> Seq<WonView>
    decreases ws.len(),
{
    if ws.len() == 0 {
        Seq::empty()
    } else if known.contains(ws[0].code) {
        fresh_wins(known, ws.drop_first())
    } else {
        seq![ws[0]] + fresh_wins(known.insert(ws[0].code), ws.drop_first())
    }
}

impl KnownWins {
    #[verifier::type_invariant]
    closed spec fn distinct_codes(&self) -> bool {
        string_views(self.codes@).no_duplicates()
    }

    /// No code seen yet.
    pub fn new() -> (r: KnownWins)
        ensures
            r@ == Set::<Seq<char>>::empty(),
    {
        let codes: Vec<String> = Vec::new();
        assert(string_views(codes@) =~= Seq::<Seq<char>>::empty());
        assert(string_views(codes@).to_set() =~= Set::<Seq<char>>::empty());
        KnownWins { codes }
    }

    fn index_of(codes: &Vec<String>, code: &[char]) -> (r: Option<usize>)
        ensures
            match r {
                Some(i) => i < codes@.len() && codes@[i as int]@ == code@,
                None => !string_views(codes@).contains(code@),
            },
    {
        for i in 0..codes.len()
            invariant
                forall|j: int| 0 <= j < i ==> (#[trigger] codes@[j])@ != code@,
        {
            let k = chars_of(codes[i].as_str());
            if chars_eq(k.as_slice(), code) {
                return Some(i);
            }
        }
        proof {
            let vs = string_views(codes@);
            if vs.contains(code@) {
                let j = choose|j: int| 0 <= j < vs.len() && vs[j] == code@;
                assert(codes@[j]@ == code@);
            }
        }
        None
    }

    /// Whether `code` was seen.
    pub fn contains(&self, code: &str) -> (b: bool)
        ensures
            b == self@.contains(code@),
    {
        let k = chars_of(code);
        let r = Self::index_of(&self.codes, k.as_slice());
        proof {
            let vs = string_views(self.codes@);
            if let Some(i) = r {
                assert(vs[i as int] == code@);
                assert(vs.contains(code@));
            }
        }
        r.is_some()
    }

    /// Records `code`; true when it was not seen before.
    pub fn insert(&mut self, code: &str) -> (added: bool)
        ensures
            added == !old(self)@.contains(code@),
            final(self)@ == old(self)@.insert(code@),
    {
        proof {
            use_type_invariant(&*self);
        }
        let k = chars_of(code);
        let found = Self::index_of(&self.codes, k.as_slice());
        let ghost before = string_views(self.codes@);
        if let Some(i) = found {
            proof {
                assert(before[i as int] == code@);
                assert(before.contains(code@));
                assert(before.to_set().insert(code@) =~= before.to_set());
            }
            false
        } else {
            let mut codes: Vec<String> = Vec::new();
            std::mem::swap(&mut codes, &mut self.codes);
            codes.push(string_from_chars(k.as_slice()));
            proof {
                assert(string_views(codes@) =~= before.push(code@));
                assert(before.push(code@).to_set() =~= before.to_set().insert(code@)) by {
                    assert forall|c: Seq<char>|
                        before.push(code@).contains(c) implies before.contains(c) || c == code@ by {
                        let j = choose|j: int|
                            0 <= j < before.push(code@).len() && before.push(code@)[j] == c;
                        if j < before.len() {
                            assert(before[j] == c);
                        }
                    }
                    assert forall|c: Seq<char>| before.contains(c) implies before.push(
                        code@,
                    ).contains(c) by {
                        let j = choose|j: int| 0 <= j < before.len() && before[j] == c;
                        assert(before.push(code@)[j] == c);
                    }
                    assert(before.push(code@)[before.len() as int] == code@);
                }
            }
            self.codes = codes;
            true
        }
    }

    /// The known codes built from a stored list; repeated codes count once.
    pub fn from_codes(codes: &Vec<String>) -> (r: KnownWins)
        ensures
            r@ == string_views(codes@).to_set(),
    {
        let mut r = KnownWins::new();
        for i in 0..codes.len()
            invariant
                r@ == string_views(codes@.take(i as int)).to_set(),
        {
            r.insert(codes[i].as_str());
            proof {
                let a = string_views(codes@.take(i as int));
                let b = string_views(codes@.take(i + 1));
                assert(b =~= a.push(codes@[i as int]@));
                assert(b.to_set() =~= a.to_set().insert(codes@[i as int]@)) by {
                    assert forall|c: Seq<char>| b.contains(c) implies a.contains(c) || c
                        == codes@[i as int]@ by {
                        let j = choose|j: int| 0 <= j < b.len() && b[j] == c;
                        if j < a.len() {
                            assert(a[j] == c);
                        }
                    }
                    assert forall|c: Seq<char>| a.contains(c) implies b.contains(c) by {
                        let j = choose|j: int| 0 <= j < a.len() && a[j] == c;
                        assert(b[j] == c);
                    }
                    assert(b[i as int] == codes@[i as int]@);
                }
            }
        }
        assert(codes@.take(codes@.len() as int) =~= codes@);
        r
    }

    /// The known codes, each once, for storing.
    pub fn to_codes(&self) -> (r: Vec<String>)
        ensures
            string_views(r@).to_set() == self@,
            string_views(r@).no_duplicates(),
    {
        proof {
            use_type_invariant(self);
        }
        let mut r: Vec<String> = Vec::new();
        for i in 0..self.codes.len()
            invariant
                string_views(r@) == string_views(self.codes@).take(i as int),
        {
            let c = self.codes[i].clone();
            let ghost before = string_views(r@);
            r.push(c);
            assert(string_views(r@) =~= before.push(self.codes@[i as int]@));
            assert(string_views(self.codes@).take(i + 1) =~= string_views(self.codes@).take(
                i as int,
            ).push(self.codes@[i as int]@));
        }
        assert(string_views(self.codes@).take(self.codes@.len() as int) =~= string_views(
            self.codes@,
        ));
        r
    }
}

/// Records the codes of `wins` as known and returns copies of the wins that are new:
/// those whose code was not known and not held by an earlier win of the list.
pub fn register_new_wins(known: &mut KnownWins, wins: &Vec<WonGiveaway>) -> (r: Vec<WonGiveaway>)
    ensures
        won_views(r@) == fresh_wins(old(known)@, won_views(wins@)),
        final(known)@ == old(known)@.union(codes_of(won_views(wins@))),
{
    let ghost k0 = known@;
    let ghost ws = won_views(wins@);
    let mut r: Vec<WonGiveaway> = Vec::new();
    assert(ws.skip(0) =~= ws);
    assert(won_views(r@) + fresh_wins(known@, ws) =~= fresh_wins(known@, ws));
    assert(codes_of(ws.take(0)) =~= Set::<Seq<char>>::empty());
    assert(k0.union(Set::<Seq<char>>::empty()) =~= k0);
    for i in 0..wins.len()
        invariant
            ws == won_views(wins@),
            known@ == k0.union(codes_of(ws.take(i as int))),
            won_views(r@) + fresh_wins(known@, ws.skip(i as int)) == fresh_wins(k0, ws),
    {
        let w = &wins[i];
        let ghost kb = known@;
        let ghost rb = won_views(r@);
        let ghost rest = ws.skip(i as int);
        assert(rest.len() > 0 && rest[0] == w@ && rest.drop_first() =~= ws.skip(i + 1));
        let added = known.insert(w.code.as_str());
        if added {
            r.push(w.duplicate());
            assert(won_views(r@) =~= rb.push(w@));
            assert(fresh_wins(kb, rest) == seq![w@] + fresh_wins(kb.insert(w@.code), ws.skip(i + 1)));
            assert(rb + fresh_wins(kb, rest) =~= rb.push(w@) + fresh_wins(known@, ws.skip(i + 1)));
        } else {
            assert(won_views(r@) == rb);
            assert(known@ =~= kb);
            assert(fresh_wins(kb, rest) == fresh_wins(kb, ws.skip(i + 1)));
        }
        assert(codes_of(ws.take(i + 1)) =~= codes_of(ws.take(i as int)).insert(w@.code)) by {
            assert(ws.take(i + 1)[i as int] == w@);
            assert forall|c: Seq<char>| has_code(ws.take(i + 1), c) implies has_code(
                ws.take(i as int),
                c,
            ) || c == w@.code by {
                let j = choose|j: int| 0 <= j < ws.take(i + 1).len() && (#[trigger] ws.take(
                    i + 1,
                )[j]).code == c;
                if j < i {
                    assert(ws.take(i as int)[j] == ws.take(i + 1)[j]);
                }
            }
            assert forall|c: Seq<char>| has_code(ws.take(i as int), c) implies has_code(
                ws.take(i + 1),
                c,
            ) by {
                let j = choose|j: int| 0 <= j < ws.take(i as int).len() && (#[trigger] ws.take(
                    i as int,
                )[j]).code == c;
                assert(ws.take(i + 1)[j] == ws.take(i as int)[j]);
            }
        }
        assert(known@ =~= k0.union(codes_of(ws.take(i + 1))));
    }
    assert(ws.take(wins.len() as int) =~= ws);
    assert(ws.skip(wins.len() as int) =~= Seq::<WonView>::empty());
    assert(won_views(r@) + Seq::<WonView>::empty() =~= won_views(r@));
    r
}

/// Whether wins are looked up at all: only with a session cookie.
pub fn should_check_wins(cookie: &str) -> (b: bool)
    ensures
        b == (trim(cookie@).len() > 0),
{
    let t = trim_str(cookie);
    !t.as_str().is_empty()
}

/// Title of the notification about a win.
pub fn win_notification_title() -> (r: String)
    ensures
        r@ == "Steam Suite — Giveaway Won!"@,
{
    owned("Steam Suite — Giveaway Won!")
}

/// Body of the notification about a win.
pub fn win_notification_body(name: &str) -> (r: String)
    ensures
        r@ == "You won: "@ + name@,
{
    let mut v = chars_of("You won: ");
    let n = chars_of(name);
    push_all(&mut v, n.as_slice());
    string_from_chars(v.as_slice())
}

/// Fresh wins skip every code that is already known.
proof fn lemma_fresh_all_known(known: Set<Seq<char>>, ws: Seq<WonView>)
    requires
        forall|c: Seq<char>| has_code(ws, c) ==> known.contains(c),
    ensures
        fresh_wins(known, ws) == Seq::<WonView>::empty(),
    decreases ws.len(),
{
    if ws.len() > 0 {
        assert(has_code(ws, ws[0].code));
        let rest = ws.drop_first();
        assert forall|c: Seq<char>| has_code(rest, c) implies known.contains(c) by {
            let j = choose|j: int| 0 <= j < rest.len() && (#[trigger] rest[j]).code == c;
            assert(ws[j + 1] == rest[j]);
        }
        lemma_fresh_all_known(known, rest);
    }
}

/// Each fresh win's code was unknown, held by a win of the list, and no two fresh wins
/// share a code.
proof fn lemma_fresh_codes(known: Set<Seq<char>>, ws: Seq<WonView>)
    ensures
        forall|j: int|
            0 <= j < fresh_wins(known, ws).len() ==> !known.contains(
                (#[trigger] fresh_wins(known, ws)[j]).code,
            ) && has_code(ws, fresh_wins(known, ws)[j].code),
        forall|j: int, k: int|
            0 <= j < k < fresh_wins(known, ws).len() ==> (#[trigger] fresh_wins(known, ws)[j]).code
                != (#[trigger] fresh_wins(known, ws)[k]).code,
    decreases ws.len(),
{
    if ws.len() > 0 {
        let rest = ws.drop_first();
        let w = ws[0];
        if known.contains(w.code) {
            lemma_fresh_codes(known, rest);
            let f = fresh_wins(known, ws);
            assert(f == fresh_wins(known, rest));
            assert forall|j: int| 0 <= j < f.len() implies has_code(ws, (#[trigger] f[j]).code) by {
                assert(f[j] == fresh_wins(known, rest)[j]);
                let m = choose|m: int| 0 <= m < rest.len() && (#[trigger] rest[m]).code == f[j].code;
                assert(ws[m + 1] == rest[m]);
            }
        } else {
            let k2 = known.insert(w.code);
            lemma_fresh_codes(k2, rest);
            let f = fresh_wins(known, ws);
            let g = fresh_wins(k2, rest);
            assert(f == seq![w] + g);
            assert forall|j: int| 0 <= j < f.len() implies !known.contains((#[trigger] f[j]).code)
                && has_code(ws, f[j].code) by {
                if j == 0 {
                    assert(ws[0].code == f[0].code);
                } else {
                    assert(f[j] == g[j - 1]);
                    let m = choose|m: int| 0 <= m < rest.len() && (#[trigger] rest[m]).code
                        == g[j - 1].code;
                    assert(ws[m + 1] == rest[m]);
                }
            }
            assert forall|j: int, k: int| 0 <= j < k < f.len() implies (#[trigger] f[j]).code
                != (#[trigger] f[k]).code by {
                assert(f[k] == g[k - 1]);
                if j > 0 {
                    assert(f[j] == g[j - 1]);
                }
            }
        }
    }
}

/// Checking the same list twice finds nothing new the second time; afterwards every
/// code of the list is known, and the new wins have distinct codes that were unknown.
pub proof fn law_wins_registered_once(known: Set<Seq<char>>, ws: Seq<WonView>)
    ensures
        fresh_wins(known.union(codes_of(ws)), ws) == Seq::<WonView>::empty(),
        forall|j: int|
            0 <= j < fresh_wins(known, ws).len() ==> !known.contains(
                (#[trigger] fresh_wins(known, ws)[j]).code,
            ) && codes_of(ws).contains(fresh_wins(known, ws)[j].code),
        forall|j: int, k: int|
            0 <= j < k < fresh_wins(known, ws).len() ==> (#[trigger] fresh_wins(known, ws)[j]).code
                != (#[trigger] fresh_wins(known, ws)[k]).code,
{
    lemma_fresh_all_known(known.union(codes_of(ws)), ws);
    lemma_fresh_codes(known, ws);
}

} // verus!
