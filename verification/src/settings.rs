//! Application settings and the per-account profiles they hold.
use vstd::prelude::*;

use crate::text::{chars_of, owned, string_from_chars};

verus! {

/// Credentials and automation choices of one Steam account.
pub struct SteamAccountProfile {
    pub steam_session_id: String,
    pub steam_login_secure: String,
    pub steam_machine_auth: String,
    pub steam_credentials_user: String,
    pub steam_api_key: String,
    pub steam_country_code: String,
    pub idle_game_ids: Vec<u32>,
    pub farm_game_ids: Vec<u32>,
    pub auto_idle_on_start: bool,
    pub card_farming_enabled: bool,
    pub steamgifts_cookie: String,
    pub indiegala_cookie: String,
}

/// Mathematical model of [`SteamAccountProfile`].
pub struct ProfileView {
    pub steam_session_id: Seq<char>,
    pub steam_login_secure: Seq<char>,
    pub steam_machine_auth: Seq<char>,
    pub steam_credentials_user: Seq<char>,
    pub steam_api_key: Seq<char>,
    pub steam_country_code: Seq<char>,
    pub idle_game_ids: Seq<u32>,
    pub farm_game_ids: Seq<u32>,
    pub auto_idle_on_start: bool,
    pub card_farming_enabled: bool,
    pub steamgifts_cookie: Seq<char>,
    pub indiegala_cookie: Seq<char>,
}

impl ProfileView {
    /// The profile that `Default` builds: every text empty, no games, every switch off.
    pub open spec fn empty() -> ProfileView {
        ProfileView {
            steam_session_id: Seq::empty(),
            steam_login_secure: Seq::empty(),
            steam_machine_auth: Seq::empty(),
            steam_credentials_user: Seq::empty(),
            steam_api_key: Seq::empty(),
            steam_country_code: Seq::empty(),
            idle_game_ids: Seq::empty(),
            farm_game_ids: Seq::empty(),
            auto_idle_on_start: false,
            card_farming_enabled: false,
            steamgifts_cookie: Seq::empty(),
            indiegala_cookie: Seq::empty(),
        }
    }
}

impl View for SteamAccountProfile {
    type V = ProfileView;

    open spec fn view(&self) -> ProfileView {
        ProfileView {
            steam_session_id: self.steam_session_id@,
            steam_login_secure: self.steam_login_secure@,
            steam_machine_auth: self.steam_machine_auth@,
            steam_credentials_user: self.steam_credentials_user@,
            steam_api_key: self.steam_api_key@,
            steam_country_code: self.steam_country_code@,
            idle_game_ids: self.idle_game_ids@,
            farm_game_ids: self.farm_game_ids@,
            auto_idle_on_start: self.auto_idle_on_start,
            card_farming_enabled: self.card_farming_enabled,
            steamgifts_cookie: self.steamgifts_cookie@,
            indiegala_cookie: self.indiegala_cookie@,
        }
    }
}

impl Default for SteamAccountProfile {
    fn default() -> (r: SteamAccountProfile)
        ensures
            r@ == ProfileView::empty(),
    {
        SteamAccountProfile {
            steam_session_id: String::new(),
            steam_login_secure: String::new(),
            steam_machine_auth: String::new(),
            steam_credentials_user: String::new(),
            steam_api_key: String::new(),
            steam_country_code: String::new(),
            idle_game_ids: Vec::new(),
            farm_game_ids: Vec::new(),
            auto_idle_on_start: false,
            card_farming_enabled: false,
            steamgifts_cookie: String::new(),
            indiegala_cookie: String::new(),
        }
    }
}

/// A fresh copy of a list of app ids.
pub fn copy_ids(v: &Vec<u32>) -> (r: Vec<u32>)
    ensures
        r@ == v@,
{
    let mut r: Vec<u32> = Vec::new();
    for i in 0..v.len()
        invariant
            r@ == v@.take(i as int),
    {
        r.push(v[i]);
        assert(v@.take(i + 1) == v@.take(i as int).push(v@[i as int]));
    }
    assert(v@.take(v.len() as int) == v@);
    r
}

impl SteamAccountProfile {
    /// A copy with the same contents.
    pub fn duplicate(&self) -> (r: SteamAccountProfile)
        ensures
            r@ == self@,
    {
        SteamAccountProfile {
            steam_session_id: self.steam_session_id.clone(),
            steam_login_secure: self.steam_login_secure.clone(),
            steam_machine_auth: self.steam_machine_auth.clone(),
            steam_credentials_user: self.steam_credentials_user.clone(),
            steam_api_key: self.steam_api_key.clone(),
            steam_country_code: self.steam_country_code.clone(),
            idle_game_ids: copy_ids(&self.idle_game_ids),
            farm_game_ids: copy_ids(&self.farm_game_ids),
            auto_idle_on_start: self.auto_idle_on_start,
            card_farming_enabled: self.card_farming_enabled,
            steamgifts_cookie: self.steamgifts_cookie.clone(),
            indiegala_cookie: self.indiegala_cookie.clone(),
        }
    }
}

/// One account's profile, under its Steam id.
pub struct ProfileEntry {
    pub steam_id: String,
    pub profile: SteamAccountProfile,
}

/// The account profiles, keyed by Steam id; no id occurs twice.
pub struct ProfileMap {
    entries: Vec<ProfileEntry>,
}

/// The keys of a list of entries, in order.
pub open spec fn entry_keys(entries: Seq<ProfileEntry>) -> Seq<Seq<char>> {
    entries.map_values(|e: ProfileEntry| e.steam_id@)
}

/// The map that a list of entries with distinct keys stands for.
pub open spec fn entries_map(entries: Seq<ProfileEntry>) -> Map<Seq<char>, ProfileView>
    decreases entries.len(),
{
    if entries.len() == 0 {
        Map::empty()
    } else {
        entries_map(entries.drop_last()).insert(
            entries.last().steam_id@,
            entries.last().profile@,
        )
    }
}

pub proof fn lemma_entries_map_dom(entries: Seq<ProfileEntry>)
    ensures
        entries_map(entries).dom().finite(),
        forall|k: Seq<char>|
            #[trigger] entries_map(entries).dom().contains(k) <==> entry_keys(entries).contains(k),
    decreases entries.len(),
{
    if entries.len() > 0 {
        lemma_entries_map_dom(entries.drop_last());
        let ks = entry_keys(entries);
        let ks0 = entry_keys(entries.drop_last());
        assert(ks == ks0.push(entries.last().steam_id@));
        assert forall|k: Seq<char>| #[trigger]
            entries_map(entries).dom().contains(k) <==> ks.contains(k) by {
            let lk = entries.last().steam_id@;
            assert(entries_map(entries).dom() == entries_map(entries.drop_last()).dom().insert(lk));
            if k == lk {
                assert(ks[ks.len() - 1] == k);
            }
            if ks.contains(k) {
                let i = choose|i: int| 0 <= i < ks.len() && ks[i] == k;
                if i < ks0.len() {
                    assert(ks0[i] == k);
                }
            }
            if ks0.contains(k) {
                let i = choose|i: int| 0 <= i < ks0.len() && ks0[i] == k;
                assert(ks[i] == k);
            }
        }
    }
}

/// Looking up key `k` finds the profile of the entry at index `i` when that entry holds `k`.
pub proof fn lemma_entries_map_get(entries: Seq<ProfileEntry>, i: int)
    requires
        0 <= i < entries.len(),
        entry_keys(entries).no_duplicates(),
    ensures
        entries_map(entries).dom().contains(entries[i].steam_id@),
        entries_map(entries)[entries[i].steam_id@] == entries[i].profile@,
    decreases entries.len(),
{
    let last = entries.len() - 1;
    if i < last {
        let ks = entry_keys(entries);
        assert(entry_keys(entries.drop_last()) == ks.drop_last());
        assert(ks[i] != ks[last]);
        assert(entries.drop_last()[i] == entries[i]);
        lemma_entries_map_get(entries.drop_last(), i);
    }
}

impl View for ProfileMap {
    type V = Map<Seq<char>, ProfileView>;

    closed spec fn view(&self) -> Map<Seq<char>, ProfileView> {
        entries_map(self.entries@)
    }
}

impl ProfileMap {
    /// The stored profiles are finitely many.
    pub proof fn lemma_finite(&self)
        ensures
            self@.dom().finite(),
    {
        lemma_entries_map_dom(self.entries@);
    }

    /// Keys are distinct.
    #[verifier::type_invariant]
    closed spec fn distinct_keys(&self) -> bool {
        entry_keys(self.entries@).no_duplicates()
    }

    /// An empty map.
    pub fn new() -> (m: ProfileMap)
        ensures
            m@ == Map::<Seq<char>, ProfileView>::empty(),
    {
        let v: Vec<ProfileEntry> = Vec::new();
        assert(entry_keys(v@) =~= Seq::<Seq<char>>::empty());
        ProfileMap { entries: v }
    }

    pub fn len(&self) -> (n: usize)
        ensures
            n == self@.len(),
    {
        proof {
            use_type_invariant(self);
            self.lemma_len();
        }
        self.entries.len()
    }

    pub fn is_empty(&self) -> (b: bool)
        ensures
            b == (self@.len() == 0),
            b == (self@ == Map::<Seq<char>, ProfileView>::empty()),
    {
        proof {
            use_type_invariant(self);
            self.lemma_len();
            if self@.len() == 0 {
                lemma_entries_map_dom(self.entries@);
                assert(self@.dom() =~= Set::<Seq<char>>::empty());
                assert(self@ =~= Map::<Seq<char>, ProfileView>::empty());
            }
        }
        self.entries.len() == 0
    }

    proof fn lemma_len(&self)
        requires
            entry_keys(self.entries@).no_duplicates(),
        ensures
            self@.dom().finite(),
            self@.len() == self.entries@.len(),
    {
        lemma_entries_map_dom(self.entries@);
        let ks = entry_keys(self.entries@);
        assert(self@.dom() =~= ks.to_set());
        ks.unique_seq_to_set();
    }

    /// Index of the entry holding `key`.
    fn position(entries: &Vec<ProfileEntry>, key: &[char]) -> (r: Option<usize>)
        ensures
            match r {
                Some(i) => i < entries@.len() && entries@[i as int].steam_id@ == key@,
                None => !entries_map(entries@).dom().contains(key@),
            },
    {
        proof {
            lemma_entries_map_dom(entries@);
        }
        for i in 0..entries.len()
            invariant
                forall|j: int| 0 <= j < i ==> #[trigger] entries@[j].steam_id@ != key@,
        {
            let k = chars_of(entries[i].steam_id.as_str());
            if crate::text::chars_eq(k.as_slice(), key) {
                return Some(i);
            }
        }
        proof {
            let ks = entry_keys(entries@);
            if ks.contains(key@) {
                let j = choose|j: int| 0 <= j < ks.len() && ks[j] == key@;
                assert(entries@[j].steam_id@ == key@);
            }
        }
        None
    }

    pub fn contains_key(&self, key: &str) -> (b: bool)
        ensures
            b == self@.dom().contains(key@),
    {
        proof {
            use_type_invariant(self);
        }
        let k = chars_of(key);
        match Self::position(&self.entries, k.as_slice()) {
            Some(i) => {
                proof {
                    lemma_entries_map_get(self.entries@, i as int);
                }
                true
            },
            None => false,
        }
    }

    /// A copy of the profile stored under `key`.
    pub fn get(&self, key: &str) -> (r: Option<SteamAccountProfile>)
        ensures
            match r {
                Some(p) => self@.dom().contains(key@) && p@ == self@[key@],
                None => !self@.dom().contains(key@),
            },
    {
        proof {
            use_type_invariant(self);
        }
        let k = chars_of(key);
        match Self::position(&self.entries, k.as_slice()) {
            Some(i) => {
                proof {
                    lemma_entries_map_get(self.entries@, i as int);
                }
                Some(self.entries[i].profile.duplicate())
            },
            None => None,
        }
    }

    /// Stores `profile` under `key`, replacing what was there.
    pub fn insert(&mut self, key: &str, profile: SteamAccountProfile)
        ensures
            final(self)@ == old(self)@.insert(key@, profile@),
    {
        proof {
            use_type_invariant(&*self);
        }
        let mut entries: Vec<ProfileEntry> = Vec::new();
        std::mem::swap(&mut entries, &mut self.entries);
        let ghost before = entries@;
        let k = chars_of(key);
        proof {
            lemma_entries_map_dom(before);
        }
        match Self::position(&entries, k.as_slice()) {
            Some(i) => {
                let entry = ProfileEntry { steam_id: string_from_chars(k.as_slice()), profile };
                entries.set(i, entry);
                proof {
                    assert(entry_keys(entries@) =~= entry_keys(before));
                    lemma_entries_map_set(before, i as int, entry);
                }
            },
            None => {
                let entry = ProfileEntry { steam_id: string_from_chars(k.as_slice()), profile };
                entries.push(entry);
                proof {
                    assert(entries@.drop_last() == before);
                    assert(entry_keys(entries@) == entry_keys(before).push(key@));
                    assert(!entry_keys(before).contains(key@));
                }
            },
        }
        self.entries = entries;
    }

    /// Every stored entry, copied, in storage order.
    pub fn to_entries(&self) -> (r: Vec<ProfileEntry>)
        ensures
            entries_map(r@) == self@,
            entry_keys(r@).no_duplicates(),
    {
        proof {
            use_type_invariant(self);
        }
        let mut r: Vec<ProfileEntry> = Vec::new();
        for i in 0..self.entries.len()
            invariant
                r@.len() == i,
                forall|j: int|
                    0 <= j < i ==> {
                        &&& (#[trigger] r@[j]).steam_id@ == self.entries@[j].steam_id@
                        &&& r@[j].profile@ == self.entries@[j].profile@
                    },
        {
            let e = &self.entries[i];
            r.push(ProfileEntry { steam_id: e.steam_id.clone(), profile: e.profile.duplicate() });
        }
        proof {
            lemma_entries_map_same_views(self.entries@, r@);
        }
        r
    }

    /// Fills an empty API key or country code of every profile from the given values.
    pub fn backfill_defaults(&mut self, api_key: &String, country_code: &String)
        ensures
            final(self)@ == old(self)@.map_values(
                |p: ProfileView| backfilled(p, api_key@, country_code@),
            ),
    {
        proof {
            use_type_invariant(&*self);
        }
        let mut entries: Vec<ProfileEntry> = Vec::new();
        std::mem::swap(&mut entries, &mut self.entries);
        let ghost start = entries@;
        let n = entries.len();
        for i in 0..n
            invariant
                n == entries@.len(),
                n == start.len(),
                entry_keys(start).no_duplicates(),
                entry_keys(entries@) == entry_keys(start),
                forall|j: int|
                    0 <= j < i ==> {
                        &&& (#[trigger] entries@[j]).steam_id@ == start[j].steam_id@
                        &&& entries@[j].profile@ == backfilled(
                            start[j].profile@,
                            api_key@,
                            country_code@,
                        )
                    },
                forall|j: int| i <= j < n ==> #[trigger] entries@[j] == start[j],
        {
            let cur = &entries[i];
            let mut p = cur.profile.duplicate();
            if p.steam_api_key.as_str().is_empty() && !api_key.as_str().is_empty() {
                p.steam_api_key = api_key.clone();
            }
            if p.steam_country_code.as_str().is_empty() && !country_code.as_str().is_empty() {
                p.steam_country_code = country_code.clone();
            }
            let e = ProfileEntry { steam_id: cur.steam_id.clone(), profile: p };
            proof {
                assert(e.profile@ == backfilled(start[i as int].profile@, api_key@, country_code@));
            }
            entries.set(i, e);
            assert(entry_keys(entries@) =~= entry_keys(start));
        }
        proof {
            lemma_entries_map_backfill(start, entries@, api_key@, country_code@);
        }
        self.entries = entries;
    }
}

/// Entry lists that agree on every key and profile view stand for the same map.
pub proof fn lemma_entries_map_same_views(a: Seq<ProfileEntry>, b: Seq<ProfileEntry>)
    requires
        a.len() == b.len(),
        forall|j: int|
            0 <= j < a.len() ==> {
                &&& (#[trigger] b[j]).steam_id@ == a[j].steam_id@
                &&& b[j].profile@ == a[j].profile@
            },
    ensures
        entries_map(a) == entries_map(b),
        entry_keys(a) == entry_keys(b),
    decreases a.len(),
{
    assert(entry_keys(a) =~= entry_keys(b));
    if a.len() > 0 {
        lemma_entries_map_same_views(a.drop_last(), b.drop_last());
        assert(b.last() == b[a.len() - 1]);
    }
}

/// A profile with an empty API key or country code filled from the given values.
pub open spec fn backfilled(p: ProfileView, api_key: Seq<char>, cc: Seq<char>) -> ProfileView {
    ProfileView {
        steam_api_key: if p.steam_api_key.len() == 0 && api_key.len() > 0 {
            api_key
        } else {
            p.steam_api_key
        },
        steam_country_code: if p.steam_country_code.len() == 0 && cc.len() > 0 {
            cc
        } else {
            p.steam_country_code
        },
        ..p
    }
}

/// Two entry lists with the same keys, the second holding backfilled profiles.
pub open spec fn backfill_related(
    old_entries: Seq<ProfileEntry>,
    new_entries: Seq<ProfileEntry>,
    api_key: Seq<char>,
    cc: Seq<char>,
) -> bool {
    &&& old_entries.len() == new_entries.len()
    &&& forall|j: int|
        0 <= j < old_entries.len() ==> {
            &&& (#[trigger] new_entries[j]).steam_id@ == old_entries[j].steam_id@
            &&& new_entries[j].profile@ == backfilled(old_entries[j].profile@, api_key, cc)
        }
}

pub proof fn lemma_entries_map_backfill(
    old_entries: Seq<ProfileEntry>,
    new_entries: Seq<ProfileEntry>,
    api_key: Seq<char>,
    cc: Seq<char>,
)
    requires
        backfill_related(old_entries, new_entries, api_key, cc),
    ensures
        entries_map(new_entries) == entries_map(old_entries).map_values(
            |p: ProfileView| backfilled(p, api_key, cc),
        ),
    decreases old_entries.len(),
{
    if old_entries.len() > 0 {
        let o = old_entries.drop_last();
        let n = new_entries.drop_last();
        assert(backfill_related(o, n, api_key, cc)) by {
            assert forall|j: int| 0 <= j < o.len() implies {
                &&& (#[trigger] n[j]).steam_id@ == o[j].steam_id@
                &&& n[j].profile@ == backfilled(o[j].profile@, api_key, cc)
            } by {
                assert(n[j] == new_entries[j]);
                assert(o[j] == old_entries[j]);
            }
        }
        lemma_entries_map_backfill(o, n, api_key, cc);
        let last = old_entries.len() - 1;
        assert(new_entries[last].steam_id@ == old_entries[last].steam_id@);
        assert(entries_map(new_entries) =~= entries_map(old_entries).map_values(
            |p: ProfileView| backfilled(p, api_key, cc),
        ));
    } else {
        assert(entries_map(new_entries) =~= entries_map(old_entries).map_values(
            |p: ProfileView| backfilled(p, api_key, cc),
        ));
    }
}

/// Replacing the profile of entry `i` updates the map at that entry's key.
pub proof fn lemma_entries_map_set(entries: Seq<ProfileEntry>, i: int, e: ProfileEntry)
    requires
        0 <= i < entries.len(),
        entry_keys(entries).no_duplicates(),
        e.steam_id@ == entries[i].steam_id@,
    ensures
        entries_map(entries.update(i, e)) == entries_map(entries).insert(e.steam_id@, e.profile@),
    decreases entries.len(),
{
    let last = entries.len() - 1;
    let upd = entries.update(i, e);
    if i == last {
        assert(upd.drop_last() == entries.drop_last());
        lemma_entries_map_dom(entries.drop_last());
        assert(entries_map(entries).insert(e.steam_id@, e.profile@) =~= entries_map(
            entries.drop_last(),
        ).insert(e.steam_id@, e.profile@));
    } else {
        let ks = entry_keys(entries);
        assert(ks[i] != ks[last]);
        assert(entry_keys(entries.drop_last()) == ks.drop_last());
        lemma_entries_map_set(entries.drop_last(), i, e);
        assert(upd.drop_last() == entries.drop_last().update(i, e));
        assert(upd.last() == entries.last());
        assert(entries_map(upd) =~= entries_map(entries).insert(e.steam_id@, e.profile@));
    }
}

} // verus!

verus! {

/// Every setting of the application.
pub struct AppSettings {
    pub steam_api_key: String,
    pub steam_id: String,
    pub steam_session_id: String,
    pub steam_login_secure: String,
    pub steam_machine_auth: String,
    pub steam_credentials_user: String,
    pub steam_country_code: String,
    pub utility_path: String,
    pub saveslot_cli_path: String,
    pub idle_game_ids: Vec<u32>,
    pub farm_game_ids: Vec<u32>,
    pub auto_idle_on_start: bool,
    pub card_farming_enabled: bool,
    pub max_idle_games: u32,
    pub steamgifts_cookie: String,
    pub indiegala_cookie: String,
    pub enable_indiegala: bool,
    pub refresh_delay_minutes: u32,
    pub max_pages: u32,
    pub max_giveaway_end_hours: u32,
    pub indiegala_entry_delay: u32,
    pub indiegala_min_cost: u32,
    pub manual_select_giveaways: bool,
    pub notify_on_win: bool,
    pub auto_redeem_on_win: bool,
    pub scheduler_enabled: bool,
    pub scheduler_tasks: Vec<String>,
    pub start_with_windows: bool,
    pub minimize_to_tray_on_close: bool,
    pub account_profiles: ProfileMap,
}

/// Mathematical model of [`AppSettings`].
pub struct SettingsView {
    pub steam_api_key: Seq<char>,
    pub steam_id: Seq<char>,
    pub steam_session_id: Seq<char>,
    pub steam_login_secure: Seq<char>,
    pub steam_machine_auth: Seq<char>,
    pub steam_credentials_user: Seq<char>,
    pub steam_country_code: Seq<char>,
    pub utility_path: Seq<char>,
    pub saveslot_cli_path: Seq<char>,
    pub idle_game_ids: Seq<u32>,
    pub farm_game_ids: Seq<u32>,
    pub auto_idle_on_start: bool,
    pub card_farming_enabled: bool,
    pub max_idle_games: u32,
    pub steamgifts_cookie: Seq<char>,
    pub indiegala_cookie: Seq<char>,
    pub enable_indiegala: bool,
    pub refresh_delay_minutes: u32,
    pub max_pages: u32,
    pub max_giveaway_end_hours: u32,
    pub indiegala_entry_delay: u32,
    pub indiegala_min_cost: u32,
    pub manual_select_giveaways: bool,
    pub notify_on_win: bool,
    pub auto_redeem_on_win: bool,
    pub scheduler_enabled: bool,
    pub scheduler_tasks: Seq<Seq<char>>,
    pub start_with_windows: bool,
    pub minimize_to_tray_on_close: bool,
    pub account_profiles: Map<Seq<char>, ProfileView>,
}

/// The texts held by a list of strings.
pub open spec fn string_views(v: Seq<String>) -> Seq<Seq<char>> {
    v.map_values(|s: String| s@)
}

/// A fresh copy of a list of strings.
pub fn copy_strings(v: &Vec<String>) -> (r: Vec<String>)
    ensures
        string_views(r@) == string_views(v@),
{
    let mut r: Vec<String> = Vec::new();
    for i in 0..v.len()
        invariant
            r@.len() == i,
            forall|j: int| 0 <= j < i ==> (#[trigger] r@[j])@ == v@[j]@,
    {
        r.push(v[i].clone());
    }
    assert(string_views(r@) =~= string_views(v@));
    r
}

impl View for AppSettings {
    type V = SettingsView;

    open spec fn view(&self) -> SettingsView {
        SettingsView {
            steam_api_key: self.steam_api_key@,
            steam_id: self.steam_id@,
            steam_session_id: self.steam_session_id@,
            steam_login_secure: self.steam_login_secure@,
            steam_machine_auth: self.steam_machine_auth@,
            steam_credentials_user: self.steam_credentials_user@,
            steam_country_code: self.steam_country_code@,
            utility_path: self.utility_path@,
            saveslot_cli_path: self.saveslot_cli_path@,
            idle_game_ids: self.idle_game_ids@,
            farm_game_ids: self.farm_game_ids@,
            auto_idle_on_start: self.auto_idle_on_start,
            card_farming_enabled: self.card_farming_enabled,
            max_idle_games: self.max_idle_games,
            steamgifts_cookie: self.steamgifts_cookie@,
            indiegala_cookie: self.indiegala_cookie@,
            enable_indiegala: self.enable_indiegala,
            refresh_delay_minutes: self.refresh_delay_minutes,
            max_pages: self.max_pages,
            max_giveaway_end_hours: self.max_giveaway_end_hours,
            indiegala_entry_delay: self.indiegala_entry_delay,
            indiegala_min_cost: self.indiegala_min_cost,
            manual_select_giveaways: self.manual_select_giveaways,
            notify_on_win: self.notify_on_win,
            auto_redeem_on_win: self.auto_redeem_on_win,
            scheduler_enabled: self.scheduler_enabled,
            scheduler_tasks: string_views(self.scheduler_tasks@),
            start_with_windows: self.start_with_windows,
            minimize_to_tray_on_close: self.minimize_to_tray_on_close,
            account_profiles: self.account_profiles@,
        }
    }
}

/// The scheduler chain that new settings start with.
pub open spec fn default_scheduler_tasks() -> Seq<Seq<char>> {
    seq!["card-farming"@, "auto-idler"@, "giveaways"@, "redeem"@]
}

/// The settings a first start begins with.
pub open spec fn default_settings_view() -> SettingsView {
    SettingsView {
        steam_api_key: Seq::empty(),
        steam_id: Seq::empty(),
        steam_session_id: Seq::empty(),
        steam_login_secure: Seq::empty(),
        steam_machine_auth: Seq::empty(),
        steam_credentials_user: Seq::empty(),
        steam_country_code: "eu"@,
        utility_path: Seq::empty(),
        saveslot_cli_path: Seq::empty(),
        idle_game_ids: Seq::empty(),
        farm_game_ids: Seq::empty(),
        auto_idle_on_start: false,
        card_farming_enabled: false,
        max_idle_games: 32,
        steamgifts_cookie: Seq::empty(),
        indiegala_cookie: Seq::empty(),
        enable_indiegala: false,
        refresh_delay_minutes: 10,
        max_pages: 5,
        max_giveaway_end_hours: 3,
        indiegala_entry_delay: 5,
        indiegala_min_cost: 0,
        manual_select_giveaways: false,
        notify_on_win: true,
        auto_redeem_on_win: false,
        scheduler_enabled: false,
        scheduler_tasks: default_scheduler_tasks(),
        start_with_windows: false,
        minimize_to_tray_on_close: true,
        account_profiles: Map::empty(),
    }
}

impl Default for AppSettings {
    fn default() -> (r: AppSettings)
        ensures
            r@ == default_settings_view(),
    {
        let mut tasks: Vec<String> = Vec::new();
        tasks.push(owned("card-farming"));
        tasks.push(owned("auto-idler"));
        tasks.push(owned("giveaways"));
        tasks.push(owned("redeem"));
        let r = AppSettings {
            steam_api_key: String::new(),
            steam_id: String::new(),
            steam_session_id: String::new(),
            steam_login_secure: String::new(),
            steam_machine_auth: String::new(),
            steam_credentials_user: String::new(),
            steam_country_code: owned("eu"),
            utility_path: String::new(),
            saveslot_cli_path: String::new(),
            idle_game_ids: Vec::new(),
            farm_game_ids: Vec::new(),
            auto_idle_on_start: false,
            card_farming_enabled: false,
            max_idle_games: 32,
            steamgifts_cookie: String::new(),
            indiegala_cookie: String::new(),
            enable_indiegala: false,
            refresh_delay_minutes: 10,
            max_pages: 5,
            max_giveaway_end_hours: 3,
            indiegala_entry_delay: 5,
            indiegala_min_cost: 0,
            manual_select_giveaways: false,
            notify_on_win: true,
            auto_redeem_on_win: false,
            scheduler_enabled: false,
            scheduler_tasks: tasks,
            start_with_windows: false,
            minimize_to_tray_on_close: true,
            account_profiles: ProfileMap::new(),
        };
        assert(string_views(r.scheduler_tasks@) =~= default_scheduler_tasks());
        r
    }
}

/// Name of the settings file inside the application's data directory.
pub fn settings_path() -> (r: String)
    ensures
        r@ == "settings.json"@,
{
    owned("settings.json")
}

} // verus!
