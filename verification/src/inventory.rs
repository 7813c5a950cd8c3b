//! Steam inventories: reading the inventory pages Steam answers with, the list of games
//! with items, and the cache of that list. The requests themselves are made outside this
//! crate.
use vstd::prelude::*;

use crate::steam::{is_success_status, opt_text, status_line, status_line_text};
use crate::text::{
    chars_of, chars_eq, contains_seq, occurs_at, decimal, decimal_u64, find, first_index_of, has_prefix,
    owned, parse_u32, parse_u32_chars, push_all, starts_with, string_from_chars, sub_chars, trim,
    trim_str,
};

verus! {

/// One item of an inventory.
pub struct InventoryItem {
    pub id: String,
    pub name: String,
    pub marketable: bool,
    pub tradable: bool,
    pub icon_url: String,
    pub market_hash_name: Option<String>,
}

/// A game with items, and in which inventory context they are.
pub struct InventoryGameSummary {
    pub app_id: u32,
    pub context_id: u32,
    pub name: String,
    pub item_count: u32,
}

/// Mathematical model of [`InventoryGameSummary`].
pub struct SummaryView {
    pub app_id: u32,
    pub context_id: u32,
    pub name: Seq<char>,
    pub item_count: u32,
}

impl View for InventoryGameSummary {
    type V = SummaryView;

    open spec fn view(&self) -> SummaryView {
        SummaryView { app_id: self.app_id, context_id: self.context_id, name: self.name@, item_count: self.item_count }
    }
}

pub open spec fn summary_views(v: Seq<InventoryGameSummary>) -> Seq<SummaryView> {
    v.map_values(|s: InventoryGameSummary| s@)
}

/// The context a stored summary without one belongs to.
pub fn default_inventory_context() -> (r: u32)
    ensures
        r == 2,
{
    2
}

/// An asset of an inventory page.
pub struct InventoryAsset {
    pub assetid: String,
    pub classid: String,
    pub instanceid: Option<String>,
}

/// A description of an inventory page.
pub struct InventoryDescription {
    pub classid: String,
    pub instanceid: String,
    pub name: Option<String>,
    pub marketable: Option<u8>,
    pub tradable: Option<u8>,
    pub icon_url: Option<String>,
    pub market_hash_name: Option<String>,
}

/// An inventory page as Steam answers it.
pub struct InventoryPage {
    pub success: Option<u8>,
    pub error: Option<String>,
    pub more_items: Option<u8>,
    pub last_assetid: Option<String>,
    pub total_inventory_count: Option<u32>,
    pub assets: Option<Vec<InventoryAsset>>,
    pub descriptions: Option<Vec<InventoryDescription>>,
}

/// The image URL of an item icon path (trimmed): kept when it is a URL already.
pub open spec fn icon_url_text(icon_path: Seq<char>) -> Seq<char> {
    let path = trim(icon_path);
    if path.len() == 0 {
        Seq::empty()
    } else if has_prefix(path, "http://"@) || has_prefix(path, "https://"@) {
        path
    } else {
        "https://community.cloudflare.steamstatic.com/economy/image/"@ + path + "/96fx96f"@
    }
}

/// The image URL of an item icon.
pub fn inventory_icon_url(icon_path: &str) -> (r: String)
    ensures
        r@ == icon_url_text(icon_path@),
{
    let path = trim_str(icon_path);
    let p = chars_of(path.as_str());
    if p.len() == 0 {
        return String::new();
    }
    let h1 = chars_of("http://");
    let h2 = chars_of("https://");
    if starts_with(p.as_slice(), h1.as_slice()) || starts_with(p.as_slice(), h2.as_slice()) {
        return path;
    }
    let mut v = chars_of("https://community.cloudflare.steamstatic.com/economy/image/");
    push_all(&mut v, p.as_slice());
    let t = chars_of("/96fx96f");
    push_all(&mut v, t.as_slice());
    string_from_chars(v.as_slice())
}

/// A description fits an asset of class `classid` and instance `instance` (`"0"` when the
/// asset names none): same class, and same instance or either instance `"0"`.
pub open spec fn describes(d: InventoryDescription, classid: Seq<char>, instance: Seq<char>) -> bool {
    d.classid@ == classid && (d.instanceid@ == instance || d.instanceid@ == "0"@ || instance == "0"@)
}

pub open spec fn asset_instance(a: InventoryAsset) -> Seq<char> {
    match a.instanceid {
        Some(i) => i@,
        None => "0"@,
    }
}

/// Index of the first description that fits.
pub open spec fn first_fit(ds: Seq<InventoryDescription>, classid: Seq<char>, instance: Seq<char>, k: int) -> bool {
    0 <= k < ds.len() && describes(ds[k], classid, instance) && forall|m: int| 0 <= m < k ==> !describes(ds[m], classid, instance)
}

/// The item an asset stands for, from the first description that fits it.
pub open spec fn item_of(a: InventoryAsset, d: InventoryDescription, item: InventoryItem) -> bool {
    &&& item.id@ == a.assetid@
    &&& item.name@ == match d.name {
        Some(n) => n@,
        None => "Unknown"@,
    }
    &&& item.marketable == (d.marketable == Some(1u8))
    &&& item.tradable == (d.tradable == Some(1u8))
    &&& item.icon_url@ == match d.icon_url {
        Some(u) => icon_url_text(u@),
        None => Seq::<char>::empty(),
    }
    &&& opt_text(item.market_hash_name) == opt_text(d.market_hash_name)
}

fn text_eq(a: &String, b: &str) -> (r: bool)
    ensures
        r == (a@ == b@),
{
    let x = chars_of(a.as_str());
    let y = chars_of(b);
    chars_eq(x.as_slice(), y.as_slice())
}

fn fits(d: &InventoryDescription, classid: &String, instance: &str) -> (r: bool)
    ensures
        r == describes(*d, classid@, instance@),
{
    let i = chars_of(instance);
    let zero = chars_of("0");
    text_eq(&d.classid, classid.as_str()) && (text_eq(&d.instanceid, instance) || text_eq(&d.instanceid, "0")
        || chars_eq(i.as_slice(), zero.as_slice()))
}

/// The item of an asset, described by the first description that fits it; none fits: no
/// item.
pub fn map_asset(asset: &InventoryAsset, descriptions: &Vec<InventoryDescription>) -> (r: Option<InventoryItem>)
    ensures
        match r {
            Some(item) => exists|k: int|
                first_fit(descriptions@, asset.classid@, asset_instance(*asset), k) && item_of(*asset, descriptions@[k], item),
            None => forall|k: int| 0 <= k < descriptions@.len() ==> !describes(descriptions@[k], asset.classid@, asset_instance(*asset)),
        },
        (exists|k: int|
            0 <= k < descriptions@.len() && #[trigger] descriptions@[k].classid@ == asset.classid@
                && descriptions@[k].instanceid@ == asset_instance(*asset)) ==> r is Some,
{
    let instance = match &asset.instanceid {
        Some(i) => i.clone(),
        None => owned("0"),
    };
    for k in 0..descriptions.len()
        invariant
            instance@ == asset_instance(*asset),
            forall|m: int| 0 <= m < k ==> !describes(descriptions@[m], asset.classid@, asset_instance(*asset)),
    {
        let d = &descriptions[k];
        if fits(d, &asset.classid, instance.as_str()) {
            let name = match &d.name {
                Some(n) => n.clone(),
                None => owned("Unknown"),
            };
            let icon_url = match &d.icon_url {
                Some(u) => inventory_icon_url(u.as_str()),
                None => String::new(),
            };
            let item = InventoryItem {
                id: asset.assetid.clone(),
                name,
                marketable: d.marketable == Some(1u8),
                tradable: d.tradable == Some(1u8),
                icon_url,
                market_hash_name: match &d.market_hash_name {
                    Some(m) => Some(m.clone()),
                    None => None,
                },
            };
            assert(first_fit(descriptions@, asset.classid@, asset_instance(*asset), k as int));
            return Some(item);
        }
    }
    None
}

pub open spec fn page_assets(page: InventoryPage) -> Seq<InventoryAsset> {
    match page.assets {
        Some(a) => a@,
        None => Seq::<InventoryAsset>::empty(),
    }
}

pub open spec fn page_descriptions(page: InventoryPage) -> Seq<InventoryDescription> {
    match page.descriptions {
        Some(d) => d@,
        None => Seq::<InventoryDescription>::empty(),
    }
}

/// `items` are the items of the assets that some description fits, in the assets' order,
/// each from the first description that fits it.
pub open spec fn page_items(assets: Seq<InventoryAsset>, descs: Seq<InventoryDescription>, items: Seq<InventoryItem>) -> bool {
    exists|chosen: Seq<int>| #[trigger] chosen_items(assets, descs, items, chosen)
}

/// `chosen` are the indexes of the assets that the items stand for.
pub open spec fn chosen_items(assets: Seq<InventoryAsset>, descs: Seq<InventoryDescription>, items: Seq<InventoryItem>, chosen: Seq<int>) -> bool {
    &&& chosen.len() == items.len()
    &&& forall|j: int, k: int| 0 <= j < k < chosen.len() ==> chosen[j] < chosen[k]
    &&& forall|j: int| 0 <= j < chosen.len() ==> 0 <= #[trigger] chosen[j] < assets.len()
    &&& forall|j: int| #![trigger chosen[j]] 0 <= j < chosen.len() ==> exists|k: int|
        first_fit(descs, assets[chosen[j]].classid@, asset_instance(assets[chosen[j]]), k) && item_of(
            assets[chosen[j]],
            descs[k],
            items[j],
        )
    &&& forall|a: int| #![trigger assets[a]] 0 <= a < assets.len() && !chosen.contains(a) ==> forall|k: int|
        0 <= k < descs.len() ==> !describes(descs[k], assets[a].classid@, asset_instance(assets[a]))
}

/// The items of a page and the cursor of the next page, or why the page is refused.
pub fn read_inventory_page(page: &InventoryPage) -> (r: Result<(Vec<InventoryItem>, Option<String>), String>)
    ensures
        page.success != Some(1u8) ==> (r matches Err(e) && e@ == match page.error {
            Some(x) => x@,
            None => "Inventory is private or unavailable."@,
        }),
        page.success == Some(1u8) ==> (r matches Ok((items, cursor)) && opt_text(cursor) == (if page.more_items
            == Some(1u8) {
            opt_text(page.last_assetid)
        } else {
            None::<Seq<char>>
        }) && page_items(page_assets(*page), page_descriptions(*page), items@)),
{
    if page.success != Some(1u8) {
        return Err(match &page.error {
            Some(e) => e.clone(),
            None => owned("Inventory is private or unavailable."),
        });
    }
    let empty_d: Vec<InventoryDescription> = Vec::new();
    let empty_a: Vec<InventoryAsset> = Vec::new();
    let descs = match &page.descriptions {
        Some(d) => d,
        None => &empty_d,
    };
    let assets = match &page.assets {
        Some(a) => a,
        None => &empty_a,
    };
    assert(descs@ == match page.descriptions {
        Some(d) => d@,
        None => Seq::<InventoryDescription>::empty(),
    });
    assert(assets@ == match page.assets {
        Some(a) => a@,
        None => Seq::<InventoryAsset>::empty(),
    });
    let mut items: Vec<InventoryItem> = Vec::new();
    let ghost mut chosen: Seq<int> = Seq::empty();
    for i in 0..assets.len()
        invariant
            chosen.len() == items@.len(),
            forall|j: int, k: int| 0 <= j < k < chosen.len() ==> chosen[j] < chosen[k],
            forall|j: int| 0 <= j < chosen.len() ==> 0 <= #[trigger] chosen[j] < i,
            forall|j: int| #![trigger chosen[j]] 0 <= j < chosen.len() ==> exists|k: int|
                first_fit(descs@, assets@[chosen[j]].classid@, asset_instance(assets@[chosen[j]]), k) && item_of(
                    assets@[chosen[j]],
                    descs@[k],
                    items@[j],
                ),
            forall|a: int| #![trigger assets@[a]] 0 <= a < i && !chosen.contains(a) ==> forall|k: int|
                0 <= k < descs@.len() ==> !describes(descs@[k], assets@[a].classid@, asset_instance(assets@[a])),
    {
        let ghost before = chosen;
        match map_asset(&assets[i], descs) {
            Some(item) => {
                items.push(item);
                proof {
                    chosen = chosen.push(i as int);
                    assert forall|a: int| #![trigger assets@[a]] 0 <= a < i + 1 && !chosen.contains(a) implies forall|k: int|
                        0 <= k < descs@.len() ==> !describes(descs@[k], assets@[a].classid@, asset_instance(assets@[a])) by {
                        assert(chosen[chosen.len() - 1] == i);
                        if a < i {
                            if before.contains(a) {
                                let m = choose|m: int| 0 <= m < before.len() && before[m] == a;
                                assert(chosen[m] == a);
                            }
                        }
                    }
                    assert forall|j: int| #![trigger chosen[j]] 0 <= j < chosen.len() implies exists|k: int|
                        first_fit(descs@, assets@[chosen[j]].classid@, asset_instance(assets@[chosen[j]]), k) && item_of(
                            assets@[chosen[j]],
                            descs@[k],
                            items@[j],
                        ) by {
                        if j < before.len() {
                            assert(chosen[j] == before[j]);
                        }
                    }
                }
            },
            None => {
                proof {
                    assert forall|a: int| #![trigger assets@[a]] 0 <= a < i + 1 && !chosen.contains(a) implies forall|k: int|
                        0 <= k < descs@.len() ==> !describes(descs@[k], assets@[a].classid@, asset_instance(assets@[a])) by {
                    }
                }
            },
        }
    }
    assert(chosen.len() == items@.len());
    let cursor = if page.more_items == Some(1u8) {
        match &page.last_assetid {
            Some(c) => Some(c.clone()),
            None => None,
        }
    } else {
        None
    };
    assert(opt_text(cursor) == if page.more_items == Some(1u8) {
        opt_text(page.last_assetid)
    } else {
        None::<Seq<char>>
    });
    assert(forall|j: int, k: int| 0 <= j < k < chosen.len() ==> chosen[j] < chosen[k]);
    assert(forall|j: int| 0 <= j < chosen.len() ==> 0 <= #[trigger] chosen[j] < assets@.len());
    assert(forall|j: int| #![trigger chosen[j]] 0 <= j < chosen.len() ==> exists|k: int|
        first_fit(descs@, assets@[chosen[j]].classid@, asset_instance(assets@[chosen[j]]), k) && item_of(
            assets@[chosen[j]],
            descs@[k],
            items@[j],
        ));
    assert(forall|a: int| #![trigger assets@[a]] 0 <= a < assets@.len() && !chosen.contains(a) ==> forall|k: int|
        0 <= k < descs@.len() ==> !describes(descs@[k], assets@[a].classid@, asset_instance(assets@[a])));
    assert(chosen_items(assets@, descs@, items@, chosen));
    Ok((items, cursor))
}

/// URL of an inventory page of `count` items, after `cursor` when given.
pub open spec fn inventory_url_text(steam_id: Seq<char>, app_id: u32, context_id: u32, count: u32, cursor: Option<Seq<char>>) -> Seq<char> {
    "https://steamcommunity.com/inventory/"@ + steam_id + "/"@ + decimal(app_id as nat) + "/"@ + decimal(
        context_id as nat,
    ) + "?l=english&count="@ + decimal(count as nat) + match cursor {
        Some(c) => "&start_assetid="@ + c,
        None => Seq::<char>::empty(),
    }
}

/// URL of an inventory page.
pub fn inventory_url(steam_id: &str, app_id: u32, context_id: u32, count: u32, cursor: Option<&str>) -> (r: String)
    ensures
        r@ == inventory_url_text(steam_id@, app_id, context_id, count, match cursor {
            Some(c) => Some(c@),
            None => None,
        }),
{
    let mut v = chars_of("https://steamcommunity.com/inventory/");
    let s = chars_of(steam_id);
    push_all(&mut v, s.as_slice());
    let sl = chars_of("/");
    push_all(&mut v, sl.as_slice());
    let a = decimal_u64(app_id as u64);
    push_all(&mut v, a.as_slice());
    push_all(&mut v, sl.as_slice());
    let c = decimal_u64(context_id as u64);
    push_all(&mut v, c.as_slice());
    let q = chars_of("?l=english&count=");
    push_all(&mut v, q.as_slice());
    let n = decimal_u64(count as u64);
    push_all(&mut v, n.as_slice());
    match cursor {
        Some(cur) => {
            let t = chars_of("&start_assetid=");
            push_all(&mut v, t.as_slice());
            let cc = chars_of(cur);
            push_all(&mut v, cc.as_slice());
        },
        None => {
            assert(v@ + Seq::<char>::empty() =~= v@);
        },
    }
    string_from_chars(v.as_slice())
}

/// URL of the inventory page that lists the games with items.
pub fn inventory_games_url(steam_id: &str) -> (r: String)
    ensures
        r@ == "https://steamcommunity.com/profiles/"@ + steam_id@ + "/inventory/?l=english"@,
{
    let mut v = chars_of("https://steamcommunity.com/profiles/");
    let s = chars_of(steam_id);
    push_all(&mut v, s.as_slice());
    let t = chars_of("/inventory/?l=english");
    push_all(&mut v, t.as_slice());
    string_from_chars(v.as_slice())
}

/// An inventory is only asked for an account.
pub fn inventory_precheck(steam_id: &str) -> (r: Result<(), String>)
    ensures
        r is Ok <==> steam_id@.len() > 0,
        r matches Err(e) ==> e@ == "No Steam account detected."@,
{
    if steam_id.is_empty() {
        return Err(owned("No Steam account detected."));
    }
    Ok(())
}

/// What the status of an inventory answer means; `label` names the request in the error.
pub open spec fn inventory_status_result(status: u16, label: Seq<char>) -> Result<(), Seq<char>> {
    if status == 403 {
        Err("Inventory blocked (HTTP 403). Set credentials in Settings or make inventory public."@)
    } else if !is_success_status(status) {
        Err(label + " HTTP "@ + status_line_text(status))
    } else {
        Ok(())
    }
}

/// Refuses an inventory answer whose status is not a success; 403 means a private
/// inventory or missing credentials. `label` is `Inventory` or `Inventory page`.
pub fn inventory_status_check(status: u16, label: &str) -> (r: Result<(), String>)
    ensures
        match (r, inventory_status_result(status, label@)) {
            (Ok(()), Ok(())) => true,
            (Err(a), Err(b)) => a@ == b,
            _ => false,
        },
{
    if status == 403 {
        return Err(owned("Inventory blocked (HTTP 403). Set credentials in Settings or make inventory public."));
    }
    if status < 200 || status > 299 {
        let mut v = chars_of(label);
        let h = chars_of(" HTTP ");
        push_all(&mut v, h.as_slice());
        let l = status_line(status);
        let lc = chars_of(l.as_str());
        push_all(&mut v, lc.as_slice());
        return Err(string_from_chars(v.as_slice()));
    }
    Ok(())
}

/// The item count an inventory answer reports: zero for a failed request or page.
pub fn inventory_count(status_ok: bool, success: Option<u8>, total: Option<u32>) -> (r: u32)
    ensures
        r == if status_ok && success == Some(1u8) {
            match total {
                Some(t) => t,
                None => 0,
            }
        } else {
            0
        },
{
    if !status_ok || success != Some(1u8) {
        return 0;
    }
    match total {
        Some(t) => t,
        None => 0,
    }
}

/// The text that precedes the app context data in the inventory page.
pub open spec fn context_prefix() -> Seq<char> {
    "var g_rgAppContextData = "@
}

/// Opening minus closing braces of `s`.
pub open spec fn balance(s: Seq<char>) -> int
    decreases s.len(),
{
    if s.len() == 0 {
        0
    } else {
        balance(s.drop_last()) + if s.last() == '{' {
            1int
        } else if s.last() == '}' {
            -1int
        } else {
            0int
        }
    }
}

/// `i` is the first closing brace of `s` after which the braces balance.
pub open spec fn first_close(s: Seq<char>, i: int) -> bool {
    &&& 0 <= i < s.len()
    &&& s[i] == '}'
    &&& balance(s.take(i + 1)) == 0
    &&& forall|j: int| 0 <= j < i ==> !(s[j] == '}' && balance(s.take(j + 1)) == 0)
}

/// The JSON object that follows the app context prefix: from the first `{` after the prefix
/// to the brace that closes it.
pub open spec fn app_context_json(html: Seq<char>) -> Option<Seq<char>> {
    if !contains_seq(html, context_prefix()) {
        None
    } else {
        let p = choose|p: int| first_index_of(html, context_prefix(), p);
        let rest = html.skip(p + context_prefix().len());
        if !contains_seq(rest, seq!['{']) {
            None
        } else {
            let b = choose|b: int| first_index_of(rest, seq!['{'], b);
            let slice = rest.skip(b);
            if exists|i: int| first_close(slice, i) {
                Some(slice.take((choose|i: int| first_close(slice, i)) + 1))
            } else {
                None
            }
        }
    }
}

proof fn lemma_first_index_unique(s: Seq<char>, t: Seq<char>, a: int, b: int)
    requires
        first_index_of(s, t, a),
        first_index_of(s, t, b),
    ensures
        a == b,
{
}

proof fn lemma_first_close_unique(s: Seq<char>, a: int, b: int)
    requires
        first_close(s, a),
        first_close(s, b),
    ensures
        a == b,
{
}

/// The app context data object of an inventory page.
pub fn extract_app_context_json(html: &str) -> (r: Option<String>)
    ensures
        opt_text(r) == app_context_json(html@),
{
    let h = chars_of(html);
    let prefix = chars_of("var g_rgAppContextData = ");
    proof {
        reveal_strlit("var g_rgAppContextData = ");
    }
    let p = match find(h.as_slice(), prefix.as_slice()) {
        Some(p) => p,
        None => {
            return None;
        },
    };
    proof {
        let pp = choose|pp: int| first_index_of(h@, context_prefix(), pp);
        lemma_first_index_unique(h@, context_prefix(), pp, p as int);
    }
    assert(occurs_at(h@, prefix@, p as int));
    assert(p + prefix@.len() <= h@.len());
    assert(h@.len() == h.len());
    let start = p + prefix.len();
    let rest = sub_chars(h.as_slice(), start, h.len());
    assert(rest@ =~= h@.skip(start as int));
    let brace = chars_of("{");
    proof {
        reveal_strlit("{");
        assert(brace@ =~= seq!['{']);
    }
    let b = match find(rest.as_slice(), brace.as_slice()) {
        Some(b) => b,
        None => {
            return None;
        },
    };
    proof {
        let bb = choose|bb: int| first_index_of(rest@, seq!['{'], bb);
        lemma_first_index_unique(rest@, seq!['{'], bb, b as int);
    }
    let slice = sub_chars(rest.as_slice(), b, rest.len());
    assert(slice@ =~= rest@.skip(b as int));
    assert(slice@[0] == '{') by {
        assert(rest@.subrange(b as int, b + 1) == seq!['{']);
        assert(rest@.subrange(b as int, b + 1)[0] == rest@[b as int]);
    }
    let mut depth: usize = 0;
    let mut i: usize = 0;
    let mut close: Option<usize> = None;
    assert(slice@.take(0) =~= Seq::<char>::empty());
    while i < slice.len()
        invariant
            slice@.len() > 0,
            slice@[0] == '{',
            i <= slice@.len(),
            close is None ==> depth == balance(slice@.take(i as int)),
            close is None ==> (i > 0 ==> depth >= 1),
            close is None ==> depth <= i,
            close is None ==> forall|j: int| 0 <= j < i ==> !(slice@[j] == '}' && balance(slice@.take(j + 1)) == 0),
            close matches Some(c) ==> first_close(slice@, c as int),
        decreases slice@.len() - i,
    {
        if close.is_none() {
            let ch = slice[i];
            assert(slice@.take(i + 1).drop_last() =~= slice@.take(i as int));
            if ch == '{' {
                depth = depth + 1;
            } else if ch == '}' {
                depth = depth - 1;
                if depth == 0 {
                    close = Some(i);
                }
            }
        }
        i = i + 1;
    }
    match close {
        Some(c) => {
            let out = sub_chars(slice.as_slice(), 0, c + 1);
            proof {
                assert(out@ =~= slice@.take(c + 1));
                let cc = choose|cc: int| first_close(slice@, cc);
                lemma_first_close_unique(slice@, cc, c as int);
            }
            Some(string_from_chars(out.as_slice()))
        },
        None => {
            proof {
                if exists|c: int| first_close(slice@, c) {
                    let c = choose|c: int| first_close(slice@, c);
                    assert(!(slice@[c] == '}' && balance(slice@.take(c + 1)) == 0));
                }
            }
            None
        },
    }
}

/// One inventory context of a game, as the inventory page lists it.
pub struct ContextEntry {
    pub appid: u32,
    pub name: String,
    pub context_id: String,
    pub asset_count: u32,
}

/// `a` is listed before `b`: more items first.
pub open spec fn summary_before(a: SummaryView, b: SummaryView) -> bool {
    a.item_count > b.item_count
}

/// First position at which `a` goes before the summary there (the length when none).
pub open spec fn summary_position(s: Seq<SummaryView>, a: SummaryView) -> int
    decreases s.len(),
{
    if s.len() == 0 {
        0
    } else if summary_before(a, s[0]) {
        0
    } else {
        1 + summary_position(s.drop_first(), a)
    }
}

/// Stable sort by item count, most items first.
pub open spec fn sort_summaries(s: Seq<SummaryView>) -> Seq<SummaryView>
    decreases s.len(),
{
    if s.len() == 0 {
        Seq::empty()
    } else {
        let sorted = sort_summaries(s.drop_last());
        sorted.insert(summary_position(sorted, s.last()), s.last())
    }
}

impl InventoryGameSummary {
    /// A copy with the same contents.
    pub fn duplicate(&self) -> (r: InventoryGameSummary)
        ensures
            r@ == self@,
    {
        InventoryGameSummary { app_id: self.app_id, context_id: self.context_id, name: self.name.clone(), item_count: self.item_count }
    }
}

/// Sorts summaries by item count, most first; equal counts keep their order.
pub fn sort_by_item_count(v: &Vec<InventoryGameSummary>) -> (r: Vec<InventoryGameSummary>)
    ensures
        summary_views(r@) == sort_summaries(summary_views(v@)),
{
    let ghost input = summary_views(v@);
    let mut sorted: Vec<InventoryGameSummary> = Vec::new();
    let mut k: usize = 0;
    assert(input.take(0) =~= Seq::<SummaryView>::empty());
    while k < v.len()
        invariant
            k <= v@.len(),
            input == summary_views(v@),
            summary_views(sorted@) == sort_summaries(input.take(k as int)),
        decreases v@.len() - k,
    {
        let a = v[k].duplicate();
        let ghost sv = summary_views(sorted@);
        let mut p: usize = 0;
        assert(sv.subrange(0, sv.len() as int) == sv);
        while p < sorted.len() && !(a.item_count > sorted[p].item_count)
            invariant
                p <= sorted@.len(),
                sv == summary_views(sorted@),
                summary_position(sv, a@) == p + summary_position(sv.subrange(p as int, sv.len() as int), a@),
            decreases sorted@.len() - p,
        {
            proof {
                let rest = sv.subrange(p as int, sv.len() as int);
                assert(rest[0] == sv[p as int]);
                assert(rest.drop_first() == sv.subrange(p + 1, sv.len() as int));
            }
            p = p + 1;
        }
        proof {
            let rest = sv.subrange(p as int, sv.len() as int);
            if p < sorted@.len() {
                assert(rest[0] == sv[p as int]);
            }
            assert(input.take(k + 1).drop_last() == input.take(k as int));
            assert(input.take(k + 1).last() == a@);
        }
        sorted.insert(p, a);
        assert(summary_views(sorted@) =~= sv.insert(p as int, a@));
        k = k + 1;
    }
    assert(input.take(v@.len() as int) == input);
    sorted
}

/// The summaries of an inventory page's contexts: those with items, the context id read as
/// a number (2 when it is none).
pub open spec fn context_summary(e: ContextEntry) -> SummaryView {
    SummaryView {
        app_id: e.appid,
        context_id: match parse_u32(e.context_id@) {
            Some(c) => c,
            None => 2,
        },
        name: e.name@,
        item_count: e.asset_count,
    }
}

pub open spec fn context_summaries(es: Seq<ContextEntry>) -> Seq<SummaryView>
    decreases es.len(),
{
    if es.len() == 0 {
        Seq::empty()
    } else if es.last().asset_count == 0 {
        context_summaries(es.drop_last())
    } else {
        context_summaries(es.drop_last()).push(context_summary(es.last()))
    }
}

/// The games with items of an inventory page's contexts, most items first; none is an error.
pub fn summaries_from_contexts(entries: &Vec<ContextEntry>) -> (r: Result<Vec<InventoryGameSummary>, String>)
    ensures
        context_summaries(entries@).len() == 0 ==> (r matches Err(e) && e@ == "No inventory found on this account."@),
        context_summaries(entries@).len() > 0 ==> (r matches Ok(v) && summary_views(v@) == sort_summaries(
            context_summaries(entries@),
        )),
{
    let mut out: Vec<InventoryGameSummary> = Vec::new();
    for i in 0..entries.len()
        invariant
            summary_views(out@) == context_summaries(entries@.take(i as int)),
    {
        assert(entries@.take(i + 1).drop_last() =~= entries@.take(i as int));
        let e = &entries[i];
        if e.asset_count != 0 {
            let cid = chars_of(e.context_id.as_str());
            let context_id = match parse_u32_chars(cid.as_slice()) {
                Some(c) => c,
                None => 2,
            };
            let ghost ob = summary_views(out@);
            out.push(InventoryGameSummary { app_id: e.appid, context_id, name: e.name.clone(), item_count: e.asset_count });
            assert(summary_views(out@) =~= ob.push(context_summary(*e)));
        }
    }
    assert(entries@.take(entries.len() as int) =~= entries@);
    if out.len() == 0 {
        return Err(owned("No inventory found on this account."));
    }
    Ok(sort_by_item_count(&out))
}

/// The summaries of the slower way: the Steam inventory (context 6) when it has items,
/// then every other game (context 2) with items.
pub open spec fn fallback_list(steam_count: u32, counts: Seq<(u32, Seq<char>, u32)>) -> Seq<SummaryView>
    decreases counts.len(),
{
    if counts.len() == 0 {
        if steam_count > 0 {
            seq![SummaryView { app_id: 753, context_id: 6, name: "Steam"@, item_count: steam_count }]
        } else {
            Seq::empty()
        }
    } else {
        let rest = fallback_list(steam_count, counts.drop_last());
        let (id, name, count) = counts.last();
        if id == 753 || count == 0 {
            rest
        } else {
            rest.push(SummaryView { app_id: id, context_id: 2, name: name, item_count: count })
        }
    }
}

pub open spec fn count_views(v: Seq<(u32, String, u32)>) -> Seq<(u32, Seq<char>, u32)> {
    v.map_values(|c: (u32, String, u32)| (c.0, c.1@, c.2))
}

/// The games with items found one by one: `steam_count` items in the Steam inventory and,
/// per game, its id, name and item count. Most items first; none is an error.
pub fn fallback_summaries(steam_count: u32, counts: &Vec<(u32, String, u32)>) -> (r: Result<Vec<InventoryGameSummary>, String>)
    ensures
        fallback_list(steam_count, count_views(counts@)).len() == 0 ==> (r matches Err(e) && e@
            == "No inventory found. Make inventory public or add credentials in Settings."@),
        fallback_list(steam_count, count_views(counts@)).len() > 0 ==> (r matches Ok(v) && summary_views(v@)
            == sort_summaries(fallback_list(steam_count, count_views(counts@)))),
{
    let ghost cv = count_views(counts@);
    let mut out: Vec<InventoryGameSummary> = Vec::new();
    if steam_count > 0 {
        out.push(InventoryGameSummary { app_id: 753, context_id: 6, name: owned("Steam"), item_count: steam_count });
    }
    assert(cv.take(0) =~= Seq::<(u32, Seq<char>, u32)>::empty());
    assert(summary_views(out@) =~= fallback_list(steam_count, cv.take(0)));
    for i in 0..counts.len()
        invariant
            cv == count_views(counts@),
            summary_views(out@) == fallback_list(steam_count, cv.take(i as int)),
    {
        assert(cv.take(i + 1).drop_last() =~= cv.take(i as int));
        let (id, count) = (counts[i].0, counts[i].2);
        if id != 753 && count != 0 {
            let ghost ob = summary_views(out@);
            out.push(InventoryGameSummary { app_id: id, context_id: 2, name: counts[i].1.clone(), item_count: count });
            assert(summary_views(out@) =~= ob.push(SummaryView { app_id: id, context_id: 2, name: counts@[i as int].1@, item_count: count }));
        }
    }
    assert(cv.take(counts.len() as int) =~= cv);
    if out.len() == 0 {
        return Err(owned("No inventory found. Make inventory public or add credentials in Settings."));
    }
    Ok(sort_by_item_count(&out))
}

/// How long the list of games with items is kept: six hours.
pub const INDEX_TTL_SECS: u64 = 21600;

/// Whether a stored list (of `cached_steam_id`, fetched at `fetched_at`) is used for
/// `steam_id` at Unix second `now`.
pub fn index_cache_fresh(cached_steam_id: &str, fetched_at: u64, steam_id: &str, now: u64) -> (b: bool)
    ensures
        b == (cached_steam_id@ == steam_id@ && (if now >= fetched_at {
            now - fetched_at
        } else {
            0
        }) < INDEX_TTL_SECS),
{
    let a = chars_of(cached_steam_id);
    let c = chars_of(steam_id);
    chars_eq(a.as_slice(), c.as_slice()) && now.saturating_sub(fetched_at) < INDEX_TTL_SECS
}

/// File of the stored list of an account, in the data directory.
pub fn index_cache_file(steam_id: &str) -> (r: String)
    ensures
        r@ == "inventory_index_"@ + steam_id@ + ".json"@,
{
    let mut v = chars_of("inventory_index_");
    let s = chars_of(steam_id);
    push_all(&mut v, s.as_slice());
    let t = chars_of(".json");
    push_all(&mut v, t.as_slice());
    string_from_chars(v.as_slice())
}

proof fn lemma_summary_position(s: Seq<SummaryView>, a: SummaryView)
    ensures
        0 <= summary_position(s, a) <= s.len(),
        forall|k: int| 0 <= k < summary_position(s, a) ==> !summary_before(a, #[trigger] s[k]),
        summary_position(s, a) < s.len() ==> summary_before(a, s[summary_position(s, a)]),
    decreases s.len(),
{
    if s.len() > 0 && !summary_before(a, s[0]) {
        lemma_summary_position(s.drop_first(), a);
        assert forall|k: int| 0 <= k < summary_position(s, a) implies !summary_before(a, #[trigger] s[k]) by {
            if k > 0 {
                assert(s[k] == s.drop_first()[k - 1]);
            }
        }
    }
}

/// The games with items are listed with the most items first, and sorting keeps every
/// summary (as a multiset).
pub proof fn law_summaries_sorted(s: Seq<SummaryView>)
    ensures
        forall|i: int, j: int| 0 <= i < j < sort_summaries(s).len() ==> sort_summaries(s)[i].item_count >= sort_summaries(s)[j].item_count,
        sort_summaries(s).to_multiset() == s.to_multiset(),
        sort_summaries(s).len() == s.len(),
    decreases s.len(),
{
    broadcast use vstd::seq_lib::to_multiset_insert, vstd::seq_lib::to_multiset_build;

    if s.len() > 0 {
        let sorted = sort_summaries(s.drop_last());
        law_summaries_sorted(s.drop_last());
        let a = s.last();
        let p = summary_position(sorted, a);
        lemma_summary_position(sorted, a);
        let r = sorted.insert(p, a);
        assert(s.drop_last().push(a) == s);
        assert(r.to_multiset() == sorted.to_multiset().insert(a));
        assert(s.drop_last().push(a).to_multiset() == s.drop_last().to_multiset().insert(a));
        assert forall|i: int, j: int| 0 <= i < j < r.len() implies r[i].item_count >= r[j].item_count by {
            if j < p {
                assert(r[i] == sorted[i] && r[j] == sorted[j]);
            } else if j == p {
                assert(r[i] == sorted[i]);
            } else if i == p {
                assert(r[j] == sorted[j - 1]);
                if j - 1 > p {
                    assert(sorted[p].item_count >= sorted[j - 1].item_count);
                }
            } else if i < p {
                assert(r[i] == sorted[i] && r[j] == sorted[j - 1]);
            } else {
                assert(r[i] == sorted[i - 1] && r[j] == sorted[j - 1]);
            }
        }
    } else {
        assert(s =~= Seq::<SummaryView>::empty());
    }
}

proof fn lemma_first_fit_exists(ds: Seq<InventoryDescription>, classid: Seq<char>, instance: Seq<char>, k: int)
    requires
        0 <= k < ds.len(),
        describes(ds[k], classid, instance),
    ensures
        exists|m: int| first_fit(ds, classid, instance, m),
    decreases k,
{
    if exists|m: int| 0 <= m < k && describes(ds[m], classid, instance) {
        let m = choose|m: int| 0 <= m < k && describes(ds[m], classid, instance);
        lemma_first_fit_exists(ds, classid, instance, m);
    } else {
        assert(first_fit(ds, classid, instance, k));
    }
}

/// An asset is described by a description of its class that has its own instance id, or
/// instance `0`, or by any description of its class when it has no instance id (or
/// instance `0`); a description of another class never describes it. So an asset with
/// such a description among a page's descriptions has one that fits first, and
/// [`map_asset`] gives it an item.
pub proof fn law_own_description_fits(asset: InventoryAsset, ds: Seq<InventoryDescription>, k: int)
    requires
        0 <= k < ds.len(),
    ensures
        ds[k].classid@ != asset.classid@ ==> !describes(ds[k], asset.classid@, asset_instance(asset)),
        ds[k].classid@ == asset.classid@ && (ds[k].instanceid@ == asset_instance(asset) || ds[k].instanceid@ == "0"@
            || asset.instanceid is None || asset_instance(asset) == "0"@) ==> describes(ds[k], asset.classid@, asset_instance(asset))
            && exists|m: int| first_fit(ds, asset.classid@, asset_instance(asset), m),
{
    if ds[k].classid@ == asset.classid@ && (ds[k].instanceid@ == asset_instance(asset) || ds[k].instanceid@ == "0"@
        || asset.instanceid is None || asset_instance(asset) == "0"@) {
        lemma_first_fit_exists(ds, asset.classid@, asset_instance(asset), k);
    }
}

} // verus!
