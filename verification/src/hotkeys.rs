use vstd::prelude::*;
use std::collections::HashMap;
use crate::table::{entries_to_map, keys_distinct, lemma_entries_to_map, lemma_entries_to_map_update};
use crate::text::{ascii_upper_seq, chars_of, append_chars, find, string_from_chars, is_blank, str_is_blank};

verus! {

broadcast use vstd::std_specs::hash::group_hash_axioms;

/// A pad's hotkey as the front end sends it.
pub struct HotkeyBinding<V> {
    pub hotkey: String,
    pub clip_id: String,
    pub volume: V,
}

/// What a registered hotkey plays.
pub struct HotkeyTarget<V> {
    pub clip_id: String,
    pub volume: V,
}

/// Whether a binding is left out: its hotkey or its clip id is blank.
pub open spec fn is_ignored_binding<V>(b: HotkeyBinding<V>) -> bool {
    is_blank(b.hotkey@) || is_blank(b.clip_id@)
}

/// The hotkey strings of the bindings that count, each mapped to the target of the
/// last such binding with that hotkey.
pub open spec fn bindings_map<V>(bindings: Seq<HotkeyBinding<V>>) -> Map<Seq<char>, HotkeyTarget<V>>
    decreases bindings.len(),
{
    if bindings.len() == 0 {
        Map::empty()
    } else {
        let rest = bindings_map(bindings.drop_last());
        let b = bindings.last();
        if is_ignored_binding(b) {
            rest
        } else {
            rest.insert(b.hotkey@, HotkeyTarget { clip_id: b.clip_id, volume: b.volume })
        }
    }
}

/// The bindings that count, one entry per hotkey string: a hotkey bound twice plays
/// what its last binding names.
pub fn unique_bindings<V>(bindings: Vec<HotkeyBinding<V>>) -> (r: Vec<(String, HotkeyTarget<V>)>)
    ensures
        keys_distinct(r@),
        entries_to_map(r@) == bindings_map(bindings@),
{
    let ghost all = bindings@;
    let n = bindings.len();
    assert(all.len() == n);
    let mut bindings = bindings;
    let mut r: Vec<(String, HotkeyTarget<V>)> = Vec::new();
    let mut taken: usize = 0;
    while bindings.len() > 0
        invariant
            taken + bindings@.len() == all.len(),
            all.len() <= usize::MAX,
            bindings@ == all.skip(taken as int),
            keys_distinct(r@),
            entries_to_map(r@) == bindings_map(all.take(taken as int)),
        decreases bindings@.len(),
    {
        let b = bindings.remove(0);
        let ghost prefix = all.take(taken as int);
        assert(b == all[taken as int]);
        assert(all.take(taken + 1 as int).drop_last() =~= prefix);
        assert(bindings@ =~= all.skip(taken + 1 as int));
        taken = taken + 1;
        if str_is_blank(b.hotkey.as_str()) || str_is_blank(b.clip_id.as_str()) {
            continue;
        }
        let mut found: Option<usize> = None;
        let mut i: usize = 0;
        while i < r.len() && found.is_none()
            invariant
                i <= r@.len(),
                found matches Some(k) ==> k < r@.len() && r@[k as int].0@ == b.hotkey@,
                found is None ==> forall|j: int| 0 <= j < i ==> r@[j].0@ != b.hotkey@,
            decreases r@.len() - i,
        {
            if r[i].0 == b.hotkey {
                found = Some(i);
            }
            i = i + 1;
        }
        let ghost before = r@;
        let HotkeyBinding { hotkey, clip_id, volume } = b;
        let entry = (hotkey, HotkeyTarget { clip_id, volume });
        match found {
            Some(k) => {
                proof {
                    lemma_entries_to_map_update(before, k as int, entry);
                }
                r.set(k, entry);
            },
            None => {
                r.push(entry);
                assert(r@.drop_last() =~= before);
                assert(keys_distinct(r@)) by {
                    assert forall|x: int, y: int| 0 <= x < y < r@.len() implies r@[x].0@ != r@[y].0@ by {
                        if y == r@.len() - 1 {
                            assert(r@[x] == before[x]);
                        } else {
                            assert(r@[x] == before[x]);
                            assert(r@[y] == before[y]);
                        }
                    }
                }
            },
        }
    }
    assert(all.take(all.len() as int) =~= all);
    r
}

/// The message when a hotkey string does not parse.
pub open spec fn hotkey_error_message(hotkey: Seq<char>, reason: Seq<char>) -> Seq<char> {
    "Could not register hotkey '"@ + hotkey + "': "@ + reason
}

/// The outcome of registering `entries` when parsing their hotkeys gave `parsed`:
/// the first hotkey that did not parse is reported; else each shortcut id maps to
/// its target, a later entry winning over an earlier one with the same id.
pub open spec fn hotkey_map_outcome<V>(
    entries: Seq<(String, HotkeyTarget<V>)>,
    parsed: Seq<Result<u32, Seq<char>>>,
) -> Result<Map<u32, HotkeyTarget<V>>, Seq<char>>
    decreases entries.len(),
{
    if entries.len() == 0 || parsed.len() < entries.len() {
        Ok(Map::empty())
    } else {
        let n = entries.len() - 1;
        match hotkey_map_outcome(entries.drop_last(), parsed.take(n)) {
            Err(e) => Err(e),
            Ok(m) => match parsed[n] {
                Err(reason) => Err(hotkey_error_message(entries[n].0@, reason)),
                Ok(id) => Ok(m.insert(id, entries[n].1)),
            },
        }
    }
}

/// The view of a parse result.
pub open spec fn parse_view(r: Result<u32, String>) -> Result<u32, Seq<char>> {
    match r {
        Ok(id) => Ok(id),
        Err(e) => Err(e@),
    }
}

/// The view of the outcome of building the hotkey map.
pub open spec fn map_outcome_view<V>(r: Result<(Vec<String>, HashMap<u32, HotkeyTarget<V>>), String>) -> Result<
    Map<u32, HotkeyTarget<V>>,
    Seq<char>,
> {
    match r {
        Ok((_, m)) => Ok(m@),
        Err(e) => Err(e@),
    }
}

/// Whether a hotkey string may hold one of the `CmdOrCtrl` spellings, which the
/// shortcut parser reads as Super on macOS and as Control elsewhere: it holds a
/// character outside ASCII, or, in ASCII upper case, `CMDOR` or `COMMANDOR`.
pub open spec fn has_cmd_or_ctrl_alias(hotkey: Seq<char>) -> bool {
    ||| exists|i: int| 0 <= i < hotkey.len() && (hotkey[i] as u32) >= 128
    ||| find(ascii_upper_seq(hotkey), "CMDOR"@) is Some
    ||| find(ascii_upper_seq(hotkey), "COMMANDOR"@) is Some
}

/// What the shortcut parser of `global-hotkey` makes of a hotkey string when it
/// reads the `CmdOrCtrl` spellings as Super (`cmd_or_ctrl_is_super`) or as Control:
/// the shortcut's id, or the parse error's message.
pub uninterp spec fn hotkey_parse(hotkey: Seq<char>, cmd_or_ctrl_is_super: bool) -> Result<u32, Seq<char>>;

/// Whether `r` is what parsing `hotkey` may give on some platform: the parse with
/// `CmdOrCtrl` read as Control or as Super, and, for a string without that
/// spelling, the one parse every platform agrees on.
pub open spec fn is_hotkey_reading(hotkey: Seq<char>, r: Result<u32, Seq<char>>) -> bool {
    &&& (r == hotkey_parse(hotkey, false) || r == hotkey_parse(hotkey, true))
    &&& (!has_cmd_or_ctrl_alias(hotkey) ==> r == hotkey_parse(hotkey, false))
}

/// Parses a hotkey string such as `"Ctrl+Shift+A"` with the `global-hotkey` crate
/// (`HotKey::from_str`), and gives the parsed shortcut's id (`HotKey::id`) or the
/// parse error's message. The contract names the result as the parse with the
/// `CmdOrCtrl` spellings read as Super (as on macOS) or as Control (elsewhere);
/// for a string without such a spelling the two readings are one. Which reading
/// applies is the build's target platform, which is left unsaid.
#[verifier::external_body]
fn parse_hotkey_id(hotkey: &str) -> (r: Result<u32, String>)
    ensures
        parse_view(r) == hotkey_parse(hotkey@, false) || parse_view(r) == hotkey_parse(hotkey@, true),
        !has_cmd_or_ctrl_alias(hotkey@) ==> parse_view(r) == hotkey_parse(hotkey@, false),
{
    <global_hotkey::hotkey::HotKey as std::str::FromStr>::from_str(hotkey).map(|key| key.id()).map_err(
        |err| err.to_string(),
    )
}

fn hotkey_error(hotkey: &String, reason: &String) -> (r: String)
    ensures
        r@ == hotkey_error_message(hotkey@, reason@),
{
    let mut cs = chars_of("Could not register hotkey '");
    let h = chars_of(hotkey.as_str());
    append_chars(&mut cs, h.as_slice());
    let mid = chars_of("': ");
    append_chars(&mut cs, mid.as_slice());
    let why = chars_of(reason.as_str());
    append_chars(&mut cs, why.as_slice());
    string_from_chars(cs.as_slice())
}

/// The hotkey map for `entries` when parsing their hotkeys gave `parsed`, with the
/// hotkey strings to register, in order; or the message for the first hotkey that
/// did not parse.
pub fn resolve_hotkeys<V>(
    entries: Vec<(String, HotkeyTarget<V>)>,
    parsed: Vec<Result<u32, String>>,
) -> (r: Result<(Vec<String>, HashMap<u32, HotkeyTarget<V>>), String>)
    requires
        parsed@.len() == entries@.len(),
    ensures
        map_outcome_view(r) == hotkey_map_outcome(entries@, parsed@.map_values(|p: Result<u32, String>| parse_view(p))),
        r matches Ok((keys, _)) ==> keys@.map_values(|s: String| s@) == entries@.map_values(
            |e: (String, HotkeyTarget<V>)| e.0@,
        ),
{
    let ghost all = entries@;
    let ghost views = parsed@.map_values(|p: Result<u32, String>| parse_view(p));
    let total = entries.len();
    assert(all.len() == total);
    let mut pending = entries;
    let mut map: HashMap<u32, HotkeyTarget<V>> = HashMap::new();
    let mut keys: Vec<String> = Vec::new();
    let mut i: usize = 0;
    while pending.len() > 0
        invariant
            all == entries@,
            all.len() <= usize::MAX,
            i + pending@.len() == all.len(),
            parsed@.len() == all.len(),
            views == parsed@.map_values(|p: Result<u32, String>| parse_view(p)),
            pending@ == all.skip(i as int),
            hotkey_map_outcome(all.take(i as int), views.take(i as int)) == Ok::<
                Map<u32, HotkeyTarget<V>>,
                Seq<char>,
            >(map@),
            keys@.map_values(|s: String| s@) == all.take(i as int).map_values(
                |e: (String, HotkeyTarget<V>)| e.0@,
            ),
        decreases pending@.len(),
    {
        let (hotkey, target) = pending.remove(0);
        assert(hotkey == all[i as int].0 && target == all[i as int].1);
        assert(pending@ =~= all.skip(i + 1 as int));
        assert(all.take(i + 1 as int).drop_last() =~= all.take(i as int));
        assert(views.take(i + 1 as int).take(i as int) =~= views.take(i as int));
        assert(views[i as int] == parse_view(parsed@[i as int]));
        match &parsed[i] {
            Ok(id) => {
                let ghost before = map@;
                map.insert(*id, target);
                let ghost kb = keys@;
                keys.push(hotkey);
                assert(keys@ == kb.push(all[i as int].0));
                assert(keys@.map_values(|s: String| s@) =~= kb.map_values(|s: String| s@).push(all[i as int].0@));
                assert(all.take(i + 1 as int).map_values(|e: (String, HotkeyTarget<V>)| e.0@) =~= all.take(
                    i as int,
                ).map_values(|e: (String, HotkeyTarget<V>)| e.0@).push(all[i as int].0@));
            },
            Err(reason) => {
                let msg = hotkey_error(&hotkey, reason);
                proof {
                    assert(views[i as int] == Err::<u32, Seq<char>>(reason@));
                    assert(hotkey_map_outcome(all.take(i + 1 as int), views.take(i + 1 as int)) == Err::<
                        Map<u32, HotkeyTarget<V>>,
                        Seq<char>,
                    >(msg@));
                    lemma_outcome_error_stays(all, views, i as int + 1);
                    assert(hotkey_map_outcome(all, views) == Err::<Map<u32, HotkeyTarget<V>>, Seq<char>>(msg@));
                    assert(map_outcome_view(Err::<(Vec<String>, HashMap<u32, HotkeyTarget<V>>), String>(msg)) == Err::<Map<u32, HotkeyTarget<V>>, Seq<char>>(msg@));
                }
                return Err(msg);
            },
        }
        i = i + 1;
    }
    assert(all.take(all.len() as int) =~= all);
    assert(views.take(all.len() as int) =~= views);
    Ok((keys, map))
}

proof fn lemma_outcome_error_stays<V>(
    entries: Seq<(String, HotkeyTarget<V>)>,
    parsed: Seq<Result<u32, Seq<char>>>,
    n: int,
)
    requires
        0 < n <= entries.len(),
        parsed.len() == entries.len(),
        hotkey_map_outcome(entries.take(n), parsed.take(n)) is Err,
    ensures
        hotkey_map_outcome(entries, parsed) == hotkey_map_outcome(entries.take(n), parsed.take(n)),
    decreases entries.len() - n,
{
    if n < entries.len() {
        let m = n + 1;
        assert(entries.take(m).drop_last() =~= entries.take(n));
        assert(parsed.take(m).take(n) =~= parsed.take(n));
        lemma_outcome_error_stays(entries, parsed, m);
    } else {
        assert(entries.take(n) =~= entries);
        assert(parsed.take(n) =~= parsed);
    }
}

/// Whether each `parsed[i]` is what parsing the hotkey of `entries[i]` may give.
pub open spec fn parsed_from<V>(entries: Seq<(String, HotkeyTarget<V>)>, parsed: Seq<Result<u32, Seq<char>>>) -> bool {
    &&& parsed.len() == entries.len()
    &&& forall|i: int| #![trigger parsed[i]] 0 <= i < entries.len() ==> is_hotkey_reading(entries[i].0@, parsed[i])
}

/// The hotkeys to register for the pads' bindings, with the map from each shortcut's
/// id to what it plays; or the message for the first hotkey that does not parse.
/// Blank bindings are skipped and a hotkey bound twice plays its last binding.
pub fn build_hotkey_map<V>(bindings: Vec<HotkeyBinding<V>>) -> (r: Result<(Vec<String>, HashMap<u32, HotkeyTarget<V>>), String>)
    ensures
        exists|entries: Seq<(String, HotkeyTarget<V>)>, parsed: Seq<Result<u32, Seq<char>>>| {
            &&& keys_distinct(entries)
            &&& entries_to_map(entries) == bindings_map(bindings@)
            &&& parsed_from(entries, parsed)
            &&& map_outcome_view(r) == hotkey_map_outcome(entries, parsed)
            &&& r matches Ok((keys, _)) ==> keys@.map_values(|s: String| s@) == entries.map_values(
                |e: (String, HotkeyTarget<V>)| e.0@,
            )
        },
{
    let entries = unique_bindings(bindings);
    let mut parsed: Vec<Result<u32, String>> = Vec::new();
    let mut i: usize = 0;
    while i < entries.len()
        invariant
            i <= entries@.len(),
            parsed@.len() == i,
            forall|k: int|
                #![trigger parsed@[k]]
                0 <= k < i ==> is_hotkey_reading(entries@[k].0@, parse_view(parsed@[k])),
        decreases entries@.len() - i,
    {
        let p = parse_hotkey_id(entries[i].0.as_str());
        let ghost before = parsed@;
        parsed.push(p);
        assert forall|k: int|
            #![trigger parsed@[k]]
            0 <= k < i + 1 implies is_hotkey_reading(entries@[k].0@, parse_view(parsed@[k])) by {
            if k < i {
                assert(parsed@[k] == before[k]);
            }
        }
        i = i + 1;
    }
    let ghost e = entries@;
    let ghost p = parsed@.map_values(|x: Result<u32, String>| parse_view(x));
    assert(parsed_from(e, p)) by {
        assert forall|k: int| #![trigger p[k]] 0 <= k < e.len() implies is_hotkey_reading(e[k].0@, p[k]) by {
            assert(p[k] == parse_view(parsed@[k]));
        }
    }
    let r = resolve_hotkeys(entries, parsed);
    assert(map_outcome_view(r) == hotkey_map_outcome(e, p));
    r
}

proof fn lemma_outcome_all_parsed<V>(entries: Seq<(String, HotkeyTarget<V>)>, parsed: Seq<Result<u32, Seq<char>>>)
    requires
        parsed.len() == entries.len(),
        forall|i: int| 0 <= i < parsed.len() ==> #[trigger] parsed[i] is Ok,
        forall|i: int, j: int| 0 <= i < j < parsed.len() ==> #[trigger] parsed[i]->Ok_0 != #[trigger] parsed[j]->Ok_0,
    ensures
        hotkey_map_outcome(entries, parsed) is Ok,
        forall|i: int|
            #![trigger parsed[i]]
            0 <= i < entries.len() ==> hotkey_map_outcome(entries, parsed)->Ok_0.contains_key(parsed[i]->Ok_0)
                && hotkey_map_outcome(entries, parsed)->Ok_0[parsed[i]->Ok_0] == entries[i].1,
        forall|id: u32|
            #[trigger] hotkey_map_outcome(entries, parsed)->Ok_0.contains_key(id) ==> exists|i: int|
                0 <= i < entries.len() && parsed[i]->Ok_0 == id,
    decreases entries.len(),
{
    if entries.len() > 0 {
        let n = entries.len() - 1;
        let rest = entries.drop_last();
        let pre = parsed.take(n);
        assert forall|i: int| 0 <= i < pre.len() implies #[trigger] pre[i] is Ok by {
            assert(pre[i] == parsed[i]);
        }
        assert forall|i: int, j: int| 0 <= i < j < pre.len() implies #[trigger] pre[i]->Ok_0 != #[trigger] pre[j]->Ok_0 by {
            assert(pre[i] == parsed[i] && pre[j] == parsed[j]);
        }
        lemma_outcome_all_parsed(rest, pre);
        let m = hotkey_map_outcome(rest, pre)->Ok_0;
        assert(parsed[n] is Ok);
        let id = parsed[n]->Ok_0;
        assert(hotkey_map_outcome(entries, parsed) == Ok::<Map<u32, HotkeyTarget<V>>, Seq<char>>(
            m.insert(id, entries[n].1),
        ));
        assert forall|i: int|
            #![trigger parsed[i]]
            0 <= i < entries.len() implies hotkey_map_outcome(entries, parsed)->Ok_0.contains_key(parsed[i]->Ok_0)
                && hotkey_map_outcome(entries, parsed)->Ok_0[parsed[i]->Ok_0] == entries[i].1 by {
            if i < n {
                assert(pre[i] == parsed[i]);
                assert(rest[i] == entries[i]);
                assert(m.contains_key(pre[i]->Ok_0));
                assert(m[pre[i]->Ok_0] == rest[i].1);
                assert(parsed[i]->Ok_0 != parsed[n]->Ok_0);
            } else {
                assert(i == n);
            }
        }
        assert forall|x: u32| #[trigger] hotkey_map_outcome(entries, parsed)->Ok_0.contains_key(x) implies exists|i: int|
            0 <= i < entries.len() && parsed[i]->Ok_0 == x by {
            if x != id {
                assert(m.contains_key(x));
                let i = choose|i: int| 0 <= i < rest.len() && pre[i]->Ok_0 == x;
                assert(pre[i] == parsed[i]);
            } else {
                assert(parsed[n]->Ok_0 == x);
            }
        }
    }
}

/// When some hotkey to register does not parse, nothing is registered: the outcome
/// is the message for a hotkey that did not parse, with the parser's reason.
pub proof fn lemma_hotkey_map_reports_unparsed<V>(
    entries: Seq<(String, HotkeyTarget<V>)>,
    parsed: Seq<Result<u32, Seq<char>>>,
)
    requires
        parsed.len() == entries.len(),
        exists|i: int| 0 <= i < parsed.len() && #[trigger] parsed[i] is Err,
    ensures
        exists|k: int|
            0 <= k < parsed.len() && #[trigger] parsed[k] is Err && hotkey_map_outcome(entries, parsed) == Err::<
                Map<u32, HotkeyTarget<V>>,
                Seq<char>,
            >(hotkey_error_message(entries[k].0@, parsed[k]->Err_0)),
    decreases entries.len(),
{
    let n = entries.len() - 1;
    let rest = entries.drop_last();
    let pre = parsed.take(n);
    if exists|i: int| 0 <= i < pre.len() && #[trigger] pre[i] is Err {
        lemma_hotkey_map_reports_unparsed(rest, pre);
        let k = choose|k: int|
            0 <= k < pre.len() && #[trigger] pre[k] is Err && hotkey_map_outcome(rest, pre) == Err::<
                Map<u32, HotkeyTarget<V>>,
                Seq<char>,
            >(hotkey_error_message(rest[k].0@, pre[k]->Err_0));
        assert(pre[k] == parsed[k] && rest[k] == entries[k]);
        assert(parsed[k] is Err);
    } else {
        let i = choose|i: int| 0 <= i < parsed.len() && #[trigger] parsed[i] is Err;
        if i < n {
            assert(pre[i] == parsed[i]);
        }
        assert(i == n);
        assert forall|j: int| 0 <= j < pre.len() implies #[trigger] pre[j] is Ok by {
            assert(pre[j] == parsed[j]);
            if pre[j] is Err {
                assert(exists|i: int| 0 <= i < pre.len() && #[trigger] pre[i] is Err);
            }
        }
        lemma_outcome_prefix_ok(rest, pre);
        assert(parsed[n] is Err);
    }
}

proof fn lemma_outcome_prefix_ok<V>(entries: Seq<(String, HotkeyTarget<V>)>, parsed: Seq<Result<u32, Seq<char>>>)
    requires
        parsed.len() == entries.len(),
        forall|i: int| 0 <= i < parsed.len() ==> #[trigger] parsed[i] is Ok,
    ensures
        hotkey_map_outcome(entries, parsed) is Ok,
    decreases entries.len(),
{
    if entries.len() > 0 {
        let n = entries.len() - 1;
        let pre = parsed.take(n);
        assert forall|i: int| 0 <= i < pre.len() implies #[trigger] pre[i] is Ok by {
            assert(pre[i] == parsed[i]);
        }
        lemma_outcome_prefix_ok(entries.drop_last(), pre);
        assert(parsed[n] is Ok);
    }
}

/// When every hotkey to register parses, to shortcut ids that differ from one
/// another, the map sends the id of each kept hotkey to the target of the last
/// binding with that hotkey, and holds no other id; the kept hotkeys are exactly
/// those of the bindings that count.
pub proof fn lemma_hotkey_map_targets<V>(
    bindings: Seq<HotkeyBinding<V>>,
    entries: Seq<(String, HotkeyTarget<V>)>,
    parsed: Seq<Result<u32, Seq<char>>>,
)
    requires
        keys_distinct(entries),
        entries_to_map(entries) == bindings_map(bindings),
        parsed.len() == entries.len(),
        forall|i: int| 0 <= i < parsed.len() ==> #[trigger] parsed[i] is Ok,
        forall|i: int, j: int| 0 <= i < j < parsed.len() ==> #[trigger] parsed[i]->Ok_0 != #[trigger] parsed[j]->Ok_0,
    ensures
        hotkey_map_outcome(entries, parsed) is Ok,
        forall|h: Seq<char>| #[trigger] bindings_map(bindings).contains_key(h) <==> exists|i: int|
            0 <= i < entries.len() && entries[i].0@ == h,
        forall|i: int|
            0 <= i < entries.len() ==> hotkey_map_outcome(entries, parsed)->Ok_0.contains_key(
                #[trigger] parsed[i]->Ok_0,
            ) && hotkey_map_outcome(entries, parsed)->Ok_0[parsed[i]->Ok_0] == bindings_map(bindings)[entries[i].0@],
        forall|id: u32|
            #[trigger] hotkey_map_outcome(entries, parsed)->Ok_0.contains_key(id) ==> exists|i: int|
                0 <= i < entries.len() && parsed[i]->Ok_0 == id,
{
    lemma_outcome_all_parsed(entries, parsed);
    lemma_entries_to_map(entries);
    assert forall|i: int| 0 <= i < entries.len() implies hotkey_map_outcome(entries, parsed)->Ok_0.contains_key(
        #[trigger] parsed[i]->Ok_0,
    ) && hotkey_map_outcome(entries, parsed)->Ok_0[parsed[i]->Ok_0] == bindings_map(bindings)[entries[i].0@] by {
        assert(entries_to_map(entries)[entries[i].0@] == entries[i].1);
    }
}

/// When pads share a hotkey, the last binding for it wins; blank bindings count for
/// nothing: the hotkey of binding `j` plays what binding `j` names when no later
/// binding that counts has the same hotkey.
pub proof fn lemma_last_binding_wins<V>(bindings: Seq<HotkeyBinding<V>>, j: int)
    requires
        0 <= j < bindings.len(),
        !is_ignored_binding(bindings[j]),
        forall|k: int| j < k < bindings.len() ==> is_ignored_binding(#[trigger] bindings[k]) || bindings[k].hotkey@
            != bindings[j].hotkey@,
    ensures
        bindings_map(bindings).contains_key(bindings[j].hotkey@),
        bindings_map(bindings)[bindings[j].hotkey@] == (HotkeyTarget { clip_id: bindings[j].clip_id, volume: bindings[j].volume }),
    decreases bindings.len(),
{
    if j < bindings.len() - 1 {
        let rest = bindings.drop_last();
        assert forall|k: int| j < k < rest.len() implies is_ignored_binding(#[trigger] rest[k]) || rest[k].hotkey@
            != rest[j].hotkey@ by {
            assert(rest[k] == bindings[k]);
        }
        assert(rest[j] == bindings[j]);
        lemma_last_binding_wins(rest, j);
        assert(is_ignored_binding(bindings[bindings.len() - 1]) || bindings[bindings.len() - 1].hotkey@
            != bindings[j].hotkey@);
    }
}

/// Only bindings that count are registered: a hotkey string is registered exactly
/// when some binding with a non-blank hotkey and a non-blank clip id uses it.
pub proof fn lemma_registered_hotkeys<V>(bindings: Seq<HotkeyBinding<V>>, hotkey: Seq<char>)
    ensures
        bindings_map(bindings).contains_key(hotkey) <==> exists|i: int|
            0 <= i < bindings.len() && !is_ignored_binding(#[trigger] bindings[i]) && bindings[i].hotkey@ == hotkey,
    decreases bindings.len(),
{
    if bindings.len() > 0 {
        let rest = bindings.drop_last();
        lemma_registered_hotkeys(rest, hotkey);
        if exists|i: int| 0 <= i < rest.len() && !is_ignored_binding(#[trigger] rest[i]) && rest[i].hotkey@ == hotkey {
            let i = choose|i: int| 0 <= i < rest.len() && !is_ignored_binding(#[trigger] rest[i]) && rest[i].hotkey@ == hotkey;
            assert(bindings[i] == rest[i]);
        }
        if exists|i: int| 0 <= i < bindings.len() && !is_ignored_binding(#[trigger] bindings[i]) && bindings[i].hotkey@ == hotkey {
            let i = choose|i: int| 0 <= i < bindings.len() && !is_ignored_binding(#[trigger] bindings[i]) && bindings[i].hotkey@ == hotkey;
            if i < rest.len() {
                assert(rest[i] == bindings[i]);
            }
        }
    }
}

} // verus!
