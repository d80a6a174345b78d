//! The player database window: marks of players, the filters over stored
//! accounts, and how the marks of an account are written out.
use crate::records::{Account, PlayerFlag};
use crate::text::{
    lemma_ascii_lowercase_idempotent, lemma_ascii_lowercase_shape, lemma_number_text_has_no_capitals,
    lemma_trim_ascii_lowercase,
    ascii_lowercase, ascii_lowercase_chars, chars_eq, chars_of, contains, contains_exec,
    i64_decimal_chars, join, join_strings, lemma_chars_deep_view, lemma_str_lt_asymmetric,
    lemma_str_lt_irreflexive, lemma_str_lt_total, lemma_str_lt_transitive, signed_dec, str_le,
    str_lt, str_lt_exec, str_to_string, trim, trim_str, dec, decimal_chars, push_chars, push_str,
    string_of,
};
use std::collections::HashMap;
use vstd::prelude::*;

verus! {

broadcast use {lemma_chars_deep_view, vstd::std_specs::hash::group_hash_axioms};

/// The marks a player can be given.
#[derive(Debug, Clone, Copy, PartialEq, Eq, Hash, Structural)]
pub enum PlayerAttribute {
    Cool,
    Cheater,
    Bot,
    Suspicious,
    Toxic,
    Exploiter,
}

/// The name of a mark, as stored (the variant's name).
pub open spec fn attribute_name(a: PlayerAttribute) -> Seq<char> {
    match a {
        PlayerAttribute::Cool => "Cool"@,
        PlayerAttribute::Cheater => "Cheater"@,
        PlayerAttribute::Bot => "Bot"@,
        PlayerAttribute::Suspicious => "Suspicious"@,
        PlayerAttribute::Toxic => "Toxic"@,
        PlayerAttribute::Exploiter => "Exploiter"@,
    }
}

impl PlayerAttribute {
    /// The name of the mark, as stored (`format!("{:?}", attribute)`).
    pub fn name(&self) -> (r: String)
        ensures
            r@ == attribute_name(*self),
    {
        match self {
            PlayerAttribute::Cool => str_to_string("Cool"),
            PlayerAttribute::Cheater => str_to_string("Cheater"),
            PlayerAttribute::Bot => str_to_string("Bot"),
            PlayerAttribute::Suspicious => str_to_string("Suspicious"),
            PlayerAttribute::Toxic => str_to_string("Toxic"),
            PlayerAttribute::Exploiter => str_to_string("Exploiter"),
        }
    }
}

/// The marks the player database window offers as filters.
pub fn player_database_filters() -> (r: Vec<PlayerAttribute>)
    ensures
        r@ == seq![
            PlayerAttribute::Cheater,
            PlayerAttribute::Bot,
            PlayerAttribute::Suspicious,
            PlayerAttribute::Toxic,
            PlayerAttribute::Exploiter,
            PlayerAttribute::Cool,
        ],
{
    vec![
        PlayerAttribute::Cheater,
        PlayerAttribute::Bot,
        PlayerAttribute::Suspicious,
        PlayerAttribute::Toxic,
        PlayerAttribute::Exploiter,
        PlayerAttribute::Cool,
    ]
}

/// The flag types stored for account `id`.
pub open spec fn flag_types_of(flags: Seq<PlayerFlag>, id: i64) -> Set<Seq<char>> {
    Set::new(
        |t: Seq<char>|
            exists|j: int| 0 <= j < flags.len() && #[trigger] flags[j].steam_id == id && flags[j].flag_type@ == t,
    )
}

pub open spec fn has_flags(flags: Seq<PlayerFlag>, id: i64) -> bool {
    exists|j: int| 0 <= j < flags.len() && #[trigger] flags[j].steam_id == id
}

/// A grouping of marks by account: an entry for each account that has marks,
/// holding each of its flag types once.
pub open spec fn groups_flags(m: Map<i64, Vec<String>>, flags: Seq<PlayerFlag>) -> bool {
    &&& forall|id: i64| #[trigger] m.contains_key(id) <==> has_flags(flags, id)
    &&& forall|id: i64|
        #[trigger] m.contains_key(id) ==> {
            &&& m[id].deep_view().no_duplicates()
            &&& forall|t: Seq<char>| m[id].deep_view().contains(t) <==> flag_types_of(flags, id).contains(t)
        }
}

proof fn lemma_group_step(
    before: Map<i64, Vec<String>>,
    pre: Seq<PlayerFlag>,
    flag: PlayerFlag,
    types: Vec<String>,
)
    requires
        groups_flags(before, pre),
        types.deep_view().no_duplicates(),
        forall|t: Seq<char>| #[trigger] types.deep_view().contains(t) <==> ((before.contains_key(flag.steam_id)
            && before[flag.steam_id].deep_view().contains(t)) || t == flag.flag_type@),
    ensures
        groups_flags(before.insert(flag.steam_id, types), pre.push(flag)),
{
    let id = flag.steam_id;
    let post = pre.push(flag);
    let after = before.insert(id, types);
    let n = pre.len() as int;
    assert(post[n] == flag);
    assert forall|x: i64| #[trigger] after.contains_key(x) <==> has_flags(post, x) by {
        if x == id {
            assert(post[n].steam_id == id);
        } else if has_flags(post, x) {
            let j = choose|j: int| 0 <= j < post.len() && #[trigger] post[j].steam_id == x;
            assert(pre[j].steam_id == x);
        } else if has_flags(pre, x) {
            let j = choose|j: int| 0 <= j < pre.len() && #[trigger] pre[j].steam_id == x;
            assert(post[j].steam_id == x);
        }
    }
    assert forall|x: i64, t: Seq<char>| #[trigger] flag_types_of(post, x).contains(t) <==> (
    flag_types_of(pre, x).contains(t) || (x == id && t == flag.flag_type@)) by {
        if flag_types_of(post, x).contains(t) {
            let j = choose|j: int|
                0 <= j < post.len() && #[trigger] post[j].steam_id == x && post[j].flag_type@ == t;
            if j < n {
                assert(pre[j].steam_id == x);
            }
        }
        if flag_types_of(pre, x).contains(t) {
            let j = choose|j: int|
                0 <= j < pre.len() && #[trigger] pre[j].steam_id == x && pre[j].flag_type@ == t;
            assert(post[j].steam_id == x);
        }
        if x == id && t == flag.flag_type@ {
            assert(post[n].steam_id == x);
        }
    }
    assert forall|x: i64| #[trigger] after.contains_key(x) implies {
        &&& after[x].deep_view().no_duplicates()
        &&& forall|t: Seq<char>| after[x].deep_view().contains(t) <==> flag_types_of(post, x).contains(t)
    } by {
        if x == id {
            assert forall|t: Seq<char>| after[x].deep_view().contains(t) <==> flag_types_of(post, x).contains(t) by {
                assert(flag_types_of(post, x).contains(t) <==> (flag_types_of(pre, x).contains(t) || t
                    == flag.flag_type@));
                if !before.contains_key(id) {
                    if flag_types_of(pre, id).contains(t) {
                        let j = choose|j: int|
                            0 <= j < pre.len() && #[trigger] pre[j].steam_id == id && pre[j].flag_type@ == t;
                        assert(has_flags(pre, id));
                    }
                }
            }
        } else {
            assert forall|t: Seq<char>| after[x].deep_view().contains(t) <==> flag_types_of(post, x).contains(t) by {
                assert(flag_types_of(post, x).contains(t) <==> flag_types_of(pre, x).contains(t));
            }
        }
    }
}

fn contains_string(v: &Vec<String>, s: &String) -> (r: bool)
    ensures
        r == v.deep_view().contains(s@),
{
    let target = chars_of(s.as_str());
    let mut i: usize = 0;
    while i < v.len()
        invariant
            i <= v.len(),
            target@ == s@,
            forall|j: int| 0 <= j < i ==> v.deep_view()[j] != s@,
        decreases v.len() - i,
    {
        if chars_eq(&chars_of(v[i].as_str()), &target) {
            assert(v.deep_view()[i as int] == s@);
            return true;
        }
        i = i + 1;
    }
    false
}

/// Groups the marks of players by account (the flag types of each account).
pub fn group_flags_by_steamid(player_flags: &Vec<PlayerFlag>) -> (r: HashMap<i64, Vec<String>>)
    ensures
        groups_flags(r@, player_flags@),
{
    let mut grouped: HashMap<i64, Vec<String>> = HashMap::new();
    let mut i: usize = 0;
    while i < player_flags.len()
        invariant
            i <= player_flags.len(),
            groups_flags(grouped@, player_flags@.take(i as int)),
        decreases player_flags.len() - i,
    {
        let ghost before = grouped@;
        let ghost pre = player_flags@.take(i as int);
        let ghost post = player_flags@.take(i + 1);
        let flag = &player_flags[i];
        assert(post == pre.push(*flag));
        let id = flag.steam_id;
        let mut types = match grouped.remove(&id) {
            Some(v) => v,
            None => Vec::new(),
        };
        let ghost old_types = types.deep_view();
        assert(before.contains_key(id) ==> old_types == before[id].deep_view());
        assert(before.contains_key(id) ==> old_types.no_duplicates());
        if !contains_string(&types, &flag.flag_type) {
            types.push(flag.flag_type.clone());
            assert(types.deep_view() =~= old_types.push(flag.flag_type@));
            assert forall|t: Seq<char>| #[trigger] types.deep_view().contains(t) <==> (old_types.contains(t)
                || t == flag.flag_type@) by {
                if types.deep_view().contains(t) && t != flag.flag_type@ {
                    let k = choose|k: int| 0 <= k < types.deep_view().len() && types.deep_view()[k] == t;
                    assert(old_types[k] == t);
                }
                if old_types.contains(t) {
                    let k = choose|k: int| 0 <= k < old_types.len() && old_types[k] == t;
                    assert(types.deep_view()[k] == t);
                }
                if t == flag.flag_type@ {
                    assert(types.deep_view()[old_types.len() as int] == t);
                }
            }
        } else {
            assert forall|t: Seq<char>| #[trigger] types.deep_view().contains(t) <==> (old_types.contains(t)
                || t == flag.flag_type@) by {}
        }
        assert(types.deep_view().no_duplicates());
        assert forall|t: Seq<char>| #[trigger] types.deep_view().contains(t) <==> ((before.contains_key(id)
            && before[id].deep_view().contains(t)) || t == flag.flag_type@) by {
            if !before.contains_key(id) {
                assert(old_types =~= Seq::<Seq<char>>::empty());
            }
        }
        proof {
            lemma_group_step(before, pre, *flag, types);
        }
        grouped.insert(id, types);
        assert(grouped@ == before.insert(id, types));
        i = i + 1;
    }
    assert(player_flags@.take(player_flags.len() as int) == player_flags@);
    grouped
}

/// Strings in order of `str`'s `Ord`.
pub open spec fn strings_sorted(s: Seq<Seq<char>>) -> bool {
    forall|i: int, j: int| 0 <= i < j < s.len() ==> str_le(#[trigger] s[i], #[trigger] s[j])
}

proof fn lemma_str_le_transitive(a: Seq<char>, b: Seq<char>, c: Seq<char>)
    requires
        str_le(a, b),
        str_le(b, c),
    ensures
        str_le(a, c),
{
    if str_lt(a, b) && str_lt(b, c) {
        lemma_str_lt_transitive(a, b, c);
    }
}

/// Sorts strings by `str`'s `Ord`.
pub fn sort_strings(v: Vec<String>) -> (r: Vec<String>)
    ensures
        strings_sorted(r.deep_view()),
        r.deep_view().to_multiset() == v.deep_view().to_multiset(),
{
    broadcast use {vstd::seq_lib::group_to_multiset_ensures, vstd::multiset::group_multiset_axioms};

    let ghost orig = v.deep_view();
    let mut input = v;
    let mut out: Vec<String> = Vec::new();
    let ghost mut n: int = 0;
    assert(orig.skip(0) == orig);
    while input.len() > 0
        invariant
            0 <= n <= orig.len(),
            input.deep_view() == orig.skip(n),
            strings_sorted(out.deep_view()),
            out.deep_view().to_multiset() == orig.take(n).to_multiset(),
        decreases input.len(),
    {
        let ghost in_seq = input@;
        let ghost in_deep = input.deep_view();
        assert(in_deep[0] == in_seq[0]@);
        let x = input.remove(0);
        assert(x == in_seq[0]);
        assert(in_deep.len() == in_seq.len());
        assert(orig.skip(n)[0] == orig[n]);
        assert(x@ == orig[n]);
        assert forall|i: int| 0 <= i < input.deep_view().len() implies input.deep_view()[i] == orig.skip(n + 1)[i] by {
            assert(input@[i] == in_seq[i + 1]);
            assert(in_deep[i + 1] == in_seq[i + 1]@);
            assert(orig.skip(n)[i + 1] == orig.skip(n + 1)[i]);
        }
        assert(input.deep_view() =~= orig.skip(n + 1));
        let xc = chars_of(x.as_str());
        let mut j: usize = 0;
        while j < out.len() && !str_lt_exec(&xc, &chars_of(out[j].as_str()))
            invariant
                j <= out.len(),
                xc@ == x@,
                forall|i: int| 0 <= i < j ==> str_le(#[trigger] out.deep_view()[i], x@),
            decreases out.len() - j,
        {
            proof {
                let o = out.deep_view()[j as int];
                if o != x@ {
                    lemma_str_lt_total(o, x@);
                }
            }
            j = j + 1;
        }
        let ghost s = out.deep_view();
        proof {
            if j < s.len() {
                assert(str_lt(x@, s[j as int]));
                assert forall|m: int| j <= m < s.len() implies str_le(x@, #[trigger] s[m]) by {
                    if m > j {
                        lemma_str_le_transitive(x@, s[j as int], s[m]);
                    }
                }
            }
        }
        out.insert(j, x);
        let ghost t = out.deep_view();
        assert(t =~= s.insert(j as int, orig[n]));
        assert(strings_sorted(t)) by {
            assert forall|a: int, b: int| 0 <= a < b < t.len() implies str_le(#[trigger] t[a], #[trigger] t[b]) by {
                if b < j {
                } else if b == j {
                    assert(t[a] == s[a]);
                } else if a < j {
                    assert(t[a] == s[a] && t[b] == s[b - 1]);
                    lemma_str_le_transitive(s[a], orig[n], s[b - 1]);
                } else if a == j {
                    assert(t[b] == s[b - 1]);
                } else {
                    assert(t[a] == s[a - 1] && t[b] == s[b - 1]);
                }
            }
        }
        proof {
            let pre = s.take(j as int);
            let post = s.skip(j as int);
            assert(s == pre + post);
            assert(t == pre.push(orig[n]) + post);
            vstd::seq_lib::lemma_multiset_commutative(pre, post);
            vstd::seq_lib::lemma_multiset_commutative(pre.push(orig[n]), post);
            vstd::seq_lib::to_multiset_build(pre, orig[n]);
            assert(t.to_multiset() =~= s.to_multiset().insert(orig[n]));
            assert(orig.take(n + 1) == orig.take(n).push(orig[n]));
            vstd::seq_lib::to_multiset_build(orig.take(n), orig[n]);
            n = n + 1;
        }
    }
    assert(orig.take(n) == orig);
    out
}

/// How the marks of an account are written in the player database: `-` for
/// none, otherwise their names in order, separated by `, `.
pub fn format_flags(flags: Option<&Vec<String>>) -> (r: String)
    ensures
        match flags {
            Some(f) if f.len() > 0 => exists|sorted: Seq<Seq<char>>|
                {
                    &&& strings_sorted(sorted)
                    &&& sorted.to_multiset() == f.deep_view().to_multiset()
                    &&& r@ == join(sorted, ", "@)
                },
            _ => r@ == "-"@,
        },
{
    let flags = match flags {
        Some(f) => f,
        None => {
            return str_to_string("-");
        },
    };
    if flags.len() == 0 {
        return str_to_string("-");
    }
    let copy = flags.clone();
    assert(copy.deep_view() =~= flags.deep_view());
    let sorted = sort_strings(copy);
    join_strings(&sorted, ", ")
}

/// Whether the search text, trimmed, is empty or found in the account name
/// (ignoring ASCII case) or in the SteamID64.
pub open spec fn search_matches(name: Seq<char>, steam_id: i64, search: Seq<char>) -> bool {
    let s = trim(search);
    s.len() == 0 || contains(ascii_lowercase(name), ascii_lowercase(s)) || contains(
        signed_dec(steam_id as int),
        s,
    )
}

/// Whether a stored account shows in the player database: the search text,
/// trimmed, is empty or found in the account name (ignoring ASCII case) or in
/// the SteamID64; and, when marks are chosen as filters, the account has one
/// of them.
pub open spec fn account_matches(
    name: Seq<char>,
    steam_id: i64,
    groups: Map<i64, Vec<String>>,
    search: Seq<char>,
    filters: Seq<PlayerAttribute>,
) -> bool {
    &&& search_matches(name, steam_id, search)
    &&& (filters.len() == 0 || (groups.contains_key(steam_id) && exists|i: int|
        0 <= i < filters.len() && groups[steam_id].deep_view().contains(
            attribute_name(#[trigger] filters[i]),
        )))
}

pub fn account_matches_filters(
    account: &Account,
    flags_by_steamid: &HashMap<i64, Vec<String>>,
    search: &str,
    filters: &Vec<PlayerAttribute>,
) -> (r: bool)
    ensures
        r == account_matches(account.name@, account.steam_id, flags_by_steamid@, search@, filters@),
{
    let search_text = trim_str(search);
    if search_text.len() > 0 {
        let search_text_lower = ascii_lowercase_chars(&search_text);
        let name_lower = ascii_lowercase_chars(&chars_of(account.name.as_str()));
        let name_matches = contains_exec(&name_lower, &search_text_lower);
        let steamid_matches = contains_exec(&i64_decimal_chars(account.steam_id), &search_text);
        if !name_matches && !steamid_matches {
            return false;
        }
    }
    if filters.len() == 0 {
        return true;
    }
    let player_flags = match flags_by_steamid.get(&account.steam_id) {
        Some(f) => f,
        None => {
            return false;
        },
    };
    let mut i: usize = 0;
    while i < filters.len()
        invariant
            i <= filters.len(),
            flags_by_steamid@.contains_key(account.steam_id),
            search_matches(account.name@, account.steam_id, search@),
            *player_flags == flags_by_steamid@[account.steam_id],
            forall|j: int|
                0 <= j < i ==> !player_flags.deep_view().contains(
                    attribute_name(#[trigger] filters@[j]),
                ),
        decreases filters.len() - i,
    {
        if contains_string(player_flags, &filters[i].name()) {
            return true;
        }
        i = i + 1;
    }
    false
}

/// The positions of the accounts that show in the player database, in order.
pub fn filter_accounts(
    accounts: &Vec<Account>,
    flags_by_steamid: &HashMap<i64, Vec<String>>,
    search: &str,
    filters: &Vec<PlayerAttribute>,
) -> (r: Vec<usize>)
    ensures
        forall|i: int| 0 <= i < r.len() ==> #[trigger] r@[i] < accounts.len(),
        forall|i: int, j: int| 0 <= i < j < r.len() ==> #[trigger] r@[i] < #[trigger] r@[j],
        forall|k: usize|
            k < accounts.len() ==> (#[trigger] r@.contains(k) <==> account_matches(
                accounts@[k as int].name@,
                accounts@[k as int].steam_id,
                flags_by_steamid@,
                search@,
                filters@,
            )),
{
    let mut r: Vec<usize> = Vec::new();
    let mut k: usize = 0;
    while k < accounts.len()
        invariant
            k <= accounts.len(),
            forall|i: int| 0 <= i < r.len() ==> #[trigger] r@[i] < k,
            forall|i: int, j: int| 0 <= i < j < r.len() ==> #[trigger] r@[i] < #[trigger] r@[j],
            forall|m: usize|
                m < k ==> (#[trigger] r@.contains(m) <==> account_matches(
                    accounts@[m as int].name@,
                    accounts@[m as int].steam_id,
                    flags_by_steamid@,
                    search@,
                    filters@,
                )),
            forall|m: usize| k <= m ==> !(#[trigger] r@.contains(m)),
        decreases accounts.len() - k,
    {
        let ghost before = r@;
        if account_matches_filters(&accounts[k], flags_by_steamid, search, filters) {
            r.push(k);
            assert forall|m: usize| #[trigger] r@.contains(m) <==> (before.contains(m) || m == k) by {
                if r@.contains(m) {
                    let i = choose|i: int| 0 <= i < r@.len() && r@[i] == m;
                    if i < before.len() {
                        assert(before[i] == m);
                    }
                }
                if before.contains(m) {
                    let i = choose|i: int| 0 <= i < before.len() && before[i] == m;
                    assert(r@[i] == m);
                }
                if m == k {
                    assert(r@[before.len() as int] == k);
                }
            }
        }
        k = k + 1;
    }
    r
}

/// The marks kept after a mark is switched on or off: every copy of it
/// removed, and it added at the end when switched on.
pub open spec fn without(s: Seq<PlayerAttribute>, a: PlayerAttribute) -> Seq<PlayerAttribute>
    decreases s.len(),
{
    if s.len() == 0 {
        Seq::empty()
    } else if s.last() == a {
        without(s.drop_last(), a)
    } else {
        without(s.drop_last(), a).push(s.last())
    }
}

/// Switches the notification for a mark on or off (`retain` of the other
/// marks, then `push` when on).
pub fn set_party_notification(list: &mut Vec<PlayerAttribute>, attribute: PlayerAttribute, enabled: bool)
    ensures
        final(list)@ == switched(old(list)@, attribute, enabled),
{
    let ghost orig = list@;
    let mut kept: Vec<PlayerAttribute> = Vec::new();
    let mut i: usize = 0;
    while i < list.len()
        invariant
            i <= list.len(),
            list@ == orig,
            kept@ == without(orig.take(i as int), attribute),
        decreases list.len() - i,
    {
        assert(orig.take(i + 1).drop_last() == orig.take(i as int));
        if list[i] != attribute {
            kept.push(list[i]);
        }
        i = i + 1;
    }
    assert(orig.take(list.len() as int) == orig);
    if enabled {
        kept.push(attribute);
    }
    *list = kept;
}

/// The marks in the order the badges and the mark editor show them.
pub open spec fn shown_marks() -> Seq<PlayerAttribute> {
    seq![
        PlayerAttribute::Cool,
        PlayerAttribute::Cheater,
        PlayerAttribute::Bot,
        PlayerAttribute::Suspicious,
        PlayerAttribute::Toxic,
        PlayerAttribute::Exploiter,
    ]
}

fn shown_marks_vec() -> (r: Vec<PlayerAttribute>)
    ensures
        r@ == shown_marks(),
{
    vec![
        PlayerAttribute::Cool,
        PlayerAttribute::Cheater,
        PlayerAttribute::Bot,
        PlayerAttribute::Suspicious,
        PlayerAttribute::Toxic,
        PlayerAttribute::Exploiter,
    ]
}

fn has_mark(marks: &Vec<PlayerAttribute>, a: PlayerAttribute) -> (r: bool)
    ensures
        r == marks@.contains(a),
{
    let mut i: usize = 0;
    while i < marks.len()
        invariant
            i <= marks.len(),
            forall|j: int| 0 <= j < i ==> marks@[j] != a,
        decreases marks.len() - i,
    {
        if marks[i] == a {
            return true;
        }
        i = i + 1;
    }
    false
}

/// The marks of `s` that `marks` holds, in the order of `s`.
pub open spec fn held_marks(s: Seq<PlayerAttribute>, marks: Seq<PlayerAttribute>) -> Seq<PlayerAttribute>
    decreases s.len(),
{
    if s.len() == 0 {
        Seq::empty()
    } else if marks.contains(s.last()) {
        held_marks(s.drop_last(), marks).push(s.last())
    } else {
        held_marks(s.drop_last(), marks)
    }
}

/// The badges of a player's marks: each mark the player has, once, in the
/// order Cool, Cheater, Bot, Suspicious, Toxic, Exploiter.
pub fn marks_to_show(marks: &Vec<PlayerAttribute>) -> (r: Vec<PlayerAttribute>)
    ensures
        r@ == held_marks(shown_marks(), marks@),
{
    let all = shown_marks_vec();
    let mut r: Vec<PlayerAttribute> = Vec::new();
    let mut i: usize = 0;
    while i < all.len()
        invariant
            i <= all.len(),
            all@ == shown_marks(),
            r@ == held_marks(all@.take(i as int), marks@),
        decreases all.len() - i,
    {
        assert(all@.take(i + 1).drop_last() == all@.take(i as int));
        if has_mark(marks, all[i]) {
            r.push(all[i]);
        }
        i = i + 1;
    }
    assert(all@.take(all.len() as int) == all@);
    r
}

/// The check boxes of the mark editor: every mark, in the order of the
/// badges, checked when the player has it (no marks known: none checked).
pub fn mark_editor_states(marks: Option<&Vec<PlayerAttribute>>) -> (r: Vec<(PlayerAttribute, bool)>)
    ensures
        r@.len() == shown_marks().len(),
        forall|i: int|
            0 <= i < r@.len() ==> (#[trigger] r@[i]).0 == shown_marks()[i] && r@[i].1 == match marks {
                Some(m) => m@.contains(shown_marks()[i]),
                None => false,
            },
{
    let all = shown_marks_vec();
    let mut r: Vec<(PlayerAttribute, bool)> = Vec::new();
    let mut i: usize = 0;
    while i < all.len()
        invariant
            i <= all.len(),
            all@ == shown_marks(),
            r@.len() == i,
            forall|j: int|
                0 <= j < i ==> (#[trigger] r@[j]).0 == shown_marks()[j] && r@[j].1 == match marks {
                    Some(m) => m@.contains(shown_marks()[j]),
                    None => false,
                },
        decreases all.len() - i,
    {
        let enabled = match marks {
            Some(m) => has_mark(m, all[i]),
            None => false,
        };
        r.push((all[i], enabled));
        i = i + 1;
    }
    r
}

/// The marks the menu offers party notifications for, in order.
pub open spec fn notifiable_marks() -> Seq<PlayerAttribute> {
    seq![
        PlayerAttribute::Cheater,
        PlayerAttribute::Bot,
        PlayerAttribute::Suspicious,
        PlayerAttribute::Toxic,
        PlayerAttribute::Exploiter,
    ]
}

/// The check boxes of the party notification menu: each offered mark,
/// checked when notifications for it are on.
pub fn party_notification_states(notify_for: &Vec<PlayerAttribute>) -> (r: Vec<(PlayerAttribute, bool)>)
    ensures
        r@.len() == notifiable_marks().len(),
        forall|i: int|
            0 <= i < r@.len() ==> (#[trigger] r@[i]).0 == notifiable_marks()[i] && r@[i].1
                == notify_for@.contains(notifiable_marks()[i]),
{
    let all = vec![
        PlayerAttribute::Cheater,
        PlayerAttribute::Bot,
        PlayerAttribute::Suspicious,
        PlayerAttribute::Toxic,
        PlayerAttribute::Exploiter,
    ];
    assert(all@ == notifiable_marks());
    let mut r: Vec<(PlayerAttribute, bool)> = Vec::new();
    let mut i: usize = 0;
    while i < all.len()
        invariant
            i <= all.len(),
            all@ == notifiable_marks(),
            r@.len() == i,
            forall|j: int|
                0 <= j < i ==> (#[trigger] r@[j]).0 == notifiable_marks()[j] && r@[j].1
                    == notify_for@.contains(notifiable_marks()[j]),
        decreases all.len() - i,
    {
        r.push((all[i], has_mark(notify_for, all[i])));
        i = i + 1;
    }
    r
}

/// The notification list after a mark is switched on or off.
pub open spec fn switched(list: Seq<PlayerAttribute>, a: PlayerAttribute, enabled: bool) -> Seq<PlayerAttribute> {
    if enabled {
        without(list, a).push(a)
    } else {
        without(list, a)
    }
}

proof fn lemma_without_contains(s: Seq<PlayerAttribute>, a: PlayerAttribute, x: PlayerAttribute)
    ensures
        without(s, a).contains(x) <==> (x != a && s.contains(x)),
    decreases s.len(),
{
    if s.len() > 0 {
        let rest = s.drop_last();
        lemma_without_contains(rest, a, x);
        assert(s == rest.push(s.last()));
        if s.contains(x) && x != a && !rest.contains(x) {
            let i = choose|i: int| 0 <= i < s.len() && s[i] == x;
            if i < rest.len() {
                assert(rest[i] == x);
            }
            assert(without(s, a) == without(rest, a).push(s.last()));
            assert(without(s, a)[without(rest, a).len() as int] == x);
        }
        if rest.contains(x) {
            let i = choose|i: int| 0 <= i < rest.len() && rest[i] == x;
            assert(s[i] == x);
        }
        if without(s, a).contains(x) && s.last() != a && !without(rest, a).contains(x) {
            let i = choose|i: int| 0 <= i < without(s, a).len() && without(s, a)[i] == x;
            assert(i == without(rest, a).len());
            assert(s[s.len() - 1] == x);
        }
        if without(rest, a).contains(x) && s.last() != a {
            let i = choose|i: int| 0 <= i < without(rest, a).len() && without(rest, a)[i] == x;
            assert(without(s, a)[i] == x);
        }
    }
}

proof fn lemma_without_absent(s: Seq<PlayerAttribute>, a: PlayerAttribute)
    requires
        !s.contains(a),
    ensures
        without(s, a) == s,
    decreases s.len(),
{
    if s.len() > 0 {
        let rest = s.drop_last();
        assert(!rest.contains(a)) by {
            if rest.contains(a) {
                let i = choose|i: int| 0 <= i < rest.len() && rest[i] == a;
                assert(s[i] == a);
            }
        }
        lemma_without_absent(rest, a);
        assert(s.last() != a) by {
            if s.last() == a {
                assert(s[s.len() - 1] == a);
            }
        }
        assert(s == rest.push(s.last()));
    }
}

/// Switching a party notification on makes the list hold the mark, and off
/// makes it not; the other marks stay as they were; and switching it the
/// same way again changes nothing.
pub proof fn law_party_notification_switch(list: Seq<PlayerAttribute>, a: PlayerAttribute, enabled: bool, other: PlayerAttribute)
    requires
        other != a,
    ensures
        switched(list, a, enabled).contains(a) == enabled,
        switched(list, a, enabled).contains(other) == list.contains(other),
        switched(switched(list, a, enabled), a, enabled) == switched(list, a, enabled),
{
    let w = without(list, a);
    lemma_without_contains(list, a, a);
    lemma_without_contains(list, a, other);
    lemma_without_absent(w, a);
    if enabled {
        let r = w.push(a);
        assert(r[w.len() as int] == a);
        assert(r.contains(other) == w.contains(other)) by {
            if r.contains(other) {
                let i = choose|i: int| 0 <= i < r.len() && r[i] == other;
                assert(w[i] == other);
            }
            if w.contains(other) {
                let i = choose|i: int| 0 <= i < w.len() && w[i] == other;
                assert(r[i] == other);
            }
        }
        assert(r.drop_last() == w);
        assert(without(r, a) == without(w, a));
    }
}

/// The line above the list of the player database: `Showing {shown} of
/// {total} players`.
pub fn showing_line(shown: usize, total: usize) -> (r: String)
    ensures
        r@ == "Showing "@ + dec(shown as nat) + " of "@ + dec(total as nat) + " players"@,
{
    let mut out: Vec<char> = Vec::new();
    push_str(&mut out, "Showing ");
    push_chars(&mut out, &decimal_chars(shown as u64));
    push_str(&mut out, " of ");
    push_chars(&mut out, &decimal_chars(total as u64));
    push_str(&mut out, " players");
    string_of(&out)
}

/// The search of the player database ignores ASCII case: an account
/// matches a search text exactly when it matches the text in lowercase (and
/// so exactly when it matches any other casing of it).
pub proof fn law_search_ignores_case(
    name: Seq<char>,
    steam_id: i64,
    groups: Map<i64, Vec<String>>,
    search: Seq<char>,
    filters: Seq<PlayerAttribute>,
)
    ensures
        search_matches(name, steam_id, search) == search_matches(name, steam_id, ascii_lowercase(search)),
        account_matches(name, steam_id, groups, search, filters) == account_matches(
            name,
            steam_id,
            groups,
            ascii_lowercase(search),
            filters,
        ),
{
    let t = trim(search);
    lemma_trim_ascii_lowercase(search);
    lemma_ascii_lowercase_idempotent(t);
    lemma_ascii_lowercase_shape(t);
    lemma_number_text_has_no_capitals(steam_id as int, t);
}

} // verus!
