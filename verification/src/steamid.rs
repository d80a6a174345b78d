//! Steam account identifiers and their textual forms.
use crate::text::{
    chars_of, dec, decimal_chars, ends_with, ends_with_exec, is_digit, lemma_dec, lemma_parse_dec,
    parse_u64, parse_unsigned, parse_unsigned_chars, push_chars, push_str, starts_with,
    starts_with_exec, string_of, strip_all_prefixes, strip_all_prefixes_chars,
    strip_all_suffix_char, strip_all_suffix_char_chars,
};
use vstd::prelude::*;

verus! {

/// The SteamID64 of the first individual account; SteamID32 numbers count from it.
pub const MIN_STEAMID64: u64 = 76561197960265728;

/// A SteamID64.
#[derive(Debug, Copy, Clone, PartialEq, Eq, Hash, Structural)]
pub struct SteamID(u64);

impl View for SteamID {
    type V = u64;

    closed spec fn view(&self) -> u64 {
        self.0
    }
}

/// `[U:1:`, the opening of the SteamID32 form.
pub open spec fn id32_prefix() -> Seq<char> {
    seq!['[', 'U', ':', '1', ':']
}

/// The SteamID32 text of an account: `[U:1:n]` where `n` counts from `MIN_STEAMID64`.
pub open spec fn steam_id32_text(id: u64) -> Seq<char> {
    id32_prefix() + dec((id - MIN_STEAMID64) as nat) + seq![']']
}

/// The legacy text form `STEAM_0:y:z` of an account.
pub open spec fn steam_id_text(id: u64) -> Seq<char> {
    seq!['S', 'T', 'E', 'A', 'M', '_', '0', ':'] + dec((id % 2) as nat) + seq![':'] + dec(
        ((id - MIN_STEAMID64) / 2) as nat,
    )
}

/// The digits that a SteamID32 text holds: in the bracketed form every leading
/// `[U:1:` and every trailing `]` is removed; the shorter form is the number itself.
pub open spec fn steam_id32_digits(s: Seq<char>) -> Seq<char> {
    if starts_with(s, id32_prefix()) && ends_with(s, seq![']']) {
        strip_all_suffix_char(strip_all_prefixes(s, id32_prefix()), ']')
    } else {
        s
    }
}

/// The account that a SteamID32 text denotes, if its number parses and the
/// account number stays within `u64`.
pub open spec fn parse_steam_id32(s: Seq<char>) -> Option<u64> {
    match parse_unsigned(steam_id32_digits(s), u64::MAX as nat) {
        Some(n) => if n + MIN_STEAMID64 <= u64::MAX {
            Some((n + MIN_STEAMID64) as u64)
        } else {
            None
        },
        None => None,
    }
}

fn id32_prefix_chars() -> (r: Vec<char>)
    ensures
        r@ == id32_prefix(),
{
    let r = vec!['[', 'U', ':', '1', ':'];
    assert(r@ == id32_prefix());
    r
}

impl SteamID {
    pub fn from_u64(steamid64: u64) -> (r: Self)
        ensures
            r@ == steamid64,
    {
        Self(steamid64)
    }

    /// Parses a SteamID64 written in decimal; `None` when the text is no `u64`.
    pub fn from_u64_string(steamid64: &String) -> (r: Option<Self>)
        ensures
            match parse_unsigned(steamid64@, u64::MAX as nat) {
                Some(n) => r matches Some(id) && id@ == n,
                None => r is None,
            },
    {
        match parse_u64(steamid64.as_str()) {
            Some(n) => Some(Self::from_u64(n)),
            None => None,
        }
    }

    /// Reads a SteamID32 (`[U:1:169802]`, or the bare number `169802`);
    /// `None` exactly on the texts that `from_steam_id32` does not accept.
    pub fn try_from_steam_id32(steamid32: &str) -> (r: Option<Self>)
        ensures
            match parse_steam_id32(steamid32@) {
                Some(n) => r matches Some(id) && id@ == n,
                None => r is None,
            },
    {
        Self::try_from_steam_id32_chars(chars_of(steamid32))
    }

    /// `try_from_steam_id32` on the characters of the text.
    pub fn try_from_steam_id32_chars(s: Vec<char>) -> (r: Option<Self>)
        ensures
            match parse_steam_id32(s@) {
                Some(n) => r matches Some(id) && id@ == n,
                None => r is None,
            },
    {
        let ghost text = s@;
        let prefix = id32_prefix_chars();
        let close = vec![']'];
        assert(close@ == seq![']']);
        let digits = if starts_with_exec(&s, &prefix) && ends_with_exec(&s, &close) {
            let inner = strip_all_prefixes_chars(&s, &prefix);
            strip_all_suffix_char_chars(&inner, ']')
        } else {
            s
        };
        assert(digits@ == steam_id32_digits(text));
        match parse_unsigned_chars(&digits, u64::MAX) {
            Some(n) => {
                if n <= u64::MAX - MIN_STEAMID64 {
                    Some(Self::from_u64(n + MIN_STEAMID64))
                } else {
                    None
                }
            },
            None => None,
        }
    }

    /// Reads a SteamID32 (`[U:1:169802]`, or the bare number `169802`).
    pub fn from_steam_id32(steamid32: &str) -> (r: Self)
        requires
            parse_steam_id32(steamid32@) is Some,
        ensures
            Some(r@) == parse_steam_id32(steamid32@),
    {
        match Self::try_from_steam_id32(steamid32) {
            Some(id) => id,
            None => {
                proof {
                    assert(false);
                }
                Self::from_u64(0)
            },
        }
    }

    /// Converts a SteamID64 to a SteamID32
    pub fn to_steam_id32(self) -> (r: String)
        requires
            self@ >= MIN_STEAMID64,
        ensures
            r@ == steam_id32_text(self@),
    {
        let mut out = id32_prefix_chars();
        push_chars(&mut out, &decimal_chars(self.0 - MIN_STEAMID64));
        out.push(']');
        string_of(&out)
    }

    pub fn to_steam_id(self) -> (r: String)
        requires
            self@ >= MIN_STEAMID64,
        ensures
            r@ == steam_id_text(self@),
    {
        let y = self.0 % 2;
        let z = (self.0 - MIN_STEAMID64) / 2;
        let mut out = vec!['S', 'T', 'E', 'A', 'M', '_', '0', ':'];
        push_chars(&mut out, &decimal_chars(y));
        out.push(':');
        push_chars(&mut out, &decimal_chars(z));
        string_of(&out)
    }

    pub fn to_u64(self) -> (r: u64)
        ensures
            r == self@,
    {
        self.0
    }

    pub fn is_valid(self) -> (r: bool)
        ensures
            r == (self@ >= MIN_STEAMID64),
    {
        self.0 >= MIN_STEAMID64
    }

    pub fn steam_history_url(&self) -> (r: String)
        ensures
            r@ == "https://steamhistory.net/id/"@ + dec(self@ as nat),
    {
        self.url_with_prefix("https://steamhistory.net/id/")
    }

    pub fn steam_community_url(&self) -> (r: String)
        ensures
            r@ == "https://steamcommunity.com/profiles/"@ + dec(self@ as nat),
    {
        self.url_with_prefix("https://steamcommunity.com/profiles/")
    }

    pub fn steam_rep_url(&self) -> (r: String)
        ensures
            r@ == "https://steamrep.com/search?q="@ + dec(self@ as nat),
    {
        self.url_with_prefix("https://steamrep.com/search?q=")
    }

    pub fn steam_id_url(&self) -> (r: String)
        ensures
            r@ == "https://steamid.uk/profile/"@ + dec(self@ as nat),
    {
        self.url_with_prefix("https://steamid.uk/profile/")
    }

    pub fn rep_tf_url(&self) -> (r: String)
        ensures
            r@ == "https://rep.tf/"@ + dec(self@ as nat),
    {
        self.url_with_prefix("https://rep.tf/")
    }

    fn url_with_prefix(&self, prefix: &str) -> (r: String)
        ensures
            r@ == prefix@ + dec(self@ as nat),
    {
        let mut out: Vec<char> = Vec::new();
        push_str(&mut out, prefix);
        push_chars(&mut out, &decimal_chars(self.0));
        string_of(&out)
    }
}

impl Default for SteamID {
    fn default() -> (r: Self)
        ensures
            r@ == 0,
    {
        Self(0)
    }
}

/// Reading back the SteamID32 text of an account gives the account.
pub proof fn law_steam_id32_roundtrip(id: u64)
    requires
        id >= MIN_STEAMID64,
    ensures
        parse_steam_id32(steam_id32_text(id)) == Some(id),
{
    let n = (id - MIN_STEAMID64) as nat;
    let d = dec(n);
    let s = steam_id32_text(id);
    lemma_dec(n);
    let p = id32_prefix();
    assert(s.subrange(0, 5) == p);
    assert(s.subrange(s.len() - 1, s.len() as int) == seq![']']);
    let after = d + seq![']'];
    assert(s.skip(5) == after);
    assert(after[0] == d[0]);
    assert(!starts_with(after, p)) by {
        if starts_with(after, p) {
            assert(after.subrange(0, 5)[0] == '[');
        }
    }
    assert(strip_all_prefixes(after, p) == after);
    assert(strip_all_prefixes(s, p) == after);
    assert(after.drop_last() == d);
    assert(d.last() == d[d.len() - 1]);
    assert(is_digit(d[d.len() - 1]));
    assert(strip_all_suffix_char(d, ']') == d);
    assert(steam_id32_digits(s) == d);
    lemma_parse_dec(n, u64::MAX as nat);
}

/// Reading back the decimal text of a SteamID64 gives the account.
pub proof fn law_u64_string_roundtrip(id: u64)
    ensures
        parse_unsigned(dec(id as nat), u64::MAX as nat) == Some(id as nat),
{
    lemma_parse_dec(id as nat, u64::MAX as nat);
}

} // verus!
