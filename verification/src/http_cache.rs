//! Names of the files that cache fetched pages.
use crate::text::{chars_of, replace_all, replace_chars, starts_with, string_of};
use vstd::prelude::*;

verus! {

/// The cache file name of a page address: the scheme (`https://`, then
/// `http://`) removed, and each of `/ . ? & % : =` replaced by `_`, in that
/// order.
pub open spec fn filename_of_url(url: Seq<char>) -> Seq<char> {
    let u = replace_all(url, "https://"@, Seq::empty());
    let u = replace_all(u, "http://"@, Seq::empty());
    let u = replace_all(u, seq!['/'], seq!['_']);
    let u = replace_all(u, seq!['.'], seq!['_']);
    let u = replace_all(u, seq!['?'], seq!['_']);
    let u = replace_all(u, seq!['&'], seq!['_']);
    let u = replace_all(u, seq!['%'], seq!['_']);
    let u = replace_all(u, seq![':'], seq!['_']);
    replace_all(u, seq!['='], seq!['_'])
}

fn replace_char(s: &Vec<char>, c: char) -> (r: Vec<char>)
    ensures
        r@ == replace_all(s@, seq![c], seq!['_']),
{
    let p = vec![c];
    let u = vec!['_'];
    assert(p@ == seq![c]);
    assert(u@ == seq!['_']);
    replace_chars(s, &p, &u)
}

pub fn get_filename_from_url(url: &str) -> (r: String)
    ensures
        r@ == filename_of_url(url@),
{
    proof {
        reveal_strlit("https://");
        reveal_strlit("http://");
    }
    let empty: Vec<char> = Vec::new();
    let https = chars_of("https://");
    let http = chars_of("http://");
    let u = replace_chars(&chars_of(url), &https, &empty);
    let u = replace_chars(&u, &http, &empty);
    let u = replace_char(&u, '/');
    let u = replace_char(&u, '.');
    let u = replace_char(&u, '?');
    let u = replace_char(&u, '&');
    let u = replace_char(&u, '%');
    let u = replace_char(&u, ':');
    let u = replace_char(&u, '=');
    string_of(&u)
}


/// How long a cached file lives, in seconds, as the cache compares it with a
/// file's age: `days_to_live` days, a negative count taken as a `u64` (so
/// that such a file never expires).
pub open spec fn ttl_seconds(days_to_live: i32) -> int {
    let secs = days_to_live * 86400;
    if secs >= 0 {
        secs
    } else {
        secs + 0x1_0000_0000_0000_0000
    }
}

/// Whether a cached file is to be deleted before it is read: its age in
/// seconds (`None` where no age could be had: no modification time, or one
/// in the future) is more than it may live.
pub fn cache_file_too_old(age_secs: Option<u64>, days_to_live: i32) -> (r: bool)
    requires
        i32::MIN <= days_to_live * 86400 <= i32::MAX,
    ensures
        r == (age_secs matches Some(age) && age > ttl_seconds(days_to_live)),
{
    let secs: i32 = days_to_live * 86400;
    let threshold: u64 = if secs >= 0 {
        secs as u64
    } else {
        let k: u64 = (-(secs as i64)) as u64;
        u64::MAX - (k - 1)
    };
    match age_secs {
        Some(age) => age > threshold,
        None => false,
    }
}

proof fn lemma_replace_char_contains(s: Seq<char>, c: char, x: char)
    requires
        c != '_',
    ensures
        replace_all(s, seq![c], seq!['_']).contains(x) ==> x == '_' || (x != c && s.contains(x)),
    decreases s.len(),
{
    let t = replace_all(s, seq![c], seq!['_']);
    if s.len() == 0 {
        return;
    }
    let rest = s.drop_first();
    lemma_replace_char_contains(rest, c, x);
    let rt = replace_all(rest, seq![c], seq!['_']);
    assert(s.take(1) == seq![s[0]]);
    assert(s.skip(1) == rest);
    if t.contains(x) && x != '_' {
        let i = choose|i: int| 0 <= i < t.len() && t[i] == x;
        if starts_with(s, seq![c]) {
            assert(t == seq!['_'] + rt);
            assert(i > 0);
            assert(rt[i - 1] == x);
            assert(rt.contains(x));
            let j = choose|j: int| 0 <= j < rest.len() && rest[j] == x;
            assert(s[j + 1] == x);
        } else {
            assert(t == seq![s[0]] + rt);
            if i == 0 {
                assert(s[0] == x);
                assert(s[0] != c);
            } else {
                assert(rt[i - 1] == x);
                assert(rt.contains(x));
                let j = choose|j: int| 0 <= j < rest.len() && rest[j] == x;
                assert(s[j + 1] == x);
            }
        }
    }
}

/// A cache file name holds none of `/ . ? & % : =`: every page address
/// names a file directly in its cache directory.
pub proof fn law_cache_filename_is_flat(url: Seq<char>)
    ensures
        !filename_of_url(url).contains('/'),
        !filename_of_url(url).contains('.'),
        !filename_of_url(url).contains('?'),
        !filename_of_url(url).contains('&'),
        !filename_of_url(url).contains('%'),
        !filename_of_url(url).contains(':'),
        !filename_of_url(url).contains('='),
{
    let u0 = replace_all(url, "https://"@, Seq::empty());
    let u1 = replace_all(u0, "http://"@, Seq::empty());
    let u2 = replace_all(u1, seq!['/'], seq!['_']);
    let u3 = replace_all(u2, seq!['.'], seq!['_']);
    let u4 = replace_all(u3, seq!['?'], seq!['_']);
    let u5 = replace_all(u4, seq!['&'], seq!['_']);
    let u6 = replace_all(u5, seq!['%'], seq!['_']);
    let u7 = replace_all(u6, seq![':'], seq!['_']);
    let u8 = replace_all(u7, seq!['='], seq!['_']);
    assert(u8 == filename_of_url(url));
    let cs = seq!['/', '.', '?', '&', '%', ':', '='];
    assert forall|k: int| 0 <= k < 7 implies !u8.contains(#[trigger] cs[k]) by {
        let x = cs[k];
        lemma_replace_char_contains(u1, '/', x);
        lemma_replace_char_contains(u2, '.', x);
        lemma_replace_char_contains(u3, '?', x);
        lemma_replace_char_contains(u4, '&', x);
        lemma_replace_char_contains(u5, '%', x);
        lemma_replace_char_contains(u6, ':', x);
        lemma_replace_char_contains(u7, '=', x);
    }
    assert(cs[0] == '/' && cs[1] == '.' && cs[2] == '?' && cs[3] == '&');
    assert(cs[4] == '%' && cs[5] == ':' && cs[6] == '=');
}

} // verus!
