//! What goes into a transaction log: the header map as JSON sees it, the
//! redaction of credentials, and the log file's name.
use vstd::prelude::*;
use crate::metrics::rfc3339_seconds;
use crate::store::{has_json_extension_spec, tx_file_suffix_spec};
use crate::text::{has_suffix, has_prefix, push_char, push_chars, push_str, to_chars, matches_at};

verus! {

/// The logged text of a header value: the value where it is visible ASCII
/// text, `<binary>` otherwise (`None`).
pub open spec fn header_text(value: Option<String>) -> Seq<char> {
    match value {
        Some(s) => s@,
        None => "<binary>"@,
    }
}

/// The JSON object that logging builds from the headers in order: each
/// header is inserted under its name, so a later header of the same name
/// replaces an earlier one.
pub open spec fn header_object(entries: Seq<(String, Option<String>)>) -> Map<
    Seq<char>,
    Seq<char>,
>
    decreases entries.len(),
{
    if entries.len() == 0 {
        Map::empty()
    } else {
        header_object(entries.drop_last()).insert(
            entries.last().0@,
            header_text(entries.last().1),
        )
    }
}

/// The map that a list of name/value pairs denotes, later pairs winning.
pub open spec fn pairs_map(pairs: Seq<(String, String)>) -> Map<Seq<char>, Seq<char>>
    decreases pairs.len(),
{
    if pairs.len() == 0 {
        Map::empty()
    } else {
        pairs_map(pairs.drop_last()).insert(pairs.last().0@, pairs.last().1@)
    }
}

/// No two pairs share a name.
pub open spec fn distinct_names(pairs: Seq<(String, String)>) -> bool {
    forall|i: int, j: int|
        0 <= i < pairs.len() && 0 <= j < pairs.len() && i != j ==> #[trigger] pairs[i].0@
            != #[trigger] pairs[j].0@
}

proof fn lemma_pairs_map_update(pairs: Seq<(String, String)>, j: int, v: String)
    requires
        distinct_names(pairs),
        0 <= j < pairs.len(),
    ensures
        pairs_map(pairs.update(j, (pairs[j].0, v))) == pairs_map(pairs).insert(pairs[j].0@, v@),
    decreases pairs.len(),
{
    let upd = pairs.update(j, (pairs[j].0, v));
    let n = pairs.len();
    if j == n - 1 {
        assert(upd.drop_last() =~= pairs.drop_last());
        assert(pairs_map(upd) =~= pairs_map(pairs).insert(pairs[j].0@, v@));
    } else {
        let init = pairs.drop_last();
        assert(distinct_names(init)) by {
            assert forall|a: int, b: int|
                0 <= a < init.len() && 0 <= b < init.len() && a != b implies #[trigger] init[a].0@
                != #[trigger] init[b].0@ by {
                assert(init[a] == pairs[a]);
                assert(init[b] == pairs[b]);
            }
        }
        lemma_pairs_map_update(init, j, v);
        assert(upd.drop_last() =~= init.update(j, (init[j].0, v)));
        assert(pairs[n - 1].0@ != pairs[j].0@);
        assert(pairs_map(upd) =~= pairs_map(pairs).insert(pairs[j].0@, v@));
    }
}

/// The distinct header names in the order of their first appearance.
pub open spec fn first_names(entries: Seq<(String, Option<String>)>) -> Seq<Seq<char>>
    decreases entries.len(),
{
    if entries.len() == 0 {
        Seq::empty()
    } else {
        let prev = first_names(entries.drop_last());
        if prev.contains(entries.last().0@) {
            prev
        } else {
            prev.push(entries.last().0@)
        }
    }
}

/// The names of a list of pairs, in order.
pub open spec fn pair_names(pairs: Seq<(String, String)>) -> Seq<Seq<char>> {
    pairs.map_values(|p: (String, String)| p.0@)
}

/// The header object as name/value pairs: one pair per distinct name, in
/// the order of the names' first appearance, with the text of the last
/// header of that name.
pub fn headers_to_pairs(entries: &Vec<(String, Option<String>)>) -> (r: Vec<(String, String)>)
    ensures
        distinct_names(r@),
        pair_names(r@) == first_names(entries@),
        pairs_map(r@) == header_object(entries@),
{
    let mut out: Vec<(String, String)> = Vec::new();
    let mut i: usize = 0;
    while i < entries.len()
        invariant
            0 <= i <= entries@.len(),
            distinct_names(out@),
            pair_names(out@) == first_names(entries@.take(i as int)),
            pairs_map(out@) == header_object(entries@.take(i as int)),
        decreases entries@.len() - i,
    {
        let name = entries[i].0.clone();
        let value = match &entries[i].1 {
            Some(v) => v.clone(),
            None => String::from_str("<binary>"),
        };
        assert(value@ == header_text(entries@[i as int].1));
        let mut j: usize = 0;
        let mut found = false;
        while j < out.len()
            invariant_except_break
                !found,
            invariant
                0 <= j <= out@.len(),
                forall|k: int| 0 <= k < j ==> out@[k].0@ != name@,
            ensures
                found ==> j < out@.len() && out@[j as int].0@ == name@,
                !found ==> forall|k: int| 0 <= k < out@.len() ==> out@[k].0@ != name@,
            decreases out@.len() - j,
        {
            if out[j].0 == name {
                found = true;
                break;
            }
            j = j + 1;
        }
        proof {
            let t = entries@.take(i + 1);
            assert(t.drop_last() =~= entries@.take(i as int));
            assert(t.last() == entries@[i as int]);
        }
        if found {
            let ghost before = out@;
            proof {
                lemma_pairs_map_update(before, j as int, value);
                assert(pair_names(before)[j as int] == name@);
                assert(pair_names(before).contains(name@));
            }
            let old_name = out[j].0.clone();
            out.set(j, (old_name, value));
            assert(out@ =~= before.update(j as int, (before[j as int].0, value)));
            assert(pair_names(out@) =~= pair_names(before));
            assert(distinct_names(out@)) by {
                assert forall|a: int, b: int|
                    0 <= a < out@.len() && 0 <= b < out@.len() && a != b implies #[trigger] out@[a].0@
                    != #[trigger] out@[b].0@ by {
                    assert(out@[a].0 == before[a].0);
                    assert(out@[b].0 == before[b].0);
                }
            }
        } else {
            let ghost before = out@;
            proof {
                assert(!pair_names(before).contains(name@)) by {
                    if pair_names(before).contains(name@) {
                        let k = choose|k: int| 0 <= k < pair_names(before).len() && pair_names(before)[k] == name@;
                        assert(before[k].0@ == name@);
                    }
                }
            }
            out.push((name, value));
            assert(out@.drop_last() =~= before);
            assert(pair_names(out@) =~= pair_names(before).push(name@));
            assert(distinct_names(out@)) by {
                assert forall|a: int, b: int|
                    0 <= a < out@.len() && 0 <= b < out@.len() && a != b implies #[trigger] out@[a].0@
                    != #[trigger] out@[b].0@ by {
                    if a < before.len() {
                        assert(out@[a] == before[a]);
                    }
                    if b < before.len() {
                        assert(out@[b] == before[b]);
                    }
                }
            }
        }
        i = i + 1;
    }
    assert(entries@.take(entries@.len() as int) =~= entries@);
    out
}

/// The number of bytes that `c` takes in UTF-8.
pub open spec fn utf8_width(c: char) -> nat {
    if (c as u32) < 0x80 {
        1
    } else if (c as u32) < 0x800 {
        2
    } else if (c as u32) < 0x10000 {
        3
    } else {
        4
    }
}

/// The number of bytes that `s` takes in UTF-8.
pub open spec fn utf8_len(s: Seq<char>) -> nat
    decreases s.len(),
{
    if s.len() == 0 {
        0
    } else {
        utf8_len(s.drop_last()) + utf8_width(s.last())
    }
}

/// Byte offset `b` of `s` falls between two characters.
pub open spec fn is_byte_boundary(s: Seq<char>, b: nat) -> bool {
    exists|k: int| 0 <= k <= s.len() && #[trigger] utf8_len(s.take(k)) == b
}

/// The number of characters that the first `b` bytes of `s` hold, where `b`
/// falls between two characters.
pub open spec fn chars_in_bytes(s: Seq<char>, b: nat) -> int {
    choose|k: int| 0 <= k <= s.len() && #[trigger] utf8_len(s.take(k)) == b
}

proof fn lemma_utf8_len_take_step(s: Seq<char>, k: int)
    requires
        0 <= k < s.len(),
    ensures
        utf8_len(s.take(k + 1)) == utf8_len(s.take(k)) + utf8_width(s[k]),
{
    assert(s.take(k + 1).drop_last() =~= s.take(k));
}

proof fn lemma_utf8_len_take_mono(s: Seq<char>, a: int, b: int)
    requires
        0 <= a < b <= s.len(),
    ensures
        utf8_len(s.take(a)) < utf8_len(s.take(b)),
    decreases b - a,
{
    lemma_utf8_len_take_step(s, b - 1);
    if a < b - 1 {
        lemma_utf8_len_take_mono(s, a, b - 1);
    }
}

proof fn lemma_chars_in_bytes(s: Seq<char>, b: nat, k: int)
    requires
        0 <= k <= s.len(),
        utf8_len(s.take(k)) == b,
    ensures
        chars_in_bytes(s, b) == k,
{
    let c = chars_in_bytes(s, b);
    if c < k {
        lemma_utf8_len_take_mono(s, c, k);
    } else if k < c {
        lemma_utf8_len_take_mono(s, k, c);
    }
}

/// The redaction keeps the first and last four UTF-8 bytes of a long
/// `Bearer` token, so it is defined only where both cuts fall between
/// characters: for a token longer than eight bytes, after its first four
/// bytes and before its last four.
pub open spec fn redaction_defined(value: Seq<char>) -> bool {
    has_prefix(value, "Bearer "@) && utf8_len(value.skip(7)) > 8 ==> {
        let t = value.skip(7);
        is_byte_boundary(t, 4) && is_byte_boundary(t, (utf8_len(t) - 4) as nat)
    }
}

/// The logged form of an `Authorization` value: a `Bearer` token longer than
/// eight bytes keeps only its first and last four bytes around `...`, a
/// shorter one becomes `Bearer [REDACTED]`, and any other value `[REDACTED]`.
pub open spec fn redacted_authorization(value: Seq<char>) -> Seq<char> {
    if has_prefix(value, "Bearer "@) {
        let t = value.skip(7);
        if utf8_len(t) > 8 {
            "Bearer "@ + t.take(chars_in_bytes(t, 4)) + "..."@ + t.skip(
                chars_in_bytes(t, (utf8_len(t) - 4) as nat),
            )
        } else {
            "Bearer [REDACTED]"@
        }
    } else {
        "[REDACTED]"@
    }
}

fn char_width(c: char) -> (r: u8)
    ensures
        r == utf8_width(c),
{
    let u = c as u32;
    if u < 0x80 {
        1
    } else if u < 0x800 {
        2
    } else if u < 0x10000 {
        3
    } else {
        4
    }
}

/// The number of characters at the start of `t` whose UTF-8 bytes add up to
/// at least `b`.
fn chars_before_byte(t: &Vec<char>, b: u128) -> (k: usize)
    requires
        is_byte_boundary(t@, b as nat),
    ensures
        k == chars_in_bytes(t@, b as nat),
{
    let ghost w = chars_in_bytes(t@, b as nat);
    let mut k: usize = 0;
    let mut sum: u128 = 0;
    while k < t.len() && sum < b
        invariant
            0 <= k <= t@.len(),
            sum == utf8_len(t@.take(k as int)),
            sum <= 4 * k,
            t@.len() == t.len(),
            0 <= w <= t@.len(),
            utf8_len(t@.take(w)) == b,
            forall|j: int| 0 <= j < k ==> utf8_len(t@.take(j)) < b,
        decreases t@.len() - k,
    {
        proof {
            lemma_utf8_len_take_step(t@, k as int);
        }
        sum = sum + char_width(t[k]) as u128;
        k = k + 1;
    }
    proof {
        if sum < b {
            // k == len, so every prefix is too short, w included
            assert(utf8_len(t@.take(w)) < b || w == k);
            assert(t@.take(k as int) =~= t@.take(t@.len() as int));
        }
        lemma_chars_in_bytes(t@, b as nat, w);
        if (k as int) < w {
            lemma_utf8_len_take_mono(t@, k as int, w);
        } else if w < (k as int) {
            assert(utf8_len(t@.take(w)) < b);
        }
    }
    k
}

proof fn lemma_utf8_len_bound(s: Seq<char>)
    ensures
        utf8_len(s) <= 4 * s.len(),
    decreases s.len(),
{
    if s.len() > 0 {
        lemma_utf8_len_bound(s.drop_last());
    }
}

/// The logged form of an `Authorization` header value.
pub fn redact_authorization(value: &str) -> (r: String)
    requires
        redaction_defined(value@),
    ensures
        r@ == redacted_authorization(value@),
{
    let v = to_chars(value);
    let prefix = to_chars("Bearer ");
    proof {
        reveal_strlit("Bearer ");
    }
    let is_bearer = matches_at(&v, 0, &prefix);
    proof {
        assert(v@.take(7) =~= v@.subrange(0, 7));
    }
    if !is_bearer {
        return String::from_str("[REDACTED]");
    }
    let mut t: Vec<char> = Vec::new();
    let mut i: usize = 7;
    while i < v.len()
        invariant
            7 <= i <= v@.len(),
            t@ == v@.subrange(7, i as int),
        decreases v@.len() - i,
    {
        t.push(v[i]);
        assert(t@ =~= v@.subrange(7, i + 1));
        i = i + 1;
    }
    assert(t@ =~= v@.skip(7));
    // total byte length of the token
    let mut total: u128 = 0;
    let mut k: usize = 0;
    while k < t.len()
        invariant
            0 <= k <= t@.len(),
            t@.len() == t.len(),
            total == utf8_len(t@.take(k as int)),
            total <= 4 * k,
        decreases t@.len() - k,
    {
        proof {
            lemma_utf8_len_take_step(t@, k as int);
        }
        total = total + char_width(t[k]) as u128;
        k = k + 1;
    }
    assert(t@.take(t@.len() as int) =~= t@);
    if total <= 8 {
        return String::from_str("Bearer [REDACTED]");
    }
    let head = chars_before_byte(&t, 4);
    let tail = chars_before_byte(&t, total - 4);
    let mut r = String::from_str("Bearer ");
    push_chars(&mut r, &t, 0, head);
    push_str(&mut r, "...");
    push_chars(&mut r, &t, tail, t.len());
    proof {
        assert(t@.subrange(0, head as int) =~= t@.take(head as int));
        assert(t@.subrange(tail as int, t@.len() as int) =~= t@.skip(tail as int));
    }
    r
}

/// The headers as logged: the value under the exact name `authorization` is
/// redacted, every other pair is kept.
pub open spec fn redacted_pair(p: (String, String)) -> Seq<char> {
    if p.0@ == "authorization"@ {
        redacted_authorization(p.1@)
    } else {
        p.1@
    }
}

/// The header pairs with the `authorization` value redacted.
pub fn redact_headers(headers: &Vec<(String, String)>) -> (r: Vec<(String, String)>)
    requires
        forall|i: int|
            0 <= i < headers@.len() && (#[trigger] headers@[i]).0@ == "authorization"@
                ==> redaction_defined(headers@[i].1@),
    ensures
        r@.len() == headers@.len(),
        forall|i: int|
            0 <= i < r@.len() ==> (#[trigger] r@[i]).0@ == headers@[i].0@ && r@[i].1@
                == redacted_pair(headers@[i]),
{
    let mut out: Vec<(String, String)> = Vec::new();
    let mut i: usize = 0;
    while i < headers.len()
        invariant
            0 <= i <= headers@.len(),
            out@.len() == i,
            forall|j: int|
                0 <= j < headers@.len() && (#[trigger] headers@[j]).0@ == "authorization"@
                    ==> redaction_defined(headers@[j].1@),
            forall|j: int|
                0 <= j < i ==> (#[trigger] out@[j]).0@ == headers@[j].0@ && out@[j].1@
                    == redacted_pair(headers@[j]),
        decreases headers@.len() - i,
    {
        let name = headers[i].0.clone();
        let is_auth = crate::text::str_eq(name.as_str(), "authorization");
        let value = if is_auth {
            redact_authorization(headers[i].1.as_str())
        } else {
            headers[i].1.clone()
        };
        out.push((name, value));
        i = i + 1;
    }
    out
}

/// The RFC 3339 text that `chrono` writes for the UTC time `secs` seconds
/// and `nanos` nanoseconds after the Unix epoch, or `None` where
/// `chrono::DateTime::from_timestamp` has no such time.
pub uninterp spec fn utc_rfc3339(secs: i64, nanos: u32) -> Option<Seq<char>>;

/// Whether a time is written by `to_rfc3339` in the form that
/// `parse_from_rfc3339` reads: a nanosecond part below one second (no leap
/// second) and a year from 0 to 9999, which `to_rfc3339` writes with four
/// digits (other years get a sign and more digits).
pub open spec fn rfc3339_round_trips(secs: i64, nanos: u32) -> bool {
    &&& nanos < 1_000_000_000
    &&& -62_167_219_200 <= secs <= 253_402_300_799
}

/// Calls `chrono::DateTime::from_timestamp(secs, nanos)` and writes the time
/// with `to_rfc3339`; the outcome is named `utc_rfc3339`. The text's shape
/// is not stated. Of the times in years 0 to 9999 without a leap second, the
/// source shows that `from_timestamp` has them and that the text, written as
/// `YYYY-MM-DDTHH:MM:SS`, a fraction where the nanoseconds are not zero, and
/// `+00:00`, is read back by `parse_from_rfc3339` as the same second.
#[verifier::external_body]
fn rfc3339_of(secs: i64, nanos: u32) -> (r: Option<String>)
    ensures
        r is None <==> utc_rfc3339(secs, nanos) is None,
        r matches Some(t) ==> utc_rfc3339(secs, nanos) == Some(t@),
        rfc3339_round_trips(secs, nanos) ==> r is Some && rfc3339_seconds(r->0@) == Some(secs),
{
    chrono::DateTime::from_timestamp(secs, nanos).map(|d| d.to_rfc3339())
}

/// The timestamp written into a transaction's log entry for the time at
/// which it is logged; `None` where chrono has no such time. For a time in
/// years 0 to 9999 the text is there, and metrics read it back as the same
/// Unix second.
pub fn log_timestamp(secs: i64, nanos: u32) -> (r: Option<String>)
    ensures
        r is None <==> utc_rfc3339(secs, nanos) is None,
        r matches Some(t) ==> utc_rfc3339(secs, nanos) == Some(t@),
        rfc3339_round_trips(secs, nanos) ==> r is Some && rfc3339_seconds(r->0@) == Some(secs),
{
    rfc3339_of(secs, nanos)
}

/// The name of the log file of a transaction: `log/tx_<timestamp>_<id>.json`
/// with every `:` of the timestamp written as `-`.
pub open spec fn log_file_name_spec(timestamp: Seq<char>, id: Seq<char>) -> Seq<char> {
    "log/tx_"@ + timestamp.map_values(|c: char| if c == ':' { '-' } else { c }) + seq!['_']
        + id + ".json"@
}

/// The path of the log file for a transaction logged at `timestamp`.
pub fn log_file_name(timestamp: &str, id: &str) -> (r: String)
    ensures
        r@ == log_file_name_spec(timestamp@, id@),
{
    let ts = to_chars(timestamp);
    let mut r = String::from_str("log/tx_");
    let ghost start = r@;
    let mut i: usize = 0;
    while i < ts.len()
        invariant
            0 <= i <= ts@.len(),
            r@ == start + ts@.take(i as int).map_values(
                |c: char|
                    if c == ':' {
                        '-'
                    } else {
                        c
                    },
            ),
        decreases ts@.len() - i,
    {
        let c = ts[i];
        if c == ':' {
            push_char(&mut r, '-');
        } else {
            push_char(&mut r, c);
        }
        assert(ts@.take(i + 1).map_values(|c: char| if c == ':' { '-' } else { c })
            =~= ts@.take(i as int).map_values(|c: char| if c == ':' { '-' } else { c }).push(
            if c == ':' {
                '-'
            } else {
                c
            },
        ));
        i = i + 1;
    }
    assert(ts@.take(ts@.len() as int) =~= ts@);
    push_char(&mut r, '_');
    push_str(&mut r, id);
    push_str(&mut r, ".json");
    r
}

/// A transaction's log file is the one a lookup by the transaction's id
/// finds: its name ends in `_<id>.json`.
pub proof fn logged_file_found_by_id(timestamp: Seq<char>, id: Seq<char>)
    ensures
        has_suffix(log_file_name_spec(timestamp, id), tx_file_suffix_spec(id)),
{
    let name = log_file_name_spec(timestamp, id);
    let suffix = tx_file_suffix_spec(id);
    let front = "log/tx_"@ + timestamp.map_values(|c: char| if c == ':' { '-' } else { c });
    assert(name =~= front + suffix);
    assert(name.skip(name.len() - suffix.len()) =~= suffix);
}

/// A transaction's log file has the extension `json`, so the listings,
/// which skip every other file, include it.
pub proof fn logged_file_is_listed(timestamp: Seq<char>, id: Seq<char>)
    ensures
        has_json_extension_spec(log_file_name_spec(timestamp, id)),
{
    reveal_strlit(".json");
    reveal_strlit("json");
    let name = log_file_name_spec(timestamp, id);
    let i = name.len() - 5;
    assert(name.skip(name.len() - 5) =~= ".json"@);
    assert(name[i] == '.');
    assert(name.skip(i + 1) =~= "json"@);
    assert(!"json"@.contains('.'));
    assert(0 < i);
}

proof fn lemma_utf8_len_concat(a: Seq<char>, b: Seq<char>)
    ensures
        utf8_len(a + b) == utf8_len(a) + utf8_len(b),
    decreases b.len(),
{
    if b.len() > 0 {
        lemma_utf8_len_concat(a, b.drop_last());
        assert((a + b).drop_last() =~= a + b.drop_last());
        assert((a + b).last() == b.last());
    } else {
        assert(a + b =~= a);
    }
}

proof fn lemma_utf8_len_ascii(s: Seq<char>)
    requires
        forall|i: int| 0 <= i < s.len() ==> (#[trigger] s[i] as u32) < 0x80,
    ensures
        utf8_len(s) == s.len(),
    decreases s.len(),
{
    if s.len() > 0 {
        lemma_utf8_len_ascii(s.drop_last());
    }
}

/// A logged `Authorization` value never takes more than 18 bytes, whatever
/// token it held: the token itself is never written out.
pub proof fn redacted_authorization_is_short(value: Seq<char>)
    requires
        redaction_defined(value),
    ensures
        utf8_len(redacted_authorization(value)) <= 18,
{
    reveal_strlit("Bearer ");
    reveal_strlit("...");
    reveal_strlit("Bearer [REDACTED]");
    reveal_strlit("[REDACTED]");
    lemma_utf8_len_ascii("Bearer "@);
    lemma_utf8_len_ascii("..."@);
    lemma_utf8_len_ascii("Bearer [REDACTED]"@);
    lemma_utf8_len_ascii("[REDACTED]"@);
    if has_prefix(value, "Bearer "@) {
        let t = value.skip(7);
        if utf8_len(t) > 8 {
            let h = chars_in_bytes(t, 4);
            let k = chars_in_bytes(t, (utf8_len(t) - 4) as nat);
            assert(utf8_len(t.take(h)) == 4);
            assert(utf8_len(t.take(k)) == utf8_len(t) - 4);
            assert(t =~= t.take(k) + t.skip(k));
            lemma_utf8_len_concat(t.take(k), t.skip(k));
            lemma_utf8_len_concat("Bearer "@, t.take(h));
            lemma_utf8_len_concat("Bearer "@ + t.take(h), "..."@);
            lemma_utf8_len_concat("Bearer "@ + t.take(h) + "..."@, t.skip(k));
        }
    }
}

} // verus!
