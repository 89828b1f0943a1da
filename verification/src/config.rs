//! Validating a configuration.
//!
//! Reading the configuration file is the caller's business; this module
//! receives the raw field values (each present or absent) and builds the
//! validated [`Config`] the monitor runs with:
//!
//! * `identifier`, `notification_target` and `sites` are required — a
//!   missing one is a fatal [`ConfigError`];
//! * the endpoint list is the space-separated words of `sites`, empty words
//!   skipped and duplicates collapsed keeping the first occurrence; an empty
//!   list is as fatal as a missing one;
//! * `interval` and `retry_threshold` are optional and fall back to their
//!   defaults (90 seconds and 5 cycles) when absent, unparseable, zero or
//!   out of range.

use vstd::prelude::*;

verus! {

/// A validated monitor configuration, immutable for the process lifetime.
pub struct Config {
    /// Seconds between two probe cycles; always positive.
    pub interval: u64,
    /// The monitor's name, used in notification text.
    pub identifier: String,
    /// Where notifications are delivered (a webhook URL); opaque here.
    pub notification_target: String,
    /// The monitored endpoints, in configuration order, duplicates removed.
    pub endpoints: Vec<String>,
    /// Consecutive `Down` cycles required before alerting; always positive.
    pub retry_threshold: u64,
}

impl Config {
    /// The shape every configuration built here has: positive timing
    /// parameters and a non-empty list of non-empty, pairwise-distinct
    /// endpoints.
    pub open spec fn wf(&self) -> bool {
        &&& 1 <= self.interval
        &&& 1 <= self.retry_threshold
        &&& self.endpoints.len() > 0
        &&& forall|i: int| 0 <= i < self.endpoints.len() ==> self.endpoints[i]@.len() > 0
        &&& forall|i: int, j: int|
            0 <= i < j < self.endpoints.len() ==> self.endpoints[i]@ != self.endpoints[j]@
    }
}

/// Why a configuration was rejected. Each variant names the first required
/// field found missing, checked in declaration order.
#[derive(Clone, Copy, Debug, PartialEq, Eq, Structural)]
pub enum ConfigError {
    MissingIdentifier,
    MissingNotificationTarget,
    MissingEndpoints,
}

/// Whether `s` is a non-empty string of decimal digits.
pub open spec fn is_decimal(s: Seq<char>) -> bool {
    s.len() > 0 && forall|j: int| 0 <= j < s.len() ==> 48 <= #[trigger] s[j] as int <= 57
}

/// The number a string of decimal digits denotes.
pub open spec fn decimal_value(s: Seq<char>) -> nat
    decreases s.len(),
{
    if s.len() == 0 {
        0
    } else {
        (decimal_value(s.drop_last()) * 10 + (s.last() as int - 48)) as nat
    }
}

/// The value of a prefix of a digit string never exceeds the whole.
proof fn lemma_decimal_prefix_le(s: Seq<char>, k: int)
    requires
        0 <= k <= s.len(),
        forall|j: int| 0 <= j < s.len() ==> 48 <= #[trigger] s[j] as int <= 57,
    ensures
        decimal_value(s.take(k)) <= decimal_value(s),
    decreases s.len() - k,
{
    if k == s.len() {
        assert(s.take(k) =~= s);
    } else {
        assert(s.take(k + 1).drop_last() =~= s.take(k));
        lemma_decimal_prefix_le(s, k + 1);
    }
}

/// Parse a non-empty all-digit string as a number; `None` when the string
/// is not such a string or the value does not fit in a `u64`.
pub fn parse_u64(s: &str) -> (r: Option<u64>)
    ensures
        match r {
            Some(v) => is_decimal(s@) && v == decimal_value(s@),
            None => !is_decimal(s@) || decimal_value(s@) > u64::MAX,
        },
{
    let n = s.unicode_len();
    if n == 0 {
        return None;
    }
    let mut acc: u64 = 0;
    let mut i: usize = 0;
    while i < n
        invariant
            0 < n == s@.len(),
            0 <= i <= n,
            forall|j: int| 0 <= j < i ==> 48 <= #[trigger] s@[j] as int <= 57,
            acc == decimal_value(s@.take(i as int)),
        decreases n - i,
    {
        let c = s.get_char(i);
        let u = c as u32;
        if u < 48 || u > 57 {
            return None;
        }
        let d = (u - 48) as u64;
        proof {
            assert(s@.take(i + 1).drop_last() =~= s@.take(i as int));
        }
        if acc > 1844674407370955161u64 || (acc == 1844674407370955161u64 && d > 5) {
            proof {
                assert(decimal_value(s@.take(i + 1)) > u64::MAX);
                if is_decimal(s@) {
                    lemma_decimal_prefix_le(s@, i + 1);
                }
            }
            return None;
        }
        acc = acc * 10 + d;
        i = i + 1;
    }
    proof {
        assert(s@.take(n as int) =~= s@);
    }
    Some(acc)
}

/// The words remaining in `s` from position `i` on, `cur` being the partial
/// word read so far: words are the maximal runs of non-space characters,
/// so empty runs between spaces contribute nothing.
pub open spec fn split_from(s: Seq<char>, i: int, cur: Seq<char>) -> Seq<Seq<char>>
    decreases s.len() - i,
{
    if i < 0 || i >= s.len() {
        if cur.len() == 0 {
            Seq::empty()
        } else {
            seq![cur]
        }
    } else if s[i] == ' ' {
        if cur.len() == 0 {
            split_from(s, i + 1, Seq::empty())
        } else {
            seq![cur] + split_from(s, i + 1, Seq::empty())
        }
    } else {
        split_from(s, i + 1, cur.push(s[i]))
    }
}

/// The space-separated words of `s`, in order, empty words skipped.
pub open spec fn space_words(s: Seq<char>) -> Seq<Seq<char>> {
    split_from(s, 0, Seq::empty())
}

/// `ws` with every repetition of an earlier element removed: the first
/// occurrence of each element survives, in its original position order.
pub open spec fn dedup_keep_first(ws: Seq<Seq<char>>) -> Seq<Seq<char>>
    decreases ws.len(),
{
    if ws.len() == 0 {
        Seq::empty()
    } else if ws.drop_last().contains(ws.last()) {
        dedup_keep_first(ws.drop_last())
    } else {
        dedup_keep_first(ws.drop_last()).push(ws.last())
    }
}

/// Every word split off is non-empty: only maximal runs of non-space
/// characters are emitted, never the empty runs between spaces.
pub proof fn lemma_words_nonempty(s: Seq<char>, i: int, cur: Seq<char>, k: int)
    requires
        0 <= k < split_from(s, i, cur).len(),
    ensures
        split_from(s, i, cur)[k].len() > 0,
    decreases s.len() - i,
{
    if i < 0 || i >= s.len() {
    } else if s[i] == ' ' {
        if cur.len() == 0 {
            lemma_words_nonempty(s, i + 1, Seq::empty(), k);
        } else if k > 0 {
            lemma_words_nonempty(s, i + 1, Seq::empty(), k - 1);
        }
    } else {
        lemma_words_nonempty(s, i + 1, cur.push(s[i]), k);
    }
}

/// Deduplication leaves no element twice.
pub proof fn lemma_dedup_no_repeats(ws: Seq<Seq<char>>)
    ensures
        forall|i: int, j: int|
            0 <= i < j < dedup_keep_first(ws).len() ==> dedup_keep_first(ws)[i]
                != dedup_keep_first(ws)[j],
    decreases ws.len(),
{
    if ws.len() > 0 {
        lemma_dedup_no_repeats(ws.drop_last());
        let d = dedup_keep_first(ws.drop_last());
        if !ws.drop_last().contains(ws.last()) {
            assert forall|i: int, j: int|
                0 <= i < j < dedup_keep_first(ws).len() implies dedup_keep_first(ws)[i]
                != dedup_keep_first(ws)[j] by {
                if j == d.len() {
                    if d[i] == ws.last() {
                        lemma_dedup_same_elements(ws.drop_last(), ws.last());
                        assert(d.contains(ws.last()));
                    }
                }
            }
        }
    }
}

/// Deduplication keeps exactly the elements that were there.
pub proof fn lemma_dedup_same_elements(ws: Seq<Seq<char>>, x: Seq<char>)
    ensures
        dedup_keep_first(ws).contains(x) <==> ws.contains(x),
    decreases ws.len(),
{
    if ws.len() > 0 {
        lemma_dedup_same_elements(ws.drop_last(), x);
        let d = dedup_keep_first(ws.drop_last());
        assert(ws.drop_last().contains(x) ==> ws.contains(x)) by {
            if ws.drop_last().contains(x) {
                let i = choose|i: int| 0 <= i < ws.drop_last().len() && ws.drop_last()[i] == x;
                assert(ws[i] == x);
            }
        }
        assert(ws.contains(x) && x != ws.last() ==> ws.drop_last().contains(x)) by {
            if ws.contains(x) && x != ws.last() {
                let i = choose|i: int| 0 <= i < ws.len() && ws[i] == x;
                assert(ws.drop_last()[i] == x);
            }
        }
        if ws.drop_last().contains(ws.last()) {
            assert(dedup_keep_first(ws) == d);
        } else {
            assert(dedup_keep_first(ws) == d.push(ws.last()));
            assert(d.contains(x) ==> d.push(ws.last()).contains(x)) by {
                if d.contains(x) {
                    let i = choose|i: int| 0 <= i < d.len() && d[i] == x;
                    assert(d.push(ws.last())[i] == x);
                }
            }
            assert(x == ws.last() ==> d.push(ws.last()).contains(x)) by {
                assert(d.push(ws.last())[d.len() as int] == ws.last());
            }
            assert(d.push(ws.last()).contains(x) ==> ws.contains(x)) by {
                if d.push(ws.last()).contains(x) {
                    let i = choose|i: int|
                        0 <= i < d.push(ws.last()).len() && d.push(ws.last())[i] == x;
                    if i == d.len() {
                        assert(ws[ws.len() - 1] == x);
                    } else {
                        assert(d[i] == x);
                    }
                }
            }
        }
    }
}

/// Whether one of the strings in `v` has the characters of `x`.
fn contains_string(v: &Vec<String>, x: &String) -> (found: bool)
    ensures
        found == v@.map_values(|w: String| w@).contains(x@),
{
    let ghost ws = v@.map_values(|w: String| w@);
    let mut j: usize = 0;
    while j < v.len()
        invariant
            0 <= j <= v.len(),
            ws == v@.map_values(|w: String| w@),
            ws.len() == v.len(),
            forall|k: int| 0 <= k < j ==> ws[k] != x@,
        decreases v.len() - j,
    {
        if v[j].eq(x) {
            assert(ws[j as int] == x@);
            return true;
        }
        j = j + 1;
    }
    false
}

/// Split `s` into its space-separated words, in order of first appearance,
/// dropping empty words and every repetition of an earlier word.
pub fn site_list(s: &str) -> (sites: Vec<String>)
    ensures
        sites@.map_values(|w: String| w@) == dedup_keep_first(space_words(s@)),
{
    let words = split_spaces(s);
    dedup_strings(words)
}

/// Split `s` into its space-separated words, empty words skipped.
pub fn split_spaces(s: &str) -> (words: Vec<String>)
    ensures
        words@.map_values(|w: String| w@) == space_words(s@),
{
    let n = s.unicode_len();
    let mut out: Vec<String> = Vec::new();
    let ghost mut emitted: Seq<Seq<char>> = Seq::empty();
    let mut start: usize = 0;
    let mut i: usize = 0;
    proof {
        assert(s@.subrange(0, 0) =~= Seq::<char>::empty());
        assert(Seq::<Seq<char>>::empty() + split_from(s@, 0, Seq::<char>::empty()) =~= split_from(
            s@,
            0,
            Seq::<char>::empty(),
        ));
    }
    while i < n
        invariant
            n == s@.len(),
            0 <= start <= i <= n,
            out@.len() == emitted.len(),
            forall|k: int| 0 <= k < emitted.len() ==> out@[k]@ == emitted[k],
            space_words(s@) == emitted + split_from(s@, i as int, s@.subrange(
                start as int,
                i as int,
            )),
        decreases n - i,
    {
        let ghost cur = s@.subrange(start as int, i as int);
        let c = s.get_char(i);
        if c == ' ' {
            if start < i {
                let word = s.substring_char(start, i).to_owned();
                out.push(word);
                proof {
                    emitted = emitted.push(cur);
                    assert((emitted.drop_last() + (seq![cur] + split_from(
                        s@,
                        i + 1,
                        Seq::empty(),
                    ))) =~= emitted + split_from(s@, i + 1, Seq::empty()));
                }
            }
            start = i + 1;
            proof {
                assert(s@.subrange(start as int, i + 1) =~= Seq::<char>::empty());
            }
        } else {
            proof {
                assert(s@.subrange(start as int, i + 1) =~= cur.push(s@[i as int]));
            }
        }
        i = i + 1;
    }
    if start < n {
        let word = s.substring_char(start, n).to_owned();
        out.push(word);
        proof {
            emitted = emitted.push(s@.subrange(start as int, n as int));
        }
    }
    proof {
        assert(space_words(s@) =~= emitted);
        assert(out@.map_values(|w: String| w@) =~= emitted);
    }
    out
}

/// Remove from `words` every repetition of an earlier word, keeping first
/// occurrences in order.
pub fn dedup_strings(words: Vec<String>) -> (out: Vec<String>)
    ensures
        out@.map_values(|w: String| w@) == dedup_keep_first(words@.map_values(|w: String| w@)),
{
    let ghost ws = words@.map_values(|w: String| w@);
    let mut out: Vec<String> = Vec::new();
    let mut i: usize = 0;
    while i < words.len()
        invariant
            0 <= i <= words.len(),
            ws == words@.map_values(|w: String| w@),
            ws.len() == words.len(),
            out@.map_values(|w: String| w@) == dedup_keep_first(ws.take(i as int)),
        decreases words.len() - i,
    {
        proof {
            assert(ws.take(i + 1).drop_last() =~= ws.take(i as int));
            assert(ws.take(i + 1).last() == ws[i as int]);
            lemma_dedup_same_elements(ws.take(i as int), ws[i as int]);
        }
        let w = words[i].clone();
        assert(w@ == ws[i as int]);
        if !contains_string(&out, &w) {
            out.push(w);
            proof {
                assert(out@.map_values(|w: String| w@) =~= dedup_keep_first(ws.take(i + 1)));
            }
        }
        i = i + 1;
    }
    proof {
        assert(ws.take(words.len() as int) =~= ws);
    }
    out
}

/// The effective value of an optional numeric field: the denoted number
/// when it is present, all digits, positive and fits in a `u64`; the
/// field's default otherwise.
pub open spec fn positive_or_default(raw: Option<Seq<char>>, default: u64) -> u64 {
    if raw is Some && is_decimal(raw->Some_0) && 1 <= decimal_value(raw->Some_0) <= u64::MAX {
        decimal_value(raw->Some_0) as u64
    } else {
        default
    }
}

/// The view of an optional raw field value.
pub open spec fn raw_view(raw: Option<String>) -> Option<Seq<char>> {
    match raw {
        Some(s) => Some(s@),
        None => None,
    }
}

/// Resolve an optional numeric field to its effective value.
pub fn parse_positive_or(raw: Option<String>, default: u64) -> (v: u64)
    ensures
        v == positive_or_default(raw_view(raw), default),
{
    match raw {
        Some(s) => {
            match parse_u64(s.as_str()) {
                Some(x) => {
                    if x >= 1 {
                        x
                    } else {
                        default
                    }
                },
                None => default,
            }
        },
        None => default,
    }
}

/// Build the validated configuration from the raw field values of the
/// configuration source, each present or absent.
///
/// Fails on the first required field found missing, in the order
/// identifier, notification target, endpoints; an endpoint list with no
/// words counts as missing. The optional numeric fields never fail: an
/// absent, malformed, zero or oversized value falls back to the default
/// (90 seconds between cycles, 5 confirming cycles before alerting).
pub fn build_config(
    interval: Option<String>,
    identifier: Option<String>,
    notification_target: Option<String>,
    sites: Option<String>,
    retry_threshold: Option<String>,
) -> (r: Result<Config, ConfigError>)
    ensures
        match r {
            Ok(c) => {
                &&& identifier is Some && c.identifier@ == identifier->Some_0@
                &&& notification_target is Some && c.notification_target@
                    == notification_target->Some_0@
                &&& sites is Some && c.endpoints@.map_values(|w: String| w@) == dedup_keep_first(
                    space_words(sites->Some_0@),
                )
                &&& c.endpoints.len() > 0
                &&& c.interval == positive_or_default(raw_view(interval), 90)
                &&& c.retry_threshold == positive_or_default(raw_view(retry_threshold), 5)
                &&& 1 <= c.interval
                &&& 1 <= c.retry_threshold
                &&& c.wf()
            },
            Err(e) => match e {
                ConfigError::MissingIdentifier => identifier is None,
                ConfigError::MissingNotificationTarget => identifier is Some
                    && notification_target is None,
                ConfigError::MissingEndpoints => identifier is Some && notification_target is Some
                    && (sites is None || dedup_keep_first(space_words(sites->Some_0@)).len() == 0),
            },
        },
{
    let identifier = match identifier {
        Some(s) => s,
        None => { return Err(ConfigError::MissingIdentifier) },
    };
    let notification_target = match notification_target {
        Some(s) => s,
        None => { return Err(ConfigError::MissingNotificationTarget) },
    };
    let sites = match sites {
        Some(s) => s,
        None => { return Err(ConfigError::MissingEndpoints) },
    };
    let endpoints = site_list(sites.as_str());
    if endpoints.len() == 0 {
        return Err(ConfigError::MissingEndpoints);
    }
    proof {
        let all = space_words(sites@);
        let kept = dedup_keep_first(all);
        lemma_dedup_no_repeats(all);
        assert forall|k: int| 0 <= k < endpoints.len() implies endpoints[k]@.len() > 0 by {
            assert(endpoints@.map_values(|w: String| w@)[k] == kept[k]);
            assert(kept.contains(kept[k]));
            lemma_dedup_same_elements(all, kept[k]);
            let m = choose|m: int| 0 <= m < all.len() && all[m] == kept[k];
            lemma_words_nonempty(sites@, 0, Seq::empty(), m);
        }
        assert forall|i: int, j: int|
            0 <= i < j < endpoints.len() implies endpoints[i]@ != endpoints[j]@ by {
            assert(endpoints@.map_values(|w: String| w@)[i] == kept[i]);
            assert(endpoints@.map_values(|w: String| w@)[j] == kept[j]);
        }
    }
    let interval = parse_positive_or(interval, 90);
    let retry_threshold = parse_positive_or(retry_threshold, 5);
    Ok(Config { interval, identifier, notification_target, endpoints, retry_threshold })
}

} // verus!
