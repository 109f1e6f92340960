//! Request helpers: list normalisation, cache keys, rate-limit keys,
//! Minecraft version validation and cache lifetimes.

use vstd::prelude::*;
use vstd::relations::sorted_by;
use crate::config::{
    MINECRAFT_THURSDAY_TTL, MINECRAFT_TUESDAY_TTL, MINECRAFT_WEDNESDAY_TTL, str_texts,
};
use crate::order::{lemma_text_order, text_le, text_le_exec, text_leq_rel};
use crate::text::{
    ascii_lower_exec, ascii_lowercase, chars_of, join_with, lemma_split_all_len, owned, push_all,
    push_char, split_all, string_of, trim, trim_chars,
};
use crate::versioning::texts;

verus! {

broadcast use {vstd::string::group_string_axioms, vstd::seq_lib::group_to_multiset_ensures};

// ---------------------------------------------------------------------------
// Lists.
// ---------------------------------------------------------------------------

/// The trimmed, non-empty items of a comma-separated list, in order.
pub open spec fn comma_items(raw: Seq<char>) -> Seq<Seq<char>> {
    split_all(raw, ',').map_values(|f: Seq<char>| trim(f)).filter(|f: Seq<char>| f.len() > 0)
}

/// What `normalize_list` returns: the items of `input` (or, without
/// input, the defaults) with later duplicates left out.
pub open spec fn normalized(input: Option<Seq<char>>, defaults: Seq<Seq<char>>) -> Seq<Seq<char>> {
    match input {
        Some(raw) => comma_items(raw),
        None => defaults,
    }.remove_duplicates(seq![])
}

/// The trimmed, non-empty items of a comma-separated list.
fn comma_items_exec(raw: &str) -> (out: Vec<String>)
    ensures
        texts(out@) == comma_items(raw@),
{
    let cs = chars_of(raw);
    let n = cs.len();
    let mut out: Vec<String> = Vec::new();
    let mut start: usize = 0;
    let mut i: usize = 0;
    let ghost nonempty = |f: Seq<char>| f.len() > 0;
    let ghost trimf = |f: Seq<char>| trim(f);
    proof {
        assert(cs@.take(0) =~= Seq::<char>::empty());
        assert(split_all(cs@.take(0), ',').drop_last() =~= Seq::<Seq<char>>::empty());
        assert(Seq::<Seq<char>>::empty().map_values(trimf) =~= Seq::<Seq<char>>::empty());
        assert(Seq::<Seq<char>>::empty().filter(nonempty) =~= Seq::<Seq<char>>::empty()) by {
            reveal(Seq::filter);
        }
        assert(texts(out@) =~= Seq::<Seq<char>>::empty());
        assert(cs@.subrange(0, 0) =~= Seq::<char>::empty());
    }
    while i < n
        invariant
            n == cs@.len(),
            cs@ == raw@,
            start <= i <= n,
            nonempty == (|f: Seq<char>| f.len() > 0),
            trimf == (|f: Seq<char>| trim(f)),
            split_all(cs@.take(i as int), ',').len() >= 1,
            split_all(cs@.take(i as int), ',').last() == cs@.subrange(start as int, i as int),
            texts(out@) == split_all(cs@.take(i as int), ',').drop_last().map_values(trimf).filter(
                nonempty,
            ),
        decreases n - i,
    {
        let ghost f = split_all(cs@.take(i as int), ',');
        let ghost pre = cs@.take(i as int + 1);
        proof {
            assert(pre.drop_last() =~= cs@.take(i as int));
            assert(pre.last() == cs@[i as int]);
        }
        if cs[i] == ',' {
            let field = &cs[start..i];
            let t = trim_chars(field);
            proof {
                assert(f.push(seq![]).drop_last() =~= f);
                assert(f.map_values(trimf) =~= f.drop_last().map_values(trimf).push(trim(f.last())));
                f.drop_last().map_values(trimf).lemma_filter_push(trim(f.last()), nonempty);
            }
            if t.len() > 0 {
                let ghost before = texts(out@);
                out.push(string_of(t.as_slice()));
                assert(texts(out@) =~= before.push(t@));
            }
            start = i + 1;
            proof {
                assert(cs@.subrange(start as int, i as int + 1) =~= Seq::<char>::empty());
            }
        } else {
            proof {
                let g = f.update(f.len() - 1, f.last().push(cs@[i as int]));
                assert(g.drop_last() =~= f.drop_last());
                assert(cs@.subrange(start as int, i as int + 1) =~= f.last().push(cs@[i as int]));
            }
        }
        i = i + 1;
    }
    let field = &cs[start..n];
    let t = trim_chars(field);
    let ghost f = split_all(cs@.take(n as int), ',');
    proof {
        assert(cs@.take(n as int) =~= raw@);
        assert(f =~= f.drop_last().push(f.last()));
        assert(f.map_values(trimf) =~= f.drop_last().map_values(trimf).push(trim(f.last())));
        f.drop_last().map_values(trimf).lemma_filter_push(trim(f.last()), nonempty);
    }
    if t.len() > 0 {
        let ghost before = texts(out@);
        out.push(string_of(t.as_slice()));
        assert(texts(out@) =~= before.push(t@));
    }
    out
}

/// Whether `out` holds a string equal to `v`.
fn holds_text(out: &Vec<String>, v: &String) -> (r: bool)
    ensures
        r == texts(out@).contains(v@),
{
    let mut i: usize = 0;
    while i < out.len()
        invariant
            i <= out@.len(),
            forall|j: int| 0 <= j < i ==> texts(out@)[j] != v@,
        decreases out@.len() - i,
    {
        if out[i] == *v {
            assert(texts(out@)[i as int] == v@);
            return true;
        }
        i = i + 1;
    }
    false
}

/// `values` without later duplicates, in the order of first appearance.
pub fn unique_preserving_order(values: Vec<String>) -> (out: Vec<String>)
    ensures
        texts(out@) == texts(values@).remove_duplicates(seq![]),
{
    let mut out: Vec<String> = Vec::new();
    let mut i: usize = 0;
    let ghost all = texts(values@);
    assert(all.skip(0) =~= all);
    assert(texts(out@) =~= Seq::<Seq<char>>::empty());
    while i < values.len()
        invariant
            i <= values@.len(),
            all == texts(values@),
            all.remove_duplicates(seq![]) == all.skip(i as int).remove_duplicates(texts(out@)),
        decreases values@.len() - i,
    {
        let ghost rest = all.skip(i as int);
        assert(rest.skip(1) =~= all.skip(i as int + 1));
        assert(rest[0] == values@[i as int]@);
        if !holds_text(&out, &values[i]) {
            let ghost before = texts(out@);
            out.push(values[i].clone());
            assert(texts(out@) =~= before + seq![rest[0]]);
        }
        i = i + 1;
    }
    assert(all.skip(i as int) =~= Seq::<Seq<char>>::empty());
    out
}

/// The items of `input` split at commas, trimmed, without empty items and
/// without later duplicates; without input, the defaults without later
/// duplicates.
pub fn normalize_list(input: Option<&str>, defaults: &[&str]) -> (out: Vec<String>)
    ensures
        texts(out@) == normalized(
            match input {
                Some(raw) => Some(raw@),
                None => None,
            },
            str_texts(defaults@),
        ),
{
    let values: Vec<String> = match input {
        Some(raw) => comma_items_exec(raw),
        None => {
            let mut v: Vec<String> = Vec::new();
            let mut i: usize = 0;
            while i < defaults.len()
                invariant
                    i <= defaults@.len(),
                    texts(v@) == str_texts(defaults@).take(i as int),
                decreases defaults@.len() - i,
            {
                let ghost before = texts(v@);
                v.push(owned(defaults[i]));
                assert(texts(v@) =~= before.push(defaults@[i as int]@));
                assert(str_texts(defaults@).take(i as int + 1) =~= str_texts(defaults@).take(
                    i as int,
                ).push(defaults@[i as int]@));
                i = i + 1;
            }
            assert(str_texts(defaults@).take(i as int) =~= str_texts(defaults@));
            v
        },
    };
    unique_preserving_order(values)
}

} // verus!

verus! {

// ---------------------------------------------------------------------------
// Cache keys.
// ---------------------------------------------------------------------------

/// `text_le` on strings.
fn string_le(a: &String, b: &String) -> (r: bool)
    ensures
        r == text_le(a@, b@),
{
    let x = chars_of(a.as_str());
    let y = chars_of(b.as_str());
    text_le_exec(x.as_slice(), y.as_slice())
}

/// `values` in ascending text order (the order `slice::sort` gives strings).
fn sort_texts(values: &[String]) -> (out: Vec<String>)
    ensures
        texts(out@) == texts(values@).sort_by(text_leq_rel()),
{
    proof {
        lemma_text_order();
    }
    let mut out: Vec<String> = Vec::new();
    let mut i: usize = 0;
    while i < values.len()
        invariant
            i <= values@.len(),
            sorted_by(texts(out@), text_leq_rel()),
            texts(out@).to_multiset() == texts(values@).take(i as int).to_multiset(),
        decreases values@.len() - i,
    {
        let x = values[i].clone();
        let mut p: usize = 0;
        while p < out.len() && string_le(&out[p], &x)
            invariant
                p <= out@.len(),
                forall|j: int| 0 <= j < p ==> text_le(#[trigger] texts(out@)[j], x@),
            decreases out@.len() - p,
        {
            p = p + 1;
        }
        let ghost s = texts(out@);
        proof {
            lemma_text_order();
            assert forall|j: int| p <= j < s.len() implies text_le(x@, #[trigger] s[j]) by {
                assert(!text_le(s[p as int], x@));
                assert(text_le(x@, s[p as int]));
                if j > p {
                    assert(text_leq_rel()(s[p as int], s[j]));
                }
            }
            let t = s.insert(p as int, x@);
            assert forall|a: int, b: int| 0 <= a < b < t.len() implies #[trigger] text_leq_rel()(
                t[a],
                t[b],
            ) by {
                if b < p {
                    assert(text_leq_rel()(s[a], s[b]));
                } else if b == p {
                } else if a < p {
                    assert(text_le(s[a], x@));
                    assert(text_le(x@, s[b - 1]));
                } else if a == p {
                } else {
                    assert(text_leq_rel()(s[a - 1], s[b - 1]));
                }
            }
            vstd::seq_lib::to_multiset_insert(s, p as int, x@);
            assert(texts(values@).take(i as int + 1) =~= texts(values@).take(i as int).push(
                values@[i as int]@,
            ));
        }
        out.insert(p, x);
        assert(texts(out@) =~= s.insert(p as int, values@[i as int]@));
        i = i + 1;
    }
    proof {
        assert(texts(values@).take(i as int) =~= texts(values@));
        texts(values@).lemma_sort_by_ensures(text_leq_rel());
        vstd::seq_lib::lemma_sorted_unique(
            texts(out@),
            texts(values@).sort_by(text_leq_rel()),
            text_leq_rel(),
        );
    }
    out
}

/// The text that stands for a list in a cache key: `_` for an empty list,
/// otherwise the items in ascending order joined by commas.
pub open spec fn cache_list_text(values: Seq<Seq<char>>) -> Seq<char> {
    if values.len() == 0 {
        seq!['_']
    } else {
        join_with(values.sort_by(text_leq_rel()), ',')
    }
}

/// The cache-key form of a list: `_` when it is empty, otherwise its items
/// sorted and joined by commas.
pub fn sorted_cache_list(values: &[String]) -> (r: String)
    ensures
        r@ == cache_list_text(texts(values@)),
{
    if values.len() == 0 {
        let mut r = String::new();
        push_char(&mut r, '_');
        assert(r@ =~= seq!['_']);
        return r;
    }
    let sorted = sort_texts(values);
    let ghost items = texts(sorted@);
    let mut r = String::new();
    let mut i: usize = 0;
    while i < sorted.len()
        invariant
            items == texts(sorted@),
            i <= sorted@.len(),
            r@ == join_with(items.take(i as int), ','),
        decreases sorted@.len() - i,
    {
        let ghost pre = items.take(i as int + 1);
        assert(pre.drop_last() =~= items.take(i as int));
        assert(pre.last() == sorted@[i as int]@);
        if i > 0 {
            push_char(&mut r, ',');
        } else {
            assert(pre =~= seq![sorted@[0]@]);
        }
        push_all(&mut r, chars_of(sorted[i].as_str()).as_slice());
        i = i + 1;
    }
    assert(items.take(i as int) =~= items);
    r
}

/// `dependencies/<minecraft>?mods=<sorted list>`.
pub open spec fn dependency_key_text(minecraft: Seq<char>, mods: Seq<Seq<char>>) -> Seq<char> {
    "dependencies/"@ + minecraft + "?mods="@ + cache_list_text(mods)
}

/// `compatibility?mods=<sorted list>&minecraft=<sorted list>`.
pub open spec fn compatibility_key_text(mods: Seq<Seq<char>>, versions: Seq<Seq<char>>) -> Seq<
    char,
> {
    "compatibility?mods="@ + cache_list_text(mods) + "&minecraft="@ + cache_list_text(versions)
}

/// The cache key of a dependency listing.
pub fn dependency_cache_key(minecraft: &str, mods: &[String]) -> (r: String)
    ensures
        r@ == dependency_key_text(minecraft@, texts(mods@)),
{
    let mut r = String::new();
    push_all(&mut r, chars_of("dependencies/").as_slice());
    push_all(&mut r, chars_of(minecraft).as_slice());
    push_all(&mut r, chars_of("?mods=").as_slice());
    let list = sorted_cache_list(mods);
    push_all(&mut r, chars_of(list.as_str()).as_slice());
    assert(r@ =~= dependency_key_text(minecraft@, texts(mods@)));
    r
}

/// The cache key of a compatibility table.
pub fn compatibility_cache_key(mods: &[String], minecraft_versions: &[String]) -> (r: String)
    ensures
        r@ == compatibility_key_text(texts(mods@), texts(minecraft_versions@)),
{
    let mut r = String::new();
    push_all(&mut r, chars_of("compatibility?mods=").as_slice());
    let a = sorted_cache_list(mods);
    push_all(&mut r, chars_of(a.as_str()).as_slice());
    push_all(&mut r, chars_of("&minecraft=").as_slice());
    let b = sorted_cache_list(minecraft_versions);
    push_all(&mut r, chars_of(b.as_str()).as_slice());
    assert(r@ =~= compatibility_key_text(texts(mods@), texts(minecraft_versions@)));
    r
}

/// `<bucket>:<client, trimmed and in ASCII lowercase>`.
pub open spec fn rate_limit_key_text(client: Seq<char>, bucket: Seq<char>) -> Seq<char> {
    bucket + seq![':'] + ascii_lowercase(trim(client))
}

/// The rate-limiter key of a client in a bucket.
pub fn rate_limit_key(client: &str, bucket: &str) -> (r: String)
    ensures
        r@ == rate_limit_key_text(client@, bucket@),
{
    let mut r = String::new();
    push_all(&mut r, chars_of(bucket).as_slice());
    push_char(&mut r, ':');
    let t = trim_chars(chars_of(client).as_slice());
    let ghost head = r@;
    let mut i: usize = 0;
    while i < t.len()
        invariant
            i <= t@.len(),
            r@ == head + ascii_lowercase(t@.take(i as int)),
        decreases t@.len() - i,
    {
        push_char(&mut r, ascii_lower_exec(t[i]));
        i = i + 1;
        assert(ascii_lowercase(t@.take(i as int)) =~= ascii_lowercase(t@.take(i as int - 1)).push(
            crate::text::ascii_lower(t@[i as int - 1]),
        ));
    }
    assert(t@.take(i as int) =~= t@);
    r
}

} // verus!

verus! {

// ---------------------------------------------------------------------------
// Validation.
// ---------------------------------------------------------------------------

/// A character allowed in a Minecraft version: ASCII letter or digit, `.`,
/// `_` or `-`.
pub open spec fn minecraft_char_ok(c: char) -> bool {
    ('a' <= c && c <= 'z') || ('A' <= c && c <= 'Z') || ('0' <= c && c <= '9') || c == '.' || c
        == '_' || c == '-'
}

/// Why a Minecraft version is refused, if it is: it must be non-empty, at
/// most 64 bytes of UTF-8 long, and made of allowed characters only.
pub open spec fn minecraft_problem(version: Seq<char>, byte_len: nat) -> Option<Seq<char>> {
    if version.len() == 0 || byte_len > 64 {
        Some("Minecraft version must be non-empty and at most 64 characters"@)
    } else if exists|i: int| 0 <= i < version.len() && !minecraft_char_ok(#[trigger] version[i]) {
        Some("Minecraft version contains unsupported characters"@)
    } else {
        None
    }
}

/// The number of bytes that UTF-8 takes for `c`.
pub open spec fn utf8_width(c: char) -> nat {
    let u = c as u32;
    if u < 0x80 {
        1
    } else if u < 0x800 {
        2
    } else if u < 0x10000 {
        3
    } else {
        4
    }
}

/// The length of `s` in UTF-8 bytes (`str::len`).
pub open spec fn utf8_len(s: Seq<char>) -> nat
    decreases s.len(),
{
    if s.len() == 0 {
        0
    } else {
        utf8_len(s.drop_last()) + utf8_width(s.last())
    }
}

/// Whether `cs` takes more than `limit` bytes in UTF-8.
fn utf8_longer_than(cs: &[char], limit: u64) -> (r: bool)
    ensures
        r == (utf8_len(cs@) > limit),
{
    let mut total: u64 = 0;
    let mut i: usize = 0;
    while i < cs.len()
        invariant
            i <= cs@.len(),
            total == utf8_len(cs@.take(i as int)),
            total <= limit,
        decreases cs@.len() - i,
    {
        let u = cs[i] as u32;
        let w: u64 = if u < 0x80 {
            1
        } else if u < 0x800 {
            2
        } else if u < 0x10000 {
            3
        } else {
            4
        };
        proof {
            assert(cs@.take(i as int + 1).drop_last() =~= cs@.take(i as int));
            lemma_utf8_len_prefix(cs@, i as int + 1);
        }
        if w > limit - total {
            return true;
        }
        total = total + w;
        i = i + 1;
    }
    assert(cs@.take(i as int) =~= cs@);
    false
}

/// A prefix takes no more UTF-8 bytes than the whole text.
proof fn lemma_utf8_len_prefix(s: Seq<char>, k: int)
    requires
        0 <= k <= s.len(),
    ensures
        utf8_len(s.take(k)) <= utf8_len(s),
    decreases s.len(),
{
    if k < s.len() {
        lemma_utf8_len_prefix(s.drop_last(), k);
        assert(s.drop_last().take(k) =~= s.take(k));
    } else {
        assert(s.take(k) =~= s);
    }
}

/// Checks a Minecraft version taken from a request.
pub fn validate_minecraft(version: &str) -> (r: Result<(), String>)
    ensures
        match r {
            Ok(_) => minecraft_problem(version@, utf8_len(version@)) is None,
            Err(e) => minecraft_problem(version@, utf8_len(version@)) == Some(e@),
        },
{
    let cs = chars_of(version);
    if cs.len() == 0 || utf8_longer_than(cs.as_slice(), 64) {
        return Err("Minecraft version must be non-empty and at most 64 characters".to_string());
    }
    let mut i: usize = 0;
    while i < cs.len()
        invariant
            i <= cs@.len(),
            cs@ == version@,
            version@.len() > 0,
            utf8_len(version@) <= 64,
            forall|j: int| 0 <= j < i ==> minecraft_char_ok(#[trigger] cs@[j]),
        decreases cs@.len() - i,
    {
        let c = cs[i];
        let ok = ('a' <= c && c <= 'z') || ('A' <= c && c <= 'Z') || ('0' <= c && c <= '9') || c
            == '.' || c == '_' || c == '-';
        if !ok {
            assert(!minecraft_char_ok(version@[i as int]));
            assert(exists|j: int| 0 <= j < version@.len() && !minecraft_char_ok(#[trigger] version@[j]));
            return Err("Minecraft version contains unsupported characters".to_string());
        }
        i = i + 1;
    }
    Ok(())
}

// ---------------------------------------------------------------------------
// Cache lifetimes and time.
// ---------------------------------------------------------------------------

/// The lifetime of cached Minecraft version data on a UTC weekday
/// (0 = Sunday): short around the usual release days, Tuesday to Thursday,
/// `normal_ttl` otherwise.
pub open spec fn minecraft_ttl_for_day(utc_day: u32, normal_ttl: u64) -> u64 {
    if utc_day == 2 {
        MINECRAFT_TUESDAY_TTL
    } else if utc_day == 3 {
        MINECRAFT_WEDNESDAY_TTL
    } else if utc_day == 4 {
        MINECRAFT_THURSDAY_TTL
    } else {
        normal_ttl
    }
}

/// The lifetime of cached Minecraft version data on a UTC weekday.
pub fn minecraft_manifest_ttl_for_utc_day(utc_day: u32, normal_ttl: u64) -> (r: u64)
    ensures
        r == minecraft_ttl_for_day(utc_day, normal_ttl),
{
    match utc_day {
        2 => MINECRAFT_TUESDAY_TTL,
        3 => MINECRAFT_WEDNESDAY_TTL,
        4 => MINECRAFT_THURSDAY_TTL,
        _ => normal_ttl,
    }
}

/// The fixed timestamp used where no clock is available (the Unix epoch).
pub fn now_iso() -> (r: String)
    ensures
        r@ == "1970-01-01T00:00:00.000Z"@,
{
    owned("1970-01-01T00:00:00.000Z")
}

} // verus!

verus! {

// ---------------------------------------------------------------------------
// Laws.
// ---------------------------------------------------------------------------

/// Two lists with the same items, in whatever order, give the same cache
/// list text.
pub proof fn law_cache_list_ignores_order(a: Seq<Seq<char>>, b: Seq<Seq<char>>)
    requires
        a.to_multiset() == b.to_multiset(),
    ensures
        cache_list_text(a) == cache_list_text(b),
{
    lemma_text_order();
    a.lemma_sort_by_ensures(text_leq_rel());
    b.lemma_sort_by_ensures(text_leq_rel());
    vstd::seq_lib::lemma_sorted_unique(
        a.sort_by(text_leq_rel()),
        b.sort_by(text_leq_rel()),
        text_leq_rel(),
    );
    vstd::seq_lib::to_multiset_len(a);
    vstd::seq_lib::to_multiset_len(b);
}

/// Dependency and compatibility cache keys do not depend on the order in
/// which mods or Minecraft versions are listed.
pub proof fn law_cache_keys_ignore_order(
    minecraft: Seq<char>,
    mods_a: Seq<Seq<char>>,
    mods_b: Seq<Seq<char>>,
    versions_a: Seq<Seq<char>>,
    versions_b: Seq<Seq<char>>,
)
    requires
        mods_a.to_multiset() == mods_b.to_multiset(),
        versions_a.to_multiset() == versions_b.to_multiset(),
    ensures
        dependency_key_text(minecraft, mods_a) == dependency_key_text(minecraft, mods_b),
        compatibility_key_text(mods_a, versions_a) == compatibility_key_text(mods_b, versions_b),
{
    law_cache_list_ignores_order(mods_a, mods_b);
    law_cache_list_ignores_order(versions_a, versions_b);
}

/// Removing duplicates, starting from distinct seen items, leaves distinct
/// items.
pub proof fn lemma_remove_duplicates_unique(s: Seq<Seq<char>>, seen: Seq<Seq<char>>)
    requires
        seen.no_duplicates(),
    ensures
        s.remove_duplicates(seen).no_duplicates(),
    decreases s.len(),
{
    if s.len() > 0 {
        if !seen.contains(s[0]) {
            let next = seen + seq![s[0]];
            assert forall|i: int, j: int|
                0 <= i < next.len() && 0 <= j < next.len() && i != j implies next[i]
                != next[j] by {
                if i == seen.len() as int {
                    assert(next[j] == seen[j]);
                } else if j == seen.len() as int {
                    assert(next[i] == seen[i]);
                } else {
                    assert(next[i] == seen[i] && next[j] == seen[j]);
                }
            }
            lemma_remove_duplicates_unique(s.skip(1), next);
        } else {
            lemma_remove_duplicates_unique(s.skip(1), seen);
        }
    }
}

/// A normalized list names every item once, keeps exactly the items of the
/// source list, and (from request text) holds only trimmed, non-empty items.
pub proof fn law_normalized_list_is_unique(input: Option<Seq<char>>, defaults: Seq<Seq<char>>)
    ensures
        normalized(input, defaults).no_duplicates(),
        forall|x: Seq<char>|
            #[trigger] normalized(input, defaults).contains(x) <==> match input {
                Some(raw) => comma_items(raw).contains(x),
                None => defaults.contains(x),
            },
        input matches Some(raw) ==> forall|x: Seq<char>|
            #[trigger] normalized(input, defaults).contains(x) ==> x.len() > 0,
{
    let src = match input {
        Some(raw) => comma_items(raw),
        None => defaults,
    };
    lemma_remove_duplicates_unique(src, seq![]);
    src.lemma_remove_duplicates_properties(seq![]);
    assert(src + seq![] =~= src);
    if let Some(raw) = input {
        let fields = split_all(raw, ',').map_values(|f: Seq<char>| trim(f));
        assert forall|x: Seq<char>| #[trigger] normalized(input, defaults).contains(x) implies x.len()
            > 0 by {
            fields.lemma_filter_contains_rev(|f: Seq<char>| f.len() > 0, x);
            let i = choose|i: int| 0 <= i < comma_items(raw).len() && comma_items(raw)[i] == x;
            fields.lemma_filter_pred(|f: Seq<char>| f.len() > 0, i);
        }
    }
}

/// `trim_end(s)` is a prefix of `s` that is empty or ends in non-whitespace.
proof fn lemma_trim_end_shape(s: Seq<char>)
    ensures
        exists|k: int| 0 <= k <= s.len() && crate::text::trim_end(s) == s.take(k),
        crate::text::trim_end(s).len() == 0 || !crate::text::is_white(crate::text::trim_end(s).last()),
    decreases s.len(),
{
    if s.len() > 0 && crate::text::is_white(s.last()) {
        lemma_trim_end_shape(s.drop_last());
        let k = choose|k: int|
            0 <= k <= s.drop_last().len() && crate::text::trim_end(s.drop_last()) == s.drop_last().take(k);
        assert(s.drop_last().take(k) =~= s.take(k));
    } else {
        assert(s.take(s.len() as int) =~= s);
    }
}

/// Trimming a text that is empty or has non-whitespace at both ends leaves it
/// unchanged.
proof fn lemma_trim_fixed(s: Seq<char>)
    requires
        s.len() == 0 || (!crate::text::is_white(s[0]) && !crate::text::is_white(s.last())),
    ensures
        trim(s) == s,
{
}

/// Trimming twice is trimming once.
pub proof fn law_trim_idempotent(s: Seq<char>)
    ensures
        trim(trim(s)) == trim(s),
{
    let t = crate::text::trim_start(s);
    lemma_trim_start_shape(s);
    lemma_trim_end_shape(t);
    let u = crate::text::trim_end(t);
    let k = choose|k: int| 0 <= k <= t.len() && u == t.take(k);
    if u.len() > 0 {
        assert(u[0] == t[0]);
    }
    lemma_trim_fixed(u);
}

/// `trim_start(s)` is empty or starts with non-whitespace.
proof fn lemma_trim_start_shape(s: Seq<char>)
    ensures
        crate::text::trim_start(s).len() == 0 || !crate::text::is_white(
            crate::text::trim_start(s)[0],
        ),
    decreases s.len(),
{
    if s.len() > 0 && crate::text::is_white(s[0]) {
        lemma_trim_start_shape(s.drop_first());
    }
}

/// A client's rate-limit key ignores whitespace around the client id:
/// trimmed or not, the same client gets the same key.
pub proof fn law_rate_limit_key_ignores_padding(client: Seq<char>, bucket: Seq<char>)
    ensures
        rate_limit_key_text(trim(client), bucket) == rate_limit_key_text(client, bucket),
{
    law_trim_idempotent(client);
}

} // verus!
