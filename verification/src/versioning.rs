//! Loader version metadata: Maven metadata scanning, NeoForge version
//! mapping, version ordering and selection of the latest version.

use vstd::prelude::*;
use crate::order::{Rank, key_le, key_lt, lemma_key_order, rank_keys};
use std::cmp::Ordering;
use crate::text::{
    chars_of, contains_text, decimal_text, field_before, field_before_chars, find_char, find_from,
    find_from_exec, is_digit, lemma_find_from, occurs_at, nth_field, nth_field_chars, opt_text,
    parse_u32_chars, parse_u32_text, push_all, push_char, push_decimal, same_text, string_of, trim,
    trim_chars,
};

verus! {

broadcast use vstd::string::group_string_axioms;

// ---------------------------------------------------------------------------
// Maven metadata and XML tags.
// ---------------------------------------------------------------------------

/// The text of `s` from `start` up to the next occurrence of `p` at or after
/// `start` (or to the end): one item of `str::split(p)`.
pub open spec fn segment_from(s: Seq<char>, p: Seq<char>, start: int) -> Seq<char> {
    match find_from(s, p, start) {
        Some(e) => s.subrange(start, e),
        None => s.skip(start),
    }
}

/// The trimmed text before the first `close` in `seg`, when there is such a
/// `close` and the trimmed text is not empty.
pub open spec fn tag_value(seg: Seq<char>, close: Seq<char>) -> Option<Seq<char>> {
    match find_from(seg, close, 0) {
        Some(k) => if trim(seg.take(k)).len() > 0 {
            Some(trim(seg.take(k)))
        } else {
            None
        },
        None => None,
    }
}

/// The tag values of the items of `s.split(open)` that follow the
/// occurrences of `open` found at or after `from`, in order.
pub open spec fn tag_values_from(s: Seq<char>, open: Seq<char>, close: Seq<char>, from: int) -> Seq<
    Seq<char>,
>
    decreases s.len() + 1 - from,
{
    if open.len() == 0 || from < 0 {
        seq![]
    } else {
        match find_from(s, open, from) {
            Some(m) => {
                proof {
                    lemma_find_from(s, open, from);
                }
                let start = m + open.len();
                let rest = tag_values_from(s, open, close, start);
                match tag_value(segment_from(s, open, start), close) {
                    Some(v) => seq![v] + rest,
                    None => rest,
                }
            },
            None => seq![],
        }
    }
}

/// The versions listed in Maven metadata: for every `<version>`, the trimmed
/// text up to the next `</version>` (before any further `<version>`),
/// leaving out empty ones.
pub open spec fn maven_versions(metadata: Seq<char>) -> Seq<Seq<char>> {
    tag_values_from(metadata, "<version>"@, "</version>"@, 0)
}

/// `<tag>`.
pub open spec fn open_tag(tag: Seq<char>) -> Seq<char> {
    seq!['<'] + tag + seq!['>']
}

/// `</tag>`.
pub open spec fn close_tag(tag: Seq<char>) -> Seq<char> {
    seq!['<', '/'] + tag + seq!['>']
}

/// The trimmed text between the first `<tag>` and the next `</tag>` (which
/// must come before any second `<tag>`), when it is not empty.
pub open spec fn xml_tag_value(metadata: Seq<char>, tag: Seq<char>) -> Option<Seq<char>> {
    let open = open_tag(tag);
    match find_from(metadata, open, 0) {
        Some(m) => tag_value(segment_from(metadata, open, m + open.len()), close_tag(tag)),
        None => None,
    }
}

/// The views of a list of strings.
pub open spec fn texts(v: Seq<String>) -> Seq<Seq<char>> {
    v.map_values(|s: String| s@)
}

/// The value of the text before the first `close` in `seg`, trimmed, if it
/// is not empty.
fn tag_value_exec(seg: &[char], close: &[char]) -> (r: Option<Vec<char>>)
    ensures
        match tag_value(seg@, close@) {
            Some(v) => r is Some && r->0@ == v,
            None => r is None,
        },
{
    match find_from_exec(seg, close, 0) {
        Some(k) => {
            let before = &seg[0..k];
            assert(before@ =~= seg@.take(k as int));
            let t = trim_chars(before);
            if t.len() > 0 {
                Some(t)
            } else {
                None
            }
        },
        None => None,
    }
}

/// The item of `split(open)` that starts at `start`.
fn segment_exec<'a>(cs: &'a [char], open: &[char], start: usize) -> (out: &'a [char])
    requires
        start <= cs@.len(),
    ensures
        out@ == segment_from(cs@, open@, start as int),
{
    match find_from_exec(cs, open, start) {
        Some(e) => {
            proof {
                lemma_find_from(cs@, open@, start as int);
            }
            &cs[start..e]
        },
        None => {
            let n = cs.len();
            let part = &cs[start..n];
            assert(part@ =~= cs@.skip(start as int));
            part
        },
    }
}

/// The tag values of all items after the first one of `split(open)`.
fn tag_values_exec(cs: &[char], open: &[char], close: &[char]) -> (out: Vec<String>)
    ensures
        texts(out@) == tag_values_from(cs@, open@, close@, 0),
{
    let mut out: Vec<String> = Vec::new();
    if open.len() == 0 {
        assert(texts(out@) =~= seq![]);
        return out;
    }
    let n = cs.len();
    let mut pos: usize = 0;
    assert(texts(out@) + tag_values_from(cs@, open@, close@, 0) =~= tag_values_from(
        cs@,
        open@,
        close@,
        0,
    ));
    loop
        invariant
            open@.len() > 0,
            n == cs@.len(),
            pos <= cs@.len(),
            texts(out@) + tag_values_from(cs@, open@, close@, pos as int) == tag_values_from(
                cs@,
                open@,
                close@,
                0,
            ),
        decreases cs@.len() + 1 - pos,
    {
        match find_from_exec(cs, open, pos) {
            None => {
                assert(texts(out@) =~= texts(out@) + tag_values_from(
                    cs@,
                    open@,
                    close@,
                    pos as int,
                ));
                return out;
            },
            Some(m) => {
                proof {
                    lemma_find_from(cs@, open@, pos as int);
                }
                let start = m + open.len();
                let seg = segment_exec(cs, open, start);
                let ghost rest = tag_values_from(cs@, open@, close@, start as int);
                match tag_value_exec(seg, close) {
                    Some(v) => {
                        let ghost before = texts(out@);
                        out.push(string_of(v.as_slice()));
                        assert(texts(out@) =~= before.push(v@));
                        assert(texts(out@) + rest =~= before + (seq![v@] + rest));
                    },
                    None => {},
                }
                pos = start;
            },
        }
    }
}

/// The versions listed in Maven metadata, in order of appearance: the
/// trimmed, non-empty text of every `<version>...</version>` element.
pub fn maven_metadata_versions(metadata: &str) -> (out: Vec<String>)
    ensures
        texts(out@) == maven_versions(metadata@),
{
    let cs = chars_of(metadata);
    let open = chars_of("<version>");
    let close = chars_of("</version>");
    tag_values_exec(cs.as_slice(), open.as_slice(), close.as_slice())
}

/// `<tag>` or `</tag>` as characters.
fn tag_chars(tag: &[char], closing: bool) -> (out: Vec<char>)
    ensures
        out@ == if closing {
            close_tag(tag@)
        } else {
            open_tag(tag@)
        },
{
    let mut out: Vec<char> = Vec::new();
    out.push('<');
    if closing {
        out.push('/');
    }
    let mut i: usize = 0;
    let ghost head = out@;
    while i < tag.len()
        invariant
            i <= tag@.len(),
            out@ == head + tag@.take(i as int),
        decreases tag@.len() - i,
    {
        out.push(tag[i]);
        i = i + 1;
        assert(out@ =~= head + tag@.take(i as int));
    }
    out.push('>');
    assert(tag@.take(i as int) =~= tag@);
    assert(out@ =~= (if closing {
        close_tag(tag@)
    } else {
        open_tag(tag@)
    }));
    out
}

/// The trimmed, non-empty text of the first `<tag>...</tag>` element, where
/// the `</tag>` must come before any second `<tag>`.
pub fn find_xml_tag(metadata: &str, tag: &str) -> (r: Option<String>)
    ensures
        match xml_tag_value(metadata@, tag@) {
            Some(v) => r is Some && r->0@ == v,
            None => r is None,
        },
{
    let cs = chars_of(metadata);
    let tcs = chars_of(tag);
    let open = tag_chars(tcs.as_slice(), false);
    let close = tag_chars(tcs.as_slice(), true);
    let n = cs.len();
    match find_from_exec(cs.as_slice(), open.as_slice(), 0) {
        Some(m) => {
            let seg = segment_exec(cs.as_slice(), open.as_slice(), m + open.len());
            match tag_value_exec(seg, close.as_slice()) {
                Some(v) => Some(string_of(v.as_slice())),
                None => None,
            }
        },
        None => None,
    }
}

} // verus!

verus! {

// ---------------------------------------------------------------------------
// Version keys and ordering.
// ---------------------------------------------------------------------------

/// A digit or a dot.
pub open spec fn is_digit_or_dot(c: char) -> bool {
    is_digit(c) || c == '.'
}

/// The part of a version that is ordered: for `<minecraft>-<loader>`, where
/// the text before the first `-` is only digits and dots and the text after
/// it starts with a digit, the loader part; otherwise the whole version.
pub open spec fn ordering_part(v: Seq<char>) -> Seq<char> {
    match find_from(v, seq!['-'], 0) {
        Some(d) => {
            let mc = v.take(d);
            let loader = v.skip(d + 1);
            if (forall|i: int| 0 <= i < mc.len() ==> is_digit_or_dot(#[trigger] mc[i]))
                && loader.len() > 0 && is_digit(loader[0]) {
                loader
            } else {
                v
            }
        },
        None => v,
    }
}

/// The maximal runs of ASCII digits in `s`, in order.
pub open spec fn digit_runs(s: Seq<char>) -> Seq<Seq<char>>
    decreases s.len(),
{
    if s.len() == 0 {
        seq![]
    } else {
        let runs = digit_runs(s.drop_last());
        let c = s.last();
        if !is_digit(c) {
            runs
        } else if s.len() >= 2 && is_digit(s[s.len() - 2]) {
            runs.update(runs.len() - 1, runs.last().push(c))
        } else {
            runs.push(seq![c])
        }
    }
}

/// The number a run of digits stands for in a key (0 when it overflows `u32`).
pub open spec fn run_number(run: Seq<char>) -> u32 {
    match parse_u32_text(run) {
        Some(v) => v,
        None => 0,
    }
}

/// The numeric key by which loader versions are ordered.
pub open spec fn version_key(v: Seq<char>) -> Seq<u32> {
    digit_runs(ordering_part(v)).map_values(|r: Seq<char>| run_number(r))
}

/// `a` sorts no later than `b`.
pub open spec fn version_le(a: Seq<char>, b: Seq<char>) -> bool {
    key_le(version_key(a), version_key(b))
}

/// `a` sorts strictly before `b`.
pub open spec fn version_lt(a: Seq<char>, b: Seq<char>) -> bool {
    key_lt(version_key(a), version_key(b))
}

/// The part of `version` that loader versions are ordered by.
pub fn loader_version_for_ordering(version: &str) -> (r: &str)
    ensures
        r@ == ordering_part(version@),
{
    let cs = chars_of(version);
    let n = cs.len();
    match find_char(cs.as_slice(), '-') {
        Some(d) => {
            let ghost mc = cs@.take(d as int);
            let mut ok = true;
            let mut i: usize = 0;
            while i < d
                invariant
                    d < cs@.len(),
                    i <= d,
                    mc == cs@.take(d as int),
                    ok == (forall|j: int| 0 <= j < i ==> is_digit_or_dot(#[trigger] mc[j])),
                decreases d - i,
            {
                let c = cs[i];
                let good = ('0' <= c && c <= '9') || c == '.';
                proof {
                    if ok && !good {
                        assert(!is_digit_or_dot(mc[i as int]));
                    }
                }
                ok = ok && good;
                i = i + 1;
            }
            let starts_with_digit = d + 1 < n && '0' <= cs[d + 1] && cs[d + 1] <= '9';
            proof {
                let loader = cs@.skip(d + 1);
                if d + 1 < n {
                    assert(loader[0] == cs@[d + 1]);
                }
            }
            if ok && starts_with_digit {
                version.substring_char(d + 1, n)
            } else {
                version
            }
        },
        None => version,
    }
}

/// The runs of digits of `cs`, each read as a `u32` (0 when it overflows).
fn key_of_chars(cs: &[char]) -> (out: Vec<u32>)
    ensures
        out@ == digit_runs(cs@).map_values(|r: Seq<char>| run_number(r)),
{
    let mut out: Vec<u32> = Vec::new();
    let mut run_start: Option<usize> = None;
    let mut i: usize = 0;
    let ghost mut done: Seq<Seq<char>> = seq![];
    while i < cs.len()
        invariant
            i <= cs@.len(),
            out@ == done.map_values(|r: Seq<char>| run_number(r)),
            match run_start {
                None => {
                    &&& digit_runs(cs@.take(i as int)) == done
                    &&& (i == 0 || !is_digit(cs@[i - 1]))
                },
                Some(st) => {
                    &&& st < i
                    &&& digit_runs(cs@.take(i as int)) == done.push(cs@.subrange(st as int, i as int))
                    &&& is_digit(cs@[i - 1])
                },
            },
        decreases cs@.len() - i,
    {
        let c = cs[i];
        let is_d = '0' <= c && c <= '9';
        let ghost pre = cs@.take(i as int + 1);
        proof {
            assert(pre.drop_last() =~= cs@.take(i as int));
            assert(pre.last() == c);
            if i >= 1 {
                assert(pre[pre.len() - 2] == cs@[i - 1]);
            }
        }
        if !is_d {
            match run_start {
                Some(st) => {
                    let run = &cs[st..i];
                    let v = match parse_u32_chars(run) {
                        Some(v) => v,
                        None => 0,
                    };
                    out.push(v);
                    proof {
                        let r = cs@.subrange(st as int, i as int);
                        assert(out@ =~= done.push(r).map_values(|r: Seq<char>| run_number(r)));
                        done = done.push(r);
                    }
                    run_start = None;
                },
                None => {},
            }
        } else {
            match run_start {
                Some(st) => {
                    proof {
                        let r = cs@.subrange(st as int, i as int);
                        assert(cs@.subrange(st as int, i as int + 1) =~= r.push(c));
                        assert(digit_runs(pre) =~= done.push(r.push(c)));
                    }
                },
                None => {
                    proof {
                        assert(cs@.subrange(i as int, i as int + 1) =~= seq![c]);
                        assert(digit_runs(pre) =~= done.push(seq![c]));
                    }
                    run_start = Some(i);
                },
            }
        }
        i = i + 1;
    }
    assert(cs@.take(i as int) =~= cs@);
    match run_start {
        Some(st) => {
            let run = &cs[st..i];
            let v = match parse_u32_chars(run) {
                Some(v) => v,
                None => 0,
            };
            out.push(v);
            proof {
                let r = cs@.subrange(st as int, i as int);
                assert(out@ =~= done.push(r).map_values(|r: Seq<char>| run_number(r)));
            }
        },
        None => {},
    }
    out
}

/// The numeric key of a loader version.
pub fn loader_version_key(version: &str) -> (out: Vec<u32>)
    ensures
        out@ == version_key(version@),
{
    let part = loader_version_for_ordering(version);
    let cs = chars_of(part);
    key_of_chars(cs.as_slice())
}

/// Compares two loader versions by their numeric keys.
pub fn rank_versions(left: &str, right: &str) -> (r: Rank)
    ensures
        (r == Rank::Below) == version_lt(left@, right@),
        (r == Rank::Same) == (version_key(left@) == version_key(right@)),
        (r == Rank::Above) == version_lt(right@, left@),
{
    let a = loader_version_key(left);
    let b = loader_version_key(right);
    rank_keys(a.as_slice(), b.as_slice())
}

} // verus!

verus! {

// ---------------------------------------------------------------------------
// Choosing and sorting versions.
// ---------------------------------------------------------------------------

/// The greatest version of `vs` by key, the last one among equals (what
/// `Iterator::max_by` with the version order returns).
pub open spec fn last_max(vs: Seq<Seq<char>>) -> Option<Seq<char>>
    decreases vs.len(),
{
    if vs.len() == 0 {
        None
    } else {
        match last_max(vs.drop_last()) {
            None => Some(vs.last()),
            Some(m) => if version_lt(vs.last(), m) {
                Some(m)
            } else {
                Some(vs.last())
            },
        }
    }
}

/// The greatest of `vs` by version key, the last one among equals.
pub fn latest_of(vs: &Vec<String>) -> (r: Option<String>)
    ensures
        opt_text(r) == last_max(texts(vs@)),
{
    let mut best: Option<String> = None;
    let mut best_key: Vec<u32> = Vec::new();
    let mut i: usize = 0;
    while i < vs.len()
        invariant
            i <= vs@.len(),
            opt_text(best) == last_max(texts(vs@).take(i as int)),
            best matches Some(b) ==> best_key@ == version_key(b@),
        decreases vs@.len() - i,
    {
        let ghost prefix = texts(vs@).take(i as int + 1);
        assert(prefix.drop_last() =~= texts(vs@).take(i as int));
        assert(prefix.last() == vs@[i as int]@);
        let key = loader_version_key(vs[i].as_str());
        let replace = match &best {
            None => true,
            Some(_) => match rank_keys(best_key.as_slice(), key.as_slice()) {
                Rank::Above => false,
                _ => true,
            },
        };
        if replace {
            best = Some(vs[i].clone());
            best_key = key;
        }
        i = i + 1;
    }
    assert(texts(vs@).take(i as int) =~= texts(vs@));
    best
}

/// Which versions a NeoForge metadata file is read for.
#[derive(Clone, Copy, Debug)]
pub struct NeoForgeSource {
    pub legacy_1201: bool,
    pub artifact_kind: &'static str,
}

/// The NeoForge metadata source for a Minecraft version: the legacy
/// `net.neoforged:forge` artifact for 1.20.1, `net.neoforged:neoforge`
/// otherwise.
pub fn neoforge_source(minecraft: &str) -> (r: NeoForgeSource)
    ensures
        r.legacy_1201 == (minecraft@ == "1.20.1"@),
        r.artifact_kind@ == if r.legacy_1201 {
            "neoforge-legacy"@
        } else {
            "neoforge"@
        },
{
    let cs = chars_of(minecraft);
    let legacy = chars_of("1.20.1");
    if same_text(cs.as_slice(), legacy.as_slice()) {
        NeoForgeSource { legacy_1201: true, artifact_kind: "neoforge-legacy" }
    } else {
        NeoForgeSource { legacy_1201: false, artifact_kind: "neoforge" }
    }
}

/// `s` with every leading `0.` removed (`str::trim_start_matches("0.")`).
pub open spec fn strip_zero_dots(s: Seq<char>) -> Seq<char>
    decreases s.len(),
{
    if s.len() >= 2 && s[0] == '0' && s[1] == '.' {
        strip_zero_dots(s.skip(2))
    } else {
        s
    }
}

/// The Minecraft version a NeoForge version is built for.
///
/// Snapshot builds (containing `25w`) map to `1.0.<snapshot>`, the snapshot
/// being the first dot-separated part after leading `0.`s. Otherwise the part
/// before the first `-` is split at dots into year/major, minor and hotfix:
/// from year 26 on the result is `<year>.<minor>` (hotfix `0`) or
/// `<year>.<minor>.<hotfix>`, before it `1.<major>` (minor `0`) or
/// `1.<major>.<minor>`. The year or major is written as the number it
/// parses to.
pub open spec fn neoforge_minecraft(v: Seq<char>) -> Option<Seq<char>> {
    if contains_text(v, "25w"@) {
        let snapshot = field_before(strip_zero_dots(v), '.');
        if snapshot.len() == 0 {
            None
        } else {
            Some(seq!['1', '.', '0', '.'] + snapshot)
        }
    } else {
        let core = field_before(v, '-');
        match parse_u32_text(field_before(core, '.')) {
            None => None,
            Some(major) => match nth_field(core, '.', 1) {
                None => None,
                Some(minor) => if major >= 26 {
                    match nth_field(core, '.', 2) {
                        None => None,
                        Some(hotfix) => if hotfix == seq!['0'] {
                            Some(decimal_text(major as nat) + seq!['.'] + minor)
                        } else {
                            Some(decimal_text(major as nat) + seq!['.'] + minor + seq!['.'] + hotfix)
                        },
                    }
                } else if minor == seq!['0'] {
                    Some(seq!['1', '.'] + decimal_text(major as nat))
                } else {
                    Some(seq!['1', '.'] + decimal_text(major as nat) + seq!['.'] + minor)
                },
            },
        }
    }
}

/// `strip_zero_dots` on a character slice.
fn strip_zero_dots_exec(cs: &[char]) -> (out: &[char])
    ensures
        out@ == strip_zero_dots(cs@),
{
    let n = cs.len();
    let mut i: usize = 0;
    assert(cs@.skip(0) =~= cs@);
    while i < n && n - i >= 2 && cs[i] == '0' && cs[i + 1] == '.'
        invariant
            n == cs@.len(),
            i <= n,
            strip_zero_dots(cs@) == strip_zero_dots(cs@.skip(i as int)),
        decreases n - i,
    {
        assert(cs@.skip(i as int).skip(2) =~= cs@.skip(i as int + 2));
        i = i + 2;
    }
    let out = &cs[i..n];
    assert(out@ =~= cs@.skip(i as int));
    out
}

/// The Minecraft version that a NeoForge version targets (see
/// `neoforge_minecraft`).
pub fn neoforge_minecraft_version(version: &str) -> (r: Option<String>)
    ensures
        opt_text(r) == neoforge_minecraft(version@),
{
    let cs = chars_of(version);
    let snap_mark = chars_of("25w");
    if find_from_exec(cs.as_slice(), snap_mark.as_slice(), 0).is_some() {
        let t = strip_zero_dots_exec(cs.as_slice());
        let snapshot = field_before_chars(t, '.');
        if snapshot.len() == 0 {
            return None;
        }
        let mut out = String::new();
        push_char(&mut out, '1');
        push_char(&mut out, '.');
        push_char(&mut out, '0');
        push_char(&mut out, '.');
        push_all(&mut out, snapshot);
        assert(out@ =~= seq!['1', '.', '0', '.'] + snapshot@);
        return Some(out);
    }
    let core = field_before_chars(cs.as_slice(), '-');
    let first = field_before_chars(core, '.');
    let major = match parse_u32_chars(first) {
        Some(m) => m,
        None => {
            return None;
        },
    };
    let minor = match nth_field_chars(core, '.', 1) {
        Some(m) => m,
        None => {
            return None;
        },
    };
    let mut out = String::new();
    if major >= 26 {
        let hotfix = match nth_field_chars(core, '.', 2) {
            Some(h) => h,
            None => {
                return None;
            },
        };
        push_decimal(&mut out, major as u64);
        push_char(&mut out, '.');
        push_all(&mut out, minor);
        if hotfix.len() == 1 && hotfix[0] == '0' {
            assert(hotfix@ =~= seq!['0']);
            assert(out@ =~= decimal_text(major as nat) + seq!['.'] + minor@);
        } else {
            assert(hotfix@ != seq!['0']) by {
                if hotfix@.len() == 1 {
                    assert(hotfix@[0] != '0');
                }
            }
            push_char(&mut out, '.');
            push_all(&mut out, hotfix);
            assert(out@ =~= decimal_text(major as nat) + seq!['.'] + minor@ + seq!['.'] + hotfix@);
        }
    } else {
        push_char(&mut out, '1');
        push_char(&mut out, '.');
        push_decimal(&mut out, major as u64);
        if minor.len() == 1 && minor[0] == '0' {
            assert(minor@ =~= seq!['0']);
            assert(out@ =~= seq!['1', '.'] + decimal_text(major as nat));
        } else {
            assert(minor@ != seq!['0']) by {
                if minor@.len() == 1 {
                    assert(minor@[0] != '0');
                }
            }
            push_char(&mut out, '.');
            push_all(&mut out, minor);
            assert(out@ =~= seq!['1', '.'] + decimal_text(major as nat) + seq!['.'] + minor@);
        }
    }
    Some(out)
}

/// Keeps a version for a NeoForge source: every version for the legacy
/// source, otherwise those built for `minecraft`.
pub open spec fn neoforge_keeps(source: NeoForgeSource, minecraft: Seq<char>) -> spec_fn(
    Seq<char>,
) -> bool {
    |v: Seq<char>| source.legacy_1201 || neoforge_minecraft(v) == Some(minecraft)
}

/// The latest NeoForge version for `minecraft` in NeoForge Maven metadata.
pub fn latest_neoforge_version(metadata: &str, source: NeoForgeSource, minecraft: &str) -> (r:
    Option<String>)
    ensures
        opt_text(r) == last_max(maven_versions(metadata@).filter(neoforge_keeps(source, minecraft@))),
        r matches Some(x) ==> maven_versions(metadata@).contains(x@) && (source.legacy_1201
            || neoforge_minecraft(x@) == Some(minecraft@)),
{
    let all = maven_metadata_versions(metadata);
    let mut kept: Vec<String> = Vec::new();
    let mut i: usize = 0;
    let ghost keep = neoforge_keeps(source, minecraft@);
    while i < all.len()
        invariant
            i <= all@.len(),
            keep == neoforge_keeps(source, minecraft@),
            texts(kept@) == texts(all@).take(i as int).filter(keep),
        decreases all@.len() - i,
    {
        let ghost v = all@[i as int]@;
        assert(texts(all@).take(i as int + 1) =~= texts(all@).take(i as int).push(v));
        proof {
            texts(all@).take(i as int).lemma_filter_push(v, keep);
        }
        let keeps = if source.legacy_1201 {
            true
        } else {
            match neoforge_minecraft_version(all[i].as_str()) {
                Some(mc) => {
                    let a = chars_of(mc.as_str());
                    let b = chars_of(minecraft);
                    same_text(a.as_slice(), b.as_slice())
                },
                None => false,
            }
        };
        if keeps {
            let ghost before = texts(kept@);
            kept.push(all[i].clone());
            assert(texts(kept@) =~= before.push(v));
        }
        i = i + 1;
    }
    assert(texts(all@).take(i as int) =~= texts(all@));
    proof {
        law_neoforge_matches_minecraft_exactly(metadata@, source, minecraft@);
    }
    latest_of(&kept)
}

/// The `<latest>` version of Maven metadata, or else the greatest listed
/// version.
pub fn latest_maven_version(metadata: &str) -> (r: Option<String>)
    ensures
        opt_text(r) == match xml_tag_value(metadata@, "latest"@) {
            Some(v) => Some(v),
            None => last_max(maven_versions(metadata@)),
        },
{
    match find_xml_tag(metadata, "latest") {
        Some(v) => Some(v),
        None => {
            let all = maven_metadata_versions(metadata);
            latest_of(&all)
        },
    }
}

/// The version of an installer artifact: Forge versions without a `-` get
/// the Minecraft version and a `-` in front.
pub open spec fn installer_version(loader: Seq<char>, minecraft: Seq<char>, version: Seq<char>) -> Seq<
    char,
> {
    if loader == "forge"@ && !contains_text(version, seq!['-']) {
        minecraft + seq!['-'] + version
    } else {
        version
    }
}

/// The version of an installer artifact (see `installer_version`).
pub fn installer_artifact_version(loader: &str, minecraft: &str, version: &str) -> (r: String)
    ensures
        r@ == installer_version(loader@, minecraft@, version@),
{
    let l = chars_of(loader);
    let forge = chars_of("forge");
    let v = chars_of(version);
    let dash = find_char(v.as_slice(), '-');
    if same_text(l.as_slice(), forge.as_slice()) && dash.is_none() {
        let mut out = String::new();
        let m = chars_of(minecraft);
        push_all(&mut out, m.as_slice());
        push_char(&mut out, '-');
        push_all(&mut out, v.as_slice());
        assert(out@ =~= minecraft@ + seq!['-'] + version@);
        out
    } else {
        string_of(v.as_slice())
    }
}

} // verus!

verus! {

/// Compares two loader versions by their numeric keys (the order that
/// `sort_semverish` and the latest-version choices use).
pub fn compare_loader_versions(left: &str, right: &str) -> (r: Ordering)
    ensures
        (r == Ordering::Less) == version_lt(left@, right@),
        (r == Ordering::Equal) == (version_key(left@) == version_key(right@)),
        (r == Ordering::Greater) == version_lt(right@, left@),
{
    match rank_versions(left, right) {
        Rank::Below => Ordering::Less,
        Rank::Same => Ordering::Equal,
        Rank::Above => Ordering::Greater,
    }
}

/// The versions whose key is `k`.
pub open spec fn key_class(k: Seq<u32>) -> spec_fn(Seq<char>) -> bool {
    |v: Seq<char>| version_key(v) == k
}

/// `s` is in non-decreasing version order.
pub open spec fn sorted_by_version(s: Seq<Seq<char>>) -> bool {
    forall|i: int, j: int| 0 <= i < j < s.len() ==> version_le(#[trigger] s[i], #[trigger] s[j])
}

/// Inserting `x` after the versions not above it and before those above it
/// keeps the order.
proof fn lemma_insert_sorted(s: Seq<Seq<char>>, p: int, x: Seq<char>)
    requires
        0 <= p <= s.len(),
        sorted_by_version(s),
        forall|j: int| 0 <= j < p ==> version_le(#[trigger] s[j], x),
        forall|j: int| p <= j < s.len() ==> version_lt(x, #[trigger] s[j]),
    ensures
        sorted_by_version(s.insert(p, x)),
{
    lemma_key_order();
    let t = s.insert(p, x);
    assert forall|i: int, j: int| 0 <= i < j < t.len() implies version_le(
        #[trigger] t[i],
        #[trigger] t[j],
    ) by {
        if j < p {
            assert(t[i] == s[i] && t[j] == s[j]);
        } else if j == p {
            assert(t[i] == s[i]);
        } else if i < p {
            assert(t[i] == s[i] && t[j] == s[j - 1]);
            assert(version_le(s[i], x));
            assert(version_lt(x, s[j - 1]));
        } else if i == p {
            assert(t[j] == s[j - 1]);
        } else {
            assert(t[i] == s[i - 1] && t[j] == s[j - 1]);
        }
    }
}

/// Inserting `x` after the versions not above it and before those above it
/// appends it to its key class and leaves the other classes unchanged.
proof fn lemma_insert_classes(s: Seq<Seq<char>>, p: int, x: Seq<char>)
    requires
        0 <= p <= s.len(),
        forall|j: int| p <= j < s.len() ==> version_lt(x, #[trigger] s[j]),
    ensures
        forall|k: Seq<u32>|
            #[trigger] s.insert(p, x).filter(key_class(k)) == if version_key(x) == k {
                s.filter(key_class(k)).push(x)
            } else {
                s.filter(key_class(k))
            },
{
    let a = s.take(p);
    let b = s.skip(p);
    assert(s =~= a + b);
    assert(s.insert(p, x) =~= (a + seq![x]) + b);
    assert forall|k: Seq<u32>|
        #[trigger] s.insert(p, x).filter(key_class(k)) == if version_key(x) == k {
            s.filter(key_class(k)).push(x)
        } else {
            s.filter(key_class(k))
        } by {
        let pred = key_class(k);
        Seq::filter_distributes_over_add(a + seq![x], b, pred);
        Seq::filter_distributes_over_add(a, seq![x], pred);
        Seq::filter_distributes_over_add(a, b, pred);
        Seq::<Seq<char>>::empty().lemma_filter_push(x, pred);
        assert(Seq::<Seq<char>>::empty().push(x) =~= seq![x]);
        assert(Seq::<Seq<char>>::empty().filter(pred) =~= Seq::<Seq<char>>::empty()) by {
            reveal(Seq::filter);
        }
        if version_key(x) == k {
            assert forall|j: int| 0 <= j < b.len() implies !pred(#[trigger] b[j]) by {
                assert(b[j] == s[p + j]);
                assert(version_lt(x, s[p + j]));
            }
            assert(b.all(|y: Seq<char>| !pred(y)));
            b.lemma_all_neg_filter_empty(pred);
            assert(b.filter(pred) =~= Seq::<Seq<char>>::empty());
            assert(s.insert(p, x).filter(pred) =~= a.filter(pred).push(x));
            assert(s.filter(pred) =~= a.filter(pred));
        } else {
            assert(s.insert(p, x).filter(pred) =~= a.filter(pred) + b.filter(pred));
        }
    }
}

/// Sorts versions by their numeric keys, keeping the given order among
/// versions with equal keys (a stable sort).
pub fn sort_semverish(versions: Vec<String>) -> (out: Vec<String>)
    ensures
        is_stable_version_sort(texts(versions@), texts(out@)),
{
    let mut out: Vec<String> = Vec::new();
    let mut keys: Vec<Vec<u32>> = Vec::new();
    let mut i: usize = 0;
    proof {
        lemma_key_order();
    }
    assert forall|k: Seq<u32>|
        #[trigger] texts(out@).filter(key_class(k)) == texts(versions@).take(0).filter(
            key_class(k),
        ) by {
        assert(texts(out@) =~= texts(versions@).take(0));
    }
    while i < versions.len()
        invariant
            i <= versions@.len(),
            sorted_by_version(texts(out@)),
            keys@.len() == out@.len(),
            forall|j: int| 0 <= j < out@.len() ==> (#[trigger] keys@[j])@ == version_key(out@[j]@),
            forall|k: Seq<u32>|
                #[trigger] texts(out@).filter(key_class(k)) == texts(versions@).take(
                    i as int,
                ).filter(key_class(k)),
        decreases versions@.len() - i,
    {
        let x = versions[i].clone();
        let kx = loader_version_key(x.as_str());
        let mut p: usize = 0;
        while p < out.len() && !matches!(rank_keys(keys[p].as_slice(), kx.as_slice()), Rank::Above)
            invariant
                p <= out@.len(),
                kx@ == version_key(x@),
                keys@.len() == out@.len(),
                forall|j: int| 0 <= j < out@.len() ==> (#[trigger] keys@[j])@ == version_key(out@[j]@),
                forall|j: int| 0 <= j < p ==> version_le(#[trigger] texts(out@)[j], x@),
            decreases out@.len() - p,
        {
            proof {
                lemma_key_order();
                assert(texts(out@)[p as int] == out@[p as int]@);
                assert(keys@[p as int]@ == version_key(out@[p as int]@));
            }
            p = p + 1;
        }
        let ghost s = texts(out@);
        proof {
            lemma_key_order();
            if p < out@.len() {
                assert(version_lt(x@, s[p as int]));
                assert forall|j: int| p <= j < s.len() implies version_lt(x@, #[trigger] s[j]) by {
                    if j > p {
                        assert(version_le(s[p as int], s[j]));
                        if version_key(x@) == version_key(s[j]) {
                            assert(version_key(s[p as int]) == version_key(x@));
                        }
                    }
                }
            }
            lemma_insert_sorted(s, p as int, x@);
            lemma_insert_classes(s, p as int, x@);
        }
        let ghost old_keys = keys@;
        out.insert(p, x);
        keys.insert(p, kx);
        proof {
            assert(texts(out@) =~= s.insert(p as int, versions@[i as int]@));
            assert(texts(versions@).take(i as int + 1) =~= texts(versions@).take(i as int).push(
                versions@[i as int]@,
            ));
            assert forall|k: Seq<u32>|
                #[trigger] texts(out@).filter(key_class(k)) == texts(versions@).take(
                    i as int + 1,
                ).filter(key_class(k)) by {
                texts(versions@).take(i as int).lemma_filter_push(versions@[i as int]@, key_class(k));
            }
            assert forall|j: int| 0 <= j < out@.len() implies (#[trigger] keys@[j])@ == version_key(
                out@[j]@,
            ) by {
                if j < p {
                    assert(keys@[j] == old_keys[j]);
                } else if j > p {
                    assert(keys@[j] == old_keys[j - 1]);
                }
            }
        }
        i = i + 1;
    }
    assert(texts(versions@).take(i as int) =~= texts(versions@));
    out
}

} // verus!

verus! {

// ---------------------------------------------------------------------------
// Forge's JSON manifest.
// ---------------------------------------------------------------------------

/// What `serde_json` reads from a Forge `maven-metadata.json` text as a map
/// from Minecraft version to its list of Forge versions: `None` when the text
/// is not such a JSON object, else the map's entries in key order.
pub uninterp spec fn forge_manifest(metadata: Seq<char>) -> Option<Seq<(Seq<char>, Seq<Seq<char>>)>>;

/// The views of manifest entries.
pub open spec fn entries_view(e: Seq<(String, Vec<String>)>) -> Seq<(Seq<char>, Seq<Seq<char>>)> {
    e.map_values(|p: (String, Vec<String>)| (p.0@, texts(p.1@)))
}

/// Reads a Forge manifest with `serde_json::from_str` into a
/// `BTreeMap<String, Vec<String>>` and lists its entries. The contract says
/// only that the result is `forge_manifest` of the text: the JSON grammar
/// that decides it is serde_json's and is not restated here.
#[verifier::external_body]
fn parse_forge_manifest(metadata: &str) -> (r: Option<Vec<(String, Vec<String>)>>)
    ensures
        match r {
            Some(e) => forge_manifest(metadata@) == Some(entries_view(e@)),
            None => forge_manifest(metadata@) is None,
        },
{
    match serde_json::from_str::<std::collections::BTreeMap<String, Vec<String>>>(metadata) {
        Ok(map) => Some(map.into_iter().collect()),
        Err(_) => None,
    }
}

/// The version list of the first entry whose key is `key`.
pub open spec fn lookup_versions(entries: Seq<(Seq<char>, Seq<Seq<char>>)>, key: Seq<char>) -> Option<
    Seq<Seq<char>>,
>
    decreases entries.len(),
{
    if entries.len() == 0 {
        None
    } else if entries[0].0 == key {
        Some(entries[0].1)
    } else {
        lookup_versions(entries.drop_first(), key)
    }
}

/// The latest Forge version listed for `minecraft` in manifest entries.
pub open spec fn latest_forge_in(entries: Seq<(Seq<char>, Seq<Seq<char>>)>, minecraft: Seq<char>) -> Option<
    Seq<char>,
> {
    match lookup_versions(entries, minecraft) {
        Some(vs) => last_max(vs),
        None => None,
    }
}

/// The latest Forge version listed for `minecraft` among manifest entries.
pub fn latest_forge_version_in(entries: &Vec<(String, Vec<String>)>, minecraft: &str) -> (r: Option<
    String,
>)
    ensures
        opt_text(r) == latest_forge_in(entries_view(entries@), minecraft@),
        r matches Some(x) ==> exists|i: int|
            0 <= i < entries@.len() && entries@[i].0@ == minecraft@ && texts(entries@[i].1@).contains(
                x@,
            ),
        (forall|i: int| 0 <= i < entries@.len() ==> #[trigger] entries@[i].0@ != minecraft@) ==> r is None,
{
    let r = latest_forge_in_entries(entries, minecraft);
    proof {
        let ev = entries_view(entries@);
        law_forge_uses_exact_key(ev, minecraft@);
        let rr = r;
        if let Some(x) = rr {
            let i = choose|i: int|
                0 <= i < ev.len() && ev[i].0 == minecraft@ && ev[i].1.contains(x@) && (forall|k: int|
                    0 <= k < i ==> #[trigger] ev[k].0 != minecraft@) && forall|j: int|
                    0 <= j < ev[i].1.len() ==> version_le(#[trigger] ev[i].1[j], x@);
            assert(ev[i] == (entries@[i].0@, texts(entries@[i].1@)));
        }
        if forall|i: int| 0 <= i < entries@.len() ==> #[trigger] entries@[i].0@ != minecraft@ {
            assert forall|i: int| 0 <= i < ev.len() implies #[trigger] ev[i].0 != minecraft@ by {
                assert(ev[i] == (entries@[i].0@, texts(entries@[i].1@)));
            }
        }
    }
    r
}

/// The latest Forge version listed for `minecraft` among manifest entries,
/// found by a scan for the first entry with that key.
fn latest_forge_in_entries(entries: &Vec<(String, Vec<String>)>, minecraft: &str) -> (r: Option<
    String,
>)
    ensures
        opt_text(r) == latest_forge_in(entries_view(entries@), minecraft@),
{
    let mc = chars_of(minecraft);
    let mut i: usize = 0;
    let ghost all = entries_view(entries@);
    assert(all.skip(0) =~= all);
    while i < entries.len()
        invariant
            i <= entries@.len(),
            all == entries_view(entries@),
            mc@ == minecraft@,
            lookup_versions(all, minecraft@) == lookup_versions(all.skip(i as int), minecraft@),
        decreases entries@.len() - i,
    {
        let ghost rest = all.skip(i as int);
        assert(rest.drop_first() =~= all.skip(i as int + 1));
        assert(rest[0] == (entries@[i as int].0@, texts(entries@[i as int].1@)));
        let key = chars_of(entries[i].0.as_str());
        if same_text(key.as_slice(), mc.as_slice()) {
            return latest_of(&entries[i].1);
        }
        i = i + 1;
    }
    None
}

/// The latest Forge version for `minecraft` in a Forge JSON manifest, or
/// `None` when the manifest cannot be read or lists no version for it.
pub fn latest_forge_version(metadata: &str, minecraft: &str) -> (r: Option<String>)
    ensures
        opt_text(r) == match forge_manifest(metadata@) {
            Some(entries) => latest_forge_in(entries, minecraft@),
            None => None,
        },
{
    match parse_forge_manifest(metadata) {
        Some(entries) => latest_forge_version_in(&entries, minecraft),
        None => None,
    }
}

} // verus!

verus! {

// ---------------------------------------------------------------------------
// Laws of version ordering and selection.
// ---------------------------------------------------------------------------

/// `out` is `input` sorted by version, equal keys kept in input order (what
/// `sort_semverish` returns).
pub open spec fn is_stable_version_sort(input: Seq<Seq<char>>, out: Seq<Seq<char>>) -> bool {
    &&& sorted_by_version(out)
    &&& forall|k: Seq<u32>| #[trigger] out.filter(key_class(k)) == input.filter(key_class(k))
}

/// The latest version is the last of the greatest: it is `None` exactly for
/// an empty list, and otherwise some `vs[i]` that no version outranks, with
/// every later version ranking strictly lower.
pub proof fn law_latest_is_last_greatest(vs: Seq<Seq<char>>)
    ensures
        (vs.len() == 0) == (last_max(vs) is None),
        vs.len() > 0 ==> exists|i: int|
            0 <= i < vs.len() && last_max(vs) == Some(vs[i]) && (forall|j: int|
                0 <= j < vs.len() ==> version_le(#[trigger] vs[j], vs[i])) && (forall|j: int|
                i < j < vs.len() ==> version_lt(#[trigger] vs[j], vs[i])),
    decreases vs.len(),
{
    lemma_key_order();
    if vs.len() > 0 {
        let pre = vs.drop_last();
        let x = vs.last();
        law_latest_is_last_greatest(pre);
        if pre.len() == 0 {
            assert(version_le(vs[0], vs[0]));
            assert(last_max(vs) == Some(vs[0]));
        } else {
            let i = choose|i: int|
                0 <= i < pre.len() && last_max(pre) == Some(pre[i]) && (forall|j: int|
                    0 <= j < pre.len() ==> version_le(#[trigger] pre[j], pre[i])) && (forall|j: int|
                    i < j < pre.len() ==> version_lt(#[trigger] pre[j], pre[i]));
            let m = pre[i];
            if version_lt(x, m) {
                assert(last_max(vs) == Some(vs[i]));
                assert forall|j: int| 0 <= j < vs.len() implies version_le(#[trigger] vs[j], vs[i]) by {
                    if j < pre.len() {
                        assert(vs[j] == pre[j]);
                    }
                }
                assert forall|j: int| i < j < vs.len() implies version_lt(#[trigger] vs[j], vs[i]) by {
                    if j < pre.len() {
                        assert(vs[j] == pre[j]);
                    }
                }
            } else {
                let last = vs.len() - 1;
                assert(version_le(m, x));
                assert(last_max(vs) == Some(vs[last]));
                assert forall|j: int| 0 <= j < vs.len() implies version_le(#[trigger] vs[j], vs[last]) by {
                    if j < pre.len() {
                        assert(vs[j] == pre[j]);
                        assert(version_le(pre[j], m));
                    }
                }
            }
        }
    }
}

/// When the last element of `s` passes `pred`, it is the last element of
/// `s.filter(pred)`.
proof fn lemma_filter_last<A>(s: Seq<A>, pred: spec_fn(A) -> bool)
    requires
        s.len() > 0,
        pred(s.last()),
    ensures
        s.filter(pred).len() > 0,
        s.filter(pred).last() == s.last(),
{
    assert(s =~= s.drop_last().push(s.last()));
    s.drop_last().lemma_filter_push(s.last(), pred);
}

/// The last of a version list sorted by `sort_semverish` is the latest
/// version of the unsorted list, and an empty sort comes from an empty list:
/// taking the last element after sorting picks the same version as the
/// greatest-version choice.
pub proof fn law_sorted_last_is_latest(input: Seq<Seq<char>>, out: Seq<Seq<char>>)
    requires
        is_stable_version_sort(input, out),
    ensures
        out.len() == 0 ==> last_max(input) is None,
        out.len() > 0 ==> last_max(input) == Some(out.last()),
{
    lemma_key_order();
    law_latest_is_last_greatest(input);
    if out.len() == 0 {
        if input.len() > 0 {
            let k = version_key(input[0]);
            input.lemma_filter_contains(key_class(k), 0);
            assert(out.filter(key_class(k)).len() == 0) by {
                reveal(Seq::filter);
            }
            assert(false);
        }
    } else {
        let y = out.last();
        let kk = version_key(y);
        lemma_filter_last(out, key_class(kk));
        let fy = out.filter(key_class(kk));
        assert(fy == input.filter(key_class(kk)));
        // some input version has y's key
        input.filter(key_class(kk)).lemma_index_contains(0);
        fy.lemma_index_contains(0);
        input.lemma_filter_contains_rev(key_class(kk), fy[0]);
        let j0 = choose|j: int| 0 <= j < input.len() && input[j] == fy[0];
        assert(input.len() > 0);
        let i = choose|i: int|
            0 <= i < input.len() && last_max(input) == Some(input[i]) && (forall|j: int|
                0 <= j < input.len() ==> version_le(#[trigger] input[j], input[i])) && (forall|j: int|
                i < j < input.len() ==> version_lt(#[trigger] input[j], input[i]));
        let m = input[i];
        let km = version_key(m);
        // m's class is non-empty in out as well
        input.lemma_filter_contains(key_class(km), i);
        let fm = input.filter(key_class(km));
        assert(fm == out.filter(key_class(km)));
        fm.lemma_index_contains(0);
        let w = choose|t: int| 0 <= t < fm.len() && fm[t] == m;
        out.lemma_filter_contains_rev(key_class(km), fm[w]);
        let t = choose|t: int| 0 <= t < out.len() && out[t] == m;
        // both keys are equal
        assert(version_le(input[j0], m));
        assert(version_key(input[j0]) == kk) by {
            input.lemma_filter_pred(key_class(kk), 0);
        }
        if t < out.len() - 1 {
            assert(version_le(out[t], out[out.len() - 1]));
        }
        assert(version_le(m, y));
        assert(km == kk);
        // the last of m's class in input is m
        let a = input.take(i + 1);
        let b = input.skip(i + 1);
        assert(input =~= a + b);
        Seq::filter_distributes_over_add(a, b, key_class(kk));
        assert forall|j: int| 0 <= j < b.len() implies !key_class(kk)(#[trigger] b[j]) by {
            assert(b[j] == input[i + 1 + j]);
            assert(version_lt(input[i + 1 + j], m));
        }
        assert(b.all(|v: Seq<char>| !key_class(kk)(v)));
        b.lemma_all_neg_filter_empty(key_class(kk));
        assert(input.filter(key_class(kk)) =~= a.filter(key_class(kk)));
        assert(a.last() == m);
        lemma_filter_last(a, key_class(kk));
    }
}

/// The order of loader versions is a total preorder: comparing is
/// antisymmetric (`Less` one way is `Greater` the other), `Equal` is
/// symmetric, and `<=` is transitive and total.
pub proof fn law_version_order(a: Seq<char>, b: Seq<char>, c: Seq<char>)
    ensures
        !(version_lt(a, b) && version_lt(b, a)),
        version_le(a, b) || version_le(b, a),
        version_le(a, b) && version_le(b, c) ==> version_le(a, c),
        version_le(a, b) && version_le(b, a) ==> version_key(a) == version_key(b),
        version_lt(a, b) || version_lt(b, a) || version_key(a) == version_key(b),
{
    lemma_key_order();
}

/// A Forge installer version already holds a `-`, so deriving the installer
/// version again leaves it unchanged.
pub proof fn law_installer_version_is_stable(minecraft: Seq<char>, version: Seq<char>)
    ensures
        ({
            let once = if !contains_text(version, seq!['-']) {
                minecraft + seq!['-'] + version
            } else {
                version
            };
            contains_text(once, seq!['-'])
        }),
{
    if !contains_text(version, seq!['-']) {
        let once = minecraft + seq!['-'] + version;
        let at = minecraft.len() as int;
        assert(once.subrange(at, at + 1) =~= seq!['-']);
        assert(occurs_at(once, seq!['-'], at));
        lemma_find_from(once, seq!['-'], 0);
    }
}

} // verus!

verus! {

// ---------------------------------------------------------------------------
// Fabric loader metadata.
// ---------------------------------------------------------------------------

/// Fabric's loader metadata for one Minecraft version.
#[derive(Debug, Clone, PartialEq, Eq)]
pub struct FabricMetadata {
    pub loader: FabricComponent,
}

/// The loader entry of Fabric's metadata.
#[derive(Debug, Clone, PartialEq, Eq)]
pub struct FabricComponent {
    pub maven: String,
    pub version: Option<String>,
}

/// The Fabric metadata to use, given how the text read as a single object
/// and (only consulted when that failed) as a list of objects: the object;
/// else the first listed object; else an error naming the object's parse
/// error, or saying that the list is empty.
pub fn fabric_metadata_from_attempts(
    object: Result<FabricMetadata, String>,
    list: Option<Vec<FabricMetadata>>,
) -> (r: Result<FabricMetadata, String>)
    ensures
        match object {
            Ok(m) => r == Ok::<FabricMetadata, String>(m),
            Err(e) => match list {
                None => r matches Err(msg) && msg@ == "failed to parse Fabric metadata: "@ + e@,
                Some(v) => if v@.len() == 0 {
                    r matches Err(msg) && msg@ == "Fabric metadata did not include any versions"@
                } else {
                    r == Ok::<FabricMetadata, String>(v@[0])
                },
            },
        },
{
    match object {
        Ok(m) => Ok(m),
        Err(e) => match list {
            None => {
                let mut msg = "failed to parse Fabric metadata: ".to_string();
                msg.append(e.as_str());
                Err(msg)
            },
            Some(mut v) => {
                if v.len() == 0 {
                    Err("Fabric metadata did not include any versions".to_string())
                } else {
                    Ok(v.remove(0))
                }
            },
        },
    }
}

/// The latest of the versions of `vs` that pass `keep` is `None` exactly
/// when none passes, and otherwise a version of `vs` that passes and that no
/// passing version outranks.
proof fn lemma_latest_kept(vs: Seq<Seq<char>>, keep: spec_fn(Seq<char>) -> bool)
    ensures
        match last_max(vs.filter(keep)) {
            Some(x) => vs.contains(x) && keep(x) && forall|j: int|
                0 <= j < vs.len() && keep(vs[j]) ==> version_le(#[trigger] vs[j], x),
            None => forall|j: int| 0 <= j < vs.len() ==> !keep(#[trigger] vs[j]),
        },
{
    let f = vs.filter(keep);
    law_latest_is_last_greatest(f);
    if f.len() > 0 {
        let i = choose|i: int|
            0 <= i < f.len() && last_max(f) == Some(f[i]) && (forall|j: int|
                0 <= j < f.len() ==> version_le(#[trigger] f[j], f[i])) && (forall|j: int|
                i < j < f.len() ==> version_lt(#[trigger] f[j], f[i]));
        assert(f.contains(f[i]));
        vs.lemma_filter_contains_rev(keep, f[i]);
        vs.lemma_filter_pred(keep, i);
        assert forall|j: int| 0 <= j < vs.len() && keep(vs[j]) implies version_le(#[trigger] vs[j], f[i]) by {
            vs.lemma_filter_contains(keep, j);
            let q = choose|q: int| 0 <= q < f.len() && f[q] == vs[j];
            assert(version_le(f[q], f[i]));
        }
    } else {
        assert forall|j: int| 0 <= j < vs.len() implies !keep(#[trigger] vs[j]) by {
            if keep(vs[j]) {
                vs.lemma_filter_contains(keep, j);
            }
        }
    }
}

/// A NeoForge version counts for a Minecraft version exactly when it is
/// built for that very version (any version counts for the legacy 1.20.1
/// source): the latest NeoForge version chosen is one listed in the
/// metadata and built for exactly the requested Minecraft version, no
/// version built for it outranks the one chosen, and there is none exactly
/// when no listed version is built for it.
pub proof fn law_neoforge_matches_minecraft_exactly(
    metadata: Seq<char>,
    source: NeoForgeSource,
    minecraft: Seq<char>,
)
    ensures
        forall|v: Seq<char>|
            #[trigger] neoforge_keeps(source, minecraft)(v) <==> (source.legacy_1201 || neoforge_minecraft(v)
                == Some(minecraft)),
        match last_max(maven_versions(metadata).filter(neoforge_keeps(source, minecraft))) {
            Some(x) => maven_versions(metadata).contains(x) && (source.legacy_1201
                || neoforge_minecraft(x) == Some(minecraft)) && forall|j: int|
                0 <= j < maven_versions(metadata).len() && (source.legacy_1201 || neoforge_minecraft(
                    maven_versions(metadata)[j],
                ) == Some(minecraft)) ==> version_le(#[trigger] maven_versions(metadata)[j], x),
            None => forall|j: int|
                0 <= j < maven_versions(metadata).len() ==> !(source.legacy_1201 || neoforge_minecraft(
                    #[trigger] maven_versions(metadata)[j],
                ) == Some(minecraft)),
        },
{
    lemma_latest_kept(maven_versions(metadata), neoforge_keeps(source, minecraft));
}

/// The version list stored under `key` is that of the first entry whose key
/// is exactly `key`; there is none exactly when no key equals `key`.
proof fn lemma_lookup_versions(entries: Seq<(Seq<char>, Seq<Seq<char>>)>, key: Seq<char>)
    ensures
        match lookup_versions(entries, key) {
            Some(vs) => exists|i: int|
                0 <= i < entries.len() && entries[i].0 == key && entries[i].1 == vs && forall|k: int|
                    0 <= k < i ==> #[trigger] entries[k].0 != key,
            None => forall|i: int| 0 <= i < entries.len() ==> #[trigger] entries[i].0 != key,
        },
    decreases entries.len(),
{
    if entries.len() > 0 {
        let rest = entries.drop_first();
        lemma_lookup_versions(rest, key);
        if entries[0].0 != key {
            match lookup_versions(rest, key) {
                Some(vs) => {
                    let i = choose|i: int|
                        0 <= i < rest.len() && rest[i].0 == key && rest[i].1 == vs && forall|k: int|
                            0 <= k < i ==> #[trigger] rest[k].0 != key;
                    assert(entries[i + 1] == rest[i]);
                    assert forall|k: int| 0 <= k < i + 1 implies #[trigger] entries[k].0 != key by {
                        if k > 0 {
                            assert(entries[k] == rest[k - 1]);
                        }
                    }
                },
                None => {
                    assert forall|i: int| 0 <= i < entries.len() implies #[trigger] entries[i].0 != key by {
                        if i > 0 {
                            assert(entries[i] == rest[i - 1]);
                        }
                    }
                },
            }
        }
    }
}

/// The latest Forge version for a Minecraft version comes only from the
/// version list stored under a key exactly equal to it (the first such
/// entry): it is one of that list's versions and none of them outranks it.
/// There is none when no key equals the Minecraft version, or when its list
/// is empty.
pub proof fn law_forge_uses_exact_key(entries: Seq<(Seq<char>, Seq<Seq<char>>)>, minecraft: Seq<char>)
    ensures
        match latest_forge_in(entries, minecraft) {
            Some(x) => exists|i: int|
                0 <= i < entries.len() && entries[i].0 == minecraft && entries[i].1.contains(x) && (forall|
                    k: int,
                | 0 <= k < i ==> #[trigger] entries[k].0 != minecraft) && forall|j: int|
                    0 <= j < entries[i].1.len() ==> version_le(#[trigger] entries[i].1[j], x),
            None => forall|i: int|
                0 <= i < entries.len() && entries[i].0 == minecraft && (forall|k: int|
                    0 <= k < i ==> #[trigger] entries[k].0 != minecraft) ==> entries[i].1.len() == 0,
        },
        (forall|i: int| 0 <= i < entries.len() ==> #[trigger] entries[i].0 != minecraft)
            ==> latest_forge_in(entries, minecraft) is None,
{
    lemma_lookup_versions(entries, minecraft);
    match lookup_versions(entries, minecraft) {
        Some(vs) => {
            let i = choose|i: int|
                0 <= i < entries.len() && entries[i].0 == minecraft && entries[i].1 == vs && forall|k: int|
                    0 <= k < i ==> #[trigger] entries[k].0 != minecraft;
            law_latest_is_last_greatest(vs);
            if vs.len() > 0 {
                let m = choose|m: int|
                    0 <= m < vs.len() && last_max(vs) == Some(vs[m]) && (forall|j: int|
                        0 <= j < vs.len() ==> version_le(#[trigger] vs[j], vs[m])) && (forall|j: int|
                        m < j < vs.len() ==> version_lt(#[trigger] vs[j], vs[m]));
                assert(vs.contains(vs[m]));
            } else {
                assert forall|i2: int|
                    0 <= i2 < entries.len() && entries[i2].0 == minecraft && (forall|k: int|
                        0 <= k < i2 ==> #[trigger] entries[k].0 != minecraft) implies entries[i2].1.len()
                    == 0 by {
                    if i2 < i {
                    } else if i2 > i {
                        assert(entries[i].0 != minecraft);
                    }
                }
            }
            if forall|i3: int| 0 <= i3 < entries.len() ==> #[trigger] entries[i3].0 != minecraft {
                assert(entries[i].0 != minecraft);
            }
        },
        None => {},
    }
}

} // verus!
