//! Dotted-version comparison with heuristic tolerance for prefixes and
//! suffixes: a leading `v` is stripped, anything from the first `-` or
//! `+` on is ignored, each dot-separated segment contributes its leading
//! decimal digits, and the segment sequences are compared numerically
//! position by position, treating missing positions as zero.

use vstd::prelude::*;

use crate::text::push_char;
use crate::text::str_eq;

verus! {

/// The string with every leading `v` removed.
pub open spec fn strip_v(s: Seq<char>) -> Seq<char>
    decreases s.len(),
{
    if s.len() > 0 && s[0] == 'v' {
        strip_v(s.skip(1))
    } else {
        s
    }
}

/// An ASCII decimal digit.
pub open spec fn is_digit_char(c: char) -> bool {
    48 <= c as u32 <= 57
}

/// The numeric value of an ASCII decimal digit.
pub open spec fn digit_of(c: char) -> int {
    c as u32 - 48
}

/// A character that starts the ignored pre-release or build suffix.
pub open spec fn is_suffix_sep(c: char) -> bool {
    c == '-' || c == '+'
}

/// The prefix of the string before the first `-` or `+`.
pub open spec fn before_sep(s: Seq<char>) -> Seq<char>
    decreases s.len(),
{
    if s.len() == 0 {
        s
    } else if is_suffix_sep(s[0]) {
        Seq::empty()
    } else {
        seq![s[0]] + before_sep(s.skip(1))
    }
}

/// The string split at every `.`, keeping empty pieces, as `split('.')`
/// yields them.
pub open spec fn split_dots(s: Seq<char>) -> Seq<Seq<char>>
    decreases s.len(),
{
    if s.len() == 0 {
        seq![Seq::<char>::empty()]
    } else if s.last() == '.' {
        split_dots(s.drop_last()).push(Seq::empty())
    } else {
        let p = split_dots(s.drop_last());
        p.update(p.len() - 1, p.last().push(s.last()))
    }
}

/// The run of decimal digits at the front of a segment.
pub open spec fn leading_digits(s: Seq<char>) -> Seq<char>
    decreases s.len(),
{
    if s.len() > 0 && is_digit_char(s[0]) {
        seq![s[0]] + leading_digits(s.skip(1))
    } else {
        Seq::empty()
    }
}

/// The value of a digit string, most significant digit first.
pub open spec fn digits_val(d: Seq<char>) -> int
    decreases d.len(),
{
    if d.len() == 0 {
        0
    } else {
        digits_val(d.drop_last()) * 10 + digit_of(d.last())
    }
}

/// The numeric value a segment contributes, if any: a segment with no
/// leading digits, or whose digits do not fit the machine word used for
/// a part, is dropped.
pub open spec fn seg_value(seg: Seq<char>) -> Option<int> {
    let d = leading_digits(seg);
    if d.len() == 0 || digits_val(d) > u32::MAX as int {
        None
    } else {
        Some(digits_val(d))
    }
}

/// The parts contributed by a sequence of segments, in order.
pub open spec fn parts_of(segs: Seq<Seq<char>>) -> Seq<int>
    decreases segs.len(),
{
    if segs.len() == 0 {
        Seq::empty()
    } else {
        let rest = parts_of(segs.drop_last());
        match seg_value(segs.last()) {
            Some(v) => rest.push(v),
            None => rest,
        }
    }
}

/// The numeric parts of a version string: suffix dropped, split on
/// dots, each segment reduced to its leading digits.
pub open spec fn version_parts(s: Seq<char>) -> Seq<int> {
    parts_of(split_dots(before_sep(s)))
}

/// A part sequence read at a position, with missing positions zero.
pub open spec fn part_at(p: Seq<int>, i: int) -> int {
    if 0 <= i < p.len() {
        p[i]
    } else {
        0
    }
}

/// `lat` is strictly newer than `cur`: at the first differing position
/// (padding with zeros), `lat` is larger.
pub open spec fn parts_newer(cur: Seq<int>, lat: Seq<int>) -> bool {
    exists|i: int|
        0 <= i && (forall|j: int| 0 <= j < i ==> part_at(cur, j) == part_at(lat, j)) && part_at(
            lat,
            i,
        ) > part_at(cur, i)
}

/// The full comparison rule: an unknown current version (empty or the
/// zero version, after `v`-stripping) always reports newer; identical
/// stripped strings are never newer; otherwise the numeric parts
/// decide.
pub open spec fn spec_is_newer(current: Seq<char>, latest: Seq<char>) -> bool {
    let c = strip_v(current);
    let l = strip_v(latest);
    if c.len() == 0 || c == "0.0.0"@ {
        true
    } else if l == c {
        false
    } else {
        parts_newer(version_parts(c), version_parts(l))
    }
}

/// A `Seq<u32>` read as mathematical integers.
pub open spec fn u32s(v: Seq<u32>) -> Seq<int> {
    v.map_values(|x: u32| x as int)
}

/// Removes every leading `v` from a version string.
pub fn strip_leading_v(s: &str) -> (r: String)
    ensures
        r@ == strip_v(s@),
{
    let n = s.unicode_len();
    let mut i: usize = 0;
    proof {
        assert(s@.skip(0) =~= s@);
    }
    while i < n && s.get_char(i) == 'v'
        invariant
            0 <= i <= n,
            n == s@.len(),
            strip_v(s@) == strip_v(s@.skip(i as int)),
        decreases n - i,
    {
        proof {
            assert(s@.skip(i as int)[0] == s@[i as int]);
            assert(s@.skip(i as int).skip(1) =~= s@.skip(i as int + 1));
        }
        i += 1;
    }
    let r = s.substring_char(i, n);
    proof {
        assert(s@.subrange(i as int, n as int) =~= s@.skip(i as int));
        if i < n {
            assert(s@.skip(i as int)[0] == s@[i as int]);
        }
    }
    String::from_str(r)
}

/// The prefix of a version string before the first `-` or `+`.
fn before_separator(s: &str) -> (r: String)
    ensures
        r@ == before_sep(s@),
{
    let n = s.unicode_len();
    let mut i: usize = 0;
    proof {
        assert(s@.skip(0) =~= s@);
        assert(s@.take(0) + before_sep(s@) =~= before_sep(s@));
    }
    while i < n && s.get_char(i) != '-' && s.get_char(i) != '+'
        invariant
            0 <= i <= n,
            n == s@.len(),
            before_sep(s@) == s@.take(i as int) + before_sep(s@.skip(i as int)),
        decreases n - i,
    {
        proof {
            let t = s@.skip(i as int);
            assert(t[0] == s@[i as int]);
            assert(t.skip(1) =~= s@.skip(i as int + 1));
            assert(s@.take(i as int) + (seq![s@[i as int]] + before_sep(s@.skip(i as int + 1)))
                =~= s@.take(i as int + 1) + before_sep(s@.skip(i as int + 1)));
        }
        i += 1;
    }
    let r = s.substring_char(0, i);
    proof {
        if i < n {
            assert(s@.skip(i as int)[0] == s@[i as int]);
        }
        assert(before_sep(s@) =~= s@.take(i as int));
        assert(s@.subrange(0, i as int) =~= s@.take(i as int));
    }
    String::from_str(r)
}

/// Splits a string at every `.`, keeping empty pieces.
fn split_on_dots(t: &str) -> (segs: Vec<String>)
    ensures
        segs@.map_values(|s: String| s@) == split_dots(t@),
{
    let n = t.unicode_len();
    let mut segs: Vec<String> = Vec::new();
    let mut cur = String::new();
    let mut j: usize = 0;
    while j < n
        invariant
            0 <= j <= n,
            n == t@.len(),
            segs@.map_values(|s: String| s@).push(cur@) =~= split_dots(t@.take(j as int)),
        decreases n - j,
    {
        let ch = t.get_char(j);
        proof {
            assert(t@.take(j as int + 1).drop_last() =~= t@.take(j as int));
            assert(t@.take(j as int + 1).last() == t@[j as int]);
        }
        if ch == '.' {
            let ghost old_map = segs@.map_values(|s: String| s@);
            segs.push(cur);
            cur = String::new();
            proof {
                assert(segs@.map_values(|s: String| s@) =~= old_map.push(
                    split_dots(t@.take(j as int)).last(),
                ));
                assert(segs@.map_values(|s: String| s@).push(cur@) =~= split_dots(
                    t@.take(j as int + 1),
                ));
            }
        } else {
            let ghost p = split_dots(t@.take(j as int));
            push_char(&mut cur, ch);
            proof {
                assert(p.update(p.len() - 1, p.last().push(ch)) =~= segs@.map_values(
                    |s: String| s@,
                ).push(cur@));
            }
        }
        j += 1;
    }
    proof {
        assert(t@.take(n as int) =~= t@);
    }
    segs.push(cur);
    segs
}

/// `digits_val` never decreases as digits are appended.
proof fn lemma_digits_val_nonneg(d: Seq<char>)
    requires
        forall|i: int| 0 <= i < d.len() ==> is_digit_char(d[i]),
    ensures
        digits_val(d) >= 0,
    decreases d.len(),
{
    if d.len() > 0 {
        lemma_digits_val_nonneg(d.drop_last());
    }
}

/// The numeric value of one version segment, if it contributes one.
fn seg_value_exec(seg: &str) -> (r: Option<u32>)
    ensures
        match r {
            Some(v) => seg_value(seg@) == Some(v as int),
            None => seg_value(seg@) is None,
        },
{
    let n = seg.unicode_len();
    let mut k: usize = 0;
    let mut val: u64 = 0;
    let mut over = false;
    proof {
        assert(seg@.skip(0) =~= seg@);
        assert(seg@.take(0) + leading_digits(seg@) =~= leading_digits(seg@));
        assert(seg@.take(0) =~= Seq::<char>::empty());
    }
    while k < n && 48 <= seg.get_char(k) as u32 && seg.get_char(k) as u32 <= 57
        invariant
            0 <= k <= n,
            n == seg@.len(),
            leading_digits(seg@) == seg@.take(k as int) + leading_digits(seg@.skip(k as int)),
            forall|j: int| 0 <= j < k ==> is_digit_char(seg@[j]),
            !over ==> val as int == digits_val(seg@.take(k as int)) && val <= u32::MAX as u64,
            over ==> digits_val(seg@.take(k as int)) > u32::MAX as int,
        decreases n - k,
    {
        let c = seg.get_char(k);
        let d = (c as u32) - 48;
        proof {
            let t = seg@.skip(k as int);
            assert(t[0] == seg@[k as int]);
            assert(t.skip(1) =~= seg@.skip(k as int + 1));
            assert(seg@.take(k as int) + (seq![seg@[k as int]] + leading_digits(
                seg@.skip(k as int + 1),
            )) =~= seg@.take(k as int + 1) + leading_digits(seg@.skip(k as int + 1)));
            assert(seg@.take(k as int + 1).drop_last() =~= seg@.take(k as int));
            assert(seg@.take(k as int + 1).last() == seg@[k as int]);
        }
        if !over {
            let nv = val * 10 + (d as u64);
            if nv > 0xffff_ffff {
                over = true;
            } else {
                val = nv;
            }
        } else {
            proof {
                lemma_digits_val_nonneg(seg@.take(k as int));
            }
        }
        k += 1;
    }
    proof {
        if k < n {
            assert(seg@.skip(k as int)[0] == seg@[k as int]);
        }
        assert(leading_digits(seg@) =~= seg@.take(k as int));
    }
    if k == 0 || over {
        None
    } else {
        Some(val as u32)
    }
}

/// The numeric parts of a version string: the string is cut at the
/// first `-` or `+`, split on dots, and each segment contributes its
/// leading decimal digits when they fit a 32-bit value.
pub fn parse_version(version: &str) -> (r: Vec<u32>)
    ensures
        u32s(r@) == version_parts(version@),
{
    let t = before_separator(version);
    let segs = split_on_dots(t.as_str());
    let ghost segviews = segs@.map_values(|s: String| s@);
    let mut parts: Vec<u32> = Vec::new();
    let mut i: usize = 0;
    while i < segs.len()
        invariant
            0 <= i <= segs@.len(),
            segviews == segs@.map_values(|s: String| s@),
            u32s(parts@) =~= parts_of(segviews.take(i as int)),
        decreases segs@.len() - i,
    {
        proof {
            assert(segviews.take(i as int + 1).drop_last() =~= segviews.take(i as int));
            assert(segviews.take(i as int + 1).last() == segviews[i as int]);
            assert(segs@[i as int]@ == segviews[i as int]);
        }
        match seg_value_exec(&segs[i]) {
            Some(v) => {
                parts.push(v);
                proof {
                    assert(u32s(parts@) =~= parts_of(segviews.take(i as int)).push(v as int));
                }
            },
            None => {},
        }
        i += 1;
    }
    proof {
        assert(segviews.take(segs@.len() as int) =~= segviews);
    }
    parts
}

/// Whether `latest` is strictly newer than `current`, under the
/// heuristic comparison rule `spec_is_newer`.
pub fn is_newer_version(current: &str, latest: &str) -> (r: bool)
    ensures
        r == spec_is_newer(current@, latest@),
{
    let c = strip_leading_v(current);
    let l = strip_leading_v(latest);
    if c.unicode_len() == 0 || str_eq(c.as_str(), "0.0.0") {
        return true;
    }
    if str_eq(l.as_str(), c.as_str()) {
        return false;
    }
    let cp = parse_version(c.as_str());
    let lp = parse_version(l.as_str());
    let ghost cs = u32s(cp@);
    let ghost ls = u32s(lp@);
    let max_len = if cp.len() > lp.len() {
        cp.len()
    } else {
        lp.len()
    };
    let mut i: usize = 0;
    while i < max_len
        invariant
            0 <= i <= max_len,
            cs == u32s(cp@),
            ls == u32s(lp@),
            cs == version_parts(c@),
            ls == version_parts(l@),
            c@ == strip_v(current@),
            l@ == strip_v(latest@),
            c@.len() != 0,
            c@ != "0.0.0"@,
            l@ != c@,
            cp@.len() <= max_len,
            lp@.len() <= max_len,
            forall|j: int| 0 <= j < i ==> part_at(cs, j) == part_at(ls, j),
        decreases max_len - i,
    {
        let cv = if i < cp.len() {
            cp[i]
        } else {
            0
        };
        let lv = if i < lp.len() {
            lp[i]
        } else {
            0
        };
        proof {
            assert(part_at(cs, i as int) == cv as int);
            assert(part_at(ls, i as int) == lv as int);
        }
        if lv > cv {
            proof {
                assert(parts_newer(cs, ls));
            }
            return true;
        }
        if lv < cv {
            proof {
                assert forall|k: int| 0 <= k implies !((forall|j: int|
                    0 <= j < k ==> part_at(cs, j) == part_at(ls, j)) && part_at(ls, k) > part_at(
                    cs,
                    k,
                )) by {
                    if k > i {
                        assert(part_at(cs, i as int) != part_at(ls, i as int));
                    }
                }
            }
            return false;
        }
        i += 1;
    }
    proof {
        assert forall|k: int| 0 <= k implies !(part_at(ls, k) > part_at(cs, k)) by {
            if k >= max_len {
                assert(part_at(cs, k) == 0 && part_at(ls, k) == 0);
            }
        }
    }
    false
}

/// Law: when the current version is unknown — the empty string or the
/// zero version — any latest version is reported as newer.
pub proof fn lemma_unknown_current_always_newer(current: Seq<char>, latest: Seq<char>)
    requires
        current == Seq::<char>::empty() || current == "0.0.0"@,
    ensures
        spec_is_newer(current, latest),
{
    reveal_strlit("0.0.0");
    if current == "0.0.0"@ {
        assert(current[0] == '0');
        assert(strip_v(current) == current);
    }
}

/// At some position at or before `i` the two part sequences differ, so
/// one of them is newer than the other.
proof fn lemma_first_diff(cur: Seq<int>, lat: Seq<int>, i: int)
    requires
        0 <= i,
        part_at(cur, i) != part_at(lat, i),
    ensures
        parts_newer(cur, lat) || parts_newer(lat, cur),
    decreases i,
{
    if exists|j: int| 0 <= j < i && part_at(cur, j) != part_at(lat, j) {
        let j = choose|j: int| 0 <= j < i && part_at(cur, j) != part_at(lat, j);
        lemma_first_diff(cur, lat, j);
    } else {
        assert(forall|j: int| 0 <= j < i ==> part_at(cur, j) == part_at(lat, j));
        if part_at(lat, i) > part_at(cur, i) {
            assert(parts_newer(cur, lat));
        } else {
            assert(part_at(cur, i) > part_at(lat, i));
            assert(parts_newer(lat, cur));
        }
    }
}

/// Law: the numeric comparison is anti-symmetric: two part sequences
/// are treated as equal — neither newer than the other — exactly when
/// they agree at every position, with missing positions read as zero.
pub proof fn lemma_comparison_antisymmetric(a: Seq<int>, b: Seq<int>)
    ensures
        (!parts_newer(a, b) && !parts_newer(b, a)) <==> (forall|i: int|
            0 <= i ==> part_at(a, i) == part_at(b, i)),
{
    if !(forall|i: int| 0 <= i ==> part_at(a, i) == part_at(b, i)) {
        let i = choose|i: int| 0 <= i && part_at(a, i) != part_at(b, i);
        lemma_first_diff(a, b, i);
    }
    if (forall|i: int| 0 <= i ==> part_at(a, i) == part_at(b, i)) {
        if parts_newer(a, b) {
            let k = choose|k: int|
                0 <= k && (forall|j: int| 0 <= j < k ==> part_at(a, j) == part_at(b, j))
                    && part_at(b, k) > part_at(a, k);
            assert(part_at(a, k) == part_at(b, k));
        }
        if parts_newer(b, a) {
            let k = choose|k: int|
                0 <= k && (forall|j: int| 0 <= j < k ==> part_at(b, j) == part_at(a, j))
                    && part_at(a, k) > part_at(b, k);
            assert(part_at(a, k) == part_at(b, k));
        }
    }
}

/// Law: a version string is never reported as newer than itself, for
/// any string not treated as an unknown version (one whose `v`-stripped
/// form is non-empty and different from the zero version).
pub proof fn lemma_same_version_not_newer(x: Seq<char>)
    requires
        strip_v(x).len() > 0,
        strip_v(x) != "0.0.0"@,
    ensures
        !spec_is_newer(x, x),
{
}

} // verus!
