//! Small string helpers shared by the other modules: appending a
//! character to a `String`, character-wise string equality, and
//! ASCII-case-insensitive matching over byte sequences.

use vstd::prelude::*;

verus! {

/// Relies on `String::push`: appends exactly one character at the end.
#[verifier::external_body]
pub(crate) fn push_char(s: &mut String, c: char)
    ensures
        final(s)@ == old(s)@.push(c),
{
    s.push(c);
}

/// Character-wise equality of two string slices.
pub fn str_eq(a: &str, b: &str) -> (r: bool)
    ensures
        r == (a@ == b@),
{
    let na = a.unicode_len();
    let nb = b.unicode_len();
    if na != nb {
        return false;
    }
    let mut i: usize = 0;
    while i < na
        invariant
            0 <= i <= na,
            na == a@.len(),
            na == b@.len(),
            forall|j: int| 0 <= j < i ==> a@[j] == b@[j],
        decreases na - i,
    {
        if a.get_char(i) != b.get_char(i) {
            return false;
        }
        i += 1;
    }
    proof {
        assert(a@ =~= b@);
    }
    true
}

/// The ASCII lower-case image of one byte: letters `A` to `Z` map to
/// `a` to `z`, everything else is unchanged.
pub open spec fn lower_byte(b: u8) -> u8 {
    if 65 <= b <= 90 {
        (b + 32) as u8
    } else {
        b
    }
}

/// The ASCII lower-case image of a byte sequence.
pub open spec fn lower_bytes(s: Seq<u8>) -> Seq<u8> {
    s.map_values(|b: u8| lower_byte(b))
}

/// Lower-cases the ASCII letters of a byte vector.
pub fn to_lower_bytes(s: &Vec<u8>) -> (r: Vec<u8>)
    ensures
        r@ == lower_bytes(s@),
{
    let mut r: Vec<u8> = Vec::new();
    let mut i: usize = 0;
    while i < s.len()
        invariant
            0 <= i <= s@.len(),
            r@ =~= lower_bytes(s@.take(i as int)),
        decreases s@.len() - i,
    {
        let b = s[i];
        if 65 <= b && b <= 90 {
            r.push(b + 32);
        } else {
            r.push(b);
        }
        proof {
            assert(lower_bytes(s@.take(i + 1 as int)) =~= lower_bytes(s@.take(i as int)).push(
                lower_byte(s@[i as int]),
            ));
        }
        i += 1;
    }
    proof {
        assert(s@.take(s@.len() as int) =~= s@);
    }
    r
}

/// An ASCII whitespace character.
pub open spec fn is_ws_char(c: char) -> bool {
    c as u32 == 32 || (9 <= c as u32 <= 13)
}

/// The ASCII lower-case image of a character's code point.
pub open spec fn lower_code(u: u32) -> u32 {
    if 65 <= u <= 90 {
        (u + 32) as u32
    } else {
        u
    }
}

/// Two strings are equal ignoring ASCII case.
pub open spec fn eq_ignore_case(a: Seq<char>, b: Seq<char>) -> bool {
    a.len() == b.len() && forall|i: int|
        0 <= i < a.len() ==> lower_code(#[trigger] a[i] as u32) == lower_code(b[i] as u32)
}

/// `a` starts with `b`, ignoring ASCII case.
pub open spec fn starts_with_ci(a: Seq<char>, b: Seq<char>) -> bool {
    a.len() >= b.len() && eq_ignore_case(a.take(b.len() as int), b)
}

/// Whether two string slices are equal ignoring ASCII case.
pub fn eq_ignore_case_str(a: &str, b: &str) -> (r: bool)
    ensures
        r == eq_ignore_case(a@, b@),
{
    let na = a.unicode_len();
    let nb = b.unicode_len();
    if na != nb {
        return false;
    }
    let mut i: usize = 0;
    while i < na
        invariant
            0 <= i <= na,
            na == a@.len(),
            na == b@.len(),
            forall|j: int|
                0 <= j < i ==> lower_code(#[trigger] a@[j] as u32) == lower_code(b@[j] as u32),
        decreases na - i,
    {
        let ua = a.get_char(i) as u32;
        let ub = b.get_char(i) as u32;
        let la = if 65 <= ua && ua <= 90 {
            ua + 32
        } else {
            ua
        };
        let lb = if 65 <= ub && ub <= 90 {
            ub + 32
        } else {
            ub
        };
        if la != lb {
            return false;
        }
        i += 1;
    }
    true
}

/// Whether `a` starts with `b`, ignoring ASCII case.
pub fn starts_with_ci_str(a: &str, b: &str) -> (r: bool)
    ensures
        r == starts_with_ci(a@, b@),
{
    let na = a.unicode_len();
    let nb = b.unicode_len();
    if na < nb {
        return false;
    }
    let mut i: usize = 0;
    while i < nb
        invariant
            0 <= i <= nb,
            na == a@.len(),
            nb == b@.len(),
            nb <= na,
            forall|j: int|
                0 <= j < i ==> lower_code(#[trigger] a@[j] as u32) == lower_code(b@[j] as u32),
        decreases nb - i,
    {
        let ua = a.get_char(i) as u32;
        let ub = b.get_char(i) as u32;
        let la = if 65 <= ua && ua <= 90 {
            ua + 32
        } else {
            ua
        };
        let lb = if 65 <= ub && ub <= 90 {
            ub + 32
        } else {
            ub
        };
        if la != lb {
            proof {
                assert(a@.take(b@.len() as int)[i as int] == a@[i as int]);
            }
            return false;
        }
        i += 1;
    }
    proof {
        assert(forall|j: int|
            0 <= j < nb ==> #[trigger] a@.take(b@.len() as int)[j] == a@[j]);
    }
    true
}

/// The string with leading ASCII whitespace removed.
pub open spec fn drop_lead(s: Seq<char>) -> Seq<char>
    decreases s.len(),
{
    if s.len() > 0 && is_ws_char(s[0]) {
        drop_lead(s.skip(1))
    } else {
        s
    }
}

/// The string with trailing ASCII whitespace removed.
pub open spec fn drop_trail(s: Seq<char>) -> Seq<char>
    decreases s.len(),
{
    if s.len() > 0 && is_ws_char(s.last()) {
        drop_trail(s.drop_last())
    } else {
        s
    }
}

/// The string with whitespace removed at both ends.
pub open spec fn trim_chars(s: Seq<char>) -> Seq<char> {
    drop_trail(drop_lead(s))
}

/// Removes ASCII whitespace at both ends of a string.
pub fn trim_str(s: &str) -> (r: String)
    ensures
        r@ == trim_chars(s@),
{
    let n = s.unicode_len();
    let mut a: usize = 0;
    proof {
        assert(s@.skip(0) =~= s@);
    }
    while a < n && s.get_char(a) as u32 == 32 || a < n && 9 <= s.get_char(a) as u32 && s.get_char(
        a,
    ) as u32 <= 13
        invariant
            0 <= a <= n,
            n == s@.len(),
            drop_lead(s@) == drop_lead(s@.skip(a as int)),
        decreases n - a,
    {
        proof {
            assert(s@.skip(a as int)[0] == s@[a as int]);
            assert(s@.skip(a as int).skip(1) =~= s@.skip(a as int + 1));
        }
        a += 1;
    }
    proof {
        if a < n {
            assert(s@.skip(a as int)[0] == s@[a as int]);
        }
        assert(drop_lead(s@) == s@.skip(a as int));
        assert(s@.skip(a as int) =~= s@.subrange(a as int, n as int));
    }
    let mut b: usize = n;
    proof {
        assert(drop_trail(s@.skip(a as int)) == drop_trail(s@.subrange(a as int, b as int)));
    }
    while b > a && s.get_char(b - 1) as u32 == 32 || b > a && 9 <= s.get_char(b - 1) as u32
        && s.get_char(b - 1) as u32 <= 13
        invariant
            a <= b <= n,
            n == s@.len(),
            drop_lead(s@) == s@.skip(a as int),
            drop_trail(s@.skip(a as int)) == drop_trail(s@.subrange(a as int, b as int)),
        decreases b,
    {
        proof {
            let t = s@.subrange(a as int, b as int);
            assert(t.last() == s@[b - 1]);
            assert(t.drop_last() =~= s@.subrange(a as int, b as int - 1));
        }
        b -= 1;
    }
    proof {
        let t = s@.subrange(a as int, b as int);
        if b > a {
            assert(t.last() == s@[b - 1]);
        }
        assert(drop_trail(s@.subrange(a as int, b as int)) == s@.subrange(a as int, b as int));
    }
    let r = s.substring_char(a, b);
    String::from_str(r)
}

/// The prefix of a string before the first occurrence of `c`, or the
/// whole string when `c` does not occur.
pub open spec fn before_char(s: Seq<char>, c: char) -> Seq<char>
    decreases s.len(),
{
    if s.len() == 0 {
        s
    } else if s[0] == c {
        Seq::empty()
    } else {
        seq![s[0]] + before_char(s.skip(1), c)
    }
}

/// What follows the first occurrence of `c`, or the empty string when
/// `c` does not occur.
pub open spec fn after_char(s: Seq<char>, c: char) -> Seq<char> {
    if before_char(s, c).len() == s.len() {
        Seq::empty()
    } else {
        s.skip(before_char(s, c).len() + 1 as int)
    }
}

/// The position of the first occurrence of `c`, or the length.
pub fn find_char(s: &str, c: char) -> (r: usize)
    ensures
        r <= s@.len(),
        before_char(s@, c) == s@.take(r as int),
        r < s@.len() ==> s@[r as int] == c && after_char(s@, c) == s@.skip(r as int + 1),
        r == s@.len() ==> after_char(s@, c) == Seq::<char>::empty(),
{
    let n = s.unicode_len();
    let mut i: usize = 0;
    proof {
        assert(s@.skip(0) =~= s@);
        assert(s@.take(0) + before_char(s@, c) =~= before_char(s@, c));
    }
    while i < n && s.get_char(i) != c
        invariant
            0 <= i <= n,
            n == s@.len(),
            before_char(s@, c) == s@.take(i as int) + before_char(s@.skip(i as int), c),
            forall|j: int| 0 <= j < i ==> s@[j] != c,
        decreases n - i,
    {
        proof {
            let t = s@.skip(i as int);
            assert(t[0] == s@[i as int]);
            assert(t.skip(1) =~= s@.skip(i as int + 1));
            assert(s@.take(i as int) + (seq![s@[i as int]] + before_char(s@.skip(i as int + 1), c))
                =~= s@.take(i as int + 1) + before_char(s@.skip(i as int + 1), c));
        }
        i += 1;
    }
    proof {
        if i < n {
            assert(s@.skip(i as int)[0] == s@[i as int]);
        }
        assert(before_char(s@, c) =~= s@.take(i as int));
    }
    i
}

/// The string split at every line feed, keeping empty pieces.
pub open spec fn split_lf_chars(s: Seq<char>) -> Seq<Seq<char>>
    decreases s.len(),
{
    if s.len() == 0 {
        seq![Seq::<char>::empty()]
    } else if s.last() == '\n' {
        split_lf_chars(s.drop_last()).push(Seq::empty())
    } else {
        let p = split_lf_chars(s.drop_last());
        p.update(p.len() - 1, p.last().push(s.last()))
    }
}

/// A line with one trailing carriage return removed.
pub open spec fn strip_cr_chars(l: Seq<char>) -> Seq<char> {
    if l.len() > 0 && l.last() == '\r' {
        l.drop_last()
    } else {
        l
    }
}

/// The lines of a text, as `str::lines` yields them.
pub open spec fn lines_chars(s: Seq<char>) -> Seq<Seq<char>> {
    let p = split_lf_chars(s);
    let q = if p.last().len() == 0 {
        p.drop_last()
    } else {
        p
    };
    q.map_values(|l: Seq<char>| strip_cr_chars(l))
}

/// Splits a text into its lines.
pub fn split_lines_str(s: &str) -> (r: Vec<String>)
    ensures
        r@.map_values(|l: String| l@) == lines_chars(s@),
{
    let n = s.unicode_len();
    let mut parts: Vec<String> = Vec::new();
    let mut cur = String::new();
    let mut j: usize = 0;
    while j < n
        invariant
            0 <= j <= n,
            n == s@.len(),
            parts@.map_values(|l: String| l@).push(cur@) =~= split_lf_chars(s@.take(j as int)),
        decreases n - j,
    {
        let ch = s.get_char(j);
        proof {
            assert(s@.take(j as int + 1).drop_last() =~= s@.take(j as int));
            assert(s@.take(j as int + 1).last() == s@[j as int]);
        }
        if ch == '\n' {
            let ghost old_map = parts@.map_values(|l: String| l@);
            parts.push(cur);
            cur = String::new();
            proof {
                assert(parts@.map_values(|l: String| l@) =~= old_map.push(
                    split_lf_chars(s@.take(j as int)).last(),
                ));
                assert(parts@.map_values(|l: String| l@).push(cur@) =~= split_lf_chars(
                    s@.take(j as int + 1),
                ));
            }
        } else {
            let ghost p = split_lf_chars(s@.take(j as int));
            push_char(&mut cur, ch);
            proof {
                assert(p.update(p.len() - 1, p.last().push(ch)) =~= parts@.map_values(
                    |l: String| l@,
                ).push(cur@));
            }
        }
        j += 1;
    }
    proof {
        assert(s@.take(n as int) =~= s@);
    }
    let ghost whole = split_lf_chars(s@);
    if cur.unicode_len() > 0 {
        parts.push(cur);
        proof {
            assert(parts@.map_values(|l: String| l@) =~= whole);
        }
    } else {
        proof {
            assert(whole.last().len() == 0);
            assert(parts@.map_values(|l: String| l@) =~= whole.drop_last());
        }
    }
    let mut out: Vec<String> = Vec::new();
    let ghost q = parts@.map_values(|l: String| l@);
    let mut i: usize = 0;
    while i < parts.len()
        invariant
            0 <= i <= parts@.len(),
            q == parts@.map_values(|l: String| l@),
            out@.map_values(|l: String| l@) =~= q.take(i as int).map_values(
                |l: Seq<char>| strip_cr_chars(l),
            ),
        decreases parts@.len() - i,
    {
        let line = &parts[i];
        let ln = line.as_str().unicode_len();
        let stripped: String;
        if ln > 0 && line.as_str().get_char(ln - 1) == '\r' {
            stripped = String::from_str(line.as_str().substring_char(0, ln - 1));
            proof {
                assert(line@.subrange(0, line@.len() - 1) =~= line@.drop_last());
            }
        } else {
            stripped = String::from_str(line.as_str().substring_char(0, ln));
            proof {
                assert(line@.subrange(0, line@.len() as int) =~= line@);
            }
        }
        out.push(stripped);
        proof {
            assert(q.take(i as int + 1).map_values(|l: Seq<char>| strip_cr_chars(l)) =~= q.take(
                i as int,
            ).map_values(|l: Seq<char>| strip_cr_chars(l)).push(strip_cr_chars(q[i as int])));
            assert(q[i as int] == parts@[i as int]@);
        }
        i += 1;
    }
    proof {
        assert(q.take(q.len() as int) =~= q);
    }
    out
}

/// Lines joined with a line feed between each pair, no trailing one.
pub open spec fn join_lines(ls: Seq<Seq<char>>) -> Seq<char>
    decreases ls.len(),
{
    if ls.len() == 0 {
        Seq::empty()
    } else if ls.len() == 1 {
        ls[0]
    } else {
        join_lines(ls.drop_last()) + seq!['\n'] + ls.last()
    }
}

/// Joins lines with a line feed between each pair.
pub fn join_lines_vec(lines: &Vec<String>) -> (r: String)
    ensures
        r@ == join_lines(lines@.map_values(|l: String| l@)),
{
    let ghost lv = lines@.map_values(|l: String| l@);
    let mut acc = String::new();
    let mut i: usize = 0;
    while i < lines.len()
        invariant
            0 <= i <= lines@.len(),
            lv == lines@.map_values(|l: String| l@),
            acc@ =~= join_lines(lv.take(i as int)),
        decreases lines@.len() - i,
    {
        proof {
            reveal_strlit("\n");
            assert("\n"@ =~= seq!['\n']);
            assert(lv.take(i as int + 1).drop_last() =~= lv.take(i as int));
            assert(lv.take(i as int + 1).last() == lv[i as int]);
            assert(lv[i as int] == lines@[i as int]@);
        }
        if i > 0 {
            acc.append("\n");
        }
        acc.append(lines[i].as_str());
        proof {
            if i == 0 {
                assert(lv.take(1)[0] == lv[0]);
            }
        }
        i += 1;
    }
    proof {
        assert(lv.take(lv.len() as int) =~= lv);
    }
    acc
}

/// `needle` occurs in `hay` starting at position `i`.
pub open spec fn matches_at(hay: Seq<u8>, needle: Seq<u8>, i: int) -> bool {
    0 <= i && i + needle.len() <= hay.len() && hay.subrange(i, i + needle.len()) == needle
}

/// `needle` occurs somewhere in `hay`.
pub open spec fn contains_seq(hay: Seq<u8>, needle: Seq<u8>) -> bool {
    exists|i: int| matches_at(hay, needle, i)
}

/// `hay` ends with `needle`.
pub open spec fn ends_with_seq(hay: Seq<u8>, needle: Seq<u8>) -> bool {
    needle.len() <= hay.len() && hay.subrange(
        hay.len() - needle.len(),
        hay.len() as int,
    ) == needle
}

/// Byte-wise equality of two byte vectors.
pub fn bytes_eq(a: &Vec<u8>, b: &Vec<u8>) -> (r: bool)
    ensures
        r == (a@ == b@),
{
    if a.len() != b.len() {
        return false;
    }
    let mut i: usize = 0;
    while i < a.len()
        invariant
            0 <= i <= a@.len(),
            a@.len() == b@.len(),
            forall|j: int| 0 <= j < i ==> a@[j] == b@[j],
        decreases a@.len() - i,
    {
        if a[i] != b[i] {
            return false;
        }
        i += 1;
    }
    proof {
        assert(a@ =~= b@);
    }
    true
}

/// A copy of `s[from..to]`.
pub fn subrange_vec(s: &Vec<u8>, from: usize, to: usize) -> (r: Vec<u8>)
    requires
        from <= to <= s@.len(),
    ensures
        r@ == s@.subrange(from as int, to as int),
{
    let mut r: Vec<u8> = Vec::new();
    let mut i: usize = from;
    while i < to
        invariant
            from <= i <= to <= s@.len(),
            r@ =~= s@.subrange(from as int, i as int),
        decreases to - i,
    {
        r.push(s[i]);
        proof {
            assert(s@.subrange(from as int, i as int + 1) =~= s@.subrange(
                from as int,
                i as int,
            ).push(s@[i as int]));
        }
        i += 1;
    }
    r
}

/// The string whose characters are the bytes of `s`, read as the first
/// 256 code points.
pub fn bytes_to_string(s: &Vec<u8>) -> (r: String)
    ensures
        r@ == s@.map_values(|b: u8| b as char),
{
    let mut r = String::new();
    let mut i: usize = 0;
    while i < s.len()
        invariant
            0 <= i <= s@.len(),
            r@ =~= s@.take(i as int).map_values(|b: u8| b as char),
        decreases s@.len() - i,
    {
        push_char(&mut r, s[i] as char);
        proof {
            assert(s@.take(i as int + 1).map_values(|b: u8| b as char) =~= s@.take(
                i as int,
            ).map_values(|b: u8| b as char).push(s@[i as int] as char));
        }
        i += 1;
    }
    proof {
        assert(s@.take(s@.len() as int) =~= s@);
    }
    r
}

/// `needle` occurs in `hay` starting at position `at`.
fn matches_at_exec(hay: &Vec<u8>, needle: &Vec<u8>, at: usize) -> (r: bool)
    requires
        at + needle@.len() <= hay@.len(),
    ensures
        r == matches_at(hay@, needle@, at as int),
{
    let hn = hay.len();
    let nn = needle.len();
    let mut j: usize = 0;
    while j < nn
        invariant
            0 <= j <= nn,
            hn == hay@.len(),
            nn == needle@.len(),
            at + nn <= hn,
            forall|k: int| 0 <= k < j ==> hay@[at + k] == needle@[k],
        decreases nn - j,
    {
        if hay[at + j] != needle[j] {
            proof {
                assert(hay@.subrange(at as int, at + needle@.len())[j as int] == hay@[at + j]);
            }
            return false;
        }
        j += 1;
    }
    proof {
        assert(hay@.subrange(at as int, at + needle@.len()) =~= needle@);
    }
    true
}

/// `needle` occurs somewhere in `hay`.
pub fn contains_bytes(hay: &Vec<u8>, needle: &Vec<u8>) -> (r: bool)
    ensures
        r == contains_seq(hay@, needle@),
{
    if needle.len() > hay.len() {
        proof {
            assert(forall|i: int| !matches_at(hay@, needle@, i));
        }
        return false;
    }
    if needle.len() == 0 {
        proof {
            assert(hay@.subrange(0, 0) =~= needle@);
            assert(matches_at(hay@, needle@, 0));
        }
        return true;
    }
    let last = hay.len() - needle.len();
    let mut i: usize = 0;
    while i <= last
        invariant
            0 <= i <= last + 1,
            last + needle@.len() == hay@.len(),
            needle@.len() >= 1,
            last < usize::MAX,
            forall|k: int| 0 <= k < i ==> !matches_at(hay@, needle@, k),
        decreases last + 1 - i,
    {
        if matches_at_exec(hay, needle, i) {
            return true;
        }
        i += 1;
    }
    proof {
        assert(forall|k: int| matches_at(hay@, needle@, k) ==> 0 <= k <= last);
    }
    false
}

/// `hay` ends with `needle`.
pub fn ends_with_bytes(hay: &Vec<u8>, needle: &Vec<u8>) -> (r: bool)
    ensures
        r == ends_with_seq(hay@, needle@),
{
    if needle.len() > hay.len() {
        return false;
    }
    matches_at_exec(hay, needle, hay.len() - needle.len())
}

} // verus!
