//! Integrity verification: a plain-text checksum manifest — one
//! `<hex digest> <optional *><file name>` entry per line — is searched
//! for the downloaded file's name, and the file's SHA-256 digest must
//! equal the published one. A mismatch aborts the installation.

use vstd::prelude::*;
use vstd::utf8::encode_utf8;

use crate::errors::UpdateError;
use crate::text::bytes_eq;
use crate::text::bytes_to_string;
use crate::text::ends_with_bytes;
use crate::text::ends_with_seq;
use crate::text::lower_bytes;
use crate::text::subrange_vec;
use crate::text::to_lower_bytes;

verus! {

/// The SHA-256 digest of a byte sequence; a function of the bytes
/// alone, left without a definition and pinned only by the trusted
/// wrapper below.
pub uninterp spec fn sha256_of(data: Seq<u8>) -> Seq<u8>;

/// Relies on sha2's `Sha256::digest`: the SHA-256 digest of the input,
/// which depends on the input bytes alone and is 32 bytes long.
#[verifier::external_body]
fn sha256_digest(data: &Vec<u8>) -> (r: Vec<u8>)
    ensures
        r@ == sha256_of(data@),
        r@.len() == 32,
{
    let d = <sha2::Sha256 as sha2::Digest>::digest(data.as_slice());
    d.to_vec()
}

/// The ASCII code of one hexadecimal digit, lower case.
pub open spec fn hex_digit(v: int) -> u8 {
    if v < 10 {
        (48 + v) as u8
    } else {
        (87 + v) as u8
    }
}

/// The lower-case hexadecimal image of a byte sequence, two digits per
/// byte, most significant first.
pub open spec fn hex_of(data: Seq<u8>) -> Seq<u8> {
    Seq::new(
        data.len() * 2,
        |i: int|
            if i % 2 == 0 {
                hex_digit((data[i / 2] / 16) as int)
            } else {
                hex_digit((data[i / 2] % 16) as int)
            },
    )
}

/// Writes a byte vector as lower-case hexadecimal digits.
pub fn to_hex(data: &Vec<u8>) -> (r: Vec<u8>)
    ensures
        r@ == hex_of(data@),
{
    let mut r: Vec<u8> = Vec::new();
    let mut i: usize = 0;
    while i < data.len()
        invariant
            0 <= i <= data@.len(),
            r@ =~= hex_of(data@.take(i as int)),
        decreases data@.len() - i,
    {
        let b = data[i];
        let hi = b / 16;
        let lo = b % 16;
        let hb: u8 = if hi < 10 {
            48 + hi
        } else {
            87 + hi
        };
        let lb: u8 = if lo < 10 {
            48 + lo
        } else {
            87 + lo
        };
        r.push(hb);
        r.push(lb);
        proof {
            assert(hex_of(data@.take(i as int + 1)) =~= hex_of(data@.take(i as int)).push(
                hex_digit((data@[i as int] / 16) as int),
            ).push(hex_digit((data@[i as int] % 16) as int)));
        }
        i += 1;
    }
    proof {
        assert(data@.take(data@.len() as int) =~= data@);
    }
    r
}

/// An ASCII whitespace byte.
pub open spec fn is_ws(b: u8) -> bool {
    b == 32 || (9 <= b <= 13)
}

/// The bytes split at every line feed, keeping empty pieces.
pub open spec fn split_lf(s: Seq<u8>) -> Seq<Seq<u8>>
    decreases s.len(),
{
    if s.len() == 0 {
        seq![Seq::<u8>::empty()]
    } else if s.last() == 10 {
        split_lf(s.drop_last()).push(Seq::empty())
    } else {
        let p = split_lf(s.drop_last());
        p.update(p.len() - 1, p.last().push(s.last()))
    }
}

/// A line with one trailing carriage return removed.
pub open spec fn strip_cr(l: Seq<u8>) -> Seq<u8> {
    if l.len() > 0 && l.last() == 13 {
        l.drop_last()
    } else {
        l
    }
}

/// The lines of a manifest, as `str::lines` yields them: split at line
/// feeds, a final empty piece dropped, carriage returns stripped.
pub open spec fn manifest_lines(s: Seq<u8>) -> Seq<Seq<u8>> {
    let p = split_lf(s);
    let q = if p.last().len() == 0 {
        p.drop_last()
    } else {
        p
    };
    q.map_values(|l: Seq<u8>| strip_cr(l))
}

/// The bytes with leading whitespace removed.
pub open spec fn drop_ws(s: Seq<u8>) -> Seq<u8>
    decreases s.len(),
{
    if s.len() > 0 && is_ws(s[0]) {
        drop_ws(s.skip(1))
    } else {
        s
    }
}

/// The run of non-whitespace bytes at the front.
pub open spec fn take_tok(s: Seq<u8>) -> Seq<u8>
    decreases s.len(),
{
    if s.len() > 0 && !is_ws(s[0]) {
        seq![s[0]] + take_tok(s.skip(1))
    } else {
        Seq::empty()
    }
}

/// The first whitespace-separated token of a line.
pub open spec fn first_tok(s: Seq<u8>) -> Seq<u8> {
    take_tok(drop_ws(s))
}

/// The rest of the line after its first token.
pub open spec fn after_first_tok(s: Seq<u8>) -> Seq<u8> {
    drop_ws(s).skip(first_tok(s).len() as int)
}

/// A token with every leading `*` removed, as checksum tools mark
/// binary-mode files.
pub open spec fn strip_stars(s: Seq<u8>) -> Seq<u8>
    decreases s.len(),
{
    if s.len() > 0 && s[0] == 42 {
        strip_stars(s.skip(1))
    } else {
        s
    }
}

/// A manifest entry's file name refers to the wanted file: equal
/// ignoring ASCII case, or a path-qualified entry ending in it.
pub open spec fn name_matches(n: Seq<u8>, want: Seq<u8>) -> bool {
    lower_bytes(n) == lower_bytes(want) || ends_with_seq(n, want)
}

/// The digest one line publishes for the wanted file, if the line has
/// at least two tokens and its file name matches.
pub open spec fn line_hash_for(l: Seq<u8>, want: Seq<u8>) -> Option<Seq<u8>> {
    let h = first_tok(l);
    let n0 = first_tok(after_first_tok(l));
    let n = strip_stars(n0);
    if h.len() == 0 || n0.len() == 0 {
        None
    } else if name_matches(n, want) {
        Some(lower_bytes(h))
    } else {
        None
    }
}

/// The digest the first matching line from position `i` on publishes.
pub open spec fn expected_hash_from(lines: Seq<Seq<u8>>, want: Seq<u8>, i: int) -> Option<Seq<u8>>
    decreases lines.len() - i,
{
    if i < 0 || i >= lines.len() {
        None
    } else {
        match line_hash_for(lines[i], want) {
            Some(h) => Some(h),
            None => expected_hash_from(lines, want, i + 1),
        }
    }
}

/// The digest a manifest publishes for the wanted file name, if any.
pub open spec fn spec_expected_hash(manifest: Seq<u8>, want: Seq<u8>) -> Option<Seq<u8>> {
    expected_hash_from(manifest_lines(manifest), want, 0)
}

/// Splits manifest bytes into lines.
fn split_manifest_lines(s: &Vec<u8>) -> (r: Vec<Vec<u8>>)
    ensures
        r@.map_values(|l: Vec<u8>| l@) == manifest_lines(s@),
{
    let n = s.len();
    let mut parts: Vec<Vec<u8>> = Vec::new();
    let mut cur: Vec<u8> = Vec::new();
    let mut j: usize = 0;
    while j < n
        invariant
            0 <= j <= n,
            n == s@.len(),
            parts@.map_values(|l: Vec<u8>| l@).push(cur@) =~= split_lf(s@.take(j as int)),
        decreases n - j,
    {
        let b = s[j];
        proof {
            assert(s@.take(j as int + 1).drop_last() =~= s@.take(j as int));
            assert(s@.take(j as int + 1).last() == s@[j as int]);
        }
        if b == 10 {
            let ghost old_map = parts@.map_values(|l: Vec<u8>| l@);
            parts.push(cur);
            cur = Vec::new();
            proof {
                assert(parts@.map_values(|l: Vec<u8>| l@) =~= old_map.push(
                    split_lf(s@.take(j as int)).last(),
                ));
                assert(parts@.map_values(|l: Vec<u8>| l@).push(cur@) =~= split_lf(
                    s@.take(j as int + 1),
                ));
            }
        } else {
            let ghost p = split_lf(s@.take(j as int));
            cur.push(b);
            proof {
                assert(p.update(p.len() - 1, p.last().push(s@[j as int])) =~= parts@.map_values(
                    |l: Vec<u8>| l@,
                ).push(cur@));
            }
        }
        j += 1;
    }
    proof {
        assert(s@.take(n as int) =~= s@);
    }
    let ghost whole = split_lf(s@);
    if cur.len() > 0 {
        parts.push(cur);
        proof {
            assert(parts@.map_values(|l: Vec<u8>| l@) =~= whole);
        }
    } else {
        proof {
            assert(whole.last().len() == 0);
            assert(parts@.map_values(|l: Vec<u8>| l@) =~= whole.drop_last());
        }
    }
    let mut out: Vec<Vec<u8>> = Vec::new();
    let ghost q = parts@.map_values(|l: Vec<u8>| l@);
    let mut i: usize = 0;
    while i < parts.len()
        invariant
            0 <= i <= parts@.len(),
            q == parts@.map_values(|l: Vec<u8>| l@),
            out@.map_values(|l: Vec<u8>| l@) =~= q.take(i as int).map_values(
                |l: Seq<u8>| strip_cr(l),
            ),
        decreases parts@.len() - i,
    {
        let line = &parts[i];
        let mut stripped: Vec<u8>;
        if line.len() > 0 && line[line.len() - 1] == 13 {
            stripped = subrange_vec(line, 0, line.len() - 1);
            proof {
                assert(line@.subrange(0, line@.len() - 1) =~= line@.drop_last());
            }
        } else {
            stripped = subrange_vec(line, 0, line.len());
            proof {
                assert(line@.subrange(0, line@.len() as int) =~= line@);
            }
        }
        out.push(stripped);
        proof {
            assert(q.take(i as int + 1).map_values(|l: Seq<u8>| strip_cr(l)) =~= q.take(
                i as int,
            ).map_values(|l: Seq<u8>| strip_cr(l)).push(strip_cr(q[i as int])));
            assert(q[i as int] == parts@[i as int]@);
        }
        i += 1;
    }
    proof {
        assert(q.take(q.len() as int) =~= q);
    }
    out
}

/// An ASCII whitespace byte.
fn is_ws_exec(b: u8) -> (r: bool)
    ensures
        r == is_ws(b),
{
    b == 32 || (9 <= b && b <= 13)
}

/// The bounds of the first whitespace-separated token at or after
/// `from`: leading whitespace is skipped, then the token runs to the
/// next whitespace or the end.
fn next_token(s: &Vec<u8>, from: usize) -> (r: (usize, usize))
    requires
        from <= s@.len(),
    ensures
        from <= r.0 <= r.1 <= s@.len(),
        s@.subrange(r.0 as int, r.1 as int) == first_tok(s@.skip(from as int)),
        s@.skip(r.0 as int) == drop_ws(s@.skip(from as int)),
        s@.skip(r.1 as int) == after_first_tok(s@.skip(from as int)),
{
    let n = s.len();
    let ghost t = s@.skip(from as int);
    let mut i: usize = from;
    while i < n && is_ws_exec(s[i])
        invariant
            from <= i <= n,
            n == s@.len(),
            t == s@.skip(from as int),
            drop_ws(t) == drop_ws(s@.skip(i as int)),
        decreases n - i,
    {
        proof {
            assert(s@.skip(i as int)[0] == s@[i as int]);
            assert(s@.skip(i as int).skip(1) =~= s@.skip(i as int + 1));
        }
        i += 1;
    }
    proof {
        if i < n {
            assert(s@.skip(i as int)[0] == s@[i as int]);
        }
        assert(drop_ws(t) == s@.skip(i as int));
    }
    let start = i;
    let mut j: usize = start;
    while j < n && !is_ws_exec(s[j])
        invariant
            start <= j <= n,
            n == s@.len(),
            take_tok(s@.skip(start as int)) == s@.subrange(start as int, j as int) + take_tok(
                s@.skip(j as int),
            ),
        decreases n - j,
    {
        proof {
            assert(s@.skip(j as int)[0] == s@[j as int]);
            assert(s@.skip(j as int).skip(1) =~= s@.skip(j as int + 1));
            assert(s@.subrange(start as int, j as int) + (seq![s@[j as int]] + take_tok(
                s@.skip(j as int + 1),
            )) =~= s@.subrange(start as int, j as int + 1) + take_tok(s@.skip(j as int + 1)));
        }
        j += 1;
    }
    proof {
        if j < n {
            assert(s@.skip(j as int)[0] == s@[j as int]);
        }
        assert(take_tok(s@.skip(j as int)) == Seq::<u8>::empty());
        assert(s@.subrange(start as int, j as int) + Seq::<u8>::empty() =~= s@.subrange(
            start as int,
            j as int,
        ));
        assert(first_tok(t) == s@.subrange(start as int, j as int));
        assert(s@.skip(start as int).skip(j - start) =~= s@.skip(j as int));
        assert(after_first_tok(t) == s@.skip(j as int));
    }
    (start, j)
}

/// Skipping zero elements leaves a sequence unchanged.
proof fn lemma_skip_zero(s: Seq<u8>)
    ensures
        s.skip(0) == s,
{
    assert(s.skip(0) =~= s);
}

/// The digest one line publishes for the wanted file name, if any.
fn line_hash_exec(line: &Vec<u8>, want: &Vec<u8>) -> (r: Option<Vec<u8>>)
    ensures
        match r {
            Some(h) => line_hash_for(line@, want@) == Some(h@),
            None => line_hash_for(line@, want@) is None,
        },
{
    proof {
        lemma_skip_zero(line@);
    }
    let (a0, a1) = next_token(line, 0);
    let (b0, b1) = next_token(line, a1);
    if a1 == a0 || b1 == b0 {
        proof {
            assert(first_tok(line@).len() == 0 || first_tok(after_first_tok(line@)).len() == 0);
        }
        return None;
    }
    let mut c0: usize = b0;
    while c0 < b1 && line[c0] == 42
        invariant
            b0 <= c0 <= b1 <= line@.len(),
            strip_stars(line@.subrange(b0 as int, b1 as int)) == strip_stars(
                line@.subrange(c0 as int, b1 as int),
            ),
        decreases b1 - c0,
    {
        proof {
            assert(line@.subrange(c0 as int, b1 as int)[0] == line@[c0 as int]);
            assert(line@.subrange(c0 as int, b1 as int).skip(1) =~= line@.subrange(
                c0 as int + 1,
                b1 as int,
            ));
        }
        c0 += 1;
    }
    proof {
        if c0 < b1 {
            assert(line@.subrange(c0 as int, b1 as int)[0] == line@[c0 as int]);
        }
        assert(strip_stars(line@.subrange(b0 as int, b1 as int)) == line@.subrange(
            c0 as int,
            b1 as int,
        ));
    }
    let h = subrange_vec(line, a0, a1);
    let nm = subrange_vec(line, c0, b1);
    let nl = to_lower_bytes(&nm);
    let wl = to_lower_bytes(want);
    if bytes_eq(&nl, &wl) || ends_with_bytes(&nm, want) {
        Some(to_lower_bytes(&h))
    } else {
        None
    }
}

/// The digest the manifest publishes for the wanted file name, if any
/// line refers to it.
fn find_expected_hash(manifest: &Vec<u8>, want: &Vec<u8>) -> (r: Option<Vec<u8>>)
    ensures
        match r {
            Some(h) => spec_expected_hash(manifest@, want@) == Some(h@),
            None => spec_expected_hash(manifest@, want@) is None,
        },
{
    let lines = split_manifest_lines(manifest);
    let ghost lv = lines@.map_values(|l: Vec<u8>| l@);
    let mut i: usize = 0;
    while i < lines.len()
        invariant
            0 <= i <= lines@.len(),
            lv == lines@.map_values(|l: Vec<u8>| l@),
            lv == manifest_lines(manifest@),
            spec_expected_hash(manifest@, want@) == expected_hash_from(lv, want@, i as int),
        decreases lines@.len() - i,
    {
        proof {
            assert(lv[i as int] == lines@[i as int]@);
        }
        match line_hash_exec(&lines[i], want) {
            Some(h) => {
                return Some(h);
            },
            None => {},
        }
        i += 1;
    }
    None
}

/// Verifies a downloaded file against a checksum manifest: the first
/// manifest line whose file name matches `file_name` must publish
/// exactly the lower-case hexadecimal SHA-256 digest of `data`. No
/// matching line is `ChecksumNotFound`; a differing digest is
/// `ChecksumMismatch`. This is a security control: on a mismatch the
/// caller must not install the file.
pub fn verify_file_checksum(data: &Vec<u8>, manifest: &str, file_name: &str) -> (r: Result<
    (),
    UpdateError,
>)
    ensures
        match r {
            Ok(_) => spec_expected_hash(encode_utf8(manifest@), encode_utf8(file_name@)) == Some(
                hex_of(sha256_of(data@)),
            ),
            Err(e) => match e {
                UpdateError::ChecksumNotFound { file_name: f } => spec_expected_hash(
                    encode_utf8(manifest@),
                    encode_utf8(file_name@),
                ) is None && f@ == file_name@,
                UpdateError::ChecksumMismatch { expected, actual } => {
                    &&& spec_expected_hash(
                        encode_utf8(manifest@),
                        encode_utf8(file_name@),
                    ) matches Some(h)
                    &&& h != hex_of(sha256_of(data@))
                    &&& expected@ == h.map_values(|b: u8| b as char)
                    &&& actual@ == hex_of(sha256_of(data@)).map_values(|b: u8| b as char)
                },
                _ => false,
            },
        },
{
    let mbytes = manifest.as_bytes_vec();
    let want = file_name.as_bytes_vec();
    match find_expected_hash(&mbytes, &want) {
        None => Err(UpdateError::ChecksumNotFound { file_name: String::from_str(file_name) }),
        Some(expected) => {
            let digest = sha256_digest(data);
            let actual = to_hex(&digest);
            if bytes_eq(&expected, &actual) {
                Ok(())
            } else {
                Err(
                    UpdateError::ChecksumMismatch {
                        expected: bytes_to_string(&expected),
                        actual: bytes_to_string(&actual),
                    },
                )
            }
        },
    }
}

} // verus!
