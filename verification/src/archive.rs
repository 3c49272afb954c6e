//! Safe archive extraction planning. The archive is read entry by
//! entry; every entry's relative path is checked before anything may be
//! written: a parent-directory segment, an absolute path, or a drive
//! qualifier fails the whole operation. The caller writes the planned
//! entries to the staging directory only when every entry passed.

use vstd::prelude::*;

use crate::errors::UpdateError;
use crate::text::str_eq;

verus! {

/// One archive entry: its relative path inside the archive, whether it
/// is a directory, and its decompressed contents.
pub struct ZipEntry {
    pub name: String,
    pub is_dir: bool,
    pub data: Vec<u8>,
}

/// The mathematical value of a `ZipEntry`.
pub struct ZipEntryV {
    pub name: Seq<char>,
    pub is_dir: bool,
    pub data: Seq<u8>,
}

impl View for ZipEntry {
    type V = ZipEntryV;

    open spec fn view(&self) -> ZipEntryV {
        ZipEntryV { name: self.name@, is_dir: self.is_dir, data: self.data@ }
    }
}

/// The number of entries of an archive given as bytes; a function of
/// the bytes alone, `None` when they are not a readable archive.
pub uninterp spec fn zip_entry_count(data: Seq<u8>) -> Option<int>;

/// The entry of an archive at one index — name, directory flag,
/// decompressed contents — a function of the archive bytes and the
/// index alone; `None` when the entry cannot be read.
pub uninterp spec fn zip_entry_at(data: Seq<u8>, i: int) -> Option<(Seq<char>, bool, Seq<u8>)>;

/// Relies on zip's `ZipArchive::new` and `ZipArchive::len`: how many
/// entries the archive holds, determined by the archive bytes alone.
#[verifier::external_body]
fn zip_count(data: &Vec<u8>) -> (r: Option<usize>)
    ensures
        match r {
            Some(n) => zip_entry_count(data@) == Some(n as int),
            None => zip_entry_count(data@) is None,
        },
{
    let cursor = std::io::Cursor::new(data.as_slice());
    match zip::ZipArchive::new(cursor) {
        Ok(a) => Some(a.len()),
        Err(_) => None,
    }
}

/// Relies on zip's `ZipArchive::by_index`, `ZipFile::name`,
/// `ZipFile::is_dir` and its `Read` impl: one entry's name, directory
/// flag and decompressed contents, determined by the archive bytes and
/// the index alone.
#[verifier::external_body]
fn zip_entry(data: &Vec<u8>, i: usize) -> (r: Option<ZipEntry>)
    ensures
        match r {
            Some(e) => zip_entry_at(data@, i as int) == Some((e.name@, e.is_dir, e.data@)),
            None => zip_entry_at(data@, i as int) is None,
        },
{
    let cursor = std::io::Cursor::new(data.as_slice());
    let mut archive = zip::ZipArchive::new(cursor).ok()?;
    let mut f = archive.by_index(i).ok()?;
    let name = f.name().to_string();
    let is_dir = f.is_dir();
    let mut contents = Vec::new();
    std::io::Read::read_to_end(&mut f, &mut contents).ok()?;
    Some(ZipEntry { name, is_dir, data: contents })
}

/// A path separator, either direction.
pub open spec fn is_path_sep(c: char) -> bool {
    c == '/' || c == '\\'
}

/// Positions `i` and `i + 1` form a parent-directory segment `..`,
/// delimited by separators or the name's ends.
pub open spec fn has_dotdot_at(name: Seq<char>, i: int) -> bool {
    &&& 0 <= i
    &&& i + 2 <= name.len()
    &&& name[i] == '.'
    &&& name[i + 1] == '.'
    &&& (i == 0 || is_path_sep(name[i - 1]))
    &&& (i + 2 == name.len() || is_path_sep(name[i + 2]))
}

/// An entry path that stays strictly inside the extraction root: no
/// parent-directory segment, not absolute, and no drive qualifier.
pub open spec fn is_safe_entry_name(name: Seq<char>) -> bool {
    &&& forall|i: int| !has_dotdot_at(name, i)
    &&& (name.len() > 0 ==> !is_path_sep(name[0]))
    &&& forall|i: int| 0 <= i < name.len() ==> name[i] != ':'
}

/// Whether one entry path is safe to extract under the staging root.
pub fn entry_name_is_safe(name: &str) -> (r: bool)
    ensures
        r == is_safe_entry_name(name@),
{
    let n = name.unicode_len();
    if n > 0 {
        let c0 = name.get_char(0);
        if c0 == '/' || c0 == '\\' {
            return false;
        }
    }
    let mut i: usize = 0;
    while i < n
        invariant
            0 <= i <= n,
            n == name@.len(),
            n > 0 ==> !is_path_sep(name@[0]),
            forall|k: int| k < i ==> !has_dotdot_at(name@, k),
            forall|k: int| 0 <= k < i ==> name@[k] != ':',
        decreases n - i,
    {
        let c = name.get_char(i);
        if c == ':' {
            return false;
        }
        if n - i >= 2 && c == '.' && name.get_char(i + 1) == '.' {
            let before_ok = if i == 0 {
                true
            } else {
                let p = name.get_char(i - 1);
                p == '/' || p == '\\'
            };
            let after_ok = if i + 2 == n {
                true
            } else {
                let q = name.get_char(i + 2);
                q == '/' || q == '\\'
            };
            if before_ok && after_ok {
                proof {
                    assert(has_dotdot_at(name@, i as int));
                }
                return false;
            }
        }
        i += 1;
    }
    proof {
        assert(forall|k: int| k >= n ==> !has_dotdot_at(name@, k));
    }
    true
}

/// The outcome of planning an extraction.
pub enum ExtractPlan {
    /// Every entry could be read and every path is safe.
    Entries(Seq<ZipEntryV>),
    /// The bytes are not a readable archive, or an entry could not be
    /// read.
    Unreadable,
    /// The first entry, in archive order, whose path is not safe.
    Escapes(Seq<char>),
}

/// The plan for the entries from index `i` on.
pub open spec fn plan_from(data: Seq<u8>, i: int, n: int) -> ExtractPlan
    decreases n - i,
{
    if i < 0 || i >= n {
        ExtractPlan::Entries(Seq::empty())
    } else {
        match zip_entry_at(data, i) {
            None => ExtractPlan::Unreadable,
            Some(e) => if !is_safe_entry_name(e.0) {
                ExtractPlan::Escapes(e.0)
            } else {
                match plan_from(data, i + 1, n) {
                    ExtractPlan::Entries(rest) => ExtractPlan::Entries(
                        seq![ZipEntryV { name: e.0, is_dir: e.1, data: e.2 }] + rest,
                    ),
                    ExtractPlan::Unreadable => ExtractPlan::Unreadable,
                    ExtractPlan::Escapes(m) => ExtractPlan::Escapes(m),
                }
            },
        }
    }
}

/// The plan for a whole archive given as bytes.
pub open spec fn spec_extract(data: Seq<u8>) -> ExtractPlan {
    match zip_entry_count(data) {
        None => ExtractPlan::Unreadable,
        Some(n) => plan_from(data, 0, n),
    }
}

/// Reads every entry of the archive and checks every entry path before
/// anything is handed out for writing: the whole operation fails on the
/// first entry whose path would escape the extraction root, and nothing
/// of the archive is to be written in that case.
pub fn extract_archive(data: &Vec<u8>) -> (r: Result<Vec<ZipEntry>, UpdateError>)
    ensures
        match r {
            Ok(entries) => spec_extract(data@) == ExtractPlan::Entries(
                entries@.map_values(|e: ZipEntry| e@),
            ),
            Err(e) => match e {
                UpdateError::BadArchive => spec_extract(data@) is Unreadable,
                UpdateError::PathTraversal { name } => spec_extract(data@) == ExtractPlan::Escapes(
                    name@,
                ),
                _ => false,
            },
        },
        r matches Ok(entries) ==> forall|k: int|
            0 <= k < entries@.len() ==> is_safe_entry_name(#[trigger] entries@[k]@.name),
{
    let count = match zip_count(data) {
        None => {
            return Err(UpdateError::BadArchive);
        },
        Some(n) => n,
    };
    let mut entries: Vec<ZipEntry> = Vec::new();
    let mut i: usize = 0;
    while i < count
        invariant
            0 <= i <= count,
            zip_entry_count(data@) == Some(count as int),
            match plan_from(data@, i as int, count as int) {
                ExtractPlan::Entries(rest) => spec_extract(data@) == ExtractPlan::Entries(
                    entries@.map_values(|e: ZipEntry| e@) + rest,
                ),
                ExtractPlan::Unreadable => spec_extract(data@) is Unreadable,
                ExtractPlan::Escapes(m) => spec_extract(data@) == ExtractPlan::Escapes(m),
            },
            forall|k: int|
                0 <= k < entries@.len() ==> is_safe_entry_name(#[trigger] entries@[k]@.name),
        decreases count - i,
    {
        match zip_entry(data, i) {
            None => {
                return Err(UpdateError::BadArchive);
            },
            Some(e) => {
                if !entry_name_is_safe(e.name.as_str()) {
                    return Err(UpdateError::PathTraversal { name: e.name });
                }
                let ghost old_entries = entries@;
                entries.push(e);
                proof {
                    assert(entries@.map_values(|e: ZipEntry| e@) =~= old_entries.map_values(
                        |e: ZipEntry| e@,
                    ).push(entries@.last()@));
                    match plan_from(data@, i as int + 1, count as int) {
                        ExtractPlan::Entries(rest) => {
                            assert(old_entries.map_values(|e: ZipEntry| e@) + (seq![
                                entries@.last()@,
                            ] + rest) =~= entries@.map_values(|e: ZipEntry| e@) + rest);
                        },
                        _ => {},
                    }
                }
            },
        }
        i += 1;
    }
    proof {
        assert(entries@.map_values(|e: ZipEntry| e@) + Seq::<ZipEntryV>::empty() =~= entries@
            .map_values(|e: ZipEntry| e@));
    }
    Ok(entries)
}

/// A plausible top-level directory name: non-empty, without a path
/// separator.
pub open spec fn is_top_dir_name(d: Seq<char>) -> bool {
    d.len() > 0 && forall|i: int| 0 <= i < d.len() ==> !is_path_sep(d[i])
}

/// The entry lives under the top-level directory `d`: it is `d`
/// itself, as a directory entry, or its path begins `d` followed by a
/// separator.
pub open spec fn entry_under_top_dir(e: ZipEntryV, d: Seq<char>) -> bool {
    (e.name == d && e.is_dir) || (e.name.len() > d.len() && e.name.take(d.len() as int) == d
        && is_path_sep(e.name[d.len() as int]))
}

/// The mathematical values of a vector of entries.
pub open spec fn entry_views(entries: Seq<ZipEntry>) -> Seq<ZipEntryV> {
    entries.map_values(|e: ZipEntry| e@)
}

/// Every entry of a non-empty archive lives under the one top-level
/// directory `d`.
pub open spec fn all_under_one_top_dir(entries: Seq<ZipEntryV>, d: Seq<char>) -> bool {
    entries.len() > 0 && is_top_dir_name(d) && (forall|k: int|
        0 <= k < entries.len() ==> entry_under_top_dir(#[trigger] entries[k], d))
}

/// The leading path segment of an entry name.
pub open spec fn top_of(name: Seq<char>) -> Seq<char>
    decreases name.len(),
{
    if name.len() == 0 {
        name
    } else if is_path_sep(name[0]) {
        Seq::empty()
    } else {
        seq![name[0]] + top_of(name.skip(1))
    }
}

/// A separator-free prefix that ends at a separator or at the name's
/// end is the name's leading segment.
proof fn lemma_top_of_prefix(name: Seq<char>, d: Seq<char>)
    requires
        d.len() <= name.len(),
        name.take(d.len() as int) == d,
        forall|i: int| 0 <= i < d.len() ==> !is_path_sep(d[i]),
        d.len() == name.len() || is_path_sep(name[d.len() as int]),
    ensures
        top_of(name) == d,
    decreases d.len(),
{
    if d.len() == 0 {
        assert(top_of(name) =~= d);
    } else {
        assert(name[0] == name.take(d.len() as int)[0]);
        assert(!is_path_sep(name[0]));
        let n2 = name.skip(1);
        let d2 = d.skip(1);
        assert(n2.take(d2.len() as int) =~= d2) by {
            assert(forall|i: int|
                0 <= i < d.len() ==> #[trigger] name[i] == name.take(d.len() as int)[i]);
        }
        assert(forall|i: int| 0 <= i < d2.len() ==> !is_path_sep(#[trigger] d2[i]));
        if d.len() < name.len() {
            assert(n2[d2.len() as int] == name[d.len() as int]);
        }
        lemma_top_of_prefix(n2, d2);
        assert(seq![name[0]] + d2 =~= d);
    }
}

/// A top-level directory that covers a non-empty archive is the
/// leading segment of its first entry's name.
proof fn lemma_top_dir_is_top_of_first(entries: Seq<ZipEntryV>, d: Seq<char>)
    requires
        all_under_one_top_dir(entries, d),
    ensures
        d == top_of(entries[0].name),
{
    let e = entries[0];
    assert(entry_under_top_dir(e, d));
    if e.name == d && e.is_dir {
        assert(e.name.take(d.len() as int) =~= d);
        lemma_top_of_prefix(e.name, d);
    } else {
        lemma_top_of_prefix(e.name, d);
    }
}

/// Whether the entry lives under the top-level directory `d`.
fn entry_under_exec(e: &ZipEntry, d: &str) -> (r: bool)
    ensures
        r == entry_under_top_dir(e@, d@),
{
    let n = e.name.as_str();
    let nl = n.unicode_len();
    let dl = d.unicode_len();
    if nl == dl {
        str_eq(n, d) && e.is_dir
    } else if nl > dl {
        let mut i: usize = 0;
        while i < dl
            invariant
                0 <= i <= dl,
                dl < nl,
                nl == n@.len(),
                dl == d@.len(),
                n@ == e.name@,
                forall|j: int| 0 <= j < i ==> n@[j] == d@[j],
            decreases dl - i,
        {
            if n.get_char(i) != d.get_char(i) {
                proof {
                    assert(n@.take(d@.len() as int)[i as int] == n@[i as int]);
                }
                return false;
            }
            i += 1;
        }
        proof {
            assert(n@.take(d@.len() as int) =~= d@);
        }
        let c = n.get_char(dl);
        c == '/' || c == '\\'
    } else {
        false
    }
}

/// The content root for the merge step: when the archive holds a
/// single top-level directory and every entry lives under it, that
/// directory; otherwise `None`, and the staging root itself is the
/// content root.
pub fn content_root(entries: &Vec<ZipEntry>) -> (r: Option<String>)
    ensures
        match r {
            Some(d) => all_under_one_top_dir(entry_views(entries@), d@),
            None => forall|d: Seq<char>| !all_under_one_top_dir(entry_views(entries@), d),
        },
{
    let ghost ev = entry_views(entries@);
    if entries.len() == 0 {
        return None;
    }
    let n0 = entries[0].name.as_str();
    let n0l = n0.unicode_len();
    let mut t: usize = 0;
    while t < n0l && n0.get_char(t) != '/' && n0.get_char(t) != '\\'
        invariant
            0 <= t <= n0l,
            n0l == n0@.len(),
            forall|j: int| 0 <= j < t ==> !is_path_sep(n0@[j]),
        decreases n0l - t,
    {
        t += 1;
    }
    proof {
        assert(ev[0].name == entries@[0]@.name);
    }
    if t == 0 {
        proof {
            assert forall|d: Seq<char>| !all_under_one_top_dir(ev, d) by {
                if all_under_one_top_dir(ev, d) {
                    assert(entry_under_top_dir(ev[0], d));
                    if ev[0].name == d {
                        assert(ev[0].name[0] == d[0]);
                    } else {
                        assert(ev[0].name.take(d.len() as int)[0] == ev[0].name[0]);
                        assert(ev[0].name[0] == d[0]);
                    }
                }
            }
        }
        return None;
    }
    let d = String::from_str(n0.substring_char(0, t));
    proof {
        assert(d@ =~= n0@.take(t as int));
        if t < n0l {
            assert(is_path_sep(n0@[t as int]));
        }
        lemma_top_of_prefix(n0@, d@);
        assert(is_top_dir_name(d@));
    }
    let mut k: usize = 0;
    while k < entries.len()
        invariant
            0 <= k <= entries@.len(),
            entries@.len() > 0,
            ev == entry_views(entries@),
            is_top_dir_name(d@),
            d@ == top_of(ev[0].name),
            forall|j: int| 0 <= j < k ==> entry_under_top_dir(#[trigger] ev[j], d@),
        decreases entries@.len() - k,
    {
        proof {
            assert(ev[k as int] == entries@[k as int]@);
        }
        if !entry_under_exec(&entries[k], d.as_str()) {
            proof {
                assert forall|d2: Seq<char>| !all_under_one_top_dir(ev, d2) by {
                    if all_under_one_top_dir(ev, d2) {
                        lemma_top_dir_is_top_of_first(ev, d2);
                        assert(d2 == d@);
                        assert(entry_under_top_dir(ev[k as int], d2));
                    }
                }
            }
            return None;
        }
        k += 1;
    }
    Some(d)
}

} // verus!
