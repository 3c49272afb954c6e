//! Release and asset records, and priority-ordered asset selection: a
//! list of name patterns is tried most specific first, and within one
//! pattern the assets are scanned in their published order. Matching is
//! ASCII-case-insensitive on the asset name.

use vstd::prelude::*;
use vstd::utf8::encode_utf8;

use crate::text::contains_bytes;
use crate::text::contains_seq;
use crate::text::ends_with_bytes;
use crate::text::ends_with_seq;
use crate::text::lower_bytes;
use crate::text::to_lower_bytes;

verus! {

/// One downloadable file of a release: a name and a download URL.
pub struct Asset {
    pub name: String,
    pub browser_download_url: String,
}

/// The mathematical value of an `Asset`.
pub struct AssetV {
    pub name: Seq<char>,
    pub url: Seq<char>,
}

impl View for Asset {
    type V = AssetV;

    open spec fn view(&self) -> AssetV {
        AssetV { name: self.name@, url: self.browser_download_url@ }
    }
}

/// A published release: a tag and its ordered list of assets. The list
/// is read-only once fetched; selection never changes it.
pub struct Release {
    pub tag_name: String,
    pub assets: Vec<Asset>,
}

/// The mathematical value of a `Release`.
pub struct ReleaseV {
    pub tag: Seq<char>,
    pub assets: Seq<AssetV>,
}

impl View for Release {
    type V = ReleaseV;

    open spec fn view(&self) -> ReleaseV {
        ReleaseV { tag: self.tag_name@, assets: self.assets@.map_values(|a: Asset| a@) }
    }
}

/// A copy of an asset record.
pub fn clone_asset(a: &Asset) -> (r: Asset)
    ensures
        r@ == a@,
{
    Asset { name: a.name.clone(), browser_download_url: a.browser_download_url.clone() }
}

/// An asset name matches a pattern when its lower-cased UTF-8 bytes
/// contain or end with the lower-cased pattern.
pub open spec fn pat_match(name: Seq<char>, pat: Seq<char>) -> bool {
    let n = lower_bytes(encode_utf8(name));
    let p = lower_bytes(encode_utf8(pat));
    contains_seq(n, p) || ends_with_seq(n, p)
}

/// The broad last-resort heuristic: a platform keyword in the name and
/// a known installer or archive extension at its end.
pub open spec fn fallback_match(name: Seq<char>) -> bool {
    let n = lower_bytes(encode_utf8(name));
    (contains_seq(n, encode_utf8("windows"@)) || contains_seq(n, encode_utf8("win"@))) && (
    ends_with_seq(n, encode_utf8(".exe"@)) || ends_with_seq(n, encode_utf8(".zip"@)))
}

/// An asset name that marks a checksum manifest.
pub open spec fn checksum_match(name: Seq<char>) -> bool {
    let n = lower_bytes(encode_utf8(name));
    contains_seq(n, encode_utf8("sha256"@)) || ends_with_seq(n, encode_utf8(".sha256"@))
}

/// The ordered candidate patterns, most specific first: the detected
/// architecture's variant-specific name, then the generic platform
/// names.
pub open spec fn pattern_list(portable: bool, arch: Seq<char>) -> Seq<Seq<char>> {
    seq![
        if portable {
            "windows-"@ + arch + "-portable.zip"@
        } else {
            "windows-"@ + arch + "-setup.exe"@
        },
        "win64.zip"@,
        "win64-setup.exe"@,
        "windows.zip"@,
        "windows-setup.exe"@,
    ]
}

/// No asset matches any of the patterns.
pub open spec fn no_pattern_match(assets: Seq<AssetV>, pats: Seq<Seq<char>>) -> bool {
    forall|p: int, k: int|
        0 <= p < pats.len() && 0 <= k < assets.len() ==> !pat_match(assets[k].name, pats[p])
}

/// Index `i` is the one the priority order picks: some pattern matches
/// it, no earlier asset matches that pattern, and no earlier pattern
/// matches any asset at all.
pub open spec fn is_selected_index(assets: Seq<AssetV>, pats: Seq<Seq<char>>, i: int) -> bool {
    exists|p: int|
        0 <= p < pats.len() && #[trigger] pat_match(assets[i].name, pats[p]) && (forall|k: int|
            0 <= k < i ==> !pat_match(assets[k].name, pats[p])) && (forall|q: int, k: int|
            0 <= q < p && 0 <= k < assets.len() ==> !pat_match(assets[k].name, pats[q]))
}

/// Whether an asset name matches one pattern.
fn pat_match_exec(name: &str, pat: &str) -> (r: bool)
    ensures
        r == pat_match(name@, pat@),
{
    let nb = name.as_bytes_vec();
    let pb = pat.as_bytes_vec();
    let nl = to_lower_bytes(&nb);
    let pl = to_lower_bytes(&pb);
    contains_bytes(&nl, &pl) || ends_with_bytes(&nl, &pl)
}

/// Whether an asset name satisfies the broad fallback heuristic.
fn fallback_match_exec(name: &str) -> (r: bool)
    ensures
        r == fallback_match(name@),
{
    let nb = name.as_bytes_vec();
    let nl = to_lower_bytes(&nb);
    let windows = "windows".as_bytes_vec();
    let win = "win".as_bytes_vec();
    let exe = ".exe".as_bytes_vec();
    let zip = ".zip".as_bytes_vec();
    (contains_bytes(&nl, &windows) || contains_bytes(&nl, &win)) && (ends_with_bytes(&nl, &exe)
        || ends_with_bytes(&nl, &zip))
}

/// The first asset, in pattern-priority order, that a pattern picks.
fn first_match_by_patterns(assets: &Vec<Asset>, pats: &Vec<String>) -> (r: Option<usize>)
    ensures
        match r {
            Some(i) => i < assets@.len() && is_selected_index(
                assets@.map_values(|a: Asset| a@),
                pats@.map_values(|s: String| s@),
                i as int,
            ),
            None => no_pattern_match(
                assets@.map_values(|a: Asset| a@),
                pats@.map_values(|s: String| s@),
            ),
        },
{
    let ghost av = assets@.map_values(|a: Asset| a@);
    let ghost pv = pats@.map_values(|s: String| s@);
    let mut p: usize = 0;
    while p < pats.len()
        invariant
            0 <= p <= pats@.len(),
            av == assets@.map_values(|a: Asset| a@),
            pv == pats@.map_values(|s: String| s@),
            forall|q: int, k: int|
                0 <= q < p && 0 <= k < av.len() ==> !pat_match(av[k].name, pv[q]),
        decreases pats@.len() - p,
    {
        let mut k: usize = 0;
        while k < assets.len()
            invariant
                0 <= k <= assets@.len(),
                0 <= p < pats@.len(),
                av == assets@.map_values(|a: Asset| a@),
                pv == pats@.map_values(|s: String| s@),
                forall|q: int, kk: int|
                    0 <= q < p && 0 <= kk < av.len() ==> !pat_match(av[kk].name, pv[q]),
                forall|kk: int| 0 <= kk < k ==> !pat_match(av[kk].name, pv[p as int]),
            decreases assets@.len() - k,
        {
            if pat_match_exec(assets[k].name.as_str(), pats[p].as_str()) {
                proof {
                    assert(av[k as int].name == assets@[k as int]@.name);
                    assert(pat_match(av[k as int].name, pv[p as int]));
                    assert(is_selected_index(av, pv, k as int));
                }
                return Some(k);
            }
            k += 1;
        }
        p += 1;
    }
    None
}

/// The first asset satisfying the fallback heuristic.
fn first_fallback_asset(assets: &Vec<Asset>) -> (r: Option<usize>)
    ensures
        match r {
            Some(i) => i < assets@.len() && fallback_match(assets@[i as int]@.name) && (forall|
                k: int,
            | 0 <= k < i ==> !fallback_match(#[trigger] assets@[k]@.name)),
            None => forall|k: int|
                0 <= k < assets@.len() ==> !fallback_match(#[trigger] assets@[k]@.name),
        },
{
    let mut k: usize = 0;
    while k < assets.len()
        invariant
            0 <= k <= assets@.len(),
            forall|kk: int| 0 <= kk < k ==> !fallback_match(#[trigger] assets@[kk]@.name),
        decreases assets@.len() - k,
    {
        if fallback_match_exec(assets[k].name.as_str()) {
            return Some(k);
        }
        k += 1;
    }
    None
}

/// The executable pattern list, most specific first.
fn build_patterns(portable: bool, arch: &str) -> (r: Vec<String>)
    ensures
        r@.map_values(|s: String| s@) == pattern_list(portable, arch@),
{
    let mut pats: Vec<String> = Vec::new();
    if portable {
        pats.push(String::from_str("windows-").concat(arch).concat("-portable.zip"));
    } else {
        pats.push(String::from_str("windows-").concat(arch).concat("-setup.exe"));
    }
    pats.push(String::from_str("win64.zip"));
    pats.push(String::from_str("win64-setup.exe"));
    pats.push(String::from_str("windows.zip"));
    pats.push(String::from_str("windows-setup.exe"));
    proof {
        assert(pats@.map_values(|s: String| s@) =~= pattern_list(portable, arch@));
    }
    pats
}

/// The index of the asset the selection rule picks, if any: first the
/// priority-ordered patterns, then the broad fallback heuristic.
pub fn select_asset_index(assets: &Vec<Asset>, portable: bool, arch: &str) -> (r: Option<usize>)
    ensures
        match r {
            Some(i) => {
                let av = assets@.map_values(|a: Asset| a@);
                i < av.len() && (is_selected_index(av, pattern_list(portable, arch@), i as int)
                    || (no_pattern_match(av, pattern_list(portable, arch@)) && fallback_match(
                    assets@[i as int]@.name,
                ) && (forall|k: int| 0 <= k < i ==> !fallback_match(#[trigger] assets@[k]@.name))))
            },
            None => no_pattern_match(
                assets@.map_values(|a: Asset| a@),
                pattern_list(portable, arch@),
            ) && (forall|k: int|
                0 <= k < assets@.len() ==> !fallback_match(#[trigger] assets@[k]@.name)),
        },
{
    let pats = build_patterns(portable, arch);
    match first_match_by_patterns(assets, &pats) {
        Some(i) => Some(i),
        None => first_fallback_asset(assets),
    }
}

/// The index of the first asset whose name marks a checksum manifest.
pub fn find_checksum_index(assets: &Vec<Asset>) -> (r: Option<usize>)
    ensures
        match r {
            Some(i) => i < assets@.len() && checksum_match(assets@[i as int]@.name) && (forall|
                k: int,
            | 0 <= k < i ==> !checksum_match(#[trigger] assets@[k]@.name)),
            None => forall|k: int|
                0 <= k < assets@.len() ==> !checksum_match(#[trigger] assets@[k]@.name),
        },
{
    let sha = "sha256".as_bytes_vec();
    let dotsha = ".sha256".as_bytes_vec();
    let mut k: usize = 0;
    while k < assets.len()
        invariant
            0 <= k <= assets@.len(),
            sha@ == encode_utf8("sha256"@),
            dotsha@ == encode_utf8(".sha256"@),
            forall|kk: int| 0 <= kk < k ==> !checksum_match(#[trigger] assets@[kk]@.name),
        decreases assets@.len() - k,
    {
        let nb = assets[k].name.as_bytes_vec();
        let nl = to_lower_bytes(&nb);
        if contains_bytes(&nl, &sha) || ends_with_bytes(&nl, &dotsha) {
            return Some(k);
        }
        k += 1;
    }
    None
}

} // verus!
