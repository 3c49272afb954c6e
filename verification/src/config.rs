//! The configuration record and its sectioned key/value text format:
//! parsing the `[Settings]` section, rendering it back, and the
//! idempotent update of `[Log]` entries. All file reading and writing
//! stays with the caller; these functions map text to text.

use vstd::prelude::*;
use vstd::utf8::encode_utf8;

use crate::text::after_char;
use crate::text::before_char;
use crate::text::contains_bytes;
use crate::text::contains_seq;
use crate::text::eq_ignore_case;
use crate::text::eq_ignore_case_str;
use crate::text::find_char;
use crate::text::join_lines;
use crate::text::join_lines_vec;
use crate::text::lines_chars;
use crate::text::split_lines_str;
use crate::text::starts_with_ci;
use crate::text::starts_with_ci_str;
use crate::text::str_eq;
use crate::text::trim_chars;
use crate::text::trim_str;

verus! {

/// The updater's configuration: an install path override, a working
/// directory, two flags, a release branch, and where the updater and
/// its configuration file live. `portable_marker` records whether the
/// portable-mode marker executable stands beside the updater; the
/// caller determines that when it builds the record.
#[derive(Clone)]
pub struct Config {
    pub path: String,
    pub work_dir: String,
    pub update_self: bool,
    pub ignore_crl_errors: bool,
    pub branch: String,
    pub exe_dir: String,
    pub config_file: String,
    pub portable_marker: bool,
}

/// The mathematical value of a `Config`.
pub struct ConfigV {
    pub path: Seq<char>,
    pub work_dir: Seq<char>,
    pub update_self: bool,
    pub ignore_crl_errors: bool,
    pub branch: Seq<char>,
    pub exe_dir: Seq<char>,
    pub config_file: Seq<char>,
    pub portable_marker: bool,
}

impl View for Config {
    type V = ConfigV;

    open spec fn view(&self) -> ConfigV {
        ConfigV {
            path: self.path@,
            work_dir: self.work_dir@,
            update_self: self.update_self@,
            ignore_crl_errors: self.ignore_crl_errors@,
            branch: self.branch@,
            exe_dir: self.exe_dir@,
            config_file: self.config_file@,
            portable_marker: self.portable_marker@,
        }
    }
}

/// The configuration before any file is read: no path override, the
/// system temporary directory as working directory, self-update on,
/// the default branch.
pub open spec fn default_config(exe_dir: Seq<char>, temp_dir: Seq<char>, portable: bool) -> ConfigV {
    ConfigV {
        path: Seq::empty(),
        work_dir: temp_dir,
        update_self: true,
        ignore_crl_errors: false,
        branch: "nightly"@,
        exe_dir: exe_dir,
        config_file: exe_dir + "\\Noraneko-WinUpdater.ini"@,
        portable_marker: portable,
    }
}

/// One `[Settings]` key applied to the configuration. Keys compare
/// ignoring ASCII case; empty values leave fields unchanged; a path of
/// `0` means no override; a working directory of `.` means the
/// updater's own directory.
pub open spec fn apply_setting(
    c: ConfigV,
    key: Seq<char>,
    value: Seq<char>,
    exe_dir: Seq<char>,
) -> ConfigV {
    if eq_ignore_case(key, "path"@) {
        if value != "0"@ && value.len() > 0 {
            ConfigV { path: value, ..c }
        } else {
            c
        }
    } else if eq_ignore_case(key, "workdir"@) {
        if value.len() > 0 {
            if value == "."@ {
                ConfigV { work_dir: exe_dir, ..c }
            } else {
                ConfigV { work_dir: value, ..c }
            }
        } else {
            c
        }
    } else if eq_ignore_case(key, "updateself"@) {
        ConfigV { update_self: value == "1"@ || eq_ignore_case(value, "true"@), ..c }
    } else if eq_ignore_case(key, "ignorecrlerrors"@) {
        ConfigV { ignore_crl_errors: value == "1"@ || eq_ignore_case(value, "true"@), ..c }
    } else if eq_ignore_case(key, "branch"@) {
        if value.len() > 0 {
            ConfigV { branch: value, ..c }
        } else {
            c
        }
    } else {
        c
    }
}

/// One line of the configuration text applied to the parse state:
/// blank lines and comments are skipped, a bracketed line selects the
/// section, and any other line is a key/value pair that counts only
/// inside `[Settings]`.
pub open spec fn apply_line(
    c: ConfigV,
    in_settings: bool,
    line: Seq<char>,
    exe_dir: Seq<char>,
) -> (ConfigV, bool) {
    let t = trim_chars(line);
    if t.len() == 0 || t[0] == ';' || t[0] == '#' {
        (c, in_settings)
    } else if t[0] == '[' && t.last() == ']' {
        (c, eq_ignore_case(t.subrange(1, t.len() - 1), "settings"@))
    } else {
        let key = trim_chars(before_char(t, '='));
        let value = trim_chars(after_char(t, '='));
        if in_settings {
            (apply_setting(c, key, value, exe_dir), in_settings)
        } else {
            (c, in_settings)
        }
    }
}

/// The parse state after the lines from position `i` on.
pub open spec fn parse_lines(
    lines: Seq<Seq<char>>,
    i: int,
    c: ConfigV,
    in_settings: bool,
    exe_dir: Seq<char>,
) -> ConfigV
    decreases lines.len() - i,
{
    if i < 0 || i >= lines.len() {
        c
    } else {
        let step = apply_line(c, in_settings, lines[i], exe_dir);
        parse_lines(lines, i + 1, step.0, step.1, exe_dir)
    }
}

/// The configuration a text parses to, starting from the defaults.
pub open spec fn spec_from_ini(
    text: Seq<char>,
    exe_dir: Seq<char>,
    temp_dir: Seq<char>,
    portable: bool,
) -> ConfigV {
    parse_lines(lines_chars(text), 0, default_config(exe_dir, temp_dir, portable), false, exe_dir)
}

/// The rendered `[Settings]` section of a configuration: an empty path
/// is written as `0`, the updater's own directory as `.`, the system
/// temporary directory as an empty value.
pub open spec fn spec_to_ini(c: ConfigV, temp_dir: Seq<char>) -> Seq<char> {
    let path_part = if c.path.len() == 0 {
        "Path=0\n"@
    } else {
        "Path="@ + c.path + "\n"@
    };
    let wd_part = if c.work_dir == c.exe_dir {
        "."@
    } else if c.work_dir == temp_dir {
        Seq::<char>::empty()
    } else {
        c.work_dir
    };
    let us_part = if c.update_self {
        "UpdateSelf=1\n"@
    } else {
        "UpdateSelf=0\n"@
    };
    let crl_part = if c.ignore_crl_errors {
        "IgnoreCrlErrors=1\n"@
    } else {
        "IgnoreCrlErrors=0\n"@
    };
    "[Settings]\n"@ + path_part + "WorkDir="@ + wd_part + "\n"@ + us_part + crl_part + "Branch="@
        + c.branch + "\n"@
}

impl Config {
    /// Whether this installation is the portable layout: the portable
    /// marker executable stands beside the updater.
    pub fn is_portable(&self) -> (r: bool)
        ensures
            r == self.portable_marker,
    {
        self.portable_marker
    }

    /// Parses configuration text into a configuration, starting from
    /// the defaults for the given directories.
    pub fn from_ini(text: &str, exe_dir: &str, temp_dir: &str, portable_marker: bool) -> (r:
        Config)
        ensures
            r@ == spec_from_ini(text@, exe_dir@, temp_dir@, portable_marker),
    {
        let lines = split_lines_str(text);
        let ghost lv = lines@.map_values(|l: String| l@);
        let mut cfg = Config {
            path: String::new(),
            work_dir: String::from_str(temp_dir),
            update_self: true,
            ignore_crl_errors: false,
            branch: String::from_str("nightly"),
            exe_dir: String::from_str(exe_dir),
            config_file: String::from_str(exe_dir).concat("\\Noraneko-WinUpdater.ini"),
            portable_marker,
        };
        let mut in_settings = false;
        proof {
            assert(cfg@ == default_config(exe_dir@, temp_dir@, portable_marker));
        }
        let mut i: usize = 0;
        while i < lines.len()
            invariant
                0 <= i <= lines@.len(),
                lv == lines@.map_values(|l: String| l@),
                spec_from_ini(text@, exe_dir@, temp_dir@, portable_marker) == parse_lines(
                    lv,
                    i as int,
                    cfg@,
                    in_settings,
                    exe_dir@,
                ),
                cfg.exe_dir@ == exe_dir@,
            decreases lines@.len() - i,
        {
            proof {
                assert(lv[i as int] == lines@[i as int]@);
            }
            let ghost step = apply_line(cfg@, in_settings, lv[i as int], exe_dir@);
            let t = trim_str(lines[i].as_str());
            let tn = t.unicode_len();
            if tn == 0 || t.as_str().get_char(0) == ';' || t.as_str().get_char(0) == '#' {
                // comment or blank: no change
            } else if t.as_str().get_char(0) == '[' && t.as_str().get_char(tn - 1) == ']' {
                let inner = String::from_str(t.as_str().substring_char(1, tn - 1));
                in_settings = eq_ignore_case_str(inner.as_str(), "settings");
                proof {
                    assert(inner@ == t@.subrange(1, t@.len() - 1));
                }
            } else {
                let e = find_char(t.as_str(), '=');
                let kraw = String::from_str(t.as_str().substring_char(0, e));
                let vraw = if e < tn {
                    String::from_str(t.as_str().substring_char(e + 1, tn))
                } else {
                    String::new()
                };
                proof {
                    assert(kraw@ == before_char(t@, '='));
                    if e < tn {
                        assert(t@.subrange(e as int + 1, tn as int) =~= t@.skip(e as int + 1));
                    }
                    assert(vraw@ == after_char(t@, '='));
                }
                let key = trim_str(kraw.as_str());
                let value = trim_str(vraw.as_str());
                if in_settings {
                    if eq_ignore_case_str(key.as_str(), "path") {
                        if !str_eq(value.as_str(), "0") && value.as_str().unicode_len() > 0 {
                            cfg.path = value;
                        }
                    } else if eq_ignore_case_str(key.as_str(), "workdir") {
                        if value.as_str().unicode_len() > 0 {
                            if str_eq(value.as_str(), ".") {
                                cfg.work_dir = String::from_str(exe_dir);
                            } else {
                                cfg.work_dir = value;
                            }
                        }
                    } else if eq_ignore_case_str(key.as_str(), "updateself") {
                        cfg.update_self = str_eq(value.as_str(), "1") || eq_ignore_case_str(
                            value.as_str(),
                            "true",
                        );
                    } else if eq_ignore_case_str(key.as_str(), "ignorecrlerrors") {
                        cfg.ignore_crl_errors = str_eq(value.as_str(), "1") || eq_ignore_case_str(
                            value.as_str(),
                            "true",
                        );
                    } else if eq_ignore_case_str(key.as_str(), "branch") {
                        if value.as_str().unicode_len() > 0 {
                            cfg.branch = value;
                        }
                    }
                }
            }
            proof {
                assert(cfg@ == step.0 && in_settings == step.1);
            }
            i += 1;
        }
        cfg
    }

    /// Renders the `[Settings]` section of this configuration.
    pub fn to_ini(&self, temp_dir: &str) -> (r: String)
        ensures
            r@ == spec_to_ini(self@, temp_dir@),
    {
        let mut out = String::from_str("[Settings]\n");
        if self.path.as_str().unicode_len() == 0 {
            out.append("Path=0\n");
        } else {
            out.append("Path=");
            out.append(self.path.as_str());
            out.append("\n");
        }
        out.append("WorkDir=");
        if str_eq(self.work_dir.as_str(), self.exe_dir.as_str()) {
            out.append(".");
        } else if str_eq(self.work_dir.as_str(), temp_dir) {
            // the system temporary directory is written as an empty value
        } else {
            out.append(self.work_dir.as_str());
        }
        out.append("\n");
        if self.update_self {
            out.append("UpdateSelf=1\n");
        } else {
            out.append("UpdateSelf=0\n");
        }
        if self.ignore_crl_errors {
            out.append("IgnoreCrlErrors=1\n");
        } else {
            out.append("IgnoreCrlErrors=0\n");
        }
        out.append("Branch=");
        out.append(self.branch.as_str());
        out.append("\n");
        proof {
            assert(out@ =~= spec_to_ini(self@, temp_dir@));
        }
        out
    }
}

/// A bracketed section-header line.
pub open spec fn line_is_header(t: Seq<char>) -> bool {
    t.len() > 0 && t[0] == '[' && t.last() == ']'
}

/// The `[Log]` section header, ignoring ASCII case.
pub open spec fn line_is_log_header(t: Seq<char>) -> bool {
    eq_ignore_case(t, "[Log]"@)
}

/// A line that sets the given key, ignoring ASCII case.
pub open spec fn line_sets_key(line: Seq<char>, key: Seq<char>) -> bool {
    starts_with_ci(trim_chars(line), key + "="@)
}

/// The position of the line that an update of `key` replaces: the
/// first key line inside the `[Log]` section.
pub open spec fn find_key_from(lines: Seq<Seq<char>>, i: int, in_log: bool, key: Seq<char>) -> Option<
    int,
>
    decreases lines.len() - i,
{
    if i < 0 || i >= lines.len() {
        None
    } else {
        let t = trim_chars(lines[i]);
        if line_is_log_header(t) {
            find_key_from(lines, i + 1, true, key)
        } else if line_is_header(t) {
            find_key_from(lines, i + 1, false, key)
        } else if in_log && line_sets_key(lines[i], key) {
            Some(i)
        } else {
            find_key_from(lines, i + 1, in_log, key)
        }
    }
}

/// The lines with the key line inserted at the end of the `[Log]`
/// section: before the first blank or section-header line after
/// `[Log]`, or at the very end.
pub open spec fn insert_key_lines(
    lines: Seq<Seq<char>>,
    i: int,
    in_log: bool,
    added: bool,
    kv: Seq<char>,
    acc: Seq<Seq<char>>,
) -> Seq<Seq<char>>
    decreases lines.len() - i,
{
    if i < 0 || i >= lines.len() {
        if added {
            acc
        } else {
            acc.push(kv)
        }
    } else {
        let line = lines[i];
        let t = trim_chars(line);
        if line_is_log_header(t) {
            insert_key_lines(lines, i + 1, true, added, kv, acc.push(line))
        } else {
            let ins = in_log && !added && (t.len() == 0 || line_is_header(t));
            let acc2 = if ins {
                acc.push(kv).push(line)
            } else {
                acc.push(line)
            };
            let in_log2 = if line_is_header(t) {
                false
            } else {
                in_log
            };
            insert_key_lines(lines, i + 1, in_log2, added || ins, kv, acc2)
        }
    }
}

/// The configuration text after `key` is set to `value` in the `[Log]`
/// section: a `[Log]` header is appended when missing, an existing key
/// line is replaced in place, and otherwise the key line is inserted
/// at the end of the section. Re-running with the same key updates the
/// same line rather than adding another.
pub open spec fn spec_log_entry(existing: Seq<char>, key: Seq<char>, value: Seq<char>) -> Seq<
    char,
> {
    let content = if contains_seq(encode_utf8(existing), encode_utf8("[Log]"@)) {
        existing
    } else {
        existing + "\n[Log]\n"@
    };
    let lines = lines_chars(content);
    let kv = key + "="@ + value;
    let lines2 = match find_key_from(lines, 0, false, key) {
        Some(idx) => lines.update(idx, kv),
        None => insert_key_lines(lines, 0, false, false, kv, Seq::empty()),
    };
    join_lines(lines2)
}

/// The position of the first `[Log]` key line for `key`, if any.
fn find_key_line(lines: &Vec<String>, key: &str) -> (r: Option<usize>)
    ensures
        match r {
            Some(i) => i < lines@.len() && find_key_from(
                lines@.map_values(|l: String| l@),
                0,
                false,
                key@,
            ) == Some(i as int),
            None => find_key_from(lines@.map_values(|l: String| l@), 0, false, key@) is None,
        },
{
    let ghost lv = lines@.map_values(|l: String| l@);
    let keyeq = String::from_str(key).concat("=");
    let mut in_log = false;
    let mut i: usize = 0;
    while i < lines.len()
        invariant
            0 <= i <= lines@.len(),
            lv == lines@.map_values(|l: String| l@),
            keyeq@ == key@ + "="@,
            find_key_from(lv, 0, false, key@) == find_key_from(lv, i as int, in_log, key@),
        decreases lines@.len() - i,
    {
        proof {
            assert(lv[i as int] == lines@[i as int]@);
        }
        let t = trim_str(lines[i].as_str());
        if eq_ignore_case_str(t.as_str(), "[Log]") {
            in_log = true;
        } else {
            let tn = t.unicode_len();
            let is_h = tn > 0 && t.as_str().get_char(0) == '[' && t.as_str().get_char(tn - 1)
                == ']';
            if is_h {
                in_log = false;
            } else if in_log && starts_with_ci_str(t.as_str(), keyeq.as_str()) {
                return Some(i);
            }
        }
        i += 1;
    }
    None
}

/// The configuration text after `key` is set to `value` in the `[Log]`
/// section, per `spec_log_entry`. The caller reads the file before and
/// writes the result back.
pub fn log_entry_text(existing: &str, key: &str, value: &str) -> (r: String)
    ensures
        r@ == spec_log_entry(existing@, key@, value@),
{
    let eb = existing.as_bytes_vec();
    let marker = "[Log]".as_bytes_vec();
    let content: String = if contains_bytes(&eb, &marker) {
        String::from_str(existing)
    } else {
        String::from_str(existing).concat("\n[Log]\n")
    };
    let lines = split_lines_str(content.as_str());
    let ghost lv = lines@.map_values(|l: String| l@);
    let kv = String::from_str(key).concat("=").concat(value);
    match find_key_line(&lines, key) {
        Some(idx) => {
            let mut out: Vec<String> = Vec::new();
            let mut j: usize = 0;
            while j < lines.len()
                invariant
                    0 <= j <= lines@.len(),
                    idx < lines@.len(),
                    lv == lines@.map_values(|l: String| l@),
                    kv@ == key@ + "="@ + value@,
                    out@.map_values(|l: String| l@) =~= lv.update(idx as int, kv@).take(j as int),
                decreases lines@.len() - j,
            {
                if j == idx {
                    out.push(kv.clone());
                } else {
                    out.push(lines[j].clone());
                }
                proof {
                    assert(lv.update(idx as int, kv@).take(j as int + 1) =~= lv.update(
                        idx as int,
                        kv@,
                    ).take(j as int).push(lv.update(idx as int, kv@)[j as int]));
                    assert(lv[j as int] == lines@[j as int]@);
                }
                j += 1;
            }
            proof {
                assert(lv.update(idx as int, kv@).take(lv.len() as int) =~= lv.update(
                    idx as int,
                    kv@,
                ));
            }
            join_lines_vec(&out)
        },
        None => {
            let mut out: Vec<String> = Vec::new();
            let mut in_log = false;
            let mut added = false;
            let mut i: usize = 0;
            proof {
                assert(out@.map_values(|l: String| l@) =~= Seq::<Seq<char>>::empty());
            }
            while i < lines.len()
                invariant
                    0 <= i <= lines@.len(),
                    lv == lines@.map_values(|l: String| l@),
                    kv@ == key@ + "="@ + value@,
                    insert_key_lines(lv, 0, false, false, kv@, Seq::empty()) == insert_key_lines(
                        lv,
                        i as int,
                        in_log,
                        added,
                        kv@,
                        out@.map_values(|l: String| l@),
                    ),
                decreases lines@.len() - i,
            {
                proof {
                    assert(lv[i as int] == lines@[i as int]@);
                }
                let ghost old_out = out@.map_values(|l: String| l@);
                let t = trim_str(lines[i].as_str());
                if eq_ignore_case_str(t.as_str(), "[Log]") {
                    in_log = true;
                    out.push(lines[i].clone());
                    proof {
                        assert(out@.map_values(|l: String| l@) =~= old_out.push(lv[i as int]));
                    }
                } else {
                    let tn = t.unicode_len();
                    let is_h = tn > 0 && t.as_str().get_char(0) == '[' && t.as_str().get_char(
                        tn - 1,
                    ) == ']';
                    let ins = in_log && !added && (tn == 0 || is_h);
                    if ins {
                        out.push(kv.clone());
                        added = true;
                    }
                    if is_h {
                        in_log = false;
                    }
                    out.push(lines[i].clone());
                    proof {
                        if ins {
                            assert(out@.map_values(|l: String| l@) =~= old_out.push(kv@).push(
                                lv[i as int],
                            ));
                        } else {
                            assert(out@.map_values(|l: String| l@) =~= old_out.push(lv[i as int]));
                        }
                    }
                }
                i += 1;
            }
            if !added {
                let ghost old_out = out@.map_values(|l: String| l@);
                out.push(kv.clone());
                proof {
                    assert(out@.map_values(|l: String| l@) =~= old_out.push(kv@));
                }
            }
            join_lines_vec(&out)
        },
    }
}

} // verus!
