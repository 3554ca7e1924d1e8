//! Parsing of the per-application version files agents collect: a flat JSON
//! object of string fields, or the older `key: value` line format. Walking
//! directories and reading pid files happens outside; the contents and the
//! service status arrive here as values.
use vstd::prelude::*;

verus! {

use crate::client::find_char_at;
use crate::client::find_sub_pos;
use crate::codec::p_string;
use crate::model::AppInfo;
use crate::model::AppInfoV;
use crate::model::ServiceStatus;
use crate::model::VersionInfo;
use crate::model::VersionInfoV;
use crate::security::first_non_space;
use crate::security::trim_sp;
use crate::security::trim_sp_chars;
use crate::strutil::chars_to_string;
use crate::strutil::copy_range;
use crate::strutil::str_eq_chars;
use crate::strutil::str_to_chars;

/// Reads the application inventory under one base directory; the directory
/// walking stays outside, the file contents come through
/// `parse_version_content`.
#[derive(Debug)]
pub struct AppInfoCollector {
    pub apps_dir: String,
}

impl AppInfoCollector {
    pub fn new(apps_dir: String) -> (r: AppInfoCollector)
        ensures
            r.apps_dir == apps_dir,
    {
        AppInfoCollector { apps_dir }
    }
}

/// The pairs of a flat JSON object of string fields starting at `i`, after
/// the opening brace; whitespace is allowed around every token.
pub open spec fn sp_pairs(s: Seq<char>, i: int) -> Option<(Seq<(Seq<char>, Seq<char>)>, int)>
    decreases s.len() - i,
    when 0 <= i <= s.len()
{
    let k = first_non_space(s, i);
    match p_string(s, k) {
        None => None,
        Some((key, j1)) => {
            if !(i <= j1 <= s.len()) {
                None
            } else {
                let j2 = first_non_space(s, j1);
                if !(j1 <= j2 <= s.len()) {
                    None
                } else if j2 < s.len() && s[j2] == ':' {
                    let j3 = first_non_space(s, j2 + 1);
                    match p_string(s, j3) {
                        None => None,
                        Some((value, j4)) => {
                            if !(i < j4 <= s.len()) {
                                None
                            } else {
                                let j5 = first_non_space(s, j4);
                                if !(j4 <= j5 <= s.len()) {
                                    None
                                } else if j5 < s.len() && s[j5] == ',' {
                                    match sp_pairs(s, j5 + 1) {
                                        Some((rest, j6)) => Some(
                                            (seq![(key, value)] + rest, j6),
                                        ),
                                        None => None,
                                    }
                                } else if j5 < s.len() && s[j5] == '}' {
                                    Some((seq![(key, value)], j5 + 1))
                                } else {
                                    None
                                }
                            }
                        },
                    }
                } else {
                    None
                }
            }
        },
    }
}

/// A whole flat object: brace, pairs (possibly none), brace, with nothing
/// but whitespace before or after.
pub open spec fn sp_flat_object(s: Seq<char>) -> Option<Seq<(Seq<char>, Seq<char>)>> {
    let i = first_non_space(s, 0);
    if i < s.len() && s[i] == '{' {
        let j = first_non_space(s, i + 1);
        if j < s.len() && s[j] == '}' {
            if first_non_space(s, j + 1) == s.len() {
                Some(Seq::empty())
            } else {
                None
            }
        } else {
            match sp_pairs(s, i + 1) {
                Some((pairs, k)) => if first_non_space(s, k) == s.len() {
                    Some(pairs)
                } else {
                    None
                },
                None => None,
            }
        }
    } else {
        None
    }
}

/// The value under the first occurrence of `key`.
pub open spec fn sp_lookup(pairs: Seq<(Seq<char>, Seq<char>)>, key: Seq<char>) -> Option<Seq<char>>
    decreases pairs.len(),
{
    if pairs.len() == 0 {
        None
    } else if pairs[0].0 == key {
        Some(pairs[0].1)
    } else {
        sp_lookup(pairs.drop_first(), key)
    }
}

fn e_skip_ws(s: &Vec<char>, i: usize) -> (r: usize)
    requires
        i <= s@.len(),
    ensures
        r == first_non_space(s@, i as int),
        i <= r <= s@.len(),
{
    let n = s.len();
    let mut j: usize = i;
    loop
        invariant
            i <= j <= n,
            n == s@.len(),
            first_non_space(s@, i as int) == first_non_space(s@, j as int),
        decreases n - j,
    {
        if j >= n {
            return j;
        }
        if !crate::strutil::char_is_space(s[j]) {
            return j;
        }
        j = j + 1;
    }
}

fn e_pairs(s: &Vec<char>, i: usize) -> (r: Option<(Vec<(String, String)>, usize)>)
    requires
        i <= s@.len(),
    ensures
        match r {
            Some((pairs, j)) => sp_pairs(s@, i as int) == Some(
                (pairs@.map_values(|p: (String, String)| (p.0@, p.1@)), j as int),
            ) && j <= s@.len(),
            None => sp_pairs(s@, i as int) is None,
        },
    decreases s@.len() - i,
{
    let k = e_skip_ws(s, i);
    let (key, j1) = match crate::codec::e_string_b(s, k) {
        Some(v) => v,
        None => {
            return None;
        },
    };
    let j2 = e_skip_ws(s, j1);
    if !(j2 < s.len() && s[j2] == ':') {
        return None;
    }
    let j3 = e_skip_ws(s, j2 + 1);
    let (value, j4) = match crate::codec::e_string_b(s, j3) {
        Some(v) => v,
        None => {
            return None;
        },
    };
    let j5 = e_skip_ws(s, j4);
    if j5 < s.len() && s[j5] == ',' {
        match e_pairs(s, j5 + 1) {
            Some((mut rest, j6)) => {
                rest.insert(0, (key, value));
                proof {
                    assert(rest@.map_values(|p: (String, String)| (p.0@, p.1@)) =~= seq![
                        (
                            p_string(s@, first_non_space(s@, i as int))->Some_0.0,
                            p_string(
                                s@,
                                first_non_space(
                                    s@,
                                    first_non_space(
                                        s@,
                                        p_string(s@, first_non_space(s@, i as int))->Some_0.1,
                                    ) + 1,
                                ),
                            )->Some_0.0,
                        ),
                    ] + sp_pairs(s@, j5 as int + 1)->Some_0.0);
                }
                Some((rest, j6))
            },
            None => None,
        }
    } else if j5 < s.len() && s[j5] == '}' {
        let mut one: Vec<(String, String)> = Vec::new();
        one.push((key, value));
        proof {
            assert(one@.map_values(|p: (String, String)| (p.0@, p.1@)) =~= seq![
                (
                    p_string(s@, first_non_space(s@, i as int))->Some_0.0,
                    p_string(
                        s@,
                        first_non_space(
                            s@,
                            first_non_space(
                                s@,
                                p_string(s@, first_non_space(s@, i as int))->Some_0.1,
                            ) + 1,
                        ),
                    )->Some_0.0,
                ),
            ]);
        }
        Some((one, j5 + 1))
    } else {
        None
    }
}

/// Parses a flat JSON object of string fields, tolerating whitespace.
pub fn parse_flat_object(s: &Vec<char>) -> (r: Option<Vec<(String, String)>>)
    ensures
        match r {
            Some(pairs) => sp_flat_object(s@) == Some(
                pairs@.map_values(|p: (String, String)| (p.0@, p.1@)),
            ),
            None => sp_flat_object(s@) is None,
        },
{
    let i = e_skip_ws(s, 0);
    if !(i < s.len() && s[i] == '{') {
        return None;
    }
    let j = e_skip_ws(s, i + 1);
    if j < s.len() && s[j] == '}' {
        if e_skip_ws(s, j + 1) == s.len() {
            let none: Vec<(String, String)> = Vec::new();
            proof {
                assert(none@.map_values(|p: (String, String)| (p.0@, p.1@)) =~= Seq::<
                    (Seq<char>, Seq<char>),
                >::empty());
            }
            Some(none)
        } else {
            None
        }
    } else {
        match e_pairs(s, i + 1) {
            Some((pairs, k)) => {
                if e_skip_ws(s, k) == s.len() {
                    Some(pairs)
                } else {
                    None
                }
            },
            None => None,
        }
    }
}

/// Finds the first value stored under `key`.
fn lookup_pair(pairs: &Vec<(String, String)>, key: &str) -> (r: Option<String>)
    ensures
        match r {
            Some(v) => sp_lookup(pairs@.map_values(|p: (String, String)| (p.0@, p.1@)), key@)
                == Some(v@),
            None => sp_lookup(pairs@.map_values(|p: (String, String)| (p.0@, p.1@)), key@)
                is None,
        },
{
    let ghost ps = pairs@.map_values(|p: (String, String)| (p.0@, p.1@));
    let n = pairs.len();
    let mut i: usize = 0;
    proof {
        assert(ps.skip(0) =~= ps);
    }
    while i < n
        invariant
            i <= n,
            n == pairs@.len(),
            ps == pairs@.map_values(|p: (String, String)| (p.0@, p.1@)),
            sp_lookup(ps, key@) == sp_lookup(ps.skip(i as int), key@),
        decreases n - i,
    {
        proof {
            assert(ps.skip(i as int)[0] == ps[i as int]);
        }
        if crate::strutil::str_eq(pairs[i].0.as_str(), key) {
            return Some(pairs[i].1.clone());
        }
        proof {
            assert(ps.skip(i as int).drop_first() =~= ps.skip(i as int + 1));
        }
        i = i + 1;
    }
    proof {
        assert(ps.skip(n as int).len() == 0);
    }
    None
}

/// A version file in the JSON form: both `app` and `created_time` must be
/// present as string fields.
pub open spec fn spec_parse_version_file(content: Seq<char>) -> Option<VersionInfoV> {
    match sp_flat_object(content) {
        None => None,
        Some(pairs) => match (sp_lookup(pairs, "app"@), sp_lookup(pairs, "created_time"@)) {
            (Some(app), Some(created_time)) => Some(VersionInfoV { app, created_time }),
            _ => None,
        },
    }
}

/// Parses one version file's text into a `VersionInfo`; files that are not a
/// flat JSON object with both fields are ignored by the collector.
pub fn parse_version_file(content: &str) -> (r: Option<VersionInfo>)
    ensures
        match r {
            Some(v) => spec_parse_version_file(content@) == Some(v@),
            None => spec_parse_version_file(content@) is None,
        },
{
    let chars = str_to_chars(content);
    let pairs = match parse_flat_object(&chars) {
        Some(p) => p,
        None => {
            return None;
        },
    };
    let app = match lookup_pair(&pairs, "app") {
        Some(a) => a,
        None => {
            return None;
        },
    };
    let created_time = match lookup_pair(&pairs, "created_time") {
        Some(c) => c,
        None => {
            return None;
        },
    };
    Some(VersionInfo { app, created_time })
}

/// The four fields a version file can set.
pub ghost struct VfFieldsV {
    pub version: Seq<char>,
    pub deploy_time: Seq<char>,
    pub branch: Option<Seq<char>>,
    pub commit: Option<Seq<char>>,
}

/// One `key: value` line folded into the accumulated fields; unknown keys
/// and lines without a colon change nothing.
pub open spec fn apply_line(acc: VfFieldsV, line: Seq<char>) -> VfFieldsV {
    let l = trim_sp(line);
    if l.len() == 0 {
        acc
    } else {
        let c = find_char_at(l, ':');
        if c >= l.len() {
            acc
        } else {
            let key = trim_sp(l.take(c));
            let value = trim_sp(l.skip(c + 1));
            if key == "version"@ {
                VfFieldsV { version: value, ..acc }
            } else if key == "deploy_time"@ {
                VfFieldsV { deploy_time: value, ..acc }
            } else if key == "branch"@ {
                VfFieldsV { branch: Some(value), ..acc }
            } else if key == "commit"@ {
                VfFieldsV { commit: Some(value), ..acc }
            } else {
                acc
            }
        }
    }
}

/// Every line of `s` folded in order; a later line overwrites an earlier one.
pub open spec fn fold_lines(acc: VfFieldsV, s: Seq<char>) -> VfFieldsV
    decreases s.len(),
{
    let nl = find_char_at(s, '\n');
    if !(0 <= nl < s.len()) {
        apply_line(acc, s)
    } else {
        fold_lines(apply_line(acc, s.take(nl)), s.skip(nl + 1))
    }
}

/// The fields `parse_version_content` starts from.
pub open spec fn vf_defaults() -> VfFieldsV {
    VfFieldsV { version: "unknown"@, deploy_time: "unknown"@, branch: None, commit: None }
}

fn apply_line_chars(acc: (String, String, Option<String>, Option<String>), line: &Vec<char>) -> (r:
    (String, String, Option<String>, Option<String>))
    ensures
        vf_of(r) == apply_line(vf_of(acc), line@),
{
    proof {
        reveal_strlit("version");
        reveal_strlit("deploy_time");
        reveal_strlit("branch");
        reveal_strlit("commit");
    }
    let l = trim_sp_chars(line);
    if l.len() == 0 {
        return acc;
    }
    let mut colon: Vec<char> = Vec::new();
    colon.push(':');
    proof {
        assert(colon@ =~= seq![':']);
    }
    let c = find_sub_pos(&l, &colon);
    if c >= l.len() {
        return acc;
    }
    let key_part = copy_range(&l, 0, c);
    let value_part = copy_range(&l, c + 1, l.len());
    proof {
        assert(key_part@ =~= l@.take(c as int));
        assert(value_part@ =~= l@.skip(c as int + 1));
    }
    let key = trim_sp_chars(&key_part);
    let value_t = trim_sp_chars(&value_part);
    let value = chars_to_string(&value_t);
    let (v0, d0, b0, c0) = acc;
    if str_eq_chars("version", &key) {
        (value, d0, b0, c0)
    } else if str_eq_chars("deploy_time", &key) {
        (v0, value, b0, c0)
    } else if str_eq_chars("branch", &key) {
        (v0, d0, Some(value), c0)
    } else if str_eq_chars("commit", &key) {
        (v0, d0, b0, Some(value))
    } else {
        (v0, d0, b0, c0)
    }
}

/// The view of the accumulator tuple.
pub open spec fn vf_of(acc: (String, String, Option<String>, Option<String>)) -> VfFieldsV {
    VfFieldsV {
        version: acc.0@,
        deploy_time: acc.1@,
        branch: crate::model::opt_view(acc.2),
        commit: crate::model::opt_view(acc.3),
    }
}

fn fold_lines_chars(acc: (String, String, Option<String>, Option<String>), s: &Vec<char>) -> (r: (
    String,
    String,
    Option<String>,
    Option<String>,
))
    ensures
        vf_of(r) == fold_lines(vf_of(acc), s@),
    decreases s@.len(),
{
    let mut nlp: Vec<char> = Vec::new();
    nlp.push('\n');
    proof {
        assert(nlp@ =~= seq!['\n']);
    }
    let nl = find_sub_pos(s, &nlp);
    if nl >= s.len() {
        apply_line_chars(acc, s)
    } else {
        let head = copy_range(s, 0, nl);
        let tail = copy_range(s, nl + 1, s.len());
        proof {
            assert(head@ =~= s@.take(nl as int));
            assert(tail@ =~= s@.skip(nl as int + 1));
        }
        let acc2 = apply_line_chars(acc, &head);
        fold_lines_chars(acc2, &tail)
    }
}

/// One application's version file turned into its inventory entry: the JSON
/// form when the content is a flat object of string fields, else the
/// `key: value` lines, with `unknown` where a field never appears. The
/// service status is observed outside and passed in.
pub fn parse_version_content(app_name: &str, content: &str, service_status: ServiceStatus) -> (r:
    AppInfo)
    ensures
        ({
            let fields2 = match sp_flat_object(trim_sp(content@)) {
                Some(pairs) => VfFieldsV {
                    version: if sp_lookup(pairs, "version"@) is Some {
                        sp_lookup(pairs, "version"@)->Some_0
                    } else {
                        "unknown"@
                    },
                    deploy_time: if sp_lookup(pairs, "deploy_time"@) is Some {
                        sp_lookup(pairs, "deploy_time"@)->Some_0
                    } else {
                        "unknown"@
                    },
                    branch: sp_lookup(pairs, "branch"@),
                    commit: sp_lookup(pairs, "commit"@),
                },
                None => fold_lines(vf_defaults(), content@),
            };
            r@ == (AppInfoV {
                name: app_name@,
                version: fields2.version,
                deploy_time: fields2.deploy_time,
                branch: fields2.branch,
                commit: fields2.commit,
                service_status: service_status@,
            })
        }),
{
    let chars = str_to_chars(content);
    let trimmed = trim_sp_chars(&chars);
    match parse_flat_object(&trimmed) {
        Some(pairs) => {
            let version = match lookup_pair(&pairs, "version") {
                Some(v) => v,
                None => String::from_str("unknown"),
            };
            let deploy_time = match lookup_pair(&pairs, "deploy_time") {
                Some(v) => v,
                None => String::from_str("unknown"),
            };
            let branch = lookup_pair(&pairs, "branch");
            let commit = lookup_pair(&pairs, "commit");
            AppInfo {
                name: String::from_str(app_name),
                version,
                deploy_time,
                branch,
                commit,
                service_status,
            }
        },
        None => {
            let acc = (
                String::from_str("unknown"),
                String::from_str("unknown"),
                None::<String>,
                None::<String>,
            );
            proof {
                reveal_strlit("unknown");
            }
            let (version, deploy_time, branch, commit) = fold_lines_chars(acc, &chars);
            AppInfo {
                name: String::from_str(app_name),
                version,
                deploy_time,
                branch,
                commit,
                service_status,
            }
        },
    }
}

} // verus!
