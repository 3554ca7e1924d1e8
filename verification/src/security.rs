//! The command-validation policy: classifies a raw command string as
//! `Allowed` or `Blocked` against an allow-list, a block-list, script-path
//! rules and an application-management pattern, plus the sanitizer and the
//! bearer-token helpers.
use vstd::prelude::*;

verus! {

use crate::model::Timestamp;
use crate::model::ts_lt;
use crate::strutil::begins_with;
use crate::strutil::chars_to_string;
use crate::strutil::char_is_space;
use crate::strutil::concat2;
use crate::strutil::contains_sub;
use crate::strutil::copy_range;
use crate::strutil::dec_u64;
use crate::strutil::eq_at;
use crate::strutil::has_sub;
use crate::strutil::is_space;
use crate::strutil::list_contains_chars;
use crate::strutil::lower;
use crate::strutil::starts_with;
use crate::strutil::str_to_chars;
use crate::strutil::to_lower_chars;
use crate::strutil::u64_to_string;
use crate::strutil::views_of;

/// The first position at or after `i` holding a non-space character, or the
/// length when all of the rest is whitespace.
pub open spec fn first_non_space(s: Seq<char>, i: int) -> int
    decreases s.len() - i,
    when 0 <= i <= s.len()
{
    if i >= s.len() {
        i
    } else if !is_space(s[i]) {
        i
    } else {
        first_non_space(s, i + 1)
    }
}

pub proof fn lemma_first_non_space(s: Seq<char>, i: int)
    requires
        0 <= i <= s.len(),
    ensures
        i <= first_non_space(s, i) <= s.len(),
        forall|k: int| i <= k < first_non_space(s, i) ==> is_space(s[k]),
        first_non_space(s, i) < s.len() ==> !is_space(s[first_non_space(s, i)]),
    decreases s.len() - i,
{
    if i < s.len() && is_space(s[i]) {
        lemma_first_non_space(s, i + 1);
    }
}

/// Whether `s` holds whitespace only.
pub open spec fn is_all_space(s: Seq<char>) -> bool {
    first_non_space(s, 0) == s.len()
}

/// One past the last non-space character of `s`, or zero.
pub open spec fn trim_end(s: Seq<char>) -> int
    decreases s.len(),
{
    if s.len() == 0 {
        0
    } else if is_space(s.last()) {
        trim_end(s.drop_last())
    } else {
        s.len() as int
    }
}

pub proof fn lemma_trim_end(s: Seq<char>)
    ensures
        0 <= trim_end(s) <= s.len(),
        forall|k: int| trim_end(s) <= k < s.len() ==> is_space(s[k]),
        trim_end(s) > 0 ==> !is_space(s[trim_end(s) - 1]),
    decreases s.len(),
{
    if s.len() > 0 && is_space(s.last()) {
        lemma_trim_end(s.drop_last());
        assert(forall|k: int| 0 <= k < s.len() - 1 ==> s.drop_last()[k] == s[k]);
    }
}

/// `s` with leading and trailing whitespace removed.
pub open spec fn trim_sp(s: Seq<char>) -> Seq<char> {
    if is_all_space(s) {
        Seq::empty()
    } else {
        s.subrange(first_non_space(s, 0), trim_end(s))
    }
}

pub proof fn lemma_trim_bounds(s: Seq<char>)
    requires
        !is_all_space(s),
    ensures
        0 <= first_non_space(s, 0) < trim_end(s) <= s.len(),
        !is_space(s[first_non_space(s, 0)]),
{
    lemma_first_non_space(s, 0);
    lemma_trim_end(s);
    let f = first_non_space(s, 0);
    assert(f < s.len());
    assert(!is_space(s[f]));
    if trim_end(s) <= f {
        assert(is_space(s[f]));
    }
}

/// The end of the whitespace-free run beginning at `i`.
pub open spec fn token_end(s: Seq<char>, i: int) -> int
    decreases s.len() - i,
    when 0 <= i <= s.len()
{
    if i >= s.len() {
        i
    } else if is_space(s[i]) {
        i
    } else {
        token_end(s, i + 1)
    }
}

pub proof fn lemma_token_end(s: Seq<char>, i: int)
    requires
        0 <= i <= s.len(),
    ensures
        i <= token_end(s, i) <= s.len(),
        forall|k: int| i <= k < token_end(s, i) ==> !is_space(s[k]),
        token_end(s, i) < s.len() ==> is_space(s[token_end(s, i)]),
    decreases s.len() - i,
{
    if i < s.len() && !is_space(s[i]) {
        lemma_token_end(s, i + 1);
    }
}

/// The first whitespace-separated token of `s`; empty when `s` is all
/// whitespace.
pub open spec fn first_token(s: Seq<char>) -> Seq<char> {
    if is_all_space(s) {
        Seq::empty()
    } else {
        s.subrange(first_non_space(s, 0), token_end(s, first_non_space(s, 0)))
    }
}

/// Position just after the last occurrence of `c`, or zero when `c` does not
/// occur.
pub open spec fn after_last(s: Seq<char>, c: char) -> int
    decreases s.len(),
{
    if s.len() == 0 {
        0
    } else if s.last() == c {
        s.len() as int
    } else {
        after_last(s.drop_last(), c)
    }
}

pub proof fn lemma_after_last(s: Seq<char>, c: char)
    ensures
        0 <= after_last(s, c) <= s.len(),
        after_last(s, c) > 0 ==> s[after_last(s, c) - 1] == c,
        forall|k: int| after_last(s, c) <= k < s.len() ==> s[k] != c,
        after_last(s, c) == 0 ==> forall|k: int| 0 <= k < s.len() ==> s[k] != c,
    decreases s.len(),
{
    if s.len() > 0 && s.last() != c {
        lemma_after_last(s.drop_last(), c);
        assert(forall|k: int| 0 <= k < s.len() - 1 ==> s.drop_last()[k] == s[k]);
    }
}

/// What `split('.')` leaves as the final piece: the characters after the
/// last dot, or all of `s` when there is no dot.
pub open spec fn split_dot_last(s: Seq<char>) -> Seq<char> {
    if after_last(s, '.') == 0 {
        s
    } else {
        s.subrange(after_last(s, '.'), s.len() as int)
    }
}

/// The file-name extension of a path, following the standard library's
/// rules: the part of the file name after its last dot, with no extension
/// when the file name has no dot past its first character.
pub open spec fn path_extension(p: Seq<char>) -> Option<Seq<char>> {
    let fname = p.subrange(after_last(p, '/'), p.len() as int);
    if after_last(fname, '.') <= 1 {
        None
    } else {
        Some(fname.subrange(after_last(fname, '.'), fname.len() as int))
    }
}

/// `s` with every occurrence of `pat` replaced by `rep`, scanning left to
/// right without overlap, as str::replace does.
pub open spec fn replace_seq(s: Seq<char>, pat: Seq<char>, rep: Seq<char>) -> Seq<char>
    decreases s.len(),
    when pat.len() >= 1
{
    if s.len() < pat.len() {
        s
    } else if starts_with(s, pat) {
        rep + replace_seq(s.skip(pat.len() as int), pat, rep)
    } else {
        seq![s[0]] + replace_seq(s.drop_first(), pat, rep)
    }
}

/// The exact whitespace set and scan positions used by the policy, found
/// executably.
fn scan_non_space(s: &Vec<char>, from: usize) -> (r: usize)
    requires
        from <= s@.len(),
    ensures
        r == first_non_space(s@, from as int),
{
    let n = s.len();
    let mut i: usize = from;
    loop
        invariant
            from <= i <= n,
            n == s@.len(),
            first_non_space(s@, from as int) == first_non_space(s@, i as int),
        decreases n - i,
    {
        if i >= n {
            return i;
        }
        if !char_is_space(s[i]) {
            return i;
        }
        i = i + 1;
    }
}

fn scan_token_end(s: &Vec<char>, from: usize) -> (r: usize)
    requires
        from <= s@.len(),
    ensures
        r == token_end(s@, from as int),
{
    let n = s.len();
    let mut i: usize = from;
    loop
        invariant
            from <= i <= n,
            n == s@.len(),
            token_end(s@, from as int) == token_end(s@, i as int),
        decreases n - i,
    {
        if i >= n {
            return i;
        }
        if char_is_space(s[i]) {
            return i;
        }
        i = i + 1;
    }
}

fn scan_trim_end(s: &Vec<char>) -> (r: usize)
    ensures
        r == trim_end(s@),
{
    let n = s.len();
    let mut i: usize = n;
    proof {
        assert(s@.subrange(0, n as int) =~= s@);
    }
    loop
        invariant
            i <= n,
            n == s@.len(),
            trim_end(s@) == trim_end(s@.subrange(0, i as int)),
        decreases i,
    {
        proof {
            assert(s@.subrange(0, i as int).len() == i);
        }
        if i == 0 {
            return 0;
        }
        let c = s[i - 1];
        proof {
            assert(s@.subrange(0, i as int).last() == c);
            assert(s@.subrange(0, i as int).drop_last() =~= s@.subrange(0, i as int - 1));
        }
        if !char_is_space(c) {
            return i;
        }
        i = i - 1;
    }
}

fn scan_after_last(s: &Vec<char>, c: char) -> (r: usize)
    ensures
        r == after_last(s@, c),
{
    let n = s.len();
    let mut i: usize = n;
    proof {
        assert(s@.subrange(0, n as int) =~= s@);
    }
    loop
        invariant
            i <= n,
            n == s@.len(),
            after_last(s@, c) == after_last(s@.subrange(0, i as int), c),
        decreases i,
    {
        proof {
            assert(s@.subrange(0, i as int).len() == i);
        }
        if i == 0 {
            return 0;
        }
        let ch = s[i - 1];
        proof {
            assert(s@.subrange(0, i as int).last() == ch);
            assert(s@.subrange(0, i as int).drop_last() =~= s@.subrange(0, i as int - 1));
        }
        if ch == c {
            return i;
        }
        i = i - 1;
    }
}

/// Replacement of `pat` by `rep` in the suffix of `s` that starts at `from`.
fn replace_from(s: &Vec<char>, from: usize, pat: &Vec<char>, rep: &Vec<char>) -> (r: Vec<char>)
    requires
        from <= s@.len(),
        pat@.len() >= 1,
    ensures
        r@ == replace_seq(s@.skip(from as int), pat@, rep@),
    decreases s@.len() - from,
{
    let n = s.len();
    if n - from < pat.len() {
        let r = copy_range(s, from, n);
        proof {
            assert(s@.subrange(from as int, n as int) =~= s@.skip(from as int));
        }
        r
    } else if eq_at(s, pat, from) {
        proof {
            assert(s@.skip(from as int).subrange(0, pat@.len() as int) =~= s@.subrange(
                from as int,
                from + pat@.len(),
            ));
            assert(starts_with(s@.skip(from as int), pat@));
            assert(s@.skip(from as int).skip(pat@.len() as int) =~= s@.skip(
                from + pat@.len() as int,
            ));
        }
        let mut r = copy_range(rep, 0, rep.len());
        proof {
            assert(r@ =~= rep@);
        }
        let mut tail = replace_from(s, from + pat.len(), pat, rep);
        r.append(&mut tail);
        r
    } else {
        proof {
            assert(s@.skip(from as int).subrange(0, pat@.len() as int) =~= s@.subrange(
                from as int,
                from + pat@.len(),
            ));
            assert(!starts_with(s@.skip(from as int), pat@));
            assert(s@.skip(from as int).drop_first() =~= s@.skip(from as int + 1));
        }
        let mut r: Vec<char> = Vec::new();
        r.push(s[from]);
        let mut tail = replace_from(s, from + 1, pat, rep);
        r.append(&mut tail);
        proof {
            assert(r@ =~= seq![s@.skip(from as int)[0]] + replace_seq(
                s@.skip(from as int + 1),
                pat@,
                rep@,
            ));
        }
        r
    }
}

/// `s` with every occurrence of `pat` replaced by `rep`.
fn replace_chars(s: &Vec<char>, pat: &Vec<char>, rep: &Vec<char>) -> (r: Vec<char>)
    requires
        pat@.len() >= 1,
    ensures
        r@ == replace_seq(s@, pat@, rep@),
{
    let r = replace_from(s, 0, pat, rep);
    proof {
        assert(s@.skip(0) =~= s@);
    }
    r
}

/// Leading and trailing whitespace removed, executably.
pub fn trim_sp_chars(s: &Vec<char>) -> (r: Vec<char>)
    ensures
        r@ == trim_sp(s@),
{
    let start = scan_non_space(s, 0);
    if start == s.len() {
        Vec::new()
    } else {
        proof {
            lemma_trim_bounds(s@);
        }
        let end = scan_trim_end(s);
        copy_range(s, start, end)
    }
}


/// One entry of the curated command list offered to operators.
#[derive(Debug)]
pub struct PredefinedCommand {
    pub command: String,
    pub name: String,
    pub category: String,
    pub description: String,
}

pub ghost struct PredefinedCommandV {
    pub command: Seq<char>,
    pub name: Seq<char>,
    pub category: Seq<char>,
    pub description: Seq<char>,
}

impl View for PredefinedCommand {
    type V = PredefinedCommandV;

    open spec fn view(&self) -> PredefinedCommandV {
        PredefinedCommandV {
            command: self.command@,
            name: self.name@,
            category: self.category@,
            description: self.description@,
        }
    }
}

impl PredefinedCommand {
    pub fn new(command: &str, name: &str, category: &str, description: &str) -> (r:
        PredefinedCommand)
        ensures
            r@ == (PredefinedCommandV {
                command: command@,
                name: name@,
                category: category@,
                description: description@,
            }),
    {
        PredefinedCommand {
            command: String::from_str(command),
            name: String::from_str(name),
            category: String::from_str(category),
            description: String::from_str(description),
        }
    }
}

impl Clone for PredefinedCommand {
    fn clone(&self) -> (r: Self)
        ensures
            r@ == self@,
    {
        PredefinedCommand {
            command: self.command.clone(),
            name: self.name.clone(),
            category: self.category.clone(),
            description: self.description.clone(),
        }
    }
}

/// The verdict of the policy on one command string.
#[derive(Debug)]
pub enum ValidationResult {
    Allowed,
    Blocked { reason: String },
}

impl Clone for ValidationResult {
    fn clone(&self) -> (r: Self)
        ensures
            match (self, &r) {
                (ValidationResult::Allowed, ValidationResult::Allowed) => true,
                (
                    ValidationResult::Blocked { reason: a },
                    ValidationResult::Blocked { reason: b },
                ) => a@ == b@,
                _ => false,
            },
    {
        match self {
            ValidationResult::Allowed => ValidationResult::Allowed,
            ValidationResult::Blocked { reason } => ValidationResult::Blocked {
                reason: reason.clone(),
            },
        }
    }
}

/// The server-side command filter.
#[derive(Debug)]
pub struct CommandValidator {
    pub allowed_commands: Vec<String>,
    pub blocked_patterns: Vec<String>,
    pub max_command_length: usize,
    pub allowed_script_dirs: Vec<String>,
    pub allowed_script_extensions: Vec<String>,
}

/// The first block-list entry whose lowercased text occurs in the lowercased
/// command, in list order.
pub open spec fn first_blocked(pats: Seq<Seq<char>>, low: Seq<char>) -> Option<Seq<char>>
    decreases pats.len(),
{
    if pats.len() == 0 {
        None
    } else if has_sub(low, lower(pats[0])) {
        Some(pats[0])
    } else {
        first_blocked(pats.drop_first(), low)
    }
}

/// The entries of a list printed the way the policy reports it: each entry
/// quoted, separated by comma and space.
pub open spec fn quoted_list_items(l: Seq<Seq<char>>) -> Seq<char>
    decreases l.len(),
{
    if l.len() == 0 {
        Seq::empty()
    } else if l.len() == 1 {
        seq!['"'] + l[0] + seq!['"']
    } else {
        seq!['"'] + l[0] + seq!['"'] + ", "@ + quoted_list_items(l.drop_first())
    }
}

/// A list printed in brackets, as the rejection reasons show it.
pub open spec fn quoted_list(l: Seq<Seq<char>>) -> Seq<char> {
    seq!['['] + quoted_list_items(l) + seq![']']
}

/// The entries from position `k` on, emitted in the quoted form.
fn push_quoted_items_from(out: &mut String, l: &Vec<String>, k: usize)
    requires
        k <= l@.len(),
    ensures
        final(out)@ == old(out)@ + quoted_list_items(views_of(l@).skip(k as int)),
    decreases l@.len() - k,
{
    proof {
        reveal_strlit("\"");
        reveal_strlit(", ");
    }
    let ghost items = views_of(l@).skip(k as int);
    if k == l.len() {
        proof {
            assert(items.len() == 0);
            assert(final(out)@ =~= old(out)@ + quoted_list_items(items));
        }
    } else if k + 1 == l.len() {
        out.append("\"");
        out.append(l[k].as_str());
        out.append("\"");
        proof {
            assert(items.len() == 1);
            assert(items[0] == l@[k as int]@);
            assert(final(out)@ =~= old(out)@ + quoted_list_items(items));
        }
    } else {
        out.append("\"");
        out.append(l[k].as_str());
        out.append("\"");
        out.append(", ");
        push_quoted_items_from(out, l, k + 1);
        proof {
            assert(items.len() > 1);
            assert(items[0] == l@[k as int]@);
            assert(items.drop_first() =~= views_of(l@).skip(k as int + 1));
            assert(final(out)@ =~= old(out)@ + quoted_list_items(items));
        }
    }
}

/// Whether the command matches the application-management shapes that take
/// the fast path around the block-list.
pub open spec fn is_app_management(cmd: Seq<char>) -> bool {
    (has_sub(cmd, "cd /tmp/apps/"@) && has_sub(cmd, "bash"@) && has_sub(cmd, ".sh"@)) || (has_sub(
        cmd,
        "/tmp/apps/"@,
    ) && (has_sub(cmd, "kill"@) || has_sub(cmd, "if"@) || has_sub(cmd, "pid"@)))
}

/// The verdict of the application-management sub-policy; `None` is allowed.
pub open spec fn validate_app_management(cmd: Seq<char>) -> Option<Seq<char>> {
    if !has_sub(cmd, "/tmp/apps/"@) {
        Some("应用管理命令必须在 /tmp/apps/ 目录下执行"@)
    } else if has_sub(cmd, "rm -rf"@) || has_sub(cmd, "format"@) || has_sub(cmd, "dd"@) || has_sub(
        cmd,
        "curl"@,
    ) || has_sub(cmd, "wget"@) || has_sub(cmd, "nc "@) || has_sub(cmd, "netcat"@) || has_sub(
        cmd,
        "telnet"@,
    ) {
        Some("应用管理命令包含危险操作"@)
    } else if (has_sub(cmd, "bash"@) && has_sub(cmd, ".sh"@)) || (has_sub(cmd, "kill"@) && has_sub(
        cmd,
        "cat"@,
    ) && has_sub(cmd, ".pid"@)) || has_sub(cmd, "ps -p"@) {
        None
    } else {
        Some("不支持的应用管理命令格式"@)
    }
}

impl CommandValidator {
    /// A token is treated as a script path when it holds a path separator or
    /// ends in an allowed script extension.
    pub open spec fn spec_is_script_path(&self, tok: Seq<char>) -> bool {
        tok.contains('/') || views_of(self.allowed_script_extensions@).contains(
            split_dot_last(tok),
        )
    }

    /// The verdict of the script-path sub-policy; `None` is allowed.
    pub open spec fn spec_validate_script_path(&self, p: Seq<char>) -> Option<Seq<char>> {
        if !(p.len() > 0 && p[0] == '/') {
            Some("只允许执行绝对路径的脚本"@)
        } else if has_sub(p, "../"@) || has_sub(p, "./"@) {
            Some("脚本路径包含危险的路径遍历字符"@)
        } else if !(exists|j: int|
            0 <= j < self.allowed_script_dirs@.len() && starts_with(
                p,
                views_of(self.allowed_script_dirs@)[j],
            )) {
            Some(
                "脚本不在允许的目录中。允许的目录: "@ + quoted_list(
                    views_of(self.allowed_script_dirs@),
                ),
            )
        } else {
            match path_extension(p) {
                None => Some("脚本文件必须有扩展名"@),
                Some(e) => if !views_of(self.allowed_script_extensions@).contains(e) {
                    Some("不允许的脚本类型: ."@ + e)
                } else {
                    None
                },
            }
        }
    }

    /// The whole policy, step by step: length gate, non-empty gate,
    /// application-management fast path, block-list, then the head word
    /// against the script rules or the allow-list. `None` is allowed,
    /// `Some(reason)` is blocked.
    pub open spec fn spec_validate(&self, cmd: Seq<char>) -> Option<Seq<char>> {
        if cmd.len() > self.max_command_length {
            Some(
                "命令长度超过限制: "@ + dec_u64(cmd.len() as int) + " > "@ + dec_u64(
                    self.max_command_length as int,
                ),
            )
        } else if is_all_space(cmd) {
            Some("空命令"@)
        } else if is_app_management(cmd) {
            validate_app_management(cmd)
        } else {
            match first_blocked(views_of(self.blocked_patterns@), lower(cmd)) {
                Some(p) => Some("包含危险模式: "@ + p),
                None => {
                    let tok = first_token(cmd);
                    if self.spec_is_script_path(tok) {
                        self.spec_validate_script_path(tok)
                    } else if !views_of(self.allowed_commands@).contains(tok) {
                        Some("命令不在允许列表中: "@ + tok)
                    } else {
                        None
                    }
                },
            }
        }
    }

    /// What the sanitizer returns: each shell separator and substitution
    /// character replaced by a space, in the order listed, then trimmed.
    pub open spec fn spec_sanitize(cmd: Seq<char>) -> Seq<char> {
        trim_sp(
            replace_seq(
                replace_seq(
                    replace_seq(
                        replace_seq(
                            replace_seq(
                                replace_seq(replace_seq(cmd, ";"@, " "@), "&&"@, " "@),
                                "||"@,
                                " "@,
                            ),
                            "|"@,
                            " "@,
                        ),
                        "`"@,
                        " "@,
                    ),
                    "$"@,
                    " "@,
                ),
                "&"@,
                " "@,
            ),
        )
    }

    pub fn with_allowed_commands(self, commands: Vec<String>) -> (r: Self)
        ensures
            r.allowed_commands == commands,
            r.blocked_patterns == self.blocked_patterns,
            r.max_command_length == self.max_command_length,
            r.allowed_script_dirs == self.allowed_script_dirs,
            r.allowed_script_extensions == self.allowed_script_extensions,
    {
        CommandValidator { allowed_commands: commands, ..self }
    }

    pub fn with_allowed_script_dirs(self, dirs: Vec<String>) -> (r: Self)
        ensures
            r.allowed_script_dirs == dirs,
            r.allowed_commands == self.allowed_commands,
            r.blocked_patterns == self.blocked_patterns,
            r.max_command_length == self.max_command_length,
            r.allowed_script_extensions == self.allowed_script_extensions,
    {
        CommandValidator { allowed_script_dirs: dirs, ..self }
    }

    pub fn add_allowed_command(&mut self, command: String)
        ensures
            final(self).allowed_commands@ == old(self).allowed_commands@.push(command),
            final(self).blocked_patterns == old(self).blocked_patterns,
            final(self).max_command_length == old(self).max_command_length,
            final(self).allowed_script_dirs == old(self).allowed_script_dirs,
            final(self).allowed_script_extensions == old(self).allowed_script_extensions,
    {
        self.allowed_commands.push(command);
    }

    pub fn add_blocked_pattern(&mut self, pattern: String)
        ensures
            final(self).blocked_patterns@ == old(self).blocked_patterns@.push(pattern),
            final(self).allowed_commands == old(self).allowed_commands,
            final(self).max_command_length == old(self).max_command_length,
            final(self).allowed_script_dirs == old(self).allowed_script_dirs,
            final(self).allowed_script_extensions == old(self).allowed_script_extensions,
    {
        self.blocked_patterns.push(pattern);
    }

    pub fn add_allowed_script_dir(&mut self, dir: String)
        ensures
            final(self).allowed_script_dirs@ == old(self).allowed_script_dirs@.push(dir),
            final(self).allowed_commands == old(self).allowed_commands,
            final(self).blocked_patterns == old(self).blocked_patterns,
            final(self).max_command_length == old(self).max_command_length,
            final(self).allowed_script_extensions == old(self).allowed_script_extensions,
    {
        self.allowed_script_dirs.push(dir);
    }

    pub fn add_allowed_script_extension(&mut self, ext: String)
        ensures
            final(self).allowed_script_extensions@ == old(self).allowed_script_extensions@.push(
                ext,
            ),
            final(self).allowed_commands == old(self).allowed_commands,
            final(self).blocked_patterns == old(self).blocked_patterns,
            final(self).max_command_length == old(self).max_command_length,
            final(self).allowed_script_dirs == old(self).allowed_script_dirs,
    {
        self.allowed_script_extensions.push(ext);
    }

    pub fn get_allowed_script_dirs(&self) -> (r: &Vec<String>)
        ensures
            *r == self.allowed_script_dirs,
    {
        &self.allowed_script_dirs
    }

    pub fn get_allowed_script_extensions(&self) -> (r: Vec<String>)
        ensures
            views_of(r@) == views_of(self.allowed_script_extensions@),
    {
        crate::model::clone_string_vec(&self.allowed_script_extensions)
    }

    fn is_app_management_command(&self, cmd: &Vec<char>) -> (r: bool)
        ensures
            r == is_app_management(cmd@),
    {
        let cd_apps = str_to_chars("cd /tmp/apps/");
        let bash = str_to_chars("bash");
        let dot_sh = str_to_chars(".sh");
        let apps = str_to_chars("/tmp/apps/");
        let kill = str_to_chars("kill");
        let ifw = str_to_chars("if");
        let pid = str_to_chars("pid");
        (contains_sub(cmd, &cd_apps) && contains_sub(cmd, &bash) && contains_sub(cmd, &dot_sh)) || (
        contains_sub(cmd, &apps) && (contains_sub(cmd, &kill) || contains_sub(cmd, &ifw)
            || contains_sub(cmd, &pid)))
    }

    fn validate_app_management_command(&self, cmd: &Vec<char>) -> (r: ValidationResult)
        ensures
            match r {
                ValidationResult::Allowed => validate_app_management(cmd@) is None,
                ValidationResult::Blocked { reason } => validate_app_management(cmd@) == Some(
                    reason@,
                ),
            },
    {
        let apps = str_to_chars("/tmp/apps/");
        if !contains_sub(cmd, &apps) {
            return ValidationResult::Blocked {
                reason: String::from_str("应用管理命令必须在 /tmp/apps/ 目录下执行"),
            };
        }
        let rm_rf = str_to_chars("rm -rf");
        let format_p = str_to_chars("format");
        let dd = str_to_chars("dd");
        let curl = str_to_chars("curl");
        let wget = str_to_chars("wget");
        let nc = str_to_chars("nc ");
        let netcat = str_to_chars("netcat");
        let telnet = str_to_chars("telnet");
        if contains_sub(cmd, &rm_rf) || contains_sub(cmd, &format_p) || contains_sub(cmd, &dd)
            || contains_sub(cmd, &curl) || contains_sub(cmd, &wget) || contains_sub(cmd, &nc)
            || contains_sub(cmd, &netcat) || contains_sub(cmd, &telnet) {
            return ValidationResult::Blocked {
                reason: String::from_str("应用管理命令包含危险操作"),
            };
        }
        let bash = str_to_chars("bash");
        let dot_sh = str_to_chars(".sh");
        let kill = str_to_chars("kill");
        let cat = str_to_chars("cat");
        let dot_pid = str_to_chars(".pid");
        let ps_p = str_to_chars("ps -p");
        if (contains_sub(cmd, &bash) && contains_sub(cmd, &dot_sh)) || (contains_sub(cmd, &kill)
            && contains_sub(cmd, &cat) && contains_sub(cmd, &dot_pid)) || contains_sub(
            cmd,
            &ps_p,
        ) {
            ValidationResult::Allowed
        } else {
            ValidationResult::Blocked {
                reason: String::from_str("不支持的应用管理命令格式"),
            }
        }
    }

    fn first_blocked_pattern<'a>(&'a self, cmd: &Vec<char>) -> (r: Option<&'a String>)
        ensures
            match r {
                Some(p) => first_blocked(views_of(self.blocked_patterns@), lower(cmd@)) == Some(
                    p@,
                ),
                None => first_blocked(views_of(self.blocked_patterns@), lower(cmd@)) is None,
            },
    {
        let low = to_lower_chars(cmd);
        let ghost pats = views_of(self.blocked_patterns@);
        let n = self.blocked_patterns.len();
        let mut i: usize = 0;
        proof {
            assert(pats.skip(0) =~= pats);
        }
        while i < n
            invariant
                i <= n,
                n == pats.len(),
                pats == views_of(self.blocked_patterns@),
                low@ == lower(cmd@),
                first_blocked(pats, low@) == first_blocked(pats.skip(i as int), low@),
            decreases n - i,
        {
            let pat_chars = str_to_chars(self.blocked_patterns[i].as_str());
            let pat_low = to_lower_chars(&pat_chars);
            proof {
                assert(pats.skip(i as int)[0] == pats[i as int]);
                assert(pats.skip(i as int).len() > 0);
            }
            if contains_sub(&low, &pat_low) {
                return Some(&self.blocked_patterns[i]);
            }
            proof {
                assert(pats.skip(i as int).drop_first() =~= pats.skip(i as int + 1));
            }
            i = i + 1;
        }
        proof {
            assert(pats.skip(n as int).len() == 0);
        }
        None
    }

    fn is_script_path(&self, tok: &Vec<char>) -> (r: bool)
        ensures
            r == self.spec_is_script_path(tok@),
    {
        let mut i: usize = 0;
        while i < tok.len()
            invariant
                i <= tok@.len(),
                forall|k: int| 0 <= k < i ==> tok@[k] != '/',
            decreases tok@.len() - i,
        {
            if tok[i] == '/' {
                proof {
                    assert(tok@.contains('/')) by {
                        assert(tok@[i as int] == '/');
                    }
                }
                return true;
            }
            i = i + 1;
        }
        proof {
            assert(!tok@.contains('/'));
        }
        self.has_script_extension(tok)
    }

    fn has_script_extension(&self, tok: &Vec<char>) -> (r: bool)
        ensures
            r == views_of(self.allowed_script_extensions@).contains(split_dot_last(tok@)),
    {
        let al = scan_after_last(tok, '.');
        proof {
            lemma_after_last(tok@, '.');
        }
        let cand = if al == 0 {
            copy_range(tok, 0, tok.len())
        } else {
            copy_range(tok, al, tok.len())
        };
        proof {
            assert(cand@ =~= split_dot_last(tok@));
        }
        list_contains_chars(&self.allowed_script_extensions, &cand)
    }

    fn in_allowed_dir(&self, p: &Vec<char>) -> (r: bool)
        ensures
            r == exists|k: int|
                0 <= k < self.allowed_script_dirs@.len() && starts_with(
                    p@,
                    views_of(self.allowed_script_dirs@)[k],
                ),
    {
        let ghost dirs = views_of(self.allowed_script_dirs@);
        let nd = self.allowed_script_dirs.len();
        let mut j: usize = 0;
        while j < nd
            invariant
                j <= nd,
                nd == dirs.len(),
                dirs == views_of(self.allowed_script_dirs@),
                forall|k: int| 0 <= k < j ==> !starts_with(p@, dirs[k]),
            decreases nd - j,
        {
            let d = str_to_chars(self.allowed_script_dirs[j].as_str());
            if begins_with(p, &d) {
                proof {
                    assert(starts_with(p@, dirs[j as int]));
                }
                return true;
            }
            j = j + 1;
        }
        false
    }

    fn validate_script_path(&self, p: &Vec<char>) -> (r: ValidationResult)
        ensures
            match r {
                ValidationResult::Allowed => self.spec_validate_script_path(p@) is None,
                ValidationResult::Blocked { reason } => self.spec_validate_script_path(p@) == Some(
                    reason@,
                ),
            },
    {
        if !(p.len() > 0 && p[0] == '/') {
            return ValidationResult::Blocked {
                reason: String::from_str("只允许执行绝对路径的脚本"),
            };
        }
        let up = str_to_chars("../");
        let here = str_to_chars("./");
        if contains_sub(p, &up) || contains_sub(p, &here) {
            return ValidationResult::Blocked {
                reason: String::from_str("脚本路径包含危险的路径遍历字符"),
            };
        }
        if !self.in_allowed_dir(p) {
            proof {
                reveal_strlit("[");
                reveal_strlit("]");
            }
            let mut reason = String::from_str("脚本不在允许的目录中。允许的目录: ");
            reason.append("[");
            push_quoted_items_from(&mut reason, &self.allowed_script_dirs, 0);
            reason.append("]");
            proof {
                assert(views_of(self.allowed_script_dirs@).skip(0) =~= views_of(
                    self.allowed_script_dirs@,
                ));
                assert(reason@ =~= "脚本不在允许的目录中。允许的目录: "@ + quoted_list(
                    views_of(self.allowed_script_dirs@),
                ));
            }
            return ValidationResult::Blocked { reason };
        }
        let ls = scan_after_last(p, '/');
        proof {
            lemma_after_last(p@, '/');
        }
        let fname = copy_range(p, ls, p.len());
        let ld = scan_after_last(&fname, '.');
        proof {
            lemma_after_last(fname@, '.');
        }
        if ld <= 1 {
            return ValidationResult::Blocked {
                reason: String::from_str("脚本文件必须有扩展名"),
            };
        }
        let ext = copy_range(&fname, ld, fname.len());
        proof {
            assert(path_extension(p@) == Some(ext@));
        }
        if !list_contains_chars(&self.allowed_script_extensions, &ext) {
            let es = chars_to_string(&ext);
            let reason = concat2("不允许的脚本类型: .", es.as_str());
            return ValidationResult::Blocked { reason };
        }
        ValidationResult::Allowed
    }

    /// Applies the policy to one command string.
    pub fn validate(&self, command: &str) -> (r: ValidationResult)
        ensures
            match r {
                ValidationResult::Allowed => self.spec_validate(command@) is None,
                ValidationResult::Blocked { reason } => self.spec_validate(command@) == Some(
                    reason@,
                ),
            },
    {
        let cmd = str_to_chars(command);
        if cmd.len() > self.max_command_length {
            let mut reason = String::from_str("命令长度超过限制: ");
            let a = u64_to_string(cmd.len() as u64);
            reason.append(a.as_str());
            reason.append(" > ");
            let b = u64_to_string(self.max_command_length as u64);
            reason.append(b.as_str());
            proof {
                assert(reason@ =~= "命令长度超过限制: "@ + dec_u64(command@.len() as int)
                    + " > "@ + dec_u64(self.max_command_length as int));
            }
            return ValidationResult::Blocked { reason };
        }
        let start = scan_non_space(&cmd, 0);
        if start == cmd.len() {
            return ValidationResult::Blocked { reason: String::from_str("空命令") };
        }
        if self.is_app_management_command(&cmd) {
            return self.validate_app_management_command(&cmd);
        }
        match self.first_blocked_pattern(&cmd) {
            Some(pat) => {
                let reason = concat2("包含危险模式: ", pat.as_str());
                return ValidationResult::Blocked { reason };
            },
            None => {},
        }
        proof {
            lemma_first_non_space(cmd@, 0);
        }
        let end = scan_token_end(&cmd, start);
        proof {
            lemma_token_end(cmd@, start as int);
        }
        let tok = copy_range(&cmd, start, end);
        proof {
            assert(tok@ == first_token(cmd@));
        }
        if self.is_script_path(&tok) {
            match self.validate_script_path(&tok) {
                ValidationResult::Allowed => {},
                ValidationResult::Blocked { reason } => {
                    return ValidationResult::Blocked { reason };
                },
            }
        } else {
            if !list_contains_chars(&self.allowed_commands, &tok) {
                let ts = chars_to_string(&tok);
                let reason = concat2("命令不在允许列表中: ", ts.as_str());
                return ValidationResult::Blocked { reason };
            }
        }
        ValidationResult::Allowed
    }

    /// Replaces each shell separator and substitution character by a space
    /// and trims the result. Sanitizing does not imply acceptance.
    pub fn sanitize_command(&self, command: &str) -> (r: String)
        ensures
            r@ == Self::spec_sanitize(command@),
    {
        proof {
            reveal_strlit(";");
            reveal_strlit("&&");
            reveal_strlit("||");
            reveal_strlit("|");
            reveal_strlit("`");
            reveal_strlit("$");
            reveal_strlit("&");
        }
        let cmd = str_to_chars(command);
        let space = str_to_chars(" ");
        let p1 = str_to_chars(";");
        let p2 = str_to_chars("&&");
        let p3 = str_to_chars("||");
        let p4 = str_to_chars("|");
        let p5 = str_to_chars("`");
        let p6 = str_to_chars("$");
        let p7 = str_to_chars("&");
        let s1 = replace_chars(&cmd, &p1, &space);
        let s2 = replace_chars(&s1, &p2, &space);
        let s3 = replace_chars(&s2, &p3, &space);
        let s4 = replace_chars(&s3, &p4, &space);
        let s5 = replace_chars(&s4, &p5, &space);
        let s6 = replace_chars(&s5, &p6, &space);
        let s7 = replace_chars(&s6, &p7, &space);
        let t = trim_sp_chars(&s7);
        chars_to_string(&t)
    }
}

impl Default for CommandValidator {
    /// The same policy as `new`.
    fn default() -> (r: CommandValidator)
        ensures
            views_of(r.allowed_commands@) == default_allowed_commands(),
            views_of(r.blocked_patterns@) == default_blocked_patterns(),
            r.max_command_length == 1000,
            views_of(r.allowed_script_dirs@) == default_script_dirs(),
            views_of(r.allowed_script_extensions@) == default_script_extensions(),
    {
        CommandValidator::new()
    }
}

/// A bearer token for the HTTP surface, valid until it expires.
#[derive(Debug)]
pub struct AuthToken {
    pub token: String,
    pub expires_at: Timestamp,
}

impl AuthToken {
    pub fn new(token: String, duration_secs: u64, now: Timestamp) -> (r: AuthToken)
        requires
            now.wf(),
            now.secs + duration_secs <= u64::MAX,
        ensures
            r.token == token,
            r.expires_at == (Timestamp { secs: (now.secs + duration_secs) as u64, nanos: now.nanos }),
            r.expires_at.wf(),
    {
        AuthToken { token, expires_at: Timestamp { secs: now.secs + duration_secs, nanos: now.nanos } }
    }

    /// Valid exactly while `now` lies before the expiry instant.
    pub fn is_valid(&self, now: Timestamp) -> (r: bool)
        requires
            now.wf(),
            self.expires_at.wf(),
        ensures
            r == ts_lt(now, self.expires_at),
    {
        now.before(&self.expires_at)
    }

    /// Matches exactly when still valid and the text agrees.
    pub fn matches(&self, token: &str, now: Timestamp) -> (r: bool)
        requires
            now.wf(),
            self.expires_at.wf(),
        ensures
            r == (ts_lt(now, self.expires_at) && self.token@ == token@),
    {
        self.is_valid(now) && crate::strutil::str_eq(self.token.as_str(), token)
    }
}

/// Accepts exactly a header of the form `Bearer <expected_token>`.
pub fn validate_auth_header(header_value: &str, expected_token: &str) -> (r: bool)
    ensures
        r == (starts_with(header_value@, "Bearer "@) && header_value@.skip(7)
            == expected_token@),
{
    proof {
        reveal_strlit("Bearer ");
    }
    let h = str_to_chars(header_value);
    let pre = str_to_chars("Bearer ");
    if !begins_with(&h, &pre) {
        return false;
    }
    let tok = copy_range(&h, 7, h.len());
    proof {
        assert(tok@ =~= header_value@.skip(7));
    }
    crate::strutil::str_eq_chars(expected_token, &tok)
}

/// Default allowed commands of the default policy.
pub open spec fn default_allowed_commands() -> Seq<Seq<char>> {
    seq![
        "ps"@,
        "ls"@,
        "pwd"@,
        "whoami"@,
        "id"@,
        "groups"@,
        "date"@,
        "uptime"@,
        "hostname"@,
        "uname"@,
        "df"@,
        "free"@,
        "top"@,
        "htop"@,
        "iostat"@,
        "vmstat"@,
        "sar"@,
        "mpstat"@,
        "netstat"@,
        "ss"@,
        "ip"@,
        "ifconfig"@,
        "ping"@,
        "cat"@,
        "head"@,
        "tail"@,
        "less"@,
        "more"@,
        "grep"@,
        "find"@,
        "wc"@,
        "sort"@,
        "uniq"@,
        "systemctl"@,
        "journalctl"@,
        "service"@,
        "env"@,
        "history"@,
        "which"@,
        "whereis"@,
        "bash"@,
        "sh"@,
        "kill"@,
        "cd"@,
    ]
}

/// Default blocked patterns of the default policy.
pub open spec fn default_blocked_patterns() -> Seq<Seq<char>> {
    seq![
        "shutdown"@,
        "reboot"@,
        "halt"@,
        "poweroff"@,
        "init 0"@,
        "init 6"@,
        "systemctl poweroff"@,
        "systemctl reboot"@,
        "systemctl halt"@,
        "rm -rf"@,
        "rm -r"@,
        "rm /"@,
        "rmdir"@,
        "> /dev/"@,
        "dd if="@,
        "dd of="@,
        "mkfs"@,
        "fdisk"@,
        "parted"@,
        "format"@,
        "sudo su"@,
        "su -"@,
        "su root"@,
        "sudo -i"@,
        "sudo bash"@,
        "sudo sh"@,
        "passwd"@,
        "usermod"@,
        "useradd"@,
        "userdel"@,
        "chmod 777"@,
        "chmod 4755"@,
        "chown root"@,
        "curl"@,
        "wget"@,
        "nc -"@,
        "netcat"@,
        "telnet"@,
        "ftp"@,
        "sftp"@,
        "scp"@,
        "rsync"@,
        "bash -i"@,
        "sh -i"@,
        "exec"@,
        "eval"@,
        "source"@,
        "python -c"@,
        "perl -e"@,
        "ruby -e"@,
        "kill -9"@,
        "killall"@,
        "pkill"@,
        "systemctl start"@,
        "systemctl stop"@,
        "systemctl restart"@,
        "systemctl enable"@,
        "systemctl disable"@,
        "service start"@,
        "service stop"@,
        "service restart"@,
        "apt install"@,
        "apt remove"@,
        "apt purge"@,
        "yum install"@,
        "yum remove"@,
        "dnf install"@,
        "dnf remove"@,
        "rpm -i"@,
        "rpm -e"@,
        "dpkg -i"@,
        "dpkg -r"@,
        "pip install"@,
        "npm install"@,
        "crontab"@,
        "at "@,
        "batch"@,
        "mount"@,
        "umount"@,
        "fsck"@,
        "e2fsck"@,
        "`"@,
        "$("@,
    ]
}

/// Default script dirs of the default policy.
pub open spec fn default_script_dirs() -> Seq<Seq<char>> {
    seq![
        "/opt/ops-scripts"@,
        "/usr/local/bin/scripts"@,
        "/home/ops/scripts"@,
        "/tmp/ops-scripts"@,
        "/tmp/apps"@,
    ]
}

/// Default script extensions of the default policy.
pub open spec fn default_script_extensions() -> Seq<Seq<char>> {
    seq![
        "sh"@,
        "py"@,
        "pl"@,
        "rb"@,
    ]
}

impl CommandValidator {
    /// The default policy: read-only tooling allowed, destructive and
    /// network-egress patterns blocked, scripts confined to a directory
    /// allow-list, commands capped at 1000 characters.
    pub fn new() -> (r: CommandValidator)
        ensures
            views_of(r.allowed_commands@) == default_allowed_commands(),
            views_of(r.blocked_patterns@) == default_blocked_patterns(),
            r.max_command_length == 1000,
            views_of(r.allowed_script_dirs@) == default_script_dirs(),
            views_of(r.allowed_script_extensions@) == default_script_extensions(),
    {
    let mut allowed_commands: Vec<String> = Vec::new();
    allowed_commands.push(String::from_str("ps"));
    allowed_commands.push(String::from_str("ls"));
    allowed_commands.push(String::from_str("pwd"));
    allowed_commands.push(String::from_str("whoami"));
    allowed_commands.push(String::from_str("id"));
    allowed_commands.push(String::from_str("groups"));
    allowed_commands.push(String::from_str("date"));
    allowed_commands.push(String::from_str("uptime"));
    allowed_commands.push(String::from_str("hostname"));
    allowed_commands.push(String::from_str("uname"));
    allowed_commands.push(String::from_str("df"));
    allowed_commands.push(String::from_str("free"));
    allowed_commands.push(String::from_str("top"));
    allowed_commands.push(String::from_str("htop"));
    allowed_commands.push(String::from_str("iostat"));
    allowed_commands.push(String::from_str("vmstat"));
    allowed_commands.push(String::from_str("sar"));
    allowed_commands.push(String::from_str("mpstat"));
    allowed_commands.push(String::from_str("netstat"));
    allowed_commands.push(String::from_str("ss"));
    allowed_commands.push(String::from_str("ip"));
    allowed_commands.push(String::from_str("ifconfig"));
    allowed_commands.push(String::from_str("ping"));
    allowed_commands.push(String::from_str("cat"));
    allowed_commands.push(String::from_str("head"));
    allowed_commands.push(String::from_str("tail"));
    allowed_commands.push(String::from_str("less"));
    allowed_commands.push(String::from_str("more"));
    allowed_commands.push(String::from_str("grep"));
    allowed_commands.push(String::from_str("find"));
    allowed_commands.push(String::from_str("wc"));
    allowed_commands.push(String::from_str("sort"));
    allowed_commands.push(String::from_str("uniq"));
    allowed_commands.push(String::from_str("systemctl"));
    allowed_commands.push(String::from_str("journalctl"));
    allowed_commands.push(String::from_str("service"));
    allowed_commands.push(String::from_str("env"));
    allowed_commands.push(String::from_str("history"));
    allowed_commands.push(String::from_str("which"));
    allowed_commands.push(String::from_str("whereis"));
    allowed_commands.push(String::from_str("bash"));
    allowed_commands.push(String::from_str("sh"));
    allowed_commands.push(String::from_str("kill"));
    allowed_commands.push(String::from_str("cd"));
    let mut blocked_patterns: Vec<String> = Vec::new();
    blocked_patterns.push(String::from_str("shutdown"));
    blocked_patterns.push(String::from_str("reboot"));
    blocked_patterns.push(String::from_str("halt"));
    blocked_patterns.push(String::from_str("poweroff"));
    blocked_patterns.push(String::from_str("init 0"));
    blocked_patterns.push(String::from_str("init 6"));
    blocked_patterns.push(String::from_str("systemctl poweroff"));
    blocked_patterns.push(String::from_str("systemctl reboot"));
    blocked_patterns.push(String::from_str("systemctl halt"));
    blocked_patterns.push(String::from_str("rm -rf"));
    blocked_patterns.push(String::from_str("rm -r"));
    blocked_patterns.push(String::from_str("rm /"));
    blocked_patterns.push(String::from_str("rmdir"));
    blocked_patterns.push(String::from_str("> /dev/"));
    blocked_patterns.push(String::from_str("dd if="));
    blocked_patterns.push(String::from_str("dd of="));
    blocked_patterns.push(String::from_str("mkfs"));
    blocked_patterns.push(String::from_str("fdisk"));
    blocked_patterns.push(String::from_str("parted"));
    blocked_patterns.push(String::from_str("format"));
    blocked_patterns.push(String::from_str("sudo su"));
    blocked_patterns.push(String::from_str("su -"));
    blocked_patterns.push(String::from_str("su root"));
    blocked_patterns.push(String::from_str("sudo -i"));
    blocked_patterns.push(String::from_str("sudo bash"));
    blocked_patterns.push(String::from_str("sudo sh"));
    blocked_patterns.push(String::from_str("passwd"));
    blocked_patterns.push(String::from_str("usermod"));
    blocked_patterns.push(String::from_str("useradd"));
    blocked_patterns.push(String::from_str("userdel"));
    blocked_patterns.push(String::from_str("chmod 777"));
    blocked_patterns.push(String::from_str("chmod 4755"));
    blocked_patterns.push(String::from_str("chown root"));
    blocked_patterns.push(String::from_str("curl"));
    blocked_patterns.push(String::from_str("wget"));
    blocked_patterns.push(String::from_str("nc -"));
    blocked_patterns.push(String::from_str("netcat"));
    blocked_patterns.push(String::from_str("telnet"));
    blocked_patterns.push(String::from_str("ftp"));
    blocked_patterns.push(String::from_str("sftp"));
    blocked_patterns.push(String::from_str("scp"));
    blocked_patterns.push(String::from_str("rsync"));
    blocked_patterns.push(String::from_str("bash -i"));
    blocked_patterns.push(String::from_str("sh -i"));
    blocked_patterns.push(String::from_str("exec"));
    blocked_patterns.push(String::from_str("eval"));
    blocked_patterns.push(String::from_str("source"));
    blocked_patterns.push(String::from_str("python -c"));
    blocked_patterns.push(String::from_str("perl -e"));
    blocked_patterns.push(String::from_str("ruby -e"));
    blocked_patterns.push(String::from_str("kill -9"));
    blocked_patterns.push(String::from_str("killall"));
    blocked_patterns.push(String::from_str("pkill"));
    blocked_patterns.push(String::from_str("systemctl start"));
    blocked_patterns.push(String::from_str("systemctl stop"));
    blocked_patterns.push(String::from_str("systemctl restart"));
    blocked_patterns.push(String::from_str("systemctl enable"));
    blocked_patterns.push(String::from_str("systemctl disable"));
    blocked_patterns.push(String::from_str("service start"));
    blocked_patterns.push(String::from_str("service stop"));
    blocked_patterns.push(String::from_str("service restart"));
    blocked_patterns.push(String::from_str("apt install"));
    blocked_patterns.push(String::from_str("apt remove"));
    blocked_patterns.push(String::from_str("apt purge"));
    blocked_patterns.push(String::from_str("yum install"));
    blocked_patterns.push(String::from_str("yum remove"));
    blocked_patterns.push(String::from_str("dnf install"));
    blocked_patterns.push(String::from_str("dnf remove"));
    blocked_patterns.push(String::from_str("rpm -i"));
    blocked_patterns.push(String::from_str("rpm -e"));
    blocked_patterns.push(String::from_str("dpkg -i"));
    blocked_patterns.push(String::from_str("dpkg -r"));
    blocked_patterns.push(String::from_str("pip install"));
    blocked_patterns.push(String::from_str("npm install"));
    blocked_patterns.push(String::from_str("crontab"));
    blocked_patterns.push(String::from_str("at "));
    blocked_patterns.push(String::from_str("batch"));
    blocked_patterns.push(String::from_str("mount"));
    blocked_patterns.push(String::from_str("umount"));
    blocked_patterns.push(String::from_str("fsck"));
    blocked_patterns.push(String::from_str("e2fsck"));
    blocked_patterns.push(String::from_str("`"));
    blocked_patterns.push(String::from_str("$("));
    let mut allowed_script_dirs: Vec<String> = Vec::new();
    allowed_script_dirs.push(String::from_str("/opt/ops-scripts"));
    allowed_script_dirs.push(String::from_str("/usr/local/bin/scripts"));
    allowed_script_dirs.push(String::from_str("/home/ops/scripts"));
    allowed_script_dirs.push(String::from_str("/tmp/ops-scripts"));
    allowed_script_dirs.push(String::from_str("/tmp/apps"));
    let mut allowed_script_extensions: Vec<String> = Vec::new();
    allowed_script_extensions.push(String::from_str("sh"));
    allowed_script_extensions.push(String::from_str("py"));
    allowed_script_extensions.push(String::from_str("pl"));
    allowed_script_extensions.push(String::from_str("rb"));
        proof {
            assert(views_of(allowed_commands@) =~= default_allowed_commands());
            assert(views_of(blocked_patterns@) =~= default_blocked_patterns());
            assert(views_of(allowed_script_dirs@) =~= default_script_dirs());
            assert(views_of(allowed_script_extensions@) =~= default_script_extensions());
        }
        CommandValidator {
            allowed_commands,
            blocked_patterns,
            max_command_length: 1000,
            allowed_script_dirs,
            allowed_script_extensions,
        }
    }
}

/// The curated list the operator UI offers.
pub open spec fn predefined_commands_spec() -> Seq<PredefinedCommandV> {
    seq![
        PredefinedCommandV { command: "ps aux"@, name: "查看所有进程"@, category: "系统信息"@, description: "显示所有运行中的进程详细信息"@ },
        PredefinedCommandV { command: "whoami"@, name: "查看当前用户"@, category: "系统信息"@, description: "显示当前登录的用户名"@ },
        PredefinedCommandV { command: "id"@, name: "查看用户ID信息"@, category: "系统信息"@, description: "显示当前用户的UID、GID等信息"@ },
        PredefinedCommandV { command: "hostname"@, name: "查看主机名"@, category: "系统信息"@, description: "显示系统主机名"@ },
        PredefinedCommandV { command: "uname -a"@, name: "查看系统信息"@, category: "系统信息"@, description: "显示系统内核和版本信息"@ },
        PredefinedCommandV { command: "date"@, name: "查看系统时间"@, category: "系统信息"@, description: "显示当前系统日期和时间"@ },
        PredefinedCommandV { command: "uptime"@, name: "查看系统运行时间"@, category: "系统信息"@, description: "显示系统运行时间和负载"@ },
        PredefinedCommandV { command: "free -h"@, name: "查看内存使用"@, category: "资源监控"@, description: "以人类可读格式显示内存使用情况"@ },
        PredefinedCommandV { command: "df -h"@, name: "查看磁盘空间"@, category: "资源监控"@, description: "以人类可读格式显示磁盘使用情况"@ },
        PredefinedCommandV { command: "top -n 1"@, name: "查看进程资源使用"@, category: "资源监控"@, description: "显示当前进程CPU和内存使用情况"@ },
        PredefinedCommandV { command: "iostat"@, name: "查看IO统计"@, category: "资源监控"@, description: "显示磁盘IO统计信息"@ },
        PredefinedCommandV { command: "vmstat"@, name: "查看虚拟内存统计"@, category: "资源监控"@, description: "显示虚拟内存统计信息"@ },
        PredefinedCommandV { command: "netstat -tlnp"@, name: "查看监听端口"@, category: "网络信息"@, description: "显示所有TCP监听端口"@ },
        PredefinedCommandV { command: "ss -tlnp"@, name: "查看socket连接"@, category: "网络信息"@, description: "显示socket连接信息"@ },
        PredefinedCommandV { command: "ip addr show"@, name: "查看网络接口"@, category: "网络信息"@, description: "显示网络接口配置"@ },
        PredefinedCommandV { command: "ping -c 4 8.8.8.8"@, name: "测试网络连通性"@, category: "网络信息"@, description: "测试到外网的网络连通性"@ },
        PredefinedCommandV { command: "ls -la"@, name: "查看目录内容"@, category: "文件系统"@, description: "详细显示当前目录下的文件和文件夹"@ },
        PredefinedCommandV { command: "pwd"@, name: "查看当前路径"@, category: "文件系统"@, description: "显示当前工作目录的完整路径"@ },
        PredefinedCommandV { command: "find /var/log -name '*.log' -type f"@, name: "查找日志文件"@, category: "文件系统"@, description: "查找/var/log目录下的所有日志文件"@ },
        PredefinedCommandV { command: "systemctl status"@, name: "查看服务状态"@, category: "服务管理"@, description: "显示系统服务的总体状态"@ },
        PredefinedCommandV { command: "journalctl -n 20"@, name: "查看系统日志"@, category: "服务管理"@, description: "显示最近20条系统日志"@ },
        PredefinedCommandV { command: "env"@, name: "查看环境变量"@, category: "环境信息"@, description: "显示所有环境变量"@ },
        PredefinedCommandV { command: "which bash"@, name: "查找命令位置"@, category: "环境信息"@, description: "显示bash命令的完整路径"@ },
        PredefinedCommandV { command: "/tmp/ops-scripts/health.sh"@, name: "系统健康检查"@, category: "脚本执行"@, description: "执行系统健康检查脚本"@ },
        PredefinedCommandV { command: "/tmp/ops-scripts/disk-usage.py"@, name: "磁盘使用分析"@, category: "脚本执行"@, description: "分析磁盘使用情况"@ },
    ]
}

impl CommandValidator {
    /// The predefined read-only commands offered to operators.
    pub fn get_predefined_commands() -> (r: Vec<PredefinedCommand>)
        ensures
            r@.map_values(|p: PredefinedCommand| p@) == predefined_commands_spec(),
    {
        let mut r: Vec<PredefinedCommand> = Vec::new();
        r.push(PredefinedCommand::new("ps aux", "查看所有进程", "系统信息", "显示所有运行中的进程详细信息"));
        r.push(PredefinedCommand::new("whoami", "查看当前用户", "系统信息", "显示当前登录的用户名"));
        r.push(PredefinedCommand::new("id", "查看用户ID信息", "系统信息", "显示当前用户的UID、GID等信息"));
        r.push(PredefinedCommand::new("hostname", "查看主机名", "系统信息", "显示系统主机名"));
        r.push(PredefinedCommand::new("uname -a", "查看系统信息", "系统信息", "显示系统内核和版本信息"));
        r.push(PredefinedCommand::new("date", "查看系统时间", "系统信息", "显示当前系统日期和时间"));
        r.push(PredefinedCommand::new("uptime", "查看系统运行时间", "系统信息", "显示系统运行时间和负载"));
        r.push(PredefinedCommand::new("free -h", "查看内存使用", "资源监控", "以人类可读格式显示内存使用情况"));
        r.push(PredefinedCommand::new("df -h", "查看磁盘空间", "资源监控", "以人类可读格式显示磁盘使用情况"));
        r.push(PredefinedCommand::new("top -n 1", "查看进程资源使用", "资源监控", "显示当前进程CPU和内存使用情况"));
        r.push(PredefinedCommand::new("iostat", "查看IO统计", "资源监控", "显示磁盘IO统计信息"));
        r.push(PredefinedCommand::new("vmstat", "查看虚拟内存统计", "资源监控", "显示虚拟内存统计信息"));
        r.push(PredefinedCommand::new("netstat -tlnp", "查看监听端口", "网络信息", "显示所有TCP监听端口"));
        r.push(PredefinedCommand::new("ss -tlnp", "查看socket连接", "网络信息", "显示socket连接信息"));
        r.push(PredefinedCommand::new("ip addr show", "查看网络接口", "网络信息", "显示网络接口配置"));
        r.push(PredefinedCommand::new("ping -c 4 8.8.8.8", "测试网络连通性", "网络信息", "测试到外网的网络连通性"));
        r.push(PredefinedCommand::new("ls -la", "查看目录内容", "文件系统", "详细显示当前目录下的文件和文件夹"));
        r.push(PredefinedCommand::new("pwd", "查看当前路径", "文件系统", "显示当前工作目录的完整路径"));
        r.push(PredefinedCommand::new("find /var/log -name '*.log' -type f", "查找日志文件", "文件系统", "查找/var/log目录下的所有日志文件"));
        r.push(PredefinedCommand::new("systemctl status", "查看服务状态", "服务管理", "显示系统服务的总体状态"));
        r.push(PredefinedCommand::new("journalctl -n 20", "查看系统日志", "服务管理", "显示最近20条系统日志"));
        r.push(PredefinedCommand::new("env", "查看环境变量", "环境信息", "显示所有环境变量"));
        r.push(PredefinedCommand::new("which bash", "查找命令位置", "环境信息", "显示bash命令的完整路径"));
        r.push(PredefinedCommand::new("/tmp/ops-scripts/health.sh", "系统健康检查", "脚本执行", "执行系统健康检查脚本"));
        r.push(PredefinedCommand::new("/tmp/ops-scripts/disk-usage.py", "磁盘使用分析", "脚本执行", "分析磁盘使用情况"));
        proof {
            assert(r@.map_values(|p: PredefinedCommand| p@) =~= predefined_commands_spec());
        }
        r
    }
}

} // verus!
