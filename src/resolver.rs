//! Turning templated save locations into concrete paths.
use vstd::prelude::*;

use crate::text::{
    chars_of, contains, contains_chars, decimal, decimal_chars, extend_chars, matches_at, occurs_at,
    string_of,
};

verus! {

/// The operating system the resolution is made for.
#[derive(Clone, Copy, Debug, PartialEq, Eq, Structural)]
pub enum HostOs {
    Linux,
    Windows,
    MacOs,
}

/// The host directories that tokens stand for, and where the title library lives.
#[derive(Clone, Debug)]
pub struct HostEnv {
    pub os: HostOs,
    /// Per-user local application data.
    pub data_local_dir: String,
    /// Per-user roaming configuration.
    pub config_dir: String,
    pub home_dir: String,
    /// The documents directory, where the host has one.
    pub document_dir: Option<String>,
    /// Root of the title library, where one was found.
    pub steam_root: Option<String>,
}

/// The value views of a vector of character vectors.
pub open spec fn views(v: Seq<Vec<char>>) -> Seq<Seq<char>> {
    v.map_values(|x: Vec<char>| x@)
}

pub open spec fn is_separator(c: char) -> bool {
    c == '/' || c == '\\'
}

/// `base` joined with the relative path `part` by a forward slash.
pub open spec fn join_path(base: Seq<char>, part: Seq<char>) -> Seq<char> {
    if base.len() == 0 {
        part
    } else if is_separator(base.last()) {
        base + part
    } else {
        base + seq!['/'] + part
    }
}

/// Tokens that host-native resolution recognizes, in the order they are tried.
pub open spec fn native_tokens(has_documents: bool) -> Seq<Seq<char>> {
    let base = seq![
        "%LOCALAPPDATA%"@,
        "%APPDATA%"@,
        "%USERPROFILE%"@,
        "<home>"@,
        "<winAppData>"@,
        "<winLocalAppData>"@,
    ];
    if has_documents {
        base + seq!["%DOCUMENTS%"@, "<winDocuments>"@]
    } else {
        base
    }
}

/// What each of `native_tokens` stands for on the host.
pub open spec fn native_values(env: HostEnv) -> Seq<Seq<char>> {
    let base = seq![
        env.data_local_dir@,
        env.config_dir@,
        env.home_dir@,
        env.home_dir@,
        env.config_dir@,
        env.data_local_dir@,
    ];
    match env.document_dir {
        Some(d) => base + seq![d@, d@],
        None => base,
    }
}

/// Tokens that resolution inside a compatibility prefix recognizes.
pub open spec fn compat_tokens() -> Seq<Seq<char>> {
    seq![
        "%USERPROFILE%"@,
        "<home>"@,
        "%APPDATA%"@,
        "%LOCALAPPDATA%"@,
        "<winAppData>"@,
        "<winLocalAppData>"@,
    ]
}

/// What each of `compat_tokens` stands for under the virtual profile `p`.
pub open spec fn compat_values(p: Seq<char>) -> Seq<Seq<char>> {
    let roaming = join_path(join_path(p, "AppData"@), "Roaming"@);
    let local = join_path(join_path(p, "AppData"@), "Local"@);
    seq![p, p, roaming, local, roaming, local]
}

/// The virtual Windows user profile of a title inside the library's compatibility data.
pub open spec fn compat_prefix(steam_root: Seq<char>, game_id: u32) -> Seq<char> {
    join_path(
        steam_root,
        "steamapps/compatdata/"@ + decimal(game_id as nat) + "/pfx/drive_c/users/steamuser"@,
    )
}

/// Index of the first token, from `k` on, that stands in `s` at `i`; -1 where none does.
pub open spec fn first_match_from(s: Seq<char>, i: int, toks: Seq<Seq<char>>, k: int) -> int
    decreases toks.len() - k,
{
    if k < 0 || k >= toks.len() {
        -1
    } else if occurs_at(s, i, toks[k]) {
        k
    } else {
        first_match_from(s, i, toks, k + 1)
    }
}

/// `s` from position `i` on, each token replaced by its value in one left-to-right pass.
pub open spec fn substitute_from(
    s: Seq<char>,
    i: int,
    toks: Seq<Seq<char>>,
    vals: Seq<Seq<char>>,
) -> Seq<char>
    decreases s.len() - i,
{
    if i < 0 || i >= s.len() {
        seq![]
    } else {
        let k = first_match_from(s, i, toks, 0);
        if 0 <= k < toks.len() && k < vals.len() && toks[k].len() > 0 && i + toks[k].len()
            <= s.len() {
            vals[k] + substitute_from(s, i + toks[k].len(), toks, vals)
        } else {
            seq![s[i]] + substitute_from(s, i + 1, toks, vals)
        }
    }
}

pub open spec fn substitute(s: Seq<char>, toks: Seq<Seq<char>>, vals: Seq<Seq<char>>) -> Seq<
    char,
> {
    substitute_from(s, 0, toks, vals)
}

/// Characters at which a template's supported part ends.
pub open spec fn is_stop(c: char) -> bool {
    c == '<' || c == '*' || c == '?'
}

/// Position of the first stop character at or after `i`, or the length.
pub open spec fn stop_index_from(s: Seq<char>, i: int) -> int
    decreases s.len() - i,
{
    if i < 0 || i >= s.len() {
        s.len() as int
    } else if is_stop(s[i]) {
        i
    } else {
        stop_index_from(s, i + 1)
    }
}

/// `s` cut before its first stop character.
pub open spec fn truncate_at_stop(s: Seq<char>) -> Seq<char> {
    s.take(stop_index_from(s, 0))
}

pub open spec fn forward_char(c: char) -> char {
    if c == '\\' {
        '/'
    } else {
        c
    }
}

pub open spec fn backward_char(c: char) -> char {
    if c == '/' {
        '\\'
    } else {
        c
    }
}

/// Every backslash turned into a forward slash.
pub open spec fn forward_slashes(s: Seq<char>) -> Seq<char> {
    s.map_values(|c: char| forward_char(c))
}

/// Separators in the host's convention.
pub open spec fn native_separators(s: Seq<char>, os: HostOs) -> Seq<char> {
    if os == HostOs::Windows {
        s.map_values(|c: char| backward_char(c))
    } else {
        forward_slashes(s)
    }
}

/// `s` without its trailing separators.
pub open spec fn trim_trailing_separators(s: Seq<char>) -> Seq<char>
    decreases s.len(),
{
    if s.len() > 0 && is_separator(s.last()) {
        trim_trailing_separators(s.drop_last())
    } else {
        s
    }
}

/// `s` without a leading `C:` or `c:`.
pub open spec fn strip_drive(s: Seq<char>) -> Seq<char> {
    if s.len() >= 2 && (s[0] == 'C' || s[0] == 'c') && s[1] == ':' {
        s.skip(2)
    } else {
        s
    }
}

/// The template names a Windows profile location.
pub open spec fn mentions_windows_profile(t: Seq<char>) -> bool {
    contains(t, "AppData"@) || contains(t, "Saved Games"@)
}

/// Resolution goes through the title's compatibility prefix.
pub open spec fn compat_applies(t: Seq<char>, env: HostEnv, prefix_present: bool) -> bool {
    &&& env.os == HostOs::Linux
    &&& mentions_windows_profile(t)
    &&& env.steam_root is Some
    &&& prefix_present
}

/// Resolution inside the compatibility prefix `p`.
pub open spec fn resolved_in_prefix(t: Seq<char>, p: Seq<char>) -> Seq<char> {
    strip_drive(forward_slashes(substitute(t, compat_tokens(), compat_values(p))))
}

/// Resolution against the host's own directories.
pub open spec fn resolved_natively(t: Seq<char>, env: HostEnv) -> Seq<char> {
    trim_trailing_separators(
        native_separators(
            truncate_at_stop(
                substitute(t, native_tokens(env.document_dir is Some), native_values(env)),
            ),
            env.os,
        ),
    )
}

/// The concrete path that template `t` denotes for title `game_id` on the host `env`;
/// `prefix_present` tells whether the title's compatibility prefix exists on disk.
pub open spec fn resolved(t: Seq<char>, game_id: u32, env: HostEnv, prefix_present: bool) -> Seq<
    char,
> {
    if compat_applies(t, env, prefix_present) {
        resolved_in_prefix(t, compat_prefix(env.steam_root->0@, game_id))
    } else {
        resolved_natively(t, env)
    }
}

/// `base` joined with `part`.
pub fn join_chars(base: &Vec<char>, part: &Vec<char>) -> (r: Vec<char>)
    ensures
        r@ == join_path(base@, part@),
{
    let mut out: Vec<char> = Vec::new();
    extend_chars(&mut out, base);
    if base.len() > 0 && base[base.len() - 1] != '/' && base[base.len() - 1] != '\\' {
        out.push('/');
    }
    extend_chars(&mut out, part);
    assert(out@ =~= join_path(base@, part@));
    out
}

/// Index of the first token that stands in `s` at `i`.
fn first_match(s: &Vec<char>, i: usize, toks: &Vec<Vec<char>>) -> (r: Option<usize>)
    ensures
        match r {
            Some(k) => k as int == first_match_from(s@, i as int, views(toks@), 0) && k
                < toks.len(),
            None => first_match_from(s@, i as int, views(toks@), 0) == -1,
        },
{
    let mut k: usize = 0;
    while k < toks.len()
        invariant
            k <= toks.len(),
            first_match_from(s@, i as int, views(toks@), 0) == first_match_from(
                s@,
                i as int,
                views(toks@),
                k as int,
            ),
        decreases toks.len() - k,
    {
        if matches_at(s, i, &toks[k]) {
            return Some(k);
        }
        k += 1;
    }
    None
}

/// One left-to-right pass replacing each token by its value.
pub fn substitute_tokens(s: &Vec<char>, toks: &Vec<Vec<char>>, vals: &Vec<Vec<char>>) -> (r: Vec<
    char,
>)
    ensures
        r@ == substitute(s@, views(toks@), views(vals@)),
{
    let ghost ts = views(toks@);
    let ghost vs = views(vals@);
    let mut out: Vec<char> = Vec::new();
    let mut i: usize = 0;
    while i < s.len()
        invariant
            i <= s.len(),
            ts == views(toks@),
            vs == views(vals@),
            out@ + substitute_from(s@, i as int, ts, vs) == substitute_from(s@, 0, ts, vs),
        decreases s.len() - i,
    {
        let m = first_match(s, i, toks);
        let mut advanced = false;
        if let Some(k) = m {
            if k < vals.len() && toks[k].len() > 0 && toks[k].len() <= s.len() - i {
                let ghost before = out@;
                extend_chars(&mut out, &vals[k]);
                assert(out@ + substitute_from(s@, i + toks@[k as int]@.len(), ts, vs) =~= before + (vs[k as int]
                    + substitute_from(s@, i + toks@[k as int]@.len(), ts, vs)));
                i = i + toks[k].len();
                advanced = true;
            }
        }
        if !advanced {
            let ghost before = out@;
            out.push(s[i]);
            assert(out@ + substitute_from(s@, i + 1, ts, vs) =~= before + (seq![s@[i as int]]
                + substitute_from(s@, i + 1, ts, vs)));
            i = i + 1;
        }
    }
    assert(out@ =~= out@ + substitute_from(s@, i as int, ts, vs));
    out
}

/// `s` cut before its first stop character.
pub fn truncate_chars(s: &Vec<char>) -> (r: Vec<char>)
    ensures
        r@ == truncate_at_stop(s@),
{
    let mut out: Vec<char> = Vec::new();
    let mut i: usize = 0;
    while i < s.len()
        invariant
            i <= s.len(),
            stop_index_from(s@, 0) == stop_index_from(s@, i as int),
            out@ == s@.take(i as int),
        decreases s.len() - i,
    {
        let c = s[i];
        if c == '<' || c == '*' || c == '?' {
            return out;
        }
        out.push(c);
        i += 1;
        assert(out@ =~= s@.take(i as int));
    }
    assert(out@ =~= s@.take(s@.len() as int));
    out
}

/// Separators in the convention of `os`.
pub fn native_separator_chars(s: &Vec<char>, os: HostOs) -> (r: Vec<char>)
    ensures
        r@ == native_separators(s@, os),
{
    let windows = os == HostOs::Windows;
    let mut out: Vec<char> = Vec::new();
    let mut i: usize = 0;
    while i < s.len()
        invariant
            i <= s.len(),
            windows == (os == HostOs::Windows),
            out@.len() == i,
            forall|m: int|
                0 <= m < i ==> out@[m] == (if windows {
                    backward_char(s@[m])
                } else {
                    forward_char(s@[m])
                }),
        decreases s.len() - i,
    {
        let c = s[i];
        let d = if windows {
            if c == '/' {
                '\\'
            } else {
                c
            }
        } else if c == '\\' {
            '/'
        } else {
            c
        };
        out.push(d);
        i += 1;
    }
    assert(out@ =~= native_separators(s@, os));
    out
}

/// Every backslash turned into a forward slash.
pub fn forward_slash_chars(s: &Vec<char>) -> (r: Vec<char>)
    ensures
        r@ == forward_slashes(s@),
{
    native_separator_chars(s, HostOs::Linux)
}

/// `s` without its trailing separators.
pub fn trim_separator_chars(s: &Vec<char>) -> (r: Vec<char>)
    ensures
        r@ == trim_trailing_separators(s@),
{
    let mut n: usize = s.len();
    assert(s@.take(n as int) =~= s@);
    while n > 0 && (s[n - 1] == '/' || s[n - 1] == '\\')
        invariant
            n <= s.len(),
            trim_trailing_separators(s@) == trim_trailing_separators(s@.take(n as int)),
        decreases n,
    {
        assert(s@.take(n as int).drop_last() =~= s@.take(n - 1));
        n -= 1;
    }
    let mut out: Vec<char> = Vec::new();
    let mut i: usize = 0;
    while i < n
        invariant
            i <= n <= s.len(),
            out@ == s@.take(i as int),
        decreases n - i,
    {
        out.push(s[i]);
        i += 1;
        assert(out@ =~= s@.take(i as int));
    }
    out
}

/// `s` without a leading `C:` or `c:`.
pub fn strip_drive_chars(s: &Vec<char>) -> (r: Vec<char>)
    ensures
        r@ == strip_drive(s@),
{
    let skip: usize = if s.len() >= 2 && (s[0] == 'C' || s[0] == 'c') && s[1] == ':' {
        2
    } else {
        0
    };
    let mut out: Vec<char> = Vec::new();
    let mut i: usize = skip;
    while i < s.len()
        invariant
            skip <= i <= s.len(),
            out@ == s@.subrange(skip as int, i as int),
        decreases s.len() - i,
    {
        out.push(s[i]);
        i += 1;
        assert(out@ =~= s@.subrange(skip as int, i as int));
    }
    assert(out@ =~= strip_drive(s@));
    out
}

/// The tokens of host-native resolution and their values.
fn native_table(env: &HostEnv) -> (r: (Vec<Vec<char>>, Vec<Vec<char>>))
    ensures
        views(r.0@) == native_tokens(env.document_dir is Some),
        views(r.1@) == native_values(*env),
{
    let mut toks: Vec<Vec<char>> = Vec::new();
    let mut vals: Vec<Vec<char>> = Vec::new();
    let local = chars_of(env.data_local_dir.as_str());
    let config = chars_of(env.config_dir.as_str());
    let home = chars_of(env.home_dir.as_str());
    toks.push(chars_of("%LOCALAPPDATA%"));
    vals.push(local.clone());
    toks.push(chars_of("%APPDATA%"));
    vals.push(config.clone());
    toks.push(chars_of("%USERPROFILE%"));
    vals.push(home.clone());
    toks.push(chars_of("<home>"));
    vals.push(home);
    toks.push(chars_of("<winAppData>"));
    vals.push(config);
    toks.push(chars_of("<winLocalAppData>"));
    vals.push(local);
    match &env.document_dir {
        Some(d) => {
            let docs = chars_of(d.as_str());
            toks.push(chars_of("%DOCUMENTS%"));
            vals.push(docs.clone());
            toks.push(chars_of("<winDocuments>"));
            vals.push(docs);
        },
        None => {},
    }
    assert(views(toks@) =~= native_tokens(env.document_dir is Some));
    assert(views(vals@) =~= native_values(*env));
    (toks, vals)
}

/// The tokens of resolution inside the virtual profile `p`, and their values.
fn compat_table(p: &Vec<char>) -> (r: (Vec<Vec<char>>, Vec<Vec<char>>))
    ensures
        views(r.0@) == compat_tokens(),
        views(r.1@) == compat_values(p@),
{
    let app_data = join_chars(p, &chars_of("AppData"));
    let roaming = join_chars(&app_data, &chars_of("Roaming"));
    let local = join_chars(&app_data, &chars_of("Local"));
    let mut toks: Vec<Vec<char>> = Vec::new();
    let mut vals: Vec<Vec<char>> = Vec::new();
    toks.push(chars_of("%USERPROFILE%"));
    vals.push(p.clone());
    toks.push(chars_of("<home>"));
    vals.push(p.clone());
    toks.push(chars_of("%APPDATA%"));
    vals.push(roaming.clone());
    toks.push(chars_of("%LOCALAPPDATA%"));
    vals.push(local.clone());
    toks.push(chars_of("<winAppData>"));
    vals.push(roaming);
    toks.push(chars_of("<winLocalAppData>"));
    vals.push(local);
    assert(views(toks@) =~= compat_tokens());
    assert(views(vals@) =~= compat_values(p@));
    (toks, vals)
}

/// Locates save data of installed titles.
pub struct SteamService;

impl SteamService {
    /// The virtual profile directory of `game_id` under the library root `steam_root`.
    pub fn compat_prefix_path(steam_root: &str, game_id: u32) -> (r: String)
        ensures
            r@ == compat_prefix(steam_root@, game_id),
    {
        let mut rel = chars_of("steamapps/compatdata/");
        extend_chars(&mut rel, &decimal_chars(game_id as u64));
        extend_chars(&mut rel, &chars_of("/pfx/drive_c/users/steamuser"));
        string_of(&join_chars(&chars_of(steam_root), &rel))
    }

    /// The concrete directory that the save-location template `path_str` denotes for
    /// title `game_id` on host `env`. `prefix_present` tells whether the title's
    /// compatibility prefix (`compat_prefix_path`) exists; it matters only on Linux, for
    /// templates that name a Windows profile location, when a library root is known.
    pub fn resolve_path_root(path_str: &str, game_id: u32, env: &HostEnv, prefix_present: bool) -> (r:
        String)
        ensures
            r@ == resolved(path_str@, game_id, *env, prefix_present),
    {
        let t = chars_of(path_str);
        let marked = contains_chars(&t, &chars_of("AppData")) || contains_chars(
            &t,
            &chars_of("Saved Games"),
        );
        if env.os == HostOs::Linux && marked && prefix_present {
            if let Some(root) = &env.steam_root {
                let p = chars_of(SteamService::compat_prefix_path(root.as_str(), game_id).as_str());
                let (toks, vals) = compat_table(&p);
                let subst = substitute_tokens(&t, &toks, &vals);
                return string_of(&strip_drive_chars(&forward_slash_chars(&subst)));
            }
        }
        let (toks, vals) = native_table(env);
        let subst = substitute_tokens(&t, &toks, &vals);
        let cut = truncate_chars(&subst);
        string_of(&trim_separator_chars(&native_separator_chars(&cut, env.os)))
    }
}

} // verus!
