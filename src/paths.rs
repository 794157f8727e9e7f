//! Expanding the placeholders of a save location's path: environment variables
//! of the system (`%APPDATA%`, `$HOME`, ...), the Steam folder and the user id.
//!
//! The environment is read by the caller and handed over as pairs of variable
//! name and value; a variable that is unset is simply absent.

use vstd::prelude::*;
use vstd::string::StringExecFns;

use crate::cite::{first_at, occurs_at};

verus! {

broadcast use vstd::string::group_string_axioms;

/// The values that stand for the placeholders that are not environment variables.
pub struct ExpansionParams {
    /// The Steam folder, for `<Steam-folder>`.
    pub install_dir: String,
    /// The Steam user id, for `<user-id>`.
    pub user_id: u64,
}

/// The environment-variable placeholders of system `os`, in the order in which
/// they are looked for; `None` for a system that has none listed.
pub open spec fn os_keys(os: Seq<char>) -> Option<Seq<Seq<char>>> {
    if os == "windows"@ {
        Some(
            seq![
                "%USERPROFILE%"@,
                "%APPDATA%"@,
                "%LOCALAPPDATA%"@,
                "%TEMP%"@,
                "%PUBLIC%"@,
                "%PROGRAMDATA%"@,
                "%PROGRAMFILES%"@,
                "%WINDIR%"@,
            ],
        )
    } else if os == "macos"@ {
        Some(seq!["$HOME"@])
    } else if os == "linux"@ {
        Some(seq!["$HOME"@, "$XDG_DATA_HOME"@, "$XDG_CONFIG_HOME"@])
    } else {
        None
    }
}

/// The value a placeholder takes when its variable is unset: another
/// placeholder's value followed by a fixed suffix.
pub open spec fn default_of(key: Seq<char>) -> Option<(Seq<char>, Seq<char>)> {
    if key == "$XDG_DATA_HOME"@ {
        Some(("$HOME"@, "/.local/share"@))
    } else if key == "$XDG_CONFIG_HOME"@ {
        Some(("$HOME"@, "/.config"@))
    } else {
        None
    }
}

pub open spec fn lower_char(c: char) -> char {
    if 'A' <= c <= 'Z' {
        ((c as u32) + 32) as char
    } else {
        c
    }
}

pub open spec fn upper_char(c: char) -> char {
    if 'a' <= c <= 'z' {
        ((c as u32) - 32) as char
    } else {
        c
    }
}

/// `s` with its ASCII letters in lower case.
pub open spec fn ascii_lower(s: Seq<char>) -> Seq<char> {
    Seq::new(s.len(), |i: int| lower_char(s[i]))
}

/// `s` with its ASCII letters in upper case.
pub open spec fn ascii_upper(s: Seq<char>) -> Seq<char> {
    Seq::new(s.len(), |i: int| upper_char(s[i]))
}

/// The first position of `pat` in `s`, if it occurs.
pub open spec fn first_pos(s: Seq<char>, pat: Seq<char>) -> Option<int> {
    if exists|i: int| first_at(s, pat, i) {
        Some(choose|i: int| first_at(s, pat, i))
    } else {
        None
    }
}

/// Where placeholder `key` is found in `path`: on Windows, in lower case or
/// else in upper case; elsewhere as written.
pub open spec fn key_pos(path: Seq<char>, os: Seq<char>, key: Seq<char>) -> Option<int> {
    if os == "windows"@ {
        match first_pos(path, ascii_lower(key)) {
            Some(i) => Some(i),
            None => first_pos(path, ascii_upper(key)),
        }
    } else {
        first_pos(path, key)
    }
}

/// The environment variable that placeholder `key` stands for: on Windows the
/// placeholder in lower case, elsewhere the placeholder without its `$`.
pub open spec fn var_name(os: Seq<char>, key: Seq<char>) -> Seq<char> {
    if os == "windows"@ {
        ascii_lower(key)
    } else {
        key.drop_first()
    }
}

/// The value of variable `name` in `env`: that of its first entry.
pub open spec fn env_lookup(env: Seq<(String, String)>, name: Seq<char>) -> Option<Seq<char>>
    decreases env.len(),
{
    if env.len() == 0 {
        None
    } else if env[0].0@ == name {
        Some(env[0].1@)
    } else {
        env_lookup(env.drop_first(), name)
    }
}

/// The value that placeholder `key` takes: its variable's, or else its default.
pub open spec fn var_value(env: Seq<(String, String)>, os: Seq<char>, key: Seq<char>) -> Option<
    Seq<char>,
> {
    match env_lookup(env, var_name(os, key)) {
        Some(v) => Some(v),
        None => match default_of(key) {
            Some((base, rest)) => match env_lookup(env, var_name(os, base)) {
                Some(v) => Some(v + rest),
                None => None,
            },
            None => None,
        },
    }
}

pub open spec fn digit_char(d: nat) -> char {
    (('0' as u32) + d) as char
}

/// The decimal digits of `n`.
pub open spec fn decimal(n: nat) -> Seq<char>
    decreases n,
{
    if n < 10 {
        seq![digit_char(n)]
    } else {
        decimal(n / 10).push(digit_char(n % 10))
    }
}

/// One placeholder that may be replaced: where it is found, its length, and
/// what replaces it.
pub type Candidate = (Option<int>, int, Seq<char>);

/// The placeholders of `path` in the order in which they are looked for: the
/// system's variables, then `<Steam-folder>`, then `<user-id>`.
pub open spec fn candidates(
    path: Seq<char>,
    os: Seq<char>,
    keys: Seq<Seq<char>>,
    install_dir: Seq<char>,
    user_id: u64,
    env: Seq<(String, String)>,
) -> Seq<Candidate> {
    Seq::new(
        keys.len(),
        |j: int|
            (
                key_pos(path, os, keys[j]),
                keys[j].len() as int,
                match var_value(env, os, keys[j]) {
                    Some(v) => v,
                    None => Seq::empty(),
                },
            ),
    ) + seq![
        (first_pos(path, "<Steam-folder>"@), 14int, install_dir),
        (first_pos(path, "<user-id>"@), 9int, decimal(user_id as nat)),
    ]
}

/// The placeholder that replaces the text at position `i`: the last of the
/// candidates found there.
pub open spec fn rep_at(cands: Seq<Candidate>, i: int) -> Option<(int, Seq<char>)>
    decreases cands.len(),
{
    if cands.len() == 0 {
        None
    } else if cands.last().0 == Some(i) {
        Some((cands.last().1, cands.last().2))
    } else {
        rep_at(cands.drop_last(), i)
    }
}

/// Where the text resumes after a placeholder of length `l` at position `i`.
pub open spec fn skip_to(path: Seq<char>, i: int, l: int) -> int {
    let next = i + if l > 0 {
        l
    } else {
        1
    };
    if next > path.len() {
        path.len() as int
    } else {
        next
    }
}

/// `path` from position `i` on, each placeholder in `cands` replaced by its value.
pub open spec fn rebuild(path: Seq<char>, cands: Seq<Candidate>, i: int) -> Seq<char>
    decreases path.len() - i,
{
    if i < 0 || i >= path.len() {
        Seq::empty()
    } else {
        match rep_at(cands, i) {
            Some((l, v)) => v + rebuild(path, cands, skip_to(path, i, l)),
            None => seq![path[i]] + rebuild(path, cands, i + 1),
        }
    }
}

/// `path` with its placeholders expanded, each at its first occurrence; `None`
/// when the system has no placeholders listed, or when one that the path holds
/// has no value.
pub open spec fn expansion(
    path: Seq<char>,
    os: Seq<char>,
    install_dir: Seq<char>,
    user_id: u64,
    env: Seq<(String, String)>,
) -> Option<Seq<char>> {
    match os_keys(os) {
        None => None,
        Some(keys) => if exists|j: int|
            0 <= j < keys.len() && key_pos(path, os, keys[j]) is Some && var_value(
                env,
                os,
                keys[j],
            ) is None {
            None
        } else {
            Some(rebuild(path, candidates(path, os, keys, install_dir, user_id, env), 0))
        },
    }
}

/// Relies on str::to_ascii_lowercase: each ASCII letter mapped to lower case,
/// every other character kept.
#[verifier::external_body]
fn to_ascii_lower(s: &str) -> (r: String)
    ensures
        r@ == ascii_lower(s@),
{
    s.to_ascii_lowercase()
}

/// The Windows placeholders are written in upper case already.
proof fn lemma_windows_keys_upper()
    ensures
        forall|j: int|
            0 <= j < os_keys("windows"@)->0.len() ==> #[trigger] ascii_upper(
                os_keys("windows"@)->0[j],
            ) == os_keys("windows"@)->0[j],
{
    reveal_strlit("windows");
    reveal_strlit("macos");
    reveal_strlit("linux");
    reveal_strlit("%USERPROFILE%");
    reveal_strlit("%APPDATA%");
    reveal_strlit("%LOCALAPPDATA%");
    reveal_strlit("%TEMP%");
    reveal_strlit("%PUBLIC%");
    reveal_strlit("%PROGRAMDATA%");
    reveal_strlit("%PROGRAMFILES%");
    reveal_strlit("%WINDIR%");
    let keys = os_keys("windows"@)->0;
    assert forall|j: int| 0 <= j < keys.len() implies #[trigger] ascii_upper(keys[j]) == keys[j] by {
        assert(ascii_upper(keys[j]) =~= keys[j]);
    }
}

proof fn lemma_first_pos(s: Seq<char>, pat: Seq<char>, i: int)
    requires
        first_at(s, pat, i),
    ensures
        first_pos(s, pat) == Some(i),
{
    let c = choose|c: int| first_at(s, pat, c);
    if c < i {
        assert(!occurs_at(s, pat, c));
    } else if i < c {
        assert(!occurs_at(s, pat, i));
    }
}

/// The first position of `pat` in `s`.
fn find(s: &str, pat: &str) -> (r: Option<usize>)
    ensures
        match r {
            Some(i) => first_pos(s@, pat@) == Some(i as int),
            None => first_pos(s@, pat@) is None,
        },
{
    let r = crate::cite::find_str(s, pat);
    proof {
        match r {
            Some(i) => lemma_first_pos(s@, pat@, i as int),
            None => {},
        }
    }
    r
}

fn text_eq(a: &str, b: &str) -> (r: bool)
    ensures
        r == (a@ == b@),
{
    a.to_string() == b.to_string()
}

/// The placeholders of system `os`.
fn keys_of(os: &str) -> (r: Option<Vec<&'static str>>)
    ensures
        match r {
            Some(v) => os_keys(os@) == Some(v@.map_values(|k: &str| k@)),
            None => os_keys(os@) is None,
        },
{
    let r = if text_eq(os, "windows") {
        Some(
            vec![
                "%USERPROFILE%",
                "%APPDATA%",
                "%LOCALAPPDATA%",
                "%TEMP%",
                "%PUBLIC%",
                "%PROGRAMDATA%",
                "%PROGRAMFILES%",
                "%WINDIR%",
            ],
        )
    } else if text_eq(os, "macos") {
        Some(vec!["$HOME"])
    } else if text_eq(os, "linux") {
        Some(vec!["$HOME", "$XDG_DATA_HOME", "$XDG_CONFIG_HOME"])
    } else {
        None
    };
    proof {
        if let Some(v) = &r {
            assert(os_keys(os@)->0 =~= v@.map_values(|k: &str| k@));
        }
    }
    r
}

/// Every placeholder, and every placeholder a default refers to, has at least
/// one character.
proof fn lemma_keys_nonempty(os: Seq<char>)
    ensures
        os_keys(os) matches Some(keys) ==> forall|j: int| 0 <= j < keys.len() ==> keys[j].len() >= 1,
        forall|k: Seq<char>| #[trigger] default_of(k) matches Some((b, _)) ==> b.len() >= 1,
{
    reveal_strlit("%USERPROFILE%");
    reveal_strlit("%APPDATA%");
    reveal_strlit("%LOCALAPPDATA%");
    reveal_strlit("%TEMP%");
    reveal_strlit("%PUBLIC%");
    reveal_strlit("%PROGRAMDATA%");
    reveal_strlit("%PROGRAMFILES%");
    reveal_strlit("%WINDIR%");
    reveal_strlit("$HOME");
    reveal_strlit("$XDG_DATA_HOME");
    reveal_strlit("$XDG_CONFIG_HOME");
}

/// The default of placeholder `key`, if it has one.
fn default_for(key: &str) -> (r: Option<(&'static str, &'static str)>)
    ensures
        match r {
            Some((b, rest)) => default_of(key@) == Some((b@, rest@)),
            None => default_of(key@) is None,
        },
{
    if text_eq(key, "$XDG_DATA_HOME") {
        Some(("$HOME", "/.local/share"))
    } else if text_eq(key, "$XDG_CONFIG_HOME") {
        Some(("$HOME", "/.config"))
    } else {
        None
    }
}

/// The value of variable `name` in `env`.
fn lookup(env: &Vec<(String, String)>, name: &str) -> (r: Option<String>)
    ensures
        match r {
            Some(v) => env_lookup(env@, name@) == Some(v@),
            None => env_lookup(env@, name@) is None,
        },
{
    let wanted = name.to_string();
    let mut i: usize = 0;
    assert(env@.subrange(0, env@.len() as int) =~= env@);
    while i < env.len()
        invariant
            i <= env@.len(),
            wanted@ == name@,
            env_lookup(env@, name@) == env_lookup(env@.subrange(i as int, env@.len() as int), name@),
        decreases env@.len() - i,
    {
        let ghost rest = env@.subrange(i as int, env@.len() as int);
        assert(rest.drop_first() =~= env@.subrange(i + 1, env@.len() as int));
        assert(rest[0] == env@[i as int]);
        if env[i].0 == wanted {
            return Some(env[i].1.clone());
        }
        i += 1;
    }
    None
}

/// The variable that placeholder `key` stands for.
fn name_of_var(windows: bool, os: &str, key: &str) -> (r: String)
    requires
        windows == (os@ == "windows"@),
        key@.len() >= 1,
    ensures
        r@ == var_name(os@, key@),
{
    if windows {
        to_ascii_lower(key)
    } else {
        let n = key.unicode_len();
        key.substring_char(1, n).to_string()
    }
}

/// The value that placeholder `key` takes.
fn value_of(env: &Vec<(String, String)>, windows: bool, os: &str, key: &str) -> (r: Option<String>)
    requires
        windows == (os@ == "windows"@),
        key@.len() >= 1,
    ensures
        match r {
            Some(v) => var_value(env@, os@, key@) == Some(v@),
            None => var_value(env@, os@, key@) is None,
        },
{
    let name = name_of_var(windows, os, key);
    match lookup(env, name.as_str()) {
        Some(v) => Some(v),
        None => match default_for(key) {
            Some((base, rest)) => {
                proof {
                    lemma_keys_nonempty(os@);
                    assert(default_of(key@) matches Some((b, _)) && b == base@);
                }
                let base_name = name_of_var(windows, os, base);
                match lookup(env, base_name.as_str()) {
                    Some(v) => Some(v.concat(rest)),
                    None => None,
                }
            },
            None => None,
        },
    }
}

fn digit(d: u64) -> (r: &'static str)
    requires
        d < 10,
    ensures
        r@ == seq![digit_char(d as nat)],
{
    proof {
        reveal_strlit("0");
        reveal_strlit("1");
        reveal_strlit("2");
        reveal_strlit("3");
        reveal_strlit("4");
        reveal_strlit("5");
        reveal_strlit("6");
        reveal_strlit("7");
        reveal_strlit("8");
        reveal_strlit("9");
    }
    let r = if d == 0 {
        "0"
    } else if d == 1 {
        "1"
    } else if d == 2 {
        "2"
    } else if d == 3 {
        "3"
    } else if d == 4 {
        "4"
    } else if d == 5 {
        "5"
    } else if d == 6 {
        "6"
    } else if d == 7 {
        "7"
    } else if d == 8 {
        "8"
    } else {
        "9"
    };
    assert(r@ =~= seq![digit_char(d as nat)]);
    r
}

/// The decimal digits of `n`.
fn decimal_string(n: u64) -> (r: String)
    ensures
        r@ == decimal(n as nat),
    decreases n,
{
    if n < 10 {
        digit(n).to_string()
    } else {
        let head = decimal_string(n / 10);
        let r = head.concat(digit(n % 10));
        assert(r@ =~= decimal(n as nat));
        r
    }
}

pub open spec fn cand_view(c: (Option<usize>, usize, String)) -> Candidate {
    (
        match c.0 {
            Some(p) => Some(p as int),
            None => None,
        },
        c.1 as int,
        c.2@,
    )
}

pub open spec fn cands_view(v: Seq<(Option<usize>, usize, String)>) -> Seq<Candidate> {
    v.map_values(|c: (Option<usize>, usize, String)| cand_view(c))
}

/// The placeholder that replaces the text at position `i`.
fn rep_at_exec(cands: &Vec<(Option<usize>, usize, String)>, i: usize) -> (r: Option<usize>)
    ensures
        match r {
            Some(k) => k < cands@.len() && rep_at(cands_view(cands@), i as int)
                == Some((cands@[k as int].1 as int, cands@[k as int].2@)),
            None => rep_at(cands_view(cands@), i as int) is None,
        },
{
    let ghost all = cands_view(cands@);
    let mut k: usize = cands.len();
    assert(all.subrange(0, k as int) =~= all);
    while k > 0
        invariant
            k <= cands@.len(),
            all == cands_view(cands@),
            rep_at(all, i as int) == rep_at(all.subrange(0, k as int), i as int),
        decreases k,
    {
        let ghost sub = all.subrange(0, k as int);
        assert(sub.drop_last() =~= all.subrange(0, k - 1));
        assert(sub.last() == cand_view(cands@[k - 1]));
        let hit = match cands[k - 1].0 {
            Some(p) => p == i,
            None => false,
        };
        if hit {
            return Some(k - 1);
        }
        k -= 1;
    }
    None
}

/// Expands the placeholders of `path` for system `os` (`"windows"`, `"macos"` or
/// `"linux"`), as `expansion` says: each placeholder at its first occurrence; on
/// Windows a variable is written in lower or upper case and named in lower
/// case; elsewhere it is written with a `$` and named without. `env` holds the
/// environment variables that are set.
pub fn replace_path_abbrs(
    path: &str,
    os: &str,
    params: &ExpansionParams,
    env: &Vec<(String, String)>,
) -> (r: Option<String>)
    ensures
        match r {
            Some(p) => expansion(path@, os@, params.install_dir@, params.user_id, env@) == Some(p@),
            None => expansion(path@, os@, params.install_dir@, params.user_id, env@) is None,
        },
{
    let keys = match keys_of(os) {
        Some(k) => k,
        None => return None,
    };
    let windows = text_eq(os, "windows");
    let ghost kv = keys@.map_values(|k: &str| k@);
    let ghost all = candidates(path@, os@, kv, params.install_dir@, params.user_id, env@);
    proof {
        lemma_keys_nonempty(os@);
    }
    let mut cands: Vec<(Option<usize>, usize, String)> = Vec::new();
    let mut j: usize = 0;
    while j < keys.len()
        invariant
            os_keys(os@) == Some(kv),
            kv == keys@.map_values(|k: &str| k@),
            windows == (os@ == "windows"@),
            all == candidates(path@, os@, kv, params.install_dir@, params.user_id, env@),
            forall|t: int| 0 <= t < kv.len() ==> kv[t].len() >= 1,
            j <= keys@.len(),
            cands_view(cands@) == all.subrange(0, j as int),
            forall|t: int|
                0 <= t < j ==> !(key_pos(path@, os@, kv[t]) is Some && var_value(
                    env@,
                    os@,
                    kv[t],
                ) is None),
        decreases keys@.len() - j,
    {
        let key = keys[j];
        assert(key@ == kv[j as int]);
        let pos = if windows {
            let lower = to_ascii_lower(key);
            match find(path, lower.as_str()) {
                Some(i) => Some(i),
                None => {
                    proof {
                        lemma_windows_keys_upper();
                        assert(ascii_upper(kv[j as int]) == kv[j as int]);
                    }
                    find(path, key)
                },
            }
        } else {
            find(path, key)
        };
        let value = value_of(env, windows, os, key);
        let v = match value {
            Some(v) => v,
            None => {
                if pos.is_some() {
                    return None;
                }
                String::new()
            },
        };
        let len = key.unicode_len();
        let ghost old_cands = cands@;
        cands.push((pos, len, v));
        assert(all.len() == kv.len() + 2);
        assert(cands_view(old_cands).len() == old_cands.len());
        assert(old_cands.len() == j);
        assert(cands_view(cands@) =~= all.subrange(0, j + 1)) by {
            assert(cands_view(old_cands) == all.subrange(0, j as int));
            assert forall|t: int| 0 <= t < j implies cands_view(cands@)[t] == all[t] by {
                assert(cands@[t] == old_cands[t]);
                assert(cands_view(old_cands)[t] == all.subrange(0, j as int)[t]);
            }
        }
        j += 1;
    }
    let steam = find(path, "<Steam-folder>");
    let user = find(path, "<user-id>");
    proof {
        reveal_strlit("<Steam-folder>");
        reveal_strlit("<user-id>");
    }
    let ghost first = cands@;
    assert(first.len() == kv.len());
    cands.push((steam, 14, params.install_dir.clone()));
    cands.push((user, 9, decimal_string(params.user_id)));
    assert(cands_view(cands@) =~= all) by {
        assert forall|t: int| 0 <= t < kv.len() implies cands_view(cands@)[t] == all[t] by {
            assert(cands@[t] == first[t]);
            assert(cands_view(first)[t] == all.subrange(0, kv.len() as int)[t]);
        }
        assert(cands_view(cands@)[kv.len() as int] == all[kv.len() as int]);
        assert(cands_view(cands@)[kv.len() as int + 1] == all[kv.len() as int + 1]);
    }
    let n = path.unicode_len();
    let mut out = String::new();
    let mut i: usize = 0;
    while i < n
        invariant
            n == path@.len(),
            i <= n,
            cands_view(cands@) == all,
            rebuild(path@, all, 0) == out@ + rebuild(path@, all, i as int),
        decreases n - i,
    {
        match rep_at_exec(&cands, i) {
            Some(k) => {
                let l = cands[k].1;
                out.append(cands[k].2.as_str());
                let next = if l == 0 {
                    i + 1
                } else if l >= n - i {
                    n
                } else {
                    i + l
                };
                assert(next as int == skip_to(path@, i as int, l as int));
                assert(rebuild(path@, all, 0) =~= out@ + rebuild(path@, all, next as int));
                i = next;
            },
            None => {
                out.append(path.substring_char(i, i + 1));
                assert(rebuild(path@, all, 0) =~= out@ + rebuild(path@, all, i + 1));
                i += 1;
            },
        }
    }
    Some(out)
}

} // verus!
