//! Saved accounts: the configuration model, where it is looked for, the `.env`
//! credential format, and the account operations of the command line.

use vstd::prelude::*;
use crate::text::{
    chars_of, concat_chars, contains_exec, contains_text, is_white_space, lemma_find_char,
    lemma_lines_cons, lemma_trim_char_unchanged, lemma_trim_unchanged, lines, occurs_at, split_once,
    strip_cr,
    split_once_exec, same_text, starts_with, string_of, trim, trim_char, trim_char_exec, trim_exec,
    trim_str,
};
use crate::textmap::TextMap;

verus! {

/// The saved configuration: the accounts (user name to password), the active
/// account and the preferred Wi-Fi connection.
pub struct Config {
    pub active_user: Option<String>,
    pub accounts: TextMap,
    pub preferred_ssid: Option<String>,
}

/// The text of an optional string.
pub open spec fn opt_text(o: Option<String>) -> Option<Seq<char>> {
    match o {
        Some(s) => Some(s@),
        None => None,
    }
}

impl Default for Config {
    fn default() -> (c: Config)
        ensures
            c.active_user is None,
            c.accounts@ == Map::<Seq<char>, Seq<char>>::empty(),
            c.preferred_ssid is None,
    {
        Config { active_user: None, accounts: TextMap::new(), preferred_ssid: None }
    }
}

/// The credentials a configuration makes active: the active account when it
/// is saved, otherwise the first saved account, otherwise none.
pub open spec fn active_credentials(cfg: &Config) -> (Option<Seq<char>>, Option<Seq<char>>) {
    let accounts = cfg.accounts@;
    match cfg.active_user {
        Some(a) if accounts.contains_key(a@) => (Some(a@), Some(accounts[a@])),
        _ => if cfg.accounts.key_order().len() > 0 {
            let k = cfg.accounts.key_order()[0];
            (Some(k), Some(accounts[k]))
        } else {
            (None, None)
        },
    }
}

/// The active account's user name and password (see [`active_credentials`]).
pub fn get_active_credentials(cfg: &Config) -> (r: (Option<String>, Option<String>))
    ensures
        (opt_text(r.0), opt_text(r.1)) == active_credentials(cfg),
        r.0 is Some <==> r.1 is Some,
        r.0 is Some <==> cfg.accounts@.dom().len() > 0,
        cfg.accounts@.dom().finite(),
{
    let n = cfg.accounts.len();
    match &cfg.active_user {
        Some(active) => {
            match cfg.accounts.get_string(active) {
                Some(pwd) => {
                    return (Some(active.clone()), Some(pwd.clone()));
                },
                None => {},
            }
        },
        None => {},
    }
    if n > 0 {
        let (user, pwd) = cfg.accounts.entry_at(0);
        (Some(user.clone()), Some(pwd.clone()))
    } else {
        (None, None)
    }
}

/// The saved password of `username`, if that account is saved.
pub fn get_credentials_for(cfg: &Config, username: &str) -> (r: Option<String>)
    ensures
        match r {
            Some(p) => cfg.accounts@.contains_key(username@) && p@ == cfg.accounts@[username@],
            None => !cfg.accounts@.contains_key(username@),
        },
{
    match cfg.accounts.get(username) {
        Some(p) => Some(p.clone()),
        None => None,
    }
}

// ---------------------------------------------------------------------------
// Where configuration lives
// ---------------------------------------------------------------------------

/// `dir` joined with the relative path `name`, as `Path::join` does on Unix.
pub open spec fn join_path(dir: Seq<char>, name: Seq<char>) -> Seq<char> {
    if dir.len() == 0 {
        name
    } else if dir.last() == '/' {
        dir + name
    } else {
        dir + "/"@ + name
    }
}

/// Joins a relative path onto a directory.
pub fn join_path_exec(dir: &str, name: &str) -> (r: String)
    ensures
        r@ == join_path(dir@, name@),
{
    let d = chars_of(dir);
    let n = chars_of(name);
    if d.len() == 0 {
        string_of(&n)
    } else if d[d.len() - 1] == '/' {
        string_of(&concat_chars(&d, &n))
    } else {
        let slash = chars_of("/");
        string_of(&concat_chars(&concat_chars(&d, &slash), &n))
    }
}

/// An environment value that is set and not empty.
pub open spec fn nonempty_value(o: Option<String>) -> bool {
    o matches Some(v) && v@.len() > 0
}

/// The configuration directory: `$XDG_CONFIG_HOME/pesu-wifi` when that is set
/// and not empty, otherwise `$HOME/.config/pesu-wifi` (with `.` for an unset home).
pub open spec fn config_dir(xdg: Option<String>, home: Option<String>) -> Seq<char> {
    if nonempty_value(xdg) {
        join_path(xdg->0@, "pesu-wifi"@)
    } else {
        let base = match home {
            Some(h) => h@,
            None => "."@,
        };
        join_path(join_path(base, ".config"@), "pesu-wifi"@)
    }
}

/// Chooses the configuration directory from `XDG_CONFIG_HOME` and `HOME`.
pub fn get_config_dir(xdg: Option<String>, home: Option<String>) -> (r: String)
    ensures
        r@ == config_dir(xdg, home),
{
    match &xdg {
        Some(x) => {
            if !x.as_str().is_empty() {
                return join_path_exec(x.as_str(), "pesu-wifi");
            }
        },
        None => {},
    }
    let base = match &home {
        Some(h) => h.clone(),
        None => String::from_str("."),
    };
    let c = join_path_exec(base.as_str(), ".config");
    join_path_exec(c.as_str(), "pesu-wifi")
}

/// The per-user configuration path of `sudo_user` for the file `name`.
pub open spec fn sudo_user_path(sudo_user: Seq<char>, name: Seq<char>) -> Seq<char> {
    "/home/"@ + sudo_user + "/.config/pesu-wifi/"@ + name
}

/// The files a configuration of kind `name` is looked for in, in order: the
/// configuration directory, the invoking user's directory under `sudo`, then
/// `fallback`.
pub open spec fn candidate_paths(
    dir: Seq<char>,
    sudo_user: Option<String>,
    name: Seq<char>,
    fallback: Seq<char>,
) -> Seq<Seq<char>> {
    if nonempty_value(sudo_user) {
        seq![join_path(dir, name), sudo_user_path(sudo_user->0@, name), fallback]
    } else {
        seq![join_path(dir, name), fallback]
    }
}

fn candidates(dir: &str, sudo_user: &Option<String>, name: &str, fallback: &str) -> (r: Vec<String>)
    ensures
        r@.map_values(|p: String| p@) == candidate_paths(dir@, *sudo_user, name@, fallback@),
{
    let mut r: Vec<String> = Vec::new();
    r.push(join_path_exec(dir, name));
    match sudo_user {
        Some(u) => {
            if !u.as_str().is_empty() {
                let a = concat_chars(&chars_of("/home/"), &chars_of(u.as_str()));
                let b = concat_chars(&a, &chars_of("/.config/pesu-wifi/"));
                let c = concat_chars(&b, &chars_of(name));
                r.push(string_of(&c));
            }
        },
        None => {},
    }
    r.push(String::from_str(fallback));
    assert(r@.map_values(|p: String| p@) =~= candidate_paths(dir@, *sudo_user, name@, fallback@));
    r
}

/// The JSON configuration files, in the order they are tried.
pub fn config_file_candidates(dir: &str, sudo_user: &Option<String>) -> (r: Vec<String>)
    ensures
        r@.map_values(|p: String| p@) == candidate_paths(
            dir@,
            *sudo_user,
            "config.json"@,
            "/etc/pesu-wifi/config.json"@,
        ),
{
    candidates(dir, sudo_user, "config.json", "/etc/pesu-wifi/config.json")
}

/// The `.env` credential files, in the order they are tried.
pub fn env_file_candidates(dir: &str, sudo_user: &Option<String>) -> (r: Vec<String>)
    ensures
        r@.map_values(|p: String| p@) == candidate_paths(dir@, *sudo_user, ".env"@, ".env"@),
{
    candidates(dir, sudo_user, ".env", ".env")
}

// ---------------------------------------------------------------------------
// The `.env` credential format
// ---------------------------------------------------------------------------

/// The key and value a `.env` line assigns, if it is an assignment: a trimmed
/// line that is not empty, not a `#` comment and holds `=`; the key is the
/// trimmed text before the first `=`, the value the trimmed text after it
/// with surrounding single and then double quotes removed.
pub open spec fn env_assignment(line: Seq<char>) -> Option<(Seq<char>, Seq<char>)> {
    let t = trim(line);
    if t.len() > 0 && !starts_with(t, "#"@) && contains_text(t, "="@) {
        match split_once(t, '=') {
            Some(parts) => Some((trim(parts.0), trim_char(trim_char(trim(parts.1), '\''), '"'))),
            None => None,
        }
    } else {
        None
    }
}

/// The user name and password that a sequence of `.env` lines sets; a later
/// assignment of a key replaces an earlier one.
pub open spec fn env_credentials(ls: Seq<Seq<char>>) -> (Option<Seq<char>>, Option<Seq<char>>)
    decreases ls.len(),
{
    if ls.len() == 0 {
        (None, None)
    } else {
        let (u, p) = env_credentials(ls.drop_last());
        match env_assignment(ls.last()) {
            Some((k, v)) => if k == "PESU_USERNAME"@ {
                (Some(v), p)
            } else if k == "PESU_PASSWORD"@ {
                (u, Some(v))
            } else {
                (u, p)
            },
            None => (u, p),
        }
    }
}

/// Reads the assignment on one `.env` line.
pub fn parse_env_line(line: &str) -> (r: Option<(Vec<char>, Vec<char>)>)
    ensures
        match r {
            Some(kv) => env_assignment(line@) == Some((kv.0@, kv.1@)),
            None => env_assignment(line@) is None,
        },
{
    proof {
        reveal_strlit("#");
        reveal_strlit("=");
    }
    let t = trim_str(line);
    let hash = chars_of("#");
    let eq = chars_of("=");
    if t.len() == 0 || crate::text::occurs_at_exec(&t, &hash, 0) || !contains_exec(&t, &eq) {
        return None;
    }
    match split_once_exec(&t, '=') {
        Some((k, v)) => {
            let key = trim_exec(&k);
            let value = trim_char_exec(&trim_char_exec(&trim_exec(&v), '\''), '"');
            Some((key, value))
        },
        None => None,
    }
}

/// A configuration holding the one account `user` with `password`, active.
pub open spec fn single_account(cfg: &Config, user: Seq<char>, password: Seq<char>) -> bool {
    &&& opt_text(cfg.active_user) == Some(user)
    &&& cfg.accounts@ == Map::<Seq<char>, Seq<char>>::empty().insert(user, password)
    &&& cfg.preferred_ssid is None
}

fn single_account_config(user: String, password: String) -> (cfg: Config)
    ensures
        single_account(&cfg, user@, password@),
{
    let mut accounts = TextMap::new();
    accounts.insert(user.clone(), password);
    Config { active_user: Some(user), accounts, preferred_ssid: None }
}

/// The configuration a `.env` file gives: its one account when it sets both a
/// user name and a password.
pub fn config_from_env_lines(ls: &Vec<String>) -> (r: Option<Config>)
    ensures
        match r {
            Some(cfg) => env_credentials(ls@.map_values(|l: String| l@)) matches (Some(u), Some(p))
                && single_account(&cfg, u, p),
            None => !(env_credentials(ls@.map_values(|l: String| l@)) matches (Some(_), Some(_))),
        },
{
    let ghost all = ls@.map_values(|l: String| l@);
    let mut user: Option<Vec<char>> = None;
    let mut pwd: Option<Vec<char>> = None;
    let mut i: usize = 0;
    while i < ls.len()
        invariant
            i <= ls@.len(),
            all == ls@.map_values(|l: String| l@),
            env_credentials(all.take(i as int)) == (
                match user {
                    Some(u) => Some(u@),
                    None => None,
                },
                match pwd {
                    Some(p) => Some(p@),
                    None => None,
                },
            ),
        decreases ls@.len() - i,
    {
        proof {
            reveal_strlit("PESU_USERNAME");
            reveal_strlit("PESU_PASSWORD");
            assert(all.take(i + 1).drop_last() =~= all.take(i as int));
            assert(all.take(i + 1).last() == ls@[i as int]@);
        }
        match parse_env_line(ls[i].as_str()) {
            Some((k, v)) => {
                if same_text(&k, "PESU_USERNAME") {
                    user = Some(v);
                } else if same_text(&k, "PESU_PASSWORD") {
                    pwd = Some(v);
                }
            },
            None => {},
        }
        i = i + 1;
    }
    assert(all.take(i as int) =~= all);
    match (user, pwd) {
        (Some(u), Some(p)) => Some(single_account_config(string_of(&u), string_of(&p))),
        _ => None,
    }
}

/// The `.env` file that `save_config` writes beside the JSON file: a comment
/// line, then the active user name and its password (empty when missing).
pub open spec fn env_file_text(cfg: &Config) -> Seq<char> {
    let user = match cfg.active_user {
        Some(u) => u@,
        None => Seq::empty(),
    };
    let pwd = if cfg.accounts@.contains_key(user) {
        cfg.accounts@[user]
    } else {
        Seq::empty()
    };
    "# PESU WiFi Saved Credentials\n"@ + "PESU_USERNAME="@ + user + "\n"@ + "PESU_PASSWORD="@ + pwd
        + "\n"@
}

/// Renders the `.env` credential file for a configuration.
pub fn env_file_content(cfg: &Config) -> (r: String)
    ensures
        r@ == env_file_text(cfg),
{
    let user = match &cfg.active_user {
        Some(u) => u.clone(),
        None => String::new(),
    };
    let pwd = match cfg.accounts.get_string(&user) {
        Some(p) => p.clone(),
        None => String::new(),
    };
    let a = concat_chars(&chars_of("# PESU WiFi Saved Credentials\n"), &chars_of("PESU_USERNAME="));
    let b = concat_chars(&concat_chars(&a, &chars_of(user.as_str())), &chars_of("\n"));
    let c = concat_chars(&concat_chars(&b, &chars_of("PESU_PASSWORD=")), &chars_of(pwd.as_str()));
    let d = concat_chars(&c, &chars_of("\n"));
    assert(d@ =~= env_file_text(cfg));
    string_of(&d)
}


/// A value that the `.env` format stores and reads back unchanged: no line
/// break, and no white space or quote at either end.
pub open spec fn plain_env_value(v: Seq<char>) -> bool {
    &&& forall|j: int| 0 <= j < v.len() ==> v[j] != '\n'
    &&& v.len() > 0 ==> {
        &&& !is_white_space(v[0]) && !is_white_space(v.last())
        &&& v[0] != '\'' && v[0] != '"' && v.last() != '\'' && v.last() != '"'
    }
}

proof fn lemma_env_line(key: Seq<char>, v: Seq<char>)
    requires
        key == "PESU_USERNAME"@ || key == "PESU_PASSWORD"@,
        plain_env_value(v),
    ensures
        env_assignment(key + "="@ + v) == Some((key, v)),
        strip_cr(key + "="@ + v) == key + "="@ + v,
        forall|j: int| 0 <= j < (key + "="@ + v).len() ==> (key + "="@ + v)[j] != '\n',
{
    reveal_strlit("PESU_USERNAME");
    reveal_strlit("PESU_PASSWORD");
    reveal_strlit("=");
    reveal_strlit("#");
    let line = key + "="@ + v;
    assert(key.len() == 13);
    assert(forall|j: int| 0 <= j < 13 ==> key[j] != '=' && key[j] != '\n');
    assert(line[0] == 'P');
    assert(line[13] == '=');
    assert(!is_white_space('P'));
    assert(!is_white_space('='));
    assert(!is_white_space('D') && !is_white_space('E'));
    lemma_trim_unchanged(line);
    lemma_trim_unchanged(key);
    lemma_trim_unchanged(v);
    lemma_trim_char_unchanged(v, '\'');
    lemma_trim_char_unchanged(v, '"');
    assert(line.subrange(13, 14) =~= "="@);
    assert(occurs_at(line, "="@, 13));
    assert(line.subrange(0, 1)[0] == 'P');
    assert(!starts_with(line, "#"@));
    lemma_find_char(line, '=', 13);
    assert(line.take(13) =~= key);
    assert(line.skip(14) =~= v);
}

/// Reading back the `.env` file written for a configuration gives the active
/// account's user name and password, when the active account is saved and
/// both values are plain (see [`plain_env_value`]).
pub proof fn lemma_env_file_round_trip(cfg: &Config)
    requires
        cfg.active_user is Some,
        cfg.accounts@.contains_key(cfg.active_user->0@),
        plain_env_value(cfg.active_user->0@),
        plain_env_value(cfg.accounts@[cfg.active_user->0@]),
    ensures
        env_credentials(lines(env_file_text(cfg))) == (
            Some(cfg.active_user->0@),
            Some(cfg.accounts@[cfg.active_user->0@]),
        ),
{
    let u = cfg.active_user->0@;
    let p = cfg.accounts@[u];
    reveal_strlit("# PESU WiFi Saved Credentials\n");
    reveal_strlit("# PESU WiFi Saved Credentials");
    reveal_strlit("PESU_USERNAME=");
    reveal_strlit("PESU_PASSWORD=");
    reveal_strlit("PESU_USERNAME");
    reveal_strlit("PESU_PASSWORD");
    reveal_strlit("=");
    reveal_strlit("\n");
    reveal_strlit("#");
    let head = "# PESU WiFi Saved Credentials"@;
    let b = "PESU_USERNAME"@ + "="@ + u;
    let c = "PESU_PASSWORD"@ + "="@ + p;
    let nl = seq!['\n'];
    assert(env_file_text(cfg) =~= head + nl + (b + nl + (c + nl + Seq::<char>::empty())));
    assert(forall|j: int| 0 <= j < head.len() ==> head[j] != '\n');
    lemma_env_line("PESU_USERNAME"@, u);
    lemma_env_line("PESU_PASSWORD"@, p);
    lemma_lines_cons(c, Seq::<char>::empty());
    lemma_lines_cons(b, c + nl + Seq::<char>::empty());
    lemma_lines_cons(head, b + nl + (c + nl + Seq::<char>::empty()));
    assert(lines(Seq::<char>::empty()) == Seq::<Seq<char>>::empty());
    assert(strip_cr(head) == head);
    let ls = seq![head, b, c];
    assert(lines(env_file_text(cfg)) =~= ls);
    lemma_trim_unchanged(head);
    assert(head.subrange(0, 1) =~= "#"@);
    assert(env_assignment(head) is None);
    assert(ls.drop_last() =~= seq![head, b]);
    assert(seq![head, b].drop_last() =~= seq![head]);
    assert(seq![head].drop_last() =~= Seq::<Seq<char>>::empty());
    assert("PESU_PASSWORD"@[5] != "PESU_USERNAME"@[5]);
    assert("PESU_PASSWORD"@ != "PESU_USERNAME"@);
    assert(env_credentials(Seq::<Seq<char>>::empty()) == (None::<Seq<char>>, None::<Seq<char>>));
    assert(env_credentials(seq![head]) == (None::<Seq<char>>, None::<Seq<char>>));
    assert(env_credentials(seq![head, b]) == (Some(u), None::<Seq<char>>));
    assert(env_credentials(ls) == (Some(u), Some(p)));
}

/// The `.env` file among `files` (each given by its lines) that first sets
/// both a user name and a password, from position `i` on.
pub open spec fn first_env_credentials(files: Seq<Seq<Seq<char>>>, i: int) -> Option<(Seq<char>, Seq<char>)>
    decreases files.len() - i,
{
    if i < 0 || i >= files.len() {
        None
    } else {
        match env_credentials(files[i]) {
            (Some(u), Some(p)) => Some((u, p)),
            _ => first_env_credentials(files, i + 1),
        }
    }
}

/// The saved configuration: the JSON configuration when one was read;
/// otherwise the first `.env` file that sets both credentials; otherwise the
/// empty configuration.
pub open spec fn saved_config(cfg: &Config, json: Option<Config>, env_files: Seq<Seq<Seq<char>>>) -> bool {
    match json {
        Some(j) => *cfg == j,
        None => match first_env_credentials(env_files, 0) {
            Some((u, p)) => single_account(cfg, u, p),
            None => cfg.active_user is None && cfg.accounts@ == Map::<Seq<char>, Seq<char>>::empty()
                && cfg.preferred_ssid is None,
        },
    }
}

/// The accounts of the saved configuration (see [`saved_config`]).
pub open spec fn saved_accounts(json: Option<Config>, env_files: Seq<Seq<Seq<char>>>) -> Map<Seq<char>, Seq<char>> {
    match json {
        Some(j) => j.accounts@,
        None => match first_env_credentials(env_files, 0) {
            Some((u, p)) => Map::<Seq<char>, Seq<char>>::empty().insert(u, p),
            None => Map::<Seq<char>, Seq<char>>::empty(),
        },
    }
}

/// The preferred connection of the saved configuration.
pub open spec fn saved_preferred(json: Option<Config>) -> Option<String> {
    match json {
        Some(j) => j.preferred_ssid,
        None => None,
    }
}

/// The configuration that is loaded. When `PESU_USERNAME` and `PESU_PASSWORD`
/// are both set and not empty they override the saved login: their account is
/// added to the saved accounts (replacing a saved password of that user) and
/// made active. Otherwise it is the saved configuration.
pub open spec fn loaded_config(
    cfg: &Config,
    json: Option<Config>,
    env_files: Seq<Seq<Seq<char>>>,
    env_user: Option<String>,
    env_password: Option<String>,
) -> bool {
    if nonempty_value(env_user) && nonempty_value(env_password) {
        &&& opt_text(cfg.active_user) == Some(env_user->0@)
        &&& cfg.accounts@ == saved_accounts(json, env_files).insert(env_user->0@, env_password->0@)
        &&& cfg.preferred_ssid == saved_preferred(json)
    } else {
        saved_config(cfg, json, env_files)
    }
}

/// What is saved is what is loaded back: when the JSON configuration read
/// back is the configuration `saved` that was written, and the environment
/// variables do not override the login, the loaded configuration is `saved`,
/// with its accounts, active account and preferred connection.
pub proof fn lemma_saved_json_is_loaded(
    cfg: &Config,
    saved: Config,
    env_files: Seq<Seq<Seq<char>>>,
    env_user: Option<String>,
    env_password: Option<String>,
)
    requires
        loaded_config(cfg, Some(saved), env_files, env_user, env_password),
        !(nonempty_value(env_user) && nonempty_value(env_password)),
    ensures
        *cfg == saved,
        cfg.accounts@ == saved.accounts@,
        opt_text(cfg.active_user) == opt_text(saved.active_user),
{
}

/// The lines of each file, as texts.
pub open spec fn files_text(files: Seq<Vec<String>>) -> Seq<Seq<Seq<char>>> {
    files.map_values(|f: Vec<String>| f@.map_values(|l: String| l@))
}

/// Picks the saved configuration from what was found: `json` is the first
/// JSON configuration that could be read, `env_files` the lines of each
/// readable `.env` candidate in order.
pub fn load_saved_config(json: Option<Config>, env_files: &Vec<Vec<String>>) -> (cfg: Config)
    ensures
        saved_config(&cfg, json, files_text(env_files@)),
{
    let ghost j = json;
    if json.is_some() {
        return json.unwrap();
    }
    let ghost files = files_text(env_files@);
    let mut i: usize = 0;
    while i < env_files.len()
        invariant
            i <= env_files@.len(),
            files == files_text(env_files@),
            j is None,
            j == json,
            first_env_credentials(files, 0) == first_env_credentials(files, i as int),
        decreases env_files@.len() - i,
    {
        assert(files[i as int] == env_files@[i as int]@.map_values(|l: String| l@));
        match config_from_env_lines(&env_files[i]) {
            Some(c) => {
                return c;
            },
            None => {},
        }
        i = i + 1;
    }
    Config::default()
}

/// Picks the configuration to use: the saved one (see [`load_saved_config`]),
/// with the login of the environment variables `PESU_USERNAME` and
/// `PESU_PASSWORD` made active when both are set and not empty.
pub fn load_config(
    json: Option<Config>,
    env_files: &Vec<Vec<String>>,
    env_user: Option<String>,
    env_password: Option<String>,
) -> (cfg: Config)
    ensures
        loaded_config(&cfg, json, files_text(env_files@), env_user, env_password),
{
    let ghost j = json;
    let mut cfg = load_saved_config(json, env_files);
    match (env_user, env_password) {
        (Some(u), Some(p)) => {
            if !u.as_str().is_empty() && !p.as_str().is_empty() {
                cfg.accounts.insert(u.clone(), p);
                cfg.active_user = Some(u);
            }
        },
        _ => {},
    }
    cfg
}

// ---------------------------------------------------------------------------
// Account operations
// ---------------------------------------------------------------------------

/// Why an account operation was refused.
pub enum AccountError {
    /// The user name is empty (after trimming).
    EmptyUsername,
    /// The password is empty (after trimming).
    EmptyPassword,
    /// No account of that name is saved.
    NotFound,
    /// No account is saved at all.
    NoAccounts,
}

/// Saves (or updates) the account `username` with `password`, both trimmed,
/// and makes it active. Returns whether the account already existed.
pub fn add_account(cfg: &mut Config, username: &str, password: &str) -> (r: Result<bool, AccountError>)
    ensures
        trim(username@).len() == 0 ==> r matches Err(AccountError::EmptyUsername),
        trim(username@).len() > 0 && trim(password@).len() == 0 ==> r matches Err(
            AccountError::EmptyPassword,
        ),
        r is Err ==> *final(cfg) == *old(cfg),
        trim(username@).len() > 0 && trim(password@).len() > 0 ==> {
            &&& r == Ok::<bool, AccountError>(old(cfg).accounts@.contains_key(trim(username@)))
            &&& final(cfg).accounts@ == old(cfg).accounts@.insert(trim(username@), trim(password@))
            &&& opt_text(final(cfg).active_user) == Some(trim(username@))
            &&& final(cfg).preferred_ssid == old(cfg).preferred_ssid
        },
{
    let u = trim_str(username);
    let p = trim_str(password);
    if u.len() == 0 {
        return Err(AccountError::EmptyUsername);
    }
    if p.len() == 0 {
        return Err(AccountError::EmptyPassword);
    }
    let user = string_of(&u);
    let existed = cfg.accounts.contains_key(&user);
    cfg.accounts.insert(user.clone(), string_of(&p));
    cfg.active_user = Some(user);
    Ok(existed)
}

/// Deletes the account `username` (trimmed). When it was the active account,
/// the first remaining account becomes active (or none). Returns the account
/// that became active in its place, if any.
pub fn remove_account(cfg: &mut Config, username: &str) -> (r: Result<Option<String>, AccountError>)
    ensures
        trim(username@).len() == 0 ==> r matches Err(AccountError::EmptyUsername),
        trim(username@).len() > 0 && !old(cfg).accounts@.contains_key(trim(username@)) ==> r matches Err(
            AccountError::NotFound,
        ),
        r is Err ==> *final(cfg) == *old(cfg),
        trim(username@).len() > 0 && old(cfg).accounts@.contains_key(trim(username@)) ==> {
            &&& r is Ok
            &&& final(cfg).accounts@ == old(cfg).accounts@.remove(trim(username@))
            &&& final(cfg).preferred_ssid == old(cfg).preferred_ssid
            &&& if opt_text(old(cfg).active_user) == Some(trim(username@)) {
                &&& opt_text(final(cfg).active_user) == if final(cfg).accounts.key_order().len() > 0 {
                    Some(final(cfg).accounts.key_order()[0])
                } else {
                    None
                }
                &&& opt_text(r->Ok_0) == opt_text(final(cfg).active_user)
                &&& (final(cfg).active_user matches Some(a) ==> final(cfg).accounts@.contains_key(a@))
            } else {
                &&& final(cfg).active_user == old(cfg).active_user
                &&& r->Ok_0 is None
            }
        },
{
    let u = trim_str(username);
    if u.len() == 0 {
        return Err(AccountError::EmptyUsername);
    }
    let user = string_of(&u);
    if !cfg.accounts.contains_key(&user) {
        return Err(AccountError::NotFound);
    }
    cfg.accounts.remove(&user);
    let was_active = match &cfg.active_user {
        Some(a) => *a == user,
        None => false,
    };
    if was_active {
        let next = if cfg.accounts.len() > 0 {
            let (k, _) = cfg.accounts.entry_at(0);
            Some(k.clone())
        } else {
            None
        };
        cfg.active_user = next.clone();
        Ok(next)
    } else {
        Ok(None)
    }
}

/// Makes the saved account `username` (trimmed) the active one.
pub fn select_account(cfg: &mut Config, username: &str) -> (r: Result<(), AccountError>)
    ensures
        old(cfg).accounts@.dom().len() == 0 ==> r matches Err(AccountError::NoAccounts),
        old(cfg).accounts@.dom().len() > 0 && !old(cfg).accounts@.contains_key(trim(username@))
            ==> r matches Err(AccountError::NotFound),
        r is Err ==> *final(cfg) == *old(cfg),
        old(cfg).accounts@.dom().len() > 0 && old(cfg).accounts@.contains_key(trim(username@)) ==> {
            &&& r is Ok
            &&& opt_text(final(cfg).active_user) == Some(trim(username@))
            &&& final(cfg).accounts == old(cfg).accounts
            &&& final(cfg).preferred_ssid == old(cfg).preferred_ssid
        },
{
    if cfg.accounts.is_empty() {
        return Err(AccountError::NoAccounts);
    }
    let user = string_of(&trim_str(username));
    if !cfg.accounts.contains_key(&user) {
        return Err(AccountError::NotFound);
    }
    cfg.active_user = Some(user);
    Ok(())
}

/// What an interactive choice names: a number from 1 to the number of
/// listed users picks that user, anything else is taken as a user name.
pub open spec fn chosen_user(choice: Seq<char>, users: Seq<Seq<char>>) -> Seq<char> {
    let c = trim(choice);
    match crate::text::parse_unsigned(c, usize::MAX as nat) {
        Some(n) => if 1 <= n <= users.len() {
            users[n - 1]
        } else {
            c
        },
        None => c,
    }
}

/// Resolves the answer to the account menu against the listed users.
pub fn resolve_selection(choice: &str, users: &Vec<String>) -> (r: String)
    ensures
        r@ == chosen_user(choice@, users@.map_values(|u: String| u@)),
{
    let c = trim_str(choice);
    match crate::text::parse_unsigned_exec(&c, usize::MAX as u64) {
        Some(n) => {
            if n >= 1 && n <= users.len() as u64 {
                users[(n - 1) as usize].clone()
            } else {
                string_of(&c)
            }
        },
        None => string_of(&c),
    }
}


// ---------------------------------------------------------------------------
// Laws of the account store
// ---------------------------------------------------------------------------

/// An account just saved (and made active) is what the active credentials
/// and the per-account lookup give back.
pub proof fn lemma_saved_account_is_used(cfg: &Config, user: Seq<char>, password: Seq<char>)
    requires
        cfg.accounts@.contains_key(user),
        cfg.accounts@[user] == password,
        opt_text(cfg.active_user) == Some(user),
    ensures
        active_credentials(cfg) == (Some(user), Some(password)),
{
}

/// Saving an account leaves every other account as it was, and makes that
/// account's credentials the active ones.
pub proof fn lemma_add_keeps_others(before: Map<Seq<char>, Seq<char>>, user: Seq<char>, password: Seq<char>, other: Seq<char>)
    requires
        other != user,
    ensures
        before.insert(user, password).contains_key(other) == before.contains_key(other),
        before.contains_key(other) ==> before.insert(user, password)[other] == before[other],
        before.insert(user, password)[user] == password,
{
}

/// After an account is deleted, nothing gives its password back any more, and
/// the active account is one that is still saved (or there is none).
pub proof fn lemma_removed_account_is_gone(cfg: &Config, user: Seq<char>)
    requires
        !cfg.accounts@.contains_key(user),
        cfg.accounts.key_order().len() > 0 ==> cfg.accounts@.contains_key(cfg.accounts.key_order()[0]),
    ensures
        active_credentials(cfg).0 != Some(user),
{
}

} // verus!
