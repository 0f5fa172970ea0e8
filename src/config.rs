//! Configuration precedence: command line over environment over the config
//! file over built-in defaults. Reading the environment and the file is the
//! caller's; these functions decide from the values read.
use crate::generator::GenPolicy;
use crate::session::str_eq;
use vstd::prelude::*;

verus! {

/// Why the configuration cannot name a vault.
#[derive(Debug, PartialEq, Eq)]
pub enum ConfigError {
    /// The profile asked for is not defined.
    UnknownProfile(String),
    /// The profile is defined without a vault path.
    InvalidProfile(String),
}

/// A profile as the config file holds it.
pub struct FileProfileConfig {
    pub vault_path: String,
}

/// The config file's settings; every one is optional.
pub struct FileConfig {
    pub vault_path: Option<String>,
    pub clipboard_ttl: Option<u64>,
    pub backups: Option<usize>,
    pub generator_length: Option<u16>,
    pub generator_words: Option<u16>,
    pub generator_sep: Option<String>,
    pub avoid_ambiguous: Option<bool>,
    pub default_profile: Option<String>,
    /// Named profiles, looked up by the first matching name.
    pub profiles: Vec<(String, FileProfileConfig)>,
}

/// The settings read from the environment, already parsed.
pub struct EnvSettings {
    pub vault_path: Option<String>,
    pub clipboard_ttl: Option<u64>,
    pub backups: Option<usize>,
    pub generator_length: Option<u16>,
    pub generator_words: Option<u16>,
    pub generator_sep: Option<String>,
    pub avoid_ambiguous: Option<bool>,
}

/// The resolved configuration.
pub struct Config {
    pub vault_path: String,
    pub clipboard_ttl: Option<u64>,
    pub backups: Option<usize>,
    pub generator_length: Option<u16>,
    pub generator_words: Option<u16>,
    pub generator_sep: Option<String>,
    pub avoid_ambiguous: Option<bool>,
    pub default_profile: Option<String>,
}

/// Options of the add command that shape a generated password.
pub struct AddOptions {
    pub generate: bool,
    pub length: Option<u16>,
    pub no_lower: bool,
    pub no_upper: bool,
    pub no_digits: bool,
    pub no_symbols: bool,
    pub allow_ambiguous: bool,
    pub passphrase: bool,
    pub words: Option<u16>,
    pub sep: Option<String>,
    pub label: Option<String>,
    pub user: Option<String>,
    pub notes: Option<String>,
}

pub open spec fn profile_names(p: Seq<(String, FileProfileConfig)>) -> Seq<Seq<char>> {
    p.map_values(|e: (String, FileProfileConfig)| e.0@)
}

/// The vault path of the first profile called `name`.
pub open spec fn profile_path(p: Seq<(String, FileProfileConfig)>, name: Seq<char>) -> Option<Seq<char>>
    decreases p.len(),
{
    if p.len() == 0 {
        None
    } else if p[0].0@ == name {
        Some(p[0].1.vault_path@)
    } else {
        profile_path(p.drop_first(), name)
    }
}

pub open spec fn opt_view(o: Option<String>) -> Option<Seq<char>> {
    match o {
        Some(s) => Some(s@),
        None => None,
    }
}

/// The vault path by precedence: the command-line path; the command-line
/// profile (an unknown one is an error); the environment; the default
/// profile of the file, when it is defined; the file's path; the platform
/// default.
pub open spec fn vault_path_choice(
    cli_path: Option<Seq<char>>,
    cli_profile: Option<Seq<char>>,
    env_path: Option<Seq<char>>,
    file_path: Option<Seq<char>>,
    default_profile: Option<Seq<char>>,
    profiles: Seq<(String, FileProfileConfig)>,
    fallback: Seq<char>,
) -> Result<Seq<char>, Seq<char>> {
    if cli_path is Some {
        Ok(cli_path->0)
    } else if cli_profile is Some {
        match profile_path(profiles, cli_profile->0) {
            Some(p) => Ok(p),
            None => Err(cli_profile->0),
        }
    } else if env_path is Some {
        Ok(env_path->0)
    } else if default_profile is Some && profile_path(profiles, default_profile->0) is Some {
        Ok(profile_path(profiles, default_profile->0)->0)
    } else if file_path is Some {
        Ok(file_path->0)
    } else {
        Ok(fallback)
    }
}

/// The vault path of the first profile called `name`.
pub fn find_profile(profiles: &Vec<(String, FileProfileConfig)>, name: &str) -> (r: Option<String>)
    ensures
        opt_view(r) == profile_path(profiles@, name@),
{
    let mut i: usize = 0;
    assert(profiles@.subrange(0, profiles@.len() as int) =~= profiles@);
    while i < profiles.len()
        invariant
            i <= profiles@.len(),
            profile_path(profiles@, name@) == profile_path(profiles@.subrange(i as int, profiles@.len() as int), name@),
        decreases profiles@.len() - i,
    {
        let ghost rest = profiles@.subrange(i as int, profiles@.len() as int);
        assert(rest.drop_first() =~= profiles@.subrange(i as int + 1, profiles@.len() as int));
        if str_eq(profiles[i].0.as_str(), name) {
            return Some(profiles[i].1.vault_path.clone());
        }
        i = i + 1;
    }
    None
}

fn clone_opt(o: &Option<String>) -> (r: Option<String>)
    ensures
        opt_view(r) == opt_view(*o),
{
    match o {
        Some(s) => Some(s.clone()),
        None => None,
    }
}

/// Resolve the vault path by precedence.
pub fn resolve_vault_path(
    cli_path: Option<String>,
    cli_profile: Option<&str>,
    env: &EnvSettings,
    file_cfg: &FileConfig,
    fallback: String,
) -> (r: Result<String, ConfigError>)
    ensures
        ({
            let want = vault_path_choice(
                opt_view(cli_path),
                match cli_profile {
                    Some(p) => Some(p@),
                    None => None,
                },
                opt_view(env.vault_path),
                opt_view(file_cfg.vault_path),
                opt_view(file_cfg.default_profile),
                file_cfg.profiles@,
                fallback@,
            );
            match want {
                Ok(p) => r matches Ok(s) && s@ == p,
                Err(n) => r matches Err(ConfigError::UnknownProfile(m)) && m@ == n,
            }
        }),
{
    if let Some(p) = cli_path {
        return Ok(p);
    }
    if let Some(name) = cli_profile {
        return match find_profile(&file_cfg.profiles, name) {
            Some(p) => Ok(p),
            None => Err(ConfigError::UnknownProfile(String::from_str(name))),
        };
    }
    if let Some(p) = &env.vault_path {
        return Ok(p.clone());
    }
    if let Some(d) = &file_cfg.default_profile {
        if let Some(p) = find_profile(&file_cfg.profiles, d.as_str()) {
            return Ok(p);
        }
    }
    if let Some(p) = &file_cfg.vault_path {
        return Ok(p.clone());
    }
    Ok(fallback)
}

/// The first value present.
pub open spec fn first_some<T>(a: Option<T>, b: Option<T>) -> Option<T> {
    if a is Some {
        a
    } else {
        b
    }
}

fn or_u64(a: Option<u64>, b: Option<u64>) -> (r: Option<u64>)
    ensures
        r == first_some(a, b),
{
    if a.is_some() { a } else { b }
}

fn or_u16(a: Option<u16>, b: Option<u16>) -> (r: Option<u16>)
    ensures
        r == first_some(a, b),
{
    if a.is_some() { a } else { b }
}

fn or_usize(a: Option<usize>, b: Option<usize>) -> (r: Option<usize>)
    ensures
        r == first_some(a, b),
{
    if a.is_some() { a } else { b }
}

fn or_bool(a: Option<bool>, b: Option<bool>) -> (r: Option<bool>)
    ensures
        r == first_some(a, b),
{
    if a.is_some() { a } else { b }
}

impl Config {
    /// The configuration: the vault path by `resolve_vault_path`, every
    /// other setting from the environment, else the file.
    pub fn create(
        cli_path: Option<String>,
        cli_profile: Option<&str>,
        env: &EnvSettings,
        file_cfg: &FileConfig,
        fallback: String,
    ) -> (r: Result<Config, ConfigError>)
        ensures
            r matches Ok(c) ==> c.clipboard_ttl == first_some(env.clipboard_ttl, file_cfg.clipboard_ttl)
                && c.backups == first_some(env.backups, file_cfg.backups)
                && c.generator_length == first_some(env.generator_length, file_cfg.generator_length)
                && c.generator_words == first_some(env.generator_words, file_cfg.generator_words)
                && opt_view(c.generator_sep) == first_some(opt_view(env.generator_sep), opt_view(file_cfg.generator_sep))
                && c.avoid_ambiguous == first_some(env.avoid_ambiguous, file_cfg.avoid_ambiguous)
                && opt_view(c.default_profile) == opt_view(file_cfg.default_profile),
            ({
                let want = vault_path_choice(
                    opt_view(cli_path),
                    match cli_profile {
                        Some(p) => Some(p@),
                        None => None,
                    },
                    opt_view(env.vault_path),
                    opt_view(file_cfg.vault_path),
                    opt_view(file_cfg.default_profile),
                    file_cfg.profiles@,
                    fallback@,
                );
                match want {
                    Ok(p) => r matches Ok(c) && c.vault_path@ == p,
                    Err(n) => r matches Err(ConfigError::UnknownProfile(m)) && m@ == n,
                }
            }),
    {
        let vault_path = resolve_vault_path(cli_path, cli_profile, env, file_cfg, fallback)?;
        let generator_sep = if env.generator_sep.is_some() {
            clone_opt(&env.generator_sep)
        } else {
            clone_opt(&file_cfg.generator_sep)
        };
        Ok(Config {
            vault_path,
            clipboard_ttl: or_u64(env.clipboard_ttl, file_cfg.clipboard_ttl),
            backups: or_usize(env.backups, file_cfg.backups),
            generator_length: or_u16(env.generator_length, file_cfg.generator_length),
            generator_words: or_u16(env.generator_words, file_cfg.generator_words),
            generator_sep,
            avoid_ambiguous: or_bool(env.avoid_ambiguous, file_cfg.avoid_ambiguous),
            default_profile: clone_opt(&file_cfg.default_profile),
        })
    }
}

/// Clipboard lifetime in seconds: the override, else the environment, else
/// the configuration, else 20.
pub fn ttl_seconds(override_ttl: Option<u64>, env_ttl: Option<u64>, config: &Config) -> (r: u64)
    ensures
        r == match first_some(override_ttl, first_some(env_ttl, config.clipboard_ttl)) {
            Some(t) => t,
            None => 20,
        },
{
    match or_u64(override_ttl, or_u64(env_ttl, config.clipboard_ttl)) {
        Some(t) => t,
        None => 20,
    }
}

/// A warning when the clipboard is likely unavailable: over SSH, or with
/// no graphical display.
pub fn environment_warning(is_ssh: bool, headless: bool) -> (r: Option<&'static str>)
    ensures
        r is Some <==> is_ssh || headless,
{
    if is_ssh {
        return Some("Detected SSH session; clipboard may be unavailable. Consider --no-copy --echo");
    }
    if headless {
        return Some("No DISPLAY/WAYLAND detected; clipboard may be unavailable.");
    }
    None
}

/// The generator policy for the add command: passphrase settings (words,
/// separator) or character settings (length, classes, ambiguity) from the
/// options, else the configuration, else the defaults.
pub fn policy_from_options(opts: &AddOptions, config: &Config) -> (r: GenPolicy)
    ensures
        r.passphrase == opts.passphrase,
        opts.passphrase ==> r.words == match first_some(opts.words, config.generator_words) {
            Some(w) => w,
            None => 6,
        } && r.sep@ == match first_some(opt_view(opts.sep), opt_view(config.generator_sep)) {
            Some(s) => s,
            None => ":"@,
        },
        !opts.passphrase ==> r.length == match first_some(opts.length, config.generator_length) {
            Some(l) => l,
            None => 20,
        } && r.lower == !opts.no_lower && r.upper == !opts.no_upper && r.digits == !opts.no_digits
            && r.symbols == !opts.no_symbols && r.avoid_ambiguous == (!opts.allow_ambiguous && match config.avoid_ambiguous {
            Some(a) => a,
            None => true,
        }),
{
    let mut policy = GenPolicy::default();
    policy.passphrase = opts.passphrase;
    if opts.passphrase {
        policy.words = match or_u16(opts.words, config.generator_words) {
            Some(w) => w,
            None => 6,
        };
        policy.sep = match (&opts.sep, &config.generator_sep) {
            (Some(s), _) => s.clone(),
            (None, Some(s)) => s.clone(),
            (None, None) => String::from_str(":"),
        };
    } else {
        policy.length = match or_u16(opts.length, config.generator_length) {
            Some(l) => l,
            None => 20,
        };
        policy.lower = !opts.no_lower;
        policy.upper = !opts.no_upper;
        policy.digits = !opts.no_digits;
        policy.symbols = !opts.no_symbols;
        policy.avoid_ambiguous = if opts.allow_ambiguous {
            false
        } else {
            match config.avoid_ambiguous {
                Some(a) => a,
                None => true,
            }
        };
    }
    policy
}

} // verus!
