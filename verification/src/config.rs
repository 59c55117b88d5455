//! Atomic loading and validation of Villain's effective configuration.
//!
//! Reading files is left to the caller: the configuration document is handed
//! in already parsed (its compositor projection), and the environment file is
//! handed in as what reading it gave. Everything decided from those values is
//! here.
use vstd::prelude::*;

use crate::environment::{
    default_environment, default_environment_spec, parse_environment, parse_environment_spec,
    EnvironmentMap,
};
use crate::text::{
    chars_of, debug_quoted, debug_string, decimal_spec, push_chars, push_decimal, push_str,
    string_from_chars,
};

verus! {

/// Touchpad policy.
#[derive(Clone, Copy, Debug, PartialEq, Eq, Structural)]
pub struct InputConfig {
    pub tap_to_click: bool,
    pub natural_scroll: bool,
}

impl Default for InputConfig {
    /// Tap-to-click and natural scrolling are on unless configured off.
    fn default() -> (c: Self)
        ensures
            c.tap_to_click,
            c.natural_scroll,
    {
        InputConfig { tap_to_click: true, natural_scroll: true }
    }
}

/// One configured key binding.
#[derive(Debug)]
pub struct BindSpec {
    pub keys: String,
    pub dispatch: String,
    pub args: Vec<String>,
}

/// The key bindings in effect: if any bindings are configured they replace
/// the complete default set.
#[derive(Debug)]
pub enum Keybinds {
    /// The built-in binding set under the given modifier key.
    Defaults { modkey: String },
    /// Exactly the configured bindings under the given modifier key.
    Custom { modkey: String, bindings: Vec<BindSpec> },
}

/// The compositor projection of the configuration document.
#[derive(Debug)]
pub struct CompositorSettings {
    pub modkey: String,
    pub bind: Vec<BindSpec>,
    pub environment_file: Option<String>,
    pub input: InputConfig,
}

/// What reading a file gave: its contents, or the error's message.
#[derive(Debug)]
pub enum FileRead {
    Contents(String),
    NotFound(String),
    Failed(String),
}

/// Why a configuration could not be loaded: a message for the user.
#[derive(Debug)]
pub struct ConfigError(pub String);

impl ConfigError {
    /// The message (what the error displays).
    pub fn message(&self) -> (m: String)
        ensures
            m@ == self.0@,
    {
        self.0.clone()
    }
}

/// Where the environment file is looked for, and whether it must exist.
#[derive(Debug)]
pub struct EnvironmentSource {
    pub path: String,
    pub required: bool,
}

/// The effective configuration.
#[derive(Debug)]
pub struct RuntimeConfig {
    pub input: InputConfig,
    pub keybinds: Keybinds,
    pub environment: EnvironmentMap,
    pub path: String,
}

/// `Path::parent` of a path, named: what std computes for it.
pub uninterp spec fn path_parent(path: Seq<char>) -> Option<Seq<char>>;

/// The parent directory of `path` (std's `Path::parent`); the result is
/// named `path_parent` and nothing more is claimed of it.
#[verifier::external_body]
fn parent_of(path: &String) -> (r: Option<String>)
    ensures
        match r {
            Some(p) => path_parent(path@) == Some(p@),
            None => path_parent(path@) is None,
        },
{
    std::path::Path::new(path).parent().map(|p| p.to_string_lossy().into_owned())
}

/// A Unix path is absolute when it starts with `/`.
pub open spec fn is_absolute_spec(p: Seq<char>) -> bool {
    p.len() > 0 && p[0] == '/'
}

/// `base` joined with `p` as `PathBuf::join` does on Unix: an absolute `p`
/// replaces `base`; otherwise one separator is put between them unless
/// `base` is empty or already ends with one.
pub open spec fn path_join_spec(base: Seq<char>, p: Seq<char>) -> Seq<char> {
    if is_absolute_spec(p) {
        p
    } else if base.len() > 0 && base.last() != '/' {
        base + seq!['/'] + p
    } else {
        base + p
    }
}

pub fn path_join(base: &Vec<char>, p: &Vec<char>) -> (r: Vec<char>)
    ensures
        r@ == path_join_spec(base@, p@),
{
    let mut out: Vec<char> = Vec::new();
    if p.len() > 0 && p[0] == '/' {
        push_chars(&mut out, p);
        return out;
    }
    push_chars(&mut out, base);
    if base.len() > 0 && base[base.len() - 1] != '/' {
        out.push('/');
    }
    push_chars(&mut out, p);
    out
}

pub open spec fn starts_with_tilde_slash(v: Seq<char>) -> bool {
    v.len() >= 2 && v[0] == '~' && v[1] == '/'
}

/// A configured path: `~` and `~/...` are taken from `home`; an absolute
/// path stands as it is; a relative one is relative to `base` (or `.`).
pub open spec fn resolve_spec(value: Seq<char>, base: Option<Seq<char>>, home: Option<Seq<char>>) -> Result<
    Seq<char>,
    Seq<char>,
> {
    if value == seq!['~'] || starts_with_tilde_slash(value) {
        match home {
            None => Err("HOME is not set; cannot expand ~"@),
            Some(h) => if value == seq!['~'] {
                Ok(h)
            } else {
                Ok(path_join_spec(h, value.skip(2)))
            },
        }
    } else if is_absolute_spec(value) {
        Ok(value)
    } else {
        Ok(
            path_join_spec(
                match base {
                    Some(b) => b,
                    None => seq!['.'],
                },
                value,
            ),
        )
    }
}

pub open spec fn opt_view(o: Option<String>) -> Option<Seq<char>> {
    match o {
        Some(s) => Some(s@),
        None => None,
    }
}

/// Resolve a configured path against `base` and `home`.
pub fn resolve_path(value: &String, base: &Option<String>, home: &Option<String>) -> (r: Result<
    String,
    ConfigError,
>)
    ensures
        match resolve_spec(value@, opt_view(*base), opt_view(*home)) {
            Ok(p) => r matches Ok(s) && s@ == p,
            Err(m) => r matches Err(e) && e.0@ == m,
        },
{
    let v = chars_of(value.as_str());
    let is_tilde = v.len() == 1 && v[0] == '~';
    assert(is_tilde == (v@ == seq!['~'])) by {
        if v@ == seq!['~'] {
            assert(v@[0] == '~');
        }
        if is_tilde {
            assert(v@ =~= seq!['~']);
        }
    }
    if is_tilde || (v.len() >= 2 && v[0] == '~' && v[1] == '/') {
        match home {
            None => {
                return Err(ConfigError(String::from_str("HOME is not set; cannot expand ~")));
            },
            Some(h) => {
                if is_tilde {
                    return Ok(h.clone());
                }
                let hv = chars_of(h.as_str());
                let mut rest: Vec<char> = Vec::new();
                let mut i: usize = 2;
                while i < v.len()
                    invariant
                        2 <= i <= v@.len(),
                        rest@ == v@.subrange(2, i as int),
                    decreases v@.len() - i,
                {
                    rest.push(v[i]);
                    assert(rest@ =~= v@.subrange(2, i + 1));
                    i = i + 1;
                }
                assert(rest@ =~= v@.skip(2));
                let joined = path_join(&hv, &rest);
                return Ok(string_from_chars(&joined));
            },
        }
    }
    if v.len() > 0 && v[0] == '/' {
        return Ok(value.clone());
    }
    let b = match base {
        Some(b) => chars_of(b.as_str()),
        None => {
            let mut dot: Vec<char> = Vec::new();
            dot.push('.');
            assert(dot@ =~= seq!['.']);
            dot
        },
    };
    let joined = path_join(&b, &v);
    Ok(string_from_chars(&joined))
}

pub open spec fn environment_name() -> Seq<char> {
    seq!['e', 'n', 'v', 'i', 'r', 'o', 'n', 'm', 'e', 'n', 't']
}

/// Where the environment file of the configuration at `path` is: the
/// configured `environment_file` (required), else `environment` beside the
/// configuration file (optional).
pub open spec fn source_spec(
    path: Seq<char>,
    environment_file: Option<Seq<char>>,
    home: Option<Seq<char>>,
) -> Result<(Seq<char>, bool), Seq<char>> {
    let parent = path_parent(path);
    match environment_file {
        Some(v) => match resolve_spec(v, parent, home) {
            Ok(p) => Ok((p, true)),
            Err(m) => Err(m),
        },
        None => Ok(
            (
                path_join_spec(
                    match parent {
                        Some(p) => p,
                        None => seq!['.'],
                    },
                    environment_name(),
                ),
                false,
            ),
        ),
    }
}

/// The environment that results from reading the environment file.
pub open spec fn environment_spec(source: Seq<char>, required: bool, read: FileRead) -> Result<
    Map<Seq<char>, Seq<char>>,
    Seq<char>,
> {
    match read {
        FileRead::Contents(c) => {
            let (m, err) = parse_environment_spec(c@, source, default_environment_spec());
            match err {
                None => Ok(m),
                Some(msg) => Err(msg),
            }
        },
        FileRead::NotFound(e) => if !required {
            Ok(default_environment_spec())
        } else {
            Err("could not read "@ + source + ": "@ + e@)
        },
        FileRead::Failed(e) => Err("could not read "@ + source + ": "@ + e@),
    }
}

/// The key bindings that the settings select.
pub open spec fn keybinds_spec(modkey: String, bind: Vec<BindSpec>) -> Keybinds {
    if bind@.len() == 0 {
        Keybinds::Defaults { modkey }
    } else {
        Keybinds::Custom { modkey, bindings: bind }
    }
}

/// A modifier key that a binding set can be built on.
pub open spec fn is_modifier_key(k: Seq<char>) -> bool {
    k == "Super"@ || k == "Alt"@ || k == "Ctrl"@ || k == "Shift"@
}

/// A binding that names no keys or no command.
pub open spec fn incomplete_binding(b: BindSpec) -> bool {
    b.keys@.len() == 0 || b.dispatch@.len() == 0
}

/// The index of the first incomplete binding, or the number of bindings.
pub open spec fn first_incomplete(bind: Seq<BindSpec>) -> int
    decreases bind.len(),
{
    if bind.len() == 0 {
        0
    } else if incomplete_binding(bind[0]) {
        0
    } else {
        1 + first_incomplete(bind.drop_first())
    }
}

pub proof fn lemma_first_incomplete(bind: Seq<BindSpec>)
    ensures
        0 <= first_incomplete(bind) <= bind.len(),
        first_incomplete(bind) < bind.len() ==> incomplete_binding(bind[first_incomplete(bind)]),
        forall|j: int| 0 <= j < first_incomplete(bind) ==> !incomplete_binding(#[trigger] bind[j]),
    decreases bind.len(),
{
    if bind.len() > 0 && !incomplete_binding(bind[0]) {
        lemma_first_incomplete(bind.drop_first());
        assert forall|j: int| 0 <= j < first_incomplete(bind) implies !incomplete_binding(#[trigger] bind[j]) by {
            if j > 0 {
                assert(bind[j] == bind.drop_first()[j - 1]);
            }
        }
    }
}

/// Why the key bindings of the settings cannot be built: a modifier key
/// that is not one, or a binding (numbered from one) without keys or
/// without a command.
pub open spec fn keybinds_error(modkey: Seq<char>, bind: Seq<BindSpec>) -> Option<Seq<char>> {
    if !is_modifier_key(modkey) {
        Some("invalid modifier key "@ + debug_quoted(modkey))
    } else if first_incomplete(bind) < bind.len() {
        Some("key binding "@ + decimal_spec((first_incomplete(bind) + 1) as nat)
            + ": keys and dispatch must not be empty"@)
    } else {
        None
    }
}

/// Whether `a` and `b` hold the same characters.
fn same_chars(a: &Vec<char>, b: &Vec<char>) -> (r: bool)
    ensures
        r == (a@ == b@),
{
    if a.len() != b.len() {
        return false;
    }
    let mut i: usize = 0;
    while i < a.len()
        invariant
            i <= a@.len(),
            a@.len() == b@.len(),
            forall|j: int| 0 <= j < i ==> a@[j] == b@[j],
        decreases a@.len() - i,
    {
        if a[i] != b[i] {
            return false;
        }
        i = i + 1;
    }
    assert(a@ =~= b@);
    true
}

impl Keybinds {
    /// Build the key bindings of the settings: the defaults under `modkey`
    /// when no binding is configured, else exactly the configured ones. The
    /// modifier key must be `Super`, `Alt`, `Ctrl` or `Shift`, and every
    /// binding must name keys and a command.
    pub fn build(modkey: String, bind: Vec<BindSpec>) -> (r: Result<Keybinds, ConfigError>)
        ensures
            match keybinds_error(modkey@, bind@) {
                Some(m) => r matches Err(e) && e.0@ == m,
                None => r == Ok::<Keybinds, ConfigError>(keybinds_spec(modkey, bind)),
            },
    {
        let k = chars_of(modkey.as_str());
        proof {
            reveal_strlit("Super");
            reveal_strlit("Alt");
            reveal_strlit("Ctrl");
            reveal_strlit("Shift");
        }
        let super_key = chars_of("Super");
        let alt_key = chars_of("Alt");
        let ctrl_key = chars_of("Ctrl");
        let shift_key = chars_of("Shift");
        let known = same_chars(&k, &super_key) || same_chars(&k, &alt_key) || same_chars(&k, &ctrl_key)
            || same_chars(&k, &shift_key);
        if !known {
            let mut text: Vec<char> = Vec::new();
            push_str(&mut text, "invalid modifier key ");
            let quoted = debug_string(&k);
            push_chars(&mut text, &quoted);
            return Err(ConfigError(string_from_chars(&text)));
        }
        proof {
            lemma_first_incomplete(bind@);
        }
        let mut i: usize = 0;
        while i < bind.len()
            invariant
                i <= bind@.len(),
                forall|j: int| 0 <= j < i ==> !incomplete_binding(#[trigger] bind@[j]),
                is_modifier_key(modkey@),
                0 <= first_incomplete(bind@) <= bind@.len(),
                first_incomplete(bind@) < bind@.len() ==> incomplete_binding(bind@[first_incomplete(bind@)]),
                forall|j: int| 0 <= j < first_incomplete(bind@) ==> !incomplete_binding(#[trigger] bind@[j]),
            decreases bind@.len() - i,
        {
            let keys = chars_of(bind[i].keys.as_str());
            let dispatch = chars_of(bind[i].dispatch.as_str());
            if keys.len() == 0 || dispatch.len() == 0 {
                proof {
                    if first_incomplete(bind@) != i {
                        assert(incomplete_binding(bind@[first_incomplete(bind@)]));
                    }
                }
                let mut text: Vec<char> = Vec::new();
                push_str(&mut text, "key binding ");
                push_decimal(&mut text, i as u64 + 1);
                push_str(&mut text, ": keys and dispatch must not be empty");
                return Err(ConfigError(string_from_chars(&text)));
            }
            i = i + 1;
        }
        proof {
            if first_incomplete(bind@) < bind@.len() {
                assert(!incomplete_binding(bind@[first_incomplete(bind@)]));
            }
        }
        if bind.len() == 0 {
            Ok(Keybinds::Defaults { modkey })
        } else {
            Ok(Keybinds::Custom { modkey, bindings: bind })
        }
    }
}

/// The outcome of loading the configuration at `path` from a document read
/// as `settings`, with `home` for `~`, and the environment file read as
/// `read`: the environment, or the error message.
pub open spec fn load_spec(
    path: Seq<char>,
    settings: Result<CompositorSettings, String>,
    home: Option<Seq<char>>,
    read: FileRead,
) -> Result<Map<Seq<char>, Seq<char>>, Seq<char>> {
    match settings {
        Err(m) => Err(m@),
        Ok(s) => match keybinds_error(s.modkey@, s.bind@) {
            Some(m) => Err(m),
            None => match source_spec(path, opt_view(s.environment_file), home) {
                Err(m) => Err(m),
                Ok((source, required)) => environment_spec(source, required, read),
            },
        },
    }
}

impl RuntimeConfig {
    /// The file this configuration was loaded from.
    pub fn path(&self) -> (p: &String)
        ensures
            p@ == self.path@,
    {
        &self.path
    }

    pub open spec fn path_view(&self) -> Seq<char> {
        self.path@
    }

    /// This configuration is the one loaded from `path` with `settings`,
    /// giving the environment `env`.
    pub open spec fn loaded_from(
        &self,
        path: Seq<char>,
        settings: Result<CompositorSettings, String>,
        env: Map<Seq<char>, Seq<char>>,
    ) -> bool {
        &&& self.environment@ == env
        &&& self.path@ == path
        &&& settings matches Ok(s)
        &&& self.input == s.input
        &&& self.keybinds == keybinds_spec(s.modkey, s.bind)
    }

    /// Where to read the environment file for the configuration at `path`.
    pub fn environment_source(
        path: &String,
        environment_file: &Option<String>,
        home: &Option<String>,
    ) -> (r: Result<EnvironmentSource, ConfigError>)
        ensures
            match source_spec(path@, opt_view(*environment_file), opt_view(*home)) {
                Ok((p, req)) => r matches Ok(s) && s.path@ == p && s.required == req,
                Err(m) => r matches Err(e) && e.0@ == m,
            },
    {
        let parent = parent_of(path);
        match environment_file {
            Some(value) => {
                let p = resolve_path(value, &parent, home)?;
                Ok(EnvironmentSource { path: p, required: true })
            },
            None => {
                let base = match &parent {
                    Some(p) => chars_of(p.as_str()),
                    None => {
                        let mut dot: Vec<char> = Vec::new();
                        dot.push('.');
                        assert(dot@ =~= seq!['.']);
                        dot
                    },
                };
                let name = chars_of("environment");
                proof {
                    reveal_strlit("environment");
                }
                assert(name@ =~= environment_name());
                let joined = path_join(&base, &name);
                Ok(EnvironmentSource { path: string_from_chars(&joined), required: false })
            },
        }
    }

    /// Load the configuration at `path`. `settings` is the configuration
    /// document's compositor projection (or why the document did not load),
    /// `home` expands `~`, and `read` is what reading the file that
    /// `environment_source` names gave. Nothing is returned unless every
    /// part validates.
    pub fn load_from(
        path: String,
        settings: Result<CompositorSettings, String>,
        home: Option<String>,
        read: FileRead,
    ) -> (r: Result<Self, ConfigError>)
        ensures
            match load_spec(path@, settings, opt_view(home), read) {
                Ok(env) => r matches Ok(c) && c.loaded_from(path@, settings, env),
                Err(m) => r matches Err(e) && e.0@ == m,
            },
    {
        let settings = match settings {
            Ok(s) => s,
            Err(message) => return Err(ConfigError(message)),
        };
        let keybinds = Keybinds::build(settings.modkey, settings.bind)?;
        let source = Self::environment_source(&path, &settings.environment_file, &home)?;
        let mut environment = default_environment();
        match read {
            FileRead::Contents(contents) => {
                parse_environment(contents.as_str(), source.path.as_str(), &mut environment)?;
            },
            FileRead::NotFound(error) => {
                if source.required {
                    return Err(Self::read_error(&source.path, &error));
                }
            },
            FileRead::Failed(error) => {
                return Err(Self::read_error(&source.path, &error));
            },
        }
        Ok(RuntimeConfig { input: settings.input, keybinds, environment, path })
    }

    fn read_error(source: &String, error: &String) -> (e: ConfigError)
        ensures
            e.0@ == "could not read "@ + source@ + ": "@ + error@,
    {
        let mut text: Vec<char> = Vec::new();
        push_str(&mut text, "could not read ");
        push_str(&mut text, source.as_str());
        push_str(&mut text, ": ");
        push_str(&mut text, error.as_str());
        ConfigError(string_from_chars(&text))
    }

    /// Load a replacement from the same file. The current configuration is
    /// left as it is; the caller applies the replacement only when it loaded.
    pub fn reload(
        &self,
        settings: Result<CompositorSettings, String>,
        home: Option<String>,
        read: FileRead,
    ) -> (r: Result<Self, ConfigError>)
        ensures
            match load_spec(self.path@, settings, opt_view(home), read) {
                Ok(env) => r matches Ok(c) && c.loaded_from(self.path@, settings, env),
                Err(m) => r matches Err(e) && e.0@ == m,
            },
    {
        Self::load_from(self.path.clone(), settings, home, read)
    }
}

} // verus!
