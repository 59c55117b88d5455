//! The session environment: what launched applications and the desktop's
//! activation services are told about this session.
use vstd::prelude::*;

use crate::config::{
    keybinds_spec, load_spec, opt_view, path_join, path_join_spec, CompositorSettings, FileRead, RuntimeConfig,
};
use crate::dispatch::DispatchError;
use crate::environment::{entries_map, keys_distinct, EnvironmentMap};
use crate::state::Villain;
use crate::text::{chars_of, decimal_spec, push_chars, push_decimal, push_str, string_from_chars};

verus! {

pub open spec fn key_wayland_display() -> Seq<char> {
    "WAYLAND_DISPLAY"@
}

pub open spec fn key_wayland_socket() -> Seq<char> {
    "WAYLAND_SOCKET"@
}

pub open spec fn key_display() -> Seq<char> {
    "DISPLAY"@
}

pub open spec fn key_data_dirs() -> Seq<char> {
    "XDG_DATA_DIRS"@
}

/// The X11 display name `:n`.
pub open spec fn display_name(n: u32) -> Seq<char> {
    seq![':'] + decimal_spec(n as nat)
}

/// The fields of `s` between colons, empty fields included (`split(':')`).
pub open spec fn colon_fields(s: Seq<char>) -> Seq<Seq<char>>
    decreases s.len(),
{
    let i = crate::text::index_of(s, ':');
    if i >= s.len() {
        seq![s]
    } else {
        proof {
            crate::text::lemma_index_of(s, ':');
        }
        seq![s.take(i)] + colon_fields(s.skip(i + 1))
    }
}

/// The data-directory search path used when neither the session nor the
/// host sets one.
pub open spec fn default_data_dirs() -> Seq<char> {
    "/usr/local/share:/usr/share"@
}

/// The environment for launched applications: `WAYLAND_DISPLAY` names
/// Villain's socket, no `WAYLAND_SOCKET` is inherited, `DISPLAY` names
/// XWayland's display (or is unset), and Villain's data directory, when it
/// has one, leads `XDG_DATA_DIRS` unless it is already listed there.
pub open spec fn prepared_env(
    m: Map<Seq<char>, Seq<char>>,
    socket: Seq<char>,
    xwayland: Option<u32>,
    data_dir: Option<Seq<char>>,
    host_data_dirs: Option<Seq<char>>,
) -> Map<Seq<char>, Seq<char>> {
    let m1 = m.insert(key_wayland_display(), socket).remove(key_wayland_socket());
    let m2 = match xwayland {
        Some(d) => m1.insert(key_display(), display_name(d)),
        None => m1.remove(key_display()),
    };
    match data_dir {
        None => m2,
        Some(dir) => {
            let current = if m2.contains_key(key_data_dirs()) {
                m2[key_data_dirs()]
            } else {
                match host_data_dirs {
                    Some(h) => h,
                    None => default_data_dirs(),
                }
            };
            if colon_fields(current).contains(dir) {
                m2
            } else {
                m2.insert(key_data_dirs(), dir + seq![':'] + current)
            }
        },
    }
}

/// The environment published to D-Bus and systemd activation: the session
/// environment, with `DISPLAY` set to XWayland's display or, until it runs,
/// to the empty value (which replaces a stale host display).
pub open spec fn activation_env(m: Map<Seq<char>, Seq<char>>, xwayland: Option<u32>) -> Map<
    Seq<char>,
    Seq<char>,
> {
    match xwayland {
        Some(d) => m.insert(key_display(), display_name(d)),
        None => m.insert(key_display(), Seq::empty()),
    }
}

/// The variables that activation imports, in this order.
pub open spec fn activation_keys() -> Seq<Seq<char>> {
    seq![
        "WAYLAND_DISPLAY"@,
        "DISPLAY"@,
        "XDG_CURRENT_DESKTOP"@,
        "XDG_SESSION_DESKTOP"@,
        "XDG_SESSION_TYPE"@,
        "XDG_DATA_DIRS"@,
    ]
}

/// The activation variables that `m` sets, in activation order.
pub open spec fn present_keys(m: Map<Seq<char>, Seq<char>>) -> Seq<Seq<char>> {
    activation_keys().filter(|k: Seq<char>| m.contains_key(k))
}

fn literal(s: &str) -> (r: String)
    ensures
        r@ == s@,
{
    String::from_str(s)
}

fn display_text(n: u32) -> (r: String)
    ensures
        r@ == display_name(n),
{
    let mut text: Vec<char> = Vec::new();
    text.push(':');
    push_decimal(&mut text, n as u64);
    assert(text@ =~= display_name(n));
    string_from_chars(&text)
}

/// Whether `field` is one of the colon-separated fields of `s`.
pub fn has_colon_field(s: &String, field: &String) -> (b: bool)
    ensures
        b == colon_fields(s@).contains(field@),
{
    let v = chars_of(s.as_str());
    let f = chars_of(field.as_str());
    let mut start: usize = 0;
    assert(v@.skip(0) =~= v@);
    loop
        invariant
            start <= v@.len(),
            f@ == field@,
            colon_fields(s@).contains(f@) == colon_fields(v@.skip(start as int)).contains(f@),
            v@ == s@,
        decreases v@.len() - start,
    {
        let end = crate::text::find_char(&v, start, ':');
        proof {
            crate::text::lemma_index_of(v@.skip(start as int), ':');
        }
        let ghost rest = v@.skip(start as int);
        let ghost piece = rest.take(end - start);
        assert(piece =~= v@.subrange(start as int, end as int));
        let mut same = end - start == f.len();
        let mut k: usize = 0;
        while same && k < f.len()
            invariant
                k <= f@.len(),
                start <= end <= v@.len(),
                same ==> end - start == f@.len(),
                same ==> forall|j: int| 0 <= j < k ==> v@[start + j] == f@[j],
                !same ==> v@.subrange(start as int, end as int) != f@,
            decreases f@.len() - k + if same { 1int } else { 0int },
        {
            if v[start + k] != f[k] {
                same = false;
                assert(v@.subrange(start as int, end as int)[k as int] != f@[k as int]);
            } else {
                k = k + 1;
            }
        }
        if same {
            assert(v@.subrange(start as int, end as int) =~= f@);
        }
        assert(same == (piece == f@));
        if end >= v.len() {
            assert(colon_fields(rest) == seq![rest]);
            assert(rest =~= piece);
            assert(seq![rest].contains(f@) == (rest == f@)) by {
                if seq![rest].contains(f@) {
                    let j = choose|j: int| 0 <= j < 1 && seq![rest][j] == f@;
                }
                if rest == f@ {
                    assert(seq![rest][0] == f@);
                }
            }
            return same;
        }
        assert(colon_fields(rest) == seq![piece] + colon_fields(rest.skip(end - start + 1)));
        assert(rest.skip(end - start + 1) =~= v@.skip(end + 1));
        if same {
            assert((seq![piece] + colon_fields(v@.skip(end + 1)))[0] == f@);
            return true;
        }
        let ghost tail = colon_fields(v@.skip(end + 1));
        let ghost all = seq![piece] + tail;
        assert(all.contains(f@) == tail.contains(f@)) by {
            if all.contains(f@) {
                let j = choose|j: int| 0 <= j < all.len() && #[trigger] all[j] == f@;
                assert(j != 0);
                assert(tail[j - 1] == f@);
            }
            if tail.contains(f@) {
                let j = choose|j: int| 0 <= j < tail.len() && #[trigger] tail[j] == f@;
                assert(all[j + 1] == f@);
            }
        }
        start = end + 1;
    }
}

/// The portal configuration that a Villain data directory ships.
pub open spec fn portal_config_name() -> Seq<char> {
    "xdg-desktop-portal/villain-portals.conf"@
}

/// Where the portal configuration of the data directory `data_dir` is; the
/// directory is Villain's when that file exists.
pub fn portal_config_path(data_dir: &String) -> (r: String)
    ensures
        r@ == path_join_spec(data_dir@, portal_config_name()),
{
    let base = chars_of(data_dir.as_str());
    let name = chars_of("xdg-desktop-portal/villain-portals.conf");
    proof {
        reveal_strlit("xdg-desktop-portal/villain-portals.conf");
    }
    let joined = path_join(&base, &name);
    string_from_chars(&joined)
}

/// Complete the environment of launched applications (see `prepared_env`).
/// `data_dir` is Villain's data directory when it ships a portal
/// configuration; `host_data_dirs` is `XDG_DATA_DIRS` of the host.
pub fn prepare_environment(state: &mut Villain, data_dir: Option<String>, host_data_dirs: Option<String>)
    ensures
        final(state).config.environment@ == prepared_env(
            old(state).config.environment@,
            old(state).socket_name@,
            old(state).xwayland_display,
            opt_view(data_dir),
            opt_view(host_data_dirs),
        ),
        final(state).config.input == old(state).config.input,
        final(state).config.keybinds == old(state).config.keybinds,
        final(state).config.path == old(state).config.path,
        final(state).workspaces == old(state).workspaces,
        final(state).active_workspace == old(state).active_workspace,
        final(state).next_window_id == old(state).next_window_id,
        final(state).socket_name == old(state).socket_name,
        final(state).xwayland_display == old(state).xwayland_display,
        final(state).owns_session == old(state).owns_session,
        final(state).output_size == old(state).output_size,
        final(state).usable_area == old(state).usable_area,
        final(state).children == old(state).children,
        final(state).host_focused == old(state).host_focused,
        final(state).pending_focus_restore == old(state).pending_focus_restore,
        final(state).repaint_needed == old(state).repaint_needed,
        final(state).cursor_timer_generation == old(state).cursor_timer_generation,
{
    let ghost m = old(state).config.environment@;
    let socket = state.socket_name.clone();
    state.config.environment.insert(literal("WAYLAND_DISPLAY"), socket);
    state.config.environment.remove(&literal("WAYLAND_SOCKET"));
    match state.xwayland_display {
        Some(display) => state.config.environment.insert(literal("DISPLAY"), display_text(display)),
        None => state.config.environment.remove(&literal("DISPLAY")),
    }
    let ghost m2 = state.config.environment@;
    assert(m2 == prepared_env(m, old(state).socket_name@, old(state).xwayland_display, None, None));
    if let Some(dir) = data_dir {
        let key = literal("XDG_DATA_DIRS");
        let current = match state.config.environment.get(&key) {
            Some(value) => value.clone(),
            None => match host_data_dirs {
                Some(h) => h,
                None => literal("/usr/local/share:/usr/share"),
            },
        };
        let ghost expected_current = if m2.contains_key(key_data_dirs()) {
            m2[key_data_dirs()]
        } else {
            match opt_view(host_data_dirs) {
                Some(h) => h,
                None => default_data_dirs(),
            }
        };
        assert(current@ == expected_current);
        if !has_colon_field(&current, &dir) {
            let mut text = chars_of(dir.as_str());
            text.push(':');
            push_str(&mut text, current.as_str());
            assert(text@ == dir@ + seq![':'] + current@);
            state.config.environment.insert(key, string_from_chars(&text));
        }
    } else {
        assert(state.config.environment@ == prepared_env(m, old(state).socket_name@, old(state).xwayland_display, None, opt_view(host_data_dirs)));
    }
}

/// The environment to publish to activation (see `activation_env`).
pub fn activation_environment(state: &Villain) -> (m: EnvironmentMap)
    ensures
        m@ == activation_env(state.config.environment@, state.xwayland_display),
{
    let mut m = state.config.environment.copy();
    match state.xwayland_display {
        Some(display) => m.insert(literal("DISPLAY"), display_text(display)),
        None => m.insert(literal("DISPLAY"), String::new()),
    }
    m
}

/// The activation variables that `m` sets, in activation order: the
/// arguments of `systemctl --user import-environment`.
pub fn activation_keys_present(m: &EnvironmentMap) -> (r: Vec<String>)
    ensures
        r@.map_values(|s: String| s@) == present_keys(m@),
{
    let keys = [
        "WAYLAND_DISPLAY",
        "DISPLAY",
        "XDG_CURRENT_DESKTOP",
        "XDG_SESSION_DESKTOP",
        "XDG_SESSION_TYPE",
        "XDG_DATA_DIRS",
    ];
    let ghost all = activation_keys();
    let ghost pred = |k: Seq<char>| m@.contains_key(k);
    let mut r: Vec<String> = Vec::new();
    let mut i: usize = 0;
    while i < 6
        invariant
            i <= 6,
            all == activation_keys(),
            pred == (|k: Seq<char>| m@.contains_key(k)),
            forall|j: int| 0 <= j < 6 ==> #[trigger] keys@[j]@ == all[j],
            r@.map_values(|s: String| s@) == all.take(i as int).filter(pred),
        decreases 6 - i,
    {
        proof {
            reveal_with_fuel(Seq::<_>::filter, 1);
            assert(all.take(i + 1).drop_last() =~= all.take(i as int));
        }
        let key = literal(keys[i]);
        if m.contains_key(&key) {
            r.push(key);
        }
        assert(r@.map_values(|s: String| s@) =~= all.take(i + 1).filter(pred));
        i = i + 1;
    }
    assert(all.take(6) =~= all);
    r
}

/// The assignments `KEY=VALUE` of the activation variables that `m` sets,
/// in activation order: the arguments of
/// `dbus-update-activation-environment --systemd`.
pub fn activation_assignments(m: &EnvironmentMap) -> (r: Vec<String>)
    ensures
        r@.len() == present_keys(m@).len(),
        forall|j: int|
            0 <= j < r@.len() ==> #[trigger] r@[j]@ == present_keys(m@)[j] + seq!['=']
                + m@[present_keys(m@)[j]],
{
    let keys = activation_keys_present(m);
    let mut r: Vec<String> = Vec::new();
    let mut i: usize = 0;
    while i < keys.len()
        invariant
            i <= keys@.len(),
            keys@.map_values(|s: String| s@) == present_keys(m@),
            r@.len() == i,
            forall|j: int|
                0 <= j < i ==> #[trigger] r@[j]@ == present_keys(m@)[j] + seq!['=']
                    + m@[present_keys(m@)[j]],
        decreases keys@.len() - i,
    {
        assert(keys@.map_values(|s: String| s@)[i as int] == keys@[i as int]@);
        let mut text = chars_of(keys[i].as_str());
        text.push('=');
        match m.get(&keys[i]) {
            Some(value) => push_str(&mut text, value.as_str()),
            None => {
                proof {
                    broadcast use vstd::seq_lib::group_filter_ensures;
                    let ks = present_keys(m@);
                    assert(ks[i as int] == keys@[i as int]@);
                    assert(m@.contains_key(ks[i as int]));
                }
                assert(false);
            },
        }
        r.push(string_from_chars(&text));
        i = i + 1;
    }
    r
}

/// The values of a list of strings.
pub open spec fn texts(v: Seq<String>) -> Seq<Seq<char>> {
    v.map_values(|s: String| s@)
}

/// A user-service restart that does not wait for the service.
pub open spec fn portal_restart(unit: Seq<char>) -> (Seq<char>, Seq<Seq<char>>) {
    ("systemctl"@, seq!["--user"@, "try-restart"@, "--no-block"@, unit])
}

/// The commands that publish `m` to activation, in order: systemd's user
/// manager imports the activation variables that `m` sets, D-Bus activation
/// gets them as assignments, and, when asked, the desktop portal backend and
/// then its frontend are restarted.
pub open spec fn activation_commands_spec(m: Map<Seq<char>, Seq<char>>, restart_portal: bool) -> Seq<
    (Seq<char>, Seq<Seq<char>>),
> {
    let import = ("systemctl"@, seq!["--user"@, "import-environment"@] + present_keys(m));
    let dbus = (
        "dbus-update-activation-environment"@,
        seq!["--systemd"@] + present_keys(m).map_values(|k: Seq<char>| k + seq!['='] + m[k]),
    );
    if restart_portal {
        seq![
            import,
            dbus,
            portal_restart("xdg-desktop-portal-gtk.service"@),
            portal_restart("xdg-desktop-portal.service"@),
        ]
    } else {
        seq![import, dbus]
    }
}

/// Program and arguments of each command that publishes `m` to activation
/// (see `activation_commands_spec`).
pub fn activation_commands(m: &EnvironmentMap, restart_portal: bool) -> (r: Vec<(String, Vec<String>)>)
    ensures
        r@.len() == activation_commands_spec(m@, restart_portal).len(),
        forall|k: int|
            0 <= k < r@.len() ==> #[trigger] r@[k].0@ == activation_commands_spec(m@, restart_portal)[k].0
                && texts(r@[k].1@) == activation_commands_spec(m@, restart_portal)[k].1,
{
    let ghost spec = activation_commands_spec(m@, restart_portal);
    let mut import: Vec<String> = Vec::new();
    import.push(literal("--user"));
    import.push(literal("import-environment"));
    let mut keys = activation_keys_present(m);
    let ghost keys_view = keys@;
    import.append(&mut keys);
    proof {
        reveal_strlit("--user");
        reveal_strlit("import-environment");
        assert(texts(import@) =~= seq!["--user"@, "import-environment"@] + texts(keys_view));
    }
    let mut dbus: Vec<String> = Vec::new();
    dbus.push(literal("--systemd"));
    let mut assignments = activation_assignments(m);
    let ghost assignments_view = assignments@;
    dbus.append(&mut assignments);
    proof {
        reveal_strlit("--systemd");
        assert(texts(assignments_view) =~= present_keys(m@).map_values(|k: Seq<char>| k + seq!['='] + m@[k]));
        assert(texts(dbus@) =~= seq!["--systemd"@] + texts(assignments_view));
    }
    let mut r: Vec<(String, Vec<String>)> = Vec::new();
    r.push((literal("systemctl"), import));
    r.push((literal("dbus-update-activation-environment"), dbus));
    if restart_portal {
        let mut gtk: Vec<String> = Vec::new();
        gtk.push(literal("--user"));
        gtk.push(literal("try-restart"));
        gtk.push(literal("--no-block"));
        gtk.push(literal("xdg-desktop-portal-gtk.service"));
        let mut frontend: Vec<String> = Vec::new();
        frontend.push(literal("--user"));
        frontend.push(literal("try-restart"));
        frontend.push(literal("--no-block"));
        frontend.push(literal("xdg-desktop-portal.service"));
        proof {
            assert(texts(gtk@) =~= portal_restart("xdg-desktop-portal-gtk.service"@).1);
            assert(texts(frontend@) =~= portal_restart("xdg-desktop-portal.service"@).1);
        }
        r.push((literal("systemctl"), gtk));
        r.push((literal("systemctl"), frontend));
    }
    r
}

/// Whether every command run so far completed (none was stopped).
pub open spec fn all_ran(outcomes: Seq<bool>) -> bool {
    forall|i: int| 0 <= i < outcomes.len() ==> #[trigger] outcomes[i]
}

/// The next command of an activation run, given what running the earlier
/// ones gave (`true` for each command that ran to its end, `false` for one
/// that was stopped). The commands of `activation_commands_spec` come in
/// their order; once one was stopped, or when all have run, there is none.
pub fn next_activation_command(m: &EnvironmentMap, restart_portal: bool, outcomes: &Vec<bool>) -> (r: Option<
    (String, Vec<String>),
>)
    ensures
        ({
            let plan = activation_commands_spec(m@, restart_portal);
            let k = outcomes@.len() as int;
            &&& (r is Some <==> all_ran(outcomes@) && k < plan.len())
            &&& (r matches Some(c) ==> c.0@ == plan[k].0 && texts(c.1@) == plan[k].1)
        }),
{
    let mut i: usize = 0;
    while i < outcomes.len()
        invariant
            i <= outcomes@.len(),
            forall|j: int| 0 <= j < i ==> #[trigger] outcomes@[j],
        decreases outcomes@.len() - i,
    {
        if !outcomes[i] {
            assert(!outcomes@[i as int]);
            return None;
        }
        i = i + 1;
    }
    assert(all_ran(outcomes@));
    let mut commands = activation_commands(m, restart_portal);
    if outcomes.len() < commands.len() {
        let k = outcomes.len();
        let ghost before = commands@;
        assert(before[k as int].0@ == activation_commands_spec(m@, restart_portal)[k as int].0);
        let command = commands.remove(k);
        Some(command)
    } else {
        None
    }
}

/// The Wayland socket that one Villain process owns, and its lock file;
/// both are removed when it exits.
#[derive(Debug)]
pub struct SocketCleanup {
    pub socket: String,
    pub lock: String,
}

impl SocketCleanup {
    /// The socket `socket_name` in the runtime directory, and its lock file
    /// beside it; nothing without a runtime directory.
    pub fn new(runtime_dir: Option<String>, socket_name: &String) -> (r: Option<Self>)
        ensures
            match runtime_dir {
                None => r is None,
                Some(dir) => r matches Some(c) && c.socket@ == path_join_spec(dir@, socket_name@)
                    && c.lock@ == path_join_spec(dir@, socket_name@) + ".lock"@,
            },
    {
        let dir = runtime_dir?;
        let joined = path_join(&chars_of(dir.as_str()), &chars_of(socket_name.as_str()));
        let mut lock = Vec::new();
        push_chars(&mut lock, &joined);
        push_str(&mut lock, ".lock");
        Some(SocketCleanup { socket: string_from_chars(&joined), lock: string_from_chars(&lock) })
    }
}

/// The environment changes for a launched application: variables to set
/// and variables to remove from what it inherits.
#[derive(Debug)]
pub struct ChildEnvironment {
    pub set: EnvironmentMap,
    pub unset: Vec<String>,
}

/// The variables a launched application gets: the session environment
/// without `DISPLAY` and `WAYLAND_SOCKET`, with `WAYLAND_DISPLAY` naming
/// Villain's socket, and with `DISPLAY` naming XWayland's display when it
/// runs.
pub open spec fn child_set(m: Map<Seq<char>, Seq<char>>, socket: Seq<char>, xwayland: Option<u32>) -> Map<
    Seq<char>,
    Seq<char>,
> {
    let base = m.remove(key_display()).remove(key_wayland_socket()).insert(key_wayland_display(), socket);
    match xwayland {
        Some(d) => base.insert(key_display(), display_name(d)),
        None => base,
    }
}

/// The variables a launched application must not inherit: a host
/// `WAYLAND_SOCKET`, and a host `DISPLAY` unless XWayland provides one.
pub open spec fn child_unset(xwayland: Option<u32>) -> Seq<Seq<char>> {
    match xwayland {
        Some(_) => seq![key_wayland_socket()],
        None => seq![key_wayland_socket(), key_display()],
    }
}

impl Villain {
    /// The environment changes for an application launched now.
    pub fn child_environment(&self) -> (r: ChildEnvironment)
        ensures
            r.set@ == child_set(self.config.environment@, self.socket_name@, self.xwayland_display),
            r.unset@.map_values(|s: String| s@) == child_unset(self.xwayland_display),
    {
        let mut set = self.config.environment.copy();
        set.remove(&literal("DISPLAY"));
        set.remove(&literal("WAYLAND_SOCKET"));
        set.insert(literal("WAYLAND_DISPLAY"), self.socket_name.clone());
        let mut unset: Vec<String> = Vec::new();
        unset.push(literal("WAYLAND_SOCKET"));
        match self.xwayland_display {
            Some(display) => {
                set.insert(literal("DISPLAY"), display_text(display));
            },
            None => {
                unset.push(literal("DISPLAY"));
            },
        }
        assert(unset@.map_values(|s: String| s@) =~= child_unset(self.xwayland_display));
        ChildEnvironment { set, unset }
    }

    /// Apply a reloaded configuration: `settings`, `home` and `read` are
    /// what loading the configuration file gave (see
    /// `RuntimeConfig::reload`). On an error nothing changes. Otherwise the
    /// new configuration replaces the old one, the session environment is
    /// completed again, and, when Villain owns the session, the environment
    /// to publish to activation is returned.
    pub fn apply_reload(
        &mut self,
        settings: Result<CompositorSettings, String>,
        home: Option<String>,
        read: FileRead,
        data_dir: Option<String>,
        host_data_dirs: Option<String>,
    ) -> (r: Result<Option<EnvironmentMap>, DispatchError>)
        ensures
            match load_spec(old(self).config.path@, settings, opt_view(home), read) {
                Err(m) => (r matches Err(DispatchError::Config(e)) && e@ == m) && final(self).config
                    == old(self).config,
                Ok(env) => {
                    &&& r is Ok
                    &&& final(self).config.environment@ == prepared_env(
                        env,
                        old(self).socket_name@,
                        old(self).xwayland_display,
                        opt_view(data_dir),
                        opt_view(host_data_dirs),
                    )
                    &&& final(self).config.path@ == old(self).config.path@
                    &&& settings matches Ok(s) && final(self).config.input == s.input
                        && final(self).config.keybinds == keybinds_spec(s.modkey, s.bind)
                    &&& (r matches Ok(a) && (a is Some <==> old(self).owns_session) && (a matches Some(m)
                        ==> m@ == activation_env(final(self).config.environment@, old(self).xwayland_display)))
                },
            },
            final(self).workspaces == old(self).workspaces,
            final(self).active_workspace == old(self).active_workspace,
            final(self).next_window_id == old(self).next_window_id,
            final(self).socket_name == old(self).socket_name,
            final(self).xwayland_display == old(self).xwayland_display,
            final(self).owns_session == old(self).owns_session,
            final(self).output_size == old(self).output_size,
            final(self).usable_area == old(self).usable_area,
            final(self).children == old(self).children,
            final(self).host_focused == old(self).host_focused,
            final(self).pending_focus_restore == old(self).pending_focus_restore,
            final(self).repaint_needed == old(self).repaint_needed,
            final(self).cursor_timer_generation == old(self).cursor_timer_generation,
    {
        let config = match self.config.reload(settings, home, read) {
            Ok(c) => c,
            Err(e) => {
                return Err(DispatchError::Config(e.0));
            },
        };
        self.config = config;
        prepare_environment(self, data_dir, host_data_dirs);
        if self.owns_session {
            Ok(Some(activation_environment(self)))
        } else {
            Ok(None)
        }
    }
}

} // verus!
