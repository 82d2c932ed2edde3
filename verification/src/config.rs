//! Configuration: the defaults, the configuration file's settings and the
//! command-line overrides.
use vstd::prelude::*;
use crate::text::{
    chars_of, push_char, strip_prefix, strip_prefix_spec, text_eq, trim, trim_spec,
};

verus! {

/// A time zone to show, with the label shown above it.
#[derive(Clone, Debug)]
pub struct TimezoneSpec {
    pub label: String,
    pub name: String,
}

/// A time zone entry as plain text.
pub struct TimezoneSpecView {
    pub label: Seq<char>,
    pub name: Seq<char>,
}

impl View for TimezoneSpec {
    type V = TimezoneSpecView;

    open spec fn view(&self) -> TimezoneSpecView {
        TimezoneSpecView { label: self.label@, name: self.name@ }
    }
}

/// What the clock shows and how: the primary zone, how often to redraw, the
/// other zones and the theme.
#[derive(Clone, Debug)]
pub struct Config {
    pub primary_zone: String,
    pub refresh_interval_ms: u64,
    pub timezones: Vec<TimezoneSpec>,
    pub theme_name: String,
}

/// A configuration as plain values.
pub struct ConfigView {
    pub primary_zone: Seq<char>,
    pub refresh_interval_ms: u64,
    pub timezones: Seq<TimezoneSpecView>,
    pub theme_name: Seq<char>,
}

/// The plain form of each time zone entry.
pub open spec fn zone_views(zones: Seq<TimezoneSpec>) -> Seq<TimezoneSpecView> {
    zones.map_values(|z: TimezoneSpec| z@)
}

impl View for Config {
    type V = ConfigView;

    open spec fn view(&self) -> ConfigView {
        ConfigView {
            primary_zone: self.primary_zone@,
            refresh_interval_ms: self.refresh_interval_ms,
            timezones: zone_views(self.timezones@),
            theme_name: self.theme_name@,
        }
    }
}

/// The configuration when nothing is set: São Paulo, a redraw every second,
/// no other zones, the default theme.
pub open spec fn default_config() -> ConfigView {
    ConfigView {
        primary_zone: "America/Sao_Paulo"@,
        refresh_interval_ms: 1000,
        timezones: Seq::empty(),
        theme_name: "default"@,
    }
}

impl Default for Config {
    fn default() -> (cfg: Self)
        ensures
            cfg@ == default_config(),
    {
        let cfg = Config {
            primary_zone: "America/Sao_Paulo".to_owned(),
            refresh_interval_ms: 1000,
            timezones: Vec::new(),
            theme_name: "default".to_owned(),
        };
        assert(cfg.timezones@.map_values(|z: TimezoneSpec| z@) =~= Seq::<TimezoneSpecView>::empty());
        cfg
    }
}

/// The part of `s` after its last `/`; all of `s` when it holds none.
pub open spec fn after_last_slash(s: Seq<char>) -> Seq<char>
    decreases s.len(),
{
    if s.len() == 0 {
        s
    } else if s.last() == '/' {
        Seq::empty()
    } else {
        after_last_slash(s.drop_last()).push(s.last())
    }
}

/// `c`, with `_` read as a space.
pub open spec fn underscore_as_space(c: char) -> char {
    if c == '_' {
        ' '
    } else {
        c
    }
}

/// The label of a zone named `name`: its last path segment, with each `_`
/// read as a space (`America/Argentina/Buenos_Aires` gives `Buenos Aires`).
pub open spec fn label_spec(name: Seq<char>) -> Seq<char> {
    after_last_slash(name).map_values(|c: char| underscore_as_space(c))
}

/// The label of the zone named `name` (see `label_spec`).
pub fn label_from_timezone_name(name: &str) -> (label: String)
    ensures
        label@ == label_spec(name@),
{
    let v = chars_of(name);
    let n = v.len();
    let mut j: usize = n;
    assert(name@.take(n as int) == name@);
    while j > 0 && v[j - 1] != '/'
        invariant
            v@ == name@,
            n == v@.len(),
            j <= n,
            after_last_slash(name@) == after_last_slash(name@.take(j as int)) + name@.subrange(
                j as int,
                n as int,
            ),
        decreases j,
    {
        let ghost prefix = name@.take(j as int);
        assert(prefix.drop_last() == name@.take(j - 1));
        assert(prefix.last() == name@[j - 1]);
        assert(after_last_slash(name@.take(j - 1)).push(name@[j - 1]) + name@.subrange(
            j as int,
            n as int,
        ) =~= after_last_slash(name@.take(j - 1)) + name@.subrange(j - 1, n as int));
        j = j - 1;
    }
    proof {
        if j > 0 {
            assert(name@.take(j as int).last() == '/');
        }
        assert(after_last_slash(name@.take(j as int)) =~= Seq::<char>::empty());
        assert(after_last_slash(name@) =~= name@.subrange(j as int, n as int));
    }
    let mut label = String::new();
    let mut k: usize = j;
    while k < n
        invariant
            v@ == name@,
            n == v@.len(),
            j <= k <= n,
            label@ == name@.subrange(j as int, k as int).map_values(
                |c: char| underscore_as_space(c),
            ),
        decreases n - k,
    {
        let c = v[k];
        push_char(&mut label, if c == '_' { ' ' } else { c });
        assert(name@.subrange(j as int, k + 1).map_values(|c: char| underscore_as_space(c))
            =~= name@.subrange(j as int, k as int).map_values(|c: char| underscore_as_space(c)).push(
            underscore_as_space(c),
        ));
        k = k + 1;
    }
    label
}

/// The entry for the zone `name`, labelled from its name.
pub open spec fn from_name_spec(name: Seq<char>) -> TimezoneSpecView {
    TimezoneSpecView { label: label_spec(name), name }
}

impl TimezoneSpec {
    /// The entry for the zone `name`, labelled from its name.
    pub fn from_name(name: String) -> (spec: Self)
        ensures
            spec@ == from_name_spec(name@),
    {
        TimezoneSpec { label: label_from_timezone_name(name.as_str()), name }
    }

    /// The entry for a zone as the configuration file gives it: a bare name,
    /// or a table whose label, trimmed, is used unless it is empty or missing.
    pub fn from_raw(raw: RawTimezoneEntry) -> (spec: Self)
        ensures
            spec@ == from_raw_spec(raw),
    {
        match raw {
            RawTimezoneEntry::Name(name) => Self::from_name(name),
            RawTimezoneEntry::Detailed(spec) => {
                let label = match spec.label {
                    Some(value) => {
                        let trimmed = trim(value.as_str());
                        if trimmed.as_str().unicode_len() > 0 {
                            trimmed
                        } else {
                            label_from_timezone_name(spec.name.as_str())
                        }
                    },
                    None => label_from_timezone_name(spec.name.as_str()),
                };
                TimezoneSpec { label, name: spec.name }
            },
        }
    }
}

/// The `[theme]` table of the configuration file.
#[derive(Debug)]
pub struct RawThemeConfig {
    pub theme: Option<String>,
}

/// A zone given as a table in the configuration file.
#[derive(Debug)]
pub struct RawTimezoneSpec {
    pub label: Option<String>,
    pub name: String,
}

/// A zone as the configuration file gives it: a bare name or a table.
#[derive(Debug)]
pub enum RawTimezoneEntry {
    Name(String),
    Detailed(RawTimezoneSpec),
}

/// The configuration file's settings, each of which may be missing.
#[derive(Debug)]
pub struct RawConfigFile {
    pub primary_timezone: Option<String>,
    pub primary_zone: Option<String>,
    pub refresh_interval_ms: Option<u64>,
    pub timezones: Option<Vec<RawTimezoneEntry>>,
    pub theme: Option<RawThemeConfig>,
}

/// The entry for a zone as the configuration file gives it.
pub open spec fn from_raw_spec(raw: RawTimezoneEntry) -> TimezoneSpecView {
    match raw {
        RawTimezoneEntry::Name(name) => from_name_spec(name@),
        RawTimezoneEntry::Detailed(spec) => TimezoneSpecView {
            label: match spec.label {
                Some(value) => if trim_spec(value@).len() > 0 {
                    trim_spec(value@)
                } else {
                    label_spec(spec.name@)
                },
                None => label_spec(spec.name@),
            },
            name: spec.name@,
        },
    }
}

/// `cfg` with the configuration file's settings applied: the primary zone
/// from `primary_timezone`, else from the older `primary_zone`; the redraw
/// interval, at least 1 ms; the zone list; the theme name.
pub open spec fn apply_raw_spec(cfg: ConfigView, raw: RawConfigFile) -> ConfigView {
    ConfigView {
        primary_zone: match raw.primary_timezone {
            Some(p) => p@,
            None => match raw.primary_zone {
                Some(p) => p@,
                None => cfg.primary_zone,
            },
        },
        refresh_interval_ms: match raw.refresh_interval_ms {
            Some(ms) => if ms < 1 {
                1
            } else {
                ms
            },
            None => cfg.refresh_interval_ms,
        },
        timezones: match raw.timezones {
            Some(list) => list@.map_values(|e: RawTimezoneEntry| from_raw_spec(e)),
            None => cfg.timezones,
        },
        theme_name: match raw.theme {
            Some(t) => match t.theme {
                Some(name) => name@,
                None => cfg.theme_name,
            },
            None => cfg.theme_name,
        },
    }
}

/// Applies the configuration file's settings to `cfg`.
pub fn apply_raw_config(cfg: &mut Config, raw: RawConfigFile)
    ensures
        final(cfg)@ == apply_raw_spec(old(cfg)@, raw),
        match raw.timezones {
            Some(list) => final(cfg)@.timezones.len() == list@.len() && forall|i: int|
                0 <= i < list@.len() ==> #[trigger] final(cfg)@.timezones[i] == from_raw_spec(
                    list@[i],
                ),
            None => final(cfg)@.timezones == old(cfg)@.timezones,
        },
{
    proof {
        file_zone_list_is_taken_whole(cfg@, raw);
    }
    let ghost raw0 = raw;
    let RawConfigFile { primary_timezone, primary_zone, refresh_interval_ms, timezones, theme } =
        raw;
    match primary_timezone {
        Some(p) => {
            cfg.primary_zone = p;
        },
        None => match primary_zone {
            Some(p) => {
                cfg.primary_zone = p;
            },
            None => {},
        },
    }
    match refresh_interval_ms {
        Some(ms) => {
            cfg.refresh_interval_ms = if ms < 1 {
                1
            } else {
                ms
            };
        },
        None => {},
    }
    match timezones {
        Some(list) => {
            let ghost entries = list@;
            let total = list.len();
            let mut rest = list;
            let mut specs: Vec<TimezoneSpec> = Vec::new();
            let mut i: usize = 0;
            while rest.len() > 0
                invariant
                    rest@ == entries.skip(i as int),
                    entries.len() == total,
                    i <= entries.len(),
                    zone_views(specs@) == entries.take(i as int).map_values(
                        |e: RawTimezoneEntry| from_raw_spec(e),
                    ),
                decreases rest.len(),
            {
                let entry = rest.remove(0);
                assert(entry == entries[i as int]);
                let spec = TimezoneSpec::from_raw(entry);
                let ghost before = specs@;
                let ghost spec_view = spec@;
                specs.push(spec);
                assert(entries.skip(i as int).remove(0) =~= entries.skip(i + 1));
                assert(zone_views(specs@) =~= zone_views(before).push(spec_view));
                assert(entries.take(i + 1).map_values(|e: RawTimezoneEntry| from_raw_spec(e))
                    =~= entries.take(i as int).map_values(|e: RawTimezoneEntry| from_raw_spec(e)).push(
                    from_raw_spec(entries[i as int]),
                ));
                i = i + 1;
            }
            assert(entries.take(i as int) == entries);
            cfg.timezones = specs;
        },
        None => {},
    }
    match theme {
        Some(t) => match t.theme {
            Some(name) => {
                cfg.theme_name = name;
            },
            None => {},
        },
        None => {},
    }
}


/// What the command line has set so far: the primary zone, the theme and the
/// zones given with `--timezone`, in order.
pub struct CliState {
    pub primary_zone: Seq<char>,
    pub theme_name: Seq<char>,
    pub timezones: Seq<TimezoneSpecView>,
}

/// The command-line arguments `args` read in order from `st`:
/// `--primary <zone>` and `--primary=<zone>` set the primary zone,
/// `--theme <name>` and `--theme=<name>` the theme, and each
/// `--timezone <zone>` or `--timezone=<zone>` adds a zone; a flag that wants
/// a value but comes last is dropped, and anything else is skipped.
pub open spec fn cli_fold(args: Seq<Seq<char>>, st: CliState) -> CliState
    decreases args.len(),
{
    if args.len() == 0 {
        st
    } else {
        let arg = args[0];
        if arg == "--primary"@ {
            if args.len() > 1 {
                cli_fold(
                    args.skip(2),
                    CliState {
                        primary_zone: args[1],
                        theme_name: st.theme_name,
                        timezones: st.timezones,
                    },
                )
            } else {
                st
            }
        } else if strip_prefix_spec(arg, "--primary="@) is Some {
            cli_fold(
                args.skip(1),
                CliState {
                    primary_zone: strip_prefix_spec(arg, "--primary="@)->0,
                    theme_name: st.theme_name,
                    timezones: st.timezones,
                },
            )
        } else if arg == "--theme"@ {
            if args.len() > 1 {
                cli_fold(
                    args.skip(2),
                    CliState {
                        primary_zone: st.primary_zone,
                        theme_name: args[1],
                        timezones: st.timezones,
                    },
                )
            } else {
                st
            }
        } else if strip_prefix_spec(arg, "--theme="@) is Some {
            cli_fold(
                args.skip(1),
                CliState {
                    primary_zone: st.primary_zone,
                    theme_name: strip_prefix_spec(arg, "--theme="@)->0,
                    timezones: st.timezones,
                },
            )
        } else if arg == "--timezone"@ {
            if args.len() > 1 {
                cli_fold(
                    args.skip(2),
                    CliState {
                        primary_zone: st.primary_zone,
                        theme_name: st.theme_name,
                        timezones: st.timezones.push(from_name_spec(args[1])),
                    },
                )
            } else {
                st
            }
        } else if strip_prefix_spec(arg, "--timezone="@) is Some {
            cli_fold(
                args.skip(1),
                CliState {
                    primary_zone: st.primary_zone,
                    theme_name: st.theme_name,
                    timezones: st.timezones.push(
                        from_name_spec(strip_prefix_spec(arg, "--timezone="@)->0),
                    ),
                },
            )
        } else {
            cli_fold(args.skip(1), st)
        }
    }
}

/// `cfg` with the command line `args` applied: the primary zone and theme as
/// the arguments last set them, and the zones given on the command line in
/// place of the configured ones when there is at least one.
pub open spec fn cli_applied(cfg: ConfigView, args: Seq<Seq<char>>) -> ConfigView {
    let st = cli_fold(
        args,
        CliState {
            primary_zone: cfg.primary_zone,
            theme_name: cfg.theme_name,
            timezones: Seq::empty(),
        },
    );
    ConfigView {
        primary_zone: st.primary_zone,
        refresh_interval_ms: cfg.refresh_interval_ms,
        timezones: if st.timezones.len() > 0 {
            st.timezones
        } else {
            cfg.timezones
        },
        theme_name: st.theme_name,
    }
}

/// The characters of each argument.
pub open spec fn arg_views(args: Seq<String>) -> Seq<Seq<char>> {
    args.map_values(|a: String| a@)
}

/// Applies the command-line arguments (the program name left out) to `cfg`.
pub fn apply_cli_overrides(cfg: &mut Config, args: Vec<String>)
    ensures
        final(cfg)@ == cli_applied(old(cfg)@, arg_views(args@)),
        final(cfg)@.timezones == old(cfg)@.timezones || forall|i: int|
            0 <= i < final(cfg)@.timezones.len() ==> (#[trigger] final(cfg)@.timezones[i]).label
                == label_spec(final(cfg)@.timezones[i].name),
{
    proof {
        command_line_zones_are_labelled_from_names(cfg@, arg_views(args@));
    }
    let ghost all = arg_views(args@);
    let ghost start = CliState {
        primary_zone: cfg.primary_zone@,
        theme_name: cfg.theme_name@,
        timezones: Seq::empty(),
    };
    let mut cli_timezones: Vec<TimezoneSpec> = Vec::new();
    let n = args.len();
    let mut i: usize = 0;
    assert(all.skip(0) == all);
    assert(zone_views(cli_timezones@) =~= Seq::<TimezoneSpecView>::empty());
    while i < n
        invariant
            n == args@.len(),
            all == arg_views(args@),
            i <= n,
            cli_fold(all, start) == cli_fold(
                all.skip(i as int),
                CliState {
                    primary_zone: cfg.primary_zone@,
                    theme_name: cfg.theme_name@,
                    timezones: zone_views(cli_timezones@),
                },
            ),
            cfg.refresh_interval_ms == old(cfg).refresh_interval_ms,
            cfg.timezones == old(cfg).timezones,
        decreases n - i,
    {
        let ghost rest = all.skip(i as int);
        assert(rest[0] == args@[i as int]@);
        assert(rest.skip(1) == all.skip(i + 1));
        let arg = args[i].as_str();
        if text_eq(arg, "--primary") {
            if i + 1 < n {
                assert(rest[1] == args@[i + 1]@);
                assert(rest.skip(2) == all.skip(i + 2));
                cfg.primary_zone = args[i + 1].clone();
                i = i + 2;
            } else {
                i = n;
                assert(all.skip(n as int).len() == 0);
            }
        } else if let Some(value) = strip_prefix(arg, "--primary=") {
            cfg.primary_zone = value;
            i = i + 1;
        } else if text_eq(arg, "--theme") {
            if i + 1 < n {
                assert(rest[1] == args@[i + 1]@);
                assert(rest.skip(2) == all.skip(i + 2));
                cfg.theme_name = args[i + 1].clone();
                i = i + 2;
            } else {
                i = n;
                assert(all.skip(n as int).len() == 0);
            }
        } else if let Some(value) = strip_prefix(arg, "--theme=") {
            cfg.theme_name = value;
            i = i + 1;
        } else if text_eq(arg, "--timezone") {
            if i + 1 < n {
                assert(rest[1] == args@[i + 1]@);
                assert(rest.skip(2) == all.skip(i + 2));
                let ghost before = cli_timezones@;
                let spec = TimezoneSpec::from_name(args[i + 1].clone());
                let ghost spec_view = spec@;
                cli_timezones.push(spec);
                assert(zone_views(cli_timezones@) =~= zone_views(before).push(spec_view));
                i = i + 2;
            } else {
                i = n;
                assert(all.skip(n as int).len() == 0);
            }
        } else if let Some(value) = strip_prefix(arg, "--timezone=") {
            let ghost before = cli_timezones@;
            let spec = TimezoneSpec::from_name(value);
            let ghost spec_view = spec@;
            cli_timezones.push(spec);
            assert(zone_views(cli_timezones@) =~= zone_views(before).push(spec_view));
            i = i + 1;
        } else {
            i = i + 1;
        }
    }
    assert(all.skip(n as int).len() == 0);
    if cli_timezones.len() > 0 {
        cfg.timezones = cli_timezones;
    }
}


proof fn lemma_after_last_slash_has_no_slash(s: Seq<char>)
    ensures
        !after_last_slash(s).contains('/'),
        !s.contains('/') ==> after_last_slash(s) == s,
    decreases s.len(),
{
    if s.len() > 0 && s.last() != '/' {
        lemma_after_last_slash_has_no_slash(s.drop_last());
        let t = after_last_slash(s.drop_last());
        assert forall|i: int| 0 <= i < t.push(s.last()).len() implies t.push(s.last())[i]
            != '/' by {
            if i < t.len() {
                assert(t[i] == t.push(s.last())[i]);
                assert(!t.contains(t[i]) || t[i] != '/');
            }
        }
        if !s.contains('/') {
            assert(!s.drop_last().contains('/')) by {
                if s.drop_last().contains('/') {
                    let i = choose|i: int| 0 <= i < s.drop_last().len() && s.drop_last()[i] == '/';
                    assert(s[i] == '/');
                }
            }
            assert(s.drop_last().push(s.last()) == s);
        }
    } else if s.len() > 0 {
        assert(s[s.len() - 1] == '/');
    }
}

/// A derived label holds neither `/` nor `_`, and deriving a label from a
/// label gives it back.
pub proof fn labels_are_plain(name: Seq<char>)
    ensures
        !label_spec(name).contains('/'),
        !label_spec(name).contains('_'),
        label_spec(label_spec(name)) == label_spec(name),
{
    let tail = after_last_slash(name);
    let label = label_spec(name);
    lemma_after_last_slash_has_no_slash(name);
    assert forall|i: int| 0 <= i < label.len() implies label[i] != '/' && label[i] != '_' by {
        assert(label[i] == underscore_as_space(tail[i]));
        assert(tail.contains(tail[i]));
    }
    lemma_after_last_slash_has_no_slash(label);
    assert(label.map_values(|c: char| underscore_as_space(c)) =~= label);
}

/// A command-line setting wins over whatever the configuration said: after
/// the same arguments, the primary zone, the theme and the zone list either
/// are the same whatever the configuration held, or are each
/// configuration's own.
pub proof fn command_line_overrides(args: Seq<Seq<char>>, a: ConfigView, b: ConfigView)
    ensures
        ({
            let (ra, rb) = (cli_applied(a, args), cli_applied(b, args));
            &&& ra.primary_zone == rb.primary_zone || (ra.primary_zone == a.primary_zone
                && rb.primary_zone == b.primary_zone)
            &&& ra.theme_name == rb.theme_name || (ra.theme_name == a.theme_name && rb.theme_name
                == b.theme_name)
            &&& ra.timezones == rb.timezones || (ra.timezones == a.timezones && rb.timezones
                == b.timezones)
            &&& ra.refresh_interval_ms == a.refresh_interval_ms
        }),
{
    lemma_cli_fold_overrides(
        args,
        CliState { primary_zone: a.primary_zone, theme_name: a.theme_name, timezones: Seq::empty() },
        CliState { primary_zone: b.primary_zone, theme_name: b.theme_name, timezones: Seq::empty() },
    );
}

proof fn lemma_cli_fold_overrides(args: Seq<Seq<char>>, s: CliState, t: CliState)
    requires
        s.timezones == t.timezones,
    ensures
        ({
            let (fs, ft) = (cli_fold(args, s), cli_fold(args, t));
            &&& fs.primary_zone == ft.primary_zone || (fs.primary_zone == s.primary_zone
                && ft.primary_zone == t.primary_zone)
            &&& fs.theme_name == ft.theme_name || (fs.theme_name == s.theme_name && ft.theme_name
                == t.theme_name)
            &&& fs.timezones == ft.timezones
        }),
    decreases args.len(),
{
    if args.len() > 0 {
        let arg = args[0];
        if arg == "--primary"@ {
            if args.len() > 1 {
                lemma_cli_fold_overrides(
                    args.skip(2),
                    CliState { primary_zone: args[1], theme_name: s.theme_name, timezones: s.timezones },
                    CliState { primary_zone: args[1], theme_name: t.theme_name, timezones: t.timezones },
                );
            }
        } else if strip_prefix_spec(arg, "--primary="@) is Some {
            let p = strip_prefix_spec(arg, "--primary="@)->0;
            lemma_cli_fold_overrides(
                args.skip(1),
                CliState { primary_zone: p, theme_name: s.theme_name, timezones: s.timezones },
                CliState { primary_zone: p, theme_name: t.theme_name, timezones: t.timezones },
            );
        } else if arg == "--theme"@ {
            if args.len() > 1 {
                lemma_cli_fold_overrides(
                    args.skip(2),
                    CliState { primary_zone: s.primary_zone, theme_name: args[1], timezones: s.timezones },
                    CliState { primary_zone: t.primary_zone, theme_name: args[1], timezones: t.timezones },
                );
            }
        } else if strip_prefix_spec(arg, "--theme="@) is Some {
            let n = strip_prefix_spec(arg, "--theme="@)->0;
            lemma_cli_fold_overrides(
                args.skip(1),
                CliState { primary_zone: s.primary_zone, theme_name: n, timezones: s.timezones },
                CliState { primary_zone: t.primary_zone, theme_name: n, timezones: t.timezones },
            );
        } else if arg == "--timezone"@ {
            if args.len() > 1 {
                let z = s.timezones.push(from_name_spec(args[1]));
                lemma_cli_fold_overrides(
                    args.skip(2),
                    CliState { primary_zone: s.primary_zone, theme_name: s.theme_name, timezones: z },
                    CliState { primary_zone: t.primary_zone, theme_name: t.theme_name, timezones: z },
                );
            }
        } else if strip_prefix_spec(arg, "--timezone="@) is Some {
            let z = s.timezones.push(from_name_spec(strip_prefix_spec(arg, "--timezone="@)->0));
            lemma_cli_fold_overrides(
                args.skip(1),
                CliState { primary_zone: s.primary_zone, theme_name: s.theme_name, timezones: z },
                CliState { primary_zone: t.primary_zone, theme_name: t.theme_name, timezones: z },
            );
        } else {
            lemma_cli_fold_overrides(args.skip(1), s, t);
        }
    }
}

/// The zone list of a configuration file, when it gives one, is taken whole
/// and in order: entry `i` of the result is built from entry `i` of the file,
/// keeps its name, and is labelled by the file's label (trimmed, when not
/// blank) or else from its name. Without a list the zones stay as they were.
pub proof fn file_zone_list_is_taken_whole(cfg: ConfigView, raw: RawConfigFile)
    ensures
        ({
            let zones = apply_raw_spec(cfg, raw).timezones;
            match raw.timezones {
                None => zones == cfg.timezones,
                Some(list) => {
                    &&& zones.len() == list@.len()
                    &&& forall|i: int|
                        0 <= i < list@.len() ==> {
                            &&& #[trigger] zones[i] == from_raw_spec(list@[i])
                            &&& match list@[i] {
                                RawTimezoneEntry::Name(n) => zones[i].name == n@ && zones[i].label
                                    == label_spec(n@),
                                RawTimezoneEntry::Detailed(d) => {
                                    &&& zones[i].name == d.name@
                                    &&& match d.label {
                                        Some(l) => if trim_spec(l@).len() > 0 {
                                            zones[i].label == trim_spec(l@)
                                        } else {
                                            zones[i].label == label_spec(d.name@)
                                        },
                                        None => zones[i].label == label_spec(d.name@),
                                    }
                                },
                            }
                        }
                },
            }
        }),
{
}

proof fn lemma_cli_zones_labelled(args: Seq<Seq<char>>, st: CliState)
    requires
        forall|i: int|
            0 <= i < st.timezones.len() ==> (#[trigger] st.timezones[i]).label == label_spec(
                st.timezones[i].name,
            ),
    ensures
        forall|i: int|
            0 <= i < cli_fold(args, st).timezones.len() ==> (#[trigger] cli_fold(
                args,
                st,
            ).timezones[i]).label == label_spec(cli_fold(args, st).timezones[i].name),
    decreases args.len(),
{
    if args.len() > 0 {
        let arg = args[0];
        if arg == "--primary"@ {
            if args.len() > 1 {
                let next = CliState { primary_zone: args[1], theme_name: st.theme_name, timezones: st.timezones };
                lemma_cli_zones_labelled(args.skip(2), next);
                assert(cli_fold(args, st) == cli_fold(args.skip(2), next));
            }
        } else if strip_prefix_spec(arg, "--primary="@) is Some {
            let next = CliState {
                primary_zone: strip_prefix_spec(arg, "--primary="@)->0,
                theme_name: st.theme_name,
                timezones: st.timezones,
            };
            lemma_cli_zones_labelled(args.skip(1), next);
            assert(cli_fold(args, st) == cli_fold(args.skip(1), next));
        } else if arg == "--theme"@ {
            if args.len() > 1 {
                let next = CliState { primary_zone: st.primary_zone, theme_name: args[1], timezones: st.timezones };
                lemma_cli_zones_labelled(args.skip(2), next);
                assert(cli_fold(args, st) == cli_fold(args.skip(2), next));
            }
        } else if strip_prefix_spec(arg, "--theme="@) is Some {
            let next = CliState {
                primary_zone: st.primary_zone,
                theme_name: strip_prefix_spec(arg, "--theme="@)->0,
                timezones: st.timezones,
            };
            lemma_cli_zones_labelled(args.skip(1), next);
            assert(cli_fold(args, st) == cli_fold(args.skip(1), next));
        } else if arg == "--timezone"@ {
            if args.len() > 1 {
                let z = st.timezones.push(from_name_spec(args[1]));
                assert forall|i: int| 0 <= i < z.len() implies (#[trigger] z[i]).label == label_spec(
                    z[i].name,
                ) by {
                    if i < st.timezones.len() {
                        assert(z[i] == st.timezones[i]);
                    }
                }
                let next = CliState { primary_zone: st.primary_zone, theme_name: st.theme_name, timezones: z };
                lemma_cli_zones_labelled(args.skip(2), next);
                assert(cli_fold(args, st) == cli_fold(args.skip(2), next));
            }
        } else if strip_prefix_spec(arg, "--timezone="@) is Some {
            let z = st.timezones.push(from_name_spec(strip_prefix_spec(arg, "--timezone="@)->0));
            assert forall|i: int| 0 <= i < z.len() implies (#[trigger] z[i]).label == label_spec(
                z[i].name,
            ) by {
                if i < st.timezones.len() {
                    assert(z[i] == st.timezones[i]);
                }
            }
            let next = CliState { primary_zone: st.primary_zone, theme_name: st.theme_name, timezones: z };
            lemma_cli_zones_labelled(args.skip(1), next);
            assert(cli_fold(args, st) == cli_fold(args.skip(1), next));
        } else {
            lemma_cli_zones_labelled(args.skip(1), st);
            assert(cli_fold(args, st) == cli_fold(args.skip(1), st));
        }
    }
}

/// Zones given on the command line, as `--timezone <zone>` or
/// `--timezone=<zone>`, are labelled from their names: after the command line,
/// the zone list is either the configured one, untouched, or made only of
/// zones whose label is derived from their name.
pub proof fn command_line_zones_are_labelled_from_names(cfg: ConfigView, args: Seq<Seq<char>>)
    ensures
        ({
            let zones = cli_applied(cfg, args).timezones;
            ||| zones == cfg.timezones
            ||| forall|i: int|
                0 <= i < zones.len() ==> (#[trigger] zones[i]).label == label_spec(zones[i].name)
        }),
{
    lemma_cli_zones_labelled(
        args,
        CliState { primary_zone: cfg.primary_zone, theme_name: cfg.theme_name, timezones: Seq::empty() },
    );
}

/// However the configuration file and the command line read, the redraw
/// interval of the resulting configuration is at least 1 ms.
pub proof fn refresh_interval_is_positive(raw: RawConfigFile, args: Seq<Seq<char>>)
    ensures
        cli_applied(apply_raw_spec(default_config(), raw), args).refresh_interval_ms >= 1,
{
}

} // verus!
