//! The clock application's state: the zones to show and the quit dialog,
//! whose keys `handle_key` decides.
use vstd::prelude::*;
use crate::config::{Config, TimezoneSpec};
use crate::text::concat2;

verus! {

#[verifier::external_type_specification]
#[verifier::external_body]
pub struct ExTz(chrono_tz::Tz);

/// The zone that chrono-tz's table holds under the name `name`, spelled
/// exactly so; `None` when the table has no such name.
pub uninterp spec fn tz_lookup(name: Seq<char>) -> Option<chrono_tz::Tz>;

/// Whether chrono-tz knows a zone spelled exactly `name`.
pub open spec fn tz_name_known(name: Seq<char>) -> bool {
    tz_lookup(name) is Some
}

/// `<chrono_tz::Tz as FromStr>::from_str`: looks `name`, exactly as written,
/// up in chrono-tz's fixed table of zone names. Claimed: the result is the
/// table's entry for `name`, a function of `name` alone (`tz_lookup`).
#[verifier::external_body]
fn parse_tz(name: &str) -> (tz: Option<chrono_tz::Tz>)
    ensures
        tz == tz_lookup(name@),
{
    name.parse::<chrono_tz::Tz>().ok()
}

/// A zone shown beside the main clock, with its label.
#[derive(Debug)]
pub struct ZoneClock {
    pub label: String,
    pub tz: chrono_tz::Tz,
}

/// The running clock: its configuration, the parsed zones and the state of
/// the quit dialog (`show_quit`: the dialog is open; `select_yes`: "Yes" is
/// the selected answer).
#[derive(Debug)]
pub struct ClockApp {
    pub config: Config,
    pub primary_tz: chrono_tz::Tz,
    pub zones: Vec<ZoneClock>,
    pub show_quit: bool,
    pub select_yes: bool,
}

/// What the event loop does after a key.
#[derive(Clone, Copy, Debug, PartialEq, Eq, Structural)]
pub enum AppAction {
    Idle,
    Redraw,
    Quit,
}

/// The keys the clock tells apart.
#[derive(Clone, Copy, Debug, PartialEq, Eq, Structural)]
pub enum KeyCode {
    Left,
    Right,
    Enter,
    Esc,
    Char(char),
    Other,
}

/// Whether Control was held with a key.
#[allow(non_camel_case_types)]
#[derive(Clone, Copy, Debug, PartialEq, Eq, Structural)]
pub enum KeyModifiers {
    NONE,
    CONTROL,
}

/// A key press.
#[derive(Clone, Copy, Debug, PartialEq, Eq, Structural)]
pub struct KeyEvent {
    pub code: KeyCode,
    pub modifiers: KeyModifiers,
}

impl KeyEvent {
    /// The press of `code` with `modifiers`.
    pub fn new(code: KeyCode, modifiers: KeyModifiers) -> (key: Self)
        ensures
            key.code == code,
            key.modifiers == modifiers,
    {
        KeyEvent { code, modifiers }
    }
}

/// Whether `key` is Ctrl+Q.
pub open spec fn is_ctrl_q_spec(key: KeyEvent) -> bool {
    key.code == KeyCode::Char('q') && key.modifiers == KeyModifiers::CONTROL
}

/// Whether `key` is Ctrl+Q.
pub fn is_ctrl_q(key: KeyEvent) -> (r: bool)
    ensures
        r == is_ctrl_q_spec(key),
{
    match (key.code, key.modifiers) {
        (KeyCode::Char(c), KeyModifiers::CONTROL) => c == 'q',
        _ => false,
    }
}

/// The quit dialog's answer to `key`: from `(show_quit, select_yes)` to the
/// new pair and the action. Ctrl+Q opens the closed dialog with "Yes"
/// selected; while it is closed nothing else counts. While it is open,
/// Left or `h` selects "No", Right or `l` selects "Yes", Enter quits on
/// "Yes" and closes on "No", and Esc closes it. A key that changes nothing
/// asks for nothing.
pub open spec fn key_step(show_quit: bool, select_yes: bool, key: KeyEvent) -> (bool, bool, AppAction) {
    if is_ctrl_q_spec(key) && !show_quit {
        (true, true, AppAction::Redraw)
    } else if !show_quit {
        (show_quit, select_yes, AppAction::Idle)
    } else if key.code == KeyCode::Left || key.code == KeyCode::Char('h') {
        if select_yes {
            (show_quit, false, AppAction::Redraw)
        } else {
            (show_quit, select_yes, AppAction::Idle)
        }
    } else if key.code == KeyCode::Right || key.code == KeyCode::Char('l') {
        if !select_yes {
            (show_quit, true, AppAction::Redraw)
        } else {
            (show_quit, select_yes, AppAction::Idle)
        }
    } else if key.code == KeyCode::Enter {
        if select_yes {
            (show_quit, select_yes, AppAction::Quit)
        } else {
            (false, select_yes, AppAction::Redraw)
        }
    } else if key.code == KeyCode::Esc {
        (false, select_yes, AppAction::Redraw)
    } else {
        (show_quit, select_yes, AppAction::Idle)
    }
}

/// The message for a primary zone that chrono-tz does not know.
pub open spec fn invalid_primary_message(name: Seq<char>) -> Seq<char> {
    "Invalid primary timezone: "@ + name
}

/// The message for a zone that chrono-tz does not know.
pub open spec fn invalid_zone_message(name: Seq<char>) -> Seq<char> {
    "Invalid timezone: "@ + name
}

/// `app` shows `config`, with the given primary zone and `zones[i]` for the
/// `i`-th configured zone, its dialog closed and "Yes" preselected.
pub open spec fn assembled_from(
    app: ClockApp,
    config: Config,
    primary: chrono_tz::Tz,
    zones: Seq<chrono_tz::Tz>,
) -> bool {
    &&& app.config == config
    &&& app.primary_tz == primary
    &&& app.zones@.len() == zones.len()
    &&& forall|i: int|
        0 <= i < zones.len() ==> (#[trigger] app.zones@[i]).label == config.timezones@[i].label
            && app.zones@[i].tz == zones[i]
    &&& !app.show_quit
    &&& app.select_yes
}

impl ClockApp {
    /// The clock for `config`, given the primary zone and each configured
    /// zone as parsed (`None` where the name is unknown): the unknown primary
    /// zone, else the first unknown zone, is the error.
    pub fn from_parsed(
        config: Config,
        primary: Option<chrono_tz::Tz>,
        zones: Vec<Option<chrono_tz::Tz>>,
    ) -> (res: Result<Self, String>)
        requires
            zones@.len() == config.timezones@.len(),
        ensures
            res is Ok <==> (primary is Some && forall|i: int|
                0 <= i < zones@.len() ==> #[trigger] zones@[i] is Some),
            match res {
                Ok(app) => assembled_from(
                    app,
                    config,
                    primary->0,
                    zones@.map_values(|z: Option<chrono_tz::Tz>| z->0),
                ),
                Err(e) => if primary is None {
                    e@ == invalid_primary_message(config.primary_zone@)
                } else {
                    exists|k: int|
                        0 <= k < zones@.len() && zones@[k] is None && (forall|j: int|
                            0 <= j < k ==> #[trigger] zones@[j] is Some) && e@
                            == invalid_zone_message(config.timezones@[k].name@)
                },
            },
    {
        let primary_tz = match primary {
            Some(tz) => tz,
            None => {
                return Err(concat2("Invalid primary timezone: ", config.primary_zone.as_str()));
            },
        };
        let n = zones.len();
        let mut clocks: Vec<ZoneClock> = Vec::new();
        let mut i: usize = 0;
        while i < n
            invariant
                n == zones@.len(),
                primary is Some,
                zones@.len() == config.timezones@.len(),
                i <= n,
                clocks@.len() == i,
                forall|j: int| 0 <= j < i ==> #[trigger] zones@[j] is Some,
                forall|j: int|
                    0 <= j < i ==> (#[trigger] clocks@[j]).label == config.timezones@[j].label
                        && clocks@[j].tz == zones@[j]->0,
            decreases n - i,
        {
            match zones[i] {
                Some(tz) => {
                    clocks.push(ZoneClock { label: config.timezones[i].label.clone(), tz });
                },
                None => {
                    let e = concat2("Invalid timezone: ", config.timezones[i].name.as_str());
                    assert(zones@[i as int] is None);
                    assert(0 <= i < zones@.len() && zones@[i as int] is None && (forall|j: int|
                        0 <= j < i ==> #[trigger] zones@[j] is Some) && e@ == invalid_zone_message(
                        config.timezones@[i as int].name@,
                    ));
                    return Err(e);
                },
            }
            i = i + 1;
        }
        Ok(ClockApp { config, primary_tz, zones: clocks, show_quit: false, select_yes: true })
    }

    /// The clock for `config`: every zone name must be known to chrono-tz;
    /// the unknown primary zone, else the first unknown zone, is the error.
    pub fn new(config: Config) -> (res: Result<Self, String>)
        ensures
            res is Ok <==> (tz_name_known(config.primary_zone@) && forall|i: int|
                0 <= i < config.timezones@.len() ==> tz_name_known(
                    #[trigger] config.timezones@[i].name@,
                )),
            match res {
                Ok(app) => app.config == config && app.primary_tz == tz_lookup(
                    config.primary_zone@,
                )->0 && app.zones@.len() == config.timezones@.len() && (forall|i: int|
                    0 <= i < config.timezones@.len() ==> (#[trigger] app.zones@[i]).label
                        == config.timezones@[i].label && app.zones@[i].tz == tz_lookup(
                        config.timezones@[i].name@,
                    )->0) && !app.show_quit && app.select_yes,
                Err(e) => if !tz_name_known(config.primary_zone@) {
                    e@ == invalid_primary_message(config.primary_zone@)
                } else {
                    exists|k: int|
                        0 <= k < config.timezones@.len() && !tz_name_known(
                            config.timezones@[k].name@,
                        ) && (forall|j: int|
                            0 <= j < k ==> tz_name_known(#[trigger] config.timezones@[j].name@))
                            && e@ == invalid_zone_message(config.timezones@[k].name@)
                },
            },
    {
        let primary = parse_tz(config.primary_zone.as_str());
        let n = config.timezones.len();
        let mut parsed: Vec<Option<chrono_tz::Tz>> = Vec::new();
        let mut i: usize = 0;
        while i < n
            invariant
                n == config.timezones@.len(),
                i <= n,
                parsed@.len() == i,
                forall|j: int|
                    0 <= j < i ==> #[trigger] parsed@[j] == tz_lookup(config.timezones@[j].name@),
            decreases n - i,
        {
            parsed.push(parse_tz(config.timezones[i].name.as_str()));
            i = i + 1;
        }
        let ghost parsed_view = parsed@;
        let res = Self::from_parsed(config, primary, parsed);
        proof {
            if res is Err && primary is Some {
                let k = choose|k: int|
                    0 <= k < parsed_view.len() && parsed_view[k] is None && (forall|j: int|
                        0 <= j < k ==> #[trigger] parsed_view[j] is Some) && res->Err_0@
                        == invalid_zone_message(config.timezones@[k].name@);
                assert forall|j: int| 0 <= j < k implies tz_name_known(
                    #[trigger] config.timezones@[j].name@,
                ) by {
                    assert(parsed_view[j] is Some);
                }
            }
            if res is Ok {
                assert forall|i: int| 0 <= i < config.timezones@.len() implies tz_name_known(
                    #[trigger] config.timezones@[i].name@,
                ) by {
                    assert(parsed_view[i] is Some);
                }
            }
            if !(res is Ok) && primary is Some {
                assert(exists|i: int| 0 <= i < parsed_view.len() && !(#[trigger] parsed_view[i] is Some));
            }
        }
        res
    }

    /// Answers a key press (see `key_step`); only the dialog state changes.
    pub fn handle_key(&mut self, key: KeyEvent) -> (action: AppAction)
        ensures
            (final(self).show_quit, final(self).select_yes, action) == key_step(
                old(self).show_quit,
                old(self).select_yes,
                key,
            ),
            old(self).show_quit && (key.code == KeyCode::Left || key.code == KeyCode::Char('h'))
                ==> final(self).show_quit && !final(self).select_yes,
            old(self).show_quit && (key.code == KeyCode::Right || key.code == KeyCode::Char('l'))
                ==> final(self).show_quit && final(self).select_yes,
            action == AppAction::Quit ==> old(self).show_quit && old(self).select_yes && key.code
                == KeyCode::Enter,
            final(self).config == old(self).config,
            final(self).primary_tz == old(self).primary_tz,
            final(self).zones == old(self).zones,
    {
        if is_ctrl_q(key) && !self.show_quit {
            self.show_quit = true;
            self.select_yes = true;
            return AppAction::Redraw;
        }
        if !self.show_quit {
            return AppAction::Idle;
        }
        match key.code {
            KeyCode::Left | KeyCode::Char('h') => {
                if self.select_yes {
                    self.select_yes = false;
                    AppAction::Redraw
                } else {
                    AppAction::Idle
                }
            },
            KeyCode::Right | KeyCode::Char('l') => {
                if !self.select_yes {
                    self.select_yes = true;
                    AppAction::Redraw
                } else {
                    AppAction::Idle
                }
            },
            KeyCode::Enter => {
                if self.select_yes {
                    AppAction::Quit
                } else {
                    self.show_quit = false;
                    AppAction::Redraw
                }
            },
            KeyCode::Esc => {
                self.show_quit = false;
                AppAction::Redraw
            },
            _ => AppAction::Idle,
        }
    }
}


/// How long the event loop waits for a key, in nanoseconds: what is left of
/// the refresh interval since the last tick, nothing once it has passed.
pub fn poll_timeout(refresh_nanos: u128, elapsed_nanos: u128) -> (t: u128)
    ensures
        t == if elapsed_nanos >= refresh_nanos {
            0
        } else {
            refresh_nanos - elapsed_nanos
        },
{
    refresh_nanos.saturating_sub(elapsed_nanos)
}

/// Whether a new tick starts: the refresh interval has passed since the last.
pub fn tick_is_due(refresh_nanos: u128, elapsed_nanos: u128) -> (due: bool)
    ensures
        due == (elapsed_nanos >= refresh_nanos),
{
    elapsed_nanos >= refresh_nanos
}

/// The clock quits only from the open dialog, with "Yes" selected, on Enter.
pub proof fn quit_needs_confirmation(show_quit: bool, select_yes: bool, key: KeyEvent)
    ensures
        key_step(show_quit, select_yes, key).2 == AppAction::Quit ==> show_quit && select_yes
            && key.code == KeyCode::Enter,
{
}

/// A key asks for a redraw exactly when it changes the dialog; quitting
/// leaves the dialog as it was.
pub proof fn redraw_exactly_on_change(show_quit: bool, select_yes: bool, key: KeyEvent)
    ensures
        ({
            let (show, yes, action) = key_step(show_quit, select_yes, key);
            &&& action == AppAction::Quit ==> show == show_quit && yes == select_yes
            &&& action != AppAction::Quit ==> (action == AppAction::Redraw <==> (show != show_quit
                || yes != select_yes))
        }),
{
}

/// While the dialog is closed, every key but Ctrl+Q is ignored.
pub proof fn closed_dialog_ignores_keys(select_yes: bool, key: KeyEvent)
    requires
        !is_ctrl_q_spec(key),
    ensures
        key_step(false, select_yes, key) == (false, select_yes, AppAction::Idle),
{
}

/// Ctrl+Q opens the dialog with "Yes" selected, so a following Enter quits.
pub proof fn ctrl_q_then_enter_quits(select_yes: bool, enter: KeyEvent, ctrl_q: KeyEvent)
    requires
        is_ctrl_q_spec(ctrl_q),
        enter.code == KeyCode::Enter,
    ensures
        ({
            let (show, yes, first) = key_step(false, select_yes, ctrl_q);
            &&& first == AppAction::Redraw
            &&& show && yes
            &&& key_step(show, yes, enter).2 == AppAction::Quit
        }),
{
}

/// Choosing "No" and pressing Enter closes the dialog without quitting.
pub proof fn no_then_enter_closes(left: KeyEvent, enter: KeyEvent)
    requires
        left.code == KeyCode::Left,
        enter.code == KeyCode::Enter,
    ensures
        ({
            let (show, yes, first) = key_step(true, true, left);
            &&& first == AppAction::Redraw
            &&& show && !yes
            &&& key_step(show, yes, enter) == (false, false, AppAction::Redraw)
        }),
{
}

/// In the open dialog, Left or `h` selects "No" whatever was selected, and
/// asks for a redraw only when "Yes" was selected; Right or `l` selects "Yes"
/// likewise. The dialog stays open.
pub proof fn arrows_select_an_answer(select_yes: bool, key: KeyEvent)
    ensures
        key.code == KeyCode::Left || key.code == KeyCode::Char('h') ==> key_step(
            true,
            select_yes,
            key,
        ) == (true, false, if select_yes {
            AppAction::Redraw
        } else {
            AppAction::Idle
        }),
        key.code == KeyCode::Right || key.code == KeyCode::Char('l') ==> key_step(
            true,
            select_yes,
            key,
        ) == (true, true, if select_yes {
            AppAction::Idle
        } else {
            AppAction::Redraw
        }),
{
}

/// In the open dialog, Enter quits when "Yes" is selected and otherwise
/// closes the dialog with "No" still selected.
pub proof fn enter_answers_the_dialog(select_yes: bool, key: KeyEvent)
    requires
        key.code == KeyCode::Enter,
    ensures
        select_yes ==> key_step(true, select_yes, key) == (true, true, AppAction::Quit),
        !select_yes ==> key_step(true, select_yes, key) == (false, false, AppAction::Redraw),
{
}

/// Esc closes the open dialog and keeps the selection.
pub proof fn esc_closes_dialog(select_yes: bool, key: KeyEvent)
    requires
        key.code == KeyCode::Esc,
    ensures
        key_step(true, select_yes, key) == (false, select_yes, AppAction::Redraw),
{
}

} // verus!
