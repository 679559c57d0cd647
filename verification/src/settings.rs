//! The settings that need no floating point, what applying them does to the
//! desktop, and the autostart entry of a Flatpak installation.

use vstd::prelude::*;
use vstd::string::*;
use vstd::utf8::*;

use crate::text;
use crate::text::{chars_of, joined, split_string, trim};

verus! {

/// The settings, but for the display zoom.
#[derive(Debug, Clone, PartialEq, Eq)]
pub struct Preferences {
    pub close_to_tray: bool,
    pub start_minimized: bool,
    pub autostart: bool,
    pub hotkey_enabled: bool,
    pub hotkey: String,
    pub notifications: bool,
}

impl Default for Preferences {
    fn default() -> (p: Self)
        ensures
            p.close_to_tray,
            !p.start_minimized,
            !p.autostart,
            p.hotkey_enabled,
            p.hotkey@ == "CmdOrCtrl+Shift+W"@,
            p.notifications,
    {
        Preferences {
            close_to_tray: true,
            start_minimized: false,
            autostart: false,
            hotkey_enabled: true,
            hotkey: "CmdOrCtrl+Shift+W".to_owned(),
            notifications: true,
        }
    }
}

// ---------------------------------------------------------------------------
// Flatpak.
// ---------------------------------------------------------------------------

/// Whether a character may start a part of a Flatpak id.
pub open spec fn starts_part(c: char) -> bool {
    'a' <= c <= 'z' || 'A' <= c <= 'Z' || c == '_'
}

/// Whether a character may follow in a part of a Flatpak id.
pub open spec fn continues_part(c: char) -> bool {
    starts_part(c) || '0' <= c <= '9' || c == '-'
}

/// Whether `part` is a part of a Flatpak id.
pub open spec fn is_id_part(part: Seq<char>) -> bool {
    &&& part.len() > 0
    &&& starts_part(part[0])
    &&& forall|i: int| 1 <= i < part.len() ==> continues_part(#[trigger] part[i])
}

/// Whether `id` is a Flatpak id: at most 255 bytes, at least three parts
/// separated by dots.
pub open spec fn spec_is_valid_flatpak_id(id: Seq<char>) -> bool {
    &&& encode_utf8(id).len() <= 255
    &&& text::split(id, '.').len() >= 3
    &&& forall|i: int|
        0 <= i < text::split(id, '.').len() ==> is_id_part(#[trigger] text::split(id, '.')[i])
}

fn may_start_part(c: char) -> (may: bool)
    ensures
        may == starts_part(c),
{
    ('a' <= c && c <= 'z') || ('A' <= c && c <= 'Z') || c == '_'
}

fn may_continue_part(c: char) -> (may: bool)
    ensures
        may == continues_part(c),
{
    may_start_part(c) || ('0' <= c && c <= '9') || c == '-'
}

fn is_part(part: &str) -> (valid: bool)
    ensures
        valid == is_id_part(part@),
{
    let chars: Vec<char> = chars_of(part);
    if chars.len() == 0 || !may_start_part(chars[0]) {
        return false;
    }
    let mut i: usize = 1;
    while i < chars.len()
        invariant
            1 <= i <= chars@.len(),
            chars@ == part@,
            forall|j: int| 1 <= j < i ==> continues_part(#[trigger] part@[j]),
        decreases chars@.len() - i,
    {
        if !may_continue_part(chars[i]) {
            return false;
        }
        i += 1;
    }
    true
}

/// Whether `id` is a Flatpak id: at most 255 bytes, at least three parts
/// separated by dots, each a letter or `_` and then letters, digits, `_` or `-`.
pub fn is_valid_flatpak_id(id: &str) -> (valid: bool)
    ensures
        valid == spec_is_valid_flatpak_id(id@),
{
    if id.as_bytes().len() > 255 {
        return false;
    }
    let parts: Vec<String> = split_string(id, '.');
    let ghost all = text::split(id@, '.');
    assert(all.len() == parts@.len());
    if parts.len() < 3 {
        return false;
    }
    let mut i: usize = 0;
    while i < parts.len()
        invariant
            i <= parts@.len(),
            all == text::views(parts@),
            all == text::split(id@, '.'),
            forall|j: int| 0 <= j < i ==> is_id_part(#[trigger] all[j]),
        decreases parts@.len() - i,
    {
        assert(all[i as int] == parts@[i as int]@);
        if !is_part(&parts[i]) {
            return false;
        }
        i += 1;
    }
    true
}

/// The Flatpak id of the process, from the value of its environment variable.
pub open spec fn spec_flatpak_id(variable: Option<Seq<char>>) -> Option<Seq<char>> {
    match variable {
        Some(v) => if spec_is_valid_flatpak_id(v) {
            Some(v)
        } else {
            None
        },
        None => None,
    }
}

/// The Flatpak id of the process: the value of its environment variable, if that
/// is one.
pub fn flatpak_id(variable: Option<String>) -> (id: Option<String>)
    ensures
        text::opt_string_view(id) == match text::opt_string_view(variable) {
            Some(v) => if spec_is_valid_flatpak_id(v) {
                Some(v)
            } else {
                None
            },
            None => None,
        },
        text::opt_string_view(id) == spec_flatpak_id(text::opt_string_view(variable)),
{
    match variable {
        Some(v) => if is_valid_flatpak_id(&v) {
            Some(v)
        } else {
            None
        },
        None => None,
    }
}

/// The lines of an autostart entry that enters the sandbox of `id`.
pub open spec fn entry_lines(id: Seq<char>) -> Seq<Seq<char>> {
    seq![
        "[Desktop Entry]"@,
        "Type=Application"@,
        "Version=1.0"@,
        "Name=whatRust"@,
        "Comment=Start whatRust minimized"@,
        "Exec=flatpak run --command=whatrust "@ + id + " --minimized"@,
        "Icon="@ + id,
        "Terminal=false"@,
        "X-GNOME-Autostart-enabled=true"@,
        "X-Flatpak="@ + id,
    ]
}

/// The text of a list of lines, each ended by a line feed.
pub open spec fn lines_text(lines: Seq<Seq<char>>) -> Seq<char>
    decreases lines.len(),
{
    if lines.len() == 0 {
        Seq::empty()
    } else {
        lines_text(lines.drop_last()) + lines.last().push('\n')
    }
}

/// The text of a list of lines, each ended by a line feed.
fn text_of_lines(lines: &Vec<String>) -> (t: String)
    ensures
        t@ == lines_text(text::views(lines@)),
{
    let ghost all = text::views(lines@);
    let mut t: String = String::new();
    let mut i: usize = 0;
    while i < lines.len()
        invariant
            i <= lines@.len(),
            all == text::views(lines@),
            t@ == lines_text(all.take(i as int)),
        decreases lines@.len() - i,
    {
        assert(all.take(i + 1).drop_last() == all.take(i as int));
        assert(all.take(i + 1).last() == lines@[i as int]@);
        let ghost before = t@;
        t.append(&lines[i]);
        t.push('\n');
        assert(t@ == before + lines@[i as int]@.push('\n'));
        i += 1;
    }
    assert(all.take(i as int) == all);
    t
}

/// The autostart entry of a Flatpak installation: it starts the app minimized,
/// inside its sandbox.
pub fn flatpak_autostart_entry(id: &str) -> (entry: String)
    ensures
        entry@ == lines_text(entry_lines(id@)),
{
    let mut lines: Vec<String> = Vec::new();
    lines.push("[Desktop Entry]".to_owned());
    lines.push("Type=Application".to_owned());
    lines.push("Version=1.0".to_owned());
    lines.push("Name=whatRust".to_owned());
    lines.push("Comment=Start whatRust minimized".to_owned());
    lines.push(joined(&joined("Exec=flatpak run --command=whatrust ", id), " --minimized"));
    lines.push(joined("Icon=", id));
    lines.push("Terminal=false".to_owned());
    lines.push("X-GNOME-Autostart-enabled=true".to_owned());
    lines.push(joined("X-Flatpak=", id));
    assert(text::views(lines@) == entry_lines(id@));
    text_of_lines(&lines)
}

/// What to do with the autostart entry of a Flatpak installation.
#[derive(Debug, PartialEq, Eq)]
pub enum EntryStep {
    /// Write this text to the file of this name.
    Write(String, String),
    /// Remove the file of this name.
    Remove(String),
    /// Nothing.
    Leave,
}

/// The view of an `EntryStep`.
pub enum EntryStepModel {
    Write(Seq<char>, Seq<char>),
    Remove(Seq<char>),
    Leave,
}

impl View for EntryStep {
    type V = EntryStepModel;

    open spec fn view(&self) -> EntryStepModel {
        match *self {
            EntryStep::Write(name, entry) => EntryStepModel::Write(name@, entry@),
            EntryStep::Remove(name) => EntryStepModel::Remove(name@),
            EntryStep::Leave => EntryStepModel::Leave,
        }
    }
}

/// The file name of the autostart entry of `id`.
pub open spec fn entry_name(id: Seq<char>) -> Seq<char> {
    id + ".desktop"@
}

/// The file name of the autostart entry of `id`.
pub fn flatpak_entry_name(id: &str) -> (name: String)
    ensures
        name@ == entry_name(id@),
{
    joined(id, ".desktop")
}

/// What to do with the autostart entry of a Flatpak installation.
pub open spec fn spec_entry_step(id: Seq<char>, enabled: bool, present: bool) -> EntryStepModel {
    if enabled {
        EntryStepModel::Write(entry_name(id), lines_text(entry_lines(id)))
    } else if present {
        EntryStepModel::Remove(entry_name(id))
    } else {
        EntryStepModel::Leave
    }
}

/// What to do with the autostart entry of a Flatpak installation, where `present`
/// says whether the file is there.
pub fn apply_flatpak_autostart(id: &str, enabled: bool, present: bool) -> (step: EntryStep)
    ensures
        step@ == if enabled {
            EntryStepModel::Write(entry_name(id@), lines_text(entry_lines(id@)))
        } else if present {
            EntryStepModel::Remove(entry_name(id@))
        } else {
            EntryStepModel::Leave
        },
        step@ == spec_entry_step(id@, enabled, present),
{
    if enabled {
        EntryStep::Write(flatpak_entry_name(id), flatpak_autostart_entry(id))
    } else if present {
        EntryStep::Remove(flatpak_entry_name(id))
    } else {
        EntryStep::Leave
    }
}

// ---------------------------------------------------------------------------
// Applying the settings.
// ---------------------------------------------------------------------------

/// One step of applying the settings.
#[derive(Debug, PartialEq, Eq)]
pub enum ApplyAction {
    /// Bring the autostart entry of this Flatpak id to this state.
    FlatpakAutostart(String, bool),
    EnableAutostart,
    /// Find out whether autostart is enabled. Disabling what is not enabled
    /// fails on some systems; there it must be left alone.
    QueryAutostart,
    DisableAutostart,
    UnregisterShortcuts,
    RegisterShortcut(String),
    /// All is done; the failures, if any, as one warning.
    Done(Option<String>),
}

/// The view of an `ApplyAction`.
pub enum ActionModel {
    FlatpakAutostart(Seq<char>, bool),
    EnableAutostart,
    QueryAutostart,
    DisableAutostart,
    UnregisterShortcuts,
    RegisterShortcut(Seq<char>),
    Done(Option<Seq<char>>),
}

impl View for ApplyAction {
    type V = ActionModel;

    open spec fn view(&self) -> ActionModel {
        match *self {
            ApplyAction::FlatpakAutostart(id, enabled) => ActionModel::FlatpakAutostart(
                id@,
                enabled,
            ),
            ApplyAction::EnableAutostart => ActionModel::EnableAutostart,
            ApplyAction::QueryAutostart => ActionModel::QueryAutostart,
            ApplyAction::DisableAutostart => ActionModel::DisableAutostart,
            ApplyAction::UnregisterShortcuts => ActionModel::UnregisterShortcuts,
            ApplyAction::RegisterShortcut(hotkey) => ActionModel::RegisterShortcut(hotkey@),
            ApplyAction::Done(warning) => ActionModel::Done(text::opt_string_view(warning)),
        }
    }
}

/// What came of a step.
#[derive(Debug, PartialEq, Eq)]
pub enum ApplyEvent {
    Succeeded,
    Failed(String),
    /// Whether autostart is enabled, after `QueryAutostart`.
    AutostartIs(bool),
}

/// The view of an `ApplyEvent`.
pub enum EventModel {
    Succeeded,
    Failed(Seq<char>),
    AutostartIs(bool),
}

impl View for ApplyEvent {
    type V = EventModel;

    open spec fn view(&self) -> EventModel {
        match *self {
            ApplyEvent::Succeeded => EventModel::Succeeded,
            ApplyEvent::Failed(e) => EventModel::Failed(e@),
            ApplyEvent::AutostartIs(enabled) => EventModel::AutostartIs(enabled),
        }
    }
}

/// The step whose outcome is awaited.
#[derive(Debug, Clone, Copy, PartialEq, Eq, Structural)]
pub enum Phase {
    Querying,
    Autostart,
    Unregistering,
    Registering,
    Finished,
}

/// The state of applying the settings.
#[derive(Debug)]
pub struct ApplyRun {
    pub phase: Phase,
    /// The shortcut to register.
    pub shortcut: Option<String>,
    pub warnings: Vec<String>,
}

/// The view of an `ApplyRun`.
pub struct RunModel {
    pub phase: Phase,
    pub shortcut: Option<Seq<char>>,
    pub warnings: Seq<Seq<char>>,
}

impl View for ApplyRun {
    type V = RunModel;

    open spec fn view(&self) -> RunModel {
        RunModel {
            phase: self.phase,
            shortcut: text::opt_string_view(self.shortcut),
            warnings: text::views(self.warnings@),
        }
    }
}

/// The shortcut that the settings ask for.
pub open spec fn wanted_shortcut(enabled: bool, hotkey: Seq<char>) -> Option<Seq<char>> {
    if enabled && text::trimmed(hotkey).len() > 0 {
        Some(hotkey)
    } else {
        None
    }
}

/// The first step of applying the settings.
pub open spec fn spec_start(
    autostart: bool,
    hotkey_enabled: bool,
    hotkey: Seq<char>,
    flatpak: Option<Seq<char>>,
) -> (RunModel, ActionModel) {
    let (phase, action) = match flatpak {
        Some(id) => (Phase::Autostart, ActionModel::FlatpakAutostart(id, autostart)),
        None => if autostart {
            (Phase::Autostart, ActionModel::EnableAutostart)
        } else {
            (Phase::Querying, ActionModel::QueryAutostart)
        },
    };
    (
        RunModel {
            phase,
            shortcut: wanted_shortcut(hotkey_enabled, hotkey),
            warnings: Seq::empty(),
        },
        action,
    )
}

/// The warning about autostart that failed with `e`.
pub open spec fn autostart_warning(e: Seq<char>) -> Seq<char> {
    "autostart could not be updated: "@ + e
}

/// The warning about a shortcut that failed with `e`.
pub open spec fn shortcut_warning(e: Seq<char>) -> Seq<char> {
    "shortcut not registered (it may be in use): "@ + e
}

/// `warnings` and, after a failure, one more.
pub open spec fn warned(
    warnings: Seq<Seq<char>>,
    event: EventModel,
    warning: spec_fn(Seq<char>) -> Seq<char>,
) -> Seq<Seq<char>> {
    match event {
        EventModel::Failed(e) => warnings.push(warning(e)),
        _ => warnings,
    }
}

/// The warnings as one text, separated by `; `; `None` if there are none.
pub open spec fn warning_text(warnings: Seq<Seq<char>>) -> Option<Seq<char>>
    decreases warnings.len(),
{
    if warnings.len() == 0 {
        None
    } else {
        match warning_text(warnings.drop_last()) {
            Some(t) => Some(t + "; "@ + warnings.last()),
            None => Some(warnings.last()),
        }
    }
}

/// The step after `event`.
pub open spec fn spec_next(run: RunModel, event: EventModel) -> (RunModel, ActionModel) {
    match run.phase {
        Phase::Querying => if event == EventModel::AutostartIs(true) {
            (RunModel { phase: Phase::Autostart, ..run }, ActionModel::DisableAutostart)
        } else {
            (
                RunModel {
                    phase: Phase::Unregistering,
                    warnings: warned(run.warnings, event, |e: Seq<char>| autostart_warning(e)),
                    ..run
                },
                ActionModel::UnregisterShortcuts,
            )
        },
        Phase::Autostart => (
            RunModel {
                phase: Phase::Unregistering,
                warnings: warned(run.warnings, event, |e: Seq<char>| autostart_warning(e)),
                ..run
            },
            ActionModel::UnregisterShortcuts,
        ),
        Phase::Unregistering => match run.shortcut {
            Some(hotkey) => (
                RunModel { phase: Phase::Registering, ..run },
                ActionModel::RegisterShortcut(hotkey),
            ),
            None => (
                RunModel { phase: Phase::Finished, ..run },
                ActionModel::Done(warning_text(run.warnings)),
            ),
        },
        Phase::Registering => {
            let warnings = warned(run.warnings, event, |e: Seq<char>| shortcut_warning(e));
            (
                RunModel { phase: Phase::Finished, warnings, ..run },
                ActionModel::Done(warning_text(warnings)),
            )
        },
        Phase::Finished => (run, ActionModel::Done(warning_text(run.warnings))),
    }
}

/// The warnings as one text, separated by `; `.
fn join_warnings(warnings: &Vec<String>) -> (t: Option<String>)
    ensures
        text::opt_string_view(t) == warning_text(text::views(warnings@)),
{
    let ghost all = text::views(warnings@);
    if warnings.len() == 0 {
        return None;
    }
    let mut t: String = warnings[0].clone();
    let mut i: usize = 1;
    assert(warning_text(all.take(1).drop_last()) is None);
    assert(all.take(1).last() == warnings@[0]@);
    while i < warnings.len()
        invariant
            1 <= i <= warnings@.len(),
            all == text::views(warnings@),
            warning_text(all.take(i as int)) == Some(t@),
        decreases warnings@.len() - i,
    {
        assert(all.take(i + 1).drop_last() == all.take(i as int));
        assert(all.take(i + 1).last() == warnings@[i as int]@);
        t.append("; ");
        t.append(&warnings[i]);
        i += 1;
    }
    assert(all.take(i as int) == all);
    Some(t)
}

/// Adds `prefix` and the error of a failed step to the warnings.
fn note_failure(warnings: &mut Vec<String>, event: &ApplyEvent, prefix: &str)
    ensures
        text::views(final(warnings)@) == warned(
            text::views(old(warnings)@),
            event@,
            |e: Seq<char>| prefix@ + e,
        ),
{
    if let ApplyEvent::Failed(e) = event {
        let warning: String = joined(prefix, e);
        let ghost before = text::views(warnings@);
        warnings.push(warning);
        assert(text::views(warnings@) == before.push(warning@));
    }
}

impl ApplyRun {
    /// Starts to apply the settings: returns the first step to perform.
    pub fn start(p: &Preferences, flatpak: Option<String>) -> (first: (Self, ApplyAction))
        ensures
            (first.0@, first.1@) == spec_start(
                p.autostart,
                p.hotkey_enabled,
                p.hotkey@,
                text::opt_string_view(flatpak),
            ),
    {
        let (phase, action): (Phase, ApplyAction) = match flatpak {
            Some(id) => (Phase::Autostart, ApplyAction::FlatpakAutostart(id, p.autostart)),
            None => if p.autostart {
                (Phase::Autostart, ApplyAction::EnableAutostart)
            } else {
                (Phase::Querying, ApplyAction::QueryAutostart)
            },
        };
        let shortcut: Option<String> = if p.hotkey_enabled && !trim(&p.hotkey).is_empty() {
            Some(p.hotkey.clone())
        } else {
            None
        };
        let warnings: Vec<String> = Vec::new();
        assert(text::views(warnings@) == Seq::<Seq<char>>::empty());
        (ApplyRun { phase, shortcut, warnings }, action)
    }

    /// Takes in what came of the last step and returns the next one.
    pub fn next(&mut self, event: ApplyEvent) -> (action: ApplyAction)
        ensures
            (final(self)@, action@) == spec_next(old(self)@, event@),
    {
        match self.phase {
            Phase::Querying => {
                if let ApplyEvent::AutostartIs(true) = event {
                    self.phase = Phase::Autostart;
                    return ApplyAction::DisableAutostart;
                }
                note_failure(&mut self.warnings, &event, "autostart could not be updated: ");
                self.phase = Phase::Unregistering;
                assert(self@.warnings == spec_next(old(self)@, event@).0.warnings);
                ApplyAction::UnregisterShortcuts
            },
            Phase::Autostart => {
                note_failure(&mut self.warnings, &event, "autostart could not be updated: ");
                self.phase = Phase::Unregistering;
                assert(self@.warnings == spec_next(old(self)@, event@).0.warnings);
                ApplyAction::UnregisterShortcuts
            },
            Phase::Unregistering => match &self.shortcut {
                Some(hotkey) => {
                    let hotkey: String = hotkey.clone();
                    self.phase = Phase::Registering;
                    ApplyAction::RegisterShortcut(hotkey)
                },
                None => {
                    self.phase = Phase::Finished;
                    ApplyAction::Done(join_warnings(&self.warnings))
                },
            },
            Phase::Registering => {
                note_failure(
                    &mut self.warnings,
                    &event,
                    "shortcut not registered (it may be in use): ",
                );
                self.phase = Phase::Finished;
                assert(self@.warnings == spec_next(old(self)@, event@).0.warnings);
                ApplyAction::Done(join_warnings(&self.warnings))
            },
            Phase::Finished => ApplyAction::Done(join_warnings(&self.warnings)),
        }
    }
}

// ---------------------------------------------------------------------------
// Laws.
// ---------------------------------------------------------------------------

/// The characters of the parts of a split, and nothing but the separator
/// besides.
proof fn lemma_split_covers(s: Seq<char>, c: char, i: int)
    requires
        0 <= i < s.len(),
        s[i] != c,
    ensures
        exists|p: int, k: int|
            0 <= p < text::split(s, c).len() && 0 <= k < text::split(s, c)[p].len()
                && #[trigger] text::split(s, c)[p][k] == s[i],
    decreases s.len(),
{
    text::lemma_first_index(s, c);
    let at = text::first_index(s, c) as int;
    let parts = text::split(s, c);
    if at < s.len() {
        let rest = s.skip(at + 1);
        if i < at {
            assert(parts[0][i] == s[i]);
        } else {
            assert(rest[i - at - 1] == s[i]);
            lemma_split_covers(rest, c, i - at - 1);
            let (p, k) = choose|p: int, k: int|
                0 <= p < text::split(rest, c).len() && 0 <= k < text::split(rest, c)[p].len()
                    && #[trigger] text::split(rest, c)[p][k] == rest[i - at - 1];
            assert(parts[p + 1] == text::split(rest, c)[p]);
            assert(parts[p + 1][k] == s[i]);
        }
    } else {
        assert(parts[0][i] == s[i]);
    }
}

/// A Flatpak id holds letters, digits, `_`, `-` and dots only. So it cannot leave
/// the autostart directory, nor add a line to the entry.
pub proof fn law_flatpak_id_is_plain(id: Seq<char>)
    requires
        spec_is_valid_flatpak_id(id),
    ensures
        forall|i: int| 0 <= i < id.len() ==> continues_part(#[trigger] id[i]) || id[i] == '.',
        forall|i: int|
            0 <= i < id.len() ==> #[trigger] id[i] != '/' && id[i] != '\\' && id[i] != '\n',
        id.len() > 0 ==> id[0] != '.',
{
    assert forall|i: int| 0 <= i < id.len() implies continues_part(#[trigger] id[i]) || id[i]
        == '.' by {
        if id[i] != '.' {
            lemma_split_covers(id, '.', i);
            let (p, k) = choose|p: int, k: int|
                0 <= p < text::split(id, '.').len() && 0 <= k < text::split(id, '.')[p].len()
                    && #[trigger] text::split(id, '.')[p][k] == id[i];
            assert(is_id_part(text::split(id, '.')[p]));
        }
    }
    if id.len() > 0 && id[0] == '.' {
        assert(text::split(id, '.')[0].len() == 0);
        assert(is_id_part(text::split(id, '.')[0]));
    }
}

/// Whether a text is on one line.
pub open spec fn is_one_line(s: Seq<char>) -> bool {
    forall|i: int| 0 <= i < s.len() ==> #[trigger] s[i] != '\n'
}

proof fn lemma_split_line(line: Seq<char>, rest: Seq<char>)
    requires
        is_one_line(line),
    ensures
        text::split(line.push('\n') + rest, '\n') == seq![line] + text::split(rest, '\n'),
{
    let s = line.push('\n') + rest;
    let n = line.len() as int;
    assert forall|j: int| 0 <= j < n implies s[j] != '\n' by {
        assert(s[j] == line[j]);
    }
    text::lemma_first_index_is(s, '\n', n);
    assert(s.take(n) == line);
    assert(s.skip(n + 1) == rest);
}

/// The text of lines that are one line each splits into these lines again.
proof fn lemma_split_lines(lines: Seq<Seq<char>>, tail: Seq<char>)
    requires
        forall|i: int| 0 <= i < lines.len() ==> is_one_line(#[trigger] lines[i]),
    ensures
        text::split(lines_text(lines) + tail, '\n') == lines + text::split(tail, '\n'),
    decreases lines.len(),
{
    if lines.len() == 0 {
        assert(lines_text(lines) + tail == tail);
        assert(lines + text::split(tail, '\n') == text::split(tail, '\n'));
    } else {
        let init = lines.drop_last();
        let last = lines.last();
        assert(forall|i: int| 0 <= i < init.len() ==> init[i] == lines[i]);
        assert(is_one_line(lines[lines.len() - 1]));
        lemma_split_lines(init, last.push('\n') + tail);
        lemma_split_line(last, tail);
        assert(lines_text(lines) + tail == lines_text(init) + (last.push('\n') + tail));
        assert(init + (seq![last] + text::split(tail, '\n')) == lines + text::split(tail, '\n'));
    }
}

/// The autostart entry of a Flatpak id has exactly the lines that it is made of:
/// no id can add one.
pub proof fn law_entry_has_its_own_lines_only(id: Seq<char>)
    requires
        spec_is_valid_flatpak_id(id),
    ensures
        text::split(lines_text(entry_lines(id)), '\n') == entry_lines(id).push(
            Seq::<char>::empty(),
        ),
{
    law_flatpak_id_is_plain(id);
    let lines = entry_lines(id);
    let none = Seq::<char>::empty();
    reveal_strlit("[Desktop Entry]");
    reveal_strlit("Type=Application");
    reveal_strlit("Version=1.0");
    reveal_strlit("Name=whatRust");
    reveal_strlit("Comment=Start whatRust minimized");
    reveal_strlit("Exec=flatpak run --command=whatrust ");
    reveal_strlit(" --minimized");
    reveal_strlit("Icon=");
    reveal_strlit("Terminal=false");
    reveal_strlit("X-GNOME-Autostart-enabled=true");
    reveal_strlit("X-Flatpak=");
    assert(is_one_line(id));
    assert(is_one_line(lines[0]));
    assert(is_one_line(lines[1]));
    assert(is_one_line(lines[2]));
    assert(is_one_line(lines[3]));
    assert(is_one_line(lines[4]));
    assert(is_one_line("Exec=flatpak run --command=whatrust "@));
    assert(is_one_line(" --minimized"@));
    assert(is_one_line(lines[5]));
    assert(is_one_line("Icon="@));
    assert(is_one_line(lines[6]));
    assert(is_one_line(lines[7]));
    assert(is_one_line(lines[8]));
    assert(is_one_line("X-Flatpak="@));
    assert(is_one_line(lines[9]));
    lemma_split_lines(lines, none);
    assert(lines_text(lines) + none == lines_text(lines));
    assert(text::split(none, '\n') == seq![none]);
    assert(lines + seq![none] == lines.push(none));
}

/// How many steps are left at most.
pub open spec fn steps_left(phase: Phase) -> nat {
    match phase {
        Phase::Querying => 4,
        Phase::Autostart => 3,
        Phase::Unregistering => 2,
        Phase::Registering => 1,
        Phase::Finished => 0,
    }
}

/// Every step brings the run closer to its end, whatever comes of it, and the
/// run says that it is done exactly when it is.
pub proof fn law_apply_ends(run: RunModel, event: EventModel)
    ensures
        run.phase != Phase::Finished ==> steps_left(spec_next(run, event).0.phase) < steps_left(
            run.phase,
        ),
        spec_next(run, event).1 is Done <==> spec_next(run, event).0.phase == Phase::Finished,
{
}

/// How the desktop answers the steps: whether changing autostart fails, what the
/// query gives, whether unregistering the shortcuts and registering one fail.
pub struct Answers {
    pub autostart: Option<Seq<char>>,
    pub query: Result<bool, Seq<char>>,
    pub unregister: Option<Seq<char>>,
    pub shortcut: Option<Seq<char>>,
}

/// The outcome of a step that may fail.
pub open spec fn outcome(error: Option<Seq<char>>) -> EventModel {
    match error {
        Some(e) => EventModel::Failed(e),
        None => EventModel::Succeeded,
    }
}

/// The answer to a step.
pub open spec fn answer(a: Answers, action: ActionModel) -> EventModel {
    match action {
        ActionModel::QueryAutostart => match a.query {
            Ok(enabled) => EventModel::AutostartIs(enabled),
            Err(e) => EventModel::Failed(e),
        },
        ActionModel::RegisterShortcut(_) => outcome(a.shortcut),
        ActionModel::UnregisterShortcuts => outcome(a.unregister),
        _ => outcome(a.autostart),
    }
}

/// The last step of a run, with these answers.
pub open spec fn run_to_end(run: RunModel, action: ActionModel, a: Answers) -> ActionModel
    decreases steps_left(run.phase),
{
    if run.phase == Phase::Finished {
        action
    } else {
        let (after, next) = spec_next(run, answer(a, action));
        run_to_end(after, next, a)
    }
}

/// The warning about autostart, if any. Disabling what is not enabled is no
/// failure.
pub open spec fn autostart_failure(
    autostart: bool,
    flatpak: Option<Seq<char>>,
    a: Answers,
) -> Seq<Seq<char>> {
    let error = if flatpak is Some || autostart {
        a.autostart
    } else {
        match a.query {
            Ok(true) => a.autostart,
            Ok(false) => None,
            Err(e) => Some(e),
        }
    };
    match error {
        Some(e) => seq![autostart_warning(e)],
        None => Seq::empty(),
    }
}

/// The warning about the shortcut, if any.
pub open spec fn shortcut_failure(wanted: Option<Seq<char>>, a: Answers) -> Seq<Seq<char>> {
    match (wanted, a.shortcut) {
        (Some(_), Some(e)) => seq![shortcut_warning(e)],
        _ => Seq::empty(),
    }
}

/// However the desktop answers, applying the settings ends with one warning that
/// reports each failure of a step that was due, autostart before the shortcut,
/// and with none if there was no failure. That shortcuts could not be unregistered
/// is not reported.
pub proof fn law_apply_reports_each_failure(
    autostart: bool,
    hotkey_enabled: bool,
    hotkey: Seq<char>,
    flatpak: Option<Seq<char>>,
    a: Answers,
)
    ensures
        ({
            let (run, first) = spec_start(autostart, hotkey_enabled, hotkey, flatpak);
            run_to_end(run, first, a) == ActionModel::Done(
                warning_text(
                    autostart_failure(autostart, flatpak, a) + shortcut_failure(
                        wanted_shortcut(hotkey_enabled, hotkey),
                        a,
                    ),
                ),
            )
        }),
{
    reveal_with_fuel(run_to_end, 5);
    let none = Seq::<Seq<char>>::empty();
    let first = autostart_failure(autostart, flatpak, a);
    let second = shortcut_failure(wanted_shortcut(hotkey_enabled, hotkey), a);
    assert(forall|w: Seq<char>| #[trigger] none.push(w) =~= seq![w]);
    assert(first + none =~= first);
    if second.len() > 0 {
        assert(first + second =~= first.push(second[0]));
    } else {
        assert(first + second =~= first);
    }
}

} // verus!
