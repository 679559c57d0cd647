//! What the settings ask of the desktop: which Flatpak ids are taken, what their
//! autostart entry says, and which steps applying the settings takes.

use vstd::prelude::*;
use vstd::utf8::*;

use crate::settings;
use crate::settings::{ActionModel, EntryStepModel, EventModel, Phase, RunModel};
use crate::text;
use crate::text_laws;

verus! {

// ---------------------------------------------------------------------------
// Flatpak.
// ---------------------------------------------------------------------------

/// Whether a character is an ASCII letter or `_`.
pub open spec fn is_word_start(c: char) -> bool {
    'a' <= c <= 'z' || 'A' <= c <= 'Z' || c == '_'
}

/// Whether a text is an ASCII letter or `_`, and then ASCII letters, digits, `_` and
/// `-`.
pub open spec fn is_word(part: Seq<char>) -> bool {
    &&& part.len() > 0
    &&& is_word_start(part[0])
    &&& forall|k: int|
        0 <= k < part.len() ==> is_word_start(#[trigger] part[k]) || '0' <= part[k] <= '9'
            || part[k] == '-'
}

/// Words joined by dots are a Flatpak id exactly where they are at least three and
/// take at most 255 bytes; with a part that is no word they never are.
pub proof fn law_flatpak_ids_are_dotted_words(parts: Seq<Seq<char>>)
    requires
        parts.len() > 0,
        forall|i: int, k: int|
            0 <= i < parts.len() && 0 <= k < parts[i].len() ==> #[trigger] parts[i][k] != '.',
    ensures
        settings::spec_is_valid_flatpak_id(text_laws::joined_by(parts, '.')) <==> parts.len() >= 3
            && encode_utf8(text_laws::joined_by(parts, '.')).len() <= 255 && (forall|i: int|
            0 <= i < parts.len() ==> is_word(#[trigger] parts[i])),
{
    text_laws::law_splitting_undoes_joining(parts, '.');
    assert forall|i: int| 0 <= i < parts.len() implies (is_word(#[trigger] parts[i])
        <==> settings::is_id_part(parts[i])) by {
        let p = parts[i];
        if is_word(p) {
            assert(forall|k: int| 1 <= k < p.len() ==> settings::continues_part(#[trigger] p[k]));
        }
        if settings::is_id_part(p) {
            assert forall|k: int| 0 <= k < p.len() implies is_word_start(#[trigger] p[k]) || '0'
                <= p[k] <= '9' || p[k] == '-' by {
                if k >= 1 {
                    assert(settings::continues_part(p[k]));
                }
            }
        }
    }
}

/// The value of the environment variable is the Flatpak id exactly where it is one,
/// and then as it stands.
pub proof fn law_flatpak_id_of_the_process(v: Seq<char>)
    ensures
        settings::spec_flatpak_id(None) is None,
        settings::spec_is_valid_flatpak_id(v) ==> settings::spec_flatpak_id(Some(v)) == Some(v),
        !settings::spec_is_valid_flatpak_id(v) ==> settings::spec_flatpak_id(Some(v)) is None,
{
}

/// The entry has ten lines, and the id stands in three of them, as it is.
pub proof fn law_lines_of_the_entry(id: Seq<char>)
    ensures
        ({
            let lines = settings::entry_lines(id);
            &&& lines.len() == 10
            &&& lines[0] == "[Desktop Entry]"@
            &&& lines[1] == "Type=Application"@
            &&& lines[2] == "Version=1.0"@
            &&& lines[3] == "Name=whatRust"@
            &&& lines[4] == "Comment=Start whatRust minimized"@
            &&& lines[5] == "Exec=flatpak run --command=whatrust "@ + id + " --minimized"@
            &&& lines[6] == "Icon="@ + id
            &&& lines[7] == "Terminal=false"@
            &&& lines[8] == "X-GNOME-Autostart-enabled=true"@
            &&& lines[9] == "X-Flatpak="@ + id
        }),
{
}

/// Each line of a text ends with a line feed, and the lines follow each other.
pub proof fn law_text_of_lines(lines: Seq<Seq<char>>, line: Seq<char>)
    ensures
        settings::lines_text(Seq::empty()).len() == 0,
        settings::lines_text(lines.push(line)) == settings::lines_text(lines) + line + seq!['\n'],
{
    assert(lines.push(line).drop_last() == lines);
    assert(settings::lines_text(lines) + line.push('\n') == settings::lines_text(lines) + line
        + seq!['\n']);
}

/// Autostart that is wanted writes the entry, whether or not the file is there. One
/// that is not wanted removes the file, and leaves it alone where there is none. The
/// file is named by the id and `.desktop`.
pub proof fn law_entry_follows_the_setting(id: Seq<char>, present: bool)
    ensures
        settings::spec_entry_step(id, true, present) == EntryStepModel::Write(
            id + ".desktop"@,
            settings::lines_text(settings::entry_lines(id)),
        ),
        settings::spec_entry_step(id, false, true) == EntryStepModel::Remove(id + ".desktop"@),
        settings::spec_entry_step(id, false, false) == EntryStepModel::Leave,
{
}

// ---------------------------------------------------------------------------
// The steps of applying the settings.
// ---------------------------------------------------------------------------

/// The first step carries the autostart setting. In a Flatpak it brings the entry of
/// the id to that setting; elsewhere it enables autostart where it is wanted, and
/// asks for its state where it is not.
pub proof fn law_first_step(
    autostart: bool,
    hotkey_enabled: bool,
    hotkey: Seq<char>,
    flatpak: Option<Seq<char>>,
)
    ensures
        ({
            let first = settings::spec_start(autostart, hotkey_enabled, hotkey, flatpak).1;
            &&& flatpak matches Some(id) ==> first == ActionModel::FlatpakAutostart(id, autostart)
            &&& flatpak is None && autostart ==> first == ActionModel::EnableAutostart
            &&& flatpak is None && !autostart ==> first == ActionModel::QueryAutostart
        }),
{
}

/// The run and the step after autostart has been dealt with, where `answer` came of
/// the first step and `disabled` of disabling autostart, if that was asked for.
pub open spec fn after_autostart(
    autostart: bool,
    hotkey_enabled: bool,
    hotkey: Seq<char>,
    flatpak: Option<Seq<char>>,
    answer: EventModel,
    disabled: EventModel,
) -> (RunModel, ActionModel) {
    let run = settings::spec_start(autostart, hotkey_enabled, hotkey, flatpak).0;
    if flatpak is None && !autostart && answer == EventModel::AutostartIs(true) {
        settings::spec_next(settings::spec_next(run, answer).0, disabled)
    } else {
        settings::spec_next(run, answer)
    }
}

/// Autostart is disabled exactly where it is not wanted, no Flatpak deals with it,
/// and it turns out to be enabled.
pub proof fn law_autostart_is_disabled_only_when_on(
    autostart: bool,
    hotkey_enabled: bool,
    hotkey: Seq<char>,
    flatpak: Option<Seq<char>>,
    answer: EventModel,
)
    ensures
        settings::spec_next(
            settings::spec_start(autostart, hotkey_enabled, hotkey, flatpak).0,
            answer,
        ).1 == ActionModel::DisableAutostart <==> flatpak is None && !autostart && answer
            == EventModel::AutostartIs(true),
{
}

/// Whether a text holds a character that is no white space.
pub open spec fn is_visible(s: Seq<char>) -> bool {
    exists|k: int| 0 <= k < s.len() && !text_laws::is_space(#[trigger] s[k])
}

proof fn lemma_visible(s: Seq<char>)
    ensures
        is_visible(s) <==> text::trimmed(s).len() > 0,
{
    text_laws::law_trimming_splits_a_text(s);
    let t = text::trimmed(s);
    let (before, after) = choose|before: Seq<char>, after: Seq<char>| #[trigger]
        text_laws::all_white(before) && #[trigger] text_laws::all_white(after) && s == before + t
            + after;
    if t.len() > 0 {
        assert(s[before.len() as int] == t[0]);
    } else if is_visible(s) {
        let k = choose|k: int| 0 <= k < s.len() && !text_laws::is_space(#[trigger] s[k]);
        if k < before.len() {
            assert(s[k] == before[k]);
        } else {
            assert(s[k] == after[k - before.len()]);
        }
    }
}

/// Once autostart has been dealt with, the shortcuts are unregistered. A failure of
/// enabling, of asking or of disabling is noted with its error, and nothing else is.
pub proof fn law_autostart_failure_is_noted(
    autostart: bool,
    hotkey_enabled: bool,
    hotkey: Seq<char>,
    flatpak: Option<Seq<char>>,
    answer: EventModel,
    disabled: EventModel,
)
    ensures
        ({
            let (run, action) = after_autostart(
                autostart,
                hotkey_enabled,
                hotkey,
                flatpak,
                answer,
                disabled,
            );
            let last = if flatpak is None && !autostart && answer == EventModel::AutostartIs(
                true,
            ) {
                disabled
            } else {
                answer
            };
            &&& action == ActionModel::UnregisterShortcuts
            &&& run.phase == Phase::Unregistering
            &&& last matches EventModel::Failed(e) ==> run.warnings == seq![
                "autostart could not be updated: "@ + e,
            ]
            &&& !(last is Failed) ==> run.warnings.len() == 0
            &&& hotkey_enabled && is_visible(hotkey) ==> run.shortcut == Some(hotkey)
            &&& !(hotkey_enabled && is_visible(hotkey)) ==> run.shortcut is None
        }),
{
    lemma_visible(hotkey);
    let none = Seq::<Seq<char>>::empty();
    assert(forall|w: Seq<char>| #[trigger] none.push(w) =~= seq![w]);
}

/// After the shortcuts were unregistered, whatever came of that, the wanted one is
/// registered as it is written; where none is wanted the run is done.
pub proof fn law_wanted_shortcut_is_registered(run: RunModel, event: EventModel)
    requires
        run.phase == Phase::Unregistering,
    ensures
        ({
            let (after, action) = settings::spec_next(run, event);
            &&& run.shortcut matches Some(hotkey) ==> action == ActionModel::RegisterShortcut(
                hotkey,
            ) && after.phase == Phase::Registering && after.warnings == run.warnings
            &&& run.shortcut is None ==> after.phase == Phase::Finished && action
                == ActionModel::Done(settings::warning_text(run.warnings))
        }),
{
}

/// After the shortcut was registered, or was not, the run is done. A failure is
/// noted with its error, and nothing else is.
pub proof fn law_shortcut_failure_is_noted(run: RunModel, event: EventModel)
    requires
        run.phase == Phase::Registering,
    ensures
        ({
            let (after, action) = settings::spec_next(run, event);
            let warnings = match event {
                EventModel::Failed(e) => run.warnings.push(
                    "shortcut not registered (it may be in use): "@ + e,
                ),
                _ => run.warnings,
            };
            &&& after.phase == Phase::Finished
            &&& after.warnings == warnings
            &&& action == ActionModel::Done(settings::warning_text(warnings))
        }),
{
}

/// No warnings give no text, one gives itself, and each further one follows after a
/// semicolon and a space.
pub proof fn law_text_of_warnings(warnings: Seq<Seq<char>>, w: Seq<char>)
    ensures
        settings::warning_text(Seq::empty()) is None,
        settings::warning_text(seq![w]) == Some(w),
        warnings.len() > 0 ==> settings::warning_text(warnings) is Some,
        settings::warning_text(warnings) matches Some(t) ==> settings::warning_text(
            warnings.push(w),
        ) == Some(t + "; "@ + w),
{
    let none = Seq::<Seq<char>>::empty();
    assert(seq![w].drop_last() == none);
    assert(seq![w].last() == w);
    assert(settings::warning_text(none) is None);
    assert(warnings.push(w).drop_last() == warnings);
    assert(warnings.push(w).last() == w);
}

} // verus!
