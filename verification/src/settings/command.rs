//! What the settings window does on a press of a button, a choice or an edit.
use vstd::prelude::*;

use crate::config;
use crate::config::{Config, OverlayWindowConfig, AUTO_POS};
use crate::settings::register::Registration;
use crate::text;

verus! {

pub const EN_CHANGE: u32 = 0x0300;

pub const LBN_DBLCLK: u32 = 2;

pub const LBN_SELCHANGE: u32 = 1;

pub const CBN_SELCHANGE: u32 = 1;

/// What the user asks of the settings window.
#[derive(Debug, Clone, Copy, PartialEq, Eq, Structural)]
pub enum Command {
    CopyStreamId,
    BrowseLog,
    TestUrl,
    ImportSpellIcons,
    Register,
    ResetMeter,
    ResetAlert,
    ResetHistory,
    ShowAllWindows,
    EditTrigger,
    SelectTrigger,
    AddTrigger,
    DeleteTrigger,
    MoveTriggerUp,
    MoveTriggerDown,
    ToggleTrigger,
    SelectPackage,
    EditLabel,
    SelectLabel,
    AddLabel,
    DeleteLabel,
    NewPackage,
    RenamePackage,
    DeletePackage,
    ExportPackage,
    ImportPackage,
    Save,
    Cancel,
    Nothing,
}

/// What a control's notice asks for.
pub open spec fn asked(id: int, notice: int) -> Command {
    if id == 115 {
        Command::CopyStreamId
    } else if id == 105 {
        Command::BrowseLog
    } else if id == 107 {
        Command::TestUrl
    } else if id == 114 {
        Command::ImportSpellIcons
    } else if id == 111 {
        Command::Register
    } else if id == 155 {
        Command::ResetMeter
    } else if id == 233 {
        Command::ResetAlert
    } else if id == 234 {
        Command::ResetHistory
    } else if id == 232 {
        Command::ShowAllWindows
    } else if id == 201 && notice == LBN_DBLCLK {
        Command::EditTrigger
    } else if id == 201 && notice == LBN_SELCHANGE {
        Command::SelectTrigger
    } else if id == 202 {
        Command::AddTrigger
    } else if id == 203 {
        Command::EditTrigger
    } else if id == 204 {
        Command::DeleteTrigger
    } else if id == 205 {
        Command::MoveTriggerUp
    } else if id == 206 {
        Command::MoveTriggerDown
    } else if id == 207 {
        Command::ToggleTrigger
    } else if id == 904 && notice == CBN_SELCHANGE {
        Command::SelectPackage
    } else if id == 900 && notice == LBN_DBLCLK {
        Command::EditLabel
    } else if id == 900 && notice == LBN_SELCHANGE {
        Command::SelectLabel
    } else if id == 901 {
        Command::AddLabel
    } else if id == 902 {
        Command::EditLabel
    } else if id == 903 {
        Command::DeleteLabel
    } else if id == 905 {
        Command::NewPackage
    } else if id == 906 {
        Command::RenamePackage
    } else if id == 907 {
        Command::DeletePackage
    } else if id == 908 {
        Command::ExportPackage
    } else if id == 909 {
        Command::ImportPackage
    } else if id == 220 {
        Command::Save
    } else if id == 221 {
        Command::Cancel
    } else {
        Command::Nothing
    }
}

/// What a control's notice asks for.
pub fn command_of(id: i32, notice: u32) -> (r: Command)
    ensures
        r == asked(id as int, notice as int),
{
    if id == 115 {
        Command::CopyStreamId
    } else if id == 105 {
        Command::BrowseLog
    } else if id == 107 {
        Command::TestUrl
    } else if id == 114 {
        Command::ImportSpellIcons
    } else if id == 111 {
        Command::Register
    } else if id == 155 {
        Command::ResetMeter
    } else if id == 233 {
        Command::ResetAlert
    } else if id == 234 {
        Command::ResetHistory
    } else if id == 232 {
        Command::ShowAllWindows
    } else if id == 201 && notice == LBN_DBLCLK {
        Command::EditTrigger
    } else if id == 201 && notice == LBN_SELCHANGE {
        Command::SelectTrigger
    } else if id == 202 {
        Command::AddTrigger
    } else if id == 203 {
        Command::EditTrigger
    } else if id == 204 {
        Command::DeleteTrigger
    } else if id == 205 {
        Command::MoveTriggerUp
    } else if id == 206 {
        Command::MoveTriggerDown
    } else if id == 207 {
        Command::ToggleTrigger
    } else if id == 904 && notice == CBN_SELCHANGE {
        Command::SelectPackage
    } else if id == 900 && notice == LBN_DBLCLK {
        Command::EditLabel
    } else if id == 900 && notice == LBN_SELCHANGE {
        Command::SelectLabel
    } else if id == 901 {
        Command::AddLabel
    } else if id == 902 {
        Command::EditLabel
    } else if id == 903 {
        Command::DeleteLabel
    } else if id == 905 {
        Command::NewPackage
    } else if id == 906 {
        Command::RenamePackage
    } else if id == 907 {
        Command::DeletePackage
    } else if id == 908 {
        Command::ExportPackage
    } else if id == 909 {
        Command::ImportPackage
    } else if id == 220 {
        Command::Save
    } else if id == 221 {
        Command::Cancel
    } else {
        Command::Nothing
    }
}

pub const STN_CLICKED: u32 = 0;

/// What the user asks of one of the editors.
#[derive(Debug, Clone, Copy, PartialEq, Eq, Structural)]
pub enum EditorCommand {
    EditCondition,
    SelectEntry,
    AddCondition,
    DeleteCondition,
    ConditionUp,
    ConditionDown,
    EditAction,
    AddAction,
    DeleteAction,
    ActionUp,
    ActionDown,
    AcceptTrigger,
    Close,
    ConditionKind,
    AcceptCondition,
    ActionKind,
    ChooseSound,
    TestSound,
    ChooseIcon,
    MessageColor,
    BorderColor,
    IconColor,
    AcceptAction,
    BrowseSound,
    PreviewSound,
    AcceptLabel,
    AcceptPrompt,
    Nothing,
}

/// What a notice of an editor's control asks for.
pub open spec fn asked_of_editor(id: int, notice: int) -> EditorCommand {
    if id == 303 && notice == LBN_DBLCLK {
        EditorCommand::EditCondition
    } else if id == 303 && notice == LBN_SELCHANGE {
        EditorCommand::SelectEntry
    } else if id == 304 {
        EditorCommand::AddCondition
    } else if id == 305 {
        EditorCommand::EditCondition
    } else if id == 306 {
        EditorCommand::DeleteCondition
    } else if id == 307 {
        EditorCommand::ConditionUp
    } else if id == 308 {
        EditorCommand::ConditionDown
    } else if id == 309 && notice == LBN_DBLCLK {
        EditorCommand::EditAction
    } else if id == 309 && notice == LBN_SELCHANGE {
        EditorCommand::SelectEntry
    } else if id == 310 {
        EditorCommand::AddAction
    } else if id == 311 {
        EditorCommand::EditAction
    } else if id == 312 {
        EditorCommand::DeleteAction
    } else if id == 313 {
        EditorCommand::ActionUp
    } else if id == 314 {
        EditorCommand::ActionDown
    } else if id == 315 {
        EditorCommand::AcceptTrigger
    } else if id == 316 {
        EditorCommand::Close
    } else if id == 400 && notice == CBN_SELCHANGE {
        EditorCommand::ConditionKind
    } else if id == 406 {
        EditorCommand::AcceptCondition
    } else if id == 407 {
        EditorCommand::Close
    } else if id == 500 && notice == CBN_SELCHANGE {
        EditorCommand::ActionKind
    } else if id == 505 && notice == CBN_SELCHANGE {
        EditorCommand::ChooseSound
    } else if id == 520 {
        EditorCommand::TestSound
    } else if id == 501 && notice == CBN_SELCHANGE {
        EditorCommand::ChooseIcon
    } else if id == 511 && notice == STN_CLICKED {
        EditorCommand::MessageColor
    } else if id == 518 && notice == STN_CLICKED {
        EditorCommand::BorderColor
    } else if id == 512 && notice == STN_CLICKED {
        EditorCommand::IconColor
    } else if id == 509 {
        EditorCommand::AcceptAction
    } else if id == 510 {
        EditorCommand::Close
    } else if id == 912 {
        EditorCommand::BrowseSound
    } else if id == 913 {
        EditorCommand::PreviewSound
    } else if id == 914 {
        EditorCommand::AcceptLabel
    } else if id == 915 {
        EditorCommand::Close
    } else if id == 921 {
        EditorCommand::AcceptPrompt
    } else if id == 922 {
        EditorCommand::Close
    } else {
        EditorCommand::Nothing
    }
}

/// What a notice of an editor's control asks for.
pub fn editor_command_of(id: i32, notice: u32) -> (r: EditorCommand)
    ensures
        r == asked_of_editor(id as int, notice as int),
{
    if id == 303 && notice == LBN_DBLCLK {
        EditorCommand::EditCondition
    } else if id == 303 && notice == LBN_SELCHANGE {
        EditorCommand::SelectEntry
    } else if id == 304 {
        EditorCommand::AddCondition
    } else if id == 305 {
        EditorCommand::EditCondition
    } else if id == 306 {
        EditorCommand::DeleteCondition
    } else if id == 307 {
        EditorCommand::ConditionUp
    } else if id == 308 {
        EditorCommand::ConditionDown
    } else if id == 309 && notice == LBN_DBLCLK {
        EditorCommand::EditAction
    } else if id == 309 && notice == LBN_SELCHANGE {
        EditorCommand::SelectEntry
    } else if id == 310 {
        EditorCommand::AddAction
    } else if id == 311 {
        EditorCommand::EditAction
    } else if id == 312 {
        EditorCommand::DeleteAction
    } else if id == 313 {
        EditorCommand::ActionUp
    } else if id == 314 {
        EditorCommand::ActionDown
    } else if id == 315 {
        EditorCommand::AcceptTrigger
    } else if id == 316 {
        EditorCommand::Close
    } else if id == 400 && notice == CBN_SELCHANGE {
        EditorCommand::ConditionKind
    } else if id == 406 {
        EditorCommand::AcceptCondition
    } else if id == 407 {
        EditorCommand::Close
    } else if id == 500 && notice == CBN_SELCHANGE {
        EditorCommand::ActionKind
    } else if id == 505 && notice == CBN_SELCHANGE {
        EditorCommand::ChooseSound
    } else if id == 520 {
        EditorCommand::TestSound
    } else if id == 501 && notice == CBN_SELCHANGE {
        EditorCommand::ChooseIcon
    } else if id == 511 && notice == STN_CLICKED {
        EditorCommand::MessageColor
    } else if id == 518 && notice == STN_CLICKED {
        EditorCommand::BorderColor
    } else if id == 512 && notice == STN_CLICKED {
        EditorCommand::IconColor
    } else if id == 509 {
        EditorCommand::AcceptAction
    } else if id == 510 {
        EditorCommand::Close
    } else if id == 912 {
        EditorCommand::BrowseSound
    } else if id == 913 {
        EditorCommand::PreviewSound
    } else if id == 914 {
        EditorCommand::AcceptLabel
    } else if id == 915 {
        EditorCommand::Close
    } else if id == 921 {
        EditorCommand::AcceptPrompt
    } else if id == 922 {
        EditorCommand::Close
    } else {
        EditorCommand::Nothing
    }
}

/// Low and high halves of a message's number: the control and its notice.
pub fn split_notice(wparam: u64) -> (r: (i32, u32))
    ensures
        r.0 == wparam % 0x10000,
        r.1 == wparam / 0x10000 % 0x10000,
{
    ((wparam % 0x10000) as i32, (wparam / 0x10000 % 0x10000) as u32)
}

impl Registration {
    /// Notes that the player was typed or the server chosen; says whether the
    /// register button has to be looked at again.
    pub fn note_edit(&mut self, id: i32, notice: u32) -> (r: bool)
        ensures
            final(self).player_user_set == (old(self).player_user_set || (id == 103 && notice
                == EN_CHANGE)),
            final(self).server_user_set == (old(self).server_user_set || (id == 102 && notice
                == CBN_SELCHANGE)),
            final(self).is_registered == old(self).is_registered,
            final(self).stream_id_text == old(self).stream_id_text,
            r == ((id == 103 || id == 106) && notice == EN_CHANGE),
    {
        let player: bool = id == 103 && notice == EN_CHANGE;
        let url: bool = id == 106 && notice == EN_CHANGE;
        if player {
            self.player_user_set = true;
        }
        if id == 102 && notice == CBN_SELCHANGE {
            self.server_user_set = true;
        }
        player || url
    }

    /// What the choice of a log file fills in: the player and the server in its
    /// name, each unless it was set by hand.
    pub fn names_from_log(&self, path: &str) -> (r: (Option<String>, Option<String>))
        ensures
            self.player_user_set ==> r.0 is None,
            self.server_user_set ==> r.1 is None,
            !self.player_user_set ==> config::through_stem(
                path@,
                text::opt_view(r.0),
                |s: Option<Seq<char>>| config::player_in(s),
            ),
            !self.server_user_set ==> config::through_stem(
                path@,
                text::opt_view(r.1),
                |s: Option<Seq<char>>| config::server_in(s),
            ),
    {
        let player: Option<String> = if self.player_user_set {
            None
        } else {
            config::player_name_from_path(path)
        };
        let server: Option<String> = if self.server_user_set {
            None
        } else {
            config::server_name_from_path(path)
        };
        (player, server)
    }
}

/// A window at the position that the program picks.
pub open spec fn reset_window(w: OverlayWindowConfig) -> OverlayWindowConfig {
    OverlayWindowConfig { x: AUTO_POS, y: AUTO_POS, ..w }
}

/// A window that can be moved.
pub open spec fn unlocked_window(w: OverlayWindowConfig) -> OverlayWindowConfig {
    OverlayWindowConfig { locked: false, ..w }
}

/// What a command changes in the settings at once: a window loses its position,
/// or all three are unlocked.
pub open spec fn changed_at_once<F>(cfg: Config<F>, c: Command) -> Config<F> {
    match c {
        Command::ResetMeter => Config { overlay_meter: reset_window(cfg.overlay_meter), ..cfg },
        Command::ResetAlert => Config { overlay_alert: reset_window(cfg.overlay_alert), ..cfg },
        Command::ResetHistory => Config {
            overlay_history: reset_window(cfg.overlay_history),
            ..cfg
        },
        Command::ShowAllWindows => Config {
            overlay_alert: unlocked_window(cfg.overlay_alert),
            overlay_history: unlocked_window(cfg.overlay_history),
            overlay_meter: unlocked_window(cfg.overlay_meter),
            ..cfg
        },
        _ => cfg,
    }
}

fn reset(w: OverlayWindowConfig) -> (r: OverlayWindowConfig)
    ensures
        r == reset_window(w),
{
    OverlayWindowConfig { x: AUTO_POS, y: AUTO_POS, ..w }
}

fn unlocked(w: OverlayWindowConfig) -> (r: OverlayWindowConfig)
    ensures
        r == unlocked_window(w),
{
    OverlayWindowConfig { locked: false, ..w }
}

/// The settings once a command changed what it changes at once, and whether they
/// have to be stored.
pub fn change_at_once<F>(cfg: Config<F>, c: Command) -> (r: (Config<F>, bool))
    ensures
        r.0 == changed_at_once(cfg, c),
        r.1 == (c == Command::ResetMeter || c == Command::ResetAlert || c == Command::ResetHistory
            || c == Command::ShowAllWindows),
{
    match c {
        Command::ResetMeter => {
            let w = reset(cfg.overlay_meter);
            (Config { overlay_meter: w, ..cfg }, true)
        },
        Command::ResetAlert => {
            let w = reset(cfg.overlay_alert);
            (Config { overlay_alert: w, ..cfg }, true)
        },
        Command::ResetHistory => {
            let w = reset(cfg.overlay_history);
            (Config { overlay_history: w, ..cfg }, true)
        },
        Command::ShowAllWindows => {
            let a = unlocked(cfg.overlay_alert);
            let h = unlocked(cfg.overlay_history);
            let m = unlocked(cfg.overlay_meter);
            (Config { overlay_alert: a, overlay_history: h, overlay_meter: m, ..cfg }, true)
        },
        _ => (cfg, false),
    }
}

/// The two fields that show the position which a command sets back.
pub fn position_fields(c: Command) -> (r: Option<(i32, i32)>)
    ensures
        r == match c {
            Command::ResetMeter => Some((156i32, 157i32)),
            Command::ResetAlert => Some((216i32, 217i32)),
            Command::ResetHistory => Some((227i32, 228i32)),
            _ => None,
        },
{
    match c {
        Command::ResetMeter => Some((156, 157)),
        Command::ResetAlert => Some((216, 217)),
        Command::ResetHistory => Some((227, 228)),
        _ => None,
    }
}

/// What such a field shows then.
pub const POSITION_RESET: &'static str = "-1";

/// The checks that lock the three windows: the alerts, the history, the meter.
pub const LOCK_CHECKS: [i32; 3] = [229, 230, 151];

pub const URL_MISSING: &'static str = "Enter a server URL first.";

pub const URL_TESTING: &'static str = "Testing…";

pub const LOG_MISSING: &'static str = "Set a log file first (needs DIR\\Logs\\... to find DIR\\uifiles\\default\\).";

pub const ICONS_EXTRACTING: &'static str = "Extracting…";

/// Whether a server is tested, and what the window says meanwhile.
pub fn start_url_test(url: &str) -> (r: (bool, &'static str))
    ensures
        r.0 == (url@.len() > 0),
        r.1@ == (if url@.len() > 0 {
            URL_TESTING@
        } else {
            URL_MISSING@
        }),
{
    if url.is_empty() {
        (false, URL_MISSING)
    } else {
        (true, URL_TESTING)
    }
}

/// Whether icons are extracted, and what the window says meanwhile: the log's
/// path has to lead to the game.
pub fn start_icon_import(game_found: bool) -> (r: (bool, &'static str))
    ensures
        r.0 == game_found,
        r.1@ == (if game_found {
            ICONS_EXTRACTING@
        } else {
            LOG_MISSING@
        }),
{
    if game_found {
        (true, ICONS_EXTRACTING)
    } else {
        (false, LOG_MISSING)
    }
}

/// What an import of icons came to.
pub struct ExtractResult {
    pub searched_dir: String,
    pub searched_dir_exists: bool,
    pub extracted: usize,
    pub sheets_found: Vec<String>,
    pub sheets_missing: Vec<String>,
    pub cells_scanned: usize,
    pub blank_skipped: usize,
    pub duplicates_skipped: usize,
    /// What the folder holds, where no sheet was found.
    pub dir_listing: Vec<String>,
    pub errors: Vec<String>,
}

/// From how many entries on a folder's list is shown as cut.
pub const LISTING_CUT: usize = 20;

/// The short form of what an import came to.
pub fn import_status(r: &ExtractResult) -> (s: String)
    ensures
        s@ == text::decimal(r.extracted as nat) + " extracted, "@ + text::decimal(
            r.duplicates_skipped as nat,
        ) + " duplicates skipped"@,
{
    let mut out: String = String::new();
    text::push_decimal(&mut out, r.extracted as u64);
    out.append(" extracted, ");
    text::push_decimal(&mut out, r.duplicates_skipped as u64);
    out.append(" duplicates skipped");
    proof {
        assert(out@ =~= text::decimal(r.extracted as nat) + " extracted, "@ + text::decimal(
            r.duplicates_skipped as nat,
        ) + " duplicates skipped"@);
    }
    out
}

/// Names with commas between them, or a word for none.
pub open spec fn names_or_none(v: Seq<String>) -> Seq<char> {
    if v.len() == 0 {
        "(none)"@
    } else {
        text::joined(text::views(v), ", "@)
    }
}

fn joined_or_none(v: &Vec<String>) -> (r: String)
    ensures
        r@ == names_or_none(v@),
{
    if v.len() == 0 {
        "(none)".to_owned()
    } else {
        text::join(v, ", ")
    }
}

/// The first part of the long form: where was searched and what was found.
pub open spec fn import_head(r: ExtractResult) -> Seq<char> {
    "Searched: "@ + r.searched_dir@ + (if r.searched_dir_exists {
        Seq::empty()
    } else {
        "  [does not exist]"@
    }) + "\n\nExtracted "@ + text::decimal(r.extracted as nat) + " new icon(s) from "@
        + text::decimal(r.sheets_found@.len())
        + " sheet(s) into the icons folder.\n\nSheets found: "@ + names_or_none(r.sheets_found@)
        + "\nSheets missing: "@ + names_or_none(r.sheets_missing@) + "\nCells scanned: "@
        + text::decimal(r.cells_scanned as nat) + "\nBlank cells skipped: "@ + text::decimal(
        r.blank_skipped as nat,
    ) + "\nDuplicate icons skipped: "@ + text::decimal(r.duplicates_skipped as nat)
}

/// What the long form adds where no sheet was found.
pub open spec fn import_listing(v: Seq<String>) -> Seq<char> {
    if v.len() == 0 {
        Seq::empty()
    } else {
        "\n\nNo Spells0N.tga sheets matched. Actually found in that folder:\n"@ + text::joined(
            text::views(v),
            ", "@,
        ) + (if v.len() >= LISTING_CUT {
            ", …"@
        } else {
            Seq::empty()
        })
    }
}

/// What the long form adds where something failed.
pub open spec fn import_errors(v: Seq<String>) -> Seq<char> {
    if v.len() == 0 {
        Seq::empty()
    } else {
        "\n\nErrors:\n"@ + text::joined(text::views(v), "\n"@)
    }
}

/// What the long form adds where there are new icons.
pub open spec fn import_hint(extracted: usize) -> Seq<char> {
    if extracted > 0 {
        "\n\nNew icons show up in the icon picker next time you add or edit a trigger action."@
    } else {
        Seq::empty()
    }
}

fn import_head_text(r: &ExtractResult) -> (s: String)
    ensures
        s@ == import_head(*r),
{
    let mut out: String = "Searched: ".to_owned();
    out.append(r.searched_dir.as_str());
    if !r.searched_dir_exists {
        out.append("  [does not exist]");
    }
    proof {
        assert(out@ =~= "Searched: "@ + r.searched_dir@ + (if r.searched_dir_exists {
            Seq::empty()
        } else {
            "  [does not exist]"@
        }));
    }
    out.append("\n\nExtracted ");
    text::push_decimal(&mut out, r.extracted as u64);
    out.append(" new icon(s) from ");
    text::push_decimal(&mut out, r.sheets_found.len() as u64);
    out.append(" sheet(s) into the icons folder.\n\nSheets found: ");
    out.append(joined_or_none(&r.sheets_found).as_str());
    out.append("\nSheets missing: ");
    out.append(joined_or_none(&r.sheets_missing).as_str());
    out.append("\nCells scanned: ");
    text::push_decimal(&mut out, r.cells_scanned as u64);
    out.append("\nBlank cells skipped: ");
    text::push_decimal(&mut out, r.blank_skipped as u64);
    out.append("\nDuplicate icons skipped: ");
    text::push_decimal(&mut out, r.duplicates_skipped as u64);
    out
}

/// The long form of what an import came to.
pub fn import_detail(r: &ExtractResult) -> (s: String)
    ensures
        s@ == import_head(*r) + import_listing(r.dir_listing@) + import_errors(r.errors@)
            + import_hint(r.extracted),
{
    let mut out = import_head_text(r);
    let ghost h = out@;
    if r.dir_listing.len() > 0 {
        out.append("\n\nNo Spells0N.tga sheets matched. Actually found in that folder:\n");
        out.append(text::join(&r.dir_listing, ", ").as_str());
        if r.dir_listing.len() >= LISTING_CUT {
            out.append(", …");
        }
    }
    proof {
        assert(out@ =~= h + import_listing(r.dir_listing@));
    }
    let ghost l = out@;
    if r.errors.len() > 0 {
        out.append("\n\nErrors:\n");
        out.append(text::join(&r.errors, "\n").as_str());
    }
    proof {
        assert(out@ =~= l + import_errors(r.errors@));
    }
    let ghost e = out@;
    if r.extracted > 0 {
        out.append(
            "\n\nNew icons show up in the icon picker next time you add or edit a trigger action.",
        );
    }
    proof {
        assert(out@ =~= e + import_hint(r.extracted));
    }
    out
}

/// The tabs, in order.
pub const TAB_NAMES: [&'static str; 8] = [
    "General",
    "Logging",
    "Triggers",
    "Overlays",
    "DPS Meter",
    "Voice",
    "Windows",
    "Sounds",
];

/// Which panels are shown: the one of the tab that is chosen, and no other.
pub fn shown_panels(tab: i32) -> (r: [bool; 8])
    ensures
        forall|i: int| 0 <= i < 8 ==> r@[i] == (i == tab),
{
    [tab == 0, tab == 1, tab == 2, tab == 3, tab == 4, tab == 5, tab == 6, tab == 7]
}

/// The position of a window in the middle of the screen.
pub open spec fn centred(screen: int, size: int) -> int {
    if screen >= size {
        (screen - size) / 2
    } else {
        -((size - screen) / 2)
    }
}

/// The position of a window in the middle of the screen.
pub fn centre(screen: i32, size: i32) -> (r: i32)
    requires
        0 <= screen,
        0 <= size,
    ensures
        r == centred(screen as int, size as int),
{
    if screen >= size {
        (screen - size) / 2
    } else {
        -((size - screen) / 2)
    }
}

// ── Laws ────────────────────────────────────────────────────────────────────

/// Showing all windows unlocks each of the three and moves none; resetting a
/// position moves one window and unlocks none.
pub proof fn window_commands_are_narrow<F>(cfg: Config<F>)
    ensures
        ({
            let c = changed_at_once(cfg, Command::ShowAllWindows);
            &&& !c.overlay_alert.locked && !c.overlay_history.locked && !c.overlay_meter.locked
            &&& c.overlay_alert.x == cfg.overlay_alert.x
            &&& c.overlay_alert.y == cfg.overlay_alert.y
            &&& c.overlay_meter.x == cfg.overlay_meter.x
            &&& c.overlay_meter.y == cfg.overlay_meter.y
            &&& c.overlay_history.x == cfg.overlay_history.x
            &&& c.overlay_history.y == cfg.overlay_history.y
        }),
        ({
            let c = changed_at_once(cfg, Command::ResetMeter);
            &&& c.overlay_meter.x == -1 && c.overlay_meter.y == -1
            &&& c.overlay_meter.locked == cfg.overlay_meter.locked
            &&& c.overlay_alert == cfg.overlay_alert
            &&& c.overlay_history == cfg.overlay_history
        }),
{
}

/// Resetting a window takes its own position and nothing else of the settings;
/// all other commands change nothing at once.
pub proof fn resets_move_their_own_window<F>(cfg: Config<F>, c: Command)
    ensures
        ({
            let after = changed_at_once(cfg, c);
            &&& c is ResetAlert ==> after.overlay_alert.x == -1 && after.overlay_alert.y == -1
                && after.overlay_alert.locked == cfg.overlay_alert.locked
                && after.overlay_alert.enabled == cfg.overlay_alert.enabled
            &&& c is ResetHistory ==> after.overlay_history.x == -1 && after.overlay_history.y
                == -1 && after.overlay_history.locked == cfg.overlay_history.locked
                && after.overlay_history.enabled == cfg.overlay_history.enabled
            &&& !(c is ResetAlert || c is ShowAllWindows) ==> after.overlay_alert
                == cfg.overlay_alert
            &&& !(c is ResetHistory || c is ShowAllWindows) ==> after.overlay_history
                == cfg.overlay_history
            &&& !(c is ResetMeter || c is ShowAllWindows) ==> after.overlay_meter
                == cfg.overlay_meter
            &&& after == (Config {
                overlay_alert: after.overlay_alert,
                overlay_history: after.overlay_history,
                overlay_meter: after.overlay_meter,
                ..cfg
            })
        }),
{
}

/// A window in the middle of the screen has as much room on one side as on the
/// other, but for a single dot.
pub proof fn centred_windows_have_even_margins(screen: int, size: int)
    ensures
        ({
            let before = centred(screen, size);
            let behind = screen - size - before;
            -1 <= behind - before <= 1
        }),
{
}

/// A double click on an entry asks for what its edit button asks for, whatever the
/// button's notice says; apart from that no two controls ask for the same.
pub proof fn double_clicks_edit(n: int, a: int, b: int)
    ensures
        asked(201, LBN_DBLCLK as int) == asked(203, n),
        asked(900, LBN_DBLCLK as int) == asked(902, n),
        a != b && asked(a, n) != Command::Nothing && asked(a, n) == asked(b, n) ==> n == LBN_DBLCLK
            && ((a == 201 && b == 203) || (a == 203 && b == 201) || (a == 900 && b == 902) || (a
            == 902 && b == 900)),
{
}

} // verus!
