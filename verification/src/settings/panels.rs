//! The controls of the settings window and of its editors.
use vstd::prelude::*;

use crate::config::{Config, TtsAudioMode, TtsSpeed};
use crate::settings::form::LoggingDraft;
use crate::settings::layout;
use crate::settings::layout::{Area, Control, ControlKind, FieldText, Row};
use crate::settings::register::Registration;
use crate::settings::sounds::SoundOption;
use crate::settings::triggers::{ConditionInput, ShownAction, VoicePriority};
use crate::text;

verus! {

/// The general tab.
pub const GENERAL: [(ControlKind, &'static str, i32, i32, i32, i32, i32); 3] = [
    (ControlKind::GroupBox, "Spell Icon Import", 12, 12, 396, 54, 0),
    (ControlKind::Button, "Import Spell Icons", 28, 36, 160, 22, 114),
    (ControlKind::Status, "", 196, 36, 196, 22, -2),
];

/// The tab for logs, the server and the registration.
pub const LOGGING: [(ControlKind, &'static str, i32, i32, i32, i32, i32); 23] = [
    (ControlKind::Label, "Game:", 12, 12, 92, 22, 0),
    (ControlKind::Combo, "", 110, 12, 298, 200, 101),
    (ControlKind::Label, "Server:", 12, 42, 92, 22, 0),
    (ControlKind::Combo, "", 110, 42, 298, 200, 102),
    (ControlKind::Label, "Player:", 12, 72, 92, 22, 0),
    (ControlKind::Edit, "", 110, 72, 298, 22, 103),
    (ControlKind::Separator, "", 12, 102, 396, 2, 0),
    (ControlKind::Label, "Log File:", 12, 116, 92, 22, 0),
    (ControlKind::ReadOnlyEdit, "", 110, 116, 212, 22, 104),
    (ControlKind::Button, "Browse…", 328, 116, 80, 22, 105),
    (ControlKind::Label, "Server URL:", 12, 146, 92, 22, 0),
    (ControlKind::Edit, "", 110, 146, 212, 22, 106),
    (ControlKind::Button, "Test", 328, 146, 80, 22, 107),
    (ControlKind::Status, "", 110, 176, 298, 22, 108),
    (ControlKind::Separator, "", 12, 202, 396, 2, 0),
    (ControlKind::Label, "Stream ID:", 12, 216, 92, 22, 0),
    (ControlKind::Status, "", 110, 216, 212, 22, 109),
    (ControlKind::Button, "Copy ID", 328, 216, 80, 22, 115),
    (ControlKind::Label, "Password:", 12, 246, 92, 22, 0),
    (ControlKind::PasswordEdit, "", 110, 246, 298, 22, 110),
    (ControlKind::Button, "Register", 110, 276, 110, 22, 111),
    (ControlKind::CheckBox, "Allow public streaming", 110, 310, 298, 22, 112),
    (ControlKind::CheckBox, "Enable remote logging (push to server)", 110, 340, 212, 22, 113),
];

/// The tab of the meter.
pub const METER: [(ControlKind, &'static str, i32, i32, i32, i32, i32); 6] = [
    (ControlKind::Label, "Max rows:", 16, 16, 140, 22, 0),
    (ControlKind::NumberEdit, "", 160, 16, 100, 22, 152),
    (ControlKind::Label, "Idle hide (sec):", 16, 46, 140, 22, 0),
    (ControlKind::NumberEdit, "", 160, 46, 100, 22, 153),
    (ControlKind::Label, "Font size:", 16, 76, 140, 22, 0),
    (ControlKind::NumberEdit, "", 160, 76, 100, 22, 154),
];

/// The tab of the triggers.
pub const TRIGGERS: [(ControlKind, &'static str, i32, i32, i32, i32, i32); 7] = [
    (ControlKind::ListBox, "", 4, 4, -98, -4, 201),
    (ControlKind::Button, "Add", -94, 4, 90, 24, 202),
    (ControlKind::Button, "Edit", -94, 32, 90, 24, 203),
    (ControlKind::Button, "Delete", -94, 60, 90, 24, 204),
    (ControlKind::Button, "Move Up", -94, 96, 90, 24, 205),
    (ControlKind::Button, "Move Down", -94, 124, 90, 24, 206),
    (ControlKind::Button, "Enable/Disable", -94, 160, 90, 24, 207),
];

/// The tab of the sounds.
pub const SOUNDS: [(ControlKind, &'static str, i32, i32, i32, i32, i32); 18] = [
    (ControlKind::GroupBox, "Sound", 8, 8, -8, 82, 0),
    (ControlKind::CheckBox, "Enable sounds", 24, 32, -24, 22, 117),
    (ControlKind::Label, "Volume:", 24, 60, 56, 22, 0),
    (ControlKind::Slider, "", 80, 60, -76, 22, 116),
    (ControlKind::Status, "", -68, 60, 44, 22, -1),
    (ControlKind::GroupBox, "Active Package", 8, 104, -8, 90, 0),
    (ControlKind::Label, "Package:", 24, 128, 70, 22, 0),
    (ControlKind::Combo, "", 94, 128, -24, 200, 904),
    (ControlKind::Button, "New", 24, 158, 76, 24, 905),
    (ControlKind::Button, "Rename", 103, 158, 76, 24, 906),
    (ControlKind::Button, "Delete", 182, 158, 76, 24, 907),
    (ControlKind::Button, "Export", 261, 158, 76, 24, 908),
    (ControlKind::Button, "Import", 340, 158, 76, 24, 909),
    (ControlKind::GroupBox, "Sound Labels", 8, 208, -8, -8, 0),
    (ControlKind::ListBox, "", 24, 232, -122, -20, 900),
    (ControlKind::Button, "Add", -114, 232, 90, 24, 901),
    (ControlKind::Button, "Edit", -114, 260, 90, 24, 902),
    (ControlKind::Button, "Delete", -114, 288, 90, 24, 903),
];

/// The tab of the overlays.
pub const APPEARANCE: [(ControlKind, &'static str, i32, i32, i32, i32, i32); 22] = [
    (ControlKind::GroupBox, "Alert Overlay", 8, 8, -8, 208, 0),
    (ControlKind::Label, "Font:", 24, 32, 130, 22, 0),
    (ControlKind::Combo, "", 158, 32, 180, 200, 210),
    (ControlKind::Label, "Start font size (pt):", 24, 62, 130, 22, 0),
    (ControlKind::NumberEdit, "", 158, 62, 60, 22, 211),
    (ControlKind::Label, "Max font size (pt):", 24, 92, 130, 22, 0),
    (ControlKind::NumberEdit, "", 158, 92, 60, 22, 213),
    (ControlKind::Label, "Fly-in speed (ms):", 24, 122, 130, 22, 0),
    (ControlKind::NumberEdit, "", 158, 122, 60, 22, 214),
    (ControlKind::Label, "Hold time (secs):", 24, 152, 130, 22, 0),
    (ControlKind::Edit, "", 158, 152, 60, 22, 222),
    (ControlKind::Label, "Opacity (0-255):", 24, 182, 130, 22, 0),
    (ControlKind::NumberEdit, "", 158, 182, 60, 22, 212),
    (ControlKind::GroupBox, "History Overlay", 8, 230, -8, 148, 0),
    (ControlKind::Label, "History font size (pt):", 24, 254, 130, 22, 0),
    (ControlKind::NumberEdit, "", 158, 254, 60, 22, 223),
    (ControlKind::Label, "History idle hide (secs):", 24, 284, 130, 22, 0),
    (ControlKind::NumberEdit, "", 158, 284, 60, 22, 224),
    (ControlKind::Label, "History max entries:", 24, 314, 130, 22, 0),
    (ControlKind::NumberEdit, "", 158, 314, 60, 22, 225),
    (ControlKind::Label, "History width (px):", 24, 344, 130, 22, 0),
    (ControlKind::NumberEdit, "", 158, 344, 60, 22, 226),
];

/// The tab of the windows.
pub const WINDOWS: [(ControlKind, &'static str, i32, i32, i32, i32, i32); 29] = [
    (ControlKind::Button, "Show All Windows", 8, 8, 160, 26, 232),
    (ControlKind::Label, "unlocks + shows all three below, even if disabled or idle", 176, 13, -8, 18, 0),
    (ControlKind::GroupBox, "Main Overlay", 8, 48, -8, 92, 0),
    (ControlKind::CheckBox, "Enabled", 24, 72, 110, 22, 215),
    (ControlKind::CheckBox, "Locked (click-through)", 174, 72, 220, 22, 229),
    (ControlKind::Label, "Position:", 24, 102, 62, 22, 0),
    (ControlKind::Label, "X", 88, 102, 12, 22, 0),
    (ControlKind::Edit, "", 102, 102, 60, 22, 216),
    (ControlKind::Label, "Y", 170, 102, 12, 22, 0),
    (ControlKind::Edit, "", 184, 102, 60, 22, 217),
    (ControlKind::Button, "Reset", 252, 102, 90, 22, 233),
    (ControlKind::GroupBox, "History Overlay", 8, 154, -8, 92, 0),
    (ControlKind::CheckBox, "Enabled", 24, 178, 110, 22, 231),
    (ControlKind::CheckBox, "Locked (click-through)", 174, 178, 220, 22, 230),
    (ControlKind::Label, "Position:", 24, 208, 62, 22, 0),
    (ControlKind::Label, "X", 88, 208, 12, 22, 0),
    (ControlKind::Edit, "", 102, 208, 60, 22, 227),
    (ControlKind::Label, "Y", 170, 208, 12, 22, 0),
    (ControlKind::Edit, "", 184, 208, 60, 22, 228),
    (ControlKind::Button, "Reset", 252, 208, 90, 22, 234),
    (ControlKind::GroupBox, "DPS Meter", 8, 260, -8, 92, 0),
    (ControlKind::CheckBox, "Enabled", 24, 284, 110, 22, 150),
    (ControlKind::CheckBox, "Locked (click-through)", 174, 284, 220, 22, 151),
    (ControlKind::Label, "Position:", 24, 314, 62, 22, 0),
    (ControlKind::Label, "X", 88, 314, 12, 22, 0),
    (ControlKind::Edit, "", 102, 314, 60, 22, 156),
    (ControlKind::Label, "Y", 170, 314, 12, 22, 0),
    (ControlKind::Edit, "", 184, 314, 60, 22, 157),
    (ControlKind::Button, "Reset", 252, 314, 90, 22, 155),
];

/// The tab of the voice.
pub const VOICE: [(ControlKind, &'static str, i32, i32, i32, i32, i32); 16] = [
    (ControlKind::CheckBox, "Enable Text-to-Speech", 148, 8, 240, 22, 600),
    (ControlKind::Label, "Voice Speed:", 4, 38, 140, 22, 0),
    (ControlKind::Combo, "", 148, 38, 200, 200, 601),
    (ControlKind::Separator, "", 4, 68, 348, 2, 0),
    (ControlKind::Label, "Audio Mode:", 4, 80, 140, 22, 0),
    (ControlKind::FirstRadio, "Smart Priority (Recommended)", 148, 80, 260, 22, 602),
    (ControlKind::Radio, "Queue All Messages", 148, 110, 260, 22, 603),
    (ControlKind::Radio, "Interrupt Constantly", 148, 140, 260, 22, 604),
    (ControlKind::Separator, "", 4, 170, 348, 2, 0),
    (ControlKind::Label, "Verbosity Filter:", 4, 182, 140, 22, 0),
    (ControlKind::FirstCheckBox, "Read Emergency Alerts", 148, 182, 240, 22, 605),
    (ControlKind::CheckBox, "Read Operational Events", 148, 212, 240, 22, 606),
    (ControlKind::CheckBox, "Read Ambient Notices", 148, 242, 240, 22, 607),
    (ControlKind::Separator, "", 4, 272, 348, 2, 0),
    (ControlKind::Label, "Voice:", 4, 284, 140, 22, 0),
    (ControlKind::Combo, "", 148, 284, 260, 200, 608),
];

/// What surrounds the tabs.
pub const FRAME: [(ControlKind, &'static str, i32, i32, i32, i32, i32); 3] = [
    (ControlKind::Tabs, "", 8, 8, 454, 460, 200),
    (ControlKind::Button, "Cancel", 382, 480, 80, 24, 221),
    (ControlKind::DefaultButton, "Save", 294, 480, 80, 24, 220),
];

/// The editor of a trigger.
pub const TRIGGER_EDITOR: [(ControlKind, &'static str, i32, i32, i32, i32, i32); 23] = [
    (ControlKind::Label, "Name:", 10, 10, 90, 22, 0),
    (ControlKind::Edit, "", 106, 10, 200, 22, 300),
    (ControlKind::CheckBox, "Enabled", 316, 10, 90, 22, 301),
    (ControlKind::Separator, "", 10, 40, 446, 2, 0),
    (ControlKind::Label, "IF", 10, 52, 20, 22, 0),
    (ControlKind::Combo, "", 34, 52, 90, 200, 302),
    (ControlKind::Label, "of these conditions:", 132, 52, 160, 22, 0),
    (ControlKind::ListBox, "", 10, 82, 360, 110, 303),
    (ControlKind::Button, "+ Add", 376, 82, 72, 22, 304),
    (ControlKind::Button, "Edit", 376, 112, 72, 22, 305),
    (ControlKind::Button, "✕ Remove", 376, 142, 72, 22, 306),
    (ControlKind::Button, "▲ Up", 376, 176, 72, 22, 307),
    (ControlKind::Button, "▼ Down", 376, 206, 72, 22, 308),
    (ControlKind::Separator, "", 10, 202, 446, 2, 0),
    (ControlKind::Label, "THEN execute all of these actions:", 10, 214, 300, 22, 0),
    (ControlKind::ListBox, "", 10, 244, 360, 110, 309),
    (ControlKind::Button, "+ Add", 376, 244, 72, 22, 310),
    (ControlKind::Button, "Edit", 376, 274, 72, 22, 311),
    (ControlKind::Button, "✕ Remove", 376, 304, 72, 22, 312),
    (ControlKind::Button, "▲ Up", 376, 338, 72, 22, 313),
    (ControlKind::Button, "▼ Down", 376, 368, 72, 22, 314),
    (ControlKind::Button, "Cancel", 376, 398, 80, 22, 316),
    (ControlKind::DefaultButton, "OK", 288, 398, 80, 22, 315),
];

/// The editor of a condition.
pub const CONDITION_EDITOR: [(ControlKind, &'static str, i32, i32, i32, i32, i32); 15] = [
    (ControlKind::Label, "Condition type:", 10, 10, 110, 22, 0),
    (ControlKind::Combo, "", 126, 10, 130, 200, 400),
    (ControlKind::Separator, "", 10, 40, 376, 2, 0),
    (ControlKind::Label, "Match type:", 10, 52, 110, 22, 0),
    (ControlKind::Combo, "", 126, 52, 130, 200, 401),
    (ControlKind::Label, "Pattern:", 10, 82, 110, 22, 0),
    (ControlKind::Edit, "", 126, 82, 260, 22, 402),
    (ControlKind::Label, "Variable name:", 10, 112, 110, 22, 0),
    (ControlKind::Edit, "", 126, 112, 140, 22, 403),
    (ControlKind::Label, "Operator:", 274, 112, 70, 22, 0),
    (ControlKind::Combo, "", 348, 112, 90, 200, 404),
    (ControlKind::Label, "Value:", 10, 142, 110, 22, 0),
    (ControlKind::Edit, "", 126, 142, 200, 22, 405),
    (ControlKind::Button, "Cancel", 306, 178, 80, 22, 407),
    (ControlKind::DefaultButton, "OK", 218, 178, 80, 22, 406),
];

/// The editor of an action. The height of the list of icons is set apart.
pub const ACTION_EDITOR: [(ControlKind, &'static str, i32, i32, i32, i32, i32); 32] = [
    (ControlKind::Label, "Action type:", 10, 10, 110, 22, 0),
    (ControlKind::Combo, "", 126, 10, 150, 200, 500),
    (ControlKind::Separator, "", 10, 40, 450, 2, 0),
    (ControlKind::Label, "Icon:", 10, 52, 110, 22, 0),
    (ControlKind::IconCombo, "", 126, 52, 258, 30, 501),
    (ControlKind::Swatch, "", 388, 52, 52, 22, 512),
    (ControlKind::Label, "Message:", 10, 82, 110, 22, 0),
    (ControlKind::Edit, "", 126, 82, 258, 22, 503),
    (ControlKind::Swatch, "", 388, 82, 52, 22, 511),
    (ControlKind::Label, "Border color:", 10, 112, 110, 22, 0),
    (ControlKind::Swatch, "", 126, 112, 52, 22, 518),
    (ControlKind::Label, "Treatment:", 10, 142, 110, 22, 0),
    (ControlKind::Combo, "", 126, 142, 150, 200, 517),
    (ControlKind::Label, "Priority:", 10, 172, 110, 22, 0),
    (ControlKind::Combo, "", 126, 172, 150, 200, 519),
    (ControlKind::Label, "Sound:", 10, 202, 110, 22, 0),
    (ControlKind::Combo, "", 126, 202, 258, 200, 505),
    (ControlKind::Button, "▶", 388, 202, 26, 22, 520),
    (ControlKind::Label, "Delay (sec):", 10, 232, 110, 22, 0),
    (ControlKind::Edit, "", 126, 232, 70, 22, 504),
    (ControlKind::Label, "Variable name:", 10, 52, 110, 22, 0),
    (ControlKind::Edit, "", 126, 52, 150, 22, 507),
    (ControlKind::Label, "Value:", 10, 82, 110, 22, 0),
    (ControlKind::Edit, "", 126, 82, 258, 22, 508),
    (ControlKind::Label, "TTS Text:", 10, 52, 110, 22, 0),
    (ControlKind::Edit, "", 126, 52, 288, 22, 513),
    (ControlKind::Label, "Priority:", 10, 82, 110, 22, 0),
    (ControlKind::FirstRadio, "Emergency", 126, 82, 95, 22, 514),
    (ControlKind::Radio, "Operational", 226, 82, 95, 22, 515),
    (ControlKind::Radio, "Ambient", 326, 82, 80, 22, 516),
    (ControlKind::Button, "Cancel", 304, 262, 80, 22, 510),
    (ControlKind::DefaultButton, "OK", 216, 262, 80, 22, 509),
];

/// The editor of a sound label.
pub const LABEL_EDITOR: [(ControlKind, &'static str, i32, i32, i32, i32, i32); 8] = [
    (ControlKind::Label, "Label name:", 10, 14, 90, 22, 0),
    (ControlKind::Edit, "", 106, 14, 254, 22, 910),
    (ControlKind::Label, "Sound file:", 10, 46, 90, 22, 0),
    (ControlKind::ReadOnlyEdit, "", 106, 46, 180, 22, 911),
    (ControlKind::Button, "Browse…", 290, 46, 70, 22, 912),
    (ControlKind::Button, "▶ Preview", 106, 78, 120, 22, 913),
    (ControlKind::Button, "Cancel", 290, 118, 70, 24, 915),
    (ControlKind::DefaultButton, "OK", 212, 118, 70, 24, 914),
];

/// A question that is answered with a text.
pub const PROMPT: [(ControlKind, &'static str, i32, i32, i32, i32, i32); 4] = [
    (ControlKind::Label, "", 10, 14, 260, 22, -1),
    (ControlKind::Edit, "", 10, 42, 260, 22, 920),
    (ControlKind::Button, "Cancel", 200, 80, 70, 24, 922),
    (ControlKind::DefaultButton, "OK", 122, 80, 70, 24, 921),
];

// ── What the controls show at first ─────────────────────────────────────────

fn push_field(v: &mut Vec<FieldText>, id: i32, words: String)
    ensures
        layout::field_views(final(v)@) == layout::field_views(old(v)@).push((id, words@)),
{
    let ghost before = v@;
    v.push(FieldText { id, text: words });
    proof {
        assert(layout::field_views(v@) =~= layout::field_views(before).push((id, words@)));
    }
}

fn no_fields() -> (r: Vec<FieldText>)
    ensures
        layout::field_views(r@) == Seq::<(i32, Seq<char>)>::empty(),
{
    let v: Vec<FieldText> = Vec::new();
    proof {
        assert(layout::field_views(v@) =~= Seq::<(i32, Seq<char>)>::empty());
    }
    v
}

/// A number where a condition holds.
pub open spec fn if_checked(id: i32, on: bool) -> Seq<i32> {
    if on {
        seq![id]
    } else {
        Seq::empty()
    }
}

fn push_check(v: &mut Vec<i32>, id: i32, on: bool)
    ensures
        final(v)@ == old(v)@ + if_checked(id, on),
{
    if on {
        v.push(id);
    }
    proof {
        assert(v@ =~= old(v)@ + if_checked(id, on));
    }
}

/// The texts of the logging tab.
pub open spec fn logging_fields(d: LoggingDraft, reg: Registration) -> Seq<(i32, Seq<char>)> {
    seq![
        (103i32, d.player@),
        (104, d.log_path@),
        (106, d.server_url@),
        (109, reg.stream_id_text@),
        (110, d.password@),
        (
            111,
            if reg.is_registered {
                "Unregister"@
            } else {
                "Register"@
            },
        ),
    ]
}

/// The texts of the logging tab.
pub fn logging_texts(d: &LoggingDraft, reg: &Registration) -> (r: Vec<
    FieldText,
>)
    ensures
        layout::field_views(r@) == logging_fields(*d, *reg),
{
    let mut v = no_fields();
    push_field(&mut v, 103, d.player.clone());
    push_field(&mut v, 104, d.log_path.clone());
    push_field(&mut v, 106, d.server_url.clone());
    push_field(&mut v, 109, reg.stream_id_text.clone());
    push_field(&mut v, 110, d.password.clone());
    push_field(&mut v, 111, reg.button_text().to_owned());
    v
}

/// What an empty field shows: of the logging tab, the condition editor or the
/// action editor.
pub open spec fn hint_of(id: int) -> Option<Seq<char>> {
    if id == 103 {
        Some("Auto from log filename"@)
    } else if id == 106 {
        Some("https://server:8766"@)
    } else if id == 402 {
        Some("e.g. You have slain {target}!  or  (?P<name>.+) slain"@)
    } else if id == 504 {
        Some("0 or empty = immediate"@)
    } else if id == 503 || id == 508 || id == 513 {
        Some("{1},{2}=positional; {name}=named capture; {var}=stored var"@)
    } else {
        None
    }
}

/// What an empty field shows.
pub fn hint(id: i32) -> (r: Option<&'static str>)
    ensures
        hint_of(id as int) == match r {
            Some(s) => Some(s@),
            None => None,
        },
{
    if id == 103 {
        Some("Auto from log filename")
    } else if id == 106 {
        Some("https://server:8766")
    } else if id == 402 {
        Some("e.g. You have slain {target}!  or  (?P<name>.+) slain")
    } else if id == 504 {
        Some("0 or empty = immediate")
    } else if id == 503 || id == 508 || id == 513 {
        Some("{1},{2}=positional; {name}=named capture; {var}=stored var")
    } else {
        None
    }
}

/// The checks of the logging tab.
pub open spec fn logging_marks(d: LoggingDraft) -> Seq<i32> {
    if_checked(112, d.public) + if_checked(113, d.remote_logging)
}

/// The checks of the logging tab.
pub fn logging_checks(d: &LoggingDraft) -> (r: Vec<i32>)
    ensures
        r@ == logging_marks(*d),
{
    let mut v: Vec<i32> = Vec::new();
    push_check(&mut v, 112, d.public);
    push_check(&mut v, 113, d.remote_logging);
    proof {
        assert(v@ =~= if_checked(112, d.public) + if_checked(113, d.remote_logging));
    }
    v
}

/// The texts of the meter's tab.
pub open spec fn meter_fields<F>(cfg: Config<F>) -> Seq<(i32, Seq<char>)> {
    seq![
        (152i32, text::decimal(cfg.meter_max_rows as nat)),
        (153, text::decimal(cfg.meter_idle_secs as nat)),
        (154, text::decimal(cfg.meter_font_size as nat)),
    ]
}

/// The texts of the meter's tab.
pub fn meter_texts<F>(cfg: &Config<F>) -> (r: Vec<FieldText>)
    ensures
        layout::field_views(r@) == meter_fields(*cfg),
{
    let mut v = no_fields();
    push_field(&mut v, 152, text::decimal_string(cfg.meter_max_rows as u64));
    push_field(&mut v, 153, text::decimal_string(cfg.meter_idle_secs as u64));
    push_field(&mut v, 154, text::decimal_string(cfg.meter_font_size as u64));
    v
}

/// The texts of the overlays' tab. The seconds that a message holds come in
/// words.
pub open spec fn appearance_fields<F>(cfg: Config<F>, hold: Seq<char>) -> Seq<(i32, Seq<char>)> {
    seq![
        (211i32, text::decimal(cfg.overlay_start_font_size as nat)),
        (213, text::decimal(cfg.overlay_max_font_size as nat)),
        (214, text::decimal(cfg.overlay_fly_ms as nat)),
        (222, hold),
        (212, text::decimal(cfg.overlay_alpha as nat)),
        (223, text::decimal(cfg.overlay_history_font_size as nat)),
        (224, text::decimal(cfg.overlay_history_idle_secs as nat)),
        (225, text::decimal(cfg.overlay_history_max_entries as nat)),
        (226, text::signed_decimal(cfg.overlay_history_width as int)),
    ]
}

/// The texts of the overlays' tab. The seconds that a message holds come in
/// words.
pub fn appearance_texts<F>(cfg: &Config<F>, hold: String) -> (r: Vec<FieldText>)
    ensures
        layout::field_views(r@) == appearance_fields(*cfg, hold@),
{
    let mut v = no_fields();
    push_field(&mut v, 211, text::decimal_string(cfg.overlay_start_font_size as u64));
    push_field(&mut v, 213, text::decimal_string(cfg.overlay_max_font_size as u64));
    push_field(&mut v, 214, text::decimal_string(cfg.overlay_fly_ms as u64));
    push_field(&mut v, 222, hold);
    push_field(&mut v, 212, text::decimal_string(cfg.overlay_alpha as u64));
    push_field(&mut v, 223, text::decimal_string(cfg.overlay_history_font_size as u64));
    push_field(&mut v, 224, text::decimal_string(cfg.overlay_history_idle_secs as u64));
    push_field(&mut v, 225, text::decimal_string(cfg.overlay_history_max_entries as u64));
    push_field(&mut v, 226, text::signed_decimal_string(cfg.overlay_history_width));
    v
}

/// The texts of the windows' tab.
pub open spec fn windows_fields<F>(cfg: Config<F>) -> Seq<(i32, Seq<char>)> {
    seq![
        (216i32, text::signed_decimal(cfg.overlay_alert.x as int)),
        (217, text::signed_decimal(cfg.overlay_alert.y as int)),
        (227, text::signed_decimal(cfg.overlay_history.x as int)),
        (228, text::signed_decimal(cfg.overlay_history.y as int)),
        (156, text::signed_decimal(cfg.overlay_meter.x as int)),
        (157, text::signed_decimal(cfg.overlay_meter.y as int)),
    ]
}

/// The texts of the windows' tab.
pub fn windows_texts<F>(cfg: &Config<F>) -> (r: Vec<FieldText>)
    ensures
        layout::field_views(r@) == windows_fields(*cfg),
{
    let mut v = no_fields();
    push_field(&mut v, 216, text::signed_decimal_string(cfg.overlay_alert.x));
    push_field(&mut v, 217, text::signed_decimal_string(cfg.overlay_alert.y));
    push_field(&mut v, 227, text::signed_decimal_string(cfg.overlay_history.x));
    push_field(&mut v, 228, text::signed_decimal_string(cfg.overlay_history.y));
    push_field(&mut v, 156, text::signed_decimal_string(cfg.overlay_meter.x));
    push_field(&mut v, 157, text::signed_decimal_string(cfg.overlay_meter.y));
    v
}

/// The checks of the windows' tab.
pub open spec fn windows_marks<F>(cfg: Config<F>) -> Seq<i32> {
    if_checked(215, cfg.overlay_alert.enabled) + if_checked(
        229,
        cfg.overlay_alert.locked,
    ) + if_checked(231, cfg.overlay_history.enabled) + if_checked(
        230,
        cfg.overlay_history.locked,
    ) + if_checked(150, cfg.overlay_meter.enabled) + if_checked(
        151,
        cfg.overlay_meter.locked,
    )
}

/// The checks of the windows' tab.
pub fn windows_checks<F>(cfg: &Config<F>) -> (r: Vec<i32>)
    ensures
        r@ == windows_marks(*cfg),
{
    let mut v: Vec<i32> = Vec::new();
    push_check(&mut v, 215, cfg.overlay_alert.enabled);
    proof {
        assert(v@ =~= if_checked(215, cfg.overlay_alert.enabled));
    }
    push_check(&mut v, 229, cfg.overlay_alert.locked);
    push_check(&mut v, 231, cfg.overlay_history.enabled);
    push_check(&mut v, 230, cfg.overlay_history.locked);
    push_check(&mut v, 150, cfg.overlay_meter.enabled);
    push_check(&mut v, 151, cfg.overlay_meter.locked);
    v
}

/// The checks of the voice's tab.
pub open spec fn voice_marks<F>(cfg: Config<F>) -> Seq<i32> {
    if_checked(600, cfg.tts_enabled) + seq![
        match cfg.tts_audio_mode {
            TtsAudioMode::SmartPriority => 602i32,
            TtsAudioMode::QueueAll => 603,
            TtsAudioMode::InterruptConstantly => 604,
        },
    ] + if_checked(605, cfg.tts_read_emergency) + if_checked(606, cfg.tts_read_operational)
        + if_checked(607, cfg.tts_read_ambient)
}

/// The checks of the voice's tab.
pub fn voice_checks<F>(cfg: &Config<F>) -> (r: Vec<i32>)
    ensures
        r@ == voice_marks(*cfg),
{
    let mut v: Vec<i32> = Vec::new();
    push_check(&mut v, 600, cfg.tts_enabled);
    proof {
        assert(v@ =~= if_checked(600, cfg.tts_enabled));
    }
    let mode: i32 = match cfg.tts_audio_mode {
        TtsAudioMode::SmartPriority => 602,
        TtsAudioMode::QueueAll => 603,
        TtsAudioMode::InterruptConstantly => 604,
    };
    let ghost before = v@;
    v.push(mode);
    proof {
        assert(v@ =~= before + seq![mode]);
    }
    push_check(&mut v, 605, cfg.tts_read_emergency);
    push_check(&mut v, 606, cfg.tts_read_operational);
    push_check(&mut v, 607, cfg.tts_read_ambient);
    v
}

/// The volume in percent, at most a hundred.
pub open spec fn volume_of(volume: u8) -> nat {
    if volume > 100 {
        100
    } else {
        volume as nat
    }
}

/// The position of the volume's slider.
pub fn volume_position(volume: u8) -> (r: u8)
    ensures
        r == volume_of(volume),
{
    if volume > 100 {
        100
    } else {
        volume
    }
}

/// The texts of the sounds' tab: the volume in percent.
pub open spec fn sounds_fields(volume: u8) -> Seq<(i32, Seq<char>)> {
    seq![(-1i32, text::decimal(volume_of(volume)) + "%"@)]
}

/// The texts of the sounds' tab: the volume in percent.
pub fn sounds_texts(volume: u8) -> (r: Vec<FieldText>)
    ensures
        layout::field_views(r@) == sounds_fields(volume),
{
    let mut s: String = String::new();
    text::push_decimal(&mut s, volume_position(volume) as u64);
    s.append("%");
    proof {
        assert(s@ =~= text::decimal(volume_of(volume)) + "%"@);
    }
    let mut v = no_fields();
    push_field(&mut v, -1, s);
    v
}

/// The checks of the sounds' tab.
pub fn sounds_checks(enabled: bool) -> (r: Vec<i32>)
    ensures
        r@ == if_checked(117, enabled),
{
    let mut v: Vec<i32> = Vec::new();
    push_check(&mut v, 117, enabled);
    proof {
        assert(v@ =~= if_checked(117, enabled));
    }
    v
}

/// Which voice is selected: the last that has the id which is set, else the
/// first.
pub open spec fn voice_selection(ids: Seq<String>, set: Seq<char>, n: nat) -> nat
    decreases n,
{
    if n == 0 {
        0
    } else if set.len() > 0 && ids[n - 1]@ == set {
        (n - 1) as nat
    } else {
        voice_selection(ids, set, (n - 1) as nat)
    }
}

/// Which voice is selected.
pub fn selected_voice(ids: &Vec<String>, set: &str) -> (r: usize)
    ensures
        r == voice_selection(ids@, set@, ids@.len()),
{
    let mut n: usize = ids.len();
    while n > 0
        invariant
            n <= ids@.len(),
            voice_selection(ids@, set@, n as nat) == voice_selection(ids@, set@, ids@.len()),
        decreases n,
    {
        if !set.is_empty() && text::same(ids[n - 1].as_str(), set) {
            return n - 1;
        }
        n -= 1;
    }
    0
}

/// How many rows a list of icons shows at most, and how high each is.
pub const ICON_COMBO_MAX_ROWS: i64 = 14;

pub const ICON_ITEM_H: i64 = 26;

/// The height of the list of icons when it is open.
pub fn icon_combo_height(count: usize) -> (r: i64)
    ensures
        r == (if count < 1 {
            1
        } else if count > ICON_COMBO_MAX_ROWS {
            ICON_COMBO_MAX_ROWS as int
        } else {
            count as int
        }) * ICON_ITEM_H + 4,
{
    let rows: i64 = if count < 1 {
        1
    } else if count > 14 {
        14
    } else {
        count as i64
    };
    rows * ICON_ITEM_H + 4
}

/// The lengths of the longest label.
pub open spec fn longest(v: Seq<SoundOption>) -> nat
    decreases v.len(),
{
    if v.len() == 0 {
        0
    } else if v.last().label@.len() > longest(v.drop_last()) {
        v.last().label@.len()
    } else {
        longest(v.drop_last())
    }
}

/// The width of the action editor's fields.
pub const FIELD_WIDTH: u64 = 258;

/// How wide the list of sounds opens: seven for each character of the longest
/// label and twenty more, at least as wide as its field.
pub fn sound_list_extent(v: &Vec<SoundOption>) -> (r: u64)
    requires
        longest(v@) * 7 + 20 <= u64::MAX,
    ensures
        r == if longest(v@) * 7 + 20 < FIELD_WIDTH {
            FIELD_WIDTH as nat
        } else {
            longest(v@) * 7 + 20
        },
{
    let n: usize = v.len();
    let mut top: usize = 0;
    let mut i: usize = 0;
    while i < n
        invariant
            n == v@.len(),
            i <= n,
            top == longest(v@.take(i as int)),
        decreases n - i,
    {
        proof {
            assert(v@.take(i + 1).drop_last() =~= v@.take(i as int));
            assert(v@.take(i + 1).last() == v@[i as int]);
        }
        let k: usize = text::chars_of(v[i].label.as_str()).len();
        if k > top {
            top = k;
        }
        i += 1;
    }
    proof {
        assert(v@.take(n as int) =~= v@);
    }
    let w: u64 = top as u64 * 7 + 20;
    if w < FIELD_WIDTH {
        FIELD_WIDTH
    } else {
        w
    }
}

/// Where the rows for the sound and for the delay stand, by the kind of the
/// action: at the top where only they are shown, else below the others.
pub fn sound_rows(kind: usize) -> (r: (i32, i32))
    ensures
        r == if kind == 3 {
            (52i32, 82i32)
        } else {
            (202i32, 232i32)
        },
{
    if kind == 3 {
        (52, 82)
    } else {
        (202, 232)
    }
}

/// The texts of the action editor. The delay comes in words.
pub open spec fn action_fields(a: ShownAction, delay: Seq<char>) -> Seq<(i32, Seq<char>)> {
    seq![
        (503i32, a.message@),
        (504, delay),
        (507, a.var_name@),
        (508, a.value@),
        (513, a.tts_text@),
    ]
}

/// The texts of the action editor.
pub fn action_texts(a: &ShownAction, delay: String) -> (r: Vec<FieldText>)
    ensures
        layout::field_views(r@) == action_fields(*a, delay@),
{
    let mut v = no_fields();
    push_field(&mut v, 503, a.message.clone());
    push_field(&mut v, 504, delay);
    push_field(&mut v, 507, a.var_name.clone());
    push_field(&mut v, 508, a.value.clone());
    push_field(&mut v, 513, a.tts_text.clone());
    v
}

/// The checks of the action editor: the priority of a voice alert.
pub fn action_checks(a: &ShownAction) -> (r: Vec<i32>)
    ensures
        r@ == seq![
            match a.voice_priority {
                VoicePriority::Emergency => 514i32,
                VoicePriority::Operational => 515,
                VoicePriority::Ambient => 516,
            },
        ],
{
    let id: i32 = match a.voice_priority {
        VoicePriority::Emergency => 514,
        VoicePriority::Operational => 515,
        VoicePriority::Ambient => 516,
    };
    let mut v: Vec<i32> = Vec::new();
    v.push(id);
    proof {
        assert(v@ =~= seq![id]);
    }
    v
}

/// The controls of the action editor, the list of icons as high as it opens.
pub fn action_editor(area: Area, texts: &Vec<FieldText>, checked: &Vec<i32>, icons: usize) -> (r:
    Vec<Control>)
    ensures
        r@.len() == ACTION_EDITOR@.len(),
        forall|i: int|
            0 <= i < r@.len() && i != 4 ==> layout::is_placed(
                ACTION_EDITOR@[i],
                area,
                layout::field_views(texts@),
                checked@,
                #[trigger] r@[i],
            ),
        layout::stands(ACTION_EDITOR@[4], area, layout::field_views(texts@), checked@, r@[4]),
        r@[4].h == (if icons < 1 {
            1
        } else if icons > ICON_COMBO_MAX_ROWS {
            ICON_COMBO_MAX_ROWS as int
        } else {
            icons as int
        }) * ICON_ITEM_H + 4,
{
    let mut out = layout::lay_out(&ACTION_EDITOR, area, texts, checked);
    let ghost before = out@;
    proof {
        assert(layout::is_placed(
            ACTION_EDITOR@[4],
            area,
            layout::field_views(texts@),
            checked@,
            before[4],
        ));
    }
    out[4].h = icon_combo_height(icons);
    proof {
        assert forall|i: int| 0 <= i < out@.len() && i != 4 implies layout::is_placed(
            ACTION_EDITOR@[i],
            area,
            layout::field_views(texts@),
            checked@,
            #[trigger] out@[i],
        ) by {
            assert(out@[i] == before[i]);
        }
    }
    out
}

// ── The panels ──────────────────────────────────────────────────────────────

/// The controls of the general tab.
pub fn general_panel(area: Area) -> (r: Vec<Control>)
    ensures
        layout::laid_out(GENERAL@, area, Seq::empty(), Seq::empty(), r@),
{
    layout::lay_out(&GENERAL, area, &no_fields(), &Vec::new())
}

/// The controls of the logging tab.
pub fn logging_panel(area: Area, d: &LoggingDraft, reg: &Registration) -> (r: Vec<Control>)
    ensures
        layout::laid_out(LOGGING@, area, logging_fields(*d, *reg), logging_marks(*d), r@),
{
    layout::lay_out(&LOGGING, area, &logging_texts(d, reg), &logging_checks(d))
}

/// The controls of the meter's tab.
pub fn meter_panel<F>(area: Area, cfg: &Config<F>) -> (r: Vec<Control>)
    ensures
        layout::laid_out(METER@, area, meter_fields(*cfg), Seq::empty(), r@),
{
    layout::lay_out(&METER, area, &meter_texts(cfg), &Vec::new())
}

/// The controls of the triggers' tab.
pub fn triggers_panel(area: Area) -> (r: Vec<Control>)
    ensures
        layout::laid_out(TRIGGERS@, area, Seq::empty(), Seq::empty(), r@),
{
    layout::lay_out(&TRIGGERS, area, &no_fields(), &Vec::new())
}

/// The controls of the sounds' tab.
pub fn sounds_panel<F>(area: Area, cfg: &Config<F>) -> (r: Vec<Control>)
    ensures
        layout::laid_out(
            SOUNDS@,
            area,
            sounds_fields(cfg.sound_volume),
            if_checked(117, cfg.sound_enabled),
            r@,
        ),
{
    layout::lay_out(
        &SOUNDS,
        area,
        &sounds_texts(cfg.sound_volume),
        &sounds_checks(cfg.sound_enabled),
    )
}

/// The controls of the overlays' tab.
pub fn appearance_panel<F>(area: Area, cfg: &Config<F>, hold: String) -> (r: Vec<Control>)
    ensures
        layout::laid_out(APPEARANCE@, area, appearance_fields(*cfg, hold@), Seq::empty(), r@),
{
    layout::lay_out(&APPEARANCE, area, &appearance_texts(cfg, hold), &Vec::new())
}

/// The controls of the windows' tab.
pub fn windows_panel<F>(area: Area, cfg: &Config<F>) -> (r: Vec<Control>)
    ensures
        layout::laid_out(WINDOWS@, area, windows_fields(*cfg), windows_marks(*cfg), r@),
{
    layout::lay_out(&WINDOWS, area, &windows_texts(cfg), &windows_checks(cfg))
}

/// The controls of the voice's tab.
pub fn voice_panel<F>(area: Area, cfg: &Config<F>) -> (r: Vec<Control>)
    ensures
        layout::laid_out(VOICE@, area, Seq::empty(), voice_marks(*cfg), r@),
{
    layout::lay_out(&VOICE, area, &no_fields(), &voice_checks(cfg))
}

/// What surrounds the tabs.
pub fn frame(area: Area) -> (r: Vec<Control>)
    ensures
        layout::laid_out(FRAME@, area, Seq::empty(), Seq::empty(), r@),
{
    layout::lay_out(&FRAME, area, &no_fields(), &Vec::new())
}

/// The controls of the trigger editor.
pub fn trigger_editor(area: Area, name: &str, enabled: bool) -> (r: Vec<Control>)
    ensures
        layout::laid_out(
            TRIGGER_EDITOR@,
            area,
            seq![(300i32, name@)],
            if_checked(301, enabled),
            r@,
        ),
{
    let mut v = no_fields();
    push_field(&mut v, 300, name.to_owned());
    let mut marks: Vec<i32> = Vec::new();
    push_check(&mut marks, 301, enabled);
    proof {
        assert(marks@ =~= if_checked(301, enabled));
        assert(layout::field_views(v@) =~= seq![(300i32, name@)]);
    }
    layout::lay_out(&TRIGGER_EDITOR, area, &v, &marks)
}

/// The controls of the condition editor.
pub fn condition_editor(area: Area, i: &ConditionInput) -> (r: Vec<Control>)
    ensures
        layout::laid_out(
            CONDITION_EDITOR@,
            area,
            seq![(402i32, i.pattern@), (403, i.var_name@), (405, i.value@)],
            Seq::empty(),
            r@,
        ),
{
    let mut v = no_fields();
    push_field(&mut v, 402, i.pattern.clone());
    push_field(&mut v, 403, i.var_name.clone());
    push_field(&mut v, 405, i.value.clone());
    proof {
        assert(layout::field_views(v@) =~= seq![
            (402i32, i.pattern@),
            (403, i.var_name@),
            (405, i.value@),
        ]);
    }
    layout::lay_out(&CONDITION_EDITOR, area, &v, &Vec::new())
}

/// The controls of the label editor.
pub fn label_editor(area: Area, name: &str, file: &str) -> (r: Vec<Control>)
    ensures
        layout::laid_out(
            LABEL_EDITOR@,
            area,
            seq![(910i32, name@), (911, file@)],
            Seq::empty(),
            r@,
        ),
{
    let mut v = no_fields();
    push_field(&mut v, 910, name.to_owned());
    push_field(&mut v, 911, file.to_owned());
    proof {
        assert(layout::field_views(v@) =~= seq![(910i32, name@), (911, file@)]);
    }
    layout::lay_out(&LABEL_EDITOR, area, &v, &Vec::new())
}

/// The controls of a question.
pub fn prompt(area: Area, label: &str, initial: &str) -> (r: Vec<Control>)
    ensures
        layout::laid_out(
            PROMPT@,
            area,
            seq![(-1i32, label@), (920, initial@)],
            Seq::empty(),
            r@,
        ),
{
    let mut v = no_fields();
    push_field(&mut v, -1, label.to_owned());
    push_field(&mut v, 920, initial.to_owned());
    proof {
        assert(layout::field_views(v@) =~= seq![(-1i32, label@), (920, initial@)]);
    }
    layout::lay_out(&PROMPT, area, &v, &Vec::new())
}

} // verus!
