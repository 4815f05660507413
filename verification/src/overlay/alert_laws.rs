//! What holds of the alert overlay and of the sounds.
use vstd::prelude::*;

use crate::config::AlertStyle;
use crate::config::Config;
use crate::overlay::alert::bundled_sound;
use crate::overlay::alert::font_pt;
use crate::overlay::alert::package_of;
use crate::overlay::alert::rgb_of;
use crate::overlay::alert::without_leading_text;
use crate::overlay::alert::OverlayState;
use crate::text;

verus! {

/// A colour is red, green and blue in this order, each a byte, red in front.
pub proof fn colours_are_red_green_blue(red: u8, green: u8, blue: u8)
    ensures
        rgb_of((0x1_0000 * red + 0x100 * green + blue) as u32) == (red, green, blue),
{
    let c = (0x1_0000 * red + 0x100 * green + blue) as u32;
    assert((c >> 16) & 0xFF == (c / 0x1_0000) % 0x100) by (bit_vector);
    assert((c >> 8) & 0xFF == (c / 0x100) % 0x100) by (bit_vector);
    assert(c & 0xFF == c % 0x100) by (bit_vector);
}

/// A font has the size that was set, but never less than six points.
pub proof fn fonts_are_readable(size: u32)
    requires
        size <= i32::MAX,
    ensures
        font_pt(size) >= 6,
        size >= 6 ==> font_pt(size) == size,
        size < 6 ==> font_pt(size) == 6,
{
}

/// An alert is shown just where there is one, the log is not silent, alerts have
/// a window of their own, and that window is on or all are shown.
pub proof fn alerts_show_where_they_have_a_window(s: OverlayState, silent: bool, has_alert: bool)
    ensures
        s.shows(silent, has_alert) ==> has_alert && !silent && s.alert_style
            == AlertStyle::Separate,
        has_alert && !silent && s.alert_style == AlertStyle::Separate && s.overlay_enabled
            ==> s.shows(silent, has_alert),
        has_alert && !silent && s.alert_style == AlertStyle::Separate && s.force_show ==> s.shows(
            silent,
            has_alert,
        ),
        !s.overlay_enabled && !s.force_show ==> !s.shows(silent, has_alert),
        !silent && s.alert_style == AlertStyle::Separate ==> s.drains(silent),
{
}

/// Without a package of one's own choice sounds come from the default one.
pub proof fn sounds_come_from_a_package(name: Seq<char>)
    ensures
        package_of(name).len() > 0,
        name.len() > 0 ==> package_of(name) == name,
        package_of(Seq::empty()) == "default"@,
{
    reveal_strlit("default");
}

/// A sound below the sounds folder goes by what follows the folder, whichever
/// slash is written; any other path is no bundled sound.
pub proof fn bundled_sounds_are_named_below_their_folder(name: Seq<char>)
    requires
        !text::occurs_at(name, "sounds/"@, 0),
        !text::occurs_at(name, "sounds\\"@, 0),
    ensures
        bundled_sound("sounds/"@ + name) == Some(name),
        bundled_sound("sounds\\"@ + name) == Some(name),
        bundled_sound(name) is None,
{
    reveal_strlit("sounds/");
    reveal_strlit("sounds\\");
    let a = "sounds/"@;
    let b = "sounds\\"@;
    assert((a + name).subrange(0, 7) =~= a);
    assert((a + name).skip(7) =~= name);
    assert((b + name).subrange(0, 7) =~= b);
    assert((b + name).skip(7) =~= name);
    assert(without_leading_text(name, a) == name);
    assert(without_leading_text(name, b) == name);
    assert(without_leading_text(a + name, a) == name);
    assert(!text::occurs_at(b + name, a, 0)) by {
        assert((b + name)[6] == '\\');
        assert(a[6] == '/');
        if text::occurs_at(b + name, a, 0) {
            assert((b + name).subrange(0, 7)[6] == a[6]);
        }
    }
    assert(without_leading_text(b + name, a) == b + name);
    assert(without_leading_text(b + name, b) == name);
}

/// The window follows the settings: an alert grows from its smaller size to its
/// larger one, and the window is as opaque, as locked and as quiet as was set.
pub proof fn windows_follow_the_settings<F>(s: OverlayState, cfg: Config<F>, force_show: bool)
    requires
        s.mirrors(cfg, force_show),
        6 <= cfg.overlay_start_font_size <= cfg.overlay_max_font_size <= i32::MAX,
    ensures
        s.start_pt <= s.max_pt,
        s.start_pt == cfg.overlay_start_font_size,
        s.max_pt == cfg.overlay_max_font_size,
        s.alpha == cfg.overlay_alpha,
        s.locked == cfg.overlay_alert.locked,
        s.overlay_enabled == cfg.overlay_alert.enabled,
        s.hide_inactive_secs == cfg.overlay_hide_inactive_secs,
        s.force_show == force_show,
{
}

} // verus!
