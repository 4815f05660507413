//! The alert overlay: when its window shows, where it stands, and which sounds
//! play.
use vstd::prelude::*;

use crate::config::{AlertStyle, Config};
use crate::text;

verus! {

/// Milliseconds between two frames.
pub const ANIM_INTERVAL_MS: u64 = 16;

/// How many frames there are from one time that the window is put on top of
/// all others to the next.
pub const TOPMOST_FRAMES: u64 = 300;

/// Default text fill when a trigger doesn't override it.
pub const DEFAULT_TEXT_RGB: (u8, u8, u8) = (255, 255, 255);

/// Default text stroke when a trigger doesn't override it.
pub const DEFAULT_BORDER_RGB: (u8, u8, u8) = (0, 0, 0);

/// The smallest font size, in points.
pub const MIN_FONT_PT: u32 = 6;

/// What the window's side knows of the settings, and whether it is shown.
#[derive(Clone, Copy, PartialEq, Eq, Structural)]
pub struct OverlayState {
    pub overlay_enabled: bool,
    /// Only where alerts and history are separate does this window take alerts
    /// from the queue: else the combined window does.
    pub alert_style: AlertStyle,
    pub start_pt: i32,
    pub max_pt: i32,
    pub alpha: u8,
    pub visible: bool,
    pub force_show: bool,
    pub locked: bool,
    pub hide_inactive_secs: u32,
    pub tick_count: u64,
}

/// A font size of at least six points.
pub open spec fn font_pt(size: u32) -> i32 {
    (if size < MIN_FONT_PT {
        MIN_FONT_PT
    } else {
        size
    }) as i32
}

fn font_points(size: u32) -> (r: i32)
    ensures
        r == font_pt(size),
{
    let pt: u32 = if size < MIN_FONT_PT {
        MIN_FONT_PT
    } else {
        size
    };
    #[verifier::truncate]
    (pt as i32)
}

impl OverlayState {
    /// Whether the state mirrors the settings.
    pub open spec fn mirrors<F>(&self, cfg: Config<F>, force_show: bool) -> bool {
        &&& self.overlay_enabled == cfg.overlay_alert.enabled
        &&& self.alert_style == cfg.alert_style
        &&& self.start_pt == font_pt(cfg.overlay_start_font_size)
        &&& self.max_pt == font_pt(cfg.overlay_max_font_size)
        &&& self.alpha == cfg.overlay_alpha
        &&& self.locked == cfg.overlay_alert.locked
        &&& self.hide_inactive_secs == cfg.overlay_hide_inactive_secs
        &&& self.force_show == force_show
    }

    /// The state of a window that was just created.
    pub fn new<F>(cfg: &Config<F>, force_show: bool) -> (r: Self)
        ensures
            r.mirrors(*cfg, force_show),
            !r.visible,
            r.tick_count == 0,
    {
        OverlayState {
            overlay_enabled: cfg.overlay_alert.enabled,
            alert_style: cfg.alert_style,
            start_pt: font_points(cfg.overlay_start_font_size),
            max_pt: font_points(cfg.overlay_max_font_size),
            alpha: cfg.overlay_alpha,
            visible: false,
            force_show,
            locked: cfg.overlay_alert.locked,
            hide_inactive_secs: cfg.overlay_hide_inactive_secs,
            tick_count: 0,
        }
    }

    /// Reload live-tunable settings from config.
    pub fn sync_config<F>(&mut self, cfg: &Config<F>, force_show: bool)
        ensures
            final(self).mirrors(*cfg, force_show),
            final(self).visible == old(self).visible,
            final(self).tick_count == old(self).tick_count,
    {
        self.overlay_enabled = cfg.overlay_alert.enabled;
        self.alert_style = cfg.alert_style;
        self.start_pt = font_points(cfg.overlay_start_font_size);
        self.max_pt = font_points(cfg.overlay_max_font_size);
        self.alpha = cfg.overlay_alpha;
        self.locked = cfg.overlay_alert.locked;
        self.hide_inactive_secs = cfg.overlay_hide_inactive_secs;
        self.force_show = force_show;
    }

    /// Counts a frame; returns whether the window is put on top of all others
    /// again, since another one may have taken its place.
    pub fn count_frame(&mut self) -> (r: bool)
        requires
            old(self).tick_count < u64::MAX,
        ensures
            *final(self) == (OverlayState {
                tick_count: (old(self).tick_count + 1) as u64,
                ..*old(self)
            }),
            r == (final(self).tick_count % TOPMOST_FRAMES == 0),
    {
        self.tick_count = self.tick_count + 1;
        self.tick_count % TOPMOST_FRAMES == 0
    }

    /// Whether the window takes the next alert from the queue: not while the
    /// log is silent, so that what arrives then is still there when the window
    /// wakes up; and only where it is the window that presents alerts.
    pub open spec fn drains(&self, log_inactive: bool) -> bool {
        !log_inactive && self.alert_style == AlertStyle::Separate
    }

    /// Whether the window takes the next alert from the queue.
    pub fn drains_queue(&self, log_inactive: bool) -> (r: bool)
        ensures
            r == self.drains(log_inactive),
    {
        !log_inactive && self.alert_style == AlertStyle::Separate
    }

    /// Whether the window shows: silence of the log wins over everything else.
    pub open spec fn shows(&self, log_inactive: bool, has_alert: bool) -> bool {
        &&& !log_inactive
        &&& self.alert_style == AlertStyle::Separate
        &&& self.overlay_enabled || self.force_show
        &&& has_alert
    }

    /// What the window does in a frame, given whether there is an alert: the
    /// window appears or disappears where its state changes.
    pub fn frame(&mut self, log_inactive: bool, has_alert: bool) -> (r: WindowChange)
        ensures
            *final(self) == (OverlayState {
                visible: old(self).shows(log_inactive, has_alert),
                ..*old(self)
            }),
            r == window_change(old(self).visible, old(self).shows(log_inactive, has_alert)),
    {
        let show: bool = !log_inactive && self.alert_style == AlertStyle::Separate && (
        self.overlay_enabled || self.force_show) && has_alert;
        let change = if show && !self.visible {
            WindowChange::Show
        } else if !show && self.visible {
            WindowChange::Hide
        } else {
            WindowChange::Keep
        };
        self.visible = show;
        change
    }

    /// Whether clicks go through the window: where it is locked, unless all
    /// windows are shown to be moved.
    pub fn click_through(&self) -> (r: bool)
        ensures
            r == (self.locked && !self.force_show),
    {
        self.locked && !self.force_show
    }
}

/// What happens to a window.
#[derive(Clone, Copy, PartialEq, Eq, Structural)]
pub enum WindowChange {
    Show,
    Hide,
    Keep,
}

/// What happens to a window that is visible or not and shall be or not.
pub open spec fn window_change(visible: bool, show: bool) -> WindowChange {
    if show && !visible {
        WindowChange::Show
    } else if !show && visible {
        WindowChange::Hide
    } else {
        WindowChange::Keep
    }
}

/// The position that was saved for the window; nothing where it was never
/// placed. Any other position is a real one: on several monitors coordinates
/// may be negative.
pub fn saved_position(x: i32, y: i32) -> (r: Option<(i32, i32)>)
    ensures
        r == if x == -1 && y == -1 {
            None
        } else {
            Some((x, y))
        },
{
    if x == -1 && y == -1 {
        None
    } else {
        Some((x, y))
    }
}

/// Red, green and blue of a colour `0xRRGGBB`.
pub open spec fn rgb_of(c: u32) -> (u8, u8, u8) {
    (((c >> 16) & 0xFF) as u8, ((c >> 8) & 0xFF) as u8, (c & 0xFF) as u8)
}

/// Red, green and blue of a colour `0xRRGGBB`, or the default where there is
/// none.
pub fn color_or(parsed: Option<u32>, default_rgb: (u8, u8, u8)) -> (r: (u8, u8, u8))
    ensures
        r == match parsed {
            Some(c) => rgb_of(c),
            None => default_rgb,
        },
{
    match parsed {
        Some(c) => (
            #[verifier::truncate] (((c >> 16) & 0xFF) as u8),
            #[verifier::truncate] (((c >> 8) & 0xFF) as u8),
            #[verifier::truncate] ((c & 0xFF) as u8),
        ),
        None => default_rgb,
    }
}

// ── Sounds ──────────────────────────────────────────────────────────────────

/// The package that sounds come from where no other is chosen.
pub const DEFAULT_PACKAGE: &'static str = "default";

/// How sounds are played.
pub struct SoundSettings {
    /// Overall volume (0-100).
    pub volume_percent: u8,
    /// Master mute.
    pub enabled: bool,
    /// Name of the active sound package; empty where none was chosen.
    pub active_package: String,
}

impl SoundSettings {
    /// Full volume, no mute, no package chosen.
    pub fn new() -> (r: Self)
        ensures
            r.volume_percent == 100,
            r.enabled,
            r.active_package@.len() == 0,
    {
        SoundSettings { volume_percent: 100, enabled: true, active_package: String::new() }
    }
}

pub fn set_sound_volume_percent(settings: &mut SoundSettings, percent: u8)
    ensures
        *final(settings) == (SoundSettings { volume_percent: percent, ..*old(settings) }),
{
    settings.volume_percent = percent;
}

pub fn set_sound_enabled(settings: &mut SoundSettings, enabled: bool)
    ensures
        *final(settings) == (SoundSettings { enabled, ..*old(settings) }),
{
    settings.enabled = enabled;
}

pub fn set_active_sound_package(settings: &mut SoundSettings, name: &str)
    ensures
        final(settings).active_package@ == name@,
        final(settings).enabled == old(settings).enabled,
        final(settings).volume_percent == old(settings).volume_percent,
{
    settings.active_package = name.to_owned();
}

/// The package that a sound is looked up in: the active one, or the default.
pub open spec fn package_of(active: Seq<char>) -> Seq<char> {
    if active.len() == 0 {
        DEFAULT_PACKAGE@
    } else {
        active
    }
}

/// The package that the sound `label` is looked up in; nothing for an empty
/// label.
pub fn sound_package_for(settings: &SoundSettings, label: &str) -> (r: Option<String>)
    ensures
        text::opt_view(r) == if label@.len() == 0 {
            None
        } else {
            Some(package_of(settings.active_package@))
        },
{
    if label.is_empty() {
        None
    } else if settings.active_package.as_str().is_empty() {
        Some(DEFAULT_PACKAGE.to_owned())
    } else {
        Some(settings.active_package.clone())
    }
}

/// Whether a sound that was resolved is played: a preview always, an alert only
/// where sounds are switched on.
pub fn plays(settings: &SoundSettings, preview: bool) -> (r: bool)
    ensures
        r == (preview || settings.enabled),
{
    preview || settings.enabled
}

/// `s` without the copies of `p` at its start.
pub open spec fn without_leading_text(s: Seq<char>, p: Seq<char>) -> Seq<char>
    decreases s.len(),
{
    if p.len() > 0 && text::occurs_at(s, p, 0) {
        without_leading_text(s.skip(p.len() as int), p)
    } else {
        s
    }
}

fn strip_all(s: &str, p: &str) -> (r: String)
    requires
        p@.len() > 0,
    ensures
        r@ == without_leading_text(s@, p@),
{
    let v = text::chars_of(s);
    let q = text::chars_of(p);
    let n: usize = v.len();
    let mut i: usize = 0;
    proof {
        assert(v@.skip(0) =~= s@);
    }
    while text::matches_at(&v, &q, i)
        invariant
            v@ == s@,
            q@ == p@,
            n == v@.len(),
            p@.len() > 0,
            i <= n,
            without_leading_text(v@.skip(i as int), p@) == without_leading_text(s@, p@),
        decreases v@.len() - i,
    {
        proof {
            assert(v@.skip(i as int).subrange(0, p@.len() as int) =~= v@.subrange(
                i as int,
                i + p@.len(),
            ));
            assert(v@.skip(i as int).skip(p@.len() as int) =~= v@.skip(i + p@.len()));
        }
        i += q.len();
    }
    proof {
        if text::occurs_at(v@.skip(i as int), p@, 0) {
            assert(v@.skip(i as int).subrange(0, p@.len() as int) =~= v@.subrange(
                i as int,
                i + p@.len(),
            ));
        }
    }
    let r = text::string_of_range(&v, i, v.len());
    proof {
        assert(r@ =~= v@.skip(i as int));
    }
    r
}

/// The name of a sound below the sounds folder, where a path leads there.
pub open spec fn bundled_sound(path: Seq<char>) -> Option<Seq<char>> {
    if text::occurs_at(path, "sounds/"@, 0) || text::occurs_at(path, "sounds\\"@, 0) {
        Some(
            without_leading_text(
                without_leading_text(path, "sounds/"@),
                "sounds\\"@,
            ),
        )
    } else {
        None
    }
}

/// The name of a sound below the sounds folder, where a path leads there: the
/// program plays that file if it exists, else the path as it stands.
pub fn bundled_sound_name(path: &str) -> (r: Option<String>)
    ensures
        text::opt_view(r) == bundled_sound(path@),
{
    proof {
        reveal_strlit("sounds/");
        reveal_strlit("sounds\\");
    }
    if text::starts_with(path, "sounds/") || text::starts_with(path, "sounds\\") {
        let a = strip_all(path, "sounds/");
        Some(strip_all(a.as_str(), "sounds\\"))
    } else {
        None
    }
}

// ── Laws ────────────────────────────────────────────────────────────────────

/// While the log is silent the window does not show and takes no alert from the
/// queue; and it never shows an alert that it has not taken itself.
pub proof fn silence_keeps_alerts(s: OverlayState, log_inactive: bool, has_alert: bool)
    ensures
        !s.drains(true),
        !s.shows(true, has_alert),
        s.shows(log_inactive, has_alert) ==> s.drains(log_inactive),
{
}

/// How often a window appears in a run of frames, less how often it
/// disappears; `wanted` says for each frame whether it shall show.
pub open spec fn appearances(visible: bool, wanted: Seq<bool>) -> int
    decreases wanted.len(),
{
    if wanted.len() == 0 {
        0
    } else {
        let change = match window_change(visible, wanted.first()) {
            WindowChange::Show => 1int,
            WindowChange::Hide => -1int,
            WindowChange::Keep => 0int,
        };
        change + appearances(wanted.first(), wanted.drop_first())
    }
}

/// A window is told of changes alone: over any run of frames it appears and
/// disappears in turn, and ends as the last frame wants it.
pub proof fn window_changes_alternate(visible: bool, wanted: Seq<bool>)
    ensures
        wanted.len() == 0 ==> appearances(visible, wanted) == 0,
        wanted.len() > 0 ==> appearances(visible, wanted) == (if wanted.last() {
            1int
        } else {
            0int
        }) - (if visible {
            1int
        } else {
            0int
        }),
    decreases wanted.len(),
{
    if wanted.len() > 0 {
        let rest = wanted.drop_first();
        window_changes_alternate(wanted.first(), rest);
        if rest.len() > 0 {
            assert(rest.last() == wanted.last());
        }
    }
}

} // verus!
