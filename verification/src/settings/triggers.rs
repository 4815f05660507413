//! Triggers as the settings window edits them: conditions, actions, and the
//! lists that hold them.
use vstd::prelude::*;

use crate::text;

verus! {

/// Whether all conditions have to hold or one is enough.
#[derive(Debug, Clone, Copy, PartialEq, Eq, Structural)]
pub enum ConditionLogic {
    All,
    Any,
}

/// How a pattern matches a log line.
#[derive(Debug, Clone, Copy, PartialEq, Eq, Structural)]
pub enum MatchType {
    Exact,
    Regex,
    Glob,
}

/// How a stored variable is compared.
#[derive(Debug, Clone, Copy, PartialEq, Eq, Structural)]
pub enum VarOp {
    Isset,
    Equals,
    Gt,
    Gte,
    Lt,
    Lte,
    Matches,
}

/// How urgent an alert is.
#[derive(Debug, Clone, Copy, PartialEq, Eq, Structural)]
pub enum VoicePriority {
    Emergency,
    Operational,
    Ambient,
}

/// How an alert's text moves.
#[derive(Debug, Clone, Copy, PartialEq, Eq, Structural)]
pub enum Treatment {
    Plain,
    Glow,
    Vibrate,
    Pulse,
}

/// What a trigger waits for.
#[derive(Debug, Clone)]
pub enum Condition {
    Match { match_type: MatchType, pattern: String },
    Var { var_name: String, op: VarOp, value: String },
}

/// What a trigger does. `D` is the type of the delay in seconds.
#[derive(Debug, Clone)]
pub enum Action<D> {
    Overlay {
        icon: String,
        color: String,
        message: String,
        message_color: String,
        border_color: String,
        delay: D,
        treatment: Treatment,
        priority: VoicePriority,
    },
    VoiceAlert { tts_text: String, priority: VoicePriority },
    PlaySound { sound: Option<String>, delay: D },
    StoreVar { var_name: String, value: String },
}

/// A trigger.
#[derive(Debug, Clone)]
pub struct TriggerDef<D> {
    pub name: String,
    pub enabled: bool,
    pub condition_logic: ConditionLogic,
    pub conditions: Vec<Condition>,
    pub actions: Vec<Action<D>>,
}

pub const NEW_TRIGGER_NAME: &'static str = "New Trigger";

// ── Lists ───────────────────────────────────────────────────────────────────

/// Whether a selection is one of `n` entries.
pub open spec fn is_selected(sel: i32, n: nat) -> bool {
    0 <= sel < n
}

fn selected(sel: i32, n: usize) -> (r: bool)
    ensures
        r == is_selected(sel, n as nat),
{
    sel >= 0 && (sel as u64) < n as u64
}

/// A list with two entries exchanged.
pub open spec fn exchanged<T>(s: Seq<T>, i: int, j: int) -> Seq<T> {
    s.update(i, s[j]).update(j, s[i])
}

fn exchange_with_next<T>(v: &mut Vec<T>, i: usize)
    requires
        i + 1 < old(v).len(),
    ensures
        final(v)@ == exchanged(old(v)@, i as int, i + 1),
{
    let x = v.remove(i + 1);
    v.insert(i, x);
    proof {
        assert(v@ =~= exchanged(old(v)@, i as int, i + 1));
    }
}

/// Takes the selected entry out; says whether there was one.
pub fn delete_selected<T>(v: &mut Vec<T>, sel: i32) -> (r: bool)
    ensures
        r == is_selected(sel, old(v)@.len()),
        final(v)@ == if r {
            old(v)@.remove(sel as int)
        } else {
            old(v)@
        },
{
    let n: usize = v.len();
    if !selected(sel, n) {
        return false;
    }
    v.remove(sel as usize);
    true
}

/// Exchanges the selected entry with the one above it; returns the selection
/// that follows it, or nothing where there is none above.
pub fn move_up<T>(v: &mut Vec<T>, sel: i32) -> (r: Option<usize>)
    ensures
        match r {
            Some(k) => {
                &&& 0 < sel < old(v)@.len()
                &&& k == sel - 1
                &&& final(v)@ == exchanged(old(v)@, k as int, sel as int)
            },
            None => !(0 < sel < old(v)@.len()) && final(v)@ == old(v)@,
        },
{
    let n: usize = v.len();
    if sel <= 0 || !selected(sel, n) {
        return None;
    }
    let k: usize = sel as usize - 1;
    exchange_with_next(v, k);
    Some(k)
}

/// Exchanges the selected entry with the one below it; returns the selection
/// that follows it, or nothing where there is none below.
pub fn move_down<T>(v: &mut Vec<T>, sel: i32) -> (r: Option<usize>)
    ensures
        match r {
            Some(k) => {
                &&& 0 <= sel && sel + 1 < old(v)@.len()
                &&& k == sel + 1
                &&& final(v)@ == exchanged(old(v)@, sel as int, k as int)
            },
            None => !(0 <= sel && sel + 1 < old(v)@.len()) && final(v)@ == old(v)@,
        },
{
    let n: usize = v.len();
    if !selected(sel, n) || sel as usize + 1 >= n {
        return None;
    }
    exchange_with_next(v, sel as usize);
    Some(sel as usize + 1)
}

/// Puts what an editor returned in the place of the selected entry; says whether
/// it did.
pub fn replace_selected<T>(v: &mut Vec<T>, sel: i32, edited: Option<T>) -> (r: bool)
    ensures
        r == (is_selected(sel, old(v)@.len()) && edited is Some),
        final(v)@ == if r {
            old(v)@.update(sel as int, edited->0)
        } else {
            old(v)@
        },
{
    let n: usize = v.len();
    if !selected(sel, n) {
        return false;
    }
    match edited {
        Some(x) => {
            v.set(sel as usize, x);
            true
        },
        None => false,
    }
}

/// Adds a fresh trigger, enabled and without conditions or actions; returns
/// where it stands.
pub fn add_trigger<D>(v: &mut Vec<TriggerDef<D>>) -> (r: usize)
    ensures
        r == old(v)@.len(),
        final(v)@.len() == r + 1,
        final(v)@.take(r as int) == old(v)@,
        ({
            let t = final(v)@[r as int];
            &&& t.name@ == NEW_TRIGGER_NAME@
            &&& t.enabled
            &&& t.condition_logic == ConditionLogic::All
            &&& t.conditions@.len() == 0
            &&& t.actions@.len() == 0
        }),
{
    let n: usize = v.len();
    v.push(
        TriggerDef {
            name: NEW_TRIGGER_NAME.to_owned(),
            enabled: true,
            condition_logic: ConditionLogic::All,
            conditions: Vec::new(),
            actions: Vec::new(),
        },
    );
    proof {
        assert(v@.take(n as int) =~= old(v)@);
    }
    n
}

/// Switches the selected trigger on or off; says whether there was one.
pub fn toggle_selected<D>(v: &mut Vec<TriggerDef<D>>, sel: i32) -> (r: bool)
    ensures
        r == is_selected(sel, old(v)@.len()),
        final(v)@ == if r {
            old(v)@.update(
                sel as int,
                TriggerDef { enabled: !old(v)@[sel as int].enabled, ..old(v)@[sel as int] },
            )
        } else {
            old(v)@
        },
{
    let n: usize = v.len();
    if !selected(sel, n) {
        return false;
    }
    v[sel as usize].enabled = !v[sel as usize].enabled;
    proof {
        assert(v@ =~= old(v)@.update(
            sel as int,
            TriggerDef { enabled: !old(v)@[sel as int].enabled, ..old(v)@[sel as int] },
        ));
    }
    true
}

/// Which buttons beside a list can be pressed.
#[derive(Debug, Clone, Copy, PartialEq, Eq, Structural)]
pub struct ListButtons {
    /// Edit, delete and switch on or off.
    pub on_entry: bool,
    pub up: bool,
    pub down: bool,
}

/// Which buttons beside a list can be pressed.
pub open spec fn buttons_for(sel: i32, n: nat) -> ListButtons {
    ListButtons {
        on_entry: is_selected(sel, n),
        up: is_selected(sel, n) && sel > 0,
        down: is_selected(sel, n) && sel < n - 1,
    }
}

/// Which buttons beside a list of `n` entries can be pressed.
pub fn list_buttons(sel: i32, n: usize) -> (r: ListButtons)
    ensures
        r == buttons_for(sel, n as nat),
{
    let has: bool = selected(sel, n);
    ListButtons {
        on_entry: has,
        up: has && sel > 0,
        down: has && sel as u64 + 1 < n as u64,
    }
}

/// The question before a trigger is deleted.
pub open spec fn delete_question(name: Seq<char>) -> Seq<char> {
    "Delete trigger \""@ + name + "\"?"@
}

/// The question before the selected trigger is deleted; nothing where none is
/// selected.
pub fn delete_prompt<D>(v: &Vec<TriggerDef<D>>, sel: i32) -> (r: Option<String>)
    ensures
        text::opt_view(r) == if is_selected(sel, v@.len()) {
            Some(delete_question(v@[sel as int].name@))
        } else {
            None
        },
{
    if !selected(sel, v.len()) {
        return None;
    }
    let mut out: String = "Delete trigger \"".to_owned();
    out.append(v[sel as usize].name.as_str());
    out.append("\"?");
    Some(out)
}

// ── Labels ──────────────────────────────────────────────────────────────────

/// The line of a trigger in the list.
pub open spec fn trigger_text(
    enabled: bool,
    name: Seq<char>,
    logic: ConditionLogic,
    conditions: nat,
    actions: nat,
) -> Seq<char> {
    (if enabled {
        "[✓] "@
    } else {
        "[ ] "@
    }) + name + (if logic == ConditionLogic::All {
        "  (ALL "@
    } else {
        "  (ANY "@
    }) + text::decimal(conditions) + " cond, "@ + text::decimal(actions) + " act)"@
}

/// The line of a trigger in the list.
pub fn trigger_label<D>(t: &TriggerDef<D>) -> (r: String)
    ensures
        r@ == trigger_text(
            t.enabled,
            t.name@,
            t.condition_logic,
            t.conditions@.len(),
            t.actions@.len(),
        ),
{
    let mut out: String = if t.enabled {
        "[✓] ".to_owned()
    } else {
        "[ ] ".to_owned()
    };
    out.append(t.name.as_str());
    match t.condition_logic {
        ConditionLogic::All => out.append("  (ALL "),
        ConditionLogic::Any => out.append("  (ANY "),
    }
    text::push_decimal(&mut out, t.conditions.len() as u64);
    out.append(" cond, ");
    text::push_decimal(&mut out, t.actions.len() as u64);
    out.append(" act)");
    out
}

/// The line of a condition in the list.
pub open spec fn condition_text(c: Condition) -> Seq<char> {
    match c {
        Condition::Match { match_type, pattern } => (match match_type {
            MatchType::Exact => "[match/exact]  "@,
            MatchType::Regex => "[match/regex]  "@,
            MatchType::Glob => "[match/glob]  "@,
        }) + pattern@,
        Condition::Var { var_name, op, value } => "[var]  "@ + var_name@ + (match op {
            VarOp::Isset => "  isset"@,
            VarOp::Equals => "  == "@ + value@,
            VarOp::Gt => "  > "@ + value@,
            VarOp::Gte => "  >= "@ + value@,
            VarOp::Lt => "  < "@ + value@,
            VarOp::Lte => "  <= "@ + value@,
            VarOp::Matches => "  matches "@ + value@,
        }),
    }
}

/// The line of a condition in the list.
pub fn condition_label(c: &Condition) -> (r: String)
    ensures
        r@ == condition_text(*c),
{
    match c {
        Condition::Match { match_type, pattern } => {
            let mut out: String = match match_type {
                MatchType::Exact => "[match/exact]  ".to_owned(),
                MatchType::Regex => "[match/regex]  ".to_owned(),
                MatchType::Glob => "[match/glob]  ".to_owned(),
            };
            out.append(pattern.as_str());
            out
        },
        Condition::Var { var_name, op, value } => {
            let mut out: String = "[var]  ".to_owned();
            out.append(var_name.as_str());
            let ghost head = out@;
            match op {
                VarOp::Isset => out.append("  isset"),
                VarOp::Equals => out.append("  == "),
                VarOp::Gt => out.append("  > "),
                VarOp::Gte => out.append("  >= "),
                VarOp::Lt => out.append("  < "),
                VarOp::Lte => out.append("  <= "),
                VarOp::Matches => out.append("  matches "),
            }
            match op {
                VarOp::Isset => {},
                _ => out.append(value.as_str()),
            }
            proof {
                assert(out@ =~= condition_text(*c));
            }
            out
        },
    }
}

/// What stands behind an overlay action's message: its priority, unless it is
/// the usual one, and its treatment, if it has one.
pub open spec fn tags_text(priority: VoicePriority, treatment: Treatment) -> Seq<char> {
    let p = match priority {
        VoicePriority::Emergency => "emergency"@,
        VoicePriority::Ambient => "ambient"@,
        VoicePriority::Operational => Seq::empty(),
    };
    let t = match treatment {
        Treatment::Plain => Seq::empty(),
        Treatment::Glow => "glow"@,
        Treatment::Vibrate => "vibrate"@,
        Treatment::Pulse => "pulse"@,
    };
    let has_p = priority != VoicePriority::Operational;
    let has_t = treatment != Treatment::Plain;
    if has_p && has_t {
        " ["@ + p + ", "@ + t + "]"@
    } else if has_p || has_t {
        " ["@ + p + t + "]"@
    } else {
        Seq::empty()
    }
}

/// What a delay adds to a line: the seconds, where there is a delay.
pub open spec fn delay_text(delay: Option<Seq<char>>) -> Seq<char> {
    match delay {
        Some(secs) => " +"@ + secs + "s"@,
        None => Seq::empty(),
    }
}

/// The line of an action in the list. The delay comes in words, where there is
/// one.
pub open spec fn action_text<D>(a: Action<D>, delay: Option<Seq<char>>) -> Seq<char> {
    match a {
        Action::Overlay { icon, message, treatment, priority, .. } => "[overlay/"@ + icon@ + "]"@
            + delay_text(delay) + "  "@ + message@ + tags_text(priority, treatment),
        Action::VoiceAlert { tts_text, priority } => (match priority {
            VoicePriority::Emergency => "[voice/emergency]  "@,
            VoicePriority::Operational => "[voice/operational]  "@,
            VoicePriority::Ambient => "[voice/ambient]  "@,
        }) + tts_text@,
        Action::PlaySound { sound, .. } => "[play_sound]"@ + delay_text(delay) + "  "@
            + match sound {
            Some(s) => s@,
            None => "(none)"@,
        },
        Action::StoreVar { var_name, value } => "[store_var]  "@ + var_name@ + " = "@ + value@,
    }
}

fn push_delay(out: &mut String, delay: &Option<String>)
    ensures
        final(out)@ == old(out)@ + delay_text(text::opt_view(*delay)),
{
    if let Some(secs) = delay {
        out.append(" +");
        out.append(secs.as_str());
        out.append("s");
        proof {
            assert(out@ =~= old(out)@ + delay_text(text::opt_view(*delay)));
        }
    } else {
        proof {
            assert(out@ =~= old(out)@ + delay_text(text::opt_view(*delay)));
        }
    }
}

fn push_tags(out: &mut String, priority: VoicePriority, treatment: Treatment)
    ensures
        final(out)@ == old(out)@ + tags_text(priority, treatment),
{
    let has_p: bool = priority != VoicePriority::Operational;
    let has_t: bool = treatment != Treatment::Plain;
    if has_p || has_t {
        out.append(" [");
        match priority {
            VoicePriority::Emergency => out.append("emergency"),
            VoicePriority::Ambient => out.append("ambient"),
            VoicePriority::Operational => {},
        }
        if has_p && has_t {
            out.append(", ");
        }
        match treatment {
            Treatment::Plain => {},
            Treatment::Glow => out.append("glow"),
            Treatment::Vibrate => out.append("vibrate"),
            Treatment::Pulse => out.append("pulse"),
        }
        out.append("]");
    }
    proof {
        assert(out@ =~= old(out)@ + tags_text(priority, treatment));
    }
}

/// The line of an action in the list. The delay comes in words, where there is
/// one.
pub fn action_label<D>(a: &Action<D>, delay: &Option<String>) -> (r: String)
    ensures
        r@ == action_text(*a, text::opt_view(*delay)),
{
    match a {
        Action::Overlay { icon, message, treatment, priority, .. } => {
            let mut out: String = "[overlay/".to_owned();
            out.append(icon.as_str());
            out.append("]");
            push_delay(&mut out, delay);
            out.append("  ");
            out.append(message.as_str());
            push_tags(&mut out, *priority, *treatment);
            out
        },
        Action::VoiceAlert { tts_text, priority } => {
            let mut out: String = match priority {
                VoicePriority::Emergency => "[voice/emergency]  ".to_owned(),
                VoicePriority::Operational => "[voice/operational]  ".to_owned(),
                VoicePriority::Ambient => "[voice/ambient]  ".to_owned(),
            };
            out.append(tts_text.as_str());
            out
        },
        Action::PlaySound { sound, .. } => {
            let mut out: String = "[play_sound]".to_owned();
            push_delay(&mut out, delay);
            out.append("  ");
            match sound {
                Some(s) => out.append(s.as_str()),
                None => out.append("(none)"),
            }
            out
        },
        Action::StoreVar { var_name, value } => {
            let mut out: String = "[store_var]  ".to_owned();
            out.append(var_name.as_str());
            out.append(" = ");
            out.append(value.as_str());
            out
        },
    }
}

// ── Positions in drop-down lists ────────────────────────────────────────────

impl ConditionLogic {
    pub open spec fn spec_index(self) -> usize {
        match self {
            ConditionLogic::All => 0,
            ConditionLogic::Any => 1,
        }
    }

    pub open spec fn at(i: usize) -> ConditionLogic {
        if i == 0 {
            ConditionLogic::All
        } else {
            ConditionLogic::Any
        }
    }

    /// Where the value stands in its list.
    pub fn index(&self) -> (r: usize)
        ensures
            r == self.spec_index(),
    {
        match self {
            ConditionLogic::All => 0,
            ConditionLogic::Any => 1,
        }
    }

    /// The value at a position.
    pub fn of_index(i: usize) -> (r: Self)
        ensures
            r == ConditionLogic::at(i),
    {
        if i == 0 {
            ConditionLogic::All
        } else {
            ConditionLogic::Any
        }
    }
}

impl MatchType {
    pub open spec fn spec_index(self) -> usize {
        match self {
            MatchType::Exact => 0,
            MatchType::Regex => 1,
            MatchType::Glob => 2,
        }
    }

    pub open spec fn at(i: usize) -> MatchType {
        if i == 0 {
            MatchType::Exact
        } else if i == 1 {
            MatchType::Regex
        } else {
            MatchType::Glob
        }
    }

    /// Where the value stands in its list.
    pub fn index(&self) -> (r: usize)
        ensures
            r == self.spec_index(),
    {
        match self {
            MatchType::Exact => 0,
            MatchType::Regex => 1,
            MatchType::Glob => 2,
        }
    }

    /// The value at a position; the last where there is none.
    pub fn of_index(i: usize) -> (r: Self)
        ensures
            r == MatchType::at(i),
    {
        if i == 0 {
            MatchType::Exact
        } else if i == 1 {
            MatchType::Regex
        } else {
            MatchType::Glob
        }
    }
}

impl VarOp {
    pub open spec fn spec_index(self) -> usize {
        match self {
            VarOp::Isset => 0,
            VarOp::Equals => 1,
            VarOp::Gt => 2,
            VarOp::Gte => 3,
            VarOp::Lt => 4,
            VarOp::Lte => 5,
            VarOp::Matches => 6,
        }
    }

    pub open spec fn at(i: usize) -> VarOp {
        if i == 0 {
            VarOp::Isset
        } else if i == 1 {
            VarOp::Equals
        } else if i == 2 {
            VarOp::Gt
        } else if i == 3 {
            VarOp::Gte
        } else if i == 4 {
            VarOp::Lt
        } else if i == 5 {
            VarOp::Lte
        } else {
            VarOp::Matches
        }
    }

    /// Where the value stands in its list.
    pub fn index(&self) -> (r: usize)
        ensures
            r == self.spec_index(),
    {
        match self {
            VarOp::Isset => 0,
            VarOp::Equals => 1,
            VarOp::Gt => 2,
            VarOp::Gte => 3,
            VarOp::Lt => 4,
            VarOp::Lte => 5,
            VarOp::Matches => 6,
        }
    }

    /// The value at a position; the last where there is none.
    pub fn of_index(i: usize) -> (r: Self)
        ensures
            r == VarOp::at(i),
    {
        if i == 0 {
            VarOp::Isset
        } else if i == 1 {
            VarOp::Equals
        } else if i == 2 {
            VarOp::Gt
        } else if i == 3 {
            VarOp::Gte
        } else if i == 4 {
            VarOp::Lt
        } else if i == 5 {
            VarOp::Lte
        } else {
            VarOp::Matches
        }
    }
}

impl Treatment {
    pub open spec fn spec_index(self) -> usize {
        match self {
            Treatment::Plain => 0,
            Treatment::Glow => 1,
            Treatment::Vibrate => 2,
            Treatment::Pulse => 3,
        }
    }

    pub open spec fn at(i: usize) -> Treatment {
        if i == 1 {
            Treatment::Glow
        } else if i == 2 {
            Treatment::Vibrate
        } else if i == 3 {
            Treatment::Pulse
        } else {
            Treatment::Plain
        }
    }

    /// Where the value stands in its list.
    pub fn index(&self) -> (r: usize)
        ensures
            r == self.spec_index(),
    {
        match self {
            Treatment::Plain => 0,
            Treatment::Glow => 1,
            Treatment::Vibrate => 2,
            Treatment::Pulse => 3,
        }
    }

    /// The value at a position; the first where there is none.
    pub fn of_index(i: usize) -> (r: Self)
        ensures
            r == Treatment::at(i),
    {
        if i == 1 {
            Treatment::Glow
        } else if i == 2 {
            Treatment::Vibrate
        } else if i == 3 {
            Treatment::Pulse
        } else {
            Treatment::Plain
        }
    }
}

impl VoicePriority {
    pub open spec fn spec_index(self) -> usize {
        match self {
            VoicePriority::Emergency => 0,
            VoicePriority::Operational => 1,
            VoicePriority::Ambient => 2,
        }
    }

    pub open spec fn at(i: usize) -> VoicePriority {
        if i == 0 {
            VoicePriority::Emergency
        } else if i == 2 {
            VoicePriority::Ambient
        } else {
            VoicePriority::Operational
        }
    }

    /// Where the value stands in its list.
    pub fn index(&self) -> (r: usize)
        ensures
            r == self.spec_index(),
    {
        match self {
            VoicePriority::Emergency => 0,
            VoicePriority::Operational => 1,
            VoicePriority::Ambient => 2,
        }
    }

    /// The value at a position; the usual one where there is none.
    pub fn of_index(i: usize) -> (r: Self)
        ensures
            r == VoicePriority::at(i),
    {
        if i == 0 {
            VoicePriority::Emergency
        } else if i == 2 {
            VoicePriority::Ambient
        } else {
            VoicePriority::Operational
        }
    }

    /// The value that radio buttons show.
    pub fn of_radio(emergency: bool, ambient: bool) -> (r: Self)
        ensures
            r == if emergency {
                VoicePriority::Emergency
            } else if ambient {
                VoicePriority::Ambient
            } else {
                VoicePriority::Operational
            },
    {
        if emergency {
            VoicePriority::Emergency
        } else if ambient {
            VoicePriority::Ambient
        } else {
            VoicePriority::Operational
        }
    }
}

/// Where an action's kind stands in its list.
pub open spec fn kind_index<D>(a: Action<D>) -> usize {
    match a {
        Action::Overlay { .. } => 0,
        Action::StoreVar { .. } => 1,
        Action::VoiceAlert { .. } => 2,
        Action::PlaySound { .. } => 3,
    }
}

/// Where an action's kind stands in its list.
pub fn action_kind<D>(a: &Action<D>) -> (r: usize)
    ensures
        r == kind_index(*a),
{
    match a {
        Action::Overlay { .. } => 0,
        Action::StoreVar { .. } => 1,
        Action::VoiceAlert { .. } => 2,
        Action::PlaySound { .. } => 3,
    }
}

// ── What the lists of the editors offer ─────────────────────────────────────

/// Whether all conditions have to hold, in the order of the list.
pub const LOGIC_NAMES: [&'static str; 2] = ["ALL (AND)", "ANY (OR)"];

/// The kinds of a condition.
pub const CONDITION_KINDS: [&'static str; 2] = ["Match (log line)", "Variable"];

/// How a pattern matches, in the order of the list.
pub const MATCH_NAMES: [&'static str; 3] = ["Exact (substring)", "Regex", "Glob  (* ? {name})"];

/// How a variable is compared, in the order of the list.
pub const OP_NAMES: [&'static str; 7] = [
    "isset",
    "equals",
    "gt (>)",
    "gte (≥)",
    "lt (<)",
    "lte (≤)",
    "matches",
];

/// The kinds of an action.
pub const ACTION_KINDS: [&'static str; 4] = [
    "Overlay message",
    "Store variable",
    "Voice Alert (TTS)",
    "Play Sound",
];

/// How an alert's text moves, in the order of the list.
pub const TREATMENT_NAMES: [&'static str; 4] = ["None", "Glow", "Vibrate", "Pulse"];

/// How urgent an alert is, in the order of the list.
pub const PRIORITY_NAMES: [&'static str; 3] = [
    "Emergency (interrupts)",
    "Operational (queues)",
    "Ambient (may drop)",
];

/// Every choice has its name in the list.
pub proof fn choices_have_names<D>(
    l: ConditionLogic,
    m: MatchType,
    o: VarOp,
    t: Treatment,
    p: VoicePriority,
    a: Action<D>,
)
    ensures
        l.spec_index() < LOGIC_NAMES@.len(),
        m.spec_index() < MATCH_NAMES@.len(),
        o.spec_index() < OP_NAMES@.len(),
        t.spec_index() < TREATMENT_NAMES@.len(),
        p.spec_index() < PRIORITY_NAMES@.len(),
        kind_index(a) < ACTION_KINDS@.len(),
{
}

// ── What the editors return ─────────────────────────────────────────────────

/// What the condition editor's controls hold.
pub struct ConditionInput {
    pub kind: usize,
    pub match_type: usize,
    pub pattern: String,
    pub var_name: String,
    pub op: usize,
    pub value: String,
}

/// The condition that the editor's controls describe.
pub fn edited_condition(i: ConditionInput) -> (r: Condition)
    ensures
        r == if i.kind == 0 {
            Condition::Match { match_type: MatchType::at(i.match_type), pattern: i.pattern }
        } else {
            Condition::Var { var_name: i.var_name, op: VarOp::at(i.op), value: i.value }
        },
{
    if i.kind == 0 {
        Condition::Match { match_type: MatchType::of_index(i.match_type), pattern: i.pattern }
    } else {
        Condition::Var { var_name: i.var_name, op: VarOp::of_index(i.op), value: i.value }
    }
}

/// What the condition editor's controls show of a condition at first.
pub open spec fn shows_condition(c: Condition, i: ConditionInput) -> bool {
    match c {
        Condition::Match { match_type, pattern } => {
            &&& i.kind == 0
            &&& i.match_type == match_type.spec_index()
            &&& i.pattern@ == pattern@
            &&& i.var_name@.len() == 0
            &&& i.op == 0
            &&& i.value@.len() == 0
        },
        Condition::Var { var_name, op, value } => {
            &&& i.kind == 1
            &&& i.match_type == 1
            &&& i.pattern@.len() == 0
            &&& i.var_name@ == var_name@
            &&& i.op == op.spec_index()
            &&& i.value@ == value@
        },
    }
}

/// What the condition editor's controls show of a condition at first.
pub fn condition_input(c: &Condition) -> (r: ConditionInput)
    ensures
        shows_condition(*c, r),
{
    match c {
        Condition::Match { match_type, pattern } => ConditionInput {
            kind: 0,
            match_type: match_type.index(),
            pattern: pattern.clone(),
            var_name: String::new(),
            op: 0,
            value: String::new(),
        },
        Condition::Var { var_name, op, value } => ConditionInput {
            kind: 1,
            match_type: 1,
            pattern: String::new(),
            var_name: var_name.clone(),
            op: op.index(),
            value: value.clone(),
        },
    }
}

/// What the action editor's controls hold.
pub struct ActionInput<D> {
    pub kind: usize,
    /// The icon that is chosen, by its key.
    pub icon: String,
    pub icon_color: String,
    pub message: String,
    pub message_color: String,
    pub border_color: String,
    pub delay: D,
    pub treatment: usize,
    pub overlay_priority: usize,
    pub sound: Option<String>,
    pub tts_text: String,
    pub emergency: bool,
    pub ambient: bool,
    pub var_name: String,
    pub value: String,
}

/// The icon whose colour can be chosen.
pub const COLOR_BOX: &'static str = "colorbox";

/// Whether `a` is the action that the editor's controls describe. Only the
/// colour box has a colour.
pub open spec fn is_edited_action<D>(i: ActionInput<D>, a: Action<D>) -> bool {
    if i.kind == 0 {
        a matches Action::Overlay {
            icon,
            color,
            message,
            message_color,
            border_color,
            delay,
            treatment,
            priority,
        } && {
            &&& icon@ == i.icon@
            &&& color@ == if i.icon@ == COLOR_BOX@ {
                i.icon_color@
            } else {
                Seq::empty()
            }
            &&& message@ == i.message@
            &&& message_color@ == i.message_color@
            &&& border_color@ == i.border_color@
            &&& delay == i.delay
            &&& treatment == Treatment::at(i.treatment)
            &&& priority == VoicePriority::at(i.overlay_priority)
        }
    } else if i.kind == 3 {
        a == (Action::PlaySound { sound: i.sound, delay: i.delay })
    } else if i.kind == 2 {
        a matches Action::VoiceAlert { tts_text, priority } && {
            &&& tts_text@ == i.tts_text@
            &&& priority == if i.emergency {
                VoicePriority::Emergency
            } else if i.ambient {
                VoicePriority::Ambient
            } else {
                VoicePriority::Operational
            }
        }
    } else {
        a == (Action::<D>::StoreVar { var_name: i.var_name, value: i.value })
    }
}

/// The action that the editor's controls describe.
pub fn edited_action<D>(i: ActionInput<D>) -> (r: Action<D>)
    ensures
        is_edited_action(i, r),
{
    if i.kind == 0 {
        let color: String = if text::same(i.icon.as_str(), COLOR_BOX) {
            i.icon_color
        } else {
            String::new()
        };
        proof {
            assert(i.icon@ != COLOR_BOX@ ==> color@ =~= Seq::<char>::empty());
        }
        Action::Overlay {
            icon: i.icon,
            color,
            message: i.message,
            message_color: i.message_color,
            border_color: i.border_color,
            delay: i.delay,
            treatment: Treatment::of_index(i.treatment),
            priority: VoicePriority::of_index(i.overlay_priority),
        }
    } else if i.kind == 3 {
        Action::PlaySound { sound: i.sound, delay: i.delay }
    } else if i.kind == 2 {
        Action::VoiceAlert {
            tts_text: i.tts_text,
            priority: VoicePriority::of_radio(i.emergency, i.ambient),
        }
    } else {
        Action::StoreVar { var_name: i.var_name, value: i.value }
    }
}

/// What the action editor's controls show of an action at first.
pub struct ShownAction {
    pub kind: usize,
    pub icon: String,
    pub icon_color: String,
    pub message: String,
    pub message_color: String,
    pub border_color: String,
    pub treatment: usize,
    pub overlay_priority: usize,
    pub sound: Option<String>,
    pub tts_text: String,
    pub voice_priority: VoicePriority,
    pub var_name: String,
    pub value: String,
}

/// Whether the action editor's controls show an action: the fields of its kind
/// show it, the others are empty or stand at the usual choice.
pub open spec fn shows_action<D>(a: Action<D>, s: ShownAction) -> bool {
    &&& s.kind == kind_index(a)
    &&& a matches Action::Overlay {
        icon,
        color,
        message,
        message_color,
        border_color,
        delay,
        treatment,
        priority,
    } ==> {
        &&& s.icon@ == icon@
        &&& s.icon_color@ == color@
        &&& s.message@ == message@
        &&& s.message_color@ == message_color@
        &&& s.border_color@ == border_color@
        &&& s.treatment == treatment.spec_index()
        &&& s.overlay_priority == priority.spec_index()
    }
    &&& !(a is Overlay) ==> {
        &&& s.icon@.len() == 0
        &&& s.icon_color@.len() == 0
        &&& s.message@.len() == 0
        &&& s.message_color@.len() == 0
        &&& s.border_color@.len() == 0
        &&& s.treatment == 0
        &&& s.overlay_priority == 1
    }
    &&& text::opt_view(s.sound) == match a {
        Action::PlaySound { sound, .. } => text::opt_view(sound),
        _ => None,
    }
    &&& match a {
        Action::VoiceAlert { tts_text, priority } => s.tts_text@ == tts_text@ && s.voice_priority
            == priority,
        _ => s.tts_text@.len() == 0 && s.voice_priority == VoicePriority::Operational,
    }
    &&& match a {
        Action::StoreVar { var_name, value } => s.var_name@ == var_name@ && s.value@ == value@,
        _ => s.var_name@.len() == 0 && s.value@.len() == 0,
    }
}

fn nothing_shown(kind: usize) -> (r: ShownAction)
    ensures
        r.kind == kind,
        r.icon@.len() == 0,
        r.icon_color@.len() == 0,
        r.message@.len() == 0,
        r.message_color@.len() == 0,
        r.border_color@.len() == 0,
        r.treatment == 0,
        r.overlay_priority == 1,
        r.sound is None,
        r.tts_text@.len() == 0,
        r.voice_priority == VoicePriority::Operational,
        r.var_name@.len() == 0,
        r.value@.len() == 0,
{
    ShownAction {
        kind,
        icon: String::new(),
        icon_color: String::new(),
        message: String::new(),
        message_color: String::new(),
        border_color: String::new(),
        treatment: 0,
        overlay_priority: 1,
        sound: None,
        tts_text: String::new(),
        voice_priority: VoicePriority::Operational,
        var_name: String::new(),
        value: String::new(),
    }
}

/// What the action editor's controls show of an action at first.
pub fn shown_action<D>(a: &Action<D>) -> (r: ShownAction)
    ensures
        shows_action(*a, r),
{
    let mut s = nothing_shown(action_kind(a));
    match a {
        Action::Overlay {
            icon,
            color,
            message,
            message_color,
            border_color,
            treatment,
            priority,
            ..
        } => {
            s.icon = icon.clone();
            s.icon_color = color.clone();
            s.message = message.clone();
            s.message_color = message_color.clone();
            s.border_color = border_color.clone();
            s.treatment = treatment.index();
            s.overlay_priority = priority.index();
        },
        Action::VoiceAlert { tts_text, priority } => {
            s.tts_text = tts_text.clone();
            s.voice_priority = *priority;
        },
        Action::PlaySound { sound, .. } => {
            s.sound = text::copy_opt(sound);
        },
        Action::StoreVar { var_name, value } => {
            s.var_name = var_name.clone();
            s.value = value.clone();
        },
    }
    s
}

/// The trigger that the editor's controls describe.
pub fn edited_trigger<D>(
    name: String,
    enabled: bool,
    logic: usize,
    conditions: Vec<Condition>,
    actions: Vec<Action<D>>,
) -> (r: TriggerDef<D>)
    ensures
        r == (TriggerDef {
            name,
            enabled,
            condition_logic: ConditionLogic::at(logic),
            conditions,
            actions,
        }),
{
    TriggerDef {
        name,
        enabled,
        condition_logic: ConditionLogic::of_index(logic),
        conditions,
        actions,
    }
}

/// A condition as it is added: a regular expression without a pattern.
pub fn blank_condition() -> (r: Condition)
    ensures
        r matches Condition::Match { match_type, pattern } && match_type == MatchType::Regex
            && pattern@.len() == 0,
{
    Condition::Match { match_type: MatchType::Regex, pattern: String::new() }
}

/// An action as it is added: an empty message, at once.
pub fn blank_action<D>(no_delay: D) -> (r: Action<D>)
    ensures
        r matches Action::Overlay {
            icon,
            color,
            message,
            message_color,
            border_color,
            delay,
            treatment,
            priority,
        } && {
            &&& icon@.len() == 0
            &&& color@.len() == 0
            &&& message@.len() == 0
            &&& message_color@.len() == 0
            &&& border_color@.len() == 0
            &&& delay == no_delay
            &&& treatment == Treatment::Plain
            &&& priority == VoicePriority::Operational
        },
{
    Action::Overlay {
        icon: String::new(),
        color: String::new(),
        message: String::new(),
        message_color: String::new(),
        border_color: String::new(),
        delay: no_delay,
        treatment: Treatment::Plain,
        priority: VoicePriority::Operational,
    }
}

/// Which groups of the action editor's controls are shown.
#[derive(Debug, Clone, Copy, PartialEq, Eq, Structural)]
pub struct ActionGroups {
    pub overlay: bool,
    pub var: bool,
    pub tts: bool,
    pub sound: bool,
    pub delay: bool,
    /// The button that plays the sound.
    pub sound_test: bool,
    /// The square that shows the icon's colour.
    pub icon_color: bool,
}

/// Which groups of the action editor's controls are shown, by the kind of the
/// action, whether a sound is chosen, and the icon's key.
pub fn action_groups(kind: usize, has_sound: bool, icon: &str) -> (r: ActionGroups)
    ensures
        r == (ActionGroups {
            overlay: kind == 0,
            var: kind == 1,
            tts: kind == 2,
            sound: kind == 3,
            delay: kind == 0 || kind == 3,
            sound_test: kind == 3 && has_sound,
            icon_color: icon@ == COLOR_BOX@,
        }),
{
    ActionGroups {
        overlay: kind == 0,
        var: kind == 1,
        tts: kind == 2,
        sound: kind == 3,
        delay: kind == 0 || kind == 3,
        sound_test: kind == 3 && has_sound,
        icon_color: text::same(icon, COLOR_BOX),
    }
}

// ── Laws ────────────────────────────────────────────────────────────────────

/// Moving an entry up and then down again, or down and then up, leaves the list
/// as it was.
pub proof fn moves_undo_each_other<T>(s: Seq<T>, i: int)
    requires
        0 <= i,
        i + 1 < s.len(),
    ensures
        exchanged(exchanged(s, i, i + 1), i, i + 1) == s,
{
    assert(exchanged(exchanged(s, i, i + 1), i, i + 1) =~= s);
}

/// Moving an entry keeps every entry.
pub proof fn moves_keep_entries<T>(s: Seq<T>, i: int)
    requires
        0 <= i,
        i + 1 < s.len(),
    ensures
        exchanged(s, i, i + 1).to_multiset() == s.to_multiset(),
{
    broadcast use vstd::seq_lib::group_to_multiset_ensures;

    let x = s[i];
    let y = s[i + 1];
    let t = s.remove(i + 1);
    assert(exchanged(s, i, i + 1) =~= t.insert(i, y));
    assert(s =~= t.insert(i + 1, y));
    assert(t.insert(i, y).to_multiset() =~= t.to_multiset().insert(y));
    assert(t.insert(i + 1, y).to_multiset() =~= t.to_multiset().insert(y));
}

/// A button can be pressed exactly where its command changes the list.
pub proof fn buttons_match_their_commands(sel: i32, n: nat)
    ensures
        buttons_for(sel, n).on_entry == is_selected(sel, n),
        buttons_for(sel, n).up == (0 < sel < n),
        buttons_for(sel, n).down == (0 <= sel && sel + 1 < n),
{
}

/// Each drop-down list gives back the value that it showed.
pub proof fn lists_give_back_what_they_showed(
    logic: ConditionLogic,
    m: MatchType,
    op: VarOp,
    t: Treatment,
    p: VoicePriority,
)
    ensures
        ConditionLogic::at(logic.spec_index()) == logic,
        MatchType::at(m.spec_index()) == m,
        VarOp::at(op.spec_index()) == op,
        Treatment::at(t.spec_index()) == t,
        VoicePriority::at(p.spec_index()) == p,
{
}

/// Whether two conditions say the same.
pub open spec fn same_condition(a: Condition, b: Condition) -> bool {
    match (a, b) {
        (
            Condition::Match { match_type: m, pattern: p },
            Condition::Match { match_type: n, pattern: q },
        ) => m == n && p@ == q@,
        (
            Condition::Var { var_name: v, op: o, value: x },
            Condition::Var { var_name: w, op: p, value: y },
        ) => v@ == w@ && o == p && x@ == y@,
        _ => false,
    }
}

/// A condition whose editor is closed without a change stays the same.
pub proof fn untouched_conditions_stay(c: Condition, i: ConditionInput, r: Condition)
    requires
        shows_condition(c, i),
        r == if i.kind == 0 {
            Condition::Match { match_type: MatchType::at(i.match_type), pattern: i.pattern }
        } else {
            Condition::Var { var_name: i.var_name, op: VarOp::at(i.op), value: i.value }
        },
    ensures
        same_condition(r, c),
{
}

/// Whether two actions do the same.
pub open spec fn same_action<D>(a: Action<D>, b: Action<D>) -> bool {
    match a {
        Action::Overlay {
            icon,
            color,
            message,
            message_color,
            border_color,
            delay,
            treatment,
            priority,
        } => b matches Action::Overlay {
            icon: icon2,
            color: color2,
            message: message2,
            message_color: message_color2,
            border_color: border_color2,
            delay: delay2,
            treatment: treatment2,
            priority: priority2,
        } && {
            &&& icon@ == icon2@
            &&& color@ == color2@
            &&& message@ == message2@
            &&& message_color@ == message_color2@
            &&& border_color@ == border_color2@
            &&& delay == delay2
            &&& treatment == treatment2
            &&& priority == priority2
        },
        Action::PlaySound { sound, delay } => b matches Action::PlaySound {
            sound: sound2,
            delay: delay2,
        } && text::opt_view(sound) == text::opt_view(sound2) && delay == delay2,
        Action::VoiceAlert { tts_text, priority } => b matches Action::VoiceAlert {
            tts_text: text2,
            priority: priority2,
        } && tts_text@ == text2@ && priority == priority2,
        Action::StoreVar { var_name, value } => b matches Action::StoreVar {
            var_name: name2,
            value: value2,
        } && var_name@ == name2@ && value@ == value2@,
    }
}

/// Whether the editor's controls hold what they showed.
pub open spec fn is_untouched<D>(s: ShownAction, i: ActionInput<D>) -> bool {
    &&& i.kind == s.kind
    &&& i.icon@ == s.icon@
    &&& i.icon_color@ == s.icon_color@
    &&& i.message@ == s.message@
    &&& i.message_color@ == s.message_color@
    &&& i.border_color@ == s.border_color@
    &&& i.treatment == s.treatment
    &&& i.overlay_priority == s.overlay_priority
    &&& text::opt_view(i.sound) == text::opt_view(s.sound)
    &&& i.tts_text@ == s.tts_text@
    &&& i.emergency == (s.voice_priority == VoicePriority::Emergency)
    &&& i.ambient == (s.voice_priority == VoicePriority::Ambient)
    &&& i.var_name@ == s.var_name@
    &&& i.value@ == s.value@
}

/// An action whose editor is closed without a change stays the same, unless it
/// has a colour without the colour box: that colour goes.
pub proof fn untouched_actions_stay<D>(
    a: Action<D>,
    s: ShownAction,
    i: ActionInput<D>,
    r: Action<D>,
)
    requires
        shows_action(a, s),
        is_untouched(s, i),
        a matches Action::Overlay { delay, .. } ==> i.delay == delay,
        a matches Action::PlaySound { delay, .. } ==> i.delay == delay,
        is_edited_action(i, r),
        a matches Action::Overlay { icon, color, .. } ==> icon@ == COLOR_BOX@ || color@.len() == 0,
    ensures
        same_action(a, r),
{
    if let Action::Overlay { icon, color, .. } = a {
        if icon@ != COLOR_BOX@ {
            assert(color@ =~= Seq::<char>::empty());
        }
    }
}

/// The line of a trigger shows a check just where the trigger is enabled, then its
/// name whole, and then whether all of its conditions count or any.
pub proof fn trigger_lines_show_name_and_logic(
    enabled: bool,
    name: Seq<char>,
    logic: ConditionLogic,
    conditions: nat,
    actions: nat,
)
    ensures
        ({
            let s = trigger_text(enabled, name, logic, conditions, actions);
            let n = name.len() as int;
            &&& s.len() > n + 11
            &&& s[1] == '✓' <==> enabled
            &&& s.subrange(4, 4 + n) == name
            &&& s[n + 8] == 'L' <==> logic == ConditionLogic::All
            &&& s.subrange(n + 11, n + 11 + text::decimal(conditions).len()) == text::decimal(
                conditions,
            )
            &&& s.subrange(
                n + 18 + text::decimal(conditions).len(),
                n + 18 + text::decimal(conditions).len() + text::decimal(actions).len(),
            ) == text::decimal(actions)
        }),
{
    reveal_strlit("[✓] ");
    reveal_strlit("[ ] ");
    reveal_strlit("  (ALL ");
    reveal_strlit("  (ANY ");
    reveal_strlit(" cond, ");
    reveal_strlit(" act)");
    let s = trigger_text(enabled, name, logic, conditions, actions);
    let n = name.len() as int;
    let c = text::decimal(conditions);
    let a = text::decimal(actions);
    assert(s.subrange(4, 4 + n) =~= name);
    assert(s.subrange(n + 11, n + 11 + c.len()) =~= c);
    assert(s.subrange(n + 18 + c.len(), n + 18 + c.len() + a.len()) =~= a);
}

/// The line of a condition ends with what is compared; that of a variable shows
/// the variable's name and then how it is compared.
pub proof fn condition_lines_show_what_is_compared(c: Condition)
    ensures
        c matches Condition::Match { pattern, .. } ==> condition_text(c).skip(
            condition_text(c).len() - pattern@.len(),
        ) == pattern@,
        c matches Condition::Var { var_name, op, value } ==> ({
            let s = condition_text(c);
            let n = 7 + var_name@.len() as int;
            &&& s.subrange(7, n) == var_name@
            &&& op != VarOp::Isset ==> s.skip(s.len() - value@.len()) == value@
            &&& s[n + 2] == (match op {
                VarOp::Isset => 'i',
                VarOp::Equals => '=',
                VarOp::Gt => '>',
                VarOp::Gte => '>',
                VarOp::Lt => '<',
                VarOp::Lte => '<',
                VarOp::Matches => 'm',
            })
            &&& (op == VarOp::Gte || op == VarOp::Lte) ==> s[n + 3] == '='
            &&& (op == VarOp::Gt || op == VarOp::Lt) ==> s[n + 3] == ' '
        }),
{
    match c {
        Condition::Match { match_type, pattern } => {
            let s = condition_text(c);
            assert(s.skip(s.len() - pattern@.len()) =~= pattern@);
        },
        Condition::Var { var_name, op, value } => {
            reveal_strlit("[var]  ");
            reveal_strlit("  isset");
            reveal_strlit("  == ");
            reveal_strlit("  > ");
            reveal_strlit("  >= ");
            reveal_strlit("  < ");
            reveal_strlit("  <= ");
            reveal_strlit("  matches ");
            let s = condition_text(c);
            let n = 7 + var_name@.len() as int;
            assert(s.subrange(7, n) =~= var_name@);
            if op != VarOp::Isset {
                assert(s.skip(s.len() - value@.len()) =~= value@);
            }
        },
    }
}

/// Moving an entry changes places with its neighbour and with nobody else.
pub proof fn moves_change_two_places<T>(s: Seq<T>, i: int, j: int, k: int)
    requires
        0 <= i < s.len(),
        0 <= j < s.len(),
        0 <= k < s.len(),
    ensures
        exchanged(s, i, j).len() == s.len(),
        exchanged(s, i, j)[i] == s[j],
        exchanged(s, i, j)[j] == s[i],
        k != i && k != j ==> exchanged(s, i, j)[k] == s[k],
{
}

/// The line of an action ends with what it says, plays or stores; that of a
/// variable shows the name before the value.
pub proof fn action_lines_show_what_is_done<D>(a: Action<D>, delay: Option<Seq<char>>)
    ensures
        a matches Action::VoiceAlert { tts_text, .. } ==> action_text(a, delay).skip(
            action_text(a, delay).len() - tts_text@.len(),
        ) == tts_text@,
        a matches Action::PlaySound { sound: Some(s), .. } ==> action_text(a, delay).skip(
            action_text(a, delay).len() - s@.len(),
        ) == s@,
        a matches Action::StoreVar { var_name, value } ==> action_text(a, delay).skip(
            action_text(a, delay).len() - value@.len(),
        ) == value@ && action_text(a, delay).subrange(13, 13 + var_name@.len() as int) == var_name@,
        a matches Action::Overlay { icon, message, treatment, priority, .. } ==> ({
            let s = action_text(a, delay);
            let tail = tags_text(priority, treatment);
            let end = s.len() - tail.len();
            &&& s.subrange(9, 9 + icon@.len() as int) == icon@
            &&& s.subrange(end - message@.len(), end) == message@
            &&& tail.len() == 0 <==> priority == VoicePriority::Operational && treatment
                == Treatment::Plain
        }),
{
    let s = action_text(a, delay);
    match a {
        Action::VoiceAlert { tts_text, .. } => {
            assert(s.skip(s.len() - tts_text@.len()) =~= tts_text@);
        },
        Action::PlaySound { sound, .. } => {
            if sound is Some {
                let w = sound->0@;
                assert(s.skip(s.len() - w.len()) =~= w);
            }
        },
        Action::StoreVar { var_name, value } => {
            reveal_strlit("[store_var]  ");
            assert(s.skip(s.len() - value@.len()) =~= value@);
            assert(s.subrange(13, 13 + var_name@.len() as int) =~= var_name@);
        },
        Action::Overlay { icon, message, treatment, priority, .. } => {
            reveal_strlit("[overlay/");
            reveal_strlit(" [");
            let tail = tags_text(priority, treatment);
            let end = s.len() - tail.len();
            assert(s.subrange(9, 9 + icon@.len() as int) =~= icon@);
            assert(s.subrange(end - message@.len(), end) =~= message@);
        },
    }
}

} // verus!
