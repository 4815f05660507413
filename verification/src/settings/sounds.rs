//! Sound labels and sound packages in the settings window.
use vstd::prelude::*;

use crate::overlay::alert;
use crate::overlay::alert::DEFAULT_PACKAGE;
use crate::text;

verus! {

/// A label of a package and the file that it stands for.
pub struct SoundLabel {
    pub name: String,
    pub file: String,
}

/// What parts a label's name from its file in the list.
pub const LABEL_GAP: &'static str = "  —  ";

/// The line of a label in the list.
pub open spec fn label_text(name: Seq<char>, file: Seq<char>) -> Seq<char> {
    name + LABEL_GAP@ + file
}

/// The line of a label in the list.
pub fn label_line(l: &SoundLabel) -> (r: String)
    ensures
        r@ == label_text(l.name@, l.file@),
{
    let mut out: String = l.name.clone();
    out.append(LABEL_GAP);
    out.append(l.file.as_str());
    out
}

/// The lines of labels.
pub open spec fn label_lines(v: Seq<SoundLabel>) -> Seq<Seq<char>> {
    v.map_values(|l: SoundLabel| label_text(l.name@, l.file@))
}

/// Where a label is put into a list in order: behind all whose names do not
/// follow its own.
pub open spec fn label_place(v: Seq<SoundLabel>, name: Seq<char>) -> nat
    decreases v.len(),
{
    if v.len() == 0 || !text::not_after(v[0].name@, name) {
        0
    } else {
        1 + label_place(v.skip(1), name)
    }
}

/// Labels in the order of their names.
pub open spec fn labels_sorted(v: Seq<SoundLabel>) -> Seq<SoundLabel>
    decreases v.len(),
{
    if v.len() == 0 {
        v
    } else {
        let t = labels_sorted(v.drop_last());
        t.insert(label_place(t, v.last().name@) as int, v.last())
    }
}

/// The lines of a package's labels, in the order of their names.
pub fn label_list(labels: Vec<SoundLabel>) -> (r: Vec<String>)
    ensures
        text::views(r@) == label_lines(labels_sorted(labels@)),
{
    let ghost all = labels@;
    let mut sorted: Vec<SoundLabel> = Vec::new();
    proof {
        assert(all.take(0) =~= Seq::<SoundLabel>::empty());
    }
    for l in it: labels
        invariant
            it.seq() == all,
            sorted@ == labels_sorted(all.take(it.index() as int)),
    {
        let ghost k = it.index() as int;
        let ghost before = sorted@;
        let n: usize = sorted.len();
        let mut p: usize = 0;
        proof {
            assert(l == all[k]);
            assert(all.take(k + 1).drop_last() =~= all.take(k));
            assert(all.take(k + 1).last() == l);
            assert(before.skip(0) =~= before);
        }
        while p < n && text::sorts_before(sorted[p].name.as_str(), l.name.as_str())
            invariant
                n == sorted@.len(),
                before == sorted@,
                p <= n,
                p + label_place(before.skip(p as int), l.name@) == label_place(before, l.name@),
            decreases n - p,
        {
            proof {
                assert(before.skip(p as int)[0] == before[p as int]);
                assert(before.skip(p as int).skip(1) =~= before.skip(p + 1));
            }
            p += 1;
        }
        proof {
            if p < n {
                assert(before.skip(p as int)[0] == before[p as int]);
            }
            assert(label_place(before.skip(p as int), l.name@) == 0);
        }
        sorted.insert(p, l);
    }
    proof {
        assert(all.take(all.len() as int) =~= all);
    }
    let n: usize = sorted.len();
    let mut out: Vec<String> = Vec::new();
    let mut i: usize = 0;
    proof {
        assert(text::views(out@) =~= label_lines(sorted@).take(0));
    }
    while i < n
        invariant
            n == sorted@.len(),
            i <= n,
            text::views(out@) == label_lines(sorted@).take(i as int),
        decreases n - i,
    {
        let ghost before = out@;
        out.push(label_line(&sorted[i]));
        proof {
            text::views_push(before, out@.last());
            assert(label_lines(sorted@).take(i + 1) =~= label_lines(sorted@).take(i as int).push(
                label_text(sorted@[i as int].name@, sorted@[i as int].file@),
            ));
        }
        i += 1;
    }
    proof {
        assert(label_lines(sorted@).take(i as int) =~= label_lines(sorted@));
    }
    out
}

/// What precedes the first gap in a line; all of it where there is none.
pub open spec fn name_in_line(line: Seq<char>) -> Seq<char>
    decreases line.len(),
{
    if line.len() == 0 || text::occurs_at(line, LABEL_GAP@, 0) {
        Seq::empty()
    } else {
        seq![line[0]] + name_in_line(line.skip(1))
    }
}

/// The name of the label that a line shows.
pub fn label_of_line(line: &str) -> (r: String)
    ensures
        r@ == name_in_line(line@),
{
    let v = text::chars_of(line);
    let gap = text::chars_of(LABEL_GAP);
    let n: usize = v.len();
    let mut i: usize = 0;
    proof {
        assert(v@.skip(0) =~= line@);
        assert(v@.take(0) + name_in_line(v@.skip(0)) =~= name_in_line(line@));
    }
    while i < n && !text::matches_at(&v, &gap, i)
        invariant
            v@ == line@,
            gap@ == LABEL_GAP@,
            n == v@.len(),
            i <= n,
            v@.take(i as int) + name_in_line(v@.skip(i as int)) == name_in_line(line@),
        decreases n - i,
    {
        proof {
            if text::occurs_at(v@.skip(i as int), LABEL_GAP@, 0) {
                assert(v@.skip(i as int).subrange(0, gap@.len() as int) =~= v@.subrange(
                    i as int,
                    i + gap@.len(),
                ));
            }
            assert(v@.skip(i as int).skip(1) =~= v@.skip(i + 1));
            assert(v@.take(i as int) + (seq![v@[i as int]] + name_in_line(v@.skip(i + 1)))
                =~= v@.take(i + 1) + name_in_line(v@.skip(i + 1)));
        }
        i += 1;
    }
    let r = text::string_of_range(&v, 0, i);
    proof {
        if i < n {
            assert(v@.skip(i as int).subrange(0, gap@.len() as int) =~= v@.subrange(
                i as int,
                i + gap@.len(),
            ));
        }
        assert(name_in_line(v@.skip(i as int)) =~= Seq::<char>::empty());
        assert(r@ =~= v@.take(i as int));
        assert(v@.take(i as int) + name_in_line(v@.skip(i as int)) =~= v@.take(i as int));
    }
    r
}

/// The package that the window works on: the one that is chosen, or the default.
pub fn current_package(chosen: String) -> (r: String)
    ensures
        r@ == alert::package_of(chosen@),
{
    if chosen.as_str().is_empty() {
        DEFAULT_PACKAGE.to_owned()
    } else {
        chosen
    }
}

/// Where a name first stands in a list, or the start where it does not.
pub open spec fn position_or_first(v: Seq<String>, name: Seq<char>) -> nat
    decreases v.len(),
{
    match first_position(v, name) {
        Some(i) => i as nat,
        None => 0,
    }
}

/// Where a name first stands in a list.
pub open spec fn first_position(v: Seq<String>, name: Seq<char>) -> Option<int>
    decreases v.len(),
{
    if v.len() == 0 {
        None
    } else if v[0]@ == name {
        Some(0)
    } else {
        match first_position(v.skip(1), name) {
            Some(i) => Some(i + 1),
            None => None,
        }
    }
}

fn find_name(v: &Vec<String>, name: &str) -> (r: Option<usize>)
    ensures
        match r {
            Some(i) => first_position(v@, name@) == Some(i as int),
            None => first_position(v@, name@) is None,
        },
{
    let n: usize = v.len();
    let mut i: usize = 0;
    proof {
        assert(v@.skip(0) =~= v@);
    }
    while i < n
        invariant
            n == v@.len(),
            i <= n,
            first_position(v@, name@) == match first_position(v@.skip(i as int), name@) {
                Some(j) => Some(j + i),
                None => None,
            },
        decreases n - i,
    {
        proof {
            assert(v@.skip(i as int)[0] == v@[i as int]);
            assert(v@.skip(i as int).skip(1) =~= v@.skip(i + 1));
        }
        if text::same(v[i].as_str(), name) {
            return Some(i);
        }
        i += 1;
    }
    None
}

/// Which of the packages the list selects: the one that was selected, else the
/// active one; the first where it is gone.
pub fn package_selection(packages: &Vec<String>, previous: &str, active: &str) -> (r: usize)
    ensures
        r == position_or_first(
            packages@,
            if previous@.len() == 0 {
                active@
            } else {
                previous@
            },
        ),
{
    let want = if previous.is_empty() {
        active
    } else {
        previous
    };
    match find_name(packages, want) {
        Some(i) => i,
        None => 0,
    }
}

/// What follows where a package shall be renamed or deleted.
pub enum PackageStep {
    /// It is refused, in these words.
    Refused(String),
    /// It is asked for confirmation, in these words.
    Ask(String),
    /// The new name is asked for.
    AskName,
}

pub const NO_DEFAULT_RENAME: &'static str = "The default package cannot be renamed.";

pub const NO_DEFAULT_DELETE: &'static str = "The default package cannot be deleted.";

pub const NO_ACTIVE_DELETE: &'static str = "This package is currently active. Switch the active package to something else (and Save) before deleting it.";

/// Whether a package can be renamed: not the default one.
pub fn rename_step(package: &str) -> (r: PackageStep)
    ensures
        match r {
            PackageStep::Refused(s) => package@ == DEFAULT_PACKAGE@ && s@ == NO_DEFAULT_RENAME@,
            PackageStep::AskName => package@ != DEFAULT_PACKAGE@,
            PackageStep::Ask(_) => false,
        },
{
    if text::same(package, DEFAULT_PACKAGE) {
        PackageStep::Refused(NO_DEFAULT_RENAME.to_owned())
    } else {
        PackageStep::AskName
    }
}

/// The question before a package is deleted.
pub open spec fn package_question(package: Seq<char>) -> Seq<char> {
    "Delete package \""@ + package + "\" and all its sounds? This cannot be undone."@
}

/// Whether a package can be deleted: neither the default one nor the active one.
pub fn delete_step(package: &str, active: &str) -> (r: PackageStep)
    ensures
        match r {
            PackageStep::Refused(s) => {
                ||| package@ == DEFAULT_PACKAGE@ && s@ == NO_DEFAULT_DELETE@
                ||| package@ != DEFAULT_PACKAGE@ && package@ == active@ && s@ == NO_ACTIVE_DELETE@
            },
            PackageStep::Ask(s) => package@ != DEFAULT_PACKAGE@ && package@ != active@ && s@
                == package_question(package@),
            PackageStep::AskName => false,
        },
{
    if text::same(package, DEFAULT_PACKAGE) {
        return PackageStep::Refused(NO_DEFAULT_DELETE.to_owned());
    }
    if text::same(package, active) {
        return PackageStep::Refused(NO_ACTIVE_DELETE.to_owned());
    }
    let mut out: String = "Delete package \"".to_owned();
    out.append(package);
    out.append("\" and all its sounds? This cannot be undone.");
    PackageStep::Ask(out)
}

/// What can be asked of the sound labels and packages.
#[derive(Debug, Clone, Copy, PartialEq, Eq, Structural)]
pub enum SoundTask {
    AddLabel,
    EditLabel,
    DeleteLabel,
    NewPackage,
    RenamePackage,
    DeletePackage,
    ExportPackage,
    ImportPackage,
}

impl SoundTask {
    /// The title of the task's messages.
    pub open spec fn spec_title(self) -> Seq<char> {
        match self {
            SoundTask::AddLabel => "Add Sound Label"@,
            SoundTask::EditLabel => "Edit Sound Label"@,
            SoundTask::DeleteLabel => "Delete Sound Label"@,
            SoundTask::NewPackage => "New Package"@,
            SoundTask::RenamePackage => "Rename Package"@,
            SoundTask::DeletePackage => "Delete Package"@,
            SoundTask::ExportPackage => "Export Package"@,
            SoundTask::ImportPackage => "Import Package"@,
        }
    }

    /// The title of the task's messages.
    pub fn title(&self) -> (r: &'static str)
        ensures
            r@ == self.spec_title(),
    {
        match self {
            SoundTask::AddLabel => "Add Sound Label",
            SoundTask::EditLabel => "Edit Sound Label",
            SoundTask::DeleteLabel => "Delete Sound Label",
            SoundTask::NewPackage => "New Package",
            SoundTask::RenamePackage => "Rename Package",
            SoundTask::DeletePackage => "Delete Package",
            SoundTask::ExportPackage => "Export Package",
            SoundTask::ImportPackage => "Import Package",
        }
    }

    /// What is said before the words of an error; nothing is said where a label
    /// could not be deleted.
    pub open spec fn failure(self) -> Option<Seq<char>> {
        match self {
            SoundTask::AddLabel => Some("Could not add label: "@),
            SoundTask::EditLabel => Some("Could not update label: "@),
            SoundTask::DeleteLabel => None,
            SoundTask::NewPackage => Some("Could not create package: "@),
            SoundTask::RenamePackage => Some("Could not rename package: "@),
            SoundTask::DeletePackage => Some("Could not delete package: "@),
            SoundTask::ExportPackage => Some("Export failed: "@),
            SoundTask::ImportPackage => Some("Import failed: "@),
        }
    }

    /// What is said where the task failed.
    pub fn failed(&self, error: &str) -> (r: Option<String>)
        ensures
            text::opt_view(r) == match self.failure() {
                Some(head) => Some(head + error@),
                None => None,
            },
    {
        let head: &'static str = match self {
            SoundTask::AddLabel => "Could not add label: ",
            SoundTask::EditLabel => "Could not update label: ",
            SoundTask::DeleteLabel => {
                return None;
            },
            SoundTask::NewPackage => "Could not create package: ",
            SoundTask::RenamePackage => "Could not rename package: ",
            SoundTask::DeletePackage => "Could not delete package: ",
            SoundTask::ExportPackage => "Export failed: ",
            SoundTask::ImportPackage => "Import failed: ",
        };
        let mut out: String = head.to_owned();
        out.append(error);
        Some(out)
    }
}

/// The question for the name of a new package.
pub const ASK_PACKAGE_NAME: &'static str = "Package name:";

/// The question for the new name of a package.
pub const ASK_NEW_NAME: &'static str = "New name:";

/// The question before a label is deleted.
pub fn label_question(name: &str) -> (r: String)
    ensures
        r@ == "Delete sound label \""@ + name@ + "\"?"@,
{
    let mut out: String = "Delete sound label \"".to_owned();
    out.append(name);
    out.append("\"?");
    out
}

/// What is said once a package was exported.
pub fn exported(package: &str, path: &str) -> (r: String)
    ensures
        r@ == "Exported \""@ + package@ + "\" to:\n"@ + path@,
{
    let mut out: String = "Exported \"".to_owned();
    out.append(package);
    out.append("\" to:\n");
    out.append(path);
    out
}

/// What is said once a package was imported.
pub fn imported(package: &str) -> (r: String)
    ensures
        r@ == "Imported package \""@ + package@ + "\"."@,
{
    let mut out: String = "Imported package \"".to_owned();
    out.append(package);
    out.append("\".");
    out
}

/// The name that is suggested for a copy of a package.
pub fn suggested_copy(active: &str) -> (r: String)
    ensures
        r@ == active@ + " copy"@,
{
    let mut out: String = active.to_owned();
    out.append(" copy");
    out
}

/// The name that was typed for a package, without the white space around it;
/// nothing where that leaves nothing, or the name that a renamed package has.
pub fn typed_name(typed: &str, current: Option<&str>) -> (r: Option<String>)
    ensures
        text::opt_view(r) == if text::trimmed(typed@).len() == 0 || (current matches Some(c)
            && text::trimmed(typed@) == c@) {
            None
        } else {
            Some(text::trimmed(typed@))
        },
{
    let t = text::trim(typed);
    if t.as_str().is_empty() {
        return None;
    }
    if let Some(c) = current {
        if text::same(t.as_str(), c) {
            return None;
        }
    }
    Some(t)
}

/// The active package once one was renamed.
pub fn active_after_rename(active: String, old_name: &str, new_name: &str) -> (r: String)
    ensures
        r@ == if active@ == old_name@ {
            new_name@
        } else {
            active@
        },
{
    if text::same(active.as_str(), old_name) {
        new_name.to_owned()
    } else {
        active
    }
}

/// The title of the label editor's messages.
pub const LABEL_TITLE: &'static str = "Sound Label";

/// What is said where a label lacks its name or its file.
pub const LABEL_INCOMPLETE: &'static str = "Enter a label name and choose a sound file.";

/// What the label editor returns: the name without the white space around it and
/// the file; nothing where either is empty.
pub fn edited_label(name: &str, file: &str) -> (r: Option<SoundLabel>)
    ensures
        match r {
            Some(l) => {
                &&& text::trimmed(name@).len() > 0
                &&& file@.len() > 0
                &&& l.name@ == text::trimmed(name@)
                &&& l.file@ == file@
            },
            None => text::trimmed(name@).len() == 0 || file@.len() == 0,
        },
{
    let t = text::trim(name);
    if t.as_str().is_empty() || file.is_empty() {
        None
    } else {
        Some(SoundLabel { name: t, file: file.to_owned() })
    }
}

/// A sound that an action can play: its label, and how the list shows it.
pub struct SoundOption {
    pub key: String,
    pub label: String,
}

/// Whether an option has a key.
pub open spec fn offers(v: Seq<SoundOption>, key: Seq<char>) -> bool {
    exists|i: int| 0 <= i < v.len() && (#[trigger] v[i]).key@ == key
}

/// Keeps the sound that an action plays among the options, even where no package
/// defines it any more.
pub fn keep_current(options: Vec<SoundOption>, current: &Option<String>) -> (r: Vec<SoundOption>)
    ensures
        match *current {
            Some(s) => if s@.len() > 0 && !offers(options@, s@) {
                &&& r@.len() == options@.len() + 1
                &&& r@.take(options@.len() as int) == options@
                &&& r@.last().key@ == s@
                &&& r@.last().label@ == s@
            } else {
                r@ == options@
            },
            None => r@ == options@,
        },
{
    let mut out = options;
    let ghost before = out@;
    let n: usize = out.len();
    if let Some(s) = current {
        if s.as_str().is_empty() {
            return out;
        }
        let mut i: usize = 0;
        while i < n
            invariant
                n == out@.len(),
                out@ == before,
                before == options@,
                s@.len() > 0,
                *current == Some(*s),
                i <= n,
                forall|j: int| 0 <= j < i ==> (#[trigger] out@[j]).key@ != s@,
            decreases n - i,
        {
            if text::same(out[i].key.as_str(), s.as_str()) {
                return out;
            }
            i += 1;
        }
        out.push(SoundOption { key: s.clone(), label: s.clone() });
        proof {
            assert(out@.take(n as int) =~= before);
        }
    }
    out
}

/// The sound at a position of the list; nothing where it stands for no sound.
pub fn sound_at(options: &Vec<SoundOption>, i: usize) -> (r: Option<String>)
    ensures
        text::opt_view(r) == if i < options@.len() && options@[i as int].key@.len() > 0 {
            Some(options@[i as int].key@)
        } else {
            None
        },
{
    if i < options.len() && !options[i].key.as_str().is_empty() {
        Some(options[i].key.clone())
    } else {
        None
    }
}

/// Where the sound that an action plays stands in the list, or the start.
pub open spec fn option_position(v: Seq<SoundOption>, key: Seq<char>) -> nat
    decreases v.len(),
{
    match first_option(v, key) {
        Some(i) => i as nat,
        None => 0,
    }
}

/// Where an option of a key first stands.
pub open spec fn first_option(v: Seq<SoundOption>, key: Seq<char>) -> Option<int>
    decreases v.len(),
{
    if v.len() == 0 {
        None
    } else if v[0].key@ == key {
        Some(0)
    } else {
        match first_option(v.skip(1), key) {
            Some(i) => Some(i + 1),
            None => None,
        }
    }
}

/// Where the sound that an action plays stands in the list.
pub fn sound_position(options: &Vec<SoundOption>, current: &Option<String>) -> (r: usize)
    ensures
        r == option_position(
            options@,
            match *current {
                Some(s) => s@,
                None => Seq::empty(),
            },
        ),
{
    let key: String = match current {
        Some(s) => s.clone(),
        None => String::new(),
    };
    let n: usize = options.len();
    let mut i: usize = 0;
    proof {
        assert(current is None ==> key@ =~= Seq::<char>::empty());
        assert(options@.skip(0) =~= options@);
    }
    while i < n
        invariant
            n == options@.len(),
            i <= n,
            key@ == match *current {
                Some(s) => s@,
                None => Seq::empty(),
            },
            first_option(options@, key@) == match first_option(options@.skip(i as int), key@) {
                Some(j) => Some(j + i),
                None => None,
            },
        decreases n - i,
    {
        proof {
            assert(options@.skip(i as int)[0] == options@[i as int]);
            assert(options@.skip(i as int).skip(1) =~= options@.skip(i + 1));
        }
        if text::same(options[i].key.as_str(), key.as_str()) {
            return i;
        }
        i += 1;
    }
    0
}

// ── Icons ───────────────────────────────────────────────────────────────────

/// An icon that an action can show.
pub struct IconItem {
    pub key: String,
    pub label: String,
    pub color: u32,
}

/// Where an icon of a key first stands.
pub open spec fn first_icon(v: Seq<IconItem>, key: Seq<char>) -> Option<int>
    decreases v.len(),
{
    if v.len() == 0 {
        None
    } else if v[0].key@ == key {
        Some(0)
    } else {
        match first_icon(v.skip(1), key) {
            Some(i) => Some(i + 1),
            None => None,
        }
    }
}

fn icon_position(v: &Vec<IconItem>, key: &str) -> (r: Option<usize>)
    ensures
        match r {
            Some(i) => first_icon(v@, key@) == Some(i as int),
            None => first_icon(v@, key@) is None,
        },
{
    let n: usize = v.len();
    let mut i: usize = 0;
    proof {
        assert(v@.skip(0) =~= v@);
    }
    while i < n
        invariant
            n == v@.len(),
            i <= n,
            first_icon(v@, key@) == match first_icon(v@.skip(i as int), key@) {
                Some(j) => Some(j + i),
                None => None,
            },
        decreases n - i,
    {
        proof {
            assert(v@.skip(i as int)[0] == v@[i as int]);
            assert(v@.skip(i as int).skip(1) =~= v@.skip(i + 1));
        }
        if text::same(v[i].key.as_str(), key) {
            return Some(i);
        }
        i += 1;
    }
    None
}

/// Where an icon stands in the list; where it is gone, the one that stands for
/// no icon, else the first.
pub fn find_icon_index(items: &Vec<IconItem>, key: &str) -> (r: usize)
    ensures
        r == match first_icon(items@, key@) {
            Some(i) => i,
            None => match first_icon(items@, Seq::empty()) {
                Some(i) => i,
                None => 0,
            },
        },
{
    match icon_position(items, key) {
        Some(i) => i,
        None => {
            let none: String = String::new();
            proof {
                assert(none@ =~= Seq::<char>::empty());
            }
            match icon_position(items, none.as_str()) {
                Some(i) => i,
                None => 0,
            }
        },
    }
}

/// A name without the copies of an ending.
pub open spec fn without_ending(s: Seq<char>, e: Seq<char>) -> Seq<char>
    decreases s.len(),
{
    if e.len() > 0 && s.len() >= e.len() && s.skip(s.len() - e.len()) == e {
        without_ending(s.take(s.len() - e.len()), e)
    } else {
        s
    }
}

fn drop_ending(s: String, e: &str) -> (r: String)
    requires
        e@.len() > 0,
    ensures
        r@ == without_ending(s@, e@),
{
    let v = text::chars_of(s.as_str());
    let q = text::chars_of(e);
    let m: usize = q.len();
    let mut n: usize = v.len();
    proof {
        assert(v@.take(n as int) =~= s@);
    }
    while n >= m && text::matches_at(&v, &q, n - m) && n - m + m <= n
        invariant
            v@ == s@,
            q@ == e@,
            m == q@.len(),
            m > 0,
            n <= v@.len(),
            without_ending(v@.take(n as int), e@) == without_ending(s@, e@),
        decreases n,
    {
        proof {
            let t = v@.take(n as int);
            assert(t.skip(n - m) =~= v@.subrange(n - m, n as int));
            assert(t.take(n - m) =~= v@.take(n - m));
        }
        n -= m;
    }
    proof {
        let t = v@.take(n as int);
        if n >= m && t.skip(n - m) == e@ {
            assert(t.skip(n - m) =~= v@.subrange(n - m, n as int));
        }
    }
    let r = text::string_of_range(&v, 0, n);
    proof {
        assert(r@ =~= v@.take(n as int));
    }
    r
}

/// How the list shows an icon's file: without the ending of its format.
pub fn icon_label(file: &str) -> (r: String)
    ensures
        r@ == without_ending(without_ending(file@, ".jpg"@), ".png"@),
{
    proof {
        reveal_strlit(".jpg");
        reveal_strlit(".png");
    }
    let a = drop_ending(file.to_owned(), ".jpg");
    drop_ending(a, ".png")
}

// ── Laws ────────────────────────────────────────────────────────────────────

/// The name that is read back from a label's line is the label's name, unless
/// that name holds the gap itself or a part of it at its end.
pub proof fn labels_read_back(name: Seq<char>, file: Seq<char>)
    requires
        forall|i: int|
            0 <= i < name.len() ==> !text::occurs_at(
                #[trigger] label_text(name, file).skip(i),
                LABEL_GAP@,
                0,
            ),
    ensures
        name_in_line(label_text(name, file)) == name,
    decreases name.len(),
{
    let line = label_text(name, file);
    if name.len() == 0 {
        assert(line.subrange(0, LABEL_GAP@.len() as int) =~= LABEL_GAP@);
        assert(name_in_line(line) =~= name);
    } else {
        let rest = name.skip(1);
        assert(line.skip(1) =~= label_text(rest, file));
        assert(line.skip(0) =~= line);
        assert(!text::occurs_at(label_text(name, file).skip(0), LABEL_GAP@, 0));
        assert forall|i: int| 0 <= i < rest.len() implies !text::occurs_at(
            #[trigger] label_text(rest, file).skip(i),
            LABEL_GAP@,
            0,
        ) by {
            assert(label_text(rest, file).skip(i) =~= label_text(name, file).skip(i + 1));
        }
        labels_read_back(rest, file);
        assert(line[0] == name[0]);
        assert(name_in_line(line) =~= name);
    }
}

/// A name is selected where it first stands in the list; the first entry where it
/// does not.
pub proof fn names_are_selected_where_they_stand(v: Seq<String>, name: Seq<char>, i: int)
    requires
        0 <= i <= v.len(),
        forall|j: int| 0 <= j < i ==> (#[trigger] v[j])@ != name,
        i < v.len() ==> v[i]@ == name,
    ensures
        i < v.len() ==> first_position(v, name) == Some(i) && position_or_first(v, name) == i,
        i == v.len() ==> first_position(v, name) is None && position_or_first(v, name) == 0,
    decreases v.len(),
{
    if i > 0 {
        let rest = v.skip(1);
        assert(v[0]@ != name);
        assert forall|j: int| 0 <= j < i - 1 implies (#[trigger] rest[j])@ != name by {
            assert(rest[j] == v[j + 1]);
        }
        names_are_selected_where_they_stand(rest, name, i - 1);
    }
}

/// An ending is taken off a name however often it stands there, and nothing else
/// is.
pub proof fn endings_are_taken_off(s: Seq<char>, e: Seq<char>)
    requires
        e.len() > 0,
        !(s.len() >= e.len() && s.skip(s.len() - e.len()) == e),
    ensures
        without_ending(s, e) == s,
        without_ending(s + e, e) == s,
        without_ending(s + e + e, e) == s,
{
    let one = s + e;
    let two = s + e + e;
    assert(one.skip(one.len() - e.len()) =~= e);
    assert(one.take(one.len() - e.len()) =~= s);
    assert(two.skip(two.len() - e.len()) =~= e);
    assert(two.take(two.len() - e.len()) =~= one);
    assert(without_ending(s, e) == s);
    assert(without_ending(one, e) == without_ending(one.take(one.len() - e.len()), e));
    assert(without_ending(two, e) == without_ending(two.take(two.len() - e.len()), e));
}

proof fn label_place_splits(v: Seq<SoundLabel>, name: Seq<char>)
    ensures
        label_place(v, name) <= v.len(),
        forall|i: int|
            0 <= i < label_place(v, name) ==> text::not_after((#[trigger] v[i]).name@, name),
        label_place(v, name) < v.len() ==> !text::not_after(
            v[label_place(v, name) as int].name@,
            name,
        ),
    decreases v.len(),
{
    if v.len() > 0 && text::not_after(v[0].name@, name) {
        label_place_splits(v.skip(1), name);
        assert forall|i: int| 0 <= i < label_place(v, name) implies text::not_after(
            (#[trigger] v[i]).name@,
            name,
        ) by {
            if i > 0 {
                assert(v[i] == v.skip(1)[i - 1]);
            }
        }
    }
}

/// The labels of a package are listed in the order of their names, every one of
/// them once.
pub proof fn labels_are_listed_by_name(v: Seq<SoundLabel>)
    ensures
        forall|i: int, j: int|
            0 <= i <= j < labels_sorted(v).len() ==> text::not_after(
                (#[trigger] labels_sorted(v)[i]).name@,
                (#[trigger] labels_sorted(v)[j]).name@,
            ),
        labels_sorted(v).len() == v.len(),
        labels_sorted(v).to_multiset() == v.to_multiset(),
    decreases v.len(),
{
    broadcast use vstd::seq_lib::group_to_multiset_ensures;

    if v.len() > 0 {
        let t = labels_sorted(v.drop_last());
        let l = v.last();
        labels_are_listed_by_name(v.drop_last());
        label_place_splits(t, l.name@);
        let p = label_place(t, l.name@) as int;
        let u = t.insert(p, l);
        assert forall|i: int, j: int| 0 <= i <= j < u.len() implies text::not_after(
            (#[trigger] u[i]).name@,
            (#[trigger] u[j]).name@,
        ) by {
            let i2 = if i < p { i } else { i - 1 };
            let j2 = if j < p { j } else { j - 1 };
            if i == p && j == p {
                text::order_is_total(l.name@, l.name@);
            } else if i == p {
                text::order_is_total(t[p].name@, l.name@);
                if j2 > p {
                    assert(text::not_after(t[p].name@, t[j2].name@));
                    text::order_is_transitive(l.name@, t[p].name@, t[j2].name@);
                }
            } else if j == p {
                assert(text::not_after(t[i2].name@, l.name@));
            } else {
                assert(text::not_after(t[i2].name@, t[j2].name@));
            }
        }
        assert(v.drop_last().push(l) =~= v);
        assert(u.to_multiset() =~= t.to_multiset().insert(l));
    }
}

} // verus!
