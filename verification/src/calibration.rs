//! The list of sensors that count: when it is saved, and what is shown of it.
use crate::text::push_decimal;
use vstd::prelude::*;
use vstd::string::*;

verus! {

/// What became of a sensor on the list.
#[derive(Debug, Clone, Copy, PartialEq, Eq, Structural)]
pub enum Change {
    Added,
    AlreadyPresent,
    Removed,
    NotPresent,
}

impl Change {
    pub open spec fn words(self) -> Seq<char> {
        match self {
            Change::Added => "added: "@,
            Change::AlreadyPresent => "already present: "@,
            Change::Removed => "removed: "@,
            Change::NotPresent => "not present: "@,
        }
    }

    /// What adding a sensor came to, where `changed` says whether the list changed.
    pub fn by_adding(changed: bool) -> (r: Change)
        ensures
            r == if changed {
                Change::Added
            } else {
                Change::AlreadyPresent
            },
    {
        if changed {
            Change::Added
        } else {
            Change::AlreadyPresent
        }
    }

    /// What removing a sensor came to, where `changed` says whether the list changed.
    pub fn by_removing(changed: bool) -> (r: Change)
        ensures
            r == if changed {
                Change::Removed
            } else {
                Change::NotPresent
            },
    {
        if changed {
            Change::Removed
        } else {
            Change::NotPresent
        }
    }

    /// Whether the list has to be saved: exactly if it changed.
    pub fn must_save(&self) -> (r: bool)
        ensures
            r == (*self == Change::Added || *self == Change::Removed),
    {
        match self {
            Change::Added => true,
            Change::Removed => true,
            _ => false,
        }
    }

    /// The line that the change is shown as.
    pub fn describe(&self, name: &str) -> (r: String)
        ensures
            r@ == self.words() + name@,
    {
        let mut s = String::new();
        match self {
            Change::Added => s.append("added: "),
            Change::AlreadyPresent => s.append("already present: "),
            Change::Removed => s.append("removed: "),
            Change::NotPresent => s.append("not present: "),
        }
        s.append(name);
        assert(s@ =~= self.words() + name@);
        s
    }
}

/// What is asked of the list.
#[derive(Debug, Clone, Copy, PartialEq, Eq, Structural)]
pub enum CalibrateAction {
    Add,
    Remove,
    List,
}

/// What is done about the list: what is told of a change, and whether the list is saved.
#[derive(Debug, Clone, Copy, PartialEq, Eq, Structural)]
pub struct CalibrateOutcome {
    pub change: Option<Change>,
    pub save: bool,
}

impl CalibrateAction {
    /// What is done, where `changed` is the list's own answer. Showing the list never
    /// saves it.
    pub open spec fn follow_up(self, changed: bool) -> CalibrateOutcome {
        match self {
            CalibrateAction::Add => CalibrateOutcome {
                change: Some(
                    if changed {
                        Change::Added
                    } else {
                        Change::AlreadyPresent
                    },
                ),
                save: changed,
            },
            CalibrateAction::Remove => CalibrateOutcome {
                change: Some(
                    if changed {
                        Change::Removed
                    } else {
                        Change::NotPresent
                    },
                ),
                save: changed,
            },
            CalibrateAction::List => CalibrateOutcome { change: None, save: false },
        }
    }

    /// What is done, where `changed` is the list's own answer.
    pub fn outcome(&self, changed: bool) -> (r: CalibrateOutcome)
        ensures
            r == self.follow_up(changed),
    {
        let change: Option<Change> = match self {
            CalibrateAction::Add => Some(Change::by_adding(changed)),
            CalibrateAction::Remove => Some(Change::by_removing(changed)),
            CalibrateAction::List => None,
        };
        let save: bool = match change {
            Some(c) => c.must_save(),
            None => false,
        };
        CalibrateOutcome { change, save }
    }

    /// The names on a list after the action.
    pub open spec fn leaves(self, list: Set<Seq<char>>, name: Seq<char>) -> Set<Seq<char>> {
        match self {
            CalibrateAction::Add => list.insert(name),
            CalibrateAction::Remove => list.remove(name),
            CalibrateAction::List => list,
        }
    }

    /// What a list answers that holds each name once: whether the action changed it.
    pub open spec fn answer(self, list: Set<Seq<char>>, name: Seq<char>) -> bool {
        match self {
            CalibrateAction::Add => !list.contains(name),
            CalibrateAction::Remove => list.contains(name),
            CalibrateAction::List => false,
        }
    }
}

/// Showing the list never saves it, whatever the list answers.
pub proof fn listing_never_saves(changed: bool)
    ensures
        !CalibrateAction::List.follow_up(changed).save,
{
}

/// A list that holds each name once is saved exactly if the action changed it.
pub proof fn only_changes_are_saved(action: CalibrateAction, list: Set<Seq<char>>, name: Seq<char>)
    ensures
        action.follow_up(action.answer(list, name)).save <==> action.leaves(list, name) != list,
{
    match action {
        CalibrateAction::Add => {
            if list.contains(name) {
                assert(list.insert(name) =~= list);
            } else {
                assert(list.insert(name).contains(name));
            }
        },
        CalibrateAction::Remove => {
            if list.contains(name) {
                assert(!list.remove(name).contains(name));
            } else {
                assert(list.remove(name) =~= list);
            }
        },
        CalibrateAction::List => {},
    }
}

/// The same action a second time leaves the list as it is, and saves nothing.
pub proof fn repeating_saves_nothing(action: CalibrateAction, list: Set<Seq<char>>, name: Seq<char>)
    ensures
        ({
            let once = action.leaves(list, name);
            &&& action.leaves(once, name) == once
            &&& !action.follow_up(action.answer(once, name)).save
        }),
{
    let once = action.leaves(list, name);
    assert(action.leaves(once, name) =~= once);
}

/// A sensor on the list.
#[derive(Debug)]
pub struct ListedSensor {
    pub name: String,
    pub added_at: String,
}

/// The list of sensors, with the machine that it was made on.
#[derive(Debug)]
pub struct SensorTable {
    pub model: String,
    pub build: String,
    pub recorded_at: String,
    pub sensors: Vec<ListedSensor>,
}

/// The line for one sensor.
pub open spec fn sensor_line(s: ListedSensor) -> Seq<char> {
    "  - "@ + s.name@ + " (added "@ + s.added_at@ + ")"@
}

impl SensorTable {
    pub open spec fn words(self) -> Seq<Seq<char>> {
        seq![
            "model:       "@ + self.model@,
            "build:       "@ + self.build@,
            "recorded_at: "@ + self.recorded_at@,
            "sensors ("@ + crate::text::decimal(self.sensors@.len()) + "):"@,
        ] + Seq::new(self.sensors@.len(), |i: int| sensor_line(self.sensors@[i]))
    }

    /// The lines that the list is shown as.
    pub fn describe(&self) -> (r: Vec<String>)
        ensures
            crate::report::lines_view(r@) == self.words(),
    {
        let mut model = "model:       ".to_owned();
        model.append(self.model.as_str());
        let mut build = "build:       ".to_owned();
        build.append(self.build.as_str());
        let mut recorded = "recorded_at: ".to_owned();
        recorded.append(self.recorded_at.as_str());
        let mut count = "sensors (".to_owned();
        push_decimal(&mut count, self.sensors.len() as u64);
        count.append("):");
        let mut v: Vec<String> = Vec::new();
        v.push(model);
        v.push(build);
        v.push(recorded);
        v.push(count);
        assert(crate::report::lines_view(v@) =~= self.words().take(4));
        let mut i: usize = 0;
        while i < self.sensors.len()
            invariant
                i <= self.sensors@.len(),
                crate::report::lines_view(v@) == self.words().take(4 + i),
            decreases self.sensors@.len() - i,
        {
            let ghost before = v@;
            let mut s = "  - ".to_owned();
            s.append(self.sensors[i].name.as_str());
            s.append(" (added ");
            s.append(self.sensors[i].added_at.as_str());
            s.append(")");
            v.push(s);
            assert(crate::report::lines_view(v@) =~= crate::report::lines_view(before).push(s@));
            assert(s@ == self.words()[4 + i]);
            i = i + 1;
            assert(self.words().take(4 + i) =~= self.words().take(3 + i).push(s@));
        }
        assert(self.words().take(4 + i) =~= self.words());
        v
    }

    pub open spec fn mismatch_words(self, model: Seq<char>, build: Seq<char>) -> Seq<char> {
        "warning: calibration host mismatch (current: "@ + model + "/"@ + build + ", recorded: "@
            + self.model@ + "/"@ + self.build@ + ")"@
    }

    /// What is said about a list that was made on another machine than the one given.
    pub fn mismatch_line(&self, model: &str, build: &str) -> (r: String)
        ensures
            r@ == self.mismatch_words(model@, build@),
    {
        let mut s = "warning: calibration host mismatch (current: ".to_owned();
        s.append(model);
        s.append("/");
        s.append(build);
        s.append(", recorded: ");
        s.append(self.model.as_str());
        s.append("/");
        s.append(self.build.as_str());
        s.append(")");
        assert(s@ =~= self.mismatch_words(model@, build@));
        s
    }
}

} // verus!
