//! What the daemon's property list says, and how it is installed.
use crate::daemon::{InstallStep, Outcome, PlistConfig, PlistError, UninstallStep};
use vstd::prelude::*;

verus! {

proof fn lemma_first_place(
    entries: Seq<crate::daemon::EntryView>,
    key: Seq<char>,
    i: int,
)
    requires
        0 <= i < entries.len(),
        entries[i].key == key,
        forall|j: int| 0 <= j < i ==> (#[trigger] entries[j]).key != key,
    ensures
        crate::daemon::place_of(entries, key) == Some(i),
    decreases entries.len(),
{
    let rest = entries.drop_last();
    if i < rest.len() {
        assert(rest[i] == entries[i]);
        assert forall|j: int| 0 <= j < i implies (#[trigger] rest[j]).key != key by {
            assert(rest[j] == entries[j]);
        }
        lemma_first_place(rest, key, i);
    } else {
        assert forall|j: int| 0 <= j < rest.len() implies (#[trigger] rest[j]).key != key by {
            assert(rest[j] == entries[j]);
        }
        lemma_no_place(rest, key);
    }
}

proof fn lemma_no_place(entries: Seq<crate::daemon::EntryView>, key: Seq<char>)
    requires
        forall|j: int| 0 <= j < entries.len() ==> (#[trigger] entries[j]).key != key,
    ensures
        crate::daemon::place_of(entries, key) is None,
    decreases entries.len(),
{
    if entries.len() > 0 {
        let rest = entries.drop_last();
        assert forall|j: int| 0 <= j < rest.len() implies (#[trigger] rest[j]).key != key by {
            assert(rest[j] == entries[j]);
        }
        lemma_no_place(rest, key);
    }
}

/// What is under a key is the value of the first entry with that key; there is none
/// where no entry has it.
pub proof fn values_are_found_by_their_keys(
    entries: Seq<crate::daemon::EntryView>,
    key: Seq<char>,
)
    ensures
        match crate::daemon::node_under(entries, key) {
            Some(n) => exists|i: int|
                {
                    &&& 0 <= i < entries.len()
                    &&& (#[trigger] entries[i]).key == key
                    &&& entries[i].node == n
                    &&& forall|j: int| 0 <= j < i ==> (#[trigger] entries[j]).key != key
                },
            None => forall|j: int| 0 <= j < entries.len() ==> (#[trigger] entries[j]).key != key,
        },
    decreases entries.len(),
{
    if entries.len() > 0 {
        let rest = entries.drop_last();
        values_are_found_by_their_keys(rest, key);
        if let Some(n) = crate::daemon::node_under(rest, key) {
            let i = choose|i: int|
                {
                    &&& 0 <= i < rest.len()
                    &&& (#[trigger] rest[i]).key == key
                    &&& rest[i].node == n
                    &&& forall|j: int| 0 <= j < i ==> (#[trigger] rest[j]).key != key
                };
            assert(entries[i] == rest[i]);
            assert forall|j: int| 0 <= j < i implies (#[trigger] entries[j]).key != key by {
                assert(rest[j] == entries[j]);
            }
            lemma_first_place(entries, key, i);
        } else {
            assert forall|j: int| 0 <= j < rest.len() implies (#[trigger] entries[j]).key
                != key by {
                assert(rest[j] == entries[j]);
            }
            assert(entries[entries.len() - 1] == entries.last());
        }
    }
}

/// The daemon's command line starts the program itself in a run along the curve, with
/// the fans that were selected, for a year: its argument behind `--fan` is read as just
/// that selection.
pub proof fn the_daemon_runs_the_selected_fans(cfg: PlistConfig)
    requires
        cfg.fan@ matches crate::selection::FanSelectionView::Only(list) ==> list.len() > 0,
    ensures
        ({
            let line = cfg.command_line();
            &&& line.len() == 8
            &&& line[0] == cfg.binary@
            &&& line[1] == "run"@
            &&& line[2] == "--curve"@ && line[3] == cfg.curve@
            &&& line[4] == "--fan"@
            &&& crate::selection::selection_named(line[5]) == Some(cfg.fan@)
            &&& line[6] == "--duration-secs"@
            &&& crate::laws::texts::is_numeral(10, line[7], 365int * 24 * 3600)
        }),
{
    crate::selection::selection_text_round_trip(cfg.fan@);
    crate::laws::texts::numbers_are_shown_as_numerals(
        10,
        crate::daemon::DAEMON_DURATION_SECS as nat,
    );
}

/// What launchd reads in the property list: the daemon's name, the whole command line,
/// that the daemon is started at once and kept running, and where its output goes.
pub proof fn the_property_list_says_it_all(cfg: PlistConfig)
    ensures
        ({
            let all = cfg.entries();
            let line = cfg.command_line();
            let args = crate::daemon::node_under(all, "ProgramArguments"@);
            &&& all.len() == 6
            &&& crate::daemon::node_under(all, "Label"@) == Some(
                crate::daemon::NodeView::Text("im.toss.mac-smart-fans"@),
            )
            &&& args is Some && args->0 is List
            &&& args->0->List_0.len() == line.len()
            &&& forall|i: int|
                0 <= i < line.len() ==> #[trigger] args->0->List_0[i] == Some(line[i])
            &&& crate::daemon::node_under(all, "RunAtLoad"@) == Some(
                crate::daemon::NodeView::Flag(true),
            )
            &&& crate::daemon::node_under(all, "KeepAlive"@) == Some(
                crate::daemon::NodeView::Flag(true),
            )
            &&& crate::daemon::node_under(all, "StandardOutPath"@) == Some(
                crate::daemon::NodeView::Text("/var/log/msf"@ + "/stdout.log"@),
            )
            &&& crate::daemon::node_under(all, "StandardErrorPath"@) == Some(
                crate::daemon::NodeView::Text("/var/log/msf"@ + "/stderr.log"@),
            )
        }),
{
    reveal_strlit("Label");
    reveal_strlit("ProgramArguments");
    reveal_strlit("RunAtLoad");
    reveal_strlit("KeepAlive");
    reveal_strlit("StandardOutPath");
    reveal_strlit("StandardErrorPath");
    assert("RunAtLoad"@[0] != "KeepAlive"@[0]);
    assert("Label"@.len() == 5 && "ProgramArguments"@.len() == 16);
    assert("RunAtLoad"@.len() == 9 && "KeepAlive"@.len() == 9);
    assert("StandardOutPath"@.len() == 15 && "StandardErrorPath"@.len() == 17);
    let all = cfg.entries();
    assert(all[0].key == "Label"@ && all[1].key == "ProgramArguments"@);
    assert(all[2].key == "RunAtLoad"@ && all[3].key == "KeepAlive"@);
    assert(all[4].key == "StandardOutPath"@ && all[5].key == "StandardErrorPath"@);
    lemma_first_place(all, "Label"@, 0);
    lemma_first_place(all, "ProgramArguments"@, 1);
    lemma_first_place(all, "RunAtLoad"@, 2);
    lemma_first_place(all, "KeepAlive"@, 3);
    lemma_first_place(all, "StandardOutPath"@, 4);
    lemma_first_place(all, "StandardErrorPath"@, 5);
}

/// Arguments among which the flag `--curve` does not occur from `i` on and before `k`.
pub open spec fn no_curve_between(args: Seq<Option<Seq<char>>>, i: int, k: int) -> bool {
    forall|j: int| i <= j < k ==> #[trigger] args[j] != Some("--curve"@)
}

proof fn lemma_curve_skips(args: Seq<Option<Seq<char>>>, i: int, k: int)
    requires
        0 <= i <= k <= args.len(),
        no_curve_between(args, i, k),
    ensures
        crate::daemon::curve_among(args, i) == crate::daemon::curve_among(args, k),
    decreases k - i,
{
    if i < k {
        assert(args[i] != Some("--curve"@));
        lemma_curve_skips(args, i + 1, k);
    }
}

/// The curve is the text behind the first flag `--curve`; where there is no such flag
/// there is no curve, and what is found is always a text behind such a flag.
pub proof fn the_curve_stands_behind_its_flag(args: Seq<Option<Seq<char>>>, k: int)
    requires
        0 <= k <= args.len(),
        no_curve_between(args, 0, k),
    ensures
        k == args.len() ==> crate::daemon::curve_among(args, 0) is None,
        k + 1 < args.len() && args[k] == Some("--curve"@) && args[k + 1] is Some
            ==> crate::daemon::curve_among(args, 0) == args[k + 1],
{
    lemma_curve_skips(args, 0, k);
}

/// What is found as the curve is a text that stands behind a flag `--curve`.
pub proof fn no_other_argument_is_the_curve(args: Seq<Option<Seq<char>>>, i: int)
    requires
        0 <= i,
    ensures
        crate::daemon::curve_among(args, i) matches Some(s) ==> exists|k: int|
            i <= k < args.len() - 1 && #[trigger] args[k] == Some("--curve"@) && args[k + 1]
                == Some(s),
    decreases args.len() + 1 - i,
{
    if i < args.len() {
        if args[i] != Some("--curve"@) {
            no_other_argument_is_the_curve(args, i + 1);
        } else if i + 1 < args.len() && args[i + 1] is Some {
            assert(args[i] == Some("--curve"@));
        } else {
            no_other_argument_is_the_curve(args, i + 2);
        }
    }
}

/// What a property list without a curve is refused for: no list at all, no dictionary,
/// no list of arguments in it, or no curve among them, in this order.
pub proof fn a_missing_curve_is_explained(
    entries: Seq<crate::daemon::EntryView>,
    args: Seq<Option<Seq<char>>>,
)
    ensures
        crate::daemon::curve_in(None) == Err::<Seq<char>, PlistError>(PlistError::Unreadable),
        crate::daemon::curve_in(Some(None)) == Err::<Seq<char>, PlistError>(
            PlistError::RootNotDictionary,
        ),
        ({
            let node = crate::daemon::node_under(entries, "ProgramArguments"@);
            let r = crate::daemon::curve_in(Some(Some(entries)));
            &&& node is None || !(node->0 is List) ==> r == Err::<Seq<char>, PlistError>(
                PlistError::NoArguments,
            )
            &&& node == Some(crate::daemon::NodeView::List(args)) ==> r == match
                crate::daemon::curve_among(args, 0) {
                Some(s) => Ok::<Seq<char>, PlistError>(s),
                None => Err(PlistError::NoCurve),
            }
        }),
{
}

proof fn lemma_install_rests(root: bool, o: Seq<Outcome>, k: int)
    requires
        0 <= k <= o.len(),
        ({
            let s = crate::daemon::install_state(root, o.take(k));
            ||| s == InstallStep::Installed
            ||| s == InstallStep::LaunchFailed
            ||| s == InstallStep::Aborted
            ||| s == InstallStep::NeedRoot
        }),
    ensures
        crate::daemon::install_state(root, o) == crate::daemon::install_state(root, o.take(k)),
    decreases o.len() - k,
{
    if k == o.len() {
        assert(o.take(k) =~= o);
    } else {
        lemma_install_step(root, o, k);
        lemma_install_rests(root, o, k + 1);
    }
}

proof fn lemma_install_step(root: bool, o: Seq<Outcome>, k: int)
    requires
        0 <= k < o.len(),
    ensures
        crate::daemon::install_state(root, o.take(k + 1)) == crate::daemon::install_state(
            root,
            o.take(k),
        ).following(o[k]),
{
    assert(o.take(k + 1).drop_last() =~= o.take(k));
}

/// How an installation by the root user ends, by what came of its steps. The first
/// three must be done: the property list may be written, the curve is there, the logs
/// have their directory. An older daemon is stopped in one step more. Then the property
/// list must be written. The daemon is installed if it is started in the new way, or in
/// the old way where the new way ran without success; a way that cannot be tried at
/// all ends the installation.
pub proof fn installations_end_as_their_steps_do(o: Seq<Outcome>)
    requires
        o.len() >= 8,
    ensures
        ({
            let end = crate::daemon::install_state(true, o);
            let ready = o[0] == Outcome::Done && o[1] == Outcome::Done && o[2] == Outcome::Done;
            let w: int = if o[3] == Outcome::Done {
                5
            } else {
                4
            };
            &&& !ready ==> end == InstallStep::Aborted
            &&& ready && o[w] != Outcome::Done ==> end == InstallStep::Aborted
            &&& ready && o[w] == Outcome::Done ==> match o[w + 1] {
                Outcome::Done => end == InstallStep::Installed,
                Outcome::Failed => end == InstallStep::Aborted,
                Outcome::No => match o[w + 2] {
                    Outcome::Done => end == InstallStep::Installed,
                    Outcome::No => end == InstallStep::LaunchFailed,
                    Outcome::Failed => end == InstallStep::Aborted,
                },
            }
        }),
{
    assert(o.take(0).len() == 0);
    lemma_install_step(true, o, 0);
    lemma_install_step(true, o, 1);
    lemma_install_step(true, o, 2);
    lemma_install_step(true, o, 3);
    lemma_install_step(true, o, 4);
    lemma_install_step(true, o, 5);
    lemma_install_step(true, o, 6);
    lemma_install_step(true, o, 7);
    lemma_install_rests(true, o, 8);
}

/// A removal stops the daemon in both ways before it looks for the property list, and
/// what comes of stopping it makes no difference.
pub proof fn removals_stop_the_daemon_first(a: Outcome, b: Outcome, c: Outcome)
    ensures
        UninstallStep::Bootout.following(a) == UninstallStep::Unload,
        UninstallStep::Bootout.following(a).following(b) == UninstallStep::LookForPlist,
        UninstallStep::Bootout.following(a).following(b).following(Outcome::Done)
            == UninstallStep::RemovePlist,
        UninstallStep::NeedRoot.following(c) == UninstallStep::NeedRoot,
        UninstallStep::Removed.following(c) == UninstallStep::Removed,
        UninstallStep::AlreadyAbsent.following(c) == UninstallStep::AlreadyAbsent,
        UninstallStep::Aborted.following(c) == UninstallStep::Aborted,
{
}

/// A status tells whether there is a property list and whether launchd knows the
/// daemon, and it tells of the curve exactly if one was found.
pub proof fn a_status_tells_what_was_found(s: crate::daemon::StatusReport)
    ensures
        ({
            let lines = s.words();
            let path = "/Library/LaunchDaemons/im.toss.mac-smart-fans.plist"@;
            &&& s.plist_present ==> lines[0] == "plist:  "@ + path + " (present)"@
            &&& !s.plist_present ==> lines[0] == "plist:  "@ + path + " (absent)"@
            &&& s.loaded ==> lines[1] == "loaded: "@ + "true"@
            &&& !s.loaded ==> lines[1] == "loaded: "@ + "false"@
            &&& s.curve_path is Some ==> lines.len() == 3 && lines[2] == "curve:  "@
                + s.curve_path->0@
            &&& s.curve_path is None ==> lines.len() == 2
        }),
{
}

/// What is asked of `launchctl` is about this daemon: by its name where it is stopped
/// or shown, by its property list where it is started or stopped the older way.
pub proof fn launchctl_is_asked_about_this_daemon()
    ensures
        ({
            let service = "system/"@ + "im.toss.mac-smart-fans"@;
            let path = "/Library/LaunchDaemons/im.toss.mac-smart-fans.plist"@;
            &&& crate::daemon::Launchctl::Bootout.words() == seq!["bootout"@, service]
            &&& crate::daemon::Launchctl::Print.words() == seq!["print"@, service]
            &&& crate::daemon::Launchctl::Bootstrap.words() == seq!["bootstrap"@, "system"@, path]
            &&& crate::daemon::Launchctl::Load.words() == seq!["load"@, path]
            &&& crate::daemon::Launchctl::Unload.words() == seq!["unload"@, path]
        }),
{
}

} // verus!
