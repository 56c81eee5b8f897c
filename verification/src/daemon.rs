//! The daemon that keeps a curve running: its property list, and how it is installed,
//! removed and reported on.
use crate::dates::find_late_date;
use crate::report::NOT_ROOT_EXIT_CODE;
use crate::selection::FanSelection;
use crate::text::{push_decimal, same_text};
use vstd::prelude::*;
use vstd::string::*;

verus! {

/// The name by which launchd knows the daemon.
pub const DAEMON_LABEL: &'static str = "im.toss.mac-smart-fans";

/// Where launchd finds the daemon's property list.
pub const PLIST_PATH: &'static str = "/Library/LaunchDaemons/im.toss.mac-smart-fans.plist";

/// Where the daemon's output goes.
pub const LOG_DIR: &'static str = "/var/log/msf";

/// How long the daemon keeps a loop running: one year.
pub const DAEMON_DURATION_SECS: u64 = 31_536_000;

/// What a value of a property list is taken to hold.
pub ghost enum NodeView {
    Text(Seq<char>),
    Flag(bool),
    /// The texts of a list; `None` stands for an element that is no text.
    List(Seq<Option<Seq<char>>>),
    Other,
}

pub ghost struct EntryView {
    pub key: Seq<char>,
    pub node: NodeView,
}

/// A value to be written.
#[derive(Debug)]
pub enum PlistItem {
    Text(String),
    Flag(bool),
    Texts(Vec<String>),
}

/// A value that was read.
#[derive(Debug)]
pub enum PlistNode {
    Text(String),
    Flag(bool),
    List(Vec<Option<String>>),
    Other,
}

impl View for PlistItem {
    type V = NodeView;

    open spec fn view(&self) -> NodeView {
        match *self {
            PlistItem::Text(s) => NodeView::Text(s@),
            PlistItem::Flag(b) => NodeView::Flag(b),
            PlistItem::Texts(v) => NodeView::List(
                Seq::new(v@.len(), |i: int| Some(v@[i]@)),
            ),
        }
    }
}

impl View for PlistNode {
    type V = NodeView;

    open spec fn view(&self) -> NodeView {
        match *self {
            PlistNode::Text(s) => NodeView::Text(s@),
            PlistNode::Flag(b) => NodeView::Flag(b),
            PlistNode::List(v) => NodeView::List(arguments_view(v@)),
            PlistNode::Other => NodeView::Other,
        }
    }
}

/// A list of arguments, over their characters.
pub open spec fn arguments_view(args: Seq<Option<String>>) -> Seq<Option<Seq<char>>> {
    Seq::new(args.len(), |i: int| crate::report::maybe_text(args[i]))
}

/// A property list's dictionary, as the crate `plist` holds it.
#[verifier::external_type_specification]
#[verifier::external_body]
pub struct ExDictionary(plist::Dictionary);

/// Why the crate `plist` could not read or write.
#[verifier::external_type_specification]
#[verifier::external_body]
pub struct ExError(plist::Error);

/// The keys of a dictionary with their values, in the order in which it keeps them.
pub uninterp spec fn entries_of(d: plist::Dictionary) -> Seq<EntryView>;

/// The text that `plist::to_writer_xml` writes for a dictionary of these entries.
pub uninterp spec fn plist_xml(entries: Seq<EntryView>) -> Seq<u8>;

/// What `plist::Value::from_reader` reads: nothing that is a property list (`None`), a
/// value that is no dictionary (`Some(None)`), or a dictionary of these entries.
pub uninterp spec fn plist_root(bytes: Seq<u8>) -> Option<Option<Seq<EntryView>>>;

/// The first place of a key.
pub open spec fn place_of(entries: Seq<EntryView>, key: Seq<char>) -> Option<int>
    decreases entries.len(),
{
    if entries.len() == 0 {
        None
    } else {
        match place_of(entries.drop_last(), key) {
            Some(i) => Some(i),
            None => if entries.last().key == key {
                Some(entries.len() - 1)
            } else {
                None
            },
        }
    }
}

/// The entries with a value put under a key: in its place, or behind all others.
pub open spec fn with_entry(entries: Seq<EntryView>, key: Seq<char>, node: NodeView) -> Seq<
    EntryView,
> {
    match place_of(entries, key) {
        Some(i) => entries.update(i, EntryView { key, node }),
        None => entries.push(EntryView { key, node }),
    }
}

/// The value under a key.
pub open spec fn node_under(entries: Seq<EntryView>, key: Seq<char>) -> Option<NodeView> {
    match place_of(entries, key) {
        Some(i) => Some(entries[i].node),
        None => None,
    }
}

/// Values that are fully known: texts, flags and lists of texts.
pub open spec fn is_plain(node: NodeView) -> bool {
    match node {
        NodeView::Text(_) => true,
        NodeView::Flag(_) => true,
        NodeView::List(items) => forall|i: int| 0 <= i < items.len() ==> #[trigger] items[i] is Some,
        NodeView::Other => false,
    }
}

pub open spec fn all_plain(entries: Seq<EntryView>) -> bool {
    forall|i: int| 0 <= i < entries.len() ==> is_plain(#[trigger] entries[i].node)
}

/// `plist::Dictionary::new`: a dictionary without entries.
#[verifier::external_body]
fn new_dictionary() -> (r: plist::Dictionary)
    ensures
        entries_of(r) == Seq::<EntryView>::empty(),
{
    plist::Dictionary::new()
}

/// `plist::Dictionary::insert`: puts the value under the key, in the place of an older
/// value of that key or else behind all other entries.
#[verifier::external_body]
fn insert(d: &mut plist::Dictionary, key: &str, item: PlistItem)
    ensures
        entries_of(*final(d)) == with_entry(entries_of(*old(d)), key@, item@),
{
    let value = match item {
        PlistItem::Text(s) => plist::Value::String(s),
        PlistItem::Flag(b) => plist::Value::Boolean(b),
        PlistItem::Texts(v) => plist::Value::Array(
            v.into_iter().map(plist::Value::String).collect(),
        ),
    };
    d.insert(key.to_owned(), value);
}

/// `plist::to_writer_xml`, into memory: of a dictionary of texts, flags and lists of
/// texts it succeeds, what it writes depends on the entries alone, it writes no tag that
/// names a date, and `plist::Value::from_reader` gives the same entries back in the same
/// order (its writer escapes what is markup, and its reader takes all else as it stands).
/// Other values are left out: it panics on a date before the year 0.
#[verifier::external_body]
fn to_xml(d: plist::Dictionary) -> (r: Result<Vec<u8>, plist::Error>)
    requires
        all_plain(entries_of(d)),
    ensures
        r is Ok,
        r->Ok_0@ == plist_xml(entries_of(d)),
        !crate::dates::has_late_date(r->Ok_0@),
        plist_root(r->Ok_0@) == Some(Some(entries_of(d))),
{
    let mut buf: Vec<u8> = Vec::new();
    plist::to_writer_xml(&mut buf, &plist::Value::Dictionary(d))?;
    Ok(buf)
}

/// `plist::Value::from_reader`, from memory: what it reads depends on the bytes alone.
/// Of a value that is no dictionary nothing is kept. Bytes with a date beyond the
/// calendar are left out: it panics on such a date.
#[verifier::external_body]
fn from_bytes(bytes: &Vec<u8>) -> (r: Result<Option<plist::Dictionary>, plist::Error>)
    requires
        !crate::dates::has_late_date(bytes@),
    ensures
        match r {
            Ok(Some(d)) => plist_root(bytes@) == Some(Some(entries_of(d))),
            Ok(None) => plist_root(bytes@) == Some(None::<Seq<EntryView>>),
            Err(_) => plist_root(bytes@) is None,
        },
{
    let value = plist::Value::from_reader(std::io::Cursor::new(bytes))?;
    Ok(value.into_dictionary())
}

/// `plist::Dictionary::get`: the value under a key, if there is one.
#[verifier::external_body]
fn get(d: &plist::Dictionary, key: &str) -> (r: Option<PlistNode>)
    ensures
        match r {
            Some(n) => node_under(entries_of(*d), key@) == Some(n@),
            None => node_under(entries_of(*d), key@) is None,
        },
{
    Some(match d.get(key)? {
        plist::Value::String(s) => PlistNode::Text(s.clone()),
        plist::Value::Boolean(b) => PlistNode::Flag(*b),
        plist::Value::Array(v) => PlistNode::List(
            v.iter().map(|x| x.as_string().map(|s| s.to_owned())).collect(),
        ),
        _ => PlistNode::Other,
    })
}

/// What the daemon is made of.
#[derive(Debug)]
pub struct PlistConfig {
    pub binary: String,
    pub curve: String,
    pub fan: FanSelection,
}

/// Why a property list could not be made or used.
#[derive(Debug, Clone, Copy, PartialEq, Eq, Structural)]
pub enum PlistError {
    Unwritable,
    Unreadable,
    RootNotDictionary,
    NoArguments,
    NoCurve,
}

impl PlistError {
    pub open spec fn words(self) -> Seq<char> {
        match self {
            PlistError::Unwritable => "plist cannot be written"@,
            PlistError::Unreadable => "plist cannot be read"@,
            PlistError::RootNotDictionary => "plist root is not a dictionary"@,
            PlistError::NoArguments => "plist missing ProgramArguments array"@,
            PlistError::NoCurve => "plist ProgramArguments has no --curve flag"@,
        }
    }

    /// The message that describes the error.
    pub fn message(&self) -> (r: &'static str)
        ensures
            r@ == self.words(),
    {
        match self {
            PlistError::Unwritable => "plist cannot be written",
            PlistError::Unreadable => "plist cannot be read",
            PlistError::RootNotDictionary => "plist root is not a dictionary",
            PlistError::NoArguments => "plist missing ProgramArguments array",
            PlistError::NoCurve => "plist ProgramArguments has no --curve flag",
        }
    }
}

impl PlistConfig {
    /// The command line of the daemon.
    pub open spec fn command_line(self) -> Seq<Seq<char>> {
        seq![
            self.binary@,
            "run"@,
            "--curve"@,
            self.curve@,
            "--fan"@,
            self.fan@.words(),
            "--duration-secs"@,
            crate::text::decimal(DAEMON_DURATION_SECS as nat),
        ]
    }

    /// The entries of the daemon's property list.
    pub open spec fn entries(self) -> Seq<EntryView> {
        let line = self.command_line();
        seq![
            EntryView { key: "Label"@, node: NodeView::Text(DAEMON_LABEL@) },
            EntryView {
                key: "ProgramArguments"@,
                node: NodeView::List(Seq::new(line.len(), |i: int| Some(line[i]))),
            },
            EntryView { key: "RunAtLoad"@, node: NodeView::Flag(true) },
            EntryView { key: "KeepAlive"@, node: NodeView::Flag(true) },
            EntryView {
                key: "StandardOutPath"@,
                node: NodeView::Text(LOG_DIR@ + "/stdout.log"@),
            },
            EntryView {
                key: "StandardErrorPath"@,
                node: NodeView::Text(LOG_DIR@ + "/stderr.log"@),
            },
        ]
    }

    /// The command line of the daemon.
    fn arguments(&self) -> (r: Vec<String>)
        ensures
            crate::report::lines_view(r@) == self.command_line(),
    {
        let mut secs = String::new();
        push_decimal(&mut secs, DAEMON_DURATION_SECS);
        let mut v: Vec<String> = Vec::new();
        v.push(self.binary.clone());
        v.push("run".to_owned());
        v.push("--curve".to_owned());
        v.push(self.curve.clone());
        v.push("--fan".to_owned());
        v.push(self.fan.text());
        v.push("--duration-secs".to_owned());
        v.push(secs);
        assert(secs@ =~= crate::text::decimal(DAEMON_DURATION_SECS as nat));
        assert(crate::report::lines_view(v@) =~= self.command_line());
        v
    }
}

/// A text in the log directory.
fn log_path(file: &str) -> (r: String)
    ensures
        r@ == LOG_DIR@ + file@,
{
    let mut s = LOG_DIR.to_owned();
    s.append(file);
    s
}

/// The six keys of the property list differ.
proof fn lemma_keys_differ()
    ensures
        "Label"@.len() == 5,
        "ProgramArguments"@.len() == 16,
        "RunAtLoad"@.len() == 9,
        "KeepAlive"@.len() == 9,
        "StandardOutPath"@.len() == 15,
        "StandardErrorPath"@.len() == 17,
        "RunAtLoad"@ != "KeepAlive"@,
{
    reveal_strlit("Label");
    reveal_strlit("ProgramArguments");
    reveal_strlit("RunAtLoad");
    reveal_strlit("KeepAlive");
    reveal_strlit("StandardOutPath");
    reveal_strlit("StandardErrorPath");
    assert("RunAtLoad"@[0] != "KeepAlive"@[0]);
}

/// A key that is not among the entries has no place.
proof fn lemma_no_place(entries: Seq<EntryView>, key: Seq<char>)
    requires
        forall|i: int| 0 <= i < entries.len() ==> (#[trigger] entries[i]).key != key,
    ensures
        place_of(entries, key) is None,
    decreases entries.len(),
{
    if entries.len() > 0 {
        assert forall|i: int| 0 <= i < entries.drop_last().len() implies (
        #[trigger] entries.drop_last()[i]).key != key by {
            assert(entries.drop_last()[i] == entries[i]);
        }
        lemma_no_place(entries.drop_last(), key);
    }
}

/// What is read of a property list: nothing where it holds a date beyond the calendar.
pub open spec fn readable_root(bytes: Seq<u8>) -> Option<Option<Seq<EntryView>>> {
    if crate::dates::has_late_date(bytes) {
        None
    } else {
        plist_root(bytes)
    }
}

/// The property list of the daemon.
pub fn render_plist(cfg: &PlistConfig) -> (r: Result<Vec<u8>, PlistError>)
    ensures
        r is Ok,
        r->Ok_0@ == plist_xml(cfg.entries()),
        readable_root(r->Ok_0@) == Some(Some(cfg.entries())),
{
    let ghost all = cfg.entries();
    proof {
        lemma_keys_differ();
        lemma_no_place(all.take(0), "Label"@);
        lemma_no_place(all.take(1), "ProgramArguments"@);
        lemma_no_place(all.take(2), "RunAtLoad"@);
        lemma_no_place(all.take(3), "KeepAlive"@);
        lemma_no_place(all.take(4), "StandardOutPath"@);
        lemma_no_place(all.take(5), "StandardErrorPath"@);
        assert(all.take(1) =~= all.take(0).push(all[0]));
        assert(all.take(2) =~= all.take(1).push(all[1]));
        assert(all.take(3) =~= all.take(2).push(all[2]));
        assert(all.take(4) =~= all.take(3).push(all[3]));
        assert(all.take(5) =~= all.take(4).push(all[4]));
        assert(all.take(6) =~= all.take(5).push(all[5]));
        assert(all.take(6) =~= all);
    }
    let mut dict = new_dictionary();
    assert(entries_of(dict) =~= all.take(0));
    insert(&mut dict, "Label", PlistItem::Text(DAEMON_LABEL.to_owned()));
    let arguments = cfg.arguments();
    let ghost listed = PlistItem::Texts(arguments)@;
    proof {
        let line = cfg.command_line();
        assert forall|i: int| 0 <= i < line.len() implies arguments@[i]@ == #[trigger] line[i] by {
            assert(crate::report::lines_view(arguments@)[i] == line[i]);
        }
        assert(arguments@.len() == crate::report::lines_view(arguments@).len());
        assert(listed->List_0 =~= Seq::new(line.len(), |i: int| Some(line[i])));
        assert(listed == all[1].node);
    }
    insert(&mut dict, "ProgramArguments", PlistItem::Texts(arguments));
    insert(&mut dict, "RunAtLoad", PlistItem::Flag(true));
    insert(&mut dict, "KeepAlive", PlistItem::Flag(true));
    insert(&mut dict, "StandardOutPath", PlistItem::Text(log_path("/stdout.log")));
    insert(&mut dict, "StandardErrorPath", PlistItem::Text(log_path("/stderr.log")));
    assert(entries_of(dict) == all);
    assert(all_plain(all));
    match to_xml(dict) {
        Ok(bytes) => Ok(bytes),
        Err(_) => Err(PlistError::Unwritable),
    }
}

/// The argument behind the flag `--curve`, from position `i` on. The argument behind a
/// flag is passed over, whatever it is.
pub open spec fn curve_among(args: Seq<Option<Seq<char>>>, i: int) -> Option<Seq<char>>
    decreases args.len() + 1 - i,
{
    if i < 0 || i >= args.len() {
        None
    } else if args[i] != Some("--curve"@) {
        curve_among(args, i + 1)
    } else if i + 1 < args.len() && args[i + 1] is Some {
        args[i + 1]
    } else {
        curve_among(args, i + 2)
    }
}

/// The argument behind the flag `--curve`.
pub fn find_curve(args: &Vec<Option<String>>) -> (r: Option<String>)
    ensures
        crate::report::maybe_text(r) == curve_among(arguments_view(args@), 0),
{
    let ghost all = arguments_view(args@);
    let mut i: usize = 0;
    while i < args.len()
        invariant
            all == arguments_view(args@),
            curve_among(all, 0) == curve_among(all, i as int),
        decreases args@.len() + 1 - i,
    {
        let hit: bool = match &args[i] {
            Some(s) => same_text(s.as_str(), "--curve"),
            None => false,
        };
        assert(all[i as int] == crate::report::maybe_text(args@[i as int]));
        assert(hit == (all[i as int] == Some("--curve"@)));
        if !hit {
            i = i + 1;
        } else if i < args.len() - 1 {
            assert(all[i + 1] == crate::report::maybe_text(args@[i + 1]));
            if let Some(s) = &args[i + 1] {
                return Some(s.clone());
            }
            i = i + 2;
        } else {
            assert(curve_among(all, i + 2) is None);
            return None;
        }
    }
    None
}

/// What the root of a property list tells of the daemon's curve.
pub open spec fn curve_in(root: Option<Option<Seq<EntryView>>>) -> Result<Seq<char>, PlistError> {
    match root {
        None => Err(PlistError::Unreadable),
        Some(None) => Err(PlistError::RootNotDictionary),
        Some(Some(entries)) => curve_under(node_under(entries, "ProgramArguments"@)),
    }
}

/// What the program's arguments tell of the daemon's curve.
pub open spec fn curve_under(node: Option<NodeView>) -> Result<Seq<char>, PlistError> {
    match node {
        Some(NodeView::List(args)) => match curve_among(args, 0) {
            Some(s) => Ok(s),
            None => Err(PlistError::NoCurve),
        },
        _ => Err(PlistError::NoArguments),
    }
}

/// A path or an error, over the path's characters.
pub open spec fn path_view(r: Result<String, PlistError>) -> Result<Seq<char>, PlistError> {
    match r {
        Ok(s) => Ok(s@),
        Err(e) => Err(e),
    }
}

/// An optional value of a property list, over its view.
pub open spec fn maybe_node(n: Option<PlistNode>) -> Option<NodeView> {
    match n {
        Some(n) => Some(n@),
        None => None,
    }
}

/// The curve that the program's arguments name.
pub fn curve_from_arguments(node: &Option<PlistNode>) -> (r: Result<String, PlistError>)
    ensures
        path_view(r) == curve_under(maybe_node(*node)),
{
    match node {
        Some(PlistNode::List(args)) => match find_curve(args) {
            Some(s) => Ok(s),
            None => Err(PlistError::NoCurve),
        },
        _ => Err(PlistError::NoArguments),
    }
}

/// The curve that a property list runs. One with a date beyond the calendar is not
/// readable.
pub fn parse_curve_path_from_plist(bytes: &Vec<u8>) -> (r: Result<String, PlistError>)
    ensures
        path_view(r) == curve_in(readable_root(bytes@)),
        crate::dates::has_late_date(bytes@) ==> r == Err::<String, PlistError>(
            PlistError::Unreadable,
        ),
{
    if find_late_date(bytes) {
        return Err(PlistError::Unreadable);
    }
    match from_bytes(bytes) {
        Err(_) => Err(PlistError::Unreadable),
        Ok(None) => Err(PlistError::RootNotDictionary),
        Ok(Some(dict)) => {
            let node = get(&dict, "ProgramArguments");
            curve_from_arguments(&node)
        },
    }
}

/// The curve that a daemon was installed with is the one that is read back from its
/// property list, unless the program itself is called `--curve`.
pub proof fn installed_curve_reads_back(cfg: PlistConfig)
    requires
        cfg.binary@ != "--curve"@,
    ensures
        curve_in(Some(Some(cfg.entries()))) == Ok::<Seq<char>, PlistError>(cfg.curve@),
{
    let all = cfg.entries();
    let line = cfg.command_line();
    let args = Seq::new(line.len(), |i: int| Some(line[i]));
    lemma_keys_differ();
    lemma_no_place(all.take(1), "ProgramArguments"@);
    assert(all.take(2).drop_last() =~= all.take(1));
    assert(place_of(all.take(2), "ProgramArguments"@) == Some(1int));
    lemma_place_stays(all, "ProgramArguments"@, 2);
    reveal_strlit("run");
    reveal_strlit("--curve");
    assert(args[0] == Some(cfg.binary@));
    assert(args[1] == Some("run"@));
    assert(args[2] == Some("--curve"@));
    assert(args[3] == Some(cfg.curve@));
    reveal_with_fuel(curve_among, 4);
    assert(curve_among(args, 0) == Some(cfg.curve@));
}

/// A key that has its place early in a list keeps it.
proof fn lemma_place_stays(entries: Seq<EntryView>, key: Seq<char>, k: int)
    requires
        0 <= k <= entries.len(),
        place_of(entries.take(k), key) is Some,
    ensures
        place_of(entries, key) == place_of(entries.take(k), key),
    decreases entries.len(),
{
    if k == entries.len() {
        assert(entries.take(k) =~= entries);
    } else {
        assert(entries.drop_last().take(k) =~= entries.take(k));
        lemma_place_stays(entries.drop_last(), key, k);
    }
}

/// Where the program is looked for if nothing else is known.
pub const DEFAULT_BINARY: &'static str = "/usr/local/bin/msf";

/// The program that the daemon runs: the one asked for, else the one that runs now,
/// else the usual one. What runs now is asked for only where it is needed.
pub fn resolve_binary_with<F: Fn() -> Option<String>>(arg: Option<String>, current: F) -> (r:
    String)
    requires
        arg is None ==> call_requires(current, ()),
    ensures
        match arg {
            Some(a) => r == a,
            None => exists|found: Option<String>|
                call_ensures(current, (), found) && r@ == match found {
                    Some(c) => c@,
                    None => DEFAULT_BINARY@,
                },
        },
{
    match arg {
        Some(a) => a,
        None => {
            let found = current();
            match found {
                Some(c) => c,
                None => DEFAULT_BINARY.to_owned(),
            }
        },
    }
}

/// The program that the daemon runs, where `current` is the one that runs now.
pub fn resolve_binary(arg: Option<String>, current: Option<String>) -> (r: String)
    ensures
        r@ == match arg {
            Some(a) => a@,
            None => match current {
                Some(c) => c@,
                None => DEFAULT_BINARY@,
            },
        },
{
    match arg {
        Some(a) => a,
        None => match current {
            Some(c) => c,
            None => DEFAULT_BINARY.to_owned(),
        },
    }
}

/// What `launchctl` is asked to do.
#[derive(Debug, Clone, Copy, PartialEq, Eq, Structural)]
pub enum Launchctl {
    Bootout,
    Bootstrap,
    Load,
    Unload,
    Print,
}

impl Launchctl {
    pub open spec fn words(self) -> Seq<Seq<char>> {
        match self {
            Launchctl::Bootout => seq!["bootout"@, "system/"@ + DAEMON_LABEL@],
            Launchctl::Bootstrap => seq!["bootstrap"@, "system"@, PLIST_PATH@],
            Launchctl::Load => seq!["load"@, PLIST_PATH@],
            Launchctl::Unload => seq!["unload"@, PLIST_PATH@],
            Launchctl::Print => seq!["print"@, "system/"@ + DAEMON_LABEL@],
        }
    }

    /// The arguments that `launchctl` is called with.
    pub fn arguments(&self) -> (r: Vec<String>)
        ensures
            crate::report::lines_view(r@) == self.words(),
    {
        let mut service = "system/".to_owned();
        service.append(DAEMON_LABEL);
        let mut v: Vec<String> = Vec::new();
        match self {
            Launchctl::Bootout => {
                v.push("bootout".to_owned());
                v.push(service);
            },
            Launchctl::Bootstrap => {
                v.push("bootstrap".to_owned());
                v.push("system".to_owned());
                v.push(PLIST_PATH.to_owned());
            },
            Launchctl::Load => {
                v.push("load".to_owned());
                v.push(PLIST_PATH.to_owned());
            },
            Launchctl::Unload => {
                v.push("unload".to_owned());
                v.push(PLIST_PATH.to_owned());
            },
            Launchctl::Print => {
                v.push("print".to_owned());
                v.push(service);
            },
        }
        assert(crate::report::lines_view(v@) =~= self.words());
        v
    }
}

/// What came of a step.
#[derive(Debug, Clone, Copy, PartialEq, Eq, Structural)]
pub enum Outcome {
    /// It was done, or the answer is yes.
    Done,
    /// It ran without success, or the answer is no.
    No,
    /// It could not be carried out.
    Failed,
}

/// The next step of an installation.
#[derive(Debug, Clone, Copy, PartialEq, Eq, Structural)]
pub enum InstallStep {
    /// Only the root user may install.
    NeedRoot,
    /// See that an older property list may be overwritten.
    CheckOverwrite,
    /// Find the absolute path of the curve.
    ResolveCurve,
    /// Make the log directory and give it to root.
    PrepareLogs,
    /// See whether there is an older property list.
    LookForPlist,
    /// Stop the older daemon. It does not matter what comes of it.
    Bootout,
    WritePlist,
    Bootstrap,
    /// The older way to start a daemon.
    Load,
    Installed,
    /// Both ways to start the daemon failed.
    LaunchFailed,
    /// A step failed, and the error is its own.
    Aborted,
}

impl InstallStep {
    /// The step that follows.
    pub open spec fn following(self, outcome: Outcome) -> InstallStep {
        match self {
            InstallStep::CheckOverwrite => if outcome == Outcome::Done {
                InstallStep::ResolveCurve
            } else {
                InstallStep::Aborted
            },
            InstallStep::ResolveCurve => if outcome == Outcome::Done {
                InstallStep::PrepareLogs
            } else {
                InstallStep::Aborted
            },
            InstallStep::PrepareLogs => if outcome == Outcome::Done {
                InstallStep::LookForPlist
            } else {
                InstallStep::Aborted
            },
            InstallStep::LookForPlist => if outcome == Outcome::Done {
                InstallStep::Bootout
            } else {
                InstallStep::WritePlist
            },
            InstallStep::Bootout => InstallStep::WritePlist,
            InstallStep::WritePlist => if outcome == Outcome::Done {
                InstallStep::Bootstrap
            } else {
                InstallStep::Aborted
            },
            InstallStep::Bootstrap => match outcome {
                Outcome::Done => InstallStep::Installed,
                Outcome::No => InstallStep::Load,
                Outcome::Failed => InstallStep::Aborted,
            },
            InstallStep::Load => match outcome {
                Outcome::Done => InstallStep::Installed,
                Outcome::No => InstallStep::LaunchFailed,
                Outcome::Failed => InstallStep::Aborted,
            },
            _ => self,
        }
    }

    /// How many steps may still follow.
    pub open spec fn steps_left(self) -> nat {
        match self {
            InstallStep::CheckOverwrite => 8,
            InstallStep::ResolveCurve => 7,
            InstallStep::PrepareLogs => 6,
            InstallStep::LookForPlist => 5,
            InstallStep::Bootout => 4,
            InstallStep::WritePlist => 3,
            InstallStep::Bootstrap => 2,
            InstallStep::Load => 1,
            _ => 0,
        }
    }

    /// The first step.
    pub fn first(root: bool) -> (r: InstallStep)
        ensures
            r == if root {
                InstallStep::CheckOverwrite
            } else {
                InstallStep::NeedRoot
            },
    {
        if root {
            InstallStep::CheckOverwrite
        } else {
            InstallStep::NeedRoot
        }
    }

    /// The step that follows.
    pub fn after(&self, outcome: Outcome) -> (r: InstallStep)
        ensures
            r == self.following(outcome),
    {
        match self {
            InstallStep::CheckOverwrite => match outcome {
                Outcome::Done => InstallStep::ResolveCurve,
                _ => InstallStep::Aborted,
            },
            InstallStep::ResolveCurve => match outcome {
                Outcome::Done => InstallStep::PrepareLogs,
                _ => InstallStep::Aborted,
            },
            InstallStep::PrepareLogs => match outcome {
                Outcome::Done => InstallStep::LookForPlist,
                _ => InstallStep::Aborted,
            },
            InstallStep::LookForPlist => match outcome {
                Outcome::Done => InstallStep::Bootout,
                _ => InstallStep::WritePlist,
            },
            InstallStep::Bootout => InstallStep::WritePlist,
            InstallStep::WritePlist => match outcome {
                Outcome::Done => InstallStep::Bootstrap,
                _ => InstallStep::Aborted,
            },
            InstallStep::Bootstrap => match outcome {
                Outcome::Done => InstallStep::Installed,
                Outcome::No => InstallStep::Load,
                Outcome::Failed => InstallStep::Aborted,
            },
            InstallStep::Load => match outcome {
                Outcome::Done => InstallStep::Installed,
                Outcome::No => InstallStep::LaunchFailed,
                Outcome::Failed => InstallStep::Aborted,
            },
            _ => *self,
        }
    }
}

/// Every installation ends: each step that is not the last one leaves fewer behind it.
pub proof fn installing_ends(step: InstallStep, outcome: Outcome)
    ensures
        step.steps_left() > 0 ==> step.following(outcome).steps_left() < step.steps_left(),
        step.steps_left() == 0 ==> step.following(outcome) == step,
{
}

/// The step that an installation stands at after a row of outcomes.
pub open spec fn install_state(root: bool, outcomes: Seq<Outcome>) -> InstallStep
    decreases outcomes.len(),
{
    if outcomes.len() == 0 {
        if root {
            InstallStep::CheckOverwrite
        } else {
            InstallStep::NeedRoot
        }
    } else {
        install_state(root, outcomes.drop_last()).following(outcomes.last())
    }
}

/// The place of the outcome of writing the property list: behind that of stopping an
/// older daemon, where there was one.
pub open spec fn write_place(outcomes: Seq<Outcome>) -> int {
    if outcomes[3] == Outcome::Done {
        5
    } else {
        4
    }
}

/// The steps that come behind the making of the log directory.
pub open spec fn behind_logs(step: InstallStep) -> bool {
    match step {
        InstallStep::LookForPlist => true,
        InstallStep::Bootout => true,
        InstallStep::WritePlist => true,
        InstallStep::Bootstrap => true,
        InstallStep::Load => true,
        InstallStep::Installed => true,
        InstallStep::LaunchFailed => true,
        _ => false,
    }
}

/// Nothing is touched before all was looked at. The log directory is made only for the
/// root user, if the property list may be overwritten and the curve was found; an older
/// daemon is stopped, and a property list written, only if the log directory has its
/// place; an older daemon is stopped only if there is a property list of it; the daemon
/// is started only if its property list was written; and it counts as installed only if it
/// was started in one of the two ways, the second one only where the first had no success.
pub proof fn nothing_is_written_unchecked(root: bool, outcomes: Seq<Outcome>)
    ensures
        ({
            let s = install_state(root, outcomes);
            let w = write_place(outcomes);
            &&& !root ==> s == InstallStep::NeedRoot
            &&& s == InstallStep::CheckOverwrite ==> outcomes.len() == 0
            &&& s == InstallStep::ResolveCurve ==> outcomes.len() == 1 && outcomes[0]
                == Outcome::Done
            &&& s == InstallStep::PrepareLogs ==> outcomes.len() == 2 && outcomes[0]
                == Outcome::Done && outcomes[1] == Outcome::Done
            &&& behind_logs(s) ==> outcomes.len() >= 3 && outcomes[0] == Outcome::Done
                && outcomes[1] == Outcome::Done && outcomes[2] == Outcome::Done
            &&& s == InstallStep::LookForPlist ==> outcomes.len() == 3
            &&& s == InstallStep::Bootout ==> outcomes.len() == 4 && outcomes[3] == Outcome::Done
            &&& s == InstallStep::WritePlist ==> outcomes.len() == w
            &&& s == InstallStep::Bootstrap ==> outcomes.len() == w + 1 && outcomes[w]
                == Outcome::Done
            &&& s == InstallStep::Load ==> outcomes.len() == w + 2 && outcomes[w] == Outcome::Done
                && outcomes[w + 1] == Outcome::No
            &&& s == InstallStep::Installed ==> outcomes.len() >= w + 2 && outcomes[w]
                == Outcome::Done && (outcomes[w + 1] == Outcome::Done || (outcomes.len() >= w + 3
                && outcomes[w + 1] == Outcome::No && outcomes[w + 2] == Outcome::Done))
            &&& s == InstallStep::LaunchFailed ==> outcomes.len() >= w + 3 && outcomes[w]
                == Outcome::Done && outcomes[w + 1] == Outcome::No && outcomes[w + 2]
                == Outcome::No
        }),
    decreases outcomes.len(),
{
    if outcomes.len() > 0 {
        nothing_is_written_unchecked(root, outcomes.drop_last());
    }
}

/// The next step of a removal.
#[derive(Debug, Clone, Copy, PartialEq, Eq, Structural)]
pub enum UninstallStep {
    /// Only the root user may remove the daemon.
    NeedRoot,
    /// Stop the daemon. It does not matter what comes of it.
    Bootout,
    /// Stop it the older way. It does not matter what comes of it.
    Unload,
    LookForPlist,
    RemovePlist,
    Removed,
    AlreadyAbsent,
    /// A step failed, and the error is its own.
    Aborted,
}

impl UninstallStep {
    /// The step that follows.
    pub open spec fn following(self, outcome: Outcome) -> UninstallStep {
        match self {
            UninstallStep::Bootout => UninstallStep::Unload,
            UninstallStep::Unload => UninstallStep::LookForPlist,
            UninstallStep::LookForPlist => if outcome == Outcome::Done {
                UninstallStep::RemovePlist
            } else {
                UninstallStep::AlreadyAbsent
            },
            UninstallStep::RemovePlist => if outcome == Outcome::Done {
                UninstallStep::Removed
            } else {
                UninstallStep::Aborted
            },
            _ => self,
        }
    }

    /// The first step.
    pub fn first(root: bool) -> (r: UninstallStep)
        ensures
            r == if root {
                UninstallStep::Bootout
            } else {
                UninstallStep::NeedRoot
            },
    {
        if root {
            UninstallStep::Bootout
        } else {
            UninstallStep::NeedRoot
        }
    }

    /// The step that follows.
    pub fn after(&self, outcome: Outcome) -> (r: UninstallStep)
        ensures
            r == self.following(outcome),
    {
        match self {
            UninstallStep::Bootout => UninstallStep::Unload,
            UninstallStep::Unload => UninstallStep::LookForPlist,
            UninstallStep::LookForPlist => match outcome {
                Outcome::Done => UninstallStep::RemovePlist,
                _ => UninstallStep::AlreadyAbsent,
            },
            UninstallStep::RemovePlist => match outcome {
                Outcome::Done => UninstallStep::Removed,
                _ => UninstallStep::Aborted,
            },
            _ => *self,
        }
    }
}

/// A removal ends after four steps at most, and without a property list it has nothing
/// to remove, so that it can be repeated.
pub proof fn removing_ends(a: Outcome, b: Outcome, c: Outcome, d: Outcome)
    ensures
        ({
            let found = UninstallStep::Bootout.following(a).following(b).following(c);
            &&& c != Outcome::Done ==> found == UninstallStep::AlreadyAbsent
            &&& c == Outcome::Done ==> found.following(d) == if d == Outcome::Done {
                UninstallStep::Removed
            } else {
                UninstallStep::Aborted
            }
        }),
{
}

/// What is shown after an installation.
pub open spec fn installed_words() -> Seq<Seq<char>> {
    seq![
        "installed and loaded: "@ + PLIST_PATH@,
        "logs:                  "@ + LOG_DIR@ + "/{stdout,stderr}.log"@,
        "check:                 msf status"@,
    ]
}

/// What is shown after an installation.
pub fn installed_lines() -> (r: Vec<String>)
    ensures
        crate::report::lines_view(r@) == installed_words(),
{
    let mut first = "installed and loaded: ".to_owned();
    first.append(PLIST_PATH);
    let mut second = "logs:                  ".to_owned();
    second.append(LOG_DIR);
    second.append("/{stdout,stderr}.log");
    let mut v: Vec<String> = Vec::new();
    v.push(first);
    v.push(second);
    v.push("check:                 msf status".to_owned());
    assert(crate::report::lines_view(v@) =~= installed_words());
    v
}

/// What is shown after a removal.
pub fn uninstalled_line(removed: bool) -> (r: String)
    ensures
        r@ == if removed {
            "removed: "@ + PLIST_PATH@
        } else {
            "(already absent: "@ + PLIST_PATH@ + ")"@
        },
{
    let mut s = String::new();
    if removed {
        s.append("removed: ");
        s.append(PLIST_PATH);
        assert(s@ =~= "removed: "@ + PLIST_PATH@);
    } else {
        s.append("(already absent: ");
        s.append(PLIST_PATH);
        s.append(")");
        assert(s@ =~= "(already absent: "@ + PLIST_PATH@ + ")"@);
    }
    s
}

impl InstallStep {
    /// The exit code of an installation that ends at once: only for want of the rights
    /// of the root user.
    pub fn exit_code(&self) -> (r: Option<i32>)
        ensures
            r == if *self == InstallStep::NeedRoot {
                Some(NOT_ROOT_EXIT_CODE)
            } else {
                None
            },
    {
        match self {
            InstallStep::NeedRoot => Some(NOT_ROOT_EXIT_CODE),
            _ => None,
        }
    }
}

impl UninstallStep {
    /// The exit code of a removal that ends at once: only for want of the rights of the
    /// root user.
    pub fn exit_code(&self) -> (r: Option<i32>)
        ensures
            r == if *self == UninstallStep::NeedRoot {
                Some(NOT_ROOT_EXIT_CODE)
            } else {
                None
            },
    {
        match self {
            UninstallStep::NeedRoot => Some(NOT_ROOT_EXIT_CODE),
            _ => None,
        }
    }
}

/// What a user who is not root is told.
pub const INSTALL_NEEDS_ROOT: &'static str =
    "msf install requires root (writes /Library/LaunchDaemons/). Re-run with sudo.";

/// What a user who is not root is told.
pub const UNINSTALL_NEEDS_ROOT: &'static str =
    "msf uninstall requires root (removes /Library/LaunchDaemons/). Re-run with sudo.";

/// How the daemon is doing.
#[derive(Debug)]
pub struct StatusReport {
    pub plist_present: bool,
    pub loaded: bool,
    pub curve_path: Option<String>,
}

impl StatusReport {
    /// Sums up what was found: whether there is a property list, what is in it where it
    /// could be read, and whether launchd knows the daemon.
    pub fn of(plist_present: bool, contents: &Option<Vec<u8>>, loaded: bool) -> (r: StatusReport)
        ensures
            r.plist_present == plist_present,
            r.loaded == loaded,
            crate::report::maybe_text(r.curve_path) == if plist_present && *contents is Some {
                match curve_in(readable_root(contents->0@)) {
                    Ok(s) => Some(s),
                    Err(_) => None,
                }
            } else {
                None
            },
    {
        let mut curve_path: Option<String> = None;
        if plist_present {
            if let Some(bytes) = contents {
                if let Ok(s) = parse_curve_path_from_plist(bytes) {
                    curve_path = Some(s);
                }
            }
        }
        StatusReport { plist_present, loaded, curve_path }
    }

    pub open spec fn words(self) -> Seq<Seq<char>> {
        let head = seq![
            "plist:  "@ + PLIST_PATH@ + if self.plist_present {
                " (present)"@
            } else {
                " (absent)"@
            },
            "loaded: "@ + if self.loaded {
                "true"@
            } else {
                "false"@
            },
        ];
        match self.curve_path {
            Some(c) => head.push("curve:  "@ + c@),
            None => head,
        }
    }

    /// The lines that the report is shown as.
    pub fn describe(&self) -> (r: Vec<String>)
        ensures
            crate::report::lines_view(r@) == self.words(),
    {
        let mut first = "plist:  ".to_owned();
        first.append(PLIST_PATH);
        first.append(
            if self.plist_present {
                " (present)"
            } else {
                " (absent)"
            },
        );
        let mut second = "loaded: ".to_owned();
        second.append(
            if self.loaded {
                "true"
            } else {
                "false"
            },
        );
        let mut v: Vec<String> = Vec::new();
        v.push(first);
        v.push(second);
        if let Some(c) = &self.curve_path {
            let mut third = "curve:  ".to_owned();
            third.append(c.as_str());
            v.push(third);
        }
        assert(crate::report::lines_view(v@) =~= self.words());
        v
    }
}

} // verus!
