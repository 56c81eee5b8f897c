//! The daemon: its property list, its installation and its status.
use msf::daemon::{
    curve_from_arguments, find_curve, installed_lines, parse_curve_path_from_plist, render_plist,
    resolve_binary, resolve_binary_with, uninstalled_line, InstallStep, Launchctl, Outcome,
    PlistConfig, PlistError, PlistNode, StatusReport, UninstallStep, DAEMON_DURATION_SECS,
    DAEMON_LABEL, INSTALL_NEEDS_ROOT, LOG_DIR, PLIST_PATH, UNINSTALL_NEEDS_ROOT,
};
use msf::daemon::Outcome::{Done, Failed, No};
use msf::dates::find_late_date;
use msf::selection::FanSelection;

fn config(binary: &str, curve: &str, fan: FanSelection) -> PlistConfig {
    PlistConfig { binary: binary.to_string(), curve: curve.to_string(), fan }
}

fn arguments(args: &[Option<&str>]) -> Vec<Option<String>> {
    args.iter().map(|a| a.map(|s| s.to_string())).collect()
}

#[test]
fn render_plist_round_trips_through_parser() {
    let cfg = config("/usr/local/bin/msf", "/etc/msf/profile.toml", FanSelection::Only(vec![0]));
    let body = render_plist(&cfg).unwrap();
    let value = plist::Value::from_reader(std::io::Cursor::new(&body)).unwrap();
    let dict = value.as_dictionary().unwrap();
    assert_eq!(dict.get("Label").unwrap().as_string(), Some(DAEMON_LABEL));
    assert_eq!(dict.get("RunAtLoad").unwrap().as_boolean(), Some(true));
    assert_eq!(dict.get("KeepAlive").unwrap().as_boolean(), Some(true));
    let args = dict.get("ProgramArguments").unwrap().as_array().unwrap();
    assert_eq!(args[0].as_string().unwrap(), "/usr/local/bin/msf");
    assert_eq!(args[1].as_string().unwrap(), "run");
    assert_eq!(args[2].as_string().unwrap(), "--curve");
    assert_eq!(args[3].as_string().unwrap(), "/etc/msf/profile.toml");
    assert_eq!(args[4].as_string().unwrap(), "--fan");
    assert_eq!(args[5].as_string().unwrap(), "0");
    assert_eq!(args[6].as_string().unwrap(), "--duration-secs");
    assert_eq!(args[7].as_string().unwrap(), DAEMON_DURATION_SECS.to_string());
}

#[test]
fn render_plist_names_its_logs_and_nothing_else() {
    let cfg = config("/bin/msf", "/c.toml", FanSelection::All);
    let body = render_plist(&cfg).unwrap();
    let value = plist::Value::from_reader(std::io::Cursor::new(&body)).unwrap();
    let dict = value.as_dictionary().unwrap();
    let keys: Vec<&String> = dict.keys().collect();
    assert_eq!(
        keys,
        vec![
            "Label",
            "ProgramArguments",
            "RunAtLoad",
            "KeepAlive",
            "StandardOutPath",
            "StandardErrorPath"
        ]
    );
    assert_eq!(
        dict.get("StandardOutPath").unwrap().as_string(),
        Some("/var/log/msf/stdout.log")
    );
    assert_eq!(
        dict.get("StandardErrorPath").unwrap().as_string(),
        Some("/var/log/msf/stderr.log")
    );
    let args = dict.get("ProgramArguments").unwrap().as_array().unwrap();
    assert_eq!(args.len(), 8);
    assert_eq!(args[5].as_string(), Some("all"));
    assert_eq!(args[7].as_string(), Some("31536000"));
    assert!(body.starts_with(b"<?xml"));
}

#[test]
fn parse_curve_path_extracts_curve_arg() {
    let cfg = config("/usr/local/bin/msf", "/etc/msf/profile.toml", FanSelection::Only(vec![1]));
    let body = render_plist(&cfg).unwrap();
    let recovered = parse_curve_path_from_plist(&body).unwrap();
    assert_eq!(recovered, "/etc/msf/profile.toml");
}

#[test]
fn any_curve_path_reads_back() {
    for curve in [
        "",
        " ",
        "/a b/c.toml",
        "<&>\"'",
        "&amp;",
        "\r\n\ttab",
        "\u{e9}\u{4e2d}\u{1f300}",
        "--curve",
        "\u{0}\u{1}\u{fffe}\u{feff}",
        "]]>",
        "<!-- x -->",
        "<date>9999-12-31T23:59:59-01:00</date>",
        "a:date/9999-12-31-01",
    ] {
        let cfg = config("/bin/<msf>", curve, FanSelection::Only(vec![0, 1]));
        let body = render_plist(&cfg).unwrap();
        assert_eq!(parse_curve_path_from_plist(&body).unwrap(), curve);
    }
}

#[test]
fn a_program_called_like_the_flag_is_read_otherwise() {
    let cfg = config("--curve", "/c.toml", FanSelection::All);
    let body = render_plist(&cfg).unwrap();
    assert_eq!(parse_curve_path_from_plist(&body).unwrap(), "run");
}

fn xml(body: &str) -> Vec<u8> {
    format!("<?xml version=\"1.0\"?><plist version=\"1.0\">{body}</plist>").into_bytes()
}

#[test]
fn what_is_no_usable_plist_is_refused() {
    assert_eq!(parse_curve_path_from_plist(&Vec::new()), Err(PlistError::Unreadable));
    assert_eq!(parse_curve_path_from_plist(&xml("<dict>")), Err(PlistError::Unreadable));
    assert_eq!(
        parse_curve_path_from_plist(&xml("<array></array>")),
        Err(PlistError::RootNotDictionary)
    );
    assert_eq!(
        parse_curve_path_from_plist(&xml("<dict></dict>")),
        Err(PlistError::NoArguments)
    );
    assert_eq!(
        parse_curve_path_from_plist(&xml(
            "<dict><key>ProgramArguments</key><string>--curve</string></dict>"
        )),
        Err(PlistError::NoArguments)
    );
    assert_eq!(
        parse_curve_path_from_plist(&xml(
            "<dict><key>ProgramArguments</key><array><string>x</string></array></dict>"
        )),
        Err(PlistError::NoCurve)
    );
    assert_eq!(
        parse_curve_path_from_plist(&xml(
            "<dict><key>ProgramArguments</key><array><string>--curve</string><true/>\
             <string>--curve</string><string>c</string></array></dict>"
        )),
        Ok("c".to_string())
    );
}

fn dated(date: &str) -> Vec<u8> {
    xml(&format!(
        "<dict><key>D</key>{date}<key>ProgramArguments</key>\
         <array><string>--curve</string><string>c</string></array></dict>"
    ))
}

#[test]
fn dates_within_the_calendar_are_read() {
    for date in [
        "<date>2024-02-29T12:00:00Z</date>",
        "<date>0000-01-01T00:00:00+01:00</date>",
        "<date>9998-12-31T23:59:59-01:00</date>",
        "<date>9999-12-30T23:59:59-23:59</date>",
        "<date>9999-12-31T23:59:59Z</date>",
        "<date>9999-12-31-23:59:59z</date>",
        "<date>9999-12-31T23:59:59.25+23:59</date>",
        "<date>9999-12-31T00:00:00-01:00</date>",
        "<date>9999-12-31T22:59:59.999-01:00</date>",
        "<date>9999-12-31T23:59:59-00:00</date>",
        "<date >2024-02-29T12:00:00Z</date>",
        "<date a=\"</\" b='>'>2024-02-29T12:00:00Z</date>",
        "<x:date>2024-02-29T12:00:00Z</x:date>",
        "<date>&#50;024-02-29T12:00:00&#x5a;</date>",
        "<date>20<!-- \" ' -->24-02-29<?pi \"?>T12:00:00Z</date>",
        "<date>2024-02-29<![CDATA[9999-12-31]]>T12:00:00Z</date>",
        "<date>2024-02-29&unknown;T12:00:00Z</date>",
        "<!-- <date>9999-12-31T23:59:59-01:00</date> --><true/>",
        "<!-- it's \"quoted --><true/>",
        "<?pi <date>9999-12-31T23:59:59-01:00</date>?><true/>",
        "<![CDATA[<date>9999-12-31T23:59:59-01:00</date>]]><true/>",
        "<true a=\"<date>9999-12-31T23:59:59-01:00</date>\"/>",
        "<string>:date/ 9999-12-31T23:59:59-01:00</string>",
        "<string>&lt;date>9999-12-31T23:59:59-01:00&#60;/date></string>",
        "<string>\u{e9} \" ' &#233; &#x1F300;</string>",
        "<data>AAAA</data>",
        "<integer>9999</integer>",
        "<real>1.5</real>",
        "<array/>",
        "<dict><key>date</key><string/></dict>",
    ] {
        assert!(!find_late_date(&dated(date)), "{date}");
        assert_eq!(parse_curve_path_from_plist(&dated(date)), Ok("c".to_string()), "{date}");
    }
    // What is no date is refused by the reader itself.
    for date in [
        "<date>yesterday</date>",
        "<date/>",
        "<date></date>",
        "<date>9999-12-31</date>",
        "<date>9999-12-31T23:59:59-01:00",
        "<date>9999-12-31T23:59:59-01:00<b></b></date>",
        "<date>9999-12-31T23:59:59.-01:00</date>",
        "<date>9999-12-31\u{e9}23:59:59-01:00</date>",
        "<datum>9999-12-31T23:59:59-01:00</datum>",
    ] {
        assert!(!find_late_date(&dated(date)), "{date}");
        assert_eq!(
            parse_curve_path_from_plist(&dated(date)),
            Err(PlistError::Unreadable),
            "{date}"
        );
    }
}

#[test]
fn dates_beyond_the_calendar_are_not_read() {
    for date in [
        "<date>9999-12-31T23:59:59-01:00</date>",
        "<date>9999-12-31T00:00:00-24:00</date>",
        "<date>9999-12-31T00:01:00-23:59</date>",
        "<date>9999-12-31 23:00:00.5-01:00</date>",
        "<date >9999-12-31T23:59:59-01:00</date>",
        "<date a=\"</\">9999-12-31T23:59:59-01:00</date>",
        "<x:date>9999-12-31T23:59:59-01:00</x:date>",
        "<date>&#57;999-12-31T23:59:59-01:00</date>",
        "<date>&#x39;999-12-31&amp;23:59:59-01:00</date>",
        "<date>99<!-- -->99-12-31T23:59:59-01:00</date>",
        "<date>9999-12-31T23:59:59&#0045;01:00</date>",
        "<date>9999-12-31T23:&nothing;59:59-01:00</date>",
        "<x\">\":date>9999-12-31T23:59:59-01:00</x\">\":date>",
        "<array><date>2024-02-29T12:00:00Z</date><date>9999-12-31T23:59:59-01:00</date></array>",
    ] {
        assert!(find_late_date(&dated(date)), "{date}");
        assert_eq!(
            parse_curve_path_from_plist(&dated(date)),
            Err(PlistError::Unreadable),
            "{date}"
        );
    }
    let late = dated("<date>9999-12-31T23:59:59-01:00</date>");
    assert_eq!(StatusReport::of(true, &Some(late), true).curve_path, None);
}

#[test]
fn the_prologue_of_a_plist_hides_no_date() {
    let body = "<plist><dict><key>ProgramArguments</key><array><string>--curve</string>\
                <string>c</string></array></dict></plist>";
    let late = "<date>9999-12-31T23:59:59-01:00</date>";
    for prologue in [
        String::new(),
        format!("<!-- it's \"here\" {late} -->"),
        format!("<?xml version=\"1.0\"?>\n<!DOCTYPE plist SYSTEM \"a>{late}\">"),
        format!("<!doctype plist [<!ENTITY a \"]>{late}\"><!-- ]> {late} --><!ELEMENT b \"> ]>"),
        format!("<!DOCTYPE plist [<?pi ]> {late}?><!ATTLIST a b CDATA '>]'><!NOTATION n ']>'>x] >"),
        format!("<!DOCTYPE plist [<!other {late}>] >"),
        "\u{feff} \r\n\t\u{a0}".to_string(),
        "&#32;&#x85;".to_string(),
    ] {
        let bytes = format!("{prologue}{body}").into_bytes();
        assert!(!find_late_date(&bytes), "{prologue}");
        assert_eq!(parse_curve_path_from_plist(&bytes), Ok("c".to_string()), "{prologue}");
        let bytes = format!("{prologue}<plist>{late}</plist>").into_bytes();
        assert!(find_late_date(&bytes), "{prologue}");
        assert_eq!(parse_curve_path_from_plist(&bytes), Err(PlistError::Unreadable), "{prologue}");
    }
}

#[test]
fn plists_of_other_kinds_are_read() {
    let old = b"// <date>9999-12-31T23:59:59-01:00</date>\n\
                { ProgramArguments = (\"--curve\", \"<date>9999-12-31T23:59:59-01:00</date>\"); }";
    assert!(!find_late_date(&old.to_vec()));
    assert_eq!(
        parse_curve_path_from_plist(&old.to_vec()),
        Ok("<date>9999-12-31T23:59:59-01:00</date>".to_string())
    );
    let mut dict = plist::Dictionary::new();
    dict.insert(
        "ProgramArguments".to_string(),
        plist::Value::Array(vec![
            plist::Value::String("--curve".to_string()),
            plist::Value::String("<date>9999-12-31T23:59:59-01:00</date>".to_string()),
        ]),
    );
    let mut bytes: Vec<u8> = Vec::new();
    plist::to_writer_binary(&mut bytes, &plist::Value::Dictionary(dict)).unwrap();
    assert!(!find_late_date(&bytes));
    assert_eq!(
        parse_curve_path_from_plist(&bytes),
        Ok("<date>9999-12-31T23:59:59-01:00</date>".to_string())
    );
}

#[test]
fn plist_errors_have_messages() {
    assert_eq!(PlistError::Unwritable.message(), "plist cannot be written");
    assert_eq!(PlistError::Unreadable.message(), "plist cannot be read");
    assert_eq!(PlistError::RootNotDictionary.message(), "plist root is not a dictionary");
    assert_eq!(PlistError::NoArguments.message(), "plist missing ProgramArguments array");
    assert_eq!(PlistError::NoCurve.message(), "plist ProgramArguments has no --curve flag");
}

#[test]
fn the_curve_is_the_argument_behind_the_flag() {
    let flag = Some("--curve");
    assert_eq!(find_curve(&arguments(&[])), None);
    assert_eq!(find_curve(&arguments(&[flag])), None);
    assert_eq!(find_curve(&arguments(&[Some("a"), flag, Some("b")])), Some("b".to_string()));
    assert_eq!(find_curve(&arguments(&[flag, None, Some("b")])), None);
    assert_eq!(find_curve(&arguments(&[flag, None, flag, Some("b")])), Some("b".to_string()));
    assert_eq!(find_curve(&arguments(&[flag, flag, Some("b")])), Some("--curve".to_string()));
    assert_eq!(find_curve(&arguments(&[None, Some("x"), flag])), None);
    assert_eq!(curve_from_arguments(&None), Err(PlistError::NoArguments));
    assert_eq!(curve_from_arguments(&Some(PlistNode::Flag(true))), Err(PlistError::NoArguments));
    assert_eq!(
        curve_from_arguments(&Some(PlistNode::List(arguments(&[flag, Some("p")])))),
        Ok("p".to_string())
    );
}

#[test]
fn resolve_binary_uses_arg_when_given() {
    let p = "/custom/msf".to_string();
    assert_eq!(resolve_binary(Some(p.clone()), None), p);
}

#[test]
fn resolve_binary_with_uses_current_when_arg_is_none() {
    let v = resolve_binary_with(None, || Some("/cur/msf".to_string()));
    assert_eq!(v, "/cur/msf");
}

#[test]
fn resolve_binary_with_falls_back_when_current_fails() {
    let v = resolve_binary_with(None, || None);
    assert_eq!(v, "/usr/local/bin/msf");
}

#[test]
fn resolve_binary_with_prefers_arg_over_current() {
    let v = resolve_binary_with(Some("/arg/msf".to_string()), || Some("/cur/msf".to_string()));
    assert_eq!(v, "/arg/msf");
}

#[test]
fn resolve_binary_falls_back_as_the_general_form_does() {
    assert_eq!(resolve_binary(None, Some("/cur/msf".to_string())), "/cur/msf");
    assert_eq!(resolve_binary(None, None), "/usr/local/bin/msf");
}

fn installed(root: bool, outcomes: &[Outcome]) -> InstallStep {
    outcomes.iter().fold(InstallStep::first(root), |s, o| s.after(*o))
}

#[test]
fn an_installation_runs_through() {
    assert_eq!(installed(true, &[Done, Done, Done]), InstallStep::LookForPlist);
    assert_eq!(installed(true, &[Done, Done, Done, No]), InstallStep::WritePlist);
    assert_eq!(installed(true, &[Done, Done, Done, Done]), InstallStep::Bootout);
    assert_eq!(installed(true, &[Done, Done, Done, Done, Failed]), InstallStep::WritePlist);
    assert_eq!(installed(true, &[Done, Done, Done, No, Done, Done]), InstallStep::Installed);
    assert_eq!(installed(true, &[Done, Done, Done, No, Done, No]), InstallStep::Load);
    assert_eq!(installed(true, &[Done, Done, Done, No, Done, No, Done]), InstallStep::Installed);
    assert_eq!(installed(true, &[Done, Done, Done, No, Done, No, No]), InstallStep::LaunchFailed);
    assert_eq!(installed(true, &[Done, Done, Done, No, Done, Failed]), InstallStep::Aborted);
    assert_eq!(installed(true, &[Failed]), InstallStep::Aborted);
    assert_eq!(installed(true, &[Done, Failed]), InstallStep::Aborted);
    assert_eq!(installed(true, &[Done, Done, Failed, Done]), InstallStep::Aborted);
    assert_eq!(installed(false, &[Done, Done]), InstallStep::NeedRoot);
    assert_eq!(installed(false, &[]).exit_code(), Some(2));
    assert_eq!(installed(true, &[]).exit_code(), None);
}

#[test]
fn every_installation_ends() {
    for n in 0..3usize.pow(8) {
        let mut rest = n;
        let mut step = InstallStep::first(true);
        for _ in 0..8 {
            step = step.after(match rest % 3 {
                0 => Outcome::Done,
                1 => Outcome::No,
                _ => Outcome::Failed,
            });
            rest /= 3;
        }
        assert!(matches!(
            step,
            InstallStep::Installed | InstallStep::LaunchFailed | InstallStep::Aborted
        ));
    }
}

#[test]
fn a_removal_runs_through() {
    let removed = |root: bool, outcomes: &[Outcome]| {
        outcomes.iter().fold(UninstallStep::first(root), |s, o| s.after(*o))
    };
    assert_eq!(removed(false, &[Done]), UninstallStep::NeedRoot);
    assert_eq!(removed(false, &[]).exit_code(), Some(2));
    assert_eq!(removed(true, &[]).exit_code(), None);
    assert_eq!(removed(true, &[Failed, No]), UninstallStep::LookForPlist);
    assert_eq!(removed(true, &[Done, Done, No]), UninstallStep::AlreadyAbsent);
    assert_eq!(removed(true, &[Done, Done, Done]), UninstallStep::RemovePlist);
    assert_eq!(removed(true, &[Done, Done, Done, Done]), UninstallStep::Removed);
    assert_eq!(removed(true, &[Done, Done, Done, Failed]), UninstallStep::Aborted);
}

#[test]
fn launchctl_is_called_as_it_expects() {
    assert_eq!(Launchctl::Bootout.arguments(), vec!["bootout", "system/im.toss.mac-smart-fans"]);
    assert_eq!(Launchctl::Bootstrap.arguments(), vec!["bootstrap", "system", PLIST_PATH]);
    assert_eq!(Launchctl::Load.arguments(), vec!["load", PLIST_PATH]);
    assert_eq!(Launchctl::Unload.arguments(), vec!["unload", PLIST_PATH]);
    assert_eq!(Launchctl::Print.arguments(), vec!["print", "system/im.toss.mac-smart-fans"]);
}

#[test]
fn messages_name_the_files() {
    assert_eq!(LOG_DIR, "/var/log/msf");
    assert_eq!(
        installed_lines(),
        vec![
            "installed and loaded: /Library/LaunchDaemons/im.toss.mac-smart-fans.plist",
            "logs:                  /var/log/msf/{stdout,stderr}.log",
            "check:                 msf status",
        ]
    );
    assert_eq!(
        uninstalled_line(true),
        "removed: /Library/LaunchDaemons/im.toss.mac-smart-fans.plist"
    );
    assert_eq!(
        uninstalled_line(false),
        "(already absent: /Library/LaunchDaemons/im.toss.mac-smart-fans.plist)"
    );
    assert_eq!(
        INSTALL_NEEDS_ROOT,
        "msf install requires root (writes /Library/LaunchDaemons/). Re-run with sudo."
    );
    assert_eq!(
        UNINSTALL_NEEDS_ROOT,
        "msf uninstall requires root (removes /Library/LaunchDaemons/). Re-run with sudo."
    );
}

#[test]
fn the_status_tells_what_was_found() {
    let s = StatusReport::of(false, &None, false);
    assert_eq!(
        s.describe(),
        vec![
            "plist:  /Library/LaunchDaemons/im.toss.mac-smart-fans.plist (absent)",
            "loaded: false",
        ]
    );
    let body = render_plist(&config("/bin/msf", "/c.toml", FanSelection::All)).unwrap();
    let s = StatusReport::of(true, &Some(body), true);
    assert_eq!(s.curve_path.as_deref(), Some("/c.toml"));
    assert_eq!(
        s.describe(),
        vec![
            "plist:  /Library/LaunchDaemons/im.toss.mac-smart-fans.plist (present)",
            "loaded: true",
            "curve:  /c.toml",
        ]
    );
    let s = StatusReport::of(true, &Some(b"no plist at all".to_vec()), true);
    assert_eq!(s.curve_path, None);
    assert!(StatusReport::of(true, &None, false).curve_path.is_none());
}
