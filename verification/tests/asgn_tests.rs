use asgn::asgn::{
    after_close, before_open, AsgnSpec, AsgnSpecToml, DatetimeParts,
};
use asgn::context::{
    add_unique, assignment_summary_row, deduce_role, due_repr, facl_entries_string, grader_facl,
    member_list, remove_listed, status_label, submission_summary_row, vec_contains_str, Context,
    CourseToml, Role,
};
use asgn::dates::{offset_date, parse_date, LocalDatetime};
use asgn::submission::SubmissionStatus;
use asgn::error::{Error, ErrorLog, FilePresenceErrorKind, InactiveKind};
use asgn::rules::MetricValue;
use asgn::submission::fresh_dir_candidate;
use asgn::strutil::{i64_to_string, is_float_text, join_strings, parse_bool, parse_i64, u64_to_string};
use asgn::table::Table;

fn stamp(y: i32, mo: u8, d: u8, h: u8, mi: u8, s: u8) -> LocalDatetime {
    LocalDatetime { year: y, month: mo, day: d, hour: h, minute: mi, second: s }
}

fn bare_spec(name: &str, due: Option<LocalDatetime>) -> AsgnSpec {
    AsgnSpec {
        path: format!("/course/{name}"),
        name: name.to_owned(),
        active: true,
        visible: true,
        file_list: vec![format!("{name}.cpp"), "extra.txt".to_owned()],
        build: None,
        grade: None,
        check: None,
        score: None,
        due_date: due,
        open_date: None,
        close_date: None,
    }
}

#[test]
fn spec_round_trip_keeps_fields() {
    let due = Some(stamp(2024, 3, 1, 23, 59, 59));
    let spec = bare_spec("hw1", due);
    let stored = bare_spec("hw1", due).to_toml();
    let reloaded = AsgnSpec::from_toml("/course/hw1".to_owned(), stored).unwrap();
    assert_eq!(reloaded.name, spec.name);
    assert_eq!(reloaded.active, spec.active);
    assert_eq!(reloaded.visible, spec.visible);
    assert_eq!(reloaded.file_list, spec.file_list);
    assert_eq!(reloaded.due_date, due);
    assert_eq!(reloaded.open_date, None);
}

#[test]
fn from_toml_requires_date_part() {
    let mut stored = bare_spec("hw1", None).to_toml();
    stored.due_date = Some(DatetimeParts { date: None, time: Some((10, 0, 0)) });
    let err = AsgnSpec::from_toml("/course/hw1".to_owned(), stored).err().unwrap();
    assert!(err.description.contains("Missing due date."));
}

#[test]
fn from_toml_defaults_missing_time() {
    let mut stored = bare_spec("hw1", None).to_toml();
    stored.due_date = Some(DatetimeParts { date: Some((2024, 3, 1)), time: None });
    let spec = AsgnSpec::from_toml("/course/hw1".to_owned(), stored).unwrap();
    assert_eq!(spec.due_date, Some(stamp(2024, 3, 1, 23, 59, 59)));
}

#[test]
fn default_spec_lists_one_file() {
    let spec = AsgnSpecToml::default_with_name("hw2".to_owned());
    assert_eq!(spec.name, "hw2");
    assert!(!spec.active && !spec.visible);
    assert_eq!(spec.file_list, vec!["hw2.cpp"]);
}

#[test]
fn name_must_match_directory() {
    assert!(AsgnSpec::name_matches_dir("/course/hw1", "hw1"));
    assert!(AsgnSpec::name_matches_dir("hw1", "hw1"));
    assert!(!AsgnSpec::name_matches_dir("/course/hw1", "hw2"));
    assert!(!AsgnSpec::name_matches_dir("/course/hw10", "hw1"));
    assert!(!AsgnSpec::name_matches_dir("hw", "hw1"));
}

#[test]
fn make_command_arguments() {
    let spec = bare_spec("hw1", None);
    let args = spec.make_command_args("compile", true, "/home/alice", "/course");
    assert_eq!(
        args,
        vec![
            "--quiet",
            "CALLER_DIR=/home/alice",
            "COURSE_PUBLIC=/course/.info/public",
            "COURSE_PRIVATE=/course/.info/private",
            "PUBLIC=/course/hw1/.info/public",
            "PRIVATE=/course/hw1/.info/private",
            "--file=/course/hw1/.info/Makefile",
            "compile",
        ]
    );
    let loud = spec.make_command_args("compile", false, "/home/alice", "/course");
    assert_eq!(loud.len(), 7);
    assert_eq!(loud[0], "CALLER_DIR=/home/alice");
}

#[test]
fn parse_date_text() {
    // The date alone means the end of that day.
    let d = parse_date("2024-03-01").unwrap();
    assert_eq!(d, stamp(2024, 3, 1, 23, 59, 59));
    let dt = parse_date("2024-03-01T10:30:00").unwrap();
    assert_eq!(dt, stamp(2024, 3, 1, 10, 30, 0));
    let err = parse_date("not a date").unwrap_err();
    assert_eq!(err.description, "Invalid date: not a date");
    // A bare time has no date component to anchor it.
    assert!(parse_date("10:30:00").is_err());
}

#[test]
fn calendar_day_shifts() {
    let d = stamp(2024, 1, 15, 12, 0, 0);
    assert_eq!(d.shift_days(1), Some(stamp(2024, 1, 16, 12, 0, 0)));
    assert_eq!(d.shift_days(-15), Some(stamp(2023, 12, 31, 12, 0, 0)));
    // 2024 is a leap year.
    assert_eq!(
        stamp(2024, 2, 28, 23, 59, 59).shift_days(1),
        Some(stamp(2024, 2, 29, 23, 59, 59))
    );
    // An invalid calendar date shifts to nothing.
    assert_eq!(stamp(2024, 2, 30, 0, 0, 0).shift_days(1), None);
}

#[test]
fn epoch_round_trip_in_local_zone() {
    let d = stamp(2024, 1, 15, 12, 0, 0);
    let epoch = d.to_epoch().expect("mid-January noon resolves in any zone");
    let back = LocalDatetime::from_epoch(epoch).expect("epoch renders");
    assert_eq!(back, d);
    // A later calendar time is a later instant.
    let later = stamp(2024, 1, 15, 13, 0, 0).to_epoch().unwrap();
    assert_eq!(later - epoch, 3600);
}

#[test]
fn date_rendering() {
    let d = stamp(2024, 3, 1, 9, 5, 0);
    assert_eq!(d.render(), "2024-03-01 09:05:00");
    assert_eq!(d.render_date(), "2024-03-01");
    assert_eq!(due_repr(&Some(stamp(2024, 3, 1, 23, 59, 59))), "2024-03-01");
    assert_eq!(due_repr(&Some(d)), "2024-03-01 09:05:00");
    assert_eq!(due_repr(&None), "NONE");
}

#[test]
fn window_checks() {
    assert!(!before_open(None, 0));
    assert!(before_open(Some(100), 99));
    assert!(!before_open(Some(100), 100));
    assert!(!after_close(None, 1000));
    assert!(after_close(Some(100), 101));
    assert!(!after_close(Some(100), 100));
}

#[test]
fn roles_and_members() {
    let students = vec!["alice".to_owned()];
    let graders = vec!["gus".to_owned()];
    assert_eq!(deduce_role("alice", "prof", &students, &graders), Role::Student);
    assert_eq!(deduce_role("gus", "prof", &students, &graders), Role::Grader);
    assert_eq!(deduce_role("prof", "prof", &students, &graders), Role::Instructor);
    assert_eq!(deduce_role("mallory", "prof", &students, &graders), Role::Other);
    let members = member_list("prof", &graders, &students);
    assert_eq!(members, vec!["prof", "gus", "alice"]);
    assert!(vec_contains_str(&members, "gus"));
    assert!(!vec_contains_str(&members, "mallory"));
}

#[test]
fn membership_edits() {
    let mut students = vec!["alice".to_owned(), "bob".to_owned()];
    add_unique(&mut students, vec!["bob".to_owned(), "carol".to_owned()]);
    assert_eq!(students, vec!["alice", "bob", "carol"]);
    remove_listed(&mut students, &vec!["alice".to_owned(), "dave".to_owned()]);
    assert_eq!(students, vec!["bob", "carol"]);
}

#[test]
fn facl_lists() {
    let graders = vec!["gus".to_owned(), "prof".to_owned(), "gina".to_owned()];
    let entries = grader_facl("prof", &graders, Some("alice"));
    let rendered = facl_entries_string(&entries);
    assert_eq!(rendered, "prof:rwx,alice:rwx,gus:rx,gina:rx");
    let no_student = grader_facl("prof", &graders, None);
    assert_eq!(facl_entries_string(&no_student), "prof:rwx,gus:rx,gina:rx");
}

#[test]
fn summary_rows() {
    let spec = bare_spec("hw1", Some(stamp(2024, 3, 1, 23, 59, 59)));
    let row = assignment_summary_row(&spec, false, false);
    assert_eq!(row, vec!["hw1", "ENABLED", "YES", "YES", "2024-03-01", "hw1.cpp  extra.txt"]);
    let mut disabled = bare_spec("hw1", None);
    disabled.active = false;
    let row = assignment_summary_row(&disabled, true, true);
    assert_eq!(row[1], "DISABLED");
    assert_eq!(status_label(true, true, false), "BEFORE OPEN");
    assert_eq!(status_label(true, false, true), "AFTER CLOSE");
    let sub = submission_summary_row("hw1", "alice", "Late 0d 1h 2m".to_owned(), 1, 2);
    assert_eq!(sub, vec!["hw1", "alice", "Late 0d 1h 2m", "1", "2"]);
}

#[test]
fn catalog_lookup() {
    let ctx = Context {
        instructor: "prof".to_owned(),
        base_path: "/course".to_owned(),
        exe_path: "/usr/bin/tool".to_owned(),
        uid: 1000,
        username: "alice".to_owned(),
        time_epoch: 0,
        cwd: "/home/alice".to_owned(),
        manifest: vec!["hw1".to_owned(), "hw2".to_owned()],
        graders: vec![],
        students: vec!["alice".to_owned()],
        members: vec!["prof".to_owned(), "alice".to_owned()],
        grace_total: Some(5),
        grace_limit: Some(2),
        role: Role::Student,
        catalog: vec![
            ("hw1".to_owned(), Ok(bare_spec("hw1", None))),
            ("hw2".to_owned(), Err(Error::invalid_uid(7))),
        ],
    };
    assert_eq!(ctx.catalog_get("hw1").unwrap().name, "hw1");
    let failed = ctx.catalog_get("hw2").err().unwrap();
    assert_eq!(failed.description, "UID 7 is invalid.");
    let absent = ctx.catalog_get("hw9").err().unwrap();
    assert_eq!(absent.description, "Assignment 'hw9' is invalid or non-existant.");
    assert_eq!(ctx.all_catalog_errors().0.len(), 1);
    let toml: CourseToml = ctx.course_toml();
    assert_eq!(toml.manifest, vec!["hw1", "hw2"]);
    assert_eq!(toml.grace_total, Some(5));
}

#[test]
fn table_shape_and_csv() {
    let mut t = Table::new(vec!["A".to_owned(), "B".to_owned()]);
    t.extend(vec![
        vec!["1".to_owned(), "2".to_owned()],
        vec!["3".to_owned(), "4".to_owned()],
    ])
    .unwrap();
    assert_eq!(t.as_csv(), "A,B\n1,2\n3,4");
    assert!(t.extend(vec![vec!["only one".to_owned()]]).is_err());
    assert_eq!(Table::option_repr(Some("x".to_owned())), "x");
    assert_eq!(Table::option_repr(None), "NONE");
}

#[test]
fn error_messages() {
    assert_eq!(Error::invalid_uid(42).description, "UID 42 is invalid.");
    assert_eq!(Error::invalid_uid(42).advice, "Please contact the instructor.");
    let fp = FilePresenceErrorKind::FileIsDir.at("/tmp/x");
    assert_eq!(fp.description, "File is actually a directory: /tmp/x");
    assert_eq!(fp.advice, "Please ensure that the file is not a directory");
    assert_eq!(
        FilePresenceErrorKind::assert_file(false, false, false),
        Err(FilePresenceErrorKind::NotFound)
    );
    assert_eq!(
        FilePresenceErrorKind::assert_file(true, true, false),
        Err(FilePresenceErrorKind::FileIsDir)
    );
    assert_eq!(
        FilePresenceErrorKind::assert_file(true, false, false),
        Err(FilePresenceErrorKind::FileIsOther)
    );
    assert_eq!(FilePresenceErrorKind::assert_file(true, false, true), Ok(()));
    let mut log = ErrorLog::new();
    assert!(log.clone().into_result().is_ok());
    log.push(Error::no_home_dir());
    assert!(log.into_result().is_err());
}

#[test]
fn string_helpers() {
    assert_eq!(u64_to_string(0), "0");
    assert_eq!(u64_to_string(90061), "90061");
    assert_eq!(i64_to_string(-42), "-42");
    assert_eq!(i64_to_string(i64::MIN), "-9223372036854775808");
    assert_eq!(
        join_strings(&vec!["a".to_owned(), "b".to_owned(), "c".to_owned()], ", "),
        "a, b, c"
    );
    assert_eq!(join_strings(&vec![], "-"), "");
    assert_eq!(parse_bool("true"), Some(true));
    assert_eq!(parse_bool("True"), None);
    assert_eq!(parse_i64("9223372036854775807"), Some(i64::MAX));
    assert_eq!(parse_i64("9223372036854775808"), None);
    assert_eq!(parse_i64("-9223372036854775808"), Some(i64::MIN));
    assert_eq!(parse_i64("+17"), Some(17));
    assert_eq!(parse_i64(""), None);
    assert_eq!(parse_i64("1 2"), None);
    assert!(is_float_text("3.5e2"));
    assert!(is_float_text("-.5"));
    assert!(is_float_text("5."));
    assert!(is_float_text("inf"));
    assert!(is_float_text("Infinity"));
    assert!(is_float_text("NaN"));
    assert!(!is_float_text("."));
    assert!(!is_float_text("1e"));
    assert!(!is_float_text("1.2.3"));
    assert!(!is_float_text("abc"));
    // The recognizer answers exactly as the float parser does.
    for text in ["3.5e2", "-.5", "5.", "inf", ".", "1e", "1.2.3", "+nan", "2E-3"] {
        assert_eq!(is_float_text(text), text.parse::<f64>().is_ok());
    }
}

#[test]
fn more_error_messages() {
    assert_eq!(
        Error::invalid_cwd("permission denied").description,
        "Failed to access Current Working Directory: permission denied"
    );
    assert_eq!(
        Error::no_base_dir("/missing").description,
        "Base submission directory for course '/missing' does not exist."
    );
    assert_eq!(
        Error::invalid_user("mallory").description,
        "User 'mallory' is invalid."
    );
    assert_eq!(
        Error::bad_spec("/course/hw1", "broken").description,
        "Specification file at /course/hw1 is malformed: broken"
    );
    assert_eq!(
        Error::spec_io("/course/hw1", "denied").description,
        "Specification file at /course/hw1 could not be read, IO Error: denied"
    );
    assert_eq!(Error::io("Failed to copy file", "/a", "oops").description, "Failed to copy file at /a: oops");
    assert_eq!(Error::command("make", "gone").description, "Failed to run command make: gone");
    assert_eq!(Error::subprocess("setfacl", "denied").description, "Subprocess setfacl failed: denied");
    assert_eq!(Error::invalid_date("eleventy").description, "Invalid date: eleventy");
    assert_eq!(Error::date_out_of_range("9999-12-31").description, "Date out of range: 9999-12-31");
    assert_eq!(Error::invalid_toml("/f", "bad").description, "Invalid toml in /f: bad");
    assert_eq!(Error::toml_ser("CourseToml", "bad").description, "Failed to serialize toml for CourseToml: bad");
    assert_eq!(Error::no_setup("hw1").description, "Setup files are not available for assignment 'hw1'.");
    assert_eq!(Error::no_such_member("zed").description, "User 'zed' is not a member of this course.");
    assert_eq!(Error::table_error().description, "Failure while constructing output table.");
    assert_eq!(Error::no_home_dir().description, "Unable to determine home directory location.");
    assert_eq!(
        Error::inactive(InactiveKind::BeforeOpen).description,
        "Assignments cannot be interacted with before their open date."
    );
    assert_eq!(
        InactiveKind::AfterClose.description(),
        "Assignments cannot be interacted with after their close date."
    );
    assert_eq!(
        InactiveKind::Inactive.description(),
        "Interaction with this assignment is currently disabled."
    );
    let custom = Error::custom("what".to_owned(), "how".to_owned());
    assert_eq!(custom.description, "what");
    assert_eq!(custom.advice, "how");
    let copy = custom.duplicate();
    assert_eq!(copy, custom);
}

#[test]
fn fresh_dir_candidates() {
    assert_eq!(fresh_dir_candidate("hw1_setup", None), "hw1_setup");
    assert_eq!(fresh_dir_candidate("hw1_setup", Some(0)), "hw1_setup.0");
    assert_eq!(fresh_dir_candidate("hw1_setup", Some(12)), "hw1_setup.12");
}

#[test]
fn metric_renderings() {
    assert_eq!(MetricValue::Bool(true).render(), "true");
    assert_eq!(MetricValue::Bool(false).render(), "false");
    assert_eq!(MetricValue::Int(-12).render(), "-12");
    assert_eq!(MetricValue::Float("2.5e-1".to_owned()).render(), "2.5e-1");
}

#[test]
fn offset_dates() {
    assert_eq!(offset_date(&None, 5).unwrap(), None);
    assert_eq!(
        offset_date(&Some(stamp(2024, 1, 30, 23, 59, 59)), 3).unwrap(),
        Some(stamp(2024, 2, 2, 23, 59, 59))
    );
    assert_eq!(
        offset_date(&Some(stamp(2024, 1, 2, 8, 0, 0)), -2).unwrap(),
        Some(stamp(2023, 12, 31, 8, 0, 0))
    );
    let err = offset_date(&Some(stamp(2024, 2, 30, 0, 0, 0)), 1).unwrap_err();
    assert_eq!(err.description, "Date out of range: 2024-02-30 00:00:00");
}

#[test]
fn details_rows() {
    let spec = bare_spec("hw1", Some(stamp(2024, 3, 1, 23, 59, 59)));
    let status = SubmissionStatus { turn_in_time: None, grace_days: 2, extension_days: 1 };
    let table = spec.details_table(&status);
    assert_eq!(
        table.as_csv(),
        "PROPERTY,VALUE\n\
         NAME,hw1\n\
         FILES,hw1.cpp extra.txt\n\
         OPEN DATE,NONE\n\
         CLOSE DATE,NONE\n\
         DUE DATE,2024-03-01 23:59:59\n\
         EXTENSION,1\n\
         GRACE,2"
    );
}
