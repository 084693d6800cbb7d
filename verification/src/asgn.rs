use vstd::prelude::*;

use crate::dates::LocalDatetime;
use crate::error::Error;
use crate::rules::Ruleset;
use crate::strutil::str_eq;
use crate::submission::spec_path_join;
use crate::submission::path_join;
use crate::table::Table;

verus! {

/// The date and time components a spec file's datetime field carries; either
/// may be absent in the text.
#[derive(Clone, Copy, Debug)]
pub struct DatetimeParts {
    pub date: Option<(i32, u8, u8)>,
    pub time: Option<(u8, u8, u8)>,
}

/// The assignment spec file's fields, as stored: dates still in their
/// written form, everything else as the file gives it.
pub struct AsgnSpecToml {
    pub name: String,
    pub active: bool,
    pub visible: bool,
    pub file_list: Vec<String>,
    pub build: Option<Ruleset>,
    pub grade: Option<Ruleset>,
    pub check: Option<Ruleset>,
    pub score: Option<Ruleset>,
    pub due_date: Option<DatetimeParts>,
    pub open_date: Option<DatetimeParts>,
    pub close_date: Option<DatetimeParts>,
}

impl AsgnSpecToml {
    /// The blank spec a fresh assignment directory is seeded with.
    pub fn default_with_name(name: String) -> (r: AsgnSpecToml)
        ensures
            r.name == name,
            !r.active,
            !r.visible,
            r.file_list@.len() == 1,
            r.file_list@[0]@ == name@ + ".cpp"@,
            r.build is None && r.grade is None && r.check is None && r.score is None,
            r.due_date is None && r.open_date is None && r.close_date is None,
    {
        let mut first_file = String::from_str(name.as_str());
        first_file.append(".cpp");
        let mut file_list: Vec<String> = Vec::new();
        file_list.push(first_file);
        AsgnSpecToml {
            name,
            active: false,
            visible: false,
            file_list,
            build: None,
            grade: None,
            check: None,
            score: None,
            due_date: None,
            open_date: None,
            close_date: None,
        }
    }
}

/// One assignment: its spec-file fields with the dates resolved to course
/// timestamps, and the directory it lives in.
pub struct AsgnSpec {
    pub path: String,
    pub name: String,
    pub active: bool,
    pub visible: bool,
    pub file_list: Vec<String>,
    pub build: Option<Ruleset>,
    pub grade: Option<Ruleset>,
    pub check: Option<Ruleset>,
    pub score: Option<Ruleset>,
    pub due_date: Option<LocalDatetime>,
    pub open_date: Option<LocalDatetime>,
    pub close_date: Option<LocalDatetime>,
}

/// What a stored datetime field means as a course timestamp: nothing stays
/// nothing; a date without a time means that day at 23:59:59; a field with
/// no date part is malformed.
pub open spec fn spec_resolve_date(parts: Option<DatetimeParts>) -> Result<
    Option<LocalDatetime>,
    (),
> {
    match parts {
        None => Ok(None),
        Some(p) => match p.date {
            None => Err(()),
            Some(d) => Ok(
                Some(
                    LocalDatetime::spec_of_parts(
                        (d.0 as int, d.1 as int, d.2 as int),
                        match p.time {
                            Some(t) => Some((t.0 as int, t.1 as int, t.2 as int)),
                            None => None,
                        },
                    ),
                ),
            ),
        },
    }
}

fn resolve_date(parts: Option<DatetimeParts>, path: &str, what: &str) -> (r: Result<
    Option<LocalDatetime>,
    Error,
>)
    ensures
        match r {
            Ok(d) => spec_resolve_date(parts) == Result::<Option<LocalDatetime>, ()>::Ok(d),
            Err(e) => {
                &&& spec_resolve_date(parts) is Err
                &&& e.description@ == "Specification file at "@ + path@ + " is malformed: "@
                    + what@
            },
        },
{
    match parts {
        None => Ok(None),
        Some(p) => match p.date {
            None => Err(Error::bad_spec(path, what)),
            Some(d) => Ok(
                Some(
                    LocalDatetime {
                        year: d.0,
                        month: d.1,
                        day: d.2,
                        hour: match p.time {
                            Some(t) => t.0,
                            None => crate::dates::DEFAULT_DUE_HOUR,
                        },
                        minute: match p.time {
                            Some(t) => t.1,
                            None => crate::dates::DEFAULT_DUE_MINUTE,
                        },
                        second: match p.time {
                            Some(t) => t.2,
                            None => crate::dates::DEFAULT_DUE_SECOND,
                        },
                    },
                ),
            ),
        },
    }
}

impl AsgnSpec {
    /// Resolves a stored spec into an assignment: every field carries over,
    /// and each date field must have a date part. The first malformed date,
    /// in open/close/due order, is the error.
    pub fn from_toml(path: String, toml: AsgnSpecToml) -> (r: Result<AsgnSpec, Error>)
        ensures
            match r {
                Ok(spec) => {
                    &&& spec.path == path
                    &&& spec.name == toml.name
                    &&& spec.active == toml.active
                    &&& spec.visible == toml.visible
                    &&& spec.file_list == toml.file_list
                    &&& spec.build == toml.build
                    &&& spec.grade == toml.grade
                    &&& spec.check == toml.check
                    &&& spec.score == toml.score
                    &&& spec_resolve_date(toml.due_date) == Result::<Option<LocalDatetime>, ()>::Ok(
                        spec.due_date,
                    )
                    &&& spec_resolve_date(toml.open_date) == Result::<
                        Option<LocalDatetime>,
                        (),
                    >::Ok(spec.open_date)
                    &&& spec_resolve_date(toml.close_date) == Result::<
                        Option<LocalDatetime>,
                        (),
                    >::Ok(spec.close_date)
                },
                Err(_) => spec_resolve_date(toml.due_date) is Err || spec_resolve_date(
                    toml.open_date,
                ) is Err || spec_resolve_date(toml.close_date) is Err,
            },
    {
        let open_date = match resolve_date(toml.open_date, path.as_str(), "Missing open date.") {
            Ok(d) => d,
            Err(e) => {
                return Err(e);
            },
        };
        let close_date = match resolve_date(toml.close_date, path.as_str(), "Missing close date.") {
            Ok(d) => d,
            Err(e) => {
                return Err(e);
            },
        };
        let due_date = match resolve_date(toml.due_date, path.as_str(), "Missing due date.") {
            Ok(d) => d,
            Err(e) => {
                return Err(e);
            },
        };
        Ok(
            AsgnSpec {
                path,
                name: toml.name,
                active: toml.active,
                visible: toml.visible,
                file_list: toml.file_list,
                build: toml.build,
                grade: toml.grade,
                check: toml.check,
                score: toml.score,
                due_date,
                open_date,
                close_date,
            },
        )
    }

    /// The stored form of this assignment: every field carries over, and
    /// each date is written with both its date and its time part.
    pub fn to_toml(self) -> (r: AsgnSpecToml)
        ensures
            r.name == self.name,
            r.active == self.active,
            r.visible == self.visible,
            r.file_list == self.file_list,
            r.build == self.build,
            r.grade == self.grade,
            r.check == self.check,
            r.score == self.score,
            r.due_date == spec_date_to_parts(self.due_date),
            r.open_date == spec_date_to_parts(self.open_date),
            r.close_date == spec_date_to_parts(self.close_date),
    {
        AsgnSpecToml {
            name: self.name,
            active: self.active,
            visible: self.visible,
            file_list: self.file_list,
            build: self.build,
            grade: self.grade,
            check: self.check,
            score: self.score,
            due_date: date_to_parts(self.due_date),
            open_date: date_to_parts(self.open_date),
            close_date: date_to_parts(self.close_date),
        }
    }

    /// The spec-file invariant: an assignment is usable only when its name
    /// field matches the directory it was loaded from — the directory's last
    /// path component must be the name.
    pub fn name_matches_dir(path: &str, name: &str) -> (r: bool)
        ensures
            r == (path@ == name@ || (path@.len() > name@.len() && path@[path@.len() - name@.len()
                - 1] == '/' && path@.skip(path@.len() - name@.len()) == name@)),
    {
        let plen = path.unicode_len();
        let nlen = name.unicode_len();
        if plen == nlen {
            return str_eq(path, name);
        }
        if plen < nlen || plen - nlen < 1 {
            proof {
                assert(path@.len() <= name@.len());
                assert(path@.len() != name@.len() ==> path@ != name@);
            }
            return false;
        }
        let cut = plen - nlen;
        if path.get_char(cut - 1) != '/' {
            return false;
        }
        let mut j: usize = 0;
        while j < nlen
            invariant
                j <= nlen,
                nlen == name@.len(),
                plen == path@.len(),
                cut == plen - nlen,
                plen > nlen,
                forall|k: int| 0 <= k < j ==> path@[cut + k] == name@[k],
            decreases nlen - j,
        {
            if path.get_char(cut + j) != name.get_char(j) {
                proof {
                    if path@.skip(cut as int) == name@ {
                        assert(path@.skip(cut as int)[j as int] == name@[j as int]);
                    }
                }
                return false;
            }
            j = j + 1;
        }
        proof {
            assert(path@.skip(cut as int) =~= name@);
        }
        true
    }

    /// The detail listing of this assignment: one property per row, the
    /// dates rendered (or the placeholder), and the recorded day counts.
    #[verifier::rlimit(60)]
    pub fn details_table(&self, status: &crate::submission::SubmissionStatus) -> (r: Table)
        ensures
            r.wf(),
            r.spec_rows().len() == 8,
            r.spec_rows()[0] == seq!["PROPERTY"@, "VALUE"@],
            r.spec_rows()[1] == seq!["NAME"@, self.name@],
            r.spec_rows()[2] == seq![
                "FILES"@,
                crate::strutil::spec_join(self.file_list@.map_values(|f: String| f@), " "@),
            ],
            r.spec_rows()[3] == seq!["OPEN DATE"@, spec_opt_render(self.open_date)],
            r.spec_rows()[4] == seq!["CLOSE DATE"@, spec_opt_render(self.close_date)],
            r.spec_rows()[5] == seq!["DUE DATE"@, spec_opt_render(self.due_date)],
            r.spec_rows()[6] == seq![
                "EXTENSION"@,
                crate::strutil::spec_i64_dec(status.extension_days as int),
            ],
            r.spec_rows()[7] == seq![
                "GRACE"@,
                crate::strutil::spec_i64_dec(status.grace_days as int),
            ],
    {
        let mut rows: Vec<Vec<String>> = Vec::new();
        rows.push(two_cells("PROPERTY", String::from_str("VALUE")));
        rows.push(two_cells("NAME", String::from_str(self.name.as_str())));
        rows.push(two_cells("FILES", crate::strutil::join_strings(&self.file_list, " ")));
        rows.push(two_cells("OPEN DATE", opt_render(&self.open_date)));
        rows.push(two_cells("CLOSE DATE", opt_render(&self.close_date)));
        rows.push(two_cells("DUE DATE", opt_render(&self.due_date)));
        rows.push(two_cells("EXTENSION", crate::strutil::i64_to_string(status.extension_days)));
        rows.push(two_cells("GRACE", crate::strutil::i64_to_string(status.grace_days)));
        let table = Table { width: 2, rows };
        proof {
            assert(table.spec_rows()[0] =~= seq!["PROPERTY"@, "VALUE"@]);
            assert(table.spec_rows()[1] =~= seq!["NAME"@, self.name@]);
            assert(table.spec_rows()[2] =~= seq![
                "FILES"@,
                crate::strutil::spec_join(self.file_list@.map_values(|f: String| f@), " "@),
            ]);
            assert(table.spec_rows()[3] =~= seq!["OPEN DATE"@, spec_opt_render(self.open_date)]);
            assert(table.spec_rows()[4] =~= seq!["CLOSE DATE"@, spec_opt_render(self.close_date)]);
            assert(table.spec_rows()[5] =~= seq!["DUE DATE"@, spec_opt_render(self.due_date)]);
            assert(table.spec_rows()[6] =~= seq![
                "EXTENSION"@,
                crate::strutil::spec_i64_dec(status.extension_days as int),
            ]);
            assert(table.spec_rows()[7] =~= seq![
                "GRACE"@,
                crate::strutil::spec_i64_dec(status.grace_days as int),
            ]);
        }
        table
    }

    /// The arguments of the external build command for one rule target: the
    /// course and assignment resource paths, the Makefile, and the target.
    pub fn make_command_args(
        &self,
        target: &str,
        quiet: bool,
        cwd: &str,
        course_base: &str,
    ) -> (r: Vec<String>)
        ensures
            r@.len() == (if quiet { 8int } else { 7int }) && (quiet ==> r@[0]@ == "--quiet"@),
            ({
                let base = if quiet { 1int } else { 0int };
                &&& r@[base]@ == "CALLER_DIR="@ + cwd@
                &&& r@[base + 1]@ == "COURSE_PUBLIC="@ + spec_path_join(
                    spec_path_join(course_base@, ".info"@),
                    "public"@,
                )
                &&& r@[base + 2]@ == "COURSE_PRIVATE="@ + spec_path_join(
                    spec_path_join(course_base@, ".info"@),
                    "private"@,
                )
                &&& r@[base + 3]@ == "PUBLIC="@ + spec_path_join(
                    spec_path_join(self.path@, ".info"@),
                    "public"@,
                )
                &&& r@[base + 4]@ == "PRIVATE="@ + spec_path_join(
                    spec_path_join(self.path@, ".info"@),
                    "private"@,
                )
                &&& r@[base + 5]@ == "--file="@ + spec_path_join(
                    spec_path_join(self.path@, ".info"@),
                    "Makefile"@,
                )
                &&& r@[base + 6]@ == target@
            }),
    {
        let mut args: Vec<String> = Vec::new();
        if quiet {
            args.push(String::from_str("--quiet"));
        }
        let course_info = path_join(course_base, ".info");
        let asgn_info = path_join(self.path.as_str(), ".info");
        args.push(prefixed("CALLER_DIR=", cwd));
        args.push(prefixed("COURSE_PUBLIC=", path_join(course_info.as_str(), "public").as_str()));
        args.push(
            prefixed("COURSE_PRIVATE=", path_join(course_info.as_str(), "private").as_str()),
        );
        args.push(prefixed("PUBLIC=", path_join(asgn_info.as_str(), "public").as_str()));
        args.push(prefixed("PRIVATE=", path_join(asgn_info.as_str(), "private").as_str()));
        args.push(prefixed("--file=", path_join(asgn_info.as_str(), "Makefile").as_str()));
        args.push(String::from_str(target));
        args
    }
}


/// A date's listing text: its full rendering, or the placeholder.
pub open spec fn spec_opt_render(d: Option<LocalDatetime>) -> Seq<char> {
    match d {
        None => "NONE"@,
        Some(t) => t.spec_render(),
    }
}

fn opt_render(d: &Option<LocalDatetime>) -> (r: String)
    ensures
        r@ == spec_opt_render(*d),
{
    match d {
        None => Table::option_repr(None),
        Some(t) => t.render(),
    }
}

fn two_cells(label: &str, value: String) -> (r: Vec<String>)
    ensures
        r@.len() == 2,
        r@[0]@ == label@,
        r@[1] == value,
{
    let mut r: Vec<String> = Vec::new();
    r.push(String::from_str(label));
    r.push(value);
    r
}

fn prefixed(prefix: &str, rest: &str) -> (r: String)
    ensures
        r@ == prefix@ + rest@,
{
    let mut s = String::from_str(prefix);
    s.append(rest);
    proof {
        assert(s@ =~= prefix@ + rest@);
    }
    s
}

pub open spec fn spec_date_to_parts(d: Option<LocalDatetime>) -> Option<DatetimeParts> {
    match d {
        None => None,
        Some(t) => Some(
            DatetimeParts {
                date: Some((t.year, t.month, t.day)),
                time: Some((t.hour, t.minute, t.second)),
            },
        ),
    }
}

fn date_to_parts(d: Option<LocalDatetime>) -> (r: Option<DatetimeParts>)
    ensures
        r == spec_date_to_parts(d),
{
    match d {
        None => None,
        Some(t) => Some(
            DatetimeParts {
                date: Some((t.year, t.month, t.day)),
                time: Some((t.hour, t.minute, t.second)),
            },
        ),
    }
}

/// Writing an assignment out and loading it back changes nothing: a stored
/// form made by `to_toml` always resolves, and `from_toml` on it restores
/// the name, flags, file list, rulesets and every date exactly.
pub proof fn lemma_spec_round_trip(spec: AsgnSpec, stored: AsgnSpecToml, reloaded: AsgnSpec)
    requires
        // What `to_toml` guarantees of `stored`.
        stored.name == spec.name,
        stored.active == spec.active,
        stored.visible == spec.visible,
        stored.file_list == spec.file_list,
        stored.due_date == spec_date_to_parts(spec.due_date),
        // What `from_toml` guarantees of `reloaded` when it succeeds.
        reloaded.name == stored.name,
        reloaded.active == stored.active,
        reloaded.visible == stored.visible,
        reloaded.file_list == stored.file_list,
        spec_resolve_date(stored.due_date) == Result::<Option<LocalDatetime>, ()>::Ok(
            reloaded.due_date,
        ),
    ensures
        reloaded.name == spec.name,
        reloaded.active == spec.active,
        reloaded.visible == spec.visible,
        reloaded.file_list == spec.file_list,
        reloaded.due_date == spec.due_date,
        // A stored form never fails to resolve.
        spec_resolve_date(stored.due_date) is Ok,
{
    match spec.due_date {
        None => {},
        Some(d) => {
            assert(spec_resolve_date(stored.due_date) == Result::<Option<LocalDatetime>, ()>::Ok(
                Some(
                    LocalDatetime::spec_of_parts(
                        (d.year as int, d.month as int, d.day as int),
                        Some((d.hour as int, d.minute as int, d.second as int)),
                    ),
                ),
            ));
        },
    }
}

/// Whether the assignment is not yet open at a given moment: there is an
/// open date, and a day past `now` still falls before it.
pub fn before_open(open_epoch: Option<i64>, now_plus_day_epoch: i64) -> (r: bool)
    ensures
        r == match open_epoch {
            Some(o) => now_plus_day_epoch - o < 0,
            None => false,
        },
{
    match open_epoch {
        Some(o) => (now_plus_day_epoch as i128) - (o as i128) < 0,
        None => false,
    }
}

/// Whether the assignment is already closed at a given moment.
pub fn after_close(close_epoch: Option<i64>, now_epoch: i64) -> (r: bool)
    ensures
        r == match close_epoch {
            Some(c) => now_epoch - c > 0,
            None => false,
        },
{
    match close_epoch {
        Some(c) => (now_epoch as i128) - (c as i128) > 0,
        None => false,
    }
}

} // verus!
