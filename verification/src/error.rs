use vstd::prelude::*;

use crate::strutil::u64_to_string;

verus! {

pub const CONTACT_INSTRUCTOR: &'static str = "Please contact the instructor.";

pub const MAYBE_CONTACT_INSTRUCTOR: &'static str =
    "If you believe this is an error in the course configuration, contact the instructor.";

pub const VALID_DATE: &'static str = "Please enter a valid date";

fn concat2(a: &str, b: &str) -> (r: String)
    ensures
        r@ == a@ + b@,
{
    let mut r = String::from_str(a);
    r.append(b);
    proof {
        assert(r@ =~= a@ + b@);
    }
    r
}

fn concat3(a: &str, b: &str, c: &str) -> (r: String)
    ensures
        r@ == a@ + b@ + c@,
{
    let mut r = String::from_str(a);
    r.append(b);
    r.append(c);
    proof {
        assert(r@ =~= a@ + b@ + c@);
    }
    r
}

fn concat4(a: &str, b: &str, c: &str, d: &str) -> (r: String)
    ensures
        r@ == a@ + b@ + c@ + d@,
{
    let mut r = String::from_str(a);
    r.append(b);
    r.append(c);
    r.append(d);
    proof {
        assert(r@ =~= a@ + b@ + c@ + d@);
    }
    r
}

fn concat5(a: &str, b: &str, c: &str, d: &str, e: &str) -> (r: String)
    ensures
        r@ == a@ + b@ + c@ + d@ + e@,
{
    let mut r = String::from_str(a);
    r.append(b);
    r.append(c);
    r.append(d);
    r.append(e);
    proof {
        assert(r@ =~= a@ + b@ + c@ + d@ + e@);
    }
    r
}

/// Why a required file cannot serve as a submission file.
#[derive(Clone, Copy, PartialEq, Eq, Structural, Debug)]
pub enum FilePresenceErrorKind {
    NotFound,
    FileIsDir,
    FileIsOther,
}

impl FilePresenceErrorKind {
    pub fn description(&self) -> (r: &'static str)
        ensures
            *self is NotFound ==> r@ == "File not found"@,
            *self is FileIsDir ==> r@ == "File is actually a directory"@,
            *self is FileIsOther ==> r@ == "File is neither a normal file nor a directory"@,
    {
        match self {
            FilePresenceErrorKind::NotFound => "File not found",
            FilePresenceErrorKind::FileIsDir => "File is actually a directory",
            FilePresenceErrorKind::FileIsOther => "File is neither a normal file nor a directory",
        }
    }

    pub fn advice(&self) -> (r: &'static str)
        ensures
            *self is NotFound ==> r@ == "Please ensure that the file exists"@,
            *self is FileIsDir ==> r@ == "Please ensure that the file is not a directory"@,
            *self is FileIsOther ==> r@ == "Please ensure that the file is actually a file"@,
    {
        match self {
            FilePresenceErrorKind::NotFound => "Please ensure that the file exists",
            FilePresenceErrorKind::FileIsDir => "Please ensure that the file is not a directory",
            FilePresenceErrorKind::FileIsOther => "Please ensure that the file is actually a file",
        }
    }

    /// Judges a file's presence from its observed state: absent, a directory,
    /// or present but not a plain file, in that order of precedence.
    pub fn assert_file(exists: bool, is_dir: bool, is_file: bool) -> (r: Result<
        (),
        FilePresenceErrorKind,
    >)
        ensures
            !exists ==> r == Result::<(), FilePresenceErrorKind>::Err(
                FilePresenceErrorKind::NotFound,
            ),
            exists && is_dir ==> r == Result::<(), FilePresenceErrorKind>::Err(
                FilePresenceErrorKind::FileIsDir,
            ),
            exists && !is_dir && !is_file ==> r == Result::<(), FilePresenceErrorKind>::Err(
                FilePresenceErrorKind::FileIsOther,
            ),
            exists && !is_dir && is_file ==> r is Ok,
    {
        if !exists {
            Err(FilePresenceErrorKind::NotFound)
        } else if is_dir {
            Err(FilePresenceErrorKind::FileIsDir)
        } else if !is_file {
            Err(FilePresenceErrorKind::FileIsOther)
        } else {
            Ok(())
        }
    }

    pub fn at(self, path: &str) -> (r: Error)
        ensures
            r.description@ == Error::spec_file_presence_desc(path@, self),
            r.advice@ == Error::spec_file_presence_advice(self),
    {
        Error::file_presence(path, self)
    }
}

/// Why an assignment refuses interaction at this time.
#[derive(Clone, Copy, PartialEq, Eq, Structural, Debug)]
pub enum InactiveKind {
    BeforeOpen,
    AfterClose,
    Inactive,
}

impl InactiveKind {
    pub open spec fn spec_description(&self) -> Seq<char> {
        match self {
            InactiveKind::BeforeOpen
                => "Assignments cannot be interacted with before their open date."@,
            InactiveKind::AfterClose
                => "Assignments cannot be interacted with after their close date."@,
            InactiveKind::Inactive
                => "Interaction with this assignment is currently disabled."@,
        }
    }

    pub fn description(&self) -> (r: &'static str)
        ensures
            r@ == self.spec_description(),
    {
        match self {
            InactiveKind::BeforeOpen
                => "Assignments cannot be interacted with before their open date.",
            InactiveKind::AfterClose
                => "Assignments cannot be interacted with after their close date.",
            InactiveKind::Inactive
                => "Interaction with this assignment is currently disabled.",
        }
    }
}

/// A user-facing failure: what went wrong, and what the user can do about it.
#[derive(Clone, PartialEq, Debug)]
pub struct Error {
    pub description: String,
    pub advice: String,
}

impl Error {
    fn new(description: String, advice: String) -> (r: Error)
        ensures
            r.description == description,
            r.advice == advice,
    {
        Error { description, advice }
    }

    pub fn invalid_cwd(err: &str) -> (r: Error)
        ensures
            r.description@ == "Failed to access Current Working Directory: "@ + err@,
            r.advice@ == "Please change to a valid directory."@,
    {
        Self::new(
            concat2("Failed to access Current Working Directory: ", err),
            String::from_str("Please change to a valid directory."),
        )
    }

    pub fn invalid_uid(uid: u32) -> (r: Error)
        ensures
            r.description@ == "UID "@ + crate::strutil::spec_u64_dec(uid as nat)
                + " is invalid."@,
            r.advice@ == CONTACT_INSTRUCTOR@,
    {
        let digits = u64_to_string(uid as u64);
        Self::new(
            concat3("UID ", digits.as_str(), " is invalid."),
            String::from_str(CONTACT_INSTRUCTOR),
        )
    }

    pub fn invalid_user(username: &str) -> (r: Error)
        ensures
            r.description@ == "User '"@ + username@ + "' is invalid."@,
            r.advice@ == MAYBE_CONTACT_INSTRUCTOR@,
    {
        Self::new(
            concat3("User '", username, "' is invalid."),
            String::from_str(MAYBE_CONTACT_INSTRUCTOR),
        )
    }

    pub fn no_home_dir() -> (r: Error)
        ensures
            r.description@ == "Unable to determine home directory location."@,
            r.advice@ == MAYBE_CONTACT_INSTRUCTOR@,
    {
        Self::new(
            String::from_str("Unable to determine home directory location."),
            String::from_str(MAYBE_CONTACT_INSTRUCTOR),
        )
    }

    pub fn no_base_dir(path: &str) -> (r: Error)
        ensures
            r.description@ == "Base submission directory for course '"@ + path@
                + "' does not exist."@,
            r.advice@ == CONTACT_INSTRUCTOR@,
    {
        Self::new(
            concat3("Base submission directory for course '", path, "' does not exist."),
            String::from_str(CONTACT_INSTRUCTOR),
        )
    }

    pub fn spec_io(path: &str, err: &str) -> (r: Error)
        ensures
            r.description@ == "Specification file at "@ + path@
                + " could not be read, IO Error: "@ + err@,
            r.advice@ == CONTACT_INSTRUCTOR@,
    {
        Self::new(
            concat4("Specification file at ", path, " could not be read, IO Error: ", err),
            String::from_str(CONTACT_INSTRUCTOR),
        )
    }

    pub fn bad_spec(path: &str, desc: &str) -> (r: Error)
        ensures
            r.description@ == "Specification file at "@ + path@ + " is malformed: "@ + desc@,
            r.advice@ == CONTACT_INSTRUCTOR@,
    {
        Self::new(
            concat4("Specification file at ", path, " is malformed: ", desc),
            String::from_str(CONTACT_INSTRUCTOR),
        )
    }

    pub fn bad_stats(username: &str, desc: &str) -> (r: Error)
        ensures
            r.description@ == "Stat block for "@ + username@ + " is malformed: "@ + desc@,
            r.advice@ == CONTACT_INSTRUCTOR@,
    {
        Self::new(
            concat4("Stat block for ", username, " is malformed: ", desc),
            String::from_str(CONTACT_INSTRUCTOR),
        )
    }

    pub fn io(desc: &str, path: &str, err: &str) -> (r: Error)
        ensures
            r.description@ == desc@ + " at "@ + path@ + ": "@ + err@,
            r.advice@ == MAYBE_CONTACT_INSTRUCTOR@,
    {
        Self::new(
            concat5(desc, " at ", path, ": ", err),
            String::from_str(MAYBE_CONTACT_INSTRUCTOR),
        )
    }

    pub fn command(cmd: &str, err: &str) -> (r: Error)
        ensures
            r.description@ == "Failed to run command "@ + cmd@ + ": "@ + err@,
            r.advice@ == CONTACT_INSTRUCTOR@,
    {
        Self::new(
            concat4("Failed to run command ", cmd, ": ", err),
            String::from_str(CONTACT_INSTRUCTOR),
        )
    }

    pub fn subprocess(desc: &str, err: &str) -> (r: Error)
        ensures
            r.description@ == "Subprocess "@ + desc@ + " failed: "@ + err@,
            r.advice@ == CONTACT_INSTRUCTOR@,
    {
        Self::new(
            concat4("Subprocess ", desc, " failed: ", err),
            String::from_str(CONTACT_INSTRUCTOR),
        )
    }

    pub fn invalid_date(date: &str) -> (r: Error)
        ensures
            r.description@ == "Invalid date: "@ + date@,
            r.advice@ == VALID_DATE@,
    {
        Self::new(concat2("Invalid date: ", date), String::from_str(VALID_DATE))
    }

    pub fn date_out_of_range(date: &str) -> (r: Error)
        ensures
            r.description@ == "Date out of range: "@ + date@,
            r.advice@ == VALID_DATE@,
    {
        Self::new(concat2("Date out of range: ", date), String::from_str(VALID_DATE))
    }

    pub fn invalid_toml(path: &str, err: &str) -> (r: Error)
        ensures
            r.description@ == "Invalid toml in "@ + path@ + ": "@ + err@,
            r.advice@ == CONTACT_INSTRUCTOR@,
    {
        Self::new(
            concat4("Invalid toml in ", path, ": ", err),
            String::from_str(CONTACT_INSTRUCTOR),
        )
    }

    pub fn toml_ser(desc: &str, err: &str) -> (r: Error)
        ensures
            r.description@ == "Failed to serialize toml for "@ + desc@ + ": "@ + err@,
            r.advice@ == CONTACT_INSTRUCTOR@,
    {
        Self::new(
            concat4("Failed to serialize toml for ", desc, ": ", err),
            String::from_str(CONTACT_INSTRUCTOR),
        )
    }

    pub fn invalid_asgn(name: &str) -> (r: Error)
        ensures
            r.description@ == "Assignment '"@ + name@ + "' is invalid or non-existant."@,
            r.advice@ == MAYBE_CONTACT_INSTRUCTOR@,
    {
        Self::new(
            concat3("Assignment '", name, "' is invalid or non-existant."),
            String::from_str(MAYBE_CONTACT_INSTRUCTOR),
        )
    }

    pub open spec fn spec_file_presence_desc(
        path: Seq<char>,
        kind: FilePresenceErrorKind,
    ) -> Seq<char> {
        let what = match kind {
            FilePresenceErrorKind::NotFound => "File not found"@,
            FilePresenceErrorKind::FileIsDir => "File is actually a directory"@,
            FilePresenceErrorKind::FileIsOther
                => "File is neither a normal file nor a directory"@,
        };
        what + ": "@ + path
    }

    pub open spec fn spec_file_presence_advice(kind: FilePresenceErrorKind) -> Seq<char> {
        match kind {
            FilePresenceErrorKind::NotFound => "Please ensure that the file exists"@,
            FilePresenceErrorKind::FileIsDir => "Please ensure that the file is not a directory"@,
            FilePresenceErrorKind::FileIsOther
                => "Please ensure that the file is actually a file"@,
        }
    }

    pub fn file_presence(path: &str, kind: FilePresenceErrorKind) -> (r: Error)
        ensures
            r.description@ == Error::spec_file_presence_desc(path@, kind),
            r.advice@ == Error::spec_file_presence_advice(kind),
    {
        Self::new(concat3(kind.description(), ": ", path), String::from_str(kind.advice()))
    }

    pub fn no_setup(name: &str) -> (r: Error)
        ensures
            r.description@ == "Setup files are not available for assignment '"@ + name@ + "'."@,
            r.advice@ == MAYBE_CONTACT_INSTRUCTOR@,
    {
        Self::new(
            concat3("Setup files are not available for assignment '", name, "'."),
            String::from_str(MAYBE_CONTACT_INSTRUCTOR),
        )
    }

    pub fn no_such_member(name: &str) -> (r: Error)
        ensures
            r.description@ == "User '"@ + name@ + "' is not a member of this course."@,
            r.advice@ == MAYBE_CONTACT_INSTRUCTOR@,
    {
        Self::new(
            concat3("User '", name, "' is not a member of this course."),
            String::from_str(MAYBE_CONTACT_INSTRUCTOR),
        )
    }

    pub fn table_error() -> (r: Error)
        ensures
            r.description@ == "Failure while constructing output table."@,
            r.advice@ == CONTACT_INSTRUCTOR@,
    {
        Self::new(
            String::from_str("Failure while constructing output table."),
            String::from_str(CONTACT_INSTRUCTOR),
        )
    }

    pub fn inactive(kind: InactiveKind) -> (r: Error)
        ensures
            r.description@ == kind.spec_description(),
            r.advice@ == MAYBE_CONTACT_INSTRUCTOR@,
    {
        Self::new(
            String::from_str(kind.description()),
            String::from_str(MAYBE_CONTACT_INSTRUCTOR),
        )
    }

    pub fn grace_not_in_course() -> (r: Error)
        ensures
            r.description@ == "This course does not provide grace days."@,
            r.advice@ == "Assignments should be turned in on-time for full credit."@,
    {
        Self::new(
            String::from_str("This course does not provide grace days."),
            String::from_str("Assignments should be turned in on-time for full credit."),
        )
    }

    pub fn grace_insufficient() -> (r: Error)
        ensures
            r.description@
                == "There aren't enough free grace days to provide such an extension."@,
            r.advice@
                == "To increase the number of available grace days, remove grace days from other assignments."@,
    {
        Self::new(
            String::from_str("There aren't enough free grace days to provide such an extension."),
            String::from_str(
                "To increase the number of available grace days, remove grace days from other assignments.",
            ),
        )
    }

    pub fn grace_limit() -> (r: Error)
        ensures
            r.description@
                == "The number of grace days requested exceeds the per-assignment grace day limit."@,
            r.advice@
                == "Assignments should be turned in before the grace day limit for full credit."@,
    {
        Self::new(
            String::from_str(
                "The number of grace days requested exceeds the per-assignment grace day limit.",
            ),
            String::from_str(
                "Assignments should be turned in before the grace day limit for full credit.",
            ),
        )
    }

    /// A fresh error carrying the same text.
    pub fn duplicate(&self) -> (r: Error)
        ensures
            r.description@ == self.description@,
            r.advice@ == self.advice@,
    {
        Error {
            description: String::from_str(self.description.as_str()),
            advice: String::from_str(self.advice.as_str()),
        }
    }

    pub fn custom(description: String, advice: String) -> (r: Error)
        ensures
            r.description == description,
            r.advice == advice,
    {
        Self::new(description, advice)
    }
}

/// An accumulating list of user-facing failures.
#[derive(Clone, PartialEq, Debug)]
pub struct ErrorLog(pub Vec<Error>);

impl ErrorLog {
    pub fn new() -> (r: ErrorLog)
        ensures
            r.0@ == Seq::<Error>::empty(),
    {
        ErrorLog(Vec::new())
    }

    pub fn push(&mut self, info: Error)
        ensures
            final(self).0@ == old(self).0@.push(info),
    {
        self.0.push(info);
    }

    /// Success exactly when nothing was logged; otherwise the log itself.
    pub fn into_result(self) -> (r: Result<(), ErrorLog>)
        ensures
            self.0@.len() == 0 ==> r is Ok,
            self.0@.len() > 0 ==> r == Result::<(), ErrorLog>::Err(self),
    {
        if self.0.len() == 0 {
            Ok(())
        } else {
            Err(self)
        }
    }

    pub fn from_error(info: Error) -> (r: ErrorLog)
        ensures
            r.0@ == seq![info],
    {
        let mut log = ErrorLog::new();
        log.push(info);
        proof {
            assert(log.0@ =~= seq![info]);
        }
        log
    }
}

} // verus!
