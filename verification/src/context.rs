use vstd::prelude::*;

use crate::asgn::AsgnSpec;
use crate::dates::LocalDatetime;
use crate::error::{Error, ErrorLog};
use crate::strutil::{join_strings, spec_join, str_eq};
use crate::table::Table;

verus! {

/// The course configuration file's fields.
pub struct CourseToml {
    pub manifest: Vec<String>,
    pub graders: Vec<String>,
    pub students: Vec<String>,
    pub grace_total: Option<i64>,
    pub grace_limit: Option<i64>,
}

impl CourseToml {
    /// The blank configuration a fresh course directory is seeded with.
    pub fn empty() -> (r: CourseToml)
        ensures
            r.manifest@.len() == 0,
            r.graders@.len() == 0,
            r.students@.len() == 0,
            r.grace_total is None,
            r.grace_limit is None,
    {
        CourseToml {
            manifest: Vec::new(),
            graders: Vec::new(),
            students: Vec::new(),
            grace_total: None,
            grace_limit: None,
        }
    }
}

/// What a user may do, judged from the course membership lists.
#[derive(Clone, Copy, PartialEq, Eq, Structural, Debug)]
pub enum Role {
    Instructor,
    Grader,
    Student,
    Other,
}

pub open spec fn seq_has_str(v: Seq<String>, s: Seq<char>) -> bool {
    exists|i: int| 0 <= i < v.len() && (#[trigger] v[i])@ == s
}

pub fn vec_contains_str(v: &Vec<String>, s: &str) -> (r: bool)
    ensures
        r == seq_has_str(v@, s@),
{
    let mut i: usize = 0;
    while i < v.len()
        invariant
            i <= v@.len(),
            forall|j: int| 0 <= j < i ==> (#[trigger] v@[j])@ != s@,
        decreases v@.len() - i,
    {
        if str_eq(v[i].as_str(), s) {
            return true;
        }
        i = i + 1;
    }
    false
}

/// The role a username holds: being listed as a student comes first, then
/// being listed as a grader, then owning the course directory.
pub fn deduce_role(
    username: &str,
    instructor: &str,
    students: &Vec<String>,
    graders: &Vec<String>,
) -> (r: Role)
    ensures
        seq_has_str(students@, username@) ==> r == Role::Student,
        !seq_has_str(students@, username@) && seq_has_str(graders@, username@) ==> r
            == Role::Grader,
        !seq_has_str(students@, username@) && !seq_has_str(graders@, username@) && username@
            == instructor@ ==> r == Role::Instructor,
        !seq_has_str(students@, username@) && !seq_has_str(graders@, username@) && username@
            != instructor@ ==> r == Role::Other,
{
    if vec_contains_str(students, username) {
        Role::Student
    } else if vec_contains_str(graders, username) {
        Role::Grader
    } else if str_eq(username, instructor) {
        Role::Instructor
    } else {
        Role::Other
    }
}

fn clone_str_vec(v: &Vec<String>) -> (r: Vec<String>)
    ensures
        r@.len() == v@.len(),
        forall|i: int| 0 <= i < v@.len() ==> (#[trigger] r@[i])@ == v@[i]@,
{
    let mut r: Vec<String> = Vec::new();
    let mut i: usize = 0;
    while i < v.len()
        invariant
            i <= v@.len(),
            r@.len() == i,
            forall|j: int| 0 <= j < i ==> (#[trigger] r@[j])@ == v@[j]@,
        decreases v@.len() - i,
    {
        r.push(String::from_str(v[i].as_str()));
        i = i + 1;
    }
    r
}

/// The course membership in its canonical order: the instructor first, then
/// the graders, then the students.
pub fn member_list(instructor: &str, graders: &Vec<String>, students: &Vec<String>) -> (r: Vec<
    String,
>)
    ensures
        r@.len() == 1 + graders@.len() + students@.len(),
        r@[0]@ == instructor@,
        forall|i: int| 0 <= i < graders@.len() ==> (#[trigger] r@[1 + i])@ == graders@[i]@,
        forall|i: int|
            0 <= i < students@.len() ==> (#[trigger] r@[1 + graders@.len() + i])@ == students@[i]@,
{
    let mut r: Vec<String> = Vec::new();
    r.push(String::from_str(instructor));
    let mut i: usize = 0;
    while i < graders.len()
        invariant
            i <= graders@.len(),
            r@.len() == 1 + i,
            r@[0]@ == instructor@,
            forall|j: int| 0 <= j < i ==> (#[trigger] r@[1 + j])@ == graders@[j]@,
        decreases graders@.len() - i,
    {
        r.push(String::from_str(graders[i].as_str()));
        i = i + 1;
    }
    let mut k: usize = 0;
    while k < students.len()
        invariant
            k <= students@.len(),
            r@.len() == 1 + graders@.len() + k,
            r@[0]@ == instructor@,
            forall|j: int| 0 <= j < graders@.len() ==> (#[trigger] r@[1 + j])@ == graders@[j]@,
            forall|j: int| 0 <= j < k ==> (#[trigger] r@[1 + graders@.len() + j])@ == students@[j]@,
        decreases students@.len() - k,
    {
        r.push(String::from_str(students[k].as_str()));
        k = k + 1;
    }
    r
}

/// Appends each listed name that the list does not already hold, in the
/// given order; names already present are left alone.
pub fn add_unique(list: &mut Vec<String>, items: Vec<String>)
    ensures
        final(list)@.len() >= old(list)@.len(),
        // What was there stays, in place.
        forall|i: int| 0 <= i < old(list)@.len() ==> final(list)@[i] == old(list)@[i],
        // Everything handed in is present afterwards.
        forall|i: int|
            0 <= i < items@.len() ==> seq_has_str(final(list)@, (#[trigger] items@[i])@),
        // Nothing new appears beyond the handed-in names.
        forall|i: int|
            old(list)@.len() <= i < final(list)@.len() ==> seq_has_str(
                items@,
                (#[trigger] final(list)@[i])@,
            ),
{
    let ghost l0 = list@;
    let ghost given = items@;
    let mut rest = items;
    loop
        invariant
            l0 == old(list)@,
            given == items@,
            list@.len() >= l0.len(),
            forall|i: int| 0 <= i < l0.len() ==> list@[i] == l0[i],
            forall|i: int|
                0 <= i < given.len() - rest@.len() ==> seq_has_str(list@, (#[trigger] given[i])@),
            rest@.len() <= given.len(),
            forall|i: int| 0 <= i < rest@.len() ==> #[trigger] rest@[i] == given[given.len()
                - rest@.len() + i],
            forall|i: int|
                l0.len() <= i < list@.len() ==> seq_has_str(given, (#[trigger] list@[i])@),
        decreases rest@.len(),
    {
        if rest.len() == 0 {
            return ;
        }
        let ghost done = given.len() - rest@.len();
        let item = rest.remove(0);
        proof {
            assert(item == given[done]);
            assert(forall|i: int|
                0 <= i < rest@.len() ==> #[trigger] rest@[i] == given[done + 1 + i]);
        }
        if !vec_contains_str(list, item.as_str()) {
            let ghost before = list@;
            list.push(item);
            proof {
                assert(list@[list@.len() - 1]@ == given[done]@);
                assert(forall|i: int| 0 <= i < before.len() ==> list@[i] == before[i]);
                assert(seq_has_str(list@, given[done]@));
                assert(seq_has_str(given, list@[list@.len() - 1]@)) by {
                    assert(0 <= done < given.len());
                }
                assert(forall|s: Seq<char>| seq_has_str(before, s) ==> seq_has_str(list@, s));
            }
        } else {
            proof {
                assert(seq_has_str(list@, given[done]@));
            }
        }
    }
}

/// Removes every name that the given list holds; the kept names stay in
/// order.
pub fn remove_listed(list: &mut Vec<String>, items: &Vec<String>)
    ensures
        final(list)@.len() <= old(list)@.len(),
        // Exactly the entries not listed survive, in their old order.
        final(list)@.map_values(|s: String| s@) == old(list)@.map_values(|s: String| s@).filter(
            |s: Seq<char>| !seq_has_str(items@, s),
        ),
{
    let ghost v0 = list@.map_values(|s: String| s@);
    let ghost pred = |s: Seq<char>| !seq_has_str(items@, s);
    let n = list.len();
    let mut kept: Vec<String> = Vec::new();
    let mut i: usize = 0;
    while i < n
        invariant
            i <= n,
            n == list@.len(),
            list@ == old(list)@,
            v0 == list@.map_values(|s: String| s@),
            v0.len() == n,
            pred == (|s: Seq<char>| !seq_has_str(items@, s)),
            kept@.map_values(|s: String| s@) == v0.take(i as int).filter(pred),
        decreases n - i,
    {
        proof {
            assert(v0.take(i + 1 as int).drop_last() =~= v0.take(i as int));
            assert(v0.take(i + 1 as int).last() == v0[i as int]);
            reveal(Seq::filter);
        }
        if !vec_contains_str(items, list[i].as_str()) {
            kept.push(String::from_str(list[i].as_str()));
            proof {
                assert(list@[i as int]@ == v0[i as int]);
                assert(kept@.map_values(|s: String| s@) =~= v0.take(i + 1 as int).filter(pred));
            }
        } else {
            proof {
                assert(kept@.map_values(|s: String| s@) =~= v0.take(i + 1 as int).filter(pred));
            }
        }
        i = i + 1;
    }
    proof {
        assert(v0.take(n as int) =~= v0);
        v0.lemma_filter_len(pred);
    }
    *list = kept;
}

/// One entry of a filesystem access-control list: a user and the rights the
/// course grants them.
pub struct FaclEntry {
    pub username: String,
    pub read: bool,
    pub write: bool,
    pub exe: bool,
}

impl FaclEntry {
    pub open spec fn spec_render(&self) -> Seq<char> {
        self.username@ + ":"@ + (if self.read { "r"@ } else { Seq::empty() }) + (if self.write {
            "w"@
        } else {
            Seq::empty()
        }) + (if self.exe { "x"@ } else { Seq::empty() })
    }

    /// The entry as `setfacl` writes it: the name, a colon, and the letters
    /// of the granted rights.
    pub fn render(&self) -> (r: String)
        ensures
            r@ == self.spec_render(),
    {
        let mut s = String::from_str(self.username.as_str());
        s.append(":");
        if self.read {
            s.append("r");
        }
        if self.write {
            s.append("w");
        }
        if self.exe {
            s.append("x");
        }
        proof {
            assert(s@ =~= self.spec_render());
        }
        s
    }
}

/// The whole access-control list as one `setfacl` argument: the entries
/// rendered and joined with commas.
pub fn facl_entries_string(entries: &Vec<FaclEntry>) -> (r: String)
    ensures
        r@ == spec_join(
            Seq::new(entries@.len(), |i: int| entries@[i].spec_render()),
            ","@,
        ),
{
    let mut rendered: Vec<String> = Vec::new();
    let mut i: usize = 0;
    while i < entries.len()
        invariant
            i <= entries@.len(),
            rendered@.len() == i,
            forall|j: int| 0 <= j < i ==> (#[trigger] rendered@[j])@ == entries@[j].spec_render(),
        decreases entries@.len() - i,
    {
        rendered.push(entries[i].render());
        i = i + 1;
    }
    let r = join_strings(&rendered, ",");
    proof {
        assert(rendered@.map_values(|p: String| p@) =~= Seq::new(
            entries@.len(),
            |i: int| entries@[i].spec_render(),
        ));
    }
    r
}

/// The access list grading support files get: the instructor with full
/// rights, the submitting student (if one is named) with full rights, and
/// every other grader with read and execute.
pub fn grader_facl(instructor: &str, graders: &Vec<String>, student: Option<&str>) -> (r: Vec<
    FaclEntry,
>)
    ensures
        r@.len() >= 1,
        r@[0].username@ == instructor@ && r@[0].read && r@[0].write && r@[0].exe,
        student matches Some(s) ==> r@.len() >= 2 && r@[1].username@ == s@ && r@[1].read
            && r@[1].write && r@[1].exe,
        // Whatever follows is exactly the graders who are neither the named
        // student nor the instructor, in order, with read and execute only.
        ({
            let lead = if student is Some { 2int } else { 1int };
            let kept = Seq::new(graders@.len(), |i: int| graders@[i]@).filter(
                |g: Seq<char>| (match student {
                    Some(s) => g != s@,
                    None => true,
                }) && g != instructor@,
            );
            &&& r@.len() == lead + kept.len()
            &&& forall|i: int|
                0 <= i < kept.len() ==> (#[trigger] r@[lead + i]).username@ == kept[i]
                    && r@[lead + i].read && !r@[lead + i].write && r@[lead + i].exe
        }),
{
    let ghost names = Seq::new(graders@.len(), |i: int| graders@[i]@);
    let ghost pred = |g: Seq<char>| (match student {
        Some(s) => g != s@,
        None => true,
    }) && g != instructor@;
    let mut r: Vec<FaclEntry> = Vec::new();
    r.push(
        FaclEntry { username: String::from_str(instructor), read: true, write: true, exe: true },
    );
    match student {
        Some(s) => {
            r.push(FaclEntry { username: String::from_str(s), read: true, write: true, exe: true });
        },
        None => (),
    }
    let lead = r.len();
    let ghost head = r@;
    let mut i: usize = 0;
    while i < graders.len()
        invariant
            i <= graders@.len(),
            names == Seq::new(graders@.len(), |k: int| graders@[k]@),
            pred == (|g: Seq<char>| (match student {
                Some(s) => g != s@,
                None => true,
            }) && g != instructor@),
            lead == head.len(),
            lead == (if student is Some { 2int } else { 1int }),
            r@.len() == lead + names.take(i as int).filter(pred).len(),
            forall|j: int| 0 <= j < lead ==> r@[j] == head[j],
            r@[0].username@ == instructor@ && r@[0].read && r@[0].write && r@[0].exe,
            student matches Some(s) ==> r@.len() >= 2 && r@[1].username@ == s@ && r@[1].read
                && r@[1].write && r@[1].exe,
            forall|j: int|
                0 <= j < names.take(i as int).filter(pred).len() ==> (#[trigger] r@[lead
                    + j]).username@ == names.take(i as int).filter(pred)[j] && r@[lead + j].read
                    && !r@[lead + j].write && r@[lead + j].exe,
        decreases graders@.len() - i,
    {
        proof {
            reveal(Seq::filter);
            assert(names.take(i + 1 as int).drop_last() =~= names.take(i as int));
            assert(names.take(i + 1 as int).last() == names[i as int]);
            assert(names[i as int] == graders@[i as int]@);
        }
        let keep = match student {
            Some(s) => !str_eq(graders[i].as_str(), s) && !str_eq(graders[i].as_str(), instructor),
            None => !str_eq(graders[i].as_str(), instructor),
        };
        if keep {
            r.push(
                FaclEntry {
                    username: String::from_str(graders[i].as_str()),
                    read: true,
                    write: false,
                    exe: true,
                },
            );
        }
        i = i + 1;
    }
    proof {
        assert(names.take(graders@.len() as int) =~= names);
    }
    r
}

/// The read-mostly course state every engine call threads through: who runs
/// the course, where it lives, who is asking, and what the course file says.
pub struct Context {
    pub instructor: String,
    pub base_path: String,
    pub exe_path: String,
    pub uid: u32,
    pub username: String,
    pub time_epoch: i64,
    pub cwd: String,
    pub manifest: Vec<String>,
    pub graders: Vec<String>,
    pub students: Vec<String>,
    pub members: Vec<String>,
    pub grace_total: Option<i64>,
    pub grace_limit: Option<i64>,
    pub role: Role,
    pub catalog: Vec<(String, Result<AsgnSpec, Error>)>,
}

impl Context {
    /// The stored form of the course configuration.
    pub fn course_toml(&self) -> (r: CourseToml)
        ensures
            r.manifest@.len() == self.manifest@.len(),
            forall|i: int|
                0 <= i < self.manifest@.len() ==> (#[trigger] r.manifest@[i])@
                    == self.manifest@[i]@,
            r.graders@.len() == self.graders@.len(),
            forall|i: int|
                0 <= i < self.graders@.len() ==> (#[trigger] r.graders@[i])@ == self.graders@[i]@,
            r.students@.len() == self.students@.len(),
            forall|i: int|
                0 <= i < self.students@.len() ==> (#[trigger] r.students@[i])@
                    == self.students@[i]@,
            r.grace_total == self.grace_total,
            r.grace_limit == self.grace_limit,
    {
        CourseToml {
            manifest: clone_str_vec(&self.manifest),
            graders: clone_str_vec(&self.graders),
            students: clone_str_vec(&self.students),
            grace_total: self.grace_total,
            grace_limit: self.grace_limit,
        }
    }

    /// The catalog entry under an assignment name: the spec if it loaded,
    /// its load error if it did not, and an invalid-assignment error when
    /// the name is not in the catalog at all.
    pub fn catalog_get(&self, asgn_name: &str) -> (r: Result<&AsgnSpec, Error>)
        ensures
            match r {
                Ok(spec) => exists|i: int|
                    0 <= i < self.catalog@.len() && (#[trigger] self.catalog@[i]).0@ == asgn_name@
                        && self.catalog@[i].1 == Ok::<AsgnSpec, Error>(*spec),
                Err(e) => {
                    ||| (!exists|i: int|
                        0 <= i < self.catalog@.len() && (#[trigger] self.catalog@[i]).0@
                            == asgn_name@) && e.description@ == "Assignment '"@ + asgn_name@
                        + "' is invalid or non-existant."@
                    ||| exists|i: int|
                        0 <= i < self.catalog@.len() && (#[trigger] self.catalog@[i]).0@
                            == asgn_name@ && (self.catalog@[i].1 matches Err(orig)
                            && e.description@ == orig.description@ && e.advice@ == orig.advice@)
                },
            },
    {
        let mut i: usize = 0;
        while i < self.catalog.len()
            invariant
                i <= self.catalog@.len(),
                forall|j: int| 0 <= j < i ==> (#[trigger] self.catalog@[j]).0@ != asgn_name@,
            decreases self.catalog@.len() - i,
        {
            if str_eq(self.catalog[i].0.as_str(), asgn_name) {
                return match &self.catalog[i].1 {
                    Ok(spec) => Ok(spec),
                    Err(e) => Err(e.duplicate()),
                };
            }
            i = i + 1;
        }
        Err(Error::invalid_asgn(asgn_name))
    }

    /// Every load error in the catalog, in manifest order, gathered for
    /// reporting: the log's texts are exactly those of the failed entries.
    pub fn all_catalog_errors(&self) -> (r: ErrorLog)
        ensures
            ({
                let texts = spec_error_texts(self.catalog@);
                &&& r.0@.len() == texts.len()
                &&& forall|i: int|
                    0 <= i < texts.len() ==> ((#[trigger] r.0@[i]).description@,
                    r.0@[i].advice@) == texts[i]
            }),
    {
        let ghost texts = spec_error_texts(self.catalog@);
        let mut log = ErrorLog::new();
        let mut i: usize = 0;
        while i < self.catalog.len()
            invariant
                i <= self.catalog@.len(),
                texts == spec_error_texts(self.catalog@),
                log.0@.len() == spec_error_texts(self.catalog@.take(i as int)).len(),
                forall|j: int|
                    0 <= j < log.0@.len() ==> ((#[trigger] log.0@[j]).description@,
                    log.0@[j].advice@) == spec_error_texts(self.catalog@.take(i as int))[j],
            decreases self.catalog@.len() - i,
        {
            proof {
                assert(self.catalog@.take(i + 1 as int).drop_last() =~= self.catalog@.take(
                    i as int,
                ));
                assert(self.catalog@.take(i + 1 as int).last() == self.catalog@[i as int]);
            }
            match &self.catalog[i].1 {
                Ok(_) => (),
                Err(e) => {
                    log.push(e.duplicate());
                },
            }
            i = i + 1;
        }
        proof {
            assert(self.catalog@.take(self.catalog@.len() as int) =~= self.catalog@);
        }
        log
    }
}

/// The description and advice texts of the failed catalog entries, in
/// catalog order.
pub open spec fn spec_error_texts(catalog: Seq<(String, Result<AsgnSpec, Error>)>) -> Seq<
    (Seq<char>, Seq<char>),
>
    decreases catalog.len(),
{
    if catalog.len() == 0 {
        Seq::empty()
    } else {
        let rest = spec_error_texts(catalog.drop_last());
        match catalog.last().1 {
            Ok(_) => rest,
            Err(e) => rest.push((e.description@, e.advice@)),
        }
    }
}

/// The status column of an assignment listing: disabled wins, then not yet
/// open, then already closed; otherwise the assignment is usable.
pub fn status_label(active: bool, before_open: bool, after_close: bool) -> (r: &'static str)
    ensures
        !active ==> r@ == "DISABLED"@,
        active && before_open ==> r@ == "BEFORE OPEN"@,
        active && !before_open && after_close ==> r@ == "AFTER CLOSE"@,
        active && !before_open && !after_close ==> r@ == "ENABLED"@,
{
    if !active {
        "DISABLED"
    } else if before_open {
        "BEFORE OPEN"
    } else if after_close {
        "AFTER CLOSE"
    } else {
        "ENABLED"
    }
}

/// A due date's listing text: the bare date when it falls at the default
/// 23:59:59, the full timestamp otherwise, and the placeholder when there is
/// none.
pub fn due_repr(due: &Option<LocalDatetime>) -> (r: String)
    ensures
        match due {
            None => r@ == "NONE"@,
            Some(d) => r@ == (if d.hour == 23 && d.minute == 59 && d.second == 59 {
                d.spec_render_date()
            } else {
                d.spec_render()
            }),
        },
{
    match due {
        None => Table::option_repr(None),
        Some(d) => {
            if d.has_default_due_time() {
                d.render_date()
            } else {
                d.render()
            }
        },
    }
}

/// One row of the assignment listing: name, status, the flags, the due date
/// and the file list.
pub fn assignment_summary_row(
    asgn: &AsgnSpec,
    is_before_open: bool,
    is_after_close: bool,
) -> (r: Vec<String>)
    ensures
        r@.len() == 6,
        r@[0]@ == asgn.name@,
        r@[1]@ == (if !asgn.active {
            "DISABLED"@
        } else if is_before_open {
            "BEFORE OPEN"@
        } else if is_after_close {
            "AFTER CLOSE"@
        } else {
            "ENABLED"@
        }),
        r@[2]@ == (if asgn.active {
            "YES"@
        } else {
            "NO"@
        }),
        r@[3]@ == (if asgn.visible {
            "YES"@
        } else {
            "NO"@
        }),
        r@[4]@ == (match asgn.due_date {
            None => "NONE"@,
            Some(d) => if d.hour == 23 && d.minute == 59 && d.second == 59 {
                d.spec_render_date()
            } else {
                d.spec_render()
            },
        }),
        r@[5]@ == spec_join(asgn.file_list@.map_values(|f: String| f@), "  "@),
{
    let mut r: Vec<String> = Vec::new();
    r.push(String::from_str(asgn.name.as_str()));
    r.push(String::from_str(status_label(asgn.active, is_before_open, is_after_close)));
    r.push(String::from_str(if asgn.active { "YES" } else { "NO" }));
    r.push(String::from_str(if asgn.visible { "YES" } else { "NO" }));
    r.push(due_repr(&asgn.due_date));
    r.push(join_strings(&asgn.file_list, "  "));
    r
}

/// One row of the submission listing: assignment, user, the lateness text
/// (already rendered against the due date), and the day counts.
pub fn submission_summary_row(
    asgn_name: &str,
    username: &str,
    lateness: String,
    extension_days: i64,
    grace_days: i64,
) -> (r: Vec<String>)
    ensures
        r@.len() == 5,
        r@[0]@ == asgn_name@,
        r@[1]@ == username@,
        r@[2]@ == lateness@,
        r@[3]@ == crate::strutil::spec_i64_dec(extension_days as int),
        r@[4]@ == crate::strutil::spec_i64_dec(grace_days as int),
{
    let mut r: Vec<String> = Vec::new();
    r.push(String::from_str(asgn_name));
    r.push(String::from_str(username));
    r.push(lateness);
    r.push(crate::strutil::i64_to_string(extension_days));
    r.push(crate::strutil::i64_to_string(grace_days));
    r
}

/// One row of a student's own course summary: assignment, status, due date,
/// lateness against the extended due date, and the file list.
pub fn normal_summary_row(
    asgn: &AsgnSpec,
    is_before_open: bool,
    is_after_close: bool,
    lateness: String,
) -> (r: Vec<String>)
    ensures
        r@.len() == 5,
        r@[0]@ == asgn.name@,
        r@[1]@ == (if !asgn.active {
            "DISABLED"@
        } else if is_before_open {
            "BEFORE OPEN"@
        } else if is_after_close {
            "AFTER CLOSE"@
        } else {
            "ENABLED"@
        }),
        r@[2]@ == (match asgn.due_date {
            None => "NONE"@,
            Some(d) => if d.hour == 23 && d.minute == 59 && d.second == 59 {
                d.spec_render_date()
            } else {
                d.spec_render()
            },
        }),
        r@[3]@ == lateness@,
        r@[4]@ == spec_join(asgn.file_list@.map_values(|f: String| f@), "  "@),
{
    let mut r: Vec<String> = Vec::new();
    r.push(String::from_str(asgn.name.as_str()));
    r.push(String::from_str(status_label(asgn.active, is_before_open, is_after_close)));
    r.push(due_repr(&asgn.due_date));
    r.push(lateness);
    r.push(join_strings(&asgn.file_list, "  "));
    r
}

} // verus!
