use vstd::prelude::*;

use crate::error::Error;
use crate::strutil::{spec_u64_dec, u64_to_string};

verus! {

/// `base` and `name` joined as a filesystem path.
pub open spec fn spec_path_join(base: Seq<char>, name: Seq<char>) -> Seq<char> {
    base + "/"@ + name
}

pub fn path_join(base: &str, name: &str) -> (r: String)
    ensures
        r@ == spec_path_join(base@, name@),
{
    let mut r = String::from_str(base);
    r.append("/");
    r.append(name);
    proof {
        assert(r@ =~= spec_path_join(base@, name@));
    }
    r
}

/// The next candidate for a fresh directory name: the base name itself, and
/// then the base name with a dot and a counter.
pub fn fresh_dir_candidate(base_name: &str, idx: Option<u64>) -> (r: String)
    ensures
        match idx {
            None => r@ == base_name@,
            Some(n) => r@ == base_name@ + "."@ + crate::strutil::spec_u64_dec(n as nat),
        },
{
    match idx {
        None => String::from_str(base_name),
        Some(n) => {
            let mut r = String::from_str(base_name);
            r.append(".");
            r.append(u64_to_string(n).as_str());
            proof {
                assert(r@ =~= base_name@ + "."@ + crate::strutil::spec_u64_dec(n as nat));
            }
            r
        },
    }
}

/// One student's submission location for one assignment: the directory the
/// required files land in, and the files the assignment requires.
pub struct SubmissionSlot {
    pub base_path: String,
    pub file_list: Vec<String>,
}

impl SubmissionSlot {
    /// The slot for one user's submission of one assignment: the directory
    /// `course/assignment/username`, and the assignment's required files.
    pub fn for_user(
        course_base: &str,
        asgn_name: &str,
        username: &str,
        file_list: &Vec<String>,
    ) -> (r: SubmissionSlot)
        ensures
            r.base_path@ == spec_path_join(spec_path_join(course_base@, asgn_name@), username@),
            r.file_list@.len() == file_list@.len(),
            forall|i: int|
                0 <= i < file_list@.len() ==> (#[trigger] r.file_list@[i])@ == file_list@[i]@,
    {
        let mut files: Vec<String> = Vec::new();
        let mut i: usize = 0;
        while i < file_list.len()
            invariant
                i <= file_list@.len(),
                files@.len() == i,
                forall|j: int| 0 <= j < i ==> (#[trigger] files@[j])@ == file_list@[j]@,
            decreases file_list@.len() - i,
        {
            files.push(String::from_str(file_list[i].as_str()));
            i = i + 1;
        }
        SubmissionSlot {
            base_path: path_join(path_join(course_base, asgn_name).as_str(), username),
            file_list: files,
        }
    }

    /// The slot's grace file.
    pub fn grace_path(&self) -> (r: String)
        ensures
            r@ == spec_path_join(self.base_path@, ".grace"@),
    {
        path_join(self.base_path.as_str(), ".grace")
    }

    /// The slot's extension file.
    pub fn extension_path(&self) -> (r: String)
        ensures
            r@ == spec_path_join(self.base_path@, ".extension"@),
    {
        path_join(self.base_path.as_str(), ".extension")
    }

    /// Where each required file of the assignment lives in this slot, in the
    /// assignment's file order.
    pub fn file_paths(&self) -> (r: Vec<String>)
        ensures
            r@.len() == self.file_list@.len(),
            forall|i: int|
                0 <= i < r@.len() ==> (#[trigger] r@[i])@ == spec_path_join(
                    self.base_path@,
                    self.file_list@[i]@,
                ),
    {
        let mut r: Vec<String> = Vec::new();
        let mut i: usize = 0;
        while i < self.file_list.len()
            invariant
                i <= self.file_list@.len(),
                r@.len() == i,
                forall|j: int|
                    0 <= j < i ==> (#[trigger] r@[j])@ == spec_path_join(
                        self.base_path@,
                        self.file_list@[j]@,
                    ),
            decreases self.file_list@.len() - i,
        {
            r.push(path_join(self.base_path.as_str(), self.file_list[i].as_str()));
            i = i + 1;
        }
        r
    }

    /// The trust check on the extension file: it counts only when the file's
    /// on-disk owner is the course instructor; any other owner reads as the
    /// file not being there at all, so a student cannot forge an extension.
    pub fn check_extension_owner(owner: &str, instructor: &str, ext_path: &str) -> (r: Result<
        (),
        Error,
    >)
        ensures
            owner@ == instructor@ <==> r is Ok,
            r matches Err(e) ==> e.description@ == Error::spec_file_presence_desc(
                ext_path@,
                crate::error::FilePresenceErrorKind::NotFound,
            ),
    {
        if crate::strutil::str_eq(owner, instructor) {
            Ok(())
        } else {
            Err(Error::file_presence(ext_path, crate::error::FilePresenceErrorKind::NotFound))
        }
    }
}

/// The largest modification time among the required files, never less than
/// zero (the fold starts there).
pub open spec fn spec_max_mtime(times: Seq<i64>) -> int
    decreases times.len(),
{
    if times.len() == 0 {
        0
    } else {
        let rest = spec_max_mtime(times.drop_last());
        if times.last() > rest {
            times.last() as int
        } else {
            rest
        }
    }
}

/// The turn-in time a slot's file state denotes: the submission exists only
/// when every required file is present (each mtime known), and then its time
/// is the latest mtime among them.
pub fn turn_in_time(mtimes: &Vec<Option<i64>>) -> (r: Option<i64>)
    ensures
        r is Some <==> (forall|i: int| 0 <= i < mtimes@.len() ==> (#[trigger] mtimes@[i]) is Some),
        r matches Some(t) ==> t == spec_max_mtime(
            Seq::new(mtimes@.len(), |i: int| mtimes@[i]->0),
        ),
{
    let ghost all = Seq::new(mtimes@.len(), |i: int| mtimes@[i]->0);
    let mut best: i64 = 0;
    let mut i: usize = 0;
    while i < mtimes.len()
        invariant
            i <= mtimes@.len(),
            all == Seq::new(mtimes@.len(), |j: int| mtimes@[j]->0),
            forall|j: int| 0 <= j < i ==> (#[trigger] mtimes@[j]) is Some,
            best == spec_max_mtime(all.take(i as int)),
        decreases mtimes@.len() - i,
    {
        match mtimes[i] {
            Some(t) => {
                if t > best {
                    best = t;
                }
                proof {
                    assert(all.take(i + 1 as int).drop_last() =~= all.take(i as int));
                    assert(all.take(i + 1 as int).last() == all[i as int] == mtimes@[i as int]->0);
                }
                i = i + 1;
            },
            None => {
                return None;
            },
        }
    }
    proof {
        assert(all.take(mtimes@.len() as int) =~= all);
    }
    Some(best)
}

/// What a slot's files and side files say about one submission: when it was
/// turned in (if at all), and the grace and extension days on record.
pub struct SubmissionStatus {
    pub turn_in_time: Option<i64>,
    pub grace_days: i64,
    pub extension_days: i64,
}

/// The "Late"/"Early" rendering of a signed time difference: the label by
/// the sign, then the whole days, leftover hours and leftover minutes of its
/// magnitude — never a negative number inside the text.
pub open spec fn spec_lateness_tail(mag: int) -> Seq<char> {
    spec_u64_dec((mag / 86400) as nat) + "d "@ + spec_u64_dec(((mag % 86400) / 3600) as nat)
        + "h "@ + spec_u64_dec(((mag % 3600) / 60) as nat) + "m"@
}

pub open spec fn spec_lateness(delta: int) -> Seq<char> {
    if delta > 0 {
        "Late "@ + spec_lateness_tail(delta)
    } else {
        "Early "@ + spec_lateness_tail(-delta)
    }
}

/// The verdict string of a submission time against a due date: with no due
/// date only presence is reported; a missing submission is "Not Submitted"
/// until the due date passes and "Missing" after; otherwise the signed
/// difference is rendered per `spec_lateness`.
pub open spec fn spec_versus(turn_in: Option<int>, due: Option<int>, now: int) -> Seq<char> {
    match (turn_in, due) {
        (Some(_), None) => "Submitted"@,
        (None, None) => "Not Submitted"@,
        (None, Some(d)) => if now - d <= 0 {
            "Not Submitted"@
        } else {
            "Missing"@
        },
        (Some(t), Some(d)) => spec_lateness(t - d),
    }
}

pub open spec fn spec_opt_int(o: Option<i64>) -> Option<int> {
    match o {
        Some(v) => Some(v as int),
        None => None,
    }
}

impl SubmissionStatus {
    /// The signed duration in seconds from `time` to the turn-in time, if
    /// there was a submission.
    pub fn time_past(&self, time: i64) -> (r: Option<i128>)
        ensures
            match (r, self.turn_in_time) {
                (Some(d), Some(t)) => d == t - time,
                (None, None) => true,
                _ => false,
            },
    {
        match self.turn_in_time {
            Some(t) => Some((t as i128) - (time as i128)),
            None => None,
        }
    }

    /// The lateness verdict of this submission against a due date, judged at
    /// time `now`.
    pub fn versus(&self, due: Option<i64>, now: i64) -> (r: String)
        ensures
            r@ == spec_versus(spec_opt_int(self.turn_in_time), spec_opt_int(due), now as int),
    {
        match (self.turn_in_time, due) {
            (Some(_), None) => String::from_str("Submitted"),
            (None, None) => String::from_str("Not Submitted"),
            (None, Some(d)) => {
                if (now as i128) - (d as i128) <= 0 {
                    String::from_str("Not Submitted")
                } else {
                    String::from_str("Missing")
                }
            },
            (Some(t), Some(d)) => {
                let delta: i128 = (t as i128) - (d as i128);
                let positive = delta > 0;
                let mag: u64 = if positive {
                    delta as u64
                } else {
                    (-delta) as u64
                };
                let days = mag / 86400;
                let hours = (mag % 86400) / 3600;
                let mins = (mag % 3600) / 60;
                let mut s = if positive {
                    String::from_str("Late ")
                } else {
                    String::from_str("Early ")
                };
                s.append(u64_to_string(days).as_str());
                s.append("d ");
                s.append(u64_to_string(hours).as_str());
                s.append("h ");
                s.append(u64_to_string(mins).as_str());
                s.append("m");
                proof {
                    let ghost m = if t - d > 0 { t - d } else { d - t } as int;
                    assert(days == m / 86400 && hours == (m % 86400) / 3600 && mins == (m % 3600)
                        / 60);
                    assert(s@ =~= spec_lateness(t - d));
                }
                s
            },
        }
    }
}

/// Swapping which of the two instants is later flips "Late" and "Early"
/// while the day, hour and minute components stay identical: the verdicts of
/// a submission at `a` against a due date `b` and of one at `b` against `a`
/// carry the same magnitude tail, labelled "Late" on the positive side and
/// "Early" otherwise.
pub proof fn lemma_versus_antisymmetric(a: int, b: int, now: int)
    ensures
        a > b ==> spec_versus(Some(a), Some(b), now) == "Late "@ + spec_lateness_tail(a - b)
            && spec_versus(Some(b), Some(a), now) == "Early "@ + spec_lateness_tail(a - b),
        a < b ==> spec_versus(Some(a), Some(b), now) == "Early "@ + spec_lateness_tail(b - a)
            && spec_versus(Some(b), Some(a), now) == "Late "@ + spec_lateness_tail(b - a),
        a == b ==> spec_versus(Some(a), Some(b), now) == spec_versus(Some(b), Some(a), now),
{
}

/// Why a grace request is turned down.
#[derive(Clone, Copy, PartialEq, Eq, Structural, Debug)]
pub enum GraceVerdict {
    Granted,
    NoBudget,
    LimitExceeded,
    Insufficient,
}

/// The grace budget rule: no grant in a course without a grace budget; no
/// grant over the per-assignment limit; and across the course, what is
/// already spent elsewhere (`spent` minus this assignment's `current`
/// grant, which the request replaces) plus the request must fit the total.
pub open spec fn spec_grace_verdict(
    total: Option<i64>,
    limit: Option<i64>,
    spent: int,
    current: int,
    amount: int,
) -> GraceVerdict {
    match total {
        None => GraceVerdict::NoBudget,
        Some(t) => {
            if limit matches Some(l) && (l as int) < amount {
                GraceVerdict::LimitExceeded
            } else if (t as int) < spent - current + amount {
                GraceVerdict::Insufficient
            } else {
                GraceVerdict::Granted
            }
        },
    }
}

/// Decides a grace request before anything is persisted. Each refusal comes
/// back as the specific user-facing error the verdict names.
pub fn check_grace_request(
    total: Option<i64>,
    limit: Option<i64>,
    spent: i64,
    current: i64,
    amount: i64,
) -> (r: Result<(), Error>)
    ensures
        r is Ok <==> spec_grace_verdict(total, limit, spent as int, current as int, amount as int)
            is Granted,
        r matches Err(e) ==> {
            let verdict = spec_grace_verdict(
                total,
                limit,
                spent as int,
                current as int,
                amount as int,
            );
            &&& (verdict is NoBudget ==> e.description@
                == "This course does not provide grace days."@)
            &&& (verdict is LimitExceeded ==> e.description@
                == "The number of grace days requested exceeds the per-assignment grace day limit."@)
            &&& (verdict is Insufficient ==> e.description@
                == "There aren't enough free grace days to provide such an extension."@)
        },
{
    match total {
        None => Err(Error::grace_not_in_course()),
        Some(t) => {
            let limit_broken = match limit {
                Some(l) => l < amount,
                None => false,
            };
            if limit_broken {
                Err(Error::grace_limit())
            } else if (t as i128) < (spent as i128) - (current as i128) + (amount as i128) {
                Err(Error::grace_insufficient())
            } else {
                Ok(())
            }
        },
    }
}

/// The budget line cannot be crossed, and the last free day can be taken:
/// a request pushing other-assignment spending plus the request over the
/// total is refused, and a request for exactly the remaining budget is
/// granted whenever the per-assignment limit allows it.
pub proof fn lemma_grace_budget_boundary(
    total: i64,
    limit: Option<i64>,
    spent: int,
    current: int,
    amount: int,
)
    ensures
        spent - current + amount > total as int ==> spec_grace_verdict(
            Some(total),
            limit,
            spent,
            current,
            amount,
        ) !is Granted,
        amount == total as int - (spent - current) && (limit matches Some(l) ==> amount <= l as int)
            ==> spec_grace_verdict(Some(total), limit, spent, current, amount) is Granted,
{
}

/// The course-wide grace spending: the sum of the grace days recorded on
/// every assignment's slot, recomputed from those live values each time.
pub open spec fn spec_sum(values: Seq<i64>) -> int
    decreases values.len(),
{
    if values.len() == 0 {
        0
    } else {
        spec_sum(values.drop_last()) + values.last()
    }
}

/// Sums the per-assignment grace days of one user. The caller keeps the sum
/// within the machine's range, as the per-slot values are bounded in use.
pub fn grace_spent(values: &Vec<i64>) -> (r: i64)
    requires
        i64::MIN <= spec_sum(values@) <= i64::MAX,
        forall|i: int, j: int|
            0 <= i <= j <= values@.len() ==> i64::MIN <= spec_sum(
                #[trigger] values@.subrange(i, j),
            ) <= i64::MAX,
    ensures
        r == spec_sum(values@),
{
    let mut sum: i64 = 0;
    let mut i: usize = 0;
    while i < values.len()
        invariant
            i <= values@.len(),
            sum == spec_sum(values@.take(i as int)),
            forall|a: int, b: int|
                0 <= a <= b <= values@.len() ==> i64::MIN <= spec_sum(
                    #[trigger] values@.subrange(a, b),
                ) <= i64::MAX,
        decreases values@.len() - i,
    {
        proof {
            assert(values@.take(i + 1 as int).drop_last() =~= values@.take(i as int));
            assert(values@.take(i as int) =~= values@.subrange(0, i as int));
            assert(values@.take(i + 1 as int) =~= values@.subrange(0, i + 1 as int));
        }
        sum = sum + values[i];
        i = i + 1;
    }
    proof {
        assert(values@.take(values@.len() as int) =~= values@);
    }
    sum
}

} // verus!
