use vstd::prelude::*;

use crate::error::{Error, InactiveKind};
use crate::rules::{metric_get, MetricValView, Ruleset};
use crate::stats::{first_block, lemma_first_block_bounds, RankRow, StatBlockSet};
use crate::strutil::str_eq;
use crate::table::Table;

verus! {

/// Whether an assignment may be interacted with: it must be active, and for
/// anyone but the instructor it must be open and not yet closed.
pub fn verify_active(
    active: bool,
    is_instructor: bool,
    is_before_open: bool,
    is_after_close: bool,
) -> (r: Result<(), InactiveKind>)
    ensures
        !active ==> r == Result::<(), InactiveKind>::Err(InactiveKind::Inactive),
        active && !is_instructor && is_before_open ==> r == Result::<(), InactiveKind>::Err(
            InactiveKind::BeforeOpen,
        ),
        active && !is_instructor && !is_before_open && is_after_close ==> r == Result::<
            (),
            InactiveKind,
        >::Err(InactiveKind::AfterClose),
        active && (is_instructor || (!is_before_open && !is_after_close)) ==> r is Ok,
{
    if !active {
        Err(InactiveKind::Inactive)
    } else if !is_instructor && is_before_open {
        Err(InactiveKind::BeforeOpen)
    } else if !is_instructor && is_after_close {
        Err(InactiveKind::AfterClose)
    } else {
        Ok(())
    }
}

/// The position of the first rule naming a target.
pub open spec fn first_rule(rules: Seq<crate::rules::Rule>, target: Seq<char>) -> Option<int>
    decreases rules.len(),
{
    if rules.len() == 0 {
        None
    } else if rules[0].target@ == target {
        Some(0)
    } else {
        match first_rule(rules.drop_first(), target) {
            Some(i) => Some(i + 1),
            None => None,
        }
    }
}

proof fn lemma_first_rule_found(rules: Seq<crate::rules::Rule>, target: Seq<char>, i: int)
    requires
        0 <= i < rules.len(),
        rules[i].target@ == target,
        forall|j: int| 0 <= j < i ==> (#[trigger] rules[j]).target@ != target,
    ensures
        first_rule(rules, target) == Some(i),
    decreases i,
{
    if i == 0 {
    } else {
        assert(forall|a: int|
            0 <= a < rules.drop_first().len() ==> #[trigger] rules.drop_first()[a] == rules[a + 1]);
        lemma_first_rule_found(rules.drop_first(), target, i - 1);
    }
}

proof fn lemma_first_rule_none(rules: Seq<crate::rules::Rule>, target: Seq<char>)
    requires
        forall|j: int| 0 <= j < rules.len() ==> (#[trigger] rules[j]).target@ != target,
    ensures
        first_rule(rules, target) is None,
    decreases rules.len(),
{
    if rules.len() == 0 {
    } else {
        assert(forall|a: int|
            0 <= a < rules.drop_first().len() ==> #[trigger] rules.drop_first()[a] == rules[a + 1]);
        lemma_first_rule_none(rules.drop_first(), target);
    }
}

fn concat5(a: &str, b: &str, c: &str, d: &str, e: &str) -> (r: String)
    ensures
        r@ == a@ + b@ + c@ + d@ + e@,
{
    let mut r = String::from_str(a);
    r.append(b);
    r.append(c);
    r.append(d);
    r.append(e);
    proof {
        assert(r@ =~= a@ + b@ + c@ + d@ + e@);
    }
    r
}

/// The metric kind under which a score name is ranked: the kind of the first
/// rule with that target. A missing rule and a rule without a kind are the
/// two refusals.
pub fn score_kind<'a>(asgn_name: &str, ruleset: &'a Ruleset, rule_name: &str) -> (r: Result<
    &'a String,
    Error,
>)
    ensures
        match r {
            Ok(kind) => (first_rule(ruleset.rules@, rule_name@) matches Some(i)
                && ruleset.rules@[i].kind == Some(*kind)),
            Err(e) => {
                ||| (first_rule(ruleset.rules@, rule_name@) is None && e.description@
                    == "Assignment '"@ + asgn_name@ + "' does not have a '"@ + rule_name@
                    + "' score."@)
                ||| (first_rule(ruleset.rules@, rule_name@) matches Some(i)
                    && ruleset.rules@[i].kind is None && e.description@ == "No score kind given."@)
            },
        },
{
    let ghost rules = ruleset.rules@;
    let mut i: usize = 0;
    while i < ruleset.rules.len()
        invariant
            i <= rules.len(),
            rules == ruleset.rules@,
            forall|j: int| 0 <= j < i ==> (#[trigger] rules[j]).target@ != rule_name@,
        decreases rules.len() - i,
    {
        if str_eq(ruleset.rules[i].target.as_str(), rule_name) {
            proof {
                lemma_first_rule_found(rules, rule_name@, i as int);
            }
            return match &ruleset.rules[i].kind {
                Some(kind) => Ok(kind),
                None => Err(
                    Error::custom(
                        String::from_str("No score kind given."),
                        String::from_str("Please provide a score kind."),
                    ),
                ),
            };
        }
        i = i + 1;
    }
    proof {
        lemma_first_rule_none(rules, rule_name@);
    }
    Err(
        Error::custom(
            concat5("Assignment '", asgn_name, "' does not have a '", rule_name, "' score."),
            String::from_str("If you believe this assignment should have this score, contact the instructor."),
        ),
    )
}

/// Whether a metric kind can key a ranking: only the three kinds metrics
/// are parsed under.
pub fn rank_kind_supported(kind: &str) -> (r: bool)
    ensures
        r == (kind@ == "bool"@ || kind@ == "int"@ || kind@ == "float"@),
{
    str_eq(kind, "bool") || str_eq(kind, "int") || str_eq(kind, "float")
}

/// What one ranking cell shows for a member and a rule target: the stored
/// value's rendering, or the placeholder when the member has no snapshot or
/// the snapshot lacks that score.
pub open spec fn spec_rank_cell(
    blocks: &StatBlockSet,
    member: Seq<char>,
    target: Seq<char>,
) -> Seq<char> {
    match first_block(blocks.spec_blocks(), member) {
        None => "NONE"@,
        Some(b) => match metric_get(blocks.spec_blocks()[b].scores@, target) {
            None => "NONE"@,
            Some(v) => spec_render_metric(v),
        },
    }
}

pub open spec fn spec_render_metric(v: MetricValView) -> Seq<char> {
    match v {
        MetricValView::Bool(b) => if b {
            "true"@
        } else {
            "false"@
        },
        MetricValView::Int(n) => crate::strutil::spec_i64_dec(n as int),
        MetricValView::Float(s) => s,
    }
}

/// The sort key a member's stored score yields under the sorting kind: a
/// boolean orders false before true and an integer as itself; a missing
/// snapshot or score is a missing key. A float's numeric ordering is the
/// caller's, outside the verified core, so under the float kind every key is
/// missing until the caller assigns them. A stored value of any other shape
/// cannot be read under the kind and is a hard error, as a malformed score
/// file is.
pub open spec fn spec_rank_key(
    blocks: &StatBlockSet,
    member: Seq<char>,
    sort_key: Seq<char>,
    kind: Seq<char>,
) -> Result<Option<i64>, ()> {
    match first_block(blocks.spec_blocks(), member) {
        None => Ok(None),
        Some(b) => match metric_get(blocks.spec_blocks()[b].scores@, sort_key) {
            None => Ok(None),
            Some(v) => match v {
                MetricValView::Bool(x) => if kind == "bool"@ {
                    Ok(Some(if x { 1i64 } else { 0i64 }))
                } else {
                    Err(())
                },
                MetricValView::Int(n) => if kind == "int"@ {
                    Ok(Some(n))
                } else {
                    Err(())
                },
                MetricValView::Float(_) => if kind == "float"@ {
                    Ok(None)
                } else {
                    Err(())
                },
            },
        },
    }
}

/// Builds one member's ranking row: the username, then every metric column
/// of the ruleset, with the sort key drawn from the named score under the
/// named kind.
pub fn rank_row_for(
    member: &String,
    blocks: &StatBlockSet,
    ruleset: &Ruleset,
    sort_key: &str,
    kind: &str,
) -> (r: Result<RankRow, Error>)
    requires
        (match first_block(blocks.spec_blocks(), member@) {
            Some(b) => blocks.spec_blocks()[b].scores.wf(),
            None => true,
        }),
    ensures
        match r {
            Ok(row) => {
                &&& spec_rank_key(blocks, member@, sort_key@, kind@) == Result::<
                    Option<i64>,
                    (),
                >::Ok(row.key)
                &&& row.cells@.len() == 1 + ruleset.rules@.len()
                &&& row.cells@[0]@ == member@
                &&& forall|j: int|
                    0 <= j < ruleset.rules@.len() ==> (#[trigger] row.cells@[1 + j])@
                        == spec_rank_cell(blocks, member@, ruleset.rules@[j].target@)
            },
            Err(e) => spec_rank_key(blocks, member@, sort_key@, kind@) is Err
                && e.description@ == "Failed to parse score."@,
        },
{
    let block = blocks.get_block(member.as_str());
    let key: Option<i64> = match &block {
        None => None,
        Some(b) => match b.scores.get(sort_key) {
            None => None,
            Some(v) => {
                let ok = match v {
                    crate::rules::MetricValue::Bool(_) => str_eq(kind, "bool"),
                    crate::rules::MetricValue::Int(_) => str_eq(kind, "int"),
                    crate::rules::MetricValue::Float(_) => str_eq(kind, "float"),
                };
                if !ok {
                    return Err(
                        Error::custom(
                            String::from_str("Failed to parse score."),
                            String::from_str(crate::error::CONTACT_INSTRUCTOR),
                        ),
                    );
                }
                match v {
                    crate::rules::MetricValue::Bool(x) => Some(
                        if *x {
                            1
                        } else {
                            0
                        },
                    ),
                    crate::rules::MetricValue::Int(n) => Some(*n),
                    crate::rules::MetricValue::Float(_) => None,
                }
            },
        },
    };
    let mut cells: Vec<String> = Vec::new();
    cells.push(String::from_str(member.as_str()));
    let mut j: usize = 0;
    while j < ruleset.rules.len()
        invariant
            j <= ruleset.rules@.len(),
            cells@.len() == 1 + j,
            cells@[0]@ == member@,
            spec_rank_key(blocks, member@, sort_key@, kind@) == Result::<Option<i64>, ()>::Ok(key),
            (match first_block(blocks.spec_blocks(), member@) {
                Some(b) => blocks.spec_blocks()[b].scores.wf(),
                None => true,
            }),
            (match block {
                Some(b) => {
                    &&& first_block(blocks.spec_blocks(), member@) matches Some(i)
                    &&& 0 <= i < blocks.spec_blocks().len()
                    &&& *b == blocks.spec_blocks()[first_block(blocks.spec_blocks(), member@)->0]
                },
                None => first_block(blocks.spec_blocks(), member@) is None,
            }),
            forall|k: int|
                0 <= k < j ==> (#[trigger] cells@[1 + k])@ == spec_rank_cell(
                    blocks,
                    member@,
                    ruleset.rules@[k].target@,
                ),
        decreases ruleset.rules@.len() - j,
    {
        let cell: String = match &block {
            None => String::from_str(Table::none_repr()),
            Some(b) => match b.scores.get(ruleset.rules[j].target.as_str()) {
                None => String::from_str(Table::none_repr()),
                Some(v) => v.render(),
            },
        };
        cells.push(cell);
        j = j + 1;
    }
    Ok(RankRow { key, cells })
}

/// Builds the ranking rows for every member, in the given member order. The
/// first member whose stored score cannot be read under the kind is the
/// error.
pub fn build_rank_rows(
    members: &Vec<String>,
    blocks: &StatBlockSet,
    ruleset: &Ruleset,
    sort_key: &str,
    kind: &str,
) -> (r: Result<Vec<RankRow>, Error>)
    requires
        forall|b: int|
            0 <= b < blocks.spec_blocks().len() ==> (#[trigger] blocks.spec_blocks()[b]).scores.wf(),
    ensures
        match r {
            Ok(rows) => {
                &&& rows@.len() == members@.len()
                &&& forall|i: int|
                    0 <= i < members@.len() ==> spec_rank_key(
                        blocks,
                        (#[trigger] members@[i])@,
                        sort_key@,
                        kind@,
                    ) == Result::<Option<i64>, ()>::Ok(rows@[i].key)
                &&& forall|i: int|
                    0 <= i < members@.len() ==> (#[trigger] rows@[i]).cells@.len() == 1
                        + ruleset.rules@.len()
                &&& forall|i: int|
                    0 <= i < members@.len() ==> ((#[trigger] rows@[i]).cells@[0])@ == members@[i]@
                &&& forall|i: int, j: int|
                    0 <= i < members@.len() && 0 <= j < ruleset.rules@.len() ==> ((
                    #[trigger] rows@[i]).cells@[1 + j])@ == spec_rank_cell(
                        blocks,
                        members@[i]@,
                        (#[trigger] ruleset.rules@[j]).target@,
                    )
            },
            Err(_) => exists|i: int|
                0 <= i < members@.len() && spec_rank_key(
                    blocks,
                    (#[trigger] members@[i])@,
                    sort_key@,
                    kind@,
                ) is Err,
        },
{
    let mut rows: Vec<RankRow> = Vec::new();
    let mut i: usize = 0;
    while i < members.len()
        invariant
            i <= members@.len(),
            rows@.len() == i,
            forall|b: int|
                0 <= b < blocks.spec_blocks().len() ==> (
                #[trigger] blocks.spec_blocks()[b]).scores.wf(),
            forall|k: int|
                0 <= k < i ==> spec_rank_key(blocks, (#[trigger] members@[k])@, sort_key@, kind@)
                    == Result::<Option<i64>, ()>::Ok(rows@[k].key),
            forall|k: int|
                0 <= k < i ==> (#[trigger] rows@[k]).cells@.len() == 1 + ruleset.rules@.len(),
            forall|k: int| 0 <= k < i ==> ((#[trigger] rows@[k]).cells@[0])@ == members@[k]@,
            forall|k: int, j: int|
                0 <= k < i && 0 <= j < ruleset.rules@.len() ==> ((#[trigger] rows@[k]).cells@[1
                    + j])@ == spec_rank_cell(
                    blocks,
                    members@[k]@,
                    (#[trigger] ruleset.rules@[j]).target@,
                ),
        decreases members@.len() - i,
    {
        proof {
            lemma_first_block_bounds(blocks.spec_blocks(), members@[i as int]@);
        }
        match rank_row_for(&members[i], blocks, ruleset, sort_key, kind) {
            Ok(row) => {
                rows.push(row);
            },
            Err(e) => {
                return Err(e);
            },
        }
        i = i + 1;
    }
    Ok(rows)
}

} // verus!
