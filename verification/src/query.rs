//! The read paths: paging, the filters of a listing, and the statements they
//! turn into.

use crate::models::Summary;
use crate::text::{decimal, decimal_text, parse_i64, parsed_i64, same_text};
use vstd::prelude::*;
use vstd::string::*;

verus! {

/// The page size where the request names none.
pub const DEFAULT_LIMIT: i64 = 20;

/// The largest page size.
pub const MAX_LIMIT: i64 = 100;

/// The page size for what a request has read as its `limit`: the default
/// where there is none, and never above the cap.
pub open spec fn limit_for(read: Option<i64>) -> i64 {
    match read {
        Some(n) => if n < MAX_LIMIT {
            n
        } else {
            MAX_LIMIT
        },
        None => if DEFAULT_LIMIT < MAX_LIMIT {
            DEFAULT_LIMIT
        } else {
            MAX_LIMIT
        },
    }
}

/// The offset for what a request has read as its `offset`: zero where there
/// is none.
pub open spec fn offset_for(read: Option<i64>) -> i64 {
    match read {
        Some(n) => n,
        None => 0,
    }
}

/// What a parameter reads as: the number it holds, or nothing where it is
/// absent or no number.
pub open spec fn number_in(raw: Option<Seq<char>>) -> Option<i64> {
    match raw {
        Some(s) => parsed_i64(s),
        None => None,
    }
}

/// The page size for a number that was read, or for none.
pub fn limit_of(read: Option<i64>) -> (r: i64)
    ensures
        r == limit_for(read),
        r <= MAX_LIMIT,
{
    let n: i64 = match read {
        Some(n) => n,
        None => DEFAULT_LIMIT,
    };
    if n < MAX_LIMIT {
        n
    } else {
        MAX_LIMIT
    }
}

/// The offset for a number that was read, or for none.
pub fn offset_of(read: Option<i64>) -> (r: i64)
    ensures
        r == offset_for(read),
{
    match read {
        Some(n) => n,
        None => 0,
    }
}

/// The number that a parameter holds, if it is there and holds one.
fn read_number(raw: Option<&str>) -> (r: Option<i64>)
    ensures
        r == number_in(
            match raw {
                Some(s) => Some(s@),
                None => None,
            },
        ),
{
    match raw {
        Some(s) => parse_i64(s),
        None => None,
    }
}

/// The page size that a request asks for with its `limit` parameter.
pub fn page_limit(raw: Option<&str>) -> (r: i64)
    ensures
        r == limit_for(
            number_in(
                match raw {
                    Some(s) => Some(s@),
                    None => None,
                },
            ),
        ),
        r <= MAX_LIMIT,
{
    limit_of(read_number(raw))
}

/// The offset that a request asks for with its `offset` parameter.
pub fn page_offset(raw: Option<&str>) -> (r: i64)
    ensures
        r == offset_for(
            number_in(
                match raw {
                    Some(s) => Some(s@),
                    None => None,
                },
            ),
        ),
{
    offset_of(read_number(raw))
}

/// Whether rows follow the page: the page ends before the total.
pub fn has_next(offset: i64, limit: i64, total: i64) -> (r: bool)
    ensures
        r == (offset + limit < total),
{
    let end: i128 = offset as i128 + limit as i128;
    end < total as i128
}

/// The counts of an execution's results by status, and their sum.
pub fn summary_of(pass: i64, fail: i64, ignor: i64) -> (r: Summary)
    requires
        0 <= pass,
        0 <= fail,
        0 <= ignor,
        pass + fail + ignor <= i64::MAX,
    ensures
        r.pass == pass,
        r.fail == fail,
        r.ignor == ignor,
        r.total == pass + fail + ignor,
{
    Summary { total: pass + fail + ignor, pass, fail, ignor }
}

/// Whether a request asks for the summary: its `include_summary` parameter is
/// the word `true`.
pub fn wants_summary(raw: Option<&str>) -> (r: bool)
    ensures
        r == (raw matches Some(s) && s@ == "true"@),
{
    match raw {
        Some(s) => same_text(s, "true"),
        None => false,
    }
}

/// The filters of a listing of executions.
#[derive(Debug)]
pub struct ExecutionFilter {
    pub created_by: Option<String>,
    pub name: Option<String>,
    pub tag: Option<String>,
}

/// The filters of a listing of one execution's results.
#[derive(Debug)]
pub struct ResultFilter {
    pub status: Option<String>,
    pub platform: Option<String>,
}

/// A listing as two statements, one for the page and one for the total, and
/// the values bound to their placeholders, in order. The page statement takes
/// the limit and the offset after them.
#[derive(Debug)]
pub struct ListingPlan {
    pub query: String,
    pub count_query: String,
    pub bindings: Vec<String>,
}

/// The text of each binding of a plan.
pub open spec fn binding_texts(bindings: Seq<String>) -> Seq<Seq<char>> {
    bindings.map_values(|b: String| b@)
}

/// The condition that a filter adds to a statement, where it is set.
pub open spec fn clause(filter: Option<String>, condition: Seq<char>) -> Seq<char> {
    match filter {
        Some(_) => condition,
        None => Seq::empty(),
    }
}

/// The binding that a filter adds, where it is set.
pub open spec fn bound(filter: Option<String>) -> Seq<Seq<char>> {
    match filter {
        Some(value) => seq![value@],
        None => Seq::empty(),
    }
}

/// The conditions of a listing of executions, in the order of its filters.
pub open spec fn execution_conditions(filter: ExecutionFilter) -> Seq<char> {
    clause(filter.created_by, " AND created_by = ?"@) + clause(filter.name, " AND name = ?"@)
        + clause(filter.tag, " AND tag LIKE ?"@)
}

/// The bindings of a listing of executions: a creator and a name as they are,
/// a tag as the prefix of a pattern.
pub open spec fn execution_bindings(filter: ExecutionFilter) -> Seq<Seq<char>> {
    bound(filter.created_by) + bound(filter.name) + match filter.tag {
        Some(tag) => seq![tag@ + "%"@],
        None => Seq::empty(),
    }
}

/// The conditions of a listing of results, in the order of its filters.
pub open spec fn result_conditions(filter: ResultFilter) -> Seq<char> {
    clause(filter.status, " AND status = ?"@) + clause(filter.platform, " AND platform = ?"@)
}

/// The bindings of a listing of results: the execution's id in decimal, then
/// the filters that are set.
pub open spec fn result_bindings(execution_id: i64, filter: ResultFilter) -> Seq<Seq<char>> {
    seq![decimal(execution_id as int)] + bound(filter.status) + bound(filter.platform)
}

/// Adds the condition and the binding of one filter, where it is set.
fn add_filter(
    query: &mut String,
    count_query: &mut String,
    bindings: &mut Vec<String>,
    filter: &Option<String>,
    condition: &str,
)
    ensures
        final(query)@ == old(query)@ + clause(*filter, condition@),
        final(count_query)@ == old(count_query)@ + clause(*filter, condition@),
        binding_texts(final(bindings)@) == binding_texts(old(bindings)@) + bound(*filter),
{
    match filter {
        Some(value) => {
            query.append(condition);
            count_query.append(condition);
            bindings.push(value.clone());
            assert(binding_texts(bindings@) =~= binding_texts(old(bindings)@) + seq![value@]);
        },
        None => {
            assert(query@ + Seq::<char>::empty() =~= query@);
            assert(count_query@ + Seq::<char>::empty() =~= count_query@);
            assert(binding_texts(bindings@) + Seq::<Seq<char>>::empty() =~= binding_texts(
                bindings@,
            ));
        },
    }
}

/// The statements that list executions under a filter, newest id first.
pub fn execution_listing(filter: &ExecutionFilter) -> (r: ListingPlan)
    ensures
        r.query@ == "SELECT * FROM execution WHERE 1=1"@ + execution_conditions(*filter)
            + " ORDER BY id DESC LIMIT ? OFFSET ?"@,
        r.count_query@ == "SELECT COUNT(*) FROM execution WHERE 1=1"@ + execution_conditions(
            *filter,
        ),
        binding_texts(r.bindings@) == execution_bindings(*filter),
{
    let mut query = "SELECT * FROM execution WHERE 1=1".to_owned();
    let mut count_query = "SELECT COUNT(*) FROM execution WHERE 1=1".to_owned();
    let mut bindings: Vec<String> = Vec::new();
    assert(binding_texts(bindings@) =~= Seq::empty());
    add_filter(
        &mut query,
        &mut count_query,
        &mut bindings,
        &filter.created_by,
        " AND created_by = ?",
    );
    add_filter(&mut query, &mut count_query, &mut bindings, &filter.name, " AND name = ?");
    let ghost texts = binding_texts(bindings@);
    match &filter.tag {
        Some(tag) => {
            query.append(" AND tag LIKE ?");
            count_query.append(" AND tag LIKE ?");
            let mut pattern = tag.clone();
            pattern.append("%");
            bindings.push(pattern);
            assert(binding_texts(bindings@) =~= texts + seq![tag@ + "%"@]);
        },
        None => {
            assert(texts + Seq::<Seq<char>>::empty() =~= texts);
        },
    }
    query.append(" ORDER BY id DESC LIMIT ? OFFSET ?");
    proof {
        let head = "SELECT * FROM execution WHERE 1=1"@;
        let count_head = "SELECT COUNT(*) FROM execution WHERE 1=1"@;
        let a = clause(filter.created_by, " AND created_by = ?"@);
        let b = clause(filter.name, " AND name = ?"@);
        let c = clause(filter.tag, " AND tag LIKE ?"@);
        assert(head + a + b + c =~= head + (a + b + c));
        assert(count_head + a + b + c =~= count_head + (a + b + c));
        assert(Seq::<Seq<char>>::empty() + bound(filter.created_by) + bound(filter.name)
            =~= bound(filter.created_by) + bound(filter.name));
    }
    ListingPlan { query, count_query, bindings }
}

/// The statements that list the results of one execution under a filter,
/// oldest id first.
pub fn result_listing(execution_id: i64, filter: &ResultFilter) -> (r: ListingPlan)
    ensures
        r.query@ == "SELECT * FROM test_result WHERE execution_id = ?"@ + result_conditions(
            *filter,
        ) + " ORDER BY id ASC LIMIT ? OFFSET ?"@,
        r.count_query@ == "SELECT COUNT(*) FROM test_result WHERE execution_id = ?"@
            + result_conditions(*filter),
        binding_texts(r.bindings@) == result_bindings(execution_id, *filter),
{
    let mut query = "SELECT * FROM test_result WHERE execution_id = ?".to_owned();
    let mut count_query = "SELECT COUNT(*) FROM test_result WHERE execution_id = ?".to_owned();
    let mut bindings: Vec<String> = Vec::new();
    bindings.push(decimal_text(execution_id));
    assert(binding_texts(bindings@) =~= seq![decimal(execution_id as int)]);
    add_filter(&mut query, &mut count_query, &mut bindings, &filter.status, " AND status = ?");
    add_filter(
        &mut query,
        &mut count_query,
        &mut bindings,
        &filter.platform,
        " AND platform = ?",
    );
    query.append(" ORDER BY id ASC LIMIT ? OFFSET ?");
    proof {
        let head = "SELECT * FROM test_result WHERE execution_id = ?"@;
        let count_head = "SELECT COUNT(*) FROM test_result WHERE execution_id = ?"@;
        let a = clause(filter.status, " AND status = ?"@);
        let b = clause(filter.platform, " AND platform = ?"@);
        assert(head + a + b =~= head + (a + b));
        assert(count_head + a + b =~= count_head + (a + b));
    }
    ListingPlan { query, count_query, bindings }
}

/// The message for a result that names an execution which does not exist.
pub open spec fn missing_execution_text(execution_id: i64) -> Seq<char> {
    "invalid execution_id, no execution is found, execution_id :: "@ + decimal(
        execution_id as int,
    )
}

/// The message for a result that names an execution which does not exist. It
/// ends with the id that was sent.
pub fn missing_execution_message(execution_id: i64) -> (r: String)
    ensures
        r@ == missing_execution_text(execution_id),
{
    let mut message = "invalid execution_id, no execution is found, execution_id :: ".to_owned();
    let id = decimal_text(execution_id);
    message.append(id.as_str());
    message
}

} // verus!
