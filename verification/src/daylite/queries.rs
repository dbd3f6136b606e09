//! The search requests the planner sends to Daylite: their JSON criteria and
//! query parameters.

use super::projects::overdue_category_text;
use super::rotation::JsonValue;
use super::shared::build_limit_query;
use crate::text::decimal;
use vstd::prelude::*;

verus! {

/// The member `"<field>": {"<op>": "<value>"}`.
pub open spec fn is_condition(m: (String, JsonValue), field: Seq<char>, op: Seq<char>, value: Seq<char>) -> bool {
    &&& m.0@ == field
    &&& m.1 is Object
    &&& m.1->Object_0@.len() == 1
    &&& m.1->Object_0@[0].0@ == op
    &&& m.1->Object_0@[0].1 is Text
    &&& m.1->Object_0@[0].1->Text_0@ == value
}

/// An object of exactly one condition.
pub open spec fn is_single_condition(v: JsonValue, field: Seq<char>, op: Seq<char>, value: Seq<char>) -> bool {
    v is Object && v->Object_0@.len() == 1 && is_condition(v->Object_0@[0], field, op, value)
}

/// An object of exactly two conditions, in this order.
pub open spec fn is_condition_pair(
    v: JsonValue,
    first: (Seq<char>, Seq<char>, Seq<char>),
    second: (Seq<char>, Seq<char>, Seq<char>),
) -> bool {
    &&& v is Object
    &&& v->Object_0@.len() == 2
    &&& is_condition(v->Object_0@[0], first.0, first.1, first.2)
    &&& is_condition(v->Object_0@[1], second.0, second.1, second.2)
}

fn condition(field: &str, op: &str, value: &str) -> (r: (String, JsonValue))
    ensures
        is_condition(r, field@, op@, value@),
{
    let mut inner: Vec<(String, JsonValue)> = Vec::new();
    inner.push((op.to_owned(), JsonValue::Text(value.to_owned())));
    (field.to_owned(), JsonValue::Object(inner))
}

fn single_condition(field: &str, op: &str, value: &str) -> (r: JsonValue)
    ensures
        is_single_condition(r, field@, op@, value@),
{
    let mut members: Vec<(String, JsonValue)> = Vec::new();
    members.push(condition(field, op, value));
    JsonValue::Object(members)
}

fn condition_pair(field1: &str, op1: &str, value1: &str, field2: &str, op2: &str, value2: &str) -> (r: JsonValue)
    ensures
        is_condition_pair(r, (field1@, op1@, value1@), (field2@, op2@, value2@)),
{
    let mut members: Vec<(String, JsonValue)> = Vec::new();
    members.push(condition(field1, op1, value1));
    members.push(condition(field2, op2, value2));
    JsonValue::Object(members)
}

/// The criteria of the planning contacts: category `Monteur` or `Test`.
pub fn contact_search_body() -> (r: JsonValue)
    ensures
        r is Array,
        r->Array_0@.len() == 2,
        is_single_condition(r->Array_0@[0], "category"@, "equal"@, "Monteur"@),
        is_single_condition(r->Array_0@[1], "category"@, "equal"@, "Test"@),
{
    let mut clauses: Vec<JsonValue> = Vec::new();
    clauses.push(single_condition("category", "equal", "Monteur"));
    clauses.push(single_condition("category", "equal", "Test"));
    JsonValue::Array(clauses)
}

/// The criteria of a project search: the name contains the term; with
/// statuses given, one clause per status that also asks for it (any clause
/// matches).
pub fn project_search_body(search_term: &str, statuses: &Option<Vec<String>>) -> (r: JsonValue)
    ensures
        match statuses {
            Some(s) if s@.len() > 0 => r is Array && r->Array_0@.len() == s@.len() && forall|i: int|
                0 <= i < s@.len() ==> is_condition_pair(
                    #[trigger] r->Array_0@[i],
                    ("name"@, "contains"@, search_term@),
                    ("status"@, "equal"@, s@[i]@),
                ),
            _ => is_single_condition(r, "name"@, "contains"@, search_term@),
        },
{
    match statuses {
        Some(s) => if s.len() > 0 {
            let mut clauses: Vec<JsonValue> = Vec::new();
            let mut i: usize = 0;
            while i < s.len()
                invariant
                    i <= s@.len(),
                    clauses@.len() == i,
                    forall|k: int|
                        0 <= k < i ==> is_condition_pair(
                            #[trigger] clauses@[k],
                            ("name"@, "contains"@, search_term@),
                            ("status"@, "equal"@, s@[k]@),
                        ),
                decreases s@.len() - i,
            {
                clauses.push(condition_pair("name", "contains", search_term, "status", "equal", s[i].as_str()));
                i = i + 1;
            }
            JsonValue::Array(clauses)
        } else {
            single_condition("name", "contains", search_term)
        },
        None => single_condition("name", "contains", search_term),
    }
}

/// The criteria of the overdue projects: the overdue category with status
/// `new_status`, or with status `in_progress`.
pub fn overdue_search_body() -> (r: JsonValue)
    ensures
        r is Array,
        r->Array_0@.len() == 2,
        is_condition_pair(r->Array_0@[0], ("category"@, "equal"@, "Überfällig"@), ("status"@, "equal"@, "new_status"@)),
        is_condition_pair(r->Array_0@[1], ("category"@, "equal"@, "Überfällig"@), ("status"@, "equal"@, "in_progress"@)),
{
    let category = overdue_category_text();
    let mut clauses: Vec<JsonValue> = Vec::new();
    clauses.push(condition_pair("category", "equal", category, "status", "equal", "new_status"));
    clauses.push(condition_pair("category", "equal", category, "status", "equal", "in_progress"));
    JsonValue::Array(clauses)
}

/// The query of a project search: the limit, `full-records=true` when full
/// records are asked for, and the start cursor when one is given, in this order.
pub fn project_search_query(limit: Option<u16>, full_records: Option<bool>, start: &Option<String>) -> (r: Vec<(String, String)>)
    ensures
        r@.map_values(|p: (String, String)| (p.0@, p.1@)) == (match limit {
            Some(n) => seq![("limit"@, decimal(n as nat))],
            None => Seq::empty(),
        }) + (if full_records == Some(true) {
            seq![("full-records"@, "true"@)]
        } else {
            Seq::empty()
        }) + (match start {
            Some(s) => seq![("start"@, s@)],
            None => Seq::empty(),
        }),
{
    let mut query = build_limit_query(limit);
    let ghost q0 = query@.map_values(|p: (String, String)| (p.0@, p.1@));
    assert(q0 =~= (match limit {
        Some(n) => seq![("limit"@, decimal(n as nat))],
        None => Seq::<(Seq<char>, Seq<char>)>::empty(),
    }));
    if full_records == Some(true) {
        query.push(("full-records".to_owned(), "true".to_owned()));
    }
    let ghost q1 = query@.map_values(|p: (String, String)| (p.0@, p.1@));
    assert(q1 =~= q0 + (if full_records == Some(true) {
        seq![("full-records"@, "true"@)]
    } else {
        Seq::<(Seq<char>, Seq<char>)>::empty()
    }));
    if let Some(s) = start {
        query.push(("start".to_owned(), s.clone()));
    }
    let ghost q2 = query@.map_values(|p: (String, String)| (p.0@, p.1@));
    assert(q2 =~= q1 + (match start {
        Some(s) => seq![("start"@, s@)],
        None => Seq::<(Seq<char>, Seq<char>)>::empty(),
    }));
    query
}

/// The criteria of a contact search by name: the full name contains the term.
pub fn contact_name_search_body(search_term: &str) -> (r: JsonValue)
    ensures
        is_single_condition(r, "full_name"@, "contains"@, search_term@),
{
    single_condition("full_name", "contains", search_term)
}

} // verus!
