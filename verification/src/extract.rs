//! The sheet-level pipeline: rows of cell text in, JSON text out.
//!
//! The first row is the header row; every later row becomes one JSON
//! object, in the order the rows arrive.  A sheet with no rows at all
//! has no header row and is rejected.

use vstd::prelude::*;
use crate::error::{ErrorKind, ExtractError};
use crate::json::{json_array, json_member, json_object, json_string, comma_join};
use crate::record::{record_of, pairs_view, build_record};
use crate::json::push_json_string;

verus! {

/// The records of a sheet: one per data row, built against the header
/// row, in row order.
pub open spec fn sheet_records(rows: Seq<Seq<Seq<char>>>) -> Seq<Seq<(Seq<char>, Seq<char>)>>
    recommends
        rows.len() > 0,
{
    rows.skip(1).map_values(|r: Seq<Seq<char>>| record_of(rows[0], r))
}

/// The JSON text of a sheet: an array with one object per data row.
pub open spec fn sheet_json(rows: Seq<Seq<Seq<char>>>) -> Seq<char>
    recommends
        rows.len() > 0,
{
    json_array(sheet_records(rows).map_values(|rec: Seq<(Seq<char>, Seq<char>)>| json_object(rec)))
}

/// The number of JSON objects produced equals the number of rows after
/// the header row.
pub proof fn lemma_record_count(rows: Seq<Seq<Seq<char>>>)
    requires
        rows.len() > 0,
    ensures
        sheet_records(rows).len() == rows.len() - 1,
{
}

/// Row order is preserved: the data row at offset `n` after the header
/// produces the object at index `n` of the output.
pub proof fn lemma_row_order(rows: Seq<Seq<Seq<char>>>, n: int)
    requires
        rows.len() > 0,
        0 <= n < rows.len() - 1,
    ensures
        sheet_records(rows)[n] == record_of(rows[0], rows[n + 1]),
{
}

/// The output is a function of the cell text alone: any two results of
/// extracting the same rows are the same text.
pub proof fn lemma_extraction_deterministic(
    rows: Seq<Seq<Seq<char>>>,
    out1: Seq<char>,
    out2: Seq<char>,
)
    requires
        rows.len() > 0,
        out1 == sheet_json(rows),
        out2 == sheet_json(rows),
    ensures
        out1 == out2,
{
}

/// Renders the record of one data row as a JSON object.
pub fn record_json(headers: &Vec<String>, row: &Vec<String>) -> (s: String)
    ensures
        s@ == json_object(record_of(headers.deep_view(), row.deep_view())),
{
    let rec = build_record(headers, row);
    let ghost members = pairs_view(rec@).map_values(
        |p: (Seq<char>, Seq<char>)| json_member(p),
    );
    let mut out = String::new();
    crate::json::push_char(&mut out, '{');
    let mut i: usize = 0;
    proof {
        assert(members.take(0) =~= Seq::<Seq<char>>::empty());
        assert(out@ =~= seq!['{'] + comma_join(members.take(0)));
    }
    while i < rec.len()
        invariant
            i <= rec.len(),
            members == pairs_view(rec@).map_values(
                |p: (Seq<char>, Seq<char>)| json_member(p),
            ),
            out@ == seq!['{'] + comma_join(members.take(i as int)),
        decreases rec.len() - i,
    {
        if i > 0 {
            crate::json::push_char(&mut out, ',');
        }
        push_json_string(&mut out, rec[i].0.as_str());
        crate::json::push_char(&mut out, ':');
        push_json_string(&mut out, rec[i].1.as_str());
        proof {
            let m = members.take(i as int + 1);
            assert(m.drop_last() =~= members.take(i as int));
            assert(m.last() == json_member(pairs_view(rec@)[i as int]));
            assert(json_member(pairs_view(rec@)[i as int]) == json_string(rec@[i as int].0@)
                + seq![':'] + json_string(rec@[i as int].1@));
            if i == 0 {
                assert(comma_join(m) == m[0]);
                assert(out@ =~= seq!['{'] + comma_join(m));
            } else {
                assert(comma_join(m) == comma_join(members.take(i as int)) + seq![',']
                    + m.last());
                assert(out@ =~= seq!['{'] + comma_join(m));
            }
        }
        i += 1;
    }
    crate::json::push_char(&mut out, '}');
    proof {
        assert(members.take(rec@.len() as int) =~= members);
        assert(out@ =~= seq!['{'] + comma_join(members) + seq!['}']);
    }
    out
}

/// Joins already-rendered JSON objects into a JSON array, in order.
pub fn join_objects(objects: &Vec<String>) -> (s: String)
    ensures
        s@ == json_array(objects.deep_view()),
{
    let ghost items = objects.deep_view();
    let mut out = String::new();
    crate::json::push_char(&mut out, '[');
    let mut i: usize = 0;
    proof {
        assert(items.take(0) =~= Seq::<Seq<char>>::empty());
        assert(out@ =~= seq!['['] + comma_join(items.take(0)));
    }
    while i < objects.len()
        invariant
            i <= objects.len(),
            items == objects.deep_view(),
            out@ == seq!['['] + comma_join(items.take(i as int)),
        decreases objects.len() - i,
    {
        if i > 0 {
            crate::json::push_char(&mut out, ',');
        }
        out.append(objects[i].as_str());
        proof {
            let m = items.take(i as int + 1);
            assert(m.drop_last() =~= items.take(i as int));
            assert(m.last() == items[i as int]);
            assert(items[i as int] == objects@[i as int]@);
            if i == 0 {
                assert(comma_join(m) == m[0]);
                assert(out@ =~= seq!['['] + comma_join(m));
            } else {
                assert(comma_join(m) == comma_join(items.take(i as int)) + seq![','] + m.last());
                assert(out@ =~= seq!['['] + comma_join(m));
            }
        }
        i += 1;
    }
    crate::json::push_char(&mut out, ']');
    proof {
        assert(items.take(objects@.len() as int) =~= items);
        assert(out@ =~= seq!['['] + comma_join(items) + seq![']']);
    }
    out
}

/// Extracts a sheet already read into rows of cell text: the first row
/// is the header row, every later row one JSON object, in row order.
/// A sheet with no rows has no header row and yields `EmptyHeader`.
pub fn rows_to_json(rows: &Vec<Vec<String>>) -> (r: Result<String, ExtractError>)
    ensures
        rows@.len() == 0 ==> (r matches Err(e) && e.kind == ErrorKind::EmptyHeader && e.detail@
            == Seq::<char>::empty()),
        rows@.len() > 0 ==> (r matches Ok(s) && s@ == sheet_json(rows.deep_view())),
{
    let ghost dv = rows.deep_view();
    if rows.len() == 0 {
        return Err(ExtractError::new(ErrorKind::EmptyHeader, String::new()));
    }
    let headers = &rows[0];
    let mut objects: Vec<String> = Vec::new();
    let mut i: usize = 1;
    while i < rows.len()
        invariant
            1 <= i <= rows.len(),
            dv == rows.deep_view(),
            dv.len() == rows@.len(),
            headers == rows@[0],
            objects@.len() == i - 1,
            forall|j: int|
                0 <= j < i - 1 ==> (#[trigger] objects@[j])@ == json_object(
                    record_of(dv[0], dv[j + 1]),
                ),
        decreases rows.len() - i,
    {
        let ghost prev = objects@;
        let obj = record_json(headers, &rows[i]);
        proof {
            assert(headers.deep_view() == dv[0]);
            assert(rows@[i as int].deep_view() == dv[i as int]);
        }
        objects.push(obj);
        proof {
            assert(obj@ == json_object(record_of(dv[0], dv[i as int])));
            assert forall|j: int| 0 <= j < i implies (#[trigger] objects@[j])@ == json_object(
                record_of(dv[0], dv[j + 1]),
            ) by {
                if j < i - 1 {
                    assert(objects@[j] == prev[j]);
                } else {
                    assert(objects@[j] == obj);
                }
            }
        }
        i += 1;
    }
    let out = join_objects(&objects);
    proof {
        let rendered = sheet_records(dv).map_values(
            |rec: Seq<(Seq<char>, Seq<char>)>| json_object(rec),
        );
        assert(objects.deep_view().len() == rendered.len());
        assert forall|j: int| 0 <= j < rendered.len() implies objects.deep_view()[j]
            == rendered[j] by {
            assert(objects.deep_view()[j] == (#[trigger] objects@[j])@);
            assert(sheet_records(dv)[j] == record_of(dv[0], dv.skip(1)[j]));
            assert(dv.skip(1)[j] == dv[j + 1]);
        }
        assert(objects.deep_view() =~= rendered);
    }
    Ok(out)
}

} // verus!
