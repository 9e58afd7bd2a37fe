//! Building one output record from a header row and a data row.
//!
//! A record is an ordered list of key/value pairs: cells are zipped
//! against headers positionally, stopping at whichever of the two is
//! shorter.  A repeated header keeps its first position but takes the
//! value of its last occurrence (last-write-wins).

use vstd::prelude::*;

verus! {

/// Whether some pair of `rec` carries the key `k`.
pub open spec fn has_key(rec: Seq<(Seq<char>, Seq<char>)>, k: Seq<char>) -> bool {
    exists|j: int| 0 <= j < rec.len() && rec[j].0 == k
}

/// An index of `rec` whose pair carries the key `k` (unique when keys
/// are distinct).
pub open spec fn key_index(rec: Seq<(Seq<char>, Seq<char>)>, k: Seq<char>) -> int {
    choose|j: int| 0 <= j < rec.len() && rec[j].0 == k
}

/// `rec` with `k` bound to `v`: the value replaced in place when `k`
/// is already present, the pair appended otherwise.
pub open spec fn insert_kv(
    rec: Seq<(Seq<char>, Seq<char>)>,
    k: Seq<char>,
    v: Seq<char>,
) -> Seq<(Seq<char>, Seq<char>)> {
    if has_key(rec, k) {
        rec.update(key_index(rec, k), (k, v))
    } else {
        rec.push((k, v))
    }
}

/// No two pairs of `rec` share a key.
pub open spec fn distinct_keys(rec: Seq<(Seq<char>, Seq<char>)>) -> bool {
    forall|i: int, j: int| 0 <= i < j < rec.len() ==> rec[i].0 != rec[j].0
}

/// How many cells of a row are mapped: the shorter of header count and
/// row length.
pub open spec fn mapped_len(headers: Seq<Seq<char>>, row: Seq<Seq<char>>) -> int {
    if headers.len() <= row.len() {
        headers.len() as int
    } else {
        row.len() as int
    }
}

/// The record built from the first `n` header/cell pairs, inserted
/// left to right.
pub open spec fn record_upto(
    headers: Seq<Seq<char>>,
    row: Seq<Seq<char>>,
    n: int,
) -> Seq<(Seq<char>, Seq<char>)>
    decreases n,
{
    if n <= 0 {
        Seq::empty()
    } else {
        insert_kv(record_upto(headers, row, n - 1), headers[n - 1], row[n - 1])
    }
}

/// The record of one data row: cells zipped against headers up to the
/// shorter length, later duplicates overwriting earlier values.
pub open spec fn record_of(
    headers: Seq<Seq<char>>,
    row: Seq<Seq<char>>,
) -> Seq<(Seq<char>, Seq<char>)> {
    record_upto(headers, row, mapped_len(headers, row))
}

/// The key/value pairs of a vector of `String` pairs, as sequences.
pub open spec fn pairs_view(v: Seq<(String, String)>) -> Seq<(Seq<char>, Seq<char>)> {
    v.map_values(|p: (String, String)| (p.0@, p.1@))
}

/// Inserting preserves key distinctness.
proof fn lemma_insert_distinct(rec: Seq<(Seq<char>, Seq<char>)>, k: Seq<char>, v: Seq<char>)
    requires
        distinct_keys(rec),
    ensures
        distinct_keys(insert_kv(rec, k, v)),
{
    if has_key(rec, k) {
        let j = key_index(rec, k);
        assert(0 <= j < rec.len() && rec[j].0 == k);
        let out = rec.update(j, (k, v));
        assert forall|a: int, b: int| 0 <= a < b < out.len() implies out[a].0 != out[b].0 by {
            if a != j && b != j {
                assert(out[a] == rec[a] && out[b] == rec[b]);
            } else if a == j {
                assert(out[a].0 == rec[j].0 && out[b] == rec[b]);
            } else {
                assert(out[b].0 == rec[j].0 && out[a] == rec[a]);
            }
        }
    } else {
        let out = rec.push((k, v));
        assert forall|a: int, b: int| 0 <= a < b < out.len() implies out[a].0 != out[b].0 by {
            if b < rec.len() {
            } else {
                assert(out[b].0 == k && out[a] == rec[a]);
                assert(!(0 <= a < rec.len() && rec[a].0 == k));
            }
        }
    }
}

/// Every record built from a prefix of the cells has distinct keys,
/// and every key of it is one of the first `n` headers.
pub proof fn lemma_record_upto_wf(headers: Seq<Seq<char>>, row: Seq<Seq<char>>, n: int)
    requires
        0 <= n <= headers.len(),
        n <= row.len(),
    ensures
        distinct_keys(record_upto(headers, row, n)),
        forall|j: int|
            0 <= j < record_upto(headers, row, n).len() ==> exists|i: int|
                0 <= i < n && headers[i] == #[trigger] record_upto(headers, row, n)[j].0 && row[i]
                    == record_upto(headers, row, n)[j].1,
        forall|i: int|
            0 <= i < n ==> has_key(record_upto(headers, row, n), #[trigger] headers[i]),
        record_upto(headers, row, n).len() <= n,
    decreases n,
{
    if n > 0 {
        lemma_record_upto_wf(headers, row, n - 1);
        let prev = record_upto(headers, row, n - 1);
        let cur = record_upto(headers, row, n);
        lemma_insert_distinct(prev, headers[n - 1], row[n - 1]);
        if has_key(prev, headers[n - 1]) {
            let j = key_index(prev, headers[n - 1]);
            assert(0 <= j < prev.len() && prev[j].0 == headers[n - 1]);
            assert forall|j2: int| 0 <= j2 < cur.len() implies exists|i: int|
                0 <= i < n && headers[i] == #[trigger] cur[j2].0 && row[i] == cur[j2].1 by {
                if j2 == j {
                    assert(headers[n - 1] == cur[j2].0 && row[n - 1] == cur[j2].1);
                } else {
                    assert(cur[j2] == prev[j2]);
                    let i0 = choose|i: int|
                        0 <= i < n - 1 && headers[i] == prev[j2].0 && row[i] == prev[j2].1;
                    assert(0 <= i0 < n && headers[i0] == cur[j2].0 && row[i0] == cur[j2].1);
                }
            }
            assert forall|i: int| 0 <= i < n implies has_key(cur, #[trigger] headers[i]) by {
                if i == n - 1 {
                    assert(0 <= j < cur.len() && cur[j].0 == headers[n - 1]);
                } else {
                    let j0 = choose|j0: int| 0 <= j0 < prev.len() && prev[j0].0 == headers[i];
                    if j0 == j {
                        assert(cur[j].0 == headers[n - 1]);
                        assert(prev[j0].0 == headers[n - 1]);
                        assert(cur[j0].0 == headers[i]);
                    } else {
                        assert(cur[j0] == prev[j0]);
                    }
                }
            }
        } else {
            assert(cur == prev.push((headers[n - 1], row[n - 1])));
            assert forall|j2: int| 0 <= j2 < cur.len() implies exists|i: int|
                0 <= i < n && headers[i] == #[trigger] cur[j2].0 && row[i] == cur[j2].1 by {
                if j2 < prev.len() {
                    assert(cur[j2] == prev[j2]);
                    let i0 = choose|i: int|
                        0 <= i < n - 1 && headers[i] == prev[j2].0 && row[i] == prev[j2].1;
                    assert(0 <= i0 < n && headers[i0] == cur[j2].0 && row[i0] == cur[j2].1);
                } else {
                    assert(cur[j2].0 == headers[n - 1] && cur[j2].1 == row[n - 1]);
                }
            }
            assert forall|i: int| 0 <= i < n implies has_key(cur, #[trigger] headers[i]) by {
                if i == n - 1 {
                    assert(cur[cur.len() - 1].0 == headers[n - 1]);
                } else {
                    let j0 = choose|j0: int| 0 <= j0 < prev.len() && prev[j0].0 == headers[i];
                    assert(cur[j0] == prev[j0]);
                }
            }
        }
    }
}

/// What holds of every record: its keys are distinct; it has at most
/// one pair per mapped cell; every pair is the header and cell text of
/// some mapped column, so keys are a subset of the headers within the
/// row's cell count and values are always cell text (an empty cell
/// gives an empty string); and every mapped header is present as a
/// key, never dropped.
pub proof fn lemma_record_wf(headers: Seq<Seq<char>>, row: Seq<Seq<char>>)
    ensures
        distinct_keys(record_of(headers, row)),
        record_of(headers, row).len() <= mapped_len(headers, row),
        forall|j: int|
            0 <= j < record_of(headers, row).len() ==> exists|i: int|
                0 <= i < mapped_len(headers, row) && headers[i] == #[trigger] record_of(
                    headers,
                    row,
                )[j].0 && row[i] == record_of(headers, row)[j].1,
        forall|i: int|
            0 <= i < mapped_len(headers, row) ==> has_key(
                record_of(headers, row),
                #[trigger] headers[i],
            ),
{
    lemma_record_upto_wf(headers, row, mapped_len(headers, row));
}

/// With distinct keys, inserting an existing key `k` updates exactly
/// the one index that carries it.
proof fn lemma_insert_at_found(
    rec: Seq<(Seq<char>, Seq<char>)>,
    k: Seq<char>,
    v: Seq<char>,
    j: int,
)
    requires
        distinct_keys(rec),
        0 <= j < rec.len(),
        rec[j].0 == k,
    ensures
        insert_kv(rec, k, v) == rec.update(j, (k, v)),
{
    assert(has_key(rec, k));
    let j2 = key_index(rec, k);
    assert(0 <= j2 < rec.len() && rec[j2].0 == k);
    if j != j2 {
        if j < j2 {
            assert(rec[j].0 != rec[j2].0);
        } else {
            assert(rec[j2].0 != rec[j].0);
        }
    }
}

/// Builds the record of one data row: cells zipped against headers up
/// to the shorter length, a repeated header keeping its first position
/// but taking its last value.
pub fn build_record(headers: &Vec<String>, row: &Vec<String>) -> (rec: Vec<(String, String)>)
    ensures
        pairs_view(rec@) == record_of(headers.deep_view(), row.deep_view()),
        distinct_keys(pairs_view(rec@)),
{
    let ghost hv = headers.deep_view();
    let ghost rv = row.deep_view();
    let n = if headers.len() <= row.len() {
        headers.len()
    } else {
        row.len()
    };
    proof {
        assert(n as int == mapped_len(hv, rv));
    }
    let mut rec: Vec<(String, String)> = Vec::new();
    let mut i: usize = 0;
    proof {
        assert(pairs_view(rec@) =~= record_upto(hv, rv, 0));
    }
    while i < n
        invariant
            i <= n,
            n <= headers.len(),
            n <= row.len(),
            hv == headers.deep_view(),
            rv == row.deep_view(),
            pairs_view(rec@) == record_upto(hv, rv, i as int),
        decreases n - i,
    {
        proof {
            lemma_record_upto_wf(hv, rv, i as int);
        }
        let key = &headers[i];
        let val = row[i].clone();
        let ghost prev = pairs_view(rec@);
        // look for an existing pair with this key
        let mut j: usize = 0;
        let mut found = false;
        while j < rec.len() && !found
            invariant
                j <= rec.len(),
                prev == pairs_view(rec@),
                hv == headers.deep_view(),
                i < headers.len(),
                key@ == hv[i as int],
                !found ==> forall|m: int| 0 <= m < j ==> prev[m].0 != key@,
                found ==> j < rec.len() && prev[j as int].0 == key@,
            decreases rec.len() - j + (if found { 0int } else { 1int }),
        {
            if rec[j].0.eq(key) {
                found = true;
            } else {
                j += 1;
            }
        }
        if found {
            proof {
                lemma_insert_at_found(prev, hv[i as int], rv[i as int], j as int);
            }
            rec[j] = (key.clone(), val);
            proof {
                assert(pairs_view(rec@) =~= prev.update(j as int, (hv[i as int], rv[i as int])));
            }
        } else {
            proof {
                assert(!has_key(prev, key@));
            }
            rec.push((key.clone(), val));
            proof {
                assert(pairs_view(rec@) =~= prev.push((hv[i as int], rv[i as int])));
            }
        }
        proof {
            assert(pairs_view(rec@) == insert_kv(prev, hv[i as int], rv[i as int]));
        }
        i += 1;
    }
    proof {
        lemma_record_upto_wf(hv, rv, n as int);
    }
    rec
}

} // verus!
