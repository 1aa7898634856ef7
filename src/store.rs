//! The stored form of a whole collection: the JSON text of an array of task
//! records, read and written in full.
use vstd::prelude::*;
use crate::error::TrackerError;
use crate::json_value::{array_text, json_array_records, json_reads, json_string_object, json_strings, parse_records};
use crate::ops::{all_wf, views};
use crate::task::{decode, encode, lemma_round_trip, Task, TaskView};

verus! {

/// The string members of each of a sequence of JSON values.
pub open spec fn records(vs: Seq<json::JsonValue>) -> Seq<Map<Seq<char>, Seq<char>>> {
    vs.map_values(|v: json::JsonValue| json_strings(v))
}

/// The tasks held by a sequence of records, in order: records that decode to
/// nothing are dropped, and the first record that is an error makes the whole
/// an error.
pub open spec fn decode_all(rs: Seq<Map<Seq<char>, Seq<char>>>) -> Result<Seq<TaskView>, TrackerError>
    decreases rs.len(),
{
    if rs.len() == 0 {
        Ok(Seq::empty())
    } else {
        match decode_all(rs.drop_last()) {
            Err(e) => Err(e),
            Ok(ts) => match decode(rs.last()) {
                Err(e) => Err(e),
                Ok(None) => Ok(ts),
                Ok(Some(t)) => Ok(ts.push(t)),
            },
        }
    }
}

/// The view of a result that holds a collection.
pub open spec fn collection_view(r: Result<Vec<Task>, TrackerError>) -> Result<Seq<TaskView>, TrackerError> {
    match r {
        Ok(v) => Ok(views(v@)),
        Err(e) => Err(e),
    }
}

/// Decodes stored records into tasks (see `decode_all`).
pub fn decode_records(values: &Vec<json::JsonValue>) -> (r: Result<Vec<Task>, TrackerError>)
    ensures
        collection_view(r) == decode_all(records(values@)),
        r matches Ok(v) ==> all_wf(views(v@)),
{
    let ghost rs = records(values@);
    let mut tasks: Vec<Task> = Vec::new();
    let mut i: usize = 0;
    assert(rs.take(0) =~= Seq::<Map<Seq<char>, Seq<char>>>::empty());
    assert(views(tasks@) =~= Seq::<TaskView>::empty());
    while i < values.len()
        invariant
            0 <= i <= values.len(),
            rs == records(values@),
            decode_all(rs.take(i as int)) == Ok::<Seq<TaskView>, TrackerError>(views(tasks@)),
            all_wf(views(tasks@)),
        decreases values.len() - i,
    {
        assert(rs.take(i + 1).drop_last() =~= rs.take(i as int));
        assert(rs.take(i + 1).last() == json_strings(values@[i as int]));
        let ghost prev = views(tasks@);
        match Task::from_json(&values[i]) {
            Err(e) => {
                proof {
                    lemma_decode_all_error_stays(rs, i + 1);
                }
                return Err(e);
            },
            Ok(None) => {},
            Ok(Some(t)) => {
                let ghost tv = t@;
                tasks.push(t);
                assert(views(tasks@) =~= prev.push(tv));
            },
        }
        i = i + 1;
    }
    assert(rs.take(i as int) =~= rs);
    Ok(tasks)
}

proof fn lemma_decode_all_error_stays(rs: Seq<Map<Seq<char>, Seq<char>>>, i: int)
    requires
        0 <= i <= rs.len(),
        decode_all(rs.take(i)) is Err,
    ensures
        decode_all(rs) == decode_all(rs.take(i)),
    decreases rs.len() - i,
{
    if i < rs.len() {
        assert(rs.take(i + 1).drop_last() =~= rs.take(i));
        lemma_decode_all_error_stays(rs, i + 1);
    } else {
        assert(rs.take(i) =~= rs);
    }
}

/// Loads a collection from the stored text, or from no text where there is no
/// file yet. No text, and an empty text, give the empty collection without any
/// JSON read; text that is not JSON is an error; otherwise the elements of the
/// array are decoded (a value that is no array has none).
pub fn load_tasks(contents: Option<&str>) -> (r: Result<Vec<Task>, TrackerError>)
    ensures
        contents is None ==> collection_view(r) == Ok::<Seq<TaskView>, TrackerError>(Seq::empty()),
        contents is Some && contents->Some_0@.len() == 0 ==> collection_view(r) == Ok::<
            Seq<TaskView>,
            TrackerError,
        >(Seq::empty()),
        contents is Some && contents->Some_0@.len() > 0 ==> (collection_view(r) == Err::<
            Seq<TaskView>,
            TrackerError,
        >(TrackerError::MalformedFile) <==> !json_reads(contents->Some_0@)),
        contents is Some && contents->Some_0@.len() > 0 && json_reads(contents->Some_0@)
            ==> collection_view(r) == decode_all(json_array_records(contents->Some_0@)),
        r matches Ok(v) ==> all_wf(views(v@)),
{
    let text = match contents {
        None => {
            let empty: Vec<Task> = Vec::new();
            assert(views(empty@) =~= Seq::empty());
            return Ok(empty);
        },
        Some(t) => t,
    };
    if text.unicode_len() == 0 {
        let empty: Vec<Task> = Vec::new();
        assert(views(empty@) =~= Seq::empty());
        return Ok(empty);
    }
    let values = match parse_records(text) {
        None => return Err(TrackerError::MalformedFile),
        Some(vs) => vs,
    };
    assert(records(values@) == json_array_records(text@));
    match decode_records(&values) {
        Ok(v) => Ok(v),
        Err(e) => {
            proof {
                lemma_decode_error_kind(records(values@));
            }
            Err(e)
        },
    }
}

proof fn lemma_decode_error_kind(rs: Seq<Map<Seq<char>, Seq<char>>>)
    ensures
        decode_all(rs) matches Err(e) ==> e == TrackerError::CorruptStatus || e
            == TrackerError::CorruptTimestamp,
    decreases rs.len(),
{
    if rs.len() > 0 {
        lemma_decode_error_kind(rs.drop_last());
    }
}

/// The records of the tasks, in order (see `encode`).
pub fn encode_records(tasks: &Vec<Task>) -> (r: Vec<json::JsonValue>)
    requires
        all_wf(views(tasks@)),
    ensures
        records(r@) == views(tasks@).map_values(|t: TaskView| encode(t)),
        forall|j: int| 0 <= j < r@.len() ==> json_string_object(#[trigger] r@[j]),
{
    let ghost want = views(tasks@).map_values(|t: TaskView| encode(t));
    let mut out: Vec<json::JsonValue> = Vec::new();
    let mut i: usize = 0;
    assert(records(out@) =~= want.take(0));
    while i < tasks.len()
        invariant
            0 <= i <= tasks.len(),
            all_wf(views(tasks@)),
            want == views(tasks@).map_values(|t: TaskView| encode(t)),
            records(out@) == want.take(i as int),
            forall|j: int| 0 <= j < out@.len() ==> json_string_object(#[trigger] out@[j]),
        decreases tasks.len() - i,
    {
        assert(views(tasks@)[i as int].wf());
        let v = tasks[i].to_json();
        let ghost prev = records(out@);
        let ghost m = json_strings(v);
        out.push(v);
        assert(records(out@) =~= prev.push(m));
        assert(views(tasks@)[i as int] == tasks@[i as int]@);
        assert(want[i as int] == encode(views(tasks@)[i as int]));
        assert(records(out@) =~= want.take(i + 1));
        i = i + 1;
    }
    assert(want.take(i as int) =~= want);
    out
}

/// The stored text of a collection: a JSON array of the tasks' records.
pub fn tasks_to_text(tasks: &Vec<Task>) -> (r: String)
    requires
        all_wf(views(tasks@)),
    ensures
        r@.len() > 0,
        json_reads(r@),
        json_array_records(r@) == views(tasks@).map_values(|t: TaskView| encode(t)),
{
    let values = encode_records(tasks);
    assert(records(values@) == values@.map_values(|v: json::JsonValue| json_strings(v)));
    array_text(values)
}

/// Decoding the records of a collection gives the collection back, where
/// every timestamp reads back from the text written for it.
pub proof fn lemma_records_round_trip(s: Seq<TaskView>)
    requires
        all_wf(s),
        forall|i: int| 0 <= i < s.len() ==> (#[trigger] s[i]).created_at.reads_back() && s[i].updated_at.reads_back(),
    ensures
        decode_all(s.map_values(|t: TaskView| encode(t))) == Ok::<Seq<TaskView>, TrackerError>(s),
    decreases s.len(),
{
    if s.len() > 0 {
        let p = s.drop_last();
        let rs = s.map_values(|t: TaskView| encode(t));
        assert(rs.drop_last() =~= p.map_values(|t: TaskView| encode(t)));
        assert forall|i: int| 0 <= i < p.len() implies (#[trigger] p[i]).wf() && p[i].created_at.reads_back() && p[i].updated_at.reads_back() by {
            assert(p[i] == s[i]);
        }
        lemma_records_round_trip(p);
        assert(s[s.len() - 1].wf());
        lemma_round_trip(s.last());
        assert(rs.last() == encode(s.last()));
        assert(decode_all(rs.drop_last()) == Ok::<Seq<TaskView>, TrackerError>(p));
        assert(p.push(s.last()) =~= s);
        assert(decode_all(rs) == Ok::<Seq<TaskView>, TrackerError>(p.push(s.last())));
    } else {
        assert(s.map_values(|t: TaskView| encode(t)) =~= Seq::<Map<Seq<char>, Seq<char>>>::empty());
        assert(s =~= Seq::<TaskView>::empty());
    }
}

/// Loading the text that a collection was saved as gives the collection back,
/// where every timestamp reads back from the text written for it.
pub proof fn lemma_load_saved_text(s: Seq<TaskView>, text: Seq<char>)
    requires
        all_wf(s),
        forall|i: int| 0 <= i < s.len() ==> (#[trigger] s[i]).created_at.reads_back() && s[i].updated_at.reads_back(),
        text.len() > 0,
        json_reads(text),
        json_array_records(text) == s.map_values(|t: TaskView| encode(t)),
    ensures
        decode_all(json_array_records(text)) == Ok::<Seq<TaskView>, TrackerError>(s),
{
    lemma_records_round_trip(s);
}

} // verus!
