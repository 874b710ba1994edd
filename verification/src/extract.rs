//! From the identifiers of a table's rows to the records that were read.

use vstd::prelude::*;
use vstd::string::*;
use dashmap::DashMap;
use crate::error::ParseError;
use crate::record::BillingRecord;

verus! {

/// `dashmap::DashMap`, the concurrent map in which the row identifiers are
/// filed. Nothing inside it is visible here: what it holds is named by
/// `id_map_keys`.
#[verifier::external_type_specification]
#[verifier::external_body]
#[verifier::reject_recursive_types(K)]
#[verifier::reject_recursive_types(V)]
#[verifier::reject_recursive_types(S)]
pub struct ExDashMap<K, V, S>(DashMap<K, V, S>);

/// The keys that a map of row identifiers holds, as `DashMap::insert` put
/// them there.
pub uninterp spec fn id_map_keys(map: DashMap<String, ()>) -> Set<Seq<char>>;

/// Calls `DashMap::new`. Trusted: the new map holds no key.
#[verifier::external_body]
fn id_map_new() -> (map: DashMap<String, ()>)
    ensures
        id_map_keys(map) == Set::<Seq<char>>::empty(),
{
    DashMap::new()
}

/// Calls `DashMap::insert` with the unit value. Trusted: afterwards the map
/// holds the keys it held and `id`.
#[verifier::external_body]
fn id_map_insert(map: &mut DashMap<String, ()>, id: String)
    ensures
        id_map_keys(*final(map)) == id_map_keys(*old(map)).insert(id@),
{
    map.insert(id, ());
}

/// Walks the map with `DashMap::iter` and copies each entry's key. Trusted:
/// every key comes out once, and nothing else; the order is left open.
#[verifier::external_body]
fn id_map_key_list(map: &DashMap<String, ()>) -> (ids: Vec<String>)
    ensures
        lists_each_once(ids@, id_map_keys(*map)),
{
    let mut ids = Vec::new();
    for entry in map.iter() {
        ids.push(entry.key().clone());
    }
    ids
}

/// One element of the list that a page script handed back.
#[derive(Clone, Debug)]
pub enum ScriptItem {
    /// A text.
    Text(String),
    /// Anything that is no text.
    Other,
}

/// What a page script handed back.
#[derive(Clone, Debug)]
pub enum ScriptValue {
    /// A list of values.
    List(Vec<ScriptItem>),
    /// Anything that is no list.
    Other,
}

/// Why the rows of a table could not be listed.
#[derive(Clone, Copy, Debug, PartialEq, Eq, Structural)]
pub enum ExtractError {
    /// The script that lists the rows handed back something that is no list.
    NotAList,
}

/// How the extraction of one row ended.
#[derive(Clone, Debug)]
pub enum TaskOutcome {
    /// The row gave a record.
    Extracted(BillingRecord),
    /// A field of the row could not be read.
    Failed(ParseError),
    /// The task broke off before it gave anything.
    Crashed,
}

/// Whether `items[i]` is the non-empty text `t`.
pub open spec fn is_id_at(items: Seq<ScriptItem>, i: int, t: Seq<char>) -> bool {
    &&& 0 <= i < items.len()
    &&& t.len() > 0
    &&& items[i] matches ScriptItem::Text(s)
    &&& s@ == t
}

/// The row identifiers among `items`: the texts that are not empty.
pub open spec fn row_ids(items: Seq<ScriptItem>) -> Set<Seq<char>> {
    Set::new(|t: Seq<char>| exists|i: int| is_id_at(items, i, t))
}

/// The records of the outcomes that gave one, in the outcomes' order.
pub open spec fn successes(outcomes: Seq<TaskOutcome>) -> Seq<BillingRecord>
    decreases outcomes.len(),
{
    if outcomes.len() == 0 {
        Seq::empty()
    } else {
        match outcomes.last() {
            TaskOutcome::Extracted(rec) => successes(outcomes.drop_last()).push(rec),
            _ => successes(outcomes.drop_last()),
        }
    }
}

/// How many of the outcomes gave no record.
pub open spec fn failure_count(outcomes: Seq<TaskOutcome>) -> nat
    decreases outcomes.len(),
{
    if outcomes.len() == 0 {
        0
    } else if outcomes.last() is Extracted {
        failure_count(outcomes.drop_last())
    } else {
        failure_count(outcomes.drop_last()) + 1
    }
}

/// Every outcome either gives a record or counts as a failure.
pub proof fn lemma_successes_len(outcomes: Seq<TaskOutcome>)
    ensures
        successes(outcomes).len() + failure_count(outcomes) == outcomes.len(),
    decreases outcomes.len(),
{
    if outcomes.len() > 0 {
        lemma_successes_len(outcomes.drop_last());
    }
}

/// Where every outcome gave a record, none counts as a failure.
pub proof fn lemma_no_failure(outcomes: Seq<TaskOutcome>)
    requires
        forall|i: int| 0 <= i < outcomes.len() ==> (#[trigger] outcomes[i]) is Extracted,
    ensures
        failure_count(outcomes) == 0,
    decreases outcomes.len(),
{
    if outcomes.len() > 0 {
        let rest = outcomes.drop_last();
        assert forall|i: int| 0 <= i < rest.len() implies (#[trigger] rest[i]) is Extracted by {
            assert(rest[i] == outcomes[i]);
        }
        lemma_no_failure(rest);
        assert(outcomes[outcomes.len() - 1] is Extracted);
    }
}

/// Where one row out of all fails and every other gives its record, the
/// records are one fewer than the rows.
pub proof fn lemma_one_failure_drops_one(outcomes: Seq<TaskOutcome>, k: int)
    requires
        0 <= k < outcomes.len(),
        !(outcomes[k] is Extracted),
        forall|i: int| 0 <= i < outcomes.len() && i != k ==> (#[trigger] outcomes[i]) is Extracted,
    ensures
        successes(outcomes).len() == outcomes.len() - 1,
    decreases outcomes.len(),
{
    let rest = outcomes.drop_last();
    lemma_successes_len(outcomes);
    if k == outcomes.len() - 1 {
        assert forall|i: int| 0 <= i < rest.len() implies (#[trigger] rest[i]) is Extracted by {
            assert(rest[i] == outcomes[i]);
        }
        lemma_no_failure(rest);
    } else {
        assert(outcomes[outcomes.len() - 1] is Extracted);
        assert(rest[k] == outcomes[k]);
        assert forall|i: int| 0 <= i < rest.len() && i != k implies (#[trigger] rest[i]) is Extracted by {
            assert(rest[i] == outcomes[i]);
        }
        lemma_one_failure_drops_one(rest, k);
        lemma_successes_len(rest);
    }
}

/// The same elements, last first.
fn reversed<T>(v: Vec<T>) -> (r: Vec<T>)
    ensures
        r@ == v@.reverse(),
{
    let ghost input = v@;
    let mut rest = v;
    let mut r: Vec<T> = Vec::new();
    while rest.len() > 0
        invariant
            rest@ == input.take(rest@.len() as int),
            rest@.len() <= input.len(),
            r@.len() == input.len() - rest@.len(),
            forall|i: int| 0 <= i < r@.len() ==> #[trigger] r@[i] == input[input.len() - 1 - i],
        decreases rest@.len(),
    {
        let popped = rest.pop();
        if let Some(x) = popped {
            r.push(x);
        }
    }
    assert(r@ =~= input.reverse());
    r
}

/// Gathers the records of the rows that gave one, in the order of the
/// outcomes. Failed and crashed rows are left out and fail nothing else.
pub fn collect_records(outcomes: Vec<TaskOutcome>) -> (records: Vec<BillingRecord>)
    ensures
        records@ == successes(outcomes@),
        records@.len() + failure_count(outcomes@) == outcomes@.len(),
{
    let ghost input = outcomes@;
    let mut stack = reversed(outcomes);
    let mut records: Vec<BillingRecord> = Vec::new();
    assert(input.take(0) =~= Seq::<TaskOutcome>::empty());
    while stack.len() > 0
        invariant
            stack@.len() <= input.len(),
            stack@ == input.reverse().take(stack@.len() as int),
            records@ == successes(input.take(input.len() - stack@.len())),
        decreases stack@.len(),
    {
        let ghost done = input.len() - stack@.len();
        let popped = stack.pop();
        if let Some(outcome) = popped {
            proof {
                assert(outcome == input[done]);
                assert(input.take(done + 1).drop_last() =~= input.take(done));
                assert(input.take(done + 1).last() == outcome);
            }
            match outcome {
                TaskOutcome::Extracted(rec) => {
                    records.push(rec);
                },
                _ => {},
            }
        }
    }
    proof {
        assert(input.take(input.len() as int) =~= input);
        lemma_successes_len(input);
    }
    records
}

/// The outcomes of each window as a sequence.
pub open spec fn window_views(windows: Seq<Vec<TaskOutcome>>) -> Seq<Seq<TaskOutcome>> {
    Seq::new(windows.len(), |i: int| windows[i]@)
}

/// The records of all windows, window after window.
pub open spec fn collected(windows: Seq<Seq<TaskOutcome>>) -> Seq<BillingRecord>
    decreases windows.len(),
{
    if windows.len() == 0 {
        Seq::empty()
    } else {
        collected(windows.drop_last()) + successes(windows.last())
    }
}

/// How many rows all windows list, each window counted for itself.
pub open spec fn row_count(windows: Seq<Seq<TaskOutcome>>) -> nat
    decreases windows.len(),
{
    if windows.len() == 0 {
        0
    } else {
        row_count(windows.drop_last()) + windows.last().len()
    }
}

/// How many rows of all windows gave no record.
pub open spec fn failures_in(windows: Seq<Seq<TaskOutcome>>) -> nat
    decreases windows.len(),
{
    if windows.len() == 0 {
        0
    } else {
        failures_in(windows.drop_last()) + failure_count(windows.last())
    }
}

/// Over all windows, every row either gives a record or counts as a failure.
pub proof fn lemma_collected_len(windows: Seq<Seq<TaskOutcome>>)
    ensures
        collected(windows).len() + failures_in(windows) == row_count(windows),
    decreases windows.len(),
{
    if windows.len() > 0 {
        lemma_collected_len(windows.drop_last());
        lemma_successes_len(windows.last());
    }
}

/// Where one outcome is the only one that gave no record, the failures are
/// one.
proof fn lemma_single_failure(outcomes: Seq<TaskOutcome>, k: int)
    requires
        0 <= k < outcomes.len(),
        !(outcomes[k] is Extracted),
        forall|i: int| 0 <= i < outcomes.len() && i != k ==> (#[trigger] outcomes[i]) is Extracted,
    ensures
        failure_count(outcomes) == 1,
{
    lemma_one_failure_drops_one(outcomes, k);
    lemma_successes_len(outcomes);
}

/// Where, over all the windows of a run, one row fails and every other gives
/// its record, the records are one fewer than the rows.
pub proof fn lemma_one_failure_over_windows(windows: Seq<Seq<TaskOutcome>>, w: int, k: int)
    requires
        0 <= w < windows.len(),
        0 <= k < windows[w].len(),
        !(windows[w][k] is Extracted),
        forall|a: int, b: int|
            0 <= a < windows.len() && 0 <= b < windows[a].len() && !(a == w && b == k) ==> (
            #[trigger] windows[a][b]) is Extracted,
    ensures
        collected(windows).len() == row_count(windows) - 1,
{
    lemma_collected_len(windows);
    lemma_failures_in_one_window(windows, w, k, windows.len() as int);
    assert(windows.take(windows.len() as int) =~= windows);
}

/// The failures among the first `n` windows, where one row of the window `w`
/// is the only one that fails: none before that window is reached, one after.
proof fn lemma_failures_in_one_window(windows: Seq<Seq<TaskOutcome>>, w: int, k: int, n: int)
    requires
        0 <= w < windows.len(),
        0 <= k < windows[w].len(),
        0 <= n <= windows.len(),
        !(windows[w][k] is Extracted),
        forall|a: int, b: int|
            0 <= a < windows.len() && 0 <= b < windows[a].len() && !(a == w && b == k) ==> (
            #[trigger] windows[a][b]) is Extracted,
    ensures
        failures_in(windows.take(n)) == if n > w {
            1nat
        } else {
            0nat
        },
    decreases n,
{
    if n > 0 {
        let first = windows.take(n);
        lemma_failures_in_one_window(windows, w, k, n - 1);
        assert(first.drop_last() =~= windows.take(n - 1));
        assert(first.last() == windows[n - 1]);
        let last = windows[n - 1];
        if n - 1 == w {
            lemma_single_failure(last, k);
        } else {
            assert forall|i: int| 0 <= i < last.len() implies (#[trigger] last[i]) is Extracted by {
                assert(windows[n - 1][i] is Extracted);
            }
            lemma_no_failure(last);
        }
    }
}

/// Adds the records of one more window to those gathered so far.
pub fn append_window(records: &mut Vec<BillingRecord>, outcomes: Vec<TaskOutcome>)
    ensures
        final(records)@ == old(records)@ + successes(outcomes@),
{
    let mut more = collect_records(outcomes);
    records.append(&mut more);
}

/// Gathers the records of all windows of a run, window after window: a row
/// that failed in one window costs that row's record and nothing else.
pub fn collect_windows(windows: Vec<Vec<TaskOutcome>>) -> (records: Vec<BillingRecord>)
    ensures
        records@ == collected(window_views(windows@)),
        records@.len() + failures_in(window_views(windows@)) == row_count(window_views(windows@)),
{
    let ghost input = windows@;
    let ghost views = window_views(input);
    let mut stack = reversed(windows);
    let mut records: Vec<BillingRecord> = Vec::new();
    assert(views.take(0) =~= Seq::<Seq<TaskOutcome>>::empty());
    while stack.len() > 0
        invariant
            views == window_views(input),
            stack@.len() <= input.len(),
            stack@ == input.reverse().take(stack@.len() as int),
            records@ == collected(views.take(input.len() - stack@.len())),
        decreases stack@.len(),
    {
        let ghost done = input.len() - stack@.len();
        let popped = stack.pop();
        if let Some(outcomes) = popped {
            proof {
                assert(outcomes == input[done]);
                assert(views.take(done + 1).drop_last() =~= views.take(done));
                assert(views.take(done + 1).last() == outcomes@);
            }
            append_window(&mut records, outcomes);
        }
    }
    proof {
        assert(views.take(input.len() as int) =~= views);
        lemma_collected_len(views);
    }
    records
}

/// The row identifier that an item stands for: its text, unless it is empty
/// or the item is no text.
fn item_id(item: &ScriptItem) -> (r: Option<&String>)
    ensures
        match r {
            Some(id) => *item == ScriptItem::Text(*id) && id@.len() > 0,
            None => match *item {
                ScriptItem::Text(s) => s@.len() == 0,
                ScriptItem::Other => true,
            },
        },
{
    match item {
        ScriptItem::Text(s) => {
            if s.as_str().unicode_len() > 0 {
                Some(s)
            } else {
                None
            }
        },
        ScriptItem::Other => None,
    }
}

/// Files the row identifiers that a page script listed: every text of the
/// list that is not empty, each once. Anything that is no list is refused.
pub fn get_children_ids_to_map(result: &ScriptValue) -> (r: Result<
    DashMap<String, ()>,
    ExtractError,
>)
    ensures
        match r {
            Ok(map) => {
                &&& result matches ScriptValue::List(items)
                &&& id_map_keys(map) == row_ids(items@)
            },
            Err(e) => result is Other && e == ExtractError::NotAList,
        },
{
    match result {
        ScriptValue::List(items) => {
            let mut map = id_map_new();
            let mut i: usize = 0;
            assert(id_map_keys(map) =~= row_ids(items@.take(0)));
            while i < items.len()
                invariant
                    i <= items@.len(),
                    id_map_keys(map) == row_ids(items@.take(i as int)),
                decreases items@.len() - i,
            {
                let ghost before = items@.take(i as int);
                let ghost after = items@.take(i + 1);
                match item_id(&items[i]) {
                    Some(id) => {
                        id_map_insert(&mut map, id.clone());
                        proof {
                            assert(is_id_at(after, i as int, id@));
                            assert forall|t: Seq<char>| row_ids(after).contains(t) <==> row_ids(
                                before,
                            ).insert(id@).contains(t) by {
                                lemma_row_ids_step(items@, i as int, t);
                            }
                            assert(row_ids(after) =~= row_ids(before).insert(id@));
                        }
                    },
                    None => {
                        proof {
                            assert forall|t: Seq<char>| row_ids(after).contains(t) <==> row_ids(
                                before,
                            ).contains(t) by {
                                lemma_row_ids_step(items@, i as int, t);
                            }
                            assert(row_ids(after) =~= row_ids(before));
                        }
                    },
                }
                i = i + 1;
            }
            assert(items@.take(items@.len() as int) =~= items@);
            Ok(map)
        },
        ScriptValue::Other => Err(ExtractError::NotAList),
    }
}

/// One more item adds its text to the identifiers, if it is a non-empty text,
/// and nothing else.
proof fn lemma_row_ids_step(items: Seq<ScriptItem>, i: int, t: Seq<char>)
    requires
        0 <= i < items.len(),
    ensures
        row_ids(items.take(i + 1)).contains(t) <==> (row_ids(items.take(i)).contains(t) || is_id_at(
            items,
            i,
            t,
        )),
{
    let before = items.take(i);
    let after = items.take(i + 1);
    if row_ids(after).contains(t) {
        let k = choose|k: int| is_id_at(after, k, t);
        if k < i {
            assert(is_id_at(before, k, t));
        } else {
            assert(is_id_at(items, i, t));
        }
    }
    if row_ids(before).contains(t) {
        let k = choose|k: int| is_id_at(before, k, t);
        assert(is_id_at(after, k, t));
    }
    if is_id_at(items, i, t) {
        assert(is_id_at(after, i, t));
    }
}

/// Whether `ids` lists exactly the texts of `wanted`, each once.
pub open spec fn lists_each_once(ids: Seq<String>, wanted: Set<Seq<char>>) -> bool {
    &&& forall|t: Seq<char>|
        wanted.contains(t) <==> exists|i: int| 0 <= i < ids.len() && (#[trigger] ids[i])@ == t
    &&& forall|i: int, j: int|
        0 <= i < j < ids.len() ==> (#[trigger] ids[i])@ != (#[trigger] ids[j])@
}

/// The identifiers of the rows that a page script listed, each once however
/// often the script named it, in no particular order: one extraction task is
/// started for each.
pub fn list_row_ids(result: &ScriptValue) -> (r: Result<Vec<String>, ExtractError>)
    ensures
        match r {
            Ok(ids) => {
                &&& result matches ScriptValue::List(items)
                &&& lists_each_once(ids@, row_ids(items@))
            },
            Err(e) => result is Other && e == ExtractError::NotAList,
        },
{
    match get_children_ids_to_map(result) {
        Ok(map) => Ok(id_map_key_list(&map)),
        Err(e) => Err(e),
    }
}

} // verus!
