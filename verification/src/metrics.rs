use crate::error::Error;
use crate::text::shows;
use dashmap::DashMap;
use std::sync::Arc;
use vstd::prelude::*;
use vstd::string::{to_string_from_display_ensures, StringExecFns};

verus! {

/// The concurrent hash map of the `dashmap` crate. Verus sees nothing inside
/// it, and every method of it works through a shared reference.
#[verifier::external_type_specification]
#[verifier::external_body]
#[verifier::reject_recursive_types(K)]
#[verifier::reject_recursive_types(V)]
#[verifier::reject_recursive_types(S)]
pub struct ExDashMap<K, V, S>(DashMap<K, V, S>);

/// `DashMap::new` makes a map. Nothing is claimed of it.
#[verifier::external_body]
fn empty_store() -> (store: DashMap<String, i64>) {
    DashMap::new()
}

/// `DashMap::entry`, `Entry::and_modify` and `Entry::or_insert_with`: while
/// the entry of `key` is locked, the count under `key` is replaced by
/// `next_count` of it, or `next_count` of nothing is stored where `key` has no
/// count yet. The store is shared, so nothing is claimed of what it holds
/// before or after.
#[verifier::external_body]
fn bump(store: &DashMap<String, i64>, key: String) {
    store.entry(key).and_modify(|count| *count = next_count(Some(*count))).or_insert_with(
        || next_count(None),
    );
}

/// `DashMap::iter` walks the map; each entry that it meets is copied out. The
/// order of the walk and what other threads store meanwhile are open, so
/// nothing is claimed of the entries.
#[verifier::external_body]
fn snapshot(store: &DashMap<String, i64>) -> (entries: Vec<(String, i64)>) {
    store.iter().map(|entry| (entry.key().clone(), *entry.value())).collect()
}

/// The count of a label after one more event: one for a label that had no
/// count, else one more than before. A count that has reached `i64::MAX`
/// stays there.
pub fn next_count(current: Option<i64>) -> (next: i64)
    ensures
        current is None ==> next == 1,
        current is Some && current->Some_0 < i64::MAX ==> next == current->Some_0 + 1,
        current is Some && current->Some_0 == i64::MAX ==> next == i64::MAX,
{
    match current {
        None => 1,
        Some(count) => if count < i64::MAX {
            count + 1
        } else {
            count
        },
    }
}

/// The first `n` of `entries`, one line each: the label, a colon and a space,
/// the count, a line feed.
pub open spec fn lines_text(entries: Seq<(Seq<char>, Seq<char>)>, n: nat) -> Seq<char>
    decreases n,
{
    if n == 0 {
        Seq::empty()
    } else {
        lines_text(entries, (n - 1) as nat) + entries[n - 1].0 + ": "@ + entries[n - 1].1 + "\n"@
    }
}

/// `text` is a way in which some count is written.
pub open spec fn is_count_text(text: Seq<char>) -> bool {
    exists|count: i64| shows(count, text)
}

/// What each pair of `entries` reads.
pub open spec fn pair_texts(entries: Seq<(String, String)>) -> Seq<(Seq<char>, Seq<char>)> {
    entries.map_values(|entry: (String, String)| (entry.0@, entry.1@))
}

/// Writes one line for each of `entries`, in their order: the label, a colon
/// and a space, the text of the count, a line feed.
pub fn render_lines(entries: &Vec<(String, String)>) -> (text: String)
    ensures
        text@ == lines_text(pair_texts(entries@), entries@.len()),
{
    let ghost read = pair_texts(entries@);
    let n: usize = entries.len();
    let mut text = String::new();
    let mut k: usize = 0;
    while k < n
        invariant
            k <= n,
            n == entries@.len(),
            read == pair_texts(entries@),
            text@ == lines_text(read, k as nat),
        decreases n - k,
    {
        text.append(entries[k].0.as_str());
        text.append(": ");
        text.append(entries[k].1.as_str());
        text.append("\n");
        k += 1;
    }
    text
}

/// A store of event counts by label, shared by all its clones: what one
/// handle counts, every other handle sees.
#[derive(Debug, Clone)]
pub struct Metrics {
    data: Arc<DashMap<String, i64>>,
}

impl Metrics {
    /// A store of its own, with no counts in it.
    pub fn new() -> Self {
        Metrics { data: Arc::new(empty_store()) }
    }

    /// Counts one more event under `key`. It cannot fail.
    pub fn inc(&self, key: impl Into<String>) -> (r: Result<(), Error>)
        ensures
            r is Ok,
    {
        bump(&self.data, key.into());
        Ok(())
    }

    /// The counts that the store holds while it is read, one line each, in no
    /// particular order.
    pub fn to_string(&self) -> (text: String)
        ensures
            exists|entries: Seq<(Seq<char>, Seq<char>)>|
                {
                    &&& forall|k: int|
                        0 <= k < entries.len() ==> is_count_text((#[trigger] entries[k]).1)
                    &&& text@ == lines_text(entries, entries.len())
                },
    {
        let counts = snapshot(&self.data);
        let n: usize = counts.len();
        let mut entries: Vec<(String, String)> = Vec::new();
        let mut k: usize = 0;
        while k < n
            invariant
                k <= n,
                n == counts@.len(),
                entries@.len() == k,
                forall|p: int|
                    0 <= p < k ==> shows(counts@[p].1, (#[trigger] pair_texts(entries@)[p]).1),
            decreases n - k,
        {
            let label = counts[k].0.clone();
            let count = counts[k].1.to_string();
            let ghost before = entries@;
            entries.push((label, count));
            proof {
                assert(to_string_from_display_ensures::<i64>(&counts@[k as int].1, count));
                assert(pair_texts(entries@)[k as int].1 == count@);
                assert forall|p: int| 0 <= p < k + 1 implies shows(
                    counts@[p].1,
                    (#[trigger] pair_texts(entries@)[p]).1,
                ) by {
                    if p < k {
                        assert(pair_texts(entries@)[p] == pair_texts(before)[p]);
                    }
                }
            }
            k += 1;
        }
        let text = render_lines(&entries);
        proof {
            let read = pair_texts(entries@);
            assert forall|p: int| 0 <= p < read.len() implies is_count_text(
                (#[trigger] read[p]).1,
            ) by {
                assert(shows(counts@[p].1, read[p].1));
            }
            assert(text@ == lines_text(read, read.len()));
        }
        text
    }
}

impl Default for Metrics {
    fn default() -> Self {
        Self::new()
    }
}

} // verus!
