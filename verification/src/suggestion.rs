//! Prefix index over execution names.

use crate::models::{Execution, SuggestResponse, SuggestedItem, SuggestedItemView};
use crate::text::{chars_of, decimal, decimal_text, lowercase, to_lowercase};
use std::collections::HashMap;
use vstd::prelude::*;

verus! {

/// The views of a list of items, in order.
pub open spec fn item_views(items: Seq<SuggestedItem>) -> Seq<SuggestedItemView> {
    items.map_values(|i: SuggestedItem| i@)
}

/// One node of the trie: the candidates stored at this prefix, and one child
/// per next code point.
#[derive(Debug)]
pub struct PrefixTrieNode {
    children: HashMap<u32, PrefixTrieNode>,
    values: Vec<SuggestedItem>,
}

impl PrefixTrieNode {
    /// The candidates found by walking `path` down from this node; empty where
    /// a step has no child.
    pub closed spec fn lookup(&self, path: Seq<char>) -> Seq<SuggestedItemView>
        decreases path.len(),
    {
        if path.len() == 0 {
            item_views(self.values@)
        } else if self.children@.contains_key(path[0] as u32) {
            self.children@[path[0] as u32].lookup(path.drop_first())
        } else {
            Seq::empty()
        }
    }

    /// A node without candidates and without children.
    pub fn new() -> (r: Self)
        ensures
            forall|p: Seq<char>| #[trigger] r.lookup(p) == Seq::<SuggestedItemView>::empty(),
    {
        let r = PrefixTrieNode { children: HashMap::new(), values: Vec::new() };
        assert forall|p: Seq<char>| #[trigger] r.lookup(p) == Seq::<SuggestedItemView>::empty() by {
            if p.len() == 0 {
                assert(item_views(r.values@) =~= Seq::empty());
            }
        }
        r
    }
}

/// `list` after one attempt to add `item`: unchanged where `item` is already
/// in it or `cap` is reached, else with `item` at the end.
pub open spec fn add_candidate(
    list: Seq<SuggestedItemView>,
    item: SuggestedItemView,
    cap: nat,
) -> Seq<SuggestedItemView> {
    if list.contains(item) || list.len() >= cap {
        list
    } else {
        list.push(item)
    }
}

/// Whether the list at a node is free of repeats and within `cap`.
pub open spec fn bounded_distinct(list: Seq<SuggestedItemView>, cap: nat) -> bool {
    list.no_duplicates() && list.len() <= cap
}

/// Whether `item` is among `values`.
fn holds(values: &Vec<SuggestedItem>, item: &SuggestedItem) -> (r: bool)
    ensures
        r == item_views(values@).contains(item@),
{
    let mut i: usize = 0;
    while i < values.len()
        invariant
            i <= values.len(),
            forall|j: int| 0 <= j < i ==> item_views(values@)[j] != item@,
        decreases values.len() - i,
    {
        if values[i] == *item {
            assert(item_views(values@)[i as int] == item@);
            return true;
        }
        i = i + 1;
    }
    false
}

/// Offers `value` to the node that the characters of `path` from `depth` up
/// to `len` lead to from `node`, making the nodes on the way that are not
/// there yet. Every other node keeps its list.
fn insert_path(
    node: &mut PrefixTrieNode,
    path: &Vec<char>,
    depth: usize,
    len: usize,
    value: SuggestedItem,
    cap: usize,
)
    requires
        depth <= len <= path.len(),
    ensures
        forall|p: Seq<char>| #[trigger]
            final(node).lookup(p) == if p == path@.subrange(depth as int, len as int) {
                add_candidate(old(node).lookup(p), value@, cap as nat)
            } else {
                old(node).lookup(p)
            },
    decreases len - depth,
{
    if depth == len {
        let present = holds(&node.values, &value);
        if !present && node.values.len() < cap {
            node.values.push(value);
        }
        assert forall|p: Seq<char>| #[trigger]
            node.lookup(p) == if p == path@.subrange(depth as int, len as int) {
                add_candidate(old(node).lookup(p), value@, cap as nat)
            } else {
                old(node).lookup(p)
            } by {
            if p.len() == 0 {
                assert(p =~= path@.subrange(depth as int, len as int));
                assert(item_views(node.values@) =~= add_candidate(
                    item_views(old(node).values@),
                    value@,
                    cap as nat,
                ));
            }
        }
    } else {
        let c: char = path[depth];
        let code: u32 = c as u32;
        let ghost rest = path@.subrange(depth as int + 1, len as int);
        let ghost target = path@.subrange(depth as int, len as int);
        let mut child = match node.children.remove(&code) {
            Some(existing) => existing,
            None => PrefixTrieNode::new(),
        };
        let ghost child_before = child;
        insert_path(&mut child, path, depth + 1, len, value, cap);
        node.children.insert(code, child);
        assert forall|p: Seq<char>| #[trigger]
            node.lookup(p) == if p == target {
                add_candidate(old(node).lookup(p), value@, cap as nat)
            } else {
                old(node).lookup(p)
            } by {
            assert(target.len() > 0);
            assert(target[0] == c);
            assert(target.drop_first() =~= rest);
            if p.len() > 0 && p[0] as u32 == code {
                vstd::utf8::char_u32_cast(p[0], code);
                vstd::utf8::char_u32_cast(c, code);
                assert(p[0] == c);
                assert(old(node).lookup(p) == child_before.lookup(p.drop_first()));
                assert(node.lookup(p) == child.lookup(p.drop_first()));
                if p.drop_first() == rest {
                    assert(p =~= seq![c] + p.drop_first());
                    assert(target =~= seq![c] + rest);
                }
            }
        }
    }
}

/// Whether `p` is one of the prefixes of `key` under which an index with the
/// limits `min_len` and `max_len` files an item.
pub open spec fn indexed_prefix(min_len: nat, max_len: nat, key: Seq<char>, p: Seq<char>) -> bool {
    &&& min_len <= p.len() <= max_len
    &&& p.is_prefix_of(key)
}

/// The longest prefix that is indexed for a name of `name_len` code points:
/// the upper limit, and no more than the name is long.
pub open spec fn reach(max_len: nat, name_len: nat) -> nat {
    if name_len < max_len {
        name_len
    } else {
        max_len
    }
}

/// A prefix index: under each prefix of a name, within the configured lengths,
/// the items filed under that name, without repeats and at most
/// `max_candidates` of them, oldest first.
#[derive(Debug)]
pub struct PrefixTrie {
    root: PrefixTrieNode,
    min_prefix_len: usize,
    max_prefix_len: usize,
    max_candidates: usize,
}

impl PrefixTrie {
    /// Every node's list is free of repeats and within the cap. `new`
    /// establishes this and every method keeps it.
    pub closed spec fn wf(&self) -> bool {
        forall|p: Seq<char>| #[trigger]
            bounded_distinct(self.root.lookup(p), self.max_candidates as nat)
    }

    /// The candidates stored under exactly the prefix `p`.
    pub closed spec fn candidates(&self, p: Seq<char>) -> Seq<SuggestedItemView> {
        self.root.lookup(p)
    }

    /// The shortest prefix that is indexed.
    pub closed spec fn min_len(&self) -> nat {
        self.min_prefix_len as nat
    }

    /// The longest prefix that is indexed.
    pub closed spec fn max_len(&self) -> nat {
        self.max_prefix_len as nat
    }

    /// The most candidates kept under one prefix.
    pub closed spec fn cap(&self) -> nat {
        self.max_candidates as nat
    }

    /// Whether `self` is `before` with the same limits.
    pub open spec fn same_limits(&self, before: &PrefixTrie) -> bool {
        &&& self.min_len() == before.min_len()
        &&& self.max_len() == before.max_len()
        &&& self.cap() == before.cap()
    }

    /// Whether `self` is `before` after `item` was offered to the node at `at`
    /// and to no other.
    pub open spec fn added_at(
        &self,
        before: &PrefixTrie,
        at: Seq<char>,
        item: SuggestedItemView,
    ) -> bool {
        &&& self.same_limits(before)
        &&& forall|p: Seq<char>| #[trigger]
            self.candidates(p) == if p == at {
                add_candidate(before.candidates(p), item, before.cap())
            } else {
                before.candidates(p)
            }
    }

    /// Whether `self` is `before` after `item` was filed under the folded name
    /// `key` of a name of `name_len` code points: offered to every prefix of
    /// `key` whose length lies between the lower limit and the smaller of the
    /// upper limit and `name_len`, all else unchanged. A name shorter than
    /// the lower limit leaves everything as it was.
    pub open spec fn filed(
        &self,
        before: &PrefixTrie,
        key: Seq<char>,
        name_len: nat,
        item: SuggestedItemView,
    ) -> bool {
        &&& self.same_limits(before)
        &&& forall|p: Seq<char>| #[trigger]
            self.candidates(p) == if indexed_prefix(
                before.min_len(),
                reach(before.max_len(), name_len),
                key,
                p,
            ) {
                add_candidate(before.candidates(p), item, before.cap())
            } else {
                before.candidates(p)
            }
    }

    /// An empty index with the given limits.
    pub fn new(min_prefix_len: usize, max_prefix_len: usize, max_candidates: usize) -> (r: Self)
        ensures
            r.wf(),
            r.min_len() == min_prefix_len,
            r.max_len() == max_prefix_len,
            r.cap() == max_candidates,
            forall|p: Seq<char>| #[trigger] r.candidates(p) == Seq::<SuggestedItemView>::empty(),
    {
        let root = PrefixTrieNode::new();
        PrefixTrie { root, min_prefix_len, max_prefix_len, max_candidates }
    }

    /// Files `value` under the name `key`: under the prefixes of its folded
    /// form, for each length from the lower limit up to the smaller of the
    /// name's own length and the upper limit. A name shorter than the lower
    /// limit is ignored.
    pub fn insert(&mut self, key: &str, value: SuggestedItem)
        requires
            old(self).wf(),
        ensures
            final(self).wf(),
            final(self).filed(old(self), lowercase(key@), key@.len(), value@),
            key@.len() < old(self).min_len() ==> forall|p: Seq<char>| #[trigger]
                final(self).candidates(p) == old(self).candidates(p),
    {
        let name_len = key.unicode_len();
        let folded = to_lowercase(key);
        self.insert_folded(folded.as_str(), name_len, value);
    }

    /// Files `value` under `key` as it is written, for a name of `name_len`
    /// code points: once for each length from the lower limit up to the
    /// smallest of the key's length, `name_len` and the upper limit.
    pub fn insert_folded(&mut self, key: &str, name_len: usize, value: SuggestedItem)
        requires
            old(self).wf(),
        ensures
            final(self).wf(),
            final(self).filed(old(self), key@, name_len as nat, value@),
    {
        let chars = chars_of(key);
        let top: usize = if name_len < self.max_prefix_len {
            name_len
        } else {
            self.max_prefix_len
        };
        let upper: usize = if chars.len() < top {
            chars.len()
        } else {
            top
        };
        let cap = self.max_candidates;
        let mut len: usize = self.min_prefix_len;
        let mut done: bool = len > upper;
        let ghost mut next: int = if done { upper + 1 } else { len as int };
        while !done
            invariant
                chars@ == key@,
                top == reach(self.max_prefix_len as nat, name_len as nat),
                upper == if key@.len() < top {
                    key@.len()
                } else {
                    top as nat
                },
                cap == self.max_candidates,
                self.min_prefix_len == old(self).min_prefix_len,
                self.max_prefix_len == old(self).max_prefix_len,
                self.max_candidates == old(self).max_candidates,
                !done ==> next == len && self.min_prefix_len <= len <= upper,
                done ==> next > upper,
                self.wf(),
                forall|p: Seq<char>| #[trigger]
                    self.root.lookup(p) == if indexed_prefix(
                        self.min_prefix_len as nat,
                        top as nat,
                        key@,
                        p,
                    ) && p.len() < next {
                        add_candidate(old(self).root.lookup(p), value@, cap as nat)
                    } else {
                        old(self).root.lookup(p)
                    },
            decreases upper + 1 - next,
        {
            let ghost prev = self.root;
            let item = value.clone();
            insert_path(&mut self.root, &chars, 0, len, item, cap);
            assert forall|p: Seq<char>| #[trigger]
                self.root.lookup(p) == if indexed_prefix(
                    self.min_prefix_len as nat,
                    top as nat,
                    key@,
                    p,
                ) && p.len() < len + 1 {
                    add_candidate(old(self).root.lookup(p), value@, cap as nat)
                } else {
                    old(self).root.lookup(p)
                } by {
                if p == chars@.subrange(0, len as int) {
                    assert(p.is_prefix_of(key@));
                } else if p.len() == len && p.is_prefix_of(key@) {
                    assert(p =~= chars@.subrange(0, len as int));
                }
            }
            assert forall|p: Seq<char>| #[trigger]
                bounded_distinct(self.root.lookup(p), self.max_candidates as nat) by {
                assert(bounded_distinct(prev.lookup(p), cap as nat));
            }
            proof {
                next = len + 1;
            }
            if len == upper {
                done = true;
            } else {
                len = len + 1;
            }
        }
    }

    /// Offers `value` to the node at `prefix`, taken as it is written, and to
    /// no other node.
    pub fn insert_prefix(&mut self, prefix: &str, value: SuggestedItem)
        requires
            old(self).wf(),
        ensures
            final(self).wf(),
            final(self).added_at(old(self), prefix@, value@),
    {
        let chars = chars_of(prefix);
        let cap = self.max_candidates;
        let n = chars.len();
        let ghost prev = self.root;
        insert_path(&mut self.root, &chars, 0, n, value, cap);
        assert(chars@.subrange(0, n as int) =~= prefix@);
        assert forall|p: Seq<char>| #[trigger]
            bounded_distinct(self.root.lookup(p), self.max_candidates as nat) by {
            assert(bounded_distinct(prev.lookup(p), cap as nat));
        }
    }

    /// The candidates stored under the case-folded `prefix`, oldest first.
    pub fn search(&self, prefix: &str) -> (r: Vec<SuggestedItem>)
        requires
            self.wf(),
        ensures
            item_views(r@) == self.candidates(lowercase(prefix@)),
            bounded_distinct(item_views(r@), self.cap()),
    {
        let folded = to_lowercase(prefix);
        self.search_folded(folded.as_str())
    }

    /// The candidates stored under `prefix` as it is written: a copy of the
    /// list at the node that `prefix` leads to, empty where a step is missing.
    pub fn search_folded(&self, prefix: &str) -> (r: Vec<SuggestedItem>)
        requires
            self.wf(),
        ensures
            item_views(r@) == self.candidates(prefix@),
            bounded_distinct(item_views(r@), self.cap()),
    {
        let chars = chars_of(prefix);
        let mut current: &PrefixTrieNode = &self.root;
        let mut i: usize = 0;
        assert(chars@.subrange(0, chars.len() as int) =~= chars@);
        while i < chars.len()
            invariant
                i <= chars.len(),
                chars@ == prefix@,
                self.wf(),
                self.root.lookup(chars@) == current.lookup(
                    chars@.subrange(i as int, chars.len() as int),
                ),
            decreases chars.len() - i,
        {
            let ghost rest = chars@.subrange(i as int, chars.len() as int);
            let c: char = chars[i];
            let code: u32 = c as u32;
            assert(rest[0] == c);
            assert(rest.drop_first() =~= chars@.subrange(i as int + 1, chars.len() as int));
            match current.children.get(&code) {
                Some(child) => {
                    assert(current.lookup(rest) == child.lookup(rest.drop_first()));
                    current = child;
                },
                None => {
                    assert(current.lookup(rest) == Seq::<SuggestedItemView>::empty());
                    let none: Vec<SuggestedItem> = Vec::new();
                    assert(item_views(none@) =~= Seq::empty());
                    assert(bounded_distinct(self.root.lookup(chars@), self.max_candidates as nat));
                    return none;
                },
            }
            i = i + 1;
        }
        assert(chars@.subrange(i as int, chars.len() as int) =~= Seq::empty());
        let mut out: Vec<SuggestedItem> = Vec::new();
        let mut j: usize = 0;
        while j < current.values.len()
            invariant
                j <= current.values.len(),
                out@.len() == j,
                forall|k: int| 0 <= k < j ==> (#[trigger] out@[k])@ == current.values@[k]@,
            decreases current.values.len() - j,
        {
            out.push(current.values[j].clone());
            j = j + 1;
        }
        assert(item_views(out@) =~= item_views(current.values@));
        assert(bounded_distinct(self.root.lookup(chars@), self.max_candidates as nat));
        out
    }
}

/// Filing keeps what was there: an item found under `p` before another is
/// filed under any key is still found under `p` afterwards.
pub proof fn lemma_filing_keeps_candidates(
    before: PrefixTrie,
    after: PrefixTrie,
    key: Seq<char>,
    name_len: nat,
    item: SuggestedItemView,
    p: Seq<char>,
    found: SuggestedItemView,
)
    requires
        after.filed(&before, key, name_len, item),
        before.candidates(p).contains(found),
    ensures
        after.candidates(p).contains(found),
{
    let list = before.candidates(p);
    let i = choose|i: int| 0 <= i < list.len() && list[i] == found;
    assert(after.candidates(p) == list || after.candidates(p) == list.push(item));
    if after.candidates(p) == list.push(item) {
        assert(list.push(item)[i] == found);
    }
}

/// Prefix correctness: once `item` is filed under the folded form `key` of a
/// name of `name_len` code points, every prefix `p` of `key` whose length
/// lies within the limits and within the name's length leads to a list that
/// holds `item`, unless that list was already full.
pub proof fn lemma_filed_item_is_found(
    before: PrefixTrie,
    after: PrefixTrie,
    key: Seq<char>,
    name_len: nat,
    item: SuggestedItemView,
    p: Seq<char>,
)
    requires
        after.filed(&before, key, name_len, item),
        before.min_len() <= p.len() <= before.max_len(),
        p.len() <= name_len,
        p.len() <= key.len(),
        p == key.subrange(0, p.len() as int),
    ensures
        after.candidates(p).contains(item) || before.candidates(p).len() >= before.cap(),
        before.candidates(p).len() >= before.cap() ==> after.candidates(p) == before.candidates(p),
{
    assert(p.is_prefix_of(key));
    assert(indexed_prefix(before.min_len(), reach(before.max_len(), name_len), key, p));
    let list = before.candidates(p);
    assert(after.candidates(p) == add_candidate(list, item, before.cap()));
    if !list.contains(item) && list.len() < before.cap() {
        assert(list.push(item)[list.len() as int] == item);
    }
}

/// A name shorter than the lower limit is ignored: filing under it changes no
/// list.
pub proof fn lemma_short_name_is_ignored(
    before: PrefixTrie,
    after: PrefixTrie,
    key: Seq<char>,
    name_len: nat,
    item: SuggestedItemView,
)
    requires
        after.filed(&before, key, name_len, item),
        name_len < before.min_len(),
    ensures
        forall|p: Seq<char>| #[trigger] after.candidates(p) == before.candidates(p),
{
    assert forall|p: Seq<char>| #[trigger] after.candidates(p) == before.candidates(p) by {
        assert(!indexed_prefix(before.min_len(), reach(before.max_len(), name_len), key, p));
    }
}

/// Filing is idempotent: filing the same item under the same key a second
/// time changes nothing.
pub proof fn lemma_filing_twice_changes_nothing(
    before: PrefixTrie,
    once: PrefixTrie,
    twice: PrefixTrie,
    key: Seq<char>,
    name_len: nat,
    item: SuggestedItemView,
)
    requires
        once.filed(&before, key, name_len, item),
        twice.filed(&once, key, name_len, item),
    ensures
        forall|p: Seq<char>| #[trigger] twice.candidates(p) == once.candidates(p),
{
    assert forall|p: Seq<char>| #[trigger] twice.candidates(p) == once.candidates(p) by {
        if indexed_prefix(before.min_len(), reach(before.max_len(), name_len), key, p) {
            let list = before.candidates(p);
            assert(once.candidates(p) == add_candidate(list, item, before.cap()));
            if !list.contains(item) && list.len() < before.cap() {
                assert(list.push(item)[list.len() as int] == item);
            }
        }
    }
}

/// The suggestion that stands for an execution: its id in decimal, zero
/// where it has none yet, and its name.
pub open spec fn item_for(execution: Execution) -> SuggestedItemView {
    SuggestedItemView {
        id: decimal(
            match execution.id {
                Some(id) => id as int,
                None => 0,
            },
        ),
        name: execution.name@,
    }
}

/// The candidates under `p` of an index with the given limits into which
/// `executions` were filed one after the other, each under its folded name.
/// The cap is applied in that order: who comes first stays.
pub open spec fn indexed_candidates(
    executions: Seq<Execution>,
    min_len: nat,
    max_len: nat,
    cap: nat,
    p: Seq<char>,
) -> Seq<SuggestedItemView>
    decreases executions.len(),
{
    if executions.len() == 0 {
        Seq::empty()
    } else {
        let earlier = indexed_candidates(executions.drop_last(), min_len, max_len, cap, p);
        let last = executions.last();
        if indexed_prefix(
            min_len,
            reach(max_len, last.name@.len()),
            lowercase(last.name@),
            p,
        ) {
            add_candidate(earlier, item_for(last), cap)
        } else {
            earlier
        }
    }
}

/// The suggestion that stands for an execution.
pub fn suggested_item(execution: &Execution) -> (r: SuggestedItem)
    ensures
        r@ == item_for(*execution),
{
    let id: i64 = match execution.id {
        Some(id) => id,
        None => 0,
    };
    SuggestedItem { id: decimal_text(id), name: execution.name.clone() }
}

impl PrefixTrie {
    /// Files a newly created execution under its name.
    pub fn index_execution(&mut self, execution: &Execution)
        requires
            old(self).wf(),
        ensures
            final(self).wf(),
            final(self).filed(
                old(self),
                lowercase(execution.name@),
                execution.name@.len(),
                item_for(*execution),
            ),
    {
        let item = suggested_item(execution);
        self.insert(execution.name.as_str(), item);
    }

    /// Builds the index from the stored executions, in the order given. The
    /// service hands them over newest first, so that a full list keeps the
    /// most recent names.
    pub fn build_from_executions(
        executions: &Vec<Execution>,
        min_prefix_len: usize,
        max_prefix_len: usize,
        max_candidates: usize,
    ) -> (r: Self)
        ensures
            r.wf(),
            r.min_len() == min_prefix_len,
            r.max_len() == max_prefix_len,
            r.cap() == max_candidates,
            forall|p: Seq<char>| #[trigger]
                r.candidates(p) == indexed_candidates(
                    executions@,
                    min_prefix_len as nat,
                    max_prefix_len as nat,
                    max_candidates as nat,
                    p,
                ),
    {
        let mut trie = PrefixTrie::new(min_prefix_len, max_prefix_len, max_candidates);
        let mut i: usize = 0;
        assert(executions@.subrange(0, 0) =~= Seq::empty());
        while i < executions.len()
            invariant
                i <= executions.len(),
                trie.wf(),
                trie.min_len() == min_prefix_len,
                trie.max_len() == max_prefix_len,
                trie.cap() == max_candidates,
                forall|p: Seq<char>| #[trigger]
                    trie.candidates(p) == indexed_candidates(
                        executions@.subrange(0, i as int),
                        min_prefix_len as nat,
                        max_prefix_len as nat,
                        max_candidates as nat,
                        p,
                    ),
            decreases executions.len() - i,
        {
            let ghost before = trie;
            trie.index_execution(&executions[i]);
            proof {
                let upto = executions@.subrange(0, i as int + 1);
                assert(upto.drop_last() =~= executions@.subrange(0, i as int));
                assert(upto.last() == executions@[i as int]);
                assert forall|p: Seq<char>| #[trigger]
                    trie.candidates(p) == indexed_candidates(
                        upto,
                        min_prefix_len as nat,
                        max_prefix_len as nat,
                        max_candidates as nat,
                        p,
                    ) by {
                    assert(before.candidates(p) == indexed_candidates(
                        executions@.subrange(0, i as int),
                        min_prefix_len as nat,
                        max_prefix_len as nat,
                        max_candidates as nat,
                        p,
                    ));
                }
            }
            i = i + 1;
        }
        assert(executions@.subrange(0, i as int) =~= executions@);
        trie
    }
}

/// Prefix correctness of a built index: each execution that was filed is
/// found under every indexed prefix of its folded name, unless the list
/// under that prefix is full.
pub proof fn lemma_indexed_name_is_found(
    executions: Seq<Execution>,
    min_len: nat,
    max_len: nat,
    cap: nat,
    i: int,
    p: Seq<char>,
)
    requires
        0 <= i < executions.len(),
        indexed_prefix(
            min_len,
            reach(max_len, executions[i].name@.len()),
            lowercase(executions[i].name@),
            p,
        ),
    ensures
        indexed_candidates(executions, min_len, max_len, cap, p).contains(item_for(executions[i]))
            || indexed_candidates(executions, min_len, max_len, cap, p).len() >= cap,
    decreases executions.len(),
{
    let earlier = indexed_candidates(executions.drop_last(), min_len, max_len, cap, p);
    let last = executions.last();
    let all = indexed_candidates(executions, min_len, max_len, cap, p);
    if i == executions.len() - 1 {
        if !earlier.contains(item_for(last)) && earlier.len() < cap {
            assert(earlier.push(item_for(last))[earlier.len() as int] == item_for(last));
        }
    } else {
        assert(executions.drop_last()[i] == executions[i]);
        lemma_indexed_name_is_found(executions.drop_last(), min_len, max_len, cap, i, p);
        if earlier.contains(item_for(executions[i])) {
            let k = choose|k: int| 0 <= k < earlier.len() && earlier[k] == item_for(executions[i]);
            if all != earlier {
                assert(all == earlier.push(item_for(last)));
                assert(all[k] == item_for(executions[i]));
            }
        }
    }
}

/// The suggestions for a query: none where the query is shorter than
/// `min_query_len` or no index is kept; else what the index holds under the
/// folded query, cut to `max_candidates`.
pub open spec fn suggestions_for(
    index: Option<PrefixTrie>,
    query: Seq<char>,
    min_query_len: nat,
    max_candidates: nat,
) -> Seq<SuggestedItemView> {
    match index {
        Some(trie) => if query.len() < min_query_len {
            Seq::empty()
        } else {
            let found = trie.candidates(lowercase(query));
            if found.len() > max_candidates {
                found.subrange(0, max_candidates as int)
            } else {
                found
            }
        },
        None => Seq::empty(),
    }
}

/// Answers a suggestion request. An absent query counts as the empty one.
pub fn suggest(
    index: Option<&PrefixTrie>,
    query: Option<String>,
    min_query_len: usize,
    max_candidates: usize,
) -> (r: SuggestResponse)
    requires
        index matches Some(trie) ==> trie.wf(),
    ensures
        r.query@ == match query {
            Some(q) => q@,
            None => Seq::<char>::empty(),
        },
        r.limit == max_candidates,
        item_views(r.suggestions@) == suggestions_for(
            match index {
                Some(trie) => Some(*trie),
                None => None,
            },
            r.query@,
            min_query_len as nat,
            max_candidates as nat,
        ),
{
    let query: String = match query {
        Some(q) => q,
        None => String::new(),
    };
    let mut suggestions: Vec<SuggestedItem> = Vec::new();
    assert(item_views(suggestions@) =~= Seq::empty());
    match index {
        Some(trie) => {
            if query.as_str().unicode_len() >= min_query_len {
                let mut found = trie.search(query.as_str());
                if found.len() > max_candidates {
                    let ghost all = found@;
                    found.truncate(max_candidates);
                    assert(item_views(found@) =~= item_views(all).subrange(
                        0,
                        max_candidates as int,
                    ));
                }
                suggestions = found;
            }
        },
        None => {},
    }
    SuggestResponse { query, suggestions, limit: max_candidates }
}

} // verus!
