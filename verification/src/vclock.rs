//! Vector clocks: for each client the counter of its latest write that a
//! record has seen. A clock is a finite map from client id to a positive
//! counter; a client that is absent counts as zero.

use crate::error::ErrorKind;
use crate::json::{
    json_quote, json_quoted, members_view, parse_json, JsonNumber, JsonNumberView, JsonValue,
    JsonView,
};
use crate::text::{
    decimal, lemma_lex_lt_irreflexive, lemma_lex_lt_transitive, lex_lt, push_char, push_decimal,
    str_eq, str_lt,
};
use vstd::prelude::*;
use vstd::string::StringExecFns;

verus! {

/// How two clocks relate.
#[derive(Debug, Clone, Copy, PartialEq, Eq, Structural)]
pub enum VClockOrdering {
    Equal,
    Less,
    Greater,
    Concurrent,
}

/// The counter that `m` holds for `id`: zero where it holds none.
pub open spec fn counter_in(m: Map<Seq<char>, nat>, id: Seq<char>) -> nat {
    if m.dom().contains(id) {
        m[id]
    } else {
        0
    }
}

/// `a` has seen no more than `b`, client by client.
pub open spec fn clock_le(a: Map<Seq<char>, nat>, b: Map<Seq<char>, nat>) -> bool {
    forall|id: Seq<char>| #[trigger] counter_in(a, id) <= counter_in(b, id)
}

/// The component-wise comparison of two clocks.
pub open spec fn clock_compare(a: Map<Seq<char>, nat>, b: Map<Seq<char>, nat>) -> VClockOrdering {
    if clock_le(a, b) && clock_le(b, a) {
        VClockOrdering::Equal
    } else if clock_le(a, b) {
        VClockOrdering::Less
    } else if clock_le(b, a) {
        VClockOrdering::Greater
    } else {
        VClockOrdering::Concurrent
    }
}

/// The clock with the single entry `id -> counter`; the empty clock where the
/// counter is zero.
pub open spec fn clock_single(id: Seq<char>, counter: nat) -> Map<Seq<char>, nat> {
    if counter == 0 {
        Map::empty()
    } else {
        Map::empty().insert(id, counter)
    }
}

/// The ids of `p` rise strictly, so none occurs twice.
pub open spec fn sorted(p: Seq<(Seq<char>, nat)>) -> bool {
    forall|i: int, j: int| 0 <= i < j < p.len() ==> lex_lt(#[trigger] p[i].0, #[trigger] p[j].0)
}

/// Some entry of `p` is for `id`.
pub open spec fn has_id(p: Seq<(Seq<char>, nat)>, id: Seq<char>) -> bool {
    exists|i: int| 0 <= i < p.len() && (#[trigger] p[i]).0 == id
}

/// The place of the entry for `id` in `p`.
pub open spec fn index_of(p: Seq<(Seq<char>, nat)>, id: Seq<char>) -> int {
    choose|i: int| 0 <= i < p.len() && (#[trigger] p[i]).0 == id
}

/// The map that a list of entries stands for.
pub open spec fn pairs_map(p: Seq<(Seq<char>, nat)>) -> Map<Seq<char>, nat> {
    Map::new(|id: Seq<char>| has_id(p, id), |id: Seq<char>| p[index_of(p, id)].1)
}

/// In a sorted list each entry is where the map finds its id.
pub proof fn lemma_pairs_map_at(p: Seq<(Seq<char>, nat)>, i: int)
    requires
        sorted(p),
        0 <= i < p.len(),
    ensures
        has_id(p, p[i].0),
        index_of(p, p[i].0) == i,
        pairs_map(p).dom().contains(p[i].0),
        pairs_map(p)[p[i].0] == p[i].1,
{
    let j = index_of(p, p[i].0);
    assert(p[i].0 == p[i].0);
    lemma_lex_lt_irreflexive(p[i].0);
    if j < i {
        assert(lex_lt(p[j].0, p[i].0));
    } else if i < j {
        assert(lex_lt(p[i].0, p[j].0));
    }
}

/// Putting a new id at its place in a sorted list keeps it sorted and adds
/// the entry to the map.
pub proof fn lemma_pairs_insert(p: Seq<(Seq<char>, nat)>, k: int, id: Seq<char>, c: nat)
    requires
        sorted(p),
        0 <= k <= p.len(),
        forall|i: int| 0 <= i < k ==> lex_lt((#[trigger] p[i]).0, id),
        forall|i: int| k <= i < p.len() ==> lex_lt(id, (#[trigger] p[i]).0),
    ensures
        sorted(p.insert(k, (id, c))),
        pairs_map(p.insert(k, (id, c))) == pairs_map(p).insert(id, c),
{
    let q = p.insert(k, (id, c));
    assert forall|i: int, j: int| 0 <= i < j < q.len() implies lex_lt(
        #[trigger] q[i].0,
        #[trigger] q[j].0,
    ) by {
        let pi = if i < k { i } else { i - 1 };
        let pj = if j < k { j } else { j - 1 };
        if i == k {
            assert(q[j] == p[pj]);
        } else if j == k {
            assert(q[i] == p[pi]);
        } else {
            assert(q[i] == p[pi]);
            assert(q[j] == p[pj]);
            assert(lex_lt(p[pi].0, p[pj].0));
        }
    }
    assert forall|x: Seq<char>| #[trigger] pairs_map(q).dom().contains(x) <==> pairs_map(p).insert(id, c).dom().contains(x) by {
        if has_id(q, x) {
            let i = index_of(q, x);
            if i != k {
                let pi = if i < k { i } else { i - 1 };
                assert(q[i] == p[pi]);
            }
        }
        if has_id(p, x) {
            let i = index_of(p, x);
            let qi = if i < k { i } else { i + 1 };
            assert(q[qi] == p[i]);
        }
        if x == id {
            assert(q[k].0 == x);
        }
    }
    assert forall|x: Seq<char>| #[trigger] pairs_map(q).dom().contains(x) implies pairs_map(q)[x] == pairs_map(p).insert(id, c)[x] by {
        let i = index_of(q, x);
        lemma_pairs_map_at(q, i);
        if i != k {
            let pi = if i < k { i } else { i - 1 };
            assert(q[i] == p[pi]);
            lemma_pairs_map_at(p, pi);
            lemma_lex_lt_irreflexive(id);
        }
    }
    assert(pairs_map(q) =~= pairs_map(p).insert(id, c));
}

/// Giving the entry at `k` a new counter keeps a sorted list sorted and
/// overwrites the entry in the map.
pub proof fn lemma_pairs_update(p: Seq<(Seq<char>, nat)>, k: int, c: nat)
    requires
        sorted(p),
        0 <= k < p.len(),
    ensures
        sorted(p.update(k, (p[k].0, c))),
        pairs_map(p.update(k, (p[k].0, c))) == pairs_map(p).insert(p[k].0, c),
{
    let id = p[k].0;
    let q = p.update(k, (id, c));
    assert forall|i: int, j: int| 0 <= i < j < q.len() implies lex_lt(
        #[trigger] q[i].0,
        #[trigger] q[j].0,
    ) by {
        assert(q[i].0 == p[i].0);
        assert(q[j].0 == p[j].0);
    }
    assert forall|x: Seq<char>| #[trigger] pairs_map(q).dom().contains(x) <==> pairs_map(p).insert(id, c).dom().contains(x) by {
        if has_id(q, x) {
            let i = index_of(q, x);
            assert(p[i].0 == x);
        }
        if has_id(p, x) {
            let i = index_of(p, x);
            assert(q[i].0 == x);
        }
        if x == id {
            assert(q[k].0 == x);
        }
    }
    assert forall|x: Seq<char>| #[trigger] pairs_map(q).dom().contains(x) implies pairs_map(q)[x] == pairs_map(p).insert(id, c)[x] by {
        let i = index_of(q, x);
        lemma_pairs_map_at(q, i);
        lemma_pairs_map_at(p, i);
        lemma_pairs_map_at(p, k);
    }
    assert(pairs_map(q) =~= pairs_map(p).insert(id, c));
}

/// The ids and counters of a list of entries.
pub open spec fn pairs_of(entries: Seq<VClockEntry>) -> Seq<(Seq<char>, nat)> {
    Seq::new(entries.len(), |i: int| (entries[i].id@, entries[i].counter as nat))
}

/// The counters of `p` are positive and fit in 64 bits.
pub open spec fn positive(p: Seq<(Seq<char>, nat)>) -> bool {
    forall|i: int| 0 <= i < p.len() ==> 0 < (#[trigger] p[i]).1 <= u64::MAX
}

/// One entry of a clock.
#[derive(Debug, Clone)]
pub struct VClockEntry {
    pub id: String,
    pub counter: u64,
}

/// A vector clock. Its entries are kept sorted by client id, each with a
/// positive counter, so that equal clocks are stored alike.
#[derive(Debug)]
pub struct VClock {
    entries: Vec<VClockEntry>,
}

impl View for VClock {
    type V = Map<Seq<char>, nat>;

    closed spec fn view(&self) -> Map<Seq<char>, nat> {
        pairs_map(self.pairs())
    }
}

impl VClock {
    /// The entries in stored order, as ids and counters.
    pub closed spec fn pairs(&self) -> Seq<(Seq<char>, nat)> {
        pairs_of(self.entries@)
    }

    /// What holds of every clock: sorted ids and positive counters that fit
    /// in 64 bits.
    #[verifier::type_invariant]
    pub closed spec fn wf(&self) -> bool {
        &&& sorted(self.pairs())
        &&& positive(self.pairs())
    }

    /// The view is the map of the entries, and a well-formed clock holds no
    /// zero.
    pub proof fn lemma_view(&self)
        requires
            self.wf(),
        ensures
            self@ == pairs_map(self.pairs()),
            sorted(self.pairs()),
            forall|id: Seq<char>| self@.dom().contains(id) ==> 0 < #[trigger] self@[id] <= u64::MAX,
    {
        assert forall|id: Seq<char>| self@.dom().contains(id) implies 0 < #[trigger] self@[id] <= u64::MAX by {
            let i = index_of(self.pairs(), id);
            assert(0 < self.pairs()[i].1);
            assert(self.pairs()[i].1 <= u64::MAX);
        }
    }

    /// The clock without entries.
    pub fn new_empty() -> (r: VClock)
        ensures
            r@ == Map::<Seq<char>, nat>::empty(),
            r.wf(),
    {
        let r = VClock { entries: Vec::new() };
        assert(r@ =~= Map::<Seq<char>, nat>::empty());
        r
    }

    /// The clock with one entry; a zero counter gives the empty clock.
    pub fn new(id: String, counter: u64) -> (r: VClock)
        ensures
            r@ == clock_single(id@, counter as nat),
            r.wf(),
    {
        let mut entries: Vec<VClockEntry> = Vec::new();
        if counter > 0 {
            let ghost key = id@;
            entries.push(VClockEntry { id, counter });
            proof {
                let p = Seq::<(Seq<char>, nat)>::empty();
                lemma_pairs_insert(p, 0, key, counter as nat);
                assert(pairs_of(entries@) =~= p.insert(0, (key, counter as nat)));
                assert(pairs_map(p) =~= Map::<Seq<char>, nat>::empty());
            }
            VClock { entries }
        } else {
            let r = VClock { entries };
            assert(r@ =~= Map::<Seq<char>, nat>::empty());
            r
        }
    }

    /// How many clients the clock names.
    pub fn len(&self) -> (n: usize)
        ensures
            n == self.pairs().len(),
    {
        self.entries.len()
    }

    /// The entry at place `i` of the stored order.
    pub fn entry(&self, i: usize) -> (e: &VClockEntry)
        requires
            i < self.pairs().len(),
        ensures
            (e.id@, e.counter as nat) == self.pairs()[i as int],
    {
        &self.entries[i]
    }

    /// The counter for `id`, zero where the clock has none.
    pub fn get(&self, id: &str) -> (r: u64)
        ensures
            r == counter_in(self@, id@),
    {
        proof {
            use_type_invariant(self);
        }
        let mut i: usize = 0;
        while i < self.entries.len()
            invariant
                0 <= i <= self.entries.len(),
                self.wf(),
                forall|k: int| 0 <= k < i ==> (#[trigger] self.pairs()[k]).0 != id@,
            decreases self.entries.len() - i,
        {
            if str_eq(self.entries[i].id.as_str(), id) {
                proof {
                    lemma_pairs_map_at(self.pairs(), i as int);
                }
                return self.entries[i].counter;
            }
            i += 1;
        }
        assert(!has_id(self.pairs(), id@));
        0
    }

    /// Sets the entry for `id` to `counter`, which must be above what the
    /// clock holds for `id`; without that nothing is applied.
    pub fn apply(self, id: String, counter: u64) -> (r: Result<VClock, ErrorKind>)
        ensures
            counter > counter_in(self@, id@) ==> (r matches Ok(v) && v@ == self@.insert(
                id@,
                counter as nat,
            ) && v.wf()),
            counter <= counter_in(self@, id@) ==> (r matches Err(e) && e@
                == crate::error::ErrorView::CausalityViolation),
    {
        proof {
            use_type_invariant(&self);
        }
        let ghost p = self.pairs();
        let ghost key = id@;
        let mut entries = self.entries;
        let mut k: usize = 0;
        while k < entries.len() && str_lt(entries[k].id.as_str(), id.as_str())
            invariant
                0 <= k <= entries.len(),
                p == pairs_of(entries@),
                forall|i: int| 0 <= i < k ==> lex_lt((#[trigger] p[i]).0, key),
                key == id@,
            decreases entries.len() - k,
        {
            k += 1;
        }
        proof {
            assert forall|i: int| 0 <= i < k implies (#[trigger] p[i]).0 != key by {
                lemma_lex_lt_irreflexive(key);
            }
        }
        if k < entries.len() && str_eq(entries[k].id.as_str(), id.as_str()) {
            proof {
                lemma_pairs_map_at(p, k as int);
            }
            if counter <= entries[k].counter {
                return Err(ErrorKind::CausalityViolation);
            }
            entries.set(k, VClockEntry { id, counter });
            proof {
                lemma_pairs_update(p, k as int, counter as nat);
                assert(pairs_of(entries@) =~= p.update(k as int, (key, counter as nat)));
            }
            Ok(VClock { entries })
        } else {
            proof {
                assert forall|i: int| k <= i < p.len() implies lex_lt(key, (#[trigger] p[i]).0) by {
                    assert(!lex_lt(p[k as int].0, key));
                    crate::text::lemma_lex_lt_total(p[k as int].0, key);
                    if i > k {
                        assert(lex_lt(p[k as int].0, p[i].0));
                        lemma_lex_lt_transitive(key, p[k as int].0, p[i].0);
                    }
                }
                assert forall|i: int| 0 <= i < p.len() implies (#[trigger] p[i]).0 != key by {
                    lemma_lex_lt_irreflexive(key);
                }
                assert(!has_id(p, key));
            }
            if counter == 0 {
                return Err(ErrorKind::CausalityViolation);
            }
            entries.insert(k, VClockEntry { id, counter });
            proof {
                lemma_pairs_insert(p, k as int, key, counter as nat);
                assert(pairs_of(entries@) =~= p.insert(k as int, (key, counter as nat)));
            }
            Ok(VClock { entries })
        }
    }

    /// Whether `self` has seen no more than `other`, client by client.
    pub fn le(&self, other: &VClock) -> (r: bool)
        ensures
            r == clock_le(self@, other@),
    {
        proof {
            use_type_invariant(self);
        }
        let mut i: usize = 0;
        while i < self.entries.len()
            invariant
                0 <= i <= self.entries.len(),
                self.wf(),
                forall|k: int| 0 <= k < i ==> (#[trigger] self.pairs()[k]).1 <= counter_in(other@, self.pairs()[k].0),
            decreases self.entries.len() - i,
        {
            let theirs = other.get(self.entries[i].id.as_str());
            if self.entries[i].counter > theirs {
                proof {
                    lemma_pairs_map_at(self.pairs(), i as int);
                    let id = self.pairs()[i as int].0;
                    assert(counter_in(self@, id) > counter_in(other@, id));
                }
                return false;
            }
            i += 1;
        }
        proof {
            assert forall|id: Seq<char>| #[trigger] counter_in(self@, id) <= counter_in(other@, id) by {
                if self@.dom().contains(id) {
                    let k = index_of(self.pairs(), id);
                    lemma_pairs_map_at(self.pairs(), k);
                    assert(self.pairs()[k].1 <= counter_in(other@, self.pairs()[k].0));
                }
            }
        }
        true
    }

    /// Compares two clocks component by component.
    pub fn compare(&self, other: &VClock) -> (r: VClockOrdering)
        ensures
            r == clock_compare(self@, other@),
    {
        let below = self.le(other);
        let above = other.le(self);
        if below && above {
            VClockOrdering::Equal
        } else if below {
            VClockOrdering::Less
        } else if above {
            VClockOrdering::Greater
        } else {
            VClockOrdering::Concurrent
        }
    }
}

impl Clone for VClock {
    fn clone(&self) -> (r: VClock)
        ensures
            r@ == self@,
            r.pairs() == self.pairs(),
            r.wf(),
    {
        proof {
            use_type_invariant(self);
        }
        let mut entries: Vec<VClockEntry> = Vec::new();
        let mut i: usize = 0;
        while i < self.entries.len()
            invariant
                0 <= i <= self.entries.len(),
                entries@.len() == i,
                forall|k: int|
                    0 <= k < i ==> (#[trigger] entries@[k]).id@ == self.entries@[k].id@ && entries@[k].counter
                        == self.entries@[k].counter,
            decreases self.entries.len() - i,
        {
            entries.push(VClockEntry { id: self.entries[i].id.clone(), counter: self.entries[i].counter });
            i += 1;
        }
        assert(pairs_of(entries@) =~= self.pairs());
        VClock { entries }
    }
}

/// A write that raises one client's counter moves the clock strictly
/// forward: the clock before is less than the clock after.
pub proof fn lemma_apply_advances(m: Map<Seq<char>, nat>, id: Seq<char>, counter: nat)
    requires
        counter > counter_in(m, id),
    ensures
        clock_compare(m, m.insert(id, counter)) == VClockOrdering::Less,
        clock_compare(m.insert(id, counter), m) == VClockOrdering::Greater,
{
    let n = m.insert(id, counter);
    assert forall|x: Seq<char>| #[trigger] counter_in(m, x) <= counter_in(n, x) by {}
    assert(counter_in(n, id) > counter_in(m, id));
    assert(!clock_le(n, m));
}

/// Every clock compares equal to itself.
pub proof fn lemma_compare_reflexive(m: Map<Seq<char>, nat>)
    ensures
        clock_compare(m, m) == VClockOrdering::Equal,
{
}

/// Swapping the arguments swaps less and greater, and keeps equal and
/// concurrent.
pub proof fn lemma_compare_mirror(a: Map<Seq<char>, nat>, b: Map<Seq<char>, nat>)
    ensures
        clock_compare(a, b) == VClockOrdering::Less <==> clock_compare(b, a) == VClockOrdering::Greater,
        clock_compare(a, b) == VClockOrdering::Equal <==> clock_compare(b, a) == VClockOrdering::Equal,
        clock_compare(a, b) == VClockOrdering::Concurrent <==> clock_compare(b, a)
            == VClockOrdering::Concurrent,
{
}

/// Less is transitive: a chain of writes stays ordered.
pub proof fn lemma_less_transitive(
    a: Map<Seq<char>, nat>,
    b: Map<Seq<char>, nat>,
    c: Map<Seq<char>, nat>,
)
    requires
        clock_compare(a, b) == VClockOrdering::Less,
        clock_compare(b, c) == VClockOrdering::Less,
    ensures
        clock_compare(a, c) == VClockOrdering::Less,
{
    assert forall|x: Seq<char>| #[trigger] counter_in(a, x) <= counter_in(c, x) by {
        assert(counter_in(a, x) <= counter_in(b, x));
        assert(counter_in(b, x) <= counter_in(c, x));
    }
    if clock_le(c, a) {
        assert forall|x: Seq<char>| #[trigger] counter_in(b, x) <= counter_in(a, x) by {
            assert(counter_in(b, x) <= counter_in(c, x));
            assert(counter_in(c, x) <= counter_in(a, x));
        }
    }
}

/// Two clocks without zero entries that compare equal are the same map.
pub proof fn lemma_equal_clocks_same_map(a: Map<Seq<char>, nat>, b: Map<Seq<char>, nat>)
    requires
        forall|id: Seq<char>| a.dom().contains(id) ==> #[trigger] a[id] > 0,
        forall|id: Seq<char>| b.dom().contains(id) ==> #[trigger] b[id] > 0,
        clock_compare(a, b) == VClockOrdering::Equal,
    ensures
        a == b,
{
    assert forall|id: Seq<char>| a.dom().contains(id) <==> b.dom().contains(id) by {
        assert(counter_in(a, id) <= counter_in(b, id));
        assert(counter_in(b, id) <= counter_in(a, id));
        if a.dom().contains(id) {
            assert(a[id] > 0);
        }
        if b.dom().contains(id) {
            assert(b[id] > 0);
        }
    }
    assert forall|id: Seq<char>| a.dom().contains(id) implies a[id] == b[id] by {
        assert(counter_in(a, id) <= counter_in(b, id));
        assert(counter_in(b, id) <= counter_in(a, id));
    }
    assert(a =~= b);
}

/// The entries of a clock's text: each id quoted, a colon, the counter in
/// decimal; commas between the entries.
pub open spec fn entries_text(p: Seq<(Seq<char>, nat)>) -> Seq<char>
    decreases p.len(),
{
    if p.len() == 0 {
        Seq::empty()
    } else {
        entries_text(p.drop_last()) + (if p.len() > 1 {
            seq![',']
        } else {
            Seq::empty()
        }) + json_quoted(p.last().0) + seq![':'] + decimal(p.last().1)
    }
}

/// The text of a clock: a JSON object of its entries in stored order.
pub open spec fn clock_text(p: Seq<(Seq<char>, nat)>) -> Seq<char> {
    seq!['{'] + entries_text(p) + seq!['}']
}

/// The clock that a list of entries makes, entry by entry: an entry with a
/// zero counter adds nothing, and an id that comes twice makes no clock.
pub open spec fn entries_clock(es: Seq<(Seq<char>, nat)>) -> Option<Map<Seq<char>, nat>>
    decreases es.len(),
{
    if es.len() == 0 {
        Some(Map::empty())
    } else {
        match entries_clock(es.drop_last()) {
            None => None,
            Some(m) => if es.last().1 == 0 {
                Some(m)
            } else if m.dom().contains(es.last().0) {
                None
            } else {
                Some(m.insert(es.last().0, es.last().1))
            },
        }
    }
}

/// The entry that a member of a JSON object stands for: its name with a
/// counter, which must be a non-negative integer.
pub open spec fn member_entry(m: (Seq<char>, JsonView)) -> Option<(Seq<char>, nat)> {
    match m.1 {
        JsonView::Number(JsonNumberView::PosInt(n)) => Some((m.0, n as nat)),
        _ => None,
    }
}

/// The entries that the members of a JSON object stand for, if each
/// stands for one.
pub open spec fn members_entries(ms: Seq<(Seq<char>, JsonView)>) -> Option<Seq<(Seq<char>, nat)>>
    decreases ms.len(),
{
    if ms.len() == 0 {
        Some(Seq::empty())
    } else {
        match (members_entries(ms.drop_last()), member_entry(ms.last())) {
            (Some(head), Some(e)) => Some(head.push(e)),
            _ => None,
        }
    }
}

/// The clock that a tree stands for: an object whose members are counters
/// under distinct ids.
pub open spec fn clock_of_tree(v: JsonView) -> Option<Map<Seq<char>, nat>> {
    match v {
        JsonView::Object(ms) => match members_entries(ms) {
            Some(es) => entries_clock(es),
            None => None,
        },
        _ => None,
    }
}

/// A sorted list without its last entry is sorted, and stands for the map
/// without that entry's id.
pub proof fn lemma_pairs_drop_last(p: Seq<(Seq<char>, nat)>)
    requires
        sorted(p),
        p.len() > 0,
    ensures
        sorted(p.drop_last()),
        pairs_map(p.drop_last()) == pairs_map(p).remove(p.last().0),
{
    let q = p.drop_last();
    let last = p.last().0;
    assert forall|i: int, j: int| 0 <= i < j < q.len() implies lex_lt(#[trigger] q[i].0, #[trigger] q[j].0) by {
        assert(q[i] == p[i] && q[j] == p[j]);
    }
    assert forall|x: Seq<char>| #[trigger] pairs_map(q).dom().contains(x) <==> pairs_map(p).remove(last).dom().contains(
        x,
    ) by {
        if has_id(q, x) {
            let i = index_of(q, x);
            assert(p[i].0 == x);
            assert(lex_lt(p[i].0, p[p.len() - 1].0));
            lemma_lex_lt_irreflexive(x);
        }
        if has_id(p, x) && x != last {
            let i = index_of(p, x);
            assert(q[i].0 == x);
        }
    }
    assert forall|x: Seq<char>| #[trigger] pairs_map(q).dom().contains(x) implies pairs_map(q)[x] == pairs_map(p).remove(
        last,
    )[x] by {
        let i = index_of(q, x);
        lemma_pairs_map_at(q, i);
        assert(q[i] == p[i]);
        lemma_pairs_map_at(p, i);
    }
    assert(pairs_map(q) =~= pairs_map(p).remove(last));
}

/// Two sorted lists that stand for the same map are the same list.
pub proof fn lemma_sorted_pairs_unique(p: Seq<(Seq<char>, nat)>, q: Seq<(Seq<char>, nat)>)
    requires
        sorted(p),
        sorted(q),
        pairs_map(p) == pairs_map(q),
    ensures
        p == q,
    decreases p.len(),
{
    if p.len() == 0 {
        if q.len() > 0 {
            lemma_pairs_map_at(q, 0);
            assert(has_id(p, q[0].0));
        }
        assert(p =~= q);
    } else if q.len() == 0 {
        lemma_pairs_map_at(p, 0);
        assert(has_id(q, p[0].0));
    } else {
        let a = p.len() - 1;
        let b = q.len() - 1;
        lemma_pairs_map_at(p, a);
        lemma_pairs_map_at(q, b);
        // the last id of each list occurs in the other
        let j = index_of(q, p[a].0);
        let i = index_of(p, q[b].0);
        assert(q[j].0 == p[a].0 && p[i].0 == q[b].0);
        if p[a].0 != q[b].0 {
            assert(j < b && i < a);
            assert(lex_lt(q[j].0, q[b].0));
            assert(lex_lt(p[i].0, p[a].0));
            lemma_lex_lt_transitive(p[a].0, q[b].0, p[a].0);
            lemma_lex_lt_irreflexive(p[a].0);
        }
        lemma_pairs_drop_last(p);
        lemma_pairs_drop_last(q);
        lemma_sorted_pairs_unique(p.drop_last(), q.drop_last());
        assert(p =~= p.drop_last().push(p.last()));
        assert(q =~= q.drop_last().push(q.last()));
    }
}

impl VClock {
    /// The text of the clock: a JSON object with the ids in rising order,
    /// so that equal clocks give the same text.
    pub fn to_text(&self) -> (text: String)
        ensures
            text@ == clock_text(self.pairs()),
    {
        let ghost p = self.pairs();
        let mut out = String::new();
        push_char(&mut out, '{');
        let mut i: usize = 0;
        assert(p.take(0) =~= Seq::<(Seq<char>, nat)>::empty());
        assert(out@ =~= seq!['{'] + entries_text(p.take(0)));
        while i < self.entries.len()
            invariant
                0 <= i <= self.entries.len(),
                p == self.pairs(),
                out@ == seq!['{'] + entries_text(p.take(i as int)),
            decreases self.entries.len() - i,
        {
            let ghost before = out@;
            proof {
                assert(p.take(i as int + 1).drop_last() =~= p.take(i as int));
                assert(p.take(i as int + 1).last() == p[i as int]);
            }
            if i > 0 {
                push_char(&mut out, ',');
            }
            out.append(json_quote(self.entries[i].id.as_str()).as_str());
            push_char(&mut out, ':');
            push_decimal(&mut out, self.entries[i].counter);
            assert(out@ =~= seq!['{'] + entries_text(p.take(i as int + 1)));
            i += 1;
        }
        assert(p.take(i as int) =~= p);
        push_char(&mut out, '}');
        out
    }

    /// The clock that a list of entries makes. An entry with a zero
    /// counter is passed over; an id that comes twice makes no clock.
    pub fn from_entries(entries: Vec<VClockEntry>) -> (r: Option<VClock>)
        ensures
            r is Some <==> entries_clock(pairs_of(entries@)) is Some,
            r matches Some(v) ==> entries_clock(pairs_of(entries@)) == Some(v@) && v.wf(),
    {
        let ghost es = pairs_of(entries@);
        let mut clock = VClock::new_empty();
        let mut i: usize = 0;
        assert(es.take(0) =~= Seq::<(Seq<char>, nat)>::empty());
        while i < entries.len()
            invariant
                0 <= i <= entries.len(),
                es == pairs_of(entries@),
                entries_clock(es.take(i as int)) == Some(clock@),
                clock.wf(),
            decreases entries.len() - i,
        {
            proof {
                assert(es.take(i as int + 1).drop_last() =~= es.take(i as int));
                assert(es.take(i as int + 1).last() == es[i as int]);
                clock.lemma_view();
            }
            let e = &entries[i];
            if e.counter > 0 {
                if clock.get(e.id.as_str()) > 0 {
                    proof {
                        lemma_entries_clock_prefix_none(es, i as int + 1);
                    }
                    return None;
                }
                clock = match clock.apply(e.id.clone(), e.counter) {
                    Ok(v) => v,
                    Err(_) => {
                        return None;
                    },
                };
            }
            i += 1;
        }
        assert(es.take(i as int) =~= es);
        Some(clock)
    }

    /// The clock that a tree stands for.
    pub fn from_value(v: &JsonValue) -> (r: Option<VClock>)
        ensures
            r is Some <==> clock_of_tree(v@) is Some,
            r matches Some(c) ==> clock_of_tree(v@) == Some(c@) && c.wf(),
    {
        proof {
            crate::json::lemma_value_view(*v);
        }
        match v {
            JsonValue::Object(ms) => {
                let ghost all = members_view(ms@);
                let mut entries: Vec<VClockEntry> = Vec::new();
                let mut i: usize = 0;
                assert(all.take(0) =~= Seq::<(Seq<char>, JsonView)>::empty());
                assert(pairs_of(entries@) =~= Seq::<(Seq<char>, nat)>::empty());
                while i < ms.len()
                    invariant
                        0 <= i <= ms.len(),
                        all == members_view(ms@),
                        v@ == JsonView::Object(all),
                        members_entries(all.take(i as int)) == Some(pairs_of(entries@)),
                    decreases ms.len() - i,
                {
                    let ghost before = pairs_of(entries@);
                    proof {
                        assert(all.take(i as int + 1).drop_last() =~= all.take(i as int));
                        assert(all.take(i as int + 1).last() == all[i as int]);
                    }
                    match &ms[i].value {
                        JsonValue::Number(JsonNumber::PosInt(n)) => {
                            entries.push(VClockEntry { id: ms[i].name.clone(), counter: *n });
                            assert(pairs_of(entries@) =~= before.push((ms@[i as int].name@, *n as nat)));
                        },
                        _ => {
                            proof {
                                lemma_members_entries_prefix_none(all, i as int + 1);
                            }
                            return None;
                        },
                    }
                    i += 1;
                }
                assert(all.take(i as int) =~= all);
                VClock::from_entries(entries)
            },
            _ => None,
        }
    }

    /// The clock that a JSON text stands for.
    pub fn from_text(text: &str) -> (r: Option<VClock>)
        ensures
            r matches Some(c) ==> crate::json::json_parsed(text@) matches Some(v) && clock_of_tree(v) == Some(c@),
            r is None ==> (crate::json::json_parsed(text@) matches Some(v) ==> clock_of_tree(v) is None),
    {
        match parse_json(text) {
            Some(v) => VClock::from_value(&v),
            None => None,
        }
    }
}

/// Once a prefix of a list of entries makes no clock, the whole list
/// makes none.
proof fn lemma_entries_clock_prefix_none(es: Seq<(Seq<char>, nat)>, n: int)
    requires
        0 <= n <= es.len(),
        entries_clock(es.take(n)) is None,
    ensures
        entries_clock(es) is None,
    decreases es.len() - n,
{
    if n < es.len() {
        assert(es.take(n + 1).drop_last() =~= es.take(n));
        lemma_entries_clock_prefix_none(es, n + 1);
    } else {
        assert(es.take(n) =~= es);
    }
}

/// Once a prefix of a list of members holds one that is no entry, the
/// whole list does.
proof fn lemma_members_entries_prefix_none(ms: Seq<(Seq<char>, JsonView)>, n: int)
    requires
        0 <= n <= ms.len(),
        members_entries(ms.take(n)) is None,
    ensures
        members_entries(ms) is None,
    decreases ms.len() - n,
{
    if n < ms.len() {
        assert(ms.take(n + 1).drop_last() =~= ms.take(n));
        lemma_members_entries_prefix_none(ms, n + 1);
    } else {
        assert(ms.take(n) =~= ms);
    }
}

/// Equal clocks have the same text.
pub proof fn lemma_equal_clocks_same_text(a: VClock, b: VClock)
    requires
        a.wf(),
        b.wf(),
        a@ == b@,
    ensures
        a.pairs() == b.pairs(),
        clock_text(a.pairs()) == clock_text(b.pairs()),
{
    a.lemma_view();
    b.lemma_view();
    lemma_sorted_pairs_unique(a.pairs(), b.pairs());
}

} // verus!
