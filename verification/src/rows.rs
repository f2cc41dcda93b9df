//! Display rows and the order in which they are shown.
//!
//! Rows are shown by the sort key's figure, largest first. Rows with the
//! same figure are shown by ascending pid, a row without a pid first, and
//! rows that agree in that too by ascending command name, byte by byte. So
//! flat rows tie-break by pid and grouped rows by command.

use vstd::prelude::*;
use vstd::seq_lib::*;
use crate::view::SortKey;

verus! {

/// How a flat row's Pss moved since the tick before.
#[derive(Clone, Copy, Debug, PartialEq, Eq, Structural)]
pub enum Delta {
    /// A grouped row: no process stands behind it from tick to tick.
    Undefined,
    /// The process was not there the tick before.
    New,
    /// Pss now less Pss the tick before, in kilobytes.
    Change(i128),
}

/// One line of the display.
#[derive(Debug, PartialEq, Eq)]
pub struct DisplayRow {
    /// The process of a flat row; nothing for a grouped row.
    pub pid: Option<u32>,
    pub command: Vec<u8>,
    /// How many processes the row sums up.
    pub process_count: usize,
    pub pss_kb: u128,
    pub rss_kb: u128,
    pub swap_pss_kb: u128,
    pub private_dirty_kb: u128,
    pub shared_dirty_kb: u128,
    pub delta: Delta,
}

/// The mathematical value of a [`DisplayRow`].
pub ghost struct RowView {
    pub pid: Option<u32>,
    pub command: Seq<u8>,
    pub process_count: usize,
    pub pss_kb: u128,
    pub rss_kb: u128,
    pub swap_pss_kb: u128,
    pub private_dirty_kb: u128,
    pub shared_dirty_kb: u128,
    pub delta: Delta,
}

impl View for DisplayRow {
    type V = RowView;

    open spec fn view(&self) -> RowView {
        RowView {
            pid: self.pid,
            command: self.command@,
            process_count: self.process_count,
            pss_kb: self.pss_kb,
            rss_kb: self.rss_kb,
            swap_pss_kb: self.swap_pss_kb,
            private_dirty_kb: self.private_dirty_kb,
            shared_dirty_kb: self.shared_dirty_kb,
            delta: self.delta,
        }
    }
}

impl Clone for DisplayRow {
    fn clone(&self) -> (copy: Self)
        ensures
            copy@ == self@,
    {
        DisplayRow {
            pid: self.pid,
            command: self.command.clone(),
            process_count: self.process_count,
            pss_kb: self.pss_kb,
            rss_kb: self.rss_kb,
            swap_pss_kb: self.swap_pss_kb,
            private_dirty_kb: self.private_dirty_kb,
            shared_dirty_kb: self.shared_dirty_kb,
            delta: self.delta,
        }
    }
}

/// The views of a list of rows, in order.
pub open spec fn row_views(rows: Seq<DisplayRow>) -> Seq<RowView> {
    Seq::new(rows.len(), |i: int| rows[i]@)
}

impl RowView {
    /// The figure of this row that `key` sorts by.
    pub open spec fn metric(self, key: SortKey) -> u128 {
        match key {
            SortKey::Pss => self.pss_kb,
            SortKey::Rss => self.rss_kb,
            SortKey::Swap => self.swap_pss_kb,
            SortKey::PrivateDirty => self.private_dirty_kb,
        }
    }

    /// The pid as a number, a row without a pid below every pid.
    pub open spec fn pid_rank(self) -> int {
        match self.pid {
            Some(pid) => pid as int,
            None => -1,
        }
    }
}

/// First index at or after `i` at which `a` and `b` differ or one of them ends.
pub open spec fn first_difference(a: Seq<u8>, b: Seq<u8>, i: int) -> int
    decreases a.len() - i,
{
    if 0 <= i < a.len() && i < b.len() && a[i] == b[i] {
        first_difference(a, b, i + 1)
    } else {
        i
    }
}

/// `a` comes before `b` byte by byte; a proper prefix comes first.
pub open spec fn bytes_before(a: Seq<u8>, b: Seq<u8>) -> bool {
    let k = first_difference(a, b, 0);
    k < b.len() && (k == a.len() || a[k] < b[k])
}

/// `a` and `b` have the same pid and command: they stand for the same thing.
pub open spec fn same_place(a: RowView, b: RowView) -> bool {
    a.pid == b.pid && a.command == b.command
}

/// Among rows with the same figure, `a` is shown before `b`.
pub open spec fn tie_before(a: RowView, b: RowView) -> bool {
    a.pid_rank() < b.pid_rank() || (a.pid_rank() == b.pid_rank() && bytes_before(
        a.command,
        b.command,
    ))
}

/// `a` is shown before `b` under `key`.
pub open spec fn precedes(a: RowView, b: RowView, key: SortKey) -> bool {
    a.metric(key) > b.metric(key) || (a.metric(key) == b.metric(key) && tie_before(a, b))
}

/// No row of `rows` is shown before a row that stands earlier.
pub open spec fn is_ordered(rows: Seq<RowView>, key: SortKey) -> bool {
    forall|i: int, j: int| 0 <= i < j < rows.len() ==> !precedes(rows[j], rows[i], key)
}

/// Every row of `rows` is shown before each row that follows it.
pub open spec fn is_strictly_ordered(rows: Seq<RowView>, key: SortKey) -> bool {
    forall|i: int, j: int| 0 <= i < j < rows.len() ==> precedes(rows[i], rows[j], key)
}

/// No two rows of `rows` stand for the same thing.
pub open spec fn distinct_places(rows: Seq<RowView>) -> bool {
    forall|i: int, j: int| 0 <= i < j < rows.len() ==> !same_place(rows[i], rows[j])
}

/// What [`first_difference`] finds: the sequences agree before it, and
/// differ at it unless one of them ends there.
pub proof fn lemma_first_difference(a: Seq<u8>, b: Seq<u8>, i: int)
    requires
        0 <= i <= a.len(),
        i <= b.len(),
    ensures
        i <= first_difference(a, b, i) <= a.len(),
        first_difference(a, b, i) <= b.len(),
        forall|j: int| i <= j < first_difference(a, b, i) ==> a[j] == b[j],
        first_difference(a, b, i) < a.len() && first_difference(a, b, i) < b.len() ==> a[first_difference(
            a,
            b,
            i,
        )] != b[first_difference(a, b, i)],
    decreases a.len() - i,
{
    if i < a.len() && i < b.len() && a[i] == b[i] {
        lemma_first_difference(a, b, i + 1);
    }
}

/// Byte order is total: of two different names one comes before the other.
pub proof fn lemma_bytes_order_total(a: Seq<u8>, b: Seq<u8>)
    ensures
        !(bytes_before(a, b) && bytes_before(b, a)),
        !bytes_before(a, b) && !bytes_before(b, a) ==> a == b,
{
    lemma_first_difference(a, b, 0);
    lemma_first_difference(b, a, 0);
    let k = first_difference(a, b, 0);
    let m = first_difference(b, a, 0);
    if k < m {
        assert(b[k] == a[k]);
    } else if m < k {
        assert(a[m] == b[m]);
    }
    assert(k == m);
    if !bytes_before(a, b) && !bytes_before(b, a) {
        assert(a =~= b);
    }
}

/// Byte order is transitive in its weak form.
pub proof fn lemma_bytes_order_transitive(a: Seq<u8>, b: Seq<u8>, c: Seq<u8>)
    requires
        !bytes_before(b, a),
        !bytes_before(c, b),
    ensures
        !bytes_before(c, a),
{
    lemma_first_difference(b, a, 0);
    lemma_first_difference(c, b, 0);
    lemma_first_difference(c, a, 0);
    let x = first_difference(b, a, 0);
    let y = first_difference(c, b, 0);
    let z = first_difference(c, a, 0);
    if bytes_before(c, a) {
        if z < x && z < y {
            assert(c[z] == b[z] && b[z] == a[z]);
        } else if x < y {
            assert(c[x] == b[x]);
            if x < z {
                assert(c[x] == a[x]);
            }
        } else if y < x {
            assert(b[y] == a[y]);
            if y < z {
                assert(c[y] == a[y]);
            }
        } else {
            if x < z {
                assert(c[x] == a[x]);
            }
        }
    }
}

/// The display order is total: of two rows one is shown before the other
/// unless they agree in figure, pid and command.
pub proof fn lemma_order_total(a: RowView, b: RowView, key: SortKey)
    ensures
        !(precedes(a, b, key) && precedes(b, a, key)),
        !precedes(a, b, key) && !precedes(b, a, key) ==> a.metric(key) == b.metric(key)
            && same_place(a, b),
{
    lemma_bytes_order_total(a.command, b.command);
}

/// The display order is transitive in its weak form.
pub proof fn lemma_order_transitive(a: RowView, b: RowView, c: RowView, key: SortKey)
    requires
        !precedes(b, a, key),
        !precedes(c, b, key),
    ensures
        !precedes(c, a, key),
{
    lemma_bytes_order_total(a.command, b.command);
    lemma_bytes_order_total(b.command, c.command);
    if a.metric(key) == b.metric(key) && b.metric(key) == c.metric(key) && a.pid_rank()
        == b.pid_rank() && b.pid_rank() == c.pid_rank() {
        lemma_bytes_order_transitive(a.command, b.command, c.command);
    }
}

/// Ordered rows that stand for different things are strictly ordered.
pub proof fn lemma_ordered_distinct_is_strict(rows: Seq<RowView>, key: SortKey)
    requires
        is_ordered(rows, key),
        distinct_places(rows),
    ensures
        is_strictly_ordered(rows, key),
{
    assert forall|i: int, j: int| 0 <= i < j < rows.len() implies precedes(
        rows[i],
        rows[j],
        key,
    ) by {
        lemma_order_total(rows[i], rows[j], key);
    }
}

/// Tells whether `a` comes before `b` byte by byte.
pub fn bytes_less(a: &Vec<u8>, b: &Vec<u8>) -> (less: bool)
    ensures
        less == bytes_before(a@, b@),
{
    let mut i: usize = 0;
    while i < a.len() && i < b.len() && a[i] == b[i]
        invariant
            i <= a.len(),
            i <= b.len(),
            first_difference(a@, b@, 0) == first_difference(a@, b@, i as int),
        decreases a.len() - i,
    {
        i += 1;
    }
    i < b.len() && (i == a.len() || a[i] < b[i])
}

/// Tells whether two names are the same.
pub fn bytes_equal(a: &Vec<u8>, b: &Vec<u8>) -> (equal: bool)
    ensures
        equal == (a@ == b@),
{
    if a.len() != b.len() {
        return false;
    }
    let mut i: usize = 0;
    while i < a.len()
        invariant
            i <= a.len(),
            a.len() == b.len(),
            forall|k: int| 0 <= k < i ==> a@[k] == b@[k],
        decreases a.len() - i,
    {
        if a[i] != b[i] {
            return false;
        }
        i += 1;
    }
    assert(a@ =~= b@);
    true
}

impl DisplayRow {
    /// The figure of this row that `key` sorts by.
    pub fn metric(&self, key: SortKey) -> (figure: u128)
        ensures
            figure == self@.metric(key),
    {
        match key {
            SortKey::Pss => self.pss_kb,
            SortKey::Rss => self.rss_kb,
            SortKey::Swap => self.swap_pss_kb,
            SortKey::PrivateDirty => self.private_dirty_kb,
        }
    }

    /// Tells whether this row is shown before `other` under `key`.
    pub fn shown_before(&self, other: &DisplayRow, key: SortKey) -> (before: bool)
        ensures
            before == precedes(self@, other@, key),
    {
        let mine = self.metric(key);
        let theirs = other.metric(key);
        if mine != theirs {
            return mine > theirs;
        }
        match (self.pid, other.pid) {
            (None, Some(_)) => true,
            (Some(_), None) => false,
            (Some(a), Some(b)) => if a != b {
                a < b
            } else {
                bytes_less(&self.command, &other.command)
            },
            (None, None) => bytes_less(&self.command, &other.command),
        }
    }
}

/// Puts `rows` in display order under `key`: the same rows, none shown
/// before a row that stands earlier.
pub fn sort_rows(rows: &Vec<DisplayRow>, key: SortKey) -> (sorted: Vec<DisplayRow>)
    ensures
        is_ordered(row_views(sorted@), key),
        row_views(sorted@).to_multiset() == row_views(rows@).to_multiset(),
        sorted@.len() == rows@.len(),
{
    let mut sorted: Vec<DisplayRow> = Vec::new();
    let ghost all = row_views(rows@);
    let mut i: usize = 0;
    assert(row_views(sorted@) =~= all.take(0));
    while i < rows.len()
        invariant
            i <= rows.len(),
            all == row_views(rows@),
            sorted@.len() == i,
            is_ordered(row_views(sorted@), key),
            row_views(sorted@).to_multiset() == all.take(i as int).to_multiset(),
        decreases rows.len() - i,
    {
        let row = rows[i].clone();
        let ghost before = row_views(sorted@);
        let mut j: usize = sorted.len();
        while j > 0 && row.shown_before(&sorted[j - 1], key)
            invariant
                j <= sorted.len(),
                before == row_views(sorted@),
                forall|k: int| j <= k < before.len() ==> precedes(row@, #[trigger] before[k], key),
            decreases j,
        {
            j -= 1;
        }
        sorted.insert(j, row);
        proof {
            let after = row_views(sorted@);
            assert(after =~= before.insert(j as int, row@));
            to_multiset_insert(before, j as int, row@);
            assert(all.take(i + 1) =~= all.take(i as int).push(row@));
            to_multiset_build(all.take(i as int), row@);
            assert forall|x: int, y: int| 0 <= x < y < after.len() implies !precedes(
                after[y],
                after[x],
                key,
            ) by {
                if y == j {
                    assert(after[x] == before[x]);
                    if x < j - 1 {
                        lemma_order_transitive(before[x], before[j - 1], row@, key);
                    }
                } else if x == j {
                    assert(after[y] == before[y - 1]);
                    lemma_order_total(row@, before[y - 1], key);
                } else {
                    let bx = if x < j {
                        x
                    } else {
                        x - 1
                    };
                    let by = if y < j {
                        y
                    } else {
                        y - 1
                    };
                    assert(after[x] == before[bx] && after[y] == before[by]);
                }
            }
        }
        i += 1;
    }
    assert(all.take(rows.len() as int) =~= all);
    sorted
}

/// A list that holds the same rows as one whose rows stand for different
/// things has such rows too.
pub proof fn lemma_permutation_keeps_places(a: Seq<RowView>, b: Seq<RowView>)
    requires
        distinct_places(a),
        a.to_multiset() == b.to_multiset(),
    ensures
        distinct_places(b),
{
    broadcast use to_multiset_contains;

    assert(a.no_duplicates()) by {
        assert forall|i: int, j: int| 0 <= i < a.len() && 0 <= j < a.len() && i != j implies a[i]
            != a[j] by {
            if i < j {
                assert(!same_place(a[i], a[j]));
            } else {
                assert(!same_place(a[j], a[i]));
            }
        }
    }
    a.lemma_multiset_has_no_duplicates();
    b.lemma_multiset_has_no_duplicates_conv();
    assert forall|i: int, j: int| 0 <= i < j < b.len() implies !same_place(b[i], b[j]) by {
        assert(b.contains(b[i]) && b.contains(b[j]));
        assert(a.to_multiset().count(b[i]) > 0 && a.to_multiset().count(b[j]) > 0);
        assert(a.contains(b[i]) && a.contains(b[j]));
        let x = choose|x: int| 0 <= x < a.len() && a[x] == b[i];
        let y = choose|y: int| 0 <= y < a.len() && a[y] == b[j];
        if same_place(b[i], b[j]) {
            if x < y {
                assert(!same_place(a[x], a[y]));
            } else if y < x {
                assert(!same_place(a[y], a[x]));
            }
            assert(b[i] == b[j]);
        }
    }
}

/// The display order leaves no choice: two lists in strict display order
/// that hold the same rows are the same list.
pub proof fn lemma_display_order_is_unique(a: Seq<RowView>, b: Seq<RowView>, key: SortKey)
    requires
        is_strictly_ordered(a, key),
        is_strictly_ordered(b, key),
        forall|row: RowView| a.contains(row) <==> b.contains(row),
    ensures
        a == b,
    decreases a.len(),
{
    if a.len() == 0 {
        if b.len() > 0 {
            assert(b.contains(b[0]));
        }
        assert(a =~= b);
    } else {
        assert(a.contains(a[0]));
        let j = choose|j: int| 0 <= j < b.len() && b[j] == a[0];
        assert(b.contains(b[0]));
        let i = choose|i: int| 0 <= i < a.len() && a[i] == b[0];
        lemma_order_total(a[0], b[0], key);
        lemma_order_total(a[0], a[0], key);
        assert(j == 0 && i == 0);
        let a_rest = a.remove(0);
        let b_rest = b.remove(0);
        assert forall|x: int, y: int| 0 <= x < y < a_rest.len() implies precedes(
            a_rest[x],
            a_rest[y],
            key,
        ) by {
            assert(a_rest[x] == a[x + 1] && a_rest[y] == a[y + 1]);
        }
        assert forall|x: int, y: int| 0 <= x < y < b_rest.len() implies precedes(
            b_rest[x],
            b_rest[y],
            key,
        ) by {
            assert(b_rest[x] == b[x + 1] && b_rest[y] == b[y + 1]);
        }
        assert forall|row: RowView| a_rest.contains(row) <==> b_rest.contains(row) by {
            lemma_order_total(row, row, key);
            if a_rest.contains(row) {
                let x = choose|x: int| 0 <= x < a_rest.len() && a_rest[x] == row;
                assert(a[x + 1] == row);
                assert(a.contains(row));
                let y = choose|y: int| 0 <= y < b.len() && b[y] == row;
                assert(precedes(a[0], a[x + 1], key));
                assert(y != 0);
                assert(b_rest[y - 1] == row);
            }
            if b_rest.contains(row) {
                let y = choose|y: int| 0 <= y < b_rest.len() && b_rest[y] == row;
                assert(b[y + 1] == row);
                assert(b.contains(row));
                let x = choose|x: int| 0 <= x < a.len() && a[x] == row;
                assert(precedes(b[0], b[y + 1], key));
                assert(x != 0);
                assert(a_rest[x - 1] == row);
            }
        }
        lemma_display_order_is_unique(a_rest, b_rest, key);
        assert(a =~= seq![a[0]] + a_rest);
        assert(b =~= seq![b[0]] + b_rest);
    }
}

} // verus!
