//! Resume checkpoints: one stored feed position per consumer identity.
use vstd::prelude::*;

verus! {

/// The position in the change feed up to which a consumer has processed, if it has
/// seen any.
#[derive(Clone, Debug, PartialEq, Eq)]
pub struct ResumeCheckpoint<P> {
    pub consumer_id: String,
    pub position: Option<P>,
}

/// The position of a consumer's row among (consumer, position) rows, or -1.
pub open spec fn row_index<P>(rows: Seq<(Seq<char>, Option<P>)>, id: Seq<char>) -> int {
    if exists|i: int| 0 <= i < rows.len() && rows[i].0 == id {
        choose|i: int| 0 <= i < rows.len() && rows[i].0 == id
    } else {
        -1
    }
}

/// The (consumer, position) view of checkpoint rows.
pub open spec fn rows_view<P>(rows: Seq<ResumeCheckpoint<P>>) -> Seq<(Seq<char>, Option<P>)> {
    rows.map_values(|r: ResumeCheckpoint<P>| (r.consumer_id@, r.position))
}

/// Resume checkpoints held in memory, one row per consumer.
pub struct CheckpointStore<P> {
    rows: Vec<ResumeCheckpoint<P>>,
}

impl<P> View for CheckpointStore<P> {
    type V = Map<Seq<char>, Option<P>>;

    closed spec fn view(&self) -> Map<Seq<char>, Option<P>> {
        let rows = rows_view(self.rows@);
        Map::new(|id: Seq<char>| row_index(rows, id) >= 0, |id: Seq<char>| rows[row_index(rows, id)].1)
    }
}

impl<P> CheckpointStore<P> {
    /// No consumer has two rows.
    pub closed spec fn well_formed(&self) -> bool {
        let rows = rows_view(self.rows@);
        forall|i: int, j: int|
            0 <= i < rows.len() && 0 <= j < rows.len() && i != j ==> rows[i].0 != rows[j].0
    }

    /// An empty store.
    pub fn new() -> (r: CheckpointStore<P>)
        ensures
            r.well_formed(),
            r@ == Map::<Seq<char>, Option<P>>::empty(),
    {
        let r = CheckpointStore { rows: Vec::new() };
        assert(r@ =~= Map::<Seq<char>, Option<P>>::empty());
        r
    }

    /// The index of a consumer's row, or the number of rows where it has none.
    fn find(&self, consumer_id: &str) -> (r: usize)
        requires
            self.well_formed(),
        ensures
            r <= self.rows@.len(),
            r < self.rows@.len() ==> r as int == row_index(rows_view(self.rows@), consumer_id@),
            r == self.rows@.len() ==> row_index(rows_view(self.rows@), consumer_id@) == -1,
    {
        let ghost rows = rows_view(self.rows@);
        let mut i: usize = 0;
        while i < self.rows.len()
            invariant
                i <= self.rows@.len(),
                rows == rows_view(self.rows@),
                self.well_formed(),
                forall|m: int| 0 <= m < i ==> rows[m].0 != consumer_id@,
            decreases self.rows@.len() - i,
        {
            if self.rows[i].consumer_id.as_str().eq(consumer_id) {
                assert(rows[i as int].0 == consumer_id@);
                return i;
            }
            i = i + 1;
        }
        i
    }

    /// The stored position of a consumer, if it has one.
    pub fn get_checkpoint(&self, consumer_id: &str) -> (r: Option<&P>)
        requires
            self.well_formed(),
        ensures
            r == (if self@.contains_key(consumer_id@) {
                match self@[consumer_id@] {
                    Some(p) => Some(&p),
                    None => None,
                }
            } else {
                None
            }),
    {
        let i = self.find(consumer_id);
        if i < self.rows.len() {
            match &self.rows[i].position {
                Some(p) => Some(p),
                None => None,
            }
        } else {
            None
        }
    }

    /// Stores a consumer's position, replacing its previous one.
    pub fn put_checkpoint(&mut self, consumer_id: &str, position: Option<P>)
        requires
            old(self).well_formed(),
        ensures
            final(self).well_formed(),
            final(self)@ == old(self)@.insert(consumer_id@, position),
    {
        let ghost before = rows_view(self.rows@);
        let ghost old_view = self@;
        let i = self.find(consumer_id);
        let row = ResumeCheckpoint { consumer_id: consumer_id.to_owned(), position };
        if i < self.rows.len() {
            self.rows.set(i, row);
            let ghost after = rows_view(self.rows@);
            assert(after == before.update(i as int, (consumer_id@, position)));
            assert forall|id: Seq<char>| #[trigger] row_index(after, id) >= 0 <==> row_index(before, id) >= 0 || id == consumer_id@ by {
                if row_index(before, id) >= 0 {
                    let k = row_index(before, id);
                    assert(after[k].0 == id);
                }
                if row_index(after, id) >= 0 {
                    let k = row_index(after, id);
                    assert(before[k].0 == id || k == i);
                }
            }
            assert forall|id: Seq<char>| row_index(after, id) >= 0 implies #[trigger] after[row_index(after, id)].1 == (if id == consumer_id@ { position } else { before[row_index(before, id)].1 }) by {
                let k = row_index(after, id);
                if id == consumer_id@ {
                    assert(k == i);
                } else {
                    assert(before[k].0 == id);
                    assert(row_index(before, id) == k);
                }
            }
        } else {
            self.rows.push(row);
            let ghost after = rows_view(self.rows@);
            assert(after == before.push((consumer_id@, position)));
            assert forall|id: Seq<char>| #[trigger] row_index(after, id) >= 0 <==> row_index(before, id) >= 0 || id == consumer_id@ by {
                if row_index(before, id) >= 0 {
                    let k = row_index(before, id);
                    assert(after[k].0 == id);
                }
                if id == consumer_id@ {
                    assert(after[before.len() as int].0 == id);
                }
            }
            assert forall|id: Seq<char>| row_index(after, id) >= 0 implies #[trigger] after[row_index(after, id)].1 == (if id == consumer_id@ { position } else { before[row_index(before, id)].1 }) by {
                let k = row_index(after, id);
                if id == consumer_id@ {
                    assert(k == before.len());
                } else {
                    assert(before[k].0 == id);
                    assert(row_index(before, id) == k);
                }
            }
        }
        assert(self@ =~= old_view.insert(consumer_id@, position));
    }
}

} // verus!
