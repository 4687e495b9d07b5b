use vstd::prelude::*;

use crate::task::{GroupedTasks, Status, Task};

verus! {

/// What identifies a row: the task's id, or its 1-based position in its date.
#[derive(Debug, Clone, PartialEq, Eq)]
pub enum RowLabel {
    Id(String),
    Position(usize),
}

/// One line of the task table.
#[derive(Debug, Clone)]
pub struct TableRow {
    /// The date, or empty text where the line above shows the same date.
    pub date_cell: String,
    pub description: String,
    pub status: Status,
    pub label: RowLabel,
}

/// A task as it stands in the flattened table: its date, itself, and its
/// 0-based position within its group.
pub type Entry = (Seq<char>, Task, int);

pub open spec fn group_entries(g: GroupedTasks) -> Seq<Entry> {
    Seq::new(g.tasks@.len(), |k: int| (g.date@, g.tasks@[k], k))
}

/// The tasks of all groups, group after group.
pub open spec fn entries_of(gs: Seq<GroupedTasks>) -> Seq<Entry>
    decreases gs.len(),
{
    if gs.len() == 0 {
        Seq::empty()
    } else {
        entries_of(gs.drop_last()) + group_entries(gs.last())
    }
}

/// The date shown on line `j`: blank where line `j - 1` has the same date.
pub open spec fn date_cell_of(es: Seq<Entry>, j: int) -> Seq<char> {
    if j > 0 && es[j - 1].0 == es[j].0 {
        Seq::empty()
    } else {
        es[j].0
    }
}

pub open spec fn row_matches(row: TableRow, es: Seq<Entry>, j: int, include_id: bool) -> bool {
    &&& row.date_cell@ == date_cell_of(es, j)
    &&& row.description == es[j].1.description
    &&& row.status == es[j].1.status
    &&& row.label == if include_id {
        RowLabel::Id(es[j].1.id)
    } else {
        RowLabel::Position((es[j].2 + 1) as usize)
    }
}

/// The lines of the task table for the given groups, one per task in group
/// order; each line shows the task's id or, without `include_id`, its 1-based
/// position within its date.
pub fn table_rows(grouped_tasks: &Vec<GroupedTasks>, include_id: bool) -> (r: Vec<TableRow>)
    ensures
        r@.len() == entries_of(grouped_tasks@).len(),
        forall|j: int|
            0 <= j < r@.len() ==> row_matches(#[trigger] r@[j], entries_of(grouped_tasks@), j, include_id),
{
    let mut rows: Vec<TableRow> = Vec::new();
    let mut last_used_date = String::new();
    let mut g: usize = 0;
    assert(grouped_tasks@.subrange(0, 0) =~= Seq::<GroupedTasks>::empty());
    while g < grouped_tasks.len()
        invariant
            g <= grouped_tasks@.len(),
            rows@.len() == entries_of(grouped_tasks@.subrange(0, g as int)).len(),
            rows@.len() > 0 ==> last_used_date@ == entries_of(grouped_tasks@.subrange(0, g as int)).last().0,
            rows@.len() == 0 ==> last_used_date@ == Seq::<char>::empty(),
            forall|j: int|
                0 <= j < rows@.len() ==> row_matches(
                    #[trigger] rows@[j],
                    entries_of(grouped_tasks@.subrange(0, g as int)),
                    j,
                    include_id,
                ),
        decreases grouped_tasks.len() - g,
    {
        let group = &grouped_tasks[g];
        let ghost done = entries_of(grouped_tasks@.subrange(0, g as int));
        let ghost mine = group_entries(*group);
        proof {
            assert(grouped_tasks@.subrange(0, g + 1).drop_last() =~= grouped_tasks@.subrange(0, g as int));
            assert(entries_of(grouped_tasks@.subrange(0, g + 1)) == done + mine);
        }
        let mut k: usize = 0;
        while k < group.tasks.len()
            invariant
                k <= group.tasks@.len(),
                mine == group_entries(*group),
                rows@.len() == done.len() + k,
                rows@.len() > 0 ==> last_used_date@ == (done + mine.subrange(0, k as int)).last().0,
                rows@.len() == 0 ==> last_used_date@ == Seq::<char>::empty(),
                forall|j: int|
                    0 <= j < rows@.len() ==> row_matches(
                        #[trigger] rows@[j],
                        done + mine.subrange(0, k as int),
                        j,
                        include_id,
                    ),
            decreases group.tasks.len() - k,
        {
            let task = &group.tasks[k];
            let ghost before = done + mine.subrange(0, k as int);
            let ghost after = done + mine.subrange(0, k + 1);
            proof {
                assert(after =~= before.push(mine[k as int]));
            }
            let date_cell = if group.date == last_used_date {
                String::new()
            } else {
                group.date.clone()
            };
            let label = if include_id {
                RowLabel::Id(task.id.clone())
            } else {
                RowLabel::Position(k + 1)
            };
            let row = TableRow {
                date_cell,
                description: task.description.clone(),
                status: task.status,
                label,
            };
            let ghost n = rows@.len() as int;
            rows.push(row);
            last_used_date = group.date.clone();
            proof {
                assert(after[n] == mine[k as int]);
                assert(row_matches(rows@[n], after, n, include_id));
                assert forall|j: int| 0 <= j < rows@.len() implies row_matches(
                    #[trigger] rows@[j],
                    after,
                    j,
                    include_id,
                ) by {
                    if j < n {
                        assert(after[j] == before[j]);
                        if j > 0 {
                            assert(after[j - 1] == before[j - 1]);
                        }
                    }
                }
            }
            k = k + 1;
        }
        proof {
            assert(mine.subrange(0, k as int) =~= mine);
        }
        g = g + 1;
    }
    assert(grouped_tasks@.subrange(0, g as int) =~= grouped_tasks@);
    rows
}

} // verus!
