use vstd::arithmetic::div_mod::{
    lemma_breakdown, lemma_div_denominator, lemma_fundamental_div_mod,
    lemma_fundamental_div_mod_converse_div, lemma_mod_mod,
};
use vstd::prelude::*;

use crate::calendar::{digit, four_digits, iso_text, two_digits, CalDate};
use crate::task::{copy_task, GroupedTasks, Task};

verus! {

/// Lexicographic order of texts by code point, the order of `str`'s `Ord`.
pub open spec fn text_lt(a: Seq<char>, b: Seq<char>) -> bool
    decreases a.len(),
{
    if a.len() == 0 {
        b.len() > 0
    } else if b.len() == 0 {
        false
    } else if a[0] != b[0] {
        (a[0] as int) < (b[0] as int)
    } else {
        text_lt(a.drop_first(), b.drop_first())
    }
}

/// Of two different texts exactly one comes first.
pub proof fn lemma_text_lt_total(a: Seq<char>, b: Seq<char>)
    ensures
        a != b ==> text_lt(a, b) || text_lt(b, a),
        !(text_lt(a, b) && text_lt(b, a)),
    decreases a.len(),
{
    if a.len() > 0 && b.len() > 0 && a[0] == b[0] {
        lemma_text_lt_total(a.drop_first(), b.drop_first());
        if a.drop_first() == b.drop_first() {
            assert(a =~= seq![a[0]] + a.drop_first());
            assert(b =~= seq![b[0]] + b.drop_first());
        }
    } else if a.len() == 0 && b.len() == 0 {
        assert(a =~= b);
    } else if a.len() > 0 && b.len() > 0 {
        assert((a[0] as int) != (b[0] as int));
    }
}

/// The order of texts is transitive.
pub proof fn lemma_text_lt_transitive(a: Seq<char>, b: Seq<char>, c: Seq<char>)
    requires
        text_lt(a, b),
        text_lt(b, c),
    ensures
        text_lt(a, c),
    decreases a.len(),
{
    if a.len() > 0 && b.len() > 0 && c.len() > 0 && a[0] == b[0] && b[0] == c[0] {
        lemma_text_lt_transitive(a.drop_first(), b.drop_first(), c.drop_first());
    }
}

/// Comparing joined texts whose first parts have equal length compares the
/// first parts, and on a tie the second parts.
pub proof fn lemma_text_lt_concat(x: Seq<char>, y: Seq<char>, u: Seq<char>, v: Seq<char>)
    requires
        x.len() == u.len(),
    ensures
        text_lt(x + y, u + v) == (text_lt(x, u) || (x == u && text_lt(y, v))),
    decreases x.len(),
{
    if x.len() == 0 {
        assert(x + y =~= y);
        assert(u + v =~= v);
        assert(x =~= u);
    } else {
        assert((x + y)[0] == x[0]);
        assert((u + v)[0] == u[0]);
        assert((x + y).drop_first() =~= x.drop_first() + y);
        assert((u + v).drop_first() =~= u.drop_first() + v);
        lemma_text_lt_concat(x.drop_first(), y, u.drop_first(), v);
        if x[0] == u[0] && x.drop_first() == u.drop_first() {
            assert(x =~= seq![x[0]] + x.drop_first());
            assert(u =~= seq![u[0]] + u.drop_first());
        }
        if x == u {
            assert(x.drop_first() == u.drop_first());
        }
    }
}

proof fn lemma_digit_code(i: int)
    requires
        0 <= i <= 9,
    ensures
        digit(i) as int == 48 + i,
{
    let ds = seq!['0', '1', '2', '3', '4', '5', '6', '7', '8', '9'];
    assert(digit(i) == ds[i]);
}

proof fn lemma_digit_order(i: int, j: int)
    requires
        0 <= i <= 9,
        0 <= j <= 9,
    ensures
        text_lt(seq![digit(i)], seq![digit(j)]) == (i < j),
{
    lemma_digit_code(i);
    lemma_digit_code(j);
    let a = seq![digit(i)];
    let b = seq![digit(j)];
    assert(a.len() == 1 && a[0] == digit(i));
    assert(b.len() == 1 && b[0] == digit(j));
    assert(a.drop_first() =~= Seq::<char>::empty());
    assert(b.drop_first() =~= Seq::<char>::empty());
    if i == j {
        assert(!text_lt(a.drop_first(), b.drop_first()));
    } else {
        assert(a[0] != b[0]);
    }
}

proof fn lemma_two_digit_order(n: int, m: int)
    requires
        0 <= n <= 99,
        0 <= m <= 99,
    ensures
        text_lt(two_digits(n), two_digits(m)) == (n < m),
{
    lemma_digit_order((n / 10) % 10, (m / 10) % 10);
    lemma_digit_order(n % 10, m % 10);
    assert(two_digits(n) =~= seq![digit((n / 10) % 10)] + seq![digit(n % 10)]);
    assert(two_digits(m) =~= seq![digit((m / 10) % 10)] + seq![digit(m % 10)]);
    lemma_text_lt_concat(seq![digit((n / 10) % 10)], seq![digit(n % 10)], seq![digit((m / 10) % 10)], seq![digit(m % 10)]);
    lemma_digit_code((n / 10) % 10);
    lemma_digit_code((m / 10) % 10);
    if seq![digit((n / 10) % 10)] == seq![digit((m / 10) % 10)] {
        assert(seq![digit((n / 10) % 10)][0] == seq![digit((m / 10) % 10)][0]);
    }
}

proof fn lemma_four_digits_split(n: int)
    requires
        0 <= n <= 9999,
    ensures
        four_digits(n) == two_digits(n / 100) + two_digits(n % 100),
        0 <= n / 100 <= 99,
        0 <= n % 100 <= 99,
        n == 100 * (n / 100) + n % 100,
{
    lemma_div_denominator(n, 100, 10);
    lemma_mod_mod(n, 10, 10);
    lemma_breakdown(n, 10, 10);
    lemma_fundamental_div_mod(n % 100, 10);
    lemma_fundamental_div_mod_converse_div(n % 100, 10, (n / 10) % 10, n % 10);
    lemma_fundamental_div_mod(n, 100);
    assert(four_digits(n) =~= two_digits(n / 100) + two_digits(n % 100));
}

proof fn lemma_digit_pairs_order(hn: int, ln: int, hm: int, lm: int)
    requires
        0 <= hn <= 99,
        0 <= ln <= 99,
        0 <= hm <= 99,
        0 <= lm <= 99,
    ensures
        text_lt(two_digits(hn) + two_digits(ln), two_digits(hm) + two_digits(lm)) == (hn < hm || (
        hn == hm && ln < lm)),
{
    lemma_two_digit_order(hn, hm);
    lemma_two_digit_order(ln, lm);
    lemma_text_lt_concat(two_digits(hn), two_digits(ln), two_digits(hm), two_digits(lm));
    if hn != hm {
        lemma_text_lt_total(two_digits(hn), two_digits(hm));
        lemma_text_lt_total(two_digits(hn), two_digits(hn));
    }
}

proof fn lemma_four_digit_order(n: int, m: int)
    requires
        0 <= n <= 9999,
        0 <= m <= 9999,
    ensures
        text_lt(four_digits(n), four_digits(m)) == (n < m),
{
    lemma_four_digits_split(n);
    lemma_four_digits_split(m);
    let hn = n / 100;
    let ln = n % 100;
    let hm = m / 100;
    let lm = m % 100;
    lemma_digit_pairs_order(hn, ln, hm, lm);
    assert((n < m) == (hn < hm || (hn == hm && ln < lm)));
}

/// `a` is an earlier calendar date than `b`.
pub open spec fn date_before(a: CalDate, b: CalDate) -> bool {
    a.year < b.year || (a.year == b.year && (a.month < b.month || (a.month == b.month && a.day
        < b.day)))
}

proof fn lemma_text_lt_prefixed(c: Seq<char>, x: Seq<char>, y: Seq<char>)
    ensures
        text_lt(c + x, c + y) == text_lt(x, y),
{
    lemma_text_lt_concat(c, x, c, y);
    lemma_text_lt_total(c, c);
}

/// For dates with years from 0 to 9999, the order of their `YYYY-MM-DD` texts
/// is the calendar order: sorting by text sorts by date.
pub proof fn lemma_iso_text_order(a: CalDate, b: CalDate)
    requires
        a.valid(),
        b.valid(),
        0 <= a.year <= 9999,
        0 <= b.year <= 9999,
    ensures
        text_lt(iso_text(a), iso_text(b)) == date_before(a, b),
{
    let dash = seq!['-'];
    let ya = four_digits(a.year as int);
    let yb = four_digits(b.year as int);
    let ma = two_digits(a.month as int);
    let mb = two_digits(b.month as int);
    let da = two_digits(a.day as int);
    let db = two_digits(b.day as int);
    assert(iso_text(a) =~= ya + ((dash + ma) + (dash + da)));
    assert(iso_text(b) =~= yb + ((dash + mb) + (dash + db)));
    lemma_text_lt_concat(ya, (dash + ma) + (dash + da), yb, (dash + mb) + (dash + db));
    lemma_text_lt_concat(dash + ma, dash + da, dash + mb, dash + db);
    lemma_text_lt_prefixed(dash, ma, mb);
    lemma_text_lt_prefixed(dash, da, db);
    lemma_four_digit_order(a.year as int, b.year as int);
    lemma_two_digit_order(a.month as int, b.month as int);
    lemma_two_digit_order(a.day as int, b.day as int);
    lemma_text_lt_total(ya, yb);
    lemma_text_lt_total(ya, ya);
    lemma_text_lt_total(ma, mb);
    lemma_text_lt_total(ma, ma);
    lemma_text_lt_total(dash + ma, dash + ma);
    if dash + ma == dash + mb {
        assert(ma =~= (dash + ma).subrange(1, 3));
        assert(mb =~= (dash + mb).subrange(1, 3));
    }
}

/// Whether `a` comes strictly before `b` in lexicographic order.
pub fn text_less(a: &str, b: &str) -> (r: bool)
    ensures
        r == text_lt(a@, b@),
{
    let n = a.unicode_len();
    let m = b.unicode_len();
    let mut i: usize = 0;
    proof {
        assert(a@.subrange(0, n as int) =~= a@);
        assert(b@.subrange(0, m as int) =~= b@);
    }
    while i < n && i < m
        invariant
            n == a@.len(),
            m == b@.len(),
            i <= n,
            i <= m,
            text_lt(a@, b@) == text_lt(a@.subrange(i as int, n as int), b@.subrange(i as int, m as int)),
        decreases n - i,
    {
        let x = a.get_char(i);
        let y = b.get_char(i);
        if x != y {
            return x < y;
        }
        proof {
            assert(a@.subrange(i as int, n as int).drop_first() =~= a@.subrange(i + 1, n as int));
            assert(b@.subrange(i as int, m as int).drop_first() =~= b@.subrange(i + 1, m as int));
        }
        i = i + 1;
    }
    i == n && i < m
}

/// The texts strictly descend.
pub open spec fn strictly_descending(s: Seq<String>) -> bool {
    forall|i: int, j: int| 0 <= i < j < s.len() ==> text_lt(#[trigger] s[j]@, #[trigger] s[i]@)
}

pub open spec fn has_text(s: Seq<String>, y: Seq<char>) -> bool {
    exists|i: int| 0 <= i < s.len() && #[trigger] s[i]@ == y
}

/// Some task falls on date `y`.
pub open spec fn has_date(ts: Seq<Task>, y: Seq<char>) -> bool {
    exists|i: int| 0 <= i < ts.len() && #[trigger] ts[i].date@ == y
}

/// Some group has date `y`.
pub open spec fn has_group(gs: Seq<GroupedTasks>, y: Seq<char>) -> bool {
    exists|i: int| 0 <= i < gs.len() && #[trigger] gs[i].date@ == y
}

/// The test that a task falls on date `d`.
pub open spec fn on_date(d: Seq<char>) -> spec_fn(Task) -> bool {
    |t: Task| t.date@ == d
}

/// `gs` is `ts` grouped by date: one group for each date that occurs, groups
/// by date most recent first, each holding that date's tasks in their order in `ts`.
pub open spec fn is_grouping(ts: Seq<Task>, gs: Seq<GroupedTasks>) -> bool {
    &&& forall|i: int, j: int|
        0 <= i < j < gs.len() ==> text_lt(#[trigger] gs[j].date@, #[trigger] gs[i].date@)
    &&& forall|i: int| 0 <= i < gs.len() ==> #[trigger] gs[i].tasks@ == ts.filter(on_date(gs[i].date@))
    &&& forall|y: Seq<char>| has_group(gs, y) <==> has_date(ts, y)
}

/// Adds `x` to a strictly descending list of texts, unless it is there already.
fn insert_descending(dates: &mut Vec<String>, x: &String)
    requires
        strictly_descending(old(dates)@),
    ensures
        strictly_descending(final(dates)@),
        forall|y: Seq<char>| has_text(final(dates)@, y) <==> (has_text(old(dates)@, y) || y == x@),
{
    let n = dates.len();
    let mut p: usize = 0;
    loop
        invariant
            p <= n,
            n == dates.len(),
            forall|k: int| 0 <= k < p ==> text_lt(x@, #[trigger] dates@[k]@),
        ensures
            p <= n,
            forall|k: int| 0 <= k < p ==> text_lt(x@, #[trigger] dates@[k]@),
            p == n || !text_lt(x@, dates@[p as int]@),
        decreases n - p,
    {
        if p >= n {
            break;
        }
        if !text_less(x.as_str(), dates[p].as_str()) {
            break;
        }
        p = p + 1;
    }
    if p < n && dates[p] == *x {
        assert(dates@[p as int]@ == x@);
        return;
    }
    let ghost old_dates = dates@;
    dates.insert(p, x.clone());
    let ghost new_dates = dates@;
    assert(new_dates == old_dates.insert(p as int, *x));
    proof {
        if p < n {
            lemma_text_lt_total(x@, old_dates[p as int]@);
        }
        assert forall|i: int, j: int| 0 <= i < j < new_dates.len() implies text_lt(
            #[trigger] new_dates[j]@,
            #[trigger] new_dates[i]@,
        ) by {
            if j < p {
            } else if j == p {
            } else if i < p {
                if j - 1 > p {
                    lemma_text_lt_transitive(new_dates[j]@, old_dates[p as int]@, x@);
                }
                lemma_text_lt_transitive(new_dates[j]@, x@, new_dates[i]@);
            } else if i == p {
                if j - 1 > p {
                    lemma_text_lt_transitive(new_dates[j]@, old_dates[p as int]@, x@);
                }
            } else {
                assert(new_dates[i] == old_dates[i - 1]);
                assert(new_dates[j] == old_dates[j - 1]);
            }
        }
        assert forall|y: Seq<char>| has_text(new_dates, y) <==> (has_text(old_dates, y) || y == x@) by {
            if has_text(new_dates, y) {
                let i = choose|i: int| 0 <= i < new_dates.len() && #[trigger] new_dates[i]@ == y;
                if i < p {
                    assert(old_dates[i]@ == y);
                } else if i > p {
                    assert(old_dates[i - 1]@ == y);
                }
            }
            if has_text(old_dates, y) {
                let i = choose|i: int| 0 <= i < old_dates.len() && #[trigger] old_dates[i]@ == y;
                if i < p {
                    assert(new_dates[i]@ == y);
                } else {
                    assert(new_dates[i + 1]@ == y);
                }
            }
            if y == x@ {
                assert(new_dates[p as int]@ == y);
            }
        }
    }
}

/// The tasks that fall on date `d`, in their order in `tasks`.
pub fn tasks_on_date(tasks: &Vec<Task>, d: &String) -> (r: Vec<Task>)
    ensures
        r@ == tasks@.filter(on_date(d@)),
{
    let mut r: Vec<Task> = Vec::new();
    let mut i: usize = 0;
    proof {
        reveal(Seq::filter);
        assert(tasks@.subrange(0, 0).filter(on_date(d@)) =~= Seq::<Task>::empty());
    }
    while i < tasks.len()
        invariant
            i <= tasks.len(),
            r@ == tasks@.subrange(0, i as int).filter(on_date(d@)),
        decreases tasks.len() - i,
    {
        let ghost before = tasks@.subrange(0, i as int);
        proof {
            reveal(Seq::filter);
            assert(tasks@.subrange(0, i + 1).drop_last() =~= before);
        }
        if tasks[i].date == *d {
            r.push(copy_task(&tasks[i]));
        }
        i = i + 1;
    }
    assert(tasks@.subrange(0, tasks.len() as int) =~= tasks@);
    r
}

/// Groups tasks by exact date: the most recent date first, and within a date
/// the tasks in the order they are given. Dates without tasks get no group.
pub fn group_by_date(tasks: &Vec<Task>) -> (r: Vec<GroupedTasks>)
    ensures
        is_grouping(tasks@, r@),
{
    let mut dates: Vec<String> = Vec::new();
    let mut i: usize = 0;
    while i < tasks.len()
        invariant
            i <= tasks.len(),
            strictly_descending(dates@),
            forall|y: Seq<char>| has_text(dates@, y) <==> has_date(tasks@.subrange(0, i as int), y),
        decreases tasks.len() - i,
    {
        insert_descending(&mut dates, &tasks[i].date);
        proof {
            let before = tasks@.subrange(0, i as int);
            let after = tasks@.subrange(0, i + 1);
            assert forall|y: Seq<char>| has_date(after, y) <==> (has_date(before, y) || y == tasks@[i as int].date@) by {
                if has_date(after, y) {
                    let k = choose|k: int| 0 <= k < after.len() && #[trigger] after[k].date@ == y;
                    if k < i {
                        assert(before[k].date@ == y);
                    }
                }
                if has_date(before, y) {
                    let k = choose|k: int| 0 <= k < before.len() && #[trigger] before[k].date@ == y;
                    assert(after[k].date@ == y);
                }
                if y == tasks@[i as int].date@ {
                    assert(after[i as int].date@ == y);
                }
            }
        }
        i = i + 1;
    }
    assert(tasks@.subrange(0, tasks.len() as int) =~= tasks@);
    let mut groups: Vec<GroupedTasks> = Vec::new();
    let mut j: usize = 0;
    while j < dates.len()
        invariant
            j <= dates.len(),
            groups.len() == j,
            forall|g: int| 0 <= g < j ==> (#[trigger] groups@[g]).date@ == dates@[g]@,
            forall|g: int| 0 <= g < j ==> (#[trigger] groups@[g]).tasks@ == tasks@.filter(on_date(dates@[g]@)),
        decreases dates.len() - j,
    {
        let members = tasks_on_date(tasks, &dates[j]);
        groups.push(GroupedTasks { date: dates[j].clone(), tasks: members });
        j = j + 1;
    }
    proof {
        assert forall|a: int, b: int| 0 <= a < b < groups.len() implies text_lt(
            #[trigger] groups@[b].date@,
            #[trigger] groups@[a].date@,
        ) by {
            assert(text_lt(dates@[b]@, dates@[a]@));
        }
        assert forall|y: Seq<char>| has_group(groups@, y) <==> has_text(dates@, y) by {
            if has_group(groups@, y) {
                let k = choose|k: int| 0 <= k < groups@.len() && #[trigger] groups@[k].date@ == y;
                assert(dates@[k]@ == y);
            }
            if has_text(dates@, y) {
                let k = choose|k: int| 0 <= k < dates@.len() && #[trigger] dates@[k]@ == y;
                assert(groups@[k].date@ == y);
            }
        }
    }
    groups
}

/// The ids strictly ascend.
pub open spec fn ids_ascending(ts: Seq<Task>) -> bool {
    forall|i: int, j: int| 0 <= i < j < ts.len() ==> text_lt(#[trigger] ts[i].id@, #[trigger] ts[j].id@)
}

/// Filtering keeps ascending ids ascending.
proof fn lemma_filter_keeps_ids_ascending(s: Seq<Task>, p: spec_fn(Task) -> bool)
    requires
        ids_ascending(s),
    ensures
        ids_ascending(s.filter(p)),
    decreases s.len(),
{
    reveal(Seq::filter);
    if s.len() > 0 {
        let front = s.drop_last();
        assert(ids_ascending(front));
        lemma_filter_keeps_ids_ascending(front, p);
        let kept = front.filter(p);
        if p(s.last()) {
            let out = kept.push(s.last());
            assert forall|i: int, j: int| 0 <= i < j < out.len() implies text_lt(
                #[trigger] out[i].id@,
                #[trigger] out[j].id@,
            ) by {
                if j == out.len() - 1 {
                    assert(kept.contains(kept[i]));
                    front.lemma_filter_contains_rev(p, kept[i]);
                    let k = choose|k: int| 0 <= k < front.len() && front[k] == kept[i];
                    assert(s[k] == kept[i]);
                } else {
                    assert(out[i] == kept[i] && out[j] == kept[j]);
                }
            }
        }
    }
}

/// Grouping keeps the order of the tasks: where the tasks come in ascending id
/// order, each group's tasks are in ascending id order too.
pub proof fn lemma_groups_keep_id_order(ts: Seq<Task>, gs: Seq<GroupedTasks>)
    requires
        is_grouping(ts, gs),
        ids_ascending(ts),
    ensures
        forall|i: int| 0 <= i < gs.len() ==> ids_ascending(#[trigger] gs[i].tasks@),
{
    assert forall|i: int| 0 <= i < gs.len() implies ids_ascending(#[trigger] gs[i].tasks@) by {
        lemma_filter_keeps_ids_ascending(ts, on_date(gs[i].date@));
    }
}

} // verus!
