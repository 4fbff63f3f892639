//! The facility activity report: each roster controller's controlling
//! minutes over the last five months, ordered by CID, with the top three
//! controllers of each month marked.

use crate::sql::{Activity, Controller};
use crate::text::{
    append_chars, append_str, chars_eq, chars_of, lemma_utf8_len_increasing, string_from_chars,
    utf8_len,
};
use vstd::prelude::*;

verus! {

// ---------------------------------------------------------------------------
// Ranking by a strict lexicographic order on keys
// ---------------------------------------------------------------------------

/// Lexicographic strict order on triples.
pub open spec fn key_less(a: (int, int, int), b: (int, int, int)) -> bool {
    a.0 < b.0 || (a.0 == b.0 && (a.1 < b.1 || (a.1 == b.1 && a.2 < b.2)))
}

/// How many of the first `n` keys are less than key `i`.
pub open spec fn count_less(keys: Seq<(int, int, int)>, i: int, n: int) -> nat
    decreases n,
{
    if n <= 0 {
        0
    } else {
        count_less(keys, i, n - 1) + if key_less(keys[n - 1], keys[i]) {
            1nat
        } else {
            0nat
        }
    }
}

/// The position of key `i` once all keys are put in increasing order: how
/// many keys are less than it.
pub open spec fn key_rank(keys: Seq<(int, int, int)>, i: int) -> nat {
    count_less(keys, i, keys.len() as int)
}

/// A key less than another has a strictly smaller rank.
pub proof fn lemma_rank_increasing(keys: Seq<(int, int, int)>, k: int, i: int, n: int)
    requires
        0 <= k < keys.len(),
        0 <= i < keys.len(),
        0 <= n <= keys.len(),
        key_less(keys[k], keys[i]),
    ensures
        count_less(keys, i, n) >= count_less(keys, k, n) + (if k < n {
            1nat
        } else {
            0nat
        }),
    decreases n,
{
    if n > 0 {
        lemma_rank_increasing(keys, k, i, n - 1);
    }
}

/// A key is never less than itself, so its rank is below the number of keys.
pub proof fn lemma_rank_bound(keys: Seq<(int, int, int)>, i: int, n: int)
    requires
        0 <= i < keys.len(),
        0 <= n <= keys.len(),
    ensures
        count_less(keys, i, n) <= (if i < n {
            n - 1
        } else {
            n
        }),
    decreases n,
{
    if n > 0 {
        lemma_rank_bound(keys, i, n - 1);
    }
}

/// Distinct keys have distinct ranks.
pub proof fn lemma_rank_injective(keys: Seq<(int, int, int)>, i: int, k: int)
    requires
        0 <= i < keys.len(),
        0 <= k < keys.len(),
        keys[i] != keys[k],
    ensures
        key_rank(keys, i) != key_rank(keys, k),
{
    if key_less(keys[k], keys[i]) {
        lemma_rank_increasing(keys, k, i, keys.len() as int);
    } else {
        lemma_rank_increasing(keys, i, k, keys.len() as int);
    }
}

/// Converts keys of machine integers to mathematical ones.
pub open spec fn int_keys(keys: Seq<(i64, i64, i64)>) -> Seq<(int, int, int)> {
    keys.map_values(|k: (i64, i64, i64)| (k.0 as int, k.1 as int, k.2 as int))
}

/// The rank of key `i` among all keys.
pub(crate) fn rank_of(keys: &Vec<(i64, i64, i64)>, i: usize) -> (r: usize)
    requires
        i < keys.len(),
    ensures
        r == key_rank(int_keys(keys@), i as int),
        r < keys.len(),
{
    let ghost ks = int_keys(keys@);
    let mut count: usize = 0;
    let mut n: usize = 0;
    while n < keys.len()
        invariant
            n <= keys.len(),
            i < keys.len(),
            ks == int_keys(keys@),
            count == count_less(ks, i as int, n as int),
            count <= n,
        decreases keys.len() - n,
    {
        let a = keys[n];
        let b = keys[i];
        if a.0 < b.0 || (a.0 == b.0 && (a.1 < b.1 || (a.1 == b.1 && a.2 < b.2))) {
            count = count + 1;
        }
        n = n + 1;
    }
    proof {
        lemma_rank_bound(ks, i as int, keys.len() as int);
    }
    count
}

// ---------------------------------------------------------------------------
// The report
// ---------------------------------------------------------------------------

/// Minutes in a month.
#[derive(Debug, Clone, Copy, PartialEq, Eq, Structural)]
pub struct ActivityMonth {
    pub value: u32,
    /// Place among the month's top three controllers (0 is first).
    pub position: Option<u8>,
}

/// One line of the activity report.
#[derive(Debug)]
pub struct ControllerActivity {
    pub name: String,
    pub ois: String,
    pub cid: u32,
    pub loa_until: Option<i64>,
    pub rating: i8,
    pub months: Vec<ActivityMonth>,
    pub violation: bool,
}

/// Minutes a controller needs over the last three months.
pub open spec fn required_quarter_minutes() -> nat {
    180
}

/// The total of the recorded minutes of controller `cid` in `month`.
pub open spec fn minutes_in_month(activity: Seq<Activity>, cid: u32, month: Seq<char>) -> nat
    decreases activity.len(),
{
    if activity.len() == 0 {
        0
    } else {
        minutes_in_month(activity.drop_last(), cid, month) + if activity.last().cid == cid
            && activity.last().month@ == month {
            activity.last().minutes as nat
        } else {
            0nat
        }
    }
}

/// A controller's minutes in month `m` (0 is the current month).
pub open spec fn month_minutes(
    controllers: Seq<Controller>,
    activity: Seq<Activity>,
    months: Seq<String>,
    i: int,
    m: int,
) -> nat {
    minutes_in_month(activity, controllers[i].cid, months[m]@)
}

/// Report lines are ordered by CID, then by the order of the input.
pub open spec fn line_keys(controllers: Seq<Controller>) -> Seq<(int, int, int)> {
    Seq::new(controllers.len(), |k: int| (controllers[k].cid as int, k, 0))
}

/// The report line of controller `i`.
pub open spec fn line_of(controllers: Seq<Controller>, i: int) -> int {
    key_rank(line_keys(controllers), i) as int
}

/// In month `m`, more minutes come first; equal minutes keep the report's
/// order.
pub open spec fn month_keys(
    controllers: Seq<Controller>,
    activity: Seq<Activity>,
    months: Seq<String>,
    m: int,
) -> Seq<(int, int, int)> {
    Seq::new(
        controllers.len(),
        |k: int| (-(month_minutes(controllers, activity, months, k, m) as int), controllers[k].cid as int, k),
    )
}

/// Controller `i`'s place among the top three of month `m`, if it is among
/// them.
pub open spec fn month_position(
    controllers: Seq<Controller>,
    activity: Seq<Activity>,
    months: Seq<String>,
    i: int,
    m: int,
) -> Option<u8> {
    let r = key_rank(month_keys(controllers, activity, months, m), i);
    if r < 3 {
        Some(r as u8)
    } else {
        None
    }
}

/// The displayed name: first and last name.
pub open spec fn full_name(c: Controller) -> Seq<char> {
    c.first_name@ + " "@ + c.last_name@
}

/// Operating initials, or nothing.
pub open spec fn initials_or_empty(c: Controller) -> Seq<char> {
    match c.operating_initials {
        Some(s) => s@,
        None => Seq::empty(),
    }
}

/// Controller `i`'s monthly totals fit in 32 bits, and so does its total
/// over the last three months.
pub open spec fn line_totals_fit(
    controllers: Seq<Controller>,
    activity: Seq<Activity>,
    months: Seq<String>,
    i: int,
) -> bool {
    &&& forall|m: int|
        0 <= m < 5 ==> #[trigger] month_minutes(controllers, activity, months, i, m) <= u32::MAX
    &&& month_minutes(controllers, activity, months, i, 0) + month_minutes(
        controllers,
        activity,
        months,
        i,
        1,
    ) + month_minutes(controllers, activity, months, i, 2) <= u32::MAX
}

/// Every controller's totals fit in 32 bits.
pub open spec fn activity_totals_fit(
    controllers: Seq<Controller>,
    activity: Seq<Activity>,
    months: Seq<String>,
) -> bool {
    forall|i: int|
        0 <= i < controllers.len() ==> #[trigger] line_totals_fit(controllers, activity, months, i)
}

/// Line `line` of the report is exactly what controller `i`'s activity
/// gives.
pub open spec fn line_matches(
    line: ControllerActivity,
    controllers: Seq<Controller>,
    activity: Seq<Activity>,
    months: Seq<String>,
    i: int,
) -> bool {
    let c = controllers[i];
    &&& line.name@ == full_name(c)
    &&& line.ois@ == initials_or_empty(c)
    &&& line.cid == c.cid
    &&& line.loa_until == c.loa_until
    &&& line.rating == c.rating
    &&& line.months@.len() == 5
    &&& forall|m: int|
        0 <= m < 5 ==> {
            &&& (#[trigger] line.months@[m]).value == month_minutes(
                controllers,
                activity,
                months,
                i,
                m,
            )
            &&& line.months@[m].position == month_position(controllers, activity, months, i, m)
        }
    &&& line.violation == (month_minutes(controllers, activity, months, i, 0) + month_minutes(
        controllers,
        activity,
        months,
        i,
        1,
    ) + month_minutes(controllers, activity, months, i, 2) < required_quarter_minutes())
}

/// Each controller gets its own line of the report, and the lines go by
/// CID: a controller with a smaller CID comes first.
pub proof fn lemma_report_lines(controllers: Seq<Controller>, i: int, k: int)
    requires
        0 <= i < controllers.len(),
        0 <= k < controllers.len(),
    ensures
        0 <= line_of(controllers, i) < controllers.len(),
        i != k ==> line_of(controllers, i) != line_of(controllers, k),
        controllers[i].cid < controllers[k].cid ==> line_of(controllers, i) < line_of(
            controllers,
            k,
        ),
{
    let keys = line_keys(controllers);
    lemma_rank_bound(keys, i, controllers.len() as int);
    if i != k {
        assert(keys[i] != keys[k]);
        lemma_rank_injective(keys, i, k);
    }
    if controllers[i].cid < controllers[k].cid {
        lemma_rank_increasing(keys, i, k, controllers.len() as int);
    }
}

/// Every line of the report is some controller's.
pub proof fn lemma_report_lines_onto(controllers: Seq<Controller>, k: int)
    requires
        0 <= k < controllers.len(),
    ensures
        exists|i: int| 0 <= i < controllers.len() && line_of(controllers, i) == k,
{
    let n = controllers.len() as int;
    let lines = vstd::set_lib::set_int_range(0, n);
    vstd::set_lib::lemma_int_range(0, n);
    let f = |i: int| line_of(controllers, i);
    assert(vstd::relations::injective_on(f, lines)) by {
        assert forall|a: int, b: int|
            lines.contains(a) && lines.contains(b) && #[trigger] f(a) == #[trigger] f(b) implies a
            == b by {
            lemma_report_lines(controllers, a, b);
        }
    }
    let taken = lines.map(f);
    vstd::set_lib::lemma_map_size(lines, taken, f);
    assert(taken.subset_of(lines)) by {
        assert forall|p: int| taken.contains(p) implies lines.contains(p) by {
            let i = choose|i: int| lines.contains(i) && f(i) == p;
            lemma_report_lines(controllers, i, i);
        }
    }
    vstd::set_lib::lemma_subset_equality(taken, lines);
    assert(taken.contains(k));
    let i = choose|i: int| lines.contains(i) && f(i) == k;
    assert(0 <= i < n && line_of(controllers, i) == k);
}

/// No two controllers share a place among a month's top three, and a
/// controller with more minutes in the month than a placed one is placed
/// ahead of it.
pub proof fn lemma_month_top_three(
    controllers: Seq<Controller>,
    activity: Seq<Activity>,
    months: Seq<String>,
    m: int,
    i: int,
    k: int,
)
    requires
        0 <= i < controllers.len(),
        0 <= k < controllers.len(),
    ensures
        i != k && month_position(controllers, activity, months, i, m) is Some
            ==> month_position(controllers, activity, months, i, m) != month_position(
            controllers,
            activity,
            months,
            k,
            m,
        ),
        (month_minutes(controllers, activity, months, k, m) > month_minutes(
            controllers,
            activity,
            months,
            i,
            m,
        ) && month_position(controllers, activity, months, i, m) is Some) ==> (month_position(
            controllers,
            activity,
            months,
            k,
            m,
        ) is Some && month_position(controllers, activity, months, k, m)->0 < month_position(
            controllers,
            activity,
            months,
            i,
            m,
        )->0),
{
    let keys = month_keys(controllers, activity, months, m);
    if i != k {
        assert(keys[i] != keys[k]);
        lemma_rank_injective(keys, i, k);
    }
    if month_minutes(controllers, activity, months, k, m) > month_minutes(
        controllers,
        activity,
        months,
        i,
        m,
    ) {
        lemma_rank_increasing(keys, k, i, controllers.len() as int);
    }
}

/// A sum of recorded minutes is at least each of its partial sums.
proof fn lemma_minutes_prefix(activity: Seq<Activity>, cid: u32, month: Seq<char>, j: int)
    requires
        0 <= j <= activity.len(),
    ensures
        minutes_in_month(activity.take(j), cid, month) <= minutes_in_month(activity, cid, month),
    decreases activity.len() - j,
{
    if j < activity.len() {
        lemma_minutes_prefix(activity, cid, month, j + 1);
        assert(activity.take(j + 1).drop_last() =~= activity.take(j));
    } else {
        assert(activity.take(j) =~= activity);
    }
}

/// The recorded minutes of a controller in a month.
fn minutes_exec(activity: &Vec<Activity>, cid: u32, month: &Vec<char>) -> (total: u32)
    requires
        minutes_in_month(activity@, cid, month@) <= u32::MAX,
    ensures
        total == minutes_in_month(activity@, cid, month@),
{
    let mut total: u32 = 0;
    let mut j: usize = 0;
    assert(activity@.take(0) =~= Seq::<Activity>::empty());
    while j < activity.len()
        invariant
            j <= activity.len(),
            minutes_in_month(activity@, cid, month@) <= u32::MAX,
            total == minutes_in_month(activity@.take(j as int), cid, month@),
        decreases activity.len() - j,
    {
        proof {
            lemma_minutes_prefix(activity@, cid, month@, j + 1);
            assert(activity@.take(j + 1).drop_last() =~= activity@.take(j as int));
        }
        let a = &activity[j];
        if a.cid == cid {
            let m = chars_of(a.month.as_str());
            if chars_eq(&m, month) {
                total = total + a.minutes;
            }
        }
        j = j + 1;
    }
    assert(activity@.take(activity.len() as int) =~= activity@);
    total
}

/// The ordering keys of the report lines.
pub(crate) fn line_keys_exec(controllers: &Vec<Controller>) -> (keys: Vec<(i64, i64, i64)>)
    requires
        controllers.len() < 0x8000_0000,
    ensures
        int_keys(keys@) == line_keys(controllers@),
{
    let mut keys: Vec<(i64, i64, i64)> = Vec::new();
    let mut k: usize = 0;
    while k < controllers.len()
        invariant
            k <= controllers.len(),
            controllers.len() < 0x8000_0000,
            int_keys(keys@) == line_keys(controllers@).take(k as int),
        decreases controllers.len() - k,
    {
        let ghost before = keys@;
        keys.push((controllers[k].cid as i64, k as i64, 0));
        assert(keys@ == before.push((controllers@[k as int].cid as i64, k as i64, 0i64)));
        assert(int_keys(keys@) =~= int_keys(before).push((controllers@[k as int].cid as int, k as int, 0int)));
        assert(int_keys(keys@) =~= line_keys(controllers@).take(k + 1));
        k = k + 1;
    }
    assert(line_keys(controllers@).take(controllers.len() as int) =~= line_keys(controllers@));
    keys
}

/// The ranking keys of one month.
fn month_keys_exec(controllers: &Vec<Controller>, values: &Vec<u32>) -> (keys: Vec<
    (i64, i64, i64),
>)
    requires
        controllers.len() < 0x8000_0000,
        values.len() == controllers.len(),
    ensures
        int_keys(keys@) == Seq::new(
            controllers.len() as nat,
            |k: int| (-(values@[k] as int), controllers@[k].cid as int, k),
        ),
{
    let ghost target = Seq::new(
        controllers.len() as nat,
        |k: int| (-(values@[k] as int), controllers@[k].cid as int, k),
    );
    let mut keys: Vec<(i64, i64, i64)> = Vec::new();
    let mut k: usize = 0;
    while k < controllers.len()
        invariant
            k <= controllers.len(),
            controllers.len() < 0x8000_0000,
            values.len() == controllers.len(),
            target == Seq::new(
                controllers.len() as nat,
                |k: int| (-(values@[k] as int), controllers@[k].cid as int, k),
            ),
            int_keys(keys@) == target.take(k as int),
        decreases controllers.len() - k,
    {
        let ghost before = keys@;
        keys.push((-(values[k] as i64), controllers[k].cid as i64, k as i64));
        assert(int_keys(keys@) =~= int_keys(before).push((-(values@[k as int] as int), controllers@[k as int].cid as int, k as int)));
        assert(int_keys(keys@) =~= target.take(k + 1));
        k = k + 1;
    }
    assert(target.take(controllers.len() as int) =~= target);
    keys
}

/// View the facility's recent controlling activity.
///
/// `months` are the labels (`YYYY-MM`) of the current month and the four
/// before it, newest first. Controller `i` of the input is on line
/// `line_of(controllers, i)`: lines go by CID, then by input order. A
/// controller is in violation when it has fewer than 180 minutes over the
/// last three months; the top three of each month (more minutes first,
/// then line order) get their place.
pub fn activity_report(
    controllers: &Vec<Controller>,
    activity: &Vec<Activity>,
    months: &[String; 5],
) -> (report: Vec<ControllerActivity>)
    requires
        controllers.len() < 0x8000_0000,
        activity_totals_fit(controllers@, activity@, months@),
    ensures
        report@.len() == controllers@.len(),
        forall|i: int|
            0 <= i < controllers@.len() ==> line_matches(
                #[trigger] report@[line_of(controllers@, i)],
                controllers@,
                activity@,
                months@,
                i,
            ),
{
    let n = controllers.len();
    let ghost cs = controllers@;
    let ghost acts = activity@;
    let ghost ms = months@;

    // month totals per controller: values[m][i]
    let mut values: Vec<Vec<u32>> = Vec::new();
    let mut m: usize = 0;
    while m < 5
        invariant
            m <= 5,
            n == controllers.len(),
            cs == controllers@,
            acts == activity@,
            ms == months@,
            activity_totals_fit(cs, acts, ms),
            values@.len() == m,
            forall|mm: int, i: int|
                0 <= mm < m && 0 <= i < n ==> #[trigger] values@[mm]@[i] == month_minutes(
                    cs,
                    acts,
                    ms,
                    i,
                    mm,
                ),
            forall|mm: int| 0 <= mm < m ==> (#[trigger] values@[mm])@.len() == n,
        decreases 5 - m,
    {
        let month = chars_of(months[m].as_str());
        let mut column: Vec<u32> = Vec::new();
        let mut i: usize = 0;
        while i < n
            invariant
                i <= n,
                m < 5,
                n == controllers.len(),
                cs == controllers@,
                acts == activity@,
                ms == months@,
                month@ == ms[m as int]@,
                activity_totals_fit(cs, acts, ms),
                column@.len() == i,
                forall|k: int|
                    0 <= k < i ==> #[trigger] column@[k] == month_minutes(
                        cs,
                        acts,
                        ms,
                        k,
                        m as int,
                    ),
            decreases n - i,
        {
            assert(line_totals_fit(cs, acts, ms, i as int));
            assert(month_minutes(cs, acts, ms, i as int, m as int) <= u32::MAX);
            let total = minutes_exec(activity, controllers[i].cid, &month);
            column.push(total);
            i = i + 1;
        }
        values.push(column);
        m = m + 1;
    }

    // line and month rankings
    let order_keys = line_keys_exec(controllers);
    let mut month_key_sets: Vec<Vec<(i64, i64, i64)>> = Vec::new();
    let mut m: usize = 0;
    while m < 5
        invariant
            m <= 5,
            n == controllers.len(),
            n < 0x8000_0000,
            cs == controllers@,
            acts == activity@,
            ms == months@,
            values@.len() == 5,
            forall|mm: int, i: int|
                0 <= mm < 5 && 0 <= i < n ==> #[trigger] values@[mm]@[i] == month_minutes(
                    cs,
                    acts,
                    ms,
                    i,
                    mm,
                ),
            forall|mm: int| 0 <= mm < 5 ==> (#[trigger] values@[mm])@.len() == n,
            month_key_sets@.len() == m,
            forall|mm: int|
                0 <= mm < m ==> int_keys((#[trigger] month_key_sets@[mm])@) == month_keys(
                    cs,
                    acts,
                    ms,
                    mm,
                ),
            forall|mm: int| 0 <= mm < m ==> (#[trigger] month_key_sets@[mm])@.len() == n,
        decreases 5 - m,
    {
        let keys = month_keys_exec(controllers, &values[m]);
        assert(int_keys(keys@) =~= month_keys(cs, acts, ms, m as int));
        month_key_sets.push(keys);
        m = m + 1;
    }

    // the lines, placed by their rank
    let mut report: Vec<ControllerActivity> = Vec::new();
    let mut k: usize = 0;
    while k < n
        invariant
            k <= n,
            report@.len() == k,
        decreases n - k,
    {
        report.push(
            ControllerActivity {
                name: String::new(),
                ois: String::new(),
                cid: 0,
                loa_until: None,
                rating: 0,
                months: Vec::new(),
                violation: false,
            },
        );
        k = k + 1;
    }

    assert(int_keys(order_keys@).len() == order_keys@.len());
    let mut i: usize = 0;
    while i < n
        invariant
            i <= n,
            n == controllers.len(),
            n < 0x8000_0000,
            cs == controllers@,
            acts == activity@,
            ms == months@,
            report@.len() == n,
            int_keys(order_keys@) == line_keys(cs),
            order_keys@.len() == n,
            activity_totals_fit(cs, acts, ms),
            values@.len() == 5,
            forall|mm: int, j: int|
                0 <= mm < 5 && 0 <= j < n ==> #[trigger] values@[mm]@[j] == month_minutes(
                    cs,
                    acts,
                    ms,
                    j,
                    mm,
                ),
            forall|mm: int| 0 <= mm < 5 ==> (#[trigger] values@[mm])@.len() == n,
            month_key_sets@.len() == 5,
            forall|mm: int|
                0 <= mm < 5 ==> int_keys((#[trigger] month_key_sets@[mm])@) == month_keys(
                    cs,
                    acts,
                    ms,
                    mm,
                ),
            forall|mm: int| 0 <= mm < 5 ==> (#[trigger] month_key_sets@[mm])@.len() == n,
            forall|j: int|
                0 <= j < i ==> line_matches(
                    #[trigger] report@[line_of(cs, j)],
                    cs,
                    acts,
                    ms,
                    j,
                ),
        decreases n - i,
    {
        let c = &controllers[i];
        let mut name = chars_of(c.first_name.as_str());
        append_str(&mut name, " ");
        let last = chars_of(c.last_name.as_str());
        append_chars(&mut name, &last);
        let ois = match &c.operating_initials {
            Some(s) => s.clone(),
            None => String::new(),
        };

        let mut month_list: Vec<ActivityMonth> = Vec::new();
        let mut mm: usize = 0;
        while mm < 5
            invariant
                mm <= 5,
                i < n,
                n == controllers.len(),
                cs == controllers@,
                acts == activity@,
                ms == months@,
                values@.len() == 5,
                forall|m2: int, j: int|
                    0 <= m2 < 5 && 0 <= j < n ==> #[trigger] values@[m2]@[j] == month_minutes(
                        cs,
                        acts,
                        ms,
                        j,
                        m2,
                    ),
                forall|m2: int| 0 <= m2 < 5 ==> (#[trigger] values@[m2])@.len() == n,
                month_key_sets@.len() == 5,
                forall|m2: int|
                    0 <= m2 < 5 ==> int_keys((#[trigger] month_key_sets@[m2])@) == month_keys(
                        cs,
                        acts,
                        ms,
                        m2,
                    ),
                forall|m2: int| 0 <= m2 < 5 ==> (#[trigger] month_key_sets@[m2])@.len() == n,
                month_list@.len() == mm,
                forall|m2: int|
                    0 <= m2 < mm ==> {
                        &&& (#[trigger] month_list@[m2]).value == month_minutes(
                            cs,
                            acts,
                            ms,
                            i as int,
                            m2,
                        )
                        &&& month_list@[m2].position == month_position(
                            cs,
                            acts,
                            ms,
                            i as int,
                            m2,
                        )
                    },
            decreases 5 - mm,
        {
            let r = rank_of(&month_key_sets[mm], i);
            let position: Option<u8> = if r < 3 {
                Some(r as u8)
            } else {
                None
            };
            month_list.push(ActivityMonth { value: values[mm][i], position });
            mm = mm + 1;
        }
        assert(line_totals_fit(cs, acts, ms, i as int));
        assert(month_minutes(cs, acts, ms, i as int, 0) + month_minutes(cs, acts, ms, i as int, 1)
            + month_minutes(cs, acts, ms, i as int, 2) <= u32::MAX);
        let quarter: u32 = values[0][i] + values[1][i] + values[2][i];
        let line = ControllerActivity {
            name: string_from_chars(&name),
            ois,
            cid: c.cid,
            loa_until: c.loa_until,
            rating: c.rating,
            months: month_list,
            violation: quarter < 180,
        };
        assert(name@ == full_name(cs[i as int]));
        assert(line.months@ == month_list@);
        assert(line_matches(line, cs, acts, ms, i as int));
        let slot = rank_of(&order_keys, i);
        assert(slot == line_of(cs, i as int));
        proof {
            assert forall|j: int| 0 <= j < i implies line_of(cs, j) != slot as int && line_of(cs, j)
                < n by {
                assert(line_keys(cs)[j] != line_keys(cs)[i as int]);
                lemma_rank_injective(line_keys(cs), i as int, j);
                lemma_rank_bound(line_keys(cs), j, n as int);
            }
        }
        let ghost before = report@;
        report[slot] = line;
        assert(forall|j: int| 0 <= j < i ==> report@[line_of(cs, j)] == before[line_of(cs, j)]);
        i = i + 1;
    }
    report
}

/// The string's first `bytes` UTF-8 bytes end after its `k` first
/// characters.
pub open spec fn byte_boundary(s: Seq<char>, k: int, bytes: nat) -> bool {
    0 <= k <= s.len() && utf8_len(s.take(k)) == bytes
}

/// The month (`YYYY-MM`) of a session start (`YYYY-MM-DD...`): its first
/// seven bytes, when the seventh byte ends a character.
pub fn session_month(start: &str) -> (month: Option<String>)
    ensures
        month is Some <==> exists|k: int| byte_boundary(start@, k, 7),
        month matches Some(m) ==> exists|k: int| byte_boundary(start@, k, 7) && m@ == start@.take(k),
{
    let chars = chars_of(start);
    let mut total: u64 = 0;
    let mut i: usize = 0;
    while i < chars.len() && total < 7
        invariant
            i <= chars.len(),
            chars@ == start@,
            total == utf8_len(start@.take(i as int)),
            total <= 10,
            i > 0 ==> utf8_len(start@.take(i - 1)) < 7,
        decreases chars.len() - i,
    {
        let c = chars[i];
        let w: u64 = if (c as u32) < 0x80 {
            1
        } else if (c as u32) < 0x800 {
            2
        } else if (c as u32) < 0x10000 {
            3
        } else {
            4
        };
        assert(start@.take(i + 1).drop_last() =~= start@.take(i as int));
        total = total + w;
        i = i + 1;
    }
    if total == 7 {
        let mut prefix: Vec<char> = Vec::new();
        let mut j: usize = 0;
        while j < i
            invariant
                j <= i,
                i <= chars.len(),
                prefix@ == chars@.take(j as int),
            decreases i - j,
        {
            prefix.push(chars[j]);
            assert(prefix@ =~= chars@.take(j + 1));
            j = j + 1;
        }
        assert(prefix@ =~= start@.take(i as int));
        assert(byte_boundary(start@, i as int, 7));
        Some(string_from_chars(&prefix))
    } else {
        proof {
            assert forall|k: int| !byte_boundary(start@, k, 7) by {
                if 0 <= k <= start@.len() && utf8_len(start@.take(k)) == 7 {
                    if k < i - 1 {
                        lemma_utf8_len_increasing(start@, k, i - 1);
                    } else if k > i {
                        lemma_utf8_len_increasing(start@, i as int, k);
                    }
                }
            }
        }
        None
    }
}

} // verus!
