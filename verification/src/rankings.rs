//! Leaderboard reports: one line per conversation with its aggregate
//! value, and a winner line naming the conversation with the highest
//! value. A missing aggregate value counts as zero. The winner is the
//! first conversation whose value strictly exceeds every earlier one, so
//! ties keep the earlier conversation.
use crate::time::{spec_hms_text, total_seconds_to_hms};
use vstd::prelude::*;

verus! {

/// An aggregate value, with a missing value counting as zero.
pub open spec fn spec_val(v: Option<i64>) -> i64 {
    match v {
        Some(x) => x,
        None => 0,
    }
}

/// Index of the winning row: the first row whose value strictly exceeds
/// every earlier row's value; `-1` when there are no rows.
pub open spec fn spec_winner_index(rows: Seq<(i64, Option<i64>)>) -> int
    decreases rows.len(),
{
    if rows.len() == 0 {
        -1
    } else {
        let p = spec_winner_index(rows.drop_last());
        if p == -1 {
            rows.len() - 1
        } else if spec_val(rows.last().1) > spec_val(rows[p].1) {
            rows.len() - 1
        } else {
            p
        }
    }
}

/// The winning conversation and its value, if there are any rows.
pub open spec fn spec_winner(rows: Seq<(i64, Option<i64>)>) -> Option<(i64, i64)> {
    if rows.len() == 0 {
        None
    } else {
        Some((rows[spec_winner_index(rows)].0, spec_val(rows[spec_winner_index(rows)].1)))
    }
}

proof fn lemma_winner_index_in_range(rows: Seq<(i64, Option<i64>)>)
    requires
        rows.len() > 0,
    ensures
        0 <= spec_winner_index(rows) < rows.len(),
    decreases rows.len(),
{
    if rows.drop_last().len() > 0 {
        lemma_winner_index_in_range(rows.drop_last());
    } else {
        assert(spec_winner_index(rows.drop_last()) == -1);
    }
}

/// The conversation with the highest aggregate value and that value; on a
/// tie, the earlier row wins.
pub fn winner(rows: &Vec<(i64, Option<i64>)>) -> (r: Option<(i64, i64)>)
    ensures
        r == spec_winner(rows@),
{
    let n = rows.len();
    let mut best: Option<(i64, i64)> = None;
    let mut i: usize = 0;
    while i < n
        invariant
            n == rows@.len(),
            i <= n,
            best == spec_winner(rows@.take(i as int)),
            i > 0 ==> (best matches Some(b)) && 0 <= spec_winner_index(rows@.take(i as int)) < i,
        decreases n - i,
    {
        let (chat, v) = rows[i];
        let value = match v {
            Some(x) => x,
            None => 0,
        };
        proof {
            let pre = rows@.take(i as int);
            let taken = rows@.take(i as int + 1);
            assert(taken.drop_last() =~= pre);
            assert(taken.last() == rows@[i as int]);
            if i == 0 {
                assert(pre.len() == 0);
                assert(spec_winner_index(pre) == -1);
            } else {
                lemma_winner_index_in_range(pre);
                let pp = spec_winner_index(pre);
                assert(taken[pp] == pre[pp]);
            }
        }
        match best {
            None => {
                best = Some((chat, value));
            },
            Some((_, best_value)) => {
                if value > best_value {
                    best = Some((chat, value));
                }
            },
        }
        i = i + 1;
    }
    proof {
        assert(rows@.take(n as int) =~= rows@);
    }
    best
}

/// When one row's value strictly exceeds every other row's value, that
/// row wins — wherever it stands in the order of the rows.
pub proof fn lemma_winner_unique_max(rows: Seq<(i64, Option<i64>)>, k: int)
    requires
        0 <= k < rows.len(),
        forall|i: int|
            0 <= i < rows.len() && i != k ==> spec_val((#[trigger] rows[i]).1) < spec_val(
                rows[k].1,
            ),
    ensures
        spec_winner(rows) == Some((rows[k].0, spec_val(rows[k].1))),
    decreases rows.len(),
{
    lemma_winner_index_in_range(rows);
    let last = rows.len() - 1;
    if k == last {
        if rows.drop_last().len() > 0 {
            lemma_winner_index_in_range(rows.drop_last());
            let p = spec_winner_index(rows.drop_last());
            assert(rows.drop_last()[p] == rows[p]);
        }
    } else {
        assert forall|i: int|
            0 <= i < rows.drop_last().len() && i != k implies spec_val(
            (#[trigger] rows.drop_last()[i]).1,
        ) < spec_val(rows.drop_last()[k].1) by {
            assert(rows.drop_last()[i] == rows[i]);
        }
        lemma_winner_unique_max(rows.drop_last(), k);
        let p = spec_winner_index(rows.drop_last());
        lemma_winner_index_in_range(rows.drop_last());
        assert(rows.drop_last()[p] == rows[p]);
        assert(spec_val(rows.last().1) < spec_val(rows[k].1));
        assert(rows[p].0 == rows.drop_last()[p].0);
    }
}

/// One leaderboard line: the conversation's name, the window's label, and
/// the formatted value.
pub open spec fn spec_report_line(name: Seq<char>, label: Seq<char>, v: int) -> Seq<char> {
    ("Чат: ")@ + name + (", ")@ + label + (": \n<b>")@ + spec_hms_text(v) + ("</b>")@
}

/// The closing winner line: the winning conversation's name and value.
pub open spec fn spec_winner_line(
    wlabel: Seq<char>,
    middle: Seq<char>,
    name: Seq<char>,
    v: int,
) -> Seq<char> {
    ("\n🏆 <b>")@ + wlabel + (":</b> ")@ + name + (" ")@ + middle + (": <b>")@ + spec_hms_text(v)
        + ("</b> 🏆")@
}

/// All lines of a report: one line per row, then the winner line when
/// there are any rows.
pub open spec fn spec_report_lines(
    rows: Seq<(i64, Option<i64>)>,
    names: Seq<Seq<char>>,
    label: Seq<char>,
    wlabel: Seq<char>,
    middle: Seq<char>,
) -> Seq<Seq<char>> {
    let body = Seq::new(rows.len(), |i: int| spec_report_line(names[i], label, spec_val(rows[i].1) as int));
    if rows.len() == 0 {
        body
    } else {
        body + seq![
            spec_winner_line(
                wlabel,
                middle,
                names[spec_winner_index(rows)],
                spec_val(rows[spec_winner_index(rows)].1) as int,
            ),
        ]
    }
}

fn build_report(
    rows: &Vec<(i64, Option<i64>)>,
    names: &Vec<String>,
    label: &str,
    wlabel: &str,
    middle: &str,
) -> (r: Vec<String>)
    requires
        rows@.len() == names@.len(),
        forall|i: int| 0 <= i < rows@.len() ==> spec_val((#[trigger] rows@[i]).1) >= 0,
    ensures
        r.deep_view() == spec_report_lines(rows@, names.deep_view(), label@, wlabel@, middle@),
{
    let n = rows.len();
    let mut out: Vec<String> = Vec::new();
    let mut i: usize = 0;
    let mut widx: usize = 0;
    let mut best: i64 = 0;
    while i < n
        invariant
            n == rows@.len(),
            n == names@.len(),
            forall|q: int| 0 <= q < rows@.len() ==> spec_val((#[trigger] rows@[q]).1) >= 0,
            i <= n,
            out@.len() == i,
            forall|q: int|
                0 <= q < i ==> (#[trigger] out@[q])@ == spec_report_line(
                    names@[q]@,
                    label@,
                    spec_val(rows@[q].1) as int,
                ),
            i > 0 ==> widx < i && widx as int == spec_winner_index(rows@.take(i as int)) && best
                == spec_val(rows@[widx as int].1),
        decreases n - i,
    {
        let (_, v) = rows[i];
        let value = match v {
            Some(x) => x,
            None => 0,
        };
        let mut line = String::from_str("Чат: ");
        line.append(names[i].as_str());
        line.append(", ");
        line.append(label);
        line.append(": \n<b>");
        let hms = total_seconds_to_hms(value);
        line.append(hms.as_str());
        line.append("</b>");
        out.push(line);
        proof {
            let pre = rows@.take(i as int);
            let taken = rows@.take(i as int + 1);
            assert(taken.drop_last() =~= pre);
            assert(taken.last() == rows@[i as int]);
            if i == 0 {
                assert(pre.len() == 0);
                assert(spec_winner_index(pre) == -1);
            } else {
                lemma_winner_index_in_range(pre);
                assert(pre[widx as int] == rows@[widx as int]);
            }
        }
        if i == 0 {
            widx = 0;
            best = value;
        } else if value > best {
            widx = i;
            best = value;
        }
        proof {
            let taken = rows@.take(i as int + 1);
            assert(taken[widx as int] == rows@[widx as int]);
        }
        i = i + 1;
    }
    proof {
        assert(rows@.take(n as int) =~= rows@);
    }
    if n > 0 {
        let mut wline = String::from_str("\n🏆 <b>");
        wline.append(wlabel);
        wline.append(":</b> ");
        wline.append(names[widx].as_str());
        wline.append(" ");
        wline.append(middle);
        wline.append(": <b>");
        let hms = total_seconds_to_hms(best);
        wline.append(hms.as_str());
        wline.append("</b> 🏆");
        out.push(wline);
    }
    proof {
        assert(out.deep_view() =~= spec_report_lines(
            rows@,
            names.deep_view(),
            label@,
            wlabel@,
            middle@,
        ));
    }
    out
}

/// Leaderboard of per-day averages over every stored day.
pub fn rankings(rows: &Vec<(i64, Option<i64>)>, names: &Vec<String>) -> (r: Vec<String>)
    requires
        rows@.len() == names@.len(),
        forall|i: int| 0 <= i < rows@.len() ==> spec_val((#[trigger] rows@[i]).1) >= 0,
    ensures
        r.deep_view() == spec_report_lines(
            rows@,
            names.deep_view(),
            ("Среднее стояние")@,
            ("Победитель")@,
            ("со средним стоянием")@,
        ),
{
    build_report(rows, names, "Среднее стояние", "Победитель", "со средним стоянием")
}

/// Leaderboard of per-day averages since the start of the month.
pub fn rankings_month(rows: &Vec<(i64, Option<i64>)>, names: &Vec<String>) -> (r: Vec<String>)
    requires
        rows@.len() == names@.len(),
        forall|i: int| 0 <= i < rows@.len() ==> spec_val((#[trigger] rows@[i]).1) >= 0,
    ensures
        r.deep_view() == spec_report_lines(
            rows@,
            names.deep_view(),
            ("Среднее стояние в месяце")@,
            ("Победитель месяца")@,
            ("со средним стоянием")@,
        ),
{
    build_report(rows, names, "Среднее стояние в месяце", "Победитель месяца", "со средним стоянием")
}

/// Leaderboard of per-day averages since the start of the week.
pub fn rankings_week(rows: &Vec<(i64, Option<i64>)>, names: &Vec<String>) -> (r: Vec<String>)
    requires
        rows@.len() == names@.len(),
        forall|i: int| 0 <= i < rows@.len() ==> spec_val((#[trigger] rows@[i]).1) >= 0,
    ensures
        r.deep_view() == spec_report_lines(
            rows@,
            names.deep_view(),
            ("Среднее стояние в неделе")@,
            ("Победитель недели")@,
            ("со средним стоянием")@,
        ),
{
    build_report(rows, names, "Среднее стояние в неделе", "Победитель недели", "со средним стоянием")
}

/// Leaderboard of per-day averages since the start of the year.
pub fn rankings_year(rows: &Vec<(i64, Option<i64>)>, names: &Vec<String>) -> (r: Vec<String>)
    requires
        rows@.len() == names@.len(),
        forall|i: int| 0 <= i < rows@.len() ==> spec_val((#[trigger] rows@[i]).1) >= 0,
    ensures
        r.deep_view() == spec_report_lines(
            rows@,
            names.deep_view(),
            ("Среднее стояние в году")@,
            ("Победитель года")@,
            ("со средним стоянием")@,
        ),
{
    build_report(rows, names, "Среднее стояние в году", "Победитель года", "со средним стоянием")
}

/// Leaderboard of total seconds over every stored day.
pub fn total(rows: &Vec<(i64, Option<i64>)>, names: &Vec<String>) -> (r: Vec<String>)
    requires
        rows@.len() == names@.len(),
        forall|i: int| 0 <= i < rows@.len() ==> spec_val((#[trigger] rows@[i]).1) >= 0,
    ensures
        r.deep_view() == spec_report_lines(
            rows@,
            names.deep_view(),
            ("Всего постояли")@,
            ("Победитель")@,
            ("с общим стоянием")@,
        ),
{
    build_report(rows, names, "Всего постояли", "Победитель", "с общим стоянием")
}

/// Leaderboard of total seconds since the start of the month.
pub fn total_month(rows: &Vec<(i64, Option<i64>)>, names: &Vec<String>) -> (r: Vec<String>)
    requires
        rows@.len() == names@.len(),
        forall|i: int| 0 <= i < rows@.len() ==> spec_val((#[trigger] rows@[i]).1) >= 0,
    ensures
        r.deep_view() == spec_report_lines(
            rows@,
            names.deep_view(),
            ("Всего постояли в этом месяце")@,
            ("Победитель месяца")@,
            ("с общим стоянием")@,
        ),
{
    build_report(
        rows,
        names,
        "Всего постояли в этом месяце",
        "Победитель месяца",
        "с общим стоянием",
    )
}

/// Leaderboard of total seconds since the start of the week.
pub fn total_week(rows: &Vec<(i64, Option<i64>)>, names: &Vec<String>) -> (r: Vec<String>)
    requires
        rows@.len() == names@.len(),
        forall|i: int| 0 <= i < rows@.len() ==> spec_val((#[trigger] rows@[i]).1) >= 0,
    ensures
        r.deep_view() == spec_report_lines(
            rows@,
            names.deep_view(),
            ("Всего постояли на этой неделе")@,
            ("Победитель недели")@,
            ("с общим стоянием")@,
        ),
{
    build_report(
        rows,
        names,
        "Всего постояли на этой неделе",
        "Победитель недели",
        "с общим стоянием",
    )
}

/// Leaderboard of total seconds since the start of the year.
pub fn total_year(rows: &Vec<(i64, Option<i64>)>, names: &Vec<String>) -> (r: Vec<String>)
    requires
        rows@.len() == names@.len(),
        forall|i: int| 0 <= i < rows@.len() ==> spec_val((#[trigger] rows@[i]).1) >= 0,
    ensures
        r.deep_view() == spec_report_lines(
            rows@,
            names.deep_view(),
            ("Всего постояли в этом году")@,
            ("Победитель года")@,
            ("с общим стоянием")@,
        ),
{
    build_report(rows, names, "Всего постояли в этом году", "Победитель года", "с общим стоянием")
}

} // verus!
