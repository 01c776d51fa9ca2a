use standing_tracker::rankings::{rankings, total, total_month, winner};

#[test]
fn test_winner_independent_of_order() {
    // Conversation 2 with 600 beats conversation 1 with 200, whichever
    // order the rows come in.
    let rows = vec![(1i64, Some(200i64)), (2, Some(600))];
    assert_eq!(winner(&rows), Some((2, 600)));
    let rows = vec![(2i64, Some(600i64)), (1, Some(200))];
    assert_eq!(winner(&rows), Some((2, 600)));
}

#[test]
fn test_winner_tie_keeps_earlier() {
    let rows = vec![(7i64, Some(300i64)), (8, Some(300))];
    assert_eq!(winner(&rows), Some((7, 300)));
}

#[test]
fn test_winner_missing_value_counts_zero() {
    let rows = vec![(1i64, None), (2, Some(10))];
    assert_eq!(winner(&rows), Some((2, 10)));
    assert_eq!(winner(&Vec::new()), None);
}

#[test]
fn test_total_report_names_winner() {
    let rows = vec![(1i64, Some(200i64)), (2, Some(600))];
    let names = vec!["Alpha".to_string(), "Beta".to_string()];
    let lines = total(&rows, &names);
    assert_eq!(lines.len(), 3);
    assert_eq!(lines[0], "Чат: Alpha, Всего постояли: \n<b>0 часов 3 минут 20 секунд</b>");
    assert_eq!(lines[1], "Чат: Beta, Всего постояли: \n<b>0 часов 10 минут 0 секунд</b>");
    assert_eq!(
        lines[2],
        "\n🏆 <b>Победитель:</b> Beta с общим стоянием: <b>0 часов 10 минут 0 секунд</b> 🏆"
    );

    // Reversing the rows keeps the same winner.
    let rows = vec![(2i64, Some(600i64)), (1, Some(200))];
    let names = vec!["Beta".to_string(), "Alpha".to_string()];
    let lines = total(&rows, &names);
    assert_eq!(
        lines[2],
        "\n🏆 <b>Победитель:</b> Beta с общим стоянием: <b>0 часов 10 минут 0 секунд</b> 🏆"
    );
}

#[test]
fn test_rankings_report_format() {
    let rows = vec![(1i64, Some(100i64))];
    let names = vec!["Alpha".to_string()];
    let lines = rankings(&rows, &names);
    assert_eq!(lines.len(), 2);
    assert_eq!(lines[0], "Чат: Alpha, Среднее стояние: \n<b>0 часов 1 минут 40 секунд</b>");
    assert_eq!(
        lines[1],
        "\n🏆 <b>Победитель:</b> Alpha со средним стоянием: <b>0 часов 1 минут 40 секунд</b> 🏆"
    );
}

#[test]
fn test_month_report_labels() {
    let rows = vec![(1i64, Some(60i64))];
    let names = vec!["Alpha".to_string()];
    let lines = total_month(&rows, &names);
    assert_eq!(lines[0], "Чат: Alpha, Всего постояли в этом месяце: \n<b>0 часов 1 минут 0 секунд</b>");
    assert_eq!(
        lines[1],
        "\n🏆 <b>Победитель месяца:</b> Alpha с общим стоянием: <b>0 часов 1 минут 0 секунд</b> 🏆"
    );
}

#[test]
fn test_empty_report() {
    let lines = total(&Vec::new(), &Vec::new());
    assert!(lines.is_empty());
}
