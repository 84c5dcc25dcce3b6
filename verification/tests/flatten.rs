use to_delimited::flatten::{flatten_header, flatten_row};
use to_delimited::text::quote;
use to_delimited::{
    report_to_flat, response_to_delimited_reports, ColumnHeader, DateRangeValue, FlattenError,
    MetricHeader, MetricHeaderEntry, Report, ReportData, ReportResponse, ReportRow,
};

fn strings(items: &[&str]) -> Vec<String> {
    items.iter().map(|item| item.to_string()).collect()
}

fn header(dimensions: Option<&[&str]>, metrics: &[&str]) -> ColumnHeader {
    ColumnHeader {
        dimensions: dimensions.map(strings),
        metric_header: MetricHeader {
            metric_header_entries: metrics
                .iter()
                .map(|name| MetricHeaderEntry { name: name.to_string() })
                .collect(),
        },
    }
}

fn row(dimensions: Option<&[&str]>, groups: &[&[&str]]) -> ReportRow {
    ReportRow {
        dimensions: dimensions.map(strings),
        metrics: groups
            .iter()
            .map(|values| DateRangeValue { values: strings(values) })
            .collect(),
    }
}

fn report(column_header: ColumnHeader, rows: Option<Vec<ReportRow>>) -> Report {
    Report { column_header, data: ReportData { rows } }
}

fn sessions_report() -> Report {
    report(header(None, &["ga:sessions"]), Some(vec![row(None, &[&["44"]])]))
}

fn device_report() -> Report {
    report(
        header(Some(&["ga:deviceCategory"]), &["ga:sessions"]),
        Some(vec![
            row(Some(&["desktop"]), &[&["43"]]),
            row(Some(&["mobile"]), &[&["1"]]),
        ]),
    )
}

fn device_country_report() -> Report {
    report(
        header(Some(&["ga:deviceCategory", "ga:country"]), &["ga:sessions", "ga:bounces"]),
        Some(vec![
            row(Some(&["desktop", "Australia"]), &[&["1", "1"]]),
            row(Some(&["desktop", "France"]), &[&["39", "21"]]),
            row(Some(&["desktop", "United States"]), &[&["3", "1"]]),
            row(Some(&["mobile", "Brazil"]), &[&["1", "0"]]),
        ]),
    )
}

fn two_reports() -> ReportResponse {
    ReportResponse {
        reports: vec![
            report(
                header(Some(&["ga:deviceCategory"]), &["ga:sessions", "ga:bounces"]),
                Some(vec![
                    row(Some(&["desktop"]), &[&["25", "17"]]),
                    row(Some(&["mobile"]), &[&["2", "2"]]),
                ]),
            ),
            report(
                header(Some(&["ga:country"]), &["ga:sessions", "ga:bounces"]),
                Some(vec![
                    row(Some(&["Azerbaijan"]), &[&["1", "0"]]),
                    row(Some(&["France"]), &[&["18", "11"]]),
                    row(Some(&["Japan"]), &[&["4", "4"]]),
                    row(Some(&["Switzerland"]), &[&["1", "1"]]),
                    row(Some(&["United States"]), &[&["3", "3"]]),
                ]),
            ),
        ],
    }
}

#[test]
fn no_dimensions() {
    assert_eq!(
        report_to_flat(&sessions_report(), ","),
        Ok("\"ga:sessions\"\n44\n".to_string())
    )
}

#[test]
fn single_dimension_and_metric() {
    assert_eq!(
        report_to_flat(&device_report(), "|delimiter|"),
        Ok(concat_lines(&[
            "\"ga:deviceCategory\"|delimiter|\"ga:sessions\"",
            "\"desktop\"|delimiter|43",
            "\"mobile\"|delimiter|1",
        ]))
    )
}

#[test]
fn multiple_dimensions_and_metrics() {
    assert_eq!(
        report_to_flat(&device_country_report(), ","),
        Ok(concat_lines(&[
            "\"ga:deviceCategory\",\"ga:country\",\"ga:sessions\",\"ga:bounces\"",
            "\"desktop\",\"Australia\",1,1",
            "\"desktop\",\"France\",39,21",
            "\"desktop\",\"United States\",3,1",
            "\"mobile\",\"Brazil\",1,0",
        ]))
    )
}

#[test]
fn large_report() {
    let mut rows = Vec::new();
    for day in 0..5000 {
        let date = format!("2018{:04}", day);
        let sessions = format!("{}", day * 7);
        let bounces = format!("{}", day % 13);
        rows.push(row(
            Some(&[date.as_str(), "desktop", "France"]),
            &[&[sessions.as_str(), bounces.as_str()]],
        ));
    }
    let large = report(
        header(
            Some(&["ga:date", "ga:deviceCategory", "ga:country"]),
            &["ga:sessions", "ga:bounces"],
        ),
        Some(rows),
    );
    assert!(report_to_flat(&large, ",").unwrap().len() > 0)
}

#[test]
fn multiple_reports() {
    assert_eq!(
        response_to_delimited_reports(&two_reports(), ","),
        Ok(vec![
            concat_lines(&[
                "\"ga:deviceCategory\",\"ga:sessions\",\"ga:bounces\"",
                "\"desktop\",25,17",
                "\"mobile\",2,2",
            ]),
            concat_lines(&[
                "\"ga:country\",\"ga:sessions\",\"ga:bounces\"",
                "\"Azerbaijan\",1,0",
                "\"France\",18,11",
                "\"Japan\",4,4",
                "\"Switzerland\",1,1",
                "\"United States\",3,3",
            ]),
        ])
    )
}

fn concat_lines(lines: &[&str]) -> String {
    let mut text = String::new();
    for line in lines {
        text.push_str(line);
        text.push('\n');
    }
    text
}

#[test]
fn large_report_has_one_line_per_row_and_header() {
    let mut rows = Vec::new();
    for _ in 0..1000 {
        rows.push(row(Some(&["a"]), &[&["1"]]));
    }
    let text = report_to_flat(&report(header(Some(&["d"]), &["m"]), Some(rows)), ";").unwrap();
    assert_eq!(text.lines().count(), 1001);
    assert_eq!(text.len(), "\"d\";\"m\"\n".len() + 1000 * "\"a\";1\n".len());
}

#[test]
fn quote_wraps_in_double_quotes() {
    assert_eq!(quote("ga:sessions"), "\"ga:sessions\"");
    assert_eq!(quote(""), "\"\"");
}

#[test]
fn quote_does_not_escape_embedded_quotes() {
    assert_eq!(quote("say \"hi\""), "\"say \"hi\"\"");
    assert_eq!(quote("a,b"), "\"a,b\"");
}

#[test]
fn header_with_absent_dimensions_equals_header_with_empty_dimensions() {
    let absent = flatten_header(&header(None, &["m1", "m2"]), ",");
    let empty = flatten_header(&header(Some(&[]), &["m1", "m2"]), ",");
    assert_eq!(absent, "\"m1\",\"m2\"\n");
    assert_eq!(empty, absent);
}

#[test]
fn header_puts_dimensions_before_metrics() {
    assert_eq!(
        flatten_header(&header(Some(&["d1", "d2"]), &["m1"]), "\t"),
        "\"d1\"\t\"d2\"\t\"m1\"\n"
    );
}

#[test]
fn header_without_any_column_is_a_bare_newline() {
    assert_eq!(flatten_header(&header(None, &[]), ","), "\n");
}

#[test]
fn header_with_single_column_has_no_delimiter() {
    assert_eq!(flatten_header(&header(None, &["only"]), ","), "\"only\"\n");
    assert_eq!(flatten_header(&header(Some(&["only"]), &[]), ","), "\"only\"\n");
}

#[test]
fn row_without_dimension_sequence_has_no_leading_delimiter() {
    assert_eq!(flatten_row(&row(None, &[&["1", "2"]]), ","), "1,2\n");
}

#[test]
fn row_with_empty_dimension_sequence_keeps_its_delimiter() {
    assert_eq!(flatten_row(&row(Some(&[]), &[&["1", "2"]]), ","), ",1,2\n");
}

#[test]
fn row_with_dimensions_and_no_metric_value_ends_with_delimiter() {
    assert_eq!(flatten_row(&row(Some(&["a", "b"]), &[]), ","), "\"a\",\"b\",\n");
    assert_eq!(flatten_row(&row(Some(&["a"]), &[&[], &[]]), ","), "\"a\",\n");
}

#[test]
fn row_without_anything_is_a_bare_newline() {
    assert_eq!(flatten_row(&row(None, &[]), ","), "\n");
}

#[test]
fn row_flattens_date_ranges_in_group_order() {
    assert_eq!(
        flatten_row(&row(Some(&["desktop"]), &[&["1", "2"], &["3", "4"], &["5", "6"]]), ","),
        "\"desktop\",1,2,3,4,5,6\n"
    );
}

#[test]
fn row_field_count_is_dimensions_plus_all_metric_values() {
    let line = flatten_row(&row(Some(&["a", "b"]), &[&["1", "2", "3"], &["4", "5", "6"]]), ",");
    assert_eq!(line, "\"a\",\"b\",1,2,3,4,5,6\n");
    assert_eq!(line.trim_end_matches('\n').split(',').count(), 2 + 6);
}

#[test]
fn row_skips_empty_groups() {
    assert_eq!(flatten_row(&row(None, &[&[], &["7"], &[]]), ","), "7\n");
}

#[test]
fn metric_values_are_never_quoted_or_changed() {
    assert_eq!(
        flatten_row(&row(Some(&["x"]), &[&["0.50", " 7 ", "1e3", "\"q\""]]), ","),
        "\"x\",0.50, 7 ,1e3,\"q\"\n"
    );
}

#[test]
fn dimension_values_are_quoted_without_escaping() {
    assert_eq!(
        flatten_row(&row(Some(&["New York, NY", "5\" disk"]), &[&["1"]]), ","),
        "\"New York, NY\",\"5\" disk\",1\n"
    );
}

#[test]
fn multi_character_delimiter_is_written_whole() {
    assert_eq!(
        flatten_row(&row(Some(&["a", "b"]), &[&["1", "2"]]), " :: "),
        "\"a\" :: \"b\" :: 1 :: 2\n"
    );
}

#[test]
fn empty_delimiter_concatenates_fields() {
    assert_eq!(
        report_to_flat(&device_report(), ""),
        Ok("\"ga:deviceCategory\"\"ga:sessions\"\n\"desktop\"43\n\"mobile\"1\n".to_string())
    );
}

#[test]
fn non_ascii_text_is_kept() {
    let r = report(
        header(Some(&["país"]), &["sesiones"]),
        Some(vec![row(Some(&["España"]), &[&["٣"]])]),
    );
    assert_eq!(report_to_flat(&r, "·"), Ok("\"país\"·\"sesiones\"\n\"España\"·٣\n".to_string()));
}

#[test]
fn missing_rows_is_an_error() {
    let malformed = report(header(Some(&["d"]), &["m"]), None);
    assert_eq!(report_to_flat(&malformed, ","), Err(FlattenError::MissingRows));
}

#[test]
fn empty_rows_give_the_header_alone() {
    let empty = report(header(Some(&["d"]), &["m"]), Some(vec![]));
    assert_eq!(report_to_flat(&empty, ","), Ok("\"d\",\"m\"\n".to_string()));
}

#[test]
fn rows_are_written_as_they_are_when_counts_differ_from_header() {
    let ragged = report(
        header(Some(&["d1", "d2"]), &["m1"]),
        Some(vec![row(Some(&["only"]), &[&["1", "2", "3"]]), row(None, &[&["9"]])]),
    );
    assert_eq!(
        report_to_flat(&ragged, ","),
        Ok("\"d1\",\"d2\",\"m1\"\n\"only\",1,2,3\n9\n".to_string())
    );
}

#[test]
fn rows_keep_their_order() {
    let r = report(
        header(None, &["m"]),
        Some(vec![
            row(None, &[&["3"]]),
            row(None, &[&["1"]]),
            row(None, &[&["2"]]),
        ]),
    );
    assert_eq!(report_to_flat(&r, ","), Ok("\"m\"\n3\n1\n2\n".to_string()));
}

#[test]
fn empty_response_gives_no_text() {
    let response = ReportResponse { reports: vec![] };
    assert_eq!(response_to_delimited_reports(&response, ","), Ok(vec![]));
}

#[test]
fn response_with_a_malformed_report_fails_as_a_whole() {
    let mut response = two_reports();
    response.reports.push(report(header(None, &["m"]), None));
    assert_eq!(response_to_delimited_reports(&response, ","), Err(FlattenError::MissingRows));

    let mut first_malformed = two_reports();
    first_malformed.reports[0].data.rows = None;
    assert_eq!(
        response_to_delimited_reports(&first_malformed, ","),
        Err(FlattenError::MissingRows)
    );
}

#[test]
fn each_report_is_flattened_on_its_own() {
    let response = two_reports();
    let together = response_to_delimited_reports(&response, ",").unwrap();
    assert_eq!(together.len(), response.reports.len());
    for (index, one) in response.reports.iter().enumerate() {
        assert_eq!(together[index], report_to_flat(one, ",").unwrap());
    }

    let reversed = ReportResponse {
        reports: response.reports.iter().rev().cloned().collect(),
    };
    let backwards = response_to_delimited_reports(&reversed, ",").unwrap();
    assert_eq!(backwards[0], together[1]);
    assert_eq!(backwards[1], together[0]);
}

#[test]
fn reports_do_not_share_column_names() {
    let texts = response_to_delimited_reports(&two_reports(), ",").unwrap();
    assert!(texts[0].starts_with("\"ga:deviceCategory\","));
    assert!(!texts[0].contains("ga:country"));
    assert!(texts[1].starts_with("\"ga:country\","));
    assert!(!texts[1].contains("ga:deviceCategory"));
}

#[test]
fn flattening_twice_gives_the_same_text() {
    let r = device_country_report();
    assert_eq!(report_to_flat(&r, ","), report_to_flat(&r, ","));
}

#[test]
fn report_without_dimensions_has_metric_only_lines() {
    let r = report(
        header(None, &["m1", "m2"]),
        Some(vec![row(None, &[&["1", "2"]]), row(None, &[&["3", "4"], &["5", "6"]])]),
    );
    assert_eq!(
        report_to_flat(&r, ","),
        Ok("\"m1\",\"m2\"\n1,2\n3,4,5,6\n".to_string())
    );
}

#[test]
fn header_line_splits_back_into_column_names() {
    let names = ["ga:deviceCategory", "ga:country", "ga:sessions", "ga:bounces"];
    let text = report_to_flat(&device_country_report(), "|delimiter|").unwrap();
    let line = text.lines().next().unwrap();
    let back: Vec<&str> = line
        .split("|delimiter|")
        .map(|field| &field[1..field.len() - 1])
        .collect();
    assert_eq!(back, names);
}

#[test]
fn header_line_does_not_split_back_when_a_name_holds_the_delimiter() {
    let line = flatten_header(&header(Some(&["a,b"]), &["m"]), ",");
    assert_eq!(line, "\"a,b\",\"m\"\n");
    assert_eq!(line.trim_end_matches('\n').split(',').count(), 3);
}
