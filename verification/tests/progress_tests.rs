use media_download::progress::{fields_from_groups, parse_progress, DownloadProgress};

#[test]
fn progress_line_is_parsed() {
    let f = parse_progress("[download]  45.2% of 10.00MiB at 1.50MiB/s ETA 00:07").unwrap();
    assert_eq!(f.percent, "45.2");
    assert_eq!(f.percent.parse::<f32>().unwrap(), 45.2f32);
    assert_eq!(f.size, "10.00MiB");
    assert_eq!(f.speed, "1.50MiB/s");
    assert_eq!(f.eta, "00:07");
}

#[test]
fn other_lines_give_no_update() {
    assert!(parse_progress("[youtube] Extracting URL").is_none());
    assert!(parse_progress("").is_none());
    assert!(parse_progress("[download] Destination: of at ETA").is_none());
    assert!(parse_progress("[download] 45% of 10.00MiB at 1.50MiB/s ETA 00:07").is_none());
    assert!(parse_progress("[download]  45.2% of 10.00MiB at 1.50MiB/s").is_none());
    assert!(parse_progress("[download] 100% of 10.00MiB in 00:05").is_none());
}

#[test]
fn progress_line_with_approximate_size() {
    let f = parse_progress("[download] 100.0% of ~ 1.20GiB at  812.01KiB/s ETA Unknown").unwrap();
    assert_eq!(f.percent, "100.0");
    assert_eq!(f.size, "~ 1.20GiB");
    assert_eq!(f.speed, "812.01KiB/s");
    assert_eq!(f.eta, "Unknown");
}

#[test]
fn fields_need_all_four_groups() {
    let s = |t: &str| Some(t.to_string());
    assert!(fields_from_groups(None).is_none());
    assert!(fields_from_groups(Some(vec![])).is_none());
    assert!(fields_from_groups(Some(vec![s("x"), s("1.0"), s("a"), s("b")])).is_none());
    assert!(fields_from_groups(Some(vec![s("x"), s("1.0"), None, s("b"), s("c")])).is_none());
    assert!(
        fields_from_groups(Some(vec![s("x"), s("1.0"), s("a"), s("b"), s("c"), s("d")])).is_none()
    );
    let f = fields_from_groups(Some(vec![s("x"), s("1.0"), s("a"), s("b"), s("c")])).unwrap();
    assert_eq!(f.percent, "1.0");
    assert_eq!(f.size, "a");
    assert_eq!(f.speed, "b");
    assert_eq!(f.eta, "c");
}

#[test]
fn merge_replaces_all_but_the_id() {
    let mut p = DownloadProgress::new("7".to_string());
    assert_eq!(p.id, "7");
    assert_eq!(p.progress_percent, "0.0");
    assert_eq!(p.size, None);
    assert_eq!(p.speed, None);
    assert_eq!(p.eta, None);
    let f = parse_progress("[download]   3.5% of 1.00GiB at 2.00MiB/s ETA 08:13").unwrap();
    p.merge(f);
    assert_eq!(p.id, "7");
    assert_eq!(p.progress_percent, "3.5");
    assert_eq!(p.size, Some("1.00GiB".to_string()));
    assert_eq!(p.speed, Some("2.00MiB/s".to_string()));
    assert_eq!(p.eta, Some("08:13".to_string()));
}

#[test]
fn percentage_must_be_in_plain_digits() {
    let line = "[download]  \u{664}\u{665}.\u{662}% of 10.00MiB at 1.50MiB/s ETA 00:07";
    assert!(parse_progress(line).is_none());
    let s = |t: &str| Some(t.to_string());
    let with = |percent: &str| {
        fields_from_groups(Some(vec![s("x"), s(percent), s("a"), s("b"), s("c")]))
    };
    assert!(with("12.50").is_some());
    assert!(with("0.0").is_some());
    assert!(with("1.0.0").is_none());
    assert!(with("1.").is_none());
    assert!(with(".5").is_none());
    assert!(with("15").is_none());
    assert!(with("1e.5").is_none());
    assert!(with("").is_none());
}

#[test]
fn percentage_above_one_hundred_gives_no_update() {
    assert!(parse_progress("[download] 250.0% of a at b ETA c").is_none());
    assert!(parse_progress("[download] 100.1% of a at b ETA c").is_none());
    assert!(parse_progress("[download] 101.0% of a at b ETA c").is_none());
    assert!(parse_progress("[download] 99999999999999999999999.0% of a at b ETA c").is_none());
    let f = parse_progress("[download] 100.0% of a at b ETA c").unwrap();
    assert_eq!(f.percent, "100.0");
    assert_eq!(f.size, "a");
    assert_eq!(f.speed, "b");
    assert_eq!(f.eta, "c");
    assert_eq!(parse_progress("[download] 100.000% of a at b ETA c").unwrap().percent, "100.000");
    assert_eq!(parse_progress("[download] 99.99% of a at b ETA c").unwrap().percent, "99.99");
    assert_eq!(parse_progress("[download] 0.0% of a at b ETA c").unwrap().percent, "0.0");
    assert_eq!(parse_progress("[download] 0100.0% of a at b ETA c").unwrap().percent, "0100.0");
    let s = |t: &str| Some(t.to_string());
    assert!(fields_from_groups(Some(vec![s("x"), s("250.0"), s("a"), s("b"), s("c")])).is_none());
    assert!(fields_from_groups(Some(vec![s("x"), s("100.01"), s("a"), s("b"), s("c")])).is_none());
}

#[test]
fn accepted_percentages_are_floats_in_range() {
    for text in ["0.0", "45.2", "99.999999", "100.0", "100.00", "007.5"] {
        let line = format!("[download] {}% of a at b ETA c", text);
        let f = parse_progress(&line).unwrap();
        let value = f.percent.parse::<f32>().unwrap();
        assert!(value >= 0.0 && value <= 100.0);
    }
}
