use simlib::Recorder;

#[test]
fn csv_has_header_and_rows_in_order() {
    let mut r = Recorder::new();
    r.track("position_x".to_string());
    r.track("velocity_x".to_string());
    r.sample("0.1".to_string(), vec!["1".to_string(), "2".to_string()]);
    r.sample("0.2".to_string(), vec!["3.5".to_string(), "4".to_string()]);
    assert_eq!(r.render_csv(), "time,position_x,velocity_x\n0.1,1,2\n0.2,3.5,4\n");
}

#[test]
fn csv_without_samples_is_header_only() {
    let mut r = Recorder::new();
    r.track("altitude".to_string());
    assert_eq!(r.render_csv(), "time,altitude\n");
}

#[test]
fn csv_without_columns_keeps_the_time_field() {
    let mut r = Recorder::new();
    r.sample("0.5".to_string(), Vec::new());
    assert_eq!(r.render_csv(), "time,\n0.5,\n");
}

#[test]
fn csv_single_column() {
    let mut r = Recorder::new();
    r.track("y".to_string());
    r.sample("1".to_string(), vec!["-4.905".to_string()]);
    assert_eq!(r.render_csv(), "time,y\n1,-4.905\n");
}

#[test]
fn formatted_floats_carry_through_unchanged() {
    // The host formats each sampled value; the recorder must keep the
    // fields exactly as handed in.
    let mut r = Recorder::new();
    r.track("x".to_string());
    let t = 0.30000000000000004_f64;
    let x = -0.1_f64;
    r.sample(format!("{t}"), vec![format!("{x}")]);
    assert_eq!(r.render_csv(), "time,x\n0.30000000000000004,-0.1\n");
}
