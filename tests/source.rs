use logback::source::Source;

#[test]
fn test_source_reduction() {
    let s = Source("uk.ac.diamond.daq.persistence.jythonshelf".into());
    assert_eq!(s.reduced(20), "u.a.d.d.p.jythonshelf");
    assert_eq!(s.reduced(30), "u.a.d.d.p.jythonshelf");
    assert_eq!(s.reduced(32), "u.a.d.d.persistence.jythonshelf");
    assert_eq!(s.reduced(33), "u.a.d.daq.persistence.jythonshelf");
    assert_eq!(s.reduced(39), "u.a.diamond.daq.persistence.jythonshelf");
    assert_eq!(s.reduced(40), "u.ac.diamond.daq.persistence.jythonshelf");
    assert_eq!(s.reduced(41), "uk.ac.diamond.daq.persistence.jythonshelf");
    assert_eq!(s.reduced(50), "uk.ac.diamond.daq.persistence.jythonshelf");

    let s = Source("gda.device.scannable.ScannableMotor".into());
    assert_eq!(s.reduced(30), "g.d.scannable.ScannableMotor");

    let s = Source("gdascripts.scan.process.ScanDataProcessorResult.ScanDataProcessorResult".into());
    assert_eq!(s.reduced(30), "g.s.p.S.ScanDataProcessorResult");
}

#[test]
fn reduction_keeps_class_segment() {
    let s = Source::from(String::from("uk.ac.diamond.daq.persistence.jythonshelf"));
    for w in 0..60 {
        assert!(s.reduced(w).ends_with(".jythonshelf"));
    }
}

#[test]
fn reduction_is_monotone_in_width() {
    let s = Source::from(String::from("gdascripts.scan.process.ScanDataProcessorResult.Last"));
    let mut previous = 0;
    for w in 0..80 {
        let n = s.reduced(w).len();
        assert!(previous <= n);
        assert!(n <= 52);
        previous = n;
    }
}

#[test]
fn reduction_of_fitting_name_is_unchanged() {
    let s = Source::from(String::from("a.b.c"));
    assert_eq!(s.reduced(5), "a.b.c");
    assert_eq!(s.reduced(4), "a.b.c");
    let s = Source::from(String::from("single"));
    assert_eq!(s.reduced(0), "single");
    assert_eq!(s.reduced(3), "single");
}

#[test]
fn reduction_at_zero_width() {
    let s = Source::from(String::from("alpha.beta.gamma"));
    assert_eq!(s.reduced(0), "a.b.gamma");
}

#[test]
fn reduction_with_empty_segments() {
    let s = Source::from(String::from("alpha..beta.gamma"));
    assert_eq!(s.reduced(3), "a..b.gamma");
    let s = Source::from(String::from(".gamma"));
    assert_eq!(s.reduced(0), ".gamma");
}

#[test]
fn reduction_counts_characters() {
    let s = Source::from(String::from("ééé.b"));
    assert_eq!(s.reduced(5), "ééé.b");
    assert_eq!(s.reduced(4), "é.b");
}

#[test]
fn source_text_with_and_without_precision() {
    let s = Source::from(String::from("uk.ac.diamond.daq.persistence.jythonshelf"));
    assert_eq!(s.to_text(None), "uk.ac.diamond.daq.persistence.jythonshelf");
    assert_eq!(s.to_text(Some(20)), "u.a.d.d.p.jythonshelf");
}
