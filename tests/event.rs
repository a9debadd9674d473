use logback::event::{
    ClassPackagingData, JavaMap, LogContext, LogEvent, Marker, Markers, StackFrame,
    StackTraceElement, Throwable,
};
use logback::level::LogLevel;
use logback::source::Source;
use std::collections::HashMap;

fn frame(class: &str, method: &str, file: &str, line: i32) -> StackFrame {
    StackFrame {
        declaring_class: Some(class.into()),
        line,
        class_loader_name: None,
        method_name: Some(method.into()),
        module_name: None,
        format: 0,
        module_version: None,
        file_name: Some(file.into()),
    }
}

fn element(class: &str, method: &str, file: &str, line: i32) -> StackTraceElement {
    StackTraceElement {
        ste: frame(class, method, file, line),
        cpd: Some(ClassPackagingData {
            code_location: "app.jar".into(),
            version: "1.0".into(),
            exact: true,
        }),
    }
}

fn throwable(frames: Vec<StackTraceElement>) -> Throwable {
    Throwable {
        class_name: "java.lang.IllegalStateException".into(),
        message: Some("bad state".into()),
        common_frames: 0,
        cause: None,
        suppressed: vec![],
        stack_trace: frames,
    }
}

fn event(template: &str, arguments: Vec<String>, throwable: Option<Throwable>, time_stamp: i64) -> LogEvent {
    LogEvent {
        template: template.into(),
        thread_name: "main".into(),
        logger_name: Source::from(String::from("uk.ac.diamond.daq.Main")),
        context: LogContext {
            birth_time: 0,
            name: "default".into(),
            properties: HashMap::new(),
        },
        level: LogLevel::Info,
        arguments,
        throwable,
        stacktrace: None,
        marker: None,
        time_stamp,
        mdc: HashMap::new(),
    }
}

#[test]
fn event_message_substitutes_arguments() {
    let e = event("Moved {} to {}", vec!["x".into(), "12".into()], None, 0);
    assert_eq!(e.message(), "Moved x to 12");
    let e = event("Value {}", vec!["NULL_ARGUMENT_ARRAY_ELEMENT".into()], None, 0);
    assert_eq!(e.message(), "Value null");
}

#[test]
fn event_time_is_utc_from_millis() {
    let e = event("", vec![], None, 1_546_300_800_000);
    let t = e.time();
    assert_eq!(t.year(), 2019);
    assert_eq!(t.ordinal(), 1);
    assert_eq!(t.hour(), 0);
    let e = event("", vec![], None, 1_546_300_800_123);
    assert_eq!(e.time().millisecond(), 123);
    let e = event("", vec![], None, -1);
    assert_eq!(e.time().year(), 1969);
    assert_eq!(e.time().millisecond(), 999);
}

#[test]
fn frame_text_shows_class_method_file_and_line() {
    assert_eq!(frame("a.B", "run", "B.java", 42).to_text(), "a.B.run(B.java:42)");
    assert_eq!(frame("a.B", "run", "B.java", 0).to_text(), "a.B.run(B.java:0)");
    assert_eq!(frame("a.B", "run", "B.java", -1).to_text(), "a.B.run(B.java:-1)");
    assert_eq!(
        element("C", "m", "C.java", i32::MIN).to_text(),
        "C.m(C.java:-2147483648)"
    );
    assert_eq!(
        element("C", "m", "C.java", i32::MAX).to_text(),
        "C.m(C.java:2147483647)"
    );
}

#[test]
fn trace_joins_frames() {
    let t = throwable(vec![
        element("a.B", "run", "B.java", 42),
        element("a.C", "call", "C.java", 7),
    ]);
    assert_eq!(t.trace(), "a.B.run(B.java:42)\n     at a.C.call(C.java:7)");
    assert_eq!(throwable(vec![]).trace(), "");
}

#[test]
fn event_stack_with_and_without_throwable() {
    let e = event("", vec![], None, 0);
    assert_eq!(e.stack(), "");
    let t = throwable(vec![element("a.B", "run", "B.java", 42)]);
    let e = event("", vec![], Some(t), 0);
    assert_eq!(
        e.stack(),
        "\njava.lang.IllegalStateExceptiona.B.run(B.java:42)"
    );
}

#[test]
fn java_map_entries() {
    assert!(JavaMap::Empty.into_map().is_empty());
    let mut m = HashMap::new();
    m.insert(String::from("k"), String::from("v"));
    let out = JavaMap::Sync(m.clone()).into_map();
    assert_eq!(out.get("k").map(String::as_str), Some("v"));
    let out = JavaMap::HashMap(m).into_map();
    assert_eq!(out.len(), 1);
}

#[test]
fn markers_into_vec() {
    let markers = Markers {
        markers: vec![
            Marker { name: "FIRST".into(), references: vec![] },
            Marker { name: "SECOND".into(), references: vec![] },
        ],
    };
    let v = markers.into_vec();
    assert_eq!(v.len(), 2);
    assert_eq!(v[0].name, "FIRST");
    assert_eq!(v[1].name, "SECOND");
}
