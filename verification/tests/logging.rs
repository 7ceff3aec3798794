use svckit::flog::format_json;
use svckit::flog::format_logfmt;
use svckit::flog::Config;
use svckit::flog::Fmt;
use svckit::flog::Format;
use svckit::flog::JsonFmt;
use svckit::flog::Level;
use svckit::flog::LogFmt;
use svckit::flog::LogRecord;
use svckit::flog::Value;
use svckit::negotiate::create_reply_for;
use svckit::negotiate::Accept;
use svckit::negotiate::CreateReply;

#[test]
fn lib_it_works() {}

fn record(kv: Vec<(String, Value)>) -> LogRecord {
    LogRecord {
        time: String::from("2023-04-27T12:00:00Z"),
        level: Level::Info,
        target: String::from("web"),
        msg: String::from("request finished"),
        kv,
    }
}

#[test]
fn logfmt() {
    let f = LogFmt;
    let r = record(Vec::new());
    let line = f.render(&r);
    assert_eq!(
        line,
        "time=\"2023-04-27T12:00:00Z\" level=INFO target=web msg=\"request finished\""
    );
}

#[test]
fn logfmt_values() {
    let r = record(vec![
        (String::from("status"), Value::U64(200)),
        (String::from("path"), Value::Str(String::from("/x/y"))),
        (String::from("agent"), Value::Str(String::from("curl two"))),
        (String::from("cached"), Value::Bool(false)),
        (String::from("delta"), Value::I64(-7)),
        (String::from("missing"), Value::Null),
        (String::from("ratio"), Value::Num(String::from("0.25"))),
    ]);
    let line = format_logfmt(&r);
    assert_eq!(
        line,
        "time=\"2023-04-27T12:00:00Z\" level=INFO target=web msg=\"request finished\" \
         status=200 path=/x/y agent=\"curl two\" cached=false delta=-7 missing=nil ratio=0.25"
    );
}

#[test]
fn json_format() {
    let r = record(vec![
        (String::from("status"), Value::U64(200)),
        (String::from("note"), Value::Str(String::from("say \"hi\"\n"))),
    ]);
    let line = format_json(&r);
    assert_eq!(
        line,
        "{\"time\":\"2023-04-27T12:00:00Z\",\"level\":\"INFO\",\"target\":\"web\",\
         \"msg\":\"request finished\",\"status\":200,\"note\":\"say \\\"hi\\\"\\n\"}"
    );
}

#[test]
fn json_formatter_struct() {
    let f = JsonFmt;
    let r = record(Vec::new());
    assert!(f.render(&r).starts_with("{\"time\":"));
}

#[test]
fn level_parsing_and_filtering() {
    assert_eq!(Level::parse("info"), Some(Level::Info));
    assert_eq!(Level::parse("TRACE"), Some(Level::Trace));
    assert_eq!(Level::parse("Warn"), Some(Level::Warn));
    assert_eq!(Level::parse("nope"), None);
    assert!(Level::Error.enabled_at(Level::Info));
    assert!(Level::Info.enabled_at(Level::Info));
    assert!(!Level::Debug.enabled_at(Level::Info));
}

#[test]
fn format_parsing() {
    assert_eq!(Format::from("json"), Format::Json);
    assert_eq!(Format::from("JSON"), Format::Json);
    assert_eq!(Format::from("logfmt"), Format::LogFmt);
    assert_eq!(Format::from("text"), Format::LogFmt);
    assert_eq!(Format::from("butt"), Format::Butt);
    assert_eq!(Format::from("whatever"), Format::LogFmt);
    assert_eq!(Format::default(), Format::LogFmt);
    assert_eq!(Format::Json.to_str(), "json");
}

#[test]
fn config_builder() {
    let c = Config::new().level(Level::Debug).format(Format::Json);
    assert_eq!(c.level, Level::Debug);
    assert_eq!(c.format, Format::Json);
}

#[test]
fn accept_kinds() {
    assert_eq!(Accept::from_header("application/json"), Accept::Json);
    assert_eq!(Accept::from_header("text/plain; q=0.8"), Accept::PlainText);
    assert_eq!(Accept::from_header("text/html,application/xml"), Accept::Html);
    assert_eq!(Accept::from_header("application/xml"), Accept::Xml);
    assert_eq!(Accept::from_header("*/*"), Accept::Any);
    assert_eq!(Accept::from_header("image/png"), Accept::Missing);
    assert_eq!(Accept::from_request(None), Accept::Missing);
}

#[test]
fn error_envelope() {
    assert_eq!(
        svckit::negotiate::error_body("cannot self link"),
        "{\"status\":\"error\",\"message\":\"cannot self link\"}"
    );
    assert_eq!(
        svckit::negotiate::error_body("say \"no\""),
        "{\"status\":\"error\",\"message\":\"say \\\"no\\\"\"}"
    );
}

#[test]
fn create_reply_shapes() {
    assert_eq!(create_reply_for(Accept::Missing), CreateReply::Text);
    assert_eq!(create_reply_for(Accept::Any), CreateReply::Text);
    assert_eq!(create_reply_for(Accept::PlainText), CreateReply::Text);
    assert_eq!(create_reply_for(Accept::Json), CreateReply::Json);
    assert_eq!(create_reply_for(Accept::Html), CreateReply::Html);
    assert_eq!(create_reply_for(Accept::Xml), CreateReply::Bad);
}
