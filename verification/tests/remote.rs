use std::rc::Rc;

use typedruby::ast::{Loc, SourceFile};
use typedruby::errors::{Detail, ErrorSink};
use typedruby::remote::protocol::{
    accept_reply, check_version, data_reply, Detail as WireDetail, ProtocolError, Reply, ReplyData, ServerTransaction,
    VERSION,
};
use typedruby::remote::server::{map_details, ClientReporter};

fn violation(r: Result<(), ProtocolError>) -> Option<&'static str> {
    match r {
        Err(ProtocolError::Violation(m)) => Some(m),
        _ => None,
    }
}

#[test]
fn handshake_accepts_only_the_same_version() {
    assert!(check_version(Some(VERSION)).is_ok());
    assert!(matches!(check_version(Some("0.0.1")), Err(ProtocolError::VersionMismatch(v)) if v == "0.0.1"));
    assert_eq!(violation(check_version(None)), Some("expected version handshake"));
}

#[test]
fn a_request_must_be_accepted() {
    assert!(accept_reply(Some(Reply::Accepted)).is_ok());
    assert_eq!(violation(accept_reply(Some(Reply::End))), Some("unexpected reply"));
    assert_eq!(violation(accept_reply(None)), Some("server closed connection unexpectedly"));
}

#[test]
fn a_transaction_yields_data_until_its_end() {
    let mut t = ServerTransaction::new();
    assert!(t.needs_drain());
    let first = t.next(Ok(Some(data_reply(ReplyData::Okay))));
    assert!(matches!(first, Some(Ok(ReplyData::Okay))));
    assert!(t.needs_drain());
    assert!(t.next(Ok(Some(Reply::End))).is_none());
    assert!(!t.needs_drain());
    let mut u = ServerTransaction::new();
    assert!(matches!(u.next(Ok(Some(Reply::Accepted))), Some(Err(ProtocolError::Violation("unexpected reply")))));
    assert!(!u.needs_drain());
    let mut v = ServerTransaction::new();
    assert!(matches!(v.next(Ok(None)), Some(Err(ProtocolError::Violation("server closed connection unexpectedly")))));
    assert!(!v.needs_drain());
}

#[test]
fn reports_become_replies_with_their_places() {
    let file = Rc::new(SourceFile::new("lib/a.rb".into(), "x = 1".to_owned()));
    let loc = Loc { file, begin_pos: 0, end_pos: 1 };
    let details = [Detail::Loc("here", &loc), Detail::Message("see above")];
    let mapped = map_details(&details);
    assert_eq!(mapped.len(), 2);
    assert!(matches!(&mapped[0], WireDetail::Loc { msg, loc } if msg == "here" && loc.file == "lib/a.rb"
        && loc.begin_pos == 0 && loc.end_pos == 1));
    assert!(matches!(&mapped[1], WireDetail::Message { msg } if msg == "see above"));
    let mut reporter = ClientReporter::new();
    reporter.error("bad", &details);
    reporter.warning("iffy", &[]);
    assert_eq!(reporter.error_count(), 0);
    let replies = reporter.take_replies();
    assert_eq!(replies.len(), 2);
    assert!(matches!(&replies[0], ReplyData::Error { msg, details } if msg == "bad" && details.len() == 2));
    assert!(matches!(&replies[1], ReplyData::Warning { msg, details } if msg == "iffy" && details.is_empty()));
    assert!(reporter.take_replies().is_empty());
}
