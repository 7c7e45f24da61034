//! What the server reports back to a client while it checks: each error
//! and warning becomes a reply, in order.

use vstd::prelude::*;
use crate::errors::{Detail as ReportDetail, ErrorSink};
use crate::remote::protocol::{Detail, Loc, ReplyData};

verus! {

/// Whether the protocol detail `p` says what the report detail `d` says.
pub open spec fn detail_sent(d: ReportDetail, p: Detail) -> bool {
    match d {
        ReportDetail::Message(m) => p matches Detail::Message { msg } && msg@ == m@,
        ReportDetail::Loc(m, loc) => p matches Detail::Loc { msg, loc: l } && msg@ == m@
            && l.file@ == loc.file.filename@ && l.begin_pos == loc.begin_pos && l.end_pos == loc.end_pos,
    }
}

/// Whether the protocol details `ps` say what the report details `ds` say,
/// one for one.
pub open spec fn details_sent(ds: Seq<ReportDetail>, ps: Seq<Detail>) -> bool {
    &&& ps.len() == ds.len()
    &&& forall|i: int| 0 <= i < ds.len() ==> detail_sent(#[trigger] ds[i], ps[i])
}

/// The details of a report as the protocol carries them: a place by the
/// name of its file and its byte range.
pub fn map_details(details: &[ReportDetail]) -> (r: Vec<Detail>)
    ensures
        details_sent(details@, r@),
{
    let mut r: Vec<Detail> = Vec::new();
    let mut i: usize = 0;
    while i < details.len()
        invariant
            i <= details@.len(),
            r@.len() == i,
            forall|k: int| 0 <= k < i ==> detail_sent(#[trigger] details@[k], r@[k]),
        decreases details@.len() - i,
    {
        let d = match &details[i] {
            ReportDetail::Message(msg) => Detail::Message { msg: (*msg).to_owned() },
            ReportDetail::Loc(msg, loc) => Detail::Loc {
                msg: (*msg).to_owned(),
                loc: Loc { file: loc.file.filename().to_owned(), begin_pos: loc.begin_pos, end_pos: loc.end_pos },
            },
        };
        r.push(d);
        i = i + 1;
    }
    r
}

/// An error sink that turns what it is told into replies to a client.
pub struct ClientReporter {
    replies: Vec<ReplyData>,
    error_count: usize,
    warning_count: usize,
}

/// Whether `r` is the reply for an error (or, when `warning` holds, a
/// warning) with the message `message` and the details `details`.
pub open spec fn reply_for(r: ReplyData, warning: bool, message: Seq<char>, details: Seq<ReportDetail>) -> bool {
    if warning {
        r matches ReplyData::Warning { msg, details: ps } && msg@ == message && details_sent(details, ps@)
    } else {
        r matches ReplyData::Error { msg, details: ps } && msg@ == message && details_sent(details, ps@)
    }
}

impl ClientReporter {
    /// The replies made and not yet taken, in order.
    pub closed spec fn sent(&self) -> Seq<ReplyData> {
        self.replies@
    }

    /// The errors counted.
    pub closed spec fn errors(&self) -> nat {
        self.error_count as nat
    }

    /// The warnings counted.
    pub closed spec fn warnings(&self) -> nat {
        self.warning_count as nat
    }

    pub fn new() -> (r: ClientReporter)
        ensures
            r.sent().len() == 0,
            r.errors() == 0,
            r.warnings() == 0,
    {
        ClientReporter { replies: Vec::new(), error_count: 0, warning_count: 0 }
    }

    /// Hands over the replies made since the last call.
    pub fn take_replies(&mut self) -> (r: Vec<ReplyData>)
        ensures
            r@ == old(self).sent(),
            final(self).sent().len() == 0,
            final(self).errors() == old(self).errors(),
            final(self).warnings() == old(self).warnings(),
    {
        let mut out: Vec<ReplyData> = Vec::new();
        std::mem::swap(&mut out, &mut self.replies);
        out
    }

    fn send(&mut self, data: ReplyData)
        ensures
            final(self).sent() == old(self).sent().push(data),
            final(self).errors() == old(self).errors(),
            final(self).warnings() == old(self).warnings(),
    {
        self.replies.push(data);
    }
}

impl ErrorSink for ClientReporter {
    open spec fn has_room(&self) -> bool {
        true
    }

    /// The error is sent as a reply; nothing is counted.
    open spec fn took_error(&self, after: &Self, message: Seq<char>, details: Seq<ReportDetail>) -> bool {
        &&& after.sent().len() == self.sent().len() + 1
        &&& after.sent().take(self.sent().len() as int) == self.sent()
        &&& reply_for(after.sent().last(), false, message, details)
        &&& after.errors() == self.errors()
        &&& after.warnings() == self.warnings()
    }

    /// The warning is sent as a reply; nothing is counted.
    open spec fn took_warning(&self, after: &Self, message: Seq<char>, details: Seq<ReportDetail>) -> bool {
        &&& after.sent().len() == self.sent().len() + 1
        &&& after.sent().take(self.sent().len() as int) == self.sent()
        &&& reply_for(after.sent().last(), true, message, details)
        &&& after.errors() == self.errors()
        &&& after.warnings() == self.warnings()
    }

    /// Replies with the error; the reporter counts nothing.
    fn error(&mut self, message: &str, details: &[ReportDetail])
        ensures
            final(self).sent().len() == old(self).sent().len() + 1,
            final(self).sent().take(old(self).sent().len() as int) == old(self).sent(),
            reply_for(final(self).sent().last(), false, message@, details@),
            final(self).errors() == old(self).errors(),
            final(self).warnings() == old(self).warnings(),
    {
        let ds = map_details(details);
        let ghost before = self.sent();
        self.send(ReplyData::Error { msg: message.to_owned(), details: ds });
        assert(self.sent().take(before.len() as int) =~= before);
    }

    /// Replies with the warning; the reporter counts nothing.
    fn warning(&mut self, message: &str, details: &[ReportDetail])
        ensures
            final(self).sent().len() == old(self).sent().len() + 1,
            final(self).sent().take(old(self).sent().len() as int) == old(self).sent(),
            reply_for(final(self).sent().last(), true, message@, details@),
            final(self).errors() == old(self).errors(),
            final(self).warnings() == old(self).warnings(),
    {
        let ds = map_details(details);
        let ghost before = self.sent();
        self.send(ReplyData::Warning { msg: message.to_owned(), details: ds });
        assert(self.sent().take(before.len() as int) =~= before);
    }

    fn error_count(&self) -> (r: usize)
        ensures
            r == self.errors(),
    {
        self.error_count
    }

    fn warning_count(&self) -> (r: usize)
        ensures
            r == self.warnings(),
    {
        self.warning_count
    }
}

} // verus!
