//! Request/response correlation for one target's network traffic.

use vstd::prelude::*;
use crate::chain::{CommandChain, CommandEntry};
use crate::strutil::str_eq;

verus! {

/// What is known about one network request.
#[derive(Debug)]
pub struct RequestRecord {
    pub request_id: String,
    pub url: String,
    /// The status of the response, once one was received.
    pub response_status: Option<u64>,
    /// Loading finished for this request.
    pub finished: bool,
    /// Loading failed for this request.
    pub failed: bool,
    /// The response was served from cache.
    pub from_cache: bool,
}

/// The mathematical image of a request record.
pub ghost struct RequestRecordView {
    pub request_id: Seq<char>,
    pub url: Seq<char>,
    pub response_status: Option<u64>,
    pub finished: bool,
    pub failed: bool,
    pub from_cache: bool,
}

impl View for RequestRecord {
    type V = RequestRecordView;

    open spec fn view(&self) -> RequestRecordView {
        RequestRecordView {
            request_id: self.request_id@,
            url: self.url@,
            response_status: self.response_status,
            finished: self.finished,
            failed: self.failed,
            from_cache: self.from_cache,
        }
    }
}

/// Index of the record with the given request id, `-1` when there is
/// none.
pub open spec fn record_idx(records: Seq<RequestRecordView>, id: Seq<char>) -> int
    decreases records.len(),
{
    if records.len() == 0 {
        -1
    } else if records[0].request_id == id {
        0
    } else {
        let rest = record_idx(records.drop_first(), id);
        if rest == -1 {
            -1
        } else {
            rest + 1
        }
    }
}

pub proof fn lemma_record_idx_located(records: Seq<RequestRecordView>, id: Seq<char>, i: int)
    requires
        0 <= i <= records.len(),
        forall|k: int| 0 <= k < i ==> records[k].request_id != id,
        i == records.len() || records[i].request_id == id,
    ensures
        record_idx(records, id) == if i == records.len() { -1int } else { i },
    decreases i,
{
    if records.len() > 0 && i > 0 {
        lemma_record_idx_located(records.drop_first(), id, i - 1);
    }
}


/// The record list after a request announcement: a fresh record for the
/// id, replacing any earlier one.
pub open spec fn records_after_sent(
    records: Seq<RequestRecordView>,
    id: Seq<char>,
    url: Seq<char>,
) -> Seq<RequestRecordView> {
    let fresh = RequestRecordView {
        request_id: id,
        url,
        response_status: None,
        finished: false,
        failed: false,
        from_cache: false,
    };
    if record_idx(records, id) >= 0 {
        records.update(record_idx(records, id), fresh)
    } else {
        records.push(fresh)
    }
}

/// The record list after a field of the tracked record changed; unknown
/// ids leave the list as it was.
pub open spec fn records_after_update(
    records: Seq<RequestRecordView>,
    id: Seq<char>,
    updated: RequestRecordView,
) -> Seq<RequestRecordView> {
    if record_idx(records, id) >= 0 {
        records.update(record_idx(records, id), updated)
    } else {
        records
    }
}

/// Correlates request, response and loading events. Unknown request ids
/// on later events are tolerated: the request may predate enabling the
/// domain.
#[derive(Debug)]
pub struct NetworkManager {
    records: Vec<RequestRecord>,
}

impl NetworkManager {
    /// The records under management, by view.
    pub closed spec fn records(self) -> Seq<RequestRecordView> {
        self.records@.map_values(|r: RequestRecord| r@)
    }

    /// Request ids are unique.
    pub closed spec fn wf(self) -> bool {
        forall|i: int, j: int|
            0 <= i < j < self.records().len() ==> self.records()[i].request_id
                != self.records()[j].request_id
    }

    pub fn new() -> (r: Self)
        ensures
            r.wf(),
            r.records() == Seq::<RequestRecordView>::empty(),
    {
        let r = NetworkManager { records: Vec::new() };
        proof {
            assert(r.records() =~= Seq::<RequestRecordView>::empty());
        }
        r
    }

    /// The single call that brings the network domain up.
    pub fn init_commands(now: u64, per_command_timeout: u64) -> (r: CommandChain)
        requires
            now + per_command_timeout <= u64::MAX,
        ensures
            r.wf(),
            r.acked() == 0,
            r.emitted() == 0,
            !r.timeout_reported(),
            r.deadline() == now + per_command_timeout,
            r.entries().len() == 1,
            r.entries()[0].method@ == "Network.enable"@,
    {
        let mut items: Vec<CommandEntry> = Vec::new();
        items.push(CommandEntry::new("Network.enable".to_owned(), "{}".to_owned()));
        proof {
            assert(per_command_timeout * items@.len() == per_command_timeout) by (nonlinear_arith)
                requires items@.len() == 1;
        }
        CommandChain::new(items, now, per_command_timeout)
    }

    /// Position of the record with this request id.
    fn record_position(&self, id: &str) -> (r: Option<usize>)
        ensures
            match r {
                Some(i) => i == record_idx(self.records(), id@) && i < self.records().len(),
                None => record_idx(self.records(), id@) == -1,
            },
    {
        let n = self.records.len();
        let mut i: usize = 0;
        while i < n
            invariant
                i <= n,
                n == self.records.len(),
                forall|k: int| 0 <= k < i ==> self.records()[k].request_id != id@,
            decreases n - i,
        {
            if str_eq(self.records[i].request_id.as_str(), id) {
                proof {
                    lemma_record_idx_located(self.records(), id@, i as int);
                }
                return Some(i);
            }
            i = i + 1;
        }
        proof {
            lemma_record_idx_located(self.records(), id@, n as int);
        }
        None
    }

    /// A request is about to go out: start tracking it. A repeated id
    /// restarts the record (a redirect re-announces the request).
    pub fn on_request_will_be_sent(&mut self, request_id: &str, url: String)
        requires
            old(self).wf(),
        ensures
            final(self).wf(),
            final(self).records() == records_after_sent(old(self).records(), request_id@, url@),
    {
        proof {
            lemma_record_idx_props(self.records(), request_id@);
        }
        let fresh = RequestRecord {
            request_id: request_id.to_owned(),
            url,
            response_status: None,
            finished: false,
            failed: false,
            from_cache: false,
        };
        match self.record_position(request_id) {
            Some(i) => {
                self.records.remove(i);
                self.records.insert(i, fresh);
                proof {
                    assert(self.records() =~= old(self).records().update(i as int, fresh@));
                }
            },
            None => {
                proof {
                    lemma_record_idx_props(self.records(), request_id@);
                }
                self.records.push(fresh);
                proof {
                    assert(self.records() =~= old(self).records().push(fresh@));
                }
            },
        }
    }

    /// A response arrived for a tracked request; unknown ids are
    /// tolerated.
    pub fn on_response_received(&mut self, request_id: &str, status: u64)
        requires
            old(self).wf(),
        ensures
            final(self).wf(),
            final(self).records() == records_after_update(
                old(self).records(),
                request_id@,
                RequestRecordView {
                    response_status: Some(status),
                    ..old(self).records()[record_idx(old(self).records(), request_id@)]
                },
            ),
    {
        match self.record_position(request_id) {
            Some(i) => {
                let mut rec = self.records.remove(i);
                rec.response_status = Some(status);
                self.records.insert(i, rec);
                proof {
                    assert(self.records() =~= old(self).records().update(i as int, rec@));
                }
            },
            None => {},
        }
    }

    /// Loading of a tracked request finished; unknown ids are tolerated.
    pub fn on_network_loading_finished(&mut self, request_id: &str)
        requires
            old(self).wf(),
        ensures
            final(self).wf(),
            final(self).records() == records_after_update(
                old(self).records(),
                request_id@,
                RequestRecordView {
                    finished: true,
                    ..old(self).records()[record_idx(old(self).records(), request_id@)]
                },
            ),
    {
        match self.record_position(request_id) {
            Some(i) => {
                let mut rec = self.records.remove(i);
                rec.finished = true;
                self.records.insert(i, rec);
                proof {
                    assert(self.records() =~= old(self).records().update(i as int, rec@));
                }
            },
            None => {},
        }
    }

    /// Loading of a tracked request failed; unknown ids are tolerated.
    pub fn on_network_loading_failed(&mut self, request_id: &str)
        requires
            old(self).wf(),
        ensures
            final(self).wf(),
            final(self).records() == records_after_update(
                old(self).records(),
                request_id@,
                RequestRecordView {
                    failed: true,
                    ..old(self).records()[record_idx(old(self).records(), request_id@)]
                },
            ),
    {
        match self.record_position(request_id) {
            Some(i) => {
                let mut rec = self.records.remove(i);
                rec.failed = true;
                self.records.insert(i, rec);
                proof {
                    assert(self.records() =~= old(self).records().update(i as int, rec@));
                }
            },
            None => {},
        }
    }

    /// The response for a tracked request came from cache; unknown ids
    /// are tolerated.
    pub fn on_request_served_from_cache(&mut self, request_id: &str)
        requires
            old(self).wf(),
        ensures
            final(self).wf(),
            final(self).records() == records_after_update(
                old(self).records(),
                request_id@,
                RequestRecordView {
                    from_cache: true,
                    ..old(self).records()[record_idx(old(self).records(), request_id@)]
                },
            ),
    {
        match self.record_position(request_id) {
            Some(i) => {
                let mut rec = self.records.remove(i);
                rec.from_cache = true;
                self.records.insert(i, rec);
                proof {
                    assert(self.records() =~= old(self).records().update(i as int, rec@));
                }
            },
            None => {},
        }
    }

    /// The record for a request id, if one is tracked.
    pub fn record(&self, request_id: &str) -> (r: Option<&RequestRecord>)
        ensures
            match r {
                Some(rec) => record_idx(self.records(), request_id@) >= 0 && rec@
                    == self.records()[record_idx(self.records(), request_id@)],
                None => record_idx(self.records(), request_id@) == -1,
            },
    {
        match self.record_position(request_id) {
            Some(i) => Some(&self.records[i]),
            None => None,
        }
    }
}

pub proof fn lemma_record_idx_props(records: Seq<RequestRecordView>, id: Seq<char>)
    ensures
        -1 <= record_idx(records, id) < records.len(),
        record_idx(records, id) >= 0 ==> records[record_idx(records, id)].request_id == id,
        record_idx(records, id) == -1 ==> forall|k: int|
            0 <= k < records.len() ==> records[k].request_id != id,
    decreases records.len(),
{
    if records.len() > 0 && records[0].request_id != id {
        lemma_record_idx_props(records.drop_first(), id);
        assert forall|k: int|
            record_idx(records, id) == -1 && 0 <= k < records.len() implies records[k].request_id
            != id by {
            if k > 0 {
                assert(records.drop_first()[k - 1] == records[k]);
            }
        }
    }
}

} // verus!
