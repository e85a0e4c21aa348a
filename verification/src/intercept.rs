use vstd::prelude::*;
use crate::range_header::{rewrite, rewrite_applies, rewritten};

verus! {

/// The outbound request as the loop sees it: its `Range` header value, if any.
/// Other parts of the request are never read nor written by the loop.
pub struct RequestModel {
    pub range_header: Option<Vec<u8>>,
}

impl View for RequestModel {
    type V = Option<Seq<u8>>;

    open spec fn view(&self) -> Option<Seq<u8>> {
        match self.range_header {
            Some(v) => Some(v@),
            None => None,
        }
    }
}

/// One-shot permission to hand a request back to the proxy engine.
/// It has no copy or clone, so each grant is consumed at most once.
pub struct ReturnToken {
    granted: bool,
}

impl ReturnToken {
    /// A fresh grant, issued once per observed transaction.
    pub fn grant() -> ReturnToken {
        ReturnToken { granted: true }
    }
}

/// One intercepted exchange: the outbound request and the one-shot grant
/// through which it must be handed back, exactly once.
pub struct Transaction {
    pub request: RequestModel,
    pub request_back: ReturnToken,
}

/// A request that has been handed back for forwarding; producing one
/// consumes the transaction's grant.
pub struct ForwardedRequest {
    pub request: RequestModel,
}

/// What the loop forwards for an observed request: the rewritten header
/// where the rewriter acts, the request untouched otherwise.
pub open spec fn forwarded_view(req: Option<Seq<u8>>, chunk: u64) -> Option<Seq<u8>> {
    match req {
        Some(v) => if rewrite_applies(v, chunk) {
            Some(rewritten(v, chunk))
        } else {
            Some(v)
        },
        None => None,
    }
}

/// The hand-off point: consumes the grant and releases the request.
pub fn send_back(token: ReturnToken, request: RequestModel) -> (r: ForwardedRequest)
    ensures
        r.request == request,
{
    let ReturnToken { granted: _ } = token;
    ForwardedRequest { request }
}

/// One pass of the interception loop: inspect the `Range` header, rewrite it
/// where the rewriter acts, leave the request alone otherwise, and hand the
/// request back through the transaction's grant.
pub fn process_transaction(tx: Transaction, chunk_size: u64) -> (r: ForwardedRequest)
    ensures
        r.request@ == forwarded_view(tx.request@, chunk_size),
{
    let Transaction { request, request_back } = tx;
    let inspected = match request.range_header {
        Some(value) => {
            match rewrite(value.as_slice(), chunk_size) {
                Some(new_value) => RequestModel { range_header: Some(new_value) },
                None => RequestModel { range_header: Some(value) },
            }
        },
        None => RequestModel { range_header: None },
    };
    send_back(request_back, inspected)
}

/// The interception loop over a finite batch: transactions are consumed
/// strictly in order, and every one of them is handed back exactly once,
/// so a batch of N transactions yields exactly N forwarded requests,
/// the i-th forwarding belonging to the i-th observed transaction.
pub fn run_interception(txs: Vec<Transaction>, chunk_size: u64) -> (r: Vec<ForwardedRequest>)
    ensures
        r@.len() == txs@.len(),
        forall|i: int|
            0 <= i < txs@.len() ==> (#[trigger] r@[i].request)@ == forwarded_view(
                txs@[i].request@,
                chunk_size,
            ),
{
    let ghost observed = txs@;
    let mut pending = txs;
    let mut forwarded: Vec<ForwardedRequest> = Vec::new();
    while pending.len() > 0
        invariant
            forwarded@.len() + pending@.len() == observed.len(),
            pending@ =~= observed.skip(forwarded@.len() as int),
            forall|i: int|
                0 <= i < forwarded@.len() ==> (#[trigger] forwarded@[i].request)@
                    == forwarded_view(observed[i].request@, chunk_size),
        decreases pending@.len(),
    {
        let tx = pending.remove(0);
        proof {
            assert(tx == observed[forwarded@.len() as int]);
        }
        let done = process_transaction(tx, chunk_size);
        forwarded.push(done);
        proof {
            assert(pending@ =~= observed.skip(forwarded@.len() as int));
        }
    }
    forwarded
}

} // verus!
