use vstd::prelude::*;

use crate::error::Error;
use crate::frames::{BodyStream, chunks_view, concat_chunks, drain};
use crate::headers::{Header, has_te, headers_view, is_te_name, keep_valid, keep_valid_spec,
    strip_te, strip_te_spec};

verus! {

/// Reserved per-call configuration (future timeouts, TLS settings);
/// no option is recognized yet.
pub struct FetchOptions {}

/// An outgoing RPC request handed to the bridge: a URL path suffix,
/// a header list, and a byte-frame-source body. The method is fixed
/// to POST by the bridge itself.
pub struct OutgoingRequest {
    pub path: Vec<u8>,
    pub headers: Vec<Header>,
    pub body: BodyStream,
}

/// The HTTP method of a host exchange.
#[derive(Clone, Copy, Debug, PartialEq, Eq, Structural)]
pub enum HttpMethod {
    Get,
    Post,
    Put,
    Delete,
    Head,
    Options,
    Patch,
}

/// The one exchange the bridge asks of the host fetch primitive: a
/// POST to `url` carrying `headers` and the fully aggregated `body`.
pub struct HostRequest {
    pub method: HttpMethod,
    pub url: Vec<u8>,
    pub headers: Vec<Header>,
    pub body: Vec<u8>,
}

/// The HTTP version marker an incoming response reports.
#[derive(Clone, Copy, Debug, PartialEq, Eq, Structural)]
pub enum HttpVersion {
    H09,
    H10,
    H11,
    H2,
    H3,
}

/// What came back from the host exchange, as plain values: either a
/// response (status, raw headers, and a byte-frame source delivering
/// the response bytes) or a network-layer failure.
pub enum ExchangeOutcome {
    Response { status: u16, headers: Vec<Header>, body: BodyStream },
    TransportFailure,
}

/// The response handed back to the RPC layer: status, a pinned HTTP
/// version marker, the forwardable headers, and a body that is a
/// single pre-materialized chunk.
pub struct IncomingResponse {
    pub status: u16,
    pub version: HttpVersion,
    pub headers: Vec<Header>,
    pub body: BodyStream,
}

/// The outbound half of a unary call: compose the exchange URL from
/// the base URL and the request path verbatim, strip the mandatory
/// "te" header, and drain the whole request body into one buffer.
/// No exchange can be attempted before this succeeds: the host request
/// only exists on success.
///
/// Failures, in the order they are checked: a request without a "te"
/// header aborts with `Error::MissingTeHeader`; a body whose source
/// signals a failure while draining aborts with that failure.
pub fn prepare_call(
    base_url: &Vec<u8>,
    request: OutgoingRequest,
    _options: Option<FetchOptions>,
) -> (r: Result<HostRequest, Error>)
    requires
        request.body.wf(),
        !request.body.is_exhausted(),
    ensures
        match r {
            Ok(host) => {
                &&& has_te(headers_view(request.headers@))
                &&& request.body.failure() is None
                &&& host.method == HttpMethod::Post
                &&& host.url@ == base_url@ + request.path@
                &&& headers_view(host.headers@) == strip_te_spec(headers_view(request.headers@))
                &&& forall|i: int|
                    0 <= i < host.headers@.len() ==> !is_te_name(#[trigger] host.headers@[i].name@)
                &&& host.body@ == concat_chunks(request.body.remaining())
            },
            Err(e) => {
                if has_te(headers_view(request.headers@)) {
                    request.body.failure() == Some(e)
                } else {
                    e == Error::MissingTeHeader
                }
            },
        },
{
    let OutgoingRequest { path, headers, body } = request;
    let forwarded = match strip_te(headers) {
        Ok(out) => out,
        Err(e) => {
            return Err(e);
        },
    };
    let mut source = body;
    let aggregated = match drain(&mut source) {
        Ok(buf) => buf,
        Err(e) => {
            return Err(e);
        },
    };
    let mut url: Vec<u8> = Vec::new();
    push_all(&mut url, base_url);
    let mut tail = path;
    url.append(&mut tail);
    Ok(HostRequest { method: HttpMethod::Post, url, headers: forwarded, body: aggregated })
}

/// Append every byte of `src` to `dst`, in order.
fn push_all(dst: &mut Vec<u8>, src: &Vec<u8>)
    ensures
        final(dst)@ == old(dst)@ + src@,
{
    let mut i: usize = 0;
    while i < src.len()
        invariant
            i <= src@.len(),
            dst@ == old(dst)@ + src@.take(i as int),
        decreases src@.len() - i,
    {
        proof {
            assert((old(dst)@ + src@.take(i as int)).push(src@[i as int]) =~= old(dst)@
                + src@.take(i + 1));
        }
        dst.push(src[i]);
        i = i + 1;
    }
    proof {
        assert(old(dst)@ + src@.take(src@.len() as int) =~= old(dst)@ + src@);
    }
}

/// The inbound half of a unary call: wrap a network-layer failure as a
/// transport error, or capture the host response — drain its body into
/// one buffer, keep the headers whose value bytes are well-formed, pin
/// the version marker to HTTP/2 for the RPC layer, and wrap the buffer
/// as a single already-available chunk.
///
/// A failure while draining the response body is wrapped as a
/// transport failure; a header with invalid value bytes is dropped,
/// never a reason to fail the call.
pub fn complete_call(outcome: ExchangeOutcome) -> (r: Result<IncomingResponse, Error>)
    requires
        outcome matches ExchangeOutcome::Response { body, .. } ==> body.wf()
            && !body.is_exhausted(),
    ensures
        match outcome {
            ExchangeOutcome::TransportFailure => r matches Err(e) && e == Error::Transport,
            ExchangeOutcome::Response { status, headers, body } => match r {
                Ok(resp) => {
                    &&& body.failure() is None
                    &&& resp.status == status
                    &&& resp.version == HttpVersion::H2
                    &&& headers_view(resp.headers@) == keep_valid_spec(headers_view(headers@))
                    &&& resp.body.wf() && !resp.body.is_exhausted()
                    &&& resp.body.failure() is None
                    &&& resp.body.remaining() == seq![concat_chunks(body.remaining())]
                },
                Err(e) => e == Error::Transport && body.failure() is Some,
            },
        },
{
    match outcome {
        ExchangeOutcome::TransportFailure => Err(Error::Transport),
        ExchangeOutcome::Response { status, headers, body } => {
            let mut source = body;
            let aggregated = match drain(&mut source) {
                Ok(buf) => buf,
                Err(_) => {
                    return Err(Error::Transport);
                },
            };
            let forwarded = keep_valid(headers);
            let ghost aggregated_view = aggregated@;
            let mut frames: Vec<Vec<u8>> = Vec::new();
            frames.push(aggregated);
            let ghost frames_view = frames@;
            let wrapped = BodyStream::new(frames);
            proof {
                assert(chunks_view(frames_view) =~= seq![aggregated_view]);
            }
            Ok(IncomingResponse {
                status,
                version: HttpVersion::H2,
                headers: forwarded,
                body: wrapped,
            })
        },
    }
}

} // verus!
