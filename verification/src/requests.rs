//! Requests and responses exchanged on a stream, and the server's and
//! client's decisions on them.

use vstd::prelude::*;
use crate::aclutil::{acl_permits, is_acl_allowed, ACLFile};
use crate::stringmap::StringMap;
use crate::text::owned;
use crate::util::{
    connection_id_from_text, stream_id_from_text, ConnectionId, IdCounter, IdError, StreamId,
    connection_id_text, law_connection_id_text_roundtrip, law_stream_id_text_roundtrip, stream_id_text,
};

verus! {

/// Hands out the next request number.
pub fn get_next_request_id(counter: &mut IdCounter) -> (r: u64)
    ensures
        r == old(counter)@,
        final(counter)@ == (if old(counter)@ == u64::MAX { 0 } else { (old(counter)@ + 1) as u64 }),
{
    counter.take_next()
}

/// What a request asks for.
#[derive(Clone, Copy, Debug, PartialEq, Eq, Structural)]
pub enum RequestType {
    GetStreamMetadata,
    Connect,
    Ping,
}

/// The map of an optional data field (empty when absent).
pub open spec fn data_map(data: Option<StringMap>) -> Map<Seq<char>, Seq<char>> {
    match data {
        Some(m) => m@,
        None => Map::empty(),
    }
}

/// An optional data field whose map, if present, is well formed.
pub open spec fn data_wf(data: Option<StringMap>) -> bool {
    match data {
        Some(m) => m.wf(),
        None => true,
    }
}

/// The value under `key` in an optional data field.
pub open spec fn data_lookup(data: Option<StringMap>, key: Seq<char>) -> Option<Seq<char>> {
    match data {
        Some(m) => if m@.contains_key(key) { Some(m@[key]) } else { None },
        None => None,
    }
}

/// Shared by `Request::add_data` and `Response::add_data`.
fn add_to_data(data: &mut Option<StringMap>, key: String, value: String)
    requires
        data_wf(*old(data)),
    ensures
        data_wf(*final(data)),
        *final(data) is Some,
        data_map(*final(data)) == data_map(*old(data)).insert(key@, value@),
{
    if data.is_none() {
        *data = Some(StringMap::new());
    }
    match data {
        Some(m) => m.insert(key, value),
        None => {},
    }
}

fn get_from_data<'a>(data: &'a Option<StringMap>, key: &str) -> (r: Option<&'a String>)
    requires
        data_wf(*data),
    ensures
        match r {
            Some(v) => data_lookup(*data, key@) == Some(v@),
            None => data_lookup(*data, key@) is None,
        },
{
    match data {
        Some(m) => m.get(key),
        None => None,
    }
}

/// A request: its kind, its number, and optional named data.
#[derive(Clone, Debug)]
pub struct Request {
    pub request_type: RequestType,
    pub request_id: u64,
    pub request_data: Option<StringMap>,
}

/// The reply to a request.
#[derive(Clone, Debug)]
pub struct Response {
    pub request_id: u64,
    pub success: bool,
    pub error_message: Option<String>,
    pub response_data: Option<StringMap>,
}

impl Request {
    /// The data map, if present, is well formed.
    pub open spec fn wf(&self) -> bool {
        data_wf(self.request_data)
    }

    /// A request numbered `request_id`, without data.
    pub fn new(request_type: RequestType, request_id: u64) -> (r: Request)
        ensures
            r.wf(),
            r.request_type == request_type,
            r.request_id == request_id,
            r.request_data is None,
    {
        Request { request_type, request_id, request_data: None }
    }

    /// A request numbered `request_id`, with data.
    pub fn new_with_data(request_type: RequestType, request_data: StringMap, request_id: u64) -> (r: Request)
        requires
            request_data.wf(),
        ensures
            r.wf(),
            r.request_type == request_type,
            r.request_id == request_id,
            r.request_data == Some(request_data),
    {
        Request { request_type, request_id, request_data: Some(request_data) }
    }

    /// Sets the data field `key` to `value`, creating the data if absent.
    pub fn add_data(&mut self, key: String, value: String)
        requires
            old(self).wf(),
        ensures
            final(self).wf(),
            final(self).request_type == old(self).request_type,
            final(self).request_id == old(self).request_id,
            final(self).request_data is Some,
            data_map(final(self).request_data) == data_map(old(self).request_data).insert(key@, value@),
    {
        add_to_data(&mut self.request_data, key, value);
    }

    /// The data field `key`, if present.
    pub fn get_data(&self, key: &str) -> (r: Option<&String>)
        requires
            self.wf(),
        ensures
            match r {
                Some(v) => data_lookup(self.request_data, key@) == Some(v@),
                None => data_lookup(self.request_data, key@) is None,
            },
    {
        get_from_data(&self.request_data, key)
    }

    /// All data, if present.
    pub fn get_data_all(&self) -> (r: Option<&StringMap>)
        ensures
            match (r, self.request_data) {
                (Some(m), Some(d)) => *m == d,
                (None, None) => true,
                _ => false,
            },
    {
        match &self.request_data {
            Some(m) => Some(m),
            None => None,
        }
    }

    /// The success reply to this request.
    pub fn build_success_response(&self) -> (r: Response)
        ensures
            r.wf(),
            r.request_id == self.request_id,
            r.success,
            r.error_message is None,
            r.response_data is None,
    {
        Response::new(self.request_id, true, None, None)
    }

    /// The failure reply to this request, with a message.
    pub fn build_error_response(&self, error_message: &str) -> (r: Response)
        ensures
            r.wf(),
            r.request_id == self.request_id,
            !r.success,
            r.error_message matches Some(m) && m@ == error_message@,
            r.response_data is None,
    {
        Response::new(self.request_id, false, Some(owned(error_message)), None)
    }
}

impl Response {
    /// The data map, if present, is well formed.
    pub open spec fn wf(&self) -> bool {
        data_wf(self.response_data)
    }

    pub fn new(
        request_id: u64,
        success: bool,
        error_message: Option<String>,
        response_data: Option<StringMap>,
    ) -> (r: Response)
        requires
            data_wf(response_data),
        ensures
            r.wf(),
            r.request_id == request_id,
            r.success == success,
            r.error_message == error_message,
            r.response_data == response_data,
    {
        Response { request_id, success, error_message, response_data }
    }

    /// Sets the data field `key` to `value`, creating the data if absent.
    pub fn add_data(&mut self, key: String, value: String)
        requires
            old(self).wf(),
        ensures
            final(self).wf(),
            final(self).request_id == old(self).request_id,
            final(self).success == old(self).success,
            final(self).error_message == old(self).error_message,
            final(self).response_data is Some,
            data_map(final(self).response_data) == data_map(old(self).response_data).insert(key@, value@),
    {
        add_to_data(&mut self.response_data, key, value);
    }

    /// The data field `key`, if present.
    pub fn get_data(&self, key: &str) -> (r: Option<&String>)
        requires
            self.wf(),
        ensures
            match r {
                Some(v) => data_lookup(self.response_data, key@) == Some(v@),
                None => data_lookup(self.response_data, key@) is None,
            },
    {
        get_from_data(&self.response_data, key)
    }

    /// All data, if present.
    pub fn get_data_all(&self) -> (r: Option<&StringMap>)
        ensures
            match (r, self.response_data) {
                (Some(m), Some(d)) => *m == d,
                (None, None) => true,
                _ => false,
            },
    {
        match &self.response_data {
            Some(m) => Some(m),
            None => None,
        }
    }

    /// The success reply to request `request_id`.
    pub fn success(request_id: u64) -> (r: Response)
        ensures
            r.wf(),
            r.request_id == request_id,
            r.success,
            r.error_message is None,
            r.response_data is None,
    {
        Response::new(request_id, true, None, None)
    }

    pub fn is_ok(&self) -> (r: bool)
        ensures
            r == self.success,
    {
        self.success
    }

    pub fn is_error(&self) -> (r: bool)
        ensures
            r == !self.success,
    {
        !self.success
    }

    pub fn get_error_message(&self) -> (r: Option<&String>)
        ensures
            match (r, self.error_message) {
                (Some(m), Some(e)) => *m == e,
                (None, None) => true,
                _ => false,
            },
    {
        match &self.error_message {
            Some(m) => Some(m),
            None => None,
        }
    }

    pub fn get_response_data(&self) -> (r: Option<&StringMap>)
        ensures
            match (r, self.response_data) {
                (Some(m), Some(d)) => *m == d,
                (None, None) => true,
                _ => false,
            },
    {
        match &self.response_data {
            Some(m) => Some(m),
            None => None,
        }
    }
}

/// A keep-alive request.
pub fn create_ping_request(request_id: u64) -> (r: Request)
    ensures
        r.wf(),
        r.request_type == RequestType::Ping,
        r.request_id == request_id,
        r.request_data is None,
{
    Request::new(RequestType::Ping, request_id)
}

/// A request for the stream's metadata.
pub fn create_stream_meta_request(request_id: u64) -> (r: Request)
    ensures
        r.wf(),
        r.request_type == RequestType::GetStreamMetadata,
        r.request_id == request_id,
        r.request_data is None,
{
    Request::new(RequestType::GetStreamMetadata, request_id)
}

/// A request to connect to `target` on behalf of the client at `source_ip`.
pub fn create_connect_request(target: &str, source_ip: &str, request_id: u64) -> (r: Request)
    ensures
        r.wf(),
        r.request_type == RequestType::Connect,
        r.request_id == request_id,
        data_map(r.request_data) == Map::<Seq<char>, Seq<char>>::empty().insert("target"@, target@).insert(
            "source_ip"@,
            source_ip@,
        ),
{
    let mut request = Request::new(RequestType::Connect, request_id);
    request.add_data(owned("target"), owned(target));
    request.add_data(owned("source_ip"), owned(source_ip));
    request
}

/// Data written by `add_data` is read back by `get_data`; other keys keep
/// their values.
pub proof fn law_read_after_add(data: Option<StringMap>, key: Seq<char>, value: Seq<char>, other: Seq<char>)
    requires
        data_wf(data),
    ensures
        ({
            let added = data_map(data).insert(key, value);
            &&& added.contains_key(key) && added[key] == value
            &&& other != key ==> (added.contains_key(other) == data_map(data).contains_key(other))
            &&& (other != key && data_map(data).contains_key(other)) ==> added[other] == data_map(data)[other]
        }),
{
}

// ---------------------------------------------------------------------------
// The server's handling of a request

/// The build a peer runs: branch, build time and build host.
#[derive(Clone, Debug)]
pub struct BuildInfo {
    pub branch: String,
    pub time: String,
    pub host: String,
}

/// What the server loop does after answering a request.
#[derive(Clone, Copy, Debug, PartialEq, Eq, Structural)]
pub enum ServerNextStep {
    ContinueLoop,
    Disconnect,
    StartDataPiping,
}

/// What the server does with a request: answer it, or first open a
/// connection to the target and then answer with `complete_connect_request`.
pub enum ServerRequestStep {
    Reply(Response, ServerNextStep),
    ConnectUpstream(String),
}

/// The metadata the server reports for a stream.
pub open spec fn metadata_map(build: BuildInfo, connection: u64, stream_connection: u64, stream: u64) -> Map<
    Seq<char>,
    Seq<char>,
> {
    Map::empty().insert("build_branch"@, build.branch@).insert("build_time"@, build.time@).insert(
        "build_host"@,
        build.host@,
    ).insert("connection_id"@, connection_id_text(connection)).insert(
        "stream_id"@,
        stream_id_text(stream_connection, stream),
    )
}

/// A connect request names its target and its client's address.
pub open spec fn connect_fields_present(request: Request) -> bool {
    &&& data_lookup(request.request_data, "target"@) is Some
    &&& data_lookup(request.request_data, "source_ip"@) is Some
}

/// `resp` is the plain success reply to request `id`.
pub open spec fn is_success_reply(resp: Response, id: u64) -> bool {
    &&& resp.wf()
    &&& resp.request_id == id
    &&& resp.success
    &&& resp.error_message is None
    &&& resp.response_data is None
}

/// `resp` is the failure reply to request `id` with message `message`.
pub open spec fn is_error_reply(resp: Response, id: u64, message: Seq<char>) -> bool {
    &&& resp.wf()
    &&& resp.request_id == id
    &&& !resp.success
    &&& resp.error_message matches Some(m) && m@ == message
    &&& resp.response_data is None
}

/// The server's decision on one request. Metadata and ping requests are
/// answered and the loop goes on; a connect request is refused and the
/// stream closed when the access list denies it, and otherwise the server
/// connects to the target.
pub fn handle_server_request(
    connection_id: &ConnectionId,
    stream_id: &StreamId,
    request: &Request,
    build: &BuildInfo,
    acl: Option<&ACLFile>,
) -> (r: ServerRequestStep)
    requires
        request.wf(),
        request.request_type == RequestType::Connect ==> connect_fields_present(*request),
    ensures
        request.request_type == RequestType::GetStreamMetadata ==> (r matches ServerRequestStep::Reply(
            resp,
            step,
        ) && step == ServerNextStep::ContinueLoop && resp.wf() && resp.request_id == request.request_id
            && resp.success && resp.error_message is None && resp.response_data is Some && data_map(
            resp.response_data,
        ) == metadata_map(*build, connection_id@, stream_id.connection_id_spec(), stream_id.stream_id_spec())),
        request.request_type == RequestType::Ping ==> (r matches ServerRequestStep::Reply(resp, step)
            && step == ServerNextStep::ContinueLoop && is_success_reply(resp, request.request_id)),
        request.request_type == RequestType::Connect ==> ({
            let target = data_lookup(request.request_data, "target"@)->0;
            let source_ip = data_lookup(request.request_data, "source_ip"@)->0;
            let list = match acl {
                Some(a) => Some(*a),
                None => None,
            };
            if acl_permits(list, source_ip, target) {
                r matches ServerRequestStep::ConnectUpstream(t) && t@ == target
            } else {
                r matches ServerRequestStep::Reply(resp, step) && step == ServerNextStep::Disconnect
                    && is_error_reply(resp, request.request_id, "ACL denied"@)
            }
        }),
{
    match request.request_type {
        RequestType::GetStreamMetadata => {
            let mut response = Response::success(request.request_id);
            response.add_data(owned("build_branch"), build.branch.clone());
            response.add_data(owned("build_time"), build.time.clone());
            response.add_data(owned("build_host"), build.host.clone());
            response.add_data(owned("connection_id"), connection_id.display_text());
            response.add_data(owned("stream_id"), stream_id.display_text());
            ServerRequestStep::Reply(response, ServerNextStep::ContinueLoop)
        },
        RequestType::Connect => {
            let target = request.get_data("target").unwrap();
            let source_ip = request.get_data("source_ip").unwrap();
            if is_acl_allowed(acl, source_ip.as_str(), target.as_str()) {
                ServerRequestStep::ConnectUpstream(target.clone())
            } else {
                ServerRequestStep::Reply(request.build_error_response("ACL denied"), ServerNextStep::Disconnect)
            }
        },
        RequestType::Ping => ServerRequestStep::Reply(Response::success(request.request_id), ServerNextStep::ContinueLoop),
    }
}

/// The answer to a connect request once the connection to the target was
/// attempted: success and data piping, or a failure reply and disconnection.
pub fn complete_connect_request(request: &Request, connected: bool) -> (r: (Response, ServerNextStep))
    ensures
        connected ==> is_success_reply(r.0, request.request_id) && r.1 == ServerNextStep::StartDataPiping,
        !connected ==> is_error_reply(r.0, request.request_id, "TCP connection failed"@) && r.1
            == ServerNextStep::Disconnect,
{
    if connected {
        (request.build_success_response(), ServerNextStep::StartDataPiping)
    } else {
        (request.build_error_response("TCP connection failed"), ServerNextStep::Disconnect)
    }
}

// ---------------------------------------------------------------------------
// The client's check of the server's metadata

/// Why the client refuses the server's metadata.
#[derive(Clone, Copy, Debug, PartialEq, Eq, Structural)]
pub enum HandshakeError {
    /// The server answered with a failure.
    Rejected,
    BuildBranchMismatch,
    BuildTimeMismatch,
    BuildHostMismatch,
    BadConnectionId(IdError),
    BadStreamId(IdError),
}

/// A successful metadata reply carries both identifiers.
pub open spec fn id_fields_present(response: Response) -> bool {
    response.success ==> {
        &&& data_lookup(response.response_data, "connection_id"@) is Some
        &&& data_lookup(response.response_data, "stream_id"@) is Some
    }
}

/// A successful metadata reply carries both identifiers and the three build fields.
pub open spec fn handshake_fields_present(response: Response) -> bool {
    &&& id_fields_present(response)
    &&& response.success ==> {
        &&& data_lookup(response.response_data, "build_branch"@) is Some
        &&& data_lookup(response.response_data, "build_time"@) is Some
        &&& data_lookup(response.response_data, "build_host"@) is Some
    }
}

/// The identifiers a metadata reply reports: the connection number and the
/// stream's two numbers.
pub open spec fn metadata_ids(response: Response) -> Result<(u64, (u64, u64)), HandshakeError> {
    let field = |k: Seq<char>| data_lookup(response.response_data, k)->0;
    if !response.success {
        Err(HandshakeError::Rejected)
    } else {
        match connection_id_from_text(field("connection_id"@)) {
            Err(e) => Err(HandshakeError::BadConnectionId(e)),
            Ok(c) => match stream_id_from_text(field("stream_id"@)) {
                Err(e) => Err(HandshakeError::BadStreamId(e)),
                Ok(s) => Ok((c, s)),
            },
        }
    }
}

/// The outcome of the handshake: the reported identifiers, when the server
/// runs the same build.
pub open spec fn handshake_outcome(response: Response, local: BuildInfo) -> Result<(u64, (u64, u64)), HandshakeError> {
    let field = |k: Seq<char>| data_lookup(response.response_data, k)->0;
    if !response.success {
        Err(HandshakeError::Rejected)
    } else if field("build_branch"@) != local.branch@ {
        Err(HandshakeError::BuildBranchMismatch)
    } else if field("build_time"@) != local.time@ {
        Err(HandshakeError::BuildTimeMismatch)
    } else if field("build_host"@) != local.host@ {
        Err(HandshakeError::BuildHostMismatch)
    } else {
        metadata_ids(response)
    }
}

/// Reads the identifiers a metadata reply reports.
pub fn parse_stream_metadata(response: &Response) -> (r: Result<(ConnectionId, StreamId), HandshakeError>)
    requires
        response.wf(),
        id_fields_present(*response),
    ensures
        match metadata_ids(*response) {
            Ok((c, (sc, ss))) => r matches Ok((conn, stream)) && conn@ == c && stream.connection_id_spec() == sc
                && stream.stream_id_spec() == ss,
            Err(e) => r matches Err(e2) && e2 == e,
        },
{
    if response.is_error() {
        return Err(HandshakeError::Rejected);
    }
    let connection_id_string = response.get_data("connection_id").unwrap().clone();
    let stream_id_string = response.get_data("stream_id").unwrap().clone();
    let connection_id = match ConnectionId::from_string(connection_id_string) {
        Ok(c) => c,
        Err(e) => return Err(HandshakeError::BadConnectionId(e)),
    };
    let stream_id = match StreamId::from_string(stream_id_string) {
        Ok(s) => s,
        Err(e) => return Err(HandshakeError::BadStreamId(e)),
    };
    Ok((connection_id, stream_id))
}

/// The client's check of the server's metadata reply: the server must run
/// the same build, and the identifiers it reports are read.
pub fn check_handshake_response(response: &Response, local: &BuildInfo) -> (r: Result<(ConnectionId, StreamId), HandshakeError>)
    requires
        response.wf(),
        handshake_fields_present(*response),
    ensures
        match handshake_outcome(*response, *local) {
            Ok((c, (sc, ss))) => r matches Ok((conn, stream)) && conn@ == c && stream.connection_id_spec() == sc
                && stream.stream_id_spec() == ss,
            Err(e) => r matches Err(e2) && e2 == e,
        },
{
    if response.is_error() {
        return Err(HandshakeError::Rejected);
    }
    let build_branch = response.get_data("build_branch").unwrap();
    let build_time = response.get_data("build_time").unwrap();
    let build_host = response.get_data("build_host").unwrap();
    if !(*build_branch == local.branch) {
        return Err(HandshakeError::BuildBranchMismatch);
    }
    if !(*build_time == local.time) {
        return Err(HandshakeError::BuildTimeMismatch);
    }
    if !(*build_host == local.host) {
        return Err(HandshakeError::BuildHostMismatch);
    }
    parse_stream_metadata(response)
}

/// The metadata reply of a server running the same build passes the
/// client's check, and the client reads back the server's identifiers.
pub proof fn law_metadata_handshake_roundtrip(
    response: Response,
    build: BuildInfo,
    connection: u64,
    stream_connection: u64,
    stream: u64,
)
    requires
        response.success,
        response.response_data is Some,
        data_map(response.response_data) == metadata_map(build, connection, stream_connection, stream),
    ensures
        handshake_fields_present(response),
        handshake_outcome(response, build) == Ok::<(u64, (u64, u64)), HandshakeError>(
            (connection, (stream_connection, stream)),
        ),
{
    reveal_strlit("build_branch");
    reveal_strlit("build_time");
    reveal_strlit("build_host");
    reveal_strlit("connection_id");
    reveal_strlit("stream_id");
    assert("build_branch"@.len() != "build_time"@.len());
    assert("build_branch"@.len() != "build_host"@.len());
    assert("build_time"@[6] != "build_host"@[6]);
    assert("connection_id"@.len() != "stream_id"@.len());
    assert("build_branch"@.len() != "connection_id"@.len() && "build_branch"@.len() != "stream_id"@.len());
    assert("build_time"@.len() != "connection_id"@.len() && "build_time"@.len() != "stream_id"@.len());
    assert("build_host"@.len() != "connection_id"@.len() && "build_host"@.len() != "stream_id"@.len());
    law_connection_id_text_roundtrip(connection);
    law_stream_id_text_roundtrip(stream_connection, stream);
}


/// The client accepts a server's metadata only when the server runs the same
/// build: an accepted reply is a success whose branch, build time and build
/// host are the local ones, so a reply that differs in any of them is refused.
pub proof fn law_handshake_accepts_only_same_build(response: Response, local: BuildInfo)
    requires
        handshake_fields_present(response),
    ensures
        handshake_outcome(response, local) is Ok ==> {
            &&& response.success
            &&& data_lookup(response.response_data, "build_branch"@) == Some(local.branch@)
            &&& data_lookup(response.response_data, "build_time"@) == Some(local.time@)
            &&& data_lookup(response.response_data, "build_host"@) == Some(local.host@)
        },
        response.success && data_lookup(response.response_data, "build_time"@) != Some(local.time@)
            ==> handshake_outcome(response, local) is Err,
{
}

} // verus!
