//! Tunnels to an upstream, opened by `CONNECT`.

use vstd::prelude::*;

use crate::headers;
use crate::http_proxy;
use crate::http_proxy::text_response;
use crate::message::ProxyResponse;
use crate::text;
use crate::uri::Uri;

verus! {

/// Why no tunnel can be opened to a target.
#[derive(Debug, Clone, Copy, PartialEq, Eq, Structural)]
pub enum ConnectError {
    MissingAuthority,
    EmptyHost,
    MissingPort,
}

impl DeepView for ConnectError {
    type V = ConnectError;

    open spec fn deep_view(&self) -> ConnectError {
        *self
    }
}

impl ConnectError {
    /// The text of the error.
    pub open spec fn text(self) -> Seq<char> {
        match self {
            ConnectError::MissingAuthority => "CONNECT target is missing authority"@,
            ConnectError::EmptyHost => "CONNECT target host is empty"@,
            ConnectError::MissingPort => "CONNECT target must include a port"@,
        }
    }

    /// The text of the error.
    pub fn to_text(&self) -> (r: String)
        ensures
            r@ == self.text(),
    {
        match self {
            ConnectError::MissingAuthority => "CONNECT target is missing authority".to_owned(),
            ConnectError::EmptyHost => "CONNECT target host is empty".to_owned(),
            ConnectError::MissingPort => "CONNECT target must include a port".to_owned(),
        }
    }
}

/// The authority that a tunnel to `target` leads to, which names a host and a port.
pub open spec fn tunnel_end(target: crate::uri::UriView) -> Result<Seq<char>, ConnectError> {
    match target.authority {
        None => Err(ConnectError::MissingAuthority),
        Some(authority) => if authority.host.len() == 0 {
            Err(ConnectError::EmptyHost)
        } else if authority.port is None {
            Err(ConnectError::MissingPort)
        } else {
            Ok(authority.text)
        },
    }
}

/// The authority that a tunnel to `target` leads to.
pub fn connect_authority(target: &Uri) -> (r: Result<String, ConnectError>)
    ensures
        crate::views::outcome(r) == tunnel_end(target.deep_view()),
{
    match &target.authority {
        None => Err(ConnectError::MissingAuthority),
        Some(authority) => if authority.host.as_str().is_empty() {
            Err(ConnectError::EmptyHost)
        } else if authority.port.is_none() {
            Err(ConnectError::MissingPort)
        } else {
            Ok(authority.text.clone())
        },
    }
}

/// What has happened to a request for a tunnel.
#[derive(Debug)]
pub enum ConnectEvent {
    /// The request came in, for this target.
    Received { target: Uri },
    /// The connection that was asked for stands.
    Connected,
    /// The connection that was asked for could not be made.
    Refused { message: String },
}

/// What to do next about a request for a tunnel.
#[derive(Debug)]
pub enum ConnectAction {
    /// Connect to the authority.
    Connect { authority: String },
    /// Answer, and leave it at that.
    Reply { response: ProxyResponse },
    /// Answer, and then pass on whatever comes from either side.
    Tunnel { response: ProxyResponse },
}

/// The content of a [`ConnectEvent`].
#[verifier::ext_equal]
pub enum ConnectEventView {
    Received { target: crate::uri::UriView },
    Connected,
    Refused { message: Seq<char> },
}

/// The content of a [`ConnectAction`].
#[verifier::ext_equal]
pub enum ConnectActionView {
    Connect { authority: Seq<char> },
    Reply { response: crate::message::ResponseView },
    Tunnel { response: crate::message::ResponseView },
}

impl DeepView for ConnectEvent {
    type V = ConnectEventView;

    open spec fn deep_view(&self) -> ConnectEventView {
        match *self {
            ConnectEvent::Received { target } => ConnectEventView::Received {
                target: target.deep_view(),
            },
            ConnectEvent::Connected => ConnectEventView::Connected,
            ConnectEvent::Refused { message } => ConnectEventView::Refused { message: message@ },
        }
    }
}

impl DeepView for ConnectAction {
    type V = ConnectActionView;

    open spec fn deep_view(&self) -> ConnectActionView {
        match *self {
            ConnectAction::Connect { authority } => ConnectActionView::Connect {
                authority: authority@,
            },
            ConnectAction::Reply { response } => ConnectActionView::Reply {
                response: response.deep_view(),
            },
            ConnectAction::Tunnel { response } => ConnectActionView::Tunnel {
                response: response.deep_view(),
            },
        }
    }
}

/// The answer that opens a tunnel.
pub open spec fn tunnel_reply() -> crate::message::ResponseView {
    crate::message::ResponseView {
        status: 200,
        headers: headers::no_headers(),
        body: Seq::empty(),
    }
}

/// What to do after `event`.
pub open spec fn connect_step(event: ConnectEventView) -> ConnectActionView {
    match event {
        ConnectEventView::Received { target } => match tunnel_end(target) {
            Ok(authority) => ConnectActionView::Connect { authority },
            Err(error) => ConnectActionView::Reply {
                response: http_proxy::text_reply(
                    400,
                    "invalid CONNECT target: "@ + error.text() + "\n"@,
                ),
            },
        },
        ConnectEventView::Connected => ConnectActionView::Tunnel { response: tunnel_reply() },
        ConnectEventView::Refused { message } => ConnectActionView::Reply {
            response: http_proxy::text_reply(
                502,
                "failed to connect CONNECT target: "@ + message + "\n"@,
            ),
        },
    }
}

/// What to do after `event`: a target that names a host and a port is connected to, and the
/// tunnel is opened once that has succeeded.
pub fn handle_connect_request(event: ConnectEvent) -> (action: ConnectAction)
    ensures
        action.deep_view() == connect_step(event.deep_view()),
{
    match event {
        ConnectEvent::Received { target } => match connect_authority(&target) {
            Ok(authority) => ConnectAction::Connect { authority },
            Err(error) => {
                let message = text::join3(
                    "invalid CONNECT target: ",
                    error.to_text().as_str(),
                    "\n",
                );
                ConnectAction::Reply { response: text_response(400, message.as_str()) }
            },
        },
        ConnectEvent::Connected => {
            let response = ProxyResponse {
                status: 200,
                headers: headers::empty_headers(),
                body: Vec::new(),
            };
            ConnectAction::Tunnel { response }
        },
        ConnectEvent::Refused { message } => {
            let message = text::join3(
                "failed to connect CONNECT target: ",
                message.as_str(),
                "\n",
            );
            ConnectAction::Reply { response: text_response(502, message.as_str()) }
        },
    }
}

/// The actions that the request for a tunnel to `target` leads to, where connecting to an
/// authority comes to what `connect` says: nothing, or the message of a failure.
pub open spec fn connect_run(
    target: crate::uri::UriView,
    connect: spec_fn(Seq<char>) -> Result<(), Seq<char>>,
) -> Seq<ConnectActionView> {
    let first = connect_step(ConnectEventView::Received { target });
    match first {
        ConnectActionView::Connect { authority } => {
            let event = match connect(authority) {
                Ok(()) => ConnectEventView::Connected,
                Err(message) => ConnectEventView::Refused { message },
            };
            seq![first, connect_step(event)]
        },
        _ => seq![first],
    }
}

/// A tunnel is opened if and only if the target names a host and a port and the connection to
/// exactly that authority succeeds; the client is then told 200, and otherwise 400 or 502.
pub proof fn tunnels_are_earned(
    target: crate::uri::UriView,
    connect: spec_fn(Seq<char>) -> Result<(), Seq<char>>,
)
    ensures
        connect_run(target, connect).last() is Tunnel <==> (tunnel_end(target) matches Ok(authority)
            && connect(authority) is Ok),
        connect_run(target, connect).last() matches ConnectActionView::Tunnel { response }
            ==> response.status == 200,
        connect_run(target, connect).last() matches ConnectActionView::Reply { response }
            ==> response.status == (if tunnel_end(target) is Err {
            400
        } else {
            502int
        }),
        connect_run(target, connect).last() !is Connect,
{
}

/// A connection is asked for if and only if the target has an authority with a host and a port, and
/// then to the very authority that the target has, character for character.
pub proof fn tunnels_lead_where_the_client_says(
    target: crate::uri::UriView,
    action: ConnectActionView,
)
    requires
        action == connect_step(ConnectEventView::Received { target }),
    ensures
        action matches ConnectActionView::Connect { authority } ==> (target.authority matches Some(
            named,
        ) && named.host.len() > 0 && named.port is Some && authority == named.text),
        target.authority matches Some(named) && named.host.len() > 0 && named.port is Some
            ==> action is Connect,
        action !is Tunnel,
{
}

/// Targets without an authority, a host or a port are answered with 400 and the first of these that
/// they lack.
pub proof fn faulty_targets_are_told(target: crate::uri::UriView, response: crate::message::ResponseView)
    requires
        connect_step(ConnectEventView::Received { target }) == (ConnectActionView::Reply {
            response,
        }),
    ensures
        response.status == 400,
        response.headers.dom() == set!["content-type"@],
        response.headers["content-type"@] == seq![
            vstd::utf8::encode_utf8("text/plain; charset=utf-8"@),
        ],
        target.authority is None ==> response.body == vstd::utf8::encode_utf8(
            "invalid CONNECT target: "@ + "CONNECT target is missing authority"@ + "\n"@,
        ),
        target.authority matches Some(named) ==> named.host.len() == 0 ==> response.body
            == vstd::utf8::encode_utf8(
            "invalid CONNECT target: "@ + "CONNECT target host is empty"@ + "\n"@,
        ),
        target.authority matches Some(named) ==> named.host.len() > 0 ==> response.body
            == vstd::utf8::encode_utf8(
            "invalid CONNECT target: "@ + "CONNECT target must include a port"@ + "\n"@,
        ),
{
    assert(response.headers.dom() =~= set!["content-type"@]);
}

/// Once the connection stands the client is told 200 and nothing else, and the tunnel is opened.
/// Where it could not be made the client is told 502 and why.
pub proof fn connections_are_told(message: Seq<char>)
    ensures
        connect_step(ConnectEventView::Connected) matches ConnectActionView::Tunnel { response }
            && response.status == 200 && response.headers.dom() == Set::<Seq<char>>::empty()
            && response.body.len() == 0,
        connect_step(ConnectEventView::Refused { message }) matches ConnectActionView::Reply {
            response,
        } && response.status == 502 && response.body == vstd::utf8::encode_utf8(
            "failed to connect CONNECT target: "@ + message + "\n"@,
        ) && response.headers.dom() == set!["content-type"@] && response.headers["content-type"@]
            == seq![vstd::utf8::encode_utf8("text/plain; charset=utf-8"@)],
{
    let refused = connect_step(ConnectEventView::Refused { message })->Reply_response;
    assert(refused.headers.dom() =~= set!["content-type"@]);
    let connected = connect_step(ConnectEventView::Connected)->Tunnel_response;
    assert(connected.headers.dom() =~= Set::<Seq<char>>::empty());
}

} // verus!
