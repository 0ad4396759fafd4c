//! The STOMP frame model: the command vocabulary, the frame data structure,
//! and the construction of protocol-level error frames.

use vstd::prelude::*;
use vstd::string::StringExecFns;

verus! {

/// The ways a text message can fail to parse as a STOMP frame.
#[derive(Clone, Copy, Debug, PartialEq, Eq, Structural)]
pub enum StompError {
    /// The first non-blank line is not one of the fifteen command tokens.
    UnknownCommand,
    /// A header line has no colon separator.
    MalformedHeader,
}

/// The closed vocabulary of the fifteen STOMP verbs.
#[derive(Clone, Copy, Debug, PartialEq, Eq, Structural)]
pub enum StompCommand {
    Connect,
    Stomp,
    Connected,
    Error,
    Send,
    Subscribe,
    Unsubscribe,
    Begin,
    Commit,
    Abort,
    Ack,
    Nack,
    Disconnect,
    Message,
    Receipt,
}

/// The exact uppercase wire token of a command.
pub open spec fn spec_token(c: StompCommand) -> Seq<char> {
    match c {
        StompCommand::Connect => "CONNECT"@,
        StompCommand::Stomp => "STOMP"@,
        StompCommand::Connected => "CONNECTED"@,
        StompCommand::Error => "ERROR"@,
        StompCommand::Send => "SEND"@,
        StompCommand::Subscribe => "SUBSCRIBE"@,
        StompCommand::Unsubscribe => "UNSUBSCRIBE"@,
        StompCommand::Begin => "BEGIN"@,
        StompCommand::Commit => "COMMIT"@,
        StompCommand::Abort => "ABORT"@,
        StompCommand::Ack => "ACK"@,
        StompCommand::Nack => "NACK"@,
        StompCommand::Disconnect => "DISCONNECT"@,
        StompCommand::Message => "MESSAGE"@,
        StompCommand::Receipt => "RECEIPT"@,
    }
}

/// The reverse of `spec_token`: a case-sensitive exact match against the
/// fifteen tokens, failing on every other string.
pub open spec fn spec_token_to_command(s: Seq<char>) -> Result<StompCommand, StompError> {
    if s == spec_token(StompCommand::Ack) {
        Ok(StompCommand::Ack)
    } else if s == spec_token(StompCommand::Send) {
        Ok(StompCommand::Send)
    } else if s == spec_token(StompCommand::Nack) {
        Ok(StompCommand::Nack)
    } else if s == spec_token(StompCommand::Begin) {
        Ok(StompCommand::Begin)
    } else if s == spec_token(StompCommand::Abort) {
        Ok(StompCommand::Abort)
    } else if s == spec_token(StompCommand::Error) {
        Ok(StompCommand::Error)
    } else if s == spec_token(StompCommand::Stomp) {
        Ok(StompCommand::Stomp)
    } else if s == spec_token(StompCommand::Commit) {
        Ok(StompCommand::Commit)
    } else if s == spec_token(StompCommand::Connect) {
        Ok(StompCommand::Connect)
    } else if s == spec_token(StompCommand::Message) {
        Ok(StompCommand::Message)
    } else if s == spec_token(StompCommand::Receipt) {
        Ok(StompCommand::Receipt)
    } else if s == spec_token(StompCommand::Subscribe) {
        Ok(StompCommand::Subscribe)
    } else if s == spec_token(StompCommand::Connected) {
        Ok(StompCommand::Connected)
    } else if s == spec_token(StompCommand::Disconnect) {
        Ok(StompCommand::Disconnect)
    } else if s == spec_token(StompCommand::Unsubscribe) {
        Ok(StompCommand::Unsubscribe)
    } else {
        Err(StompError::UnknownCommand)
    }
}

/// String equality by view, through `String`'s specified `==`.
fn str_eq(a: &str, b: &str) -> (r: bool)
    ensures
        r == (a@ == b@),
{
    let sa: String = a.to_owned();
    let sb: String = b.to_owned();
    sa == sb
}

impl StompCommand {
    /// The exact uppercase wire token of this command.
    pub fn as_str(&self) -> (r: &'static str)
        ensures
            r@ == spec_token(*self),
    {
        match self {
            StompCommand::Ack => "ACK",
            StompCommand::Send => "SEND",
            StompCommand::Nack => "NACK",
            StompCommand::Begin => "BEGIN",
            StompCommand::Abort => "ABORT",
            StompCommand::Error => "ERROR",
            StompCommand::Stomp => "STOMP",
            StompCommand::Commit => "COMMIT",
            StompCommand::Connect => "CONNECT",
            StompCommand::Message => "MESSAGE",
            StompCommand::Receipt => "RECEIPT",
            StompCommand::Subscribe => "SUBSCRIBE",
            StompCommand::Connected => "CONNECTED",
            StompCommand::Disconnect => "DISCONNECT",
            StompCommand::Unsubscribe => "UNSUBSCRIBE",
        }
    }

    /// Translate a wire token back into a command; any string that is not
    /// exactly one of the fifteen tokens is an unknown command.
    pub fn from_token(value: &str) -> (r: Result<StompCommand, StompError>)
        ensures
            r == spec_token_to_command(value@),
    {
        if str_eq(value, "ACK") {
            Ok(StompCommand::Ack)
        } else if str_eq(value, "SEND") {
            Ok(StompCommand::Send)
        } else if str_eq(value, "NACK") {
            Ok(StompCommand::Nack)
        } else if str_eq(value, "BEGIN") {
            Ok(StompCommand::Begin)
        } else if str_eq(value, "ABORT") {
            Ok(StompCommand::Abort)
        } else if str_eq(value, "ERROR") {
            Ok(StompCommand::Error)
        } else if str_eq(value, "STOMP") {
            Ok(StompCommand::Stomp)
        } else if str_eq(value, "COMMIT") {
            Ok(StompCommand::Commit)
        } else if str_eq(value, "CONNECT") {
            Ok(StompCommand::Connect)
        } else if str_eq(value, "MESSAGE") {
            Ok(StompCommand::Message)
        } else if str_eq(value, "RECEIPT") {
            Ok(StompCommand::Receipt)
        } else if str_eq(value, "SUBSCRIBE") {
            Ok(StompCommand::Subscribe)
        } else if str_eq(value, "CONNECTED") {
            Ok(StompCommand::Connected)
        } else if str_eq(value, "DISCONNECT") {
            Ok(StompCommand::Disconnect)
        } else if str_eq(value, "UNSUBSCRIBE") {
            Ok(StompCommand::Unsubscribe)
        } else {
            Err(StompError::UnknownCommand)
        }
    }
}

/// The forward and reverse token mappings are exact inverses: round-tripping
/// any command through its wire token is lossless.
pub proof fn lemma_token_round_trip(c: StompCommand)
    ensures
        spec_token_to_command(spec_token(c)) == Ok::<StompCommand, StompError>(c),
{
    reveal_strlit("CONNECT");
    reveal_strlit("STOMP");
    reveal_strlit("CONNECTED");
    reveal_strlit("ERROR");
    reveal_strlit("SEND");
    reveal_strlit("SUBSCRIBE");
    reveal_strlit("UNSUBSCRIBE");
    reveal_strlit("BEGIN");
    reveal_strlit("COMMIT");
    reveal_strlit("ABORT");
    reveal_strlit("ACK");
    reveal_strlit("NACK");
    reveal_strlit("DISCONNECT");
    reveal_strlit("MESSAGE");
    reveal_strlit("RECEIPT");
    assert(("CONNECT"@).len() == 7 && ("CONNECT"@)[0] == 'C');
    assert(("STOMP"@).len() == 5 && ("STOMP"@)[0] == 'S');
    assert(("CONNECTED"@).len() == 9 && ("CONNECTED"@)[0] == 'C');
    assert(("ERROR"@).len() == 5 && ("ERROR"@)[0] == 'E');
    assert(("SEND"@).len() == 4 && ("SEND"@)[0] == 'S');
    assert(("SUBSCRIBE"@).len() == 9 && ("SUBSCRIBE"@)[0] == 'S');
    assert(("UNSUBSCRIBE"@).len() == 11 && ("UNSUBSCRIBE"@)[0] == 'U');
    assert(("BEGIN"@).len() == 5 && ("BEGIN"@)[0] == 'B');
    assert(("COMMIT"@).len() == 6 && ("COMMIT"@)[0] == 'C');
    assert(("ABORT"@).len() == 5 && ("ABORT"@)[0] == 'A');
    assert(("ACK"@).len() == 3 && ("ACK"@)[0] == 'A');
    assert(("NACK"@).len() == 4 && ("NACK"@)[0] == 'N');
    assert(("DISCONNECT"@).len() == 10 && ("DISCONNECT"@)[0] == 'D');
    assert(("MESSAGE"@).len() == 7 && ("MESSAGE"@)[0] == 'M');
    assert(("RECEIPT"@).len() == 7 && ("RECEIPT"@)[0] == 'R');
    match c {
        StompCommand::Connect => assert(spec_token_to_command(spec_token(c)) == Ok::<StompCommand, StompError>(c)),
        StompCommand::Stomp => assert(spec_token_to_command(spec_token(c)) == Ok::<StompCommand, StompError>(c)),
        StompCommand::Connected => assert(spec_token_to_command(spec_token(c)) == Ok::<StompCommand, StompError>(c)),
        StompCommand::Error => assert(spec_token_to_command(spec_token(c)) == Ok::<StompCommand, StompError>(c)),
        StompCommand::Send => assert(spec_token_to_command(spec_token(c)) == Ok::<StompCommand, StompError>(c)),
        StompCommand::Subscribe => assert(spec_token_to_command(spec_token(c)) == Ok::<StompCommand, StompError>(c)),
        StompCommand::Unsubscribe => assert(spec_token_to_command(spec_token(c)) == Ok::<StompCommand, StompError>(c)),
        StompCommand::Begin => assert(spec_token_to_command(spec_token(c)) == Ok::<StompCommand, StompError>(c)),
        StompCommand::Commit => assert(spec_token_to_command(spec_token(c)) == Ok::<StompCommand, StompError>(c)),
        StompCommand::Abort => assert(spec_token_to_command(spec_token(c)) == Ok::<StompCommand, StompError>(c)),
        StompCommand::Ack => assert(spec_token_to_command(spec_token(c)) == Ok::<StompCommand, StompError>(c)),
        StompCommand::Nack => assert(spec_token_to_command(spec_token(c)) == Ok::<StompCommand, StompError>(c)),
        StompCommand::Disconnect => assert(spec_token_to_command(spec_token(c)) == Ok::<StompCommand, StompError>(c)),
        StompCommand::Message => assert(spec_token_to_command(spec_token(c)) == Ok::<StompCommand, StompError>(c)),
        StompCommand::Receipt => assert(spec_token_to_command(spec_token(c)) == Ok::<StompCommand, StompError>(c)),
    }
}

/// A token is rejected exactly when it matches none of the fifteen commands.
pub proof fn lemma_unknown_token(s: Seq<char>)
    ensures
        spec_token_to_command(s) is Err <==> (forall|c: StompCommand| s != spec_token(c)),
{
}

/// The mathematical content of a frame: its command, its ordered header
/// pairs, and its optional body, all as sequences of characters.
pub ghost struct FrameModel {
    pub command: StompCommand,
    pub headers: Seq<(Seq<char>, Seq<char>)>,
    pub body: Option<Seq<char>>,
}

/// A body after one more line is appended: the first line sets the body,
/// every later line joins it with a single newline separator.
pub open spec fn spec_appended_body(body: Option<Seq<char>>, line: Seq<char>) -> Seq<char> {
    match body {
        None => line,
        Some(b) => b + seq!['\n'] + line,
    }
}

/// The fixed human-readable description of a parse error.
pub open spec fn spec_error_message(e: StompError) -> Seq<char> {
    match e {
        StompError::UnknownCommand => "Unknown command received"@,
        StompError::MalformedHeader => "Malformed header received"@,
    }
}

/// The protocol-legal reply to a parse error: an ERROR frame carrying one
/// `message` header and no body.
pub open spec fn spec_error_frame(e: StompError) -> FrameModel {
    FrameModel {
        command: StompCommand::Error,
        headers: seq![("message"@, spec_error_message(e))],
        body: None,
    }
}

/// One STOMP protocol message: a command, an ordered header list in which
/// duplicate keys are legal and order is kept, and an optional body.
pub struct StompFrame {
    command: StompCommand,
    headers: Vec<(String, String)>,
    body: Option<String>,
}

impl View for StompFrame {
    type V = FrameModel;

    closed spec fn view(&self) -> FrameModel {
        FrameModel {
            command: self.command,
            headers: self.headers.deep_view(),
            body: match self.body {
                Some(b) => Some(b@),
                None => None,
            },
        }
    }
}

impl StompFrame {
    /// An empty frame: the given command, no headers, no body.
    pub fn new(command: StompCommand) -> (r: StompFrame)
        ensures
            r@.command == command,
            r@.headers == Seq::<(Seq<char>, Seq<char>)>::empty(),
            r@.body is None,
    {
        let r = StompFrame { command, headers: Vec::new(), body: None };
        proof {
            assert(r@.headers =~= Seq::<(Seq<char>, Seq<char>)>::empty());
        }
        r
    }

    /// The command of this frame.
    pub fn command(&self) -> (r: StompCommand)
        ensures
            r == self@.command,
    {
        self.command
    }

    /// The header pairs, in the order they were appended.
    pub fn headers(&self) -> (r: &[(String, String)])
        ensures
            r@.len() == self@.headers.len(),
            forall|i: int|
                0 <= i < r@.len() ==> (#[trigger] r@[i].0@, r@[i].1@) == self@.headers[i],
    {
        self.headers.as_slice()
    }

    /// Append a header pair at the end of the list; nothing is deduplicated
    /// or overwritten.
    pub fn push_header(&mut self, key: String, value: String)
        ensures
            final(self)@.command == old(self)@.command,
            final(self)@.body == old(self)@.body,
            final(self)@.headers == old(self)@.headers.push((key@, value@)),
    {
        let ghost prev = self@.headers;
        let ghost kv = (key@, value@);
        self.headers.push((key, value));
        proof {
            assert(self@.headers =~= prev.push(kv));
        }
    }

    /// Replace the body wholesale, handing back whatever body was there
    /// before, so a caller can detect an unexpected double-set.
    pub fn set_body(&mut self, body: String) -> (r: Option<String>)
        ensures
            final(self)@.command == old(self)@.command,
            final(self)@.headers == old(self)@.headers,
            final(self)@.body == Some(body@),
            match r {
                Some(prev) => old(self)@.body == Some(prev@),
                None => old(self)@.body is None,
            },
    {
        let prev = self.body.take();
        self.body = Some(body);
        prev
    }

    /// The body, if one has been set or accumulated.
    pub fn body(&self) -> (r: Option<&str>)
        ensures
            match r {
                Some(b) => self@.body == Some(b@),
                None => self@.body is None,
            },
    {
        match &self.body {
            Some(b) => Some(b.as_str()),
            None => None,
        }
    }

    /// Append one line to the body: the first line sets the body, every
    /// later one is joined to it with a single newline, so previously
    /// accumulated content is never dropped.
    pub fn push_body(&mut self, line: String)
        ensures
            final(self)@.command == old(self)@.command,
            final(self)@.headers == old(self)@.headers,
            final(self)@.body == Some(spec_appended_body(old(self)@.body, line@)),
    {
        let prev = self.body.take();
        match prev {
            None => {
                self.body = Some(line);
            },
            Some(b) => {
                let mut joined = b;
                joined.append("\n");
                joined.append(line.as_str());
                proof {
                    reveal_strlit("\n");
                    assert(("\n"@) =~= seq!['\n']);
                }
                self.body = Some(joined);
            },
        }
    }

    /// Build the protocol-legal reply to a parse error: an ERROR frame with
    /// a single `message` header describing the error, and no body.
    pub fn error_frame(error: StompError) -> (r: StompFrame)
        ensures
            r@ == spec_error_frame(error),
    {
        let mut frame = StompFrame::new(StompCommand::Error);
        let text: &str = match error {
            StompError::UnknownCommand => "Unknown command received",
            StompError::MalformedHeader => "Malformed header received",
        };
        frame.push_header("message".to_owned(), text.to_owned());
        proof {
            assert(frame@.headers =~= spec_error_frame(error).headers);
        }
        frame
    }
}

} // verus!
