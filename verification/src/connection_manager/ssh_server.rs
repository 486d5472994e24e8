//! The handler of one client connection: who may log in, how the bytes that
//! a client sends are gathered into lines, and which lines go to the world.

use vstd::prelude::*;
use vstd::string::*;
use vstd::utf8::encode_utf8;
use crate::connection_manager::{ClientId, Command, Data, DataMessage};
use crate::text::{bytes_match_ignoring_ascii_case, eq_ignore_ascii_case};

verus! {

/// How far a connection has come.
#[derive(Clone, Copy, Debug, PartialEq, Eq, Structural)]
pub enum SessionState {
    /// The client has connected and has not tried to log in.
    Connecting,
    /// The client has tried to log in.
    Authenticating,
    /// The client has a session and is registered with the world.
    Open,
    /// The connection is over.
    Closed,
}

/// The answer to an attempt to log in.
#[derive(Clone, Copy, Debug, PartialEq, Eq, Structural)]
pub enum Auth {
    Accept,
    Reject,
}

/// A public key as it stands in a list of authorized keys.
#[derive(Debug, Clone)]
pub struct SSHKey {
    pub algorithm: String,
    pub key_base64: String,
    pub id: String,
}

/// What follows from bytes that a client sent.
#[derive(Debug, Clone)]
pub struct DataReaction {
    /// Bytes to send back to the client at once, if echo is on.
    pub echo: Option<Vec<u8>>,
    /// A finished line for the world, if the bytes finished one.
    pub message: Option<DataMessage>,
}

/// The handler of a client connection. A server that waits for connections
/// is a handler too: it is the pattern from which the handler of each new
/// connection is made.
#[derive(Clone, Debug)]
pub struct Server {
    client_id: ClientId,
    client_username: Option<String>,
    echo: bool,
    data_buffer: Data,
    server_allowed_keys: Vec<String>,
    state: SessionState,
}

/// The byte that ends a line: a carriage return.
pub const LINE_END: u8 = 0x0d;

/// Whether `data` is a line end and nothing else.
pub open spec fn ends_line(data: Seq<u8>) -> bool {
    data == seq![LINE_END]
}

/// What is echoed for `data`: the bytes themselves, but a line end is echoed
/// as carriage return and line feed, so that the client's cursor moves to
/// the next line.
pub open spec fn echo_of(data: Seq<u8>) -> Seq<u8> {
    if ends_line(data) {
        seq![0x0du8, 0x0au8]
    } else {
        data
    }
}

/// Whether `line` is the keyword `word`, in any mix of upper and lower case.
pub open spec fn is_keyword(line: Seq<u8>, word: Seq<char>) -> bool {
    bytes_match_ignoring_ascii_case(line, encode_utf8(word))
}

/// Whether `line` is a command for the handler itself, which the world
/// never sees: `echo on`, `echo off` or `echo`.
pub open spec fn is_local_command(line: Seq<u8>) -> bool {
    is_keyword(line, "echo on"@) || is_keyword(line, "echo off"@) || is_keyword(line, "echo"@)
}

/// The echo setting after the line `line` was finished.
pub open spec fn echo_after(echo: bool, line: Seq<u8>) -> bool {
    if is_keyword(line, "echo on"@) {
        true
    } else if is_keyword(line, "echo off"@) {
        false
    } else if is_keyword(line, "echo"@) {
        !echo
    } else {
        echo
    }
}

/// Whether `key` is one of the keys in `allowed`, ASCII case ignored.
pub open spec fn is_allowed(allowed: Seq<String>, key: Seq<char>) -> bool {
    exists|i: int|
        0 <= i < allowed.len() && bytes_match_ignoring_ascii_case(
            encode_utf8(#[trigger] allowed[i]@),
            encode_utf8(key),
        )
}

/// Compares a line with a keyword, ignoring ASCII case.
fn line_is(line: &Vec<u8>, word: &str) -> (r: bool)
    ensures
        r == is_keyword(line@, word@),
{
    eq_ignore_ascii_case(line.as_slice(), word.as_bytes())
}

/// Looks a key up among the allowed keys, ignoring ASCII case.
pub fn key_is_allowed(allowed: &Vec<String>, key: &str) -> (r: bool)
    ensures
        r == is_allowed(allowed@, key@),
{
    let shown = key.as_bytes();
    let mut i: usize = 0;
    while i < allowed.len()
        invariant
            i <= allowed.len(),
            shown@ == encode_utf8(key@),
            forall|j: int|
                0 <= j < i ==> !bytes_match_ignoring_ascii_case(
                    encode_utf8(#[trigger] allowed@[j]@),
                    encode_utf8(key@),
                ),
        decreases allowed.len() - i,
    {
        if eq_ignore_ascii_case(allowed[i].as_str().as_bytes(), shown) {
            return true;
        }
        i += 1;
    }
    false
}

impl Server {
    /// The id of the connection.
    pub closed spec fn connection_id(&self) -> ClientId {
        self.client_id
    }

    /// The name under which the client logged in with a public key, if it
    /// tried to.
    pub closed spec fn username(&self) -> Option<Seq<char>> {
        match self.client_username {
            Some(name) => Some(name@),
            None => None,
        }
    }

    /// Whether bytes from the client are sent back to it.
    pub closed spec fn echoes(&self) -> bool {
        self.echo
    }

    /// The bytes of the line that the client has not finished yet.
    pub closed spec fn pending(&self) -> Seq<u8> {
        self.data_buffer@
    }

    /// The keys that may log in.
    pub closed spec fn allowed_keys(&self) -> Seq<String> {
        self.server_allowed_keys@
    }

    /// How far the connection has come.
    pub closed spec fn state(&self) -> SessionState {
        self.state
    }

    /// Everything but the id, the state and the user name is the same in both.
    pub open spec fn same_settings(&self, other: &Server) -> bool {
        &&& self.echoes() == other.echoes()
        &&& self.pending() == other.pending()
        &&& self.allowed_keys() == other.allowed_keys()
    }

    /// Creates the server that waits for connections: the first connection
    /// will have the id 0, no line is pending and echo is off.
    pub fn init(allowed_keys: Vec<String>) -> (server: Server)
        ensures
            server.connection_id() == 0,
            server.username() is None,
            !server.echoes(),
            server.pending() == Seq::<u8>::empty(),
            server.allowed_keys() == allowed_keys@,
            server.state() == SessionState::Connecting,
    {
        Server {
            client_id: 0,
            client_username: None,
            echo: false,
            data_buffer: Vec::new(),
            server_allowed_keys: allowed_keys,
            state: SessionState::Connecting,
        }
    }

    /// Returns the id of the connection.
    pub fn client_id(&self) -> (r: ClientId)
        ensures
            r == self.connection_id(),
    {
        self.client_id
    }

    /// Returns the name under which the client logged in with a public key.
    pub fn client_username(&self) -> (r: Option<&String>)
        ensures
            match r {
                Some(name) => self.username() == Some(name@),
                None => self.username() is None,
            },
    {
        self.client_username.as_ref()
    }

    /// Returns how far the connection has come.
    pub fn session_state(&self) -> (r: SessionState)
        ensures
            r == self.state(),
    {
        self.state
    }

    /// Returns whether bytes from the client are sent back to it.
    pub fn echo(&self) -> (r: bool)
        ensures
            r == self.echoes(),
    {
        self.echo
    }

    /// Makes the handler for a client that has just connected. It gets the
    /// next id, and the server moves on to the id after that one. The
    /// handler starts without user name and pending line, with echo off.
    pub fn new(&mut self) -> (handler: Server)
        requires
            old(self).connection_id() < usize::MAX,
        ensures
            handler.connection_id() == old(self).connection_id(),
            handler.username() is None,
            !handler.echoes(),
            handler.pending() == Seq::<u8>::empty(),
            handler.allowed_keys() == old(self).allowed_keys(),
            handler.state() == SessionState::Connecting,
            final(self).connection_id() == old(self).connection_id() + 1,
            final(self).same_settings(old(self)),
            final(self).username() == old(self).username(),
            final(self).state() == old(self).state(),
    {
        let mut keys: Vec<String> = Vec::new();
        let mut i: usize = 0;
        while i < self.server_allowed_keys.len()
            invariant
                i <= self.server_allowed_keys.len(),
                keys@ == self.server_allowed_keys@.take(i as int),
            decreases self.server_allowed_keys.len() - i,
        {
            keys.push(self.server_allowed_keys[i].clone());
            assert(self.server_allowed_keys@.take(i + 1) =~= self.server_allowed_keys@.take(
                i as int,
            ).push(self.server_allowed_keys@[i as int]));
            i += 1;
        }
        assert(self.server_allowed_keys@.take(self.server_allowed_keys.len() as int)
            =~= self.server_allowed_keys@);
        let handler = Server {
            client_id: self.client_id,
            client_username: None,
            echo: false,
            data_buffer: Vec::new(),
            server_allowed_keys: keys,
            state: SessionState::Connecting,
        };
        self.client_id = self.client_id + 1;
        handler
    }

    /// A client that shows no credentials is never let in.
    pub fn auth_none(&mut self, user: &str) -> (auth: Auth)
        ensures
            auth == Auth::Reject,
            final(self).state() == SessionState::Authenticating,
            final(self).connection_id() == old(self).connection_id(),
            final(self).username() == old(self).username(),
            final(self).same_settings(old(self)),
    {
        self.state = SessionState::Authenticating;
        Auth::Reject
    }

    /// A client that shows a password is never let in.
    pub fn auth_password(&mut self, user: &str, password: &str) -> (auth: Auth)
        ensures
            auth == Auth::Reject,
            final(self).state() == SessionState::Authenticating,
            final(self).connection_id() == old(self).connection_id(),
            final(self).username() == old(self).username(),
            final(self).same_settings(old(self)),
    {
        self.state = SessionState::Authenticating;
        Auth::Reject
    }

    /// A client that shows a public key is let in if and only if the key, in
    /// its base64 form, is one of the allowed keys, ASCII case ignored. That
    /// the client holds the private key is for the transport to check. The
    /// user name is remembered either way.
    pub fn auth_publickey(&mut self, user: &str, key_base64: &str) -> (auth: Auth)
        ensures
            auth == if is_allowed(old(self).allowed_keys(), key_base64@) {
                Auth::Accept
            } else {
                Auth::Reject
            },
            final(self).username() == Some(user@),
            final(self).state() == SessionState::Authenticating,
            final(self).connection_id() == old(self).connection_id(),
            final(self).same_settings(old(self)),
    {
        self.client_username = Some(user.to_owned());
        self.state = SessionState::Authenticating;
        if key_is_allowed(&self.server_allowed_keys, key_base64) {
            Auth::Accept
        } else {
            Auth::Reject
        }
    }

    /// The client has opened its session: the connection is open, and the
    /// client is to be registered with the world under the name with which
    /// it logged in. `session` is what the world needs to reach the client.
    pub fn channel_open_session<H>(&mut self, session: H) -> (command: Command<H>)
        requires
            old(self).username() is Some,
        ensures
            command matches Command::Register(id, name, handed) && id == old(
                self,
            ).connection_id() && Some(name@) == old(self).username() && handed == session,
            final(self).state() == SessionState::Open,
            final(self).connection_id() == old(self).connection_id(),
            final(self).username() == old(self).username(),
            final(self).same_settings(old(self)),
    {
        self.state = SessionState::Open;
        let name = self.client_username.as_ref().unwrap().clone();
        Command::Register(self.client_id, name, session)
    }

    /// The client has sent `data`.
    ///
    /// If echo is on, the bytes are echoed, see [`echo_of`]. Bytes other than
    /// a line end are added to the pending line. A line end finishes the
    /// pending line: the line is a command for the handler, which sets the
    /// echo, or it becomes a message for the world. Either way no line is
    /// pending afterwards.
    pub fn data(&mut self, data: &[u8]) -> (reaction: DataReaction)
        ensures
            match reaction.echo {
                Some(bytes) => old(self).echoes() && bytes@ == echo_of(data@),
                None => !old(self).echoes(),
            },
            !ends_line(data@) ==> {
                &&& reaction.message is None
                &&& final(self).pending() == old(self).pending() + data@
                &&& final(self).echoes() == old(self).echoes()
            },
            ends_line(data@) ==> {
                &&& final(self).pending() == Seq::<u8>::empty()
                &&& final(self).echoes() == echo_after(old(self).echoes(), old(self).pending())
                &&& match reaction.message {
                    Some(message) => !is_local_command(old(self).pending()) && message.client_id
                        == old(self).connection_id() && message.data@ == old(self).pending(),
                    None => is_local_command(old(self).pending()),
                }
            },
            final(self).connection_id() == old(self).connection_id(),
            final(self).username() == old(self).username(),
            final(self).allowed_keys() == old(self).allowed_keys(),
            final(self).state() == old(self).state(),
    {
        let finished = data.len() == 1 && data[0] == LINE_END;
        assert(finished == ends_line(data@)) by {
            if finished {
                assert(data@ =~= seq![LINE_END]);
            }
        }
        let echo = if self.echo {
            if finished {
                let mut bytes: Vec<u8> = Vec::new();
                bytes.push(0x0d);
                bytes.push(0x0a);
                assert(bytes@ =~= seq![0x0du8, 0x0au8]);
                Some(bytes)
            } else {
                Some(vstd::slice::slice_to_vec(data))
            }
        } else {
            None
        };
        let mut message: Option<DataMessage> = None;
        if !finished {
            let ghost before = self.data_buffer@;
            let mut i: usize = 0;
            while i < data.len()
                invariant
                    i <= data.len(),
                    self.data_buffer@ == before + data@.take(i as int),
                    self.client_id == old(self).client_id,
                    self.client_username == old(self).client_username,
                    self.server_allowed_keys == old(self).server_allowed_keys,
                    self.state == old(self).state,
                    self.echo == old(self).echo,
                decreases data.len() - i,
            {
                self.data_buffer.push(data[i]);
                assert(before + data@.take(i + 1) =~= (before + data@.take(i as int)).push(
                    data@[i as int],
                ));
                i += 1;
            }
            assert(data@.take(data.len() as int) =~= data@);
        } else {
            let mut line: Vec<u8> = Vec::new();
            std::mem::swap(&mut self.data_buffer, &mut line);
            if line_is(&line, "echo on") {
                self.echo = true;
            } else if line_is(&line, "echo off") {
                self.echo = false;
            } else if line_is(&line, "echo") {
                self.echo = !self.echo;
            } else {
                message = Some(DataMessage::new(self.client_id, line));
            }
        }
        DataReaction { echo, message }
    }

    /// The client is gone, or is to go: the connection is closed, and the
    /// world is to be told that the client has left.
    pub fn hangup<H>(&mut self) -> (command: Command<H>)
        ensures
            command == Command::<H>::Hangup(old(self).connection_id()),
            final(self).state() == SessionState::Closed,
            final(self).connection_id() == old(self).connection_id(),
            final(self).username() == old(self).username(),
            final(self).same_settings(old(self)),
    {
        self.state = SessionState::Closed;
        Command::Hangup(self.client_id)
    }

    /// The client has sent a signal. Signals change nothing.
    pub fn signal(&mut self)
        ensures
            *final(self) == *old(self),
    {
    }
}

} // verus!
