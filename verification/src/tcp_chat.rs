//! The decisions of a line-based echo server and of a chat server that
//! passes every message on to all its clients. The sockets are with the
//! caller, who reports what was read and carries out what is decided.

use vstd::prelude::*;
use crate::text::{str_trim, string_push_str, trimmed};

verus! {

/// What an echo server does after it has read a line.
#[derive(Debug)]
pub enum EchoAction {
    /// Send this text back and read on.
    Reply(String),
    /// Stop reading.
    Close,
}

/// Decides on one line, read without its line ending: an empty line ends
/// the conversation, any other line is sent back with a line feed.
pub fn echo_step(line: &str) -> (r: EchoAction)
    ensures
        line@.len() == 0 ==> r is Close,
        line@.len() > 0 ==> r is Reply && r->Reply_0@ == line@ + "\n"@,
{
    if line.is_empty() {
        EchoAction::Close
    } else {
        let mut out = String::new();
        string_push_str(&mut out, line);
        string_push_str(&mut out, "\n");
        assert(out@ =~= line@ + "\n"@);
        EchoAction::Reply(out)
    }
}

/// What a read from a client's socket came to.
#[derive(Debug)]
pub enum ReadEvent {
    /// The client has closed the connection.
    Closed,
    /// This text arrived.
    Data(String),
    /// The read failed.
    Failed,
}

/// What a chat server does after a read from a client's socket.
#[derive(Debug)]
pub enum ChatAction {
    /// Send this text to every client, the sender too, and read on.
    Broadcast(String),
    /// Take the client off the list and stop reading.
    Leave,
    /// Stop reading.
    Abort,
}

/// The line that the clients are sent when `sender` has written `text`.
pub open spec fn chat_line(sender: Seq<char>, text: Seq<char>) -> Seq<char> {
    "["@ + sender + "] "@ + trimmed(text) + "\n"@
}

/// The line that the clients are sent when the client at `sender_addr` has
/// written `text`: the address in brackets, then the text without the
/// white space around it.
pub fn chat_message(sender_addr: &str, text: &str) -> (r: String)
    ensures
        r@ == chat_line(sender_addr@, text@),
{
    let mut out = String::new();
    string_push_str(&mut out, "[");
    string_push_str(&mut out, sender_addr);
    string_push_str(&mut out, "] ");
    string_push_str(&mut out, str_trim(text));
    string_push_str(&mut out, "\n");
    assert(out@ =~= chat_line(sender_addr@, text@));
    out
}

/// Decides on one read from the client at `sender_addr`.
pub fn chat_step(sender_addr: &str, event: ReadEvent) -> (r: ChatAction)
    ensures
        match event {
            ReadEvent::Closed => r is Leave,
            ReadEvent::Data(text) => r is Broadcast && r->Broadcast_0@ == chat_line(
                sender_addr@,
                text@,
            ),
            ReadEvent::Failed => r is Abort,
        },
{
    match event {
        ReadEvent::Closed => ChatAction::Leave,
        ReadEvent::Data(text) => ChatAction::Broadcast(chat_message(sender_addr, text.as_str())),
        ReadEvent::Failed => ChatAction::Abort,
    }
}

/// A client of a chat server: the address of its socket, where it could be
/// read, and the stream that leads to it.
pub struct Client<S> {
    pub addr: Option<String>,
    pub stream: S,
}

/// The test "has an address, and another one than `addr`".
pub open spec fn stays<S>(addr: Seq<char>) -> spec_fn(Client<S>) -> bool {
    |c: Client<S>| c.addr is Some && c.addr->0@ != addr
}

/// The clients of a chat server in the order in which they connected.
pub struct ClientList<S> {
    clients: Vec<Client<S>>,
}

impl<S> ClientList<S> {
    /// The clients in the order in which they connected.
    pub closed spec fn clients(&self) -> Seq<Client<S>> {
        self.clients@
    }

    /// A list without clients.
    pub fn new() -> (r: Self)
        ensures
            r.clients().len() == 0,
    {
        ClientList { clients: Vec::new() }
    }

    /// Lists a client that has connected.
    pub fn add(&mut self, addr: Option<String>, stream: S)
        ensures
            final(self).clients() == old(self).clients().push(Client { addr, stream }),
    {
        self.clients.push(Client { addr, stream });
    }

    /// Notes the address that the socket of client number `i` gives now, or
    /// that it gives none.
    pub fn set_addr(&mut self, i: usize, addr: Option<String>)
        requires
            i < old(self).clients().len(),
        ensures
            final(self).clients() == old(self).clients().update(
                i as int,
                Client { addr, stream: old(self).clients()[i as int].stream },
            ),
    {
        self.clients[i].addr = addr;
        assert(self.clients@ =~= old(self).clients@.update(
            i as int,
            Client { addr, stream: old(self).clients@[i as int].stream },
        ));
    }

    /// Takes off the list every client at `addr`, and with them every
    /// client without an address.
    pub fn remove(&mut self, addr: &str)
        ensures
            final(self).clients() == old(self).clients().filter(stays(addr@)),
    {
        let ghost all = self.clients@;
        let ghost pred = stays::<S>(addr@);
        let wanted = addr.to_owned();
        let mut taken: Vec<Client<S>> = Vec::new();
        std::mem::swap(&mut taken, &mut self.clients);
        let mut kept: Vec<Client<S>> = Vec::new();
        proof {
            Seq::<Client<S>>::lemma_filter_len(all.subrange(0, 0), pred);
            assert(kept@ =~= all.subrange(0, 0).filter(pred));
        }
        for client in it: taken
            invariant
                all == it.seq(),
                pred == stays::<S>(addr@),
                wanted@ == addr@,
                kept@ == all.subrange(0, it.index() as int).filter(pred),
        {
            let ghost i = it.index() as int;
            proof {
                assert(all.subrange(0, i + 1) =~= all.subrange(0, i).push(client));
                Seq::<Client<S>>::lemma_filter_push(all.subrange(0, i), client, pred);
            }
            let keep = match &client.addr {
                Some(a) => !(*a == wanted),
                None => false,
            };
            if keep {
                kept.push(client);
            }
        }
        assert(all.subrange(0, all.len() as int) =~= all);
        self.clients = kept;
    }

    /// The number of clients, which is the number of streams that a
    /// broadcast writes to.
    pub fn len(&self) -> (r: usize)
        ensures
            r == self.clients().len(),
    {
        self.clients.len()
    }

    /// Whether no client is listed.
    pub fn is_empty(&self) -> (r: bool)
        ensures
            r == (self.clients().len() == 0),
    {
        self.clients.len() == 0
    }

    /// The client that connected as number `i`, counted from zero, among
    /// those still listed.
    pub fn get(&self, i: usize) -> (r: &Client<S>)
        requires
            i < self.clients().len(),
        ensures
            *r == self.clients()[i as int],
    {
        &self.clients[i]
    }
}

impl<S> Default for ClientList<S> {
    fn default() -> (r: Self)
        ensures
            r.clients().len() == 0,
    {
        ClientList::new()
    }
}

} // verus!
