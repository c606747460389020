//! The data the service is about: accounts, sessions, rooms and messages,
//! the request envelope, the wire-facing value objects, and the error
//! taxonomy shared by every handler.

use vstd::prelude::*;

use crate::broadcast::{clone_sender, new_channel, CHANNEL_CAPACITY};
use crate::strmap::StringMap;

verus! {

/// A registered user. The password field holds a pre-computed hash, never a
/// plaintext password; registration admits only 64-character hexadecimal
/// values into it.
#[derive(Debug)]
pub struct Account {
    pub id: String,
    pub name: String,
    pub password: String,
}

impl Clone for Account {
    fn clone(&self) -> (r: Self)
        ensures
            r == *self,
    {
        Account { id: self.id.clone(), name: self.name.clone(), password: self.password.clone() }
    }
}

/// Proof of authentication: possession of this pair, carried in cookies,
/// identifies the account. One account may hold many live sessions.
#[derive(Debug)]
pub struct Session {
    pub id: String,
    pub token: String,
}

impl Clone for Session {
    fn clone(&self) -> (r: Self)
        ensures
            r == *self,
    {
        Session { id: self.id.clone(), token: self.token.clone() }
    }
}

/// One chat message; the author's name is copied in at write time rather
/// than looked up later.
#[derive(Debug)]
pub struct Message {
    pub id: String,
    pub username: String,
    pub content: String,
    pub date: String,
}

impl Clone for Message {
    fn clone(&self) -> (r: Self)
        ensures
            r == *self,
    {
        Message {
            id: self.id.clone(),
            username: self.username.clone(),
            content: self.content.clone(),
            date: self.date.clone(),
        }
    }
}

/// A named chat channel with its ordered message history and its own
/// fan-out channel, created once with the room and never replaced.
pub struct Room {
    pub id: String,
    pub name: String,
    pub messages: Vec<Message>,
    pub sender: tokio::sync::broadcast::Sender<Message>,
}

impl Room {
    pub fn new(id: String, name: String) -> (r: Room)
        ensures
            r.id@ == id@,
            r.name@ == name@,
            r.messages@.len() == 0,
    {
        Room { id, name, messages: Vec::new(), sender: new_channel(CHANNEL_CAPACITY) }
    }
}

impl Clone for Room {
    fn clone(&self) -> (r: Self)
        ensures
            r.id == self.id,
            r.name == self.name,
            r.messages@ == self.messages@,
    {
        let messages = self.messages.clone();
        proof {
            assert(messages@ =~= self.messages@);
        }
        Room {
            id: self.id.clone(),
            name: self.name.clone(),
            messages,
            sender: clone_sender(&self.sender),
        }
    }
}

/// What a request looks like once the connection dispatcher has read it:
/// the request line, plus the parameters the router captured.
pub struct RequestData {
    pub method: String,
    pub path: String,
    pub params: StringMap,
}

pub struct RegisterDTO {
    pub name: String,
    pub password: String,
}

pub struct LoginDTO {
    pub name: String,
    pub password: String,
}

pub struct MeDTO {
    pub id: String,
    pub token: String,
}

pub struct SessionTokenDTO {
    pub id: String,
    pub name: String,
    pub token: String,
}

pub struct CreateRoomDTO {
    pub name: String,
}

/// The error taxonomy: a malformed request is the client's fault and turns
/// into a 400, a missing or stale session into a 401, an unmatched route into
/// a 404, a conflict with repository state into a textual error frame, and a
/// failure of the durable store aborts the one operation in progress.
#[derive(Clone, Copy, PartialEq, Eq, Structural, Debug)]
pub enum ChatError {
    MalformedRequest,
    Unauthenticated,
    NotFound,
    RepositoryConflict,
    StoreFailure,
}

} // verus!
