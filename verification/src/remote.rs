//! Session ids of remote hosts: `ssh://<host>/<session>` names a session on a host.
use vstd::prelude::*;

use crate::text;
use crate::text::{chars_of, concat3, find_char, starts_with, string_of};

verus! {

/// Where a session lives: on a host, or here.
#[derive(Debug, PartialEq, Eq)]
pub struct SessionAddress {
    pub host: Option<String>,
    pub session_id: String,
}

#[verifier::ext_equal]
pub struct AddressView {
    pub host: Option<Seq<char>>,
    pub session_id: Seq<char>,
}

impl View for SessionAddress {
    type V = AddressView;

    open spec fn view(&self) -> AddressView {
        AddressView { host: text::text_option(self.host), session_id: self.session_id@ }
    }
}

/// The id under which a host's session is known here.
pub open spec fn namespaced(host: Seq<char>, session_id: Seq<char>) -> Seq<char> {
    "ssh://"@ + host + ("/"@ + session_id)
}

/// The id under which a session at an address is known here.
pub open spec fn known_as(address: AddressView, session_id: Seq<char>) -> Seq<char> {
    match address.host {
        Some(host) => namespaced(host, session_id),
        None => session_id,
    }
}

/// The address that an id spells: a remote one names a host and a session.
pub open spec fn address_of(id: Seq<char>) -> Option<AddressView> {
    match text::behind(id, "ssh://"@) {
        Some(rest) => match text::char_from(rest, '/', 0) {
            Some(i) if 0 < i < rest.len() - 1 => Some(
                AddressView {
                    host: Some(rest.subrange(0, i)),
                    session_id: rest.subrange(i + 1, rest.len() as int),
                },
            ),
            _ => None,
        },
        None => Some(AddressView { host: None, session_id: id }),
    }
}

/// Whether an id names a session on another host.
pub fn is_remote(session_id: &str) -> (r: bool)
    ensures
        r == text::starts(session_id@, "ssh://"@),
{
    starts_with(session_id, "ssh://")
}

/// The id under which a host's session is known here.
pub fn namespace(host: &str, session_id: &str) -> (r: String)
    ensures
        r@ == namespaced(host@, session_id@),
{
    concat3("ssh://", host, text::concat("/", session_id).as_str())
}

impl SessionAddress {
    /// Reads an id as the interface keeps it.
    pub fn parse(id: &str) -> (r: Result<SessionAddress, String>)
        ensures
            match r {
                Ok(address) => address_of(id@) == Some(address@),
                Err(message) => address_of(id@) is None && message@
                    == "Invalid remote session id: "@ + id@,
            },
    {
        match text::strip_prefix(id, "ssh://") {
            Some(rest) => {
                let v = chars_of(rest.as_str());
                let n: usize = v.len();
                if let Some(i) = find_char(&v, '/', 0) {
                    if 0 < i && i < n - 1 {
                        return Ok(
                            SessionAddress {
                                host: Some(string_of(&v, 0, i)),
                                session_id: string_of(&v, i + 1, n),
                            },
                        );
                    }
                }
                Err(text::concat("Invalid remote session id: ", id))
            },
            None => Ok(SessionAddress { host: None, session_id: id.to_owned() }),
        }
    }

    /// The id under which a session at this address is known here.
    pub fn ui_id(&self, session_id: &str) -> (r: String)
        ensures
            r@ == known_as(self@, session_id@),
    {
        match &self.host {
            Some(host) => namespace(host.as_str(), session_id),
            None => session_id.to_owned(),
        }
    }
}

/// An id made for a host's session reads back as that host and that session.
pub proof fn namespaced_reads_back(host: Seq<char>, session_id: Seq<char>)
    requires
        host.len() > 0,
        !host.contains('/'),
        session_id.len() > 0,
    ensures
        address_of(namespaced(host, session_id)) == Some(
            AddressView { host: Some(host), session_id },
        ),
{
    let id = namespaced(host, session_id);
    reveal_strlit("ssh://");
    reveal_strlit("/");
    assert(id.subrange(0, 6) =~= "ssh://"@);
    let rest = id.subrange(6, id.len() as int);
    assert(rest =~= host + ("/"@ + session_id));
    assert forall|k: int| 0 <= k < host.len() implies rest[k] != '/' by {
        assert(host.contains(host[k]));
    }
    lemma_char_from(rest, '/', 0, host.len() as int);
    assert(rest.subrange(0, host.len() as int) =~= host);
    assert(rest.subrange(host.len() as int + 1, rest.len() as int) =~= session_id);
}

proof fn lemma_char_from(s: Seq<char>, c: char, from: int, at: int)
    requires
        0 <= from <= at < s.len(),
        s[at] == c,
        forall|k: int| from <= k < at ==> s[k] != c,
    ensures
        text::char_from(s, c, from) == Some(at),
    decreases at - from,
{
    if from < at {
        lemma_char_from(s, c, from + 1, at);
    }
}

} // verus!
