//! The chain's policy on which clients new connections may be opened over.

use vstd::prelude::*;

verus! {

/// A client policy as a mathematical value.
pub enum ClientPolicyView {
    Unrestricted,
    AllowList(Seq<Seq<char>>),
}

impl ClientPolicyView {
    /// Whether the policy lets connections be opened over `client_id`.
    pub open spec fn admits(self, client_id: Seq<char>) -> bool {
        match self {
            ClientPolicyView::Unrestricted => true,
            ClientPolicyView::AllowList(clients) => clients.contains(client_id),
        }
    }
}

/// Which clients new connections may be opened over. A chain that configures
/// nothing restricts nothing.
#[derive(Debug, PartialEq, Eq)]
pub enum ClientPolicy {
    /// Every client may be used.
    Unrestricted,
    /// Only the listed clients may be used.
    AllowList(Vec<String>),
}

impl View for ClientPolicy {
    type V = ClientPolicyView;

    open spec fn view(&self) -> ClientPolicyView {
        match self {
            ClientPolicy::Unrestricted => ClientPolicyView::Unrestricted,
            ClientPolicy::AllowList(clients) => ClientPolicyView::AllowList(clients.deep_view()),
        }
    }
}

impl Clone for ClientPolicy {
    fn clone(&self) -> (copy: Self)
        ensures
            copy@ == self@,
    {
        match self {
            ClientPolicy::Unrestricted => ClientPolicy::Unrestricted,
            ClientPolicy::AllowList(clients) => ClientPolicy::AllowList(
                crate::version::clone_strings(clients),
            ),
        }
    }
}

impl ClientPolicy {
    /// Whether the policy lets connections be opened over `client_id`.
    pub fn admits(&self, client_id: &str) -> (r: bool)
        ensures
            r == self@.admits(client_id@),
    {
        match self {
            ClientPolicy::Unrestricted => true,
            ClientPolicy::AllowList(clients) => {
                let key = client_id.to_owned();
                let mut i: usize = 0;
                while i < clients.len()
                    invariant
                        i <= clients.len(),
                        key@ == client_id@,
                        self@ == ClientPolicyView::AllowList(clients.deep_view()),
                        forall|k: int| 0 <= k < i ==> clients.deep_view()[k] != client_id@,
                    decreases clients.len() - i,
                {
                    if clients[i] == key {
                        assert(clients.deep_view()[i as int] == client_id@);
                        return true;
                    }
                    i += 1;
                }
                false
            },
        }
    }
}

} // verus!
