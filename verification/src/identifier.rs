//! Connection identifiers: the text `connection-{n}` for the connection
//! allocated at counter value `n`.

use vstd::prelude::*;
use crate::error::InternalError;

verus! {

/// The character that writes the decimal digit `d`.
pub open spec fn digit_char(d: nat) -> char {
    if d == 0 {
        '0'
    } else if d == 1 {
        '1'
    } else if d == 2 {
        '2'
    } else if d == 3 {
        '3'
    } else if d == 4 {
        '4'
    } else if d == 5 {
        '5'
    } else if d == 6 {
        '6'
    } else if d == 7 {
        '7'
    } else if d == 8 {
        '8'
    } else {
        '9'
    }
}

/// `n` written in base ten, most significant digit first, without leading zeros.
pub open spec fn decimal_text(n: nat) -> Seq<char>
    decreases n,
{
    if n < 10 {
        seq![digit_char(n)]
    } else {
        decimal_text(n / 10).push(digit_char(n % 10))
    }
}

/// The prefix shared by all connection identifiers, dash included.
pub open spec fn identifier_prefix() -> Seq<char> {
    seq!['c', 'o', 'n', 'n', 'e', 'c', 't', 'i', 'o', 'n', '-']
}

/// The identifier of the connection allocated at counter value `n`.
pub open spec fn identifier_text(n: nat) -> Seq<char> {
    identifier_prefix() + decimal_text(n)
}

/// Calls `ibc::core::host::types::identifiers::ConnectionId::new` and returns
/// the identifier's text. Assumed: the text is the word `connection`, a dash,
/// and the counter in decimal.
#[verifier::external_body]
fn format_connection_id(counter: u64) -> (text: String)
    ensures
        text@ == identifier_text(counter as nat),
{
    ibc::core::host::types::identifiers::ConnectionId::new(counter).as_str().to_owned()
}

/// A chain-assigned connection identifier.
#[derive(Debug, PartialEq, Eq)]
pub struct ConnectionIdentifier {
    counter: u64,
    text: String,
}

impl View for ConnectionIdentifier {
    type V = Seq<char>;

    closed spec fn view(&self) -> Seq<char> {
        self.text@
    }
}

impl Clone for ConnectionIdentifier {
    fn clone(&self) -> (copy: Self)
        ensures
            copy@ == self@,
            copy.index() == self.index(),
    {
        proof {
            use_type_invariant(self);
        }
        ConnectionIdentifier { counter: self.counter, text: self.text.clone() }
    }
}

impl ConnectionIdentifier {
    #[verifier::type_invariant]
    spec fn well_formed(self) -> bool {
        self.text@ == identifier_text(self.counter as nat)
    }

    /// The counter value this identifier was allocated at.
    pub closed spec fn index(&self) -> nat {
        self.counter as nat
    }

    /// The identifier for counter value `counter`.
    pub fn new(counter: u64) -> (id: Self)
        ensures
            id.index() == counter,
            id@ == identifier_text(counter as nat),
    {
        ConnectionIdentifier { counter, text: format_connection_id(counter) }
    }

    /// Takes the identifier at counter value `counter` and says where the
    /// counter stands afterwards. Fails when the counter cannot move on.
    pub fn allocate(counter: u64) -> (r: Result<(ConnectionIdentifier, u64), InternalError>)
        ensures
            match r {
                Ok((id, next)) => {
                    &&& counter < u64::MAX
                    &&& id.index() == counter
                    &&& id@ == identifier_text(counter as nat)
                    &&& next == counter + 1
                },
                Err(e) => counter == u64::MAX && e == InternalError::ConnectionCounterExhausted,
            },
    {
        if counter == u64::MAX {
            Err(InternalError::ConnectionCounterExhausted)
        } else {
            Ok((ConnectionIdentifier::new(counter), counter + 1))
        }
    }

    /// The counter value this identifier was allocated at.
    pub fn counter(&self) -> (n: u64)
        ensures
            n == self.index(),
            self@ == identifier_text(n as nat),
    {
        proof {
            use_type_invariant(self);
        }
        self.counter
    }

    /// The identifier as text.
    pub fn as_str(&self) -> (s: &str)
        ensures
            s@ == self@,
            s@ == identifier_text(self.index()),
    {
        proof {
            use_type_invariant(self);
        }
        self.text.as_str()
    }
}

/// A number has at least one decimal digit.
pub proof fn lemma_decimal_text_nonempty(n: nat)
    ensures
        decimal_text(n).len() >= 1,
    decreases n,
{
    if n >= 10 {
        lemma_decimal_text_nonempty(n / 10);
    }
}

/// Different numbers are written differently.
pub proof fn lemma_decimal_text_injective(a: nat, b: nat)
    requires
        decimal_text(a) == decimal_text(b),
    ensures
        a == b,
    decreases a,
{
    let ta = decimal_text(a);
    let tb = decimal_text(b);
    if a >= 10 {
        lemma_decimal_text_nonempty(a / 10);
        assert(ta.len() >= 2);
        assert(ta.last() == digit_char(a % 10));
        assert(ta.drop_last() =~= decimal_text(a / 10));
    } else {
        assert(ta.len() == 1);
        assert(ta.last() == digit_char(a));
    }
    if b >= 10 {
        lemma_decimal_text_nonempty(b / 10);
        assert(tb.len() >= 2);
        assert(tb.last() == digit_char(b % 10));
        assert(tb.drop_last() =~= decimal_text(b / 10));
    } else {
        assert(tb.len() == 1);
        assert(tb.last() == digit_char(b));
    }
    assert(digit_char(a % 10) == digit_char(b % 10));
    assert(a % 10 == b % 10);
    if a >= 10 {
        lemma_decimal_text_injective(a / 10, b / 10);
    }
}

/// Different counter values give different identifiers.
pub proof fn lemma_identifier_text_injective(a: nat, b: nat)
    ensures
        identifier_text(a) == identifier_text(b) <==> a == b,
{
    if identifier_text(a) == identifier_text(b) {
        let p = identifier_prefix();
        assert(identifier_text(a).subrange(p.len() as int, identifier_text(a).len() as int)
            =~= decimal_text(a));
        assert(identifier_text(b).subrange(p.len() as int, identifier_text(b).len() as int)
            =~= decimal_text(b));
        lemma_decimal_text_injective(a, b);
    }
}

} // verus!
