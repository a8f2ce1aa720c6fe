//! Network addresses, and the address that the node listens on.

use vstd::prelude::*;
use vstd::string::StringExecFns;
use crate::trusted::{multiaddr_canonical, multiaddr_parse};

verus! {

/// A network address: the text that a well-formed multiaddress prints as.
pub struct Multiaddr {
    text: String,
}

impl View for Multiaddr {
    type V = Seq<char>;

    closed spec fn view(&self) -> Seq<char> {
        self.text@
    }
}

/// Whether `text` is what some address prints as.
pub open spec fn is_printed_multiaddr(text: Seq<char>) -> bool {
    exists|source: Seq<char>| #[trigger] multiaddr_canonical(source) == Some(text)
}

impl Clone for Multiaddr {
    fn clone(&self) -> (copy: Multiaddr)
        ensures
            copy@ == self@,
    {
        proof {
            use_type_invariant(self);
        }
        Multiaddr { text: self.text.clone() }
    }
}

impl Multiaddr {
    #[verifier::type_invariant]
    spec fn printed(self) -> bool {
        is_printed_multiaddr(self.text@)
    }

    /// The address that `text` spells out, if it spells one.
    pub fn parse(text: &str) -> (address: Option<Multiaddr>)
        ensures
            address.is_some() == multiaddr_canonical(text@).is_some(),
            address matches Some(a) ==> multiaddr_canonical(text@) == Some(a@),
    {
        match multiaddr_parse(text) {
            Some(printed) => {
                assert(multiaddr_canonical(text@) == Some(printed@));
                Some(Multiaddr { text: printed })
            },
            None => None,
        }
    }

    /// The address as text.
    pub fn to_string(&self) -> (text: String)
        ensures
            text@ == self@,
            is_printed_multiaddr(text@),
    {
        proof {
            use_type_invariant(self);
        }
        self.text.clone()
    }

    /// Whether this is the same address as `other`.
    pub fn same_as(&self, other: &Multiaddr) -> (same: bool)
        ensures
            same == (self@ == other@),
    {
        self.text == other.text
    }
}

/// The character that stands for a decimal digit.
pub open spec fn decimal_digit(d: nat) -> char {
    if d == 0 {
        '0'
    } else if d == 1 {
        '1'
    } else if d == 2 {
        '2'
    } else if d == 3 {
        '3'
    } else if d == 4 {
        '4'
    } else if d == 5 {
        '5'
    } else if d == 6 {
        '6'
    } else if d == 7 {
        '7'
    } else if d == 8 {
        '8'
    } else {
        '9'
    }
}

/// A number in decimal, without sign and without leading zeros.
pub open spec fn decimal(n: nat) -> Seq<char>
    decreases n,
{
    if n < 10 {
        seq![decimal_digit(n)]
    } else {
        decimal(n / 10).push(decimal_digit(n % 10))
    }
}

/// The text of the wildcard TCP address with the port spelled `port`.
pub open spec fn listen_address_text(port: Seq<char>) -> Seq<char> {
    "/ip4/0.0.0.0/tcp/"@ + port
}

/// One decimal digit as text.
fn digit_text(d: u16) -> (text: &'static str)
    requires
        d < 10,
    ensures
        text@ == seq![decimal_digit(d as nat)],
{
    proof {
        reveal_strlit("0");
        reveal_strlit("1");
        reveal_strlit("2");
        reveal_strlit("3");
        reveal_strlit("4");
        reveal_strlit("5");
        reveal_strlit("6");
        reveal_strlit("7");
        reveal_strlit("8");
        reveal_strlit("9");
    }
    let text = if d == 0 {
        "0"
    } else if d == 1 {
        "1"
    } else if d == 2 {
        "2"
    } else if d == 3 {
        "3"
    } else if d == 4 {
        "4"
    } else if d == 5 {
        "5"
    } else if d == 6 {
        "6"
    } else if d == 7 {
        "7"
    } else if d == 8 {
        "8"
    } else {
        "9"
    };
    assert(text@ =~= seq![decimal_digit(d as nat)]);
    text
}

/// A port number in decimal.
pub fn port_text(port: u16) -> (text: String)
    ensures
        text@ == decimal(port as nat),
    decreases port,
{
    if port < 10 {
        String::from_str(digit_text(port))
    } else {
        let mut text = port_text(port / 10);
        text.append(digit_text(port % 10));
        assert(text@ =~= decimal(port as nat));
        text
    }
}

/// The text of the wildcard TCP address on `port`.
pub fn listen_address(port: &str) -> (text: String)
    ensures
        text@ == listen_address_text(port@),
{
    String::from_str("/ip4/0.0.0.0/tcp/").concat(port)
}

} // verus!
