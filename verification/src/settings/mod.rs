//! The settings of the server, as plain values, and what is read off them.

use vstd::prelude::*;
use vstd::string::*;

verus! {

/// General settings.
#[derive(Debug, Clone)]
pub struct General {
    pub debug: bool,
}

/// Settings of the SSH server.
#[derive(Debug, Clone)]
pub struct SSHServer {
    pub start_ssh: bool,
    pub port: u32,
    pub host: String,
}

/// Settings of security. Each allowed key is a list of words as in a file of
/// authorized keys: the algorithm, the key in base64, and a comment.
#[derive(Debug, Clone)]
pub struct Security {
    pub allowed_keys: Vec<Vec<String>>,
}

/// All settings.
#[derive(Debug, Clone)]
pub struct Settings {
    pub general: General,
    pub ssh_server: SSHServer,
    pub security: Security,
}

/// The decimal digit `d`, for `d` below ten.
pub open spec fn digit(d: nat) -> Seq<char> {
    if d == 0 {
        "0"@
    } else if d == 1 {
        "1"@
    } else if d == 2 {
        "2"@
    } else if d == 3 {
        "3"@
    } else if d == 4 {
        "4"@
    } else if d == 5 {
        "5"@
    } else if d == 6 {
        "6"@
    } else if d == 7 {
        "7"@
    } else if d == 8 {
        "8"@
    } else {
        "9"@
    }
}

/// The number `n` in decimal digits, without leading zeros.
pub open spec fn decimal(n: nat) -> Seq<char>
    decreases n,
{
    if n < 10 {
        digit(n)
    } else {
        decimal(n / 10) + digit(n % 10)
    }
}

/// Computes [`digit`].
fn digit_of(d: u32) -> (r: &'static str)
    requires
        d < 10,
    ensures
        r@ == digit(d as nat),
{
    if d == 0 {
        "0"
    } else if d == 1 {
        "1"
    } else if d == 2 {
        "2"
    } else if d == 3 {
        "3"
    } else if d == 4 {
        "4"
    } else if d == 5 {
        "5"
    } else if d == 6 {
        "6"
    } else if d == 7 {
        "7"
    } else if d == 8 {
        "8"
    } else {
        "9"
    }
}

/// Writes a number in decimal digits.
pub fn decimal_of(n: u32) -> (text: String)
    ensures
        text@ == decimal(n as nat),
    decreases n,
{
    if n < 10 {
        digit_of(n).to_owned()
    } else {
        let mut text = decimal_of(n / 10);
        text.append(digit_of(n % 10));
        text
    }
}

impl SSHServer {
    /// The address at which the server listens: host, colon, port.
    pub open spec fn address(&self) -> Seq<char> {
        self.host@ + ":"@ + decimal(self.port as nat)
    }

    /// Composes the address at which the server listens.
    pub fn listen_address(&self) -> (addr: String)
        ensures
            addr@ == self.address(),
    {
        let mut addr = self.host.clone();
        addr.append(":");
        addr.append(decimal_of(self.port).as_str());
        addr
    }
}

impl Security {
    /// Whether every allowed key has its second word, the key itself.
    pub open spec fn complete(&self) -> bool {
        forall|i: int| 0 <= i < self.allowed_keys@.len() ==> (#[trigger] self.allowed_keys@[i])@.len() >= 2
    }

    /// Tests whether every allowed key has its second word.
    pub fn is_complete(&self) -> (r: bool)
        ensures
            r == self.complete(),
    {
        let mut i: usize = 0;
        while i < self.allowed_keys.len()
            invariant
                i <= self.allowed_keys.len(),
                forall|j: int| 0 <= j < i ==> (#[trigger] self.allowed_keys@[j])@.len() >= 2,
            decreases self.allowed_keys.len() - i,
        {
            if self.allowed_keys[i].len() < 2 {
                return false;
            }
            i += 1;
        }
        true
    }

    /// The allowed keys themselves: the second word of each entry, in the
    /// order of the entries.
    pub fn key_strings(&self) -> (keys: Vec<String>)
        requires
            self.complete(),
        ensures
            keys@.len() == self.allowed_keys@.len(),
            forall|i: int| 0 <= i < keys@.len() ==> (#[trigger] keys@[i])@ == self.allowed_keys@[i]@[1]@,
    {
        let mut keys: Vec<String> = Vec::new();
        let mut i: usize = 0;
        while i < self.allowed_keys.len()
            invariant
                self.complete(),
                i <= self.allowed_keys.len(),
                keys@.len() == i,
                forall|j: int| 0 <= j < i ==> (#[trigger] keys@[j])@ == self.allowed_keys@[j]@[1]@,
            decreases self.allowed_keys.len() - i,
        {
            assert(self.allowed_keys@[i as int]@.len() >= 2);
            keys.push(self.allowed_keys[i][1].clone());
            i += 1;
        }
        keys
    }
}

} // verus!
