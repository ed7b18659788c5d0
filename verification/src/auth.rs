//! Player records: the digest under which a password is kept, and the
//! rules for registering and logging in.

use vstd::prelude::*;

verus! {

/// State from which the digest starts.
pub const DIGEST_SEED: u64 = 0x123456789ABCDEF;

/// Rating of a new player.
pub const INITIAL_RATING: u32 = 1200;

/// Digest of the first `n` bytes: from the seed, each byte takes the
/// digest times 31 plus the byte, modulo 2^64.
pub open spec fn digest_upto(data: Seq<u8>, n: int) -> u64
    decreases n,
{
    if n <= 0 {
        DIGEST_SEED
    } else {
        ((digest_upto(data, n - 1) as int * 31 + data[n - 1] as int) % 0x1_0000_0000_0000_0000) as u64
    }
}

/// The bytes of a text in UTF-8.
pub open spec fn bytes_of(text: Seq<char>) -> Seq<u8> {
    vstd::utf8::encode_utf8(text)
}

/// Digest of all bytes.
pub open spec fn digest_of(data: Seq<u8>) -> u64 {
    digest_upto(data, data.len() as int)
}

/// The hexadecimal digits of a number, lower case, most significant first.
pub open spec fn hex_digits(n: nat) -> Seq<char>
    decreases n,
{
    if n < 16 {
        seq![hex_digit(n as int)]
    } else {
        hex_digits(n / 16).push(hex_digit((n % 16) as int))
    }
}

/// One hexadecimal digit.
pub open spec fn hex_digit(d: int) -> char {
    if d < 10 {
        (48 + d) as u8 as char
    } else {
        (87 + d) as u8 as char
    }
}

/// The text under which a password is kept: its digest in hexadecimal.
pub open spec fn password_text(password: Seq<u8>) -> Seq<char> {
    hex_digits(digest_of(password) as nat)
}

/// A simple digest of bytes. It is no safeguard for passwords.
pub fn md5_hash(data: &[u8]) -> (hash: u64)
    ensures
        hash == digest_of(data@),
{
    let mut hash: u64 = DIGEST_SEED;
    let mut i: usize = 0;
    while i < data.len()
        invariant
            i <= data@.len(),
            hash == digest_upto(data@, i as int),
        decreases data.len() - i,
    {
        let ghost before = hash;
        let byte = data[i];
        let scaled = hash.wrapping_mul(31);
        proof {
            let range = 0x1_0000_0000_0000_0000int;
            let p = before as int * 31;
            vstd::arithmetic::div_mod::lemma_add_mod_noop(p, byte as int, range);
            vstd::arithmetic::div_mod::lemma_small_mod(byte as nat, range as nat);
            vstd::arithmetic::div_mod::lemma_mod_bound(p, range);
            let q = p % range;
            if q + byte as int >= range {
                vstd::arithmetic::div_mod::lemma_mod_sub_multiples_vanish(q + byte as int, range);
                vstd::arithmetic::div_mod::lemma_small_mod(
                    (q + byte as int - range) as nat,
                    range as nat,
                );
            } else {
                vstd::arithmetic::div_mod::lemma_small_mod((q + byte as int) as nat, range as nat);
            }
        }
        hash = scaled.wrapping_add(byte as u64);
        i += 1;
    }
    hash
}

/// Appends the hexadecimal digits of a number.
pub fn push_hex(out: &mut String, n: u64)
    ensures
        final(out)@ == old(out)@ + hex_digits(n as nat),
    decreases n,
{
    if n >= 16 {
        push_hex(out, n / 16);
    }
    let d: u8 = (n % 16) as u8;
    let c: char = if d < 10 {
        (48u8 + d) as char
    } else {
        (87u8 + d) as char
    };
    out.push(c);
}

/// A player.
pub struct User {
    /// Name of the player.
    pub username: String,
    /// Digest of the password, in hexadecimal.
    pub password_hash: String,
    /// Games played.
    pub games_played: u32,
    /// Games won.
    pub games_won: u32,
    /// Games drawn.
    pub games_drawn: u32,
    /// Games lost.
    pub games_lost: u32,
    /// Rating.
    pub rating: u32,
}

/// Why a registration or a login is refused.
#[derive(Clone, Copy, Debug, PartialEq, Eq, Structural)]
pub enum AuthError {
    /// Name or password is empty.
    Empty,
    /// The name has fewer than three bytes.
    ShortUsername,
    /// The password has fewer than four bytes.
    ShortPassword,
    /// The name is taken.
    Taken,
    /// The password is not the player's.
    WrongPassword,
    /// No player has the name.
    UnknownUser,
}

impl AuthError {
    /// The words of the refusal.
    pub open spec fn spec_message(self) -> Seq<char> {
        match self {
            AuthError::Empty => "Username and password cannot be empty"@,
            AuthError::ShortUsername => "Username must be at least 3 characters"@,
            AuthError::ShortPassword => "Password must be at least 4 characters"@,
            AuthError::Taken => "Username already exists"@,
            AuthError::WrongPassword => "Invalid password"@,
            AuthError::UnknownUser => "User not found"@,
        }
    }

    /// The words of the refusal.
    pub fn message(&self) -> (text: String)
        ensures
            text@ == self.spec_message(),
    {
        match self {
            AuthError::Empty => String::from_str("Username and password cannot be empty"),
            AuthError::ShortUsername => String::from_str("Username must be at least 3 characters"),
            AuthError::ShortPassword => String::from_str("Password must be at least 4 characters"),
            AuthError::Taken => String::from_str("Username already exists"),
            AuthError::WrongPassword => String::from_str("Invalid password"),
            AuthError::UnknownUser => String::from_str("User not found"),
        }
    }
}

/// Why a registration is refused, if it is: the first of an empty name or
/// password, a name under three bytes, a password under four, a name
/// that is taken.
pub open spec fn registration_fault(username: Seq<char>, password: Seq<char>, taken: bool) -> Option<
    AuthError,
> {
    if username.len() == 0 || password.len() == 0 {
        Some(AuthError::Empty)
    } else if (bytes_of(username).len() as usize) < 3 {
        Some(AuthError::ShortUsername)
    } else if (bytes_of(password).len() as usize) < 4 {
        Some(AuthError::ShortPassword)
    } else if taken {
        Some(AuthError::Taken)
    } else {
        None
    }
}

/// Checks a registration; `taken` says whether the name is in use.
pub fn check_registration(username: &str, password: &str, taken: bool) -> (r: Result<(), AuthError>)
    ensures
        match r {
            Ok(_) => registration_fault(username@, password@, taken) is None,
            Err(e) => registration_fault(username@, password@, taken) == Some(e),
        },
{
    if username.is_empty() || password.is_empty() {
        return Err(AuthError::Empty);
    }
    if username.len() < 3 {
        return Err(AuthError::ShortUsername);
    }
    if password.len() < 4 {
        return Err(AuthError::ShortPassword);
    }
    if taken {
        return Err(AuthError::Taken);
    }
    Ok(())
}

impl User {
    /// A new player with the given name and password, no games and the
    /// initial rating.
    pub fn new(username: String, password: String) -> (u: User)
        ensures
            u.username == username,
            u.password_hash@ == password_text(bytes_of(password@)),
            u.games_played == 0,
            u.games_won == 0,
            u.games_drawn == 0,
            u.games_lost == 0,
            u.rating == INITIAL_RATING,
    {
        User {
            username,
            password_hash: Self::hash_password(password.as_str()),
            games_played: 0,
            games_won: 0,
            games_drawn: 0,
            games_lost: 0,
            rating: INITIAL_RATING,
        }
    }

    /// The text under which a password is kept.
    pub fn hash_password(password: &str) -> (text: String)
        ensures
            text@ == password_text(bytes_of(password@)),
    {
        let mut text = String::new();
        push_hex(&mut text, md5_hash(password.as_bytes()));
        text
    }

    /// Whether the password is the player's.
    pub fn verify_password(&self, password: &str) -> (r: bool)
        ensures
            r == (self.password_hash@ == password_text(bytes_of(password@))),
    {
        let text = Self::hash_password(password);
        self.password_hash == text
    }

    /// A copy of the record.
    pub fn copy(&self) -> (u: User)
        ensures
            u == *self,
    {
        User {
            username: self.username.clone(),
            password_hash: self.password_hash.clone(),
            games_played: self.games_played,
            games_won: self.games_won,
            games_drawn: self.games_drawn,
            games_lost: self.games_lost,
            rating: self.rating,
        }
    }
}

/// Logs a player in: with the record found under the name, if any, and the
/// password given.
pub fn check_login(found: Option<&User>, password: &str) -> (r: Result<User, AuthError>)
    ensures
        match found {
            Some(user) => if user.password_hash@ == password_text(bytes_of(password@)) {
                r == Ok::<User, AuthError>(*user)
            } else {
                r == Err::<User, AuthError>(AuthError::WrongPassword)
            },
            None => r == Err::<User, AuthError>(AuthError::UnknownUser),
        },
{
    match found {
        Some(user) => {
            if user.verify_password(password) {
                Ok(user.copy())
            } else {
                Err(AuthError::WrongPassword)
            }
        },
        None => Err(AuthError::UnknownUser),
    }
}

} // verus!
