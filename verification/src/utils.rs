//! Identifiers of a session and the place of the cached token.

use vstd::prelude::*;

verus! {

/// The digit that stands for `d` in base sixteen, in lower case.
pub open spec fn hex_digit(d: int) -> char {
    seq!['0', '1', '2', '3', '4', '5', '6', '7', '8', '9', 'a', 'b', 'c', 'd', 'e', 'f'][d]
}

/// A byte in base sixteen, in lower case, without a zero in front.
pub open spec fn hex_of_byte(byte: u8) -> Seq<char> {
    if byte < 16 {
        seq![hex_digit(byte as int)]
    } else {
        seq![hex_digit(byte as int / 16), hex_digit(byte as int % 16)]
    }
}

/// The bytes in base sixteen, one after the other.
pub open spec fn hex_of(bytes: Seq<u8>) -> Seq<char>
    decreases bytes.len(),
{
    if bytes.len() == 0 {
        Seq::empty()
    } else {
        hex_of(bytes.drop_last()) + hex_of_byte(bytes.last())
    }
}

/// A number below ten as a decimal digit.
pub open spec fn decimal_digit(d: int) -> char {
    seq!['0', '1', '2', '3', '4', '5', '6', '7', '8', '9'][d]
}

/// A natural number in base ten.
pub open spec fn decimal_of_nat(n: nat) -> Seq<char>
    decreases n,
{
    if n < 10 {
        seq![decimal_digit(n as int)]
    } else {
        decimal_of_nat(n / 10) + seq![decimal_digit(n as int % 10)]
    }
}

/// An integer in base ten, with a minus sign where it is negative.
pub open spec fn decimal_of(n: int) -> Seq<char> {
    if n < 0 {
        seq!['-'] + decimal_of_nat((-n) as nat)
    } else {
        decimal_of_nat(n as nat)
    }
}

/// The digit of `d` in base sixteen, as a text.
fn hex_digit_text(d: u8) -> (text: &'static str)
    requires
        d < 16,
    ensures
        text@ == seq![hex_digit(d as int)],
{
    proof {
        reveal_strlit("0");
        reveal_strlit("1");
        reveal_strlit("2");
        reveal_strlit("3");
        reveal_strlit("4");
        reveal_strlit("5");
        reveal_strlit("6");
        reveal_strlit("7");
        reveal_strlit("8");
        reveal_strlit("9");
        reveal_strlit("a");
        reveal_strlit("b");
        reveal_strlit("c");
        reveal_strlit("d");
        reveal_strlit("e");
        reveal_strlit("f");
    }
    let text = match d {
        0 => "0",
        1 => "1",
        2 => "2",
        3 => "3",
        4 => "4",
        5 => "5",
        6 => "6",
        7 => "7",
        8 => "8",
        9 => "9",
        10 => "a",
        11 => "b",
        12 => "c",
        13 => "d",
        14 => "e",
        _ => "f",
    };
    assert(text@ =~= seq![hex_digit(d as int)]);
    text
}

/// Writes the bytes in base sixteen, in lower case, each without a zero in
/// front.
pub fn hex_string(bytes: &[u8]) -> (text: String)
    ensures
        text@ == hex_of(bytes@),
{
    let mut text = String::new();
    let mut at: usize = 0;
    assert(bytes@.take(0) =~= Seq::<u8>::empty());
    while at < bytes.len()
        invariant
            at <= bytes.len(),
            text@ == hex_of(bytes@.take(at as int)),
        decreases bytes.len() - at,
    {
        let byte: u8 = bytes[at];
        let ghost before = text@;
        if byte >= 16 {
            text.append(hex_digit_text(byte / 16));
        }
        text.append(hex_digit_text(byte % 16));
        proof {
            let taken = bytes@.take(at + 1);
            assert(taken.drop_last() =~= bytes@.take(at as int));
            assert(taken.last() == byte);
            assert(text@ =~= before + hex_of_byte(byte));
        }
        at = at + 1;
    }
    assert(bytes@.take(at as int) =~= bytes@);
    text
}

/// Draws a byte from `rand::thread_rng`, by `rand::Rng::gen`. Nothing is
/// claimed of the byte. The call panics where the generator cannot be seeded.
#[verifier::external_body]
fn random_byte() -> u8 {
    rand::Rng::gen::<u8>(&mut rand::thread_rng())
}

/// Asks `uuid::Uuid::new_v4` for a random identifier and writes it as a
/// text. Nothing is claimed of the text. The call panics where the system
/// hands out no random numbers.
#[verifier::external_body]
pub(crate) fn generate_random_uuid4() -> String {
    uuid::Uuid::new_v4().to_string()
}

/// Asks `chrono::Utc::now` for the time, and `DateTime::timestamp_millis` for
/// its milliseconds since 1970. Nothing is claimed of the number. The call
/// panics where the clock of the machine stands before 1970.
#[verifier::external_body]
fn now_millis() -> i64 {
    chrono::Utc::now().timestamp_millis()
}

/// A text of `length` random bytes in base sixteen.
pub fn random_hex_string(length: usize) -> (text: String)
    ensures
        exists|bytes: Seq<u8>| bytes.len() == length && text@ == hex_of(bytes),
{
    let mut bytes: Vec<u8> = Vec::new();
    let mut drawn: usize = 0;
    while drawn < length
        invariant
            drawn <= length,
            bytes@.len() == drawn,
        decreases length - drawn,
    {
        bytes.push(random_byte());
        drawn = drawn + 1;
    }
    hex_string(bytes.as_slice())
}

/// The digit of `d` in base ten, as a text.
fn decimal_digit_text(d: u8) -> (text: &'static str)
    requires
        d < 10,
    ensures
        text@ == seq![decimal_digit(d as int)],
{
    let text = hex_digit_text(d);
    assert(text@ =~= seq![decimal_digit(d as int)]);
    text
}

/// Writes a natural number in base ten behind `text`.
pub fn push_decimal(text: &mut String, n: u64)
    ensures
        final(text)@ == old(text)@ + decimal_of_nat(n as nat),
    decreases n,
{
    if n >= 10 {
        push_decimal(text, n / 10);
    }
    text.append(decimal_digit_text((n % 10) as u8));
    assert(text@ =~= old(text)@ + decimal_of_nat(n as nat));
}

/// The session identifier made of a random identifier and a time.
pub fn session_id(uuid: &str, millis: i64) -> (id: String)
    ensures
        id@ == uuid@ + decimal_of(millis as int),
{
    let mut id: String = uuid.to_owned();
    if millis < 0 {
        proof {
            reveal_strlit("-");
        }
        id.append("-");
        let magnitude: u64 = ((-(millis + 1)) as u64) + 1;
        push_decimal(&mut id, magnitude);
        assert(id@ =~= uuid@ + (seq!['-'] + decimal_of_nat((-millis) as nat)));
    } else {
        push_decimal(&mut id, millis as u64);
    }
    id
}

/// A fresh session identifier: a random identifier followed by the present
/// time in milliseconds.
pub fn generate_vscode_session_id() -> (id: String)
    ensures
        exists|uuid: Seq<char>, millis: int| id@ == uuid + decimal_of(millis),
{
    let uuid = generate_random_uuid4();
    let millis = now_millis();
    let id = session_id(uuid.as_str(), millis);
    assert(id@ == uuid@ + decimal_of(millis as int));
    id
}

/// The directory of the configuration, for a home directory.
pub open spec fn config_dir_of(home: Seq<char>) -> Seq<char> {
    home + "/.config/copilot"@
}

/// The file that holds the cached token, for a home directory.
pub open spec fn config_file_of(home: Seq<char>) -> Seq<char> {
    config_dir_of(home) + "/config.json"@
}

/// The directory of the configuration, for a home directory.
pub fn get_config_path(home: &str) -> (path: String)
    ensures
        path@ == config_dir_of(home@),
{
    let mut path: String = home.to_owned();
    path.append("/.config/copilot");
    path
}

/// The file that holds the cached token, for a home directory.
pub fn config_file_path(home: &str) -> (path: String)
    ensures
        path@ == config_file_of(home@),
{
    let mut path = get_config_path(home);
    path.append("/config.json");
    path
}

} // verus!
