use vstd::prelude::*;
use vstd::utf8::encode_utf8;

verus! {

/// `hex::FromHexError`, the error of the decoder. Nothing is claimed of
/// what a value holds.
#[verifier::external_type_specification]
#[verifier::external_body]
pub struct ExFromHexError(hex::FromHexError);

/// What the command line names: the file that holds the payload, and
/// perhaps the file that holds the settings.
#[derive(Debug)]
pub struct Entry {
    /// Name of the file that holds the payload.
    pub filename: String,
    /// Name of the file that holds the settings, if one was given.
    pub setupname: Option<String>,
}

/// Why the payload could not be taken from its file's text.
#[derive(Debug, Clone, Copy, PartialEq, Eq)]
pub enum SourceError {
    /// The text is not an even number of hexadecimal digits.
    InvalidHex,
}

/// The characters that count as white space at the ends of a text.
pub open spec fn is_space(c: char) -> bool {
    ||| '\u{9}' <= c <= '\u{d}'
    ||| c == ' '
    ||| c == '\u{85}'
    ||| c == '\u{a0}'
    ||| c == '\u{1680}'
    ||| '\u{2000}' <= c <= '\u{200a}'
    ||| c == '\u{2028}'
    ||| c == '\u{2029}'
    ||| c == '\u{202f}'
    ||| c == '\u{205f}'
    ||| c == '\u{3000}'
}

/// A text without the white space at its start.
pub open spec fn trimmed_start(s: Seq<char>) -> Seq<char>
    decreases s.len(),
{
    if s.len() > 0 && is_space(s[0]) {
        trimmed_start(s.drop_first())
    } else {
        s
    }
}

/// A text without the white space at its end.
pub open spec fn trimmed_end(s: Seq<char>) -> Seq<char>
    decreases s.len(),
{
    if s.len() > 0 && is_space(s.last()) {
        trimmed_end(s.drop_last())
    } else {
        s
    }
}

/// A text without the white space at either end.
pub open spec fn trimmed(s: Seq<char>) -> Seq<char> {
    trimmed_end(trimmed_start(s))
}

/// The value of a hexadecimal digit, of either case.
pub open spec fn hex_digit(c: u8) -> Option<int> {
    if 0x30 <= c <= 0x39 {
        Some(c - 0x30)
    } else if 0x61 <= c <= 0x66 {
        Some(c - 0x61 + 10)
    } else if 0x41 <= c <= 0x46 {
        Some(c - 0x41 + 10)
    } else {
        None
    }
}

/// An even number of hexadecimal digits.
pub open spec fn is_hex(text: Seq<u8>) -> bool {
    &&& text.len() % 2 == 0
    &&& forall|i: int| 0 <= i < text.len() ==> hex_digit(#[trigger] text[i]) is Some
}

/// The bytes that pairs of hexadecimal digits spell, the high digit first.
pub open spec fn hex_bytes(text: Seq<u8>) -> Seq<u8>
    recommends
        is_hex(text),
{
    Seq::new(
        text.len() / 2,
        |i: int| (16 * hex_digit(text[2 * i]).unwrap() + hex_digit(text[2 * i + 1]).unwrap()) as u8,
    )
}

/// Calls `str::trim`. Not proved: that it returns the text between the
/// leading and the trailing white space.
#[verifier::external_body]
fn trim<'a>(text: &'a str) -> (out: &'a str)
    ensures
        out@ == trimmed(text@),
{
    text.trim()
}

/// Calls `hex::decode`. Not proved: that it succeeds exactly on an even
/// number of hexadecimal digits, and returns one byte for every pair, the
/// first digit of a pair being the high half.
#[verifier::external_body]
pub(crate) fn hex_decode(text: &[u8]) -> (out: Result<Vec<u8>, hex::FromHexError>)
    ensures
        out is Ok <==> is_hex(text@),
        out matches Ok(bytes) ==> bytes@ == hex_bytes(text@),
{
    hex::decode(text)
}

impl Entry {
    /// Reads the arguments of the program: its own name, the payload file,
    /// and perhaps the settings file.
    pub fn new(args: Vec<String>) -> (out: Result<Entry, &'static str>)
        ensures
            out is Ok <==> args@.len() >= 2,
            out matches Err(message) ==> message@ == "Didn't get a file name"@,
            out matches Ok(entry) ==> {
                &&& entry.filename@ == args@[1]@
                &&& entry.setupname is Some <==> args@.len() >= 3
                &&& entry.setupname matches Some(name) ==> name@ == args@[2]@
            },
    {
        if args.len() < 2 {
            return Err("Didn't get a file name");
        }
        let filename = args[1].clone();
        let setupname = if args.len() >= 3 {
            Some(args[2].clone())
        } else {
            None
        };
        Ok(Entry { filename, setupname })
    }

    /// The name of the settings file: the one that was given, or
    /// `default_constants`.
    pub fn setup_file(&self) -> (name: String)
        ensures
            name@ == (match self.setupname {
                Some(given) => given@,
                None => "default_constants"@,
            }),
    {
        match &self.setupname {
            Some(given) => given.clone(),
            None => "default_constants".to_owned(),
        }
    }
}

/// Reads a payload written as hexadecimal digits, with white space around
/// them.
pub fn prepare_hex(contents: &str) -> (out: Result<Vec<u8>, SourceError>)
    ensures
        out is Ok <==> is_hex(encode_utf8(trimmed(contents@))),
        out matches Ok(data) ==> data@ == hex_bytes(encode_utf8(trimmed(contents@))),
        out matches Err(e) ==> e == SourceError::InvalidHex,
{
    let text = trim(contents);
    match hex_decode(text.as_bytes()) {
        Ok(data) => Ok(data),
        Err(_) => Err(SourceError::InvalidHex),
    }
}

/// Takes the bytes of a text as the payload.
pub fn prepare_text(contents: &str) -> (out: Vec<u8>)
    ensures
        out@ == encode_utf8(contents@),
{
    contents.as_bytes_vec()
}

} // verus!
