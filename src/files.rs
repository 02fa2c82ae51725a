use vstd::prelude::*;
use vstd::string::StrSliceExecFns;
use vstd::string::StringExecFns;
use vstd::string::StringSliceAdditionalSpecFns;
use vstd::utf8::encode_utf8;
use vstd::utf8::encode_utf8_valid_utf8;
use vstd::utf8::is_ascii_chars;
use vstd::utf8::is_char_boundary;
use vstd::utf8::is_char_boundary_iff_not_is_continuation_byte;
use vstd::utf8::is_char_boundary_start_end_of_seq;
use vstd::utf8::valid_utf8_split;

verus! {

/// Length of a stored file's name: the hex MD5 digest of its bytes.
pub const FILENAME_LEN: usize = 32;

/// Failures of the file store.
#[derive(Debug, Clone, Copy, PartialEq, Eq, Structural)]
pub enum StoreError {
    Server,
    WrongFilename,
    WrongField,
    WrongMime,
    Write,
    Read,
    Exists,
    NotFound,
}

impl StoreError {
    pub open spec fn spec_status(self) -> u16 {
        if self is Server || self is Write {
            500
        } else {
            400
        }
    }

    pub open spec fn spec_message(self) -> Seq<char> {
        match self {
            StoreError::Server => "Server Start"@,
            StoreError::WrongFilename => "Wrong Filename"@,
            StoreError::WrongField => "Wrong Field"@,
            StoreError::WrongMime => "Wrong Mime"@,
            StoreError::Write => "Write File"@,
            StoreError::Read => "Read File"@,
            StoreError::Exists => "File already exists"@,
            StoreError::NotFound => "File not found"@,
        }
    }

    /// The HTTP status a request that failed this way is answered with.
    pub fn status(&self) -> (r: u16)
        ensures
            r == self.spec_status(),
    {
        match self {
            StoreError::Server | StoreError::Write => 500,
            _ => 400,
        }
    }

    /// The text shown to the client for this failure.
    pub fn message(&self) -> (r: &'static str)
        ensures
            r@ == self.spec_message(),
    {
        match self {
            StoreError::Server => "Server Start",
            StoreError::WrongFilename => "Wrong Filename",
            StoreError::WrongField => "Wrong Field",
            StoreError::WrongMime => "Wrong Mime",
            StoreError::Write => "Write File",
            StoreError::Read => "Read File",
            StoreError::Exists => "File already exists",
            StoreError::NotFound => "File not found",
        }
    }
}

/// A name under which a file can be stored: `FILENAME_LEN` ASCII characters.
pub open spec fn valid_filename(name: Seq<char>) -> bool {
    name.len() == FILENAME_LEN && is_ascii_chars(name)
}

/// Accepts a file name only when it has the length of a hex MD5 digest and
/// is plain ASCII, as every stored name is; anything else names no file.
pub fn check_filename(name: &str) -> (r: Result<(), StoreError>)
    ensures
        r is Ok <==> valid_filename(name@),
        r is Err ==> r == Err::<(), StoreError>(StoreError::WrongFilename),
{
    if name.is_ascii() && name.unicode_len() == FILENAME_LEN {
        Ok(())
    } else {
        Err(StoreError::WrongFilename)
    }
}

/// Splits a file name into the three two-byte directory levels under which
/// the file is stored and the rest, its name there. Each cut must fall
/// between characters.
pub fn split_string(s: String) -> (r: (String, String, String, String))
    requires
        is_char_boundary(encode_utf8(s@), 2),
        is_char_boundary(encode_utf8(s@), 4),
        is_char_boundary(encode_utf8(s@), 6),
    ensures
        encode_utf8(r.0@) == encode_utf8(s@).subrange(0, 2),
        encode_utf8(r.1@) == encode_utf8(s@).subrange(2, 4),
        encode_utf8(r.2@) == encode_utf8(s@).subrange(4, 6),
        encode_utf8(r.3@) == encode_utf8(s@).subrange(6, encode_utf8(s@).len() as int),
{
    let ghost b = encode_utf8(s@);
    let t = s.as_str();
    proof {
        encode_utf8_valid_utf8(s@);
        assert(b.len() >= 6);
        valid_utf8_split(b, 2);
        valid_utf8_split(b, 4);
        let r2 = b.subrange(2, b.len() as int);
        let r4 = b.subrange(4, b.len() as int);
        is_char_boundary_iff_not_is_continuation_byte(b, 4);
        is_char_boundary_iff_not_is_continuation_byte(r2, 2);
        assert(r2[2] == b[4]);
        if b.len() > 6 {
            is_char_boundary_iff_not_is_continuation_byte(b, 6);
            is_char_boundary_iff_not_is_continuation_byte(r4, 2);
            assert(r4[2] == b[6]);
        } else {
            is_char_boundary_start_end_of_seq(r4);
        }
        assert(r2.subrange(2, r2.len() as int) =~= r4);
    }
    let (x, rest) = t.split_at(2);
    let (y, rest) = rest.split_at(2);
    let (z, rest) = rest.split_at(2);
    proof {
        assert(rest.spec_bytes() =~= b.subrange(6, b.len() as int));
        assert(y.spec_bytes() =~= b.subrange(2, 4));
        assert(z.spec_bytes() =~= b.subrange(4, 6));
    }
    (String::from_str(x), String::from_str(y), String::from_str(z), String::from_str(rest))
}

} // verus!
