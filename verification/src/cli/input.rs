//! Reading values from command-line arguments.

use vstd::prelude::*;
use vstd::string::{StrSliceExecFns, StringExecFns};
use vstd::utf8::encode_utf8;
use crate::hexadecimal::{hex_bytes, hex_decode, hex_error_text, is_hex};
use crate::text::{
    chars_of, fault_text, integer_outcome, parse_integer, parse_unsigned, signed, unsigned_outcome,
    NumberFault,
};

verus! {

#[verifier::external_type_specification]
#[verifier::external_body]
pub struct ExIoError(std::io::Error);

#[verifier::external_type_specification]
#[verifier::external_body]
pub struct ExBase64Error(base64::DecodeError);

/// Why an argument was refused.
#[derive(Debug)]
pub enum InputError {
    /// No file is at the given path.
    FileNotFound(String),
    /// The argument does not have the expected shape.
    InvalidFormat(String),
    /// The argument has the expected shape and a value that is not allowed.
    InvalidValue(String),
    /// The operating system reported an error.
    IoError(std::io::Error),
}

/// `std::io::Error` as it displays, through `to_string`.  Nothing is said of
/// the text.
#[verifier::external_body]
fn io_error_text(error: &std::io::Error) -> (text: String) {
    error.to_string()
}

fn with_detail(heading: &str, detail: &str) -> (text: String)
    ensures
        text@ == heading@ + detail@,
{
    let mut text = heading.to_owned();
    text.append(detail);
    text
}

impl InputError {
    /// The sentence that tells a reader of the error.
    pub fn to_string(&self) -> (text: String)
        ensures
            match self {
                InputError::FileNotFound(path) => text@ == "File not found: "@ + path@,
                InputError::InvalidFormat(detail) => text@ == "Invalid format: "@ + detail@,
                InputError::InvalidValue(detail) => text@ == "Invalid value: "@ + detail@,
                InputError::IoError(_) => text@.subrange(0, 10) == "IO error: "@,
            },
    {
        match self {
            InputError::FileNotFound(path) => with_detail("File not found: ", path.as_str()),
            InputError::InvalidFormat(detail) => with_detail("Invalid format: ", detail.as_str()),
            InputError::InvalidValue(detail) => with_detail("Invalid value: ", detail.as_str()),
            InputError::IoError(error) => {
                let text = with_detail("IO error: ", io_error_text(error).as_str());
                proof {
                    reveal_strlit("IO error: ");
                    assert(text@.subrange(0, 10) =~= "IO error: "@);
                }
                text
            },
        }
    }
}

/// What standard base64 text with padding decodes to, if it is such text.
pub uninterp spec fn base64_decoding(text: Seq<u8>) -> Option<Seq<u8>>;

/// `std::path::Path::exists`: the answer depends on the file system at the
/// time of the call, so nothing is said of it.
#[verifier::external_body]
fn path_exists(path: &str) -> (exists: bool) {
    std::path::Path::new(path).exists()
}

/// `base64::Engine::decode` of the standard engine: whether it accepts and
/// what it hands back are a function of the text alone.
#[verifier::external_body]
fn base64_decode(text: &str) -> (outcome: Result<Vec<u8>, base64::DecodeError>)
    ensures
        match outcome {
            Ok(bytes) => base64_decoding(encode_utf8(text@)) == Some(bytes@),
            Err(_) => base64_decoding(encode_utf8(text@)) is None,
        },
{
    base64::Engine::decode(&base64::engine::general_purpose::STANDARD, text)
}

/// `base64::DecodeError` as it displays, through `to_string`.  Nothing is
/// said of the text.
#[verifier::external_body]
fn base64_error_text(error: &base64::DecodeError) -> (text: String) {
    error.to_string()
}

/// The path if a file is there, `FileNotFound` with the path if not.
pub fn existing_path(path: &str, exists: bool) -> (r: Result<String, InputError>)
    ensures
        match r {
            Ok(found) => exists && found@ == path@,
            Err(InputError::FileNotFound(missing)) => !exists && missing@ == path@,
            Err(_) => false,
        },
{
    if exists {
        Ok(path.to_owned())
    } else {
        Err(InputError::FileNotFound(path.to_owned()))
    }
}

/// Checks that a file is at the path and hands the path back.
pub fn parse_file_path(path: &str) -> (r: Result<String, InputError>)
    ensures
        match r {
            Ok(found) => found@ == path@,
            Err(InputError::FileNotFound(missing)) => missing@ == path@,
            Err(_) => false,
        },
{
    let exists = path_exists(path);
    existing_path(path, exists)
}

/// Decodes hexadecimal text: an even number of digits, in either case.
pub fn parse_hex(hex_str: &str) -> (r: Result<Vec<u8>, InputError>)
    ensures
        match r {
            Ok(bytes) => is_hex(encode_utf8(hex_str@)) && bytes@ == hex_bytes(
                encode_utf8(hex_str@),
            ),
            Err(InputError::InvalidFormat(_)) => !is_hex(encode_utf8(hex_str@)),
            Err(_) => false,
        },
{
    match hex_decode(hex_str) {
        Ok(bytes) => Ok(bytes),
        Err(error) => Err(
            InputError::InvalidFormat(
                with_detail("Invalid hex string: ", hex_error_text(&error).as_str()),
            ),
        ),
    }
}

/// Decodes standard base64 text with padding.
pub fn parse_base64(base64_str: &str) -> (r: Result<Vec<u8>, InputError>)
    ensures
        match r {
            Ok(bytes) => base64_decoding(encode_utf8(base64_str@)) == Some(bytes@),
            Err(InputError::InvalidFormat(_)) => base64_decoding(encode_utf8(base64_str@))
                is None,
            Err(_) => false,
        },
{
    match base64_decode(base64_str) {
        Ok(bytes) => Ok(bytes),
        Err(error) => Err(
            InputError::InvalidFormat(
                with_detail("Invalid base64 string: ", base64_error_text(&error).as_str()),
            ),
        ),
    }
}

/// An integer type that `parse_number` can read.
pub trait Integer: Sized {
    /// The least number of the type.
    spec fn lowest() -> int;

    /// The largest number of the type.
    spec fn highest() -> int;

    /// The number a value of the type stands for.
    spec fn number(&self) -> int;

    /// How far the type reaches below zero and above it.
    fn range() -> (range: (u64, u64))
        ensures
            range.0 == -Self::lowest(),
            range.1 == Self::highest(),
    ;

    /// The value of the type that stands for the number with the given sign
    /// and magnitude.
    fn from_parts(negative: bool, magnitude: u64) -> (value: Self)
        requires
            Self::lowest() <= signed(negative, magnitude) <= Self::highest(),
        ensures
            value.number() == signed(negative, magnitude),
    ;
}

impl Integer for u8 {
    open spec fn lowest() -> int {
        0
    }

    open spec fn highest() -> int {
        u8::MAX as int
    }

    open spec fn number(&self) -> int {
        *self as int
    }

    fn range() -> (range: (u64, u64)) {
        (0, u8::MAX as u64)
    }

    fn from_parts(negative: bool, magnitude: u64) -> (value: Self) {
        magnitude as u8
    }
}

impl Integer for u16 {
    open spec fn lowest() -> int {
        0
    }

    open spec fn highest() -> int {
        u16::MAX as int
    }

    open spec fn number(&self) -> int {
        *self as int
    }

    fn range() -> (range: (u64, u64)) {
        (0, u16::MAX as u64)
    }

    fn from_parts(negative: bool, magnitude: u64) -> (value: Self) {
        magnitude as u16
    }
}

impl Integer for u32 {
    open spec fn lowest() -> int {
        0
    }

    open spec fn highest() -> int {
        u32::MAX as int
    }

    open spec fn number(&self) -> int {
        *self as int
    }

    fn range() -> (range: (u64, u64)) {
        (0, u32::MAX as u64)
    }

    fn from_parts(negative: bool, magnitude: u64) -> (value: Self) {
        magnitude as u32
    }
}

impl Integer for u64 {
    open spec fn lowest() -> int {
        0
    }

    open spec fn highest() -> int {
        u64::MAX as int
    }

    open spec fn number(&self) -> int {
        *self as int
    }

    fn range() -> (range: (u64, u64)) {
        (0, u64::MAX)
    }

    fn from_parts(negative: bool, magnitude: u64) -> (value: Self) {
        magnitude
    }
}

impl Integer for usize {
    open spec fn lowest() -> int {
        0
    }

    open spec fn highest() -> int {
        usize::MAX as int
    }

    open spec fn number(&self) -> int {
        *self as int
    }

    fn range() -> (range: (u64, u64)) {
        (0, usize::MAX as u64)
    }

    fn from_parts(negative: bool, magnitude: u64) -> (value: Self) {
        magnitude as usize
    }
}

impl Integer for i8 {
    open spec fn lowest() -> int {
        i8::MIN as int
    }

    open spec fn highest() -> int {
        i8::MAX as int
    }

    open spec fn number(&self) -> int {
        *self as int
    }

    fn range() -> (range: (u64, u64)) {
        (i8::MAX as u64 + 1, i8::MAX as u64)
    }

    fn from_parts(negative: bool, magnitude: u64) -> (value: Self) {
        if negative {
            (-(magnitude as i128)) as i8
        } else {
            magnitude as i8
        }
    }
}

impl Integer for i16 {
    open spec fn lowest() -> int {
        i16::MIN as int
    }

    open spec fn highest() -> int {
        i16::MAX as int
    }

    open spec fn number(&self) -> int {
        *self as int
    }

    fn range() -> (range: (u64, u64)) {
        (i16::MAX as u64 + 1, i16::MAX as u64)
    }

    fn from_parts(negative: bool, magnitude: u64) -> (value: Self) {
        if negative {
            (-(magnitude as i128)) as i16
        } else {
            magnitude as i16
        }
    }
}

impl Integer for i32 {
    open spec fn lowest() -> int {
        i32::MIN as int
    }

    open spec fn highest() -> int {
        i32::MAX as int
    }

    open spec fn number(&self) -> int {
        *self as int
    }

    fn range() -> (range: (u64, u64)) {
        (i32::MAX as u64 + 1, i32::MAX as u64)
    }

    fn from_parts(negative: bool, magnitude: u64) -> (value: Self) {
        if negative {
            (-(magnitude as i128)) as i32
        } else {
            magnitude as i32
        }
    }
}

impl Integer for i64 {
    open spec fn lowest() -> int {
        i64::MIN as int
    }

    open spec fn highest() -> int {
        i64::MAX as int
    }

    open spec fn number(&self) -> int {
        *self as int
    }

    fn range() -> (range: (u64, u64)) {
        (i64::MAX as u64 + 1, i64::MAX as u64)
    }

    fn from_parts(negative: bool, magnitude: u64) -> (value: Self) {
        if negative {
            (-(magnitude as i128)) as i64
        } else {
            magnitude as i64
        }
    }
}

impl Integer for isize {
    open spec fn lowest() -> int {
        isize::MIN as int
    }

    open spec fn highest() -> int {
        isize::MAX as int
    }

    open spec fn number(&self) -> int {
        *self as int
    }

    fn range() -> (range: (u64, u64)) {
        (isize::MAX as u64 + 1, isize::MAX as u64)
    }

    fn from_parts(negative: bool, magnitude: u64) -> (value: Self) {
        if negative {
            (-(magnitude as i128)) as isize
        } else {
            magnitude as isize
        }
    }
}

/// Reads a whole number: an optional sign, then decimal digits, denoting a
/// number that the type can hold.  A minus sign is read only for a type that
/// holds numbers below zero.
pub fn parse_number<T: Integer>(value: &str) -> (r: Result<T, InputError>)
    ensures
        match integer_outcome(value@, T::lowest(), T::highest()) {
            Ok(n) => r matches Ok(read) && read.number() == n,
            Err(fault) => r matches Err(InputError::InvalidValue(text)) && text@
                == "Invalid number: "@ + fault_text(fault),
        },
{
    let chars = chars_of(value);
    assert(chars@.subrange(0, chars@.len() as int) =~= value@);
    let range = T::range();
    match parse_integer(&chars, 0, chars.len(), range.0, range.1) {
        Ok(parts) => Ok(T::from_parts(parts.0, parts.1)),
        Err(fault) => Err(InputError::InvalidValue(with_detail("Invalid number: ", fault.text()))),
    }
}

/// White space, as Unicode defines it.
pub open spec fn is_space(c: char) -> bool {
    let code = c as u32;
    ||| 0x09 <= code <= 0x0D
    ||| code == 0x20
    ||| code == 0x85
    ||| code == 0xA0
    ||| code == 0x1680
    ||| 0x2000 <= code <= 0x200A
    ||| code == 0x2028
    ||| code == 0x2029
    ||| code == 0x202F
    ||| code == 0x205F
    ||| code == 0x3000
}

/// A string without the white space at its two ends.
pub open spec fn trimmed(s: Seq<char>) -> Seq<char>
    decreases s.len(),
{
    if s.len() > 0 && is_space(s.first()) {
        trimmed(s.drop_first())
    } else if s.len() > 0 && is_space(s.last()) {
        trimmed(s.drop_last())
    } else {
        s
    }
}

/// The pieces of a string between its commas: one more than it has commas.
pub open spec fn split_at_commas(s: Seq<char>) -> Seq<Seq<char>>
    decreases s.len(),
{
    if s.len() == 0 {
        seq![Seq::empty()]
    } else {
        let before = split_at_commas(s.drop_last());
        if s.last() == ',' {
            before.push(Seq::empty())
        } else {
            before.update(before.len() - 1, before.last().push(s.last()))
        }
    }
}

/// The pieces trimmed, without those that are empty once trimmed.
pub open spec fn kept_pieces(pieces: Seq<Seq<char>>) -> Seq<Seq<char>>
    decreases pieces.len(),
{
    if pieces.len() == 0 {
        Seq::empty()
    } else {
        let before = kept_pieces(pieces.drop_last());
        let piece = trimmed(pieces.last());
        if piece.len() > 0 {
            before.push(piece)
        } else {
            before
        }
    }
}

/// The entries of a comma-separated list.
pub open spec fn comma_separated(s: Seq<char>) -> Seq<Seq<char>> {
    kept_pieces(split_at_commas(s))
}

/// What each string of a list holds.
pub open spec fn texts(strings: Seq<String>) -> Seq<Seq<char>> {
    strings.map_values(|s: String| s@)
}

fn is_space_char(c: char) -> (space: bool)
    ensures
        space == is_space(c),
{
    let code = c as u32;
    (0x09 <= code && code <= 0x0D) || code == 0x20 || code == 0x85 || code == 0xA0 || code
        == 0x1680 || (0x2000 <= code && code <= 0x200A) || code == 0x2028 || code == 0x2029
        || code == 0x202F || code == 0x205F || code == 0x3000
}

/// The bounds of the piece from `start` up to `end` once trimmed.
fn trim_bounds(chars: &Vec<char>, start: usize, end: usize) -> (bounds: (usize, usize))
    requires
        start <= end <= chars@.len(),
    ensures
        start <= bounds.0 <= bounds.1 <= end,
        chars@.subrange(bounds.0 as int, bounds.1 as int) == trimmed(
            chars@.subrange(start as int, end as int),
        ),
{
    let mut a: usize = start;
    while a < end && is_space_char(chars[a])
        invariant
            start <= a <= end <= chars@.len(),
            trimmed(chars@.subrange(a as int, end as int)) == trimmed(
                chars@.subrange(start as int, end as int),
            ),
        decreases end - a,
    {
        assert(chars@.subrange(a as int, end as int).drop_first() =~= chars@.subrange(
            a + 1,
            end as int,
        ));
        a += 1;
    }
    let mut b: usize = end;
    while b > a && is_space_char(chars[b - 1])
        invariant
            start <= a <= b <= end <= chars@.len(),
            a < end ==> !is_space(chars@[a as int]),
            trimmed(chars@.subrange(a as int, b as int)) == trimmed(
                chars@.subrange(start as int, end as int),
            ),
        decreases b - a,
    {
        assert(chars@.subrange(a as int, b as int).drop_last() =~= chars@.subrange(
            a as int,
            b - 1,
        ));
        b -= 1;
    }
    proof {
        bounds_are_trimmed(chars@.subrange(a as int, b as int));
    }
    (a, b)
}

proof fn bounds_are_trimmed(s: Seq<char>)
    requires
        s.len() > 0 ==> !is_space(s.first()) && !is_space(s.last()),
    ensures
        trimmed(s) == s,
{
}

/// Splits at commas, trims each entry and drops the empty ones.
pub fn parse_comma_separated(value: &str) -> (entries: Vec<String>)
    ensures
        texts(entries@) == comma_separated(value@),
{
    let chars = chars_of(value);
    let n = chars.len();
    let mut entries: Vec<String> = Vec::new();
    let ghost mut done: Seq<Seq<char>> = Seq::empty();
    let mut start: usize = 0;
    let mut i: usize = 0;
    proof {
        assert(chars@.take(0) =~= Seq::<char>::empty());
        assert(split_at_commas(chars@.take(0)) =~= done.push(chars@.subrange(0, 0)));
        assert(texts(entries@) =~= kept_pieces(done));
    }
    while i < n
        invariant
            n == chars@.len(),
            chars@ == value@,
            start <= i <= n,
            split_at_commas(chars@.take(i as int)) == done.push(
                chars@.subrange(start as int, i as int),
            ),
            texts(entries@) == kept_pieces(done),
        decreases n - i,
    {
        proof {
            assert(chars@.take(i + 1).drop_last() =~= chars@.take(i as int));
            assert(chars@.take(i + 1).last() == chars@[i as int]);
        }
        if chars[i] == ',' {
            let ghost piece = chars@.subrange(start as int, i as int);
            let (a, b) = trim_bounds(&chars, start, i);
            proof {
                assert(done.push(piece).drop_last() =~= done);
            }
            if a < b {
                let ghost before = entries@;
                let entry = value.substring_char(a, b).to_owned();
                entries.push(entry);
                proof {
                    assert(texts(entries@) =~= texts(before).push(entry@));
                }
            }
            proof {
                done = done.push(piece);
                assert(chars@.subrange(i + 1, i + 1) =~= Seq::<char>::empty());
            }
            start = i + 1;
        } else {
            proof {
                assert(chars@.subrange(start as int, i as int).push(chars@[i as int])
                    =~= chars@.subrange(start as int, i + 1));
                assert(done.push(chars@.subrange(start as int, i as int)).update(
                    done.len() as int,
                    chars@.subrange(start as int, i + 1),
                ) =~= done.push(chars@.subrange(start as int, i + 1)));
            }
        }
        i += 1;
    }
    let ghost piece = chars@.subrange(start as int, n as int);
    let (a, b) = trim_bounds(&chars, start, n);
    proof {
        assert(chars@.take(n as int) =~= chars@);
        assert(done.push(piece).drop_last() =~= done);
    }
    if a < b {
        let ghost before = entries@;
        let entry = value.substring_char(a, b).to_owned();
        entries.push(entry);
        proof {
            assert(texts(entries@) =~= texts(before).push(entry@));
        }
    }
    entries
}

/// Whether the separator of a threshold, `-of-`, stands at position `i`.
pub open spec fn separator_at(s: Seq<char>, i: int) -> bool {
    &&& 0 <= i <= s.len() - 4
    &&& s[i] == '-'
    &&& s[i + 1] == 'o'
    &&& s[i + 2] == 'f'
    &&& s[i + 3] == '-'
}

/// Whether the string splits in exactly two at the separator that stands at
/// `i`: no separator begins before `i`, and none lies behind it.
pub open spec fn splits_at(s: Seq<char>, i: int) -> bool {
    &&& separator_at(s, i)
    &&& forall|k: int| 0 <= k < i ==> !#[trigger] separator_at(s, k)
    &&& forall|k: int| !#[trigger] separator_at(s.skip(i + 4), k)
}

/// What reading `s` as a number of the machine's word size gives.
pub open spec fn word_outcome(s: Seq<char>) -> Result<u64, NumberFault> {
    unsigned_outcome(s, usize::MAX as nat)
}

/// What `parse_threshold` makes of a string that splits in two at `i`.
pub open spec fn threshold_outcome(s: Seq<char>, i: int, r: Result<(usize, usize), InputError>) -> bool {
    match (word_outcome(s.take(i)), word_outcome(s.skip(i + 4))) {
        (Err(fault), _) => r matches Err(InputError::InvalidValue(text)) && text@
            == "Invalid threshold number: "@ + fault_text(fault),
        (Ok(_), Err(fault)) => r matches Err(InputError::InvalidValue(text)) && text@
            == "Invalid total number: "@ + fault_text(fault),
        (Ok(n), Ok(m)) => if n > m {
            r matches Err(InputError::InvalidValue(text)) && text@
                == "Threshold cannot be greater than total"@
        } else {
            r matches Ok(pair) && pair.0 == n && pair.1 == m
        },
    }
}

/// The position of the first separator at or behind `from`.
fn find_separator(chars: &Vec<char>, from: usize) -> (found: Option<usize>)
    requires
        from <= chars@.len(),
    ensures
        match found {
            Some(i) => from <= i && separator_at(chars@, i as int) && forall|k: int|
                from <= k < i ==> !#[trigger] separator_at(chars@, k),
            None => forall|k: int| from <= k ==> !#[trigger] separator_at(chars@, k),
        },
{
    let n = chars.len();
    let mut i: usize = from;
    while n >= 4 && i <= n - 4
        invariant
            n == chars@.len(),
            from <= i,
            forall|k: int| from <= k < i ==> !#[trigger] separator_at(chars@, k),
        decreases n - i,
    {
        if chars[i] == '-' && chars[i + 1] == 'o' && chars[i + 2] == 'f' && chars[i + 3] == '-' {
            return Some(i);
        }
        i += 1;
    }
    None
}

/// The position at which the string splits in exactly two, if it does.
fn split_position(chars: &Vec<char>) -> (found: Option<usize>)
    ensures
        match found {
            Some(i) => i + 4 <= chars@.len() && splits_at(chars@, i as int),
            None => forall|i: int| !splits_at(chars@, i),
        },
{
    let n = chars.len();
    let first = match find_separator(chars, 0) {
        Some(i) => i,
        None => {
            return None;
        },
    };
    assert(first + 4 <= n);
    proof {
        assert forall|k: int| 0 <= k implies separator_at(chars@, k + first + 4)
            == #[trigger] separator_at(chars@.skip(first + 4), k) by {
            assert(chars@.skip(first + 4).len() == chars@.len() - first - 4);
        }
    }
    match find_separator(chars, first + 4) {
        Some(second) => {
            assert(separator_at(chars@.skip(first + 4), second - first - 4));
            None
        },
        None => {
            assert forall|k: int| !#[trigger] separator_at(chars@.skip(first + 4), k) by {
                if 0 <= k {
                    assert(!separator_at(chars@, k + first + 4));
                }
            }
            Some(first)
        },
    }
}

/// Reads a threshold, `N-of-M` with `N` not above `M`.  A string that does
/// not split in exactly two at `-of-` is `InvalidFormat`; parts that are not
/// numbers, or `N` above `M`, are `InvalidValue`.
pub fn parse_threshold(threshold: &str) -> (r: Result<(usize, usize), InputError>)
    ensures
        (forall|i: int| !splits_at(threshold@, i)) ==> (r matches Err(
            InputError::InvalidFormat(text),
        ) && text@ == "Threshold must be in format 'N-of-M'"@),
        forall|i: int| splits_at(threshold@, i) ==> threshold_outcome(threshold@, i, r),
{
    let chars = chars_of(threshold);
    let n = chars.len();
    let at = match split_position(&chars) {
        Some(i) => i,
        None => {
            return Err(
                InputError::InvalidFormat("Threshold must be in format 'N-of-M'".to_owned()),
            );
        },
    };
    proof {
        assert forall|i: int| splits_at(threshold@, i) implies i == at by {}
        assert(chars@.subrange(0, at as int) =~= chars@.take(at as int));
        assert(chars@.subrange(at + 4, n as int) =~= chars@.skip(at + 4));
    }
    let threshold_num = match parse_unsigned(&chars, 0, at, usize::MAX as u64) {
        Ok(number) => number as usize,
        Err(fault) => {
            return Err(InputError::InvalidValue(with_detail("Invalid threshold number: ", fault.text())));
        },
    };
    let total_num = match parse_unsigned(&chars, at + 4, n, usize::MAX as u64) {
        Ok(number) => number as usize,
        Err(fault) => {
            return Err(InputError::InvalidValue(with_detail("Invalid total number: ", fault.text())));
        },
    };
    if threshold_num > total_num {
        return Err(InputError::InvalidValue("Threshold cannot be greater than total".to_owned()));
    }
    Ok((threshold_num, total_num))
}

} // verus!
