use vstd::prelude::*;

use crate::error::{is_invalid_input, AppError, ValidationError};
use crate::text::{
    chars_of, decimal, digit_char, occurs_at, push_char, push_decimal, trim, trim_bounds,
};

verus! {

/// Characters that may not stand in a file name.
pub open spec fn forbidden_in_name(c: char) -> bool {
    c == '<' || c == '>' || c == ':' || c == '"' || c == '/' || c == '\\' || c == '|' || c == '?'
        || c == '*'
}

/// `s` without its forbidden characters.
pub open spec fn sanitized(s: Seq<char>) -> Seq<char>
    decreases s.len(),
{
    if s.len() == 0 {
        s
    } else if forbidden_in_name(s.last()) {
        sanitized(s.drop_last())
    } else {
        sanitized(s.drop_last()).push(s.last())
    }
}

/// Removes the characters that may not stand in a file name.
pub fn sanitize_filename(filename: &str) -> (r: String)
    ensures
        r@ == sanitized(filename@),
{
    let cs = chars_of(filename);
    let mut out = String::new();
    let mut i: usize = 0;
    while i < cs.len()
        invariant
            cs@ == filename@,
            i <= cs.len(),
            out@ == sanitized(cs@.subrange(0, i as int)),
        decreases cs.len() - i,
    {
        let c = cs[i];
        assert(cs@.subrange(0, i + 1).drop_last() =~= cs@.subrange(0, i as int));
        if !(c == '<' || c == '>' || c == ':' || c == '"' || c == '/' || c == '\\' || c == '|' || c
            == '?' || c == '*') {
            push_char(&mut out, c);
        }
        i = i + 1;
    }
    assert(cs@.subrange(0, i as int) =~= filename@);
    out
}

/// The lower-case hexadecimal digit for `d < 16`.
pub open spec fn hex_digit(d: nat) -> char {
    if d < 10 {
        digit_char(d)
    } else {
        ((d - 10 + 97) as u8) as char
    }
}

/// Two lower-case hexadecimal digits per byte.
pub open spec fn hex_of(b: Seq<u8>) -> Seq<char>
    decreases b.len(),
{
    if b.len() == 0 {
        Seq::empty()
    } else {
        hex_of(b.drop_last()).push(hex_digit(b.last() as nat / 16)).push(hex_digit(b.last() as nat % 16))
    }
}

fn hex_char(d: u8) -> (r: char)
    requires
        d < 16,
    ensures
        r == hex_digit(d as nat),
{
    if d < 10 {
        (d + 48) as char
    } else {
        (d - 10 + 97) as char
    }
}

/// The bytes in lower-case hexadecimal, two digits each.
pub fn bytes_to_hex(bytes: &[u8]) -> (r: String)
    ensures
        r@ == hex_of(bytes@),
{
    let mut out = String::new();
    let mut i: usize = 0;
    while i < bytes.len()
        invariant
            i <= bytes.len(),
            out@ == hex_of(bytes@.subrange(0, i as int)),
        decreases bytes.len() - i,
    {
        let b = bytes[i];
        assert(bytes@.subrange(0, i + 1).drop_last() =~= bytes@.subrange(0, i as int));
        push_char(&mut out, hex_char(b / 16));
        push_char(&mut out, hex_char(b % 16));
        i = i + 1;
    }
    assert(bytes@.subrange(0, i as int) =~= bytes@);
    out
}

/// `pat` occurs somewhere in `s`.
pub open spec fn contains_seq(s: Seq<char>, pat: Seq<char>) -> bool {
    exists|i: int| 0 <= i && i + pat.len() <= s.len() && #[trigger] s.subrange(i, i + pat.len()) == pat
}

/// Whether `pat` occurs in `s`.
pub fn contains_text(s: &Vec<char>, pat: &Vec<char>) -> (r: bool)
    ensures
        r == contains_seq(s@, pat@),
{
    let mut i: usize = 0;
    while i < s.len()
        invariant
            i <= s.len(),
            forall|k: int| 0 <= k < i && k + pat.len() <= s.len() ==> #[trigger] s@.subrange(k, k + pat.len()) != pat@,
        decreases s.len() - i,
    {
        if occurs_at(s, i, pat) {
            return true;
        }
        i = i + 1;
    }
    occurs_at(s, i, pat)
}

/// Accepts a path without `..` and without backslashes; an invalid-input error otherwise.
pub fn validate_path_safety(path: &str) -> (r: Result<(), AppError>)
    ensures
        r is Ok <==> !contains_seq(path@, seq!['.', '.']) && !contains_seq(path@, seq!['\\']),
        r is Err ==> is_invalid_input(r->Err_0),
{
    let cs = chars_of(path);
    let mut dots: Vec<char> = Vec::new();
    dots.push('.');
    dots.push('.');
    assert(dots@ =~= seq!['.', '.']);
    if contains_text(&cs, &dots) {
        return Err(AppError::validation("Path contains '..' which is not allowed"));
    }
    let mut slash: Vec<char> = Vec::new();
    slash.push('\\');
    assert(slash@ =~= seq!['\\']);
    if contains_text(&cs, &slash) {
        return Err(AppError::validation("Backslashes not allowed on Unix systems"));
    }
    Ok(())
}

/// A relative path checked for traversal and backslashes.
#[derive(Debug)]
pub struct ValidatedPath(pub String);

impl ValidatedPath {
    /// Rejects an absolute path, and one holding `..` or a backslash.
    pub fn new(path: String) -> (r: Result<ValidatedPath, AppError>)
        ensures
            r is Ok <==> !(path@.len() > 0 && path@[0] == '/') && !contains_seq(path@, seq!['.', '.'])
                && !contains_seq(path@, seq!['\\']),
            r is Ok ==> r->Ok_0.0 == path,
            r is Err ==> is_invalid_input(r->Err_0),
    {
        let cs = chars_of(path.as_str());
        if cs.len() > 0 && cs[0] == '/' {
            return Err(AppError::validation("Absolute paths not allowed"));
        }
        match validate_path_safety(path.as_str()) {
            Ok(()) => Ok(ValidatedPath(path)),
            Err(_) => Err(AppError::validation("Invalid path characters")),
        }
    }

    pub fn as_path(&self) -> (r: &str)
        ensures
            r@ == self.0@,
    {
        self.0.as_str()
    }
}

/// Fails with an invalid-input error when `s` is empty once trimmed.
pub fn validate_non_empty(s: &str, field: &str) -> (r: Result<(), AppError>)
    ensures
        r is Ok <==> trim(s@).len() > 0,
        r is Err ==> (r->Err_0 matches AppError::Validation(ValidationError::InvalidInput { message })
            && message@ == "Field '"@ + field@ + "' cannot be empty"@),
{
    let cs = chars_of(s);
    assert(cs@.subrange(0, cs.len() as int) =~= s@);
    let (a, b) = trim_bounds(&cs, 0, cs.len());
    if a == b {
        let mut message = "Field '".to_string();
        message.append(field);
        message.append("' cannot be empty");
        return Err(AppError::validation(message.as_str()));
    }
    Ok(())
}

/// Fails with an invalid-input error when `value` lies outside `min..=max`.
pub fn validate_range(value: u64, min: u64, max: u64, field: &str) -> (r: Result<(), AppError>)
    ensures
        r is Ok <==> min <= value <= max,
        r is Err ==> is_invalid_input(r->Err_0),
{
    if value < min || value > max {
        let mut message = "Value for field '".to_string();
        message.append(field);
        message.append("' is out of range");
        return Err(AppError::validation(message.as_str()));
    }
    Ok(())
}

/// A duration of `secs` seconds as `Hh Mm Ss`, `Mm Ss` or `Ss`.
pub open spec fn duration_text(secs: nat) -> Seq<char> {
    let h = secs / 3600;
    let m = (secs % 3600) / 60;
    let s = secs % 60;
    if h > 0 {
        decimal(h) + "h "@ + decimal(m) + "m "@ + decimal(s) + "s"@
    } else if m > 0 {
        decimal(m) + "m "@ + decimal(s) + "s"@
    } else {
        decimal(s) + "s"@
    }
}

/// Formats a duration given in whole seconds.
pub fn format_duration(total_seconds: u64) -> (r: String)
    ensures
        r@ == duration_text(total_seconds as nat),
{
    let hours = total_seconds / 3600;
    let minutes = (total_seconds % 3600) / 60;
    let seconds = total_seconds % 60;
    let mut out = String::new();
    if hours > 0 {
        push_decimal(&mut out, hours);
        out.append("h ");
        push_decimal(&mut out, minutes);
        out.append("m ");
    } else if minutes > 0 {
        push_decimal(&mut out, minutes);
        out.append("m ");
    }
    push_decimal(&mut out, seconds);
    out.append("s");
    assert(out@ =~= duration_text(total_seconds as nat));
    out
}

/// `s` without its leading dots.
pub open spec fn without_leading_dots(s: Seq<char>) -> Seq<char>
    decreases s.len(),
{
    if s.len() > 0 && s[0] == '.' {
        without_leading_dots(s.drop_first())
    } else {
        s
    }
}

/// A file name made unique by a timestamp: `prefix_timestamp.extension`.
pub fn generate_unique_filename(prefix: &str, extension: &str, timestamp_ms: u64) -> (r: String)
    ensures
        r@ == prefix@ + seq!['_'] + decimal(timestamp_ms as nat) + seq!['.'] + without_leading_dots(
            extension@,
        ),
{
    let ext = chars_of(extension);
    let mut a: usize = 0;
    assert(ext@.subrange(0, ext.len() as int) =~= extension@);
    while a < ext.len() && ext[a] == '.'
        invariant
            ext@ == extension@,
            a <= ext.len(),
            without_leading_dots(extension@) == without_leading_dots(ext@.subrange(a as int, ext.len() as int)),
        decreases ext.len() - a,
    {
        assert(ext@.subrange(a as int, ext.len() as int).drop_first() =~= ext@.subrange(a + 1, ext.len() as int));
        a = a + 1;
    }
    let mut out = prefix.to_string();
    push_char(&mut out, '_');
    push_decimal(&mut out, timestamp_ms);
    push_char(&mut out, '.');
    let ghost head = out@;
    let mut k: usize = a;
    while k < ext.len()
        invariant
            a <= k <= ext.len(),
            out@ == head + ext@.subrange(a as int, k as int),
        decreases ext.len() - k,
    {
        push_char(&mut out, ext[k]);
        k = k + 1;
        assert(out@ =~= head + ext@.subrange(a as int, k as int));
    }
    out
}

} // verus!
