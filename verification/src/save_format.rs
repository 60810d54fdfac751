//! The choice of output file format from the file name's extension.
use vstd::prelude::*;
use vstd::string::StrSliceExecFns;

verus! {

/// The two recording formats.
#[derive(Clone, Copy, Debug, PartialEq, Eq, Structural)]
pub enum OutputFormat {
    /// The versioned little-endian `.bin` file.
    Binary,
    /// The FITS binary table (`.fits` or `.fit`).
    Fits,
}

/// `c` with an ASCII capital letter turned into its small letter.
pub open spec fn ascii_lowercase(c: char) -> char {
    if 'A' <= c <= 'Z' {
        ((c as int) + 32) as char
    } else {
        c
    }
}

/// `s` with its ASCII capital letters turned into small letters.
pub open spec fn ascii_lowercase_chars(s: Seq<char>) -> Seq<char> {
    s.map_values(|c: char| ascii_lowercase(c))
}

/// The format that a file name extension selects, ignoring ASCII case: `bin`, or
/// `fits` or `fit`; none for any other extension or none at all.
pub open spec fn format_of_extension(extension: Option<Seq<char>>) -> Option<OutputFormat> {
    match extension {
        Some(e) => if ascii_lowercase_chars(e) == seq!['b', 'i', 'n'] {
            Some(OutputFormat::Binary)
        } else if ascii_lowercase_chars(e) == seq!['f', 'i', 't', 's'] || ascii_lowercase_chars(e)
            == seq!['f', 'i', 't'] {
            Some(OutputFormat::Fits)
        } else {
            None
        },
        None => None,
    }
}

/// `c` with an ASCII capital letter turned into its small letter.
fn to_ascii_lowercase(c: char) -> (lower: char)
    ensures
        lower == ascii_lowercase(c),
{
    if 'A' <= c && c <= 'Z' {
        ((c as u8) + 32) as char
    } else {
        c
    }
}

/// Whether `s`, with ASCII capitals made small, is `expected`.
fn equals_ignoring_ascii_case(s: &str, expected: &str) -> (equal: bool)
    ensures
        equal == (ascii_lowercase_chars(s@) == expected@),
{
    let ghost lowercase = expected@;
    let len = s.unicode_len();
    if len != expected.unicode_len() {
        assert(ascii_lowercase_chars(s@).len() != lowercase.len());
        return false;
    }
    let mut i: usize = 0;
    while i < len
        invariant
            i <= len,
            len == s@.len(),
            len == lowercase.len(),
            lowercase == expected@,
            forall|j: int| 0 <= j < i ==> ascii_lowercase(s@[j]) == lowercase[j],
        decreases len - i,
    {
        if to_ascii_lowercase(s.get_char(i)) != expected.get_char(i) {
            assert(ascii_lowercase_chars(s@)[i as int] != lowercase[i as int]);
            return false;
        }
        i += 1;
    }
    assert(ascii_lowercase_chars(s@) =~= lowercase);
    true
}

/// The format that a file name extension selects: `bin` for the `.bin` file, `fits`
/// or `fit` for FITS, ignoring ASCII case.
pub fn output_format(extension: Option<&str>) -> (format: Option<OutputFormat>)
    ensures
        format == format_of_extension(extension_chars(extension)),
{
    proof {
        reveal_strlit("bin");
        reveal_strlit("fits");
        reveal_strlit("fit");
        assert("bin"@ =~= seq!['b', 'i', 'n']);
        assert("fits"@ =~= seq!['f', 'i', 't', 's']);
        assert("fit"@ =~= seq!['f', 'i', 't']);
    }
    match extension {
        Some(e) => if equals_ignoring_ascii_case(e, "bin") {
            Some(OutputFormat::Binary)
        } else if equals_ignoring_ascii_case(e, "fits")
            || equals_ignoring_ascii_case(e, "fit") {
            Some(OutputFormat::Fits)
        } else {
            None
        },
        None => None,
    }
}

pub const SELECT_FILE_FIRST: &'static str = "Select a file before starting to save";

pub const UNSUPPORTED_FILE_TYPE: &'static str = "Unsupported file type; use .bin, .fits, or .fit";

/// The extension `Some(e)` of a `&str`, as characters.
pub open spec fn extension_chars(extension: Option<&str>) -> Option<Seq<char>> {
    match extension {
        Some(e) => Some(e@),
        None => None,
    }
}

/// The name shown for the format that an extension selects.
pub open spec fn format_name(format: Option<OutputFormat>) -> Seq<char> {
    match format {
        Some(OutputFormat::Binary) => "HI binary v1"@,
        Some(OutputFormat::Fits) => "FITS table"@,
        None => "Unsupported format"@,
    }
}

/// The name shown for the format of a selected file with this extension.
pub fn selected_format_name(extension: Option<&str>) -> (name: &'static str)
    ensures
        name@ == format_name(format_of_extension(extension_chars(extension))),
{
    match output_format(extension) {
        Some(OutputFormat::Binary) => "HI binary v1",
        Some(OutputFormat::Fits) => "FITS table",
        None => "Unsupported format",
    }
}

/// The format to start saving in: none without a selected file, none for an
/// extension that selects no format; the message says which.
pub fn start_format(file_selected: bool, extension: Option<&str>) -> (result: Result<
    OutputFormat,
    &'static str,
>)
    ensures
        match result {
            Ok(format) => file_selected && format_of_extension(extension_chars(extension)) == Some(
                format,
            ),
            Err(message) => if !file_selected {
                message@ == SELECT_FILE_FIRST@
            } else {
                format_of_extension(extension_chars(extension)) is None && message@
                    == UNSUPPORTED_FILE_TYPE@
            },
        },
{
    if !file_selected {
        return Err(SELECT_FILE_FIRST);
    }
    match output_format(extension) {
        Some(format) => Ok(format),
        None => Err(UNSUPPORTED_FILE_TYPE),
    }
}

} // verus!
