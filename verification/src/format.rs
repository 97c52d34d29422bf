//! Output formats and the rule that maps an output path to one of them.

use crate::text::{ascii_lower, ascii_lowercase, chars_of, lowercase_from};
use vstd::prelude::*;
use vstd::string::StringExecFns;

verus! {

/// The encodings an image can be written in.
#[derive(Clone, Copy, Debug, PartialEq, Eq, Structural)]
pub enum OutputFormat {
    Jpeg,
    Png,
    Webp,
}

/// Why an output path names no format.
#[derive(Clone, Copy, Debug, PartialEq, Eq, Structural)]
pub enum FormatError {
    /// The path holds no `.` at all.
    MissingExtension,
    /// The text after the last `.` is none of `jpg`, `jpeg`, `png`, `webp`.
    UnsupportedFormat,
}

/// The text after the last `.` of `path`, or `None` where `path` holds no `.`.
pub open spec fn extension_of(path: Seq<char>) -> Option<Seq<char>>
    decreases path.len(),
{
    if path.len() == 0 {
        None
    } else if path.last() == '.' {
        Some(Seq::empty())
    } else {
        match extension_of(path.drop_last()) {
            Some(ext) => Some(ext.push(path.last())),
            None => None,
        }
    }
}

/// The format that an extension names, whatever the case of its letters.
pub open spec fn format_of_extension(ext: Seq<char>) -> Option<OutputFormat> {
    let lower = ascii_lowercase(ext);
    if lower == seq!['j', 'p', 'g'] || lower == seq!['j', 'p', 'e', 'g'] {
        Some(OutputFormat::Jpeg)
    } else if lower == seq!['p', 'n', 'g'] {
        Some(OutputFormat::Png)
    } else if lower == seq!['w', 'e', 'b', 'p'] {
        Some(OutputFormat::Webp)
    } else {
        None
    }
}

/// The format an output path asks for.
pub open spec fn format_of_path(path: Seq<char>) -> Result<OutputFormat, FormatError> {
    match extension_of(path) {
        None => Err(FormatError::MissingExtension),
        Some(ext) => match format_of_extension(ext) {
            Some(format) => Ok(format),
            None => Err(FormatError::UnsupportedFormat),
        },
    }
}

/// `extension_of` is the text behind the last `.`: it is `None` exactly when
/// no `.` occurs, and otherwise the tail that follows a `.` and holds none.
pub proof fn lemma_extension_of(path: Seq<char>)
    ensures
        extension_of(path) is None <==> forall|j: int| 0 <= j < path.len() ==> path[j] != '.',
        forall|i: int|
            0 <= i < path.len() && path[i] == '.' && (forall|j: int|
                i < j < path.len() ==> path[j] != '.') ==> extension_of(path) == Some(
                path.subrange(i + 1, path.len() as int),
            ),
    decreases path.len(),
{
    if path.len() > 0 {
        let front = path.drop_last();
        lemma_extension_of(front);
        if path.last() == '.' {
            assert forall|i: int|
                0 <= i < path.len() && path[i] == '.' && (forall|j: int|
                    i < j < path.len() ==> path[j] != '.') implies extension_of(path) == Some(
                path.subrange(i + 1, path.len() as int),
            ) by {
                assert(i == path.len() - 1);
                assert(path.subrange(i + 1, path.len() as int) =~= Seq::<char>::empty());
            }
        } else {
            assert forall|i: int|
                0 <= i < path.len() && path[i] == '.' && (forall|j: int|
                    i < j < path.len() ==> path[j] != '.') implies extension_of(path) == Some(
                path.subrange(i + 1, path.len() as int),
            ) by {
                assert(i < front.len());
                assert(front[i] == '.');
                assert(forall|j: int| i < j < front.len() ==> front[j] == path[j]);
                assert(extension_of(front) == Some(front.subrange(i + 1, front.len() as int)));
                assert(front.subrange(i + 1, front.len() as int).push(path.last())
                    =~= path.subrange(i + 1, path.len() as int));
            }
            assert(forall|j: int| 0 <= j < front.len() ==> front[j] == path[j]);
        }
    }
}

/// Finds the format that `path` asks for: the text after its last `.`,
/// lower-cased, names it.
pub fn detect_format(path: &str) -> (result: Result<OutputFormat, FormatError>)
    ensures
        result == format_of_path(path@),
{
    let chars = chars_of(path);
    let mut start: usize = chars.len();
    while start > 0 && chars[start - 1] != '.'
        invariant
            start <= chars.len(),
            forall|j: int| start <= j < chars.len() ==> chars[j] != '.',
        decreases start,
    {
        start -= 1;
    }
    proof {
        lemma_extension_of(chars@);
    }
    if start == 0 {
        return Err(FormatError::MissingExtension);
    }
    let lower = lowercase_from(&chars, start);
    let n = lower.len();
    let format = if n == 3 && lower[0] == 'j' && lower[1] == 'p' && lower[2] == 'g' {
        assert(lower@ =~= seq!['j', 'p', 'g']);
        Some(OutputFormat::Jpeg)
    } else if n == 4 && lower[0] == 'j' && lower[1] == 'p' && lower[2] == 'e' && lower[3] == 'g' {
        assert(lower@ =~= seq!['j', 'p', 'e', 'g']);
        Some(OutputFormat::Jpeg)
    } else if n == 3 && lower[0] == 'p' && lower[1] == 'n' && lower[2] == 'g' {
        assert(lower@ =~= seq!['p', 'n', 'g']);
        Some(OutputFormat::Png)
    } else if n == 4 && lower[0] == 'w' && lower[1] == 'e' && lower[2] == 'b' && lower[3] == 'p' {
        assert(lower@ =~= seq!['w', 'e', 'b', 'p']);
        Some(OutputFormat::Webp)
    } else {
        None
    };
    assert(format == format_of_extension(chars@.subrange(start as int, chars.len() as int)));
    match format {
        Some(f) => Ok(f),
        None => Err(FormatError::UnsupportedFormat),
    }
}

impl FormatError {
    /// The text shown to the user for this error.
    pub open spec fn message_text(self) -> Seq<char> {
        match self {
            FormatError::MissingExtension => "Formato de saida nao reconhecido (sem extensao)."@,
            FormatError::UnsupportedFormat => "Formato de saida nao suportado. Use JPEG, PNG ou WebP."@,
        }
    }

    /// The text shown to the user for this error.
    pub fn message(&self) -> (text: String)
        ensures
            text@ == self.message_text(),
    {
        match self {
            FormatError::MissingExtension => String::from_str(
                "Formato de saida nao reconhecido (sem extensao).",
            ),
            FormatError::UnsupportedFormat => String::from_str(
                "Formato de saida nao suportado. Use JPEG, PNG ou WebP.",
            ),
        }
    }
}

/// The case of ASCII letters in a path never changes the format it asks for:
/// two paths that are equal once lower-cased ask for the same one.
pub proof fn lemma_format_ignores_case(a: Seq<char>, b: Seq<char>)
    requires
        ascii_lowercase(a) == ascii_lowercase(b),
    ensures
        format_of_path(a) == format_of_path(b),
{
    lemma_extension_ignores_case(a, b);
}

/// Two paths that are equal once lower-cased have extensions that are equal
/// once lower-cased, or both have none.
pub proof fn lemma_extension_ignores_case(a: Seq<char>, b: Seq<char>)
    requires
        ascii_lowercase(a) == ascii_lowercase(b),
    ensures
        extension_of(a) is None <==> extension_of(b) is None,
        extension_of(a) is Some ==> ascii_lowercase(extension_of(a)->0) == ascii_lowercase(
            extension_of(b)->0,
        ),
    decreases a.len(),
{
    assert(a.len() == ascii_lowercase(a).len());
    assert(b.len() == ascii_lowercase(b).len());
    if a.len() > 0 {
        let n = a.len() - 1;
        assert(ascii_lower(a[n]) == ascii_lowercase(a)[n]);
        assert(ascii_lower(b[n]) == ascii_lowercase(b)[n]);
        assert(a.last() == '.' <==> b.last() == '.');
        if a.last() != '.' {
            let fa = a.drop_last();
            let fb = b.drop_last();
            assert(ascii_lowercase(fa) =~= ascii_lowercase(a).drop_last());
            assert(ascii_lowercase(fb) =~= ascii_lowercase(b).drop_last());
            lemma_extension_ignores_case(fa, fb);
            if extension_of(fa) is Some {
                let ea = extension_of(fa)->0;
                let eb = extension_of(fb)->0;
                assert(ea.len() == ascii_lowercase(ea).len());
                assert(eb.len() == ascii_lowercase(eb).len());
                assert(ascii_lowercase(ea.push(a.last())) =~= ascii_lowercase(ea).push(
                    ascii_lower(a.last()),
                ));
                assert(ascii_lowercase(eb.push(b.last())) =~= ascii_lowercase(eb).push(
                    ascii_lower(b.last()),
                ));
            }
        } else {
            assert(ascii_lowercase(Seq::<char>::empty()) =~= Seq::<char>::empty());
        }
    }
}

} // verus!
